use vstd::prelude::*;

verus! {

/// The user's credentials for the updater.
#[derive(Debug, Clone, PartialEq, Eq)]
pub struct Config {
    pub username: String,
    pub token: String,
}

impl Config {
    pub fn new(username: String, token: String) -> (r: Config)
        ensures
            r.username == username,
            r.token == token,
    {
        Config { username, token }
    }

    /// The credentials as a query string.
    pub fn to_query(&self) -> (r: String)
        ensures
            r@ == "username="@ + self.username@ + "&token="@ + self.token@,
    {
        let mut q = String::from_str("username=");
        q.append(self.username.as_str());
        q.append("&token=");
        q.append(self.token.as_str());
        q
    }
}

} // verus!
