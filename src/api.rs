use vstd::prelude::*;

use crate::config::Config;

verus! {

/// The site that answers the credential check.
pub const BASE_URL: &'static str = "https://factorio.com";

/// A signed-in user's access to the updater.
#[derive(Debug, Clone, PartialEq, Eq)]
pub struct Api {
    pub config: Config,
}

/// The body of an error answer.
#[derive(Debug, Clone, PartialEq, Eq)]
pub struct ErrorResponse {
    pub message: String,
    pub statuc: u32,
}

/// Why a call to the site failed.
#[derive(Debug, Clone, Copy, PartialEq, Eq, Structural)]
pub enum ApiError {
    /// The request did not get through.
    Reqwest,
    /// The answer could not be read.
    Decode,
}

/// The HTTP status of success.
pub const STATUS_OK: u16 = 200;

impl Api {
    pub fn new(config: Config) -> (r: Api)
        ensures
            r.config == config,
    {
        Api { config }
    }

    /// The address that lists the available versions for these credentials.
    pub fn versions_url(&self) -> (r: String)
        ensures
            r@ == BASE_URL@ + "/get-available-versions?"@ + "username="@ + self.config.username@
                + "&token="@ + self.config.token@,
    {
        let mut url = String::from_str(BASE_URL);
        url.append("/get-available-versions?");
        let q = self.config.to_query();
        url.append(q.as_str());
        assert(url@ =~= BASE_URL@ + "/get-available-versions?"@ + "username="@
            + self.config.username@ + "&token="@ + self.config.token@);
        url
    }

    /// Whether an answer with this status accepts the credentials: only
    /// success does.
    pub fn credentials_accepted(status: u16) -> (r: bool)
        ensures
            r == (status == STATUS_OK),
    {
        status == STATUS_OK
    }
}

} // verus!
