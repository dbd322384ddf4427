use vstd::prelude::*;

use crate::api::{Api, ApiError};

verus! {

/// The screen shown once the user is signed in.
#[derive(Debug, Clone, PartialEq, Eq)]
pub struct Main {
    pub username: String,
    pub api: Api,
    pub count: usize,
}

impl Main {
    pub fn new(api: Api) -> (r: Main)
        ensures
            r.username == api.config.username,
            r.api == api,
            r.count == 0,
    {
        Main { username: api.config.username.clone(), api, count: 0 }
    }
}

/// The focused element of the sign-in form.
#[derive(Debug, Clone, Copy, PartialEq, Eq, Structural, Default)]
pub enum Selected {
    #[default]
    Username,
    Token,
    Button,
}

impl Selected {
    /// The element after this one, going round.
    pub fn next(&self) -> (r: Selected)
        ensures
            r == (match *self {
                Selected::Username => Selected::Token,
                Selected::Token => Selected::Button,
                Selected::Button => Selected::Username,
            }),
    {
        match self {
            Selected::Username => Selected::Token,
            Selected::Token => Selected::Button,
            Selected::Button => Selected::Username,
        }
    }

    /// The element before this one, going round.
    pub fn prev(&self) -> (r: Selected)
        ensures
            r == (match *self {
                Selected::Username => Selected::Button,
                Selected::Token => Selected::Username,
                Selected::Button => Selected::Token,
            }),
    {
        match self {
            Selected::Username => Selected::Button,
            Selected::Token => Selected::Username,
            Selected::Button => Selected::Token,
        }
    }
}

/// What the sign-in form says of its two fields: an error for each that
/// is empty.
#[derive(Debug, Clone, Copy, PartialEq, Eq)]
pub struct LoginCheck {
    pub username_error: Option<&'static str>,
    pub token_error: Option<&'static str>,
}

impl LoginCheck {
    /// Whether the form may be sent.
    pub open spec fn spec_is_valid(self) -> bool {
        self.username_error is None && self.token_error is None
    }

    pub fn is_valid(&self) -> (r: bool)
        ensures
            r == self.spec_is_valid(),
    {
        self.username_error.is_none() && self.token_error.is_none()
    }
}

/// Checks that both fields of the sign-in form are filled in.
pub fn check_login_form(username: &str, token: &str) -> (r: LoginCheck)
    ensures
        username@.len() == 0 ==> (r.username_error matches Some(m) && m@
            == "Please enter username"@),
        username@.len() != 0 ==> r.username_error is None,
        token@.len() == 0 ==> (r.token_error matches Some(m) && m@ == "Please enter token"@),
        token@.len() != 0 ==> r.token_error is None,
{
    LoginCheck {
        username_error: if username.is_empty() {
            Some("Please enter username")
        } else {
            None
        },
        token_error: if token.is_empty() {
            Some("Please enter token")
        } else {
            None
        },
    }
}

/// The error that the sign-in form shows after the credential check:
/// none when the credentials were accepted.
pub fn login_outcome_error(outcome: Result<bool, ApiError>) -> (r: Option<&'static str>)
    ensures
        outcome == Ok::<bool, ApiError>(true) ==> r is None,
        outcome == Ok::<bool, ApiError>(false) ==> (r matches Some(m) && m@
            == "Invalid combination of username/token"@),
        outcome is Err ==> (r matches Some(m) && m@ == "Unable to check username/token validity"@),
{
    match outcome {
        Ok(true) => None,
        Ok(false) => Some("Invalid combination of username/token"),
        Err(_) => Some("Unable to check username/token validity"),
    }
}

/// The axis along which a length is measured.
#[derive(Debug, Clone, Copy, PartialEq, Eq, Structural)]
pub enum ConstaintDirection {
    Horizontal,
    Vertical,
}

/// The length of `percent` percent of `dimension`, rounded down.
pub fn percent_length(dimension: u16, percent: u16) -> (r: u16)
    requires
        dimension * percent / 100 <= u16::MAX,
    ensures
        r == dimension * percent / 100,
{
    assert((dimension as u32) * (percent as u32) <= 65535 * 65535) by (nonlinear_arith)
        requires
            dimension <= 65535,
            percent <= 65535,
    ;
    let scaled: u32 = (dimension as u32) * (percent as u32);
    (scaled / 100) as u16
}

/// How a text field shows its content.
#[derive(Debug, Clone, Copy, PartialEq, Eq, Structural, Default)]
pub enum InputType {
    #[default]
    Text,
    Password,
}

/// The answers that a popup asks for.
#[derive(Debug, Clone, Copy, PartialEq, Eq, Structural, Default)]
pub enum PopupType {
    /// A message to acknowledge.
    #[default]
    Notice,
    YesNo,
}

/// The answer given to a popup.
#[derive(Debug, Clone, Copy, PartialEq, Eq, Structural)]
pub enum PopupResult {
    Acknowledged,
    Yes,
    No,
}

/// A key press as a popup reads it.
#[derive(Debug, Clone, Copy, PartialEq, Eq, Structural)]
pub enum PopupKey {
    Enter,
    Char(char),
    Other,
}

impl PopupType {
    /// The answer that `key` gives to a popup of this type, if any: Enter
    /// confirms a plain popup, `y` and `n` answer a yes/no one.
    pub fn answer(&self, key: PopupKey) -> (r: Option<PopupResult>)
        ensures
            r == (match (*self, key) {
                (PopupType::Notice, PopupKey::Enter) => Some(PopupResult::Acknowledged),
                (PopupType::YesNo, PopupKey::Char('y')) => Some(PopupResult::Yes),
                (PopupType::YesNo, PopupKey::Char('n')) => Some(PopupResult::No),
                _ => None,
            }),
    {
        match (self, key) {
            (PopupType::Notice, PopupKey::Enter) => Some(PopupResult::Acknowledged),
            (PopupType::YesNo, PopupKey::Char('y')) => Some(PopupResult::Yes),
            (PopupType::YesNo, PopupKey::Char('n')) => Some(PopupResult::No),
            _ => None,
        }
    }
}

/// Where a popup is drawn on a screen area.
#[derive(Debug, Clone, Copy, PartialEq, Eq, Structural)]
pub struct PopupArea {
    pub x: u16,
    pub y: u16,
    pub width: u16,
    pub height: u16,
}

/// How many times wider than the popup a screen of this width is.
pub open spec fn popup_ratio(width: u16) -> u16 {
    if width > 200 {
        7
    } else if width > 100 {
        5
    } else if width > 50 {
        3
    } else {
        1
    }
}

/// The popup's place on a `width` by `height` screen: the whole screen when
/// it is narrow, else a centred share of it at least five rows high.
pub fn popup_area(width: u16, height: u16) -> (r: PopupArea)
    ensures
        popup_ratio(width) == 1 ==> r == (PopupArea { x: 0, y: 0, width, height }),
        popup_ratio(width) != 1 ==> r == (PopupArea {
            x: ((width - width / popup_ratio(width)) / 2) as u16,
            y: ((height - height / popup_ratio(width)) / 2) as u16,
            width: (width / popup_ratio(width)) as u16,
            height: (if height / popup_ratio(width) >= 5 {
                height / popup_ratio(width)
            } else {
                5
            }) as u16,
        }),
{
    let ratio: u16 = if width > 200 {
        7
    } else if width > 100 {
        5
    } else if width > 50 {
        3
    } else {
        1
    };
    if ratio == 1 {
        PopupArea { x: 0, y: 0, width, height }
    } else {
        let w = width / ratio;
        let h = height / ratio;
        PopupArea {
            x: (width - w) / 2,
            y: (height - h) / 2,
            width: w,
            height: if h >= 5 {
                h
            } else {
                5
            },
        }
    }
}

} // verus!
