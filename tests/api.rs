use factorio_updater::api::{Api, ApiError};
use factorio_updater::config::Config;
use factorio_updater::query::{get_base_query_params, patch_link_query};
use factorio_updater::screens::{
    check_login_form, login_outcome_error,
    percent_length, popup_area, Main, PopupArea, PopupKey, PopupResult, PopupType, Selected,
};
use factorio_updater::structs::{Args, Platform, Version, VersionDiff};

fn pair(a: &str, b: &str) -> (String, String) {
    (a.to_string(), b.to_string())
}

#[test]
fn credentials_query() {
    let c = Config::new("alice".to_string(), "s3".to_string());
    assert_eq!(c.to_query(), "username=alice&token=s3");
    let api = Api::new(c);
    assert_eq!(api.versions_url(), "https://factorio.com/get-available-versions?username=alice&token=s3");
    assert!(Api::credentials_accepted(200));
    assert!(!Api::credentials_accepted(401));
}

#[test]
fn query_parameters() {
    let args = Args {
        version: Version::SpaceAge,
        platform: Platform::Win64,
        username: "bob".to_string(),
        token: "t".to_string(),
        custom_folder: None,
    };
    assert_eq!(
        get_base_query_params(&args),
        vec![pair("username", "bob"), pair("token", "t"), pair("version", "2")]
    );
    let d = VersionDiff { from: "2.0.1".to_string(), to: "2.0.2".to_string() };
    assert_eq!(
        patch_link_query(&args, &d),
        vec![
            pair("username", "bob"),
            pair("token", "t"),
            pair("version", "2"),
            pair("package", "core_expansion-win64"),
            pair("from", "2.0.1"),
            pair("to", "2.0.2"),
        ]
    );
}

#[test]
fn main_screen_greets_the_user() {
    let m = Main::new(Api::new(Config::new("carol".to_string(), "x".to_string())));
    assert_eq!(m.username, "carol");
    assert_eq!(m.count, 0);
}

#[test]
fn form_focus_goes_round() {
    assert_eq!(Selected::Username.next(), Selected::Token);
    assert_eq!(Selected::Button.next(), Selected::Username);
    assert_eq!(Selected::Username.prev(), Selected::Button);
    assert_eq!(Selected::Token.prev(), Selected::Username);
}

#[test]
fn popup_answers() {
    assert_eq!(PopupType::Notice.answer(PopupKey::Enter), Some(PopupResult::Acknowledged));
    assert_eq!(PopupType::Notice.answer(PopupKey::Char('y')), None);
    assert_eq!(PopupType::YesNo.answer(PopupKey::Char('y')), Some(PopupResult::Yes));
    assert_eq!(PopupType::YesNo.answer(PopupKey::Char('n')), Some(PopupResult::No));
    assert_eq!(PopupType::YesNo.answer(PopupKey::Enter), None);
}

#[test]
fn layout_lengths() {
    assert_eq!(percent_length(200, 25), 50);
    assert_eq!(percent_length(65535, 100), 65535);
    assert_eq!(percent_length(10, 150), 15);
    assert_eq!(popup_area(40, 20), PopupArea { x: 0, y: 0, width: 40, height: 20 });
    assert_eq!(popup_area(150, 40), PopupArea { x: 60, y: 16, width: 30, height: 8 });
    assert_eq!(popup_area(210, 14), PopupArea { x: 90, y: 6, width: 30, height: 5 });
}

#[test]
fn login_form_needs_both_fields() {
    let empty = check_login_form("", "");
    assert_eq!(empty.username_error, Some("Please enter username"));
    assert_eq!(empty.token_error, Some("Please enter token"));
    assert!(!empty.is_valid());
    let half = check_login_form("dave", "");
    assert_eq!(half.username_error, None);
    assert!(!half.is_valid());
    assert!(check_login_form("dave", "t").is_valid());
}

#[test]
fn login_outcome_messages() {
    assert_eq!(login_outcome_error(Ok(true)), None);
    assert_eq!(login_outcome_error(Ok(false)), Some("Invalid combination of username/token"));
    assert_eq!(login_outcome_error(Err(ApiError::Decode)), Some("Unable to check username/token validity"));
}
