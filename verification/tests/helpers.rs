use steam_tradeoffer_manager::cookies::{
    extract_auth_data_from_cookies, generate_sessionid, get_session_from_cookies, session_id_of,
};
use steam_tradeoffer_manager::enums::TradeOfferState;
use steam_tradeoffer_manager::error::{Error, SetCookiesError, TradeOfferError};
use steam_tradeoffer_manager::response_check::{check_response, check_response_for_errors, ErrorFields};

#[test]
fn helpers_generates_session() {
    let sessionid = generate_sessionid();

    assert_eq!(sessionid.len(), 24);
}

#[test]
fn str_error_response_is_error() {
    let json = r#"{
            "strError":"You cannot trade with this user because they have a trade ban (12345)"
        }"#;
    let fields = Some(ErrorFields {
        num_keys: 1,
        response: None,
        str_error: Some("You cannot trade with this user because they have a trade ban (12345)".to_string()),
    });
    let result = check_response_for_errors(&fields, None, json.as_bytes());

    assert!(result.is_err());
    assert!(matches!(result.unwrap_err(), Error::TradeOffer(TradeOfferError::TradeBan)));
}

#[test]
fn str_error_with_code_is_eresult_error() {
    let fields = Some(ErrorFields {
        num_keys: 1,
        response: None,
        str_error: Some("There was an error sending your trade offer. (26)".to_string()),
    });

    assert_eq!(
        check_response_for_errors(&fields, None, b"{}"),
        Err(Error::TradeOffer(TradeOfferError::UnknownEResult(26)))
    );
}

#[test]
fn login_redirect_is_not_logged_in() {
    let login = Some("https://steamcommunity.com/login/home".to_string());

    assert_eq!(check_response(302, &login, &None, &None, b""), Err(Error::NotLoggedIn));
    assert_eq!(check_response(500, &None, &None, &None, b""), Err(Error::StatusCode(500)));
    assert_eq!(check_response(200, &None, &None, &None, b"{}"), Ok(()));
}

#[test]
fn session_is_read_back_from_cookies() {
    let mut cookies = vec!["steamLoginSecure=76561198000000000%7C%7Ctoken.value".to_string()];
    let session = get_session_from_cookies(&mut cookies).unwrap();

    assert_eq!(session.steamid, 76561198000000000);
    assert_eq!(session.access_token, "token.value");
    assert_eq!(cookies.len(), 2);
    assert_eq!(cookies[1], format!("sessionid={}", session.sessionid));

    let data = extract_auth_data_from_cookies(&cookies).unwrap();

    assert_eq!(data.sessionid, Some(session.sessionid.clone()));
    assert_eq!(data.steamid, 76561198000000000);
    assert_eq!(data.access_token, "token.value");
}

#[test]
fn cookies_without_login_are_refused() {
    let cookies = vec!["sessionid=abc".to_string()];

    assert!(matches!(extract_auth_data_from_cookies(&cookies), Err(SetCookiesError::MissingAccessToken)));

    let bad = vec!["steamLoginSecure=123%7C%7Ctoken".to_string()];

    assert!(matches!(extract_auth_data_from_cookies(&bad), Err(SetCookiesError::MissingAccessToken)));
}

#[test]
fn trade_offer_state_is_copy() {
    let state = TradeOfferState::Active;
    let copied = state;

    assert_eq!(state, copied);
}

use steam_tradeoffer_manager::response_check::unexpected_body_error;

#[test]
fn eresult_on_empty_response_is_error() {
    let fields = Some(ErrorFields { num_keys: 1, response: Some("{}".to_string()), str_error: None });

    assert_eq!(
        check_response_for_errors(&fields, Some(2), b"{\"response\":{}}"),
        Err(Error::SteamEResult(2, "{\"response\":{}}".to_string()))
    );
    assert_eq!(check_response_for_errors(&fields, Some(1), b"{\"response\":{}}"), Ok(()));

    let with_data = Some(ErrorFields { num_keys: 1, response: Some("{\"a\":1}".to_string()), str_error: None });

    assert_eq!(check_response_for_errors(&with_data, Some(2), b"{}"), Ok(()));
}

#[test]
fn unexpected_bodies() {
    assert_eq!(
        unexpected_body_error(b"<h1>Sorry!</h1>\n<h3>An error occurred</h3>\n"),
        Error::UnexpectedResponse("An error occurred".to_string())
    );
    assert_eq!(unexpected_body_error(b"<h1>Sign In</h1> g_steamID = false;"), Error::NotLoggedIn);
    assert_eq!(unexpected_body_error(b"{\"success\":false}"), Error::ResponseUnsuccessful);
    assert_eq!(unexpected_body_error(b"Access is denied"), Error::NotLoggedIn);
    assert_eq!(
        unexpected_body_error(b"<div id=\"error_msg\">Failed (28)</div>"),
        Error::TradeOffer(TradeOfferError::AlreadyRedeemed)
    );
    assert!(matches!(unexpected_body_error(b"<html></html>"), Error::MalformedResponseWithBody(_, body) if body == "<html></html>"));
}

#[test]
fn session_id_of_bytes() {
    let bytes = [0x37u8, 0xbf, 0x52, 0x3a, 0x24, 0x03, 0x4e, 0xc0, 0x6c, 0x60, 0xec, 0x61];
    assert_eq!(session_id_of(&bytes), "37bf523a24034ec06c60ec61");
    assert_eq!(session_id_of(&[0u8; 12]), "000000000000000000000000");
    assert_eq!(session_id_of(&[0xffu8; 12]), "ffffffffffffffffffffffff");
}
