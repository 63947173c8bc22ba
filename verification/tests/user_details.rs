use steam_tradeoffer_manager::error::ParseHtmlError;
use steam_tradeoffer_manager::functions::{needs_api_key_registration, read_api_key_page};
use steam_tradeoffer_manager::error::Error;
use steam_tradeoffer_manager::user_details::{parse_user_details, User, UserDetails};

const OFFER_PAGE: &str = "<html>\n  <script type=\"text/javascript\">\n\t\tvar g_rgAppContextData = {};\n\t\tvar g_daysMyEscrow = 0;\n\t\tvar g_daysTheirEscrow = 15;\n</script></html>";

#[test]
fn parses_user_details() {
    let user_details = parse_user_details(OFFER_PAGE);

    assert!(user_details.is_ok());
    assert_eq!(
        user_details.unwrap(),
        UserDetails { me: User { escrow_days: 0 }, them: User { escrow_days: 15 } }
    );
}

#[test]
fn user_details_need_script() {
    assert_eq!(
        parse_user_details("<html></html>"),
        Err(ParseHtmlError::Malformed("Missing script tag"))
    );
}

#[test]
fn unreadable_escrow_days_are_zero() {
    let page = "<html>\n<script type=\"text/javascript\">\nvar g_rgAppContextData = {};\nvar g_daysMyEscrow = 99999999999;\n</script>";

    assert_eq!(
        parse_user_details(page).unwrap(),
        UserDetails { me: User { escrow_days: 0 }, them: User { escrow_days: 0 } }
    );
}

#[test]
fn api_key_paragraph_inside_heading_without_key() {
    // The text of the heading holds the text of the paragraph inside it, so only an empty
    // paragraph leaves the heading's text as it is; its second word is then missing.
    let page = "<div id=\"bodyContents_ex\"><h2>Your Steam Web API Key<p></p></h2></div>";

    assert_eq!(
        read_api_key_page(page),
        Err(Error::ParseHtml(ParseHtmlError::Malformed("API key could not be parsed from response")))
    );
}

#[test]
fn api_key_page_access_denied() {
    let page = "<div id=\"mainContents\"><h2>Access Denied</h2></div>";

    assert_eq!(read_api_key_page(page), Err(Error::NotLoggedIn));
}

#[test]
fn api_key_page_without_key() {
    let result = read_api_key_page("<div id=\"bodyContents_ex\"><h2>Register</h2></div>");

    assert_eq!(result, Err(Error::ParseHtml(ParseHtmlError::Malformed("This account does not have an API key"))));
    assert!(needs_api_key_registration(&result));
    assert!(!needs_api_key_registration(&Err(Error::NotLoggedIn)));
}
