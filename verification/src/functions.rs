//! Reading the page of the Steam Web API key, whose HTML the `scraper` crate parses.
use vstd::prelude::*;
use crate::cookies::{find_char_from, first_from, lemma_first_from};
use crate::error::{Error, ParseHtmlError};
use crate::text::{chars_of, string_of};

verus! {

/// Whether `scraper` parses `selector` as a CSS selector.
pub uninterp spec fn selector_valid(selector: Seq<char>) -> bool;

/// The text of the first element of the HTML fragment `html` that `selector` selects, as
/// `scraper` finds it, if any.
pub uninterp spec fn first_selected_text(html: Seq<char>, selector: Seq<char>) -> Option<Seq<char>>;

/// For the first element of the HTML fragment `html` that `outer` selects, if any: its text, and
/// the text of the first element inside it that `inner` selects, if any, as `scraper` finds
/// them.
pub uninterp spec fn first_selected_text_within(
    html: Seq<char>,
    outer: Seq<char>,
    inner: Seq<char>,
) -> Option<(Seq<char>, Option<Seq<char>>)>;

/// Whether `scraper` can parse `selector`.
///
/// Calls `scraper::Selector::parse`; the result is named with [`selector_valid`].
#[verifier::external_body]
fn selector_parses(selector: &str) -> (res: bool)
    ensures
        res == selector_valid(selector@),
{
    scraper::Selector::parse(selector).is_ok()
}

/// The text of the first element of the fragment `html` that `selector` selects.
///
/// Calls `scraper::Html::parse_fragment`, `Selector::parse`, `Html::select` and collects the
/// text of the first element; the result is named with [`first_selected_text`].
#[verifier::external_body]
fn first_text(html: &str, selector: &str) -> (res: Option<String>)
    requires
        selector_valid(selector@),
    ensures
        match res {
            Some(t) => first_selected_text(html@, selector@) == Some(t@),
            None => first_selected_text(html@, selector@) is None,
        },
{
    let fragment = scraper::Html::parse_fragment(html);
    match scraper::Selector::parse(selector) {
        Ok(selector) => match fragment.select(&selector).next() {
            Some(element) => Some(element.text().collect::<String>()),
            None => None,
        },
        Err(_) => None,
    }
}

/// For the first element of the fragment `html` that `outer` selects: its text, and the text of
/// the first element inside it that `inner` selects.
///
/// Calls `scraper::Html::parse_fragment`, `Selector::parse`, `Html::select`,
/// `ElementRef::select` and collects texts; the result is named with
/// [`first_selected_text_within`].
#[verifier::external_body]
fn first_text_within(html: &str, outer: &str, inner: &str) -> (res: Option<(String, Option<String>)>)
    requires
        selector_valid(outer@),
        selector_valid(inner@),
    ensures
        match res {
            Some((t, i)) => first_selected_text_within(html@, outer@, inner@) == Some(
                (
                    t@,
                    match i {
                        Some(x) => Some(x@),
                        None => None,
                    },
                ),
            ),
            None => first_selected_text_within(html@, outer@, inner@) is None,
        },
{
    let fragment = scraper::Html::parse_fragment(html);
    let outer = scraper::Selector::parse(outer).ok()?;
    let inner = scraper::Selector::parse(inner).ok()?;
    let element = fragment.select(&outer).next()?;
    let inner_text = match element.select(&inner).next() {
        Some(found) => Some(found.text().collect::<String>()),
        None => None,
    };
    Some((element.text().collect::<String>(), inner_text))
}

/// The message of the error for a page without an API key.
pub open spec fn no_api_key_message() -> Seq<char> {
    "This account does not have an API key"@
}

/// The message of the error for a page whose API key could not be read.
pub open spec fn could_not_get_key_message() -> Seq<char> {
    "API key could not be parsed from response"@
}

/// The second piece of `t` split at spaces, as `str::split(' ')` gives it, if there is one.
pub open spec fn second_piece(t: Seq<char>) -> Option<Seq<char>> {
    let i = first_from(t, ' ', 0);
    if i >= t.len() {
        None
    } else {
        Some(t.subrange(i + 1, first_from(t, ' ', i + 1)))
    }
}

/// `res` is what reading the API key page `html` gives: the selectors must parse; a page whose
/// main heading is "Access Denied" means no login; a page with the heading of the key gives the
/// second word of the paragraph inside it; any other page has no key.
pub open spec fn api_key_page_ok(res: Result<String, Error>, html: Seq<char>) -> bool {
    let main = "#mainContents h2"@;
    let key = "#bodyContents_ex h2"@;
    let par = "#bodyContents_ex p"@;
    if !(selector_valid(main) && selector_valid(key) && selector_valid(par)) {
        res == Err::<String, Error>(Error::ParseHtml(ParseHtmlError::ParseSelector))
    } else if first_selected_text(html, main) == Some("Access Denied"@) {
        res == Err::<String, Error>(Error::NotLoggedIn)
    } else {
        match first_selected_text_within(html, key, par) {
            Some((heading, Some(text))) if heading == "Your Steam Web API Key"@ => match second_piece(
                text,
            ) {
                Some(k) => res is Ok && res->Ok_0@ == k,
                None => res is Err && res->Err_0 is ParseHtml && res->Err_0->ParseHtml_0 is Malformed
                    && res->Err_0->ParseHtml_0->Malformed_0@ == could_not_get_key_message(),
            },
            _ => res is Err && res->Err_0 is ParseHtml && res->Err_0->ParseHtml_0 is Malformed
                && res->Err_0->ParseHtml_0->Malformed_0@ == no_api_key_message(),
        }
    }
}

/// Whether two strings hold the same characters.
fn str_eq(a: &str, b: &str) -> (res: bool)
    ensures
        res == (a@ == b@),
{
    let ac = chars_of(a);
    let bc = chars_of(b);
    if ac.len() != bc.len() {
        return false;
    }
    let mut i: usize = 0;
    while i < ac.len()
        invariant
            ac@ == a@,
            bc@ == b@,
            ac@.len() == bc@.len(),
            i <= ac@.len(),
            forall|j: int| 0 <= j < i ==> ac@[j] == bc@[j],
        decreases ac@.len() - i,
    {
        if ac[i] != bc[i] {
            assert(a@[i as int] != b@[i as int]);
            return false;
        }
        i = i + 1;
    }
    assert(a@ =~= b@);
    true
}

/// Reads the Steam Web API key from the key page.
pub fn read_api_key_page(html: &str) -> (res: Result<String, Error>)
    ensures
        api_key_page_ok(res, html@),
{
    let main = "#mainContents h2";
    let key = "#bodyContents_ex h2";
    let par = "#bodyContents_ex p";
    if !(selector_parses(main) && selector_parses(key) && selector_parses(par)) {
        return Err(Error::ParseHtml(ParseHtmlError::ParseSelector));
    }
    match first_text(html, main) {
        Some(t) => {
            if str_eq(t.as_str(), "Access Denied") {
                return Err(Error::NotLoggedIn);
            }
        },
        None => {},
    }
    match first_text_within(html, key, par) {
        Some((heading, Some(text))) => {
            if str_eq(heading.as_str(), "Your Steam Web API Key") {
                let t = chars_of(text.as_str());
                let i = find_char_from(t.as_slice(), ' ', 0);
                proof {
                    lemma_first_from(t@, ' ', 0);
                }
                if i >= t.len() {
                    return Err(
                        Error::ParseHtml(
                            ParseHtmlError::Malformed("API key could not be parsed from response"),
                        ),
                    );
                }
                let j = find_char_from(t.as_slice(), ' ', i + 1);
                proof {
                    lemma_first_from(t@, ' ', i + 1);
                }
                let mut piece: Vec<char> = Vec::new();
                let mut k = i + 1;
                while k < j
                    invariant
                        i + 1 <= k <= j <= t@.len(),
                        piece@ == t@.subrange(i + 1, k as int),
                    decreases j - k,
                {
                    piece.push(t[k]);
                    proof {
                        assert(t@.subrange(i + 1, k + 1) =~= t@.subrange(i + 1, k as int).push(
                            t@[k as int],
                        ));
                    }
                    k = k + 1;
                }
                return Ok(string_of(piece.as_slice()));
            }
        },
        _ => {},
    }
    Err(Error::ParseHtml(ParseHtmlError::Malformed("This account does not have an API key")))
}

/// Whether reading the key page failed only because the account has no key yet, in which case
/// a key is registered and the page read again.
pub fn needs_api_key_registration(res: &Result<String, Error>) -> (b: bool)
    ensures
        b == (res is Err && res->Err_0 is ParseHtml && res->Err_0->ParseHtml_0 is Malformed
            && res->Err_0->ParseHtml_0->Malformed_0@ == no_api_key_message()),
{
    match res {
        Err(Error::ParseHtml(ParseHtmlError::Malformed(message))) => str_eq(
            message,
            "This account does not have an API key",
        ),
        _ => false,
    }
}

} // verus!
