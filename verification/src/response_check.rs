//! Deciding whether a response from Steam is an error, and which.
use vstd::prelude::*;
use crate::error::{Error, TradeOfferError, message_code, from_code_spec};
use crate::text::{
    chars_of, string_of, contains, contains_chars, occurs_at, matches_at, find_from,
    parse_u32_spec, parse_u32, parse_u32_range, trim, trim_bounds, is_ws, is_ws_char,
    last_index_of, rfind_char, lead_ws, lemma_last_index_of,
};
use crate::cookies::{find_char_from, first_from, lemma_first_from};

verus! {

// ---------------------------------------------------------------------------------------------
// Text of a body.
// ---------------------------------------------------------------------------------------------

/// The text that `String::from_utf8_lossy` makes of `bytes`.
pub uninterp spec fn lossy_text(bytes: Seq<u8>) -> Seq<char>;

/// Reads a body as text, replacing invalid UTF-8 with the replacement character.
///
/// Calls `String::from_utf8_lossy` of std. The contract names its result, which depends on the
/// bytes alone.
#[verifier::external_body]
pub(crate) fn body_text(bytes: &[u8]) -> (res: String)
    ensures
        res@ == lossy_text(bytes@),
{
    String::from_utf8_lossy(bytes).into_owned()
}

// ---------------------------------------------------------------------------------------------
// Status and headers.
// ---------------------------------------------------------------------------------------------

/// What the status code and the `location` header of a response decide: a redirect (300 to
/// 399) to a location that holds `/login` means that we are not logged in; a status of 400 to
/// 599 is an error with that status; anything else goes on to the body.
pub open spec fn status_outcome(status: u16, location: Option<Seq<char>>) -> Result<(), Error> {
    if 300 <= status <= 399 && location is Some && contains(location->0, "/login"@) {
        Err(Error::NotLoggedIn)
    } else if 400 <= status <= 599 {
        Err(Error::StatusCode(status))
    } else {
        Ok(())
    }
}

/// Decides [`status_outcome`]. `location` is the `location` header as text, when it is there
/// and made of visible ASCII.
pub fn check_status(status: u16, location: &Option<String>) -> (res: Result<(), Error>)
    ensures
        res == status_outcome(
            status,
            match location {
                Some(l) => Some(l@),
                None => None,
            },
        ),
{
    if !(200 <= status && status <= 299) {
        if 300 <= status && status <= 399 {
            if let Some(l) = location {
                let lc = chars_of(l.as_str());
                let pat = chars_of("/login");
                if contains_chars(lc.as_slice(), pat.as_slice()) {
                    return Err(Error::NotLoggedIn);
                }
            }
        }
        if 400 <= status && status <= 599 {
            return Err(Error::StatusCode(status));
        }
    }
    Ok(())
}

/// Every status of 400 to 599 is an error carrying that status, whatever the `location`; a
/// success status of 200 to 299 always passes; only a redirect (300 to 399) can mean that we
/// are not logged in; and a status outside 300 to 599 never fails.
pub proof fn law_error_statuses(status: u16, location: Option<Seq<char>>)
    ensures
        400 <= status <= 599 ==> status_outcome(status, location) == Err::<(), Error>(
            Error::StatusCode(status),
        ),
        (status < 300 || status > 599) ==> status_outcome(status, location) == Ok::<(), Error>(()),
        status_outcome(status, location) == Err::<(), Error>(Error::NotLoggedIn) ==> 300 <= status
            <= 399,
        (300 <= status <= 399 && location is None) ==> status_outcome(status, location) == Ok::<
            (),
            Error,
        >(()),
{
}

/// What the error fields of a JSON body decide: no fields, or no `strError` with no EResult,
/// an EResult of 1 or more than one key, is no error; a `strError` is always a trade offer error,
/// a trade ban where the message says so; and an EResult other than 1 on a body whose single
/// key is an empty `response` is an EResult error with that code.
pub proof fn law_body_errors(
    res: Result<(), Error>,
    fields: Option<ErrorFields>,
    eresult: Option<u32>,
    body: Seq<u8>,
)
    requires
        body_errors_ok(res, fields, eresult, body),
    ensures
        fields is None ==> res == Ok::<(), Error>(()),
        fields matches Some(j) ==> (j.str_error is Some ==> res matches Err(Error::TradeOffer(_))),
        fields matches Some(j) ==> (j.str_error matches Some(m) ==> (contains(
            m@,
            "You cannot trade with"@,
        ) && contains(m@, "trade ban"@) ==> res == Err::<(), Error>(
            Error::TradeOffer(TradeOfferError::TradeBan),
        ))),
        fields matches Some(j) ==> (j.str_error is None && (eresult is None || eresult == Some(
            1u32,
        ) || j.num_keys > 1) ==> res == Ok::<(), Error>(())),
        fields matches Some(j) ==> (j.str_error is None ==> (res is Err ==> (res->Err_0 is SteamEResult
            && eresult == Some(res->Err_0->SteamEResult_0) && res->Err_0->SteamEResult_0 != 1))),
        fields matches Some(j) ==> ((j.str_error is None && eresult is Some && eresult->0 != 1
            && j.num_keys <= 1 && j.response is Some && (j.response->0@.len() == 0
            || j.response->0@[0] != '{')) ==> (res is Err && res->Err_0 is SteamEResult
            && res->Err_0->SteamEResult_0 == eresult->0)),
{
}

/// Reads the `x-eresult` header: its text parsed as a `u32`.
pub fn parse_eresult(header: &Option<String>) -> (res: Option<u32>)
    ensures
        res == match header {
            Some(h) => parse_u32_spec(h@),
            None => None,
        },
{
    match header {
        Some(h) => {
            let c = chars_of(h.as_str());
            parse_u32(c.as_slice())
        },
        None => None,
    }
}

// ---------------------------------------------------------------------------------------------
// Errors within a JSON body.
// ---------------------------------------------------------------------------------------------

/// The fields of a JSON body that errors are read from: the number of keys of its top-level
/// object, and its `response` and `strError` values where those are strings.
#[derive(Debug, Clone)]
pub struct ErrorFields {
    /// The number of keys of the top-level object.
    pub num_keys: usize,
    /// The `response` value.
    pub response: Option<String>,
    /// The `strError` value.
    pub str_error: Option<String>,
}

/// The EResult code in parentheses at the end of a `strError` message: what follows the last
/// `(`, without a final `)`, trimmed and read as a number.
pub open spec fn str_error_code(m: Seq<char>) -> Option<u32> {
    match last_index_of(m, '(') {
        Some(i) => {
            let num = m.subrange(i + 1, m.len() as int);
            if num.len() > 0 && num.last() == ')' {
                parse_u32_spec(trim(num.drop_last()))
            } else {
                None
            }
        },
        None => None,
    }
}

/// The trade offer error that a `strError` message stands for.
pub open spec fn str_error_kind(m: Seq<char>) -> Option<TradeOfferError> {
    if contains(m, "You cannot trade with"@) && contains(m, "trade ban"@) {
        Some(TradeOfferError::TradeBan)
    } else if contains(m, "You have logged in from a new device"@) {
        Some(TradeOfferError::NewDevice)
    } else if contains(m, "is not available to trade"@) {
        Some(TradeOfferError::PartnerCannotTrade)
    } else if contains(m, "sent too many trade offers"@) {
        Some(TradeOfferError::LimitExceeded)
    } else if contains(m, "unable to contact the game's item server"@) {
        Some(TradeOfferError::ServiceUnavailable)
    } else {
        match str_error_code(m) {
            Some(code) => Some(TradeOfferError::UnknownEResult(code)),
            None => None,
        }
    }
}

/// A `response` value that holds data: an object that is not empty, judged by its text.
pub open spec fn response_has_data(r: Seq<char>) -> bool {
    r.len() > 0 && r[0] == '{' && r.last() == '}' && r != "{}"@
}

/// `res` is what the fields of a JSON body and the `x-eresult` code decide for the response
/// with body `body`: a `strError` is a trade offer error; an EResult other than 1, on a body
/// with a single key whose `response` is a string that is not an object with data, is an
/// EResult error holding the body's text; anything else is no error.
pub open spec fn body_errors_ok(
    res: Result<(), Error>,
    fields: Option<ErrorFields>,
    eresult: Option<u32>,
    body: Seq<u8>,
) -> bool {
    match fields {
        None => res == Ok::<(), Error>(()),
        Some(json) => match json.str_error {
            Some(m) => match str_error_kind(m@) {
                Some(e) => res == Err::<(), Error>(Error::TradeOffer(e)),
                None => res matches Err(Error::TradeOffer(TradeOfferError::Unknown(s))) && s@
                    == m@,
            },
            None => match eresult {
                Some(code) => if code == 1 || json.num_keys > 1 {
                    res == Ok::<(), Error>(())
                } else {
                    match json.response {
                        Some(r) => if response_has_data(r@) {
                            res == Ok::<(), Error>(())
                        } else {
                            res matches Err(Error::SteamEResult(c, b)) && c == code && b@
                                == lossy_text(body)
                        },
                        None => res == Ok::<(), Error>(()),
                    }
                },
                None => res == Ok::<(), Error>(()),
            },
        },
    }
}

/// Whether `pat` occurs in `s`.
fn has(s: &[char], pat: &str) -> (res: bool)
    ensures
        res == contains(s@, pat@),
{
    let p = chars_of(pat);
    contains_chars(s, p.as_slice())
}

/// Reads [`str_error_code`].
fn read_str_error_code(m: &[char]) -> (res: Option<u32>)
    ensures
        res == str_error_code(m@),
{
    match rfind_char(m, '(') {
        Some(i) => {
            proof {
                lemma_last_index_of(m@, '(');
            }
            let ghost num = m@.subrange(i + 1, m@.len() as int);
            if m.len() > i + 1 && m[m.len() - 1] == ')' {
                let inner = &m[i + 1..m.len() - 1];
                assert(inner@ == num.drop_last());
                let (s, e) = trim_bounds(inner);
                parse_u32_range(inner, s, e)
            } else {
                None
            }
        },
        None => None,
    }
}

/// Reads [`str_error_kind`].
fn read_str_error_kind(m: &[char]) -> (res: Option<TradeOfferError>)
    ensures
        res == str_error_kind(m@),
{
    if has(m, "You cannot trade with") && has(m, "trade ban") {
        Some(TradeOfferError::TradeBan)
    } else if has(m, "You have logged in from a new device") {
        Some(TradeOfferError::NewDevice)
    } else if has(m, "is not available to trade") {
        Some(TradeOfferError::PartnerCannotTrade)
    } else if has(m, "sent too many trade offers") {
        Some(TradeOfferError::LimitExceeded)
    } else if has(m, "unable to contact the game's item server") {
        Some(TradeOfferError::ServiceUnavailable)
    } else {
        match read_str_error_code(m) {
            Some(code) => Some(TradeOfferError::UnknownEResult(code)),
            None => None,
        }
    }
}

/// Checks the fields of a JSON body for errors. `fields` is `None` when the body is not a JSON
/// object whose keys and `response`/`strError` values could be read; `eresult` is the code of
/// the `x-eresult` header.
pub fn check_response_for_errors(
    fields: &Option<ErrorFields>,
    eresult: Option<u32>,
    body: &[u8],
) -> (res: Result<(), Error>)
    ensures
        body_errors_ok(res, *fields, eresult, body@),
{
    if let Some(json) = fields {
        if let Some(str_error) = &json.str_error {
            let m = chars_of(str_error.as_str());
            let kind = match read_str_error_kind(m.as_slice()) {
                Some(e) => e,
                None => TradeOfferError::Unknown(str_error.clone()),
            };
            return Err(Error::TradeOffer(kind));
        }
        if let Some(code) = eresult {
            if code == 1 || json.num_keys > 1 {
                return Ok(());
            }
            if let Some(response) = &json.response {
                let r = chars_of(response.as_str());
                let empty = chars_of("{}");
                proof {
                    reveal_strlit("{}");
                }
                let is_empty_object = r.len() == 2 && matches_at(r.as_slice(), empty.as_slice(), 0);
                proof {
                    if r@ == "{}"@ {
                        assert(r@.len() == 2);
                        assert(r@.subrange(0, 2) =~= r@);
                        assert(occurs_at(r@, empty@, 0));
                    }
                    if is_empty_object {
                        assert(r@ =~= r@.subrange(0, 2));
                    }
                }
                let has_data = r.len() > 0 && r[0] == '{' && r[r.len() - 1] == '}'
                    && !is_empty_object;
                if !has_data {
                    return Err(Error::SteamEResult(code, body_text(body)));
                }
            }
        }
    }
    Ok(())
}

// ---------------------------------------------------------------------------------------------
// Bodies that are not the JSON expected.
// ---------------------------------------------------------------------------------------------

/// The end of the first `</h3>` run that the pattern `<h3>(.+)</h3>` can close at from `s`:
/// the last `</h3>` at `e` with `s + 5 <= e`, no line feed between, scanning down from `e`.
pub open spec fn h3_close_down(h: Seq<char>, s: int, e: int) -> Option<int>
    decreases e - s,
{
    if e < s + 5 {
        None
    } else if occurs_at(h, "</h3>"@, e) {
        Some(e)
    } else {
        h3_close_down(h, s, e - 1)
    }
}

/// Where the greedy capture of `<h3>(.+)</h3>` that starts at `s` ends, if it matches there.
pub open spec fn h3_close(h: Seq<char>, s: int) -> Option<int> {
    if occurs_at(h, "<h3>"@, s) {
        h3_close_down(h, s, first_from(h, '\n', s + 4))
    } else {
        None
    }
}

/// The first start at or after `s` where `<h3>(.+)</h3>` matches.
pub open spec fn h3_start_from(h: Seq<char>, s: int) -> Option<int>
    decreases h.len() - s,
{
    if s < 0 || s >= h.len() {
        None
    } else if h3_close(h, s) is Some {
        Some(s)
    } else {
        h3_start_from(h, s + 1)
    }
}

/// The message that `<h3>(.+)</h3>` captures in `h`.
pub open spec fn h3_capture(h: Seq<char>) -> Option<Seq<char>> {
    match h3_start_from(h, 0) {
        Some(s) => Some(h.subrange(s + 4, h3_close(h, s)->0)),
        None => None,
    }
}

/// The opening tag that Steam's error messages come in.
pub open spec fn error_msg_open() -> Seq<char> {
    "<div id=\"error_msg\">"@
}

/// Where the capture of `<div id="error_msg">\s*([^<]+)\s*</div>` that starts at `s` begins
/// and ends, if the pattern matches there: the capture runs from after the leading white space
/// to the first `<`, which must open `</div>`; when all of it is white space, it is the last
/// white-space character.
pub open spec fn error_msg_at(h: Seq<char>, s: int) -> Option<(int, int)> {
    let a = s + 20;
    let q = first_from(h, '<', a);
    if occurs_at(h, error_msg_open(), s) && q > a && occurs_at(h, "</div>"@, q) {
        let w = a + lead_ws(h.subrange(a, h.len() as int));
        if w < q {
            Some((w, q))
        } else {
            Some((q - 1, q))
        }
    } else {
        None
    }
}

/// The first start at or after `s` where the error message pattern matches.
pub open spec fn error_msg_start_from(h: Seq<char>, s: int) -> Option<int>
    decreases h.len() - s,
{
    if s < 0 || s >= h.len() {
        None
    } else if error_msg_at(h, s) is Some {
        Some(s)
    } else {
        error_msg_start_from(h, s + 1)
    }
}

/// The message that `<div id="error_msg">\s*([^<]+)\s*</div>` captures in `h`.
pub open spec fn error_msg_capture(h: Seq<char>) -> Option<Seq<char>> {
    match error_msg_start_from(h, 0) {
        Some(s) => match error_msg_at(h, s) {
            Some((a, b)) => Some(h.subrange(a, b)),
            None => None,
        },
        None => None,
    }
}

/// The body text holds a JSON object `{"success":false}` (with or without a space after the
/// colon).
pub open spec fn says_unsuccessful(h: Seq<char>) -> bool {
    contains(h, "{\"success\":false}"@) || contains(h, "{\"success\": false}"@)
}

/// `res` is the error for a body `h` that could not be read as the JSON expected: Steam's
/// "Sorry!" page with its `<h3>` message; a sign-in page or "Access is denied" means that we
/// are not logged in; `{"success":false}` means the response was unsuccessful; an error
/// message `div` is a trade offer error read from its message; anything else is a malformed
/// response holding the text.
pub open spec fn unexpected_body_ok(res: Error, h: Seq<char>) -> bool {
    if contains(h, "<h1>Sorry!</h1>"@) {
        match h3_capture(h) {
            Some(m) => res matches Error::UnexpectedResponse(s) && s@ == m,
            None => res matches Error::MalformedResponseWithBody(_, b) && b@ == h,
        }
    } else if contains(h, "<h1>Sign In</h1>"@) && contains(h, "g_steamID = false;"@) {
        res == Error::NotLoggedIn
    } else if says_unsuccessful(h) {
        res == Error::ResponseUnsuccessful
    } else if contains(h, "Access is denied"@) {
        res == Error::NotLoggedIn
    } else {
        match error_msg_capture(h) {
            Some(m) => match message_code(m) {
                Some(code) => res == Error::TradeOffer(from_code_spec(code)),
                None => res matches Error::TradeOffer(TradeOfferError::Unknown(s)) && s@ == m,
            },
            None => res matches Error::MalformedResponseWithBody(_, b) && b@ == h,
        }
    }
}

/// Finds where the `<h3>` capture starting at `s` ends, as [`h3_close`] does.
fn read_h3_close(h: &[char], open: &[char], close: &[char], s: usize) -> (res: Option<usize>)
    requires
        open@ == "<h3>"@,
        close@ == "</h3>"@,
        s < h@.len(),
    ensures
        match res {
            Some(e) => h3_close(h@, s as int) == Some(e as int),
            None => h3_close(h@, s as int) is None,
        },
{
    proof {
        reveal_strlit("<h3>");
    }
    if !matches_at(h, open, s) {
        return None;
    }
    let n = h.len();
    assert(s + 4 <= h@.len());
    let line_end = find_char_from(h, '\n', s + 4);
    proof {
        lemma_first_from(h@, '\n', s + 4);
    }
    let mut e = line_end;
    let lo = s + 4;
    while e > lo
        invariant
            lo == s + 4,
            s + 4 <= h@.len(),
            open@ == "<h3>"@,
            close@ == "</h3>"@,
            occurs_at(h@, "<h3>"@, s as int),
            e <= h@.len(),
            h3_close_down(h@, s as int, first_from(h@, '\n', s + 4)) == h3_close_down(
                h@,
                s as int,
                e as int,
            ),
        decreases e,
    {
        if matches_at(h, close, e) {
            return Some(e);
        }
        e = e - 1;
    }
    None
}

/// Reads [`h3_capture`] as the bounds of the message.
fn read_h3_capture(h: &[char]) -> (res: Option<(usize, usize)>)
    ensures
        match (res, h3_capture(h@)) {
            (Some((a, b)), Some(m)) => a <= b <= h@.len() && h@.subrange(a as int, b as int) == m,
            (None, None) => true,
            _ => false,
        },
{
    let open = chars_of("<h3>");
    let close = chars_of("</h3>");
    let mut s: usize = 0;
    while s < h.len()
        invariant
            s <= h@.len(),
            open@ == "<h3>"@,
            close@ == "</h3>"@,
            h3_start_from(h@, 0) == h3_start_from(h@, s as int),
        decreases h@.len() - s,
    {
        match read_h3_close(h, open.as_slice(), close.as_slice(), s) {
            Some(e) => {
                proof {
                    reveal_strlit("<h3>");
                    lemma_h3_close_bounds(h@, s as int);
                }
                return Some((s + 4, e));
            },
            None => {},
        }
        s = s + 1;
    }
    None
}

proof fn lemma_h3_close_down(h: Seq<char>, s: int, e: int)
    ensures
        h3_close_down(h, s, e) matches Some(x) ==> s + 5 <= x <= e && occurs_at(h, "</h3>"@, x),
    decreases e - s,
{
    if e >= s + 5 && !occurs_at(h, "</h3>"@, e) {
        lemma_h3_close_down(h, s, e - 1);
    }
}

proof fn lemma_h3_close_bounds(h: Seq<char>, s: int)
    requires
        0 <= s,
        h3_close(h, s) is Some,
    ensures
        s + 4 <= h3_close(h, s)->0 <= h.len(),
{
    lemma_h3_close_down(h, s, first_from(h, '\n', s + 4));
    reveal_strlit("</h3>");
}

/// Finds where the error message capture starting at `s` begins and ends, as
/// [`error_msg_at`] does.
fn read_error_msg_at(h: &[char], open: &[char], close: &[char], s: usize) -> (res: Option<
    (usize, usize),
>)
    requires
        open@ == error_msg_open(),
        close@ == "</div>"@,
        s < h@.len(),
    ensures
        match res {
            Some((a, b)) => error_msg_at(h@, s as int) == Some((a as int, b as int)) && a < b
                <= h@.len(),
            None => error_msg_at(h@, s as int) is None,
        },
{
    proof {
        reveal_strlit("<div id=\"error_msg\">");
    }
    if !matches_at(h, open, s) {
        return None;
    }
    let n = h.len();
    let a = s + 20;
    let q = find_char_from(h, '<', a);
    proof {
        lemma_first_from(h@, '<', a as int);
    }
    if !(q > a && matches_at(h, close, q)) {
        return None;
    }
    let mut w = a;
    while w < h.len() && is_ws_char(h[w])
        invariant
            a <= w <= h@.len(),
            forall|j: int| a <= j < w ==> is_ws(#[trigger] h@[j]),
        decreases h@.len() - w,
    {
        w = w + 1;
    }
    proof {
        let t = h@.subrange(a as int, h@.len() as int);
        assert forall|j: int| 0 <= j < w - a implies is_ws(#[trigger] t[j]) by {
            assert(t[j] == h@[j + a]);
        }
        if w < h@.len() {
            assert(t[w - a] == h@[w as int]);
        }
        crate::text::lemma_lead_ws_unique(t, (w - a) as int);
        // White space holds no `<`, so the run stops at `q` at the latest.
        if w > q {
            assert(is_ws(h@[q as int]));
        }
    }
    if w < q {
        Some((w, q))
    } else {
        Some((q - 1, q))
    }
}

/// Reads [`error_msg_capture`] as the bounds of the message.
pub fn read_error_msg(h: &[char]) -> (res: Option<(usize, usize)>)
    ensures
        match (res, error_msg_capture(h@)) {
            (Some((a, b)), Some(m)) => a < b <= h@.len() && h@.subrange(a as int, b as int) == m,
            (None, None) => true,
            _ => false,
        },
{
    let open = chars_of("<div id=\"error_msg\">");
    let close = chars_of("</div>");
    let mut s: usize = 0;
    while s < h.len()
        invariant
            s <= h@.len(),
            open@ == error_msg_open(),
            close@ == "</div>"@,
            error_msg_start_from(h@, 0) == error_msg_start_from(h@, s as int),
        decreases h@.len() - s,
    {
        match read_error_msg_at(h, open.as_slice(), close.as_slice(), s) {
            Some((a, b)) => {
                return Some((a, b));
            },
            None => {},
        }
        s = s + 1;
    }
    None
}

/// Decides [`says_unsuccessful`].
pub fn read_says_unsuccessful(h: &[char]) -> (res: bool)
    ensures
        res == says_unsuccessful(h@),
{
    has(h, "{\"success\":false}") || has(h, "{\"success\": false}")
}

/// The error for a body that could not be read as the JSON expected.
pub fn unexpected_body_error(body: &[u8]) -> (res: Error)
    ensures
        unexpected_body_ok(res, lossy_text(body@)),
{
    let html = body_text(body);
    let h = chars_of(html.as_str());
    if has(h.as_slice(), "<h1>Sorry!</h1>") {
        return match read_h3_capture(h.as_slice()) {
            Some((a, b)) => Error::UnexpectedResponse(string_of(&h.as_slice()[a..b])),
            None => Error::MalformedResponseWithBody(
                "Steam returned an HTML response but an error message could not be detected (an <h3> tag was expected but was not found)",
                html,
            ),
        };
    }
    if has(h.as_slice(), "<h1>Sign In</h1>") && has(h.as_slice(), "g_steamID = false;") {
        return Error::NotLoggedIn;
    }
    if read_says_unsuccessful(h.as_slice()) {
        return Error::ResponseUnsuccessful;
    }
    if has(h.as_slice(), "Access is denied") {
        return Error::NotLoggedIn;
    }
    match read_error_msg(h.as_slice()) {
        Some((a, b)) => {
            let message = string_of(&h.as_slice()[a..b]);
            Error::TradeOffer(TradeOfferError::from_message(message.as_str()))
        },
        None => Error::MalformedResponseWithBody("Got unexpected non-JSON response.", html),
    }
}

/// Checks a response for errors before its body is read as the JSON expected: its status and
/// `location` header, then the error fields of its body with its `x-eresult` header.
pub fn check_response(
    status: u16,
    location: &Option<String>,
    eresult_header: &Option<String>,
    fields: &Option<ErrorFields>,
    body: &[u8],
) -> (res: Result<(), Error>)
    ensures
        match status_outcome(
            status,
            match location {
                Some(l) => Some(l@),
                None => None,
            },
        ) {
            Err(e) => res == Err::<(), Error>(e),
            Ok(_) => body_errors_ok(
                res,
                *fields,
                match eresult_header {
                    Some(h) => parse_u32_spec(h@),
                    None => None,
                },
                body@,
            ),
        },
{
    match check_status(status, location) {
        Err(e) => return Err(e),
        Ok(_) => {},
    }
    let eresult = parse_eresult(eresult_header);
    check_response_for_errors(fields, eresult, body)
}

} // verus!
