//! Escrow details of a user, read from the page of a new trade offer.
use vstd::prelude::*;
use crate::cookies::{is_decimal_digit, is_decimal_digit_char};
use crate::error::ParseHtmlError;
use crate::text::{chars_of, matches_at, occurs_at, parse_u32_range, parse_u32_spec};

verus! {

/// Escrow details of a user.
#[derive(Debug, Clone, Copy, PartialEq, Eq)]
pub struct User {
    /// The number of days items are held in escrow.
    pub escrow_days: u32,
}

/// Escrow details for both sides of a trade.
#[derive(Debug, Clone, Copy, PartialEq, Eq)]
pub struct UserDetails {
    /// Our details.
    pub me: User,
    /// The partner's details.
    pub them: User,
}

/// Whether the regular expression `pattern` matches somewhere in `text`, as the `regex` crate
/// decides it, or `None` where the crate refuses the pattern.
pub uninterp spec fn regex_match(pattern: Seq<char>, text: Seq<char>) -> Option<bool>;

/// Decides whether the regular expression `pattern` matches somewhere in `text`.
///
/// Calls `Regex::new` and `Regex::is_match` of the `regex` crate, as `lazy_regex` re-exports
/// it; a pattern the crate refuses gives `None`. The result is named with [`regex_match`].
#[verifier::external_body]
fn regex_is_match(pattern: &str, text: &str) -> (res: Option<bool>)
    ensures
        res == regex_match(pattern@, text@),
{
    match lazy_regex::Regex::new(pattern) {
        Ok(re) => Some(re.is_match(text)),
        Err(_) => None,
    }
}

/// The pattern of the script that a page of a new offer holds.
pub open spec fn offer_script_pattern() -> Seq<char> {
    "\\n\\W*<script type=\"text/javascript\">\\W*\\r?\\n?(\\W*var g_rgAppContextData[\\s\\S]*)</script>"@
}

/// The number of decimal digits (in the Unicode sense of `\d`) of `h` from `i` on.
pub open spec fn digit_run(h: Seq<char>, i: int) -> nat
    decreases h.len() - i,
{
    if 0 <= i < h.len() && is_decimal_digit(h[i]) {
        1 + digit_run(h, i + 1)
    } else {
        0
    }
}

/// `name = (\d+);` matches at `p`: the name with ` = ` occurs there, followed by digits and a
/// `;`.
pub open spec fn days_at(h: Seq<char>, name: Seq<char>, p: int) -> bool {
    let d = p + name.len();
    &&& occurs_at(h, name, p)
    &&& digit_run(h, d) >= 1
    &&& d + digit_run(h, d) < h.len()
    &&& h[d + digit_run(h, d)] == ';'
}

/// The first position at or after `s` where [`days_at`] holds.
pub open spec fn days_from(h: Seq<char>, name: Seq<char>, s: int) -> Option<int>
    decreases h.len() + 1 - s,
{
    if s < 0 || s > h.len() {
        None
    } else if days_at(h, name, s) {
        Some(s)
    } else {
        days_from(h, name, s + 1)
    }
}

/// The number of days that the first match of `name(\d+);` gives, 0 when there is none or its
/// digits do not read as a `u32`.
pub open spec fn escrow_days_spec(h: Seq<char>, name: Seq<char>) -> u32 {
    match days_from(h, name, 0) {
        None => 0,
        Some(p) => {
            let d = p + name.len();
            match parse_u32_spec(h.subrange(d, d + digit_run(h, d))) {
                Some(v) => v,
                None => 0,
            }
        },
    }
}

/// What reading the page `body` gives: the escrow days of both sides where the page holds the
/// script of a new offer.
pub open spec fn user_details_ok(res: Result<UserDetails, ParseHtmlError>, body: Seq<char>) -> bool {
    match regex_match(offer_script_pattern(), body) {
        Some(true) => res == Ok::<UserDetails, ParseHtmlError>(
            UserDetails {
                me: User { escrow_days: escrow_days_spec(body, "var g_daysMyEscrow = "@) },
                them: User { escrow_days: escrow_days_spec(body, "var g_daysTheirEscrow = "@) },
            },
        ),
        Some(false) => res is Err && res->Err_0 is Malformed && res->Err_0->Malformed_0@
            == "Missing script tag"@,
        None => res is Err && res->Err_0 is Malformed && res->Err_0->Malformed_0@
            == "Invalid regexp"@,
    }
}

/// Counts the decimal digits from `i` on.
fn count_digits(h: &[char], i: usize) -> (res: usize)
    requires
        i <= h@.len(),
    ensures
        res == digit_run(h@, i as int),
        i + res <= h@.len(),
{
    let mut k = i;
    while k < h.len() && is_decimal_digit_char(h[k])
        invariant
            i <= k <= h@.len(),
            digit_run(h@, i as int) == (k - i) + digit_run(h@, k as int),
        decreases h@.len() - k,
    {
        k = k + 1;
    }
    k - i
}

/// Reads the escrow days that the first match of `name(\d+);` in `h` gives.
fn read_escrow_days(h: &[char], name: &str) -> (res: u32)
    ensures
        res == escrow_days_spec(h@, name@),
{
    let n = chars_of(name);
    let len = h.len();
    let mut s: usize = 0;
    loop
        invariant
            s <= h@.len(),
            len == h@.len(),
            n@ == name@,
            days_from(h@, name@, 0) == days_from(h@, name@, s as int),
        decreases h@.len() - s,
    {
        if matches_at(h, n.as_slice(), s) {
            let d = s + n.len();
            let r = count_digits(h, d);
            if r >= 1 && d + r < h.len() && h[d + r] == ';' {
                return match parse_u32_range(h, d, d + r) {
                    Some(v) => v,
                    None => 0,
                };
            }
        }
        if s == h.len() {
            assert(days_from(h@, name@, s + 1) is None);
            return 0;
        }
        s = s + 1;
    }
}

/// Reads the escrow details of both sides from the page of a new offer. A page without the
/// script of the offer fails with `Malformed`.
pub fn parse_user_details(body: &str) -> (res: Result<UserDetails, ParseHtmlError>)
    ensures
        user_details_ok(res, body@),
{
    let pattern = "\\n\\W*<script type=\"text/javascript\">\\W*\\r?\\n?(\\W*var g_rgAppContextData[\\s\\S]*)</script>";
    match regex_is_match(pattern, body) {
        Some(true) => {
            let h = chars_of(body);
            let me = read_escrow_days(h.as_slice(), "var g_daysMyEscrow = ");
            let them = read_escrow_days(h.as_slice(), "var g_daysTheirEscrow = ");
            Ok(UserDetails { me: User { escrow_days: me }, them: User { escrow_days: them } })
        },
        Some(false) => Err(ParseHtmlError::Malformed("Missing script tag")),
        None => Err(ParseHtmlError::Malformed("Invalid regexp")),
    }
}

} // verus!
