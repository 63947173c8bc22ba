//! Reading the session from Steam web cookies.
use vstd::prelude::*;
use crate::error::SetCookiesError;
use crate::text::{chars_of, string_of, push_all, push_str, last_index_of, lemma_last_index_of, occurs_at, matches_at, all_digits, is_digit, digits_value, parse_u64_spec, parse_u64_range};

verus! {

/// A Unicode decimal digit (general category `Nd`), which the `\d` class of the regular
/// expressions of this crate's cookie format matches.
pub open spec fn is_decimal_digit(c: char) -> bool {
    let u = c as u32;
    ||| 0x30 <= u <= 0x39
    ||| 0x660 <= u <= 0x669
    ||| 0x6f0 <= u <= 0x6f9
    ||| 0x7c0 <= u <= 0x7c9
    ||| 0x966 <= u <= 0x96f
    ||| 0x9e6 <= u <= 0x9ef
    ||| 0xa66 <= u <= 0xa6f
    ||| 0xae6 <= u <= 0xaef
    ||| 0xb66 <= u <= 0xb6f
    ||| 0xbe6 <= u <= 0xbef
    ||| 0xc66 <= u <= 0xc6f
    ||| 0xce6 <= u <= 0xcef
    ||| 0xd66 <= u <= 0xd6f
    ||| 0xde6 <= u <= 0xdef
    ||| 0xe50 <= u <= 0xe59
    ||| 0xed0 <= u <= 0xed9
    ||| 0xf20 <= u <= 0xf29
    ||| 0x1040 <= u <= 0x1049
    ||| 0x1090 <= u <= 0x1099
    ||| 0x17e0 <= u <= 0x17e9
    ||| 0x1810 <= u <= 0x1819
    ||| 0x1946 <= u <= 0x194f
    ||| 0x19d0 <= u <= 0x19d9
    ||| 0x1a80 <= u <= 0x1a89
    ||| 0x1a90 <= u <= 0x1a99
    ||| 0x1b50 <= u <= 0x1b59
    ||| 0x1bb0 <= u <= 0x1bb9
    ||| 0x1c40 <= u <= 0x1c49
    ||| 0x1c50 <= u <= 0x1c59
    ||| 0xa620 <= u <= 0xa629
    ||| 0xa8d0 <= u <= 0xa8d9
    ||| 0xa900 <= u <= 0xa909
    ||| 0xa9d0 <= u <= 0xa9d9
    ||| 0xa9f0 <= u <= 0xa9f9
    ||| 0xaa50 <= u <= 0xaa59
    ||| 0xabf0 <= u <= 0xabf9
    ||| 0xff10 <= u <= 0xff19
    ||| 0x104a0 <= u <= 0x104a9
    ||| 0x10d30 <= u <= 0x10d39
    ||| 0x10d40 <= u <= 0x10d49
    ||| 0x11066 <= u <= 0x1106f
    ||| 0x110f0 <= u <= 0x110f9
    ||| 0x11136 <= u <= 0x1113f
    ||| 0x111d0 <= u <= 0x111d9
    ||| 0x112f0 <= u <= 0x112f9
    ||| 0x11450 <= u <= 0x11459
    ||| 0x114d0 <= u <= 0x114d9
    ||| 0x11650 <= u <= 0x11659
    ||| 0x116c0 <= u <= 0x116c9
    ||| 0x116d0 <= u <= 0x116e3
    ||| 0x11730 <= u <= 0x11739
    ||| 0x118e0 <= u <= 0x118e9
    ||| 0x11950 <= u <= 0x11959
    ||| 0x11bf0 <= u <= 0x11bf9
    ||| 0x11c50 <= u <= 0x11c59
    ||| 0x11d50 <= u <= 0x11d59
    ||| 0x11da0 <= u <= 0x11da9
    ||| 0x11f50 <= u <= 0x11f59
    ||| 0x16130 <= u <= 0x16139
    ||| 0x16a60 <= u <= 0x16a69
    ||| 0x16ac0 <= u <= 0x16ac9
    ||| 0x16b50 <= u <= 0x16b59
    ||| 0x16d70 <= u <= 0x16d79
    ||| 0x1ccf0 <= u <= 0x1ccf9
    ||| 0x1d7ce <= u <= 0x1d7ff
    ||| 0x1e140 <= u <= 0x1e149
    ||| 0x1e2f0 <= u <= 0x1e2f9
    ||| 0x1e4f0 <= u <= 0x1e4f9
    ||| 0x1e5f1 <= u <= 0x1e5fa
    ||| 0x1e950 <= u <= 0x1e959
    ||| 0x1fbf0 <= u <= 0x1fbf9
}

/// Decides [`is_decimal_digit`].
pub fn is_decimal_digit_char(c: char) -> (res: bool)
    ensures
        res == is_decimal_digit(c),
{
    let u = c as u32;
    (0x30 <= u && u <= 0x39) ||
        (0x660 <= u && u <= 0x669) ||
        (0x6f0 <= u && u <= 0x6f9) ||
        (0x7c0 <= u && u <= 0x7c9) ||
        (0x966 <= u && u <= 0x96f) ||
        (0x9e6 <= u && u <= 0x9ef) ||
        (0xa66 <= u && u <= 0xa6f) ||
        (0xae6 <= u && u <= 0xaef) ||
        (0xb66 <= u && u <= 0xb6f) ||
        (0xbe6 <= u && u <= 0xbef) ||
        (0xc66 <= u && u <= 0xc6f) ||
        (0xce6 <= u && u <= 0xcef) ||
        (0xd66 <= u && u <= 0xd6f) ||
        (0xde6 <= u && u <= 0xdef) ||
        (0xe50 <= u && u <= 0xe59) ||
        (0xed0 <= u && u <= 0xed9) ||
        (0xf20 <= u && u <= 0xf29) ||
        (0x1040 <= u && u <= 0x1049) ||
        (0x1090 <= u && u <= 0x1099) ||
        (0x17e0 <= u && u <= 0x17e9) ||
        (0x1810 <= u && u <= 0x1819) ||
        (0x1946 <= u && u <= 0x194f) ||
        (0x19d0 <= u && u <= 0x19d9) ||
        (0x1a80 <= u && u <= 0x1a89) ||
        (0x1a90 <= u && u <= 0x1a99) ||
        (0x1b50 <= u && u <= 0x1b59) ||
        (0x1bb0 <= u && u <= 0x1bb9) ||
        (0x1c40 <= u && u <= 0x1c49) ||
        (0x1c50 <= u && u <= 0x1c59) ||
        (0xa620 <= u && u <= 0xa629) ||
        (0xa8d0 <= u && u <= 0xa8d9) ||
        (0xa900 <= u && u <= 0xa909) ||
        (0xa9d0 <= u && u <= 0xa9d9) ||
        (0xa9f0 <= u && u <= 0xa9f9) ||
        (0xaa50 <= u && u <= 0xaa59) ||
        (0xabf0 <= u && u <= 0xabf9) ||
        (0xff10 <= u && u <= 0xff19) ||
        (0x104a0 <= u && u <= 0x104a9) ||
        (0x10d30 <= u && u <= 0x10d39) ||
        (0x10d40 <= u && u <= 0x10d49) ||
        (0x11066 <= u && u <= 0x1106f) ||
        (0x110f0 <= u && u <= 0x110f9) ||
        (0x11136 <= u && u <= 0x1113f) ||
        (0x111d0 <= u && u <= 0x111d9) ||
        (0x112f0 <= u && u <= 0x112f9) ||
        (0x11450 <= u && u <= 0x11459) ||
        (0x114d0 <= u && u <= 0x114d9) ||
        (0x11650 <= u && u <= 0x11659) ||
        (0x116c0 <= u && u <= 0x116c9) ||
        (0x116d0 <= u && u <= 0x116e3) ||
        (0x11730 <= u && u <= 0x11739) ||
        (0x118e0 <= u && u <= 0x118e9) ||
        (0x11950 <= u && u <= 0x11959) ||
        (0x11bf0 <= u && u <= 0x11bf9) ||
        (0x11c50 <= u && u <= 0x11c59) ||
        (0x11d50 <= u && u <= 0x11d59) ||
        (0x11da0 <= u && u <= 0x11da9) ||
        (0x11f50 <= u && u <= 0x11f59) ||
        (0x16130 <= u && u <= 0x16139) ||
        (0x16a60 <= u && u <= 0x16a69) ||
        (0x16ac0 <= u && u <= 0x16ac9) ||
        (0x16b50 <= u && u <= 0x16b59) ||
        (0x16d70 <= u && u <= 0x16d79) ||
        (0x1ccf0 <= u && u <= 0x1ccf9) ||
        (0x1d7ce <= u && u <= 0x1d7ff) ||
        (0x1e140 <= u && u <= 0x1e149) ||
        (0x1e2f0 <= u && u <= 0x1e2f9) ||
        (0x1e4f0 <= u && u <= 0x1e4f9) ||
        (0x1e5f1 <= u && u <= 0x1e5fa) ||
        (0x1e950 <= u && u <= 0x1e959) ||
        (0x1fbf0 <= u && u <= 0x1fbf9)
}

/// The session and account data held by web cookies.
#[derive(Debug, Clone)]
pub struct CookiesData {
    /// The session ID, if a `sessionid` cookie was given.
    pub sessionid: Option<String>,
    /// The 64-bit Steam ID of the logged-in account.
    pub steamid: u64,
    /// The access token of the logged-in account.
    pub access_token: String,
}

/// A web session.
#[derive(Debug, Clone)]
pub struct Session {
    /// The session ID.
    pub sessionid: String,
    /// The access token.
    pub access_token: String,
    /// The 64-bit Steam ID of the logged-in account.
    pub steamid: u64,
}

// ---------------------------------------------------------------------------------------------
// The cookie format `name=value`, read as the pattern `([^=]+)=(.+)`.
// ---------------------------------------------------------------------------------------------

/// An `=` at `p` that the pattern can split at: a name character before it, and a value
/// character (anything but a line feed) after it.
pub open spec fn splits_at(c: Seq<char>, p: int) -> bool {
    &&& 1 <= p
    &&& p + 1 < c.len()
    &&& c[p] == '='
    &&& c[p - 1] != '='
    &&& c[p + 1] != '\n'
}

/// The first position at or after `i` where [`splits_at`] holds.
pub open spec fn first_split_from(c: Seq<char>, i: int) -> Option<int>
    decreases c.len() - i,
{
    if i < 0 || i >= c.len() {
        None
    } else if splits_at(c, i) {
        Some(i)
    } else {
        first_split_from(c, i + 1)
    }
}

/// The first position at or after `i` that holds `x`, or the length of `c`.
pub open spec fn first_from(c: Seq<char>, x: char, i: int) -> int
    decreases c.len() - i,
{
    if i < 0 || i >= c.len() {
        c.len() as int
    } else if c[i] == x {
        i
    } else {
        first_from(c, x, i + 1)
    }
}

/// The name and value of a cookie, as the leftmost match of `([^=]+)=(.+)` captures them: the
/// run of non-`=` characters before the first `=` that can split, and the rest of that line.
pub open spec fn cookie_kv(c: Seq<char>) -> Option<(Seq<char>, Seq<char>)> {
    match first_split_from(c, 0) {
        Some(p) => {
            let start = match last_index_of(c.subrange(0, p), '=') {
                Some(q) => q + 1,
                None => 0,
            };
            Some((c.subrange(start, p), c.subrange(p + 1, first_from(c, '\n', p + 1))))
        },
        None => None,
    }
}

proof fn lemma_first_split_from(c: Seq<char>, i: int)
    requires
        0 <= i,
    ensures
        match first_split_from(c, i) {
            Some(p) => i <= p < c.len() && splits_at(c, p) && forall|j: int|
                i <= j < p ==> !splits_at(c, j),
            None => forall|j: int| i <= j ==> !splits_at(c, j),
        },
    decreases c.len() - i,
{
    if i < c.len() && !splits_at(c, i) {
        lemma_first_split_from(c, i + 1);
        assert forall|j: int| i <= j implies (#[trigger] splits_at(c, j) ==> first_split_from(c, i) is Some && j >= first_split_from(c, i)->0) by {
            if j == i {
            }
        }
    }
}

pub proof fn lemma_first_from(c: Seq<char>, x: char, i: int)
    requires
        0 <= i,
    ensures
        i <= first_from(c, x, i) <= c.len() || (i > c.len() && first_from(c, x, i) == c.len()),
        first_from(c, x, i) < c.len() ==> c[first_from(c, x, i)] == x,
        forall|j: int| i <= j < first_from(c, x, i) ==> c[j] != x,
    decreases c.len() - i,
{
    if i < c.len() && c[i] != x {
        lemma_first_from(c, x, i + 1);
    }
}

/// Finds the first `x` in `c` at or after `i`, or the length of `c`.
pub fn find_char_from(c: &[char], x: char, i: usize) -> (res: usize)
    requires
        i <= c@.len(),
    ensures
        res == first_from(c@, x, i as int),
{
    let mut k = i;
    while k < c.len() && c[k] != x
        invariant
            i <= k <= c@.len(),
            first_from(c@, x, i as int) == first_from(c@, x, k as int),
        decreases c@.len() - k,
    {
        k = k + 1;
    }
    k
}

/// Splits a cookie into its name and value as [`cookie_kv`] does; returns the bounds
/// `(start, p, end)` with the name in `c[start..p]` and the value in `c[p + 1..end]`.
fn split_cookie(c: &[char]) -> (res: Option<(usize, usize, usize)>)
    ensures
        match (res, cookie_kv(c@)) {
            (Some((s, p, e)), Some((k, v))) => s <= p < e <= c@.len() && c@.subrange(s as int, p as int)
                == k && c@.subrange(p + 1, e as int) == v,
            (None, None) => true,
            _ => false,
        },
{
    let mut p: usize = 0;
    while p < c.len()
        invariant
            p <= c@.len(),
            first_split_from(c@, 0) == first_split_from(c@, p as int),
        decreases c@.len() - p,
    {
        if p >= 1 && p + 1 < c.len() && c[p] == '=' && c[p - 1] != '=' && c[p + 1] != '\n' {
            // The name starts after the last `=` before `p`.
            let mut s = p;
            while s > 0 && c[s - 1] != '='
                invariant
                    s <= p < c@.len(),
                    forall|j: int| s <= j < p ==> c@[j] != '=',
                decreases s,
            {
                s = s - 1;
            }
            let e = find_char_from(c, '\n', p + 1);
            proof {
                let pre = c@.subrange(0, p as int);
                lemma_last_index_of(pre, '=');
                match last_index_of(pre, '=') {
                    Some(q) => {
                        if s > 0 {
                            assert(pre[s - 1] == '=');
                            if q > s - 1 {
                                assert(pre[q] == c@[q]);
                            }
                        } else {
                            assert(pre[q] == c@[q]);
                        }
                        assert(q + 1 == s);
                    },
                    None => {
                        if s > 0 {
                            assert(pre[s - 1] == c@[s - 1]);
                        }
                    },
                }
                lemma_first_from(c@, '\n', p + 1);
            }
            return Some((s, p, e));
        }
        p = p + 1;
    }
    proof {
        lemma_first_split_from(c@, p as int);
    }
    None
}

// ---------------------------------------------------------------------------------------------
// The `steamLoginSecure` value, read as the pattern `^(\d{17})%7C%7C([^;]+)`.
// ---------------------------------------------------------------------------------------------

/// The separator between the Steam ID and the access token.
pub open spec fn login_separator() -> Seq<char> {
    seq!['%', '7', 'C', '%', '7', 'C']
}

/// The Steam ID digits and the access token of a `steamLoginSecure` value: 17 decimal digits,
/// the separator, and the run of non-`;` characters that follows it (at least one).
pub open spec fn login_parts(v: Seq<char>) -> Option<(Seq<char>, Seq<char>)> {
    if v.len() > 23 && (forall|i: int| 0 <= i < 17 ==> #[trigger] is_decimal_digit(v[i]))
        && v.subrange(17, 23) == login_separator() && v[23] != ';' {
        Some((v.subrange(0, 17), v.subrange(23, first_from(v, ';', 23))))
    } else {
        None
    }
}

// ---------------------------------------------------------------------------------------------
// Reading the session from all cookies.
// ---------------------------------------------------------------------------------------------

/// What reading the cookies `cs` in order gives: the last session ID, the Steam ID and access
/// token of the last `steamLoginSecure` cookie, or the error of the first malformed
/// `steamLoginSecure` cookie.
pub open spec fn auth_fold(cs: Seq<Seq<char>>) -> Result<
    (Option<Seq<char>>, u64, Option<Seq<char>>),
    SetCookiesError,
>
    decreases cs.len(),
{
    if cs.len() == 0 {
        Ok((None, 0, None))
    } else {
        match auth_fold(cs.drop_last()) {
            Err(e) => Err(e),
            Ok((sessionid, steamid, token)) => match cookie_kv(cs.last()) {
                Some((key, value)) => if key == "sessionid"@ {
                    Ok((Some(value), steamid, token))
                } else if key == "steamLoginSecure"@ {
                    match login_parts(value) {
                        Some((digits, access_token)) => match parse_u64_spec(digits) {
                            Some(id) => Ok((sessionid, id, Some(access_token))),
                            None => Err(SetCookiesError::InvalidSteamID),
                        },
                        None => Err(SetCookiesError::MissingAccessToken),
                    }
                } else {
                    Ok((sessionid, steamid, token))
                },
                None => Ok((sessionid, steamid, token)),
            },
        }
    }
}

/// The views of a list of strings.
pub open spec fn views(cs: Seq<String>) -> Seq<Seq<char>> {
    cs.map_values(|s: String| s@)
}

/// What [`extract_auth_data_from_cookies`] gives for the cookie texts `cs`.
pub open spec fn auth_data_spec(cs: Seq<Seq<char>>) -> Result<
    (Option<Seq<char>>, u64, Seq<char>),
    SetCookiesError,
> {
    match auth_fold(cs) {
        Err(e) => Err(e),
        Ok((sessionid, steamid, token)) => match token {
            Some(t) => Ok((sessionid, steamid, t)),
            None => Err(SetCookiesError::MissingAccessToken),
        },
    }
}

/// Whether the name in `c[s..p]` is `name`.
fn name_is(c: &[char], s: usize, p: usize, name: &str) -> (res: bool)
    requires
        s <= p <= c@.len(),
    ensures
        res == (c@.subrange(s as int, p as int) == name@),
{
    let n = chars_of(name);
    if p - s != n.len() {
        proof {
            if c@.subrange(s as int, p as int) == name@ {
                assert(c@.subrange(s as int, p as int).len() == name@.len());
            }
        }
        return false;
    }
    let r = matches_at(c, n.as_slice(), s);
    proof {
        if c@.subrange(s as int, p as int) == name@ {
            assert(occurs_at(c@, n@, s as int));
        }
    }
    r
}

/// Reads a `steamLoginSecure` value as [`login_parts`] does: `None` when the value does not
/// match; otherwise the Steam ID if its digits can be read as a number, with the bounds of the
/// access token.
fn read_login(v: &[char]) -> (res: Option<Option<(u64, usize, usize)>>)
    ensures
        match (res, login_parts(v@)) {
            (Some(Some((id, ts, te))), Some((d, t))) => parse_u64_spec(d) == Some(id) && ts <= te
                <= v@.len() && v@.subrange(ts as int, te as int) == t,
            (Some(None), Some((d, t))) => parse_u64_spec(d) is None,
            (None, None) => true,
            _ => false,
        },
{
    if v.len() <= 23 {
        return None;
    }
    let mut i: usize = 0;
    while i < 17
        invariant
            i <= 17 < v@.len(),
            forall|j: int| 0 <= j < i ==> #[trigger] is_decimal_digit(v@[j]),
        decreases 17 - i,
    {
        if !is_decimal_digit_char(v[i]) {
            return None;
        }
        i = i + 1;
    }
    let sep = chars_of("%7C%7C");
    proof {
        reveal_strlit("%7C%7C");
        assert(sep@ =~= login_separator());
    }
    if !matches_at(v, sep.as_slice(), 17) {
        return None;
    }
    if v[23] == ';' {
        return None;
    }
    let te = find_char_from(v, ';', 23);
    proof {
        lemma_first_from(v@, ';', 23);
    }
    match parse_u64_range(v, 0, 17) {
        Some(id) => Some(Some((id, 23, te))),
        None => Some(None),
    }
}

/// Once reading a prefix of the cookies fails, reading all of them fails with the same error.
proof fn lemma_auth_fold_err(cs: Seq<Seq<char>>, n: int)
    requires
        0 <= n <= cs.len(),
        auth_fold(cs.subrange(0, n)) is Err,
    ensures
        auth_fold(cs) == auth_fold(cs.subrange(0, n)),
    decreases cs.len() - n,
{
    if n < cs.len() {
        assert(cs.subrange(0, n + 1).drop_last() =~= cs.subrange(0, n));
        lemma_auth_fold_err(cs, n + 1);
    } else {
        assert(cs.subrange(0, n) =~= cs);
    }
}

/// Extracts the session ID, Steam ID and access token from cookie values.
pub fn extract_auth_data_from_cookies(cookies: &[String]) -> (res: Result<
    CookiesData,
    SetCookiesError,
>)
    ensures
        match (res, auth_data_spec(views(cookies@))) {
            (Ok(d), Ok((sessionid, steamid, token))) => d.steamid == steamid && d.access_token@
                == token && match (d.sessionid, sessionid) {
                (Some(a), Some(b)) => a@ == b,
                (None, None) => true,
                _ => false,
            },
            (Err(a), Err(b)) => a == b,
            _ => false,
        },
{
    let mut sessionid: Option<String> = None;
    let mut steamid: u64 = 0;
    let mut access_token: Option<String> = None;
    let mut i: usize = 0;
    while i < cookies.len()
        invariant
            i <= cookies@.len(),
            auth_fold(views(cookies@).subrange(0, i as int)) matches Ok((s, id, t)) && id == steamid
                && match (sessionid, s) {
                (Some(a), Some(b)) => a@ == b,
                (None, None) => true,
                _ => false,
            } && match (access_token, t) {
                (Some(a), Some(b)) => a@ == b,
                (None, None) => true,
                _ => false,
            },
        decreases cookies@.len() - i,
    {
        let ghost all = views(cookies@);
        let ghost prefix = all.subrange(0, i + 1);
        proof {
            assert(prefix.drop_last() =~= all.subrange(0, i as int));
            assert(prefix.last() == cookies@[i as int]@);
        }
        let c = chars_of(cookies[i].as_str());
        match split_cookie(c.as_slice()) {
            Some((s, p, e)) => {
                if name_is(c.as_slice(), s, p, "sessionid") {
                    proof {
                        reveal_strlit("sessionid");
                    }
                    
                    sessionid = Some(string_of(&c.as_slice()[p + 1..e]));
                } else if name_is(c.as_slice(), s, p, "steamLoginSecure") {
                    let v = &c.as_slice()[p + 1..e];
                    assert(v@ == c@.subrange(p + 1, e as int));
                    match read_login(v) {
                        Some(Some((id, token_start, token_end))) => {
                            steamid = id;
                            access_token = Some(string_of(&v[token_start..token_end]));
                        },
                        Some(None) => {
                            proof {
                                lemma_auth_fold_err(all, i + 1);
                            }
                            return Err(SetCookiesError::InvalidSteamID);
                        },
                        None => {
                            proof {
                                lemma_auth_fold_err(all, i + 1);
                            }
                            return Err(SetCookiesError::MissingAccessToken);
                        },
                    }
                }
            },
            None => {},
        }
        i = i + 1;
    }
    assert(views(cookies@).subrange(0, i as int) =~= views(cookies@));
    match access_token {
        Some(token) => Ok(CookiesData { sessionid, steamid, access_token: token }),
        None => Err(SetCookiesError::MissingAccessToken),
    }
}

// ---------------------------------------------------------------------------------------------
// Session IDs.
// ---------------------------------------------------------------------------------------------

/// A random byte.
///
/// Calls `rand::random::<u8>()`. Any byte may come back, so nothing is stated of it.
#[verifier::external_body]
fn random_byte() -> (res: u8) {
    rand::random::<u8>()
}

/// The lowercase hexadecimal digit for `d` below 16.
pub open spec fn hex_digit(d: nat) -> char {
    if d < 10 {
        (('0' as u32) + d) as char
    } else {
        (('a' as u32) + d - 10) as char
    }
}

/// A lowercase hexadecimal digit.
pub open spec fn is_lower_hex(c: char) -> bool {
    ('0' <= c <= '9') || ('a' <= c <= 'f')
}

/// A session ID as this crate generates one: 24 lowercase hexadecimal digits, the two digits
/// of each of 12 bytes.
pub open spec fn is_session_id(s: Seq<char>) -> bool {
    s.len() == 24 && forall|i: int| 0 <= i < 24 ==> #[trigger] is_lower_hex(s[i])
}

fn hex_char(d: u8) -> (res: char)
    requires
        d < 16,
    ensures
        res == hex_digit(d as nat),
        is_lower_hex(res),
{
    if d < 10 {
        ((('0' as u8) + d) as char)
    } else {
        ((('a' as u8) + d - 10) as char)
    }
}

/// The lowercase hexadecimal text of `bytes`: two digits for each byte, high nibble first.
pub open spec fn hex_text(bytes: Seq<u8>) -> Seq<char>
    decreases bytes.len(),
{
    if bytes.len() == 0 {
        Seq::empty()
    } else {
        let b = bytes.last();
        hex_text(bytes.drop_last()) + seq![hex_digit((b / 16) as nat), hex_digit((b % 16) as nat)]
    }
}

proof fn lemma_hex_text_len(bytes: Seq<u8>)
    ensures
        hex_text(bytes).len() == 2 * bytes.len(),
        forall|i: int| 0 <= i < hex_text(bytes).len() ==> #[trigger] is_lower_hex(hex_text(bytes)[i]),
    decreases bytes.len(),
{
    if bytes.len() > 0 {
        lemma_hex_text_len(bytes.drop_last());
        let b = bytes.last();
        assert(is_lower_hex(hex_digit((b / 16) as nat)));
        assert(is_lower_hex(hex_digit((b % 16) as nat)));
    }
}

/// The session ID made of the twelve bytes `bytes`, in lowercase hexadecimal, two digits each.
pub fn session_id_of(bytes: &[u8]) -> (res: String)
    requires
        bytes@.len() == 12,
    ensures
        res@ == hex_text(bytes@),
        is_session_id(res@),
{
    let mut out: Vec<char> = Vec::new();
    let mut i: usize = 0;
    while i < bytes.len()
        invariant
            i <= bytes@.len(),
            out@ == hex_text(bytes@.subrange(0, i as int)),
        decreases bytes@.len() - i,
    {
        let b = bytes[i];
        out.push(hex_char(b / 16));
        out.push(hex_char(b % 16));
        proof {
            assert(bytes@.subrange(0, i + 1).drop_last() =~= bytes@.subrange(0, i as int));
            assert(bytes@.subrange(0, i + 1).last() == b);
        }
        i = i + 1;
    }
    proof {
        assert(bytes@.subrange(0, i as int) =~= bytes@);
        lemma_hex_text_len(bytes@);
    }
    string_of(out.as_slice())
}

/// Generates a random session ID, such as "37bf523a24034ec06c60ec61": twelve random bytes in
/// lowercase hexadecimal, two digits each.
pub fn generate_sessionid() -> (res: String)
    ensures
        is_session_id(res@),
        exists|bytes: Seq<u8>| bytes.len() == 12 && res@ == hex_text(bytes),
{
    let mut bytes: Vec<u8> = Vec::new();
    let mut i: usize = 0;
    while i < 12
        invariant
            i <= 12,
            bytes@.len() == i,
        decreases 12 - i,
    {
        bytes.push(random_byte());
        i = i + 1;
    }
    let res = session_id_of(bytes.as_slice());
    assert(bytes@.len() == 12 && res@ == hex_text(bytes@));
    res
}

/// The cookie that sets the session ID `sessionid`.
pub open spec fn sessionid_cookie(sessionid: Seq<char>) -> Seq<char> {
    "sessionid="@ + sessionid
}

/// Extracts the session from cookies. This generates a new session ID if none is found in the
/// cookies, and then adds a cookie for it to `cookies`.
pub fn get_session_from_cookies(cookies: &mut Vec<String>) -> (res: Result<
    Session,
    SetCookiesError,
>)
    ensures
        match auth_data_spec(views(old(cookies)@)) {
            Err(e) => res == Err::<Session, SetCookiesError>(e) && final(cookies)@ == old(
                cookies,
            )@,
            Ok((sessionid, steamid, token)) => res is Ok && res->Ok_0.steamid == steamid
                && res->Ok_0.access_token@ == token && match sessionid {
                Some(id) => res->Ok_0.sessionid@ == id && final(cookies)@ == old(cookies)@,
                None => is_session_id(res->Ok_0.sessionid@) && views(final(cookies)@) == views(
                    old(cookies)@,
                ).push(sessionid_cookie(res->Ok_0.sessionid@)),
            },
        },
{
    let data = match extract_auth_data_from_cookies(cookies.as_slice()) {
        Ok(d) => d,
        Err(e) => return Err(e),
    };
    let sessionid = match data.sessionid {
        Some(id) => id,
        None => {
            let id = generate_sessionid();
            let mut cookie: Vec<char> = Vec::new();
            push_str(&mut cookie, "sessionid=");
            let id_chars = chars_of(id.as_str());
            push_all(&mut cookie, id_chars.as_slice());
            let cookie = string_of(cookie.as_slice());
            let ghost before = cookies@;
            cookies.push(cookie);
            proof {
                assert(views(cookies@) =~= views(before).push(sessionid_cookie(id@)));
            }
            id
        },
    };
    Ok(Session { sessionid, access_token: data.access_token, steamid: data.steamid })
}


/// The cookie of a session ID reads back as that session ID.
proof fn lemma_sessionid_cookie_kv(id: Seq<char>)
    requires
        is_session_id(id),
    ensures
        cookie_kv(sessionid_cookie(id)) == Some(("sessionid"@, id)),
{
    reveal_strlit("sessionid=");
    reveal_strlit("sessionid");
    let c = sessionid_cookie(id);
    assert(c.len() == 34);
    assert forall|j: int| 0 <= j < 9 implies c[j] != '=' by {
        assert(c[j] == "sessionid="@[j]);
    }
    assert(c[9] == '=');
    assert(c[8] == 'd');
    assert(is_lower_hex(id[0]));
    assert(c[10] == id[0]);
    assert(splits_at(c, 9));
    assert forall|j: int| 0 <= j < 9 implies !splits_at(c, j) by {
        assert(c[j] != '=');
    }
    lemma_first_split_from(c, 0);
    assert(first_split_from(c, 0) == Some(9int));
    crate::text::lemma_last_index_of(c.subrange(0, 9), '=');
    assert(last_index_of(c.subrange(0, 9), '=') is None) by {
        if let Some(q) = last_index_of(c.subrange(0, 9), '=') {
            assert(c.subrange(0, 9)[q] == c[q]);
        }
    }
    assert forall|j: int| 10 <= j < c.len() implies c[j] != '\n' by {
        assert(c[j] == id[j - 10]);
        assert(is_lower_hex(id[j - 10]));
    }
    lemma_first_from(c, '\n', 10);
    assert(first_from(c, '\n', 10) == c.len());
    assert(c.subrange(0, 9) =~= "sessionid"@);
    assert(c.subrange(10, 34) =~= id);
}

/// Reading the session again from the cookies that [`get_session_from_cookies`] leaves, once
/// it added the cookie of a new session ID, gives that session ID with the same Steam ID and
/// access token: the session written to the cookies is the session read from them.
pub proof fn law_session_cookie_read_back(cs: Seq<Seq<char>>, id: Seq<char>)
    requires
        is_session_id(id),
        auth_data_spec(cs) is Ok,
    ensures
        auth_data_spec(cs.push(sessionid_cookie(id))) == Ok::<
            (Option<Seq<char>>, u64, Seq<char>),
            SetCookiesError,
        >((Some(id), auth_data_spec(cs)->Ok_0.1, auth_data_spec(cs)->Ok_0.2)),
{
    lemma_sessionid_cookie_kv(id);
    reveal_strlit("sessionid");
    reveal_strlit("steamLoginSecure");
    let next = cs.push(sessionid_cookie(id));
    assert(next.drop_last() =~= cs);
    assert(next.last() == sessionid_cookie(id));
}

} // verus!
