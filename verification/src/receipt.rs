//! Trade receipt pages: the script that lists the received items, and the JSON text of each
//! item in it.
use vstd::prelude::*;
use crate::cookies::{find_char_from, first_from, lemma_first_from};
use crate::error::Error;
use crate::response_check::{error_msg_capture, read_error_msg, read_says_unsuccessful, says_unsuccessful};
use crate::text::{
    chars_of, is_ws, is_ws_char, last_index_of, lead_ws, lemma_last_index_of, lemma_lead_ws_unique,
    matches_at, occurs_at, string_of, trim, trim_bounds,
};

verus! {

// ---------------------------------------------------------------------------------------------
// Scanning helpers.
// ---------------------------------------------------------------------------------------------

/// The first position at or after `i` that is not white space, or the length of `h`.
pub open spec fn ws_end(h: Seq<char>, i: int) -> int {
    i + lead_ws(h.subrange(i, h.len() as int))
}

/// Skips white space from `i`, as [`ws_end`] does.
fn skip_ws(h: &[char], i: usize) -> (res: usize)
    requires
        i <= h@.len(),
    ensures
        res == ws_end(h@, i as int),
        i <= res <= h@.len(),
{
    let mut k = i;
    while k < h.len() && is_ws_char(h[k])
        invariant
            i <= k <= h@.len(),
            forall|j: int| i <= j < k ==> is_ws(#[trigger] h@[j]),
        decreases h@.len() - k,
    {
        k = k + 1;
    }
    proof {
        let t = h@.subrange(i as int, h@.len() as int);
        assert forall|j: int| 0 <= j < k - i implies is_ws(#[trigger] t[j]) by {
            assert(t[j] == h@[j + i]);
        }
        if k < h@.len() {
            assert(t[k - i] == h@[k as int]);
        }
        lemma_lead_ws_unique(t, k - i);
    }
    k
}

/// The first position at or after `i` where `pat` occurs in `h`.
pub open spec fn occurrence_from(h: Seq<char>, pat: Seq<char>, i: int) -> Option<int>
    decreases h.len() + 1 - i,
{
    if i < 0 || i > h.len() {
        None
    } else if occurs_at(h, pat, i) {
        Some(i)
    } else {
        occurrence_from(h, pat, i + 1)
    }
}

/// The last position at or before `i` where `pat` occurs in `h`.
pub open spec fn occurrence_down(h: Seq<char>, pat: Seq<char>, i: int) -> Option<int>
    decreases i + 1,
{
    if i < 0 {
        None
    } else if occurs_at(h, pat, i) {
        Some(i)
    } else {
        occurrence_down(h, pat, i - 1)
    }
}

proof fn lemma_occurrence_from(h: Seq<char>, pat: Seq<char>, i: int)
    requires
        0 <= i,
    ensures
        match occurrence_from(h, pat, i) {
            Some(k) => i <= k && occurs_at(h, pat, k) && forall|j: int|
                i <= j < k ==> !occurs_at(h, pat, j),
            None => forall|j: int| i <= j ==> !occurs_at(h, pat, j),
        },
    decreases h.len() + 1 - i,
{
    if 0 <= i <= h.len() && !occurs_at(h, pat, i) {
        lemma_occurrence_from(h, pat, i + 1);
    }
}

proof fn lemma_occurrence_down(h: Seq<char>, pat: Seq<char>, i: int)
    ensures
        match occurrence_down(h, pat, i) {
            Some(k) => k <= i && occurs_at(h, pat, k) && forall|j: int|
                k < j <= i ==> !occurs_at(h, pat, j),
            None => forall|j: int| j <= i ==> !occurs_at(h, pat, j),
        },
    decreases i + 1,
{
    if i >= 0 && !occurs_at(h, pat, i) {
        lemma_occurrence_down(h, pat, i - 1);
    }
}

/// Finds [`occurrence_from`].
fn find_occurrence(h: &[char], pat: &[char], i: usize) -> (res: Option<usize>)
    requires
        i <= h@.len(),
    ensures
        match res {
            Some(k) => occurrence_from(h@, pat@, i as int) == Some(k as int),
            None => occurrence_from(h@, pat@, i as int) is None,
        },
{
    let mut k = i;
    loop
        invariant
            i <= k <= h@.len(),
            occurrence_from(h@, pat@, i as int) == occurrence_from(h@, pat@, k as int),
        decreases h@.len() - k,
    {
        if matches_at(h, pat, k) {
            return Some(k);
        }
        if k == h.len() {
            assert(occurrence_from(h@, pat@, k + 1) is None);
            return None;
        }
        k = k + 1;
    }
}

/// Finds [`occurrence_down`] from the end of `h`.
fn find_last_occurrence(h: &[char], pat: &[char]) -> (res: Option<usize>)
    ensures
        match res {
            Some(k) => occurrence_down(h@, pat@, h@.len() as int) == Some(k as int),
            None => occurrence_down(h@, pat@, h@.len() as int) is None,
        },
{
    let mut k = h.len();
    loop
        invariant
            k <= h@.len(),
            occurrence_down(h@, pat@, h@.len() as int) == occurrence_down(h@, pat@, k as int),
        decreases k,
    {
        if matches_at(h, pat, k) {
            return Some(k);
        }
        if k == 0 {
            assert(occurrence_down(h@, pat@, -1) is None);
            return None;
        }
        k = k - 1;
    }
}

/// Finds the last newline of `h[a..b]`, as [`last_index_of`] gives it, counted from `a`.
fn last_newline(h: &[char], a: usize, b: usize) -> (res: Option<usize>)
    requires
        a <= b <= h@.len(),
    ensures
        match res {
            Some(j) => last_index_of(h@.subrange(a as int, b as int), '\n') == Some(j as int),
            None => last_index_of(h@.subrange(a as int, b as int), '\n') is None,
        },
{
    let ghost t = h@.subrange(a as int, b as int);
    let mut k = b;
    while k > a
        invariant
            a <= k <= b <= h@.len(),
            t == h@.subrange(a as int, b as int),
            forall|j: int| k - a <= j < t.len() ==> t[j] != '\n',
        decreases k,
    {
        if h[k - 1] == '\n' {
            proof {
                lemma_last_index_of(t, '\n');
                assert(t[k - 1 - a] == '\n');
                match last_index_of(t, '\n') {
                    Some(l) => {
                        if l < k - 1 - a {
                            assert(t[k - 1 - a] == '\n');
                        }
                        if l > k - 1 - a {
                            assert(t[l] == '\n');
                        }
                    },
                    None => {},
                }
            }
            return Some(k - 1 - a);
        }
        proof {
            assert(t[k - 1 - a] == h@[k - 1]);
        }
        k = k - 1;
    }
    proof {
        lemma_last_index_of(t, '\n');
        if let Some(l) = last_index_of(t, '\n') {
            assert(t[l] == '\n');
        }
    }
    None
}

// ---------------------------------------------------------------------------------------------
// The receipt page.
// ---------------------------------------------------------------------------------------------

/// What `(var oItem;[\s\S]*)</script>` captures in `h`: from the first `var oItem;` to the last
/// `</script>` after it.
pub open spec fn receipt_script_capture(h: Seq<char>) -> Option<Seq<char>> {
    match (occurrence_from(h, "var oItem;"@, 0), occurrence_down(h, "</script>"@, h.len() as int)) {
        (Some(s), Some(l)) => if s + 10 <= l {
            Some(h.subrange(s, l))
        } else {
            None
        },
        _ => None,
    }
}

/// The message of the error for a receipt page without its script.
pub open spec fn no_receipt_script_message() -> Seq<char> {
    "Page does not include receipt script."@
}

/// `res` is what reading the receipt page `body` gives: the error message of the page if it has
/// one, else the script that lists the items, else `NotLoggedIn` where the page says the
/// request did not succeed, else a malformed response with the body.
pub open spec fn receipt_page_ok(res: Result<String, Error>, body: Seq<char>) -> bool {
    match error_msg_capture(body) {
        Some(m) => res is Err && res->Err_0 is UnexpectedResponse
            && res->Err_0->UnexpectedResponse_0@ == trim(m),
        None => match receipt_script_capture(body) {
            Some(script) => res is Ok && res->Ok_0@ == script,
            None => if says_unsuccessful(body) {
                res == Err::<String, Error>(Error::NotLoggedIn)
            } else {
                res is Err && res->Err_0 is MalformedResponseWithBody
                    && res->Err_0->MalformedResponseWithBody_0@ == no_receipt_script_message()
                    && res->Err_0->MalformedResponseWithBody_1@ == body
            },
        },
    }
}

/// Reads a receipt page, giving the script that lists the received items.
pub fn read_receipt_page(body: &str) -> (res: Result<String, Error>)
    ensures
        receipt_page_ok(res, body@),
{
    let h = chars_of(body);
    match read_error_msg(h.as_slice()) {
        Some((a, b)) => {
            let mut m: Vec<char> = Vec::new();
            let mut i = a;
            while i < b
                invariant
                    a <= i <= b <= h@.len(),
                    m@ == h@.subrange(a as int, i as int),
                decreases b - i,
            {
                m.push(h[i]);
                proof {
                    assert(h@.subrange(a as int, i + 1) =~= h@.subrange(a as int, i as int).push(
                        h@[i as int],
                    ));
                }
                i = i + 1;
            }
            let (s, e) = trim_bounds(m.as_slice());
            let mut t: Vec<char> = Vec::new();
            let mut j = s;
            while j < e
                invariant
                    s <= j <= e <= m@.len(),
                    t@ == m@.subrange(s as int, j as int),
                decreases e - j,
            {
                t.push(m[j]);
                proof {
                    assert(m@.subrange(s as int, j + 1) =~= m@.subrange(s as int, j as int).push(
                        m@[j as int],
                    ));
                }
                j = j + 1;
            }
            return Err(Error::UnexpectedResponse(string_of(t.as_slice())));
        },
        None => {},
    }
    let open = chars_of("var oItem;");
    let close = chars_of("</script>");
    proof {
        reveal_strlit("var oItem;");
    }
    match (find_occurrence(h.as_slice(), open.as_slice(), 0), find_last_occurrence(
        h.as_slice(),
        close.as_slice(),
    )) {
        (Some(s), Some(l)) => {
            proof {
                lemma_occurrence_from(h@, open@, 0);
                lemma_occurrence_down(h@, close@, h@.len() as int);
            }
            if l >= 10 && s <= l - 10 {
                let mut script: Vec<char> = Vec::new();
                let mut i = s;
                while i < l
                    invariant
                        s <= i <= l <= h@.len(),
                        script@ == h@.subrange(s as int, i as int),
                    decreases l - i,
                {
                    script.push(h[i]);
                    proof {
                        assert(h@.subrange(s as int, i + 1) =~= h@.subrange(
                            s as int,
                            i as int,
                        ).push(h@[i as int]));
                    }
                    i = i + 1;
                }
                return Ok(string_of(script.as_slice()));
            }
        },
        _ => {},
    }
    if read_says_unsuccessful(h.as_slice()) {
        return Err(Error::NotLoggedIn);
    }
    Err(Error::MalformedResponseWithBody("Page does not include receipt script.", body.to_string()))
}


// ---------------------------------------------------------------------------------------------
// The items of the script.
// ---------------------------------------------------------------------------------------------

/// A `}` at `k` closes an item: `};` follows, and the white space after the `;` holds a newline.
pub open spec fn item_close_at(h: Seq<char>, k: int) -> bool {
    &&& 0 <= k
    &&& k + 1 < h.len()
    &&& h[k] == '}'
    &&& h[k + 1] == ';'
    &&& last_index_of(h.subrange(k + 2, ws_end(h, k + 2)), '\n') is Some
}

/// The last position in `(q, k]` that closes an item.
pub open spec fn close_down(h: Seq<char>, q: int, k: int) -> Option<int>
    decreases k - q,
{
    if k <= q {
        None
    } else if item_close_at(h, k) {
        Some(k)
    } else {
        close_down(h, q, k - 1)
    }
}

/// Where the match of `oItem\s*=\s*(\{.*\});\s*\n` that starts at `p` captures, and where it
/// ends: the capture runs from the `{` to the last `}` on its line that closes an item, and the
/// match ends after the last newline of the white space that follows.
pub open spec fn item_at(h: Seq<char>, p: int) -> Option<(int, int, int)> {
    if !occurs_at(h, "oItem"@, p) {
        None
    } else {
        let q1 = ws_end(h, p + 5);
        if q1 >= h.len() || h[q1] != '=' {
            None
        } else {
            let q2 = ws_end(h, q1 + 1);
            if q2 >= h.len() || h[q2] != '{' {
                None
            } else {
                match close_down(h, q2, first_from(h, '\n', q2) - 1) {
                    None => None,
                    Some(k) => {
                        let w = ws_end(h, k + 2);
                        let nl = k + 2 + last_index_of(h.subrange(k + 2, w), '\n')->0;
                        Some((q2, k + 1, nl + 1))
                    },
                }
            }
        }
    }
}

/// The first position at or after `s` where an item matches.
pub open spec fn item_start_from(h: Seq<char>, s: int) -> Option<int>
    decreases h.len() + 1 - s,
{
    if s < 0 || s > h.len() {
        None
    } else if item_at(h, s) is Some {
        Some(s)
    } else {
        item_start_from(h, s + 1)
    }
}

/// The captures of `oItem\s*=\s*(\{.*\});\s*\n` in `h` from `from` on, as successive
/// matches that do not overlap give them.
pub open spec fn item_captures(h: Seq<char>, from: int) -> Seq<Seq<char>>
    decreases h.len() + 1 - from,
{
    match item_start_from(h, from) {
        None => Seq::empty(),
        Some(p) => {
            let (a, b, end) = item_at(h, p)->0;
            if from < end <= h.len() {
                seq![h.subrange(a, b)] + item_captures(h, end)
            } else {
                Seq::empty()
            }
        },
    }
}

/// Decides [`item_close_at`].
fn read_item_close_at(h: &[char], k: usize) -> (res: bool)
    ensures
        res == item_close_at(h@, k as int),
{
    let n = h.len();
    if k >= h.len() || h.len() - k < 2 {
        return false;
    }
    if h[k] != '}' || h[k + 1] != ';' {
        return false;
    }
    let w = skip_ws(h, k + 2);
    match last_newline(h, k + 2, w) {
        Some(_) => true,
        None => false,
    }
}

/// Finds [`item_at`].
fn read_item_at(h: &[char], p: usize, name: &[char]) -> (res: Option<(usize, usize, usize)>)
    requires
        name@ == "oItem"@,
    ensures
        match res {
            Some((a, b, e)) => item_at(h@, p as int) == Some((a as int, b as int, e as int)),
            None => item_at(h@, p as int) is None,
        },
{
    let n = h.len();
    if !matches_at(h, name, p) {
        return None;
    }
    proof {
        reveal_strlit("oItem");
        assert(name@.len() == 5);
        assert(p + 5 <= h@.len());
    }
    let q1 = skip_ws(h, p + 5);
    if q1 >= h.len() || h[q1] != '=' {
        return None;
    }
    let q2 = skip_ws(h, q1 + 1);
    if q2 >= h.len() || h[q2] != '{' {
        return None;
    }
    let e = find_char_from(h, '\n', q2);
    proof {
        lemma_first_from(h@, '\n', q2 as int);
    }
    let mut k = e - 1;
    while k > q2
        invariant
            q2 < e <= h@.len(),
            n == h@.len(),
            e == first_from(h@, '\n', q2 as int),
            occurs_at(h@, "oItem"@, p as int),
            q1 == ws_end(h@, p + 5),
            q1 < h@.len(),
            h@[q1 as int] == '=',
            q2 == ws_end(h@, q1 + 1),
            q2 < h@.len(),
            h@[q2 as int] == '{',
            q2 <= k < e,
            close_down(h@, q2 as int, e - 1) == close_down(h@, q2 as int, k as int),
        decreases k,
    {
        if read_item_close_at(h, k) {
            assert(k + 2 <= h@.len());
            let w = skip_ws(h, k + 2);
            let nl = last_newline(h, k + 2, w);
            proof {
                assert(close_down(h@, q2 as int, k as int) == Some(k as int));
                assert(first_from(h@, '\n', q2 as int) == e);
            }
            match nl {
                Some(j) => {
                    proof {
                        lemma_last_index_of(h@.subrange(k + 2, w as int), '\n');
                        assert(item_at(h@, p as int) == Some(
                            (q2 as int, k + 1, k + 2 + j + 1),
                        ));
                    }
                    return Some((q2, k + 1, k + 2 + j + 1));
                },
                None => {
                    return None;
                },
            }
        }
        k = k - 1;
    }
    None
}

proof fn lemma_item_start_from(h: Seq<char>, s: int)
    requires
        0 <= s,
    ensures
        match item_start_from(h, s) {
            Some(p) => s <= p <= h.len() && item_at(h, p) is Some,
            None => forall|j: int| s <= j <= h.len() ==> item_at(h, j) is None,
        },
    decreases h.len() + 1 - s,
{
    if s <= h.len() && item_at(h, s) is None {
        lemma_item_start_from(h, s + 1);
    }
}

/// Collects the JSON text of each item of a receipt script, in order, as the successive
/// captures of `oItem\s*=\s*(\{.*\});\s*\n` give them.
pub fn receipt_item_texts(script: &str) -> (res: Vec<String>)
    ensures
        res@.map_values(|t: String| t@) == item_captures(script@, 0),
{
    let h = chars_of(script);
    let name = chars_of("oItem");
    let mut out: Vec<String> = Vec::new();
    let mut from: usize = 0;
    while from <= h.len()
        invariant
            from <= h@.len() + 1,
            name@ == "oItem"@,
            h@ == script@,
            out@.map_values(|t: String| t@) + item_captures(h@, from as int) == item_captures(
                h@,
                0,
            ),
        decreases h@.len() + 1 - from,
    {
        let mut p = from;
        let mut found: Option<(usize, usize, usize)>;
        loop
            invariant
                from <= p <= h@.len(),
                name@ == "oItem"@,
                item_start_from(h@, from as int) == item_start_from(h@, p as int),
            ensures
                match found {
                    Some((a, b, e)) => item_at(h@, p as int) == Some((a as int, b as int, e as int))
                        && item_start_from(h@, from as int) == Some(p as int),
                    None => item_start_from(h@, from as int) is None,
                },
            decreases h@.len() - p,
        {
            found = read_item_at(h.as_slice(), p, name.as_slice());
            if found.is_some() {
                break;
            }
            if p == h.len() {
                assert(item_start_from(h@, p + 1) is None);
                break;
            }
            p = p + 1;
        }
        match found {
            None => {
                assert(item_captures(h@, from as int) =~= Seq::<Seq<char>>::empty());
                assert(out@.map_values(|t: String| t@) =~= item_captures(h@, 0));
                return out;
            },
            Some((a, b, e)) => {
                proof {
                    lemma_item_at_bounds(h@, p as int);
                }
                let mut cap: Vec<char> = Vec::new();
                let mut i = a;
                while i < b
                    invariant
                        a <= i <= b <= h@.len(),
                        cap@ == h@.subrange(a as int, i as int),
                    decreases b - i,
                {
                    cap.push(h[i]);
                    proof {
                        assert(h@.subrange(a as int, i + 1) =~= h@.subrange(
                            a as int,
                            i as int,
                        ).push(h@[i as int]));
                    }
                    i = i + 1;
                }
                let ghost before = out@.map_values(|t: String| t@);
                out.push(string_of(cap.as_slice()));
                proof {
                    assert(out@.map_values(|t: String| t@) =~= before.push(
                        h@.subrange(a as int, b as int),
                    ));
                    assert(item_captures(h@, from as int) == seq![h@.subrange(a as int, b as int)]
                        + item_captures(h@, e as int));
                    assert(before.push(h@.subrange(a as int, b as int)) + item_captures(
                        h@,
                        e as int,
                    ) =~= before + item_captures(h@, from as int));
                }
                from = e;
            },
        }
    }
    assert(item_captures(h@, from as int) =~= Seq::<Seq<char>>::empty());
    assert(out@.map_values(|t: String| t@) =~= item_captures(h@, 0));
    out
}

/// Where an item matches, its capture lies inside the text and the match ends after it.
proof fn lemma_item_at_bounds(h: Seq<char>, p: int)
    requires
        item_at(h, p) is Some,
    ensures
        ({
            let (a, b, e) = item_at(h, p)->0;
            p < a < b < e <= h.len()
        }),
{
    let q1 = ws_end(h, p + 5);
    let q2 = ws_end(h, q1 + 1);
    let k = close_down(h, q2, first_from(h, '\n', q2) - 1)->0;
    lemma_close_down(h, q2, first_from(h, '\n', q2) - 1);
    let w = ws_end(h, k + 2);
    lemma_ws_end(h, p + 5);
    lemma_ws_end(h, q1 + 1);
    lemma_ws_end(h, k + 2);
    lemma_last_index_of(h.subrange(k + 2, w), '\n');
}

proof fn lemma_close_down(h: Seq<char>, q: int, k: int)
    ensures
        close_down(h, q, k) matches Some(c) ==> q < c <= k && item_close_at(h, c),
    decreases k - q,
{
    if k > q && !item_close_at(h, k) {
        lemma_close_down(h, q, k - 1);
    }
}

proof fn lemma_ws_end(h: Seq<char>, i: int)
    requires
        0 <= i <= h.len(),
    ensures
        i <= ws_end(h, i) <= h.len(),
{
    crate::text::lemma_lead_ws(h.subrange(i, h.len() as int));
}

} // verus!
