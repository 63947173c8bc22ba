//! Character-level helpers used by the parsers of this crate.
use vstd::prelude::*;

verus! {

// ---------------------------------------------------------------------------------------------
// Conversions between strings and character vectors.
// ---------------------------------------------------------------------------------------------

/// Collects the characters of `s`.
pub fn chars_of(s: &str) -> (res: Vec<char>)
    ensures
        res@ == s@,
{
    let mut res: Vec<char> = Vec::new();
    for c in it: s.chars()
        invariant
            res@ == it.seq().take(it.index() as int),
            it.seq() == s@,
    {
        res.push(c);
    }
    res
}

/// Builds a `String` holding exactly the characters of `chars`.
///
/// Calls `Iterator::collect` of std into a `String`; the contract claims that the string holds
/// the given characters in order, which is what std documents for collecting characters.
#[verifier::external_body]
pub(crate) fn string_of(chars: &[char]) -> (res: String)
    ensures
        res@ == chars@,
{
    chars.iter().collect::<String>()
}

// ---------------------------------------------------------------------------------------------
// Character classes.
// ---------------------------------------------------------------------------------------------

/// The Unicode `White_Space` property, which `char::is_whitespace`, `str::trim` and the `\s`
/// class of regular expressions use.
pub open spec fn is_ws(c: char) -> bool {
    let u = c as u32;
    ||| 0x9 <= u <= 0xd
    ||| u == 0x20
    ||| u == 0x85
    ||| u == 0xa0
    ||| u == 0x1680
    ||| 0x2000 <= u <= 0x200a
    ||| u == 0x2028
    ||| u == 0x2029
    ||| u == 0x202f
    ||| u == 0x205f
    ||| u == 0x3000
}

/// Decides [`is_ws`].
pub fn is_ws_char(c: char) -> (res: bool)
    ensures
        res == is_ws(c),
{
    let u = c as u32;
    (0x9 <= u && u <= 0xd) || u == 0x20 || u == 0x85 || u == 0xa0 || u == 0x1680 || (0x2000 <= u
        && u <= 0x200a) || u == 0x2028 || u == 0x2029 || u == 0x202f || u == 0x205f || u
        == 0x3000
}

/// An ASCII decimal digit.
pub open spec fn is_digit(c: char) -> bool {
    '0' <= c <= '9'
}

/// The value of an ASCII decimal digit.
pub open spec fn digit_value(c: char) -> nat {
    (c as u32 - '0' as u32) as nat
}

/// Every character of `s` is an ASCII decimal digit.
pub open spec fn all_digits(s: Seq<char>) -> bool {
    forall|i: int| 0 <= i < s.len() ==> #[trigger] is_digit(s[i])
}

// ---------------------------------------------------------------------------------------------
// Trimming.
// ---------------------------------------------------------------------------------------------

/// Number of leading white-space characters of `s`.
pub open spec fn lead_ws(s: Seq<char>) -> nat
    decreases s.len(),
{
    if s.len() > 0 && is_ws(s[0]) {
        1 + lead_ws(s.drop_first())
    } else {
        0
    }
}

/// Number of trailing white-space characters of `s`.
pub open spec fn trail_ws(s: Seq<char>) -> nat
    decreases s.len(),
{
    if s.len() > 0 && is_ws(s.last()) {
        1 + trail_ws(s.drop_last())
    } else {
        0
    }
}

/// `s` without leading white space.
pub open spec fn trim_start(s: Seq<char>) -> Seq<char> {
    s.subrange(lead_ws(s) as int, s.len() as int)
}

/// `s` without trailing white space.
pub open spec fn trim_end(s: Seq<char>) -> Seq<char> {
    s.subrange(0, s.len() - trail_ws(s))
}

/// `s` without leading and trailing white space, as `str::trim` gives it.
pub open spec fn trim(s: Seq<char>) -> Seq<char> {
    trim_end(trim_start(s))
}

pub proof fn lemma_lead_ws(s: Seq<char>)
    ensures
        lead_ws(s) <= s.len(),
        forall|i: int| 0 <= i < lead_ws(s) ==> is_ws(#[trigger] s[i]),
        lead_ws(s) < s.len() ==> !is_ws(s[lead_ws(s) as int]),
    decreases s.len(),
{
    if s.len() > 0 && is_ws(s[0]) {
        lemma_lead_ws(s.drop_first());
        assert forall|i: int| 0 <= i < lead_ws(s) implies is_ws(#[trigger] s[i]) by {
            if i > 0 {
                assert(s[i] == s.drop_first()[i - 1]);
            }
        }
        if lead_ws(s) < s.len() {
            assert(s[lead_ws(s) as int] == s.drop_first()[lead_ws(s.drop_first()) as int]);
        }
    }
}

proof fn lemma_trail_ws(s: Seq<char>)
    ensures
        trail_ws(s) <= s.len(),
        forall|i: int| s.len() - trail_ws(s) <= i < s.len() ==> is_ws(#[trigger] s[i]),
        trail_ws(s) < s.len() ==> !is_ws(s[s.len() - trail_ws(s) - 1]),
    decreases s.len(),
{
    if s.len() > 0 && is_ws(s.last()) {
        lemma_trail_ws(s.drop_last());
        assert forall|i: int| s.len() - trail_ws(s) <= i < s.len() implies is_ws(
            #[trigger] s[i],
        ) by {
            if i < s.len() - 1 {
                assert(s[i] == s.drop_last()[i]);
            }
        }
        if trail_ws(s) < s.len() {
            assert(s[s.len() - trail_ws(s) - 1] == s.drop_last()[s.drop_last().len() - trail_ws(
                s.drop_last(),
            ) - 1]);
        }
    }
}

/// Characterises [`lead_ws`]: the leading run of white space ends at the first other character.
pub proof fn lemma_lead_ws_unique(s: Seq<char>, k: int)
    requires
        0 <= k <= s.len(),
        forall|i: int| 0 <= i < k ==> is_ws(#[trigger] s[i]),
        k < s.len() ==> !is_ws(s[k]),
    ensures
        lead_ws(s) == k,
{
    lemma_lead_ws(s);
    if lead_ws(s) < k {
        assert(is_ws(s[lead_ws(s) as int]));
    }
    if lead_ws(s) > k {
        assert(is_ws(s[k]));
    }
}

/// Characterises [`trail_ws`]: the trailing run of white space starts after the last other
/// character.
proof fn lemma_trail_ws_unique(s: Seq<char>, k: int)
    requires
        0 <= k <= s.len(),
        forall|i: int| s.len() - k <= i < s.len() ==> is_ws(#[trigger] s[i]),
        k < s.len() ==> !is_ws(s[s.len() - k - 1]),
    ensures
        trail_ws(s) == k,
{
    lemma_trail_ws(s);
    if trail_ws(s) < k {
        assert(is_ws(s[s.len() - trail_ws(s) - 1]));
    }
    if trail_ws(s) > k {
        assert(is_ws(s[s.len() - k - 1]));
    }
}

/// The bounds `(start, end)` of `trim(s)` inside `s`.
pub fn trim_bounds(s: &[char]) -> (res: (usize, usize))
    ensures
        res.0 <= res.1 <= s@.len(),
        s@.subrange(res.0 as int, res.1 as int) == trim(s@),
        res.0 == lead_ws(s@),
{
    let mut start: usize = 0;
    while start < s.len() && is_ws_char(s[start])
        invariant
            start <= s@.len(),
            forall|i: int| 0 <= i < start ==> is_ws(#[trigger] s@[i]),
        decreases s@.len() - start,
    {
        start = start + 1;
    }
    proof {
        lemma_lead_ws_unique(s@, start as int);
    }
    let mut end: usize = s.len();
    while end > start && is_ws_char(s[end - 1])
        invariant
            start <= end <= s@.len(),
            forall|i: int| end <= i < s@.len() ==> is_ws(#[trigger] s@[i]),
        decreases end,
    {
        end = end - 1;
    }
    proof {
        let t = trim_start(s@);
        assert(t == s@.subrange(start as int, s@.len() as int));
        let k = (s@.len() - end) as int;
        assert forall|i: int| t.len() - k <= i < t.len() implies is_ws(#[trigger] t[i]) by {
            assert(t[i] == s@[i + start]);
        }
        if k < t.len() {
            assert(t[t.len() - k - 1] == s@[end - 1]);
        }
        lemma_trail_ws_unique(t, k);
        assert(trim(s@) =~= s@.subrange(start as int, end as int));
    }
    (start, end)
}

// ---------------------------------------------------------------------------------------------
// Searching.
// ---------------------------------------------------------------------------------------------

/// `pat` occurs in `s` at position `i`.
pub open spec fn occurs_at(s: Seq<char>, pat: Seq<char>, i: int) -> bool {
    0 <= i && i + pat.len() <= s.len() && s.subrange(i, i + pat.len()) == pat
}

/// `pat` occurs somewhere in `s`, as `str::contains` decides.
pub open spec fn contains(s: Seq<char>, pat: Seq<char>) -> bool {
    exists|i: int| occurs_at(s, pat, i)
}

/// Decides whether `pat` occurs in `s` at position `i`.
pub fn matches_at(s: &[char], pat: &[char], i: usize) -> (res: bool)
    ensures
        res == occurs_at(s@, pat@, i as int),
{
    if i > s.len() || pat.len() > s.len() - i {
        return false;
    }
    let n = s.len();
    let mut k: usize = 0;
    while k < pat.len()
        invariant
            n == s@.len(),
            i + pat@.len() <= s@.len(),
            i <= s@.len(),
            k <= pat@.len(),
            forall|j: int| 0 <= j < k ==> s@[i + j] == pat@[j],
        decreases pat@.len() - k,
    {
        if s[i + k] != pat[k] {
            assert(s@.subrange(i as int, i + pat@.len())[k as int] != pat@[k as int]);
            return false;
        }
        k = k + 1;
    }
    assert(s@.subrange(i as int, i + pat@.len()) =~= pat@);
    true
}

/// The first position at or after `from` where `pat` occurs in `s`.
pub fn find_from(s: &[char], pat: &[char], from: usize) -> (res: Option<usize>)
    ensures
        match res {
            Some(i) => from <= i && occurs_at(s@, pat@, i as int) && forall|j: int|
                from <= j < i ==> !occurs_at(s@, pat@, j),
            None => forall|j: int| from <= j ==> !occurs_at(s@, pat@, j),
        },
{
    if from > s.len() {
        return None;
    }
    let mut i = from;
    loop
        invariant
            from <= i <= s@.len(),
            forall|j: int| from <= j < i ==> !occurs_at(s@, pat@, j),
        decreases s@.len() - i,
    {
        if matches_at(s, pat, i) {
            return Some(i);
        }
        if i == s.len() {
            return None;
        }
        i = i + 1;
    }
}

/// Decides [`contains`].
pub fn contains_chars(s: &[char], pat: &[char]) -> (res: bool)
    ensures
        res == contains(s@, pat@),
{
    match find_from(s, pat, 0) {
        Some(i) => true,
        None => {
            assert forall|j: int| !occurs_at(s@, pat@, j) by {
                if j < 0 {
                }
            }
            false
        },
    }
}

/// The last position where `c` occurs in `s`, if any.
pub open spec fn last_index_of(s: Seq<char>, c: char) -> Option<int>
    decreases s.len(),
{
    if s.len() == 0 {
        None
    } else if s.last() == c {
        Some(s.len() - 1)
    } else {
        last_index_of(s.drop_last(), c)
    }
}

pub proof fn lemma_last_index_of(s: Seq<char>, c: char)
    ensures
        match last_index_of(s, c) {
            Some(i) => 0 <= i < s.len() && s[i] == c && forall|j: int|
                i < j < s.len() ==> s[j] != c,
            None => forall|j: int| 0 <= j < s.len() ==> s[j] != c,
        },
    decreases s.len(),
{
    if s.len() > 0 && s.last() != c {
        lemma_last_index_of(s.drop_last(), c);
        assert forall|j: int| 0 <= j < s.len() - 1 implies s[j] == s.drop_last()[j] by {}
    }
}

/// Finds [`last_index_of`].
pub fn rfind_char(s: &[char], c: char) -> (res: Option<usize>)
    ensures
        match res {
            Some(i) => last_index_of(s@, c) == Some(i as int),
            None => last_index_of(s@, c) is None,
        },
{
    let mut i = s.len();
    while i > 0
        invariant
            i <= s@.len(),
            forall|j: int| i <= j < s@.len() ==> s@[j] != c,
        decreases i,
    {
        if s[i - 1] == c {
            proof {
                lemma_last_index_of(s@, c);
                match last_index_of(s@, c) {
                    Some(k) => {
                        if k < i - 1 {
                            assert(s@[i - 1] == c);
                        }
                    },
                    None => {
                        assert(s@[i - 1] == c);
                    },
                }
            }
            return Some(i - 1);
        }
        i = i - 1;
    }
    proof {
        lemma_last_index_of(s@, c);
        if let Some(k) = last_index_of(s@, c) {
            assert(s@[k] == c);
        }
    }
    None
}

// ---------------------------------------------------------------------------------------------
// Decimal numbers.
// ---------------------------------------------------------------------------------------------

/// The value of a sequence of ASCII digits.
pub open spec fn digits_value(s: Seq<char>) -> nat
    decreases s.len(),
{
    if s.len() == 0 {
        0
    } else {
        digits_value(s.drop_last()) * 10 + digit_value(s.last())
    }
}

/// The digits of an unsigned number, as `str::parse` reads them: an optional leading `+`
/// followed by at least one ASCII digit.
pub open spec fn unsigned_body(s: Seq<char>) -> Option<Seq<char>> {
    let body = if s.len() > 0 && s[0] == '+' {
        s.drop_first()
    } else {
        s
    };
    if body.len() > 0 && all_digits(body) {
        Some(body)
    } else {
        None
    }
}

/// What `str::parse::<u32>` returns on `s`, as `None` for an error.
pub open spec fn parse_u32_spec(s: Seq<char>) -> Option<u32> {
    match unsigned_body(s) {
        Some(body) => if digits_value(body) <= u32::MAX {
            Some(digits_value(body) as u32)
        } else {
            None
        },
        None => None,
    }
}

/// What `str::parse::<u64>` returns on `s`, as `None` for an error.
pub open spec fn parse_u64_spec(s: Seq<char>) -> Option<u64> {
    match unsigned_body(s) {
        Some(body) => if digits_value(body) <= u64::MAX {
            Some(digits_value(body) as u64)
        } else {
            None
        },
        None => None,
    }
}

proof fn lemma_digits_value_push(s: Seq<char>, c: char)
    ensures
        digits_value(s.push(c)) == digits_value(s) * 10 + digit_value(c),
{
    assert(s.push(c).drop_last() =~= s);
}

proof fn lemma_digits_value_monotone(s: Seq<char>, t: Seq<char>)
    requires
        all_digits(s + t),
    ensures
        digits_value(s + t) >= digits_value(s),
    decreases t.len(),
{
    if t.len() > 0 {
        assert((s + t).drop_last() =~= s + t.drop_last());
        assert forall|i: int| 0 <= i < (s + t.drop_last()).len() implies #[trigger] is_digit(
            (s + t.drop_last())[i],
        ) by {
            assert((s + t.drop_last())[i] == (s + t)[i]);
        }
        lemma_digits_value_monotone(s, t.drop_last());
    }
}

/// Reads the unsigned number in `s[from..to]`, with `limit` as the largest value accepted.
fn parse_unsigned(s: &[char], from: usize, to: usize, limit: u64) -> (res: Option<u64>)
    requires
        from <= to <= s@.len(),
        limit >= 9,
    ensures
        ({
            let t = s@.subrange(from as int, to as int);
            match unsigned_body(t) {
                Some(body) => if digits_value(body) <= limit {
                    res == Some(digits_value(body) as u64)
                } else {
                    res is None
                },
                None => res is None,
            }
        }),
{
    let ghost t = s@.subrange(from as int, to as int);
    let mut start = from;
    if start < to && s[start] == '+' {
        start = start + 1;
    }
    let ghost body = if t.len() > 0 && t[0] == '+' {
        t.drop_first()
    } else {
        t
    };
    assert(body =~= s@.subrange(start as int, to as int));
    if start == to {
        return None;
    }
    let mut value: u64 = 0;
    let mut i = start;
    while i < to
        invariant
            start <= i <= to <= s@.len(),
            start < to,
            limit >= 9,
            t == s@.subrange(from as int, to as int),
            body == (if t.len() > 0 && t[0] == '+' {
                t.drop_first()
            } else {
                t
            }),
            body == s@.subrange(start as int, to as int),
            all_digits(s@.subrange(start as int, i as int)),
            value == digits_value(s@.subrange(start as int, i as int)),
            value <= limit,
        decreases to - i,
    {
        let c = s[i];
        if !('0' <= c && c <= '9') {
            assert(body[i - start] == c);
            assert(!is_digit(body[i - start]));
            return None;
        }
        let d = (c as u32 - '0' as u32) as u64;
        proof {
            assert(s@.subrange(start as int, i + 1) =~= s@.subrange(start as int, i as int).push(
                c,
            ));
            lemma_digits_value_push(s@.subrange(start as int, i as int), c);
        }
        if value > (limit - d) / 10 {
            proof {
                assert(value * 10 + d > limit) by (nonlinear_arith)
                    requires
                        value > (limit - d) / 10,
                        d <= 9,
                        d <= limit,
                ;
                if all_digits(body) {
                    assert(body =~= s@.subrange(start as int, i + 1) + s@.subrange(
                        i + 1,
                        to as int,
                    ));
                    lemma_digits_value_monotone(
                        s@.subrange(start as int, i + 1),
                        s@.subrange(i + 1, to as int),
                    );
                }
            }
            return None;
        }
        proof {
            assert(value * 10 + d <= limit) by (nonlinear_arith)
                requires
                    value <= (limit - d) / 10,
                    d <= limit,
            ;
            assert forall|j: int| 0 <= j < i + 1 - start implies #[trigger] is_digit(
                s@.subrange(start as int, i + 1)[j],
            ) by {
                if j < i - start {
                    assert(s@.subrange(start as int, i + 1)[j] == s@.subrange(
                        start as int,
                        i as int,
                    )[j]);
                }
            }
        }
        value = value * 10 + d;
        i = i + 1;
    }
    assert(s@.subrange(start as int, to as int) =~= body);
    Some(value)
}

/// Parses `s[from..to]` as `str::parse::<u32>` does.
pub fn parse_u32_range(s: &[char], from: usize, to: usize) -> (res: Option<u32>)
    requires
        from <= to <= s@.len(),
    ensures
        res == parse_u32_spec(s@.subrange(from as int, to as int)),
{
    match parse_unsigned(s, from, to, u32::MAX as u64) {
        Some(v) => Some(v as u32),
        None => None,
    }
}

/// Parses `s` as `str::parse::<u32>` does.
pub fn parse_u32(s: &[char]) -> (res: Option<u32>)
    ensures
        res == parse_u32_spec(s@),
{
    assert(s@.subrange(0, s@.len() as int) =~= s@);
    parse_u32_range(s, 0, s.len())
}

/// Parses `s[from..to]` as `str::parse::<u64>` does.
pub fn parse_u64_range(s: &[char], from: usize, to: usize) -> (res: Option<u64>)
    requires
        from <= to <= s@.len(),
    ensures
        res == parse_u64_spec(s@.subrange(from as int, to as int)),
{
    parse_unsigned(s, from, to, u64::MAX)
}

/// The character of a decimal digit.
pub open spec fn digit_char(d: nat) -> char {
    (('0' as u32) + d) as char
}

/// The decimal representation of `n`, as `u64`'s `Display` writes it: no leading zeros, and
/// `0` for zero.
pub open spec fn decimal(n: nat) -> Seq<char>
    decreases n,
{
    if n < 10 {
        seq![digit_char(n)]
    } else {
        decimal(n / 10).push(digit_char(n % 10))
    }
}

/// The representation of a number is made of ASCII digits, and is not empty.
pub proof fn lemma_decimal_digits(n: nat)
    ensures
        decimal(n).len() > 0,
        forall|i: int| 0 <= i < decimal(n).len() ==> is_digit(#[trigger] decimal(n)[i]),
    decreases n,
{
    if n >= 10 {
        lemma_decimal_digits(n / 10);
        assert(is_digit(digit_char(n % 10)));
        assert forall|i: int| 0 <= i < decimal(n).len() implies is_digit(#[trigger] decimal(n)[i]) by {
            if i < decimal(n / 10).len() {
                assert(decimal(n)[i] == decimal(n / 10)[i]);
            }
        }
    } else {
        assert(is_digit(digit_char(n)));
    }
}

/// Writes `n` in decimal.
pub fn decimal_chars(n: u64) -> (res: Vec<char>)
    ensures
        res@ == decimal(n as nat),
    decreases n,
{
    if n < 10 {
        let c = char_of_digit(n);
        let mut v: Vec<char> = Vec::new();
        v.push(c);
        assert(v@ =~= decimal(n as nat));
        v
    } else {
        let mut v = decimal_chars(n / 10);
        v.push(char_of_digit(n % 10));
        v
    }
}

/// The character of the digit `d`.
fn char_of_digit(d: u64) -> (c: char)
    requires
        d < 10,
    ensures
        c == digit_char(d as nat),
{
    if d == 0 {
        '0'
    } else if d == 1 {
        '1'
    } else if d == 2 {
        '2'
    } else if d == 3 {
        '3'
    } else if d == 4 {
        '4'
    } else if d == 5 {
        '5'
    } else if d == 6 {
        '6'
    } else if d == 7 {
        '7'
    } else if d == 8 {
        '8'
    } else {
        '9'
    }
}

/// Writes `n` in decimal as a `String`.
pub fn decimal_string(n: u64) -> (res: String)
    ensures
        res@ == decimal(n as nat),
{
    let v = decimal_chars(n);
    string_of(v.as_slice())
}

/// Appends the characters of `s` to `v`.
pub fn push_all(v: &mut Vec<char>, s: &[char])
    ensures
        final(v)@ == old(v)@ + s@,
{
    let mut i: usize = 0;
    while i < s.len()
        invariant
            i <= s@.len(),
            v@ == old(v)@ + s@.subrange(0, i as int),
        decreases s@.len() - i,
    {
        v.push(s[i]);
        i = i + 1;
        assert(s@.subrange(0, i as int) =~= s@.subrange(0, i - 1).push(s@[i - 1]));
    }
    assert(s@.subrange(0, s@.len() as int) =~= s@);
}

/// Appends the characters of `s` to `v`.
pub fn push_str(v: &mut Vec<char>, s: &str)
    ensures
        final(v)@ == old(v)@ + s@,
{
    let cs = chars_of(s);
    push_all(v, cs.as_slice());
}

} // verus!
