//! The patterns that pick video and live-room identifiers out of a link.
//!
//! Each search finds the leftmost place where its pattern matches, as a
//! regular-expression search does; `\d` is the regex crate's Unicode
//! decimal-digit class.
use vstd::prelude::*;
use crate::text::{is_ascii_digit, matches_at, occurs_at, sub_chars, to_chars};

verus! {

/// The pattern of a single decimal digit in the regex crate's syntax.
pub const DIGIT_PATTERN: &'static str = "^\\d$";

/// What the regex crate reports when `pattern` is compiled (`None` when it
/// does not compile) and then tested against `text`.
pub uninterp spec fn spec_regex_is_match(pattern: Seq<char>, text: Seq<char>) -> Option<bool>;

/// Compiles `pattern` with `regex::Regex::new` and tests `text` with
/// `Regex::is_match`; the result is named, as a function of the two
/// strings. As the regex crate documents, `\d` is the Unicode class `Nd`,
/// whose only ASCII members are `0` to `9`: for the one-digit pattern and a
/// single ASCII character the outcome is stated.
#[verifier::external_body]
fn regex_is_match(pattern: &str, text: &str) -> (r: Option<bool>)
    ensures
        r == spec_regex_is_match(pattern@, text@),
        pattern@ == DIGIT_PATTERN@ && text@.len() == 1 && (text@[0] as u32) < 128 ==> r == Some(
            is_ascii_digit(text@[0]),
        ),
{
    match regex::Regex::new(pattern) {
        Ok(re) => Some(re.is_match(text)),
        Err(_) => None,
    }
}

/// `c` belongs to the regex crate's `\d` class: among ASCII characters
/// the digits `0` to `9`, and beyond ASCII what the regex crate reports.
pub open spec fn is_decimal_digit(c: char) -> bool {
    if (c as u32) < 128 {
        is_ascii_digit(c)
    } else {
        spec_regex_is_match(DIGIT_PATTERN@, seq![c]) == Some(true)
    }
}

pub fn decimal_digit(c: char) -> (b: bool)
    ensures
        b == is_decimal_digit(c),
{
    let mut s = String::new();
    s.push(c);
    assert(s@ == seq![c]);
    match regex_is_match(DIGIT_PATTERN, s.as_str()) {
        Some(true) => true,
        _ => false,
    }
}

pub open spec fn is_ascii_alphanumeric(c: char) -> bool {
    is_ascii_digit(c) || ('a' <= c && c <= 'z') || ('A' <= c && c <= 'Z')
}

/// The end of the run of `\d` digits that starts at `j`.
pub open spec fn run_end_of(s: Seq<char>, j: int) -> int
    decreases s.len() - j,
{
    if 0 <= j < s.len() && is_decimal_digit(s[j]) {
        run_end_of(s, j + 1)
    } else {
        j
    }
}

/// The least index in `i..=n` at which `p` holds.
pub open spec fn first_from(p: spec_fn(int) -> bool, i: int, n: int) -> Option<int>
    decreases n + 1 - i,
{
    if i > n {
        None
    } else if p(i) {
        Some(i)
    } else {
        first_from(p, i + 1, n)
    }
}

/// The leftmost index at which `p` holds in a string of length `n`.
pub open spec fn leftmost(p: spec_fn(int) -> bool, n: int) -> Option<int> {
    first_from(p, 0, n)
}

/// `BV` followed by ten ASCII letters or digits starts at `i`.
pub open spec fn bv_at(s: Seq<char>, i: int) -> bool {
    &&& 0 <= i
    &&& i + 12 <= s.len()
    &&& s[i] == 'B'
    &&& s[i + 1] == 'V'
    &&& forall|k: int| i + 2 <= k < i + 12 ==> is_ascii_alphanumeric(#[trigger] s[k])
}

/// The leftmost match of `BV[0-9a-zA-Z]{10}` in `s`.
pub open spec fn bv_id_in(s: Seq<char>) -> Option<Seq<char>> {
    match leftmost(|i: int| bv_at(s, i), s.len() as int) {
        Some(i) => Some(s.subrange(i, i + 12)),
        None => None,
    }
}

/// `av` or `AV` followed by a digit starts at `i`.
pub open spec fn av_at(s: Seq<char>, i: int) -> bool {
    &&& 0 <= i
    &&& i + 3 <= s.len()
    &&& ((s[i] == 'a' && s[i + 1] == 'v') || (s[i] == 'A' && s[i + 1] == 'V'))
    &&& is_decimal_digit(s[i + 2])
}

/// The digits captured by the leftmost match of `(?:av|AV)(\d+)` in `s`.
pub open spec fn av_number_in(s: Seq<char>) -> Option<Seq<char>> {
    match leftmost(|i: int| av_at(s, i), s.len() as int) {
        Some(i) => Some(s.subrange(i + 2, run_end_of(s, i + 2))),
        None => None,
    }
}

/// `?p=` or `&p=` followed by a digit starts at `i`.
pub open spec fn page_at(s: Seq<char>, i: int) -> bool {
    &&& 0 <= i
    &&& i + 4 <= s.len()
    &&& (s[i] == '?' || s[i] == '&')
    &&& s[i + 1] == 'p'
    &&& s[i + 2] == '='
    &&& is_decimal_digit(s[i + 3])
}

/// The digits captured by the leftmost match of `[?&]p=(\d+)` in `s`.
pub open spec fn page_number_in(s: Seq<char>) -> Option<Seq<char>> {
    match leftmost(|i: int| page_at(s, i), s.len() as int) {
        Some(i) => Some(s.subrange(i + 3, run_end_of(s, i + 3))),
        None => None,
    }
}

/// Where the room digits begin when `live.bilibili.com/` stands at `i`:
/// after an optional `blanc/`, which is taken when digits follow it.
pub open spec fn live_digits_start(s: Seq<char>, i: int) -> int {
    let j = i + 18;
    if occurs_at(s, "blanc/"@, j) && j + 6 < s.len() && is_decimal_digit(s[j + 6]) {
        j + 6
    } else {
        j
    }
}

/// `live.bilibili.com/`, an optional `blanc/` and a digit start at `i`.
pub open spec fn live_room_at(s: Seq<char>, i: int) -> bool {
    &&& occurs_at(s, "live.bilibili.com/"@, i)
    &&& live_digits_start(s, i) < s.len()
    &&& is_decimal_digit(s[live_digits_start(s, i)])
}

/// The digits captured by the leftmost match of
/// `live\.bilibili\.com/(?:blanc/)?(\d+)` in `s`.
pub open spec fn live_room_id_in(s: Seq<char>) -> Option<Seq<char>> {
    match leftmost(|i: int| live_room_at(s, i), s.len() as int) {
        Some(i) => Some(s.subrange(live_digits_start(s, i), run_end_of(s, live_digits_start(s, i)))),
        None => None,
    }
}

/// The end of the run of `\d` digits that starts at `j`.
pub fn digit_run_end(s: &[char], j: usize) -> (e: usize)
    requires
        j <= s@.len(),
    ensures
        e == run_end_of(s@, j as int),
        j <= e <= s@.len(),
{
    let mut e: usize = j;
    while e < s.len() && decimal_digit(s[e])
        invariant
            j <= e <= s@.len(),
            run_end_of(s@, j as int) == run_end_of(s@, e as int),
        decreases s@.len() - e,
    {
        e += 1;
    }
    e
}

/// The leftmost match of `BV[0-9a-zA-Z]{10}` in `s`.
pub fn find_bv_id(s: &[char]) -> (r: Option<Vec<char>>)
    ensures
        match bv_id_in(s@) {
            Some(id) => r matches Some(v) && v@ == id,
            None => r is None,
        },
{
    let ghost p = |i: int| bv_at(s@, i);
    let mut i: usize = 0;
    while i < s.len()
        invariant
            i <= s@.len(),
            p == (|i: int| bv_at(s@, i)),
            leftmost(p, s@.len() as int) == first_from(p, i as int, s@.len() as int),
        decreases s@.len() - i,
    {
        if s.len() - i >= 12 && s[i] == 'B' && s[i + 1] == 'V' {
            let mut k: usize = i + 2;
            while k < i + 12 && is_alnum(s[k])
                invariant
                    i + 2 <= k <= i + 12 <= s.len(),
                    forall|m: int| i + 2 <= m < k ==> is_ascii_alphanumeric(#[trigger] s@[m]),
                decreases i + 12 - k,
            {
                k += 1;
            }
            if k == i + 12 {
                assert(p(i as int));
                return Some(sub_chars(s, i, i + 12));
            }
        }
        assert(!p(i as int));
        i += 1;
    }
    assert(!p(i as int));
    assert(first_from(p, i as int, s@.len() as int) == first_from(p, i + 1, s@.len() as int));
    None
}

/// The digits captured by the leftmost match of `(?:av|AV)(\d+)` in `s`.
pub fn find_av_number(s: &[char]) -> (r: Option<Vec<char>>)
    ensures
        match av_number_in(s@) {
            Some(id) => r matches Some(v) && v@ == id,
            None => r is None,
        },
{
    let ghost p = |i: int| av_at(s@, i);
    let mut i: usize = 0;
    while i < s.len()
        invariant
            i <= s@.len(),
            p == (|i: int| av_at(s@, i)),
            leftmost(p, s@.len() as int) == first_from(p, i as int, s@.len() as int),
        decreases s@.len() - i,
    {
        if s.len() - i >= 3 && ((s[i] == 'a' && s[i + 1] == 'v') || (s[i] == 'A' && s[i + 1]
            == 'V')) && decimal_digit(s[i + 2]) {
            assert(p(i as int));
            let e = digit_run_end(s, i + 2);
            return Some(sub_chars(s, i + 2, e));
        }
        assert(!p(i as int));
        i += 1;
    }
    assert(!p(i as int));
    assert(first_from(p, i as int, s@.len() as int) == first_from(p, i + 1, s@.len() as int));
    None
}

/// The digits captured by the leftmost match of `[?&]p=(\d+)` in `s`.
pub fn find_page_number(s: &[char]) -> (r: Option<Vec<char>>)
    ensures
        match page_number_in(s@) {
            Some(id) => r matches Some(v) && v@ == id,
            None => r is None,
        },
{
    let ghost p = |i: int| page_at(s@, i);
    let mut i: usize = 0;
    while i < s.len()
        invariant
            i <= s@.len(),
            p == (|i: int| page_at(s@, i)),
            leftmost(p, s@.len() as int) == first_from(p, i as int, s@.len() as int),
        decreases s@.len() - i,
    {
        if s.len() - i >= 4 && (s[i] == '?' || s[i] == '&') && s[i + 1] == 'p' && s[i + 2] == '='
            && decimal_digit(s[i + 3]) {
            assert(p(i as int));
            let e = digit_run_end(s, i + 3);
            return Some(sub_chars(s, i + 3, e));
        }
        assert(!p(i as int));
        i += 1;
    }
    assert(!p(i as int));
    assert(first_from(p, i as int, s@.len() as int) == first_from(p, i + 1, s@.len() as int));
    None
}

/// The digits captured by the leftmost match of
/// `live\.bilibili\.com/(?:blanc/)?(\d+)` in `s`.
pub fn find_live_room_id(s: &[char]) -> (r: Option<Vec<char>>)
    ensures
        match live_room_id_in(s@) {
            Some(id) => r matches Some(v) && v@ == id,
            None => r is None,
        },
{
    let host = to_chars("live.bilibili.com/");
    let blanc = to_chars("blanc/");
    proof {
        reveal_strlit("live.bilibili.com/");
        reveal_strlit("blanc/");
    }
    assert(host@.len() == 18);
    assert(blanc@.len() == 6);
    let ghost p = |i: int| live_room_at(s@, i);
    let mut i: usize = 0;
    while i < s.len()
        invariant
            i <= s@.len(),
            host@ == "live.bilibili.com/"@,
            host@.len() == 18,
            blanc@ == "blanc/"@,
            blanc@.len() == 6,
            p == (|i: int| live_room_at(s@, i)),
            leftmost(p, s@.len() as int) == first_from(p, i as int, s@.len() as int),
        decreases s@.len() - i,
    {
        if matches_at(s, &host, i) {
            let j = i + 18;
            let start = if matches_at(s, &blanc, j) && j + 6 < s.len() && decimal_digit(s[j + 6]) {
                j + 6
            } else {
                j
            };
            assert(start == live_digits_start(s@, i as int));
            if start < s.len() && decimal_digit(s[start]) {
                assert(p(i as int));
                let e = digit_run_end(s, start);
                return Some(sub_chars(s, start, e));
            }
        }
        assert(!p(i as int));
        i += 1;
    }
    assert(!p(i as int));
    assert(first_from(p, i as int, s@.len() as int) == first_from(p, i + 1, s@.len() as int));
    None
}

fn is_alnum(c: char) -> (b: bool)
    ensures
        b == is_ascii_alphanumeric(c),
{
    ('0' <= c && c <= '9') || ('a' <= c && c <= 'z') || ('A' <= c && c <= 'Z')
}

} // verus!
