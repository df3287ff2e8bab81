//! Identifier codec: a workspace's raw slot identifier is an optional
//! decimal index, an optional `:` separator with optional surrounding
//! whitespace, and the remaining characters as the title.
//!
//! `decode` splits an identifier into `(index, title)`; `encode` builds
//! the canonical `"<index>:<title>"` form.  When the remainder after the
//! separator is empty but an index was present, the index's own digits
//! serve as the title, so that a workspace literally named by a bare
//! number keeps a readable title.

use vstd::prelude::*;

verus! {

/// Whitespace tolerated around the index and the separator.
pub open spec fn is_space(c: char) -> bool {
    c == ' ' || c == '\t' || c == '\r' || c == '\n'
}

/// Decimal digit.
pub open spec fn is_digit(c: char) -> bool {
    48 <= c as u32 <= 57
}

/// Numeric value of a decimal digit character.
pub open spec fn digit_val(c: char) -> int {
    c as u32 - 48
}

/// First position at or after `i` that does not hold whitespace.
pub open spec fn ws_end(s: Seq<char>, i: int) -> int
    decreases s.len() - i when 0 <= i <= s.len()
{
    if 0 <= i < s.len() && is_space(s[i]) {
        ws_end(s, i + 1)
    } else {
        i
    }
}

/// First position at or after `i` that does not hold a digit.
pub open spec fn digits_end(s: Seq<char>, i: int) -> int
    decreases s.len() - i when 0 <= i <= s.len()
{
    if 0 <= i < s.len() && is_digit(s[i]) {
        digits_end(s, i + 1)
    } else {
        i
    }
}

/// Value of the digit run `s[i..j)`.
pub open spec fn digits_val(s: Seq<char>, i: int, j: int) -> int
    decreases j - i when i <= j
{
    if i < j {
        digits_val(s, i, j - 1) * 10 + digit_val(s[j - 1])
    } else {
        0
    }
}

pub proof fn lemma_ws_end(s: Seq<char>, i: int)
    requires
        0 <= i <= s.len(),
    ensures
        i <= ws_end(s, i) <= s.len(),
        forall|k: int| i <= k < ws_end(s, i) ==> is_space(s[k]),
        ws_end(s, i) < s.len() ==> !is_space(s[ws_end(s, i)]),
    decreases s.len() - i,
{
    if i < s.len() && is_space(s[i]) {
        lemma_ws_end(s, i + 1);
    }
}

pub proof fn lemma_digits_end(s: Seq<char>, i: int)
    requires
        0 <= i <= s.len(),
    ensures
        i <= digits_end(s, i) <= s.len(),
        forall|k: int| i <= k < digits_end(s, i) ==> is_digit(s[k]),
        digits_end(s, i) < s.len() ==> !is_digit(s[digits_end(s, i)]),
    decreases s.len() - i,
{
    if i < s.len() && is_digit(s[i]) {
        lemma_digits_end(s, i + 1);
    }
}

/// Where the index's digit run starts: after any leading whitespace.
pub open spec fn index_start(s: Seq<char>) -> int {
    ws_end(s, 0)
}

/// Where the index's digit run ends.
pub open spec fn index_end(s: Seq<char>) -> int {
    digits_end(s, index_start(s))
}

/// The decoded index: the value of the leading digit run, if there is one.
pub open spec fn spec_index_of(s: Seq<char>) -> Option<int> {
    if index_end(s) > index_start(s) {
        Some(digits_val(s, index_start(s), index_end(s)))
    } else {
        None
    }
}

/// Where the title starts: after the digit run, optional whitespace,
/// an optional `:` separator and the whitespace that follows it.
pub open spec fn title_start(s: Seq<char>) -> int {
    let c = ws_end(s, index_end(s));
    if c < s.len() && s[c] == ':' {
        ws_end(s, c + 1)
    } else {
        c
    }
}

/// The decoded title.  When the remainder is empty and an index was
/// present, the index's digits stand in as the title.
pub open spec fn spec_title_of(s: Seq<char>) -> Seq<char> {
    let t = s.subrange(title_start(s), s.len() as int);
    if t.len() == 0 && spec_index_of(s) is Some {
        s.subrange(index_start(s), index_end(s))
    } else {
        t
    }
}

/// The digit character for a value between 0 and 9.
pub open spec fn digit_char(d: int) -> char {
    if d == 0 { '0' }
    else if d == 1 { '1' }
    else if d == 2 { '2' }
    else if d == 3 { '3' }
    else if d == 4 { '4' }
    else if d == 5 { '5' }
    else if d == 6 { '6' }
    else if d == 7 { '7' }
    else if d == 8 { '8' }
    else { '9' }
}

/// Decimal numeral of a non-negative value, most significant digit first.
pub open spec fn spec_digits(v: int) -> Seq<char>
    decreases v when v >= 0
{
    if v <= 9 {
        seq![digit_char(v)]
    } else {
        spec_digits(v / 10).push(digit_char(v % 10))
    }
}

/// Canonical identifier for an index and a title: `"<index>:<title>"`.
pub open spec fn spec_encode(idx: int, title: Seq<char>) -> Seq<char> {
    spec_digits(idx) + seq![':'] + title
}

pub(crate) fn char_is_space(c: char) -> (b: bool)
    ensures
        b == is_space(c),
{
    c == ' ' || c == '\t' || c == '\r' || c == '\n'
}

fn char_is_digit(c: char) -> (b: bool)
    ensures
        b == is_digit(c),
{
    let u = c as u32;
    48 <= u && u <= 57
}

/// The one-character string for a digit value.
fn digit_str(d: u64) -> (r: &'static str)
    requires
        d <= 9,
    ensures
        r@ == seq![digit_char(d as int)],
{
    proof {
        reveal_strlit("0");
        reveal_strlit("1");
        reveal_strlit("2");
        reveal_strlit("3");
        reveal_strlit("4");
        reveal_strlit("5");
        reveal_strlit("6");
        reveal_strlit("7");
        reveal_strlit("8");
        reveal_strlit("9");
        assert("0"@ =~= seq![digit_char(0)]);
        assert("1"@ =~= seq![digit_char(1)]);
        assert("2"@ =~= seq![digit_char(2)]);
        assert("3"@ =~= seq![digit_char(3)]);
        assert("4"@ =~= seq![digit_char(4)]);
        assert("5"@ =~= seq![digit_char(5)]);
        assert("6"@ =~= seq![digit_char(6)]);
        assert("7"@ =~= seq![digit_char(7)]);
        assert("8"@ =~= seq![digit_char(8)]);
        assert("9"@ =~= seq![digit_char(9)]);
    }
    if d == 0 { "0" }
    else if d == 1 { "1" }
    else if d == 2 { "2" }
    else if d == 3 { "3" }
    else if d == 4 { "4" }
    else if d == 5 { "5" }
    else if d == 6 { "6" }
    else if d == 7 { "7" }
    else if d == 8 { "8" }
    else { "9" }
}

/// Decimal numeral of `v`.
pub fn u64_to_string(v: u64) -> (r: String)
    ensures
        r@ == spec_digits(v as int),
    decreases v,
{
    if v <= 9 {
        String::from_str(digit_str(v))
    } else {
        let mut s = u64_to_string(v / 10);
        s.append(digit_str(v % 10));
        proof {
            assert(spec_digits(v as int) =~= spec_digits(v as int / 10).push(
                digit_char(v as int % 10)));
            assert(s@ =~= spec_digits(v as int));
        }
        s
    }
}

pub proof fn lemma_spec_digits_are_digits(v: int)
    requires
        v >= 0,
    ensures
        spec_digits(v).len() >= 1,
        forall|k: int| 0 <= k < spec_digits(v).len() ==> is_digit(#[trigger] spec_digits(v)[k]),
    decreases v,
{
    if v > 9 {
        lemma_spec_digits_are_digits(v / 10);
    }
}

/// Value of a numeral read back as a digit run embedded in `s` at `i`.
pub proof fn lemma_digits_val_of_numeral(s: Seq<char>, i: int, v: int)
    requires
        v >= 0,
        0 <= i,
        i + spec_digits(v).len() <= s.len(),
        s.subrange(i, i + spec_digits(v).len()) == spec_digits(v),
    ensures
        digits_val(s, i, i + spec_digits(v).len()) == v,
    decreases v,
{
    let d = spec_digits(v);
    assert(forall|k: int| 0 <= k < d.len() ==> s[i + k] == d[k]) by {
        assert(forall|k: int| 0 <= k < d.len() ==> s[i + k] == #[trigger] s.subrange(
            i, i + d.len())[k]);
    }
    if v <= 9 {
        assert(s[i] == d[0]);
        assert(d[0] == digit_char(v));
        assert(digit_val(digit_char(v)) == v);
        assert(digits_val(s, i, i + 1) == digits_val(s, i, i) * 10 + digit_val(s[i]));
    } else {
        let m = spec_digits(v / 10).len() as int;
        lemma_spec_digits_are_digits(v / 10);
        assert(d == spec_digits(v / 10).push(digit_char(v % 10)));
        assert(d.len() == m + 1);
        assert(forall|k: int| 0 <= k < m ==> d[k] == spec_digits(v / 10)[k]);
        assert(s.subrange(i, i + m) =~= spec_digits(v / 10));
        lemma_digits_val_of_numeral(s, i, v / 10);
        assert(digits_val(s, i, i + m) == v / 10);
        assert(s[i + m] == d[m]);
        assert(d[m] == digit_char(v % 10));
        assert(digit_val(digit_char(v % 10)) == v % 10);
        assert(digits_val(s, i, i + m + 1) == digits_val(s, i, i + m) * 10 + digit_val(s[i + m]));
        vstd::arithmetic::div_mod::lemma_fundamental_div_mod(v, 10);
        assert(digits_val(s, i, i + m + 1) == v);
    }
}

/// A run of digits up to a non-digit (or the end) is exactly what
/// `digits_end` spans.
pub proof fn lemma_digits_end_of_run(s: Seq<char>, i: int, j: int)
    requires
        0 <= i <= j <= s.len(),
        forall|k: int| i <= k < j ==> is_digit(s[k]),
        j == s.len() || !is_digit(s[j]),
    ensures
        digits_end(s, i) == j,
    decreases j - i,
{
    if i < j {
        lemma_digits_end_of_run(s, i + 1, j);
    }
}

/// The index half of decoding a canonical identifier: whatever the
/// title, the leading numeral reads back as the index.
pub proof fn lemma_encode_index(idx: int, title: Seq<char>)
    requires
        idx >= 0,
    ensures
        spec_index_of(spec_encode(idx, title)) == Some(idx),
    decreases idx,
{
    let s = spec_encode(idx, title);
    let d = spec_digits(idx);
    lemma_spec_digits_are_digits(idx);
    assert(s[0] == d[0]);
    assert(!is_space(s[0]));
    assert(index_start(s) == 0);
    assert(s[d.len() as int] == ':');
    assert(forall|k: int| 0 <= k < d.len() ==> s[k] == d[k]);
    lemma_digits_end_of_run(s, 0, d.len() as int);
    assert(s.subrange(0, d.len() as int) =~= d);
    lemma_digits_val_of_numeral(s, 0, idx);
}

/// The title half of decoding a canonical identifier: the title reads
/// back unchanged unless it is empty, in which case the index's digits
/// stand in for it.
pub proof fn lemma_encode_title(idx: int, title: Seq<char>)
    requires
        idx >= 0,
        title.len() > 0 ==> !is_space(title[0]),
    ensures
        spec_title_of(spec_encode(idx, title)) == if title.len() == 0 {
            spec_digits(idx)
        } else {
            title
        },
{
    let s = spec_encode(idx, title);
    let d = spec_digits(idx);
    let m = d.len() as int;
    lemma_encode_index(idx, title);
    lemma_spec_digits_are_digits(idx);
    assert(s[0] == d[0]);
    assert(index_start(s) == 0);
    assert(forall|k: int| 0 <= k < d.len() ==> s[k] == d[k]);
    lemma_digits_end_of_run(s, 0, m);
    assert(s[m] == ':');
    assert(!is_space(s[m]));
    assert(ws_end(s, m) == m);
    if title.len() == 0 {
        assert(title_start(s) == m + 1);
        assert(s.subrange(title_start(s), s.len() as int).len() == 0);
        assert(s.subrange(0, m) =~= d);
    } else {
        assert(s[m + 1] == title[0]);
        assert(ws_end(s, m + 1) == m + 1);
        assert(title_start(s) == m + 1);
        assert(s.subrange(m + 1, s.len() as int) =~= title);
    }
}

/// A decoded title never starts with whitespace: the separator's
/// surrounding whitespace is consumed, and the digits-as-title fallback
/// yields digits.
pub proof fn lemma_title_no_leading_space(s: Seq<char>)
    ensures
        spec_title_of(s).len() > 0 ==> !is_space(spec_title_of(s)[0]),
{
    lemma_ws_end(s, 0);
    lemma_digits_end(s, index_start(s));
    lemma_ws_end(s, index_end(s));
    let c = ws_end(s, index_end(s));
    if c < s.len() && s[c] == ':' {
        lemma_ws_end(s, c + 1);
    }
    let t = s.subrange(title_start(s), s.len() as int);
    if t.len() == 0 && spec_index_of(s) is Some {
        assert(is_digit(s[index_start(s)]));
    } else if t.len() > 0 {
        assert(t[0] == s[title_start(s)]);
    }
}

/// Codec round trip: a canonical identifier built from an index of at
/// least 1 and a non-empty title whose first character is not
/// whitespace decodes to exactly that index and title.
pub proof fn lemma_codec_round_trip(idx: int, title: Seq<char>)
    requires
        idx >= 1,
        title.len() > 0,
        !is_space(title[0]),
    ensures
        spec_index_of(spec_encode(idx, title)) == Some(idx),
        spec_title_of(spec_encode(idx, title)) == title,
{
    lemma_encode_index(idx, title);
    lemma_encode_title(idx, title);
}

/// An index value as `decode` reports it: values beyond `u64::MAX`
/// are clamped to `u64::MAX`.
pub open spec fn clamp_u64(v: int) -> int {
    if v > u64::MAX { u64::MAX as int } else { v }
}

/// First position at or after `start` without whitespace, executably.
pub(crate) fn scan_spaces(s: &str, start: usize, n: usize) -> (j: usize)
    requires
        start <= n,
        n == s@.len(),
    ensures
        j == ws_end(s@, start as int),
{
    let mut i = start;
    while i < n && char_is_space(s.get_char(i))
        invariant
            start <= i <= n,
            n == s@.len(),
            ws_end(s@, start as int) == ws_end(s@, i as int),
        decreases n - i,
    {
        i = i + 1;
    }
    i
}

/// First position at or after `start` without a digit, executably.
fn scan_digits(s: &str, start: usize, n: usize) -> (j: usize)
    requires
        start <= n,
        n == s@.len(),
    ensures
        j == digits_end(s@, start as int),
{
    let mut i = start;
    while i < n && char_is_digit(s.get_char(i))
        invariant
            start <= i <= n,
            n == s@.len(),
            digits_end(s@, start as int) == digits_end(s@, i as int),
        decreases n - i,
    {
        i = i + 1;
    }
    i
}

/// Value of the digit run `s[a..b)`, clamped to `u64::MAX`.
fn parse_digits(s: &str, a: usize, b: usize, n: usize) -> (v: u64)
    requires
        a <= b <= n,
        n == s@.len(),
        forall|k: int| a <= k < b ==> is_digit(s@[k]),
    ensures
        v as int == clamp_u64(digits_val(s@, a as int, b as int)),
{
    let mut acc: u64 = 0;
    let mut i = a;
    while i < b
        invariant
            a <= i <= b <= n,
            n == s@.len(),
            forall|k: int| a <= k < b ==> is_digit(s@[k]),
            acc as int == clamp_u64(digits_val(s@, a as int, i as int)),
            digits_val(s@, a as int, i as int) >= 0,
        decreases b - i,
    {
        let d = s.get_char(i) as u32 as u64 - 48;
        proof {
            assert(digits_val(s@, a as int, i + 1) == digits_val(s@, a as int, i as int) * 10
                + digit_val(s@[i as int]));
        }
        if acc > u64::MAX / 10 || (acc == u64::MAX / 10 && d > u64::MAX % 10) {
            acc = u64::MAX;
        } else {
            acc = acc * 10 + d;
        }
        i = i + 1;
    }
    acc
}

/// Splits a raw identifier into its index and title.
///
/// The index is the value of the leading digit run, clamped to
/// `u64::MAX` when the run denotes a larger value; `None` when the
/// identifier has no leading digits.  The title is everything after the
/// optional `:` separator and the whitespace around it, falling back to
/// the index's own digits when that remainder is empty.
pub fn decode(name: &str) -> (r: (Option<u64>, String))
    ensures
        r.1@ == spec_title_of(name@),
        match spec_index_of(name@) {
            Some(v) => r.0 matches Some(u) && u as int == clamp_u64(v),
            None => r.0 is None,
        },
{
    let n = name.unicode_len();
    let a = scan_spaces(name, 0, n);
    proof {
        lemma_ws_end(name@, 0);
        lemma_digits_end(name@, a as int);
    }
    let b = scan_digits(name, a, n);
    let idx: Option<u64> = if b > a {
        Some(parse_digits(name, a, b, n))
    } else {
        None
    };
    proof {
        lemma_ws_end(name@, b as int);
    }
    let c = scan_spaces(name, b, n);
    let t = if c < n && name.get_char(c) == ':' {
        proof {
            lemma_ws_end(name@, c + 1);
        }
        scan_spaces(name, c + 1, n)
    } else {
        c
    };
    let title = if t < n {
        String::from_str(name.substring_char(t, n))
    } else if b > a {
        String::from_str(name.substring_char(a, b))
    } else {
        String::new()
    };
    proof {
        assert(title@ =~= spec_title_of(name@));
    }
    (idx, title)
}

/// The human-meaningful title of a raw workspace identifier: the
/// identifier with its numeric prefix and separator stripped.
pub fn title_from_name(name: &str) -> (r: String)
    ensures
        r@ == spec_title_of(name@),
{
    let (_, title) = decode(name);
    title
}

/// Canonical `"<index>:<title>"` identifier for a workspace.
pub fn encode(index: u64, title: &str) -> (r: String)
    ensures
        r@ == spec_encode(index as int, title@),
{
    let mut s = u64_to_string(index);
    s.append(":");
    s.append(title);
    proof {
        reveal_strlit(":");
        assert(":"@ =~= seq![':']);
        assert(s@ =~= spec_encode(index as int, title@));
    }
    s
}

} // verus!
