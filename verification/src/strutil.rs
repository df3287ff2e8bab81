//! Small string utilities the engine needs: character-exact equality,
//! whitespace trimming for the picker's reply, and joining a sequence
//! of strings with a separator.

use vstd::prelude::*;
use crate::codec::is_space;
use crate::codec::ws_end;
use crate::codec::lemma_ws_end;
use crate::codec::char_is_space;
use crate::codec::scan_spaces;

verus! {

/// Whether two string slices hold the same characters.
pub fn str_eq(a: &str, b: &str) -> (r: bool)
    ensures
        r == (a@ == b@),
{
    let sa = String::from_str(a);
    let sb = String::from_str(b);
    sa == sb
}

/// Last position at or before `j` such that everything from it up to
/// `j` is whitespace.
pub open spec fn ws_begin(s: Seq<char>, j: int) -> int
    decreases j when 0 <= j <= s.len()
{
    if 0 < j <= s.len() && is_space(s[j - 1]) {
        ws_begin(s, j - 1)
    } else {
        j
    }
}

pub proof fn lemma_ws_begin(s: Seq<char>, j: int)
    requires
        0 <= j <= s.len(),
    ensures
        0 <= ws_begin(s, j) <= j,
        forall|k: int| ws_begin(s, j) <= k < j ==> is_space(s[k]),
        ws_begin(s, j) > 0 ==> !is_space(s[ws_begin(s, j) - 1]),
    decreases j,
{
    if 0 < j && is_space(s[j - 1]) {
        lemma_ws_begin(s, j - 1);
    }
}

/// `s` with leading and trailing whitespace removed.
pub open spec fn spec_trim(s: Seq<char>) -> Seq<char> {
    let a = ws_end(s, 0);
    if a >= s.len() {
        Seq::empty()
    } else {
        s.subrange(a, ws_begin(s, s.len() as int))
    }
}

/// Strips leading and trailing whitespace.
pub fn trimmed(s: &str) -> (r: String)
    ensures
        r@ == spec_trim(s@),
{
    let n = s.unicode_len();
    let a = scan_spaces(s, 0, n);
    if a >= n {
        proof {
            assert(spec_trim(s@) =~= Seq::<char>::empty());
        }
        return String::new();
    }
    let mut b = n;
    while b > 0 && char_is_space(s.get_char(b - 1))
        invariant
            0 <= b <= n,
            n == s@.len(),
            ws_begin(s@, n as int) == ws_begin(s@, b as int),
        decreases b,
    {
        b = b - 1;
    }
    proof {
        lemma_ws_end(s@, 0);
        lemma_ws_begin(s@, n as int);
        assert(!is_space(s@[a as int]));
        assert(ws_begin(s@, n as int) > a as int);
    }
    String::from_str(s.substring_char(a, b))
}

/// The items joined with `sep` between each neighbouring pair.
pub open spec fn spec_join(ts: Seq<Seq<char>>, sep: Seq<char>) -> Seq<char>
    decreases ts.len()
{
    if ts.len() == 0 {
        Seq::empty()
    } else if ts.len() == 1 {
        ts[0]
    } else {
        ts[0] + sep + spec_join(ts.drop_first(), sep)
    }
}

/// Joining one more item appends a separator and the item.
pub proof fn lemma_join_push(ts: Seq<Seq<char>>, sep: Seq<char>, x: Seq<char>)
    ensures
        spec_join(ts.push(x), sep) == if ts.len() == 0 {
            x
        } else {
            spec_join(ts, sep) + sep + x
        },
    decreases ts.len(),
{
    if ts.len() == 0 {
        assert(ts.push(x).len() == 1);
        assert(ts.push(x)[0] == x);
    } else {
        assert(ts.push(x).drop_first() =~= ts.drop_first().push(x));
        lemma_join_push(ts.drop_first(), sep, x);
        assert(ts.push(x)[0] == ts[0]);
        if ts.len() == 1 {
            assert(spec_join(ts.push(x), sep) == ts[0] + sep + x);
        } else {
            assert((ts[0] + sep + spec_join(ts.drop_first(), sep)) + sep + x =~= ts[0] + sep + (
            spec_join(ts.drop_first(), sep) + sep + x));
        }
    }
}

/// Joins the items with the separator.
pub fn join_strings(items: &Vec<String>, sep: &str) -> (r: String)
    ensures
        r@ == spec_join(items.deep_view(), sep@),
{
    let n = items.len();
    let mut r = String::new();
    let mut k: usize = 0;
    while k < n
        invariant
            k <= n,
            n == items@.len(),
            r@ == spec_join(items.deep_view().take(k as int), sep@),
        decreases n - k,
    {
        if k > 0 {
            r.append(sep);
        }
        r.append(items[k].as_str());
        proof {
            let dv = items.deep_view();
            assert(dv.take(k + 1) =~= dv.take(k as int).push(dv[k as int]));
            lemma_join_push(dv.take(k as int), sep@, dv[k as int]);
            assert(dv[k as int] == items@[k as int]@);
        }
        k = k + 1;
    }
    proof {
        assert(items.deep_view().take(n as int) =~= items.deep_view());
    }
    r
}

} // verus!
