//! Snapshot of the window manager's live workspaces, with the read-only
//! queries the planner needs and the two reconciliation operations:
//! promotion of one workspace to the front and contiguous renumbering
//! of the whole set.
//!
//! A snapshot is built fresh from the transport before every decision
//! and discarded afterwards; the ordering it reports is the sole source
//! of position.

use vstd::prelude::*;
use crate::codec::spec_title_of;
use crate::codec::spec_encode;
use crate::codec::encode;
use crate::codec::title_from_name;
use crate::strutil::str_eq;

verus! {

/// One live workspace as the window manager reports it.
pub struct Workspace {
    /// The raw slot identifier, the authoritative key.
    pub name: String,
    /// The numeric slot the window manager reports; negative for
    /// workspaces it has not numbered.
    pub num: i32,
    /// The physical output the workspace lives on.
    pub output: String,
    /// Whether this workspace holds the focus; at most one does.
    pub focused: bool,
}

/// Mathematical model of one workspace.
pub struct WorkspaceView {
    pub name: Seq<char>,
    pub num: int,
    pub output: Seq<char>,
    pub focused: bool,
}

impl View for Workspace {
    type V = WorkspaceView;

    open spec fn view(&self) -> WorkspaceView {
        WorkspaceView {
            name: self.name@,
            num: self.num as int,
            output: self.output@,
            focused: self.focused,
        }
    }
}

/// The ordered set of all live workspaces, in the window manager's
/// reported order.
pub struct Workspaces {
    pub workspaces: Vec<Workspace>,
}

impl View for Workspaces {
    type V = Seq<WorkspaceView>;

    open spec fn view(&self) -> Seq<WorkspaceView> {
        self.workspaces@.map_values(|w: Workspace| w@)
    }
}

/// The index a workspace occupies for ordering purposes: its reported
/// slot, with a negative (not yet numbered) slot counting as 0.
pub open spec fn effective_num(w: WorkspaceView) -> int {
    if w.num >= 0 { w.num } else { 0 }
}

/// The decoded title of a workspace.
pub open spec fn title_of(w: WorkspaceView) -> Seq<char> {
    spec_title_of(w.name)
}

/// What a query against the set selects on.
pub enum Query {
    /// The workspace holding the focus.
    Focused,
    /// Exact match on the raw identifier.
    Name(Seq<char>),
    /// Exact match on the reported slot number.
    Num(int),
    /// Exact match on the decoded title.
    Title(Seq<char>),
    /// Workspaces living on the given output.
    Output(Seq<char>),
}

pub open spec fn matches_query(w: WorkspaceView, q: Query) -> bool {
    match q {
        Query::Focused => w.focused,
        Query::Name(n) => w.name == n,
        Query::Num(v) => w.num == v,
        Query::Title(t) => title_of(w) == t,
        Query::Output(o) => w.output == o,
    }
}

/// Position of the first workspace at or after `i` matching `q`.
pub open spec fn find_from(s: Seq<WorkspaceView>, q: Query, i: int) -> Option<int>
    decreases s.len() - i when i <= s.len()
{
    if i < 0 || i >= s.len() {
        None
    } else if matches_query(s[i], q) {
        Some(i)
    } else {
        find_from(s, q, i + 1)
    }
}

/// The command that renames the workspace whose raw identifier is
/// `old` to the identifier `new`.
pub open spec fn spec_rename_cmd(old: Seq<char>, new: Seq<char>) -> Seq<char> {
    "rename workspace \""@ + old + "\" to \""@ + new + "\""@
}

/// Builds a rename command.
fn rename_cmd(old: &str, new: &str) -> (r: String)
    ensures
        r@ == spec_rename_cmd(old@, new@),
{
    let mut s = String::from_str("rename workspace \"");
    s.append(old);
    s.append("\" to \"");
    s.append(new);
    s.append("\"");
    s
}

/// The renumbering commands for the workspaces at positions `i` and
/// beyond: a rename to `"<position+1>:<title>"` for each workspace
/// whose effective slot is not already its 1-based position.
pub open spec fn spec_fixup_from(s: Seq<WorkspaceView>, i: int) -> Seq<Seq<char>>
    decreases s.len() - i when i <= s.len()
{
    if i < 0 || i >= s.len() {
        Seq::empty()
    } else {
        let rest = spec_fixup_from(s, i + 1);
        if effective_num(s[i]) != i + 1 {
            seq![spec_rename_cmd(s[i].name, spec_encode(i + 1, title_of(s[i])))] + rest
        } else {
            rest
        }
    }
}

/// The full renumbering command sequence for a set.
pub open spec fn spec_fixup(s: Seq<WorkspaceView>) -> Seq<Seq<char>> {
    spec_fixup_from(s, 0)
}

impl Workspaces {
    /// The workspace currently holding the focus, if any reports it.
    pub fn get_wp_with_focus(&self) -> (r: Option<&Workspace>)
        ensures
            match find_from(self@, Query::Focused, 0) {
                Some(i) => r matches Some(w) && w@ == self@[i],
                None => r is None,
            },
    {
        let n = self.workspaces.len();
        let mut i: usize = 0;
        while i < n
            invariant
                i <= n,
                n == self.workspaces@.len(),
                find_from(self@, Query::Focused, 0) == find_from(self@, Query::Focused, i as int),
            decreases n - i,
        {
            if self.workspaces[i].focused {
                return Some(&self.workspaces[i]);
            }
            i = i + 1;
        }
        None
    }

    /// The first workspace whose raw identifier is exactly `name`.
    pub fn get_wp_with_name(&self, name: &str) -> (r: Option<&Workspace>)
        ensures
            match find_from(self@, Query::Name(name@), 0) {
                Some(i) => r matches Some(w) && w@ == self@[i],
                None => r is None,
            },
    {
        let n = self.workspaces.len();
        let mut i: usize = 0;
        while i < n
            invariant
                i <= n,
                n == self.workspaces@.len(),
                find_from(self@, Query::Name(name@), 0) == find_from(
                    self@, Query::Name(name@), i as int),
            decreases n - i,
        {
            if str_eq(self.workspaces[i].name.as_str(), name) {
                return Some(&self.workspaces[i]);
            }
            i = i + 1;
        }
        None
    }

    /// The first workspace whose reported slot number is `number`.
    pub fn get_wp_with_number(&self, number: usize) -> (r: Option<&Workspace>)
        ensures
            match find_from(self@, Query::Num(number as int), 0) {
                Some(i) => r matches Some(w) && w@ == self@[i],
                None => r is None,
            },
    {
        let n = self.workspaces.len();
        let mut i: usize = 0;
        while i < n
            invariant
                i <= n,
                n == self.workspaces@.len(),
                find_from(self@, Query::Num(number as int), 0) == find_from(
                    self@, Query::Num(number as int), i as int),
            decreases n - i,
        {
            let num = self.workspaces[i].num;
            if num >= 0 && num as usize == number {
                return Some(&self.workspaces[i]);
            }
            i = i + 1;
        }
        None
    }

    /// The first workspace whose decoded title is exactly `title`.
    pub fn get_wp_with_title(&self, title: &str) -> (r: Option<&Workspace>)
        ensures
            match find_from(self@, Query::Title(title@), 0) {
                Some(i) => r matches Some(w) && w@ == self@[i],
                None => r is None,
            },
    {
        let n = self.workspaces.len();
        let mut i: usize = 0;
        while i < n
            invariant
                i <= n,
                n == self.workspaces@.len(),
                find_from(self@, Query::Title(title@), 0) == find_from(
                    self@, Query::Title(title@), i as int),
            decreases n - i,
        {
            let t = title_from_name(self.workspaces[i].name.as_str());
            if str_eq(t.as_str(), title) {
                return Some(&self.workspaces[i]);
            }
            i = i + 1;
        }
        None
    }

    /// The second workspace, in set order, that lives on `output`; this
    /// is what the toggle action switches to.
    pub fn get_second_wp_with_output(&self, output: &str) -> (r: Option<&Workspace>)
        ensures
            match find_from(self@, Query::Output(output@), 0) {
                Some(j) => match find_from(self@, Query::Output(output@), j + 1) {
                    Some(k) => r matches Some(w) && w@ == self@[k],
                    None => r is None,
                },
                None => r is None,
            },
    {
        let ghost q = Query::Output(output@);
        let n = self.workspaces.len();
        let mut i: usize = 0;
        let mut seen = false;
        let ghost mut j: int = 0;
        while i < n
            invariant
                i <= n,
                n == self.workspaces@.len(),
                q == Query::Output(output@),
                !seen ==> find_from(self@, q, 0) == find_from(self@, q, i as int),
                seen ==> 0 <= j < i as int && find_from(self@, q, 0) == Some(j) && find_from(
                    self@, q, j + 1) == find_from(self@, q, i as int),
            decreases n - i,
        {
            let is_match = str_eq(self.workspaces[i].output.as_str(), output);
            proof {
                assert(self@[i as int] == self.workspaces@[i as int]@);
                assert(self@[i as int].output == self.workspaces@[i as int].output@);
                assert(is_match == (self.workspaces@[i as int].output@ == output@));
                assert(is_match == matches_query(self@[i as int], q));
            }
            if is_match {
                proof {
                    assert(matches_query(self@[i as int], q));
                    assert(find_from(self@, q, i as int) == Some(i as int));
                }
                if seen {
                    return Some(&self.workspaces[i]);
                }
                seen = true;
                proof {
                    j = i as int;
                }
            } else {
                proof {
                    assert(!matches_query(self@[i as int], q));
                    assert(find_from(self@, q, i as int) == find_from(self@, q, i + 1));
                }
            }
            i = i + 1;
        }
        None
    }

    /// The commands that renumber all workspaces to the contiguous
    /// sequence 1..=n matching their current order: one rename for each
    /// workspace whose effective slot differs from its 1-based
    /// position, none for the others.
    pub fn fixup_wps(&self) -> (r: Vec<String>)
        ensures
            r.deep_view() == spec_fixup(self@),
    {
        let n = self.workspaces.len();
        let mut cmds: Vec<String> = Vec::new();
        let mut i: usize = 0;
        while i < n
            invariant
                i <= n,
                n == self.workspaces@.len(),
                cmds.deep_view() + spec_fixup_from(self@, i as int) == spec_fixup(self@),
            decreases n - i,
        {
            let wp = &self.workspaces[i];
            let old_num: usize = if wp.num >= 0 {
                wp.num as usize
            } else {
                0
            };
            let new_num: usize = i + 1;
            proof {
                assert(self@[i as int] == self.workspaces@[i as int]@);
                assert(old_num as int == effective_num(self@[i as int]));
            }
            if old_num != new_num {
                let title = title_from_name(wp.name.as_str());
                let ident = encode(new_num as u64, title.as_str());
                let cmd = rename_cmd(wp.name.as_str(), ident.as_str());
                let ghost prev = cmds.deep_view();
                proof {
                    assert(cmd@ == spec_rename_cmd(self@[i as int].name, spec_encode(
                        i + 1, title_of(self@[i as int]))));
                }
                cmds.push(cmd);
                proof {
                    assert(cmds.deep_view() =~= prev.push(cmd@));
                    assert(prev.push(cmd@) + spec_fixup_from(self@, i + 1) =~= prev + (seq![cmd@]
                        + spec_fixup_from(self@, i + 1)));
                }
            }
            i = i + 1;
        }
        proof {
            assert(cmds.deep_view() + spec_fixup_from(self@, n as int) =~= cmds.deep_view());
        }
        cmds
    }

    /// The newline-joined payload handed to the picker: one title per
    /// workspace, sorted ascending by effective slot number, ties kept
    /// in set order.
    pub fn choices_str(&self) -> (r: String)
        ensures
            r@ == spec_choices(self@),
    {
        let n = self.workspaces.len();
        let mut pairs: Vec<(usize, String)> = Vec::new();
        let mut i: usize = 0;
        while i < n
            invariant
                i <= n,
                n == self.workspaces@.len(),
                view_pairs(pairs@) == pairs_of(self@).take(i as int),
            decreases n - i,
        {
            let wp = &self.workspaces[i];
            let key: usize = if wp.num >= 0 {
                wp.num as usize
            } else {
                0
            };
            let title = title_from_name(wp.name.as_str());
            let ghost prev = pairs@;
            let ghost tview = title@;
            pairs.push((key, title));
            proof {
                assert(self@[i as int] == self.workspaces@[i as int]@);
                assert(view_pairs(pairs@) =~= view_pairs(prev).push((key as int, tview)));
                assert(pairs_of(self@).take(i + 1) =~= pairs_of(self@).take(i as int).push(
                    pair_of(self@[i as int])));
            }
            i = i + 1;
        }
        let ghost all = pairs_of(self@);
        proof {
            assert(all.take(n as int) =~= all);
            assert(all.skip(0) =~= all);
        }
        let mut out: Vec<(usize, String)> = Vec::new();
        let ghost mut done: int = 0;
        while pairs.len() > 0
            invariant
                0 <= done <= all.len(),
                all == pairs_of(self@),
                view_pairs(pairs@) == all.skip(done),
                view_pairs(out@) == spec_sort_pairs(all.take(done)),
            decreases pairs@.len(),
        {
            let ghost pold = pairs@;
            let x = pairs.remove(0);
            let ghost xv = (x.0 as int, x.1@);
            proof {
                assert(view_pairs(pold).len() == pold.len());
                assert(all.skip(done).len() == all.len() - done);
                assert(done < all.len());
                assert(xv == view_pairs(pold)[0]);
                assert(view_pairs(pold)[0] == all.skip(done)[0]);
                assert(all.skip(done)[0] == all[done]);
                assert(forall|k: int| 0 <= k < pairs@.len() ==> pairs@[k] == pold[k + 1]);
                assert forall|k: int| 0 <= k < pairs@.len() implies view_pairs(pairs@)[k]
                    == all.skip(done + 1)[k] by {
                    assert(view_pairs(pairs@)[k] == ((pairs@[k].0 as int, pairs@[k].1@)));
                    assert(view_pairs(pold)[k + 1] == ((pold[k + 1].0 as int, pold[k + 1].1@)));
                    assert(view_pairs(pold)[k + 1] == all.skip(done)[k + 1]);
                    assert(all.skip(done)[k + 1] == all[done + k + 1]);
                    assert(all.skip(done + 1)[k] == all[done + 1 + k]);
                }
                assert(view_pairs(pairs@).len() == all.skip(done + 1).len());
                assert(view_pairs(pairs@) =~= all.skip(done + 1));
            }
            let mut pos = out.len();
            while pos > 0 && out[pos - 1].0 > x.0
                invariant
                    pos <= out@.len(),
                    forall|k: int| pos <= k < out@.len() ==> (#[trigger] out@[k]).0 > x.0,
                decreases pos,
            {
                pos = pos - 1;
            }
            let ghost sorted = view_pairs(out@);
            proof {
                assert(forall|k: int| pos <= k < sorted.len() ==> (#[trigger] sorted[k]).0
                    > xv.0);
                assert(pos > 0 ==> sorted[pos - 1].0 <= xv.0);
                lemma_insert_pair_at(sorted, xv, pos as int);
            }
            out.insert(pos, x);
            proof {
                assert(view_pairs(out@) =~= sorted.subrange(0, pos as int) + seq![xv]
                    + sorted.subrange(pos as int, sorted.len() as int));
                assert(all.take(done + 1).drop_last() =~= all.take(done));
                assert(all.take(done + 1).last() == all[done]);
                done = done + 1;
            }
        }
        proof {
            assert(all.skip(done).len() == 0);
            assert(done == all.len());
            assert(all.take(done) =~= all);
        }
        let m = out.len();
        let mut titles: Vec<String> = Vec::new();
        let mut k: usize = 0;
        while k < m
            invariant
                k <= m,
                m == out@.len(),
                view_pairs(out@) == spec_sort_pairs(pairs_of(self@)),
                titles.deep_view() == titles_of_pairs(view_pairs(out@)).take(k as int),
            decreases m - k,
        {
            let t = out[k].1.clone();
            let ghost prevt = titles.deep_view();
            titles.push(t);
            proof {
                let ts = titles_of_pairs(view_pairs(out@));
                assert(titles.deep_view() =~= prevt.push(out@[k as int].1@));
                assert(ts.take(k + 1) =~= ts.take(k as int).push(ts[k as int]));
            }
            k = k + 1;
        }
        proof {
            let ts = titles_of_pairs(view_pairs(out@));
            assert(ts.take(m as int) =~= ts);
        }
        crate::strutil::join_strings(&titles, "\n")
    }

    /// The slot number for a freshly created workspace: one more than
    /// the count of live workspaces, regardless of the values or gaps
    /// among the existing slot numbers.
    pub fn next_unused_number(&self) -> (r: usize)
        requires
            self.workspaces@.len() < usize::MAX,
        ensures
            r as int == self@.len() + 1,
    {
        self.workspaces.len() + 1
    }
}

/// Sort key and title of one workspace, as the picker list needs them.
pub open spec fn pair_of(w: WorkspaceView) -> (int, Seq<char>) {
    (effective_num(w), title_of(w))
}

/// Key/title pairs of a whole set, in set order.
pub open spec fn pairs_of(s: Seq<WorkspaceView>) -> Seq<(int, Seq<char>)> {
    s.map_values(|w: WorkspaceView| pair_of(w))
}

/// Model of the key/title pairs an executable pair list holds.
pub open spec fn view_pairs(ps: Seq<(usize, String)>) -> Seq<(int, Seq<char>)> {
    ps.map_values(|p: (usize, String)| (p.0 as int, p.1@))
}

/// Inserts a pair into a key-sorted sequence, after every pair with an
/// equal or smaller key, so that insertion is stable.
pub open spec fn spec_insert_pair(s: Seq<(int, Seq<char>)>, x: (int, Seq<char>)) -> Seq<
    (int, Seq<char>)>
    decreases s.len()
{
    if s.len() == 0 {
        seq![x]
    } else if s.last().0 > x.0 {
        spec_insert_pair(s.drop_last(), x).push(s.last())
    } else {
        s.push(x)
    }
}

/// Stable sort of key/title pairs by ascending key.
pub open spec fn spec_sort_pairs(s: Seq<(int, Seq<char>)>) -> Seq<(int, Seq<char>)>
    decreases s.len()
{
    if s.len() == 0 {
        Seq::empty()
    } else {
        spec_insert_pair(spec_sort_pairs(s.drop_last()), s.last())
    }
}

/// The titles of a pair sequence, in order.
pub open spec fn titles_of_pairs(ps: Seq<(int, Seq<char>)>) -> Seq<Seq<char>> {
    ps.map_values(|p: (int, Seq<char>)| p.1)
}

/// The picker's choice list: every title, sorted ascending by
/// effective slot number, joined with newlines.
pub open spec fn spec_choices(s: Seq<WorkspaceView>) -> Seq<char> {
    crate::strutil::spec_join(titles_of_pairs(spec_sort_pairs(pairs_of(s))), "\n"@)
}

/// Where stable insertion puts a pair: right before the run of
/// strictly greater keys at the tail.
proof fn lemma_insert_pair_at(s: Seq<(int, Seq<char>)>, x: (int, Seq<char>), p: int)
    requires
        0 <= p <= s.len(),
        forall|k: int| p <= k < s.len() ==> s[k].0 > x.0,
        p > 0 ==> s[p - 1].0 <= x.0,
    ensures
        spec_insert_pair(s, x) == s.subrange(0, p) + seq![x] + s.subrange(p, s.len() as int),
    decreases s.len(),
{
    if s.len() == 0 {
        assert(spec_insert_pair(s, x) =~= s.subrange(0, p) + seq![x] + s.subrange(
            p, s.len() as int));
    } else if s.last().0 > x.0 {
        assert(p < s.len());
        let d = s.drop_last();
        lemma_insert_pair_at(d, x, p);
        assert(d.subrange(0, p) =~= s.subrange(0, p));
        assert(d.subrange(p, d.len() as int) =~= s.subrange(p, s.len() - 1));
        assert((s.subrange(0, p) + seq![x] + s.subrange(p, s.len() - 1)).push(s.last())
            =~= s.subrange(0, p) + seq![x] + s.subrange(p, s.len() as int));
    } else {
        assert(p == s.len());
        assert(s.push(x) =~= s.subrange(0, p) + seq![x] + s.subrange(p, s.len() as int));
    }
}

/// Keys ascend throughout the pair sequence.
pub open spec fn keys_sorted(ps: Seq<(int, Seq<char>)>) -> bool {
    forall|a: int, b: int| 0 <= a < b < ps.len() ==> (#[trigger] ps[a]).0 <= (#[trigger] ps[b]).0
}

proof fn lemma_insert_pair_ensures(s: Seq<(int, Seq<char>)>, x: (int, Seq<char>))
    requires
        keys_sorted(s),
    ensures
        keys_sorted(spec_insert_pair(s, x)),
        spec_insert_pair(s, x).to_multiset() == s.to_multiset().insert(x),
    decreases s.len(),
{
    broadcast use vstd::seq_lib::group_to_multiset_ensures;

    let r = spec_insert_pair(s, x);
    if s.len() == 0 {
        assert(r =~= Seq::<(int, Seq<char>)>::empty().push(x));
        assert(s =~= Seq::<(int, Seq<char>)>::empty());
    } else if s.last().0 > x.0 {
        let d = s.drop_last();
        assert(keys_sorted(d));
        lemma_insert_pair_ensures(d, x);
        let t = spec_insert_pair(d, x);
        assert(s =~= d.push(s.last()));
        assert(s.to_multiset() == d.to_multiset().insert(s.last()));
        assert(d.to_multiset().insert(x).insert(s.last()) =~= d.to_multiset().insert(
            s.last()).insert(x));
        assert(r.to_multiset() == s.to_multiset().insert(x));
        assert forall|k: int| 0 <= k < t.len() implies (#[trigger] t[k]).0 <= s.last().0 by {
            assert(t.contains(t[k]));
            assert(t.to_multiset().count(t[k]) > 0);
            if t[k] != x {
                assert(d.to_multiset().count(t[k]) > 0);
                assert(d.contains(t[k]));
                let j = choose|j: int| 0 <= j < d.len() && d[j] == t[k];
                assert(s[j] == d[j]);
                assert(s[j].0 <= s.last().0);
            }
        }
        assert(keys_sorted(r));
    } else {
        assert(r == s.push(x));
        assert forall|a: int, b: int| 0 <= a < b < r.len() implies (#[trigger] r[a]).0 <= (
        #[trigger] r[b]).0 by {
            if b == s.len() as int {
                assert(r[b] == x);
                assert(s[a].0 <= s.last().0);
            }
        }
    }
}

/// What sorting the choice list means: the key/title pairs come out
/// with ascending keys and are, as a multiset, exactly the pairs that
/// went in — every workspace appears once, none is invented.
pub proof fn lemma_sort_pairs(ps: Seq<(int, Seq<char>)>)
    ensures
        keys_sorted(spec_sort_pairs(ps)),
        spec_sort_pairs(ps).to_multiset() == ps.to_multiset(),
    decreases ps.len(),
{
    broadcast use vstd::seq_lib::group_to_multiset_ensures;

    if ps.len() > 0 {
        let d = ps.drop_last();
        lemma_sort_pairs(d);
        lemma_insert_pair_ensures(spec_sort_pairs(d), ps.last());
        assert(ps =~= d.push(ps.last()));
        assert(ps.to_multiset() == d.to_multiset().insert(ps.last()));
    }
}

impl Workspace {
    /// The decoded title of this workspace.
    pub fn title(&self) -> (r: String)
        ensures
            r@ == title_of(self@),
    {
        title_from_name(self.name.as_str())
    }

    /// The command that promotes this workspace to the most recently
    /// used slot by renaming it to `"0:<title>"`: index 0 sorts before
    /// every live slot, so the window manager itself puts it first.
    pub fn promote(&self) -> (r: String)
        ensures
            r@ == spec_rename_cmd(self@.name, spec_encode(0, title_of(self@))),
    {
        let t = self.title();
        let ident = encode(0, t.as_str());
        rename_cmd(self.name.as_str(), ident.as_str())
    }
}

/// Model of the window manager's state after the renumbering commands
/// ran and the set was fetched again: each renamed workspace carries
/// its new identifier and slot, the untouched ones are as they were,
/// and the order is unchanged, since the new slots ascend.
pub open spec fn apply_fixup(s: Seq<WorkspaceView>) -> Seq<WorkspaceView> {
    Seq::new(s.len(), |i: int| if effective_num(s[i]) != i + 1 {
        WorkspaceView {
            name: spec_encode(i + 1, title_of(s[i])),
            num: i + 1,
            output: s[i].output,
            focused: s[i].focused,
        }
    } else {
        s[i]
    })
}

proof fn lemma_fixup_from_aligned(s: Seq<WorkspaceView>, i: int)
    requires
        0 <= i <= s.len(),
        forall|j: int| i <= j < s.len() ==> effective_num(#[trigger] s[j]) == j + 1,
    ensures
        spec_fixup_from(s, i) == Seq::<Seq<char>>::empty(),
    decreases s.len() - i,
{
    if i < s.len() {
        lemma_fixup_from_aligned(s, i + 1);
    }
}

/// Renumbering is idempotent: on a set that renumbering has just been
/// applied to, it produces no commands at all.
pub proof fn lemma_fixup_idempotent(s: Seq<WorkspaceView>)
    ensures
        spec_fixup(apply_fixup(s)) == Seq::<Seq<char>>::empty(),
{
    let t = apply_fixup(s);
    assert(forall|j: int| 0 <= j < t.len() ==> effective_num(#[trigger] t[j]) == j + 1);
    lemma_fixup_from_aligned(t, 0);
}

/// The titles of a set, in set order.
pub open spec fn titles_of(s: Seq<WorkspaceView>) -> Seq<Seq<char>> {
    s.map_values(|w: WorkspaceView| title_of(w))
}

/// Renumbering preserves the relative order of the workspaces and all
/// their titles, outputs and focus flags: only the indices change.
/// A workspace whose decoded title is empty is the one exception the
/// requirement rules out: its rename would fall back to showing the
/// new index's digits as its title.
pub proof fn lemma_fixup_preserves_order(s: Seq<WorkspaceView>)
    requires
        forall|i: int| 0 <= i < s.len() ==> title_of(#[trigger] s[i]).len() > 0,
    ensures
        apply_fixup(s).len() == s.len(),
        titles_of(apply_fixup(s)) == titles_of(s),
        forall|i: int| 0 <= i < s.len() ==> (#[trigger] apply_fixup(s)[i]).output == s[i].output
            && apply_fixup(s)[i].focused == s[i].focused,
{
    let t = apply_fixup(s);
    assert forall|i: int| 0 <= i < s.len() implies title_of(#[trigger] t[i]) == title_of(s[i]) by {
        if effective_num(s[i]) != i + 1 {
            crate::codec::lemma_title_no_leading_space(s[i].name);
            crate::codec::lemma_encode_title(i + 1, title_of(s[i]));
        }
    }
    assert(titles_of(t) =~= titles_of(s));
}

/// After renumbering, the workspace that stood at position `i` holds
/// the effective slot `i + 1`; in particular it holds slot 1 exactly
/// when it stood first in set order.
pub proof fn lemma_fixup_assigns_position(s: Seq<WorkspaceView>, i: int)
    requires
        0 <= i < s.len(),
    ensures
        effective_num(apply_fixup(s)[i]) == i + 1,
        (effective_num(apply_fixup(s)[i]) == 1) <==> (i == 0),
{
}

/// The identifier a promotion writes always decodes to index 0,
/// whatever the title.
pub proof fn lemma_promote_index(w: WorkspaceView)
    ensures
        crate::codec::spec_index_of(spec_encode(0, title_of(w))) == Some(0int),
{
    crate::codec::lemma_encode_index(0, title_of(w));
}

} // verus!
