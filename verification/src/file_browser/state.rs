//! Tree state of the file browser: the flattened entry list and the sorted
//! set of expanded directory ids, searched by bisection.

use vstd::prelude::*;

use crate::path::{count_components, path_depth};

verus! {

/// Identifier of a project entry (a file or a directory).
pub type ProjectEntryId = u64;

/// One visible row of the file tree.
#[derive(Clone, Debug)]
pub struct Entry {
    pub id: ProjectEntryId,
    /// Path relative to the workspace root, `/`-separated.
    pub path: String,
    pub is_dir: bool,
    pub depth: usize,
}

/// Handle on the worktree that a flattened tree is built from.
pub struct WorktreeRef;

/// `s` is in non-decreasing order.
pub open spec fn is_sorted(s: Seq<u64>) -> bool {
    forall|i: int, j: int| 0 <= i <= j < s.len() ==> s[i] <= s[j]
}

/// `s` is in strictly increasing order (sorted, no id twice).
pub open spec fn is_strictly_sorted(s: Seq<u64>) -> bool {
    forall|i: int, j: int| 0 <= i < j < s.len() ==> s[i] < s[j]
}

/// `x` placed in front of the first element of `s` that is not below it.
pub open spec fn insert_sorted(s: Seq<u64>, x: u64) -> Seq<u64>
    decreases s.len(),
{
    if s.len() == 0 || x <= s[0] {
        seq![x] + s
    } else {
        seq![s[0]] + insert_sorted(s.drop_first(), x)
    }
}

/// The expanded-id list after expanding `x`: unchanged when `x` is already
/// there, else `x` inserted at its sorted place.
pub open spec fn expanded_with(s: Seq<u64>, x: u64) -> Seq<u64> {
    if s.contains(x) {
        s
    } else {
        insert_sorted(s, x)
    }
}

/// The expanded-id list after collapsing `x`: one occurrence of `x` removed,
/// unchanged when `x` is absent.
pub open spec fn collapsed_without(s: Seq<u64>, x: u64) -> Seq<u64> {
    s.remove_value(x)
}

/// Bisection over a sorted list: `Ok(i)` with `s[i] == x`, or `Err(i)` with
/// every element before `i` below `x` and every element from `i` on above it.
fn bisect(s: &[u64], x: u64) -> (r: Result<usize, usize>)
    requires
        is_sorted(s@),
    ensures
        match r {
            Ok(i) => i < s@.len() && s@[i as int] == x,
            Err(i) => i <= s@.len() && (forall|k: int| 0 <= k < i ==> s@[k] < x) && (forall|k: int|
                i <= k < s@.len() ==> s@[k] > x),
        },
{
    let mut lo: usize = 0;
    let mut hi: usize = s.len();
    while lo < hi
        invariant
            lo <= hi <= s@.len(),
            is_sorted(s@),
            forall|k: int| 0 <= k < lo ==> s@[k] < x,
            forall|k: int| hi <= k < s@.len() ==> s@[k] > x,
        decreases hi - lo,
    {
        let mid = lo + (hi - lo) / 2;
        let v = s[mid];
        if v == x {
            return Ok(mid);
        } else if v < x {
            lo = mid + 1;
        } else {
            hi = mid;
        }
    }
    Err(lo)
}

proof fn lemma_insert_at_gap(s: Seq<u64>, x: u64, ix: int)
    requires
        0 <= ix <= s.len(),
        forall|k: int| 0 <= k < ix ==> s[k] < x,
        forall|k: int| ix <= k < s.len() ==> s[k] > x,
    ensures
        s.insert(ix, x) == insert_sorted(s, x),
    decreases s.len(),
{
    if s.len() == 0 || x <= s[0] {
        assert(ix == 0);
        assert(s.insert(ix, x) =~= seq![x] + s);
    } else {
        let t = s.drop_first();
        lemma_insert_at_gap(t, x, ix - 1);
        assert(s.insert(ix, x) =~= seq![s[0]] + t.insert(ix - 1, x));
    }
}

proof fn lemma_remove_value_at(s: Seq<u64>, x: u64, ix: int)
    requires
        is_sorted(s),
        0 <= ix < s.len(),
        s[ix] == x,
    ensures
        s.remove_value(x) == s.remove(ix),
{
    s.index_of_first_ensures(x);
    let f = s.index_of_first(x)->0;
    assert(0 <= f <= ix);
    assert(forall|k: int| f <= k <= ix ==> s[k] == x);
    assert(s.remove(f) =~= s.remove(ix));
}


proof fn lemma_insert_sorted_contents(s: Seq<u64>, x: u64)
    ensures
        insert_sorted(s, x).len() == s.len() + 1,
        forall|y: u64| #[trigger] insert_sorted(s, x).contains(y) <==> (y == x || s.contains(y)),
        is_sorted(s) ==> is_sorted(insert_sorted(s, x)),
        is_strictly_sorted(s) && !s.contains(x) ==> is_strictly_sorted(insert_sorted(s, x)),
    decreases s.len(),
{
    let r = insert_sorted(s, x);
    if s.len() == 0 || x <= s[0] {
        assert(r =~= seq![x] + s);
        assert forall|y: u64| r.contains(y) <==> (y == x || s.contains(y)) by {
            if y == x {
                assert(r[0] == x);
            }
            if s.contains(y) {
                let k = choose|k: int| 0 <= k < s.len() && s[k] == y;
                assert(r[k + 1] == y);
            }
            if r.contains(y) {
                let k = choose|k: int| 0 <= k < r.len() && r[k] == y;
                if k > 0 {
                    assert(s[k - 1] == y);
                }
            }
        }
        if is_strictly_sorted(s) && !s.contains(x) && s.len() > 0 {
            assert(x != s[0]);
        }
    } else {
        let t = s.drop_first();
        lemma_insert_sorted_contents(t, x);
        let rt = insert_sorted(t, x);
        assert(r =~= seq![s[0]] + rt);
        assert forall|y: u64| r.contains(y) <==> (y == x || s.contains(y)) by {
            assert(insert_sorted(t, x).contains(y) <==> (y == x || t.contains(y)));
            if y == x {
                assert(rt.contains(y));
                let k = choose|k: int| 0 <= k < rt.len() && rt[k] == y;
                assert(r[k + 1] == y);
            }
            if s.contains(y) {
                let k = choose|k: int| 0 <= k < s.len() && s[k] == y;
                if k == 0 {
                    assert(r[0] == y);
                } else {
                    assert(t[k - 1] == y);
                    assert(rt.contains(y));
                    let j = choose|j: int| 0 <= j < rt.len() && rt[j] == y;
                    assert(r[j + 1] == y);
                }
            }
            if r.contains(y) {
                let k = choose|k: int| 0 <= k < r.len() && r[k] == y;
                if k == 0 {
                    assert(s[0] == y);
                } else {
                    assert(rt[k - 1] == y);
                    assert(rt.contains(y));
                    if y != x {
                        assert(t.contains(y));
                        let j = choose|j: int| 0 <= j < t.len() && t[j] == y;
                        assert(s[j + 1] == y);
                    }
                }
            }
        }
        if is_sorted(s) {
            assert(is_sorted(t));
            assert forall|j: int| 0 <= j < rt.len() implies s[0] <= #[trigger] rt[j] by {
                assert(rt.contains(rt[j]));
                if rt[j] != x {
                    assert(t.contains(rt[j]));
                }
            }
        }
        if is_strictly_sorted(s) && !s.contains(x) {
            assert(is_strictly_sorted(t));
            assert(!t.contains(x)) by {
                if t.contains(x) {
                    let j = choose|j: int| 0 <= j < t.len() && t[j] == x;
                    assert(s[j + 1] == x);
                }
            }
            assert forall|j: int| 0 <= j < rt.len() implies s[0] < #[trigger] rt[j] by {
                assert(rt.contains(rt[j]));
                if rt[j] != x {
                    assert(t.contains(rt[j]));
                }
            }
        }
    }
}

proof fn lemma_remove_contents(s: Seq<u64>, i: int)
    requires
        0 <= i < s.len(),
    ensures
        forall|y: u64| y != s[i] ==> (s.remove(i).contains(y) <==> s.contains(y)),
        is_sorted(s) ==> is_sorted(s.remove(i)),
        is_strictly_sorted(s) ==> is_strictly_sorted(s.remove(i)) && !s.remove(i).contains(s[i]),
{
    let r = s.remove(i);
    assert forall|y: u64| y != s[i] implies (r.contains(y) <==> s.contains(y)) by {
        if r.contains(y) {
            let k = choose|k: int| 0 <= k < r.len() && r[k] == y;
            if k < i {
                assert(s[k] == y);
            } else {
                assert(s[k + 1] == y);
            }
        }
        if s.contains(y) {
            let k = choose|k: int| 0 <= k < s.len() && s[k] == y;
            if k < i {
                assert(r[k] == y);
            } else {
                assert(k != i);
                assert(r[k - 1] == y);
            }
        }
    }
    if is_sorted(s) {
        assert forall|a: int, b: int| 0 <= a <= b < r.len() implies r[a] <= r[b] by {
            let sa = if a < i { a } else { a + 1 };
            let sb = if b < i { b } else { b + 1 };
            assert(r[a] == s[sa] && r[b] == s[sb]);
        }
    }
    if is_strictly_sorted(s) {
        assert forall|a: int, b: int| 0 <= a < b < r.len() implies r[a] < r[b] by {
            let sa = if a < i { a } else { a + 1 };
            let sb = if b < i { b } else { b + 1 };
            assert(r[a] == s[sa] && r[b] == s[sb]);
        }
        if r.contains(s[i]) {
            let k = choose|k: int| 0 <= k < r.len() && r[k] == s[i];
            if k < i {
                assert(s[k] == s[i]);
            } else {
                assert(s[k + 1] == s[i]);
            }
        }
    }
}

/// Expanding keeps the id list sorted (strictly so when it was strictly
/// sorted), makes `x` expanded, and leaves every other id as it was.
pub proof fn law_expand_keeps_order_and_adds(s: Seq<u64>, x: u64)
    requires
        is_sorted(s),
    ensures
        is_sorted(expanded_with(s, x)),
        is_strictly_sorted(s) ==> is_strictly_sorted(expanded_with(s, x)),
        expanded_with(s, x).contains(x),
        forall|y: u64| y != x ==> (expanded_with(s, x).contains(y) <==> s.contains(y)),
{
    lemma_insert_sorted_contents(s, x);
}

/// Expanding an already expanded directory changes nothing.
pub proof fn law_expand_idempotent(s: Seq<u64>, x: u64)
    requires
        is_sorted(s),
    ensures
        expanded_with(expanded_with(s, x), x) == expanded_with(s, x),
{
    lemma_insert_sorted_contents(s, x);
}

/// Collapsing keeps the id list sorted and leaves every other id as it was;
/// on a strictly sorted list it makes `x` not expanded. Collapsing an id that
/// is not expanded changes nothing.
pub proof fn law_collapse_keeps_order_and_removes(s: Seq<u64>, x: u64)
    requires
        is_sorted(s),
    ensures
        is_sorted(collapsed_without(s, x)),
        is_strictly_sorted(s) ==> is_strictly_sorted(collapsed_without(s, x)),
        is_strictly_sorted(s) ==> !collapsed_without(s, x).contains(x),
        forall|y: u64| y != x ==> (collapsed_without(s, x).contains(y) <==> s.contains(y)),
        !s.contains(x) ==> collapsed_without(s, x) == s,
{
    s.index_of_first_ensures(x);
    if s.contains(x) {
        let i = s.index_of_first(x)->0;
        lemma_remove_contents(s, i);
    }
}

/// Expanding a directory that was not expanded and then collapsing it gives
/// back the original id list.
pub proof fn law_expand_then_collapse_restores(s: Seq<u64>, x: u64)
    requires
        is_sorted(s),
        !s.contains(x),
    ensures
        collapsed_without(expanded_with(s, x), x) == s,
    decreases s.len(),
{
    lemma_insert_sorted_contents(s, x);
    let r = insert_sorted(s, x);
    r.index_of_first_ensures(x);
    let i = r.index_of_first(x)->0;
    lemma_insert_position(s, x);
    let p = choose|p: int| 0 <= p <= s.len() && r == s.insert(p, x);
    assert(r[p] == x);
    assert(i == p) by {
        if i < p {
            assert(r[i] == s[i]);
        }
    }
    assert(r.remove(i) =~= s);
}

proof fn lemma_insert_position(s: Seq<u64>, x: u64)
    ensures
        exists|p: int| 0 <= p <= s.len() && insert_sorted(s, x) == s.insert(p, x),
    decreases s.len(),
{
    if s.len() == 0 || x <= s[0] {
        assert(insert_sorted(s, x) =~= s.insert(0, x));
    } else {
        let t = s.drop_first();
        lemma_insert_position(t, x);
        let q = choose|q: int| 0 <= q <= t.len() && insert_sorted(t, x) == t.insert(q, x);
        assert(insert_sorted(s, x) =~= s.insert(q + 1, x));
    }
}

/// Collapsing an expanded directory and expanding it again gives back the
/// original id list, when no id appears twice.
pub proof fn law_collapse_then_expand_restores(s: Seq<u64>, x: u64)
    requires
        is_strictly_sorted(s),
        s.contains(x),
    ensures
        expanded_with(collapsed_without(s, x), x) == s,
{
    s.index_of_first_ensures(x);
    let i = s.index_of_first(x)->0;
    lemma_remove_contents(s, i);
    let r = s.remove(i);
    assert forall|k: int| 0 <= k < i implies r[k] < x by {
        assert(r[k] == s[k]);
    }
    assert forall|k: int| i <= k < r.len() implies r[k] > x by {
        assert(r[k] == s[k + 1]);
    }
    lemma_insert_at_gap(r, x, i);
    assert(r.insert(i, x) =~= s);
}

/// The expanded-id list after expanding each id of `xs`, first to last.
pub open spec fn expanded_with_all(s: Seq<u64>, xs: Seq<u64>) -> Seq<u64>
    decreases xs.len(),
{
    if xs.len() == 0 {
        s
    } else {
        expanded_with_all(expanded_with(s, xs[0]), xs.drop_first())
    }
}

/// The expanded-id list after collapsing each id of `ys`, first to last.
pub open spec fn collapsed_without_all(s: Seq<u64>, ys: Seq<u64>) -> Seq<u64>
    decreases ys.len(),
{
    if ys.len() == 0 {
        s
    } else {
        collapsed_without_all(collapsed_without(s, ys[0]), ys.drop_first())
    }
}

proof fn lemma_expanded_with_all(s: Seq<u64>, xs: Seq<u64>)
    requires
        is_strictly_sorted(s),
    ensures
        is_strictly_sorted(expanded_with_all(s, xs)),
        forall|y: u64| #[trigger] expanded_with_all(s, xs).contains(y) <==> (s.contains(y) || xs.contains(y)),
    decreases xs.len(),
{
    if xs.len() > 0 {
        let x = xs[0];
        let t = expanded_with(s, x);
        law_expand_keeps_order_and_adds(s, x);
        lemma_insert_sorted_contents(s, x);
        assert(is_strictly_sorted(t));
        lemma_expanded_with_all(t, xs.drop_first());
        assert forall|y: u64| xs.contains(y) <==> (y == x || xs.drop_first().contains(y)) by {
            if xs.contains(y) {
                let k = choose|k: int| 0 <= k < xs.len() && xs[k] == y;
                if k > 0 {
                    assert(xs.drop_first()[k - 1] == y);
                }
            }
            if xs.drop_first().contains(y) {
                let k = choose|k: int| 0 <= k < xs.drop_first().len() && xs.drop_first()[k] == y;
                assert(xs[k + 1] == y);
            }
        }
        assert forall|y: u64| t.contains(y) <==> (y == x || s.contains(y)) by {
            if y == x {
                assert(t.contains(x));
            }
        }
    }
}

proof fn lemma_collapsed_without_all(s: Seq<u64>, ys: Seq<u64>)
    requires
        is_strictly_sorted(s),
    ensures
        is_strictly_sorted(collapsed_without_all(s, ys)),
        forall|y: u64| #[trigger] collapsed_without_all(s, ys).contains(y) <==> (s.contains(y) && !ys.contains(y)),
    decreases ys.len(),
{
    if ys.len() > 0 {
        let x = ys[0];
        let t = collapsed_without(s, x);
        law_collapse_keeps_order_and_removes(s, x);
        lemma_collapsed_without_all(t, ys.drop_first());
        assert forall|y: u64| ys.contains(y) <==> (y == x || ys.drop_first().contains(y)) by {
            if ys.contains(y) {
                let k = choose|k: int| 0 <= k < ys.len() && ys[k] == y;
                if k > 0 {
                    assert(ys.drop_first()[k - 1] == y);
                }
            }
            if ys.drop_first().contains(y) {
                let k = choose|k: int| 0 <= k < ys.drop_first().len() && ys.drop_first()[k] == y;
                assert(ys[k + 1] == y);
            }
            if y == x {
                assert(ys[0] == y);
            }
        }
    }
}

/// Two strictly sorted lists holding the same ids are the same list.
proof fn lemma_strictly_sorted_unique(a: Seq<u64>, b: Seq<u64>)
    requires
        is_strictly_sorted(a),
        is_strictly_sorted(b),
        forall|y: u64| a.contains(y) <==> b.contains(y),
    ensures
        a == b,
    decreases a.len(),
{
    if a.len() == 0 {
        if b.len() > 0 {
            assert(b.contains(b[0]));
        }
        assert(a =~= b);
    } else {
        assert(a.contains(a[0]));
        assert(b.len() > 0);
        assert(b.contains(b[0]));
        let i = choose|i: int| 0 <= i < b.len() && b[i] == a[0];
        let j = choose|j: int| 0 <= j < a.len() && a[j] == b[0];
        assert(a[0] == b[0]) by {
            if i > 0 {
                assert(b[0] < b[i]);
            }
            if j > 0 {
                assert(a[0] < a[j]);
            }
        }
        let ta = a.drop_first();
        let tb = b.drop_first();
        assert forall|y: u64| ta.contains(y) <==> tb.contains(y) by {
            if ta.contains(y) {
                let k = choose|k: int| 0 <= k < ta.len() && ta[k] == y;
                assert(a[k + 1] == y);
                assert(a[0] < a[k + 1]);
                assert(b.contains(y));
                let m = choose|m: int| 0 <= m < b.len() && b[m] == y;
                assert(m != 0);
                assert(tb[m - 1] == y);
            }
            if tb.contains(y) {
                let k = choose|k: int| 0 <= k < tb.len() && tb[k] == y;
                assert(b[k + 1] == y);
                assert(b[0] < b[k + 1]);
                assert(a.contains(y));
                let m = choose|m: int| 0 <= m < a.len() && a[m] == y;
                assert(m != 0);
                assert(ta[m - 1] == y);
            }
        }
        lemma_strictly_sorted_unique(ta, tb);
        assert(a =~= seq![a[0]] + ta);
        assert(b =~= seq![b[0]] + tb);
    }
}

/// Expanding several directories that were not expanded and then
/// collapsing the same directories, in any order (repeats allowed), gives
/// back the original id list, when no id appears twice in it.
pub proof fn law_expand_all_then_collapse_all_restores(s: Seq<u64>, xs: Seq<u64>, ys: Seq<u64>)
    requires
        is_strictly_sorted(s),
        forall|x: u64| xs.contains(x) ==> !s.contains(x),
        forall|y: u64| ys.contains(y) <==> xs.contains(y),
    ensures
        collapsed_without_all(expanded_with_all(s, xs), ys) == s,
{
    let t = expanded_with_all(s, xs);
    lemma_expanded_with_all(s, xs);
    lemma_collapsed_without_all(t, ys);
    let r = collapsed_without_all(t, ys);
    assert forall|y: u64| r.contains(y) <==> s.contains(y) by {
        assert(t.contains(y) <==> (s.contains(y) || xs.contains(y)));
    }
    lemma_strictly_sorted_unique(r, s);
}

/// Builds the list of visible entries of a worktree in depth-first order.
///
/// Worktree traversal is not wired in yet: the list is empty for every
/// worktree and expansion state.
pub fn build_flattened_tree(_worktree: &WorktreeRef, _expanded_dir_ids: &[ProjectEntryId]) -> (r:
    Vec<Entry>)
    ensures
        r@.len() == 0,
{
    Vec::new()
}

/// Whether `entry_id` is among the sorted expanded directory ids.
pub fn is_expanded(entry_id: u64, expanded_dir_ids: &[u64]) -> (r: bool)
    requires
        is_sorted(expanded_dir_ids@),
    ensures
        r == expanded_dir_ids@.contains(entry_id),
{
    match bisect(expanded_dir_ids, entry_id) {
        Ok(_) => true,
        Err(_) => false,
    }
}

/// Inserts `entry_id` at its sorted place; does nothing if it is present.
pub fn expand_dir(entry_id: u64, expanded_dir_ids: &mut Vec<u64>)
    requires
        is_sorted(old(expanded_dir_ids)@),
    ensures
        final(expanded_dir_ids)@ == expanded_with(old(expanded_dir_ids)@, entry_id),
{
    let ghost s = expanded_dir_ids@;
    match bisect(expanded_dir_ids.as_slice(), entry_id) {
        Ok(_) => {},
        Err(ix) => {
            proof {
                lemma_insert_at_gap(s, entry_id, ix as int);
                assert(!s.contains(entry_id));
            }
            expanded_dir_ids.insert(ix, entry_id);
        },
    }
}

/// Removes `entry_id` from the sorted list; does nothing if it is absent.
pub fn collapse_dir(entry_id: u64, expanded_dir_ids: &mut Vec<u64>)
    requires
        is_sorted(old(expanded_dir_ids)@),
    ensures
        final(expanded_dir_ids)@ == collapsed_without(old(expanded_dir_ids)@, entry_id),
{
    let ghost s = expanded_dir_ids@;
    match bisect(expanded_dir_ids.as_slice(), entry_id) {
        Ok(ix) => {
            proof {
                lemma_remove_value_at(s, entry_id, ix as int);
            }
            expanded_dir_ids.remove(ix);
        },
        Err(_) => {
            proof {
                s.index_of_first_ensures(entry_id);
            }
        },
    }
}

/// Depth of an entry below the workspace root: its number of path
/// components less one, and 0 for a path without components.
pub fn calculate_depth(path: &str) -> (r: usize)
    ensures
        r == path_depth(path@),
{
    let n = count_components(path);
    if n == 0 {
        0
    } else {
        n - 1
    }
}

} // verus!
