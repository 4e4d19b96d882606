//! `/`-separated paths, read component by component as Unix paths are:
//! a leading `/` is the root, a leading `.` segment is the current
//! directory, empty segments and inner `.` segments are skipped, and every
//! other segment (`..` included) is one component.

use vstd::prelude::*;

verus! {

/// A segment (a maximal run of characters other than `/`) starts at `i`.
pub open spec fn starts_segment(s: Seq<char>, i: int) -> bool {
    0 <= i < s.len() && s[i] != '/' && (i == 0 || s[i - 1] == '/')
}

/// The segment starting at `i` is exactly `.`.
pub open spec fn is_dot_segment(s: Seq<char>, i: int) -> bool {
    s[i] == '.' && (i + 1 == s.len() || s[i + 1] == '/')
}

/// A segment starting at `i` that is a component of its own: any segment but `.`.
pub open spec fn is_component_start(s: Seq<char>, i: int) -> bool {
    starts_segment(s, i) && !is_dot_segment(s, i)
}

/// Number of component segments that start before position `n`.
pub open spec fn components_before(s: Seq<char>, n: int) -> nat
    decreases n,
{
    if n <= 0 {
        0
    } else {
        components_before(s, n - 1) + if is_component_start(s, n - 1) {
            1nat
        } else {
            0nat
        }
    }
}

/// The path is absolute (has a root component).
pub open spec fn has_root(s: Seq<char>) -> bool {
    s.len() > 0 && s[0] == '/'
}

/// The path starts with a current-directory component (`.` or `./...`).
pub open spec fn has_cur_dir(s: Seq<char>) -> bool {
    s.len() > 0 && is_dot_segment(s, 0)
}

/// Number of components of the path.
pub open spec fn component_count(s: Seq<char>) -> nat {
    (if has_root(s) {
        1nat
    } else {
        0nat
    }) + (if has_cur_dir(s) {
        1nat
    } else {
        0nat
    }) + components_before(s, s.len() as int)
}

/// Start of the last component segment before position `n`, or -1.
pub open spec fn last_component_before(s: Seq<char>, n: int) -> int
    decreases n,
{
    if n <= 0 {
        -1
    } else if is_component_start(s, n - 1) {
        n - 1
    } else {
        last_component_before(s, n - 1)
    }
}

/// End (exclusive) of the segment that contains position `i`.
pub open spec fn segment_end(s: Seq<char>, i: int) -> int
    decreases s.len() - i,
{
    if i >= s.len() || i < 0 || s[i] == '/' {
        i
    } else {
        segment_end(s, i + 1)
    }
}

/// The final component of the path when it is a name (not `..`, not the
/// root, not the current directory).
pub open spec fn file_name(s: Seq<char>) -> Option<Seq<char>> {
    let i = last_component_before(s, s.len() as int);
    if i < 0 {
        None
    } else {
        let seg = s.subrange(i, segment_end(s, i));
        if seg == seq!['.', '.'] {
            None
        } else {
            Some(seg)
        }
    }
}

/// `base` joined with `p` as paths: an absolute `p` replaces `base`;
/// otherwise a `/` is put between them unless `base` is empty or already
/// ends with one.
pub open spec fn joined(base: Seq<char>, p: Seq<char>) -> Seq<char> {
    if has_root(p) {
        p
    } else if base.len() == 0 || base.last() == '/' {
        base + p
    } else {
        base + seq!['/'] + p
    }
}

/// Depth of a path below the root it is relative to: its number of
/// components less one, and 0 for a path without components.
pub open spec fn path_depth(s: Seq<char>) -> nat {
    if component_count(s) == 0 {
        0
    } else {
        (component_count(s) - 1) as nat
    }
}

/// `c` is one ordinary component: not empty, without `/`, and not `.`.
pub open spec fn is_plain_component(c: Seq<char>) -> bool {
    &&& c.len() > 0
    &&& forall|k: int| 0 <= k < c.len() ==> c[k] != '/'
    &&& c != seq!['.']
}

proof fn lemma_components_same_prefix(a: Seq<char>, b: Seq<char>, n: int)
    requires
        0 <= n,
        forall|i: int| 0 <= i < n ==> is_component_start(a, i) == is_component_start(b, i),
    ensures
        components_before(a, n) == components_before(b, n),
    decreases n,
{
    if n > 0 {
        lemma_components_same_prefix(a, b, n - 1);
    }
}

proof fn lemma_components_none_between(s: Seq<char>, m: int, n: int)
    requires
        0 <= m <= n,
        forall|i: int| m <= i < n ==> !is_component_start(s, i),
    ensures
        components_before(s, n) == components_before(s, m),
    decreases n - m,
{
    if n > m {
        lemma_components_none_between(s, m, n - 1);
    }
}

/// Joining one more ordinary component to a path that has components
/// makes it one level deeper.
pub proof fn law_join_component_adds_one_level(p: Seq<char>, c: Seq<char>)
    requires
        component_count(p) >= 1,
        is_plain_component(c),
    ensures
        component_count(joined(p, c)) == component_count(p) + 1,
        path_depth(joined(p, c)) == path_depth(p) + 1,
{
    assert(p.len() > 0) by {
        if p.len() == 0 {
            assert(components_before(p, 0) == 0);
        }
    }
    assert(!has_root(c));
    let slash = p.last() != '/';
    let q = joined(p, c);
    let k0: int = if slash { p.len() + 1int } else { p.len() as int };
    if slash {
        assert(q =~= p + seq!['/'] + c);
    } else {
        assert(q =~= p + c);
    }
    assert(q.len() == k0 + c.len());
    assert(forall|i: int| 0 <= i < p.len() ==> q[i] == p[i]);
    assert(forall|i: int| k0 <= i < q.len() ==> q[i] == c[i - k0]);
    assert(slash ==> q[p.len() as int] == '/');
    assert forall|i: int| 0 <= i < p.len() implies is_component_start(q, i) == is_component_start(p, i) by {
        if i + 1 < p.len() {
            assert(q[i + 1] == p[i + 1]);
        }
        if i > 0 {
            assert(q[i - 1] == p[i - 1]);
        }
    }
    lemma_components_same_prefix(q, p, p.len() as int);
    lemma_components_none_between(q, p.len() as int, k0);
    // The start of `c` is a component start of its own.
    assert(q[k0] == c[0]);
    assert(q[k0 - 1] == '/');
    assert(is_component_start(q, k0)) by {
        if is_dot_segment(q, k0) {
            if k0 + 1 == q.len() {
                assert(c =~= seq!['.']);
            } else {
                assert(q[k0 + 1] == c[1]);
            }
        }
    }
    assert forall|i: int| k0 + 1 <= i < q.len() implies !is_component_start(q, i) by {
        assert(q[i - 1] == c[i - 1 - k0]);
    }
    lemma_components_none_between(q, k0 + 1, q.len() as int);
    assert(components_before(q, k0 + 1) == components_before(q, k0) + 1);
    assert(has_root(q) == has_root(p));
    assert(has_cur_dir(q) == has_cur_dir(p)) by {
        if p.len() >= 2 {
            assert(q[1] == p[1]);
        } else if p[0] == '.' {
            assert(slash);
            assert(q[1] == '/');
        }
    }
}

fn is_component_start_at(c: &Vec<char>, i: usize) -> (r: bool)
    requires
        i < c@.len(),
    ensures
        r == is_component_start(c@, i as int),
{
    let n = c.len();
    let ch = c[i];
    if ch == '/' {
        return false;
    }
    if i > 0 && c[i - 1] != '/' {
        return false;
    }
    let dot = ch == '.' && (i + 1 == n || c[i + 1] == '/');
    !dot
}

/// Number of components of a path (see the module documentation).
pub fn count_components(path: &str) -> (r: usize)
    ensures
        r == component_count(path@),
{
    let c = crate::text::chars_of(path);
    let n = c.len();
    let mut count: usize = 0;
    if n > 0 && c[0] == '/' {
        count = 1;
    }
    if n > 0 && c[0] == '.' && (n == 1 || c[1] == '/') {
        count = 1;
    }
    let ghost base = count;
    let mut i: usize = 0;
    while i < n
        invariant
            n == c@.len(),
            c@ == path@,
            i <= n,
            base <= 1,
            base == (if has_root(c@) {
                1nat
            } else {
                0nat
            }) + (if has_cur_dir(c@) {
                1nat
            } else {
                0nat
            }),
            count == base + components_before(c@, i as int),
            i == 0 ==> count <= 1,
            i > 0 ==> count <= i,
            has_root(c@) ==> !is_component_start(c@, 0),
            has_cur_dir(c@) ==> !is_component_start(c@, 0),
        decreases n - i,
    {
        if is_component_start_at(&c, i) {
            count = count + 1;
        }
        i = i + 1;
    }
    count
}

proof fn lemma_segment_end_bounds(s: Seq<char>, i: int)
    requires
        0 <= i <= s.len(),
    ensures
        i <= segment_end(s, i) <= s.len(),
        forall|k: int| i <= k < segment_end(s, i) ==> s[k] != '/',
        segment_end(s, i) < s.len() ==> s[segment_end(s, i)] == '/',
    decreases s.len() - i,
{
    if i < s.len() && s[i] != '/' {
        lemma_segment_end_bounds(s, i + 1);
    }
}

proof fn lemma_last_component_bounds(s: Seq<char>, n: int)
    requires
        0 <= n <= s.len(),
    ensures
        last_component_before(s, n) < n,
        last_component_before(s, n) >= -1,
        last_component_before(s, n) >= 0 ==> is_component_start(s, last_component_before(s, n)),
        forall|k: int|
            last_component_before(s, n) < k < n ==> !#[trigger] is_component_start(s, k),
    decreases n,
{
    if n > 0 && !is_component_start(s, n - 1) {
        lemma_last_component_bounds(s, n - 1);
    }
}

/// The final component of a path when it is a name; `None` for an empty
/// path, the root, `.` and paths ending in `..`.
pub fn path_file_name(path: &str) -> (r: Option<&str>)
    ensures
        match r {
            Some(name) => file_name(path@) == Some(name@),
            None => file_name(path@) is None,
        },
{
    let c = crate::text::chars_of(path);
    let n = c.len();
    let mut i: usize = n;
    while i > 0
        invariant
            n == c@.len(),
            c@ == path@,
            i <= n,
            last_component_before(c@, n as int) == last_component_before(c@, i as int),
        ensures
            i == 0 || is_component_start(c@, i - 1),
            last_component_before(c@, n as int) == last_component_before(c@, i as int),
        decreases i,
    {
        if is_component_start_at(&c, i - 1) {
            break;
        }
        i = i - 1;
    }
    if i == 0 {
        return None;
    }
    let start = i - 1;
    proof {
        lemma_segment_end_bounds(c@, start as int);
    }
    let mut end = start;
    while end < n && c[end] != '/'
        invariant
            n == c@.len(),
            c@ == path@,
            start <= end <= n,
            segment_end(c@, start as int) == segment_end(c@, end as int),
        decreases n - end,
    {
        end = end + 1;
    }
    assert(last_component_before(c@, n as int) == start);
    assert(end == segment_end(c@, start as int));
    let ghost seg = c@.subrange(start as int, end as int);
    if end - start == 2 && c[start] == '.' && c[start + 1] == '.' {
        assert(seg =~= seq!['.', '.']);
        return None;
    }
    let name = vstd::string::StrSliceExecFns::substring_char(path, start, end);
    proof {
        if seg == seq!['.', '.'] {
            assert(seg.len() == 2);
            assert(seg[0] == c@[start as int]);
            assert(seg[1] == c@[start + 1]);
        }
    }
    Some(name)
}

} // verus!
