//! Terminal content as drawn: screen lines built from the grid cells, and
//! the cursor in screen coordinates.

use std::collections::BTreeMap;
use vstd::prelude::*;
use vstd::std_specs::btree::increasing_seq;
use vstd::std_specs::cmp::OrdSpec;
use vstd::std_specs::iter::IteratorSpec;

use crate::text::push_char;

verus! {

broadcast use vstd::std_specs::btree::group_btree_axioms;

/// A grid cell: the line it is on (negative in scrollback) and its character.
#[derive(Clone, Copy, Debug)]
pub struct TerminalCell {
    pub line: i32,
    pub c: char,
}

/// A cursor position in grid coordinates.
#[derive(Clone, Copy, Debug)]
pub struct CursorPoint {
    pub line: i32,
    pub column: usize,
}

/// A cursor position in screen coordinates (scrollback offset applied).
#[derive(Clone, Copy, Debug)]
pub struct DisplayCursor {
    pub line: i32,
    pub col: usize,
}

impl DisplayCursor {
    /// The screen position of a grid cursor, shifting its line down by the
    /// scrollback display offset.
    pub fn from(cursor_point: CursorPoint, display_offset: usize) -> (r: Self)
        requires
            i32::MIN <= cursor_point.line + (display_offset as i32) <= i32::MAX,
        ensures
            r.line == cursor_point.line + (display_offset as i32),
            r.col == cursor_point.column,
    {
        let offset = display_offset as i32;
        DisplayCursor { line: cursor_point.line + offset, col: cursor_point.column }
    }

    /// Screen line of the cursor.
    pub fn line(&self) -> (r: i32)
        ensures
            r == self.line,
    {
        self.line
    }

    /// Column of the cursor.
    pub fn col(&self) -> (r: usize)
        ensures
            r == self.col,
    {
        self.col
    }
}

/// Whether the cursor is on one of the `num_lines` visible screen lines.
pub fn cursor_in_viewport(cursor: DisplayCursor, num_lines: usize) -> (r: bool)
    ensures
        r == (0 <= cursor.line && cursor.line < (num_lines as i32)),
{
    let rows = num_lines as i32;
    cursor.line() >= 0 && cursor.line() < rows
}

/// The characters of the cells on line `l` among the first `n` cells, in order.
pub open spec fn chars_on_line(cells: Seq<TerminalCell>, l: i32, n: int) -> Seq<char>
    decreases n,
{
    if n <= 0 {
        Seq::empty()
    } else {
        chars_on_line(cells, l, n - 1) + if cells[n - 1].line == l {
            seq![cells[n - 1].c]
        } else {
            Seq::empty()
        }
    }
}

/// Some cell among the first `n` is on line `l`.
pub open spec fn has_line(cells: Seq<TerminalCell>, l: i32, n: int) -> bool {
    exists|k: int| 0 <= k < n && #[trigger] cells[k].line == l
}

/// Strictly increasing.
pub open spec fn increasing(s: Seq<i32>) -> bool {
    forall|a: int, b: int| 0 <= a < b < s.len() ==> s[a] < s[b]
}

/// `lines` are the screen lines of `cells`: one per line that has cells,
/// from the top (lowest line number) down, each holding the characters of
/// its cells in order.
pub open spec fn screen_lines(cells: Seq<TerminalCell>, lines: Seq<Seq<char>>) -> bool {
    exists|ls: Seq<i32>|
        {
            &&& increasing(ls)
            &&& ls.len() == lines.len()
            &&& forall|l: i32| ls.contains(l) <==> has_line(cells, l, cells.len() as int)
            &&& forall|k: int| 0 <= k < lines.len() ==> #[trigger] lines[k] == chars_on_line(cells, ls[k], cells.len() as int)
        }
}

proof fn lemma_chars_absent(cells: Seq<TerminalCell>, l: i32, n: int)
    requires
        0 <= n <= cells.len(),
        !has_line(cells, l, n),
    ensures
        chars_on_line(cells, l, n) == Seq::<char>::empty(),
    decreases n,
{
    if n > 0 {
        assert(cells[n - 1].line != l);
        assert(!has_line(cells, l, n - 1)) by {
            if has_line(cells, l, n - 1) {
                let k = choose|k: int| 0 <= k < n - 1 && #[trigger] cells[k].line == l;
                assert(0 <= k < n && cells[k].line == l);
            }
        }
        lemma_chars_absent(cells, l, n - 1);
        assert(chars_on_line(cells, l, n) =~= Seq::<char>::empty());
    }
}

fn string_of(cs: &Vec<char>) -> (r: String)
    ensures
        r@ == cs@,
{
    let mut s = String::new();
    let mut i: usize = 0;
    while i < cs.len()
        invariant
            i <= cs@.len(),
            s@ == cs@.subrange(0, i as int),
        decreases cs@.len() - i,
    {
        push_char(&mut s, cs[i]);
        i = i + 1;
        assert(cs@.subrange(0, i as int) =~= cs@.subrange(0, i - 1).push(cs@[i - 1]));
    }
    assert(cs@.subrange(0, cs@.len() as int) =~= cs@);
    s
}

/// Line numbers (`i32`) obey the ordering laws a `BTreeMap` relies on.
spec fn line_keys_ordered() -> bool {
    vstd::laws_cmp::obeys_cmp::<i32>()
}

/// `i32` keys are ordered as integers, so a map keyed by them keeps its
/// entries in increasing line order.
proof fn lemma_line_keys_ordered()
    ensures
        line_keys_ordered(),
        vstd::std_specs::btree::key_obeys_cmp_spec::<i32>(),
        forall|ks: Seq<i32>| #[trigger] increasing_seq(ks) ==> increasing(ks),
{
    broadcast use vstd::laws_cmp::group_laws_cmp;

    assert forall|ks: Seq<i32>| #[trigger] increasing_seq(ks) implies increasing(ks) by {
        assert forall|a: int, b: int| 0 <= a < b < ks.len() implies ks[a] < ks[b] by {
            assert(OrdSpec::cmp_spec(&ks[a], &ks[b]) is Less);
        }
    }
}

/// The screen lines of a set of cells: cells grouped by line, lines from
/// the top down, characters in cell order.
pub fn build_lines_from_content(cells: &[TerminalCell]) -> (r: Vec<String>)
    ensures
        screen_lines(cells@, r@.map_values(|s: String| s@)),
{
    proof {
        lemma_line_keys_ordered();
    }
    let ghost cs = cells@;
    let mut lines_map: BTreeMap<i32, Vec<char>> = BTreeMap::new();
    let mut i: usize = 0;
    while i < cells.len()
        invariant
            cs == cells@,
            i <= cs.len(),
            line_keys_ordered(),
            forall|l: i32| #[trigger] lines_map@.contains_key(l) <==> has_line(cs, l, i as int),
            forall|l: i32| #[trigger] lines_map@.contains_key(l) ==> lines_map@[l]@ == chars_on_line(cs, l, i as int),
        decreases cs.len() - i,
    {
        let cell = cells[i];
        let ghost before = lines_map@;
        let group = match lines_map.remove(&cell.line) {
            Some(mut g) => {
                g.push(cell.c);
                g
            },
            None => {
                let mut g: Vec<char> = Vec::new();
                g.push(cell.c);
                proof {
                    assert(!has_line(cs, cell.line, i as int));
                    lemma_chars_absent(cs, cell.line, i as int);
                }
                g
            },
        };
        lines_map.insert(cell.line, group);
        proof {
            assert(lines_map@ == before.insert(cell.line, group));
            assert forall|l: i32| #[trigger] lines_map@.contains_key(l) <==> has_line(cs, l, i + 1) by {
                if has_line(cs, l, i + 1) && l != cell.line {
                    let k = choose|k: int| 0 <= k < i + 1 && #[trigger] cs[k].line == l;
                    assert(0 <= k < i && cs[k].line == l);
                }
                if l != cell.line && before.contains_key(l) {
                    let k = choose|k: int| 0 <= k < i && #[trigger] cs[k].line == l;
                    assert(0 <= k < i + 1 && cs[k].line == l);
                }
                if l == cell.line {
                    assert(cs[i as int].line == l);
                }
            }
            assert forall|l: i32| #[trigger] lines_map@.contains_key(l) implies lines_map@[l]@ == chars_on_line(cs, l, i + 1) by {
                if l != cell.line {
                    assert(lines_map@[l] == before[l]);
                }
            }
        }
        i = i + 1;
    }
    let ghost ks = choose|ks: Seq<i32>|
        {
            &&& increasing_seq(ks)
            &&& ks.to_set() == lines_map@.dom()
            &&& ks.no_duplicates()
            &&& IteratorSpec::remaining(&lines_map.values()) == ks.map(|j: int, k: i32| &lines_map@[k])
        };
    let mut out: Vec<String> = Vec::new();
    for g in it: lines_map.values()
        invariant
            out@.len() == it.index(),
            it.seq() == ks.map(|j: int, k: i32| &lines_map@[k]),
            forall|j: int| 0 <= j < out@.len() ==> #[trigger] out@[j]@ == lines_map@[ks[j]]@,
    {
        let s = string_of(g);
        out.push(s);
    }
    proof {
        assert(out@.len() == ks.len());
        assert(increasing(ks));
        let lines = out@.map_values(|s: String| s@);
        assert forall|l: i32| ks.contains(l) <==> has_line(cs, l, cs.len() as int) by {
            assert(ks.to_set().contains(l) <==> ks.contains(l));
        }
        assert forall|j: int| 0 <= j < lines.len() implies #[trigger] lines[j] == chars_on_line(cs, ks[j], cs.len() as int) by {
            assert(lines[j] == out@[j]@);
            assert(out@[j]@ == lines_map@[ks[j]]@);
            assert(ks.contains(ks[j]));
            assert(ks.to_set().contains(ks[j]));
        }
        assert(screen_lines(cs, lines));
    }
    out
}

/// What is drawn of a terminal: its screen lines and the cursor.
pub struct TerminalContentSnapshot {
    /// Screen lines from the top down.
    pub lines: Vec<String>,
    /// Screen line of the cursor (scrollback offset applied).
    pub display_cursor_line: i32,
    /// Column of the cursor.
    pub cursor_col: usize,
    /// Number of rows of the viewport.
    pub viewport_rows: usize,
}

impl TerminalContentSnapshot {
    /// The snapshot of a terminal's cells and cursor for a viewport.
    pub fn from_content(
        cells: &[TerminalCell],
        cursor: CursorPoint,
        display_offset: usize,
        viewport_rows: usize,
    ) -> (r: Self)
        requires
            i32::MIN <= cursor.line + (display_offset as i32) <= i32::MAX,
        ensures
            screen_lines(cells@, r.lines@.map_values(|s: String| s@)),
            r.display_cursor_line == cursor.line + (display_offset as i32),
            r.cursor_col == cursor.column,
            r.viewport_rows == viewport_rows,
    {
        let lines = build_lines_from_content(cells);
        let display_cursor = DisplayCursor::from(cursor, display_offset);
        TerminalContentSnapshot {
            lines,
            display_cursor_line: display_cursor.line(),
            cursor_col: display_cursor.col(),
            viewport_rows,
        }
    }
}

} // verus!
