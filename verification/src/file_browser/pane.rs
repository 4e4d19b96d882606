//! The file browser pane: per-workspace tree state, selection and
//! keyboard navigation, and the events the pane emits.

use vstd::prelude::*;

use crate::file_browser::render::{display_name, display_name_of, EntryDetails};
use crate::file_browser::state::{
    collapse_dir, collapsed_without, expand_dir, expanded_with, is_expanded,
    is_strictly_sorted, law_collapse_keeps_order_and_removes, law_collapse_then_expand_restores,
    law_expand_then_collapse_restores, law_expand_keeps_order_and_adds,
    Entry, ProjectEntryId,
};
use crate::text::str_equal;

verus! {

/// An entry as plain values.
pub struct EntryView {
    pub id: ProjectEntryId,
    pub path: Seq<char>,
    pub is_dir: bool,
    pub depth: usize,
}

impl View for Entry {
    type V = EntryView;

    open spec fn view(&self) -> EntryView {
        EntryView { id: self.id, path: self.path@, is_dir: self.is_dir, depth: self.depth }
    }
}

impl Entry {
    /// A copy of the entry.
    pub fn duplicate(&self) -> (r: Entry)
        ensures
            r@ == self@,
    {
        Entry { id: self.id, path: self.path.clone(), is_dir: self.is_dir, depth: self.depth }
    }
}

/// The views of a list of entries.
pub open spec fn entries_view(es: Seq<Entry>) -> Seq<EntryView> {
    es.map_values(|e: Entry| e@)
}

/// Events emitted by the file browser pane.
#[derive(Clone, Debug)]
pub enum FileBrowserPaneEvent {
    /// Request to open a file.
    OpenFile(String),
    /// Request to open a terminal in a directory.
    OpenInTerminal(String),
    /// The selection changed; carries the selected entry's path if it is visible.
    SelectionChanged(Option<String>),
}

/// An event as plain values.
pub enum PaneEventView {
    OpenFile(Seq<char>),
    OpenInTerminal(Seq<char>),
    SelectionChanged(Option<Seq<char>>),
}

impl View for FileBrowserPaneEvent {
    type V = PaneEventView;

    open spec fn view(&self) -> PaneEventView {
        match self {
            FileBrowserPaneEvent::OpenFile(p) => PaneEventView::OpenFile(p@),
            FileBrowserPaneEvent::OpenInTerminal(p) => PaneEventView::OpenInTerminal(p@),
            FileBrowserPaneEvent::SelectionChanged(p) => PaneEventView::SelectionChanged(
                match p {
                    Some(s) => Some(s@),
                    None => None,
                },
            ),
        }
    }
}

/// The view of an optional event.
pub open spec fn event_view(e: Option<FileBrowserPaneEvent>) -> Option<PaneEventView> {
    match e {
        Some(ev) => Some(ev@),
        None => None,
    }
}

/// Runtime state of the file browser for one workspace (not persisted).
#[derive(Clone, Debug)]
pub struct FileBrowserRuntimeState {
    /// Flattened tree of visible entries.
    pub visible_entries: Vec<Entry>,
    /// Expanded directory ids, kept sorted.
    pub expanded_dir_ids: Vec<ProjectEntryId>,
    /// Currently selected entry.
    pub selection: Option<ProjectEntryId>,
    /// Entries marked for multi-selection.
    pub marked_entries: Vec<ProjectEntryId>,
    /// Scroll offset in pixels, as the bit pattern of an `f32`.
    pub scroll_offset: u32,
}

/// A runtime state as plain values.
pub struct RuntimeStateView {
    pub visible_entries: Seq<EntryView>,
    pub expanded_dir_ids: Seq<ProjectEntryId>,
    pub selection: Option<ProjectEntryId>,
    pub marked_entries: Seq<ProjectEntryId>,
    pub scroll_offset: u32,
}

impl View for FileBrowserRuntimeState {
    type V = RuntimeStateView;

    open spec fn view(&self) -> RuntimeStateView {
        RuntimeStateView {
            visible_entries: entries_view(self.visible_entries@),
            expanded_dir_ids: self.expanded_dir_ids@,
            selection: self.selection,
            marked_entries: self.marked_entries@,
            scroll_offset: self.scroll_offset,
        }
    }
}

impl Default for FileBrowserRuntimeState {
    /// No entries, nothing expanded, selected or marked, scrolled to the top.
    fn default() -> (r: Self)
        ensures
            r@ == empty_state(),
    {
        let r = FileBrowserRuntimeState {
            visible_entries: Vec::new(),
            expanded_dir_ids: Vec::new(),
            selection: None,
            marked_entries: Vec::new(),
            scroll_offset: 0,
        };
        assert(r@.visible_entries =~= Seq::<EntryView>::empty());
        r
    }
}

/// The state with nothing in it.
pub open spec fn empty_state() -> RuntimeStateView {
    RuntimeStateView {
        visible_entries: Seq::empty(),
        expanded_dir_ids: Seq::empty(),
        selection: None,
        marked_entries: Seq::empty(),
        scroll_offset: 0,
    }
}

// ---------------------------------------------------------------------
// The rules, on plain values.
// ---------------------------------------------------------------------

/// Index of the first entry among the first `n` with the given id, or -1.
pub open spec fn position_in(es: Seq<EntryView>, id: ProjectEntryId, n: int) -> int
    decreases n,
{
    if n <= 0 {
        -1
    } else if position_in(es, id, n - 1) >= 0 {
        position_in(es, id, n - 1)
    } else if es[n - 1].id == id {
        n - 1
    } else {
        -1
    }
}

/// Index of the first visible entry with the given id, or -1.
pub open spec fn position_of_entry(es: Seq<EntryView>, id: ProjectEntryId) -> int {
    position_in(es, id, es.len() as int)
}

/// Index of the last directory at the given depth among the first `n`
/// entries, or -1.
pub open spec fn last_dir_at_depth(es: Seq<EntryView>, depth: int, n: int) -> int
    decreases n,
{
    if n <= 0 {
        -1
    } else if es[n - 1].is_dir && es[n - 1].depth == depth {
        n - 1
    } else {
        last_dir_at_depth(es, depth, n - 1)
    }
}

/// The state with the expansion of `id` flipped.
pub open spec fn toggled(st: RuntimeStateView, id: ProjectEntryId) -> RuntimeStateView {
    RuntimeStateView {
        expanded_dir_ids: if st.expanded_dir_ids.contains(id) {
            collapsed_without(st.expanded_dir_ids, id)
        } else {
            expanded_with(st.expanded_dir_ids, id)
        },
        ..st
    }
}

/// The state with `id` selected and no entry marked.
pub open spec fn selected(st: RuntimeStateView, id: ProjectEntryId) -> RuntimeStateView {
    RuntimeStateView { selection: Some(id), marked_entries: Seq::empty(), ..st }
}

/// The event announcing that `id` was selected: the path of the first
/// visible entry with that id, if any.
pub open spec fn selection_event(st: RuntimeStateView, id: ProjectEntryId) -> PaneEventView {
    let p = position_of_entry(st.visible_entries, id);
    PaneEventView::SelectionChanged(
        if p >= 0 {
            Some(st.visible_entries[p].path)
        } else {
            None
        },
    )
}

/// The result of selecting `id`: new state and event.
pub open spec fn select_step(st: RuntimeStateView, id: ProjectEntryId) -> (
    RuntimeStateView,
    Option<PaneEventView>,
) {
    (selected(st, id), Some(selection_event(st, id)))
}

/// Index of the selected entry among the visible ones; 0 when nothing
/// visible is selected.
pub open spec fn current_index(st: RuntimeStateView) -> int {
    match st.selection {
        Some(id) => {
            let p = position_of_entry(st.visible_entries, id);
            if p >= 0 {
                p
            } else {
                0
            }
        },
        None => 0,
    }
}

/// Moving the selection up one row, wrapping from the first row to the last.
pub open spec fn move_up_step(st: RuntimeStateView) -> (RuntimeStateView, Option<PaneEventView>) {
    let n = st.visible_entries.len() as int;
    if n == 0 {
        (st, None)
    } else {
        let c = current_index(st);
        let k = if c == 0 {
            n - 1
        } else {
            c - 1
        };
        select_step(st, st.visible_entries[k].id)
    }
}

/// Moving the selection down one row, wrapping from the last row to the first.
pub open spec fn move_down_step(st: RuntimeStateView) -> (RuntimeStateView, Option<PaneEventView>) {
    let n = st.visible_entries.len() as int;
    if n == 0 {
        (st, None)
    } else {
        let c = current_index(st);
        let k = if c >= n - 1 {
            0
        } else {
            c + 1
        };
        select_step(st, st.visible_entries[k].id)
    }
}

/// Expanding the selected entry: a collapsed directory is expanded, an
/// expanded one left alone, a file is asked to be opened.
pub open spec fn expand_selected_step(st: RuntimeStateView) -> (
    RuntimeStateView,
    Option<PaneEventView>,
) {
    match st.selection {
        None => (st, None),
        Some(sel) => {
            let p = position_of_entry(st.visible_entries, sel);
            if p < 0 {
                (st, None)
            } else {
                let e = st.visible_entries[p];
                if e.is_dir {
                    if st.expanded_dir_ids.contains(e.id) {
                        (st, None)
                    } else {
                        (toggled(st, e.id), None)
                    }
                } else {
                    (st, Some(PaneEventView::OpenFile(e.path)))
                }
            }
        },
    }
}

/// Collapsing the selected entry: an expanded directory is collapsed;
/// otherwise the selection moves to the entry's parent directory, the
/// nearest directory one level up before it, if the entry is nested and
/// there is one.
pub open spec fn collapse_selected_step(st: RuntimeStateView) -> (
    RuntimeStateView,
    Option<PaneEventView>,
) {
    match st.selection {
        None => (st, None),
        Some(sel) => {
            let p = position_of_entry(st.visible_entries, sel);
            if p < 0 {
                (st, None)
            } else {
                let e = st.visible_entries[p];
                if e.is_dir && st.expanded_dir_ids.contains(e.id) {
                    (toggled(st, e.id), None)
                } else if e.depth > 0 {
                    let q = last_dir_at_depth(st.visible_entries, e.depth - 1, p);
                    if q >= 0 {
                        select_step(st, st.visible_entries[q].id)
                    } else {
                        (st, None)
                    }
                } else {
                    (st, None)
                }
            }
        },
    }
}

/// A click on an entry: directories flip their expansion, then the entry
/// is selected.
pub open spec fn click_step(st: RuntimeStateView, id: ProjectEntryId, is_dir: bool) -> (
    RuntimeStateView,
    Option<PaneEventView>,
) {
    let st1 = if is_dir {
        toggled(st, id)
    } else {
        st
    };
    select_step(st1, id)
}

/// What a key does: `up`/`down` move the selection, `left` collapses,
/// `right`, `enter` and space expand; other keys do nothing. The second
/// component says whether the key was consumed.
pub open spec fn key_step(st: RuntimeStateView, key: Seq<char>) -> (
    RuntimeStateView,
    Option<PaneEventView>,
    bool,
) {
    let r = if key == "up"@ {
        move_up_step(st)
    } else if key == "down"@ {
        move_down_step(st)
    } else if key == "left"@ {
        collapse_selected_step(st)
    } else if key == "right"@ || key == "enter"@ || key == " "@ {
        expand_selected_step(st)
    } else {
        (st, None)
    };
    let handled = key == "up"@ || key == "down"@ || key == "left"@ || key == "right"@ || key
        == "enter"@ || key == " "@;
    (r.0, r.1, handled)
}

/// The expanded ids of a state are strictly sorted.
pub open spec fn state_ok(st: RuntimeStateView) -> bool {
    is_strictly_sorted(st.expanded_dir_ids)
}

// ---------------------------------------------------------------------
// The pane.
// ---------------------------------------------------------------------

/// File browser pane: the active workspace and the runtime state of every
/// workspace visited so far.
pub struct FileBrowserPane {
    active_workspace_id: String,
    workspace_ids: Vec<String>,
    states: Vec<FileBrowserRuntimeState>,
}

/// Index of the first id among the first `n` equal to `k`, or -1.
pub open spec fn position_of_key(ids: Seq<Seq<char>>, k: Seq<char>, n: int) -> int
    decreases n,
{
    if n <= 0 {
        -1
    } else if position_of_key(ids, k, n - 1) >= 0 {
        position_of_key(ids, k, n - 1)
    } else if ids[n - 1] == k {
        n - 1
    } else {
        -1
    }
}

impl FileBrowserPane {
    /// Id of the active workspace.
    pub closed spec fn active_id(&self) -> Seq<char> {
        self.active_workspace_id@
    }

    /// Ids of the workspaces that have a state, in the order first visited.
    pub closed spec fn workspace_keys(&self) -> Seq<Seq<char>> {
        self.workspace_ids@.map_values(|s: String| s@)
    }

    /// The states of those workspaces, in the same order.
    pub closed spec fn workspace_states(&self) -> Seq<RuntimeStateView> {
        self.states@.map_values(|s: FileBrowserRuntimeState| s@)
    }

    /// Position of the active workspace among `workspace_keys`.
    pub open spec fn active_position(&self) -> int {
        position_of_key(self.workspace_keys(), self.active_id(), self.workspace_keys().len() as int)
    }

    /// State of the active workspace.
    pub open spec fn active_state_view(&self) -> RuntimeStateView {
        self.workspace_states()[self.active_position()]
    }

    /// Well-formed: one state per workspace key, the active workspace has a
    /// state, and every state's expanded ids are strictly sorted.
    pub open spec fn wf(&self) -> bool {
        &&& self.workspace_keys().len() == self.workspace_states().len()
        &&& 0 <= self.active_position() < self.workspace_keys().len()
        &&& forall|i: int| 0 <= i < self.workspace_states().len() ==> state_ok(#[trigger] self.workspace_states()[i])
    }
}

/// The demonstration tree a new workspace starts with.
pub open spec fn placeholder_entries() -> Seq<EntryView> {
    seq![
        EntryView { id: 1, path: "src"@, is_dir: true, depth: 0 },
        EntryView { id: 2, path: "src/main.rs"@, is_dir: false, depth: 1 },
        EntryView { id: 3, path: "src/lib.rs"@, is_dir: false, depth: 1 },
        EntryView { id: 4, path: "src/file_browser"@, is_dir: true, depth: 1 },
        EntryView { id: 5, path: "Cargo.toml"@, is_dir: false, depth: 0 },
        EntryView { id: 6, path: "README.md"@, is_dir: false, depth: 0 },
    ]
}

/// The state a workspace starts with: the demonstration tree, nothing
/// expanded, selected or marked.
pub open spec fn initial_state() -> RuntimeStateView {
    RuntimeStateView { visible_entries: placeholder_entries(), ..empty_state() }
}

/// The pane after a step on the active state: same workspaces, same active
/// workspace, only the active state replaced.
pub open spec fn stepped(
    old_pane: &FileBrowserPane,
    new_pane: &FileBrowserPane,
    st: RuntimeStateView,
) -> bool {
    &&& new_pane.wf()
    &&& new_pane.active_id() == old_pane.active_id()
    &&& new_pane.workspace_keys() == old_pane.workspace_keys()
    &&& new_pane.workspace_states() == old_pane.workspace_states().update(
        old_pane.active_position(),
        st,
    )
}

fn entry(id: ProjectEntryId, path: &str, is_dir: bool, depth: usize) -> (r: Entry)
    ensures
        r@ == (EntryView { id, path: path@, is_dir, depth }),
{
    Entry { id, path: path.to_owned(), is_dir, depth }
}

/// Position of the first visible entry with the given id.
fn find_entry(es: &Vec<Entry>, id: ProjectEntryId) -> (r: Option<usize>)
    ensures
        match r {
            Some(p) => p as int == position_of_entry(entries_view(es@), id) && p < es@.len(),
            None => position_of_entry(entries_view(es@), id) < 0,
        },
{
    let ghost v = entries_view(es@);
    let mut i: usize = 0;
    while i < es.len()
        invariant
            v == entries_view(es@),
            i <= es@.len(),
            position_in(v, id, i as int) < 0,
        decreases es@.len() - i,
    {
        if es[i].id == id {
            assert(position_in(v, id, i + 1) == i);
            proof {
                lemma_position_in_stable(v, id, i + 1, v.len() as int);
            }
            return Some(i);
        }
        i = i + 1;
    }
    None
}

proof fn lemma_position_in_stable(es: Seq<EntryView>, id: ProjectEntryId, m: int, n: int)
    requires
        0 <= m <= n,
        position_in(es, id, m) >= 0,
    ensures
        position_in(es, id, n) == position_in(es, id, m),
    decreases n - m,
{
    if n > m {
        lemma_position_in_stable(es, id, m, n - 1);
    }
}

proof fn lemma_position_in_bounds(es: Seq<EntryView>, id: ProjectEntryId, n: int)
    requires
        0 <= n <= es.len(),
    ensures
        -1 <= position_in(es, id, n) < n,
        position_in(es, id, n) >= 0 ==> es[position_in(es, id, n)].id == id,
    decreases n,
{
    if n > 0 {
        lemma_position_in_bounds(es, id, n - 1);
    }
}

/// Last directory at the given depth among the first `end` visible entries.
fn find_last_dir_at_depth(es: &Vec<Entry>, depth: usize, end: usize) -> (r: Option<usize>)
    requires
        end <= es@.len(),
    ensures
        match r {
            Some(q) => q as int == last_dir_at_depth(entries_view(es@), depth as int, end as int)
                && q < end,
            None => last_dir_at_depth(entries_view(es@), depth as int, end as int) < 0,
        },
{
    let ghost v = entries_view(es@);
    let mut i: usize = end;
    while i > 0
        invariant
            v == entries_view(es@),
            i <= end <= es@.len(),
            last_dir_at_depth(v, depth as int, end as int) == last_dir_at_depth(v, depth as int, i as int),
        decreases i,
    {
        if es[i - 1].is_dir && es[i - 1].depth == depth {
            return Some(i - 1);
        }
        i = i - 1;
    }
    None
}

fn contains_id(ids: &Vec<ProjectEntryId>, id: ProjectEntryId) -> (r: bool)
    ensures
        r == ids@.contains(id),
{
    let mut i: usize = 0;
    while i < ids.len()
        invariant
            i <= ids@.len(),
            forall|k: int| 0 <= k < i ==> ids@[k] != id,
        decreases ids@.len() - i,
    {
        if ids[i] == id {
            return true;
        }
        i = i + 1;
    }
    false
}

impl FileBrowserRuntimeState {
    /// A fresh state showing the demonstration tree.
    pub fn initial() -> (r: Self)
        ensures
            r@ == initial_state(),
    {
        let r = FileBrowserRuntimeState {
            visible_entries: FileBrowserPane::create_placeholder_tree(),
            expanded_dir_ids: Vec::new(),
            selection: None,
            marked_entries: Vec::new(),
            scroll_offset: 0,
        };
        assert(r@.marked_entries =~= Seq::<ProjectEntryId>::empty());
        r
    }
}

impl FileBrowserPane {
    /// A pane for the given workspace, showing the demonstration tree.
    pub fn new(workspace_id: String) -> (r: Self)
        ensures
            r.wf(),
            r.active_id() == workspace_id@,
            r.workspace_keys() == seq![workspace_id@],
            r.workspace_states() == seq![initial_state()],
    {
        let mut ids: Vec<String> = Vec::new();
        ids.push(workspace_id.clone());
        let mut states: Vec<FileBrowserRuntimeState> = Vec::new();
        states.push(FileBrowserRuntimeState::initial());
        let r = FileBrowserPane { active_workspace_id: workspace_id, workspace_ids: ids, states };
        assert(r.workspace_keys() =~= seq![workspace_id@]);
        assert(r.workspace_states() =~= seq![initial_state()]);
        assert(r.workspace_keys()[0] == r.active_id());
        assert(position_of_key(r.workspace_keys(), r.active_id(), 0) == -1);
        assert(position_of_key(r.workspace_keys(), r.active_id(), 1) == 0);
        r
    }

    /// The demonstration tree: `src` with `main.rs`, `lib.rs` and
    /// `file_browser`, then `Cargo.toml` and `README.md` at the top level.
    pub fn create_placeholder_tree() -> (r: Vec<Entry>)
        ensures
            entries_view(r@) == placeholder_entries(),
    {
        let mut v: Vec<Entry> = Vec::new();
        v.push(entry(1, "src", true, 0));
        v.push(entry(2, "src/main.rs", false, 1));
        v.push(entry(3, "src/lib.rs", false, 1));
        v.push(entry(4, "src/file_browser", true, 1));
        v.push(entry(5, "Cargo.toml", false, 0));
        v.push(entry(6, "README.md", false, 0));
        assert(entries_view(v@) =~= placeholder_entries());
        v
    }

    /// Index of the workspace with the given id.
    fn find_workspace(&self, id: &str) -> (r: Option<usize>)
        ensures
            match r {
                Some(i) => i as int == position_of_key(self.workspace_keys(), id@, self.workspace_keys().len() as int)
                    && i < self.workspace_ids@.len(),
                None => position_of_key(self.workspace_keys(), id@, self.workspace_keys().len() as int) < 0,
            },
    {
        let ghost keys = self.workspace_keys();
        let mut i: usize = 0;
        while i < self.workspace_ids.len()
            invariant
                keys == self.workspace_keys(),
                keys.len() == self.workspace_ids@.len(),
                i <= keys.len(),
                position_of_key(keys, id@, i as int) < 0,
            decreases keys.len() - i,
        {
            if str_equal(self.workspace_ids[i].as_str(), id) {
                assert(position_of_key(keys, id@, i + 1) == i);
                proof {
                    lemma_position_of_key_stable(keys, id@, i + 1, keys.len() as int);
                }
                return Some(i);
            }
            i = i + 1;
        }
        None
    }

    /// Index of the active workspace's state.
    fn active_index(&self) -> (r: usize)
        requires
            self.wf(),
        ensures
            r as int == self.active_position(),
            r < self.states@.len(),
    {
        match self.find_workspace(self.active_workspace_id.as_str()) {
            Some(i) => i,
            None => {
                assert(false);
                0
            },
        }
    }
}

proof fn lemma_position_of_key_stable(ids: Seq<Seq<char>>, k: Seq<char>, m: int, n: int)
    requires
        0 <= m <= n,
        position_of_key(ids, k, m) >= 0,
    ensures
        position_of_key(ids, k, n) == position_of_key(ids, k, m),
    decreases n - m,
{
    if n > m {
        lemma_position_of_key_stable(ids, k, m, n - 1);
    }
}

proof fn lemma_position_of_key_bounds(ids: Seq<Seq<char>>, k: Seq<char>, n: int)
    requires
        0 <= n <= ids.len(),
    ensures
        -1 <= position_of_key(ids, k, n) < n,
        position_of_key(ids, k, n) >= 0 ==> ids[position_of_key(ids, k, n)] == k,
        position_of_key(ids, k, n) < 0 ==> forall|j: int| 0 <= j < n ==> ids[j] != k,
    decreases n,
{
    if n > 0 {
        lemma_position_of_key_bounds(ids, k, n - 1);
    }
}

proof fn lemma_position_of_key_prefix(a: Seq<Seq<char>>, b: Seq<Seq<char>>, k: Seq<char>, n: int)
    requires
        0 <= n <= a.len(),
        n <= b.len(),
        forall|j: int| 0 <= j < n ==> a[j] == b[j],
    ensures
        position_of_key(a, k, n) == position_of_key(b, k, n),
    decreases n,
{
    if n > 0 {
        lemma_position_of_key_prefix(a, b, k, n - 1);
    }
}

proof fn lemma_toggled_ok(st: RuntimeStateView, id: ProjectEntryId)
    requires
        state_ok(st),
    ensures
        state_ok(toggled(st, id)),
{
    law_expand_keeps_order_and_adds(st.expanded_dir_ids, id);
    law_collapse_keeps_order_and_removes(st.expanded_dir_ids, id);
}

/// `new` is `old` with workspace `w` made active: a workspace seen before
/// keeps its state, a new one is added with the initial state.
pub open spec fn switched_to(old: FileBrowserPane, new: FileBrowserPane, w: Seq<char>) -> bool {
    let known = position_of_key(old.workspace_keys(), w, old.workspace_keys().len() as int) >= 0;
    &&& new.active_id() == w
    &&& known ==> new.workspace_keys() == old.workspace_keys() && new.workspace_states()
        == old.workspace_states()
    &&& !known ==> new.workspace_keys() == old.workspace_keys().push(w) && new.workspace_states()
        == old.workspace_states().push(initial_state())
}

/// Switching the file browser to another workspace and back gives back the
/// tree state it had: expansion, selection, marks and scroll position.
pub proof fn law_switch_back_restores_tree(
    p0: FileBrowserPane,
    p1: FileBrowserPane,
    p2: FileBrowserPane,
    other: Seq<char>,
)
    requires
        p0.wf(),
        switched_to(p0, p1, other),
        switched_to(p1, p2, p0.active_id()),
    ensures
        p2.active_id() == p0.active_id(),
        p2.active_state_view() == p0.active_state_view(),
{
    let a = p0.active_id();
    let k0 = p0.workspace_keys();
    let k1 = p1.workspace_keys();
    let n0 = k0.len() as int;
    let pos = p0.active_position();
    lemma_position_of_key_bounds(k0, a, n0);
    lemma_position_of_key_prefix(k0, k1, a, n0);
    lemma_position_of_key_stable(k1, a, n0, k1.len() as int);
    assert(position_of_key(k1, a, k1.len() as int) == pos);
    assert(p2.workspace_keys() == k1);
    assert(p2.workspace_states() == p1.workspace_states());
    assert(p1.workspace_states()[pos] == p0.workspace_states()[pos]);
}

impl FileBrowserPane {
    /// Makes the given workspace the active one, giving it the initial
    /// state the first time it is visited; the states of the other
    /// workspaces are kept.
    pub fn set_active_workspace(&mut self, workspace_id: String)
        requires
            old(self).wf(),
        ensures
            final(self).wf(),
            switched_to(*old(self), *final(self), workspace_id@),
    {
        let ghost old_keys = self.workspace_keys();
        let ghost old_states = self.workspace_states();
        self.active_workspace_id = workspace_id;
        match self.find_workspace(self.active_workspace_id.as_str()) {
            Some(_) => {},
            None => {
                let key = self.active_workspace_id.clone();
                self.workspace_ids.push(key);
                self.states.push(FileBrowserRuntimeState::initial());
                let ghost keys = self.workspace_keys();
                let ghost n = old_keys.len() as int;
                assert(keys =~= old_keys.push(self.active_id()));
                assert(self.workspace_states() =~= old_states.push(initial_state()));
                proof {
                    lemma_position_of_key_prefix(keys, old_keys, self.active_id(), n);
                    assert(keys[n] == self.active_id());
                    assert(position_of_key(keys, self.active_id(), n + 1) == n);
                    assert forall|i: int| 0 <= i < self.workspace_states().len() implies state_ok(
                        #[trigger] self.workspace_states()[i],
                    ) by {
                        if i < n {
                            assert(self.workspace_states()[i] == old_states[i]);
                        }
                    }
                }
            },
        }
    }

    /// Flips the expansion of a directory in the active workspace.
    pub fn toggle_expanded(&mut self, entry_id: ProjectEntryId)
        requires
            old(self).wf(),
        ensures
            stepped(old(self), final(self), toggled(old(self).active_state_view(), entry_id)),
    {
        let ghost old_states = self.workspace_states();
        let i = self.active_index();
        proof {
            assert(state_ok(old_states[i as int]));
            lemma_toggled_ok(old_states[i as int], entry_id);
        }
        let st = &mut self.states[i];
        if is_expanded(entry_id, st.expanded_dir_ids.as_slice()) {
            collapse_dir(entry_id, &mut st.expanded_dir_ids);
        } else {
            expand_dir(entry_id, &mut st.expanded_dir_ids);
        }
        proof {
            let new_states = self.workspace_states();
            assert(new_states =~= old_states.update(i as int, toggled(old_states[i as int], entry_id)));
            assert forall|j: int| 0 <= j < new_states.len() implies state_ok(#[trigger] new_states[j]) by {
                if j != i {
                    assert(new_states[j] == old_states[j]);
                }
            }
        }
    }
}

impl FileBrowserPane {
    /// Selects an entry of the active workspace, clearing the marked
    /// entries, and announces the selection.
    pub fn select_entry(&mut self, entry_id: ProjectEntryId) -> (ev: FileBrowserPaneEvent)
        requires
            old(self).wf(),
        ensures
            stepped(old(self), final(self), select_step(old(self).active_state_view(), entry_id).0),
            Some(ev@) == select_step(old(self).active_state_view(), entry_id).1,
    {
        let ghost old_states = self.workspace_states();
        let i = self.active_index();
        let st = &mut self.states[i];
        st.selection = Some(entry_id);
        st.marked_entries.clear();
        let path = match find_entry(&st.visible_entries, entry_id) {
            Some(p) => Some(st.visible_entries[p].path.clone()),
            None => None,
        };
        proof {
            let new_states = self.workspace_states();
            let sv = selected(old_states[i as int], entry_id);
            assert(new_states[i as int].marked_entries =~= sv.marked_entries);
            assert(new_states =~= old_states.update(i as int, sv));
            assert forall|j: int| 0 <= j < new_states.len() implies state_ok(#[trigger] new_states[j]) by {
                if j != i {
                    assert(new_states[j] == old_states[j]);
                }
            }
        }
        FileBrowserPaneEvent::SelectionChanged(path)
    }

    /// Index of the selected entry among the visible entries of state `i`
    /// (0 when nothing visible is selected).
    fn current_index_of(&self, i: usize) -> (r: usize)
        requires
            i < self.states@.len(),
        ensures
            r as int == current_index(self.states@[i as int]@),
            self.states@[i as int].visible_entries@.len() > 0 ==> r < self.states@[i as int].visible_entries@.len(),
    {
        let st = &self.states[i];
        match st.selection {
            Some(id) => match find_entry(&st.visible_entries, id) {
                Some(p) => p,
                None => 0,
            },
            None => 0,
        }
    }

    /// Moves the selection one row up, wrapping from the first row to the last.
    pub fn move_selection_up(&mut self) -> (ev: Option<FileBrowserPaneEvent>)
        requires
            old(self).wf(),
        ensures
            stepped(old(self), final(self), move_up_step(old(self).active_state_view()).0),
            event_view(ev) == move_up_step(old(self).active_state_view()).1,
    {
        let i = self.active_index();
        let n = self.states[i].visible_entries.len();
        if n == 0 {
            assert(self.workspace_states() =~= self.workspace_states().update(
                i as int,
                self.active_state_view(),
            ));
            return None;
        }
        let cur = self.current_index_of(i);
        let k = if cur == 0 {
            n - 1
        } else {
            cur - 1
        };
        let target = self.states[i].visible_entries[k].id;
        Some(self.select_entry(target))
    }

    /// Moves the selection one row down, wrapping from the last row to the first.
    pub fn move_selection_down(&mut self) -> (ev: Option<FileBrowserPaneEvent>)
        requires
            old(self).wf(),
        ensures
            stepped(old(self), final(self), move_down_step(old(self).active_state_view()).0),
            event_view(ev) == move_down_step(old(self).active_state_view()).1,
    {
        let i = self.active_index();
        let n = self.states[i].visible_entries.len();
        if n == 0 {
            assert(self.workspace_states() =~= self.workspace_states().update(
                i as int,
                self.active_state_view(),
            ));
            return None;
        }
        let cur = self.current_index_of(i);
        let k = if cur >= n - 1 {
            0
        } else {
            cur + 1
        };
        let target = self.states[i].visible_entries[k].id;
        Some(self.select_entry(target))
    }
}

impl FileBrowserPane {
    /// Expands the selected entry: a collapsed directory is expanded, an
    /// expanded one is left alone, and a file is asked to be opened.
    pub fn expand_selected_entry(&mut self) -> (ev: Option<FileBrowserPaneEvent>)
        requires
            old(self).wf(),
        ensures
            stepped(old(self), final(self), expand_selected_step(old(self).active_state_view()).0),
            event_view(ev) == expand_selected_step(old(self).active_state_view()).1,
    {
        let i = self.active_index();
        let ghost unchanged = self.workspace_states() =~= self.workspace_states().update(
            i as int,
            self.active_state_view(),
        );
        assert(unchanged);
        let sel = match self.states[i].selection {
            Some(id) => id,
            None => {
                return None;
            },
        };
        let p = match find_entry(&self.states[i].visible_entries, sel) {
            Some(p) => p,
            None => {
                return None;
            },
        };
        let e = self.states[i].visible_entries[p].duplicate();
        if e.is_dir {
            if is_expanded(e.id, self.states[i].expanded_dir_ids.as_slice()) {
                None
            } else {
                self.toggle_expanded(e.id);
                None
            }
        } else {
            Some(FileBrowserPaneEvent::OpenFile(e.path))
        }
    }

    /// Collapses the selected entry: an expanded directory is collapsed;
    /// otherwise, for a nested entry, the selection moves to its parent
    /// directory (the nearest directory one level up before it).
    pub fn collapse_selected_entry(&mut self) -> (ev: Option<FileBrowserPaneEvent>)
        requires
            old(self).wf(),
        ensures
            stepped(old(self), final(self), collapse_selected_step(old(self).active_state_view()).0),
            event_view(ev) == collapse_selected_step(old(self).active_state_view()).1,
    {
        let i = self.active_index();
        let ghost unchanged = self.workspace_states() =~= self.workspace_states().update(
            i as int,
            self.active_state_view(),
        );
        assert(unchanged);
        let sel = match self.states[i].selection {
            Some(id) => id,
            None => {
                return None;
            },
        };
        let p = match find_entry(&self.states[i].visible_entries, sel) {
            Some(p) => p,
            None => {
                return None;
            },
        };
        let e_id = self.states[i].visible_entries[p].id;
        let e_is_dir = self.states[i].visible_entries[p].is_dir;
        let e_depth = self.states[i].visible_entries[p].depth;
        if e_is_dir && is_expanded(e_id, self.states[i].expanded_dir_ids.as_slice()) {
            self.toggle_expanded(e_id);
            None
        } else if e_depth > 0 {
            match find_last_dir_at_depth(&self.states[i].visible_entries, e_depth - 1, p) {
                Some(q) => {
                    let target = self.states[i].visible_entries[q].id;
                    Some(self.select_entry(target))
                },
                None => None,
            }
        } else {
            None
        }
    }

    /// Handles a key press: `up`/`down` move the selection, `left`
    /// collapses, `right`, `enter` and space expand. Returns the event to
    /// emit and whether the key was consumed.
    pub fn handle_key_down(&mut self, key: &str) -> (r: (Option<FileBrowserPaneEvent>, bool))
        requires
            old(self).wf(),
        ensures
            stepped(old(self), final(self), key_step(old(self).active_state_view(), key@).0),
            event_view(r.0) == key_step(old(self).active_state_view(), key@).1,
            r.1 == key_step(old(self).active_state_view(), key@).2,
    {
        if str_equal(key, "up") {
            (self.move_selection_up(), true)
        } else if str_equal(key, "down") {
            (self.move_selection_down(), true)
        } else if str_equal(key, "left") {
            (self.collapse_selected_entry(), true)
        } else if str_equal(key, "right") || str_equal(key, "enter") || str_equal(key, " ") {
            (self.expand_selected_entry(), true)
        } else {
            let i = self.active_index();
            assert(self.workspace_states() =~= self.workspace_states().update(
                i as int,
                self.active_state_view(),
            ));
            (None, false)
        }
    }

    /// Handles a click on an entry: a directory flips its expansion, then
    /// the entry is selected.
    pub fn handle_entry_click(&mut self, entry_id: ProjectEntryId, is_dir: bool) -> (ev:
        FileBrowserPaneEvent)
        requires
            old(self).wf(),
        ensures
            stepped(old(self), final(self), click_step(old(self).active_state_view(), entry_id, is_dir).0),
            Some(ev@) == click_step(old(self).active_state_view(), entry_id, is_dir).1,
    {
        let ghost st0 = self.active_state_view();
        let ghost states0 = self.workspace_states();
        let ghost pos = self.active_position();
        if is_dir {
            self.toggle_expanded(entry_id);
        }
        let ghost st1 = if is_dir {
            toggled(st0, entry_id)
        } else {
            st0
        };
        assert(self.active_position() == pos);
        assert(self.workspace_states() =~= states0.update(pos, st1));
        assert(self.active_state_view() == st1);
        let ev = self.select_entry(entry_id);
        assert(self.workspace_states() =~= states0.update(pos, select_step(st1, entry_id).0));
        ev
    }

    /// The state of the active workspace.
    pub fn active_state(&self) -> (r: &FileBrowserRuntimeState)
        requires
            self.wf(),
        ensures
            r@ == self.active_state_view(),
    {
        let i = self.active_index();
        &self.states[i]
    }

    /// How a visible entry is drawn in the active workspace: its name, and
    /// whether it is selected, expanded and marked.
    pub fn entry_details(&self, entry: &Entry) -> (r: EntryDetails)
        requires
            self.wf(),
        ensures
            r.id == entry.id,
            r.filename@ == display_name(entry.path@),
            r.depth == entry.depth,
            r.is_dir == entry.is_dir,
            r.is_expanded == self.active_state_view().expanded_dir_ids.contains(entry.id),
            r.is_selected == (self.active_state_view().selection == Some(entry.id)),
            r.is_marked == self.active_state_view().marked_entries.contains(entry.id),
            !r.is_editing,
            r.path@ == entry.path@,
    {
        let st = self.active_state();
        proof {
            assert(state_ok(self.workspace_states()[self.active_position()]));
        }
        let is_selected = match st.selection {
            Some(s) => s == entry.id,
            None => false,
        };
        EntryDetails {
            id: entry.id,
            filename: display_name_of(entry.path.as_str()),
            depth: entry.depth,
            is_dir: entry.is_dir,
            is_expanded: is_expanded(entry.id, st.expanded_dir_ids.as_slice()),
            is_selected,
            is_marked: contains_id(&st.marked_entries, entry.id),
            is_editing: false,
            path: entry.path.clone(),
        }
    }
}

/// No two visible entries share an id.
pub open spec fn distinct_ids(es: Seq<EntryView>) -> bool {
    forall|a: int, b: int| 0 <= a < b < es.len() ==> es[a].id != es[b].id
}

proof fn lemma_position_of_distinct(es: Seq<EntryView>, k: int)
    requires
        distinct_ids(es),
        0 <= k < es.len(),
    ensures
        position_of_entry(es, es[k].id) == k,
{
    lemma_position_in_bounds(es, es[k].id, k);
    assert(position_in(es, es[k].id, k + 1) == k);
    lemma_position_in_stable(es, es[k].id, k + 1, es.len() as int);
}

/// Flipping the expansion of a directory twice gives back the state it
/// started from.
pub proof fn law_toggle_twice_restores(st: RuntimeStateView, id: ProjectEntryId)
    requires
        state_ok(st),
    ensures
        toggled(toggled(st, id), id) == st,
{
    let s = st.expanded_dir_ids;
    if s.contains(id) {
        law_collapse_keeps_order_and_removes(s, id);
        law_collapse_then_expand_restores(s, id);
    } else {
        law_expand_keeps_order_and_adds(s, id);
        law_expand_then_collapse_restores(s, id);
    }
}

/// The keys that move, collapse and expand have different names.
proof fn lemma_key_names_distinct()
    ensures
        "enter"@ != "up"@ && "enter"@ != "down"@ && "enter"@ != "left"@,
        "right"@ != "up"@ && "right"@ != "down"@ && "right"@ != "left"@,
        " "@ != "up"@ && " "@ != "down"@ && " "@ != "left"@,
{
    reveal_strlit("enter");
    reveal_strlit("right");
    reveal_strlit(" ");
    reveal_strlit("up");
    reveal_strlit("down");
    reveal_strlit("left");
    assert("enter"@.len() == 5 && "right"@.len() == 5 && " "@.len() == 1);
    assert("up"@.len() == 2 && "down"@.len() == 4 && "left"@.len() == 4);
}

/// Right, Enter and Space do the same thing, in every state.
pub proof fn law_open_keys_agree(st: RuntimeStateView)
    ensures
        key_step(st, "enter"@) == key_step(st, "right"@),
        key_step(st, " "@) == key_step(st, "right"@),
        key_step(st, "right"@).2,
{
    lemma_key_names_distinct();
}

/// Right, Enter or Space on a selected visible file asks to open that
/// file and changes nothing; the key is consumed.
pub proof fn law_open_key_on_file_opens_it(st: RuntimeStateView, key: Seq<char>)
    requires
        key == "right"@ || key == "enter"@ || key == " "@,
        st.selection is Some,
        position_of_entry(st.visible_entries, st.selection->0) >= 0,
        !st.visible_entries[position_of_entry(st.visible_entries, st.selection->0)].is_dir,
    ensures
        key_step(st, key) == (
            st,
            Some(
                PaneEventView::OpenFile(
                    st.visible_entries[position_of_entry(st.visible_entries, st.selection->0)].path,
                ),
            ),
            true,
        ),
{
    law_open_keys_agree(st);
    lemma_key_names_distinct();
}

/// Right, Enter or Space on a selected visible directory that is collapsed
/// expands it and changes nothing else, emitting no event.
pub proof fn law_open_key_on_collapsed_dir_expands_it(st: RuntimeStateView, key: Seq<char>)
    requires
        key == "right"@ || key == "enter"@ || key == " "@,
        state_ok(st),
        selects_visible_dir(st),
        !st.expanded_dir_ids.contains(selected_dir_id(st)),
    ensures
        key_step(st, key).1 is None,
        key_step(st, key).2,
        key_step(st, key).0.expanded_dir_ids.contains(selected_dir_id(st)),
        forall|y: u64| y != selected_dir_id(st) ==> (key_step(st, key).0.expanded_dir_ids.contains(y)
            <==> st.expanded_dir_ids.contains(y)),
        key_step(st, key).0.selection == st.selection,
        key_step(st, key).0.visible_entries == st.visible_entries,
        key_step(st, key).0.marked_entries == st.marked_entries,
        key_step(st, key).0.scroll_offset == st.scroll_offset,
{
    law_open_keys_agree(st);
    lemma_key_names_distinct();
    law_expand_keeps_order_and_adds(st.expanded_dir_ids, selected_dir_id(st));
}

/// The selected entry is a visible directory.
pub open spec fn selects_visible_dir(st: RuntimeStateView) -> bool {
    &&& st.selection is Some
    &&& position_of_entry(st.visible_entries, st.selection->0) >= 0
    &&& st.visible_entries[position_of_entry(st.visible_entries, st.selection->0)].is_dir
}

/// The directory shown for the selection.
pub open spec fn selected_dir_id(st: RuntimeStateView) -> ProjectEntryId {
    st.visible_entries[position_of_entry(st.visible_entries, st.selection->0)].id
}

/// On a selected directory that is collapsed, expanding it (right, enter,
/// space) and then collapsing it (left) gives back the state it started
/// from, and neither key emits an event.
pub proof fn law_expand_then_collapse_selected_restores(st: RuntimeStateView)
    requires
        state_ok(st),
        selects_visible_dir(st),
        !st.expanded_dir_ids.contains(selected_dir_id(st)),
    ensures
        expand_selected_step(st).1 is None,
        collapse_selected_step(expand_selected_step(st).0).1 is None,
        collapse_selected_step(expand_selected_step(st).0).0 == st,
{
    let id = selected_dir_id(st);
    law_expand_keeps_order_and_adds(st.expanded_dir_ids, id);
    law_toggle_twice_restores(st, id);
}

/// On a selected directory that is expanded, collapsing it (left) and then
/// expanding it again (right, enter, space) gives back the state it started
/// from, and neither key emits an event.
pub proof fn law_collapse_then_expand_selected_restores(st: RuntimeStateView)
    requires
        state_ok(st),
        selects_visible_dir(st),
        st.expanded_dir_ids.contains(selected_dir_id(st)),
    ensures
        collapse_selected_step(st).1 is None,
        expand_selected_step(collapse_selected_step(st).0).1 is None,
        expand_selected_step(collapse_selected_step(st).0).0 == st,
{
    let id = selected_dir_id(st);
    law_collapse_keeps_order_and_removes(st.expanded_dir_ids, id);
    law_toggle_twice_restores(st, id);
}

/// When the selected entry is visible and no two visible entries share an
/// id, moving the selection down and then up selects the same entry again.
pub proof fn law_down_then_up_returns(st: RuntimeStateView)
    requires
        distinct_ids(st.visible_entries),
        st.selection is Some,
        position_of_entry(st.visible_entries, st.selection->0) >= 0,
    ensures
        move_up_step(move_down_step(st).0).0.selection == st.selection,
{
    let es = st.visible_entries;
    let n = es.len() as int;
    let p = position_of_entry(es, st.selection->0);
    lemma_position_in_bounds(es, st.selection->0, n);
    let k = if p >= n - 1 {
        0
    } else {
        p + 1
    };
    let st1 = move_down_step(st).0;
    assert(st1.visible_entries == es);
    lemma_position_of_distinct(es, k);
    assert(current_index(st1) == k);
    lemma_position_of_distinct(es, p);
}

/// When the selected entry is visible and no two visible entries share an
/// id, moving the selection up and then down selects the same entry again.
pub proof fn law_up_then_down_returns(st: RuntimeStateView)
    requires
        distinct_ids(st.visible_entries),
        st.selection is Some,
        position_of_entry(st.visible_entries, st.selection->0) >= 0,
    ensures
        move_down_step(move_up_step(st).0).0.selection == st.selection,
{
    let es = st.visible_entries;
    let n = es.len() as int;
    let p = position_of_entry(es, st.selection->0);
    lemma_position_in_bounds(es, st.selection->0, n);
    let k = if p == 0 {
        n - 1
    } else {
        p - 1
    };
    let st1 = move_up_step(st).0;
    assert(st1.visible_entries == es);
    lemma_position_of_distinct(es, k);
    assert(current_index(st1) == k);
    lemma_position_of_distinct(es, p);
}

} // verus!
