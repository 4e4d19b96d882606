//! Terminal pane rules: tabs per workspace, closing, link targets and
//! key input.

use vstd::prelude::*;
use vstd::string::StringSliceAdditionalSpecFns;

use crate::path::{has_root, joined};
use crate::str_map::StrMap;
use crate::terminal::tab::{opt_view, TerminalId, TerminalTab};
use crate::text::{chars_of, push_char};

verus! {

// ---------------------------------------------------------------------
// Tab index, path suffixes, link targets, key input.
// ---------------------------------------------------------------------

/// The active tab index after the number of tabs changed: `None` when there
/// are no tabs, else the index clamped to the last tab.
pub fn clamp_active_index(active_index: usize, len: usize) -> (r: Option<usize>)
    ensures
        len == 0 ==> r is None,
        len > 0 ==> r == Some(
            if active_index < len {
                active_index
            } else {
                (len - 1) as usize
            },
        ),
{
    if len == 0 {
        None
    } else {
        let last = len - 1;
        Some(
            if active_index < last {
                active_index
            } else {
                last
            },
        )
    }
}

/// Index of the last occurrence of `c` among the first `n` characters, or -1.
pub open spec fn last_index_of(s: Seq<char>, c: char, n: int) -> int
    decreases n,
{
    if n <= 0 {
        -1
    } else if s[n - 1] == c {
        n - 1
    } else {
        last_index_of(s, c, n - 1)
    }
}

/// Every character is an ASCII digit (true of the empty text).
pub open spec fn all_ascii_digits(s: Seq<char>) -> bool {
    forall|i: int| 0 <= i < s.len() ==> 48 <= #[trigger] (s[i] as u32) <= 57
}

/// A path with a trailing `:line` or `:line:column` removed. The text
/// after the last `:` must be all digits (possibly none) to be taken as a
/// line; then, if the text between the two last `:` is all digits too, it
/// is taken as the line and the last part as the column.
pub open spec fn strip_line_col(s: Seq<char>) -> Seq<char> {
    let i = last_index_of(s, ':', s.len() as int);
    if i < 0 {
        s
    } else {
        let head = s.subrange(0, i);
        let tail = s.subrange(i + 1, s.len() as int);
        if !all_ascii_digits(tail) {
            s
        } else {
            let j = last_index_of(head, ':', head.len() as int);
            if j < 0 {
                head
            } else if all_ascii_digits(head.subrange(j + 1, head.len() as int)) {
                head.subrange(0, j)
            } else {
                head
            }
        }
    }
}

proof fn lemma_last_index_of_bounds(s: Seq<char>, c: char, n: int)
    requires
        0 <= n <= s.len(),
    ensures
        -1 <= last_index_of(s, c, n) < n,
        last_index_of(s, c, n) >= 0 ==> s[last_index_of(s, c, n)] == c,
        forall|k: int| last_index_of(s, c, n) < k < n ==> s[k] != c,
    decreases n,
{
    if n > 0 && s[n - 1] != c {
        lemma_last_index_of_bounds(s, c, n - 1);
    }
}

proof fn lemma_last_index_of_prefix(s: Seq<char>, t: Seq<char>, c: char, n: int)
    requires
        0 <= n <= s.len(),
        n <= t.len(),
        forall|k: int| 0 <= k < n ==> s[k] == t[k],
    ensures
        last_index_of(s, c, n) == last_index_of(t, c, n),
    decreases n,
{
    if n > 0 {
        lemma_last_index_of_prefix(s, t, c, n - 1);
    }
}

fn find_last(cs: &Vec<char>, c: char, n: usize) -> (r: Option<usize>)
    requires
        n <= cs@.len(),
    ensures
        match r {
            Some(i) => i as int == last_index_of(cs@, c, n as int) && i < n,
            None => last_index_of(cs@, c, n as int) < 0,
        },
{
    let mut i = n;
    while i > 0
        invariant
            i <= n <= cs@.len(),
            last_index_of(cs@, c, n as int) == last_index_of(cs@, c, i as int),
        decreases i,
    {
        if cs[i - 1] == c {
            return Some(i - 1);
        }
        i = i - 1;
    }
    None
}

fn digits_between(cs: &Vec<char>, from: usize, to: usize) -> (r: bool)
    requires
        from <= to <= cs@.len(),
    ensures
        r == all_ascii_digits(cs@.subrange(from as int, to as int)),
{
    let mut k = from;
    while k < to
        invariant
            from <= k <= to <= cs@.len(),
            forall|m: int| from <= m < k ==> 48 <= #[trigger] (cs@[m] as u32) <= 57,
        decreases to - k,
    {
        let code = cs[k] as u32;
        if code < 48 || code > 57 {
            assert(cs@.subrange(from as int, to as int)[k - from] == cs@[k as int]);
            return false;
        }
        k = k + 1;
    }
    assert forall|i: int| 0 <= i < to - from implies 48 <= #[trigger] (cs@.subrange(
        from as int,
        to as int,
    )[i] as u32) <= 57 by {
        assert(cs@.subrange(from as int, to as int)[i] == cs@[from + i]);
    }
    true
}

/// A path with a trailing `:line` or `:line:column` removed (see
/// [`strip_line_col`]).
pub fn strip_line_col_suffix(path: &str) -> (r: &str)
    ensures
        r@ == strip_line_col(path@),
{
    let cs = chars_of(path);
    let n = cs.len();
    let i = match find_last(&cs, ':', n) {
        Some(i) => i,
        None => {
            return path;
        },
    };
    if !digits_between(&cs, i + 1, n) {
        return path;
    }
    let ghost head = cs@.subrange(0, i as int);
    proof {
        lemma_last_index_of_prefix(head, cs@, ':', i as int);
        assert(cs@.subrange(i + 1, n as int) == path@.subrange(i + 1, path@.len() as int));
    }
    let end = match find_last(&cs, ':', i) {
        Some(j) => {
            proof {
                assert(head.subrange(j + 1, head.len() as int) =~= cs@.subrange(j + 1, i as int));
            }
            if digits_between(&cs, j + 1, i) {
                proof {
                    assert(head.subrange(0, j as int) =~= cs@.subrange(0, j as int));
                }
                j
            } else {
                i
            }
        },
        None => i,
    };
    vstd::string::StrSliceExecFns::substring_char(path, 0, end)
}

/// What a clicked path-like link opens: the path without its line and
/// column suffix, resolved against the terminal's working directory when
/// it is relative and the directory is known.
pub open spec fn open_path(maybe_path: Seq<char>, terminal_dir: Option<Seq<char>>) -> Seq<char> {
    let p = strip_line_col(maybe_path);
    if has_root(p) {
        p
    } else {
        match terminal_dir {
            Some(d) => joined(d, p),
            None => p,
        }
    }
}

fn append_str(s: &mut String, t: &str)
    ensures
        final(s)@ == old(s)@ + t@,
{
    let cs = chars_of(t);
    let ghost start = s@;
    let mut i: usize = 0;
    while i < cs.len()
        invariant
            cs@ == t@,
            i <= cs@.len(),
            s@ == start + cs@.subrange(0, i as int),
        decreases cs@.len() - i,
    {
        push_char(s, cs[i]);
        i = i + 1;
        assert(cs@.subrange(0, i as int) =~= cs@.subrange(0, i - 1).push(cs@[i - 1]));
    }
    assert(cs@.subrange(0, cs@.len() as int) =~= cs@);
}

/// The location a path-like link opens (see [`open_path`]).
pub fn resolve_open_path(maybe_path: &str, terminal_dir: Option<&str>) -> (r: String)
    ensures
        r@ == open_path(maybe_path@, match terminal_dir {
            Some(d) => Some(d@),
            None => None,
        }),
{
    let p = strip_line_col_suffix(maybe_path);
    let pc = chars_of(p);
    let absolute = pc.len() > 0 && pc[0] == '/';
    if absolute {
        return p.to_owned();
    }
    match terminal_dir {
        Some(d) => {
            let dc = chars_of(d);
            let mut out = d.to_owned();
            if dc.len() > 0 && dc[dc.len() - 1] != '/' {
                push_char(&mut out, '/');
            }
            append_str(&mut out, p);
            proof {
                if dc@.len() > 0 && dc@.last() != '/' {
                    assert(out@ =~= d@ + seq!['/'] + p@);
                }
            }
            out
        },
        None => p.to_owned(),
    }
}

/// The bytes a typed key sends to the terminal: the key's text, preceded by
/// ESC when Alt is held, or when the platform key is held and Option is
/// treated as Meta.
pub fn key_input_bytes(key_char: &str, alt: bool, platform: bool, option_as_meta: bool) -> (r: Vec<
    u8,
>)
    ensures
        r@ == if alt || (option_as_meta && platform) {
            seq![0x1bu8] + key_char.spec_bytes()
        } else {
            key_char.spec_bytes()
        },
{
    let bytes = key_char.as_bytes();
    let mut out: Vec<u8> = Vec::new();
    if alt || (option_as_meta && platform) {
        out.push(0x1b);
    }
    let ghost start = out@;
    let mut i: usize = 0;
    while i < bytes.len()
        invariant
            bytes@ == key_char.spec_bytes(),
            i <= bytes@.len(),
            out@ == start + bytes@.subrange(0, i as int),
        decreases bytes@.len() - i,
    {
        out.push(bytes[i]);
        i = i + 1;
        assert(bytes@.subrange(0, i as int) =~= bytes@.subrange(0, i - 1).push(bytes@[i - 1]));
    }
    assert(bytes@.subrange(0, bytes@.len() as int) =~= bytes@);
    out
}

// ---------------------------------------------------------------------
// The pane.
// ---------------------------------------------------------------------

/// A link under the mouse in a terminal.
pub enum NavigationTarget {
    /// A URL.
    Url(String),
    /// Something that looks like a path, with the terminal's working
    /// directory when known.
    PathLike { maybe_path: String, terminal_dir: Option<String> },
}

/// The location a link opens: the URL itself, or the resolved path.
pub fn open_target_location(target: &NavigationTarget) -> (r: String)
    ensures
        match target {
            NavigationTarget::Url(u) => r@ == u@,
            NavigationTarget::PathLike { maybe_path, terminal_dir } => r@ == open_path(
                maybe_path@,
                opt_view(*terminal_dir),
            ),
        },
{
    match target {
        NavigationTarget::Url(u) => u.clone(),
        NavigationTarget::PathLike { maybe_path, terminal_dir } => {
            let dir: Option<&str> = match terminal_dir {
                Some(d) => Some(d.as_str()),
                None => None,
            };
            resolve_open_path(maybe_path.as_str(), dir)
        },
    }
}

/// Events emitted by the terminal pane.
#[derive(Clone, Copy, Debug, PartialEq, Eq, Structural)]
pub enum TerminalPaneEvent {
    /// A terminal's title changed.
    TitleChanged,
    /// The active workspace has no terminal left.
    Close,
}

/// A terminal session to start in a workspace.
pub struct SpawnRequest {
    pub workspace_id: String,
    pub working_directory: Option<String>,
}

fn clone_opt(s: &Option<String>) -> (r: Option<String>)
    ensures
        opt_view(r) == opt_view(*s),
{
    match s {
        Some(t) => Some(t.clone()),
        None => None,
    }
}

/// Terminal pane: the terminal tabs of every workspace, the active tab of
/// each, their working directories, and the link under the mouse.
pub struct TerminalPane {
    tabs_by_workspace: StrMap<Vec<TerminalTab>>,
    active_workspace_id: String,
    active_tab_by_workspace: StrMap<usize>,
    working_directory_by_workspace: StrMap<Option<String>>,
    hovered_url: Option<String>,
}

/// Switching the terminal pane to another workspace and back shows the
/// same terminal tab again, and no workspace's tabs change on the way.
pub proof fn law_switch_back_restores_terminals(
    p0: TerminalPane,
    p1: TerminalPane,
    p2: TerminalPane,
    other: Seq<char>,
    d1: Option<Seq<char>>,
    d2: Option<Seq<char>>,
)
    requires
        p0.wf(),
        TerminalPane::switched_to(p0, p1, other, d1),
        TerminalPane::switched_to(p1, p2, p0.active_id(), d2),
    ensures
        p2.active_id() == p0.active_id(),
        p2.shown_tab() == p0.shown_tab(),
        forall|w: Seq<char>| #[trigger] p2.tabs_of(w) == p0.tabs_of(w),
{
    if p0.tabs().contains_key(p0.active_id()) {
        TerminalPane::lemma_wf_tabs_have_index(p0, p0.active_id());
    }
}

/// Index of the first tab among the first `n` showing the terminal, or -1.
pub open spec fn tab_position(tabs: Seq<TerminalTab>, t: TerminalId, n: int) -> int
    decreases n,
{
    if n <= 0 {
        -1
    } else if tab_position(tabs, t, n - 1) >= 0 {
        tab_position(tabs, t, n - 1)
    } else if tabs[n - 1].session() == t {
        n - 1
    } else {
        -1
    }
}

/// Index of the first tab showing the terminal, or -1.
pub open spec fn first_tab_of(tabs: Seq<TerminalTab>, t: TerminalId) -> int {
    tab_position(tabs, t, tabs.len() as int)
}

impl TerminalPane {
    /// Id of the active workspace.
    pub closed spec fn active_id(&self) -> Seq<char> {
        self.active_workspace_id@
    }

    /// Tabs of each workspace that has an entry.
    pub closed spec fn tabs(&self) -> Map<Seq<char>, Seq<TerminalTab>> {
        self.tabs_by_workspace.map().map_values(|v: Vec<TerminalTab>| v@)
    }

    /// Active tab index of each workspace that has one.
    pub closed spec fn active_tabs(&self) -> Map<Seq<char>, usize> {
        self.active_tab_by_workspace.map()
    }

    /// Working directory of each workspace that has one recorded.
    pub closed spec fn dirs(&self) -> Map<Seq<char>, Option<Seq<char>>> {
        self.working_directory_by_workspace.map().map_values(|d: Option<String>| opt_view(d))
    }

    /// The URL under the mouse, if any.
    pub closed spec fn hovered(&self) -> Option<Seq<char>> {
        opt_view(self.hovered_url)
    }

    /// The three maps are well formed.
    pub closed spec fn wf(&self) -> bool {
        &&& self.tabs_by_workspace.wf()
        &&& self.active_tab_by_workspace.wf()
        &&& self.working_directory_by_workspace.wf()
        &&& self.tabs().dom().subset_of(self.active_tabs().dom())
    }

    /// Every workspace with tabs has an active index.
    pub proof fn lemma_wf_tabs_have_index(p: Self, w: Seq<char>)
        requires
            p.wf(),
            p.tabs().contains_key(w),
        ensures
            p.active_tabs().contains_key(w),
    {
    }

    /// Tabs of a workspace (none when it has no entry).
    pub open spec fn tabs_of(&self, w: Seq<char>) -> Seq<TerminalTab> {
        if self.tabs().contains_key(w) {
            self.tabs()[w]
        } else {
            Seq::empty()
        }
    }

    /// Active tab index of a workspace (0 when it has none).
    pub open spec fn active_index_of(&self, w: Seq<char>) -> usize {
        if self.active_tabs().contains_key(w) {
            self.active_tabs()[w]
        } else {
            0
        }
    }

    /// The tab shown in the active workspace, if any.
    pub open spec fn shown_tab(&self) -> Option<TerminalTab> {
        let w = self.active_id();
        if self.tabs().contains_key(w) && self.active_tabs().contains_key(w)
            && self.active_tabs()[w] < self.tabs()[w].len() {
            Some(self.tabs()[w][self.active_tabs()[w] as int])
        } else {
            None
        }
    }

    /// A pane for a workspace, which asks for its first terminal.
    pub fn new(workspace_id: String, working_directory: Option<String>) -> (r: (Self, SpawnRequest))
        ensures
            r.0.wf(),
            r.0.active_id() == workspace_id@,
            r.0.tabs() == Map::<Seq<char>, Seq<TerminalTab>>::empty(),
            r.0.active_tabs() == Map::<Seq<char>, usize>::empty(),
            r.0.dirs() == Map::<Seq<char>, Option<Seq<char>>>::empty().insert(
                workspace_id@,
                opt_view(working_directory),
            ),
            r.0.hovered() is None,
            r.1.workspace_id@ == workspace_id@,
            opt_view(r.1.working_directory) == opt_view(working_directory),
    {
        let mut pane = TerminalPane {
            tabs_by_workspace: StrMap::new(),
            active_workspace_id: workspace_id.clone(),
            active_tab_by_workspace: StrMap::new(),
            working_directory_by_workspace: StrMap::new(),
            hovered_url: None,
        };
        assert(pane.tabs() =~= Map::<Seq<char>, Seq<TerminalTab>>::empty());
        assert(pane.dirs() =~= Map::<Seq<char>, Option<Seq<char>>>::empty());
        let req = pane.spawn_terminal(workspace_id, working_directory);
        (pane, req)
    }

    /// Records the working directory of a workspace and asks for a new
    /// terminal there.
    pub fn spawn_terminal(&mut self, workspace_id: String, working_directory: Option<String>) -> (r:
        SpawnRequest)
        requires
            old(self).wf(),
        ensures
            final(self).wf(),
            final(self).dirs() == old(self).dirs().insert(workspace_id@, opt_view(working_directory)),
            final(self).tabs() == old(self).tabs(),
            final(self).active_tabs() == old(self).active_tabs(),
            final(self).active_id() == old(self).active_id(),
            final(self).hovered() == old(self).hovered(),
            r.workspace_id@ == workspace_id@,
            opt_view(r.working_directory) == opt_view(working_directory),
    {
        let ghost old_dirs = self.working_directory_by_workspace.map();
        let wd = clone_opt(&working_directory);
        self.working_directory_by_workspace.insert(workspace_id.clone(), wd);
        assert(self.dirs() =~= old(self).dirs().insert(workspace_id@, opt_view(working_directory)));
        SpawnRequest { workspace_id, working_directory }
    }

    /// `new` is `old` with a tab for terminal `t` (working directory `d`, no
    /// custom title) added at the end of workspace `w`'s tabs and made the
    /// active one there; nothing else changes.
    pub open spec fn spawned_into(old: Self, new: Self, w: Seq<char>, t: TerminalId, d: Option<Seq<char>>) -> bool {
        let n = old.tabs_of(w).len();
        &&& new.tabs().contains_key(w)
        &&& new.tabs_of(w).len() == n + 1
        &&& new.tabs_of(w).subrange(0, n as int) == old.tabs_of(w)
        &&& new.tabs_of(w).last().session() == t
        &&& new.tabs_of(w).last().dir() == d
        &&& new.tabs_of(w).last().custom() is None
        &&& forall|v: Seq<char>| v != w ==> #[trigger] new.tabs_of(v) == old.tabs_of(v)
        &&& new.tabs().dom() == old.tabs().dom().insert(w)
        &&& new.active_tabs() == old.active_tabs().insert(w, n as usize)
        &&& new.dirs() == old.dirs()
        &&& new.active_id() == old.active_id()
        &&& new.hovered() == old.hovered()
    }

    /// A terminal asked for has started: it gets a new tab at the end of its
    /// workspace's tabs, and that tab becomes the active one.
    pub fn terminal_spawned(
        &mut self,
        workspace_id: String,
        terminal: TerminalId,
        working_directory: Option<String>,
    )
        requires
            old(self).wf(),
        ensures
            final(self).wf(),
            Self::spawned_into(*old(self), *final(self), workspace_id@, terminal, opt_view(working_directory)),
            workspace_id@ == final(self).active_id() ==> final(self).shown_tab() == Some(
                final(self).tabs_of(workspace_id@).last(),
            ),
    {
        let tab = TerminalTab::new(terminal, working_directory);
        let ghost old_tabs_map = self.tabs_by_workspace.map();
        let ghost key = workspace_id@;
        let new_len: usize;
        match self.tabs_by_workspace.find(workspace_id.as_str()) {
            Some(i) => {
                let ghost before = self.tabs_by_workspace;
                proof {
                    self.tabs_by_workspace.lemma_value_at(i as int);
                }
                let tabs = self.tabs_by_workspace.value_at_mut(i);
                tabs.push(tab);
                new_len = tabs.len();
                proof {
                    StrMap::lemma_map_after_update(&before, &self.tabs_by_workspace, i as int);
                }
            },
            None => {
                let mut v: Vec<TerminalTab> = Vec::new();
                v.push(tab);
                new_len = 1;
                self.tabs_by_workspace.insert(workspace_id.clone(), v);
            },
        }
        assert(self.tabs() =~= old(self).tabs().insert(key, self.tabs_by_workspace.map()[key]@));
        self.active_tab_by_workspace.insert(workspace_id, new_len - 1);
        proof {
            let n = old(self).tabs_of(key).len() as int;
            assert(self.tabs_of(key).subrange(0, n) =~= old(self).tabs_of(key));
            assert(self.tabs().dom() =~= old(self).tabs().dom().insert(key));
        }
    }

    /// `new` is `old` with workspace `w` made active and its working
    /// directory recorded as `d`; a workspace seen for the first time gets
    /// an empty list of tabs and active index 0, the others keep theirs.
    pub open spec fn switched_to(old: Self, new: Self, w: Seq<char>, d: Option<Seq<char>>) -> bool {
        &&& new.active_id() == w
        &&& new.dirs() == old.dirs().insert(w, d)
        &&& new.tabs() == if old.tabs().contains_key(w) {
            old.tabs()
        } else {
            old.tabs().insert(w, Seq::empty())
        }
        &&& new.active_tabs() == if old.active_tabs().contains_key(w) {
            old.active_tabs()
        } else {
            old.active_tabs().insert(w, 0)
        }
        &&& new.hovered() == old.hovered()
    }

    /// Makes a workspace active, recording its working directory. A
    /// workspace without tabs asks for its first terminal.
    pub fn set_active_workspace(&mut self, workspace_id: String, working_directory: Option<String>) -> (r:
        Option<SpawnRequest>)
        requires
            old(self).wf(),
        ensures
            final(self).wf(),
            Self::switched_to(*old(self), *final(self), workspace_id@, opt_view(working_directory)),
            (r is Some) == (old(self).tabs_of(workspace_id@).len() == 0),
            r matches Some(req) ==> req.workspace_id@ == workspace_id@ && opt_view(
                req.working_directory,
            ) == opt_view(working_directory),
    {
        self.active_workspace_id = workspace_id.clone();
        let wd = clone_opt(&working_directory);
        self.working_directory_by_workspace.insert(workspace_id.clone(), wd);
        assert(self.dirs() =~= old(self).dirs().insert(workspace_id@, opt_view(working_directory)));
        if !self.tabs_by_workspace.contains_key(workspace_id.as_str()) {
            self.tabs_by_workspace.insert(workspace_id.clone(), Vec::new());
            assert(self.tabs() =~= old(self).tabs().insert(workspace_id@, Seq::empty()));
        }
        if !self.active_tab_by_workspace.contains_key(workspace_id.as_str()) {
            self.active_tab_by_workspace.insert(workspace_id.clone(), 0);
        }
        let is_empty = match self.tabs_by_workspace.get(workspace_id.as_str()) {
            Some(tabs) => tabs.len() == 0,
            None => false,
        };
        if is_empty {
            let ghost w = workspace_id@;
            let ghost d = opt_view(working_directory);
            let req = self.spawn_terminal(workspace_id, working_directory);
            assert(self.dirs() =~= old(self).dirs().insert(w, d));
            Some(req)
        } else {
            None
        }
    }

    /// The tab shown in the active workspace.
    pub fn active_tab(&self) -> (r: Option<&TerminalTab>)
        requires
            self.wf(),
        ensures
            match r {
                Some(t) => self.shown_tab() == Some(*t),
                None => self.shown_tab() is None,
            },
    {
        let tabs = match self.tabs_by_workspace.get(self.active_workspace_id.as_str()) {
            Some(t) => t,
            None => {
                return None;
            },
        };
        let index = match self.active_tab_by_workspace.get(self.active_workspace_id.as_str()) {
            Some(i) => *i,
            None => {
                return None;
            },
        };
        if index < tabs.len() {
            Some(&tabs[index])
        } else {
            None
        }
    }

    /// The tab shown in the active workspace, for modification; whatever is
    /// written through it lands in that tab.
    pub fn active_tab_mut(&mut self) -> (r: Option<&mut TerminalTab>)
        requires
            old(self).wf(),
        ensures
            final(self).wf(),
            final(self).active_id() == old(self).active_id(),
            final(self).active_tabs() == old(self).active_tabs(),
            final(self).dirs() == old(self).dirs(),
            final(self).hovered() == old(self).hovered(),
            match r {
                Some(t) => {
                    &&& old(self).shown_tab() == Some(*t)
                    &&& final(self).tabs() == old(self).tabs().insert(
                        old(self).active_id(),
                        old(self).tabs_of(old(self).active_id()).update(
                            old(self).active_index_of(old(self).active_id()) as int,
                            *final(t),
                        ),
                    )
                },
                None => {
                    &&& old(self).shown_tab() is None
                    &&& final(self).tabs() == old(self).tabs()
                },
            },
    {
        let index = match self.active_tab_by_workspace.get(self.active_workspace_id.as_str()) {
            Some(i) => *i,
            None => {
                return None;
            },
        };
        match self.tabs_by_workspace.find(self.active_workspace_id.as_str()) {
            Some(i) => {
                proof {
                    self.tabs_by_workspace.lemma_value_at(i as int);
                    StrMap::lemma_map_after_any_update(&self.tabs_by_workspace, i as int);
                }
                let tabs = self.tabs_by_workspace.value_at_mut(i);
                if index < tabs.len() {
                    Some(&mut tabs[index])
                } else {
                    None
                }
            },
            None => None,
        }
    }

    /// The tabs of the active workspace.
    pub fn active_workspace_tabs(&self) -> (r: Option<&Vec<TerminalTab>>)
        requires
            self.wf(),
        ensures
            match r {
                Some(t) => self.tabs().contains_key(self.active_id()) && t@ == self.tabs()[self.active_id()],
                None => !self.tabs().contains_key(self.active_id()),
            },
    {
        self.tabs_by_workspace.get(self.active_workspace_id.as_str())
    }

    /// Active tab index of the active workspace (0 when none is recorded).
    pub fn active_tab_index(&self) -> (r: usize)
        requires
            self.wf(),
        ensures
            r == self.active_index_of(self.active_id()),
    {
        match self.active_tab_by_workspace.get(self.active_workspace_id.as_str()) {
            Some(i) => *i,
            None => 0,
        }
    }

    /// Makes a tab of the active workspace the active one; indices past
    /// the last tab are ignored.
    pub fn switch_tab(&mut self, index: usize)
        requires
            old(self).wf(),
        ensures
            final(self).wf(),
            final(self).active_tabs() == if old(self).tabs().contains_key(old(self).active_id())
                && index < old(self).tabs()[old(self).active_id()].len() {
                old(self).active_tabs().insert(old(self).active_id(), index)
            } else {
                old(self).active_tabs()
            },
            final(self).tabs() == old(self).tabs(),
            final(self).dirs() == old(self).dirs(),
            final(self).active_id() == old(self).active_id(),
            final(self).hovered() == old(self).hovered(),
    {
        let len = match self.tabs_by_workspace.get(self.active_workspace_id.as_str()) {
            Some(tabs) => tabs.len(),
            None => {
                return ;
            },
        };
        if index < len {
            let key = self.active_workspace_id.clone();
            self.active_tab_by_workspace.insert(key, index);
        }
    }

    /// The URL under the mouse.
    pub fn hovered_url(&self) -> (r: Option<&String>)
        ensures
            match r {
                Some(u) => self.hovered() == Some(u@),
                None => self.hovered() is None,
            },
    {
        match &self.hovered_url {
            Some(u) => Some(u),
            None => None,
        }
    }

    /// Records the link now under the mouse: a URL is remembered, a
    /// path-like link or nothing clears it.
    pub fn set_navigation_target(&mut self, target: Option<&NavigationTarget>)
        ensures
            final(self).hovered() == match target {
                Some(NavigationTarget::Url(u)) => Some(u@),
                _ => None,
            },
            final(self).wf() == old(self).wf(),
            final(self).tabs() == old(self).tabs(),
            final(self).active_tabs() == old(self).active_tabs(),
            final(self).dirs() == old(self).dirs(),
            final(self).active_id() == old(self).active_id(),
    {
        self.hovered_url = match target {
            Some(NavigationTarget::Url(u)) => Some(u.clone()),
            _ => None,
        };
    }

    /// The mouse moved: without the link modifier held, a remembered URL is
    /// forgotten. Returns whether it was.
    pub fn mouse_moved(&mut self, secondary_held: bool) -> (r: bool)
        ensures
            r == (!secondary_held && old(self).hovered() is Some),
            final(self).hovered() == if r {
                None
            } else {
                old(self).hovered()
            },
            final(self).wf() == old(self).wf(),
            final(self).tabs() == old(self).tabs(),
            final(self).active_tabs() == old(self).active_tabs(),
            final(self).dirs() == old(self).dirs(),
            final(self).active_id() == old(self).active_id(),
    {
        if !secondary_held && self.hovered_url.is_some() {
            self.hovered_url = None;
            true
        } else {
            false
        }
    }

    /// Asks for a new terminal in the active workspace, in its recorded
    /// working directory (none if not recorded).
    pub fn new_tab_request(&mut self) -> (r: SpawnRequest)
        requires
            old(self).wf(),
        ensures
            final(self).wf(),
            r.workspace_id@ == old(self).active_id(),
            opt_view(r.working_directory) == if old(self).dirs().contains_key(old(self).active_id()) {
                old(self).dirs()[old(self).active_id()]
            } else {
                None
            },
            final(self).dirs() == old(self).dirs().insert(old(self).active_id(), opt_view(r.working_directory)),
            final(self).tabs() == old(self).tabs(),
            final(self).active_tabs() == old(self).active_tabs(),
            final(self).active_id() == old(self).active_id(),
            final(self).hovered() == old(self).hovered(),
    {
        let workspace_id = self.active_workspace_id.clone();
        let wd = match self.working_directory_by_workspace.get(workspace_id.as_str()) {
            Some(d) => clone_opt(d),
            None => None,
        };
        self.spawn_terminal(workspace_id, wd)
    }
}

fn find_tab(tabs: &Vec<TerminalTab>, t: TerminalId) -> (r: Option<usize>)
    ensures
        match r {
            Some(p) => p as int == first_tab_of(tabs@, t) && p < tabs@.len(),
            None => first_tab_of(tabs@, t) < 0,
        },
{
    let mut i: usize = 0;
    while i < tabs.len()
        invariant
            i <= tabs@.len(),
            tab_position(tabs@, t, i as int) < 0,
        decreases tabs@.len() - i,
    {
        if tabs[i].matches_terminal(t) {
            assert(tab_position(tabs@, t, i + 1) == i);
            proof {
                lemma_tab_position_stable(tabs@, t, i + 1, tabs@.len() as int);
            }
            return Some(i);
        }
        i = i + 1;
    }
    None
}

proof fn lemma_tab_position_bounds(tabs: Seq<TerminalTab>, t: TerminalId, n: int)
    requires
        0 <= n,
    ensures
        -1 <= tab_position(tabs, t, n) < n,
    decreases n,
{
    if n > 0 {
        lemma_tab_position_bounds(tabs, t, n - 1);
    }
}

proof fn lemma_tab_position_stable(tabs: Seq<TerminalTab>, t: TerminalId, m: int, n: int)
    requires
        0 <= m <= n,
        tab_position(tabs, t, m) >= 0,
    ensures
        tab_position(tabs, t, n) == tab_position(tabs, t, m),
    decreases n - m,
{
    if n > m {
        lemma_tab_position_stable(tabs, t, m, n - 1);
    }
}

/// The active index of a workspace after one of its tabs closed, leaving
/// `len` tabs: clamped to the last tab, or kept when no tab is left.
pub open spec fn index_after_close(index: usize, len: nat) -> usize {
    if len == 0 {
        index
    } else if index < len {
        index
    } else {
        (len - 1) as usize
    }
}

/// After a tab closes, the active index of its workspace points at an
/// existing tab whenever tabs are left.
pub proof fn law_close_keeps_active_tab_in_range(index: usize, len: nat)
    ensures
        len > 0 ==> index_after_close(index, len) < len,
{
}

/// Closing a tab keeps the active index of its workspace where it was
/// whenever that index still names a tab; only an index past the new last
/// tab moves, to the last tab. When the closed tab comes after the active
/// one, the same tab stays shown.
pub proof fn law_close_keeps_active_tab(
    p1: TerminalPane,
    p2: TerminalPane,
    t: TerminalId,
    w: Seq<char>,
    emitted_close: bool,
)
    requires
        TerminalPane::closed_in(&p1, &p2, t, w, emitted_close),
    ensures
        p2.tabs_of(w).len() + 1 == p1.tabs_of(w).len(),
        p1.active_index_of(w) < p2.tabs_of(w).len() ==> p2.active_index_of(w) == p1.active_index_of(w),
        p1.active_index_of(w) >= p2.tabs_of(w).len() > 0 ==> p2.active_index_of(w) == p2.tabs_of(w).len() - 1,
        p1.active_index_of(w) < first_tab_of(p1.tabs_of(w), t) ==> {
            &&& p2.active_index_of(w) == p1.active_index_of(w)
            &&& p2.tabs_of(w)[p2.active_index_of(w) as int] == p1.tabs_of(w)[p1.active_index_of(w) as int]
        },
{
    let tabs = p1.tabs_of(w);
    let pos = first_tab_of(tabs, t);
    lemma_tab_position_bounds(tabs, t, tabs.len() as int);
    assert(p2.tabs_of(w) == tabs.remove(pos));
    assert(p2.active_tabs().contains_key(w));
}

impl TerminalPane {
    /// Some workspace has a tab showing the terminal.
    pub open spec fn shows_terminal(&self, t: TerminalId) -> bool {
        exists|w: Seq<char>| #[trigger] self.tabs().contains_key(w) && first_tab_of(self.tabs()[w], t) >= 0
    }

    /// `new` is `old` with the first tab of workspace `w` that shows the
    /// terminal closed; `close` says whether that emptied the active workspace.
    pub open spec fn closed_in(old: &Self, new: &Self, t: TerminalId, w: Seq<char>, close: bool) -> bool {
        let tabs = old.tabs()[w];
        let p = first_tab_of(tabs, t);
        let rest = tabs.remove(p);
        &&& old.tabs().contains_key(w)
        &&& p >= 0
        &&& new.tabs() == old.tabs().insert(w, rest)
        &&& new.active_tabs() == old.active_tabs().insert(
            w,
            index_after_close(old.active_index_of(w), rest.len()),
        )
        &&& close == (rest.len() == 0 && w == old.active_id())
    }

    /// Closes the tab showing a terminal (when several workspaces show it,
    /// one of them) and clamps that workspace's active index; emits `Close`
    /// when the active workspace is left without tabs.
    pub fn close_terminal_by_id(&mut self, terminal: TerminalId) -> (ev: Option<TerminalPaneEvent>)
        requires
            old(self).wf(),
        ensures
            final(self).wf(),
            final(self).dirs() == old(self).dirs(),
            final(self).active_id() == old(self).active_id(),
            final(self).hovered() == old(self).hovered(),
            ev is Some ==> ev == Some(TerminalPaneEvent::Close),
            !old(self).shows_terminal(terminal) ==> final(self).tabs() == old(self).tabs()
                && final(self).active_tabs() == old(self).active_tabs() && ev is None,
            old(self).shows_terminal(terminal) ==> exists|w: Seq<char>|
                #[trigger] Self::closed_in(old(self), final(self), terminal, w, ev is Some),
    {
        let n = self.tabs_by_workspace.len();
        let mut w: usize = 0;
        let mut found: Option<(usize, usize)> = None;
        while w < n
            invariant
                self.wf(),
                n == self.tabs_by_workspace.key_seq().len(),
                w <= n,
                forall|j: int| 0 <= j < w ==> first_tab_of(#[trigger] self.tabs_by_workspace.val_seq()[j]@, terminal) < 0,
                found matches Some(fp) ==> fp.0 < n && fp.1 as int == first_tab_of(self.tabs_by_workspace.val_seq()[fp.0 as int]@, terminal)
                    && fp.1 < self.tabs_by_workspace.val_seq()[fp.0 as int]@.len(),
            ensures
                found is None ==> forall|j: int| 0 <= j < n ==> first_tab_of(#[trigger] self.tabs_by_workspace.val_seq()[j]@, terminal) < 0,
                found matches Some(fp) ==> fp.0 < n && fp.1 as int == first_tab_of(self.tabs_by_workspace.val_seq()[fp.0 as int]@, terminal)
                    && fp.1 < self.tabs_by_workspace.val_seq()[fp.0 as int]@.len(),
            decreases n - w,
        {
            match find_tab(self.tabs_by_workspace.value_at(w), terminal) {
                Some(p) => {
                    found = Some((w, p));
                    break;
                },
                None => {},
            }
            w = w + 1;
        }
        match found {
            None => {
                proof {
                    if self.shows_terminal(terminal) {
                        let k = choose|k: Seq<char>| #[trigger] self.tabs().contains_key(k) && first_tab_of(self.tabs()[k], terminal) >= 0;
                        let j = self.tabs_by_workspace.key_seq().index_of(k);
                        self.tabs_by_workspace.lemma_value_at(j);
                        assert(first_tab_of(self.tabs_by_workspace.val_seq()[j]@, terminal) < 0);
                    }
                }
                None
            },
            Some((wi, p)) => {
                let key = self.tabs_by_workspace.key_at(wi).clone();
                let ghost before = self.tabs_by_workspace;
                proof {
                    before.lemma_value_at(wi as int);
                }
                let tabs = self.tabs_by_workspace.value_at_mut(wi);
                tabs.remove(p);
                let len = tabs.len();
                proof {
                    StrMap::lemma_map_after_update(&before, &self.tabs_by_workspace, wi as int);
                    assert(self.tabs() =~= old(self).tabs().insert(key@, self.tabs_by_workspace.val_seq()[wi as int]@));
                }
                let index = match self.active_tab_by_workspace.get(key.as_str()) {
                    Some(i) => *i,
                    None => 0,
                };
                let new_index = match clamp_active_index(index, len) {
                    Some(x) => x,
                    None => index,
                };
                let close = len == 0 && crate::text::str_equal(key.as_str(), self.active_workspace_id.as_str());
                self.active_tab_by_workspace.insert(key, new_index);
                let ev = if close {
                    Some(TerminalPaneEvent::Close)
                } else {
                    None
                };
                assert(Self::closed_in(old(self), self, terminal, key@, ev is Some));
                ev
            },
        }
    }

    /// Closes the tab shown in the active workspace, if any (see
    /// `close_terminal_by_id`).
    pub fn close_active_tab(&mut self) -> (ev: Option<TerminalPaneEvent>)
        requires
            old(self).wf(),
        ensures
            final(self).wf(),
            final(self).dirs() == old(self).dirs(),
            final(self).active_id() == old(self).active_id(),
            final(self).hovered() == old(self).hovered(),
            ev is Some ==> ev == Some(TerminalPaneEvent::Close),
            old(self).shown_tab() is None ==> final(self).tabs() == old(self).tabs()
                && final(self).active_tabs() == old(self).active_tabs() && ev is None,
            old(self).shown_tab() matches Some(tab) ==> exists|w: Seq<char>|
                #[trigger] Self::closed_in(old(self), final(self), tab.session(), w, ev is Some),
    {
        let terminal = match self.active_tab() {
            Some(tab) => tab.terminal(),
            None => {
                return None;
            },
        };
        proof {
            let w = self.active_id();
            let tabs = self.tabs()[w];
            let i = self.active_tabs()[w] as int;
            assert(tabs[i].session() == terminal);
            lemma_tab_position_found(tabs, terminal, i);
            assert(self.tabs().contains_key(w) && first_tab_of(self.tabs()[w], terminal) >= 0);
            assert(self.shown_tab()->0.session() == terminal);
        }
        let ev = self.close_terminal_by_id(terminal);
        assert(exists|w: Seq<char>| #[trigger] Self::closed_in(old(self), self, terminal, w, ev is Some));
        ev
    }
}

proof fn lemma_tab_position_found(tabs: Seq<TerminalTab>, t: TerminalId, i: int)
    requires
        0 <= i < tabs.len(),
        tabs[i].session() == t,
    ensures
        first_tab_of(tabs, t) >= 0,
{
    lemma_tab_position_found_upto(tabs, t, i, tabs.len() as int);
}

proof fn lemma_tab_position_found_upto(tabs: Seq<TerminalTab>, t: TerminalId, i: int, n: int)
    requires
        0 <= i < n <= tabs.len(),
        tabs[i].session() == t,
    ensures
        tab_position(tabs, t, n) >= 0,
    decreases n,
{
    if n - 1 > i {
        lemma_tab_position_found_upto(tabs, t, i, n - 1);
    }
}

proof fn lemma_tab_position_prefix(a: Seq<TerminalTab>, b: Seq<TerminalTab>, t: TerminalId, n: int)
    requires
        0 <= n <= a.len(),
        n <= b.len(),
        forall|j: int| 0 <= j < n ==> a[j] == b[j],
    ensures
        tab_position(a, t, n) == tab_position(b, t, n),
    decreases n,
{
    if n > 0 {
        lemma_tab_position_prefix(a, b, t, n - 1);
    }
}

/// Closing a terminal that was just started, and that no tab showed
/// before, gives every workspace back the tabs it had.
pub proof fn law_close_undoes_spawn(
    p0: TerminalPane,
    p1: TerminalPane,
    p2: TerminalPane,
    w: Seq<char>,
    t: TerminalId,
    d: Option<Seq<char>>,
    emitted_close: bool,
)
    requires
        p0.wf(),
        !p0.shows_terminal(t),
        TerminalPane::spawned_into(p0, p1, w, t, d),
        p1.shows_terminal(t) ==> exists|v: Seq<char>|
            #[trigger] TerminalPane::closed_in(&p1, &p2, t, v, emitted_close),
    ensures
        forall|v: Seq<char>| #[trigger] p2.tabs_of(v) == p0.tabs_of(v),
{
    let s0 = p0.tabs_of(w);
    let s1 = p1.tabs_of(w);
    let n = s0.len() as int;
    assert(s1.subrange(0, n) == s0);
    // The new tab is the first of workspace `w` that shows the terminal.
    assert(first_tab_of(s0, t) < 0) by {
        if p0.tabs().contains_key(w) {
            assert(!(p0.tabs().contains_key(w) && first_tab_of(p0.tabs()[w], t) >= 0));
        } else {
            assert(s0.len() == 0);
        }
    }
    lemma_tab_position_prefix(s0, s1, t, n);
    assert(first_tab_of(s1, t) == n);
    assert(p1.tabs().contains_key(w) && first_tab_of(p1.tabs()[w], t) >= 0);
    assert(p1.shows_terminal(t));
    let v = choose|v: Seq<char>| #[trigger] TerminalPane::closed_in(&p1, &p2, t, v, emitted_close);
    // No other workspace shows it, so the closed tab is that one.
    if v != w {
        assert(p1.tabs_of(v) == p0.tabs_of(v));
        assert(p0.tabs().contains_key(v));
        assert(p0.tabs().contains_key(v) && first_tab_of(p0.tabs()[v], t) >= 0);
        assert(false);
    }
    assert(s1.remove(n) =~= s0);
    assert forall|u: Seq<char>| #[trigger] p2.tabs_of(u) == p0.tabs_of(u) by {
        if u != w {
            assert(p1.tabs_of(u) == p0.tabs_of(u));
        }
    }
}

/// What a terminal session reports to its pane.
pub enum TerminalEvent {
    TitleChanged,
    BreadcrumbsChanged,
    /// The session ended.
    CloseTerminal,
    /// New output to draw.
    Wakeup,
    Bell,
    /// A link was activated.
    Open(NavigationTarget),
    /// The link under the mouse changed.
    NewNavigationTarget(Option<NavigationTarget>),
    /// Anything else.
    Other,
}

impl TerminalPane {
    /// Reacts to an event of a terminal: title changes are passed on, an
    /// ended session closes its tab, an activated link yields the location
    /// to open, and the link under the mouse is remembered. Returns the
    /// event the pane emits and the location to open, if any.
    pub fn handle_terminal_event(&mut self, terminal: TerminalId, event: &TerminalEvent) -> (r: (
        Option<TerminalPaneEvent>,
        Option<String>,
    ))
        requires
            old(self).wf(),
        ensures
            final(self).wf(),
            final(self).active_id() == old(self).active_id(),
            final(self).dirs() == old(self).dirs(),
            match event {
                TerminalEvent::TitleChanged | TerminalEvent::BreadcrumbsChanged => {
                    &&& r.0 == Some(TerminalPaneEvent::TitleChanged)
                    &&& r.1 is None
                    &&& final(self).tabs() == old(self).tabs()
                    &&& final(self).active_tabs() == old(self).active_tabs()
                    &&& final(self).hovered() == old(self).hovered()
                },
                TerminalEvent::CloseTerminal => {
                    &&& r.1 is None
                    &&& r.0 is Some ==> r.0 == Some(TerminalPaneEvent::Close)
                    &&& final(self).hovered() == old(self).hovered()
                    &&& !old(self).shows_terminal(terminal) ==> final(self).tabs() == old(self).tabs()
                        && final(self).active_tabs() == old(self).active_tabs() && r.0 is None
                    &&& old(self).shows_terminal(terminal) ==> exists|w: Seq<char>|
                        #[trigger] Self::closed_in(old(self), final(self), terminal, w, r.0 is Some)
                },
                TerminalEvent::Open(target) => {
                    &&& r.0 is None
                    &&& r.1 matches Some(loc) && match target {
                        NavigationTarget::Url(u) => loc@ == u@,
                        NavigationTarget::PathLike { maybe_path, terminal_dir } => loc@ == open_path(
                            maybe_path@,
                            opt_view(*terminal_dir),
                        ),
                    }
                    &&& final(self).tabs() == old(self).tabs()
                    &&& final(self).active_tabs() == old(self).active_tabs()
                    &&& final(self).hovered() == old(self).hovered()
                },
                TerminalEvent::NewNavigationTarget(target) => {
                    &&& r.0 is None
                    &&& r.1 is None
                    &&& final(self).hovered() == match target {
                        Some(NavigationTarget::Url(u)) => Some(u@),
                        _ => None,
                    }
                    &&& final(self).tabs() == old(self).tabs()
                    &&& final(self).active_tabs() == old(self).active_tabs()
                },
                _ => {
                    &&& r.0 is None
                    &&& r.1 is None
                    &&& final(self).tabs() == old(self).tabs()
                    &&& final(self).active_tabs() == old(self).active_tabs()
                    &&& final(self).hovered() == old(self).hovered()
                },
            },
    {
        match event {
            TerminalEvent::TitleChanged | TerminalEvent::BreadcrumbsChanged => (
                Some(TerminalPaneEvent::TitleChanged),
                None,
            ),
            TerminalEvent::CloseTerminal => (self.close_terminal_by_id(terminal), None),
            TerminalEvent::Open(target) => (None, Some(open_target_location(target))),
            TerminalEvent::NewNavigationTarget(target) => {
                let t: Option<&NavigationTarget> = match target {
                    Some(x) => Some(x),
                    None => None,
                };
                self.set_navigation_target(t);
                (None, None)
            },
            _ => (None, None),
        }
    }
}

} // verus!
