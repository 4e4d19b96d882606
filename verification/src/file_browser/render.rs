//! What a file browser row shows: the entry details and git status marks.

use vstd::prelude::*;

use crate::file_browser::state::ProjectEntryId;
use crate::path::{file_name, path_file_name};
use crate::text::str_equal;

verus! {

/// Everything a row of the file tree needs to be drawn.
#[derive(Clone, Debug)]
pub struct EntryDetails {
    pub id: ProjectEntryId,
    /// Name shown for the entry (the last path component).
    pub filename: String,
    /// Nesting depth, for indentation.
    pub depth: usize,
    pub is_dir: bool,
    /// Whether this directory is expanded.
    pub is_expanded: bool,
    pub is_selected: bool,
    /// Marked for multi-selection.
    pub is_marked: bool,
    /// Being renamed.
    pub is_editing: bool,
    /// Full path of the entry.
    pub path: String,
}

/// The name shown for a path: its final component, or nothing when the
/// path does not end in a name.
pub open spec fn display_name(path: Seq<char>) -> Seq<char> {
    match file_name(path) {
        Some(n) => n,
        None => Seq::empty(),
    }
}

/// The display name of a path, as a string.
pub fn display_name_of(path: &str) -> (r: String)
    ensures
        r@ == display_name(path@),
{
    match path_file_name(path) {
        Some(n) => n.to_owned(),
        None => String::new(),
    }
}

impl EntryDetails {
    /// Details of an entry that is neither expanded, selected, marked nor
    /// being edited, named after the last component of its path.
    pub fn from_path(id: ProjectEntryId, path: String, is_dir: bool, depth: usize) -> (r: Self)
        ensures
            r.id == id,
            r.filename@ == display_name(path@),
            r.depth == depth,
            r.is_dir == is_dir,
            !r.is_expanded,
            !r.is_selected,
            !r.is_marked,
            !r.is_editing,
            r.path@ == path@,
    {
        let filename = display_name_of(path.as_str());
        EntryDetails {
            id,
            filename,
            depth,
            is_dir,
            is_expanded: false,
            is_selected: false,
            is_marked: false,
            is_editing: false,
            path,
        }
    }
}

/// The one-character mark of a git status: `+` added, `~` modified,
/// `-` deleted, `?` untracked, `!` conflict, nothing otherwise.
pub open spec fn git_status_mark(status: Seq<char>) -> Seq<char> {
    if status == "A"@ {
        "+"@
    } else if status == "M"@ {
        "~"@
    } else if status == "D"@ {
        "-"@
    } else if status == "?"@ {
        "?"@
    } else if status == "C"@ {
        "!"@
    } else {
        ""@
    }
}

/// The mark shown next to an entry with the given git status.
pub fn git_status_char(status: &str) -> (r: &'static str)
    ensures
        r@ == git_status_mark(status@),
{
    if str_equal(status, "A") {
        "+"
    } else if str_equal(status, "M") {
        "~"
    } else if str_equal(status, "D") {
        "-"
    } else if str_equal(status, "?") {
        "?"
    } else if str_equal(status, "C") {
        "!"
    } else {
        ""
    }
}

/// The theme color that shows a git status: the "created" color for added
/// and untracked entries, "modified", "deleted" and "conflict" for those
/// statuses, and the ordinary text color otherwise.
#[derive(Clone, Copy, Debug, PartialEq, Eq, Structural)]
pub enum GitStatusColor {
    Created,
    Modified,
    Deleted,
    Conflict,
    Text,
}

/// The color of a git status.
pub open spec fn git_status_color_of(status: Seq<char>) -> GitStatusColor {
    if status == "A"@ || status == "?"@ {
        GitStatusColor::Created
    } else if status == "M"@ {
        GitStatusColor::Modified
    } else if status == "D"@ {
        GitStatusColor::Deleted
    } else if status == "C"@ {
        GitStatusColor::Conflict
    } else {
        GitStatusColor::Text
    }
}

/// Which theme color an entry with the given git status is drawn in.
pub fn git_status_color(status: &str) -> (r: GitStatusColor)
    ensures
        r == git_status_color_of(status@),
{
    if str_equal(status, "A") || str_equal(status, "?") {
        GitStatusColor::Created
    } else if str_equal(status, "M") {
        GitStatusColor::Modified
    } else if str_equal(status, "D") {
        GitStatusColor::Deleted
    } else if str_equal(status, "C") {
        GitStatusColor::Conflict
    } else {
        GitStatusColor::Text
    }
}

} // verus!
