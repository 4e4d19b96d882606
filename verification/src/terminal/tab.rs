//! Terminal tabs: one terminal session each.

use vstd::prelude::*;

use crate::file_browser::render::{display_name, display_name_of};

verus! {

/// Identifier of a running terminal session (the id of its terminal
/// entity).
pub type TerminalId = u64;

/// A terminal tab: one terminal session within the terminal pane.
pub struct TerminalTab {
    /// The terminal session shown in this tab.
    terminal: TerminalId,
    /// Working directory of the session.
    working_directory: Option<String>,
    /// Title chosen by the user, if any.
    custom_title: Option<String>,
}

/// The view of an optional string.
pub open spec fn opt_view(s: Option<String>) -> Option<Seq<char>> {
    match s {
        Some(t) => Some(t@),
        None => None,
    }
}

/// The title of a tab: the user's title if set, else the name of the
/// working directory, else `Terminal`.
pub open spec fn tab_title(custom: Option<Seq<char>>, dir: Option<Seq<char>>) -> Seq<char> {
    match custom {
        Some(t) => t,
        None => match dir {
            Some(d) => if display_name(d).len() > 0 {
                display_name(d)
            } else {
                "Terminal"@
            },
            None => "Terminal"@,
        },
    }
}

impl TerminalTab {
    /// The terminal session shown in this tab.
    pub closed spec fn session(&self) -> TerminalId {
        self.terminal
    }

    /// Working directory, as plain text.
    pub closed spec fn dir(&self) -> Option<Seq<char>> {
        opt_view(self.working_directory)
    }

    /// User-chosen title, as plain text.
    pub closed spec fn custom(&self) -> Option<Seq<char>> {
        opt_view(self.custom_title)
    }

    /// A tab for a terminal session, with no custom title.
    pub fn new(terminal: TerminalId, working_directory: Option<String>) -> (r: Self)
        ensures
            r.session() == terminal,
            r.dir() == opt_view(working_directory),
            r.custom() is None,
    {
        TerminalTab { terminal, working_directory, custom_title: None }
    }

    /// The title shown for this tab.
    pub fn title(&self) -> (r: String)
        ensures
            r@ == tab_title(self.custom(), self.dir()),
    {
        if let Some(t) = &self.custom_title {
            return t.clone();
        }
        if let Some(dir) = &self.working_directory {
            let name = display_name_of(dir.as_str());
            if name.as_str().is_empty() {
                return "Terminal".to_owned();
            }
            return name;
        }
        "Terminal".to_owned()
    }

    /// Sets a custom title.
    pub fn set_title(&mut self, title: &str)
        ensures
            final(self).custom() == Some(title@),
            final(self).dir() == old(self).dir(),
            final(self).session() == old(self).session(),
    {
        self.custom_title = Some(title.to_owned());
    }

    /// The working directory.
    pub fn working_directory(&self) -> (r: Option<&String>)
        ensures
            match r {
                Some(d) => self.dir() == Some(d@),
                None => self.dir() is None,
            },
    {
        match &self.working_directory {
            Some(d) => Some(d),
            None => None,
        }
    }

    /// Changes the working directory.
    pub fn set_working_directory(&mut self, dir: Option<String>)
        ensures
            final(self).dir() == opt_view(dir),
            final(self).custom() == old(self).custom(),
            final(self).session() == old(self).session(),
    {
        self.working_directory = dir;
    }

    /// The terminal session shown in this tab.
    pub fn terminal(&self) -> (r: TerminalId)
        ensures
            r == self.session(),
    {
        self.terminal
    }

    /// Whether this tab shows the given terminal session.
    pub fn matches_terminal(&self, terminal: TerminalId) -> (r: bool)
        ensures
            r == (self.session() == terminal),
    {
        self.terminal == terminal
    }
}

} // verus!
