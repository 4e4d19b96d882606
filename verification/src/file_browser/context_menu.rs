//! Context menu of a file browser entry.

use vstd::prelude::*;

use crate::file_browser::state::ProjectEntryId;

verus! {

/// One item of the context menu.
#[derive(Clone, Debug)]
pub struct ContextMenuItem {
    /// Display label; `---` stands for a separator.
    pub label: String,
    /// Optional keyboard shortcut hint.
    pub shortcut: Option<String>,
    /// Whether the item can be chosen.
    pub enabled: bool,
}

/// An item as plain text: label, shortcut hint, enabled flag.
pub type MenuItemView = (Seq<char>, Option<Seq<char>>, bool);

impl View for ContextMenuItem {
    type V = MenuItemView;

    open spec fn view(&self) -> MenuItemView {
        (
            self.label@,
            match self.shortcut {
                Some(s) => Some(s@),
                None => None,
            },
            self.enabled,
        )
    }
}

impl ContextMenuItem {
    /// An enabled item with the given label and no shortcut.
    pub fn new(label: &str) -> (r: Self)
        ensures
            r@ == (label@, None::<Seq<char>>, true),
    {
        ContextMenuItem { label: label.to_owned(), shortcut: None, enabled: true }
    }

    /// The same item with the given shortcut hint.
    pub fn shortcut(self, shortcut: &str) -> (r: Self)
        ensures
            r@ == (self@.0, Some(shortcut@), self@.2),
    {
        let mut item = self;
        item.shortcut = Some(shortcut.to_owned());
        item
    }

    /// The same item, enabled or not.
    pub fn enabled(self, enabled: bool) -> (r: Self)
        ensures
            r@ == (self@.0, self@.1, enabled),
    {
        let mut item = self;
        item.enabled = enabled;
        item
    }
}

/// An enabled item without shortcut.
pub open spec fn plain(label: Seq<char>) -> MenuItemView {
    (label, None, true)
}

/// An enabled item with a shortcut.
pub open spec fn with_key(label: Seq<char>, key: Seq<char>) -> MenuItemView {
    (label, Some(key), true)
}

/// The context menu of an entry: file operations, clipboard operations
/// (paste only enabled when the clipboard holds something), path copying,
/// reveal, "Open in Terminal" for directories only, and collapse, with
/// separators between the groups.
pub open spec fn context_menu(is_dir: bool, has_clipboard: bool) -> Seq<MenuItemView> {
    seq![
        with_key("New File"@, "N"@),
        with_key("New Folder"@, "Shift+N"@),
        plain("---"@),
        with_key("Rename"@, "F2"@),
        with_key("Delete"@, "Delete"@),
        plain("---"@),
        with_key("Cut"@, "Cmd+X"@),
        with_key("Copy"@, "Cmd+C"@),
        ("Paste"@, Some("Cmd+V"@), has_clipboard),
        plain("---"@),
        plain("Copy Path"@),
        plain("Copy Relative Path"@),
        plain("---"@),
        plain("Reveal in Finder"@),
    ] + (if is_dir {
        seq![plain("Open in Terminal"@)]
    } else {
        Seq::empty()
    }) + seq![plain("---"@), plain("Collapse All"@)]
}

/// Only the Paste item depends on the clipboard: every other item is
/// enabled whatever the clipboard holds, the two menus differ in nothing
/// else, and Paste is enabled exactly when the clipboard holds something.
pub proof fn law_only_paste_needs_the_clipboard(is_dir: bool, has_clipboard: bool)
    ensures
        forall|i: int|
            0 <= i < context_menu(is_dir, has_clipboard).len() ==> #[trigger] context_menu(
                is_dir,
                has_clipboard,
            )[i].2 || context_menu(is_dir, has_clipboard)[i].0 == "Paste"@,
        context_menu(is_dir, true).len() == context_menu(is_dir, false).len(),
        forall|i: int|
            0 <= i < context_menu(is_dir, true).len() ==> {
                &&& #[trigger] context_menu(is_dir, true)[i].0 == context_menu(is_dir, false)[i].0
                &&& context_menu(is_dir, true)[i].1 == context_menu(is_dir, false)[i].1
                &&& context_menu(is_dir, true)[i].2
            },
        exists|i: int|
            0 <= i < context_menu(is_dir, has_clipboard).len() && #[trigger] context_menu(
                is_dir,
                has_clipboard,
            )[i] == ("Paste"@, Some("Cmd+V"@), has_clipboard),
        exists|i: int|
            0 <= i < context_menu(is_dir, has_clipboard).len() && #[trigger] context_menu(
                is_dir,
                has_clipboard,
            )[i] == ("Copy"@, Some("Cmd+C"@), true),
        exists|i: int|
            0 <= i < context_menu(is_dir, has_clipboard).len() && #[trigger] context_menu(
                is_dir,
                has_clipboard,
            )[i] == ("Cut"@, Some("Cmd+X"@), true),
{
    let m = context_menu(is_dir, has_clipboard);
    assert(m[6] == ("Cut"@, Some("Cmd+X"@), true));
    assert(m[7] == ("Copy"@, Some("Cmd+C"@), true));
    assert(m[8] == ("Paste"@, Some("Cmd+V"@), has_clipboard));
}

/// The views of a list of menu items.
pub open spec fn menu_view(items: Seq<ContextMenuItem>) -> Seq<MenuItemView> {
    items.map_values(|i: ContextMenuItem| i@)
}

/// Builds the context menu items for a file or folder entry.
pub fn build_context_menu_items(_entry_id: ProjectEntryId, is_dir: bool, has_clipboard: bool) -> (r:
    Vec<ContextMenuItem>)
    ensures
        menu_view(r@) == context_menu(is_dir, has_clipboard),
{
    let mut items: Vec<ContextMenuItem> = Vec::new();
    items.push(ContextMenuItem::new("New File").shortcut("N"));
    items.push(ContextMenuItem::new("New Folder").shortcut("Shift+N"));
    items.push(ContextMenuItem::new("---"));
    items.push(ContextMenuItem::new("Rename").shortcut("F2"));
    items.push(ContextMenuItem::new("Delete").shortcut("Delete"));
    items.push(ContextMenuItem::new("---"));
    items.push(ContextMenuItem::new("Cut").shortcut("Cmd+X"));
    items.push(ContextMenuItem::new("Copy").shortcut("Cmd+C"));
    items.push(ContextMenuItem::new("Paste").shortcut("Cmd+V").enabled(has_clipboard));
    items.push(ContextMenuItem::new("---"));
    items.push(ContextMenuItem::new("Copy Path"));
    items.push(ContextMenuItem::new("Copy Relative Path"));
    items.push(ContextMenuItem::new("---"));
    items.push(ContextMenuItem::new("Reveal in Finder"));
    if is_dir {
        items.push(ContextMenuItem::new("Open in Terminal"));
    }
    items.push(ContextMenuItem::new("---"));
    items.push(ContextMenuItem::new("Collapse All"));
    assert(menu_view(items@) =~= context_menu(is_dir, has_clipboard));
    items
}

} // verus!
