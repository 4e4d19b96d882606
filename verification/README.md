# terminalg

The core of TerminalG, a GPU-accelerated terminal with a file browser and a
document viewer side by side in switchable workspaces, written as a Verus
library. Every function in `src/` carries a contract that Verus proves, with
one exception: `text::push_char`, a trusted wrapper of the standard
library's `String::push`, whose contract (the character is appended) is
taken from the standard library's documentation.

- `src/file_browser/` — the file tree state (sorted expanded-directory ids),
  selection and keyboard navigation per workspace, context menu, row details.
- `src/terminal/` — terminal tabs per workspace, closing and switching tabs,
  link handling (`path:line:col` stripping, relative path resolution), key
  input bytes, and the screen lines drawn from the terminal grid.
- `src/ui/` — the workspace configuration (validation, active workspace,
  pane visibility and default widths).
- `src/settings/`, `src/theme.rs` — settings defaults and the built-in themes.
- `src/path.rs`, `src/text.rs`, `src/str_map.rs` — path components, string
  helpers and a small string-keyed map used by the panes.

Laws that relate several operations (expanding then collapsing, switching
workspaces and back, closing a terminal that was just started, joining a
path component, ...) are
public proof functions beside the operations they speak of.

`app/` is the GPUI application around the library: windows, rendering,
terminal sessions, configuration files, and the floating-point pane layout.
