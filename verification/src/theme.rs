//! Built-in colour themes for the terminal and the interface.

use vstd::prelude::*;

use crate::text::str_equal;

verus! {

/// An RGBA colour.
#[derive(Clone, Copy, Debug, PartialEq, Eq, Structural)]
pub struct Color {
    pub r: u8,
    pub g: u8,
    pub b: u8,
    pub a: u8,
}

impl Color {
    /// An opaque colour.
    pub fn new(r: u8, g: u8, b: u8) -> (c: Self)
        ensures
            c == rgb(r, g, b),
    {
        Color { r, g, b, a: 255 }
    }

    /// A colour with the given opacity.
    pub fn with_alpha(r: u8, g: u8, b: u8, a: u8) -> (c: Self)
        ensures
            c == (Color { r, g, b, a }),
    {
        Color { r, g, b, a }
    }
}

/// The opaque colour with the given channels.
pub open spec fn rgb(r: u8, g: u8, b: u8) -> Color {
    Color { r, g, b, a: 255 }
}

/// A theme: terminal ANSI palette and interface colours.
#[derive(Clone, Debug)]
pub struct Theme {
    pub name: String,
    /// Terminal colours (ANSI palette).
    pub ansi_colors: [Color; 16],
    pub foreground: Color,
    pub background: Color,
    pub accent: Color,
    pub success: Color,
    pub error: Color,
    pub warning: Color,
    pub info: Color,
    pub text_muted: Color,
    pub text_hover: Color,
    pub text_selected: Color,
}

/// A theme as plain values.
pub struct ThemeSpec {
    pub name: Seq<char>,
    pub ansi_colors: Seq<Color>,
    pub foreground: Color,
    pub background: Color,
    pub accent: Color,
    pub success: Color,
    pub error: Color,
    pub warning: Color,
    pub info: Color,
    pub text_muted: Color,
    pub text_hover: Color,
    pub text_selected: Color,
}

impl View for Theme {
    type V = ThemeSpec;

    open spec fn view(&self) -> ThemeSpec {
        ThemeSpec {
            name: self.name@,
            ansi_colors: self.ansi_colors@,
            foreground: self.foreground,
            background: self.background,
            accent: self.accent,
            success: self.success,
            error: self.error,
            warning: self.warning,
            info: self.info,
            text_muted: self.text_muted,
            text_hover: self.text_hover,
            text_selected: self.text_selected,
        }
    }
}

/// The dark theme (the default).
pub open spec fn dark_theme() -> ThemeSpec {
    ThemeSpec {
        name: "dark"@,
        ansi_colors: seq![
            rgb(0, 0, 0),
            rgb(205, 49, 49),
            rgb(19, 161, 14),
            rgb(229, 229, 16),
            rgb(36, 114, 200),
            rgb(188, 63, 60),
            rgb(17, 168, 205),
            rgb(204, 204, 204),
            rgb(118, 118, 118),
            rgb(241, 76, 76),
            rgb(35, 209, 139),
            rgb(245, 245, 67),
            rgb(59, 142, 234),
            rgb(214, 112, 214),
            rgb(41, 184, 219),
            rgb(229, 229, 229),
        ],
        foreground: rgb(229, 229, 229),
        background: rgb(26, 26, 26),
        accent: rgb(59, 142, 234),
        success: rgb(35, 209, 139),
        error: rgb(241, 76, 76),
        warning: rgb(245, 245, 67),
        info: rgb(59, 142, 234),
        text_muted: rgb(118, 118, 118),
        text_hover: rgb(150, 150, 150),
        text_selected: rgb(59, 142, 234),
    }
}

/// The light theme.
pub open spec fn light_theme() -> ThemeSpec {
    ThemeSpec {
        name: "light"@,
        ansi_colors: seq![
            rgb(255, 255, 255),
            rgb(200, 40, 41),
            rgb(19, 161, 14),
            rgb(181, 137, 0),
            rgb(25, 55, 109),
            rgb(136, 23, 152),
            rgb(17, 168, 205),
            rgb(51, 51, 51),
            rgb(102, 102, 102),
            rgb(220, 50, 47),
            rgb(133, 153, 0),
            rgb(181, 137, 0),
            rgb(38, 139, 210),
            rgb(108, 113, 196),
            rgb(42, 161, 152),
            rgb(0, 0, 0),
        ],
        foreground: rgb(51, 51, 51),
        background: rgb(253, 246, 227),
        accent: rgb(38, 139, 210),
        success: rgb(133, 153, 0),
        error: rgb(220, 50, 47),
        warning: rgb(181, 137, 0),
        info: rgb(38, 139, 210),
        text_muted: rgb(147, 161, 161),
        text_hover: rgb(101, 123, 113),
        text_selected: rgb(38, 139, 210),
    }
}

impl Theme {
    /// The built-in theme with the given name, if there is one.
    pub fn by_name(name: &str) -> (r: Option<Self>)
        ensures
            name@ == "dark"@ ==> r is Some && r->0@ == dark_theme(),
            name@ == "light"@ ==> r is Some && r->0@ == light_theme(),
            name@ != "dark"@ && name@ != "light"@ ==> r is None,
    {
        proof {
            reveal_strlit("dark");
            reveal_strlit("light");
            assert("dark"@.len() == 4 && "light"@.len() == 5);
        }
        if str_equal(name, "dark") {
            Some(Self::dark())
        } else if str_equal(name, "light") {
            Some(Self::light())
        } else {
            None
        }
    }

    /// The dark theme (the default).
    pub fn dark() -> (t: Self)
        ensures
            t@ == dark_theme(),
    {
        let t = Theme {
            name: "dark".to_owned(),
            ansi_colors: [
                Color::new(0, 0, 0),
                Color::new(205, 49, 49),
                Color::new(19, 161, 14),
                Color::new(229, 229, 16),
                Color::new(36, 114, 200),
                Color::new(188, 63, 60),
                Color::new(17, 168, 205),
                Color::new(204, 204, 204),
                Color::new(118, 118, 118),
                Color::new(241, 76, 76),
                Color::new(35, 209, 139),
                Color::new(245, 245, 67),
                Color::new(59, 142, 234),
                Color::new(214, 112, 214),
                Color::new(41, 184, 219),
                Color::new(229, 229, 229),
            ],
            foreground: Color::new(229, 229, 229),
            background: Color::new(26, 26, 26),
            accent: Color::new(59, 142, 234),
            success: Color::new(35, 209, 139),
            error: Color::new(241, 76, 76),
            warning: Color::new(245, 245, 67),
            info: Color::new(59, 142, 234),
            text_muted: Color::new(118, 118, 118),
            text_hover: Color::new(150, 150, 150),
            text_selected: Color::new(59, 142, 234),
        };
        assert(t.ansi_colors@ =~= dark_theme().ansi_colors);
        t
    }

    /// The light theme.
    pub fn light() -> (t: Self)
        ensures
            t@ == light_theme(),
    {
        let t = Theme {
            name: "light".to_owned(),
            ansi_colors: [
                Color::new(255, 255, 255),
                Color::new(200, 40, 41),
                Color::new(19, 161, 14),
                Color::new(181, 137, 0),
                Color::new(25, 55, 109),
                Color::new(136, 23, 152),
                Color::new(17, 168, 205),
                Color::new(51, 51, 51),
                Color::new(102, 102, 102),
                Color::new(220, 50, 47),
                Color::new(133, 153, 0),
                Color::new(181, 137, 0),
                Color::new(38, 139, 210),
                Color::new(108, 113, 196),
                Color::new(42, 161, 152),
                Color::new(0, 0, 0),
            ],
            foreground: Color::new(51, 51, 51),
            background: Color::new(253, 246, 227),
            accent: Color::new(38, 139, 210),
            success: Color::new(133, 153, 0),
            error: Color::new(220, 50, 47),
            warning: Color::new(181, 137, 0),
            info: Color::new(38, 139, 210),
            text_muted: Color::new(147, 161, 161),
            text_hover: Color::new(101, 123, 113),
            text_selected: Color::new(38, 139, 210),
        };
        assert(t.ansi_colors@ =~= light_theme().ansi_colors);
        t
    }
}

} // verus!
