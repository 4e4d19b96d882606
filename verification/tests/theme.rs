use terminalg::theme::{Color, Theme};

#[test]
fn colors() {
    let c = Color::new(1, 2, 3);
    assert_eq!((c.r, c.g, c.b, c.a), (1, 2, 3, 255));
    let c = Color::with_alpha(1, 2, 3, 4);
    assert_eq!(c.a, 4);
}

#[test]
fn built_in_themes_by_name() {
    let dark = Theme::by_name("dark").unwrap();
    assert_eq!(dark.name, "dark");
    assert_eq!(dark.background, Color::new(26, 26, 26));
    assert_eq!(dark.ansi_colors[1], Color::new(205, 49, 49));
    assert_eq!(dark.text_hover, Color::new(150, 150, 150));
    let light = Theme::by_name("light").unwrap();
    assert_eq!(light.name, "light");
    assert_eq!(light.background, Color::new(253, 246, 227));
    assert_eq!(light.ansi_colors[15], Color::new(0, 0, 0));
    assert!(Theme::by_name("nord").is_none());
    assert!(Theme::by_name("Dark").is_none());
    assert!(Theme::by_name("").is_none());
}
