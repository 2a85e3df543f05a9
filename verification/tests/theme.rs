use rsfetch::theme::{should_use_color, ColorMode, ParseColorModeError, Style, Theme};

#[test]
fn color_mode_parses() {
    assert_eq!("auto".parse(), Ok(ColorMode::Auto));
    assert_eq!("ALWAYS".parse(), Ok(ColorMode::Always));
    assert_eq!("never".parse(), Ok(ColorMode::Never));
    assert!("rainbow".parse::<ColorMode>().is_err());
}

#[test]
fn always_forces_color_regardless_of_terminal() {
    assert!(should_use_color(ColorMode::Always, false));
    assert!(should_use_color(ColorMode::Always, true));
}

#[test]
fn never_disables_color_regardless_of_terminal() {
    assert!(!should_use_color(ColorMode::Never, true));
    assert!(!should_use_color(ColorMode::Never, false));
}

#[test]
fn auto_follows_terminal_support() {
    assert!(should_use_color(ColorMode::Auto, true));
    assert!(!should_use_color(ColorMode::Auto, false));
}

#[test]
fn known_themes_resolve_and_unknown_does_not() {
    assert!(Theme::by_name("default").is_some());
    assert!(Theme::by_name("mono").is_some());
    assert!(Theme::by_name("nonsense").is_none());
}

#[test]
fn theme_names_are_case_sensitive() {
    assert!(Theme::by_name("Default").is_none());
    assert!(Theme::by_name("MONO").is_none());
}

#[test]
fn default_color_mode_is_auto() {
    assert_eq!(ColorMode::default(), ColorMode::Auto);
}

#[test]
fn color_mode_error_message() {
    let err = ColorMode::parse("rainbow").unwrap_err();
    assert_eq!(err, ParseColorModeError("rainbow".to_string()));
    assert_eq!(err.message(), "invalid color mode 'rainbow' (expected auto, always, or never)");
}

#[test]
fn paint_wraps_text_in_escapes() {
    assert_eq!(Style::new().cyan().bold().paint("OS"), "\u{1b}[36;1mOS\u{1b}[0m");
    assert_eq!(Style::new().green().bold().dimmed().paint("x"), "\u{1b}[32;1;2mx\u{1b}[0m");
    assert_eq!(Style::new().dimmed().paint(":"), "\u{1b}[2m:\u{1b}[0m");
    assert_eq!(Style::new().paint("plain"), "plain");
    assert_eq!(Style::new().bold().paint(""), "\u{1b}[1m\u{1b}[0m");
}

#[test]
fn default_theme_styles() {
    let t = Theme::by_name("default").unwrap();
    assert_eq!(t.label, Style::new().cyan().bold());
    assert_eq!(t.separator, Style::new().dimmed());
    assert_eq!(t.value, Style::new());
    assert_eq!(t.logo, Style::new().green().bold());
    assert!(t.value.is_plain());
}
