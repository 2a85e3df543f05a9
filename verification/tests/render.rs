use rsfetch::logo::Logo;
use rsfetch::render::combine_columns;
use rsfetch::theme::Style;

fn style() -> Style {
    Style::new().green()
}

fn lines(items: &[&str]) -> Vec<String> {
    items.iter().map(|s| s.to_string()).collect()
}

fn strip_ansi(s: &str) -> String {
    let mut out = String::new();
    let mut chars = s.chars();
    while let Some(c) = chars.next() {
        if c == '\u{1b}' {
            for c2 in chars.by_ref() {
                if c2 == 'm' {
                    break;
                }
            }
        } else {
            out.push(c);
        }
    }
    out
}

#[test]
fn info_taller_than_logo_pads_logo_column() {
    let logo = Logo::from_art("ab\nc");
    let out = combine_columns(&logo, &lines(&["X", "Y", "Z"]), 1, &style(), false);
    assert_eq!(out, lines(&["ab X", "c  Y", "   Z"]));
}

#[test]
fn logo_taller_than_info_emits_remaining_logo_without_trailing_space() {
    let logo = Logo::from_art("ab\nc\nd");
    let out = combine_columns(&logo, &lines(&["X"]), 1, &style(), false);
    assert_eq!(out, lines(&["ab X", "c", "d"]));
}

#[test]
fn colored_logo_keeps_info_column_aligned() {
    let logo = Logo::from_art("ab\nc");
    let out = combine_columns(&logo, &lines(&["X", "Y"]), 1, &style(), true);
    assert!(out[0].contains('\u{1b}'), "expected color on the logo");
    let visible: Vec<String> = out.iter().map(|l| strip_ansi(l)).collect();
    assert_eq!(visible, lines(&["ab X", "c  Y"]));
}

#[test]
fn colored_logo_exact_escapes() {
    let logo = Logo::from_art("ab\nc");
    let out = combine_columns(&logo, &lines(&["X"]), 2, &style(), true);
    assert_eq!(out, lines(&["\u{1b}[32mab\u{1b}[0m  X", "\u{1b}[32mc\u{1b}[0m"]));
}

#[test]
fn empty_logo_line_is_not_colored() {
    let logo = Logo::from_art("a\n\nb");
    let out = combine_columns(&logo, &lines(&["1", "2", "3"]), 1, &Style::new().bold(), true);
    assert_eq!(out, lines(&["\u{1b}[1ma\u{1b}[0m 1", "  2", "\u{1b}[1mb\u{1b}[0m 3"]));
}

#[test]
fn empty_info_line_leaves_logo_alone() {
    let logo = Logo::from_art("ab\ncd");
    let out = combine_columns(&logo, &lines(&["X", ""]), 3, &style(), false);
    assert_eq!(out, lines(&["ab   X", "cd"]));
}
