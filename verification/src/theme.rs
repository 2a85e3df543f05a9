//! Color themes and the color-enablement decision.
//!
//! A [`Theme`] is a set of [`Style`]s applied to the label, separator, and
//! value of each row, plus the logo. [`ColorMode`] plus [`should_use_color`]
//! decide whether any color is emitted at all.
use vstd::prelude::*;
use vstd::string::*;

use crate::text::{
    ascii_lower, case_variant_of, chars_of, has_no_upper, join, law_ascii_lower_folds_case, lower_equals, no_escape,
    str_equals,
};

verus! {

/// When to emit ANSI color.
#[derive(Debug, Clone, Copy, PartialEq, Eq, Structural)]
pub enum ColorMode {
    /// Color when writing to a terminal that supports it.
    Auto,
    /// Always color.
    Always,
    /// Never color.
    Never,
}

impl Default for ColorMode {
    fn default() -> (m: ColorMode)
        ensures
            m == ColorMode::Auto,
    {
        ColorMode::Auto
    }
}

/// The color mode whose name is exactly `name`, if any.
pub open spec fn color_mode_named(name: Seq<char>) -> Option<ColorMode> {
    if name == seq!['a', 'u', 't', 'o'] {
        Some(ColorMode::Auto)
    } else if name == seq!['a', 'l', 'w', 'a', 'y', 's'] {
        Some(ColorMode::Always)
    } else if name == seq!['n', 'e', 'v', 'e', 'r'] {
        Some(ColorMode::Never)
    } else {
        None
    }
}

/// Error returned when a string does not name a known [`ColorMode`].
#[derive(Debug, PartialEq, Eq)]
pub struct ParseColorModeError(pub String);

impl ParseColorModeError {
    /// The human-readable message:
    /// `invalid color mode '<name>' (expected auto, always, or never)`.
    pub fn message(&self) -> (m: String)
        ensures
            m@ == "invalid color mode '"@ + self.0@ + "' (expected auto, always, or never)"@,
    {
        let mut m = String::from_str("invalid color mode '");
        m.append(self.0.as_str());
        m.append("' (expected auto, always, or never)");
        m
    }
}

impl ColorMode {
    /// Parse a color mode from its name, ignoring ASCII case.
    pub fn parse(s: &str) -> (r: Result<ColorMode, ParseColorModeError>)
        ensures
            color_mode_named(ascii_lower(s@)) matches Some(m) ==> r == Ok::<ColorMode, ParseColorModeError>(m),
            color_mode_named(ascii_lower(s@)) is None ==> (r matches Err(e) && e.0@ == s@),
    {
        proof {
            reveal_strlit("auto");
            reveal_strlit("always");
            reveal_strlit("never");
            assert("auto"@ =~= seq!['a', 'u', 't', 'o']);
            assert("always"@ =~= seq!['a', 'l', 'w', 'a', 'y', 's']);
            assert("never"@ =~= seq!['n', 'e', 'v', 'e', 'r']);
        }
        let cs = chars_of(s);
        if lower_equals(cs.as_slice(), "auto") {
            Ok(ColorMode::Auto)
        } else if lower_equals(cs.as_slice(), "always") {
            Ok(ColorMode::Always)
        } else if lower_equals(cs.as_slice(), "never") {
            Ok(ColorMode::Never)
        } else {
            Err(ParseColorModeError(String::from_str(s)))
        }
    }
}

impl core::str::FromStr for ColorMode {
    type Err = ParseColorModeError;

    fn from_str(s: &str) -> (r: Result<ColorMode, ParseColorModeError>)
        ensures
            color_mode_named(ascii_lower(s@)) matches Some(m) ==> r == Ok::<ColorMode, ParseColorModeError>(m),
            color_mode_named(ascii_lower(s@)) is None ==> (r matches Err(e) && e.0@ == s@),
    {
        ColorMode::parse(s)
    }
}

/// Decide whether to emit color, given the mode and whether the output stream is
/// a color-capable terminal.
pub fn should_use_color(mode: ColorMode, terminal_supports_color: bool) -> (use_color: bool)
    ensures
        use_color == match mode {
            ColorMode::Always => true,
            ColorMode::Never => false,
            ColorMode::Auto => terminal_supports_color,
        },
{
    match mode {
        ColorMode::Always => true,
        ColorMode::Never => false,
        ColorMode::Auto => terminal_supports_color,
    }
}

/// A foreground color.
#[derive(Debug, Clone, Copy, PartialEq, Eq, Structural)]
pub enum Color {
    Green,
    Cyan,
}

/// A text effect.
#[derive(Debug, Clone, Copy, PartialEq, Eq, Structural)]
pub enum Effect {
    Bold,
    Dimmed,
}

/// A text style: an optional foreground color plus bold and dim effects.
#[derive(Debug, Clone, Copy, PartialEq, Eq, Structural)]
pub struct Style {
    pub fg: Option<Color>,
    pub bold: bool,
    pub dimmed: bool,
}

/// The SGR parameter that selects foreground color `c`.
pub open spec fn fg_code(c: Color) -> Seq<char> {
    match c {
        Color::Green => seq!['3', '2'],
        Color::Cyan => seq!['3', '6'],
    }
}

/// The SGR parameters for a foreground color and a list of effects, in the
/// order they are emitted: color, then bold, then dim.
pub open spec fn sgr_params(fg: Option<Color>, effects: Seq<Effect>) -> Seq<Seq<char>> {
    (match fg {
        Some(c) => seq![fg_code(c)],
        None => Seq::empty(),
    }) + (if effects.contains(Effect::Bold) { seq![seq!['1']] } else { Seq::empty() }) + (
    if effects.contains(Effect::Dimmed) {
        seq![seq!['2']]
    } else {
        Seq::empty()
    })
}

/// `text` wrapped in the ANSI escape sequences for the given color and
/// effects: `ESC [ p1;p2;... m`, the text, then `ESC [ 0 m`. With no color and
/// no effect the text is returned unchanged.
pub open spec fn ansi_styled(fg: Option<Color>, effects: Seq<Effect>, text: Seq<char>) -> Seq<char> {
    let params = sgr_params(fg, effects);
    if params.len() == 0 {
        text
    } else {
        seq!['\x1b', '['] + join(params, seq![';']) + seq!['m'] + text + seq!['\x1b', '[', '0', 'm']
    }
}

/// The effects a style turns on, bold before dim.
pub open spec fn style_effects(s: Style) -> Seq<Effect> {
    (if s.bold { seq![Effect::Bold] } else { Seq::empty() }) + (if s.dimmed { seq![Effect::Dimmed] } else { Seq::empty() })
}

/// `text` rendered in style `s`.
pub open spec fn styled(s: Style, text: Seq<char>) -> Seq<char> {
    ansi_styled(s.fg, style_effects(s), text)
}

/// Render `text` through `owo_colors`: a `Style` with foreground `fg` and the
/// given effects, applied to `text` and formatted with `Display`.
///
/// Trusted: `Styled`'s `Display` writes the style's prefix (`ESC [`, the SGR
/// parameters joined by `;`, `m`), the text, then `ESC [0m`; both escapes
/// are omitted for a plain style (owo-colors `Style::fmt_prefix`,
/// `Style::fmt_suffix`).
#[verifier::external_body]
fn owo_paint(fg: Option<Color>, effects: &[Effect], text: &str) -> (painted: String)
    ensures
        painted@ == ansi_styled(fg, effects@, text@),
{
    let base = match fg {
        Some(Color::Green) => owo_colors::Style::new().green(),
        Some(Color::Cyan) => owo_colors::Style::new().cyan(),
        None => owo_colors::Style::new(),
    };
    let list: Vec<owo_colors::Effect> = effects.iter().map(|e| match e {
        Effect::Bold => owo_colors::Effect::Bold,
        Effect::Dimmed => owo_colors::Effect::Dimmed,
    }).collect();
    base.effects(&list).style(text).to_string()
}

impl Style {
    /// The plain style: no color, no effect.
    pub fn new() -> (s: Style)
        ensures
            s == (Style { fg: None, bold: false, dimmed: false }),
    {
        Style { fg: None, bold: false, dimmed: false }
    }

    /// This style with a green foreground.
    pub fn green(self) -> (s: Style)
        ensures
            s == (Style { fg: Some(Color::Green), ..self }),
    {
        Style { fg: Some(Color::Green), ..self }
    }

    /// This style with a cyan foreground.
    pub fn cyan(self) -> (s: Style)
        ensures
            s == (Style { fg: Some(Color::Cyan), ..self }),
    {
        Style { fg: Some(Color::Cyan), ..self }
    }

    /// This style, bold.
    pub fn bold(self) -> (s: Style)
        ensures
            s == (Style { bold: true, ..self }),
    {
        Style { bold: true, ..self }
    }

    /// This style, dimmed.
    pub fn dimmed(self) -> (s: Style)
        ensures
            s == (Style { dimmed: true, ..self }),
    {
        Style { dimmed: true, ..self }
    }

    /// Whether this style changes nothing.
    pub fn is_plain(&self) -> (plain: bool)
        ensures
            plain == (self.fg is None && !self.bold && !self.dimmed),
    {
        self.fg.is_none() && !self.bold && !self.dimmed
    }

    /// `text` rendered in this style, with ANSI escape sequences.
    pub fn paint(&self, text: &str) -> (painted: String)
        ensures
            painted@ == styled(*self, text@),
    {
        let mut effects: Vec<Effect> = Vec::new();
        if self.bold {
            effects.push(Effect::Bold);
        }
        if self.dimmed {
            effects.push(Effect::Dimmed);
        }
        assert(effects@ =~= style_effects(*self));
        owo_paint(self.fg, effects.as_slice(), text)
    }
}

/// Styles applied to each component of a rendered row, plus the logo.
#[derive(Debug, Clone, Copy)]
pub struct Theme {
    pub label: Style,
    pub separator: Style,
    pub value: Style,
    pub logo: Style,
}

/// The theme named exactly `name`, if any: `default` or `mono`.
pub open spec fn theme_named(name: Seq<char>) -> Option<Theme> {
    if name == seq!['d', 'e', 'f', 'a', 'u', 'l', 't'] {
        Some(Theme {
            label: Style { fg: Some(Color::Cyan), bold: true, dimmed: false },
            separator: Style { fg: None, bold: false, dimmed: true },
            value: Style { fg: None, bold: false, dimmed: false },
            logo: Style { fg: Some(Color::Green), bold: true, dimmed: false },
        })
    } else if name == seq!['m', 'o', 'n', 'o'] {
        Some(Theme {
            label: Style { fg: None, bold: true, dimmed: false },
            separator: Style { fg: None, bold: false, dimmed: false },
            value: Style { fg: None, bold: false, dimmed: false },
            logo: Style { fg: None, bold: true, dimmed: false },
        })
    } else {
        None
    }
}

impl Theme {
    /// Look up a theme by name. Returns `None` for unknown names.
    pub fn by_name(name: &str) -> (theme: Option<Theme>)
        ensures
            theme == theme_named(name@),
    {
        proof {
            reveal_strlit("default");
            reveal_strlit("mono");
            assert("default"@ =~= seq!['d', 'e', 'f', 'a', 'u', 'l', 't']);
            assert("mono"@ =~= seq!['m', 'o', 'n', 'o']);
        }
        if str_equals(name, "default") {
            Some(Theme {
                label: Style::new().cyan().bold(),
                separator: Style::new().dimmed(),
                value: Style::new(),
                logo: Style::new().green().bold(),
            })
        } else if str_equals(name, "mono") {
            Some(Theme {
                label: Style::new().bold(),
                separator: Style::new(),
                value: Style::new(),
                logo: Style::new().bold(),
            })
        } else {
            None
        }
    }
}

/// The documented color modes are `auto`, `always` and `never`, and a mode's
/// name is recognized whatever the case of its letters (`ALWAYS` is `always`).
pub proof fn law_color_mode_names(s: Seq<char>, word: Seq<char>)
    requires
        case_variant_of(s, word),
        has_no_upper(word),
    ensures
        color_mode_named("auto"@) == Some(ColorMode::Auto),
        color_mode_named("always"@) == Some(ColorMode::Always),
        color_mode_named("never"@) == Some(ColorMode::Never),
        color_mode_named(ascii_lower(s)) == color_mode_named(word),
{
    reveal_strlit("auto");
    reveal_strlit("always");
    reveal_strlit("never");
    assert("auto"@ =~= seq!['a', 'u', 't', 'o']);
    assert("always"@ =~= seq!['a', 'l', 'w', 'a', 'y', 's']);
    assert("never"@ =~= seq!['n', 'e', 'v', 'e', 'r']);
    law_ascii_lower_folds_case(s, word);
}

/// The two themes: `mono` is monochrome (no foreground color on labels,
/// separators, values or the logo) and bolds the labels and the logo;
/// `default` colors the labels and the logo, each differently.
pub proof fn law_themes()
    ensures
        theme_named("mono"@) matches Some(t) && {
            &&& t.label.fg is None
            &&& t.separator.fg is None
            &&& t.value.fg is None
            &&& t.logo.fg is None
            &&& t.label.bold && t.logo.bold
        },
        theme_named("default"@) matches Some(t) && {
            &&& t.label.fg is Some
            &&& t.logo.fg is Some
            &&& t.label.fg != t.logo.fg
            &&& t.value.fg is None
        },
{
    reveal_strlit("default");
    reveal_strlit("mono");
    assert("default"@ =~= seq!['d', 'e', 'f', 'a', 'u', 'l', 't']);
    assert("mono"@ =~= seq!['m', 'o', 'n', 'o']);
}

/// `s` after the body of an escape sequence: everything past the first
/// `'m'`, or nothing when there is none.
pub open spec fn skip_escape(s: Seq<char>) -> Seq<char>
    decreases s.len(),
{
    if s.len() == 0 {
        s
    } else if s[0] == 'm' {
        s.drop_first()
    } else {
        skip_escape(s.drop_first())
    }
}

pub proof fn lemma_skip_escape_len(s: Seq<char>)
    ensures
        skip_escape(s).len() <= s.len(),
    decreases s.len(),
{
    if s.len() > 0 && s[0] != 'm' {
        lemma_skip_escape_len(s.drop_first());
    }
}

/// The visible text of `s`: every escape sequence (`ESC` up to and
/// including the next `'m'`) removed.
pub open spec fn strip_ansi(s: Seq<char>) -> Seq<char>
    decreases s.len(),
{
    if s.len() == 0 {
        s
    } else if s[0] == '\x1b' {
        proof {
            lemma_skip_escape_len(s.drop_first());
        }
        strip_ansi(skip_escape(s.drop_first()))
    } else {
        seq![s[0]] + strip_ansi(s.drop_first())
    }
}

/// Whether `s` contains no `'m'`.
pub open spec fn no_m(s: Seq<char>) -> bool {
    forall|i: int| 0 <= i < s.len() ==> s[i] != 'm'
}

/// Text without escapes passes through `strip_ansi` unchanged.
pub proof fn lemma_strip_plain_prefix(t: Seq<char>, r: Seq<char>)
    requires
        no_escape(t),
    ensures
        strip_ansi(t + r) == t + strip_ansi(r),
    decreases t.len(),
{
    if t.len() > 0 {
        lemma_strip_plain_prefix(t.drop_first(), r);
        assert((t + r).drop_first() =~= t.drop_first() + r);
        assert((t + r)[0] == t[0]);
        assert(seq![t[0]] + (t.drop_first() + strip_ansi(r)) =~= t + strip_ansi(r));
    } else {
        assert(t + r =~= r);
        assert(t + strip_ansi(r) =~= strip_ansi(r));
    }
}

proof fn lemma_skip_escape_body(b: Seq<char>, r: Seq<char>)
    requires
        no_m(b),
    ensures
        skip_escape(b + seq!['m'] + r) == r,
    decreases b.len(),
{
    if b.len() > 0 {
        lemma_skip_escape_body(b.drop_first(), r);
        assert((b + seq!['m'] + r).drop_first() =~= b.drop_first() + seq!['m'] + r);
    } else {
        assert(b + seq!['m'] + r =~= seq!['m'] + r);
        assert((seq!['m'] + r).drop_first() =~= r);
    }
}

/// An escape sequence whose body has no `'m'` is removed entirely.
pub proof fn lemma_strip_escape(b: Seq<char>, r: Seq<char>)
    requires
        no_m(b),
    ensures
        strip_ansi(seq!['\x1b'] + b + seq!['m'] + r) == strip_ansi(r),
{
    let s = seq!['\x1b'] + b + seq!['m'] + r;
    assert(s.drop_first() =~= b + seq!['m'] + r);
    lemma_skip_escape_body(b, r);
}

proof fn lemma_join_no_m(items: Seq<Seq<char>>, sep: Seq<char>)
    requires
        no_m(sep),
        forall|i: int| 0 <= i < items.len() ==> no_m(#[trigger] items[i]),
    ensures
        no_m(join(items, sep)),
    decreases items.len(),
{
    if items.len() > 1 {
        lemma_join_no_m(items.drop_first(), sep);
        assert(no_m(items[0]));
        let j = join(items, sep);
        assert(j == items[0] + sep + join(items.drop_first(), sep));
        assert forall|i: int| 0 <= i < j.len() implies j[i] != 'm' by {
            if i < items[0].len() {
                assert(j[i] == items[0][i]);
            } else if i < items[0].len() + sep.len() {
                assert(j[i] == sep[i - items[0].len()]);
            } else {
                assert(j[i] == join(items.drop_first(), sep)[i - items[0].len() - sep.len()]);
            }
        }
    } else if items.len() == 1 {
        assert(no_m(items[0]));
    }
}

proof fn lemma_params_no_m(fg: Option<Color>, effects: Seq<Effect>)
    ensures
        forall|i: int| 0 <= i < sgr_params(fg, effects).len() ==> no_m(#[trigger] sgr_params(fg, effects)[i]),
{
    let params = sgr_params(fg, effects);
    assert forall|i: int| 0 <= i < params.len() implies no_m(#[trigger] params[i]) by {
        let fgs: Seq<Seq<char>> = match fg {
            Some(c) => seq![fg_code(c)],
            None => Seq::empty(),
        };
        if i < fgs.len() {
            assert(params[i] == fg_code(fg->0));
        }
    }
}

/// The body of a style's opening escape, `[` and the parameters, has no `'m'`.
proof fn lemma_body_no_m(params: Seq<Seq<char>>)
    requires
        forall|i: int| 0 <= i < params.len() ==> no_m(#[trigger] params[i]),
    ensures
        no_m(seq!['['] + join(params, seq![';'])),
{
    lemma_join_no_m(params, seq![';']);
    let j = join(params, seq![';']);
    let body = seq!['['] + j;
    assert forall|i: int| 0 <= i < body.len() implies body[i] != 'm' by {
        if i > 0 {
            assert(body[i] == j[i - 1]);
        }
    }
}

/// Styling adds only escape sequences: with them removed, what is left is the
/// styled text (followed by whatever came after).
pub proof fn lemma_strip_styled(st: Style, t: Seq<char>, r: Seq<char>)
    requires
        no_escape(t),
    ensures
        strip_ansi(styled(st, t) + r) == t + strip_ansi(r),
{
    let params = sgr_params(st.fg, style_effects(st));
    if params.len() == 0 {
        lemma_strip_plain_prefix(t, r);
    } else {
        lemma_params_no_m(st.fg, style_effects(st));
        lemma_body_no_m(params);
        let body = seq!['['] + join(params, seq![';']);
        let suffix_rest = seq!['\x1b'] + seq!['[', '0'] + seq!['m'] + r;
        assert(styled(st, t) + r =~= seq!['\x1b'] + body + seq!['m'] + (t + suffix_rest));
        lemma_strip_escape(body, t + suffix_rest);
        lemma_strip_plain_prefix(t, suffix_rest);
        assert(no_m(seq!['[', '0']));
        lemma_strip_escape(seq!['[', '0'], r);
    }
}

} // verus!
