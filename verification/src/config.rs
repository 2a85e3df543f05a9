//! Configuration: the [`ConfigFile`] as read from disk, the resolved
//! [`Config`] the rest of the program consumes, and the precedence rules that
//! merge them.
//!
//! Precedence, highest first: **CLI flags > config file > built-in defaults.**
use vstd::prelude::*;
use vstd::string::*;

use crate::cli::Cli;
use crate::field::{default_fields, Field};
use crate::logo::{detected_art, logo_choice};
use crate::text::chars_of;
use crate::theme::{theme_named, ColorMode};

verus! {

/// A config file as read from disk. Every field is optional so a partial file
/// only overrides what it specifies.
#[derive(Debug)]
pub struct ConfigFile {
    pub fields: Option<Vec<Field>>,
    pub separator: Option<String>,
    pub all_disks: Option<bool>,
    pub color: Option<ColorMode>,
    pub theme: Option<String>,
    pub logo: Option<String>,
}

impl Default for ConfigFile {
    /// A file that sets nothing.
    fn default() -> (file: ConfigFile)
        ensures
            file.fields is None,
            file.separator is None,
            file.all_disks is None,
            file.color is None,
            file.theme is None,
            file.logo is None,
    {
        ConfigFile { fields: None, separator: None, all_disks: None, color: None, theme: None, logo: None }
    }
}

/// Fully-resolved configuration, with every value present.
#[derive(Debug, Clone, PartialEq, Eq)]
pub struct Config {
    pub fields: Vec<Field>,
    pub separator: String,
    pub show_all_disks: bool,
    pub color: ColorMode,
    pub theme: String,
    pub logo: String,
}

/// The built-in default separator, `:`.
pub open spec fn default_separator() -> Seq<char> {
    seq![':']
}

/// The built-in default theme name, `default`.
pub open spec fn default_theme() -> Seq<char> {
    seq!['d', 'e', 'f', 'a', 'u', 'l', 't']
}

/// The built-in default logo setting, `auto`.
pub open spec fn default_logo() -> Seq<char> {
    seq!['a', 'u', 't', 'o']
}

/// Whether `c` is the built-in default configuration.
pub open spec fn is_default_config(c: Config) -> bool {
    &&& c.fields@ == default_fields()
    &&& c.separator@ == default_separator()
    &&& !c.show_all_disks
    &&& c.color == ColorMode::Auto
    &&& c.theme@ == default_theme()
    &&& c.logo@ == default_logo()
}

impl Default for Config {
    fn default() -> (c: Config)
        ensures
            is_default_config(c),
    {
        proof {
            reveal_strlit(":");
            reveal_strlit("default");
            reveal_strlit("auto");
            assert(":"@ =~= default_separator());
            assert("default"@ =~= default_theme());
            assert("auto"@ =~= default_logo());
        }
        Config {
            fields: Field::default_order(),
            separator: String::from_str(":"),
            show_all_disks: false,
            color: ColorMode::default(),
            theme: String::from_str("default"),
            logo: String::from_str("auto"),
        }
    }
}

/// The first value that is set, from highest precedence down.
pub open spec fn layered<T>(cli: Option<T>, file: Option<T>, default: T) -> T {
    match cli {
        Some(v) => v,
        None => match file {
            Some(v) => v,
            None => default,
        },
    }
}

/// The text of an optional string.
pub open spec fn opt_text(s: Option<String>) -> Option<Seq<char>> {
    match s {
        Some(t) => Some(t@),
        None => None,
    }
}

/// The contents of an optional list of fields.
pub open spec fn opt_fields(f: Option<Vec<Field>>) -> Option<Seq<Field>> {
    match f {
        Some(v) => Some(v@),
        None => None,
    }
}

/// `fields`, copied.
fn copy_fields(fields: &Vec<Field>) -> (copy: Vec<Field>)
    ensures
        copy@ == fields@,
{
    let mut copy: Vec<Field> = Vec::new();
    let mut i: usize = 0;
    while i < fields.len()
        invariant
            i <= fields@.len(),
            copy@ == fields@.subrange(0, i as int),
        decreases fields@.len() - i,
    {
        copy.push(fields[i]);
        i = i + 1;
        assert(copy@ =~= fields@.subrange(0, i as int));
    }
    assert(fields@.subrange(0, i as int) =~= fields@);
    copy
}

impl Config {
    /// Resolve the final configuration by layering: defaults, then the config
    /// file's set values, then the CLI's set values. `--all-disks` can only
    /// turn showing every disk on.
    pub fn resolve(file: ConfigFile, cli: &Cli) -> (c: Config)
        ensures
            c.fields@ == layered(opt_fields(cli.fields), opt_fields(file.fields), default_fields()),
            c.separator@ == layered(opt_text(cli.separator), opt_text(file.separator), default_separator()),
            c.show_all_disks == (cli.all_disks || file.all_disks == Some(true)),
            c.color == layered(cli.color, file.color, ColorMode::Auto),
            c.theme@ == layered(opt_text(cli.theme), opt_text(file.theme), default_theme()),
            c.logo@ == layered(opt_text(cli.logo), opt_text(file.logo), default_logo()),
    {
        let mut config = Config::default();

        // Layer 2: config file overrides defaults.
        if let Some(fields) = file.fields {
            config.fields = fields;
        }
        if let Some(separator) = file.separator {
            config.separator = separator;
        }
        if let Some(all_disks) = file.all_disks {
            config.show_all_disks = all_disks;
        }
        if let Some(color) = file.color {
            config.color = color;
        }
        if let Some(theme) = file.theme {
            config.theme = theme;
        }
        if let Some(logo) = file.logo {
            config.logo = logo;
        }

        // Layer 3: CLI overrides the config file.
        if let Some(fields) = &cli.fields {
            config.fields = copy_fields(fields);
        }
        if let Some(separator) = &cli.separator {
            config.separator = separator.clone();
        }
        if cli.all_disks {
            config.show_all_disks = true;
        }
        if let Some(color) = cli.color {
            config.color = color;
        }
        if let Some(theme) = &cli.theme {
            config.theme = theme.clone();
        }
        if let Some(logo) = &cli.logo {
            config.logo = logo.clone();
        }

        config
    }
}

/// `base` joined with the relative path `rel` as `Path::join` does on Unix: a
/// `/` goes between them unless `base` is empty or already ends with one.
pub open spec fn path_join(base: Seq<char>, rel: Seq<char>) -> Seq<char> {
    if base.len() == 0 || base.last() == '/' {
        base + rel
    } else {
        base + seq!['/'] + rel
    }
}

/// The default config path: `$XDG_CONFIG_HOME/rsfetch/config.toml` when
/// `XDG_CONFIG_HOME` is set and non-empty, else
/// `$HOME/.config/rsfetch/config.toml` when `HOME` is set and non-empty.
pub open spec fn config_path(xdg_config_home: Option<&str>, home: Option<&str>) -> Option<Seq<char>> {
    match (xdg_config_home, home) {
        (Some(x), _) if x@.len() > 0 => Some(path_join(x@, "rsfetch/config.toml"@)),
        (_, Some(h)) if h@.len() > 0 => Some(path_join(h@, ".config/rsfetch/config.toml"@)),
        _ => None,
    }
}

fn join_path(base: &str, rel: &str) -> (p: String)
    ensures
        p@ == path_join(base@, rel@),
{
    let cs = chars_of(base);
    let mut p = String::from_str(base);
    if cs.len() > 0 && cs[cs.len() - 1] != '/' {
        p.append("/");
        proof {
            reveal_strlit("/");
            assert("/"@ =~= seq!['/']);
        }
    }
    p.append(rel);
    p
}

/// The default config path, given the values of `XDG_CONFIG_HOME` and `HOME`
/// (`None` where unset). Returns `None` if neither is set to a non-empty value.
pub fn config_path_from(xdg_config_home: Option<&str>, home: Option<&str>) -> (path: Option<String>)
    ensures
        path matches Some(p) ==> config_path(xdg_config_home, home) == Some(p@),
        path is None ==> config_path(xdg_config_home, home) is None,
{
    if let Some(x) = xdg_config_home {
        if x.unicode_len() > 0 {
            return Some(join_path(x, "rsfetch/config.toml"));
        }
    }
    if let Some(h) = home {
        if h.unicode_len() > 0 {
            return Some(join_path(h, ".config/rsfetch/config.toml"));
        }
    }
    None
}

/// Whether a config file that could not be read is treated as absent (all
/// defaults) rather than as an error: only a file at the default path that
/// does not exist. An explicitly requested file must be readable.
pub fn unreadable_means_defaults(explicit: bool, not_found: bool) -> (defaults: bool)
    ensures
        defaults == (!explicit && not_found),
{
    !explicit && not_found
}

/// With nothing set in the file or on the command line, resolving gives the
/// built-in defaults.
pub proof fn law_nothing_set_gives_defaults(file: ConfigFile, cli: Cli, resolved: Config)
    requires
        file.fields is None && file.separator is None && file.all_disks is None,
        file.color is None && file.theme is None && file.logo is None,
        cli.fields is None && cli.separator is None && !cli.all_disks,
        cli.color is None && cli.theme is None && cli.logo is None,
        resolved.fields@ == layered(opt_fields(cli.fields), opt_fields(file.fields), default_fields()),
        resolved.separator@ == layered(opt_text(cli.separator), opt_text(file.separator), default_separator()),
        resolved.show_all_disks == (cli.all_disks || file.all_disks == Some(true)),
        resolved.color == layered(cli.color, file.color, ColorMode::Auto),
        resolved.theme@ == layered(opt_text(cli.theme), opt_text(file.theme), default_theme()),
        resolved.logo@ == layered(opt_text(cli.logo), opt_text(file.logo), default_logo()),
    ensures
        is_default_config(resolved),
{
}

/// Each layer overrides exactly what it sets: a value given on the command
/// line always wins, and a value set only in the file beats the default.
pub proof fn law_cli_then_file_then_default<T>(cli: Option<T>, file: Option<T>, default: T)
    ensures
        cli matches Some(v) ==> layered(cli, file, default) == v,
        cli is None ==> (file matches Some(v) ==> layered(cli, file, default) == v),
        cli is None && file is None ==> layered(cli, file, default) == default,
{
}

/// The built-in defaults are the documented ones: `":"` between label and
/// value, the `default` theme (a theme that exists), the logo detected for
/// the system (`auto`), color when the terminal supports it, and every field
/// once, in the order host, OS, kernel, shell, uptime, CPU, memory, swap,
/// disks.
pub proof fn law_documented_defaults(os_name: Option<&str>, kernel: Option<&str>)
    ensures
        default_separator() == ":"@,
        default_theme() == "default"@,
        theme_named(default_theme()) is Some,
        default_logo() == "auto"@,
        logo_choice(default_logo(), os_name, kernel) == Some(Some(detected_art(os_name, kernel))),
        default_fields() == seq![
            Field::Host,
            Field::Os,
            Field::Kernel,
            Field::Shell,
            Field::Uptime,
            Field::Cpu,
            Field::Memory,
            Field::Swap,
            Field::Disks,
        ],
{
    reveal_strlit(":");
    reveal_strlit("default");
    reveal_strlit("auto");
    assert(":"@ =~= default_separator());
    assert("default"@ =~= default_theme());
    assert("auto"@ =~= default_logo());
    crate::logo::law_documented_logo_names(os_name, kernel);
}

/// For a text setting (separator, theme, logo) and for the field list, the
/// resolved value is the text the command line gives, else the one the file
/// gives, else the default.
pub proof fn law_setting_taken_from_highest_layer(
    cli: Option<String>,
    file: Option<String>,
    default: Seq<char>,
    cli_fields: Option<Vec<Field>>,
    file_fields: Option<Vec<Field>>,
)
    ensures
        cli matches Some(v) ==> layered(opt_text(cli), opt_text(file), default) == v@,
        cli is None ==> (file matches Some(v) ==> layered(opt_text(cli), opt_text(file), default) == v@),
        cli is None && file is None ==> layered(opt_text(cli), opt_text(file), default) == default,
        cli_fields matches Some(v) ==> layered(opt_fields(cli_fields), opt_fields(file_fields), default_fields()) == v@,
        cli_fields is None ==> (file_fields matches Some(v) ==> layered(
            opt_fields(cli_fields),
            opt_fields(file_fields),
            default_fields(),
        ) == v@),
        cli_fields is None && file_fields is None ==> layered(
            opt_fields(cli_fields),
            opt_fields(file_fields),
            default_fields(),
        ) == default_fields(),
{
}

} // verus!
