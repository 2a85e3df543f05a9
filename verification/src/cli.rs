//! Command-line overrides.
//!
//! Every override is optional so that "not passed on the command line" is
//! distinct from a value, letting [`crate::config::Config::resolve`] apply the
//! precedence CLI > config file > defaults.
use vstd::prelude::*;

use crate::field::Field;
use crate::theme::ColorMode;

verus! {

/// The values given on the command line.
#[derive(Debug)]
pub struct Cli {
    /// Path to a config file (defaults to $XDG_CONFIG_HOME/rsfetch/config.toml).
    pub config: Option<String>,
    /// Fields to display, in order.
    pub fields: Option<Vec<Field>>,
    /// String placed between each label and its value.
    pub separator: Option<String>,
    /// Show every mounted disk instead of just the root filesystem.
    pub all_disks: bool,
    /// When to use color.
    pub color: Option<ColorMode>,
    /// Color theme name.
    pub theme: Option<String>,
    /// Logo to show: `auto`, `none`, or a name.
    pub logo: Option<String>,
}

impl Default for Cli {
    /// Nothing given on the command line.
    fn default() -> (cli: Cli)
        ensures
            cli.config is None,
            cli.fields is None,
            cli.separator is None,
            !cli.all_disks,
            cli.color is None,
            cli.theme is None,
            cli.logo is None,
    {
        Cli {
            config: None,
            fields: None,
            separator: None,
            all_disks: false,
            color: None,
            theme: None,
            logo: None,
        }
    }
}

} // verus!
