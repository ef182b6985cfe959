//! User configuration, and how it combines with the command line into the
//! viewer's settings.

use vstd::prelude::*;

use crate::text::str_eq;
use crate::viewer::{wrap_mode_of, WrapMode};

verus! {

/// User-level configuration, read from the configuration file.
///
/// All fields are optional; missing fields fall back to command-line
/// arguments or defaults.
#[derive(Debug)]
pub struct Config {
    /// Wrap mode override: "none", "word", or "char"
    pub wrap: Option<String>,
    /// Show line numbers in the gutter
    pub line_numbers: Option<bool>,
    /// Theme name (e.g. "onedark", "dracula")
    pub theme: Option<String>,
    /// Show the status bar
    pub show_status: Option<bool>,
}

impl Default for Config {
    /// The configuration that sets nothing.
    fn default() -> (r: Config)
        ensures
            r.wrap is None,
            r.line_numbers is None,
            r.theme is None,
            r.show_status is None,
    {
        Config { wrap: None, line_numbers: None, theme: None, show_status: None }
    }
}

/// What the viewer starts with.
#[derive(Debug)]
pub struct Settings {
    pub wrap_mode: WrapMode,
    pub line_numbers: bool,
    pub show_status: bool,
    /// The theme asked for.
    pub theme_name: String,
}

pub open spec fn opt_view(o: Option<String>) -> Option<Seq<char>> {
    match o {
        Some(s) => Some(s@),
        None => None,
    }
}

/// The settings from the command line and the configuration: the command
/// line's wrap mode, else the configuration's, else word wrapping; line
/// numbers when either asks for them; the status bar unless the command line
/// hides it or the configuration turns it off; the command line's theme,
/// unless it is `auto`, which defers to the configuration's theme.
pub open spec fn settings_spec(
    wrap: Option<Seq<char>>,
    line_numbers: bool,
    no_status: bool,
    theme: Seq<char>,
    config_wrap: Option<Seq<char>>,
    config_line_numbers: Option<bool>,
    config_theme: Option<Seq<char>>,
    config_show_status: Option<bool>,
) -> (WrapMode, bool, bool, Seq<char>) {
    let w = match wrap {
        Some(w) => w,
        None => match config_wrap {
            Some(w) => w,
            None => "word"@,
        },
    };
    (
        wrap_mode_of(w),
        line_numbers || config_line_numbers.unwrap_or(false),
        !no_status && config_show_status.unwrap_or(true),
        if theme == "auto"@ {
            match config_theme {
                Some(t) => t,
                None => "auto"@,
            }
        } else {
            theme
        },
    )
}

/// Combines the command line's choices with the configuration.
pub fn resolve_settings(
    wrap: Option<String>,
    line_numbers: bool,
    no_status: bool,
    theme: String,
    config: &Config,
) -> (r: Settings)
    ensures
        (r.wrap_mode, r.line_numbers, r.show_status, r.theme_name@) == settings_spec(
            opt_view(wrap),
            line_numbers,
            no_status,
            theme@,
            opt_view(config.wrap),
            config.line_numbers,
            opt_view(config.theme),
            config.show_status,
        ),
{
    let w = match &wrap {
        Some(w) => w.clone(),
        None => match &config.wrap {
            Some(w) => w.clone(),
            None => String::from_str("word"),
        },
    };
    let theme_name = if str_eq(theme.as_str(), "auto") {
        match &config.theme {
            Some(t) => t.clone(),
            None => String::from_str("auto"),
        }
    } else {
        theme
    };
    Settings {
        wrap_mode: WrapMode::from_str(w.as_str()),
        line_numbers: line_numbers || match config.line_numbers {
            Some(b) => b,
            None => false,
        },
        show_status: !no_status && match config.show_status {
            Some(b) => b,
            None => true,
        },
        theme_name,
    }
}

/// Which theme a name selects.
#[derive(Debug)]
pub enum ThemeChoice {
    /// The built-in dark theme.
    Dark,
    /// The built-in light theme.
    Light,
    /// A theme to load by name.
    Named(String),
}

pub open spec fn choice_view(c: ThemeChoice) -> (u8, Seq<char>) {
    match c {
        ThemeChoice::Dark => (0, Seq::empty()),
        ThemeChoice::Light => (1, Seq::empty()),
        ThemeChoice::Named(n) => (2, n@),
    }
}

/// The theme a name selects at start-up: `auto` and `dark` the dark theme,
/// `light` the light one, any other name a theme to load.
pub fn startup_theme(name: &str) -> (r: ThemeChoice)
    ensures
        choice_view(r) == (if name@ == "auto"@ || name@ == "dark"@ {
            (0u8, Seq::<char>::empty())
        } else if name@ == "light"@ {
            (1u8, Seq::<char>::empty())
        } else {
            (2u8, name@)
        }),
{
    if str_eq(name, "auto") || str_eq(name, "dark") {
        ThemeChoice::Dark
    } else if str_eq(name, "light") {
        ThemeChoice::Light
    } else {
        ThemeChoice::Named(String::from_str(name))
    }
}

/// The theme a name selects when switching with `:theme`: `dark` the dark
/// theme, `light` the light one, any other name a theme to load.
pub fn switched_theme(name: &str) -> (r: ThemeChoice)
    ensures
        choice_view(r) == (if name@ == "dark"@ {
            (0u8, Seq::<char>::empty())
        } else if name@ == "light"@ {
            (1u8, Seq::<char>::empty())
        } else {
            (2u8, name@)
        }),
{
    if str_eq(name, "dark") {
        ThemeChoice::Dark
    } else if str_eq(name, "light") {
        ThemeChoice::Light
    } else {
        ThemeChoice::Named(String::from_str(name))
    }
}

} // verus!
