//! Palettes.

use vstd::prelude::*;

use crate::protocol::ThemeName;
use crate::text;
use crate::text::{parse_number, same_text, split};
use crate::tui::state::AppState;

verus! {

/// A terminal color.
#[derive(Clone, Copy, Debug, PartialEq, Eq, Structural)]
pub enum Color {
    /// Whatever the terminal has by itself.
    Reset,
    Black,
    White,
    Gray,
    DarkGray,
    Blue,
    Green,
    Yellow,
    Red,
    Cyan,
    Rgb(u8, u8, u8),
}

/// Semantic colors that renderers use; the named themes all stand here.
#[derive(Clone, Copy, Debug, PartialEq, Eq, Structural)]
pub struct ThemeTokens {
    pub background: Color,
    pub primary: Color,
    pub secondary: Color,
    pub border: Color,
    pub highlight: Color,
    pub success: Color,
    pub warning: Color,
    pub error: Color,
    pub command: Color,
    pub diff_add: Color,
    pub diff_remove: Color,
    pub approval: Color,
    pub danger: Color,
}

/// The color of selected text and of highlighted rows in the popups.
pub open spec fn selection_tint() -> Color {
    Color::Rgb(120, 170, 230)
}

/// The color of selected text and of highlighted rows in the popups.
pub fn selection_color() -> (r: Color)
    ensures
        r == selection_tint(),
{
    Color::Rgb(120, 170, 230)
}

/// The palette of a theme; without color support every role has the terminal's own color.
pub open spec fn palette(theme: ThemeName, colors_supported: bool) -> ThemeTokens {
    if !colors_supported {
        ThemeTokens {
            background: Color::Reset,
            primary: Color::Reset,
            secondary: Color::Reset,
            border: Color::Reset,
            highlight: Color::Reset,
            success: Color::Reset,
            warning: Color::Reset,
            error: Color::Reset,
            command: Color::Reset,
            diff_add: Color::Reset,
            diff_remove: Color::Reset,
            approval: Color::Reset,
            danger: Color::Reset,
        }
    } else {
        let shared = ThemeTokens {
            background: Color::Black,
            primary: Color::White,
            secondary: Color::DarkGray,
            border: Color::Gray,
            highlight: selection_tint(),
            success: Color::Green,
            warning: Color::Yellow,
            error: Color::Red,
            command: Color::Cyan,
            diff_add: Color::Green,
            diff_remove: Color::Red,
            approval: Color::Green,
            danger: Color::Red,
        };
        match theme {
            ThemeName::Light => ThemeTokens {
                background: Color::White,
                primary: Color::Black,
                highlight: Color::Blue,
                command: Color::Blue,
                ..shared
            },
            ThemeName::HighContrast => ThemeTokens {
                secondary: Color::White,
                border: Color::White,
                highlight: Color::Yellow,
                ..shared
            },
            ThemeName::Dark | ThemeName::System => shared,
        }
    }
}

/// The palette of a theme.
#[must_use]
pub fn theme_tokens(theme: ThemeName, colors_supported: bool) -> (r: ThemeTokens)
    ensures
        r == palette(theme, colors_supported),
{
    if !colors_supported {
        return ThemeTokens {
            background: Color::Reset,
            primary: Color::Reset,
            secondary: Color::Reset,
            border: Color::Reset,
            highlight: Color::Reset,
            success: Color::Reset,
            warning: Color::Reset,
            error: Color::Reset,
            command: Color::Reset,
            diff_add: Color::Reset,
            diff_remove: Color::Reset,
            approval: Color::Reset,
            danger: Color::Reset,
        };
    }
    match theme {
        ThemeName::Light => ThemeTokens {
            background: Color::White,
            primary: Color::Black,
            secondary: Color::DarkGray,
            border: Color::Gray,
            highlight: Color::Blue,
            success: Color::Green,
            warning: Color::Yellow,
            error: Color::Red,
            command: Color::Blue,
            diff_add: Color::Green,
            diff_remove: Color::Red,
            approval: Color::Green,
            danger: Color::Red,
        },
        ThemeName::HighContrast => ThemeTokens {
            background: Color::Black,
            primary: Color::White,
            secondary: Color::White,
            border: Color::White,
            highlight: Color::Yellow,
            success: Color::Green,
            warning: Color::Yellow,
            error: Color::Red,
            command: Color::Cyan,
            diff_add: Color::Green,
            diff_remove: Color::Red,
            approval: Color::Green,
            danger: Color::Red,
        },
        ThemeName::Dark | ThemeName::System => ThemeTokens {
            background: Color::Black,
            primary: Color::White,
            secondary: Color::DarkGray,
            border: Color::Gray,
            highlight: Color::Rgb(120, 170, 230),
            success: Color::Green,
            warning: Color::Yellow,
            error: Color::Red,
            command: Color::Cyan,
            diff_add: Color::Green,
            diff_remove: Color::Red,
            approval: Color::Green,
            danger: Color::Red,
        },
    }
}

/// What the environment tells of the terminal: whether `NO_COLOR` is set, and the values of `TERM`
/// and `COLORFGBG`.
#[derive(Debug, PartialEq, Eq)]
pub struct TerminalHints {
    pub no_color: bool,
    pub term: Option<String>,
    pub colors: Option<String>,
}

/// Whether the terminal's background is light: the last number of `COLORFGBG` is a high one.
pub open spec fn is_light(colors: Option<Seq<char>>) -> bool {
    match colors {
        Some(value) => match text::number_within(text::split_on(value, ';').last(), 255) {
            Some(background) => background >= 8,
            None => false,
        },
        None => false,
    }
}

/// The palette in use: the system theme follows the terminal's background, dark where that is not
/// known.
pub open spec fn active_palette(theme: ThemeName, hints: TerminalHints) -> ThemeTokens {
    let dumb = match hints.term {
        Some(term) => term@ == "dumb"@,
        None => false,
    };
    palette(
        if theme == ThemeName::System {
            if is_light(text::opt_text(hints.colors)) {
                ThemeName::Light
            } else {
                ThemeName::Dark
            }
        } else {
            theme
        },
        !hints.no_color && !dumb,
    )
}

/// The palette in use.
pub fn active_theme(s: &AppState, hints: &TerminalHints) -> (r: ThemeTokens)
    ensures
        r == active_palette(s.preferences.theme, *hints),
{
    let dumb: bool = match &hints.term {
        Some(term) => same_text(term.as_str(), "dumb"),
        None => false,
    };
    let supported: bool = !hints.no_color && !dumb;
    if s.preferences.theme != ThemeName::System {
        return theme_tokens(s.preferences.theme, supported);
    }
    let mut light: bool = false;
    match &hints.colors {
        Some(value) => {
            let parts: Vec<String> = split(value.as_str(), ';');
            let ghost all = text::texts(parts@);
            assert(all.last() == parts@[parts@.len() - 1]@);
            match parse_number(parts[parts.len() - 1].as_str(), 255) {
                Some(background) => {
                    light = background >= 8;
                },
                None => {},
            }
        },
        None => {},
    }
    if light {
        theme_tokens(ThemeName::Light, supported)
    } else {
        theme_tokens(ThemeName::Dark, supported)
    }
}

/// With colors, text and background differ in every theme, and a light theme is the light one.
pub proof fn law_every_theme_is_readable(theme: ThemeName)
    ensures
        palette(theme, true).primary != palette(theme, true).background,
        palette(theme, true).highlight != palette(theme, true).background,
        palette(theme, true).background == Color::White <==> theme == ThemeName::Light,
{
}

} // verus!
