//! Rendering preferences: font family, font size and theme.

use crate::text::{decimal, decimal_string};
use vstd::prelude::*;
use vstd::string::*;

verus! {

#[derive(Clone, Copy, Debug, PartialEq, Eq, Structural)]
pub enum FontFamily {
    System,
    Menlo,
    Monaco,
    Helvetica,
}

#[derive(Clone, Copy, Debug, PartialEq, Eq, Structural)]
pub enum ThemeMode {
    Light,
    Dark,
    /// Follow the system preference.
    System,
}

pub const SYSTEM_FONT_STACK: &'static str =
    "-apple-system, BlinkMacSystemFont, \"Segoe UI\", Roboto, Helvetica, Arial, sans-serif";

pub const MENLO_FONT_STACK: &'static str = "\"SF Mono\", \"Menlo\", \"Monaco\", monospace";

pub const MONACO_FONT_STACK: &'static str = "\"Monaco\", \"SF Mono\", \"Menlo\", monospace";

pub const HELVETICA_FONT_STACK: &'static str = "\"Helvetica Neue\", Helvetica, Arial, sans-serif";

/// The CSS `font-family` value of each font family.
pub open spec fn font_stack(family: FontFamily) -> Seq<char> {
    match family {
        FontFamily::System => SYSTEM_FONT_STACK@,
        FontFamily::Menlo => MENLO_FONT_STACK@,
        FontFamily::Monaco => MONACO_FONT_STACK@,
        FontFamily::Helvetica => HELVETICA_FONT_STACK@,
    }
}

/// The CSS `color-scheme` value of each theme.
pub open spec fn color_scheme(theme: ThemeMode) -> Seq<char> {
    match theme {
        ThemeMode::Light => "light"@,
        ThemeMode::Dark => "dark"@,
        ThemeMode::System => "light dark"@,
    }
}

impl Default for FontFamily {
    fn default() -> (family: FontFamily)
        ensures
            family == FontFamily::System,
    {
        FontFamily::System
    }
}

impl FontFamily {
    pub fn css_value(&self) -> (value: &'static str)
        ensures
            value@ == font_stack(*self),
    {
        match self {
            FontFamily::System => SYSTEM_FONT_STACK,
            FontFamily::Menlo => MENLO_FONT_STACK,
            FontFamily::Monaco => MONACO_FONT_STACK,
            FontFamily::Helvetica => HELVETICA_FONT_STACK,
        }
    }
}

impl Default for ThemeMode {
    fn default() -> (theme: ThemeMode)
        ensures
            theme == ThemeMode::System,
    {
        ThemeMode::System
    }
}

impl ThemeMode {
    pub fn css_color_scheme(&self) -> (value: &'static str)
        ensures
            value@ == color_scheme(*self),
    {
        match self {
            ThemeMode::Light => "light",
            ThemeMode::Dark => "dark",
            ThemeMode::System => "light dark",
        }
    }
}

/// The font size, in whole points, that the preferences start with and
/// that a reset returns to.
pub const DEFAULT_FONT_SIZE: u32 = 14;

/// The opening of the `:root` rule, up to the colour scheme.
pub const ROOT_OPEN: &'static str =
    ":root {\n    color-scheme: ";

/// Ends the colour scheme declaration.
pub const ROOT_SCHEME_END: &'static str =
    ";\n";

/// The colour variables of the light palette.
pub const LIGHT_VARIABLES: &'static str =
    "    --border-color: #d1d9e0;\n    --code-bg-color: rgba(175, 184, 193, 0.2);\n    --pre-bg-color: #f6f8fa;\n    --muted-text-color: #57606a;\n    --table-row-bg: #ffffff;\n    --table-row-alt-bg: #f6f8fa;\n    --table-header-bg: #f6f8fa;\n    --table-row-hover-bg: #f5f8ff;\n    --table-row-alt-hover-bg: #eef4ff;\n";

/// The colour variables of the dark palette.
pub const DARK_VARIABLES: &'static str =
    "    --border-color: #30363d;\n    --code-bg-color: rgba(110, 118, 129, 0.4);\n    --pre-bg-color: #161b22;\n    --muted-text-color: #8b949e;\n    --table-row-bg: #0d1117;\n    --table-row-alt-bg: #161b22;\n    --table-header-bg: #21262d;\n    --table-row-hover-bg: #1c2128;\n    --table-row-alt-hover-bg: #262c36;\n";

/// Closes the `:root` rule.
pub const ROOT_CLOSE: &'static str =
    "}\n";

/// The opening of the `body` rule, up to the font family.
pub const BODY_OPEN: &'static str =
    "body {\n    font-family: ";

/// Between the font family and the font size.
pub const BODY_FONT_SIZE: &'static str =
    ";\n    font-size: ";

/// The rest of the `body` rule and the rules that do not depend on the preferences.
pub const BASE_RULES: &'static str =
    "px;\n    font-weight: normal;\n    line-height: 1.6;\n    padding: 20px;\n    margin: 0;\n}\nh1, h2, h3, h4, h5, h6 {\n    border-bottom: 1px solid var(--border-color);\n    padding-bottom: .3em;\n    margin-top: 24px;\n    margin-bottom: 16px;\n}\ncode {\n    font-family: \"SF Mono\", \"Menlo\", \"Monaco\", monospace;\n    background-color: var(--code-bg-color);\n    padding: .2em .4em;\n    margin: 0;\n    font-size: 85%;\n    border-radius: 6px;\n}\npre {\n    font-family: \"SF Mono\", \"Menlo\", \"Monaco\", monospace;\n    background-color: var(--pre-bg-color);\n    padding: 16px;\n    border-radius: 6px;\n    overflow: auto;\n}\npre > code {\n    padding: 0;\n    margin: 0;\n    font-size: 100%;\n    background-color: transparent;\n    border: none;\n}\nblockquote {\n    border-left: .25em solid var(--border-color);\n    padding: 0 1em;\n    color: var(--muted-text-color);\n}\ntable {\n    border-collapse: collapse;\n    border-spacing: 0;\n    margin: 16px 0;\n    width: 100%;\n    overflow: visible;\n    display: table;\n    border: 1px solid var(--border-color);\n    border-radius: 6px;\n}\ntable thead {\n    display: table-header-group;\n}\ntable tbody {\n    display: table-row-group;\n}\ntable thead tr {\n    background-color: var(--table-header-bg);\n    border-top: none;\n}\ntable tbody tr {\n    background-color: var(--table-row-bg);\n    border-top: 1px solid var(--border-color);\n}\ntable tr:first-child {\n    border-top: none;\n}\ntable th,\ntable td {\n    padding: 8px 12px;\n    border-right: 1px solid var(--border-color);\n    display: table-cell;\n    text-align: left;\n    vertical-align: top;\n    line-height: 1.5;\n}\ntable th:last-child,\ntable td:last-child {\n    border-right: none;\n}\ntable th {\n    font-weight: 600;\n    background-color: var(--table-header-bg);\n    border-bottom: 1px solid var(--border-color);\n}\ntable td {\n    font-weight: normal;\n    background-color: var(--table-row-bg);\n}\ntable tbody tr:hover {\n    background-color: var(--table-row-hover-bg);\n}\n/* Mermaid diagram styling */\n.mermaid-container {\n    position: relative;\n    margin: 16px 0;\n}\n.mermaid-buttons {\n    position: absolute;\n    top: 8px;\n    right: 8px;\n    z-index: 10;\n    display: flex;\n    gap: 4px;\n}\n.mermaid-toggle-btn,\n.mermaid-copy-btn {\n    background: var(--table-header-bg);\n    border: 1px solid var(--border-color);\n    border-radius: 4px;\n    padding: 4px 8px;\n    font-size: 12px;\n    cursor: pointer;\n    opacity: 0.7;\n    transition: opacity 0.2s ease;\n}\n.mermaid-toggle-btn:hover,\n.mermaid-copy-btn:hover {\n    opacity: 1;\n    background: var(--table-row-hover-bg);\n}\n.mermaid-raw {\n    font-family: \"SF Mono\", \"Menlo\", \"Monaco\", monospace;\n    background-color: var(--pre-bg-color);\n    padding: 16px;\n    border-radius: 6px;\n    border: 1px solid var(--border-color);\n    overflow: auto;\n    margin: 0;\n}\n.mermaid-raw code {\n    background: transparent;\n    padding: 0;\n    border: none;\n    font-size: 14px;\n}\n.mermaid {\n    text-align: center;\n    padding: 16px;\n    background-color: var(--pre-bg-color);\n    border-radius: 6px;\n    border: 1px solid var(--border-color);\n    overflow: auto;\n}\n.mermaid svg {\n    max-width: 100%;\n    height: auto;\n}\n/* Ensure mermaid diagrams are visible in both themes */\n.mermaid .node rect,\n.mermaid .node circle,\n.mermaid .node ellipse,\n.mermaid .node polygon {\n    stroke: var(--border-color);\n    stroke-width: 1px;\n}\n.mermaid .edgePath path {\n    stroke: var(--muted-text-color);\n    stroke-width: 1.5px;\n}\n.mermaid .edgeLabel {\n    background-color: var(--table-row-bg);\n    border: 1px solid var(--border-color);\n    border-radius: 3px;\n    padding: 2px 4px;\n}\n";

/// The body colours of the dark theme.
pub const DARK_BODY_RULES: &'static str =
    "body {\n    background-color: #0d1117;\n    color: #f0f6fc;\n}\n/* Ensure code blocks have bright text in dark mode */\npre, pre code, code {\n    color: #f0f6fc !important;\n}\npre code span {\n    opacity: 1 !important;\n}\n";

/// The dark overrides applied when the system prefers a dark scheme.
pub const SYSTEM_DARK_RULES: &'static str =
    "\n/* Dark theme overrides for system theme */\n@media (prefers-color-scheme: dark) {\n    :root {\n        --border-color: #30363d;\n        --code-bg-color: rgba(110, 118, 129, 0.4);\n        --pre-bg-color: #161b22;\n        --muted-text-color: #8b949e;\n        --table-row-bg: #0d1117;\n        --table-row-alt-bg: #161b22;\n        --table-header-bg: #21262d;\n        --table-row-hover-bg: #1c2128;\n        --table-row-alt-hover-bg: #262c36;\n    }\n    body {\n        background-color: #0d1117;\n        color: #f0f6fc;\n    }\n    /* Ensure code blocks have bright text in dark mode */\n    pre, pre code, code {\n        color: #f0f6fc !important;\n    }\n    pre code span {\n        opacity: 1 !important;\n    }\n}\n";

/// Font, size and theme used to style the rendered document.
///
/// The font size is held in whole points.
#[derive(Clone, Copy, Debug, PartialEq, Eq, Structural)]
pub struct StylePreferences {
    pub font_family: FontFamily,
    pub font_size: u32,
    pub theme: ThemeMode,
}

/// The next larger step on the font size scale; sizes off the scale stay.
pub open spec fn larger_font_size(size: u32) -> u32 {
    if 8 <= size <= 9 {
        10
    } else if 10 <= size <= 11 {
        12
    } else if 12 <= size <= 13 {
        14
    } else if 14 <= size <= 15 {
        16
    } else if 16 <= size <= 17 {
        18
    } else if 18 <= size <= 21 {
        22
    } else if 22 <= size <= 27 {
        28
    } else if 28 <= size <= 35 {
        36
    } else if 36 <= size <= 47 {
        48
    } else if 48 <= size <= 71 {
        72
    } else {
        size
    }
}

/// The next smaller step on the font size scale; sizes off the scale stay.
pub open spec fn smaller_font_size(size: u32) -> u32 {
    if 9 <= size <= 10 {
        8
    } else if 11 <= size <= 12 {
        10
    } else if 13 <= size <= 14 {
        12
    } else if 15 <= size <= 16 {
        14
    } else if 17 <= size <= 18 {
        16
    } else if 19 <= size <= 22 {
        18
    } else if 23 <= size <= 28 {
        22
    } else if 29 <= size <= 36 {
        28
    } else if 37 <= size <= 48 {
        36
    } else if 49 <= size <= 72 {
        48
    } else {
        size
    }
}

/// The colour variables declared in the `:root` rule for each theme.
pub open spec fn theme_variables(theme: ThemeMode) -> Seq<char> {
    match theme {
        ThemeMode::Light => LIGHT_VARIABLES@,
        ThemeMode::Dark => DARK_VARIABLES@,
        ThemeMode::System => LIGHT_VARIABLES@,
    }
}

/// The rules that follow the base rules for each theme.
pub open spec fn theme_overrides(theme: ThemeMode) -> Seq<char> {
    match theme {
        ThemeMode::Light => Seq::empty(),
        ThemeMode::Dark => DARK_BODY_RULES@,
        ThemeMode::System => SYSTEM_DARK_RULES@,
    }
}

/// The stylesheet for the given preferences.
pub open spec fn stylesheet(preferences: StylePreferences) -> Seq<char> {
    ROOT_OPEN@ + color_scheme(preferences.theme) + ROOT_SCHEME_END@ + theme_variables(
        preferences.theme,
    ) + ROOT_CLOSE@ + BODY_OPEN@ + font_stack(preferences.font_family) + BODY_FONT_SIZE@ + decimal(
        preferences.font_size as nat,
    ) + BASE_RULES@ + theme_overrides(preferences.theme)
}

/// The preferences a document starts with.
pub open spec fn default_preferences() -> StylePreferences {
    StylePreferences {
        font_family: FontFamily::System,
        font_size: DEFAULT_FONT_SIZE,
        theme: ThemeMode::System,
    }
}

impl Default for StylePreferences {
    fn default() -> (preferences: StylePreferences)
        ensures
            preferences == default_preferences(),
    {
        StylePreferences {
            font_family: FontFamily::System,
            font_size: DEFAULT_FONT_SIZE,
            theme: ThemeMode::System,
        }
    }
}

impl StylePreferences {
    /// Moves the font size one step up the scale.
    pub fn increase_font_size(&mut self)
        ensures
            *final(self) == (StylePreferences {
                font_size: larger_font_size(old(self).font_size),
                ..*old(self)
            }),
    {
        let size = self.font_size;
        let new_size: u32 = if 8 <= size && size <= 9 {
            10
        } else if 10 <= size && size <= 11 {
            12
        } else if 12 <= size && size <= 13 {
            14
        } else if 14 <= size && size <= 15 {
            16
        } else if 16 <= size && size <= 17 {
            18
        } else if 18 <= size && size <= 21 {
            22
        } else if 22 <= size && size <= 27 {
            28
        } else if 28 <= size && size <= 35 {
            36
        } else if 36 <= size && size <= 47 {
            48
        } else if 48 <= size && size <= 71 {
            72
        } else {
            size
        };
        self.font_size = new_size;
    }

    /// Moves the font size one step down the scale.
    pub fn decrease_font_size(&mut self)
        ensures
            *final(self) == (StylePreferences {
                font_size: smaller_font_size(old(self).font_size),
                ..*old(self)
            }),
    {
        let size = self.font_size;
        let new_size: u32 = if 9 <= size && size <= 10 {
            8
        } else if 11 <= size && size <= 12 {
            10
        } else if 13 <= size && size <= 14 {
            12
        } else if 15 <= size && size <= 16 {
            14
        } else if 17 <= size && size <= 18 {
            16
        } else if 19 <= size && size <= 22 {
            18
        } else if 23 <= size && size <= 28 {
            22
        } else if 29 <= size && size <= 36 {
            28
        } else if 37 <= size && size <= 48 {
            36
        } else if 49 <= size && size <= 72 {
            48
        } else {
            size
        };
        self.font_size = new_size;
    }

    /// Returns the font size to its default.
    pub fn reset_font_size(&mut self)
        ensures
            *final(self) == (StylePreferences { font_size: DEFAULT_FONT_SIZE, ..*old(self) }),
    {
        self.font_size = DEFAULT_FONT_SIZE;
    }

    /// The stylesheet for these preferences.
    pub fn generate_css(&self) -> (css: String)
        ensures
            css@ == stylesheet(*self),
    {
        let size = decimal_string(self.font_size as u64);
        let mut css = String::new();
        css.append(ROOT_OPEN);
        css.append(self.theme.css_color_scheme());
        css.append(ROOT_SCHEME_END);
        match self.theme {
            ThemeMode::Light => {
                css.append(LIGHT_VARIABLES);
            },
            ThemeMode::Dark => {
                css.append(DARK_VARIABLES);
            },
            ThemeMode::System => {
                css.append(LIGHT_VARIABLES);
            },
        }
        css.append(ROOT_CLOSE);
        css.append(BODY_OPEN);
        css.append(self.font_family.css_value());
        css.append(BODY_FONT_SIZE);
        css.append(size.as_str());
        css.append(BASE_RULES);
        match self.theme {
            ThemeMode::Dark => {
                css.append(DARK_BODY_RULES);
            },
            ThemeMode::System => {
                css.append(SYSTEM_DARK_RULES);
            },
            ThemeMode::Light => {},
        }
        proof {
            assert(css@ =~= stylesheet(*self));
        }
        css
    }
}

} // verus!
