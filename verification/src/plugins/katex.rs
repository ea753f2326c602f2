//! Formulas: code blocks in the `math`, `latex` and `tex` languages.

use crate::gui::types::ThemeMode;
use crate::markdown::parser::{escape_attribute, escape_attribute_text, escape_markup, escape_markup_text};
use crate::plugins::{Plugin, PluginContext, PluginContextView, PluginError, PluginResult, PluginResultView};
use crate::text::{chars_contain, contains_seq, lemma_trim_starts_with, starts_with, starts_with_at, str_equals, string_views, to_chars, trim, trim_bounds};
use vstd::prelude::*;
use vstd::string::*;

verus! {

pub const MATH_PLUGIN_NAME: &'static str = "latex";

pub const MATH_PLUGIN_VERSION: &'static str = "1.0.0";

pub const MATH_LIBRARY: &'static str = "https://cdn.jsdelivr.net/npm/katex@0.16.22/dist/katex.min.js";

pub const MATH_STYLESHEET: &'static str =
    "https://cdn.jsdelivr.net/npm/katex@0.16.22/dist/katex.min.css";

pub const DISPLAY_CLASS: &'static str = "math-display";

pub const INLINE_CLASS: &'static str = "math-inline";

/// The math markup, up to the source attribute.
pub const MATH_OPEN: &'static str =
    "<div class=\"latex-container\" data-latex-source=\"";

/// The math markup between the source attribute and the display class.
pub const MATH_BUTTONS: &'static str =
    "\">\n                <div class=\"latex-buttons\">\n                    <button class=\"latex-toggle-btn\" onclick=\"toggleLatexView(this)\" title=\"Toggle rendered/raw view\">View</button>\n                    <button class=\"latex-copy-btn\" onclick=\"copyLatexCode(this)\" title=\"Copy LaTeX source\">Copy</button>\n                </div>\n                <div class=\"latex-math ";

/// The math markup between the display class and the formula attribute.
pub const MATH_DATA: &'static str =
    "\" data-latex=\"";

/// The math markup between the formula attribute and the raw source.
pub const MATH_RAW: &'static str =
    "\"></div>\n                <pre class=\"latex-raw\" style=\"display: none;\"><code>";

/// The math markup after the raw source.
pub const MATH_CLOSE: &'static str =
    "</code></pre>\n            </div>";

/// The math options for the light theme.
pub const LIGHT_MATH_OPTIONS: &'static str =
    "\n                trust: (context) => ['\\\\htmlId', '\\\\href'].includes(context.command),\n                strict: false,\n                output: 'htmlAndMathml',\n                displayMode: false,\n                throwOnError: false,\n                errorColor: '#cc0000',\n                macros: {\n                    \"\\\\RR\": \"\\\\mathbb{R}\",\n                    \"\\\\NN\": \"\\\\mathbb{N}\",\n                    \"\\\\ZZ\": \"\\\\mathbb{Z}\",\n                    \"\\\\QQ\": \"\\\\mathbb{Q}\",\n                    \"\\\\CC\": \"\\\\mathbb{C}\"\n                }";

/// The math options for the dark theme.
pub const DARK_MATH_OPTIONS: &'static str =
    "\n                trust: (context) => ['\\\\htmlId', '\\\\href'].includes(context.command),\n                strict: false,\n                output: 'htmlAndMathml',\n                displayMode: false,\n                throwOnError: false,\n                errorColor: '#ff6b6b',\n                macros: {\n                    \"\\\\RR\": \"\\\\mathbb{R}\",\n                    \"\\\\NN\": \"\\\\mathbb{N}\",\n                    \"\\\\ZZ\": \"\\\\mathbb{Z}\",\n                    \"\\\\QQ\": \"\\\\mathbb{Q}\",\n                    \"\\\\CC\": \"\\\\mathbb{C}\"\n                }";

/// The math options that follow the system.
pub const SYSTEM_MATH_OPTIONS: &'static str =
    "\n                trust: (context) => ['\\\\htmlId', '\\\\href'].includes(context.command),\n                strict: false,\n                output: 'htmlAndMathml',\n                displayMode: false,\n                throwOnError: false,\n                errorColor: window.matchMedia && window.matchMedia('(prefers-color-scheme: dark)').matches ? '#ff6b6b' : '#cc0000',\n                macros: {\n                    \"\\\\RR\": \"\\\\mathbb{R}\",\n                    \"\\\\NN\": \"\\\\mathbb{N}\",\n                    \"\\\\ZZ\": \"\\\\mathbb{Z}\",\n                    \"\\\\QQ\": \"\\\\mathbb{Q}\",\n                    \"\\\\CC\": \"\\\\mathbb{C}\"\n                }";

/// The math script, up to the options.
pub const MATH_SCRIPT_OPEN: &'static str =
    "\n// LaTeX Plugin JavaScript\n\n// Initialize KaTeX when available\nif (typeof katex !== 'undefined') {\n    console.log('KaTeX is available, initializing LaTeX plugin');\n    \n    // Default KaTeX options\n    window.katexOptions = {\n        ";

/// The math script, after the options.
pub const MATH_SCRIPT_CLOSE: &'static str =
    "\n    };\n    \n    // Function to render LaTeX expressions\n    window.renderLatexExpressions = function() {\n        const latexElements = document.querySelectorAll('.latex-math');\n        console.log('Found', latexElements.length, 'LaTeX elements');\n        \n        latexElements.forEach((element, index) => {\n            const latexCode = element.getAttribute('data-latex');\n            if (!latexCode) return;\n            \n            console.log('Rendering LaTeX expression', index, 'with content length:', latexCode.length);\n            \n            try {\n                // Determine if this should be display math\n                const isDisplayMath = element.classList.contains('math-display') || \n                                     latexCode.includes('\\\\\\\\') || \n                                     latexCode.trim().startsWith('\\\\begin');\n                \n                const options = {\n                    ...window.katexOptions,\n                    displayMode: isDisplayMath\n                };\n                \n                // Clear the element and render\n                element.innerHTML = '';\n                katex.render(latexCode, element, options);\n                console.log('Successfully rendered LaTeX expression', index);\n            } catch (error) {\n                console.error('KaTeX rendering error for expression', index, ':', error);\n                element.innerHTML = '<div style=\"color: ' + window.katexOptions.errorColor + '; padding: 10px; font-family: monospace;\">LaTeX rendering error: ' + error.message + '</div>';\n            }\n        });\n    };\n    \n    // Render expressions after DOM is ready\n    setTimeout(() => {\n        window.renderLatexExpressions();\n    }, 100);\n    \n    // Re-render when theme changes (for system theme)\n    if (window.matchMedia) {\n        window.matchMedia('(prefers-color-scheme: dark)').addEventListener('change', (e) => {\n            window.katexOptions.errorColor = e.matches ? '#ff6b6b' : '#cc0000';\n            window.renderLatexExpressions();\n        });\n    }\n} else {\n    console.warn('KaTeX is not available. LaTeX expressions will not be rendered.');\n}\n\n// Copy function for LaTeX expressions\nwindow.copyLatexCode = function(button) {\n    const container = button.closest('.latex-container');\n    const rawSource = container.getAttribute('data-latex-source');\n    const unescapedCode = rawSource\n        .replace(/&amp;/g, '&')\n        .replace(/&quot;/g, '\"')\n        .replace(/&#39;/g, \"'\");\n    window.webkit.messageHandlers.copyText.postMessage(unescapedCode);\n};\n\n// Toggle function for LaTeX rendered/raw view\nwindow.toggleLatexView = function(button) {\n    const container = button.closest('.latex-container');\n    const renderedView = container.querySelector('.latex-math');\n    const rawView = container.querySelector('.latex-raw');\n    \n    if (renderedView.style.display === 'none') {\n        renderedView.style.display = 'block';\n        rawView.style.display = 'none';\n        button.textContent = 'View';\n        button.title = 'Toggle rendered/raw view';\n    } else {\n        renderedView.style.display = 'none';\n        rawView.style.display = 'block';\n        button.textContent = 'Raw';\n        button.title = 'Toggle rendered/raw view';\n    }\n};\n\n// Function to render new LaTeX expressions in appended content\nwindow.renderNewLatexExpressions = function(container) {\n    if (typeof katex === 'undefined') return;\n    \n    const newLatexElements = container.querySelectorAll('.latex-math');\n    newLatexElements.forEach((element, index) => {\n        const latexCode = element.getAttribute('data-latex');\n        if (!latexCode) return;\n        \n        try {\n            const isDisplayMath = element.classList.contains('math-display') || \n                                 latexCode.includes('\\\\\\\\') || \n                                 latexCode.trim().startsWith('\\\\begin');\n            \n            const options = {\n                ...window.katexOptions,\n                displayMode: isDisplayMath\n            };\n            \n            element.innerHTML = '';\n            katex.render(latexCode, element, options);\n        } catch (error) {\n            console.error('KaTeX rendering error for appended content:', error);\n            element.innerHTML = '<div style=\"color: ' + window.katexOptions.errorColor + '; padding: 10px;\">LaTeX rendering error: ' + error.message + '</div>';\n        }\n    });\n};\n";

/// The styles of the math markup.
pub const MATH_STYLES: &'static str =
    "\n/* LaTeX Plugin Styles */\n.latex-container {\n    position: relative;\n    margin: 16px 0;\n}\n\n.latex-buttons {\n    position: absolute;\n    top: 8px;\n    right: 8px;\n    z-index: 10;\n    display: flex;\n    gap: 4px;\n}\n\n.latex-toggle-btn,\n.latex-copy-btn {\n    padding: 4px 8px;\n    font-size: 12px;\n    background: rgba(255, 255, 255, 0.9);\n    border: 1px solid #d0d7de;\n    border-radius: 4px;\n    cursor: pointer;\n    font-family: var(--font-family-mono);\n}\n\n.latex-toggle-btn:hover,\n.latex-copy-btn:hover {\n    background: rgba(255, 255, 255, 1);\n}\n\n@media (prefers-color-scheme: dark) {\n    .latex-toggle-btn,\n    .latex-copy-btn {\n        background: rgba(33, 38, 45, 0.9);\n        border-color: #30363d;\n        color: #f0f6fc;\n    }\n    \n    .latex-toggle-btn:hover,\n    .latex-copy-btn:hover {\n        background: rgba(33, 38, 45, 1);\n    }\n}\n\n.latex-math {\n    background: var(--color-canvas-default);\n    border: 1px solid var(--color-border-default);\n    border-radius: 6px;\n    padding: 16px;\n    overflow: auto;\n    min-height: 40px;\n}\n\n.latex-math.math-display {\n    text-align: center;\n    padding: 20px 16px;\n}\n\n.latex-math.math-inline {\n    display: inline-block;\n    padding: 8px 12px;\n    margin: 0 4px;\n    vertical-align: middle;\n}\n\n.latex-raw {\n    margin: 0;\n}\n\n.latex-raw code {\n    display: block;\n    padding: 16px;\n    background: var(--color-canvas-subtle);\n    border-radius: 6px;\n    overflow: auto;\n    white-space: pre;\n    font-family: var(--font-family-mono);\n}\n\n/* KaTeX dark theme support */\n@media (prefers-color-scheme: dark) {\n    .latex-math .katex {\n        color: #f0f6fc;\n    }\n    \n    .latex-math .katex .mord {\n        color: #f0f6fc;\n    }\n    \n    .latex-math .katex .mbin,\n    .latex-math .katex .mrel {\n        color: #79c0ff;\n    }\n    \n    .latex-math .katex .mop {\n        color: #d2a8ff;\n    }\n    \n    .latex-math .katex .mopen,\n    .latex-math .katex .mclose {\n        color: #ffa657;\n    }\n}\n\n/* Ensure KaTeX fonts render properly */\n.latex-math .katex {\n    font-size: 1.1em;\n}\n\n.latex-math.math-display .katex {\n    font-size: 1.3em;\n}\n";

/// Renders formulas.
pub struct LatexPlugin {
    initialized: bool,
}

/// The languages of formulas.
pub open spec fn is_math_language(language: Seq<char>) -> bool {
    language == "math"@ || language == "latex"@ || language == "tex"@
}

/// The marker that opens an environment.
pub open spec fn begin_marker() -> Seq<char> {
    seq!['\\', 'b', 'e', 'g', 'i', 'n']
}

/// The marker that breaks a line.
pub open spec fn line_break_marker() -> Seq<char> {
    seq!['\\', '\\']
}

/// Whether a formula is set on a line of its own: the language says so, or
/// the formula opens an environment or breaks a line.
pub open spec fn is_display_math(content: Seq<char>, language: Seq<char>) -> bool {
    language == "math"@ || starts_with(trim(content), begin_marker()) || contains_seq(
        content,
        line_break_marker(),
    )
}

/// The class of the formula markup.
pub open spec fn math_class(content: Seq<char>, language: Seq<char>) -> Seq<char> {
    if is_display_math(content, language) {
        DISPLAY_CLASS@
    } else {
        INLINE_CLASS@
    }
}

/// The markup of a formula with the source `content`.
pub open spec fn math_markup(content: Seq<char>, language: Seq<char>) -> Seq<char> {
    MATH_OPEN@ + escape_attribute(content) + MATH_BUTTONS@ + math_class(content, language)
        + MATH_DATA@ + escape_attribute(content) + MATH_RAW@ + escape_markup(content) + MATH_CLOSE@
}

/// What the formula plugin makes of a code block: formula markup for a
/// block in one of its languages, nothing for any other.
pub open spec fn math_result(content: Seq<char>, language: Seq<char>) -> Option<PluginResultView> {
    if is_math_language(language) {
        Some(PluginResultView { html: math_markup(content, language), javascript: None, css: None })
    } else {
        None
    }
}

/// The math options for each theme.
pub open spec fn math_options(theme: ThemeMode) -> Seq<char> {
    match theme {
        ThemeMode::Light => LIGHT_MATH_OPTIONS@,
        ThemeMode::Dark => DARK_MATH_OPTIONS@,
        ThemeMode::System => SYSTEM_MATH_OPTIONS@,
    }
}

/// The script the page needs for formulas under `theme`.
pub open spec fn math_script(theme: ThemeMode) -> Seq<char> {
    MATH_SCRIPT_OPEN@ + math_options(theme) + MATH_SCRIPT_CLOSE@
}

impl LatexPlugin {
    pub fn new() -> (plugin: LatexPlugin)
        ensures
            !plugin.is_initialized(),
    {
        LatexPlugin { initialized: false }
    }

    /// Whether the plugin has been started and not stopped since.
    pub closed spec fn is_initialized(&self) -> bool {
        self.initialized
    }

    /// Whether the plugin has been started and not stopped since.
    pub fn initialized(&self) -> (started: bool)
        ensures
            started == self.is_initialized(),
    {
        self.initialized
    }
}

/// Whether a formula is set on a line of its own.
pub fn display_math(content: &str, language: &str) -> (display: bool)
    ensures
        display == is_display_math(content@, language@),
{
    if str_equals(language, "math") {
        return true;
    }
    let chars = to_chars(content);
    let bounds = trim_bounds(&chars);
    let begin: Vec<char> = vec!['\\', 'b', 'e', 'g', 'i', 'n'];
    let breaks: Vec<char> = vec!['\\', '\\'];
    proof {
        assert(begin@ =~= begin_marker());
        assert(breaks@ =~= line_break_marker());
        lemma_trim_starts_with(content@, begin_marker());
    }
    if starts_with_at(&chars, bounds.0, &begin) {
        return true;
    }
    chars_contain(&chars, &breaks)
}

impl Plugin for LatexPlugin {
    open spec fn plugin_name(&self) -> Seq<char> {
        MATH_PLUGIN_NAME@
    }

    open spec fn plugin_version(&self) -> Seq<char> {
        MATH_PLUGIN_VERSION@
    }

    open spec fn handles(&self, language: Seq<char>) -> bool {
        is_math_language(language)
    }

    open spec fn processed(&self, content: Seq<char>, language: Seq<char>, context: PluginContextView) -> Option<
        PluginResultView,
    > {
        math_result(content, language)
    }

    open spec fn javascript(&self, context: PluginContextView) -> Option<Seq<char>> {
        Some(math_script(context.theme_mode))
    }

    open spec fn css(&self, context: PluginContextView) -> Option<Seq<char>> {
        Some(MATH_STYLES@)
    }

    open spec fn external_scripts(&self) -> Seq<Seq<char>> {
        seq![MATH_LIBRARY@]
    }

    open spec fn external_css(&self) -> Seq<Seq<char>> {
        seq![MATH_STYLESHEET@]
    }

    open spec fn is_started(&self) -> bool {
        self.is_initialized()
    }

    open spec fn starts(&self) -> bool {
        true
    }

    open spec fn stops(&self) -> bool {
        true
    }

    fn name(&self) -> (name: &'static str) {
        MATH_PLUGIN_NAME
    }

    fn version(&self) -> (version: &'static str) {
        MATH_PLUGIN_VERSION
    }

    fn handles_language(&self, language: &str) -> (handled: bool) {
        str_equals(language, "math") || str_equals(language, "latex") || str_equals(language, "tex")
    }

    fn process_code_block(&self, content: &str, language: &str, _context: &PluginContext) -> (result:
        Option<PluginResult>) {
        if !self.handles_language(language) {
            return None;
        }
        let html_escaped_content = escape_markup_text(content);
        let attr_escaped_raw = escape_attribute_text(content);
        let class = if display_math(content, language) {
            DISPLAY_CLASS
        } else {
            INLINE_CLASS
        };
        let mut html = String::new();
        html.append(MATH_OPEN);
        html.append(attr_escaped_raw.as_str());
        html.append(MATH_BUTTONS);
        html.append(class);
        html.append(MATH_DATA);
        html.append(attr_escaped_raw.as_str());
        html.append(MATH_RAW);
        html.append(html_escaped_content.as_str());
        html.append(MATH_CLOSE);
        proof {
            assert(html@ =~= math_markup(content@, language@));
        }
        Some(PluginResult { html, javascript: None, css: None })
    }

    fn get_javascript(&self, context: &PluginContext) -> (script: Option<String>) {
        let theme_config = match context.theme_mode {
            ThemeMode::Light => LIGHT_MATH_OPTIONS,
            ThemeMode::Dark => DARK_MATH_OPTIONS,
            ThemeMode::System => SYSTEM_MATH_OPTIONS,
        };
        let mut javascript = String::new();
        javascript.append(MATH_SCRIPT_OPEN);
        javascript.append(theme_config);
        javascript.append(MATH_SCRIPT_CLOSE);
        proof {
            assert(javascript@ =~= MATH_SCRIPT_OPEN@ + math_options(context@.theme_mode)
                + MATH_SCRIPT_CLOSE@);
        }
        Some(javascript)
    }

    fn get_css(&self, _context: &PluginContext) -> (styles: Option<String>) {
        Some(MATH_STYLES.to_owned())
    }

    fn get_external_scripts(&self) -> (urls: Vec<String>) {
        let mut urls: Vec<String> = Vec::new();
        urls.push(MATH_LIBRARY.to_owned());
        proof {
            assert(string_views(urls@) =~= seq![MATH_LIBRARY@]);
        }
        urls
    }

    fn get_external_css(&self) -> (urls: Vec<String>) {
        let mut urls: Vec<String> = Vec::new();
        urls.push(MATH_STYLESHEET.to_owned());
        proof {
            assert(string_views(urls@) =~= seq![MATH_STYLESHEET@]);
        }
        urls
    }

    fn initialize(&mut self) -> (outcome: Result<(), PluginError>) {
        self.initialized = true;
        Ok(())
    }

    fn shutdown(&mut self) -> (outcome: Result<(), PluginError>) {
        self.initialized = false;
        Ok(())
    }
}

} // verus!
