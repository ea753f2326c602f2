//! Diagrams: code blocks in the `mermaid` language.

use crate::gui::types::ThemeMode;
use crate::markdown::parser::{escape_attribute, escape_attribute_text, escape_markup, escape_markup_text};
use crate::plugins::{Plugin, PluginContext, PluginContextView, PluginError, PluginResult, PluginResultView};
use crate::text::{str_equals, string_views};
use vstd::prelude::*;
use vstd::string::*;

verus! {

pub const DIAGRAM_PLUGIN_NAME: &'static str = "mermaid";

pub const DIAGRAM_PLUGIN_VERSION: &'static str = "1.0.0";

pub const DIAGRAM_LANGUAGE: &'static str = "mermaid";

pub const DIAGRAM_LIBRARY: &'static str =
    "https://cdn.jsdelivr.net/npm/mermaid@11.9.0/dist/mermaid.min.js";

/// The diagram markup, up to the source attribute.
pub const DIAGRAM_OPEN: &'static str =
    "<div class=\"mermaid-container\" data-mermaid-source=\"";

/// The diagram markup between the source attribute and the diagram.
pub const DIAGRAM_BUTTONS: &'static str =
    "\">\n                <div class=\"mermaid-buttons\">\n                    <button class=\"mermaid-toggle-btn\" onclick=\"toggleMermaidView(this)\" title=\"Toggle rendered/raw view\">View</button>\n                    <button class=\"mermaid-copy-btn\" onclick=\"copyMermaidCode(this)\" title=\"Copy Mermaid source\">Copy</button>\n                </div>\n                <div class=\"mermaid\">";

/// The diagram markup between the diagram and its raw source.
pub const DIAGRAM_RAW: &'static str =
    "</div>\n                <pre class=\"mermaid-raw\" style=\"display: none;\"><code>";

/// The diagram markup after the raw source.
pub const DIAGRAM_CLOSE: &'static str =
    "</code></pre>\n            </div>";

/// The diagram theme settings for the light theme.
pub const LIGHT_DIAGRAM_THEME: &'static str =
    "\n                theme: 'base',\n                themeVariables: {\n                    primaryColor: '#ff6b35',\n                    primaryTextColor: '#24292f',\n                    primaryBorderColor: '#d1d9e0',\n                    lineColor: '#57606a',\n                    secondaryColor: '#f6f8fa',\n                    tertiaryColor: '#ffffff'\n                }";

/// The diagram theme settings for the dark theme.
pub const DARK_DIAGRAM_THEME: &'static str =
    "\n                theme: 'dark',\n                themeVariables: {\n                    primaryColor: '#ff6b35',\n                    primaryTextColor: '#f0f6fc',\n                    primaryBorderColor: '#30363d',\n                    lineColor: '#8b949e',\n                    secondaryColor: '#21262d',\n                    tertiaryColor: '#161b22'\n                }";

/// The diagram theme settings that follow the system.
pub const SYSTEM_DIAGRAM_THEME: &'static str =
    "\n                theme: window.matchMedia && window.matchMedia('(prefers-color-scheme: dark)').matches ? 'dark' : 'base',\n                themeVariables: {\n                    primaryColor: '#ff6b35',\n                    primaryTextColor: window.matchMedia && window.matchMedia('(prefers-color-scheme: dark)').matches ? '#f0f6fc' : '#24292f',\n                    primaryBorderColor: window.matchMedia && window.matchMedia('(prefers-color-scheme: dark)').matches ? '#30363d' : '#d1d9e0',\n                    lineColor: window.matchMedia && window.matchMedia('(prefers-color-scheme: dark)').matches ? '#8b949e' : '#57606a',\n                    secondaryColor: window.matchMedia && window.matchMedia('(prefers-color-scheme: dark)').matches ? '#21262d' : '#f6f8fa',\n                    tertiaryColor: window.matchMedia && window.matchMedia('(prefers-color-scheme: dark)').matches ? '#161b22' : '#ffffff'\n                }";

/// The diagram script, up to the theme settings.
pub const DIAGRAM_SCRIPT_OPEN: &'static str =
    "\n// Mermaid Plugin JavaScript\n\n// Initialize Mermaid when available\nif (typeof mermaid !== 'undefined') {\n    mermaid.initialize({\n        startOnLoad: false,\n        ";

/// The diagram script, after the theme settings.
pub const DIAGRAM_SCRIPT_CLOSE: &'static str =
    "\n    });\n    \n    // Function to render Mermaid diagrams\n    window.renderMermaidDiagrams = function() {\n        const mermaidElements = document.querySelectorAll('.mermaid');\n        console.log('Found', mermaidElements.length, 'mermaid elements');\n        \n        mermaidElements.forEach(async (element, index) => {\n            const graphDefinition = element.textContent.trim();\n            if (!graphDefinition) return;\n            \n            console.log('Rendering mermaid diagram', index, 'with content length:', graphDefinition.length);\n            \n            try {\n                element.innerHTML = '';\n                const { svg } = await mermaid.render(`mermaidChart${Date.now()}_${index}`, graphDefinition);\n                element.innerHTML = svg;\n                console.log('Successfully rendered diagram', index);\n            } catch (error) {\n                console.error('Mermaid rendering error for diagram', index, ':', error);\n                element.innerHTML = '<div style=\"color: red; padding: 10px; font-family: monospace;\">Mermaid rendering error: ' + error.message + '</div>';\n            }\n        });\n    };\n    \n    // Render diagrams after DOM is ready\n    setTimeout(() => {\n        window.renderMermaidDiagrams();\n    }, 100);\n    \n    // Re-render diagrams when theme changes (for system theme)\n    if (window.matchMedia) {\n        window.matchMedia('(prefers-color-scheme: dark)').addEventListener('change', (e) => {\n            mermaid.initialize({\n                startOnLoad: false,\n                theme: e.matches ? 'dark' : 'base',\n                themeVariables: {\n                    primaryColor: '#ff6b35',\n                    primaryTextColor: e.matches ? '#f0f6fc' : '#24292f',\n                    primaryBorderColor: e.matches ? '#30363d' : '#d1d9e0',\n                    lineColor: e.matches ? '#8b949e' : '#57606a',\n                    secondaryColor: e.matches ? '#21262d' : '#f6f8fa',\n                    tertiaryColor: e.matches ? '#161b22' : '#ffffff'\n                }\n            });\n            \n            window.renderMermaidDiagrams();\n        });\n    }\n}\n\n// Copy function for Mermaid diagrams\nwindow.copyMermaidCode = function(button) {\n    const container = button.closest('.mermaid-container');\n    const rawSource = container.getAttribute('data-mermaid-source');\n    const unescapedCode = rawSource\n        .replace(/&amp;/g, '&')\n        .replace(/&quot;/g, '\"')\n        .replace(/&#39;/g, \"'\");\n    window.webkit.messageHandlers.copyText.postMessage(unescapedCode);\n};\n\n// Toggle function for Mermaid rendered/raw view\nwindow.toggleMermaidView = function(button) {\n    const container = button.closest('.mermaid-container');\n    const renderedView = container.querySelector('.mermaid');\n    const rawView = container.querySelector('.mermaid-raw');\n    \n    if (renderedView.style.display === 'none') {\n        renderedView.style.display = 'block';\n        rawView.style.display = 'none';\n        button.textContent = 'View';\n        button.title = 'Toggle rendered/raw view';\n    } else {\n        renderedView.style.display = 'none';\n        rawView.style.display = 'block';\n        button.textContent = 'Raw';\n        button.title = 'Toggle rendered/raw view';\n    }\n};\n\n// Function to render new Mermaid diagrams in appended content\nwindow.renderNewMermaidDiagrams = function(container) {\n    if (typeof mermaid === 'undefined') return;\n    \n    const newMermaidElements = container.querySelectorAll('.mermaid');\n    newMermaidElements.forEach(async (element, index) => {\n        const graphDefinition = element.textContent.trim();\n        if (!graphDefinition) return;\n        \n        try {\n            element.innerHTML = '';\n            const { svg } = await mermaid.render(`appendedChart${Date.now()}_${index}`, graphDefinition);\n            element.innerHTML = svg;\n        } catch (error) {\n            console.error('Mermaid rendering error for appended content:', error);\n            element.innerHTML = '<div style=\"color: red; padding: 10px;\">Mermaid rendering error: ' + error.message + '</div>';\n        }\n    });\n};\n";

/// The styles of the diagram markup.
pub const DIAGRAM_STYLES: &'static str =
    "\n/* Mermaid Plugin Styles */\n.mermaid-container {\n    position: relative;\n    margin: 16px 0;\n}\n\n.mermaid-buttons {\n    position: absolute;\n    top: 8px;\n    right: 8px;\n    z-index: 10;\n    display: flex;\n    gap: 4px;\n}\n\n.mermaid-toggle-btn,\n.mermaid-copy-btn {\n    padding: 4px 8px;\n    font-size: 12px;\n    background: rgba(255, 255, 255, 0.9);\n    border: 1px solid #d0d7de;\n    border-radius: 4px;\n    cursor: pointer;\n    font-family: var(--font-family-mono);\n}\n\n.mermaid-toggle-btn:hover,\n.mermaid-copy-btn:hover {\n    background: rgba(255, 255, 255, 1);\n}\n\n@media (prefers-color-scheme: dark) {\n    .mermaid-toggle-btn,\n    .mermaid-copy-btn {\n        background: rgba(33, 38, 45, 0.9);\n        border-color: #30363d;\n        color: #f0f6fc;\n    }\n    \n    .mermaid-toggle-btn:hover,\n    .mermaid-copy-btn:hover {\n        background: rgba(33, 38, 45, 1);\n    }\n}\n\n.mermaid {\n    background: var(--color-canvas-default);\n    border: 1px solid var(--color-border-default);\n    border-radius: 6px;\n    padding: 16px;\n    overflow: auto;\n}\n\n.mermaid-raw {\n    margin: 0;\n}\n\n.mermaid-raw code {\n    display: block;\n    padding: 16px;\n    background: var(--color-canvas-subtle);\n    border-radius: 6px;\n    overflow: auto;\n    white-space: pre;\n    font-family: var(--font-family-mono);\n}\n";

/// Renders diagrams.
pub struct MermaidPlugin {
    initialized: bool,
}

/// The markup of a diagram with the source `content`.
pub open spec fn diagram_markup(content: Seq<char>) -> Seq<char> {
    DIAGRAM_OPEN@ + escape_attribute(content) + DIAGRAM_BUTTONS@ + content + DIAGRAM_RAW@
        + escape_markup(content) + DIAGRAM_CLOSE@
}

/// What the diagram plugin makes of a code block: diagram markup for a
/// block in its language, nothing for any other.
pub open spec fn diagram_result(content: Seq<char>, language: Seq<char>) -> Option<PluginResultView> {
    if language == DIAGRAM_LANGUAGE@ {
        Some(PluginResultView { html: diagram_markup(content), javascript: None, css: None })
    } else {
        None
    }
}

/// The diagram theme settings for each theme.
pub open spec fn diagram_theme(theme: ThemeMode) -> Seq<char> {
    match theme {
        ThemeMode::Light => LIGHT_DIAGRAM_THEME@,
        ThemeMode::Dark => DARK_DIAGRAM_THEME@,
        ThemeMode::System => SYSTEM_DIAGRAM_THEME@,
    }
}

/// The script the page needs for diagrams under `theme`.
pub open spec fn diagram_script(theme: ThemeMode) -> Seq<char> {
    DIAGRAM_SCRIPT_OPEN@ + diagram_theme(theme) + DIAGRAM_SCRIPT_CLOSE@
}

impl MermaidPlugin {
    pub fn new() -> (plugin: MermaidPlugin)
        ensures
            !plugin.is_initialized(),
    {
        MermaidPlugin { initialized: false }
    }

    /// Whether the plugin has been started and not stopped since.
    pub closed spec fn is_initialized(&self) -> bool {
        self.initialized
    }

    /// Whether the plugin has been started and not stopped since.
    pub fn initialized(&self) -> (started: bool)
        ensures
            started == self.is_initialized(),
    {
        self.initialized
    }
}

impl Plugin for MermaidPlugin {
    open spec fn plugin_name(&self) -> Seq<char> {
        DIAGRAM_PLUGIN_NAME@
    }

    open spec fn plugin_version(&self) -> Seq<char> {
        DIAGRAM_PLUGIN_VERSION@
    }

    open spec fn handles(&self, language: Seq<char>) -> bool {
        language == DIAGRAM_LANGUAGE@
    }

    open spec fn processed(&self, content: Seq<char>, language: Seq<char>, context: PluginContextView) -> Option<
        PluginResultView,
    > {
        diagram_result(content, language)
    }

    open spec fn javascript(&self, context: PluginContextView) -> Option<Seq<char>> {
        Some(diagram_script(context.theme_mode))
    }

    open spec fn css(&self, context: PluginContextView) -> Option<Seq<char>> {
        Some(DIAGRAM_STYLES@)
    }

    open spec fn external_scripts(&self) -> Seq<Seq<char>> {
        seq![DIAGRAM_LIBRARY@]
    }

    open spec fn external_css(&self) -> Seq<Seq<char>> {
        Seq::empty()
    }

    open spec fn is_started(&self) -> bool {
        self.is_initialized()
    }

    open spec fn starts(&self) -> bool {
        true
    }

    open spec fn stops(&self) -> bool {
        true
    }

    fn name(&self) -> (name: &'static str) {
        DIAGRAM_PLUGIN_NAME
    }

    fn version(&self) -> (version: &'static str) {
        DIAGRAM_PLUGIN_VERSION
    }

    fn handles_language(&self, language: &str) -> (handled: bool) {
        str_equals(language, DIAGRAM_LANGUAGE)
    }

    fn process_code_block(&self, content: &str, language: &str, _context: &PluginContext) -> (result:
        Option<PluginResult>) {
        if !self.handles_language(language) {
            return None;
        }
        let html_escaped_content = escape_markup_text(content);
        let attr_escaped_raw = escape_attribute_text(content);
        let mut html = String::new();
        html.append(DIAGRAM_OPEN);
        html.append(attr_escaped_raw.as_str());
        html.append(DIAGRAM_BUTTONS);
        html.append(content);
        html.append(DIAGRAM_RAW);
        html.append(html_escaped_content.as_str());
        html.append(DIAGRAM_CLOSE);
        proof {
            assert(html@ =~= diagram_markup(content@));
        }
        Some(PluginResult { html, javascript: None, css: None })
    }

    fn get_javascript(&self, context: &PluginContext) -> (script: Option<String>) {
        let theme_config = match context.theme_mode {
            ThemeMode::Light => LIGHT_DIAGRAM_THEME,
            ThemeMode::Dark => DARK_DIAGRAM_THEME,
            ThemeMode::System => SYSTEM_DIAGRAM_THEME,
        };
        let mut javascript = String::new();
        javascript.append(DIAGRAM_SCRIPT_OPEN);
        javascript.append(theme_config);
        javascript.append(DIAGRAM_SCRIPT_CLOSE);
        proof {
            assert(javascript@ =~= DIAGRAM_SCRIPT_OPEN@ + diagram_theme(context@.theme_mode)
                + DIAGRAM_SCRIPT_CLOSE@);
        }
        Some(javascript)
    }

    fn get_css(&self, _context: &PluginContext) -> (styles: Option<String>) {
        Some(DIAGRAM_STYLES.to_owned())
    }

    fn get_external_scripts(&self) -> (urls: Vec<String>) {
        let mut urls: Vec<String> = Vec::new();
        urls.push(DIAGRAM_LIBRARY.to_owned());
        proof {
            assert(string_views(urls@) =~= seq![DIAGRAM_LIBRARY@]);
        }
        urls
    }

    fn get_external_css(&self) -> (urls: Vec<String>) {
        let urls: Vec<String> = Vec::new();
        proof {
            assert(string_views(urls@) =~= Seq::<Seq<char>>::empty());
        }
        urls
    }

    fn initialize(&mut self) -> (outcome: Result<(), PluginError>) {
        self.initialized = true;
        Ok(())
    }

    fn shutdown(&mut self) -> (outcome: Result<(), PluginError>) {
        self.initialized = false;
        Ok(())
    }
}

} // verus!
