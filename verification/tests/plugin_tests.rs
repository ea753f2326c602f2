use homo::gui::types::ThemeMode;
use homo::plugins::katex::{display_math, LatexPlugin};
use homo::plugins::manager::{initialize_plugins, PluginManager, Registered};
use homo::plugins::mermaid::MermaidPlugin;
use homo::plugins::{Plugin, PluginContext, PluginType};

fn context(theme: ThemeMode) -> PluginContext {
    PluginContext { theme_mode: theme, is_streaming: false, content_id: "doc".to_string() }
}

fn manager() -> PluginManager {
    let mut manager = PluginManager::new();
    assert!(initialize_plugins(&mut manager).is_ok());
    manager
}

#[test]
fn mermaid_plugin_describes_itself() {
    let mut plugin = MermaidPlugin::new();
    assert_eq!(plugin.name(), "mermaid");
    assert_eq!(plugin.version(), "1.0.0");
    assert!(plugin.handles_language("mermaid"));
    assert!(!plugin.handles_language("Mermaid"));
    assert!(!plugin.handles_language("math"));
    assert_eq!(
        plugin.get_external_scripts(),
        vec!["https://cdn.jsdelivr.net/npm/mermaid@11.9.0/dist/mermaid.min.js".to_string()]
    );
    assert!(plugin.get_external_css().is_empty());
    assert!(!plugin.initialized());
    assert!(plugin.initialize().is_ok());
    assert!(plugin.initialized());
    assert!(plugin.shutdown().is_ok());
    assert!(!plugin.initialized());
}

#[test]
fn mermaid_plugin_makes_diagram_markup() {
    let plugin = MermaidPlugin::new();
    assert!(plugin.process_code_block("graph", "rust", &context(ThemeMode::Light)).is_none());
    let result = plugin.process_code_block("A-->\"B\" & <C>", "mermaid", &context(ThemeMode::Light)).unwrap();
    assert!(result.javascript.is_none());
    assert!(result.css.is_none());
    assert_eq!(
        result.html,
        "<div class=\"mermaid-container\" data-mermaid-source=\"A-->&quot;B&quot; &amp; <C>\">\n                <div class=\"mermaid-buttons\">\n                    <button class=\"mermaid-toggle-btn\" onclick=\"toggleMermaidView(this)\" title=\"Toggle rendered/raw view\">View</button>\n                    <button class=\"mermaid-copy-btn\" onclick=\"copyMermaidCode(this)\" title=\"Copy Mermaid source\">Copy</button>\n                </div>\n                <div class=\"mermaid\">A-->\"B\" & <C></div>\n                <pre class=\"mermaid-raw\" style=\"display: none;\"><code>A--&gt;\"B\" &amp; &lt;C&gt;</code></pre>\n            </div>"
    );
}

#[test]
fn mermaid_script_follows_the_theme() {
    let plugin = MermaidPlugin::new();
    let light = plugin.get_javascript(&context(ThemeMode::Light)).unwrap();
    let dark = plugin.get_javascript(&context(ThemeMode::Dark)).unwrap();
    let system = plugin.get_javascript(&context(ThemeMode::System)).unwrap();
    assert!(light.starts_with("\n// Mermaid Plugin JavaScript\n"));
    assert!(light.contains("startOnLoad: false,\n        \n                theme: 'base',"));
    assert!(dark.contains("theme: 'dark',\n                themeVariables: {\n                    primaryColor: '#ff6b35',\n                    primaryTextColor: '#f0f6fc',"));
    assert!(system.contains("theme: window.matchMedia && window.matchMedia('(prefers-color-scheme: dark)').matches ? 'dark' : 'base',"));
    assert!(light.contains("mermaid.initialize({\n"));
    assert!(!light.contains("{{"));
    assert!(light.contains("await mermaid.render(`mermaidChart${Date.now()}_${index}`, graphDefinition);"));
    assert!(light.ends_with("    });\n};\n"));
    let css = plugin.get_css(&context(ThemeMode::Dark)).unwrap();
    assert!(css.starts_with("\n/* Mermaid Plugin Styles */\n.mermaid-container {"));
    assert_eq!(css, plugin.get_css(&context(ThemeMode::Light)).unwrap());
}

#[test]
fn latex_plugin_describes_itself() {
    let mut plugin = LatexPlugin::new();
    assert_eq!(plugin.name(), "latex");
    assert_eq!(plugin.version(), "1.0.0");
    assert!(plugin.handles_language("math"));
    assert!(plugin.handles_language("latex"));
    assert!(plugin.handles_language("tex"));
    assert!(!plugin.handles_language("katex"));
    assert!(!plugin.handles_language(""));
    assert_eq!(
        plugin.get_external_scripts(),
        vec!["https://cdn.jsdelivr.net/npm/katex@0.16.22/dist/katex.min.js".to_string()]
    );
    assert_eq!(
        plugin.get_external_css(),
        vec!["https://cdn.jsdelivr.net/npm/katex@0.16.22/dist/katex.min.css".to_string()]
    );
    assert!(plugin.initialize().is_ok());
    assert!(plugin.initialized());
    assert!(plugin.shutdown().is_ok());
    assert!(!plugin.initialized());
}

#[test]
fn display_math_is_recognised() {
    assert!(display_math("x", "math"));
    assert!(!display_math("x", "latex"));
    assert!(!display_math("x^2", "tex"));
    assert!(display_math("  \\begin{align} x \\end{align}", "latex"));
    assert!(!display_math("a \\begin{align}", "latex"));
    assert!(display_math("a \\\\ b", "tex"));
    assert!(!display_math("a \\ b", "tex"));
    assert!(!display_math("", "latex"));
}

#[test]
fn latex_plugin_makes_formula_markup() {
    let plugin = LatexPlugin::new();
    assert!(plugin.process_code_block("x", "mermaid", &context(ThemeMode::Light)).is_none());
    let inline = plugin.process_code_block("a < \"b\"", "latex", &context(ThemeMode::Light)).unwrap();
    assert_eq!(
        inline.html,
        "<div class=\"latex-container\" data-latex-source=\"a < &quot;b&quot;\">\n                <div class=\"latex-buttons\">\n                    <button class=\"latex-toggle-btn\" onclick=\"toggleLatexView(this)\" title=\"Toggle rendered/raw view\">View</button>\n                    <button class=\"latex-copy-btn\" onclick=\"copyLatexCode(this)\" title=\"Copy LaTeX source\">Copy</button>\n                </div>\n                <div class=\"latex-math math-inline\" data-latex=\"a < &quot;b&quot;\"></div>\n                <pre class=\"latex-raw\" style=\"display: none;\"><code>a &lt; \"b\"</code></pre>\n            </div>"
    );
    let display = plugin.process_code_block("x", "math", &context(ThemeMode::Light)).unwrap();
    assert!(display.html.contains("<div class=\"latex-math math-display\" data-latex=\"x\"></div>"));
    assert!(display.javascript.is_none());
    assert!(display.css.is_none());
}

#[test]
fn latex_script_follows_the_theme() {
    let plugin = LatexPlugin::new();
    let light = plugin.get_javascript(&context(ThemeMode::Light)).unwrap();
    let dark = plugin.get_javascript(&context(ThemeMode::Dark)).unwrap();
    let system = plugin.get_javascript(&context(ThemeMode::System)).unwrap();
    assert!(light.starts_with("\n// LaTeX Plugin JavaScript\n"));
    assert!(light.contains("errorColor: '#cc0000',"));
    assert!(dark.contains("errorColor: '#ff6b6b',"));
    assert!(system.contains("errorColor: window.matchMedia && window.matchMedia('(prefers-color-scheme: dark)').matches ? '#ff6b6b' : '#cc0000',"));
    assert!(light.contains("\"\\\\RR\": \"\\\\mathbb{R}\","));
    assert!(light.contains("window.katexOptions = {\n        \n                trust:"));
    assert!(!light.contains("{{"));
    let css = plugin.get_css(&context(ThemeMode::Dark)).unwrap();
    assert!(css.starts_with("\n/* LaTeX Plugin Styles */\n.latex-container {"));
    assert!(css.ends_with(".latex-math.math-display .katex {\n    font-size: 1.3em;\n}\n"));
}

#[test]
fn empty_manager() {
    let mut manager = PluginManager::new();
    assert_eq!(manager.plugin_count(), 0);
    assert!(manager.list_plugins().is_empty());
    assert_eq!(manager.get_all_javascript(&context(ThemeMode::Light)), "");
    assert_eq!(manager.get_all_css(&context(ThemeMode::Light)), "");
    assert!(manager.get_all_external_scripts().is_empty());
    assert!(manager.get_all_external_css().is_empty());
    assert!(manager.process_code_block("x", "mermaid", &context(ThemeMode::Light)).is_none());
    assert!(manager.shutdown().is_ok());
    assert_eq!(PluginManager::default().plugin_count(), 0);
}

#[test]
fn manager_lists_plugins_in_order_of_registration() {
    let manager = manager();
    assert_eq!(manager.plugin_count(), 2);
    assert_eq!(
        manager.list_plugins(),
        vec![
            ("mermaid".to_string(), "1.0.0".to_string()),
            ("latex".to_string(), "1.0.0".to_string())
        ]
    );
}

#[test]
fn manager_sends_blocks_to_the_plugin_for_the_language() {
    let mut manager = manager();
    let ctx = context(ThemeMode::Light);
    let diagram = manager.process_code_block("graph TD", "mermaid", &ctx).unwrap();
    assert_eq!(diagram.html, MermaidPlugin::new().process_code_block("graph TD", "mermaid", &ctx).unwrap().html);
    let formula = manager.process_code_block("x^2", "tex", &ctx).unwrap();
    assert_eq!(formula.html, LatexPlugin::new().process_code_block("x^2", "tex", &ctx).unwrap().html);
    assert!(manager.process_code_block("fn main() {}", "rust", &ctx).is_none());
    // A second look goes by what was remembered and gives the same.
    let again = manager.process_code_block("graph LR", "mermaid", &ctx).unwrap();
    assert!(again.html.contains("<div class=\"mermaid\">graph LR</div>"));
    let again = manager.process_code_block("y", "tex", &ctx).unwrap();
    assert!(again.html.contains("data-latex=\"y\""));
    assert!(manager.process_code_block("fn main() {}", "rust", &ctx).is_none());
}

#[test]
fn first_registered_plugin_wins() {
    let mut manager = PluginManager::new();
    assert!(manager.register_plugin(Box::new(LatexPlugin::new())).is_ok());
    assert!(manager.register_plugin(Box::new(MermaidPlugin::new())).is_ok());
    assert!(manager.register_plugin(Box::new(MermaidPlugin::new())).is_ok());
    assert_eq!(manager.plugin_count(), 3);
    assert_eq!(manager.list_plugins()[0].0, "latex");
    // Each address once, though two plugins ask for the diagram library.
    assert_eq!(manager.get_all_external_scripts().len(), 2);
}

#[test]
fn entries_register_like_plugins() {
    let mut by_entry = PluginManager::new();
    assert!(by_entry.register_entry(Registered { plugin: Box::new(MermaidPlugin::new()) }).is_ok());
    assert!(by_entry.register_entry(Registered { plugin: Box::new(LatexPlugin::new()) }).is_ok());
    let mut by_plugin = PluginManager::new();
    assert!(by_plugin.register_plugin(Box::new(MermaidPlugin::new())).is_ok());
    assert!(by_plugin.register_plugin(Box::new(LatexPlugin::new())).is_ok());
    assert_eq!(by_entry.list_plugins(), by_plugin.list_plugins());
    assert_eq!(by_entry.list_plugins(), manager().list_plugins());
    let ctx = context(ThemeMode::Light);
    assert_eq!(
        by_entry.process_code_block("x", "math", &ctx).unwrap().html,
        by_plugin.process_code_block("x", "math", &ctx).unwrap().html
    );
}

#[test]
fn plugins_are_registered_behind_those_already_there() {
    let mut manager = PluginManager::new();
    assert!(manager.register_plugin(Box::new(LatexPlugin::new())).is_ok());
    assert!(initialize_plugins(&mut manager).is_ok());
    assert_eq!(
        manager.list_plugins(),
        vec![
            ("latex".to_string(), "1.0.0".to_string()),
            ("mermaid".to_string(), "1.0.0".to_string()),
            ("latex".to_string(), "1.0.0".to_string())
        ]
    );
}

#[test]
fn manager_joins_scripts_and_styles() {
    let manager = manager();
    let ctx = context(ThemeMode::Dark);
    let mermaid = MermaidPlugin::new();
    let latex = LatexPlugin::new();
    assert_eq!(
        manager.get_all_javascript(&ctx),
        format!("{}\n\n{}", mermaid.get_javascript(&ctx).unwrap(), latex.get_javascript(&ctx).unwrap())
    );
    assert_eq!(
        manager.get_all_css(&ctx),
        format!("{}\n\n{}", mermaid.get_css(&ctx).unwrap(), latex.get_css(&ctx).unwrap())
    );
}

#[test]
fn manager_sorts_addresses_and_drops_repeats() {
    let manager = manager();
    assert_eq!(
        manager.get_all_external_scripts(),
        vec![
            "https://cdn.jsdelivr.net/npm/katex@0.16.22/dist/katex.min.js".to_string(),
            "https://cdn.jsdelivr.net/npm/mermaid@11.9.0/dist/mermaid.min.js".to_string()
        ]
    );
    assert_eq!(
        manager.get_all_external_css(),
        vec!["https://cdn.jsdelivr.net/npm/katex@0.16.22/dist/katex.min.css".to_string()]
    );
}

#[test]
fn shutdown_keeps_the_plugins_registered() {
    let mut manager = manager();
    assert!(manager.shutdown().is_ok());
    assert_eq!(manager.plugin_count(), 2);
    assert!(manager.process_code_block("graph TD", "mermaid", &context(ThemeMode::Light)).is_some());
}

#[test]
fn context_clone_and_plugin_types() {
    let ctx = context(ThemeMode::Dark);
    let copy = ctx.clone();
    assert_eq!(copy.theme_mode, ThemeMode::Dark);
    assert!(!copy.is_streaming);
    assert_eq!(copy.content_id, "doc");
    assert_ne!(PluginType::CodeProcessor, PluginType::Renderer);
    assert_ne!(PluginType::Renderer, PluginType::Interactive);
    assert_eq!(PluginType::Interactive, PluginType::Interactive);
}
