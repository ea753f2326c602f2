use homo::content::{ContentUpdate, DocumentContent, ViewMode};
use homo::gui::types::{FontFamily, StylePreferences, ThemeMode};
use homo::markdown::parser::parse_markdown_with_theme;
use homo::menu::{dispatch_menu_message, outcome_of, set_menu_sender, DispatchOutcome, MenuMessage, MenuRouter};

#[test]
fn font_stacks() {
    assert_eq!(
        FontFamily::System.css_value(),
        "-apple-system, BlinkMacSystemFont, \"Segoe UI\", Roboto, Helvetica, Arial, sans-serif"
    );
    assert_eq!(FontFamily::Menlo.css_value(), "\"SF Mono\", \"Menlo\", \"Monaco\", monospace");
    assert_eq!(FontFamily::Monaco.css_value(), "\"Monaco\", \"SF Mono\", \"Menlo\", monospace");
    assert_eq!(FontFamily::Helvetica.css_value(), "\"Helvetica Neue\", Helvetica, Arial, sans-serif");
    assert_eq!(FontFamily::default(), FontFamily::System);
}

#[test]
fn color_schemes() {
    assert_eq!(ThemeMode::Light.css_color_scheme(), "light");
    assert_eq!(ThemeMode::Dark.css_color_scheme(), "dark");
    assert_eq!(ThemeMode::System.css_color_scheme(), "light dark");
    assert_eq!(ThemeMode::default(), ThemeMode::System);
    assert_eq!(ViewMode::default(), ViewMode::Preview);
}

#[test]
fn default_preferences() {
    let prefs = StylePreferences::default();
    assert_eq!(prefs.font_family, FontFamily::System);
    assert_eq!(prefs.font_size, 14);
    assert_eq!(prefs.theme, ThemeMode::System);
}

#[test]
fn font_size_steps_up_the_scale() {
    let steps = [
        (8, 10), (9, 10), (10, 12), (11, 12), (12, 14), (13, 14), (14, 16), (15, 16), (16, 18),
        (17, 18), (18, 22), (21, 22), (22, 28), (27, 28), (28, 36), (35, 36), (36, 48), (47, 48),
        (48, 72), (71, 72), (72, 72), (73, 73), (7, 7), (0, 0), (500, 500),
    ];
    for (from, to) in steps {
        let mut prefs = StylePreferences::default();
        prefs.font_size = from;
        prefs.increase_font_size();
        assert_eq!(prefs.font_size, to, "from {}", from);
    }
}

#[test]
fn font_size_steps_down_the_scale() {
    let steps = [
        (8, 8), (9, 8), (10, 8), (11, 10), (12, 10), (13, 12), (14, 12), (15, 14), (16, 14),
        (17, 16), (18, 16), (19, 18), (22, 18), (23, 22), (28, 22), (29, 28), (36, 28), (37, 36),
        (48, 36), (49, 48), (72, 48), (73, 73), (7, 7), (0, 0),
    ];
    for (from, to) in steps {
        let mut prefs = StylePreferences::default();
        prefs.font_size = from;
        prefs.decrease_font_size();
        assert_eq!(prefs.font_size, to, "from {}", from);
    }
}

#[test]
fn font_size_reset() {
    let mut prefs = StylePreferences { font_family: FontFamily::Menlo, font_size: 48, theme: ThemeMode::Dark };
    prefs.reset_font_size();
    assert_eq!(prefs, StylePreferences { font_family: FontFamily::Menlo, font_size: 14, theme: ThemeMode::Dark });
}

#[test]
fn stylesheet_for_the_system_theme() {
    let css = StylePreferences::default().generate_css();
    assert!(css.starts_with(":root {\n    color-scheme: light dark;\n    --border-color: #d1d9e0;\n"));
    assert!(css.contains("    --table-row-alt-hover-bg: #eef4ff;\n}\nbody {\n    font-family: -apple-system, BlinkMacSystemFont, \"Segoe UI\", Roboto, Helvetica, Arial, sans-serif;\n    font-size: 14px;\n    font-weight: normal;\n"));
    assert!(css.contains("h1, h2, h3, h4, h5, h6 {\n    border-bottom: 1px solid var(--border-color);"));
    assert!(css.contains("\n/* Dark theme overrides for system theme */\n@media (prefers-color-scheme: dark) {\n    :root {\n        --border-color: #30363d;"));
    assert!(css.ends_with("    pre code span {\n        opacity: 1 !important;\n    }\n}\n"));
    assert!(!css.contains("{{"));
}

#[test]
fn stylesheet_for_the_light_and_dark_themes() {
    let light = StylePreferences { font_family: FontFamily::Monaco, font_size: 22, theme: ThemeMode::Light }.generate_css();
    assert!(light.starts_with(":root {\n    color-scheme: light;\n    --border-color: #d1d9e0;\n"));
    assert!(light.contains("    font-family: \"Monaco\", \"SF Mono\", \"Menlo\", monospace;\n    font-size: 22px;\n"));
    assert!(light.ends_with(".mermaid .edgeLabel {\n    background-color: var(--table-row-bg);\n    border: 1px solid var(--border-color);\n    border-radius: 3px;\n    padding: 2px 4px;\n}\n"));
    let dark = StylePreferences { font_family: FontFamily::System, font_size: 8, theme: ThemeMode::Dark }.generate_css();
    assert!(dark.starts_with(":root {\n    color-scheme: dark;\n    --border-color: #30363d;\n"));
    assert!(dark.contains("    font-size: 8px;\n"));
    assert!(dark.ends_with("body {\n    background-color: #0d1117;\n    color: #f0f6fc;\n}\n/* Ensure code blocks have bright text in dark mode */\npre, pre code, code {\n    color: #f0f6fc !important;\n}\npre code span {\n    opacity: 1 !important;\n}\n"));
    assert!(!dark.contains("@media"));
}

#[test]
fn document_starts_in_preview_with_default_preferences() {
    let doc = DocumentContent::new("m".to_string(), "h".to_string(), "t".to_string(), Some("p".to_string()));
    assert_eq!(doc.markdown, "m");
    assert_eq!(doc.html, "h");
    assert_eq!(doc.title, "t");
    assert_eq!(doc.file_path, Some("p".to_string()));
    assert_eq!(doc.mode, ViewMode::Preview);
    assert_eq!(doc.style_preferences, StylePreferences::default());
}

#[test]
fn regenerate_renders_under_the_documents_theme() {
    let text = "# T\n\n```rust\nlet a = 1;\n```\n";
    let mut doc = DocumentContent::new(text.to_string(), "stale".to_string(), "t".to_string(), None);
    doc.style_preferences.theme = ThemeMode::Dark;
    doc.regenerate_html();
    assert_eq!(doc.html, parse_markdown_with_theme(text, &ThemeMode::Dark));
    assert_eq!(doc.markdown, text);
    assert_eq!(doc.title, "t");
    doc.regenerate_html();
    assert_eq!(doc.html, parse_markdown_with_theme(text, &ThemeMode::Dark));
}

#[test]
fn clones_hold_the_same_values() {
    let doc = DocumentContent::new("m".to_string(), "h".to_string(), "t".to_string(), Some("p".to_string()));
    let copy = doc.clone();
    assert_eq!(copy.markdown, "m");
    assert_eq!(copy.html, "h");
    assert_eq!(copy.title, "t");
    assert_eq!(copy.file_path, Some("p".to_string()));
    let update = ContentUpdate::Append { markdown: "a".to_string(), html: "b".to_string() };
    assert!(matches!(update.clone(), ContentUpdate::Append { markdown, html } if markdown == "a" && html == "b"));
    assert!(matches!(ContentUpdate::FullReplace(doc).clone(), ContentUpdate::FullReplace(d) if d.markdown == "m"));
}

#[test]
fn dispatch_without_sender_sends_nothing() {
    let router = MenuRouter::new();
    assert!(!router.is_connected());
    assert_eq!(dispatch_menu_message(&router, MenuMessage::Copy), DispatchOutcome::NoSender);
}

#[test]
fn dispatch_reaches_the_receiver_in_order() {
    let (sender, receiver) = std::sync::mpsc::channel();
    let mut router = MenuRouter::new();
    set_menu_sender(&mut router, sender);
    assert!(router.is_connected());
    assert_eq!(dispatch_menu_message(&router, MenuMessage::ToggleMode), DispatchOutcome::Sent);
    assert_eq!(
        dispatch_menu_message(&router, MenuMessage::SetFontFamily(FontFamily::Menlo)),
        DispatchOutcome::Sent
    );
    assert_eq!(
        dispatch_menu_message(&router, MenuMessage::SetTheme(ThemeMode::Dark)),
        DispatchOutcome::Sent
    );
    assert_eq!(receiver.try_recv(), Ok(MenuMessage::ToggleMode));
    assert_eq!(receiver.try_recv(), Ok(MenuMessage::SetFontFamily(FontFamily::Menlo)));
    assert_eq!(receiver.try_recv(), Ok(MenuMessage::SetTheme(ThemeMode::Dark)));
    assert!(receiver.try_recv().is_err());
}

#[test]
fn dispatch_after_the_receiver_is_gone() {
    let (sender, receiver) = std::sync::mpsc::channel();
    let mut router = MenuRouter::new();
    set_menu_sender(&mut router, sender);
    drop(receiver);
    assert_eq!(dispatch_menu_message(&router, MenuMessage::SelectAll), DispatchOutcome::Disconnected);
}

#[test]
fn a_new_sender_replaces_the_old_one() {
    let (first, first_receiver) = std::sync::mpsc::channel();
    let (second, second_receiver) = std::sync::mpsc::channel();
    let mut router = MenuRouter::new();
    set_menu_sender(&mut router, first);
    set_menu_sender(&mut router, second);
    assert_eq!(dispatch_menu_message(&router, MenuMessage::IncreaseFontSize), DispatchOutcome::Sent);
    assert!(first_receiver.try_recv().is_err());
    assert_eq!(second_receiver.try_recv(), Ok(MenuMessage::IncreaseFontSize));
}

#[test]
fn outcomes_are_named() {
    assert_eq!(outcome_of(false, false), DispatchOutcome::NoSender);
    assert_eq!(outcome_of(false, true), DispatchOutcome::NoSender);
    assert_eq!(outcome_of(true, true), DispatchOutcome::Sent);
    assert_eq!(outcome_of(true, false), DispatchOutcome::Disconnected);
}
