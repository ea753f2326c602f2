use homo::content::{DocumentContent, ViewMode};
use homo::gui::types::{StylePreferences, ThemeMode};
use homo::gui::view::{
    append_script, full_page, sync_script, LinkOpenerDelegate, MarkdownView, MessageAction,
    ReloadKind, ScrollBehavior, ViewAction,
};
use homo::markdown::parser::highlight_markdown_with_theme;

const SECOND: u64 = 1_000_000_000;

fn document(markdown: &str, html: &str) -> DocumentContent {
    DocumentContent::new(markdown.to_string(), html.to_string(), "t".to_string(), None)
}

#[test]
fn new_view_is_empty_preview() {
    let view = MarkdownView::new(5);
    assert_eq!(view.current_mode(), ViewMode::Preview);
    assert_eq!(view.accumulated_content(), "");
    assert_eq!(view.accumulated_markdown(), "");
}

#[test]
fn update_replaces_what_was_accumulated() {
    let mut view = MarkdownView::new(0);
    let prefs = StylePreferences::default();
    view.append_content("old", "<p>old</p>", &prefs, 1);
    let doc = document("# New", "<h1>New</h1>");
    match view.update_content_with_scroll(&doc, ScrollBehavior::Bottom) {
        ViewAction::FullReload { html, stylesheet, scroll, kind } => {
            assert_eq!(html, "<h1>New</h1>");
            assert_eq!(stylesheet, prefs.generate_css());
            assert_eq!(scroll, ScrollBehavior::Bottom);
            assert_eq!(kind, ReloadKind::Update);
        }
        other => panic!("expected a full reload, got {:?}", other),
    }
    assert_eq!(view.accumulated_content(), "<h1>New</h1>");
    assert_eq!(view.accumulated_markdown(), "# New");
    assert!(matches!(
        view.update_content(&doc),
        ViewAction::FullReload { scroll: ScrollBehavior::Top, .. }
    ));
}

#[test]
fn update_in_source_mode_shows_highlighted_source() {
    let mut view = MarkdownView::new(0);
    let mut doc = document("# New", "<h1>New</h1>");
    doc.mode = ViewMode::Source;
    doc.style_preferences.theme = ThemeMode::Dark;
    match view.update_content(&doc) {
        ViewAction::FullReload { html, .. } => {
            assert_eq!(html, highlight_markdown_with_theme("# New", &ThemeMode::Dark));
        }
        other => panic!("expected a full reload, got {:?}", other),
    }
    assert_eq!(view.current_mode(), ViewMode::Source);
    assert_eq!(view.accumulated_content(), "<h1>New</h1>");
}

#[test]
fn append_in_preview_sends_the_fragment() {
    let mut view = MarkdownView::new(0);
    let prefs = StylePreferences::default();
    match view.append_content("a", "<p>a</p>", &prefs, SECOND) {
        Some(ViewAction::AppendFragment { html }) => assert_eq!(html, "<p>a</p>"),
        other => panic!("expected a fragment, got {:?}", other),
    }
    match view.append_content("b", "<p>b</p>", &prefs, 5 * SECOND) {
        Some(ViewAction::AppendFragment { html }) => assert_eq!(html, "<p>b</p>"),
        other => panic!("expected a fragment, got {:?}", other),
    }
    assert_eq!(view.accumulated_content(), "<p>a</p><p>b</p>");
    assert_eq!(view.accumulated_markdown(), "ab");
}

#[test]
fn append_after_more_than_five_seconds_rebuilds() {
    let mut view = MarkdownView::new(10);
    let prefs = StylePreferences::default();
    assert!(matches!(
        view.append_content("a", "<p>a</p>", &prefs, 10 + 5 * SECOND),
        Some(ViewAction::AppendFragment { .. })
    ));
    match view.append_content("b", "<p>b</p>", &prefs, 11 + 5 * SECOND) {
        Some(ViewAction::FullResync { html }) => assert_eq!(html, "<p>a</p><p>b</p>"),
        other => panic!("expected a rebuild, got {:?}", other),
    }
    // The clock of the rebuild starts over.
    assert!(matches!(
        view.append_content("c", "<p>c</p>", &prefs, 12 + 5 * SECOND),
        Some(ViewAction::AppendFragment { .. })
    ));
    match view.append_content("d", "<p>d</p>", &prefs, 12 + 10 * SECOND) {
        Some(ViewAction::FullResync { html }) => assert_eq!(html, "<p>a</p><p>b</p><p>c</p><p>d</p>"),
        other => panic!("expected a rebuild, got {:?}", other),
    }
}

#[test]
fn full_resync_twice_gives_the_same_output() {
    let mut view = MarkdownView::new(0);
    let prefs = StylePreferences::default();
    view.append_content("a", "<p>a</p>", &prefs, 1);
    view.append_content("b", "<p>b</p>", &prefs, 2);
    let first = view.full_resync(3);
    let second = view.full_resync(4);
    match (&first, &second) {
        (ViewAction::FullResync { html: one }, ViewAction::FullResync { html: two }) => {
            assert_eq!(one, "<p>a</p><p>b</p>");
            assert_eq!(one, two);
        }
        other => panic!("expected two rebuilds, got {:?}", other),
    }
    assert_eq!(first.text(), second.text());
    assert_eq!(view.accumulated_content(), "<p>a</p><p>b</p>");
    assert_eq!(view.accumulated_markdown(), "ab");
}

#[test]
fn source_mode_accumulates_silently_and_toggle_shows_all() {
    let mut view = MarkdownView::new(0);
    let prefs = StylePreferences::default();
    view.update_content(&document("base", "<p>base</p>"));
    match view.toggle_mode(&prefs) {
        ViewAction::FullReload { html, kind, scroll, .. } => {
            assert_eq!(html, highlight_markdown_with_theme("base", &ThemeMode::System));
            assert_eq!(kind, ReloadKind::ModeToggle);
            assert_eq!(scroll, ScrollBehavior::Top);
        }
        other => panic!("expected a full reload, got {:?}", other),
    }
    assert_eq!(view.current_mode(), ViewMode::Source);
    let mut issued = 0;
    for (i, time) in [1u64, 6 * SECOND, 20 * SECOND].iter().enumerate() {
        let md = format!("m{}", i);
        let html = format!("<p>{}</p>", i);
        if view.append_content(&md, &html, &prefs, *time).is_some() {
            issued += 1;
        }
    }
    assert_eq!(issued, 0);
    assert_eq!(view.accumulated_content(), "<p>base</p><p>0</p><p>1</p><p>2</p>");
    assert_eq!(view.accumulated_markdown(), "basem0m1m2");
    match view.toggle_mode(&prefs) {
        ViewAction::FullReload { html, stylesheet, scroll, kind } => {
            assert_eq!(html, "<p>base</p><p>0</p><p>1</p><p>2</p>");
            assert_eq!(stylesheet, prefs.generate_css());
            assert_eq!(scroll, ScrollBehavior::Top);
            assert_eq!(kind, ReloadKind::ModeToggle);
        }
        other => panic!("expected a full reload, got {:?}", other),
    }
    assert_eq!(view.current_mode(), ViewMode::Preview);
}

#[test]
fn page_holds_stylesheet_script_and_content() {
    let page = full_page("body{}", ScrollBehavior::Bottom, "<p>x</p>", ReloadKind::Update);
    assert!(page.starts_with("<!DOCTYPE html>\n<html>\n<head>\n    <meta charset=\"UTF-8\">\n    <style>body{}</style>\n"));
    assert!(page.contains("mermaid@11.9.0/dist/mermaid.min.js"));
    assert!(page.contains("<body onload=\"window.scrollToBottom();\">\n<p>x</p>\n<script>"));
    assert!(page.ends_with("</script>\n</body>\n</html>"));
    let page = full_page("", ScrollBehavior::Top, "", ReloadKind::ModeToggle);
    assert!(page.contains("mermaid@10/dist/mermaid.min.js"));
    assert!(page.contains("<body onload=\"window.scrollToTop();\">"));
    assert!(page.contains("Creating scroll button from mode toggle..."));
}

#[test]
fn scripts_carry_the_html_as_a_string_literal() {
    let script = append_script("<p class=\"a\">line\nbreak \\ end</p>");
    assert!(script.contains("window.appendContent(\"<p class=\\\"a\\\">line\\nbreak \\\\ end</p>\");"));
    assert!(script.contains("console.error('appendContent function not available');"));
    let script = sync_script("<b>\"x\"</b>");
    assert!(script.contains("document.body.innerHTML = \"<b>\\\"x\\\"</b>\";"));
    assert!(script.contains("Periodic sync completed"));
}

#[test]
fn action_text_is_the_page_or_the_script() {
    let action = ViewAction::AppendFragment { html: "<i>x</i>".to_string() };
    assert_eq!(action.text(), append_script("<i>x</i>"));
    let action = ViewAction::FullResync { html: "<i>x</i>".to_string() };
    assert_eq!(action.text(), sync_script("<i>x</i>"));
    let action = ViewAction::FullReload {
        html: "<i>x</i>".to_string(),
        stylesheet: "s".to_string(),
        scroll: ScrollBehavior::Top,
        kind: ReloadKind::Update,
    };
    assert_eq!(action.text(), full_page("s", ScrollBehavior::Top, "<i>x</i>", ReloadKind::Update));
}

#[test]
fn page_messages_are_told_apart() {
    let delegate = LinkOpenerDelegate::default();
    assert!(matches!(
        delegate.on_message("linkClicked", "https://example.org"),
        MessageAction::OpenLink(url) if url == "https://example.org"
    ));
    assert!(matches!(
        delegate.on_message("copyText", "some text"),
        MessageAction::CopyText(text) if text == "some text"
    ));
    assert!(matches!(delegate.on_message("appendHTML", "x"), MessageAction::Ignore));
    assert!(matches!(delegate.on_message("", ""), MessageAction::Ignore));
    assert!(matches!(delegate.on_message("LinkClicked", "x"), MessageAction::Ignore));
}
