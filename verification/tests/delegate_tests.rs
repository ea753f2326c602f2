use homo::content::{ContentUpdate, DocumentContent, ViewMode};
use homo::gui::delegate::{
    coalesce_appends, holds_full_replace, reduce_batch, DelegateAction, GuiDelegate, PendingQueue,
};
use homo::gui::rate::InputRateCategory;
use homo::gui::types::{FontFamily, StylePreferences, ThemeMode};
use homo::gui::view::{ReloadKind, ScrollBehavior, ViewAction};
use homo::gui::window::{calculate_window_size, WindowSize};
use homo::markdown::parser::{parse_markdown, parse_markdown_with_theme};
use homo::menu::MenuMessage;

const MS: u64 = 1_000_000;

fn append(markdown: &str) -> ContentUpdate {
    ContentUpdate::Append { markdown: markdown.to_string(), html: parse_markdown(markdown) }
}

fn document(markdown: &str) -> DocumentContent {
    DocumentContent::new(markdown.to_string(), parse_markdown(markdown), "doc".to_string(), None)
}

fn replace(markdown: &str) -> ContentUpdate {
    ContentUpdate::FullReplace(document(markdown))
}

fn delegate_with_document(markdown: &str, pipe: bool) -> GuiDelegate {
    let mut delegate = GuiDelegate::new(pipe, StylePreferences::default(), 0);
    delegate.process_content_update(replace(markdown), 0);
    delegate
}

fn held_markdown(delegate: &GuiDelegate) -> String {
    delegate.current_document().map(|d| d.markdown.clone()).unwrap_or_default()
}

fn view_actions(actions: &Vec<DelegateAction>) -> Vec<&ViewAction> {
    actions
        .iter()
        .filter_map(|a| match a {
            DelegateAction::View(v) => Some(v),
            _ => None,
        })
        .collect()
}

#[test]
fn new_delegate_holds_nothing() {
    let delegate = GuiDelegate::new(true, StylePreferences::default(), 42);
    assert!(delegate.current_document().is_none());
    assert!(!delegate.has_window());
    assert_eq!(delegate.pending_count(), 0);
    assert_eq!(delegate.rate_category(), InputRateCategory::Slow);
    assert_eq!(delegate.get_processing_window(), 50 * MS);
    assert_eq!(delegate.view_mode(), ViewMode::Preview);
    assert_eq!(delegate.style_preferences(), StylePreferences::default());
}

#[test]
fn first_full_replace_opens_the_window() {
    let mut delegate = GuiDelegate::new(false, StylePreferences::default(), 0);
    let actions = delegate.process_content_update(replace("# Doc"), 1);
    assert_eq!(actions.len(), 3);
    assert!(matches!(actions[0], DelegateAction::SetupMenu));
    assert!(matches!(
        actions[1],
        DelegateAction::CreateWindow(WindowSize { width: 600, height: 450 })
    ));
    match &actions[2] {
        DelegateAction::View(ViewAction::FullReload { html, scroll, kind, .. }) => {
            assert_eq!(html, "<h1>Doc</h1>\n");
            assert_eq!(*scroll, ScrollBehavior::Top);
            assert_eq!(*kind, ReloadKind::Update);
        }
        other => panic!("expected a full reload, got {:?}", other),
    }
    assert!(delegate.has_window());
    assert_eq!(held_markdown(&delegate), "# Doc");
    // A second full replace only reloads.
    let actions = delegate.process_content_update(replace("other"), 2);
    assert_eq!(actions.len(), 1);
    assert!(matches!(actions[0], DelegateAction::View(ViewAction::FullReload { .. })));
    assert_eq!(held_markdown(&delegate), "other");
}

#[test]
fn stream_scrolls_to_the_bottom() {
    let mut delegate = GuiDelegate::new(true, StylePreferences::default(), 0);
    let actions = delegate.process_content_update(replace("x"), 1);
    assert!(matches!(
        actions[1],
        DelegateAction::CreateWindow(WindowSize { width: 500, height: 400 })
    ));
    assert!(matches!(
        &actions[2],
        DelegateAction::View(ViewAction::FullReload { scroll: ScrollBehavior::Bottom, .. })
    ));
}

#[test]
fn full_replace_is_rendered_under_the_preferences_in_force() {
    let mut prefs = StylePreferences::default();
    prefs.theme = ThemeMode::Dark;
    let mut delegate = GuiDelegate::new(false, prefs, 0);
    let text = "```rust\nfn main() {}\n```\n";
    let actions = delegate.process_content_update(replace(text), 1);
    let dark = parse_markdown_with_theme(text, &ThemeMode::Dark);
    assert_ne!(dark, parse_markdown(text));
    let held = delegate.current_document().unwrap();
    assert_eq!(held.style_preferences, prefs);
    assert_eq!(held.html, dark);
    match view_actions(&actions)[0] {
        ViewAction::FullReload { html, stylesheet, .. } => {
            assert_eq!(html, &dark);
            assert_eq!(stylesheet, &prefs.generate_css());
        }
        other => panic!("expected a full reload, got {:?}", other),
    }
}

#[test]
fn full_replace_with_the_same_preferences_keeps_its_html() {
    let mut delegate = GuiDelegate::new(false, StylePreferences::default(), 0);
    let snapshot = DocumentContent::new(
        "text".to_string(),
        "<p>already rendered</p>".to_string(),
        "t".to_string(),
        None,
    );
    delegate.process_content_update(ContentUpdate::FullReplace(snapshot), 1);
    assert_eq!(delegate.current_document().unwrap().html, "<p>already rendered</p>");
}

#[test]
fn append_extends_document_and_sends_the_fragment() {
    let mut delegate = delegate_with_document("base\n", true);
    let actions = delegate.process_content_update(append("more\n"), 5);
    assert_eq!(actions.len(), 1);
    assert!(matches!(
        &actions[0],
        DelegateAction::View(ViewAction::AppendFragment { html }) if html == "<p>more</p>\n"
    ));
    let held = delegate.current_document().unwrap();
    assert_eq!(held.markdown, "base\nmore\n");
    assert_eq!(held.html, "<p>base</p>\n<p>more</p>\n");
}

#[test]
fn append_before_any_document_opens_an_empty_window() {
    let mut delegate = GuiDelegate::new(true, StylePreferences::default(), 0);
    let actions = delegate.process_content_update(append("lost"), 1);
    assert_eq!(actions.len(), 2);
    assert!(matches!(actions[0], DelegateAction::SetupMenu));
    assert!(matches!(actions[1], DelegateAction::CreateEmptyWindow));
    assert!(delegate.has_window());
    assert!(delegate.current_document().is_none());
    // With a window and no document an append changes nothing.
    assert!(delegate.process_content_update(append("lost too"), 2).is_empty());
    assert!(delegate.current_document().is_none());
    // The menu is not installed twice.
    let actions = delegate.process_content_update(replace("doc"), 3);
    assert_eq!(actions.len(), 1);
}

#[test]
fn coalescing_merges_runs_of_appends() {
    let merged = coalesce_appends(vec![append("a"), append("b"), append("c")]);
    assert_eq!(merged.len(), 1);
    match &merged[0] {
        ContentUpdate::Append { markdown, html } => {
            assert_eq!(markdown, "abc");
            assert_eq!(html, "<p>a</p>\n<p>b</p>\n<p>c</p>\n");
        }
        other => panic!("expected an append, got {:?}", other),
    }
    let merged = coalesce_appends(vec![
        append("a"),
        append("b"),
        replace("doc"),
        replace("doc2"),
        append("c"),
        append("d"),
    ]);
    assert_eq!(merged.len(), 4);
    assert!(matches!(&merged[0], ContentUpdate::Append { markdown, .. } if markdown == "ab"));
    assert!(matches!(&merged[1], ContentUpdate::FullReplace(d) if d.markdown == "doc"));
    assert!(matches!(&merged[2], ContentUpdate::FullReplace(d) if d.markdown == "doc2"));
    assert!(matches!(&merged[3], ContentUpdate::Append { markdown, .. } if markdown == "cd"));
    assert!(coalesce_appends(Vec::new()).is_empty());
}

#[test]
fn coalescing_drops_runs_without_markdown() {
    let empty = ContentUpdate::Append { markdown: String::new(), html: "<hr>".to_string() };
    let merged = coalesce_appends(vec![empty.clone(), replace("doc"), append("x"), empty]);
    assert_eq!(merged.len(), 2);
    assert!(matches!(&merged[0], ContentUpdate::FullReplace(_)));
    assert!(matches!(
        &merged[1],
        ContentUpdate::Append { markdown, html } if markdown == "x" && html == "<p>x</p>\n<hr>"
    ));
}

#[test]
fn incremental_strategy_applies_three_appends_as_one() {
    let mut delegate = delegate_with_document("base ", true);
    let actions =
        delegate.process_updates_incrementally(vec![append("a"), append("b"), append("c")], 10);
    assert_eq!(actions.len(), 1);
    match &actions[0] {
        DelegateAction::View(ViewAction::AppendFragment { html }) => {
            assert_eq!(html, "<p>a</p>\n<p>b</p>\n<p>c</p>\n");
        }
        other => panic!("expected a fragment, got {:?}", other),
    }
    assert_eq!(held_markdown(&delegate), "base abc");
}

#[test]
fn incremental_strategy_keeps_full_replaces_apart() {
    let mut delegate = GuiDelegate::new(true, StylePreferences::default(), 0);
    let actions = delegate.process_updates_incrementally(
        vec![replace("one"), append(" two"), append(" three"), replace("four"), append(" five")],
        10,
    );
    let views = view_actions(&actions);
    assert_eq!(views.len(), 4);
    assert!(matches!(views[0], ViewAction::FullReload { .. }));
    assert!(matches!(views[1], ViewAction::AppendFragment { .. }));
    assert!(matches!(views[2], ViewAction::FullReload { .. }));
    assert!(matches!(views[3], ViewAction::AppendFragment { .. }));
    assert_eq!(held_markdown(&delegate), "four five");
}

#[test]
fn reduction_keeps_the_last_full_replace_and_what_follows() {
    let (base, tail) = reduce_batch(vec![append("a"), append("b"), replace("doc0 "), append("c")]);
    assert_eq!(base.unwrap().markdown, "doc0 ");
    assert_eq!(tail, "c");
    let (base, tail) = reduce_batch(vec![append("a"), append("b")]);
    assert!(base.is_none());
    assert_eq!(tail, "ab");
    let (base, tail) = reduce_batch(vec![replace("x"), append("y"), replace("z")]);
    assert_eq!(base.unwrap().markdown, "z");
    assert_eq!(tail, "");
}

#[test]
fn aggressive_strategy_gives_one_full_replace() {
    let mut delegate = delegate_with_document("old", true);
    let actions = delegate.process_updates_aggressively(
        vec![append("a"), append("b"), replace("doc0 "), append("c")],
        10,
    );
    assert_eq!(actions.len(), 1);
    match &actions[0] {
        DelegateAction::View(ViewAction::FullReload { html, scroll, .. }) => {
            assert_eq!(html, "<p>doc0 c</p>\n");
            assert_eq!(*scroll, ScrollBehavior::Bottom);
        }
        other => panic!("expected a full reload, got {:?}", other),
    }
    let held = delegate.current_document().unwrap();
    assert_eq!(held.markdown, "doc0 c");
    assert_eq!(held.html, "<p>doc0 c</p>\n");
    assert_eq!(held.title, "doc");
}

#[test]
fn aggressive_strategy_without_full_replace_rebuilds_the_document() {
    let mut delegate = delegate_with_document("start", false);
    let actions = delegate.process_updates_aggressively(vec![append(" a"), append(" b")], 10);
    assert_eq!(actions.len(), 1);
    match &actions[0] {
        DelegateAction::View(ViewAction::FullReload { html, scroll, .. }) => {
            assert_eq!(html, "<p>start a b</p>\n");
            // A rebuild for a burst scrolls to the end, also for a file.
            assert_eq!(*scroll, ScrollBehavior::Bottom);
        }
        other => panic!("expected a full reload, got {:?}", other),
    }
    assert_eq!(held_markdown(&delegate), "start a b");
    // Nothing to add, nothing to do.
    assert!(delegate.process_updates_aggressively(Vec::new(), 11).is_empty());
    // No document: the appends are lost.
    let mut empty = GuiDelegate::new(true, StylePreferences::default(), 0);
    assert!(empty.process_updates_aggressively(vec![append("x")], 1).is_empty());
    assert!(empty.current_document().is_none());
}

#[test]
fn batch_holds_full_replace() {
    assert!(!holds_full_replace(&Vec::new()));
    assert!(!holds_full_replace(&vec![append("a"), append("b")]));
    assert!(holds_full_replace(&vec![append("a"), replace("d"), append("b")]));
}

#[test]
fn queue_is_first_in_first_out() {
    let mut queue = PendingQueue::new();
    assert_eq!(queue.len(), 0);
    assert!(queue.pop().is_none());
    queue.push(append("1"));
    queue.push(append("2"));
    assert_eq!(queue.len(), 2);
    assert!(matches!(queue.pop(), Some(ContentUpdate::Append { markdown, .. }) if markdown == "1"));
    assert!(matches!(queue.pop(), Some(ContentUpdate::Append { markdown, .. }) if markdown == "2"));
    assert!(queue.pop().is_none());
}

#[test]
fn tick_processes_a_full_replace_at_once() {
    let mut delegate = GuiDelegate::new(true, StylePreferences::default(), 0);
    let mut queue = PendingQueue::new();
    queue.push(replace("hello"));
    let actions = delegate.did_update(Vec::new(), &mut queue, 1);
    assert_eq!(queue.len(), 0);
    assert_eq!(delegate.pending_count(), 0);
    assert_eq!(view_actions(&actions).len(), 1);
    assert_eq!(held_markdown(&delegate), "hello");
}

#[test]
fn tick_keeps_appends_until_the_window_has_passed() {
    let mut delegate = GuiDelegate::new(true, StylePreferences::default(), 0);
    let mut queue = PendingQueue::new();
    queue.push(replace("hello"));
    delegate.did_update(Vec::new(), &mut queue, 1_000 * MS);
    queue.push(append(" world"));
    // 10 ms after the last processing: the slow window of 50 ms has not passed.
    let actions = delegate.did_update(Vec::new(), &mut queue, 1_010 * MS);
    assert!(actions.is_empty());
    assert_eq!(queue.len(), 0);
    assert_eq!(delegate.pending_count(), 1);
    assert_eq!(held_markdown(&delegate), "hello");
    // One nanosecond short of the window.
    assert!(delegate.did_update(Vec::new(), &mut queue, 1_050 * MS - 1).is_empty());
    // Exactly the window.
    let actions = delegate.did_update(Vec::new(), &mut queue, 1_050 * MS);
    assert_eq!(actions.len(), 1);
    assert!(matches!(
        &actions[0],
        DelegateAction::View(ViewAction::AppendFragment { html }) if html == "<p>world</p>\n"
    ));
    assert_eq!(delegate.pending_count(), 0);
    assert_eq!(held_markdown(&delegate), "hello world");
}

#[test]
fn tick_without_input_does_nothing() {
    let mut delegate = delegate_with_document("x", true);
    let mut queue = PendingQueue::new();
    assert!(delegate.did_update(Vec::new(), &mut queue, 10_000 * MS).is_empty());
    assert!(delegate.process_pending(20_000 * MS).is_empty());
    assert_eq!(held_markdown(&delegate), "x");
}

#[test]
fn burst_is_classified_extreme_and_reduced() {
    let mut delegate = delegate_with_document("start", true);
    let mut queue = PendingQueue::new();
    for i in 0..150 {
        queue.push(append(&format!(" {}", i)));
    }
    // 2 ms after the last processing, far inside every window.
    let actions = delegate.did_update(Vec::new(), &mut queue, 2 * MS);
    assert_eq!(delegate.rate_category(), InputRateCategory::Extreme);
    assert_eq!(delegate.get_processing_window(), 1_000 * MS);
    // All 150 were taken, and more than 100 pending force the processing.
    assert_eq!(queue.len(), 0);
    assert_eq!(delegate.pending_count(), 0);
    assert_eq!(actions.len(), 1);
    assert!(matches!(&actions[0], DelegateAction::View(ViewAction::FullReload { .. })));
    let expected: String =
        std::iter::once("start".to_string()).chain((0..150).map(|i| format!(" {}", i))).collect();
    assert_eq!(held_markdown(&delegate), expected);
}

#[test]
fn extreme_rate_takes_at_most_two_hundred_per_tick() {
    let mut delegate = delegate_with_document("start", true);
    let mut queue = PendingQueue::new();
    for _ in 0..250 {
        queue.push(append("x"));
    }
    delegate.collect_updates(&mut queue, 2 * MS);
    assert_eq!(delegate.pending_count(), 200);
    assert_eq!(queue.len(), 50);
    delegate.collect_updates(&mut queue, 3 * MS);
    assert_eq!(delegate.pending_count(), 250);
    assert_eq!(queue.len(), 0);
}

#[test]
fn hundred_pending_at_extreme_rate_still_wait() {
    let mut delegate = delegate_with_document("start", true);
    let mut queue = PendingQueue::new();
    for _ in 0..100 {
        queue.push(append("x"));
    }
    assert!(delegate.did_update(Vec::new(), &mut queue, 2 * MS).is_empty());
    assert_eq!(delegate.pending_count(), 100);
    queue.push(append("y"));
    let actions = delegate.did_update(Vec::new(), &mut queue, 3 * MS);
    assert_eq!(actions.len(), 1);
    assert_eq!(delegate.pending_count(), 0);
    assert_eq!(held_markdown(&delegate), format!("start{}y", "x".repeat(100)));
}

#[test]
fn slow_rate_takes_at_most_five_per_tick() {
    let mut delegate = delegate_with_document("start", true);
    // Two arrivals, half a second apart, keep the rate slow.
    let mut queue = PendingQueue::new();
    queue.push(append("a"));
    delegate.collect_updates(&mut queue, 1_000 * MS);
    queue.push(append("b"));
    delegate.collect_updates(&mut queue, 1_900 * MS);
    assert_eq!(delegate.rate_category(), InputRateCategory::Slow);
    for _ in 0..9 {
        queue.push(append("c"));
    }
    // Arrivals at 1000, 1900, 2800, 2800, ... ms: the mean stays above 100 ms for a while.
    delegate.collect_updates(&mut queue, 2_800 * MS);
    assert_eq!(delegate.pending_count(), 2 + 5);
    assert_eq!(queue.len(), 4);
    assert_eq!(delegate.rate_category(), InputRateCategory::Slow);
}

#[test]
fn menu_messages_change_preferences_and_reload() {
    let mut delegate = delegate_with_document("```rust\nfn f() {}\n```\n", false);
    let actions = delegate.handle_menu_message(MenuMessage::SetTheme(ThemeMode::Dark));
    assert_eq!(actions.len(), 2);
    let mut expected = StylePreferences::default();
    expected.theme = ThemeMode::Dark;
    assert!(matches!(actions[0], DelegateAction::SavePreferences(p) if p == expected));
    match &actions[1] {
        DelegateAction::View(ViewAction::FullReload { html, stylesheet, scroll, .. }) => {
            assert_eq!(html, &parse_markdown_with_theme("```rust\nfn f() {}\n```\n", &ThemeMode::Dark));
            assert_eq!(stylesheet, &expected.generate_css());
            assert_eq!(*scroll, ScrollBehavior::Top);
        }
        other => panic!("expected a full reload, got {:?}", other),
    }
    assert_eq!(delegate.style_preferences(), expected);
    assert_eq!(delegate.current_document().unwrap().style_preferences, expected);

    delegate.handle_menu_message(MenuMessage::SetFontFamily(FontFamily::Monaco));
    delegate.handle_menu_message(MenuMessage::IncreaseFontSize);
    assert_eq!(delegate.style_preferences().font_family, FontFamily::Monaco);
    assert_eq!(delegate.style_preferences().font_size, 16);
    delegate.handle_menu_message(MenuMessage::DecreaseFontSize);
    delegate.handle_menu_message(MenuMessage::DecreaseFontSize);
    assert_eq!(delegate.style_preferences().font_size, 12);
    delegate.handle_menu_message(MenuMessage::ResetFontSize);
    assert_eq!(delegate.style_preferences().font_size, 14);
    assert!(delegate.handle_menu_message(MenuMessage::Copy).is_empty());
    assert!(delegate.handle_menu_message(MenuMessage::SelectAll).is_empty());
}

#[test]
fn preferences_change_without_document_is_only_stored() {
    let mut delegate = GuiDelegate::new(false, StylePreferences::default(), 0);
    let actions = delegate.set_theme(ThemeMode::Light);
    assert_eq!(actions.len(), 1);
    assert!(matches!(actions[0], DelegateAction::SavePreferences(p) if p.theme == ThemeMode::Light));
    assert_eq!(delegate.increase_font_size().len(), 1);
    assert_eq!(delegate.decrease_font_size().len(), 1);
    assert_eq!(delegate.reset_font_size().len(), 1);
    assert_eq!(delegate.set_font_family(FontFamily::Menlo).len(), 1);
}

#[test]
fn toggle_mode_gates_the_fragments() {
    let mut delegate = delegate_with_document("base", true);
    let actions = delegate.toggle_mode();
    assert_eq!(actions.len(), 1);
    assert!(matches!(
        &actions[0],
        DelegateAction::View(ViewAction::FullReload { kind: ReloadKind::ModeToggle, .. })
    ));
    assert_eq!(delegate.view_mode(), ViewMode::Source);
    // In source mode appends reach the document and no fragment is sent.
    assert!(delegate.process_content_update(append(" one"), 5).is_empty());
    assert!(delegate.process_updates_incrementally(vec![append(" two"), append(" three")], 6).is_empty());
    assert_eq!(held_markdown(&delegate), "base one two three");
    let actions = delegate.handle_menu_message(MenuMessage::ToggleMode);
    assert_eq!(actions.len(), 1);
    match &actions[0] {
        DelegateAction::View(ViewAction::FullReload { html, kind, .. }) => {
            assert_eq!(html, "<p>base</p>\n<p>one</p>\n<p>two</p>\n<p>three</p>\n");
            assert_eq!(html, &delegate.current_document().unwrap().html);
            assert_eq!(*kind, ReloadKind::ModeToggle);
        }
        other => panic!("expected a full reload, got {:?}", other),
    }
    assert_eq!(delegate.view_mode(), ViewMode::Preview);
}

#[test]
fn tick_answers_menu_messages_first() {
    let mut delegate = delegate_with_document("base", true);
    let mut queue = PendingQueue::new();
    queue.push(replace("next"));
    let actions = delegate.did_update(
        vec![MenuMessage::SetTheme(ThemeMode::Dark), MenuMessage::ToggleMode],
        &mut queue,
        5,
    );
    assert_eq!(actions.len(), 4);
    assert!(matches!(actions[0], DelegateAction::SavePreferences(_)));
    assert!(matches!(&actions[1], DelegateAction::View(ViewAction::FullReload { kind: ReloadKind::Update, .. })));
    assert!(matches!(&actions[2], DelegateAction::View(ViewAction::FullReload { kind: ReloadKind::ModeToggle, .. })));
    assert!(matches!(&actions[3], DelegateAction::View(ViewAction::FullReload { kind: ReloadKind::Update, .. })));
    assert_eq!(held_markdown(&delegate), "next");
    assert_eq!(delegate.current_document().unwrap().style_preferences.theme, ThemeMode::Dark);
}

#[test]
fn rate_detection_on_the_delegate() {
    let mut delegate = GuiDelegate::new(true, StylePreferences::default(), 0);
    for i in 0..5u64 {
        delegate.detect_and_update_rate_category(i * 50 * MS);
    }
    assert_eq!(delegate.rate_category(), InputRateCategory::Medium);
    assert_eq!(delegate.get_processing_window(), 200 * MS);
}

#[test]
fn document_equals_the_stream_whatever_the_ticks() {
    let lines: Vec<String> = (0..120).map(|i| format!("line {}", i)).collect();
    let updates = homo::streaming::read_from_pipe_stateful(&lines);
    let expected: String = lines.iter().map(|l| format!("{}\n", l)).collect();
    for burst in [1usize, 3, 7, 50] {
        for gap in [0u64, MS / 2, 5 * MS, 40 * MS, 300 * MS] {
            let mut delegate = GuiDelegate::new(true, StylePreferences::default(), 0);
            let mut queue = PendingQueue::new();
            let mut now = 0u64;
            for (i, update) in updates.iter().enumerate() {
                queue.push(update.clone());
                if (i + 1) % burst == 0 {
                    now += gap;
                    delegate.did_update(Vec::new(), &mut queue, now);
                }
            }
            // Ticks go on until everything is applied.
            let mut guard = 0;
            while queue.len() > 0 || delegate.pending_count() > 0 {
                now += 100 * MS;
                delegate.did_update(Vec::new(), &mut queue, now);
                guard += 1;
                assert!(guard < 1000);
            }
            assert_eq!(held_markdown(&delegate), expected, "burst {} gap {}", burst, gap);
        }
    }
}

#[test]
fn window_sizes() {
    let small = document("short");
    assert_eq!(calculate_window_size(&small, true), WindowSize { width: 500, height: 400 });
    assert_eq!(calculate_window_size(&small, false), WindowSize { width: 600, height: 450 });
    let plain: String = (0..20).map(|i| format!("plain text line number {} of the file\n", i)).collect();
    assert!(plain.len() >= 500);
    assert_eq!(calculate_window_size(&document(&plain), false), WindowSize { width: 700, height: 500 });
    let mut named = document(&plain);
    named.file_path = Some("notes.markdown".to_string());
    assert_eq!(calculate_window_size(&named, false), WindowSize { width: 800, height: 600 });
    assert_eq!(calculate_window_size(&named, true), WindowSize { width: 500, height: 400 });
    let heading = format!("# Title\n{}", plain);
    assert_eq!(calculate_window_size(&document(&heading), false), WindowSize { width: 800, height: 600 });
    let long: String = (0..150).map(|i| format!("```\ncode line number {} of the file\n", i)).collect();
    assert!(long.len() > 5000);
    assert_eq!(calculate_window_size(&document(&long), false), WindowSize { width: 900, height: 700 });
    // Few lines keep the window small however long they are.
    let wide = "x".repeat(6000);
    assert_eq!(calculate_window_size(&document(&wide), false), WindowSize { width: 600, height: 450 });
}
