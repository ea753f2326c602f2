use homo::gui::types::ThemeMode;
use homo::markdown::parser::{
    code_block_html, escape_attribute_text, escape_code_text, escape_markup_text,
    finished_block_html, highlight_markdown_with_theme, mermaid_block_html, parse_markdown,
    parse_markdown_chunk, parse_markdown_with_theme, push_spans, render_events, HighlightSpan,
    MarkdownEvent,
};

#[test]
fn paragraphs_and_headings() {
    assert_eq!(parse_markdown(""), "");
    assert_eq!(parse_markdown("a"), "<p>a</p>\n");
    assert_eq!(parse_markdown("# Hi"), "<h1>Hi</h1>\n");
    assert_eq!(parse_markdown("a\n\nb"), "<p>a</p>\n<p>b</p>\n");
    assert_eq!(parse_markdown("x < y & z"), "<p>x &lt; y &amp; z</p>\n");
    assert_eq!(parse_markdown("*em* and **strong**"), "<p><em>em</em> and <strong>strong</strong></p>\n");
}

#[test]
fn extensions_are_enabled() {
    assert_eq!(parse_markdown("~~gone~~"), "<p><del>gone</del></p>\n");
    let table = parse_markdown("| a | b |\n|---|---|\n| 1 | 2 |\n");
    assert!(table.starts_with("<table>"));
    assert!(table.contains("<th>a</th>"));
    assert!(table.contains(">1<"));
    assert!(table.ends_with("</table>\n"));
    let tasks = parse_markdown("- [x] done\n- [ ] open\n");
    assert!(tasks.contains("<input disabled=\"\" type=\"checkbox\" checked=\"\"/>"));
    assert!(tasks.contains("<input disabled=\"\" type=\"checkbox\"/>"));
    let notes = parse_markdown("text[^1]\n\n[^1]: note\n");
    assert!(notes.contains("footnote-reference"));
}

#[test]
fn chunk_and_theme_entry_points_agree() {
    let text = "# T\n\n```rust\nfn main() {}\n```\n";
    assert_eq!(parse_markdown(text), parse_markdown_with_theme(text, &ThemeMode::System));
    assert_eq!(parse_markdown(text), parse_markdown_with_theme(text, &ThemeMode::Light));
    assert_eq!(
        parse_markdown_chunk(text, &ThemeMode::Dark),
        parse_markdown_with_theme(text, &ThemeMode::Dark)
    );
    assert_ne!(parse_markdown_chunk(text, &ThemeMode::Dark), parse_markdown(text));
}

#[test]
fn code_blocks_are_highlighted() {
    let html = parse_markdown("```rust\nfn main() { let a = 1 < 2; }\n```\n");
    assert!(html.starts_with("<pre><code><span style=\"color:#"));
    assert!(html.ends_with("</span></code></pre>"));
    assert!(html.contains("fn"));
    assert!(html.contains("&lt;"));
    assert!(!html.contains(" < "));
    // Several spans: the code was highlighted as Rust.
    assert!(html.matches("color:#").count() > 3);
}

#[test]
fn unknown_language_falls_back_to_plain_text() {
    let html = parse_markdown("```nosuchlanguage\na & b\n```\n");
    assert!(html.starts_with("<pre><code><span style=\"color:#"));
    assert!(html.contains("a &amp; b\n"));
    assert_eq!(html.matches("<span").count(), 1);
    let indented = parse_markdown("    four spaces\n");
    assert!(indented.starts_with("<pre><code><span style=\"color:#"));
    assert!(indented.contains("four spaces\n"));
}

#[test]
fn mermaid_blocks_become_diagram_markup() {
    let html = parse_markdown("```mermaid\ngraph TD; A-->B;\n```\n");
    assert_eq!(html, mermaid_block_html("graph TD; A-->B;\n"));
    assert_eq!(html, finished_block_html("graph TD; A-->B;\n", "mermaid", &ThemeMode::Dark));
    assert_eq!(
        mermaid_block_html("a<\"b\">&'c'"),
        "<div class=\"mermaid-container\" data-mermaid-source=\"a<&quot;b&quot;>&amp;&#39;c&#39;\">\
<div class=\"mermaid-buttons\">\
<button class=\"mermaid-toggle-btn\" onclick=\"toggleMermaidView(this)\" title=\"Toggle rendered/raw view\">View</button>\
<button class=\"mermaid-copy-btn\" onclick=\"copyMermaidCode(this)\" title=\"Copy Mermaid source\">Copy</button>\
</div>\
<div class=\"mermaid\">a<\"b\">&'c'</div>\
<pre class=\"mermaid-raw\" style=\"display: none;\"><code>a&lt;\"b\"&gt;&amp;'c'</code></pre>\
</div>"
    );
}

#[test]
fn escapes() {
    assert_eq!(escape_code_text("a & b < c > d"), "a &amp; b &lt; c > d");
    assert_eq!(escape_markup_text("a & b < c > d"), "a &amp; b &lt; c &gt; d");
    assert_eq!(escape_attribute_text("\"a\" & 'b' <c>"), "&quot;a&quot; &amp; &#39;b&#39; <c>");
    assert_eq!(escape_code_text("&lt;"), "&amp;lt;");
    assert_eq!(escape_markup_text(""), "");
}

fn span(red: u8, green: u8, blue: u8, text: &str) -> HighlightSpan {
    HighlightSpan { red, green, blue, text: text.to_string() }
}

#[test]
fn spans_become_coloured_markup() {
    let spans = vec![span(0, 10, 255, "a<b"), span(171, 205, 239, "&\n")];
    let mut out = String::from("x");
    push_spans(&mut out, &spans);
    assert_eq!(
        out,
        "x<span style=\"color:#000aff\">a&lt;b</span><span style=\"color:#abcdef\">&amp;\n</span>"
    );
    assert_eq!(
        code_block_html("<pre><code>", "ignored", &Some(spans)),
        "<pre><code><span style=\"color:#000aff\">a&lt;b</span><span style=\"color:#abcdef\">&amp;\n</span></code></pre>"
    );
    assert_eq!(code_block_html("<pre>", "a<b", &Some(Vec::new())), "<pre></code></pre>");
}

#[test]
fn code_without_spans_is_escaped() {
    assert_eq!(code_block_html("<pre><code>", "a<b&c", &None), "<pre><code>a&lt;b&amp;c</code></pre>");
}

#[test]
fn events_are_assembled_in_order() {
    let events = vec![
        MarkdownEvent::Other("<p>".to_string()),
        MarkdownEvent::Text("a<b".to_string(), "a&lt;b".to_string()),
        MarkdownEvent::Other("</p>\n".to_string()),
        MarkdownEvent::FencedCodeStart("mermaid".to_string()),
        MarkdownEvent::Text("graph".to_string(), "unused".to_string()),
        MarkdownEvent::Text(" TD".to_string(), "unused".to_string()),
        MarkdownEvent::CodeEnd,
        MarkdownEvent::Text("tail".to_string(), "TAIL".to_string()),
    ];
    let html = render_events(&events, &ThemeMode::Light);
    assert_eq!(html, format!("<p>a&lt;b</p>\n{}TAIL", mermaid_block_html("graph TD")));
}

#[test]
fn language_does_not_leak_into_the_next_block() {
    let events = vec![
        MarkdownEvent::FencedCodeStart("mermaid".to_string()),
        MarkdownEvent::Text("g".to_string(), String::new()),
        MarkdownEvent::CodeEnd,
        MarkdownEvent::IndentedCodeStart,
        MarkdownEvent::Text("plain".to_string(), String::new()),
        MarkdownEvent::CodeEnd,
    ];
    let html = render_events(&events, &ThemeMode::Light);
    let expected = format!(
        "{}{}",
        mermaid_block_html("g"),
        finished_block_html("plain", "", &ThemeMode::Light)
    );
    assert_eq!(html, expected);
    assert!(html.ends_with("plain</span></code></pre>"));
}

#[test]
fn markdown_source_is_highlighted_as_markdown() {
    let html = highlight_markdown_with_theme("# Title\n\nsome *text* & <tag>\n", &ThemeMode::Light);
    assert!(html.starts_with("<pre style=\"background-color: var(--pre-bg-color); padding: 16px; border-radius: 6px; overflow: auto; white-space: pre-wrap; word-wrap: break-word;\"><code><span style=\"color:#"));
    assert!(html.ends_with("</span></code></pre>"));
    assert!(html.contains("&amp;"));
    assert!(html.contains("&lt;"));
    assert!(!html.contains("<tag>"));
    assert!(html.matches("<span").count() > 2);
    let dark = highlight_markdown_with_theme("# Title\n", &ThemeMode::Dark);
    assert_ne!(dark, highlight_markdown_with_theme("# Title\n", &ThemeMode::Light));
    assert_eq!(
        highlight_markdown_with_theme("# Title\n", &ThemeMode::System),
        highlight_markdown_with_theme("# Title\n", &ThemeMode::Light)
    );
    assert_eq!(
        highlight_markdown_with_theme("", &ThemeMode::Light),
        "<pre style=\"background-color: var(--pre-bg-color); padding: 16px; border-radius: 6px; overflow: auto; white-space: pre-wrap; word-wrap: break-word;\"><code></code></pre>"
    );
}
