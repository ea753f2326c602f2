//! Renders markdown to HTML.
//!
//! The markdown grammar and the syntax highlighting are the work of
//! `pulldown_cmark` and `syntect`. This module walks the event stream, routes
//! code blocks to the highlighter or to the diagram markup, and assembles the
//! HTML.

use crate::gui::types::ThemeMode;
use crate::text::{digit_char, push_char, replace_char, replace_char_in, str_equals};
use pulldown_cmark::{html, CodeBlockKind, Event, Options, Parser, Tag, TagEnd};
use syntect::easy::HighlightLines;
use syntect::highlighting::ThemeSet;
use syntect::parsing::SyntaxSet;
use syntect::util::LinesWithEndings;
use vstd::prelude::*;
use vstd::string::*;

verus! {

pub const LIGHT_THEME: &'static str = "InspiredGitHub";

pub const DARK_THEME: &'static str = "base16-ocean.dark";

/// The syntax used for a code block whose language is not known.
pub const FALLBACK_SYNTAX: &'static str = "txt";

/// The file extension whose syntax highlights markdown source.
pub const MARKDOWN_EXTENSION: &'static str = "md";

pub const MERMAID_LANGUAGE: &'static str = "mermaid";

pub const CODE_OPEN: &'static str = "<pre><code>";

pub const CODE_CLOSE: &'static str = "</code></pre>";

pub const SOURCE_OPEN: &'static str =
    "<pre style=\"background-color: var(--pre-bg-color); padding: 16px; border-radius: 6px; overflow: auto; white-space: pre-wrap; word-wrap: break-word;\"><code>";

pub const SPAN_OPEN: &'static str = "<span style=\"color:#";

pub const SPAN_MIDDLE: &'static str = "\">";

pub const SPAN_CLOSE: &'static str = "</span>";

pub const MERMAID_OPEN: &'static str = "<div class=\"mermaid-container\" data-mermaid-source=\"";

pub const MERMAID_BUTTONS: &'static str =
    "\"><div class=\"mermaid-buttons\"><button class=\"mermaid-toggle-btn\" onclick=\"toggleMermaidView(this)\" title=\"Toggle rendered/raw view\">View</button><button class=\"mermaid-copy-btn\" onclick=\"copyMermaidCode(this)\" title=\"Copy Mermaid source\">Copy</button></div><div class=\"mermaid\">";

pub const MERMAID_RAW: &'static str =
    "</div><pre class=\"mermaid-raw\" style=\"display: none;\"><code>";

pub const MERMAID_CLOSE: &'static str = "</code></pre></div>";

/// One item of the markdown event stream, reduced to what rendering reads.
pub enum MarkdownEvent {
    /// A fenced code block opens; the text is its info string.
    FencedCodeStart(String),
    /// An indented code block opens.
    IndentedCodeStart,
    /// The open code block closes.
    CodeEnd,
    /// Literal text, with the HTML it has outside a code block.
    Text(String, String),
    /// Any other event, as the HTML it stands for.
    Other(String),
}

pub enum MarkdownEventView {
    FencedCodeStart(Seq<char>),
    IndentedCodeStart,
    CodeEnd,
    Text(Seq<char>, Seq<char>),
    Other(Seq<char>),
}

impl View for MarkdownEvent {
    type V = MarkdownEventView;

    open spec fn view(&self) -> MarkdownEventView {
        match self {
            MarkdownEvent::FencedCodeStart(language) => MarkdownEventView::FencedCodeStart(
                language@,
            ),
            MarkdownEvent::IndentedCodeStart => MarkdownEventView::IndentedCodeStart,
            MarkdownEvent::CodeEnd => MarkdownEventView::CodeEnd,
            MarkdownEvent::Text(text, html) => MarkdownEventView::Text(text@, html@),
            MarkdownEvent::Other(html) => MarkdownEventView::Other(html@),
        }
    }
}

/// A run of highlighted text and its foreground colour.
pub struct HighlightSpan {
    pub red: u8,
    pub green: u8,
    pub blue: u8,
    pub text: String,
}

pub struct HighlightSpanView {
    pub red: u8,
    pub green: u8,
    pub blue: u8,
    pub text: Seq<char>,
}

impl View for HighlightSpan {
    type V = HighlightSpanView;

    open spec fn view(&self) -> HighlightSpanView {
        HighlightSpanView { red: self.red, green: self.green, blue: self.blue, text: self.text@ }
    }
}

/// The views of a sequence of events.
pub open spec fn event_views(events: Seq<MarkdownEvent>) -> Seq<MarkdownEventView> {
    events.map_values(|e: MarkdownEvent| e@)
}

/// The views of a sequence of spans.
pub open spec fn span_views(spans: Seq<HighlightSpan>) -> Seq<HighlightSpanView> {
    spans.map_values(|s: HighlightSpan| s@)
}

/// The parser option word that enables the given extensions.
pub uninterp spec fn extension_bits(
    tables: bool,
    footnotes: bool,
    strikethrough: bool,
    tasklists: bool,
) -> u32;

/// The event stream of `input` under the parser options `options`.
pub uninterp spec fn parsed_events(input: Seq<char>, options: u32) -> Seq<MarkdownEventView>;

/// The highlighted spans of `code`, in the syntax found by the token `token`
/// or else by `fallback`, coloured by the theme named `theme`; `None` where
/// no syntax or theme is found or the highlighter fails.
pub uninterp spec fn highlighted_by_token(
    code: Seq<char>,
    token: Seq<char>,
    fallback: Seq<char>,
    theme: Seq<char>,
) -> Option<Seq<HighlightSpanView>>;

/// The highlighted spans of `code`, in the syntax of the file extension
/// `extension`, coloured by the theme named `theme`; `None` where no syntax
/// or theme is found or the highlighter fails.
pub uninterp spec fn highlighted_by_extension(
    code: Seq<char>,
    extension: Seq<char>,
    theme: Seq<char>,
) -> Option<Seq<HighlightSpanView>>;

/// Trusted: `Options::set` and `Options::bits` of `pulldown_cmark`. Builds the
/// option set with exactly the named extensions and returns its bits. The
/// result is a function of the four arguments.
#[verifier::external_body]
fn parser_option_bits(tables: bool, footnotes: bool, strikethrough: bool, tasklists: bool) -> (bits:
    u32)
    ensures
        bits == extension_bits(tables, footnotes, strikethrough, tasklists),
{
    let mut options = Options::empty();
    options.set(Options::ENABLE_TABLES, tables);
    options.set(Options::ENABLE_FOOTNOTES, footnotes);
    options.set(Options::ENABLE_STRIKETHROUGH, strikethrough);
    options.set(Options::ENABLE_TASKLISTS, tasklists);
    options.bits()
}

/// Trusted: `Parser::new_ext` and `html::push_html` of `pulldown_cmark`. Runs
/// the parser over `input` and hands each event out as a plain value; the
/// HTML of an event is what `push_html` writes for that event alone. The
/// result is a function of the input and the options.
#[verifier::external_body]
fn markdown_events(input: &str, options: u32) -> (events: Vec<MarkdownEvent>)
    ensures
        event_views(events@) == parsed_events(input@, options),
{
    let mut events = Vec::new();
    for event in Parser::new_ext(input, Options::from_bits_truncate(options)) {
        let mut markup = String::new();
        html::push_html(&mut markup, std::iter::once(event.clone()));
        events.push(match event {
            Event::Start(Tag::CodeBlock(kind)) => match kind {
                CodeBlockKind::Fenced(info) => MarkdownEvent::FencedCodeStart(info.to_string()),
                CodeBlockKind::Indented => MarkdownEvent::IndentedCodeStart,
            },
            Event::End(TagEnd::CodeBlock) => MarkdownEvent::CodeEnd,
            Event::Text(text) => MarkdownEvent::Text(text.to_string(), markup),
            _ => MarkdownEvent::Other(markup),
        });
    }
    events
}

/// Trusted: `SyntaxSet::load_defaults_newlines`, `ThemeSet::load_defaults`,
/// `SyntaxSet::find_syntax_by_token`, `HighlightLines::highlight_line` and
/// `LinesWithEndings` of `syntect`. Highlights `code` line by line with the
/// bundled syntaxes and themes and hands out each span's colour and text.
/// The result is a function of the four arguments.
#[verifier::external_body]
fn highlight_by_token(code: &str, token: &str, fallback: &str, theme: &str) -> (spans: Option<
    Vec<HighlightSpan>,
>)
    ensures
        match spans {
            Some(found) => highlighted_by_token(code@, token@, fallback@, theme@) == Some(
                span_views(found@),
            ),
            None => highlighted_by_token(code@, token@, fallback@, theme@) is None,
        },
{
    let syntaxes = SyntaxSet::load_defaults_newlines();
    let themes = ThemeSet::load_defaults();
    let by_token = syntaxes.find_syntax_by_token(token);
    let syntax = by_token.or_else(|| syntaxes.find_syntax_by_token(fallback))?;
    let mut lines = HighlightLines::new(syntax, themes.themes.get(theme)?);
    let mut spans = Vec::new();
    for line in LinesWithEndings::from(code) {
        for (style, text) in lines.highlight_line(line, &syntaxes).ok()? {
            let (red, green, blue) = (style.foreground.r, style.foreground.g, style.foreground.b);
            spans.push(HighlightSpan { red, green, blue, text: text.to_string() });
        }
    }
    Some(spans)
}

/// Trusted: `SyntaxSet::load_defaults_newlines`, `ThemeSet::load_defaults`,
/// `SyntaxSet::find_syntax_by_extension`, `HighlightLines::highlight_line` and
/// `LinesWithEndings` of `syntect`. As `highlight_by_token`, with the syntax
/// looked up by file extension.
#[verifier::external_body]
fn highlight_by_extension(code: &str, extension: &str, theme: &str) -> (spans: Option<
    Vec<HighlightSpan>,
>)
    ensures
        match spans {
            Some(found) => highlighted_by_extension(code@, extension@, theme@) == Some(
                span_views(found@),
            ),
            None => highlighted_by_extension(code@, extension@, theme@) is None,
        },
{
    let syntaxes = SyntaxSet::load_defaults_newlines();
    let themes = ThemeSet::load_defaults();
    let syntax = syntaxes.find_syntax_by_extension(extension)?;
    let mut lines = HighlightLines::new(syntax, themes.themes.get(theme)?);
    let mut spans = Vec::new();
    for line in LinesWithEndings::from(code) {
        for (style, text) in lines.highlight_line(line, &syntaxes).ok()? {
            let (red, green, blue) = (style.foreground.r, style.foreground.g, style.foreground.b);
            spans.push(HighlightSpan { red, green, blue, text: text.to_string() });
        }
    }
    Some(spans)
}

/// The name of the highlighting theme used for each theme mode.
pub open spec fn theme_name(theme: ThemeMode) -> Seq<char> {
    match theme {
        ThemeMode::Light => LIGHT_THEME@,
        ThemeMode::Dark => DARK_THEME@,
        ThemeMode::System => LIGHT_THEME@,
    }
}

/// The lower-case hexadecimal digit for `d`, which is below sixteen.
pub open spec fn hex_digit(d: nat) -> char {
    if d < 10 {
        digit_char(d)
    } else if d == 10 {
        'a'
    } else if d == 11 {
        'b'
    } else if d == 12 {
        'c'
    } else if d == 13 {
        'd'
    } else if d == 14 {
        'e'
    } else {
        'f'
    }
}

/// A byte as two lower-case hexadecimal digits.
pub open spec fn hex_byte(b: u8) -> Seq<char> {
    seq![hex_digit((b / 16) as nat), hex_digit((b % 16) as nat)]
}

/// Text with `&` and `<` replaced by their entities.
pub open spec fn escape_code(text: Seq<char>) -> Seq<char> {
    replace_char(replace_char(text, '&', "&amp;"@), '<', "&lt;"@)
}

/// Text with `&`, `<` and `>` replaced by their entities.
pub open spec fn escape_markup(text: Seq<char>) -> Seq<char> {
    replace_char(escape_code(text), '>', "&gt;"@)
}

/// Text with `&`, `"` and `'` replaced by their entities.
pub open spec fn escape_attribute(text: Seq<char>) -> Seq<char> {
    replace_char(replace_char(replace_char(text, '&', "&amp;"@), '"', "&quot;"@), '\'', "&#39;"@)
}

/// The markup of one highlighted span.
pub open spec fn span_markup(span: HighlightSpanView) -> Seq<char> {
    SPAN_OPEN@ + hex_byte(span.red) + hex_byte(span.green) + hex_byte(span.blue) + SPAN_MIDDLE@
        + escape_code(span.text) + SPAN_CLOSE@
}

/// The markup of a sequence of spans, in order.
pub open spec fn spans_markup(spans: Seq<HighlightSpanView>) -> Seq<char>
    decreases spans.len(),
{
    if spans.len() == 0 {
        Seq::empty()
    } else {
        spans_markup(spans.drop_last()) + span_markup(spans.last())
    }
}

/// The markup of a code block: the spans where highlighting succeeded,
/// the escaped code where it did not.
pub open spec fn code_markup(
    open: Seq<char>,
    code: Seq<char>,
    spans: Option<Seq<HighlightSpanView>>,
) -> Seq<char> {
    match spans {
        Some(found) => open + spans_markup(found) + CODE_CLOSE@,
        None => open + escape_code(code) + CODE_CLOSE@,
    }
}

/// The markup of a diagram block.
pub open spec fn mermaid_markup(code: Seq<char>) -> Seq<char> {
    MERMAID_OPEN@ + escape_attribute(code) + MERMAID_BUTTONS@ + code + MERMAID_RAW@
        + escape_markup(code) + MERMAID_CLOSE@
}

/// What rendering has gathered after a prefix of the event stream.
pub struct RenderState {
    pub html: Seq<char>,
    pub code: Seq<char>,
    pub language: Seq<char>,
    pub in_code_block: bool,
}

pub open spec fn initial_render_state() -> RenderState {
    RenderState { html: Seq::empty(), code: Seq::empty(), language: Seq::empty(), in_code_block: false }
}

/// The markup of a finished code block in the given language.
pub open spec fn finished_block_markup(code: Seq<char>, language: Seq<char>, theme: ThemeMode) -> Seq<
    char,
> {
    if language == MERMAID_LANGUAGE@ {
        mermaid_markup(code)
    } else {
        code_markup(
            CODE_OPEN@,
            code,
            highlighted_by_token(code, language, FALLBACK_SYNTAX@, theme_name(theme)),
        )
    }
}

/// The effect of one event on the rendering state.
pub open spec fn render_step(state: RenderState, event: MarkdownEventView, theme: ThemeMode) -> RenderState {
    match event {
        MarkdownEventView::FencedCodeStart(language) => RenderState {
            language,
            in_code_block: true,
            ..state
        },
        MarkdownEventView::IndentedCodeStart => RenderState { in_code_block: true, ..state },
        MarkdownEventView::CodeEnd => RenderState {
            html: state.html + finished_block_markup(state.code, state.language, theme),
            code: Seq::empty(),
            language: Seq::empty(),
            in_code_block: false,
        },
        MarkdownEventView::Text(text, markup) => if state.in_code_block {
            RenderState { code: state.code + text, ..state }
        } else {
            RenderState { html: state.html + markup, ..state }
        },
        MarkdownEventView::Other(markup) => RenderState { html: state.html + markup, ..state },
    }
}

/// The rendering state after all of `events`.
pub open spec fn render_fold(events: Seq<MarkdownEventView>, theme: ThemeMode) -> RenderState
    decreases events.len(),
{
    if events.len() == 0 {
        initial_render_state()
    } else {
        render_step(render_fold(events.drop_last(), theme), events.last(), theme)
    }
}

/// The HTML of the markdown text `input` under `theme`.
pub open spec fn rendered_html(input: Seq<char>, theme: ThemeMode) -> Seq<char> {
    render_fold(parsed_events(input, extension_bits(true, true, true, true)), theme).html
}

/// The HTML that shows the markdown text `input` as highlighted source.
pub open spec fn highlighted_source(input: Seq<char>, theme: ThemeMode) -> Seq<char> {
    code_markup(
        SOURCE_OPEN@,
        input,
        highlighted_by_extension(input, MARKDOWN_EXTENSION@, theme_name(theme)),
    )
}

fn hex_digit_char(d: u8) -> (c: char)
    requires
        d < 16,
    ensures
        c == hex_digit(d as nat),
{
    if d == 0 {
        '0'
    } else if d == 1 {
        '1'
    } else if d == 2 {
        '2'
    } else if d == 3 {
        '3'
    } else if d == 4 {
        '4'
    } else if d == 5 {
        '5'
    } else if d == 6 {
        '6'
    } else if d == 7 {
        '7'
    } else if d == 8 {
        '8'
    } else if d == 9 {
        '9'
    } else if d == 10 {
        'a'
    } else if d == 11 {
        'b'
    } else if d == 12 {
        'c'
    } else if d == 13 {
        'd'
    } else if d == 14 {
        'e'
    } else {
        'f'
    }
}

fn push_hex_byte(out: &mut String, b: u8)
    ensures
        final(out)@ == old(out)@ + hex_byte(b),
{
    push_char(out, hex_digit_char(b / 16));
    push_char(out, hex_digit_char(b % 16));
    proof {
        assert(old(out)@.push(hex_digit((b / 16) as nat)).push(hex_digit((b % 16) as nat)) =~= old(
            out,
        )@ + hex_byte(b));
    }
}

/// `text` with `&` and `<` replaced by their entities.
pub fn escape_code_text(text: &str) -> (escaped: String)
    ensures
        escaped@ == escape_code(text@),
{
    let first = replace_char_in(text, '&', "&amp;");
    replace_char_in(first.as_str(), '<', "&lt;")
}

/// `text` with `&`, `<` and `>` replaced by their entities.
pub fn escape_markup_text(text: &str) -> (escaped: String)
    ensures
        escaped@ == escape_markup(text@),
{
    let first = escape_code_text(text);
    replace_char_in(first.as_str(), '>', "&gt;")
}

/// `text` with `&`, `"` and `'` replaced by their entities.
pub fn escape_attribute_text(text: &str) -> (escaped: String)
    ensures
        escaped@ == escape_attribute(text@),
{
    let first = replace_char_in(text, '&', "&amp;");
    let second = replace_char_in(first.as_str(), '"', "&quot;");
    replace_char_in(second.as_str(), '\'', "&#39;")
}

/// Appends the markup of `spans` to `out`.
pub fn push_spans(out: &mut String, spans: &Vec<HighlightSpan>)
    ensures
        final(out)@ == old(out)@ + spans_markup(span_views(spans@)),
{
    let ghost views = span_views(spans@);
    let mut i: usize = 0;
    while i < spans.len()
        invariant
            i <= spans.len(),
            views == span_views(spans@),
            out@ == old(out)@ + spans_markup(views.take(i as int)),
        decreases spans.len() - i,
    {
        let span = &spans[i];
        let ghost before = out@;
        out.append(SPAN_OPEN);
        push_hex_byte(out, span.red);
        push_hex_byte(out, span.green);
        push_hex_byte(out, span.blue);
        out.append(SPAN_MIDDLE);
        let escaped = escape_code_text(span.text.as_str());
        out.append(escaped.as_str());
        out.append(SPAN_CLOSE);
        proof {
            assert(views.take(i + 1).drop_last() =~= views.take(i as int));
            assert(views.take(i + 1).last() == spans@[i as int]@);
            assert(out@ =~= before + span_markup(spans@[i as int]@));
            assert(out@ =~= old(out)@ + spans_markup(views.take(i + 1)));
        }
        i += 1;
    }
    proof {
        assert(views.take(spans.len() as int) =~= views);
    }
}

/// The markup of a code block that opens with `open`: the highlighted
/// spans, or the escaped code where there are none.
pub fn code_block_html(open: &str, code: &str, spans: &Option<Vec<HighlightSpan>>) -> (markup: String)
    ensures
        markup@ == code_markup(
            open@,
            code@,
            match spans {
                Some(found) => Some(span_views(found@)),
                None => None,
            },
        ),
{
    let mut markup = String::new();
    markup.append(open);
    match spans {
        Some(found) => {
            push_spans(&mut markup, found);
        },
        None => {
            let escaped = escape_code_text(code);
            markup.append(escaped.as_str());
        },
    }
    markup.append(CODE_CLOSE);
    proof {
        assert(Seq::<char>::empty() + open@ =~= open@);
    }
    markup
}

/// The markup of a diagram block holding `code`.
pub fn mermaid_block_html(code: &str) -> (markup: String)
    ensures
        markup@ == mermaid_markup(code@),
{
    let attribute = escape_attribute_text(code);
    let escaped = escape_markup_text(code);
    let mut markup = String::new();
    markup.append(MERMAID_OPEN);
    markup.append(attribute.as_str());
    markup.append(MERMAID_BUTTONS);
    markup.append(code);
    markup.append(MERMAID_RAW);
    markup.append(escaped.as_str());
    markup.append(MERMAID_CLOSE);
    proof {
        assert(markup@ =~= mermaid_markup(code@));
    }
    markup
}

fn theme_name_of(theme: &ThemeMode) -> (name: &'static str)
    ensures
        name@ == theme_name(*theme),
{
    match theme {
        ThemeMode::Light => LIGHT_THEME,
        ThemeMode::Dark => DARK_THEME,
        ThemeMode::System => LIGHT_THEME,
    }
}

/// The markup of a finished code block: diagram markup for a diagram,
/// highlighted code for anything else.
pub fn finished_block_html(code: &str, language: &str, theme: &ThemeMode) -> (markup: String)
    ensures
        markup@ == finished_block_markup(code@, language@, *theme),
{
    if str_equals(language, MERMAID_LANGUAGE) {
        mermaid_block_html(code)
    } else {
        let spans = highlight_by_token(code, language, FALLBACK_SYNTAX, theme_name_of(theme));
        code_block_html(CODE_OPEN, code, &spans)
    }
}

/// Assembles the HTML of an event stream.
pub fn render_events(events: &Vec<MarkdownEvent>, theme: &ThemeMode) -> (html: String)
    ensures
        html@ == render_fold(event_views(events@), *theme).html,
{
    let ghost views = event_views(events@);
    let mut html = String::new();
    let mut code = String::new();
    let mut language = String::new();
    let mut in_code_block = false;
    let mut i: usize = 0;
    while i < events.len()
        invariant
            i <= events.len(),
            views == event_views(events@),
            render_fold(views.take(i as int), *theme) == (RenderState {
                html: html@,
                code: code@,
                language: language@,
                in_code_block,
            }),
        decreases events.len() - i,
    {
        proof {
            assert(views.take(i + 1).drop_last() =~= views.take(i as int));
            assert(views.take(i + 1).last() == events@[i as int]@);
        }
        match &events[i] {
            MarkdownEvent::FencedCodeStart(info) => {
                in_code_block = true;
                language = info.clone();
            },
            MarkdownEvent::IndentedCodeStart => {
                in_code_block = true;
            },
            MarkdownEvent::CodeEnd => {
                in_code_block = false;
                let block = finished_block_html(code.as_str(), language.as_str(), theme);
                html.append(block.as_str());
                code = String::new();
                language = String::new();
            },
            MarkdownEvent::Text(text, markup) => {
                if in_code_block {
                    code.append(text.as_str());
                } else {
                    html.append(markup.as_str());
                }
            },
            MarkdownEvent::Other(markup) => {
                html.append(markup.as_str());
            },
        }
        i += 1;
    }
    proof {
        assert(views.take(events.len() as int) =~= views);
    }
    html
}

/// Renders markdown to HTML under the theme that follows the system.
///
/// Tables, footnotes, strikethrough and task lists are enabled.
pub fn parse_markdown(markdown_input: &str) -> (html: String)
    ensures
        html@ == rendered_html(markdown_input@, ThemeMode::System),
{
    parse_markdown_with_theme(markdown_input, &ThemeMode::System)
}

/// Renders one chunk of a markdown stream to HTML.
pub fn parse_markdown_chunk(chunk: &str, theme_mode: &ThemeMode) -> (html: String)
    ensures
        html@ == rendered_html(chunk@, *theme_mode),
{
    parse_markdown_with_theme(chunk, theme_mode)
}

/// Renders markdown to HTML, with code blocks highlighted for `theme_mode`.
pub fn parse_markdown_with_theme(markdown_input: &str, theme_mode: &ThemeMode) -> (html: String)
    ensures
        html@ == rendered_html(markdown_input@, *theme_mode),
{
    let options = parser_option_bits(true, true, true, true);
    let events = markdown_events(markdown_input, options);
    render_events(&events, theme_mode)
}

/// Renders markdown source itself as highlighted HTML.
pub fn highlight_markdown_with_theme(markdown_input: &str, theme_mode: &ThemeMode) -> (html: String)
    ensures
        html@ == highlighted_source(markdown_input@, *theme_mode),
{
    let spans = highlight_by_extension(markdown_input, MARKDOWN_EXTENSION, theme_name_of(theme_mode));
    code_block_html(SOURCE_OPEN, markdown_input, &spans)
}

} // verus!
