//! The state behind the rendering surface, and what the surface is told.
//!
//! The surface itself is outside this library. The view keeps what has
//! been handed to it and answers each change with a `ViewAction` for the
//! caller to carry out.

use crate::content::{DocumentContent, DocumentView, ViewMode};
use crate::gui::types::{stylesheet, StylePreferences};
use crate::markdown::parser::{highlight_markdown_with_theme, highlighted_source};
use crate::text::{str_equals, to_chars};
use vstd::prelude::*;
use vstd::string::*;

verus! {

/// Nanoseconds between two full rebuilds of the surface while fragments
/// keep arriving.
pub const SYNC_INTERVAL: u64 = 5_000_000_000;

pub const SCROLL_TO_TOP: &'static str = "window.scrollToTop();";

pub const SCROLL_TO_BOTTOM: &'static str = "window.scrollToBottom();";

pub const LINK_CLICKED: &'static str = "linkClicked";

pub const COPY_TEXT: &'static str = "copyText";

/// The fragment sent where a fragment cannot be written as a script literal.
pub const APPEND_FALLBACK: &'static str = "\"Error: Could not escape HTML content\"";

/// The content sent where the content cannot be written as a script literal.
pub const SYNC_FALLBACK: &'static str = "\"Sync error\"";

/// The rebuild script, up to the page content.
pub const SYNC_SCRIPT_OPEN: &'static str =
    "\n                    try {\n                        // Clear and rebuild content to ensure integrity\n                        document.body.innerHTML = ";

/// The rebuild script, after the page content.
pub const SYNC_SCRIPT_CLOSE: &'static str =
    ";\n                        console.log('Periodic sync completed, content length:', document.body.innerHTML.length);\n                        \n                        // Re-initialize scroll button and Mermaid\n                        if (typeof window.createScrollToBottomButton === 'function') {\n                            window.createScrollToBottomButton();\n                            window.addEventListener('scroll', window.handleScroll);\n                        }\n                        \n                        if (typeof mermaid !== 'undefined') {\n                            const mermaidElements = document.querySelectorAll('.mermaid');\n                            mermaidElements.forEach(async (element, index) => {\n                                const graphDefinition = element.textContent.trim();\n                                try {\n                                    element.innerHTML = '';\n                                    const { svg } = await mermaid.render(`syncChart${Date.now()}_${index}`, graphDefinition);\n                                    element.innerHTML = svg;\n                                } catch (error) {\n                                    console.error('Mermaid sync error:', error);\n                                }\n                            });\n                        }\n                    } catch(e) {\n                        console.error('Sync error:', e);\n                    }\n                    ";

/// The append script, up to the fragment.
pub const APPEND_SCRIPT_OPEN: &'static str =
    "\n                    try {\n                        if (typeof window.appendContent === 'function') {\n                            window.appendContent(";

/// The append script, after the fragment.
pub const APPEND_SCRIPT_CLOSE: &'static str =
    ");\n                        } else {\n                            console.error('appendContent function not available');\n                        }\n                    } catch(e) {\n                        console.error('JavaScript append error:', e);\n                    }\n                    ";

/// A page, up to its stylesheet.
pub const PAGE_OPEN: &'static str =
    "<!DOCTYPE html>\n<html>\n<head>\n    <meta charset=\"UTF-8\">\n    <style>";

/// Between stylesheet and load script of a page loaded for an update.
pub const PAGE_SCRIPTS: &'static str =
    "</style>\n    <script src=\"https://cdn.jsdelivr.net/npm/mermaid@11.9.0/dist/mermaid.min.js\"></script>\n</head>\n<body onload=\"";

/// Between stylesheet and load script of a page loaded for a mode change.
pub const TOGGLE_PAGE_SCRIPTS: &'static str =
    "</style>\n    <script src=\"https://cdn.jsdelivr.net/npm/mermaid@10/dist/mermaid.min.js\"></script>\n</head>\n<body onload=\"";

/// Between load script and content of a page.
pub const PAGE_BODY: &'static str =
    "\">\n";

/// What follows the content of a page loaded for an update.
pub const PAGE_CLOSE: &'static str =
    "\n<script>\n// Initialize scroll to bottom button for regular content updates\nsetTimeout(function() {\n    console.log('Trying to create scroll button...');\n    if (typeof window.createScrollToBottomButton === 'function') {\n        console.log('Creating scroll button from inline script...');\n        window.createScrollToBottomButton();\n        window.addEventListener('scroll', function() {\n            window.handleScroll();\n        });\n        setTimeout(function() {\n            window.updateScrollButton();\n        }, 100);\n    } else {\n        console.log('createScrollToBottomButton function not available');\n    }\n}, 200);\n</script>\n</body>\n</html>";

/// What follows the content of a page loaded for a mode change.
pub const TOGGLE_PAGE_CLOSE: &'static str =
    "\n<script>\n// Initialize scroll to bottom button for mode toggle\nsetTimeout(function() {\n    console.log('Trying to create scroll button in mode toggle...');\n    if (typeof window.createScrollToBottomButton === 'function') {\n        console.log('Creating scroll button from mode toggle...');\n        window.createScrollToBottomButton();\n        window.addEventListener('scroll', function() {\n            window.handleScroll();\n        });\n        setTimeout(function() {\n            window.updateScrollButton();\n        }, 100);\n    } else {\n        console.log('createScrollToBottomButton function not available in mode toggle');\n    }\n}, 200);\n</script>\n</body>\n</html>";

/// The time from `then` to `now`, zero where `then` is the later.
pub open spec fn elapsed(now: u64, then: u64) -> u64 {
    if now >= then {
        (now - then) as u64
    } else {
        0
    }
}

pub fn elapsed_since(now: u64, then: u64) -> (span: u64)
    ensures
        span == elapsed(now, then),
{
    if now >= then {
        now - then
    } else {
        0
    }
}

/// The bytes that `c` takes in UTF-8.
pub open spec fn utf8_width(c: char) -> int {
    let n = c as u32;
    if n < 0x80 {
        1
    } else if n < 0x800 {
        2
    } else if n < 0x10000 {
        3
    } else {
        4
    }
}

/// The number of leading characters of `s` that start before byte
/// `max_bytes` of its UTF-8 form.
pub open spec fn kept_chars(s: Seq<char>, max_bytes: int) -> nat
    decreases s.len(),
{
    if max_bytes <= 0 || s.len() == 0 {
        0
    } else {
        1 + kept_chars(s.subrange(1, s.len() as int), max_bytes - utf8_width(s[0]))
    }
}

fn char_width(c: char) -> (width: usize)
    ensures
        width == utf8_width(c),
{
    let n: u32 = c as u32;
    if n < 0x80 {
        1
    } else if n < 0x800 {
        2
    } else if n < 0x10000 {
        3
    } else {
        4
    }
}

/// Cuts `s` at the first character boundary at or after byte `max_bytes`.
pub fn safe_truncate(s: &str, max_bytes: usize) -> (prefix: &str)
    ensures
        prefix@ == s@.take(kept_chars(s@, max_bytes as int) as int),
{
    let chars = to_chars(s);
    let mut kept: usize = 0;
    let mut budget: usize = max_bytes;
    proof {
        assert(s@.subrange(0, s@.len() as int) =~= s@);
    }
    while kept < chars.len() && budget > 0
        invariant
            kept <= chars.len(),
            chars@ == s@,
            kept_chars(s@, max_bytes as int) == kept + kept_chars(
                s@.subrange(kept as int, s@.len() as int),
                budget as int,
            ),
        decreases chars.len() - kept,
    {
        let width = char_width(chars[kept]);
        proof {
            let rest = s@.subrange(kept as int, s@.len() as int);
            assert(rest.subrange(1, rest.len() as int) =~= s@.subrange(kept + 1, s@.len() as int));
            assert(rest[0] == chars@[kept as int]);
        }
        let ghost spent = budget as int - width as int;
        budget = if width >= budget {
            0
        } else {
            budget - width
        };
        kept += 1;
        proof {
            let next = s@.subrange(kept as int, s@.len() as int);
            assert(kept_chars(next, spent) == kept_chars(next, budget as int));
        }
    }
    s.substring_char(0, kept)
}

/// Where the surface scrolls after a full reload.
#[derive(Clone, Copy, Debug, PartialEq, Eq, Structural)]
pub enum ScrollBehavior {
    Top,
    Bottom,
}

/// The script run when a page has loaded.
pub open spec fn scroll_script(scroll: ScrollBehavior) -> Seq<char> {
    match scroll {
        ScrollBehavior::Top => SCROLL_TO_TOP@,
        ScrollBehavior::Bottom => SCROLL_TO_BOTTOM@,
    }
}

/// What a message from the page asks for.
#[derive(Debug)]
pub enum MessageAction {
    /// Open the address outside the viewer.
    OpenLink(String),
    /// Put the text on the clipboard.
    CopyText(String),
    /// Nothing: the message is not one the viewer knows.
    Ignore,
}

pub enum MessageActionView {
    OpenLink(Seq<char>),
    CopyText(Seq<char>),
    Ignore,
}

impl View for MessageAction {
    type V = MessageActionView;

    open spec fn view(&self) -> MessageActionView {
        match self {
            MessageAction::OpenLink(url) => MessageActionView::OpenLink(url@),
            MessageAction::CopyText(text) => MessageActionView::CopyText(text@),
            MessageAction::Ignore => MessageActionView::Ignore,
        }
    }
}

/// What the message `name` with the given body asks for.
pub open spec fn message_action(name: Seq<char>, body: Seq<char>) -> MessageActionView {
    if name == LINK_CLICKED@ {
        MessageActionView::OpenLink(body)
    } else if name == COPY_TEXT@ {
        MessageActionView::CopyText(body)
    } else {
        MessageActionView::Ignore
    }
}

/// Receives the messages that the page posts.
#[derive(Default, Debug)]
pub struct LinkOpenerDelegate;

impl LinkOpenerDelegate {
    /// Decides what a message from the page asks for.
    pub fn on_message(&self, name: &str, body: &str) -> (action: MessageAction)
        ensures
            action@ == message_action(name@, body@),
    {
        if str_equals(name, LINK_CLICKED) {
            MessageAction::OpenLink(body.to_owned())
        } else if str_equals(name, COPY_TEXT) {
            MessageAction::CopyText(body.to_owned())
        } else {
            MessageAction::Ignore
        }
    }
}

/// Why a page is loaded whole.
#[derive(Clone, Copy, Debug, PartialEq, Eq, Structural)]
pub enum ReloadKind {
    /// The document changed.
    Update,
    /// The user changed between preview and source.
    ModeToggle,
}

/// What the rendering surface is told to do.
#[derive(Debug)]
pub enum ViewAction {
    /// Load a whole page showing `html`, then scroll.
    FullReload { html: String, stylesheet: String, scroll: ScrollBehavior, kind: ReloadKind },
    /// Add one fragment at the end of the page, without a reload.
    AppendFragment { html: String },
    /// Rebuild the page body from the accumulated HTML.
    FullResync { html: String },
}

pub enum ViewActionView {
    FullReload { html: Seq<char>, stylesheet: Seq<char>, scroll: ScrollBehavior, kind: ReloadKind },
    AppendFragment { html: Seq<char> },
    FullResync { html: Seq<char> },
}

impl View for ViewAction {
    type V = ViewActionView;

    open spec fn view(&self) -> ViewActionView {
        match self {
            ViewAction::FullReload { html, stylesheet, scroll, kind } => ViewActionView::FullReload {
                html: html@,
                stylesheet: stylesheet@,
                scroll: *scroll,
                kind: *kind,
            },
            ViewAction::AppendFragment { html } => ViewActionView::AppendFragment { html: html@ },
            ViewAction::FullResync { html } => ViewActionView::FullResync { html: html@ },
        }
    }
}

/// The views of a sequence of actions.
pub open spec fn view_action_views(actions: Seq<ViewAction>) -> Seq<ViewActionView> {
    actions.map_values(|a: ViewAction| a@)
}

/// `text` written as a script string literal; `None` where it cannot be.
pub uninterp spec fn json_text(text: Seq<char>) -> Option<Seq<char>>;

/// Trusted: `serde_json::to_string`, on a string. Writes `text` as a JSON
/// string literal. The result is a function of the text.
#[verifier::external_body]
fn to_json_text(text: &str) -> (literal: Option<String>)
    ensures
        match literal {
            Some(written) => json_text(text@) == Some(written@),
            None => json_text(text@) is None,
        },
{
    serde_json::to_string(text).ok()
}

/// `text` written as a script string literal, or `fallback` where it
/// cannot be.
pub open spec fn script_literal(text: Seq<char>, fallback: Seq<char>) -> Seq<char> {
    match json_text(text) {
        Some(written) => written,
        None => fallback,
    }
}

/// The page loaded on a full reload.
pub open spec fn page_text(
    sheet: Seq<char>,
    scroll: ScrollBehavior,
    content: Seq<char>,
    kind: ReloadKind,
) -> Seq<char> {
    match kind {
        ReloadKind::Update => PAGE_OPEN@ + sheet + PAGE_SCRIPTS@ + scroll_script(scroll) + PAGE_BODY@
            + content + PAGE_CLOSE@,
        ReloadKind::ModeToggle => PAGE_OPEN@ + sheet + TOGGLE_PAGE_SCRIPTS@ + scroll_script(scroll)
            + PAGE_BODY@ + content + TOGGLE_PAGE_CLOSE@,
    }
}

/// The script that adds the fragment `html` to the page.
pub open spec fn append_script_text(html: Seq<char>) -> Seq<char> {
    APPEND_SCRIPT_OPEN@ + script_literal(html, APPEND_FALLBACK@) + APPEND_SCRIPT_CLOSE@
}

/// The script that rebuilds the page body from `html`.
pub open spec fn sync_script_text(html: Seq<char>) -> Seq<char> {
    SYNC_SCRIPT_OPEN@ + script_literal(html, SYNC_FALLBACK@) + SYNC_SCRIPT_CLOSE@
}

/// The text that carries out `action`: a page to load for a full reload, a
/// script to run for the others.
pub open spec fn action_text(action: ViewActionView) -> Seq<char> {
    match action {
        ViewActionView::FullReload { html, stylesheet, scroll, kind } => page_text(
            stylesheet,
            scroll,
            html,
            kind,
        ),
        ViewActionView::AppendFragment { html } => append_script_text(html),
        ViewActionView::FullResync { html } => sync_script_text(html),
    }
}

/// The literal that a script holds for `text`, given what writing it
/// as a literal gave.
pub fn literal_or(written: Option<String>, fallback: &str) -> (literal: String)
    ensures
        literal@ == match written {
            Some(text) => text@,
            None => fallback@,
        },
{
    match written {
        Some(text) => text,
        None => fallback.to_owned(),
    }
}

/// The page to load for a full reload.
pub fn full_page(sheet: &str, scroll: ScrollBehavior, content: &str, kind: ReloadKind) -> (page: String)
    ensures
        page@ == page_text(sheet@, scroll, content@, kind),
{
    let mut page = String::new();
    page.append(PAGE_OPEN);
    page.append(sheet);
    match kind {
        ReloadKind::Update => {
            page.append(PAGE_SCRIPTS);
        },
        ReloadKind::ModeToggle => {
            page.append(TOGGLE_PAGE_SCRIPTS);
        },
    }
    match scroll {
        ScrollBehavior::Top => {
            page.append(SCROLL_TO_TOP);
        },
        ScrollBehavior::Bottom => {
            page.append(SCROLL_TO_BOTTOM);
        },
    }
    page.append(PAGE_BODY);
    page.append(content);
    match kind {
        ReloadKind::Update => {
            page.append(PAGE_CLOSE);
        },
        ReloadKind::ModeToggle => {
            page.append(TOGGLE_PAGE_CLOSE);
        },
    }
    proof {
        assert(page@ =~= page_text(sheet@, scroll, content@, kind));
    }
    page
}

/// The script that adds the fragment `html` to the page.
pub fn append_script(html: &str) -> (script: String)
    ensures
        script@ == append_script_text(html@),
{
    let literal = literal_or(to_json_text(html), APPEND_FALLBACK);
    let mut script = String::new();
    script.append(APPEND_SCRIPT_OPEN);
    script.append(literal.as_str());
    script.append(APPEND_SCRIPT_CLOSE);
    proof {
        assert(script@ =~= append_script_text(html@));
    }
    script
}

/// The script that rebuilds the page body from `html`.
pub fn sync_script(html: &str) -> (script: String)
    ensures
        script@ == sync_script_text(html@),
{
    let literal = literal_or(to_json_text(html), SYNC_FALLBACK);
    let mut script = String::new();
    script.append(SYNC_SCRIPT_OPEN);
    script.append(literal.as_str());
    script.append(SYNC_SCRIPT_CLOSE);
    proof {
        assert(script@ =~= sync_script_text(html@));
    }
    script
}

impl ViewAction {
    /// The page to load, or the script to run, that carries the action out.
    pub fn text(&self) -> (text: String)
        ensures
            text@ == action_text(self@),
    {
        match self {
            ViewAction::FullReload { html, stylesheet, scroll, kind } => full_page(
                stylesheet.as_str(),
                *scroll,
                html.as_str(),
                *kind,
            ),
            ViewAction::AppendFragment { html } => append_script(html.as_str()),
            ViewAction::FullResync { html } => sync_script(html.as_str()),
        }
    }
}

/// What the view holds for the surface.
pub struct MarkdownView {
    current_mode: ViewMode,
    accumulated_content: String,
    accumulated_markdown: String,
    last_sync_time: u64,
}

pub struct MarkdownViewState {
    /// The mode the surface is in.
    pub current_mode: ViewMode,
    /// All the HTML handed to the view since the last full reload.
    pub accumulated_content: Seq<char>,
    /// The markdown that HTML stands for.
    pub accumulated_markdown: Seq<char>,
    /// When the surface was last rebuilt from the accumulated HTML.
    pub last_sync_time: u64,
}

/// What the surface shows for a document in its mode.
pub open spec fn shown_content(document: DocumentView) -> Seq<char> {
    match document.mode {
        ViewMode::Preview => document.html,
        ViewMode::Source => highlighted_source(document.markdown, document.style_preferences.theme),
    }
}

/// The view after a full reload with `document`.
pub open spec fn view_after_update(state: MarkdownViewState, document: DocumentView) -> MarkdownViewState {
    MarkdownViewState {
        current_mode: document.mode,
        accumulated_content: document.html,
        accumulated_markdown: document.markdown,
        last_sync_time: state.last_sync_time,
    }
}

/// The full reload that shows `document`.
pub open spec fn update_action(document: DocumentView, scroll: ScrollBehavior) -> ViewActionView {
    ViewActionView::FullReload {
        html: shown_content(document),
        stylesheet: stylesheet(document.style_preferences),
        scroll,
        kind: ReloadKind::Update,
    }
}

/// Whether a full rebuild is due at `now`.
pub open spec fn sync_due(state: MarkdownViewState, now: u64) -> bool {
    elapsed(now, state.last_sync_time) > SYNC_INTERVAL
}

/// The view after a chunk was appended at `now`.
pub open spec fn view_after_append(
    state: MarkdownViewState,
    markdown: Seq<char>,
    html: Seq<char>,
    now: u64,
) -> MarkdownViewState {
    MarkdownViewState {
        current_mode: state.current_mode,
        accumulated_content: state.accumulated_content + html,
        accumulated_markdown: state.accumulated_markdown + markdown,
        last_sync_time: if state.current_mode == ViewMode::Preview && sync_due(state, now) {
            now
        } else {
            state.last_sync_time
        },
    }
}

/// What the surface is told when a chunk is appended at `now`: nothing in
/// source mode; in preview mode the fragment alone, or a full rebuild
/// where one is due.
pub open spec fn append_action(state: MarkdownViewState, html: Seq<char>, now: u64) -> Option<
    ViewActionView,
> {
    if state.current_mode == ViewMode::Preview {
        if sync_due(state, now) {
            Some(ViewActionView::FullResync { html: state.accumulated_content + html })
        } else {
            Some(ViewActionView::AppendFragment { html })
        }
    } else {
        None
    }
}

/// The view after a full rebuild at `now`: what is accumulated stays.
pub open spec fn view_after_resync(state: MarkdownViewState, now: u64) -> MarkdownViewState {
    MarkdownViewState { last_sync_time: now, ..state }
}

/// The full rebuild of the surface from what the view has accumulated.
pub open spec fn resync_action(state: MarkdownViewState) -> ViewActionView {
    ViewActionView::FullResync { html: state.accumulated_content }
}

/// One chunk of a stream as it reaches the view at the time `at`.
pub struct ArrivingChunk {
    pub markdown: Seq<char>,
    pub html: Seq<char>,
    pub at: u64,
}

/// The view after all of `chunks` were appended, in order.
pub open spec fn view_after_appends(state: MarkdownViewState, chunks: Seq<ArrivingChunk>) -> MarkdownViewState
    decreases chunks.len(),
{
    if chunks.len() == 0 {
        state
    } else {
        let last = chunks.last();
        view_after_append(
            view_after_appends(state, chunks.drop_last()),
            last.markdown,
            last.html,
            last.at,
        )
    }
}

/// The HTML of all of `chunks`, in order.
pub open spec fn chunks_html(chunks: Seq<ArrivingChunk>) -> Seq<char>
    decreases chunks.len(),
{
    if chunks.len() == 0 {
        Seq::empty()
    } else {
        chunks_html(chunks.drop_last()) + chunks.last().html
    }
}

/// The other mode.
pub open spec fn toggled(mode: ViewMode) -> ViewMode {
    match mode {
        ViewMode::Preview => ViewMode::Source,
        ViewMode::Source => ViewMode::Preview,
    }
}

/// The full reload that follows a change of mode.
pub open spec fn toggle_action(state: MarkdownViewState, preferences: StylePreferences) -> ViewActionView {
    ViewActionView::FullReload {
        html: match toggled(state.current_mode) {
            ViewMode::Preview => state.accumulated_content,
            ViewMode::Source => highlighted_source(state.accumulated_markdown, preferences.theme),
        },
        stylesheet: stylesheet(preferences),
        scroll: ScrollBehavior::Top,
        kind: ReloadKind::ModeToggle,
    }
}

/// A full rebuild done twice in a row, with no chunk in between, rebuilds
/// the surface from the same HTML both times, and leaves what the view
/// has accumulated as it was.
pub proof fn lemma_resync_idempotent(state: MarkdownViewState, first: u64, second: u64)
    ensures
        resync_action(view_after_resync(state, first)) == resync_action(state),
        view_after_resync(view_after_resync(state, first), second).accumulated_content
            == state.accumulated_content,
        view_after_resync(view_after_resync(state, first), second).accumulated_markdown
            == state.accumulated_markdown,
        view_after_resync(view_after_resync(state, first), second).current_mode == state.current_mode,
{
}

/// While the view is in source mode, chunks are accumulated and the
/// surface is told nothing; the change to preview that follows shows all
/// the accumulated HTML in one full reload.
pub proof fn lemma_source_mode_gating(
    state: MarkdownViewState,
    chunks: Seq<ArrivingChunk>,
    preferences: StylePreferences,
)
    requires
        state.current_mode == ViewMode::Source,
    ensures
        forall|i: int|
            0 <= i < chunks.len() ==> append_action(
                view_after_appends(state, #[trigger] chunks.take(i)),
                chunks[i].html,
                chunks[i].at,
            ) is None,
        view_after_appends(state, chunks).current_mode == ViewMode::Source,
        view_after_appends(state, chunks).last_sync_time == state.last_sync_time,
        view_after_appends(state, chunks).accumulated_content == state.accumulated_content
            + chunks_html(chunks),
        toggle_action(view_after_appends(state, chunks), preferences) == (
        ViewActionView::FullReload {
            html: state.accumulated_content + chunks_html(chunks),
            stylesheet: stylesheet(preferences),
            scroll: ScrollBehavior::Top,
            kind: ReloadKind::ModeToggle,
        }),
    decreases chunks.len(),
{
    if chunks.len() == 0 {
        assert(state.accumulated_content + chunks_html(chunks) =~= state.accumulated_content);
    } else {
        lemma_source_mode_gating(state, chunks.drop_last(), preferences);
        let before = view_after_appends(state, chunks.drop_last());
        assert(before.accumulated_content + chunks.last().html =~= state.accumulated_content
            + chunks_html(chunks));
        assert forall|i: int| 0 <= i < chunks.len() implies append_action(
            view_after_appends(state, #[trigger] chunks.take(i)),
            chunks[i].html,
            chunks[i].at,
        ) is None by {
            if i < chunks.len() - 1 {
                assert(chunks.take(i) =~= chunks.drop_last().take(i));
                assert(chunks[i] == chunks.drop_last()[i]);
            } else {
                assert(chunks.take(i) =~= chunks.drop_last());
            }
            lemma_source_mode_appends_keep_mode(state, chunks.take(i));
        }
    }
}

/// Appending never changes the mode of the view.
pub proof fn lemma_source_mode_appends_keep_mode(state: MarkdownViewState, chunks: Seq<ArrivingChunk>)
    ensures
        view_after_appends(state, chunks).current_mode == state.current_mode,
    decreases chunks.len(),
{
    if chunks.len() > 0 {
        lemma_source_mode_appends_keep_mode(state, chunks.drop_last());
    }
}

impl View for MarkdownView {
    type V = MarkdownViewState;

    closed spec fn view(&self) -> MarkdownViewState {
        MarkdownViewState {
            current_mode: self.current_mode,
            accumulated_content: self.accumulated_content@,
            accumulated_markdown: self.accumulated_markdown@,
            last_sync_time: self.last_sync_time,
        }
    }
}

impl MarkdownView {
    /// An empty view in preview mode, last rebuilt at `now`.
    pub fn new(now: u64) -> (view: MarkdownView)
        ensures
            view@ == (MarkdownViewState {
                current_mode: ViewMode::Preview,
                accumulated_content: Seq::empty(),
                accumulated_markdown: Seq::empty(),
                last_sync_time: now,
            }),
    {
        MarkdownView {
            current_mode: ViewMode::Preview,
            accumulated_content: String::new(),
            accumulated_markdown: String::new(),
            last_sync_time: now,
        }
    }

    /// The mode the surface is in.
    pub fn current_mode(&self) -> (mode: ViewMode)
        ensures
            mode == self@.current_mode,
    {
        self.current_mode
    }

    /// All the HTML handed to the view since the last full reload.
    pub fn accumulated_content(&self) -> (html: &str)
        ensures
            html@ == self@.accumulated_content,
    {
        self.accumulated_content.as_str()
    }

    /// The markdown that the accumulated HTML stands for.
    pub fn accumulated_markdown(&self) -> (markdown: &str)
        ensures
            markdown@ == self@.accumulated_markdown,
    {
        self.accumulated_markdown.as_str()
    }

    /// Shows `document` from its top.
    pub fn update_content(&mut self, document_content: &DocumentContent) -> (action: ViewAction)
        ensures
            final(self)@ == view_after_update(old(self)@, document_content@),
            action@ == update_action(document_content@, ScrollBehavior::Top),
    {
        self.update_content_with_scroll(document_content, ScrollBehavior::Top)
    }

    /// Takes in one chunk. In preview mode the surface is told to add the
    /// fragment, or to rebuild where a rebuild is due; in source mode the
    /// chunk is kept and the surface is told nothing.
    pub fn append_content(
        &mut self,
        markdown_chunk: &str,
        html_chunk: &str,
        _style_preferences: &StylePreferences,
        now: u64,
    ) -> (action: Option<ViewAction>)
        ensures
            final(self)@ == view_after_append(old(self)@, markdown_chunk@, html_chunk@, now),
            match action {
                Some(a) => append_action(old(self)@, html_chunk@, now) == Some(a@),
                None => append_action(old(self)@, html_chunk@, now) is None,
            },
    {
        self.accumulated_content.append(html_chunk);
        self.accumulated_markdown.append(markdown_chunk);
        let should_sync = elapsed_since(now, self.last_sync_time) > SYNC_INTERVAL;
        match self.current_mode {
            ViewMode::Preview => {
                if should_sync {
                    Some(self.full_resync(now))
                } else {
                    Some(ViewAction::AppendFragment { html: html_chunk.to_owned() })
                }
            },
            ViewMode::Source => None,
        }
    }

    /// Rebuilds the surface from the accumulated HTML. What is accumulated
    /// stays as it is.
    pub fn full_resync(&mut self, now: u64) -> (action: ViewAction)
        ensures
            final(self)@ == view_after_resync(old(self)@, now),
            action@ == resync_action(old(self)@),
    {
        self.last_sync_time = now;
        ViewAction::FullResync { html: self.accumulated_content.clone() }
    }

    /// Shows `document` and scrolls as told. What the view accumulated
    /// before is replaced by the document.
    pub fn update_content_with_scroll(
        &mut self,
        document_content: &DocumentContent,
        scroll_behavior: ScrollBehavior,
    ) -> (action: ViewAction)
        ensures
            final(self)@ == view_after_update(old(self)@, document_content@),
            action@ == update_action(document_content@, scroll_behavior),
    {
        self.accumulated_content = document_content.html.clone();
        self.accumulated_markdown = document_content.markdown.clone();
        self.current_mode = document_content.mode;
        let content = match document_content.mode {
            ViewMode::Preview => document_content.html.clone(),
            ViewMode::Source => highlight_markdown_with_theme(
                document_content.markdown.as_str(),
                &document_content.style_preferences.theme,
            ),
        };
        ViewAction::FullReload {
            html: content,
            stylesheet: document_content.style_preferences.generate_css(),
            scroll: scroll_behavior,
            kind: ReloadKind::Update,
        }
    }

    /// Changes between preview and source, and shows all that was
    /// accumulated in the new mode.
    pub fn toggle_mode(&mut self, style_preferences: &StylePreferences) -> (action: ViewAction)
        ensures
            final(self)@ == (MarkdownViewState {
                current_mode: toggled(old(self)@.current_mode),
                ..old(self)@
            }),
            action@ == toggle_action(old(self)@, *style_preferences),
    {
        let new_mode = match self.current_mode {
            ViewMode::Preview => ViewMode::Source,
            ViewMode::Source => ViewMode::Preview,
        };
        self.current_mode = new_mode;
        let content = match new_mode {
            ViewMode::Preview => self.accumulated_content.clone(),
            ViewMode::Source => highlight_markdown_with_theme(
                self.accumulated_markdown.as_str(),
                &style_preferences.theme,
            ),
        };
        ViewAction::FullReload {
            html: content,
            stylesheet: style_preferences.generate_css(),
            scroll: ScrollBehavior::Top,
            kind: ReloadKind::ModeToggle,
        }
    }
}

} // verus!
