//! The line-oriented producer: a state machine that gathers lines and
//! decides when the gathered markdown is handed on as an update.
//!
//! A fenced code block is never cut: while a fence is open no update is
//! due, and the line that closes the fence always makes one due.

use crate::content::{accumulated_markdown, lemma_accumulated_push, text_or_empty, update_views, ContentUpdate, ContentUpdateView, DocumentContent, DocumentView, ViewMode};
use crate::gui::types::{default_preferences, ThemeMode};
use crate::markdown::parser::{parse_markdown, rendered_html};
use crate::text::{lemma_trim_starts_with, push_char, starts_with, starts_with_at, string_from_chars, to_chars, trim, trim_bounds};
use vstd::prelude::*;
use vstd::string::*;

verus! {

/// The title given to a document that arrives on a pipe.
pub const PIPE_TITLE: &'static str = "Piped Input";

/// The title given to a file whose name yields none.
pub const UNTITLED: &'static str = "Untitled";

/// Lines gathered before the first update is due.
pub const FIRST_FLUSH_LINES: usize = 5;

/// Lines gathered before a blank line makes an update due.
pub const PARAGRAPH_FLUSH_LINES: usize = 5;

/// Lines gathered before an update is due whatever the line holds.
pub const VOLUME_FLUSH_LINES: usize = 10;

/// The marker that opens and closes a fenced code block.
pub open spec fn fence_marker() -> Seq<char> {
    seq!['`', '`', '`']
}

/// A line whose trimmed form starts with the fence marker.
pub open spec fn is_fence_line(line: Seq<char>) -> bool {
    starts_with(trim(line), fence_marker())
}

/// What follows the fence marker on a fence line.
pub open spec fn fence_language(line: Seq<char>) -> Seq<char> {
    trim(line).subrange(3, trim(line).len() as int)
}

/// The state of the line-oriented producer.
#[derive(Debug)]
pub struct StreamingState {
    in_code_block: bool,
    code_language: String,
    markdown_buffer: String,
    sent_first_update: bool,
    lines_since_update: usize,
}

pub struct StreamingView {
    /// A fence has been opened and not yet closed.
    pub in_code_block: bool,
    /// What followed the marker on the fence that is open.
    pub code_language: Seq<char>,
    /// The markdown gathered since the last update.
    pub markdown_buffer: Seq<char>,
    /// An update has been handed on before.
    pub sent_first_update: bool,
    /// The lines gathered since the last update.
    pub lines_since_update: nat,
}

/// The state before any line.
pub open spec fn initial_streaming_view() -> StreamingView {
    StreamingView {
        in_code_block: false,
        code_language: Seq::empty(),
        markdown_buffer: Seq::empty(),
        sent_first_update: false,
        lines_since_update: 0,
    }
}

/// Whether an update is due outside a code block, after `line` was counted.
pub open spec fn flush_due(state: StreamingView, line: Seq<char>) -> bool {
    ||| !state.sent_first_update && state.lines_since_update >= FIRST_FLUSH_LINES
    ||| trim(line).len() == 0 && state.lines_since_update >= PARAGRAPH_FLUSH_LINES
    ||| state.lines_since_update >= VOLUME_FLUSH_LINES
}

/// The state after `line`, and whether an update is due.
pub open spec fn line_step(state: StreamingView, line: Seq<char>) -> (StreamingView, bool) {
    let counted = StreamingView {
        markdown_buffer: state.markdown_buffer + line + seq!['\n'],
        lines_since_update: state.lines_since_update + 1,
        ..state
    };
    if is_fence_line(line) {
        if !state.in_code_block {
            (
                StreamingView {
                    in_code_block: true,
                    code_language: fence_language(line),
                    ..counted
                },
                false,
            )
        } else {
            (
                StreamingView { in_code_block: false, code_language: Seq::empty(), ..counted },
                true,
            )
        }
    } else if state.in_code_block {
        (counted, false)
    } else {
        (counted, flush_due(counted, line))
    }
}

/// The update that hands on the markdown `markdown` of a stream: the whole
/// document where none was handed on before, a chunk to append after that.
pub open spec fn stream_update(markdown: Seq<char>, sent_first_update: bool) -> ContentUpdateView {
    let html = rendered_html(markdown, ThemeMode::System);
    if sent_first_update {
        ContentUpdateView::Append { markdown, html }
    } else {
        ContentUpdateView::FullReplace(
            DocumentView {
                markdown,
                html,
                mode: ViewMode::Preview,
                title: PIPE_TITLE@,
                file_path: None,
                style_preferences: default_preferences(),
            },
        )
    }
}

/// The update that hands on what `state` has gathered.
pub open spec fn pending_update(state: StreamingView) -> ContentUpdateView {
    stream_update(state.markdown_buffer, state.sent_first_update)
}

/// Renders `content` and makes the update that hands it on.
pub fn make_stream_update(content: String, sent_first_update: bool) -> (update: ContentUpdate)
    ensures
        update@ == stream_update(content@, sent_first_update),
{
    let html = parse_markdown(content.as_str());
    if sent_first_update {
        ContentUpdate::Append { markdown: content, html }
    } else {
        ContentUpdate::FullReplace(DocumentContent::new(content, html, PIPE_TITLE.to_owned(), None))
    }
}

/// The state after its gathered markdown was handed on.
pub open spec fn flushed(state: StreamingView) -> StreamingView {
    StreamingView {
        markdown_buffer: Seq::empty(),
        sent_first_update: true,
        lines_since_update: 0,
        ..state
    }
}

/// The state and the updates handed on so far, after one more line.
pub open spec fn stream_step(
    state: StreamingView,
    updates: Seq<ContentUpdateView>,
    line: Seq<char>,
) -> (StreamingView, Seq<ContentUpdateView>) {
    let (next, flush) = line_step(state, line);
    if flush {
        (flushed(next), updates.push(pending_update(next)))
    } else {
        (next, updates)
    }
}

/// The state and the updates handed on after all of `lines`.
pub open spec fn stream_fold(lines: Seq<Seq<char>>) -> (StreamingView, Seq<ContentUpdateView>)
    decreases lines.len(),
{
    if lines.len() == 0 {
        (initial_streaming_view(), Seq::empty())
    } else {
        let (state, updates) = stream_fold(lines.drop_last());
        stream_step(state, updates, lines.last())
    }
}

/// The updates for a stream that ends after `lines`: those handed on line
/// by line, and one more for what is still gathered at the end.
pub open spec fn streamed_updates(lines: Seq<Seq<char>>) -> Seq<ContentUpdateView> {
    let (state, updates) = stream_fold(lines);
    if state.markdown_buffer.len() > 0 {
        updates.push(pending_update(state))
    } else {
        updates
    }
}

/// The text of a stream of lines: each line followed by a line feed.
pub open spec fn joined_lines(lines: Seq<Seq<char>>) -> Seq<char>
    decreases lines.len(),
{
    if lines.len() == 0 {
        Seq::empty()
    } else {
        joined_lines(lines.drop_last()) + lines.last() + seq!['\n']
    }
}

/// The views of a sequence of lines.
pub open spec fn line_views(lines: Seq<String>) -> Seq<Seq<char>> {
    lines.map_values(|line: String| line@)
}

impl View for StreamingState {
    type V = StreamingView;

    closed spec fn view(&self) -> StreamingView {
        StreamingView {
            in_code_block: self.in_code_block,
            code_language: self.code_language@,
            markdown_buffer: self.markdown_buffer@,
            sent_first_update: self.sent_first_update,
            lines_since_update: self.lines_since_update as nat,
        }
    }
}

impl StreamingState {
    pub fn new() -> (state: StreamingState)
        ensures
            state@ == initial_streaming_view(),
    {
        StreamingState {
            in_code_block: false,
            code_language: String::new(),
            markdown_buffer: String::new(),
            sent_first_update: false,
            lines_since_update: 0,
        }
    }

    /// Takes in one line, without its line ending, and says whether an
    /// update is due.
    pub fn process_line(&mut self, line: &str) -> (flush: bool)
        requires
            old(self)@.lines_since_update < usize::MAX,
        ensures
            final(self)@ == line_step(old(self)@, line@).0,
            flush == line_step(old(self)@, line@).1,
    {
        self.lines_since_update += 1;
        self.markdown_buffer.append(line);
        push_char(&mut self.markdown_buffer, '\n');
        let chars = to_chars(line);
        let bounds = trim_bounds(&chars);
        let start = bounds.0;
        let end = bounds.1;
        let fence: Vec<char> = vec!['`', '`', '`'];
        proof {
            assert(fence@ =~= fence_marker());
            lemma_trim_starts_with(line@, fence_marker());
            assert(old(self)@.markdown_buffer + line@ + seq!['\n'] =~= (old(self)@.markdown_buffer
                + line@).push('\n'));
        }
        if starts_with_at(&chars, start, &fence) {
            if !self.in_code_block {
                self.in_code_block = true;
                self.code_language = string_from_chars(&chars, start + 3, end);
                proof {
                    assert(chars@.subrange(start + 3, end as int) =~= fence_language(line@));
                }
                return false;
            } else {
                self.in_code_block = false;
                self.code_language = String::new();
                return true;
            }
        }
        if !self.in_code_block {
            if !self.sent_first_update && self.lines_since_update >= FIRST_FLUSH_LINES {
                return true;
            }
            if start == end && self.lines_since_update >= PARAGRAPH_FLUSH_LINES {
                return true;
            }
            if self.lines_since_update >= VOLUME_FLUSH_LINES {
                return true;
            }
        }
        false
    }

    /// Records that an update was handed on: the line count starts over.
    pub fn mark_update_sent(&mut self)
        ensures
            final(self)@ == (StreamingView {
                sent_first_update: true,
                lines_since_update: 0,
                ..old(self)@
            }),
    {
        self.sent_first_update = true;
        self.lines_since_update = 0;
    }

    /// The markdown gathered since the last update.
    pub fn get_content(&self) -> (content: &str)
        ensures
            content@ == self@.markdown_buffer,
    {
        self.markdown_buffer.as_str()
    }

    /// Forgets the gathered markdown.
    pub fn clear_buffer(&mut self)
        ensures
            final(self)@ == (StreamingView { markdown_buffer: Seq::empty(), ..old(self)@ }),
    {
        self.markdown_buffer = String::new();
    }

    /// Whether a fence is open.
    pub fn in_code_block(&self) -> (open: bool)
        ensures
            open == self@.in_code_block,
    {
        self.in_code_block
    }

    /// What followed the marker on the fence that is open.
    pub fn code_language(&self) -> (language: &str)
        ensures
            language@ == self@.code_language,
    {
        self.code_language.as_str()
    }

    /// Whether an update has been handed on before.
    pub fn has_sent_first_update(&self) -> (sent: bool)
        ensures
            sent == self@.sent_first_update,
    {
        self.sent_first_update
    }

    /// The lines gathered since the last update.
    pub fn lines_since_last_flush(&self) -> (lines: usize)
        ensures
            lines == self@.lines_since_update,
    {
        self.lines_since_update
    }

    /// Renders what was gathered and hands it on as an update: the whole
    /// document the first time, a chunk to append after that.
    pub fn take_update(&mut self) -> (update: ContentUpdate)
        ensures
            update@ == pending_update(old(self)@),
            final(self)@ == flushed(old(self)@),
    {
        let update = make_stream_update(self.markdown_buffer.clone(), self.sent_first_update);
        self.mark_update_sent();
        self.clear_buffer();
        update
    }

    /// Takes in one line and hands on an update where one is due.
    pub fn push_line(&mut self, line: &str) -> (update: Option<ContentUpdate>)
        requires
            old(self)@.lines_since_update < usize::MAX,
        ensures
            match update {
                Some(u) => line_step(old(self)@, line@).1 && u@ == pending_update(
                    line_step(old(self)@, line@).0,
                ) && final(self)@ == flushed(line_step(old(self)@, line@).0),
                None => !line_step(old(self)@, line@).1 && final(self)@ == line_step(
                    old(self)@,
                    line@,
                ).0,
            },
    {
        if self.process_line(line) {
            Some(self.take_update())
        } else {
            None
        }
    }

    /// At the end of the input, hands on what is still gathered, if anything.
    pub fn finish(&mut self) -> (update: Option<ContentUpdate>)
        ensures
            match update {
                Some(u) => old(self)@.markdown_buffer.len() > 0 && u@ == pending_update(old(self)@)
                    && final(self)@ == flushed(old(self)@),
                None => old(self)@.markdown_buffer.len() == 0 && final(self)@ == old(self)@,
            },
    {
        if self.markdown_buffer.as_str().is_empty() {
            None
        } else {
            Some(self.take_update())
        }
    }
}

/// The line count never exceeds the lines taken in.
pub proof fn lemma_stream_fold_counts(lines: Seq<Seq<char>>)
    ensures
        stream_fold(lines).0.lines_since_update <= lines.len(),
    decreases lines.len(),
{
    if lines.len() > 0 {
        lemma_stream_fold_counts(lines.drop_last());
    }
}

/// What the updates of a stream accumulate to, together with what is still
/// gathered, is the text of the lines taken in; and updates have been
/// handed on exactly where the state says so.
pub proof fn lemma_stream_fold_keeps_text(lines: Seq<Seq<char>>)
    ensures
        text_or_empty(accumulated_markdown(None, stream_fold(lines).1)) + stream_fold(
            lines,
        ).0.markdown_buffer == joined_lines(lines),
        stream_fold(lines).0.sent_first_update <==> accumulated_markdown(
            None,
            stream_fold(lines).1,
        ) is Some,
    decreases lines.len(),
{
    if lines.len() > 0 {
        let before = stream_fold(lines.drop_last());
        lemma_stream_fold_keeps_text(lines.drop_last());
        let step = line_step(before.0, lines.last());
        let held = text_or_empty(accumulated_markdown(None, before.1));
        assert(held + (before.0.markdown_buffer + lines.last() + seq!['\n']) =~= joined_lines(
            lines.drop_last(),
        ) + lines.last() + seq!['\n']);
        if step.1 {
            lemma_accumulated_push(None, before.1, pending_update(step.0));
            assert(held + step.0.markdown_buffer + Seq::<char>::empty() =~= held
                + step.0.markdown_buffer);
        }
    }
}

/// The markdown delivered by the updates of a stream is exactly the text
/// of its lines, each followed by a line feed: nothing is lost, nothing
/// comes twice, and the order is kept, wherever the updates were cut.
pub proof fn lemma_stream_preserves_text(lines: Seq<Seq<char>>)
    ensures
        text_or_empty(accumulated_markdown(None, streamed_updates(lines))) == joined_lines(lines),
{
    lemma_stream_fold_keeps_text(lines);
    let (state, updates) = stream_fold(lines);
    let held = text_or_empty(accumulated_markdown(None, updates));
    if state.markdown_buffer.len() > 0 {
        lemma_accumulated_push(None, updates, pending_update(state));
    } else {
        assert(held + state.markdown_buffer =~= held);
    }
}

/// No update is due while a fence is open: an update that is due leaves the
/// state outside a code block.
pub proof fn lemma_flush_only_outside_fence(state: StreamingView, line: Seq<char>)
    ensures
        line_step(state, line).1 ==> !line_step(state, line).0.in_code_block,
        line_step(state, line).0.in_code_block != state.in_code_block <==> is_fence_line(line),
        state.in_code_block && is_fence_line(line) ==> line_step(state, line).1,
{
}

/// Turns the lines of a stream into its updates.
pub fn read_from_pipe_stateful(lines: &Vec<String>) -> (updates: Vec<ContentUpdate>)
    ensures
        update_views(updates@) == streamed_updates(line_views(lines@)),
{
    let ghost all = line_views(lines@);
    let mut state = StreamingState::new();
    let mut updates: Vec<ContentUpdate> = Vec::new();
    let mut i: usize = 0;
    proof {
        assert(all.take(0) =~= Seq::<Seq<char>>::empty());
        assert(update_views(updates@) =~= Seq::<ContentUpdateView>::empty());
    }
    while i < lines.len()
        invariant
            i <= lines.len(),
            all == line_views(lines@),
            stream_fold(all.take(i as int)) == (state@, update_views(updates@)),
        decreases lines.len() - i,
    {
        proof {
            lemma_stream_fold_counts(all.take(i as int));
            assert(all.take(i + 1).drop_last() =~= all.take(i as int));
            assert(all.take(i + 1).last() == lines@[i as int]@);
        }
        let ghost before = update_views(updates@);
        match state.push_line(lines[i].as_str()) {
            Some(update) => {
                updates.push(update);
                proof {
                    assert(update_views(updates@) =~= before.push(update@));
                }
            },
            None => {},
        }
        i += 1;
    }
    proof {
        assert(all.take(lines.len() as int) =~= all);
    }
    let ghost before = update_views(updates@);
    match state.finish() {
        Some(update) => {
            updates.push(update);
            proof {
                assert(update_views(updates@) =~= before.push(update@));
            }
        },
        None => {},
    }
    updates
}

/// Turns the lines of a stream into its updates.
pub fn read_from_pipe(lines: &Vec<String>) -> (updates: Vec<ContentUpdate>)
    ensures
        update_views(updates@) == streamed_updates(line_views(lines@)),
{
    read_from_pipe_stateful(lines)
}

/// The update that shows a whole file: its text, rendered, under the given
/// title or `Untitled` where there is none.
pub open spec fn file_update(buffer: Seq<char>, title: Option<Seq<char>>, filename: Seq<char>) -> ContentUpdateView {
    ContentUpdateView::FullReplace(
        DocumentView {
            markdown: buffer,
            html: rendered_html(buffer, ThemeMode::System),
            mode: ViewMode::Preview,
            title: match title {
                Some(name) => name,
                None => UNTITLED@,
            },
            file_path: Some(filename),
            style_preferences: default_preferences(),
        },
    )
}

/// Turns the text of a file into the update that shows it. `title` is the
/// last component of `filename`, where it has one.
pub fn read_from_file(buffer: String, title: Option<String>, filename: &str) -> (update: ContentUpdate)
    ensures
        update@ == file_update(
            buffer@,
            match title {
                Some(name) => Some(name@),
                None => None,
            },
            filename@,
        ),
{
    let html = parse_markdown(buffer.as_str());
    let title = match title {
        Some(name) => name,
        None => UNTITLED.to_owned(),
    };
    let document = DocumentContent::new(buffer, html, title, Some(filename.to_owned()));
    ContentUpdate::FullReplace(document)
}

} // verus!
