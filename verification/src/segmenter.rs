//! The boundary segmenter: it decides where accumulated text may be cut
//! into chunks without cutting through a fenced code block.
//!
//! Offsets count characters from the start of the text.

use crate::content::{accumulated_markdown, lemma_accumulated_push, text_or_empty, ContentUpdate, ContentUpdateView};
use crate::streaming::{fence_language, fence_marker, is_fence_line, make_stream_update, stream_update};
use crate::text::{concat_all, lemma_trim_starts_with, starts_with_at, string_from_chars, to_chars, trim_bounds};
use vstd::prelude::*;
use vstd::string::*;

verus! {

/// The size the pending text has to exceed before a first chunk is handed
/// on without a safe boundary.
pub const MIN_FIRST_CHUNK: usize = 100;

/// The end of the line that starts at `pos`: the position of the next line
/// feed, or the end of the text.
pub open spec fn line_end(text: Seq<char>, pos: int) -> int
    decreases text.len() - pos,
{
    if pos < 0 || pos >= text.len() || text[pos] == '\n' {
        pos
    } else {
        line_end(text, pos + 1)
    }
}

pub proof fn lemma_line_end_bounds(text: Seq<char>, pos: int)
    requires
        0 <= pos <= text.len(),
    ensures
        pos <= line_end(text, pos) <= text.len(),
        line_end(text, pos) < text.len() ==> text[line_end(text, pos)] == '\n',
        forall|k: int| pos <= k < line_end(text, pos) ==> text[k] != '\n',
    decreases text.len() - pos,
{
    if pos < text.len() && text[pos] != '\n' {
        lemma_line_end_bounds(text, pos + 1);
    }
}

/// What a scan for fences knows after some lines.
pub struct FenceScan {
    /// A fence has been opened and not closed.
    pub inside: bool,
    /// The last line was a fence line that names a language.
    pub last_tagged: bool,
}

/// The scan after one more line: every fence line flips `inside`.
pub open spec fn scan_line(scan: FenceScan, line: Seq<char>) -> FenceScan {
    if is_fence_line(line) {
        FenceScan { inside: !scan.inside, last_tagged: fence_language(line).len() > 0 }
    } else {
        FenceScan { inside: scan.inside, last_tagged: false }
    }
}

/// The scan after all the lines of `text` from `pos` on.
pub open spec fn scan_from(text: Seq<char>, pos: int, scan: FenceScan) -> FenceScan
    decreases text.len() - pos,
{
    if pos < 0 || pos >= text.len() {
        scan
    } else {
        proof {
            lemma_line_end_bounds(text, pos);
        }
        let end = line_end(text, pos);
        let next = scan_line(scan, text.subrange(pos, end));
        if end >= text.len() {
            next
        } else {
            scan_from(text, end + 1, next)
        }
    }
}

/// Whether the end of `text` lies inside a fenced code block: a fence is
/// open there, or the last line is a fence line that names a language, whose
/// body is yet to come.
pub open spec fn inside_code_block(text: Seq<char>) -> bool {
    let scan = scan_from(text, 0, FenceScan { inside: false, last_tagged: false });
    scan.inside || scan.last_tagged
}

/// A paragraph break: two line feeds in a row, the first at `at`.
pub open spec fn is_paragraph_break(text: Seq<char>, at: int) -> bool {
    0 <= at && at + 1 < text.len() && text[at] == '\n' && text[at + 1] == '\n'
}

/// The right-most paragraph break that starts in `from..upto`.
pub open spec fn last_paragraph_break(text: Seq<char>, from: int, upto: int) -> Option<int>
    decreases upto,
{
    if upto <= from || upto <= 0 {
        None
    } else if is_paragraph_break(text, upto - 1) {
        Some(upto - 1)
    } else {
        last_paragraph_break(text, from, upto - 1)
    }
}

/// The right-most line feed in `from..upto`.
pub open spec fn last_newline(text: Seq<char>, from: int, upto: int) -> Option<int>
    decreases upto,
{
    if upto <= from || upto <= 0 || upto > text.len() {
        None
    } else if text[upto - 1] == '\n' {
        Some(upto - 1)
    } else {
        last_newline(text, from, upto - 1)
    }
}

/// The start of the line that the position `at` lies on.
pub open spec fn line_start(text: Seq<char>, at: int) -> int
    decreases at,
{
    if at <= 0 || at > text.len() {
        0
    } else if text[at - 1] == '\n' {
        at
    } else {
        line_start(text, at - 1)
    }
}

/// Whether the line that ends at `at` begins with a blank or a tab.
pub open spec fn is_indented_line(text: Seq<char>, at: int) -> bool {
    let start = line_start(text, at);
    0 <= start < at && at <= text.len() && (text[start] == ' ' || text[start] == '\t')
}

/// Whether the text may be cut right after the line feed at `at`: the text up
/// to there does not end inside a code block, and the line that the line
/// feed ends is not indented.
pub open spec fn newline_is_safe(text: Seq<char>, at: int) -> bool {
    !inside_code_block(text.take(at + 1)) && !is_indented_line(text, at)
}

/// The greatest cut point of `text` at or after `from`: right after the
/// right-most paragraph break; without one, right after the right-most line
/// feed, where that is safe.
pub open spec fn safe_boundary(text: Seq<char>, from: int) -> Option<int> {
    match last_paragraph_break(text, from, text.len() as int) {
        Some(at) => Some(at + 2),
        None => match last_newline(text, from, text.len() as int) {
            Some(at) => if newline_is_safe(text, at) {
                Some(at + 1)
            } else {
                None
            },
            None => None,
        },
    }
}

pub proof fn lemma_last_paragraph_break(text: Seq<char>, from: int, upto: int)
    requires
        0 <= from,
    ensures
        match last_paragraph_break(text, from, upto) {
            Some(at) => from <= at < upto && is_paragraph_break(text, at),
            None => forall|k: int| from <= k < upto ==> !is_paragraph_break(text, k),
        },
    decreases upto,
{
    if upto > from && upto > 0 && !is_paragraph_break(text, upto - 1) {
        lemma_last_paragraph_break(text, from, upto - 1);
    }
}

pub proof fn lemma_last_newline(text: Seq<char>, from: int, upto: int)
    requires
        0 <= from,
        upto <= text.len(),
    ensures
        match last_newline(text, from, upto) {
            Some(at) => from <= at < upto && text[at] == '\n',
            None => forall|k: int| from <= k < upto ==> text[k] != '\n',
        },
    decreases upto,
{
    if upto > from && upto > 0 && text[upto - 1] != '\n' {
        lemma_last_newline(text, from, upto - 1);
    }
}

/// A cut point lies behind `from`, within the text, and right after a line
/// feed.
pub proof fn lemma_safe_boundary_bounds(text: Seq<char>, from: int)
    requires
        0 <= from,
    ensures
        match safe_boundary(text, from) {
            Some(cut) => from < cut <= text.len() && text[cut - 1] == '\n',
            None => true,
        },
{
    lemma_last_paragraph_break(text, from, text.len() as int);
    lemma_last_newline(text, from, text.len() as int);
}

/// A cut point found at a single line feed never lies inside a fence that
/// is still open: the text up to the cut does not end inside a code block.
pub proof fn lemma_newline_boundary_outside_fence(text: Seq<char>, from: int)
    requires
        0 <= from,
        last_paragraph_break(text, from, text.len() as int) is None,
    ensures
        match safe_boundary(text, from) {
            Some(cut) => !inside_code_block(text.take(cut)),
            None => true,
        },
{
}

/// A cut point found at a paragraph break that is outside every fence does
/// not lie inside a fence either.
pub proof fn lemma_boundary_outside_fence(text: Seq<char>, from: int)
    requires
        0 <= from,
        match last_paragraph_break(text, from, text.len() as int) {
            Some(at) => !inside_code_block(text.take(at + 2)),
            None => true,
        },
    ensures
        match safe_boundary(text, from) {
            Some(cut) => !inside_code_block(text.take(cut)),
            None => true,
        },
{
}

fn copy_range(chars: &Vec<char>, from: usize, to: usize) -> (copy: Vec<char>)
    requires
        from <= to <= chars.len(),
    ensures
        copy@ == chars@.subrange(from as int, to as int),
{
    let mut copy: Vec<char> = Vec::new();
    let mut i: usize = from;
    while i < to
        invariant
            from <= i <= to <= chars.len(),
            copy@ == chars@.subrange(from as int, i as int),
        decreases to - i,
    {
        copy.push(chars[i]);
        proof {
            assert(chars@.subrange(from as int, i as int).push(chars@[i as int]) =~= chars@.subrange(
                from as int,
                i + 1,
            ));
        }
        i += 1;
    }
    copy
}

/// Takes one line into a scan.
fn scan_one_line(inside: bool, line: &Vec<char>) -> (scan: (bool, bool))
    ensures
        scan_line(FenceScan { inside, last_tagged: false }, line@) == (FenceScan {
            inside: scan.0,
            last_tagged: scan.1,
        }),
{
    let bounds = trim_bounds(line);
    let fence: Vec<char> = vec!['`', '`', '`'];
    proof {
        assert(fence@ =~= fence_marker());
        lemma_trim_starts_with(line@, fence_marker());
    }
    if starts_with_at(line, bounds.0, &fence) {
        (!inside, bounds.1 - bounds.0 > 3)
    } else {
        (inside, false)
    }
}

/// Whether `chars[..upto]` ends inside a fenced code block.
pub fn ends_inside_code_block(chars: &Vec<char>, upto: usize) -> (inside: bool)
    requires
        upto <= chars.len(),
    ensures
        inside == inside_code_block(chars@.take(upto as int)),
{
    let ghost text = chars@.take(upto as int);
    let mut inside = false;
    let mut last_tagged = false;
    let mut pos: usize = 0;
    while pos < upto
        invariant
            pos <= upto,
            upto <= chars.len(),
            text == chars@.take(upto as int),
            scan_from(text, 0, FenceScan { inside: false, last_tagged: false }) == scan_from(
                text,
                pos as int,
                FenceScan { inside, last_tagged },
            ),
        decreases upto - pos,
    {
        let mut end: usize = pos;
        while end < upto && chars[end] != '\n'
            invariant
                pos <= end <= upto,
                upto <= chars.len(),
                text == chars@.take(upto as int),
                line_end(text, pos as int) == line_end(text, end as int),
            decreases upto - end,
        {
            end += 1;
        }
        let line = copy_range(chars, pos, end);
        proof {
            assert(line@ =~= text.subrange(pos as int, end as int));
            assert(scan_line(FenceScan { inside, last_tagged }, line@) == scan_line(
                FenceScan { inside, last_tagged: false },
                line@,
            ));
        }
        let scan = scan_one_line(inside, &line);
        inside = scan.0;
        last_tagged = scan.1;
        pos = if end < upto {
            end + 1
        } else {
            upto
        };
    }
    inside || last_tagged
}

/// Whether the end of `text` lies inside a fenced code block.
pub fn is_inside_code_block(text: &str) -> (inside: bool)
    ensures
        inside == inside_code_block(text@),
{
    let chars = to_chars(text);
    proof {
        assert(chars@.take(chars.len() as int) =~= chars@);
    }
    ends_inside_code_block(&chars, chars.len())
}

/// The greatest cut point of `chars` at or after `from_offset`.
pub fn last_safe_boundary(chars: &Vec<char>, from_offset: usize) -> (cut: Option<usize>)
    ensures
        match cut {
            Some(at) => safe_boundary(chars@, from_offset as int) == Some(at as int),
            None => safe_boundary(chars@, from_offset as int) is None,
        },
{
    let len = chars.len();
    let mut upto: usize = len;
    while upto > from_offset
        invariant
            upto <= len,
            len == chars.len(),
            last_paragraph_break(chars@, from_offset as int, len as int) == last_paragraph_break(
                chars@,
                from_offset as int,
                upto as int,
            ),
        decreases upto,
    {
        if upto < len && chars[upto - 1] == '\n' && chars[upto] == '\n' {
            return Some(upto + 1);
        }
        upto -= 1;
    }
    let mut upto: usize = len;
    while upto > from_offset
        invariant
            upto <= len,
            len == chars.len(),
            last_paragraph_break(chars@, from_offset as int, len as int) is None,
            last_newline(chars@, from_offset as int, len as int) == last_newline(
                chars@,
                from_offset as int,
                upto as int,
            ),
        decreases upto,
    {
        if chars[upto - 1] == '\n' {
            let at: usize = upto - 1;
            if ends_inside_code_block(chars, upto) {
                return None;
            }
            let mut start: usize = at;
            while start > 0 && chars[start - 1] != '\n'
                invariant
                    start <= at < chars.len(),
                    line_start(chars@, at as int) == line_start(chars@, start as int),
                decreases start,
            {
                start -= 1;
            }
            if start < at && (chars[start] == ' ' || chars[start] == '\t') {
                return None;
            }
            return Some(upto);
        }
        upto -= 1;
    }
    None
}

/// Finds the greatest point at or after `from_offset` where `text` may be
/// cut: right after the right-most paragraph break, or else right after the
/// right-most line feed where the text up to it does not end inside a code
/// block and the line it ends is not indented.
pub fn find_last_safe_boundary(text: &str, from_offset: usize) -> (cut: Option<usize>)
    ensures
        match cut {
            Some(at) => safe_boundary(text@, from_offset as int) == Some(at as int),
            None => safe_boundary(text@, from_offset as int) is None,
        },
{
    let chars = to_chars(text);
    last_safe_boundary(&chars, from_offset)
}

/// Cuts a growing text into the chunks of a stream.
pub struct ChunkSegmenter {
    buffer: Vec<char>,
    delivered: usize,
    sent_first_update: bool,
}

pub struct SegmenterView {
    /// All the text taken in.
    pub buffer: Seq<char>,
    /// How much of it has been handed on.
    pub delivered: int,
    /// A chunk has been handed on before.
    pub sent_first_update: bool,
}

pub open spec fn initial_segmenter() -> SegmenterView {
    SegmenterView { buffer: Seq::empty(), delivered: 0, sent_first_update: false }
}

/// Where the pending text is cut, if it is cut now: at the greatest safe
/// boundary; without one, at the end of the text where no chunk was handed
/// on before and the pending text exceeds `MIN_FIRST_CHUNK`.
pub open spec fn next_cut(state: SegmenterView) -> Option<int> {
    match safe_boundary(state.buffer, state.delivered) {
        Some(cut) => Some(cut),
        None => if !state.sent_first_update && state.buffer.len() - state.delivered
            > MIN_FIRST_CHUNK {
            Some(state.buffer.len() as int)
        } else {
            None
        },
    }
}

/// The state after the pending text was cut at `cut`.
pub open spec fn cut_at(state: SegmenterView, cut: int) -> SegmenterView {
    SegmenterView { delivered: cut, sent_first_update: true, ..state }
}

/// The update that hands on the pending text up to `cut`.
pub open spec fn chunk_update(state: SegmenterView, cut: int) -> ContentUpdateView {
    stream_update(state.buffer.subrange(state.delivered, cut), state.sent_first_update)
}

/// The state after more text arrived, and the update handed on, if any.
pub open spec fn text_step(state: SegmenterView, text: Seq<char>) -> (SegmenterView, Option<ContentUpdateView>) {
    let grown = SegmenterView { buffer: state.buffer + text, ..state };
    match next_cut(grown) {
        Some(cut) => (cut_at(grown, cut), Some(chunk_update(grown, cut))),
        None => (grown, None),
    }
}

/// The state at the end of the input, and the update that hands on what
/// is still pending, if anything.
pub open spec fn text_end(state: SegmenterView) -> (SegmenterView, Option<ContentUpdateView>) {
    if state.delivered < state.buffer.len() {
        (
            cut_at(state, state.buffer.len() as int),
            Some(chunk_update(state, state.buffer.len() as int)),
        )
    } else {
        (state, None)
    }
}

/// `updates` with one more where there is one.
pub open spec fn with_update(updates: Seq<ContentUpdateView>, more: Option<ContentUpdateView>) -> Seq<
    ContentUpdateView,
> {
    match more {
        Some(update) => updates.push(update),
        None => updates,
    }
}

/// The state and the updates handed on after all of `texts` arrived, in
/// order.
pub open spec fn segment_fold(texts: Seq<Seq<char>>) -> (SegmenterView, Seq<ContentUpdateView>)
    decreases texts.len(),
{
    if texts.len() == 0 {
        (initial_segmenter(), Seq::empty())
    } else {
        let (state, updates) = segment_fold(texts.drop_last());
        let (next, update) = text_step(state, texts.last());
        (next, with_update(updates, update))
    }
}

/// The updates for an input that ends after `texts`.
pub open spec fn segmented_updates(texts: Seq<Seq<char>>) -> Seq<ContentUpdateView> {
    let (state, updates) = segment_fold(texts);
    with_update(updates, text_end(state).1)
}

/// What has been handed on is a prefix of what was taken in.
pub open spec fn segmenter_well_formed(state: SegmenterView) -> bool {
    0 <= state.delivered <= state.buffer.len()
}

impl View for ChunkSegmenter {
    type V = SegmenterView;

    closed spec fn view(&self) -> SegmenterView {
        SegmenterView {
            buffer: self.buffer@,
            delivered: self.delivered as int,
            sent_first_update: self.sent_first_update,
        }
    }
}

impl ChunkSegmenter {
    pub fn new() -> (segmenter: ChunkSegmenter)
        ensures
            segmenter@ == initial_segmenter(),
            segmenter_well_formed(segmenter@),
    {
        ChunkSegmenter { buffer: Vec::new(), delivered: 0, sent_first_update: false }
    }

    /// The number of characters taken in and not yet handed on.
    pub fn pending_len(&self) -> (len: usize)
        requires
            segmenter_well_formed(self@),
        ensures
            len == self@.buffer.len() - self@.delivered,
    {
        self.buffer.len() - self.delivered
    }

    fn emit(&mut self, cut: usize) -> (update: ContentUpdate)
        requires
            old(self)@.delivered <= cut <= old(self)@.buffer.len(),
            0 <= old(self)@.delivered,
        ensures
            final(self)@ == cut_at(old(self)@, cut as int),
            update@ == chunk_update(old(self)@, cut as int),
    {
        let chunk = string_from_chars(&self.buffer, self.delivered, cut);
        let update = make_stream_update(chunk, self.sent_first_update);
        self.delivered = cut;
        self.sent_first_update = true;
        update
    }

    /// Takes in more text and hands on a chunk where the pending text can
    /// be cut.
    pub fn push(&mut self, text: &str) -> (update: Option<ContentUpdate>)
        requires
            segmenter_well_formed(old(self)@),
        ensures
            segmenter_well_formed(final(self)@),
            final(self)@ == text_step(old(self)@, text@).0,
            match update {
                Some(u) => text_step(old(self)@, text@).1 == Some(u@),
                None => text_step(old(self)@, text@).1 is None,
            },
    {
        let mut more = to_chars(text);
        self.buffer.append(&mut more);
        proof {
            lemma_safe_boundary_bounds(self@.buffer, self@.delivered);
        }
        match last_safe_boundary(&self.buffer, self.delivered) {
            Some(cut) => Some(self.emit(cut)),
            None => {
                if !self.sent_first_update && self.buffer.len() - self.delivered > MIN_FIRST_CHUNK {
                    let end = self.buffer.len();
                    Some(self.emit(end))
                } else {
                    None
                }
            },
        }
    }

    /// At the end of the input, hands on what is still pending, if
    /// anything.
    pub fn finish(&mut self) -> (update: Option<ContentUpdate>)
        requires
            segmenter_well_formed(old(self)@),
        ensures
            segmenter_well_formed(final(self)@),
            final(self)@ == text_end(old(self)@).0,
            match update {
                Some(u) => text_end(old(self)@).1 == Some(u@),
                None => text_end(old(self)@).1 is None,
            },
    {
        if self.delivered < self.buffer.len() {
            let end = self.buffer.len();
            Some(self.emit(end))
        } else {
            None
        }
    }
}

/// What the chunks accumulate to, together with the pending text, is all
/// the text taken in; and chunks have been handed on exactly where the
/// state says so.
pub proof fn lemma_segment_fold_keeps_text(texts: Seq<Seq<char>>)
    ensures
        segmenter_well_formed(segment_fold(texts).0),
        segment_fold(texts).0.buffer == concat_all(texts),
        text_or_empty(accumulated_markdown(None, segment_fold(texts).1)) == segment_fold(
            texts,
        ).0.buffer.take(segment_fold(texts).0.delivered),
        segment_fold(texts).0.sent_first_update <==> accumulated_markdown(
            None,
            segment_fold(texts).1,
        ) is Some,
    decreases texts.len(),
{
    if texts.len() > 0 {
        let (state, updates) = segment_fold(texts.drop_last());
        lemma_segment_fold_keeps_text(texts.drop_last());
        let grown = SegmenterView { buffer: state.buffer + texts.last(), ..state };
        lemma_safe_boundary_bounds(grown.buffer, grown.delivered);
        assert(grown.buffer.take(state.delivered) =~= state.buffer.take(state.delivered));
        match next_cut(grown) {
            Some(cut) => {
                lemma_accumulated_push(None, updates, chunk_update(grown, cut));
                assert(grown.buffer.take(grown.delivered) + grown.buffer.subrange(
                    grown.delivered,
                    cut,
                ) =~= grown.buffer.take(cut));
                if !state.sent_first_update {
                    assert(grown.buffer.take(grown.delivered) =~= Seq::<char>::empty());
                    assert(grown.buffer.subrange(grown.delivered, cut) =~= grown.buffer.take(cut))
                        by {
                        assert(Seq::<char>::empty() + grown.buffer.subrange(grown.delivered, cut)
                            =~= grown.buffer.subrange(grown.delivered, cut));
                    }
                }
            },
            None => {},
        }
    } else {
        assert(Seq::<char>::empty().take(0) =~= Seq::<char>::empty());
    }
}

/// The markdown delivered by the chunks is exactly the text taken in,
/// however the text arrived in pieces and wherever it was cut.
pub proof fn lemma_segmenter_preserves_text(texts: Seq<Seq<char>>)
    ensures
        text_or_empty(accumulated_markdown(None, segmented_updates(texts))) == concat_all(texts),
{
    lemma_segment_fold_keeps_text(texts);
    let (state, updates) = segment_fold(texts);
    if state.delivered < state.buffer.len() {
        let end = state.buffer.len() as int;
        lemma_accumulated_push(None, updates, chunk_update(state, end));
        assert(state.buffer.take(state.delivered) + state.buffer.subrange(state.delivered, end)
            =~= state.buffer);
        if !state.sent_first_update {
            assert(state.buffer.take(state.delivered) =~= Seq::<char>::empty());
            assert(Seq::<char>::empty() + state.buffer.subrange(state.delivered, end)
                =~= state.buffer.subrange(state.delivered, end));
        }
    } else {
        assert(state.buffer.take(state.delivered) =~= state.buffer);
    }
}

} // verus!
