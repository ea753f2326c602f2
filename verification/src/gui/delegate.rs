//! The consumer: it drains the pending queue on each tick, groups the
//! updates by the rate at which they arrive, and applies them to the
//! document it owns.
//!
//! The delegate touches neither window nor surface. Every change that the
//! outside has to carry out is returned as a `DelegateAction`.

use crate::content::{accumulated_markdown, lemma_accumulated_concat, lemma_accumulated_push, update_views, ContentUpdate, ContentUpdateView, DocumentContent, DocumentView, ViewMode};
use crate::gui::rate::{max_batch_size, observed, processing_window, strategy, InputRateCategory, ProcessingStrategy, RateClassifier, RateWindow, initial_rate_window};
use crate::gui::types::{larger_font_size, smaller_font_size, FontFamily, StylePreferences, ThemeMode, DEFAULT_FONT_SIZE};
use crate::gui::view::{append_action, elapsed, elapsed_since, toggle_action, toggled, update_action, view_after_append, view_after_update, MarkdownView, MarkdownViewState, ScrollBehavior, ViewAction, ViewActionView};
use crate::gui::window::{calculate_window_size, window_size, WindowSize};
use crate::markdown::parser::rendered_html;
use crate::menu::MenuMessage;
use std::collections::VecDeque;
use vstd::prelude::*;
use vstd::string::*;

verus! {

/// The batch size beyond which an extreme rate is processed at once.
pub const OVERFLOW_BATCH: usize = 100;

/// What the outside is asked to carry out.
#[derive(Debug)]
pub enum DelegateAction {
    /// Install the menu bar.
    SetupMenu,
    /// Open the window, sized for the document it will show.
    CreateWindow(WindowSize),
    /// Open the window with nothing to show yet.
    CreateEmptyWindow,
    /// Tell the rendering surface.
    View(ViewAction),
    /// Store the preferences.
    SavePreferences(StylePreferences),
}

pub enum DelegateActionView {
    SetupMenu,
    CreateWindow(WindowSize),
    CreateEmptyWindow,
    View(ViewActionView),
    SavePreferences(StylePreferences),
}

impl View for DelegateAction {
    type V = DelegateActionView;

    open spec fn view(&self) -> DelegateActionView {
        match self {
            DelegateAction::SetupMenu => DelegateActionView::SetupMenu,
            DelegateAction::CreateWindow(size) => DelegateActionView::CreateWindow(*size),
            DelegateAction::CreateEmptyWindow => DelegateActionView::CreateEmptyWindow,
            DelegateAction::View(action) => DelegateActionView::View(action@),
            DelegateAction::SavePreferences(preferences) => DelegateActionView::SavePreferences(
                *preferences,
            ),
        }
    }
}

/// The views of a sequence of actions.
pub open spec fn action_views(actions: Seq<DelegateAction>) -> Seq<DelegateActionView> {
    actions.map_values(|a: DelegateAction| a@)
}

/// The updates that wait for the consumer, oldest first.
pub struct PendingQueue {
    updates: VecDeque<ContentUpdate>,
}

impl View for PendingQueue {
    type V = Seq<ContentUpdateView>;

    closed spec fn view(&self) -> Seq<ContentUpdateView> {
        self.updates@.map_values(|u: ContentUpdate| u@)
    }
}

impl PendingQueue {
    pub fn new() -> (queue: PendingQueue)
        ensures
            queue@ == Seq::<ContentUpdateView>::empty(),
    {
        let queue = PendingQueue { updates: VecDeque::new() };
        proof {
            assert(queue@ =~= Seq::<ContentUpdateView>::empty());
        }
        queue
    }

    /// The number of waiting updates.
    pub fn len(&self) -> (len: usize)
        ensures
            len == self@.len(),
    {
        self.updates.len()
    }

    /// Adds an update behind those that wait.
    pub fn push(&mut self, update: ContentUpdate)
        ensures
            final(self)@ == old(self)@.push(update@),
    {
        self.updates.push_back(update);
        proof {
            assert(self@ =~= old(self)@.push(update@));
        }
    }

    /// Takes the update that has waited longest.
    pub fn pop(&mut self) -> (update: Option<ContentUpdate>)
        ensures
            match update {
                Some(u) => old(self)@.len() > 0 && u@ == old(self)@[0] && final(self)@ == old(
                    self,
                )@.subrange(1, old(self)@.len() as int),
                None => old(self)@.len() == 0 && final(self)@ == old(self)@,
            },
    {
        let update = self.updates.pop_front();
        proof {
            if update is Some {
                assert(self@ =~= old(self)@.subrange(1, old(self)@.len() as int));
            } else {
                assert(self@ =~= old(self)@);
            }
        }
        update
    }
}

/// What the delegate holds.
pub struct DelegateState {
    /// The window has been opened.
    pub has_window: bool,
    /// The menu bar has been installed.
    pub menu_setup: bool,
    /// The input is a live stream, not a file.
    pub is_pipe_mode: bool,
    /// The accumulated document, once a full replace has brought one.
    pub document: Option<DocumentView>,
    /// The preferences in force.
    pub style_preferences: StylePreferences,
    /// When a batch was last processed.
    pub last_update_time: u64,
    /// The updates taken from the queue and not yet processed.
    pub pending_batch: Seq<ContentUpdateView>,
    /// The arrival times and the rate derived from them.
    pub rate: RateWindow,
    /// What the view holds for the surface.
    pub view: MarkdownViewState,
}

/// The delegate before any update, created at `now`.
pub open spec fn initial_delegate(is_pipe_mode: bool, preferences: StylePreferences, now: u64) -> DelegateState {
    DelegateState {
        has_window: false,
        menu_setup: false,
        is_pipe_mode,
        document: None,
        style_preferences: preferences,
        last_update_time: now,
        pending_batch: Seq::empty(),
        rate: initial_rate_window(),
        view: MarkdownViewState {
            current_mode: ViewMode::Preview,
            accumulated_content: Seq::empty(),
            accumulated_markdown: Seq::empty(),
            last_sync_time: now,
        },
    }
}

/// A document is held only once the window is open, and the view has
/// accumulated exactly what the document holds.
pub open spec fn well_formed(state: DelegateState) -> bool {
    match state.document {
        Some(document) => state.has_window && state.view.accumulated_markdown == document.markdown
            && state.view.accumulated_content == document.html,
        None => true,
    }
}

/// What opening the window takes, where it is not open yet: the menu bar
/// first, unless it is installed, then the window.
pub open spec fn open_window_actions(state: DelegateState, size: Option<WindowSize>) -> Seq<
    DelegateActionView,
> {
    let create = match size {
        Some(chosen) => DelegateActionView::CreateWindow(chosen),
        None => DelegateActionView::CreateEmptyWindow,
    };
    if state.has_window {
        Seq::empty()
    } else if state.menu_setup {
        seq![create]
    } else {
        seq![DelegateActionView::SetupMenu, create]
    }
}

/// The state once the window is open.
pub open spec fn with_open_window(state: DelegateState) -> DelegateState {
    DelegateState {
        has_window: true,
        menu_setup: state.menu_setup || !state.has_window,
        ..state
    }
}

/// `document` under `preferences`: as it is where it was rendered under
/// them, rendered anew where it was not.
pub open spec fn imposed(document: DocumentView, preferences: StylePreferences) -> DocumentView {
    if document.style_preferences == preferences {
        document
    } else {
        DocumentView {
            style_preferences: preferences,
            html: rendered_html(document.markdown, preferences.theme),
            ..document
        }
    }
}

/// Where a full reload scrolls: to the end of a live stream, to the top of
/// a file.
pub open spec fn scroll_target(is_pipe_mode: bool) -> ScrollBehavior {
    if is_pipe_mode {
        ScrollBehavior::Bottom
    } else {
        ScrollBehavior::Top
    }
}

/// `document` with a chunk added at its end.
pub open spec fn extended(document: DocumentView, markdown: Seq<char>, html: Seq<char>) -> DocumentView {
    DocumentView { markdown: document.markdown + markdown, html: document.html + html, ..document }
}

/// `document` with its HTML rendered anew under its own theme.
pub open spec fn rerendered(document: DocumentView) -> DocumentView {
    DocumentView {
        html: rendered_html(document.markdown, document.style_preferences.theme),
        ..document
    }
}

/// The state after one update, and what the outside is asked to do.
///
/// A full replace takes the place of the document, under the preferences in
/// force, opens the window if need be and reloads the surface. An append
/// extends the document and the view where there is a document to extend;
/// without a window it opens an empty one and is itself dropped.
pub open spec fn apply_update(state: DelegateState, update: ContentUpdateView, now: u64) -> (
    DelegateState,
    Seq<DelegateActionView>,
) {
    match update {
        ContentUpdateView::FullReplace(document) => {
            let content = imposed(document, state.style_preferences);
            (
                DelegateState {
                    document: Some(content),
                    view: view_after_update(state.view, content),
                    ..with_open_window(state)
                },
                open_window_actions(state, Some(window_size(content, state.is_pipe_mode))).push(
                    DelegateActionView::View(
                        update_action(content, scroll_target(state.is_pipe_mode)),
                    ),
                ),
            )
        },
        ContentUpdateView::Append { markdown, html } => {
            if state.has_window {
                match state.document {
                    Some(document) => (
                        DelegateState {
                            document: Some(extended(document, markdown, html)),
                            view: view_after_append(state.view, markdown, html, now),
                            ..state
                        },
                        match append_action(state.view, html, now) {
                            Some(action) => seq![DelegateActionView::View(action)],
                            None => Seq::empty(),
                        },
                    ),
                    None => (state, Seq::empty()),
                }
            } else {
                (with_open_window(state), open_window_actions(state, None))
            }
        },
    }
}

/// The state after all of `updates`, applied in order, and all that the
/// outside is asked to do.
pub open spec fn apply_all(state: DelegateState, updates: Seq<ContentUpdateView>, now: u64) -> (
    DelegateState,
    Seq<DelegateActionView>,
)
    decreases updates.len(),
{
    if updates.len() == 0 {
        (state, Seq::empty())
    } else {
        let (middle, first) = apply_all(state, updates.drop_last(), now);
        let (end, last) = apply_update(middle, updates.last(), now);
        (end, first + last)
    }
}

/// The merged updates so far, and the run of appends still open.
pub struct Coalescing {
    pub merged: Seq<ContentUpdateView>,
    pub markdown: Seq<char>,
    pub html: Seq<char>,
}

/// `merged` with the open run closed: one append for a run that holds
/// markdown, nothing for one that holds none.
pub open spec fn run_closed(run: Coalescing) -> Seq<ContentUpdateView> {
    if run.markdown.len() > 0 {
        run.merged.push(ContentUpdateView::Append { markdown: run.markdown, html: run.html })
    } else {
        run.merged
    }
}

/// Merging after one more update: an append joins the open run, a full
/// replace closes the run and follows it.
pub open spec fn coalesce_step(run: Coalescing, update: ContentUpdateView) -> Coalescing {
    match update {
        ContentUpdateView::FullReplace(document) => Coalescing {
            merged: run_closed(run).push(ContentUpdateView::FullReplace(document)),
            markdown: Seq::empty(),
            html: Seq::empty(),
        },
        ContentUpdateView::Append { markdown, html } => Coalescing {
            merged: run.merged,
            markdown: run.markdown + markdown,
            html: run.html + html,
        },
    }
}

pub open spec fn coalesce_fold(batch: Seq<ContentUpdateView>) -> Coalescing
    decreases batch.len(),
{
    if batch.len() == 0 {
        Coalescing { merged: Seq::empty(), markdown: Seq::empty(), html: Seq::empty() }
    } else {
        coalesce_step(coalesce_fold(batch.drop_last()), batch.last())
    }
}

/// `batch` with every run of consecutive appends merged into one append
/// that carries the run's markdown and HTML, each concatenated in order.
pub open spec fn coalesced(batch: Seq<ContentUpdateView>) -> Seq<ContentUpdateView> {
    run_closed(coalesce_fold(batch))
}

/// The last full replace of a batch, if it has one, and the markdown of the
/// appends that follow it.
pub struct Reduction {
    pub base: Option<DocumentView>,
    pub tail: Seq<char>,
}

pub open spec fn reduce_step(reduction: Reduction, update: ContentUpdateView) -> Reduction {
    match update {
        ContentUpdateView::FullReplace(document) => Reduction {
            base: Some(document),
            tail: Seq::empty(),
        },
        ContentUpdateView::Append { markdown, .. } => Reduction {
            base: reduction.base,
            tail: reduction.tail + markdown,
        },
    }
}

/// `batch` reduced to its last full replace and the markdown after it.
pub open spec fn reduced(batch: Seq<ContentUpdateView>) -> Reduction
    decreases batch.len(),
{
    if batch.len() == 0 {
        Reduction { base: None, tail: Seq::empty() }
    } else {
        reduce_step(reduced(batch.drop_last()), batch.last())
    }
}

/// The one full replace that stands for a batch with base `base`: the
/// base extended by the tail and rendered once.
pub open spec fn rebuilt(base: DocumentView, tail: Seq<char>) -> DocumentView {
    rerendered(DocumentView { markdown: base.markdown + tail, ..base })
}

/// The state after a batch was applied incrementally.
pub open spec fn incremental(state: DelegateState, batch: Seq<ContentUpdateView>, now: u64) -> (
    DelegateState,
    Seq<DelegateActionView>,
) {
    apply_all(state, coalesced(batch), now)
}

/// The state after a batch was applied aggressively: with a full replace
/// in the batch, the one rebuilt document replaces the document; without
/// one, the markdown of the batch extends the document, which is rendered
/// anew and reloaded whole.
pub open spec fn aggressive(state: DelegateState, batch: Seq<ContentUpdateView>, now: u64) -> (
    DelegateState,
    Seq<DelegateActionView>,
) {
    let reduction = reduced(batch);
    match reduction.base {
        Some(base) => apply_update(
            state,
            ContentUpdateView::FullReplace(rebuilt(base, reduction.tail)),
            now,
        ),
        None => match state.document {
            Some(document) => if reduction.tail.len() > 0 {
                let content = rebuilt(document, reduction.tail);
                (
                    DelegateState {
                        document: Some(content),
                        view: view_after_update(state.view, content),
                        ..state
                    },
                    seq![
                        DelegateActionView::View(update_action(content, ScrollBehavior::Bottom)),
                    ],
                )
            } else {
                (state, Seq::empty())
            },
            None => (state, Seq::empty()),
        },
    }
}

/// Whether `batch` holds a full replace.
pub open spec fn has_full_replace(batch: Seq<ContentUpdateView>) -> bool {
    exists|i: int| 0 <= i < batch.len() && #[trigger] batch[i] is FullReplace
}

/// Whether the pending batch is processed at `now`: the processing window
/// of the current rate has passed, or the batch holds a full replace, or
/// the rate is extreme and the batch has outgrown `OVERFLOW_BATCH`.
pub open spec fn should_process(state: DelegateState, now: u64) -> bool {
    ||| elapsed(now, state.last_update_time) >= processing_window(state.rate.category)
    ||| has_full_replace(state.pending_batch)
    ||| state.rate.category == InputRateCategory::Extreme && state.pending_batch.len()
        > OVERFLOW_BATCH
}

/// The state after the pending batch was looked at: processed, by the
/// strategy of the current rate, where it is due and not empty; kept
/// for the next tick where it is not.
pub open spec fn processed(state: DelegateState, now: u64) -> (DelegateState, Seq<DelegateActionView>) {
    if should_process(state, now) && state.pending_batch.len() > 0 {
        let taken = DelegateState { pending_batch: Seq::empty(), ..state };
        let (after, actions) = match strategy(state.rate.category) {
            ProcessingStrategy::Incremental => incremental(taken, state.pending_batch, now),
            ProcessingStrategy::Aggressive => aggressive(taken, state.pending_batch, now),
        };
        (DelegateState { last_update_time: now, ..after }, actions)
    } else {
        (state, Seq::empty())
    }
}

/// The state and the queue after updates were taken from the queue at
/// `now`, `taken` of them before: each one taken is an arrival for the
/// rate, and taking stops at the batch size of the rate then current.
pub open spec fn collected(state: DelegateState, queue: Seq<ContentUpdateView>, taken: nat, now: u64) -> (
    DelegateState,
    Seq<ContentUpdateView>,
)
    decreases queue.len(),
{
    if queue.len() == 0 {
        (state, queue)
    } else {
        let next = DelegateState {
            pending_batch: state.pending_batch.push(queue[0]),
            rate: observed(state.rate, now),
            ..state
        };
        let rest = queue.subrange(1, queue.len() as int);
        if taken + 1 >= max_batch_size(next.rate.category) {
            (next, rest)
        } else {
            collected(next, rest, taken + 1, now)
        }
    }
}

/// The state after the preferences in force were imposed on the document
/// and the surface reloaded; nothing where there is no document.
pub open spec fn restyled(state: DelegateState) -> (DelegateState, Seq<DelegateActionView>) {
    match state.document {
        Some(document) => {
            let content = rerendered(
                DocumentView { style_preferences: state.style_preferences, ..document },
            );
            (
                DelegateState {
                    document: Some(content),
                    view: view_after_update(state.view, content),
                    ..state
                },
                seq![DelegateActionView::View(update_action(content, ScrollBehavior::Top))],
            )
        },
        None => (state, Seq::empty()),
    }
}

/// The state after the preferences changed to `preferences`: they are
/// stored, then imposed.
pub open spec fn with_preferences(state: DelegateState, preferences: StylePreferences) -> (
    DelegateState,
    Seq<DelegateActionView>,
) {
    let (after, actions) = restyled(DelegateState { style_preferences: preferences, ..state });
    (after, seq![DelegateActionView::SavePreferences(preferences)] + actions)
}

/// The state after a menu message.
pub open spec fn menu_step(state: DelegateState, message: MenuMessage) -> (
    DelegateState,
    Seq<DelegateActionView>,
) {
    let preferences = state.style_preferences;
    match message {
        MenuMessage::ToggleMode => (
            DelegateState {
                view: MarkdownViewState {
                    current_mode: toggled(state.view.current_mode),
                    ..state.view
                },
                ..state
            },
            seq![DelegateActionView::View(toggle_action(state.view, preferences))],
        ),
        MenuMessage::Copy => (state, Seq::empty()),
        MenuMessage::SelectAll => (state, Seq::empty()),
        MenuMessage::SetFontFamily(font_family) => with_preferences(
            state,
            StylePreferences { font_family, ..preferences },
        ),
        MenuMessage::IncreaseFontSize => with_preferences(
            state,
            StylePreferences { font_size: larger_font_size(preferences.font_size), ..preferences },
        ),
        MenuMessage::DecreaseFontSize => with_preferences(
            state,
            StylePreferences { font_size: smaller_font_size(preferences.font_size), ..preferences },
        ),
        MenuMessage::ResetFontSize => with_preferences(
            state,
            StylePreferences { font_size: DEFAULT_FONT_SIZE, ..preferences },
        ),
        MenuMessage::SetTheme(theme) => with_preferences(
            state,
            StylePreferences { theme, ..preferences },
        ),
    }
}

/// The state after all of `messages`, in order.
pub open spec fn menu_fold(state: DelegateState, messages: Seq<MenuMessage>) -> (
    DelegateState,
    Seq<DelegateActionView>,
)
    decreases messages.len(),
{
    if messages.len() == 0 {
        (state, Seq::empty())
    } else {
        let (middle, first) = menu_fold(state, messages.drop_last());
        let (end, last) = menu_step(middle, messages.last());
        (end, first + last)
    }
}

/// One tick: the menu messages are answered, updates are taken from the
/// queue, and the pending batch is processed where it is due.
pub open spec fn ticked(
    state: DelegateState,
    messages: Seq<MenuMessage>,
    queue: Seq<ContentUpdateView>,
    now: u64,
) -> (DelegateState, Seq<ContentUpdateView>, Seq<DelegateActionView>) {
    let (answered, menu_actions) = menu_fold(state, messages);
    let (gathered, rest) = collected(answered, queue, 0, now);
    let (end, actions) = processed(gathered, now);
    (end, rest, menu_actions + actions)
}

/// The markdown of the document that the delegate holds, if it holds one.
pub open spec fn held_markdown(state: DelegateState) -> Option<Seq<char>> {
    match state.document {
        Some(document) => Some(document.markdown),
        None => None,
    }
}

/// The markdown of the appends in `batch`, in order.
pub open spec fn appended_markdown(batch: Seq<ContentUpdateView>) -> Seq<char>
    decreases batch.len(),
{
    if batch.len() == 0 {
        Seq::empty()
    } else {
        appended_markdown(batch.drop_last()) + match batch.last() {
            ContentUpdateView::Append { markdown, .. } => markdown,
            ContentUpdateView::FullReplace(_) => Seq::empty(),
        }
    }
}

/// The HTML of the appends in `batch`, in order.
pub open spec fn appended_html(batch: Seq<ContentUpdateView>) -> Seq<char>
    decreases batch.len(),
{
    if batch.len() == 0 {
        Seq::empty()
    } else {
        appended_html(batch.drop_last()) + match batch.last() {
            ContentUpdateView::Append { html, .. } => html,
            ContentUpdateView::FullReplace(_) => Seq::empty(),
        }
    }
}

/// Every update in `batch` is an append.
pub open spec fn only_appends(batch: Seq<ContentUpdateView>) -> bool {
    forall|i: int| 0 <= i < batch.len() ==> #[trigger] batch[i] is Append
}

/// `held` with `more` at its end, where there is a document.
pub open spec fn extended_text(held: Option<Seq<char>>, more: Seq<char>) -> Option<Seq<char>> {
    match held {
        Some(text) => Some(text + more),
        None => None,
    }
}

/// One update leaves the delegate well formed, and its document holds what
/// the update accumulates to.
pub proof fn lemma_apply_update_accumulates(state: DelegateState, update: ContentUpdateView, now: u64)
    requires
        well_formed(state),
    ensures
        well_formed(apply_update(state, update, now).0),
        held_markdown(apply_update(state, update, now).0) == accumulated_markdown(
            held_markdown(state),
            seq![update],
        ),
        apply_update(state, update, now).0.pending_batch == state.pending_batch,
{
    lemma_accumulated_push(held_markdown(state), Seq::empty(), update);
    assert(Seq::<ContentUpdateView>::empty().push(update) =~= seq![update]);
}

/// Applying updates in order leaves the delegate well formed, and its
/// document holds what the updates accumulate to.
pub proof fn lemma_apply_all_accumulates(state: DelegateState, updates: Seq<ContentUpdateView>, now: u64)
    requires
        well_formed(state),
    ensures
        well_formed(apply_all(state, updates, now).0),
        held_markdown(apply_all(state, updates, now).0) == accumulated_markdown(
            held_markdown(state),
            updates,
        ),
        apply_all(state, updates, now).0.pending_batch == state.pending_batch,
    decreases updates.len(),
{
    if updates.len() > 0 {
        lemma_apply_all_accumulates(state, updates.drop_last(), now);
        let middle = apply_all(state, updates.drop_last(), now).0;
        lemma_apply_update_accumulates(middle, updates.last(), now);
        lemma_accumulated_concat(held_markdown(state), updates.drop_last(), seq![updates.last()]);
        assert(updates.drop_last() + seq![updates.last()] =~= updates);
    }
}

/// Merging runs of appends does not change what a batch accumulates to.
pub proof fn lemma_coalesce_fold_accumulates(base: Option<Seq<char>>, batch: Seq<ContentUpdateView>)
    ensures
        extended_text(
            accumulated_markdown(base, coalesce_fold(batch).merged),
            coalesce_fold(batch).markdown,
        ) == accumulated_markdown(base, batch),
    decreases batch.len(),
{
    if batch.len() == 0 {
        match base {
            Some(text) => {
                assert(text + Seq::<char>::empty() =~= text);
            },
            None => {},
        }
    } else {
        lemma_coalesce_fold_accumulates(base, batch.drop_last());
        let run = coalesce_fold(batch.drop_last());
        match batch.last() {
            ContentUpdateView::FullReplace(document) => {
                lemma_accumulated_push(
                    base,
                    run_closed(run),
                    ContentUpdateView::FullReplace(document),
                );
                assert(document.markdown + Seq::<char>::empty() =~= document.markdown);
            },
            ContentUpdateView::Append { markdown, html } => {
                match accumulated_markdown(base, run.merged) {
                    Some(text) => {
                        assert(text + (run.markdown + markdown) =~= (text + run.markdown) + markdown);
                    },
                    None => {},
                }
            },
        }
    }
}

/// Merging runs of appends does not change what a batch accumulates to.
pub proof fn lemma_coalesced_accumulates(base: Option<Seq<char>>, batch: Seq<ContentUpdateView>)
    ensures
        accumulated_markdown(base, coalesced(batch)) == accumulated_markdown(base, batch),
{
    lemma_coalesce_fold_accumulates(base, batch);
    let run = coalesce_fold(batch);
    if run.markdown.len() > 0 {
        lemma_accumulated_push(
            base,
            run.merged,
            ContentUpdateView::Append { markdown: run.markdown, html: run.html },
        );
    } else {
        match accumulated_markdown(base, run.merged) {
            Some(text) => {
                assert(text + run.markdown =~= text);
            },
            None => {},
        }
    }
}

/// What a batch accumulates to is its last full replace, extended by the
/// markdown after it; without a full replace, the base extended by all the
/// markdown of the batch.
pub proof fn lemma_reduced_accumulates(base: Option<Seq<char>>, batch: Seq<ContentUpdateView>)
    ensures
        accumulated_markdown(base, batch) == match reduced(batch).base {
            Some(document) => Some(document.markdown + reduced(batch).tail),
            None => extended_text(base, reduced(batch).tail),
        },
    decreases batch.len(),
{
    if batch.len() == 0 {
        match base {
            Some(text) => {
                assert(text + Seq::<char>::empty() =~= text);
            },
            None => {},
        }
    } else {
        lemma_reduced_accumulates(base, batch.drop_last());
        let before = reduced(batch.drop_last());
        match batch.last() {
            ContentUpdateView::FullReplace(document) => {
                assert(document.markdown + Seq::<char>::empty() =~= document.markdown);
            },
            ContentUpdateView::Append { markdown, html } => {
                match before.base {
                    Some(document) => {
                        assert(document.markdown + (before.tail + markdown) =~= (document.markdown
                            + before.tail) + markdown);
                    },
                    None => match base {
                        Some(text) => {
                            assert(text + (before.tail + markdown) =~= (text + before.tail)
                                + markdown);
                        },
                        None => {},
                    },
                }
            },
        }
    }
}

/// The incremental strategy leaves the document with exactly what the
/// batch accumulates to.
pub proof fn lemma_incremental_accumulates(state: DelegateState, batch: Seq<ContentUpdateView>, now: u64)
    requires
        well_formed(state),
    ensures
        well_formed(incremental(state, batch, now).0),
        held_markdown(incremental(state, batch, now).0) == accumulated_markdown(
            held_markdown(state),
            batch,
        ),
        incremental(state, batch, now).0.pending_batch == state.pending_batch,
{
    lemma_apply_all_accumulates(state, coalesced(batch), now);
    lemma_coalesced_accumulates(held_markdown(state), batch);
}

/// The aggressive strategy leaves the document with exactly what the
/// batch accumulates to, though it drops what came before the last full
/// replace of the batch.
pub proof fn lemma_aggressive_accumulates(state: DelegateState, batch: Seq<ContentUpdateView>, now: u64)
    requires
        well_formed(state),
    ensures
        well_formed(aggressive(state, batch, now).0),
        held_markdown(aggressive(state, batch, now).0) == accumulated_markdown(
            held_markdown(state),
            batch,
        ),
        aggressive(state, batch, now).0.pending_batch == state.pending_batch,
{
    lemma_reduced_accumulates(held_markdown(state), batch);
    let reduction = reduced(batch);
    match reduction.base {
        Some(base) => {
            lemma_apply_update_accumulates(
                state,
                ContentUpdateView::FullReplace(rebuilt(base, reduction.tail)),
                now,
            );
        },
        None => match state.document {
            Some(document) => {
                if reduction.tail.len() == 0 {
                    assert(document.markdown + reduction.tail =~= document.markdown);
                }
            },
            None => {},
        },
    }
}

/// A batch that ends in appends after a full replace is applied, by the
/// aggressive strategy, as one full replace: the document of that full
/// replace extended by the markdown of the appends. What came before the
/// full replace is dropped.
pub proof fn lemma_aggressive_is_one_full_replace(
    state: DelegateState,
    before: Seq<ContentUpdateView>,
    document: DocumentView,
    after: Seq<ContentUpdateView>,
    now: u64,
)
    requires
        only_appends(after),
    ensures
        reduced(before.push(ContentUpdateView::FullReplace(document)) + after) == (Reduction {
            base: Some(document),
            tail: appended_markdown(after),
        }),
        aggressive(state, before.push(ContentUpdateView::FullReplace(document)) + after, now)
            == apply_update(
            state,
            ContentUpdateView::FullReplace(rebuilt(document, appended_markdown(after))),
            now,
        ),
    decreases after.len(),
{
    let head = before.push(ContentUpdateView::FullReplace(document));
    if after.len() == 0 {
        assert(head + after =~= head);
        assert(head.drop_last() =~= before);
    } else {
        assert(only_appends(after.drop_last())) by {
            assert forall|i: int| 0 <= i < after.drop_last().len() implies #[trigger] after.drop_last()[i] is Append by {
                assert(after.drop_last()[i] == after[i]);
            }
        }
        lemma_aggressive_is_one_full_replace(state, before, document, after.drop_last(), now);
        assert((head + after).drop_last() =~= head + after.drop_last());
        assert((head + after).last() == after.last());
        assert(after[after.len() - 1] is Append);
    }
}

/// A batch of appends that carries markdown is applied, by the incremental
/// strategy, as one append: the markdown of the batch and its HTML, each
/// concatenated in order.
pub proof fn lemma_incremental_is_one_append(state: DelegateState, batch: Seq<ContentUpdateView>, now: u64)
    requires
        only_appends(batch),
        appended_markdown(batch).len() > 0,
    ensures
        coalesced(batch) == seq![
            ContentUpdateView::Append {
                markdown: appended_markdown(batch),
                html: appended_html(batch),
            },
        ],
        incremental(state, batch, now) == apply_update(
            state,
            ContentUpdateView::Append {
                markdown: appended_markdown(batch),
                html: appended_html(batch),
            },
            now,
        ),
{
    lemma_coalesce_fold_of_appends(batch);
    let merged = ContentUpdateView::Append {
        markdown: appended_markdown(batch),
        html: appended_html(batch),
    };
    assert(coalesced(batch) =~= seq![merged]);
    assert(seq![merged].drop_last() =~= Seq::<ContentUpdateView>::empty());
    assert(seq![merged].last() == merged);
    let applied = apply_update(state, merged, now);
    assert(Seq::<DelegateActionView>::empty() + applied.1 =~= applied.1);
    reveal_with_fuel(apply_all, 2);
}

/// A batch of appends is merged into one open run.
pub proof fn lemma_coalesce_fold_of_appends(batch: Seq<ContentUpdateView>)
    requires
        only_appends(batch),
    ensures
        coalesce_fold(batch) == (Coalescing {
            merged: Seq::empty(),
            markdown: appended_markdown(batch),
            html: appended_html(batch),
        }),
    decreases batch.len(),
{
    if batch.len() > 0 {
        assert(only_appends(batch.drop_last())) by {
            assert forall|i: int| 0 <= i < batch.drop_last().len() implies #[trigger] batch.drop_last()[i] is Append by {
                assert(batch.drop_last()[i] == batch[i]);
            }
        }
        lemma_coalesce_fold_of_appends(batch.drop_last());
        assert(batch[batch.len() - 1] is Append);
    }
}

/// Looking at the pending batch loses nothing: the document and the
/// updates still pending accumulate to the same markdown before and after.
pub proof fn lemma_processed_conserves(state: DelegateState, now: u64)
    requires
        well_formed(state),
    ensures
        well_formed(processed(state, now).0),
        accumulated_markdown(
            held_markdown(processed(state, now).0),
            processed(state, now).0.pending_batch,
        ) == accumulated_markdown(held_markdown(state), state.pending_batch),
{
    if should_process(state, now) && state.pending_batch.len() > 0 {
        let taken = DelegateState { pending_batch: Seq::empty(), ..state };
        lemma_incremental_accumulates(taken, state.pending_batch, now);
        lemma_aggressive_accumulates(taken, state.pending_batch, now);
    }
}

/// Taking updates from the queue only moves them: the pending batch and
/// the queue, one after the other, hold the same updates before and after.
pub proof fn lemma_collected_conserves(state: DelegateState, queue: Seq<ContentUpdateView>, taken: nat, now: u64)
    ensures
        collected(state, queue, taken, now).0.pending_batch + collected(state, queue, taken, now).1
            == state.pending_batch + queue,
        collected(state, queue, taken, now).0.document == state.document,
        collected(state, queue, taken, now).0.view == state.view,
        collected(state, queue, taken, now).0.has_window == state.has_window,
    decreases queue.len(),
{
    if queue.len() > 0 {
        let next = DelegateState {
            pending_batch: state.pending_batch.push(queue[0]),
            rate: observed(state.rate, now),
            ..state
        };
        let rest = queue.subrange(1, queue.len() as int);
        assert(next.pending_batch + rest =~= state.pending_batch + queue);
        if taken + 1 < max_batch_size(next.rate.category) {
            lemma_collected_conserves(next, rest, taken + 1, now);
        }
    } else {
        assert(state.pending_batch + queue =~= state.pending_batch + queue);
    }
}

/// A menu message changes neither the markdown of the document nor the
/// pending batch.
pub proof fn lemma_menu_step_keeps_text(state: DelegateState, message: MenuMessage)
    requires
        well_formed(state),
    ensures
        well_formed(menu_step(state, message).0),
        held_markdown(menu_step(state, message).0) == held_markdown(state),
        menu_step(state, message).0.pending_batch == state.pending_batch,
{
}

pub proof fn lemma_menu_fold_keeps_text(state: DelegateState, messages: Seq<MenuMessage>)
    requires
        well_formed(state),
    ensures
        well_formed(menu_fold(state, messages).0),
        held_markdown(menu_fold(state, messages).0) == held_markdown(state),
        menu_fold(state, messages).0.pending_batch == state.pending_batch,
    decreases messages.len(),
{
    if messages.len() > 0 {
        lemma_menu_fold_keeps_text(state, messages.drop_last());
        lemma_menu_step_keeps_text(menu_fold(state, messages.drop_last()).0, messages.last());
    }
}

/// A tick neither loses nor repeats nor reorders text: the document, the
/// pending batch and the queue accumulate to the same markdown after the
/// tick as before it, whatever the rate and the strategy.
pub proof fn lemma_tick_conserves(
    state: DelegateState,
    messages: Seq<MenuMessage>,
    queue: Seq<ContentUpdateView>,
    now: u64,
)
    requires
        well_formed(state),
    ensures
        well_formed(ticked(state, messages, queue, now).0),
        accumulated_markdown(
            held_markdown(ticked(state, messages, queue, now).0),
            ticked(state, messages, queue, now).0.pending_batch + ticked(
                state,
                messages,
                queue,
                now,
            ).1,
        ) == accumulated_markdown(held_markdown(state), state.pending_batch + queue),
{
    lemma_menu_fold_keeps_text(state, messages);
    let answered = menu_fold(state, messages).0;
    lemma_collected_conserves(answered, queue, 0, now);
    let (gathered, rest) = collected(answered, queue, 0, now);
    assert(well_formed(gathered));
    lemma_processed_conserves(gathered, now);
    let end = processed(gathered, now).0;
    lemma_accumulated_concat(held_markdown(end), end.pending_batch, rest);
    lemma_accumulated_concat(held_markdown(gathered), gathered.pending_batch, rest);
}

/// A document that was rebuilt or rendered anew is consistent: its HTML is
/// the render of its markdown under its own theme. Imposing preferences on
/// a consistent document leaves it consistent.
pub proof fn lemma_rendering_is_consistent(document: DocumentView, tail: Seq<char>, preferences: StylePreferences)
    ensures
        rerendered(document).is_consistent(),
        rebuilt(document, tail).is_consistent(),
        document.is_consistent() ==> imposed(document, preferences).is_consistent(),
        imposed(document, preferences).style_preferences == preferences,
        imposed(document, preferences).markdown == document.markdown,
{
}

/// After a change of preferences the document, if there is one, is
/// rendered under the preferences in force.
pub proof fn lemma_restyled_is_consistent(state: DelegateState, preferences: StylePreferences)
    ensures
        match with_preferences(state, preferences).0.document {
            Some(document) => document.is_consistent() && document.style_preferences
                == preferences,
            None => state.document is None,
        },
        with_preferences(state, preferences).0.style_preferences == preferences,
{
}

/// The delegate starts out well formed.
pub proof fn lemma_initial_delegate_well_formed(is_pipe_mode: bool, preferences: StylePreferences, now: u64)
    ensures
        well_formed(initial_delegate(is_pipe_mode, preferences, now)),
{
}

pub proof fn lemma_action_views_push(actions: Seq<DelegateAction>, action: DelegateAction)
    ensures
        action_views(actions.push(action)) == action_views(actions).push(action@),
{
    assert(action_views(actions.push(action)) =~= action_views(actions).push(action@));
}

pub proof fn lemma_update_views_push(updates: Seq<ContentUpdate>, update: ContentUpdate)
    ensures
        update_views(updates.push(update)) == update_views(updates).push(update@),
{
    assert(update_views(updates.push(update)) =~= update_views(updates).push(update@));
}

/// Merges every run of consecutive appends in `batch` into one append.
pub fn coalesce_appends(batch: Vec<ContentUpdate>) -> (merged: Vec<ContentUpdate>)
    ensures
        update_views(merged@) == coalesced(update_views(batch@)),
{
    let ghost views = update_views(batch@);
    let mut merged: Vec<ContentUpdate> = Vec::new();
    let mut current_markdown = String::new();
    let mut current_html = String::new();
    let mut i: usize = 0;
    proof {
        assert(update_views(merged@) =~= Seq::<ContentUpdateView>::empty());
    }
    while i < batch.len()
        invariant
            i <= batch.len(),
            views == update_views(batch@),
            coalesce_fold(views.take(i as int)) == (Coalescing {
                merged: update_views(merged@),
                markdown: current_markdown@,
                html: current_html@,
            }),
        decreases batch.len() - i,
    {
        proof {
            assert(views.take(i + 1).drop_last() =~= views.take(i as int));
            assert(views.take(i + 1).last() == batch@[i as int]@);
        }
        match &batch[i] {
            ContentUpdate::FullReplace(content) => {
                if !current_markdown.as_str().is_empty() {
                    let run = ContentUpdate::Append { markdown: current_markdown, html: current_html };
                    proof {
                        lemma_update_views_push(merged@, run);
                    }
                    merged.push(run);
                }
                current_markdown = String::new();
                current_html = String::new();
                let replace = ContentUpdate::FullReplace(content.clone());
                proof {
                    lemma_update_views_push(merged@, replace);
                }
                merged.push(replace);
            },
            ContentUpdate::Append { markdown, html } => {
                current_markdown.append(markdown.as_str());
                current_html.append(html.as_str());
            },
        }
        i += 1;
    }
    proof {
        assert(views.take(batch.len() as int) =~= views);
    }
    if !current_markdown.as_str().is_empty() {
        let run = ContentUpdate::Append { markdown: current_markdown, html: current_html };
        proof {
            lemma_update_views_push(merged@, run);
        }
        merged.push(run);
    }
    merged
}

/// Reduces `batch` to its last full replace, if it has one, and the
/// markdown of the appends after it.
pub fn reduce_batch(batch: Vec<ContentUpdate>) -> (reduction: (Option<DocumentContent>, String))
    ensures
        reduced(update_views(batch@)) == (Reduction {
            base: match reduction.0 {
                Some(document) => Some(document@),
                None => None,
            },
            tail: reduction.1@,
        }),
{
    let ghost views = update_views(batch@);
    let mut final_markdown = String::new();
    let mut base_content: Option<DocumentContent> = None;
    let mut i: usize = 0;
    while i < batch.len()
        invariant
            i <= batch.len(),
            views == update_views(batch@),
            reduced(views.take(i as int)) == (Reduction {
                base: match base_content {
                    Some(document) => Some(document@),
                    None => None,
                },
                tail: final_markdown@,
            }),
        decreases batch.len() - i,
    {
        proof {
            assert(views.take(i + 1).drop_last() =~= views.take(i as int));
            assert(views.take(i + 1).last() == batch@[i as int]@);
        }
        match &batch[i] {
            ContentUpdate::FullReplace(content) => {
                base_content = Some(content.clone());
                final_markdown = String::new();
            },
            ContentUpdate::Append { markdown, .. } => {
                final_markdown.append(markdown.as_str());
            },
        }
        i += 1;
    }
    proof {
        assert(views.take(batch.len() as int) =~= views);
    }
    (base_content, final_markdown)
}

/// Whether `batch` holds a full replace.
pub fn holds_full_replace(batch: &Vec<ContentUpdate>) -> (found: bool)
    ensures
        found == has_full_replace(update_views(batch@)),
{
    let ghost views = update_views(batch@);
    let mut i: usize = 0;
    while i < batch.len()
        invariant
            i <= batch.len(),
            views == update_views(batch@),
            forall|k: int| 0 <= k < i ==> !(#[trigger] views[k] is FullReplace),
        decreases batch.len() - i,
    {
        match &batch[i] {
            ContentUpdate::FullReplace(_) => {
                proof {
                    assert(views[i as int] is FullReplace);
                }
                return true;
            },
            ContentUpdate::Append { .. } => {},
        }
        i += 1;
    }
    false
}

/// Handles the window, the document and the updates that build it.
pub struct GuiDelegate {
    has_window: bool,
    view: MarkdownView,
    menu_setup: bool,
    current_document: Option<DocumentContent>,
    is_pipe_mode: bool,
    style_preferences: StylePreferences,
    last_update_time: u64,
    pending_batch: Vec<ContentUpdate>,
    classifier: RateClassifier,
}

impl View for GuiDelegate {
    type V = DelegateState;

    closed spec fn view(&self) -> DelegateState {
        DelegateState {
            has_window: self.has_window,
            menu_setup: self.menu_setup,
            is_pipe_mode: self.is_pipe_mode,
            document: match self.current_document {
                Some(document) => Some(document@),
                None => None,
            },
            style_preferences: self.style_preferences,
            last_update_time: self.last_update_time,
            pending_batch: update_views(self.pending_batch@),
            rate: self.classifier@,
            view: self.view@,
        }
    }
}

impl GuiDelegate {
    /// A delegate without window or document, created at `now` with the
    /// stored preferences.
    pub fn new(is_pipe_mode: bool, style_preferences: StylePreferences, now: u64) -> (delegate:
        GuiDelegate)
        ensures
            delegate@ == initial_delegate(is_pipe_mode, style_preferences, now),
            well_formed(delegate@),
    {
        let delegate = GuiDelegate {
            has_window: false,
            view: MarkdownView::new(now),
            menu_setup: false,
            current_document: None,
            is_pipe_mode,
            style_preferences,
            last_update_time: now,
            pending_batch: Vec::new(),
            classifier: RateClassifier::new(),
        };
        proof {
            assert(update_views(delegate.pending_batch@) =~= Seq::<ContentUpdateView>::empty());
        }
        delegate
    }

    /// The accumulated document, once there is one.
    pub fn current_document(&self) -> (document: Option<&DocumentContent>)
        ensures
            match document {
                Some(held) => self@.document == Some(held@),
                None => self@.document is None,
            },
    {
        self.current_document.as_ref()
    }

    /// The preferences in force.
    pub fn style_preferences(&self) -> (preferences: StylePreferences)
        ensures
            preferences == self@.style_preferences,
    {
        self.style_preferences
    }

    /// The rate category in force.
    pub fn rate_category(&self) -> (category: InputRateCategory)
        ensures
            category == self@.rate.category,
    {
        self.classifier.category()
    }

    /// The number of updates taken from the queue and not yet processed.
    pub fn pending_count(&self) -> (count: usize)
        ensures
            count == self@.pending_batch.len(),
    {
        self.pending_batch.len()
    }

    /// Whether the window has been opened.
    pub fn has_window(&self) -> (open: bool)
        ensures
            open == self@.has_window,
    {
        self.has_window
    }

    /// The mode the surface is in.
    pub fn view_mode(&self) -> (mode: ViewMode)
        ensures
            mode == self@.view.current_mode,
    {
        self.view.current_mode()
    }

    /// Opens the window where it is not open, asking for the menu bar first.
    fn open_window(&mut self, size: Option<WindowSize>, actions: &mut Vec<DelegateAction>)
        ensures
            final(self)@ == with_open_window(old(self)@),
            action_views(final(actions)@) == action_views(old(actions)@) + open_window_actions(
                old(self)@,
                size,
            ),
    {
        if !self.has_window {
            if !self.menu_setup {
                proof {
                    lemma_action_views_push(actions@, DelegateAction::SetupMenu);
                }
                actions.push(DelegateAction::SetupMenu);
                self.menu_setup = true;
            }
            let create = match size {
                Some(chosen) => DelegateAction::CreateWindow(chosen),
                None => DelegateAction::CreateEmptyWindow,
            };
            proof {
                lemma_action_views_push(actions@, create);
            }
            actions.push(create);
            self.has_window = true;
        }
        proof {
            assert(action_views(actions@) =~= action_views(old(actions)@) + open_window_actions(
                old(self)@,
                size,
            ));
        }
    }

    /// Changes between preview and source.
    pub fn toggle_mode(&mut self) -> (actions: Vec<DelegateAction>)
        ensures
            final(self)@ == menu_step(old(self)@, MenuMessage::ToggleMode).0,
            action_views(actions@) == menu_step(old(self)@, MenuMessage::ToggleMode).1,
    {
        let preferences = self.style_preferences;
        let action = self.view.toggle_mode(&preferences);
        let mut actions: Vec<DelegateAction> = Vec::new();
        actions.push(DelegateAction::View(action));
        proof {
            assert(action_views(actions@) =~= menu_step(old(self)@, MenuMessage::ToggleMode).1);
        }
        actions
    }

    /// Puts `preferences` in force: they are stored, imposed on the
    /// document and the surface is reloaded.
    fn change_preferences(&mut self, preferences: StylePreferences) -> (actions: Vec<DelegateAction>)
        ensures
            final(self)@ == with_preferences(old(self)@, preferences).0,
            action_views(actions@) == with_preferences(old(self)@, preferences).1,
    {
        self.style_preferences = preferences;
        let mut actions: Vec<DelegateAction> = Vec::new();
        actions.push(DelegateAction::SavePreferences(preferences));
        proof {
            assert(action_views(actions@) =~= seq![DelegateActionView::SavePreferences(preferences)]);
        }
        self.update_content_with_new_styles(&mut actions);
        actions
    }

    /// Changes the font family.
    pub fn set_font_family(&mut self, font_family: FontFamily) -> (actions: Vec<DelegateAction>)
        ensures
            final(self)@ == menu_step(old(self)@, MenuMessage::SetFontFamily(font_family)).0,
            action_views(actions@) == menu_step(
                old(self)@,
                MenuMessage::SetFontFamily(font_family),
            ).1,
    {
        let mut preferences = self.style_preferences;
        preferences.font_family = font_family;
        self.change_preferences(preferences)
    }

    /// Moves the font size one step up.
    pub fn increase_font_size(&mut self) -> (actions: Vec<DelegateAction>)
        ensures
            final(self)@ == menu_step(old(self)@, MenuMessage::IncreaseFontSize).0,
            action_views(actions@) == menu_step(old(self)@, MenuMessage::IncreaseFontSize).1,
    {
        let mut preferences = self.style_preferences;
        preferences.increase_font_size();
        self.change_preferences(preferences)
    }

    /// Moves the font size one step down.
    pub fn decrease_font_size(&mut self) -> (actions: Vec<DelegateAction>)
        ensures
            final(self)@ == menu_step(old(self)@, MenuMessage::DecreaseFontSize).0,
            action_views(actions@) == menu_step(old(self)@, MenuMessage::DecreaseFontSize).1,
    {
        let mut preferences = self.style_preferences;
        preferences.decrease_font_size();
        self.change_preferences(preferences)
    }

    /// Returns the font size to its default.
    pub fn reset_font_size(&mut self) -> (actions: Vec<DelegateAction>)
        ensures
            final(self)@ == menu_step(old(self)@, MenuMessage::ResetFontSize).0,
            action_views(actions@) == menu_step(old(self)@, MenuMessage::ResetFontSize).1,
    {
        let mut preferences = self.style_preferences;
        preferences.reset_font_size();
        self.change_preferences(preferences)
    }

    /// Changes the theme.
    pub fn set_theme(&mut self, theme: ThemeMode) -> (actions: Vec<DelegateAction>)
        ensures
            final(self)@ == menu_step(old(self)@, MenuMessage::SetTheme(theme)).0,
            action_views(actions@) == menu_step(old(self)@, MenuMessage::SetTheme(theme)).1,
    {
        let mut preferences = self.style_preferences;
        preferences.theme = theme;
        self.change_preferences(preferences)
    }

    /// Imposes the preferences in force on the document and reloads the
    /// surface.
    fn update_content_with_new_styles(&mut self, actions: &mut Vec<DelegateAction>)
        ensures
            final(self)@ == restyled(old(self)@).0,
            action_views(final(actions)@) == action_views(old(actions)@) + restyled(old(self)@).1,
    {
        match self.current_document.take() {
            Some(mut document) => {
                document.style_preferences = self.style_preferences;
                document.regenerate_html();
                let action = self.view.update_content(&document);
                proof {
                    lemma_action_views_push(actions@, DelegateAction::View(action));
                }
                actions.push(DelegateAction::View(action));
                self.current_document = Some(document);
                proof {
                    assert(action_views(actions@) =~= action_views(old(actions)@) + restyled(
                        old(self)@,
                    ).1);
                }
            },
            None => {
                proof {
                    assert(action_views(actions@) =~= action_views(old(actions)@) + restyled(
                        old(self)@,
                    ).1);
                }
            },
        }
    }

    /// Answers one menu message.
    pub fn handle_menu_message(&mut self, message: MenuMessage) -> (actions: Vec<DelegateAction>)
        ensures
            well_formed(old(self)@) ==> well_formed(final(self)@),
            final(self)@ == menu_step(old(self)@, message).0,
            action_views(actions@) == menu_step(old(self)@, message).1,
    {
        proof {
            if well_formed(self@) {
                lemma_menu_step_keeps_text(self@, message);
            }
        }
        match message {
            MenuMessage::ToggleMode => self.toggle_mode(),
            MenuMessage::Copy => {
                let actions: Vec<DelegateAction> = Vec::new();
                proof {
                    assert(action_views(actions@) =~= Seq::<DelegateActionView>::empty());
                }
                actions
            },
            MenuMessage::SelectAll => {
                let actions: Vec<DelegateAction> = Vec::new();
                proof {
                    assert(action_views(actions@) =~= Seq::<DelegateActionView>::empty());
                }
                actions
            },
            MenuMessage::SetFontFamily(font_family) => self.set_font_family(font_family),
            MenuMessage::IncreaseFontSize => self.increase_font_size(),
            MenuMessage::DecreaseFontSize => self.decrease_font_size(),
            MenuMessage::ResetFontSize => self.reset_font_size(),
            MenuMessage::SetTheme(theme) => self.set_theme(theme),
        }
    }

    /// Takes in an arrival at `now` and derives the rate anew.
    pub fn detect_and_update_rate_category(&mut self, now: u64)
        ensures
            final(self)@ == (DelegateState { rate: observed(old(self)@.rate, now), ..old(self)@ }),
    {
        self.classifier.observe(now);
    }

    /// Nanoseconds that pass between two rounds of processing at the
    /// current rate.
    pub fn get_processing_window(&self) -> (window: u64)
        ensures
            window == processing_window(self@.rate.category),
    {
        self.classifier.category().processing_window()
    }

    /// Applies one update to the document.
    pub fn process_content_update(&mut self, content_update: ContentUpdate, now: u64) -> (actions: Vec<
        DelegateAction,
    >)
        ensures
            well_formed(old(self)@) ==> well_formed(final(self)@),
            final(self)@ == apply_update(old(self)@, content_update@, now).0,
            action_views(actions@) == apply_update(old(self)@, content_update@, now).1,
    {
        proof {
            if well_formed(self@) {
                lemma_apply_update_accumulates(self@, content_update@, now);
            }
        }
        let mut actions: Vec<DelegateAction> = Vec::new();
        proof {
            assert(action_views(actions@) =~= Seq::<DelegateActionView>::empty());
        }
        self.apply(content_update, now, &mut actions);
        proof {
            assert(Seq::<DelegateActionView>::empty() + apply_update(
                old(self)@,
                content_update@,
                now,
            ).1 =~= apply_update(old(self)@, content_update@, now).1);
        }
        actions
    }

    fn apply(&mut self, content_update: ContentUpdate, now: u64, actions: &mut Vec<DelegateAction>)
        ensures
            final(self)@ == apply_update(old(self)@, content_update@, now).0,
            action_views(final(actions)@) == action_views(old(actions)@) + apply_update(
                old(self)@,
                content_update@,
                now,
            ).1,
    {
        match content_update {
            ContentUpdate::FullReplace(mut content) => {
                if content.style_preferences != self.style_preferences {
                    content.style_preferences = self.style_preferences;
                    content.regenerate_html();
                }
                let size = calculate_window_size(&content, self.is_pipe_mode);
                self.open_window(Some(size), actions);
                let scroll_behavior = if self.is_pipe_mode {
                    ScrollBehavior::Bottom
                } else {
                    ScrollBehavior::Top
                };
                let action = self.view.update_content_with_scroll(&content, scroll_behavior);
                proof {
                    lemma_action_views_push(actions@, DelegateAction::View(action));
                }
                actions.push(DelegateAction::View(action));
                self.current_document = Some(content);
                proof {
                    assert(action_views(actions@) =~= action_views(old(actions)@) + apply_update(
                        old(self)@,
                        content_update@,
                        now,
                    ).1);
                }
            },
            ContentUpdate::Append { markdown, html } => {
                if self.has_window {
                    match self.current_document.take() {
                        Some(mut document) => {
                            document.markdown.append(markdown.as_str());
                            document.html.append(html.as_str());
                            let preferences = self.style_preferences;
                            let told = self.view.append_content(
                                markdown.as_str(),
                                html.as_str(),
                                &preferences,
                                now,
                            );
                            match told {
                                Some(action) => {
                                    proof {
                                        lemma_action_views_push(
                                            actions@,
                                            DelegateAction::View(action),
                                        );
                                    }
                                    actions.push(DelegateAction::View(action));
                                },
                                None => {},
                            }
                            self.current_document = Some(document);
                        },
                        None => {},
                    }
                } else {
                    self.open_window(None, actions);
                }
                proof {
                    assert(action_views(actions@) =~= action_views(old(actions)@) + apply_update(
                        old(self)@,
                        content_update@,
                        now,
                    ).1);
                }
            },
        }
    }

    /// Applies a batch at a manageable rate: runs of appends are merged,
    /// then each update is applied in turn.
    pub fn process_updates_incrementally(&mut self, batched_updates: Vec<ContentUpdate>, now: u64) -> (actions:
        Vec<DelegateAction>)
        ensures
            well_formed(old(self)@) ==> well_formed(final(self)@),
            final(self)@ == incremental(old(self)@, update_views(batched_updates@), now).0,
            action_views(actions@) == incremental(old(self)@, update_views(batched_updates@), now).1,
    {
        proof {
            if well_formed(self@) {
                lemma_incremental_accumulates(self@, update_views(batched_updates@), now);
            }
        }
        let combined = coalesce_appends(batched_updates);
        let ghost views = update_views(combined@);
        let mut actions: Vec<DelegateAction> = Vec::new();
        let mut i: usize = 0;
        proof {
            assert(action_views(actions@) =~= Seq::<DelegateActionView>::empty());
        }
        while i < combined.len()
            invariant
                i <= combined.len(),
                views == update_views(combined@),
                apply_all(old(self)@, views.take(i as int), now) == (self@, action_views(actions@)),
            decreases combined.len() - i,
        {
            proof {
                assert(views.take(i + 1).drop_last() =~= views.take(i as int));
                assert(views.take(i + 1).last() == combined@[i as int]@);
            }
            self.apply(combined[i].clone(), now, &mut actions);
            i += 1;
        }
        proof {
            assert(views.take(combined.len() as int) =~= views);
        }
        actions
    }

    /// Applies a batch at a high rate: the batch is reduced to one full
    /// rebuild, and what came before its last full replace is dropped.
    pub fn process_updates_aggressively(&mut self, batched_updates: Vec<ContentUpdate>, now: u64) -> (actions:
        Vec<DelegateAction>)
        ensures
            well_formed(old(self)@) ==> well_formed(final(self)@),
            final(self)@ == aggressive(old(self)@, update_views(batched_updates@), now).0,
            action_views(actions@) == aggressive(old(self)@, update_views(batched_updates@), now).1,
    {
        proof {
            if well_formed(self@) {
                lemma_aggressive_accumulates(self@, update_views(batched_updates@), now);
            }
        }
        let reduction = reduce_batch(batched_updates);
        let final_markdown = reduction.1;
        let mut actions: Vec<DelegateAction> = Vec::new();
        proof {
            assert(action_views(actions@) =~= Seq::<DelegateActionView>::empty());
        }
        match reduction.0 {
            Some(mut content) => {
                content.markdown.append(final_markdown.as_str());
                content.regenerate_html();
                let ghost rebuilt_view = content@;
                self.apply(ContentUpdate::FullReplace(content), now, &mut actions);
                proof {
                    assert(Seq::<DelegateActionView>::empty() + apply_update(
                        old(self)@,
                        ContentUpdateView::FullReplace(rebuilt_view),
                        now,
                    ).1 =~= apply_update(
                        old(self)@,
                        ContentUpdateView::FullReplace(rebuilt_view),
                        now,
                    ).1);
                }
            },
            None => {
                if !final_markdown.as_str().is_empty() {
                    match self.current_document.take() {
                        Some(mut document) => {
                            document.markdown.append(final_markdown.as_str());
                            document.regenerate_html();
                            let action = self.view.update_content_with_scroll(
                                &document,
                                ScrollBehavior::Bottom,
                            );
                            actions.push(DelegateAction::View(action));
                            self.current_document = Some(document);
                            proof {
                                assert(action_views(actions@) =~= aggressive(
                                    old(self)@,
                                    update_views(batched_updates@),
                                    now,
                                ).1);
                            }
                        },
                        None => {},
                    }
                }
            },
        }
        actions
    }

    /// Takes updates from the queue, each one an arrival at `now`, up to
    /// the batch size of the current rate.
    pub fn collect_updates(&mut self, queue: &mut PendingQueue, now: u64)
        ensures
            well_formed(old(self)@) ==> well_formed(final(self)@),
            final(self)@ == collected(old(self)@, old(queue)@, 0, now).0,
            final(queue)@ == collected(old(self)@, old(queue)@, 0, now).1,
    {
        let mut taken: usize = 0;
        loop
            invariant
                taken <= 200,
                collected(old(self)@, old(queue)@, 0, now) == collected(self@, queue@, taken as nat, now),
                self@.document == old(self)@.document,
                self@.view == old(self)@.view,
                self@.has_window == old(self)@.has_window,
            decreases queue@.len(),
        {
            match queue.pop() {
                Some(update) => {
                    proof {
                        lemma_update_views_push(self.pending_batch@, update);
                    }
                    self.pending_batch.push(update);
                    self.classifier.observe(now);
                    taken += 1;
                    if taken >= self.classifier.category().max_batch_size() {
                        return ;
                    }
                },
                None => {
                    return ;
                },
            }
        }
    }

    /// Looks at the pending batch: where it is due it is processed by the
    /// strategy of the current rate, where not it is kept.
    pub fn process_pending(&mut self, now: u64) -> (actions: Vec<DelegateAction>)
        ensures
            well_formed(old(self)@) ==> well_formed(final(self)@),
            final(self)@ == processed(old(self)@, now).0,
            action_views(actions@) == processed(old(self)@, now).1,
    {
        proof {
            if well_formed(self@) {
                lemma_processed_conserves(self@, now);
            }
        }
        let time_since_last_update = elapsed_since(now, self.last_update_time);
        let category = self.classifier.category();
        let should_process = time_since_last_update >= category.processing_window()
            || holds_full_replace(&self.pending_batch) || (category == InputRateCategory::Extreme
            && self.pending_batch.len() > OVERFLOW_BATCH);
        if should_process && self.pending_batch.len() > 0 {
            let mut batched_updates: Vec<ContentUpdate> = Vec::new();
            std::mem::swap(&mut batched_updates, &mut self.pending_batch);
            proof {
                assert(update_views(self.pending_batch@) =~= Seq::<ContentUpdateView>::empty());
            }
            let actions = match category.strategy() {
                ProcessingStrategy::Incremental => self.process_updates_incrementally(
                    batched_updates,
                    now,
                ),
                ProcessingStrategy::Aggressive => self.process_updates_aggressively(
                    batched_updates,
                    now,
                ),
            };
            self.last_update_time = now;
            actions
        } else {
            let actions: Vec<DelegateAction> = Vec::new();
            proof {
                assert(action_views(actions@) =~= Seq::<DelegateActionView>::empty());
            }
            actions
        }
    }

    /// One tick of the consumer: answers the menu messages, takes updates
    /// from the queue and processes the pending batch where it is due.
    pub fn did_update(&mut self, messages: Vec<MenuMessage>, queue: &mut PendingQueue, now: u64) -> (actions:
        Vec<DelegateAction>)
        ensures
            well_formed(old(self)@) ==> well_formed(final(self)@),
            final(self)@ == ticked(old(self)@, messages@, old(queue)@, now).0,
            final(queue)@ == ticked(old(self)@, messages@, old(queue)@, now).1,
            action_views(actions@) == ticked(old(self)@, messages@, old(queue)@, now).2,
    {
        proof {
            if well_formed(self@) {
                lemma_tick_conserves(self@, messages@, queue@, now);
            }
        }
        let mut actions: Vec<DelegateAction> = Vec::new();
        let mut i: usize = 0;
        proof {
            assert(action_views(actions@) =~= Seq::<DelegateActionView>::empty());
        }
        while i < messages.len()
            invariant
                i <= messages.len(),
                menu_fold(old(self)@, messages@.take(i as int)) == (self@, action_views(actions@)),
            decreases messages.len() - i,
        {
            proof {
                assert(messages@.take(i + 1).drop_last() =~= messages@.take(i as int));
            }
            let mut answered = self.handle_menu_message(messages[i]);
            extend_actions(&mut actions, &mut answered);
            i += 1;
        }
        proof {
            assert(messages@.take(messages.len() as int) =~= messages@);
        }
        self.collect_updates(queue, now);
        let mut handled = self.process_pending(now);
        extend_actions(&mut actions, &mut handled);
        actions
    }
}

/// Moves all of `more` behind `actions`.
fn extend_actions(actions: &mut Vec<DelegateAction>, more: &mut Vec<DelegateAction>)
    ensures
        action_views(final(actions)@) == action_views(old(actions)@) + action_views(old(more)@),
{
    actions.append(more);
    proof {
        assert(action_views(actions@) =~= action_views(old(actions)@) + action_views(old(more)@));
    }
}

} // verus!
