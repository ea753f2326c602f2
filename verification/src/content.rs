//! The document and the updates that build it.

use crate::gui::types::{default_preferences, StylePreferences};
use crate::markdown::parser::{parse_markdown_with_theme, rendered_html};
use vstd::prelude::*;

verus! {

/// How the document is shown: rendered, or as highlighted source.
#[derive(Clone, Copy, Debug, PartialEq, Eq, Structural)]
pub enum ViewMode {
    Preview,
    Source,
}

impl Default for ViewMode {
    fn default() -> (mode: ViewMode)
        ensures
            mode == ViewMode::Preview,
    {
        ViewMode::Preview
    }
}

/// The accumulated document: its markdown, the HTML shown for it, and the
/// preferences the HTML is rendered under.
#[derive(Debug)]
pub struct DocumentContent {
    pub markdown: String,
    pub html: String,
    pub mode: ViewMode,
    pub title: String,
    pub file_path: Option<String>,
    pub style_preferences: StylePreferences,
}

pub struct DocumentView {
    pub markdown: Seq<char>,
    pub html: Seq<char>,
    pub mode: ViewMode,
    pub title: Seq<char>,
    pub file_path: Option<Seq<char>>,
    pub style_preferences: StylePreferences,
}

impl View for DocumentContent {
    type V = DocumentView;

    open spec fn view(&self) -> DocumentView {
        DocumentView {
            markdown: self.markdown@,
            html: self.html@,
            mode: self.mode,
            title: self.title@,
            file_path: match self.file_path {
                Some(path) => Some(path@),
                None => None,
            },
            style_preferences: self.style_preferences,
        }
    }
}

impl DocumentView {
    /// The HTML is the render of the markdown under the document's theme.
    pub open spec fn is_consistent(self) -> bool {
        self.html == rendered_html(self.markdown, self.style_preferences.theme)
    }
}

impl Clone for DocumentContent {
    fn clone(&self) -> (copy: DocumentContent)
        ensures
            copy@ == self@,
    {
        DocumentContent {
            markdown: self.markdown.clone(),
            html: self.html.clone(),
            mode: self.mode,
            title: self.title.clone(),
            file_path: match &self.file_path {
                Some(path) => Some(path.clone()),
                None => None,
            },
            style_preferences: self.style_preferences,
        }
    }
}

impl DocumentContent {
    /// A document in preview mode with the default preferences.
    pub fn new(markdown: String, html: String, title: String, file_path: Option<String>) -> (document:
        DocumentContent)
        ensures
            document@ == (DocumentView {
                markdown: markdown@,
                html: html@,
                mode: ViewMode::Preview,
                title: title@,
                file_path: match file_path {
                    Some(path) => Some(path@),
                    None => None,
                },
                style_preferences: default_preferences(),
            }),
    {
        DocumentContent {
            markdown,
            html,
            mode: ViewMode::default(),
            title,
            file_path,
            style_preferences: StylePreferences::default(),
        }
    }

    /// Renders the HTML anew from the markdown, under the document's theme.
    pub fn regenerate_html(&mut self)
        ensures
            final(self)@ == (DocumentView {
                html: rendered_html(old(self)@.markdown, old(self)@.style_preferences.theme),
                ..old(self)@
            }),
            final(self)@.is_consistent(),
    {
        self.html = parse_markdown_with_theme(self.markdown.as_str(), &self.style_preferences.theme);
    }
}

/// One step in building the document.
#[derive(Debug)]
pub enum ContentUpdate {
    /// Replaces the whole document.
    FullReplace(DocumentContent),
    /// Adds a markdown chunk, and the HTML rendered for it alone, at the end.
    Append { markdown: String, html: String },
}

pub enum ContentUpdateView {
    FullReplace(DocumentView),
    Append { markdown: Seq<char>, html: Seq<char> },
}

impl View for ContentUpdate {
    type V = ContentUpdateView;

    open spec fn view(&self) -> ContentUpdateView {
        match self {
            ContentUpdate::FullReplace(document) => ContentUpdateView::FullReplace(document@),
            ContentUpdate::Append { markdown, html } => ContentUpdateView::Append {
                markdown: markdown@,
                html: html@,
            },
        }
    }
}

impl Clone for ContentUpdate {
    fn clone(&self) -> (copy: ContentUpdate)
        ensures
            copy@ == self@,
    {
        match self {
            ContentUpdate::FullReplace(document) => ContentUpdate::FullReplace(document.clone()),
            ContentUpdate::Append { markdown, html } => ContentUpdate::Append {
                markdown: markdown.clone(),
                html: html.clone(),
            },
        }
    }
}

/// The views of a sequence of updates.
pub open spec fn update_views(updates: Seq<ContentUpdate>) -> Seq<ContentUpdateView> {
    updates.map_values(|u: ContentUpdate| u@)
}

/// The markdown a consumer holds after applying `updates` in order, where
/// it held `base` before (`None`: no document yet). A full replace starts
/// over with its own markdown; an append adds its chunk at the end of the
/// document, and is lost where there is no document.
pub open spec fn accumulated_markdown(base: Option<Seq<char>>, updates: Seq<ContentUpdateView>) -> Option<
    Seq<char>,
>
    decreases updates.len(),
{
    if updates.len() == 0 {
        base
    } else {
        match updates.last() {
            ContentUpdateView::FullReplace(document) => Some(document.markdown),
            ContentUpdateView::Append { markdown, .. } => match accumulated_markdown(
                base,
                updates.drop_last(),
            ) {
                Some(held) => Some(held + markdown),
                None => None,
            },
        }
    }
}

/// The text of a document that may be absent: nothing where it is.
pub open spec fn text_or_empty(text: Option<Seq<char>>) -> Seq<char> {
    match text {
        Some(held) => held,
        None => Seq::empty(),
    }
}

/// Applying one sequence of updates after another accumulates what
/// applying both in one go does.
pub proof fn lemma_accumulated_concat(
    base: Option<Seq<char>>,
    first: Seq<ContentUpdateView>,
    second: Seq<ContentUpdateView>,
)
    ensures
        accumulated_markdown(base, first + second) == accumulated_markdown(
            accumulated_markdown(base, first),
            second,
        ),
    decreases second.len(),
{
    if second.len() == 0 {
        assert(first + second =~= first);
    } else {
        assert((first + second).drop_last() =~= first + second.drop_last());
        assert((first + second).last() == second.last());
        lemma_accumulated_concat(base, first, second.drop_last());
    }
}

/// One more update at the end of a sequence.
pub proof fn lemma_accumulated_push(
    base: Option<Seq<char>>,
    updates: Seq<ContentUpdateView>,
    update: ContentUpdateView,
)
    ensures
        accumulated_markdown(base, updates.push(update)) == match update {
            ContentUpdateView::FullReplace(document) => Some(document.markdown),
            ContentUpdateView::Append { markdown, .. } => match accumulated_markdown(base, updates) {
                Some(held) => Some(held + markdown),
                None => None,
            },
        },
{
    assert(updates.push(update).drop_last() =~= updates);
}

} // verus!
