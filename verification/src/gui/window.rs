//! The size a window opens with, chosen from what it will show.

use crate::content::{DocumentContent, DocumentView};
use crate::text::{contains_seq, count_lines, ends_with, line_count, str_contains, str_ends_with};
use vstd::prelude::*;
use vstd::string::*;
use vstd::utf8::encode_utf8;

verus! {

/// A window width and height, in whole points.
#[derive(Clone, Copy, Debug, PartialEq, Eq, Structural)]
pub struct WindowSize {
    pub width: u32,
    pub height: u32,
}

/// Whether the document is a markdown file by its name, or reads like
/// markdown: it holds a heading or a fence.
pub open spec fn reads_like_markdown(document: DocumentView) -> bool {
    ||| match document.file_path {
        Some(path) => ends_with(path, ".md"@) || ends_with(path, ".markdown"@),
        None => false,
    }
    ||| contains_seq(document.markdown, "# "@)
    ||| contains_seq(document.markdown, "## "@)
    ||| contains_seq(document.markdown, "```"@)
}

/// The size of the window that first shows `document`.
pub open spec fn window_size(document: DocumentView, is_pipe_mode: bool) -> WindowSize {
    let bytes = encode_utf8(document.markdown).len() as usize;
    let lines = line_count(document.markdown);
    if is_pipe_mode {
        WindowSize { width: 500, height: 400 }
    } else if bytes < 500 || lines < 10 {
        WindowSize { width: 600, height: 450 }
    } else if reads_like_markdown(document) {
        WindowSize {
            width: if bytes > 5000 {
                900
            } else {
                800
            },
            height: if lines > 100 {
                700
            } else {
                600
            },
        }
    } else {
        WindowSize { width: 700, height: 500 }
    }
}

/// Chooses the size of the window that first shows `content`: small for a
/// stream or a short text, roomy for a markdown file.
pub fn calculate_window_size(content: &DocumentContent, is_pipe_mode: bool) -> (size: WindowSize)
    ensures
        size == window_size(content@, is_pipe_mode),
{
    let markdown = content.markdown.as_str();
    let markdown_len = markdown.len();
    let lines = count_lines(markdown);
    let named_markdown = match &content.file_path {
        Some(path) => str_ends_with(path.as_str(), ".md") || str_ends_with(path.as_str(), ".markdown"),
        None => false,
    };
    let is_markdown_file = named_markdown || str_contains(markdown, "# ") || str_contains(
        markdown,
        "## ",
    ) || str_contains(markdown, "```");
    if is_pipe_mode {
        WindowSize { width: 500, height: 400 }
    } else if markdown_len < 500 || lines < 10 {
        WindowSize { width: 600, height: 450 }
    } else if is_markdown_file {
        let width: u32 = if markdown_len > 5000 {
            900
        } else {
            800
        };
        let height: u32 = if lines > 100 {
            700
        } else {
            600
        };
        WindowSize { width, height }
    } else {
        WindowSize { width: 700, height: 500 }
    }
}

} // verus!
