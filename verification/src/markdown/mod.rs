//! Markdown to HTML conversion with syntax-highlighted code blocks.

pub mod parser;
