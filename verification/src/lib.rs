//! Adaptive streaming update pipeline for a markdown viewer.

pub mod content;
pub mod error;
pub mod gui;
pub mod markdown;
pub mod menu;
pub mod plugins;
pub mod segmenter;
pub mod streaming;
pub mod text;
