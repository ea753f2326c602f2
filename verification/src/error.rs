//! The errors of the viewer.

use vstd::prelude::*;
use vstd::string::*;

verus! {

pub const IO_ERROR_PREFIX: &'static str = "I/O Error: ";

pub const SEND_ERROR_PREFIX: &'static str = "Channel Send Error: ";

/// What can go wrong while the input is read and handed on.
#[derive(Debug)]
pub enum AppError {
    /// Reading the input failed; the text says how.
    Io(String),
    /// The consumer is gone and took the channel with it; the text says
    /// what could not be sent.
    ChannelSend(String),
}

pub enum AppErrorView {
    Io(Seq<char>),
    ChannelSend(Seq<char>),
}

impl View for AppError {
    type V = AppErrorView;

    open spec fn view(&self) -> AppErrorView {
        match self {
            AppError::Io(cause) => AppErrorView::Io(cause@),
            AppError::ChannelSend(cause) => AppErrorView::ChannelSend(cause@),
        }
    }
}

/// The text shown for an error.
pub open spec fn error_text(error: AppErrorView) -> Seq<char> {
    match error {
        AppErrorView::Io(cause) => IO_ERROR_PREFIX@ + cause,
        AppErrorView::ChannelSend(cause) => SEND_ERROR_PREFIX@ + cause,
    }
}

impl AppError {
    /// The text shown for the error.
    pub fn message(&self) -> (text: String)
        ensures
            text@ == error_text(self@),
    {
        let mut text = String::new();
        match self {
            AppError::Io(cause) => {
                text.append(IO_ERROR_PREFIX);
                text.append(cause.as_str());
            },
            AppError::ChannelSend(cause) => {
                text.append(SEND_ERROR_PREFIX);
                text.append(cause.as_str());
            },
        }
        proof {
            assert(text@ =~= error_text(self@));
        }
        text
    }
}

} // verus!
