//! Messages from the menu bar, and the channel that carries them to the
//! delegate.

use crate::gui::types::{FontFamily, ThemeMode};
use std::sync::mpsc::Sender;
use vstd::prelude::*;

verus! {

/// What a menu item asks the delegate to do.
#[derive(Clone, Copy, Debug, PartialEq, Eq, Structural)]
pub enum MenuMessage {
    ToggleMode,
    Copy,
    SelectAll,
    SetFontFamily(FontFamily),
    IncreaseFontSize,
    DecreaseFontSize,
    ResetFontSize,
    SetTheme(ThemeMode),
}

#[verifier::external_type_specification]
#[verifier::external_body]
#[verifier::reject_recursive_types(T)]
pub struct ExSender<T>(Sender<T>);

/// Where menu messages are sent: the sending half of the channel to the
/// delegate, once it has been set.
pub struct MenuRouter {
    sender: Option<Sender<MenuMessage>>,
}

/// How a dispatch ended.
#[derive(Clone, Copy, Debug, PartialEq, Eq, Structural)]
pub enum DispatchOutcome {
    /// The message is on its way to the delegate.
    Sent,
    /// No sender has been set yet.
    NoSender,
    /// The delegate no longer listens.
    Disconnected,
}

/// Trusted: `Sender::send` of std. Sends the message; the result says
/// whether the receiving half still exists, which nothing here decides.
#[verifier::external_body]
fn send_message(sender: &Sender<MenuMessage>, message: MenuMessage) -> (delivered: bool) {
    sender.send(message).is_ok()
}

/// The outcome of a dispatch, given whether a sender is set and, if one is,
/// whether the send went through.
pub open spec fn dispatch_outcome(has_sender: bool, delivered: bool) -> DispatchOutcome {
    if !has_sender {
        DispatchOutcome::NoSender
    } else if delivered {
        DispatchOutcome::Sent
    } else {
        DispatchOutcome::Disconnected
    }
}

/// Names the outcome of a dispatch.
pub fn outcome_of(has_sender: bool, delivered: bool) -> (outcome: DispatchOutcome)
    ensures
        outcome == dispatch_outcome(has_sender, delivered),
{
    if !has_sender {
        DispatchOutcome::NoSender
    } else if delivered {
        DispatchOutcome::Sent
    } else {
        DispatchOutcome::Disconnected
    }
}

impl MenuRouter {
    /// Whether a sender has been set.
    pub closed spec fn has_sender(&self) -> bool {
        self.sender is Some
    }

    /// A router without a sender.
    pub fn new() -> (router: MenuRouter)
        ensures
            !router.has_sender(),
    {
        MenuRouter { sender: None }
    }

    /// Whether a sender has been set.
    pub fn is_connected(&self) -> (connected: bool)
        ensures
            connected == self.has_sender(),
    {
        self.sender.is_some()
    }
}

/// Sets the sender that menu messages go to from now on.
pub fn set_menu_sender(router: &mut MenuRouter, sender: Sender<MenuMessage>)
    ensures
        final(router).has_sender(),
{
    router.sender = Some(sender);
}

/// Sends a menu message to the delegate. Without a sender nothing is sent;
/// with one, the outcome says whether the send went through.
pub fn dispatch_menu_message(router: &MenuRouter, message: MenuMessage) -> (outcome: DispatchOutcome)
    ensures
        !router.has_sender() <==> outcome == DispatchOutcome::NoSender,
{
    match &router.sender {
        Some(sender) => {
            let delivered = send_message(sender, message);
            outcome_of(true, delivered)
        },
        None => outcome_of(false, false),
    }
}

} // verus!
