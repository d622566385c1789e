//! Typed messages of the runtime. Each message maps to exactly one kind via
//! a total function; the bus routes messages by that kind.

use vstd::prelude::*;
use crate::error::TUIError;
use crate::keycode::KeyCode;
use crate::keycode::KeyCodeView;

verus! {

/// The kinds a message can have.
#[derive(Debug, Clone, Copy, PartialEq, Eq, Hash, Structural)]
pub enum MessageType {
    Terminate,
    Interrupt,
    Keypress,
    Error,
}

/// A message routed through the bus: a termination or interrupt signal, a
/// decoded key event, or an error surfaced by the run loop.
#[derive(Debug)]
pub enum Message {
    Terminate,
    Interrupt,
    Keypress(KeyCode),
    Error(TUIError),
}

/// Mathematical image of a `Message`: the key event as its view.
pub enum MessageView {
    Terminate,
    Interrupt,
    Keypress(KeyCodeView),
    Error(TUIError),
}

impl View for Message {
    type V = MessageView;

    open spec fn view(&self) -> MessageView {
        match self {
            Message::Terminate => MessageView::Terminate,
            Message::Interrupt => MessageView::Interrupt,
            Message::Keypress(kc) => MessageView::Keypress(kc@),
            Message::Error(e) => MessageView::Error(*e),
        }
    }
}

impl MessageView {
    /// The kind of a message: total over the variants.
    pub open spec fn spec_kind(self) -> MessageType {
        match self {
            MessageView::Terminate => MessageType::Terminate,
            MessageView::Interrupt => MessageType::Interrupt,
            MessageView::Keypress(_) => MessageType::Keypress,
            MessageView::Error(_) => MessageType::Error,
        }
    }
}

impl Message {
    /// The kind this message is routed by.
    pub fn kind(&self) -> (r: MessageType)
        ensures
            r == self@.spec_kind(),
    {
        match self {
            Message::Terminate => MessageType::Terminate,
            Message::Interrupt => MessageType::Interrupt,
            Message::Keypress(_) => MessageType::Keypress,
            Message::Error(_) => MessageType::Error,
        }
    }
}

} // verus!
