//! The panic bridge: what the guest does when its code fails beyond
//! recovery. It sends the failure's message to the host, then terminates;
//! it never resumes.

use vstd::prelude::*;
use crate::wire::{encode_failure, parse_response, response_bytes, ResponseView};

verus! {

/// What the guest's failure handler has to do next.
#[derive(Clone, Copy, Debug, PartialEq, Eq, Structural)]
pub enum BridgeAction {
    /// Send the response to the host, then report that it was sent.
    Send,
    /// Terminate the guest instance. Nothing comes after.
    Terminate,
}

/// The mathematical value of a [`PanicBridge`].
pub struct BridgeView {
    /// The response that tells the host of the failure.
    pub response: Seq<u8>,
    /// Whether the response has gone out.
    pub sent: bool,
}

impl BridgeView {
    /// The bridge as the failure handler finds it: nothing has gone out.
    pub open spec fn raised(info: Seq<char>) -> Self {
        BridgeView { response: response_bytes(ResponseView::Failure(info)), sent: false }
    }

    /// What the handler has to do next: send first, then terminate, and
    /// terminate ever after.
    pub open spec fn pending(self) -> BridgeAction {
        if self.sent {
            BridgeAction::Terminate
        } else {
            BridgeAction::Send
        }
    }

    /// After the response has gone out.
    pub open spec fn delivered(self) -> Self {
        BridgeView { sent: true, ..self }
    }
}

/// The panic bridge for one failure.
pub struct PanicBridge {
    response: Vec<u8>,
    sent: bool,
}

impl View for PanicBridge {
    type V = BridgeView;

    closed spec fn view(&self) -> BridgeView {
        BridgeView { response: self.response@, sent: self.sent }
    }
}

impl PanicBridge {
    /// The bridge for a failure described by `info`, the failure information
    /// as readable text. The response it holds is the wire form of a
    /// failure with that text as its message.
    pub fn new(info: &str) -> (bridge: Self)
        ensures
            bridge@ == BridgeView::raised(info@),
            parse_response(bridge@.response) == Some(ResponseView::Failure(info@)),
    {
        PanicBridge { response: encode_failure(info), sent: false }
    }

    /// What the handler has to do next.
    pub fn pending(&self) -> (action: BridgeAction)
        ensures
            action == self@.pending(),
    {
        if self.sent {
            BridgeAction::Terminate
        } else {
            BridgeAction::Send
        }
    }

    /// The bytes to send.
    pub fn response(&self) -> (bytes: &Vec<u8>)
        ensures
            bytes@ == self@.response,
    {
        &self.response
    }

    /// Records that the response has gone out. From here on the bridge asks
    /// for termination and for nothing else.
    pub fn delivered(&mut self) -> (action: BridgeAction)
        ensures
            final(self)@ == old(self)@.delivered(),
            action == BridgeAction::Terminate,
    {
        self.sent = true;
        BridgeAction::Terminate
    }
}

/// The bridge sends before it terminates, and once the response has gone out
/// it asks for termination however often it is asked: there is no way back.
pub proof fn theorem_bridge_sends_then_terminates(info: Seq<char>)
    ensures
        BridgeView::raised(info).pending() == BridgeAction::Send,
        BridgeView::raised(info).delivered().pending() == BridgeAction::Terminate,
        BridgeView::raised(info).delivered().delivered() == BridgeView::raised(info).delivered(),
        BridgeView::raised(info).delivered().response == response_bytes(
            ResponseView::Failure(info),
        ),
{
}

} // verus!
