//! Messages: what a link carries from one runner to the next.

use crate::runtime::deadline::{E2EDeadline, E2EDeadlineMiss, MissView, RuleView, Timestamp};
use crate::text::{copy_items, views};
use vstd::prelude::*;

verus! {

/// A data message: a payload, the causal timestamp of its creation, the
/// end-to-end deadlines that travel with it, and the deadlines it has missed
/// so far.
#[derive(Debug, PartialEq, Eq)]
pub struct DataMessage {
    pub data: Vec<u8>,
    pub timestamp: Timestamp,
    pub end_to_end_deadlines: Vec<E2EDeadline>,
    pub missed_end_to_end_deadlines: Vec<E2EDeadlineMiss>,
}

/// The mathematical value of a [`DataMessage`].
pub struct DataView {
    pub data: Seq<u8>,
    pub timestamp: Timestamp,
    pub end_to_end_deadlines: Seq<RuleView>,
    pub missed_end_to_end_deadlines: Seq<MissView>,
}

impl View for DataMessage {
    type V = DataView;

    open spec fn view(&self) -> DataView {
        DataView {
            data: self.data@,
            timestamp: self.timestamp,
            end_to_end_deadlines: views(self.end_to_end_deadlines@),
            missed_end_to_end_deadlines: views(self.missed_end_to_end_deadlines@),
        }
    }
}

impl Clone for DataMessage {
    fn clone(&self) -> (r: Self)
        ensures
            r@ == self@,
    {
        DataMessage {
            data: self.data.clone(),
            timestamp: self.timestamp,
            end_to_end_deadlines: copy_items(&self.end_to_end_deadlines),
            missed_end_to_end_deadlines: copy_items(&self.missed_end_to_end_deadlines),
        }
    }
}

/// A control signal. Control signals are reserved: no runner acts on one yet.
#[derive(Debug, Clone, Copy, PartialEq, Eq, Structural)]
pub struct ControlMessage {
    pub signal: u64,
}

/// What a link carries.
#[derive(Debug, PartialEq, Eq)]
pub enum Message {
    Data(DataMessage),
    Control(ControlMessage),
}

/// The mathematical value of a [`Message`].
pub enum MessageView {
    Data(DataView),
    Control(ControlMessage),
}

impl View for Message {
    type V = MessageView;

    open spec fn view(&self) -> MessageView {
        match self {
            Message::Data(d) => MessageView::Data(d@),
            Message::Control(c) => MessageView::Control(*c),
        }
    }
}

impl Clone for Message {
    fn clone(&self) -> (r: Self)
        ensures
            r@ == self@,
    {
        match self {
            Message::Data(d) => Message::Data(d.clone()),
            Message::Control(c) => Message::Control(*c),
        }
    }
}

} // verus!
