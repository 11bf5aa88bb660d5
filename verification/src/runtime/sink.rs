//! The sink runner: the execution unit of a node that only consumes.
//!
//! A sink has exactly one input port and no output. The runner owns the link
//! attached to that port, and decides what its run loop does next:
//! [`SinkRunner::step`] maps the phase of the loop and what has just happened
//! to the next phase and the next thing to do. Whoever drives the loop does
//! the waiting: it receives from the link, reads the clock and calls the
//! user's logic, and reports each outcome back as an event.

use crate::collections::TextMap;
use crate::model::deadline::{DeadlineView, E2EDeadlineRecord};
use crate::model::link::{PortDescriptor, PortView};
use crate::runtime::deadline::{checked, MissView, RuleView, Timestamp};
use crate::runtime::message::{DataMessage, DataView, Message, MessageView};
use crate::text::{copy_items, lemma_map_views_insert, lemma_views_push, map_views, views};
use crate::types::{ErrorView, ZFError};
use vstd::prelude::*;
use vstd::string::*;

verus! {

/// The kinds of runner.
#[derive(Debug, Clone, Copy, PartialEq, Eq, Structural)]
pub enum RunnerKind {
    Source,
    Operator,
    Sink,
    Connector,
}

/// What a sink runner is built from: the node's identifier, its input port
/// and the end-to-end deadlines of the flow that end at it.
#[derive(Debug, PartialEq, Eq)]
pub struct SinkLoaded {
    pub id: String,
    pub input: PortDescriptor,
    pub end_to_end_deadlines: Vec<E2EDeadlineRecord>,
}

/// The mathematical value of a [`SinkLoaded`].
pub struct SinkLoadedView {
    pub id: Seq<char>,
    pub input: PortView,
    pub end_to_end_deadlines: Seq<DeadlineView>,
}

impl View for SinkLoaded {
    type V = SinkLoadedView;

    open spec fn view(&self) -> SinkLoadedView {
        SinkLoadedView {
            id: self.id@,
            input: self.input@,
            end_to_end_deadlines: views(self.end_to_end_deadlines@),
        }
    }
}

impl Clone for SinkLoaded {
    fn clone(&self) -> (r: Self)
        ensures
            r@ == self@,
    {
        SinkLoaded {
            id: self.id.clone(),
            input: self.input.clone(),
            end_to_end_deadlines: copy_items(&self.end_to_end_deadlines),
        }
    }
}

/// The links handed to a runner when it is built: the receiving ends by
/// input port, and the sending ends by output port.
#[derive(Debug)]
pub struct OperatorIO<R, S> {
    pub inputs: TextMap<R>,
    pub outputs: TextMap<Vec<S>>,
}

impl<R, S> OperatorIO<R, S> {
    /// Hands out the links: inputs first, outputs second.
    pub fn take(self) -> (r: (TextMap<R>, TextMap<Vec<S>>))
        ensures
            r.0 == self.inputs,
            r.1 == self.outputs,
    {
        (self.inputs, self.outputs)
    }
}

/// The runner of a sink. `L` is the receiving end of a link.
#[derive(Debug)]
pub struct SinkRunner<L> {
    id: String,
    input: PortDescriptor,
    link: Option<L>,
    end_to_end_deadlines: Vec<E2EDeadlineRecord>,
}

/// The mathematical value of a [`SinkRunner`]: `link` is the attached input
/// link, `None` while the runner is unattached.
pub struct SinkRunnerView<L> {
    pub id: Seq<char>,
    pub input: PortView,
    pub link: Option<L>,
    pub end_to_end_deadlines: Seq<DeadlineView>,
}

impl<L> View for SinkRunner<L> {
    type V = SinkRunnerView<L>;

    closed spec fn view(&self) -> SinkRunnerView<L> {
        SinkRunnerView {
            id: self.id@,
            input: self.input@,
            link: self.link,
            end_to_end_deadlines: views(self.end_to_end_deadlines@),
        }
    }
}

/// The misses that the rules of a message give on arrival at `node` at `now`,
/// in the order of the rules.
pub open spec fn new_misses(rules: Seq<RuleView>, node: Seq<char>, now: Timestamp) -> Seq<MissView>
    decreases rules.len(),
{
    if rules.len() == 0 {
        Seq::empty()
    } else {
        let earlier = new_misses(rules.drop_last(), node, now);
        match checked(rules.last(), node, now) {
            Some(miss) => earlier.push(miss),
            None => earlier,
        }
    }
}

/// The message as the user's logic gets it: payload, timestamp, rules and
/// earlier misses as they came, and then the misses found on arrival.
pub open spec fn annotated(message: DataView, node: Seq<char>, now: Timestamp) -> DataView {
    DataView {
        missed_end_to_end_deadlines: message.missed_end_to_end_deadlines + new_misses(
            message.end_to_end_deadlines,
            node,
            now,
        ),
        ..message
    }
}

/// The text of the error for a sink built without the link of its port.
pub open spec fn missing_link_text(port: Seq<char>, sink: Seq<char>) -> Seq<char> {
    "Missing link for port < "@ + port + " > for Sink: < "@ + sink + " >."@
}

/// What taking the input links does to a runner: the runner without a link,
/// and the link that it had under the name of its port.
pub open spec fn take_links<L>(runner: SinkRunnerView<L>) -> (SinkRunnerView<L>, Map<Seq<char>, L>) {
    match runner.link {
        Some(link) => (
            SinkRunnerView { link: None, ..runner },
            Map::empty().insert(runner.input.port_id, link),
        ),
        None => (runner, Map::empty()),
    }
}

/// Where the run loop of a sink stands.
#[derive(Debug, PartialEq, Eq)]
pub enum SinkPhase {
    /// The loop has not started.
    Idle,
    /// The loop waits for a message on the input link.
    Receiving,
    /// A data message has arrived; the loop waits for the clock reading.
    Syncing(DataMessage),
    /// The user's logic works on a message.
    Invoking,
    /// The loop has ended.
    Stopped,
}

/// The mathematical value of a [`SinkPhase`].
pub enum PhaseView {
    Idle,
    Receiving,
    Syncing(DataView),
    Invoking,
    Stopped,
}

impl View for SinkPhase {
    type V = PhaseView;

    open spec fn view(&self) -> PhaseView {
        match self {
            SinkPhase::Idle => PhaseView::Idle,
            SinkPhase::Receiving => PhaseView::Receiving,
            SinkPhase::Syncing(m) => PhaseView::Syncing(m@),
            SinkPhase::Invoking => PhaseView::Invoking,
            SinkPhase::Stopped => PhaseView::Stopped,
        }
    }
}

/// What has just happened in the run loop of a sink.
#[derive(Debug, PartialEq, Eq)]
pub enum SinkEvent {
    /// The loop was started.
    Started,
    /// The link delivered a message.
    Received(Message),
    /// Receiving from the link failed.
    ReceiveFailed(ZFError),
    /// The clock was brought up to the message's timestamp and then read.
    ClockRead(Timestamp),
    /// The user's logic returned.
    Invoked,
    /// The user's logic failed.
    InvokeFailed(ZFError),
}

/// The mathematical value of a [`SinkEvent`].
pub enum EventView {
    Started,
    Received(MessageView),
    ReceiveFailed(ErrorView),
    ClockRead(Timestamp),
    Invoked,
    InvokeFailed(ErrorView),
}

impl View for SinkEvent {
    type V = EventView;

    open spec fn view(&self) -> EventView {
        match self {
            SinkEvent::Started => EventView::Started,
            SinkEvent::Received(m) => EventView::Received(m@),
            SinkEvent::ReceiveFailed(e) => EventView::ReceiveFailed(e@),
            SinkEvent::ClockRead(t) => EventView::ClockRead(*t),
            SinkEvent::Invoked => EventView::Invoked,
            SinkEvent::InvokeFailed(e) => EventView::InvokeFailed(e@),
        }
    }
}

/// What the run loop of a sink does next.
#[derive(Debug, PartialEq, Eq)]
pub enum SinkAction {
    /// Wait for the next message on the input link.
    Receive,
    /// Bring the causal clock up to this timestamp, then read the clock. A
    /// failure to bring it up is reported and otherwise passed over.
    ReadClock(Timestamp),
    /// Call the user's logic on this message.
    Invoke(DataMessage),
    /// End the loop with this error.
    Stop(ZFError),
}

/// The mathematical value of a [`SinkAction`].
pub enum ActionView {
    Receive,
    ReadClock(Timestamp),
    Invoke(DataView),
    Stop(ErrorView),
}

impl View for SinkAction {
    type V = ActionView;

    open spec fn view(&self) -> ActionView {
        match self {
            SinkAction::Receive => ActionView::Receive,
            SinkAction::ReadClock(t) => ActionView::ReadClock(*t),
            SinkAction::Invoke(m) => ActionView::Invoke(m@),
            SinkAction::Stop(e) => ActionView::Stop(e@),
        }
    }
}

/// The start of an iteration: receive if a link is attached, else stop.
pub open spec fn next_iteration(attached: bool) -> (PhaseView, ActionView) {
    if attached {
        (PhaseView::Receiving, ActionView::Receive)
    } else {
        (PhaseView::Stopped, ActionView::Stop(ErrorView::Disconnected))
    }
}

/// The run loop of a sink, one step at a time.
///
/// An iteration starts when the loop is started and when the user's logic
/// has returned. A data message is annotated with the deadlines that it has
/// missed on arrival, and handed to the user's logic whether it has missed
/// any or not. A control message, a failure to receive and a failure of the
/// user's logic end the loop, each with its error. An event that the phase
/// does not expect ends the loop with `GenericError`.
pub open spec fn sink_step(attached: bool, node: Seq<char>, phase: PhaseView, event: EventView) -> (
    PhaseView,
    ActionView,
) {
    match (phase, event) {
        (PhaseView::Idle, EventView::Started) => next_iteration(attached),
        (PhaseView::Invoking, EventView::Invoked) => next_iteration(attached),
        (PhaseView::Receiving, EventView::Received(MessageView::Data(m))) => (
            PhaseView::Syncing(m),
            ActionView::ReadClock(m.timestamp),
        ),
        (PhaseView::Receiving, EventView::Received(MessageView::Control(_))) => (
            PhaseView::Stopped,
            ActionView::Stop(ErrorView::Unimplemented),
        ),
        (PhaseView::Receiving, EventView::ReceiveFailed(e)) => (
            PhaseView::Stopped,
            ActionView::Stop(e),
        ),
        (PhaseView::Syncing(m), EventView::ClockRead(now)) => (
            PhaseView::Invoking,
            ActionView::Invoke(annotated(m, node, now)),
        ),
        (PhaseView::Invoking, EventView::InvokeFailed(e)) => (
            PhaseView::Stopped,
            ActionView::Stop(e),
        ),
        _ => (PhaseView::Stopped, ActionView::Stop(ErrorView::GenericError)),
    }
}

impl<L> SinkRunner<L> {
    /// Builds the runner of `sink` with the link that `io` holds for the
    /// sink's input port.
    ///
    /// # Errors
    /// `MissingOutput` if `io` has no link for that port.
    pub fn try_new<S>(sink: SinkLoaded, io: OperatorIO<L, S>) -> (r: Result<Self, ZFError>)
        ensures
            match r {
                Ok(runner) => io.inputs@.contains_key(sink.input.port_id@) && runner@
                    == (SinkRunnerView {
                    id: sink.id@,
                    input: sink.input@,
                    link: Some(io.inputs@[sink.input.port_id@]),
                    end_to_end_deadlines: views(sink.end_to_end_deadlines@),
                }),
                Err(e) => !io.inputs@.contains_key(sink.input.port_id@) && e@
                    == ErrorView::MissingOutput(missing_link_text(sink.input.port_id@, sink.id@)),
            },
    {
        let (mut inputs, _) = io.take();
        let port_id = sink.input.port_id.clone();
        let link = match inputs.remove(&port_id) {
            Some(link) => link,
            None => {
                let mut text = String::from_str("Missing link for port < ");
                text.append(port_id.as_str());
                text.append(" > for Sink: < ");
                text.append(sink.id.as_str());
                text.append(" >.");
                return Err(ZFError::MissingOutput(text));
            },
        };
        Ok(
            SinkRunner {
                id: sink.id,
                input: sink.input,
                link: Some(link),
                end_to_end_deadlines: sink.end_to_end_deadlines,
            },
        )
    }

    /// The identifier of the node.
    pub fn get_id(&self) -> (r: String)
        ensures
            r@ == self@.id,
    {
        self.id.clone()
    }

    /// The kind of the runner: a sink.
    pub fn get_kind(&self) -> (r: RunnerKind)
        ensures
            r == RunnerKind::Sink,
    {
        RunnerKind::Sink
    }

    /// Attaches `input` as the link of the input port, in place of the link
    /// attached before, if there was one.
    pub fn add_input(&mut self, input: L) -> (r: Result<(), ZFError>)
        ensures
            r is Ok,
            final(self)@ == (SinkRunnerView { link: Some(input), ..old(self)@ }),
    {
        self.link = Some(input);
        Ok(())
    }

    /// Refuses the link: a sink has no output to attach it to.
    pub fn add_output<S>(&self, _output: S) -> (r: Result<(), ZFError>)
        ensures
            r matches Err(e) && e@ == ErrorView::SinkDoesNotHaveOutputs,
    {
        Err(ZFError::SinkDoesNotHaveOutputs)
    }

    /// The declared inputs: the type of the one input port, by its identifier.
    pub fn get_inputs(&self) -> (r: TextMap<String>)
        ensures
            map_views(r@) == Map::<Seq<char>, Seq<char>>::empty().insert(
                self@.input.port_id,
                self@.input.port_type,
            ),
    {
        let mut inputs: TextMap<String> = TextMap::new();
        let port_type = self.input.port_type.clone();
        proof {
            lemma_map_views_insert(inputs@, self.input.port_id@, port_type);
            assert(map_views(inputs@) =~= Map::<Seq<char>, Seq<char>>::empty());
        }
        inputs.insert(self.input.port_id.clone(), port_type);
        inputs
    }

    /// The declared outputs: none.
    pub fn get_outputs(&self) -> (r: TextMap<String>)
        ensures
            r@ == Map::<Seq<char>, String>::empty(),
    {
        TextMap::new()
    }

    /// The attached output links: none.
    pub fn get_outputs_links<S>(&self) -> (r: TextMap<Vec<S>>)
        ensures
            r@ == Map::<Seq<char>, Vec<S>>::empty(),
    {
        TextMap::new()
    }

    /// Hands over the attached input link under the name of its port, and
    /// leaves the runner unattached. An unattached runner hands over nothing.
    pub fn take_input_links(&mut self) -> (r: TextMap<L>)
        ensures
            (final(self)@, r@) == take_links(old(self)@),
    {
        match self.link.take() {
            Some(link) => {
                let mut inputs: TextMap<L> = TextMap::new();
                inputs.insert(self.input.port_id.clone(), link);
                inputs
            },
            None => TextMap::new(),
        }
    }

    /// Recording is not offered by a sink.
    pub fn start_recording(&self) -> (r: Result<String, ZFError>)
        ensures
            r matches Err(e) && e@ == ErrorView::Unsupported,
    {
        Err(ZFError::Unsupported)
    }

    /// Recording is not offered by a sink.
    pub fn stop_recording(&self) -> (r: Result<String, ZFError>)
        ensures
            r matches Err(e) && e@ == ErrorView::Unsupported,
    {
        Err(ZFError::Unsupported)
    }

    /// Whether the runner is recording: never.
    pub fn is_recording(&self) -> (r: bool)
        ensures
            !r,
    {
        false
    }

    /// The attached input link, if there is one.
    pub fn input_link(&self) -> (r: Option<&L>)
        ensures
            match r {
                Some(link) => self@.link == Some(*link),
                None => self@.link is None,
            },
    {
        self.link.as_ref()
    }

    /// The end-to-end deadlines of the flow that end at this sink.
    pub fn get_end_to_end_deadlines(&self) -> (r: &Vec<E2EDeadlineRecord>)
        ensures
            views(r@) == self@.end_to_end_deadlines,
    {
        &self.end_to_end_deadlines
    }

    /// Checks the rules of `message` for an arrival at this node at `now`,
    /// and appends each miss to the misses of the message. The payload, the
    /// timestamp, the rules and the earlier misses stay as they are.
    pub fn annotate(&self, message: DataMessage, now: Timestamp) -> (r: DataMessage)
        ensures
            r@ == annotated(message@, self@.id, now),
    {
        let ghost rules = views(message.end_to_end_deadlines@);
        let ghost earlier = views(message.missed_end_to_end_deadlines@);
        let mut input = message;
        let mut i: usize = 0;
        assert(rules.take(0) =~= Seq::<RuleView>::empty());
        assert(earlier + new_misses(rules.take(0), self@.id, now) =~= earlier);
        while i < input.end_to_end_deadlines.len()
            invariant
                i <= rules.len(),
                input.data == message.data,
                input.timestamp == message.timestamp,
                input.end_to_end_deadlines == message.end_to_end_deadlines,
                rules == views(message.end_to_end_deadlines@),
                earlier == views(message.missed_end_to_end_deadlines@),
                views(input.missed_end_to_end_deadlines@) == earlier + new_misses(
                    rules.take(i as int),
                    self@.id,
                    now,
                ),
            decreases rules.len() - i,
        {
            proof {
                assert(rules.take(i + 1).drop_last() =~= rules.take(i as int));
                assert(rules.take(i + 1).last() == input.end_to_end_deadlines@[i as int]@);
            }
            match input.end_to_end_deadlines[i].check(&self.id, &now) {
                Some(miss) => {
                    proof {
                        lemma_views_push(input.missed_end_to_end_deadlines@, miss);
                        assert(views(input.missed_end_to_end_deadlines@.push(miss)) =~= earlier
                            + new_misses(rules.take(i + 1), self@.id, now));
                    }
                    input.missed_end_to_end_deadlines.push(miss);
                },
                None => {},
            }
            i += 1;
        }
        assert(rules.take(rules.len() as int) =~= rules);
        input
    }

    /// One step of the run loop: given the phase of the loop and what has
    /// just happened, the next phase and what to do next.
    pub fn step(&self, phase: SinkPhase, event: SinkEvent) -> (r: (SinkPhase, SinkAction))
        ensures
            (r.0@, r.1@) == sink_step(self@.link is Some, self@.id, phase@, event@),
    {
        match (phase, event) {
            (SinkPhase::Idle, SinkEvent::Started) => self.begin_iteration(),
            (SinkPhase::Invoking, SinkEvent::Invoked) => self.begin_iteration(),
            (SinkPhase::Receiving, SinkEvent::Received(Message::Data(m))) => {
                let timestamp = m.timestamp;
                (SinkPhase::Syncing(m), SinkAction::ReadClock(timestamp))
            },
            (SinkPhase::Receiving, SinkEvent::Received(Message::Control(_))) => (
                SinkPhase::Stopped,
                SinkAction::Stop(ZFError::Unimplemented),
            ),
            (SinkPhase::Receiving, SinkEvent::ReceiveFailed(e)) => (
                SinkPhase::Stopped,
                SinkAction::Stop(e),
            ),
            (SinkPhase::Syncing(m), SinkEvent::ClockRead(now)) => (
                SinkPhase::Invoking,
                SinkAction::Invoke(self.annotate(m, now)),
            ),
            (SinkPhase::Invoking, SinkEvent::InvokeFailed(e)) => (
                SinkPhase::Stopped,
                SinkAction::Stop(e),
            ),
            _ => (SinkPhase::Stopped, SinkAction::Stop(ZFError::GenericError)),
        }
    }

    /// Starts an iteration of the run loop.
    fn begin_iteration(&self) -> (r: (SinkPhase, SinkAction))
        ensures
            (r.0@, r.1@) == next_iteration(self@.link is Some),
    {
        if self.link.is_some() {
            (SinkPhase::Receiving, SinkAction::Receive)
        } else {
            (SinkPhase::Stopped, SinkAction::Stop(ZFError::Disconnected))
        }
    }
}

} // verus!
