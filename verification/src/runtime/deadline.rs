//! End-to-end deadlines at run time: the rule that travels with a message,
//! and the check that a runner makes when the message arrives.

use crate::model::link::{InputDescriptor, InputView, OutputDescriptor, OutputView};
use vstd::prelude::*;

verus! {

/// A reading of the causal clock of a runtime: the time in nanoseconds, and
/// the identifier of the clock that gave it.
#[derive(Debug, Clone, Copy, PartialEq, Eq, Structural)]
pub struct Timestamp {
    pub time: u64,
    pub id: u128,
}

/// An end-to-end deadline that travels with a message: what left `from` at
/// `start` is due at `to` within `duration` nanoseconds.
#[derive(Debug, PartialEq, Eq)]
pub struct E2EDeadline {
    pub duration: u64,
    pub from: OutputDescriptor,
    pub to: InputDescriptor,
    pub start: Timestamp,
}

/// The mathematical value of an [`E2EDeadline`].
pub struct RuleView {
    pub duration: u64,
    pub from: OutputView,
    pub to: InputView,
    pub start: Timestamp,
}

impl View for E2EDeadline {
    type V = RuleView;

    open spec fn view(&self) -> RuleView {
        RuleView { duration: self.duration, from: self.from@, to: self.to@, start: self.start }
    }
}

impl Clone for E2EDeadline {
    fn clone(&self) -> (r: Self)
        ensures
            r@ == self@,
    {
        E2EDeadline {
            duration: self.duration,
            from: self.from.clone(),
            to: self.to.clone(),
            start: self.start,
        }
    }
}

/// The record of a missed end-to-end deadline: the rule's two ends, when the
/// message set out and when it arrived.
#[derive(Debug, PartialEq, Eq)]
pub struct E2EDeadlineMiss {
    pub from: OutputDescriptor,
    pub to: InputDescriptor,
    pub start: Timestamp,
    pub end: Timestamp,
}

/// The mathematical value of an [`E2EDeadlineMiss`].
pub struct MissView {
    pub from: OutputView,
    pub to: InputView,
    pub start: Timestamp,
    pub end: Timestamp,
}

impl View for E2EDeadlineMiss {
    type V = MissView;

    open spec fn view(&self) -> MissView {
        MissView { from: self.from@, to: self.to@, start: self.start, end: self.end }
    }
}

impl Clone for E2EDeadlineMiss {
    fn clone(&self) -> (r: Self)
        ensures
            r@ == self@,
    {
        E2EDeadlineMiss {
            from: self.from.clone(),
            to: self.to.clone(),
            start: self.start,
            end: self.end,
        }
    }
}

/// Whether `rule` is bound to `node`: the node is where the message is due.
pub open spec fn bound_to(rule: RuleView, node: Seq<char>) -> bool {
    rule.to.node == node
}

/// Whether a message that arrives at `node` at `now` has missed `rule`: the
/// rule is bound to the node, and more time than the rule allows has passed
/// since the message set out.
pub open spec fn misses(rule: RuleView, node: Seq<char>, now: Timestamp) -> bool {
    bound_to(rule, node) && now.time - rule.start.time > rule.duration
}

/// The record of `rule` missed at `now`.
pub open spec fn miss_of(rule: RuleView, now: Timestamp) -> MissView {
    MissView { from: rule.from, to: rule.to, start: rule.start, end: now }
}

/// What checking `rule` on arrival at `node` at `now` gives.
pub open spec fn checked(rule: RuleView, node: Seq<char>, now: Timestamp) -> Option<MissView> {
    if misses(rule, node, now) {
        Some(miss_of(rule, now))
    } else {
        None
    }
}

impl E2EDeadline {
    /// Checks the deadline for a message that arrives at `node_id` at `now`.
    /// A miss is reported only by the node that the rule is bound to.
    pub fn check(&self, node_id: &String, now: &Timestamp) -> (r: Option<E2EDeadlineMiss>)
        ensures
            crate::text::opt_view(r) == checked(self@, node_id@, *now),
    {
        if self.to.node == *node_id && now.time > self.start.time && now.time - self.start.time
            > self.duration {
            Some(
                E2EDeadlineMiss {
                    from: self.from.clone(),
                    to: self.to.clone(),
                    start: self.start,
                    end: *now,
                },
            )
        } else {
            None
        }
    }
}

} // verus!
