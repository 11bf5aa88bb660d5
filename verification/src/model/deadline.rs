//! End-to-end deadline rules as they are declared and as a record holds them.

use crate::model::link::{InputDescriptor, InputView, OutputDescriptor, OutputView};
use vstd::prelude::*;

verus! {

/// A declared end-to-end deadline: what leaves `from` is due at `to` within
/// `duration` nanoseconds.
#[derive(Debug, PartialEq, Eq)]
pub struct E2EDeadlineDescriptor {
    pub from: OutputDescriptor,
    pub to: InputDescriptor,
    pub duration: u64,
}

/// An end-to-end deadline rule of a compiled flow, with the bound in
/// nanoseconds.
#[derive(Debug, PartialEq, Eq)]
pub struct E2EDeadlineRecord {
    pub from: OutputDescriptor,
    pub to: InputDescriptor,
    pub duration: u64,
}

/// The mathematical value of a deadline rule, declared or compiled.
pub struct DeadlineView {
    pub from: OutputView,
    pub to: InputView,
    pub duration: u64,
}

impl View for E2EDeadlineDescriptor {
    type V = DeadlineView;

    open spec fn view(&self) -> DeadlineView {
        DeadlineView { from: self.from@, to: self.to@, duration: self.duration }
    }
}

impl View for E2EDeadlineRecord {
    type V = DeadlineView;

    open spec fn view(&self) -> DeadlineView {
        DeadlineView { from: self.from@, to: self.to@, duration: self.duration }
    }
}

impl Clone for E2EDeadlineDescriptor {
    fn clone(&self) -> (r: Self)
        ensures
            r@ == self@,
    {
        E2EDeadlineDescriptor {
            from: self.from.clone(),
            to: self.to.clone(),
            duration: self.duration,
        }
    }
}

impl Clone for E2EDeadlineRecord {
    fn clone(&self) -> (r: Self)
        ensures
            r@ == self@,
    {
        E2EDeadlineRecord { from: self.from.clone(), to: self.to.clone(), duration: self.duration }
    }
}

impl E2EDeadlineRecord {
    /// The rule that a record holds for a declared deadline.
    pub fn from_descriptor(desc: E2EDeadlineDescriptor) -> (r: Self)
        ensures
            r@ == desc@,
    {
        E2EDeadlineRecord { from: desc.from, to: desc.to, duration: desc.duration }
    }
}

} // verus!
