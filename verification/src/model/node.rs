//! Nodes as a flow description declares them, and as a record holds them
//! once each has its runtime and its merged configuration.

use crate::model::configuration::Configuration;
use crate::model::link::{find_port_type, port_type_of, PortDescriptor, PortView};
use crate::model::loops::{LoopDescriptor, LoopView};
use crate::text::{copy_items, copy_opt, opt_view, views};
use vstd::prelude::*;

verus! {

/// A declared operator.
#[derive(Debug, PartialEq, Eq)]
pub struct OperatorDescriptor {
    pub id: String,
    pub inputs: Vec<PortDescriptor>,
    pub outputs: Vec<PortDescriptor>,
    pub uri: Option<String>,
    pub configuration: Option<Configuration>,
    /// The time, in nanoseconds, that one computation may take.
    pub deadline: Option<u64>,
}

/// The mathematical value of an [`OperatorDescriptor`].
pub struct OperatorDescriptorView {
    pub id: Seq<char>,
    pub inputs: Seq<PortView>,
    pub outputs: Seq<PortView>,
    pub uri: Option<Seq<char>>,
    pub configuration: Option<Map<Seq<char>, Seq<char>>>,
    pub deadline: Option<u64>,
}

impl View for OperatorDescriptor {
    type V = OperatorDescriptorView;

    open spec fn view(&self) -> OperatorDescriptorView {
        OperatorDescriptorView {
            id: self.id@,
            inputs: views(self.inputs@),
            outputs: views(self.outputs@),
            uri: opt_view(self.uri),
            configuration: opt_view(self.configuration),
            deadline: self.deadline,
        }
    }
}

impl Clone for OperatorDescriptor {
    fn clone(&self) -> (r: Self)
        ensures
            r@ == self@,
    {
        OperatorDescriptor {
            id: self.id.clone(),
            inputs: copy_items(&self.inputs),
            outputs: copy_items(&self.outputs),
            uri: copy_opt(&self.uri),
            configuration: copy_opt(&self.configuration),
            deadline: self.deadline,
        }
    }
}

/// A declared source.
#[derive(Debug, PartialEq, Eq)]
pub struct SourceDescriptor {
    pub id: String,
    pub output: PortDescriptor,
    /// The time, in nanoseconds, between two productions.
    pub period: Option<u64>,
    pub uri: Option<String>,
    pub configuration: Option<Configuration>,
}

/// The mathematical value of a [`SourceDescriptor`].
pub struct SourceDescriptorView {
    pub id: Seq<char>,
    pub output: PortView,
    pub period: Option<u64>,
    pub uri: Option<Seq<char>>,
    pub configuration: Option<Map<Seq<char>, Seq<char>>>,
}

impl View for SourceDescriptor {
    type V = SourceDescriptorView;

    open spec fn view(&self) -> SourceDescriptorView {
        SourceDescriptorView {
            id: self.id@,
            output: self.output@,
            period: self.period,
            uri: opt_view(self.uri),
            configuration: opt_view(self.configuration),
        }
    }
}

impl Clone for SourceDescriptor {
    fn clone(&self) -> (r: Self)
        ensures
            r@ == self@,
    {
        SourceDescriptor {
            id: self.id.clone(),
            output: self.output.clone(),
            period: self.period,
            uri: copy_opt(&self.uri),
            configuration: copy_opt(&self.configuration),
        }
    }
}

/// A declared sink.
#[derive(Debug, PartialEq, Eq)]
pub struct SinkDescriptor {
    pub id: String,
    pub input: PortDescriptor,
    pub uri: Option<String>,
    pub configuration: Option<Configuration>,
}

/// The mathematical value of a [`SinkDescriptor`].
pub struct SinkDescriptorView {
    pub id: Seq<char>,
    pub input: PortView,
    pub uri: Option<Seq<char>>,
    pub configuration: Option<Map<Seq<char>, Seq<char>>>,
}

impl View for SinkDescriptor {
    type V = SinkDescriptorView;

    open spec fn view(&self) -> SinkDescriptorView {
        SinkDescriptorView {
            id: self.id@,
            input: self.input@,
            uri: opt_view(self.uri),
            configuration: opt_view(self.configuration),
        }
    }
}

impl Clone for SinkDescriptor {
    fn clone(&self) -> (r: Self)
        ensures
            r@ == self@,
    {
        SinkDescriptor {
            id: self.id.clone(),
            input: self.input.clone(),
            uri: copy_opt(&self.uri),
            configuration: copy_opt(&self.configuration),
        }
    }
}

/// An operator of a compiled flow.
#[derive(Debug, PartialEq, Eq)]
pub struct OperatorRecord {
    pub id: String,
    pub inputs: Vec<PortDescriptor>,
    pub outputs: Vec<PortDescriptor>,
    pub uri: Option<String>,
    pub configuration: Option<Configuration>,
    pub runtime: String,
    /// The time, in nanoseconds, that one computation may take.
    pub deadline: Option<u64>,
    /// The feedback loop that this operator is the ingress or the egress of.
    pub ciclo: Option<LoopDescriptor>,
}

/// The mathematical value of an [`OperatorRecord`].
pub struct OperatorView {
    pub id: Seq<char>,
    pub inputs: Seq<PortView>,
    pub outputs: Seq<PortView>,
    pub uri: Option<Seq<char>>,
    pub configuration: Option<Map<Seq<char>, Seq<char>>>,
    pub runtime: Seq<char>,
    pub deadline: Option<u64>,
    pub ciclo: Option<LoopView>,
}

impl View for OperatorRecord {
    type V = OperatorView;

    open spec fn view(&self) -> OperatorView {
        OperatorView {
            id: self.id@,
            inputs: views(self.inputs@),
            outputs: views(self.outputs@),
            uri: opt_view(self.uri),
            configuration: opt_view(self.configuration),
            runtime: self.runtime@,
            deadline: self.deadline,
            ciclo: opt_view(self.ciclo),
        }
    }
}

impl OperatorRecord {
    /// The type of the output `id`.
    pub fn get_output_type(&self, id: &String) -> (r: Option<String>)
        ensures
            opt_view(r) == port_type_of(self@.outputs, id@),
    {
        find_port_type(&self.outputs, id)
    }

    /// The type of the input `id`.
    pub fn get_input_type(&self, id: &String) -> (r: Option<String>)
        ensures
            opt_view(r) == port_type_of(self@.inputs, id@),
    {
        find_port_type(&self.inputs, id)
    }
}

impl Clone for OperatorRecord {
    fn clone(&self) -> (r: Self)
        ensures
            r@ == self@,
    {
        OperatorRecord {
            id: self.id.clone(),
            inputs: copy_items(&self.inputs),
            outputs: copy_items(&self.outputs),
            uri: copy_opt(&self.uri),
            configuration: copy_opt(&self.configuration),
            runtime: self.runtime.clone(),
            deadline: self.deadline,
            ciclo: copy_opt(&self.ciclo),
        }
    }
}

/// A source of a compiled flow.
#[derive(Debug, PartialEq, Eq)]
pub struct SourceRecord {
    pub id: String,
    pub output: PortDescriptor,
    /// The time, in nanoseconds, between two productions.
    pub period: Option<u64>,
    pub uri: Option<String>,
    pub configuration: Option<Configuration>,
    pub runtime: String,
}

/// The mathematical value of a [`SourceRecord`].
pub struct SourceView {
    pub id: Seq<char>,
    pub output: PortView,
    pub period: Option<u64>,
    pub uri: Option<Seq<char>>,
    pub configuration: Option<Map<Seq<char>, Seq<char>>>,
    pub runtime: Seq<char>,
}

impl View for SourceRecord {
    type V = SourceView;

    open spec fn view(&self) -> SourceView {
        SourceView {
            id: self.id@,
            output: self.output@,
            period: self.period,
            uri: opt_view(self.uri),
            configuration: opt_view(self.configuration),
            runtime: self.runtime@,
        }
    }
}

impl SourceRecord {
    /// The type of the output `id`.
    pub fn get_output_type(&self, id: &String) -> (r: Option<String>)
        ensures
            opt_view(r) == port_type_of(seq![self@.output], id@),
    {
        assert(port_type_of(seq![self@.output].drop_first(), id@) is None);
        if self.output.port_id == *id {
            Some(self.output.port_type.clone())
        } else {
            None
        }
    }
}

impl Clone for SourceRecord {
    fn clone(&self) -> (r: Self)
        ensures
            r@ == self@,
    {
        SourceRecord {
            id: self.id.clone(),
            output: self.output.clone(),
            period: self.period,
            uri: copy_opt(&self.uri),
            configuration: copy_opt(&self.configuration),
            runtime: self.runtime.clone(),
        }
    }
}

/// A sink of a compiled flow.
#[derive(Debug, PartialEq, Eq)]
pub struct SinkRecord {
    pub id: String,
    pub input: PortDescriptor,
    pub uri: Option<String>,
    pub configuration: Option<Configuration>,
    pub runtime: String,
}

/// The mathematical value of a [`SinkRecord`].
pub struct SinkView {
    pub id: Seq<char>,
    pub input: PortView,
    pub uri: Option<Seq<char>>,
    pub configuration: Option<Map<Seq<char>, Seq<char>>>,
    pub runtime: Seq<char>,
}

impl View for SinkRecord {
    type V = SinkView;

    open spec fn view(&self) -> SinkView {
        SinkView {
            id: self.id@,
            input: self.input@,
            uri: opt_view(self.uri),
            configuration: opt_view(self.configuration),
            runtime: self.runtime@,
        }
    }
}

impl SinkRecord {
    /// The type of the input `id`.
    pub fn get_input_type(&self, id: &String) -> (r: Option<String>)
        ensures
            opt_view(r) == port_type_of(seq![self@.input], id@),
    {
        assert(port_type_of(seq![self@.input].drop_first(), id@) is None);
        if self.input.port_id == *id {
            Some(self.input.port_type.clone())
        } else {
            None
        }
    }
}

impl Clone for SinkRecord {
    fn clone(&self) -> (r: Self)
        ensures
            r@ == self@,
    {
        SinkRecord {
            id: self.id.clone(),
            input: self.input.clone(),
            uri: copy_opt(&self.uri),
            configuration: copy_opt(&self.configuration),
            runtime: self.runtime.clone(),
        }
    }
}

} // verus!
