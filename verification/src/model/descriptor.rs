//! The flow description: a dataflow graph as its author declares it, before
//! any node has a runtime.

use crate::collections::TextMap;
use crate::model::configuration::Configuration;
use crate::model::deadline::{DeadlineView, E2EDeadlineDescriptor};
use crate::model::flag::{Flag, FlagView};
use crate::model::link::{LinkDescriptor, LinkView};
use crate::model::loops::{LoopDescriptor, LoopView};
use crate::model::node::{
    OperatorDescriptor,
    OperatorDescriptorView,
    SinkDescriptor,
    SinkDescriptorView,
    SourceDescriptor,
    SourceDescriptorView,
};
use crate::text::{copy_items, copy_map, copy_opt, map_views, opt_view, views};
use vstd::prelude::*;

verus! {

/// A declared flow: its nodes and links, and optionally its feedback loops,
/// the runtime of each node, its end-to-end deadlines, a configuration
/// shared by all nodes, and the flags that keep or drop nodes.
#[derive(Debug)]
pub struct DataFlowDescriptor {
    pub flow: String,
    pub operators: Vec<OperatorDescriptor>,
    pub sources: Vec<SourceDescriptor>,
    pub sinks: Vec<SinkDescriptor>,
    pub links: Vec<LinkDescriptor>,
    /// The runtime of each node, by the node's identifier.
    pub mapping: Option<TextMap<String>>,
    pub deadlines: Option<Vec<E2EDeadlineDescriptor>>,
    pub loops: Option<Vec<LoopDescriptor>>,
    pub global_configuration: Option<Configuration>,
    pub flags: Option<Vec<Flag>>,
}

/// The mathematical value of a [`DataFlowDescriptor`].
pub struct DescriptorView {
    pub flow: Seq<char>,
    pub operators: Seq<OperatorDescriptorView>,
    pub sources: Seq<SourceDescriptorView>,
    pub sinks: Seq<SinkDescriptorView>,
    pub links: Seq<LinkView>,
    pub mapping: Option<Map<Seq<char>, Seq<char>>>,
    pub deadlines: Option<Seq<DeadlineView>>,
    pub loops: Option<Seq<LoopView>>,
    pub global_configuration: Option<Map<Seq<char>, Seq<char>>>,
    pub flags: Option<Seq<FlagView>>,
}

/// The views of the items of an optional list.
pub open spec fn opt_views<T: View>(o: Option<Vec<T>>) -> Option<Seq<T::V>> {
    match o {
        Some(v) => Some(views(v@)),
        None => None,
    }
}

/// The runtime mapping as a map from node identifiers to runtime names.
pub open spec fn mapping_view(m: Option<TextMap<String>>) -> Option<Map<Seq<char>, Seq<char>>> {
    match m {
        Some(t) => Some(map_views(t@)),
        None => None,
    }
}

impl View for DataFlowDescriptor {
    type V = DescriptorView;

    open spec fn view(&self) -> DescriptorView {
        DescriptorView {
            flow: self.flow@,
            operators: views(self.operators@),
            sources: views(self.sources@),
            sinks: views(self.sinks@),
            links: views(self.links@),
            mapping: mapping_view(self.mapping),
            deadlines: opt_views(self.deadlines),
            loops: opt_views(self.loops),
            global_configuration: opt_view(self.global_configuration),
            flags: opt_views(self.flags),
        }
    }
}

impl Clone for DataFlowDescriptor {
    fn clone(&self) -> (r: Self)
        ensures
            r@ == self@,
    {
        DataFlowDescriptor {
            flow: self.flow.clone(),
            operators: copy_items(&self.operators),
            sources: copy_items(&self.sources),
            sinks: copy_items(&self.sinks),
            links: copy_items(&self.links),
            mapping: match &self.mapping {
                Some(m) => Some(copy_map(m)),
                None => None,
            },
            deadlines: match &self.deadlines {
                Some(v) => Some(copy_items(v)),
                None => None,
            },
            loops: match &self.loops {
                Some(v) => Some(copy_items(v)),
                None => None,
            },
            global_configuration: copy_opt(&self.global_configuration),
            flags: match &self.flags {
                Some(v) => Some(copy_items(v)),
                None => None,
            },
        }
    }
}

} // verus!
