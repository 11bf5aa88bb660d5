//! The record: a flow that has been compiled for deployment. Every node has
//! its runtime, and every link that crosses from one runtime to another has
//! been replaced by a sender, a receiver and the two links that attach them.

use crate::collections::TextMap;
use crate::model::connector::{has_sender, ConnectorView, ZFConnectorKind, ZFConnectorRecord};
use crate::model::deadline::{DeadlineView, E2EDeadlineRecord};
use crate::model::link::{
    compatible,
    port_type_of,
    port_types_match,
    InputDescriptor,
    InputView,
    LinkDescriptor,
    LinkView,
    OutputDescriptor,
    OutputView,
    PortDescriptor,
    PortView,
};
use crate::model::naming::{
    make_receiver_name,
    make_resource_name,
    make_sender_name,
    receiver_name,
    resource_name,
    sender_name,
};
use crate::model::node::{
    OperatorRecord,
    OperatorView,
    SinkRecord,
    SinkView,
    SourceRecord,
    SourceView,
};
use crate::text::{
    copy_items,
    copy_map,
    has_text,
    lemma_views_push,
    map_views,
    opt_view,
    prefixed,
    views,
};
use crate::types::{ErrorView, ZFError};
use vstd::prelude::*;

verus! {

/// A compiled flow: one instance of a flow description.
#[derive(Debug)]
pub struct DataFlowRecord {
    /// The identifier of this instance, a UUID as a 128-bit number.
    pub uuid: u128,
    pub flow: String,
    pub operators: TextMap<OperatorRecord>,
    pub sinks: TextMap<SinkRecord>,
    pub sources: TextMap<SourceRecord>,
    pub connectors: Vec<ZFConnectorRecord>,
    pub links: Vec<LinkDescriptor>,
    pub end_to_end_deadlines: Option<Vec<E2EDeadlineRecord>>,
}

/// The mathematical value of a [`DataFlowRecord`].
pub struct RecordView {
    pub uuid: u128,
    pub flow: Seq<char>,
    pub operators: Map<Seq<char>, OperatorView>,
    pub sinks: Map<Seq<char>, SinkView>,
    pub sources: Map<Seq<char>, SourceView>,
    pub connectors: Seq<ConnectorView>,
    pub links: Seq<LinkView>,
    pub end_to_end_deadlines: Option<Seq<DeadlineView>>,
}

/// The views of the deadline rules of a record.
pub open spec fn deadlines_view(d: Option<Vec<E2EDeadlineRecord>>) -> Option<Seq<DeadlineView>> {
    match d {
        Some(v) => Some(views(v@)),
        None => None,
    }
}

impl View for DataFlowRecord {
    type V = RecordView;

    open spec fn view(&self) -> RecordView {
        RecordView {
            uuid: self.uuid,
            flow: self.flow@,
            operators: map_views(self.operators@),
            sinks: map_views(self.sinks@),
            sources: map_views(self.sources@),
            connectors: views(self.connectors@),
            links: views(self.links@),
            end_to_end_deadlines: deadlines_view(self.end_to_end_deadlines),
        }
    }
}

impl Clone for DataFlowRecord {
    fn clone(&self) -> (r: Self)
        ensures
            r@ == self@,
    {
        DataFlowRecord {
            uuid: self.uuid,
            flow: self.flow.clone(),
            operators: copy_map(&self.operators),
            sinks: copy_map(&self.sinks),
            sources: copy_map(&self.sources),
            connectors: copy_items(&self.connectors),
            links: copy_items(&self.links),
            end_to_end_deadlines: match &self.end_to_end_deadlines {
                Some(v) => Some(copy_items(v)),
                None => None,
            },
        }
    }
}

/// The link from the output of a node to the sender that publishes it.
pub open spec fn sender_link(from: OutputView, sender: Seq<char>) -> LinkView {
    LinkView {
        from,
        to: InputView { node: sender, input: from.output },
        size: None,
        queueing_policy: None,
        priority: None,
    }
}

/// The link from a receiver to the input of the node that it feeds.
pub open spec fn receiver_link(receiver: Seq<char>, to: InputView) -> LinkView {
    LinkView {
        from: OutputView { node: receiver, output: to.input },
        to,
        size: None,
        queueing_policy: None,
        priority: None,
    }
}

/// Whether `link` stays in the flow: neither of its nodes is removed.
pub open spec fn stays(link: LinkView, removed: Set<Seq<char>>) -> bool {
    !removed.contains(link.from.node) && !removed.contains(link.to.node)
}

impl RecordView {
    /// The runtime of `node`, looked for among the operators, then the
    /// sources, then the sinks.
    pub open spec fn runtime_of(self, node: Seq<char>) -> Option<Seq<char>> {
        if self.operators.contains_key(node) {
            Some(self.operators[node].runtime)
        } else if self.sources.contains_key(node) {
            Some(self.sources[node].runtime)
        } else if self.sinks.contains_key(node) {
            Some(self.sinks[node].runtime)
        } else {
            None
        }
    }

    /// The type of the output `port` of `node`, looked for among the
    /// operators, then the sources.
    pub open spec fn output_type(self, node: Seq<char>, port: Seq<char>) -> Option<Seq<char>> {
        if self.operators.contains_key(node) {
            port_type_of(self.operators[node].outputs, port)
        } else if self.sources.contains_key(node) {
            port_type_of(seq![self.sources[node].output], port)
        } else {
            None
        }
    }

    /// The type of the input `port` of `node`, looked for among the
    /// operators, then the sinks.
    pub open spec fn input_type(self, node: Seq<char>, port: Seq<char>) -> Option<Seq<char>> {
        if self.operators.contains_key(node) {
            port_type_of(self.operators[node].inputs, port)
        } else if self.sinks.contains_key(node) {
            port_type_of(seq![self.sinks[node].input], port)
        } else {
            None
        }
    }

    /// Why `link` cannot be added to this record, if it cannot: an endpoint
    /// without a runtime, then an endpoint without its port, then two port
    /// types that differ.
    pub open spec fn link_fault(self, link: LinkView) -> Option<ErrorView> {
        if self.runtime_of(link.from.node) is None {
            Some(ErrorView::Uncompleted("Unable to find runtime for "@ + link.from.node))
        } else if self.runtime_of(link.to.node) is None {
            Some(ErrorView::Uncompleted("Unable to find runtime for "@ + link.to.node))
        } else if self.output_type(link.from.node, link.from.output) is None {
            Some(ErrorView::PortNotFound(link.from.node, link.from.output))
        } else if self.input_type(link.to.node, link.to.input) is None {
            Some(ErrorView::PortNotFound(link.to.node, link.to.input))
        } else if !compatible(
            self.output_type(link.from.node, link.from.output)->0,
            self.input_type(link.to.node, link.to.input)->0,
        ) {
            Some(
                ErrorView::PortTypeNotMatching(
                    self.output_type(link.from.node, link.from.output)->0,
                    self.input_type(link.to.node, link.to.input)->0,
                ),
            )
        } else {
            None
        }
    }

    /// Whether the two ends of `link` are placed on different runtimes.
    pub open spec fn crosses_runtimes(self, link: LinkView) -> bool {
        self.runtime_of(link.from.node) != self.runtime_of(link.to.node)
    }

    /// The resource that carries `link` between runtimes.
    pub open spec fn resource_of(self, link: LinkView) -> Seq<char> {
        resource_name(self.flow, self.uuid, link.from.node, link.from.output)
    }

    /// The sender that publishes the source end of `link`.
    pub open spec fn sender_for(self, link: LinkView) -> ConnectorView {
        ConnectorView {
            kind: ZFConnectorKind::Sender,
            id: sender_name(self.flow, self.uuid, link.from.node, link.from.output),
            resource: self.resource_of(link),
            link_id: PortView {
                port_id: link.from.output,
                port_type: self.output_type(link.from.node, link.from.output)->0,
            },
            runtime: self.runtime_of(link.from.node)->0,
        }
    }

    /// The receiver that feeds the destination end of `link`.
    pub open spec fn receiver_for(self, link: LinkView) -> ConnectorView {
        ConnectorView {
            kind: ZFConnectorKind::Receiver,
            id: receiver_name(self.flow, self.uuid, link.to.node, link.to.input),
            resource: self.resource_of(link),
            link_id: PortView {
                port_id: link.to.input,
                port_type: self.input_type(link.to.node, link.to.input)->0,
            },
            runtime: self.runtime_of(link.to.node)->0,
        }
    }

    /// This record with `link` added, for a link without fault. A link
    /// within one runtime is kept as it is. A link between two runtimes
    /// becomes a sender and its link, unless the record already has a sender
    /// on the same resource, and then a receiver and its link.
    pub open spec fn with_link(self, link: LinkView) -> RecordView {
        if !self.crosses_runtimes(link) {
            RecordView { links: self.links.push(link), ..self }
        } else {
            let sender = self.sender_for(link);
            let receiver = self.receiver_for(link);
            let sent = if has_sender(self.connectors, self.resource_of(link)) {
                self
            } else {
                RecordView {
                    connectors: self.connectors.push(sender),
                    links: self.links.push(sender_link(link.from, sender.id)),
                    ..self
                }
            };
            RecordView {
                connectors: sent.connectors.push(receiver),
                links: sent.links.push(receiver_link(receiver.id, link.to)),
                ..sent
            }
        }
    }

    /// One step of adding links: the record after `link` has been looked at,
    /// and the fault that stopped the step, if one did. A link that touches
    /// a removed node is passed over.
    pub open spec fn add_link(self, link: LinkView, removed: Set<Seq<char>>) -> (
        RecordView,
        Option<ErrorView>,
    ) {
        if !stays(link, removed) {
            (self, None)
        } else if self.link_fault(link) is Some {
            (self, self.link_fault(link))
        } else {
            (self.with_link(link), None)
        }
    }

    /// Adding `links` one after the other, up to the first fault: the record
    /// reached, and that fault if there was one.
    pub open spec fn add_links(self, links: Seq<LinkView>, removed: Set<Seq<char>>) -> (
        RecordView,
        Option<ErrorView>,
    )
        decreases links.len(),
    {
        if links.len() == 0 {
            (self, None)
        } else {
            let before = self.add_links(links.drop_last(), removed);
            if before.1 is Some {
                before
            } else {
                before.0.add_link(links.last(), removed)
            }
        }
    }
}

/// Once adding links has met a fault, further links change nothing.
pub proof fn lemma_add_links_stops(
    rec: RecordView,
    links: Seq<LinkView>,
    removed: Set<Seq<char>>,
    n: int,
)
    requires
        0 <= n <= links.len(),
        rec.add_links(links.take(n), removed).1 is Some,
    ensures
        rec.add_links(links, removed) == rec.add_links(links.take(n), removed),
    decreases links.len() - n,
{
    if n == links.len() {
        assert(links.take(n) =~= links);
    } else {
        assert(links.drop_last().take(n) =~= links.take(n));
        lemma_add_links_stops(rec, links.drop_last(), removed, n);
    }
}

impl DataFlowRecord {
    /// The runtime of the node `id`.
    fn runtime_of_node(&self, id: &String) -> (r: Option<String>)
        ensures
            opt_view(r) == self@.runtime_of(id@),
    {
        match self.operators.get(id) {
            Some(o) => Some(o.runtime.clone()),
            None => match self.sources.get(id) {
                Some(s) => Some(s.runtime.clone()),
                None => match self.sinks.get(id) {
                    Some(s) => Some(s.runtime.clone()),
                    None => None,
                },
            },
        }
    }

    /// The type of the output `output` of the node `id`.
    fn output_type_of_node(&self, id: &String, output: &String) -> (r: Option<String>)
        ensures
            opt_view(r) == self@.output_type(id@, output@),
    {
        match self.operators.get(id) {
            Some(o) => o.get_output_type(output),
            None => match self.sources.get(id) {
                Some(s) => s.get_output_type(output),
                None => None,
            },
        }
    }

    /// The type of the input `input` of the node `id`.
    fn input_type_of_node(&self, id: &String, input: &String) -> (r: Option<String>)
        ensures
            opt_view(r) == self@.input_type(id@, input@),
    {
        match self.operators.get(id) {
            Some(o) => o.get_input_type(input),
            None => match self.sinks.get(id) {
                Some(s) => s.get_input_type(input),
                None => None,
            },
        }
    }

    /// Returns the runtime mapping for the given node.
    pub fn find_node_runtime(&self, id: &str) -> (r: Option<String>)
        ensures
            opt_view(r) == self@.runtime_of(id@),
    {
        let key = id.to_owned();
        self.runtime_of_node(&key)
    }

    /// Returns the output type for the given node and port.
    pub fn find_node_output_type(&self, id: &str, output: &str) -> (r: Option<String>)
        ensures
            opt_view(r) == self@.output_type(id@, output@),
    {
        let key = id.to_owned();
        let port = output.to_owned();
        self.output_type_of_node(&key, &port)
    }

    /// Returns the input type for the given node and port.
    pub fn find_node_input_type(&self, id: &str, input: &str) -> (r: Option<String>)
        ensures
            opt_view(r) == self@.input_type(id@, input@),
    {
        let key = id.to_owned();
        let port = input.to_owned();
        self.input_type_of_node(&key, &port)
    }

    /// Adds the links.
    ///
    /// A link that touches a node of `nodes_to_remove` is passed over. A link
    /// between two nodes of one runtime is kept as it is. For a link between
    /// nodes of different runtimes the record gets the two connectors in
    /// between, and the links that attach them; the sender is shared by all
    /// links that leave through the same output.
    ///
    /// The first link with a fault stops the work: the record then holds what
    /// the links before it have added, and the fault is returned.
    pub fn add_links(&mut self, links: &Vec<LinkDescriptor>, nodes_to_remove: &Vec<String>) -> (r:
        Result<(), ZFError>)
        ensures
            final(self)@ == old(self)@.add_links(
                views(links@),
                views(nodes_to_remove@).to_set(),
            ).0,
            match r {
                Ok(()) => old(self)@.add_links(
                    views(links@),
                    views(nodes_to_remove@).to_set(),
                ).1 is None,
                Err(e) => old(self)@.add_links(
                    views(links@),
                    views(nodes_to_remove@).to_set(),
                ).1 == Some(e@),
            },
    {
        let ghost start = self@;
        let ghost all = views(links@);
        let ghost removed = views(nodes_to_remove@).to_set();
        let mut i: usize = 0;
        assert(all.take(0) =~= Seq::<LinkView>::empty());
        while i < links.len()
            invariant
                i <= links@.len(),
                start == old(self)@,
                all == views(links@),
                removed == views(nodes_to_remove@).to_set(),
                start.add_links(all.take(i as int), removed) == (self@, None::<ErrorView>),
            decreases links@.len() - i,
        {
            let l = &links[i];
            let ghost lv = all[i as int];
            let ghost here = self@;
            proof {
                assert(lv == l@);
                assert(all.take(i + 1).drop_last() =~= all.take(i as int));
                assert(all.take(i + 1).last() == lv);
                assert(start.add_links(all.take(i + 1), removed) == here.add_link(lv, removed));
            }
            if !has_text(nodes_to_remove, &l.from.node) && !has_text(nodes_to_remove, &l.to.node) {
                match self.add_one(l) {
                    Ok(()) => {},
                    Err(e) => {
                        proof {
                            lemma_add_links_stops(start, all, removed, i + 1);
                        }
                        return Err(e);
                    },
                }
            }
            i += 1;
        }
        assert(all.take(all.len() as int) =~= all);
        Ok(())
    }

    /// Adds one link whose two nodes stay in the flow.
    fn add_one(&mut self, l: &LinkDescriptor) -> (r: Result<(), ZFError>)
        ensures
            match r {
                Ok(()) => old(self)@.link_fault(l@) is None && final(self)@ == old(self)@.with_link(
                    l@,
                ),
                Err(e) => old(self)@.link_fault(l@) == Some(e@) && final(self)@ == old(self)@,
            },
    {
        let ghost here = self@;
        let from_runtime = match self.runtime_of_node(&l.from.node) {
            Some(rt) => rt,
            None => {
                return Err(
                    ZFError::Uncompleted(prefixed("Unable to find runtime for ", &l.from.node)),
                );
            },
        };
        let to_runtime = match self.runtime_of_node(&l.to.node) {
            Some(rt) => rt,
            None => {
                return Err(
                    ZFError::Uncompleted(prefixed("Unable to find runtime for ", &l.to.node)),
                );
            },
        };
        let from_type = match self.output_type_of_node(&l.from.node, &l.from.output) {
            Some(t) => t,
            None => {
                return Err(ZFError::PortNotFound((l.from.node.clone(), l.from.output.clone())));
            },
        };
        let to_type = match self.input_type_of_node(&l.to.node, &l.to.input) {
            Some(t) => t,
            None => {
                return Err(ZFError::PortNotFound((l.to.node.clone(), l.to.input.clone())));
            },
        };
        if !port_types_match(&from_type, &to_type) {
            return Err(ZFError::PortTypeNotMatching((from_type, to_type)));
        }
        if from_runtime == to_runtime {
            let kept = l.clone();
            proof {
                lemma_views_push(self.links@, kept);
            }
            self.links.push(kept);
            assert(self@ == here.with_link(l@));
        } else {
            let resource = make_resource_name(&self.flow, self.uuid, &l.from.node, &l.from.output);
            if !self.has_sender_on(&resource) {
                let sender_id = make_sender_name(
                    &self.flow,
                    self.uuid,
                    &l.from.node,
                    &l.from.output,
                );
                let sender = ZFConnectorRecord {
                    kind: ZFConnectorKind::Sender,
                    id: sender_id.clone(),
                    resource: resource.clone(),
                    link_id: PortDescriptor {
                        port_id: l.from.output.clone(),
                        port_type: from_type,
                    },
                    runtime: from_runtime,
                };
                let link_sender = LinkDescriptor {
                    from: l.from.clone(),
                    to: InputDescriptor { node: sender_id, input: l.from.output.clone() },
                    size: None,
                    queueing_policy: None,
                    priority: None,
                };
                proof {
                    lemma_views_push(self.connectors@, sender);
                    lemma_views_push(self.links@, link_sender);
                    assert(sender@ == here.sender_for(l@));
                    assert(link_sender@ == sender_link(l@.from, sender@.id));
                }
                self.connectors.push(sender);
                self.links.push(link_sender);
            }
            let receiver_id = make_receiver_name(&self.flow, self.uuid, &l.to.node, &l.to.input);
            let receiver = ZFConnectorRecord {
                kind: ZFConnectorKind::Receiver,
                id: receiver_id.clone(),
                resource,
                link_id: PortDescriptor { port_id: l.to.input.clone(), port_type: to_type },
                runtime: to_runtime,
            };
            let link_receiver = LinkDescriptor {
                from: OutputDescriptor { node: receiver_id, output: l.to.input.clone() },
                to: l.to.clone(),
                size: None,
                queueing_policy: None,
                priority: None,
            };
            proof {
                lemma_views_push(self.connectors@, receiver);
                lemma_views_push(self.links@, link_receiver);
                assert(receiver@ == here.receiver_for(l@));
                assert(link_receiver@ == receiver_link(receiver@.id, l@.to));
            }
            self.connectors.push(receiver);
            self.links.push(link_receiver);
            assert(self@ == here.with_link(l@));
        }
        Ok(())
    }

    /// Whether the record has a sender on `resource`.
    fn has_sender_on(&self, resource: &String) -> (r: bool)
        ensures
            r == has_sender(self@.connectors, resource@),
    {
        let mut i: usize = 0;
        while i < self.connectors.len()
            invariant
                i <= self.connectors@.len(),
                forall|j: int|
                    0 <= j < i ==> !((#[trigger] self@.connectors[j]).kind
                        == ZFConnectorKind::Sender && self@.connectors[j].resource == resource@),
            decreases self.connectors@.len() - i,
        {
            assert(self@.connectors[i as int] == self.connectors@[i as int]@);
            let c = &self.connectors[i];
            let is_sender = match c.kind {
                ZFConnectorKind::Sender => true,
                ZFConnectorKind::Receiver => false,
            };
            if is_sender && c.resource == *resource {
                return true;
            }
            i += 1;
        }
        false
    }
}

} // verus!
