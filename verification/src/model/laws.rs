//! What holds of every compilation, proved from the definitions in
//! [`crate::model::compile`] and [`crate::model::record`].

use crate::model::compile::{
    all_links,
    apply_loop,
    apply_loops,
    compile,
    compile_nodes,
    declared_loops,
    declared_mapping,
    feedback_port,
    loop_link,
    operator_id,
    operator_record,
    place,
    sink_id,
    sink_record,
    source_id,
    source_record,
};
use crate::model::descriptor::DescriptorView;
use crate::model::flag::removed_nodes;
use crate::model::link::{InputView, LinkView, OutputView, PortView};
use crate::model::loops::LoopView;
use crate::model::node::OperatorView;
use crate::model::connector::{has_sender, senders_unique, ConnectorView, ZFConnectorKind};
use crate::model::record::{receiver_link, sender_link, stays, RecordView};
use crate::types::ErrorView;
use vstd::prelude::*;

verus! {

/// Whether `a` is the beginning of `b`.
pub open spec fn begins<T>(a: Seq<T>, b: Seq<T>) -> bool {
    a.len() <= b.len() && b.take(a.len() as int) == a
}

/// Whether two records have the same identity and the same nodes.
pub open spec fn same_nodes(a: RecordView, b: RecordView) -> bool {
    &&& a.uuid == b.uuid
    &&& a.flow == b.flow
    &&& a.operators == b.operators
    &&& a.sources == b.sources
    &&& a.sinks == b.sinks
    &&& a.end_to_end_deadlines == b.end_to_end_deadlines
}

/// Adding links changes neither the identity nor the nodes of a record, and
/// only appends to its connectors and its links.
pub proof fn lemma_add_links_frame(rec: RecordView, links: Seq<LinkView>, removed: Set<Seq<char>>)
    ensures
        same_nodes(rec, rec.add_links(links, removed).0),
        begins(rec.connectors, rec.add_links(links, removed).0.connectors),
        begins(rec.links, rec.add_links(links, removed).0.links),
    decreases links.len(),
{
    if links.len() == 0 {
        assert(rec.connectors.take(rec.connectors.len() as int) =~= rec.connectors);
        assert(rec.links.take(rec.links.len() as int) =~= rec.links);
    } else {
        lemma_add_links_frame(rec, links.drop_last(), removed);
        let before = rec.add_links(links.drop_last(), removed).0;
        let after = rec.add_links(links, removed).0;
        assert(begins(before.connectors, after.connectors)) by {
            assert(after.connectors.take(before.connectors.len() as int) =~= before.connectors);
        }
        assert(begins(before.links, after.links)) by {
            assert(after.links.take(before.links.len() as int) =~= before.links);
        }
        assert(after.connectors.take(rec.connectors.len() as int) =~= before.connectors.take(
            rec.connectors.len() as int,
        ));
        assert(after.links.take(rec.links.len() as int) =~= before.links.take(
            rec.links.len() as int,
        ));
    }
}

/// Placing nodes fails exactly when a node that stays has no runtime.
pub proof fn lemma_place_fails_iff<D, R>(
    nodes: Seq<D>,
    id_of: spec_fn(D) -> Seq<char>,
    build: spec_fn(D, Seq<char>) -> R,
    removed: Set<Seq<char>>,
    mapping: Map<Seq<char>, Seq<char>>,
)
    ensures
        place(nodes, id_of, build, removed, mapping) is None <==> exists|i: int|
            0 <= i < nodes.len() && !removed.contains(id_of(#[trigger] nodes[i]))
                && !mapping.contains_key(id_of(nodes[i])),
    decreases nodes.len(),
{
    if nodes.len() > 0 {
        let front = nodes.drop_last();
        lemma_place_fails_iff(front, id_of, build, removed, mapping);
        if place(nodes, id_of, build, removed, mapping) is None {
            if place(front, id_of, build, removed, mapping) is None {
                let i = choose|i: int|
                    0 <= i < front.len() && !removed.contains(id_of(#[trigger] front[i]))
                        && !mapping.contains_key(id_of(front[i]));
                assert(nodes[i] == front[i]);
            } else {
                assert(!removed.contains(id_of(nodes[nodes.len() - 1])));
            }
        } else {
            assert forall|i: int| 0 <= i < nodes.len() implies !(!removed.contains(
                id_of(#[trigger] nodes[i]),
            ) && !mapping.contains_key(id_of(nodes[i]))) by {
                if i < front.len() {
                    assert(nodes[i] == front[i]);
                }
            }
        }
    }
}

/// Whether the description declares a node of identifier `node`.
pub open spec fn declares(d: DescriptorView, node: Seq<char>) -> bool {
    ||| exists|i: int| 0 <= i < d.operators.len() && (#[trigger] d.operators[i]).id == node
    ||| exists|i: int| 0 <= i < d.sources.len() && (#[trigger] d.sources[i]).id == node
    ||| exists|i: int| 0 <= i < d.sinks.len() && (#[trigger] d.sinks[i]).id == node
}

/// A node that stays in the flow and has no entry in the runtime mapping
/// makes the compilation fail with `MissingConfiguration`: no record is
/// produced.
pub proof fn lemma_unmapped_node_fails(d: DescriptorView, id: u128, node: Seq<char>)
    requires
        declares(d, node),
        !removed_nodes(d.flags).contains(node),
        !declared_mapping(d).contains_key(node),
    ensures
        compile(d, id) == Err::<RecordView, ErrorView>(ErrorView::MissingConfiguration),
{
    let removed = removed_nodes(d.flags);
    let mapping = declared_mapping(d);
    let global = d.global_configuration;
    lemma_place_fails_iff(
        d.operators,
        operator_id(),
        operator_record(global),
        removed,
        mapping,
    );
    lemma_place_fails_iff(
        d.sources,
        source_id(),
        source_record(global),
        removed,
        mapping,
    );
    lemma_place_fails_iff(
        d.sinks,
        sink_id(),
        sink_record(global),
        removed,
        mapping,
    );
    if exists|i: int| 0 <= i < d.operators.len() && (#[trigger] d.operators[i]).id == node {
        let i = choose|i: int| 0 <= i < d.operators.len() && (#[trigger] d.operators[i]).id == node;
        assert(operator_id()(d.operators[i]) == node);
    } else if exists|i: int| 0 <= i < d.sources.len() && (#[trigger] d.sources[i]).id == node {
        let i = choose|i: int| 0 <= i < d.sources.len() && (#[trigger] d.sources[i]).id == node;
        assert(source_id()(d.sources[i]) == node);
    } else {
        let i = choose|i: int| 0 <= i < d.sinks.len() && (#[trigger] d.sinks[i]).id == node;
        assert(sink_id()(d.sinks[i]) == node);
    }
}

/// Whether link `k` of `links` is the first that stays and has a fault.
pub open spec fn first_fault_at(
    rec: RecordView,
    links: Seq<LinkView>,
    removed: Set<Seq<char>>,
    k: int,
) -> bool {
    &&& 0 <= k < links.len()
    &&& stays(links[k], removed)
    &&& rec.link_fault(links[k]) is Some
    &&& forall|j: int|
        0 <= j < k ==> !(stays(#[trigger] links[j], removed) && rec.link_fault(links[j]) is Some)
}

/// Adding links succeeds exactly when no link that stays has a fault, and
/// otherwise returns the fault of the first such link.
pub proof fn lemma_add_links_fault(rec: RecordView, links: Seq<LinkView>, removed: Set<Seq<char>>)
    ensures
        match rec.add_links(links, removed).1 {
            None => forall|k: int|
                0 <= k < links.len() && stays(#[trigger] links[k], removed) ==> rec.link_fault(
                    links[k],
                ) is None,
            Some(e) => exists|k: int|
                first_fault_at(rec, links, removed, k) && rec.link_fault(#[trigger] links[k])
                    == Some(e),
        },
    decreases links.len(),
{
    if links.len() > 0 {
        let front = links.drop_last();
        let last = links.last();
        lemma_add_links_fault(rec, front, removed);
        lemma_add_links_frame(rec, front, removed);
        let before = rec.add_links(front, removed);
        assert(before.0.link_fault(last) == rec.link_fault(last));
        match before.1 {
            Some(e) => {
                let k = choose|k: int|
                    first_fault_at(rec, front, removed, k) && rec.link_fault(#[trigger] front[k])
                        == Some(e);
                assert(links[k] == front[k]);
                assert forall|j: int| 0 <= j < k implies !(stays(#[trigger] links[j], removed)
                    && rec.link_fault(links[j]) is Some) by {
                    assert(links[j] == front[j]);
                }
                assert(first_fault_at(rec, links, removed, k));
            },
            None => {
                assert forall|j: int| 0 <= j < links.len() - 1 implies !(stays(
                    #[trigger] links[j],
                    removed,
                ) && rec.link_fault(links[j]) is Some) by {
                    assert(links[j] == front[j]);
                }
                if stays(last, removed) && rec.link_fault(last) is Some {
                    assert(first_fault_at(rec, links, removed, links.len() - 1));
                }
            },
        }
    }
}

/// A link that stays in the flow and joins an output of one type to an input
/// of another type makes the compilation fail: no record is produced. Where
/// it is the first link with a fault, the error is `PortTypeNotMatching` and
/// names the type of the output and the type of the input.
pub proof fn lemma_type_mismatch_fails(d: DescriptorView, id: u128, k: int)
    requires
        compile_nodes(d, id) is Ok,
        0 <= k < all_links(d).len(),
        stays(all_links(d)[k], removed_nodes(d.flags)),
        ({
            let start = compile_nodes(d, id)->Ok_0;
            let link = all_links(d)[k];
            &&& start.output_type(link.from.node, link.from.output) is Some
            &&& start.input_type(link.to.node, link.to.input) is Some
            &&& start.output_type(link.from.node, link.from.output) != start.input_type(
                link.to.node,
                link.to.input,
            )
        }),
    ensures
        compile(d, id) is Err,
        first_fault_at(compile_nodes(d, id)->Ok_0, all_links(d), removed_nodes(d.flags), k)
            ==> compile(d, id) == Err::<RecordView, ErrorView>(
            ErrorView::PortTypeNotMatching(
                compile_nodes(d, id)->Ok_0.output_type(
                    all_links(d)[k].from.node,
                    all_links(d)[k].from.output,
                )->0,
                compile_nodes(d, id)->Ok_0.input_type(
                    all_links(d)[k].to.node,
                    all_links(d)[k].to.input,
                )->0,
            ),
        ),
{
    let start = compile_nodes(d, id)->Ok_0;
    let links = all_links(d);
    let removed = removed_nodes(d.flags);
    lemma_add_links_fault(start, links, removed);
    assert(start.link_fault(links[k]) is Some);
    if first_fault_at(start, links, removed, k) {
        let e = start.add_links(links, removed).1->0;
        let w = choose|w: int|
            first_fault_at(start, links, removed, w) && start.link_fault(#[trigger] links[w])
                == Some(e);
        if w < k {
            assert(stays(links[w], removed) && start.link_fault(links[w]) is Some);
        } else if k < w {
            assert(stays(links[k], removed) && start.link_fault(links[k]) is Some);
        }
        assert(w == k);
    }
}

/// Whether `link` is what adding the declared link `from` to `rec` puts
/// into the record: `from` itself within one runtime; between runtimes the
/// link to its sender, or the link from its receiver.
pub open spec fn link_born_of(rec: RecordView, link: LinkView, from: LinkView) -> bool {
    if rec.crosses_runtimes(from) {
        link == sender_link(from.from, rec.sender_for(from).id) || link == receiver_link(
            rec.receiver_for(from).id,
            from.to,
        )
    } else {
        link == from
    }
}

/// Whether `connector` is the sender or the receiver of the declared link
/// `from`, which crosses runtimes.
pub open spec fn connector_born_of(rec: RecordView, connector: ConnectorView, from: LinkView) -> bool {
    rec.crosses_runtimes(from) && (connector == rec.sender_for(from) || connector
        == rec.receiver_for(from))
}

/// Whether link `k` of `links` stays in the flow and has no fault.
pub open spec fn accepted(rec: RecordView, links: Seq<LinkView>, removed: Set<Seq<char>>, k: int) -> bool {
    0 <= k < links.len() && stays(links[k], removed) && rec.link_fault(links[k]) is None
}

/// Whether `link` comes from a link of `links` that stays and has no fault.
pub open spec fn link_has_origin(
    rec: RecordView,
    links: Seq<LinkView>,
    removed: Set<Seq<char>>,
    link: LinkView,
) -> bool {
    exists|k: int| #[trigger]
        accepted(rec, links, removed, k) && link_born_of(rec, link, links[k])
}

/// Whether `connector` comes from a link of `links` that stays and has no
/// fault.
pub open spec fn connector_has_origin(
    rec: RecordView,
    links: Seq<LinkView>,
    removed: Set<Seq<char>>,
    connector: ConnectorView,
) -> bool {
    exists|k: int| #[trigger]
        accepted(rec, links, removed, k) && connector_born_of(rec, connector, links[k])
}

/// Every link and every connector that adding links puts into a record comes
/// from a link that stays in the flow: nothing is made for a link that
/// touches a removed node.
pub proof fn lemma_add_links_provenance(
    rec: RecordView,
    links: Seq<LinkView>,
    removed: Set<Seq<char>>,
)
    ensures
        forall|i: int|
            rec.links.len() <= i < rec.add_links(links, removed).0.links.len()
                ==> link_has_origin(
                rec,
                links,
                removed,
                #[trigger] rec.add_links(links, removed).0.links[i],
            ),
        forall|i: int|
            rec.connectors.len() <= i < rec.add_links(links, removed).0.connectors.len()
                ==> connector_has_origin(
                rec,
                links,
                removed,
                #[trigger] rec.add_links(links, removed).0.connectors[i],
            ),
    decreases links.len(),
{
    if links.len() > 0 {
        let front = links.drop_last();
        let last = links.last();
        let n = links.len() - 1;
        lemma_add_links_provenance(rec, front, removed);
        lemma_add_links_frame(rec, front, removed);
        let before = rec.add_links(front, removed);
        let after = rec.add_links(links, removed).0;
        assert(after.links.take(before.0.links.len() as int) =~= before.0.links);
        assert(after.connectors.take(before.0.connectors.len() as int) =~= before.0.connectors);
        assert(before.0.link_fault(last) == rec.link_fault(last));
        assert forall|i: int| rec.links.len() <= i < after.links.len() implies link_has_origin(
            rec,
            links,
            removed,
            #[trigger] after.links[i],
        ) by {
            if i < before.0.links.len() {
                assert(after.links[i] == before.0.links[i]);
                assert(link_has_origin(rec, front, removed, before.0.links[i]));
                let k = choose|k: int| #[trigger]
                    accepted(rec, front, removed, k) && link_born_of(
                        rec,
                        before.0.links[i],
                        front[k],
                    );
                assert(links[k] == front[k]);
                assert(accepted(rec, links, removed, k));
            } else {
                assert(accepted(rec, links, removed, n));
                assert(link_born_of(rec, after.links[i], links[n]));
            }
        }
        assert forall|i: int|
            rec.connectors.len() <= i < after.connectors.len() implies connector_has_origin(
            rec,
            links,
            removed,
            #[trigger] after.connectors[i],
        ) by {
            if i < before.0.connectors.len() {
                assert(after.connectors[i] == before.0.connectors[i]);
                assert(connector_has_origin(rec, front, removed, before.0.connectors[i]));
                let k = choose|k: int| #[trigger]
                    accepted(rec, front, removed, k) && connector_born_of(
                        rec,
                        before.0.connectors[i],
                        front[k],
                    );
                assert(links[k] == front[k]);
                assert(accepted(rec, links, removed, k));
            } else {
                assert(accepted(rec, links, removed, n));
                assert(connector_born_of(rec, after.connectors[i], links[n]));
            }
        }
    }
}

/// Adding links never gives one resource a second sender.
pub proof fn lemma_add_links_keeps_senders_unique(
    rec: RecordView,
    links: Seq<LinkView>,
    removed: Set<Seq<char>>,
)
    requires
        senders_unique(rec.connectors),
    ensures
        senders_unique(rec.add_links(links, removed).0.connectors),
    decreases links.len(),
{
    if links.len() > 0 {
        lemma_add_links_keeps_senders_unique(rec, links.drop_last(), removed);
    }
}

/// Where all links have been added without fault, each link that stays is
/// in the record: itself, if its two nodes share a runtime; otherwise as a
/// sender on its resource and a receiver of its own, with the receiver's
/// link to the destination.
pub proof fn lemma_add_links_complete(
    rec: RecordView,
    links: Seq<LinkView>,
    removed: Set<Seq<char>>,
    k: int,
)
    requires
        rec.add_links(links, removed).1 is None,
        0 <= k < links.len(),
        stays(links[k], removed),
    ensures
        !rec.crosses_runtimes(links[k]) ==> rec.add_links(links, removed).0.links.contains(
            links[k],
        ),
        rec.crosses_runtimes(links[k]) ==> {
            let out = rec.add_links(links, removed).0;
            &&& has_sender(out.connectors, rec.resource_of(links[k]))
            &&& out.connectors.contains(rec.receiver_for(links[k]))
            &&& out.links.contains(receiver_link(rec.receiver_for(links[k]).id, links[k].to))
        },
    decreases links.len(),
{
    let front = links.drop_last();
    let last = links.last();
    let before = rec.add_links(front, removed);
    let out = rec.add_links(links, removed).0;
    lemma_add_links_frame(rec, front, removed);
    assert(before.1 is None);
    if k < links.len() - 1 {
        assert(front[k] == links[k]);
        lemma_add_links_complete(rec, front, removed, k);
        let link = links[k];
        // What the earlier links have put into the record is still there.
        assert forall|c: ConnectorView| before.0.connectors.contains(c) implies out.connectors.contains(
            c,
        ) by {
            let i = choose|i: int| 0 <= i < before.0.connectors.len() && before.0.connectors[i] == c;
            assert(out.connectors[i] == c);
        }
        assert forall|l: LinkView| before.0.links.contains(l) implies out.links.contains(l) by {
            let i = choose|i: int| 0 <= i < before.0.links.len() && before.0.links[i] == l;
            assert(out.links[i] == l);
        }
        if rec.crosses_runtimes(link) {
            let i = choose|i: int|
                0 <= i < before.0.connectors.len() && (#[trigger] before.0.connectors[i]).kind
                    == ZFConnectorKind::Sender && before.0.connectors[i].resource
                    == rec.resource_of(link);
            assert(out.connectors[i] == before.0.connectors[i]);
        }
    } else {
        assert(last == links[k]);
        assert(before.0.link_fault(last) == rec.link_fault(last));
        if rec.crosses_runtimes(last) {
            let resource = rec.resource_of(last);
            if has_sender(before.0.connectors, resource) {
                let i = choose|i: int|
                    0 <= i < before.0.connectors.len() && (#[trigger] before.0.connectors[i]).kind
                        == ZFConnectorKind::Sender && before.0.connectors[i].resource == resource;
                assert(out.connectors[i] == before.0.connectors[i]);
                assert(out.connectors[out.connectors.len() - 1] == rec.receiver_for(last));
            } else {
                assert(out.connectors[out.connectors.len() - 2] == rec.sender_for(last));
                assert(out.connectors[out.connectors.len() - 1] == rec.receiver_for(last));
            }
            assert(out.links[out.links.len() - 1] == receiver_link(
                rec.receiver_for(last).id,
                last.to,
            ));
        } else {
            assert(out.links[out.links.len() - 1] == last);
        }
    }
}

/// The nodes that have been placed are the declared nodes that stay, and
/// each of them has a runtime in the mapping.
pub proof fn lemma_place_keys<D, R>(
    nodes: Seq<D>,
    id_of: spec_fn(D) -> Seq<char>,
    build: spec_fn(D, Seq<char>) -> R,
    removed: Set<Seq<char>>,
    mapping: Map<Seq<char>, Seq<char>>,
)
    requires
        place(nodes, id_of, build, removed, mapping) is Some,
    ensures
        forall|key: Seq<char>| #[trigger]
            place(nodes, id_of, build, removed, mapping)->0.contains_key(key) <==> (
            !removed.contains(key) && exists|i: int|
                0 <= i < nodes.len() && id_of(#[trigger] nodes[i]) == key),
        forall|key: Seq<char>| #[trigger]
            place(nodes, id_of, build, removed, mapping)->0.contains_key(key)
                ==> mapping.contains_key(key),
    decreases nodes.len(),
{
    if nodes.len() > 0 {
        let front = nodes.drop_last();
        let last = nodes.last();
        lemma_place_keys(front, id_of, build, removed, mapping);
        let before = place(front, id_of, build, removed, mapping)->0;
        let after = place(nodes, id_of, build, removed, mapping)->0;
        assert forall|key: Seq<char>| #[trigger]
            after.contains_key(key) <==> (!removed.contains(key) && exists|i: int|
                0 <= i < nodes.len() && id_of(#[trigger] nodes[i]) == key) by {
            if after.contains_key(key) {
                if before.contains_key(key) {
                    let i = choose|i: int| 0 <= i < front.len() && id_of(#[trigger] front[i]) == key;
                    assert(nodes[i] == front[i]);
                } else {
                    assert(id_of(nodes[nodes.len() - 1]) == key);
                }
            }
            if !removed.contains(key) && exists|i: int|
                0 <= i < nodes.len() && id_of(#[trigger] nodes[i]) == key {
                let i = choose|i: int| 0 <= i < nodes.len() && id_of(#[trigger] nodes[i]) == key;
                if i < front.len() {
                    assert(nodes[i] == front[i]);
                }
            }
        }
    }
}

/// What a loop does to the operators: the ingress gains the feedback port
/// as its last input, the egress gains it as its last output, and no other
/// port of any operator changes.
pub proof fn lemma_loop_adds_ports(ops: Map<Seq<char>, OperatorView>, l: LoopView)
    requires
        apply_loop(ops, l) is Some,
    ensures
        ({
            let after = apply_loop(ops, l)->0;
            &&& ops.contains_key(l.ingress) && ops.contains_key(l.egress)
            &&& forall|key: Seq<char>| after.contains_key(key) <==> ops.contains_key(key)
            &&& after[l.ingress].inputs == ops[l.ingress].inputs.push(feedback_port(l))
            &&& after[l.egress].outputs == ops[l.egress].outputs.push(feedback_port(l))
            &&& after[l.ingress].ciclo == Some(l) && after[l.egress].ciclo == Some(l)
            &&& forall|key: Seq<char>|
                ops.contains_key(key) && key != l.ingress ==> (#[trigger] after[key]).inputs
                    == ops[key].inputs
            &&& forall|key: Seq<char>|
                ops.contains_key(key) && key != l.egress ==> (#[trigger] after[key]).outputs
                    == ops[key].outputs
            &&& forall|key: Seq<char>|
                ops.contains_key(key) ==> (#[trigger] after[key]).runtime == ops[key].runtime
        }),
{
}

/// Loops keep the operators that there are, with their runtimes, and only
/// append to their inputs and outputs.
pub proof fn lemma_apply_loops_grow(ops: Map<Seq<char>, OperatorView>, loops: Seq<LoopView>)
    requires
        apply_loops(ops, loops) is Some,
    ensures
        forall|key: Seq<char>| #[trigger]
            apply_loops(ops, loops)->0.contains_key(key) <==> ops.contains_key(key),
        forall|key: Seq<char>|
            ops.contains_key(key) ==> {
                let after = #[trigger] apply_loops(ops, loops)->0[key];
                &&& after.runtime == ops[key].runtime
                &&& begins(ops[key].inputs, after.inputs)
                &&& begins(ops[key].outputs, after.outputs)
            },
    decreases loops.len(),
{
    if loops.len() == 0 {
        assert forall|key: Seq<char>| ops.contains_key(key) implies begins(
            ops[key].inputs,
            ops[key].inputs,
        ) && begins(ops[key].outputs, ops[key].outputs) by {
            assert(ops[key].inputs.take(ops[key].inputs.len() as int) =~= ops[key].inputs);
            assert(ops[key].outputs.take(ops[key].outputs.len() as int) =~= ops[key].outputs);
        }
    } else {
        let front = loops.drop_last();
        let l = loops.last();
        lemma_apply_loops_grow(ops, front);
        let before = apply_loops(ops, front)->0;
        let after = apply_loops(ops, loops)->0;
        lemma_loop_adds_ports(before, l);
        assert forall|key: Seq<char>| ops.contains_key(key) implies {
            let a = #[trigger] after[key];
            &&& a.runtime == ops[key].runtime
            &&& begins(ops[key].inputs, a.inputs)
            &&& begins(ops[key].outputs, a.outputs)
        } by {
            let b = before[key];
            let a = after[key];
            assert(begins(b.inputs, a.inputs)) by {
                assert(a.inputs.take(b.inputs.len() as int) =~= b.inputs);
            }
            assert(begins(b.outputs, a.outputs)) by {
                assert(a.outputs.take(b.outputs.len() as int) =~= b.outputs);
            }
            assert(a.inputs.take(ops[key].inputs.len() as int) =~= b.inputs.take(
                ops[key].inputs.len() as int,
            ));
            assert(a.outputs.take(ops[key].outputs.len() as int) =~= b.outputs.take(
                ops[key].outputs.len() as int,
            ));
        }
    }
}

/// After the loops have been applied, the ingress of each has the feedback
/// port among its inputs and the egress of each has it among its outputs.
pub proof fn lemma_apply_loops_has_ports(
    ops: Map<Seq<char>, OperatorView>,
    loops: Seq<LoopView>,
    j: int,
)
    requires
        apply_loops(ops, loops) is Some,
        0 <= j < loops.len(),
    ensures
        ({
            let after = apply_loops(ops, loops)->0;
            &&& after.contains_key(loops[j].ingress)
            &&& after.contains_key(loops[j].egress)
            &&& after[loops[j].ingress].inputs.contains(feedback_port(loops[j]))
            &&& after[loops[j].egress].outputs.contains(feedback_port(loops[j]))
        }),
    decreases loops.len(),
{
    let front = loops.drop_last();
    let l = loops.last();
    let before = apply_loops(ops, front)->0;
    let after = apply_loops(ops, loops)->0;
    lemma_loop_adds_ports(before, l);
    if j < loops.len() - 1 {
        assert(front[j] == loops[j]);
        lemma_apply_loops_has_ports(ops, front, j);
        let port = feedback_port(loops[j]);
        let ingress = loops[j].ingress;
        let egress = loops[j].egress;
        let i = choose|i: int|
            0 <= i < before[ingress].inputs.len() && before[ingress].inputs[i] == port;
        assert(after[ingress].inputs[i] == port);
        let o = choose|o: int|
            0 <= o < before[egress].outputs.len() && before[egress].outputs[o] == port;
        assert(after[egress].outputs[o] == port);
    } else {
        assert(after[l.ingress].inputs[before[l.ingress].inputs.len() as int] == feedback_port(l));
        assert(after[l.egress].outputs[before[l.egress].outputs.len() as int] == feedback_port(l));
    }
}

/// Whether the record has, under the name `end.node`, something that sends
/// values of type `ty` through `end.output`: a node with such an output, or
/// a receiver bound to such a port.
pub open spec fn sends(rec: RecordView, end: OutputView, ty: Seq<char>) -> bool {
    ||| rec.output_type(end.node, end.output) == Some(ty)
    ||| exists|i: int|
        0 <= i < rec.connectors.len() && (#[trigger] rec.connectors[i]).kind
            == ZFConnectorKind::Receiver && rec.connectors[i].id == end.node
            && rec.connectors[i].link_id == (PortView { port_id: end.output, port_type: ty })
}

/// Whether the record has, under the name `end.node`, something that takes
/// values of type `ty` through `end.input`: a node with such an input, or a
/// sender bound to such a port.
pub open spec fn takes(rec: RecordView, end: InputView, ty: Seq<char>) -> bool {
    ||| rec.input_type(end.node, end.input) == Some(ty)
    ||| exists|i: int|
        0 <= i < rec.connectors.len() && (#[trigger] rec.connectors[i]).kind
            == ZFConnectorKind::Sender && rec.connectors[i].id == end.node
            && rec.connectors[i].link_id == (PortView { port_id: end.input, port_type: ty })
}

/// Whether both ends of `link` are in the record, with one type.
pub open spec fn link_is_typed(rec: RecordView, link: LinkView) -> bool {
    exists|ty: Seq<char>| #[trigger] sends(rec, link.from, ty) && takes(rec, link.to, ty)
}

/// Whether every link of the record has both ends in the record, with one
/// type.
pub open spec fn links_are_typed(rec: RecordView) -> bool {
    forall|i: int| 0 <= i < rec.links.len() ==> link_is_typed(rec, #[trigger] rec.links[i])
}

/// A link that is typed in a record stays typed when connectors are
/// appended and the nodes stay as they are.
pub proof fn lemma_typed_link_stays_typed(a: RecordView, b: RecordView, link: LinkView)
    requires
        same_nodes(a, b),
        begins(a.connectors, b.connectors),
        link_is_typed(a, link),
    ensures
        link_is_typed(b, link),
{
    let ty = choose|ty: Seq<char>| #[trigger] sends(a, link.from, ty) && takes(a, link.to, ty);
    assert(sends(b, link.from, ty)) by {
        if a.output_type(link.from.node, link.from.output) != Some(ty) {
            let i = choose|i: int|
                0 <= i < a.connectors.len() && (#[trigger] a.connectors[i]).kind
                    == ZFConnectorKind::Receiver && a.connectors[i].id == link.from.node
                    && a.connectors[i].link_id == (PortView {
                    port_id: link.from.output,
                    port_type: ty,
                });
            assert(b.connectors[i] == b.connectors.take(a.connectors.len() as int)[i]);
        }
    }
    assert(takes(b, link.to, ty)) by {
        if a.input_type(link.to.node, link.to.input) != Some(ty) {
            let i = choose|i: int|
                0 <= i < a.connectors.len() && (#[trigger] a.connectors[i]).kind
                    == ZFConnectorKind::Sender && a.connectors[i].id == link.to.node
                    && a.connectors[i].link_id == (PortView {
                    port_id: link.to.input,
                    port_type: ty,
                });
            assert(b.connectors[i] == b.connectors.take(a.connectors.len() as int)[i]);
        }
    }
}

/// Adding one link to a record whose links are typed gives a record whose
/// links are typed.
pub proof fn lemma_with_link_keeps_links_typed(rec: RecordView, link: LinkView)
    requires
        links_are_typed(rec),
        rec.link_fault(link) is None,
    ensures
        links_are_typed(rec.with_link(link)),
{
    let out = rec.with_link(link);
    let ty = rec.output_type(link.from.node, link.from.output)->0;
    assert(begins(rec.connectors, out.connectors)) by {
        assert(out.connectors.take(rec.connectors.len() as int) =~= rec.connectors);
    }
    assert(out.links.take(rec.links.len() as int) =~= rec.links);
    assert forall|i: int| 0 <= i < out.links.len() implies link_is_typed(
        out,
        #[trigger] out.links[i],
    ) by {
        let l = out.links[i];
        if i < rec.links.len() {
            assert(l == rec.links[i]);
            lemma_typed_link_stays_typed(rec, out, l);
        } else if !rec.crosses_runtimes(link) {
            assert(l == link);
            assert(sends(out, l.from, ty) && takes(out, l.to, ty));
        } else {
            let n = out.connectors.len();
            let receiver = rec.receiver_for(link);
            assert(out.connectors[n - 1] == receiver);
            if i == out.links.len() - 1 {
                assert(l == receiver_link(receiver.id, link.to));
                assert(takes(out, l.to, ty));
                assert(sends(out, l.from, ty));
            } else {
                let sender = rec.sender_for(link);
                assert(!has_sender(rec.connectors, rec.resource_of(link)));
                assert(out.connectors[n - 2] == sender);
                assert(l == sender_link(link.from, sender.id));
                assert(sends(out, l.from, ty));
                assert(takes(out, l.to, ty));
            }
        }
    }
}

/// Adding links to a record whose links are typed gives a record whose links
/// are typed.
pub proof fn lemma_add_links_keeps_links_typed(
    rec: RecordView,
    links: Seq<LinkView>,
    removed: Set<Seq<char>>,
)
    requires
        links_are_typed(rec),
    ensures
        links_are_typed(rec.add_links(links, removed).0),
    decreases links.len(),
{
    if links.len() > 0 {
        lemma_add_links_keeps_links_typed(rec, links.drop_last(), removed);
        let before = rec.add_links(links.drop_last(), removed);
        if before.1 is None && stays(links.last(), removed) && before.0.link_fault(links.last())
            is None {
            lemma_with_link_keeps_links_typed(before.0, links.last());
        }
    }
}

/// How many connectors of `connectors` are of kind `kind`.
pub open spec fn count_of(connectors: Seq<ConnectorView>, kind: ZFConnectorKind) -> nat
    decreases connectors.len(),
{
    if connectors.len() == 0 {
        0
    } else {
        let rest = count_of(connectors.drop_last(), kind);
        if connectors.last().kind == kind {
            rest + 1
        } else {
            rest
        }
    }
}

/// How many links of `links` stay in the flow and join two runtimes
/// (`crossing`) or join two nodes of one runtime (`!crossing`).
pub open spec fn count_staying(
    rec: RecordView,
    links: Seq<LinkView>,
    removed: Set<Seq<char>>,
    crossing: bool,
) -> nat
    decreases links.len(),
{
    if links.len() == 0 {
        0
    } else {
        let rest = count_staying(rec, links.drop_last(), removed, crossing);
        if stays(links.last(), removed) && rec.crosses_runtimes(links.last()) == crossing {
            rest + 1
        } else {
            rest
        }
    }
}

/// Counting after one more connector.
pub proof fn lemma_count_of_push(
    connectors: Seq<ConnectorView>,
    connector: ConnectorView,
    kind: ZFConnectorKind,
)
    ensures
        count_of(connectors.push(connector), kind) == count_of(connectors, kind) + (if connector.kind
            == kind {
            1nat
        } else {
            0nat
        }),
{
    assert(connectors.push(connector).drop_last() =~= connectors);
}

/// Where all links have been added without fault: each link that stays and
/// joins two runtimes has given one receiver; and the record has gained one
/// link for each link that stays, and one more for each sender it has
/// gained.
pub proof fn lemma_add_links_counts(rec: RecordView, links: Seq<LinkView>, removed: Set<Seq<char>>)
    requires
        rec.add_links(links, removed).1 is None,
    ensures
        ({
            let out = rec.add_links(links, removed).0;
            let new_senders = count_of(out.connectors, ZFConnectorKind::Sender) - count_of(
                rec.connectors,
                ZFConnectorKind::Sender,
            );
            &&& count_of(out.connectors, ZFConnectorKind::Receiver) == count_of(
                rec.connectors,
                ZFConnectorKind::Receiver,
            ) + count_staying(rec, links, removed, true)
            &&& 0 <= new_senders <= count_staying(rec, links, removed, true)
            &&& out.links.len() == rec.links.len() + count_staying(rec, links, removed, false)
                + count_staying(rec, links, removed, true) + new_senders
        }),
    decreases links.len(),
{
    if links.len() > 0 {
        let front = links.drop_last();
        let last = links.last();
        lemma_add_links_counts(rec, front, removed);
        lemma_add_links_frame(rec, front, removed);
        let before = rec.add_links(front, removed).0;
        assert(before.crosses_runtimes(last) == rec.crosses_runtimes(last));
        if stays(last, removed) && rec.crosses_runtimes(last) {
            let sender = before.sender_for(last);
            let receiver = before.receiver_for(last);
            if has_sender(before.connectors, before.resource_of(last)) {
                lemma_count_of_push(before.connectors, receiver, ZFConnectorKind::Sender);
                lemma_count_of_push(before.connectors, receiver, ZFConnectorKind::Receiver);
            } else {
                lemma_count_of_push(before.connectors, sender, ZFConnectorKind::Sender);
                lemma_count_of_push(before.connectors, sender, ZFConnectorKind::Receiver);
                lemma_count_of_push(
                    before.connectors.push(sender),
                    receiver,
                    ZFConnectorKind::Sender,
                );
                lemma_count_of_push(
                    before.connectors.push(sender),
                    receiver,
                    ZFConnectorKind::Receiver,
                );
            }
        }
    }
}

/// A compiled record carries the instance identifier and the flow name it
/// was compiled with, the declared deadlines, and the nodes as they were
/// before the links were added.
pub proof fn lemma_compile_keeps_identity(d: DescriptorView, id: u128)
    requires
        compile(d, id) is Ok,
    ensures
        compile_nodes(d, id) is Ok,
        same_nodes(compile_nodes(d, id)->Ok_0, compile(d, id)->Ok_0),
        compile(d, id)->Ok_0.uuid == id,
        compile(d, id)->Ok_0.flow == d.flow,
        compile(d, id)->Ok_0.end_to_end_deadlines == d.deadlines,
{
    lemma_add_links_frame(compile_nodes(d, id)->Ok_0, all_links(d), removed_nodes(d.flags));
}

/// A node that the flags remove is in none of the three node mappings of
/// the compiled record.
pub proof fn lemma_removed_node_is_gone(d: DescriptorView, id: u128, node: Seq<char>)
    requires
        compile(d, id) is Ok,
        removed_nodes(d.flags).contains(node),
    ensures
        !compile(d, id)->Ok_0.operators.contains_key(node),
        !compile(d, id)->Ok_0.sources.contains_key(node),
        !compile(d, id)->Ok_0.sinks.contains_key(node),
{
    let removed = removed_nodes(d.flags);
    let mapping = declared_mapping(d);
    let global = d.global_configuration;
    lemma_compile_keeps_identity(d, id);
    lemma_place_keys(d.operators, operator_id(), operator_record(global), removed, mapping);
    lemma_place_keys(d.sources, source_id(), source_record(global), removed, mapping);
    lemma_place_keys(d.sinks, sink_id(), sink_record(global), removed, mapping);
    let placed = place(d.operators, operator_id(), operator_record(global), removed, mapping)->0;
    lemma_apply_loops_grow(placed, declared_loops(d));
    let looped = apply_loops(placed, declared_loops(d))->0;
    assert(!placed.contains_key(node));
    assert(looped.contains_key(node) <==> placed.contains_key(node));
    assert(compile(d, id)->Ok_0.operators == looped);
}

/// Every link and every connector of a compiled record comes from a link
/// that stays in the flow and has no fault: no link that touches a removed
/// node is in the record, and no connector was made for one. No two
/// senders of the record share a resource. Both ends of every link are in
/// the record, as a node or as a connector, with one port type.
pub proof fn lemma_compiled_links_have_origin(d: DescriptorView, id: u128)
    requires
        compile(d, id) is Ok,
    ensures
        forall|i: int|
            0 <= i < compile(d, id)->Ok_0.links.len() ==> link_has_origin(
                compile(d, id)->Ok_0,
                all_links(d),
                removed_nodes(d.flags),
                #[trigger] compile(d, id)->Ok_0.links[i],
            ),
        forall|i: int|
            0 <= i < compile(d, id)->Ok_0.connectors.len() ==> connector_has_origin(
                compile(d, id)->Ok_0,
                all_links(d),
                removed_nodes(d.flags),
                #[trigger] compile(d, id)->Ok_0.connectors[i],
            ),
        senders_unique(compile(d, id)->Ok_0.connectors),
        links_are_typed(compile(d, id)->Ok_0),
{
    let start = compile_nodes(d, id)->Ok_0;
    let rec = compile(d, id)->Ok_0;
    let links = all_links(d);
    let removed = removed_nodes(d.flags);
    lemma_compile_keeps_identity(d, id);
    lemma_add_links_keeps_links_typed(start, links, removed);
    lemma_add_links_provenance(start, links, removed);
    lemma_add_links_keeps_senders_unique(start, links, removed);
    assert forall|i: int| 0 <= i < rec.links.len() implies link_has_origin(
        rec,
        links,
        removed,
        #[trigger] rec.links[i],
    ) by {
        assert(link_has_origin(start, links, removed, rec.links[i]));
        let k = choose|k: int| #[trigger]
            accepted(start, links, removed, k) && link_born_of(start, rec.links[i], links[k]);
        assert(start.link_fault(links[k]) == rec.link_fault(links[k]));
        assert(accepted(rec, links, removed, k));
        assert(link_born_of(rec, rec.links[i], links[k]));
    }
    assert forall|i: int| 0 <= i < rec.connectors.len() implies connector_has_origin(
        rec,
        links,
        removed,
        #[trigger] rec.connectors[i],
    ) by {
        assert(connector_has_origin(start, links, removed, rec.connectors[i]));
        let k = choose|k: int| #[trigger]
            accepted(start, links, removed, k) && connector_born_of(
                start,
                rec.connectors[i],
                links[k],
            );
        assert(start.link_fault(links[k]) == rec.link_fault(links[k]));
        assert(accepted(rec, links, removed, k));
        assert(connector_born_of(rec, rec.connectors[i], links[k]));
    }
}

/// Each link that stays in the flow is in the compiled record. If its two
/// nodes share a runtime, the record holds the link unchanged. Otherwise
/// the record holds a sender on the link's resource, a receiver for the
/// link's destination, and the link from that receiver to the destination.
pub proof fn lemma_compiled_link_is_there(d: DescriptorView, id: u128, k: int)
    requires
        compile(d, id) is Ok,
        0 <= k < all_links(d).len(),
        stays(all_links(d)[k], removed_nodes(d.flags)),
    ensures
        ({
            let rec = compile(d, id)->Ok_0;
            let link = all_links(d)[k];
            &&& rec.link_fault(link) is None
            &&& !rec.crosses_runtimes(link) ==> rec.links.contains(link)
            &&& rec.crosses_runtimes(link) ==> {
                &&& has_sender(rec.connectors, rec.resource_of(link))
                &&& rec.connectors.contains(rec.receiver_for(link))
                &&& rec.links.contains(receiver_link(rec.receiver_for(link).id, link.to))
            }
        }),
{
    let start = compile_nodes(d, id)->Ok_0;
    let rec = compile(d, id)->Ok_0;
    let links = all_links(d);
    let removed = removed_nodes(d.flags);
    lemma_compile_keeps_identity(d, id);
    lemma_add_links_fault(start, links, removed);
    lemma_add_links_complete(start, links, removed, k);
    assert(start.link_fault(links[k]) == rec.link_fault(links[k]));
    assert(start.receiver_for(links[k]) == rec.receiver_for(links[k]));
}

/// What a declared loop leaves in the compiled record: its ingress has the
/// feedback port among its inputs, its egress has it among its outputs, and
/// the link from the egress to the ingress is among the links that are
/// added, where it stays and is treated like any declared link.
pub proof fn lemma_loop_is_compiled(d: DescriptorView, id: u128, j: int)
    requires
        compile(d, id) is Ok,
        0 <= j < declared_loops(d).len(),
    ensures
        ({
            let rec = compile(d, id)->Ok_0;
            let l = declared_loops(d)[j];
            &&& rec.operators.contains_key(l.ingress)
            &&& rec.operators.contains_key(l.egress)
            &&& rec.operators[l.ingress].inputs.contains(feedback_port(l))
            &&& rec.operators[l.egress].outputs.contains(feedback_port(l))
            &&& all_links(d).len() == d.links.len() + declared_loops(d).len()
            &&& all_links(d)[d.links.len() + j] == loop_link(l)
            &&& stays(loop_link(l), removed_nodes(d.flags))
        }),
{
    let removed = removed_nodes(d.flags);
    let mapping = declared_mapping(d);
    let global = d.global_configuration;
    let l = declared_loops(d)[j];
    lemma_compile_keeps_identity(d, id);
    let placed = place(d.operators, operator_id(), operator_record(global), removed, mapping)->0;
    lemma_apply_loops_has_ports(placed, declared_loops(d), j);
    lemma_apply_loops_grow(placed, declared_loops(d));
    lemma_place_keys(d.operators, operator_id(), operator_record(global), removed, mapping);
    assert(placed.contains_key(l.ingress) && placed.contains_key(l.egress));
}

/// A flow with one link that stays. If the two nodes of the link share a
/// runtime, the compiled record has no connector and holds the link
/// unchanged, as its only link. If they do not, the record has one sender
/// and one receiver, on the resource of the link, and two links: from the
/// source to the sender and from the receiver to the destination.
pub proof fn lemma_one_link(d: DescriptorView, id: u128, link: LinkView)
    requires
        compile(d, id) is Ok,
        all_links(d) == seq![link],
        stays(link, removed_nodes(d.flags)),
    ensures
        ({
            let rec = compile(d, id)->Ok_0;
            &&& !rec.crosses_runtimes(link) ==> rec.connectors == Seq::<ConnectorView>::empty()
                && rec.links == seq![link]
            &&& rec.crosses_runtimes(link) ==> rec.connectors == seq![
                rec.sender_for(link),
                rec.receiver_for(link),
            ] && rec.links == seq![
                sender_link(link.from, rec.sender_for(link).id),
                receiver_link(rec.receiver_for(link).id, link.to),
            ]
        }),
{
    let start = compile_nodes(d, id)->Ok_0;
    let rec = compile(d, id)->Ok_0;
    let links = all_links(d);
    let removed = removed_nodes(d.flags);
    lemma_compile_keeps_identity(d, id);
    assert(links.drop_last() =~= Seq::<LinkView>::empty());
    assert(links.last() == link);
    assert(start.add_links(links.drop_last(), removed) == (start, None::<ErrorView>));
    assert(rec == start.with_link(link));
    assert(start.sender_for(link) == rec.sender_for(link));
    assert(start.receiver_for(link) == rec.receiver_for(link));
    if start.crosses_runtimes(link) {
        assert(!has_sender(start.connectors, start.resource_of(link)));
        assert(rec.connectors =~= seq![rec.sender_for(link), rec.receiver_for(link)]);
        assert(rec.links =~= seq![
            sender_link(link.from, rec.sender_for(link).id),
            receiver_link(rec.receiver_for(link).id, link.to),
        ]);
    } else {
        assert(rec.connectors =~= Seq::<ConnectorView>::empty());
        assert(rec.links =~= seq![link]);
    }
}

/// A flow with two links that leave through one output and end on runtimes
/// other than that of the source: the compiled record has one sender, shared
/// by the two links, and one receiver for each destination.
pub proof fn lemma_fan_out(d: DescriptorView, id: u128, first: LinkView, second: LinkView)
    requires
        compile(d, id) is Ok,
        all_links(d) == seq![first, second],
        first.from == second.from,
        stays(first, removed_nodes(d.flags)),
        stays(second, removed_nodes(d.flags)),
        compile(d, id)->Ok_0.crosses_runtimes(first),
        compile(d, id)->Ok_0.crosses_runtimes(second),
    ensures
        ({
            let rec = compile(d, id)->Ok_0;
            &&& rec.connectors == seq![
                rec.sender_for(first),
                rec.receiver_for(first),
                rec.receiver_for(second),
            ]
            &&& rec.links == seq![
                sender_link(first.from, rec.sender_for(first).id),
                receiver_link(rec.receiver_for(first).id, first.to),
                receiver_link(rec.receiver_for(second).id, second.to),
            ]
        }),
{
    let start = compile_nodes(d, id)->Ok_0;
    let rec = compile(d, id)->Ok_0;
    let links = all_links(d);
    let removed = removed_nodes(d.flags);
    lemma_compile_keeps_identity(d, id);
    let one = links.drop_last();
    assert(one =~= seq![first]);
    assert(one.drop_last() =~= Seq::<LinkView>::empty());
    assert(one.last() == first);
    assert(links.last() == second);
    assert(start.add_links(one.drop_last(), removed) == (start, None::<ErrorView>));
    let middle = start.add_links(one, removed);
    assert(middle.1 is None);
    assert(middle.0 == start.with_link(first));
    assert(!has_sender(start.connectors, start.resource_of(first)));
    assert(middle.0.connectors =~= seq![start.sender_for(first), start.receiver_for(first)]);
    assert(middle.0.connectors[0].kind == ZFConnectorKind::Sender);
    assert(middle.0.resource_of(second) == start.resource_of(first));
    assert(has_sender(middle.0.connectors, middle.0.resource_of(second)));
    assert(rec == middle.0.with_link(second));
    assert(rec.connectors =~= seq![
        rec.sender_for(first),
        rec.receiver_for(first),
        rec.receiver_for(second),
    ]);
    assert(rec.links =~= seq![
        sender_link(first.from, rec.sender_for(first).id),
        receiver_link(rec.receiver_for(first).id, first.to),
        receiver_link(rec.receiver_for(second).id, second.to),
    ]);
}

} // verus!
