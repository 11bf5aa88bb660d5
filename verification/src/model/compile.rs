//! Compilation: from a flow description and a fresh instance identifier to a
//! record, or to the error that stopped the compilation.
//!
//! The steps, each stated as a function on mathematical values:
//! the nodes that the flags keep get their runtime and their merged
//! configuration ([`place`]); each declared loop adds a feedback port to its
//! ingress and to its egress ([`apply_loops`]) and one backward link
//! ([`loop_links`]); then all links are added to the record
//! ([`RecordView::add_links`]). [`compile`] puts the steps together.

use crate::collections::TextMap;
use crate::model::configuration::{merge_configurations, merged, Configuration};
use crate::model::deadline::{E2EDeadlineDescriptor, E2EDeadlineRecord};
use crate::model::descriptor::{DataFlowDescriptor, DescriptorView};
use crate::model::flag::{get_nodes_to_remove, removed_nodes};
use crate::model::link::{
    InputDescriptor,
    InputView,
    LinkDescriptor,
    LinkView,
    OutputDescriptor,
    OutputView,
    PortDescriptor,
    PortView,
};
use crate::model::loops::{LoopDescriptor, LoopView};
use crate::model::node::{
    OperatorDescriptor,
    OperatorDescriptorView,
    OperatorRecord,
    OperatorView,
    SinkDescriptor,
    SinkDescriptorView,
    SinkRecord,
    SinkView,
    SourceDescriptor,
    SourceDescriptorView,
    SourceRecord,
    SourceView,
};
use crate::model::record::{DataFlowRecord, RecordView};
use crate::text::{
    copy_opt,
    has_text,
    lemma_map_views_insert,
    lemma_views_push,
    map_views,
    opt_view,
    views,
};
use crate::types::{ErrorView, ZFError};
use vstd::prelude::*;
use vstd::std_specs::convert::TryFromSpecImpl;

verus! {

/// The record of a declared operator that runs on `runtime`.
pub open spec fn operator_record(
    global: Option<Map<Seq<char>, Seq<char>>>,
) -> spec_fn(OperatorDescriptorView, Seq<char>) -> OperatorView {
    |o: OperatorDescriptorView, runtime: Seq<char>|
        OperatorView {
            id: o.id,
            inputs: o.inputs,
            outputs: o.outputs,
            uri: o.uri,
            configuration: merged(global, o.configuration),
            runtime,
            deadline: o.deadline,
            ciclo: None,
        }
}

/// The record of a declared source that runs on `runtime`.
pub open spec fn source_record(
    global: Option<Map<Seq<char>, Seq<char>>>,
) -> spec_fn(SourceDescriptorView, Seq<char>) -> SourceView {
    |s: SourceDescriptorView, runtime: Seq<char>|
        SourceView {
            id: s.id,
            output: s.output,
            period: s.period,
            uri: s.uri,
            configuration: merged(global, s.configuration),
            runtime,
        }
}

/// The record of a declared sink that runs on `runtime`.
pub open spec fn sink_record(
    global: Option<Map<Seq<char>, Seq<char>>>,
) -> spec_fn(SinkDescriptorView, Seq<char>) -> SinkView {
    |s: SinkDescriptorView, runtime: Seq<char>|
        SinkView {
            id: s.id,
            input: s.input,
            uri: s.uri,
            configuration: merged(global, s.configuration),
            runtime,
        }
}

/// The identifier of a declared operator.
pub open spec fn operator_id() -> spec_fn(OperatorDescriptorView) -> Seq<char> {
    |o: OperatorDescriptorView| o.id
}

/// The identifier of a declared source.
pub open spec fn source_id() -> spec_fn(SourceDescriptorView) -> Seq<char> {
    |s: SourceDescriptorView| s.id
}

/// The identifier of a declared sink.
pub open spec fn sink_id() -> spec_fn(SinkDescriptorView) -> Seq<char> {
    |s: SinkDescriptorView| s.id
}

/// The records of the declared `nodes` by identifier, or `None` if a node
/// that is not removed has no runtime in `mapping`. A removed node gets no
/// record; of two nodes with one identifier the later one stays.
pub open spec fn place<D, R>(
    nodes: Seq<D>,
    id_of: spec_fn(D) -> Seq<char>,
    build: spec_fn(D, Seq<char>) -> R,
    removed: Set<Seq<char>>,
    mapping: Map<Seq<char>, Seq<char>>,
) -> Option<Map<Seq<char>, R>>
    decreases nodes.len(),
{
    if nodes.len() == 0 {
        Some(Map::empty())
    } else {
        let node = nodes.last();
        match place(nodes.drop_last(), id_of, build, removed, mapping) {
            None => None,
            Some(placed) => if removed.contains(id_of(node)) {
                Some(placed)
            } else if !mapping.contains_key(id_of(node)) {
                None
            } else {
                Some(placed.insert(id_of(node), build(node, mapping[id_of(node)])))
            },
        }
    }
}

/// Once a node without runtime has been met, further nodes change nothing.
pub proof fn lemma_place_stops<D, R>(
    nodes: Seq<D>,
    id_of: spec_fn(D) -> Seq<char>,
    build: spec_fn(D, Seq<char>) -> R,
    removed: Set<Seq<char>>,
    mapping: Map<Seq<char>, Seq<char>>,
    n: int,
)
    requires
        0 <= n <= nodes.len(),
        place(nodes.take(n), id_of, build, removed, mapping) is None,
    ensures
        place(nodes, id_of, build, removed, mapping) is None,
    decreases nodes.len() - n,
{
    if n == nodes.len() {
        assert(nodes.take(n) =~= nodes);
    } else {
        assert(nodes.drop_last().take(n) =~= nodes.take(n));
        lemma_place_stops(nodes.drop_last(), id_of, build, removed, mapping, n);
    }
}

/// The feedback port that a loop declares.
pub open spec fn feedback_port(l: LoopView) -> PortView {
    PortView { port_id: l.feedback_port, port_type: l.port_type }
}

/// The ingress of a loop: the operator with the feedback port as one more
/// input, marked with the loop.
pub open spec fn as_ingress(o: OperatorView, l: LoopView) -> OperatorView {
    OperatorView { inputs: o.inputs.push(feedback_port(l)), ciclo: Some(l), ..o }
}

/// The egress of a loop: the operator with the feedback port as one more
/// output, marked with the loop.
pub open spec fn as_egress(o: OperatorView, l: LoopView) -> OperatorView {
    OperatorView { outputs: o.outputs.push(feedback_port(l)), ciclo: Some(l), ..o }
}

/// The operators after one loop has been applied, or `None` if the loop
/// names an ingress or an egress that is not among them.
pub open spec fn apply_loop(ops: Map<Seq<char>, OperatorView>, l: LoopView) -> Option<
    Map<Seq<char>, OperatorView>,
> {
    if !ops.contains_key(l.ingress) || !ops.contains_key(l.egress) {
        None
    } else {
        let entered = ops.insert(l.ingress, as_ingress(ops[l.ingress], l));
        Some(entered.insert(l.egress, as_egress(entered[l.egress], l)))
    }
}

/// The operators after `loops` have been applied in order, or `None` if one
/// of them names an operator that is not there.
pub open spec fn apply_loops(ops: Map<Seq<char>, OperatorView>, loops: Seq<LoopView>) -> Option<
    Map<Seq<char>, OperatorView>,
>
    decreases loops.len(),
{
    if loops.len() == 0 {
        Some(ops)
    } else {
        match apply_loops(ops, loops.drop_last()) {
            None => None,
            Some(done) => apply_loop(done, loops.last()),
        }
    }
}

/// Once a loop could not be applied, further loops change nothing.
pub proof fn lemma_apply_loops_stops(
    ops: Map<Seq<char>, OperatorView>,
    loops: Seq<LoopView>,
    n: int,
)
    requires
        0 <= n <= loops.len(),
        apply_loops(ops, loops.take(n)) is None,
    ensures
        apply_loops(ops, loops) is None,
    decreases loops.len() - n,
{
    if n == loops.len() {
        assert(loops.take(n) =~= loops);
    } else {
        assert(loops.drop_last().take(n) =~= loops.take(n));
        lemma_apply_loops_stops(ops, loops.drop_last(), n);
    }
}

/// The backward link of a loop: from the feedback output of the egress to
/// the feedback input of the ingress.
pub open spec fn loop_link(l: LoopView) -> LinkView {
    LinkView {
        from: OutputView { node: l.egress, output: l.feedback_port },
        to: InputView { node: l.ingress, input: l.feedback_port },
        size: None,
        queueing_policy: None,
        priority: None,
    }
}

/// The backward links of `loops`, in order.
pub open spec fn loop_links(loops: Seq<LoopView>) -> Seq<LinkView> {
    loops.map_values(|l: LoopView| loop_link(l))
}

/// The declared loops, none where the description has no list of loops.
pub open spec fn declared_loops(d: DescriptorView) -> Seq<LoopView> {
    match d.loops {
        Some(l) => l,
        None => Seq::empty(),
    }
}

/// The runtime mapping, empty where the description has none.
pub open spec fn declared_mapping(d: DescriptorView) -> Map<Seq<char>, Seq<char>> {
    match d.mapping {
        Some(m) => m,
        None => Map::empty(),
    }
}

/// The record that the nodes of a description give, before any link is
/// added; or the error that a node without runtime or a loop without its
/// operators gives.
pub open spec fn compile_nodes(d: DescriptorView, id: u128) -> Result<RecordView, ErrorView> {
    let removed = removed_nodes(d.flags);
    let mapping = declared_mapping(d);
    let global = d.global_configuration;
    let operators = place(d.operators, operator_id(), operator_record(global), removed, mapping);
    let sources = place(d.sources, source_id(), source_record(global), removed, mapping);
    let sinks = place(d.sinks, sink_id(), sink_record(global), removed, mapping);
    if operators is None || sources is None || sinks is None {
        Err(ErrorView::MissingConfiguration)
    } else {
        match apply_loops(operators->0, declared_loops(d)) {
            None => Err(ErrorView::GenericError),
            Some(looped) => Ok(
                RecordView {
                    uuid: id,
                    flow: d.flow,
                    operators: looped,
                    sinks: sinks->0,
                    sources: sources->0,
                    connectors: Seq::empty(),
                    links: Seq::empty(),
                    end_to_end_deadlines: d.deadlines,
                },
            ),
        }
    }
}

/// All links of a description: the declared ones, then one per loop.
pub open spec fn all_links(d: DescriptorView) -> Seq<LinkView> {
    d.links + loop_links(declared_loops(d))
}

/// What compiling the description `d` under the instance identifier `id`
/// gives: the record, or the first error met.
pub open spec fn compile(d: DescriptorView, id: u128) -> Result<RecordView, ErrorView> {
    match compile_nodes(d, id) {
        Err(e) => Err(e),
        Ok(start) => {
            let linked = start.add_links(all_links(d), removed_nodes(d.flags));
            match linked.1 {
                Some(e) => Err(e),
                None => Ok(linked.0),
            }
        },
    }
}

/// Gives each operator that stays its runtime and its merged configuration.
fn place_operators(
    nodes: Vec<OperatorDescriptor>,
    removed: &Vec<String>,
    mapping: &TextMap<String>,
    global: &Option<Configuration>,
) -> (r: Result<TextMap<OperatorRecord>, ZFError>)
    ensures
        match r {
            Ok(m) => place(
                views(nodes@),
                operator_id(),
                operator_record(opt_view(*global)),
                views(removed@).to_set(),
                map_views(mapping@),
            ) == Some(map_views(m@)),
            Err(e) => e@ == ErrorView::MissingConfiguration && place(
                views(nodes@),
                operator_id(),
                operator_record(opt_view(*global)),
                views(removed@).to_set(),
                map_views(mapping@),
            ) is None,
        },
{
    let ghost all = views(nodes@);
    let ghost gone = views(removed@).to_set();
    let ghost runtimes = map_views(mapping@);
    let ghost build = operator_record(opt_view(*global));
    let mut placed: TextMap<OperatorRecord> = TextMap::new();
    assert(all.take(0) =~= Seq::<OperatorDescriptorView>::empty());
    assert(map_views(placed@) =~= Map::<Seq<char>, OperatorView>::empty());
    for o in it: nodes
        invariant
            all == views(it.seq()),
            gone == views(removed@).to_set(),
            runtimes == map_views(mapping@),
            build == operator_record(opt_view(*global)),
            place(all.take(it.index() as int), operator_id(), build, gone, runtimes) == Some(
                map_views(placed@),
            ),
    {
        let ghost n = it.index() as int;
        proof {
            assert(all.take(n + 1).drop_last() =~= all.take(n));
            assert(all.take(n + 1).last() == o@);
        }
        if !has_text(removed, &o.id) {
            let runtime = match mapping.get(&o.id) {
                Some(rt) => rt.clone(),
                None => {
                    proof {
                        lemma_place_stops(all, operator_id(), build, gone, runtimes, n + 1);
                    }
                    return Err(ZFError::MissingConfiguration);
                },
            };
            let record = OperatorRecord {
                id: o.id.clone(),
                inputs: o.inputs,
                outputs: o.outputs,
                uri: o.uri,
                configuration: merge_configurations(copy_opt(global), o.configuration),
                runtime,
                deadline: o.deadline,
                ciclo: None,
            };
            proof {
                lemma_map_views_insert(placed@, o.id@, record);
                assert(record@ == build(o@, runtimes[o.id@]));
            }
            placed.insert(o.id, record);
        }
    }
    assert(all.take(all.len() as int) =~= all);
    Ok(placed)
}

/// Gives each source that stays its runtime and its merged configuration.
fn place_sources(
    nodes: Vec<SourceDescriptor>,
    removed: &Vec<String>,
    mapping: &TextMap<String>,
    global: &Option<Configuration>,
) -> (r: Result<TextMap<SourceRecord>, ZFError>)
    ensures
        match r {
            Ok(m) => place(
                views(nodes@),
                source_id(),
                source_record(opt_view(*global)),
                views(removed@).to_set(),
                map_views(mapping@),
            ) == Some(map_views(m@)),
            Err(e) => e@ == ErrorView::MissingConfiguration && place(
                views(nodes@),
                source_id(),
                source_record(opt_view(*global)),
                views(removed@).to_set(),
                map_views(mapping@),
            ) is None,
        },
{
    let ghost all = views(nodes@);
    let ghost gone = views(removed@).to_set();
    let ghost runtimes = map_views(mapping@);
    let ghost build = source_record(opt_view(*global));
    let mut placed: TextMap<SourceRecord> = TextMap::new();
    assert(all.take(0) =~= Seq::<SourceDescriptorView>::empty());
    assert(map_views(placed@) =~= Map::<Seq<char>, SourceView>::empty());
    for s in it: nodes
        invariant
            all == views(it.seq()),
            gone == views(removed@).to_set(),
            runtimes == map_views(mapping@),
            build == source_record(opt_view(*global)),
            place(all.take(it.index() as int), source_id(), build, gone, runtimes) == Some(
                map_views(placed@),
            ),
    {
        let ghost n = it.index() as int;
        proof {
            assert(all.take(n + 1).drop_last() =~= all.take(n));
            assert(all.take(n + 1).last() == s@);
        }
        if !has_text(removed, &s.id) {
            let runtime = match mapping.get(&s.id) {
                Some(rt) => rt.clone(),
                None => {
                    proof {
                        lemma_place_stops(all, source_id(), build, gone, runtimes, n + 1);
                    }
                    return Err(ZFError::MissingConfiguration);
                },
            };
            let record = SourceRecord {
                id: s.id.clone(),
                output: s.output,
                period: s.period,
                uri: s.uri,
                configuration: merge_configurations(copy_opt(global), s.configuration),
                runtime,
            };
            proof {
                lemma_map_views_insert(placed@, s.id@, record);
                assert(record@ == build(s@, runtimes[s.id@]));
            }
            placed.insert(s.id, record);
        }
    }
    assert(all.take(all.len() as int) =~= all);
    Ok(placed)
}

/// Gives each sink that stays its runtime and its merged configuration.
fn place_sinks(
    nodes: Vec<SinkDescriptor>,
    removed: &Vec<String>,
    mapping: &TextMap<String>,
    global: &Option<Configuration>,
) -> (r: Result<TextMap<SinkRecord>, ZFError>)
    ensures
        match r {
            Ok(m) => place(
                views(nodes@),
                sink_id(),
                sink_record(opt_view(*global)),
                views(removed@).to_set(),
                map_views(mapping@),
            ) == Some(map_views(m@)),
            Err(e) => e@ == ErrorView::MissingConfiguration && place(
                views(nodes@),
                sink_id(),
                sink_record(opt_view(*global)),
                views(removed@).to_set(),
                map_views(mapping@),
            ) is None,
        },
{
    let ghost all = views(nodes@);
    let ghost gone = views(removed@).to_set();
    let ghost runtimes = map_views(mapping@);
    let ghost build = sink_record(opt_view(*global));
    let mut placed: TextMap<SinkRecord> = TextMap::new();
    assert(all.take(0) =~= Seq::<SinkDescriptorView>::empty());
    assert(map_views(placed@) =~= Map::<Seq<char>, SinkView>::empty());
    for s in it: nodes
        invariant
            all == views(it.seq()),
            gone == views(removed@).to_set(),
            runtimes == map_views(mapping@),
            build == sink_record(opt_view(*global)),
            place(all.take(it.index() as int), sink_id(), build, gone, runtimes) == Some(
                map_views(placed@),
            ),
    {
        let ghost n = it.index() as int;
        proof {
            assert(all.take(n + 1).drop_last() =~= all.take(n));
            assert(all.take(n + 1).last() == s@);
        }
        if !has_text(removed, &s.id) {
            let runtime = match mapping.get(&s.id) {
                Some(rt) => rt.clone(),
                None => {
                    proof {
                        lemma_place_stops(all, sink_id(), build, gone, runtimes, n + 1);
                    }
                    return Err(ZFError::MissingConfiguration);
                },
            };
            let record = SinkRecord {
                id: s.id.clone(),
                input: s.input,
                uri: s.uri,
                configuration: merge_configurations(copy_opt(global), s.configuration),
                runtime,
            };
            proof {
                lemma_map_views_insert(placed@, s.id@, record);
                assert(record@ == build(s@, runtimes[s.id@]));
            }
            placed.insert(s.id, record);
        }
    }
    assert(all.take(all.len() as int) =~= all);
    Ok(placed)
}

/// Applies one loop to the operators: the ingress gets the feedback port as
/// an input, the egress gets it as an output, and both get the loop's mark.
fn apply_one_loop(operators: &mut TextMap<OperatorRecord>, ciclo: &LoopDescriptor) -> (r: Result<
    (),
    ZFError,
>)
    ensures
        match r {
            Ok(()) => apply_loop(map_views(old(operators)@), ciclo@) == Some(
                map_views(final(operators)@),
            ),
            Err(e) => e@ == ErrorView::GenericError && apply_loop(
                map_views(old(operators)@),
                ciclo@,
            ) is None,
        },
{
    let ghost before = map_views(operators@);
    let mut ingress = match operators.remove(&ciclo.ingress) {
        Some(o) => o,
        None => {
            return Err(ZFError::GenericError);
        },
    };
    let ghost ingress_before = ingress@;
    let port = PortDescriptor {
        port_id: ciclo.feedback_port.clone(),
        port_type: ciclo.port_type.clone(),
    };
    proof {
        lemma_views_push(ingress.inputs@, port);
    }
    ingress.inputs.push(port);
    ingress.ciclo = Some(ciclo.clone());
    proof {
        assert(ingress@ == as_ingress(ingress_before, ciclo@));
        lemma_map_views_insert(operators@, ciclo.ingress@, ingress);
    }
    operators.insert(ciclo.ingress.clone(), ingress);
    let ghost entered = map_views(operators@);
    assert(entered =~= before.insert(ciclo@.ingress, as_ingress(before[ciclo@.ingress], ciclo@)));
    let mut egress = match operators.remove(&ciclo.egress) {
        Some(o) => o,
        None => {
            return Err(ZFError::GenericError);
        },
    };
    let ghost egress_before = egress@;
    let port = PortDescriptor {
        port_id: ciclo.feedback_port.clone(),
        port_type: ciclo.port_type.clone(),
    };
    proof {
        lemma_views_push(egress.outputs@, port);
    }
    egress.outputs.push(port);
    egress.ciclo = Some(ciclo.clone());
    proof {
        assert(egress@ == as_egress(egress_before, ciclo@));
        lemma_map_views_insert(operators@, ciclo.egress@, egress);
    }
    operators.insert(ciclo.egress.clone(), egress);
    assert(map_views(operators@) =~= entered.insert(
        ciclo@.egress,
        as_egress(entered[ciclo@.egress], ciclo@),
    ));
    Ok(())
}

/// Applies the declared loops in order, and appends the backward link of
/// each to `links`.
fn apply_declared_loops(
    operators: &mut TextMap<OperatorRecord>,
    loops: &Vec<LoopDescriptor>,
    links: &mut Vec<LinkDescriptor>,
) -> (r: Result<(), ZFError>)
    ensures
        match r {
            Ok(()) => apply_loops(map_views(old(operators)@), views(loops@)) == Some(
                map_views(final(operators)@),
            ) && views(final(links)@) == views(old(links)@) + loop_links(views(loops@)),
            Err(e) => e@ == ErrorView::GenericError && apply_loops(
                map_views(old(operators)@),
                views(loops@),
            ) is None,
        },
{
    let ghost start = map_views(operators@);
    let ghost declared = views(links@);
    let ghost all = views(loops@);
    let mut i: usize = 0;
    assert(all.take(0) =~= Seq::<LoopView>::empty());
    assert(declared + loop_links(all.take(0)) =~= declared);
    while i < loops.len()
        invariant
            i <= loops@.len(),
            all == views(loops@),
            start == map_views(old(operators)@),
            declared == views(old(links)@),
            apply_loops(start, all.take(i as int)) == Some(map_views(operators@)),
            views(links@) == declared + loop_links(all.take(i as int)),
        decreases loops@.len() - i,
    {
        let ciclo = &loops[i];
        proof {
            assert(all[i as int] == ciclo@);
            assert(all.take(i + 1).drop_last() =~= all.take(i as int));
            assert(all.take(i + 1).last() == ciclo@);
        }
        match apply_one_loop(operators, ciclo) {
            Ok(()) => {},
            Err(e) => {
                proof {
                    lemma_apply_loops_stops(start, all, i + 1);
                }
                return Err(e);
            },
        }
        let back = LinkDescriptor {
            from: OutputDescriptor {
                node: ciclo.egress.clone(),
                output: ciclo.feedback_port.clone(),
            },
            to: InputDescriptor {
                node: ciclo.ingress.clone(),
                input: ciclo.feedback_port.clone(),
            },
            size: None,
            queueing_policy: None,
            priority: None,
        };
        proof {
            lemma_views_push(links@, back);
            assert(back@ == loop_link(ciclo@));
            assert(loop_links(all.take(i + 1)) =~= loop_links(all.take(i as int)).push(
                loop_link(ciclo@),
            ));
            assert(views(links@.push(back)) =~= declared + loop_links(all.take(i + 1)));
        }
        links.push(back);
        i += 1;
    }
    assert(all.take(all.len() as int) =~= all);
    Ok(())
}

/// The rules that a record holds for the declared deadlines.
fn deadline_records(declared: Vec<E2EDeadlineDescriptor>) -> (r: Vec<E2EDeadlineRecord>)
    ensures
        views(r@) == views(declared@),
{
    let ghost all = declared@;
    let mut out: Vec<E2EDeadlineRecord> = Vec::new();
    assert(views(out@) =~= views(all.take(0)));
    for desc in it: declared
        invariant
            it.seq() == all,
            views(out@) == views(all.take(it.index() as int)),
    {
        let rule = E2EDeadlineRecord::from_descriptor(desc);
        proof {
            let n = it.index() as int;
            lemma_views_push(out@, rule);
            assert(all.take(n + 1) =~= all.take(n).push(desc));
            lemma_views_push(all.take(n), desc);
        }
        out.push(rule);
    }
    assert(all.take(all.len() as int) =~= all);
    out
}

impl TryFromSpecImpl<(DataFlowDescriptor, u128)> for DataFlowRecord {
    /// The outcome of a compilation is stated over views, by the `ensures`
    /// of `try_from`, and not as one value of the record type.
    open spec fn obeys_try_from_spec() -> bool {
        false
    }

    open spec fn try_from_spec(d: (DataFlowDescriptor, u128)) -> Result<Self, ZFError> {
        Err(ZFError::GenericError)
    }
}

impl TryFrom<(DataFlowDescriptor, u128)> for DataFlowRecord {
    type Error = ZFError;

    /// Compiles a flow description under a fresh instance identifier.
    ///
    /// Nodes that the flags remove are left out, with every link that
    /// touches them. Each node that stays gets the flow-wide configuration
    /// merged with its own, and its runtime from the mapping. Each declared
    /// loop becomes one more input of its ingress, one more output of its
    /// egress, and a link from the one to the other. Then the links are
    /// added, with connectors where a link crosses runtimes.
    ///
    /// # Errors
    /// `MissingConfiguration` if a node that stays has no runtime in the
    /// mapping; `GenericError` if a loop names an operator that is not there;
    /// the fault of the first link that cannot be added. No record is
    /// returned then.
    fn try_from(d: (DataFlowDescriptor, u128)) -> (r: Result<Self, ZFError>)
        ensures
            match r {
                Ok(record) => compile(d.0@, d.1) == Ok::<RecordView, ErrorView>(record@),
                Err(e) => compile(d.0@, d.1) == Err::<RecordView, ErrorView>(e@),
            },
    {
        let ghost dv = d.0@;
        let (dataflow, id) = d;
        let DataFlowDescriptor {
            flow,
            operators,
            sources,
            sinks,
            links,
            mapping,
            deadlines,
            loops,
            global_configuration,
            flags,
        } = dataflow;
        let mut links = links;

        let mapping = match mapping {
            Some(m) => m,
            None => TextMap::new(),
        };
        assert(map_views(mapping@) =~= declared_mapping(dv));

        let nodes_to_remove = match &flags {
            Some(flags) => get_nodes_to_remove(flags),
            None => Vec::new(),
        };
        assert(views(nodes_to_remove@).to_set() =~= removed_nodes(dv.flags));

        let deadlines = match deadlines {
            Some(declared) => Some(deadline_records(declared)),
            None => None,
        };

        let mut operators = match place_operators(
            operators,
            &nodes_to_remove,
            &mapping,
            &global_configuration,
        ) {
            Ok(placed) => placed,
            Err(e) => {
                return Err(e);
            },
        };
        let sources = match place_sources(
            sources,
            &nodes_to_remove,
            &mapping,
            &global_configuration,
        ) {
            Ok(placed) => placed,
            Err(e) => {
                return Err(e);
            },
        };
        let sinks = match place_sinks(sinks, &nodes_to_remove, &mapping, &global_configuration) {
            Ok(placed) => placed,
            Err(e) => {
                return Err(e);
            },
        };

        // A loop between two operators is a backward link. Its two ports were
        // not declared by the user, so the ingress and the egress get them
        // here, before the link is checked like any other.
        match &loops {
            Some(loops) => {
                match apply_declared_loops(&mut operators, loops, &mut links) {
                    Ok(()) => {},
                    Err(e) => {
                        return Err(e);
                    },
                }
            },
            None => {
                assert(dv.links + loop_links(Seq::<LoopView>::empty()) =~= dv.links);
            },
        }
        assert(views(links@) == all_links(dv));

        let mut dfr = DataFlowRecord {
            uuid: id,
            flow,
            operators,
            sinks,
            sources,
            connectors: Vec::new(),
            links: Vec::new(),
            end_to_end_deadlines: deadlines,
        };
        assert(dfr@.connectors =~= Seq::<crate::model::connector::ConnectorView>::empty());
        assert(dfr@.links =~= Seq::<LinkView>::empty());
        assert(compile_nodes(dv, id) == Ok::<RecordView, ErrorView>(dfr@));

        match dfr.add_links(&links, &nodes_to_remove) {
            Ok(()) => Ok(dfr),
            Err(e) => Err(e),
        }
    }
}

} // verus!
