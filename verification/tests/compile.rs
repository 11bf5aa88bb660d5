use zenoh_flow::collections::TextMap;
use zenoh_flow::model::configuration::{merge_configurations, Configuration, Setting};
use zenoh_flow::model::connector::{ZFConnectorKind, ZFConnectorRecord};
use zenoh_flow::model::deadline::{E2EDeadlineDescriptor, E2EDeadlineRecord};
use zenoh_flow::model::descriptor::DataFlowDescriptor;
use zenoh_flow::model::flag::{get_nodes_to_remove, Flag};
use zenoh_flow::model::link::{InputDescriptor, LinkDescriptor, OutputDescriptor, PortDescriptor};
use zenoh_flow::model::loops::LoopDescriptor;
use zenoh_flow::model::node::{OperatorDescriptor, SinkDescriptor, SourceDescriptor};
use zenoh_flow::model::record::DataFlowRecord;
use zenoh_flow::types::ZFError;

const ID: u128 = 0x936da01f9abd4d9d80c702af85c822a8;
const ID_TEXT: &str = "936da01f-9abd-4d9d-80c7-02af85c822a8";

fn s(text: &str) -> String {
    text.to_string()
}

fn port(id: &str, ty: &str) -> PortDescriptor {
    PortDescriptor { port_id: s(id), port_type: s(ty) }
}

fn link(from: &str, output: &str, to: &str, input: &str) -> LinkDescriptor {
    LinkDescriptor {
        from: OutputDescriptor { node: s(from), output: s(output) },
        to: InputDescriptor { node: s(to), input: s(input) },
        size: None,
        queueing_policy: None,
        priority: None,
    }
}

fn source(id: &str, out: &str, ty: &str) -> SourceDescriptor {
    SourceDescriptor { id: s(id), output: port(out, ty), period: None, uri: None, configuration: None }
}

fn sink(id: &str, input: &str, ty: &str) -> SinkDescriptor {
    SinkDescriptor { id: s(id), input: port(input, ty), uri: None, configuration: None }
}

fn operator(id: &str, inputs: Vec<PortDescriptor>, outputs: Vec<PortDescriptor>) -> OperatorDescriptor {
    OperatorDescriptor { id: s(id), inputs, outputs, uri: None, configuration: None, deadline: None }
}

fn mapping(pairs: &[(&str, &str)]) -> Option<TextMap<String>> {
    let mut m = TextMap::new();
    for (node, runtime) in pairs {
        m.insert(s(node), s(runtime));
    }
    Some(m)
}

fn flow(
    operators: Vec<OperatorDescriptor>,
    sources: Vec<SourceDescriptor>,
    sinks: Vec<SinkDescriptor>,
    links: Vec<LinkDescriptor>,
    map: Option<TextMap<String>>,
) -> DataFlowDescriptor {
    DataFlowDescriptor {
        flow: s("flow"),
        operators,
        sources,
        sinks,
        links,
        mapping: map,
        deadlines: None,
        loops: None,
        global_configuration: None,
        flags: None,
    }
}

fn config(pairs: &[(&str, &str)]) -> Configuration {
    Configuration {
        settings: pairs.iter().map(|(k, v)| Setting { key: s(k), value: s(v) }).collect(),
    }
}

fn sender_id(node: &str, port: &str) -> String {
    format!("sender-flow-{}/{}/{}", ID_TEXT, node, port)
}

fn receiver_id(node: &str, port: &str) -> String {
    format!("receiver-flow-{}/{}/{}", ID_TEXT, node, port)
}

fn resource(node: &str, port: &str) -> String {
    format!("/zf/data/flow/{}/{}/{}", ID_TEXT, node, port)
}

#[test]
fn same_runtime_link_is_kept_unchanged() {
    let mut declared = link("src", "out", "snk", "in");
    declared.size = Some(16);
    declared.queueing_policy = Some(s("drop"));
    declared.priority = Some(2);
    let d = flow(
        vec![],
        vec![source("src", "out", "int")],
        vec![sink("snk", "in", "int")],
        vec![declared.clone()],
        mapping(&[("src", "rt1"), ("snk", "rt1")]),
    );
    let record = DataFlowRecord::try_from((d, ID)).unwrap();
    assert_eq!(record.uuid, ID);
    assert_eq!(record.flow, "flow");
    assert!(record.connectors.is_empty());
    assert_eq!(record.links, vec![declared]);
    assert_eq!(record.sources.len(), 1);
    assert_eq!(record.sinks.len(), 1);
    assert_eq!(record.operators.len(), 0);
    assert_eq!(record.sources.get(&s("src")).unwrap().runtime, "rt1");
}

#[test]
fn cross_runtime_link_gets_sender_and_receiver() {
    let mut declared = link("src", "out", "snk", "in");
    declared.size = Some(16);
    declared.priority = Some(2);
    let d = flow(
        vec![],
        vec![source("src", "out", "int")],
        vec![sink("snk", "in", "int")],
        vec![declared],
        mapping(&[("src", "rt1"), ("snk", "rt2")]),
    );
    let record = DataFlowRecord::try_from((d, ID)).unwrap();
    assert_eq!(
        record.connectors,
        vec![
            ZFConnectorRecord {
                kind: ZFConnectorKind::Sender,
                id: sender_id("src", "out"),
                resource: resource("src", "out"),
                link_id: port("out", "int"),
                runtime: s("rt1"),
            },
            ZFConnectorRecord {
                kind: ZFConnectorKind::Receiver,
                id: receiver_id("snk", "in"),
                resource: resource("src", "out"),
                link_id: port("in", "int"),
                runtime: s("rt2"),
            },
        ]
    );
    assert_eq!(
        record.links,
        vec![
            link("src", "out", &sender_id("src", "out"), "out"),
            link(&receiver_id("snk", "in"), "in", "snk", "in"),
        ]
    );
}

#[test]
fn resource_name_is_written_out_exactly() {
    let d = flow(
        vec![],
        vec![source("src", "out", "int")],
        vec![sink("snk", "in", "int")],
        vec![link("src", "out", "snk", "in")],
        mapping(&[("src", "rt1"), ("snk", "rt2")]),
    );
    let record = DataFlowRecord::try_from((d, ID)).unwrap();
    assert_eq!(
        record.connectors[0].resource,
        "/zf/data/flow/936da01f-9abd-4d9d-80c7-02af85c822a8/src/out"
    );
    assert_eq!(
        record.connectors[0].id,
        "sender-flow-936da01f-9abd-4d9d-80c7-02af85c822a8/src/out"
    );
    assert_eq!(
        record.connectors[1].id,
        "receiver-flow-936da01f-9abd-4d9d-80c7-02af85c822a8/snk/in"
    );
}

#[test]
fn small_instance_identifier_is_padded_with_zeros() {
    let d = flow(
        vec![],
        vec![source("src", "out", "int")],
        vec![sink("snk", "in", "int")],
        vec![link("src", "out", "snk", "in")],
        mapping(&[("src", "rt1"), ("snk", "rt2")]),
    );
    let record = DataFlowRecord::try_from((d, 0x1f)).unwrap();
    assert_eq!(
        record.connectors[0].resource,
        "/zf/data/flow/00000000-0000-0000-0000-00000000001f/src/out"
    );
}

#[test]
fn fan_out_to_two_runtimes_shares_one_sender() {
    let d = flow(
        vec![],
        vec![source("src", "out", "int")],
        vec![sink("a", "in", "int"), sink("b", "in", "int")],
        vec![link("src", "out", "a", "in"), link("src", "out", "b", "in")],
        mapping(&[("src", "rt1"), ("a", "rt2"), ("b", "rt3")]),
    );
    let record = DataFlowRecord::try_from((d, ID)).unwrap();
    let senders: Vec<&ZFConnectorRecord> =
        record.connectors.iter().filter(|c| c.kind == ZFConnectorKind::Sender).collect();
    let receivers: Vec<&ZFConnectorRecord> =
        record.connectors.iter().filter(|c| c.kind == ZFConnectorKind::Receiver).collect();
    assert_eq!(senders.len(), 1);
    assert_eq!(receivers.len(), 2);
    assert_eq!(senders[0].id, sender_id("src", "out"));
    assert_eq!(receivers[0].id, receiver_id("a", "in"));
    assert_eq!(receivers[0].runtime, "rt2");
    assert_eq!(receivers[1].id, receiver_id("b", "in"));
    assert_eq!(receivers[1].runtime, "rt3");
    assert_eq!(receivers[0].resource, resource("src", "out"));
    assert_eq!(receivers[1].resource, resource("src", "out"));
    assert_eq!(
        record.links,
        vec![
            link("src", "out", &sender_id("src", "out"), "out"),
            link(&receiver_id("a", "in"), "in", "a", "in"),
            link(&receiver_id("b", "in"), "in", "b", "in"),
        ]
    );
}

#[test]
fn type_mismatch_fails_and_names_both_types() {
    let d = flow(
        vec![],
        vec![source("src", "out", "int")],
        vec![sink("snk", "in", "string")],
        vec![link("src", "out", "snk", "in")],
        mapping(&[("src", "rt1"), ("snk", "rt1")]),
    );
    assert_eq!(
        DataFlowRecord::try_from((d, ID)),
        Err(ZFError::PortTypeNotMatching((s("int"), s("string"))))
    );
}

#[test]
fn node_without_runtime_fails() {
    let d = flow(
        vec![],
        vec![source("src", "out", "int")],
        vec![sink("snk", "in", "int")],
        vec![link("src", "out", "snk", "in")],
        mapping(&[("src", "rt1")]),
    );
    assert_eq!(DataFlowRecord::try_from((d, ID)), Err(ZFError::MissingConfiguration));
}

#[test]
fn flow_without_mapping_fails() {
    let d = flow(vec![], vec![source("src", "out", "int")], vec![], vec![], None);
    assert_eq!(DataFlowRecord::try_from((d, ID)), Err(ZFError::MissingConfiguration));
}

#[test]
fn link_to_unknown_node_fails() {
    let d = flow(
        vec![],
        vec![source("src", "out", "int")],
        vec![],
        vec![link("src", "out", "ghost", "in")],
        mapping(&[("src", "rt1")]),
    );
    assert_eq!(
        DataFlowRecord::try_from((d, ID)),
        Err(ZFError::Uncompleted(s("Unable to find runtime for ghost")))
    );
}

#[test]
fn link_from_unknown_node_fails() {
    let d = flow(
        vec![],
        vec![],
        vec![sink("snk", "in", "int")],
        vec![link("ghost", "out", "snk", "in")],
        mapping(&[("snk", "rt1")]),
    );
    assert_eq!(
        DataFlowRecord::try_from((d, ID)),
        Err(ZFError::Uncompleted(s("Unable to find runtime for ghost")))
    );
}

#[test]
fn link_from_unknown_port_fails() {
    let d = flow(
        vec![],
        vec![source("src", "out", "int")],
        vec![sink("snk", "in", "int")],
        vec![link("src", "nope", "snk", "in")],
        mapping(&[("src", "rt1"), ("snk", "rt1")]),
    );
    assert_eq!(
        DataFlowRecord::try_from((d, ID)),
        Err(ZFError::PortNotFound((s("src"), s("nope"))))
    );
}

#[test]
fn link_to_unknown_port_fails() {
    let d = flow(
        vec![],
        vec![source("src", "out", "int")],
        vec![sink("snk", "in", "int")],
        vec![link("src", "out", "snk", "nope")],
        mapping(&[("src", "rt1"), ("snk", "rt1")]),
    );
    assert_eq!(
        DataFlowRecord::try_from((d, ID)),
        Err(ZFError::PortNotFound((s("snk"), s("nope"))))
    );
}

#[test]
fn sink_is_no_source_of_a_link() {
    // A sink has a runtime but no output: the fault is the missing port.
    let d = flow(
        vec![],
        vec![],
        vec![sink("a", "in", "int"), sink("b", "in", "int")],
        vec![link("a", "in", "b", "in")],
        mapping(&[("a", "rt1"), ("b", "rt1")]),
    );
    assert_eq!(
        DataFlowRecord::try_from((d, ID)),
        Err(ZFError::PortNotFound((s("a"), s("in"))))
    );
}

#[test]
fn first_faulty_link_decides_the_error() {
    let d = flow(
        vec![],
        vec![source("src", "out", "int")],
        vec![sink("snk", "in", "string")],
        vec![link("src", "nope", "snk", "in"), link("src", "out", "snk", "in")],
        mapping(&[("src", "rt1"), ("snk", "rt1")]),
    );
    assert_eq!(
        DataFlowRecord::try_from((d, ID)),
        Err(ZFError::PortNotFound((s("src"), s("nope"))))
    );
}

#[test]
fn loop_adds_ports_and_backward_link() {
    let mut d = flow(
        vec![
            operator("a", vec![port("in", "int")], vec![port("out", "int")]),
            operator("b", vec![port("in", "int")], vec![port("out", "int")]),
        ],
        vec![],
        vec![],
        vec![link("b", "out", "a", "in")],
        mapping(&[("a", "rt1"), ("b", "rt1")]),
    );
    let ciclo = LoopDescriptor {
        ingress: s("b"),
        egress: s("a"),
        feedback_port: s("feedback"),
        port_type: s("int"),
    };
    d.loops = Some(vec![ciclo.clone()]);
    let record = DataFlowRecord::try_from((d, ID)).unwrap();
    let a = record.operators.get(&s("a")).unwrap();
    let b = record.operators.get(&s("b")).unwrap();
    assert_eq!(b.inputs, vec![port("in", "int"), port("feedback", "int")]);
    assert_eq!(b.outputs, vec![port("out", "int")]);
    assert_eq!(a.outputs, vec![port("out", "int"), port("feedback", "int")]);
    assert_eq!(a.inputs, vec![port("in", "int")]);
    assert_eq!(a.ciclo, Some(ciclo.clone()));
    assert_eq!(b.ciclo, Some(ciclo));
    assert!(record.connectors.is_empty());
    assert_eq!(
        record.links,
        vec![link("b", "out", "a", "in"), link("a", "feedback", "b", "feedback")]
    );
}

#[test]
fn loop_across_runtimes_gets_connectors() {
    let mut d = flow(
        vec![
            operator("a", vec![port("in", "int")], vec![port("out", "int")]),
            operator("b", vec![port("in", "int")], vec![port("out", "int")]),
        ],
        vec![],
        vec![],
        vec![],
        mapping(&[("a", "rt1"), ("b", "rt2")]),
    );
    d.loops = Some(vec![LoopDescriptor {
        ingress: s("b"),
        egress: s("a"),
        feedback_port: s("feedback"),
        port_type: s("int"),
    }]);
    let record = DataFlowRecord::try_from((d, ID)).unwrap();
    assert_eq!(record.connectors.len(), 2);
    assert_eq!(record.connectors[0].kind, ZFConnectorKind::Sender);
    assert_eq!(record.connectors[0].resource, resource("a", "feedback"));
    assert_eq!(record.connectors[0].runtime, "rt1");
    assert_eq!(record.connectors[1].kind, ZFConnectorKind::Receiver);
    assert_eq!(record.connectors[1].runtime, "rt2");
    assert_eq!(
        record.links,
        vec![
            link("a", "feedback", &sender_id("a", "feedback"), "feedback"),
            link(&receiver_id("b", "feedback"), "feedback", "b", "feedback"),
        ]
    );
}

#[test]
fn loop_on_unknown_operator_fails() {
    let mut d = flow(
        vec![operator("a", vec![port("in", "int")], vec![port("out", "int")])],
        vec![],
        vec![],
        vec![],
        mapping(&[("a", "rt1")]),
    );
    d.loops = Some(vec![LoopDescriptor {
        ingress: s("ghost"),
        egress: s("a"),
        feedback_port: s("feedback"),
        port_type: s("int"),
    }]);
    assert_eq!(DataFlowRecord::try_from((d.clone(), ID)), Err(ZFError::GenericError));
    d.loops = Some(vec![LoopDescriptor {
        ingress: s("a"),
        egress: s("ghost"),
        feedback_port: s("feedback"),
        port_type: s("int"),
    }]);
    assert_eq!(DataFlowRecord::try_from((d, ID)), Err(ZFError::GenericError));
}

#[test]
fn removed_node_and_its_links_are_left_out() {
    let mut d = flow(
        vec![],
        vec![source("src", "out", "int")],
        vec![sink("a", "in", "int"), sink("b", "in", "int")],
        vec![link("src", "out", "a", "in"), link("src", "out", "b", "in")],
        // The removed node needs no runtime.
        mapping(&[("src", "rt1"), ("a", "rt1")]),
    );
    d.flags = Some(vec![Flag { id: s("no-b"), toggle: false, nodes: vec![s("b")] }]);
    let record = DataFlowRecord::try_from((d, ID)).unwrap();
    assert_eq!(record.sinks.len(), 1);
    assert!(record.sinks.get(&s("b")).is_none());
    assert!(record.sinks.get(&s("a")).is_some());
    assert!(record.connectors.is_empty());
    assert_eq!(record.links, vec![link("src", "out", "a", "in")]);
}

#[test]
fn removed_remote_node_leaves_no_connector() {
    let mut d = flow(
        vec![],
        vec![source("src", "out", "int")],
        vec![sink("a", "in", "int"), sink("b", "in", "int")],
        vec![link("src", "out", "a", "in"), link("src", "out", "b", "in")],
        mapping(&[("src", "rt1"), ("a", "rt1"), ("b", "rt2")]),
    );
    d.flags = Some(vec![Flag { id: s("no-b"), toggle: false, nodes: vec![s("b")] }]);
    let record = DataFlowRecord::try_from((d, ID)).unwrap();
    assert!(record.connectors.is_empty());
    assert_eq!(record.links, vec![link("src", "out", "a", "in")]);
}

#[test]
fn flag_that_is_on_keeps_its_nodes() {
    let flags = vec![
        Flag { id: s("off"), toggle: false, nodes: vec![s("a"), s("b")] },
        Flag { id: s("on"), toggle: true, nodes: vec![s("b"), s("c")] },
    ];
    assert_eq!(get_nodes_to_remove(&flags), vec![s("a")]);
    assert!(get_nodes_to_remove(&[].to_vec()).is_empty());
}

#[test]
fn local_configuration_overrides_global() {
    let merged = merge_configurations(
        Some(config(&[("rate", "1"), ("mode", "fast")])),
        Some(config(&[("rate", "2"), ("name", "x")])),
    )
    .unwrap();
    assert_eq!(merged.get(&s("rate")), Some(&s("2")));
    assert_eq!(merged.get(&s("mode")), Some(&s("fast")));
    assert_eq!(merged.get(&s("name")), Some(&s("x")));
    assert_eq!(merged.get(&s("other")), None);
}

#[test]
fn configuration_merge_with_one_side_missing() {
    assert_eq!(merge_configurations(None, None), None);
    assert_eq!(
        merge_configurations(Some(config(&[("rate", "1")])), None),
        Some(config(&[("rate", "1")]))
    );
    assert_eq!(
        merge_configurations(None, Some(config(&[("rate", "2")]))),
        Some(config(&[("rate", "2")]))
    );
}

#[test]
fn compiled_nodes_carry_merged_configuration() {
    let mut src = source("src", "out", "int");
    src.configuration = Some(config(&[("rate", "2")]));
    src.period = Some(1_000_000);
    src.uri = Some(s("file://./libsrc.so"));
    let mut d = flow(vec![], vec![src], vec![sink("snk", "in", "int")], vec![], mapping(&[("src", "rt1"), ("snk", "rt1")]));
    d.global_configuration = Some(config(&[("rate", "1"), ("mode", "fast")]));
    let record = DataFlowRecord::try_from((d, ID)).unwrap();
    let src = record.sources.get(&s("src")).unwrap();
    let cfg = src.configuration.as_ref().unwrap();
    assert_eq!(cfg.get(&s("rate")), Some(&s("2")));
    assert_eq!(cfg.get(&s("mode")), Some(&s("fast")));
    assert_eq!(src.period, Some(1_000_000));
    assert_eq!(src.uri, Some(s("file://./libsrc.so")));
    let snk = record.sinks.get(&s("snk")).unwrap();
    assert_eq!(snk.configuration.as_ref().unwrap().get(&s("mode")), Some(&s("fast")));
}

#[test]
fn declared_deadlines_are_carried_over() {
    let mut d = flow(
        vec![],
        vec![source("src", "out", "int")],
        vec![sink("snk", "in", "int")],
        vec![link("src", "out", "snk", "in")],
        mapping(&[("src", "rt1"), ("snk", "rt1")]),
    );
    d.deadlines = Some(vec![E2EDeadlineDescriptor {
        from: OutputDescriptor { node: s("src"), output: s("out") },
        to: InputDescriptor { node: s("snk"), input: s("in") },
        duration: 500,
    }]);
    let record = DataFlowRecord::try_from((d, ID)).unwrap();
    assert_eq!(
        record.end_to_end_deadlines,
        Some(vec![E2EDeadlineRecord {
            from: OutputDescriptor { node: s("src"), output: s("out") },
            to: InputDescriptor { node: s("snk"), input: s("in") },
            duration: 500,
        }])
    );
}

#[test]
fn node_lookups_search_operators_first() {
    let d = flow(
        vec![operator("op", vec![port("in", "int")], vec![port("out", "text")])],
        vec![source("src", "out", "int")],
        vec![sink("snk", "in", "text")],
        vec![link("src", "out", "op", "in"), link("op", "out", "snk", "in")],
        mapping(&[("op", "rt1"), ("src", "rt2"), ("snk", "rt3")]),
    );
    let record = DataFlowRecord::try_from((d, ID)).unwrap();
    assert_eq!(record.find_node_runtime("op"), Some(s("rt1")));
    assert_eq!(record.find_node_runtime("src"), Some(s("rt2")));
    assert_eq!(record.find_node_runtime("snk"), Some(s("rt3")));
    assert_eq!(record.find_node_runtime("ghost"), None);
    assert_eq!(record.find_node_output_type("op", "out"), Some(s("text")));
    assert_eq!(record.find_node_output_type("src", "out"), Some(s("int")));
    assert_eq!(record.find_node_output_type("snk", "in"), None);
    assert_eq!(record.find_node_output_type("op", "in"), None);
    assert_eq!(record.find_node_input_type("op", "in"), Some(s("int")));
    assert_eq!(record.find_node_input_type("snk", "in"), Some(s("text")));
    assert_eq!(record.find_node_input_type("src", "out"), None);
    assert_eq!(record.connectors.len(), 4);
}

#[test]
fn add_links_stops_at_the_first_fault() {
    let d = flow(
        vec![],
        vec![source("src", "out", "int")],
        vec![sink("snk", "in", "int")],
        vec![],
        mapping(&[("src", "rt1"), ("snk", "rt1")]),
    );
    let mut record = DataFlowRecord::try_from((d, ID)).unwrap();
    let links = vec![
        link("src", "out", "snk", "in"),
        link("src", "out", "ghost", "in"),
        link("src", "out", "snk", "in"),
    ];
    assert_eq!(
        record.add_links(&links, &vec![]),
        Err(ZFError::Uncompleted(s("Unable to find runtime for ghost")))
    );
    assert_eq!(record.links, vec![link("src", "out", "snk", "in")]);
    assert_eq!(record.add_links(&links, &vec![s("ghost")]), Ok(()));
    assert_eq!(record.links.len(), 3);
}

#[test]
fn records_are_equal_by_identifier_and_flow_name() {
    let d1 = flow(vec![], vec![source("src", "out", "int")], vec![], vec![], mapping(&[("src", "rt1")]));
    let d2 = flow(vec![], vec![], vec![sink("snk", "in", "int")], vec![], mapping(&[("snk", "rt1")]));
    let a = DataFlowRecord::try_from((d1.clone(), ID)).unwrap();
    let b = DataFlowRecord::try_from((d2, ID)).unwrap();
    let c = DataFlowRecord::try_from((d1, ID + 1)).unwrap();
    assert!(a == b);
    assert!(a != c);
}
