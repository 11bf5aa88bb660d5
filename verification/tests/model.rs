use std::collections::hash_map::DefaultHasher;
use std::hash::{Hash, Hasher};
use zenoh_flow::collections::TextMap;
use zenoh_flow::model::configuration::{Configuration, Setting};
use zenoh_flow::model::deadline::{E2EDeadlineDescriptor, E2EDeadlineRecord};
use zenoh_flow::model::descriptor::DataFlowDescriptor;
use zenoh_flow::model::link::{
    find_port_type, port_types_match, InputDescriptor, LinkDescriptor, OutputDescriptor,
    PortDescriptor,
};
use zenoh_flow::model::naming::{make_receiver_name, make_resource_name, make_sender_name};
use zenoh_flow::model::node::{OperatorDescriptor, OperatorRecord, SinkRecord, SourceRecord};
use zenoh_flow::model::record::DataFlowRecord;
use zenoh_flow::text::{has_text, prefixed};
use zenoh_flow::types::ZFError;

fn w(text: &str) -> String {
    text.to_string()
}

fn p(id: &str, ty: &str) -> PortDescriptor {
    PortDescriptor { port_id: w(id), port_type: w(ty) }
}

fn small_flow() -> DataFlowDescriptor {
    let mut mapping = TextMap::new();
    mapping.insert(w("op"), w("rt1"));
    DataFlowDescriptor {
        flow: w("f"),
        operators: vec![OperatorDescriptor {
            id: w("op"),
            inputs: vec![p("in", "int")],
            outputs: vec![p("out", "int")],
            uri: Some(w("file://./libop.so")),
            configuration: Some(Configuration {
                settings: vec![Setting { key: w("k"), value: w("1") }],
            }),
            deadline: Some(250),
        }],
        sources: vec![],
        sinks: vec![],
        links: vec![],
        mapping: Some(mapping),
        deadlines: None,
        loops: None,
        global_configuration: None,
        flags: None,
    }
}

fn hash_of(record: &DataFlowRecord) -> u64 {
    let mut hasher = DefaultHasher::new();
    record.hash(&mut hasher);
    hasher.finish()
}

#[test]
fn names_are_built_from_flow_instance_node_and_port() {
    let id = 0xa1a2a3a4b1b2c1c2d1d2d3d4d5d6d7d8u128;
    assert_eq!(
        make_resource_name(&w("my-flow"), id, &w("node"), &w("port")),
        "/zf/data/my-flow/a1a2a3a4-b1b2-c1c2-d1d2-d3d4d5d6d7d8/node/port"
    );
    assert_eq!(
        make_sender_name(&w("my-flow"), id, &w("node"), &w("port")),
        "sender-my-flow-a1a2a3a4-b1b2-c1c2-d1d2-d3d4d5d6d7d8/node/port"
    );
    assert_eq!(
        make_receiver_name(&w("my-flow"), id, &w("node"), &w("port")),
        "receiver-my-flow-a1a2a3a4-b1b2-c1c2-d1d2-d3d4d5d6d7d8/node/port"
    );
}

#[test]
fn instance_text_of_extreme_identifiers() {
    assert_eq!(
        make_resource_name(&w(""), 0, &w(""), &w("")),
        "/zf/data//00000000-0000-0000-0000-000000000000//"
    );
    assert_eq!(
        make_resource_name(&w("f"), u128::MAX, &w("n"), &w("p")),
        "/zf/data/f/ffffffff-ffff-ffff-ffff-ffffffffffff/n/p"
    );
    assert_eq!(
        make_resource_name(&w("f"), 0x0123456789abcdef0123456789abcdef, &w("n"), &w("p")),
        "/zf/data/f/01234567-89ab-cdef-0123-456789abcdef/n/p"
    );
}

#[test]
fn port_types_are_compatible_when_equal() {
    assert!(port_types_match(&w("int"), &w("int")));
    assert!(!port_types_match(&w("int"), &w("Int")));
    assert!(!port_types_match(&w("int"), &w("")));
}

#[test]
fn first_port_of_an_identifier_gives_the_type() {
    let ports = vec![p("a", "int"), p("b", "text"), p("a", "bytes")];
    assert_eq!(find_port_type(&ports, &w("a")), Some(w("int")));
    assert_eq!(find_port_type(&ports, &w("b")), Some(w("text")));
    assert_eq!(find_port_type(&ports, &w("c")), None);
    assert_eq!(find_port_type(&vec![], &w("a")), None);
}

#[test]
fn node_records_report_their_port_types() {
    let op = OperatorRecord {
        id: w("op"),
        inputs: vec![p("in", "int")],
        outputs: vec![p("out", "text")],
        uri: None,
        configuration: None,
        runtime: w("rt"),
        deadline: None,
        ciclo: None,
    };
    assert_eq!(op.get_input_type(&w("in")), Some(w("int")));
    assert_eq!(op.get_input_type(&w("out")), None);
    assert_eq!(op.get_output_type(&w("out")), Some(w("text")));
    let src = SourceRecord {
        id: w("s"),
        output: p("out", "int"),
        period: None,
        uri: None,
        configuration: None,
        runtime: w("rt"),
    };
    assert_eq!(src.get_output_type(&w("out")), Some(w("int")));
    assert_eq!(src.get_output_type(&w("in")), None);
    let snk = SinkRecord { id: w("k"), input: p("in", "int"), uri: None, configuration: None, runtime: w("rt") };
    assert_eq!(snk.get_input_type(&w("in")), Some(w("int")));
    assert_eq!(snk.get_input_type(&w("out")), None);
}

#[test]
fn later_setting_of_a_key_wins() {
    let c = Configuration {
        settings: vec![
            Setting { key: w("k"), value: w("1") },
            Setting { key: w("j"), value: w("2") },
            Setting { key: w("k"), value: w("3") },
        ],
    };
    assert_eq!(c.get(&w("k")), Some(&w("3")));
    assert_eq!(c.get(&w("j")), Some(&w("2")));
    assert_eq!(c.get(&w("i")), None);
}

#[test]
fn deadline_record_of_a_descriptor() {
    let d = E2EDeadlineDescriptor {
        from: OutputDescriptor { node: w("a"), output: w("o") },
        to: InputDescriptor { node: w("b"), input: w("i") },
        duration: 42,
    };
    assert_eq!(
        E2EDeadlineRecord::from_descriptor(d),
        E2EDeadlineRecord {
            from: OutputDescriptor { node: w("a"), output: w("o") },
            to: InputDescriptor { node: w("b"), input: w("i") },
            duration: 42,
        }
    );
}

#[test]
fn clones_hold_the_same_values() {
    let d = small_flow();
    let copy = d.clone();
    assert_eq!(copy.flow, d.flow);
    assert_eq!(copy.operators, d.operators);
    assert_eq!(copy.mapping.as_ref().unwrap().get(&w("op")), Some(&w("rt1")));
    let record = DataFlowRecord::try_from((d, 5)).unwrap();
    let twin = record.clone();
    assert_eq!(twin.uuid, 5);
    assert_eq!(twin.flow, "f");
    assert_eq!(twin.operators.get(&w("op")), record.operators.get(&w("op")));
    assert_eq!(twin.operators.get(&w("op")).unwrap().deadline, Some(250));
    let l = LinkDescriptor {
        from: OutputDescriptor { node: w("a"), output: w("o") },
        to: InputDescriptor { node: w("b"), input: w("i") },
        size: Some(3),
        queueing_policy: Some(w("block")),
        priority: None,
    };
    assert_eq!(l.clone(), l);
    let e = ZFError::PortNotFound((w("a"), w("b")));
    assert_eq!(e.clone(), e);
}

#[test]
fn equal_records_hash_alike() {
    let a = DataFlowRecord::try_from((small_flow(), 5)).unwrap();
    let mut other = small_flow();
    other.operators.clear();
    let b = DataFlowRecord::try_from((other, 5)).unwrap();
    let c = DataFlowRecord::try_from((small_flow(), 6)).unwrap();
    assert!(a == b);
    assert_eq!(hash_of(&a), hash_of(&b));
    assert!(a != c);
    assert_ne!(hash_of(&a), hash_of(&c));
}

#[test]
fn text_helpers() {
    assert_eq!(prefixed("Unable to find runtime for ", &w("x")), "Unable to find runtime for x");
    assert!(has_text(&vec![w("a"), w("b")], &w("b")));
    assert!(!has_text(&vec![w("a"), w("b")], &w("c")));
}
