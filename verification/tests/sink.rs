use zenoh_flow::collections::TextMap;
use zenoh_flow::model::deadline::E2EDeadlineRecord;
use zenoh_flow::model::link::{InputDescriptor, OutputDescriptor, PortDescriptor};
use zenoh_flow::runtime::deadline::{E2EDeadline, E2EDeadlineMiss, Timestamp};
use zenoh_flow::runtime::message::{ControlMessage, DataMessage, Message};
use zenoh_flow::runtime::sink::{
    OperatorIO, RunnerKind, SinkAction, SinkEvent, SinkLoaded, SinkPhase, SinkRunner,
};
use zenoh_flow::types::ZFError;

fn t(text: &str) -> String {
    text.to_string()
}

fn at(time: u64) -> Timestamp {
    Timestamp { time, id: 7 }
}

fn loaded() -> SinkLoaded {
    SinkLoaded {
        id: t("snk"),
        input: PortDescriptor { port_id: t("in"), port_type: t("int") },
        end_to_end_deadlines: vec![E2EDeadlineRecord {
            from: OutputDescriptor { node: t("src"), output: t("out") },
            to: InputDescriptor { node: t("snk"), input: t("in") },
            duration: 100,
        }],
    }
}

fn io_with(port: &str, link: u32) -> OperatorIO<u32, u32> {
    let mut inputs = TextMap::new();
    inputs.insert(t(port), link);
    OperatorIO { inputs, outputs: TextMap::new() }
}

fn runner() -> SinkRunner<u32> {
    SinkRunner::try_new(loaded(), io_with("in", 41)).unwrap()
}

fn rule(to: &str, start: u64, duration: u64) -> E2EDeadline {
    E2EDeadline {
        duration,
        from: OutputDescriptor { node: t("src"), output: t("out") },
        to: InputDescriptor { node: t(to), input: t("in") },
        start: at(start),
    }
}

fn message(rules: Vec<E2EDeadline>, missed: Vec<E2EDeadlineMiss>) -> DataMessage {
    DataMessage {
        data: vec![1, 2, 3],
        timestamp: at(1_000),
        end_to_end_deadlines: rules,
        missed_end_to_end_deadlines: missed,
    }
}

fn miss(to: &str, start: u64, end: u64) -> E2EDeadlineMiss {
    E2EDeadlineMiss {
        from: OutputDescriptor { node: t("src"), output: t("out") },
        to: InputDescriptor { node: t(to), input: t("in") },
        start: at(start),
        end: at(end),
    }
}

#[test]
fn sink_is_built_with_the_link_of_its_port() {
    let r = runner();
    assert_eq!(r.get_id(), "snk");
    assert_eq!(r.get_kind(), RunnerKind::Sink);
    assert_eq!(r.input_link(), Some(&41));
}

#[test]
fn sink_without_link_for_its_port_is_refused() {
    let r: Result<SinkRunner<u32>, ZFError> = SinkRunner::try_new(loaded(), io_with("other", 41));
    assert_eq!(
        r.err(),
        Some(ZFError::MissingOutput(t("Missing link for port < in > for Sink: < snk >.")))
    );
}

#[test]
fn sink_refuses_an_output() {
    let r = runner();
    assert_eq!(r.add_output(5u8), Err(ZFError::SinkDoesNotHaveOutputs));
}

#[test]
fn sink_reports_its_ports() {
    let r = runner();
    let inputs = r.get_inputs();
    assert_eq!(inputs.len(), 1);
    assert_eq!(inputs.get(&t("in")), Some(&t("int")));
    assert_eq!(r.get_outputs().len(), 0);
    assert_eq!(r.get_outputs_links::<u8>().len(), 0);
}

#[test]
fn sink_does_not_record() {
    let r = runner();
    assert_eq!(r.start_recording(), Err(ZFError::Unsupported));
    assert_eq!(r.stop_recording(), Err(ZFError::Unsupported));
    assert!(!r.is_recording());
}

#[test]
fn take_input_links_twice_gives_the_link_once() {
    let mut r = runner();
    let first = r.take_input_links();
    assert_eq!(first.len(), 1);
    assert_eq!(first.get(&t("in")), Some(&41));
    let second = r.take_input_links();
    assert_eq!(second.len(), 0);
    assert_eq!(r.input_link(), None);
}

#[test]
fn add_input_attaches_again() {
    let mut r = runner();
    let _ = r.take_input_links();
    assert_eq!(r.add_input(42), Ok(()));
    assert_eq!(r.input_link(), Some(&42));
    let links = r.take_input_links();
    assert_eq!(links.get(&t("in")), Some(&42));
}

#[test]
fn message_without_rules_keeps_its_misses() {
    let r = runner();
    let m = message(vec![], vec![]);
    assert_eq!(r.annotate(m.clone(), at(5_000)), m);
}

#[test]
fn rules_bound_to_other_nodes_give_no_miss() {
    let r = runner();
    let earlier = vec![miss("op", 10, 900)];
    let m = message(vec![rule("op", 0, 1), rule("other", 0, 1)], earlier);
    assert_eq!(r.annotate(m.clone(), at(5_000)), m);
}

#[test]
fn exceeded_rule_appends_one_miss() {
    let r = runner();
    let m = message(vec![rule("snk", 1_000, 100)], vec![]);
    let out = r.annotate(m.clone(), at(1_101));
    assert_eq!(out.missed_end_to_end_deadlines, vec![miss("snk", 1_000, 1_101)]);
    assert_eq!(out.data, m.data);
    assert_eq!(out.timestamp, m.timestamp);
    assert_eq!(out.end_to_end_deadlines, m.end_to_end_deadlines);
}

#[test]
fn rule_met_on_the_bound_gives_no_miss() {
    let r = runner();
    let m = message(vec![rule("snk", 1_000, 100)], vec![]);
    assert_eq!(r.annotate(m.clone(), at(1_100)), m);
    // An arrival stamped before the start has not exceeded anything.
    assert_eq!(r.annotate(m.clone(), at(10)), m);
}

#[test]
fn misses_are_appended_in_rule_order_after_earlier_ones() {
    let r = runner();
    let m = message(
        vec![rule("snk", 100, 10), rule("op", 0, 1), rule("snk", 200, 1_000), rule("snk", 300, 5)],
        vec![miss("op", 0, 50)],
    );
    let out = r.annotate(m, at(400));
    assert_eq!(
        out.missed_end_to_end_deadlines,
        vec![miss("op", 0, 50), miss("snk", 100, 400), miss("snk", 300, 400)]
    );
}

#[test]
fn deadline_check_is_made_by_the_bound_node_only() {
    let d = rule("snk", 1_000, 100);
    assert_eq!(d.check(&t("snk"), &at(1_101)), Some(miss("snk", 1_000, 1_101)));
    assert_eq!(d.check(&t("snk"), &at(1_100)), None);
    assert_eq!(d.check(&t("op"), &at(9_999)), None);
    let late = rule("snk", 0, u64::MAX);
    assert_eq!(late.check(&t("snk"), &at(u64::MAX)), None);
}

#[test]
fn run_loop_delivers_a_late_message() {
    let r = runner();
    let m = message(vec![rule("snk", 1_000, 100)], vec![]);
    let (phase, action) = r.step(SinkPhase::Idle, SinkEvent::Started);
    assert_eq!(action, SinkAction::Receive);
    let (phase, action) = r.step(phase, SinkEvent::Received(Message::Data(m.clone())));
    assert_eq!(action, SinkAction::ReadClock(at(1_000)));
    let (phase, action) = r.step(phase, SinkEvent::ClockRead(at(2_000)));
    let mut expected = m;
    expected.missed_end_to_end_deadlines.push(miss("snk", 1_000, 2_000));
    assert_eq!(action, SinkAction::Invoke(expected));
    assert_eq!(phase, SinkPhase::Invoking);
    let (phase, action) = r.step(phase, SinkEvent::Invoked);
    assert_eq!(phase, SinkPhase::Receiving);
    assert_eq!(action, SinkAction::Receive);
}

#[test]
fn run_loop_stops_on_a_control_message() {
    let r = runner();
    let (phase, action) = r.step(
        SinkPhase::Receiving,
        SinkEvent::Received(Message::Control(ControlMessage { signal: 1 })),
    );
    assert_eq!(phase, SinkPhase::Stopped);
    assert_eq!(action, SinkAction::Stop(ZFError::Unimplemented));
}

#[test]
fn run_loop_stops_on_failures() {
    let r = runner();
    assert_eq!(
        r.step(SinkPhase::Receiving, SinkEvent::ReceiveFailed(ZFError::RecvError(t("closed")))),
        (SinkPhase::Stopped, SinkAction::Stop(ZFError::RecvError(t("closed"))))
    );
    assert_eq!(
        r.step(SinkPhase::Invoking, SinkEvent::InvokeFailed(ZFError::GenericError)),
        (SinkPhase::Stopped, SinkAction::Stop(ZFError::GenericError))
    );
    assert_eq!(
        r.step(SinkPhase::Stopped, SinkEvent::Started),
        (SinkPhase::Stopped, SinkAction::Stop(ZFError::GenericError))
    );
    assert_eq!(
        r.step(SinkPhase::Idle, SinkEvent::ClockRead(at(1))),
        (SinkPhase::Stopped, SinkAction::Stop(ZFError::GenericError))
    );
}

#[test]
fn run_loop_stops_without_a_link() {
    let mut r = runner();
    let _ = r.take_input_links();
    assert_eq!(
        r.step(SinkPhase::Idle, SinkEvent::Started),
        (SinkPhase::Stopped, SinkAction::Stop(ZFError::Disconnected))
    );
    assert_eq!(
        r.step(SinkPhase::Invoking, SinkEvent::Invoked),
        (SinkPhase::Stopped, SinkAction::Stop(ZFError::Disconnected))
    );
}
