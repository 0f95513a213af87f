use bpmn_engine::definitions::{
    Collaboration, Definitions, EndEvent, EventBasedGateway, FlowElement, IntermediateCatchEvent,
    Message, ParallelGateway, Process, RootElement, SequenceFlow, StartEvent, Task,
};
use bpmn_engine::engine::BPMNEngine;
use bpmn_engine::error::Error;

fn s(x: &str) -> String {
    x.to_string()
}

fn start(id: &str, name: &str) -> FlowElement {
    FlowElement::StartEvent(StartEvent {
        id: Some(s(id)),
        name: Some(s(name)),
        incomings: vec![],
        outgoings: vec![],
    })
}

fn task(id: &str, name: &str) -> FlowElement {
    FlowElement::Task(Task { id: Some(s(id)), name: Some(s(name)), incomings: vec![], outgoings: vec![] })
}

fn end(id: &str, name: &str) -> FlowElement {
    FlowElement::EndEvent(EndEvent { id: Some(s(id)), name: Some(s(name)), incomings: vec![], outgoings: vec![] })
}

fn flow(id: &str, from: &str, to: &str) -> FlowElement {
    FlowElement::SequenceFlow(SequenceFlow {
        id: Some(s(id)),
        name: None,
        source_ref: s(from),
        target_ref: s(to),
    })
}

fn process(elems: Vec<FlowElement>) -> RootElement {
    RootElement::Process(Process { id: Some(s("P")), name: None, lane_sets: vec![], flow_elements: elems })
}

fn defs(roots: Vec<RootElement>) -> Definitions {
    Definitions { id: Some(s("D")), name: None, root_elements: roots }
}

fn ids(opts: &[&FlowElement]) -> Vec<String> {
    opts.iter().map(|e| e.get_id_name().0.unwrap()).collect()
}

fn linear() -> Definitions {
    defs(vec![process(vec![
        start("S", "begin"),
        task("T", "work"),
        end("E", "done"),
        flow("f1", "S", "T"),
        flow("f2", "T", "E"),
    ])])
}

#[test]
fn walk_start_task_end() {
    let mut engine = BPMNEngine::new(linear(), None).unwrap();
    assert_eq!(ids(&engine.options().unwrap()), vec![s("S")]);
    engine.next(s("S"));
    assert_eq!(ids(&engine.options().unwrap()), vec![s("T")]);
    engine.next(s("T"));
    assert_eq!(ids(&engine.options().unwrap()), vec![s("E")]);
    engine.next(s("E"));
    assert!(engine.options().unwrap().is_empty());
}

#[test]
fn fresh_options_are_all_start_events_whatever_their_place() {
    let d = defs(vec![process(vec![
        task("T", "work"),
        start("S1", "a"),
        flow("f1", "S1", "T"),
        end("E", "done"),
        start("S2", "b"),
    ])]);
    let engine = BPMNEngine::new(d, None).unwrap();
    assert_eq!(ids(&engine.options().unwrap()), vec![s("S1"), s("S2")]);
}

#[test]
fn options_follow_edge_insertion_order() {
    let d = defs(vec![process(vec![
        start("S", "s"),
        task("A", "a"),
        task("B", "b"),
        task("C", "c"),
        flow("f1", "S", "C"),
        flow("f2", "S", "A"),
        flow("f3", "S", "B"),
    ])]);
    let mut engine = BPMNEngine::new(d, None).unwrap();
    engine.next(s("S"));
    assert_eq!(ids(&engine.options().unwrap()), vec![s("C"), s("A"), s("B")]);
}

#[test]
fn advance_to_unknown_without_edges_gives_no_options() {
    let mut engine = BPMNEngine::new(linear(), None).unwrap();
    engine.next(s("nowhere"));
    assert!(engine.options().unwrap().is_empty());
}

#[test]
fn advance_to_unknown_with_dangling_edge_fails() {
    let d = defs(vec![process(vec![start("S", "s"), flow("f1", "ghost", "missing")])]);
    let mut engine = BPMNEngine::new(d, None).unwrap();
    engine.next(s("ghost"));
    match engine.options() {
        Err(Error::DanglingReference(t)) => assert_eq!(t, s("missing")),
        _ => panic!("expected a dangling reference"),
    }
}

#[test]
fn dangling_target_is_the_first_unresolved() {
    let d = defs(vec![process(vec![
        start("S", "s"),
        task("T", "t"),
        flow("f1", "S", "T"),
        flow("f2", "S", "X"),
        flow("f3", "S", "Y"),
    ])]);
    let mut engine = BPMNEngine::new(d, None).unwrap();
    engine.next(s("S"));
    match engine.options() {
        Err(Error::DanglingReference(t)) => assert_eq!(t, s("X")),
        _ => panic!("expected a dangling reference"),
    }
}

#[test]
fn node_without_identifier_fails_the_build() {
    let nameless = FlowElement::Task(Task { id: None, name: Some(s("t")), incomings: vec![], outgoings: vec![] });
    let d = defs(vec![process(vec![start("S", "s"), nameless])]);
    assert!(matches!(BPMNEngine::new(d, None), Err(Error::MissingIdentifier)));
}

#[test]
fn sequence_flow_without_identifier_is_accepted() {
    let f = FlowElement::SequenceFlow(SequenceFlow { id: None, name: None, source_ref: s("S"), target_ref: s("E") });
    let d = defs(vec![process(vec![start("S", "s"), end("E", "e"), f])]);
    let mut engine = BPMNEngine::new(d, None).unwrap();
    engine.next(s("S"));
    assert_eq!(ids(&engine.options().unwrap()), vec![s("E")]);
}

#[test]
fn processes_merge_and_other_roots_are_ignored() {
    let collab = RootElement::Collaboration(Collaboration {
        id: Some(s("C")),
        name: None,
        is_closed: Some(false),
        participants: vec![],
        message_flows: vec![],
    });
    let msg = RootElement::Message(Message { id: Some(s("M")), name: None });
    let d = defs(vec![
        collab,
        process(vec![start("S", "s"), flow("f1", "S", "T")]),
        msg,
        process(vec![task("T", "t")]),
    ]);
    let mut engine = BPMNEngine::new(d, None).unwrap();
    assert_eq!(ids(&engine.options().unwrap()), vec![s("S")]);
    engine.next(s("S"));
    assert_eq!(ids(&engine.options().unwrap()), vec![s("T")]);
}

#[test]
fn empty_document_has_no_options() {
    let engine = BPMNEngine::new(defs(vec![]), None).unwrap();
    assert!(engine.options().unwrap().is_empty());
}

#[test]
fn gateways_and_catch_events_are_vertices() {
    let g1 = FlowElement::EventBasedGateway(EventBasedGateway {
        id: Some(s("G1")),
        name: None,
        incomings: vec![s("f1")],
        outgoings: vec![s("f2"), s("f3")],
    });
    let g2 = FlowElement::ParallelGateway(ParallelGateway {
        id: Some(s("G2")),
        name: None,
        incomings: vec![],
        outgoings: vec![],
    });
    let c = FlowElement::IntermediateCatchEvent(IntermediateCatchEvent {
        id: Some(s("C")),
        name: Some(s("wait")),
        incomings: vec![],
        outgoings: vec![],
    });
    let d = defs(vec![process(vec![
        start("S", "s"),
        g1,
        g2,
        c,
        flow("f1", "S", "G1"),
        flow("f2", "G1", "C"),
        flow("f3", "G1", "G2"),
    ])]);
    let mut engine = BPMNEngine::new(d, None).unwrap();
    engine.next(s("S"));
    assert_eq!(ids(&engine.options().unwrap()), vec![s("G1")]);
    engine.next(s("G1"));
    assert_eq!(ids(&engine.options().unwrap()), vec![s("C"), s("G2")]);
}

#[test]
fn duplicate_identifier_keeps_last_payload() {
    let d = defs(vec![process(vec![start("S", "first"), start("S", "second")])]);
    let engine = BPMNEngine::new(d, None).unwrap();
    let opts = engine.options().unwrap();
    assert_eq!(opts.len(), 1);
    assert_eq!(opts[0].get_id_name().1, Some(s("second")));
}

#[test]
fn render_lists_vertices_and_neighbours() {
    let engine = BPMNEngine::new(linear(), None).unwrap();
    let expected = [
        "Start    Some(\"begin\")         NEIGHBORS:         Task     Some(\"work\")",
        "Task     Some(\"work\")         NEIGHBORS:         End      Some(\"done\")",
        "End      Some(\"done\")         NEIGHBORS:",
    ]
    .concat();
    assert_eq!(engine.render(), expected);
}

#[test]
fn render_marks_dangling_neighbours() {
    let d = defs(vec![process(vec![task("T", "t"), flow("f1", "T", "Z")])]);
    let engine = BPMNEngine::new(d, None).unwrap();
    assert_eq!(engine.render(), s("Task     Some(\"t\")         NEIGHBORS:         Not Implemented"));
}
