use bpmn_engine::definitions::{EndEvent, FlowElement, SequenceFlow, StartEvent, Task};
use bpmn_engine::graph::Graph;

fn s(x: &str) -> String {
    x.to_string()
}

#[test]
fn id_and_name_of_each_kind() {
    let t = FlowElement::Task(Task { id: Some(s("T")), name: Some(s("work")), incomings: vec![], outgoings: vec![] });
    assert_eq!(t.get_id_name(), (Some(s("T")), Some(s("work"))));
    let f = FlowElement::SequenceFlow(SequenceFlow { id: Some(s("f")), name: None, source_ref: s("a"), target_ref: s("b") });
    assert_eq!(f.get_id_name(), (Some(s("f")), None));
}

#[test]
fn labels() {
    let e = FlowElement::EndEvent(EndEvent { id: Some(s("E")), name: Some(s("done")), incomings: vec![], outgoings: vec![] });
    assert_eq!(e.label(), s("End      Some(\"done\")"));
    let st = FlowElement::StartEvent(StartEvent { id: Some(s("S")), name: None, incomings: vec![], outgoings: vec![] });
    assert_eq!(st.label(), s("Start    None"));
    let f = FlowElement::SequenceFlow(SequenceFlow { id: None, name: None, source_ref: s("a"), target_ref: s("b") });
    assert_eq!(f.label(), s("Flow     \"a\" -> \"b\""));
    let q = FlowElement::Task(Task { id: None, name: Some(s("say \"hi\"")), incomings: vec![], outgoings: vec![] });
    assert_eq!(q.label(), s("Task     Some(\"say \\\"hi\\\"\")"));
}

#[test]
fn equality_is_kind_and_identifier() {
    let a = FlowElement::Task(Task { id: Some(s("X")), name: Some(s("one")), incomings: vec![], outgoings: vec![] });
    let b = FlowElement::Task(Task { id: Some(s("X")), name: Some(s("two")), incomings: vec![s("i")], outgoings: vec![] });
    let c = FlowElement::EndEvent(EndEvent { id: Some(s("X")), name: Some(s("one")), incomings: vec![], outgoings: vec![] });
    let d = FlowElement::Task(Task { id: Some(s("Y")), name: Some(s("one")), incomings: vec![], outgoings: vec![] });
    assert!(a == b);
    assert!(a != c);
    assert!(a != d);
}

#[test]
fn graph_vertices_replace_in_place() {
    let mut g: Graph<u32, ()> = Graph::new();
    g.push_vertex(s("a"), 1);
    g.push_vertex(s("b"), 2);
    g.push_vertex(s("a"), 3);
    assert!(g.has_vertex(&s("a")));
    assert!(!g.has_vertex(&s("c")));
    assert_eq!(g.get_vertex(&s("a")), Some(&3));
    assert_eq!(g.get_vertex(&s("c")), None);
    let all: Vec<(String, u32)> = g.iter_vertices().into_iter().map(|(k, v)| (k.clone(), *v)).collect();
    assert_eq!(all, vec![(s("a"), 3), (s("b"), 2)]);
}

#[test]
fn graph_edges_in_insertion_order() {
    let mut g: Graph<u32, u8> = Graph::new();
    g.push_edge(s("a"), s("b"), 1);
    g.push_edge(s("x"), s("y"), 2);
    g.push_edge(s("a"), s("c"), 3);
    g.push_edge(s("a"), s("b"), 4);
    let adj: Vec<String> = g.adjacent(&s("a")).into_iter().cloned().collect();
    assert_eq!(adj, vec![s("b"), s("c"), s("b")]);
    assert!(g.adjacent(&s("b")).is_empty());
    assert_eq!(g.get_edge(s("a"), s("b")), Some(&1));
    assert_eq!(g.get_edge(s("a"), s("c")), Some(&3));
    assert_eq!(g.get_edge(s("b"), s("a")), None);
}

#[test]
fn tagged_name_wraps_the_given_debug_text() {
    let t = FlowElement::Task(Task { id: None, name: Some(s("x")), incomings: vec![], outgoings: vec![] });
    assert_eq!(t.tagged_name("<x>"), s("Task     Some(<x>)"));
    let e = FlowElement::EndEvent(EndEvent { id: None, name: None, incomings: vec![], outgoings: vec![] });
    assert_eq!(e.tagged_name("ignored"), s("End      None"));
}

#[test]
fn tagged_flow_joins_the_given_ends() {
    assert_eq!(FlowElement::tagged_flow("'a'", "'b'"), s("Flow     'a' -> 'b'"));
}
