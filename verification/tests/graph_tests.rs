use rust_agent::graph::{missing_node_message, GraphState, GraphStep, StateGraph};

fn step_name(s: &GraphStep) -> String {
    format!("{:?}", s)
}

fn graph() -> StateGraph {
    let mut g = StateGraph::new("plan".to_string());
    g.add_node("plan".to_string());
    g.add_node("act".to_string());
    g.add_node("report".to_string());
    g.add_edge("plan".to_string(), "act".to_string());
    g.add_conditional_edge("act".to_string());
    g.set_end("report".to_string());
    g
}

#[test]
fn run_starts_at_entry_point() {
    assert!(matches!(graph().start(), GraphStep::Execute(ref n) if n == "plan"));
    let empty = StateGraph::new("nowhere".to_string());
    assert!(matches!(empty.start(), GraphStep::Missing(ref n) if n == "nowhere"));
}

#[test]
fn edges_route_the_run() {
    let g = graph();
    assert!(matches!(g.after_node("plan"), GraphStep::Execute(ref n) if n == "act"));
    assert!(matches!(g.after_node("act"), GraphStep::Evaluate(ref n) if n == "act"));
    assert!(matches!(g.after_node("report"), GraphStep::Finish));
    assert!(matches!(g.after_node("unknown"), GraphStep::Finish));
    assert!(matches!(g.after_condition("report".to_string()), GraphStep::Execute(ref n) if n == "report"));
    assert!(matches!(g.after_condition("ghost".to_string()), GraphStep::Missing(ref n) if n == "ghost"));
}

#[test]
fn later_edge_replaces_earlier() {
    let mut g = graph();
    g.add_edge("act".to_string(), "report".to_string());
    assert!(matches!(g.after_node("act"), GraphStep::Execute(ref n) if n == "report"));
    g.set_end("plan".to_string());
    assert!(matches!(g.after_node("plan"), GraphStep::Finish), "{}", step_name(&g.after_node("plan")));
}

#[test]
fn missing_node_error_text() {
    assert_eq!(missing_node_message("x"), "Node not found: x");
}

#[test]
fn state_gives_back_what_was_set() {
    let mut s = GraphState::new();
    assert!(s.get("k").is_none());
    s.set("k".to_string(), serde_json::Value::from("v1"));
    s.set("n".to_string(), serde_json::Value::from(3));
    assert_eq!(s.get("k"), Some(&serde_json::Value::from("v1")));
    s.set("k".to_string(), serde_json::Value::from("v2"));
    assert_eq!(s.get_string("k"), Some("v2".to_string()));
    assert_eq!(s.get_string("n"), None);
    assert_eq!(s.get_string("missing"), None);
    assert!(GraphState::default().get("k").is_none());
}
