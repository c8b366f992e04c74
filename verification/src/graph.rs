//! Routing of a state graph: the node a run starts at, the node that runs
//! after each one, and where the run ends. What a node does to the state,
//! and which node a conditional edge names for a state, the caller works out
//! and hands back.

use vstd::prelude::*;
use crate::command::strs_equal;
use crate::json::{json_str, json_text};

verus! {

/// How a run goes on after a node.
#[derive(Debug)]
pub enum Edge {
    /// On to the named node.
    Direct(String),
    /// On to the node that the edge's condition names for the state.
    Conditional,
    /// The run ends.
    End,
}

/// The mathematical content of an edge.
pub enum EdgeView {
    Direct(Seq<char>),
    Conditional,
    End,
}

impl View for Edge {
    type V = EdgeView;

    open spec fn view(&self) -> EdgeView {
        match self {
            Edge::Direct(s) => EdgeView::Direct(s@),
            Edge::Conditional => EdgeView::Conditional,
            Edge::End => EdgeView::End,
        }
    }
}

/// What the caller does next in a run.
#[derive(Debug)]
pub enum GraphStep {
    /// Run the named node on the state.
    Execute(String),
    /// Evaluate, on the state, the condition of the edge from the named node.
    Evaluate(String),
    /// The run is over; the state is its result.
    Finish,
    /// The named node is not in the graph; the run fails.
    Missing(String),
}

/// The mathematical content of a step.
pub enum GraphStepView {
    Execute(Seq<char>),
    Evaluate(Seq<char>),
    Finish,
    Missing(Seq<char>),
}

impl View for GraphStep {
    type V = GraphStepView;

    open spec fn view(&self) -> GraphStepView {
        match self {
            GraphStep::Execute(s) => GraphStepView::Execute(s@),
            GraphStep::Evaluate(s) => GraphStepView::Evaluate(s@),
            GraphStep::Finish => GraphStepView::Finish,
            GraphStep::Missing(s) => GraphStepView::Missing(s@),
        }
    }
}

/// Values under keys, in the order they were set; a later value under a key
/// replaces an earlier one.
pub open spec fn keyed_map<T, U>(s: Seq<(String, T)>, f: spec_fn(T) -> U) -> Map<Seq<char>, U>
    decreases s.len(),
{
    if s.len() == 0 {
        Map::empty()
    } else {
        keyed_map(s.drop_last(), f).insert(s.last().0@, f(s.last().1))
    }
}

/// The edges added, in order; a later edge from a node replaces an earlier
/// one.
pub open spec fn edge_map(s: Seq<(String, Edge)>) -> Map<Seq<char>, EdgeView> {
    keyed_map(s, |e: Edge| e@)
}

/// A later entry under another key leaves what a key holds as it was.
pub proof fn lemma_keyed_map_suffix<T, U>(s: Seq<(String, T)>, f: spec_fn(T) -> U, j: int, k: Seq<char>)
    requires
        0 <= j <= s.len(),
        forall|t: int| j <= t < s.len() ==> s[t].0@ != k,
    ensures
        keyed_map(s, f).contains_key(k) == keyed_map(s.take(j), f).contains_key(k),
        keyed_map(s, f).contains_key(k) ==> keyed_map(s, f)[k] == keyed_map(s.take(j), f)[k],
    decreases s.len() - j,
{
    if j == s.len() {
        assert(s.take(j) =~= s);
    } else {
        let d = s.drop_last();
        assert(d.take(j) =~= s.take(j));
        lemma_keyed_map_suffix(d, f, j, k);
    }
}

/// The entry found by searching from the end for a key is what the key
/// holds; finding none, the key holds nothing.
pub proof fn lemma_keyed_map_found<T, U>(s: Seq<(String, T)>, f: spec_fn(T) -> U, j: int, k: Seq<char>)
    requires
        0 <= j <= s.len(),
        forall|t: int| j <= t < s.len() ==> s[t].0@ != k,
        j > 0 ==> s[j - 1].0@ == k,
    ensures
        j > 0 ==> keyed_map(s, f).contains_key(k) && keyed_map(s, f)[k] == f(s[j - 1].1),
        j == 0 ==> !keyed_map(s, f).contains_key(k),
{
    lemma_keyed_map_suffix(s, f, j, k);
    if j > 0 {
        let p = s.take(j);
        assert(p.drop_last() =~= s.take(j - 1));
        assert(p.last() == s[j - 1]);
    } else {
        assert(s.take(0) =~= Seq::<(String, T)>::empty());
    }
}

/// The nodes of a graph, its edges, and the node a run starts at.
#[derive(Debug)]
pub struct StateGraph {
    nodes: Vec<String>,
    edges: Vec<(String, Edge)>,
    entry_point: String,
}

/// The mathematical content of a state graph.
pub struct StateGraphView {
    pub nodes: Set<Seq<char>>,
    pub edges: Map<Seq<char>, EdgeView>,
    pub entry_point: Seq<char>,
}

/// The names of a list of nodes.
pub open spec fn name_set(s: Seq<String>) -> Set<Seq<char>> {
    s.map_values(|n: String| n@).to_set()
}

impl View for StateGraph {
    type V = StateGraphView;

    closed spec fn view(&self) -> StateGraphView {
        StateGraphView {
            nodes: name_set(self.nodes@),
            edges: edge_map(self.edges@),
            entry_point: self.entry_point@,
        }
    }
}

/// The step that goes on to the named node: run it, if the graph has it.
pub open spec fn step_to(g: StateGraphView, name: Seq<char>) -> GraphStepView {
    if g.nodes.contains(name) {
        GraphStepView::Execute(name)
    } else {
        GraphStepView::Missing(name)
    }
}

/// The step after the named node has run: follow its edge; with no edge
/// from it the run ends.
pub open spec fn step_after(g: StateGraphView, current: Seq<char>) -> GraphStepView {
    if g.edges.contains_key(current) {
        match g.edges[current] {
            EdgeView::Direct(next) => step_to(g, next),
            EdgeView::Conditional => GraphStepView::Evaluate(current),
            EdgeView::End => GraphStepView::Finish,
        }
    } else {
        GraphStepView::Finish
    }
}

/// A copy of a text.
fn copy_str(s: &str) -> (r: String)
    ensures
        r@ == s@,
{
    String::from_str(s)
}

/// A copy of a node name.
fn copy_string(s: &String) -> (r: String)
    ensures
        r@ == s@,
{
    String::from_str(s.as_str())
}

impl StateGraph {
    /// A graph with no nodes and no edges, whose runs start at `entry_point`.
    pub fn new(entry_point: String) -> (g: Self)
        ensures
            g@.nodes == Set::<Seq<char>>::empty(),
            g@.edges == Map::<Seq<char>, EdgeView>::empty(),
            g@.entry_point == entry_point@,
    {
        let g = StateGraph { nodes: Vec::new(), edges: Vec::new(), entry_point };
        proof {
            assert(g.nodes@.map_values(|n: String| n@) =~= Seq::<Seq<char>>::empty());
            assert(name_set(g.nodes@) =~= Set::<Seq<char>>::empty());
        }
        g
    }

    /// Whether the graph has a node of that name.
    fn has_node(&self, name: &str) -> (b: bool)
        ensures
            b == self@.nodes.contains(name@),
    {
        let ghost names = self.nodes@.map_values(|n: String| n@);
        let mut i: usize = 0;
        while i < self.nodes.len()
            invariant
                i <= self.nodes@.len(),
                names == self.nodes@.map_values(|n: String| n@),
                forall|t: int| 0 <= t < i ==> names[t] != name@,
            decreases self.nodes@.len() - i,
        {
            if strs_equal(self.nodes[i].as_str(), name) {
                assert(names[i as int] == name@);
                return true;
            }
            i = i + 1;
        }
        proof {
            if names.contains(name@) {
                let t = names.index_of(name@);
                assert(names[t] == name@);
            }
        }
        false
    }

    /// Adds a node under its name; a node of the same name is replaced.
    pub fn add_node(&mut self, name: String)
        ensures
            final(self)@ == (StateGraphView { nodes: old(self)@.nodes.insert(name@), ..old(self)@ }),
    {
        if self.has_node(name.as_str()) {
            assert(old(self)@.nodes.insert(name@) =~= old(self)@.nodes);
        } else {
            let ghost before = self.nodes@;
            self.nodes.push(name);
            proof {
                assert(self.nodes@.map_values(|n: String| n@) =~= before.map_values(
                    |n: String| n@,
                ).push(name@));
                before.map_values(|n: String| n@).lemma_push_to_set_commute(name@);
            }
        }
    }

    fn push_edge(&mut self, from: String, edge: Edge)
        ensures
            final(self)@ == (StateGraphView {
                edges: old(self)@.edges.insert(from@, edge@),
                ..old(self)@
            }),
    {
        let ghost before = self.edges@;
        self.edges.push((from, edge));
        assert(self.edges@.drop_last() =~= before);
    }

    /// Adds an edge from `from` on to `to`, replacing any edge from `from`.
    pub fn add_edge(&mut self, from: String, to: String)
        ensures
            final(self)@ == (StateGraphView {
                edges: old(self)@.edges.insert(from@, EdgeView::Direct(to@)),
                ..old(self)@
            }),
    {
        self.push_edge(from, Edge::Direct(to));
    }

    /// Adds an edge from `from` whose condition names the next node,
    /// replacing any edge from `from`.
    pub fn add_conditional_edge(&mut self, from: String)
        ensures
            final(self)@ == (StateGraphView {
                edges: old(self)@.edges.insert(from@, EdgeView::Conditional),
                ..old(self)@
            }),
    {
        self.push_edge(from, Edge::Conditional);
    }

    /// Makes a run end after `node`, replacing any edge from it.
    pub fn set_end(&mut self, node: String)
        ensures
            final(self)@ == (StateGraphView {
                edges: old(self)@.edges.insert(node@, EdgeView::End),
                ..old(self)@
            }),
    {
        self.push_edge(node, Edge::End);
    }

    /// The edge from the named node, if there is one.
    fn edge_from(&self, from: &str) -> (e: Option<&Edge>)
        ensures
            match e {
                Some(e) => self@.edges.contains_key(from@) && self@.edges[from@] == e@,
                None => !self@.edges.contains_key(from@),
            },
    {
        let mut j: usize = self.edges.len();
        while j > 0
            invariant
                j <= self.edges@.len(),
                forall|t: int| j <= t < self.edges@.len() ==> self.edges@[t].0@ != from@,
            decreases j,
        {
            if strs_equal(self.edges[j - 1].0.as_str(), from) {
                proof {
                    lemma_keyed_map_found(self.edges@, |e: Edge| e@, j as int, from@);
                }
                return Some(&self.edges[j - 1].1);
            }
            j = j - 1;
        }
        proof {
            lemma_keyed_map_found(self.edges@, |e: Edge| e@, 0, from@);
        }
        None
    }

    /// The step that goes on to the named node.
    fn step_to_node(&self, name: String) -> (s: GraphStep)
        ensures
            s@ == step_to(self@, name@),
    {
        if self.has_node(name.as_str()) {
            GraphStep::Execute(name)
        } else {
            GraphStep::Missing(name)
        }
    }

    /// The first step of a run: the entry point's node.
    pub fn start(&self) -> (s: GraphStep)
        ensures
            s@ == step_to(self@, self@.entry_point),
    {
        self.step_to_node(copy_string(&self.entry_point))
    }

    /// The step after the node `current` has run.
    pub fn after_node(&self, current: &str) -> (s: GraphStep)
        ensures
            s@ == step_after(self@, current@),
    {
        match self.edge_from(current) {
            Some(Edge::Direct(next)) => self.step_to_node(copy_string(next)),
            Some(Edge::Conditional) => GraphStep::Evaluate(copy_str(current)),
            Some(Edge::End) => GraphStep::Finish,
            None => GraphStep::Finish,
        }
    }

    /// The step after a conditional edge has named the node `next`.
    pub fn after_condition(&self, next: String) -> (s: GraphStep)
        ensures
            s@ == step_to(self@, next@),
    {
        self.step_to_node(next)
    }
}

/// The message of the error that ends a run at a missing node.
pub fn missing_node_message(name: &str) -> (s: String)
    ensures
        s@ == "Node not found: "@ + name@,
{
    let mut s = String::from_str("Node not found: ");
    s.append(name);
    s
}

/// The state passed through a run: JSON values under keys.
#[derive(Debug)]
pub struct GraphState {
    data: Vec<(String, serde_json::Value)>,
}

impl View for GraphState {
    type V = Map<Seq<char>, serde_json::Value>;

    closed spec fn view(&self) -> Map<Seq<char>, serde_json::Value> {
        keyed_map(self.data@, |v: serde_json::Value| v)
    }
}

impl GraphState {
    /// A state with no values.
    pub fn new() -> (g: Self)
        ensures
            g@ == Map::<Seq<char>, serde_json::Value>::empty(),
    {
        GraphState { data: Vec::new() }
    }

    /// Sets the value under `key`, replacing any earlier one.
    pub fn set(&mut self, key: String, value: serde_json::Value)
        ensures
            final(self)@ == old(self)@.insert(key@, value),
    {
        let ghost before = self.data@;
        self.data.push((key, value));
        assert(self.data@.drop_last() =~= before);
    }

    /// The value under `key`, if any.
    pub fn get(&self, key: &str) -> (r: Option<&serde_json::Value>)
        ensures
            match r {
                Some(v) => self@.contains_key(key@) && self@[key@] == *v,
                None => !self@.contains_key(key@),
            },
    {
        let mut j: usize = self.data.len();
        while j > 0
            invariant
                j <= self.data@.len(),
                forall|t: int| j <= t < self.data@.len() ==> self.data@[t].0@ != key@,
            decreases j,
        {
            if strs_equal(self.data[j - 1].0.as_str(), key) {
                proof {
                    lemma_keyed_map_found(self.data@, |v: serde_json::Value| v, j as int, key@);
                }
                return Some(&self.data[j - 1].1);
            }
            j = j - 1;
        }
        proof {
            lemma_keyed_map_found(self.data@, |v: serde_json::Value| v, 0, key@);
        }
        None
    }

    /// The text of the JSON string under `key`; `None` where the key holds
    /// nothing or holds another kind of value.
    pub fn get_string(&self, key: &str) -> (r: Option<String>)
        ensures
            match r {
                Some(t) => self@.contains_key(key@) && self@[key@] == json_str(t@) && forall|s: Seq<char>|
                    self@[key@] == json_str(s) ==> s == t@,
                None => !self@.contains_key(key@) || forall|s: Seq<char>| self@[key@] != json_str(s),
            },
    {
        match self.get(key) {
            Some(v) => json_text(v),
            None => None,
        }
    }
}

impl Default for GraphState {
    fn default() -> (g: Self)
        ensures
            g@ == Map::<Seq<char>, serde_json::Value>::empty(),
    {
        GraphState::new()
    }
}

} // verus!
