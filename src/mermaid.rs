//! The dependency graph of a document's workflows, and its rendering as
//! flowchart text.

use vstd::prelude::*;
use vstd::string::*;
use crate::cst::{
    filter_map_nodes, find_node_of, first_node_of, first_token_text,
    is_decl_kind, is_node_of, lemma_skip_next, lemma_take_next, Kind, SyntaxElement, SyntaxNode,
};
use crate::parse::{parse_document, parses_to};
use crate::semantic::{find_identifier_name, ident_in_child};

verus! {

/// What a graph node stands for; it decides the node's shape and style.
#[derive(PartialEq, Eq, Structural, Clone, Copy, Debug)]
pub enum NodeType {
    Task,
    Input,
    Output,
    Conditional,
    Scatter,
    Workflow,
    Call,
}

pub struct Node {
    pub id: String,
    pub label: String,
    pub node_type: NodeType,
}

/// An edge between two node ids; the ids need not name nodes of the graph.
pub struct Edge {
    pub from: String,
    pub to: String,
    pub label: Option<String>,
}

pub struct NodeView {
    pub id: Seq<char>,
    pub label: Seq<char>,
    pub node_type: NodeType,
}

pub struct EdgeView {
    pub from: Seq<char>,
    pub to: Seq<char>,
    pub label: Option<Seq<char>>,
}

pub struct GraphView {
    pub nodes: Seq<NodeView>,
    pub edges: Seq<EdgeView>,
}

impl View for Node {
    type V = NodeView;

    open spec fn view(&self) -> NodeView {
        NodeView { id: self.id@, label: self.label@, node_type: self.node_type }
    }
}

impl View for Edge {
    type V = EdgeView;

    open spec fn view(&self) -> EdgeView {
        EdgeView { from: self.from@, to: self.to@, label: self.label.deep_view() }
    }
}

impl GraphView {
    pub open spec fn empty() -> GraphView {
        GraphView { nodes: Seq::empty(), edges: Seq::empty() }
    }

    pub open spec fn has_id(self, id: Seq<char>) -> bool {
        exists|i: int| 0 <= i < self.nodes.len() && self.nodes[i].id == id
    }

    /// No two nodes share an id.
    pub open spec fn ids_unique(self) -> bool {
        forall|i: int, j: int|
            0 <= i < j < self.nodes.len() ==> self.nodes[i].id != self.nodes[j].id
    }

    /// The graph with `n` added, unless a node with its id is already there.
    pub open spec fn insert_node(self, n: NodeView) -> GraphView {
        if self.has_id(n.id) {
            self
        } else {
            GraphView { nodes: self.nodes.push(n), ..self }
        }
    }

    pub open spec fn push_edge(self, e: EdgeView) -> GraphView {
        GraphView { edges: self.edges.push(e), ..self }
    }
}

/// A graph of workflow elements: nodes in order of first insertion, with
/// unique ids, and edges in order of insertion.
pub struct WorkflowGraph {
    nodes: Vec<Node>,
    edges: Vec<Edge>,
}

impl View for WorkflowGraph {
    type V = GraphView;

    closed spec fn view(&self) -> GraphView {
        GraphView {
            nodes: self.nodes@.map_values(|n: Node| n@),
            edges: self.edges@.map_values(|e: Edge| e@),
        }
    }
}

impl WorkflowGraph {
    pub closed spec fn wf(&self) -> bool {
        self@.ids_unique()
    }

    pub fn new() -> (r: WorkflowGraph)
        ensures
            r@ == GraphView::empty(),
            r.wf(),
    {
        let r = WorkflowGraph { nodes: Vec::new(), edges: Vec::new() };
        proof {
            assert(r@.nodes =~= Seq::<NodeView>::empty());
            assert(r@.edges =~= Seq::<EdgeView>::empty());
        }
        r
    }

    /// Adds a node, unless one with the same id is already there: the first
    /// node inserted under an id is the one kept.
    pub fn add_node(&mut self, id: String, label: String, node_type: NodeType)
        requires
            old(self).wf(),
        ensures
            final(self).wf(),
            final(self)@ == old(self)@.insert_node(NodeView { id: id@, label: label@, node_type }),
    {
        let mut i: usize = 0;
        while i < self.nodes.len()
            invariant
                i <= self.nodes@.len(),
                self.wf(),
                forall|j: int| 0 <= j < i ==> self.nodes@[j].id@ != id@,
            decreases self.nodes@.len() - i,
        {
            if self.nodes[i].id == id {
                proof {
                    assert(self@.nodes[i as int].id == id@);
                }
                return;
            }
            i = i + 1;
        }
        let ghost old_view = self@;
        proof {
            assert(!old_view.has_id(id@));
        }
        self.nodes.push(Node { id, label, node_type });
        proof {
            assert(self@.nodes =~= old_view.nodes.push(NodeView { id: id@, label: label@, node_type }));
            assert(self@.edges =~= old_view.edges);
        }
    }

    pub fn add_edge(&mut self, from: String, to: String, label: Option<String>)
        ensures
            final(self).wf() == old(self).wf(),
            final(self)@ == old(self)@.push_edge(EdgeView { from: from@, to: to@, label: label.deep_view() }),
    {
        let ghost old_view = self@;
        let e = Edge { from, to, label };
        proof {
            assert(old_view.edges.push(e@) =~= self.edges@.push(e).map_values(|x: Edge| x@));
        }
        self.edges.push(e);
        proof {
            assert(self@.nodes =~= old_view.nodes);
        }
    }

    /// The nodes, in order of first insertion.
    pub fn nodes(&self) -> (r: &Vec<Node>)
        ensures
            r@.map_values(|n: Node| n@) == self@.nodes,
    {
        &self.nodes
    }

    /// The edges, in order of insertion.
    pub fn edges(&self) -> (r: &Vec<Edge>)
        ensures
            r@.map_values(|e: Edge| e@) == self@.edges,
    {
        &self.edges
    }
}

pub open spec fn digit_char(d: nat) -> char {
    if d == 0 { '0' }
    else if d == 1 { '1' }
    else if d == 2 { '2' }
    else if d == 3 { '3' }
    else if d == 4 { '4' }
    else if d == 5 { '5' }
    else if d == 6 { '6' }
    else if d == 7 { '7' }
    else if d == 8 { '8' }
    else { '9' }
}

/// The decimal digits of `n`, most significant first.
pub open spec fn decimal(n: nat) -> Seq<char>
    decreases n,
{
    if n < 10 {
        seq![digit_char(n)]
    } else {
        decimal(n / 10).push(digit_char(n % 10))
    }
}

fn digit_str(d: u64) -> (r: &'static str)
    requires
        d < 10,
    ensures
        r@ == seq![digit_char(d as nat)],
{
    proof {
        reveal_strlit("0");
        reveal_strlit("1");
        reveal_strlit("2");
        reveal_strlit("3");
        reveal_strlit("4");
        reveal_strlit("5");
        reveal_strlit("6");
        reveal_strlit("7");
        reveal_strlit("8");
        reveal_strlit("9");
    }
    if d == 0 { "0" }
    else if d == 1 { "1" }
    else if d == 2 { "2" }
    else if d == 3 { "3" }
    else if d == 4 { "4" }
    else if d == 5 { "5" }
    else if d == 6 { "6" }
    else if d == 7 { "7" }
    else if d == 8 { "8" }
    else { "9" }
}

/// Appends the decimal digits of `n` to `s`.
pub fn push_decimal(s: &mut String, n: u64)
    ensures
        final(s)@ == old(s)@ + decimal(n as nat),
    decreases n,
{
    if n >= 10 {
        push_decimal(s, n / 10);
    }
    s.append(digit_str(n % 10));
    proof {
        if n >= 10 {
            assert(old(s)@ + decimal(n as nat) =~= old(s)@ + decimal((n / 10) as nat) + seq![
                digit_char((n % 10) as nat),
            ]);
        }
    }
}

/// The opening bracket, closing bracket and style suffix of a node's shape.
pub open spec fn shape_of(t: NodeType) -> (Seq<char>, Seq<char>, Seq<char>) {
    match t {
        NodeType::Task => ("["@, "]"@, ":::taskStyle"@),
        NodeType::Call => ("["@, "]"@, ":::callStyle"@),
        NodeType::Input => ("(("@, "))"@, ":::inputStyle"@),
        NodeType::Output => ("(("@, "))"@, ":::outputStyle"@),
        NodeType::Conditional => ("{/"@, "/}"@, ":::conditionalStyle"@),
        NodeType::Scatter => ("[/"@, "\\]"@, ":::scatterStyle"@),
        NodeType::Workflow => ("(["@, "])"@, ":::workflowStyle"@),
    }
}

pub open spec fn node_line(n: NodeView) -> Seq<char> {
    let (open, close, style) = shape_of(n.node_type);
    "    "@ + n.id + open + n.label + close + style + "\n"@
}

pub open spec fn edge_line(e: EdgeView) -> Seq<char> {
    match e.label {
        Some(l) => "    "@ + e.from + " ---|"@ + l + "| "@ + e.to + "\n"@,
        None => "    "@ + e.from + " --> "@ + e.to + "\n"@,
    }
}

pub open spec fn node_lines(s: Seq<NodeView>) -> Seq<char>
    decreases s.len(),
{
    if s.len() == 0 {
        Seq::empty()
    } else {
        node_lines(s.drop_last()) + node_line(s.last())
    }
}

pub open spec fn edge_lines(s: Seq<EdgeView>) -> Seq<char>
    decreases s.len(),
{
    if s.len() == 0 {
        Seq::empty()
    } else {
        edge_lines(s.drop_last()) + edge_line(s.last())
    }
}

/// The style declarations that end every diagram, one per node type.
pub open spec fn style_block() -> Seq<char> {
    "\n"@
        + "    classDef taskStyle fill:#e1f5fe,stroke:#01579b,stroke-width:2px\n"@
        + "    classDef callStyle fill:#f3e5f5,stroke:#4a148c,stroke-width:2px\n"@
        + "    classDef inputStyle fill:#e8f5e8,stroke:#2e7d32,stroke-width:2px\n"@
        + "    classDef outputStyle fill:#fff3e0,stroke:#ef6c00,stroke-width:2px\n"@
        + "    classDef conditionalStyle fill:#fff8e1,stroke:#f57f17,stroke-width:2px\n"@
        + "    classDef scatterStyle fill:#fce4ec,stroke:#c2185b,stroke-width:2px\n"@
        + "    classDef workflowStyle fill:#f1f8e9,stroke:#33691e,stroke-width:3px\n"@
}

/// The diagram: a header, one line per node, one line per edge, the styles.
pub open spec fn render(g: GraphView) -> Seq<char> {
    "flowchart TD\n"@ + node_lines(g.nodes) + edge_lines(g.edges) + style_block()
}

fn shape(t: NodeType) -> (r: (&'static str, &'static str, &'static str))
    ensures
        (r.0@, r.1@, r.2@) == shape_of(t),
{
    match t {
        NodeType::Task => ("[", "]", ":::taskStyle"),
        NodeType::Call => ("[", "]", ":::callStyle"),
        NodeType::Input => ("((", "))", ":::inputStyle"),
        NodeType::Output => ("((", "))", ":::outputStyle"),
        NodeType::Conditional => ("{/", "/}", ":::conditionalStyle"),
        NodeType::Scatter => ("[/", "\\]", ":::scatterStyle"),
        NodeType::Workflow => ("([", "])", ":::workflowStyle"),
    }
}

/// Renders the graph as flowchart text.
pub fn generate_mermaid(graph: &WorkflowGraph) -> (r: String)
    ensures
        r@ == render(graph@),
{
    let mut out = "flowchart TD\n".to_owned();
    let nodes = graph.nodes();
    let mut i: usize = 0;
    while i < nodes.len()
        invariant
            i <= nodes@.len(),
            nodes@.map_values(|n: Node| n@) == graph@.nodes,
            out@ == "flowchart TD\n"@ + node_lines(graph@.nodes.take(i as int)),
        decreases nodes@.len() - i,
    {
        let n = &nodes[i];
        let (open, close, style) = shape(n.node_type);
        proof {
            assert(graph@.nodes.take(i + 1).drop_last() =~= graph@.nodes.take(i as int));
            assert(graph@.nodes[i as int] == n@);
        }
        out.append("    ");
        out.append(n.id.as_str());
        out.append(open);
        out.append(n.label.as_str());
        out.append(close);
        out.append(style);
        out.append("\n");
        proof {
            assert(out@ =~= "flowchart TD\n"@ + node_lines(graph@.nodes.take(i + 1)));
        }
        i = i + 1;
    }
    proof {
        assert(graph@.nodes.take(nodes@.len() as int) =~= graph@.nodes);
    }
    let ghost head = out@;
    let edges = graph.edges();
    let mut j: usize = 0;
    while j < edges.len()
        invariant
            j <= edges@.len(),
            edges@.map_values(|e: Edge| e@) == graph@.edges,
            out@ == head + edge_lines(graph@.edges.take(j as int)),
        decreases edges@.len() - j,
    {
        let e = &edges[j];
        proof {
            assert(graph@.edges.take(j + 1).drop_last() =~= graph@.edges.take(j as int));
            assert(graph@.edges[j as int] == e@);
        }
        match &e.label {
            Some(l) => {
                out.append("    ");
                out.append(e.from.as_str());
                out.append(" ---|");
                out.append(l.as_str());
                out.append("| ");
                out.append(e.to.as_str());
                out.append("\n");
            },
            None => {
                out.append("    ");
                out.append(e.from.as_str());
                out.append(" --> ");
                out.append(e.to.as_str());
                out.append("\n");
            },
        }
        proof {
            assert(out@ =~= head + edge_lines(graph@.edges.take(j + 1)));
        }
        j = j + 1;
    }
    proof {
        assert(graph@.edges.take(edges@.len() as int) =~= graph@.edges);
    }
    out.append("\n");
    out.append("    classDef taskStyle fill:#e1f5fe,stroke:#01579b,stroke-width:2px\n");
    out.append("    classDef callStyle fill:#f3e5f5,stroke:#4a148c,stroke-width:2px\n");
    out.append("    classDef inputStyle fill:#e8f5e8,stroke:#2e7d32,stroke-width:2px\n");
    out.append("    classDef outputStyle fill:#fff3e0,stroke:#ef6c00,stroke-width:2px\n");
    out.append("    classDef conditionalStyle fill:#fff8e1,stroke:#f57f17,stroke-width:2px\n");
    out.append("    classDef scatterStyle fill:#fce4ec,stroke:#c2185b,stroke-width:2px\n");
    out.append("    classDef workflowStyle fill:#f1f8e9,stroke:#33691e,stroke-width:3px\n");
    proof {
        assert(out@ =~= render(graph@));
    }
    out
}

/// The dependency map: call ids, in order of first record, each with the ids
/// of the calls it depends on.
pub type DepsView = Seq<(Seq<char>, Seq<Seq<char>>)>;

/// The state of a graph build: the graph so far, the dependencies recorded
/// so far, and the numbers of conditionals and scatters seen so far.
pub struct BuildView {
    pub graph: GraphView,
    pub deps: DepsView,
    pub conditionals: u64,
    pub scatters: u64,
}

pub open spec fn initial_build() -> BuildView {
    BuildView { graph: GraphView::empty(), deps: Seq::empty(), conditionals: 0, scatters: 0 }
}

/// The next sequence number of a build; it stays at the largest `u64`,
/// which no document comes near.
pub open spec fn next_count(c: u64) -> u64 {
    if c < u64::MAX {
        (c + 1) as u64
    } else {
        c
    }
}

/// No call id has two entries.
pub open spec fn keys_unique(d: DepsView) -> bool {
    forall|i: int, j: int| 0 <= i < j < d.len() ==> d[i].0 != d[j].0
}

/// `d` with the entry of `k` set to `v`; a new key goes at the end.
pub open spec fn record_deps(d: DepsView, k: Seq<char>, v: Seq<Seq<char>>) -> DepsView {
    if exists|i: int| 0 <= i < d.len() && d[i].0 == k {
        d.map_values(
            |e: (Seq<char>, Seq<Seq<char>>)|
                if e.0 == k {
                    (k, v)
                } else {
                    e
                },
        )
    } else {
        d.push((k, v))
    }
}

pub open spec fn call_node_id(name: Seq<char>) -> Seq<char> {
    "call_"@ + name
}

pub open spec fn workflow_node_id(name: Seq<char>) -> Seq<char> {
    "workflow_"@ + name
}

/// The names of the input declarations among `s`.
pub open spec fn input_decl_names(s: Seq<SyntaxElement>) -> Seq<Seq<char>> {
    filter_map_nodes(
        s,
        |n: SyntaxNode|
            if is_decl_kind(n.kind) {
                first_token_text(n.children@, Kind::Ident)
            } else {
                None
            },
    )
}

/// The names of the output declarations among `s`.
pub open spec fn output_decl_names(s: Seq<SyntaxElement>) -> Seq<Seq<char>> {
    filter_map_nodes(
        s,
        |n: SyntaxNode|
            if n.kind == Kind::BoundDeclNode {
                first_token_text(n.children@, Kind::Ident)
            } else {
                None
            },
    )
}

/// Input nodes `<parent>_input_<k>` for the k-th name, each with an edge to the parent.
pub open spec fn add_inputs(g: GraphView, parent: Seq<char>, names: Seq<Seq<char>>) -> GraphView
    decreases names.len(),
{
    if names.len() == 0 {
        g
    } else {
        let id = parent + "_input_"@ + decimal(names.len());
        add_inputs(g, parent, names.drop_last()).insert_node(
            NodeView { id, label: "Input: "@ + names.last(), node_type: NodeType::Input },
        ).push_edge(EdgeView { from: id, to: parent, label: None })
    }
}

/// Output nodes `<parent>_output_<k>` for the k-th name, each with an edge from the parent.
pub open spec fn add_outputs(g: GraphView, parent: Seq<char>, names: Seq<Seq<char>>) -> GraphView
    decreases names.len(),
{
    if names.len() == 0 {
        g
    } else {
        let id = parent + "_output_"@ + decimal(names.len());
        add_outputs(g, parent, names.drop_last()).insert_node(
            NodeView { id, label: "Output: "@ + names.last(), node_type: NodeType::Output },
        ).push_edge(EdgeView { from: parent, to: id, label: None })
    }
}

/// The name a call is shown under: its alias, else its non-empty target.
pub open spec fn call_display_name(n: SyntaxNode) -> Option<Seq<char>> {
    match ident_in_child(n.children@, Kind::CallTargetNode) {
        Some(t) => if t.len() > 0 {
            match ident_in_child(n.children@, Kind::CallAliasNode) {
                Some(a) => Some(a),
                None => Some(t),
            }
        } else {
            None
        },
        None => None,
    }
}

/// The first identifier token anywhere inside `n`, in pre-order.
pub open spec fn first_ident_in(n: SyntaxNode) -> Option<Seq<char>>
    decreases n,
{
    first_ident_in_children(n.children@)
}

pub open spec fn first_ident_in_children(s: Seq<SyntaxElement>) -> Option<Seq<char>>
    decreases s,
{
    if s.len() == 0 {
        None
    } else {
        match s[0] {
            SyntaxElement::Token(t) => if t.kind == Kind::Ident {
                Some(t.text@)
            } else {
                first_ident_in_children(s.drop_first())
            },
            SyntaxElement::Node(m) => match first_ident_in(m) {
                Some(x) => Some(x),
                None => first_ident_in_children(s.drop_first()),
            },
        }
    }
}

/// Records the call that a member access names (its first identifier), unless
/// already recorded.
pub open spec fn access_visit(n: SyntaxNode, acc: Seq<Seq<char>>) -> Seq<Seq<char>> {
    if n.kind == Kind::AccessExprNode {
        match first_ident_in(n) {
            Some(x) => if acc.contains(call_node_id(x)) {
                acc
            } else {
                acc.push(call_node_id(x))
            },
            None => acc,
        }
    } else {
        acc
    }
}

/// The calls named by the member accesses in `n`, in pre-order, after `acc`.
pub open spec fn access_deps(n: SyntaxNode, acc: Seq<Seq<char>>) -> Seq<Seq<char>>
    decreases n,
{
    access_deps_children(n.children@, access_visit(n, acc))
}

pub open spec fn access_deps_children(s: Seq<SyntaxElement>, acc: Seq<Seq<char>>) -> Seq<
    Seq<char>,
>
    decreases s,
{
    if s.len() == 0 {
        acc
    } else {
        let next = match s[0] {
            SyntaxElement::Node(m) => access_deps(m, acc),
            SyntaxElement::Token(_) => acc,
        };
        access_deps_children(s.drop_first(), next)
    }
}

/// The upstream call ids named in the input items among `s`, after `acc`.
pub open spec fn items_deps(s: Seq<SyntaxElement>, acc: Seq<Seq<char>>) -> Seq<Seq<char>>
    decreases s.len(),
{
    if s.len() == 0 {
        acc
    } else {
        let next = if is_node_of(s[0], Kind::CallInputItemNode) {
            access_deps(s[0]->Node_0, acc)
        } else {
            acc
        };
        items_deps(s.drop_first(), next)
    }
}

/// The upstream call ids of a call, without repeats, in order of mention.
pub open spec fn call_deps(n: SyntaxNode) -> Seq<Seq<char>> {
    items_deps(n.children@, Seq::empty())
}

/// A call node, its edge from the enclosing workflow, and its dependencies.
pub open spec fn process_call(n: SyntaxNode, ctx: Option<Seq<char>>, st: BuildView) -> BuildView {
    match call_display_name(n) {
        Some(name) => {
            let id = call_node_id(name);
            let g1 = st.graph.insert_node(
                NodeView { id, label: "call "@ + name, node_type: NodeType::Call },
            );
            let g2 = match ctx {
                Some(w) => g1.push_edge(EdgeView { from: w, to: id, label: None }),
                None => g1,
            };
            let deps = call_deps(n);
            BuildView {
                graph: g2,
                deps: if deps.len() > 0 {
                    record_deps(st.deps, id, deps)
                } else {
                    st.deps
                },
                ..st
            }
        },
        None => st,
    }
}

/// The direct call children of a block, each with an edge from the block.
pub open spec fn block_calls(
    s: Seq<SyntaxElement>,
    block: Seq<char>,
    ctx: Option<Seq<char>>,
    st: BuildView,
) -> BuildView
    decreases s.len(),
{
    if s.len() == 0 {
        st
    } else {
        let st1 = block_calls(s.drop_last(), block, ctx, st);
        if is_node_of(s.last(), Kind::CallStatementNode) {
            let c = s.last()->Node_0;
            let st2 = process_call(c, ctx, st1);
            match call_display_name(c) {
                Some(name) => BuildView {
                    graph: st2.graph.push_edge(
                        EdgeView { from: block, to: call_node_id(name), label: None },
                    ),
                    ..st2
                },
                None => st2,
            }
        } else {
            st1
        }
    }
}

/// A block node (conditional or scatter) with its edge from the enclosing
/// workflow, then its direct calls.
pub open spec fn process_block(
    n: SyntaxNode,
    ctx: Option<Seq<char>>,
    st: BuildView,
    id: Seq<char>,
    label: Seq<char>,
    t: NodeType,
) -> BuildView {
    let g1 = st.graph.insert_node(NodeView { id, label, node_type: t });
    let g2 = match ctx {
        Some(w) => g1.push_edge(EdgeView { from: w, to: id, label: None }),
        None => g1,
    };
    block_calls(n.children@, id, ctx, BuildView { graph: g2, ..st })
}

pub open spec fn process_conditional(n: SyntaxNode, ctx: Option<Seq<char>>, st: BuildView) -> BuildView {
    let c = next_count(st.conditionals);
    process_block(
        n,
        ctx,
        BuildView { conditionals: c, ..st },
        "conditional_"@ + decimal(c as nat),
        "if condition"@,
        NodeType::Conditional,
    )
}

/// A scatter is labelled by its first identifier token, or `item`.
pub open spec fn scatter_label(n: SyntaxNode) -> Seq<char> {
    "scatter "@ + match first_token_text(n.children@, Kind::Ident) {
        Some(v) => v,
        None => "item"@,
    }
}

pub open spec fn process_scatter(n: SyntaxNode, ctx: Option<Seq<char>>, st: BuildView) -> BuildView {
    let c = next_count(st.scatters);
    process_block(
        n,
        ctx,
        BuildView { scatters: c, ..st },
        "scatter_"@ + decimal(c as nat),
        scatter_label(n),
        NodeType::Scatter,
    )
}

/// What a node other than a named workflow adds before its children are walked.
pub open spec fn dispatch(n: SyntaxNode, ctx: Option<Seq<char>>, st: BuildView) -> BuildView {
    if n.kind == Kind::TaskDefinitionNode {
        match first_token_text(n.children@, Kind::Ident) {
            Some(name) => BuildView {
                graph: st.graph.insert_node(
                    NodeView { id: "task_"@ + name, label: name, node_type: NodeType::Task },
                ),
                ..st
            },
            None => st,
        }
    } else if n.kind == Kind::CallStatementNode {
        process_call(n, ctx, st)
    } else if n.kind == Kind::ConditionalStatementNode {
        process_conditional(n, ctx, st)
    } else if n.kind == Kind::ScatterStatementNode {
        process_scatter(n, ctx, st)
    } else {
        st
    }
}

/// A workflow's node, then its first input and first output sections.
pub open spec fn workflow_header(n: SyntaxNode, name: Seq<char>, st: BuildView) -> BuildView {
    let id = workflow_node_id(name);
    let g1 = st.graph.insert_node(NodeView { id, label: name, node_type: NodeType::Workflow });
    let g2 = match first_node_of(n.children@, Kind::InputSectionNode) {
        Some(sec) => add_inputs(g1, id, input_decl_names(sec.children@)),
        None => g1,
    };
    let g3 = match first_node_of(n.children@, Kind::OutputSectionNode) {
        Some(sec) => add_outputs(g2, id, output_decl_names(sec.children@)),
        None => g2,
    };
    BuildView { graph: g3, ..st }
}

/// The build state after a pre-order walk of `n` inside the workflow `ctx`.
/// A named workflow becomes the context of its children.
pub open spec fn walk(n: SyntaxNode, ctx: Option<Seq<char>>, st: BuildView) -> BuildView
    decreases n,
{
    if n.kind == Kind::WorkflowDefinitionNode && first_token_text(n.children@, Kind::Ident) is Some {
        let name = first_token_text(n.children@, Kind::Ident)->Some_0;
        walk_children(n.children@, Some(workflow_node_id(name)), workflow_header(n, name, st))
    } else {
        walk_children(n.children@, ctx, dispatch(n, ctx, st))
    }
}

pub open spec fn walk_children(s: Seq<SyntaxElement>, ctx: Option<Seq<char>>, st: BuildView) -> BuildView
    decreases s,
{
    if s.len() == 0 {
        st
    } else {
        let next = match s[0] {
            SyntaxElement::Node(m) => walk(m, ctx, st),
            SyntaxElement::Token(_) => st,
        };
        walk_children(s.drop_first(), ctx, next)
    }
}

/// One `depends on` edge from each recorded upstream id to its call, in map order.
pub open spec fn dep_edges(d: DepsView) -> Seq<EdgeView>
    decreases d.len(),
{
    if d.len() == 0 {
        Seq::empty()
    } else {
        dep_edges(d.drop_last()) + d.last().1.map_values(
            |dep: Seq<char>| EdgeView { from: dep, to: d.last().0, label: Some("depends on"@) },
        )
    }
}

/// The graph of the tree rooted at `n`: the walk's graph, then the
/// dependency edges.
pub open spec fn graph_of(n: SyntaxNode) -> GraphView {
    let st = walk(n, None, initial_build());
    GraphView { edges: st.graph.edges + dep_edges(st.deps), ..st.graph }
}

fn concat_str(a: &str, b: &str) -> (r: String)
    ensures
        r@ == a@ + b@,
{
    let mut r = a.to_owned();
    r.append(b);
    r
}

/// Whether `x` is among `v`.
fn contains_string(v: &Vec<String>, x: &String) -> (r: bool)
    ensures
        r == v.deep_view().contains(x@),
{
    let mut i: usize = 0;
    while i < v.len()
        invariant
            i <= v@.len(),
            forall|j: int| 0 <= j < i ==> v.deep_view()[j] != x@,
        decreases v@.len() - i,
    {
        if v[i] == *x {
            proof {
                assert(v.deep_view()[i as int] == x@);
            }
            return true;
        }
        i = i + 1;
    }
    false
}

/// The graph's input nodes for the declarations among `section`'s children.
fn process_input_section(section: &SyntaxNode, graph: &mut WorkflowGraph, parent: &String)
    requires
        old(graph).wf(),
    ensures
        final(graph).wf(),
        final(graph)@ == add_inputs(old(graph)@, parent@, input_decl_names(section.children@)),
{
    let s = &section.children;
    let mut count: usize = 0;
    let mut i: usize = 0;
    while i < s.len()
        invariant
            i <= s@.len(),
            count <= i,
            count == input_decl_names(s@.take(i as int)).len(),
            graph.wf(),
            graph@ == add_inputs(old(graph)@, parent@, input_decl_names(s@.take(i as int))),
        decreases s@.len() - i,
    {
        proof {
            lemma_take_next(s@, i as int);
        }
        match &s[i] {
            SyntaxElement::Node(n) => {
                if n.kind.is_decl() {
                    match find_identifier_name(n) {
                        Some(name) => {
                            proof {
                                let names = input_decl_names(s@.take(i as int));
                                assert(input_decl_names(s@.take(i + 1)) == names.push(name@));
                                assert(names.push(name@).drop_last() =~= names);
                            }
                            count = count + 1;
                            let mut id = concat_str(parent.as_str(), "_input_");
                            push_decimal(&mut id, count as u64);
                            let label = concat_str("Input: ", name.as_str());
                            graph.add_node(id.clone(), label, NodeType::Input);
                            graph.add_edge(id, parent.clone(), None);
                        },
                        None => {},
                    }
                }
            },
            SyntaxElement::Token(_) => {},
        }
        i = i + 1;
    }
    proof {
        assert(s@.take(s@.len() as int) =~= s@);
    }
}

/// The graph's output nodes for the bound declarations among `section`'s children.
fn process_output_section(section: &SyntaxNode, graph: &mut WorkflowGraph, parent: &String)
    requires
        old(graph).wf(),
    ensures
        final(graph).wf(),
        final(graph)@ == add_outputs(old(graph)@, parent@, output_decl_names(section.children@)),
{
    let s = &section.children;
    let mut count: usize = 0;
    let mut i: usize = 0;
    while i < s.len()
        invariant
            i <= s@.len(),
            count <= i,
            count == output_decl_names(s@.take(i as int)).len(),
            graph.wf(),
            graph@ == add_outputs(old(graph)@, parent@, output_decl_names(s@.take(i as int))),
        decreases s@.len() - i,
    {
        proof {
            lemma_take_next(s@, i as int);
        }
        match &s[i] {
            SyntaxElement::Node(n) => {
                if n.kind == Kind::BoundDeclNode {
                    match find_identifier_name(n) {
                        Some(name) => {
                            proof {
                                let names = output_decl_names(s@.take(i as int));
                                assert(output_decl_names(s@.take(i + 1)) == names.push(name@));
                                assert(names.push(name@).drop_last() =~= names);
                            }
                            count = count + 1;
                            let mut id = concat_str(parent.as_str(), "_output_");
                            push_decimal(&mut id, count as u64);
                            let label = concat_str("Output: ", name.as_str());
                            graph.add_node(id.clone(), label, NodeType::Output);
                            graph.add_edge(parent.clone(), id, None);
                        },
                        None => {},
                    }
                }
            },
            SyntaxElement::Token(_) => {},
        }
        i = i + 1;
    }
    proof {
        assert(s@.take(s@.len() as int) =~= s@);
    }
}

/// The name a call statement is shown under.
fn find_call_name(node: &SyntaxNode) -> (r: Option<String>)
    ensures
        r.deep_view() == call_display_name(*node),
{
    let target = match find_node_of(&node.children, Kind::CallTargetNode) {
        Some(t) => find_identifier_name(t),
        None => None,
    };
    let target = match target {
        Some(t) => t,
        None => return None,
    };
    if target.as_str().is_empty() {
        return None;
    }
    match find_node_of(&node.children, Kind::CallAliasNode) {
        Some(a) => match find_identifier_name(a) {
            Some(alias) => Some(alias),
            None => Some(target),
        },
        None => Some(target),
    }
}

/// The first identifier token anywhere inside `node`, in pre-order.
fn find_first_ident_within(node: &SyntaxNode) -> (r: Option<String>)
    ensures
        r.deep_view() == first_ident_in(*node),
    decreases node,
{
    let s = &node.children;
    let mut i: usize = 0;
    proof {
        assert(s@.skip(0) =~= s@);
    }
    while i < s.len()
        invariant
            i <= s@.len(),
            s@ == node.children@,
            first_ident_in(*node) == first_ident_in_children(s@.skip(i as int)),
        decreases s@.len() - i,
    {
        proof {
            lemma_skip_next(s@, i as int);
        }
        match &s[i] {
            SyntaxElement::Token(t) => {
                if t.kind == Kind::Ident {
                    return Some(t.text.clone());
                }
            },
            SyntaxElement::Node(n) => {
                proof {
                    broadcast use vstd::std_specs::vec::axiom_vec_decreases_to_view;

                    let ghost e = s@[i as int];
                    assert(e == SyntaxElement::Node(*n));
                    assert(decreases_to!(*node => node.children));
                    assert(decreases_to!(node.children => node.children@));
                    assert(decreases_to!(s@ => e));
                    assert(decreases_to!(e => e->Node_0));
                }
                match find_first_ident_within(n) {
                    Some(x) => return Some(x),
                    None => {},
                }
            },
        }
        i = i + 1;
    }
    None
}

/// Adds to `deps` the calls named by the member accesses in `expr`.
fn extract_dependencies_from_expression(expr: &SyntaxNode, deps: &mut Vec<String>)
    ensures
        final(deps).deep_view() == access_deps(*expr, old(deps).deep_view()),
    decreases expr,
{
    if expr.kind == Kind::AccessExprNode {
        match find_first_ident_within(expr) {
            Some(x) => {
                let id = concat_str("call_", x.as_str());
                if !contains_string(deps, &id) {
                    let ghost before = deps.deep_view();
                    let ghost idv = id@;
                    deps.push(id);
                    proof {
                        assert(deps.deep_view() =~= before.push(idv));
                    }
                }
            },
            None => {},
        }
    }
    let s = &expr.children;
    let mut i: usize = 0;
    proof {
        assert(s@.skip(0) =~= s@);
    }
    while i < s.len()
        invariant
            i <= s@.len(),
            s@ == expr.children@,
            access_deps(*expr, old(deps).deep_view()) == access_deps_children(
                s@.skip(i as int),
                deps.deep_view(),
            ),
        decreases s@.len() - i,
    {
        proof {
            lemma_skip_next(s@, i as int);
        }
        match &s[i] {
            SyntaxElement::Node(n) => {
                proof {
                    broadcast use vstd::std_specs::vec::axiom_vec_decreases_to_view;

                    let ghost e = s@[i as int];
                    assert(e == SyntaxElement::Node(*n));
                    assert(decreases_to!(*expr => expr.children));
                    assert(decreases_to!(expr.children => expr.children@));
                    assert(decreases_to!(s@ => e));
                    assert(decreases_to!(e => e->Node_0));
                }
                extract_dependencies_from_expression(n, deps);
            },
            SyntaxElement::Token(_) => {},
        }
        i = i + 1;
    }
}

/// The upstream call ids named in a call's input items.
fn extract_call_dependencies(node: &SyntaxNode) -> (r: Vec<String>)
    ensures
        r.deep_view() == call_deps(*node),
{
    let s = &node.children;
    let mut deps: Vec<String> = Vec::new();
    let mut i: usize = 0;
    proof {
        assert(s@.skip(0) =~= s@);
        assert(deps.deep_view() =~= Seq::<Seq<char>>::empty());
    }
    while i < s.len()
        invariant
            i <= s@.len(),
            s@ == node.children@,
            call_deps(*node) == items_deps(s@.skip(i as int), deps.deep_view()),
        decreases s@.len() - i,
    {
        proof {
            lemma_skip_next(s@, i as int);
        }
        match &s[i] {
            SyntaxElement::Node(n) => {
                if n.kind == Kind::CallInputItemNode {
                    extract_dependencies_from_expression(n, &mut deps);
                }
            },
            SyntaxElement::Token(_) => {},
        }
        i = i + 1;
    }
    deps
}

/// Sets the entry of `key` to `value`, appending it when `key` is new.
fn record_dependencies(deps: &mut Vec<(String, Vec<String>)>, key: String, value: Vec<String>)
    requires
        keys_unique(old(deps).deep_view()),
    ensures
        keys_unique(final(deps).deep_view()),
        final(deps).deep_view() == record_deps(old(deps).deep_view(), key@, value.deep_view()),
{
    let ghost d = deps.deep_view();
    let ghost v = value.deep_view();
    let mut i: usize = 0;
    while i < deps.len()
        invariant
            i <= deps@.len(),
            deps.deep_view() == d,
            d == old(deps).deep_view(),
            v == value.deep_view(),
            keys_unique(d),
            forall|j: int| 0 <= j < i ==> d[j].0 != key@,
        decreases deps@.len() - i,
    {
        if deps[i].0 == key {
            proof {
                assert(d[i as int].0 == key@);
            }
            let ghost raw = deps@;
            let ghost kv = (key, value);
            deps.set(i, (key, value));
            proof {
                assert(deps@ == raw.update(i as int, kv));
                assert(deps.deep_view() =~= d.update(i as int, (key@, v)));
                assert forall|j: int| 0 <= j < d.len() && j != i implies d[j].0 != key@ by {
                    if j < i {
                    } else {
                        assert(d[i as int].0 != d[j].0);
                    }
                }
                assert(0 <= i < d.len() && d[i as int].0 == key@);
                let f = |e: (Seq<char>, Seq<Seq<char>>)|
                    if e.0 == key@ {
                        (key@, v)
                    } else {
                        e
                    };
                assert(record_deps(d, key@, v) == d.map_values(f));
                assert(d.update(i as int, (key@, v)) =~= d.map_values(f));
            }
            return;
        }
        i = i + 1;
    }
    proof {
        assert(!(exists|j: int| 0 <= j < d.len() && d[j].0 == key@));
    }
    deps.push((key, value));
    proof {
        assert(deps.deep_view() =~= d.push((key@, v)));
    }
}

/// The state of one graph build.
struct GraphBuilder {
    graph: WorkflowGraph,
    dependencies: Vec<(String, Vec<String>)>,
    conditionals: u64,
    scatters: u64,
}

impl View for GraphBuilder {
    type V = BuildView;

    closed spec fn view(&self) -> BuildView {
        BuildView {
            graph: self.graph@,
            deps: self.dependencies.deep_view(),
            conditionals: self.conditionals,
            scatters: self.scatters,
        }
    }
}

impl GraphBuilder {
    spec fn wf(&self) -> bool {
        self.graph.wf() && keys_unique(self.dependencies.deep_view())
    }

    fn process_call_statement(&mut self, node: &SyntaxNode, ctx: &Option<String>)
        requires
            old(self).wf(),
        ensures
            final(self).wf(),
            final(self)@ == process_call(*node, ctx.deep_view(), old(self)@),
    {
        let name = match find_call_name(node) {
            Some(name) => name,
            None => return,
        };
        let id = concat_str("call_", name.as_str());
        let label = concat_str("call ", name.as_str());
        self.graph.add_node(id.clone(), label, NodeType::Call);
        match ctx {
            Some(w) => self.graph.add_edge(w.clone(), id.clone(), None),
            None => {},
        }
        let deps = extract_call_dependencies(node);
        if deps.len() > 0 {
            record_dependencies(&mut self.dependencies, id, deps);
        }
    }

    /// The direct call children of a block, each with an edge from the block.
    fn process_block_calls(&mut self, node: &SyntaxNode, block: &String, ctx: &Option<String>)
        requires
            old(self).wf(),
        ensures
            final(self).wf(),
            final(self)@ == block_calls(node.children@, block@, ctx.deep_view(), old(self)@),
    {
        let s = &node.children;
        let mut i: usize = 0;
        while i < s.len()
            invariant
                i <= s@.len(),
                self.wf(),
                self@ == block_calls(s@.take(i as int), block@, ctx.deep_view(), old(self)@),
            decreases s@.len() - i,
        {
            proof {
                lemma_take_next(s@, i as int);
            }
            match &s[i] {
                SyntaxElement::Node(n) => {
                    if n.kind == Kind::CallStatementNode {
                        self.process_call_statement(n, ctx);
                        match find_call_name(n) {
                            Some(name) => {
                                let to = concat_str("call_", name.as_str());
                                self.graph.add_edge(block.clone(), to, None);
                            },
                            None => {},
                        }
                    }
                },
                SyntaxElement::Token(_) => {},
            }
            i = i + 1;
        }
        proof {
            assert(s@.take(s@.len() as int) =~= s@);
        }
    }

    fn process_block(
        &mut self,
        node: &SyntaxNode,
        ctx: &Option<String>,
        id: String,
        label: String,
        t: NodeType,
    )
        requires
            old(self).wf(),
        ensures
            final(self).wf(),
            final(self)@ == process_block(*node, ctx.deep_view(), old(self)@, id@, label@, t),
    {
        self.graph.add_node(id.clone(), label, t);
        match ctx {
            Some(w) => self.graph.add_edge(w.clone(), id.clone(), None),
            None => {},
        }
        self.process_block_calls(node, &id, ctx);
    }

    fn process_conditional_statement(&mut self, node: &SyntaxNode, ctx: &Option<String>)
        requires
            old(self).wf(),
        ensures
            final(self).wf(),
            final(self)@ == process_conditional(*node, ctx.deep_view(), old(self)@),
    {
        if self.conditionals < u64::MAX {
            self.conditionals = self.conditionals + 1;
        }
        let mut id = "conditional_".to_owned();
        push_decimal(&mut id, self.conditionals);
        self.process_block(node, ctx, id, "if condition".to_owned(), NodeType::Conditional);
    }

    fn process_scatter_statement(&mut self, node: &SyntaxNode, ctx: &Option<String>)
        requires
            old(self).wf(),
        ensures
            final(self).wf(),
            final(self)@ == process_scatter(*node, ctx.deep_view(), old(self)@),
    {
        if self.scatters < u64::MAX {
            self.scatters = self.scatters + 1;
        }
        let mut id = "scatter_".to_owned();
        push_decimal(&mut id, self.scatters);
        let label = match find_identifier_name(node) {
            Some(v) => concat_str("scatter ", v.as_str()),
            None => "scatter item".to_owned(),
        };
        proof {
            reveal_strlit("scatter item");
            reveal_strlit("scatter ");
            reveal_strlit("item");
            assert("scatter item"@ =~= "scatter "@ + "item"@);
        }
        self.process_block(node, ctx, id, label, NodeType::Scatter);
    }

    fn walk_node_with_context(&mut self, node: &SyntaxNode, ctx: &Option<String>)
        requires
            old(self).wf(),
        ensures
            final(self).wf(),
            final(self)@ == walk(*node, ctx.deep_view(), old(self)@),
        decreases node,
    {
        let workflow_name = if node.kind == Kind::WorkflowDefinitionNode {
            find_identifier_name(node)
        } else {
            None
        };
        let inner: Option<String> = match workflow_name {
            Some(name) => {
                let id = concat_str("workflow_", name.as_str());
                self.graph.add_node(id.clone(), name, NodeType::Workflow);
                match find_node_of(&node.children, Kind::InputSectionNode) {
                    Some(sec) => process_input_section(sec, &mut self.graph, &id),
                    None => {},
                }
                match find_node_of(&node.children, Kind::OutputSectionNode) {
                    Some(sec) => process_output_section(sec, &mut self.graph, &id),
                    None => {},
                }
                Some(id)
            },
            None => {
                if node.kind == Kind::TaskDefinitionNode {
                    match find_identifier_name(node) {
                        Some(name) => {
                            let id = concat_str("task_", name.as_str());
                            self.graph.add_node(id, name, NodeType::Task);
                        },
                        None => {},
                    }
                } else if node.kind == Kind::CallStatementNode {
                    self.process_call_statement(node, ctx);
                } else if node.kind == Kind::ConditionalStatementNode {
                    self.process_conditional_statement(node, ctx);
                } else if node.kind == Kind::ScatterStatementNode {
                    self.process_scatter_statement(node, ctx);
                }
                ctx.clone()
            },
        };
        let ghost mid = self@;
        let s = &node.children;
        let mut i: usize = 0;
        proof {
            assert(s@.skip(0) =~= s@);
        }
        while i < s.len()
            invariant
                i <= s@.len(),
                s@ == node.children@,
                self.wf(),
                walk(*node, ctx.deep_view(), old(self)@) == walk_children(
                    s@.skip(i as int),
                    inner.deep_view(),
                    self@,
                ),
            decreases s@.len() - i,
        {
            proof {
                lemma_skip_next(s@, i as int);
            }
            match &s[i] {
                SyntaxElement::Node(n) => {
                    proof {
                        broadcast use vstd::std_specs::vec::axiom_vec_decreases_to_view;

                        let ghost e = s@[i as int];
                        assert(e == SyntaxElement::Node(*n));
                        assert(decreases_to!(*node => node.children));
                        assert(decreases_to!(node.children => node.children@));
                        assert(decreases_to!(s@ => e));
                        assert(decreases_to!(e => e->Node_0));
                    }
                    self.walk_node_with_context(n, &inner);
                },
                SyntaxElement::Token(_) => {},
            }
            i = i + 1;
        }
    }
}

/// Appends one `depends on` edge per recorded upstream id, in map order.
pub fn add_dependency_edges(graph: &mut WorkflowGraph, dependencies: &Vec<(String, Vec<String>)>)
    ensures
        final(graph).wf() == old(graph).wf(),
        final(graph)@ == (GraphView {
            edges: old(graph)@.edges + dep_edges(dependencies.deep_view()),
            ..old(graph)@
        }),
{
    let ghost d = dependencies.deep_view();
    let mut i: usize = 0;
    while i < dependencies.len()
        invariant
            i <= dependencies@.len(),
            d == dependencies.deep_view(),
            graph.wf() == old(graph).wf(),
            graph@ == (GraphView {
                edges: old(graph)@.edges + dep_edges(d.take(i as int)),
                ..old(graph)@
            }),
        decreases dependencies@.len() - i,
    {
        let (call_id, deps) = &dependencies[i];
        let ghost before = graph@.edges;
        let mut j: usize = 0;
        while j < deps.len()
            invariant
                j <= deps@.len(),
                i < dependencies@.len(),
                d == dependencies.deep_view(),
                d[i as int] == (call_id@, deps.deep_view()),
                graph.wf() == old(graph).wf(),
                graph@.nodes == old(graph)@.nodes,
                graph@.edges == before + deps.deep_view().take(j as int).map_values(
                    |dep: Seq<char>| EdgeView { from: dep, to: call_id@, label: Some("depends on"@) },
                ),
            decreases deps@.len() - j,
        {
            let ghost e0 = graph@.edges;
            graph.add_edge(deps[j].clone(), call_id.clone(), Some("depends on".to_owned()));
            proof {
                assert(deps.deep_view().take(j + 1) =~= deps.deep_view().take(j as int).push(
                    deps.deep_view()[j as int],
                ));
                assert(graph@.edges =~= before + deps.deep_view().take(j + 1).map_values(
                    |dep: Seq<char>| EdgeView { from: dep, to: call_id@, label: Some("depends on"@) },
                ));
            }
            j = j + 1;
        }
        proof {
            assert(deps.deep_view().take(deps@.len() as int) =~= deps.deep_view());
            assert(d.take(i + 1).drop_last() =~= d.take(i as int));
            assert(graph@.edges =~= old(graph)@.edges + dep_edges(d.take(i + 1)));
        }
        i = i + 1;
    }
    proof {
        assert(d.take(dependencies@.len() as int) =~= d);
    }
}

/// The dependency graph of the tree rooted at `root`: workflows, tasks,
/// calls, inputs, outputs, conditionals and scatters, then one `depends on`
/// edge for each member access in a call's inputs that names a call.
pub fn build_workflow_graph(root: &SyntaxNode) -> (r: WorkflowGraph)
    ensures
        r.wf(),
        r@ == graph_of(*root),
{
    let mut b = GraphBuilder {
        graph: WorkflowGraph::new(),
        dependencies: Vec::new(),
        conditionals: 0,
        scatters: 0,
    };
    proof {
        assert(b.dependencies.deep_view() =~= Seq::<(Seq<char>, Seq<Seq<char>>)>::empty());
    }
    b.walk_node_with_context(root, &None);
    add_dependency_edges(&mut b.graph, &b.dependencies);
    b.graph
}

/// The dependency graph of the document `content`; an error when the
/// grammar's walk of it is not one tree.
pub fn extract_workflow_graph(content: &str) -> (r: Result<WorkflowGraph, String>)
    ensures
        r matches Ok(g) ==> g.wf() && exists|n: SyntaxNode| parses_to(content@, n) && g@ == graph_of(n),
        r is Err ==> forall|n: SyntaxNode| !parses_to(content@, n),
{
    match parse_document(content) {
        Some(root) => Ok(build_workflow_graph(&root)),
        None => Err("the syntax tree could not be read".to_owned()),
    }
}

/// Node ids are unique: a graph whose ids are unique keeps them unique
/// whatever node is inserted.
pub proof fn lemma_insert_keeps_ids_unique(g: GraphView, n: NodeView)
    requires
        g.ids_unique(),
    ensures
        g.insert_node(n).ids_unique(),
{
    if !g.has_id(n.id) {
        let h = g.insert_node(n);
        assert forall|i: int, j: int| 0 <= i < j < h.nodes.len() implies h.nodes[i].id
            != h.nodes[j].id by {
            if j == g.nodes.len() {
                assert(g.nodes[i].id != n.id);
            }
        }
    }
}

/// The first insertion under an id wins: after `a`, inserting `b` with the
/// same id changes nothing, so the node under that id keeps `a`'s label and
/// type unless the graph already had one.
pub proof fn lemma_first_insertion_wins(g: GraphView, a: NodeView, b: NodeView)
    requires
        a.id == b.id,
    ensures
        g.insert_node(a).insert_node(b) == g.insert_node(a),
        !g.has_id(a.id) ==> g.insert_node(a).nodes.last() == a,
{
    let h = g.insert_node(a);
    if !g.has_id(a.id) {
        assert(h.nodes[g.nodes.len() as int].id == b.id);
    }
    assert(h.has_id(b.id));
}

/// Rendering is a function of the graph's contents: rendering one graph
/// twice, or two graphs with the same contents, gives the same text.
pub proof fn lemma_render_deterministic(g1: &WorkflowGraph, g2: &WorkflowGraph)
    requires
        g1@ == g2@,
    ensures
        render(g1@) == render(g2@),
{
}

} // verus!
