use wdlparse::cst::{Kind, SyntaxElement, SyntaxNode, SyntaxToken};
use wdlparse::mermaid::{build_workflow_graph, extract_workflow_graph, generate_mermaid, NodeType, WorkflowGraph};

const HELLO: &str = r#"
version 1.1

task say_hello {
    input {
        String name
    }
    command {
        echo "Hello ${name}"
    }
    output {
        String greeting = stdout()
    }
}

workflow hello_world {
    input {
        String input_name
    }

    call say_hello {
        input: name = input_name
    }

    output {
        String result = say_hello.greeting
    }
}
"#;

fn depends_on_edges(graph: &WorkflowGraph, from: &str, to: &str) -> usize {
    graph
        .edges()
        .iter()
        .filter(|e| e.from == from && e.to == to && e.label.as_deref() == Some("depends on"))
        .count()
}

#[test]
fn test_simple_workflow() {
    let graph = extract_workflow_graph(HELLO).expect("Failed to parse WDL");
    let mermaid = generate_mermaid(&graph);

    assert!(mermaid.contains("flowchart TD"));
    assert!(mermaid.contains("workflow_hello_world"));
    assert!(mermaid.contains("call_say_hello"));
}

#[test]
fn test_mermaid_generation() {
    let mut graph = WorkflowGraph::new();
    graph.add_node("task1".to_string(), "Task 1".to_string(), NodeType::Task);
    graph.add_node("task2".to_string(), "Task 2".to_string(), NodeType::Task);
    graph.add_edge("task1".to_string(), "task2".to_string(), None);

    let mermaid = generate_mermaid(&graph);
    assert!(mermaid.contains("flowchart TD"));
    assert!(mermaid.contains("task1[Task 1]"));
    assert!(mermaid.contains("task1 --> task2"));
}

#[test]
fn end_to_end_graph_and_diagram() {
    let graph = extract_workflow_graph(HELLO).unwrap();
    let ids: Vec<&str> = graph.nodes().iter().map(|n| n.id.as_str()).collect();
    assert_eq!(
        ids,
        vec![
            "task_say_hello",
            "workflow_hello_world",
            "workflow_hello_world_input_1",
            "workflow_hello_world_output_1",
            "call_say_hello",
        ]
    );
    let mermaid = generate_mermaid(&graph);
    assert!(mermaid.starts_with("flowchart TD\n"));
    assert!(mermaid.contains("    call_say_hello[call say_hello]:::callStyle\n"));
    assert!(mermaid.contains("    workflow_hello_world([hello_world]):::workflowStyle\n"));
    assert!(mermaid.contains("    workflow_hello_world_input_1((Input: input_name)):::inputStyle\n"));
    assert!(mermaid.contains("    workflow_hello_world_output_1((Output: result)):::outputStyle\n"));
    assert!(mermaid.contains("    workflow_hello_world_input_1 --> workflow_hello_world\n"));
    assert!(mermaid.contains("    workflow_hello_world --> workflow_hello_world_output_1\n"));
    assert!(mermaid.contains("    workflow_hello_world --> call_say_hello\n"));
}

#[test]
fn dependency_edge_upstream_declared_first() {
    let src = "version 1.1\nworkflow w {\n  call A\n  call B { input: x = A.out }\n}\n";
    let graph = extract_workflow_graph(src).unwrap();
    assert_eq!(depends_on_edges(&graph, "call_A", "call_B"), 1);
    assert_eq!(depends_on_edges(&graph, "call_B", "call_A"), 0);
    assert!(generate_mermaid(&graph).contains("    call_A ---|depends on| call_B\n"));
}

#[test]
fn dependency_edge_upstream_declared_later() {
    let src = "version 1.1\nworkflow w {\n  call B { input: x = A.out }\n  call A\n}\n";
    let graph = extract_workflow_graph(src).unwrap();
    assert_eq!(depends_on_edges(&graph, "call_A", "call_B"), 1);
    assert_eq!(depends_on_edges(&graph, "call_B", "call_A"), 0);
}

#[test]
fn repeated_mentions_give_one_dependency() {
    let src = "version 1.1\nworkflow w {\n  call A\n  call B { input: x = A.out, y = A.other }\n}\n";
    let graph = extract_workflow_graph(src).unwrap();
    assert_eq!(depends_on_edges(&graph, "call_A", "call_B"), 1);
}

#[test]
fn aliased_call_is_named_by_alias() {
    let src = "version 1.1\nworkflow w {\n  call t as first\n  call t as second { input: x = first.out }\n}\n";
    let graph = extract_workflow_graph(src).unwrap();
    let ids: Vec<&str> = graph.nodes().iter().map(|n| n.id.as_str()).collect();
    assert!(ids.contains(&"call_first"));
    assert!(ids.contains(&"call_second"));
    assert_eq!(depends_on_edges(&graph, "call_first", "call_second"), 1);
}

#[test]
fn first_insertion_wins() {
    let mut graph = WorkflowGraph::new();
    graph.add_node("n".to_string(), "first".to_string(), NodeType::Task);
    graph.add_node("n".to_string(), "second".to_string(), NodeType::Call);
    assert_eq!(graph.nodes().len(), 1);
    assert_eq!(graph.nodes()[0].label, "first");
    assert_eq!(graph.nodes()[0].node_type, NodeType::Task);
}

#[test]
fn edges_are_not_deduplicated() {
    let mut graph = WorkflowGraph::new();
    graph.add_edge("a".to_string(), "b".to_string(), None);
    graph.add_edge("a".to_string(), "b".to_string(), None);
    assert_eq!(graph.edges().len(), 2);
}

#[test]
fn rendering_twice_is_identical() {
    let graph = extract_workflow_graph(HELLO).unwrap();
    assert_eq!(generate_mermaid(&graph), generate_mermaid(&graph));
}

#[test]
fn empty_graph_renders_header_and_styles() {
    let expected = "flowchart TD\n\n    classDef taskStyle fill:#e1f5fe,stroke:#01579b,stroke-width:2px\n    classDef callStyle fill:#f3e5f5,stroke:#4a148c,stroke-width:2px\n    classDef inputStyle fill:#e8f5e8,stroke:#2e7d32,stroke-width:2px\n    classDef outputStyle fill:#fff3e0,stroke:#ef6c00,stroke-width:2px\n    classDef conditionalStyle fill:#fff8e1,stroke:#f57f17,stroke-width:2px\n    classDef scatterStyle fill:#fce4ec,stroke:#c2185b,stroke-width:2px\n    classDef workflowStyle fill:#f1f8e9,stroke:#33691e,stroke-width:3px\n";
    assert_eq!(generate_mermaid(&WorkflowGraph::new()), expected);
}

#[test]
fn every_shape_renders() {
    let mut graph = WorkflowGraph::new();
    graph.add_node("c".to_string(), "if condition".to_string(), NodeType::Conditional);
    graph.add_node("s".to_string(), "scatter x".to_string(), NodeType::Scatter);
    graph.add_edge("c".to_string(), "s".to_string(), Some("why".to_string()));
    let mermaid = generate_mermaid(&graph);
    assert!(mermaid.contains("    c{/if condition/}:::conditionalStyle\n"));
    assert!(mermaid.contains("    s[/scatter x\\]:::scatterStyle\n"));
    assert!(mermaid.contains("    c ---|why| s\n"));
}

#[test]
fn scatter_and_conditional_nodes() {
    let src = "version 1.1\nworkflow w {\n  scatter (i in [1, 2]) {\n    call A\n  }\n  if (true) {\n    call B\n  }\n}\n";
    let graph = extract_workflow_graph(src).unwrap();
    let find = |id: &str| graph.nodes().iter().find(|n| n.id == id).map(|n| n.label.clone());
    assert_eq!(find("scatter_1"), Some("scatter i".to_string()));
    assert_eq!(find("conditional_1"), Some("if condition".to_string()));
    let mermaid = generate_mermaid(&graph);
    assert!(mermaid.contains("    workflow_w --> scatter_1\n"));
    assert!(mermaid.contains("    workflow_w --> conditional_1\n"));
    assert!(mermaid.contains("    workflow_w --> call_A\n"));
    assert!(mermaid.contains("    workflow_w --> call_B\n"));
}

#[test]
fn numbering_is_fresh_for_each_build() {
    let src = "version 1.1\nworkflow w {\n  if (true) {\n    call B\n  }\n}\n";
    let first = generate_mermaid(&extract_workflow_graph(src).unwrap());
    let second = generate_mermaid(&extract_workflow_graph(src).unwrap());
    assert_eq!(first, second);
    assert!(first.contains("conditional_1{/if condition/}"));
}

fn token(kind: Kind, text: &str) -> SyntaxElement {
    SyntaxElement::Token(SyntaxToken { kind, text: text.to_string() })
}

fn node(kind: Kind, text: &str, children: Vec<SyntaxElement>) -> SyntaxNode {
    SyntaxNode { kind, text: text.to_string(), children }
}

#[test]
fn block_calls_get_edges_from_the_block() {
    let call = node(
        Kind::CallStatementNode,
        "call A",
        vec![SyntaxElement::Node(node(Kind::CallTargetNode, "A", vec![token(Kind::Ident, "A")]))],
    );
    let scatter = node(Kind::ScatterStatementNode, "scatter", vec![SyntaxElement::Node(call)]);
    let workflow = node(
        Kind::WorkflowDefinitionNode,
        "workflow w",
        vec![token(Kind::Ident, "w"), SyntaxElement::Node(scatter)],
    );
    let graph = build_workflow_graph(&workflow);
    let mermaid = generate_mermaid(&graph);
    assert!(mermaid.contains("    scatter_1[/scatter item\\]:::scatterStyle\n"));
    assert!(mermaid.contains("    scatter_1 --> call_A\n"));
    assert!(mermaid.contains("    workflow_w --> scatter_1\n"));
}

#[test]
fn tree_without_workflow_has_no_workflow_edges() {
    let task = node(Kind::TaskDefinitionNode, "task t", vec![token(Kind::Ident, "t")]);
    let graph = build_workflow_graph(&task);
    assert_eq!(graph.nodes().len(), 1);
    assert_eq!(graph.nodes()[0].id, "task_t");
    assert_eq!(graph.edges().len(), 0);
}
