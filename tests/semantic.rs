use wdlparse::cst::{Kind, SyntaxElement, SyntaxNode, SyntaxToken};
use wdlparse::metadata::BasicWdlMetadata;
use wdlparse::parse::parse_document;
use wdlparse::semantic::{extract_declaration, extract_semantic_info};
use wdlparse::info::WdlInfo;

const HELLO: &str = r#"
version 1.1

task say_hello {
    input {
        String name
    }
    command {
        echo "Hello ${name}"
    }
    output {
        String greeting = stdout()
    }
}

workflow hello_world {
    input {
        String input_name
    }

    call say_hello {
        input: name = input_name
    }

    output {
        String result = say_hello.greeting
    }
}
"#;

fn info_of(src: &str) -> WdlInfo {
    let root = parse_document(src).expect("the grammar always yields a tree");
    extract_semantic_info(&root)
}

fn token(kind: Kind, text: &str) -> SyntaxElement {
    SyntaxElement::Token(SyntaxToken { kind, text: text.to_string() })
}

fn node(kind: Kind, text: &str, children: Vec<SyntaxElement>) -> SyntaxElement {
    SyntaxElement::Node(SyntaxNode { kind, text: text.to_string(), children })
}

#[test]
fn end_to_end_model() {
    let info = info_of(HELLO);
    assert_eq!(info.version.as_deref(), Some("1.1"));
    assert_eq!(info.tasks.len(), 1);
    let task = &info.tasks[0];
    assert_eq!(task.name, "say_hello");
    assert_eq!(task.inputs.len(), 1);
    assert_eq!(task.inputs[0].name, "name");
    assert_eq!(task.inputs[0].wdl_type, "String");
    assert!(!task.inputs[0].optional);
    assert_eq!(task.inputs[0].default_value, None);
    assert_eq!(task.outputs.len(), 1);
    assert_eq!(task.outputs[0].name, "greeting");
    assert_eq!(task.outputs[0].expression, "stdout()");
    assert!(task.command.as_deref().unwrap().contains("echo \"Hello "));
    assert_eq!(info.workflows.len(), 1);
    let wf = &info.workflows[0];
    assert_eq!(wf.name, "hello_world");
    assert_eq!(wf.calls.len(), 1);
    assert_eq!(wf.calls[0].target, "say_hello");
    assert_eq!(wf.calls[0].name, "say_hello");
    assert_eq!(wf.calls[0].alias, None);
    assert_eq!(wf.calls[0].inputs.len(), 1);
    assert_eq!(wf.calls[0].inputs[0].name, "name");
    assert_eq!(wf.calls[0].inputs[0].value, "input_name");
    assert_eq!(wf.outputs.len(), 1);
    assert_eq!(wf.outputs[0].name, "result");
    assert_eq!(wf.outputs[0].expression, "say_hello.greeting");
}

#[test]
fn entities_keep_source_order() {
    let src = "version 1.1\nstruct S2 { Int a }\nstruct S1 { Int b }\ntask zeta { command <<< >>> }\ntask alpha { command <<< >>> }\ntask mid { command <<< >>> }\n";
    let info = info_of(src);
    let tasks: Vec<&str> = info.tasks.iter().map(|t| t.name.as_str()).collect();
    assert_eq!(tasks, vec!["zeta", "alpha", "mid"]);
    let structs: Vec<&str> = info.structs.iter().map(|s| s.name.as_str()).collect();
    assert_eq!(structs, vec!["S2", "S1"]);
}

#[test]
fn optional_marker_anywhere_in_type() {
    let src = "version 1.1\nstruct S {\n  String? a\n  Array[String?] b\n  Map[String, Int] c\n}\n";
    let info = info_of(src);
    let fields = &info.structs[0].fields;
    assert_eq!(fields.len(), 3);
    assert_eq!((fields[0].name.as_str(), fields[0].wdl_type.as_str(), fields[0].optional), ("a", "String?", true));
    assert_eq!((fields[1].name.as_str(), fields[1].wdl_type.as_str(), fields[1].optional), ("b", "Array[String?]", true));
    assert_eq!((fields[2].name.as_str(), fields[2].wdl_type.as_str(), fields[2].optional), ("c", "Map[String, Int]", false));
}

#[test]
fn bound_declaration_default_value() {
    let src = "version 1.1\ntask t {\n  input {\n    Int n = 3 + 4\n    String s\n  }\n  command <<< >>>\n}\n";
    let info = info_of(src);
    let inputs = &info.tasks[0].inputs;
    assert_eq!(inputs[0].default_value.as_deref(), Some("3 + 4"));
    assert_eq!(inputs[1].default_value, None);
}

#[test]
fn bound_declaration_without_expression() {
    let decl = SyntaxNode {
        kind: Kind::BoundDeclNode,
        text: "Int x =".to_string(),
        children: vec![
            node(Kind::PrimitiveTypeNode, "Int", vec![token(Kind::Other, "Int")]),
            token(Kind::Ident, "x"),
            token(Kind::Assignment, "="),
        ],
    };
    let d = extract_declaration(&decl).expect("a named declaration is kept");
    assert_eq!(d.name, "x");
    assert_eq!(d.wdl_type, "Int");
    assert_eq!(d.default_value, None);
}

#[test]
fn declaration_without_name_is_dropped() {
    let decl = SyntaxNode {
        kind: Kind::UnboundDeclNode,
        text: "Int".to_string(),
        children: vec![node(Kind::PrimitiveTypeNode, "Int", vec![token(Kind::Other, "Int")])],
    };
    assert!(extract_declaration(&decl).is_none());
}

#[test]
fn import_alias_present_and_absent() {
    let src = "version 1.1\nimport \"lib.wdl\" as lib\nimport \"other.wdl\"\n";
    let info = info_of(src);
    assert_eq!(info.imports.len(), 2);
    assert_eq!(info.imports[0].uri, "lib.wdl");
    assert_eq!(info.imports[0].alias.as_deref(), Some("lib"));
    assert_eq!(info.imports[1].uri, "other.wdl");
    assert_eq!(info.imports[1].alias, None);
}

#[test]
fn call_alias_and_inputs() {
    let src = "version 1.1\nworkflow w {\n  call t as u { input: a = 1, b = x.y }\n}\n";
    let info = info_of(src);
    let call = &info.workflows[0].calls[0];
    assert_eq!(call.target, "t");
    assert_eq!(call.alias.as_deref(), Some("u"));
    assert_eq!(call.name, "u");
    let inputs: Vec<(&str, &str)> = call.inputs.iter().map(|i| (i.name.as_str(), i.value.as_str())).collect();
    assert_eq!(inputs, vec![("a", "1"), ("b", "x.y")]);
}

#[test]
fn runtime_and_meta_items() {
    let src = "version 1.1\ntask t {\n  command <<< >>>\n  runtime {\n    docker: \"ubuntu\"\n    cpu: 2\n  }\n  meta {\n    author: \"me\"\n  }\n  parameter_meta {\n    n: \"count\"\n  }\n}\n";
    let info = info_of(src);
    let task = &info.tasks[0];
    let runtime: Vec<(&str, &str)> = task.runtime.iter().map(|i| (i.key.as_str(), i.value.as_str())).collect();
    assert_eq!(runtime, vec![("docker", "\"ubuntu\""), ("cpu", "2")]);
    assert_eq!(task.meta.len(), 1);
    assert_eq!((task.meta[0].key.as_str(), task.meta[0].value.as_str()), ("author", "\"me\""));
    assert_eq!(task.parameter_meta.len(), 1);
    assert_eq!(task.parameter_meta[0].key, "n");
}

#[test]
fn command_placeholders_are_rendered() {
    let src = "version 1.1\ntask t {\n  input { String name }\n  command <<<\n    echo ~{name}\n  >>>\n}\n";
    let info = info_of(src);
    let command = info.tasks[0].command.clone().unwrap();
    assert!(command.contains("echo ~{name}"));
}

#[test]
fn command_text_from_tree() {
    let section = SyntaxNode {
        kind: Kind::CommandSectionNode,
        text: "command".to_string(),
        children: vec![
            token(Kind::LiteralCommandText, "echo "),
            node(Kind::PlaceholderNode, "~{x}", vec![token(Kind::Other, "~{"), node(Kind::NameRefExprNode, "x", vec![token(Kind::Ident, "x")]), token(Kind::Other, "}")]),
            token(Kind::Other, ">>>"),
            node(Kind::PlaceholderNode, "~{}", vec![token(Kind::Other, "~{")]),
        ],
    };
    assert_eq!(wdlparse::semantic::extract_command_text(&section), "echo ~{x}~{}");
}

#[test]
fn empty_source_gives_empty_model() {
    let info = info_of("");
    assert_eq!(info.version, None);
    assert!(info.tasks.is_empty() && info.workflows.is_empty());
    assert!(info.structs.is_empty() && info.imports.is_empty());
}

#[test]
fn malformed_source_gives_partial_model_and_fallback() {
    let src = "version 1.1\n\ntask broken {\n  command {\n    echo hi\n\nworkflow wf {\n  call broken\n";
    let info = info_of(src);
    assert_eq!(info.version.as_deref(), Some("1.1"));
    let meta = BasicWdlMetadata::extract_from_text(src);
    assert_eq!(meta.version.as_deref(), Some("1.1"));
    assert_eq!(meta.workflow_name.as_deref(), Some("wf"));
    assert_eq!(meta.task_names, vec!["broken".to_string()]);
}
