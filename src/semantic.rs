//! Extraction of the semantic model from a syntax tree. Every extractor is
//! total: a construct without its required parts is left out, never an error.

use vstd::prelude::*;
use vstd::string::*;
use crate::cst::{
    filter_map_nodes, find_node_of, find_node_text_after, find_placeholder_expr,
    find_token_text, find_token_text_after, find_type_node, first_node_of, first_placeholder_expr,
    first_token_text, first_type_node, flat_map_nodes, is_decl_kind, is_node_of, is_token_of,
    lemma_skip_next, lemma_take_next, node_text_after, token_text_after, Kind, SyntaxElement, SyntaxNode,
};
use crate::info::{
    call_input_views, call_views, decl_views, empty_model, lemma_map_concat, lemma_map_push, meta_views,
    opt_view, output_views, runtime_views, CallInfo, CallInputItem, CallView, DeclView,
    ImportInfo, ImportView, InputInfo, ItemView, MetaItem, OutputInfo, OutputView, RuntimeItem,
    StructInfo, StructView, TaskInfo, TaskView, WdlInfo, WdlView, WorkflowInfo, WorkflowView,
};

verus! {

/// The text of a declaration's first type node, or empty text.
pub open spec fn type_text(n: SyntaxNode) -> Seq<char> {
    match first_type_node(n.children@) {
        Some(t) => t.text@,
        None => Seq::empty(),
    }
}

/// A declaration: named by its first identifier token, typed by its first
/// type node, optional when that type's text holds `?`, and, when bound,
/// defaulted to the first node after its assignment token.
pub open spec fn decl_of(n: SyntaxNode) -> Option<DeclView> {
    match first_token_text(n.children@, Kind::Ident) {
        Some(name) => if name.len() > 0 {
            Some(
                DeclView {
                    name,
                    wdl_type: type_text(n),
                    optional: type_text(n).contains('?'),
                    default_value: if n.kind == Kind::BoundDeclNode {
                        node_text_after(n.children@, Kind::Assignment)
                    } else {
                        None
                    },
                },
            )
        } else {
            None
        },
        None => None,
    }
}

/// An output declaration: its expression is the first node after the
/// assignment token, or empty text.
pub open spec fn output_of(n: SyntaxNode) -> Option<OutputView> {
    match first_token_text(n.children@, Kind::Ident) {
        Some(name) => if name.len() > 0 {
            Some(
                OutputView {
                    name,
                    wdl_type: type_text(n),
                    expression: match node_text_after(n.children@, Kind::Assignment) {
                        Some(e) => e,
                        None => Seq::empty(),
                    },
                },
            )
        } else {
            None
        },
        None => None,
    }
}

/// A keyed item: the key is the first identifier token, the value the first
/// node after the first `marker` token; both must be non-empty.
pub open spec fn item_of(n: SyntaxNode, marker: Kind) -> Option<ItemView> {
    match (first_token_text(n.children@, Kind::Ident), node_text_after(n.children@, marker)) {
        (Some(key), Some(value)) => if key.len() > 0 && value.len() > 0 {
            Some(ItemView { key, value })
        } else {
            None
        },
        _ => None,
    }
}

pub open spec fn decls_in(s: Seq<SyntaxElement>) -> Seq<DeclView> {
    filter_map_nodes(
        s,
        |n: SyntaxNode|
            if is_decl_kind(n.kind) {
                decl_of(n)
            } else {
                None
            },
    )
}

pub open spec fn outputs_in(s: Seq<SyntaxElement>) -> Seq<OutputView> {
    filter_map_nodes(
        s,
        |n: SyntaxNode|
            if n.kind == Kind::BoundDeclNode {
                output_of(n)
            } else {
                None
            },
    )
}

/// The items of kind `k` among `s`, keyed and valued across a colon.
pub open spec fn items_in(s: Seq<SyntaxElement>, k: Kind) -> Seq<ItemView> {
    filter_map_nodes(
        s,
        |n: SyntaxNode|
            if n.kind == k {
                item_of(n, Kind::Colon)
            } else {
                None
            },
    )
}

pub open spec fn call_inputs_in(s: Seq<SyntaxElement>) -> Seq<ItemView> {
    filter_map_nodes(
        s,
        |n: SyntaxNode|
            if n.kind == Kind::CallInputItemNode {
                item_of(n, Kind::Assignment)
            } else {
                None
            },
    )
}

/// The text a placeholder renders: its first name, member-access or call
/// expression, or empty text.
pub open spec fn placeholder_text(n: SyntaxNode) -> Seq<char> {
    match first_placeholder_expr(n.children@) {
        Some(e) => e.text@,
        None => Seq::empty(),
    }
}

/// Literal command fragments verbatim and placeholders as `~{expr}`, in order.
pub open spec fn command_text(s: Seq<SyntaxElement>) -> Seq<char>
    decreases s.len(),
{
    if s.len() == 0 {
        Seq::empty()
    } else {
        let rest = command_text(s.drop_last());
        let e = s.last();
        if is_token_of(e, Kind::LiteralCommandText) {
            rest + e->Token_0.text@
        } else if is_node_of(e, Kind::PlaceholderNode) {
            rest + seq!['~', '{'] + placeholder_text(e->Node_0) + seq!['}']
        } else {
            rest
        }
    }
}

pub open spec fn section_decls(s: Seq<SyntaxElement>, k: Kind) -> Seq<DeclView> {
    flat_map_nodes(
        s,
        |n: SyntaxNode|
            if n.kind == k {
                decls_in(n.children@)
            } else {
                Seq::empty()
            },
    )
}

pub open spec fn section_outputs(s: Seq<SyntaxElement>) -> Seq<OutputView> {
    flat_map_nodes(
        s,
        |n: SyntaxNode|
            if n.kind == Kind::OutputSectionNode {
                outputs_in(n.children@)
            } else {
                Seq::empty()
            },
    )
}

/// The items of kind `ik` in every section of kind `sk` among `s`, in order.
pub open spec fn section_items(s: Seq<SyntaxElement>, sk: Kind, ik: Kind) -> Seq<ItemView> {
    flat_map_nodes(
        s,
        |n: SyntaxNode|
            if n.kind == sk {
                items_in(n.children@, ik)
            } else {
                Seq::empty()
            },
    )
}

/// The command text of the last command section among `s`.
pub open spec fn last_command(s: Seq<SyntaxElement>) -> Option<Seq<char>>
    decreases s.len(),
{
    if s.len() == 0 {
        None
    } else if is_node_of(s.last(), Kind::CommandSectionNode) {
        Some(command_text(s.last()->Node_0.children@))
    } else {
        last_command(s.drop_last())
    }
}

/// The identifier inside the first child node of kind `k`.
pub open spec fn ident_in_child(s: Seq<SyntaxElement>, k: Kind) -> Option<Seq<char>> {
    match first_node_of(s, k) {
        Some(c) => first_token_text(c.children@, Kind::Ident),
        None => None,
    }
}

/// A call: its target names it unless an alias does; it needs a non-empty target.
pub open spec fn call_of(n: SyntaxNode) -> Option<CallView> {
    let c = n.children@;
    let alias = ident_in_child(c, Kind::CallAliasNode);
    match ident_in_child(c, Kind::CallTargetNode) {
        Some(target) => if target.len() > 0 {
            Some(
                CallView {
                    name: match alias {
                        Some(a) => a,
                        None => target,
                    },
                    target,
                    alias,
                    inputs: call_inputs_in(c),
                },
            )
        } else {
            None
        },
        None => None,
    }
}

pub open spec fn calls_in(s: Seq<SyntaxElement>) -> Seq<CallView> {
    filter_map_nodes(
        s,
        |n: SyntaxNode|
            if n.kind == Kind::CallStatementNode {
                call_of(n)
            } else {
                None
            },
    )
}

/// A task: named by its first identifier token, with the contents of all of
/// its sections in order.
pub open spec fn task_of(n: SyntaxNode) -> Option<TaskView> {
    let c = n.children@;
    match first_token_text(c, Kind::Ident) {
        Some(name) => Some(
            TaskView {
                name,
                inputs: section_decls(c, Kind::InputSectionNode),
                outputs: section_outputs(c),
                command: last_command(c),
                runtime: section_items(c, Kind::RuntimeSectionNode, Kind::RuntimeItemNode),
                meta: section_items(c, Kind::MetadataSectionNode, Kind::MetadataObjectItemNode),
                parameter_meta: section_items(
                    c,
                    Kind::ParameterMetadataSectionNode,
                    Kind::MetadataObjectItemNode,
                ),
            },
        ),
        None => None,
    }
}

/// A workflow: named by its first identifier token, with its sections and
/// the calls that are its direct children.
pub open spec fn workflow_of(n: SyntaxNode) -> Option<WorkflowView> {
    let c = n.children@;
    match first_token_text(c, Kind::Ident) {
        Some(name) => Some(
            WorkflowView {
                name,
                inputs: section_decls(c, Kind::InputSectionNode),
                outputs: section_outputs(c),
                calls: calls_in(c),
                meta: section_items(c, Kind::MetadataSectionNode, Kind::MetadataObjectItemNode),
                parameter_meta: section_items(
                    c,
                    Kind::ParameterMetadataSectionNode,
                    Kind::MetadataObjectItemNode,
                ),
            },
        ),
        None => None,
    }
}

pub open spec fn struct_of(n: SyntaxNode) -> Option<StructView> {
    match first_token_text(n.children@, Kind::Ident) {
        Some(name) => Some(StructView { name, fields: decls_in(n.children@) }),
        None => None,
    }
}

/// An import: the text of its first string literal, and the identifier after
/// `as`, if any; it needs a non-empty URI.
pub open spec fn import_of(n: SyntaxNode) -> Option<ImportView> {
    let c = n.children@;
    let uri = match first_node_of(c, Kind::LiteralStringNode) {
        Some(l) => match first_token_text(l.children@, Kind::LiteralStringText) {
            Some(t) => t,
            None => Seq::empty(),
        },
        None => Seq::empty(),
    };
    if uri.len() > 0 {
        Some(ImportView { uri, alias: token_text_after(c, Kind::AsKeyword, Kind::Ident) })
    } else {
        None
    }
}

/// What one node adds to the model, before its children are visited.
pub open spec fn visit(n: SyntaxNode, acc: WdlView) -> WdlView {
    if n.kind == Kind::VersionStatementNode {
        match first_token_text(n.children@, Kind::Version) {
            Some(v) => WdlView { version: Some(v), ..acc },
            None => acc,
        }
    } else if n.kind == Kind::TaskDefinitionNode {
        match task_of(n) {
            Some(t) => WdlView { tasks: acc.tasks.push(t), ..acc },
            None => acc,
        }
    } else if n.kind == Kind::WorkflowDefinitionNode {
        match workflow_of(n) {
            Some(w) => WdlView { workflows: acc.workflows.push(w), ..acc },
            None => acc,
        }
    } else if n.kind == Kind::StructDefinitionNode {
        match struct_of(n) {
            Some(t) => WdlView { structs: acc.structs.push(t), ..acc },
            None => acc,
        }
    } else if n.kind == Kind::ImportStatementNode {
        match import_of(n) {
            Some(i) => WdlView { imports: acc.imports.push(i), ..acc },
            None => acc,
        }
    } else {
        acc
    }
}

/// The model after a depth-first, pre-order walk of `n` starting from `acc`.
pub open spec fn collect_node(n: SyntaxNode, acc: WdlView) -> WdlView
    decreases n,
{
    collect_children(n.children@, visit(n, acc))
}

pub open spec fn collect_children(s: Seq<SyntaxElement>, acc: WdlView) -> WdlView
    decreases s,
{
    if s.len() == 0 {
        acc
    } else {
        let next = match s[0] {
            SyntaxElement::Node(m) => collect_node(m, acc),
            SyntaxElement::Token(_) => acc,
        };
        collect_children(s.drop_first(), next)
    }
}

/// The first identifier token among a node's children.
pub fn find_identifier_name(node: &SyntaxNode) -> (r: Option<String>)
    ensures
        r.deep_view() == first_token_text(node.children@, Kind::Ident),
{
    find_token_text(&node.children, Kind::Ident)
}

fn contains_question_mark(s: &String) -> (r: bool)
    ensures
        r == s@.contains('?'),
{
    let t = s.as_str();
    let n = t.unicode_len();
    let mut i: usize = 0;
    while i < n
        invariant
            n == s@.len(),
            t@ == s@,
            i <= n,
            forall|j: int| 0 <= j < i ==> s@[j] != '?',
        decreases n - i,
    {
        if t.get_char(i) == '?' {
            return true;
        }
        i = i + 1;
    }
    false
}

pub fn extract_declaration(node: &SyntaxNode) -> (r: Option<InputInfo>)
    ensures
        opt_view(r) == decl_of(*node),
{
    let name = match find_identifier_name(node) {
        Some(name) => name,
        None => return None,
    };
    if name.as_str().is_empty() {
        return None;
    }
    let (wdl_type, optional) = match find_type_node(&node.children) {
        Some(t) => (t.text.clone(), contains_question_mark(&t.text)),
        None => (String::new(), false),
    };
    let default_value = if node.kind == Kind::BoundDeclNode {
        find_node_text_after(&node.children, Kind::Assignment)
    } else {
        None
    };
    proof {
        if first_type_node(node.children@) is None {
            assert(!Seq::<char>::empty().contains('?'));
        }
    }
    Some(InputInfo { name, wdl_type, optional, default_value })
}

pub fn extract_output_declaration(node: &SyntaxNode) -> (r: Option<OutputInfo>)
    ensures
        opt_view(r) == output_of(*node),
{
    let name = match find_identifier_name(node) {
        Some(name) => name,
        None => return None,
    };
    if name.as_str().is_empty() {
        return None;
    }
    let wdl_type = match find_type_node(&node.children) {
        Some(t) => t.text.clone(),
        None => String::new(),
    };
    let expression = match find_node_text_after(&node.children, Kind::Assignment) {
        Some(e) => e,
        None => String::new(),
    };
    Some(OutputInfo { name, wdl_type, expression })
}

/// Key and value text of an item whose value follows a `marker` token.
fn extract_keyed(node: &SyntaxNode, marker: Kind) -> (r: Option<(String, String)>)
    ensures
        match r {
            Some((k, v)) => item_of(*node, marker) == Some(ItemView { key: k@, value: v@ }),
            None => item_of(*node, marker) is None,
        },
{
    let key = find_token_text(&node.children, Kind::Ident);
    let value = find_node_text_after(&node.children, marker);
    match (key, value) {
        (Some(key), Some(value)) => {
            if key.as_str().is_empty() || value.as_str().is_empty() {
                None
            } else {
                Some((key, value))
            }
        },
        _ => None,
    }
}

pub fn extract_runtime_item(node: &SyntaxNode) -> (r: Option<RuntimeItem>)
    ensures
        opt_view(r) == item_of(*node, Kind::Colon),
{
    match extract_keyed(node, Kind::Colon) {
        Some((key, value)) => Some(RuntimeItem { key, value }),
        None => None,
    }
}

pub fn extract_meta_item(node: &SyntaxNode) -> (r: Option<MetaItem>)
    ensures
        opt_view(r) == item_of(*node, Kind::Colon),
{
    match extract_keyed(node, Kind::Colon) {
        Some((key, value)) => Some(MetaItem { key, value }),
        None => None,
    }
}

pub fn extract_call_input_item(node: &SyntaxNode) -> (r: Option<CallInputItem>)
    ensures
        opt_view(r) == item_of(*node, Kind::Assignment),
{
    match extract_keyed(node, Kind::Assignment) {
        Some((name, value)) => Some(CallInputItem { name, value }),
        None => None,
    }
}

/// The declarations among a section's children, in order.
pub fn extract_inputs(node: &SyntaxNode) -> (r: Vec<InputInfo>)
    ensures
        decl_views(r@) == decls_in(node.children@),
{
    let s = &node.children;
    let mut out: Vec<InputInfo> = Vec::new();
    let mut i: usize = 0;
    while i < s.len()
        invariant
            i <= s@.len(),
            decl_views(out@) == decls_in(s@.take(i as int)),
        decreases s@.len() - i,
    {
        proof {
            lemma_take_next(s@, i as int);
        }
        match &s[i] {
            SyntaxElement::Node(n) => {
                if n.kind.is_decl() {
                    match extract_declaration(n) {
                        Some(d) => {
                            proof {
                                lemma_map_push(out@, d, |x: InputInfo| x@);
                            }
                            out.push(d);
                        },
                        None => {},
                    }
                }
            },
            SyntaxElement::Token(_) => {},
        }
        i = i + 1;
    }
    proof {
        assert(s@.take(s@.len() as int) =~= s@);
    }
    out
}

/// The output declarations among a section's children, in order.
pub fn extract_outputs(node: &SyntaxNode) -> (r: Vec<OutputInfo>)
    ensures
        output_views(r@) == outputs_in(node.children@),
{
    let s = &node.children;
    let mut out: Vec<OutputInfo> = Vec::new();
    let mut i: usize = 0;
    while i < s.len()
        invariant
            i <= s@.len(),
            output_views(out@) == outputs_in(s@.take(i as int)),
        decreases s@.len() - i,
    {
        proof {
            lemma_take_next(s@, i as int);
        }
        match &s[i] {
            SyntaxElement::Node(n) => {
                if n.kind == Kind::BoundDeclNode {
                    match extract_output_declaration(n) {
                        Some(d) => {
                            proof {
                                lemma_map_push(out@, d, |x: OutputInfo| x@);
                            }
                            out.push(d);
                        },
                        None => {},
                    }
                }
            },
            SyntaxElement::Token(_) => {},
        }
        i = i + 1;
    }
    proof {
        assert(s@.take(s@.len() as int) =~= s@);
    }
    out
}

/// The runtime items among a section's children, in order.
pub fn extract_runtime_items(node: &SyntaxNode) -> (r: Vec<RuntimeItem>)
    ensures
        runtime_views(r@) == items_in(node.children@, Kind::RuntimeItemNode),
{
    let s = &node.children;
    let mut out: Vec<RuntimeItem> = Vec::new();
    let mut i: usize = 0;
    while i < s.len()
        invariant
            i <= s@.len(),
            runtime_views(out@) == items_in(s@.take(i as int), Kind::RuntimeItemNode),
        decreases s@.len() - i,
    {
        proof {
            lemma_take_next(s@, i as int);
        }
        match &s[i] {
            SyntaxElement::Node(n) => {
                if n.kind == Kind::RuntimeItemNode {
                    match extract_runtime_item(n) {
                        Some(d) => {
                            proof {
                                lemma_map_push(out@, d, |x: RuntimeItem| x@);
                            }
                            out.push(d);
                        },
                        None => {},
                    }
                }
            },
            SyntaxElement::Token(_) => {},
        }
        i = i + 1;
    }
    proof {
        assert(s@.take(s@.len() as int) =~= s@);
    }
    out
}

/// The metadata items among a section's children, in order.
pub fn extract_meta_items(node: &SyntaxNode) -> (r: Vec<MetaItem>)
    ensures
        meta_views(r@) == items_in(node.children@, Kind::MetadataObjectItemNode),
{
    let s = &node.children;
    let mut out: Vec<MetaItem> = Vec::new();
    let mut i: usize = 0;
    while i < s.len()
        invariant
            i <= s@.len(),
            meta_views(out@) == items_in(s@.take(i as int), Kind::MetadataObjectItemNode),
        decreases s@.len() - i,
    {
        proof {
            lemma_take_next(s@, i as int);
        }
        match &s[i] {
            SyntaxElement::Node(n) => {
                if n.kind == Kind::MetadataObjectItemNode {
                    match extract_meta_item(n) {
                        Some(d) => {
                            proof {
                                lemma_map_push(out@, d, |x: MetaItem| x@);
                            }
                            out.push(d);
                        },
                        None => {},
                    }
                }
            },
            SyntaxElement::Token(_) => {},
        }
        i = i + 1;
    }
    proof {
        assert(s@.take(s@.len() as int) =~= s@);
    }
    out
}

/// The call input items among a call's children, in order.
fn extract_call_inputs(node: &SyntaxNode) -> (r: Vec<CallInputItem>)
    ensures
        call_input_views(r@) == call_inputs_in(node.children@),
{
    let s = &node.children;
    let mut out: Vec<CallInputItem> = Vec::new();
    let mut i: usize = 0;
    while i < s.len()
        invariant
            i <= s@.len(),
            call_input_views(out@) == call_inputs_in(s@.take(i as int)),
        decreases s@.len() - i,
    {
        proof {
            lemma_take_next(s@, i as int);
        }
        match &s[i] {
            SyntaxElement::Node(n) => {
                if n.kind == Kind::CallInputItemNode {
                    match extract_call_input_item(n) {
                        Some(d) => {
                            proof {
                                lemma_map_push(out@, d, |x: CallInputItem| x@);
                            }
                            out.push(d);
                        },
                        None => {},
                    }
                }
            },
            SyntaxElement::Token(_) => {},
        }
        i = i + 1;
    }
    proof {
        assert(s@.take(s@.len() as int) =~= s@);
    }
    out
}

pub fn extract_placeholder_expr(node: &SyntaxNode) -> (r: String)
    ensures
        r@ == placeholder_text(*node),
{
    match find_placeholder_expr(&node.children) {
        Some(e) => e.text.clone(),
        None => String::new(),
    }
}

/// The command text of a command section.
pub fn extract_command_text(node: &SyntaxNode) -> (r: String)
    ensures
        r@ == command_text(node.children@),
{
    let s = &node.children;
    let mut out = String::new();
    let mut i: usize = 0;
    while i < s.len()
        invariant
            i <= s@.len(),
            out@ == command_text(s@.take(i as int)),
        decreases s@.len() - i,
    {
        proof {
            lemma_take_next(s@, i as int);
        }
        match &s[i] {
            SyntaxElement::Token(t) => {
                if t.kind == Kind::LiteralCommandText {
                    out.append(t.text.as_str());
                }
            },
            SyntaxElement::Node(n) => {
                if n.kind == Kind::PlaceholderNode {
                    let expr = extract_placeholder_expr(n);
                    proof {
                        reveal_strlit("~{");
                        reveal_strlit("}");
                    }
                    out.append("~{");
                    out.append(expr.as_str());
                    out.append("}");
                }
            },
        }
        i = i + 1;
    }
    proof {
        assert(s@.take(s@.len() as int) =~= s@);
    }
    out
}

pub proof fn lemma_concat_empty<A>(a: Seq<A>)
    ensures
        a + Seq::<A>::empty() == a,
{
    assert(a + Seq::<A>::empty() =~= a);
}

pub fn extract_call_info(node: &SyntaxNode) -> (r: Option<CallInfo>)
    ensures
        opt_view(r) == call_of(*node),
{
    let target = match find_node_of(&node.children, Kind::CallTargetNode) {
        Some(t) => find_identifier_name(t),
        None => None,
    };
    let alias = match find_node_of(&node.children, Kind::CallAliasNode) {
        Some(a) => find_identifier_name(a),
        None => None,
    };
    let target = match target {
        Some(t) => t,
        None => return None,
    };
    if target.as_str().is_empty() {
        return None;
    }
    let name = match &alias {
        Some(a) => a.clone(),
        None => target.clone(),
    };
    let inputs = extract_call_inputs(node);
    Some(CallInfo { name, target, alias, inputs })
}

pub fn extract_task_info(node: &SyntaxNode) -> (r: Option<TaskInfo>)
    ensures
        opt_view(r) == task_of(*node),
{
    let name = match find_identifier_name(node) {
        Some(name) => name,
        None => return None,
    };
    let s = &node.children;
    let mut inputs: Vec<InputInfo> = Vec::new();
    let mut outputs: Vec<OutputInfo> = Vec::new();
    let mut command: Option<String> = None;
    let mut runtime: Vec<RuntimeItem> = Vec::new();
    let mut meta: Vec<MetaItem> = Vec::new();
    let mut parameter_meta: Vec<MetaItem> = Vec::new();
    let mut i: usize = 0;
    while i < s.len()
        invariant
            i <= s@.len(),
            decl_views(inputs@) == section_decls(s@.take(i as int), Kind::InputSectionNode),
            output_views(outputs@) == section_outputs(s@.take(i as int)),
            command.deep_view() == last_command(s@.take(i as int)),
            runtime_views(runtime@) == section_items(
                s@.take(i as int),
                Kind::RuntimeSectionNode,
                Kind::RuntimeItemNode,
            ),
            meta_views(meta@) == section_items(
                s@.take(i as int),
                Kind::MetadataSectionNode,
                Kind::MetadataObjectItemNode,
            ),
            meta_views(parameter_meta@) == section_items(
                s@.take(i as int),
                Kind::ParameterMetadataSectionNode,
                Kind::MetadataObjectItemNode,
            ),
        decreases s@.len() - i,
    {
        proof {
            lemma_take_next(s@, i as int);
            lemma_concat_empty(decl_views(inputs@));
            lemma_concat_empty(output_views(outputs@));
            lemma_concat_empty(runtime_views(runtime@));
            lemma_concat_empty(meta_views(meta@));
            lemma_concat_empty(meta_views(parameter_meta@));
        }
        match &s[i] {
            SyntaxElement::Node(n) => {
                if n.kind == Kind::InputSectionNode {
                    let mut v = extract_inputs(n);
                    proof {
                        lemma_map_concat(inputs@, v@, |x: InputInfo| x@);
                    }
                    inputs.append(&mut v);
                } else if n.kind == Kind::OutputSectionNode {
                    let mut v = extract_outputs(n);
                    proof {
                        lemma_map_concat(outputs@, v@, |x: OutputInfo| x@);
                    }
                    outputs.append(&mut v);
                } else if n.kind == Kind::CommandSectionNode {
                    command = Some(extract_command_text(n));
                } else if n.kind == Kind::RuntimeSectionNode {
                    let mut v = extract_runtime_items(n);
                    proof {
                        lemma_map_concat(runtime@, v@, |x: RuntimeItem| x@);
                    }
                    runtime.append(&mut v);
                } else if n.kind == Kind::MetadataSectionNode {
                    let mut v = extract_meta_items(n);
                    proof {
                        lemma_map_concat(meta@, v@, |x: MetaItem| x@);
                    }
                    meta.append(&mut v);
                } else if n.kind == Kind::ParameterMetadataSectionNode {
                    let mut v = extract_meta_items(n);
                    proof {
                        lemma_map_concat(parameter_meta@, v@, |x: MetaItem| x@);
                    }
                    parameter_meta.append(&mut v);
                }
            },
            SyntaxElement::Token(_) => {},
        }
        i = i + 1;
    }
    proof {
        assert(s@.take(s@.len() as int) =~= s@);
    }
    Some(TaskInfo { name, inputs, outputs, command, runtime, meta, parameter_meta })
}

pub fn extract_workflow_info(node: &SyntaxNode) -> (r: Option<WorkflowInfo>)
    ensures
        opt_view(r) == workflow_of(*node),
{
    let name = match find_identifier_name(node) {
        Some(name) => name,
        None => return None,
    };
    let s = &node.children;
    let mut inputs: Vec<InputInfo> = Vec::new();
    let mut outputs: Vec<OutputInfo> = Vec::new();
    let mut calls: Vec<CallInfo> = Vec::new();
    let mut meta: Vec<MetaItem> = Vec::new();
    let mut parameter_meta: Vec<MetaItem> = Vec::new();
    let mut i: usize = 0;
    while i < s.len()
        invariant
            i <= s@.len(),
            decl_views(inputs@) == section_decls(s@.take(i as int), Kind::InputSectionNode),
            output_views(outputs@) == section_outputs(s@.take(i as int)),
            call_views(calls@) == calls_in(s@.take(i as int)),
            meta_views(meta@) == section_items(
                s@.take(i as int),
                Kind::MetadataSectionNode,
                Kind::MetadataObjectItemNode,
            ),
            meta_views(parameter_meta@) == section_items(
                s@.take(i as int),
                Kind::ParameterMetadataSectionNode,
                Kind::MetadataObjectItemNode,
            ),
        decreases s@.len() - i,
    {
        proof {
            lemma_take_next(s@, i as int);
            lemma_concat_empty(decl_views(inputs@));
            lemma_concat_empty(output_views(outputs@));
            lemma_concat_empty(meta_views(meta@));
            lemma_concat_empty(meta_views(parameter_meta@));
        }
        match &s[i] {
            SyntaxElement::Node(n) => {
                if n.kind == Kind::InputSectionNode {
                    let mut v = extract_inputs(n);
                    proof {
                        lemma_map_concat(inputs@, v@, |x: InputInfo| x@);
                    }
                    inputs.append(&mut v);
                } else if n.kind == Kind::OutputSectionNode {
                    let mut v = extract_outputs(n);
                    proof {
                        lemma_map_concat(outputs@, v@, |x: OutputInfo| x@);
                    }
                    outputs.append(&mut v);
                } else if n.kind == Kind::CallStatementNode {
                    match extract_call_info(n) {
                        Some(c) => {
                            proof {
                                lemma_map_push(calls@, c, |x: CallInfo| x@);
                            }
                            calls.push(c);
                        },
                        None => {},
                    }
                } else if n.kind == Kind::MetadataSectionNode {
                    let mut v = extract_meta_items(n);
                    proof {
                        lemma_map_concat(meta@, v@, |x: MetaItem| x@);
                    }
                    meta.append(&mut v);
                } else if n.kind == Kind::ParameterMetadataSectionNode {
                    let mut v = extract_meta_items(n);
                    proof {
                        lemma_map_concat(parameter_meta@, v@, |x: MetaItem| x@);
                    }
                    parameter_meta.append(&mut v);
                }
            },
            SyntaxElement::Token(_) => {},
        }
        i = i + 1;
    }
    proof {
        assert(s@.take(s@.len() as int) =~= s@);
    }
    Some(WorkflowInfo { name, inputs, outputs, calls, meta, parameter_meta })
}

pub fn extract_struct_info(node: &SyntaxNode) -> (r: Option<StructInfo>)
    ensures
        opt_view(r) == struct_of(*node),
{
    let name = match find_identifier_name(node) {
        Some(name) => name,
        None => return None,
    };
    let fields = extract_inputs(node);
    Some(StructInfo { name, fields })
}

pub fn extract_import_info(node: &SyntaxNode) -> (r: Option<ImportInfo>)
    ensures
        opt_view(r) == import_of(*node),
{
    let uri = match find_node_of(&node.children, Kind::LiteralStringNode) {
        Some(l) => match find_token_text(&l.children, Kind::LiteralStringText) {
            Some(t) => t,
            None => String::new(),
        },
        None => String::new(),
    };
    if uri.as_str().is_empty() {
        return None;
    }
    let alias = find_token_text_after(&node.children, Kind::AsKeyword, Kind::Ident);
    Some(ImportInfo { uri, alias })
}

/// Adds to `info` what `node` itself contributes, before its children.
fn visit_node(node: &SyntaxNode, info: &mut WdlInfo)
    ensures
        final(info)@ == visit(*node, old(info)@),
{
    if node.kind == Kind::VersionStatementNode {
        match find_token_text(&node.children, Kind::Version) {
            Some(v) => {
                info.version = Some(v);
            },
            None => {},
        }
    } else if node.kind == Kind::TaskDefinitionNode {
        match extract_task_info(node) {
            Some(t) => {
                proof {
                    lemma_map_push(info.tasks@, t, |x: TaskInfo| x@);
                }
                info.tasks.push(t);
            },
            None => {},
        }
    } else if node.kind == Kind::WorkflowDefinitionNode {
        match extract_workflow_info(node) {
            Some(w) => {
                proof {
                    lemma_map_push(info.workflows@, w, |x: WorkflowInfo| x@);
                }
                info.workflows.push(w);
            },
            None => {},
        }
    } else if node.kind == Kind::StructDefinitionNode {
        match extract_struct_info(node) {
            Some(t) => {
                proof {
                    lemma_map_push(info.structs@, t, |x: StructInfo| x@);
                }
                info.structs.push(t);
            },
            None => {},
        }
    } else if node.kind == Kind::ImportStatementNode {
        match extract_import_info(node) {
            Some(m) => {
                proof {
                    lemma_map_push(info.imports@, m, |x: ImportInfo| x@);
                }
                info.imports.push(m);
            },
            None => {},
        }
    }
}

/// Walks `node` depth-first, adding every entity found to `info` in source order.
pub fn collect_semantic_info(node: &SyntaxNode, info: &mut WdlInfo)
    ensures
        final(info)@ == collect_node(*node, old(info)@),
    decreases node,
{
    visit_node(node, info);
    let s = &node.children;
    let mut i: usize = 0;
    proof {
        assert(s@.skip(0) =~= s@);
    }
    while i < s.len()
        invariant
            i <= s@.len(),
            s@ == node.children@,
            collect_node(*node, old(info)@) == collect_children(s@.skip(i as int), info@),
        decreases s@.len() - i,
    {
        proof {
            lemma_skip_next(s@, i as int);
        }
        match &s[i] {
            SyntaxElement::Node(n) => {
                proof {
                    broadcast use vstd::std_specs::vec::axiom_vec_decreases_to_view;

                    let ghost e = s@[i as int];
                    assert(e == SyntaxElement::Node(*n));
                    assert(decreases_to!(*node => node.children));
                    assert(decreases_to!(node.children => node.children@));
                    assert(s@ == node.children@);
                    assert(decreases_to!(s@ => e));
                    assert(decreases_to!(e => e->Node_0));
                }
                collect_semantic_info(n, info);
            },
            SyntaxElement::Token(_) => {},
        }
        i = i + 1;
    }
}

/// The semantic model of the tree rooted at `node`.
pub fn extract_semantic_info(node: &SyntaxNode) -> (r: WdlInfo)
    ensures
        r@ == collect_node(*node, empty_model()),
{
    let mut info = WdlInfo::new();
    collect_semantic_info(node, &mut info);
    info
}

/// A declaration is optional exactly when its type text holds `?` somewhere.
pub proof fn lemma_optional_iff_question_mark(n: SyntaxNode)
    requires
        decl_of(n) is Some,
    ensures
        decl_of(n)->Some_0.optional <==> decl_of(n)->Some_0.wdl_type.contains('?'),
{
}

/// A named bound declaration with no node after its assignment token is
/// still extracted, with no default value.
pub proof fn lemma_bound_without_expression(n: SyntaxNode)
    requires
        n.kind == Kind::BoundDeclNode,
        node_text_after(n.children@, Kind::Assignment) is None,
        first_token_text(n.children@, Kind::Ident) matches Some(x) && x.len() > 0,
    ensures
        decl_of(n) matches Some(d) && d.default_value is None,
{
}

proof fn lemma_no_marker_no_token_after(s: Seq<SyntaxElement>, m: Kind, k: Kind)
    requires
        forall|i: int| 0 <= i < s.len() ==> !is_token_of(#[trigger] s[i], m),
    ensures
        token_text_after(s, m, k) is None,
    decreases s.len(),
{
    if s.len() > 0 {
        assert(!is_token_of(s[0], m));
        assert forall|i: int| 0 <= i < s.drop_first().len() implies !is_token_of(
            #[trigger] s.drop_first()[i],
            m,
        ) by {
            assert(s.drop_first()[i] == s[i + 1]);
        }
        lemma_no_marker_no_token_after(s.drop_first(), m, k);
    }
}

proof fn lemma_first_token_at(s: Seq<SyntaxElement>, k: Kind, j: int)
    requires
        0 <= j < s.len(),
        is_token_of(s[j], k),
        forall|i: int| 0 <= i < j ==> !is_token_of(#[trigger] s[i], k),
    ensures
        first_token_text(s, k) == Some(s[j]->Token_0.text@),
    decreases j,
{
    if j > 0 {
        assert(!is_token_of(s[0], k));
        assert forall|i: int| 0 <= i < j - 1 implies !is_token_of(#[trigger] s.drop_first()[i], k) by {
            assert(s.drop_first()[i] == s[i + 1]);
        }
        lemma_first_token_at(s.drop_first(), k, j - 1);
    }
}

proof fn lemma_token_after_at(s: Seq<SyntaxElement>, m: Kind, k: Kind, i: int, j: int)
    requires
        0 <= i < j < s.len(),
        is_token_of(s[i], m),
        forall|t: int| 0 <= t < i ==> !is_token_of(#[trigger] s[t], m),
        is_token_of(s[j], k),
        forall|t: int| i < t < j ==> !is_token_of(#[trigger] s[t], k),
    ensures
        token_text_after(s, m, k) == Some(s[j]->Token_0.text@),
    decreases i,
{
    if i > 0 {
        assert(!is_token_of(s[0], m));
        let r = s.drop_first();
        assert forall|t: int| 0 <= t < i - 1 implies !is_token_of(#[trigger] r[t], m) by {
            assert(r[t] == s[t + 1]);
        }
        assert forall|t: int| i - 1 < t < j - 1 implies !is_token_of(#[trigger] r[t], k) by {
            assert(r[t] == s[t + 1]);
        }
        lemma_token_after_at(r, m, k, i - 1, j - 1);
    } else {
        let r = s.drop_first();
        assert forall|t: int| 0 <= t < j - 1 implies !is_token_of(#[trigger] r[t], k) by {
            assert(r[t] == s[t + 1]);
        }
        lemma_first_token_at(r, k, j - 1);
    }
}

/// An import with `as alias` has that alias: the first identifier token after
/// its first `as` token. An import without an `as` token has none.
pub proof fn lemma_import_alias(n: SyntaxNode, i: int, j: int)
    requires
        import_of(n) is Some,
        0 <= i < j < n.children@.len(),
        is_token_of(n.children@[i], Kind::AsKeyword),
        forall|t: int| 0 <= t < i ==> !is_token_of(#[trigger] n.children@[t], Kind::AsKeyword),
        is_token_of(n.children@[j], Kind::Ident),
        forall|t: int| i < t < j ==> !is_token_of(#[trigger] n.children@[t], Kind::Ident),
    ensures
        import_of(n)->Some_0.alias == Some(n.children@[j]->Token_0.text@),
{
    lemma_token_after_at(n.children@, Kind::AsKeyword, Kind::Ident, i, j);
}

/// An import without an `as` token has no alias.
pub proof fn lemma_import_without_alias(n: SyntaxNode)
    requires
        import_of(n) is Some,
        forall|t: int|
            0 <= t < n.children@.len() ==> !is_token_of(#[trigger] n.children@[t], Kind::AsKeyword),
    ensures
        import_of(n)->Some_0.alias is None,
{
    lemma_no_marker_no_token_after(n.children@, Kind::AsKeyword, Kind::Ident);
}

/// The nodes of the tree at `n` in depth-first pre-order, which is source order.
pub open spec fn preorder(n: SyntaxNode) -> Seq<SyntaxNode>
    decreases n,
{
    seq![n] + preorder_children(n.children@)
}

pub open spec fn preorder_children(s: Seq<SyntaxElement>) -> Seq<SyntaxNode>
    decreases s,
{
    if s.len() == 0 {
        Seq::empty()
    } else {
        (match s[0] {
            SyntaxElement::Node(m) => preorder(m),
            SyntaxElement::Token(_) => Seq::empty(),
        }) + preorder_children(s.drop_first())
    }
}

/// The values `f` has on the nodes of `s`, in order, where it has one.
pub open spec fn pick<V>(s: Seq<SyntaxNode>, f: spec_fn(SyntaxNode) -> Option<V>) -> Seq<V>
    decreases s.len(),
{
    if s.len() == 0 {
        Seq::empty()
    } else {
        let rest = pick(s.drop_last(), f);
        match f(s.last()) {
            Some(v) => rest.push(v),
            None => rest,
        }
    }
}

pub open spec fn tasks_among(s: Seq<SyntaxNode>) -> Seq<TaskView> {
    pick(s, |m: SyntaxNode| if m.kind == Kind::TaskDefinitionNode { task_of(m) } else { None })
}

pub open spec fn workflows_among(s: Seq<SyntaxNode>) -> Seq<WorkflowView> {
    pick(
        s,
        |m: SyntaxNode|
            if m.kind == Kind::WorkflowDefinitionNode {
                workflow_of(m)
            } else {
                None
            },
    )
}

pub open spec fn structs_among(s: Seq<SyntaxNode>) -> Seq<StructView> {
    pick(
        s,
        |m: SyntaxNode|
            if m.kind == Kind::StructDefinitionNode {
                struct_of(m)
            } else {
                None
            },
    )
}

pub open spec fn imports_among(s: Seq<SyntaxNode>) -> Seq<ImportView> {
    pick(
        s,
        |m: SyntaxNode|
            if m.kind == Kind::ImportStatementNode {
                import_of(m)
            } else {
                None
            },
    )
}

proof fn lemma_pick_concat<V>(a: Seq<SyntaxNode>, b: Seq<SyntaxNode>, f: spec_fn(SyntaxNode) -> Option<V>)
    ensures
        pick(a + b, f) == pick(a, f) + pick(b, f),
    decreases b.len(),
{
    if b.len() == 0 {
        assert(a + b =~= a);
        assert(pick(a, f) + pick(b, f) =~= pick(a, f));
    } else {
        assert((a + b).drop_last() =~= a + b.drop_last());
        lemma_pick_concat(a, b.drop_last(), f);
        assert((a + b).last() == b.last());
        match f(b.last()) {
            Some(v) => {
                assert(pick(a, f) + pick(b.drop_last(), f).push(v) =~= (pick(a, f) + pick(
                    b.drop_last(),
                    f,
                )).push(v));
            },
            None => {},
        }
    }
}

proof fn lemma_order_step(n: SyntaxNode, acc: WdlView)
    ensures
        visit(n, acc).tasks == acc.tasks + tasks_among(seq![n]),
        visit(n, acc).workflows == acc.workflows + workflows_among(seq![n]),
        visit(n, acc).structs == acc.structs + structs_among(seq![n]),
        visit(n, acc).imports == acc.imports + imports_among(seq![n]),
{
    assert(seq![n].drop_last() =~= Seq::<SyntaxNode>::empty());
    assert(seq![n].last() == n);
    assert(acc.tasks + Seq::<TaskView>::empty() =~= acc.tasks);
    assert(acc.workflows + Seq::<WorkflowView>::empty() =~= acc.workflows);
    assert(acc.structs + Seq::<StructView>::empty() =~= acc.structs);
    assert(acc.imports + Seq::<ImportView>::empty() =~= acc.imports);
    assert(tasks_among(Seq::<SyntaxNode>::empty()) == Seq::<TaskView>::empty());
    assert(workflows_among(Seq::<SyntaxNode>::empty()) == Seq::<WorkflowView>::empty());
    if n.kind == Kind::TaskDefinitionNode && task_of(n) is Some {
        let t = task_of(n)->Some_0;
        assert(tasks_among(seq![n]) == Seq::<TaskView>::empty().push(t));
        assert(acc.tasks.push(t) =~= acc.tasks + seq![t]);
        assert(Seq::<TaskView>::empty().push(t) =~= seq![t]);
    } else {
        assert(tasks_among(seq![n]) == Seq::<TaskView>::empty());
    }
    if n.kind == Kind::WorkflowDefinitionNode && workflow_of(n) is Some {
        let t = workflow_of(n)->Some_0;
        assert(workflows_among(seq![n]) == Seq::<WorkflowView>::empty().push(t));
        assert(acc.workflows.push(t) =~= acc.workflows + seq![t]);
        assert(Seq::<WorkflowView>::empty().push(t) =~= seq![t]);
    } else {
        assert(workflows_among(seq![n]) == Seq::<WorkflowView>::empty());
    }
    assert(structs_among(Seq::<SyntaxNode>::empty()) == Seq::<StructView>::empty());
    assert(imports_among(Seq::<SyntaxNode>::empty()) == Seq::<ImportView>::empty());
    if n.kind == Kind::StructDefinitionNode && struct_of(n) is Some {
        let t = struct_of(n)->Some_0;
        assert(structs_among(seq![n]) == Seq::<StructView>::empty().push(t));
        assert(acc.structs.push(t) =~= acc.structs + seq![t]);
        assert(Seq::<StructView>::empty().push(t) =~= seq![t]);
    } else {
        assert(structs_among(seq![n]) == Seq::<StructView>::empty());
    }
    if n.kind == Kind::ImportStatementNode && import_of(n) is Some {
        let t = import_of(n)->Some_0;
        assert(imports_among(seq![n]) == Seq::<ImportView>::empty().push(t));
        assert(acc.imports.push(t) =~= acc.imports + seq![t]);
        assert(Seq::<ImportView>::empty().push(t) =~= seq![t]);
    } else {
        assert(imports_among(seq![n]) == Seq::<ImportView>::empty());
    }
}

/// Every entity list of the model keeps source order: walking `n` appends
/// to each list the entities of the tree's nodes in pre-order, and nothing
/// else.
pub proof fn lemma_source_order(n: SyntaxNode, acc: WdlView)
    ensures
        collect_node(n, acc).tasks == acc.tasks + tasks_among(preorder(n)),
        collect_node(n, acc).workflows == acc.workflows + workflows_among(preorder(n)),
        collect_node(n, acc).structs == acc.structs + structs_among(preorder(n)),
        collect_node(n, acc).imports == acc.imports + imports_among(preorder(n)),
    decreases n,
{
    let v = visit(n, acc);
    let c = preorder_children(n.children@);
    lemma_order_step(n, acc);
    lemma_source_order_children(n.children@, v);
    lemma_pick_concat(seq![n], c, |m: SyntaxNode| if m.kind == Kind::TaskDefinitionNode { task_of(m) } else { None });
    lemma_pick_concat(
        seq![n],
        c,
        |m: SyntaxNode|
            if m.kind == Kind::WorkflowDefinitionNode {
                workflow_of(m)
            } else {
                None
            },
    );
    lemma_pick_concat(
        seq![n],
        c,
        |m: SyntaxNode|
            if m.kind == Kind::StructDefinitionNode {
                struct_of(m)
            } else {
                None
            },
    );
    lemma_pick_concat(
        seq![n],
        c,
        |m: SyntaxNode|
            if m.kind == Kind::ImportStatementNode {
                import_of(m)
            } else {
                None
            },
    );
    assert(acc.tasks + tasks_among(seq![n]) + tasks_among(c) =~= acc.tasks + (tasks_among(seq![n]) + tasks_among(c)));
    assert(acc.workflows + workflows_among(seq![n]) + workflows_among(c) =~= acc.workflows + (
    workflows_among(seq![n]) + workflows_among(c)));
    assert(acc.structs + structs_among(seq![n]) + structs_among(c) =~= acc.structs + (
    structs_among(seq![n]) + structs_among(c)));
    assert(acc.imports + imports_among(seq![n]) + imports_among(c) =~= acc.imports + (
    imports_among(seq![n]) + imports_among(c)));
}

pub proof fn lemma_source_order_children(s: Seq<SyntaxElement>, acc: WdlView)
    ensures
        collect_children(s, acc).tasks == acc.tasks + tasks_among(preorder_children(s)),
        collect_children(s, acc).workflows == acc.workflows + workflows_among(preorder_children(s)),
        collect_children(s, acc).structs == acc.structs + structs_among(preorder_children(s)),
        collect_children(s, acc).imports == acc.imports + imports_among(preorder_children(s)),
    decreases s,
{
    if s.len() == 0 {
        assert(acc.tasks + Seq::<TaskView>::empty() =~= acc.tasks);
        assert(acc.workflows + Seq::<WorkflowView>::empty() =~= acc.workflows);
        assert(acc.structs + Seq::<StructView>::empty() =~= acc.structs);
        assert(acc.imports + Seq::<ImportView>::empty() =~= acc.imports);
    } else {
        let head = match s[0] {
            SyntaxElement::Node(m) => preorder(m),
            SyntaxElement::Token(_) => Seq::empty(),
        };
        let next = match s[0] {
            SyntaxElement::Node(m) => collect_node(m, acc),
            SyntaxElement::Token(_) => acc,
        };
        let rest = preorder_children(s.drop_first());
        match s[0] {
            SyntaxElement::Node(m) => {
                lemma_source_order(m, acc);
            },
            SyntaxElement::Token(_) => {
                assert(acc.tasks + Seq::<TaskView>::empty() =~= acc.tasks);
                assert(acc.workflows + Seq::<WorkflowView>::empty() =~= acc.workflows);
                assert(acc.structs + Seq::<StructView>::empty() =~= acc.structs);
                assert(acc.imports + Seq::<ImportView>::empty() =~= acc.imports);
            },
        }
        lemma_source_order_children(s.drop_first(), next);
        lemma_pick_concat(head, rest, |m: SyntaxNode| if m.kind == Kind::TaskDefinitionNode { task_of(m) } else { None });
        lemma_pick_concat(
            head,
            rest,
            |m: SyntaxNode|
                if m.kind == Kind::WorkflowDefinitionNode {
                    workflow_of(m)
                } else {
                    None
                },
        );
        lemma_pick_concat(
            head,
            rest,
            |m: SyntaxNode|
                if m.kind == Kind::StructDefinitionNode {
                    struct_of(m)
                } else {
                    None
                },
        );
        lemma_pick_concat(
            head,
            rest,
            |m: SyntaxNode|
                if m.kind == Kind::ImportStatementNode {
                    import_of(m)
                } else {
                    None
                },
        );
        assert(acc.tasks + tasks_among(head) + tasks_among(rest) =~= acc.tasks + (tasks_among(head) + tasks_among(rest)));
        assert(acc.workflows + workflows_among(head) + workflows_among(rest) =~= acc.workflows + (
        workflows_among(head) + workflows_among(rest)));
        assert(acc.structs + structs_among(head) + structs_among(rest) =~= acc.structs + (
        structs_among(head) + structs_among(rest)));
        assert(acc.imports + imports_among(head) + imports_among(rest) =~= acc.imports + (
        imports_among(head) + imports_among(rest)));
    }
}

} // verus!
