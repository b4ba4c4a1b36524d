//! The concrete syntax tree that the extractors walk: nodes with a kind, their
//! full covered text and an ordered list of children, each a node or a token.

use vstd::prelude::*;

verus! {

/// The kinds of syntax elements that the extractors tell apart; every other
/// kind of the grammar is `Other`.
#[derive(PartialEq, Eq, Structural, Clone, Copy, Debug)]
pub enum Kind {
    Ident,
    Version,
    Assignment,
    Colon,
    AsKeyword,
    LiteralStringText,
    LiteralCommandText,
    VersionStatementNode,
    TaskDefinitionNode,
    WorkflowDefinitionNode,
    StructDefinitionNode,
    ImportStatementNode,
    InputSectionNode,
    OutputSectionNode,
    CommandSectionNode,
    RuntimeSectionNode,
    MetadataSectionNode,
    ParameterMetadataSectionNode,
    UnboundDeclNode,
    BoundDeclNode,
    PrimitiveTypeNode,
    ArrayTypeNode,
    MapTypeNode,
    PairTypeNode,
    ObjectTypeNode,
    TypeRefNode,
    LiteralStringNode,
    PlaceholderNode,
    NameRefExprNode,
    AccessExprNode,
    CallExprNode,
    RuntimeItemNode,
    MetadataObjectItemNode,
    CallStatementNode,
    CallTargetNode,
    CallAliasNode,
    CallInputItemNode,
    ConditionalStatementNode,
    ScatterStatementNode,
    Other,
}

/// A terminal element of the tree.
pub struct SyntaxToken {
    pub kind: Kind,
    pub text: String,
}

/// A child of a node: either a node or a token.
pub enum SyntaxElement {
    Node(SyntaxNode),
    Token(SyntaxToken),
}

/// An inner element of the tree; `text` is the source text it covers.
pub struct SyntaxNode {
    pub kind: Kind,
    pub text: String,
    pub children: Vec<SyntaxElement>,
}

/// Kinds of the nodes that spell a declared type.
pub open spec fn is_type_kind(k: Kind) -> bool {
    k == Kind::PrimitiveTypeNode || k == Kind::ArrayTypeNode || k == Kind::MapTypeNode
        || k == Kind::PairTypeNode || k == Kind::ObjectTypeNode || k == Kind::TypeRefNode
}

/// Kinds of the expressions that a command placeholder renders.
pub open spec fn is_placeholder_expr_kind(k: Kind) -> bool {
    k == Kind::NameRefExprNode || k == Kind::AccessExprNode || k == Kind::CallExprNode
}

/// Kinds of the declaration nodes.
pub open spec fn is_decl_kind(k: Kind) -> bool {
    k == Kind::UnboundDeclNode || k == Kind::BoundDeclNode
}

pub open spec fn is_token_of(e: SyntaxElement, k: Kind) -> bool {
    e is Token && e->Token_0.kind == k
}

pub open spec fn is_node_of(e: SyntaxElement, k: Kind) -> bool {
    e is Node && e->Node_0.kind == k
}

/// Text of the first token of kind `k` in `s`.
pub open spec fn first_token_text(s: Seq<SyntaxElement>, k: Kind) -> Option<Seq<char>>
    decreases s.len(),
{
    if s.len() == 0 {
        None
    } else if is_token_of(s[0], k) {
        Some(s[0]->Token_0.text@)
    } else {
        first_token_text(s.drop_first(), k)
    }
}

/// Text of the first node in `s`.
pub open spec fn first_node_text(s: Seq<SyntaxElement>) -> Option<Seq<char>>
    decreases s.len(),
{
    if s.len() == 0 {
        None
    } else if s[0] is Node {
        Some(s[0]->Node_0.text@)
    } else {
        first_node_text(s.drop_first())
    }
}

/// Text of the first node that follows the first token of kind `k` in `s`.
pub open spec fn node_text_after(s: Seq<SyntaxElement>, k: Kind) -> Option<Seq<char>>
    decreases s.len(),
{
    if s.len() == 0 {
        None
    } else if is_token_of(s[0], k) {
        first_node_text(s.drop_first())
    } else {
        node_text_after(s.drop_first(), k)
    }
}

/// Text of the first token of kind `k` among `s` from position `i` on.
fn find_token_text_from(s: &Vec<SyntaxElement>, i: usize, k: Kind) -> (r: Option<String>)
    requires
        i <= s@.len(),
    ensures
        r.deep_view() == first_token_text(s@.skip(i as int), k),
{
    let mut j: usize = i;
    while j < s.len()
        invariant
            i <= j <= s@.len(),
            first_token_text(s@.skip(i as int), k) == first_token_text(s@.skip(j as int), k),
        decreases s@.len() - j,
    {
        proof {
            lemma_skip_next(s@, j as int);
        }
        match &s[j] {
            SyntaxElement::Token(t) => {
                if t.kind == k {
                    return Some(t.text.clone());
                }
            },
            SyntaxElement::Node(_) => {},
        }
        j = j + 1;
    }
    None
}

/// Text of the first token of kind `k` that follows a token of kind `m` in `s`.
pub open spec fn token_text_after(s: Seq<SyntaxElement>, m: Kind, k: Kind) -> Option<Seq<char>>
    decreases s.len(),
{
    if s.len() == 0 {
        None
    } else if is_token_of(s[0], m) {
        first_token_text(s.drop_first(), k)
    } else {
        token_text_after(s.drop_first(), m, k)
    }
}

/// The first node of kind `k` in `s`.
pub open spec fn first_node_of(s: Seq<SyntaxElement>, k: Kind) -> Option<SyntaxNode>
    decreases s.len(),
{
    if s.len() == 0 {
        None
    } else if is_node_of(s[0], k) {
        Some(s[0]->Node_0)
    } else {
        first_node_of(s.drop_first(), k)
    }
}

/// The first node in `s` whose kind spells a type.
pub open spec fn first_type_node(s: Seq<SyntaxElement>) -> Option<SyntaxNode>
    decreases s.len(),
{
    if s.len() == 0 {
        None
    } else if s[0] is Node && is_type_kind(s[0]->Node_0.kind) {
        Some(s[0]->Node_0)
    } else {
        first_type_node(s.drop_first())
    }
}

/// The first node in `s` that a command placeholder renders.
pub open spec fn first_placeholder_expr(s: Seq<SyntaxElement>) -> Option<SyntaxNode>
    decreases s.len(),
{
    if s.len() == 0 {
        None
    } else if s[0] is Node && is_placeholder_expr_kind(s[0]->Node_0.kind) {
        Some(s[0]->Node_0)
    } else {
        first_placeholder_expr(s.drop_first())
    }
}

pub proof fn lemma_skip_next<T>(s: Seq<T>, i: int)
    requires
        0 <= i < s.len(),
    ensures
        s.skip(i).len() > 0,
        s.skip(i)[0] == s[i],
        s.skip(i).drop_first() == s.skip(i + 1),
{
    assert(s.skip(i).drop_first() =~= s.skip(i + 1));
}

pub proof fn lemma_take_next<T>(s: Seq<T>, i: int)
    requires
        0 <= i < s.len(),
    ensures
        s.take(i + 1).len() == i + 1,
        s.take(i + 1).drop_last() == s.take(i),
        s.take(i + 1).last() == s[i],
{
    assert(s.take(i + 1).drop_last() =~= s.take(i));
}

/// The values that `f` gives on the nodes of `s`, in order, where it gives one.
pub open spec fn filter_map_nodes<V>(s: Seq<SyntaxElement>, f: spec_fn(SyntaxNode) -> Option<V>) -> Seq<V>
    decreases s.len(),
{
    if s.len() == 0 {
        Seq::empty()
    } else {
        let rest = filter_map_nodes(s.drop_last(), f);
        if s.last() is Node && f(s.last()->Node_0) is Some {
            rest.push(f(s.last()->Node_0)->Some_0)
        } else {
            rest
        }
    }
}

/// The sequences that `f` gives on the nodes of `s`, concatenated in order.
pub open spec fn flat_map_nodes<V>(s: Seq<SyntaxElement>, f: spec_fn(SyntaxNode) -> Seq<V>) -> Seq<V>
    decreases s.len(),
{
    if s.len() == 0 {
        Seq::empty()
    } else {
        let rest = flat_map_nodes(s.drop_last(), f);
        if s.last() is Node {
            rest + f(s.last()->Node_0)
        } else {
            rest
        }
    }
}

impl Kind {
    pub fn is_type(&self) -> (r: bool)
        ensures
            r == is_type_kind(*self),
    {
        match self {
            Kind::PrimitiveTypeNode | Kind::ArrayTypeNode | Kind::MapTypeNode | Kind::PairTypeNode
            | Kind::ObjectTypeNode | Kind::TypeRefNode => true,
            _ => false,
        }
    }

    pub fn is_placeholder_expr(&self) -> (r: bool)
        ensures
            r == is_placeholder_expr_kind(*self),
    {
        match self {
            Kind::NameRefExprNode | Kind::AccessExprNode | Kind::CallExprNode => true,
            _ => false,
        }
    }

    pub fn is_decl(&self) -> (r: bool)
        ensures
            r == is_decl_kind(*self),
    {
        match self {
            Kind::UnboundDeclNode | Kind::BoundDeclNode => true,
            _ => false,
        }
    }
}

/// Text of the first token of kind `k` among `s`.
pub fn find_token_text(s: &Vec<SyntaxElement>, k: Kind) -> (r: Option<String>)
    ensures
        r.deep_view() == first_token_text(s@, k),
{
    proof {
        assert(s@.skip(0) =~= s@);
    }
    find_token_text_from(s, 0, k)
}

/// Text of the first node among `s` from position `i` on.
fn find_node_text_from(s: &Vec<SyntaxElement>, i: usize) -> (r: Option<String>)
    requires
        i <= s@.len(),
    ensures
        r.deep_view() == first_node_text(s@.skip(i as int)),
{
    let mut j: usize = i;
    while j < s.len()
        invariant
            i <= j <= s@.len(),
            first_node_text(s@.skip(i as int)) == first_node_text(s@.skip(j as int)),
        decreases s@.len() - j,
    {
        proof {
            lemma_skip_next(s@, j as int);
        }
        match &s[j] {
            SyntaxElement::Node(n) => {
                return Some(n.text.clone());
            },
            SyntaxElement::Token(_) => {},
        }
        j = j + 1;
    }
    None
}

/// Text of the first node that follows the first token of kind `k` among `s`.
pub fn find_node_text_after(s: &Vec<SyntaxElement>, k: Kind) -> (r: Option<String>)
    ensures
        r.deep_view() == node_text_after(s@, k),
{
    let mut i: usize = 0;
    proof {
        assert(s@.skip(0) =~= s@);
    }
    while i < s.len()
        invariant
            i <= s@.len(),
            node_text_after(s@, k) == node_text_after(s@.skip(i as int), k),
        decreases s@.len() - i,
    {
        proof {
            lemma_skip_next(s@, i as int);
        }
        match &s[i] {
            SyntaxElement::Token(t) => {
                if t.kind == k {
                    return find_node_text_from(s, i + 1);
                }
            },
            SyntaxElement::Node(_) => {},
        }
        i = i + 1;
    }
    None
}

/// Text of the first token of kind `k` that follows a token of kind `m` among `s`.
pub fn find_token_text_after(s: &Vec<SyntaxElement>, m: Kind, k: Kind) -> (r: Option<String>)
    ensures
        r.deep_view() == token_text_after(s@, m, k),
{
    let mut i: usize = 0;
    proof {
        assert(s@.skip(0) =~= s@);
    }
    while i < s.len()
        invariant
            i <= s@.len(),
            token_text_after(s@, m, k) == token_text_after(s@.skip(i as int), m, k),
        decreases s@.len() - i,
    {
        proof {
            lemma_skip_next(s@, i as int);
        }
        match &s[i] {
            SyntaxElement::Token(t) => {
                if t.kind == m {
                    return find_token_text_from(s, i + 1, k);
                }
            },
            SyntaxElement::Node(_) => {},
        }
        i = i + 1;
    }
    None
}

/// The first node of kind `k` among `s`.
pub fn find_node_of(s: &Vec<SyntaxElement>, k: Kind) -> (r: Option<&SyntaxNode>)
    ensures
        r matches Some(n) ==> first_node_of(s@, k) == Some(*n),
        r is None ==> first_node_of(s@, k) is None,
{
    let mut i: usize = 0;
    proof {
        assert(s@.skip(0) =~= s@);
    }
    while i < s.len()
        invariant
            i <= s@.len(),
            first_node_of(s@, k) == first_node_of(s@.skip(i as int), k),
        decreases s@.len() - i,
    {
        proof {
            lemma_skip_next(s@, i as int);
        }
        match &s[i] {
            SyntaxElement::Node(n) => {
                if n.kind == k {
                    return Some(n);
                }
            },
            SyntaxElement::Token(_) => {},
        }
        i = i + 1;
    }
    None
}

/// The first node among `s` whose kind spells a type.
pub fn find_type_node(s: &Vec<SyntaxElement>) -> (r: Option<&SyntaxNode>)
    ensures
        r matches Some(n) ==> first_type_node(s@) == Some(*n),
        r is None ==> first_type_node(s@) is None,
{
    let mut i: usize = 0;
    proof {
        assert(s@.skip(0) =~= s@);
    }
    while i < s.len()
        invariant
            i <= s@.len(),
            first_type_node(s@) == first_type_node(s@.skip(i as int)),
        decreases s@.len() - i,
    {
        proof {
            lemma_skip_next(s@, i as int);
        }
        match &s[i] {
            SyntaxElement::Node(n) => {
                if n.kind.is_type() {
                    return Some(n);
                }
            },
            SyntaxElement::Token(_) => {},
        }
        i = i + 1;
    }
    None
}

/// The first node among `s` that a command placeholder renders.
pub fn find_placeholder_expr(s: &Vec<SyntaxElement>) -> (r: Option<&SyntaxNode>)
    ensures
        r matches Some(n) ==> first_placeholder_expr(s@) == Some(*n),
        r is None ==> first_placeholder_expr(s@) is None,
{
    let mut i: usize = 0;
    proof {
        assert(s@.skip(0) =~= s@);
    }
    while i < s.len()
        invariant
            i <= s@.len(),
            first_placeholder_expr(s@) == first_placeholder_expr(s@.skip(i as int)),
        decreases s@.len() - i,
    {
        proof {
            lemma_skip_next(s@, i as int);
        }
        match &s[i] {
            SyntaxElement::Node(n) => {
                if n.kind.is_placeholder_expr() {
                    return Some(n);
                }
            },
            SyntaxElement::Token(_) => {},
        }
        i = i + 1;
    }
    None
}

} // verus!
