//! Parsing source text into the library's syntax tree.

use rowan::{NodeOrToken, WalkEvent};
use vstd::prelude::*;
use vstd::string::*;
use crate::cst::{Kind, SyntaxElement, SyntaxNode, SyntaxToken};

verus! {

/// One step of a pre-order walk of a parsed tree.
pub enum TreeEvent {
    /// A node begins: the name of its kind, and the text it covers.
    Enter(String, String),
    /// A token begins: the name of its kind, and its text.
    Token(String, String),
    /// The innermost open node ends.
    Leave,
    /// The token just begun ends.
    TokenEnd,
}

pub enum EventView {
    Enter(Seq<char>, Seq<char>),
    Token(Seq<char>, Seq<char>),
    Leave,
    TokenEnd,
}

impl View for TreeEvent {
    type V = EventView;

    open spec fn view(&self) -> EventView {
        match self {
            TreeEvent::Enter(k, t) => EventView::Enter(k@, t@),
            TreeEvent::Token(k, t) => EventView::Token(k@, t@),
            TreeEvent::Leave => EventView::Leave,
            TreeEvent::TokenEnd => EventView::TokenEnd,
        }
    }
}

/// The pre-order walk of the tree that the grammar gives `source`.
pub uninterp spec fn parse_events(source: Seq<char>) -> Seq<EventView>;

/// Relies on wdl_grammar's `SyntaxTree::parse` (no fallback version), which
/// always returns a tree, and on rowan's `preorder_with_tokens`, which enters
/// and leaves every node and token of it in source order; a kind is named by
/// its `Debug` text.
#[verifier::external_body]
fn syntax_events(source: &str) -> (r: Vec<TreeEvent>)
    ensures
        r@.map_values(|e: TreeEvent| e@) == parse_events(source@),
{
    let (tree, _) = wdl_grammar::SyntaxTree::parse(source, None);
    tree.root().preorder_with_tokens().map(|event| match event {
        WalkEvent::Enter(NodeOrToken::Node(n)) => TreeEvent::Enter(format!("{:?}", n.kind()), n.text().to_string()),
        WalkEvent::Enter(NodeOrToken::Token(t)) => TreeEvent::Token(format!("{:?}", t.kind()), t.text().to_string()),
        WalkEvent::Leave(NodeOrToken::Node(_)) => TreeEvent::Leave,
        WalkEvent::Leave(NodeOrToken::Token(_)) => TreeEvent::TokenEnd,
    }).collect()
}

/// The kind that a kind name stands for.
pub open spec fn kind_named(s: Seq<char>) -> Kind {
    if s == "Ident"@ {
        Kind::Ident
    } else if s == "Version"@ {
        Kind::Version
    } else if s == "Assignment"@ {
        Kind::Assignment
    } else if s == "Colon"@ {
        Kind::Colon
    } else if s == "AsKeyword"@ {
        Kind::AsKeyword
    } else if s == "LiteralStringText"@ {
        Kind::LiteralStringText
    } else if s == "LiteralCommandText"@ {
        Kind::LiteralCommandText
    } else if s == "VersionStatementNode"@ {
        Kind::VersionStatementNode
    } else if s == "TaskDefinitionNode"@ {
        Kind::TaskDefinitionNode
    } else if s == "WorkflowDefinitionNode"@ {
        Kind::WorkflowDefinitionNode
    } else if s == "StructDefinitionNode"@ {
        Kind::StructDefinitionNode
    } else if s == "ImportStatementNode"@ {
        Kind::ImportStatementNode
    } else if s == "InputSectionNode"@ {
        Kind::InputSectionNode
    } else if s == "OutputSectionNode"@ {
        Kind::OutputSectionNode
    } else if s == "CommandSectionNode"@ {
        Kind::CommandSectionNode
    } else if s == "RuntimeSectionNode"@ {
        Kind::RuntimeSectionNode
    } else if s == "MetadataSectionNode"@ {
        Kind::MetadataSectionNode
    } else if s == "ParameterMetadataSectionNode"@ {
        Kind::ParameterMetadataSectionNode
    } else if s == "UnboundDeclNode"@ {
        Kind::UnboundDeclNode
    } else if s == "BoundDeclNode"@ {
        Kind::BoundDeclNode
    } else if s == "PrimitiveTypeNode"@ {
        Kind::PrimitiveTypeNode
    } else if s == "ArrayTypeNode"@ {
        Kind::ArrayTypeNode
    } else if s == "MapTypeNode"@ {
        Kind::MapTypeNode
    } else if s == "PairTypeNode"@ {
        Kind::PairTypeNode
    } else if s == "ObjectTypeNode"@ {
        Kind::ObjectTypeNode
    } else if s == "TypeRefNode"@ {
        Kind::TypeRefNode
    } else if s == "LiteralStringNode"@ {
        Kind::LiteralStringNode
    } else if s == "PlaceholderNode"@ {
        Kind::PlaceholderNode
    } else if s == "NameRefExprNode"@ {
        Kind::NameRefExprNode
    } else if s == "AccessExprNode"@ {
        Kind::AccessExprNode
    } else if s == "CallExprNode"@ {
        Kind::CallExprNode
    } else if s == "RuntimeItemNode"@ {
        Kind::RuntimeItemNode
    } else if s == "MetadataObjectItemNode"@ {
        Kind::MetadataObjectItemNode
    } else if s == "CallStatementNode"@ {
        Kind::CallStatementNode
    } else if s == "CallTargetNode"@ {
        Kind::CallTargetNode
    } else if s == "CallAliasNode"@ {
        Kind::CallAliasNode
    } else if s == "CallInputItemNode"@ {
        Kind::CallInputItemNode
    } else if s == "ConditionalStatementNode"@ {
        Kind::ConditionalStatementNode
    } else if s == "ScatterStatementNode"@ {
        Kind::ScatterStatementNode
    } else {
        Kind::Other
    }
}

/// A walk event with its kind classified.
pub enum Ev {
    Open(Kind, Seq<char>),
    Tok(Kind, Seq<char>),
    TokEnd,
    Close,
}

pub open spec fn classify(e: EventView) -> Ev {
    match e {
        EventView::Enter(k, t) => Ev::Open(kind_named(k), t),
        EventView::Token(k, t) => Ev::Tok(kind_named(k), t),
        EventView::Leave => Ev::Close,
        EventView::TokenEnd => Ev::TokEnd,
    }
}

/// The pre-order walk of a node of the library's tree.
pub open spec fn node_events(n: SyntaxNode) -> Seq<Ev>
    decreases n,
{
    seq![Ev::Open(n.kind, n.text@)] + element_events(n.children@) + seq![Ev::Close]
}

pub open spec fn element_events(s: Seq<SyntaxElement>) -> Seq<Ev>
    decreases s,
{
    if s.len() == 0 {
        Seq::empty()
    } else {
        element_events(s.drop_last()) + match s.last() {
            SyntaxElement::Node(m) => node_events(m),
            SyntaxElement::Token(t) => seq![Ev::Tok(t.kind, t.text@), Ev::TokEnd],
        }
    }
}

/// `n` is the tree that the grammar gives `source`.
pub open spec fn parses_to(source: Seq<char>, n: SyntaxNode) -> bool {
    node_events(n) == parse_events(source).map_values(|e: EventView| classify(e))
}


/// The walk of one child.
pub open spec fn element_ev(e: SyntaxElement) -> Seq<Ev> {
    match e {
        SyntaxElement::Node(m) => node_events(m),
        SyntaxElement::Token(t) => seq![Ev::Tok(t.kind, t.text@), Ev::TokEnd],
    }
}

/// The walk of `n` stands in `ce` from position `pos` on.
pub open spec fn walk_at(ce: Seq<Ev>, pos: int, n: SyntaxNode) -> bool {
    0 <= pos && pos + node_events(n).len() <= ce.len() && ce.subrange(
        pos,
        pos + node_events(n).len(),
    ) == node_events(n)
}

proof fn lemma_element_events_concat(a: Seq<SyntaxElement>, b: Seq<SyntaxElement>)
    ensures
        element_events(a + b) == element_events(a) + element_events(b),
    decreases b.len(),
{
    if b.len() == 0 {
        assert(a + b =~= a);
        assert(element_events(a) + element_events(b) =~= element_events(a));
    } else {
        assert((a + b).drop_last() =~= a + b.drop_last());
        assert((a + b).last() == b.last());
        lemma_element_events_concat(a, b.drop_last());
        assert(element_events(a) + element_events(b.drop_last()) + element_ev(b.last())
            =~= element_events(a) + (element_events(b.drop_last()) + element_ev(b.last())));
    }
}

proof fn lemma_element_events_single(x: SyntaxElement)
    ensures
        element_events(seq![x]) == element_ev(x),
{
    assert(seq![x].drop_last() =~= Seq::<SyntaxElement>::empty());
    assert(seq![x].last() == x);
    assert(element_events(Seq::<SyntaxElement>::empty()) == Seq::<Ev>::empty());
    assert(Seq::<Ev>::empty() + element_ev(x) =~= element_ev(x));
}

/// Splits the walk of a node's children at child `k`.
proof fn lemma_element_events_split(s: Seq<SyntaxElement>, k: int)
    requires
        0 <= k < s.len(),
    ensures
        element_events(s) == element_events(s.take(k)) + element_ev(s[k]) + element_events(
            s.skip(k + 1),
        ),
        element_events(s.take(k + 1)) == element_events(s.take(k)) + element_ev(s[k]),
{
    assert(s =~= s.take(k) + seq![s[k]] + s.skip(k + 1));
    assert(s.take(k + 1) =~= s.take(k) + seq![s[k]]);
    lemma_element_events_concat(s.take(k) + seq![s[k]], s.skip(k + 1));
    lemma_element_events_concat(s.take(k), seq![s[k]]);
    lemma_element_events_single(s[k]);
}

/// What the walk of `n` at `pos` holds right after the walks of its first `k`
/// children.
proof fn lemma_next_event(ce: Seq<Ev>, pos: int, n: SyntaxNode, k: int)
    requires
        walk_at(ce, pos, n),
        0 <= k <= n.children@.len(),
    ensures
        ({
            let cur = pos + 1 + element_events(n.children@.take(k)).len();
            &&& cur < ce.len()
            &&& k == n.children@.len() ==> ce[cur] == Ev::Close && cur + 1 == pos
                + node_events(n).len()
            &&& k < n.children@.len() ==> match n.children@[k] {
                SyntaxElement::Token(t) => cur + 1 < ce.len() && ce[cur] == Ev::Tok(
                    t.kind,
                    t.text@,
                ) && ce[cur + 1] == Ev::TokEnd,
                SyntaxElement::Node(m) => walk_at(ce, cur, m) && ce[cur] == Ev::Open(
                    m.kind,
                    m.text@,
                ),
            }
        }),
{
    let s = n.children@;
    let ek = element_events(s.take(k));
    let cur = pos + 1 + ek.len();
    let ne = node_events(n);
    let sub = ce.subrange(pos, pos + ne.len());
    assert(sub == ne);
    if k == s.len() {
        assert(s.take(k) =~= s);
        assert(ne[1 + ek.len() as int] == Ev::Close);
        assert(sub[1 + ek.len() as int] == ce[cur]);
    } else {
        lemma_element_events_split(s, k);
        let c = element_ev(s[k]);
        assert forall|j: int| 0 <= j < c.len() implies ce[cur + j] == c[j] by {
            assert(ne[1 + ek.len() + j] == c[j]);
            assert(sub[1 + ek.len() + j] == ce[cur + j]);
        }
        match s[k] {
            SyntaxElement::Token(t) => {},
            SyntaxElement::Node(m) => {
                assert(ce.subrange(cur, cur + node_events(m).len()) =~= node_events(m));
            },
        }
    }
}

fn same_text(a: &str, b: &str) -> (r: bool)
    ensures
        r == (a@ == b@),
{
    let la = a.unicode_len();
    let lb = b.unicode_len();
    if la != lb {
        return false;
    }
    let mut i: usize = 0;
    while i < la
        invariant
            la == a@.len(),
            lb == b@.len(),
            la == lb,
            i <= la,
            forall|j: int| 0 <= j < i ==> a@[j] == b@[j],
        decreases la - i,
    {
        if a.get_char(i) != b.get_char(i) {
            return false;
        }
        i = i + 1;
    }
    proof {
        assert(a@ =~= b@);
    }
    true
}

fn kind_of_name(name: &str) -> (r: Kind)
    ensures
        r == kind_named(name@),
{
    if same_text(name, "Ident") {
        Kind::Ident
    } else if same_text(name, "Version") {
        Kind::Version
    } else if same_text(name, "Assignment") {
        Kind::Assignment
    } else if same_text(name, "Colon") {
        Kind::Colon
    } else if same_text(name, "AsKeyword") {
        Kind::AsKeyword
    } else if same_text(name, "LiteralStringText") {
        Kind::LiteralStringText
    } else if same_text(name, "LiteralCommandText") {
        Kind::LiteralCommandText
    } else if same_text(name, "VersionStatementNode") {
        Kind::VersionStatementNode
    } else if same_text(name, "TaskDefinitionNode") {
        Kind::TaskDefinitionNode
    } else if same_text(name, "WorkflowDefinitionNode") {
        Kind::WorkflowDefinitionNode
    } else if same_text(name, "StructDefinitionNode") {
        Kind::StructDefinitionNode
    } else if same_text(name, "ImportStatementNode") {
        Kind::ImportStatementNode
    } else if same_text(name, "InputSectionNode") {
        Kind::InputSectionNode
    } else if same_text(name, "OutputSectionNode") {
        Kind::OutputSectionNode
    } else if same_text(name, "CommandSectionNode") {
        Kind::CommandSectionNode
    } else if same_text(name, "RuntimeSectionNode") {
        Kind::RuntimeSectionNode
    } else if same_text(name, "MetadataSectionNode") {
        Kind::MetadataSectionNode
    } else if same_text(name, "ParameterMetadataSectionNode") {
        Kind::ParameterMetadataSectionNode
    } else if same_text(name, "UnboundDeclNode") {
        Kind::UnboundDeclNode
    } else if same_text(name, "BoundDeclNode") {
        Kind::BoundDeclNode
    } else if same_text(name, "PrimitiveTypeNode") {
        Kind::PrimitiveTypeNode
    } else if same_text(name, "ArrayTypeNode") {
        Kind::ArrayTypeNode
    } else if same_text(name, "MapTypeNode") {
        Kind::MapTypeNode
    } else if same_text(name, "PairTypeNode") {
        Kind::PairTypeNode
    } else if same_text(name, "ObjectTypeNode") {
        Kind::ObjectTypeNode
    } else if same_text(name, "TypeRefNode") {
        Kind::TypeRefNode
    } else if same_text(name, "LiteralStringNode") {
        Kind::LiteralStringNode
    } else if same_text(name, "PlaceholderNode") {
        Kind::PlaceholderNode
    } else if same_text(name, "NameRefExprNode") {
        Kind::NameRefExprNode
    } else if same_text(name, "AccessExprNode") {
        Kind::AccessExprNode
    } else if same_text(name, "CallExprNode") {
        Kind::CallExprNode
    } else if same_text(name, "RuntimeItemNode") {
        Kind::RuntimeItemNode
    } else if same_text(name, "MetadataObjectItemNode") {
        Kind::MetadataObjectItemNode
    } else if same_text(name, "CallStatementNode") {
        Kind::CallStatementNode
    } else if same_text(name, "CallTargetNode") {
        Kind::CallTargetNode
    } else if same_text(name, "CallAliasNode") {
        Kind::CallAliasNode
    } else if same_text(name, "CallInputItemNode") {
        Kind::CallInputItemNode
    } else if same_text(name, "ConditionalStatementNode") {
        Kind::ConditionalStatementNode
    } else if same_text(name, "ScatterStatementNode") {
        Kind::ScatterStatementNode
    } else {
        Kind::Other
    }
}

/// The classified events of `events`.
pub open spec fn classified(events: Seq<TreeEvent>) -> Seq<Ev> {
    events.map_values(|e: TreeEvent| classify(e@))
}

/// Builds the node whose walk starts at `pos`, and returns it with the
/// position after its walk.
fn build_node(events: &Vec<TreeEvent>, pos: usize) -> (r: Option<(SyntaxNode, usize)>)
    ensures
        r matches Some((n, end)) ==> pos < end <= events@.len() && node_events(n)
            == classified(events@).subrange(pos as int, end as int),
        forall|n: SyntaxNode| #[trigger]
            walk_at(classified(events@), pos as int, n) ==> (r matches Some((_, end)) && end
                == pos + node_events(n).len()),
    decreases events@.len() - pos,
{
    let ghost ce = classified(events@);
    if pos >= events.len() {
        return None;
    }
    proof {
        assert forall|n: SyntaxNode| walk_at(ce, pos as int, n) implies ce[pos as int]
            == Ev::Open(n.kind, n.text@) by {
            assert(ce.subrange(pos as int, pos + node_events(n).len())[0] == node_events(n)[0]);
        }
    }
    let (kind, text) = match &events[pos] {
        TreeEvent::Enter(k, t) => (kind_of_name(k.as_str()), t.clone()),
        _ => return None,
    };
    let mut children: Vec<SyntaxElement> = Vec::new();
    let mut cur: usize = pos + 1;
    proof {
        assert(element_events(children@) =~= ce.subrange(pos + 1, cur as int));
        assert forall|w: SyntaxNode| #[trigger] walk_at(ce, pos as int, w) implies exists|j: int|
            0 <= j <= w.children@.len() && #[trigger] element_events(w.children@.take(j))
                == element_events(children@) by {
            assert(w.children@.take(0) =~= children@);
        }
    }
    loop
        invariant
            pos < cur <= events@.len(),
            ce == classified(events@),
            ce[pos as int] == Ev::Open(kind, text@),
            element_events(children@) == ce.subrange(pos + 1, cur as int),
            forall|n: SyntaxNode| #[trigger]
                walk_at(ce, pos as int, n) ==> exists|k: int|
                    0 <= k <= n.children@.len() && #[trigger] element_events(n.children@.take(k))
                        == element_events(children@),
        decreases events@.len() - cur,
    {
        proof {
            assert forall|n: SyntaxNode| #[trigger] walk_at(ce, pos as int, n) implies cur < ce.len() by {
                let k = choose|k: int|
                    0 <= k <= n.children@.len() && #[trigger] element_events(n.children@.take(k))
                        == element_events(children@);
                lemma_next_event(ce, pos as int, n, k);
            }
        }
        if cur >= events.len() {
            return None;
        }
        match &events[cur] {
            TreeEvent::Leave => {
                let n = SyntaxNode { kind, text, children };
                proof {
                    assert(node_events(n) =~= ce.subrange(pos as int, cur + 1));
                    assert forall|w: SyntaxNode| #[trigger] walk_at(ce, pos as int, w) implies cur + 1
                        == pos + node_events(w).len() by {
                        let k = choose|k: int|
                            0 <= k <= w.children@.len() && #[trigger] element_events(
                                w.children@.take(k),
                            ) == element_events(n.children@);
                        lemma_next_event(ce, pos as int, w, k);
                    }
                }
                return Some((n, cur + 1));
            },
            TreeEvent::Token(k, t) => {
                proof {
                    assert forall|w: SyntaxNode| #[trigger] walk_at(ce, pos as int, w) implies cur + 1
                        < ce.len() && ce[cur + 1] == Ev::TokEnd by {
                        let j = choose|j: int|
                            0 <= j <= w.children@.len() && #[trigger] element_events(
                                w.children@.take(j),
                            ) == element_events(children@);
                        lemma_next_event(ce, pos as int, w, j);
                    }
                }
                if cur + 1 >= events.len() {
                    return None;
                }
                match &events[cur + 1] {
                    TreeEvent::TokenEnd => {},
                    _ => return None,
                }
                let tok = SyntaxToken { kind: kind_of_name(k.as_str()), text: t.clone() };
                let ghost before = children@;
                let ghost tv = SyntaxElement::Token(tok);
                children.push(SyntaxElement::Token(tok));
                proof {
                    assert(children@.drop_last() =~= before);
                    assert(children@.last() == tv);
                    assert(element_events(children@) =~= ce.subrange(pos + 1, cur + 2));
                    assert forall|w: SyntaxNode| #[trigger] walk_at(ce, pos as int, w) implies exists|
                        j: int,
                    |
                        0 <= j <= w.children@.len() && #[trigger] element_events(
                            w.children@.take(j),
                        ) == element_events(children@) by {
                        let j = choose|j: int|
                            0 <= j <= w.children@.len() && #[trigger] element_events(
                                w.children@.take(j),
                            ) == element_events(before);
                        lemma_next_event(ce, pos as int, w, j);
                        lemma_element_events_split(w.children@, j);
                        assert(element_events(w.children@.take(j + 1)) =~= element_events(
                            children@,
                        ));
                    }
                }
                cur = cur + 2;
            },
            TreeEvent::Enter(_, _) => {
                proof {
                    assert forall|w: SyntaxNode| #[trigger] walk_at(ce, pos as int, w) implies exists|
                        j: int,
                    |
                        0 <= j < w.children@.len() && #[trigger] element_events(
                            w.children@.take(j),
                        ) == element_events(children@) && w.children@[j] is Node && walk_at(
                            ce,
                            cur as int,
                            w.children@[j]->Node_0,
                        ) by {
                        let j = choose|j: int|
                            0 <= j <= w.children@.len() && #[trigger] element_events(
                                w.children@.take(j),
                            ) == element_events(children@);
                        lemma_next_event(ce, pos as int, w, j);
                    }
                }
                match build_node(events, cur) {
                    Some((m, next)) => {
                        let ghost before = children@;
                        let ghost mv = m;
                        children.push(SyntaxElement::Node(m));
                        proof {
                            assert(children@.drop_last() =~= before);
                            assert(children@.last() == SyntaxElement::Node(mv));
                            assert(element_events(children@) =~= ce.subrange(
                                pos + 1,
                                next as int,
                            ));
                            assert forall|w: SyntaxNode| #[trigger] walk_at(ce, pos as int, w) implies exists|
                                j: int,
                            |
                                0 <= j <= w.children@.len() && #[trigger] element_events(
                                    w.children@.take(j),
                                ) == element_events(children@) by {
                                let j = choose|j: int|
                                    0 <= j < w.children@.len() && #[trigger] element_events(
                                        w.children@.take(j),
                                    ) == element_events(before) && w.children@[j] is Node
                                        && walk_at(ce, cur as int, w.children@[j]->Node_0);
                                let c = w.children@[j]->Node_0;
                                assert(walk_at(classified(events@), cur as int, c));
                                assert(node_events(mv) =~= node_events(c));
                                lemma_element_events_split(w.children@, j);
                                assert(element_events(w.children@.take(j + 1)) =~= element_events(
                                    children@,
                                ));
                            }
                        }
                        cur = next;
                    },
                    None => {
                        proof {
                            assert forall|w: SyntaxNode| #[trigger] walk_at(ce, pos as int, w) implies false by {
                                let j = choose|j: int|
                                    0 <= j < w.children@.len() && #[trigger] element_events(
                                        w.children@.take(j),
                                    ) == element_events(children@) && w.children@[j] is Node
                                        && walk_at(ce, cur as int, w.children@[j]->Node_0);
                                assert(walk_at(classified(events@), cur as int, w.children@[j]->Node_0));
                            }
                        }
                        return None;
                    },
                }
            },
            TreeEvent::TokenEnd => {
                proof {
                    assert forall|w: SyntaxNode| #[trigger] walk_at(ce, pos as int, w) implies false by {
                        let j = choose|j: int|
                            0 <= j <= w.children@.len() && #[trigger] element_events(
                                w.children@.take(j),
                            ) == element_events(children@);
                        lemma_next_event(ce, pos as int, w, j);
                    }
                }
                return None;
            },
        }
    }
}

/// The syntax tree of `source`, when the grammar's walk of it is one
/// well-nested tree, as the grammar documents it always is.
pub fn parse_document(source: &str) -> (r: Option<SyntaxNode>)
    ensures
        r matches Some(n) ==> parses_to(source@, n),
        r is None ==> forall|n: SyntaxNode| !parses_to(source@, n),
{
    let events = syntax_events(source);
    proof {
        assert(classified(events@) =~= parse_events(source@).map_values(
            |e: EventView| classify(e),
        ));
        assert forall|n: SyntaxNode| parses_to(source@, n) implies walk_at(
            classified(events@),
            0,
            n,
        ) by {
            assert(classified(events@).subrange(0, node_events(n).len() as int) =~= classified(
                events@,
            ));
        }
    }
    match build_node(&events, 0) {
        Some((n, end)) => {
            if end == events.len() {
                proof {
                    assert(classified(events@).subrange(0, end as int) =~= classified(events@));
                    assert(classified(events@) =~= parse_events(source@).map_values(
                        |e: EventView| classify(e),
                    ));
                }
                Some(n)
            } else {
                None
            }
        },
        None => None,
    }
}

} // verus!
