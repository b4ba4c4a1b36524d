//! Fallback metadata read from raw source text by line-anchored patterns, for
//! documents whose syntax tree is too damaged to summarise.

use vstd::prelude::*;
use vstd::string::*;

verus! {

/// A `version` line; group 1 is the version text.
pub const VERSION_PATTERN: &'static str = r"(?m)^\s*version\s+([^\s\n]+)";

/// A `workflow <name> {` line; group 1 is the name.
pub const WORKFLOW_PATTERN: &'static str = r"(?m)^\s*workflow\s+([a-zA-Z_][a-zA-Z0-9_]*)\s*\{";

/// A `task <name> {` line; group 1 is the name.
pub const TASK_PATTERN: &'static str = r"(?m)^\s*task\s+([a-zA-Z_][a-zA-Z0-9_]*)\s*\{";

/// For each successive non-overlapping match of `pattern` in `text`, the text
/// of its capture group 1, if that group took part; nothing when `pattern`
/// is not a valid expression.
pub uninterp spec fn group_one_matches(pattern: Seq<char>, text: Seq<char>) -> Seq<
    Option<Seq<char>>,
>;

/// Relies on regex's `Regex::new` and `Regex::captures_iter`: the iterator
/// yields the successive non-overlapping matches, the first of them being the
/// leftmost-first match that `Regex::captures` reports.
#[verifier::external_body]
fn capture_group_one(pattern: &str, text: &str) -> (r: Vec<Option<String>>)
    ensures
        r.deep_view() == group_one_matches(pattern@, text@),
{
    match regex::Regex::new(pattern) {
        Ok(re) => re.captures_iter(text).map(|c| c.get(1).map(|m| m.as_str().to_string())).collect(),
        Err(_) => Vec::new(),
    }
}

/// Group 1 of the first match of `pattern` in `text`.
pub open spec fn first_capture(pattern: Seq<char>, text: Seq<char>) -> Option<Seq<char>> {
    let m = group_one_matches(pattern, text);
    if m.len() > 0 {
        m[0]
    } else {
        None
    }
}

/// Strict lexicographic order on texts, by code point.
pub open spec fn text_lt(a: Seq<char>, b: Seq<char>) -> bool
    decreases a.len(),
{
    if a.len() == 0 {
        b.len() > 0
    } else if b.len() == 0 {
        false
    } else if a[0] != b[0] {
        (a[0] as int) < (b[0] as int)
    } else {
        text_lt(a.drop_first(), b.drop_first())
    }
}

/// Strictly increasing, hence without repeats.
pub open spec fn strictly_sorted(s: Seq<Seq<char>>) -> bool {
    forall|i: int, j: int| 0 <= i < j < s.len() ==> text_lt(s[i], s[j])
}

/// The texts that group 1 captured in some match.
pub open spec fn captured_names(m: Seq<Option<Seq<char>>>) -> Set<Seq<char>> {
    Set::new(|x: Seq<char>| m.contains(Some(x)))
}

pub proof fn lemma_captured_push(m: Seq<Option<Seq<char>>>, o: Option<Seq<char>>)
    ensures
        captured_names(m.push(o)) == match o {
            Some(x) => captured_names(m).insert(x),
            None => captured_names(m),
        },
{
    assert forall|y: Seq<char>| #[trigger]
        m.push(o).contains(Some(y)) <==> (m.contains(Some(y)) || o == Some(y)) by {
        if m.push(o).contains(Some(y)) {
            let k = choose|k: int| 0 <= k < m.push(o).len() && m.push(o)[k] == Some(y);
            if k < m.len() {
                assert(m[k] == Some(y));
            }
        }
        if m.contains(Some(y)) {
            let k = choose|k: int| 0 <= k < m.len() && m[k] == Some(y);
            assert(m.push(o)[k] == Some(y));
        }
        if o == Some(y) {
            assert(m.push(o)[m.len() as int] == Some(y));
        }
    }
    match o {
        Some(x) => {
            assert(captured_names(m.push(o)) =~= captured_names(m).insert(x));
        },
        None => {
            assert(captured_names(m.push(o)) =~= captured_names(m));
        },
    }
}

pub proof fn lemma_text_lt_irreflexive(a: Seq<char>)
    ensures
        !text_lt(a, a),
    decreases a.len(),
{
    if a.len() > 0 {
        lemma_text_lt_irreflexive(a.drop_first());
    }
}

pub proof fn lemma_text_lt_total(a: Seq<char>, b: Seq<char>)
    ensures
        a == b || text_lt(a, b) || text_lt(b, a),
    decreases a.len(),
{
    if a.len() > 0 && b.len() > 0 && a[0] == b[0] {
        lemma_text_lt_total(a.drop_first(), b.drop_first());
        if a.drop_first() == b.drop_first() {
            assert(a =~= seq![a[0]] + a.drop_first());
            assert(b =~= seq![b[0]] + b.drop_first());
        }
    } else if a.len() == 0 && b.len() == 0 {
        assert(a =~= b);
    }
}

pub proof fn lemma_text_lt_transitive(a: Seq<char>, b: Seq<char>, c: Seq<char>)
    requires
        text_lt(a, b),
        text_lt(b, c),
    ensures
        text_lt(a, c),
    decreases a.len(),
{
    if a.len() > 0 && b.len() > 0 && c.len() > 0 && a[0] == b[0] && b[0] == c[0] {
        lemma_text_lt_transitive(a.drop_first(), b.drop_first(), c.drop_first());
    }
}

pub proof fn lemma_text_lt_asymmetric(a: Seq<char>, b: Seq<char>)
    requires
        text_lt(a, b),
    ensures
        !text_lt(b, a),
{
    if text_lt(b, a) {
        lemma_text_lt_transitive(a, b, a);
        lemma_text_lt_irreflexive(a);
    }
}

/// Whether `a` comes strictly before `b`.
fn text_less(a: &String, b: &String) -> (r: bool)
    ensures
        r == text_lt(a@, b@),
{
    let sa = a.as_str();
    let sb = b.as_str();
    let la = sa.unicode_len();
    let lb = sb.unicode_len();
    let mut i: usize = 0;
    proof {
        assert(a@.skip(0) =~= a@);
        assert(b@.skip(0) =~= b@);
    }
    while i < la && i < lb
        invariant
            la == a@.len(),
            lb == b@.len(),
            sa@ == a@,
            sb@ == b@,
            i <= la,
            i <= lb,
            text_lt(a@, b@) == text_lt(a@.skip(i as int), b@.skip(i as int)),
        decreases la - i,
    {
        let ca = sa.get_char(i);
        let cb = sb.get_char(i);
        proof {
            assert(a@.skip(i as int).drop_first() =~= a@.skip(i + 1));
            assert(b@.skip(i as int).drop_first() =~= b@.skip(i + 1));
        }
        if ca != cb {
            return (ca as u32) < (cb as u32);
        }
        i = i + 1;
    }
    i < lb
}

/// Inserts `x` into a strictly sorted list, unless it is already there.
fn insert_sorted(v: &mut Vec<String>, x: String)
    requires
        strictly_sorted(old(v).deep_view()),
    ensures
        strictly_sorted(final(v).deep_view()),
        final(v).deep_view().to_set() == old(v).deep_view().to_set().insert(x@),
{
    let ghost d = v.deep_view();
    let mut i: usize = 0;
    while i < v.len()
        invariant
            i <= v@.len(),
            v.deep_view() == d,
            d == old(v).deep_view(),
            strictly_sorted(d),
            forall|j: int| 0 <= j < i ==> text_lt(d[j], x@),
        ensures
            i <= v@.len(),
            v.deep_view() == d,
            forall|j: int| 0 <= j < i ==> text_lt(d[j], x@),
            i < v@.len() ==> text_lt(x@, d[i as int]),
        decreases v@.len() - i,
    {
        if v[i] == x {
            proof {
                assert(d[i as int] == x@);
                assert(d.to_set().insert(x@) =~= d.to_set());
            }
            return;
        }
        if text_less(&x, &v[i]) {
            break;
        }
        proof {
            lemma_text_lt_total(d[i as int], x@);
        }
        i = i + 1;
    }
    let ghost xv = x@;
    v.insert(i, x);
    proof {
        assert(v.deep_view() =~= d.insert(i as int, xv));
        assert forall|m: int| i <= m < d.len() implies text_lt(xv, d[m]) by {
            if m > i {
                lemma_text_lt_transitive(xv, d[i as int], d[m]);
            }
        }
        assert forall|j: int, k: int| 0 <= j < k < v.deep_view().len() implies text_lt(
            v.deep_view()[j],
            v.deep_view()[k],
        ) by {
            if k < i {
            } else if k == i {
            } else if j < i {
                lemma_text_lt_transitive(d[j], xv, d[k - 1]);
            } else if j == i {
            } else {
            }
        }
        let e = d.insert(i as int, xv);
        assert forall|y: Seq<char>| #[trigger] e.contains(y) <==> (d.contains(y) || y == xv) by {
            if e.contains(y) {
                let k = choose|k: int| 0 <= k < e.len() && e[k] == y;
                if k < i {
                    assert(d[k] == y);
                } else if k > i {
                    assert(d[k - 1] == y);
                }
            }
            if d.contains(y) {
                let k = choose|k: int| 0 <= k < d.len() && d[k] == y;
                if k < i {
                    assert(e[k] == y);
                } else {
                    assert(e[k + 1] == y);
                }
            }
            if y == xv {
                assert(e[i as int] == y);
            }
        }
        assert(e.to_set() =~= d.to_set().insert(xv));
    }
}

/// Version, workflow name and task names, each found by a pattern alone.
pub struct BasicWdlMetadata {
    pub version: Option<String>,
    pub workflow_name: Option<String>,
    pub task_names: Vec<String>,
}

impl BasicWdlMetadata {
    pub fn new() -> (r: BasicWdlMetadata)
        ensures
            r.version is None,
            r.workflow_name is None,
            r.task_names@.len() == 0,
    {
        BasicWdlMetadata { version: None, workflow_name: None, task_names: Vec::new() }
    }

    /// The text after the first `version` keyword that opens a line.
    pub fn extract_version(content: &str) -> (r: Option<String>)
        ensures
            r.deep_view() == first_capture(VERSION_PATTERN@, content@),
    {
        let m = capture_group_one(VERSION_PATTERN, content);
        if m.len() > 0 {
            m[0].clone()
        } else {
            None
        }
    }

    /// The name in the first `workflow <name> {` line.
    pub fn extract_workflow_name(content: &str) -> (r: Option<String>)
        ensures
            r.deep_view() == first_capture(WORKFLOW_PATTERN@, content@),
    {
        let m = capture_group_one(WORKFLOW_PATTERN, content);
        if m.len() > 0 {
            m[0].clone()
        } else {
            None
        }
    }

    /// The names in all `task <name> {` lines, without repeats, sorted.
    pub fn extract_task_names(content: &str) -> (r: Vec<String>)
        ensures
            strictly_sorted(r.deep_view()),
            r.deep_view().to_set() == captured_names(group_one_matches(TASK_PATTERN@, content@)),
    {
        let m = capture_group_one(TASK_PATTERN, content);
        let ghost md = m.deep_view();
        let mut names: Vec<String> = Vec::new();
        let mut i: usize = 0;
        proof {
            assert(names.deep_view().to_set() =~= captured_names(md.take(0)));
        }
        while i < m.len()
            invariant
                i <= m@.len(),
                md == m.deep_view(),
                strictly_sorted(names.deep_view()),
                names.deep_view().to_set() == captured_names(md.take(i as int)),
            decreases m@.len() - i,
        {
            proof {
                assert(md.take(i + 1) =~= md.take(i as int).push(md[i as int]));
                lemma_captured_push(md.take(i as int), md[i as int]);
            }
            match &m[i] {
                Some(name) => {
                    insert_sorted(&mut names, name.clone());
                    proof {
                        assert(names.deep_view().to_set() =~= captured_names(md.take(i + 1)));
                    }
                },
                None => {
                    proof {
                        assert(names.deep_view().to_set() =~= captured_names(md.take(i + 1)));
                    }
                },
            }
            i = i + 1;
        }
        proof {
            assert(md.take(m@.len() as int) =~= md);
        }
        names
    }

    /// The fallback metadata of `content`.
    pub fn extract_from_text(content: &str) -> (r: BasicWdlMetadata)
        ensures
            r.version.deep_view() == first_capture(VERSION_PATTERN@, content@),
            r.workflow_name.deep_view() == first_capture(WORKFLOW_PATTERN@, content@),
            strictly_sorted(r.task_names.deep_view()),
            r.task_names.deep_view().to_set() == captured_names(
                group_one_matches(TASK_PATTERN@, content@),
            ),
    {
        let mut metadata = BasicWdlMetadata::new();
        metadata.version = Self::extract_version(content);
        metadata.workflow_name = Self::extract_workflow_name(content);
        metadata.task_names = Self::extract_task_names(content);
        metadata
    }
}

} // verus!
