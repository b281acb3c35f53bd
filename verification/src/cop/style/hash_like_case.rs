//! Style/HashLikeCase: a `case x` whose every branch maps one string or
//! symbol to one literal, which a hash lookup says more plainly.
use vstd::prelude::*;
use vstd::string::StringSliceAdditionalSpecFns;
use crate::ast::{children, children_of, flatten, is_other, is_other_exec, lemma_children_decrease, preorder, Node};
use crate::diagnostic::{diagnostic, offense, offenses, str_bytes, Diagnostic, Offense};
use crate::source::{spec_column_of, spec_line_of, SourceFile};

verus! {

/// The cop.
pub struct HashLikeCase;

pub open spec fn is_when(n: Node) -> bool {
    is_other(n, "WhenNode".spec_bytes())
}

/// A literal without `nil`: a string, symbol, number or boolean, or an
/// array or hash made of such literals.
pub open spec fn is_basic_literal(n: Node) -> bool
    decreases n, children(n).len() + 1,
{
    if n is Str || n is Symbol || n is Integer || n is Float || is_other(n, "TrueNode".spec_bytes())
        || is_other(n, "FalseNode".spec_bytes()) {
        true
    } else if n is Array || n is Hash || n is KeywordHash {
        elements_basic(n, children(n).len() as int)
    } else {
        false
    }
}

/// The first `k` children of the array or hash `n` are literal elements.
pub open spec fn elements_basic(n: Node, k: int) -> bool
    decreases n, k,
{
    if k <= 0 || k > children(n).len() {
        true
    } else {
        proof {
            lemma_children_decrease(n);
        }
        elements_basic(n, k - 1) && element_basic(n, children(n)[k - 1])
    }
}

/// An element of an array, or a `key => value` pair of a hash, made of
/// literals.
pub open spec fn element_basic(n: Node, c: Node) -> bool
    decreases c, children(c).len() + 2,
{
    if n is Array {
        is_basic_literal(c)
    } else {
        match c {
            Node::Assoc { key, value, .. } => is_basic_literal(*key) && is_basic_literal(*value),
            _ => false,
        }
    }
}

/// The node-type tag that branches of one kind must share.
pub open spec fn type_tag(n: Node) -> int {
    if n is Str {
        1
    } else if n is Symbol {
        2
    } else if n is Integer {
        3
    } else if n is Float {
        4
    } else if is_other(n, "TrueNode".spec_bytes()) {
        5
    } else if is_other(n, "FalseNode".spec_bytes()) {
        6
    } else if is_other(n, "NilNode".spec_bytes()) {
        7
    } else if n is Array {
        8
    } else if n is Hash || n is KeywordHash {
        9
    } else {
        0
    }
}

/// The single condition and single body value of a `when`, if it has
/// exactly one of each.
pub open spec fn when_pair(w: Node) -> Option<(Node, Node)> {
    let cs = children(w);
    if is_when(w) && cs.len() == 2 && cs[1] is Statements && cs[1]->Statements_body@.len() == 1 {
        Some((cs[0], cs[1]->Statements_body@[0]))
    } else {
        None
    }
}

/// A `when` mapping one string or symbol to one literal.
pub open spec fn is_simple_when(w: Node) -> bool {
    match when_pair(w) {
        Some((c, v)) => (c is Str || c is Symbol) && is_basic_literal(v),
        None => false,
    }
}

/// The type tag of a branch's condition.
pub open spec fn cond_tag(w: Node) -> int {
    match when_pair(w) {
        Some((c, _)) => type_tag(c),
        None => 0,
    }
}

/// The type tag of a branch's value.
pub open spec fn value_tag(w: Node) -> int {
    match when_pair(w) {
        Some((_, v)) => type_tag(v),
        None => 0,
    }
}

/// A `case` with a subject and no `else`, with at least `min` branches,
/// all simple, whose conditions share one type and whose values share one
/// type.
pub open spec fn is_hash_like(n: Node, min: int) -> bool {
    let cs = children(n);
    let whens = cs.drop_first();
    &&& is_other(n, "CaseNode".spec_bytes())
    &&& cs.len() > 0 && !is_when(cs[0])
    &&& !(cs.last() is Else)
    &&& whens.len() >= min
    &&& forall|i: int| 0 <= i < whens.len() ==> is_simple_when(#[trigger] whens[i])
    &&& forall|i: int| 0 <= i < whens.len() ==> cond_tag(#[trigger] whens[i]) == cond_tag(whens[0])
    &&& forall|i: int| 0 <= i < whens.len() ==> value_tag(#[trigger] whens[i]) == value_tag(whens[0])
}

pub open spec fn own_offense(src: Seq<u8>, n: Node, min: int) -> Seq<Offense> {
    if is_hash_like(n, min) {
        seq![offense(spec_line_of(src, n.spec_loc().start as int), spec_column_of(src, n.spec_loc().start as int),
            "Consider replacing `case-when` with a hash lookup.".spec_bytes())]
    } else {
        Seq::empty()
    }
}

/// The offenses at the nodes of `nodes`, in order.
pub open spec fn all_offenses(src: Seq<u8>, nodes: Seq<Node>, min: int) -> Seq<Offense>
    decreases nodes.len(),
{
    if nodes.len() == 0 {
        Seq::empty()
    } else {
        all_offenses(src, nodes.drop_last(), min) + own_offense(src, nodes.last(), min)
    }
}

proof fn lemma_element_fails(n: Node, k: int, i: int)
    requires
        0 <= i < k <= children(n).len(),
        !element_basic(n, children(n)[i]),
    ensures
        !elements_basic(n, k),
    decreases k,
{
    if i < k - 1 {
        lemma_element_fails(n, k - 1, i);
    }
}

/// Whether `n` is a literal made of strings, symbols, numbers, booleans,
/// arrays and hashes.
pub fn is_basic_literal_exec(n: &Node) -> (r: bool)
    ensures
        r == is_basic_literal(*n),
    decreases n, 0int,
{
    let atomic = match n {
        Node::Str { .. } => true,
        Node::Symbol { .. } => true,
        Node::Integer { .. } => true,
        Node::Float { .. } => true,
        _ => is_other_exec(n, "TrueNode") || is_other_exec(n, "FalseNode"),
    };
    if atomic {
        return true;
    }
    let coll = match n {
        Node::Array { .. } => true,
        Node::Hash { .. } => true,
        Node::KeywordHash { .. } => true,
        _ => false,
    };
    if !coll {
        return false;
    }
    let kids = children_of(n);
    let ghost cs = kids@.map_values(|x: &Node| *x);
    let mut i: usize = 0;
    while i < kids.len()
        invariant
            i <= kids@.len(),
            cs == kids@.map_values(|x: &Node| *x),
            cs == children(*n),
            is_basic_literal(*n) == elements_basic(*n, cs.len() as int),
            elements_basic(*n, i as int),
        decreases kids@.len() - i,
    {
        proof {
            lemma_children_decrease(*n);
        }
        assert(cs[i as int] == *kids[i as int]);
        if !element_basic_exec(n, kids[i]) {
            proof {
                lemma_element_fails(*n, cs.len() as int, i as int);
            }
            return false;
        }
        i = i + 1;
    }
    true
}

fn element_basic_exec(n: &Node, c: &Node) -> (r: bool)
    ensures
        r == element_basic(*n, *c),
    decreases c, 1int,
{
    match n {
        Node::Array { .. } => is_basic_literal_exec(c),
        _ => match c {
            Node::Assoc { key, value, .. } => is_basic_literal_exec(key) && is_basic_literal_exec(value),
            _ => false,
        },
    }
}

fn type_tag_exec(n: &Node) -> (r: u8)
    ensures
        r == type_tag(*n),
{
    match n {
        Node::Str { .. } => 1,
        Node::Symbol { .. } => 2,
        Node::Integer { .. } => 3,
        Node::Float { .. } => 4,
        Node::Array { .. } => 8,
        Node::Hash { .. } => 9,
        Node::KeywordHash { .. } => 9,
        _ => if is_other_exec(n, "TrueNode") {
            5
        } else if is_other_exec(n, "FalseNode") {
            6
        } else if is_other_exec(n, "NilNode") {
            7
        } else {
            0
        },
    }
}

fn when_pair_exec(w: &Node) -> (r: Option<(&Node, &Node)>)
    ensures
        match r {
            Some((c, v)) => when_pair(*w) == Some((*c, *v)),
            None => when_pair(*w) is None,
        },
{
    match w {
        Node::Other { children: cs, .. } => {
            assert(children(*w) == cs@);
            if is_other_exec(w, "WhenNode") && cs.len() == 2 {
                match &cs[1] {
                    Node::Statements { body, .. } => if body.len() == 1 {
                        return Some((&cs[0], &body[0]));
                    },
                    _ => {},
                }
            }
            None
        },
        _ => None,
    }
}

fn is_hash_like_exec(n: &Node, min: usize) -> (r: bool)
    ensures
        r == is_hash_like(*n, min as int),
{
    let cs = match n {
        Node::Other { children: cs, .. } => cs,
        _ => {
            return false;
        },
    };
    assert(children(*n) == cs@);
    if !is_other_exec(n, "CaseNode") || cs.len() == 0 || is_other_exec(&cs[0], "WhenNode") {
        return false;
    }
    if let Node::Else { .. } = &cs[cs.len() - 1] {
        return false;
    }
    let ghost whens = cs@.drop_first();
    if cs.len() - 1 < min {
        return false;
    }
    // every branch is simple
    let mut i: usize = 1;
    while i < cs.len()
        invariant
            1 <= i <= cs@.len(),
            whens == cs@.drop_first(),
            children(*n) == cs@,
            forall|j: int| 0 <= j < i - 1 ==> is_simple_when(#[trigger] whens[j]),
        decreases cs@.len() - i,
    {
        assert(whens[i - 1] == cs@[i as int]);
        let ok = match when_pair_exec(&cs[i]) {
            Some((c, v)) => {
                let kind = match c {
                    Node::Str { .. } => true,
                    Node::Symbol { .. } => true,
                    _ => false,
                };
                kind && is_basic_literal_exec(v)
            },
            None => false,
        };
        if !ok {
            assert(!is_simple_when(whens[i - 1]));
            return false;
        }
        i = i + 1;
    }
    if cs.len() == 1 {
        // no branch: the type conditions hold vacuously
        return true;
    }
    assert(whens[0] == cs@[1]);
    assert(is_simple_when(whens[0]));
    let (c0, v0) = match when_pair_exec(&cs[1]) {
        Some(p) => p,
        None => {
            assert(false);
            return false;
        },
    };
    let ct = type_tag_exec(c0);
    let vt = type_tag_exec(v0);
    let mut k: usize = 1;
    while k < cs.len()
        invariant
            1 <= k <= cs@.len(),
            cs@.len() > 1,
            whens == cs@.drop_first(),
            children(*n) == cs@,
            forall|j: int| 0 <= j < whens.len() ==> is_simple_when(#[trigger] whens[j]),
            ct == cond_tag(whens[0]),
            vt == value_tag(whens[0]),
            forall|j: int| 0 <= j < k - 1 ==> cond_tag(#[trigger] whens[j]) == ct,
            forall|j: int| 0 <= j < k - 1 ==> value_tag(#[trigger] whens[j]) == vt,
        decreases cs@.len() - k,
    {
        assert(whens[k - 1] == cs@[k as int]);
        assert(is_simple_when(whens[k - 1]));
        match when_pair_exec(&cs[k]) {
            Some((c, v)) => {
                if type_tag_exec(c) != ct || type_tag_exec(v) != vt {
                    assert(cond_tag(whens[k - 1]) != ct || value_tag(whens[k - 1]) != vt);
                    return false;
                }
            },
            None => {
                return false;
            },
        }
        k = k + 1;
    }
    true
}

impl HashLikeCase {
    pub fn name(&self) -> &'static str {
        "Style/HashLikeCase"
    }

    /// The offenses in the tree rooted at `root`, in traversal order, with
    /// the configured `MinBranchesCount`.
    pub fn check_source(&self, source: &SourceFile, root: &Node, min_branches: usize) -> (r: Vec<Diagnostic>)
        ensures
            offenses(r@) == all_offenses(source.text(), flatten(*root), min_branches as int),
    {
        let nodes = preorder(root);
        let ghost ns = nodes@.map_values(|x: &Node| *x);
        let mut out: Vec<Diagnostic> = Vec::new();
        let mut i: usize = 0;
        assert(offenses(out@) =~= all_offenses(source.text(), ns.take(0), min_branches as int));
        while i < nodes.len()
            invariant
                i <= nodes@.len(),
                ns == nodes@.map_values(|x: &Node| *x),
                ns == flatten(*root),
                offenses(out@) == all_offenses(source.text(), ns.take(i as int), min_branches as int),
            decreases nodes@.len() - i,
        {
            assert(ns.take(i + 1).drop_last() =~= ns.take(i as int));
            assert(ns[i as int] == *nodes[i as int]);
            let n = nodes[i];
            if is_hash_like_exec(n, min_branches) {
                let (line, column) = source.position(n.loc().start);
                let ghost before = offenses(out@);
                out.push(diagnostic(line, column, str_bytes("Consider replacing `case-when` with a hash lookup.")));
                assert(offenses(out@) =~= before + seq![offenses(out@).last()]);
            }
            assert(offenses(out@) =~= all_offenses(source.text(), ns.take(i + 1), min_branches as int));
            i = i + 1;
        }
        assert(ns.take(nodes@.len() as int) =~= ns);
        out
    }
}

} // verus!
