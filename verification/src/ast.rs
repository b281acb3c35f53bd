//! The Ruby syntax tree that the cops read.
//!
//! Each variant mirrors one node type of the Prism parser, holding the fields
//! the cops look at; node types no cop inspects closely are kept as `Other`,
//! with their type name and their child nodes in traversal order.
use vstd::prelude::*;
use crate::source::Loc;
use vstd::string::StringSliceAdditionalSpecFns;
use crate::bytes::eq_str;

verus! {

/// Node types that carry a name and at most one value: variables, parameters
/// and constants.
#[derive(Clone, Copy, PartialEq, Eq, Structural, Debug)]
pub enum NamedKind {
    ConstantRead,
    ConstantWrite,
    ConstantTarget,
    LocalVariableRead,
    LocalVariableWrite,
    LocalVariableTarget,
    InstanceVariableRead,
    InstanceVariableWrite,
    InstanceVariableTarget,
    ClassVariableRead,
    ClassVariableWrite,
    ClassVariableTarget,
    ClassVariableAndWrite,
    ClassVariableOrWrite,
    ClassVariableOperatorWrite,
    GlobalVariableRead,
    GlobalVariableWrite,
    GlobalVariableTarget,
    RequiredParameter,
    OptionalParameter,
    RestParameter,
    KeywordRestParameter,
    BlockParameter,
    RequiredKeywordParameter,
    OptionalKeywordParameter,
    BlockLocalVariable,
}

/// A node of the syntax tree.  Every node knows its source range `loc`.
/// Optional names (rest parameters without a name, constant paths such as
/// `::` alone) are empty.
#[allow(inconsistent_fields)]
pub enum Node {
    Program { loc: Loc, statements: Box<Node> },
    Statements { loc: Loc, body: Vec<Node> },
    Arguments { loc: Loc, arguments: Vec<Node> },
    Call {
        loc: Loc,
        receiver: Option<Box<Node>>,
        call_operator_loc: Option<Loc>,
        name: Vec<u8>,
        message_loc: Option<Loc>,
        opening_loc: Option<Loc>,
        arguments: Option<Box<Node>>,
        closing_loc: Option<Loc>,
        block: Option<Box<Node>>,
    },
    Block {
        loc: Loc,
        parameters: Option<Box<Node>>,
        body: Option<Box<Node>>,
        opening_loc: Loc,
        closing_loc: Loc,
    },
    BlockArgument { loc: Loc, expression: Option<Box<Node>> },
    BlockParameters {
        loc: Loc,
        parameters: Option<Box<Node>>,
        locals: Vec<Node>,
        opening_loc: Option<Loc>,
        closing_loc: Option<Loc>,
    },
    Parameters {
        loc: Loc,
        requireds: Vec<Node>,
        optionals: Vec<Node>,
        rest: Option<Box<Node>>,
        posts: Vec<Node>,
        keywords: Vec<Node>,
        keyword_rest: Option<Box<Node>>,
        block: Option<Box<Node>>,
    },
    If {
        loc: Loc,
        if_keyword_loc: Option<Loc>,
        predicate: Box<Node>,
        then_keyword_loc: Option<Loc>,
        statements: Option<Box<Node>>,
        subsequent: Option<Box<Node>>,
        end_keyword_loc: Option<Loc>,
    },
    Unless {
        loc: Loc,
        keyword_loc: Loc,
        predicate: Box<Node>,
        then_keyword_loc: Option<Loc>,
        statements: Option<Box<Node>>,
        else_clause: Option<Box<Node>>,
        end_keyword_loc: Option<Loc>,
    },
    Else { loc: Loc, else_keyword_loc: Loc, statements: Option<Box<Node>>, end_keyword_loc: Option<Loc> },
    Str {
        loc: Loc,
        opening_loc: Option<Loc>,
        closing_loc: Option<Loc>,
        unescaped: Vec<u8>,
    },
    InterpolatedStr {
        loc: Loc,
        opening_loc: Option<Loc>,
        parts: Vec<Node>,
        closing_loc: Option<Loc>,
    },
    Symbol { loc: Loc, opening_loc: Option<Loc>, unescaped: Vec<u8> },
    XStr { loc: Loc, opening_loc: Loc, unescaped: Vec<u8> },
    InterpolatedXStr { loc: Loc, opening_loc: Loc, parts: Vec<Node> },
    Integer { loc: Loc },
    Float { loc: Loc },
    RegularExpression { loc: Loc, closing_loc: Loc, unescaped: Vec<u8> },
    ConstantPath { loc: Loc, parent: Option<Box<Node>>, name: Vec<u8> },
    Def {
        loc: Loc,
        name: Vec<u8>,
        receiver: Option<Box<Node>>,
        parameters: Option<Box<Node>>,
        body: Option<Box<Node>>,
        equal_loc: Option<Loc>,
    },
    Range { loc: Loc, left: Option<Box<Node>>, right: Option<Box<Node>>, operator_loc: Loc },
    Hash { loc: Loc, elements: Vec<Node> },
    KeywordHash { loc: Loc, elements: Vec<Node> },
    Assoc { loc: Loc, key: Box<Node>, value: Box<Node>, operator_loc: Option<Loc> },
    Implicit { loc: Loc, value: Box<Node> },
    Array { loc: Loc, elements: Vec<Node>, opening_loc: Option<Loc> },
    For {
        loc: Loc,
        index: Box<Node>,
        collection: Box<Node>,
        statements: Option<Box<Node>>,
    },
    PostExecution { loc: Loc, statements: Option<Box<Node>>, keyword_loc: Loc },
    Named { kind: NamedKind, loc: Loc, name: Vec<u8>, name_loc: Loc, value: Option<Box<Node>> },
    /// Any other node type, by its Prism type name, with its child nodes in
    /// traversal order.
    Other { node_type: Vec<u8>, loc: Loc, children: Vec<Node> },
}

impl Node {
    /// The source range of the node.
    pub open spec fn spec_loc(&self) -> Loc {
        match *self {
            Node::Program { loc, .. } => loc,
            Node::Statements { loc, .. } => loc,
            Node::Arguments { loc, .. } => loc,
            Node::Call { loc, .. } => loc,
            Node::Block { loc, .. } => loc,
            Node::BlockArgument { loc, .. } => loc,
            Node::BlockParameters { loc, .. } => loc,
            Node::Parameters { loc, .. } => loc,
            Node::If { loc, .. } => loc,
            Node::Unless { loc, .. } => loc,
            Node::Else { loc, .. } => loc,
            Node::Str { loc, .. } => loc,
            Node::InterpolatedStr { loc, .. } => loc,
            Node::Symbol { loc, .. } => loc,
            Node::XStr { loc, .. } => loc,
            Node::InterpolatedXStr { loc, .. } => loc,
            Node::Integer { loc } => loc,
            Node::Float { loc } => loc,
            Node::RegularExpression { loc, .. } => loc,
            Node::ConstantPath { loc, .. } => loc,
            Node::Def { loc, .. } => loc,
            Node::Range { loc, .. } => loc,
            Node::Hash { loc, .. } => loc,
            Node::KeywordHash { loc, .. } => loc,
            Node::Assoc { loc, .. } => loc,
            Node::Implicit { loc, .. } => loc,
            Node::Array { loc, .. } => loc,
            Node::For { loc, .. } => loc,
            Node::PostExecution { loc, .. } => loc,
            Node::Named { loc, .. } => loc,
            Node::Other { loc, .. } => loc,
        }
    }

    /// The source range of the node.
    #[verifier::when_used_as_spec(spec_loc)]
    pub fn loc(&self) -> (r: Loc)
        ensures
            r == self.spec_loc(),
    {
        match self {
            Node::Program { loc, .. } => *loc,
            Node::Statements { loc, .. } => *loc,
            Node::Arguments { loc, .. } => *loc,
            Node::Call { loc, .. } => *loc,
            Node::Block { loc, .. } => *loc,
            Node::BlockArgument { loc, .. } => *loc,
            Node::BlockParameters { loc, .. } => *loc,
            Node::Parameters { loc, .. } => *loc,
            Node::If { loc, .. } => *loc,
            Node::Unless { loc, .. } => *loc,
            Node::Else { loc, .. } => *loc,
            Node::Str { loc, .. } => *loc,
            Node::InterpolatedStr { loc, .. } => *loc,
            Node::Symbol { loc, .. } => *loc,
            Node::XStr { loc, .. } => *loc,
            Node::InterpolatedXStr { loc, .. } => *loc,
            Node::Integer { loc } => *loc,
            Node::Float { loc } => *loc,
            Node::RegularExpression { loc, .. } => *loc,
            Node::ConstantPath { loc, .. } => *loc,
            Node::Def { loc, .. } => *loc,
            Node::Range { loc, .. } => *loc,
            Node::Hash { loc, .. } => *loc,
            Node::KeywordHash { loc, .. } => *loc,
            Node::Assoc { loc, .. } => *loc,
            Node::Implicit { loc, .. } => *loc,
            Node::Array { loc, .. } => *loc,
            Node::For { loc, .. } => *loc,
            Node::PostExecution { loc, .. } => *loc,
            Node::Named { loc, .. } => *loc,
            Node::Other { loc, .. } => *loc,
        }
    }

    /// The statements of a `Statements` node (empty for any other node).
    pub open spec fn statement_list(self) -> Seq<Node> {
        match self {
            Node::Statements { body, .. } => body@,
            _ => Seq::empty(),
        }
    }

    /// The argument nodes of a call (empty when it has none or is no call).
    pub open spec fn call_args(self) -> Seq<Node> {
        match self {
            Node::Call { arguments: Some(a), .. } => match *a {
                Node::Arguments { arguments, .. } => arguments@,
                _ => Seq::empty(),
            },
            _ => Seq::empty(),
        }
    }

    /// Whether the node is a constant reference `Name` or a top-level `::Name`.
    pub open spec fn is_top_constant(self, name: Seq<u8>) -> bool {
        ||| self matches Node::Named { kind: NamedKind::ConstantRead, name: n, .. } && n@ == name
        ||| self matches Node::ConstantPath { parent: None, name: n, .. } && n@ == name
    }
}

/// An optional child as a sequence of zero or one nodes.
pub open spec fn opt_seq(o: Option<Box<Node>>) -> Seq<Node> {
    match o {
        Some(b) => seq![*b],
        None => Seq::empty(),
    }
}

/// The child nodes of a node, in traversal order.
pub open spec fn children(n: Node) -> Seq<Node> {
    match n {
        Node::Program { statements, .. } => seq![*statements],
        Node::Statements { body, .. } => body@,
        Node::Arguments { arguments, .. } => arguments@,
        Node::Call { receiver, arguments, block, .. } => opt_seq(receiver) + opt_seq(arguments)
            + opt_seq(block),
        Node::Block { parameters, body, .. } => opt_seq(parameters) + opt_seq(body),
        Node::BlockArgument { expression, .. } => opt_seq(expression),
        Node::BlockParameters { parameters, locals, .. } => opt_seq(parameters) + locals@,
        Node::Parameters { requireds, optionals, rest, posts, keywords, keyword_rest, block, .. } =>
            requireds@ + optionals@ + opt_seq(rest) + posts@ + keywords@ + opt_seq(keyword_rest)
            + opt_seq(block),
        Node::If { predicate, statements, subsequent, .. } => seq![*predicate] + opt_seq(statements)
            + opt_seq(subsequent),
        Node::Unless { predicate, statements, else_clause, .. } => seq![*predicate] + opt_seq(
            statements,
        ) + opt_seq(else_clause),
        Node::Else { statements, .. } => opt_seq(statements),
        Node::InterpolatedStr { parts, .. } => parts@,
        Node::InterpolatedXStr { parts, .. } => parts@,
        Node::ConstantPath { parent, .. } => opt_seq(parent),
        Node::Def { receiver, parameters, body, .. } => opt_seq(receiver) + opt_seq(parameters)
            + opt_seq(body),
        Node::Range { left, right, .. } => opt_seq(left) + opt_seq(right),
        Node::Hash { elements, .. } => elements@,
        Node::KeywordHash { elements, .. } => elements@,
        Node::Assoc { key, value, .. } => seq![*key, *value],
        Node::Implicit { value, .. } => seq![*value],
        Node::Array { elements, .. } => elements@,
        Node::For { index, collection, statements, .. } => seq![*index, *collection] + opt_seq(
            statements,
        ),
        Node::PostExecution { statements, .. } => opt_seq(statements),
        Node::Named { value, .. } => opt_seq(value),
        Node::Other { children, .. } => children@,
        _ => Seq::empty(),
    }
}

proof fn lemma_vec_decreases(n: Node, v: Vec<Node>)
    requires
        decreases_to!(n => v),
    ensures
        forall|i: int| 0 <= i < v@.len() ==> decreases_to!(n => #[trigger] v@[i]),
{
    assert(decreases_to!(v => v@));
    assert forall|i: int| 0 <= i < v@.len() implies decreases_to!(n => #[trigger] v@[i]) by {
        assert(decreases_to!(v@ => v@[i]));
    }
}

/// Every child of a node is smaller than the node.
pub proof fn lemma_children_decrease(n: Node)
    ensures
        forall|i: int| 0 <= i < children(n).len() ==> decreases_to!(n => #[trigger] children(n)[i]),
{
    match n {
        Node::Statements { body, .. } => lemma_vec_decreases(n, body),
        _ => {},
    }
}

fn push_opt<'a>(v: &mut Vec<&'a Node>, o: &'a Option<Box<Node>>)
    ensures
        final(v)@.map_values(|x: &Node| *x) == old(v)@.map_values(|x: &Node| *x) + opt_seq(*o),
{
    let ghost old_v = v@;
    match o {
        Some(b) => {
            v.push(&**b);
            assert(v@.map_values(|x: &Node| *x) =~= old_v.map_values(|x: &Node| *x) + opt_seq(*o));
        },
        None => {
            assert(v@.map_values(|x: &Node| *x) =~= old_v.map_values(|x: &Node| *x) + opt_seq(*o));
        },
    }
}

fn push_all<'a>(v: &mut Vec<&'a Node>, s: &'a Vec<Node>)
    ensures
        final(v)@.map_values(|x: &Node| *x) == old(v)@.map_values(|x: &Node| *x) + s@,
{
    let ghost old_v = v@.map_values(|x: &Node| *x);
    let mut i: usize = 0;
    while i < s.len()
        invariant
            i <= s@.len(),
            v@.map_values(|x: &Node| *x) == old_v + s@.subrange(0, i as int),
        decreases s@.len() - i,
    {
        let ghost prev = v@;
        v.push(&s[i]);
        assert(v@.map_values(|x: &Node| *x) =~= prev.map_values(|x: &Node| *x).push(s@[i as int]));
        assert(s@.subrange(0, i + 1) =~= s@.subrange(0, i as int).push(s@[i as int]));
        assert(v@.map_values(|x: &Node| *x) =~= old_v + s@.subrange(0, i + 1));
        i = i + 1;
    }
    assert(s@.subrange(0, s@.len() as int) =~= s@);
}

/// The child nodes of `n`, in traversal order.
#[verifier::rlimit(50)]
pub fn children_of(n: &Node) -> (r: Vec<&Node>)
    ensures
        r@.map_values(|x: &Node| *x) == children(*n),
{
    let mut v: Vec<&Node> = Vec::new();
    let ghost e = v@.map_values(|x: &Node| *x);
    assert(e =~= Seq::<Node>::empty());
    match n {
        Node::Program { statements, .. } => {
            v.push(&**statements);
        },
        Node::Statements { body, .. } => push_all(&mut v, body),
        Node::Arguments { arguments, .. } => push_all(&mut v, arguments),
        Node::Call { receiver, arguments, block, .. } => {
            push_opt(&mut v, receiver);
            push_opt(&mut v, arguments);
            push_opt(&mut v, block);
        },
        Node::Block { parameters, body, .. } => {
            push_opt(&mut v, parameters);
            push_opt(&mut v, body);
        },
        Node::BlockArgument { expression, .. } => push_opt(&mut v, expression),
        Node::BlockParameters { parameters, locals, .. } => {
            push_opt(&mut v, parameters);
            push_all(&mut v, locals);
        },
        Node::Parameters { requireds, optionals, rest, posts, keywords, keyword_rest, block, .. } => {
            push_all(&mut v, requireds);
            push_all(&mut v, optionals);
            push_opt(&mut v, rest);
            push_all(&mut v, posts);
            push_all(&mut v, keywords);
            push_opt(&mut v, keyword_rest);
            push_opt(&mut v, block);
        },
        Node::If { predicate, statements, subsequent, .. } => {
            v.push(&**predicate);
            push_opt(&mut v, statements);
            push_opt(&mut v, subsequent);
        },
        Node::Unless { predicate, statements, else_clause, .. } => {
            v.push(&**predicate);
            push_opt(&mut v, statements);
            push_opt(&mut v, else_clause);
        },
        Node::Else { statements, .. } => push_opt(&mut v, statements),
        Node::InterpolatedStr { parts, .. } => push_all(&mut v, parts),
        Node::InterpolatedXStr { parts, .. } => push_all(&mut v, parts),
        Node::ConstantPath { parent, .. } => push_opt(&mut v, parent),
        Node::Def { receiver, parameters, body, .. } => {
            push_opt(&mut v, receiver);
            push_opt(&mut v, parameters);
            push_opt(&mut v, body);
        },
        Node::Range { left, right, .. } => {
            push_opt(&mut v, left);
            push_opt(&mut v, right);
        },
        Node::Hash { elements, .. } => push_all(&mut v, elements),
        Node::KeywordHash { elements, .. } => push_all(&mut v, elements),
        Node::Assoc { key, value, .. } => {
            v.push(&**key);
            v.push(&**value);
        },
        Node::Implicit { value, .. } => {
            v.push(&**value);
        },
        Node::Array { elements, .. } => push_all(&mut v, elements),
        Node::For { index, collection, statements, .. } => {
            v.push(&**index);
            v.push(&**collection);
            push_opt(&mut v, statements);
        },
        Node::PostExecution { statements, .. } => push_opt(&mut v, statements),
        Node::Named { value, .. } => push_opt(&mut v, value),
        Node::Other { children, .. } => push_all(&mut v, children),
        _ => {},
    }
    assert(v@.map_values(|x: &Node| *x) =~= children(*n));
    v
}

/// All nodes of the tree rooted at `n`, in pre-order (the order in which a
/// depth-first traversal enters them).
pub open spec fn flatten(n: Node) -> Seq<Node>
    decreases n,
{
    seq![n] + match n {
        Node::Program { statements, .. } => flatten(*statements),
        Node::Statements { body, .. } => flatten_list(body@),
        Node::Arguments { arguments, .. } => flatten_list(arguments@),
        Node::Call { receiver, arguments, block, .. } => flatten_opt(receiver) + flatten_opt(
            arguments,
        ) + flatten_opt(block),
        Node::Block { parameters, body, .. } => flatten_opt(parameters) + flatten_opt(body),
        Node::BlockArgument { expression, .. } => flatten_opt(expression),
        Node::BlockParameters { parameters, locals, .. } => flatten_opt(parameters)
            + flatten_list(locals@),
        Node::Parameters { requireds, optionals, rest, posts, keywords, keyword_rest, block, .. } =>
            flatten_list(requireds@) + flatten_list(optionals@) + flatten_opt(rest) + flatten_list(
            posts@,
        ) + flatten_list(keywords@) + flatten_opt(keyword_rest) + flatten_opt(block),
        Node::If { predicate, statements, subsequent, .. } => flatten(*predicate) + flatten_opt(
            statements,
        ) + flatten_opt(subsequent),
        Node::Unless { predicate, statements, else_clause, .. } => flatten(*predicate)
            + flatten_opt(statements) + flatten_opt(else_clause),
        Node::Else { statements, .. } => flatten_opt(statements),
        Node::InterpolatedStr { parts, .. } => flatten_list(parts@),
        Node::InterpolatedXStr { parts, .. } => flatten_list(parts@),
        Node::ConstantPath { parent, .. } => flatten_opt(parent),
        Node::Def { receiver, parameters, body, .. } => flatten_opt(receiver) + flatten_opt(
            parameters,
        ) + flatten_opt(body),
        Node::Range { left, right, .. } => flatten_opt(left) + flatten_opt(right),
        Node::Hash { elements, .. } => flatten_list(elements@),
        Node::KeywordHash { elements, .. } => flatten_list(elements@),
        Node::Assoc { key, value, .. } => flatten(*key) + flatten(*value),
        Node::Implicit { value, .. } => flatten(*value),
        Node::Array { elements, .. } => flatten_list(elements@),
        Node::For { index, collection, statements, .. } => flatten(*index) + flatten(*collection)
            + flatten_opt(statements),
        Node::PostExecution { statements, .. } => flatten_opt(statements),
        Node::Named { value, .. } => flatten_opt(value),
        Node::Other { children, .. } => flatten_list(children@),
        _ => Seq::empty(),
    }
}

pub open spec fn flatten_opt(o: Option<Box<Node>>) -> Seq<Node>
    decreases o,
{
    match o {
        Some(b) => flatten(*b),
        None => Seq::empty(),
    }
}

pub open spec fn flatten_list(s: Seq<Node>) -> Seq<Node>
    decreases s,
{
    if s.len() == 0 {
        Seq::empty()
    } else {
        flatten_list(s.drop_last()) + flatten(s.last())
    }
}

fn walk_opt<'a>(o: &'a Option<Box<Node>>, out: &mut Vec<&'a Node>)
    ensures
        final(out)@.map_values(|x: &Node| *x) == old(out)@.map_values(|x: &Node| *x) + flatten_opt(*o),
    decreases o,
{
    match o {
        Some(b) => walk(&**b, out),
        None => {
            assert(out@.map_values(|x: &Node| *x) =~= out@.map_values(|x: &Node| *x) + flatten_opt(*o));
        },
    }
}

fn walk_list<'a>(v: &'a Vec<Node>, out: &mut Vec<&'a Node>)
    ensures
        final(out)@.map_values(|x: &Node| *x) == old(out)@.map_values(|x: &Node| *x) + flatten_list(v@),
    decreases v,
{
    let ghost o = out@.map_values(|x: &Node| *x);
    let mut i: usize = 0;
    assert(v@.subrange(0, 0) =~= Seq::<Node>::empty());
    while i < v.len()
        invariant
            i <= v@.len(),
            out@.map_values(|x: &Node| *x) == o + flatten_list(v@.subrange(0, i as int)),
        decreases v@.len() - i,
    {
        assert(decreases_to!(v => v@));
        walk(&v[i], out);
        assert(v@.subrange(0, i + 1).drop_last() =~= v@.subrange(0, i as int));
        i = i + 1;
    }
    assert(v@.subrange(0, v@.len() as int) =~= v@);
}

/// Appends the nodes of the tree rooted at `n` to `out`, in pre-order.
#[verifier::rlimit(100)]
#[verifier::spinoff_prover]
pub fn walk<'a>(n: &'a Node, out: &mut Vec<&'a Node>)
    ensures
        final(out)@.map_values(|x: &Node| *x) == old(out)@.map_values(|x: &Node| *x) + flatten(*n),
    decreases n,
{
    let ghost o = out@.map_values(|x: &Node| *x);
    out.push(n);
    assert(out@.map_values(|x: &Node| *x) =~= o + seq![*n]);
    match n {
        Node::Program { statements, .. } => walk(&**statements, out),
        Node::Statements { body, .. } => walk_list(body, out),
        Node::Arguments { arguments, .. } => walk_list(arguments, out),
        Node::Call { receiver, arguments, block, .. } => {
            walk_opt(receiver, out);
            walk_opt(arguments, out);
            walk_opt(block, out);
        },
        Node::Block { parameters, body, .. } => {
            walk_opt(parameters, out);
            walk_opt(body, out);
        },
        Node::BlockArgument { expression, .. } => walk_opt(expression, out),
        Node::BlockParameters { parameters, locals, .. } => {
            walk_opt(parameters, out);
            walk_list(locals, out);
        },
        Node::Parameters { requireds, optionals, rest, posts, keywords, keyword_rest, block, .. } => {
            walk_list(requireds, out);
            walk_list(optionals, out);
            walk_opt(rest, out);
            walk_list(posts, out);
            walk_list(keywords, out);
            walk_opt(keyword_rest, out);
            walk_opt(block, out);
        },
        Node::If { predicate, statements, subsequent, .. } => {
            walk(&**predicate, out);
            walk_opt(statements, out);
            walk_opt(subsequent, out);
        },
        Node::Unless { predicate, statements, else_clause, .. } => {
            walk(&**predicate, out);
            walk_opt(statements, out);
            walk_opt(else_clause, out);
        },
        Node::Else { statements, .. } => walk_opt(statements, out),
        Node::InterpolatedStr { parts, .. } => walk_list(parts, out),
        Node::InterpolatedXStr { parts, .. } => walk_list(parts, out),
        Node::ConstantPath { parent, .. } => walk_opt(parent, out),
        Node::Def { receiver, parameters, body, .. } => {
            walk_opt(receiver, out);
            walk_opt(parameters, out);
            walk_opt(body, out);
        },
        Node::Range { left, right, .. } => {
            walk_opt(left, out);
            walk_opt(right, out);
        },
        Node::Hash { elements, .. } => walk_list(elements, out),
        Node::KeywordHash { elements, .. } => walk_list(elements, out),
        Node::Assoc { key, value, .. } => {
            walk(&**key, out);
            walk(&**value, out);
        },
        Node::Implicit { value, .. } => walk(&**value, out),
        Node::Array { elements, .. } => walk_list(elements, out),
        Node::For { index, collection, statements, .. } => {
            walk(&**index, out);
            walk(&**collection, out);
            walk_opt(statements, out);
        },
        Node::PostExecution { statements, .. } => walk_opt(statements, out),
        Node::Named { value, .. } => walk_opt(value, out),
        Node::Other { children, .. } => walk_list(children, out),
        _ => {},
    }
    assert(out@.map_values(|x: &Node| *x) =~= o + flatten(*n));
}

/// A rule that says at which nodes a traversal stops descending.
pub trait PruneRule: Sized + Copy {
    spec fn stops(self, n: Node) -> bool;

    fn stops_exec(&self, n: &Node) -> (r: bool)
        ensures
            r == self.stops(*n),
    ;
}

/// The nodes of the tree rooted at `n` in pre-order, where the traversal
/// enters a node that `rule` stops at but not its children.
pub open spec fn pruned<R: PruneRule>(n: Node, rule: R) -> Seq<Node>
    decreases n,
{
    seq![n] + if rule.stops(n) {
        Seq::empty()
    } else {
        match n {
        Node::Program { statements, .. } => pruned(*statements, rule),
        Node::Statements { body, .. } => pruned_list(body@, rule),
        Node::Arguments { arguments, .. } => pruned_list(arguments@, rule),
        Node::Call { receiver, arguments, block, .. } => pruned_opt(receiver, rule) + pruned_opt(arguments, rule) + pruned_opt(block, rule),
        Node::Block { parameters, body, .. } => pruned_opt(parameters, rule) + pruned_opt(body, rule),
        Node::BlockArgument { expression, .. } => pruned_opt(expression, rule),
        Node::BlockParameters { parameters, locals, .. } => pruned_opt(parameters, rule)
            + pruned_list(locals@, rule),
        Node::Parameters { requireds, optionals, rest, posts, keywords, keyword_rest, block, .. } =>
            pruned_list(requireds@, rule) + pruned_list(optionals@, rule) + pruned_opt(rest, rule) + pruned_list(posts@, rule) + pruned_list(keywords@, rule) + pruned_opt(keyword_rest, rule) + pruned_opt(block, rule),
        Node::If { predicate, statements, subsequent, .. } => pruned(*predicate, rule) + pruned_opt(statements, rule) + pruned_opt(subsequent, rule),
        Node::Unless { predicate, statements, else_clause, .. } => pruned(*predicate, rule)
            + pruned_opt(statements, rule) + pruned_opt(else_clause, rule),
        Node::Else { statements, .. } => pruned_opt(statements, rule),
        Node::InterpolatedStr { parts, .. } => pruned_list(parts@, rule),
        Node::InterpolatedXStr { parts, .. } => pruned_list(parts@, rule),
        Node::ConstantPath { parent, .. } => pruned_opt(parent, rule),
        Node::Def { receiver, parameters, body, .. } => pruned_opt(receiver, rule) + pruned_opt(parameters, rule) + pruned_opt(body, rule),
        Node::Range { left, right, .. } => pruned_opt(left, rule) + pruned_opt(right, rule),
        Node::Hash { elements, .. } => pruned_list(elements@, rule),
        Node::KeywordHash { elements, .. } => pruned_list(elements@, rule),
        Node::Assoc { key, value, .. } => pruned(*key, rule) + pruned(*value, rule),
        Node::Implicit { value, .. } => pruned(*value, rule),
        Node::Array { elements, .. } => pruned_list(elements@, rule),
        Node::For { index, collection, statements, .. } => pruned(*index, rule) + pruned(*collection, rule)
            + pruned_opt(statements, rule),
        Node::PostExecution { statements, .. } => pruned_opt(statements, rule),
        Node::Named { value, .. } => pruned_opt(value, rule),
        Node::Other { children, .. } => pruned_list(children@, rule),
        _ => Seq::empty(),
    }
    }
}

pub open spec fn pruned_opt<R: PruneRule>(o: Option<Box<Node>>, rule: R) -> Seq<Node>
    decreases o,
{
    match o {
        Some(b) => pruned(*b, rule),
        None => Seq::empty(),
    }
}

pub open spec fn pruned_list<R: PruneRule>(s: Seq<Node>, rule: R) -> Seq<Node>
    decreases s,
{
    if s.len() == 0 {
        Seq::empty()
    } else {
        pruned_list(s.drop_last(), rule) + pruned(s.last(), rule)
    }
}

fn walk_pruned_opt<'a, R: PruneRule>(o: &'a Option<Box<Node>>, rule: &R, out: &mut Vec<&'a Node>)
    ensures
        final(out)@.map_values(|x: &Node| *x) == old(out)@.map_values(|x: &Node| *x) + pruned_opt(*o, *rule),
    decreases o,
{
    match o {
        Some(b) => walk_pruned(&**b, rule, out),
        None => {
            assert(out@.map_values(|x: &Node| *x) =~= out@.map_values(|x: &Node| *x) + pruned_opt(*o, *rule));
        },
    }
}

fn walk_pruned_list<'a, R: PruneRule>(v: &'a Vec<Node>, rule: &R, out: &mut Vec<&'a Node>)
    ensures
        final(out)@.map_values(|x: &Node| *x) == old(out)@.map_values(|x: &Node| *x) + pruned_list(v@, *rule),
    decreases v,
{
    let ghost o = out@.map_values(|x: &Node| *x);
    let mut i: usize = 0;
    assert(v@.subrange(0, 0) =~= Seq::<Node>::empty());
    while i < v.len()
        invariant
            i <= v@.len(),
            out@.map_values(|x: &Node| *x) == o + pruned_list(v@.subrange(0, i as int), *rule),
        decreases v@.len() - i,
    {
        assert(decreases_to!(v => v@));
        walk_pruned(&v[i], rule, out);
        assert(v@.subrange(0, i + 1).drop_last() =~= v@.subrange(0, i as int));
        i = i + 1;
    }
    assert(v@.subrange(0, v@.len() as int) =~= v@);
}

/// Appends the nodes of `pruned(n, rule)` to `out`.
#[verifier::rlimit(100)]
#[verifier::spinoff_prover]
pub fn walk_pruned<'a, R: PruneRule>(n: &'a Node, rule: &R, out: &mut Vec<&'a Node>)
    ensures
        final(out)@.map_values(|x: &Node| *x) == old(out)@.map_values(|x: &Node| *x) + pruned(*n, *rule),
    decreases n,
{
    let ghost o = out@.map_values(|x: &Node| *x);
    out.push(n);
    assert(out@.map_values(|x: &Node| *x) =~= o + seq![*n]);
    if rule.stops_exec(n) {
        assert(out@.map_values(|x: &Node| *x) =~= o + pruned(*n, *rule));
        return;
    }
    match n {
        Node::Program { statements, .. } => walk_pruned(&**statements, rule, out),
        Node::Statements { body, .. } => walk_pruned_list(body, rule, out),
        Node::Arguments { arguments, .. } => walk_pruned_list(arguments, rule, out),
        Node::Call { receiver, arguments, block, .. } => {
            walk_pruned_opt(receiver, rule, out);
            walk_pruned_opt(arguments, rule, out);
            walk_pruned_opt(block, rule, out);
        },
        Node::Block { parameters, body, .. } => {
            walk_pruned_opt(parameters, rule, out);
            walk_pruned_opt(body, rule, out);
        },
        Node::BlockArgument { expression, .. } => walk_pruned_opt(expression, rule, out),
        Node::BlockParameters { parameters, locals, .. } => {
            walk_pruned_opt(parameters, rule, out);
            walk_pruned_list(locals, rule, out);
        },
        Node::Parameters { requireds, optionals, rest, posts, keywords, keyword_rest, block, .. } => {
            walk_pruned_list(requireds, rule, out);
            walk_pruned_list(optionals, rule, out);
            walk_pruned_opt(rest, rule, out);
            walk_pruned_list(posts, rule, out);
            walk_pruned_list(keywords, rule, out);
            walk_pruned_opt(keyword_rest, rule, out);
            walk_pruned_opt(block, rule, out);
        },
        Node::If { predicate, statements, subsequent, .. } => {
            walk_pruned(&**predicate, rule, out);
            walk_pruned_opt(statements, rule, out);
            walk_pruned_opt(subsequent, rule, out);
        },
        Node::Unless { predicate, statements, else_clause, .. } => {
            walk_pruned(&**predicate, rule, out);
            walk_pruned_opt(statements, rule, out);
            walk_pruned_opt(else_clause, rule, out);
        },
        Node::Else { statements, .. } => walk_pruned_opt(statements, rule, out),
        Node::InterpolatedStr { parts, .. } => walk_pruned_list(parts, rule, out),
        Node::InterpolatedXStr { parts, .. } => walk_pruned_list(parts, rule, out),
        Node::ConstantPath { parent, .. } => walk_pruned_opt(parent, rule, out),
        Node::Def { receiver, parameters, body, .. } => {
            walk_pruned_opt(receiver, rule, out);
            walk_pruned_opt(parameters, rule, out);
            walk_pruned_opt(body, rule, out);
        },
        Node::Range { left, right, .. } => {
            walk_pruned_opt(left, rule, out);
            walk_pruned_opt(right, rule, out);
        },
        Node::Hash { elements, .. } => walk_pruned_list(elements, rule, out),
        Node::KeywordHash { elements, .. } => walk_pruned_list(elements, rule, out),
        Node::Assoc { key, value, .. } => {
            walk_pruned(&**key, rule, out);
            walk_pruned(&**value, rule, out);
        },
        Node::Implicit { value, .. } => walk_pruned(&**value, rule, out),
        Node::Array { elements, .. } => walk_pruned_list(elements, rule, out),
        Node::For { index, collection, statements, .. } => {
            walk_pruned(&**index, rule, out);
            walk_pruned(&**collection, rule, out);
            walk_pruned_opt(statements, rule, out);
        },
        Node::PostExecution { statements, .. } => walk_pruned_opt(statements, rule, out),
        Node::Named { value, .. } => walk_pruned_opt(value, rule, out),
        Node::Other { children, .. } => walk_pruned_list(children, rule, out),
        _ => {},
    }
    assert(out@.map_values(|x: &Node| *x) =~= o + pruned(*n, *rule));
}

/// All nodes of the tree rooted at `n`, in pre-order.
pub fn preorder(n: &Node) -> (r: Vec<&Node>)
    ensures
        r@.map_values(|x: &Node| *x) == flatten(*n),
{
    let mut out: Vec<&Node> = Vec::new();
    assert(out@.map_values(|x: &Node| *x) =~= Seq::<Node>::empty());
    walk(n, &mut out);
    assert(out@.map_values(|x: &Node| *x) =~= flatten(*n));
    out
}

/// Whether `n` is `Name` or `::Name` for the constant `name`.
pub fn is_top_constant_exec(n: &Node, name: &str) -> (r: bool)
    ensures
        r == n.is_top_constant(name.spec_bytes()),
{
    match n {
        Node::Named { kind: NamedKind::ConstantRead, name: m, .. } => eq_str(m.as_slice(), name),
        Node::ConstantPath { parent: None, name: m, .. } => eq_str(m.as_slice(), name),
        _ => false,
    }
}

/// Whether `n` is a node of the Prism type `ty` kept as `Other`.
pub open spec fn is_other(n: Node, ty: Seq<u8>) -> bool {
    n matches Node::Other { node_type, .. } && node_type@ == ty
}

pub fn is_other_exec(n: &Node, ty: &str) -> (r: bool)
    ensures
        r == is_other(*n, ty.spec_bytes()),
{
    match n {
        Node::Other { node_type, .. } => eq_str(node_type.as_slice(), ty),
        _ => false,
    }
}

/// The argument nodes of a call.
pub fn call_args_exec(n: &Node) -> (r: &[Node])
    ensures
        r@ == n.call_args(),
{
    match n {
        Node::Call { arguments: Some(a), .. } => match &**a {
            Node::Arguments { arguments, .. } => arguments.as_slice(),
            _ => {
                let e: &[Node] = &[];
                assert(e@ =~= n.call_args());
                e
            },
        },
        _ => {
            let e: &[Node] = &[];
            assert(e@ =~= n.call_args());
            e
        },
    }
}

} // verus!
