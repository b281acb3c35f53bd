//! Style/DoubleNegation: `!!x`, allowed (by default) where it is the value a
//! method returns.
use vstd::prelude::*;
use vstd::string::StringSliceAdditionalSpecFns;
use crate::ast::{children, children_of, is_other, is_other_exec, lemma_children_decrease, NamedKind, Node};
use crate::bytes::{ends_with, ends_with_str, eq_str, src_range, src_range_exec, subslice};
use crate::diagnostic::{diagnostic, offense, offenses, str_bytes, Diagnostic, Offense};
use crate::source::{spec_column_of, spec_line_of, SourceFile};

verus! {

/// The cop.
pub struct DoubleNegation;

/// The configured style.
#[derive(Clone, Copy, PartialEq, Eq, Structural, Debug)]
pub enum DoubleNegationStyle {
    /// `!!` is allowed as a return value.
    AllowedInReturns,
    /// `!!` is never allowed.
    Forbidden,
}

pub open spec fn double_negation_msg() -> Seq<u8> {
    "Avoid the use of double negation (`!!`).".spec_bytes()
}

/// What the cop knows of the last expression of a method body.
pub struct DefInfo {
    pub first_line: int,
    pub last_line: int,
    pub is_hash_or_pair: bool,
    pub parent_is_array: bool,
}

/// Where the traversal is: the innermost method body's last expression, the
/// last line of the innermost conditional and of the innermost statements
/// (both inside that method), and whether the node's parent is a statements
/// node with several statements.
pub struct Ctx {
    pub def: Option<DefInfo>,
    pub cond: Option<int>,
    pub stmts: Option<int>,
    pub parent_is_statements: bool,
}

/// The line on which a node ends (its last byte's line).
pub open spec fn last_line(src: Seq<u8>, start: int, end: int) -> int {
    spec_line_of(src, if end > start { end - 1 } else { start })
}

pub open spec fn def_info(src: Seq<u8>, n: Node, parent_is_array: bool) -> DefInfo {
    DefInfo {
        first_line: spec_line_of(src, n.spec_loc().start as int),
        last_line: last_line(src, n.spec_loc().start as int, n.spec_loc().end as int),
        is_hash_or_pair: n is Hash || n is KeywordHash || n is Assoc || is_other(
            n,
            "AssocSplatNode".spec_bytes(),
        ),
        parent_is_array,
    }
}

/// The last child of an expression as the `parser` gem sees it: the last
/// argument of a call (or its receiver), the value of an assignment.
pub open spec fn parser_last_child(n: Node) -> Option<Node> {
    match n {
        Node::Call { block: Some(_), .. } => None,
        Node::Call { arguments: Some(_), .. } => if n.call_args().len() > 0 {
            Some(n.call_args().last())
        } else {
            None
        },
        Node::Call { receiver, .. } => match receiver {
            Some(r) => Some(*r),
            None => None,
        },
        Node::Named { kind, value: Some(v), .. } => if kind == NamedKind::LocalVariableWrite || kind
            == NamedKind::InstanceVariableWrite {
            Some(*v)
        } else {
            None
        },
        _ => None,
    }
}

/// The last expression of a body of statements.
pub open spec fn last_of_stmts(src: Seq<u8>, body: Seq<Node>) -> Option<DefInfo> {
    if body.len() == 0 {
        None
    } else {
        let last = body.last();
        if body.len() == 1 {
            match last {
                Node::Hash { elements, .. } => if elements@.len() > 0 {
                    Some(def_info(src, elements@.last(), false))
                } else {
                    Some(def_info(src, last, false))
                },
                Node::Array { elements, .. } => if elements@.len() > 0 {
                    Some(def_info(src, elements@.last(), true))
                } else {
                    Some(def_info(src, last, false))
                },
                _ => match parser_last_child(last) {
                    Some(c) => Some(def_info(src, c, false)),
                    None => Some(def_info(src, last, false)),
                },
            }
        } else {
            Some(def_info(src, last, false))
        }
    }
}

/// The last expression of a method body.
pub open spec fn last_child_info(src: Seq<u8>, body: Node) -> Option<DefInfo> {
    match body {
        Node::Statements { body: b, .. } => last_of_stmts(src, b@),
        _ => if is_other(body, "BeginNode".spec_bytes()) {
            if body->Other_children@.len() > 0 && body->Other_children@[0] is Statements {
                last_of_stmts(src, body->Other_children@[0]->Statements_body@)
            } else {
                None
            }
        } else {
            Some(def_info(src, body, false))
        },
    }
}

/// The context inside a method whose body is `body`.
pub open spec fn enter_def(src: Seq<u8>, body: Option<Box<Node>>, c: Ctx) -> Ctx {
    let def = match body {
        Some(b) => match last_child_info(src, *b) {
            Some(i) => Some(i),
            None => c.def,
        },
        None => c.def,
    };
    Ctx { def, cond: None, stmts: None, parent_is_statements: false }
}

/// `define_method`/`define_singleton_method` without receiver and with a
/// literal block: the body of that block.
pub open spec fn define_method_body(n: Node) -> Option<Option<Box<Node>>> {
    match n {
        Node::Call { name, receiver: None, block: Some(b), .. } => if (name@
            == "define_method".spec_bytes() || name@ == "define_singleton_method".spec_bytes()) {
            match *b {
                Node::Block { body, .. } => Some(body),
                _ => None,
            }
        } else {
            None
        },
        _ => None,
    }
}

/// A conditional: `if`, `unless`, `case`, `case ... in`.
pub open spec fn is_conditional(n: Node) -> bool {
    n is If || n is Unless || is_other(n, "CaseNode".spec_bytes()) || is_other(
        n,
        "CaseMatchNode".spec_bytes(),
    )
}

/// The context for the children of `n`.
pub open spec fn child_ctx(src: Seq<u8>, n: Node, c: Ctx) -> Ctx {
    match n {
        Node::Call { .. } => match define_method_body(n) {
            Some(body) => enter_def(src, body, c),
            None => Ctx { parent_is_statements: false, ..c },
        },
        Node::Def { body, .. } => enter_def(src, body, c),
        Node::Statements { body, loc } => if c.def is Some {
            Ctx {
                stmts: Some(last_line(src, loc.start as int, loc.end as int)),
                parent_is_statements: body@.len() > 1,
                ..c
            }
        } else {
            c
        },
        _ => if is_conditional(n) && c.def is Some {
            Ctx {
                cond: Some(last_line(src, n.spec_loc().start as int, n.spec_loc().end as int)),
                stmts: None,
                ..c
            }
        } else {
            c
        },
    }
}

/// `return` directly before the node (with only ASCII white space between,
/// and not as the end of a longer word).
pub open spec fn spec_is_after_return_keyword(src: Seq<u8>, start: int) -> bool {
    start >= 7 && {
        let t = trim_ascii_end(src_range(src, 0, start));
        ends_with(t, "return".spec_bytes()) && {
            let before = t.len() - 6;
            before == 0 || !is_word(t[before - 1])
        }
    }
}

pub open spec fn is_word(b: u8) -> bool {
    (65u8 <= b <= 90u8) || (97u8 <= b <= 122u8) || (48u8 <= b <= 57u8) || b == 95u8
}

pub open spec fn is_ascii_ws(b: u8) -> bool {
    b == 32u8 || b == 9u8 || b == 10u8 || b == 12u8 || b == 13u8
}

/// `s` without trailing ASCII white space.
pub open spec fn trim_ascii_end(s: Seq<u8>) -> Seq<u8>
    decreases s.len(),
{
    if s.len() > 0 && is_ascii_ws(s.last()) {
        trim_ascii_end(s.drop_last())
    } else {
        s
    }
}

/// Whether the `!!` at `start` is the value the enclosing method returns.
pub open spec fn end_of_method(src: Seq<u8>, start: int, c: Ctx) -> bool {
    match c.def {
        None => false,
        Some(info) => {
            let line = spec_line_of(src, start);
            match c.cond {
                Some(cl) => if c.parent_is_statements && (c.stmts matches Some(sl) && sl != line) {
                    false
                } else {
                    info.last_line <= cl
                },
                None => !info.is_hash_or_pair && !info.parent_is_array && info.first_line <= line,
            }
        },
    }
}

/// A `!` call written with `!` (not `not`).
pub open spec fn is_bang(src: Seq<u8>, n: Node) -> bool {
    &&& n matches Node::Call { name, .. } && name@ == "!".spec_bytes()
    &&& (n->Call_message_loc matches Some(m) ==> src_range(src, m.start as int, m.end as int)
        != "not".spec_bytes())
}

/// The offense at the node itself.
pub open spec fn own_offense(src: Seq<u8>, n: Node, c: Ctx, style: DoubleNegationStyle) -> Seq<Offense> {
    let start = n.spec_loc().start as int;
    if is_bang(src, n) && (n->Call_receiver matches Some(r) && is_bang(src, *r)) && !(style
        == DoubleNegationStyle::AllowedInReturns && (spec_is_after_return_keyword(src, start)
        || end_of_method(src, start, c))) {
        seq![offense(spec_line_of(src, start), spec_column_of(src, start), double_negation_msg())]
    } else {
        Seq::empty()
    }
}

/// The offenses of the tree rooted at `n`, in traversal order.
pub open spec fn tree_offenses(src: Seq<u8>, n: Node, c: Ctx, style: DoubleNegationStyle) -> Seq<Offense>
    decreases n, children(n).len() + 1,
{
    own_offense(src, n, c, style) + children_offenses(
        src,
        n,
        children(n).len() as int,
        child_ctx(src, n, c),
        style,
    )
}

pub open spec fn children_offenses(src: Seq<u8>, n: Node, k: int, c: Ctx, style: DoubleNegationStyle) -> Seq<Offense>
    decreases n, k,
{
    if k <= 0 || k > children(n).len() {
        Seq::empty()
    } else {
        proof {
            lemma_children_decrease(n);
        }
        children_offenses(src, n, k - 1, c, style) + tree_offenses(src, children(n)[k - 1], c, style)
    }
}

pub open spec fn top_ctx() -> Ctx {
    Ctx { def: None, cond: None, stmts: None, parent_is_statements: false }
}

pub open spec fn spec_check_source(src: Seq<u8>, root: Node, style: DoubleNegationStyle) -> Seq<Offense> {
    tree_offenses(src, root, top_ctx(), style)
}

/// The executable form of [`DefInfo`].
#[derive(Clone, Copy)]
pub struct DefFacts {
    pub first_line: usize,
    pub last_line: usize,
    pub is_hash_or_pair: bool,
    pub parent_is_array: bool,
}

impl View for DefFacts {
    type V = DefInfo;

    open spec fn view(&self) -> DefInfo {
        DefInfo {
            first_line: self.first_line as int,
            last_line: self.last_line as int,
            is_hash_or_pair: self.is_hash_or_pair,
            parent_is_array: self.parent_is_array,
        }
    }
}

/// The executable form of [`Ctx`].
#[derive(Clone, Copy)]
pub struct CtxFacts {
    pub def: Option<DefFacts>,
    pub cond: Option<usize>,
    pub stmts: Option<usize>,
    pub parent_is_statements: bool,
}

impl View for CtxFacts {
    type V = Ctx;

    open spec fn view(&self) -> Ctx {
        Ctx {
            def: match self.def {
                Some(d) => Some(d@),
                None => None,
            },
            cond: match self.cond {
                Some(x) => Some(x as int),
                None => None,
            },
            stmts: match self.stmts {
                Some(x) => Some(x as int),
                None => None,
            },
            parent_is_statements: self.parent_is_statements,
        }
    }
}

fn trim_ascii_end_exec(s: &[u8]) -> (r: &[u8])
    ensures
        r@ == trim_ascii_end(s@),
{
    let mut n = s.len();
    assert(s@.subrange(0, n as int) =~= s@);
    while n > 0 && (s[n - 1] == 32u8 || s[n - 1] == 9u8 || s[n - 1] == 10u8 || s[n - 1] == 12u8
        || s[n - 1] == 13u8)
        invariant
            n <= s@.len(),
            trim_ascii_end(s@) == trim_ascii_end(s@.subrange(0, n as int)),
        decreases n,
    {
        assert(s@.subrange(0, n as int).drop_last() =~= s@.subrange(0, n - 1));
        n = n - 1;
    }
    subslice(s, 0, n)
}

fn is_bang_exec(src: &[u8], n: &Node) -> (r: bool)
    ensures
        r == is_bang(src@, *n),
{
    match n {
        Node::Call { name, message_loc, .. } => {
            if !eq_str(name.as_slice(), "!") {
                return false;
            }
            match message_loc {
                Some(m) => !eq_str(src_range_exec(src, m.start, m.end), "not"),
                None => true,
            }
        },
        _ => false,
    }
}

/// The source, the style, and what the traversal reads of them.
pub struct DoubleNegationVisitor<'a> {
    pub source: &'a SourceFile,
    pub style: DoubleNegationStyle,
}

impl<'a> DoubleNegationVisitor<'a> {
    /// The 1-based line of `offset` (clamped to the text).
    pub fn line_of_offset(&self, offset: usize) -> (r: usize)
        ensures
            r == spec_line_of(self.source.text(), offset as int),
    {
        self.source.position(offset).0
    }

    /// The line of the last byte of the range `[start, end)`.
    pub fn last_line_of_node(&self, start: usize, end: usize) -> (r: usize)
        ensures
            r == last_line(self.source.text(), start as int, end as int),
    {
        let adjusted = if end > start {
            end - 1
        } else {
            start
        };
        self.line_of_offset(adjusted)
    }

    fn def_info_exec(&self, n: &Node, parent_is_array: bool) -> (r: DefFacts)
        ensures
            r@ == def_info(self.source.text(), *n, parent_is_array),
    {
        let l = n.loc();
        let is_hp = match n {
            Node::Hash { .. } => true,
            Node::KeywordHash { .. } => true,
            Node::Assoc { .. } => true,
            _ => is_other_exec(n, "AssocSplatNode"),
        };
        DefFacts {
            first_line: self.line_of_offset(l.start),
            last_line: self.last_line_of_node(l.start, l.end),
            is_hash_or_pair: is_hp,
            parent_is_array,
        }
    }

    fn last_of_stmts_exec(&self, body: &Vec<Node>) -> (r: Option<DefFacts>)
        ensures
            match r {
                Some(d) => last_of_stmts(self.source.text(), body@) == Some(d@),
                None => last_of_stmts(self.source.text(), body@) is None,
            },
    {
        if body.len() == 0 {
            return None;
        }
        let last = &body[body.len() - 1];
        if body.len() == 1 {
            match last {
                Node::Hash { elements, .. } => {
                    if elements.len() > 0 {
                        return Some(self.def_info_exec(&elements[elements.len() - 1], false));
                    }
                    return Some(self.def_info_exec(last, false));
                },
                Node::Array { elements, .. } => {
                    if elements.len() > 0 {
                        return Some(self.def_info_exec(&elements[elements.len() - 1], true));
                    }
                    return Some(self.def_info_exec(last, false));
                },
                _ => {},
            }
            let child: Option<&Node> = match last {
                Node::Call { block: Some(_), .. } => None,
                Node::Call { arguments: Some(_), .. } => {
                    let args = crate::ast::call_args_exec(last);
                    if args.len() > 0 {
                        Some(&args[args.len() - 1])
                    } else {
                        None
                    }
                },
                Node::Call { receiver, .. } => match receiver {
                    Some(r) => Some(&**r),
                    None => None,
                },
                Node::Named { kind, value: Some(v), .. } => {
                    if *kind == NamedKind::LocalVariableWrite || *kind
                        == NamedKind::InstanceVariableWrite {
                        Some(&**v)
                    } else {
                        None
                    }
                },
                _ => None,
            };
            match child {
                Some(c) => {
                    assert(parser_last_child(*last) == Some(*c));
                    return Some(self.def_info_exec(c, false));
                },
                None => {
                    assert(parser_last_child(*last) is None);
                },
            }
        }
        Some(self.def_info_exec(last, false))
    }

    fn last_child_info_exec(&self, body: &Node) -> (r: Option<DefFacts>)
        ensures
            match r {
                Some(d) => last_child_info(self.source.text(), *body) == Some(d@),
                None => last_child_info(self.source.text(), *body) is None,
            },
    {
        match body {
            Node::Statements { body: b, .. } => self.last_of_stmts_exec(b),
            Node::Other { children, .. } => {
                if is_other_exec(body, "BeginNode") {
                    if children.len() > 0 {
                        match &children[0] {
                            Node::Statements { body: b, .. } => {
                                return self.last_of_stmts_exec(b);
                            },
                            _ => {},
                        }
                    }
                    None
                } else {
                    Some(self.def_info_exec(body, false))
                }
            },
            _ => Some(self.def_info_exec(body, false)),
        }
    }

    fn enter_def_exec(&self, body: &Option<Box<Node>>, c: CtxFacts) -> (r: CtxFacts)
        ensures
            r@ == enter_def(self.source.text(), *body, c@),
    {
        let def = match body {
            Some(b) => match self.last_child_info_exec(b) {
                Some(i) => Some(i),
                None => c.def,
            },
            None => c.def,
        };
        CtxFacts { def, cond: None, stmts: None, parent_is_statements: false }
    }

    fn child_ctx_exec(&self, n: &Node, c: CtxFacts) -> (r: CtxFacts)
        ensures
            r@ == child_ctx(self.source.text(), *n, c@),
    {
        match n {
            Node::Call { name, receiver, block, .. } => {
                if receiver.is_none() && (eq_str(name.as_slice(), "define_method") || eq_str(
                    name.as_slice(),
                    "define_singleton_method",
                )) {
                    match block {
                        Some(b) => match &**b {
                            Node::Block { body, .. } => {
                                return self.enter_def_exec(body, c);
                            },
                            _ => {},
                        },
                        None => {},
                    }
                }
                CtxFacts { parent_is_statements: false, ..c }
            },
            Node::Def { body, .. } => self.enter_def_exec(body, c),
            Node::Statements { body, loc } => {
                if c.def.is_some() {
                    CtxFacts {
                        stmts: Some(self.last_line_of_node(loc.start, loc.end)),
                        parent_is_statements: body.len() > 1,
                        ..c
                    }
                } else {
                    c
                }
            },
            _ => {
                let conditional = match n {
                    Node::If { .. } => true,
                    Node::Unless { .. } => true,
                    _ => is_other_exec(n, "CaseNode") || is_other_exec(n, "CaseMatchNode"),
                };
                if conditional && c.def.is_some() {
                    let l = n.loc();
                    CtxFacts {
                        cond: Some(self.last_line_of_node(l.start, l.end)),
                        stmts: None,
                        ..c
                    }
                } else {
                    c
                }
            },
        }
    }

    fn is_after_return_keyword(&self, start: usize) -> (r: bool)
        ensures
            r == spec_is_after_return_keyword(self.source.text(), start as int),
    {
        if start < 7 {
            return false;
        }
        let src = self.source.as_bytes();
        let t = trim_ascii_end_exec(src_range_exec(src, 0, start));
        if !ends_with_str(t, "return") {
            return false;
        }
        proof {
            reveal_strlit("return");
            broadcast use vstd::string::group_string_axioms;
            assert(vstd::string::is_ascii("return"));
            assert("return".spec_bytes().len() == 6);
        }
        let before = t.len() - 6;
        if before == 0 {
            return true;
        }
        let b = t[before - 1];
        !((65u8 <= b && b <= 90u8) || (97u8 <= b && b <= 122u8) || (48u8 <= b && b <= 57u8) || b
            == 95u8)
    }

    fn end_of_method_exec(&self, start: usize, c: CtxFacts) -> (r: bool)
        ensures
            r == end_of_method(self.source.text(), start as int, c@),
    {
        let info = match c.def {
            Some(i) => i,
            None => {
                return false;
            },
        };
        let line = self.line_of_offset(start);
        match c.cond {
            Some(cl) => {
                if c.parent_is_statements {
                    match c.stmts {
                        Some(sl) => {
                            if sl != line {
                                return false;
                            }
                        },
                        None => {},
                    }
                }
                info.last_line <= cl
            },
            None => !info.is_hash_or_pair && !info.parent_is_array && info.first_line <= line,
        }
    }

    /// The offense at a `!!` call, unless it is allowed where it stands.
    fn check_double_negation(&self, n: &Node, c: CtxFacts, out: &mut Vec<Diagnostic>)
        ensures
            offenses(final(out)@) == offenses(old(out)@) + own_offense(
                self.source.text(),
                *n,
                c@,
                self.style,
            ),
    {
        let ghost o = offenses(out@);
        let src = self.source.as_bytes();
        let hit = is_bang_exec(src, n) && match n {
            Node::Call { receiver: Some(r), .. } => is_bang_exec(src, r),
            _ => false,
        };
        if hit {
            let start = n.loc().start;
            if !(self.style == DoubleNegationStyle::AllowedInReturns && (self.is_after_return_keyword(
                start,
            ) || self.end_of_method_exec(start, c))) {
                let (line, column) = self.source.position(start);
                out.push(diagnostic(line, column, str_bytes("Avoid the use of double negation (`!!`).")));
            }
        }
        assert(offenses(out@) =~= o + own_offense(self.source.text(), *n, c@, self.style));
    }

    fn visit(&self, n: &Node, c: CtxFacts, out: &mut Vec<Diagnostic>)
        ensures
            offenses(final(out)@) == offenses(old(out)@) + tree_offenses(
                self.source.text(),
                *n,
                c@,
                self.style,
            ),
        decreases n, children(*n).len() + 1,
    {
        let ghost o = offenses(out@);
        let ghost src = self.source.text();
        self.check_double_negation(n, c, out);
        let ghost o1 = offenses(out@);
        let cc = self.child_ctx_exec(n, c);
        let kids = children_of(n);
        let ghost cs = kids@.map_values(|x: &Node| *x);
        let mut i: usize = 0;
        while i < kids.len()
            invariant
                i <= kids@.len(),
                cs == kids@.map_values(|x: &Node| *x),
                cs == children(*n),
                src == self.source.text(),
                cc@ == child_ctx(src, *n, c@),
                offenses(out@) == o1 + children_offenses(src, *n, i as int, cc@, self.style),
            decreases kids@.len() - i,
        {
            proof {
                lemma_children_decrease(*n);
            }
            assert(cs[i as int] == *kids[i as int]);
            self.visit(kids[i], cc, out);
            i = i + 1;
        }
        assert(offenses(out@) =~= o + tree_offenses(src, *n, c@, self.style));
    }
}

impl DoubleNegation {
    pub fn name(&self) -> &'static str {
        "Style/DoubleNegation"
    }

    /// The offenses in the tree rooted at `root`, in traversal order.
    pub fn check_source(&self, source: &SourceFile, root: &Node, style: DoubleNegationStyle) -> (r: Vec<Diagnostic>)
        ensures
            offenses(r@) == spec_check_source(source.text(), *root, style),
    {
        let v = DoubleNegationVisitor { source, style };
        let mut out: Vec<Diagnostic> = Vec::new();
        assert(offenses(out@) =~= Seq::<Offense>::empty());
        let c = CtxFacts { def: None, cond: None, stmts: None, parent_is_statements: false };
        assert(c@ == top_ctx());
        v.visit(root, c, &mut out);
        out
    }
}

/// Trailing ASCII white space after position `k` is what `trim_ascii_end`
/// drops, when the byte before `k` is not white space.
proof fn lemma_trim_over_blanks(s: Seq<u8>, k: int, e: int)
    requires
        0 < k <= e <= s.len(),
        !is_ascii_ws(s[k - 1]),
        forall|i: int| k <= i < e ==> is_ascii_ws(#[trigger] s[i]),
    ensures
        trim_ascii_end(s.subrange(0, e)) == s.subrange(0, k),
    decreases e - k,
{
    if e > k {
        assert(s.subrange(0, e).drop_last() =~= s.subrange(0, e - 1));
        assert(s.subrange(0, e).last() == s[e - 1]);
        lemma_trim_over_blanks(s, k, e - 1);
    } else {
        assert(s.subrange(0, k).last() == s[k - 1]);
    }
}

/// Under `AllowedInReturns`, a `!!` that follows the keyword `return` (a
/// `return` that does not end a longer word, with only ASCII white space
/// between it and the `!!`) is never reported.
pub proof fn law_returned_double_negation_allowed(src: Seq<u8>, n: Node, c: Ctx, k: int)
    requires
        0 <= k,
        n.spec_loc().start >= 7,
        k + 6 <= n.spec_loc().start <= src.len(),
        src.subrange(k, k + 6) == "return".spec_bytes(),
        k == 0 || !((65u8 <= src[k - 1] <= 90u8) || (97u8 <= src[k - 1] <= 122u8) || (48u8 <= src[k - 1] <= 57u8)
            || src[k - 1] == 95u8),
        forall|i: int|
            k + 6 <= i < n.spec_loc().start ==> (#[trigger] src[i] == 32u8 || src[i] == 9u8 || src[i] == 10u8
                || src[i] == 12u8 || src[i] == 13u8),
    ensures
        own_offense(src, n, c, DoubleNegationStyle::AllowedInReturns) == Seq::<Offense>::empty(),
{
    broadcast use vstd::string::group_string_axioms;
    reveal_strlit("return");
    assert(vstd::string::is_ascii("return"));
    assert("return".spec_bytes() =~= seq![114u8, 101u8, 116u8, 117u8, 114u8, 110u8]);
    let start = n.spec_loc().start as int;
    let pre = src_range(src, 0, start);
    assert(pre =~= src.subrange(0, start));
    assert(pre[k + 5] == src.subrange(k, k + 6)[5]);
    assert forall|i: int| k + 6 <= i < start implies is_ascii_ws(#[trigger] pre[i]) by {
        assert(pre[i] == src[i]);
    }
    assert(pre[k + 5] == 110u8);
    lemma_trim_over_blanks(pre, k + 6, start);
    assert(pre.subrange(0, start) =~= pre);
    let t = trim_ascii_end(pre);
    assert(t =~= src.subrange(0, k + 6));
    assert(t.subrange(t.len() - 6, t.len() as int) =~= src.subrange(k, k + 6));
    assert(ends_with(t, "return".spec_bytes()));
    if k > 0 {
        assert(t[k - 1] == src[k - 1]);
    }
    assert(spec_is_after_return_keyword(src, start));
}

/// Whether `n` is a `!` call written with `!`, not with `not`.
pub open spec fn bang_call(src: Seq<u8>, n: Node) -> bool {
    &&& n is Call
    &&& n->Call_name@ == "!".spec_bytes()
    &&& match n->Call_message_loc {
        Some(m) => src_range(src, m.start as int, m.end as int) != "not".spec_bytes(),
        None => true,
    }
}

/// Under `Forbidden`, every `!!x` is reported, at its first `!`.
pub proof fn law_forbidden_reports_every_double_negation(src: Seq<u8>, n: Node, inner: Node, c: Ctx)
    requires
        bang_call(src, n),
        bang_call(src, inner),
        n->Call_receiver matches Some(r) && *r == inner,
    ensures
        own_offense(src, n, c, DoubleNegationStyle::Forbidden) == seq![offense(
            spec_line_of(src, n.spec_loc().start as int),
            spec_column_of(src, n.spec_loc().start as int),
            "Avoid the use of double negation (`!!`).".spec_bytes(),
        )],
{
}

} // verus!
