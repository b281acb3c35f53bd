//! Style/ClassEqualityComparison: `x.class == Foo` (and `x.class.name ==
//! "Foo"`), which should be `x.instance_of?(Foo)`.
use vstd::prelude::*;
use vstd::string::StringSliceAdditionalSpecFns;
use crate::ast::{call_args_exec, children, children_of, lemma_children_decrease, NamedKind, Node};
use crate::bytes::{
    bytes_eq, eq_str, find_from, find_from_exec, lemma_find_from, lossy_utf8, src_range,
    src_range_exec, starts_with, starts_with_str, subslice, utf8_is_valid, utf8_lossy,
};
use crate::diagnostic::{
    diagnostic, edits, offense, offenses, push_bytes, push_str, str_bytes, Correction, Diagnostic,
    Edit, Offense,
};
use crate::pattern::{any_pattern_matches, any_pattern_matches_exec};
use crate::bytes::views;
use crate::source::{spec_column_of, spec_line_of, SourceFile};

verus! {

/// The cop.
pub struct ClassEqualityComparison;

pub open spec fn class_eq_msg() -> Seq<u8> {
    "Use `instance_of?` instead of comparing classes.".spec_bytes()
}

pub open spec fn is_upper(b: u8) -> bool {
    65u8 <= b <= 90u8
}

pub open spec fn is_word_byte(b: u8) -> bool {
    (65u8 <= b <= 90u8) || (97u8 <= b <= 122u8) || (48u8 <= b <= 57u8) || b == 95u8
}

/// A constant name: an uppercase letter, then letters, digits, underscores.
pub open spec fn segment_ok(seg: Seq<u8>) -> bool {
    &&& seg.len() > 0
    &&& is_upper(seg[0])
    &&& forall|i: int| 1 <= i < seg.len() ==> is_word_byte(#[trigger] seg[i])
}

/// Every `::`-separated segment of `c` is a constant name.
pub open spec fn segments_ok(c: Seq<u8>) -> bool
    decreases c.len(),
{
    match find_from(c, "::".spec_bytes(), 0) {
        Some(p) => if 0 <= p && p + 2 <= c.len() {
            segment_ok(c.subrange(0, p)) && segments_ok(c.subrange(p + 2, c.len() as int))
        } else {
            false
        },
        None => segment_ok(c),
    }
}

/// Whether `name` reads as a constant path such as `Foo::Bar` or `::Foo`.
pub open spec fn spec_is_constant_path(name: Seq<u8>) -> bool {
    let cand = if starts_with(name, "::".spec_bytes()) {
        name.subrange(2, name.len() as int)
    } else {
        name
    };
    cand.len() > 0 && segments_ok(cand)
}

/// The text of a node, decoded lossily.
pub open spec fn node_source(src: Seq<u8>, n: Node) -> Seq<u8> {
    utf8_lossy(src_range(src, n.spec_loc().start as int, n.spec_loc().end as int))
}

/// The name of the enclosing method as text: empty unless it is UTF-8.
pub open spec fn def_text(d: Seq<u8>) -> Seq<u8> {
    if vstd::utf8::valid_utf8(d) {
        d
    } else {
        Seq::empty()
    }
}

pub open spec fn is_comparison_name(name: Seq<u8>) -> bool {
    name == "==".spec_bytes() || name == "equal?".spec_bytes() || name == "eql?".spec_bytes()
}

/// A call through `&.`.
pub open spec fn is_safe_nav(src: Seq<u8>, c: Node) -> bool {
    c matches Node::Call { call_operator_loc: Some(op), .. } && src_range(
        src,
        op.start as int,
        op.end as int,
    ) == "&.".spec_bytes()
}

/// The receiver of a call, when it is a call itself.
pub open spec fn receiver_call(c: Node) -> Option<Node> {
    match c {
        Node::Call { receiver: Some(r), .. } => if *r is Call {
            Some(*r)
        } else {
            None
        },
        _ => None,
    }
}

/// `x.class`.
pub open spec fn is_class_call(recv: Node) -> bool {
    recv->Call_name@ == "class".spec_bytes()
}

/// `x.class.name` (or `to_s`, `inspect`).
pub open spec fn is_class_name_call(recv: Node) -> bool {
    &&& !is_class_call(recv)
    &&& (recv->Call_name@ == "name".spec_bytes() || recv->Call_name@ == "to_s".spec_bytes()
        || recv->Call_name@ == "inspect".spec_bytes())
    &&& receiver_call(recv) matches Some(ic) && ic->Call_name@ == "class".spec_bytes()
}

/// The `instance_of?` call that replaces the comparison `c` whose receiver
/// is `recv`, when it can be built.
pub open spec fn replacement(src: Seq<u8>, c: Node, recv: Node, name_call: bool) -> Option<Seq<u8>> {
    let receiver_node: Option<Node> = if name_call {
        match receiver_call(recv) {
            Some(ic) => match ic {
                Node::Call { receiver: Some(x), .. } => Some(*x),
                _ => None,
            },
            None => None,
        }
    } else {
        match recv {
            Node::Call { receiver: Some(x), .. } => Some(*x),
            _ => None,
        }
    };
    match receiver_node {
        None => None,
        Some(rn) => if c->Call_arguments is None || c.call_args().len() == 0 {
            None
        } else {
            let rhs = c.call_args()[0];
            let class_arg: Option<Seq<u8>> = if name_call {
                match rhs {
                    Node::Str { unescaped, .. } => if spec_is_constant_path(utf8_lossy(unescaped@)) {
                        Some(utf8_lossy(unescaped@))
                    } else {
                        None
                    },
                    Node::Named { kind: NamedKind::ConstantRead, .. } => Some(node_source(src, rhs)),
                    Node::ConstantPath { .. } => Some(node_source(src, rhs)),
                    _ => None,
                }
            } else {
                Some(node_source(src, rhs))
            };
            match class_arg {
                Some(a) => Some(
                    node_source(src, rn) + ".instance_of?(".spec_bytes() + a + ")".spec_bytes(),
                ),
                None => None,
            }
        },
    }
}

/// The offense and correction at the node itself, inside the method named
/// `def` (if any).
pub open spec fn own_result(
    src: Seq<u8>,
    n: Node,
    def: Option<Seq<u8>>,
    methods: Seq<Seq<u8>>,
    patterns: Seq<Seq<u8>>,
) -> (Seq<Offense>, Seq<Edit>) {
    let none = (Seq::<Offense>::empty(), Seq::<Edit>::empty());
    if !(n is Call) || !is_comparison_name(n->Call_name@) {
        none
    } else if def matches Some(d) && methods.contains(def_text(d)) {
        none
    } else {
        match receiver_call(n) {
            None => none,
            Some(recv) => {
                let cc = is_class_call(recv);
                let nc = is_class_name_call(recv);
                if cc && is_safe_nav(src, recv) {
                    none
                } else if nc && is_safe_nav(src, receiver_call(recv)->Some_0) {
                    none
                } else if !cc && !nc {
                    none
                } else if def matches Some(d) && any_pattern_matches(patterns, def_text(d)) {
                    none
                } else if n->Call_arguments is Some && n.call_args().len() > 0
                    && n.call_args()[0] is InterpolatedStr {
                    none
                } else {
                    let at = match recv->Call_message_loc {
                        Some(m) => m.start as int,
                        None => recv.spec_loc().start as int,
                    };
                    (
                        seq![offense(spec_line_of(src, at), spec_column_of(src, at), class_eq_msg())],
                        match replacement(src, n, recv, nc) {
                            Some(text) => seq![
                                Edit {
                                    start: n.spec_loc().start as int,
                                    end: n.spec_loc().end as int,
                                    replacement: text,
                                },
                            ],
                            None => Seq::empty(),
                        },
                    )
                }
            },
        }
    }
}

/// The method name in force for the children of `n`.
pub open spec fn child_def(n: Node, def: Option<Seq<u8>>) -> Option<Seq<u8>> {
    match n {
        Node::Def { name, .. } => Some(name@),
        _ => def,
    }
}

/// The offenses and corrections of the tree rooted at `n`.
pub open spec fn tree_result(
    src: Seq<u8>,
    n: Node,
    def: Option<Seq<u8>>,
    methods: Seq<Seq<u8>>,
    patterns: Seq<Seq<u8>>,
) -> (Seq<Offense>, Seq<Edit>)
    decreases n, children(n).len() + 1,
{
    let own = own_result(src, n, def, methods, patterns);
    let rest = children_result(
        src,
        n,
        children(n).len() as int,
        child_def(n, def),
        methods,
        patterns,
    );
    (own.0 + rest.0, own.1 + rest.1)
}

/// The offenses and corrections of the trees of the first `k` children of `n`.
pub open spec fn children_result(
    src: Seq<u8>,
    n: Node,
    k: int,
    def: Option<Seq<u8>>,
    methods: Seq<Seq<u8>>,
    patterns: Seq<Seq<u8>>,
) -> (Seq<Offense>, Seq<Edit>)
    decreases n, k,
{
    if k <= 0 || k > children(n).len() {
        (Seq::empty(), Seq::empty())
    } else {
        proof {
            lemma_children_decrease(n);
        }
        let a = children_result(src, n, k - 1, def, methods, patterns);
        let b = tree_result(src, children(n)[k - 1], def, methods, patterns);
        (a.0 + b.0, a.1 + b.1)
    }
}

pub open spec fn spec_check_source(
    src: Seq<u8>,
    root: Node,
    methods: Seq<Seq<u8>>,
    patterns: Seq<Seq<u8>>,
) -> (Seq<Offense>, Seq<Edit>) {
    tree_result(src, root, None, methods, patterns)
}

fn segment_ok_exec(seg: &[u8]) -> (r: bool)
    ensures
        r == segment_ok(seg@),
{
    if seg.len() == 0 || !(65u8 <= seg[0] && seg[0] <= 90u8) {
        return false;
    }
    let mut i: usize = 1;
    while i < seg.len()
        invariant
            1 <= i <= seg@.len(),
            forall|j: int| 1 <= j < i ==> is_word_byte(#[trigger] seg@[j]),
        decreases seg@.len() - i,
    {
        let b = seg[i];
        if !((65u8 <= b && b <= 90u8) || (97u8 <= b && b <= 122u8) || (48u8 <= b && b <= 57u8)
            || b == 95u8) {
            assert(!is_word_byte(seg@[i as int]));
            return false;
        }
        i = i + 1;
    }
    true
}

/// Whether `name` reads as a constant path such as `Foo::Bar` or `::Foo`.
pub fn is_constant_path(name: &[u8]) -> (r: bool)
    ensures
        r == spec_is_constant_path(name@),
{
    proof {
        reveal_strlit("::");
        broadcast use vstd::string::group_string_axioms;
        assert(vstd::string::is_ascii("::"));
        assert("::".spec_bytes().len() == 2);
    }
    let mut rest = if starts_with_str(name, "::") {
        subslice(name, 2, name.len())
    } else {
        name
    };
    if rest.len() == 0 {
        return false;
    }
    let sep = str_bytes("::");
    loop
        invariant
            spec_is_constant_path(name@) == segments_ok(rest@),
            sep@ == "::".spec_bytes(),
            sep@.len() == 2,
        decreases rest@.len(),
    {
        let rl = rest.len();
        match find_from_exec(rest, sep.as_slice(), 0) {
            Some(p) => {
                proof {
                    lemma_find_from(rest@, sep@, 0);
                    assert(crate::bytes::occurs_at(rest@, sep@, p as int));
                    assert(p + 2 <= rest@.len());
                }
                if !segment_ok_exec(subslice(rest, 0, p)) {
                    return false;
                }
                rest = subslice(rest, p + 2, rl);
            },
            None => {
                return segment_ok_exec(rest);
            },
        }
    }
}

fn node_source_exec(src: &[u8], n: &Node) -> (r: Vec<u8>)
    ensures
        r@ == node_source(src@, *n),
{
    let l = n.loc();
    lossy_utf8(src_range_exec(src, l.start, l.end))
}

fn receiver_call_exec(c: &Node) -> (r: Option<&Node>)
    ensures
        match r {
            Some(x) => receiver_call(*c) == Some(*x),
            None => receiver_call(*c) is None,
        },
{
    match c {
        Node::Call { receiver: Some(r), .. } => match &**r {
            Node::Call { .. } => Some(&**r),
            _ => None,
        },
        _ => None,
    }
}

fn call_name(c: &Node) -> (r: &[u8])
    ensures
        c is Call ==> r@ == c->Call_name@,
{
    match c {
        Node::Call { name, .. } => name.as_slice(),
        _ => &[],
    }
}

fn is_safe_nav_exec(src: &[u8], c: &Node) -> (r: bool)
    ensures
        r == is_safe_nav(src@, *c),
{
    match c {
        Node::Call { call_operator_loc: Some(op), .. } => eq_str(
            src_range_exec(src, op.start, op.end),
            "&.",
        ),
        _ => false,
    }
}

fn def_text_exec(d: &[u8]) -> (r: &[u8])
    ensures
        r@ == def_text(d@),
{
    if utf8_is_valid(d) {
        d
    } else {
        &[]
    }
}

fn contains_bytes(v: &Vec<Vec<u8>>, x: &[u8]) -> (r: bool)
    ensures
        r == v@.map_values(|e: Vec<u8>| e@).contains(x@),
{
    let ghost w = v@.map_values(|e: Vec<u8>| e@);
    let mut i: usize = 0;
    while i < v.len()
        invariant
            i <= v@.len(),
            w == v@.map_values(|e: Vec<u8>| e@),
            forall|j: int| 0 <= j < i ==> w[j] != x@,
        decreases v@.len() - i,
    {
        if bytes_eq(v[i].as_slice(), x) {
            assert(w[i as int] == x@);
            return true;
        }
        i = i + 1;
    }
    false
}

/// The configured methods and patterns, and the method being visited.
pub struct ClassEqVisitor<'a> {
    pub allowed_methods: &'a Vec<Vec<u8>>,
    pub allowed_patterns: &'a Vec<Vec<u8>>,
    pub enclosing_def_name: Option<&'a Vec<u8>>,
}

pub open spec fn opt_view(o: Option<&Vec<u8>>) -> Option<Seq<u8>> {
    match o {
        Some(v) => Some(v@),
        None => None,
    }
}

impl<'a> ClassEqVisitor<'a> {
    pub open spec fn patterns_valid(&self) -> bool {
        forall|i: int|
            0 <= i < self.allowed_patterns@.len() ==> vstd::utf8::valid_utf8(
                #[trigger] self.allowed_patterns@[i]@,
            )
    }

    fn build_replacement(&self, src: &[u8], c: &Node, recv: &Node, name_call: bool) -> (r: Option<Vec<u8>>)
        requires
            recv is Call,
        ensures
            match r {
                Some(v) => replacement(src@, *c, *recv, name_call) == Some(v@),
                None => replacement(src@, *c, *recv, name_call) is None,
            },
    {
        let receiver_node: &Node = if name_call {
            match receiver_call_exec(recv) {
                Some(ic) => match ic {
                    Node::Call { receiver: Some(x), .. } => &**x,
                    _ => {
                        return None;
                    },
                },
                None => {
                    return None;
                },
            }
        } else {
            match recv {
                Node::Call { receiver: Some(x), .. } => &**x,
                _ => {
                    return None;
                },
            }
        };
        let has_args = match c {
            Node::Call { arguments: Some(_), .. } => true,
            _ => false,
        };
        if !has_args {
            return None;
        }
        let args = call_args_exec(c);
        if args.len() == 0 {
            return None;
        }
        let rhs = &args[0];
        let class_arg: Vec<u8> = if name_call {
            match rhs {
                Node::Str { unescaped, .. } => {
                    let t = lossy_utf8(unescaped.as_slice());
                    if !is_constant_path(t.as_slice()) {
                        return None;
                    }
                    t
                },
                Node::Named { kind: NamedKind::ConstantRead, .. } => node_source_exec(src, rhs),
                Node::ConstantPath { .. } => node_source_exec(src, rhs),
                _ => {
                    return None;
                },
            }
        } else {
            node_source_exec(src, rhs)
        };
        let mut out = node_source_exec(src, receiver_node);
        push_str(&mut out, ".instance_of?(");
        push_bytes(&mut out, class_arg.as_slice());
        push_str(&mut out, ")");
        Some(out)
    }

    /// The offense and correction at a call, when it compares classes.
    pub fn visit_call_node(
        &self,
        source: &SourceFile,
        n: &Node,
        out: &mut Vec<Diagnostic>,
        fixes: &mut Vec<Correction>,
    )
        requires
            self.patterns_valid(),
        ensures
            ({
                let r = own_result(
                    source.text(),
                    *n,
                    opt_view(self.enclosing_def_name),
                    views(self.allowed_methods@),
                    views(self.allowed_patterns@),
                );
                offenses(final(out)@) == offenses(old(out)@) + r.0 && edits(final(fixes)@)
                    == edits(old(fixes)@) + r.1
            }),
    {
        let ghost o = offenses(out@);
        let ghost e = edits(fixes@);
        let ghost src = source.text();
        let ghost r = own_result(
            src,
            *n,
            opt_view(self.enclosing_def_name),
            views(self.allowed_methods@),
            views(self.allowed_patterns@),
        );
        let text = source.as_bytes();
        let name = match n {
            Node::Call { name, .. } => name,
            _ => {
                assert(offenses(out@) =~= o + r.0 && edits(fixes@) =~= e + r.1);
                return;
            },
        };
        if !(eq_str(name.as_slice(), "==") || eq_str(name.as_slice(), "equal?") || eq_str(
            name.as_slice(),
            "eql?",
        )) {
            assert(offenses(out@) =~= o + r.0 && edits(fixes@) =~= e + r.1);
            return;
        }
        match self.enclosing_def_name {
            Some(d) => {
                if contains_bytes(self.allowed_methods, def_text_exec(d.as_slice())) {
                    assert(offenses(out@) =~= o + r.0 && edits(fixes@) =~= e + r.1);
                    return;
                }
            },
            None => {},
        }
        let recv = match receiver_call_exec(n) {
            Some(x) => x,
            None => {
                assert(offenses(out@) =~= o + r.0 && edits(fixes@) =~= e + r.1);
                return;
            },
        };
        let cc = eq_str(call_name(recv), "class");
        let nc = !cc && (eq_str(call_name(recv), "name") || eq_str(call_name(recv), "to_s")
            || eq_str(call_name(recv), "inspect")) && match receiver_call_exec(recv) {
            Some(ic) => eq_str(call_name(ic), "class"),
            None => false,
        };
        assert(cc == is_class_call(*recv) && nc == is_class_name_call(*recv));
        if cc && is_safe_nav_exec(text, recv) {
            assert(offenses(out@) =~= o + r.0 && edits(fixes@) =~= e + r.1);
            return;
        }
        if nc {
            match receiver_call_exec(recv) {
                Some(ic) => {
                    if is_safe_nav_exec(text, ic) {
                        assert(offenses(out@) =~= o + r.0 && edits(fixes@) =~= e + r.1);
                        return;
                    }
                },
                None => {},
            }
        }
        if !cc && !nc {
            assert(offenses(out@) =~= o + r.0 && edits(fixes@) =~= e + r.1);
            return;
        }
        match self.enclosing_def_name {
            Some(d) => {
                let t = def_text_exec(d.as_slice());
                proof {
                    if !vstd::utf8::valid_utf8(d@) {
                        assert(t@ =~= Seq::<u8>::empty());
                        assert(vstd::utf8::valid_utf8(Seq::<u8>::empty()));
                    }
                }
                if any_pattern_matches_exec(self.allowed_patterns, t) {
                    assert(offenses(out@) =~= o + r.0 && edits(fixes@) =~= e + r.1);
                    return;
                }
            },
            None => {},
        }
        let has_args = match n {
            Node::Call { arguments: Some(_), .. } => true,
            _ => false,
        };
        if has_args {
            let args = call_args_exec(n);
            if args.len() > 0 {
                if matches!(args[0], Node::InterpolatedStr { .. }) {
                    assert(offenses(out@) =~= o + r.0 && edits(fixes@) =~= e + r.1);
                    return;
                }
            }
        }
        let at = match recv {
            Node::Call { message_loc: Some(m), .. } => m.start,
            _ => recv.loc().start,
        };
        let (line, column) = source.position(at);
        out.push(diagnostic(line, column, str_bytes("Use `instance_of?` instead of comparing classes.")));
        match self.build_replacement(text, n, recv, nc) {
            Some(t) => {
                let l = n.loc();
                fixes.push(Correction { start: l.start, end: l.end, replacement: t });
            },
            None => {},
        }
        assert(offenses(out@) =~= o + r.0 && edits(fixes@) =~= e + r.1);
    }

    /// Appends the offenses and corrections of the tree rooted at `n`.
    fn visit(&self, source: &SourceFile, n: &Node, out: &mut Vec<Diagnostic>, fixes: &mut Vec<Correction>)
        requires
            self.patterns_valid(),
        ensures
            ({
                let r = tree_result(
                    source.text(),
                    *n,
                    opt_view(self.enclosing_def_name),
                    views(self.allowed_methods@),
                    views(self.allowed_patterns@),
                );
                offenses(final(out)@) == offenses(old(out)@) + r.0 && edits(final(fixes)@)
                    == edits(old(fixes)@) + r.1
            }),
        decreases n, children(*n).len() + 1,
    {
        let ghost o = offenses(out@);
        let ghost e = edits(fixes@);
        let ghost src = source.text();
        let ghost ms = views(self.allowed_methods@);
        let ghost ps = views(self.allowed_patterns@);
        let ghost def = opt_view(self.enclosing_def_name);
        self.visit_call_node(source, n, out, fixes);
        let ghost o1 = offenses(out@);
        let ghost e1 = edits(fixes@);
        let inner = match n {
            Node::Def { name, .. } => ClassEqVisitor {
                allowed_methods: self.allowed_methods,
                allowed_patterns: self.allowed_patterns,
                enclosing_def_name: Some(name),
            },
            _ => ClassEqVisitor {
                allowed_methods: self.allowed_methods,
                allowed_patterns: self.allowed_patterns,
                enclosing_def_name: self.enclosing_def_name,
            },
        };
        assert(opt_view(inner.enclosing_def_name) == child_def(*n, def));
        let kids = children_of(n);
        let ghost cs = kids@.map_values(|x: &Node| *x);
        let mut i: usize = 0;
        while i < kids.len()
            invariant
                i <= kids@.len(),
                cs == kids@.map_values(|x: &Node| *x),
                cs == children(*n),
                inner.patterns_valid(),
                views(inner.allowed_methods@) == ms,
                views(inner.allowed_patterns@) == ps,
                opt_view(inner.enclosing_def_name) == child_def(*n, def),
                src == source.text(),
                ({
                    let c = children_result(src, *n, i as int, child_def(*n, def), ms, ps);
                    offenses(out@) == o1 + c.0 && edits(fixes@) == e1 + c.1
                }),
            decreases kids@.len() - i,
        {
            proof {
                lemma_children_decrease(*n);
            }
            assert(cs[i as int] == *kids[i as int]);
            inner.visit(source, kids[i], out, fixes);
            i = i + 1;
        }
        assert(offenses(out@) =~= o + tree_result(src, *n, def, ms, ps).0);
        assert(edits(fixes@) =~= e + tree_result(src, *n, def, ms, ps).1);
    }
}

impl ClassEqualityComparison {
    pub fn name(&self) -> &'static str {
        "Style/ClassEqualityComparison"
    }

    /// The offenses and corrections in the tree rooted at `root`, in
    /// traversal order.  `allowed_methods` are the method names inside which
    /// comparisons are allowed, `allowed_patterns` the regular expressions
    /// (UTF-8 text) that such names may match; patterns that do not compile
    /// are ignored.
    pub fn check_source(
        &self,
        source: &SourceFile,
        root: &Node,
        allowed_methods: &Vec<Vec<u8>>,
        allowed_patterns: &Vec<Vec<u8>>,
    ) -> (r: (Vec<Diagnostic>, Vec<Correction>))
        requires
            forall|i: int|
                0 <= i < allowed_patterns@.len() ==> vstd::utf8::valid_utf8(
                    #[trigger] allowed_patterns@[i]@,
                ),
        ensures
            (offenses(r.0@), edits(r.1@)) == spec_check_source(
                source.text(),
                *root,
                views(allowed_methods@),
                views(allowed_patterns@),
            ),
    {
        let v = ClassEqVisitor { allowed_methods, allowed_patterns, enclosing_def_name: None };
        let mut out: Vec<Diagnostic> = Vec::new();
        let mut fixes: Vec<Correction> = Vec::new();
        assert(offenses(out@) =~= Seq::<Offense>::empty());
        assert(edits(fixes@) =~= Seq::<Edit>::empty());
        v.visit(source, root, &mut out, &mut fixes);
        (out, fixes)
    }
}

} // verus!
