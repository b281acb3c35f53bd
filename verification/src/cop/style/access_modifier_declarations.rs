//! Style/AccessModifierDeclarations: access modifiers (`private`,
//! `protected`, `public`, `module_function`) declared in the style the
//! configuration asks for.
//!
//! In the `group` style, a modifier applied inline to a method definition
//! (or to a symbol, unless allowed) among the statements of a class,
//! module or singleton class body is reported, unless a later statement of
//! that body is an inline use of the same modifier.  In the `inline`
//! style, a bare modifier is reported wherever it stands outside blocks and
//! lambdas.
use vstd::prelude::*;
use vstd::string::StringSliceAdditionalSpecFns;
use crate::ast::{call_args_exec, children, children_of, is_other, is_other_exec, lemma_children_decrease, Node};
use crate::bytes::eq_str;
use crate::diagnostic::{diagnostic, offense, offenses, push_bytes, push_str, Diagnostic, Offense};
use crate::source::{spec_column_of, spec_line_of, SourceFile};

verus! {

/// The cop.
pub struct AccessModifierDeclarations;

/// The configured `EnforcedStyle`.
#[derive(Clone, Copy, PartialEq, Eq, Structural, Debug)]
pub enum AccessModifierStyle {
    Group,
    Inline,
    /// Any other configured value: nothing is reported.
    Other,
}

/// The options of the cop.
#[derive(Clone, Copy, PartialEq, Eq, Structural, Debug)]
pub struct AccessModifierConfig {
    pub style: AccessModifierStyle,
    pub allow_modifiers_on_symbols: bool,
    pub allow_modifiers_on_attrs: bool,
    pub allow_modifiers_on_alias_method: bool,
}

pub open spec fn is_access_modifier(name: Seq<u8>) -> bool {
    name == "private".spec_bytes() || name == "protected".spec_bytes() || name == "public".spec_bytes()
        || name == "module_function".spec_bytes()
}

pub open spec fn is_attr_method(name: Seq<u8>) -> bool {
    name == "attr_reader".spec_bytes() || name == "attr_writer".spec_bytes() || name == "attr_accessor".spec_bytes()
        || name == "attr".spec_bytes()
}

/// For a call of an access modifier without receiver that the options do
/// not allow: whether it is applied inline (to a method definition or a
/// symbol).
pub open spec fn classify(n: Node, cfg: AccessModifierConfig) -> Option<bool> {
    match n {
        Node::Call { name, receiver: None, .. } => if is_access_modifier(name@) {
            let args = n.call_args();
            if args.len() == 0 {
                Some(false)
            } else {
                let first = args[0];
                if first is Symbol && cfg.allow_modifiers_on_symbols {
                    None
                } else if cfg.allow_modifiers_on_attrs && (first matches Node::Call { name: inner, .. } && is_attr_method(inner@)) {
                    None
                } else if cfg.allow_modifiers_on_alias_method && (first matches Node::Call { name: inner, .. }
                    && inner@ == "alias_method".spec_bytes()) {
                    None
                } else {
                    Some(first is Def || first is Symbol)
                }
            }
        } else {
            None
        },
        _ => None,
    }
}

/// An inline use of the modifier `name`.
pub open spec fn is_inline_use(n: Node, cfg: AccessModifierConfig, name: Seq<u8>) -> bool {
    classify(n, cfg) == Some(true) && n->Call_name@ == name
}

/// Statement `a` of a body is an inline use of a modifier that no later
/// statement uses inline.
pub open spec fn group_reported(cfg: AccessModifierConfig, stmts: Seq<Node>, a: int) -> bool {
    classify(stmts[a], cfg) == Some(true) && !(exists|j: int|
        a < j < stmts.len() && is_inline_use(#[trigger] stmts[j], cfg, stmts[a]->Call_name@))
}

/// The group-style offenses among the statements `stmts[0..k)` of a body.
pub open spec fn group_offenses(src: Seq<u8>, cfg: AccessModifierConfig, stmts: Seq<Node>, k: int) -> Seq<Offense>
    decreases k,
{
    if k <= 0 || k > stmts.len() {
        Seq::empty()
    } else {
        let n = stmts[k - 1];
        group_offenses(src, cfg, stmts, k - 1) + if group_reported(cfg, stmts, k - 1) {
            seq![offense(spec_line_of(src, n.spec_loc().start as int), spec_column_of(src, n.spec_loc().start as int),
                "`".spec_bytes() + n->Call_name@ + "` should not be inlined in method definitions.".spec_bytes())]
        } else {
            Seq::empty()
        }
    }
}

/// A class, module or singleton class.
pub open spec fn is_scope(n: Node) -> bool {
    is_other(n, "ClassNode".spec_bytes()) || is_other(n, "ModuleNode".spec_bytes()) || is_other(n, "SingletonClassNode".spec_bytes())
}

/// The statements of a class, module or singleton class body.
pub open spec fn scope_body(n: Node) -> Option<Node> {
    if is_scope(n) && children(n).len() > 0 && children(n).last() is Statements {
        Some(children(n).last())
    } else {
        None
    }
}

/// The node types that a body's statements are looked into for.
pub open spec fn is_visited_statement(n: Node) -> bool {
    is_scope(n) || n is Block || is_other(n, "LambdaNode".spec_bytes()) || n is Call || n is If || n is Def
        || is_other(n, "BeginNode".spec_bytes())
}

/// The inline-style offense of a bare modifier in a class body.
pub open spec fn own_offense(src: Seq<u8>, cfg: AccessModifierConfig, n: Node, in_class: bool) -> Seq<Offense> {
    match n {
        Node::Call { name, receiver: None, arguments: None, loc, .. } => if cfg.style == AccessModifierStyle::Inline
            && in_class && is_access_modifier(name@) {
            seq![offense(spec_line_of(src, loc.start as int), spec_column_of(src, loc.start as int),
                "`".spec_bytes() + name@ + "` should not be used in a group style.".spec_bytes())]
        } else {
            Seq::empty()
        },
        _ => Seq::empty(),
    }
}

/// The offenses in the tree rooted at `n`, visited inside a class body
/// (`in_class`) or a block.
pub open spec fn visit(src: Seq<u8>, cfg: AccessModifierConfig, n: Node, in_class: bool) -> Seq<Offense>
    decreases n, children(n).len() + 1,
{
    match scope_body(n) {
        Some(s) => {
            proof {
                lemma_children_decrease(n);
            }
            match s {
                Node::Statements { body, .. } => (if cfg.style == AccessModifierStyle::Group {
                    group_offenses(src, cfg, body@, body@.len() as int)
                } else {
                    Seq::empty()
                }) + body_visit(src, cfg, s, body@.len() as int),
                _ => Seq::empty(),
            }
        },
        None => {
            let inner = if is_scope(n) {
                true
            } else if n is Block || is_other(n, "LambdaNode".spec_bytes()) {
                false
            } else {
                in_class
            };
            own_offense(src, cfg, n, in_class) + children_visit(src, cfg, n, children(n).len() as int, inner)
        },
    }
}

/// `visit` over the first `k` children of `n`.
pub open spec fn children_visit(src: Seq<u8>, cfg: AccessModifierConfig, n: Node, k: int, in_class: bool) -> Seq<Offense>
    decreases n, k,
{
    if k <= 0 || k > children(n).len() {
        Seq::empty()
    } else {
        proof {
            lemma_children_decrease(n);
        }
        children_visit(src, cfg, n, k - 1, in_class) + visit(src, cfg, children(n)[k - 1], in_class)
    }
}

/// The offenses inside the first `k` statements of a class body `s`.
pub open spec fn body_visit(src: Seq<u8>, cfg: AccessModifierConfig, s: Node, k: int) -> Seq<Offense>
    decreases s, k,
{
    if k <= 0 || k > children(s).len() {
        Seq::empty()
    } else {
        proof {
            lemma_children_decrease(s);
        }
        let x = children(s)[k - 1];
        body_visit(src, cfg, s, k - 1) + if is_visited_statement(x) {
            visit(src, cfg, x, true)
        } else {
            Seq::empty()
        }
    }
}

/// The offenses of the file whose tree is `root`.
pub open spec fn spec_check_source(src: Seq<u8>, cfg: AccessModifierConfig, root: Node) -> Seq<Offense> {
    visit(src, cfg, root, true)
}

fn classify_exec(n: &Node, cfg: AccessModifierConfig) -> (r: Option<bool>)
    ensures
        r == classify(*n, cfg),
{
    match n {
        Node::Call { name, receiver: None, .. } => {
            let m = name.as_slice();
            if !(eq_str(m, "private") || eq_str(m, "protected") || eq_str(m, "public") || eq_str(m, "module_function")) {
                return None;
            }
            let args = call_args_exec(n);
            if args.len() == 0 {
                return Some(false);
            }
            let first = &args[0];
            let sym = match first {
                Node::Symbol { .. } => true,
                _ => false,
            };
            if sym && cfg.allow_modifiers_on_symbols {
                return None;
            }
            match first {
                Node::Call { name: inner, .. } => {
                    let i = inner.as_slice();
                    if cfg.allow_modifiers_on_attrs && (eq_str(i, "attr_reader") || eq_str(i, "attr_writer")
                        || eq_str(i, "attr_accessor") || eq_str(i, "attr")) {
                        return None;
                    }
                    if cfg.allow_modifiers_on_alias_method && eq_str(i, "alias_method") {
                        return None;
                    }
                },
                _ => {},
            }
            let def = match first {
                Node::Def { .. } => true,
                _ => false,
            };
            Some(def || sym)
        },
        _ => None,
    }
}

fn group_offenses_exec(source: &SourceFile, cfg: AccessModifierConfig, stmts: &Vec<Node>, out: &mut Vec<Diagnostic>)
    ensures
        offenses(final(out)@) == offenses(old(out)@) + group_offenses(source.text(), cfg, stmts@, stmts@.len() as int),
{
    let ghost o = offenses(out@);
    let n = stmts.len();
    // which statements are inline uses, and of what
    let mut kinds: Vec<Option<bool>> = Vec::new();
    let mut i: usize = 0;
    while i < n
        invariant
            i <= n,
            n == stmts@.len(),
            kinds@.len() == i,
            forall|j: int| 0 <= j < i ==> kinds@[j] == classify(#[trigger] stmts@[j], cfg),
        decreases n - i,
    {
        kinds.push(classify_exec(&stmts[i], cfg));
        i = i + 1;
    }
    let mut k: usize = 0;
    while k < n
        invariant
            k <= n,
            n == stmts@.len(),
            kinds@.len() == n,
            forall|j: int| 0 <= j < n ==> kinds@[j] == classify(#[trigger] stmts@[j], cfg),
            offenses(out@) == o + group_offenses(source.text(), cfg, stmts@, k as int),
        decreases n - k,
    {
        if kinds[k] == Some(true) {
            let name = match &stmts[k] {
                Node::Call { name, .. } => name,
                _ => {
                    assert(false);
                    return;
                },
            };
            let mut later = false;
            let mut j: usize = k + 1;
            while j < n
                invariant
                    k < j <= n,
                    n == stmts@.len(),
                    kinds@.len() == n,
                    forall|t: int| 0 <= t < n ==> kinds@[t] == classify(#[trigger] stmts@[t], cfg),
                    later == exists|t: int| k + 1 <= t < j && is_inline_use(#[trigger] stmts@[t], cfg, name@),
                decreases n - j,
            {
                if kinds[j] == Some(true) {
                    match &stmts[j] {
                        Node::Call { name: other, .. } => if crate::bytes::bytes_eq(other.as_slice(), name.as_slice()) {
                            later = true;
                            assert(is_inline_use(stmts@[j as int], cfg, name@));
                        },
                        _ => {},
                    }
                } else {
                    assert(!is_inline_use(stmts@[j as int], cfg, name@));
                }
                proof {
                    if !later {
                        assert(!exists|t: int| k + 1 <= t < j + 1 && is_inline_use(#[trigger] stmts@[t], cfg, name@)) by {
                            assert forall|t: int| k + 1 <= t < j + 1 implies !is_inline_use(#[trigger] stmts@[t], cfg, name@) by {
                                if t == j {
                                    match stmts@[j as int] {
                                        Node::Call { name: other, .. } => {},
                                        _ => {},
                                    }
                                }
                            }
                        }
                    }
                }
                j = j + 1;
            }
            if !later {
                let l = stmts[k].loc();
                let (line, column) = source.position(l.start);
                let mut m: Vec<u8> = Vec::new();
                push_str(&mut m, "`");
                push_bytes(&mut m, name.as_slice());
                push_str(&mut m, "` should not be inlined in method definitions.");
                let ghost before = offenses(out@);
                out.push(diagnostic(line, column, m));
                assert(offenses(out@) =~= before + seq![offenses(out@).last()]);
            }
        }
        assert(offenses(out@) =~= o + group_offenses(source.text(), cfg, stmts@, k + 1));
        k = k + 1;
    }
}

fn scope_body_exec(n: &Node) -> (r: Option<&Node>)
    ensures
        match r {
            Some(s) => scope_body(*n) == Some(*s),
            None => scope_body(*n) is None,
        },
{
    match n {
        Node::Other { children: cs, .. } => {
            assert(children(*n) == cs@);
            let scope = is_other_exec(n, "ClassNode") || is_other_exec(n, "ModuleNode") || is_other_exec(n, "SingletonClassNode");
            if scope && cs.len() > 0 {
                let last = &cs[cs.len() - 1];
                if let Node::Statements { .. } = last {
                    return Some(last);
                }
            }
            None
        },
        _ => None,
    }
}

impl AccessModifierDeclarations {
    pub fn name(&self) -> &'static str {
        "Style/AccessModifierDeclarations"
    }

    fn visit_node(&self, source: &SourceFile, cfg: AccessModifierConfig, n: &Node, in_class: bool, out: &mut Vec<Diagnostic>)
        ensures
            offenses(final(out)@) == offenses(old(out)@) + visit(source.text(), cfg, *n, in_class),
        decreases n,
    {
        let ghost o = offenses(out@);
        let ghost src = source.text();
        match scope_body_exec(n) {
            Some(s) => {
                proof {
                    lemma_children_decrease(*n);
                }
                match s {
                    Node::Statements { body, .. } => {
                        if cfg.style == AccessModifierStyle::Group {
                            group_offenses_exec(source, cfg, body, out);
                        }
                        let ghost o1 = offenses(out@);
                        self.visit_body(source, cfg, s, out);
                        assert(offenses(out@) =~= o + visit(src, cfg, *n, in_class));
                    },
                    _ => {},
                }
                return;
            },
            None => {},
        }
        let scope = is_other_exec(n, "ClassNode") || is_other_exec(n, "ModuleNode") || is_other_exec(n, "SingletonClassNode");
        let inner = if scope {
            true
        } else if is_other_exec(n, "LambdaNode") {
            false
        } else {
            match n {
                Node::Block { .. } => false,
                _ => in_class,
            }
        };
        match n {
            Node::Call { name, receiver: None, arguments: None, loc, .. } => {
                let m = name.as_slice();
                if cfg.style == AccessModifierStyle::Inline && in_class && (eq_str(m, "private") || eq_str(m, "protected")
                    || eq_str(m, "public") || eq_str(m, "module_function")) {
                    let (line, column) = source.position(loc.start);
                    let mut msg: Vec<u8> = Vec::new();
                    push_str(&mut msg, "`");
                    push_bytes(&mut msg, m);
                    push_str(&mut msg, "` should not be used in a group style.");
                    out.push(diagnostic(line, column, msg));
                }
            },
            _ => {},
        }
        assert(offenses(out@) =~= o + own_offense(src, cfg, *n, in_class));
        let ghost o1 = offenses(out@);
        let kids = children_of(n);
        let ghost cs = kids@.map_values(|x: &Node| *x);
        let mut i: usize = 0;
        while i < kids.len()
            invariant
                i <= kids@.len(),
                cs == kids@.map_values(|x: &Node| *x),
                cs == children(*n),
                src == source.text(),
                offenses(out@) == o1 + children_visit(src, cfg, *n, i as int, inner),
            decreases kids@.len() - i,
        {
            proof {
                lemma_children_decrease(*n);
            }
            assert(cs[i as int] == *kids[i as int]);
            self.visit_node(source, cfg, kids[i], inner, out);
            i = i + 1;
        }
        assert(offenses(out@) =~= o + visit(src, cfg, *n, in_class));
    }

    fn visit_body(&self, source: &SourceFile, cfg: AccessModifierConfig, s: &Node, out: &mut Vec<Diagnostic>)
        ensures
            offenses(final(out)@) == offenses(old(out)@) + body_visit(source.text(), cfg, *s, children(*s).len() as int),
        decreases s,
    {
        let ghost o = offenses(out@);
        let ghost src = source.text();
        let kids = children_of(s);
        let ghost cs = kids@.map_values(|x: &Node| *x);
        let mut i: usize = 0;
        while i < kids.len()
            invariant
                i <= kids@.len(),
                cs == kids@.map_values(|x: &Node| *x),
                cs == children(*s),
                src == source.text(),
                offenses(out@) == o + body_visit(src, cfg, *s, i as int),
            decreases kids@.len() - i,
        {
            proof {
                lemma_children_decrease(*s);
            }
            let x = kids[i];
            assert(cs[i as int] == *x);
            let visited = match x {
                Node::Block { .. } => true,
                Node::Call { .. } => true,
                Node::If { .. } => true,
                Node::Def { .. } => true,
                _ => is_other_exec(x, "ClassNode") || is_other_exec(x, "ModuleNode") || is_other_exec(x, "SingletonClassNode")
                    || is_other_exec(x, "LambdaNode") || is_other_exec(x, "BeginNode"),
            };
            if visited {
                self.visit_node(source, cfg, x, true, out);
            }
            i = i + 1;
        }
    }

    /// The offenses of the file whose tree is `root`, in traversal order.
    pub fn check_source(&self, source: &SourceFile, root: &Node, cfg: AccessModifierConfig) -> (r: Vec<Diagnostic>)
        ensures
            offenses(r@) == spec_check_source(source.text(), cfg, *root),
    {
        let mut out: Vec<Diagnostic> = Vec::new();
        assert(offenses(out@) =~= Seq::<Offense>::empty());
        self.visit_node(source, cfg, root, true, &mut out);
        out
    }
}

/// In the group style, each modifier is reported at most once per body:
/// two reported statements name different modifiers.
pub proof fn law_one_inline_offense_per_modifier(cfg: AccessModifierConfig, stmts: Seq<Node>, a: int, b: int)
    requires
        0 <= a < b < stmts.len(),
        group_reported(cfg, stmts, a),
        group_reported(cfg, stmts, b),
    ensures
        stmts[a]->Call_name@ != stmts[b]->Call_name@,
{
    if stmts[a]->Call_name@ == stmts[b]->Call_name@ {
        assert(is_inline_use(stmts[b], cfg, stmts[a]->Call_name@));
    }
}

} // verus!
