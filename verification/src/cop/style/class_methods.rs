//! Style/ClassMethods: `def ClassName.method` inside `class ClassName`,
//! which `def self.method` says without repeating the name.
use vstd::prelude::*;
use vstd::string::StringSliceAdditionalSpecFns;
use crate::ast::{children, children_of, is_other, is_other_exec, lemma_children_decrease, Node};
use crate::bytes::{bytes_eq, lossy_utf8, src_range, src_range_exec, utf8_lossy};
use crate::diagnostic::{diagnostic, offense, offenses, push_bytes, push_str, Diagnostic, Offense};
use crate::source::{spec_column_of, spec_line_of, SourceFile};

verus! {

/// The cop.
pub struct ClassMethods;

/// Where the traversal is: the source of the innermost class or module
/// name, and whether it is inside `class << self` of it.
pub struct Scope {
    pub class_name: Option<Seq<u8>>,
    pub in_sclass_self: bool,
}

pub open spec fn text_of(src: Seq<u8>, n: Node) -> Seq<u8> {
    src_range(src, n.spec_loc().start as int, n.spec_loc().end as int)
}

pub open spec fn is_class(n: Node) -> bool {
    is_other(n, "ClassNode".spec_bytes())
}

pub open spec fn is_module(n: Node) -> bool {
    is_other(n, "ModuleNode".spec_bytes())
}

pub open spec fn is_sclass(n: Node) -> bool {
    is_other(n, "SingletonClassNode".spec_bytes())
}

/// A class body: statements, or a `begin` body with `rescue`/`ensure`.
pub open spec fn is_body(n: Node) -> bool {
    n is Statements || is_other(n, "BeginNode".spec_bytes())
}

/// Whether the traversal enters child `i` of `n`: only the body of a class,
/// module or singleton class, nothing inside a method, every child of other
/// nodes.
pub open spec fn visits(n: Node, i: int) -> bool {
    let k = children(n);
    if is_class(n) {
        k.len() >= 2 && i == k.len() - 1 && is_body(k[i])
    } else if is_module(n) || is_sclass(n) {
        i == 1
    } else if n is Def {
        false
    } else {
        true
    }
}

/// The scope for the children of `n`.
pub open spec fn child_scope(src: Seq<u8>, n: Node, s: Scope) -> Scope {
    if (is_class(n) || is_module(n)) && children(n).len() > 0 {
        Scope { class_name: Some(text_of(src, children(n)[0])), in_sclass_self: false }
    } else if is_sclass(n) && children(n).len() > 0 {
        Scope { class_name: s.class_name, in_sclass_self: s.in_sclass_self || is_other(children(n)[0], "SelfNode".spec_bytes()) }
    } else {
        s
    }
}

pub open spec fn class_method_message(name: Seq<u8>, class_name: Seq<u8>) -> Seq<u8> {
    "Use `self.".spec_bytes() + utf8_lossy(name) + "` instead of `".spec_bytes() + utf8_lossy(class_name)
        + ".".spec_bytes() + utf8_lossy(name) + "`.".spec_bytes()
}

/// The offense at a method defined on the enclosing class by name.
pub open spec fn own_offense(src: Seq<u8>, n: Node, s: Scope) -> Seq<Offense> {
    match (n, s.class_name) {
        (Node::Def { receiver: Some(r), name, .. }, Some(cn)) => if !s.in_sclass_self && text_of(src, *r) == cn {
            seq![offense(spec_line_of(src, r.spec_loc().start as int), spec_column_of(src, r.spec_loc().start as int), class_method_message(name@, cn))]
        } else {
            Seq::empty()
        },
        _ => Seq::empty(),
    }
}

pub open spec fn tree_offenses(src: Seq<u8>, n: Node, s: Scope) -> Seq<Offense>
    decreases n, children(n).len() + 1,
{
    own_offense(src, n, s) + children_offenses(src, n, children(n).len() as int, child_scope(src, n, s))
}

pub open spec fn children_offenses(src: Seq<u8>, n: Node, k: int, s: Scope) -> Seq<Offense>
    decreases n, k,
{
    if k <= 0 || k > children(n).len() {
        Seq::empty()
    } else {
        proof {
            lemma_children_decrease(n);
        }
        children_offenses(src, n, k - 1, s) + if visits(n, k - 1) {
            tree_offenses(src, children(n)[k - 1], s)
        } else {
            Seq::empty()
        }
    }
}

pub open spec fn spec_check_source(src: Seq<u8>, root: Node) -> Seq<Offense> {
    tree_offenses(src, root, Scope { class_name: None, in_sclass_self: false })
}

/// The executable form of [`Scope`].
#[derive(Clone, Copy)]
pub struct ScopeFacts<'a> {
    pub class_name: Option<&'a [u8]>,
    pub in_sclass_self: bool,
}

pub open spec fn scope_view(s: ScopeFacts) -> Scope {
    Scope {
        class_name: match s.class_name {
            Some(c) => Some(c@),
            None => None,
        },
        in_sclass_self: s.in_sclass_self,
    }
}

fn visits_exec(n: &Node, kids: &Vec<&Node>, i: usize) -> (r: bool)
    requires
        kids@.map_values(|x: &Node| *x) == children(*n),
        i < kids@.len(),
    ensures
        r == visits(*n, i as int),
{
    if is_other_exec(n, "ClassNode") {
        kids.len() >= 2 && i == kids.len() - 1 && match kids[i] {
            Node::Statements { .. } => true,
            _ => is_other_exec(kids[i], "BeginNode"),
        }
    } else if is_other_exec(n, "ModuleNode") || is_other_exec(n, "SingletonClassNode") {
        i == 1
    } else {
        match n {
            Node::Def { .. } => false,
            _ => true,
        }
    }
}

impl ClassMethods {
    pub fn name(&self) -> &'static str {
        "Style/ClassMethods"
    }

    fn visit<'a>(&self, source: &'a SourceFile, n: &'a Node, s: ScopeFacts<'a>, out: &mut Vec<Diagnostic>)
        ensures
            offenses(final(out)@) == offenses(old(out)@) + tree_offenses(source.text(), *n, scope_view(s)),
        decreases n, children(*n).len() + 1,
    {
        let ghost o = offenses(out@);
        let ghost src = source.text();
        let text = source.as_bytes();
        match (n, s.class_name) {
            (Node::Def { receiver: Some(r), name, .. }, Some(cn)) => {
                let rl = r.loc();
                if !s.in_sclass_self && bytes_eq(src_range_exec(text, rl.start, rl.end), cn) {
                    let (line, column) = source.position(rl.start);
                    let mut m: Vec<u8> = Vec::new();
                    push_str(&mut m, "Use `self.");
                    let nm = lossy_utf8(name.as_slice());
                    push_bytes(&mut m, nm.as_slice());
                    push_str(&mut m, "` instead of `");
                    let c = lossy_utf8(cn);
                    push_bytes(&mut m, c.as_slice());
                    push_str(&mut m, ".");
                    push_bytes(&mut m, nm.as_slice());
                    push_str(&mut m, "`.");
                    out.push(diagnostic(line, column, m));
                }
            },
            _ => {},
        }
        assert(offenses(out@) =~= o + own_offense(src, *n, scope_view(s)));
        let ghost o1 = offenses(out@);
        let kids = children_of(n);
        let ghost cs = kids@.map_values(|x: &Node| *x);
        let cls = is_other_exec(n, "ClassNode") || is_other_exec(n, "ModuleNode");
        let inner: ScopeFacts<'a> = if cls && kids.len() > 0 {
            let l = kids[0].loc();
            ScopeFacts { class_name: Some(src_range_exec(text, l.start, l.end)), in_sclass_self: false }
        } else if is_other_exec(n, "SingletonClassNode") && kids.len() > 0 {
            ScopeFacts { class_name: s.class_name, in_sclass_self: s.in_sclass_self || is_other_exec(kids[0], "SelfNode") }
        } else {
            s
        };
        assert(scope_view(inner) == child_scope(src, *n, scope_view(s)));
        let mut i: usize = 0;
        while i < kids.len()
            invariant
                i <= kids@.len(),
                cs == kids@.map_values(|x: &Node| *x),
                cs == children(*n),
                src == source.text(),
                scope_view(inner) == child_scope(src, *n, scope_view(s)),
                offenses(out@) == o1 + children_offenses(src, *n, i as int, scope_view(inner)),
            decreases kids@.len() - i,
        {
            proof {
                lemma_children_decrease(*n);
            }
            assert(cs[i as int] == *kids[i as int]);
            if visits_exec(n, &kids, i) {
                self.visit(source, kids[i], inner, out);
            }
            i = i + 1;
        }
        assert(offenses(out@) =~= o + tree_offenses(src, *n, scope_view(s)));
    }

    /// The offenses in the tree rooted at `root`, in traversal order.
    pub fn check_source(&self, source: &SourceFile, root: &Node) -> (r: Vec<Diagnostic>)
        ensures
            offenses(r@) == spec_check_source(source.text(), *root),
    {
        let mut out: Vec<Diagnostic> = Vec::new();
        assert(offenses(out@) =~= Seq::<Offense>::empty());
        let s = ScopeFacts { class_name: None, in_sclass_self: false };
        self.visit(source, root, s, &mut out);
        out
    }
}

} // verus!
