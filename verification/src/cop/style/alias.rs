//! Style/Alias: `alias` against `alias_method`, by the enforced style and the
//! scope each one stands in.
use vstd::prelude::*;
use vstd::string::StringSliceAdditionalSpecFns;
use crate::ast::{call_args_exec, children, children_of, is_other, is_other_exec, lemma_children_decrease, Node};
use crate::bytes::{eq_str, src_range, src_range_exec, starts_with, starts_with_str};
use crate::diagnostic::{diagnostic, offense, offenses, str_bytes, Diagnostic, Offense};
use crate::source::{spec_column_of, spec_line_of, SourceFile};

verus! {

/// The cop.
pub struct Alias;

/// The configured style.
#[derive(Clone, Copy, PartialEq, Eq, Structural, Debug)]
pub enum AliasStyle {
    PreferAlias,
    PreferAliasMethod,
    /// A value the cop does not know: `alias` is judged as under
    /// `PreferAlias`, `alias_method` is not judged.
    Unrecognized,
}

/// The kind of scope a node stands in.
#[derive(Clone, Copy, PartialEq, Eq, Structural, Debug)]
pub enum ScopeType {
    Lexical,
    Dynamic,
    InstanceEval,
}

pub open spec fn alias_method_msg() -> Seq<u8> {
    "Use `alias_method` instead of `alias`.".spec_bytes()
}

pub open spec fn alias_msg() -> Seq<u8> {
    "Use `alias` instead of `alias_method`.".spec_bytes()
}

/// The innermost scope of a stack, lexical when it is empty.
pub open spec fn top(stack: Seq<ScopeType>) -> ScopeType {
    if stack.len() == 0 {
        ScopeType::Lexical
    } else {
        stack.last()
    }
}

/// `alias_method` could be used: not in `instance_eval`, not in a `def`.
pub open spec fn spec_alias_method_possible(scope: ScopeType, in_def: bool) -> bool {
    scope != ScopeType::InstanceEval && !in_def
}

/// `alias` could be used for the call `c`: not in a dynamic scope, and
/// exactly two symbol arguments.
pub open spec fn alias_keyword_possible(scope: ScopeType, c: Node) -> bool {
    &&& scope != ScopeType::Dynamic
    &&& c->Call_arguments is Some
    &&& c.call_args().len() == 2
    &&& c.call_args()[0] is Symbol
    &&& c.call_args()[1] is Symbol
}

/// The offense of the node itself.
pub open spec fn own_offenses(src: Seq<u8>, n: Node, scope: ScopeType, in_def: bool, style: AliasStyle) -> Seq<Offense> {
    if is_other(n, "AliasMethodNode".spec_bytes()) {
        let start = n.spec_loc().start as int;
        let kw = src_range(src, start, src.len() as int);
        let judged = if style == AliasStyle::PreferAliasMethod {
            spec_alias_method_possible(scope, in_def)
        } else {
            scope == ScopeType::Dynamic && spec_alias_method_possible(scope, in_def)
        };
        if judged && (starts_with(kw, "alias ".spec_bytes()) || starts_with(kw, "alias\t".spec_bytes())) {
            seq![offense(spec_line_of(src, start), spec_column_of(src, start), alias_method_msg())]
        } else {
            Seq::empty()
        }
    } else {
        match n {
            Node::Call { name, receiver: None, message_loc, loc, .. } => if style
                == AliasStyle::PreferAlias && name@ == "alias_method".spec_bytes()
                && alias_keyword_possible(scope, n) {
                let at = match message_loc {
                    Some(m) => m.start as int,
                    None => loc.start as int,
                };
                seq![offense(spec_line_of(src, at), spec_column_of(src, at), alias_msg())]
            } else {
                Seq::empty()
            },
            _ => Seq::empty(),
        }
    }
}

/// The scope and `def` context for the children of `n`.
pub open spec fn child_context(n: Node, scope: ScopeType, in_def: bool) -> (ScopeType, bool) {
    if is_other(n, "ClassNode".spec_bytes()) || is_other(n, "ModuleNode".spec_bytes()) {
        (ScopeType::Lexical, in_def)
    } else if is_other(n, "LambdaNode".spec_bytes()) {
        (ScopeType::Dynamic, in_def)
    } else {
        match n {
            Node::Def { receiver, .. } => (ScopeType::Dynamic, in_def || receiver is None),
            Node::Call { name, block: Some(_), .. } => (
                if name@ == "instance_eval".spec_bytes() {
                    ScopeType::InstanceEval
                } else {
                    ScopeType::Dynamic
                },
                in_def,
            ),
            _ => (scope, in_def),
        }
    }
}

/// The offenses in the tree rooted at `n`, in traversal order.
pub open spec fn tree_offenses(src: Seq<u8>, n: Node, scope: ScopeType, in_def: bool, style: AliasStyle) -> Seq<Offense>
    decreases n, children(n).len() + 1,
{
    let (s2, d2) = child_context(n, scope, in_def);
    own_offenses(src, n, scope, in_def, style) + children_offenses(src, n, children(n).len() as int, s2, d2, style)
}

/// The offenses in the trees of the first `k` children of `n`.
pub open spec fn children_offenses(src: Seq<u8>, n: Node, k: int, scope: ScopeType, in_def: bool, style: AliasStyle) -> Seq<Offense>
    decreases n, k,
{
    if k <= 0 || k > children(n).len() {
        Seq::empty()
    } else {
        proof {
            lemma_children_decrease(n);
        }
        children_offenses(src, n, k - 1, scope, in_def, style) + tree_offenses(
            src,
            children(n)[k - 1],
            scope,
            in_def,
            style,
        )
    }
}

/// The offenses of a whole file.
pub open spec fn spec_check_source(src: Seq<u8>, root: Node, style: AliasStyle) -> Seq<Offense> {
    tree_offenses(src, root, ScopeType::Lexical, false, style)
}

/// The state of a traversal: the stack of scopes and whether a `def`
/// without receiver encloses the current node.
pub struct AliasVisitor {
    pub scope_stack: Vec<ScopeType>,
    pub in_def: bool,
}

impl AliasVisitor {
    /// The innermost scope.
    pub fn current_scope(&self) -> (r: ScopeType)
        ensures
            r == top(self.scope_stack@),
    {
        if self.scope_stack.len() == 0 {
            ScopeType::Lexical
        } else {
            self.scope_stack[self.scope_stack.len() - 1]
        }
    }

    /// Whether `alias_method` could stand where the traversal is.
    pub fn alias_method_possible(&self) -> (r: bool)
        ensures
            r == spec_alias_method_possible(top(self.scope_stack@), self.in_def),
    {
        self.current_scope() != ScopeType::InstanceEval && !self.in_def
    }

    fn own_offenses_exec(&self, source: &SourceFile, n: &Node, style: AliasStyle, out: &mut Vec<Diagnostic>)
        ensures
            offenses(final(out)@) == offenses(old(out)@) + own_offenses(
                source.text(),
                *n,
                top(self.scope_stack@),
                self.in_def,
                style,
            ),
    {
        let ghost o = offenses(out@);
        let scope = self.current_scope();
        if is_other_exec(n, "AliasMethodNode") {
            let start = n.loc().start;
            let text = source.as_bytes();
            let kw = src_range_exec(text, start, text.len());
            let judged = if style == AliasStyle::PreferAliasMethod {
                self.alias_method_possible()
            } else {
                scope == ScopeType::Dynamic && self.alias_method_possible()
            };
            if judged && (starts_with_str(kw, "alias ") || starts_with_str(kw, "alias\t")) {
                let (line, column) = source.position(start);
                out.push(diagnostic(line, column, str_bytes("Use `alias_method` instead of `alias`.")));
            }
            assert(offenses(out@) =~= o + own_offenses(source.text(), *n, scope, self.in_def, style));
            return;
        }
        match n {
            Node::Call { name, receiver: None, message_loc, loc, arguments, .. } => {
                if style == AliasStyle::PreferAlias && eq_str(name.as_slice(), "alias_method")
                    && scope != ScopeType::Dynamic && arguments.is_some() {
                    let args = call_args_exec(n);
                    if args.len() == 2 && matches!(args[0], Node::Symbol { .. }) && matches!(
                        args[1],
                        Node::Symbol { .. }
                    ) {
                        let at = match message_loc {
                            Some(m) => m.start,
                            None => loc.start,
                        };
                        let (line, column) = source.position(at);
                        out.push(diagnostic(line, column, str_bytes("Use `alias` instead of `alias_method`.")));
                    }
                }
            },
            _ => {},
        }
        assert(offenses(out@) =~= o + own_offenses(source.text(), *n, scope, self.in_def, style));
    }

    /// Appends the offenses of the tree rooted at `n`; the state is the same
    /// afterwards.
    fn visit(&mut self, source: &SourceFile, n: &Node, style: AliasStyle, out: &mut Vec<Diagnostic>)
        ensures
            final(self).scope_stack@ == old(self).scope_stack@,
            final(self).in_def == old(self).in_def,
            offenses(final(out)@) == offenses(old(out)@) + tree_offenses(
                source.text(),
                *n,
                top(old(self).scope_stack@),
                old(self).in_def,
                style,
            ),
        decreases n, children(*n).len() + 1,
    {
        let ghost o = offenses(out@);
        let ghost stack0 = self.scope_stack@;
        let ghost scope0 = top(stack0);
        let def0 = self.in_def;
        self.own_offenses_exec(source, n, style, out);
        let ghost o1 = offenses(out@);
        let pushed: Option<ScopeType> = if is_other_exec(n, "ClassNode") || is_other_exec(n, "ModuleNode") {
            Some(ScopeType::Lexical)
        } else if is_other_exec(n, "LambdaNode") {
            Some(ScopeType::Dynamic)
        } else {
            match n {
                Node::Def { receiver, .. } => {
                    if receiver.is_none() {
                        self.in_def = true;
                    }
                    Some(ScopeType::Dynamic)
                },
                Node::Call { name, block: Some(_), .. } => {
                    if eq_str(name.as_slice(), "instance_eval") {
                        Some(ScopeType::InstanceEval)
                    } else {
                        Some(ScopeType::Dynamic)
                    }
                },
                _ => None,
            }
        };
        match pushed {
            Some(sc) => self.scope_stack.push(sc),
            None => {},
        }
        assert((top(self.scope_stack@), self.in_def) == child_context(*n, scope0, def0));
        let kids = children_of(n);
        let ghost cs = kids@.map_values(|x: &Node| *x);
        let mut i: usize = 0;
        while i < kids.len()
            invariant
                i <= kids@.len(),
                cs == kids@.map_values(|x: &Node| *x),
                cs == children(*n),
                (top(self.scope_stack@), self.in_def) == child_context(*n, scope0, def0),
                self.scope_stack@ == if pushed is Some { stack0.push(pushed->Some_0) } else { stack0 },
                offenses(out@) == o1 + children_offenses(
                    source.text(),
                    *n,
                    i as int,
                    child_context(*n, scope0, def0).0,
                    child_context(*n, scope0, def0).1,
                    style,
                ),
            decreases kids@.len() - i,
        {
            proof {
                lemma_children_decrease(*n);
            }
            assert(cs[i as int] == *kids[i as int]);
            self.visit(source, kids[i], style, out);
            i = i + 1;
        }
        match pushed {
            Some(_) => {
                self.scope_stack.pop();
            },
            None => {},
        }
        assert(self.scope_stack@ =~= stack0);
        self.in_def = def0;
    }
}

impl Alias {
    pub fn name(&self) -> &'static str {
        "Style/Alias"
    }

    /// The offenses in the tree rooted at `root`, in traversal order.
    pub fn check_source(&self, source: &SourceFile, root: &Node, style: AliasStyle) -> (r: Vec<Diagnostic>)
        ensures
            offenses(r@) == spec_check_source(source.text(), *root, style),
    {
        let mut v = AliasVisitor { scope_stack: Vec::new(), in_def: false };
        v.scope_stack.push(ScopeType::Lexical);
        let mut out: Vec<Diagnostic> = Vec::new();
        assert(offenses(out@) =~= Seq::<Offense>::empty());
        v.visit(source, root, style, &mut out);
        out
    }
}

} // verus!
