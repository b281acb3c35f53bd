//! RSpec/DescribeMethod: a top-level `describe SomeClass, "text"` whose
//! second argument does not name a method (`#instance` or `.class`).
//!
//! Only top-level groups are checked: the statements of the file, or, when
//! the file is a single statement, the groups found by unwrapping `module`,
//! `class` and `begin` around it.
use vstd::prelude::*;
use vstd::string::StringSliceAdditionalSpecFns;
use crate::ast::{call_args_exec, children, is_other, is_other_exec, lemma_children_decrease, NamedKind, Node};
use crate::bytes::{eq_str, utf8_is_valid};
use crate::diagnostic::{diagnostic, offense, offenses, str_bytes, Diagnostic, Offense};
use crate::source::{spec_column_of, spec_line_of, SourceFile};

verus! {

/// The cop.
pub struct DescribeMethod;

/// A `describe` (bare or `RSpec.describe`) with a block.
pub open spec fn is_describe_group(n: Node) -> bool {
    n matches Node::Call { name, receiver, block: Some(_), .. } && name@ == "describe".spec_bytes() && match receiver {
        None => true,
        Some(r) => *r matches Node::Named { kind: NamedKind::ConstantRead, name: c, .. } && c@ == "RSpec".spec_bytes(),
    }
}

/// The offense of a group whose second argument is a string that does not
/// start with `#` or `.`, after a constant first argument.
pub open spec fn describe_offense(src: Seq<u8>, n: Node) -> Seq<Offense> {
    let args = n.call_args();
    if args.len() >= 2 && (args[0] matches Node::Named { kind: NamedKind::ConstantRead, .. } || args[0] is ConstantPath)
        && args[1] is Str {
        let text = args[1]->Str_unescaped@;
        if vstd::utf8::valid_utf8(text) && !(text.len() > 0 && (text[0] == 35u8 || text[0] == 46u8)) {
            seq![offense(spec_line_of(src, args[1].spec_loc().start as int), spec_column_of(src, args[1].spec_loc().start as int),
                "The second argument to describe should be the method being tested. '#instance' or '.class'.".spec_bytes())]
        } else {
            Seq::empty()
        }
    } else {
        Seq::empty()
    }
}

/// The statements of a `module`, `class` or `begin` wrapper.
pub open spec fn wrapper_body(n: Node) -> Option<Node> {
    if (is_other(n, "ModuleNode".spec_bytes()) || is_other(n, "ClassNode".spec_bytes())) && children(n).len() > 0
        && children(n).last() is Statements {
        Some(children(n).last())
    } else if is_other(n, "BeginNode".spec_bytes()) && children(n).len() > 0 && children(n)[0] is Statements {
        Some(children(n)[0])
    } else {
        None
    }
}

/// The offenses of the top-level groups found from `n` on.
pub open spec fn collect(src: Seq<u8>, n: Node) -> Seq<Offense>
    decreases n, 0int,
{
    if is_describe_group(n) {
        describe_offense(src, n)
    } else {
        match wrapper_body(n) {
            Some(s) => {
                proof {
                    lemma_children_decrease(n);
                }
                match s {
                    Node::Statements { body, .. } => collect_stmts(src, s, body@.len() as int),
                    _ => Seq::empty(),
                }
            },
            None => Seq::empty(),
        }
    }
}

/// `collect` over the first `k` statements of `s`.
pub open spec fn collect_stmts(src: Seq<u8>, s: Node, k: int) -> Seq<Offense>
    decreases s, k,
{
    match s {
        Node::Statements { body, .. } => if k <= 0 || k > body@.len() {
            Seq::empty()
        } else {
            proof {
                lemma_children_decrease(s);
            }
            collect_stmts(src, s, k - 1) + collect(src, body@[k - 1])
        },
        _ => Seq::empty(),
    }
}

/// The offenses of `describe` calls among `stmts`, without unwrapping.
pub open spec fn direct_offenses(src: Seq<u8>, stmts: Seq<Node>) -> Seq<Offense>
    decreases stmts.len(),
{
    if stmts.len() == 0 {
        Seq::empty()
    } else {
        direct_offenses(src, stmts.drop_last()) + if is_describe_group(stmts.last()) {
            describe_offense(src, stmts.last())
        } else {
            Seq::empty()
        }
    }
}

pub open spec fn spec_check_source(src: Seq<u8>, root: Node) -> Seq<Offense> {
    match root {
        Node::Program { statements, .. } => match *statements {
            Node::Statements { body, .. } => if body@.len() == 1 {
                collect(src, body@[0])
            } else {
                direct_offenses(src, body@)
            },
            _ => Seq::empty(),
        },
        _ => Seq::empty(),
    }
}

fn wrapper_body_exec(n: &Node) -> (r: Option<&Node>)
    ensures
        match r {
            Some(s) => wrapper_body(*n) == Some(*s),
            None => wrapper_body(*n) is None,
        },
{
    match n {
        Node::Other { children: cs, .. } => {
            assert(children(*n) == cs@);
            let wrap = is_other_exec(n, "ModuleNode") || is_other_exec(n, "ClassNode");
            if wrap && cs.len() > 0 {
                let last = &cs[cs.len() - 1];
                assert(children(*n).last() == *last);
                if let Node::Statements { .. } = last {
                    return Some(last);
                }
            }
            if is_other_exec(n, "BeginNode") && cs.len() > 0 {
                if let Node::Statements { .. } = &cs[0] {
                    return Some(&cs[0]);
                }
            }
            None
        },
        _ => None,
    }
}

impl DescribeMethod {
    pub fn name(&self) -> &'static str {
        "RSpec/DescribeMethod"
    }

    /// Appends the offense of `n` if it is a top-level group; tells whether
    /// it is one.
    fn check_describe_call(&self, source: &SourceFile, n: &Node, out: &mut Vec<Diagnostic>) -> (r: bool)
        ensures
            r == is_describe_group(*n),
            offenses(final(out)@) == offenses(old(out)@) + if r { describe_offense(source.text(), *n) } else { Seq::empty() },
    {
        let ghost o = offenses(out@);
        let is_group = match n {
            Node::Call { name, receiver, block: Some(_), .. } => eq_str(name.as_slice(), "describe") && match receiver {
                None => true,
                Some(r) => match &**r {
                    Node::Named { kind: NamedKind::ConstantRead, name: c, .. } => eq_str(c.as_slice(), "RSpec"),
                    _ => false,
                },
            },
            _ => false,
        };
        if !is_group {
            assert(offenses(out@) =~= o);
            return false;
        }
        let args = call_args_exec(n);
        if args.len() >= 2 {
            let first_const = match &args[0] {
                Node::Named { kind: NamedKind::ConstantRead, .. } => true,
                Node::ConstantPath { .. } => true,
                _ => false,
            };
            if first_const {
                match &args[1] {
                    Node::Str { unescaped, loc, .. } => {
                        if utf8_is_valid(unescaped.as_slice()) && !(unescaped.len() > 0 && (unescaped[0] == 35u8
                            || unescaped[0] == 46u8)) {
                            let (line, column) = source.position(loc.start);
                            out.push(diagnostic(line, column, str_bytes("The second argument to describe should be the method being tested. '#instance' or '.class'.")));
                        }
                    },
                    _ => {},
                }
            }
        }
        assert(offenses(out@) =~= o + describe_offense(source.text(), *n));
        true
    }

    /// Appends the offenses of the top-level groups found from `n` on.
    pub fn collect_from_wrapper(&self, source: &SourceFile, n: &Node, out: &mut Vec<Diagnostic>)
        ensures
            offenses(final(out)@) == offenses(old(out)@) + collect(source.text(), *n),
        decreases n,
    {
        let ghost o = offenses(out@);
        if self.check_describe_call(source, n, out) {
            return;
        }
        let body = wrapper_body_exec(n);
        match body {
            Some(s) => {
                proof {
                    lemma_children_decrease(*n);
                }
                self.collect_statements(source, s, out);
            },
            None => {},
        }
        assert(offenses(out@) =~= o + collect(source.text(), *n));
    }

    fn collect_statements(&self, source: &SourceFile, s: &Node, out: &mut Vec<Diagnostic>)
        requires
            s is Statements,
        ensures
            offenses(final(out)@) == offenses(old(out)@) + collect_stmts(source.text(), *s, children(*s).len() as int),
        decreases s,
    {
        let ghost o = offenses(out@);
        match s {
            Node::Statements { body, .. } => {
                let mut i: usize = 0;
                while i < body.len()
                    invariant
                        i <= body@.len(),
                        *s matches Node::Statements { body: b, .. } && b@ == body@,
                        offenses(out@) == o + collect_stmts(source.text(), *s, i as int),
                    decreases body@.len() - i,
                {
                    proof {
                        lemma_children_decrease(*s);
                    }
                    assert(children(*s)[i as int] == body@[i as int]);
                    self.collect_from_wrapper(source, &body[i], out);
                    assert(offenses(out@) =~= o + collect_stmts(source.text(), *s, i + 1));
                    i = i + 1;
                }
            },
            _ => {},
        }
    }

    /// The offenses of the top-level groups of the file whose tree is `root`.
    pub fn check_source(&self, source: &SourceFile, root: &Node) -> (r: Vec<Diagnostic>)
        ensures
            offenses(r@) == spec_check_source(source.text(), *root),
    {
        let mut out: Vec<Diagnostic> = Vec::new();
        match root {
            Node::Program { statements, .. } => match &**statements {
                Node::Statements { body, .. } => if body.len() == 1 {
                    self.collect_from_wrapper(source, &body[0], &mut out);
                } else {
                    let mut i: usize = 0;
                    while i < body.len()
                        invariant
                            i <= body@.len(),
                            offenses(out@) == direct_offenses(source.text(), body@.take(i as int)),
                        decreases body@.len() - i,
                    {
                        assert(body@.take(i + 1).drop_last() =~= body@.take(i as int));
                        assert(body@.take(i + 1).last() == body@[i as int]);
                        self.check_describe_call(source, &body[i], &mut out);
                        i = i + 1;
                    }
                    assert(body@.take(body@.len() as int) =~= body@);
                },
                _ => {},
            },
            _ => {},
        }
        assert(offenses(out@) =~= spec_check_source(source.text(), *root));
        out
    }
}

} // verus!
