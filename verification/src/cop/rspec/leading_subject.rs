//! RSpec/LeadingSubject: `subject` declared after a `let`, a hook, an
//! example or a nested group of the same example group.
use vstd::prelude::*;
use vstd::string::StringSliceAdditionalSpecFns;
use crate::ast::Node;
use crate::bytes::eq_str;
use crate::cop::util::{
    constant_name, is_rspec_example, is_rspec_example_group, is_rspec_hook, is_rspec_let,
    is_rspec_subject, spec_constant_name, spec_is_rspec_example, spec_is_rspec_example_group,
    spec_is_rspec_hook, spec_is_rspec_let, spec_is_rspec_subject,
};
use crate::diagnostic::{diagnostic, offense, offenses, push_bytes, push_str, Diagnostic, Offense};
use crate::source::{spec_column_of, spec_line_of, SourceFile};

verus! {

/// The cop.
pub struct LeadingSubject;

/// Calls that include shared examples or a shared context.
pub open spec fn spec_is_example_include(name: Seq<u8>) -> bool {
    ||| name == "include_examples".spec_bytes()
    ||| name == "it_behaves_like".spec_bytes()
    ||| name == "it_should_behave_like".spec_bytes()
    ||| name == "include_context".spec_bytes()
}

/// `RSpec.describe`: a `describe` call on the `RSpec` constant.
pub open spec fn is_rspec_describe(recv: Node, name: Seq<u8>) -> bool {
    spec_constant_name(recv) == Some("RSpec".spec_bytes()) && name == "describe".spec_bytes()
}

/// A call that opens a spec group at the top of a file.
pub open spec fn is_spec_group_call(n: Node) -> bool {
    match n {
        Node::Call { receiver: Some(r), name, .. } => is_rspec_describe(*r, name@),
        Node::Call { receiver: None, name, .. } => spec_is_rspec_example_group(name@),
        _ => false,
    }
}

/// The name a statement contributes as "something declared before the
/// subject", if any.  Inside an include block (`in_include`) calls with a
/// receiver never count.
pub open spec fn relevant_name(s: Node, in_include: bool) -> Option<Seq<u8>> {
    match s {
        Node::Call { receiver: Some(r), name, .. } => if !in_include && is_rspec_describe(
            *r,
            name@,
        ) {
            Some(name@)
        } else {
            None
        },
        Node::Call { receiver: None, name, .. } => if spec_is_rspec_subject(name@) {
            None
        } else if spec_is_rspec_example_group(name@) || spec_is_example_include(name@)
            || spec_is_rspec_let(name@) || spec_is_rspec_hook(name@) || spec_is_rspec_example(
            name@,
        ) {
            Some(name@)
        } else {
            None
        },
        _ => None,
    }
}

/// The first relevant name among the first `k` statements.
pub open spec fn first_relevant(stmts: Seq<Node>, k: int, in_include: bool) -> Option<Seq<u8>>
    decreases k,
{
    if k <= 0 {
        None
    } else {
        match first_relevant(stmts, k - 1, in_include) {
            Some(x) => Some(x),
            None => relevant_name(stmts[k - 1], in_include),
        }
    }
}

pub open spec fn subject_message(prev: Seq<u8>) -> Seq<u8> {
    "Declare `subject` above any other `".spec_bytes() + prev + "` declarations.".spec_bytes()
}

/// Whether a statement is a `subject` call without receiver.
pub open spec fn is_subject_call(s: Node) -> bool {
    s matches Node::Call { receiver: None, name, .. } && spec_is_rspec_subject(name@)
}

/// How the cop descends from a statement: not at all, into an example group,
/// or into an include block.
pub open spec fn descent(s: Node, in_include: bool) -> Option<bool> {
    if in_include {
        None
    } else {
        match s {
            Node::Call { receiver: Some(r), name, .. } => if is_rspec_describe(*r, name@) {
                Some(false)
            } else {
                None
            },
            Node::Call { receiver: None, name, .. } => if spec_is_rspec_subject(name@) {
                None
            } else if spec_is_rspec_example_group(name@) {
                Some(false)
            } else if spec_is_example_include(name@) {
                Some(true)
            } else {
                None
            },
            _ => None,
        }
    }
}

/// The offenses of the first `k` statements of a block body.
pub open spec fn scan(src: Seq<u8>, stmts: Seq<Node>, k: int, in_include: bool) -> Seq<Offense>
    decreases stmts, k,
{
    if k <= 0 || k > stmts.len() {
        Seq::empty()
    } else {
        let s = stmts[k - 1];
        scan(src, stmts, k - 1, in_include) + if is_subject_call(s) {
            match first_relevant(stmts, k - 1, in_include) {
                Some(p) => seq![
                    offense(
                        spec_line_of(src, s.spec_loc().start as int),
                        spec_column_of(src, s.spec_loc().start as int),
                        subject_message(p),
                    ),
                ],
                None => Seq::empty(),
            }
        } else {
            match descent(s, in_include) {
                Some(inc) => group_offenses(src, s, inc),
                None => Seq::empty(),
            }
        }
    }
}

/// The offenses inside the block of the call `n`.
pub open spec fn group_offenses(src: Seq<u8>, n: Node, in_include: bool) -> Seq<Offense>
    decreases n, 0int,
{
    match n {
        Node::Call { block: Some(b), .. } => match *b {
            Node::Block { body: Some(body), .. } => match *body {
                Node::Statements { body: stmts, .. } => {
                    proof {
                        assert(decreases_to!(stmts => stmts@));
                    }
                    scan(src, stmts@, stmts@.len() as int, in_include)
                },
                _ => Seq::empty(),
            },
            _ => Seq::empty(),
        },
        _ => Seq::empty(),
    }
}

/// The offenses of the spec groups among the first `k` top-level statements.
pub open spec fn top_offenses(src: Seq<u8>, stmts: Seq<Node>, k: int) -> Seq<Offense>
    decreases k,
{
    if k <= 0 {
        Seq::empty()
    } else {
        top_offenses(src, stmts, k - 1) + if is_spec_group_call(stmts[k - 1]) {
            group_offenses(src, stmts[k - 1], false)
        } else {
            Seq::empty()
        }
    }
}

/// The offenses of a program.
pub open spec fn spec_check_node(src: Seq<u8>, n: Node) -> Seq<Offense> {
    match n {
        Node::Program { statements, .. } => match *statements {
            Node::Statements { body, .. } => top_offenses(src, body@, body@.len() as int),
            _ => Seq::empty(),
        },
        _ => Seq::empty(),
    }
}

pub fn is_example_include(name: &[u8]) -> (r: bool)
    ensures
        r == spec_is_example_include(name@),
{
    eq_str(name, "include_examples") || eq_str(name, "it_behaves_like") || eq_str(
        name,
        "it_should_behave_like",
    ) || eq_str(name, "include_context")
}

fn is_rspec_describe_exec(recv: &Node, name: &[u8]) -> (r: bool)
    ensures
        r == is_rspec_describe(*recv, name@),
{
    let c = match constant_name(recv) {
        Some(c) => c,
        None => {
            return false;
        },
    };
    eq_str(c.as_slice(), "RSpec") && eq_str(name, "describe")
}

fn is_spec_group_call_exec(n: &Node) -> (r: bool)
    ensures
        r == is_spec_group_call(*n),
{
    match n {
        Node::Call { receiver: Some(r), name, .. } => is_rspec_describe_exec(r, name.as_slice()),
        Node::Call { receiver: None, name, .. } => is_rspec_example_group(name.as_slice()),
        _ => false,
    }
}

fn relevant_name_exec(s: &Node, in_include: bool) -> (r: Option<&Vec<u8>>)
    ensures
        match r {
            Some(v) => relevant_name(*s, in_include) == Some(v@),
            None => relevant_name(*s, in_include) is None,
        },
{
    match s {
        Node::Call { receiver: Some(r), name, .. } => {
            if !in_include && is_rspec_describe_exec(r, name.as_slice()) {
                Some(name)
            } else {
                None
            }
        },
        Node::Call { receiver: None, name, .. } => {
            let n = name.as_slice();
            if is_rspec_subject(n) {
                None
            } else if is_rspec_example_group(n) || is_example_include(n) || is_rspec_let(n)
                || is_rspec_hook(n) || is_rspec_example(n) {
                Some(name)
            } else {
                None
            }
        },
        _ => None,
    }
}

fn is_subject_call_exec(s: &Node) -> (r: bool)
    ensures
        r == is_subject_call(*s),
{
    match s {
        Node::Call { receiver: None, name, .. } => is_rspec_subject(name.as_slice()),
        _ => false,
    }
}

fn descent_exec(s: &Node, in_include: bool) -> (r: Option<bool>)
    ensures
        r == descent(*s, in_include),
{
    if in_include {
        return None;
    }
    match s {
        Node::Call { receiver: Some(r), name, .. } => {
            if is_rspec_describe_exec(r, name.as_slice()) {
                Some(false)
            } else {
                None
            }
        },
        Node::Call { receiver: None, name, .. } => {
            let n = name.as_slice();
            if is_rspec_subject(n) {
                None
            } else if is_rspec_example_group(n) {
                Some(false)
            } else if is_example_include(n) {
                Some(true)
            } else {
                None
            }
        },
        _ => None,
    }
}

fn subject_message_exec(prev: &[u8]) -> (r: Vec<u8>)
    ensures
        r@ == subject_message(prev@),
{
    let mut m: Vec<u8> = Vec::new();
    push_str(&mut m, "Declare `subject` above any other `");
    push_bytes(&mut m, prev);
    push_str(&mut m, "` declarations.");
    m
}

impl LeadingSubject {
    pub fn name(&self) -> &'static str {
        "RSpec/LeadingSubject"
    }

    /// Appends the offenses inside the block of the call `n`.
    fn check_group(&self, source: &SourceFile, n: &Node, in_include: bool, out: &mut Vec<Diagnostic>)
        ensures
            offenses(final(out)@) == offenses(old(out)@) + group_offenses(
                source.text(),
                *n,
                in_include,
            ),
        decreases n,
    {
        let ghost src = source.text();
        let stmts = match n {
            Node::Call { block: Some(b), .. } => match &**b {
                Node::Block { body: Some(body), .. } => match &**body {
                    Node::Statements { body: stmts, .. } => stmts,
                    _ => {
                        return;
                    },
                },
                _ => {
                    return;
                },
            },
            _ => {
                return;
            },
        };
        assert(group_offenses(src, *n, in_include) == scan(
            src,
            stmts@,
            stmts@.len() as int,
            in_include,
        ));
        let ghost start = offenses(out@);
        let mut first: Option<&Vec<u8>> = None;
        let mut i: usize = 0;
        while i < stmts.len()
            invariant
                i <= stmts@.len(),
                src == source.text(),
                offenses(out@) == start + scan(src, stmts@, i as int, in_include),
                match first {
                    Some(v) => first_relevant(stmts@, i as int, in_include) == Some(v@),
                    None => first_relevant(stmts@, i as int, in_include) is None,
                },
                decreases_to!(*n => stmts@),
            decreases stmts@.len() - i,
        {
            let s = &stmts[i];
            let ghost before = out@;
            if is_subject_call_exec(s) {
                match first {
                    Some(p) => {
                        let (line, column) = source.position(s.loc().start);
                        out.push(diagnostic(line, column, subject_message_exec(p.as_slice())));
                        assert(offenses(out@) =~= offenses(before) + seq![offenses(out@).last()]);
                    },
                    None => {},
                }
            } else {
                match descent_exec(s, in_include) {
                    Some(inc) => {
                        assert(decreases_to!(stmts@ => stmts@[i as int]));
                        self.check_group(source, s, inc, out);
                    },
                    None => {},
                }
            }
            if first.is_none() {
                first = relevant_name_exec(s, in_include);
            }
            assert(offenses(out@) =~= start + scan(src, stmts@, i + 1, in_include));
            i = i + 1;
        }
    }

    /// The offenses of a program: subjects declared after other declarations
    /// in the spec groups at the top of the file and in everything they nest.
    pub fn check_node(&self, source: &SourceFile, node: &Node) -> (r: Vec<Diagnostic>)
        ensures
            offenses(r@) == spec_check_node(source.text(), *node),
    {
        let mut out: Vec<Diagnostic> = Vec::new();
        let body = match node {
            Node::Program { statements, .. } => match &**statements {
                Node::Statements { body, .. } => body,
                _ => {
                    return out;
                },
            },
            _ => {
                return out;
            },
        };
        let ghost src = source.text();
        let mut i: usize = 0;
        assert(offenses(out@) =~= Seq::<Offense>::empty());
        while i < body.len()
            invariant
                i <= body@.len(),
                src == source.text(),
                offenses(out@) == top_offenses(src, body@, i as int),
            decreases body@.len() - i,
        {
            let ghost before = offenses(out@);
            if is_spec_group_call_exec(&body[i]) {
                self.check_group(source, &body[i], false, &mut out);
            }
            assert(offenses(out@) =~= top_offenses(src, body@, i + 1));
            i = i + 1;
        }
        out
    }
}

} // verus!
