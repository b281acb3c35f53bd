//! RSpec/RepeatedExample: examples with the same arguments and block source
//! inside one example group.
use vstd::prelude::*;
use vstd::string::StringSliceAdditionalSpecFns;
use crate::ast::Node;
use crate::bytes::{eq_str, src_range, src_range_exec};
use crate::cop::rspec::repeated_example_group_body::{
    join_lines, join_lines_exec, repeat_lines, EntryExec, GroupEntry,
};
use crate::cop::util::{is_rspec_example, spec_is_rspec_example, spec_is_rspec_example_group_only};
use crate::diagnostic::{offense, offenses, push_bytes, push_str, Diagnostic, Offense};
use crate::source::{spec_column_of, spec_line_of, SourceFile};

verus! {

/// The cop.
pub struct RepeatedExample;

/// The source text of a node.
pub open spec fn node_text(src: Seq<u8>, n: Node) -> Seq<u8> {
    src_range(src, n.spec_loc().start as int, n.spec_loc().end as int)
}

/// The part of the signature contributed by the arguments `args[i..]`: each
/// argument's source followed by `,`, except a leading description string.
pub open spec fn args_signature(src: Seq<u8>, args: Seq<Node>, is_its: bool) -> Seq<u8>
    decreases args.len(),
{
    if args.len() == 0 {
        Seq::empty()
    } else {
        let a = args.last();
        let skip = args.len() == 1 && !is_its && (a is Str || a is InterpolatedStr);
        args_signature(src, args.drop_last(), is_its) + if skip {
            Seq::empty()
        } else {
            node_text(src, a) + seq![44u8]
        }
    }
}

/// The signature of an example: its arguments (without a leading description
/// string, except for `its`) and the source of its block.
pub open spec fn example_signature(src: Seq<u8>, c: Node) -> Seq<u8> {
    args_signature(src, c.call_args(), c->Call_name@ == "its".spec_bytes()) + match c {
        Node::Call { block: Some(b), .. } => if *b is Block {
            node_text(src, *b)
        } else {
            Seq::empty()
        },
        _ => Seq::empty(),
    }
}

/// The comparison entry for a statement that is an example.
pub open spec fn example_entry(src: Seq<u8>, n: Node) -> Option<GroupEntry> {
    if n is Call && (spec_is_rspec_example(n->Call_name@) || n->Call_name@ == "its".spec_bytes())
        && example_signature(src, n).len() > 0 {
        Some(
            GroupEntry {
                line: spec_line_of(src, n.spec_loc().start as int),
                column: spec_column_of(src, n.spec_loc().start as int),
                name: n->Call_name@,
                signature: example_signature(src, n).map_values(|b: u8| b as u64),
            },
        )
    } else {
        None
    }
}

/// The entries of the examples among `stmts`, in order.
pub open spec fn example_entries(src: Seq<u8>, stmts: Seq<Node>) -> Seq<GroupEntry>
    decreases stmts.len(),
{
    if stmts.len() == 0 {
        Seq::empty()
    } else {
        example_entries(src, stmts.drop_last()) + match example_entry(src, stmts.last()) {
            Some(e) => seq![e],
            None => Seq::empty(),
        }
    }
}

pub open spec fn repeated_example_message(lines: Seq<int>) -> Seq<u8> {
    "Don't repeat examples within an example group. Repeated on line(s) ".spec_bytes()
        + join_lines(lines) + ".".spec_bytes()
}

/// The offenses for the first `k` entries.
pub open spec fn example_report(es: Seq<GroupEntry>, k: int) -> Seq<Offense>
    decreases k,
{
    if k <= 0 {
        Seq::empty()
    } else {
        let i = k - 1;
        let others = repeat_lines(es, i, es.len() as int);
        example_report(es, k - 1) + if others.len() > 0 {
            seq![offense(es[i].line, es[i].column, repeated_example_message(others))]
        } else {
            Seq::empty()
        }
    }
}

/// The statements of the body of an example group call, if it has them.
pub open spec fn group_statements(n: Node) -> Option<Seq<Node>> {
    match n {
        Node::Call { name, block: Some(b), .. } => if spec_is_rspec_example_group_only(name@) {
            match *b {
                Node::Block { body: Some(body), .. } => match *body {
                    Node::Statements { body: stmts, .. } => Some(stmts@),
                    _ => None,
                },
                _ => None,
            }
        } else {
            None
        },
        _ => None,
    }
}

/// The offenses at `n`: repeated examples directly inside the group.
pub open spec fn spec_check_node(src: Seq<u8>, n: Node) -> Seq<Offense> {
    match group_statements(n) {
        Some(stmts) => {
            let es = example_entries(src, stmts);
            example_report(es, es.len() as int)
        },
        None => Seq::empty(),
    }
}

/// Whether `name` opens an example group (not a shared group).
pub fn is_example_group(name: &[u8]) -> (r: bool)
    ensures
        r == spec_is_rspec_example_group_only(name@),
{
    crate::cop::util::is_rspec_example_group_only(name)
}

fn push_text(out: &mut Vec<u8>, src: &[u8], n: &Node)
    ensures
        final(out)@ == old(out)@ + node_text(src@, *n),
{
    let l = n.loc();
    push_bytes(out, src_range_exec(src, l.start, l.end));
}

/// The signature of an example call, if it is not empty.
pub fn example_body_signature(source: &SourceFile, call: &Node, method_name: &[u8]) -> (r: Option<Vec<u8>>)
    requires
        call is Call,
        method_name@ == call->Call_name@,
    ensures
        match r {
            Some(s) => s@ == example_signature(source.text(), *call) && s@.len() > 0,
            None => example_signature(source.text(), *call).len() == 0,
        },
{
    let src = source.as_bytes();
    let is_its = eq_str(method_name, "its");
    let mut sig: Vec<u8> = Vec::new();
    match call {
        Node::Call { arguments: Some(a), .. } => match &**a {
            Node::Arguments { arguments: args, .. } => {
                let mut i: usize = 0;
                while i < args.len()
                    invariant
                        i <= args@.len(),
                        src@ == source.text(),
                        sig@ == args_signature(src@, args@.subrange(0, i as int), is_its),
                    decreases args@.len() - i,
                {
                    let arg = &args[i];
                    let skip = i == 0 && !is_its && match arg {
                        Node::Str { .. } => true,
                        Node::InterpolatedStr { .. } => true,
                        _ => false,
                    };
                    if !skip {
                        push_text(&mut sig, src, arg);
                        sig.push(44u8);
                    }
                    assert(args@.subrange(0, i + 1).drop_last() =~= args@.subrange(0, i as int));
                    assert(sig@ =~= args_signature(src@, args@.subrange(0, i + 1), is_its));
                    i = i + 1;
                }
                assert(args@.subrange(0, args@.len() as int) =~= args@);
            },
            _ => {},
        },
        _ => {},
    }
    let ghost after_args = sig@;
    match call {
        Node::Call { block: Some(b), .. } => match &**b {
            Node::Block { .. } => push_text(&mut sig, src, b),
            _ => {},
        },
        _ => {},
    }
    assert(sig@ =~= example_signature(source.text(), *call));
    if sig.len() == 0 {
        None
    } else {
        Some(sig)
    }
}

fn to_tokens(s: &Vec<u8>) -> (r: Vec<u64>)
    ensures
        r@ == s@.map_values(|b: u8| b as u64),
{
    let mut v: Vec<u64> = Vec::new();
    let mut i: usize = 0;
    while i < s.len()
        invariant
            i <= s@.len(),
            v@ == s@.subrange(0, i as int).map_values(|b: u8| b as u64),
        decreases s@.len() - i,
    {
        v.push(s[i] as u64);
        assert(s@.subrange(0, i + 1).map_values(|b: u8| b as u64) =~= s@.subrange(0, i as int).map_values(|b: u8| b as u64).push(s@[i as int] as u64));
        i = i + 1;
    }
    assert(s@.subrange(0, s@.len() as int) =~= s@);
    v
}

fn example_entry_exec(source: &SourceFile, n: &Node) -> (r: Option<EntryExec>)
    ensures
        match r {
            Some(e) => example_entry(source.text(), *n) == Some(e@),
            None => example_entry(source.text(), *n) is None,
        },
{
    let name = match n {
        Node::Call { name, .. } => name,
        _ => {
            return None;
        },
    };
    if !(is_rspec_example(name.as_slice()) || eq_str(name.as_slice(), "its")) {
        return None;
    }
    match example_body_signature(source, n, name.as_slice()) {
        Some(sig) => {
            let (line, column) = source.position(n.loc().start);
            let signature = to_tokens(&sig);
            Some(EntryExec { line, column, name: name.clone(), signature })
        },
        None => None,
    }
}

impl RepeatedExample {
    pub fn name(&self) -> &'static str {
        "RSpec/RepeatedExample"
    }

    /// The offenses at `node`: in an example group, each example whose
    /// arguments and block repeat another example of the group.
    pub fn check_node(&self, source: &SourceFile, node: &Node) -> (r: Vec<Diagnostic>)
        ensures
            offenses(r@) == spec_check_node(source.text(), *node),
    {
        let stmts = match node {
            Node::Call { name, block: Some(b), .. } => {
                if !is_example_group(name.as_slice()) {
                    return Vec::new();
                }
                match &**b {
                    Node::Block { body: Some(body), .. } => match &**body {
                        Node::Statements { body: stmts, .. } => stmts,
                        _ => {
                            return Vec::new();
                        },
                    },
                    _ => {
                        return Vec::new();
                    },
                }
            },
            _ => {
                return Vec::new();
            },
        };
        let mut es: Vec<EntryExec> = Vec::new();
        let mut j: usize = 0;
        while j < stmts.len()
            invariant
                j <= stmts@.len(),
                es@.map_values(|e: EntryExec| e@) == example_entries(source.text(), stmts@.subrange(0, j as int)),
            decreases stmts@.len() - j,
        {
            match example_entry_exec(source, &stmts[j]) {
                Some(e) => {
                    es.push(e);
                },
                None => {},
            }
            proof {
                assert(stmts@.subrange(0, j + 1).drop_last() =~= stmts@.subrange(0, j as int));
                assert(es@.map_values(|e: EntryExec| e@) =~= example_entries(
                    source.text(),
                    stmts@.subrange(0, j + 1),
                ));
            }
            j = j + 1;
        }
        assert(stmts@.subrange(0, stmts@.len() as int) =~= stmts@);
        let ghost ev = es@.map_values(|e: EntryExec| e@);
        let mut out: Vec<Diagnostic> = Vec::new();
        let mut i: usize = 0;
        while i < es.len()
            invariant
                i <= es@.len(),
                ev == es@.map_values(|e: EntryExec| e@),
                offenses(out@) == example_report(ev, i as int),
            decreases es@.len() - i,
        {
            let (lines, count) = join_lines_exec(&es, i);
            if count > 0 {
                let mut msg: Vec<u8> = Vec::new();
                push_str(&mut msg, "Don't repeat examples within an example group. Repeated on line(s) ");
                push_bytes(&mut msg, lines.as_slice());
                push_str(&mut msg, ".");
                out.push(crate::diagnostic::diagnostic(es[i].line, es[i].column, msg));
            }
            proof {
                assert(offenses(out@) =~= example_report(ev, i + 1));
            }
            i = i + 1;
        }
        out
    }
}

} // verus!
