//! Style/FileEmpty: `File.zero?(path)` and `File.size(path) == 0`, which
//! `File.empty?(path)` says directly.
use vstd::prelude::*;
use vstd::string::StringSliceAdditionalSpecFns;
use crate::ast::{call_args_exec, NamedKind, Node};
use crate::bytes::{eq_str, lossy_utf8, src_range, src_range_exec, utf8_lossy};
use crate::diagnostic::{diagnostic, offense, offenses, push_bytes, push_str, Diagnostic, Offense};
use crate::source::{spec_column_of, spec_line_of, SourceFile};

verus! {

/// The cop.
pub struct FileEmpty;

pub open spec fn is_file_name(name: Seq<u8>) -> bool {
    name == "File".spec_bytes() || name == "FileTest".spec_bytes()
}

/// `File`, `FileTest`, `::File` or `::FileTest`.
pub open spec fn spec_is_file_or_filetest(n: Node) -> bool {
    match n {
        Node::Named { kind: NamedKind::ConstantRead, name, .. } => is_file_name(name@),
        Node::ConstantPath { parent: None, name, .. } => is_file_name(name@),
        _ => false,
    }
}

/// The text of a node, decoded lossily.
pub open spec fn node_text(src: Seq<u8>, n: Node) -> Seq<u8> {
    utf8_lossy(src_range(src, n.spec_loc().start as int, n.spec_loc().end as int))
}

pub open spec fn empty_message(file: Seq<u8>, arg: Seq<u8>) -> Seq<u8> {
    "Use `".spec_bytes() + file + ".empty?(".spec_bytes() + arg + ")` instead.".spec_bytes()
}

/// The single argument of a call.
pub open spec fn single_arg(c: Node) -> Option<Node> {
    if c is Call && c->Call_arguments is Some && c.call_args().len() == 1 {
        Some(c.call_args()[0])
    } else {
        None
    }
}

/// The offense at `n`.
pub open spec fn spec_check_node(src: Seq<u8>, n: Node) -> Seq<Offense> {
    match n {
        Node::Call { name, receiver: Some(recv), loc, .. } => {
            let at = |m: Seq<u8>| seq![offense(spec_line_of(src, loc.start as int), spec_column_of(src, loc.start as int), m)];
            if name@ == "zero?".spec_bytes() && spec_is_file_or_filetest(*recv) {
                match single_arg(n) {
                    Some(a) => at(empty_message(node_text(src, *recv), node_text(src, a))),
                    None => Seq::empty(),
                }
            } else if name@ == "==".spec_bytes() {
                match *recv {
                    Node::Call { name: sn, receiver: Some(file), .. } => if sn@ == "size".spec_bytes() && spec_is_file_or_filetest(*file) {
                        match (single_arg(n), single_arg(*recv)) {
                            (Some(Node::Integer { loc: il }), Some(a)) => if src_range(src, il.start as int, il.end as int) == "0".spec_bytes() {
                                at(empty_message(node_text(src, *file), node_text(src, a)))
                            } else {
                                Seq::empty()
                            },
                            _ => Seq::empty(),
                        }
                    } else {
                        Seq::empty()
                    },
                    _ => Seq::empty(),
                }
            } else {
                Seq::empty()
            }
        },
        _ => Seq::empty(),
    }
}

fn is_file_or_filetest(n: &Node) -> (r: bool)
    ensures
        r == spec_is_file_or_filetest(*n),
{
    match n {
        Node::Named { kind: NamedKind::ConstantRead, name, .. } => eq_str(name.as_slice(), "File") || eq_str(name.as_slice(), "FileTest"),
        Node::ConstantPath { parent: None, name, .. } => eq_str(name.as_slice(), "File") || eq_str(name.as_slice(), "FileTest"),
        _ => false,
    }
}

fn single_arg_exec(c: &Node) -> (r: Option<&Node>)
    ensures
        match r {
            Some(a) => single_arg(*c) == Some(*a),
            None => single_arg(*c) is None,
        },
{
    match c {
        Node::Call { arguments: Some(_), .. } => {
            let args = call_args_exec(c);
            if args.len() == 1 {
                Some(&args[0])
            } else {
                None
            }
        },
        _ => None,
    }
}

fn empty_message_exec(src: &[u8], file: &Node, arg: &Node) -> (r: Vec<u8>)
    ensures
        r@ == empty_message(node_text(src@, *file), node_text(src@, *arg)),
{
    let fl = file.loc();
    let al = arg.loc();
    let mut m: Vec<u8> = Vec::new();
    push_str(&mut m, "Use `");
    let f = lossy_utf8(src_range_exec(src, fl.start, fl.end));
    push_bytes(&mut m, f.as_slice());
    push_str(&mut m, ".empty?(");
    let a = lossy_utf8(src_range_exec(src, al.start, al.end));
    push_bytes(&mut m, a.as_slice());
    push_str(&mut m, ")` instead.");
    m
}

impl FileEmpty {
    pub fn name(&self) -> &'static str {
        "Style/FileEmpty"
    }

    /// The offense at `node`.
    pub fn check_node(&self, source: &SourceFile, node: &Node) -> (r: Vec<Diagnostic>)
        ensures
            offenses(r@) == spec_check_node(source.text(), *node),
    {
        let mut out: Vec<Diagnostic> = Vec::new();
        let text = source.as_bytes();
        match node {
            Node::Call { name, receiver: Some(recv), loc, .. } => {
                if eq_str(name.as_slice(), "zero?") && is_file_or_filetest(recv) {
                    match single_arg_exec(node) {
                        Some(a) => {
                            let (line, column) = source.position(loc.start);
                            out.push(diagnostic(line, column, empty_message_exec(text, recv, a)));
                        },
                        None => {},
                    }
                } else if eq_str(name.as_slice(), "==") {
                    match &**recv {
                        Node::Call { name: sn, receiver: Some(file), .. } => {
                            if eq_str(sn.as_slice(), "size") && is_file_or_filetest(file) {
                                match (single_arg_exec(node), single_arg_exec(recv)) {
                                    (Some(Node::Integer { loc: il }), Some(a)) => {
                                        if eq_str(src_range_exec(text, il.start, il.end), "0") {
                                            let (line, column) = source.position(loc.start);
                                            out.push(diagnostic(line, column, empty_message_exec(text, file, a)));
                                        }
                                    },
                                    _ => {},
                                }
                            }
                        },
                        _ => {},
                    }
                }
            },
            _ => {},
        }
        assert(offenses(out@) =~= spec_check_node(source.text(), *node));
        out
    }
}

} // verus!
