//! Style/FileWrite: `File.open(name, 'w').write(content)` and
//! `File.open(name, 'w') { |f| f.write(content) }` in place of `File.write`.
use vstd::prelude::*;
use vstd::string::StringSliceAdditionalSpecFns;
use crate::ast::{call_args_exec, is_other, is_other_exec, is_top_constant_exec, NamedKind, Node};
use crate::bytes::{bytes_eq, eq_str, src_range, src_range_exec, utf8_is_valid};
use crate::diagnostic::{
    edits, offense, offenses, push_bytes, push_str, Correction, Diagnostic, Edit, Offense,
};
use crate::source::{spec_column_of, spec_line_of, SourceFile};

verus! {

/// The cop.
pub struct FileWrite;

/// The write modes: `w`, `wt`, `wb`, `w+`, `w+t`, `w+b`.
pub open spec fn spec_is_write_mode(mode: Seq<u8>) -> bool {
    ||| mode == "w".spec_bytes()
    ||| mode == "wt".spec_bytes()
    ||| mode == "wb".spec_bytes()
    ||| mode == "w+".spec_bytes()
    ||| mode == "w+t".spec_bytes()
    ||| mode == "w+b".spec_bytes()
}

/// `File.binwrite` for a binary mode, else `File.write`.
pub open spec fn spec_write_method(mode: Seq<u8>) -> Seq<u8> {
    if mode.contains(98u8) {
        "File.binwrite".spec_bytes()
    } else {
        "File.write".spec_bytes()
    }
}

/// The source text of a node, when it is UTF-8.
pub open spec fn utf8_text(src: Seq<u8>, n: Node) -> Option<Seq<u8>> {
    let t = src_range(src, n.spec_loc().start as int, n.spec_loc().end as int);
    if vstd::utf8::valid_utf8(t) { Some(t) } else { None }
}

/// The write mode of a `File.open(name, mode)` call with a literal mode string.
pub open spec fn open_mode(n: Node) -> Option<Seq<u8>> {
    match n {
        Node::Call { name, receiver: Some(r), .. } => {
            let args = n.call_args();
            if name@ == "open".spec_bytes() && r.is_top_constant("File".spec_bytes()) && args.len()
                == 2 && !(args[1] is KeywordHash) && args[1] is Str && spec_is_write_mode(
                args[1]->Str_unescaped@,
            ) {
                Some(args[1]->Str_unescaped@)
            } else {
                None
            }
        },
        _ => None,
    }
}

/// The file name argument's source text.
pub open spec fn open_filename(src: Seq<u8>, n: Node) -> Option<Seq<u8>> {
    if n.call_args().len() > 0 {
        utf8_text(src, n.call_args()[0])
    } else {
        None
    }
}

/// The content written by a one-argument, non-splat `write` call.
pub open spec fn single_write_arg(src: Seq<u8>, call: Node) -> Option<Seq<u8>> {
    let args = call.call_args();
    if call->Call_arguments is Some && args.len() == 1 && !is_other(args[0], "SplatNode".spec_bytes()) {
        utf8_text(src, args[0])
    } else {
        None
    }
}

/// Whether `n` is `p.write(...)` on the local variable `p`.
pub open spec fn writes_to(n: Node, p: Seq<u8>) -> bool {
    match n {
        Node::Call { name, receiver: Some(r), .. } => name@ == "write".spec_bytes() && match *r {
            Node::Named { kind: NamedKind::LocalVariableRead, name: v, .. } => v@ == p,
            _ => false,
        },
        _ => false,
    }
}

/// The content of a block `{ |f| f.write(content) }`.
pub open spec fn block_write_content(src: Seq<u8>, block: Node) -> Option<Seq<u8>> {
    match block {
        Node::Block { parameters: Some(bp), body: Some(body), .. } => match *bp {
            Node::BlockParameters { parameters: Some(ps), .. } => match *ps {
                Node::Parameters { requireds, optionals, .. } => if requireds@.len() == 1
                    && optionals@.len() == 0 && requireds@[0] matches Node::Named {
                    kind: NamedKind::RequiredParameter,
                    ..
                } {
                    let p = requireds@[0]->Named_name@;
                    match *body {
                        Node::Statements { body: stmts, .. } => if stmts@.len() == 1 && writes_to(
                            stmts@[0],
                            p,
                        ) {
                            single_write_arg(src, stmts@[0])
                        } else {
                            None
                        },
                        _ => None,
                    }
                } else {
                    None
                },
                _ => None,
            },
            _ => None,
        },
        _ => None,
    }
}

pub open spec fn replacement(mode: Seq<u8>, filename: Seq<u8>, content: Seq<u8>) -> Seq<u8> {
    spec_write_method(mode) + "(".spec_bytes() + filename + ", ".spec_bytes() + content + ")".spec_bytes()
}

pub open spec fn use_message(mode: Seq<u8>) -> Seq<u8> {
    "Use `".spec_bytes() + spec_write_method(mode) + "`.".spec_bytes()
}

/// The offense and correction at `n`.
pub open spec fn spec_check_node(src: Seq<u8>, n: Node) -> (Seq<Offense>, Seq<Edit>) {
    let line = spec_line_of(src, n.spec_loc().start as int);
    let col = spec_column_of(src, n.spec_loc().start as int);
    if n matches Node::Call { name, receiver: Some(r), .. } && name@ == "write".spec_bytes()
        && open_mode(*r) is Some && open_filename(src, *r) is Some && single_write_arg(src, n) is Some {
        let open = *n->Call_receiver->0;
        let mode = open_mode(open)->0;
        (
            seq![offense(line, col, use_message(mode))],
            seq![Edit {
                start: open->Call_receiver->0.spec_loc().start as int,
                end: n.spec_loc().end as int,
                replacement: replacement(mode, open_filename(src, open)->0, single_write_arg(src, n)->0),
            }],
        )
    } else if n matches Node::Call { name, block: Some(b), .. } && name@ == "open".spec_bytes()
        && open_mode(n) is Some && open_filename(src, n) is Some && *b is Block
        && block_write_content(src, *b) is Some {
        let mode = open_mode(n)->0;
        let b = *n->Call_block->0;
        (
            seq![offense(line, col, use_message(mode))],
            seq![Edit {
                start: n->Call_receiver->0.spec_loc().start as int,
                end: b.spec_loc().end as int,
                replacement: replacement(mode, open_filename(src, n)->0, block_write_content(src, b)->0),
            }],
        )
    } else {
        (Seq::empty(), Seq::empty())
    }
}

/// Whether `mode` is a write mode.
pub fn is_write_mode(mode: &[u8]) -> (r: bool)
    ensures
        r == spec_is_write_mode(mode@),
{
    eq_str(mode, "w") || eq_str(mode, "wt") || eq_str(mode, "wb") || eq_str(mode, "w+") || eq_str(
        mode,
        "w+t",
    ) || eq_str(mode, "w+b")
}

/// The `File` method that replaces a write with `mode`.
pub fn write_method(mode: &[u8]) -> (r: &'static str)
    ensures
        r.spec_bytes() == spec_write_method(mode@),
{
    if crate::bytes::contains_byte(mode, 98u8) {
        "File.binwrite"
    } else {
        "File.write"
    }
}

fn utf8_text_exec<'a>(src: &'a [u8], n: &Node) -> (r: Option<&'a [u8]>)
    ensures
        match r {
            Some(t) => utf8_text(src@, *n) == Some(t@),
            None => utf8_text(src@, *n) is None,
        },
{
    let l = n.loc();
    let t = src_range_exec(src, l.start, l.end);
    if utf8_is_valid(t) {
        Some(t)
    } else {
        None
    }
}

fn open_mode_exec(n: &Node) -> (r: Option<&Vec<u8>>)
    ensures
        match r {
            Some(m) => open_mode(*n) == Some(m@),
            None => open_mode(*n) is None,
        },
{
    match n {
        Node::Call { name, receiver: Some(r), .. } => {
            if !eq_str(name.as_slice(), "open") || !is_top_constant_exec(r, "File") {
                return None;
            }
            let args = call_args_exec(n);
            if args.len() != 2 {
                return None;
            }
            match &args[1] {
                Node::Str { unescaped, .. } => if is_write_mode(unescaped.as_slice()) {
                    Some(unescaped)
                } else {
                    None
                },
                _ => None,
            }
        },
        _ => None,
    }
}

fn open_filename_exec<'a>(src: &'a [u8], n: &Node) -> (r: Option<&'a [u8]>)
    ensures
        match r {
            Some(t) => open_filename(src@, *n) == Some(t@),
            None => open_filename(src@, *n) is None,
        },
{
    let args = call_args_exec(n);
    if args.len() > 0 {
        utf8_text_exec(src, &args[0])
    } else {
        None
    }
}

fn single_write_arg_exec<'a>(src: &'a [u8], call: &Node) -> (r: Option<&'a [u8]>)
    ensures
        match r {
            Some(t) => single_write_arg(src@, *call) == Some(t@),
            None => single_write_arg(src@, *call) is None,
        },
{
    let has = match call {
        Node::Call { arguments: Some(_), .. } => true,
        _ => false,
    };
    let args = call_args_exec(call);
    if has && args.len() == 1 && !is_other_exec(&args[0], "SplatNode") {
        utf8_text_exec(src, &args[0])
    } else {
        None
    }
}

fn block_write_content_exec<'a>(src: &'a [u8], block: &Node) -> (r: Option<&'a [u8]>)
    ensures
        match r {
            Some(t) => block_write_content(src@, *block) == Some(t@),
            None => block_write_content(src@, *block) is None,
        },
{
    match block {
        Node::Block { parameters: Some(bp), body: Some(body), .. } => match &**bp {
            Node::BlockParameters { parameters: Some(ps), .. } => match &**ps {
                Node::Parameters { requireds, optionals, .. } => {
                    if requireds.len() != 1 || optionals.len() != 0 {
                        return None;
                    }
                    let p = match &requireds[0] {
                        Node::Named { kind: NamedKind::RequiredParameter, name, .. } => name,
                        _ => {
                            return None;
                        },
                    };
                    match &**body {
                        Node::Statements { body: stmts, .. } => {
                            if stmts.len() != 1 {
                                return None;
                            }
                            match &stmts[0] {
                                Node::Call { name, receiver: Some(r), .. } => {
                                    if !eq_str(name.as_slice(), "write") {
                                        return None;
                                    }
                                    match &**r {
                                        Node::Named { kind: NamedKind::LocalVariableRead, name: v, .. } => {
                                            if !bytes_eq(v.as_slice(), p.as_slice()) {
                                                return None;
                                            }
                                        },
                                        _ => {
                                            return None;
                                        },
                                    }
                                    single_write_arg_exec(src, &stmts[0])
                                },
                                _ => None,
                            }
                        },
                        _ => None,
                    }
                },
                _ => None,
            },
            _ => None,
        },
        _ => None,
    }
}

fn finish(line: usize, column: usize, mode: &[u8], filename: &[u8], content: &[u8], start: usize, end: usize) -> (r: (Vec<Diagnostic>, Vec<Correction>))
    ensures
        offenses(r.0@) == seq![offense(line as int, column as int, use_message(mode@))],
        edits(r.1@) == seq![Edit { start: start as int, end: end as int, replacement: replacement(mode@, filename@, content@) }],
{
    let wm = write_method(mode);
    let mut msg: Vec<u8> = Vec::new();
    push_str(&mut msg, "Use `");
    push_str(&mut msg, wm);
    push_str(&mut msg, "`.");
    let mut rep: Vec<u8> = Vec::new();
    push_str(&mut rep, wm);
    push_str(&mut rep, "(");
    push_bytes(&mut rep, filename);
    push_str(&mut rep, ", ");
    push_bytes(&mut rep, content);
    push_str(&mut rep, ")");
    let mut out: Vec<Diagnostic> = Vec::new();
    out.push(crate::diagnostic::diagnostic(line, column, msg));
    let mut fixes: Vec<Correction> = Vec::new();
    fixes.push(Correction { start, end, replacement: rep });
    assert(offenses(out@) =~= seq![offense(line as int, column as int, use_message(mode@))]);
    assert(edits(fixes@) =~= seq![Edit { start: start as int, end: end as int, replacement: replacement(mode@, filename@, content@) }]);
    (out, fixes)
}

impl FileWrite {
    pub fn name(&self) -> &'static str {
        "Style/FileWrite"
    }

    /// The offense at `node`, if it writes a file through `File.open` in a
    /// write mode, with the correction to `File.write`/`File.binwrite`.
    pub fn check_node(&self, source: &SourceFile, node: &Node) -> (r: (Vec<Diagnostic>, Vec<Correction>))
        ensures
            (offenses(r.0@), edits(r.1@)) == spec_check_node(source.text(), *node),
    {
        let src = source.as_bytes();
        let (line, column) = source.position(node.loc().start);
        match node {
            Node::Call { name, receiver: Some(open), .. } => {
                if eq_str(name.as_slice(), "write") {
                    match open_mode_exec(open) {
                        Some(mode) => match open_filename_exec(src, open) {
                            Some(filename) => match single_write_arg_exec(src, node) {
                                Some(content) => {
                                    let file_start = match &**open {
                                        Node::Call { receiver: Some(f), .. } => f.loc().start,
                                        _ => 0,
                                    };
                                    return finish(line, column, mode.as_slice(), filename, content, file_start, node.loc().end);
                                },
                                None => {},
                            },
                            None => {},
                        },
                        None => {},
                    }
                }
            },
            _ => {},
        }
        match node {
            Node::Call { name, receiver: Some(f), block: Some(b), .. } => {
                if eq_str(name.as_slice(), "open") {
                    match open_mode_exec(node) {
                        Some(mode) => match open_filename_exec(src, node) {
                            Some(filename) => match &**b {
                                Node::Block { .. } => match block_write_content_exec(src, b) {
                                    Some(content) => {
                                        return finish(line, column, mode.as_slice(), filename, content, f.loc().start, b.loc().end);
                                    },
                                    None => {},
                                },
                                _ => {},
                            },
                            None => {},
                        },
                        None => {},
                    }
                }
            },
            _ => {},
        }
        let out: Vec<Diagnostic> = Vec::new();
        let fixes: Vec<Correction> = Vec::new();
        assert(offenses(out@) =~= Seq::<Offense>::empty());
        assert(edits(fixes@) =~= Seq::<Edit>::empty());
        (out, fixes)
    }
}

} // verus!
