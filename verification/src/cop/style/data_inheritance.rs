//! Style/DataInheritance: a class inheriting from `Data.define(...)`, which
//! should be customized with a block instead.
use vstd::prelude::*;
use vstd::string::StringSliceAdditionalSpecFns;
use crate::ast::{is_other, is_other_exec, NamedKind, Node};
use crate::bytes::{eq_str, str_trim, text_or_empty, text_or_empty_exec, trim_text, utf8_is_valid};
use crate::cop::style::guard_clause::{indented, indented_exec, text_lines, text_lines_exec};
use crate::diagnostic::{diagnostic, edits, offense, offenses, push_bytes, push_str, str_bytes, Correction, Diagnostic, Edit, Offense};
use crate::source::{spec_column_of, spec_line_of, SourceFile};

verus! {

/// The cop.
pub struct DataInheritance;

/// `Data` or `::Data`.
pub open spec fn is_data_const(n: Node) -> bool {
    match n {
        Node::Named { kind: NamedKind::ConstantRead, name, .. } => name@ == "Data".spec_bytes(),
        Node::ConstantPath { parent: None, name, .. } => name@ == "Data".spec_bytes(),
        _ => false,
    }
}

/// `Data.define(...)`.
pub open spec fn is_data_define(n: Node) -> bool {
    n matches Node::Call { name, receiver: Some(r), .. } && name@ == "define".spec_bytes() && is_data_const(*r)
}

/// The name a class is given: the last segment of its constant path.
pub open spec fn class_name(cpath: Node) -> Seq<u8> {
    match cpath {
        Node::Named { kind: NamedKind::ConstantRead, name, .. } => name@,
        Node::ConstantPath { name, .. } => name@,
        _ => Seq::empty(),
    }
}

/// The class name as text: "ClassName" unless it is UTF-8.
pub open spec fn name_text(name: Seq<u8>) -> Seq<u8> {
    if vstd::utf8::valid_utf8(name) { name } else { "ClassName".spec_bytes() }
}

/// `Name = Data.define(...)`, with the class body moved into a block.
pub open spec fn data_replacement(src: Seq<u8>, name: Seq<u8>, sup: Node, body: Option<Node>) -> Seq<u8> {
    let head = name_text(name) + " = ".spec_bytes() + text_or_empty(src, sup.spec_loc().start as int, sup.spec_loc().end as int);
    match body {
        None => head,
        Some(b) => {
            let body_src = text_or_empty(src, b.spec_loc().start as int, b.spec_loc().end as int);
            if str_trim(body_src).len() == 0 {
                head
            } else {
                let lines = text_lines(body_src);
                head + " do\n".spec_bytes() + (if lines.len() > 0 { "  ".spec_bytes() + indented(lines, 0) } else { Seq::empty() })
                    + "\nend".spec_bytes()
            }
        },
    }
}

/// The offense at the superclass of a class inheriting from
/// `Data.define(...)`, and the correction that turns the class into a
/// constant assignment.
pub open spec fn spec_check_node(src: Seq<u8>, n: Node) -> (Seq<Offense>, Seq<Edit>) {
    if is_other(n, "ClassNode".spec_bytes()) && n->Other_children@.len() >= 2 && is_data_define(n->Other_children@[1]) {
        let kids = n->Other_children@;
        let sup = kids[1];
        let body = if kids.len() >= 3 { Some(kids[2]) } else { None };
        (
            seq![offense(spec_line_of(src, sup.spec_loc().start as int), spec_column_of(src, sup.spec_loc().start as int),
                "Don't extend an instance initialized by `Data.define`. Use a block to customize the class.".spec_bytes())],
            seq![Edit { start: n.spec_loc().start as int, end: n.spec_loc().end as int, replacement: data_replacement(src, class_name(kids[0]), sup, body) }],
        )
    } else {
        (Seq::empty(), Seq::empty())
    }
}

impl DataInheritance {
    pub fn name(&self) -> &'static str {
        "Style/DataInheritance"
    }

    /// The offense and correction at `node`.
    pub fn check_node(&self, source: &SourceFile, node: &Node) -> (r: (Vec<Diagnostic>, Vec<Correction>))
        ensures
            (offenses(r.0@), edits(r.1@)) == spec_check_node(source.text(), *node),
    {
        let mut out: Vec<Diagnostic> = Vec::new();
        let mut fixes: Vec<Correction> = Vec::new();
        let ghost res = spec_check_node(source.text(), *node);
        let kids = match node {
            Node::Other { children, .. } => children,
            _ => {
                assert(offenses(out@) =~= res.0 && edits(fixes@) =~= res.1);
                return (out, fixes);
            },
        };
        if !is_other_exec(node, "ClassNode") || kids.len() < 2 {
            assert(offenses(out@) =~= res.0 && edits(fixes@) =~= res.1);
            return (out, fixes);
        }
        let sup = &kids[1];
        let define = match sup {
            Node::Call { name, receiver: Some(r), .. } => eq_str(name.as_slice(), "define") && match &**r {
                Node::Named { kind: NamedKind::ConstantRead, name: c, .. } => eq_str(c.as_slice(), "Data"),
                Node::ConstantPath { parent: None, name: c, .. } => eq_str(c.as_slice(), "Data"),
                _ => false,
            },
            _ => false,
        };
        if !define {
            assert(offenses(out@) =~= res.0 && edits(fixes@) =~= res.1);
            return (out, fixes);
        }
        let text = source.as_bytes();
        let sl = sup.loc();
        let (line, column) = source.position(sl.start);
        out.push(diagnostic(line, column, str_bytes("Don't extend an instance initialized by `Data.define`. Use a block to customize the class.")));
        let name: &[u8] = match &kids[0] {
            Node::Named { kind: NamedKind::ConstantRead, name, .. } => name.as_slice(),
            Node::ConstantPath { name, .. } => name.as_slice(),
            _ => &[],
        };
        assert(name@ =~= class_name(kids@[0]));
        let mut rep: Vec<u8> = Vec::new();
        if utf8_is_valid(name) {
            push_bytes(&mut rep, name);
        } else {
            push_str(&mut rep, "ClassName");
        }
        push_str(&mut rep, " = ");
        push_bytes(&mut rep, text_or_empty_exec(text, sl.start, sl.end));
        if kids.len() >= 3 {
            let bl = kids[2].loc();
            let body_src = text_or_empty_exec(text, bl.start, bl.end);
            let trimmed = trim_text(body_src);
            if trimmed.len() > 0 {
                let lines = text_lines_exec(body_src);
                push_str(&mut rep, " do\n");
                if lines.len() > 0 {
                    push_str(&mut rep, "  ");
                    indented_exec(&lines, 0, &mut rep);
                }
                push_str(&mut rep, "\nend");
            }
        }
        assert(rep@ =~= data_replacement(text@, class_name(kids@[0]), kids@[1], if kids@.len() >= 3 { Some(kids@[2]) } else { None }));
        let l = node.loc();
        fixes.push(Correction { start: l.start, end: l.end, replacement: rep });
        assert(offenses(out@) =~= res.0 && edits(fixes@) =~= res.1);
        (out, fixes)
    }
}

} // verus!
