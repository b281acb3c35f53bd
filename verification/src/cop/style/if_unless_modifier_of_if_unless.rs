//! Style/IfUnlessModifierOfIfUnless: a modifier `if`/`unless` after another
//! conditional.
use vstd::prelude::*;
use vstd::string::StringSliceAdditionalSpecFns;
use crate::ast::Node;
use crate::bytes::{eq_str, lossy_utf8, src_range, src_range_exec, str_trim, trim_text, utf8_lossy};
use crate::diagnostic::{diagnostic, edits, offense, offenses, push_bytes, push_str, Correction, Diagnostic, Edit, Offense};
use crate::source::{spec_column_of, spec_line_of, SourceFile};

verus! {

/// The cop.
pub struct IfUnlessModifierOfIfUnless;

pub open spec fn node_text(src: Seq<u8>, n: Node) -> Seq<u8> {
    utf8_lossy(src_range(src, n.spec_loc().start as int, n.spec_loc().end as int))
}

/// The only statement of a modifier's body, when it is a conditional.
pub open spec fn conditional_body(stmts: Option<Box<Node>>) -> Option<Node> {
    match stmts {
        Some(s) => match *s {
            Node::Statements { body, .. } => if body@.len() == 1 && (body@[0] is If || body@[0] is Unless) {
                Some(body@[0])
            } else {
                None
            },
            _ => None,
        },
        None => None,
    }
}

/// The block form of the modifier: keyword and condition, the body
/// indented, `end`; all indented one column less than the modifier.
pub open spec fn block_form(src: Seq<u8>, n: Node, keyword: Seq<u8>, predicate: Node, body: Node) -> Seq<u8> {
    let col = spec_column_of(src, n.spec_loc().start as int);
    let indent = Seq::new(if col > 0 { (col - 1) as nat } else { 0 }, |i: int| 32u8);
    indent + keyword + " ".spec_bytes() + str_trim(node_text(src, predicate)) + "\n".spec_bytes() + indent + "  ".spec_bytes()
        + str_trim(node_text(src, body)) + "\n".spec_bytes() + indent + "end".spec_bytes()
}

/// The offense and correction for a modifier whose keyword is at `kw`.
pub open spec fn modifier_result(src: Seq<u8>, n: Node, kw: int, keyword: Seq<u8>, predicate: Node, stmts: Option<Box<Node>>) -> (Seq<Offense>, Seq<Edit>) {
    match conditional_body(stmts) {
        Some(body) => (
            seq![offense(spec_line_of(src, kw), spec_column_of(src, kw), "Avoid modifier `".spec_bytes() + keyword + "` after another conditional.".spec_bytes())],
            seq![Edit { start: n.spec_loc().start as int, end: n.spec_loc().end as int, replacement: block_form(src, n, keyword, predicate, body) }],
        ),
        None => (Seq::empty(), Seq::empty()),
    }
}

pub open spec fn spec_check_node(src: Seq<u8>, n: Node) -> (Seq<Offense>, Seq<Edit>) {
    match n {
        Node::If { end_keyword_loc: None, if_keyword_loc: Some(kw), predicate, statements, .. } =>
            if src_range(src, kw.start as int, kw.end as int) == "if".spec_bytes() {
                modifier_result(src, n, kw.start as int, "if".spec_bytes(), *predicate, statements)
            } else {
                (Seq::empty(), Seq::empty())
            },
        Node::Unless { end_keyword_loc: None, keyword_loc, predicate, statements, .. } =>
            if src_range(src, keyword_loc.start as int, keyword_loc.end as int) == "unless".spec_bytes() {
                modifier_result(src, n, keyword_loc.start as int, "unless".spec_bytes(), *predicate, statements)
            } else {
                (Seq::empty(), Seq::empty())
            },
        _ => (Seq::empty(), Seq::empty()),
    }
}

fn conditional_body_exec(stmts: &Option<Box<Node>>) -> (r: Option<&Node>)
    ensures
        match r {
            Some(b) => conditional_body(*stmts) == Some(*b),
            None => conditional_body(*stmts) is None,
        },
{
    match stmts {
        Some(s) => match &**s {
            Node::Statements { body, .. } => {
                if body.len() == 1 {
                    match &body[0] {
                        Node::If { .. } => Some(&body[0]),
                        Node::Unless { .. } => Some(&body[0]),
                        _ => None,
                    }
                } else {
                    None
                }
            },
            _ => None,
        },
        None => None,
    }
}

impl IfUnlessModifierOfIfUnless {
    pub fn name(&self) -> &'static str {
        "Style/IfUnlessModifierOfIfUnless"
    }

    fn modifier_exec(&self, source: &SourceFile, n: &Node, kw: usize, keyword: &str, predicate: &Node, stmts: &Option<Box<Node>>) -> (r: (Vec<Diagnostic>, Vec<Correction>))
        ensures
            (offenses(r.0@), edits(r.1@)) == modifier_result(source.text(), *n, kw as int, keyword.spec_bytes(), *predicate, *stmts),
    {
        let mut out: Vec<Diagnostic> = Vec::new();
        let mut fixes: Vec<Correction> = Vec::new();
        match conditional_body_exec(stmts) {
            Some(body) => {
                let text = source.as_bytes();
                let (line, column) = source.position(kw);
                let mut m: Vec<u8> = Vec::new();
                push_str(&mut m, "Avoid modifier `");
                push_str(&mut m, keyword);
                push_str(&mut m, "` after another conditional.");
                out.push(diagnostic(line, column, m));
                let l = n.loc();
                let col = source.position(l.start).1;
                let width: usize = if col > 0 { col - 1 } else { 0 };
                let mut indent: Vec<u8> = Vec::new();
                let mut k: usize = 0;
                while k < width
                    invariant
                        k <= width,
                        indent@ == Seq::new(k as nat, |i: int| 32u8),
                    decreases width - k,
                {
                    indent.push(32u8);
                    assert(indent@ =~= Seq::new((k + 1) as nat, |i: int| 32u8));
                    k = k + 1;
                }
                let pl = predicate.loc();
                let bl = body.loc();
                let cond = trim_text(lossy_utf8(src_range_exec(text, pl.start, pl.end)).as_slice());
                let b = trim_text(lossy_utf8(src_range_exec(text, bl.start, bl.end)).as_slice());
                let mut rep: Vec<u8> = Vec::new();
                push_bytes(&mut rep, indent.as_slice());
                push_str(&mut rep, keyword);
                push_str(&mut rep, " ");
                push_bytes(&mut rep, cond.as_slice());
                push_str(&mut rep, "\n");
                push_bytes(&mut rep, indent.as_slice());
                push_str(&mut rep, "  ");
                push_bytes(&mut rep, b.as_slice());
                push_str(&mut rep, "\n");
                push_bytes(&mut rep, indent.as_slice());
                push_str(&mut rep, "end");
                assert(rep@ =~= block_form(source.text(), *n, keyword.spec_bytes(), *predicate, *body));
                fixes.push(Correction { start: l.start, end: l.end, replacement: rep });
            },
            None => {},
        }
        assert(offenses(out@) =~= modifier_result(source.text(), *n, kw as int, keyword.spec_bytes(), *predicate, *stmts).0);
        assert(edits(fixes@) =~= modifier_result(source.text(), *n, kw as int, keyword.spec_bytes(), *predicate, *stmts).1);
        (out, fixes)
    }

    /// The offense and correction at `node`.
    pub fn check_node(&self, source: &SourceFile, node: &Node) -> (r: (Vec<Diagnostic>, Vec<Correction>))
        ensures
            (offenses(r.0@), edits(r.1@)) == spec_check_node(source.text(), *node),
    {
        let text = source.as_bytes();
        match node {
            Node::If { end_keyword_loc: None, if_keyword_loc: Some(kw), predicate, statements, .. } => {
                if eq_str(src_range_exec(text, kw.start, kw.end), "if") {
                    return self.modifier_exec(source, node, kw.start, "if", predicate, statements);
                }
            },
            Node::Unless { end_keyword_loc: None, keyword_loc, predicate, statements, .. } => {
                if eq_str(src_range_exec(text, keyword_loc.start, keyword_loc.end), "unless") {
                    return self.modifier_exec(source, node, keyword_loc.start, "unless", predicate, statements);
                }
            },
            _ => {},
        }
        let out: Vec<Diagnostic> = Vec::new();
        let fixes: Vec<Correction> = Vec::new();
        assert(offenses(out@) =~= Seq::<Offense>::empty());
        assert(edits(fixes@) =~= Seq::<Edit>::empty());
        (out, fixes)
    }
}

} // verus!
