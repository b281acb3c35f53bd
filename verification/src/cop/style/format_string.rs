//! Style/FormatString: one way of formatting strings, `format`, `sprintf`
//! or `String#%`, chosen by the configured style.
use vstd::prelude::*;
use vstd::string::StringSliceAdditionalSpecFns;
use crate::ast::{call_args_exec, NamedKind, Node};
use crate::bytes::{
    eq_str, lossy_utf8, src_range, src_range_exec, starts_with, starts_with_str, str_trim_start,
    trim_start_text, utf8_lossy,
};
use crate::diagnostic::{
    diagnostic, edits, offense, offenses, push_bytes, push_str, str_bytes, Correction, Diagnostic,
    Edit, Offense,
};
use crate::source::{spec_column_of, spec_line_of, SourceFile};

verus! {

/// The cop.
pub struct FormatString;

/// The `EnforcedStyle` option.
#[derive(Clone, Copy, PartialEq, Eq, Structural, Debug)]
pub enum FormatStyle {
    Format,
    Sprintf,
    Percent,
    /// Any other configured value.
    Unrecognized,
}

/// The text of a node, decoded lossily.
pub open spec fn node_source(src: Seq<u8>, n: Node) -> Seq<u8> {
    utf8_lossy(src_range(src, n.spec_loc().start as int, n.spec_loc().end as int))
}

/// Conversions whose result the correction may pass on as is.
pub open spec fn is_autocorrectable_method(name: Seq<u8>) -> bool {
    ||| name == "to_d".spec_bytes()
    ||| name == "to_f".spec_bytes()
    ||| name == "to_h".spec_bytes()
    ||| name == "to_i".spec_bytes()
    ||| name == "to_r".spec_bytes()
    ||| name == "to_s".spec_bytes()
    ||| name == "to_sym".spec_bytes()
}

/// Binary operators, which need parentheses as a `%` operand.
pub open spec fn is_operator_method(name: Seq<u8>) -> bool {
    ||| name == "+".spec_bytes()
    ||| name == "-".spec_bytes()
    ||| name == "*".spec_bytes()
    ||| name == "/".spec_bytes()
    ||| name == "%".spec_bytes()
    ||| name == "**".spec_bytes()
    ||| name == "==".spec_bytes()
    ||| name == "!=".spec_bytes()
    ||| name == "<".spec_bytes()
    ||| name == ">".spec_bytes()
    ||| name == "<=".spec_bytes()
    ||| name == ">=".spec_bytes()
    ||| name == "<=>".spec_bytes()
    ||| name == "<<".spec_bytes()
    ||| name == ">>".spec_bytes()
    ||| name == "|".spec_bytes()
    ||| name == "&".spec_bytes()
    ||| name == "^".spec_bytes()
}

/// A right-hand side of `%` whose shape the correction cannot know.
pub open spec fn percent_rhs_is_uncorrectable(rhs: Node) -> bool {
    (rhs matches Node::Named { kind: NamedKind::LocalVariableRead, .. }) || (rhs matches Node::Call {
        name,
        ..
    } && !is_autocorrectable_method(name@))
}

/// An operator call written without parentheses.
pub open spec fn is_operator_call_without_parens(n: Node) -> bool {
    n matches Node::Call { name, opening_loc: None, .. } && is_operator_method(name@)
}

/// The sources of `nodes`, joined with `, `.
pub open spec fn joined(src: Seq<u8>, nodes: Seq<Node>) -> Seq<u8>
    decreases nodes.len(),
{
    if nodes.len() == 0 {
        Seq::empty()
    } else if nodes.len() == 1 {
        node_source(src, nodes[0])
    } else {
        joined(src, nodes.drop_last()) + ", ".spec_bytes() + node_source(src, nodes.last())
    }
}

/// The elements of an array or hash literal.
pub open spec fn literal_elements(n: Node) -> Option<Seq<Node>> {
    match n {
        Node::Array { elements, .. } => Some(elements@),
        Node::Hash { elements, .. } => Some(elements@),
        Node::KeywordHash { elements, .. } => Some(elements@),
        _ => None,
    }
}

/// Where a call's offense is reported: its selector, or the call.
pub open spec fn report_at(c: Node) -> int {
    match c->Call_message_loc {
        Some(m) => m.start as int,
        None => c.spec_loc().start as int,
    }
}

pub open spec fn favor_message(preferred: Seq<u8>, current: Seq<u8>) -> Seq<u8> {
    "Favor `".spec_bytes() + preferred + "` over `".spec_bytes() + current + "`.".spec_bytes()
}

/// `String#%`: the offense, and the `format(...)` call that replaces it.
pub open spec fn percent_result(src: Seq<u8>, c: Node, style: FormatStyle) -> (Seq<Offense>, Seq<Edit>) {
    let none = (Seq::<Offense>::empty(), Seq::<Edit>::empty());
    match c {
        Node::Call { receiver: Some(r), arguments, .. } => {
            let args = c.call_args();
            let string_recv = *r is Str || *r is InterpolatedStr;
            if style == FormatStyle::Percent {
                none
            } else if !string_recv && !(arguments is Some && args.len() == 1 && literal_elements(args[0]) is Some) {
                none
            } else {
                let preferred = if style == FormatStyle::Format {
                    "format".spec_bytes()
                } else {
                    "sprintf".spec_bytes()
                };
                let at = report_at(c);
                (
                    seq![offense(spec_line_of(src, at), spec_column_of(src, at), favor_message(preferred, "String#%".spec_bytes()))],
                    if arguments is Some && args.len() == 1 && !percent_rhs_is_uncorrectable(args[0]) {
                        let rhs_src = match literal_elements(args[0]) {
                            Some(es) => joined(src, es),
                            None => node_source(src, args[0]),
                        };
                        seq![Edit {
                            start: c.spec_loc().start as int,
                            end: c.spec_loc().end as int,
                            replacement: preferred + "(".spec_bytes() + node_source(src, *r) + ", ".spec_bytes() + rhs_src + ")".spec_bytes(),
                        }]
                    } else {
                        Seq::empty()
                    },
                )
            }
        },
        _ => none,
    }
}

/// The operand of `%` built from the arguments after the format string.
pub open spec fn percent_operand(src: Seq<u8>, params: Seq<Node>) -> Seq<u8> {
    if params.len() == 1 {
        let single = params[0];
        if single is Hash || single is KeywordHash {
            let s = node_source(src, single);
            if starts_with(str_trim_start(s), "{".spec_bytes()) {
                s
            } else {
                "{ ".spec_bytes() + s + " }".spec_bytes()
            }
        } else if is_operator_call_without_parens(single) {
            "(".spec_bytes() + node_source(src, single) + ")".spec_bytes()
        } else {
            node_source(src, single)
        }
    } else {
        "[".spec_bytes() + joined(src, params) + "]".spec_bytes()
    }
}

/// `format`/`sprintf`: the offense and its correction.
pub open spec fn format_result(src: Seq<u8>, c: Node, style: FormatStyle) -> (Seq<Offense>, Seq<Edit>) {
    let none = (Seq::<Offense>::empty(), Seq::<Edit>::empty());
    let name = c->Call_name@;
    let is_format = name == "format".spec_bytes();
    let args = c.call_args();
    let count = if c->Call_arguments is Some { args.len() as int } else { 0 };
    if (is_format && style == FormatStyle::Format) || (!is_format && style == FormatStyle::Sprintf)
        || c->Call_receiver is Some || count < 2 {
        none
    } else {
        let preferred = if style == FormatStyle::Sprintf {
            "sprintf".spec_bytes()
        } else if style == FormatStyle::Format {
            "format".spec_bytes()
        } else {
            "String#%".spec_bytes()
        };
        let current = if is_format { "format".spec_bytes() } else { "sprintf".spec_bytes() };
        let at = report_at(c);
        (
            seq![offense(spec_line_of(src, at), spec_column_of(src, at), favor_message(preferred, current))],
            if style == FormatStyle::Format || style == FormatStyle::Sprintf {
                match c->Call_message_loc {
                    Some(sel) => seq![Edit { start: sel.start as int, end: sel.end as int, replacement: preferred }],
                    None => Seq::empty(),
                }
            } else if style == FormatStyle::Percent {
                seq![Edit {
                    start: c.spec_loc().start as int,
                    end: c.spec_loc().end as int,
                    replacement: node_source(src, args[0]) + " % ".spec_bytes() + percent_operand(src, args.drop_first()),
                }]
            } else {
                Seq::empty()
            },
        )
    }
}

/// The offense and correction at `n`.
pub open spec fn spec_check_node(src: Seq<u8>, n: Node, style: FormatStyle) -> (Seq<Offense>, Seq<Edit>) {
    match n {
        Node::Call { name, .. } => if name@ == "%".spec_bytes() {
            percent_result(src, n, style)
        } else if name@ == "format".spec_bytes() || name@ == "sprintf".spec_bytes() {
            format_result(src, n, style)
        } else {
            (Seq::empty(), Seq::empty())
        },
        _ => (Seq::empty(), Seq::empty()),
    }
}

fn node_source_exec(src: &[u8], n: &Node) -> (r: Vec<u8>)
    ensures
        r@ == node_source(src@, *n),
        vstd::utf8::valid_utf8(r@),
{
    let l = n.loc();
    lossy_utf8(src_range_exec(src, l.start, l.end))
}

fn joined_exec(src: &[u8], nodes: &[Node]) -> (r: Vec<u8>)
    ensures
        r@ == joined(src@, nodes@),
{
    let mut out: Vec<u8> = Vec::new();
    let mut i: usize = 0;
    assert(nodes@.subrange(0, 0) =~= Seq::<Node>::empty());
    while i < nodes.len()
        invariant
            i <= nodes@.len(),
            out@ == joined(src@, nodes@.subrange(0, i as int)),
        decreases nodes@.len() - i,
    {
        if i > 0 {
            push_str(&mut out, ", ");
        }
        let s = node_source_exec(src, &nodes[i]);
        push_bytes(&mut out, s.as_slice());
        assert(nodes@.subrange(0, i + 1).drop_last() =~= nodes@.subrange(0, i as int));
        assert(out@ =~= joined(src@, nodes@.subrange(0, i + 1)));
        i = i + 1;
    }
    assert(nodes@.subrange(0, nodes@.len() as int) =~= nodes@);
    out
}

fn literal_elements_exec(n: &Node) -> (r: Option<&Vec<Node>>)
    ensures
        match r {
            Some(v) => literal_elements(*n) == Some(v@),
            None => literal_elements(*n) is None,
        },
{
    match n {
        Node::Array { elements, .. } => Some(elements),
        Node::Hash { elements, .. } => Some(elements),
        Node::KeywordHash { elements, .. } => Some(elements),
        _ => None,
    }
}

fn is_autocorrectable_method_exec(name: &[u8]) -> (r: bool)
    ensures
        r == is_autocorrectable_method(name@),
{
    eq_str(name, "to_d") || eq_str(name, "to_f") || eq_str(name, "to_h") || eq_str(name, "to_i")
        || eq_str(name, "to_r") || eq_str(name, "to_s") || eq_str(name, "to_sym")
}

fn is_operator_method_exec(name: &[u8]) -> (r: bool)
    ensures
        r == is_operator_method(name@),
{
    eq_str(name, "+") || eq_str(name, "-") || eq_str(name, "*") || eq_str(name, "/") || eq_str(name, "%")
        || eq_str(name, "**") || eq_str(name, "==") || eq_str(name, "!=") || eq_str(name, "<")
        || eq_str(name, ">") || eq_str(name, "<=") || eq_str(name, ">=") || eq_str(name, "<=>")
        || eq_str(name, "<<") || eq_str(name, ">>") || eq_str(name, "|") || eq_str(name, "&")
        || eq_str(name, "^")
}

fn uncorrectable_exec(rhs: &Node) -> (r: bool)
    ensures
        r == percent_rhs_is_uncorrectable(*rhs),
{
    match rhs {
        Node::Named { kind: NamedKind::LocalVariableRead, .. } => true,
        Node::Call { name, .. } => !is_autocorrectable_method_exec(name.as_slice()),
        _ => false,
    }
}

fn report_at_exec(c: &Node) -> (r: usize)
    requires
        c is Call,
    ensures
        r == report_at(*c),
{
    match c {
        Node::Call { message_loc: Some(m), .. } => m.start,
        _ => c.loc().start,
    }
}

fn favor_message_exec(preferred: &str, current: &str) -> (r: Vec<u8>)
    ensures
        r@ == favor_message(preferred.spec_bytes(), current.spec_bytes()),
{
    let mut m: Vec<u8> = Vec::new();
    push_str(&mut m, "Favor `");
    push_str(&mut m, preferred);
    push_str(&mut m, "` over `");
    push_str(&mut m, current);
    push_str(&mut m, "`.");
    m
}

fn percent_operand_exec(src: &[u8], params: &[Node]) -> (r: Vec<u8>)
    requires
        params@.len() > 0,
    ensures
        r@ == percent_operand(src@, params@),
{
    if params.len() == 1 {
        let single = &params[0];
        let is_hash = match single {
            Node::Hash { .. } => true,
            Node::KeywordHash { .. } => true,
            _ => false,
        };
        if is_hash {
            let s = node_source_exec(src, single);
            let t = trim_start_text(s.as_slice());
            if starts_with_str(t.as_slice(), "{") {
                return s;
            }
            let mut out: Vec<u8> = Vec::new();
            push_str(&mut out, "{ ");
            push_bytes(&mut out, s.as_slice());
            push_str(&mut out, " }");
            return out;
        }
        let op = match single {
            Node::Call { name, opening_loc: None, .. } => is_operator_method_exec(name.as_slice()),
            _ => false,
        };
        if op {
            let mut out: Vec<u8> = Vec::new();
            push_str(&mut out, "(");
            let s = node_source_exec(src, single);
            push_bytes(&mut out, s.as_slice());
            push_str(&mut out, ")");
            return out;
        }
        return node_source_exec(src, single);
    }
    let mut out: Vec<u8> = Vec::new();
    push_str(&mut out, "[");
    let j = joined_exec(src, params);
    push_bytes(&mut out, j.as_slice());
    push_str(&mut out, "]");
    out
}

impl FormatString {
    pub fn name(&self) -> &'static str {
        "Style/FormatString"
    }

    fn check_percent(&self, source: &SourceFile, c: &Node, style: FormatStyle) -> (r: (Vec<Diagnostic>, Vec<Correction>))
        ensures
            (offenses(r.0@), edits(r.1@)) == percent_result(source.text(), *c, style),
    {
        let mut out: Vec<Diagnostic> = Vec::new();
        let mut fixes: Vec<Correction> = Vec::new();
        let ghost res = percent_result(source.text(), *c, style);
        let (r, arguments) = match c {
            Node::Call { receiver: Some(r), arguments, .. } => (r, arguments),
            _ => {
                assert(offenses(out@) =~= res.0 && edits(fixes@) =~= res.1);
                return (out, fixes);
            },
        };
        let text = source.as_bytes();
        let args = call_args_exec(c);
        let string_recv = match &**r {
            Node::Str { .. } => true,
            Node::InterpolatedStr { .. } => true,
            _ => false,
        };
        let single_literal = arguments.is_some() && args.len() == 1 && literal_elements_exec(&args[0]).is_some();
        if style == FormatStyle::Percent || (!string_recv && !single_literal) {
            assert(offenses(out@) =~= res.0 && edits(fixes@) =~= res.1);
            return (out, fixes);
        }
        let preferred: &str = if style == FormatStyle::Format {
            "format"
        } else {
            "sprintf"
        };
        let (line, column) = source.position(report_at_exec(c));
        out.push(diagnostic(line, column, favor_message_exec(preferred, "String#%")));
        if arguments.is_some() && args.len() == 1 && !uncorrectable_exec(&args[0]) {
            let rhs_src = match literal_elements_exec(&args[0]) {
                Some(es) => joined_exec(text, es.as_slice()),
                None => node_source_exec(text, &args[0]),
            };
            let mut rep: Vec<u8> = Vec::new();
            push_str(&mut rep, preferred);
            push_str(&mut rep, "(");
            let rs = node_source_exec(text, r);
            push_bytes(&mut rep, rs.as_slice());
            push_str(&mut rep, ", ");
            push_bytes(&mut rep, rhs_src.as_slice());
            push_str(&mut rep, ")");
            let l = c.loc();
            fixes.push(Correction { start: l.start, end: l.end, replacement: rep });
        }
        assert(offenses(out@) =~= res.0 && edits(fixes@) =~= res.1);
        (out, fixes)
    }

    fn check_format(&self, source: &SourceFile, c: &Node, style: FormatStyle) -> (r: (Vec<Diagnostic>, Vec<Correction>))
        requires
            c is Call,
        ensures
            (offenses(r.0@), edits(r.1@)) == format_result(source.text(), *c, style),
    {
        let mut out: Vec<Diagnostic> = Vec::new();
        let mut fixes: Vec<Correction> = Vec::new();
        let ghost res = format_result(source.text(), *c, style);
        let (name, receiver, arguments, message_loc) = match c {
            Node::Call { name, receiver, arguments, message_loc, .. } => (name, receiver, arguments, message_loc),
            _ => {
                return (out, fixes);
            },
        };
        let is_format = eq_str(name.as_slice(), "format");
        let args = call_args_exec(c);
        let count: usize = if arguments.is_some() { args.len() } else { 0 };
        if (is_format && style == FormatStyle::Format) || (!is_format && style == FormatStyle::Sprintf)
            || receiver.is_some() || count < 2 {
            assert(offenses(out@) =~= res.0 && edits(fixes@) =~= res.1);
            return (out, fixes);
        }
        let preferred: &str = if style == FormatStyle::Sprintf {
            "sprintf"
        } else if style == FormatStyle::Format {
            "format"
        } else {
            "String#%"
        };
        let current: &str = if is_format { "format" } else { "sprintf" };
        let (line, column) = source.position(report_at_exec(c));
        out.push(diagnostic(line, column, favor_message_exec(preferred, current)));
        if style == FormatStyle::Format || style == FormatStyle::Sprintf {
            match message_loc {
                Some(sel) => {
                    fixes.push(Correction { start: sel.start, end: sel.end, replacement: str_bytes(preferred) });
                },
                None => {},
            }
        } else if style == FormatStyle::Percent {
            let text = source.as_bytes();
            let mut rep = node_source_exec(text, &args[0]);
            push_str(&mut rep, " % ");
            let params = vstd::slice::slice_subrange(args, 1, args.len());
            assert(params@ =~= args@.drop_first());
            let op = percent_operand_exec(text, params);
            push_bytes(&mut rep, op.as_slice());
            let l = c.loc();
            fixes.push(Correction { start: l.start, end: l.end, replacement: rep });
        }
        assert(offenses(out@) =~= res.0 && edits(fixes@) =~= res.1);
        (out, fixes)
    }

    /// The offense and correction at `node`.
    pub fn check_node(&self, source: &SourceFile, node: &Node, style: FormatStyle) -> (r: (Vec<Diagnostic>, Vec<Correction>))
        ensures
            (offenses(r.0@), edits(r.1@)) == spec_check_node(source.text(), *node, style),
    {
        match node {
            Node::Call { name, .. } => {
                if eq_str(name.as_slice(), "%") {
                    return self.check_percent(source, node, style);
                }
                if eq_str(name.as_slice(), "format") || eq_str(name.as_slice(), "sprintf") {
                    return self.check_format(source, node, style);
                }
            },
            _ => {},
        }
        let out: Vec<Diagnostic> = Vec::new();
        let fixes: Vec<Correction> = Vec::new();
        assert(offenses(out@) =~= Seq::<Offense>::empty());
        assert(edits(fixes@) =~= Seq::<Edit>::empty());
        (out, fixes)
    }
}

} // verus!
