//! RSpec/ContextWording: a `context` description that does not start with
//! one of the configured prefixes (`when`, `with`, `without` by default).
use vstd::prelude::*;
use vstd::string::StringSliceAdditionalSpecFns;
use crate::ast::{call_args_exec, Node};
use crate::bytes::{eq_str, starts_with, starts_with_exec, utf8_is_valid, views};
use crate::cop::util::{constant_name, spec_constant_name};
use crate::diagnostic::{diagnostic, offense, offenses, push_bytes, push_str, Diagnostic, Offense};
use crate::pattern::{any_pattern_matches, any_pattern_matches_exec};
use crate::source::{spec_column_of, spec_line_of, SourceFile};

verus! {

/// The cop.
pub struct ContextWording;

/// The prefixes used when none are configured.
pub fn default_prefixes() -> (r: Vec<Vec<u8>>)
    ensures
        views(r@) == seq!["when".spec_bytes(), "with".spec_bytes(), "without".spec_bytes()],
{
    let mut r: Vec<Vec<u8>> = Vec::new();
    r.push(crate::diagnostic::str_bytes("when"));
    r.push(crate::diagnostic::str_bytes("with"));
    r.push(crate::diagnostic::str_bytes("without"));
    assert(views(r@) =~= seq!["when".spec_bytes(), "with".spec_bytes(), "without".spec_bytes()]);
    r
}

/// The description text of a context: a UTF-8 string, or the leading
/// UTF-8 string part of an interpolated string.
pub open spec fn description(a: Node) -> Option<Seq<u8>> {
    match a {
        Node::Str { unescaped, .. } => if vstd::utf8::valid_utf8(unescaped@) {
            Some(unescaped@)
        } else {
            None
        },
        Node::InterpolatedStr { parts, .. } => if parts@.len() > 0 && parts@[0] is Str
            && vstd::utf8::valid_utf8(parts@[0]->Str_unescaped@) {
            Some(parts@[0]->Str_unescaped@)
        } else {
            None
        },
        _ => None,
    }
}

/// `text` starts with `p` as a whole word: followed by nothing, a space, a
/// comma or a line break.
pub open spec fn has_prefix(text: Seq<u8>, p: Seq<u8>) -> bool {
    starts_with(text, p) && (text.len() == p.len() || text[p.len() as int] == 32u8
        || text[p.len() as int] == 44u8 || text[p.len() as int] == 10u8)
}

pub open spec fn any_prefix(text: Seq<u8>, ps: Seq<Seq<u8>>) -> bool {
    exists|i: int| 0 <= i < ps.len() && has_prefix(text, #[trigger] ps[i])
}

/// `/^p\b/` for each prefix, joined by `, `.
pub open spec fn prefix_display(ps: Seq<Seq<u8>>) -> Seq<u8>
    decreases ps.len(),
{
    if ps.len() == 0 {
        Seq::empty()
    } else if ps.len() == 1 {
        "/^".spec_bytes() + ps[0] + "\\b/".spec_bytes()
    } else {
        prefix_display(ps.drop_last()) + ", ".spec_bytes() + "/^".spec_bytes() + ps.last()
            + "\\b/".spec_bytes()
    }
}

pub open spec fn wording_message(ps: Seq<Seq<u8>>) -> Seq<u8> {
    "Context description should match ".spec_bytes() + prefix_display(ps) + ".".spec_bytes()
}

/// A `context`/`shared_context` call with a block, on no receiver or on
/// `RSpec`.
pub open spec fn is_context_block(n: Node) -> bool {
    n matches Node::Call { name, block: Some(_), receiver, .. } && (name@ == "context".spec_bytes()
        || name@ == "shared_context".spec_bytes()) && match receiver {
        Some(r) => spec_constant_name(*r) == Some("RSpec".spec_bytes()),
        None => true,
    }
}

/// The offense at the description of a context whose description neither
/// matches an allowed pattern nor starts with an allowed prefix.
pub open spec fn spec_check_node(
    src: Seq<u8>,
    n: Node,
    prefixes: Seq<Seq<u8>>,
    patterns: Seq<Seq<u8>>,
) -> Seq<Offense> {
    if is_context_block(n) && n.call_args().len() > 0 {
        let a = n.call_args()[0];
        match description(a) {
            Some(text) => if any_pattern_matches(patterns, text) || any_prefix(text, prefixes) {
                Seq::empty()
            } else {
                seq![offense(spec_line_of(src, a.spec_loc().start as int), spec_column_of(src, a.spec_loc().start as int), wording_message(prefixes))]
            },
            None => Seq::empty(),
        }
    } else {
        Seq::empty()
    }
}

fn description_exec(a: &Node) -> (r: Option<&Vec<u8>>)
    ensures
        match r {
            Some(v) => description(*a) == Some(v@),
            None => description(*a) is None,
        },
{
    match a {
        Node::Str { unescaped, .. } => if utf8_is_valid(unescaped.as_slice()) {
            Some(unescaped)
        } else {
            None
        },
        Node::InterpolatedStr { parts, .. } => if parts.len() > 0 {
            match &parts[0] {
                Node::Str { unescaped, .. } => if utf8_is_valid(unescaped.as_slice()) {
                    Some(unescaped)
                } else {
                    None
                },
                _ => None,
            }
        } else {
            None
        },
        _ => None,
    }
}

fn any_prefix_exec(text: &[u8], ps: &Vec<Vec<u8>>) -> (r: bool)
    ensures
        r == any_prefix(text@, views(ps@)),
{
    let ghost w = views(ps@);
    let mut i: usize = 0;
    while i < ps.len()
        invariant
            i <= ps@.len(),
            w == views(ps@),
            forall|j: int| 0 <= j < i ==> !has_prefix(text@, #[trigger] w[j]),
        decreases ps@.len() - i,
    {
        let p = ps[i].as_slice();
        assert(w[i as int] == p@);
        if starts_with_exec(text, p) {
            let n = p.len();
            if n == text.len() || text[n] == 32u8 || text[n] == 44u8 || text[n] == 10u8 {
                assert(has_prefix(text@, w[i as int]));
                return true;
            }
        }
        i = i + 1;
    }
    false
}

fn wording_message_exec(ps: &Vec<Vec<u8>>) -> (r: Vec<u8>)
    ensures
        r@ == wording_message(views(ps@)),
{
    let ghost w = views(ps@);
    let mut m: Vec<u8> = Vec::new();
    push_str(&mut m, "Context description should match ");
    let ghost head = m@;
    let mut i: usize = 0;
    while i < ps.len()
        invariant
            i <= ps@.len(),
            w == views(ps@),
            head == "Context description should match ".spec_bytes(),
            m@ == head + prefix_display(w.take(i as int)),
        decreases ps@.len() - i,
    {
        assert(w.take(i + 1).drop_last() =~= w.take(i as int));
        assert(w.take(i + 1).last() == ps@[i as int]@);
        if i > 0 {
            push_str(&mut m, ", ");
        }
        push_str(&mut m, "/^");
        push_bytes(&mut m, ps[i].as_slice());
        push_str(&mut m, "\\b/");
        proof {
            if i == 0 {
                assert(w.take(1)[0] == ps@[0]@);
            }
        }
        assert(m@ =~= head + prefix_display(w.take(i + 1)));
        i = i + 1;
    }
    assert(w.take(ps@.len() as int) =~= w);
    push_str(&mut m, ".");
    m
}

impl ContextWording {
    pub fn name(&self) -> &'static str {
        "RSpec/ContextWording"
    }

    /// The offense at `node`, with the configured `prefixes` (see
    /// `default_prefixes`) and `allowed_patterns` (UTF-8 regular
    /// expressions).
    pub fn check_node(
        &self,
        source: &SourceFile,
        node: &Node,
        prefixes: &Vec<Vec<u8>>,
        allowed_patterns: &Vec<Vec<u8>>,
    ) -> (r: Vec<Diagnostic>)
        requires
            forall|i: int|
                0 <= i < allowed_patterns@.len() ==> vstd::utf8::valid_utf8(
                    #[trigger] allowed_patterns@[i]@,
                ),
        ensures
            offenses(r@) == spec_check_node(source.text(), *node, views(prefixes@), views(allowed_patterns@)),
    {
        let mut out: Vec<Diagnostic> = Vec::new();
        let ghost spec = spec_check_node(source.text(), *node, views(prefixes@), views(allowed_patterns@));
        match node {
            Node::Call { name, block: Some(_), receiver, .. } => {
                if !eq_str(name.as_slice(), "context") && !eq_str(name.as_slice(), "shared_context") {
                    assert(offenses(out@) =~= spec);
                    return out;
                }
                match receiver {
                    Some(rv) => match constant_name(rv) {
                        Some(c) => if !eq_str(c.as_slice(), "RSpec") {
                            assert(offenses(out@) =~= spec);
                            return out;
                        },
                        None => {
                            assert(offenses(out@) =~= spec);
                            return out;
                        },
                    },
                    None => {},
                }
                assert(is_context_block(*node));
                let args = call_args_exec(node);
                if args.len() == 0 {
                    assert(offenses(out@) =~= spec);
                    return out;
                }
                let a = &args[0];
                let text = match description_exec(a) {
                    Some(t) => t,
                    None => {
                        assert(offenses(out@) =~= spec);
                        return out;
                    },
                };
                if any_pattern_matches_exec(allowed_patterns, text.as_slice()) {
                    assert(offenses(out@) =~= spec);
                    return out;
                }
                if any_prefix_exec(text.as_slice(), prefixes) {
                    assert(offenses(out@) =~= spec);
                    return out;
                }
                let (line, column) = source.position(a.loc().start);
                out.push(diagnostic(line, column, wording_message_exec(prefixes)));
            },
            _ => {},
        }
        assert(offenses(out@) =~= spec);
        out
    }
}

} // verus!
