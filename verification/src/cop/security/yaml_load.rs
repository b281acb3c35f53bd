//! Security/YAMLLoad: `YAML.load`, which `YAML.safe_load` replaces on Ruby
//! versions up to 3.0.
use vstd::prelude::*;
use vstd::string::StringSliceAdditionalSpecFns;
use crate::ast::{NamedKind, Node};
use crate::bytes::eq_str;
use crate::diagnostic::{diagnostic, edits, offense, offenses, str_bytes, Correction, Diagnostic, Edit, Offense};
use crate::source::{spec_column_of, spec_line_of, SourceFile};

verus! {

/// The cop.
pub struct YamlLoad;

/// `YAML` or `::YAML`.
pub open spec fn is_yaml_const(n: Node) -> bool {
    match n {
        Node::Named { kind: NamedKind::ConstantRead, name, .. } => name@ == "YAML".spec_bytes(),
        Node::ConstantPath { parent: None, name, .. } => name@ == "YAML".spec_bytes(),
        _ => false,
    }
}

/// The offense and correction at `n`, for a target Ruby version given in
/// hundredths (`270` is 2.7): nothing above 3.0, where `YAML.load` is safe.
pub open spec fn spec_check_node(src: Seq<u8>, n: Node, ruby_version: u32) -> (Seq<Offense>, Seq<Edit>) {
    match n {
        Node::Call { name, receiver: Some(r), message_loc, loc, .. } => if ruby_version <= 300 && name@
            == "load".spec_bytes() && is_yaml_const(*r) {
            (
                seq![offense(spec_line_of(src, loc.start as int), spec_column_of(src, loc.start as int),
                    "Prefer using `YAML.safe_load` over `YAML.load`.".spec_bytes())],
                match message_loc {
                    Some(m) => seq![Edit { start: m.start as int, end: m.end as int, replacement: "safe_load".spec_bytes() }],
                    None => Seq::empty(),
                },
            )
        } else {
            (Seq::empty(), Seq::empty())
        },
        _ => (Seq::empty(), Seq::empty()),
    }
}

impl YamlLoad {
    pub fn name(&self) -> &'static str {
        "Security/YAMLLoad"
    }

    /// The offense and correction at `node`; `ruby_version` is the target
    /// Ruby version in hundredths.
    pub fn check_node(&self, source: &SourceFile, node: &Node, ruby_version: u32) -> (r: (Vec<Diagnostic>, Vec<Correction>))
        ensures
            (offenses(r.0@), edits(r.1@)) == spec_check_node(source.text(), *node, ruby_version),
    {
        let mut out: Vec<Diagnostic> = Vec::new();
        let mut fixes: Vec<Correction> = Vec::new();
        match node {
            Node::Call { name, receiver: Some(r), message_loc, loc, .. } => {
                let yaml = match &**r {
                    Node::Named { kind: NamedKind::ConstantRead, name: c, .. } => eq_str(c.as_slice(), "YAML"),
                    Node::ConstantPath { parent: None, name: c, .. } => eq_str(c.as_slice(), "YAML"),
                    _ => false,
                };
                if ruby_version <= 300 && eq_str(name.as_slice(), "load") && yaml {
                    let (line, column) = source.position(loc.start);
                    out.push(diagnostic(line, column, str_bytes("Prefer using `YAML.safe_load` over `YAML.load`.")));
                    match message_loc {
                        Some(m) => {
                            fixes.push(Correction { start: m.start, end: m.end, replacement: str_bytes("safe_load") });
                        },
                        None => {},
                    }
                }
            },
            _ => {},
        }
        assert(offenses(out@) =~= spec_check_node(source.text(), *node, ruby_version).0);
        assert(edits(fixes@) =~= spec_check_node(source.text(), *node, ruby_version).1);
        (out, fixes)
    }
}

} // verus!
