//! YAML text: loading documents from it and emitting a document as it.
use vstd::prelude::*;

use yaml_rust::Yaml as Node;

use super::value::YamlValue;

verus! {

/// A node of the YAML library's document tree.
#[verifier::external_type_specification]
#[verifier::external_body]
pub struct ExNode(Node);

/// The error the YAML loader reports for text that is not YAML.
#[verifier::external_type_specification]
#[verifier::external_body]
pub struct ExScanError(yaml_rust::ScanError);

/// Copies a node of the YAML library's tree into the library's node, one
/// variant for the other; a mapping's entries keep their order.
#[verifier::external_body]
fn node_from_yaml(y: &Node) -> YamlValue {
    match y {
        Node::Real(s) => YamlValue::Real(s.clone()),
        Node::Integer(i) => YamlValue::Integer(*i),
        Node::String(s) => YamlValue::Str(s.clone()),
        Node::Boolean(b) => YamlValue::Boolean(*b),
        Node::Array(a) => YamlValue::Array(a.iter().map(node_from_yaml).collect()),
        Node::Hash(h) => YamlValue::Hash(h.iter().map(|(k, v)| (node_from_yaml(k), node_from_yaml(v))).collect()),
        Node::Alias(n) => YamlValue::Alias(*n),
        Node::Null => YamlValue::Null,
        Node::BadValue => YamlValue::BadValue,
    }
}

/// Copies the library's node into a node of the YAML library's tree, one
/// variant for the other; a mapping's entries are inserted in order.
#[verifier::external_body]
fn node_to_yaml(v: &YamlValue) -> Node {
    match v {
        YamlValue::Real(s) => Node::Real(s.clone()),
        YamlValue::Integer(i) => Node::Integer(*i),
        YamlValue::Str(s) => Node::String(s.clone()),
        YamlValue::Boolean(b) => Node::Boolean(*b),
        YamlValue::Array(a) => Node::Array(a.iter().map(node_to_yaml).collect()),
        YamlValue::Hash(h) => Node::Hash(h.iter().map(|(k, v)| (node_to_yaml(k), node_to_yaml(v))).collect()),
        YamlValue::Alias(n) => Node::Alias(*n),
        YamlValue::Null => Node::Null,
        YamlValue::BadValue => Node::BadValue,
    }
}

/// The documents that the YAML loader reads from `text`, or `None` when it
/// is not YAML.
pub uninterp spec fn yaml_documents(text: Seq<char>) -> Option<Seq<YamlValue>>;

/// The text that the YAML emitter writes for `doc`: a `---` line, then the
/// node.
pub uninterp spec fn yaml_emitted(doc: YamlValue) -> Seq<char>;

/// Calls `yaml_rust::YamlLoader::load_from_str`, which parses every document
/// of `text`.
///
/// Claims that the outcome is a function of the text alone, named
/// `yaml_documents`: the loader fails exactly when that is `None`, and
/// otherwise gives its documents.
#[verifier::external_body]
pub(crate) fn load_documents(text: &str) -> (r: Result<Vec<YamlValue>, yaml_rust::ScanError>)
    ensures
        r is Err <==> yaml_documents(text@) is None,
        r matches Ok(v) ==> yaml_documents(text@) == Some(v@),
{
    yaml_rust::YamlLoader::load_from_str(text).map(|docs| docs.iter().map(node_from_yaml).collect())
}

/// Calls `yaml_rust::YamlEmitter::dump` on `doc`, writing into a `String`.
///
/// Claims that the text is a function of the document alone, named
/// `yaml_emitted`. The emitter writes only to the string, which never
/// refuses a write, and never reports its other error, so the dump cannot
/// fail.
#[verifier::external_body]
pub(crate) fn emit_document(doc: &YamlValue) -> (r: String)
    ensures
        r@ == yaml_emitted(*doc),
{
    let mut out = String::new();
    let _ = yaml_rust::YamlEmitter::new(&mut out).dump(&node_to_yaml(doc));
    out
}

} // verus!
