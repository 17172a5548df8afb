//! The YAML node model the library reads and writes, and the two scalar
//! questions it asks the YAML library.
use vstd::prelude::*;

verus! {

/// A YAML node: the same shape as a loader's document tree.
///
/// A mapping is kept as its entries in insertion order; the loader never
/// gives two entries with equal keys.
#[derive(Debug, PartialEq)]
pub enum YamlValue {
    /// A float, kept as its source text.
    Real(String),
    /// An integer.
    Integer(i64),
    /// A string scalar.
    Str(String),
    /// A boolean.
    Boolean(bool),
    /// A sequence.
    Array(Vec<YamlValue>),
    /// A mapping, as its `(key, value)` entries in order.
    Hash(Vec<(YamlValue, YamlValue)>),
    /// An alias (anchor id).
    Alias(usize),
    /// The null scalar.
    Null,
    /// The value of a failed lookup or conversion.
    BadValue,
}

/// What a node is when it is compared with a scalar: its variant and its
/// scalar content. Sequences and mappings are all `Compound`.
pub ghost enum ScalarView {
    Real(Seq<char>),
    Integer(i64),
    Str(Seq<char>),
    Boolean(bool),
    Alias(usize),
    Null,
    BadValue,
    Compound,
}

impl YamlValue {
    /// The node is neither a sequence nor a mapping.
    pub open spec fn is_scalar(self) -> bool {
        !(self is Array) && !(self is Hash)
    }

    /// The scalar content of the node; two scalar nodes are equal exactly
    /// when their scalar views are.
    pub open spec fn scalar_view(self) -> ScalarView {
        match self {
            YamlValue::Real(s) => ScalarView::Real(s@),
            YamlValue::Integer(i) => ScalarView::Integer(i),
            YamlValue::Str(s) => ScalarView::Str(s@),
            YamlValue::Boolean(b) => ScalarView::Boolean(b),
            YamlValue::Alias(a) => ScalarView::Alias(a),
            YamlValue::Null => ScalarView::Null,
            YamlValue::BadValue => ScalarView::BadValue,
            YamlValue::Array(_) => ScalarView::Compound,
            YamlValue::Hash(_) => ScalarView::Compound,
        }
    }

    /// The text of a string scalar, `None` for every other node.
    pub fn as_str(&self) -> (r: Option<&String>)
        ensures
            match *self {
                YamlValue::Str(s) => r == Some(&s),
                _ => r is None,
            },
    {
        match self {
            YamlValue::Str(s) => Some(s),
            _ => None,
        }
    }
}

/// The node that YAML's plain-scalar resolution gives for `text`, by its
/// scalar view.
pub uninterp spec fn yaml_scalar_of(text: Seq<char>) -> ScalarView;

/// Whether YAML reads the float text `text` as a number.
pub uninterp spec fn yaml_real_is_number(text: Seq<char>) -> bool;

/// Calls `yaml_rust::Yaml::from_str`, which resolves a plain scalar as a YAML
/// loader does (hexadecimal and octal integers, `~` and `null`, the booleans,
/// integers, floats, and otherwise a string).
///
/// Claims that the node is a scalar whose view is `yaml_scalar_of(text@)`, a
/// function of the text alone. The source of `from_str` builds scalars only;
/// a sequence or mapping, which it never returns, would come back as
/// `BadValue`.
#[verifier::external_body]
pub(crate) fn scalar_from_str(text: &str) -> (r: YamlValue)
    ensures
        r.is_scalar(),
        r.scalar_view() == yaml_scalar_of(text@),
{
    match yaml_rust::Yaml::from_str(text) {
        yaml_rust::Yaml::Real(s) => YamlValue::Real(s),
        yaml_rust::Yaml::Integer(i) => YamlValue::Integer(i),
        yaml_rust::Yaml::String(s) => YamlValue::Str(s),
        yaml_rust::Yaml::Boolean(b) => YamlValue::Boolean(b),
        yaml_rust::Yaml::Alias(a) => YamlValue::Alias(a),
        yaml_rust::Yaml::Null => YamlValue::Null,
        yaml_rust::Yaml::BadValue => YamlValue::BadValue,
        yaml_rust::Yaml::Array(_) => YamlValue::BadValue,
        yaml_rust::Yaml::Hash(_) => YamlValue::BadValue,
    }
}

/// Calls `yaml_rust::Yaml::as_f64` on a float node with the text `text`.
///
/// Claims only that whether it gives a number is `yaml_real_is_number(text@)`,
/// a function of the text alone; the number itself stays with the YAML library.
#[verifier::external_body]
pub(crate) fn real_is_number(text: &String) -> (r: bool)
    ensures
        r == yaml_real_is_number(text@),
{
    yaml_rust::Yaml::Real(text.clone()).as_f64().is_some()
}

} // verus!
