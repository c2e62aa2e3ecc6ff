//! Reading YAML schema text through `serde_yaml` into a [`Doc`].
use vstd::prelude::*;
use vstd::string::*;
use crate::compile::{compilation, generate_from_doc, CompileError, CompileErrorView};
use crate::schema::Doc;

verus! {

#[verifier::external_type_specification]
#[verifier::external_body]
pub struct ExYamlValue(serde_yaml::Value);

#[verifier::external_type_specification]
#[verifier::external_body]
pub struct ExYamlError(serde_yaml::Error);

/// The value that `serde_yaml::from_str` parses from a text, if any.
pub uninterp spec fn yaml_parse(text: Seq<char>) -> Option<serde_yaml::Value>;

/// What `serde_yaml::Value::as_i64` returns for a value.
pub uninterp spec fn yaml_int(v: serde_yaml::Value) -> Option<i64>;

/// What `serde_yaml::Value::as_str` returns for a value.
pub uninterp spec fn yaml_text(v: serde_yaml::Value) -> Option<Seq<char>>;

/// The pairs of what `serde_yaml::Value::as_mapping` returns for a value, as
/// `serde_yaml::Mapping` iterates them.
pub uninterp spec fn yaml_pairs(v: serde_yaml::Value) -> Option<Seq<(serde_yaml::Value, serde_yaml::Value)>>;

/// Relies on `serde_yaml::from_str`: parses YAML text into a value; the
/// outcome depends on the text alone.
#[verifier::external_body]
fn parse_value(text: &str) -> (r: Result<serde_yaml::Value, serde_yaml::Error>)
    ensures
        match r {
            Ok(v) => yaml_parse(text@) == Some(v),
            Err(_) => yaml_parse(text@) is None,
        },
{
    serde_yaml::from_str(text)
}

/// Relies on `serde_yaml::Value::as_i64`: the integer a (possibly tagged)
/// number holds when it fits `i64`.
pub assume_specification[ serde_yaml::Value::as_i64 ](v: &serde_yaml::Value) -> (r: Option<i64>)
    ensures
        r == yaml_int(*v),
;

/// Relies on `serde_yaml::Value::as_str`: the text of a (possibly tagged)
/// string.
pub assume_specification<'a>[ serde_yaml::Value::as_str ](v: &'a serde_yaml::Value) -> (r: Option<&'a str>)
    ensures
        match r {
            Some(t) => yaml_text(*v) == Some(t@),
            None => yaml_text(*v) is None,
        },
;

/// Relies on `serde_yaml::Value::as_mapping` and on the iteration of
/// `serde_yaml::Mapping`: the pairs of a (possibly tagged) mapping.
#[verifier::external_body]
fn mapping_pairs(v: &serde_yaml::Value) -> (r: Option<Vec<(serde_yaml::Value, serde_yaml::Value)>>)
    ensures
        match r {
            Some(ps) => yaml_pairs(*v) == Some(ps@),
            None => yaml_pairs(*v) is None,
        },
{
    match v.as_mapping() {
        Some(m) => Some(m.clone().into_iter().collect()),
        None => None,
    }
}

/// How deep the document is read; deeper mappings read as `Doc::Other`. A
/// schema's message texts lie four levels below its root.
pub const MAX_DEPTH: usize = 8;

/// Whether `d` is the document that the YAML value `v` holds, read down to
/// `depth` levels of mappings: an integer, else a string, else (above the
/// depth limit) a mapping whose keys and values are read one level down, else
/// `Other`.
pub open spec fn reads_as(d: Doc, v: serde_yaml::Value, depth: nat) -> bool
    decreases depth,
{
    match yaml_int(v) {
        Some(n) => d == Doc::Int(n),
        None => match yaml_text(v) {
            Some(t) => (d matches Doc::Str(s) && s@ == t),
            None => if depth == 0 {
                d is Other
            } else {
                match yaml_pairs(v) {
                    None => d is Other,
                    Some(ps) => match d {
                        Doc::Mapping(items) => {
                            &&& items@.len() == ps.len()
                            &&& forall|i: int|
                                0 <= i < ps.len() ==> {
                                    &&& reads_as(#[trigger] items@[i].0, ps[i].0, (depth - 1) as nat)
                                    &&& reads_as(items@[i].1, ps[i].1, (depth - 1) as nat)
                                }
                        },
                        _ => false,
                    },
                }
            }
        },
    }
}

/// The document a YAML value holds, down to `depth` levels of mappings.
pub fn doc_from_value(v: &serde_yaml::Value, depth: usize) -> (r: Doc)
    ensures
        reads_as(r, *v, depth as nat),
    decreases depth,
{
    if let Some(n) = v.as_i64() {
        return Doc::Int(n);
    }
    if let Some(s) = v.as_str() {
        return Doc::Str(String::from_str(s));
    }
    if depth == 0 {
        return Doc::Other;
    }
    match mapping_pairs(v) {
        None => Doc::Other,
        Some(pairs) => {
            let mut items: Vec<(Doc, Doc)> = Vec::new();
            let mut i: usize = 0;
            while i < pairs.len()
                invariant
                    i <= pairs@.len(),
                    depth > 0,
                    yaml_int(*v) is None,
                    yaml_text(*v) is None,
                    yaml_pairs(*v) == Some(pairs@),
                    items@.len() == i,
                    forall|j: int|
                        0 <= j < i ==> reads_as(#[trigger] items@[j].0, pairs@[j].0, (depth - 1) as nat)
                            && reads_as(items@[j].1, pairs@[j].1, (depth - 1) as nat),
                decreases pairs@.len() - i,
            {
                let k = doc_from_value(&pairs[i].0, depth - 1);
                let x = doc_from_value(&pairs[i].1, depth - 1);
                items.push((k, x));
                i = i + 1;
            }
            Doc::Mapping(items)
        },
    }
}

/// Whether `r` is what compiling the document `d` gives.
pub open spec fn compiles_to(d: Doc, r: Result<String, CompileError>) -> bool {
    match r {
        Ok(s) => compilation(d) == Ok::<Seq<char>, CompileErrorView>(s@),
        Err(e) => compilation(d) == Err::<Seq<char>, CompileErrorView>(e@),
    }
}

/// Compiles a parsed YAML schema: the result is what compiling the document
/// that `config` holds gives.
pub fn generate_from_config(config: &serde_yaml::Value) -> (r: Result<String, CompileError>)
    ensures
        exists|d: Doc| reads_as(d, *config, MAX_DEPTH as nat) && compiles_to(d, r),
{
    let doc = doc_from_value(config, MAX_DEPTH);
    let r = generate_from_doc(&doc);
    assert(reads_as(doc, *config, MAX_DEPTH as nat) && compiles_to(doc, r));
    r
}

/// Parses YAML schema text and compiles it: a parse error exactly when the
/// text is not YAML, else what compiling the document it holds gives.
pub fn generate_from_yaml(text: &str) -> (r: Result<String, CompileError>)
    ensures
        (r matches Err(CompileError::Parse(_))) <==> yaml_parse(text@) is None,
        yaml_parse(text@) matches Some(v) ==> exists|d: Doc|
            reads_as(d, v, MAX_DEPTH as nat) && compiles_to(d, r),
{
    match parse_value(text) {
        Err(e) => Err(CompileError::Parse(e.to_string())),
        Ok(v) => generate_from_config(&v),
    }
}

} // verus!
