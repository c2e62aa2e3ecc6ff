//! Documents that agree in every value the loader reads compile alike.
use vstd::prelude::*;
use crate::compile::compilation;
use crate::schema::{
    doc_items, doc_text, entries_prefix, entry_of, field, lang_label, load, message_of,
    messages_prefix, Doc,
};
use crate::yaml::{reads_as, yaml_int, yaml_pairs, yaml_text};

verus! {

/// Whether two documents hold the same values down to `depth` levels of
/// mappings: equal integers, strings with equal text, mappings whose pairs
/// agree one level down, or both `Other`.
pub open spec fn same_doc(a: Doc, b: Doc, depth: nat) -> bool
    decreases depth,
{
    match (a, b) {
        (Doc::Int(x), Doc::Int(y)) => x == y,
        (Doc::Str(x), Doc::Str(y)) => x@ == y@,
        (Doc::Other, Doc::Other) => true,
        (Doc::Mapping(xs), Doc::Mapping(ys)) => {
            &&& depth > 0
            &&& xs@.len() == ys@.len()
            &&& forall|i: int|
                0 <= i < xs@.len() ==> {
                    &&& same_doc(#[trigger] xs@[i].0, ys@[i].0, (depth - 1) as nat)
                    &&& same_doc(xs@[i].1, ys@[i].1, (depth - 1) as nat)
                }
        },
        _ => false,
    }
}

/// Whether two lists of pairs agree pair by pair down to `depth`.
pub open spec fn same_items(xs: Seq<(Doc, Doc)>, ys: Seq<(Doc, Doc)>, depth: nat) -> bool {
    &&& xs.len() == ys.len()
    &&& forall|i: int|
        0 <= i < xs.len() ==> {
            &&& same_doc(#[trigger] xs[i].0, ys[i].0, depth)
            &&& same_doc(xs[i].1, ys[i].1, depth)
        }
}

/// Two documents read from one YAML value hold the same values.
pub proof fn lemma_reads_alike(a: Doc, b: Doc, v: serde_yaml::Value, depth: nat)
    requires
        reads_as(a, v, depth),
        reads_as(b, v, depth),
    ensures
        same_doc(a, b, depth),
    decreases depth,
{
    if yaml_int(v) is None && yaml_text(v) is None && depth > 0 {
        if let Some(ps) = yaml_pairs(v) {
            if let (Doc::Mapping(xs), Doc::Mapping(ys)) = (a, b) {
                assert forall|i: int| 0 <= i < xs@.len() implies {
                    &&& same_doc(#[trigger] xs@[i].0, ys@[i].0, (depth - 1) as nat)
                    &&& same_doc(xs@[i].1, ys@[i].1, (depth - 1) as nat)
                } by {
                    lemma_reads_alike(xs@[i].0, ys@[i].0, ps[i].0, (depth - 1) as nat);
                    lemma_reads_alike(xs@[i].1, ys@[i].1, ps[i].1, (depth - 1) as nat);
                }
            }
        }
    }
}

proof fn lemma_same_text(a: Doc, b: Doc, depth: nat)
    requires
        same_doc(a, b, depth),
    ensures
        doc_text(a) == doc_text(b),
        lang_label(a) == lang_label(b),
{
}

proof fn lemma_same_items_of(a: Doc, b: Doc, depth: nat)
    requires
        same_doc(a, b, depth),
        depth > 0,
    ensures
        same_items(doc_items(a), doc_items(b), (depth - 1) as nat),
{
}

proof fn lemma_same_field(xs: Seq<(Doc, Doc)>, ys: Seq<(Doc, Doc)>, key: Seq<char>, depth: nat)
    requires
        same_items(xs, ys, depth),
    ensures
        match (field(xs, key), field(ys, key)) {
            (Some(x), Some(y)) => same_doc(x, y, depth),
            (None, None) => true,
            _ => false,
        },
    decreases xs.len(),
{
    if xs.len() > 0 {
        lemma_same_text(xs[0].0, ys[0].0, depth);
        let (xr, yr) = (xs.drop_first(), ys.drop_first());
        assert forall|i: int| 0 <= i < xr.len() implies {
            &&& same_doc(#[trigger] xr[i].0, yr[i].0, depth)
            &&& same_doc(xr[i].1, yr[i].1, depth)
        } by {
            assert(xr[i] == xs[i + 1] && yr[i] == ys[i + 1]);
        }
        lemma_same_field(xr, yr, key, depth);
    }
}

proof fn lemma_same_messages(
    name: Seq<char>,
    xs: Seq<(Doc, Doc)>,
    ys: Seq<(Doc, Doc)>,
    depth: nat,
    n: nat,
)
    requires
        same_items(xs, ys, depth),
    ensures
        messages_prefix(name, xs, n) == messages_prefix(name, ys, n),
    decreases n,
{
    if n > 0 && n <= xs.len() {
        lemma_same_messages(name, xs, ys, depth, (n - 1) as nat);
        lemma_same_text(xs[n - 1].0, ys[n - 1].0, depth);
        lemma_same_text(xs[n - 1].1, ys[n - 1].1, depth);
        assert(message_of(name, xs[n - 1]) == message_of(name, ys[n - 1]));
    }
}

proof fn lemma_same_entry(x: (Doc, Doc), y: (Doc, Doc), depth: nat)
    requires
        same_doc(x.0, y.0, depth),
        same_doc(x.1, y.1, depth),
        depth >= 3,
    ensures
        entry_of(x) == entry_of(y),
{
    lemma_same_text(x.0, y.0, depth);
    if let Some(name) = doc_text(x.0) {
        lemma_same_items_of(x.1, y.1, depth);
        let (fx, fy) = (doc_items(x.1), doc_items(y.1));
        let d1 = (depth - 1) as nat;
        lemma_same_field(fx, fy, "code"@, d1);
        lemma_same_field(fx, fy, "http_status"@, d1);
        lemma_same_field(fx, fy, "message"@, d1);
        match (field(fx, "message"@), field(fy, "message"@)) {
            (Some(Doc::Mapping(ms)), Some(Doc::Mapping(ns))) => {
                lemma_same_items_of(Doc::Mapping(ms), Doc::Mapping(ns), d1);
                lemma_same_messages(name, ms@, ns@, (d1 - 1) as nat, ms@.len());
            },
            _ => {},
        }
    }
}

proof fn lemma_same_entries(xs: Seq<(Doc, Doc)>, ys: Seq<(Doc, Doc)>, depth: nat, n: nat)
    requires
        same_items(xs, ys, depth),
        depth >= 3,
    ensures
        entries_prefix(xs, n) == entries_prefix(ys, n),
    decreases n,
{
    if n > 0 && n <= xs.len() {
        lemma_same_entries(xs, ys, depth, (n - 1) as nat);
        lemma_same_entry(xs[n - 1], ys[n - 1], depth);
    }
}

/// Documents that hold the same values five or more levels down compile
/// alike.
pub proof fn lemma_same_compilation(a: Doc, b: Doc, depth: nat)
    requires
        same_doc(a, b, depth),
        depth >= 5,
    ensures
        load(a) == load(b),
        compilation(a) == compilation(b),
{
    lemma_same_items_of(a, b, depth);
    let (ra, rb) = (doc_items(a), doc_items(b));
    let d1 = (depth - 1) as nat;
    lemma_same_field(ra, rb, "errors"@, d1);
    lemma_same_field(ra, rb, "default_language"@, d1);
    match (field(ra, "errors"@), field(rb, "errors"@)) {
        (Some(Doc::Mapping(es)), Some(Doc::Mapping(fs))) => {
            lemma_same_items_of(Doc::Mapping(es), Doc::Mapping(fs), d1);
            lemma_same_entries(es@, fs@, (d1 - 1) as nat, es@.len());
        },
        _ => {},
    }
}

} // verus!
