//! The schema model and the loader that extracts it from a structured document.
use vstd::prelude::*;
use vstd::string::*;
use crate::text::same_text;

verus! {

/// A node of a structured document, holding as plain values what the loader
/// reads: integers, strings and mappings (in the order of the source). Every
/// other node (null, boolean, float, sequence, ...) is `Other`.
#[derive(Debug)]
pub enum Doc {
    Int(i64),
    Str(String),
    Mapping(Vec<(Doc, Doc)>),
    Other,
}

/// One declared error: its schema key, numeric code, protocol status and
/// messages by language tag, in declaration order.
#[derive(Debug, Clone, PartialEq, Eq)]
pub struct ErrorEntry {
    pub raw_name: String,
    pub numeric_code: i64,
    pub status_code: i64,
    pub messages: Vec<(String, String)>,
}

/// A whole schema: the default language and the entries in declaration order.
#[derive(Debug, Clone, PartialEq, Eq)]
pub struct ErrorCatalog {
    pub default_language: String,
    pub entries: Vec<ErrorEntry>,
}

pub struct EntryView {
    pub raw_name: Seq<char>,
    pub numeric_code: int,
    pub status_code: int,
    pub messages: Seq<(Seq<char>, Seq<char>)>,
}

pub struct CatalogView {
    pub default_language: Seq<char>,
    pub entries: Seq<EntryView>,
}

pub open spec fn pair_view(p: (String, String)) -> (Seq<char>, Seq<char>) {
    (p.0@, p.1@)
}

impl View for ErrorEntry {
    type V = EntryView;

    open spec fn view(&self) -> EntryView {
        EntryView {
            raw_name: self.raw_name@,
            numeric_code: self.numeric_code as int,
            status_code: self.status_code as int,
            messages: self.messages@.map_values(|p: (String, String)| pair_view(p)),
        }
    }
}

impl View for ErrorCatalog {
    type V = CatalogView;

    open spec fn view(&self) -> CatalogView {
        CatalogView {
            default_language: self.default_language@,
            entries: self.entries@.map_values(|e: ErrorEntry| e@),
        }
    }
}

/// A document that is well-formed but lacks what the schema requires.
#[derive(Debug, Clone, PartialEq, Eq)]
pub enum SchemaError {
    /// A required top-level section is absent.
    MissingSection(String),
    /// An entry (first) lacks a required field (second).
    MissingField(String, String),
    /// A message of an entry (first) under a language (second; empty when the
    /// language key is not a string) is not a string-to-string pair.
    InvalidMessageEntry(String, String),
    /// An entry's key is not a string.
    NonStringName,
}

pub enum SchemaErrorView {
    MissingSection(Seq<char>),
    MissingField(Seq<char>, Seq<char>),
    InvalidMessageEntry(Seq<char>, Seq<char>),
    NonStringName,
}

impl View for SchemaError {
    type V = SchemaErrorView;

    open spec fn view(&self) -> SchemaErrorView {
        match self {
            SchemaError::MissingSection(s) => SchemaErrorView::MissingSection(s@),
            SchemaError::MissingField(n, f) => SchemaErrorView::MissingField(n@, f@),
            SchemaError::InvalidMessageEntry(n, l) => SchemaErrorView::InvalidMessageEntry(n@, l@),
            SchemaError::NonStringName => SchemaErrorView::NonStringName,
        }
    }
}

/// The text of a string node.
pub open spec fn doc_text(d: Doc) -> Option<Seq<char>> {
    match d {
        Doc::Str(s) => Some(s@),
        _ => None,
    }
}

/// The pairs of a mapping node; any other node has none.
pub open spec fn doc_items(d: Doc) -> Seq<(Doc, Doc)> {
    match d {
        Doc::Mapping(m) => m@,
        _ => Seq::empty(),
    }
}

/// The value under the first string key equal to `key`.
pub open spec fn field(items: Seq<(Doc, Doc)>, key: Seq<char>) -> Option<Doc>
    decreases items.len(),
{
    if items.len() == 0 {
        None
    } else if doc_text(items[0].0) == Some(key) {
        Some(items[0].1)
    } else {
        field(items.drop_first(), key)
    }
}

pub open spec fn lang_label(d: Doc) -> Seq<char> {
    match doc_text(d) {
        Some(t) => t,
        None => Seq::empty(),
    }
}

/// One message pair of entry `name`.
pub open spec fn message_of(name: Seq<char>, item: (Doc, Doc)) -> Result<
    (Seq<char>, Seq<char>),
    SchemaErrorView,
> {
    match (doc_text(item.0), doc_text(item.1)) {
        (Some(l), Some(t)) => Ok((l, t)),
        _ => Err(SchemaErrorView::InvalidMessageEntry(name, lang_label(item.0))),
    }
}

/// The first `n` message pairs of entry `name`, or the first failure.
pub open spec fn messages_prefix(name: Seq<char>, items: Seq<(Doc, Doc)>, n: nat) -> Result<
    Seq<(Seq<char>, Seq<char>)>,
    SchemaErrorView,
>
    decreases n,
{
    if n == 0 || n > items.len() {
        Ok(Seq::empty())
    } else {
        match messages_prefix(name, items, (n - 1) as nat) {
            Err(e) => Err(e),
            Ok(ms) => match message_of(name, items[n - 1]) {
                Err(e) => Err(e),
                Ok(m) => Ok(ms.push(m)),
            },
        }
    }
}

/// The protocol status used when an entry declares none.
pub const DEFAULT_STATUS: i64 = 500;

/// The entry declared by one key/value pair of the `errors` section.
pub open spec fn entry_of(item: (Doc, Doc)) -> Result<EntryView, SchemaErrorView> {
    match doc_text(item.0) {
        None => Err(SchemaErrorView::NonStringName),
        Some(name) => {
            let fields = doc_items(item.1);
            match field(fields, "code"@) {
                Some(Doc::Int(c)) => {
                    let status = match field(fields, "http_status"@) {
                        Some(Doc::Int(h)) => h as int,
                        _ => DEFAULT_STATUS as int,
                    };
                    match field(fields, "message"@) {
                        Some(Doc::Mapping(ms)) => match messages_prefix(name, ms@, ms@.len()) {
                            Err(e) => Err(e),
                            Ok(msgs) => Ok(
                                EntryView {
                                    raw_name: name,
                                    numeric_code: c as int,
                                    status_code: status,
                                    messages: msgs,
                                },
                            ),
                        },
                        _ => Err(SchemaErrorView::MissingField(name, "message"@)),
                    }
                },
                _ => Err(SchemaErrorView::MissingField(name, "code"@)),
            }
        },
    }
}

/// The first `n` entries of the `errors` section, or the first failure.
pub open spec fn entries_prefix(items: Seq<(Doc, Doc)>, n: nat) -> Result<
    Seq<EntryView>,
    SchemaErrorView,
>
    decreases n,
{
    if n == 0 || n > items.len() {
        Ok(Seq::empty())
    } else {
        match entries_prefix(items, (n - 1) as nat) {
            Err(e) => Err(e),
            Ok(es) => match entry_of(items[n - 1]) {
                Err(e) => Err(e),
                Ok(e) => Ok(es.push(e)),
            },
        }
    }
}

/// The default language of a document's root.
pub open spec fn default_language_of(root: Seq<(Doc, Doc)>) -> Seq<char> {
    match field(root, "default_language"@) {
        Some(Doc::Str(s)) => s@,
        _ => "en"@,
    }
}

/// The catalog a document declares, or the first structural failure.
pub open spec fn load(doc: Doc) -> Result<CatalogView, SchemaErrorView> {
    let root = doc_items(doc);
    match field(root, "errors"@) {
        Some(Doc::Mapping(es)) => match entries_prefix(es@, es@.len()) {
            Err(e) => Err(e),
            Ok(entries) => Ok(
                CatalogView { default_language: default_language_of(root), entries },
            ),
        },
        _ => Err(SchemaErrorView::MissingSection("errors"@)),
    }
}

/// The value under the first string key equal to `key`.
pub fn field_of<'a>(items: &'a Vec<(Doc, Doc)>, key: &str) -> (r: Option<&'a Doc>)
    ensures
        field(items@, key@) == match r {
            Some(d) => Some(*d),
            None => None::<Doc>,
        },
{
    let mut i: usize = 0;
    assert(items@ =~= items@.subrange(0, items@.len() as int));
    while i < items.len()
        invariant
            i <= items@.len(),
            field(items@, key@) == field(items@.subrange(i as int, items@.len() as int), key@),
        decreases items@.len() - i,
    {
        let ghost rest = items@.subrange(i as int, items@.len() as int);
        assert(rest.drop_first() =~= items@.subrange(i + 1, items@.len() as int));
        match &items[i].0 {
            Doc::Str(s) => {
                if same_text(s.as_str(), key) {
                    return Some(&items[i].1);
                }
            },
            _ => {},
        }
        i = i + 1;
    }
    None
}

} // verus!

verus! {

/// Once the first `n` message pairs fail, every longer prefix fails alike.
proof fn lemma_messages_error_kept(name: Seq<char>, items: Seq<(Doc, Doc)>, n: nat, m: nat)
    requires
        n <= m <= items.len(),
        messages_prefix(name, items, n) is Err,
    ensures
        messages_prefix(name, items, m) == messages_prefix(name, items, n),
    decreases m - n,
{
    if m > n {
        lemma_messages_error_kept(name, items, n, (m - 1) as nat);
    }
}

/// Once the first `n` entries fail, every longer prefix fails alike.
proof fn lemma_entries_error_kept(items: Seq<(Doc, Doc)>, n: nat, m: nat)
    requires
        n <= m <= items.len(),
        entries_prefix(items, n) is Err,
    ensures
        entries_prefix(items, m) == entries_prefix(items, n),
    decreases m - n,
{
    if m > n {
        lemma_entries_error_kept(items, n, (m - 1) as nat);
    }
}

fn text_of(d: &Doc) -> (r: Option<&String>)
    ensures
        doc_text(*d) == match r {
            Some(s) => Some(s@),
            None => None::<Seq<char>>,
        },
{
    match d {
        Doc::Str(s) => Some(s),
        _ => None,
    }
}

/// The message pairs of entry `name`, in source order, or the first pair
/// that is not a string-to-string pair.
fn messages_from(name: &String, items: &Vec<(Doc, Doc)>) -> (r: Result<
    Vec<(String, String)>,
    SchemaError,
>)
    ensures
        match r {
            Ok(ms) => messages_prefix(name@, items@, items@.len()) == Ok::<
                Seq<(Seq<char>, Seq<char>)>,
                SchemaErrorView,
            >(ms@.map_values(|p: (String, String)| pair_view(p))),
            Err(e) => messages_prefix(name@, items@, items@.len()) == Err::<
                Seq<(Seq<char>, Seq<char>)>,
                SchemaErrorView,
            >(e@),
        },
{
    let mut out: Vec<(String, String)> = Vec::new();
    let mut i: usize = 0;
    assert(out@.map_values(|p: (String, String)| pair_view(p)) =~= Seq::empty());
    while i < items.len()
        invariant
            i <= items@.len(),
            messages_prefix(name@, items@, i as nat) == Ok::<
                Seq<(Seq<char>, Seq<char>)>,
                SchemaErrorView,
            >(out@.map_values(|p: (String, String)| pair_view(p))),
        decreases items@.len() - i,
    {
        let lang = text_of(&items[i].0);
        let text = text_of(&items[i].1);
        match (lang, text) {
            (Some(l), Some(t)) => {
                let ghost before = out@;
                out.push((l.clone(), t.clone()));
                assert(out@.map_values(|p: (String, String)| pair_view(p)) =~= before.map_values(
                    |p: (String, String)| pair_view(p),
                ).push((l@, t@)));
            },
            _ => {
                let label = match lang {
                    Some(l) => l.clone(),
                    None => String::new(),
                };
                let e = SchemaError::InvalidMessageEntry(name.clone(), label);
                proof {
                    lemma_messages_error_kept(name@, items@, (i + 1) as nat, items@.len());
                }
                return Err(e);
            },
        }
        i = i + 1;
    }
    Ok(out)
}

/// The entry declared by the pair `key: body` of the `errors` section.
fn entry_from(key: &Doc, body: &Doc) -> (r: Result<ErrorEntry, SchemaError>)
    ensures
        match r {
            Ok(e) => entry_of((*key, *body)) == Ok::<EntryView, SchemaErrorView>(e@),
            Err(e) => entry_of((*key, *body)) == Err::<EntryView, SchemaErrorView>(e@),
        },
{
    let name = match text_of(key) {
        Some(n) => n,
        None => return Err(SchemaError::NonStringName),
    };
    let empty: Vec<(Doc, Doc)> = Vec::new();
    let fields = match body {
        Doc::Mapping(m) => m,
        _ => &empty,
    };
    assert(fields@ == doc_items(*body));
    let code = match field_of(fields, "code") {
        Some(Doc::Int(c)) => *c,
        _ => return Err(SchemaError::MissingField(name.clone(), String::from_str("code"))),
    };
    let status = match field_of(fields, "http_status") {
        Some(Doc::Int(h)) => *h,
        _ => DEFAULT_STATUS,
    };
    let messages = match field_of(fields, "message") {
        Some(Doc::Mapping(ms)) => messages_from(name, ms)?,
        _ => return Err(SchemaError::MissingField(name.clone(), String::from_str("message"))),
    };
    Ok(ErrorEntry { raw_name: name.clone(), numeric_code: code, status_code: status, messages })
}

/// Extracts the catalog that a document declares: `default_language`
/// (`"en"` when absent or not a string) and the `errors` section, whose
/// entries keep their source order.
pub fn catalog_from_doc(doc: &Doc) -> (r: Result<ErrorCatalog, SchemaError>)
    ensures
        match r {
            Ok(c) => load(*doc) == Ok::<CatalogView, SchemaErrorView>(c@),
            Err(e) => load(*doc) == Err::<CatalogView, SchemaErrorView>(e@),
        },
{
    let empty: Vec<(Doc, Doc)> = Vec::new();
    let root = match doc {
        Doc::Mapping(m) => m,
        _ => &empty,
    };
    assert(root@ == doc_items(*doc));
    let items = match field_of(root, "errors") {
        Some(Doc::Mapping(es)) => es,
        _ => return Err(SchemaError::MissingSection(String::from_str("errors"))),
    };
    let mut entries: Vec<ErrorEntry> = Vec::new();
    let mut i: usize = 0;
    assert(entries@.map_values(|e: ErrorEntry| e@) =~= Seq::empty());
    while i < items.len()
        invariant
            root@ == doc_items(*doc),
            field(doc_items(*doc), "errors"@) == Some(Doc::Mapping(*items)),
            i <= items@.len(),
            entries_prefix(items@, i as nat) == Ok::<Seq<EntryView>, SchemaErrorView>(
                entries@.map_values(|e: ErrorEntry| e@),
            ),
        decreases items@.len() - i,
    {
        assert((items@[i as int].0, items@[i as int].1) == items@[i as int]);
        let e = match entry_from(&items[i].0, &items[i].1) {
            Ok(e) => e,
            Err(err) => {
                proof {
                    lemma_entries_error_kept(items@, (i + 1) as nat, items@.len());
                }
                return Err(err);
            },
        };
        let ghost before = entries@;
        entries.push(e);
        assert(entries@.map_values(|e: ErrorEntry| e@) =~= before.map_values(|e: ErrorEntry| e@).push(
            e@,
        ));
        i = i + 1;
    }
    let default_language = match field_of(root, "default_language") {
        Some(Doc::Str(s)) => s.clone(),
        _ => String::from_str("en"),
    };
    Ok(ErrorCatalog { default_language, entries })
}

} // verus!
