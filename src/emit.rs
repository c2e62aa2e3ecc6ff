//! The catalog emitter: the variant table of a validated catalog and the Rust
//! source that encodes it.
use vstd::prelude::*;
use crate::ident::{pascal, to_pascal_case};
use crate::schema::{pair_view, CatalogView, EntryView, ErrorCatalog};
use crate::text::same_text;
use crate::validate::{first_bad_status, status_in_range, valid, validation};

verus! {

/// One variant of the generated error-code type.
#[derive(Debug, Clone, PartialEq, Eq)]
pub struct Variant {
    /// The canonical identifier of the entry.
    pub ident: String,
    pub code: i64,
    pub status: u16,
    /// The exact-language message arms, in declaration order.
    pub arms: Vec<(String, String)>,
    /// The text of every other language: the default-language message, or
    /// empty text when the entry has none.
    pub fallback: String,
}

/// The generated unit: a closed set of variants in declaration order with
/// their code, message and status lookups.
#[derive(Debug, Clone, PartialEq, Eq)]
pub struct GeneratedCatalog {
    pub default_language: String,
    pub variants: Vec<Variant>,
}

pub struct VariantView {
    pub ident: Seq<char>,
    pub code: int,
    pub status: int,
    pub arms: Seq<(Seq<char>, Seq<char>)>,
    pub fallback: Seq<char>,
}

pub struct GeneratedView {
    pub default_language: Seq<char>,
    pub variants: Seq<VariantView>,
}

impl View for Variant {
    type V = VariantView;

    open spec fn view(&self) -> VariantView {
        VariantView {
            ident: self.ident@,
            code: self.code as int,
            status: self.status as int,
            arms: self.arms@.map_values(|p: (String, String)| pair_view(p)),
            fallback: self.fallback@,
        }
    }
}

impl View for GeneratedCatalog {
    type V = GeneratedView;

    open spec fn view(&self) -> GeneratedView {
        GeneratedView {
            default_language: self.default_language@,
            variants: self.variants@.map_values(|v: Variant| v@),
        }
    }
}

/// The text of the first arm for `lang`.
pub open spec fn lookup(arms: Seq<(Seq<char>, Seq<char>)>, lang: Seq<char>) -> Option<Seq<char>>
    decreases arms.len(),
{
    if arms.len() == 0 {
        None
    } else if arms[0].0 == lang {
        Some(arms[0].1)
    } else {
        lookup(arms.drop_first(), lang)
    }
}

/// The default-language message of an entry, or empty text when it has none.
pub open spec fn fallback_of(e: EntryView, default_language: Seq<char>) -> Seq<char> {
    match lookup(e.messages, default_language) {
        Some(t) => t,
        None => Seq::empty(),
    }
}

pub open spec fn variant_of(e: EntryView, default_language: Seq<char>) -> VariantView {
    VariantView {
        ident: pascal(e.raw_name),
        code: e.numeric_code,
        status: e.status_code,
        arms: e.messages,
        fallback: fallback_of(e, default_language),
    }
}

/// The variants emitted for a catalog: one per entry, in declaration order.
pub open spec fn emission(c: CatalogView) -> GeneratedView {
    GeneratedView {
        default_language: c.default_language,
        variants: c.entries.map_values(|e: EntryView| variant_of(e, c.default_language)),
    }
}

/// What the message lookup of a variant gives for `lang`: the first exact arm,
/// else the fallback.
pub open spec fn message_in(v: VariantView, lang: Seq<char>) -> Seq<char> {
    match lookup(v.arms, lang) {
        Some(t) => t,
        None => v.fallback,
    }
}

/// The text of the first arm for `lang`.
pub fn find_text<'a>(arms: &'a Vec<(String, String)>, lang: &str) -> (r: Option<&'a String>)
    ensures
        lookup(arms@.map_values(|p: (String, String)| pair_view(p)), lang@) == match r {
            Some(t) => Some(t@),
            None => None::<Seq<char>>,
        },
{
    let ghost all = arms@.map_values(|p: (String, String)| pair_view(p));
    let mut i: usize = 0;
    assert(all =~= all.subrange(0, all.len() as int));
    while i < arms.len()
        invariant
            all == arms@.map_values(|p: (String, String)| pair_view(p)),
            i <= arms@.len(),
            lookup(all, lang@) == lookup(all.subrange(i as int, all.len() as int), lang@),
        decreases arms@.len() - i,
    {
        let ghost rest = all.subrange(i as int, all.len() as int);
        assert(rest.drop_first() =~= all.subrange(i + 1, all.len() as int));
        if same_text(arms[i].0.as_str(), lang) {
            return Some(&arms[i].1);
        }
        i = i + 1;
    }
    None
}

/// A copy of a list of message pairs.
fn copy_pairs(v: &Vec<(String, String)>) -> (r: Vec<(String, String)>)
    ensures
        r@.map_values(|p: (String, String)| pair_view(p)) == v@.map_values(
            |p: (String, String)| pair_view(p),
        ),
{
    let mut r: Vec<(String, String)> = Vec::new();
    let mut i: usize = 0;
    while i < v.len()
        invariant
            i <= v@.len(),
            r@.len() == i,
            forall|j: int| 0 <= j < i ==> pair_view(#[trigger] r@[j]) == pair_view(v@[j]),
        decreases v@.len() - i,
    {
        r.push((v[i].0.clone(), v[i].1.clone()));
        i = i + 1;
    }
    assert(r@.map_values(|p: (String, String)| pair_view(p)) =~= v@.map_values(
        |p: (String, String)| pair_view(p),
    ));
    r
}

proof fn lemma_statuses_in_range(es: Seq<EntryView>, n: nat)
    requires
        n <= es.len(),
        first_bad_status(es, n) is None,
    ensures
        forall|j: int| 0 <= j < n ==> status_in_range(#[trigger] es[j].status_code),
    decreases n,
{
    if n > 0 {
        lemma_statuses_in_range(es, (n - 1) as nat);
    }
}

/// Builds the variant table of a validated catalog.
pub fn emit(c: &ErrorCatalog) -> (r: GeneratedCatalog)
    requires
        valid(c@),
    ensures
        r@ == emission(c@),
{
    let ghost es = c@.entries;
    proof {
        if first_bad_status(es, es.len()) is Some {
            assert(validation(c@) is Err);
        }
        lemma_statuses_in_range(es, es.len());
    }
    let n = c.entries.len();
    let mut variants: Vec<Variant> = Vec::new();
    let mut k: usize = 0;
    while k < n
        invariant
            n == es.len(),
            es == c@.entries,
            forall|j: int| 0 <= j < n ==> status_in_range(#[trigger] es[j].status_code),
            k <= n,
            variants@.len() == k,
            forall|j: int|
                0 <= j < k ==> (#[trigger] variants@[j])@ == variant_of(es[j], c@.default_language),
        decreases n - k,
    {
        let e = &c.entries[k];
        assert(es[k as int] == e@);
        let fallback = match find_text(&e.messages, c.default_language.as_str()) {
            Some(t) => t.clone(),
            None => String::new(),
        };
        assert(status_in_range(es[k as int].status_code));
        let v = Variant {
            ident: to_pascal_case(e.raw_name.as_str()),
            code: e.numeric_code,
            status: e.status_code as u16,
            arms: copy_pairs(&e.messages),
            fallback,
        };
        variants.push(v);
        k = k + 1;
    }
    let r = GeneratedCatalog { default_language: c.default_language.clone(), variants };
    assert(r@.variants =~= emission(c@).variants);
    r
}

} // verus!

verus! {

impl GeneratedCatalog {
    /// The number of variants.
    pub fn len(&self) -> (r: usize)
        ensures
            r == self@.variants.len(),
    {
        self.variants.len()
    }

    /// The numeric code of variant `v`.
    pub fn code(&self, v: usize) -> (r: i64)
        requires
            v < self@.variants.len(),
        ensures
            r as int == self@.variants[v as int].code,
    {
        self.variants[v].code
    }

    /// The protocol status of variant `v`.
    pub fn status(&self, v: usize) -> (r: u16)
        requires
            v < self@.variants.len(),
        ensures
            r as int == self@.variants[v as int].status,
    {
        self.variants[v].status
    }

    /// The message of variant `v` in `lang`: the exact-language text when the
    /// entry declares one, else the default-language text (empty when the
    /// entry has no default-language message).
    pub fn message_lang(&self, v: usize, lang: &str) -> (r: &str)
        requires
            v < self@.variants.len(),
        ensures
            r@ == message_in(self@.variants[v as int], lang@),
    {
        let var = &self.variants[v];
        assert(self@.variants[v as int] == var@);
        match find_text(&var.arms, lang) {
            Some(t) => t.as_str(),
            None => var.fallback.as_str(),
        }
    }

    /// The message of variant `v` in the default language.
    pub fn message(&self, v: usize) -> (r: &str)
        requires
            v < self@.variants.len(),
        ensures
            r@ == message_in(self@.variants[v as int], self@.default_language),
    {
        self.message_lang(v, self.default_language.as_str())
    }

    /// The identifiers of all variants, in declaration order.
    pub fn all_codes(&self) -> (r: Vec<String>)
        ensures
            r@.len() == self@.variants.len(),
            forall|j: int| 0 <= j < r@.len() ==> (#[trigger] r@[j])@ == self@.variants[j].ident,
    {
        let mut r: Vec<String> = Vec::new();
        let mut i: usize = 0;
        while i < self.variants.len()
            invariant
                i <= self@.variants.len(),
                r@.len() == i,
                forall|j: int| 0 <= j < i ==> (#[trigger] r@[j])@ == self@.variants[j].ident,
            decreases self@.variants.len() - i,
        {
            r.push(self.variants[i].ident.clone());
            i = i + 1;
        }
        r
    }

    /// The variant whose identifier is the canonical identifier of `raw_name`.
    pub fn variant_for(&self, raw_name: &str) -> (r: Option<usize>)
        ensures
            match r {
                Some(v) => v < self@.variants.len() && self@.variants[v as int].ident == pascal(
                    raw_name@,
                ) && forall|j: int| 0 <= j < v ==> self@.variants[j].ident != pascal(raw_name@),
                None => forall|j: int|
                    0 <= j < self@.variants.len() ==> self@.variants[j].ident != pascal(raw_name@),
            },
    {
        let ident = to_pascal_case(raw_name);
        let mut i: usize = 0;
        while i < self.variants.len()
            invariant
                ident@ == pascal(raw_name@),
                i <= self@.variants.len(),
                forall|j: int| 0 <= j < i ==> self@.variants[j].ident != pascal(raw_name@),
            decreases self@.variants.len() - i,
        {
            if same_text(self.variants[i].ident.as_str(), ident.as_str()) {
                return Some(i);
            }
            i = i + 1;
        }
        None
    }
}

} // verus!
