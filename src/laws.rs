//! Properties of the whole transformation, proved over its specification.
use vstd::prelude::*;
use crate::compile::{compilation, generation};
use crate::emit::{emission, lookup, message_in};
use crate::ident::pascal;
use crate::render::{lang_items, message_item, source, PAIR_ARM, WILD_ARROW, ARM_END};
use crate::text::literal;
use crate::reading::{lemma_reads_alike, lemma_same_compilation};
use crate::yaml::{reads_as, yaml_parse, MAX_DEPTH};
use crate::schema::{CatalogView, Doc, EntryView};
use crate::validate::{
    clash, first_bad_status, first_clash, first_partner, first_without_messages, status_in_range,
    valid, validation, ValidationErrorView,
};

verus! {

proof fn lemma_lookup_absent(arms: Seq<(Seq<char>, Seq<char>)>, lang: Seq<char>)
    requires
        forall|k: int| 0 <= k < arms.len() ==> (#[trigger] arms[k]).0 != lang,
    ensures
        lookup(arms, lang) is None,
    decreases arms.len(),
{
    if arms.len() > 0 {
        assert(arms[0].0 != lang);
        let rest = arms.drop_first();
        assert forall|k: int| 0 <= k < rest.len() implies (#[trigger] rest[k]).0 != lang by {
            assert(rest[k] == arms[k + 1]);
        }
        lemma_lookup_absent(rest, lang);
    }
}

proof fn lemma_partner_found(es: Seq<EntryView>, i: int, j: int, m: nat, by_ident: bool)
    requires
        0 <= i < m,
        clash(es[i], es[j], by_ident),
    ensures
        first_partner(es, j, m, by_ident) is Some,
    decreases m,
{
    if i < m - 1 {
        lemma_partner_found(es, i, j, (m - 1) as nat, by_ident);
    }
}

proof fn lemma_clash_found(es: Seq<EntryView>, i: int, j: int, n: nat, by_ident: bool)
    requires
        0 <= i < j < n <= es.len(),
        clash(es[i], es[j], by_ident),
    ensures
        first_clash(es, n, by_ident) is Some,
    decreases n,
{
    if j < n - 1 {
        lemma_clash_found(es, i, j, (n - 1) as nat, by_ident);
    } else {
        lemma_partner_found(es, i, j, j as nat, by_ident);
    }
}

proof fn lemma_no_clash(es: Seq<EntryView>, by_ident: bool)
    requires
        first_clash(es, es.len(), by_ident) is None,
    ensures
        forall|i: int, j: int|
            0 <= i < j < es.len() ==> !clash(#[trigger] es[i], #[trigger] es[j], by_ident),
{
    assert forall|i: int, j: int| 0 <= i < j < es.len() implies !clash(
        #[trigger] es[i],
        #[trigger] es[j],
        by_ident,
    ) by {
        if clash(es[i], es[j], by_ident) {
            lemma_clash_found(es, i, j, es.len(), by_ident);
        }
    }
}

proof fn lemma_bad_status_sound(es: Seq<EntryView>, n: nat)
    requires
        n <= es.len(),
    ensures
        first_bad_status(es, n) matches Some(k) ==> 0 <= k < n && !status_in_range(
            es[k].status_code,
        ),
    decreases n,
{
    if n > 0 {
        lemma_bad_status_sound(es, (n - 1) as nat);
    }
}

proof fn lemma_bad_status_found(es: Seq<EntryView>, j: int, n: nat)
    requires
        0 <= j < n <= es.len(),
        !status_in_range(es[j].status_code),
    ensures
        first_bad_status(es, n) matches Some(k) && 0 <= k < n && !status_in_range(es[k].status_code),
    decreases n,
{
    lemma_bad_status_sound(es, n);
    if j < n - 1 {
        lemma_bad_status_found(es, j, (n - 1) as nat);
    }
}

proof fn lemma_all_have_messages(es: Seq<EntryView>, n: nat)
    requires
        n <= es.len(),
        forall|k: int| 0 <= k < es.len() ==> (#[trigger] es[k]).messages.len() > 0,
    ensures
        first_without_messages(es, n) is None,
    decreases n,
{
    if n > 0 {
        lemma_all_have_messages(es, (n - 1) as nat);
    }
}

/// Compiling one YAML text twice gives byte-identical results: the text
/// parses to one value, and any two documents read from that value compile
/// alike, to the same source or the same error.
pub proof fn law_deterministic(text: Seq<char>, first: Doc, second: Doc)
    requires
        yaml_parse(text) matches Some(v) && reads_as(first, v, MAX_DEPTH as nat) && reads_as(
            second,
            v,
            MAX_DEPTH as nat,
        ),
    ensures
        compilation(first) == compilation(second),
{
    let v = yaml_parse(text)->Some_0;
    lemma_reads_alike(first, second, v, MAX_DEPTH as nat);
    lemma_same_compilation(first, second, MAX_DEPTH as nat);
}

/// For every entry of a valid catalog, the variant named after its raw name
/// is the entry's own (no other variant shares the identifier) and its code
/// is the entry's numeric code.
pub proof fn law_code_round_trip(c: CatalogView, i: int)
    requires
        valid(c),
        0 <= i < c.entries.len(),
    ensures
        emission(c).variants.len() == c.entries.len(),
        emission(c).variants[i].ident == pascal(c.entries[i].raw_name),
        emission(c).variants[i].code == c.entries[i].numeric_code,
        forall|j: int|
            0 <= j < c.entries.len() && j != i ==> emission(c).variants[j].ident != pascal(
                c.entries[i].raw_name,
            ),
{
    let es = c.entries;
    if first_clash(es, es.len(), true) is Some {
        assert(validation(c) is Err);
    }
    lemma_no_clash(es, true);
    assert forall|j: int| 0 <= j < es.len() && j != i implies emission(c).variants[j].ident != pascal(
        es[i].raw_name,
    ) by {
        if j < i {
            assert(!clash(es[j], es[i], true));
        } else {
            assert(!clash(es[i], es[j], true));
        }
    }
}

/// For a language that an entry does not declare, its message is the one it
/// has in the default language.
pub proof fn law_message_fallback(c: CatalogView, i: int, lang: Seq<char>)
    requires
        0 <= i < c.entries.len(),
        forall|k: int|
            0 <= k < c.entries[i].messages.len() ==> (#[trigger] c.entries[i].messages[k]).0 != lang,
    ensures
        message_in(emission(c).variants[i], lang) == message_in(
            emission(c).variants[i],
            c.default_language,
        ),
{
    lemma_lookup_absent(c.entries[i].messages, lang);
}

/// When an entry has no message in the default language, every language it
/// does not declare gives empty text.
pub proof fn law_default_language_gap(c: CatalogView, i: int, lang: Seq<char>)
    requires
        0 <= i < c.entries.len(),
        forall|k: int|
            0 <= k < c.entries[i].messages.len() ==> (#[trigger] c.entries[i].messages[k]).0
                != c.default_language,
        forall|k: int|
            0 <= k < c.entries[i].messages.len() ==> (#[trigger] c.entries[i].messages[k]).0 != lang,
    ensures
        message_in(emission(c).variants[i], lang) == Seq::<char>::empty(),
{
    lemma_lookup_absent(c.entries[i].messages, lang);
    lemma_lookup_absent(c.entries[i].messages, c.default_language);
}

/// Two entries whose raw names map to one canonical identifier make the
/// catalog invalid, so nothing is emitted for it.
pub proof fn law_collision_rejected(c: CatalogView, i: int, j: int)
    requires
        0 <= i < j < c.entries.len(),
        pascal(c.entries[i].raw_name) == pascal(c.entries[j].raw_name),
    ensures
        validation(c) is Err,
        generation(c) is Err,
{
    lemma_clash_found(c.entries, i, j, c.entries.len(), true);
}

/// The generated enumeration of all codes lists one identifier per entry, in
/// declaration order.
pub proof fn law_enumeration_order(c: CatalogView)
    ensures
        emission(c).variants.len() == c.entries.len(),
        forall|i: int|
            0 <= i < c.entries.len() ==> (#[trigger] emission(c).variants[i]).ident == pascal(
                c.entries[i].raw_name,
            ),
        valid(c) ==> generation(c) == Ok::<Seq<char>, ValidationErrorView>(source(emission(c))),
{
}

/// A status outside 100..=599 is rejected with the status as declared: in a
/// catalog whose entries all have messages, validation fails with
/// `StatusOutOfRange` carrying an out-of-range status.
pub proof fn law_status_rejected(c: CatalogView, j: int)
    requires
        0 <= j < c.entries.len(),
        !status_in_range(c.entries[j].status_code),
        forall|k: int| 0 <= k < c.entries.len() ==> (#[trigger] c.entries[k]).messages.len() > 0,
    ensures
        validation(c) matches Err(ValidationErrorView::StatusOutOfRange(_, s)) && !status_in_range(s),
        generation(c) is Err,
{
    lemma_all_have_messages(c.entries, c.entries.len());
    lemma_bad_status_found(c.entries, j, c.entries.len());
}

/// In the generated source, the message arms of every variant are its
/// declared languages followed by a wildcard arm, and the wildcard arm yields
/// what the variant gives in the default language; that text is empty when
/// the entry has no default-language message.
pub proof fn law_rendered_fallback(c: CatalogView, i: int)
    requires
        0 <= i < c.entries.len(),
    ensures
        message_item(emission(c).variants[i]) == lang_items(
            emission(c).variants[i].ident,
            c.entries[i].messages,
            c.entries[i].messages.len(),
        ) + PAIR_ARM@ + pascal(c.entries[i].raw_name) + WILD_ARROW@ + literal(
            message_in(emission(c).variants[i], c.default_language),
        ) + ARM_END@,
        (forall|k: int|
            0 <= k < c.entries[i].messages.len() ==> (#[trigger] c.entries[i].messages[k]).0
                != c.default_language) ==> message_in(emission(c).variants[i], c.default_language)
            == Seq::<char>::empty(),
{
    if forall|k: int|
        0 <= k < c.entries[i].messages.len() ==> (#[trigger] c.entries[i].messages[k]).0
            != c.default_language {
        lemma_lookup_absent(c.entries[i].messages, c.default_language);
    }
}

} // verus!
