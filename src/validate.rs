//! Cross-entry checks that a catalog must pass before any code is emitted.
use vstd::prelude::*;
use crate::ident::{pascal, to_pascal_case};
use crate::schema::{CatalogView, EntryView, ErrorCatalog};
use crate::text::same_text;

verus! {

/// The lowest protocol status an entry may declare.
pub const MIN_STATUS: i64 = 100;

/// The highest protocol status an entry may declare.
pub const MAX_STATUS: i64 = 599;

/// A catalog that is structurally complete but semantically invalid.
#[derive(Debug, Clone, PartialEq, Eq)]
pub enum ValidationError {
    /// The entry's code does not fit the `i32` that generated code returns.
    CodeOutOfRange(String, i64),
    /// The entry has no message at all.
    EmptyMessages(String),
    /// The entry's status lies outside 100..=599.
    StatusOutOfRange(String, i64),
    /// Two entries share this raw name.
    DuplicateName(String),
    /// Two distinct raw names (first, second) map to one identifier (third).
    IdentifierCollision(String, String, String),
}

pub enum ValidationErrorView {
    CodeOutOfRange(Seq<char>, int),
    EmptyMessages(Seq<char>),
    StatusOutOfRange(Seq<char>, int),
    DuplicateName(Seq<char>),
    IdentifierCollision(Seq<char>, Seq<char>, Seq<char>),
}

impl View for ValidationError {
    type V = ValidationErrorView;

    open spec fn view(&self) -> ValidationErrorView {
        match self {
            ValidationError::CodeOutOfRange(n, c) => ValidationErrorView::CodeOutOfRange(n@, *c as int),
            ValidationError::EmptyMessages(n) => ValidationErrorView::EmptyMessages(n@),
            ValidationError::StatusOutOfRange(n, s) => ValidationErrorView::StatusOutOfRange(
                n@,
                *s as int,
            ),
            ValidationError::DuplicateName(n) => ValidationErrorView::DuplicateName(n@),
            ValidationError::IdentifierCollision(a, b, i) => ValidationErrorView::IdentifierCollision(
                a@,
                b@,
                i@,
            ),
        }
    }
}

pub open spec fn status_in_range(s: int) -> bool {
    MIN_STATUS <= s <= MAX_STATUS
}

/// Whether a numeric code fits the `i32` that generated code returns.
pub open spec fn code_in_range(c: int) -> bool {
    i32::MIN <= c <= i32::MAX
}

/// The first of the first `n` entries whose code does not fit `i32`.
pub open spec fn first_bad_code(es: Seq<EntryView>, n: nat) -> Option<int>
    decreases n,
{
    if n == 0 || n > es.len() {
        None
    } else {
        match first_bad_code(es, (n - 1) as nat) {
            Some(j) => Some(j),
            None => if !code_in_range(es[n - 1].numeric_code) {
                Some(n - 1)
            } else {
                None
            },
        }
    }
}

/// The first of the first `n` entries that has no message.
pub open spec fn first_without_messages(es: Seq<EntryView>, n: nat) -> Option<int>
    decreases n,
{
    if n == 0 || n > es.len() {
        None
    } else {
        match first_without_messages(es, (n - 1) as nat) {
            Some(j) => Some(j),
            None => if es[n - 1].messages.len() == 0 {
                Some(n - 1)
            } else {
                None
            },
        }
    }
}

/// The first of the first `n` entries whose status is out of range.
pub open spec fn first_bad_status(es: Seq<EntryView>, n: nat) -> Option<int>
    decreases n,
{
    if n == 0 || n > es.len() {
        None
    } else {
        match first_bad_status(es, (n - 1) as nat) {
            Some(j) => Some(j),
            None => if !status_in_range(es[n - 1].status_code) {
                Some(n - 1)
            } else {
                None
            },
        }
    }
}

/// Whether two entries clash: by raw name (`by_ident` false) or by canonical
/// identifier (`by_ident` true).
pub open spec fn clash(a: EntryView, b: EntryView, by_ident: bool) -> bool {
    if by_ident {
        pascal(a.raw_name) == pascal(b.raw_name)
    } else {
        a.raw_name == b.raw_name
    }
}

/// The first of the first `n` entries that clashes with entry `j`.
pub open spec fn first_partner(es: Seq<EntryView>, j: int, n: nat, by_ident: bool) -> Option<int>
    decreases n,
{
    if n == 0 {
        None
    } else {
        match first_partner(es, j, (n - 1) as nat, by_ident) {
            Some(i) => Some(i),
            None => if clash(es[n - 1], es[j], by_ident) {
                Some(n - 1)
            } else {
                None
            },
        }
    }
}

/// The first clashing pair `(i, j)`, `i < j < n`: least `j`, then least `i`.
pub open spec fn first_clash(es: Seq<EntryView>, n: nat, by_ident: bool) -> Option<(int, int)>
    decreases n,
{
    if n == 0 || n > es.len() {
        None
    } else {
        match first_clash(es, (n - 1) as nat, by_ident) {
            Some(p) => Some(p),
            None => match first_partner(es, n - 1, (n - 1) as nat, by_ident) {
                Some(i) => Some((i, n - 1)),
                None => None,
            },
        }
    }
}

/// The outcome of validation: the checks run in order (messages, status,
/// code range, raw names, identifiers) and the first violation is reported.
pub open spec fn validation(c: CatalogView) -> Result<(), ValidationErrorView> {
    let es = c.entries;
    let n = es.len();
    match first_without_messages(es, n) {
        Some(j) => Err(ValidationErrorView::EmptyMessages(es[j].raw_name)),
        None => match first_bad_status(es, n) {
            Some(j) => Err(ValidationErrorView::StatusOutOfRange(es[j].raw_name, es[j].status_code)),
            None => match first_bad_code(es, n) {
            Some(j) => Err(ValidationErrorView::CodeOutOfRange(es[j].raw_name, es[j].numeric_code)),
            None => match first_clash(es, n, false) {
                Some((i, j)) => Err(ValidationErrorView::DuplicateName(es[j].raw_name)),
                None => match first_clash(es, n, true) {
                    Some((i, j)) => Err(
                        ValidationErrorView::IdentifierCollision(
                            es[i].raw_name,
                            es[j].raw_name,
                            pascal(es[j].raw_name),
                        ),
                    ),
                    None => Ok(()),
                },
            },
        },
        },
    }
}

/// Whether a catalog passes every check.
pub open spec fn valid(c: CatalogView) -> bool {
    validation(c) is Ok
}

proof fn lemma_first_index_kept(es: Seq<EntryView>, n: nat, m: nat, by_status: bool)
    requires
        n <= m <= es.len(),
        by_status ==> first_bad_status(es, n) is Some,
        !by_status ==> first_without_messages(es, n) is Some,
    ensures
        by_status ==> first_bad_status(es, m) == first_bad_status(es, n),
        !by_status ==> first_without_messages(es, m) == first_without_messages(es, n),
    decreases m - n,
{
    if m > n {
        lemma_first_index_kept(es, n, (m - 1) as nat, by_status);
    }
}

proof fn lemma_first_bad_code_kept(es: Seq<EntryView>, n: nat, m: nat)
    requires
        n <= m <= es.len(),
        first_bad_code(es, n) is Some,
    ensures
        first_bad_code(es, m) == first_bad_code(es, n),
    decreases m - n,
{
    if m > n {
        lemma_first_bad_code_kept(es, n, (m - 1) as nat);
    }
}

proof fn lemma_first_partner_kept(es: Seq<EntryView>, j: int, n: nat, m: nat, by_ident: bool)
    requires
        n <= m,
        first_partner(es, j, n, by_ident) is Some,
    ensures
        first_partner(es, j, m, by_ident) == first_partner(es, j, n, by_ident),
    decreases m - n,
{
    if m > n {
        lemma_first_partner_kept(es, j, n, (m - 1) as nat, by_ident);
    }
}

proof fn lemma_first_clash_kept(es: Seq<EntryView>, n: nat, m: nat, by_ident: bool)
    requires
        n <= m <= es.len(),
        first_clash(es, n, by_ident) is Some,
    ensures
        first_clash(es, m, by_ident) == first_clash(es, n, by_ident),
    decreases m - n,
{
    if m > n {
        lemma_first_clash_kept(es, n, (m - 1) as nat, by_ident);
    }
}

} // verus!

verus! {

/// The first entry of `c` without messages.
fn find_without_messages(c: &ErrorCatalog) -> (r: Option<usize>)
    ensures
        first_without_messages(c@.entries, c@.entries.len()) == match r {
            Some(j) => Some(j as int),
            None => None::<int>,
        },
        r matches Some(j) ==> j < c@.entries.len(),
{
    let n = c.entries.len();
    let mut j: usize = 0;
    while j < n
        invariant
            n == c@.entries.len(),
            j <= n,
            first_without_messages(c@.entries, j as nat) is None,
        decreases n - j,
    {
        if c.entries[j].messages.len() == 0 {
            proof {
                lemma_first_index_kept(c@.entries, (j + 1) as nat, n as nat, false);
            }
            return Some(j);
        }
        j = j + 1;
    }
    None
}

/// The first entry of `c` whose code does not fit `i32`.
fn find_bad_code(c: &ErrorCatalog) -> (r: Option<usize>)
    ensures
        first_bad_code(c@.entries, c@.entries.len()) == match r {
            Some(j) => Some(j as int),
            None => None::<int>,
        },
        r matches Some(j) ==> j < c@.entries.len(),
{
    let n = c.entries.len();
    let mut j: usize = 0;
    while j < n
        invariant
            n == c@.entries.len(),
            j <= n,
            first_bad_code(c@.entries, j as nat) is None,
        decreases n - j,
    {
        let code = c.entries[j].numeric_code;
        if code < i32::MIN as i64 || code > i32::MAX as i64 {
            proof {
                lemma_first_bad_code_kept(c@.entries, (j + 1) as nat, n as nat);
            }
            return Some(j);
        }
        j = j + 1;
    }
    None
}

/// The first entry of `c` whose status is out of range.
fn find_bad_status(c: &ErrorCatalog) -> (r: Option<usize>)
    ensures
        first_bad_status(c@.entries, c@.entries.len()) == match r {
            Some(j) => Some(j as int),
            None => None::<int>,
        },
        r matches Some(j) ==> j < c@.entries.len(),
{
    let n = c.entries.len();
    let mut j: usize = 0;
    while j < n
        invariant
            n == c@.entries.len(),
            j <= n,
            first_bad_status(c@.entries, j as nat) is None,
        decreases n - j,
    {
        let s = c.entries[j].status_code;
        if s < MIN_STATUS || s > MAX_STATUS {
            proof {
                lemma_first_index_kept(c@.entries, (j + 1) as nat, n as nat, true);
            }
            return Some(j);
        }
        j = j + 1;
    }
    None
}

/// The first clashing pair of entries, where `keys` holds for each entry the
/// text that decides a clash.
fn find_clash(keys: &Vec<String>, Ghost(es): Ghost<Seq<EntryView>>, Ghost(by_ident): Ghost<bool>) -> (r:
    Option<(usize, usize)>)
    requires
        keys@.len() == es.len(),
        forall|k: int, l: int|
            0 <= k < es.len() && 0 <= l < es.len() ==> (clash(es[k], es[l], by_ident) <==> (
            #[trigger] keys@[k])@ == (#[trigger] keys@[l])@),
    ensures
        first_clash(es, es.len(), by_ident) == match r {
            Some((i, j)) => Some((i as int, j as int)),
            None => None::<(int, int)>,
        },
        r matches Some((i, j)) ==> i < j < es.len(),
{
    let n = keys.len();
    let mut j: usize = 0;
    while j < n
        invariant
            n == es.len(),
            keys@.len() == es.len(),
            forall|k: int, l: int|
                0 <= k < es.len() && 0 <= l < es.len() ==> (clash(es[k], es[l], by_ident) <==> (
                #[trigger] keys@[k])@ == (#[trigger] keys@[l])@),
            j <= n,
            first_clash(es, j as nat, by_ident) is None,
        decreases n - j,
    {
        let mut i: usize = 0;
        while i < j
            invariant
                n == es.len(),
                keys@.len() == es.len(),
                forall|k: int, l: int|
                    0 <= k < es.len() && 0 <= l < es.len() ==> (clash(es[k], es[l], by_ident) <==> (
                    #[trigger] keys@[k])@ == (#[trigger] keys@[l])@),
                j < n,
                i <= j,
                first_clash(es, j as nat, by_ident) is None,
                first_partner(es, j as int, i as nat, by_ident) is None,
            decreases j - i,
        {
            if same_text(keys[i].as_str(), keys[j].as_str()) {
                proof {
                    assert(clash(es[i as int], es[j as int], by_ident));
                    lemma_first_partner_kept(es, j as int, (i + 1) as nat, j as nat, by_ident);
                    lemma_first_clash_kept(es, (j + 1) as nat, n as nat, by_ident);
                }
                return Some((i, j));
            }
            i = i + 1;
        }
        j = j + 1;
    }
    None
}

/// Checks a catalog in order: every entry has a message, every status lies in
/// 100..=599, every code fits `i32`, raw names are unique, canonical
/// identifiers are unique. The first violation found is the result.
pub fn validate(c: &ErrorCatalog) -> (r: Result<(), ValidationError>)
    ensures
        match r {
            Ok(()) => validation(c@) == Ok::<(), ValidationErrorView>(()),
            Err(e) => validation(c@) == Err::<(), ValidationErrorView>(e@),
        },
{
    let ghost es = c@.entries;
    if let Some(j) = find_without_messages(c) {
        return Err(ValidationError::EmptyMessages(c.entries[j].raw_name.clone()));
    }
    if let Some(j) = find_bad_status(c) {
        return Err(
            ValidationError::StatusOutOfRange(
                c.entries[j].raw_name.clone(),
                c.entries[j].status_code,
            ),
        );
    }
    if let Some(j) = find_bad_code(c) {
        return Err(
            ValidationError::CodeOutOfRange(c.entries[j].raw_name.clone(), c.entries[j].numeric_code),
        );
    }
    let n = c.entries.len();
    let mut names: Vec<String> = Vec::new();
    let mut idents: Vec<String> = Vec::new();
    let mut k: usize = 0;
    while k < n
        invariant
            n == es.len(),
            es == c@.entries,
            k <= n,
            names@.len() == k,
            idents@.len() == k,
            forall|m: int| 0 <= m < k ==> (#[trigger] names@[m])@ == es[m].raw_name,
            forall|m: int| 0 <= m < k ==> (#[trigger] idents@[m])@ == pascal(es[m].raw_name),
        decreases n - k,
    {
        names.push(c.entries[k].raw_name.clone());
        idents.push(to_pascal_case(c.entries[k].raw_name.as_str()));
        k = k + 1;
    }
    if let Some((_i, j)) = find_clash(&names, Ghost(es), Ghost(false)) {
        return Err(ValidationError::DuplicateName(names[j].clone()));
    }
    if let Some((i, j)) = find_clash(&idents, Ghost(es), Ghost(true)) {
        return Err(
            ValidationError::IdentifierCollision(
                names[i].clone(),
                names[j].clone(),
                idents[j].clone(),
            ),
        );
    }
    Ok(())
}

} // verus!
