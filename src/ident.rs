//! Derivation of canonical identifiers from raw schema keys.
use vstd::prelude::*;
use vstd::string::*;

verus! {

/// What `char::to_uppercase` yields for `c`, collected into a string.
pub uninterp spec fn upper_of(c: char) -> Seq<char>;

/// Relies on `char::to_uppercase`: the result depends on the character alone,
/// and an ASCII character maps to its ASCII capital (itself when it has none).
#[verifier::external_body]
fn upper_case(c: char) -> (r: String)
    ensures
        r@ == upper_of(c),
        'a' <= c <= 'z' ==> r@ == seq![((c as u32) - 32) as char],
        c <= '\u{7f}' && !('a' <= c <= 'z') ==> r@ == seq![c],
{
    c.to_uppercase().collect::<String>()
}

/// Relies on `String::push`: appends one character.
#[verifier::external_body]
pub(crate) fn push_char(s: &mut String, c: char)
    ensures
        final(s)@ == old(s)@.push(c),
{
    s.push(c)
}

/// The separator between the tokens of a raw name.
pub open spec fn is_separator(c: char) -> bool {
    c == '_'
}

/// Whether the character at index `i` of `s` opens a token.
pub open spec fn starts_token(s: Seq<char>, i: int) -> bool {
    i == 0 || is_separator(s[i - 1])
}

/// The canonical identifier of the first `n` characters of `s`: separators are
/// dropped and the first character of every token is upper-cased.
pub open spec fn pascal_prefix(s: Seq<char>, n: nat) -> Seq<char>
    decreases n,
{
    if n == 0 || n > s.len() {
        Seq::empty()
    } else {
        let prev = pascal_prefix(s, (n - 1) as nat);
        let c = s[n - 1];
        if is_separator(c) {
            prev
        } else if starts_token(s, n - 1) {
            prev + upper_of(c)
        } else {
            prev.push(c)
        }
    }
}

/// The canonical identifier of a raw name.
pub open spec fn pascal(s: Seq<char>) -> Seq<char> {
    pascal_prefix(s, s.len())
}

/// Maps a raw name such as `invalid_param` to its canonical identifier
/// `InvalidParam`.
pub fn to_pascal_case(s: &str) -> (r: String)
    ensures
        r@ == pascal(s@),
{
    let n = s.unicode_len();
    let mut out = String::new();
    let mut i: usize = 0;
    while i < n
        invariant
            n == s@.len(),
            i <= n,
            out@ == pascal_prefix(s@, i as nat),
        decreases n - i,
    {
        let c = s.get_char(i);
        if c == '_' {
        } else if i == 0 || s.get_char(i - 1) == '_' {
            let up = upper_case(c);
            out.append(up.as_str());
        } else {
            push_char(&mut out, c);
        }
        i = i + 1;
    }
    out
}

} // verus!
