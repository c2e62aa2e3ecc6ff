//! Rendering of a generated catalog as Rust source text.
use vstd::prelude::*;
use vstd::string::*;
use crate::emit::{GeneratedCatalog, GeneratedView, Variant, VariantView};
use crate::schema::pair_view;
use crate::text::{decimal, literal, push_decimal, push_literal};

verus! {

pub const HEADER: &'static str = "// Generated from the error schema: edit the schema, not this file.\n\nuse biz_error::ErrorCode as ErrorCodeTrait;\n\n/// Business error codes.\n#[derive(Debug, Clone, Copy, PartialEq, Eq, Hash)]\npub enum ErrorCode {\n";

pub const CODE_OPEN: &'static str = "}\n\nimpl ErrorCodeTrait for ErrorCode {\n    fn code(&self) -> i32 {\n        match self {\n";

pub const MESSAGE_OPEN: &'static str = "        }\n    }\n\n    fn message(&self) -> &'static str {\n        self.message_lang(";

pub const MESSAGE_LANG_OPEN: &'static str = ")\n    }\n\n    fn message_lang(&self, lang: &str) -> &'static str {\n        match (self, lang) {\n";

pub const STATUS_OPEN: &'static str = "        }\n    }\n\n    fn http_status(&self) -> axum::http::StatusCode {\n        match self {\n";

pub const LIST_OPEN: &'static str = "        }\n    }\n}\n\nimpl std::fmt::Display for ErrorCode {\n    fn fmt(&self, f: &mut std::fmt::Formatter<'_>) -> std::fmt::Result {\n        write!(f, \"[{}] {}\", self.code(), self.message())\n    }\n}\n\nimpl std::error::Error for ErrorCode {}\n\n/// Every error code, in declaration order.\npub const ALL_ERROR_CODES: &[ErrorCode] = &[";

pub const LIST_CLOSE: &'static str = "];\n";

pub const DOC_OPEN: &'static str = "    #[doc = ";

pub const DOC_CLOSE: &'static str = "]\n    ";

pub const ARM_END: &'static str = ",\n";

pub const PATH_ARM: &'static str = "            ErrorCode::";

pub const PAIR_ARM: &'static str = "            (ErrorCode::";

pub const ARROW: &'static str = " => ";

pub const COMMA: &'static str = ", ";

pub const PAIR_ARROW: &'static str = ") => ";

pub const WILD_ARROW: &'static str = ", _) => ";

pub const STATUS_CALL: &'static str = " => axum::http::StatusCode::from_u16(";

pub const STATUS_END: &'static str = ").unwrap(),\n";

pub const PATH: &'static str = "ErrorCode::";

/// The declaration of a variant, documented with its fallback text.
pub open spec fn decl_item(v: VariantView) -> Seq<char> {
    DOC_OPEN@ + literal(v.fallback) + DOC_CLOSE@ + v.ident + ARM_END@
}

/// The arm of the code lookup for a variant.
pub open spec fn code_item(v: VariantView) -> Seq<char> {
    PATH_ARM@ + v.ident + ARROW@ + decimal(v.code) + ARM_END@
}

/// The arm of the message lookup for one language of a variant.
pub open spec fn lang_item(ident: Seq<char>, arm: (Seq<char>, Seq<char>)) -> Seq<char> {
    PAIR_ARM@ + ident + COMMA@ + literal(arm.0) + PAIR_ARROW@ + literal(arm.1) + ARM_END@
}

/// The first `n` language arms of a variant.
pub open spec fn lang_items(ident: Seq<char>, arms: Seq<(Seq<char>, Seq<char>)>, n: nat) -> Seq<char>
    decreases n,
{
    if n == 0 || n > arms.len() {
        Seq::empty()
    } else {
        lang_items(ident, arms, (n - 1) as nat) + lang_item(ident, arms[n - 1])
    }
}

/// The arms of the message lookup for a variant: its languages in order, then
/// the wildcard arm with its fallback text.
pub open spec fn message_item(v: VariantView) -> Seq<char> {
    lang_items(v.ident, v.arms, v.arms.len()) + PAIR_ARM@ + v.ident + WILD_ARROW@ + literal(
        v.fallback,
    ) + ARM_END@
}

/// The arm of the status lookup for a variant.
pub open spec fn status_item(v: VariantView) -> Seq<char> {
    PATH_ARM@ + v.ident + STATUS_CALL@ + decimal(v.status) + STATUS_END@
}

/// The four per-variant parts of the generated source.
pub enum Part {
    Decl,
    Code,
    Message,
    Status,
}

pub open spec fn item(v: VariantView, part: Part) -> Seq<char> {
    match part {
        Part::Decl => decl_item(v),
        Part::Code => code_item(v),
        Part::Message => message_item(v),
        Part::Status => status_item(v),
    }
}

/// One part for the first `n` variants, in order.
pub open spec fn section(vs: Seq<VariantView>, n: nat, part: Part) -> Seq<char>
    decreases n,
{
    if n == 0 || n > vs.len() {
        Seq::empty()
    } else {
        section(vs, (n - 1) as nat, part) + item(vs[n - 1], part)
    }
}

/// The paths of the first `n` variants, separated by `, `.
pub open spec fn path_list(vs: Seq<VariantView>, n: nat) -> Seq<char>
    decreases n,
{
    if n == 0 || n > vs.len() {
        Seq::empty()
    } else if n == 1 {
        PATH@ + vs[0].ident
    } else {
        path_list(vs, (n - 1) as nat) + COMMA@ + PATH@ + vs[n - 1].ident
    }
}

/// The complete generated source of a catalog.
pub open spec fn source(g: GeneratedView) -> Seq<char> {
    let vs = g.variants;
    let n = vs.len();
    HEADER@ + section(vs, n, Part::Decl) + CODE_OPEN@ + section(vs, n, Part::Code) + MESSAGE_OPEN@
        + literal(g.default_language) + MESSAGE_LANG_OPEN@ + section(vs, n, Part::Message)
        + STATUS_OPEN@ + section(vs, n, Part::Status) + LIST_OPEN@ + path_list(vs, n)
        + LIST_CLOSE@
}

fn push_lang_items(out: &mut String, v: &Variant)
    ensures
        final(out)@ == old(out)@ + lang_items(v@.ident, v@.arms, v@.arms.len()),
{
    let ghost start = out@;
    let mut i: usize = 0;
    while i < v.arms.len()
        invariant
            i <= v@.arms.len(),
            out@ == start + lang_items(v@.ident, v@.arms, i as nat),
        decreases v@.arms.len() - i,
    {
        let ghost before = out@;
        out.append(PAIR_ARM);
        out.append(v.ident.as_str());
        out.append(COMMA);
        push_literal(out, v.arms[i].0.as_str());
        out.append(PAIR_ARROW);
        push_literal(out, v.arms[i].1.as_str());
        out.append(ARM_END);
        assert(v@.arms[i as int] == pair_view(v.arms@[i as int]));
        assert(out@ =~= before + lang_item(v@.ident, v@.arms[i as int]));
        i = i + 1;
    }
}

fn push_item(out: &mut String, v: &Variant, part: &Part)
    ensures
        final(out)@ == old(out)@ + item(v@, *part),
{
    let ghost start = out@;
    match part {
        Part::Decl => {
            out.append(DOC_OPEN);
            push_literal(out, v.fallback.as_str());
            out.append(DOC_CLOSE);
            out.append(v.ident.as_str());
            out.append(ARM_END);
        },
        Part::Code => {
            out.append(PATH_ARM);
            out.append(v.ident.as_str());
            out.append(ARROW);
            push_decimal(out, v.code);
            out.append(ARM_END);
        },
        Part::Message => {
            push_lang_items(out, v);
            out.append(PAIR_ARM);
            out.append(v.ident.as_str());
            out.append(WILD_ARROW);
            push_literal(out, v.fallback.as_str());
            out.append(ARM_END);
        },
        Part::Status => {
            out.append(PATH_ARM);
            out.append(v.ident.as_str());
            out.append(STATUS_CALL);
            push_decimal(out, v.status as i64);
            out.append(STATUS_END);
        },
    }
    assert(out@ =~= start + item(v@, *part));
}

fn push_section(out: &mut String, vs: &Vec<Variant>, part: Part)
    ensures
        final(out)@ == old(out)@ + section(vs@.map_values(|v: Variant| v@), vs@.len(), part),
{
    let ghost start = out@;
    let ghost views = vs@.map_values(|v: Variant| v@);
    let mut i: usize = 0;
    while i < vs.len()
        invariant
            views == vs@.map_values(|v: Variant| v@),
            i <= vs@.len(),
            out@ == start + section(views, i as nat, part),
        decreases vs@.len() - i,
    {
        let ghost before = out@;
        push_item(out, &vs[i], &part);
        assert(out@ =~= start + section(views, (i + 1) as nat, part));
        i = i + 1;
    }
}

fn push_path_list(out: &mut String, vs: &Vec<Variant>)
    ensures
        final(out)@ == old(out)@ + path_list(vs@.map_values(|v: Variant| v@), vs@.len()),
{
    let ghost start = out@;
    let ghost views = vs@.map_values(|v: Variant| v@);
    let mut i: usize = 0;
    while i < vs.len()
        invariant
            views == vs@.map_values(|v: Variant| v@),
            i <= vs@.len(),
            out@ == start + path_list(views, i as nat),
        decreases vs@.len() - i,
    {
        if i > 0 {
            out.append(COMMA);
        }
        out.append(PATH);
        out.append(vs[i].ident.as_str());
        assert(out@ =~= start + path_list(views, (i + 1) as nat));
        i = i + 1;
    }
}

/// The Rust source of a generated catalog.
pub fn render(g: &GeneratedCatalog) -> (r: String)
    ensures
        r@ == source(g@),
{
    let mut out = String::new();
    out.append(HEADER);
    push_section(&mut out, &g.variants, Part::Decl);
    out.append(CODE_OPEN);
    push_section(&mut out, &g.variants, Part::Code);
    out.append(MESSAGE_OPEN);
    push_literal(&mut out, g.default_language.as_str());
    out.append(MESSAGE_LANG_OPEN);
    push_section(&mut out, &g.variants, Part::Message);
    out.append(STATUS_OPEN);
    push_section(&mut out, &g.variants, Part::Status);
    out.append(LIST_OPEN);
    push_path_list(&mut out, &g.variants);
    out.append(LIST_CLOSE);
    assert(out@ =~= source(g@));
    out
}

} // verus!
