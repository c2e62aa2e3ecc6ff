//! The whole transformation: document to catalog, validation, emission and
//! rendering, failing on the first error.
use vstd::prelude::*;
use crate::emit::{emission, emit};
use crate::render::{render, source};
use crate::schema::{catalog_from_doc, load, CatalogView, Doc, ErrorCatalog, SchemaError, SchemaErrorView};
use crate::validate::{validate, validation, ValidationError, ValidationErrorView};

verus! {

/// Why a schema could not be compiled.
#[derive(Debug, Clone, PartialEq, Eq)]
pub enum CompileError {
    /// The text is not a well-formed document; the parser's message.
    Parse(String),
    Schema(SchemaError),
    Validation(ValidationError),
}

pub enum CompileErrorView {
    Parse(Seq<char>),
    Schema(SchemaErrorView),
    Validation(ValidationErrorView),
}

impl View for CompileError {
    type V = CompileErrorView;

    open spec fn view(&self) -> CompileErrorView {
        match self {
            CompileError::Parse(m) => CompileErrorView::Parse(m@),
            CompileError::Schema(e) => CompileErrorView::Schema(e@),
            CompileError::Validation(e) => CompileErrorView::Validation(e@),
        }
    }
}

/// The source generated for a catalog, or the first validation failure.
pub open spec fn generation(c: CatalogView) -> Result<Seq<char>, ValidationErrorView> {
    match validation(c) {
        Err(e) => Err(e),
        Ok(()) => Ok(source(emission(c))),
    }
}

/// The source generated for a document, or the first failure.
pub open spec fn compilation(doc: Doc) -> Result<Seq<char>, CompileErrorView> {
    match load(doc) {
        Err(e) => Err(CompileErrorView::Schema(e)),
        Ok(c) => match generation(c) {
            Err(e) => Err(CompileErrorView::Validation(e)),
            Ok(s) => Ok(s),
        },
    }
}

/// Validates a catalog and renders its generated source.
pub fn generate_from_catalog(c: &ErrorCatalog) -> (r: Result<String, ValidationError>)
    ensures
        match r {
            Ok(s) => generation(c@) == Ok::<Seq<char>, ValidationErrorView>(s@),
            Err(e) => generation(c@) == Err::<Seq<char>, ValidationErrorView>(e@),
        },
{
    match validate(c) {
        Err(e) => Err(e),
        Ok(()) => {
            let g = emit(c);
            Ok(render(&g))
        },
    }
}

/// Compiles a structured document: extracts the catalog, validates it and
/// renders its generated source.
pub fn generate_from_doc(doc: &Doc) -> (r: Result<String, CompileError>)
    ensures
        match r {
            Ok(s) => compilation(*doc) == Ok::<Seq<char>, CompileErrorView>(s@),
            Err(e) => compilation(*doc) == Err::<Seq<char>, CompileErrorView>(e@),
        },
{
    match catalog_from_doc(doc) {
        Err(e) => Err(CompileError::Schema(e)),
        Ok(c) => match generate_from_catalog(&c) {
            Err(e) => Err(CompileError::Validation(e)),
            Ok(s) => Ok(s),
        },
    }
}

} // verus!
