//! Error-catalog compiler: turns a declarative schema of business error codes
//! into Rust source for a closed, exhaustively matched error-code enum, and
//! the runtime types that generated code plugs into.
pub mod compile;
pub mod emit;
pub mod ident;
pub mod laws;
pub mod reading;
pub mod render;
pub mod response;
pub mod schema;
pub mod text;
pub mod validate;
pub mod yaml;

pub use compile::{generate_from_catalog, generate_from_doc, CompileError};
pub use emit::{emit, GeneratedCatalog, Variant};
pub use ident::to_pascal_case;
pub use render::render;
pub use response::{AppError, ErrorCode, ErrorResponse};
pub use schema::{catalog_from_doc, Doc, ErrorCatalog, ErrorEntry, SchemaError};
pub use validate::{validate, ValidationError};
pub use yaml::{generate_from_config, generate_from_yaml};
