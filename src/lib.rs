//! Schema-driven conversion of typed BDAT tables to and from a JSON document
//! model, with the label, filter, name-resolution and file-schema logic around it.

pub mod label;
pub mod value;
pub mod table;
pub mod names;
pub mod filter;
pub mod schema;
pub mod json;
pub mod export;
pub mod batch;
