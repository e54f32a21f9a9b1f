//! JSON Schema generation for the types of a BAML intermediate representation,
//! and the dispatch layer over the primitive LLM client providers.

pub mod json;
pub mod field_type;
pub mod ir;
pub mod schema;
pub mod provider;
