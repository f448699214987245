//! Lenient conversion of LLM output into typed values: error reporting,
//! the integer and text coercions behind the primitive deserializers, and the
//! decisions the `LlmDeserialize` derive makes about the types it is given.

pub mod text;
pub mod error;
pub mod rename;
pub mod attributes;
pub mod derive_plan;
pub mod value;
pub mod numbers;
pub mod primitives;
pub mod collections;
pub mod number_text;
