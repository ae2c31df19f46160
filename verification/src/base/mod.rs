//! Primitive types shared by every engine: prices, sides, identifiers,
//! exact integer arithmetic and bounded buffers.
pub mod arith;
pub mod bounded;
pub mod dash;
pub mod json;
pub mod order;
pub mod schema;
pub mod sort;
pub mod split;
pub mod text;
pub mod text_laws;
pub mod types;
pub mod wire;
