//! An ASCII DXF drawing codec: a code-pair lexer and emitter, a typed
//! entity/table/header model with version-gated encoding, and a sectioned
//! drawing reader and writer, all with proved contracts.
pub mod color;
pub mod double;
pub mod drawing;
pub mod entities;
pub mod entity;
pub mod entity_codec;
pub mod enums;
pub mod error;
pub mod header;
pub mod laws;
pub mod lexer;
pub mod num;
pub mod point;
pub mod tables;
pub mod value;
pub mod writer;
