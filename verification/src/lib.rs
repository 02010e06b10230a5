//! Object mapping over a key-value store's hash, document and stream
//! structures: annotation parsing, the validated container model, the flat
//! field codec and the search schema.

pub mod attr;
pub mod casing;
pub mod codec;
pub mod command;
pub mod common;
pub mod container;
pub mod container_attr;
pub mod derive;
pub mod diag;
pub mod field;
pub mod hash_model;
pub mod json_model;
pub mod keys;
pub mod meta;
pub mod metalist;
pub mod name;
pub mod parse;
pub mod redis_model;
pub mod round_trip;
pub mod schema;
pub mod stream_model;
pub mod symbol;
pub mod text;
pub mod types;
pub mod value;
pub mod variant;
pub mod wire;
