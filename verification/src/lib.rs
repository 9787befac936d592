//! Structured values, point identifiers and usage counters, verified.
//!
//! - [`value`]: a JSON-like tagged value with variant checks and
//!   variant-checked accessors; [`equality`] compares two values.
//! - [`text`]: the text rendering of a value.
//! - [`json`]: the conversion of a value to a `serde_json::Value`.
//! - [`ordered_map`]: the insertion-ordered map that holds the fields of a
//!   struct, the payload of a point and the models of a usage.
//! - [`point`] and [`point_id`]: point records, the lookup of a payload value
//!   by key, and point identifiers.
//! - [`usage`]: usage counters and their merge, with the laws of the merge.
//!
//! Every function is verified against the contract written on it. The few
//! functions that call into `std`, `serde_json` or `uuid` without proof are
//! marked `external_body`; their doc comments say what is taken on trust.
//!
//! Floating point never enters the crate. A double is carried as its IEEE-754
//! binary64 bit pattern, and the two functions that need a double rendered,
//! `Value::to_text` and `Value::into_json`, take the
//! rendering from the caller.


pub mod equality;
pub mod error;
pub mod json;
pub mod ordered_map;
pub mod point;
pub mod point_id;
pub mod text;
pub mod usage;
pub mod value;
