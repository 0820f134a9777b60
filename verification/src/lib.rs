//! Helpers shared by the Valence packages.
//!
//! * [`config_response`]: the data carried by a Duality `GetConfig` query response.
//! * [`syntax`]: the parts of a Rust syntax tree that the macro helpers read, held
//!   as plain values, together with the path queries those helpers rely on.
//! * [`punctuated`]: separated sequences (enum variants and their commas) and
//!   how values are appended to them.
//! * [`macro_helpers`]: the decisions taken by the Valence procedural macros
//!   (field attributes, `Option<T>` detection, argument checking, enum merging).
pub mod config_response;
pub mod macro_helpers;
pub mod punctuated;
pub mod syntax;
