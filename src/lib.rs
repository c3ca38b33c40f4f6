//! Relay style cursor pagination: the page of records that a connection
//! returns for the arguments `first`, `after`, `last` and `before`, with its
//! page information.
//!
//! - `cursor`: cursors and their text, with the round-trip law each cursor
//!   type proves, and decimal cursors for `i32` and `i64`.
//! - `connection`: the node trait, the connection types and the builder.
//! - `id_node`: a record identified by an integer id.
//! - `laws`: properties that relate several calls.

pub mod cursor;
pub mod connection;
pub mod id_node;
pub mod laws;
