//! Tool federation: a JSON-RPC tool client session, a table of built-in tools,
//! and a catalog that merges built-in and remote tools under one namespace.
pub mod catalog;
pub mod config;
pub mod handlers;
pub mod json;
pub mod keyed;
pub mod protocol;
pub mod text;
pub mod tools;
