//! A library for extracting PostgreSQL enum types from parsed SQL and representing them in Rust.
//! This is intended to be used as a helper for code generation in Ruby projects, but it can be
//! used anywhere you might want to statically analyze PostgreSQL enum types.
//!
//! Every function states in its contract what it returns, over views of the types in which
//! strings are sequences of characters; [`behaviour`] says by positions and fields what each
//! operation does, and [`laws`] states what holds across functions.
pub mod behaviour;
pub mod builder;
pub mod database;
pub mod digest;
pub mod enum_type;
pub mod error;
pub mod index;
pub mod laws;
mod print;
pub mod representation;
pub mod sql;
mod string_map;
pub mod text;

pub use builder::{DatabaseBuilder, SQLParsingOptions};
pub use database::Database;
pub use enum_type::EnumType;
pub use error::PGEnumError;
pub use representation::{DatabaseV1, RON_VERSION};
pub use sql::{ListNode, ObjectNode, ObjectType, Statement};
