//! A small line-oriented configuration format: `key = value` assignments,
//! `#` comments, quoted values and `@directive` lines, with a registry of
//! named value types and lookups that follow chains of aliases.
//!
//! [`aaml::AAML`] is the engine. It takes in text line by line
//! ([`syntax`] has the grammar of a line), fills a [`document::Document`],
//! the [`store::Store`] of keys and values together with the registry of
//! types ([`types`], [`commands::typecm`]), and runs the handlers of
//! directives ([`commands`]). It reads no file: where a directive asks for
//! one, the engine stops and says so, and goes on when it is told to.
//! [`builder::AAMBuilder`] assembles text that the engine can take in.

pub mod aaml;
pub mod builder;
pub mod commands;
pub mod document;
pub mod error;
pub mod found_value;
pub mod imports;
pub mod number;
pub mod store;
pub mod syntax;
pub mod text;
pub mod types;
