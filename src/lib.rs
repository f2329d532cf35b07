//! A configuration-resolution engine for command-line programs.
//!
//! A [`schema::Schema`] lists typed parameters and boolean switches.
//! Partial layers ([`layer::PartialLayer`]) coming from configuration files are
//! folded with "first wins" precedence, command-line flags are tokenized on top
//! of the result with "always wins" precedence, and the merged layer is
//! validated into a total [`validate::ResolvedConfig`].

pub mod schema;
pub mod names;
pub mod layer;
pub mod validate;
pub mod tokenize;
pub mod resolve;
