//! Line-oriented text search: the lines of a document that contain a query,
//! with or without regard to case.
//!
//! [`search`] is the line matcher. It splits the document into lines
//! ([`lines`]), forms the comparison key of the query and of each line under
//! a [`CasePolicy`] ([`case`]), and keeps the lines whose key contains the
//! key of the query ([`substring`]). [`Config`] and [`run`] carry the
//! settings of a command line run to it.

pub mod case;
pub mod config;
pub mod lines;
pub mod search;
pub mod substring;
pub mod text;

pub use case::CasePolicy;
pub use config::{run, Config};
pub use search::{search, search_case_insensitive, search_case_sensitive};
