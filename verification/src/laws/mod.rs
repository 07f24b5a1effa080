//! What the operations of the library come to, said of their inputs and results.
//!
//! The contracts say what each function returns; the laws here relate what goes in to what
//! comes out, in numbers and texts, so that a contract that names the wrong thing does not
//! meet them.
pub mod candidates;
pub mod code;
pub mod conflicts;
pub mod dashboard;
pub mod documents;
pub mod domains;
pub mod files;
pub mod governance;
pub mod indexing;
pub mod ingest;
pub mod knowledge;
pub mod lang;
pub mod legacy;
pub mod listing;
pub mod market;
pub mod names;
pub mod notify;
pub mod pdf;
pub mod questions;
pub mod recall;
pub mod registry;
pub mod search;
pub mod session;
pub mod settings;
pub mod skill;
pub mod status;
pub mod symbols;
pub mod text;
pub mod tools;
pub mod train;
