//! The logic of a knowledge layer for coding agents: what is learned, ingested and
//! recalled, how far it is trusted, what a domain enforces, what is logged, and what the
//! tools, the status board and the reports say of it.
//!
//! Every function states what it does over a model of the rows that it works on, and
//! Verus holds it to that. Files, sockets, databases, screens and floating point stand
//! outside this crate; they hand it plain values and take plain values back. What the
//! crate takes on trust from outside crates and from std is marked at the items that
//! make the calls.
pub mod calendar;
pub mod codebase;
pub mod compliance;
pub mod dashboard;
pub mod embed;
pub mod gate;
pub mod health;
pub mod hex;
pub mod html;
pub mod index;
pub mod ingest;
pub mod json;
pub mod lang;
pub mod laws;
pub mod like;
pub mod marketplace;
pub mod media;
pub mod notify;
pub mod order;
pub mod pdf;
pub mod redact;
pub mod search;
pub mod session;
pub mod settings;
pub mod skill;
pub mod status;
pub mod store;
pub mod symbols;
pub mod table;
pub mod text;
pub mod tools;
pub mod train;
pub mod types;
pub mod unicode;
