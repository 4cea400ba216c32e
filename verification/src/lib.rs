//! A content-addressed revision engine for file attachments.
//!
//! Files live in containers (pages). Every change to a file appends one
//! immutable revision to that file's chain, uploaded content is recorded once
//! per digest with a count of the revisions that point to it, and among the
//! live files of one container no name occurs twice.

pub mod blob;
pub mod error;
pub mod file;
pub mod laws;
pub mod markup;
pub mod purge;
pub mod reference;
pub mod revision;
pub mod service;
pub mod store;
pub mod text;
pub mod value;
