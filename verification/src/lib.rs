//! An offline credential vault: a tree of groups and entries, sealed into one
//! password-protected file.
//!
//! The crate holds the vault's logic with its contracts: key derivation,
//! authenticated encryption, the framing of the vault file, and the owned tree
//! of groups and entries with lookup by id. Reading and writing the file and
//! turning the tree into text are left to the caller.

pub mod crypto;
pub mod models;
pub mod utils;
