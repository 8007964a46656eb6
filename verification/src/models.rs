//! The credential tree and what stores it.

pub mod database;
pub mod entry;
pub mod group;
pub mod ident;
pub mod keyed;
pub mod repository;
pub mod text;
pub mod timestamp;
