//! What stands beside the vault: the making and the judging of passwords.

pub mod chars;
pub mod password_analyzer;
pub mod password_audit;
pub mod password_generator;
