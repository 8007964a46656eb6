//! Keys from passwords, and the sealing of bytes under a key.

pub mod cipher;
pub mod encoding;
pub mod key_derivation;
