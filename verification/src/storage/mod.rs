//! Password-based encryption and the encrypted wallet file format.

pub mod encrypt;
pub mod file;
