//! Key generation, address encoding and address matching.

pub mod base58;
pub mod entropy;
pub mod keygen;
pub mod matcher;
