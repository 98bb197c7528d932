//! The error type shared by configuration, storage and generation.

use vstd::prelude::*;

verus! {

/// `std::io::Error`, carried by `UglyError::IoError`.
#[verifier::external_type_specification]
#[verifier::external_body]
pub struct ExIoError(std::io::Error);

/// `ed25519_dalek::SignatureError`, carried by `UglyError::KeyGenerationFailed`.
#[verifier::external_type_specification]
#[verifier::external_body]
pub struct ExSignatureError(ed25519_dalek::SignatureError);

/// Everything that can go wrong in the generator.
#[derive(Debug)]
pub enum UglyError {
    /// The pattern is not 1 to 32 ASCII alphanumeric characters.
    InvalidPattern(String),
    /// The thread count is outside `1..=max`.
    InvalidThreadCount { max: usize },
    /// The CPU limit is outside `10..=100`.
    InvalidCpuLimit,
    /// Memory use above the limit, in MB.
    MemoryLimitExceeded(u64),
    /// Key generation failed.
    KeyGenerationFailed(ed25519_dalek::SignatureError),
    /// Key derivation or encryption failed, with the cause.
    EncryptionFailed(String),
    /// Wrong password or corrupted file.
    DecryptionFailed,
    /// The file does not start with the expected header.
    InvalidFileFormat,
    /// A file operation failed.
    IoError(std::io::Error),
    /// The password could not be read.
    PasswordReadFailed,
    /// No match within the given number of attempts.
    NoMatchFound(u64),
    /// The benchmark was interrupted.
    BenchmarkInterrupted,
    /// Generation was interrupted by the user.
    Interrupted,
}

/// Result type of the library.
pub type Result<T> = core::result::Result<T, UglyError>;

} // verus!
