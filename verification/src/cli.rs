//! Command-line commands, as plain values.

use vstd::prelude::*;

verus! {

/// The parsed command line.
pub struct Cli {
    pub command: Commands,
}

/// The subcommands.
pub enum Commands {
    /// Generate a vanity address matching a pattern.
    Generate {
        /// Pattern to match at the beginning of the address (prefix match).
        pattern: String,
        /// Number of threads to use (default: auto-detect CPU cores).
        threads: Option<usize>,
        /// CPU usage limit percentage (10-100, default: 85).
        cpu_limit: u8,
        /// Maximum number of attempts before giving up (0 = infinite).
        max_attempts: u64,
        /// Output file for encrypted wallet storage.
        output: Option<String>,
    },
    /// Benchmark key generation performance.
    Benchmark {
        /// Benchmark duration in seconds (default: 10).
        duration: u64,
    },
    /// Decrypt and display stored wallet information.
    Decrypt {
        /// Encrypted wallet file to decrypt.
        file: String,
    },
}

} // verus!
