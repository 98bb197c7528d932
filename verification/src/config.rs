//! Validation of the command line into run configurations.

use vstd::prelude::*;
use crate::cli::Commands;
use crate::error::UglyError;
use vstd::string::StringSliceAdditionalSpecFns;

verus! {

/// Calls `num_cpus::get()`, the number of logical CPUs available to the process. The number
/// depends on the machine; the crate documents that it is always at least 1, which is all the
/// contract states.
#[verifier::external_body]
fn available_cpus() -> (n: usize)
    ensures
        n >= 1,
{
    num_cpus::get()
}

/// Settings of the generate command.
#[derive(Debug, Clone)]
pub struct GenerateConfig {
    pub pattern: String,
    pub threads: usize,
    pub cpu_limit_percent: u8,
    pub max_attempts: u64,
    pub output_file: String,
}

/// Settings of the benchmark command.
#[derive(Debug, Clone)]
pub struct BenchmarkConfig {
    pub duration_secs: u64,
}

/// Settings of the decrypt command.
#[derive(Debug, Clone)]
pub struct DecryptConfig {
    pub file: String,
}

/// A validated command.
pub enum AppConfig {
    Generate(GenerateConfig),
    Benchmark(BenchmarkConfig),
    Decrypt(DecryptConfig),
}

/// ASCII letter or digit.
pub open spec fn is_ascii_alnum(c: char) -> bool {
    ('0' <= c <= '9') || ('a' <= c <= 'z') || ('A' <= c <= 'Z')
}

/// A pattern is 1 to 32 ASCII alphanumeric characters.
pub open spec fn valid_pattern(p: Seq<char>) -> bool {
    &&& 1 <= p.len() <= 32
    &&& forall|i: int| 0 <= i < p.len() ==> is_ascii_alnum(#[trigger] p[i])
}

/// A requested thread count is accepted when it is between 1 and the number of CPUs.
pub open spec fn valid_threads(threads: Option<usize>, num_cpus: usize) -> bool {
    match threads {
        Some(n) => 1 <= n <= num_cpus,
        None => true,
    }
}

/// The CPU limit is a percentage between 10 and 100.
pub open spec fn valid_cpu_limit(cpu_limit: u8) -> bool {
    10 <= cpu_limit <= 100
}

/// The configuration that `from_cli_with_cpus` builds from an accepted command, and which error
/// it reports for a refused one.
pub open spec fn config_matches(command: Commands, num_cpus: usize, res: Result<AppConfig, UglyError>) -> bool {
    match command {
        Commands::Generate { pattern, threads, cpu_limit, max_attempts, output } => {
            if !valid_pattern(pattern@) {
                res matches Err(UglyError::InvalidPattern(p)) && p@ == pattern@
            } else if !valid_threads(threads, num_cpus) {
                res matches Err(UglyError::InvalidThreadCount { max }) && max == num_cpus
            } else if !valid_cpu_limit(cpu_limit) {
                res matches Err(UglyError::InvalidCpuLimit)
            } else {
                res matches Ok(AppConfig::Generate(cfg)) && {
                    &&& cfg.pattern@ == pattern@
                    &&& cfg.threads == (match threads { Some(n) => n, None => num_cpus })
                    &&& cfg.cpu_limit_percent == cpu_limit
                    &&& cfg.max_attempts == max_attempts
                    &&& cfg.output_file@ == (match output { Some(o) => o@, None => "./wallets.enc"@ })
                }
            }
        },
        Commands::Benchmark { duration } => {
            res matches Ok(AppConfig::Benchmark(cfg)) && cfg.duration_secs == duration
        },
        Commands::Decrypt { file } => {
            res matches Ok(AppConfig::Decrypt(cfg)) && cfg.file@ == file@
        },
    }
}

/// Law: for a generate command whose pattern and CPU limit (10 to 100) are valid, a requested
/// thread count from 1 up to and including the number of CPUs is accepted and kept as the
/// configured thread count, and 0 or any count above the number of CPUs is refused with
/// `InvalidThreadCount` naming the number of CPUs as the maximum.
pub proof fn lemma_thread_count_range(command: Commands, num_cpus: usize, n: usize, res: Result<AppConfig, UglyError>)
    requires
        config_matches(command, num_cpus, res),
        command is Generate,
        command->threads == Some(n),
        valid_pattern(command->pattern@),
        10 <= command->cpu_limit <= 100,
    ensures
        1 <= n <= num_cpus ==> (res matches Ok(AppConfig::Generate(cfg)) && cfg.threads == n),
        (n == 0 || n > num_cpus) ==> (res matches Err(UglyError::InvalidThreadCount { max }) && max == num_cpus),
{
}

/// Law: without a requested thread count, a valid generate command uses every CPU.
pub proof fn lemma_default_threads(command: Commands, num_cpus: usize, res: Result<AppConfig, UglyError>)
    requires
        config_matches(command, num_cpus, res),
        command is Generate,
        command->threads is None,
        valid_pattern(command->pattern@),
        10 <= command->cpu_limit <= 100,
    ensures
        res matches Ok(AppConfig::Generate(cfg)) && cfg.threads == num_cpus,
{
}

fn is_ascii_alnum_char(c: char) -> (b: bool)
    ensures
        b == is_ascii_alnum(c),
{
    ('0' <= c && c <= '9') || ('a' <= c && c <= 'z') || ('A' <= c && c <= 'Z')
}

/// Whether `pattern` is 1 to 32 ASCII alphanumeric characters.
pub fn is_valid_pattern(pattern: &str) -> (ok: bool)
    ensures
        ok == valid_pattern(pattern@),
{
    broadcast use vstd::string::is_ascii_spec_bytes;
    let byte_len = pattern.len();
    let chars = pattern.unicode_len();
    let mut i: usize = 0;
    while i < chars
        invariant
            chars == pattern@.len(),
            i <= chars,
            forall|j: int| 0 <= j < i ==> is_ascii_alnum(#[trigger] pattern@[j]),
        decreases chars - i,
    {
        if !is_ascii_alnum_char(pattern.get_char(i)) {
            return false;
        }
        i = i + 1;
    }
    proof {
        assert(vstd::string::is_ascii(pattern));
        assert(pattern.spec_bytes().len() == pattern@.len());
    }
    1 <= byte_len && byte_len <= 32
}

impl AppConfig {
    /// Validates a command against the number of available CPUs.
    pub fn from_cli_with_cpus(command: Commands, num_cpus: usize) -> (res: Result<AppConfig, UglyError>)
        ensures
            config_matches(command, num_cpus, res),
    {
        match command {
            Commands::Generate { pattern, threads, cpu_limit, max_attempts, output } => {
                if !is_valid_pattern(pattern.as_str()) {
                    return Err(UglyError::InvalidPattern(pattern));
                }
                let resolved_threads = match threads {
                    Some(n) => {
                        if n < 1 || n > num_cpus {
                            return Err(UglyError::InvalidThreadCount { max: num_cpus });
                        }
                        n
                    },
                    None => num_cpus,
                };
                if !(10 <= cpu_limit && cpu_limit <= 100) {
                    return Err(UglyError::InvalidCpuLimit);
                }
                let output_file = match output {
                    Some(o) => o,
                    None => String::from_str("./wallets.enc"),
                };
                Ok(AppConfig::Generate(GenerateConfig {
                    pattern,
                    threads: resolved_threads,
                    cpu_limit_percent: cpu_limit,
                    max_attempts,
                    output_file,
                }))
            },
            Commands::Benchmark { duration } => Ok(AppConfig::Benchmark(BenchmarkConfig { duration_secs: duration })),
            Commands::Decrypt { file } => Ok(AppConfig::Decrypt(DecryptConfig { file })),
        }
    }

    /// Validates a command, resolving the default thread count to the number of CPUs.
    pub fn from_cli(command: Commands) -> (res: Result<AppConfig, UglyError>)
        ensures
            exists|num_cpus: usize| num_cpus >= 1 && config_matches(command, num_cpus, res),
    {
        let num_cpus = available_cpus();
        let res = Self::from_cli_with_cpus(command, num_cpus);
        assert(num_cpus >= 1 && config_matches(command, num_cpus, res));
        res
    }
}

} // verus!
