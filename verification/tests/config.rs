use ugly::cli::Commands;
use ugly::config::{is_valid_pattern, AppConfig};
use ugly::error::UglyError;

fn generate(pattern: &str, threads: Option<usize>, cpu_limit: u8, output: Option<&str>) -> Commands {
    Commands::Generate {
        pattern: pattern.to_string(),
        threads,
        cpu_limit,
        max_attempts: 0,
        output: output.map(|s| s.to_string()),
    }
}

#[test]
fn accepts_valid_generate_with_defaults() {
    match AppConfig::from_cli_with_cpus(generate("moda", None, 85, None), 8) {
        Ok(AppConfig::Generate(cfg)) => {
            assert_eq!(cfg.pattern, "moda");
            assert_eq!(cfg.threads, 8);
            assert_eq!(cfg.cpu_limit_percent, 85);
            assert_eq!(cfg.max_attempts, 0);
            assert_eq!(cfg.output_file, "./wallets.enc");
        }
        _ => panic!("expected a generate config"),
    }
}

#[test]
fn keeps_explicit_threads_and_output() {
    match AppConfig::from_cli_with_cpus(generate("A1", Some(3), 10, Some("out.enc")), 4) {
        Ok(AppConfig::Generate(cfg)) => {
            assert_eq!(cfg.threads, 3);
            assert_eq!(cfg.cpu_limit_percent, 10);
            assert_eq!(cfg.output_file, "out.enc");
        }
        _ => panic!("expected a generate config"),
    }
}

#[test]
fn rejects_bad_patterns() {
    let long = "a".repeat(33);
    for p in ["", "ab-c", "\u{fc}ber", long.as_str()] {
        match AppConfig::from_cli_with_cpus(generate(p, None, 85, None), 8) {
            Err(UglyError::InvalidPattern(got)) => assert_eq!(got, p),
            _ => panic!("pattern {:?} should be refused", p),
        }
    }
    assert!(is_valid_pattern(&"Z".repeat(32)));
    assert!(!is_valid_pattern("a b"));
}

#[test]
fn rejects_bad_thread_counts() {
    for t in [0usize, 9] {
        match AppConfig::from_cli_with_cpus(generate("abc", Some(t), 85, None), 8) {
            Err(UglyError::InvalidThreadCount { max }) => assert_eq!(max, 8),
            _ => panic!("thread count {} should be refused", t),
        }
    }
}

#[test]
fn rejects_bad_cpu_limits() {
    for c in [9u8, 101, 0, 255] {
        assert!(matches!(
            AppConfig::from_cli_with_cpus(generate("abc", None, c, None), 8),
            Err(UglyError::InvalidCpuLimit)
        ));
    }
    assert!(AppConfig::from_cli_with_cpus(generate("abc", None, 100, None), 8).is_ok());
}

#[test]
fn pattern_checked_before_threads_and_cpu() {
    assert!(matches!(
        AppConfig::from_cli_with_cpus(generate("", Some(0), 5, None), 8),
        Err(UglyError::InvalidPattern(_))
    ));
    assert!(matches!(
        AppConfig::from_cli_with_cpus(generate("ok", Some(0), 5, None), 8),
        Err(UglyError::InvalidThreadCount { .. })
    ));
}

#[test]
fn benchmark_and_decrypt_pass_through() {
    match AppConfig::from_cli_with_cpus(Commands::Benchmark { duration: 10 }, 1) {
        Ok(AppConfig::Benchmark(cfg)) => assert_eq!(cfg.duration_secs, 10),
        _ => panic!("expected a benchmark config"),
    }
    match AppConfig::from_cli(Commands::Decrypt { file: "w.enc".to_string() }) {
        Ok(AppConfig::Decrypt(cfg)) => assert_eq!(cfg.file, "w.enc"),
        _ => panic!("expected a decrypt config"),
    }
}

#[test]
fn from_cli_uses_available_cpus() {
    match AppConfig::from_cli(generate("abc", None, 85, None)) {
        Ok(AppConfig::Generate(cfg)) => assert!(cfg.threads >= 1),
        _ => panic!("expected a generate config"),
    }
}
