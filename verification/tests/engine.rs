use ugly::benchmark::{recommend, BenchmarkSample};
use ugly::crypto::base58::encode;
use ugly::crypto::keygen::keypair_from_seed;
use ugly::decrypt::wallet_report;
use ugly::engine::{
    find_match, generation_outcome, progress_should_stop, save_match, sep, should_throttle, worker_should_stop, MatchSave,
};
use ugly::error::UglyError;
use ugly::resource::throttle::Throttler;
use ugly::storage::file::read_encrypted;
use ugly::ui::stats::{PerformanceStats, StatsCalculator};

#[test]
fn worker_stop_rules() {
    assert!(worker_should_stop(true, 0, 0));
    assert!(!worker_should_stop(false, 0, u64::MAX));
    assert!(worker_should_stop(false, 100, 100));
    assert!(!worker_should_stop(false, 100, 99));
}

#[test]
fn throttle_every_sixteenth_batch() {
    assert!(should_throttle(16));
    assert!(should_throttle(32));
    assert!(!should_throttle(17));
}

#[test]
fn outcome_of_a_run() {
    assert!(matches!(generation_outcome(true, 10, 20), Err(UglyError::Interrupted)));
    assert!(matches!(generation_outcome(true, 0, 0), Err(UglyError::Interrupted)));
    assert!(matches!(generation_outcome(false, 10, 20), Err(UglyError::NoMatchFound(10))));
    assert!(matches!(generation_outcome(false, 10, 10), Err(UglyError::NoMatchFound(10))));
    assert!(generation_outcome(false, 10, 5).is_ok());
    assert!(generation_outcome(false, 0, 1_000_000).is_ok());
}

#[test]
fn the_limit_decides_even_after_a_match() {
    // two workers, --max-attempts 4096: the other worker's batch lands after the match
    assert!(matches!(generation_outcome(false, 4096, 8192), Err(UglyError::NoMatchFound(4096))));
}

#[test]
fn progress_stops_on_match_or_when_workers_end() {
    assert!(progress_should_stop(true, false));
    assert!(progress_should_stop(false, true));
    assert!(!progress_should_stop(false, false));
}

#[test]
fn separator_is_fifty_heavy_dashes() {
    assert_eq!(sep(), "\u{2501}".repeat(50));
}

#[test]
fn find_match_returns_first_matching_key() {
    let batch = vec![keypair_from_seed(&[1u8; 32]), keypair_from_seed(&[2u8; 32]), keypair_from_seed(&[3u8; 32])];
    let second = encode(&batch[1].public_key);
    let prefix: String = second.chars().take(6).collect();
    match find_match(&batch, &prefix) {
        Some((i, addr)) => {
            assert_eq!(addr, encode(&batch[i].public_key));
            assert!(addr.starts_with(&prefix));
            assert!(i <= 1);
        }
        None => panic!("the second key matches"),
    }
    match find_match(&batch, "") {
        Some((0, _)) => {}
        _ => panic!("the empty pattern matches the first key"),
    }
    assert!(find_match(&batch, "0OIl").is_none());
}

#[test]
fn save_match_writes_then_detects_duplicate() {
    let kp = keypair_from_seed(&[9u8; 32]);
    let file = match save_match(None, &kp, 77, "pw") {
        MatchSave::Write(f) => f,
        _ => panic!("a new file is written"),
    };
    let (pubs, _, stamps) = read_encrypted(&file, "pw").unwrap();
    assert_eq!(pubs, vec![kp.public_key]);
    assert_eq!(stamps, vec![77]);
    assert!(matches!(save_match(Some(&file), &kp, 78, "pw"), MatchSave::Duplicate));
}

#[test]
fn save_match_with_wrong_password_fails() {
    let kp = keypair_from_seed(&[9u8; 32]);
    let file = match save_match(None, &kp, 77, "pw") {
        MatchSave::Write(f) => f,
        _ => panic!("a new file is written"),
    };
    assert!(matches!(save_match(Some(&file), &kp, 78, "other"), MatchSave::Failed(UglyError::DecryptionFailed)));
}

#[test]
fn throttler_decisions() {
    let mut full = Throttler::new(100);
    let s = full.maybe_sleep(1_000_000_000);
    assert_eq!((s.sleep_nanos, s.reset_clock), (0, false));

    let mut t = Throttler::new(95);
    let s = t.maybe_sleep(50_000_000);
    assert_eq!((s.sleep_nanos, s.reset_clock), (0, false));
    let s = t.maybe_sleep(100_000_000);
    assert_eq!((s.sleep_nanos, s.reset_clock), (5_263_158, true));
    let s = t.maybe_sleep(1);
    assert_eq!((s.sleep_nanos, s.reset_clock), (5_263_158, false));

    let mut near_full = Throttler::new(99);
    let s = near_full.maybe_sleep(100_000_000);
    assert_eq!((s.sleep_nanos, s.reset_clock), (1_010_102, true));
}

#[test]
fn throttle_keeps_half_limit_at_half_the_time() {
    // one second of work at a 50 % limit is followed by one second of sleep
    let mut half = Throttler::new(50);
    let s = half.maybe_sleep(1_000_000_000);
    assert_eq!((s.sleep_nanos, s.reset_clock), (1_000_000_000, true));
    let w: u128 = 1_000_000_000;
    assert!(100 * w <= 50 * (w + s.sleep_nanos));
}

#[test]
fn recommends_fastest_and_last_of_ties() {
    let s = |threads: usize, attempts: u64, elapsed_nanos: u64| BenchmarkSample { threads, attempts, elapsed_nanos };
    assert_eq!(recommend(&vec![]), None);
    assert_eq!(recommend(&vec![s(1, 100, 10), s(2, 300, 10), s(3, 250, 10)]), Some(1));
    assert_eq!(recommend(&vec![s(1, 100, 10), s(2, 200, 20)]), Some(1));
    assert_eq!(recommend(&vec![s(1, 5, 10), s(2, 1000, 0)]), Some(0));
}

#[test]
fn stats_track_deltas() {
    let mut calc = StatsCalculator::new();
    let a = calc.calculate(100);
    assert_eq!((a.attempts_delta, a.total_attempts), (100, 100));
    let b = calc.calculate(250);
    assert_eq!((b.attempts_delta, b.total_attempts), (150, 250));
    assert_eq!(a.interval_nanos, a.elapsed_nanos);
    assert_eq!(b.interval_nanos, b.elapsed_nanos - a.elapsed_nanos);
    let c = calc.calculate(10);
    assert_eq!(c.attempts_delta, 0);
    assert!(calc.elapsed() >= c.elapsed_nanos);
}

#[test]
fn sample_rate_in_hundredths() {
    let s = |attempts_delta: u64, interval_nanos: u128| PerformanceStats {
        attempts_delta,
        interval_nanos,
        elapsed_nanos: interval_nanos,
        total_attempts: attempts_delta,
    };
    assert_eq!(s(150, 0).rate_hundredths(), 0);
    assert_eq!(s(40_523, 1_000_000_000).rate_hundredths(), 4_052_300);
    assert_eq!(s(1, 3_000_000_000).rate_hundredths(), 33);
    assert_eq!(s(2, 3_000_000_000).rate_hundredths(), 67);
    assert_eq!(s(1, 200_000_000_000).rate_hundredths(), 1);
    assert_eq!(s(u64::MAX, 1).rate_hundredths(), u64::MAX);
}

#[test]
fn report_for_one_wallet() {
    let kp = keypair_from_seed(&[1u8; 32]);
    let lines = wallet_report(&(vec![kp.public_key], vec![kp.private_key], vec![0]));
    assert_eq!(lines.len(), 10);
    assert_eq!(lines[0], "");
    assert_eq!(lines[1], "\u{1f513} Decrypted Wallet Information");
    assert_eq!(lines[2], "\u{2501}".repeat(50));
    assert_eq!(lines[3], "  Wallet #1:");
    assert_eq!(lines[4], format!("    Public Key:  {}", encode(&kp.public_key)));
    assert_eq!(lines[5], format!("    Private Key: {}", encode(&kp.private_key)));
    assert_eq!(lines[6], "    Created:     1970-01-01 00:00:00 UTC");
    assert_eq!(lines[8], "  Total wallets: 1");
}

#[test]
fn report_for_no_wallets_and_separator_between_two() {
    let lines = wallet_report(&(vec![], vec![], vec![]));
    assert_eq!(lines[3], "  No wallets found in file.");
    assert_eq!(lines[5], "  Total wallets: 0");
    let kp = keypair_from_seed(&[1u8; 32]);
    let two = wallet_report(&(vec![kp.public_key; 2], vec![kp.private_key; 2], vec![0, 86_400]));
    assert_eq!(two[7], format!("  {}", "\u{2500}".repeat(46)));
    assert_eq!(two[11], "    Created:     1970-01-02 00:00:00 UTC");
    assert_eq!(two[13], "  Total wallets: 2");
}
