//! The decisions of the generation engine: when a worker stops, which key of a batch matches,
//! how a match is saved, and how a run ends.

use vstd::prelude::*;
use crate::crypto::base58::{base58_encode, encode_into};
use crate::crypto::keygen::WalletKeyPair;
use crate::crypto::matcher::matches_prefix;
use crate::error::UglyError;
use crate::text::{repeat_seq, repeat_str};
use crate::storage::encrypt::{password_fits, AES_GCM_P_MAX};
use crate::storage::file::{
    append_wallet_entry, contains_public_key, holds_public_key, prior_entries, read_outcome,
    ReadFailure, WalletEntry,
};

verus! {

/// Batch size for key generation.
pub const BATCH_SIZE: usize = 4096;

/// Batches between two throttle checks of a worker.
pub const THROTTLE_CHECK_EVERY: u64 = 16;

/// Separator line for output formatting: 50 heavy box-drawing dashes (`━`).
pub fn sep() -> (line: String)
    ensures
        line@ == repeat_seq(seq!['\u{2501}'], 50),
{
    proof {
        reveal_strlit("\u{2501}");
        assert("\u{2501}"@ =~= seq!['\u{2501}']);
    }
    repeat_str("\u{2501}", 50)
}

/// The key's address starts with the pattern.
pub open spec fn key_matches(kp: WalletKeyPair, pattern: Seq<char>) -> bool {
    pattern.is_prefix_of(base58_encode(kp.public_key@))
}

/// A worker stops once a match was found, or once the attempts reached a nonzero limit
/// (a limit of 0 means no limit).
pub fn worker_should_stop(match_found: bool, max_attempts: u64, total_attempts: u64) -> (stop: bool)
    ensures
        stop == (match_found || (max_attempts > 0 && total_attempts >= max_attempts)),
{
    match_found || (max_attempts > 0 && total_attempts >= max_attempts)
}

/// What a finished batch adds to the shared attempt counter: nothing when it held a match
/// (its worker hands the match over and stops), else the whole batch.
pub fn attempts_for_batch(found_match: bool) -> (n: u64)
    ensures
        n == (if found_match { 0 } else { BATCH_SIZE as u64 }),
{
    if found_match {
        0
    } else {
        BATCH_SIZE as u64
    }
}

/// A worker runs the throttler after every `THROTTLE_CHECK_EVERY`-th batch.
pub fn should_throttle(batch_counter: u64) -> (check: bool)
    ensures
        check == (batch_counter % THROTTLE_CHECK_EVERY == 0),
{
    batch_counter % THROTTLE_CHECK_EVERY == 0
}

/// Scans a batch in order and returns the first keypair whose address starts with the
/// pattern, with that address.
pub fn find_match(batch: &Vec<WalletKeyPair>, pattern: &str) -> (found: Option<(usize, String)>)
    ensures
        match found {
            Some((i, address)) => {
                &&& i < batch@.len()
                &&& address@ == base58_encode(batch@[i as int].public_key@)
                &&& key_matches(batch@[i as int], pattern@)
                &&& forall|j: int| 0 <= j < i ==> !key_matches(#[trigger] batch@[j], pattern@)
            },
            None => forall|j: int| 0 <= j < batch@.len() ==> !key_matches(#[trigger] batch@[j], pattern@),
        },
{
    let n = batch.len();
    let mut i: usize = 0;
    while i < n
        invariant
            n == batch@.len(),
            i <= n,
            forall|j: int| 0 <= j < i ==> !key_matches(#[trigger] batch@[j], pattern@),
        decreases n - i,
    {
        let mut address = String::new();
        encode_into(batch[i].public_key.as_slice(), &mut address);
        assert(address@ =~= base58_encode(batch@[i as int].public_key@));
        if matches_prefix(address.as_str(), pattern) {
            return Some((i, address));
        }
        i = i + 1;
    }
    None
}

/// How a run of the generator ends: interrupted by the user; given up (no match) when the
/// attempts reached a nonzero limit; done otherwise.
pub fn generation_outcome(shutdown_requested: bool, max_attempts: u64, final_attempts: u64) -> (res: Result<(), UglyError>)
    ensures
        shutdown_requested ==> res matches Err(UglyError::Interrupted),
        !shutdown_requested && max_attempts > 0 && final_attempts >= max_attempts
            ==> (res matches Err(UglyError::NoMatchFound(m)) && m == max_attempts),
        !shutdown_requested && !(max_attempts > 0 && final_attempts >= max_attempts) ==> res is Ok,
{
    if shutdown_requested {
        return Err(UglyError::Interrupted);
    }
    if max_attempts > 0 && final_attempts >= max_attempts {
        return Err(UglyError::NoMatchFound(max_attempts));
    }
    Ok(())
}

/// The progress display stops once a match was found or every worker has stopped.
pub fn progress_should_stop(match_found: bool, workers_done: bool) -> (stop: bool)
    ensures
        stop == (match_found || workers_done),
{
    match_found || workers_done
}

/// What becomes of a found key.
pub enum MatchSave {
    /// The output file already holds this public key; nothing is written.
    Duplicate,
    /// The new contents of the output file.
    Write(Vec<u8>),
    /// Saving failed.
    Failed(UglyError),
}

/// The result of saving a found keypair over the existing file contents.
pub open spec fn save_outcome(existing: Option<Seq<u8>>, keypair: WalletKeyPair, timestamp: u64, password: Seq<char>, out: MatchSave) -> bool {
    let entry: WalletEntry = (keypair.public_key@, keypair.private_key@, timestamp);
    match prior_entries(existing, password) {
        Err(_) => out is Failed,
        Ok(es) => {
            if existing is Some && holds_public_key(es, keypair.public_key@) {
                out is Duplicate
            } else {
                &&& !(out is Duplicate)
                &&& (out is Write <==> password_fits(password) && 104 * (es.len() + 1) <= AES_GCM_P_MAX)
                &&& out matches MatchSave::Write(file) ==> read_outcome(file@, password)
                    == Ok::<Seq<WalletEntry>, ReadFailure>(es.push(entry))
                &&& out matches MatchSave::Failed(e) ==> e is EncryptionFailed
            }
        },
    }
}

/// Law: saving a found key over a file that reads under the password as the entries `es`, none
/// of which has the key's public key, is never skipped as a duplicate, and the file it writes
/// reads under the same password as every earlier entry, in order, followed by the new one.
pub proof fn lemma_save_keeps_earlier_entries(
    file: Seq<u8>,
    keypair: WalletKeyPair,
    timestamp: u64,
    password: Seq<char>,
    es: Seq<WalletEntry>,
    out: MatchSave,
)
    requires
        save_outcome(Some(file), keypair, timestamp, password, out),
        read_outcome(file, password) == Ok::<Seq<WalletEntry>, ReadFailure>(es),
        forall|i: int| 0 <= i < es.len() ==> (#[trigger] es[i]).0 != keypair.public_key@,
    ensures
        !(out is Duplicate),
        out matches MatchSave::Write(new_file) ==> ({
            let after = read_outcome(new_file@, password);
            &&& after matches Ok(es2)
            &&& es2.len() == es.len() + 1
            &&& forall|i: int| 0 <= i < es.len() ==> #[trigger] es2[i] == es[i]
            &&& es2[es.len() as int] == (keypair.public_key@, keypair.private_key@, timestamp)
        }),
{
    assert(!holds_public_key(es, keypair.public_key@));
}

/// Law: a found key whose public key the file already holds (under the password) is skipped:
/// nothing is written.
pub proof fn lemma_save_skips_duplicate(
    file: Seq<u8>,
    keypair: WalletKeyPair,
    timestamp: u64,
    password: Seq<char>,
    es: Seq<WalletEntry>,
    i: int,
    out: MatchSave,
)
    requires
        save_outcome(Some(file), keypair, timestamp, password, out),
        read_outcome(file, password) == Ok::<Seq<WalletEntry>, ReadFailure>(es),
        0 <= i < es.len(),
        es[i].0 == keypair.public_key@,
    ensures
        out is Duplicate,
{
    assert(holds_public_key(es, keypair.public_key@));
}

/// Law: with no existing file, the file written holds exactly the new entry.
pub proof fn lemma_save_starts_new_file(keypair: WalletKeyPair, timestamp: u64, password: Seq<char>, out: MatchSave)
    requires
        save_outcome(None, keypair, timestamp, password, out),
    ensures
        out matches MatchSave::Write(new_file) ==> read_outcome(new_file@, password)
            == Ok::<Seq<WalletEntry>, ReadFailure>(seq![(keypair.public_key@, keypair.private_key@, timestamp)]),
{
    assert(Seq::<WalletEntry>::empty().push((keypair.public_key@, keypair.private_key@, timestamp))
        =~= seq![(keypair.public_key@, keypair.private_key@, timestamp)]);
}

/// Decides how a found keypair is saved: skipped when the existing output file already holds its
/// public key, else appended to the file's entries (or to a new file) and re-encrypted.
/// A file that cannot be read with the password is not a duplicate; appending then fails.
pub fn save_match(existing_file: Option<&[u8]>, keypair: &WalletKeyPair, timestamp: u64, password: &str) -> (out: MatchSave)
    ensures
        save_outcome(match existing_file { Some(f) => Some(f@), None => None }, *keypair, timestamp, password@, out),
{
    if let Some(data) = existing_file {
        match contains_public_key(data, password, &keypair.public_key) {
            Ok(true) => {
                return MatchSave::Duplicate;
            },
            _ => {},
        }
    }
    match append_wallet_entry(existing_file, &keypair.public_key, &keypair.private_key, timestamp, password) {
        Ok(file) => MatchSave::Write(file),
        Err(e) => MatchSave::Failed(e),
    }
}

} // verus!
