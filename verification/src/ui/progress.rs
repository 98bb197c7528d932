//! Text of the progress line.

use vstd::prelude::*;
use crate::text::{grouped_decimal, padded_decimal, push_grouped, push_padded};

verus! {

/// `HH:MM:SS` for a number of seconds; the hours take as many digits as they need.
pub open spec fn clock_text(secs: u64) -> Seq<char> {
    padded_decimal((secs / 3600) as nat, 2) + seq![':'] + padded_decimal(((secs % 3600) / 60) as nat, 2)
        + seq![':'] + padded_decimal((secs % 60) as nat, 2)
}

fn push_clock(buf: &mut String, secs: u64)
    ensures
        final(buf)@ == old(buf)@ + clock_text(secs),
{
    push_padded(buf, secs / 3600, 2);
    buf.append(":");
    push_padded(buf, (secs % 3600) / 60, 2);
    buf.append(":");
    push_padded(buf, secs % 60, 2);
    proof {
        reveal_strlit(":");
        assert(buf@ =~= old(buf)@ + clock_text(secs));
    }
}

/// Formats a duration given in whole seconds as `HH:MM:SS`.
pub fn format_duration(secs: u64) -> (s: String)
    ensures
        s@ == clock_text(secs),
{
    let mut s = String::new();
    push_clock(&mut s, secs);
    s
}

/// The progress status line: `\r  [HH:MM:SS] <attempts> tries | ⚡ <rate> keys/s`, the counts
/// with thousands separators and the rate, given in hundredths of a key per second, with two
/// decimals.
pub open spec fn progress_text(elapsed_secs: u64, attempts: u64, rate_hundredths: u64) -> Seq<char> {
    seq!['\r', ' ', ' ', '['] + clock_text(elapsed_secs) + seq![']', ' '] + grouped_decimal(attempts as nat)
        + " tries | \u{26a1} "@ + grouped_decimal((rate_hundredths / 100) as nat) + seq!['.']
        + padded_decimal((rate_hundredths % 100) as nat, 2) + " keys/s"@
}

/// Builds the progress status line.
pub fn progress_status(elapsed_secs: u64, attempts: u64, rate_hundredths: u64) -> (s: String)
    ensures
        s@ == progress_text(elapsed_secs, attempts, rate_hundredths),
{
    let mut s = String::new();
    s.append("\r  [");
    push_clock(&mut s, elapsed_secs);
    s.append("] ");
    push_grouped(&mut s, attempts);
    s.append(" tries | \u{26a1} ");
    push_grouped(&mut s, rate_hundredths / 100);
    s.append(".");
    push_padded(&mut s, rate_hundredths % 100, 2);
    s.append(" keys/s");
    proof {
        reveal_strlit("\r  [");
        reveal_strlit("] ");
        reveal_strlit(".");
        assert(s@ =~= progress_text(elapsed_secs, attempts, rate_hundredths));
    }
    s
}

} // verus!
