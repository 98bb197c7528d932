//! The report printed by the decrypt command.

use vstd::prelude::*;
use crate::calendar::{timestamp_text, utc_from_unix, utc_of};
use crate::crypto::base58::{base58_encode, encode};
use crate::storage::file::{wallets_model, wallets_wf, DecryptedWallets, WalletEntry};
use crate::text::{decimal, decimal_string, push_padded, repeat_seq, repeat_str};

verus! {

/// Formats a Unix timestamp as `YYYY-MM-DD HH:MM:SS UTC`.
pub fn format_timestamp(unix_secs: u64) -> (s: String)
    ensures
        s@ == timestamp_text(utc_of(unix_secs)),
{
    let dt = utc_from_unix(unix_secs);
    let mut s = String::new();
    push_padded(&mut s, dt.year, 4);
    s.append("-");
    push_padded(&mut s, dt.month, 2);
    s.append("-");
    push_padded(&mut s, dt.day, 2);
    s.append(" ");
    push_padded(&mut s, dt.hour, 2);
    s.append(":");
    push_padded(&mut s, dt.minute, 2);
    s.append(":");
    push_padded(&mut s, dt.second, 2);
    s.append(" UTC");
    proof {
        reveal_strlit("-");
        reveal_strlit(" ");
        reveal_strlit(":");
        reveal_strlit(" UTC");
        assert(s@ =~= timestamp_text(dt));
    }
    s
}

/// The heavy rule framing the report: 50 `━`.
pub open spec fn heavy_rule() -> Seq<char> {
    repeat_seq(seq!['\u{2501}'], 50)
}

/// The light rule between two wallets: two spaces and 46 `─`.
pub open spec fn light_rule() -> Seq<char> {
    seq![' ', ' '] + repeat_seq(seq!['\u{2500}'], 46)
}

/// The lines describing wallet `i` of `n`, followed by a light rule unless it is the last.
pub open spec fn wallet_block(e: WalletEntry, i: nat, n: nat) -> Seq<Seq<char>> {
    seq![
        "  Wallet #"@ + decimal(i + 1) + seq![':'],
        "    Public Key:  "@ + base58_encode(e.0),
        "    Private Key: "@ + base58_encode(e.1),
        "    Created:     "@ + timestamp_text(utc_of(e.2)),
    ] + if i + 1 < n { seq![light_rule()] } else { seq![] }
}

/// The blocks of the first `k` wallets.
pub open spec fn wallet_blocks(es: Seq<WalletEntry>, k: nat) -> Seq<Seq<char>>
    decreases k,
{
    if k == 0 {
        seq![]
    } else {
        wallet_blocks(es, (k - 1) as nat) + wallet_block(es[k - 1], (k - 1) as nat, es.len())
    }
}

/// The first `k` blocks: four lines per wallet (its number, public key, private key and
/// creation time), each but the last wallet's followed by a rule.
proof fn lemma_blocks_layout(es: Seq<WalletEntry>, k: nat)
    requires
        k <= es.len(),
    ensures
        wallet_blocks(es, k).len() == (if k < es.len() { 5 * k as int } else if k == 0 { 0int } else { 5 * k - 1 }),
        forall|i: int, j: int| 0 <= i < k && 0 <= j < 4 ==>
            #[trigger] wallet_blocks(es, k)[5 * i + j] == wallet_block(es[i], i as nat, es.len())[j],
    decreases k,
{
    if k > 0 {
        let k1 = (k - 1) as nat;
        lemma_blocks_layout(es, k1);
        let prev = wallet_blocks(es, k1);
        let blk = wallet_block(es[k1 as int], k1, es.len());
        assert(wallet_blocks(es, k) == prev + blk);
        assert(prev.len() == 5 * k1);
        assert forall|i: int, j: int| 0 <= i < k && 0 <= j < 4 implies
            #[trigger] wallet_blocks(es, k)[5 * i + j] == wallet_block(es[i], i as nat, es.len())[j] by {
            if i < k1 {
                assert(wallet_blocks(es, k1)[5 * i + j] == wallet_block(es[i], i as nat, es.len())[j]);
                assert(5 * i + j < 5 * k1) by (nonlinear_arith)
                    requires i < k1, 0 <= j < 4, 0 <= i;
            } else {
                assert(i == k1);
                assert(5 * i + j - prev.len() == j);
            }
        }
    }
}

/// Law: for every wallet `i` of the file, the report has the block of lines that names it
/// "Wallet #(i + 1)" and shows that same wallet's public key and private key in Base58 and its
/// creation time; the blocks follow the three header lines in file order, five lines apart.
pub proof fn lemma_report_shows_each_wallet(es: Seq<WalletEntry>, i: int)
    requires
        0 <= i < es.len(),
    ensures
        report_lines(es).len() == 5 * es.len() + 5,
        report_lines(es)[3 + 5 * i] == "  Wallet #"@ + decimal((i + 1) as nat) + seq![':'],
        report_lines(es)[3 + 5 * i + 1] == "    Public Key:  "@ + base58_encode(es[i].0),
        report_lines(es)[3 + 5 * i + 2] == "    Private Key: "@ + base58_encode(es[i].1),
        report_lines(es)[3 + 5 * i + 3] == "    Created:     "@ + timestamp_text(utc_of(es[i].2)),
{
    let n = es.len();
    lemma_blocks_layout(es, n);
    let head: Seq<Seq<char>> = seq![seq![], "\u{1f513} Decrypted Wallet Information"@, heavy_rule()];
    let blocks = wallet_blocks(es, n);
    let tail: Seq<Seq<char>> = seq![heavy_rule(), "  Total wallets: "@ + decimal(n), seq![]];
    assert(report_lines(es) == head + blocks + tail);
    let blk = wallet_block(es[i], i as nat, n);
    assert(5 * i + 3 < 5 * n - 1) by (nonlinear_arith)
        requires 0 <= i < n;
    assert(blocks[5 * i + 0] == blk[0]);
    assert(blocks[5 * i + 1] == blk[1]);
    assert(blocks[5 * i + 2] == blk[2]);
    assert(blocks[5 * i + 3] == blk[3]);
}

/// The lines of the report for the given wallets.
pub open spec fn report_lines(es: Seq<WalletEntry>) -> Seq<Seq<char>> {
    seq![seq![], "\u{1f513} Decrypted Wallet Information"@, heavy_rule()]
        + (if es.len() == 0 { seq!["  No wallets found in file."@] } else { wallet_blocks(es, es.len()) })
        + seq![heavy_rule(), "  Total wallets: "@ + decimal(es.len()), seq![]]
}

/// The text of each line.
pub open spec fn lines_view(lines: Seq<String>) -> Seq<Seq<char>> {
    lines.map_values(|s: String| s@)
}

fn push_line(lines: &mut Vec<String>, line: String)
    ensures
        lines_view(final(lines)@) == lines_view(old(lines)@).push(line@),
{
    lines.push(line);
    assert(lines_view(lines@) =~= lines_view(old(lines)@).push(line@));
}

fn concat(a: &str, b: String) -> (s: String)
    ensures
        s@ == a@ + b@,
{
    let mut s = String::from_str(a);
    s.append(b.as_str());
    s
}

/// Builds the lines of the decrypt report: a header, each wallet with its Base58 keys and
/// creation time, and the number of wallets.
pub fn wallet_report(wallets: &DecryptedWallets) -> (lines: Vec<String>)
    requires
        wallets_wf(*wallets),
    ensures
        lines_view(lines@) == report_lines(wallets_model(*wallets)),
{
    let ghost es = wallets_model(*wallets);
    let n = wallets.0.len();
    let mut lines: Vec<String> = Vec::new();
    push_line(&mut lines, String::new());
    push_line(&mut lines, String::from_str("\u{1f513} Decrypted Wallet Information"));
    proof {
        reveal_strlit("\u{2501}");
        assert("\u{2501}"@ =~= seq!['\u{2501}']);
        reveal_strlit("\u{2500}");
        assert("\u{2500}"@ =~= seq!['\u{2500}']);
        reveal_strlit("  ");
        reveal_strlit(":");
    }
    push_line(&mut lines, repeat_str("\u{2501}", 50));
    let ghost header = lines_view(lines@);
    if n == 0 {
        push_line(&mut lines, String::from_str("  No wallets found in file."));
    } else {
        let mut i: usize = 0;
        while i < n
            invariant
                n == wallets.0@.len(),
                wallets_wf(*wallets),
                es == wallets_model(*wallets),
                "\u{2500}"@ == seq!['\u{2500}'],
                "  "@ == seq![' ', ' '],
                ":"@ == seq![':'],
                i <= n,
                lines_view(lines@) == header + wallet_blocks(es, i as nat),
            decreases n - i,
        {
            let mut title = String::from_str("  Wallet #");
            let number = decimal_string((i + 1) as u64);
            title.append(number.as_str());
            title.append(":");
            push_line(&mut lines, title);
            push_line(&mut lines, concat("    Public Key:  ", encode(wallets.0[i].as_slice())));
            push_line(&mut lines, concat("    Private Key: ", encode(wallets.1[i].as_slice())));
            push_line(&mut lines, concat("    Created:     ", format_timestamp(wallets.2[i])));
            if i + 1 < n {
                push_line(&mut lines, concat("  ", repeat_str("\u{2500}", 46)));
            }
            proof {
                assert(wallet_blocks(es, (i + 1) as nat) == wallet_blocks(es, i as nat) + wallet_block(es[i as int], i as nat, n as nat));
                assert(lines_view(lines@) =~= header + wallet_blocks(es, (i + 1) as nat));
            }
            i = i + 1;
        }
    }
    push_line(&mut lines, repeat_str("\u{2501}", 50));
    push_line(&mut lines, concat("  Total wallets: ", decimal_string(n as u64)));
    push_line(&mut lines, String::new());
    assert(lines_view(lines@) =~= report_lines(es));
    lines
}

} // verus!
