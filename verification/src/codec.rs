//! Text encodings of the pipeline's two outputs.
//!
//! The streaming stage frames each sample as one JSON object on a single
//! line; the aggregating stage serializes a statistics snapshot as an
//! indented mapping. Durations are whole nanoseconds rendered as decimal
//! seconds with nine fraction digits, so no floating point is involved.

use vstd::prelude::*;
use vstd::string::StringExecFns;
use crate::stats::AlgorithmStats;
use crate::statsmap::StatsSnapshot;

verus! {

/// The decimal digit character for `d`.
pub open spec fn digit_char(d: int) -> char {
    if d == 0 {
        '0'
    } else if d == 1 {
        '1'
    } else if d == 2 {
        '2'
    } else if d == 3 {
        '3'
    } else if d == 4 {
        '4'
    } else if d == 5 {
        '5'
    } else if d == 6 {
        '6'
    } else if d == 7 {
        '7'
    } else if d == 8 {
        '8'
    } else {
        '9'
    }
}

/// The decimal digits of `n`, most significant first, no leading zeros
/// (a single `'0'` for zero).
pub open spec fn dec_rep(n: nat) -> Seq<char>
    decreases n,
{
    if n < 10 {
        seq![digit_char(n as int)]
    } else {
        dec_rep(n / 10) + seq![digit_char((n % 10) as int)]
    }
}

/// Exactly `w` decimal digits of `n mod 10^w`, zero padded on the left.
pub open spec fn dec_fixed(n: nat, w: nat) -> Seq<char>
    decreases w,
{
    if w == 0 {
        Seq::empty()
    } else {
        dec_fixed(n / 10, (w - 1) as nat) + seq![digit_char((n % 10) as int)]
    }
}

/// `n` nanoseconds as decimal seconds: the whole seconds, a point, and nine
/// fraction digits.
pub open spec fn duration_rep(n: nat) -> Seq<char> {
    dec_rep(n / 1_000_000_000) + seq!['.'] + dec_fixed(n % 1_000_000_000, 9)
}

/// One streamed record: a JSON object with the language tag, the work unit
/// name and the duration in seconds, without a trailing newline.
pub open spec fn sample_line_rep(lang: Seq<char>, algo: Seq<char>, nanos: nat) -> Seq<char> {
    "{\"lang\": \""@ + lang + "\", \"algo\": \""@ + algo + "\", \"duration\": "@
        + duration_rep(nanos) + "}"@
}

/// One snapshot entry: the name, then the four aggregates, each indented on
/// its own line, durations in seconds.
pub open spec fn entry_rep(name: Seq<char>, s: AlgorithmStats) -> Seq<char> {
    name + ":\n  runs: "@ + dec_rep(s.runs as nat) + "\n  total_time: "@ + duration_rep(
        s.total_nanos as nat,
    ) + "\n  min_time: "@ + duration_rep(s.min_nanos as nat) + "\n  max_time: "@ + duration_rep(
        s.max_nanos as nat,
    ) + "\n"@
}

/// A whole snapshot: the entries in order.
pub open spec fn snapshot_rep(ps: Seq<(Seq<char>, AlgorithmStats)>) -> Seq<char>
    decreases ps.len(),
{
    if ps.len() == 0 {
        Seq::empty()
    } else {
        snapshot_rep(ps.drop_last()) + entry_rep(ps.last().0, ps.last().1)
    }
}

fn digit_str(d: u8) -> (r: &'static str)
    requires
        d < 10,
    ensures
        r@ =~= seq![digit_char(d as int)],
{
    proof {
        reveal_strlit("0");
        reveal_strlit("1");
        reveal_strlit("2");
        reveal_strlit("3");
        reveal_strlit("4");
        reveal_strlit("5");
        reveal_strlit("6");
        reveal_strlit("7");
        reveal_strlit("8");
        reveal_strlit("9");
    }
    match d {
        0 => "0",
        1 => "1",
        2 => "2",
        3 => "3",
        4 => "4",
        5 => "5",
        6 => "6",
        7 => "7",
        8 => "8",
        _ => "9",
    }
}

/// `n` in decimal.
pub fn dec_string(n: u128) -> (r: String)
    ensures
        r@ =~= dec_rep(n as nat),
    decreases n,
{
    if n < 10 {
        String::from_str(digit_str(n as u8))
    } else {
        let mut s = dec_string(n / 10);
        s.append(digit_str((n % 10) as u8));
        s
    }
}

fn dec_fixed_string(n: u64, w: usize) -> (r: String)
    ensures
        r@ =~= dec_fixed(n as nat, w as nat),
    decreases w,
{
    if w == 0 {
        String::new()
    } else {
        let mut s = dec_fixed_string(n / 10, w - 1);
        s.append(digit_str((n % 10) as u8));
        s
    }
}

/// `n` nanoseconds as decimal seconds with nine fraction digits.
pub fn duration_string(n: u128) -> (r: String)
    ensures
        r@ =~= duration_rep(n as nat),
{
    let mut s = dec_string(n / 1_000_000_000);
    s.append(".");
    proof {
        reveal_strlit(".");
    }
    let frac = dec_fixed_string((n % 1_000_000_000) as u64, 9);
    s.append(frac.as_str());
    s
}

/// Frame one sample as its JSON line (without the newline).
pub fn encode_sample_line(lang: &str, algo: &str, nanos: u64) -> (r: String)
    ensures
        r@ =~= sample_line_rep(lang@, algo@, nanos as nat),
{
    let mut s = String::from_str("{\"lang\": \"");
    s.append(lang);
    s.append("\", \"algo\": \"");
    s.append(algo);
    s.append("\", \"duration\": ");
    let dur = duration_string(nanos as u128);
    s.append(dur.as_str());
    s.append("}");
    s
}

/// Serialize a snapshot as the indented mapping, entries in order.
pub fn encode_snapshot(snap: &StatsSnapshot) -> (r: String)
    ensures
        r@ =~= snapshot_rep(snap@),
{
    let n = snap.entries.len();
    let mut s = String::new();
    let mut i: usize = 0;
    while i < n
        invariant
            n == snap.entries@.len(),
            n == snap@.len(),
            forall|j: int| 0 <= j < n ==> #[trigger] snap@[j] == (snap.entries@[j].0@, snap.entries@[j].1),
            i <= n,
            s@ =~= snapshot_rep(snap@.subrange(0, i as int)),
        decreases n - i,
    {
        let name = &snap.entries[i].0;
        let stats = snap.entries[i].1;
        s.append(name.as_str());
        s.append(":\n  runs: ");
        let runs = dec_string(stats.runs as u128);
        s.append(runs.as_str());
        s.append("\n  total_time: ");
        let total = duration_string(stats.total_nanos);
        s.append(total.as_str());
        s.append("\n  min_time: ");
        let mn = duration_string(stats.min_nanos as u128);
        s.append(mn.as_str());
        s.append("\n  max_time: ");
        let mx = duration_string(stats.max_nanos as u128);
        s.append(mx.as_str());
        s.append("\n");
        proof {
            let pre = snap@.subrange(0, i as int);
            let cur = snap@.subrange(0, i + 1);
            assert(cur.drop_last() =~= pre);
            assert(cur.last() == snap@[i as int]);
            assert(s@ =~= snapshot_rep(cur));
        }
        i = i + 1;
    }
    proof {
        assert(snap@.subrange(0, n as int) =~= snap@);
    }
    s
}

} // verus!
