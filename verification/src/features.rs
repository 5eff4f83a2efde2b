//! The feature extractor: a pure snapshot of ~90 per-flow statistics.
//!
//! Every statistic is exact: counts and sums are integers, means and
//! rates are exact rationals, and the length/time summaries carry the
//! count, sum, sum of squares and extrema from which the presentation
//! layer derives mean, variance and standard deviation. All time
//! quantities are microseconds. Every edge case degrades to zero:
//! extraction never fails.

use vstd::prelude::*;

use crate::cadence::PROTO_ICMP;
use crate::cadence::PROTO_TCP;
use crate::cadence::PROTO_UDP;
use crate::flow::FlowTracker;
use crate::flow::PacketData;
use crate::flow::SPAN_LIMIT;
use crate::ratio::Ratio;
use crate::stats::calculate_stats;
use crate::stats::lemma_sum_le;
use crate::stats::samples_ok;
use crate::stats::seq_min;
use crate::stats::seq_sum;
use crate::stats::SIMDFeatureCalculator;
use crate::stats::StatsSummary;

verus! {

/// A gap longer than this closes the current active segment.
pub const ACTIVE_TIMEOUT_MICROS: u64 = 1_000_000;

/// A gap longer than this also counts as an idle period.
pub const IDLE_TIMEOUT_MICROS: u64 = 5_000_000;

/// The packet sizes of a queue.
pub open spec fn sizes_of(s: Seq<PacketData>) -> Seq<u64> {
    s.map_values(|p: PacketData| p.size as u64)
}

/// The header lengths of a queue.
pub open spec fn headers_of(s: Seq<PacketData>) -> Seq<u64> {
    s.map_values(|p: PacketData| p.header_len as u64)
}

/// The payload lengths of a queue.
pub open spec fn payloads_of(s: Seq<PacketData>) -> Seq<u64> {
    s.map_values(|p: PacketData| p.payload_len as u64)
}

/// The timestamps of a queue.
pub open spec fn ts_of(s: Seq<PacketData>) -> Seq<u64> {
    s.map_values(|p: PacketData| p.timestamp)
}

/// Nondecreasing order on plain values.
pub open spec fn sorted_u64(s: Seq<u64>) -> bool {
    forall|i: int, j: int| 0 <= i <= j < s.len() ==> s[i] <= s[j]
}

/// All values at most `b`.
pub open spec fn all_le(s: Seq<u64>, b: u64) -> bool {
    forall|i: int| 0 <= i < s.len() ==> #[trigger] s[i] <= b
}

/// The consecutive timestamp deltas of a time-sorted sequence; one or
/// zero timestamps have no deltas.
pub open spec fn iats_of(ts: Seq<u64>) -> Seq<u64> {
    if ts.len() <= 1 {
        Seq::empty()
    } else {
        Seq::new((ts.len() - 1) as nat, |i: int| (ts[i + 1] - ts[i]) as u64)
    }
}

/// The positive values of a sequence, in order.
pub open spec fn pos_only(s: Seq<u64>) -> Seq<u64> {
    s.filter(|x: u64| x > 0)
}

/// How many values are positive.
pub open spec fn count_pos(s: Seq<u64>) -> int {
    pos_only(s).len() as int
}

/// The two time-sorted queues interleaved into one time-sorted whole.
pub open spec fn spec_merge(a: Seq<u64>, b: Seq<u64>) -> Seq<u64>
    decreases a.len() + b.len(),
{
    if a.len() == 0 {
        b
    } else if b.len() == 0 {
        a
    } else if a[0] <= b[0] {
        seq![a[0]] + spec_merge(a.skip(1), b)
    } else {
        seq![b[0]] + spec_merge(a, b.skip(1))
    }
}

/// The merge has the combined length and keeps every bound and the
/// sorted order of its inputs.
pub proof fn lemma_merge_props(a: Seq<u64>, b: Seq<u64>, lim: u64)
    requires
        sorted_u64(a),
        sorted_u64(b),
        all_le(a, lim),
        all_le(b, lim),
    ensures
        spec_merge(a, b).len() == a.len() + b.len(),
        sorted_u64(spec_merge(a, b)),
        all_le(spec_merge(a, b), lim),
        spec_merge(a, b).len() > 0 ==> (a.len() > 0 && spec_merge(a, b)[0] == a[0]) || (b.len() > 0
            && spec_merge(a, b)[0] == b[0]),
        spec_merge(a, b).len() > 0 && a.len() > 0 ==> a[0] >= spec_merge(a, b)[0],
        spec_merge(a, b).len() > 0 && b.len() > 0 ==> b[0] >= spec_merge(a, b)[0],
    decreases a.len() + b.len(),
{
    if a.len() == 0 || b.len() == 0 {
    } else if a[0] <= b[0] {
        assert(sorted_u64(a.skip(1))) by {
            assert(forall|i: int| 0 <= i < a.len() - 1 ==> #[trigger] a.skip(1)[i] == a[i + 1]);
        }
        assert(all_le(a.skip(1), lim)) by {
            assert(forall|i: int| 0 <= i < a.len() - 1 ==> #[trigger] a.skip(1)[i] == a[i + 1]);
        }
        lemma_merge_props(a.skip(1), b, lim);
        let m = spec_merge(a, b);
        let rest = spec_merge(a.skip(1), b);
        assert(m == seq![a[0]] + rest);
        assert(forall|i: int| 0 <= i < rest.len() ==> #[trigger] m[i + 1] == rest[i]);
        assert forall|i: int, j: int| 0 <= i <= j < m.len() implies m[i] <= m[j] by {
            if i == 0 {
                if j > 0 {
                    assert(m[j] == rest[j - 1]);
                    assert(rest[j - 1] >= rest[0] || j - 1 == 0);
                }
            } else {
                assert(m[i] == rest[i - 1] && m[j] == rest[j - 1]);
            }
        }
    } else {
        assert(sorted_u64(b.skip(1))) by {
            assert(forall|i: int| 0 <= i < b.len() - 1 ==> #[trigger] b.skip(1)[i] == b[i + 1]);
        }
        assert(all_le(b.skip(1), lim)) by {
            assert(forall|i: int| 0 <= i < b.len() - 1 ==> #[trigger] b.skip(1)[i] == b[i + 1]);
        }
        lemma_merge_props(a, b.skip(1), lim);
        let m = spec_merge(a, b);
        let rest = spec_merge(a, b.skip(1));
        assert(m == seq![b[0]] + rest);
        assert(forall|i: int| 0 <= i < rest.len() ==> #[trigger] m[i + 1] == rest[i]);
        assert forall|i: int, j: int| 0 <= i <= j < m.len() implies m[i] <= m[j] by {
            if i == 0 {
                if j > 0 {
                    assert(m[j] == rest[j - 1]);
                    assert(rest[j - 1] >= rest[0] || j - 1 == 0);
                }
            } else {
                assert(m[i] == rest[i - 1] && m[j] == rest[j - 1]);
            }
        }
    }
}

/// Collect the packet sizes of a queue.
pub fn collect_sizes(packets: &Vec<PacketData>) -> (r: Vec<u64>)
    ensures
        r@ == sizes_of(packets@),
{
    let mut r: Vec<u64> = Vec::new();
    let mut i: usize = 0;
    while i < packets.len()
        invariant
            i <= packets@.len(),
            r@ =~= sizes_of(packets@.take(i as int)),
        decreases packets@.len() - i,
    {
        r.push(packets[i].size as u64);
        proof {
            assert(sizes_of(packets@.take(i + 1)) =~= sizes_of(packets@.take(i as int)).push(
                packets@[i as int].size as u64,
            ));
        }
        i = i + 1;
    }
    proof {
        assert(packets@.take(packets@.len() as int) =~= packets@);
        assert(r@ =~= sizes_of(packets@));
    }
    r
}

/// Collect the header lengths of a queue.
pub fn collect_headers(packets: &Vec<PacketData>) -> (r: Vec<u64>)
    ensures
        r@ == headers_of(packets@),
{
    let mut r: Vec<u64> = Vec::new();
    let mut i: usize = 0;
    while i < packets.len()
        invariant
            i <= packets@.len(),
            r@ =~= headers_of(packets@.take(i as int)),
        decreases packets@.len() - i,
    {
        r.push(packets[i].header_len as u64);
        proof {
            assert(headers_of(packets@.take(i + 1)) =~= headers_of(packets@.take(i as int)).push(
                packets@[i as int].header_len as u64,
            ));
        }
        i = i + 1;
    }
    proof {
        assert(packets@.take(packets@.len() as int) =~= packets@);
        assert(r@ =~= headers_of(packets@));
    }
    r
}

/// Collect the payload lengths of a queue.
pub fn collect_payloads(packets: &Vec<PacketData>) -> (r: Vec<u64>)
    ensures
        r@ == payloads_of(packets@),
{
    let mut r: Vec<u64> = Vec::new();
    let mut i: usize = 0;
    while i < packets.len()
        invariant
            i <= packets@.len(),
            r@ =~= payloads_of(packets@.take(i as int)),
        decreases packets@.len() - i,
    {
        r.push(packets[i].payload_len as u64);
        proof {
            assert(payloads_of(packets@.take(i + 1)) =~= payloads_of(packets@.take(i as int)).push(
                packets@[i as int].payload_len as u64,
            ));
        }
        i = i + 1;
    }
    proof {
        assert(packets@.take(packets@.len() as int) =~= packets@);
        assert(r@ =~= payloads_of(packets@));
    }
    r
}

/// Collect the timestamps of a queue.
pub fn collect_ts(packets: &Vec<PacketData>) -> (r: Vec<u64>)
    ensures
        r@ == ts_of(packets@),
{
    let mut r: Vec<u64> = Vec::new();
    let mut i: usize = 0;
    while i < packets.len()
        invariant
            i <= packets@.len(),
            r@ =~= ts_of(packets@.take(i as int)),
        decreases packets@.len() - i,
    {
        r.push(packets[i].timestamp);
        proof {
            assert(ts_of(packets@.take(i + 1)) =~= ts_of(packets@.take(i as int)).push(
                packets@[i as int].timestamp,
            ));
        }
        i = i + 1;
    }
    proof {
        assert(packets@.take(packets@.len() as int) =~= packets@);
        assert(r@ =~= ts_of(packets@));
    }
    r
}

/// The consecutive deltas of an already time-sorted sequence.
pub fn calculate_inter_arrival_times_from_sorted(ts: &Vec<u64>) -> (r: Vec<u64>)
    requires
        sorted_u64(ts@),
    ensures
        r@ == iats_of(ts@),
{
    let mut r: Vec<u64> = Vec::new();
    if ts.len() <= 1 {
        proof {
            assert(r@ =~= iats_of(ts@));
        }
        return r;
    }
    let mut i: usize = 1;
    while i < ts.len()
        invariant
            sorted_u64(ts@),
            2 <= ts@.len(),
            1 <= i <= ts@.len(),
            r@.len() == i - 1,
            forall|k: int| 0 <= k < i - 1 ==> r@[k] == (ts@[k + 1] - ts@[k]) as u64,
        decreases ts@.len() - i,
    {
        r.push(ts[i] - ts[i - 1]);
        i = i + 1;
    }
    proof {
        assert(r@ =~= iats_of(ts@));
    }
    r
}

/// The consecutive timestamp deltas within one direction's queue.
pub fn calculate_inter_arrival_times(packets: &Vec<PacketData>) -> (r: Vec<u64>)
    requires
        sorted_u64(ts_of(packets@)),
    ensures
        r@ == iats_of(ts_of(packets@)),
{
    let ts = collect_ts(packets);
    calculate_inter_arrival_times_from_sorted(&ts)
}

/// Merge two time-sorted timestamp sequences into one.
pub fn merge_timestamps(a: &Vec<u64>, b: &Vec<u64>) -> (r: Vec<u64>)
    requires
        sorted_u64(a@),
        sorted_u64(b@),
    ensures
        r@ == spec_merge(a@, b@),
{
    let mut r: Vec<u64> = Vec::new();
    let mut i: usize = 0;
    let mut j: usize = 0;
    proof {
        assert(a@.skip(0) =~= a@);
        assert(b@.skip(0) =~= b@);
        assert(Seq::<u64>::empty() + spec_merge(a@, b@) =~= spec_merge(a@, b@));
    }
    while i < a.len() || j < b.len()
        invariant
            sorted_u64(a@),
            sorted_u64(b@),
            i <= a@.len(),
            j <= b@.len(),
            spec_merge(a@, b@) =~= r@ + spec_merge(a@.skip(i as int), b@.skip(j as int)),
        decreases a@.len() - i + b@.len() - j,
    {
        let ghost ra = a@.skip(i as int);
        let ghost rb = b@.skip(j as int);
        let take_a = if i < a.len() {
            if j < b.len() {
                a[i] <= b[j]
            } else {
                true
            }
        } else {
            false
        };
        if take_a {
            proof {
                assert(ra[0] == a@[i as int]);
                if rb.len() > 0 {
                    assert(rb[0] == b@[j as int]);
                }
                assert(ra.skip(1) =~= a@.skip(i + 1));
                assert(spec_merge(ra, rb) == seq![a@[i as int]] + spec_merge(
                    a@.skip(i + 1),
                    rb,
                ));
                assert(r@.push(a@[i as int]) + spec_merge(a@.skip(i + 1), rb) =~= r@ + spec_merge(
                    ra,
                    rb,
                ));
            }
            r.push(a[i]);
            i = i + 1;
        } else {
            proof {
                assert(rb[0] == b@[j as int]);
                if ra.len() > 0 {
                    assert(ra[0] == a@[i as int]);
                }
                assert(rb.skip(1) =~= b@.skip(j + 1));
                assert(spec_merge(ra, rb) == seq![b@[j as int]] + spec_merge(
                    ra,
                    b@.skip(j + 1),
                ));
                assert(r@.push(b@[j as int]) + spec_merge(ra, b@.skip(j + 1)) =~= r@ + spec_merge(
                    ra,
                    rb,
                ));
            }
            r.push(b[j]);
            j = j + 1;
        }
    }
    proof {
        assert(a@.skip(i as int).len() == 0);
        assert(b@.skip(j as int).len() == 0);
        assert(spec_merge(a@.skip(i as int), b@.skip(j as int)) =~= Seq::<u64>::empty());
        assert(r@ + Seq::<u64>::empty() =~= r@);
    }
    r
}

/// Which active segments a walk over the merged timestamps from index
/// `i` onward still produces, given the start of the current segment.
/// A gap longer than the active timeout closes the current segment;
/// the final segment is closed by the end of the sequence.
pub open spec fn active_rec(m: Seq<u64>, i: int, cur_start: u64) -> Seq<u64>
    decreases m.len() - i,
{
    if i < 1 || m.len() == 0 || i > m.len() {
        Seq::empty()
    } else if i == m.len() {
        seq![(m[m.len() - 1] - cur_start) as u64]
    } else if m[i] - m[i - 1] > ACTIVE_TIMEOUT_MICROS {
        seq![(m[i - 1] - cur_start) as u64] + active_rec(m, i + 1, m[i])
    } else {
        active_rec(m, i + 1, cur_start)
    }
}

/// Which idle periods the walk from index `i` onward still produces:
/// every gap longer than the idle timeout, at its own length.
pub open spec fn idle_rec(m: Seq<u64>, i: int) -> Seq<u64>
    decreases m.len() - i,
{
    if i < 1 || i >= m.len() {
        Seq::empty()
    } else if m[i] - m[i - 1] > IDLE_TIMEOUT_MICROS {
        seq![(m[i] - m[i - 1]) as u64] + idle_rec(m, i + 1)
    } else {
        idle_rec(m, i + 1)
    }
}

/// The active-segment lengths of a merged, time-sorted sequence; fewer
/// than two packets have none.
pub open spec fn spec_active(m: Seq<u64>) -> Seq<u64> {
    if m.len() < 2 {
        Seq::empty()
    } else {
        active_rec(m, 1, m[0])
    }
}

/// The idle-period lengths of a merged, time-sorted sequence; fewer
/// than two packets have none.
pub open spec fn spec_idle(m: Seq<u64>) -> Seq<u64> {
    if m.len() < 2 {
        Seq::empty()
    } else {
        idle_rec(m, 1)
    }
}

proof fn lemma_active_bounds(m: Seq<u64>, i: int, cur_start: u64)
    requires
        sorted_u64(m),
        all_le(m, SPAN_LIMIT),
        1 <= i <= m.len(),
        cur_start <= m[i - 1],
    ensures
        all_le(active_rec(m, i, cur_start), SPAN_LIMIT),
        active_rec(m, i, cur_start).len() <= m.len() - i + 1,
    decreases m.len() - i,
{
    if i == m.len() {
    } else if m[i] - m[i - 1] > ACTIVE_TIMEOUT_MICROS {
        lemma_active_bounds(m, i + 1, m[i as int]);
    } else {
        lemma_active_bounds(m, i + 1, cur_start);
    }
}

proof fn lemma_idle_bounds(m: Seq<u64>, i: int)
    requires
        sorted_u64(m),
        all_le(m, SPAN_LIMIT),
        1 <= i,
    ensures
        all_le(idle_rec(m, i), SPAN_LIMIT),
        idle_rec(m, i).len() <= if i <= m.len() {
            m.len() - i
        } else {
            0
        },
    decreases m.len() - i,
{
    if i < m.len() {
        lemma_idle_bounds(m, i + 1);
    }
}

/// Split the merged, time-sorted timestamps into active-segment lengths
/// and idle-period lengths.
pub fn calculate_active_idle_stats(m: &Vec<u64>) -> (r: (Vec<u64>, Vec<u64>))
    requires
        sorted_u64(m@),
        all_le(m@, SPAN_LIMIT),
    ensures
        r.0@ == spec_active(m@),
        r.1@ == spec_idle(m@),
        all_le(r.0@, SPAN_LIMIT),
        all_le(r.1@, SPAN_LIMIT),
        r.0@.len() <= m@.len(),
        r.1@.len() <= m@.len(),
{
    let mut active: Vec<u64> = Vec::new();
    let mut idle: Vec<u64> = Vec::new();
    let n = m.len();
    if n < 2 {
        proof {
            assert(active@ =~= spec_active(m@));
            assert(idle@ =~= spec_idle(m@));
        }
        return (active, idle);
    }
    let mut cur_start: u64 = m[0];
    let mut i: usize = 1;
    while i < n
        invariant
            sorted_u64(m@),
            all_le(m@, SPAN_LIMIT),
            n == m@.len(),
            2 <= n,
            1 <= i <= n,
            cur_start <= m@[i - 1],
            active@ + active_rec(m@, i as int, cur_start) =~= active_rec(m@, 1, m@[0]),
            idle@ + idle_rec(m@, i as int) =~= idle_rec(m@, 1),
        decreases n - i,
    {
        let gap = m[i] - m[i - 1];
        if gap > ACTIVE_TIMEOUT_MICROS {
            let seg = m[i - 1] - cur_start;
            proof {
                assert(active_rec(m@, i as int, cur_start) == seq![seg] + active_rec(
                    m@,
                    i + 1,
                    m@[i as int],
                ));
                assert(active@.push(seg) + active_rec(m@, i + 1, m@[i as int]) =~= active@ + (
                seq![seg] + active_rec(m@, i + 1, m@[i as int])));
            }
            active.push(seg);
            if gap > IDLE_TIMEOUT_MICROS {
                proof {
                    assert(idle_rec(m@, i as int) == seq![gap] + idle_rec(m@, i + 1));
                    assert(idle@.push(gap) + idle_rec(m@, i + 1) =~= idle@ + (seq![gap]
                        + idle_rec(m@, i + 1)));
                }
                idle.push(gap);
            }
            cur_start = m[i];
        }
        i = i + 1;
    }
    let seg = m[n - 1] - cur_start;
    proof {
        assert(active_rec(m@, n as int, cur_start) == seq![seg]);
        assert(active@.push(seg) =~= active@ + seq![seg]);
        assert(idle_rec(m@, n as int) =~= Seq::<u64>::empty());
        assert(idle@ + Seq::<u64>::empty() =~= idle@);
        lemma_active_bounds(m@, 1, m@[0]);
        lemma_idle_bounds(m@, 1);
    }
    active.push(seg);
    (active, idle)
}

/// The FIN flag bit.
pub const FIN_MASK: u8 = 0x01;

/// The SYN flag bit.
pub const SYN_MASK: u8 = 0x02;

/// The RST flag bit.
pub const RST_MASK: u8 = 0x04;

/// The PSH flag bit.
pub const PSH_MASK: u8 = 0x08;

/// The ACK flag bit.
pub const ACK_MASK: u8 = 0x10;

/// The URG flag bit.
pub const URG_MASK: u8 = 0x20;

/// The ECE flag bit.
pub const ECE_MASK: u8 = 0x40;

/// The CWR flag bit.
pub const CWR_MASK: u8 = 0x80;

/// The packet carries transport flags and the masked bit is set.
pub open spec fn flag_set(p: PacketData, mask: u8) -> bool {
    match p.tcp_flags {
        Some(f) => f & mask != 0,
        None => false,
    }
}

/// How many packets of the queue have the masked flag set.
pub open spec fn count_flag(s: Seq<PacketData>, mask: u8) -> int
    decreases s.len(),
{
    if s.len() == 0 {
        0
    } else {
        count_flag(s.drop_last(), mask) + if flag_set(s.last(), mask) {
            1int
        } else {
            0int
        }
    }
}

proof fn lemma_count_flag_step(s: Seq<PacketData>, mask: u8, i: int)
    requires
        0 <= i < s.len(),
    ensures
        count_flag(s.take(i + 1), mask) == count_flag(s.take(i), mask) + if flag_set(
            s[i],
            mask,
        ) {
            1int
        } else {
            0int
        },
        count_flag(s.take(i), mask) >= 0,
        count_flag(s.take(i), mask) <= i,
{
    assert(s.take(i + 1).drop_last() =~= s.take(i));
    assert(s.take(i + 1).last() == s[i]);
    lemma_count_flag_le(s.take(i), mask);
}

/// A flag tally never exceeds the queue length.
pub proof fn lemma_count_flag_le(s: Seq<PacketData>, mask: u8)
    ensures
        0 <= count_flag(s, mask) <= s.len(),
    decreases s.len(),
{
    if s.len() > 0 {
        lemma_count_flag_le(s.drop_last(), mask);
    }
}

/// Count the packets whose masked flag is set.
pub fn count_flags_in(packets: &Vec<PacketData>, mask: u8) -> (r: u64)
    requires
        packets@.len() <= u64::MAX,
    ensures
        r == count_flag(packets@, mask),
{
    let mut acc: u64 = 0;
    let mut i: usize = 0;
    while i < packets.len()
        invariant
            packets@.len() <= u64::MAX,
            i <= packets@.len(),
            acc == count_flag(packets@.take(i as int), mask),
            acc <= i,
        decreases packets@.len() - i,
    {
        proof {
            lemma_count_flag_step(packets@, mask, i as int);
        }
        let set = match packets[i].tcp_flags {
            Some(f) => f & mask != 0,
            None => false,
        };
        if set {
            acc = acc + 1;
        }
        i = i + 1;
    }
    proof {
        assert(packets@.take(packets@.len() as int) =~= packets@);
    }
    acc
}

/// All the flag tallies of a flow: each bit over both directions, and
/// the PSH/URG bits per direction.
#[derive(Clone, Copy, Debug, PartialEq, Eq, Structural, Default)]
pub struct FlagCounts {
    pub fin: u64,
    pub syn: u64,
    pub rst: u64,
    pub psh: u64,
    pub ack: u64,
    pub urg: u64,
    pub ece: u64,
    pub cwr: u64,
    pub fwd_psh: u64,
    pub fwd_urg: u64,
    pub bwd_psh: u64,
    pub bwd_urg: u64,
}

/// Tally the TCP flag bits across both directions of a flow.
pub fn calculate_tcp_flags(fwd: &Vec<PacketData>, bwd: &Vec<PacketData>) -> (r: FlagCounts)
    requires
        fwd@.len() + bwd@.len() <= u64::MAX,
    ensures
        r.fin == count_flag(fwd@, FIN_MASK) + count_flag(bwd@, FIN_MASK),
        r.syn == count_flag(fwd@, SYN_MASK) + count_flag(bwd@, SYN_MASK),
        r.rst == count_flag(fwd@, RST_MASK) + count_flag(bwd@, RST_MASK),
        r.psh == count_flag(fwd@, PSH_MASK) + count_flag(bwd@, PSH_MASK),
        r.ack == count_flag(fwd@, ACK_MASK) + count_flag(bwd@, ACK_MASK),
        r.urg == count_flag(fwd@, URG_MASK) + count_flag(bwd@, URG_MASK),
        r.ece == count_flag(fwd@, ECE_MASK) + count_flag(bwd@, ECE_MASK),
        r.cwr == count_flag(fwd@, CWR_MASK) + count_flag(bwd@, CWR_MASK),
        r.fwd_psh == count_flag(fwd@, PSH_MASK),
        r.fwd_urg == count_flag(fwd@, URG_MASK),
        r.bwd_psh == count_flag(bwd@, PSH_MASK),
        r.bwd_urg == count_flag(bwd@, URG_MASK),
{
    proof {
        lemma_count_flag_le(fwd@, FIN_MASK);
        lemma_count_flag_le(bwd@, FIN_MASK);
        lemma_count_flag_le(fwd@, SYN_MASK);
        lemma_count_flag_le(bwd@, SYN_MASK);
        lemma_count_flag_le(fwd@, RST_MASK);
        lemma_count_flag_le(bwd@, RST_MASK);
        lemma_count_flag_le(fwd@, PSH_MASK);
        lemma_count_flag_le(bwd@, PSH_MASK);
        lemma_count_flag_le(fwd@, ACK_MASK);
        lemma_count_flag_le(bwd@, ACK_MASK);
        lemma_count_flag_le(fwd@, URG_MASK);
        lemma_count_flag_le(bwd@, URG_MASK);
        lemma_count_flag_le(fwd@, ECE_MASK);
        lemma_count_flag_le(bwd@, ECE_MASK);
        lemma_count_flag_le(fwd@, CWR_MASK);
        lemma_count_flag_le(bwd@, CWR_MASK);
    }
    let fwd_psh = count_flags_in(fwd, PSH_MASK);
    let fwd_urg = count_flags_in(fwd, URG_MASK);
    let bwd_psh = count_flags_in(bwd, PSH_MASK);
    let bwd_urg = count_flags_in(bwd, URG_MASK);
    FlagCounts {
        fin: count_flags_in(fwd, FIN_MASK) + count_flags_in(bwd, FIN_MASK),
        syn: count_flags_in(fwd, SYN_MASK) + count_flags_in(bwd, SYN_MASK),
        rst: count_flags_in(fwd, RST_MASK) + count_flags_in(bwd, RST_MASK),
        psh: fwd_psh + bwd_psh,
        ack: count_flags_in(fwd, ACK_MASK) + count_flags_in(bwd, ACK_MASK),
        urg: fwd_urg + bwd_urg,
        ece: count_flags_in(fwd, ECE_MASK) + count_flags_in(bwd, ECE_MASK),
        cwr: count_flags_in(fwd, CWR_MASK) + count_flags_in(bwd, CWR_MASK),
        fwd_psh,
        fwd_urg,
        bwd_psh,
        bwd_urg,
    }
}

proof fn lemma_pos_step(s: Seq<u64>, i: int)
    requires
        0 <= i < s.len(),
    ensures
        s.take(i + 1).filter(|x: u64| x > 0) == if s[i] > 0 {
            s.take(i).filter(|x: u64| x > 0).push(s[i])
        } else {
            s.take(i).filter(|x: u64| x > 0)
        },
{
    let t = s.take(i + 1);
    assert(t.drop_last() =~= s.take(i));
    assert(t.last() == s[i]);
    reveal(Seq::filter);
}

/// The positive values of a sequence, kept in order.
pub fn collect_positive(values: &Vec<u64>) -> (r: Vec<u64>)
    ensures
        r@ == pos_only(values@),
{
    let mut r: Vec<u64> = Vec::new();
    let mut i: usize = 0;
    while i < values.len()
        invariant
            i <= values@.len(),
            r@ == values@.take(i as int).filter(|x: u64| x > 0),
        decreases values@.len() - i,
    {
        proof {
            lemma_pos_step(values@, i as int);
        }
        if values[i] > 0 {
            r.push(values[i]);
        }
        i = i + 1;
    }
    proof {
        assert(values@.take(values@.len() as int) =~= values@);
    }
    r
}


/// Two sample vectors laid end to end.
pub fn concat_u64(a: &Vec<u64>, b: &Vec<u64>) -> (r: Vec<u64>)
    ensures
        r@ == a@ + b@,
{
    let mut r: Vec<u64> = Vec::new();
    let mut i: usize = 0;
    while i < a.len()
        invariant
            i <= a@.len(),
            r@ =~= a@.take(i as int),
        decreases a@.len() - i,
    {
        r.push(a[i]);
        proof {
            assert(a@.take(i + 1) =~= a@.take(i as int).push(a@[i as int]));
        }
        i = i + 1;
    }
    proof {
        assert(a@.take(a@.len() as int) =~= a@);
    }
    let mut j: usize = 0;
    while j < b.len()
        invariant
            j <= b@.len(),
            r@ =~= a@ + b@.take(j as int),
        decreases b@.len() - j,
    {
        r.push(b[j]);
        proof {
            assert(a@ + b@.take(j + 1) =~= (a@ + b@.take(j as int)).push(b@[j as int]));
        }
        j = j + 1;
    }
    proof {
        assert(b@.take(b@.len() as int) =~= b@);
    }
    r
}

/// The well-known service ports the deployment watches for.
pub open spec fn spec_is_common_port(p: u16) -> bool {
    ||| p == 20
    ||| p == 21
    ||| p == 22
    ||| p == 23
    ||| p == 25
    ||| p == 53
    ||| p == 67
    ||| p == 68
    ||| p == 69
    ||| p == 80
    ||| p == 110
    ||| p == 119
    ||| p == 123
    ||| p == 135
    ||| p == 139
    ||| p == 143
    ||| p == 161
    ||| p == 194
    ||| p == 443
    ||| p == 993
    ||| p == 995
}

/// Whether the port hosts one of the watched common services.
pub fn is_common_port(p: u16) -> (r: bool)
    ensures
        r == spec_is_common_port(p),
{
    match p {
        20 | 21 | 22 | 23 | 25 | 53 | 67 | 68 | 69 | 80 | 110 | 119 | 123 | 135 | 139 | 143 | 161
            | 194 | 443 | 993 | 995 => true,
        _ => false,
    }
}

/// Elapsed microseconds from the flow's start to the snapshot time; a
/// clock that reads earlier than the start yields zero.
pub open spec fn spec_duration(f: FlowTracker, now: u64) -> int {
    if now >= f.start_time {
        now - f.start_time
    } else {
        0
    }
}

/// One extracted feature vector. Counts and sums are integers, means
/// and rates exact rationals, and each measurement group carries its
/// full summary, from which mean, variance and standard deviation are
/// exact projections.
#[derive(Debug, Clone)]
pub struct FlowFeatures {
    pub src_ip: u32,
    pub dst_ip: u32,
    pub src_port: u16,
    pub dst_port: u16,
    pub protocol: u8,
    pub timestamp_micros: u64,
    pub flow_duration_micros: u64,
    pub flow_byts_s: Ratio,
    pub flow_pkts_s: Ratio,
    pub fwd_pkts_s: Ratio,
    pub bwd_pkts_s: Ratio,
    pub tot_fwd_pkts: u64,
    pub tot_bwd_pkts: u64,
    pub totlen_fwd_pkts: u64,
    pub totlen_bwd_pkts: u64,
    pub fwd_pkt_len: StatsSummary,
    pub bwd_pkt_len: StatsSummary,
    pub pkt_len: StatsSummary,
    pub fwd_header_len: u64,
    pub bwd_header_len: u64,
    pub fwd_seg_size_min: u64,
    pub fwd_act_data_pkts: u64,
    pub flow_iat: StatsSummary,
    pub fwd_iat: StatsSummary,
    pub bwd_iat: StatsSummary,
    pub fwd_psh_flags: u64,
    pub bwd_psh_flags: u64,
    pub fwd_urg_flags: u64,
    pub bwd_urg_flags: u64,
    pub fin_flag_cnt: u64,
    pub syn_flag_cnt: u64,
    pub rst_flag_cnt: u64,
    pub psh_flag_cnt: u64,
    pub ack_flag_cnt: u64,
    pub urg_flag_cnt: u64,
    pub ece_flag_cnt: u64,
    pub cwr_flag_count: u64,
    pub down_up_ratio: Ratio,
    pub pkt_size_avg: Ratio,
    pub init_fwd_win_byts: u16,
    pub init_bwd_win_byts: u16,
    pub active: StatsSummary,
    pub idle: StatsSummary,
    pub fwd_byts_b_avg: Ratio,
    pub fwd_pkts_b_avg: u64,
    pub bwd_byts_b_avg: Ratio,
    pub bwd_pkts_b_avg: u64,
    pub fwd_blk_rate_avg: Ratio,
    pub bwd_blk_rate_avg: Ratio,
    pub fwd_seg_size_avg: Ratio,
    pub bwd_seg_size_avg: Ratio,
    pub subflow_fwd_pkts: u64,
    pub subflow_bwd_pkts: u64,
    pub subflow_fwd_byts: u64,
    pub subflow_bwd_byts: u64,
    pub fwd_bwd_ratio: Ratio,
    pub avg_fwd_pkt_size: Ratio,
    pub flow_efficiency: Ratio,
    pub total_flags: u64,
    pub flag_diversity: u64,
    pub is_tcp: bool,
    pub is_udp: bool,
    pub is_icmp: bool,
    pub src_is_wellknown: bool,
    pub dst_is_wellknown: bool,
    pub src_is_common: bool,
    pub dst_is_common: bool,
    pub label: String,
}

/// What extraction promises of every field, for a flow snapshot taken
/// at `now`. Every quotient with an empty divisor is the zero rational,
/// so empty directions and zero durations degrade to zero.
pub open spec fn features_model(f: FlowTracker, now: u64, r: FlowFeatures) -> bool {
    let fwd = f.fwd_packets@;
    let bwd = f.bwd_packets@;
    let fs = sizes_of(fwd);
    let bs = sizes_of(bwd);
    let alls = fs + bs;
    let fts = ts_of(fwd);
    let bts = ts_of(bwd);
    let m = spec_merge(fts, bts);
    let dur = spec_duration(f, now);
    let fsum = seq_sum(fs);
    let bsum = seq_sum(bs);
    let fpay = payloads_of(fwd);
    let bpay = payloads_of(bwd);
    let fpsum = seq_sum(fpay);
    let bpsum = seq_sum(bpay);
    let nf = fwd.len() as int;
    let nb = bwd.len() as int;
    &&& r.src_ip == f.src_ip
    &&& r.dst_ip == f.dst_ip
    &&& r.src_port == f.src_port
    &&& r.dst_port == f.dst_port
    &&& r.protocol == f.protocol
    &&& r.timestamp_micros == now
    &&& r.flow_duration_micros == dur
    &&& r.tot_fwd_pkts == nf
    &&& r.tot_bwd_pkts == nb
    &&& r.totlen_fwd_pkts == fsum
    &&& r.totlen_bwd_pkts == bsum
    &&& r.fwd_pkt_len.models(fs)
    &&& r.bwd_pkt_len.models(bs)
    &&& r.pkt_len.models(alls)
    &&& (dur > 0 ==> r.flow_byts_s == (Ratio {
        num: ((fsum + bsum) * 1_000_000) as u128,
        den: dur as u128,
    }))
    &&& (dur == 0 ==> r.flow_byts_s == Ratio::spec_zero())
    &&& (dur > 0 ==> r.flow_pkts_s == (Ratio {
        num: ((nf + nb) * 1_000_000) as u128,
        den: dur as u128,
    }))
    &&& (dur == 0 ==> r.flow_pkts_s == Ratio::spec_zero())
    &&& (dur > 0 ==> r.fwd_pkts_s == (Ratio { num: (nf * 1_000_000) as u128, den: dur as u128 }))
    &&& (dur == 0 ==> r.fwd_pkts_s == Ratio::spec_zero())
    &&& (dur > 0 ==> r.bwd_pkts_s == (Ratio { num: (nb * 1_000_000) as u128, den: dur as u128 }))
    &&& (dur == 0 ==> r.bwd_pkts_s == Ratio::spec_zero())
    &&& r.fwd_header_len == seq_sum(headers_of(fwd))
    &&& r.bwd_header_len == seq_sum(headers_of(bwd))
    &&& r.fwd_act_data_pkts == count_pos(fpay)
    &&& r.flow_iat.models(iats_of(m))
    &&& r.fwd_iat.models(iats_of(fts))
    &&& r.bwd_iat.models(iats_of(bts))
    &&& (f.protocol == PROTO_TCP ==> {
        &&& r.fin_flag_cnt == count_flag(fwd, FIN_MASK) + count_flag(bwd, FIN_MASK)
        &&& r.syn_flag_cnt == count_flag(fwd, SYN_MASK) + count_flag(bwd, SYN_MASK)
        &&& r.rst_flag_cnt == count_flag(fwd, RST_MASK) + count_flag(bwd, RST_MASK)
        &&& r.psh_flag_cnt == count_flag(fwd, PSH_MASK) + count_flag(bwd, PSH_MASK)
        &&& r.ack_flag_cnt == count_flag(fwd, ACK_MASK) + count_flag(bwd, ACK_MASK)
        &&& r.urg_flag_cnt == count_flag(fwd, URG_MASK) + count_flag(bwd, URG_MASK)
        &&& r.ece_flag_cnt == count_flag(fwd, ECE_MASK) + count_flag(bwd, ECE_MASK)
        &&& r.cwr_flag_count == count_flag(fwd, CWR_MASK) + count_flag(bwd, CWR_MASK)
        &&& r.fwd_psh_flags == count_flag(fwd, PSH_MASK)
        &&& r.fwd_urg_flags == count_flag(fwd, URG_MASK)
        &&& r.bwd_psh_flags == count_flag(bwd, PSH_MASK)
        &&& r.bwd_urg_flags == count_flag(bwd, URG_MASK)
    })
    &&& (f.protocol != PROTO_TCP ==> {
        &&& r.fin_flag_cnt == 0
        &&& r.syn_flag_cnt == 0
        &&& r.rst_flag_cnt == 0
        &&& r.psh_flag_cnt == 0
        &&& r.ack_flag_cnt == 0
        &&& r.urg_flag_cnt == 0
        &&& r.ece_flag_cnt == 0
        &&& r.cwr_flag_count == 0
        &&& r.fwd_psh_flags == 0
        &&& r.fwd_urg_flags == 0
        &&& r.bwd_psh_flags == 0
        &&& r.bwd_urg_flags == 0
    })
    &&& r.init_fwd_win_byts == (match f.init_fwd_win {
        Some(w) => w,
        None => 0u16,
    })
    &&& r.init_bwd_win_byts == (match f.init_bwd_win {
        Some(w) => w,
        None => 0u16,
    })
    &&& (nf > 0 ==> r.fwd_byts_b_avg == (Ratio { num: fpsum as u128, den: nf as u128 }))
    &&& (nf == 0 ==> r.fwd_byts_b_avg == Ratio::spec_zero())
    &&& r.fwd_pkts_b_avg == nf
    &&& (nb > 0 ==> r.bwd_byts_b_avg == (Ratio { num: bpsum as u128, den: nb as u128 }))
    &&& (nb == 0 ==> r.bwd_byts_b_avg == Ratio::spec_zero())
    &&& r.bwd_pkts_b_avg == nb
    &&& (nf > 0 && dur <= 1_000_000 ==> r.fwd_blk_rate_avg == (Ratio {
        num: fpsum as u128,
        den: nf as u128,
    }))
    &&& (nf > 0 && dur > 1_000_000 ==> r.fwd_blk_rate_avg == (Ratio {
        num: (fpsum * 1_000_000) as u128,
        den: (nf * dur) as u128,
    }))
    &&& (nf == 0 ==> r.fwd_blk_rate_avg == Ratio::spec_zero())
    &&& (nb > 0 && dur <= 1_000_000 ==> r.bwd_blk_rate_avg == (Ratio {
        num: bpsum as u128,
        den: nb as u128,
    }))
    &&& (nb > 0 && dur > 1_000_000 ==> r.bwd_blk_rate_avg == (Ratio {
        num: (bpsum * 1_000_000) as u128,
        den: (nb * dur) as u128,
    }))
    &&& (nb == 0 ==> r.bwd_blk_rate_avg == Ratio::spec_zero())
    &&& r.active.models(spec_active(m))
    &&& r.idle.models(spec_idle(m))
    &&& r.subflow_fwd_pkts == nf
    &&& r.subflow_bwd_pkts == nb
    &&& r.subflow_fwd_byts == fsum
    &&& r.subflow_bwd_byts == bsum
    &&& (fsum > 0 ==> r.down_up_ratio == (Ratio { num: bsum as u128, den: fsum as u128 }))
    &&& (fsum == 0 ==> r.down_up_ratio == Ratio::spec_zero())
    &&& (nf + nb > 0 ==> r.pkt_size_avg == (Ratio {
        num: (fsum + bsum) as u128,
        den: (nf + nb) as u128,
    }))
    &&& (nf + nb == 0 ==> r.pkt_size_avg == Ratio::spec_zero())
    &&& (nf > 0 ==> r.fwd_seg_size_avg == (Ratio { num: fsum as u128, den: nf as u128 }))
    &&& (nf == 0 ==> r.fwd_seg_size_avg == Ratio::spec_zero())
    &&& (nb > 0 ==> r.bwd_seg_size_avg == (Ratio { num: bsum as u128, den: nb as u128 }))
    &&& (nb == 0 ==> r.bwd_seg_size_avg == Ratio::spec_zero())
    &&& r.fwd_seg_size_min == seq_min(pos_only(fpay))
    &&& (nb > 0 ==> r.fwd_bwd_ratio == (Ratio { num: nf as u128, den: nb as u128 }))
    &&& (nb == 0 ==> r.fwd_bwd_ratio == (Ratio { num: nf as u128, den: 1 }))
    &&& (nf > 0 ==> r.avg_fwd_pkt_size == (Ratio { num: fsum as u128, den: nf as u128 }))
    &&& (nf == 0 ==> r.avg_fwd_pkt_size == Ratio::spec_zero())
    &&& (nf + nb > 0 ==> r.flow_efficiency == (Ratio {
        num: (fsum + bsum) as u128,
        den: (nf + nb) as u128,
    }))
    &&& (nf + nb == 0 ==> r.flow_efficiency == Ratio::spec_zero())
    &&& r.total_flags == r.fin_flag_cnt + r.syn_flag_cnt + r.rst_flag_cnt + r.psh_flag_cnt
        + r.ack_flag_cnt + r.urg_flag_cnt + r.ece_flag_cnt + r.cwr_flag_count
    &&& r.flag_diversity == (if r.fin_flag_cnt > 0 {
        1int
    } else {
        0int
    }) + (if r.syn_flag_cnt > 0 {
        1int
    } else {
        0int
    }) + (if r.rst_flag_cnt > 0 {
        1int
    } else {
        0int
    }) + (if r.psh_flag_cnt > 0 {
        1int
    } else {
        0int
    }) + (if r.ack_flag_cnt > 0 {
        1int
    } else {
        0int
    }) + (if r.urg_flag_cnt > 0 {
        1int
    } else {
        0int
    }) + (if r.ece_flag_cnt > 0 {
        1int
    } else {
        0int
    }) + (if r.cwr_flag_count > 0 {
        1int
    } else {
        0int
    })
    &&& r.is_tcp == (f.protocol == PROTO_TCP)
    &&& r.is_udp == (f.protocol == PROTO_UDP)
    &&& r.is_icmp == (f.protocol == PROTO_ICMP)
    &&& r.src_is_wellknown == (f.src_port <= 1023)
    &&& r.dst_is_wellknown == (f.dst_port <= 1023)
    &&& r.src_is_common == spec_is_common_port(f.src_port)
    &&& r.dst_is_common == spec_is_common_port(f.dst_port)
    &&& r.label@ == Seq::<char>::empty()
}

impl Default for FlowFeatures {
    /// The all-zero vector: every count, sum and summary is zero, every
    /// rational is the zero rational, and the label is empty.
    fn default() -> (r: Self)
        ensures
            r.src_ip == 0 && r.dst_ip == 0 && r.src_port == 0 && r.dst_port == 0,
            r.protocol == 0 && r.timestamp_micros == 0 && r.flow_duration_micros == 0,
            r.flow_byts_s == Ratio::spec_zero() && r.flow_pkts_s == Ratio::spec_zero(),
            r.fwd_pkts_s == Ratio::spec_zero() && r.bwd_pkts_s == Ratio::spec_zero(),
            r.tot_fwd_pkts == 0 && r.tot_bwd_pkts == 0,
            r.totlen_fwd_pkts == 0 && r.totlen_bwd_pkts == 0,
            r.fwd_pkt_len.models(Seq::<u64>::empty()),
            r.bwd_pkt_len.models(Seq::<u64>::empty()),
            r.pkt_len.models(Seq::<u64>::empty()),
            r.fwd_header_len == 0 && r.bwd_header_len == 0,
            r.fwd_seg_size_min == 0 && r.fwd_act_data_pkts == 0,
            r.flow_iat.models(Seq::<u64>::empty()),
            r.fwd_iat.models(Seq::<u64>::empty()),
            r.bwd_iat.models(Seq::<u64>::empty()),
            r.fwd_psh_flags == 0 && r.bwd_psh_flags == 0,
            r.fwd_urg_flags == 0 && r.bwd_urg_flags == 0,
            r.fin_flag_cnt == 0 && r.syn_flag_cnt == 0 && r.rst_flag_cnt == 0,
            r.psh_flag_cnt == 0 && r.ack_flag_cnt == 0 && r.urg_flag_cnt == 0,
            r.ece_flag_cnt == 0 && r.cwr_flag_count == 0,
            r.down_up_ratio == Ratio::spec_zero() && r.pkt_size_avg == Ratio::spec_zero(),
            r.init_fwd_win_byts == 0 && r.init_bwd_win_byts == 0,
            r.active.models(Seq::<u64>::empty()),
            r.idle.models(Seq::<u64>::empty()),
            r.fwd_byts_b_avg == Ratio::spec_zero() && r.fwd_pkts_b_avg == 0,
            r.bwd_byts_b_avg == Ratio::spec_zero() && r.bwd_pkts_b_avg == 0,
            r.fwd_blk_rate_avg == Ratio::spec_zero() && r.bwd_blk_rate_avg == Ratio::spec_zero(),
            r.fwd_seg_size_avg == Ratio::spec_zero() && r.bwd_seg_size_avg == Ratio::spec_zero(),
            r.subflow_fwd_pkts == 0 && r.subflow_bwd_pkts == 0,
            r.subflow_fwd_byts == 0 && r.subflow_bwd_byts == 0,
            r.fwd_bwd_ratio == Ratio::spec_zero() && r.avg_fwd_pkt_size == Ratio::spec_zero(),
            r.flow_efficiency == Ratio::spec_zero(),
            r.total_flags == 0 && r.flag_diversity == 0,
            !r.is_tcp && !r.is_udp && !r.is_icmp,
            !r.src_is_wellknown && !r.dst_is_wellknown,
            !r.src_is_common && !r.dst_is_common,
            r.label@ == Seq::<char>::empty(),
    {
        let zero_summary = StatsSummary { count: 0, sum: 0, sum_sq: 0, min_v: 0, max_v: 0 };
        FlowFeatures {
            src_ip: 0,
            dst_ip: 0,
            src_port: 0,
            dst_port: 0,
            protocol: 0,
            timestamp_micros: 0,
            flow_duration_micros: 0,
            flow_byts_s: Ratio::zero(),
            flow_pkts_s: Ratio::zero(),
            fwd_pkts_s: Ratio::zero(),
            bwd_pkts_s: Ratio::zero(),
            tot_fwd_pkts: 0,
            tot_bwd_pkts: 0,
            totlen_fwd_pkts: 0,
            totlen_bwd_pkts: 0,
            fwd_pkt_len: zero_summary,
            bwd_pkt_len: zero_summary,
            pkt_len: zero_summary,
            fwd_header_len: 0,
            bwd_header_len: 0,
            fwd_seg_size_min: 0,
            fwd_act_data_pkts: 0,
            flow_iat: zero_summary,
            fwd_iat: zero_summary,
            bwd_iat: zero_summary,
            fwd_psh_flags: 0,
            bwd_psh_flags: 0,
            fwd_urg_flags: 0,
            bwd_urg_flags: 0,
            fin_flag_cnt: 0,
            syn_flag_cnt: 0,
            rst_flag_cnt: 0,
            psh_flag_cnt: 0,
            ack_flag_cnt: 0,
            urg_flag_cnt: 0,
            ece_flag_cnt: 0,
            cwr_flag_count: 0,
            down_up_ratio: Ratio::zero(),
            pkt_size_avg: Ratio::zero(),
            init_fwd_win_byts: 0,
            init_bwd_win_byts: 0,
            active: zero_summary,
            idle: zero_summary,
            fwd_byts_b_avg: Ratio::zero(),
            fwd_pkts_b_avg: 0,
            bwd_byts_b_avg: Ratio::zero(),
            bwd_pkts_b_avg: 0,
            fwd_blk_rate_avg: Ratio::zero(),
            bwd_blk_rate_avg: Ratio::zero(),
            fwd_seg_size_avg: Ratio::zero(),
            bwd_seg_size_avg: Ratio::zero(),
            subflow_fwd_pkts: 0,
            subflow_bwd_pkts: 0,
            subflow_fwd_byts: 0,
            subflow_bwd_byts: 0,
            fwd_bwd_ratio: Ratio::zero(),
            avg_fwd_pkt_size: Ratio::zero(),
            flow_efficiency: Ratio::zero(),
            total_flags: 0,
            flag_diversity: 0,
            is_tcp: false,
            is_udp: false,
            is_icmp: false,
            src_is_wellknown: false,
            dst_is_wellknown: false,
            src_is_common: false,
            dst_is_common: false,
            label: String::new(),
        }
    }
}

/// Extract the full feature vector from a flow snapshot at absolute
/// microsecond time `now_abs`. Extraction is pure and never fails;
/// every field is pinned down by [`features_model`].
#[verifier::rlimit(80)]
pub fn calculate_features(flow: &FlowTracker, now_abs: u64) -> (r: FlowFeatures)
    requires
        flow.wf(),
    ensures
        features_model(*flow, now_abs, r),
{
    let fwd = &flow.fwd_packets;
    let bwd = &flow.bwd_packets;
    let nf = fwd.len();
    let nb = bwd.len();
    let fs = collect_sizes(fwd);
    let bs = collect_sizes(bwd);
    let alls = concat_u64(&fs, &bs);
    proof {
        assert forall|i: int| 0 <= i < fs@.len() implies #[trigger] fs@[i] <= 65535 by {
            assert(fs@[i] == fwd@[i].size as u64);
        }
        assert forall|i: int| 0 <= i < bs@.len() implies #[trigger] bs@[i] <= 65535 by {
            assert(bs@[i] == bwd@[i].size as u64);
        }
        assert forall|i: int| 0 <= i < alls@.len() implies #[trigger] alls@[i] <= 65535 by {
            if i < fs@.len() {
                assert(alls@[i] == fs@[i]);
            } else {
                assert(alls@[i] == bs@[i - fs@.len()]);
            }
        }
        assert(samples_ok(fs@));
        assert(samples_ok(bs@));
        assert(samples_ok(alls@));
        lemma_sum_le(fs@, 65535);
        lemma_sum_le(bs@, 65535);
        assert(fs@.len() * 65535 < 0x1_0000_0000_0000) by (nonlinear_arith)
            requires 0 <= fs@.len() <= 0x8000_0000;
        assert(bs@.len() * 65535 < 0x1_0000_0000_0000) by (nonlinear_arith)
            requires 0 <= bs@.len() <= 0x8000_0000;
    }
    let fwd_pkt_len = calculate_stats(&fs);
    let bwd_pkt_len = calculate_stats(&bs);
    let pkt_len = calculate_stats(&alls);
    let totlen_fwd_pkts = fwd_pkt_len.sum as u64;
    let totlen_bwd_pkts = bwd_pkt_len.sum as u64;

    let fh = collect_headers(fwd);
    let bh = collect_headers(bwd);
    proof {
        assert forall|i: int| 0 <= i < fh@.len() implies #[trigger] fh@[i] <= 65535 by {
            assert(fh@[i] == fwd@[i].header_len as u64);
        }
        assert forall|i: int| 0 <= i < bh@.len() implies #[trigger] bh@[i] <= 65535 by {
            assert(bh@[i] == bwd@[i].header_len as u64);
        }
        assert(samples_ok(fh@));
        assert(samples_ok(bh@));
        lemma_sum_le(fh@, 65535);
        lemma_sum_le(bh@, 65535);
        assert(fh@.len() * 65535 < 0x1_0000_0000_0000) by (nonlinear_arith)
            requires 0 <= fh@.len() <= 0x8000_0000;
        assert(bh@.len() * 65535 < 0x1_0000_0000_0000) by (nonlinear_arith)
            requires 0 <= bh@.len() <= 0x8000_0000;
    }
    let fwd_header_len = SIMDFeatureCalculator::grouped_sum(&fh) as u64;
    let bwd_header_len = SIMDFeatureCalculator::grouped_sum(&bh) as u64;

    let fpay = collect_payloads(fwd);
    let bpay = collect_payloads(bwd);
    proof {
        assert forall|i: int| 0 <= i < fpay@.len() implies #[trigger] fpay@[i] <= 65535 by {
            assert(fpay@[i] == fwd@[i].payload_len as u64);
        }
        assert forall|i: int| 0 <= i < bpay@.len() implies #[trigger] bpay@[i] <= 65535 by {
            assert(bpay@[i] == bwd@[i].payload_len as u64);
        }
        assert(samples_ok(fpay@));
        assert(samples_ok(bpay@));
        lemma_sum_le(fpay@, 65535);
        lemma_sum_le(bpay@, 65535);
        assert(fpay@.len() * 65535 < 0x1_0000_0000_0000) by (nonlinear_arith)
            requires 0 <= fpay@.len() <= 0x8000_0000;
        assert(bpay@.len() * 65535 < 0x1_0000_0000_0000) by (nonlinear_arith)
            requires 0 <= bpay@.len() <= 0x8000_0000;
    }
    let fpsum = SIMDFeatureCalculator::grouped_sum(&fpay);
    let bpsum = SIMDFeatureCalculator::grouped_sum(&bpay);
    let fpos = collect_positive(&fpay);
    let fwd_act_data_pkts = fpos.len() as u64;
    let mm = SIMDFeatureCalculator::grouped_min_max(&fpos);
    let fwd_seg_size_min = mm.0;

    let fts = collect_ts(fwd);
    let bts = collect_ts(bwd);
    proof {
        assert forall|i: int, j: int| 0 <= i <= j < fts@.len() implies fts@[i] <= fts@[j] by {
            assert(fts@[i] == fwd@[i].timestamp);
            assert(fts@[j] == fwd@[j].timestamp);
        }
        assert forall|i: int, j: int| 0 <= i <= j < bts@.len() implies bts@[i] <= bts@[j] by {
            assert(bts@[i] == bwd@[i].timestamp);
            assert(bts@[j] == bwd@[j].timestamp);
        }
        assert forall|i: int| 0 <= i < fts@.len() implies #[trigger] fts@[i] <= SPAN_LIMIT by {
            assert(fts@[i] == fwd@[i].timestamp);
            assert(fwd@[i].wf());
        }
        assert forall|i: int| 0 <= i < bts@.len() implies #[trigger] bts@[i] <= SPAN_LIMIT by {
            assert(bts@[i] == bwd@[i].timestamp);
            assert(bwd@[i].wf());
        }
    }
    let fwd_iats = calculate_inter_arrival_times_from_sorted(&fts);
    let bwd_iats = calculate_inter_arrival_times_from_sorted(&bts);
    proof {
        assert forall|k: int| 0 <= k < fwd_iats@.len() implies #[trigger] fwd_iats@[k]
            <= SPAN_LIMIT by {
            assert(fwd_iats@[k] == (fts@[k + 1] - fts@[k]) as u64);
            assert(fts@[k] <= fts@[k + 1] <= SPAN_LIMIT);
        }
        assert forall|k: int| 0 <= k < bwd_iats@.len() implies #[trigger] bwd_iats@[k]
            <= SPAN_LIMIT by {
            assert(bwd_iats@[k] == (bts@[k + 1] - bts@[k]) as u64);
            assert(bts@[k] <= bts@[k + 1] <= SPAN_LIMIT);
        }
        assert(samples_ok(fwd_iats@));
        assert(samples_ok(bwd_iats@));
    }
    let fwd_iat = calculate_stats(&fwd_iats);
    let bwd_iat = calculate_stats(&bwd_iats);

    let merged = merge_timestamps(&fts, &bts);
    proof {
        lemma_merge_props(fts@, bts@, SPAN_LIMIT);
    }
    let flow_iats = calculate_inter_arrival_times_from_sorted(&merged);
    proof {
        assert forall|k: int| 0 <= k < flow_iats@.len() implies #[trigger] flow_iats@[k]
            <= SPAN_LIMIT by {
            assert(flow_iats@[k] == (merged@[k + 1] - merged@[k]) as u64);
            assert(merged@[k] <= merged@[k + 1] <= SPAN_LIMIT);
        }
        assert(samples_ok(flow_iats@));
    }
    let flow_iat = calculate_stats(&flow_iats);
    let active_idle = calculate_active_idle_stats(&merged);
    let active_v = active_idle.0;
    let idle_v = active_idle.1;
    proof {
        assert(samples_ok(active_v@));
        assert(samples_ok(idle_v@));
    }
    let active = calculate_stats(&active_v);
    let idle = calculate_stats(&idle_v);

    let flags = if flow.protocol == PROTO_TCP {
        calculate_tcp_flags(fwd, bwd)
    } else {
        FlagCounts {
            fin: 0,
            syn: 0,
            rst: 0,
            psh: 0,
            ack: 0,
            urg: 0,
            ece: 0,
            cwr: 0,
            fwd_psh: 0,
            fwd_urg: 0,
            bwd_psh: 0,
            bwd_urg: 0,
        }
    };
    proof {
        if flow.protocol == PROTO_TCP {
            lemma_count_flag_le(fwd@, FIN_MASK);
            lemma_count_flag_le(bwd@, FIN_MASK);
            lemma_count_flag_le(fwd@, SYN_MASK);
            lemma_count_flag_le(bwd@, SYN_MASK);
            lemma_count_flag_le(fwd@, RST_MASK);
            lemma_count_flag_le(bwd@, RST_MASK);
            lemma_count_flag_le(fwd@, PSH_MASK);
            lemma_count_flag_le(bwd@, PSH_MASK);
            lemma_count_flag_le(fwd@, ACK_MASK);
            lemma_count_flag_le(bwd@, ACK_MASK);
            lemma_count_flag_le(fwd@, URG_MASK);
            lemma_count_flag_le(bwd@, URG_MASK);
            lemma_count_flag_le(fwd@, ECE_MASK);
            lemma_count_flag_le(bwd@, ECE_MASK);
            lemma_count_flag_le(fwd@, CWR_MASK);
            lemma_count_flag_le(bwd@, CWR_MASK);
        }
    }
    let total_flags = flags.fin + flags.syn + flags.rst + flags.psh + flags.ack + flags.urg
        + flags.ece + flags.cwr;
    let mut flag_diversity: u64 = 0;
    if flags.fin > 0 {
        flag_diversity = flag_diversity + 1;
    }
    if flags.syn > 0 {
        flag_diversity = flag_diversity + 1;
    }
    if flags.rst > 0 {
        flag_diversity = flag_diversity + 1;
    }
    if flags.psh > 0 {
        flag_diversity = flag_diversity + 1;
    }
    if flags.ack > 0 {
        flag_diversity = flag_diversity + 1;
    }
    if flags.urg > 0 {
        flag_diversity = flag_diversity + 1;
    }
    if flags.ece > 0 {
        flag_diversity = flag_diversity + 1;
    }
    if flags.cwr > 0 {
        flag_diversity = flag_diversity + 1;
    }

    let flow_duration_micros = if now_abs >= flow.start_time {
        now_abs - flow.start_time
    } else {
        0
    };
    let dur128 = flow_duration_micros as u128;
    let total_bytes = totlen_fwd_pkts as u128 + totlen_bwd_pkts as u128;
    let total_pkts = nf as u128 + nb as u128;
    let flow_byts_s = Ratio::frac_or_zero(total_bytes * 1_000_000, dur128);
    let flow_pkts_s = Ratio::frac_or_zero(total_pkts * 1_000_000, dur128);
    let fwd_pkts_s = Ratio::frac_or_zero(nf as u128 * 1_000_000, dur128);
    let bwd_pkts_s = Ratio::frac_or_zero(nb as u128 * 1_000_000, dur128);

    let fwd_byts_b_avg = Ratio::frac_or_zero(fpsum, nf as u128);
    let bwd_byts_b_avg = Ratio::frac_or_zero(bpsum, nb as u128);
    let fwd_blk_rate_avg = if flow_duration_micros <= 1_000_000 {
        Ratio::frac_or_zero(fpsum, nf as u128)
    } else {
        proof {
            assert(nf as int * flow_duration_micros as int <= u128::MAX) by (nonlinear_arith)
                requires
                    0 <= nf <= 0x8000_0000,
                    0 <= flow_duration_micros <= u64::MAX,
            ;
            if nf > 0 {
                assert(nf as int * flow_duration_micros as int > 0) by (nonlinear_arith)
                    requires
                        nf >= 1,
                        flow_duration_micros >= 1,
                ;
            }
        }
        Ratio::frac_or_zero(fpsum * 1_000_000, nf as u128 * dur128)
    };
    let bwd_blk_rate_avg = if flow_duration_micros <= 1_000_000 {
        Ratio::frac_or_zero(bpsum, nb as u128)
    } else {
        proof {
            assert(nb as int * flow_duration_micros as int <= u128::MAX) by (nonlinear_arith)
                requires
                    0 <= nb <= 0x8000_0000,
                    0 <= flow_duration_micros <= u64::MAX,
            ;
            if nb > 0 {
                assert(nb as int * flow_duration_micros as int > 0) by (nonlinear_arith)
                    requires
                        nb >= 1,
                        flow_duration_micros >= 1,
                ;
            }
        }
        Ratio::frac_or_zero(bpsum * 1_000_000, nb as u128 * dur128)
    };

    let down_up_ratio = Ratio::frac_or_zero(totlen_bwd_pkts as u128, totlen_fwd_pkts as u128);
    let pkt_size_avg = Ratio::frac_or_zero(total_bytes, total_pkts);
    let fwd_seg_size_avg = Ratio::frac_or_zero(totlen_fwd_pkts as u128, nf as u128);
    let bwd_seg_size_avg = Ratio::frac_or_zero(totlen_bwd_pkts as u128, nb as u128);
    let fwd_bwd_ratio = if nb > 0 {
        Ratio { num: nf as u128, den: nb as u128 }
    } else {
        Ratio { num: nf as u128, den: 1 }
    };
    let avg_fwd_pkt_size = Ratio::frac_or_zero(totlen_fwd_pkts as u128, nf as u128);
    let flow_efficiency = Ratio::frac_or_zero(total_bytes, total_pkts);

    let init_fwd_win_byts = match flow.init_fwd_win {
        Some(w) => w,
        None => 0,
    };
    let init_bwd_win_byts = match flow.init_bwd_win {
        Some(w) => w,
        None => 0,
    };

    FlowFeatures {
        src_ip: flow.src_ip,
        dst_ip: flow.dst_ip,
        src_port: flow.src_port,
        dst_port: flow.dst_port,
        protocol: flow.protocol,
        timestamp_micros: now_abs,
        flow_duration_micros,
        flow_byts_s,
        flow_pkts_s,
        fwd_pkts_s,
        bwd_pkts_s,
        tot_fwd_pkts: nf as u64,
        tot_bwd_pkts: nb as u64,
        totlen_fwd_pkts,
        totlen_bwd_pkts,
        fwd_pkt_len,
        bwd_pkt_len,
        pkt_len,
        fwd_header_len,
        bwd_header_len,
        fwd_seg_size_min,
        fwd_act_data_pkts,
        flow_iat,
        fwd_iat,
        bwd_iat,
        fwd_psh_flags: flags.fwd_psh,
        bwd_psh_flags: flags.bwd_psh,
        fwd_urg_flags: flags.fwd_urg,
        bwd_urg_flags: flags.bwd_urg,
        fin_flag_cnt: flags.fin,
        syn_flag_cnt: flags.syn,
        rst_flag_cnt: flags.rst,
        psh_flag_cnt: flags.psh,
        ack_flag_cnt: flags.ack,
        urg_flag_cnt: flags.urg,
        ece_flag_cnt: flags.ece,
        cwr_flag_count: flags.cwr,
        down_up_ratio,
        pkt_size_avg,
        init_fwd_win_byts,
        init_bwd_win_byts,
        active,
        idle,
        fwd_byts_b_avg,
        fwd_pkts_b_avg: nf as u64,
        bwd_byts_b_avg,
        bwd_pkts_b_avg: nb as u64,
        fwd_blk_rate_avg,
        bwd_blk_rate_avg,
        fwd_seg_size_avg,
        bwd_seg_size_avg,
        subflow_fwd_pkts: nf as u64,
        subflow_bwd_pkts: nb as u64,
        subflow_fwd_byts: totlen_fwd_pkts,
        subflow_bwd_byts: totlen_bwd_pkts,
        fwd_bwd_ratio,
        avg_fwd_pkt_size,
        flow_efficiency,
        total_flags,
        flag_diversity,
        is_tcp: flow.protocol == PROTO_TCP,
        is_udp: flow.protocol == PROTO_UDP,
        is_icmp: flow.protocol == PROTO_ICMP,
        src_is_wellknown: flow.src_port <= 1023,
        dst_is_wellknown: flow.dst_port <= 1023,
        src_is_common: is_common_port(flow.src_port),
        dst_is_common: is_common_port(flow.dst_port),
        label: String::new(),
    }
}


/// Count/sum consistency: for any flow, the extracted forward packet
/// count is the forward queue's length and the extracted forward byte
/// total is the sum of its sizes, and likewise backward.
pub proof fn lemma_count_sum_consistency(f: FlowTracker, now: u64, r: FlowFeatures)
    requires
        features_model(f, now, r),
    ensures
        r.tot_fwd_pkts == f.fwd_packets@.len(),
        r.totlen_fwd_pkts == seq_sum(sizes_of(f.fwd_packets@)),
        r.tot_bwd_pkts == f.bwd_packets@.len(),
        r.totlen_bwd_pkts == seq_sum(sizes_of(f.bwd_packets@)),
{
}

/// Zero-safety: a flow with no backward packets has an all-zero
/// backward length summary (so its mean projects to the zero rational,
/// never a division by zero) and a down/up ratio with numerator zero
/// over a positive denominator.
pub proof fn lemma_zero_safety(f: FlowTracker, now: u64, r: FlowFeatures)
    requires
        f.wf(),
        features_model(f, now, r),
        f.bwd_packets@.len() == 0,
    ensures
        r.bwd_pkt_len.count == 0,
        r.bwd_pkt_len.sum == 0,
        r.down_up_ratio.num == 0,
        r.down_up_ratio.den >= 1,
{
    let fs = sizes_of(f.fwd_packets@);
    assert forall|i: int| 0 <= i < fs.len() implies #[trigger] fs[i] <= 65535 by {
        assert(fs[i] == f.fwd_packets@[i].size as u64);
    }
    crate::stats::lemma_sum_le(fs, 65535);
    assert(fs.len() * 65535 < 0x1_0000_0000_0000) by (nonlinear_arith)
        requires 0 <= fs.len() <= 0x8000_0000;
}

} // verus!
