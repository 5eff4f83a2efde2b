//! Flow identity and per-flow state.
//!
//! A flow is identified by its undirected 5-tuple: the two packets of a
//! conversation travelling in opposite directions resolve to one entry,
//! and the sender of the first packet stays the "forward" endpoint for
//! the flow's whole life. Observation timestamps are kept relative to
//! the flow's start, in microseconds, and each direction's queue is in
//! nondecreasing timestamp order.

use vstd::prelude::*;


verus! {

/// Largest admissible relative timestamp within one flow, in
/// microseconds (2^46, about two years). Appends beyond it saturate.
pub const SPAN_LIMIT: u64 = 0x4000_0000_0000;

/// Largest admissible number of observations per direction (2^31), so
/// that both directions together stay within the statistics engine's
/// sample-count limit.
pub const DIR_COUNT_LIMIT: u64 = 0x8000_0000;

/// One packet's contribution to a flow: relative timestamp in
/// microseconds, IP total length, transport flags when TCP, header and
/// payload lengths in bytes.
#[derive(Clone, Copy, Debug, PartialEq, Eq, Structural)]
pub struct PacketData {
    pub timestamp: u64,
    pub size: u16,
    pub tcp_flags: Option<u8>,
    pub header_len: u16,
    pub payload_len: u16,
}

impl PacketData {
    /// Admissible observation: the relative timestamp is within the
    /// flow-span cap.
    pub open spec fn wf(self) -> bool {
        self.timestamp <= SPAN_LIMIT
    }
}

/// Canonical identity of a flow, in the orientation of its first packet.
#[derive(Clone, Copy, Debug, PartialEq, Eq, Hash, Structural)]
pub struct FlowKey {
    pub addr_a: u32,
    pub addr_b: u32,
    pub port_a: u16,
    pub port_b: u16,
    pub protocol: u8,
}

impl FlowKey {
    /// The key reads the given directed tuple left to right.
    pub open spec fn is_forward_of(
        self,
        src: u32,
        sport: u16,
        dst: u32,
        dport: u16,
        proto: u8,
    ) -> bool {
        &&& self.addr_a == src
        &&& self.port_a == sport
        &&& self.addr_b == dst
        &&& self.port_b == dport
        &&& self.protocol == proto
    }

    /// The key reads the given directed tuple right to left.
    pub open spec fn is_reverse_of(
        self,
        src: u32,
        sport: u16,
        dst: u32,
        dport: u16,
        proto: u8,
    ) -> bool {
        &&& self.addr_a == dst
        &&& self.port_a == dport
        &&& self.addr_b == src
        &&& self.port_b == sport
        &&& self.protocol == proto
    }

    /// The key identifies the undirected flow of the given tuple.
    pub open spec fn matches(self, src: u32, sport: u16, dst: u32, dport: u16, proto: u8) -> bool {
        self.is_forward_of(src, sport, dst, dport, proto) || self.is_reverse_of(
            src,
            sport,
            dst,
            dport,
            proto,
        )
    }

    /// The key oriented as the given tuple.
    pub fn forward_of(src: u32, sport: u16, dst: u32, dport: u16, proto: u8) -> (k: FlowKey)
        ensures
            k.is_forward_of(src, sport, dst, dport, proto),
    {
        FlowKey { addr_a: src, port_a: sport, addr_b: dst, port_b: dport, protocol: proto }
    }
}

/// A classification outcome recorded on a flow: the raw label and its
/// confidence in millionths (so 750000 stands for 0.75).
#[derive(Clone, Debug)]
pub struct Prediction {
    pub label: String,
    pub confidence_ppm: u32,
}

impl Prediction {
    /// Confidence is a probability: at most one million millionths.
    pub open spec fn wf(self) -> bool {
        self.confidence_ppm <= 1_000_000
    }
}

/// All the state kept for one flow.
#[derive(Clone, Debug)]
pub struct FlowTracker {
    pub start_time: u64,
    pub fwd_packets: Vec<PacketData>,
    pub bwd_packets: Vec<PacketData>,
    pub last_fwd_time: Option<u64>,
    pub last_bwd_time: Option<u64>,
    pub init_fwd_win: Option<u16>,
    pub init_bwd_win: Option<u16>,
    pub src_ip: u32,
    pub dst_ip: u32,
    pub src_port: u16,
    pub dst_port: u16,
    pub protocol: u8,
    pub last_prediction: Option<Prediction>,
    pub prediction_count: u32,
}

/// Nondecreasing timestamp order.
pub open spec fn ts_sorted(s: Seq<PacketData>) -> bool {
    forall|i: int, j: int| 0 <= i <= j < s.len() ==> s[i].timestamp <= s[j].timestamp
}

impl FlowTracker {
    /// Well-formed flow state: bounded queues of admissible observations,
    /// each queue in nondecreasing timestamp order.
    pub open spec fn wf(self) -> bool {
        &&& self.fwd_packets@.len() <= DIR_COUNT_LIMIT
        &&& self.bwd_packets@.len() <= DIR_COUNT_LIMIT
        &&& forall|i: int| 0 <= i < self.fwd_packets@.len() ==> (#[trigger] self.fwd_packets@[i]).wf()
        &&& forall|i: int| 0 <= i < self.bwd_packets@.len() ==> (#[trigger] self.bwd_packets@[i]).wf()
        &&& ts_sorted(self.fwd_packets@)
        &&& ts_sorted(self.bwd_packets@)
        &&& match self.last_prediction {
            Some(p) => p.wf(),
            None => true,
        }
    }

    /// A fresh flow as created by the first packet of an unseen 5-tuple:
    /// empty queues, the first sender as the forward endpoint.
    pub fn new_flow(now_abs: u64, src: u32, sport: u16, dst: u32, dport: u16, proto: u8) -> (f:
        FlowTracker)
        ensures
            f.wf(),
            f.start_time == now_abs,
            f.fwd_packets@.len() == 0,
            f.bwd_packets@.len() == 0,
            f.last_fwd_time is None,
            f.last_bwd_time is None,
            f.init_fwd_win is None,
            f.init_bwd_win is None,
            f.src_ip == src,
            f.dst_ip == dst,
            f.src_port == sport,
            f.dst_port == dport,
            f.protocol == proto,
            f.last_prediction is None,
            f.prediction_count == 0,
    {
        FlowTracker {
            start_time: now_abs,
            fwd_packets: Vec::new(),
            bwd_packets: Vec::new(),
            last_fwd_time: None,
            last_bwd_time: None,
            init_fwd_win: None,
            init_bwd_win: None,
            src_ip: src,
            dst_ip: dst,
            src_port: sport,
            dst_port: dport,
            protocol: proto,
            last_prediction: None,
            prediction_count: 0,
        }
    }

    /// The queue of the given direction.
    pub open spec fn dir_seq(self, is_forward: bool) -> Seq<PacketData> {
        if is_forward {
            self.fwd_packets@
        } else {
            self.bwd_packets@
        }
    }

    /// The relative timestamp that recording at absolute time `now_abs`
    /// assigns: `now_abs - start_time`, clamped below by the direction's
    /// last timestamp (the queue stays sorted even if clocks step back)
    /// and above by the span cap.
    pub open spec fn spec_next_ts(self, is_forward: bool, now_abs: u64) -> int {
        let rel = if now_abs >= self.start_time {
            now_abs - self.start_time
        } else {
            0
        };
        let capped = if rel > SPAN_LIMIT {
            SPAN_LIMIT as int
        } else {
            rel
        };
        let q = self.dir_seq(is_forward);
        let lastr = if q.len() == 0 {
            0
        } else {
            q.last().timestamp as int
        };
        if capped < lastr {
            lastr
        } else {
            capped
        }
    }

    /// Record one observation at absolute microsecond time `now_abs` in
    /// the given direction: append it, advance the direction's last-seen
    /// time, and latch the first TCP window seen in that direction.
    /// Returns false, leaving the flow unchanged, only when the
    /// direction's queue is full.
    pub fn record(
        &mut self,
        is_forward: bool,
        now_abs: u64,
        size: u16,
        tcp_flags: Option<u8>,
        header_len: u16,
        payload_len: u16,
        window: Option<u16>,
    ) -> (recorded: bool)
        requires
            old(self).wf(),
        ensures
            final(self).wf(),
            old(self).dir_seq(is_forward).len() == DIR_COUNT_LIMIT ==> !recorded && *final(self)
                == *old(self),
            old(self).dir_seq(is_forward).len() < DIR_COUNT_LIMIT ==> recorded && {
                let p = PacketData {
                    timestamp: old(self).spec_next_ts(is_forward, now_abs) as u64,
                    size,
                    tcp_flags,
                    header_len,
                    payload_len,
                };
                &&& final(self).dir_seq(is_forward) == old(self).dir_seq(is_forward).push(p)
                &&& final(self).dir_seq(!is_forward) == old(self).dir_seq(!is_forward)
                &&& (is_forward ==> final(self).last_fwd_time == Some(now_abs)
                    && final(self).last_bwd_time == old(self).last_bwd_time)
                &&& (!is_forward ==> final(self).last_bwd_time == Some(now_abs)
                    && final(self).last_fwd_time == old(self).last_fwd_time)
                &&& (is_forward ==> final(self).init_fwd_win == (
                if old(self).init_fwd_win is None && window is Some {
                    window
                } else {
                    old(self).init_fwd_win
                }) && final(self).init_bwd_win == old(self).init_bwd_win)
                &&& (!is_forward ==> final(self).init_bwd_win == (
                if old(self).init_bwd_win is None && window is Some {
                    window
                } else {
                    old(self).init_bwd_win
                }) && final(self).init_fwd_win == old(self).init_fwd_win)
            },
            final(self).start_time == old(self).start_time,
            final(self).src_ip == old(self).src_ip,
            final(self).dst_ip == old(self).dst_ip,
            final(self).src_port == old(self).src_port,
            final(self).dst_port == old(self).dst_port,
            final(self).protocol == old(self).protocol,
            final(self).last_prediction == old(self).last_prediction,
            final(self).prediction_count == old(self).prediction_count,
    {
        let qlen = if is_forward {
            self.fwd_packets.len()
        } else {
            self.bwd_packets.len()
        };
        if qlen as u64 == DIR_COUNT_LIMIT {
            return false;
        }
        let rel = if now_abs >= self.start_time {
            now_abs - self.start_time
        } else {
            0
        };
        let capped = if rel > SPAN_LIMIT {
            SPAN_LIMIT
        } else {
            rel
        };
        let lastr = if is_forward {
            if self.fwd_packets.len() == 0 {
                0
            } else {
                self.fwd_packets[self.fwd_packets.len() - 1].timestamp
            }
        } else {
            if self.bwd_packets.len() == 0 {
                0
            } else {
                self.bwd_packets[self.bwd_packets.len() - 1].timestamp
            }
        };
        let ts = if capped < lastr {
            lastr
        } else {
            capped
        };
        let p = PacketData { timestamp: ts, size, tcp_flags, header_len, payload_len };
        if is_forward {
            self.fwd_packets.push(p);
            self.last_fwd_time = Some(now_abs);
            if self.init_fwd_win.is_none() && window.is_some() {
                self.init_fwd_win = window;
            }
        } else {
            self.bwd_packets.push(p);
            self.last_bwd_time = Some(now_abs);
            if self.init_bwd_win.is_none() && window.is_some() {
                self.init_bwd_win = window;
            }
        }
        proof {
            assert(self.dir_seq(is_forward).last() == p);
            assert forall|i: int, j: int|
                0 <= i <= j < self.dir_seq(is_forward).len() implies self.dir_seq(is_forward)[i].timestamp
                <= self.dir_seq(is_forward)[j].timestamp by {
                if j < self.dir_seq(is_forward).len() - 1 {
                } else if i < j {
                    assert(self.dir_seq(is_forward)[i] == old(self).dir_seq(is_forward)[i]);
                }
            }
        }
        true
    }
}

/// One table entry: a canonical key and the flow it identifies.
#[derive(Clone, Debug)]
pub struct FlowEntry {
    pub key: FlowKey,
    pub flow: FlowTracker,
}

/// The store of all live flows. Lookup and creation go through the
/// undirected key, so at most one entry ever exists per conversation.
#[derive(Debug)]
pub struct FlowTable {
    pub entries: Vec<FlowEntry>,
}

/// Index of the first entry at or after `j` whose key identifies the
/// tuple's undirected flow.
pub open spec fn find_from(
    entries: Seq<FlowEntry>,
    j: int,
    src: u32,
    sport: u16,
    dst: u32,
    dport: u16,
    proto: u8,
) -> Option<int>
    decreases entries.len() - j,
{
    if j < 0 || j >= entries.len() {
        None
    } else if entries[j].key.matches(src, sport, dst, dport, proto) {
        Some(j)
    } else {
        find_from(entries, j + 1, src, sport, dst, dport, proto)
    }
}

/// When the search finds nothing, no entry at or after `j` matches.
proof fn lemma_find_none(
    entries: Seq<FlowEntry>,
    j: int,
    src: u32,
    sport: u16,
    dst: u32,
    dport: u16,
    proto: u8,
)
    requires
        0 <= j,
        find_from(entries, j, src, sport, dst, dport, proto) is None,
    ensures
        forall|k: int|
            j <= k < entries.len() ==> !(#[trigger] entries[k]).key.matches(
                src,
                sport,
                dst,
                dport,
                proto,
            ),
    decreases entries.len() - j,
{
    if 0 <= j < entries.len() {
        lemma_find_none(entries, j + 1, src, sport, dst, dport, proto);
    }
}

impl FlowTable {
    /// Index of the entry for the tuple's undirected flow, if any.
    pub open spec fn spec_find(
        self,
        src: u32,
        sport: u16,
        dst: u32,
        dport: u16,
        proto: u8,
    ) -> Option<int> {
        find_from(self.entries@, 0, src, sport, dst, dport, proto)
    }

    /// Well-formed table: every flow is well formed, every key carries
    /// the orientation of its flow's first packet, and no two entries
    /// identify the same undirected flow.
    pub open spec fn wf(self) -> bool {
        &&& forall|i: int| 0 <= i < self.entries@.len() ==> (#[trigger] self.entries@[i]).flow.wf()
        &&& forall|i: int|
            0 <= i < self.entries@.len() ==> (#[trigger] self.entries@[i]).key.is_forward_of(
                self.entries@[i].flow.src_ip,
                self.entries@[i].flow.src_port,
                self.entries@[i].flow.dst_ip,
                self.entries@[i].flow.dst_port,
                self.entries@[i].flow.protocol,
            )
        &&& forall|i: int, j: int|
            0 <= i < j < self.entries@.len() ==> !(#[trigger] self.entries@[j]).key.matches(
                (#[trigger] self.entries@[i]).key.addr_a,
                self.entries@[i].key.port_a,
                self.entries@[i].key.addr_b,
                self.entries@[i].key.port_b,
                self.entries@[i].key.protocol,
            )
    }

    /// An empty table.
    pub fn new() -> (t: FlowTable)
        ensures
            t.wf(),
            t.entries@.len() == 0,
    {
        FlowTable { entries: Vec::new() }
    }

    /// Number of live flows.
    pub fn len(&self) -> (n: usize)
        ensures
            n == self.entries@.len(),
    {
        self.entries.len()
    }

    /// Resolve the directed tuple of an arriving packet to its flow,
    /// creating the flow (oriented as this packet) when the undirected
    /// tuple is new. Returns the entry's index and whether the packet
    /// travels against the flow's first-seen orientation.
    pub fn get_or_create(
        &mut self,
        src: u32,
        sport: u16,
        dst: u32,
        dport: u16,
        proto: u8,
        now_abs: u64,
    ) -> (r: (usize, bool))
        requires
            old(self).wf(),
            old(self).entries@.len() < usize::MAX,
        ensures
            final(self).wf(),
            r.0 < final(self).entries@.len(),
            final(self).entries@[r.0 as int].key.matches(src, sport, dst, dport, proto),
            r.1 == (final(self).entries@[r.0 as int].key.is_reverse_of(
                src,
                sport,
                dst,
                dport,
                proto,
            ) && !final(self).entries@[r.0 as int].key.is_forward_of(
                src,
                sport,
                dst,
                dport,
                proto,
            )),
            match old(self).spec_find(src, sport, dst, dport, proto) {
                Some(i) => {
                    &&& final(self).entries@ == old(self).entries@
                    &&& r.0 == i
                },
                None => {
                    &&& final(self).entries@.len() == old(self).entries@.len() + 1
                    &&& final(self).entries@.subrange(0, old(self).entries@.len() as int) == old(
                        self,
                    ).entries@
                    &&& r.0 == old(self).entries@.len()
                    &&& r.1 == false
                    &&& final(self).entries@.last().key.is_forward_of(src, sport, dst, dport, proto)
                    &&& ({
                        let f = final(self).entries@.last().flow;
                        &&& f.start_time == now_abs
                        &&& f.fwd_packets@.len() == 0
                        &&& f.bwd_packets@.len() == 0
                        &&& f.last_fwd_time is None
                        &&& f.last_bwd_time is None
                        &&& f.init_fwd_win is None
                        &&& f.init_bwd_win is None
                        &&& f.src_ip == src
                        &&& f.dst_ip == dst
                        &&& f.src_port == sport
                        &&& f.dst_port == dport
                        &&& f.protocol == proto
                        &&& f.last_prediction is None
                        &&& f.prediction_count == 0
                    })
                },
            },
    {
        let n = self.entries.len();
        let mut i: usize = 0;
        while i < n
            invariant
                self.entries@ == old(self).entries@,
                old(self).wf(),
                n == self.entries@.len(),
                i <= n,
                find_from(self.entries@, 0, src, sport, dst, dport, proto) == find_from(
                    self.entries@,
                    i as int,
                    src,
                    sport,
                    dst,
                    dport,
                    proto,
                ),
            decreases n - i,
        {
            let k = &self.entries[i].key;
            let fwd = k.addr_a == src && k.port_a == sport && k.addr_b == dst && k.port_b == dport
                && k.protocol == proto;
            let rev = k.addr_a == dst && k.port_a == dport && k.addr_b == src && k.port_b == sport
                && k.protocol == proto;
            if fwd || rev {
                proof {
                    assert(find_from(self.entries@, i as int, src, sport, dst, dport, proto)
                        == Some(i as int));
                }
                return (i, rev && !fwd);
            }
            i = i + 1;
        }
        let flow = FlowTracker::new_flow(now_abs, src, sport, dst, dport, proto);
        let key = FlowKey::forward_of(src, sport, dst, dport, proto);
        self.entries.push(FlowEntry { key, flow });
        proof {
            assert forall|j: int, k: int|
                0 <= j < k < self.entries@.len() implies !(#[trigger] self.entries@[k]).key.matches(
                (#[trigger] self.entries@[j]).key.addr_a,
                self.entries@[j].key.port_a,
                self.entries@[j].key.addr_b,
                self.entries@[j].key.port_b,
                self.entries@[j].key.protocol,
            ) by {
                if k < self.entries@.len() - 1 {
                    assert(self.entries@[j] == old(self).entries@[j]);
                    assert(self.entries@[k] == old(self).entries@[k]);
                } else {
                    assert(self.entries@[j] == old(self).entries@[j]);
                    lemma_find_none(old(self).entries@, 0, src, sport, dst, dport, proto);
                    assert(!old(self).entries@[j].key.matches(src, sport, dst, dport, proto));
                }
            }
        }
        (n, false)
    }

    /// Record one observation on the flow at `idx`; see
    /// [`FlowTracker::record`]. Returns false only when that direction's
    /// queue is full, leaving the table unchanged.
    pub fn append(
        &mut self,
        idx: usize,
        is_forward: bool,
        now_abs: u64,
        size: u16,
        tcp_flags: Option<u8>,
        header_len: u16,
        payload_len: u16,
        window: Option<u16>,
    ) -> (recorded: bool)
        requires
            old(self).wf(),
            idx < old(self).entries@.len(),
        ensures
            final(self).wf(),
            final(self).entries@.len() == old(self).entries@.len(),
            forall|i: int|
                0 <= i < final(self).entries@.len() && i != idx ==> final(self).entries@[i] == old(
                    self,
                ).entries@[i],
            final(self).entries@[idx as int].key == old(self).entries@[idx as int].key,
            old(self).entries@[idx as int].flow.dir_seq(is_forward).len() == DIR_COUNT_LIMIT
                ==> !recorded && final(self).entries@[idx as int].flow == old(
                self,
            ).entries@[idx as int].flow,
            old(self).entries@[idx as int].flow.dir_seq(is_forward).len() < DIR_COUNT_LIMIT
                ==> recorded,
            ({
                let oldf = old(self).entries@[idx as int].flow;
                let newf = final(self).entries@[idx as int].flow;
                oldf.dir_seq(is_forward).len() < DIR_COUNT_LIMIT ==> {
                    let p = PacketData {
                        timestamp: oldf.spec_next_ts(is_forward, now_abs) as u64,
                        size,
                        tcp_flags,
                        header_len,
                        payload_len,
                    };
                    &&& newf.dir_seq(is_forward) == oldf.dir_seq(is_forward).push(p)
                    &&& newf.dir_seq(!is_forward) == oldf.dir_seq(!is_forward)
                    &&& newf.start_time == oldf.start_time
                    &&& newf.src_ip == oldf.src_ip
                    &&& newf.dst_ip == oldf.dst_ip
                    &&& newf.src_port == oldf.src_port
                    &&& newf.dst_port == oldf.dst_port
                    &&& newf.protocol == oldf.protocol
                    &&& newf.last_prediction == oldf.last_prediction
                    &&& newf.prediction_count == oldf.prediction_count
                    &&& (is_forward ==> newf.last_fwd_time == Some(now_abs)
                        && newf.last_bwd_time == oldf.last_bwd_time)
                    &&& (!is_forward ==> newf.last_bwd_time == Some(now_abs)
                        && newf.last_fwd_time == oldf.last_fwd_time)
                    &&& (is_forward ==> newf.init_fwd_win == (
                    if oldf.init_fwd_win is None && window is Some {
                        window
                    } else {
                        oldf.init_fwd_win
                    }) && newf.init_bwd_win == oldf.init_bwd_win)
                    &&& (!is_forward ==> newf.init_bwd_win == (
                    if oldf.init_bwd_win is None && window is Some {
                        window
                    } else {
                        oldf.init_bwd_win
                    }) && newf.init_fwd_win == oldf.init_fwd_win)
                }
            }),
    {
        let entry = &mut self.entries[idx];
        let recorded = entry.flow.record(
            is_forward,
            now_abs,
            size,
            tcp_flags,
            header_len,
            payload_len,
            window,
        );
        recorded
    }
}

/// Direction symmetry: a directed tuple and its exact reversal resolve
/// to the same table entry, so packets of both directions of one
/// conversation always land on one flow.
pub proof fn lemma_direction_symmetry(
    entries: Seq<FlowEntry>,
    j: int,
    src: u32,
    sport: u16,
    dst: u32,
    dport: u16,
    proto: u8,
)
    ensures
        find_from(entries, j, src, sport, dst, dport, proto) == find_from(
            entries,
            j,
            dst,
            dport,
            src,
            sport,
            proto,
        ),
    decreases entries.len() - j,
{
    if j >= 0 && j < entries.len() {
        lemma_direction_symmetry(entries, j + 1, src, sport, dst, dport, proto);
    }
}


/// Direction symmetry at the table: the lookup for a directed tuple
/// and the lookup for its exact reversal give the same entry, so both
/// directions of one conversation always resolve to one flow, oriented
/// by whichever packet arrived first.
pub proof fn lemma_table_direction_symmetry(
    t: FlowTable,
    src: u32,
    sport: u16,
    dst: u32,
    dport: u16,
    proto: u8,
)
    ensures
        t.spec_find(src, sport, dst, dport, proto) == t.spec_find(dst, dport, src, sport, proto),
{
    lemma_direction_symmetry(t.entries@, 0, src, sport, dst, dport, proto);
}

} // verus!
