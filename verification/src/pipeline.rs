//! The per-packet decision core.
//!
//! One context owns the flow table, the rate detector and the
//! configuration. For each arriving packet the context resolves the
//! flow, records the observation, extracts the feature vector and
//! decides whether the classifier is due; the embedding application
//! performs the (possibly slow, possibly failing) classifier call and
//! hands its outcome back, upon which the context applies the
//! confidence gate, caches the raw result and feeds the rate detector.

use vstd::prelude::*;
use vstd::string::StringExecFns;

use crate::cadence::gate_label;
use crate::cadence::should_classify;
use crate::cadence::str_eq;
use crate::cadence::BENIGN_LABEL;
use crate::cadence::CadenceConfig;
use crate::cadence::ERROR_LABEL;
use crate::ddos::Alert;
use crate::ddos::DDoSDetector;
use crate::features::calculate_features;
use crate::features::features_model;
use crate::features::FlowFeatures;
use crate::flow::FlowTable;
use crate::flow::FlowTracker;
use crate::flow::PacketData;
use crate::flow::Prediction;
use crate::flow::DIR_COUNT_LIMIT;
use crate::portfilter::PortFilter;

verus! {

/// One raw frame handed from a capture worker to processing, or the
/// request to stop.
#[derive(Clone, Debug)]
pub enum PacketMessage {
    Ipv4Packet { data: Vec<u8>, timestamp: u64, total_len: usize },
    Ipv6Packet { data: Vec<u8>, timestamp: u64, total_len: usize },
    Shutdown,
}

/// Everything the pipeline is configured with: classification cadence,
/// confidence gate, rate-detector window and threshold, and the
/// optional port allow-list.
#[derive(Clone, Debug)]
pub struct PipelineConfig {
    pub cadence: CadenceConfig,
    pub confidence_gate_ppm: u32,
    pub ddos_window_secs: u64,
    pub ddos_threshold: usize,
    pub port_filter: PortFilter,
}

impl PipelineConfig {
    /// Positive cadences.
    pub open spec fn wf(self) -> bool {
        self.cadence.wf()
    }
}

/// A packet of the given ports enters the pipeline: filtering is off
/// or one of its ports is allowed.
pub open spec fn spec_enters(cfg: PipelineConfig, sport: u16, dport: u16) -> bool {
    cfg.port_filter.spec_allows(sport) || cfg.port_filter.spec_allows(dport)
}

/// What processing one observation hands back: where the flow lives,
/// the packet's direction, whether the observation was recorded, the
/// extracted features (label left empty), whether a fresh classifier
/// call is due, and the cached raw label to reuse when it is not.
#[derive(Debug)]
pub struct PacketOutcome {
    pub flow_idx: usize,
    pub is_reverse: bool,
    pub recorded: bool,
    pub features: FlowFeatures,
    pub needs_classification: bool,
    pub reused_label: Option<String>,
}

/// How recording one observation at `now_abs` relates the flow before
/// and after: the direction's queue grows by the packet (unless full),
/// the last-seen time advances, the first window of the direction is
/// latched, and everything else is untouched.
pub open spec fn flow_updated(
    oldf: FlowTracker,
    newf: FlowTracker,
    is_forward: bool,
    now_abs: u64,
    size: u16,
    tcp_flags: Option<u8>,
    header_len: u16,
    payload_len: u16,
    window: Option<u16>,
    recorded: bool,
) -> bool {
    &&& recorded == (oldf.dir_seq(is_forward).len() < DIR_COUNT_LIMIT)
    &&& (!recorded ==> newf == oldf)
    &&& (recorded ==> {
        let p = PacketData {
            timestamp: oldf.spec_next_ts(is_forward, now_abs) as u64,
            size,
            tcp_flags,
            header_len,
            payload_len,
        };
        &&& newf.dir_seq(is_forward) == oldf.dir_seq(is_forward).push(p)
        &&& newf.dir_seq(!is_forward) == oldf.dir_seq(!is_forward)
        &&& (is_forward ==> newf.last_fwd_time == Some(now_abs))
        &&& (!is_forward ==> newf.last_bwd_time == Some(now_abs))
        &&& (is_forward ==> newf.init_fwd_win == (if oldf.init_fwd_win is None
            && window is Some {
            window
        } else {
            oldf.init_fwd_win
        }))
        &&& (!is_forward ==> newf.init_bwd_win == (if oldf.init_bwd_win is None
            && window is Some {
            window
        } else {
            oldf.init_bwd_win
        }))
    })
    &&& newf.start_time == oldf.start_time
    &&& newf.src_ip == oldf.src_ip
    &&& newf.dst_ip == oldf.dst_ip
    &&& newf.src_port == oldf.src_port
    &&& newf.dst_port == oldf.dst_port
    &&& newf.protocol == oldf.protocol
    &&& newf.last_prediction == oldf.last_prediction
    &&& newf.prediction_count == oldf.prediction_count
}

/// The whole effect of processing one observation, for every protocol
/// entry point: the detector and configuration are untouched; a packet
/// the allow-list blocks changes nothing and yields `None`; otherwise
/// the directed tuple resolves to its (possibly new) flow, the
/// observation is recorded there, the features snapshot the updated
/// flow at `now_abs`, a fresh classification is due exactly on the
/// protocol's cadence or for a never-classified flow, and outside those
/// calls the flow's cached raw label is handed back for reuse.
pub open spec fn process_post(
    pre: Pipeline,
    post: Pipeline,
    src: u32,
    sport: u16,
    dst: u32,
    dport: u16,
    proto: u8,
    now_abs: u64,
    size: u16,
    tcp_flags: Option<u8>,
    header_len: u16,
    payload_len: u16,
    window: Option<u16>,
    r: Option<PacketOutcome>,
) -> bool {
    let find = pre.table.spec_find(src, sport, dst, dport, proto);
    &&& post.detector == pre.detector
    &&& post.config == pre.config
    &&& (r is None <==> !spec_enters(pre.config, sport, dport))
    &&& (r is None ==> post.table == pre.table)
    &&& match r {
        Some(o) => {
            let newf = post.table.entries@[o.flow_idx as int].flow;
            &&& post.table.wf()
            &&& o.flow_idx < post.table.entries@.len()
            &&& post.table.entries@[o.flow_idx as int].key.matches(src, sport, dst, dport, proto)
            &&& match find {
                Some(i) => {
                    &&& o.flow_idx == i
                    &&& post.table.entries@.len() == pre.table.entries@.len()
                    &&& forall|k: int|
                        0 <= k < post.table.entries@.len() && k != i
                            ==> post.table.entries@[k] == pre.table.entries@[k]
                    &&& post.table.entries@[i].key == pre.table.entries@[i].key
                    &&& o.is_reverse == (pre.table.entries@[i].key.is_reverse_of(
                        src,
                        sport,
                        dst,
                        dport,
                        proto,
                    ) && !pre.table.entries@[i].key.is_forward_of(src, sport, dst, dport, proto))
                    &&& flow_updated(
                        pre.table.entries@[i].flow,
                        newf,
                        !o.is_reverse,
                        now_abs,
                        size,
                        tcp_flags,
                        header_len,
                        payload_len,
                        window,
                        o.recorded,
                    )
                },
                None => {
                    &&& o.flow_idx == pre.table.entries@.len()
                    &&& post.table.entries@.len() == pre.table.entries@.len() + 1
                    &&& post.table.entries@.subrange(0, pre.table.entries@.len() as int)
                        == pre.table.entries@
                    &&& !o.is_reverse
                    &&& o.recorded
                    &&& newf.start_time == now_abs
                    &&& newf.src_ip == src
                    &&& newf.dst_ip == dst
                    &&& newf.src_port == sport
                    &&& newf.dst_port == dport
                    &&& newf.protocol == proto
                    &&& newf.fwd_packets@.len() == 1
                    &&& newf.fwd_packets@[0] == (PacketData {
                        timestamp: 0,
                        size,
                        tcp_flags,
                        header_len,
                        payload_len,
                    })
                    &&& newf.bwd_packets@.len() == 0
                    &&& newf.last_fwd_time == Some(now_abs)
                    &&& newf.last_bwd_time is None
                    &&& newf.init_fwd_win == window
                    &&& newf.init_bwd_win is None
                    &&& newf.last_prediction is None
                    &&& newf.prediction_count == 0
                },
            }
            &&& features_model(newf, now_abs, o.features)
            &&& o.needs_classification == ((newf.fwd_packets@.len() + newf.bwd_packets@.len())
                as int % (pre.config.cadence.spec_cadence_of(proto) as int) == 0
                || newf.last_prediction is None)
            &&& match (o.reused_label, newf.last_prediction) {
                (Some(l), Some(p)) => !o.needs_classification && l@ == p.label@,
                (None, _) => o.needs_classification,
                (Some(_), None) => false,
            }
        },
        None => true,
    }
}

/// The pipeline context: the flow table, the rate detector and the
/// configuration, owned together and scoped to one capture session.
#[derive(Debug)]
pub struct Pipeline {
    pub table: FlowTable,
    pub detector: DDoSDetector,
    pub config: PipelineConfig,
}

impl Pipeline {
    /// A healthy context: well-formed table, detector and cadences.
    pub open spec fn wf(self) -> bool {
        &&& self.table.wf()
        &&& self.detector.wf()
        &&& self.config.wf()
    }

    /// A fresh context for the given configuration: empty table, empty
    /// detector with the configured window and threshold.
    pub fn new(config: PipelineConfig) -> (p: Pipeline)
        requires
            config.wf(),
        ensures
            p.wf(),
            p.table.entries@.len() == 0,
            p.detector.ip_requests@.len() == 0,
            p.detector.time_window_secs == config.ddos_window_secs,
            p.detector.threshold == config.ddos_threshold,
            p.config == config,
    {
        let detector = DDoSDetector::new(config.ddos_window_secs, config.ddos_threshold);
        Pipeline { table: FlowTable::new(), detector, config }
    }

    /// Process one observation: resolve the flow, record the packet,
    /// snapshot the features and decide whether the classifier is due.
    pub fn process_observation(
        &mut self,
        src: u32,
        sport: u16,
        dst: u32,
        dport: u16,
        proto: u8,
        now_abs: u64,
        size: u16,
        tcp_flags: Option<u8>,
        header_len: u16,
        payload_len: u16,
        window: Option<u16>,
    ) -> (r: Option<PacketOutcome>)
        requires
            old(self).wf(),
            old(self).table.entries@.len() < usize::MAX,
        ensures
            final(self).wf(),
            process_post(
                *old(self),
                *final(self),
                src,
                sport,
                dst,
                dport,
                proto,
                now_abs,
                size,
                tcp_flags,
                header_len,
                payload_len,
                window,
                r,
            ),
    {
        let sport_ok = self.config.port_filter.allows(sport);
        let dport_ok = self.config.port_filter.allows(dport);
        if !sport_ok && !dport_ok {
            return None;
        }
        let resolved = self.table.get_or_create(src, sport, dst, dport, proto, now_abs);
        let flow_idx = resolved.0;
        let is_reverse = resolved.1;
        let recorded = self.table.append(
            flow_idx,
            !is_reverse,
            now_abs,
            size,
            tcp_flags,
            header_len,
            payload_len,
            window,
        );
        let features = calculate_features(&self.table.entries[flow_idx].flow, now_abs);
        let flow = &self.table.entries[flow_idx].flow;
        let total: u64 = flow.fwd_packets.len() as u64 + flow.bwd_packets.len() as u64;
        let has_prior = flow.last_prediction.is_some();
        let needs_classification = should_classify(&self.config.cadence, proto, total, has_prior);
        let reused_label = if needs_classification {
            None
        } else {
            match &flow.last_prediction {
                Some(p) => Some(p.label.clone()),
                None => None,
            }
        };
        proof {
            if old(self).table.spec_find(src, sport, dst, dport, proto) is None {
                assert(self.table.entries@.subrange(
                    0,
                    old(self).table.entries@.len() as int,
                ) =~= old(self).table.entries@);
            }
        }
        Some(
            PacketOutcome {
                flow_idx,
                is_reverse,
                recorded,
                features,
                needs_classification,
                reused_label,
            },
        )
    }

    /// Process one TCP packet's header fields.
    pub fn process_tcp_packet(
        &mut self,
        src: u32,
        sport: u16,
        dst: u32,
        dport: u16,
        now_abs: u64,
        total_len: u16,
        tcp_flags: u8,
        header_len: u16,
        payload_len: u16,
        window: u16,
    ) -> (r: Option<PacketOutcome>)
        requires
            old(self).wf(),
            old(self).table.entries@.len() < usize::MAX,
        ensures
            final(self).wf(),
            process_post(
                *old(self),
                *final(self),
                src,
                sport,
                dst,
                dport,
                crate::cadence::PROTO_TCP,
                now_abs,
                total_len,
                Some(tcp_flags),
                header_len,
                payload_len,
                Some(window),
                r,
            ),
    {
        self.process_observation(
            src,
            sport,
            dst,
            dport,
            crate::cadence::PROTO_TCP,
            now_abs,
            total_len,
            Some(tcp_flags),
            header_len,
            payload_len,
            Some(window),
        )
    }

    /// Process one UDP packet's header fields; the UDP header is always
    /// eight bytes and carries no flags or window.
    pub fn process_udp_packet(
        &mut self,
        src: u32,
        sport: u16,
        dst: u32,
        dport: u16,
        now_abs: u64,
        total_len: u16,
        payload_len: u16,
    ) -> (r: Option<PacketOutcome>)
        requires
            old(self).wf(),
            old(self).table.entries@.len() < usize::MAX,
        ensures
            final(self).wf(),
            process_post(
                *old(self),
                *final(self),
                src,
                sport,
                dst,
                dport,
                crate::cadence::PROTO_UDP,
                now_abs,
                total_len,
                None,
                8,
                payload_len,
                None,
                r,
            ),
    {
        self.process_observation(
            src,
            sport,
            dst,
            dport,
            crate::cadence::PROTO_UDP,
            now_abs,
            total_len,
            None,
            8,
            payload_len,
            None,
        )
    }

    /// Process one packet of any other protocol: no ports, keyed by
    /// addresses and protocol number alone.
    pub fn process_generic_packet(
        &mut self,
        src: u32,
        dst: u32,
        proto: u8,
        now_abs: u64,
        total_len: u16,
        header_len: u16,
        payload_len: u16,
    ) -> (r: Option<PacketOutcome>)
        requires
            old(self).wf(),
            old(self).table.entries@.len() < usize::MAX,
        ensures
            final(self).wf(),
            process_post(
                *old(self),
                *final(self),
                src,
                0,
                dst,
                0,
                proto,
                now_abs,
                total_len,
                None,
                header_len,
                payload_len,
                None,
                r,
            ),
    {
        self.process_observation(
            src,
            0,
            dst,
            0,
            proto,
            now_abs,
            total_len,
            None,
            header_len,
            payload_len,
            None,
        )
    }

    /// Apply one classifier outcome at the explicit time `now`: gate
    /// the label, cache the raw prediction on the flow, and feed the
    /// raw label to the rate detector when it is not benign. A failed
    /// classification marks the packet's row with the error label and
    /// changes nothing else.
    pub fn apply_classification_at(
        &mut self,
        flow_idx: usize,
        outcome: Result<Prediction, String>,
        src_text: &str,
        now: u64,
    ) -> (r: (String, Option<Alert>))
        requires
            old(self).wf(),
            flow_idx < old(self).table.entries@.len(),
            match outcome {
                Ok(p) => p.wf(),
                Err(_) => true,
            },
        ensures
            final(self).wf(),
            final(self).config == old(self).config,
            final(self).table.entries@.len() == old(self).table.entries@.len(),
            forall|k: int|
                0 <= k < final(self).table.entries@.len() && k != flow_idx ==> final(self).table.entries@[k] == old(self).table.entries@[k],
            match outcome {
                Ok(p) => {
                    let oldf = old(self).table.entries@[flow_idx as int].flow;
                    let newf = final(self).table.entries@[flow_idx as int].flow;
                    &&& (p.confidence_ppm > old(self).config.confidence_gate_ppm ==> r.0@
                        == p.label@)
                    &&& (p.confidence_ppm <= old(self).config.confidence_gate_ppm ==> r.0@
                        == BENIGN_LABEL@)
                    &&& final(self).table.entries@[flow_idx as int].key == old(
                        self,
                    ).table.entries@[flow_idx as int].key
                    &&& newf.last_prediction == Some(p)
                    &&& newf.prediction_count == (if oldf.prediction_count < u32::MAX {
                        oldf.prediction_count + 1
                    } else {
                        u32::MAX as int
                    })
                    &&& newf.fwd_packets == oldf.fwd_packets
                    &&& newf.bwd_packets == oldf.bwd_packets
                    &&& newf.start_time == oldf.start_time
                    &&& newf.src_ip == oldf.src_ip
                    &&& newf.dst_ip == oldf.dst_ip
                    &&& newf.src_port == oldf.src_port
                    &&& newf.dst_port == oldf.dst_port
                    &&& newf.protocol == oldf.protocol
                    &&& newf.last_fwd_time == oldf.last_fwd_time
                    &&& newf.last_bwd_time == oldf.last_bwd_time
                    &&& newf.init_fwd_win == oldf.init_fwd_win
                    &&& newf.init_bwd_win == oldf.init_bwd_win
                    &&& (p.label@ == BENIGN_LABEL@ ==> final(self).detector == old(self).detector
                        && r.1 is None)
                    &&& (p.label@ != BENIGN_LABEL@ ==> {
                        &&& final(self).detector.spec_times(src_text@) == old(
                            self,
                        ).detector.spec_checked_times(src_text@, now)
                        &&& final(self).detector.time_window_secs == old(
                            self,
                        ).detector.time_window_secs
                        &&& final(self).detector.time_window_micros == old(
                            self,
                        ).detector.time_window_micros
                        &&& final(self).detector.threshold == old(self).detector.threshold
                        &&& (r.1 is Some <==> old(self).detector.spec_checked_times(
                            src_text@,
                            now,
                        ).len() >= old(self).detector.threshold)
                        &&& match r.1 {
                            Some(a) => {
                                &&& a.ip@ == src_text@
                                &&& a.attack_type@ == p.label@
                                &&& a.window_secs == old(self).detector.time_window_secs
                                &&& a.count == old(self).detector.spec_checked_times(
                                    src_text@,
                                    now,
                                ).len()
                                &&& a.threshold == old(self).detector.threshold
                            },
                            None => true,
                        }
                    })
                },
                Err(_) => {
                    &&& r.0@ == ERROR_LABEL@
                    &&& r.1 is None
                    &&& *final(self) == *old(self)
                },
            },
    {
        match outcome {
            Ok(p) => {
                let label = gate_label(
                    p.label.as_str(),
                    p.confidence_ppm,
                    self.config.confidence_gate_ppm,
                );
                let raw_label = p.label.clone();
                let new_count = if self.table.entries[flow_idx].flow.prediction_count < u32::MAX {
                    self.table.entries[flow_idx].flow.prediction_count + 1
                } else {
                    u32::MAX
                };
                self.table.entries[flow_idx].flow.last_prediction = Some(p);
                self.table.entries[flow_idx].flow.prediction_count = new_count;
                proof {
                    assert(self.table.wf());
                }
                let benign = str_eq(raw_label.as_str(), BENIGN_LABEL);
                let alert = if !benign {
                    self.detector.check_at(src_text, raw_label.as_str(), now)
                } else {
                    None
                };
                (label, alert)
            },
            Err(_) => {
                let label: &'static str = ERROR_LABEL;
                (label.to_owned(), None)
            },
        }
    }

    /// Apply one classifier outcome against the machine clock; see
    /// [`Self::apply_classification_at`].
    pub fn apply_classification(
        &mut self,
        flow_idx: usize,
        outcome: Result<Prediction, String>,
        src_text: &str,
    ) -> (r: (String, Option<Alert>))
        requires
            old(self).wf(),
            flow_idx < old(self).table.entries@.len(),
            match outcome {
                Ok(p) => p.wf(),
                Err(_) => true,
            },
        ensures
            final(self).wf(),
            final(self).config == old(self).config,
            final(self).table.entries@.len() == old(self).table.entries@.len(),
            match outcome {
                Ok(p) => {
                    &&& (p.confidence_ppm > old(self).config.confidence_gate_ppm ==> r.0@
                        == p.label@)
                    &&& (p.confidence_ppm <= old(self).config.confidence_gate_ppm ==> r.0@
                        == BENIGN_LABEL@)
                    &&& final(self).table.entries@[flow_idx as int].flow.last_prediction == Some(p)
                },
                Err(_) => {
                    &&& r.0@ == ERROR_LABEL@
                    &&& r.1 is None
                    &&& *final(self) == *old(self)
                },
            },
    {
        let now = crate::clock::now_micros();
        self.apply_classification_at(flow_idx, outcome, src_text, now)
    }
}

} // verus!
