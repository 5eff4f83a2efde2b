//! Classification cadence and the confidence gate.
//!
//! The classifier is slow, so it is consulted only on a per-protocol
//! cadence (or when a flow has never been classified); between
//! consultations the cached label is reused. A returned label is kept
//! only when its confidence clears the acceptance threshold; below it,
//! the flow is recorded as benign while the raw outcome still feeds the
//! rate detector.

use vstd::prelude::*;
use vstd::string::StringExecFns;

verus! {

/// Default cadence: every 10th TCP packet triggers a fresh call.
pub const DEFAULT_TCP_CADENCE: u64 = 10;

/// Default cadence: every 15th UDP packet.
pub const DEFAULT_UDP_CADENCE: u64 = 15;

/// Default cadence: every 20th packet of any other protocol.
pub const DEFAULT_OTHER_CADENCE: u64 = 20;

/// Confidence acceptance threshold, in millionths (0.75).
pub const DEFAULT_CONFIDENCE_GATE_PPM: u32 = 750_000;

/// The label recorded when confidence falls short of the acceptance threshold.
pub const BENIGN_LABEL: &'static str = "BENIGN";

/// The label recorded when the classifier fails.
pub const ERROR_LABEL: &'static str = "Error";

/// IANA protocol number of TCP.
pub const PROTO_TCP: u8 = 6;

/// IANA protocol number of UDP.
pub const PROTO_UDP: u8 = 17;

/// IANA protocol number of ICMP.
pub const PROTO_ICMP: u8 = 1;

/// Per-protocol classification cadence, fixed at configuration time.
#[derive(Clone, Copy, Debug, PartialEq, Eq, Structural)]
pub struct CadenceConfig {
    pub tcp: u64,
    pub udp: u64,
    pub other: u64,
}

impl CadenceConfig {
    /// Cadences are periods: every one of them is positive.
    pub open spec fn wf(self) -> bool {
        self.tcp >= 1 && self.udp >= 1 && self.other >= 1
    }

    /// The defaults: 10 for TCP, 15 for UDP, 20 otherwise.
    pub fn new_default() -> (c: CadenceConfig)
        ensures
            c.wf(),
            c.tcp == DEFAULT_TCP_CADENCE,
            c.udp == DEFAULT_UDP_CADENCE,
            c.other == DEFAULT_OTHER_CADENCE,
    {
        CadenceConfig {
            tcp: DEFAULT_TCP_CADENCE,
            udp: DEFAULT_UDP_CADENCE,
            other: DEFAULT_OTHER_CADENCE,
        }
    }

    /// The cadence that applies to the given protocol.
    pub open spec fn spec_cadence_of(self, protocol: u8) -> u64 {
        if protocol == PROTO_TCP {
            self.tcp
        } else if protocol == PROTO_UDP {
            self.udp
        } else {
            self.other
        }
    }

    /// The cadence that applies to the given protocol.
    pub fn cadence_of(&self, protocol: u8) -> (r: u64)
        ensures
            r == self.spec_cadence_of(protocol),
    {
        if protocol == PROTO_TCP {
            self.tcp
        } else if protocol == PROTO_UDP {
            self.udp
        } else {
            self.other
        }
    }
}

/// Whether a fresh classifier call is due: the flow's total packet
/// count has reached a cadence multiple, or the flow has no prior
/// classification to reuse.
pub fn should_classify(
    cfg: &CadenceConfig,
    protocol: u8,
    total_packets: u64,
    has_prior: bool,
) -> (r: bool)
    requires
        cfg.wf(),
    ensures
        r == (total_packets % cfg.spec_cadence_of(protocol) == 0 || !has_prior),
{
    let cadence = cfg.cadence_of(protocol);
    total_packets % cadence == 0 || !has_prior
}

/// The label the flow records for a raw classifier outcome: the raw
/// label itself when its confidence strictly clears the acceptance
/// threshold, the benign marker otherwise.
pub fn gate_label(raw_label: &str, confidence_ppm: u32, gate_ppm: u32) -> (r: String)
    ensures
        confidence_ppm > gate_ppm ==> r@ == raw_label@,
        confidence_ppm <= gate_ppm ==> r@ == BENIGN_LABEL@,
{
    if confidence_ppm > gate_ppm {
        raw_label.to_owned()
    } else {
        BENIGN_LABEL.to_owned()
    }
}

/// The labels that name an attack class.
pub open spec fn spec_is_attack_label(l: Seq<char>) -> bool {
    ||| l == "DNS"@
    ||| l == "NTP"@
    ||| l == "HTTP"@
    ||| l == "LDAP"@
    ||| l == "MSSQL"@
    ||| l == "NetBIOS"@
    ||| l == "Portmap"@
    ||| l == "RECURSIVE_GET"@
    ||| l == "SLOWLORIS"@
    ||| l == "SLOW_POST"@
    ||| l == "SYN"@
    ||| l == "UDP"@
    ||| l == "UDPLag"@
}

/// Exact string equality.
pub fn str_eq(a: &str, b: &str) -> (r: bool)
    ensures
        r == (a@ == b@),
{
    let ao = a.to_owned();
    let bo = b.to_owned();
    ao == bo
}

/// Whether a label names an attack class.
pub fn is_attack_label(l: &str) -> (r: bool)
    ensures
        r == spec_is_attack_label(l@),
{
    str_eq(l, "DNS") || str_eq(l, "NTP") || str_eq(l, "HTTP") || str_eq(l, "LDAP") || str_eq(
        l,
        "MSSQL",
    ) || str_eq(l, "NetBIOS") || str_eq(l, "Portmap") || str_eq(l, "RECURSIVE_GET") || str_eq(
        l,
        "SLOWLORIS",
    ) || str_eq(l, "SLOW_POST") || str_eq(l, "SYN") || str_eq(l, "UDP") || str_eq(l, "UDPLag")
}

} // verus!
