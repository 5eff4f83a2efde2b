//! Sliding-window request-rate detector.
//!
//! Independently of the flow table, one event list is kept per source
//! address. Every check appends the current time, drops events that
//! fell out of the trailing window, and raises an alert exactly when
//! the retained count reaches the configured threshold.

use vstd::prelude::*;
use vstd::string::StringExecFns;

use crate::clock::now_micros;
use crate::text::spec_decimal;
use crate::text::u64_to_string;

verus! {

/// Microseconds per second, for turning the configured window into the
/// unit event times are kept in.
pub const WINDOW_MICROS_PER_SEC: u64 = 1_000_000;

/// An event time is still inside the window that ends at `now`: it is
/// not in the future and not older than `window` microseconds.
pub open spec fn retained(t: u64, now: u64, window: u64) -> bool {
    t <= now && now - t <= window
}

/// The pruning predicate of one check made at time `now`.
pub open spec fn retain_pred(now: u64, window: u64) -> spec_fn(u64) -> bool {
    |t: u64| retained(t, now, window)
}

/// The event history of one source address: absolute microsecond times.
#[derive(Clone, Debug)]
pub struct IpHistory {
    pub ip: String,
    pub times: Vec<u64>,
}

/// The alert payload raised when a source breaches the threshold.
#[derive(Clone, Debug)]
pub struct Alert {
    pub ip: String,
    pub attack_type: String,
    pub window_secs: u64,
    pub count: u64,
    pub threshold: u64,
}

impl Alert {
    /// Human-readable rendering of the alert, for console sinks.
    pub fn message(&self) -> (r: String)
        ensures
            r@ == "ALERT: Potential DDoS Attack detected! Source IP: "@ + self.ip@
                + " Attack Type: "@ + self.attack_type@ + " Requests in last "@ + spec_decimal(
                self.window_secs as int,
            ) + " seconds: "@ + spec_decimal(self.count as int) + " Current Threshold: "@
                + spec_decimal(self.threshold as int),
    {
        let mut r = String::from_str("ALERT: Potential DDoS Attack detected! Source IP: ");
        r.append(self.ip.as_str());
        r.append(" Attack Type: ");
        r.append(self.attack_type.as_str());
        r.append(" Requests in last ");
        let w = u64_to_string(self.window_secs);
        r.append(w.as_str());
        r.append(" seconds: ");
        let c = u64_to_string(self.count);
        r.append(c.as_str());
        r.append(" Current Threshold: ");
        let t = u64_to_string(self.threshold);
        r.append(t.as_str());
        r
    }
}

/// Index of the first history at or after `j` for the given address.
pub open spec fn find_ip(entries: Seq<IpHistory>, j: int, ip: Seq<char>) -> Option<int>
    decreases entries.len() - j,
{
    if j < 0 || j >= entries.len() {
        None
    } else if entries[j].ip@ == ip {
        Some(j)
    } else {
        find_ip(entries, j + 1, ip)
    }
}

/// When the search finds nothing, no history at or after `j` has the
/// address.
proof fn lemma_find_ip_none(entries: Seq<IpHistory>, j: int, ip: Seq<char>)
    requires
        0 <= j,
        find_ip(entries, j, ip) is None,
    ensures
        forall|k: int| j <= k < entries.len() ==> (#[trigger] entries[k]).ip@ != ip,
    decreases entries.len() - j,
{
    if j < entries.len() {
        lemma_find_ip_none(entries, j + 1, ip);
    }
}

/// A successful search lands in range, on the address it looked for.
proof fn lemma_find_ip_some(entries: Seq<IpHistory>, j: int, ip: Seq<char>)
    requires
        0 <= j,
        find_ip(entries, j, ip) is Some,
    ensures
        ({
            let k = find_ip(entries, j, ip)->Some_0;
            &&& j <= k < entries.len()
            &&& entries[k].ip@ == ip
        }),
    decreases entries.len() - j,
{
    if j < entries.len() && entries[j].ip@ != ip {
        lemma_find_ip_some(entries, j + 1, ip);
    }
}

/// Searching two histories of equal addresses gives the same index.
proof fn lemma_find_ip_same_ips(a: Seq<IpHistory>, b: Seq<IpHistory>, j: int, ip: Seq<char>)
    requires
        0 <= j,
        a.len() == b.len(),
        forall|k: int| 0 <= k < a.len() ==> (#[trigger] a[k]).ip@ == (#[trigger] b[k]).ip@,
    ensures
        find_ip(a, j, ip) == find_ip(b, j, ip),
    decreases a.len() - j,
{
    if j < a.len() {
        lemma_find_ip_same_ips(a, b, j + 1, ip);
    }
}

/// How the search behaves on a history list grown by one entry.
proof fn lemma_find_ip_push(a: Seq<IpHistory>, e: IpHistory, j: int, ip: Seq<char>)
    requires
        0 <= j <= a.len(),
    ensures
        find_ip(a.push(e), j, ip) == match find_ip(a, j, ip) {
            Some(k) => Some(k),
            None => if e.ip@ == ip {
                Some(a.len() as int)
            } else {
                None
            },
        },
    decreases a.len() - j,
{
    assert(a.push(e).len() == a.len() + 1);
    assert(a.push(e)[a.len() as int] == e);
    if j < a.len() {
        assert(a.push(e)[j] == a[j]);
        lemma_find_ip_push(a, e, j + 1, ip);
    }
}

/// How the filtered value of a prefix changes when the prefix grows by
/// one element.
proof fn lemma_filter_step(s: Seq<u64>, pred: spec_fn(u64) -> bool, i: int)
    requires
        0 <= i < s.len(),
    ensures
        s.take(i + 1).filter(pred) == if pred(s[i]) {
            s.take(i).filter(pred).push(s[i])
        } else {
            s.take(i).filter(pred)
        },
{
    let t = s.take(i + 1);
    assert(t.drop_last() =~= s.take(i));
    assert(t.last() == s[i]);
    reveal(Seq::filter);
}

/// Filtering keeps its value when the last element passes the filter.
proof fn lemma_filter_push_kept(s: Seq<u64>, pred: spec_fn(u64) -> bool, x: u64)
    requires
        pred(x),
    ensures
        s.push(x).filter(pred) == s.filter(pred).push(x),
{
    let t = s.push(x);
    assert(t.drop_last() =~= s);
    assert(t.last() == x);
    reveal(Seq::filter);
}

/// Per-source sliding-window rate detector. The window length and the
/// alert threshold are fixed at construction.
#[derive(Debug)]
pub struct DDoSDetector {
    pub ip_requests: Vec<IpHistory>,
    pub time_window_secs: u64,
    pub time_window_micros: u64,
    pub threshold: u64,
}

impl DDoSDetector {
    /// One history per address.
    pub open spec fn wf(self) -> bool {
        forall|i: int, j: int|
            0 <= i < j < self.ip_requests@.len() ==> (#[trigger] self.ip_requests@[i]).ip@ != (
            #[trigger] self.ip_requests@[j]).ip@
    }

    /// The recorded event times of the given address, empty when the
    /// address was never seen.
    pub open spec fn spec_times(self, ip: Seq<char>) -> Seq<u64> {
        match find_ip(self.ip_requests@, 0, ip) {
            Some(i) => self.ip_requests@[i].times@,
            None => Seq::empty(),
        }
    }

    /// The event list that one check at time `now` leaves behind for the
    /// checked address: the old list plus `now`, pruned to the window.
    pub open spec fn spec_checked_times(self, ip: Seq<char>, now: u64) -> Seq<u64> {
        self.spec_times(ip).push(now).filter(retain_pred(now, self.time_window_micros))
    }

    /// A detector with no recorded events. The window is given in whole
    /// seconds and kept in microseconds, saturating on overflow.
    pub fn new(time_window_secs: u64, threshold: usize) -> (d: DDoSDetector)
        ensures
            d.wf(),
            d.ip_requests@.len() == 0,
            d.time_window_secs == time_window_secs,
            d.threshold == threshold,
            time_window_secs <= u64::MAX as int / WINDOW_MICROS_PER_SEC as int
                ==> d.time_window_micros == time_window_secs * WINDOW_MICROS_PER_SEC,
            time_window_secs > u64::MAX as int / WINDOW_MICROS_PER_SEC as int
                ==> d.time_window_micros == u64::MAX,
    {
        let micros = if time_window_secs <= u64::MAX / WINDOW_MICROS_PER_SEC {
            proof {
                assert(time_window_secs * WINDOW_MICROS_PER_SEC <= u64::MAX) by (nonlinear_arith)
                    requires
                        0 <= time_window_secs <= u64::MAX as int / WINDOW_MICROS_PER_SEC as int,
                        WINDOW_MICROS_PER_SEC == 1_000_000,
                ;
            }
            time_window_secs * WINDOW_MICROS_PER_SEC
        } else {
            u64::MAX
        };
        DDoSDetector {
            ip_requests: Vec::new(),
            time_window_secs,
            time_window_micros: micros,
            threshold: threshold as u64,
        }
    }

    /// Index of the history for `ip`, if one exists.
    fn index_of(&self, ip: &String) -> (r: Option<usize>)
        ensures
            match r {
                Some(i) => i < self.ip_requests@.len() && find_ip(self.ip_requests@, 0, ip@)
                    == Some(i as int),
                None => find_ip(self.ip_requests@, 0, ip@) is None,
            },
    {
        let n = self.ip_requests.len();
        let mut i: usize = 0;
        while i < n
            invariant
                n == self.ip_requests@.len(),
                i <= n,
                find_ip(self.ip_requests@, 0, ip@) == find_ip(self.ip_requests@, i as int, ip@),
            decreases n - i,
        {
            if self.ip_requests[i].ip == *ip {
                return Some(i);
            }
            i = i + 1;
        }
        None
    }

    /// One check of `ip` at the explicit time `now`: record the event,
    /// prune the address's history to the trailing window, and alert
    /// exactly when the retained count reaches the threshold.
    pub fn check_at(&mut self, ip: &str, attack_type: &str, now: u64) -> (r: Option<Alert>)
        requires
            old(self).wf(),
        ensures
            final(self).wf(),
            final(self).time_window_secs == old(self).time_window_secs,
            final(self).time_window_micros == old(self).time_window_micros,
            final(self).threshold == old(self).threshold,
            final(self).spec_times(ip@) == old(self).spec_checked_times(ip@, now),
            forall|other: Seq<char>|
                other != ip@ ==> #[trigger] final(self).spec_times(other) == old(self).spec_times(
                    other,
                ),
            r is Some <==> old(self).spec_checked_times(ip@, now).len() >= old(self).threshold,
            match r {
                Some(a) => {
                    &&& a.ip@ == ip@
                    &&& a.attack_type@ == attack_type@
                    &&& a.window_secs == old(self).time_window_secs
                    &&& a.count == old(self).spec_checked_times(ip@, now).len()
                    &&& a.threshold == old(self).threshold
                },
                None => true,
            },
    {
        let ip_owned = ip.to_owned();
        let idx = match self.index_of(&ip_owned) {
            Some(i) => i,
            None => {
                let n = self.ip_requests.len();
                proof {
                    lemma_find_ip_none(self.ip_requests@, 0, ip@);
                }
                let stored_ip = ip_owned.clone();
                self.ip_requests.push(IpHistory { ip: stored_ip, times: Vec::new() });
                proof {
                    lemma_find_ip_push(
                        old(self).ip_requests@,
                        self.ip_requests@.last(),
                        0,
                        ip@,
                    );
                }
                n
            },
        };
        let ghost mid = *self;
        proof {
            assert(old(self).spec_times(ip@) == mid.ip_requests@[idx as int].times@);
        }
        let window = self.time_window_micros;
        let ghost pred = retain_pred(now, window);
        let total = self.ip_requests[idx].times.len();
        let mut kept: Vec<u64> = Vec::new();
        let mut i: usize = 0;
        while i < total
            invariant
                *self == mid,
                idx < self.ip_requests@.len(),
                total == self.ip_requests@[idx as int].times@.len(),
                i <= total,
                pred == retain_pred(now, window),
                kept@ == self.ip_requests@[idx as int].times@.take(i as int).filter(pred),
            decreases total - i,
        {
            let t = self.ip_requests[idx].times[i];
            proof {
                lemma_filter_step(self.ip_requests@[idx as int].times@, pred, i as int);
            }
            if t <= now && now - t <= window {
                kept.push(t);
            }
            i = i + 1;
        }
        proof {
            assert(mid.ip_requests@[idx as int].times@.take(total as int)
                =~= mid.ip_requests@[idx as int].times@);
            lemma_filter_push_kept(mid.ip_requests@[idx as int].times@, pred, now);
        }
        kept.push(now);
        let count = kept.len();
        let threshold = self.threshold;
        let win_secs = self.time_window_secs;
        self.ip_requests[idx].times = kept;
        proof {
            lemma_find_ip_same_ips(mid.ip_requests@, self.ip_requests@, 0, ip@);
            lemma_find_ip_some(mid.ip_requests@, 0, ip@);
            assert(find_ip(self.ip_requests@, 0, ip@) == Some(idx as int));
            assert(self.spec_times(ip@) == old(self).spec_checked_times(ip@, now));
            assert forall|other: Seq<char>| other != ip@ implies #[trigger] self.spec_times(other)
                == old(self).spec_times(other) by {
                lemma_find_ip_same_ips(mid.ip_requests@, self.ip_requests@, 0, other);
                if mid.ip_requests@.len() > old(self).ip_requests@.len() {
                    assert(mid.ip_requests@ == old(self).ip_requests@.push(
                        mid.ip_requests@.last(),
                    ));
                    lemma_find_ip_push(
                        old(self).ip_requests@,
                        mid.ip_requests@.last(),
                        0,
                        other,
                    );
                }
                match find_ip(mid.ip_requests@, 0, other) {
                    Some(k) => {
                        lemma_find_ip_some(mid.ip_requests@, 0, other);
                        assert(k != idx);
                        assert(self.ip_requests@[k] == mid.ip_requests@[k]);
                    },
                    None => {},
                }
            }
        }
        if count as u64 >= threshold {
            Some(
                Alert {
                    ip: ip_owned,
                    attack_type: attack_type.to_owned(),
                    window_secs: win_secs,
                    count: count as u64,
                    threshold,
                },
            )
        } else {
            None
        }
    }

    /// One check of `ip` against the machine clock; see [`Self::check_at`].
    /// Whatever the clock returns, the detector stays well formed, the
    /// configuration is untouched, and any alert carries the checked
    /// address, the given attack label and this detector's window and
    /// threshold, with a count that reached the threshold.
    pub fn check_ip(&mut self, ip: &str, attack_type: &str) -> (r: Option<Alert>)
        requires
            old(self).wf(),
        ensures
            final(self).wf(),
            final(self).time_window_secs == old(self).time_window_secs,
            final(self).time_window_micros == old(self).time_window_micros,
            final(self).threshold == old(self).threshold,
            match r {
                Some(a) => {
                    &&& a.ip@ == ip@
                    &&& a.attack_type@ == attack_type@
                    &&& a.window_secs == old(self).time_window_secs
                    &&& a.threshold == old(self).threshold
                    &&& a.count >= old(self).threshold
                },
                None => true,
            },
    {
        let now = now_micros();
        self.check_at(ip, attack_type, now)
    }
}

} // verus!
