//! The optional port allow-list.
//!
//! A command line may name single ports and inclusive ranges
//! ("80,443,8000-8080"); a packet enters the pipeline only when one of
//! its ports is allowed. An absent list allows everything.

use vstd::prelude::*;
use vstd::string::StrSliceExecFns;
use vstd::string::StringExecFns;

verus! {

/// A decimal digit.
pub open spec fn is_digit(c: char) -> bool {
    48 <= c as u32 <= 57
}

/// The value of one decimal digit.
pub open spec fn digit_val(c: char) -> int {
    c as u32 - 48
}

/// Every character is a decimal digit.
pub open spec fn all_digits(s: Seq<char>) -> bool {
    forall|i: int| 0 <= i < s.len() ==> is_digit(#[trigger] s[i])
}

/// The number the digit string denotes.
pub open spec fn dec_val(s: Seq<char>) -> int
    decreases s.len(),
{
    if s.len() == 0 {
        0
    } else {
        dec_val(s.drop_last()) * 10 + digit_val(s.last())
    }
}

proof fn lemma_dec_step(s: Seq<char>, i: int)
    requires
        0 <= i < s.len(),
    ensures
        dec_val(s.take(i + 1)) == dec_val(s.take(i)) * 10 + digit_val(s[i]),
{
    assert(s.take(i + 1).drop_last() =~= s.take(i));
    assert(s.take(i + 1).last() == s[i]);
}

proof fn lemma_dec_nonneg(s: Seq<char>)
    requires
        all_digits(s),
    ensures
        dec_val(s) >= 0,
    decreases s.len(),
{
    if s.len() > 0 {
        assert(all_digits(s.drop_last())) by {
            assert(forall|i: int|
                0 <= i < s.len() - 1 ==> s.drop_last()[i] == #[trigger] s[i]);
        }
        lemma_dec_nonneg(s.drop_last());
    }
}

/// A digit string's value only grows as more digits are read.
proof fn lemma_dec_prefix_le(s: Seq<char>, i: int)
    requires
        all_digits(s),
        0 <= i <= s.len(),
    ensures
        dec_val(s.take(i)) <= dec_val(s),
    decreases s.len() - i,
{
    if i < s.len() {
        lemma_dec_step(s, i);
        assert(all_digits(s.take(i))) by {
            assert(forall|k: int| 0 <= k < i ==> s.take(i)[k] == #[trigger] s[k]);
        }
        lemma_dec_nonneg(s.take(i));
        lemma_dec_prefix_le(s, i + 1);
    } else {
        assert(s.take(i) =~= s);
    }
}

/// Parse a decimal port number. Succeeds exactly on nonempty all-digit
/// strings whose value fits a port.
pub fn parse_u16(s: &str) -> (r: Option<u16>)
    ensures
        r is Some <==> s@.len() > 0 && all_digits(s@) && dec_val(s@) <= 65535,
        match r {
            Some(v) => v == dec_val(s@),
            None => true,
        },
{
    let n = s.unicode_len();
    if n == 0 {
        return None;
    }
    let mut acc: u32 = 0;
    let mut i: usize = 0;
    while i < n
        invariant
            n == s@.len(),
            0 < n,
            i <= n,
            all_digits(s@.take(i as int)),
            acc == dec_val(s@.take(i as int)),
            acc <= 65535,
        decreases n - i,
    {
        let c = s.get_char(i);
        let cv = c as u32;
        proof {
            lemma_dec_step(s@, i as int);
        }
        if cv < 48 || cv > 57 {
            return None;
        }
        proof {
            assert(forall|k: int|
                0 <= k < i + 1 ==> s@.take(i + 1)[k] == #[trigger] s@.take(i as int + 1)[k]);
        }
        acc = acc * 10 + (cv - 48);
        if acc > 65535 {
            proof {
                if all_digits(s@) {
                    lemma_dec_prefix_le(s@, i + 1);
                }
            }
            return None;
        }
        i = i + 1;
    }
    proof {
        assert(s@.take(n as int) =~= s@);
    }
    Some(acc as u16)
}

/// One entry of the allow-list: a single port or an inclusive range.
#[derive(Clone, Copy, Debug, PartialEq, Eq, Structural)]
pub enum PortSpec {
    Single(u16),
    Range(u16, u16),
}

/// No dash anywhere in the token.
pub open spec fn no_dash(s: Seq<char>) -> bool {
    forall|i: int| 0 <= i < s.len() ==> #[trigger] s[i] != '-'
}

/// A dash at `k` and nowhere else.
pub open spec fn single_dash_at(s: Seq<char>, k: int) -> bool {
    &&& 0 <= k < s.len()
    &&& s[k] == '-'
    &&& forall|i: int| 0 <= i < s.len() && i != k ==> #[trigger] s[i] != '-'
}

/// Position of the first comma at or after `i`, or the length.
pub open spec fn next_comma(s: Seq<char>, i: int) -> int
    decreases s.len() - i,
{
    if i < 0 || i >= s.len() {
        s.len() as int
    } else if s[i] == ',' {
        i
    } else {
        next_comma(s, i + 1)
    }
}

proof fn lemma_next_comma_ge(s: Seq<char>, i: int)
    ensures
        i <= s.len() ==> next_comma(s, i) >= i,
        next_comma(s, i) <= s.len(),
    decreases s.len() - i,
{
    if 0 <= i < s.len() && s[i] != ',' {
        lemma_next_comma_ge(s, i + 1);
    }
}

/// Where the scan knows the region before a comma (or before the end)
/// is comma-free, the search lands exactly there.
proof fn lemma_next_comma_at(s: Seq<char>, start: int, pos: int)
    requires
        0 <= start <= pos <= s.len(),
        pos < s.len() ==> s[pos] == ',',
        forall|j: int| start <= j < pos ==> #[trigger] s[j] != ',',
    ensures
        next_comma(s, start) == pos,
    decreases pos - start,
{
    if start < pos {
        lemma_next_comma_at(s, start + 1, pos);
    }
}

/// The comma-separated tokens of `s` from position `start` on.
pub open spec fn tokens_from(s: Seq<char>, start: int) -> Seq<Seq<char>>
    decreases s.len() - start,
    via tokens_from_decreases
{
    if start < 0 || start > s.len() {
        Seq::empty()
    } else {
        let e = next_comma(s, start);
        if e >= s.len() {
            seq![s.subrange(start, s.len() as int)]
        } else {
            seq![s.subrange(start, e)] + tokens_from(s, e + 1)
        }
    }
}

#[via_fn]
proof fn tokens_from_decreases(s: Seq<char>, start: int) {
    lemma_next_comma_ge(s, start);
}

/// What one token contributes to the allow-list: a dashless all-digit
/// token is a single port, a token with exactly one dash and two port
/// halves is an inclusive range, and every other token is skipped.
pub open spec fn spec_token_parse(t: Seq<char>) -> Option<PortSpec> {
    if no_dash(t) {
        if t.len() > 0 && all_digits(t) && dec_val(t) <= 65535 {
            Some(PortSpec::Single(dec_val(t) as u16))
        } else {
            None
        }
    } else if exists|k: int| single_dash_at(t, k) {
        let k = choose|k: int| single_dash_at(t, k);
        let l = t.take(k);
        let r = t.skip(k + 1);
        if l.len() > 0 && all_digits(l) && dec_val(l) <= 65535 && r.len() > 0 && all_digits(r)
            && dec_val(r) <= 65535 {
            Some(PortSpec::Range(dec_val(l) as u16, dec_val(r) as u16))
        } else {
            None
        }
    } else {
        None
    }
}

/// The single ports and ranges that a token list yields, in order.
pub open spec fn collect_tokens(toks: Seq<Seq<char>>) -> (Seq<u16>, Seq<(u16, u16)>)
    decreases toks.len(),
{
    if toks.len() == 0 {
        (Seq::empty(), Seq::empty())
    } else {
        let tail = collect_tokens(toks.skip(1));
        match spec_token_parse(toks[0]) {
            Some(PortSpec::Single(v)) => (seq![v] + tail.0, tail.1),
            Some(PortSpec::Range(a, b)) => (tail.0, seq![(a, b)] + tail.1),
            None => tail,
        }
    }
}

/// Index of the first "--ports" flag that still has an argument after
/// it, at or after `j`.
pub open spec fn first_ports_flag(args: Seq<String>, j: int) -> Option<int>
    decreases args.len() - j,
{
    if j < 0 || j >= args.len() {
        None
    } else if args[j]@ == "--ports"@ && j + 1 < args.len() {
        Some(j)
    } else {
        first_ports_flag(args, j + 1)
    }
}

/// Parse one allow-list token, exactly as [`spec_token_parse`] reads
/// it: a dashless token is a single port; a token with exactly one
/// dash is an inclusive range; anything else, or a half that is not a
/// port number, is rejected.
pub fn parse_port_token(tok: &str) -> (r: Option<PortSpec>)
    ensures
        r == spec_token_parse(tok@),
{
    let n = tok.unicode_len();
    let mut dash: Option<usize> = None;
    let mut i: usize = 0;
    while i < n
        invariant
            n == tok@.len(),
            i <= n,
            match dash {
                Some(k) => k < i && tok@[k as int] == '-' && (forall|j: int|
                    0 <= j < i && j != k ==> #[trigger] tok@[j] != '-'),
                None => forall|j: int| 0 <= j < i ==> #[trigger] tok@[j] != '-',
            },
        decreases n - i,
    {
        let c = tok.get_char(i);
        if c == '-' {
            match dash {
                Some(k) => {
                    proof {
                        assert forall|kk: int| !(#[trigger] single_dash_at(tok@, kk)) by {
                            if single_dash_at(tok@, kk) {
                                if kk == k as int {
                                    assert(tok@[i as int] != '-');
                                } else {
                                    assert(tok@[k as int] != '-');
                                }
                            }
                        }
                    }
                    return None;
                },
                None => {
                    dash = Some(i);
                },
            }
        }
        i = i + 1;
    }
    match dash {
        None => {
            proof {
                assert(no_dash(tok@));
                if tok@.len() > 0 && all_digits(tok@) {
                    lemma_dec_nonneg(tok@);
                }
            }
            match parse_u16(tok) {
                Some(v) => Some(PortSpec::Single(v)),
                None => None,
            }
        },
        Some(k) => {
            let left = tok.substring_char(0, k);
            let right = tok.substring_char(k + 1, n);
            proof {
                assert(left@ =~= tok@.take(k as int));
                assert(right@ =~= tok@.skip(k as int + 1));
                assert(single_dash_at(tok@, k as int));
                let kk = choose|kk: int| single_dash_at(tok@, kk);
                if kk != k as int {
                    assert(tok@[kk] != '-');
                }
                assert(kk == k as int);
                if left@.len() > 0 && all_digits(left@) {
                    lemma_dec_nonneg(left@);
                }
                if right@.len() > 0 && all_digits(right@) {
                    lemma_dec_nonneg(right@);
                }
            }
            match (parse_u16(left), parse_u16(right)) {
                (Some(a), Some(b)) => Some(PortSpec::Range(a, b)),
                _ => None,
            }
        },
    }
}

/// The optional allow-list itself.
#[derive(Clone, Debug)]
pub struct PortFilter {
    pub enabled: bool,
    pub ports: Vec<u16>,
    pub port_ranges: Vec<(u16, u16)>,
}

impl PortFilter {
    /// The port is allowed: filtering is off, or the port is listed
    /// singly or inside a range.
    pub open spec fn spec_allows(self, port: u16) -> bool {
        ||| !self.enabled
        ||| self.ports@.contains(port)
        ||| exists|i: int|
            0 <= i < self.port_ranges@.len() && (#[trigger] self.port_ranges@[i]).0 <= port
                <= self.port_ranges@[i].1
    }

    /// A disabled filter: everything is allowed.
    pub fn new() -> (f: PortFilter)
        ensures
            !f.enabled,
            f.ports@.len() == 0,
            f.port_ranges@.len() == 0,
    {
        PortFilter { enabled: false, ports: Vec::new(), port_ranges: Vec::new() }
    }

    /// Whether a packet on this port enters the pipeline.
    pub fn allows(&self, port: u16) -> (r: bool)
        ensures
            r == self.spec_allows(port),
    {
        if !self.enabled {
            return true;
        }
        let mut i: usize = 0;
        let np = self.ports.len();
        while i < np
            invariant
                np == self.ports@.len(),
                i <= np,
                forall|j: int| 0 <= j < i ==> #[trigger] self.ports@[j] != port,
            decreases np - i,
        {
            if self.ports[i] == port {
                return true;
            }
            i = i + 1;
        }
        let mut k: usize = 0;
        let nr = self.port_ranges.len();
        while k < nr
            invariant
                nr == self.port_ranges@.len(),
                k <= nr,
                forall|j: int|
                    0 <= j < k ==> !((#[trigger] self.port_ranges@[j]).0 <= port
                        <= self.port_ranges@[j].1),
            decreases nr - k,
        {
            let (lo, hi) = self.port_ranges[k];
            if lo <= port && port <= hi {
                return true;
            }
            k = k + 1;
        }
        false
    }

    /// Build the filter from command-line arguments: the argument after
    /// the first "--ports" flag is read as a comma-separated token
    /// list, each token a single port or an inclusive range; tokens
    /// that parse as neither are skipped. Without the flag the filter
    /// stays disabled and empty.
    pub fn from_args(args: &Vec<String>) -> (f: PortFilter)
        ensures
            match first_ports_flag(args@, 0) {
                Some(k) => {
                    &&& f.enabled
                    &&& f.ports@ == collect_tokens(tokens_from(args@[k + 1]@, 0)).0
                    &&& f.port_ranges@ == collect_tokens(tokens_from(args@[k + 1]@, 0)).1
                },
                None => !f.enabled && f.ports@.len() == 0 && f.port_ranges@.len() == 0,
            },
    {
        let mut filter = PortFilter::new();
        let n = args.len();
        let mut i: usize = 0;
        let mut at: Option<usize> = None;
        let mut searching = true;
        while i < n && searching
            invariant
                n == args@.len(),
                i <= n,
                searching <==> at is None,
                match at {
                    Some(k) => k + 1 < n && first_ports_flag(args@, 0) == Some(k as int),
                    None => first_ports_flag(args@, 0) == first_ports_flag(args@, i as int),
                },
            decreases n - i,
        {
            let flag = String::from_str("--ports");
            if args[i] == flag && i + 1 < n {
                at = Some(i);
                searching = false;
            }
            i = i + 1;
        }
        let k = match at {
            Some(k) => k,
            None => {
                return filter;
            },
        };
        filter.enabled = true;
        let spec_str = &args[k + 1];
        let s = spec_str.as_str();
        let total = s.unicode_len();
        let ghost sv = s@;
        let mut start: usize = 0;
        let mut pos: usize = 0;
        while pos < total
            invariant
                total == sv.len(),
                sv == s@,
                start <= pos <= total,
                filter.enabled,
                forall|j: int| start <= j < pos ==> #[trigger] sv[j] != ',',
                collect_tokens(tokens_from(sv, 0)).0 =~= filter.ports@ + collect_tokens(
                    tokens_from(sv, start as int),
                ).0,
                collect_tokens(tokens_from(sv, 0)).1 =~= filter.port_ranges@ + collect_tokens(
                    tokens_from(sv, start as int),
                ).1,
            decreases total - pos,
        {
            if s.get_char(pos) == ',' {
                let tok = s.substring_char(start, pos);
                proof {
                    lemma_next_comma_at(sv, start as int, pos as int);
                    assert(tok@ =~= sv.subrange(start as int, pos as int));
                    let toks = tokens_from(sv, start as int);
                    assert(toks == seq![sv.subrange(start as int, pos as int)] + tokens_from(
                        sv,
                        pos + 1,
                    ));
                    assert(toks[0] == tok@);
                    assert(toks.skip(1) =~= tokens_from(sv, pos + 1));
                }
                match parse_port_token(tok) {
                    Some(PortSpec::Single(v)) => {
                        proof {
                            assert(filter.ports@ + (seq![v] + collect_tokens(
                                tokens_from(sv, pos + 1),
                            ).0) =~= filter.ports@.push(v) + collect_tokens(
                                tokens_from(sv, pos + 1),
                            ).0);
                        }
                        filter.ports.push(v);
                    },
                    Some(PortSpec::Range(a, b)) => {
                        proof {
                            assert(filter.port_ranges@ + (seq![(a, b)] + collect_tokens(
                                tokens_from(sv, pos + 1),
                            ).1) =~= filter.port_ranges@.push((a, b)) + collect_tokens(
                                tokens_from(sv, pos + 1),
                            ).1);
                        }
                        filter.port_ranges.push((a, b));
                    },
                    None => {},
                }
                start = pos + 1;
            }
            pos = pos + 1;
        }
        let tok = s.substring_char(start, total);
        proof {
            lemma_next_comma_at(sv, start as int, total as int);
            assert(tok@ =~= sv.subrange(start as int, total as int));
            let toks = tokens_from(sv, start as int);
            assert(toks == seq![sv.subrange(start as int, total as int)]);
            assert(toks[0] == tok@);
            assert(toks.skip(1) =~= Seq::<Seq<char>>::empty());
            assert(collect_tokens(toks.skip(1)).0 =~= Seq::<u16>::empty());
            assert(collect_tokens(toks.skip(1)).1 =~= Seq::<(u16, u16)>::empty());
        }
        match parse_port_token(tok) {
            Some(PortSpec::Single(v)) => {
                filter.ports.push(v);
            },
            Some(PortSpec::Range(a, b)) => {
                filter.port_ranges.push((a, b));
            },
            None => {},
        }
        proof {
            assert(collect_tokens(tokens_from(sv, 0)).0 =~= filter.ports@);
            assert(collect_tokens(tokens_from(sv, 0)).1 =~= filter.port_ranges@);
        }
        filter
    }

}

} // verus!
