//! The port-sweep planner and aggregator: splitting a port range into
//! batches, deciding what a probe's outcome means, and merging the openings
//! every batch reported into one sorted, duplicate-free answer. The probes
//! themselves (connects, datagrams, timeouts) are the caller's work.

use vstd::prelude::*;

verus! {

/// Which probe strategy a scan uses.
#[derive(Clone, Copy, Debug, PartialEq, Eq, Structural)]
pub enum ScanType {
    Tcp,
    Udp,
}

/// How a TCP connect probe ended within its timeout.
#[derive(Clone, Copy, Debug, PartialEq, Eq, Structural)]
pub enum TcpProbeEvent {
    /// The connection was accepted.
    Connected,
    /// The connection failed (refused, unreachable, reset).
    Refused,
    /// Nothing happened before the per-probe timeout.
    TimedOut,
}

/// How a UDP send-and-receive probe ended.
#[derive(Clone, Copy, Debug, PartialEq, Eq, Structural)]
pub enum UdpProbeEvent {
    /// A datagram came back.
    Response,
    /// Nothing came back before the read timeout.
    Timeout,
    /// The receive failed outright (an ICMP port-unreachable, typically).
    RecvError,
}

/// The outcome of a single probe against one port.
#[derive(Clone, Copy, Debug)]
pub struct ProbeResult {
    pub port: u16,
    pub is_open: bool,
    pub latency_ms: Option<u64>,
}

/// Ports swept per spawned batch task in a TCP scan.
pub const TCP_BATCH_SIZE: usize = 2000;

/// Ports swept per spawned batch task in a UDP scan.
pub const UDP_BATCH_SIZE: usize = 100;

/// Open ports identified per batch after the sweep.
pub const SERVICE_BATCH_SIZE: usize = 20;

/// A TCP port is open exactly when the connect was accepted; a failure or a
/// timeout is closed.
pub fn tcp_port_open(e: TcpProbeEvent) -> (r: bool)
    ensures
        r == (e is Connected),
{
    match e {
        TcpProbeEvent::Connected => true,
        TcpProbeEvent::Refused => false,
        TcpProbeEvent::TimedOut => false,
    }
}

/// What a TCP probe outcome feeds back to the rate controller: a success
/// for an accepted connection, a failure for a refused one or for one that
/// timed out. Every probe reports its outcome, so a sweep of a filtered
/// port space — nothing but timeouts — still backs the rate off.
pub fn tcp_feedback(e: TcpProbeEvent) -> (r: bool)
    ensures
        r == (e is Connected),
{
    match e {
        TcpProbeEvent::Connected => true,
        TcpProbeEvent::Refused => false,
        TcpProbeEvent::TimedOut => false,
    }
}

/// A UDP port counts as open unless the receive failed outright: an answer
/// is proof, and silence is deliberately treated as open too, since UDP
/// gives no reply for a listening socket that stays quiet. This is the
/// documented heuristic, kept although it over-reports.
pub fn udp_port_open(e: UdpProbeEvent) -> (r: bool)
    ensures
        r == !(e is RecvError),
{
    match e {
        UdpProbeEvent::Response => true,
        UdpProbeEvent::Timeout => true,
        UdpProbeEvent::RecvError => false,
    }
}

/// What a UDP probe outcome feeds back to the rate controller: only an
/// outright receive error counts as a failure.
pub fn udp_feedback(e: UdpProbeEvent) -> (r: bool)
    ensures
        r == !(e is RecvError),
{
    match e {
        UdpProbeEvent::Response => true,
        UdpProbeEvent::Timeout => true,
        UdpProbeEvent::RecvError => false,
    }
}

/// Some batch's inclusive bounds contain port `p`.
pub open spec fn spec_covered(batches: Seq<(u16, u16)>, p: int) -> bool {
    exists|k: int| 0 <= k < batches.len() && (#[trigger] batches[k]).0 <= p <= batches[k].1
}

/// How many ports an inclusive range holds; a reversed range holds none.
pub open spec fn spec_num_ports(start: u16, end: u16) -> int {
    if start > end {
        0
    } else {
        end - start + 1
    }
}

/// The scan plan: the range, timing and concurrency of one sweep. The
/// caller runs the probes; the plan says which ports go in which batch and
/// how the outcomes aggregate.
#[derive(Clone, Copy, Debug)]
pub struct Scanner {
    pub start_port: u16,
    pub end_port: u16,
    /// Hard per-probe timeout, in milliseconds.
    pub timeout_ms: u64,
    /// How many probe tasks may be in flight at once.
    pub threads: usize,
    pub scan_type: ScanType,
}

impl Scanner {
    /// A plan for one sweep.
    pub fn new(
        start_port: u16,
        end_port: u16,
        timeout_ms: u64,
        threads: usize,
        scan_type: ScanType,
    ) -> (r: Self)
        ensures
            r.start_port == start_port,
            r.end_port == end_port,
            r.timeout_ms == timeout_ms,
            r.threads == threads,
            r.scan_type == scan_type,
    {
        Scanner { start_port, end_port, timeout_ms, threads, scan_type }
    }

    /// How many ports the sweep covers.
    pub fn port_count(&self) -> (r: u32)
        ensures
            r == spec_num_ports(self.start_port, self.end_port),
    {
        if self.start_port > self.end_port {
            0
        } else {
            (self.end_port - self.start_port) as u32 + 1
        }
    }

    /// The sweep's batch size for its probe strategy.
    pub fn batch_size(&self) -> (r: usize)
        ensures
            r == match self.scan_type {
                ScanType::Tcp => TCP_BATCH_SIZE as int,
                ScanType::Udp => UDP_BATCH_SIZE as int,
            },
            1 <= r <= 65536,
    {
        match self.scan_type {
            ScanType::Tcp => TCP_BATCH_SIZE,
            ScanType::Udp => UDP_BATCH_SIZE,
        }
    }

    /// Split the range into consecutive inclusive batches of `size` ports
    /// (the last possibly shorter). A reversed range yields no batches;
    /// otherwise the batches cover every port of the range exactly once and
    /// in order, and the arithmetic is widened so the top of the port space
    /// cannot wrap.
    pub fn batches(&self, size: usize) -> (r: Vec<(u16, u16)>)
        requires
            1 <= size <= 65536,
        ensures
            self.start_port > self.end_port ==> r@.len() == 0,
            self.start_port <= self.end_port ==> {
                &&& r@.len() == (spec_num_ports(self.start_port, self.end_port) + size - 1) / (
                size as int)
                &&& forall|k: int|
                    0 <= k < r@.len() ==> {
                        &&& (#[trigger] r@[k]).0 == self.start_port + k * size
                        &&& r@[k].1 == if self.start_port + k * size + (size - 1)
                            <= self.end_port {
                            self.start_port + k * size + (size - 1)
                        } else {
                            self.end_port as int
                        }
                        &&& r@[k].0 <= r@[k].1
                    }
            },
            forall|p: int|
                self.start_port <= p <= self.end_port ==> #[trigger] spec_covered(r@, p),
    {
        let mut out: Vec<(u16, u16)> = Vec::new();
        if self.start_port > self.end_port {
            return out;
        }
        let start = self.start_port as u32;
        let end = self.end_port as u32;
        let size32 = size as u32;
        let count: u32 = end - start + 1;
        let nb: u32 = (count + size32 - 1) / size32;
        proof {
            assert(nb * size32 >= count && (nb - 1) * size32 < count) by (nonlinear_arith)
                requires
                    1 <= size32,
                    count >= 1,
                    nb as int == (count as int + size32 as int - 1) / (size32 as int),
            ;
        }
        let mut k: u32 = 0;
        while k < nb
            invariant
                k <= nb,
                start == self.start_port,
                end == self.end_port,
                start <= end,
                1 <= size32 <= 65536,
                count == end - start + 1,
                nb * size32 >= count,
                (nb - 1) * size32 < count,
                out@.len() == k,
                forall|j: int|
                    0 <= j < k ==> {
                        &&& (#[trigger] out@[j]).0 == start + j * size32
                        &&& out@[j].1 == if start + j * size32 + (size32 - 1) <= end {
                            start + j * size32 + (size32 - 1)
                        } else {
                            end as int
                        }
                        &&& out@[j].0 <= out@[j].1
                    },
            decreases nb - k,
        {
            proof {
                assert(k * size32 < count && k * size32 + size32 <= nb * size32) by (
                nonlinear_arith)
                    requires
                        k < nb,
                        1 <= size32,
                        (nb - 1) * size32 < count,
                        nb * size32 >= count,
                ;
            }
            let lo: u32 = start + k * size32;
            let hi_wide: u64 = lo as u64 + (size32 as u64 - 1);
            let hi: u32 = if hi_wide <= end as u64 {
                hi_wide as u32
            } else {
                end
            };
            out.push((lo as u16, hi as u16));
            k += 1;
        }
        proof {
            assert forall|p: int| self.start_port <= p <= self.end_port implies spec_covered(
                out@,
                p,
            ) by {
                let k2 = (p - start) / (size32 as int);
                assert(0 <= k2 < nb && k2 * size32 <= p - start < k2 * size32 + size32) by (
                nonlinear_arith)
                    requires
                        1 <= size32,
                        0 <= p - start < count,
                        nb * size32 >= count,
                        (nb - 1) * size32 < count,
                        k2 == (p - start) / (size32 as int),
                ;
                assert(out@[k2].0 <= p <= out@[k2].1);
            }
        }
        out
    }
}

/// Strictly increasing: sorted ascending with no duplicates.
pub open spec fn strictly_sorted(s: Seq<u16>) -> bool {
    forall|i: int, j: int| 0 <= i < j < s.len() ==> s[i] < s[j]
}

/// Some probe in `results` reported port `p` open.
pub open spec fn open_port_in(results: Seq<ProbeResult>, p: u16) -> bool {
    exists|i: int| 0 <= i < results.len() && results[i].port == p && results[i].is_open
}

fn insert_unique_sorted(v: &mut Vec<u16>, p: u16)
    requires
        strictly_sorted(old(v)@),
    ensures
        strictly_sorted(final(v)@),
        forall|q: u16| final(v)@.contains(q) <==> (old(v)@.contains(q) || q == p),
{
    let mut idx: usize = 0;
    while idx < v.len() && *v.get(idx).unwrap() < p
        invariant
            idx <= v@.len(),
            strictly_sorted(v@),
            v == old(v),
            forall|j: int| 0 <= j < idx ==> v@[j] < p,
        decreases v@.len() - idx,
    {
        idx += 1;
    }
    if idx < v.len() {
        let cur = *v.get(idx).unwrap();
        if cur == p {
            proof {
                assert(v@.contains(p));
                assert forall|q: u16| v@.contains(q) <==> (old(v)@.contains(q) || q == p) by {}
            }
            return ;
        }
    }
    let ghost pre = v@;
    proof {
        assert(pre =~= old(v)@);
    }
    v.insert(idx, p);
    proof {
        assert(v@ =~= pre.take(idx as int) + seq![p] + pre.skip(idx as int));
        assert forall|i: int, j: int| 0 <= i < j < v@.len() implies v@[i] < v@[j] by {
            if i < idx {
                assert(v@[i] == pre[i]);
            } else if i == idx {
                assert(v@[i] == p);
            } else {
                assert(v@[i] == pre[i - 1]);
            }
            if j < idx {
                assert(v@[j] == pre[j]);
            } else if j == idx {
                assert(v@[j] == p);
                assert(i < idx);
                assert(pre[i] < p);
            } else {
                assert(v@[j] == pre[j - 1]);
                if i < idx {
                } else if i == idx {
                    // pre[j-1] is at or past idx, so it is not below p, and
                    // it is not p (the scan stopped before an equal element)
                    assert(pre[j - 1] >= p || j - 1 < idx);
                    if pre[j - 1] == p {
                        assert(false);
                    }
                }
            }
        }
        assert forall|q: u16| v@.contains(q) <==> (pre.contains(q) || q == p) by {
            if v@.contains(q) {
                let w = choose|w: int| 0 <= w < v@.len() && v@[w] == q;
                if w < idx {
                    assert(pre[w] == q);
                    assert(pre.contains(q));
                } else if w == idx {
                    assert(q == p);
                } else {
                    assert(pre[w - 1] == q);
                    assert(pre.contains(q));
                }
            }
            if pre.contains(q) {
                let w = choose|w: int| 0 <= w < pre.len() && pre[w] == q;
                if w < idx {
                    assert(v@[w] == q);
                } else {
                    assert(v@[w + 1] == q);
                }
                assert(v@.contains(q));
            }
            if q == p {
                assert(v@[idx as int] == q);
                assert(v@.contains(q));
            }
        }
        assert forall|q: u16| v@.contains(q) <==> (old(v)@.contains(q) || q == p) by {
            assert(pre =~= old(v)@);
        }
    }
}

/// Merge per-probe outcomes into the open-port list: sorted ascending, no
/// duplicates, holding exactly the ports some probe reported open —
/// whatever order the concurrent batches delivered their results in.
pub fn collect_open_ports(results: &Vec<ProbeResult>) -> (r: Vec<u16>)
    ensures
        strictly_sorted(r@),
        forall|p: u16| r@.contains(p) <==> open_port_in(results@, p),
{
    let mut out: Vec<u16> = Vec::new();
    let n = results.len();
    let mut i: usize = 0;
    while i < n
        invariant
            i <= n,
            n == results@.len(),
            strictly_sorted(out@),
            forall|p: u16| out@.contains(p) <==> open_port_in(results@.take(i as int), p),
        decreases n - i,
    {
        let res = results[i];
        proof {
            assert(results@.take(i as int + 1) =~= results@.take(i as int).push(
                results@[i as int],
            ));
        }
        if res.is_open {
            insert_unique_sorted(&mut out, res.port);
        }
        proof {
            let t1 = results@.take(i as int + 1);
            assert forall|p: u16| out@.contains(p) <==> open_port_in(t1, p) by {
                if open_port_in(t1, p) {
                    let w = choose|w: int| 0 <= w < t1.len() && t1[w].port == p && t1[w].is_open;
                    if w < i {
                        assert(open_port_in(results@.take(i as int), p));
                    }
                }
                if open_port_in(results@.take(i as int), p) {
                    let w = choose|w: int|
                        0 <= w < i && results@.take(i as int)[w].port == p && results@.take(
                            i as int,
                        )[w].is_open;
                    assert(t1[w].port == p && t1[w].is_open);
                }
                if res.is_open && p == res.port {
                    assert(t1[i as int].port == p && t1[i as int].is_open);
                }
            }
        }
        i += 1;
    }
    proof {
        assert(results@.take(n as int) =~= results@);
    }
    out
}

/// Law: a strictly sorted list is determined by the set of ports it holds.
/// Two aggregations that saw the same open ports — in whatever order the
/// concurrent batch tasks completed — return the very same list.
pub proof fn lemma_sorted_unique_ports_equal(s1: Seq<u16>, s2: Seq<u16>)
    requires
        strictly_sorted(s1),
        strictly_sorted(s2),
        forall|p: u16| s1.contains(p) <==> s2.contains(p),
    ensures
        s1 =~= s2,
    decreases s1.len(),
{
    if s1.len() == 0 {
        if s2.len() > 0 {
            assert(s2.contains(s2[0]));
        }
    } else if s2.len() == 0 {
        assert(s1.contains(s1[0]));
    } else {
        // The heads are both the minimum of the same set, so they are equal.
        assert(s1.contains(s1[0]));
        assert(s2.contains(s2[0]));
        let i2 = choose|i: int| 0 <= i < s2.len() && s2[i] == s1[0];
        let i1 = choose|i: int| 0 <= i < s1.len() && s1[i] == s2[0];
        assert(s2[0] <= s2[i2] && s1[0] <= s1[i1]);
        assert(s1[0] == s2[0]);
        let t1 = s1.drop_first();
        let t2 = s2.drop_first();
        assert forall|p: u16| t1.contains(p) <==> t2.contains(p) by {
            if t1.contains(p) {
                let w = choose|w: int| 0 <= w < t1.len() && t1[w] == p;
                assert(s1[w + 1] == p);
                assert(s1.contains(p));
                assert(s1[0] < s1[w + 1]);
                let w2 = choose|w2: int| 0 <= w2 < s2.len() && s2[w2] == p;
                assert(w2 != 0);
                assert(t2[w2 - 1] == p);
            }
            if t2.contains(p) {
                let w = choose|w: int| 0 <= w < t2.len() && t2[w] == p;
                assert(s2[w + 1] == p);
                assert(s2.contains(p));
                assert(s2[0] < s2[w + 1]);
                let w1 = choose|w1: int| 0 <= w1 < s1.len() && s1[w1] == p;
                assert(w1 != 0);
                assert(t1[w1 - 1] == p);
            }
        }
        lemma_sorted_unique_ports_equal(t1, t2);
        assert(s1 =~= seq![s1[0]] + t1);
        assert(s2 =~= seq![s2[0]] + t2);
    }
}

/// The labeled pairs, ordered by port. Ports are unique among the inputs
/// (each open port is identified once), and the output holds exactly the
/// input pairs, sorted ascending by port — deterministic whatever order the
/// identification tasks finished in.
pub fn sort_services(pairs: Vec<(u16, String)>) -> (r: Vec<(u16, String)>)
    requires
        forall|i: int, j: int|
            0 <= i < j < pairs@.len() ==> (#[trigger] pairs@[i]).0 != (#[trigger] pairs@[j]).0,
    ensures
        r@.len() == pairs@.len(),
        forall|i: int, j: int| 0 <= i < j < r@.len() ==> (#[trigger] r@[i]).0 < (#[trigger] r@[j]).0,
        forall|pr: (u16, String)| r@.contains(pr) <==> pairs@.contains(pr),
{
    let ghost all = pairs@;
    let mut rest = pairs;
    let mut out: Vec<(u16, String)> = Vec::new();
    let n = rest.len();
    let mut i: usize = 0;
    while i < n
        invariant
            i <= n,
            n == all.len(),
            rest@ =~= all.skip(i as int),
            forall|a: int, b: int|
                0 <= a < b < all.len() ==> (#[trigger] all[a]).0 != (#[trigger] all[b]).0,
            out@.len() == i,
            forall|a: int, b: int|
                0 <= a < b < out@.len() ==> (#[trigger] out@[a]).0 < (#[trigger] out@[b]).0,
            forall|pr: (u16, String)| out@.contains(pr) <==> all.take(i as int).contains(pr),
            forall|a: int|
                0 <= a < out@.len() ==> exists|b: int|
                    0 <= b < i && (#[trigger] out@[a]) == all[b],
        decreases n - i,
    {
        let pr = rest.remove(0);
        proof {
            assert(pr == all[i as int]);
            assert(rest@ =~= all.skip(i as int + 1));
        }
        let p = pr.0;
        let mut idx: usize = 0;
        while idx < out.len() && out[idx].0 < p
            invariant
                idx <= out@.len(),
                forall|j: int| 0 <= j < idx ==> (#[trigger] out@[j]).0 < p,
                forall|a: int, b: int|
                    0 <= a < b < out@.len() ==> (#[trigger] out@[a]).0 < (#[trigger] out@[b]).0,
            decreases out@.len() - idx,
        {
            idx += 1;
        }
        proof {
            // No element of out carries port p: everything in out came from
            // an earlier input pair, and input ports are distinct.
            assert forall|j: int| 0 <= j < out@.len() implies (#[trigger] out@[j]).0 != p by {
                let b = choose|b: int| 0 <= b < i && out@[j] == all[b];
                assert(all[b].0 != all[i as int].0);
            }
            if idx < out@.len() {
                assert(out@[idx as int].0 > p || out@[idx as int].0 < p || out@[idx as int].0
                    == p);
                assert(out@[idx as int].0 > p);
            }
        }
        let ghost pre = out@;
        out.insert(idx, pr);
        proof {
            assert(out@ =~= pre.take(idx as int) + seq![all[i as int]] + pre.skip(idx as int));
            assert forall|a: int, b: int| 0 <= a < b < out@.len() implies (#[trigger] out@[a]).0
                < (#[trigger] out@[b]).0 by {
                let va = if a < idx {
                    pre[a]
                } else if a == idx {
                    all[i as int]
                } else {
                    pre[a - 1]
                };
                let vb = if b < idx {
                    pre[b]
                } else if b == idx {
                    all[i as int]
                } else {
                    pre[b - 1]
                };
                assert(out@[a] == va && out@[b] == vb);
                if b == idx {
                    assert(pre[a].0 < p);
                }
                if a == idx {
                    assert(pre[b - 1].0 > p || b - 1 < idx);
                }
            }
            let t1 = all.take(i as int + 1);
            assert(t1 =~= all.take(i as int).push(all[i as int]));
            assert forall|q: (u16, String)| out@.contains(q) <==> t1.contains(q) by {
                if out@.contains(q) {
                    let w = choose|w: int| 0 <= w < out@.len() && out@[w] == q;
                    if w < idx {
                        assert(pre[w] == q);
                        assert(pre.contains(q));
                    } else if w == idx {
                        assert(t1[i as int] == q);
                    } else {
                        assert(pre[w - 1] == q);
                        assert(pre.contains(q));
                    }
                    if pre.contains(q) {
                        assert(all.take(i as int).contains(q));
                        let w2 = choose|w2: int|
                            0 <= w2 < i && all.take(i as int)[w2] == q;
                        assert(t1[w2] == q);
                    }
                }
                if t1.contains(q) {
                    let w = choose|w: int| 0 <= w < t1.len() && t1[w] == q;
                    if w < i {
                        assert(all.take(i as int)[w] == q);
                        assert(pre.contains(q));
                        let w2 = choose|w2: int| 0 <= w2 < pre.len() && pre[w2] == q;
                        if w2 < idx {
                            assert(out@[w2] == q);
                        } else {
                            assert(out@[w2 + 1] == q);
                        }
                    } else {
                        assert(q == all[i as int]);
                        assert(out@[idx as int] == q);
                    }
                }
            }
            assert forall|a: int| 0 <= a < out@.len() implies exists|b: int|
                0 <= b < i + 1 && (#[trigger] out@[a]) == all[b] by {
                if a < idx {
                    assert(out@[a] == pre[a]);
                    let b = choose|b: int| 0 <= b < i && pre[a] == all[b];
                    assert(out@[a] == all[b]);
                } else if a == idx {
                    assert(out@[a] == all[i as int]);
                } else {
                    assert(out@[a] == pre[a - 1]);
                    let b = choose|b: int| 0 <= b < i && pre[a - 1] == all[b];
                    assert(out@[a] == all[b]);
                }
            }
        }
        i += 1;
    }
    proof {
        assert(all.take(n as int) =~= all);
    }
    out
}

/// Split the open-port list into consecutive chunks of `size` for batched
/// service identification; concatenated back together they are the input,
/// in order.
pub fn chunk_ports(ports: &Vec<u16>, size: usize) -> (r: Vec<Vec<u16>>)
    requires
        1 <= size <= 65536,
    ensures
        r@.len() == (ports@.len() + size - 1) / (size as int),
        forall|k: int|
            0 <= k < r@.len() ==> (#[trigger] r@[k])@ =~= ports@.subrange(
                k * size,
                if (k + 1) * size <= ports@.len() {
                    (k + 1) * size
                } else {
                    ports@.len() as int
                },
            ),
{
    let mut out: Vec<Vec<u16>> = Vec::new();
    let n = ports.len();
    let q = n / size;
    let r0 = n % size;
    proof {
        // When the division leaves a remainder the size is at least 2, so
        // the quotient is well below the type's top and the +1 cannot wrap.
        assert(r0 != 0 ==> size >= 2 && q <= n / 2 && n / 2 < usize::MAX) by (nonlinear_arith)
            requires
                1 <= size,
                q == n as int / size as int,
                r0 == n as int % size as int,
        ;
    }
    let nb: usize = q + if r0 != 0 {
        1
    } else {
        0
    };
    proof {
        assert(nb as int == (n as int + size as int - 1) / (size as int) && nb * size >= n && (nb
            - 1) * size < n) by (nonlinear_arith)
            requires
                1 <= size,
                nb as int == n as int / size as int + if n as int % size as int != 0 {
                    1 as int
                } else {
                    0 as int
                },
        ;
    }
    let mut k: usize = 0;
    while k < nb
        invariant
            k <= nb,
            n == ports@.len(),
            1 <= size <= 65536,
            nb * size >= n,
            (nb - 1) * size < n,
            nb == (n as int + size - 1) / (size as int),
            out@.len() == k,
            forall|j: int|
                0 <= j < k ==> (#[trigger] out@[j])@ =~= ports@.subrange(
                    j * size,
                    if (j + 1) * size <= ports@.len() {
                        (j + 1) * size
                    } else {
                        ports@.len() as int
                    },
                ),
        decreases nb - k,
    {
        proof {
            assert(k * size < n && k * size + size <= nb * size) by (nonlinear_arith)
                requires
                    k < nb,
                    1 <= size,
                    (nb - 1) * size < n,
                    nb * size >= n,
            ;
        }
        let lo: usize = k * size;
        let hi: usize = if n - lo >= size {
            lo + size
        } else {
            n
        };
        let mut chunk: Vec<u16> = Vec::new();
        let mut j: usize = lo;
        while j < hi
            invariant
                lo <= j <= hi <= n,
                n == ports@.len(),
                chunk@ =~= ports@.subrange(lo as int, j as int),
            decreases hi - j,
        {
            chunk.push(ports[j]);
            proof {
                assert(chunk@ =~= ports@.subrange(lo as int, j as int + 1));
            }
            j += 1;
        }
        let ghost pre_out = out@;
        out.push(chunk);
        proof {
            assert((k as int + 1) * size == lo + size) by (nonlinear_arith)
                requires
                    lo == k as int * size as int,
            ;
            assert forall|j: int|
                0 <= j < k + 1 implies (#[trigger] out@[j])@ =~= ports@.subrange(
                j * size,
                if (j + 1) * size <= ports@.len() {
                    (j + 1) * size
                } else {
                    ports@.len() as int
                },
            ) by {
                if j < k {
                    assert(out@[j] == pre_out[j]);
                } else {
                    assert(out@[j]@ =~= chunk@);
                }
            }
        }
        k += 1;
    }
    out
}

} // verus!
