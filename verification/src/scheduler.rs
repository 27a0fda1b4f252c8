//! Staggered dispatch of time-critical playback commands.
//!
//! The host picks a target time far enough ahead that the slowest peer
//! receives the command in time, and delays the send to faster peers so
//! that every command arrives at about the same moment.
use crate::clock::{as_signed, ClockSync};
use crate::time::{duration_from_nanos, duration_of_nanos};
use std::collections::HashMap;
use std::time::Duration;
use vstd::prelude::*;
use vstd::std_specs::hash::spec_hash_map_iter;
use vstd::std_specs::iter::IteratorSpec;
use vstd::string::StringExecFns;

verus! {

broadcast use vstd::std_specs::hash::group_hash_axioms;

/// Safety margin (50 ms, in nanoseconds) added on top of the maximum peer
/// latency, for jitter and scheduling granularity.
pub const SAFETY_MARGIN_NS: u64 = 50_000_000;

/// Errors that can occur during playback scheduling.
#[derive(Debug)]
pub enum SchedulerError {
    NoPeers,
    SendFailed(String),
}

impl SchedulerError {
    /// Human-readable description of the error.
    pub fn message(&self) -> (s: String)
        ensures
            match self {
                SchedulerError::NoPeers => s@ == "No peers in session"@,
                SchedulerError::SendFailed(e) => s@ == "Failed to send command: "@ + e@,
            },
    {
        match self {
            SchedulerError::NoPeers => String::from_str("No peers in session"),
            SchedulerError::SendFailed(e) => {
                let mut s = String::from_str("Failed to send command: ");
                s.append(e.as_str());
                s
            },
        }
    }
}

/// A per-peer send plan: how long to wait before sending the command to
/// `peer_id`, in nanoseconds.
#[derive(Clone, Copy, Debug, PartialEq, Eq)]
pub struct PeerDispatchPlan {
    pub peer_id: u32,
    pub send_delay_ns: u64,
}

impl PeerDispatchPlan {
    /// The send delay as a `Duration`: `send_delay_ns` nanoseconds.
    pub fn send_delay(&self) -> (d: Duration)
        ensures
            d == duration_of_nanos(self.send_delay_ns),
    {
        duration_from_nanos(self.send_delay_ns)
    }
}

/// `mx` is the largest latency in `m`, or 0 when `m` is empty.
pub open spec fn is_max_latency(m: Map<u32, u64>, mx: u64) -> bool {
    &&& forall|k: u32| m.contains_key(k) ==> m[k] <= mx
    &&& (mx == 0 || exists|k: u32| m.contains_key(k) && m[k] == mx)
}

/// The plans list each peer of `m` exactly once, in increasing peer id,
/// with delay `mx − latency`.
pub open spec fn is_dispatch_plan(m: Map<u32, u64>, mx: u64, plans: Seq<PeerDispatchPlan>) -> bool {
    &&& plans.len() == m.dom().len()
    &&& forall|i: int, j: int| 0 <= i < j < plans.len() ==> plans[i].peer_id < plans[j].peer_id
    &&& forall|i: int|
        0 <= i < plans.len() ==> m.contains_key(#[trigger] plans[i].peer_id)
            && plans[i].send_delay_ns == mx - m[plans[i].peer_id]
    &&& forall|k: u32| m.contains_key(k) ==> exists|i: int| 0 <= i < plans.len() && plans[i].peer_id == k
}

/// Targets fit in `u64` for these latencies and this time.
pub open spec fn dispatch_in_range(m: Map<u32, u64>, now: u64) -> bool {
    &&& now + SAFETY_MARGIN_NS <= u64::MAX
    &&& forall|k: u32| m.contains_key(k) ==> now + m[k] + SAFETY_MARGIN_NS <= u64::MAX
}

/// The (peer, latency) pairs of `m`, each key once.
fn latency_pairs(m: &HashMap<u32, u64>) -> (r: Vec<(u32, u64)>)
    ensures
        r@.len() == m@.dom().len(),
        forall|i: int| 0 <= i < r@.len() ==> m@.contains_key(r@[i].0) && m@[r@[i].0] == r@[i].1,
        forall|i: int, j: int| 0 <= i < j < r@.len() ==> r@[i].0 != r@[j].0,
        forall|k: u32| m@.contains_key(k) ==> exists|i: int| 0 <= i < r@.len() && r@[i].0 == k,
{
    let mut out: Vec<(u32, u64)> = Vec::new();
    let ghost v = spec_hash_map_iter(m).remaining();
    for kv in it: m.iter()
        invariant
            out@.len() == it.index(),
            it.seq() == v,
            forall|j: int| 0 <= j < out@.len() ==> out@[j] == (*it.seq()[j].0, *it.seq()[j].1),
    {
        out.push((*kv.0, *kv.1));
    }
    assert forall|k: u32| m@.contains_key(k) implies exists|i: int|
        0 <= i < out@.len() && out@[i].0 == k by {
        assert(v.contains((&k, &m@[k])));
        let i = choose|i: int| 0 <= i < v.len() && v[i] == (&k, &m@[k]);
        assert(out@[i].0 == k);
    }
    assert forall|i: int, j: int| 0 <= i < j < out@.len() implies out@[i].0 != out@[j].0 by {
        if out@[i].0 == out@[j].0 {
            assert(m@.contains_key(*v[i].0) && m@[*v[i].0] == *v[i].1);
            assert(m@.contains_key(*v[j].0) && m@[*v[j].0] == *v[j].1);
            assert(v[i] == v[j]);
        }
    }
    out
}

/// Compute the target time and the per-peer dispatch plan.
///
/// `target = now + max_latency + SAFETY_MARGIN`; each peer's send delay is
/// `max_latency − its latency`, so the slowest peer is sent to at once.
/// Plans come sorted by peer id.
pub fn compute_dispatch_plan(peer_latencies: &HashMap<u32, u64>, current_time_ns: u64) -> (r: (
    u64,
    Vec<PeerDispatchPlan>,
))
    requires
        dispatch_in_range(peer_latencies@, current_time_ns),
    ensures
        exists|mx: u64|
            #![trigger is_max_latency(peer_latencies@, mx)]
            is_max_latency(peer_latencies@, mx) && r.0 == current_time_ns + mx + SAFETY_MARGIN_NS
                && is_dispatch_plan(peer_latencies@, mx, r.1@),
{
    let ghost m = peer_latencies@;
    let pairs = latency_pairs(peer_latencies);
    let n = pairs.len();
    // Largest latency.
    let mut mx: u64 = 0;
    let mut i: usize = 0;
    while i < n
        invariant
            n == pairs@.len(),
            i <= n,
            forall|j: int| 0 <= j < i ==> pairs@[j].1 <= mx,
            mx == 0 || exists|j: int| 0 <= j < i && pairs@[j].1 == mx,
        decreases n - i,
    {
        if pairs[i].1 > mx {
            mx = pairs[i].1;
        }
        i = i + 1;
    }
    proof {
        assert forall|k: u32| m.contains_key(k) implies m[k] <= mx by {
            let j = choose|j: int| 0 <= j < pairs@.len() && pairs@[j].0 == k;
        }
        if mx != 0 {
            let j = choose|j: int| 0 <= j < n && pairs@[j].1 == mx;
            assert(m.contains_key(pairs@[j].0));
        }
    }
    let target_time_ns = current_time_ns + mx + SAFETY_MARGIN_NS;
    // Plans, kept sorted by peer id by insertion.
    let mut plans: Vec<PeerDispatchPlan> = Vec::new();
    let mut i: usize = 0;
    while i < n
        invariant
            n == pairs@.len(),
            i <= n,
            is_max_latency(m, mx),
            forall|a: int| 0 <= a < n ==> m.contains_key(pairs@[a].0) && m[pairs@[a].0] == pairs@[a].1,
            forall|a: int, b: int| 0 <= a < b < n ==> pairs@[a].0 != pairs@[b].0,
            plans@.len() == i,
            ids_increasing(plans@),
            forall|x: PeerDispatchPlan| plans@.contains(x) <==> exists|b: int| 0 <= b < i && x == #[trigger] plan_for(pairs@[b], mx),
        decreases n - i,
    {
        let (peer_id, latency_ns) = pairs[i];
        proof {
            assert(m[peer_id] <= mx);
        }
        let plan = PeerDispatchPlan { peer_id, send_delay_ns: mx - latency_ns };
        assert(plan == plan_for(pairs@[i as int], mx));
        proof {
            assert forall|a: int| 0 <= a < plans@.len() implies plans@[a].peer_id != peer_id by {
                assert(plans@.contains(plans@[a]));
                let b = choose|b: int| 0 <= b < i && plans@[a] == #[trigger] plan_for(pairs@[b], mx);
            }
        }
        let ghost old_plans = plans@;
        insert_plan(&mut plans, plan);
        proof {
            assert forall|x: PeerDispatchPlan| plans@.contains(x) <==> exists|b: int|
                0 <= b < i + 1 && x == #[trigger] plan_for(pairs@[b], mx) by {
                if plans@.contains(x) && x != plan {
                    assert(old_plans.contains(x));
                }
                if exists|b: int| 0 <= b < i + 1 && x == #[trigger] plan_for(pairs@[b], mx) {
                    let b = choose|b: int| 0 <= b < i + 1 && x == #[trigger] plan_for(pairs@[b], mx);
                    if b < i {
                        assert(old_plans.contains(x));
                    }
                }
            }
        }
        i = i + 1;
    }
    proof {
        assert forall|a: int| 0 <= a < plans@.len() implies m.contains_key(#[trigger] plans@[a].peer_id)
            && plans@[a].send_delay_ns == mx - m[plans@[a].peer_id] by {
            assert(plans@.contains(plans@[a]));
            let b = choose|b: int| 0 <= b < n && plans@[a] == #[trigger] plan_for(pairs@[b], mx);
            assert(m[pairs@[b].0] <= mx);
        }
        assert forall|k: u32| m.contains_key(k) implies exists|a: int|
            0 <= a < plans@.len() && plans@[a].peer_id == k by {
            let b = choose|b: int| 0 <= b < n && pairs@[b].0 == k;
            assert(plans@.contains(plan_for(pairs@[b], mx)));
        }
    }
    (target_time_ns, plans)
}

/// With a dispatch plan, every peer receives the command at the same
/// moment: its send delay plus its latency is the largest latency, so the
/// command reaches each peer `SAFETY_MARGIN_NS` before the target time
/// that `compute_dispatch_plan` returns.
pub proof fn law_simultaneous_arrival(m: Map<u32, u64>, mx: u64, plans: Seq<PeerDispatchPlan>, now: u64)
    requires
        is_max_latency(m, mx),
        is_dispatch_plan(m, mx, plans),
    ensures
        forall|i: int|
            0 <= i < plans.len() ==> #[trigger] plans[i].send_delay_ns + m[plans[i].peer_id] == mx
                && now + plans[i].send_delay_ns + m[plans[i].peer_id] + SAFETY_MARGIN_NS == now + mx
                + SAFETY_MARGIN_NS,
{
    assert forall|i: int| 0 <= i < plans.len() implies #[trigger] plans[i].send_delay_ns
        + m[plans[i].peer_id] == mx by {
        assert(m.contains_key(plans[i].peer_id));
        assert(m[plans[i].peer_id] <= mx);
    }
}

/// The plan for a (peer, latency) pair when the largest latency is `mx`.
pub open spec fn plan_for(pair: (u32, u64), mx: u64) -> PeerDispatchPlan {
    PeerDispatchPlan { peer_id: pair.0, send_delay_ns: (mx - pair.1) as u64 }
}

/// Peer ids strictly increase along `plans`.
pub open spec fn ids_increasing(plans: Seq<PeerDispatchPlan>) -> bool {
    forall|i: int, j: int| 0 <= i < j < plans.len() ==> plans[i].peer_id < plans[j].peer_id
}

/// Insert `plan` at its place by peer id.
fn insert_plan(plans: &mut Vec<PeerDispatchPlan>, plan: PeerDispatchPlan)
    requires
        ids_increasing(old(plans)@),
        forall|a: int| 0 <= a < old(plans)@.len() ==> old(plans)@[a].peer_id != plan.peer_id,
    ensures
        final(plans)@.len() == old(plans)@.len() + 1,
        ids_increasing(final(plans)@),
        forall|x: PeerDispatchPlan| final(plans)@.contains(x) <==> (old(plans)@.contains(x) || x == plan),
{
    let mut p: usize = 0;
    while p < plans.len() && plans[p].peer_id < plan.peer_id
        invariant
            p <= plans@.len(),
            forall|a: int| 0 <= a < p ==> plans@[a].peer_id < plan.peer_id,
        decreases plans@.len() - p,
    {
        p = p + 1;
    }
    let ghost old_plans = plans@;
    plans.insert(p, plan);
    assert(plans@ =~= old_plans.insert(p as int, plan));
    assert forall|a: int, b: int| 0 <= a < b < plans@.len() implies plans@[a].peer_id
        < plans@[b].peer_id by {
        if b < p {
        } else if b == p {
        } else if a < p {
            if a < b - 1 {
                assert(old_plans[a].peer_id < old_plans[b - 1].peer_id);
            }
        } else if a == p {
            if b - 1 > p {
                assert(old_plans[p as int].peer_id < old_plans[b - 1].peer_id);
            }
        } else {
            assert(old_plans[a - 1].peer_id < old_plans[b - 1].peer_id);
        }
    }
    proof {
        lemma_insert_contains(old_plans, p as int, plan);
    }
}

/// An element is in `s` with `v` inserted exactly when it is `v` or is in
/// `s`.
proof fn lemma_insert_contains<A>(s: Seq<A>, p: int, v: A)
    requires
        0 <= p <= s.len(),
    ensures
        forall|x: A| #[trigger] s.insert(p, v).contains(x) <==> (s.contains(x) || x == v),
{
    s.insert_ensures(p, v);
    let t = s.insert(p, v);
    assert forall|x: A| #[trigger] t.contains(x) <==> (s.contains(x) || x == v) by {
        if t.contains(x) {
            let a = choose|a: int| 0 <= a < t.len() && t[a] == x;
            if a < p {
                assert(s[a] == x);
            } else if a > p {
                assert(s[a - 1] == x);
            }
        }
        if s.contains(x) {
            let a = choose|a: int| 0 <= a < s.len() && s[a] == x;
            if a < p {
                assert(t[a] == x);
            } else {
                assert(t[a + 1] == x);
            }
        }
        if x == v {
            assert(t[p] == x);
        }
    }
}

/// Convert a host-clock target time (ns) to the peer's local clock
/// reading at which it falls: `host_to_local(target)`, the nanoseconds
/// after the peer's base instant (the instant its nanosecond clock starts
/// at). The caller adds this to the base instant.
pub fn host_target_to_local_instant(clock_sync: &ClockSync, target_time_ns: u64) -> (local_ns: u64)
    requires
        i64::MIN <= as_signed(target_time_ns) + clock_sync.offset_est() <= i64::MAX,
    ensures
        as_signed(local_ns) == as_signed(target_time_ns) + clock_sync.offset_est(),
{
    clock_sync.host_to_local(target_time_ns)
}

} // verus!
