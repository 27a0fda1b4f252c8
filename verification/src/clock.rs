//! NTP-style clock synchronisation between a peer and the host.
//!
//! The peer keeps a sliding window of round-trip measurements and takes
//! the median offset and median round-trip time of the window as its
//! estimate; the host keeps a per-peer latency table.
use crate::median::{median_i64, median_of_i64, median_of_u64, median_u64};
use crate::time::{monotonic_now, nanos_since};
use std::collections::{HashMap, VecDeque};
use std::time::Instant;
use vstd::prelude::*;
use vstd::std_specs::hash::spec_hash_map_iter;
use vstd::std_specs::iter::IteratorSpec;

verus! {

broadcast use vstd::std_specs::hash::group_hash_axioms;

/// Maximum number of measurements in the sliding window.
pub const WINDOW_SIZE: usize = 10;

/// Measurements at least this old (in nanoseconds) are stale.
pub const STALE_THRESHOLD_NS: u64 = 2_000_000_000;

// ── Integer helpers ─────────────────────────────────────────────────────────

/// The signed reading of the bits of `x` (two's complement).
pub open spec fn as_signed(x: u64) -> int {
    if x <= i64::MAX {
        x as int
    } else {
        x - 0x1_0000_0000_0000_0000
    }
}

/// `a - b` modulo 2^64.
pub open spec fn wrapping_diff(a: u64, b: u64) -> u64 {
    if a >= b {
        (a - b) as u64
    } else {
        (a - b + 0x1_0000_0000_0000_0000) as u64
    }
}

/// Integer division by two rounding toward zero.
pub open spec fn half_toward_zero(x: int) -> int {
    if x >= 0 {
        x / 2
    } else {
        -((-x) / 2)
    }
}

proof fn lemma_as_signed(x: u64)
    ensures
        (x as i64) as int == as_signed(x),
{
    if x <= 0x7fff_ffff_ffff_ffff {
        assert(x <= 0x7fff_ffff_ffff_ffff ==> (x as i64) as int == x as int) by (bit_vector);
    } else {
        assert(x > 0x7fff_ffff_ffff_ffff ==> (x as i64) as int == x as int
            - 0x1_0000_0000_0000_0000int) by (bit_vector);
    }
}

fn signed(x: u64) -> (r: i64)
    ensures
        r as int == as_signed(x),
{
    proof {
        lemma_as_signed(x);
    }
    x as i64
}

// ── Measurement arithmetic ──────────────────────────────────────────────────

/// Host-side processing time of one ping, read as a signed number.
pub open spec fn host_processing(host_recv: u64, host_send: u64) -> int {
    as_signed(wrapping_diff(host_send, host_recv))
}

/// Time from the peer's send to its receive, read as a signed number.
pub open spec fn total_elapsed(peer_send: u64, peer_recv: u64) -> int {
    as_signed(wrapping_diff(peer_recv, peer_send))
}

/// Inputs on which the NTP arithmetic stays within `i64`.
pub open spec fn pong_in_range(peer_send: u64, host_recv: u64, host_send: u64, peer_recv: u64) -> bool {
    let a = as_signed(host_recv) - as_signed(peer_send);
    let b = as_signed(host_send) - as_signed(peer_recv);
    &&& i64::MIN <= total_elapsed(peer_send, peer_recv) - host_processing(host_recv, host_send)
        <= i64::MAX
    &&& i64::MIN <= a <= i64::MAX
    &&& i64::MIN <= b <= i64::MAX
    &&& i64::MIN <= a + b <= i64::MAX
}

/// Round-trip time: total elapsed minus host processing, never negative.
pub open spec fn spec_rtt(peer_send: u64, host_recv: u64, host_send: u64, peer_recv: u64) -> u64 {
    let d = total_elapsed(peer_send, peer_recv) - host_processing(host_recv, host_send);
    if d > 0 {
        d as u64
    } else {
        0
    }
}

/// NTP offset `((host_recv - peer_send) + (host_send - peer_recv)) / 2`,
/// rounded toward zero.
pub open spec fn spec_offset(peer_send: u64, host_recv: u64, host_send: u64, peer_recv: u64) -> i64 {
    let a = as_signed(host_recv) - as_signed(peer_send);
    let b = as_signed(host_send) - as_signed(peer_recv);
    half_toward_zero(a + b) as i64
}

/// Whether a pong's timestamps keep the NTP arithmetic within `i64`, as
/// `record_pong` requires.
pub fn pong_fits(peer_send: u64, host_recv: u64, host_send: u64, peer_recv: u64) -> (r: bool)
    ensures
        r == pong_in_range(peer_send, host_recv, host_send, peer_recv),
{
    let hp = signed(host_send.wrapping_sub(host_recv)) as i128;
    let te = signed(peer_recv.wrapping_sub(peer_send)) as i128;
    let a = signed(host_recv) as i128 - signed(peer_send) as i128;
    let b = signed(host_send) as i128 - signed(peer_recv) as i128;
    let lo = i64::MIN as i128;
    let hi = i64::MAX as i128;
    let d = te - hp;
    lo <= d && d <= hi && lo <= a && a <= hi && lo <= b && b <= hi && lo <= a + b && a + b <= hi
}

fn compute_rtt_offset(peer_send: u64, host_recv: u64, host_send: u64, peer_recv: u64) -> (r: (
    u64,
    i64,
))
    requires
        pong_in_range(peer_send, host_recv, host_send, peer_recv),
    ensures
        r.0 == spec_rtt(peer_send, host_recv, host_send, peer_recv),
        r.1 == spec_offset(peer_send, host_recv, host_send, peer_recv),
{
    let host_proc = signed(host_send.wrapping_sub(host_recv));
    let total = signed(peer_recv.wrapping_sub(peer_send));
    let d = total - host_proc;
    let rtt: u64 = if d > 0 {
        d as u64
    } else {
        0
    };
    let a = signed(host_recv) - signed(peer_send);
    let b = signed(host_send) - signed(peer_recv);
    let offset = (a + b) / 2;
    (rtt, offset)
}

// ── ClockSync (peer side) ───────────────────────────────────────────────────

/// One round-trip measurement; `timestamp_ns` is when it was taken, on the
/// synchroniser's own nanosecond clock.
#[derive(Clone, Copy, Debug)]
pub struct ClockMeasurement {
    pub timestamp_ns: u64,
    pub rtt_ns: u64,
    pub offset_ns: i64,
}

/// A measurement taken at `timestamp` is fresh at `now` when less than
/// the stale threshold has passed (no time passes when `now` is earlier).
pub open spec fn is_fresh(m: ClockMeasurement, now: u64) -> bool {
    now < m.timestamp_ns || now - m.timestamp_ns < STALE_THRESHOLD_NS
}

/// The measurements of `s` that are fresh at `now`, in order.
pub open spec fn fresh_only(s: Seq<ClockMeasurement>, now: u64) -> Seq<ClockMeasurement>
    decreases s.len(),
{
    if s.len() == 0 {
        s
    } else {
        let r = fresh_only(s.drop_last(), now);
        if is_fresh(s.last(), now) {
            r.push(s.last())
        } else {
            r
        }
    }
}

/// The last `WINDOW_SIZE` elements of `s` (all of `s` when shorter).
pub open spec fn cap_window(s: Seq<ClockMeasurement>) -> Seq<ClockMeasurement> {
    if s.len() > WINDOW_SIZE {
        s.subrange(s.len() - WINDOW_SIZE, s.len() as int)
    } else {
        s
    }
}

/// Offsets of the measurements of `s`.
pub open spec fn offsets_of(s: Seq<ClockMeasurement>) -> Seq<i64> {
    s.map_values(|m: ClockMeasurement| m.offset_ns)
}

/// Round-trip times of the measurements of `s`.
pub open spec fn rtts_of(s: Seq<ClockMeasurement>) -> Seq<u64> {
    s.map_values(|m: ClockMeasurement| m.rtt_ns)
}

/// Peer-side clock synchronisation state: a sliding window of measurements
/// and the median-filtered offset (`peer clock − host clock`) and one-way
/// latency (half the median round trip) derived from it.
pub struct ClockSync {
    /// The measurements and the instant their timestamps count from.
    pub window: MeasurementWindow,
    /// Current best estimate: `peer_clock − host_clock` in nanoseconds.
    pub current_offset_ns: i64,
    /// Estimated one-way network latency in nanoseconds.
    pub current_latency_ns: u64,
}

/// The sliding window of a `ClockSync`, oldest measurement first, with the
/// instant from which its timestamps are counted.
pub struct MeasurementWindow {
    items: VecDeque<ClockMeasurement>,
    epoch: Instant,
}

impl MeasurementWindow {
    /// The measurements, oldest first.
    pub closed spec fn items(&self) -> Seq<ClockMeasurement> {
        self.items@
    }
}

impl ClockSync {
    /// The measurements in the window, oldest first.
    pub open spec fn measurements(&self) -> Seq<ClockMeasurement> {
        self.window.items()
    }

    /// The current offset estimate (`peer clock − host clock`).
    pub open spec fn offset_est(&self) -> i64 {
        self.current_offset_ns
    }

    /// The current one-way latency estimate.
    pub open spec fn latency_est(&self) -> u64 {
        self.current_latency_ns
    }

    /// The window holds at most `WINDOW_SIZE` measurements.
    pub open spec fn wf(&self) -> bool {
        self.measurements().len() <= WINDOW_SIZE
    }

    /// The estimates that `recompute` derives from `window`, starting from
    /// `offset` and `latency` (kept as they are when the window is empty).
    pub open spec fn estimates(window: Seq<ClockMeasurement>, offset: i64, latency: u64) -> (
        i64,
        u64,
    ) {
        if window.len() == 0 {
            (offset, latency)
        } else {
            (median_of_i64(offsets_of(window)), (median_of_u64(rtts_of(window)) / 2) as u64)
        }
    }

    pub fn new() -> (cs: Self)
        ensures
            cs.wf(),
            cs.measurements() == Seq::<ClockMeasurement>::empty(),
            cs.offset_est() == 0,
            cs.latency_est() == 0,
    {
        ClockSync {
            window: MeasurementWindow {
                items: VecDeque::with_capacity(WINDOW_SIZE),
                epoch: monotonic_now(),
            },
            current_offset_ns: 0,
            current_latency_ns: 0,
        }
    }

    /// Record a new measurement from a clock pong, timestamped with the
    /// current reading of this synchroniser's clock.
    pub fn record_pong(
        &mut self,
        peer_send_time_ns: u64,
        host_recv_time_ns: u64,
        host_send_time_ns: u64,
        peer_recv_time_ns: u64,
    )
        requires
            old(self).wf(),
            pong_in_range(peer_send_time_ns, host_recv_time_ns, host_send_time_ns, peer_recv_time_ns),
        ensures
            final(self).wf(),
            1 <= final(self).measurements().len() <= WINDOW_SIZE,
            exists|now: u64|
                #![trigger Self::pong_outcome(*old(self), now, peer_send_time_ns, host_recv_time_ns, host_send_time_ns, peer_recv_time_ns)]
                Self::pong_outcome(
                    *old(self),
                    now,
                    peer_send_time_ns,
                    host_recv_time_ns,
                    host_send_time_ns,
                    peer_recv_time_ns,
                ) == (final(self).measurements(), final(self).offset_est(), final(self).latency_est())
                    && ((forall|i: int|
                    0 <= i < old(self).measurements().len() ==> is_fresh(
                        #[trigger] old(self).measurements()[i],
                        now,
                    )) ==> final(self).measurements().len() == if old(self).measurements().len() + 1
                    < WINDOW_SIZE {
                    old(self).measurements().len() + 1
                } else {
                    WINDOW_SIZE as nat
                }),
    {
        let now = nanos_since(&self.window.epoch);
        proof {
            law_pong_window_count(
                *old(self),
                now,
                peer_send_time_ns,
                host_recv_time_ns,
                host_send_time_ns,
                peer_recv_time_ns,
            );
        }
        self.record_pong_at(
            peer_send_time_ns,
            host_recv_time_ns,
            host_send_time_ns,
            peer_recv_time_ns,
            now,
        );
    }

    /// Window and estimates after a pong recorded at time `now`: the new
    /// measurement is appended, stale ones dropped, the window capped at its
    /// newest `WINDOW_SIZE` entries, and the estimates recomputed.
    pub open spec fn pong_outcome(
        cs: ClockSync,
        now: u64,
        peer_send: u64,
        host_recv: u64,
        host_send: u64,
        peer_recv: u64,
    ) -> (Seq<ClockMeasurement>, i64, u64) {
        let m = ClockMeasurement {
            timestamp_ns: now,
            rtt_ns: spec_rtt(peer_send, host_recv, host_send, peer_recv),
            offset_ns: spec_offset(peer_send, host_recv, host_send, peer_recv),
        };
        let w = cap_window(fresh_only(cs.measurements().push(m), now));
        let e = Self::estimates(w, cs.offset_est(), cs.latency_est());
        (w, e.0, e.1)
    }

    /// Record a pong whose measurement is timestamped `now_ns` on this
    /// synchroniser's clock.
    pub fn record_pong_at(
        &mut self,
        peer_send_time_ns: u64,
        host_recv_time_ns: u64,
        host_send_time_ns: u64,
        peer_recv_time_ns: u64,
        now_ns: u64,
    )
        requires
            old(self).wf(),
            pong_in_range(peer_send_time_ns, host_recv_time_ns, host_send_time_ns, peer_recv_time_ns),
        ensures
            final(self).wf(),
            Self::pong_outcome(
                *old(self),
                now_ns,
                peer_send_time_ns,
                host_recv_time_ns,
                host_send_time_ns,
                peer_recv_time_ns,
            ) == (final(self).measurements(), final(self).offset_est(), final(self).latency_est()),
            1 <= final(self).measurements().len() <= WINDOW_SIZE,
            (forall|i: int|
                0 <= i < old(self).measurements().len() ==> is_fresh(
                    #[trigger] old(self).measurements()[i],
                    now_ns,
                )) ==> final(self).measurements().len() == if old(self).measurements().len() + 1
                < WINDOW_SIZE {
                old(self).measurements().len() + 1
            } else {
                WINDOW_SIZE as nat
            },
    {
        proof {
            law_pong_window_count(
                *old(self),
                now_ns,
                peer_send_time_ns,
                host_recv_time_ns,
                host_send_time_ns,
                peer_recv_time_ns,
            );
        }
        let (rtt_ns, offset_ns) = compute_rtt_offset(
            peer_send_time_ns,
            host_recv_time_ns,
            host_send_time_ns,
            peer_recv_time_ns,
        );
        self.window.items.push_back(ClockMeasurement { timestamp_ns: now_ns, rtt_ns, offset_ns });
        self.prune_stale(now_ns);
        self.cap();
        self.recompute();
    }

    /// Record a measurement directly (without pruning stale entries).
    pub fn record_measurement(&mut self, rtt_ns: u64, offset_ns: i64, timestamp_ns: u64)
        requires
            old(self).wf(),
        ensures
            final(self).wf(),
            final(self).measurements() == cap_window(
                old(self).measurements().push(
                    ClockMeasurement { timestamp_ns, rtt_ns, offset_ns },
                ),
            ),
            (final(self).offset_est(), final(self).latency_est()) == Self::estimates(
                final(self).measurements(),
                old(self).offset_est(),
                old(self).latency_est(),
            ),
    {
        self.window.items.push_back(ClockMeasurement { timestamp_ns, rtt_ns, offset_ns });
        self.cap();
        self.recompute();
    }

    /// Keep only the newest `WINDOW_SIZE` measurements.
    fn cap(&mut self)
        ensures
            final(self).measurements() == cap_window(old(self).measurements()),
            final(self).offset_est() == old(self).offset_est(),
            final(self).latency_est() == old(self).latency_est(),
    {
        let ghost w0 = self.window.items@;
        while self.window.items.len() > WINDOW_SIZE
            invariant
                self.current_offset_ns == old(self).offset_est(),
                self.current_latency_ns == old(self).latency_est(),
                w0 == old(self).measurements(),
                self.window.items@.len() <= w0.len(),
                self.window.items@.len() >= WINDOW_SIZE || self.window.items@ == w0,
                self.window.items@ == w0.subrange(w0.len() - self.window.items@.len(), w0.len() as int),
            decreases self.window.items@.len(),
        {
            self.window.items.pop_front();
            assert(self.window.items@ =~= w0.subrange(w0.len() - self.window.items@.len(), w0.len() as int));
        }
        proof {
            if w0.len() <= WINDOW_SIZE {
                assert(self.window.items@ =~= w0);
            }
            assert(self.window.items@ =~= cap_window(w0));
        }
    }

    /// Remove measurements that are stale at `now_ns`.
    fn prune_stale(&mut self, now_ns: u64)
        ensures
            final(self).measurements() == fresh_only(old(self).measurements(), now_ns),
            final(self).offset_est() == old(self).offset_est(),
            final(self).latency_est() == old(self).latency_est(),
    {
        let n = self.window.items.len();
        let ghost w = self.window.items@;
        let mut kept: VecDeque<ClockMeasurement> = VecDeque::new();
        let mut i: usize = 0;
        while i < n
            invariant
                n == w.len(),
                w == self.window.items@,
                i <= n,
                kept@ == fresh_only(w.take(i as int), now_ns),
            decreases n - i,
        {
            let m = self.window.items[i];
            assert(w.take(i + 1).drop_last() =~= w.take(i as int));
            if now_ns < m.timestamp_ns || now_ns - m.timestamp_ns < STALE_THRESHOLD_NS {
                kept.push_back(m);
            }
            i = i + 1;
        }
        assert(w.take(n as int) =~= w);
        self.window.items = kept;
    }

    /// Recompute the estimates from the window (no change when empty).
    fn recompute(&mut self)
        ensures
            final(self).measurements() == old(self).measurements(),
            (final(self).offset_est(), final(self).latency_est()) == Self::estimates(
                old(self).measurements(),
                old(self).offset_est(),
                old(self).latency_est(),
            ),
    {
        let n = self.window.items.len();
        if n == 0 {
            return;
        }
        let ghost w = self.window.items@;
        let mut offsets: Vec<i64> = Vec::new();
        let mut rtts: Vec<u64> = Vec::new();
        let mut i: usize = 0;
        while i < n
            invariant
                n == w.len(),
                w == self.window.items@,
                i <= n,
                offsets@ == offsets_of(w.take(i as int)),
                rtts@ == rtts_of(w.take(i as int)),
            decreases n - i,
        {
            let m = self.window.items[i];
            offsets.push(m.offset_ns);
            rtts.push(m.rtt_ns);
            assert(offsets_of(w.take(i + 1)) =~= offsets_of(w.take(i as int)).push(m.offset_ns));
            assert(rtts_of(w.take(i + 1)) =~= rtts_of(w.take(i as int)).push(m.rtt_ns));
            i = i + 1;
        }
        assert(w.take(n as int) =~= w);
        self.current_offset_ns = median_i64(&offsets);
        let median_rtt = median_u64(&rtts);
        self.current_latency_ns = median_rtt / 2;
    }

    /// Convert a host-clock timestamp (ns) to this peer's local clock:
    /// `host + offset`, modulo 2^64.
    pub fn host_to_local(&self, host_time_ns: u64) -> (local: u64)
        requires
            i64::MIN <= as_signed(host_time_ns) + self.offset_est() <= i64::MAX,
        ensures
            as_signed(local) == as_signed(host_time_ns) + self.offset_est(),
    {
        let s = signed(host_time_ns) + self.current_offset_ns;
        proof {
            lemma_as_u64(s);
        }
        s as u64
    }

    /// Convert a local-clock timestamp (ns) to the host's clock:
    /// `local − offset`, modulo 2^64.
    pub fn local_to_host(&self, local_time_ns: u64) -> (host: u64)
        requires
            i64::MIN <= as_signed(local_time_ns) - self.offset_est() <= i64::MAX,
        ensures
            as_signed(host) == as_signed(local_time_ns) - self.offset_est(),
    {
        let s = signed(local_time_ns) - self.current_offset_ns;
        proof {
            lemma_as_u64(s);
        }
        s as u64
    }

    /// The current offset estimate (`peer clock − host clock`), in ns.
    pub fn offset_ns(&self) -> (r: i64)
        ensures
            r == self.offset_est(),
    {
        self.current_offset_ns
    }

    /// The current one-way latency estimate, in ns.
    pub fn latency_ns(&self) -> (r: u64)
        ensures
            r == self.latency_est(),
    {
        self.current_latency_ns
    }

    /// Number of measurements currently in the window.
    pub fn measurement_count(&self) -> (n: usize)
        ensures
            n == self.measurements().len(),
    {
        self.window.items.len()
    }

    /// The measurement at `index` in the window (oldest first).
    pub fn measurement(&self, index: usize) -> (m: ClockMeasurement)
        requires
            index < self.measurements().len(),
        ensures
            m == self.measurements()[index as int],
    {
        self.window.items[index]
    }
}

proof fn lemma_as_u64(s: i64)
    ensures
        as_signed(s as u64) == s as int,
{
    let u = s as u64;
    assert(s >= 0 ==> u as int == s as int) by (bit_vector)
        requires
            u == s as u64,
    ;
    assert(s < 0 ==> u as int == s as int + 0x1_0000_0000_0000_0000int) by (bit_vector)
        requires
            u == s as u64,
    ;
}

/// Converting a host timestamp to the local clock and back with the same
/// offset gives the same timestamp back: whatever `host_to_local` returns
/// is accepted by `local_to_host`, which then returns `host`.
pub proof fn law_host_local_roundtrip(offset: i64, host: u64, local: u64, back: u64)
    requires
        as_signed(local) == as_signed(host) + offset,
        as_signed(back) == as_signed(local) - offset,
    ensures
        i64::MIN <= as_signed(local) - offset <= i64::MAX,
        back == host,
{
}

proof fn lemma_fresh_only_all(s: Seq<ClockMeasurement>, now: u64)
    requires
        forall|i: int| 0 <= i < s.len() ==> is_fresh(#[trigger] s[i], now),
    ensures
        fresh_only(s, now) == s,
    decreases s.len(),
{
    if s.len() > 0 {
        lemma_fresh_only_all(s.drop_last(), now);
        assert(s.drop_last().push(s.last()) =~= s);
    }
}

proof fn lemma_fresh_only_keeps_last(s: Seq<ClockMeasurement>, now: u64)
    requires
        s.len() > 0,
        is_fresh(s.last(), now),
    ensures
        fresh_only(s, now).len() >= 1,
{
}

/// The window after a pong: it never holds more than `WINDOW_SIZE`
/// measurements, it always holds the new one, and when no earlier
/// measurement had gone stale it grows by one up to `WINDOW_SIZE`.
pub proof fn law_pong_window_count(
    cs: ClockSync,
    now: u64,
    peer_send: u64,
    host_recv: u64,
    host_send: u64,
    peer_recv: u64,
)
    ensures
        ({
            let w = ClockSync::pong_outcome(cs, now, peer_send, host_recv, host_send, peer_recv).0;
            &&& 1 <= w.len() <= WINDOW_SIZE
            &&& (forall|i: int| 0 <= i < cs.measurements().len() ==> is_fresh(
                #[trigger] cs.measurements()[i],
                now,
            )) ==> w.len() == if cs.measurements().len() + 1 < WINDOW_SIZE {
                cs.measurements().len() + 1
            } else {
                WINDOW_SIZE as nat
            }
        }),
{
    let m = ClockMeasurement {
        timestamp_ns: now,
        rtt_ns: spec_rtt(peer_send, host_recv, host_send, peer_recv),
        offset_ns: spec_offset(peer_send, host_recv, host_send, peer_recv),
    };
    let s = cs.measurements().push(m);
    assert(s.last() == m);
    lemma_fresh_only_keeps_last(s, now);
    if forall|i: int| 0 <= i < cs.measurements().len() ==> is_fresh(
        #[trigger] cs.measurements()[i],
        now,
    ) {
        assert forall|i: int| 0 <= i < s.len() implies is_fresh(#[trigger] s[i], now) by {
            if i < cs.measurements().len() {
                assert(s[i] == cs.measurements()[i]);
            }
        }
        lemma_fresh_only_all(s, now);
    }
}

// ── HostClockTracker (host side) ────────────────────────────────────────────

/// Per-peer latency information tracked on the host side.
#[derive(Clone, Copy, Debug)]
pub struct PeerLatency {
    pub estimated_one_way_ns: u64,
    pub last_updated: Instant,
}

/// Host-side tracker of per-peer one-way latency estimates.
pub struct HostClockTracker {
    peer_latencies: HashMap<u32, PeerLatency>,
}

impl HostClockTracker {
    /// The record of each tracked peer: its estimate and when it was taken.
    pub closed spec fn records(&self) -> Map<u32, PeerLatency> {
        self.peer_latencies@
    }

    /// Estimated one-way latency of each tracked peer.
    pub open spec fn view(&self) -> Map<u32, u64> {
        self.records().map_values(|p: PeerLatency| p.estimated_one_way_ns)
    }

    pub fn new() -> (t: Self)
        ensures
            t.view() == Map::<u32, u64>::empty(),
            t.records() == Map::<u32, PeerLatency>::empty(),
    {
        let t = HostClockTracker { peer_latencies: HashMap::new() };
        assert(t.view() =~= Map::<u32, u64>::empty());
        t
    }

    /// Record a ping/pong round for a peer: its latency estimate becomes
    /// half the host-side processing time (saturating at zero).
    pub fn record_ping(
        &mut self,
        peer_id: u32,
        _peer_send_ns: u64,
        host_recv_ns: u64,
        host_send_ns: u64,
    )
        ensures
            final(self).view() == old(self).view().insert(
                peer_id,
                (if host_send_ns >= host_recv_ns {
                    (host_send_ns - host_recv_ns) as u64
                } else {
                    0u64
                }) / 2,
            ),
            final(self).records() == old(self).records().insert(peer_id, final(self).records()[peer_id]),
            final(self).records()[peer_id].estimated_one_way_ns == (if host_send_ns >= host_recv_ns {
                (host_send_ns - host_recv_ns) as u64
            } else {
                0u64
            }) / 2,
    {
        let processing_ns = host_send_ns.saturating_sub(host_recv_ns);
        self.peer_latencies.insert(
            peer_id,
            PeerLatency { estimated_one_way_ns: processing_ns / 2, last_updated: monotonic_now() },
        );
        assert(self.view() =~= old(self).view().insert(peer_id, processing_ns / 2));
        assert(self.records() =~= old(self).records().insert(peer_id, self.records()[peer_id]));
    }

    /// A peer's latency record, if it is tracked.
    pub fn get_latency(&self, peer_id: u32) -> (r: Option<&PeerLatency>)
        ensures
            match r {
                Some(p) => self.view().contains_key(peer_id) && p.estimated_one_way_ns
                    == self.view()[peer_id] && *p == self.records()[peer_id],
                None => !self.view().contains_key(peer_id),
            },
    {
        self.peer_latencies.get(&peer_id)
    }

    /// The latency estimate of every tracked peer.
    pub fn get_all_latencies(&self) -> (m: HashMap<u32, u64>)
        ensures
            m@ == self.view(),
    {
        let mut out: HashMap<u32, u64> = HashMap::new();
        let ghost v = spec_hash_map_iter(&self.peer_latencies).remaining();
        let ghost src = self.peer_latencies@;
        let ghost mut seen: int = 0;
        for kv in it: self.peer_latencies.iter()
            invariant
                it.seq() == v,
                seen == it.index(),
                src == self.peer_latencies@,
                forall|j: int|
                    0 <= j < v.len() ==> src.contains_key(*v[j].0) && src[*v[j].0] == *v[j].1,
                forall|k: u32| #[trigger] out@.contains_key(k) <==> exists|j: int|
                    0 <= j < seen && *v[j].0 == k,
                forall|k: u32| #[trigger] out@.contains_key(k) ==> out@[k] == src[k].estimated_one_way_ns,
        {
            out.insert(*kv.0, kv.1.estimated_one_way_ns);
            proof {
                seen = seen + 1;
            }
        }
        proof {
            assert forall|k: u32| src.contains_key(k) implies out@.contains_key(k) by {
                assert(v.contains((&k, &src[k])));
                let j = choose|j: int| 0 <= j < v.len() && v[j] == (&k, &src[k]);
                assert(*v[j].0 == k);
            }
            assert forall|k: u32| out@.contains_key(k) implies src.contains_key(k) by {
                let j = choose|j: int| 0 <= j < seen && *v[j].0 == k;
            }
            assert(out@ =~= self.view());
        }
        out
    }

    /// Stop tracking a peer (e.g. on disconnect).
    pub fn remove_peer(&mut self, peer_id: u32)
        ensures
            final(self).view() == old(self).view().remove(peer_id),
            final(self).records() == old(self).records().remove(peer_id),
    {
        self.peer_latencies.remove(&peer_id);
        assert(self.view() =~= old(self).view().remove(peer_id));
    }
}

} // verus!
