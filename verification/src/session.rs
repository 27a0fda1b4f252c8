//! The host's roster of the peers in a session: who may join, under which
//! display name, who left, when each was last heard from and which files
//! each has confirmed.
use crate::messages::{Message, PeerInfo};
use crate::names::{decimal, decimal_chars, dedup_name, deduplicate_name, string_views};
use crate::text::string_from_chars;
use std::collections::{HashMap, HashSet};
use std::time::Instant;
use vstd::prelude::*;
use vstd::std_specs::hash::spec_hash_map_iter;
use vstd::std_specs::iter::IteratorSpec;
use vstd::string::StringExecFns;

verus! {

broadcast use vstd::std_specs::hash::group_hash_axioms;

/// Maximum number of peers allowed in a session (excluding the host).
pub const MAX_PEERS: usize = 5;

/// Events emitted by the session layer to the application.
#[derive(Debug)]
pub enum SessionEvent {
    /// A peer successfully joined the session.
    PeerJoined { peer_id: u32, display_name: String },
    /// A peer left the session (voluntarily or by disconnect).
    PeerLeft { peer_id: u32 },
    /// A message that the session layer does not handle itself.
    MessageReceived { peer_id: u32, message: Message },
    /// The host shut down the session (peer side only).
    HostDisconnected,
    /// The join request was rejected by the host.
    JoinRejected { reason: String },
}

/// State tracked by the host for each connected peer.
#[derive(Debug)]
pub struct PeerState {
    pub peer_id: u32,
    pub display_name: String,
    pub latency_ns: u64,
    /// File ids this peer has confirmed receiving intact.
    pub files_ready: HashSet<u128>,
    pub connected_at: Instant,
    pub last_seen: Instant,
}

/// What the roster records of one peer.
pub struct PeerEntry {
    pub display_name: Seq<char>,
    pub latency_ns: u64,
    pub files_ready: Set<u128>,
    pub connected_at: Instant,
    pub last_seen: Instant,
}

/// The record of a freshly admitted peer.
pub open spec fn fresh_entry(name: Seq<char>, now: Instant) -> PeerEntry {
    PeerEntry {
        display_name: name,
        latency_ns: 0,
        files_ready: Set::empty(),
        connected_at: now,
        last_seen: now,
    }
}

/// The display names in use.
pub open spec fn roster_names(m: Map<u32, PeerEntry>) -> Set<Seq<char>> {
    Set::new(|s: Seq<char>| exists|k: u32| m.contains_key(k) && m[k].display_name == s)
}

/// No two peers share a display name.
pub open spec fn names_distinct(m: Map<u32, PeerEntry>) -> bool {
    forall|a: u32, b: u32|
        m.contains_key(a) && m.contains_key(b) && a != b ==> m[a].display_name != m[b].display_name
}

/// The list holds each peer of `m` once, in increasing id, with its name.
pub open spec fn is_peer_list(m: Map<u32, PeerEntry>, list: Seq<PeerInfo>) -> bool {
    &&& list.len() == m.dom().len()
    &&& forall|i: int, j: int| 0 <= i < j < list.len() ==> list[i].peer_id < list[j].peer_id
    &&& forall|i: int|
        0 <= i < list.len() ==> m.contains_key(#[trigger] list[i].peer_id)
            && list[i].display_name@ == m[list[i].peer_id].display_name
    &&& forall|k: u32| m.contains_key(k) ==> exists|i: int| 0 <= i < list.len() && list[i].peer_id == k
}

/// The host's answer to a join request.
#[derive(Debug)]
pub enum JoinDecision {
    /// The session is full.
    Rejected { reason: String },
    /// The peer was admitted under `display_name`.
    Accepted { display_name: String },
}

/// The peers of a hosted session, by peer id.
pub struct PeerRoster {
    peers: HashMap<u32, PeerState>,
}

impl PeerRoster {
    /// The record of each peer, by peer id.
    pub closed spec fn entries(&self) -> Map<u32, PeerEntry> {
        self.peers@.map_values(
            |p: PeerState|
                PeerEntry {
                    display_name: p.display_name@,
                    latency_ns: p.latency_ns,
                    files_ready: p.files_ready@,
                    connected_at: p.connected_at,
                    last_seen: p.last_seen,
                },
        )
    }

    /// An empty roster.
    pub fn new() -> (r: Self)
        ensures
            r.entries() == Map::<u32, PeerEntry>::empty(),
    {
        let r = PeerRoster { peers: HashMap::new() };
        assert(r.entries() =~= Map::<u32, PeerEntry>::empty());
        r
    }

    /// Number of connected peers.
    pub fn peer_count(&self) -> (n: usize)
        ensures
            n == self.entries().dom().len(),
    {
        assert(self.entries().dom() =~= self.peers@.dom());
        self.peers.len()
    }

    /// The display name of `peer_id`, or "Peer <id>" when it is not in the
    /// roster.
    pub fn display_name_or_default(&self, peer_id: u32) -> (name: String)
        ensures
            self.entries().contains_key(peer_id) ==> name@ == self.entries()[peer_id].display_name,
            !self.entries().contains_key(peer_id) ==> name@ == "Peer "@ + decimal(peer_id as nat),
    {
        match self.peers.get(&peer_id) {
            Some(ps) => ps.display_name.clone(),
            None => {
                let mut s = String::from_str("Peer ");
                let digits = decimal_chars(peer_id);
                let d = string_from_chars(&digits);
                s.append(d.as_str());
                s
            },
        }
    }

    /// The (id, display name) of each peer, each once.
    fn name_pairs(&self) -> (r: Vec<(u32, String)>)
        ensures
            r@.len() == self.entries().dom().len(),
            forall|i: int|
                0 <= i < r@.len() ==> self.entries().contains_key(r@[i].0)
                    && self.entries()[r@[i].0].display_name == r@[i].1@,
            forall|i: int, j: int| 0 <= i < j < r@.len() ==> r@[i].0 != r@[j].0,
            forall|k: u32|
                self.entries().contains_key(k) ==> exists|i: int| 0 <= i < r@.len() && r@[i].0 == k,
    {
        let ghost m = self.peers@;
        let mut out: Vec<(u32, String)> = Vec::new();
        let ghost v = spec_hash_map_iter(&self.peers).remaining();
        for kv in it: self.peers.iter()
            invariant
                out@.len() == it.index(),
                it.seq() == v,
                forall|j: int|
                    0 <= j < out@.len() ==> out@[j].0 == *it.seq()[j].0 && out@[j].1@
                        == it.seq()[j].1.display_name@,
        {
            out.push((*kv.0, kv.1.display_name.clone()));
        }
        proof {
            assert(self.entries().dom() =~= m.dom());
            assert forall|k: u32| m.contains_key(k) implies exists|i: int|
                0 <= i < out@.len() && out@[i].0 == k by {
                assert(v.contains((&k, &m[k])));
                let i = choose|i: int| 0 <= i < v.len() && v[i] == (&k, &m[k]);
                assert(out@[i].0 == k);
            }
            assert forall|i: int, j: int| 0 <= i < j < out@.len() implies out@[i].0
                != out@[j].0 by {
                if out@[i].0 == out@[j].0 {
                    assert(m.contains_key(*v[i].0) && m[*v[i].0] == *v[i].1);
                    assert(m.contains_key(*v[j].0) && m[*v[j].0] == *v[j].1);
                    assert(v[i] == v[j]);
                }
            }
            assert forall|i: int| 0 <= i < out@.len() implies self.entries().contains_key(
                out@[i].0,
            ) && self.entries()[out@[i].0].display_name == out@[i].1@ by {
                assert(m.contains_key(*v[i].0) && m[*v[i].0] == *v[i].1);
            }
        }
        out
    }

    /// The display names in use, one per peer.
    fn display_names(&self) -> (r: Vec<String>)
        ensures
            r@.len() == self.entries().dom().len(),
            string_views(r@).to_set() == roster_names(self.entries()),
    {
        let pairs = self.name_pairs();
        let mut out: Vec<String> = Vec::new();
        let n = pairs.len();
        let mut i: usize = 0;
        while i < n
            invariant
                n == pairs@.len(),
                i <= n,
                out@.len() == i,
                forall|j: int| 0 <= j < i ==> out@[j]@ == pairs@[j].1@,
            decreases n - i,
        {
            out.push(pairs[i].1.clone());
            i = i + 1;
        }
        proof {
            let e = self.entries();
            assert forall|s: Seq<char>| string_views(out@).to_set().contains(s) <==> roster_names(
                e,
            ).contains(s) by {
                if string_views(out@).to_set().contains(s) {
                    let j = choose|j: int| 0 <= j < out@.len() && string_views(out@)[j] == s;
                    assert(e.contains_key(pairs@[j].0) && e[pairs@[j].0].display_name == s);
                }
                if roster_names(e).contains(s) {
                    let k = choose|k: u32| e.contains_key(k) && e[k].display_name == s;
                    let j = choose|j: int| 0 <= j < pairs@.len() && pairs@[j].0 == k;
                    assert(string_views(out@)[j] == s);
                }
            }
            assert(string_views(out@).to_set() =~= roster_names(e));
        }
        out
    }

    /// Handle a join request from `peer_id`: refuse it when the session is
    /// full, otherwise admit the peer under its requested name, suffixed
    /// " (n)" with the least free n ≥ 2 when the name is taken.
    pub fn handle_join(&mut self, peer_id: u32, display_name: &str, now: Instant) -> (d:
        JoinDecision)
        ensures
            old(self).entries().dom().len() >= MAX_PEERS ==> {
                &&& d matches JoinDecision::Rejected { reason } && reason@ == "Session is full"@
                &&& final(self).entries() == old(self).entries()
            },
            old(self).entries().dom().len() < MAX_PEERS ==> {
                &&& d matches JoinDecision::Accepted { display_name: name } && name@ == dedup_name(
                    display_name@,
                    roster_names(old(self).entries()),
                ) && final(self).entries() == old(self).entries().insert(
                    peer_id,
                    fresh_entry(name@, now),
                )
            },
            names_distinct(old(self).entries()) ==> names_distinct(final(self).entries()),
            old(self).entries().dom().len() <= MAX_PEERS ==> final(self).entries().dom().len()
                <= MAX_PEERS,
    {
        let count = self.peer_count();
        if count >= MAX_PEERS {
            return JoinDecision::Rejected { reason: String::from_str("Session is full") };
        }
        let ghost old_entries = self.entries();
        proof {
            assert(self.peers@.dom().finite());
            assert(old_entries.dom() =~= self.peers@.dom());
        }
        let existing = self.display_names();
        let final_name = deduplicate_name(display_name, &existing);
        let ghost taken = string_views(existing@).to_set();
        proof {
            assert(!taken.contains(final_name@));
        }
        let state = PeerState {
            peer_id,
            display_name: final_name.clone(),
            latency_ns: 0,
            files_ready: HashSet::new(),
            connected_at: now,
            last_seen: now,
        };
        self.peers.insert(peer_id, state);
        proof {
            let e = self.entries();
            assert(e =~= old_entries.insert(peer_id, fresh_entry(final_name@, now)));
            assert forall|a: u32, b: u32|
                names_distinct(old_entries) && e.contains_key(a) && e.contains_key(b) && a
                    != b implies e[a].display_name != e[b].display_name by {
                if a == peer_id {
                    assert(roster_names(old_entries).contains(e[b].display_name));
                } else if b == peer_id {
                    assert(roster_names(old_entries).contains(e[a].display_name));
                }
            }
            assert(e.dom() =~= old_entries.dom().insert(peer_id));
        }
        JoinDecision::Accepted { display_name: final_name }
    }

    /// Remove a peer that left or disconnected; whether it was present.
    pub fn remove_peer(&mut self, peer_id: u32) -> (was_present: bool)
        ensures
            was_present == old(self).entries().contains_key(peer_id),
            final(self).entries() == old(self).entries().remove(peer_id),
    {
        let r = self.peers.remove(&peer_id);
        assert(self.entries() =~= old(self).entries().remove(peer_id));
        r.is_some()
    }

    /// A heartbeat from `peer_id` arrived at `now`.
    pub fn heartbeat(&mut self, peer_id: u32, now: Instant)
        ensures
            old(self).entries().contains_key(peer_id) ==> final(self).entries()
                == old(self).entries().insert(
                peer_id,
                PeerEntry { last_seen: now, ..old(self).entries()[peer_id] },
            ),
            !old(self).entries().contains_key(peer_id) ==> final(self).entries() == old(
                self,
            ).entries(),
    {
        let removed = self.peers.remove(&peer_id);
        match removed {
            Some(mut ps) => {
                ps.last_seen = now;
                self.peers.insert(peer_id, ps);
                assert(self.entries() =~= old(self).entries().insert(
                    peer_id,
                    PeerEntry { last_seen: now, ..old(self).entries()[peer_id] },
                ));
            },
            None => {
                assert(self.entries() =~= old(self).entries());
            },
        }
    }

    /// `peer_id` reported on the file `file_id`; an intact copy is recorded.
    pub fn file_received(&mut self, peer_id: u32, file_id: u128, hash_ok: bool)
        ensures
            hash_ok && old(self).entries().contains_key(peer_id) ==> final(self).entries()
                == old(self).entries().insert(
                peer_id,
                PeerEntry {
                    files_ready: old(self).entries()[peer_id].files_ready.insert(file_id),
                    ..old(self).entries()[peer_id]
                },
            ),
            !(hash_ok && old(self).entries().contains_key(peer_id)) ==> final(self).entries()
                == old(self).entries(),
    {
        if !hash_ok {
            return;
        }
        let removed = self.peers.remove(&peer_id);
        match removed {
            Some(mut ps) => {
                ps.files_ready.insert(file_id);
                self.peers.insert(peer_id, ps);
                assert(self.entries() =~= old(self).entries().insert(
                    peer_id,
                    PeerEntry {
                        files_ready: old(self).entries()[peer_id].files_ready.insert(file_id),
                        ..old(self).entries()[peer_id]
                    },
                ));
            },
            None => {
                assert(self.entries() =~= old(self).entries());
            },
        }
    }

    /// The peers, sorted by peer id.
    #[verifier::rlimit(40)]
    pub fn peer_list(&self) -> (list: Vec<PeerInfo>)
        ensures
            is_peer_list(self.entries(), list@),
    {
        let pairs = self.name_pairs();
        let ghost e = self.entries();
        let n = pairs.len();
        let mut list: Vec<PeerInfo> = Vec::new();
        let mut i: usize = 0;
        while i < n
            invariant
                n == pairs@.len(),
                i <= n,
                e == self.entries(),
                n == e.dom().len(),
                forall|a: int|
                    0 <= a < n ==> e.contains_key(pairs@[a].0) && e[pairs@[a].0].display_name
                        == pairs@[a].1@,
                forall|a: int, b: int| 0 <= a < b < n ==> pairs@[a].0 != pairs@[b].0,
                forall|k: u32| e.contains_key(k) ==> exists|b: int| 0 <= b < n && pairs@[b].0 == k,
                list@.len() == i,
                forall|a: int, b: int|
                    0 <= a < b < list@.len() ==> list@[a].peer_id < list@[b].peer_id,
                forall|a: int|
                    0 <= a < list@.len() ==> exists|b: int|
                        0 <= b < i && #[trigger] list@[a].peer_id == pairs@[b].0
                            && list@[a].display_name@ == pairs@[b].1@,
                forall|b: int|
                    0 <= b < i ==> exists|a: int|
                        0 <= a < list@.len() && list@[a].peer_id == #[trigger] pairs@[b].0,
            decreases n - i,
        {
            let info = PeerInfo { peer_id: pairs[i].0, display_name: pairs[i].1.clone() };
            proof {
                assert forall|a: int| 0 <= a < list@.len() implies list@[a].peer_id
                    != info.peer_id by {
                    let b = choose|b: int|
                        0 <= b < i && #[trigger] list@[a].peer_id == pairs@[b].0
                            && list@[a].display_name@ == pairs@[b].1@;
                }
            }
            let ghost before = list@;
            let pos = insert_by_id(&mut list, info);
            proof {
                assert forall|a: int| 0 <= a < list@.len() implies exists|b: int|
                    0 <= b < i + 1 && #[trigger] list@[a].peer_id == pairs@[b].0
                        && list@[a].display_name@ == pairs@[b].1@ by {
                    if a < pos {
                        assert(list@[a] == before[a]);
                        let b = choose|b: int|
                            0 <= b < i && #[trigger] before[a].peer_id == pairs@[b].0
                                && before[a].display_name@ == pairs@[b].1@;
                    } else if a == pos {
                        assert(list@[a].peer_id == pairs@[i as int].0);
                    } else {
                        assert(list@[a] == before[a - 1]);
                        let b = choose|b: int|
                            0 <= b < i && #[trigger] before[a - 1].peer_id == pairs@[b].0
                                && before[a - 1].display_name@ == pairs@[b].1@;
                    }
                }
                assert forall|b: int| 0 <= b < i + 1 implies exists|a: int|
                    0 <= a < list@.len() && list@[a].peer_id == #[trigger] pairs@[b].0 by {
                    if b == i {
                        assert(list@[pos as int].peer_id == pairs@[b].0);
                    } else {
                        let a = choose|a: int|
                            0 <= a < before.len() && before[a].peer_id == #[trigger] pairs@[b].0;
                        if a < pos {
                            assert(list@[a] == before[a]);
                        } else {
                            assert(list@[a + 1] == before[a]);
                        }
                    }
                }
            }
            i = i + 1;
        }
        proof {
            assert forall|a: int| 0 <= a < list@.len() implies e.contains_key(
                #[trigger] list@[a].peer_id,
            ) && list@[a].display_name@ == e[list@[a].peer_id].display_name by {
                let b = choose|b: int|
                    0 <= b < n && #[trigger] list@[a].peer_id == pairs@[b].0
                        && list@[a].display_name@ == pairs@[b].1@;
            }
            assert forall|k: u32| e.contains_key(k) implies exists|a: int|
                0 <= a < list@.len() && list@[a].peer_id == k by {
                let b = choose|b: int| 0 <= b < n && pairs@[b].0 == k;
                assert(exists|a: int|
                    0 <= a < list@.len() && list@[a].peer_id == #[trigger] pairs@[b].0);
            }
        }
        list
    }
}

/// Insert `info` at its place by peer id; where it went.
fn insert_by_id(list: &mut Vec<PeerInfo>, info: PeerInfo) -> (pos: usize)
    requires
        forall|a: int, b: int|
            0 <= a < b < old(list)@.len() ==> old(list)@[a].peer_id < old(list)@[b].peer_id,
        forall|a: int| 0 <= a < old(list)@.len() ==> old(list)@[a].peer_id != info.peer_id,
    ensures
        pos <= old(list)@.len(),
        final(list)@ == old(list)@.insert(pos as int, info),
        forall|a: int, b: int|
            0 <= a < b < final(list)@.len() ==> final(list)@[a].peer_id < final(list)@[b].peer_id,
{
    let mut p: usize = 0;
    while p < list.len() && list[p].peer_id < info.peer_id
        invariant
            p <= list@.len(),
            forall|a: int| 0 <= a < p ==> list@[a].peer_id < info.peer_id,
        decreases list@.len() - p,
    {
        p = p + 1;
    }
    let ghost before = list@;
    list.insert(p, info);
    assert forall|a: int, b: int| 0 <= a < b < list@.len() implies list@[a].peer_id
        < list@[b].peer_id by {
        if b < p {
        } else if b == p {
        } else if a < p {
            if a < b - 1 {
                assert(before[a].peer_id < before[b - 1].peer_id);
            }
        } else if a == p {
            if b - 1 > p {
                assert(before[p as int].peer_id < before[b - 1].peer_id);
            }
        } else {
            assert(before[a - 1].peer_id < before[b - 1].peer_id);
        }
    }
    p
}

/// A peer's own display name in the peer list it was sent on joining:
/// the name listed under `peer_id`, or the empty string when it is not
/// listed.
pub fn own_display_name(peers: &Vec<PeerInfo>, peer_id: u32) -> (name: String)
    ensures
        (exists|i: int| 0 <= i < peers@.len() && peers@[i].peer_id == peer_id) ==> exists|i: int|
            0 <= i < peers@.len() && peers@[i].peer_id == peer_id && name@ == peers@[i].display_name@
                && forall|j: int| 0 <= j < i ==> peers@[j].peer_id != peer_id,
        !(exists|i: int| 0 <= i < peers@.len() && peers@[i].peer_id == peer_id) ==> name@
            == Seq::<char>::empty(),
{
    let n = peers.len();
    let mut i: usize = 0;
    while i < n
        invariant
            n == peers@.len(),
            i <= n,
            forall|j: int| 0 <= j < i ==> peers@[j].peer_id != peer_id,
        decreases n - i,
    {
        if peers[i].peer_id == peer_id {
            return peers[i].display_name.clone();
        }
        i = i + 1;
    }
    String::new()
}

} // verus!
