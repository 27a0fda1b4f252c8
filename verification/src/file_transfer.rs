//! Chunked file transfer from the host to its peers.
//!
//! The host side keeps, per file, which peers still have to confirm it,
//! which confirmed and which failed, and how often each peer's copy was
//! resent. The peer side reassembles chunks into a preallocated buffer and
//! checks the SHA-256 digest once every byte has arrived.
use crate::bytes::{
    chunk_count, compute_sha256, copy_into, digests_equal, is_chunking, sha256_of, split_chunks,
    write_at, zeroed,
};
use crate::ids::new_random_id;
use crate::messages::Message;
use std::collections::{HashMap, HashSet};
use vstd::prelude::*;
use vstd::std_specs::hash::spec_hash_map_iter;
use vstd::std_specs::iter::IteratorSpec;

verus! {

broadcast use vstd::std_specs::hash::group_hash_axioms;

/// Chunk size for file transfers: 64 KiB.
pub const CHUNK_SIZE: usize = 64 * 1024;

/// Maximum file size: 50 MiB.
pub const MAX_FILE_SIZE: u64 = 50 * 1024 * 1024;

/// Maximum number of failed deliveries per peer before giving up.
pub const MAX_RETRIES: u8 = 3;

#[verifier::external_type_specification]
#[verifier::external_body]
pub struct ExIoError(std::io::Error);

/// Events emitted by the transfer layer. Progress is reported as a
/// number done out of a total.
#[derive(Debug)]
pub enum TransferEvent {
    /// Progress of sending a file: peers confirmed out of peers involved.
    SendProgress { file_id: u128, peer_id: u32, done: u64, total: u64 },
    /// A peer confirmed successful receipt.
    PeerConfirmed { file_id: u128, peer_id: u32 },
    /// A peer's transfer failed after the maximum number of retries.
    PeerFailed { file_id: u128, peer_id: u32 },
    /// All peers confirmed receipt of a file.
    AllConfirmed { file_id: u128 },
    /// Receive progress of an incoming file: bytes received out of its size.
    ReceiveProgress { file_id: u128, done: u64, total: u64 },
    /// A file was fully received and its hash verified.
    FileReady { file_id: u128, file_name: String },
    /// An incoming file failed hash verification.
    FileCorrupted { file_id: u128 },
}

/// Errors of file transfer operations.
#[derive(Debug)]
pub enum TransferError {
    Io(std::io::Error),
    FileTooLarge(u64),
    FileEmpty,
    AlreadyTransferring(u128),
}

/// The outcome of checking an outgoing or incoming file size.
pub open spec fn size_error(size: u64) -> Option<TransferError> {
    if size == 0 {
        Some(TransferError::FileEmpty)
    } else if size > MAX_FILE_SIZE {
        Some(TransferError::FileTooLarge(size))
    } else {
        None
    }
}

// ── Host side ───────────────────────────────────────────────────────────────

/// State of one outgoing transfer.
struct TransferState {
    file_id: u128,
    file_name: String,
    file_data: Vec<u8>,
    sha256: [u8; 32],
    peers_pending: HashSet<u32>,
    peers_confirmed: HashSet<u32>,
    peers_failed: HashSet<u32>,
    retry_counts: HashMap<u32, u8>,
}

/// Mathematical view of one outgoing transfer.
pub struct TransferView {
    pub file_name: Seq<char>,
    pub file_data: Seq<u8>,
    pub sha256: Seq<u8>,
    pub pending: Set<u32>,
    pub confirmed: Set<u32>,
    pub failed: Set<u32>,
    pub retries: Map<u32, u8>,
}

impl TransferState {
    spec fn view(&self) -> TransferView {
        TransferView {
            file_name: self.file_name@,
            file_data: self.file_data@,
            sha256: self.sha256@,
            pending: self.peers_pending@,
            confirmed: self.peers_confirmed@,
            failed: self.peers_failed@,
            retries: self.retry_counts@,
        }
    }
}

/// What the caller has to do after a `FileReceived` report.
#[derive(Debug)]
pub enum ReceivedAction {
    /// The file is not being transferred: nothing to do.
    Ignore,
    /// Send the file to the peer again (its copy was corrupt).
    Resend,
    /// Report this event.
    Emit(TransferEvent),
}

/// Transfer view after `peer` confirms receipt.
pub open spec fn confirm_spec(t: TransferView, peer: u32) -> TransferView {
    TransferView { pending: t.pending.remove(peer), confirmed: t.confirmed.insert(peer), ..t }
}

/// Retry count of `peer` after one more failed delivery (saturating).
pub open spec fn next_retry(t: TransferView, peer: u32) -> u8 {
    let c = if t.retries.contains_key(peer) { t.retries[peer] } else { 0u8 };
    if c < 255 { (c + 1) as u8 } else { 255u8 }
}

/// Transfer view after a failed delivery to `peer`.
pub open spec fn fail_spec(t: TransferView, peer: u32) -> TransferView {
    let c = next_retry(t, peer);
    if c < MAX_RETRIES {
        TransferView { retries: t.retries.insert(peer, c), ..t }
    } else {
        TransferView {
            retries: t.retries.insert(peer, c),
            pending: t.pending.remove(peer),
            failed: t.failed.insert(peer),
            ..t
        }
    }
}

/// Host-side file transfer manager.
pub struct FileTransferManager {
    active_transfers: HashMap<u128, TransferState>,
}

impl FileTransferManager {
    /// The active transfers by file id.
    pub closed spec fn transfers(&self) -> Map<u128, TransferView> {
        self.active_transfers@.map_values(|t: TransferState| t.view())
    }

    pub fn new() -> (m: Self)
        ensures
            m.transfers() == Map::<u128, TransferView>::empty(),
    {
        let m = FileTransferManager { active_transfers: HashMap::new() };
        assert(m.transfers() =~= Map::<u128, TransferView>::empty());
        m
    }

    /// Start a transfer of `file_data` to `peer_ids` under a fresh file id:
    /// refuses empty files and files over `MAX_FILE_SIZE`, then records the
    /// transfer with every listed peer pending. The caller sends the
    /// messages of `outgoing_messages`.
    pub fn start_transfer_from_bytes(
        &mut self,
        file_name: String,
        file_data: Vec<u8>,
        peer_ids: &[u32],
    ) -> (r: Result<u128, TransferError>)
        ensures
            size_error(file_data@.len() as u64) is Some ==> r is Err && final(self).transfers()
                == old(self).transfers(),
            file_data@.len() == 0 ==> r matches Err(TransferError::FileEmpty),
            file_data@.len() > MAX_FILE_SIZE ==> (r matches Err(TransferError::FileTooLarge(n)) && n
                == file_data@.len()),
            size_error(file_data@.len() as u64) is None ==> match r {
                Ok(id) => !old(self).transfers().contains_key(id) && final(self).transfers()
                    == old(self).transfers().insert(
                    id,
                    TransferView {
                        file_name: file_name@,
                        file_data: file_data@,
                        sha256: sha256_of(file_data@),
                        pending: peer_ids@.to_set(),
                        confirmed: Set::empty(),
                        failed: Set::empty(),
                        retries: Map::empty(),
                    },
                ),
                Err(TransferError::AlreadyTransferring(id)) => old(self).transfers().contains_key(id)
                    && final(self).transfers() == old(self).transfers(),
                _ => false,
            },
    {
        if file_data.len() == 0 {
            return Err(TransferError::FileEmpty);
        }
        if file_data.len() as u64 > MAX_FILE_SIZE {
            return Err(TransferError::FileTooLarge(file_data.len() as u64));
        }
        let file_id = new_random_id();
        self.start_transfer_with_id(file_id, file_name, file_data, peer_ids)
    }

    /// Start a transfer of `file_data` to `peer_ids` under `file_id`:
    /// refuses empty files, files over `MAX_FILE_SIZE` and an id already
    /// being transferred, then records the transfer with every listed peer
    /// pending.
    pub fn start_transfer_with_id(
        &mut self,
        file_id: u128,
        file_name: String,
        file_data: Vec<u8>,
        peer_ids: &[u32],
    ) -> (r: Result<u128, TransferError>)
        ensures
            size_error(file_data@.len() as u64) is Some ==> r is Err && final(self).transfers()
                == old(self).transfers(),
            file_data@.len() == 0 ==> r matches Err(TransferError::FileEmpty),
            file_data@.len() > MAX_FILE_SIZE ==> (r matches Err(TransferError::FileTooLarge(n)) && n
                == file_data@.len()),
            size_error(file_data@.len() as u64) is None && old(self).transfers().contains_key(file_id)
                ==> r == Err::<u128, TransferError>(TransferError::AlreadyTransferring(file_id))
                && final(self).transfers() == old(self).transfers(),
            size_error(file_data@.len() as u64) is None && !old(self).transfers().contains_key(file_id)
                ==> r == Ok::<u128, TransferError>(file_id) && final(self).transfers() == old(
                self,
            ).transfers().insert(
                file_id,
                TransferView {
                    file_name: file_name@,
                    file_data: file_data@,
                    sha256: sha256_of(file_data@),
                    pending: peer_ids@.to_set(),
                    confirmed: Set::empty(),
                    failed: Set::empty(),
                    retries: Map::empty(),
                },
            ),
    {
        if file_data.len() == 0 {
            return Err(TransferError::FileEmpty);
        }
        if file_data.len() as u64 > MAX_FILE_SIZE {
            return Err(TransferError::FileTooLarge(file_data.len() as u64));
        }
        let sha256 = compute_sha256(file_data.as_slice());
        if self.active_transfers.contains_key(&file_id) {
            return Err(TransferError::AlreadyTransferring(file_id));
        }
        let mut pending: HashSet<u32> = HashSet::new();
        let n = peer_ids.len();
        let mut i: usize = 0;
        while i < n
            invariant
                n == peer_ids@.len(),
                i <= n,
                pending@ == peer_ids@.take(i as int).to_set(),
            decreases n - i,
        {
            pending.insert(peer_ids[i]);
            assert(peer_ids@.take(i + 1) =~= peer_ids@.take(i as int).push(peer_ids@[i as int]));
            proof {
                peer_ids@.take(i as int).lemma_push_to_set_commute(peer_ids@[i as int]);
            }
            i = i + 1;
        }
        assert(peer_ids@.take(n as int) =~= peer_ids@);
        let state = TransferState {
            file_id,
            file_name,
            file_data,
            sha256,
            peers_pending: pending,
            peers_confirmed: HashSet::new(),
            peers_failed: HashSet::new(),
            retry_counts: HashMap::new(),
        };
        let ghost v = state.view();
        self.active_transfers.insert(file_id, state);
        assert(self.transfers() =~= old(self).transfers().insert(file_id, v));
        Ok(file_id)
    }

    /// The messages that deliver a transfer: the start message and then
    /// each chunk, in order. `None` when the file is not being transferred.
    pub fn outgoing_messages(&self, file_id: u128) -> (r: Option<Vec<Message>>)
        ensures
            match r {
                None => !self.transfers().contains_key(file_id),
                Some(v) => self.transfers().contains_key(file_id) && delivers(
                    v@,
                    file_id,
                    self.transfers()[file_id].file_name,
                    self.transfers()[file_id].file_data,
                    self.transfers()[file_id].sha256,
                ),
            },
    {
        match self.active_transfers.get(&file_id) {
            None => None,
            Some(state) => Some(transfer_messages(
                file_id,
                &state.file_name,
                &state.file_data,
                state.sha256,
            )),
        }
    }

    /// Handle a `FileReceived` report from a peer.
    ///
    /// A good copy moves the peer from pending to confirmed and reports
    /// `AllConfirmed` when nobody is pending or failed, else
    /// `PeerConfirmed`. A bad copy counts a retry: below `MAX_RETRIES` the
    /// file is to be resent, otherwise the peer moves to failed and
    /// `PeerFailed` is reported.
    pub fn handle_file_received(&mut self, peer_id: u32, file_id: u128, hash_ok: bool) -> (r:
        ReceivedAction)
        ensures
            !old(self).transfers().contains_key(file_id) ==> r is Ignore && final(self).transfers()
                == old(self).transfers(),
            old(self).transfers().contains_key(file_id) && hash_ok ==> final(self).transfers()[file_id].confirmed.contains(
                peer_id,
            ) && !final(self).transfers()[file_id].pending.contains(peer_id),
            old(self).transfers().contains_key(file_id) && hash_ok ==> {
                let t2 = confirm_spec(old(self).transfers()[file_id], peer_id);
                &&& final(self).transfers() == old(self).transfers().insert(file_id, t2)
                &&& if t2.pending.is_empty() && t2.failed.is_empty() {
                    r matches ReceivedAction::Emit(TransferEvent::AllConfirmed { file_id: f }) && f
                        == file_id
                } else {
                    r matches ReceivedAction::Emit(TransferEvent::PeerConfirmed { file_id: f, peer_id: p })
                        && f == file_id && p == peer_id
                }
            },
            old(self).transfers().contains_key(file_id) && !hash_ok ==> {
                let t = old(self).transfers()[file_id];
                &&& final(self).transfers() == old(self).transfers().insert(file_id, fail_spec(t, peer_id))
                &&& if next_retry(t, peer_id) < MAX_RETRIES {
                    r is Resend
                } else {
                    r matches ReceivedAction::Emit(TransferEvent::PeerFailed { file_id: f, peer_id: p })
                        && f == file_id && p == peer_id
                }
            },
    {
        let mut state = match self.active_transfers.remove(&file_id) {
            Some(s) => s,
            None => {
                assert(self.active_transfers@ =~= old(self).active_transfers@);
                return ReceivedAction::Ignore;
            },
        };
        let ghost t0 = state.view();
        assert(t0 == old(self).transfers()[file_id]);
        let action;
        if hash_ok {
            state.peers_pending.remove(&peer_id);
            state.peers_confirmed.insert(peer_id);
            if state.peers_pending.is_empty() && state.peers_failed.is_empty() {
                action = ReceivedAction::Emit(TransferEvent::AllConfirmed { file_id });
            } else {
                action = ReceivedAction::Emit(TransferEvent::PeerConfirmed { file_id, peer_id });
            }
            assert(state.view() =~= confirm_spec(t0, peer_id));
        } else {
            let prev: u8 = match state.retry_counts.get(&peer_id) {
                Some(c) => *c,
                None => 0,
            };
            let count = prev.saturating_add(1);
            state.retry_counts.insert(peer_id, count);
            if count < MAX_RETRIES {
                action = ReceivedAction::Resend;
            } else {
                state.peers_pending.remove(&peer_id);
                state.peers_failed.insert(peer_id);
                action = ReceivedAction::Emit(TransferEvent::PeerFailed { file_id, peer_id });
            }
            assert(state.view() =~= fail_spec(t0, peer_id));
        }
        let ghost v = state.view();
        self.active_transfers.insert(file_id, state);
        assert(self.transfers() =~= old(self).transfers().insert(file_id, v));
        action
    }

    /// Whether every peer of the transfer confirmed receipt (none pending,
    /// none failed). `false` for unknown files.
    pub fn is_all_ready(&self, file_id: u128) -> (r: bool)
        ensures
            r == (self.transfers().contains_key(file_id) && self.transfers()[file_id].pending.is_empty()
                && self.transfers()[file_id].failed.is_empty()),
    {
        match self.active_transfers.get(&file_id) {
            Some(state) => state.peers_pending.is_empty() && state.peers_failed.is_empty(),
            None => false,
        }
    }

    /// Stop waiting for a peer in every active transfer (e.g. on
    /// disconnect).
    pub fn cancel_peer(&mut self, peer_id: u32)
        ensures
            final(self).transfers().dom() == old(self).transfers().dom(),
            forall|f: u128|
                #![trigger final(self).transfers()[f]]
                old(self).transfers().contains_key(f) ==> final(self).transfers()[f] == (TransferView {
                    pending: old(self).transfers()[f].pending.remove(peer_id),
                    ..old(self).transfers()[f]
                }),
    {
        let ids = self.file_ids();
        let n = ids.len();
        let mut i: usize = 0;
        while i < n
            invariant
                n == ids@.len(),
                i <= n,
                ids@.to_set() == old(self).transfers().dom(),
                ids@.no_duplicates(),
                self.transfers().dom() == old(self).transfers().dom(),
                forall|j: int|
                    0 <= j < i ==> self.transfers()[#[trigger] ids@[j]] == (TransferView {
                        pending: old(self).transfers()[ids@[j]].pending.remove(peer_id),
                        ..old(self).transfers()[ids@[j]]
                    }),
                forall|j: int|
                    i <= j < n ==> self.transfers()[#[trigger] ids@[j]] == old(self).transfers()[ids@[j]],
            decreases n - i,
        {
            let f = ids[i];
            assert(ids@.to_set().contains(f));
            let mut state = self.active_transfers.remove(&f).unwrap();
            state.peers_pending.remove(&peer_id);
            let ghost v = state.view();
            let ghost before = self.transfers();
            self.active_transfers.insert(f, state);
            assert(self.transfers() =~= before.insert(f, v));
            i = i + 1;
        }
        assert forall|f: u128| #![trigger final(self).transfers()[f]]
            old(self).transfers().contains_key(f) implies self.transfers()[f] == (TransferView {
                pending: old(self).transfers()[f].pending.remove(peer_id),
                ..old(self).transfers()[f]
            }) by {
            assert(ids@.to_set().contains(f));
            let j = choose|j: int| 0 <= j < n && ids@[j] == f;
            assert(self.transfers()[ids@[j]] == self.transfers()[f]);
        }
    }

    /// The file ids of the active transfers, each once.
    fn file_ids(&self) -> (r: Vec<u128>)
        ensures
            r@.to_set() == self.transfers().dom(),
            r@.no_duplicates(),
    {
        let mut out: Vec<u128> = Vec::new();
        let ghost v = spec_hash_map_iter(&self.active_transfers).remaining();
        for kv in it: self.active_transfers.iter()
            invariant
                out@.len() == it.index(),
                it.seq() == v,
                forall|j: int| 0 <= j < out@.len() ==> out@[j] == *it.seq()[j].0,
        {
            out.push(*kv.0);
        }
        proof {
            let m = self.active_transfers@;
            assert forall|k: u128| out@.to_set().contains(k) <==> self.transfers().dom().contains(k) by {
                if m.contains_key(k) {
                    assert(v.contains((&k, &m[k])));
                    let i = choose|i: int| 0 <= i < v.len() && v[i] == (&k, &m[k]);
                    assert(out@[i] == k);
                }
                if out@.contains(k) {
                    let i = choose|i: int| 0 <= i < out@.len() && out@[i] == k;
                    assert(m.contains_key(*v[i].0));
                }
            }
            assert(out@.to_set() =~= self.transfers().dom());
            assert forall|i: int, j: int| 0 <= i < out@.len() && 0 <= j < out@.len() && i != j implies out@[i]
                != out@[j] by {
                if out@[i] == out@[j] {
                    assert(m[*v[i].0] == *v[i].1);
                    assert(m[*v[j].0] == *v[j].1);
                    assert(v[i] == v[j]);
                }
            }
        }
        out
    }

    /// Numbers of peers confirmed, pending and failed in a transfer; the
    /// fraction sent is confirmed out of their sum.
    pub fn send_progress(&self, file_id: u128) -> (r: Option<(usize, usize, usize)>)
        ensures
            match r {
                None => !self.transfers().contains_key(file_id),
                Some((c, p, f)) => self.transfers().contains_key(file_id) && c
                    == self.transfers()[file_id].confirmed.len() && p == self.transfers()[file_id].pending.len()
                    && f == self.transfers()[file_id].failed.len(),
            },
    {
        match self.active_transfers.get(&file_id) {
            None => None,
            Some(state) => Some(
                (state.peers_confirmed.len(), state.peers_pending.len(), state.peers_failed.len()),
            ),
        }
    }

    /// Drop a finished transfer and its data.
    pub fn remove_transfer(&mut self, file_id: u128)
        ensures
            final(self).transfers() == old(self).transfers().remove(file_id),
    {
        self.active_transfers.remove(&file_id);
        assert(self.transfers() =~= old(self).transfers().remove(file_id));
    }
}

/// `m` is the chunk message of `file_id` carrying bytes `[i * CHUNK_SIZE,
/// min((i + 1) * CHUNK_SIZE, len))` of `data` at that offset.
pub open spec fn is_chunk_message(m: Message, file_id: u128, data: Seq<u8>, i: int) -> bool {
    let off = i * CHUNK_SIZE;
    let end = if off + CHUNK_SIZE <= data.len() { off + CHUNK_SIZE } else { data.len() as int };
    m matches Message::FileChunk { file_id: f, offset, data: d } && f == file_id && offset == off
        && d@ == data.subrange(off, end)
}

/// `msgs` deliver the file `data` named `name` with digest `sha256` under
/// `file_id`: the start message, then one chunk message per `CHUNK_SIZE`
/// bytes, in order.
pub open spec fn delivers(msgs: Seq<Message>, file_id: u128, name: Seq<char>, data: Seq<u8>, sha256: Seq<u8>) -> bool {
    &&& msgs.len() == 1 + chunk_count(data.len(), CHUNK_SIZE as nat)
    &&& msgs[0] matches Message::FileTransferStart { file_id: f, file_name: n, size, sha256: h } && f
        == file_id && n@ == name && size == data.len() && h@ == sha256
    &&& forall|i: int| 0 <= i < msgs.len() - 1 ==> is_chunk_message(#[trigger] msgs[i + 1], file_id, data, i)
}

/// The messages that send a file: its start message, then one chunk
/// message per `CHUNK_SIZE` bytes with its offset.
pub fn transfer_messages(file_id: u128, file_name: &String, data: &Vec<u8>, sha256: [u8; 32]) -> (r:
    Vec<Message>)
    ensures
        r@.len() == 1 + chunk_count(data@.len(), CHUNK_SIZE as nat),
        r@[0] matches Message::FileTransferStart { file_id: f, file_name: n, size, sha256: h } && f
            == file_id && n@ == file_name@ && size == data@.len() && h == sha256,
        forall|i: int| 0 <= i < r@.len() - 1 ==> is_chunk_message(#[trigger] r@[i + 1], file_id, data@, i),
        delivers(r@, file_id, file_name@, data@, sha256@),
{
    let mut out: Vec<Message> = Vec::new();
    out.push(
        Message::FileTransferStart {
            file_id,
            file_name: file_name.clone(),
            size: data.len() as u64,
            sha256,
        },
    );
    let mut chunks = split_chunks(data.as_slice(), CHUNK_SIZE);
    let ghost cv = chunks@.map_values(|c: (u64, Vec<u8>)| (c.0, c.1@));
    let ghost c0 = chunks@;
    let n = chunks.len();
    let mut i: usize = 0;
    while i < n
        invariant
            n == c0.len(),
            cv == c0.map_values(|c: (u64, Vec<u8>)| (c.0, c.1@)),
            is_chunking(data@, CHUNK_SIZE as nat, cv),
            i <= n,
            chunks@ == c0.skip(i as int),
            out@.len() == 1 + i,
            out@[0] matches Message::FileTransferStart { file_id: f, file_name: nm, size, sha256: h } && f
                == file_id && nm@ == file_name@ && size == data@.len() && h == sha256,
            forall|k: int| 0 <= k < i ==> is_chunk_message(#[trigger] out@[k + 1], file_id, data@, k),
        decreases n - i,
    {
        let (offset, piece) = chunks.remove(0);
        assert(cv[i as int] == (offset, piece@));
        let ghost before = out@;
        out.push(Message::FileChunk { file_id, offset, data: piece });
        assert(chunks@ =~= c0.skip(i + 1));
        assert forall|k: int| 0 <= k < i + 1 implies is_chunk_message(#[trigger] out@[k + 1], file_id, data@, k) by {
            if k < i {
                assert(out@[k + 1] == before[k + 1]);
            }
        }
        i = i + 1;
    }
    out
}

// ── Peer side ───────────────────────────────────────────────────────────────

/// State of one incoming file.
struct IncomingFile {
    file_id: u128,
    file_name: String,
    expected_size: u64,
    expected_sha256: [u8; 32],
    data: Vec<u8>,
    bytes_received: u64,
}

/// Mathematical view of one incoming file.
pub struct IncomingView {
    pub file_name: Seq<char>,
    pub expected_size: u64,
    pub expected_sha256: Seq<u8>,
    pub data: Seq<u8>,
    pub bytes_received: u64,
}

impl IncomingFile {
    spec fn view(&self) -> IncomingView {
        IncomingView {
            file_name: self.file_name@,
            expected_size: self.expected_size,
            expected_sha256: self.expected_sha256@,
            data: self.data@,
            bytes_received: self.bytes_received,
        }
    }
}

/// Peer-side receiver: reassembles chunks and verifies integrity.
pub struct FileReceiver {
    incoming: HashMap<u128, IncomingFile>,
    completed_files: HashMap<u128, Vec<u8>>,
}

/// An incoming file's buffer has exactly its expected size.
pub open spec fn incoming_wf(v: IncomingView) -> bool {
    v.data.len() == v.expected_size
}

/// Incoming file after a chunk at `offset` is written.
pub open spec fn after_chunk(v: IncomingView, offset: int, chunk: Seq<u8>) -> IncomingView {
    IncomingView {
        data: write_at(v.data, offset, chunk),
        bytes_received: ((v.bytes_received + chunk.len()) % 0x1_0000_0000_0000_0000) as u64,
        ..v
    }
}

impl FileReceiver {
    /// Files being received, by id.
    pub closed spec fn incoming(&self) -> Map<u128, IncomingView> {
        self.incoming@.map_values(|f: IncomingFile| f.view())
    }

    /// Files received and verified, by id.
    pub closed spec fn completed(&self) -> Map<u128, Seq<u8>> {
        self.completed_files@.map_values(|d: Vec<u8>| d@)
    }

    /// Every incoming buffer has its expected size.
    pub open spec fn wf(&self) -> bool {
        forall|f: u128| #[trigger] self.incoming().contains_key(f) ==> incoming_wf(self.incoming()[f])
    }

    pub fn new() -> (r: Self)
        ensures
            r.wf(),
            r.incoming() == Map::<u128, IncomingView>::empty(),
            r.completed() == Map::<u128, Seq<u8>>::empty(),
    {
        let r = FileReceiver { incoming: HashMap::new(), completed_files: HashMap::new() };
        assert(r.incoming() =~= Map::<u128, IncomingView>::empty());
        assert(r.completed() =~= Map::<u128, Seq<u8>>::empty());
        r
    }

    /// Handle a `FileTransferStart`: ignored when the file is already
    /// complete; refused when empty or over `MAX_FILE_SIZE`; otherwise a
    /// zeroed buffer of the announced size is prepared.
    pub fn handle_transfer_start(
        &mut self,
        file_id: u128,
        file_name: String,
        size: u64,
        sha256: [u8; 32],
    ) -> (r: Result<(), TransferError>)
        requires
            old(self).wf(),
        ensures
            final(self).wf(),
            final(self).completed() == old(self).completed(),
            old(self).completed().contains_key(file_id) ==> r is Ok && final(self).incoming() == old(
                self,
            ).incoming(),
            !old(self).completed().contains_key(file_id) && size == 0 ==> (r matches Err(
                TransferError::FileEmpty,
            )) && final(self).incoming() == old(self).incoming(),
            !old(self).completed().contains_key(file_id) && size > MAX_FILE_SIZE ==> (r matches Err(
                TransferError::FileTooLarge(s),
            ) && s == size) && final(self).incoming() == old(self).incoming(),
            !old(self).completed().contains_key(file_id) && 0 < size <= MAX_FILE_SIZE ==> r is Ok
                && final(self).incoming() == old(self).incoming().insert(
                file_id,
                IncomingView {
                    file_name: file_name@,
                    expected_size: size,
                    expected_sha256: sha256@,
                    data: Seq::new(size as nat, |i: int| 0u8),
                    bytes_received: 0,
                },
            ),
    {
        if self.completed_files.contains_key(&file_id) {
            return Ok(());
        }
        if size == 0 {
            return Err(TransferError::FileEmpty);
        }
        if size > MAX_FILE_SIZE {
            return Err(TransferError::FileTooLarge(size));
        }
        let data = zeroed(size as usize);
        let f = IncomingFile {
            file_id,
            file_name,
            expected_size: size,
            expected_sha256: sha256,
            data,
            bytes_received: 0,
        };
        let ghost v = f.view();
        self.incoming.insert(file_id, f);
        assert(self.incoming() =~= old(self).incoming().insert(file_id, v));
        Ok(())
    }

    /// Handle a `FileChunk`.
    ///
    /// Unknown files and chunks that would overflow the buffer are ignored
    /// (`None`). Otherwise the chunk is written at `offset`; once at least
    /// the expected number of bytes has arrived, the digest is checked: a
    /// good file moves to the completed files and `FileReady` is returned,
    /// a bad one is dropped and `FileCorrupted` is returned, each with the
    /// `FileReceived` message to send back.
    pub fn handle_chunk(&mut self, file_id: u128, offset: u64, chunk_data: &[u8]) -> (r: Option<
        (TransferEvent, Message),
    >)
        requires
            old(self).wf(),
        ensures
            final(self).wf(),
            !old(self).incoming().contains_key(file_id) ==> r is None && final(self).incoming()
                == old(self).incoming() && final(self).completed() == old(self).completed(),
            old(self).incoming().contains_key(file_id) ==> {
                let v = old(self).incoming()[file_id];
                let v2 = after_chunk(v, offset as int, chunk_data@);
                if offset + chunk_data@.len() > v.data.len() {
                    r is None && final(self).incoming() == old(self).incoming() && final(self).completed()
                        == old(self).completed()
                } else if v2.bytes_received < v2.expected_size {
                    r is None && final(self).incoming() == old(self).incoming().insert(file_id, v2)
                        && final(self).completed() == old(self).completed()
                } else if sha256_of(v2.data) == v2.expected_sha256 {
                    &&& final(self).incoming() == old(self).incoming().remove(file_id)
                    &&& final(self).completed() == old(self).completed().insert(file_id, v2.data)
                    &&& r matches Some((TransferEvent::FileReady { file_id: f, file_name: n }, Message::FileReceived { file_id: g, hash_ok }))
                    &&& f == file_id && n@ == v2.file_name && g == file_id && hash_ok
                } else {
                    &&& final(self).incoming() == old(self).incoming().remove(file_id)
                    &&& final(self).completed() == old(self).completed()
                    &&& r matches Some((TransferEvent::FileCorrupted { file_id: f }, Message::FileReceived { file_id: g, hash_ok }))
                    &&& f == file_id && g == file_id && !hash_ok
                }
            },
    {
        let mut incoming = match self.incoming.remove(&file_id) {
            Some(f) => f,
            None => {
                assert(self.incoming() =~= old(self).incoming());
                return None;
            },
        };
        let ghost v = incoming.view();
        assert(v == old(self).incoming()[file_id]);
        let len = incoming.data.len();
        if offset > len as u64 || chunk_data.len() > len - offset as usize {
            self.incoming.insert(file_id, incoming);
            assert(self.incoming() =~= old(self).incoming());
            return None;
        }
        copy_into(&mut incoming.data, offset as usize, chunk_data);
        incoming.bytes_received = incoming.bytes_received.wrapping_add(chunk_data.len() as u64);
        assert(incoming.view() =~= after_chunk(v, offset as int, chunk_data@));
        if incoming.bytes_received >= incoming.expected_size {
            let actual = compute_sha256(incoming.data.as_slice());
            let hash_ok = digests_equal(&actual, &incoming.expected_sha256);
            assert(self.incoming() =~= old(self).incoming().remove(file_id));
            let response = Message::FileReceived { file_id, hash_ok };
            if hash_ok {
                let ghost d = incoming.data@;
                self.completed_files.insert(file_id, incoming.data);
                assert(self.completed() =~= old(self).completed().insert(file_id, d));
                Some((TransferEvent::FileReady { file_id, file_name: incoming.file_name }, response))
            } else {
                Some((TransferEvent::FileCorrupted { file_id }, response))
            }
        } else {
            let ghost v2 = incoming.view();
            self.incoming.insert(file_id, incoming);
            assert(self.incoming() =~= old(self).incoming().insert(file_id, v2));
            None
        }
    }

    /// Bytes received and bytes expected of an incoming file.
    pub fn receive_progress(&self, file_id: u128) -> (r: Option<(u64, u64)>)
        ensures
            match r {
                None => !self.incoming().contains_key(file_id),
                Some((done, total)) => self.incoming().contains_key(file_id) && done
                    == self.incoming()[file_id].bytes_received && total
                    == self.incoming()[file_id].expected_size,
            },
    {
        match self.incoming.get(&file_id) {
            None => None,
            Some(f) => Some((f.bytes_received, f.expected_size)),
        }
    }

    /// Number of files still being received.
    pub fn incoming_count(&self) -> (n: usize)
        ensures
            n == self.incoming().len(),
    {
        proof {
            assert(self.incoming().dom() =~= self.incoming@.dom());
        }
        self.incoming.len()
    }

    /// A completed file's data.
    pub fn get_file(&self, file_id: u128) -> (r: Option<&Vec<u8>>)
        ensures
            match r {
                None => !self.completed().contains_key(file_id),
                Some(d) => self.completed().contains_key(file_id) && d@ == self.completed()[file_id],
            },
    {
        self.completed_files.get(&file_id)
    }

    /// Whether a file has been received and verified.
    pub fn has_file(&self, file_id: u128) -> (r: bool)
        ensures
            r == self.completed().contains_key(file_id),
    {
        self.completed_files.contains_key(&file_id)
    }

    /// Whether a file is being received.
    pub fn is_receiving(&self, file_id: u128) -> (r: bool)
        ensures
            r == self.incoming().contains_key(file_id),
    {
        self.incoming.contains_key(&file_id)
    }

    /// Forget a completed file.
    pub fn remove_file(&mut self, file_id: u128)
        requires
            old(self).wf(),
        ensures
            final(self).wf(),
            final(self).incoming() == old(self).incoming(),
            final(self).completed() == old(self).completed().remove(file_id),
    {
        self.completed_files.remove(&file_id);
        assert(self.completed() =~= old(self).completed().remove(file_id));
        assert(self.incoming() =~= old(self).incoming());
    }
}

// ── Delivery law ───────────────────────────────────────────────────────────

/// The incoming file that `handle_transfer_start` prepares.
pub open spec fn fresh_incoming(file_name: Seq<char>, size: u64, sha256: Seq<u8>) -> IncomingView {
    IncomingView {
        file_name,
        expected_size: size,
        expected_sha256: sha256,
        data: Seq::new(size as nat, |i: int| 0u8),
        bytes_received: 0,
    }
}

/// Incoming file after the chunks `cs` are written in order.
pub open spec fn apply_incoming(v: IncomingView, cs: Seq<(u64, Seq<u8>)>) -> IncomingView
    decreases cs.len(),
{
    if cs.len() == 0 {
        v
    } else {
        let prev = apply_incoming(v, cs.drop_last());
        after_chunk(prev, cs.last().0 as int, cs.last().1)
    }
}

proof fn lemma_incoming_prefix(
    name: Seq<char>,
    sha: Seq<u8>,
    data: Seq<u8>,
    cs: Seq<(u64, Seq<u8>)>,
    k: int,
)
    requires
        data.len() <= MAX_FILE_SIZE,
        is_chunking(data, CHUNK_SIZE as nat, cs),
        0 <= k <= cs.len(),
    ensures
        ({
            let done = if k * CHUNK_SIZE <= data.len() {
                k * CHUNK_SIZE
            } else {
                data.len() as int
            };
            let v = apply_incoming(fresh_incoming(name, data.len() as u64, sha), cs.take(k));
            &&& v.data == data.take(done) + Seq::new((data.len() - done) as nat, |i: int| 0u8)
            &&& v.bytes_received == done
            &&& v.file_name == name
            &&& v.expected_size == data.len()
            &&& v.expected_sha256 == sha
        }),
    decreases k,
{
    let S = CHUNK_SIZE as int;
    let n = data.len() as int;
    if k == 0 {
        assert(cs.take(0) =~= Seq::<(u64, Seq<u8>)>::empty());
        assert(data.take(0) + Seq::new(n as nat, |i: int| 0u8) =~= Seq::new(n as nat, |i: int| 0u8));
    } else {
        lemma_incoming_prefix(name, sha, data, cs, k - 1);
        assert(cs.take(k).drop_last() =~= cs.take(k - 1));
        assert(cs.take(k).last() == cs[k - 1]);
        let off = (k - 1) * S;
        let end = if off + S <= n {
            off + S
        } else {
            n
        };
        assert(cs[k - 1].0 == off && cs[k - 1].1 == data.subrange(off, end));
        assert(off < n) by {
            assert(cs.len() == chunk_count(n as nat, S as nat));
            assert((n - 1) / S + 1 > k - 1);
            assert((k - 1) * S <= n - 1) by (nonlinear_arith)
                requires
                    (n - 1) / S >= k - 1,
                    S > 0,
                    k >= 1,
                    n >= 1,
            ;
        }
        assert(k * S == off + S) by (nonlinear_arith)
            requires
                off == (k - 1) * S,
        ;
        let prev = apply_incoming(fresh_incoming(name, data.len() as u64, sha), cs.take(k - 1));
        let zeros = Seq::new((n - off) as nat, |i: int| 0u8);
        assert(prev.data == data.take(off) + zeros);
        let chunk = data.subrange(off, end);
        let written = write_at(prev.data, off, chunk);
        assert(written =~= data.take(end) + Seq::new((n - end) as nat, |i: int| 0u8));
    }
}

/// Feeding a peer the chunks of a file in order, after the start message
/// that announced its size and digest, rebuilds the file: every chunk fits
/// the buffer, the file stays incoming until its last chunk, and after the
/// last chunk every byte has arrived, the buffer holds exactly the file,
/// and its digest is the digest of the file.
pub proof fn law_transfer_roundtrip(
    name: Seq<char>,
    data: Seq<u8>,
    cs: Seq<(u64, Seq<u8>)>,
)
    requires
        0 < data.len() <= MAX_FILE_SIZE,
        is_chunking(data, CHUNK_SIZE as nat, cs),
    ensures
        ({
            let start = fresh_incoming(name, data.len() as u64, sha256_of(data));
            let done = apply_incoming(start, cs);
            &&& forall|k: int|
                0 <= k < cs.len() ==> {
                    let v = #[trigger] apply_incoming(start, cs.take(k));
                    &&& cs[k].0 + cs[k].1.len() <= v.data.len()
                    &&& (k + 1 < cs.len() ==> apply_incoming(start, cs.take(k + 1)).bytes_received
                        < v.expected_size)
                }
            &&& done.data == data
            &&& done.bytes_received == data.len()
            &&& done.bytes_received >= done.expected_size
            &&& sha256_of(done.data) == done.expected_sha256
        }),
{
    let S = CHUNK_SIZE as int;
    let n = data.len() as int;
    let sha = sha256_of(data);
    let start = fresh_incoming(name, data.len() as u64, sha);
    assert forall|k: int| 0 <= k < cs.len() implies {
        let v = #[trigger] apply_incoming(start, cs.take(k));
        &&& cs[k].0 + cs[k].1.len() <= v.data.len()
        &&& (k + 1 < cs.len() ==> apply_incoming(start, cs.take(k + 1)).bytes_received
            < v.expected_size)
    } by {
        lemma_incoming_prefix(name, sha, data, cs, k);
        if k + 1 < cs.len() {
            lemma_incoming_prefix(name, sha, data, cs, k + 1);
            assert((k + 1) * S < n) by {
                assert(cs.len() == chunk_count(n as nat, S as nat));
                assert((n - 1) / S + 1 > k + 1);
                assert((k + 1) * S <= n - 1) by (nonlinear_arith)
                    requires
                        (n - 1) / S >= k + 1,
                        S > 0,
                        k >= 0,
                        n >= 1,
                ;
            }
        }
    }
    lemma_incoming_prefix(name, sha, data, cs, cs.len() as int);
    assert(cs.take(cs.len() as int) =~= cs);
    let c = cs.len() as int;
    assert(c * S >= n) by {
        assert(c == (n - 1) / S + 1);
        assert(((n - 1) / S + 1) * S >= n) by (nonlinear_arith)
            requires
                S > 0,
                n >= 1,
        ;
    }
    assert(data.take(n) + Seq::new(0, |i: int| 0u8) =~= data);
}

/// A good copy moves the peer from pending to confirmed: it is confirmed
/// and no longer pending afterwards, every other peer keeps its place,
/// and the failed peers stay as they were. A peer that was pending and not
/// yet confirmed adds one to the confirmed peers and takes one from the
/// pending ones, so their total is unchanged.
pub proof fn law_confirm_moves_peer(t: TransferView, peer: u32)
    ensures
        confirm_spec(t, peer).confirmed.contains(peer),
        !confirm_spec(t, peer).pending.contains(peer),
        confirm_spec(t, peer).failed == t.failed,
        forall|p: u32|
            p != peer ==> (confirm_spec(t, peer).pending.contains(p) == t.pending.contains(p) && confirm_spec(
                t,
                peer,
            ).confirmed.contains(p) == t.confirmed.contains(p)),
        t.pending.finite() && t.confirmed.finite() && t.pending.contains(peer) && !t.confirmed.contains(
            peer,
        ) ==> confirm_spec(t, peer).confirmed.len() == t.confirmed.len() + 1 && confirm_spec(
            t,
            peer,
        ).pending.len() + 1 == t.pending.len(),
{
}

} // verus!
