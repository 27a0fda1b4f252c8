//! Song requests from peers, handled on the host.
//!
//! Lifecycle: a request arrives (`receive_request`) and waits; the host
//! accepts or rejects it; an accepted request becomes an upload that
//! receives chunks (`receive_chunk`) and is finished by `complete_upload`,
//! which checks the SHA-256 digest.
use crate::bytes::{
    compute_sha256, copy_into, digests_equal, is_chunking, sha256_of, split_chunks, write_at, zeroed,
};
use crate::ids::new_random_id;
use std::collections::HashMap;
use vstd::prelude::*;
use vstd::std_specs::hash::spec_hash_map_iter;
use vstd::std_specs::iter::IteratorSpec;

verus! {

broadcast use vstd::std_specs::hash::group_hash_axioms;

/// Maximum file size: 50 MiB.
pub const MAX_FILE_SIZE: u64 = 50 * 1024 * 1024;

/// Chunk size used by peers when uploading: 64 KiB.
pub const UPLOAD_CHUNK_SIZE: usize = 64 * 1024;

/// A pending song request awaiting the host's decision.
#[derive(Debug, Clone)]
pub struct PendingRequest {
    pub request_id: u128,
    pub peer_id: u32,
    pub peer_name: String,
    pub file_name: String,
    pub file_size: u64,
}

/// Mathematical view of a pending request.
pub struct PendingView {
    pub request_id: u128,
    pub peer_id: u32,
    pub peer_name: Seq<char>,
    pub file_name: Seq<char>,
    pub file_size: u64,
}

impl View for PendingRequest {
    type V = PendingView;

    open spec fn view(&self) -> PendingView {
        PendingView {
            request_id: self.request_id,
            peer_id: self.peer_id,
            peer_name: self.peer_name@,
            file_name: self.file_name@,
            file_size: self.file_size,
        }
    }
}

impl PendingRequest {
    /// A copy of this request.
    pub fn duplicate(&self) -> (r: PendingRequest)
        ensures
            r@ == self@,
    {
        PendingRequest {
            request_id: self.request_id,
            peer_id: self.peer_id,
            peer_name: self.peer_name.clone(),
            file_name: self.file_name.clone(),
            file_size: self.file_size,
        }
    }
}

/// An upload in progress.
struct IncomingUpload {
    request_id: u128,
    file_name: String,
    peer_id: u32,
    expected_size: u64,
    data: Vec<u8>,
    bytes_received: u64,
}

/// Mathematical view of an upload in progress.
pub struct UploadView {
    pub file_name: Seq<char>,
    pub peer_id: u32,
    pub expected_size: u64,
    pub data: Seq<u8>,
    pub bytes_received: u64,
}

impl IncomingUpload {
    spec fn view(&self) -> UploadView {
        UploadView {
            file_name: self.file_name@,
            peer_id: self.peer_id,
            expected_size: self.expected_size,
            data: self.data@,
            bytes_received: self.bytes_received,
        }
    }
}

/// Result of completing an upload.
#[derive(Debug)]
pub enum UploadResult {
    /// File received with a matching digest, ready for queueing.
    Success { request_id: u128, file_name: String, peer_id: u32, file_data: Vec<u8> },
    /// The digest does not match: the file is corrupt.
    HashMismatch { request_id: u128 },
}

/// Reason a request was refused without asking the host.
#[derive(Debug, Clone, Copy, PartialEq, Eq, Structural)]
pub enum AutoRejectReason {
    FileTooLarge(u64),
}

/// Index of the first pending request with id `id`, if any.
pub open spec fn first_request_index(p: Seq<PendingView>, id: u128) -> Option<int> {
    if exists|i: int|
        0 <= i < p.len() && p[i].request_id == id && forall|j: int| 0 <= j < i ==> p[j].request_id != id {
        Some(
            choose|i: int|
                0 <= i < p.len() && p[i].request_id == id && forall|j: int|
                    0 <= j < i ==> p[j].request_id != id,
        )
    } else {
        None
    }
}

proof fn lemma_first_request_index(p: Seq<PendingView>, id: u128, i: int)
    requires
        0 <= i <= p.len(),
        i < p.len() ==> p[i].request_id == id,
        forall|j: int| 0 <= j < i ==> p[j].request_id != id,
    ensures
        first_request_index(p, id) == if i < p.len() { Some(i) } else { None::<int> },
{
    if i < p.len() {
        let k = choose|k: int|
            0 <= k < p.len() && p[k].request_id == id && forall|j: int| 0 <= j < k ==> p[j].request_id != id;
        if k < i {
            assert(p[k].request_id != id);
        }
        if i < k {
            assert(p[i].request_id != id);
        }
    }
}

/// The fresh upload state for an accepted request.
pub open spec fn upload_for(r: PendingView) -> UploadView {
    UploadView {
        file_name: r.file_name,
        peer_id: r.peer_id,
        expected_size: r.file_size,
        data: Seq::new(r.file_size as nat, |i: int| 0u8),
        bytes_received: 0,
    }
}

/// Upload state after a chunk is written at `offset`.
pub open spec fn upload_after_chunk(u: UploadView, offset: int, chunk: Seq<u8>) -> UploadView {
    UploadView {
        data: write_at(u.data, offset, chunk),
        bytes_received: ((u.bytes_received + chunk.len()) % 0x1_0000_0000_0000_0000) as u64,
        ..u
    }
}

/// Every pending request is within the size limit.
pub open spec fn pending_wf(p: Seq<PendingView>) -> bool {
    forall|i: int| 0 <= i < p.len() ==> #[trigger] p[i].file_size <= MAX_FILE_SIZE
}

/// Every upload buffer has its expected size.
pub open spec fn uploads_wf(u: Map<u128, UploadView>) -> bool {
    forall|k: u128| #[trigger] u.contains_key(k) ==> u[k].data.len() == u[k].expected_size
}

/// Host-side manager of song requests and uploads.
pub struct SongRequestManager {
    pending_requests: Vec<PendingRequest>,
    active_uploads: HashMap<u128, IncomingUpload>,
}

impl SongRequestManager {
    /// The pending requests, oldest first.
    pub closed spec fn pending(&self) -> Seq<PendingView> {
        self.pending_requests@.map_values(|r: PendingRequest| r@)
    }

    /// The uploads in progress, by request id.
    pub closed spec fn uploads(&self) -> Map<u128, UploadView> {
        self.active_uploads@.map_values(|u: IncomingUpload| u.view())
    }

    /// Pending requests are within the size limit; every upload buffer has
    /// its expected size.
    pub open spec fn wf(&self) -> bool {
        pending_wf(self.pending()) && uploads_wf(self.uploads())
    }

    pub fn new() -> (m: Self)
        ensures
            m.wf(),
            m.pending() == Seq::<PendingView>::empty(),
            m.uploads() == Map::<u128, UploadView>::empty(),
    {
        let m = SongRequestManager { pending_requests: Vec::new(), active_uploads: HashMap::new() };
        assert(m.pending() =~= Seq::<PendingView>::empty());
        assert(m.uploads() =~= Map::<u128, UploadView>::empty());
        m
    }

    /// Reset to the initial empty state.
    pub fn clear(&mut self)
        ensures
            final(self).wf(),
            final(self).pending() == Seq::<PendingView>::empty(),
            final(self).uploads() == Map::<u128, UploadView>::empty(),
    {
        self.pending_requests.clear();
        self.active_uploads.clear();
        assert(self.pending() =~= Seq::<PendingView>::empty());
        assert(self.uploads() =~= Map::<u128, UploadView>::empty());
    }

    /// A `SongRequest` arrived: files over `MAX_FILE_SIZE` are refused;
    /// otherwise the request is stored under a fresh id and returned.
    pub fn receive_request(&mut self, peer_id: u32, peer_name: String, file_name: String, file_size: u64) -> (r:
        Result<PendingRequest, AutoRejectReason>)
        requires
            old(self).wf(),
        ensures
            final(self).wf(),
            final(self).uploads() == old(self).uploads(),
            file_size > MAX_FILE_SIZE ==> r == Err::<PendingRequest, AutoRejectReason>(
                AutoRejectReason::FileTooLarge(file_size),
            ) && final(self).pending() == old(self).pending(),
            file_size <= MAX_FILE_SIZE ==> (r matches Ok(req) && req.peer_id == peer_id && req.peer_name@
                == peer_name@ && req.file_name@ == file_name@ && req.file_size == file_size
                && final(self).pending() == old(self).pending().push(req@)),
    {
        if file_size > MAX_FILE_SIZE {
            return Err(AutoRejectReason::FileTooLarge(file_size));
        }
        let request_id = new_random_id();
        let req = PendingRequest { request_id, peer_id, peer_name, file_name, file_size };
        let copy = req.duplicate();
        self.pending_requests.push(copy);
        assert(self.pending() =~= old(self).pending().push(req@));
        assert forall|i: int| 0 <= i < self.pending().len() implies #[trigger] self.pending()[i].file_size
            <= MAX_FILE_SIZE by {
            if i < old(self).pending().len() {
                assert(self.pending()[i] == old(self).pending()[i]);
            }
        }
        Ok(req)
    }

    /// Position of the first pending request with `request_id`.
    fn position(&self, request_id: u128) -> (r: Option<usize>)
        ensures
            match r {
                Some(i) => first_request_index(self.pending(), request_id) == Some(i as int),
                None => first_request_index(self.pending(), request_id) == None::<int>,
            },
    {
        let n = self.pending_requests.len();
        let mut i: usize = 0;
        while i < n
            invariant
                n == self.pending_requests@.len(),
                i <= n,
                forall|j: int| 0 <= j < i ==> self.pending()[j].request_id != request_id,
            decreases n - i,
        {
            if self.pending_requests[i].request_id == request_id {
                proof {
                    lemma_first_request_index(self.pending(), request_id, i as int);
                }
                return Some(i);
            }
            i = i + 1;
        }
        proof {
            lemma_first_request_index(self.pending(), request_id, n as int);
        }
        None
    }

    /// Accept a pending request: it leaves the pending list and an empty
    /// upload of its size starts. `None` (no change) for unknown ids.
    pub fn accept(&mut self, request_id: u128) -> (r: Option<PendingRequest>)
        requires
            old(self).wf(),
        ensures
            final(self).wf(),
            match first_request_index(old(self).pending(), request_id) {
                None => r is None && final(self).pending() == old(self).pending() && final(self).uploads()
                    == old(self).uploads(),
                Some(i) => r matches Some(req) && req@ == old(self).pending()[i] && final(self).pending()
                    == old(self).pending().remove(i) && final(self).uploads() == old(self).uploads().insert(
                    request_id,
                    upload_for(old(self).pending()[i]),
                ),
            },
    {
        let pos = match self.position(request_id) {
            Some(p) => p,
            None => {
                return None;
            },
        };
        let ghost p0 = self.pending();
        let req = self.pending_requests.remove(pos);
        assert(self.pending() =~= p0.remove(pos as int));
        assert(req@ == p0[pos as int]);
        assert(p0[pos as int].file_size <= MAX_FILE_SIZE);
        assert forall|i: int| 0 <= i < self.pending().len() implies #[trigger] self.pending()[i].file_size
            <= MAX_FILE_SIZE by {
            if i < pos {
                assert(self.pending()[i] == p0[i]);
            } else {
                assert(self.pending()[i] == p0[i + 1]);
            }
        }
        let upload = IncomingUpload {
            request_id,
            file_name: req.file_name.clone(),
            peer_id: req.peer_id,
            expected_size: req.file_size,
            data: zeroed(req.file_size as usize),
            bytes_received: 0,
        };
        let ghost uv = upload.view();
        assert(uv == upload_for(req@));
        self.active_uploads.insert(request_id, upload);
        assert(self.uploads() =~= old(self).uploads().insert(request_id, uv));
        assert forall|k: u128| #[trigger] self.uploads().contains_key(k) implies self.uploads()[k].data.len()
            == self.uploads()[k].expected_size by {
            if k != request_id {
                assert(old(self).uploads().contains_key(k));
            }
        }
        Some(req)
    }

    /// Reject a pending request; returns it, or `None` for unknown ids.
    pub fn reject(&mut self, request_id: u128) -> (r: Option<PendingRequest>)
        requires
            old(self).wf(),
        ensures
            final(self).wf(),
            final(self).uploads() == old(self).uploads(),
            match first_request_index(old(self).pending(), request_id) {
                None => r is None && final(self).pending() == old(self).pending(),
                Some(i) => r matches Some(req) && req@ == old(self).pending()[i] && final(self).pending()
                    == old(self).pending().remove(i),
            },
    {
        let pos = match self.position(request_id) {
            Some(p) => p,
            None => {
                return None;
            },
        };
        let ghost p0 = self.pending();
        let req = self.pending_requests.remove(pos);
        assert(self.pending() =~= p0.remove(pos as int));
        assert forall|i: int| 0 <= i < self.pending().len() implies #[trigger] self.pending()[i].file_size
            <= MAX_FILE_SIZE by {
            if i < pos {
                assert(self.pending()[i] == p0[i]);
            } else {
                assert(self.pending()[i] == p0[i + 1]);
            }
        }
        Some(req)
    }

    /// Receive a chunk of an upload. Returns `false` (no change) for
    /// unknown uploads and for chunks that would overflow the file.
    pub fn receive_chunk(&mut self, request_id: u128, offset: u64, data: &[u8]) -> (ok: bool)
        requires
            old(self).wf(),
        ensures
            final(self).wf(),
            final(self).pending() == old(self).pending(),
            ok == (old(self).uploads().contains_key(request_id) && offset + data@.len()
                <= old(self).uploads()[request_id].data.len()),
            ok ==> final(self).uploads() == old(self).uploads().insert(
                request_id,
                upload_after_chunk(old(self).uploads()[request_id], offset as int, data@),
            ),
            !ok ==> final(self).uploads() == old(self).uploads(),
    {
        let mut upload = match self.active_uploads.remove(&request_id) {
            Some(u) => u,
            None => {
                assert(self.uploads() =~= old(self).uploads());
                assert(self.uploads() == old(self).uploads());
                return false;
            },
        };
        let ghost u0 = upload.view();
        assert(u0 == old(self).uploads()[request_id]);
        let len = upload.data.len();
        if offset > len as u64 || data.len() > len - offset as usize {
            self.active_uploads.insert(request_id, upload);
            assert(self.uploads() =~= old(self).uploads());
            assert(self.uploads() == old(self).uploads());
            return false;
        }
        copy_into(&mut upload.data, offset as usize, data);
        upload.bytes_received = upload.bytes_received.wrapping_add(data.len() as u64);
        let ghost u1 = upload.view();
        assert(u1 =~= upload_after_chunk(u0, offset as int, data@));
        self.active_uploads.insert(request_id, upload);
        assert(self.uploads() =~= old(self).uploads().insert(request_id, u1));
        assert forall|k: u128| #[trigger] self.uploads().contains_key(k) implies self.uploads()[k].data.len()
            == self.uploads()[k].expected_size by {
            if k != request_id {
                assert(old(self).uploads().contains_key(k));
            }
        }
        true
    }

    /// Finish an upload: it is removed, and its digest compared with
    /// `expected_sha256`. `None` for unknown uploads.
    pub fn complete_upload(&mut self, request_id: u128, expected_sha256: [u8; 32]) -> (r: Option<UploadResult>)
        requires
            old(self).wf(),
        ensures
            final(self).wf(),
            final(self).pending() == old(self).pending(),
            final(self).uploads() == old(self).uploads().remove(request_id),
            !old(self).uploads().contains_key(request_id) ==> r is None,
            old(self).uploads().contains_key(request_id) ==> {
                let u = old(self).uploads()[request_id];
                if sha256_of(u.data) == expected_sha256@ {
                    r matches Some(UploadResult::Success { request_id: id, file_name, peer_id, file_data })
                        && id == request_id && file_name@ == u.file_name && peer_id == u.peer_id && file_data@
                        == u.data
                } else {
                    r matches Some(UploadResult::HashMismatch { request_id: id }) && id == request_id
                }
            },
    {
        let upload = match self.active_uploads.remove(&request_id) {
            Some(u) => u,
            None => {
                assert(self.uploads() =~= old(self).uploads().remove(request_id));
                assert(self.uploads() =~= old(self).uploads());
                return None;
            },
        };
        assert(self.uploads() =~= old(self).uploads().remove(request_id));
        assert forall|k: u128| #[trigger] self.uploads().contains_key(k) implies self.uploads()[k].data.len()
            == self.uploads()[k].expected_size by {
            assert(old(self).uploads().contains_key(k));
        }
        let actual = compute_sha256(upload.data.as_slice());
        if digests_equal(&actual, &expected_sha256) {
            Some(
                UploadResult::Success {
                    request_id,
                    file_name: upload.file_name,
                    peer_id: upload.peer_id,
                    file_data: upload.data,
                },
            )
        } else {
            Some(UploadResult::HashMismatch { request_id })
        }
    }

    /// The pending requests, oldest first.
    pub fn pending_requests(&self) -> (r: &[PendingRequest])
        ensures
            r@.map_values(|q: PendingRequest| q@) == self.pending(),
    {
        self.pending_requests.as_slice()
    }

    /// Bytes received and bytes expected of an upload.
    pub fn upload_progress(&self, request_id: u128) -> (r: Option<(u64, u64)>)
        ensures
            match r {
                None => !self.uploads().contains_key(request_id),
                Some((done, total)) => self.uploads().contains_key(request_id) && done
                    == self.uploads()[request_id].bytes_received && total
                    == self.uploads()[request_id].expected_size,
            },
    {
        match self.active_uploads.get(&request_id) {
            None => None,
            Some(u) => Some((u.bytes_received, u.expected_size)),
        }
    }

    /// Whether an upload is in progress for `request_id`.
    pub fn has_active_upload(&self, request_id: u128) -> (r: bool)
        ensures
            r == self.uploads().contains_key(request_id),
    {
        self.active_uploads.contains_key(&request_id)
    }

    /// Drop every pending request and upload of a peer (e.g. on
    /// disconnect).
    pub fn cancel_peer(&mut self, peer_id: u32)
        requires
            old(self).wf(),
        ensures
            final(self).wf(),
            final(self).pending() == old(self).pending().filter(|r: PendingView| r.peer_id != peer_id),
            final(self).uploads() == old(self).uploads().restrict(
                old(self).uploads().dom().filter(|k: u128| old(self).uploads()[k].peer_id != peer_id),
            ),
    {
        // Pending requests.
        let n = self.pending_requests.len();
        let ghost p0 = self.pending();
        let mut kept: Vec<PendingRequest> = Vec::new();
        let mut old_list: Vec<PendingRequest> = Vec::new();
        std::mem::swap(&mut old_list, &mut self.pending_requests);
        assert(old_list@.map_values(|r: PendingRequest| r@) == p0);
        let mut i: usize = 0;
        while i < n
            invariant
                n == old_list@.len(),
                old_list@.map_values(|r: PendingRequest| r@) == p0,
                i <= n,
                kept@.map_values(|r: PendingRequest| r@) == p0.take(i as int).filter(
                    |r: PendingView| r.peer_id != peer_id,
                ),
            decreases n - i,
        {
            let ghost before = kept@;
            assert(p0.take(i + 1).drop_last() =~= p0.take(i as int));
            reveal_with_fuel(Seq::<_>::filter, 1);
            if old_list[i].peer_id != peer_id {
                let c = old_list[i].duplicate();
                kept.push(c);
                assert(kept@.map_values(|r: PendingRequest| r@) =~= before.map_values(
                    |r: PendingRequest| r@,
                ).push(c@));
            }
            i = i + 1;
        }
        assert(p0.take(n as int) =~= p0);
        self.pending_requests = kept;
        // Uploads.
        let ids = self.upload_ids();
        let m = ids.len();
        let ghost u0 = self.uploads();
        let mut j: usize = 0;
        while j < m
            invariant
                m == ids@.len(),
                j <= m,
                ids@.to_set() == u0.dom(),
                ids@.no_duplicates(),
                self.pending() == p0.filter(|r: PendingView| r.peer_id != peer_id),
                self.uploads().dom().subset_of(u0.dom()),
                forall|k: u128| #[trigger] self.uploads().contains_key(k) ==> self.uploads()[k] == u0[k],
                forall|a: int| 0 <= a < j ==> (self.uploads().contains_key(#[trigger] ids@[a]) <==> u0[ids@[a]].peer_id != peer_id),
                forall|a: int| j <= a < m ==> self.uploads().contains_key(#[trigger] ids@[a]),
            decreases m - j,
        {
            let k = ids[j];
            assert(self.uploads().contains_key(ids@[j as int]));
            let belongs = match self.active_uploads.get(&k) {
                Some(u) => u.peer_id == peer_id,
                None => false,
            };
            if belongs {
                let ghost before = self.uploads();
                self.active_uploads.remove(&k);
                assert(self.uploads() =~= before.remove(k));
                assert forall|a: int| j < a < m implies self.uploads().contains_key(#[trigger] ids@[a]) by {
                    assert(ids@[a] != ids@[j as int]);
                }
                assert forall|a: int| 0 <= a < j implies (self.uploads().contains_key(#[trigger] ids@[a]) <==> u0[ids@[a]].peer_id != peer_id) by {
                    assert(ids@[a] != ids@[j as int]);
                }
            }
            j = j + 1;
        }
        proof {
            let target = u0.restrict(u0.dom().filter(|k: u128| u0[k].peer_id != peer_id));
            assert forall|k: u128| self.uploads().contains_key(k) <==> target.contains_key(k) by {
                if u0.contains_key(k) {
                    assert(ids@.to_set().contains(k));
                    let a = choose|a: int| 0 <= a < m && ids@[a] == k;
                    assert(self.uploads().contains_key(ids@[a]) <==> u0[ids@[a]].peer_id != peer_id);
                }
            }
            assert(self.uploads() =~= target);
            assert forall|k: u128| #[trigger] self.uploads().contains_key(k) implies self.uploads()[k].data.len()
                == self.uploads()[k].expected_size by {
                assert(u0.contains_key(k));
            }
            let pf = p0.filter(|r: PendingView| r.peer_id != peer_id);
            assert forall|i: int| 0 <= i < self.pending().len() implies #[trigger] self.pending()[i].file_size
                <= MAX_FILE_SIZE by {
                let x = self.pending()[i];
                assert(pf.contains(x));
                p0.lemma_filter_contains_rev(|r: PendingView| r.peer_id != peer_id, x);
                let k = choose|k: int| 0 <= k < p0.len() && p0[k] == x;
                assert(p0[k].file_size <= MAX_FILE_SIZE);
            }
        }
    }

    /// Ids of the uploads in progress, each once.
    fn upload_ids(&self) -> (r: Vec<u128>)
        ensures
            r@.to_set() == self.uploads().dom(),
            r@.no_duplicates(),
    {
        let mut out: Vec<u128> = Vec::new();
        let ghost v = spec_hash_map_iter(&self.active_uploads).remaining();
        for kv in it: self.active_uploads.iter()
            invariant
                out@.len() == it.index(),
                it.seq() == v,
                forall|j: int| 0 <= j < out@.len() ==> out@[j] == *it.seq()[j].0,
        {
            out.push(*kv.0);
        }
        proof {
            let m = self.active_uploads@;
            assert forall|k: u128| out@.to_set().contains(k) <==> self.uploads().dom().contains(k) by {
                if m.contains_key(k) {
                    assert(v.contains((&k, &m[k])));
                    let i = choose|i: int| 0 <= i < v.len() && v[i] == (&k, &m[k]);
                    assert(out@[i] == k);
                }
                if out@.contains(k) {
                    let i = choose|i: int| 0 <= i < out@.len() && out@[i] == k;
                    assert(m.contains_key(*v[i].0));
                }
            }
            assert(out@.to_set() =~= self.uploads().dom());
            assert forall|i: int, j: int|
                0 <= i < out@.len() && 0 <= j < out@.len() && i != j implies out@[i] != out@[j] by {
                if out@[i] == out@[j] {
                    assert(m[*v[i].0] == *v[i].1);
                    assert(m[*v[j].0] == *v[j].1);
                    assert(v[i] == v[j]);
                }
            }
        }
        out
    }
}

/// Split a file into upload chunks with their offsets, and compute its
/// SHA-256 digest. The caller sends each chunk as a `SongUploadChunk`.
pub fn prepare_upload(file_data: &[u8]) -> (r: (Vec<(u64, Vec<u8>)>, [u8; 32]))
    ensures
        is_chunking(file_data@, UPLOAD_CHUNK_SIZE as nat, r.0@.map_values(|c: (u64, Vec<u8>)| (c.0, c.1@))),
        r.1@ == sha256_of(file_data@),
{
    let sha256 = compute_sha256(file_data);
    let chunks = split_chunks(file_data, UPLOAD_CHUNK_SIZE);
    (chunks, sha256)
}

// ── Upload round trip ───────────────────────────────────────────────────────

/// Upload state after the chunks `cs` are written in order.
pub open spec fn apply_chunks(u: UploadView, cs: Seq<(u64, Seq<u8>)>) -> UploadView
    decreases cs.len(),
{
    if cs.len() == 0 {
        u
    } else {
        let prev = apply_chunks(u, cs.drop_last());
        upload_after_chunk(prev, cs.last().0 as int, cs.last().1)
    }
}

/// A chunk is accepted by an upload when it fits in its buffer.
pub open spec fn chunk_fits(u: UploadView, c: (u64, Seq<u8>)) -> bool {
    c.0 + c.1.len() <= u.data.len()
}

proof fn lemma_apply_prefix(r: PendingView, data: Seq<u8>, cs: Seq<(u64, Seq<u8>)>, k: int)
    requires
        r.file_size == data.len(),
        data.len() <= MAX_FILE_SIZE,
        is_chunking(data, UPLOAD_CHUNK_SIZE as nat, cs),
        0 <= k <= cs.len(),
    ensures
        ({
            let done = if k * UPLOAD_CHUNK_SIZE <= data.len() { k * UPLOAD_CHUNK_SIZE } else { data.len() as int };
            let u = apply_chunks(upload_for(r), cs.take(k));
            &&& u.data == data.take(done) + Seq::new((data.len() - done) as nat, |i: int| 0u8)
            &&& u.bytes_received == done
            &&& u.file_name == r.file_name
            &&& u.peer_id == r.peer_id
            &&& u.expected_size == r.file_size
        }),
    decreases k,
{
    let S = UPLOAD_CHUNK_SIZE as int;
    let n = data.len() as int;
    if k == 0 {
        assert(cs.take(0) =~= Seq::<(u64, Seq<u8>)>::empty());
        assert(data.take(0) + Seq::new(n as nat, |i: int| 0u8) =~= Seq::new(n as nat, |i: int| 0u8));
    } else {
        lemma_apply_prefix(r, data, cs, k - 1);
        assert(cs.take(k).drop_last() =~= cs.take(k - 1));
        assert(cs.take(k).last() == cs[k - 1]);
        let prev_done = if (k - 1) * S <= n { (k - 1) * S } else { n };
        let off = (k - 1) * S;
        let end = if off + S <= n { off + S } else { n };
        assert(cs[k - 1].0 == off && cs[k - 1].1 == data.subrange(off, end));
        // chunk k-1 starts inside the data
        assert(k - 1 < cs.len());
        assert(off < n) by {
            assert(cs.len() == crate::bytes::chunk_count(n as nat, S as nat));
            assert((n - 1) / S + 1 > k - 1);
            assert((k - 1) * S <= n - 1) by (nonlinear_arith)
                requires
                    (n - 1) / S >= k - 1,
                    S > 0,
                    k >= 1,
                    n >= 1,
            ;
        }
        assert(prev_done == off);
        assert(k * S == off + S) by (nonlinear_arith)
            requires
                off == (k - 1) * S,
        ;
        let done = if k * S <= n { k * S } else { n };
        assert(done == end);
        let prev = apply_chunks(upload_for(r), cs.take(k - 1));
        let zeros = Seq::new((n - off) as nat, |i: int| 0u8);
        assert(prev.data == data.take(off) + zeros);
        let chunk = data.subrange(off, end);
        let written = write_at(prev.data, off, chunk);
        assert(written =~= data.take(end) + Seq::new((n - end) as nat, |i: int| 0u8));
    }
}

/// Writing the chunks that `prepare_upload` produces, in order, into the
/// upload that `accept` starts fills it with exactly the file: every chunk
/// is accepted, every byte is counted, and the digest matches the one
/// that `prepare_upload` computed.
pub proof fn law_upload_roundtrip(r: PendingView, data: Seq<u8>, cs: Seq<(u64, Seq<u8>)>)
    requires
        r.file_size == data.len(),
        data.len() <= MAX_FILE_SIZE,
        is_chunking(data, UPLOAD_CHUNK_SIZE as nat, cs),
    ensures
        forall|k: int|
            0 <= k < cs.len() ==> chunk_fits(#[trigger] apply_chunks(upload_for(r), cs.take(k)), cs[k]),
        apply_chunks(upload_for(r), cs).data == data,
        apply_chunks(upload_for(r), cs).bytes_received == data.len(),
        apply_chunks(upload_for(r), cs).bytes_received >= apply_chunks(upload_for(r), cs).expected_size,
        sha256_of(apply_chunks(upload_for(r), cs).data) == sha256_of(data),
{
    let S = UPLOAD_CHUNK_SIZE as int;
    let n = data.len() as int;
    assert forall|k: int| 0 <= k < cs.len() implies chunk_fits(
        #[trigger] apply_chunks(upload_for(r), cs.take(k)),
        cs[k],
    ) by {
        lemma_apply_prefix(r, data, cs, k);
    }
    lemma_apply_prefix(r, data, cs, cs.len() as int);
    assert(cs.take(cs.len() as int) =~= cs);
    let c = cs.len() as int;
    assert(c * S >= n) by {
        if n > 0 {
            assert(c == (n - 1) / S + 1);
            assert(((n - 1) / S + 1) * S >= n) by (nonlinear_arith)
                requires
                    S > 0,
                    n >= 1,
            ;
        }
    }
    assert(data.take(n) + Seq::new(0, |i: int| 0u8) =~= data);
}

} // verus!
