//! What the host does with each session event: departures cancel a peer's
//! transfers and requests, song requests and uploads go to the request
//! manager, and delivery reports go to the transfer manager. The caller
//! receives the events and carries out the returned action; this module
//! decides.
use crate::bytes::sha256_of;
use crate::control::{ids_not_in, TRANSFER_WINDOW};
use crate::queue::{upcoming_spec, QueueManager};
use crate::file_transfer::{
    confirm_spec, fail_spec, next_retry, FileTransferManager, ReceivedAction, TransferEvent, TransferView,
    MAX_RETRIES,
};
use crate::messages::Message;
use crate::names::decimal;
use crate::session::{PeerRoster, SessionEvent};
use crate::song_request::{
    upload_after_chunk, AutoRejectReason, PendingRequest, PendingView, SongRequestManager, UploadResult,
    UploadView, MAX_FILE_SIZE,
};
use vstd::prelude::*;

verus! {

/// What the caller does after a session event on the host.
#[derive(Debug)]
pub enum HostAction {
    /// Nothing to do.
    Nothing,
    /// A song request is waiting for the host's answer.
    NewRequest(PendingRequest),
    /// A song request was refused without asking the host.
    RequestRefused(AutoRejectReason),
    /// An upload chunk did not fit its upload and was dropped.
    ChunkRefused,
    /// An upload arrived intact: decode it and queue it.
    UploadVerified { request_id: u128, file_name: String, peer_id: u32, file_data: Vec<u8> },
    /// An upload arrived corrupt.
    UploadCorrupt { request_id: u128 },
    /// An upload completion named no active upload.
    UnknownUpload,
    /// What the transfer manager asks after a delivery report.
    Transfer(ReceivedAction),
    /// Send these files of the queue to the peer, which lacks them.
    SendFiles { peer_id: u32, file_ids: Vec<u128> },
}

/// The name under which `peer_id` is shown: its display name, or "Peer
/// <id>" for a peer that is not in the roster.
pub open spec fn shown_name(roster: Map<u32, crate::session::PeerEntry>, peer_id: u32) -> Seq<char> {
    if roster.contains_key(peer_id) {
        roster[peer_id].display_name
    } else {
        "Peer "@ + decimal(peer_id as nat)
    }
}

/// The host's bookkeeping of song requests and file transfers.
pub struct HostSync {
    pub song_requests: SongRequestManager,
    pub transfers: FileTransferManager,
}

impl HostSync {
    /// No requests and no transfers.
    pub fn new() -> (h: Self)
        ensures
            h.song_requests.wf(),
            h.song_requests.pending() == Seq::<PendingView>::empty(),
            h.song_requests.uploads() == Map::<u128, UploadView>::empty(),
            h.transfers.transfers() == Map::<u128, TransferView>::empty(),
    {
        HostSync { song_requests: SongRequestManager::new(), transfers: FileTransferManager::new() }
    }

    /// Handle one session event; `roster` gives the peers' names and
    /// `queue` the host's queue.
    ///
    /// - `PeerLeft` cancels the peer's transfers and its song requests.
    /// - A `SongRequest` is stored (or refused when too large), under the
    ///   peer's shown name.
    /// - `SongUploadChunk` and `SongUploadComplete` go to the request
    ///   manager; a verified upload is handed back to be decoded and queued.
    /// - `FileReceived` goes to the transfer manager.
    /// - A `FileCacheReport` names the files the peer holds: the files of
    ///   the transfer window (the current track and the ones after it,
    ///   `TRANSFER_WINDOW` in all) that it lacks are to be sent to it.
    /// - Everything else changes nothing.
    pub fn on_peer_event(&mut self, event: SessionEvent, roster: &PeerRoster, queue: &QueueManager) -> (a:
        HostAction)
        requires
            old(self).song_requests.wf(),
        ensures
            final(self).song_requests.wf(),
            match event {
                SessionEvent::PeerLeft { peer_id } => {
                    &&& a is Nothing
                    &&& final(self).song_requests.pending() == old(self).song_requests.pending().filter(
                        |r: PendingView| r.peer_id != peer_id,
                    )
                    &&& final(self).song_requests.uploads() == old(self).song_requests.uploads().restrict(
                        old(self).song_requests.uploads().dom().filter(
                            |k: u128| old(self).song_requests.uploads()[k].peer_id != peer_id,
                        ),
                    )
                    &&& final(self).transfers.transfers().dom() == old(self).transfers.transfers().dom()
                    &&& forall|f: u128|
                        #![trigger final(self).transfers.transfers()[f]]
                        old(self).transfers.transfers().contains_key(f) ==> final(self).transfers.transfers()[f] == (TransferView {
                            pending: old(self).transfers.transfers()[f].pending.remove(peer_id),
                            ..old(self).transfers.transfers()[f]
                        })
                },
                SessionEvent::MessageReceived { peer_id, message } => match message {
                    Message::SongRequest { file_name, file_size } => {
                        &&& final(self).transfers.transfers() == old(self).transfers.transfers()
                        &&& final(self).song_requests.uploads() == old(self).song_requests.uploads()
                        &&& if file_size > MAX_FILE_SIZE {
                            &&& a matches HostAction::RequestRefused(AutoRejectReason::FileTooLarge(s))
                            &&& s == file_size
                            &&& final(self).song_requests.pending() == old(self).song_requests.pending()
                        } else {
                            &&& a matches HostAction::NewRequest(req)
                            &&& req.peer_id == peer_id && req.peer_name@ == shown_name(
                                roster.entries(),
                                peer_id,
                            ) && req.file_name@ == file_name@ && req.file_size == file_size
                            &&& final(self).song_requests.pending() == old(self).song_requests.pending().push(req@)
                        }
                    },
                    Message::SongUploadChunk { request_id, offset, data } => {
                        let ok = old(self).song_requests.uploads().contains_key(request_id) && offset
                            + data@.len() <= old(self).song_requests.uploads()[request_id].data.len();
                        &&& final(self).transfers.transfers() == old(self).transfers.transfers()
                        &&& final(self).song_requests.pending() == old(self).song_requests.pending()
                        &&& if ok {
                            &&& a is Nothing
                            &&& final(self).song_requests.uploads() == old(self).song_requests.uploads().insert(
                                request_id,
                                upload_after_chunk(
                                    old(self).song_requests.uploads()[request_id],
                                    offset as int,
                                    data@,
                                ),
                            )
                        } else {
                            &&& a is ChunkRefused
                            &&& final(self).song_requests.uploads() == old(self).song_requests.uploads()
                        }
                    },
                    Message::SongUploadComplete { request_id, sha256 } => {
                        &&& final(self).transfers.transfers() == old(self).transfers.transfers()
                        &&& final(self).song_requests.pending() == old(self).song_requests.pending()
                        &&& final(self).song_requests.uploads() == old(self).song_requests.uploads().remove(request_id)
                        &&& if !old(self).song_requests.uploads().contains_key(request_id) {
                            a is UnknownUpload
                        } else {
                            let u = old(self).song_requests.uploads()[request_id];
                            if sha256_of(u.data) == sha256@ {
                                a matches HostAction::UploadVerified {
                                    request_id: id,
                                    file_name,
                                    peer_id: p,
                                    file_data,
                                } && id == request_id && file_name@ == u.file_name && p == u.peer_id
                                    && file_data@ == u.data
                            } else {
                                a matches HostAction::UploadCorrupt { request_id: id } && id == request_id
                            }
                        }
                    },
                    Message::FileReceived { file_id, hash_ok } => {
                        &&& final(self).song_requests.pending() == old(self).song_requests.pending()
                        &&& final(self).song_requests.uploads() == old(self).song_requests.uploads()
                        &&& if !old(self).transfers.transfers().contains_key(file_id) {
                            &&& a matches HostAction::Transfer(ReceivedAction::Ignore)
                            &&& final(self).transfers.transfers() == old(self).transfers.transfers()
                        } else if hash_ok {
                            let t2 = confirm_spec(old(self).transfers.transfers()[file_id], peer_id);
                            &&& final(self).transfers.transfers() == old(self).transfers.transfers().insert(file_id, t2)
                            &&& if t2.pending.is_empty() && t2.failed.is_empty() {
                                a matches HostAction::Transfer(
                                    ReceivedAction::Emit(TransferEvent::AllConfirmed { file_id: f }),
                                ) && f == file_id
                            } else {
                                a matches HostAction::Transfer(
                                    ReceivedAction::Emit(TransferEvent::PeerConfirmed { file_id: f, peer_id: p }),
                                ) && f == file_id && p == peer_id
                            }
                        } else {
                            let t = old(self).transfers.transfers()[file_id];
                            &&& final(self).transfers.transfers() == old(self).transfers.transfers().insert(file_id, fail_spec(t, peer_id))
                            &&& if next_retry(t, peer_id) < MAX_RETRIES {
                                a matches HostAction::Transfer(ReceivedAction::Resend)
                            } else {
                                a matches HostAction::Transfer(
                                    ReceivedAction::Emit(TransferEvent::PeerFailed { file_id: f, peer_id: p }),
                                ) && f == file_id && p == peer_id
                            }
                        }
                    },
                    Message::FileCacheReport { file_ids } => {
                        &&& a matches HostAction::SendFiles { peer_id: p, file_ids: f }
                        &&& p == peer_id
                        &&& f@ == upcoming_spec(
                            queue.entries(),
                            queue.current_spec(),
                            TRANSFER_WINDOW as int,
                        ).filter(|id: u128| !file_ids@.contains(id))
                        &&& final(self).song_requests.pending() == old(self).song_requests.pending()
                        &&& final(self).song_requests.uploads() == old(self).song_requests.uploads()
                        &&& final(self).transfers.transfers() == old(self).transfers.transfers()
                    },
                    _ => {
                        &&& a is Nothing
                        &&& final(self).song_requests.pending() == old(self).song_requests.pending()
                        &&& final(self).song_requests.uploads() == old(self).song_requests.uploads()
                        &&& final(self).transfers.transfers() == old(self).transfers.transfers()
                    },
                },
                _ => {
                    &&& a is Nothing
                    &&& final(self).song_requests.pending() == old(self).song_requests.pending()
                    &&& final(self).song_requests.uploads() == old(self).song_requests.uploads()
                    &&& final(self).transfers.transfers() == old(self).transfers.transfers()
                },
            },
    {
        match event {
            SessionEvent::PeerLeft { peer_id } => {
                self.transfers.cancel_peer(peer_id);
                self.song_requests.cancel_peer(peer_id);
                HostAction::Nothing
            },
            SessionEvent::MessageReceived { peer_id, message } => match message {
                Message::SongRequest { file_name, file_size } => {
                    let name = roster.display_name_or_default(peer_id);
                    match self.song_requests.receive_request(peer_id, name, file_name, file_size) {
                        Ok(req) => HostAction::NewRequest(req),
                        Err(reason) => HostAction::RequestRefused(reason),
                    }
                },
                Message::SongUploadChunk { request_id, offset, data } => {
                    if self.song_requests.receive_chunk(request_id, offset, data.as_slice()) {
                        HostAction::Nothing
                    } else {
                        HostAction::ChunkRefused
                    }
                },
                Message::SongUploadComplete { request_id, sha256 } => {
                    match self.song_requests.complete_upload(request_id, sha256) {
                        Some(UploadResult::Success { request_id, file_name, peer_id, file_data }) => {
                            HostAction::UploadVerified { request_id, file_name, peer_id, file_data }
                        },
                        Some(UploadResult::HashMismatch { request_id }) => HostAction::UploadCorrupt {
                            request_id,
                        },
                        None => HostAction::UnknownUpload,
                    }
                },
                Message::FileReceived { file_id, hash_ok } => {
                    HostAction::Transfer(self.transfers.handle_file_received(peer_id, file_id, hash_ok))
                },
                Message::FileCacheReport { file_ids } => {
                    let window = queue.upcoming_ids(TRANSFER_WINDOW);
                    HostAction::SendFiles { peer_id, file_ids: ids_not_in(&window, &file_ids) }
                },
                _ => HostAction::Nothing,
            },
            _ => HostAction::Nothing,
        }
    }
}

} // verus!
