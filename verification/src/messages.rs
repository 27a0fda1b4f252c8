//! Messages exchanged between host and peers, and the length-prefixed
//! framing used on the TCP stream.
//!
//! Identifiers of files, queue entries and requests are 128-bit UUID
//! values; durations are carried as the IEEE-754 bits of a number of
//! seconds. Encoding a message's payload is done outside the library; the
//! library owns the frame layout: `[length: u32 little-endian][payload]`.
use vstd::prelude::*;

verus! {

/// Status of a queue entry.
#[derive(Clone, Copy, Debug, PartialEq, Eq, Structural)]
pub enum QueueItemStatus {
    Transferring,
    Ready,
    Playing,
    Played,
}

/// One entry of the shared playback queue.
#[derive(Clone, Debug, PartialEq)]
pub struct QueueItem {
    pub id: u128,
    pub file_name: String,
    /// IEEE-754 bits of the track duration in seconds.
    pub duration_secs_bits: u64,
    pub added_by: String,
    pub status: QueueItemStatus,
}

/// Mathematical view of a queue entry.
pub struct QueueItemView {
    pub id: u128,
    pub file_name: Seq<char>,
    pub duration_secs_bits: u64,
    pub added_by: Seq<char>,
    pub status: QueueItemStatus,
}

impl View for QueueItem {
    type V = QueueItemView;

    open spec fn view(&self) -> QueueItemView {
        QueueItemView {
            id: self.id,
            file_name: self.file_name@,
            duration_secs_bits: self.duration_secs_bits,
            added_by: self.added_by@,
            status: self.status,
        }
    }
}

impl QueueItem {
    /// A copy of this entry.
    pub fn duplicate(&self) -> (r: QueueItem)
        ensures
            r@ == self@,
    {
        QueueItem {
            id: self.id,
            file_name: self.file_name.clone(),
            duration_secs_bits: self.duration_secs_bits,
            added_by: self.added_by.clone(),
            status: self.status,
        }
    }
}

/// A peer as listed in the session state.
#[derive(Clone, Debug, PartialEq)]
pub struct PeerInfo {
    pub peer_id: u32,
    pub display_name: String,
}

/// The track currently loaded on the host.
#[derive(Clone, Debug, PartialEq)]
pub struct CurrentTrack {
    pub file_id: u128,
    pub file_name: String,
    pub position_samples: u64,
    pub sample_rate: u32,
    pub is_playing: bool,
}

/// Snapshot of a session sent to joining peers.
#[derive(Clone, Debug, PartialEq)]
pub struct SessionState {
    pub session_name: String,
    pub host_name: String,
    pub peers: Vec<PeerInfo>,
    pub queue: Vec<QueueItem>,
    pub current_track: Option<CurrentTrack>,
}

/// TCP control messages.
#[derive(Clone, Debug, PartialEq)]
pub enum Message {
    // Session management
    JoinRequest { display_name: String },
    JoinAccepted { peer_id: u32, session_state: SessionState },
    JoinRejected { reason: String },
    LeaveSession { peer_id: u32 },
    SessionEnd,
    Heartbeat,
    // File transfer
    FileTransferStart { file_id: u128, file_name: String, size: u64, sha256: [u8; 32] },
    FileChunk { file_id: u128, offset: u64, data: Vec<u8> },
    FileReceived { file_id: u128, hash_ok: bool },
    // Song requests
    SongRequest { file_name: String, file_size: u64 },
    SongRequestAccepted { request_id: u128 },
    SongRequestRejected { request_id: u128 },
    SongUploadChunk { request_id: u128, offset: u64, data: Vec<u8> },
    SongUploadComplete { request_id: u128, sha256: [u8; 32] },
    // Playback control
    PlayCommand { file_id: u128, position_samples: u64, target_time_ns: u64 },
    PauseCommand { position_samples: u64 },
    ResumeCommand { position_samples: u64, target_time_ns: u64 },
    StopCommand,
    SeekCommand { position_samples: u64, target_time_ns: u64 },
    // Queue sync
    QueueUpdate { queue: Vec<QueueItem> },
    // File sync: the ids of the files a peer holds.
    FileCacheReport { file_ids: Vec<u128> },
    // The host's playback state, for peers that catch up or drift.
    PlaybackStateUpdate {
        state: String,
        file_name: String,
        position_ms: u64,
        duration_ms: u64,
        file_id: u128,
        position_samples: u64,
        sample_rate: u32,
    },
}

/// UDP clock-synchronisation messages.
#[derive(Clone, Copy, Debug, PartialEq, Eq)]
pub enum ClockMessage {
    ClockPing { peer_id: u32, peer_send_time_ns: u64 },
    ClockPong { peer_id: u32, peer_send_time_ns: u64, host_recv_time_ns: u64, host_send_time_ns: u64 },
}

// ── Framing ─────────────────────────────────────────────────────────────────

/// Maximum payload size of one frame: 16 MiB.
pub const MAX_MESSAGE_SIZE: u32 = 16 * 1024 * 1024;

/// Reasons a frame header is refused.
#[derive(Clone, Copy, Debug, PartialEq, Eq)]
pub enum FrameHeaderError {
    MessageTooLarge(u32),
}

/// Little-endian bytes of `x`.
pub open spec fn le_bytes(x: u32) -> Seq<u8> {
    seq![
        (x % 0x100) as u8,
        ((x / 0x100) % 0x100) as u8,
        ((x / 0x1_0000) % 0x100) as u8,
        ((x / 0x100_0000) % 0x100) as u8,
    ]
}

/// The number that the little-endian bytes `b` spell.
pub open spec fn le_value(b: Seq<u8>) -> int {
    b[0] + b[1] * 0x100 + b[2] * 0x1_0000 + b[3] * 0x100_0000
}

/// The four-byte length header of a payload of `len` bytes (the length is
/// taken modulo 2^32).
pub fn encode_length(len: usize) -> (header: [u8; 4])
    ensures
        header@ == le_bytes((len as int % 0x1_0000_0000) as u32),
{
    let x: u32 = (len as u64 % 0x1_0000_0000u64) as u32;
    let b0: u8 = (x % 0x100) as u8;
    let b1: u8 = ((x / 0x100) % 0x100) as u8;
    let b2: u8 = ((x / 0x1_0000) % 0x100) as u8;
    let b3: u8 = ((x / 0x100_0000) % 0x100) as u8;
    let header = [b0, b1, b2, b3];
    assert(header@ =~= le_bytes(x));
    header
}

/// Decode a four-byte header into a payload length, refusing lengths
/// above `MAX_MESSAGE_SIZE`.
pub fn decode_length(header: [u8; 4]) -> (r: Result<u32, FrameHeaderError>)
    ensures
        le_value(header@) <= MAX_MESSAGE_SIZE ==> r == Ok::<u32, FrameHeaderError>(
            le_value(header@) as u32,
        ),
        le_value(header@) > MAX_MESSAGE_SIZE ==> r == Err::<u32, FrameHeaderError>(
            FrameHeaderError::MessageTooLarge(le_value(header@) as u32),
        ),
{
    let len: u32 = header[0] as u32 + header[1] as u32 * 0x100 + header[2] as u32 * 0x1_0000
        + header[3] as u32 * 0x100_0000;
    if len > MAX_MESSAGE_SIZE {
        Err(FrameHeaderError::MessageTooLarge(len))
    } else {
        Ok(len)
    }
}

/// A whole frame: the length header followed by the payload.
pub fn encode_frame(payload: &Vec<u8>) -> (frame: Vec<u8>)
    ensures
        frame@ == le_bytes((payload@.len() as int % 0x1_0000_0000) as u32) + payload@,
{
    let header = encode_length(payload.len());
    let mut frame: Vec<u8> = Vec::new();
    frame.push(header[0]);
    frame.push(header[1]);
    frame.push(header[2]);
    frame.push(header[3]);
    let n = payload.len();
    let mut i: usize = 0;
    while i < n
        invariant
            n == payload@.len(),
            i <= n,
            frame@ == header@ + payload@.take(i as int),
        decreases n - i,
    {
        frame.push(payload[i]);
        assert(payload@.take(i + 1) =~= payload@.take(i as int).push(payload@[i as int]));
        i = i + 1;
    }
    assert(payload@.take(n as int) =~= payload@);
    frame
}

/// Decoding the header of a frame gives back the payload length, for
/// every payload within the size limit.
pub proof fn law_frame_length_roundtrip(len: u32)
    requires
        len <= MAX_MESSAGE_SIZE,
    ensures
        le_value(le_bytes(len)) == len,
{
    let b = le_bytes(len);
    assert(b[0] == len % 0x100);
    assert(b[1] == (len / 0x100) % 0x100);
    assert(b[2] == (len / 0x1_0000) % 0x100);
    assert(b[3] == (len / 0x100_0000) % 0x100);
    assert(len == len % 0x100 + ((len / 0x100) % 0x100) * 0x100 + ((len / 0x1_0000) % 0x100)
        * 0x1_0000 + ((len / 0x100_0000) % 0x100) * 0x100_0000) by (nonlinear_arith)
        requires
            len <= 0x100_0000,
    ;
}

} // verus!
