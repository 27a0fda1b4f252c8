//! Decisions taken by the host and the peers around playback commands:
//! where a peer starts playing, what "back" does, which files are accepted
//! into the library, and which tracks are decoded or sent ahead of time.
use crate::messages::{Message, QueueItemStatus, QueueItemView};
use crate::playback::{rounded_ratio, PlaybackStateEnum};
use crate::queue::{lemma_mark_pushed, mark_spec, upcoming_spec, QueueManager};
use crate::names::{decimal, decimal_chars};
use crate::text::{chars_of, string_from_chars};
use vstd::prelude::*;
use vstd::string::StringExecFns;

verus! {

/// Number of tracks (the current one and those after it) kept decoded.
pub const DECODED_CACHE_WINDOW: usize = 5;

/// Number of tracks (the current one and those after it) the host sends
/// to peers ahead of time.
pub const TRANSFER_WINDOW: usize = 5;

/// Past this position (in milliseconds) "back" restarts the current track
/// instead of going to the previous one.
pub const RESTART_THRESHOLD_MS: u64 = 5000;

/// Largest song file (50 MiB) the host accepts into its queue.
pub const MAX_SONG_FILE_SIZE: usize = 50 * 1024 * 1024;

/// `frames` at `sample_rate` in whole milliseconds (0 for a rate of 0).
pub open spec fn position_ms_spec(frames: u64, sample_rate: u64) -> int {
    if sample_rate > 0 {
        (frames * 1000) / (sample_rate as int)
    } else {
        0
    }
}

/// The playback position in whole milliseconds.
pub fn position_ms(position_frames: u64, sample_rate: u64) -> (ms: u64)
    requires
        sample_rate > 0 ==> position_frames * 1000 <= u64::MAX,
    ensures
        ms == position_ms_spec(position_frames, sample_rate),
{
    if sample_rate > 0 {
        (position_frames * 1000) / sample_rate
    } else {
        0
    }
}

/// What the "back" control does.
#[derive(Clone, Copy, Debug, PartialEq, Eq, Structural)]
pub enum BackAction {
    /// Seek the current track to its start.
    RestartCurrent,
    /// Go to the previous track.
    PreviousTrack,
}

/// "Back" restarts the current track once it has played for
/// `RESTART_THRESHOLD_MS` or more, and goes to the previous track before.
pub fn back_action(position_frames: u64, sample_rate: u64) -> (a: BackAction)
    requires
        sample_rate > 0 ==> position_frames * 1000 <= u64::MAX,
    ensures
        a == (if position_ms_spec(position_frames, sample_rate) >= RESTART_THRESHOLD_MS {
            BackAction::RestartCurrent
        } else {
            BackAction::PreviousTrack
        }),
{
    if position_ms(position_frames, sample_rate) >= RESTART_THRESHOLD_MS {
        BackAction::RestartCurrent
    } else {
        BackAction::PreviousTrack
    }
}

/// A host position converted to the peer's rate.
pub open spec fn converted_position(position: u64, src_rate: u32, dst_rate: u32) -> u64 {
    if src_rate == dst_rate || src_rate == 0 {
        position
    } else {
        rounded_ratio(position as nat * dst_rate as nat, src_rate as nat)
    }
}

/// The frame at which a peer starts (or resumes, or seeks to) a track:
/// the host's position converted to the peer's rate, plus the frames that
/// play during the network latency and the peer's own processing delay.
pub open spec fn catch_up_frame(
    position: u64,
    host_rate: u32,
    peer_rate: u32,
    latency_ns: u64,
    processing_ns: u64,
) -> int {
    converted_position(position, host_rate, peer_rate) + rounded_ratio(
        (latency_ns + processing_ns) as nat * peer_rate as nat,
        1_000_000_000,
    )
}

/// The frame at which a peer starts playing after a play, resume or seek
/// command for `position_samples` at the host's rate.
pub fn peer_catch_up_frame(
    position_samples: u64,
    host_rate: u32,
    peer_rate: u32,
    latency_ns: u64,
    processing_ns: u64,
) -> (frame: u64)
    requires
        latency_ns + processing_ns <= u64::MAX,
        catch_up_frame(position_samples, host_rate, peer_rate, latency_ns, processing_ns)
            <= u64::MAX,
    ensures
        frame == catch_up_frame(position_samples, host_rate, peer_rate, latency_ns, processing_ns),
{
    let adjusted = crate::playback::convert_sample_position(position_samples, host_rate, peer_rate);
    let comp = crate::playback::latency_compensation_frames(latency_ns + processing_ns, peer_rate);
    adjusted + comp
}

/// What a peer does when the host reports that it is playing a track.
#[derive(Clone, Copy, Debug, PartialEq, Eq, Structural)]
pub enum CatchUp {
    /// The host's track is loaded and paused here: seek to the host's
    /// position and resume.
    Resume,
    /// Load the host's track and start it at the host's position.
    Load,
    /// Nothing to do: already on the host's track, or the host is not playing.
    Stay,
}

/// The catch-up decision. A peer that is stopped, or plays (or waits to
/// play) another track, loads the host's track; one paused on the host's
/// track resumes it; anything else stays as it is.
pub open spec fn catch_up_spec(host_playing: bool, peer: PlaybackStateEnum, same_file: bool) -> CatchUp {
    if !host_playing {
        CatchUp::Stay
    } else if peer == PlaybackStateEnum::Paused && same_file {
        CatchUp::Resume
    } else if peer == PlaybackStateEnum::Stopped || (!same_file && (peer == PlaybackStateEnum::Playing
        || peer == PlaybackStateEnum::Waiting)) {
        CatchUp::Load
    } else {
        CatchUp::Stay
    }
}

/// Decides how a peer in state `peer` catches up with a host that reports
/// `host_playing`; `same_file` tells whether the peer has the host's track
/// loaded.
pub fn catch_up_action(host_playing: bool, peer: PlaybackStateEnum, same_file: bool) -> (a: CatchUp)
    ensures
        a == catch_up_spec(host_playing, peer, same_file),
{
    if !host_playing {
        return CatchUp::Stay;
    }
    match peer {
        PlaybackStateEnum::Paused => if same_file {
            CatchUp::Resume
        } else {
            CatchUp::Stay
        },
        PlaybackStateEnum::Stopped => CatchUp::Load,
        PlaybackStateEnum::Playing | PlaybackStateEnum::Waiting => if same_file {
            CatchUp::Stay
        } else {
            CatchUp::Load
        },
    }
}

/// Why a file is refused as a song.
#[derive(Clone, Copy, Debug, PartialEq, Eq, Structural)]
pub enum AddSongError {
    /// The extension is not `mp3` (in any letter case).
    UnsupportedFormat,
    /// The file is larger than `MAX_SONG_FILE_SIZE`.
    TooLarge,
    /// The file does not decode as MP3 audio.
    InvalidMp3,
    /// Only the host of a session adds songs directly.
    NotHost,
    /// Only a peer of a session asks the host for a song.
    NotPeer,
}

impl AddSongError {
    /// Human-readable description of the error.
    pub fn message(&self) -> (s: String)
        ensures
            match self {
                AddSongError::UnsupportedFormat => s@ == "Only .mp3 files are supported."@,
                AddSongError::TooLarge => s@ == "File is too large. Maximum size is 50 MB."@,
                AddSongError::InvalidMp3 => s@ == "Invalid or corrupted MP3 file."@,
                AddSongError::NotHost => s@ == "Only the host can add songs directly."@,
                AddSongError::NotPeer => s@ == "Only peers can request songs."@,
            },
    {
        match self {
            AddSongError::UnsupportedFormat => String::from_str("Only .mp3 files are supported."),
            AddSongError::TooLarge => String::from_str("File is too large. Maximum size is 50 MB."),
            AddSongError::InvalidMp3 => String::from_str("Invalid or corrupted MP3 file."),
            AddSongError::NotHost => String::from_str("Only the host can add songs directly."),
            AddSongError::NotPeer => String::from_str("Only peers can request songs."),
        }
    }
}

/// `ext` is `mp3` up to ASCII letter case.
pub open spec fn is_mp3_extension(ext: Seq<char>) -> bool {
    &&& ext.len() == 3
    &&& (ext[0] == 'm' || ext[0] == 'M')
    &&& (ext[1] == 'p' || ext[1] == 'P')
    &&& ext[2] == '3'
}

/// Check a file offered as a song by its extension and size in bytes.
pub fn check_song_file(extension: &str, size: usize) -> (r: Result<(), AddSongError>)
    ensures
        !is_mp3_extension(extension@) ==> r == Err::<(), AddSongError>(
            AddSongError::UnsupportedFormat,
        ),
        is_mp3_extension(extension@) && size > MAX_SONG_FILE_SIZE ==> r == Err::<(), AddSongError>(
            AddSongError::TooLarge,
        ),
        is_mp3_extension(extension@) && size <= MAX_SONG_FILE_SIZE ==> r == Ok::<(), AddSongError>(
            (),
        ),
{
    let c = chars_of(extension);
    let is_mp3 = c.len() == 3 && (c[0] == 'm' || c[0] == 'M') && (c[1] == 'p' || c[1] == 'P')
        && c[2] == '3';
    if !is_mp3 {
        return Err(AddSongError::UnsupportedFormat);
    }
    if size > MAX_SONG_FILE_SIZE {
        return Err(AddSongError::TooLarge);
    }
    Ok(())
}

/// Why a song offered to the queue is refused, checked in this order: the
/// device must host the session, the extension must be `mp3`, the file at
/// most `MAX_SONG_FILE_SIZE` bytes, and the bytes must decode (`decoded`
/// holds the decoded duration, as `f64` bits, when they do).
pub open spec fn add_song_error(is_host: bool, extension: Seq<char>, size: usize, decoded: Option<u64>) -> Option<
    AddSongError,
> {
    if !is_host {
        Some(AddSongError::NotHost)
    } else if !is_mp3_extension(extension) {
        Some(AddSongError::UnsupportedFormat)
    } else if size > MAX_SONG_FILE_SIZE {
        Some(AddSongError::TooLarge)
    } else if decoded is None {
        Some(AddSongError::InvalidMp3)
    } else {
        None
    }
}

/// The queue entry of a song added by the host, before it is marked ready.
pub open spec fn host_song_entry(id: u128, file_name: Seq<char>, duration_bits: u64) -> QueueItemView {
    QueueItemView {
        id,
        file_name,
        duration_secs_bits: duration_bits,
        added_by: "host"@,
        status: QueueItemStatus::Transferring,
    }
}

/// Add a song the host offers: refuse it as `add_song_error` says, leaving
/// the queue as it is; otherwise append it under a fresh id, added by
/// "host", and mark that id ready. Returns the id.
pub fn add_song(
    queue: &mut QueueManager,
    is_host: bool,
    file_name: String,
    extension: &str,
    size: usize,
    decoded_duration_bits: Option<u64>,
) -> (r: Result<u128, AddSongError>)
    requires
        old(queue).wf(),
    ensures
        final(queue).wf(),
        final(queue).current_spec() == old(queue).current_spec(),
        match add_song_error(is_host, extension@, size, decoded_duration_bits) {
            Some(e) => r == Err::<u128, AddSongError>(e) && final(queue).entries() == old(
                queue,
            ).entries(),
            None => r matches Ok(id) && final(queue).entries() == mark_spec(
                old(queue).entries().push(
                    host_song_entry(id, file_name@, decoded_duration_bits.unwrap()),
                ),
                id,
                QueueItemStatus::Ready,
            ) && ((forall|j: int|
                0 <= j < old(queue).entries().len() ==> #[trigger] old(queue).entries()[j].id != id)
                ==> final(queue).entries() == old(queue).entries().push(
                QueueItemView {
                    status: QueueItemStatus::Ready,
                    ..host_song_entry(id, file_name@, decoded_duration_bits.unwrap())
                },
            )),
        },
{
    if !is_host {
        return Err(AddSongError::NotHost);
    }
    match check_song_file(extension, size) {
        Err(e) => {
            return Err(e);
        },
        Ok(()) => {},
    }
    let bits = match decoded_duration_bits {
        Some(b) => b,
        None => {
            return Err(AddSongError::InvalidMp3);
        },
    };
    let id = queue.add(file_name, bits, String::from_str("host"));
    queue.mark_ready(id);
    proof {
        let e = host_song_entry(id, file_name@, bits);
        if forall|j: int|
            0 <= j < old(queue).entries().len() ==> #[trigger] old(queue).entries()[j].id != id {
            lemma_mark_pushed(old(queue).entries(), e, QueueItemStatus::Ready);
        }
    }
    Ok(id)
}

/// The ids of `ids` that are not among `present`, in their order: the
/// tracks of a window still to be decoded or sent, or the decoded tracks
/// that fell out of the window.
pub fn ids_not_in(ids: &Vec<u128>, present: &Vec<u128>) -> (r: Vec<u128>)
    ensures
        r@ == ids@.filter(|id: u128| !present@.contains(id)),
{
    let ghost keep = |id: u128| !present@.contains(id);
    let n = ids.len();
    let mut out: Vec<u128> = Vec::new();
    let mut i: usize = 0;
    while i < n
        invariant
            n == ids@.len(),
            i <= n,
            keep == (|id: u128| !present@.contains(id)),
            out@ == ids@.take(i as int).filter(keep),
        decreases n - i,
    {
        let id = ids[i];
        let found = contains_id(present, id);
        assert(ids@.take(i + 1).drop_last() =~= ids@.take(i as int));
        reveal_with_fuel(Seq::<_>::filter, 1);
        if !found {
            out.push(id);
        }
        i = i + 1;
    }
    assert(ids@.take(n as int) =~= ids@);
    out
}

/// Why a peer's song request is not sent, checked in this order: the
/// device must be a peer of a session, the extension must be `mp3` and
/// the file at most `MAX_SONG_FILE_SIZE` bytes.
pub open spec fn song_request_error(is_peer: bool, extension: Seq<char>, size: u64) -> Option<AddSongError> {
    if !is_peer {
        Some(AddSongError::NotPeer)
    } else if !is_mp3_extension(extension) {
        Some(AddSongError::UnsupportedFormat)
    } else if size > MAX_SONG_FILE_SIZE {
        Some(AddSongError::TooLarge)
    } else {
        None
    }
}

/// The request a peer sends to ask the host for the file `file_name` of
/// `size` bytes, or why it is not sent (`song_request_error`).
pub fn song_request(is_peer: bool, file_name: String, extension: &str, size: u64) -> (r: Result<
    Message,
    AddSongError,
>)
    ensures
        match song_request_error(is_peer, extension@, size) {
            Some(e) => r == Err::<Message, AddSongError>(e),
            None => r matches Ok(Message::SongRequest { file_name: n, file_size }) && n@ == file_name@
                && file_size == size,
        },
{
    if !is_peer {
        return Err(AddSongError::NotPeer);
    }
    if check_song_file(extension, 0).is_err() {
        return Err(AddSongError::UnsupportedFormat);
    }
    if size > MAX_SONG_FILE_SIZE as u64 {
        return Err(AddSongError::TooLarge);
    }
    Ok(Message::SongRequest { file_name, file_size: size })
}

/// The queue entry of a song uploaded by peer `peer_id`, before it is
/// marked ready: it keeps the request's id and is added by "peer <id>".
pub open spec fn uploaded_song_entry(request_id: u128, file_name: Seq<char>, duration_bits: u64, peer_id: u32) -> QueueItemView {
    QueueItemView {
        id: request_id,
        file_name,
        duration_secs_bits: duration_bits,
        added_by: "peer "@ + decimal(peer_id as nat),
        status: QueueItemStatus::Transferring,
    }
}

/// Queue a song whose upload by `peer_id` has been verified: when the
/// bytes decode (`decoded` holds the duration as `f64` bits) the song is
/// appended under the request's id and that id is marked ready; when they
/// do not, the queue stays as it is. Returns whether the song was queued.
pub fn add_uploaded_song(
    queue: &mut QueueManager,
    request_id: u128,
    file_name: String,
    peer_id: u32,
    decoded_duration_bits: Option<u64>,
) -> (added: bool)
    requires
        old(queue).wf(),
    ensures
        final(queue).wf(),
        final(queue).current_spec() == old(queue).current_spec(),
        added == (decoded_duration_bits is Some),
        !added ==> final(queue).entries() == old(queue).entries(),
        added ==> final(queue).entries() == mark_spec(
            old(queue).entries().push(
                uploaded_song_entry(request_id, file_name@, decoded_duration_bits.unwrap(), peer_id),
            ),
            request_id,
            QueueItemStatus::Ready,
        ),
{
    let bits = match decoded_duration_bits {
        Some(b) => b,
        None => {
            return false;
        },
    };
    let mut by = String::from_str("peer ");
    let digits = decimal_chars(peer_id);
    let d = string_from_chars(&digits);
    by.append(d.as_str());
    queue.add_with_id(request_id, file_name, bits, by);
    queue.mark_ready(request_id);
    true
}

/// The tracks of the decoding window (the current track and the ones
/// after it, `DECODED_CACHE_WINDOW` in all) whose decoded audio is not
/// among `cached`, in queue order.
pub fn tracks_to_predecode(q: &QueueManager, cached: &Vec<u128>) -> (r: Vec<u128>)
    ensures
        r@ == upcoming_spec(q.entries(), q.current_spec(), DECODED_CACHE_WINDOW as int).filter(
            |id: u128| !cached@.contains(id),
        ),
{
    let window = q.upcoming_ids(DECODED_CACHE_WINDOW);
    ids_not_in(&window, cached)
}

/// The decoded tracks among `cached` that lie outside the decoding window,
/// in the order of `cached`: those to drop.
pub fn tracks_to_evict(q: &QueueManager, cached: &Vec<u128>) -> (r: Vec<u128>)
    ensures
        r@ == cached@.filter(
            |id: u128|
                !upcoming_spec(q.entries(), q.current_spec(), DECODED_CACHE_WINDOW as int).contains(id),
        ),
{
    let window = q.upcoming_ids(DECODED_CACHE_WINDOW);
    ids_not_in(cached, &window)
}

/// Whether the track `id` lies in the transfer window: the current track
/// and the ones after it, `TRANSFER_WINDOW` in all. Files outside it are
/// sent to peers later, when the window reaches them.
pub fn in_transfer_window(q: &QueueManager, id: u128) -> (r: bool)
    ensures
        r == upcoming_spec(q.entries(), q.current_spec(), TRANSFER_WINDOW as int).contains(id),
{
    let window = q.upcoming_ids(TRANSFER_WINDOW);
    contains_id(&window, id)
}

/// Whether `id` is among `ids`.
pub fn contains_id(ids: &Vec<u128>, id: u128) -> (r: bool)
    ensures
        r == ids@.contains(id),
{
    let n = ids.len();
    let mut i: usize = 0;
    while i < n
        invariant
            n == ids@.len(),
            i <= n,
            forall|j: int| 0 <= j < i ==> ids@[j] != id,
        decreases n - i,
    {
        if ids[i] == id {
            assert(ids@[i as int] == id);
            return true;
        }
        i = i + 1;
    }
    false
}

} // verus!
