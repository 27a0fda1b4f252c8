//! What a peer does with each message from the host: files are
//! reassembled and kept, the queue is mirrored, and playback commands are
//! turned into the frame at which the local player starts, pauses or
//! resumes. The caller receives the messages, runs the player and sends
//! the replies; this module decides.
use crate::bytes::sha256_of;
use crate::control::{catch_up_action, catch_up_frame, catch_up_spec, converted_position, CatchUp};
use crate::playback::rounded_ratio;
use crate::playback::PlaybackStateEnum;
use crate::text::{chars_of, seq_equal};
use crate::file_cache::FileCache;
use crate::file_transfer::{after_chunk, FileReceiver, IncomingView, TransferEvent, MAX_FILE_SIZE};
use crate::messages::{Message, QueueItem, QueueItemStatus, QueueItemView};
use vstd::prelude::*;

verus! {

/// Timing of a command's arrival: the one-way network latency, the time
/// the peer took before acting on it, and the sample rates of the host and
/// of the local output device.
#[derive(Clone, Copy, Debug, PartialEq, Eq, Structural)]
pub struct CatchUpTiming {
    pub latency_ns: u64,
    pub processing_ns: u64,
    pub host_rate: u32,
    pub peer_rate: u32,
}

/// The frame at which the local player takes up a command for host
/// position `position`, when it fits in a `u64`.
pub open spec fn command_frame(position: u64, t: CatchUpTiming) -> Option<u64> {
    if t.latency_ns + t.processing_ns <= u64::MAX && catch_up_frame(
        position,
        t.host_rate,
        t.peer_rate,
        t.latency_ns,
        t.processing_ns,
    ) <= u64::MAX {
        Some(
            catch_up_frame(position, t.host_rate, t.peer_rate, t.latency_ns, t.processing_ns) as u64,
        )
    } else {
        None
    }
}

/// The state of the local player when a message arrives: whether it is
/// stopped, waiting, playing or paused, and the frame it is at.
#[derive(Clone, Copy, Debug, PartialEq, Eq, Structural)]
pub struct PlayerStatus {
    pub state: PlaybackStateEnum,
    pub position: u64,
}

/// The largest drift, in milliseconds, that a playing peer tolerates.
pub const DRIFT_THRESHOLD_MS: u64 = 50;

/// The player at `actual` is more than `DRIFT_THRESHOLD_MS` away from
/// `expected` at `rate` frames per second.
pub open spec fn drifted(expected: u64, actual: u64, rate: u32) -> bool {
    let d: int = if expected >= actual {
        expected - actual
    } else {
        actual - expected
    };
    d * 1000 > DRIFT_THRESHOLD_MS * rate
}

/// Index of the first entry of `q`, from `i` on, that has not been played
/// (the length of `q` when every one has).
pub open spec fn first_unplayed_from(q: Seq<QueueItemView>, i: int) -> int
    decreases q.len() - i,
{
    if i < 0 || i >= q.len() {
        q.len() as int
    } else if q[i].status != QueueItemStatus::Played {
        i
    } else {
        first_unplayed_from(q, i + 1)
    }
}

/// The ids of the next `n` entries of the mirrored queue, from its first
/// entry that has not been played.
pub open spec fn upcoming_mirror(q: Seq<QueueItemView>, n: int) -> Seq<u128> {
    let start = first_unplayed_from(q, 0);
    let end = if start + n <= q.len() {
        start + n
    } else {
        q.len() as int
    };
    q.subrange(start, end).map_values(|e: QueueItemView| e.id)
}

/// The frame, on the host's own rate `host_rate`, at which the local
/// player takes up a state update for host position `position`.
pub open spec fn update_frame(position: u64, host_rate: u32, t: CatchUpTiming) -> Option<u64> {
    command_frame(position, CatchUpTiming { host_rate, ..t })
}

/// What the caller does after a message from the host.
#[derive(Clone, Debug)]
pub enum PeerAction {
    /// Nothing to do.
    Nothing,
    /// Send this message back to the host.
    Reply(Message),
    /// Start the track `file_id` now, from `frame`.
    Play { file_id: u128, frame: u64 },
    /// Move to `frame` and pause.
    Pause { frame: u64 },
    /// Move to `frame` and resume now.
    Resume { frame: u64 },
    /// Stop playback.
    Stop,
    /// Move to `frame` without changing whether the player plays.
    Seek { frame: u64 },
}

/// A peer's copy of the session: files being received, files it holds,
/// the host's queue and the track it plays.
pub struct PeerSync {
    pub receiver: FileReceiver,
    pub cache: FileCache,
    pub queue: Vec<QueueItem>,
    pub current_file: Option<u128>,
}

impl PeerSync {
    /// A peer that holds no file, an empty queue and plays nothing.
    pub fn new() -> (p: Self)
        ensures
            p.receiver.wf(),
            p.receiver.incoming() == Map::<u128, IncomingView>::empty(),
            p.receiver.completed() == Map::<u128, Seq<u8>>::empty(),
            p.cache@ == Map::<u128, Seq<u8>>::empty(),
            p.queue@ == Seq::<QueueItem>::empty(),
            p.current_file == None::<u128>,
    {
        PeerSync {
            receiver: FileReceiver::new(),
            cache: FileCache::new(),
            queue: Vec::new(),
            current_file: None,
        }
    }

    /// The mirrored queue.
    pub open spec fn queue_view(&self) -> Seq<QueueItemView> {
        self.queue@.map_values(|q: QueueItem| q@)
    }

    /// The report that tells the host which files this peer holds.
    pub fn cache_report(&self) -> (m: Message)
        ensures
            m matches Message::FileCacheReport { file_ids } && file_ids@.to_set() == self.cache@.dom()
                && file_ids@.no_duplicates(),
    {
        Message::FileCacheReport { file_ids: self.cache.cached_ids() }
    }

    /// The ids of the next `n` entries of the mirrored queue (from its first
    /// entry not yet played) whose files this peer does not hold, in order.
    pub fn missing_upcoming(&self, n: usize) -> (r: Vec<u128>)
        ensures
            r@ == upcoming_mirror(self.queue_view(), n as int).filter(
                |id: u128| !self.cache@.contains_key(id),
            ),
    {
        let ghost q = self.queue_view();
        let len = self.queue.len();
        let mut start: usize = 0;
        while start < len && self.queue[start].status == QueueItemStatus::Played
            invariant
                q == self.queue_view(),
                len == q.len(),
                start <= len,
                first_unplayed_from(q, 0) == first_unplayed_from(q, start as int),
            decreases len - start,
        {
            assert(q[start as int].status == QueueItemStatus::Played);
            start = start + 1;
        }
        let end: usize = if n <= len - start {
            start + n
        } else {
            len
        };
        let ghost window = upcoming_mirror(q, n as int);
        let ghost keep = |id: u128| !self.cache@.contains_key(id);
        let mut out: Vec<u128> = Vec::new();
        let mut i: usize = start;
        assert(window =~= q.subrange(start as int, end as int).map_values(|e: QueueItemView| e.id));
        assert(window.take(0).filter(keep) =~= Seq::<u128>::empty());
        while i < end
            invariant
                q == self.queue_view(),
                len == q.len(),
                start <= i <= end <= len,
                window =~= q.subrange(start as int, end as int).map_values(|e: QueueItemView| e.id),
                keep == (|id: u128| !self.cache@.contains_key(id)),
                out@ == window.take(i - start).filter(keep),
            decreases end - i,
        {
            let id = self.queue[i].id;
            assert(window[i - start] == id);
            assert(window.take(i - start + 1) =~= window.take(i - start).push(id));
            proof {
                window.take(i - start).lemma_filter_push(id, keep);
            }
            if !self.cache.has(&id) {
                out.push(id);
            }
            i = i + 1;
        }
        assert(window.take(end - start) =~= window);
        out
    }

    /// Handle one message from the host.
    ///
    /// - `FileTransferStart` prepares the receiver (as
    ///   `FileReceiver::handle_transfer_start` does).
    /// - `FileChunk` is written (as `FileReceiver::handle_chunk` does); a
    ///   complete file is confirmed to the host, and a good one is also
    ///   kept in the cache.
    /// - `QueueUpdate` replaces the mirrored queue.
    /// - `PlayCommand` starts the file at its catch-up frame when the cache
    ///   holds it, and stops playback otherwise.
    /// - `PauseCommand`, `ResumeCommand` and `SeekCommand` move to the
    ///   catch-up frame and pause or resume; `StopCommand` stops.
    /// - A `PlaybackStateUpdate` reporting that the host plays lets this
    ///   peer catch up (`catch_up_spec`): a paused player on the host's
    ///   track resumes at the catch-up frame; a stopped player, or one on
    ///   another track, starts the host's track there when the file is held
    ///   and otherwise reports its files to the host; a player already on
    ///   the host's track is moved to the catch-up frame when it is more
    ///   than `DRIFT_THRESHOLD_MS` off and no file is still arriving.
    /// - A command whose catch-up frame does not fit in a `u64` is dropped,
    ///   as is every other message.
    pub fn on_host_message(&mut self, msg: Message, t: CatchUpTiming, player: PlayerStatus) -> (a:
        PeerAction)
        requires
            old(self).receiver.wf(),
        ensures
            final(self).receiver.wf(),
            match msg {
                Message::FileTransferStart { file_id, file_name, size, sha256 } => {
                    &&& a is Nothing
                    &&& final(self).cache@ == old(self).cache@
                    &&& final(self).queue@ == old(self).queue@
                    &&& final(self).current_file == old(self).current_file
                    &&& final(self).receiver.completed() == old(self).receiver.completed()
                    &&& final(self).receiver.incoming() == if old(self).receiver.completed().contains_key(file_id)
                        || size == 0 || size > MAX_FILE_SIZE {
                        old(self).receiver.incoming()
                    } else {
                        old(self).receiver.incoming().insert(
                            file_id,
                            IncomingView {
                                file_name: file_name@,
                                expected_size: size,
                                expected_sha256: sha256@,
                                data: Seq::new(size as nat, |i: int| 0u8),
                                bytes_received: 0,
                            },
                        )
                    }
                },
                Message::FileChunk { file_id, offset, data } => {
                    &&& final(self).queue@ == old(self).queue@
                    &&& final(self).current_file == old(self).current_file
                    &&& if !old(self).receiver.incoming().contains_key(file_id) {
                        &&& a is Nothing
                        &&& final(self).receiver.incoming() == old(self).receiver.incoming()
                        &&& final(self).receiver.completed() == old(self).receiver.completed()
                        &&& final(self).cache@ == old(self).cache@
                    } else {
                        let v = old(self).receiver.incoming()[file_id];
                        let v2 = after_chunk(v, offset as int, data@);
                        if offset + data@.len() > v.data.len() {
                            &&& a is Nothing
                            &&& final(self).receiver.incoming() == old(self).receiver.incoming()
                            &&& final(self).receiver.completed() == old(self).receiver.completed()
                            &&& final(self).cache@ == old(self).cache@
                        } else if v2.bytes_received < v2.expected_size {
                            &&& a is Nothing
                            &&& final(self).receiver.incoming() == old(self).receiver.incoming().insert(
                                file_id,
                                v2,
                            )
                            &&& final(self).receiver.completed() == old(self).receiver.completed()
                            &&& final(self).cache@ == old(self).cache@
                        } else if sha256_of(v2.data) == v2.expected_sha256 {
                            &&& a matches PeerAction::Reply(Message::FileReceived { file_id: g, hash_ok })
                            &&& g == file_id && hash_ok
                            &&& final(self).receiver.incoming() == old(self).receiver.incoming().remove(file_id)
                            &&& final(self).receiver.completed() == old(self).receiver.completed().insert(
                                file_id,
                                v2.data,
                            )
                            &&& final(self).cache@ == old(self).cache@.insert(file_id, v2.data)
                        } else {
                            &&& a matches PeerAction::Reply(Message::FileReceived { file_id: g, hash_ok })
                            &&& g == file_id && !hash_ok
                            &&& final(self).receiver.incoming() == old(self).receiver.incoming().remove(file_id)
                            &&& final(self).receiver.completed() == old(self).receiver.completed()
                            &&& final(self).cache@ == old(self).cache@
                        }
                    }
                },
                Message::QueueUpdate { queue } => {
                    &&& a is Nothing
                    &&& final(self).queue@ == queue@
                    &&& final(self).current_file == old(self).current_file
                    &&& final(self).cache@ == old(self).cache@
                    &&& final(self).receiver.incoming() == old(self).receiver.incoming()
                    &&& final(self).receiver.completed() == old(self).receiver.completed()
                },
                Message::PlaybackStateUpdate { state, file_id, position_samples, sample_rate, .. } => {
                    let same = old(self).current_file == Some(file_id);
                    let frame = update_frame(position_samples, sample_rate, t);
                    &&& final(self).queue@ == old(self).queue@
                    &&& final(self).cache@ == old(self).cache@
                    &&& final(self).receiver.incoming() == old(self).receiver.incoming()
                    &&& final(self).receiver.completed() == old(self).receiver.completed()
                    &&& if state@ != "playing"@ {
                        a is Nothing && final(self).current_file == old(self).current_file
                    } else {
                        match catch_up_spec(true, player.state, same) {
                            CatchUp::Resume => final(self).current_file == old(self).current_file
                                && match frame {
                                None => a is Nothing,
                                Some(f) => a matches PeerAction::Resume { frame: g } && g == f,
                            },
                            CatchUp::Load => if !old(self).cache@.contains_key(file_id) {
                                &&& final(self).current_file == old(self).current_file
                                &&& a matches PeerAction::Reply(Message::FileCacheReport { file_ids })
                                &&& file_ids@.to_set() == old(self).cache@.dom()
                            } else {
                                match frame {
                                    None => a is Nothing && final(self).current_file == old(
                                        self,
                                    ).current_file,
                                    Some(f) => (a matches PeerAction::Play { file_id: g, frame: h } && g
                                        == file_id && h == f) && final(self).current_file == Some(
                                        file_id,
                                    ),
                                }
                            },
                            CatchUp::Stay => {
                                &&& final(self).current_file == old(self).current_file
                                &&& if same && (player.state == PlaybackStateEnum::Playing
                                    || player.state == PlaybackStateEnum::Waiting)
                                    && old(self).receiver.incoming().len() == 0 {
                                    match frame {
                                        Some(f) if drifted(f, player.position, t.peer_rate) => a matches PeerAction::Seek {
                                            frame: g,
                                        } && g == f,
                                        _ => a is Nothing,
                                    }
                                } else {
                                    a is Nothing
                                }
                            },
                        }
                    }
                },
                _ => {
                    &&& final(self).queue@ == old(self).queue@
                    &&& final(self).cache@ == old(self).cache@
                    &&& final(self).receiver.incoming() == old(self).receiver.incoming()
                    &&& final(self).receiver.completed() == old(self).receiver.completed()
                    &&& match msg {
                        Message::PlayCommand { file_id, position_samples, .. } => match command_frame(
                            position_samples,
                            t,
                        ) {
                            None => a is Nothing && final(self).current_file == old(self).current_file,
                            Some(f) => if old(self).cache@.contains_key(file_id) {
                                (a matches PeerAction::Play { file_id: g, frame } && g == file_id && frame
                                    == f) && final(self).current_file == Some(file_id)
                            } else {
                                a is Stop && final(self).current_file == None::<u128>
                            },
                        },
                        Message::PauseCommand { position_samples } => final(self).current_file == old(
                            self,
                        ).current_file && match command_frame(position_samples, t) {
                            None => a is Nothing,
                            Some(f) => a matches PeerAction::Pause { frame } && frame == f,
                        },
                        Message::ResumeCommand { position_samples, .. } => final(self).current_file
                            == old(self).current_file && match command_frame(position_samples, t) {
                            None => a is Nothing,
                            Some(f) => a matches PeerAction::Resume { frame } && frame == f,
                        },
                        Message::SeekCommand { position_samples, .. } => final(self).current_file
                            == old(self).current_file && match command_frame(position_samples, t) {
                            None => a is Nothing,
                            Some(f) => a matches PeerAction::Resume { frame } && frame == f,
                        },
                        Message::StopCommand => a is Stop && final(self).current_file == None::<u128>,
                        _ => a is Nothing && final(self).current_file == old(self).current_file,
                    }
                },
            },
    {
        match msg {
            Message::FileTransferStart { file_id, file_name, size, sha256 } => {
                let _ = self.receiver.handle_transfer_start(file_id, file_name, size, sha256);
                PeerAction::Nothing
            },
            Message::FileChunk { file_id, offset, data } => {
                match self.receiver.handle_chunk(file_id, offset, data.as_slice()) {
                    None => PeerAction::Nothing,
                    Some((event, reply)) => {
                        match event {
                            TransferEvent::FileReady { file_id: f, .. } => {
                                match self.receiver.get_file(f) {
                                    Some(bytes) => {
                                        let copy = bytes.clone();
                                        self.cache.insert(f, copy);
                                    },
                                    None => {},
                                }
                            },
                            _ => {},
                        }
                        PeerAction::Reply(reply)
                    },
                }
            },
            Message::QueueUpdate { queue } => {
                self.queue = queue;
                PeerAction::Nothing
            },
            Message::PlayCommand { file_id, position_samples, .. } => {
                match frame_for(position_samples, t) {
                    None => PeerAction::Nothing,
                    Some(frame) => {
                        if self.cache.has(&file_id) {
                            self.current_file = Some(file_id);
                            PeerAction::Play { file_id, frame }
                        } else {
                            self.current_file = None;
                            PeerAction::Stop
                        }
                    },
                }
            },
            Message::PauseCommand { position_samples } => match frame_for(position_samples, t) {
                None => PeerAction::Nothing,
                Some(frame) => PeerAction::Pause { frame },
            },
            Message::ResumeCommand { position_samples, .. } => match frame_for(position_samples, t) {
                None => PeerAction::Nothing,
                Some(frame) => PeerAction::Resume { frame },
            },
            Message::SeekCommand { position_samples, .. } => match frame_for(position_samples, t) {
                None => PeerAction::Nothing,
                Some(frame) => PeerAction::Resume { frame },
            },
            Message::StopCommand => {
                self.current_file = None;
                PeerAction::Stop
            },
            Message::PlaybackStateUpdate { state, file_id, position_samples, sample_rate, .. } => {
                self.on_state_update(state.as_str(), file_id, position_samples, sample_rate, t, player)
            },
            _ => PeerAction::Nothing,
        }
    }

    /// What a `PlaybackStateUpdate` does, as `on_host_message` states.
    fn on_state_update(
        &mut self,
        state: &str,
        file_id: u128,
        position_samples: u64,
        sample_rate: u32,
        t: CatchUpTiming,
        player: PlayerStatus,
    ) -> (a: PeerAction)
        requires
            old(self).receiver.wf(),
        ensures
            final(self).receiver.wf(),
            final(self).queue@ == old(self).queue@,
            final(self).cache@ == old(self).cache@,
            final(self).receiver.incoming() == old(self).receiver.incoming(),
            final(self).receiver.completed() == old(self).receiver.completed(),
            ({
                let same = old(self).current_file == Some(file_id);
                let frame = update_frame(position_samples, sample_rate, t);
                if state@ != "playing"@ {
                    a is Nothing && final(self).current_file == old(self).current_file
                } else {
                    match catch_up_spec(true, player.state, same) {
                        CatchUp::Resume => final(self).current_file == old(self).current_file
                            && match frame {
                            None => a is Nothing,
                            Some(f) => a matches PeerAction::Resume { frame: g } && g == f,
                        },
                        CatchUp::Load => if !old(self).cache@.contains_key(file_id) {
                            &&& final(self).current_file == old(self).current_file
                            &&& a matches PeerAction::Reply(Message::FileCacheReport { file_ids })
                            &&& file_ids@.to_set() == old(self).cache@.dom()
                        } else {
                            match frame {
                                None => a is Nothing && final(self).current_file == old(self).current_file,
                                Some(f) => (a matches PeerAction::Play { file_id: g, frame: h } && g
                                    == file_id && h == f) && final(self).current_file == Some(file_id),
                            }
                        },
                        CatchUp::Stay => {
                            &&& final(self).current_file == old(self).current_file
                            &&& if same && (player.state == PlaybackStateEnum::Playing || player.state
                                == PlaybackStateEnum::Waiting) && old(self).receiver.incoming().len()
                                == 0 {
                                match frame {
                                    Some(f) if drifted(f, player.position, t.peer_rate) => a matches PeerAction::Seek {
                                        frame: g,
                                    } && g == f,
                                    _ => a is Nothing,
                                }
                            } else {
                                a is Nothing
                            }
                        },
                    }
                }
            }),
    {
        let playing = seq_equal(&chars_of(state), &chars_of("playing"));
        if !playing {
            return PeerAction::Nothing;
        }
        let same = match self.current_file {
            Some(f) => f == file_id,
            None => false,
        };
        let tu = CatchUpTiming { host_rate: sample_rate, ..t };
        match catch_up_action(true, player.state, same) {
            CatchUp::Resume => match frame_for(position_samples, tu) {
                None => PeerAction::Nothing,
                Some(frame) => PeerAction::Resume { frame },
            },
            CatchUp::Load => {
                if !self.cache.has(&file_id) {
                    return self.cache_report_action();
                }
                match frame_for(position_samples, tu) {
                    None => PeerAction::Nothing,
                    Some(frame) => {
                        self.current_file = Some(file_id);
                        PeerAction::Play { file_id, frame }
                    },
                }
            },
            CatchUp::Stay => {
                let on_track = same && (match player.state {
                    PlaybackStateEnum::Playing | PlaybackStateEnum::Waiting => true,
                    _ => false,
                });
                if !on_track || self.receiver.incoming_count() != 0 {
                    return PeerAction::Nothing;
                }
                match frame_for(position_samples, tu) {
                    None => PeerAction::Nothing,
                    Some(frame) => {
                        let d = if frame >= player.position {
                            frame - player.position
                        } else {
                            player.position - frame
                        };
                        if d as u128 * 1000 > DRIFT_THRESHOLD_MS as u128 * t.peer_rate as u128 {
                            PeerAction::Seek { frame }
                        } else {
                            PeerAction::Nothing
                        }
                    },
                }
            },
        }
    }

    fn cache_report_action(&self) -> (a: PeerAction)
        ensures
            a matches PeerAction::Reply(Message::FileCacheReport { file_ids }) && file_ids@.to_set()
                == self.cache@.dom(),
    {
        PeerAction::Reply(self.cache_report())
    }
}

/// The catch-up frame of a command, when it fits in a `u64`.
pub fn frame_for(position: u64, t: CatchUpTiming) -> (r: Option<u64>)
    ensures
        r == command_frame(position, t),
{
    if t.latency_ns > u64::MAX - t.processing_ns {
        return None;
    }
    let delay = t.latency_ns + t.processing_ns;
    let converted = crate::playback::convert_sample_position(position, t.host_rate, t.peer_rate);
    let comp = crate::playback::latency_compensation_frames(delay, t.peer_rate);
    if converted > u64::MAX - comp {
        return None;
    }
    Some(converted + comp)
}

/// Drift counts in both directions: a player ahead of the expected frame
/// is as far off as one behind it by the same number of frames.
pub proof fn law_drift_symmetric(expected: u64, actual: u64, rate: u32)
    ensures
        drifted(expected, actual, rate) == drifted(actual, expected, rate),
{
}

/// A player is off exactly when the frames between it and the expected
/// frame, in either direction, last longer than `DRIFT_THRESHOLD_MS` at
/// `rate` frames per second.
pub proof fn law_drift_threshold(expected: u64, actual: u64, rate: u32)
    ensures
        drifted(expected, actual, rate) <==> ((expected - actual) * 1000 > 50 * rate || (actual
            - expected) * 1000 > 50 * rate),
{
}

/// The frame at which a command is taken up is the host's position at the
/// peer's rate, plus the frames that play during the network latency and
/// the peer's own processing delay together; it exists exactly when both
/// the delay and the frame fit in a `u64`.
pub proof fn law_command_frame_counts_all_delay(position: u64, t: CatchUpTiming)
    ensures
        command_frame(position, t) is Some <==> (t.latency_ns + t.processing_ns <= u64::MAX
            && converted_position(position, t.host_rate, t.peer_rate) + rounded_ratio(
            (t.latency_ns + t.processing_ns) as nat * t.peer_rate as nat,
            1_000_000_000,
        ) <= u64::MAX),
        command_frame(position, t) is Some ==> command_frame(position, t)->0 == converted_position(
            position,
            t.host_rate,
            t.peer_rate,
        ) + rounded_ratio((t.latency_ns + t.processing_ns) as nat * t.peer_rate as nat, 1_000_000_000),
{
}

/// At equal rates the frame is the host's position plus the delay's
/// frames, `(latency + processing) × rate / 10^9` rounded to the nearest.
pub proof fn law_command_frame_same_rate(position: u64, t: CatchUpTiming)
    requires
        t.host_rate == t.peer_rate,
        t.latency_ns + t.processing_ns <= u64::MAX,
        command_frame(position, t) is Some,
    ensures
        ({
            let q = (2 * ((t.latency_ns + t.processing_ns) * t.peer_rate) + 1_000_000_000) / 2_000_000_000;
            q <= u64::MAX ==> command_frame(position, t)->0 == position + q
        }),
{
}

} // verus!
