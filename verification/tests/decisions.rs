use phaselock::bytes::compute_sha256;
use phaselock::clock::{ClockSync, HostClockTracker, STALE_THRESHOLD_NS, WINDOW_SIZE};
use phaselock::control::{add_song, add_uploaded_song, song_request, tracks_to_evict, tracks_to_predecode, AddSongError};
use phaselock::file_transfer::{FileTransferManager, TransferError};
use phaselock::file_transfer::ReceivedAction;
use phaselock::host_sync::{HostAction, HostSync};
use phaselock::messages::{Message, QueueItemStatus};
use phaselock::session::{PeerRoster, SessionEvent};
use phaselock::song_request::{prepare_upload, AutoRejectReason};
use std::time::Instant;
use phaselock::peer_sync::{CatchUpTiming, PeerAction, PeerSync, PlayerStatus};
use phaselock::playback::PlaybackStateEnum;
use phaselock::queue::{PlayChoice, PlayError, QueueManager};
use phaselock::track_info::{find_unreadable_id3, parse_mp3_metadata};

// ── Adding songs ────────────────────────────────────────────────────────────

#[test]
fn add_song_refusals_leave_the_queue_alone() {
    let mut q = QueueManager::new();
    let bits = 180.0f64.to_bits();
    assert_eq!(add_song(&mut q, false, "a.mp3".into(), "mp3", 10, Some(bits)), Err(AddSongError::NotHost));
    assert_eq!(add_song(&mut q, true, "a.wav".into(), "wav", 10, Some(bits)), Err(AddSongError::UnsupportedFormat));
    assert_eq!(
        add_song(&mut q, true, "a.mp3".into(), "MP3", 50 * 1024 * 1024 + 1, Some(bits)),
        Err(AddSongError::TooLarge)
    );
    assert_eq!(add_song(&mut q, true, "a.mp3".into(), "mp3", 10, None), Err(AddSongError::InvalidMp3));
    assert!(q.is_empty());
    assert_eq!(AddSongError::InvalidMp3.message(), "Invalid or corrupted MP3 file.");
    assert_eq!(AddSongError::NotHost.message(), "Only the host can add songs directly.");
}

#[test]
fn add_song_appends_one_ready_entry_by_host() {
    let mut q = QueueManager::new();
    let bits = 180.0f64.to_bits();
    let id = add_song(&mut q, true, "a.mp3".into(), "Mp3", 50 * 1024 * 1024, Some(bits)).unwrap();
    let items = q.get_queue();
    assert_eq!(items.len(), 1);
    assert_eq!(items[0].id, id);
    assert_eq!(items[0].file_name, "a.mp3");
    assert_eq!(items[0].added_by, "host");
    assert_eq!(items[0].status, QueueItemStatus::Ready);
    assert_eq!(items[0].duration_secs_bits, bits);
}

#[test]
fn uploaded_song_keeps_request_id() {
    let mut q = QueueManager::new();
    assert!(!add_uploaded_song(&mut q, 77, "b.mp3".into(), 4, None));
    assert!(q.is_empty());
    assert!(add_uploaded_song(&mut q, 77, "b.mp3".into(), 42, Some(3)));
    let items = q.get_queue();
    assert_eq!(items.len(), 1);
    assert_eq!(items[0].id, 77);
    assert_eq!(items[0].added_by, "peer 42");
    assert_eq!(items[0].status, QueueItemStatus::Ready);
}

// ── Choosing the track to play ──────────────────────────────────────────────

fn ready_queue(n: u128) -> QueueManager {
    let mut q = QueueManager::new();
    for id in 1..=n {
        q.add_with_id(id, format!("t{id}.mp3"), 0, "host".into());
        q.mark_ready(id);
    }
    q
}

#[test]
fn play_on_empty_queue_fails() {
    let mut q = QueueManager::new();
    assert_eq!(q.choose_track_to_play(), Err(PlayError::NoTrackReady));
    assert_eq!(PlayError::NoTrackReady.message(), "No tracks ready to play.");
}

#[test]
fn play_starts_first_then_resumes_playing() {
    let mut q = ready_queue(2);
    assert_eq!(q.choose_track_to_play(), Ok(PlayChoice::Start(1)));
    assert_eq!(q.current_index(), Some(0));
    // The current track is ready: it is started again, nothing moves.
    assert_eq!(q.choose_track_to_play(), Ok(PlayChoice::Start(1)));
    q.mark_playing(1);
    assert_eq!(q.choose_track_to_play(), Ok(PlayChoice::Resume(1)));
    assert_eq!(q.current_index(), Some(0));
}

#[test]
fn play_after_the_last_track_restarts_the_queue() {
    let mut q = ready_queue(2);
    q.advance();
    q.advance();
    q.advance(); // past the end: both played
    let statuses: Vec<_> = q.get_queue().iter().map(|i| i.status).collect();
    assert_eq!(statuses, vec![QueueItemStatus::Played, QueueItemStatus::Played]);
    assert_eq!(q.choose_track_to_play(), Ok(PlayChoice::Start(1)));
    assert_eq!(q.current_index(), Some(0));
    let statuses: Vec<_> = q.get_queue().iter().map(|i| i.status).collect();
    assert_eq!(statuses, vec![QueueItemStatus::Ready, QueueItemStatus::Ready]);
}

#[test]
fn play_with_nothing_ready_fails_after_restart() {
    let mut q = QueueManager::new();
    q.add_with_id(9, "t.mp3".into(), 0, "host".into()); // still transferring
    assert_eq!(q.choose_track_to_play(), Err(PlayError::NoTrackReady));
    assert_eq!(q.current_index(), Some(0));
}

#[test]
fn restart_makes_played_tracks_ready() {
    let mut q = ready_queue(3);
    q.mark_played(2);
    q.advance();
    q.restart();
    assert_eq!(q.current_index(), None);
    assert!(q.get_queue().iter().all(|i| i.status == QueueItemStatus::Ready));
}

// ── Decoding ahead ──────────────────────────────────────────────────────────

#[test]
fn predecode_and_evict_follow_the_window() {
    let mut q = ready_queue(7);
    q.advance(); // current = 1; window = 1..=5
    assert_eq!(tracks_to_predecode(&q, &vec![2, 4, 7]), vec![1, 3, 5]);
    assert_eq!(tracks_to_evict(&q, &vec![2, 4, 7, 6]), vec![7, 6]);
    q.advance(); // current = 2; window = 2..=6
    assert_eq!(tracks_to_predecode(&q, &vec![]), vec![2, 3, 4, 5, 6]);
}

// ── The peer's message step ─────────────────────────────────────────────────

fn idle() -> PlayerStatus {
    PlayerStatus { state: PlaybackStateEnum::Stopped, position: 0 }
}

fn timing() -> CatchUpTiming {
    CatchUpTiming { latency_ns: 10_000_000, processing_ns: 0, host_rate: 48_000, peer_rate: 48_000 }
}

#[test]
fn peer_receives_a_file_and_plays_it() {
    let mut p = PeerSync::new();
    let data = vec![7u8; 100];
    let sha256 = compute_sha256(&data);
    let a = p.on_host_message(
        Message::FileTransferStart { file_id: 5, file_name: "s.mp3".into(), size: 100, sha256 },
        timing(),
        idle(),
    );
    assert!(matches!(a, PeerAction::Nothing));
    // Play before the file is here: stop.
    let a = p.on_host_message(Message::PlayCommand { file_id: 5, position_samples: 0, target_time_ns: 0 }, timing(), idle());
    assert!(matches!(a, PeerAction::Stop));
    assert_eq!(p.current_file, None);
    let a = p.on_host_message(Message::FileChunk { file_id: 5, offset: 0, data: data[..60].to_vec() }, timing(), idle());
    assert!(matches!(a, PeerAction::Nothing));
    let a = p.on_host_message(Message::FileChunk { file_id: 5, offset: 60, data: data[60..].to_vec() }, timing(), idle());
    match a {
        PeerAction::Reply(Message::FileReceived { file_id, hash_ok }) => {
            assert_eq!(file_id, 5);
            assert!(hash_ok);
        }
        other => panic!("unexpected {other:?}"),
    }
    assert_eq!(p.cache.get(&5), Some(&data));
    // 10 ms at 48 kHz is 480 frames of catch-up.
    let a = p.on_host_message(Message::PlayCommand { file_id: 5, position_samples: 1000, target_time_ns: 0 }, timing(), idle());
    match a {
        PeerAction::Play { file_id, frame } => {
            assert_eq!(file_id, 5);
            assert_eq!(frame, 1480);
        }
        other => panic!("unexpected {other:?}"),
    }
    assert_eq!(p.current_file, Some(5));
    assert!(matches!(
        p.on_host_message(Message::PauseCommand { position_samples: 2000 }, timing(), idle()),
        PeerAction::Pause { frame: 2480 }
    ));
    assert!(matches!(
        p.on_host_message(Message::SeekCommand { position_samples: 0, target_time_ns: 0 }, timing(), idle()),
        PeerAction::Resume { frame: 480 }
    ));
    assert!(matches!(p.on_host_message(Message::StopCommand, timing(), idle()), PeerAction::Stop));
    assert_eq!(p.current_file, None);
}

#[test]
fn peer_reports_a_corrupt_file() {
    let mut p = PeerSync::new();
    p.on_host_message(
        Message::FileTransferStart { file_id: 6, file_name: "s.mp3".into(), size: 4, sha256: [0u8; 32] },
        timing(),
        idle(),
    );
    let a = p.on_host_message(Message::FileChunk { file_id: 6, offset: 0, data: vec![1, 2, 3, 4] }, timing(), idle());
    assert!(matches!(a, PeerAction::Reply(Message::FileReceived { file_id: 6, hash_ok: false })));
    assert!(!p.cache.has(&6));
}

#[test]
fn peer_mirrors_the_queue_and_drops_overflowing_commands() {
    let mut p = PeerSync::new();
    let q = ready_queue(2).get_queue();
    assert!(matches!(p.on_host_message(Message::QueueUpdate { queue: q.clone() }, timing(), idle()), PeerAction::Nothing));
    assert_eq!(p.queue, q);
    let huge = CatchUpTiming { latency_ns: u64::MAX, processing_ns: 1, host_rate: 48_000, peer_rate: 48_000 };
    assert!(matches!(p.on_host_message(Message::PauseCommand { position_samples: 0 }, huge, idle()), PeerAction::Nothing));
    assert!(matches!(p.on_host_message(Message::Heartbeat, timing(), idle()), PeerAction::Nothing));
}

// ── ID3 tags the tag reader cannot take ─────────────────────────────────────

fn id3v24_with_restrictions(restrictions: u8) -> Vec<u8> {
    let mut d = b"ID3".to_vec();
    d.extend([4u8, 0, 0x40]); // v2.4, extended header
    d.extend([0u8, 0, 0, 20]); // tag size
    d.extend([0u8, 0, 0, 6]); // extended header size
    d.push(1); // one flag byte
    d.push(0x10); // restrictions present
    d.push(1); // restrictions length
    d.push(restrictions);
    d.extend([0u8; 30]);
    d
}

#[test]
fn restricted_id3v24_tags_are_not_probed() {
    let bad = id3v24_with_restrictions(0x40);
    assert!(find_unreadable_id3(&bad));
    let m = parse_mp3_metadata(&bad);
    assert!(m.title.is_none() && m.artist.is_none());
    let mut shifted = vec![0u8; 5];
    shifted.extend(bad);
    assert!(find_unreadable_id3(&shifted));
    assert!(!find_unreadable_id3(&id3v24_with_restrictions(0x3f)));
    assert!(!find_unreadable_id3(&[0u8; 3]));
}

// ── Clock bookkeeping ───────────────────────────────────────────────────────

#[test]
fn window_never_exceeds_its_size() {
    let mut cs = ClockSync::new();
    for i in 0..(WINDOW_SIZE as u64 + 5) {
        let before = cs.measurement_count();
        cs.record_pong_at(0, 500, 500, 1000, i);
        assert_eq!(cs.measurement_count(), (before + 1).min(WINDOW_SIZE));
    }
    // Everything older than the threshold goes; the new one stays.
    cs.record_pong_at(0, 500, 500, 1000, 100 + STALE_THRESHOLD_NS);
    assert_eq!(cs.measurement_count(), 1);
}

#[test]
fn tracker_keeps_other_peers_records() {
    let mut t = HostClockTracker::new();
    t.record_ping(1, 100, 200, 210);
    t.record_ping(2, 0, 0, 40);
    let other = *t.get_latency(2).unwrap();
    t.record_ping(1, 0, 0, 1000);
    let after = *t.get_latency(2).unwrap();
    assert_eq!(after.estimated_one_way_ns, other.estimated_one_way_ns);
    assert_eq!(after.last_updated, other.last_updated);
    assert_eq!(t.get_latency(1).unwrap().estimated_one_way_ns, 500);
    t.remove_peer(1);
    assert!(t.get_latency(1).is_none());
    assert_eq!(t.get_latency(2).unwrap().last_updated, other.last_updated);
    t.remove_peer(9);
    assert_eq!(t.get_latency(2).unwrap().estimated_one_way_ns, 20);
}

// ── The host's event step ───────────────────────────────────────────────────

fn msg(peer_id: u32, message: Message) -> SessionEvent {
    SessionEvent::MessageReceived { peer_id, message }
}

#[test]
fn host_handles_a_song_upload() {
    let mut roster = PeerRoster::new();
    let _ = roster.handle_join(4, "Dana", Instant::now());
    let mut h = HostSync::new();
    let data = vec![9u8; 70_000];
    let a = h.on_peer_event(msg(4, Message::SongRequest { file_name: "x.mp3".into(), file_size: 70_000 }), &roster, &QueueManager::new());
    let req = match a {
        HostAction::NewRequest(r) => r,
        other => panic!("unexpected {other:?}"),
    };
    assert_eq!(req.peer_name, "Dana");
    assert_eq!(req.peer_id, 4);
    assert!(h.song_requests.accept(req.request_id).is_some());
    let (chunks, sha256) = prepare_upload(&data);
    for (offset, chunk) in chunks {
        let a = h.on_peer_event(msg(4, Message::SongUploadChunk { request_id: req.request_id, offset, data: chunk }), &roster, &QueueManager::new());
        assert!(matches!(a, HostAction::Nothing));
    }
    let a = h.on_peer_event(msg(4, Message::SongUploadComplete { request_id: req.request_id, sha256 }), &roster, &QueueManager::new());
    match a {
        HostAction::UploadVerified { request_id, file_name, peer_id, file_data } => {
            assert_eq!(request_id, req.request_id);
            assert_eq!(file_name, "x.mp3");
            assert_eq!(peer_id, 4);
            assert_eq!(file_data, data);
        }
        other => panic!("unexpected {other:?}"),
    }
    let a = h.on_peer_event(msg(4, Message::SongUploadComplete { request_id: req.request_id, sha256 }), &roster, &QueueManager::new());
    assert!(matches!(a, HostAction::UnknownUpload));
}

#[test]
fn host_refuses_and_routes() {
    let roster = PeerRoster::new();
    let mut h = HostSync::new();
    let a = h.on_peer_event(msg(8, Message::SongRequest { file_name: "big.mp3".into(), file_size: 60 * 1024 * 1024 }), &roster, &QueueManager::new());
    assert!(matches!(a, HostAction::RequestRefused(AutoRejectReason::FileTooLarge(n)) if n == 60 * 1024 * 1024));
    let a = h.on_peer_event(msg(8, Message::SongRequest { file_name: "s.mp3".into(), file_size: 10 }), &roster, &QueueManager::new());
    match a {
        HostAction::NewRequest(r) => assert_eq!(r.peer_name, "Peer 8"),
        other => panic!("unexpected {other:?}"),
    }
    let a = h.on_peer_event(msg(8, Message::SongUploadChunk { request_id: 1, offset: 0, data: vec![1] }), &roster, &QueueManager::new());
    assert!(matches!(a, HostAction::ChunkRefused));
    let a = h.on_peer_event(msg(8, Message::FileReceived { file_id: 3, hash_ok: true }), &roster, &QueueManager::new());
    assert!(matches!(a, HostAction::Transfer(ReceivedAction::Ignore)));
    let a = h.on_peer_event(SessionEvent::PeerLeft { peer_id: 8 }, &roster, &QueueManager::new());
    assert!(matches!(a, HostAction::Nothing));
    assert!(h.song_requests.pending_requests().is_empty());
}

// ── Song requests and transfers under a given id ────────────────────────────

#[test]
fn song_request_checks() {
    assert_eq!(song_request(false, "a.mp3".into(), "mp3", 1).unwrap_err(), AddSongError::NotPeer);
    assert_eq!(song_request(true, "a.ogg".into(), "ogg", 1).unwrap_err(), AddSongError::UnsupportedFormat);
    assert_eq!(
        song_request(true, "a.mp3".into(), "mp3", 50 * 1024 * 1024 + 1).unwrap_err(),
        AddSongError::TooLarge
    );
    assert_eq!(
        song_request(true, "a.mp3".into(), "mP3", 50 * 1024 * 1024).unwrap(),
        Message::SongRequest { file_name: "a.mp3".into(), file_size: 50 * 1024 * 1024 }
    );
    assert_eq!(AddSongError::NotPeer.message(), "Only peers can request songs.");
}

#[test]
fn transfer_under_a_given_id() {
    let mut m = FileTransferManager::new();
    assert!(matches!(m.start_transfer_with_id(11, "a.mp3".into(), vec![1, 2, 3], &[1, 2]), Ok(11)));
    assert_eq!(m.send_progress(11), Some((0, 2, 0)));
    assert!(matches!(
        m.start_transfer_with_id(11, "b.mp3".into(), vec![4], &[1]),
        Err(TransferError::AlreadyTransferring(11))
    ));
    assert!(matches!(m.start_transfer_with_id(12, "c.mp3".into(), vec![], &[1]), Err(TransferError::FileEmpty)));
}

#[test]
fn clock_getters_and_pong_count() {
    let mut cs = ClockSync::new();
    assert_eq!(cs.offset_ns(), 0);
    assert_eq!(cs.latency_ns(), 0);
    cs.record_pong(1000, 2010, 2020, 3000);
    assert_eq!(cs.measurement_count(), 1);
    assert_eq!(cs.offset_ns(), 15);
    assert_eq!(cs.latency_ns(), 995);
}

// ── File sync and catch-up ──────────────────────────────────────────────────

fn update(file_id: u128, position_samples: u64, state: &str) -> Message {
    Message::PlaybackStateUpdate {
        state: state.into(),
        file_name: "s.mp3".into(),
        position_ms: 0,
        duration_ms: 0,
        file_id,
        position_samples,
        sample_rate: 48_000,
    }
}

fn holding(file_id: u128) -> PeerSync {
    let mut p = PeerSync::new();
    let data = vec![3u8; 10];
    let sha256 = compute_sha256(&data);
    p.on_host_message(Message::FileTransferStart { file_id, file_name: "s.mp3".into(), size: 10, sha256 }, timing(), idle());
    p.on_host_message(Message::FileChunk { file_id, offset: 0, data }, timing(), idle());
    p
}

#[test]
fn host_sends_the_missing_files_of_the_window() {
    let roster = PeerRoster::new();
    let mut h = HostSync::new();
    let mut q = ready_queue(7);
    q.advance(); // window: ids 1..=5
    let a = h.on_peer_event(msg(3, Message::FileCacheReport { file_ids: vec![2, 5, 6] }), &roster, &q);
    match a {
        HostAction::SendFiles { peer_id, file_ids } => {
            assert_eq!(peer_id, 3);
            assert_eq!(file_ids, vec![1, 3, 4]);
        }
        other => panic!("unexpected {other:?}"),
    }
    assert!(phaselock::control::in_transfer_window(&q, 5));
    assert!(!phaselock::control::in_transfer_window(&q, 6));
}

#[test]
fn peer_reports_and_finds_missing_files() {
    let mut p = holding(2);
    match p.cache_report() {
        Message::FileCacheReport { file_ids } => assert_eq!(file_ids, vec![2]),
        other => panic!("unexpected {other:?}"),
    }
    let mut q = ready_queue(4).get_queue();
    q[0].status = QueueItemStatus::Played;
    p.on_host_message(Message::QueueUpdate { queue: q }, timing(), idle());
    // From the first unplayed entry (id 2): ids 2, 3, 4; 2 is held.
    assert_eq!(p.missing_upcoming(5), vec![3, 4]);
    assert_eq!(p.missing_upcoming(1), Vec::<u128>::new());
}

#[test]
fn catch_up_on_state_updates() {
    let playing_other = PlayerStatus { state: PlaybackStateEnum::Playing, position: 0 };
    // Host plays a held file while the peer is stopped: start it.
    let mut p = holding(2);
    match p.on_host_message(update(2, 1000, "playing"), timing(), idle()) {
        PeerAction::Play { file_id, frame } => {
            assert_eq!(file_id, 2);
            assert_eq!(frame, 1480);
        }
        other => panic!("unexpected {other:?}"),
    }
    assert_eq!(p.current_file, Some(2));
    // A file the peer lacks: it reports what it holds.
    let mut p = holding(2);
    match p.on_host_message(update(9, 0, "playing"), timing(), playing_other) {
        PeerAction::Reply(Message::FileCacheReport { file_ids }) => assert_eq!(file_ids, vec![2]),
        other => panic!("unexpected {other:?}"),
    }
    // Paused on the host's track: resume at the catch-up frame.
    let paused = PlayerStatus { state: PlaybackStateEnum::Paused, position: 5 };
    assert!(matches!(p.on_host_message(update(2, 0, "playing"), timing(), idle()), PeerAction::Play { .. }));
    assert!(matches!(
        p.on_host_message(update(2, 100, "playing"), timing(), paused),
        PeerAction::Resume { frame: 580 }
    ));
    // The host is paused: nothing to do.
    assert!(matches!(p.on_host_message(update(2, 100, "paused"), timing(), idle()), PeerAction::Nothing));
}

#[test]
fn drift_correction_beyond_fifty_ms() {
    let mut p = holding(2);
    p.on_host_message(update(2, 0, "playing"), timing(), idle());
    // Expected frame 10_480; 50 ms at 48 kHz is 2400 frames.
    let near = PlayerStatus { state: PlaybackStateEnum::Playing, position: 10_480 - 2400 };
    assert!(matches!(p.on_host_message(update(2, 10_000, "playing"), timing(), near), PeerAction::Nothing));
    let far = PlayerStatus { state: PlaybackStateEnum::Playing, position: 10_480 - 2401 };
    assert!(matches!(
        p.on_host_message(update(2, 10_000, "playing"), timing(), far),
        PeerAction::Seek { frame: 10_480 }
    ));
    // No correction while a file is still arriving.
    p.on_host_message(
        Message::FileTransferStart { file_id: 8, file_name: "t.mp3".into(), size: 4, sha256: [0u8; 32] },
        timing(),
        idle(),
    );
    assert!(matches!(p.on_host_message(update(2, 10_000, "playing"), timing(), far), PeerAction::Nothing));
}
