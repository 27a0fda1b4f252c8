use phaselock::bytes::compute_sha256;
use phaselock::song_request::{
    prepare_upload, AutoRejectReason, SongRequestManager, UploadResult, MAX_FILE_SIZE,
    UPLOAD_CHUNK_SIZE,
};

fn make_test_data(size: usize) -> Vec<u8> {
    (0..size).map(|i| (i % 256) as u8).collect()
}

fn random_id() -> u128 {
    uuid::Uuid::new_v4().as_u128()
}

fn progress_ratio(mgr: &SongRequestManager, id: u128) -> Option<f64> {
    mgr.upload_progress(id).map(|(done, total)| done as f64 / total as f64)
}

#[test]
fn test_receive_request_creates_pending() {
    let mut mgr = SongRequestManager::new();
    let req = mgr.receive_request(1, "Alice".into(), "song.mp3".into(), 1000).unwrap();

    assert_eq!(req.peer_id, 1);
    assert_eq!(req.file_name, "song.mp3");
    assert_eq!(req.file_size, 1000);
    assert_eq!(mgr.pending_requests().len(), 1);
}

#[test]
fn test_auto_reject_file_too_large() {
    let mut mgr = SongRequestManager::new();
    let result = mgr.receive_request(1, "Alice".into(), "big.mp3".into(), MAX_FILE_SIZE + 1);
    assert_eq!(result.unwrap_err(), AutoRejectReason::FileTooLarge(MAX_FILE_SIZE + 1));
    assert!(mgr.pending_requests().is_empty());
}

#[test]
fn test_accept_moves_to_upload() {
    let mut mgr = SongRequestManager::new();
    let req = mgr.receive_request(1, "Alice".into(), "song.mp3".into(), 1000).unwrap();

    let accepted = mgr.accept(req.request_id).unwrap();
    assert_eq!(accepted.request_id, req.request_id);
    assert!(mgr.pending_requests().is_empty());
    assert!(mgr.has_active_upload(req.request_id));
}

#[test]
fn test_reject_removes_pending() {
    let mut mgr = SongRequestManager::new();
    let req = mgr.receive_request(1, "Alice".into(), "song.mp3".into(), 1000).unwrap();

    let rejected = mgr.reject(req.request_id).unwrap();
    assert_eq!(rejected.request_id, req.request_id);
    assert!(mgr.pending_requests().is_empty());
    assert!(!mgr.has_active_upload(req.request_id));
}

#[test]
fn test_reject_unknown_returns_none() {
    let mut mgr = SongRequestManager::new();
    assert!(mgr.reject(random_id()).is_none());
}

#[test]
fn test_accept_unknown_returns_none() {
    let mut mgr = SongRequestManager::new();
    assert!(mgr.accept(random_id()).is_none());
}

#[test]
fn test_full_upload_lifecycle_success() {
    let mut mgr = SongRequestManager::new();
    let data = make_test_data(200_000);
    let sha256 = compute_sha256(&data);

    let req = mgr.receive_request(1, "Alice".into(), "test.mp3".into(), data.len() as u64).unwrap();
    mgr.accept(req.request_id);

    let (chunks, _) = prepare_upload(&data);
    for (offset, chunk) in &chunks {
        assert!(mgr.receive_chunk(req.request_id, *offset, chunk));
    }

    let result = mgr.complete_upload(req.request_id, sha256).unwrap();
    match result {
        UploadResult::Success { request_id, file_data, .. } => {
            assert_eq!(request_id, req.request_id);
            assert_eq!(file_data, data);
        }
        _ => panic!("Expected Success"),
    }

    assert!(!mgr.has_active_upload(req.request_id));
}

#[test]
fn test_upload_hash_mismatch() {
    let mut mgr = SongRequestManager::new();
    let data = make_test_data(1000);
    let wrong_hash = [0xAA; 32];

    let req = mgr.receive_request(1, "Alice".into(), "test.mp3".into(), data.len() as u64).unwrap();
    mgr.accept(req.request_id);

    mgr.receive_chunk(req.request_id, 0, &data);

    let result = mgr.complete_upload(req.request_id, wrong_hash).unwrap();
    match result {
        UploadResult::HashMismatch { request_id } => {
            assert_eq!(request_id, req.request_id);
        }
        _ => panic!("Expected HashMismatch"),
    }
}

#[test]
fn test_chunk_overflow_rejected() {
    let mut mgr = SongRequestManager::new();
    let req = mgr.receive_request(1, "Alice".into(), "test.mp3".into(), 100).unwrap();
    mgr.accept(req.request_id);

    let big_chunk = vec![0u8; 200];
    assert!(!mgr.receive_chunk(req.request_id, 0, &big_chunk));
}

#[test]
fn test_chunk_for_unknown_upload_rejected() {
    let mut mgr = SongRequestManager::new();
    assert!(!mgr.receive_chunk(random_id(), 0, &[1, 2, 3]));
}

#[test]
fn test_complete_unknown_returns_none() {
    let mut mgr = SongRequestManager::new();
    assert!(mgr.complete_upload(random_id(), [0; 32]).is_none());
}

#[test]
fn test_upload_progress() {
    let mut mgr = SongRequestManager::new();
    let req = mgr.receive_request(1, "Alice".into(), "test.mp3".into(), 1000).unwrap();
    mgr.accept(req.request_id);

    assert_eq!(progress_ratio(&mgr, req.request_id), Some(0.0));

    mgr.receive_chunk(req.request_id, 0, &[0u8; 500]);
    assert!((progress_ratio(&mgr, req.request_id).unwrap() - 0.5).abs() < 0.001);

    mgr.receive_chunk(req.request_id, 500, &[0u8; 500]);
    assert!((progress_ratio(&mgr, req.request_id).unwrap() - 1.0).abs() < 0.001);
}

#[test]
fn test_cancel_peer_removes_pending_and_uploads() {
    let mut mgr = SongRequestManager::new();

    let req1 = mgr.receive_request(1, "Alice".into(), "a.mp3".into(), 100).unwrap();
    let req2 = mgr.receive_request(1, "Alice".into(), "b.mp3".into(), 200).unwrap();
    mgr.accept(req2.request_id);
    let req3 = mgr.receive_request(2, "Bob".into(), "c.mp3".into(), 300).unwrap();

    mgr.cancel_peer(1);

    assert!(mgr.pending_requests().len() == 1);
    assert_eq!(mgr.pending_requests()[0].request_id, req3.request_id);
    assert!(!mgr.has_active_upload(req2.request_id));
    assert!(mgr.reject(req1.request_id).is_none());
}

#[test]
fn test_prepare_upload_chunks_and_hash() {
    let data = make_test_data(UPLOAD_CHUNK_SIZE * 2 + 100);
    let (chunks, sha256) = prepare_upload(&data);

    assert_eq!(chunks.len(), 3);
    assert_eq!(chunks[0].0, 0);
    assert_eq!(chunks[0].1.len(), UPLOAD_CHUNK_SIZE);
    assert_eq!(chunks[1].0, UPLOAD_CHUNK_SIZE as u64);
    assert_eq!(chunks[1].1.len(), UPLOAD_CHUNK_SIZE);
    assert_eq!(chunks[2].0, (UPLOAD_CHUNK_SIZE * 2) as u64);
    assert_eq!(chunks[2].1.len(), 100);

    let mut reassembled = Vec::new();
    for (_, chunk) in &chunks {
        reassembled.extend_from_slice(chunk);
    }
    assert_eq!(compute_sha256(&reassembled), sha256);
}

#[test]
fn test_prepare_upload_exact_chunk_boundary() {
    let data = make_test_data(UPLOAD_CHUNK_SIZE * 3);
    let (chunks, _) = prepare_upload(&data);
    assert_eq!(chunks.len(), 3);
    for (i, (offset, chunk)) in chunks.iter().enumerate() {
        assert_eq!(*offset, (i * UPLOAD_CHUNK_SIZE) as u64);
        assert_eq!(chunk.len(), UPLOAD_CHUNK_SIZE);
    }
}

#[test]
fn test_multiple_pending_requests() {
    let mut mgr = SongRequestManager::new();
    let r1 = mgr.receive_request(1, "Alice".into(), "a.mp3".into(), 100).unwrap();
    let r2 = mgr.receive_request(2, "Bob".into(), "b.mp3".into(), 200).unwrap();
    let r3 = mgr.receive_request(3, "Carol".into(), "c.mp3".into(), 300).unwrap();

    assert_eq!(mgr.pending_requests().len(), 3);

    mgr.reject(r2.request_id);
    assert_eq!(mgr.pending_requests().len(), 2);

    mgr.accept(r1.request_id);
    assert_eq!(mgr.pending_requests().len(), 1);
    assert_eq!(mgr.pending_requests()[0].request_id, r3.request_id);
}

#[test]
fn test_file_at_max_size_accepted() {
    let mut mgr = SongRequestManager::new();
    let result = mgr.receive_request(1, "Alice".into(), "big.mp3".into(), MAX_FILE_SIZE);
    assert!(result.is_ok());
}

// ── Further cases ───────────────────────────────────────────────────────────

#[test]
fn chunk_past_end_rejected_and_buffer_unchanged() {
    let mut mgr = SongRequestManager::new();
    let req = mgr.receive_request(4, "Dan".into(), "d.mp3".into(), 10).unwrap();
    mgr.accept(req.request_id);
    assert!(!mgr.receive_chunk(req.request_id, 8, &[1, 2, 3]));
    assert_eq!(mgr.upload_progress(req.request_id), Some((0, 10)));
    assert!(mgr.receive_chunk(req.request_id, 7, &[1, 2, 3]));
    assert_eq!(mgr.upload_progress(req.request_id), Some((3, 10)));
}

#[test]
fn empty_upload_roundtrip() {
    let mut mgr = SongRequestManager::new();
    let data: Vec<u8> = Vec::new();
    let req = mgr.receive_request(1, "A".into(), "e.mp3".into(), 0).unwrap();
    mgr.accept(req.request_id);
    let (chunks, sha) = prepare_upload(&data);
    assert!(chunks.is_empty());
    match mgr.complete_upload(req.request_id, sha).unwrap() {
        UploadResult::Success { file_data, peer_id, file_name, .. } => {
            assert!(file_data.is_empty());
            assert_eq!(peer_id, 1);
            assert_eq!(file_name, "e.mp3");
        }
        _ => panic!("Expected Success"),
    }
}

#[test]
fn clear_drops_everything() {
    let mut mgr = SongRequestManager::new();
    let r = mgr.receive_request(1, "A".into(), "a.mp3".into(), 5).unwrap();
    let r2 = mgr.receive_request(1, "A".into(), "b.mp3".into(), 5).unwrap();
    mgr.accept(r2.request_id);
    mgr.clear();
    assert!(mgr.pending_requests().is_empty());
    assert!(!mgr.has_active_upload(r2.request_id));
    assert!(mgr.accept(r.request_id).is_none());
}

#[test]
fn sha256_known_value_of_abc() {
    let h = compute_sha256(b"abc");
    let expected: [u8; 32] = [
        0xba, 0x78, 0x16, 0xbf, 0x8f, 0x01, 0xcf, 0xea, 0x41, 0x41, 0x40, 0xde, 0x5d, 0xae, 0x22,
        0x23, 0xb0, 0x03, 0x61, 0xa3, 0x96, 0x17, 0x7a, 0x9c, 0xb4, 0x10, 0xff, 0x61, 0xf2, 0x00,
        0x15, 0xad,
    ];
    assert_eq!(h, expected);
}
