use phaselock::messages::QueueItemStatus;
use phaselock::queue::QueueManager;

fn add_tracks(qm: &mut QueueManager, n: usize) -> Vec<u128> {
    (0..n)
        .map(|i| qm.add(format!("song{}.mp3", i + 1), (180.0 + i as f64).to_bits(), "host".into()))
        .collect()
}

fn random_id() -> u128 {
    uuid::Uuid::new_v4().as_u128()
}

#[test]
fn test_add_three_songs_order_preserved() {
    let mut qm = QueueManager::new();
    let ids = add_tracks(&mut qm, 3);

    let queue = qm.get_queue();
    assert_eq!(queue.len(), 3);
    assert_eq!(queue[0].id, ids[0]);
    assert_eq!(queue[1].id, ids[1]);
    assert_eq!(queue[2].id, ids[2]);
    for item in &queue {
        assert_eq!(item.status, QueueItemStatus::Transferring);
    }
}

#[test]
fn test_add_sets_metadata() {
    let mut qm = QueueManager::new();
    let id = qm.add("cool.mp3".into(), 200.5f64.to_bits(), "alice".into());

    let item = &qm.get_queue()[0];
    assert_eq!(item.id, id);
    assert_eq!(item.file_name, "cool.mp3");
    assert_eq!(f64::from_bits(item.duration_secs_bits), 200.5);
    assert_eq!(item.added_by, "alice");
}

#[test]
fn test_remove_middle_song() {
    let mut qm = QueueManager::new();
    let ids = add_tracks(&mut qm, 3);

    assert!(qm.remove(ids[1]));
    let queue = qm.get_queue();
    assert_eq!(queue.len(), 2);
    assert_eq!(queue[0].id, ids[0]);
    assert_eq!(queue[1].id, ids[2]);
}

#[test]
fn test_remove_nonexistent_returns_false() {
    let mut qm = QueueManager::new();
    add_tracks(&mut qm, 2);
    assert!(!qm.remove(random_id()));
}

#[test]
fn test_remove_currently_playing_adjusts_index() {
    let mut qm = QueueManager::new();
    let ids = add_tracks(&mut qm, 3);
    for &id in &ids {
        qm.mark_ready(id);
    }
    qm.advance();
    qm.advance();
    assert_eq!(qm.current().unwrap().id, ids[1]);

    qm.remove(ids[1]);
    assert_eq!(qm.current().unwrap().id, ids[2]);
}

#[test]
fn test_remove_before_current_adjusts_index() {
    let mut qm = QueueManager::new();
    let ids = add_tracks(&mut qm, 3);
    for &id in &ids {
        qm.mark_ready(id);
    }
    qm.advance();
    qm.advance();

    qm.remove(ids[0]);
    assert_eq!(qm.current().unwrap().id, ids[1]);
}

#[test]
fn test_reorder_move_last_to_first() {
    let mut qm = QueueManager::new();
    let ids = add_tracks(&mut qm, 3);

    assert!(qm.reorder(2, 0));
    let queue = qm.get_queue();
    assert_eq!(queue[0].id, ids[2]);
    assert_eq!(queue[1].id, ids[0]);
    assert_eq!(queue[2].id, ids[1]);
}

#[test]
fn test_reorder_move_first_to_last() {
    let mut qm = QueueManager::new();
    let ids = add_tracks(&mut qm, 3);

    assert!(qm.reorder(0, 2));
    let queue = qm.get_queue();
    assert_eq!(queue[0].id, ids[1]);
    assert_eq!(queue[1].id, ids[2]);
    assert_eq!(queue[2].id, ids[0]);
}

#[test]
fn test_reorder_out_of_bounds() {
    let mut qm = QueueManager::new();
    add_tracks(&mut qm, 2);
    assert!(!qm.reorder(0, 5));
    assert!(!qm.reorder(5, 0));
}

#[test]
fn test_reorder_same_position() {
    let mut qm = QueueManager::new();
    let ids = add_tracks(&mut qm, 3);
    assert!(qm.reorder(1, 1));
    assert_eq!(qm.get_queue()[1].id, ids[1]);
}

#[test]
fn test_reorder_tracks_current_index() {
    let mut qm = QueueManager::new();
    let ids = add_tracks(&mut qm, 4);
    for &id in &ids {
        qm.mark_ready(id);
    }
    qm.advance();
    qm.advance();

    qm.reorder(3, 0);
    assert_eq!(qm.current().unwrap().id, ids[1]);
}

#[test]
fn test_reorder_moves_current_track() {
    let mut qm = QueueManager::new();
    let ids = add_tracks(&mut qm, 3);
    for &id in &ids {
        qm.mark_ready(id);
    }
    qm.advance();
    qm.advance();

    qm.reorder(1, 0);
    assert_eq!(qm.current_index(), Some(0));
    assert_eq!(qm.current().unwrap().id, ids[1]);
}

#[test]
fn test_mark_ready() {
    let mut qm = QueueManager::new();
    let id = qm.add("a.mp3".into(), 100.0f64.to_bits(), "host".into());
    assert_eq!(qm.get_queue()[0].status, QueueItemStatus::Transferring);

    qm.mark_ready(id);
    assert_eq!(qm.get_queue()[0].status, QueueItemStatus::Ready);
    assert!(qm.is_ready(id));
}

#[test]
fn test_mark_playing() {
    let mut qm = QueueManager::new();
    let id = qm.add("a.mp3".into(), 100.0f64.to_bits(), "host".into());
    qm.mark_ready(id);
    qm.mark_playing(id);
    assert_eq!(qm.get_queue()[0].status, QueueItemStatus::Playing);
}

#[test]
fn test_mark_played() {
    let mut qm = QueueManager::new();
    let id = qm.add("a.mp3".into(), 100.0f64.to_bits(), "host".into());
    qm.mark_ready(id);
    qm.mark_playing(id);
    qm.mark_played(id);
    assert_eq!(qm.get_queue()[0].status, QueueItemStatus::Played);
}

#[test]
fn test_advance_from_empty_queue() {
    let mut qm = QueueManager::new();
    assert!(qm.advance().is_none());
}

#[test]
fn test_advance_first_track() {
    let mut qm = QueueManager::new();
    let ids = add_tracks(&mut qm, 2);
    qm.mark_ready(ids[0]);

    let next = qm.advance();
    assert!(next.is_some());
    assert_eq!(next.unwrap().id, ids[0]);
    assert_eq!(qm.current_index(), Some(0));
}

#[test]
fn test_advance_to_second_track() {
    let mut qm = QueueManager::new();
    let ids = add_tracks(&mut qm, 3);
    for &id in &ids {
        qm.mark_ready(id);
    }

    qm.advance();
    let next = qm.advance();
    assert_eq!(next.unwrap().id, ids[1]);
    assert_eq!(qm.get_queue()[0].status, QueueItemStatus::Played);
}

#[test]
fn test_advance_past_end_returns_none() {
    let mut qm = QueueManager::new();
    let ids = add_tracks(&mut qm, 1);
    qm.mark_ready(ids[0]);

    qm.advance();
    assert!(qm.advance().is_none());
}

#[test]
fn test_advance_not_ready_returns_none() {
    let mut qm = QueueManager::new();
    add_tracks(&mut qm, 2);

    assert!(qm.advance().is_none());
    assert_eq!(qm.current_index(), Some(0));
}

#[test]
fn test_skip_advances_to_next() {
    let mut qm = QueueManager::new();
    let ids = add_tracks(&mut qm, 3);
    for &id in &ids {
        qm.mark_ready(id);
    }

    qm.advance();
    let skipped_to = qm.skip();
    assert_eq!(skipped_to.unwrap().id, ids[1]);
    assert_eq!(qm.get_queue()[0].status, QueueItemStatus::Played);
}

#[test]
fn test_skip_at_end_returns_none() {
    let mut qm = QueueManager::new();
    let ids = add_tracks(&mut qm, 1);
    qm.mark_ready(ids[0]);

    qm.advance();
    assert!(qm.skip().is_none());
}

#[test]
fn test_peek_next_returns_next_without_advancing() {
    let mut qm = QueueManager::new();
    let ids = add_tracks(&mut qm, 3);
    for &id in &ids {
        qm.mark_ready(id);
    }

    qm.advance();
    let peeked = qm.peek_next();
    assert_eq!(peeked.unwrap().id, ids[1]);
    assert_eq!(qm.current().unwrap().id, ids[0]);
}

#[test]
fn test_peek_next_at_end_returns_none() {
    let mut qm = QueueManager::new();
    let ids = add_tracks(&mut qm, 1);
    qm.mark_ready(ids[0]);
    qm.advance();

    assert!(qm.peek_next().is_none());
}

#[test]
fn test_peek_next_no_current_returns_none() {
    let mut qm = QueueManager::new();
    add_tracks(&mut qm, 2);
    assert!(qm.peek_next().is_none());
}

#[test]
fn test_empty_queue_current_is_none() {
    let qm = QueueManager::new();
    assert!(qm.current().is_none());
    assert!(qm.is_empty());
    assert_eq!(qm.len(), 0);
}

#[test]
fn test_single_item_queue_full_lifecycle() {
    let mut qm = QueueManager::new();
    let id = qm.add("only.mp3".into(), 60.0f64.to_bits(), "host".into());

    qm.mark_ready(id);
    let track = qm.advance().unwrap();
    assert_eq!(track.id, id);

    qm.mark_playing(id);
    assert_eq!(qm.current().unwrap().status, QueueItemStatus::Playing);

    qm.mark_played(id);
    assert_eq!(qm.current().unwrap().status, QueueItemStatus::Played);

    assert!(qm.advance().is_none());
}

#[test]
fn test_is_ready_false_for_transferring() {
    let mut qm = QueueManager::new();
    let id = qm.add("x.mp3".into(), 100.0f64.to_bits(), "host".into());
    assert!(!qm.is_ready(id));
}

#[test]
fn test_is_ready_false_for_unknown_id() {
    let qm = QueueManager::new();
    assert!(!qm.is_ready(random_id()));
}

#[test]
fn test_remove_last_item_when_current() {
    let mut qm = QueueManager::new();
    let ids = add_tracks(&mut qm, 1);
    qm.mark_ready(ids[0]);
    qm.advance();

    qm.remove(ids[0]);
    assert!(qm.is_empty());
    assert!(qm.current().is_none());
}

// ── Further cases ───────────────────────────────────────────────────────────

#[test]
fn add_with_id_keeps_given_id() {
    let mut qm = QueueManager::new();
    qm.add_with_id(77, "req.mp3".into(), 12.0f64.to_bits(), "peer 2".into());
    let q = qm.get_queue();
    assert_eq!(q.len(), 1);
    assert_eq!(q[0].id, 77);
    assert_eq!(q[0].added_by, "peer 2");
    assert_eq!(q[0].status, QueueItemStatus::Transferring);
}

#[test]
fn add_then_remove_restores_queue() {
    let mut qm = QueueManager::new();
    let ids = add_tracks(&mut qm, 2);
    let before: Vec<u128> = qm.get_queue().iter().map(|i| i.id).collect();
    let id = qm.add("extra.mp3".into(), 1.0f64.to_bits(), "host".into());
    assert!(qm.remove(id));
    let after: Vec<u128> = qm.get_queue().iter().map(|i| i.id).collect();
    assert_eq!(before, after);
    assert_eq!(after, ids);
}

#[test]
fn reorder_and_back_is_identity() {
    let mut qm = QueueManager::new();
    let ids = add_tracks(&mut qm, 4);
    assert!(qm.reorder(0, 3));
    assert!(qm.reorder(3, 0));
    let after: Vec<u128> = qm.get_queue().iter().map(|i| i.id).collect();
    assert_eq!(after, ids);
}

#[test]
fn clear_empties_queue_and_current() {
    let mut qm = QueueManager::new();
    let ids = add_tracks(&mut qm, 2);
    qm.mark_ready(ids[0]);
    qm.advance();
    qm.clear();
    assert!(qm.is_empty());
    assert_eq!(qm.current_index(), None);
}

#[test]
fn upcoming_ids_from_current() {
    let mut qm = QueueManager::new();
    let ids = add_tracks(&mut qm, 7);
    assert_eq!(qm.upcoming_ids(3), ids[0..3].to_vec());
    for &id in &ids {
        qm.mark_ready(id);
    }
    qm.advance();
    qm.advance();
    qm.advance();
    assert_eq!(qm.upcoming_ids(5), ids[2..7].to_vec());
    assert_eq!(qm.upcoming_ids(10), ids[2..7].to_vec());
    assert_eq!(qm.upcoming_ids(0), Vec::<u128>::new());
}

#[test]
fn mark_unknown_id_changes_nothing() {
    let mut qm = QueueManager::new();
    add_tracks(&mut qm, 2);
    qm.mark_ready(random_id());
    for item in qm.get_queue() {
        assert_eq!(item.status, QueueItemStatus::Transferring);
    }
}
