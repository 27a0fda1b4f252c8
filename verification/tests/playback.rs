use phaselock::control::{
    back_action, check_song_file, ids_not_in, peer_catch_up_frame, position_ms, AddSongError,
    catch_up_action, BackAction, CatchUp, MAX_SONG_FILE_SIZE,
};
use phaselock::playback::{
    callback_step, convert_sample_position, frame_of, latency_compensation_frames, seek_index,
    state_code, CallbackStep, PlaybackError, PlaybackStateEnum, STATE_PAUSED, STATE_PLAYING,
    STATE_STOPPED, STATE_WAITING,
};

#[test]
fn test_initial_state_is_stopped() {
    assert_eq!(PlaybackStateEnum::from(STATE_STOPPED), PlaybackStateEnum::Stopped);
}

#[test]
fn test_state_transitions_waiting_to_playing() {
    // 1000 frames of stereo, start instant in the past, 256-sample output.
    let step = callback_step(STATE_WAITING, true, 0, 2000, 256);
    assert_eq!(PlaybackStateEnum::from(step.next_state), PlaybackStateEnum::Playing);
    assert_eq!(step.copy_count, 256);
    assert!(!step.finished);
}

#[test]
fn test_state_waiting_future_writes_silence() {
    let step = callback_step(STATE_WAITING, false, 0, 2000, 256);
    assert_eq!(PlaybackStateEnum::from(step.next_state), PlaybackStateEnum::Waiting);
    assert_eq!(step.copy_count, 0);
    assert_eq!(step.new_position, 0);
}

#[test]
fn test_playing_fills_samples_and_advances_position() {
    let step = callback_step(STATE_PLAYING, false, 0, 200, 20);
    assert_eq!(step.new_position, 20);
    assert_eq!(step.copy_count, 20);
}

#[test]
fn test_playing_reaches_end_transitions_to_stopped() {
    // 10 frames of stereo = 20 samples; 40 requested.
    let step = callback_step(STATE_PLAYING, false, 0, 20, 40);
    assert_eq!(PlaybackStateEnum::from(step.next_state), PlaybackStateEnum::Stopped);
    assert_eq!(step.copy_count, 20);
    assert!(step.finished);
}

#[test]
fn test_paused_writes_silence() {
    let step = callback_step(STATE_PAUSED, true, 50, 200, 20);
    assert_eq!(step.copy_count, 0);
    assert_eq!(step.new_position, 50);
    assert_eq!(step.next_state, STATE_PAUSED);
}

#[test]
fn test_stopped_writes_silence() {
    let step = callback_step(STATE_STOPPED, true, 0, 200, 20);
    assert_eq!(step.copy_count, 0);
    assert_eq!(step.next_state, STATE_STOPPED);
}

#[test]
fn test_on_finished_callback_fires() {
    let step = callback_step(STATE_PLAYING, false, 0, 20, 64);
    assert!(step.finished);
    assert_eq!(PlaybackStateEnum::from(step.next_state), PlaybackStateEnum::Stopped);
}

#[test]
fn test_pause_resume_cycle() {
    let s1 = callback_step(STATE_PLAYING, false, 0, 2000, 100);
    assert_eq!(s1.new_position, 100);
    let s2 = callback_step(STATE_PAUSED, false, s1.new_position, 2000, 100);
    assert_eq!(s2.new_position, 100);
    let s3 = callback_step(STATE_WAITING, true, s2.new_position, 2000, 100);
    assert_eq!(PlaybackStateEnum::from(s3.next_state), PlaybackStateEnum::Playing);
    assert_eq!(s3.new_position, 200);
}

#[test]
fn test_seek_updates_position() {
    let idx = seek_index(500, 2);
    assert_eq!(idx, 1000);
    let step = callback_step(STATE_PLAYING, false, idx, 2000, 20);
    assert_eq!(step.new_position, 1020);
}

// ── Further cases ───────────────────────────────────────────────────────────

#[test]
fn empty_buffer_keeps_playing_silently() {
    let step = callback_step(STATE_PLAYING, false, 7, 0, 16);
    assert_eq!(
        step,
        CallbackStep { next_state: STATE_PLAYING, copy_count: 0, new_position: 7, finished: false }
    );
}

#[test]
fn position_past_end_finishes() {
    let step = callback_step(STATE_PLAYING, false, 30, 20, 4);
    assert_eq!(step.copy_count, 0);
    assert!(step.finished);
    assert_eq!(step.next_state, STATE_STOPPED);
}

#[test]
fn unknown_state_code_is_silent_and_reads_stopped() {
    let step = callback_step(9, true, 3, 20, 4);
    assert_eq!(step.copy_count, 0);
    assert_eq!(step.next_state, 9);
    assert_eq!(PlaybackStateEnum::from(9), PlaybackStateEnum::Stopped);
}

#[test]
fn state_codes_roundtrip() {
    for s in [
        PlaybackStateEnum::Stopped,
        PlaybackStateEnum::Waiting,
        PlaybackStateEnum::Playing,
        PlaybackStateEnum::Paused,
    ] {
        assert_eq!(PlaybackStateEnum::from(state_code(s)), s);
    }
}

#[test]
fn frame_of_position() {
    assert_eq!(frame_of(1001, 2), 500);
    assert_eq!(frame_of(1001, 0), 0);
}

#[test]
fn convert_position_between_rates() {
    assert_eq!(convert_sample_position(44_100, 44_100, 48_000), 48_000);
    assert_eq!(convert_sample_position(12_345, 48_000, 48_000), 12_345);
    assert_eq!(convert_sample_position(12_345, 0, 48_000), 12_345);
    // 1 * 48000 / 44100 = 1.088… → 1
    assert_eq!(convert_sample_position(1, 44_100, 48_000), 1);
    // 3 * 3 / 2 = 4.5 → 5 (halves away from zero)
    assert_eq!(convert_sample_position(3, 2, 3), 5);
}

#[test]
fn latency_compensation_rounds() {
    // 10 ms at 48 kHz = 480 frames
    assert_eq!(latency_compensation_frames(10_000_000, 48_000), 480);
    // 1 ns at 44.1 kHz = 0.0000441 frames → 0
    assert_eq!(latency_compensation_frames(1, 44_100), 0);
    // 0.5 frames → 1
    assert_eq!(latency_compensation_frames(500_000_000, 1), 1);
}

#[test]
fn catch_up_adds_latency_and_processing() {
    // 1 s at 44.1 kHz → 48000 frames at 48 kHz, plus 15 ms at 48 kHz = 720
    assert_eq!(peer_catch_up_frame(44_100, 44_100, 48_000, 10_000_000, 5_000_000), 48_720);
}

#[test]
fn back_restarts_after_five_seconds() {
    assert_eq!(position_ms(220_500, 44_100), 5000);
    assert_eq!(back_action(220_500, 44_100), BackAction::RestartCurrent);
    assert_eq!(back_action(220_499, 44_100), BackAction::PreviousTrack);
    assert_eq!(back_action(1_000_000, 0), BackAction::PreviousTrack);
}

#[test]
fn song_file_checks() {
    assert_eq!(check_song_file("mp3", 10), Ok(()));
    assert_eq!(check_song_file("MP3", 10), Ok(()));
    assert_eq!(check_song_file("Mp3", MAX_SONG_FILE_SIZE), Ok(()));
    assert_eq!(check_song_file("wav", 10), Err(AddSongError::UnsupportedFormat));
    assert_eq!(check_song_file("", 10), Err(AddSongError::UnsupportedFormat));
    assert_eq!(check_song_file("mp3", MAX_SONG_FILE_SIZE + 1), Err(AddSongError::TooLarge));
    assert_eq!(AddSongError::UnsupportedFormat.message(), "Only .mp3 files are supported.");
    assert_eq!(AddSongError::TooLarge.message(), "File is too large. Maximum size is 50 MB.");
}

#[test]
fn ids_missing_from_cache() {
    let window = vec![1u128, 2, 3, 4];
    let cached = vec![3u128, 9, 1];
    assert_eq!(ids_not_in(&window, &cached), vec![2, 4]);
    assert_eq!(ids_not_in(&cached, &window), vec![9]);
    assert_eq!(ids_not_in(&window, &Vec::new()), window);
}

#[test]
fn playback_error_messages() {
    assert_eq!(PlaybackError::NoDevice.message(), "No audio output device detected");
    assert_eq!(PlaybackError::NoSupportedConfig.message(), "No supported audio config found");
    assert_eq!(PlaybackError::StreamError("x".into()).message(), "Audio stream error: x");
}

#[test]
fn catch_up_decisions() {
    assert_eq!(catch_up_action(true, PlaybackStateEnum::Paused, true), CatchUp::Resume);
    assert_eq!(catch_up_action(true, PlaybackStateEnum::Paused, false), CatchUp::Stay);
    assert_eq!(catch_up_action(true, PlaybackStateEnum::Stopped, true), CatchUp::Load);
    assert_eq!(catch_up_action(true, PlaybackStateEnum::Stopped, false), CatchUp::Load);
    assert_eq!(catch_up_action(true, PlaybackStateEnum::Playing, false), CatchUp::Load);
    assert_eq!(catch_up_action(true, PlaybackStateEnum::Waiting, false), CatchUp::Load);
    assert_eq!(catch_up_action(true, PlaybackStateEnum::Playing, true), CatchUp::Stay);
    assert_eq!(catch_up_action(true, PlaybackStateEnum::Waiting, true), CatchUp::Stay);
    assert_eq!(catch_up_action(false, PlaybackStateEnum::Stopped, false), CatchUp::Stay);
}
