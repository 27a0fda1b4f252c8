//! Verified core of a synchronized group music player: clock
//! synchronisation, playback scheduling, the shared queue, chunked file
//! transfer and song requests.
pub mod bytes;
pub mod clock;
pub mod control;
pub mod discovery;
pub mod file_cache;
pub mod file_transfer;
pub mod ids;
pub mod host_sync;
pub mod inputs;
pub mod logger;
pub mod median;
pub mod messages;
pub mod names;
pub mod peer_sync;
pub mod playback;
pub mod queue;
pub mod scheduler;
pub mod session;
pub mod song_request;
pub mod text;
pub mod time;
pub mod track_info;
