# phaselock

The verified core of a synchronized group music player: a host advertises a
session on the local network, peers join it, the host streams MP3 files to
them and every device starts, pauses and seeks the same track at the same
moment.

- `src/` is the library, written in Verus. Each public function states what
  it does in its `requires`/`ensures`, and the `law_*` proof functions state
  properties that span several functions (a file sent in chunks is rebuilt
  exactly, converting a timestamp to the local clock and back is the
  identity, reordering the queue and moving the entry back restores it, …).
  - `clock`, `median`: NTP-style clock offset and latency estimation.
  - `scheduler`, `control`, `playback`: when and where every device plays,
    which track "play" starts and which songs are accepted.
  - `host_sync`, `peer_sync`: what the host does with each session event
    and what a peer does with each message from the host.
  - `queue`: the shared playback queue.
  - `file_transfer`, `file_cache`, `song_request`, `bytes`: chunked file
    delivery with SHA-256 checks, and peers' song uploads.
  - `session`, `names`, `inputs`, `discovery`: who is in a session, under
    which name, and how sessions are advertised.
  - `messages`: the message types and the length-prefixed frame layout.
  - `track_info`: title and artist from ID3 tags or the file name.
  - `logger`: buffering, format and rotation of the log.
- `tests/` exercises the library on concrete values.
- `app/` is plain Rust around the library: sockets, mDNS, the log file, the
  bincode encoding of messages, MP3 decoding and the audio buffer.
