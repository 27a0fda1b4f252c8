//! Playback state codes and the sample-position arithmetic used when a
//! peer joins playback already in progress.
use vstd::prelude::*;
use vstd::std_specs::convert::FromSpecImpl;
use vstd::string::StringExecFns;

verus! {

pub const STATE_STOPPED: u8 = 0;
pub const STATE_WAITING: u8 = 1;
pub const STATE_PLAYING: u8 = 2;
pub const STATE_PAUSED: u8 = 3;

/// Human-readable playback state.
#[derive(Debug, Clone, Copy, PartialEq, Eq, Structural)]
pub enum PlaybackStateEnum {
    Stopped,
    Waiting,
    Playing,
    Paused,
}

/// The state a stored code stands for; unknown codes read as `Stopped`.
pub open spec fn state_of_code(v: u8) -> PlaybackStateEnum {
    if v == STATE_WAITING {
        PlaybackStateEnum::Waiting
    } else if v == STATE_PLAYING {
        PlaybackStateEnum::Playing
    } else if v == STATE_PAUSED {
        PlaybackStateEnum::Paused
    } else {
        PlaybackStateEnum::Stopped
    }
}

impl From<u8> for PlaybackStateEnum {
    fn from(v: u8) -> (r: Self) {
        if v == STATE_WAITING {
            PlaybackStateEnum::Waiting
        } else if v == STATE_PLAYING {
            PlaybackStateEnum::Playing
        } else if v == STATE_PAUSED {
            PlaybackStateEnum::Paused
        } else {
            PlaybackStateEnum::Stopped
        }
    }
}

impl FromSpecImpl<u8> for PlaybackStateEnum {
    open spec fn obeys_from_spec() -> bool {
        true
    }

    open spec fn from_spec(v: u8) -> Self {
        state_of_code(v)
    }
}

/// The code stored for a state.
pub fn state_code(s: PlaybackStateEnum) -> (v: u8)
    ensures
        state_of_code(v) == s,
{
    match s {
        PlaybackStateEnum::Stopped => STATE_STOPPED,
        PlaybackStateEnum::Waiting => STATE_WAITING,
        PlaybackStateEnum::Playing => STATE_PLAYING,
        PlaybackStateEnum::Paused => STATE_PAUSED,
    }
}

/// Errors that can occur when setting up audio output.
#[derive(Debug)]
pub enum PlaybackError {
    NoDevice,
    NoSupportedConfig,
    StreamError(String),
}

impl PlaybackError {
    /// Human-readable description of the error.
    pub fn message(&self) -> (s: String)
        ensures
            match self {
                PlaybackError::NoDevice => s@ == "No audio output device detected"@,
                PlaybackError::NoSupportedConfig => s@ == "No supported audio config found"@,
                PlaybackError::StreamError(e) => s@ == "Audio stream error: "@ + e@,
            },
    {
        match self {
            PlaybackError::NoDevice => String::from_str("No audio output device detected"),
            PlaybackError::NoSupportedConfig => String::from_str("No supported audio config found"),
            PlaybackError::StreamError(e) => {
                let mut s = String::from_str("Audio stream error: ");
                s.append(e.as_str());
                s
            },
        }
    }
}

/// What one run of the audio callback does: copy `copy_count` samples of
/// the track from the current position to the front of the output (the
/// rest of the output is silence), move the position to `new_position` and
/// the state to `next_state`; `finished` reports that the track ran out.
#[derive(Clone, Copy, Debug, PartialEq, Eq)]
pub struct CallbackStep {
    pub next_state: u8,
    pub copy_count: usize,
    pub new_position: usize,
    pub finished: bool,
}

/// The step that fills `out_len` samples from a buffer of `buffer_len`
/// samples at `position` while playing.
pub open spec fn fill_step(position: usize, buffer_len: usize, out_len: usize) -> CallbackStep {
    if buffer_len == 0 {
        CallbackStep { next_state: STATE_PLAYING, copy_count: 0, new_position: position, finished: false }
    } else {
        let avail: int = if position < buffer_len {
            buffer_len - position
        } else {
            0
        };
        let copy: int = if out_len <= avail {
            out_len as int
        } else {
            avail
        };
        let finished = copy < out_len;
        CallbackStep {
            next_state: if finished {
                STATE_STOPPED
            } else {
                STATE_PLAYING
            },
            copy_count: copy as usize,
            new_position: (position + copy) as usize,
            finished,
        }
    }
}

/// The step of the audio callback in state `state`; `start_due` tells
/// whether the scheduled start instant has been reached.
pub open spec fn callback_step_spec(
    state: u8,
    start_due: bool,
    position: usize,
    buffer_len: usize,
    out_len: usize,
) -> CallbackStep {
    let silent = CallbackStep { next_state: state, copy_count: 0, new_position: position, finished: false };
    if state == STATE_PLAYING || (state == STATE_WAITING && start_due) {
        fill_step(position, buffer_len, out_len)
    } else {
        silent
    }
}

/// Decide one run of the audio callback: stopped, paused (and unknown)
/// states and a start not yet due write silence and change nothing; a due
/// start begins playing; playing copies what is left of the track, and
/// running out of samples stops playback and reports the end. An empty
/// buffer writes silence and keeps the state.
pub fn callback_step(state: u8, start_due: bool, position: usize, buffer_len: usize, out_len: usize) -> (r:
    CallbackStep)
    ensures
        r == callback_step_spec(state, start_due, position, buffer_len, out_len),
        r.copy_count <= out_len,
        r.copy_count > 0 ==> position + r.copy_count <= buffer_len,
{
    if state == STATE_PLAYING || (state == STATE_WAITING && start_due) {
        if buffer_len == 0 {
            return CallbackStep {
                next_state: STATE_PLAYING,
                copy_count: 0,
                new_position: position,
                finished: false,
            };
        }
        let avail: usize = if position < buffer_len {
            buffer_len - position
        } else {
            0
        };
        let copy: usize = if out_len <= avail {
            out_len
        } else {
            avail
        };
        let finished = copy < out_len;
        CallbackStep {
            next_state: if finished {
                STATE_STOPPED
            } else {
                STATE_PLAYING
            },
            copy_count: copy,
            new_position: position + copy,
            finished,
        }
    } else {
        CallbackStep { next_state: state, copy_count: 0, new_position: position, finished: false }
    }
}

/// The sample index of frame `position_frames` with `channels` interleaved
/// channels.
pub fn seek_index(position_frames: u64, channels: u16) -> (idx: usize)
    requires
        position_frames * channels <= usize::MAX,
    ensures
        idx == position_frames * channels,
{
    proof {
        assert(position_frames * channels <= u64::MAX) by (nonlinear_arith)
            requires
                position_frames * channels <= usize::MAX,
                usize::MAX <= u64::MAX,
        ;
    }
    (position_frames * channels as u64) as usize
}

/// The frame that sample index `position` belongs to (0 with no channels).
pub fn frame_of(position: usize, channels: u16) -> (frame: u64)
    ensures
        frame == if channels == 0 {
            0
        } else {
            position as int / channels as int
        },
{
    if channels == 0 {
        return 0;
    }
    (position as u64) / (channels as u64)
}

/// `num / den` rounded to the nearest integer (halves away from zero),
/// capped at `u64::MAX`.
pub open spec fn rounded_ratio(num: nat, den: nat) -> u64 {
    let q = (2 * num + den) / (2 * den);
    if q > u64::MAX {
        u64::MAX
    } else {
        q as u64
    }
}

/// Convert a frame position from one sample rate to another:
/// `position × dst / src`, rounded to the nearest frame. Equal rates, or a
/// source rate of 0, leave the position as it is.
pub fn convert_sample_position(position_frames: u64, src_rate: u32, dst_rate: u32) -> (r: u64)
    ensures
        src_rate == dst_rate || src_rate == 0 ==> r == position_frames,
        src_rate != dst_rate && src_rate != 0 ==> r == rounded_ratio(
            position_frames as nat * dst_rate as nat,
            src_rate as nat,
        ),
{
    if src_rate == dst_rate || src_rate == 0 {
        return position_frames;
    }
    proof {
        assert(position_frames as int * dst_rate as int <= 0xffff_ffff_ffff_ffffint * 0xffff_ffffint)
            by (nonlinear_arith);
    }
    let num: u128 = position_frames as u128 * dst_rate as u128;
    let den: u128 = src_rate as u128;
    let q = (2 * num + den) / (2 * den);
    if q > u64::MAX as u128 {
        u64::MAX
    } else {
        q as u64
    }
}

/// Frames to skip forward on a peer to make up for `latency_ns` of delay
/// at `sample_rate`: `latency_ns × sample_rate / 10^9`, rounded to the
/// nearest frame.
pub fn latency_compensation_frames(latency_ns: u64, sample_rate: u32) -> (r: u64)
    ensures
        r == rounded_ratio(latency_ns as nat * sample_rate as nat, 1_000_000_000),
{
    proof {
        assert(latency_ns as int * sample_rate as int <= 0xffff_ffff_ffff_ffffint * 0xffff_ffffint)
            by (nonlinear_arith);
    }
    let num: u128 = latency_ns as u128 * sample_rate as u128;
    let den: u128 = 1_000_000_000;
    let q = (2 * num + den) / (2 * den);
    if q > u64::MAX as u128 {
        u64::MAX
    } else {
        q as u64
    }
}

/// Converting a position to another rate and back gives it back exactly,
/// whenever the target rate is at least the source rate and nothing is
/// capped.
pub proof fn law_sample_position_roundtrip(p: nat, src: nat, dst: nat)
    requires
        src > 0,
        dst >= src,
    ensures
        ({
            let q = (2 * (p * dst) + src) / (2 * src);
            let back = (2 * (q * src) + dst) / (2 * dst);
            back == p
        }),
{
    let x: int = (2 * (p * dst) + src) as int;
    let d: int = (2 * src) as int;
    let q: int = x / d;
    vstd::arithmetic::div_mod::lemma_fundamental_div_mod(x, d);
    vstd::arithmetic::div_mod::lemma_mod_pos_bound(x, d);
    assert(d * q <= x < d * q + d);
    let y: int = 2 * (q * src) + dst;
    assert(2 * dst * p <= y < 2 * dst * p + 2 * dst) by (nonlinear_arith)
        requires
            d * q <= x < d * q + d,
            x == 2 * (p * dst) + src,
            d == 2 * src,
            y == 2 * (q * src) + dst,
            src > 0,
            dst >= src,
    ;
    assert(y == p * (2 * dst) + (y - 2 * dst * p)) by (nonlinear_arith);
    vstd::arithmetic::div_mod::lemma_fundamental_div_mod_converse(y, (2 * dst) as int, p as int, y - 2 * dst * p);
}

} // verus!
