//! The decisions of interactive playback: where in the track playback is,
//! what each key press does, and where a seek resumes the stream.
//!
//! The clock is read by the caller and handed in as nanoseconds since a fixed
//! instant of its choosing; the audio device and the network stay with the
//! caller, which performs the `PlayerAction` that each key press yields.
use vstd::prelude::*;
use crate::duration;
use crate::text;

verus! {

/// Number of seconds to skip forward or backward when seeking.
pub const SEEK_STEP_SECS: u64 = 10;

/// The highest volume level.
pub const MAX_VOLUME: u8 = 9;

/// Whether a track played to its end or the listener stopped it.
#[derive(Debug, Clone, Copy, PartialEq, Eq, Structural)]
pub enum PlaybackResult {
    /// Track played to completion.
    Finished,
    /// The listener stopped playback.
    Quit,
}

/// The key of a key event, as far as playback tells keys apart.
#[derive(Debug, Clone, Copy, PartialEq, Eq, Structural)]
pub enum KeyCode {
    Char(char),
    Left,
    Right,
    Other,
}

/// A key event: its key, whether it is a press (rather than a release or a
/// repeat), and whether Control was held.
#[derive(Debug, Clone, Copy, PartialEq, Eq, Structural)]
pub struct KeyInput {
    pub code: KeyCode,
    pub press: bool,
    pub control: bool,
}

/// What the caller does after a key press.
#[derive(Debug, Clone, Copy, PartialEq, Eq, Structural)]
pub enum PlayerAction {
    /// Nothing to do.
    Nothing,
    /// Pause the audio and show that playback is paused.
    Pause,
    /// Resume the audio and clear the status message.
    Resume,
    /// Stop the audio; the track ends with `PlaybackResult::Quit`.
    Stop,
    /// Leave the track; it ends with `PlaybackResult::Finished`.
    EndTrack,
    /// Open the stream again at `byte_offset`; if that succeeds, replace the
    /// playing stream and report it with `Playback::seek_succeeded`.
    SeekTo { position_secs: u64, byte_offset: u64 },
    /// Set the audio volume to the given level out of 9 and show it.
    SetVolume(u8),
}

/// The state of playing one track.
pub struct Playback {
    /// Length of the track in seconds, as the feed gives it.
    pub duration_secs: u64,
    /// Average bytes per second of the stream; 0 when seeking is disabled.
    pub bytes_per_sec: u64,
    /// Volume level out of 9.
    pub volume: u8,
    /// Position in seconds at which the current stream segment began.
    pub position_secs: u64,
    /// Clock reading when the current segment began.
    pub segment_start: u128,
    /// Clock reading when playback was paused, while it is paused.
    pub paused_at: Option<u128>,
    /// Nanoseconds spent paused within the current segment, before the
    /// current pause.
    pub total_paused: u128,
}

/// The largest span of time a `std::time::Duration` holds, in nanoseconds.
pub open spec fn max_duration_ns() -> int {
    u64::MAX as int * 1_000_000_000 + 999_999_999
}

/// `Instant::duration_since`, which gives zero for a later `earlier`.
pub open spec fn span_ns(later: u128, earlier: u128) -> int {
    if later >= earlier {
        later - earlier
    } else {
        0
    }
}

/// Whole seconds played in a segment that began at `segment_start`, up to
/// the pause if one is under way and up to `now` otherwise, less the time
/// spent paused before.
pub open spec fn spec_segment_elapsed(
    segment_start: u128,
    pause_started_at: Option<u128>,
    total_paused: u128,
    now: u128,
) -> int {
    let end = match pause_started_at {
        Some(p) => p,
        None => now,
    };
    (span_ns(end, segment_start) - total_paused) / 1_000_000_000
}

/// The bytes per second used for seeking: the file size over the duration,
/// or 0 (no seeking) when either is unknown.
pub open spec fn spec_bytes_per_sec(duration_secs: u64, file_size_bytes: u64) -> u64 {
    if duration_secs > 0 && file_size_bytes > 0 {
        (file_size_bytes / duration_secs) as u64
    } else {
        0
    }
}

pub open spec fn min_u64(a: u64, b: u64) -> u64 {
    if a <= b {
        a
    } else {
        b
    }
}

/// `a - b`, or 0 when `b` is larger (`u64::saturating_sub`).
pub open spec fn sat_sub(a: u64, b: u64) -> u64 {
    if a >= b {
        (a - b) as u64
    } else {
        0
    }
}

/// `[VOL v/9]`
pub open spec fn volume_text(v: u8) -> Seq<char> {
    seq!['[', 'V', 'O', 'L', ' '] + text::decimal(v as nat) + seq!['/', '9', ']']
}

/// The value of the `Range` header that asks for a stream from
/// `byte_offset` on: none for the whole stream, else `bytes=<offset>-`.
pub open spec fn range_text(byte_offset: u64) -> Option<Seq<char>> {
    if byte_offset == 0 {
        None
    } else {
        Some(seq!['b', 'y', 't', 'e', 's', '='] + text::decimal(byte_offset as nat) + seq!['-'])
    }
}

/// The whole seconds of played time within a segment (see
/// `spec_segment_elapsed`). The spans involved must be ones that a
/// `Duration` holds, and the time spent paused cannot exceed the segment.
pub fn segment_elapsed_secs(
    segment_start: u128,
    pause_started_at: Option<u128>,
    total_paused: u128,
    now: u128,
) -> (secs: u64)
    requires
        ({
            let end = match pause_started_at {
                Some(p) => p,
                None => now,
            };
            &&& span_ns(end, segment_start) <= max_duration_ns()
            &&& total_paused <= span_ns(end, segment_start)
        }),
    ensures
        secs == spec_segment_elapsed(segment_start, pause_started_at, total_paused, now),
        ({
            let end = match pause_started_at {
                Some(p) => p,
                None => now,
            };
            let played = span_ns(end, segment_start) - total_paused;
            &&& secs * 1_000_000_000 <= played
            &&& played < (secs + 1) * 1_000_000_000
        }),
{
    let end = match pause_started_at {
        Some(p) => p,
        None => now,
    };
    let span: u128 = if end >= segment_start {
        end - segment_start
    } else {
        0
    };
    let played: u128 = span - total_paused;
    assert(played / 1_000_000_000 <= u64::MAX) by (nonlinear_arith)
        requires
            played <= u64::MAX as int * 1_000_000_000 + 999_999_999,
    ;
    proof {
        lemma_segment_elapsed_whole_seconds(segment_start, pause_started_at, total_paused, now);
    }
    (played / 1_000_000_000) as u64
}

/// The bytes per second used for seeking (see `spec_bytes_per_sec`).
pub fn bytes_per_sec(duration_secs: u64, file_size_bytes: u64) -> (r: u64)
    ensures
        r == spec_bytes_per_sec(duration_secs, file_size_bytes),
{
    if duration_secs > 0 && file_size_bytes > 0 {
        file_size_bytes / duration_secs
    } else {
        0
    }
}

/// The status text for a volume level, `[VOL v/9]`.
pub fn volume_label(v: u8) -> (s: String)
    ensures
        s@ == volume_text(v),
{
    let mut out: Vec<char> = Vec::new();
    out.push('[');
    out.push('V');
    out.push('O');
    out.push('L');
    out.push(' ');
    text::push_decimal(&mut out, v as u64);
    out.push('/');
    out.push('9');
    out.push(']');
    assert(out@ =~= volume_text(v));
    text::string_from_chars(out.as_slice())
}

/// The `Range` header value for a stream that starts at `byte_offset`.
pub fn range_header(byte_offset: u64) -> (r: Option<String>)
    ensures
        match r {
            Some(s) => range_text(byte_offset) == Some(s@),
            None => range_text(byte_offset) is None,
        },
{
    if byte_offset == 0 {
        return None;
    }
    let mut out: Vec<char> = Vec::new();
    out.push('b');
    out.push('y');
    out.push('t');
    out.push('e');
    out.push('s');
    out.push('=');
    text::push_decimal(&mut out, byte_offset);
    out.push('-');
    assert(out@ =~= range_text(byte_offset)->0);
    Some(text::string_from_chars(out.as_slice()))
}

impl Playback {
    /// The clock readings are consistent with `now`: the segment began no
    /// later than `now`, no longer ago than a `Duration` spans, a pause under
    /// way began within the segment, and the time spent paused fits in the
    /// segment before the current pause. A monotonic clock keeps this true.
    pub open spec fn clock_ok(self, now: u128) -> bool {
        &&& self.segment_start <= now
        &&& now - self.segment_start <= max_duration_ns()
        &&& match self.paused_at {
            Some(p) => self.segment_start <= p && p <= now && self.total_paused <= p
                - self.segment_start,
            None => self.total_paused <= now - self.segment_start,
        }
    }

    /// Seconds played in the current segment.
    pub open spec fn segment_secs(self, now: u128) -> int {
        spec_segment_elapsed(self.segment_start, self.paused_at, self.total_paused, now)
    }

    /// The position shown to the listener: the segment's starting position
    /// plus the seconds played in it (a wrapping `u64` sum), capped at the
    /// duration.
    pub open spec fn spec_display_position(self, now: u128) -> u64 {
        min_u64(
            duration::wrap_u64(self.position_secs + self.segment_secs(now)),
            self.duration_secs,
        )
    }

    /// The state and action that a key event yields.
    pub open spec fn transition(self, key: KeyInput, now: u128) -> (Playback, PlayerAction) {
        if !key.press {
            (self, PlayerAction::Nothing)
        } else {
            let seek_enabled = self.bytes_per_sec > 0;
            let here = duration::wrap_u64(self.position_secs + self.segment_secs(now));
            match key.code {
                KeyCode::Char(' ') => match self.paused_at {
                    Some(p) => (
                        Playback {
                            paused_at: None,
                            total_paused: (self.total_paused + span_ns(now, p)) as u128,
                            ..self
                        },
                        PlayerAction::Resume,
                    ),
                    None => (Playback { paused_at: Some(now), ..self }, PlayerAction::Pause),
                },
                KeyCode::Char('q') => (self, PlayerAction::Stop),
                KeyCode::Char('c') if key.control => (self, PlayerAction::Stop),
                KeyCode::Right if seek_enabled => self.forward(here),
                KeyCode::Char('l') if seek_enabled => self.forward(here),
                KeyCode::Left if seek_enabled => self.backward(here),
                KeyCode::Char('h') if seek_enabled => self.backward(here),
                KeyCode::Char('+') => self.louder(),
                KeyCode::Char('=') => self.louder(),
                KeyCode::Char('-') => self.quieter(),
                KeyCode::Char('_') => self.quieter(),
                _ => (self, PlayerAction::Nothing),
            }
        }
    }

    /// Seeking forward from position `here`.
    pub open spec fn forward(self, here: u64) -> (Playback, PlayerAction) {
        let target = min_u64(duration::wrap_u64(here + SEEK_STEP_SECS), self.duration_secs);
        if target >= self.duration_secs {
            (self, PlayerAction::EndTrack)
        } else {
            (
                self,
                PlayerAction::SeekTo {
                    position_secs: target,
                    byte_offset: duration::wrap_u64(target * self.bytes_per_sec),
                },
            )
        }
    }

    /// Seeking backward from position `here`.
    pub open spec fn backward(self, here: u64) -> (Playback, PlayerAction) {
        let target = sat_sub(here, SEEK_STEP_SECS);
        (
            self,
            PlayerAction::SeekTo {
                position_secs: target,
                byte_offset: duration::wrap_u64(target * self.bytes_per_sec),
            },
        )
    }

    pub open spec fn louder(self) -> (Playback, PlayerAction) {
        if self.volume < MAX_VOLUME {
            let v = (self.volume + 1) as u8;
            (Playback { volume: v, ..self }, PlayerAction::SetVolume(v))
        } else {
            (self, PlayerAction::Nothing)
        }
    }

    pub open spec fn quieter(self) -> (Playback, PlayerAction) {
        if self.volume > 0 {
            let v = (self.volume - 1) as u8;
            (Playback { volume: v, ..self }, PlayerAction::SetVolume(v))
        } else {
            (self, PlayerAction::Nothing)
        }
    }

    /// A fresh playback of a track of `duration_secs` seconds and
    /// `file_size_bytes` bytes, at position 0, started at `now`.
    pub fn new(duration_secs: u64, file_size_bytes: u64, volume: u8, now: u128) -> (p: Playback)
        ensures
            p == (Playback {
                duration_secs,
                bytes_per_sec: spec_bytes_per_sec(duration_secs, file_size_bytes),
                volume,
                position_secs: 0,
                segment_start: now,
                paused_at: None,
                total_paused: 0,
            }),
            p.clock_ok(now),
    {
        Playback {
            duration_secs,
            bytes_per_sec: bytes_per_sec(duration_secs, file_size_bytes),
            volume,
            position_secs: 0,
            segment_start: now,
            paused_at: None,
            total_paused: 0,
        }
    }

    /// Whether seeking is possible (the stream's bytes per second are known).
    pub fn seek_enabled(&self) -> (b: bool)
        ensures
            b == (self.bytes_per_sec > 0),
    {
        self.bytes_per_sec > 0
    }

    /// Whether playback is paused.
    pub fn is_paused(&self) -> (b: bool)
        ensures
            b == (self.paused_at is Some),
    {
        self.paused_at.is_some()
    }

    /// Tests `clock_ok`, which every reading of the position requires.
    pub fn clock_is_consistent(&self, now: u128) -> (b: bool)
        ensures
            b == self.clock_ok(now),
    {
        if self.segment_start > now {
            return false;
        }
        if now - self.segment_start > 18_446_744_073_709_551_615_999_999_999u128 {
            return false;
        }
        match self.paused_at {
            Some(p) => self.segment_start <= p && p <= now && self.total_paused <= p
                - self.segment_start,
            None => self.total_paused <= now - self.segment_start,
        }
    }

    fn played_secs(&self, now: u128) -> (secs: u64)
        requires
            self.clock_ok(now),
        ensures
            secs == self.segment_secs(now),
    {
        segment_elapsed_secs(self.segment_start, self.paused_at, self.total_paused, now)
    }

    /// The position to show, in seconds (see `spec_display_position`).
    pub fn display_position(&self, now: u128) -> (pos: u64)
        requires
            self.clock_ok(now),
        ensures
            pos == self.spec_display_position(now),
            pos <= self.duration_secs,
    {
        let here = self.position_secs.wrapping_add(self.played_secs(now));
        if here <= self.duration_secs {
            here
        } else {
            self.duration_secs
        }
    }

    /// Applies a key event at clock reading `now` and says what to do.
    pub fn handle_key(&mut self, key: KeyInput, now: u128) -> (action: PlayerAction)
        requires
            old(self).clock_ok(now),
        ensures
            (*final(self), action) == old(self).transition(key, now),
    {
        if !key.press {
            return PlayerAction::Nothing;
        }
        let seek_enabled = self.bytes_per_sec > 0;
        match key.code {
            KeyCode::Char(' ') => {
                match self.paused_at {
                    Some(p) => {
                        let paused_for: u128 = if now >= p {
                            now - p
                        } else {
                            0
                        };
                        self.total_paused = self.total_paused + paused_for;
                        self.paused_at = None;
                        PlayerAction::Resume
                    },
                    None => {
                        self.paused_at = Some(now);
                        PlayerAction::Pause
                    },
                }
            },
            KeyCode::Char('q') => PlayerAction::Stop,
            KeyCode::Char('c') if key.control => PlayerAction::Stop,
            KeyCode::Right if seek_enabled => {
                let here = self.position_secs.wrapping_add(self.played_secs(now));
                self.seek_forward_from(here)
            },
            KeyCode::Char('l') if seek_enabled => {
                let here = self.position_secs.wrapping_add(self.played_secs(now));
                self.seek_forward_from(here)
            },
            KeyCode::Left if seek_enabled => {
                let here = self.position_secs.wrapping_add(self.played_secs(now));
                self.seek_backward_from(here)
            },
            KeyCode::Char('h') if seek_enabled => {
                let here = self.position_secs.wrapping_add(self.played_secs(now));
                self.seek_backward_from(here)
            },
            KeyCode::Char('+') | KeyCode::Char('=') => {
                if self.volume < MAX_VOLUME {
                    self.volume = self.volume + 1;
                    PlayerAction::SetVolume(self.volume)
                } else {
                    PlayerAction::Nothing
                }
            },
            KeyCode::Char('-') | KeyCode::Char('_') => {
                if self.volume > 0 {
                    self.volume = self.volume - 1;
                    PlayerAction::SetVolume(self.volume)
                } else {
                    PlayerAction::Nothing
                }
            },
            _ => PlayerAction::Nothing,
        }
    }

    fn seek_forward_from(&self, here: u64) -> (action: PlayerAction)
        ensures
            (*self, action) == self.forward(here),
    {
        let stepped = here.wrapping_add(SEEK_STEP_SECS);
        let target = if stepped <= self.duration_secs {
            stepped
        } else {
            self.duration_secs
        };
        if target >= self.duration_secs {
            PlayerAction::EndTrack
        } else {
            PlayerAction::SeekTo {
                position_secs: target,
                byte_offset: target.wrapping_mul(self.bytes_per_sec),
            }
        }
    }

    fn seek_backward_from(&self, here: u64) -> (action: PlayerAction)
        ensures
            (*self, action) == self.backward(here),
    {
        let target = here.saturating_sub(SEEK_STEP_SECS);
        PlayerAction::SeekTo {
            position_secs: target,
            byte_offset: target.wrapping_mul(self.bytes_per_sec),
        }
    }

    /// Records that the stream was reopened at `position_secs` at clock
    /// reading `now`: a new segment begins there, playing.
    pub fn seek_succeeded(&mut self, position_secs: u64, now: u128)
        ensures
            *final(self) == (Playback {
                position_secs,
                segment_start: now,
                paused_at: None,
                total_paused: 0,
                ..*old(self)
            }),
    {
        self.position_secs = position_secs;
        self.segment_start = now;
        self.paused_at = None;
        self.total_paused = 0;
    }
}

// ---------------------------------------------------------------------------
// Laws
// ---------------------------------------------------------------------------

/// The press of a key.
pub open spec fn press(code: KeyCode) -> KeyInput {
    KeyInput { code, press: true, control: false }
}

/// Time spent paused does not count as played: while paused the shown
/// position stands still, and after pausing at `t1` and resuming at `t2` the
/// segment has played exactly what it would have played had the clock
/// stopped for `t2 - t1`.
pub proof fn lemma_pause_time_not_counted(s: Playback, t1: u128, t2: u128, t3: u128)
    requires
        s.paused_at is None,
        s.clock_ok(t1),
        t1 <= t2 <= t3,
        t3 - s.segment_start <= max_duration_ns(),
    ensures
        ({
            let paused = s.transition(press(KeyCode::Char(' ')), t1).0;
            let resumed = paused.transition(press(KeyCode::Char(' ')), t2).0;
            &&& paused.clock_ok(t2)
            &&& paused.spec_display_position(t2) == s.spec_display_position(t1)
            &&& resumed.clock_ok(t3)
            &&& resumed.segment_secs(t2) == s.segment_secs(t1)
            &&& resumed.segment_secs(t3) == s.segment_secs((t3 - (t2 - t1)) as u128)
        }),
{
}

/// A press of `+` followed by a press of `-` leaves the state as it was,
/// below the highest volume.
pub proof fn lemma_volume_up_then_down(s: Playback, t: u128)
    requires
        s.volume < MAX_VOLUME,
    ensures
        ({
            let up = s.transition(press(KeyCode::Char('+')), t);
            let down = up.0.transition(press(KeyCode::Char('-')), t);
            &&& up.1 == PlayerAction::SetVolume((s.volume + 1) as u8)
            &&& down.0 == s
            &&& down.1 == PlayerAction::SetVolume(s.volume)
        }),
{
}

/// No key event raises the volume above 9, and no key event changes the
/// track's duration, its seek rate or the position at which the segment
/// began: only a completed seek (`seek_succeeded`) moves the position.
pub proof fn lemma_key_keeps_bounds(s: Playback, key: KeyInput, t: u128)
    ensures
        ({
            let next = s.transition(key, t).0;
            &&& s.volume <= MAX_VOLUME ==> next.volume <= MAX_VOLUME
            &&& next.duration_secs == s.duration_secs
            &&& next.bytes_per_sec == s.bytes_per_sec
            &&& next.position_secs == s.position_secs
            &&& next.segment_start == s.segment_start
        }),
{
}

/// A forward seek lands strictly before the end of the track, at the byte
/// offset `position * bytes_per_sec`, which lies within the file; a backward
/// seek never lands later than the position it starts from.
pub proof fn lemma_seek_targets(s: Playback, file_size_bytes: u64, key: KeyInput, t: u128)
    requires
        s.bytes_per_sec == spec_bytes_per_sec(s.duration_secs, file_size_bytes),
        key.press,
    ensures
        ({
            let here = duration::wrap_u64(s.position_secs + s.segment_secs(t));
            let action = s.transition(key, t).1;
            &&& (key.code == KeyCode::Right || key.code == KeyCode::Char('l')) ==> match action {
                PlayerAction::SeekTo { position_secs, byte_offset } => {
                    &&& position_secs < s.duration_secs
                    &&& byte_offset == position_secs * s.bytes_per_sec
                    &&& byte_offset <= file_size_bytes
                },
                PlayerAction::EndTrack => s.bytes_per_sec > 0,
                _ => s.bytes_per_sec == 0,
            }
            &&& (key.code == KeyCode::Left || key.code == KeyCode::Char('h')) ==> match action {
                PlayerAction::SeekTo { position_secs, .. } => position_secs <= here,
                _ => s.bytes_per_sec == 0,
            }
        }),
{
    let here = duration::wrap_u64(s.position_secs + s.segment_secs(t));
    if s.bytes_per_sec > 0 && (key.code == KeyCode::Right || key.code == KeyCode::Char('l')) {
        let target = min_u64(duration::wrap_u64(here + SEEK_STEP_SECS), s.duration_secs);
        if target < s.duration_secs {
            let d = s.duration_secs as int;
            let f = file_size_bytes as int;
            let b = s.bytes_per_sec as int;
            assert(target * b <= f) by (nonlinear_arith)
                requires
                    0 <= target < d,
                    d > 0,
                    b == f / d,
                    f >= 0,
            {
                assert(target * b <= d * b);
                assert(d * (f / d) <= f);
            }
            assert(target * b < 0x1_0000_0000_0000_0000);
        }
    }
}

/// The played time of a segment in nanoseconds: up to the pause under way,
/// else up to `now`, less the time paused before.
pub open spec fn played_ns(s: Playback, now: u128) -> int {
    let end = match s.paused_at {
        Some(p) => p,
        None => now,
    };
    end - s.segment_start - s.total_paused
}

/// The elapsed seconds of a segment are the whole seconds of its played time,
/// however long it is: `secs` seconds fit in the played time and `secs + 1`
/// do not.
pub proof fn lemma_segment_elapsed_whole_seconds(
    segment_start: u128,
    pause_started_at: Option<u128>,
    total_paused: u128,
    now: u128,
)
    requires
        ({
            let end = match pause_started_at {
                Some(p) => p,
                None => now,
            };
            total_paused <= span_ns(end, segment_start)
        }),
    ensures
        ({
            let end = match pause_started_at {
                Some(p) => p,
                None => now,
            };
            let played = span_ns(end, segment_start) - total_paused;
            let secs = spec_segment_elapsed(segment_start, pause_started_at, total_paused, now);
            &&& secs * 1_000_000_000 <= played
            &&& played < (secs + 1) * 1_000_000_000
        }),
{
    let end = match pause_started_at {
        Some(p) => p,
        None => now,
    };
    let played = span_ns(end, segment_start) - total_paused;
    vstd::arithmetic::div_mod::lemma_fundamental_div_mod(played, 1_000_000_000);
    vstd::arithmetic::div_mod::lemma_mod_bound(played, 1_000_000_000);
}

/// The shown position is the segment's starting position plus the whole
/// seconds played, capped at the duration (when that sum fits in a `u64`).
pub proof fn lemma_display_position(s: Playback, now: u128, secs: int)
    requires
        s.clock_ok(now),
        secs * 1_000_000_000 <= played_ns(s, now) < (secs + 1) * 1_000_000_000,
        s.position_secs + secs <= u64::MAX,
    ensures
        s.spec_display_position(now) == if s.position_secs + secs <= s.duration_secs {
            s.position_secs + secs
        } else {
            s.duration_secs as int
        },
{
    let end = match s.paused_at {
        Some(p) => p,
        None => now,
    };
    lemma_segment_elapsed_whole_seconds(s.segment_start, s.paused_at, s.total_paused, now);
    let r = s.segment_secs(now);
    assert(r == secs) by (nonlinear_arith)
        requires
            r * 1_000_000_000 <= played_ns(s, now) < (r + 1) * 1_000_000_000,
            secs * 1_000_000_000 <= played_ns(s, now) < (secs + 1) * 1_000_000_000,
    ;
}

/// A forward seek (Right or `l`, with seeking enabled), paused or not, goes
/// ten seconds past the current position `here` (start of the segment plus
/// the whole seconds played): to `here + 10` at byte `(here + 10) *
/// bytes_per_sec`, when that is before the end; otherwise the track ends.
/// The state is left as it is.
pub proof fn lemma_forward_seek(s: Playback, key: KeyInput, now: u128, secs: int)
    requires
        s.clock_ok(now),
        s.bytes_per_sec > 0,
        key.press,
        key.code == KeyCode::Right || key.code == KeyCode::Char('l'),
        secs * 1_000_000_000 <= played_ns(s, now) < (secs + 1) * 1_000_000_000,
        s.position_secs + secs + 10 <= u64::MAX,
    ensures
        ({
            let here = s.position_secs + secs;
            let r = s.transition(key, now);
            &&& r.0 == s
            &&& here + 10 < s.duration_secs ==> r.1 == PlayerAction::SeekTo {
                position_secs: (here + 10) as u64,
                byte_offset: (((here + 10) * s.bytes_per_sec) % 0x1_0000_0000_0000_0000) as u64,
            }
            &&& here + 10 >= s.duration_secs ==> r.1 == PlayerAction::EndTrack
        }),
{
    lemma_segment_elapsed_whole_seconds(s.segment_start, s.paused_at, s.total_paused, now);
    let r = s.segment_secs(now);
    assert(r == secs) by (nonlinear_arith)
        requires
            r * 1_000_000_000 <= played_ns(s, now) < (r + 1) * 1_000_000_000,
            secs * 1_000_000_000 <= played_ns(s, now) < (secs + 1) * 1_000_000_000,
    ;
}

/// A backward seek (Left or `h`, with seeking enabled), paused or not, goes
/// ten seconds before the current position, but not before the start.
pub proof fn lemma_backward_seek(s: Playback, key: KeyInput, now: u128, secs: int)
    requires
        s.clock_ok(now),
        s.bytes_per_sec > 0,
        key.press,
        key.code == KeyCode::Left || key.code == KeyCode::Char('h'),
        secs * 1_000_000_000 <= played_ns(s, now) < (secs + 1) * 1_000_000_000,
        s.position_secs + secs <= u64::MAX,
    ensures
        ({
            let here = s.position_secs + secs;
            let target = if here >= 10 {
                here - 10
            } else {
                0
            };
            let r = s.transition(key, now);
            &&& r.0 == s
            &&& r.1 == PlayerAction::SeekTo {
                position_secs: target as u64,
                byte_offset: ((target * s.bytes_per_sec) % 0x1_0000_0000_0000_0000) as u64,
            }
        }),
{
    lemma_segment_elapsed_whole_seconds(s.segment_start, s.paused_at, s.total_paused, now);
    let r = s.segment_secs(now);
    assert(r == secs) by (nonlinear_arith)
        requires
            r * 1_000_000_000 <= played_ns(s, now) < (r + 1) * 1_000_000_000,
            secs * 1_000_000_000 <= played_ns(s, now) < (secs + 1) * 1_000_000_000,
    ;
}

/// `+` or `=` raises a volume below 9 by exactly one and announces the new
/// level, and leaves 9 as it is; `-` or `_` lowers a volume above 0 by exactly
/// one and announces it, and leaves 0 as it is. Nothing else changes.
pub proof fn lemma_volume_keys(s: Playback, key: KeyInput, now: u128)
    requires
        key.press,
    ensures
        (key.code == KeyCode::Char('+') || key.code == KeyCode::Char('=')) ==> {
            let r = s.transition(key, now);
            if s.volume < 9 {
                &&& r.0.volume == s.volume + 1
                &&& r.0 == (Playback { volume: r.0.volume, ..s })
                &&& r.1 == PlayerAction::SetVolume(r.0.volume)
            } else {
                r == (s, PlayerAction::Nothing)
            }
        },
        (key.code == KeyCode::Char('-') || key.code == KeyCode::Char('_')) ==> {
            let r = s.transition(key, now);
            if s.volume > 0 {
                &&& r.0.volume + 1 == s.volume
                &&& r.0 == (Playback { volume: r.0.volume, ..s })
                &&& r.1 == PlayerAction::SetVolume(r.0.volume)
            } else {
                r == (s, PlayerAction::Nothing)
            }
        },
{
}

} // verus!
