//! The decisions of the render loop: song positions and loop detection,
//! stop conditions, fade-out, sample scaling, packet interleaving and
//! backdrop-queue backpressure.
use crate::nsf::NsfDriverType;
use crate::options::StopCondition;
use vstd::prelude::*;

verus! {

/// Shortest distance, in frames, between two visits of one song position
/// that is taken as the loop window.
pub const MIN_LOOP_FRAMES: u32 = 60;

/// Number of distinct song positions: the end marker, the frame and the row.
pub const POSITION_SLOTS: usize = 131072;

/// Where the music driver is in the song, as read from its work RAM.
#[derive(Clone, Copy, PartialEq, Eq, Structural, Debug, Hash)]
pub struct SongPosition {
    pub end: bool,
    pub frame: u8,
    pub row: u8,
}

impl SongPosition {
    pub fn new(frame: u8, row: u8) -> (r: Self)
        ensures
            r == (SongPosition { end: false, frame, row }),
    {
        SongPosition { end: false, frame, row }
    }

    /// The position a driver reports once the song has halted.
    pub fn at_end() -> (r: Self)
        ensures
            r == (SongPosition { end: true, frame: 0, row: 0 }),
    {
        SongPosition { end: true, frame: 0, row: 0 }
    }
}

/// The slot of a position in a table that holds one entry per position.
pub open spec fn position_slot(p: SongPosition) -> int {
    (if p.end { 65536int } else { 0int }) + p.frame as int * 256 + p.row as int
}

fn slot_of(p: SongPosition) -> (r: usize)
    ensures
        r == position_slot(p),
        r < POSITION_SLOTS,
{
    (if p.end { 65536usize } else { 0usize }) + p.frame as usize * 256 + p.row as usize
}

/// The offset in work RAM of a driver's four position bytes, if the driver
/// is one whose position can be read; two bytes further on when the module
/// uses the FDS.
pub open spec fn position_offset(driver: NsfDriverType, fds: bool) -> Option<int> {
    let extra: int = if fds { 2 } else { 0 };
    match driver {
        NsfDriverType::FTClassic => Some(0x211 + extra),
        NsfDriverType::FT0CC => Some(0x215 + extra),
        NsfDriverType::FTDn => Some(0x215 + extra),
        NsfDriverType::Unknown => None,
    }
}

/// The song position that the four driver bytes describe: a halted player
/// reports the end; a driver loading its next frame reports row 0.
pub open spec fn decode_position(player_flags: u8, row: u8, frame: u8, engine_flags: u8) -> SongPosition {
    if player_flags & 0x2 != 0 {
        SongPosition { end: true, frame: 0, row: 0 }
    } else if engine_flags & 0x1 != 0 {
        SongPosition { end: false, frame, row: 0 }
    } else {
        SongPosition { end: false, frame, row }
    }
}

/// Decodes the four position bytes `player_flags, row, frame, engine_flags`.
pub fn song_position_from_bytes(player_flags: u8, row: u8, frame: u8, engine_flags: u8) -> (r: SongPosition)
    ensures
        r == decode_position(player_flags, row, frame, engine_flags),
{
    if (player_flags & 0x2) != 0 {
        SongPosition::at_end()
    } else if (engine_flags & 0x1) != 0 {
        SongPosition::new(frame, 0)
    } else {
        SongPosition::new(frame, row)
    }
}

/// Reads the song position from the emulated work RAM `iram`, or `None` when
/// the driver's position cannot be read (unknown driver, or RAM too short).
pub fn read_song_position(iram: &[u8], driver: NsfDriverType, fds: bool) -> (r: Option<SongPosition>)
    ensures
        r is Some <==> (position_offset(driver, fds) matches Some(o) && o + 4 <= iram@.len()),
        r matches Some(p) ==> ({
            let o = position_offset(driver, fds).unwrap();
            p == decode_position(iram@[o], iram@[o + 1], iram@[o + 2], iram@[o + 3])
        }),
{
    let base: usize = match driver {
        NsfDriverType::FTClassic => 0x211,
        NsfDriverType::FT0CC => 0x215,
        NsfDriverType::FTDn => 0x215,
        NsfDriverType::Unknown => {
            return None;
        },
    };
    let ptr: usize = if fds { base + 2 } else { base };
    if iram.len() < 4 || ptr > iram.len() - 4 {
        return None;
    }
    Some(song_position_from_bytes(iram[ptr], iram[ptr + 1], iram[ptr + 2], iram[ptr + 3]))
}

/// Loop detection over the stream of song positions seen once per frame.
pub struct LoopTracker {
    /// For each position slot, the frame at which the position was first seen.
    pub first_seen: Vec<Option<u32>>,
    pub last_position: Option<SongPosition>,
    /// `(first frame, length)` of the first loop found that is long enough.
    pub loop_duration: Option<(usize, usize)>,
    pub loop_count: usize,
}

impl LoopTracker {
    pub open spec fn wf(&self) -> bool {
        self.first_seen@.len() == POSITION_SLOTS
    }

    /// The frame at which `p` was first seen, if it has been.
    pub open spec fn first_seen_at(&self, p: SongPosition) -> Option<u32> {
        self.first_seen@[position_slot(p)]
    }

    pub fn new() -> (r: Self)
        ensures
            r.wf(),
            forall|p: SongPosition| #[trigger] r.first_seen_at(p) is None,
            r.last_position is None,
            r.loop_duration is None,
            r.loop_count == 0,
    {
        let mut first_seen: Vec<Option<u32>> = Vec::new();
        let mut i: usize = 0;
        while i < POSITION_SLOTS
            invariant
                i <= POSITION_SLOTS,
                first_seen@.len() == i,
                forall|j: int| 0 <= j < i ==> #[trigger] first_seen@[j] is None,
            decreases POSITION_SLOTS - i,
        {
            first_seen.push(None);
            i = i + 1;
        }
        LoopTracker { first_seen, last_position: None, loop_duration: None, loop_count: 0 }
    }

    /// Records the position reached at frame `frame`. A position seen before
    /// counts one loop when the frame counter went backwards since the last
    /// position, and, while no loop window is known, gives the window from its
    /// first visit when that is at least 60 frames back. A new position is
    /// remembered with its frame.
    pub fn observe(&mut self, position: SongPosition, frame: u32)
        requires
            old(self).wf(),
            old(self).loop_count < usize::MAX,
        ensures
            final(self).wf(),
            final(self).last_position == Some(position),
            match old(self).first_seen_at(position) {
                Some(start) => {
                    &&& final(self).first_seen == old(self).first_seen
                    &&& final(self).loop_count == (if old(self).last_position matches Some(last) && position.frame < last.frame {
                        old(self).loop_count + 1
                    } else {
                        old(self).loop_count as int
                    })
                    &&& final(self).loop_duration == (if old(self).loop_duration is Some {
                        old(self).loop_duration
                    } else if frame >= start && frame - start >= MIN_LOOP_FRAMES {
                        Some((start as usize, (frame - start) as usize))
                    } else {
                        None
                    })
                },
                None => {
                    &&& final(self).first_seen@ == old(self).first_seen@.update(position_slot(position), Some(frame))
                    &&& final(self).loop_count == old(self).loop_count
                    &&& final(self).loop_duration == old(self).loop_duration
                },
            },
    {
        let slot = slot_of(position);
        match self.first_seen[slot] {
            Some(start) => {
                if let Some(last_position) = self.last_position {
                    if position.frame < last_position.frame {
                        self.loop_count = self.loop_count + 1;
                    }
                }
                if self.loop_duration.is_none() {
                    self.loop_duration = if frame >= start && frame - start >= MIN_LOOP_FRAMES {
                        Some((start as usize, (frame - start) as usize))
                    } else {
                        None
                    };
                }
            },
            None => {
                self.first_seen.set(slot, Some(frame));
            },
        }
        self.last_position = Some(position);
    }
}

/// Why a render cannot start.
#[derive(Clone, Copy, PartialEq, Eq, Structural, Debug)]
pub enum ConfigError {
    /// Stopping after loops needs a driver whose position can be read.
    LoopDetectionUnsupported,
    /// Stopping after the metadata duration needs that duration.
    MissingNsfeDuration,
}

impl ConfigError {
    /// A readable description of the error.
    pub fn message(&self) -> (r: &'static str)
        ensures
            r@ == (match *self {
                ConfigError::LoopDetectionUnsupported => "Loop detection not supported for this NSF"@,
                ConfigError::MissingNsfeDuration => "No NSFe/NSF2 duration specified for this track"@,
            }),
    {
        match self {
            ConfigError::LoopDetectionUnsupported => {
                proof { reveal_strlit("Loop detection not supported for this NSF"); }
                "Loop detection not supported for this NSF"
            },
            ConfigError::MissingNsfeDuration => {
                proof { reveal_strlit("No NSFe/NSF2 duration specified for this track"); }
                "No NSFe/NSF2 duration specified for this track"
            },
        }
    }
}

/// Checks, before any frame is rendered, that the stop condition can be
/// decided for this module.
pub fn validate_stop_condition(
    stop_condition: StopCondition,
    driver: NsfDriverType,
    nsfe_duration: Option<usize>,
) -> (r: Result<(), ConfigError>)
    ensures
        r == validate_stop_condition_spec(stop_condition, driver, nsfe_duration),
{
    match stop_condition {
        StopCondition::Loops(_) => {
            if driver == NsfDriverType::Unknown {
                Err(ConfigError::LoopDetectionUnsupported)
            } else {
                Ok(())
            }
        },
        StopCondition::NsfeLength => {
            if nsfe_duration.is_none() {
                Err(ConfigError::MissingNsfeDuration)
            } else {
                Ok(())
            }
        },
        StopCondition::Frames(_) => Ok(()),
    }
}

/// The fade-out timer after one frame. A running timer counts down to 0 and
/// stays there; an idle one starts at `fadeout_length` when the song ended or
/// the stop condition is met.
pub open spec fn fadeout_next(
    timer: Option<u64>,
    fadeout_length: u64,
    song_ended: bool,
    stop_condition: StopCondition,
    loop_count: usize,
    cur_frame: u64,
    nsfe_duration: usize,
) -> Option<u64> {
    match timer {
        Some(t) => if t == 0 { Some(0) } else { Some((t - 1) as u64) },
        None => {
            let met = match stop_condition {
                StopCondition::Loops(k) => loop_count >= k,
                StopCondition::Frames(n) => cur_frame >= n,
                StopCondition::NsfeLength => cur_frame >= nsfe_duration,
            };
            if song_ended || met { Some(fadeout_length) } else { None }
        },
    }
}

/// Advances the fade-out timer by one frame; see `fadeout_next`. For
/// `Loops` the caller passes the loop count, for `NsfeLength` the track's
/// duration in frames (the other is ignored).
pub fn next_fadeout_timer(
    timer: Option<u64>,
    fadeout_length: u64,
    song_ended: bool,
    stop_condition: StopCondition,
    loop_count: usize,
    cur_frame: u64,
    nsfe_duration: usize,
) -> (r: Option<u64>)
    ensures
        r == fadeout_next(timer, fadeout_length, song_ended, stop_condition, loop_count, cur_frame, nsfe_duration),
{
    match timer {
        Some(t) => if t == 0 { Some(0) } else { Some(t - 1) },
        None => {
            let met = match stop_condition {
                StopCondition::Loops(k) => loop_count >= k,
                StopCondition::Frames(n) => cur_frame >= n,
                StopCondition::NsfeLength => cur_frame >= nsfe_duration as u64,
            };
            if song_ended || met {
                Some(fadeout_length)
            } else {
                None
            }
        },
    }
}

/// The divisor applied to raw samples while fading out: 1 when not fading,
/// else `fadeout_length / remaining` capped at `i16::MAX`; a finished fade
/// (no frames remaining) uses the cap, or 0 for an empty fade.
pub open spec fn divisor_of(fadeout_length: u64, timer: Option<u64>) -> int {
    match timer {
        None => 1,
        Some(t) => if t == 0 {
            if fadeout_length == 0 { 0 } else { 0x7FFF }
        } else if fadeout_length / t > 0x7FFF {
            0x7FFF
        } else {
            (fadeout_length / t) as int
        },
    }
}

/// The fade-out volume divisor; see `divisor_of`.
pub fn volume_divisor(fadeout_length: u64, timer: Option<u64>) -> (r: i16)
    ensures
        r == divisor_of(fadeout_length, timer),
        timer matches Some(t) && 0 < t <= fadeout_length ==> r >= 1,
{
    match timer {
        None => 1,
        Some(t) => {
            if t == 0 {
                if fadeout_length == 0 { 0 } else { 0x7FFF }
            } else {
                let q = fadeout_length / t;
                if q > 0x7FFF {
                    0x7FFF
                } else {
                    proof {
                        if t <= fadeout_length {
                            vstd::arithmetic::div_mod::lemma_div_is_ordered(t as int, fadeout_length as int, t as int);
                            vstd::arithmetic::div_mod::lemma_div_by_self(t as int);
                        }
                    }
                    q as i16
                }
            }
        },
    }
}

/// The length of the whole render in frames, once known: a fixed frame
/// count plus the fade; the loop window's start plus the requested number of
/// loops plus the fade; or the track's metadata duration plus the fade.
/// `None` while unknown, or when the sum does not fit.
pub open spec fn expected_duration_of(
    stop_condition: StopCondition,
    fadeout_length: u64,
    loop_duration: Option<(usize, usize)>,
    nsfe_duration: Option<usize>,
) -> Option<int> {
    match stop_condition {
        StopCondition::Frames(n) => Some(n + fadeout_length),
        StopCondition::Loops(k) => match loop_duration {
            Some((s, l)) => Some(fadeout_length + s + l * k),
            None => None,
        },
        StopCondition::NsfeLength => match nsfe_duration {
            Some(d) => Some(d + fadeout_length),
            None => None,
        },
    }
}

/// The expected render length: a value already found is kept, else it is
/// computed by `expected_duration_of` (`None` when that overflows `usize`).
pub fn next_expected_duration(
    current: Option<usize>,
    stop_condition: StopCondition,
    fadeout_length: u64,
    loop_duration: Option<(usize, usize)>,
    nsfe_duration: Option<usize>,
) -> (r: Option<usize>)
    ensures
        current is Some ==> r == current,
        current is None ==> match expected_duration_of(stop_condition, fadeout_length, loop_duration, nsfe_duration) {
            Some(v) => if v <= usize::MAX { r == Some(v as usize) } else { r is None },
            None => r is None,
        },
{
    if current.is_some() {
        return current;
    }
    match stop_condition {
        StopCondition::Frames(n) => {
            if n as u128 + fadeout_length as u128 > usize::MAX as u128 {
                None
            } else {
                Some((n as u128 + fadeout_length as u128) as usize)
            }
        },
        StopCondition::Loops(k) => match loop_duration {
            Some((s, l)) => {
                let total: u128 = fadeout_length as u128 + s as u128;
                if l != 0 && k as u128 > (usize::MAX as u128) / (l as u128) {
                    proof {
                        assert(l * k > usize::MAX) by (nonlinear_arith)
                            requires
                                l > 0,
                                k > usize::MAX as int / l as int,
                        ;
                    }
                    None
                } else {
                    proof {
                        if l != 0 {
                            assert(l * k <= usize::MAX) by (nonlinear_arith)
                                requires
                                    l > 0,
                                    k <= usize::MAX as int / l as int,
                            ;
                        }
                    }
                    let lk: u128 = l as u128 * k as u128;
                    if total + lk > usize::MAX as u128 {
                        None
                    } else {
                        Some((total + lk) as usize)
                    }
                }
            },
            None => None,
        },
        StopCondition::NsfeLength => match nsfe_duration {
            Some(d) => {
                if d as u128 + fadeout_length as u128 > usize::MAX as u128 {
                    None
                } else {
                    Some((d as u128 + fadeout_length as u128) as usize)
                }
            },
            None => None,
        },
    }
}

/// The fade-out timer after `n` frames, starting from a running timer `t`.
pub open spec fn fade_steps(
    t: u64,
    n: nat,
    fadeout_length: u64,
    song_ended: bool,
    stop_condition: StopCondition,
    loop_count: usize,
    cur_frame: u64,
    nsfe_duration: usize,
) -> Option<u64>
    decreases n,
{
    if n == 0 {
        Some(t)
    } else {
        fadeout_next(
            fade_steps(t, (n - 1) as nat, fadeout_length, song_ended, stop_condition, loop_count, cur_frame, nsfe_duration),
            fadeout_length,
            song_ended,
            stop_condition,
            loop_count,
            cur_frame,
            nsfe_duration,
        )
    }
}

/// Once the fade-out is triggered at `fadeout_length`, the timer reads
/// `fadeout_length - n` after `n` frames, reaches exactly 0 after
/// `fadeout_length` frames and stays there, whatever else happens.
pub proof fn lemma_fadeout_countdown(
    n: nat,
    fadeout_length: u64,
    song_ended: bool,
    stop_condition: StopCondition,
    loop_count: usize,
    cur_frame: u64,
    nsfe_duration: usize,
)
    ensures
        fade_steps(fadeout_length, n, fadeout_length, song_ended, stop_condition, loop_count, cur_frame, nsfe_duration)
            == Some(if n >= fadeout_length { 0u64 } else { (fadeout_length - n) as u64 }),
    decreases n,
{
    if n > 0 {
        lemma_fadeout_countdown((n - 1) as nat, fadeout_length, song_ended, stop_condition, loop_count, cur_frame, nsfe_duration);
    }
}

/// While fading with `remaining` frames left out of `fadeout_length`, the
/// divisor is the integer ratio `fadeout_length / remaining` (when it fits in
/// an `i16`), and never 0.
pub proof fn lemma_fade_divisor_ratio(fadeout_length: u64, remaining: u64)
    requires
        0 < remaining <= fadeout_length,
    ensures
        divisor_of(fadeout_length, Some(remaining)) >= 1,
        fadeout_length / remaining <= 0x7FFF ==> divisor_of(fadeout_length, Some(remaining)) == fadeout_length / remaining,
{
    vstd::arithmetic::div_mod::lemma_div_is_ordered(remaining as int, fadeout_length as int, remaining as int);
    vstd::arithmetic::div_mod::lemma_div_by_self(remaining as int);
}

/// Division rounding toward zero, as Rust's `/` on integers.
pub open spec fn trunc_div(a: int, b: int) -> int {
    if a >= 0 {
        a / b
    } else {
        -((-a) / b)
    }
}

/// `v` clamped to the `i16` range.
pub open spec fn clamp_i16(v: int) -> int {
    if v > 0x7FFF {
        0x7FFF
    } else if v < -0x8000 {
        -0x8000
    } else {
        v
    }
}

/// A raw sample scaled for output: divided by the fade divisor (0 counts as
/// 1), then boosted by a third, saturating at the `i16` range.
pub open spec fn scaled_sample(s: i16, volume_divisor: i16) -> int {
    let d: int = if volume_divisor == 0 { 1 } else { volume_divisor as int };
    let v = trunc_div(s as int, d);
    clamp_i16(v + trunc_div(v, 3))
}

fn trunc_div_i16(a: i16, b: i16) -> (r: i16)
    requires
        b >= 1,
    ensures
        r == trunc_div(a as int, b as int),
{
    if a >= 0 {
        ((a as u16) / (b as u16)) as i16
    } else {
        let m: u32 = ((-(a as i32)) as u32) / (b as u32);
        proof {
            vstd::arithmetic::div_mod::lemma_div_is_ordered_by_denominator(-(a as int), 1, b as int);
        }
        (-(m as i32)) as i16
    }
}

/// Scales one sample; see `scaled_sample`.
pub fn scale_sample(s: i16, volume_divisor: i16) -> (r: i16)
    requires
        volume_divisor >= 0,
    ensures
        r == scaled_sample(s, volume_divisor),
{
    let d: i16 = if volume_divisor == 0 { 1 } else { volume_divisor };
    let v = trunc_div_i16(s, d);
    let third = trunc_div_i16(v, 3);
    let sum: i32 = v as i32 + third as i32;
    if sum > 0x7FFF {
        0x7FFF
    } else if sum < -0x8000 {
        -0x8000
    } else {
        sum as i16
    }
}

/// Takes the oldest `sample_count` samples out of `buffer`, scaled by
/// `scaled_sample`, or leaves it untouched and returns `None` when fewer are
/// buffered.
pub fn take_scaled_samples(buffer: &mut Vec<i16>, sample_count: usize, volume_divisor: i16) -> (r: Option<Vec<i16>>)
    requires
        volume_divisor >= 0,
    ensures
        old(buffer)@.len() < sample_count ==> r is None && final(buffer)@ == old(buffer)@,
        old(buffer)@.len() >= sample_count ==> {
            &&& r matches Some(out)
            &&& out@.len() == sample_count
            &&& forall|i: int| 0 <= i < sample_count ==> #[trigger] out@[i] == scaled_sample(old(buffer)@[i], volume_divisor)
            &&& final(buffer)@ == old(buffer)@.subrange(sample_count as int, old(buffer)@.len() as int)
        },
{
    if buffer.len() < sample_count {
        return None;
    }
    let mut out: Vec<i16> = Vec::new();
    let mut i: usize = 0;
    while i < sample_count
        invariant
            sample_count <= buffer@.len(),
            buffer@ == old(buffer)@,
            volume_divisor >= 0,
            i <= sample_count,
            out@.len() == i,
            forall|j: int| 0 <= j < i ==> #[trigger] out@[j] == scaled_sample(buffer@[j], volume_divisor),
        decreases sample_count - i,
    {
        out.push(scale_sample(buffer[i], volume_divisor));
        i = i + 1;
    }
    let mut rest: Vec<i16> = Vec::new();
    let n = buffer.len();
    let mut k: usize = sample_count;
    while k < n
        invariant
            n == buffer@.len(),
            buffer@ == old(buffer)@,
            sample_count <= k <= n,
            rest@ == buffer@.subrange(sample_count as int, k as int),
        decreases n - k,
    {
        rest.push(buffer[k]);
        k = k + 1;
        assert(rest@ =~= buffer@.subrange(sample_count as int, k as int));
    }
    *buffer = rest;
    Some(out)
}

/// Above this many queued backdrop frames, the decoder pauses.
pub const QUEUE_HIGH_WATERMARK: usize = 1800;

/// A paused decoder resumes once the queue is down to this many frames.
pub const QUEUE_LOW_WATERMARK: usize = 1200;

/// Whether the backdrop decoder should wait rather than produce, given the
/// queue length and whether it is already waiting: it starts waiting above
/// the high watermark and keeps waiting down to the low one.
pub fn decoder_should_wait(queued: usize, waiting: bool) -> (r: bool)
    ensures
        r == (if waiting { queued > QUEUE_LOW_WATERMARK } else { queued > QUEUE_HIGH_WATERMARK }),
{
    if waiting {
        queued > QUEUE_LOW_WATERMARK
    } else {
        queued > QUEUE_HIGH_WATERMARK
    }
}

/// Which packet the muxer takes next.
#[derive(Clone, Copy, PartialEq, Eq, Structural, Debug)]
pub enum PacketChoice {
    Audio,
    Video,
    Wait,
}

/// The interleave policy: an audio packet when a full audio frame is
/// buffered and audio is not ahead of video; otherwise a video frame if one
/// is queued; otherwise nothing until the next step.
pub fn next_packet(
    audio_pts: i64,
    video_pts: i64,
    audio_buffered: usize,
    audio_frame_size: usize,
    video_queued: bool,
) -> (r: PacketChoice)
    ensures
        r == (if audio_pts <= video_pts && audio_buffered >= audio_frame_size {
            PacketChoice::Audio
        } else if video_queued {
            PacketChoice::Video
        } else {
            PacketChoice::Wait
        }),
{
    if audio_pts <= video_pts && audio_buffered >= audio_frame_size {
        PacketChoice::Audio
    } else if video_queued {
        PacketChoice::Video
    } else {
        PacketChoice::Wait
    }
}

/// The decisions of a render, frame by frame: when to start fading, how
/// loud each frame is, how long the whole render will be, and when to stop.
/// The host steps the emulator and the encoder and reports back here.
pub struct RenderState {
    pub phase: RenderPhase,
    pub stop_condition: StopCondition,
    pub fadeout_length: u64,
    pub nsfe_duration: Option<usize>,
    pub fadeout_timer: Option<u64>,
    pub expected_duration: Option<usize>,
}

impl RenderState {
    /// The stop condition can be decided: stopping after the metadata
    /// duration needs that duration.
    pub open spec fn wf(&self) -> bool {
        self.stop_condition == StopCondition::NsfeLength ==> self.nsfe_duration is Some
    }

    /// Starts a render, after checking the stop condition against the module
    /// (see `validate_stop_condition`); nothing is rendered on an error.
    pub fn new(
        stop_condition: StopCondition,
        fadeout_length: u64,
        driver: NsfDriverType,
        nsfe_duration: Option<usize>,
    ) -> (r: Result<RenderState, ConfigError>)
        ensures
            r is Err <==> validate_stop_condition_spec(stop_condition, driver, nsfe_duration) is Err,
            r matches Err(e) ==> Err::<(), ConfigError>(e) == validate_stop_condition_spec(stop_condition, driver, nsfe_duration),
            r matches Ok(st) ==> {
                &&& st.wf()
                &&& st.phase == RenderPhase::Idle
                &&& st.stop_condition == stop_condition
                &&& st.fadeout_length == fadeout_length
                &&& st.nsfe_duration == nsfe_duration
                &&& st.fadeout_timer is None
                &&& st.expected_duration is None
            },
    {
        match validate_stop_condition(stop_condition, driver, nsfe_duration) {
            Err(e) => Err(e),
            Ok(()) => Ok(RenderState {
                phase: RenderPhase::Idle,
                stop_condition,
                fadeout_length,
                nsfe_duration,
                fadeout_timer: None,
                expected_duration: None,
            }),
        }
    }

    /// The divisor for this frame's samples; see `divisor_of`.
    pub fn volume_divisor(&self) -> (r: i16)
        ensures
            r == divisor_of(self.fadeout_length, self.fadeout_timer),
    {
        volume_divisor(self.fadeout_length, self.fadeout_timer)
    }

    /// Takes in what the frame just rendered produced: whether the driver
    /// reported the song's end, the loop count and window so far, and the
    /// frame counter. Updates the expected duration and the fade-out timer,
    /// and returns whether rendering goes on (it stops once the fade-out
    /// timer reaches 0).
    pub fn step(
        &mut self,
        song_ended: bool,
        loop_count: usize,
        cur_frame: u64,
        loop_duration: Option<(usize, usize)>,
    ) -> (r: bool)
        requires
            old(self).wf(),
            old(self).phase == RenderPhase::Stepping,
        ensures
            final(self).wf(),
            final(self).phase == (if r { RenderPhase::Stepping } else { RenderPhase::Draining }),
            final(self).stop_condition == old(self).stop_condition,
            final(self).fadeout_length == old(self).fadeout_length,
            final(self).nsfe_duration == old(self).nsfe_duration,
            old(self).expected_duration is Some ==> final(self).expected_duration == old(self).expected_duration,
            old(self).expected_duration is None ==> match expected_duration_of(
                old(self).stop_condition,
                old(self).fadeout_length,
                loop_duration,
                old(self).nsfe_duration,
            ) {
                Some(v) => if v <= usize::MAX {
                    final(self).expected_duration == Some(v as usize)
                } else {
                    final(self).expected_duration is None
                },
                None => final(self).expected_duration is None,
            },
            final(self).fadeout_timer == fadeout_next(
                old(self).fadeout_timer,
                old(self).fadeout_length,
                song_ended,
                old(self).stop_condition,
                loop_count,
                cur_frame,
                match old(self).nsfe_duration {
                    Some(d) => d,
                    None => 0,
                },
            ),
            r == (final(self).fadeout_timer != Some(0u64)),
    {
        self.expected_duration = next_expected_duration(
            self.expected_duration,
            self.stop_condition,
            self.fadeout_length,
            loop_duration,
            self.nsfe_duration,
        );
        let nsfe: usize = match self.nsfe_duration {
            Some(d) => d,
            None => 0,
        };
        self.fadeout_timer = next_fadeout_timer(
            self.fadeout_timer,
            self.fadeout_length,
            song_ended,
            self.stop_condition,
            loop_count,
            cur_frame,
            nsfe,
        );
        let going = match self.fadeout_timer {
            Some(t) => t != 0,
            None => true,
        };
        if !going {
            self.phase = RenderPhase::Draining;
        }
        going
    }

    /// Starts the run: the host steps one frame and throws its audio away,
    /// so that the start-up transient is not heard.
    pub fn begin(&mut self)
        requires
            old(self).phase == RenderPhase::Idle,
        ensures
            *final(self) == (RenderState { phase: RenderPhase::Priming, ..*old(self) }),
    {
        self.phase = RenderPhase::Priming;
    }

    /// The priming frame is done: frames are now rendered and encoded.
    pub fn primed(&mut self)
        requires
            old(self).phase == RenderPhase::Priming,
        ensures
            *final(self) == (RenderState { phase: RenderPhase::Stepping, ..*old(self) }),
    {
        self.phase = RenderPhase::Stepping;
    }

    /// The encoder has flushed its buffered packets and written the trailer.
    pub fn drained(&mut self)
        requires
            old(self).phase == RenderPhase::Draining,
        ensures
            *final(self) == (RenderState { phase: RenderPhase::Done, ..*old(self) }),
    {
        self.phase = RenderPhase::Done;
    }

    /// A failure of the host (reading, encoding) ends the render.
    pub fn fail(&mut self)
        ensures
            *final(self) == (RenderState { phase: RenderPhase::Failed, ..*old(self) }),
    {
        self.phase = RenderPhase::Failed;
    }
}

/// Where a render is: waiting to start, running the priming frame, stepping
/// frames, flushing the encoder, finished, or stopped by a failure.
#[derive(Clone, Copy, PartialEq, Eq, Structural, Debug)]
pub enum RenderPhase {
    Idle,
    Priming,
    Stepping,
    Draining,
    Done,
    Failed,
}

/// The outcome of `validate_stop_condition`.
pub open spec fn validate_stop_condition_spec(
    stop_condition: StopCondition,
    driver: NsfDriverType,
    nsfe_duration: Option<usize>,
) -> Result<(), ConfigError> {
    match stop_condition {
        StopCondition::Loops(_) => if driver == NsfDriverType::Unknown {
            Err(ConfigError::LoopDetectionUnsupported)
        } else {
            Ok(())
        },
        StopCondition::NsfeLength => if nsfe_duration is None {
            Err(ConfigError::MissingNsfeDuration)
        } else {
            Ok(())
        },
        StopCondition::Frames(_) => Ok(()),
    }
}

/// A module whose driver is not recognized cannot render until a number of
/// loops: the configuration is refused before any frame, with
/// `LoopDetectionUnsupported`.
pub proof fn lemma_loops_need_known_driver(loops: usize, nsfe_duration: Option<usize>)
    ensures
        validate_stop_condition_spec(StopCondition::Loops(loops), NsfDriverType::Unknown, nsfe_duration)
            == Err::<(), ConfigError>(ConfigError::LoopDetectionUnsupported),
{
}

impl SongPosition {
    /// The position as `FF:RR`, frame and row in two upper-case hex digits
    /// each.
    pub fn to_text(&self) -> (r: String)
        ensures
            r@ == seq![
                hex_char((self.frame / 16) as int),
                hex_char((self.frame % 16) as int),
                ':',
                hex_char((self.row / 16) as int),
                hex_char((self.row % 16) as int),
            ],
    {
        let map: [char; 16] = ['0', '1', '2', '3', '4', '5', '6', '7', '8', '9', 'A', 'B', 'C', 'D', 'E', 'F'];
        assert(map@ =~= seq!['0', '1', '2', '3', '4', '5', '6', '7', '8', '9', 'A', 'B', 'C', 'D', 'E', 'F']);
        let mut out: Vec<char> = Vec::new();
        out.push(map[(self.frame / 16) as usize]);
        out.push(map[(self.frame % 16) as usize]);
        out.push(':');
        out.push(map[(self.row / 16) as usize]);
        out.push(map[(self.row % 16) as usize]);
        let r = crate::text::string_from_chars(&out);
        assert(out@ =~= seq![
            hex_char((self.frame / 16) as int),
            hex_char((self.frame % 16) as int),
            ':',
            hex_char((self.row / 16) as int),
            hex_char((self.row % 16) as int),
        ]);
        r
    }
}

/// The upper-case hexadecimal digit for `d < 16`.
pub open spec fn hex_char(d: int) -> char {
    seq!['0', '1', '2', '3', '4', '5', '6', '7', '8', '9', 'A', 'B', 'C', 'D', 'E', 'F'][d]
}

} // verus!
