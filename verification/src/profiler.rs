//! Frame times, gathered over a session.
use vstd::prelude::*;

verus! {

/// How often what was gathered is published, in nanoseconds.
pub const WINDOW_NS: u64 = 500000000;

/// How many times of a frame are gathered.
pub const TIMINGS: usize = 15;

/// What one frame took.
#[derive(Clone, Copy, Debug, PartialEq, Eq, Structural)]
pub struct FrameProfile {
    pub enabled: bool,
    pub ffi_call_ns: u64,
    pub logic_ns: u64,
    pub input_ns: u64,
    pub interpreter_ns: u64,
    pub events_ns: u64,
    pub emote_ns: u64,
    pub audio_media_ns: u64,
    pub compositor_ns: u64,
    pub text_ns: u64,
    pub frame_build_ns: u64,
    pub transition_capture_ns: u64,
    pub gpu_submit_ns: u64,
    pub present_ns: u64,
    pub readback_ns: u64,
    pub host_ffi_ns: u64,
    pub host_ffi_calls: u64,
    pub host_ffi_bytes: u64,
    pub rendered: bool,
    pub damage_pixels: u64,
    pub stage_pixels: u64,
    pub draw_calls: u64,
    pub texture_count: u64,
    pub texture_gpu_bytes: u64,
    pub texture_cpu_bytes: u64,
    pub emote_layers: u64,
    pub emote_source_bytes: u64,
}

/// A frame that took nothing.
pub open spec fn blank_frame() -> FrameProfile {
    FrameProfile {
        enabled: false,
        ffi_call_ns: 0,
        logic_ns: 0,
        input_ns: 0,
        interpreter_ns: 0,
        events_ns: 0,
        emote_ns: 0,
        audio_media_ns: 0,
        compositor_ns: 0,
        text_ns: 0,
        frame_build_ns: 0,
        transition_capture_ns: 0,
        gpu_submit_ns: 0,
        present_ns: 0,
        readback_ns: 0,
        host_ffi_ns: 0,
        host_ffi_calls: 0,
        host_ffi_bytes: 0,
        rendered: false,
        damage_pixels: 0,
        stage_pixels: 0,
        draw_calls: 0,
        texture_count: 0,
        texture_gpu_bytes: 0,
        texture_cpu_bytes: 0,
        emote_layers: 0,
        emote_source_bytes: 0,
    }
}

impl Default for FrameProfile {
    fn default() -> (out: Self)
        ensures
            out == blank_frame(),
    {
        FrameProfile {
            enabled: false,
            ffi_call_ns: 0,
            logic_ns: 0,
            input_ns: 0,
            interpreter_ns: 0,
            events_ns: 0,
            emote_ns: 0,
            audio_media_ns: 0,
            compositor_ns: 0,
            text_ns: 0,
            frame_build_ns: 0,
            transition_capture_ns: 0,
            gpu_submit_ns: 0,
            present_ns: 0,
            readback_ns: 0,
            host_ffi_ns: 0,
            host_ffi_calls: 0,
            host_ffi_bytes: 0,
            rendered: false,
            damage_pixels: 0,
            stage_pixels: 0,
            draw_calls: 0,
            texture_count: 0,
            texture_gpu_bytes: 0,
            texture_cpu_bytes: 0,
            emote_layers: 0,
            emote_source_bytes: 0,
        }
    }
}

/// The times of a frame, in a fixed order.
pub open spec fn timings(frame: FrameProfile) -> Seq<u64> {
    seq![
        frame.ffi_call_ns,
        frame.logic_ns,
        frame.input_ns,
        frame.interpreter_ns,
        frame.events_ns,
        frame.emote_ns,
        frame.audio_media_ns,
        frame.compositor_ns,
        frame.text_ns,
        frame.frame_build_ns,
        frame.transition_capture_ns,
        frame.gpu_submit_ns,
        frame.present_ns,
        frame.readback_ns,
        frame.host_ffi_ns,
    ]
}

/// Lists the times of a frame.
pub fn timing_values(frame: &FrameProfile) -> (out: Vec<u64>)
    ensures
        out@ == timings(*frame),
        out@.len() == TIMINGS,
{
    let mut out: Vec<u64> = Vec::new();
    out.push(frame.ffi_call_ns);
    out.push(frame.logic_ns);
    out.push(frame.input_ns);
    out.push(frame.interpreter_ns);
    out.push(frame.events_ns);
    out.push(frame.emote_ns);
    out.push(frame.audio_media_ns);
    out.push(frame.compositor_ns);
    out.push(frame.text_ns);
    out.push(frame.frame_build_ns);
    out.push(frame.transition_capture_ns);
    out.push(frame.gpu_submit_ns);
    out.push(frame.present_ns);
    out.push(frame.readback_ns);
    out.push(frame.host_ffi_ns);
    assert(out@ =~= timings(*frame));
    out
}

/// What the frames of a session came to.
pub struct WindowAccumulator {
    pub frames: u64,
    pub rendered: u64,
    pub sums: Vec<u128>,
    pub maxima: Vec<u64>,
    pub damage_pixels: u128,
    pub stage_pixels: u128,
    pub draw_calls: u128,
    pub host_ffi_calls: u128,
    pub host_ffi_bytes: u128,
    pub latest: FrameProfile,
}

/// Whether a sum is one of at most `frames` numbers of 64 bits.
pub open spec fn sum_fits(sum: u128, frames: u64) -> bool {
    sum <= frames * 0xffff_ffff_ffff_ffff
}

/// A picture's part of a sum: frames that were not drawn have none.
pub open spec fn drawn(frame: FrameProfile, amount: u64) -> int {
    if frame.rendered {
        amount as int
    } else {
        0
    }
}

pub open spec fn larger(a: u64, b: u64) -> u64 {
    if a < b {
        b
    } else {
        a
    }
}

fn sum_with(sum: u128, frames: u64, amount: u64) -> (out: u128)
    requires
        sum_fits(sum, frames),
        frames < u64::MAX,
    ensures
        out == sum + amount,
        sum_fits(out, (frames + 1) as u64),
{
    proof {
        assert(frames * 0xffff_ffff_ffff_ffff + 0xffff_ffff_ffff_ffff <= 0xffff_ffff_ffff_ffff
            * 0xffff_ffff_ffff_ffff) by (nonlinear_arith)
            requires
                0 <= frames < 0xffff_ffff_ffff_ffff,
        ;
        assert((frames + 1) * 0xffff_ffff_ffff_ffff == frames * 0xffff_ffff_ffff_ffff
            + 0xffff_ffff_ffff_ffff) by (nonlinear_arith);
    }
    sum + amount as u128
}

proof fn lemma_sum_still_fits(sum: u128, frames: u64)
    requires
        sum_fits(sum, frames),
        frames < u64::MAX,
    ensures
        sum_fits(sum, (frames + 1) as u64),
{
    assert((frames + 1) * 0xffff_ffff_ffff_ffff == frames * 0xffff_ffff_ffff_ffff
        + 0xffff_ffff_ffff_ffff) by (nonlinear_arith);
}

/// What the frames of a session came to after one more frame.
pub open spec fn gathered(
    before: WindowAccumulator,
    after: WindowAccumulator,
    frame: FrameProfile,
) -> bool {
    &&& after.frames == before.frames + 1
    &&& after.rendered == before.rendered + (if frame.rendered {
        1int
    } else {
        0
    })
    &&& forall|i: int|
        0 <= i < TIMINGS ==> #[trigger] after.sums@[i] == before.sums@[i] + timings(frame)[i]
    &&& forall|i: int|
        0 <= i < TIMINGS ==> #[trigger] after.maxima@[i] == larger(
            before.maxima@[i],
            timings(frame)[i],
        )
    &&& after.damage_pixels == before.damage_pixels + drawn(frame, frame.damage_pixels)
    &&& after.stage_pixels == before.stage_pixels + drawn(frame, frame.stage_pixels)
    &&& after.draw_calls == before.draw_calls + drawn(frame, frame.draw_calls)
    &&& after.host_ffi_calls == before.host_ffi_calls + frame.host_ffi_calls
    &&& after.host_ffi_bytes == before.host_ffi_bytes + frame.host_ffi_bytes
    &&& after.latest == frame
}

impl WindowAccumulator {
    /// Every sum is one of the frames' numbers.
    pub open spec fn wf(self) -> bool {
        &&& self.sums@.len() == TIMINGS
        &&& self.maxima@.len() == TIMINGS
        &&& forall|i: int|
            0 <= i < TIMINGS ==> sum_fits(#[trigger] self.sums@[i], self.frames)
        &&& self.rendered <= self.frames
        &&& sum_fits(self.damage_pixels, self.frames)
        &&& sum_fits(self.stage_pixels, self.frames)
        &&& sum_fits(self.draw_calls, self.frames)
        &&& sum_fits(self.host_ffi_calls, self.frames)
        &&& sum_fits(self.host_ffi_bytes, self.frames)
    }

    /// Whether no frame was gathered.
    pub open spec fn is_blank(self) -> bool {
        &&& self.frames == 0
        &&& self.rendered == 0
        &&& forall|i: int| 0 <= i < TIMINGS ==> #[trigger] self.sums@[i] == 0
        &&& forall|i: int| 0 <= i < TIMINGS ==> #[trigger] self.maxima@[i] == 0
        &&& self.damage_pixels == 0
        &&& self.stage_pixels == 0
        &&& self.draw_calls == 0
        &&& self.host_ffi_calls == 0
        &&& self.host_ffi_bytes == 0
        &&& self.latest == blank_frame()
    }

    /// No frame yet.
    pub fn new() -> (out: Self)
        ensures
            out.wf(),
            out.is_blank(),
    {
        let sums: Vec<u128> = vec![0u128; 15];
        let maxima: Vec<u64> = vec![0u64; 15];
        WindowAccumulator {
            frames: 0,
            rendered: 0,
            sums,
            maxima,
            damage_pixels: 0,
            stage_pixels: 0,
            draw_calls: 0,
            host_ffi_calls: 0,
            host_ffi_bytes: 0,
            latest: FrameProfile::default(),
        }
    }

    /// Gathers a frame.
    pub fn push(&mut self, frame: FrameProfile)
        requires
            old(self).wf(),
            old(self).frames < u64::MAX,
        ensures
            (*final(self)).wf(),
            gathered(*old(self), *final(self), frame),
    {
        let values = timing_values(&frame);
        let frames: u64 = self.frames;
        let ghost sums = self.sums@;
        let ghost maxima = self.maxima@;
        let mut i: usize = 0;
        while i < 15
            invariant
                i <= 15,
                frames < u64::MAX,
                values@ == timings(frame),
                values@.len() == TIMINGS,
                self.sums@.len() == TIMINGS,
                self.maxima@.len() == TIMINGS,
                sums.len() == TIMINGS,
                maxima.len() == TIMINGS,
                *self == (WindowAccumulator { sums: self.sums, maxima: self.maxima, ..*old(self) }),
                forall|j: int| 0 <= j < TIMINGS ==> sum_fits(#[trigger] sums[j], frames),
                forall|j: int|
                    0 <= j < i ==> #[trigger] self.sums@[j] == sums[j] + values@[j] && sum_fits(
                        self.sums@[j],
                        (frames + 1) as u64,
                    ),
                forall|j: int|
                    0 <= j < i ==> #[trigger] self.maxima@[j] == larger(maxima[j], values@[j]),
                forall|j: int| i <= j < TIMINGS ==> #[trigger] self.sums@[j] == sums[j],
                forall|j: int| i <= j < TIMINGS ==> #[trigger] self.maxima@[j] == maxima[j],
            decreases 15 - i,
        {
            let value: u64 = values[i];
            assert(sum_fits(sums[i as int], frames));
            self.sums[i] = sum_with(self.sums[i], frames, value);
            if self.maxima[i] < value {
                self.maxima[i] = value;
            }
            i += 1;
        }
        if frame.rendered {
            self.rendered = self.rendered + 1;
            self.damage_pixels = sum_with(self.damage_pixels, frames, frame.damage_pixels);
            self.stage_pixels = sum_with(self.stage_pixels, frames, frame.stage_pixels);
            self.draw_calls = sum_with(self.draw_calls, frames, frame.draw_calls);
        } else {
            proof {
                lemma_sum_still_fits(self.damage_pixels, frames);
                lemma_sum_still_fits(self.stage_pixels, frames);
                lemma_sum_still_fits(self.draw_calls, frames);
            }
        }
        self.host_ffi_calls = sum_with(self.host_ffi_calls, frames, frame.host_ffi_calls);
        self.host_ffi_bytes = sum_with(self.host_ffi_bytes, frames, frame.host_ffi_bytes);
        self.frames = frames + 1;
        self.latest = frame;
    }
}

/// Peaks last as long as the session: a frame takes no peak back, and none of
/// its own times lies above the peaks after it.
pub proof fn law_peaks_stay(
    before: WindowAccumulator,
    after: WindowAccumulator,
    frame: FrameProfile,
    i: int,
)
    requires
        gathered(before, after, frame),
        0 <= i < TIMINGS,
    ensures
        before.maxima@[i] <= after.maxima@[i],
        timings(frame)[i] <= after.maxima@[i],
        after.maxima@[i] == before.maxima@[i] || after.maxima@[i] == timings(frame)[i],
{
    assert(after.maxima@[i] == larger(before.maxima@[i], timings(frame)[i]));
}

/// The time spent in calls to the host counts on its own: it changes no other
/// time of a frame.
pub proof fn law_host_time_is_separate(frame: FrameProfile, host_ffi_ns: u64, i: int)
    requires
        0 <= i < TIMINGS - 1,
    ensures
        timings(FrameProfile { host_ffi_ns, ..frame })[i] == timings(frame)[i],
        timings(FrameProfile { host_ffi_ns, ..frame })[TIMINGS - 1] == host_ffi_ns,
{
}

/// What reaches the one who gathers.
pub enum Message {
    Frame(FrameProfile),
    Reset(bool),
    /// Nothing came in time.
    Timeout,
    /// Nothing will come.
    Disconnected,
}

/// What follows.
#[derive(Clone, Copy, Debug, PartialEq, Eq, Structural)]
pub enum Answer {
    /// Wait for the next message.
    Wait,
    /// Publish what was gathered in the time since the session began.
    Publish { elapsed_ns: u64, enabled: bool },
    Stop,
}

/// The length of a session in milliseconds.
pub fn window_ms(elapsed_ns: u64) -> (out: u64)
    ensures
        out == elapsed_ns as int / 1000000,
{
    elapsed_ns / 1000000
}

/// A session of gathering. Times are nanoseconds of one clock.
pub struct Aggregator {
    pub enabled: bool,
    pub session_started: u64,
    pub refresh_started: u64,
    pub accumulator: WindowAccumulator,
}

/// The time between two moments; none where the clock did not move.
pub open spec fn passed(from: u64, to: u64) -> u64 {
    if to < from {
        0
    } else {
        (to - from) as u64
    }
}

impl Aggregator {
    /// What was gathered is well formed.
    pub open spec fn wf(self) -> bool {
        self.accumulator.wf()
    }

    /// Not gathering.
    pub fn new(now: u64) -> (out: Self)
        ensures
            out.wf(),
            !out.enabled,
            out.session_started == now,
            out.refresh_started == now,
            out.accumulator.is_blank(),
    {
        Aggregator {
            enabled: false,
            session_started: now,
            refresh_started: now,
            accumulator: WindowAccumulator::new(),
        }
    }

    /// How long to wait for a message; without limit while not gathering.
    pub fn timeout(&self, now: u64) -> (out: Option<u64>)
        ensures
            out == (if self.enabled {
                Some(
                    if passed(self.refresh_started, now) >= WINDOW_NS {
                        0u64
                    } else {
                        (WINDOW_NS - passed(self.refresh_started, now)) as u64
                    },
                )
            } else {
                None
            }),
    {
        if self.enabled {
            let gone: u64 = now.saturating_sub(self.refresh_started);
            Some(WINDOW_NS.saturating_sub(gone))
        } else {
            None
        }
    }

    /// Takes a message. A reset begins a session anew; frames count only within
    /// a session; what was gathered is published once a window, and gathering
    /// goes on over the whole session.
    pub fn take(&mut self, message: Message, now: u64) -> (out: Answer)
        requires
            old(self).wf(),
            old(self).accumulator.frames < u64::MAX,
        ensures
            (*final(self)).wf(),
            match message {
                Message::Disconnected => out == Answer::Stop && *final(self) == *old(self),
                Message::Reset(value) => out == Answer::Wait && final(self).enabled == value
                    && final(self).session_started == now && final(self).refresh_started == now
                    && final(self).accumulator.is_blank(),
                _ => {
                    &&& final(self).enabled == old(self).enabled
                    &&& final(self).session_started == old(self).session_started
                    &&& !old(self).enabled ==> out == Answer::Wait && *final(self) == *old(self)
                    &&& message is Timeout ==> final(self).accumulator == old(self).accumulator
                    &&& message is Frame && old(self).enabled ==> gathered(
                        old(self).accumulator,
                        final(self).accumulator,
                        message->Frame_0,
                    )
                    &&& old(self).enabled ==> out == (if passed(old(self).refresh_started, now)
                        >= WINDOW_NS {
                        Answer::Publish {
                            elapsed_ns: passed(old(self).session_started, now),
                            enabled: true,
                        }
                    } else {
                        Answer::Wait
                    })
                    &&& old(self).enabled ==> final(self).refresh_started == (if passed(
                        old(self).refresh_started,
                        now,
                    ) >= WINDOW_NS {
                        now
                    } else {
                        old(self).refresh_started
                    })
                },
            },
    {
        match message {
            Message::Disconnected => return Answer::Stop,
            Message::Reset(value) => {
                self.enabled = value;
                self.session_started = now;
                self.refresh_started = now;
                self.accumulator = WindowAccumulator::new();
                return Answer::Wait;
            },
            Message::Frame(frame) => {
                if !self.enabled {
                    return Answer::Wait;
                }
                self.accumulator.push(frame);
            },
            Message::Timeout => {
                if !self.enabled {
                    return Answer::Wait;
                }
            },
        }
        if now.saturating_sub(self.refresh_started) >= WINDOW_NS {
            self.refresh_started = now;
            Answer::Publish {
                elapsed_ns: now.saturating_sub(self.session_started),
                enabled: self.enabled,
            }
        } else {
            Answer::Wait
        }
    }
}

/// The times of a frame are kept in one order.
pub proof fn law_times_are_kept_in_order(frame: FrameProfile)
    ensures
        ({
            let all = timings(frame);
            &&& all.len() == 15
            &&& all[0] == frame.ffi_call_ns && all[1] == frame.logic_ns && all[2] == frame.input_ns
            &&& all[3] == frame.interpreter_ns && all[4] == frame.events_ns && all[5]
                == frame.emote_ns
            &&& all[6] == frame.audio_media_ns && all[7] == frame.compositor_ns && all[8]
                == frame.text_ns
            &&& all[9] == frame.frame_build_ns && all[10] == frame.transition_capture_ns
            &&& all[11] == frame.gpu_submit_ns && all[12] == frame.present_ns
            &&& all[13] == frame.readback_ns && all[14] == frame.host_ffi_ns
        }),
{
}

/// Gathering a frame adds its times and its calls to the sums. Its pixels and draw
/// calls count only where it was rendered.
pub proof fn law_frames_add_up(
    before: WindowAccumulator,
    after: WindowAccumulator,
    frame: FrameProfile,
    i: int,
)
    requires
        gathered(before, after, frame),
        0 <= i < 15,
    ensures
        after.frames == before.frames + 1,
        after.sums@[i] == before.sums@[i] + timings(frame)[i],
        after.host_ffi_calls == before.host_ffi_calls + frame.host_ffi_calls,
        after.host_ffi_bytes == before.host_ffi_bytes + frame.host_ffi_bytes,
        after.latest == frame,
        frame.rendered ==> after.rendered == before.rendered + 1 && after.damage_pixels
            == before.damage_pixels + frame.damage_pixels && after.stage_pixels
            == before.stage_pixels + frame.stage_pixels && after.draw_calls == before.draw_calls
            + frame.draw_calls,
        !frame.rendered ==> after.rendered == before.rendered && after.damage_pixels
            == before.damage_pixels && after.stage_pixels == before.stage_pixels
            && after.draw_calls == before.draw_calls,
{
    assert(after.sums@[i] == before.sums@[i] + timings(frame)[i]);
}

/// Time never passes backwards; a window lasts half a second.
pub proof fn law_time_passes_forwards(from: u64, to: u64)
    ensures
        from <= to ==> passed(from, to) == to - from,
        to < from ==> passed(from, to) == 0,
        WINDOW_NS == 500_000_000,
        timings(blank_frame()).len() == 15,
        forall|i: int| 0 <= i < 15 ==> #[trigger] timings(blank_frame())[i] == 0,
        !blank_frame().enabled && !blank_frame().rendered,
{
}

/// In a window without frames everything is 0.
pub proof fn law_blank_windows_hold_nothing(window: WindowAccumulator, i: int)
    requires
        window.is_blank(),
        0 <= i < 15,
    ensures
        window.frames == 0 && window.rendered == 0,
        window.sums@[i] == 0 && window.maxima@[i] == 0,
        window.damage_pixels == 0 && window.stage_pixels == 0 && window.draw_calls == 0,
        window.host_ffi_calls == 0 && window.host_ffi_bytes == 0,
        window.latest == blank_frame(),
{
    assert(window.sums@[i] == 0);
    assert(window.maxima@[i] == 0);
}

} // verus!
