//! Why a script waits, how it goes on, and what scripts see of it.
use crate::runtime::actions::{
    lemma_pushed0, lemma_pushed1, note, noted, records, ActionRecord, ControlAction,
};
use crate::runtime::modes::{auto_on, auto_waited, skip_held, skipping, Modes};
use crate::strs::{copy_text, has_prefix, opt_text, same_text, starts_with};
use vstd::prelude::*;

verus! {

/// Why a script waits.
pub enum WaitReason {
    /// For a click.
    Generic,
    /// For a click, without a mark.
    Generic0,
    /// For a time; with `input` 1 a click ends it.
    Timed { milliseconds: u64, input: i32 },
    /// Until something resumes it.
    Stop { reason: Option<String> },
    /// For one of some buttons.
    KeyWait { buttons: Vec<u32> },
    /// For a sound, a video layer, a tween or another event.
    Event { source: String },
}

/// What a reason holds.
pub enum WaitRecord {
    Generic,
    Generic0,
    Timed { milliseconds: u64, input: i32 },
    Stop { reason: Option<Seq<char>> },
    KeyWait { buttons: Seq<u32> },
    Event { source: Seq<char> },
}

impl View for WaitReason {
    type V = WaitRecord;

    open spec fn view(&self) -> WaitRecord {
        match self {
            WaitReason::Generic => WaitRecord::Generic,
            WaitReason::Generic0 => WaitRecord::Generic0,
            WaitReason::Timed { milliseconds, input } => WaitRecord::Timed {
                milliseconds: *milliseconds,
                input: *input,
            },
            WaitReason::Stop { reason } => WaitRecord::Stop { reason: opt_text(*reason) },
            WaitReason::KeyWait { buttons } => WaitRecord::KeyWait { buttons: buttons@ },
            WaitReason::Event { source } => WaitRecord::Event { source: source@ },
        }
    }
}

pub open spec fn opt_wait(reason: Option<WaitReason>) -> Option<WaitRecord> {
    match reason {
        Some(r) => Some(r@),
        None => None,
    }
}

pub open spec fn opt_wait_ref(reason: Option<&WaitReason>) -> Option<WaitRecord> {
    match reason {
        Some(r) => Some(r@),
        None => None,
    }
}

// ── Status codes ───────────────────────────────────────────────

/// The status that scripts see: 0 running, 1 waiting for a click, 2 in a
/// transition, 3 stopped, 4 stopped for a time or skipping for debugging, 7 in a
/// video, 9 in a dialog, 14 leaving.
pub open spec fn engine_status(
    wait: Option<WaitRecord>,
    dialog_open: bool,
    debug_skip: bool,
    exit_requested: bool,
) -> u8 {
    if exit_requested {
        14
    } else if debug_skip {
        4
    } else if dialog_open {
        9
    } else {
        match wait {
            None => 0,
            Some(WaitRecord::Stop { reason: Some(r) }) => if r == "video"@ {
                7
            } else if r == "trans"@ || has_prefix(r, "tween:"@) {
                2
            } else {
                3
            },
            Some(WaitRecord::Stop { reason: None }) => 3,
            Some(WaitRecord::Generic) => 1,
            Some(WaitRecord::Generic0) => 1,
            Some(WaitRecord::Timed { input, .. }) => if input == 1 {
                1
            } else {
                4
            },
            Some(_) => 3,
        }
    }
}

/// The status that scripts see.
pub fn engine_status_for(
    wait_reason: Option<&WaitReason>,
    dialog_open: bool,
    debug_skip: bool,
    exit_requested: bool,
) -> (out: u8)
    ensures
        out == engine_status(opt_wait_ref(wait_reason), dialog_open, debug_skip, exit_requested),
{
    if exit_requested {
        return 14;
    }
    if debug_skip {
        return 4;
    }
    if dialog_open {
        return 9;
    }
    match wait_reason {
        None => 0,
        Some(WaitReason::Stop { reason }) => match reason {
            Some(r) => if same_text(r.as_str(), "video") {
                7
            } else if same_text(r.as_str(), "trans") || starts_with(r.as_str(), "tween:") {
                2
            } else {
                3
            },
            None => 3,
        },
        Some(WaitReason::Generic) => 1,
        Some(WaitReason::Generic0) => 1,
        Some(WaitReason::Timed { input, .. }) => if *input == 1 {
            1
        } else {
            4
        },
        Some(_) => 3,
    }
}

/// The status that scripts see and may set, beside the one that the engine
/// wrote last.
#[derive(Clone, Copy, Debug, PartialEq, Eq, Structural)]
pub struct ScriptStatus {
    /// What scripts see.
    pub visible: u8,
    /// What the engine wrote last.
    pub last_engine: u8,
    /// Whether a script stopped the engine.
    pub forced_stop: bool,
}

/// Whether a script set the status to running.
pub open spec fn woken(s: ScriptStatus) -> bool {
    s.visible != s.last_engine && s.visible == 0
}

/// The status after a frame's check. `computed` is the engine's own status,
/// after a wait that was woken has ended.
pub open spec fn synced(s: ScriptStatus, computed: u8) -> ScriptStatus {
    if s.visible != s.last_engine && s.visible != 0 {
        ScriptStatus { forced_stop: true, last_engine: s.visible, ..s }
    } else {
        let awake = if woken(s) {
            ScriptStatus { forced_stop: false, last_engine: 0, ..s }
        } else {
            s
        };
        if awake.forced_stop || computed == awake.last_engine {
            awake
        } else {
            ScriptStatus { visible: computed, last_engine: computed, ..awake }
        }
    }
}

impl ScriptStatus {
    /// Running, with nothing set by a script.
    pub fn new() -> (out: Self)
        ensures
            out == (ScriptStatus { visible: 0, last_engine: 0, forced_stop: false }),
    {
        ScriptStatus { visible: 0, last_engine: 0, forced_stop: false }
    }

    /// A script sets the status.
    pub fn set_by_script(&mut self, status: u8)
        ensures
            *final(self) == (ScriptStatus { visible: status, ..*old(self) }),
    {
        self.visible = status;
    }

    /// Compares the status that scripts see with the engine's own. Returns
    /// whether a script asks to go on from a wait; the wait then ends.
    pub fn sync_script_status(
        &mut self,
        wait_reason: Option<&WaitReason>,
        dialog_open: bool,
        debug_skip: bool,
        exit_requested: bool,
    ) -> (wake: bool)
        ensures
            wake == (woken(*old(self)) && wait_reason is Some),
            *final(self) == synced(
                *old(self),
                engine_status(
                    if woken(*old(self)) {
                        None
                    } else {
                        opt_wait_ref(wait_reason)
                    },
                    dialog_open,
                    debug_skip,
                    exit_requested,
                ),
            ),
    {
        let mut wake = false;
        let mut reason = wait_reason;
        if self.visible != self.last_engine {
            if self.visible == 0 {
                wake = wait_reason.is_some();
                reason = None;
                self.forced_stop = false;
                self.last_engine = 0;
            } else {
                self.forced_stop = true;
                self.last_engine = self.visible;
                return false;
            }
        }
        if self.forced_stop {
            return wake;
        }
        let computed: u8 = engine_status_for(reason, dialog_open, debug_skip, exit_requested);
        if computed != self.last_engine {
            self.visible = computed;
            self.last_engine = computed;
        }
        wake
    }
}

/// A stop that a script set holds until the script sets the status to running,
/// whatever the engine would say.
pub proof fn law_forced_stop_holds(s: ScriptStatus, status: u8, first: u8, second: u8)
    requires
        status != 0,
        status != s.last_engine,
    ensures
        ({
            let stopped = synced(ScriptStatus { visible: status, ..s }, first);
            &&& stopped.forced_stop
            &&& stopped.visible == status
            &&& synced(stopped, second) == stopped
        }),
{
}

/// Setting the status to running ends a stop that a script set, and the engine
/// writes its own status again.
pub proof fn law_running_ends_forced_stop(s: ScriptStatus, computed: u8)
    requires
        s.forced_stop,
        s.last_engine != 0,
    ensures
        ({
            let awake = synced(ScriptStatus { visible: 0, ..s }, computed);
            &&& !awake.forced_stop
            &&& awake.visible == computed
            &&& awake.last_engine == computed
        }),
{
}

/// Without a script's doing, scripts see the engine's own status.
pub proof fn law_status_follows_engine(s: ScriptStatus, computed: u8)
    requires
        s.visible == s.last_engine,
        !s.forced_stop,
    ensures
        synced(s, computed).visible == computed,
        synced(s, computed).last_engine == computed,
{
}

// ── Clicks ─────────────────────────────────────────────────────

/// Whether a wait is one for a click.
pub open spec fn click_wait(wait: Option<WaitRecord>) -> bool {
    wait == Some(WaitRecord::Generic) || wait == Some(WaitRecord::Generic0)
}

pub fn wait_reason_is_click_wait(reason: Option<&WaitReason>) -> (out: bool)
    ensures
        out == click_wait(opt_wait_ref(reason)),
{
    match reason {
        Some(WaitReason::Generic) => true,
        Some(WaitReason::Generic0) => true,
        _ => false,
    }
}

/// A timed wait ends by a click only where it takes input.
pub fn timed_wait_accepts_click(input: i32, clicked: bool) -> (out: bool)
    ensures
        out == (input == 1 && clicked),
{
    input == 1 && clicked
}

/// A stop ends by a key that a script pressed, never by a real click.
pub fn stop_wait_accepts_scripted_decide(scripted_decide: bool) -> (out: bool)
    ensures
        out == scripted_decide,
{
    scripted_decide
}

/// Whether a handler of the left button uses up the click. A timed wait that
/// takes input gets the click all the same.
pub open spec fn push_absorbs(wait: Option<WaitRecord>, handled: bool) -> bool {
    handled && !(wait matches Some(WaitRecord::Timed { input, .. }) && input == 1)
}

pub fn global_push_absorbs_default_click(
    wait_reason: Option<&WaitReason>,
    handled_by_left_push: bool,
) -> (out: bool)
    ensures
        out == push_absorbs(opt_wait_ref(wait_reason), handled_by_left_push),
{
    match wait_reason {
        Some(WaitReason::Timed { input, .. }) => handled_by_left_push && *input != 1,
        _ => handled_by_left_push,
    }
}

// ── Going on from a wait ───────────────────────────────────────

/// A wait and the time left of it.
pub struct WaitState {
    pub wait_reason: Option<WaitReason>,
    pub timed_remaining_ms: u64,
}

/// What a wait state holds.
pub struct Waiting {
    pub reason: Option<WaitRecord>,
    pub remaining_ms: u64,
}

impl View for WaitState {
    type V = Waiting;

    open spec fn view(&self) -> Waiting {
        Waiting { reason: opt_wait(self.wait_reason), remaining_ms: self.timed_remaining_ms }
    }
}

/// What happened since the last frame, and what is ready.
pub struct WaitInputs {
    pub clicked: bool,
    /// Whether a script pressed a key.
    pub scripted_decide: bool,
    pub delta_ms: u64,
    pub video_finished: bool,
    pub transition_in_progress: bool,
    pub text_complete: bool,
    /// Whether the sounds that auto mode waits for have ended.
    pub voice_ready: bool,
    /// The pause of auto mode.
    pub auto_wait_ms: u64,
}

/// How a script goes on.
#[derive(Clone, Copy, Debug, PartialEq, Eq, Structural)]
pub enum WaitOutcome {
    /// It waits on.
    Waits,
    /// It goes on where it is.
    Resumes,
    /// It goes on behind the instruction that waited.
    NextLine,
    /// It is in a stop that ends skipping for debugging.
    EndDebugSkip,
}

/// The whole outcome of a frame of waiting.
pub struct WaitStep {
    pub waiting: Waiting,
    pub modes: Modes,
    pub actions: Seq<ActionRecord>,
    pub outcome: WaitOutcome,
}

/// The modes with the flags of a wait cleared.
pub open spec fn wait_flags_cleared(m: Modes) -> Modes {
    Modes { auto_wait_elapsed_ms: 0, skip_wait_revealed: false, skip_hold_frames: 0, ..m }
}

/// The script goes on behind the instruction that waited.
pub open spec fn goes_on(w: Waiting, m: Modes, actions: Seq<ActionRecord>) -> WaitStep {
    WaitStep {
        waiting: Waiting { reason: None, ..w },
        modes: wait_flags_cleared(m),
        actions,
        outcome: WaitOutcome::NextLine,
    }
}

/// The script waits on.
pub open spec fn waits_on(w: Waiting, m: Modes, actions: Seq<ActionRecord>) -> WaitStep {
    WaitStep { waiting: w, modes: m, actions, outcome: WaitOutcome::Waits }
}

/// Whether a page is still held while skipping.
pub open spec fn holds(m: Modes) -> bool {
    !m.skip_wait_revealed || m.skip_hold_frames < 3
}

/// A frame of a timed wait.
pub open spec fn timed_step(w: Waiting, m: Modes, input: i32, i: WaitInputs) -> WaitStep {
    let over = Waiting { remaining_ms: 0, ..w };
    if input == 1 && (i.clicked || i.scripted_decide) {
        goes_on(over, m, Seq::empty())
    } else if skipping(m) {
        let held = skip_held(m);
        if holds(m) {
            waits_on(w, held.modes, held.actions)
        } else {
            goes_on(over, held.modes, held.actions)
        }
    } else if i.delta_ms >= w.remaining_ms {
        goes_on(over, m, Seq::empty())
    } else {
        waits_on(
            Waiting { remaining_ms: (w.remaining_ms - i.delta_ms) as u64, ..w },
            m,
            Seq::empty(),
        )
    }
}

/// A frame of a wait for a click: a first click shows the whole text.
pub open spec fn click_step(w: Waiting, m: Modes, i: WaitInputs) -> WaitStep {
    if i.clicked || i.scripted_decide {
        if i.text_complete {
            goes_on(w, m, Seq::empty())
        } else {
            waits_on(w, m, seq![ActionRecord::RevealText])
        }
    } else if skipping(m) {
        let held = skip_held(m);
        if holds(m) {
            waits_on(w, held.modes, held.actions)
        } else {
            goes_on(w, held.modes, held.actions)
        }
    } else {
        let ready = i.text_complete && i.voice_ready;
        let waited = auto_waited(m, i.delta_ms, ready);
        let next = Modes { auto_wait_elapsed_ms: waited, ..m };
        if auto_on(m) && ready && waited >= i.auto_wait_ms {
            goes_on(w, next, Seq::empty())
        } else {
            waits_on(w, next, Seq::empty())
        }
    }
}

/// A frame of waiting.
pub open spec fn wait_step(w: Waiting, m: Modes, i: WaitInputs) -> WaitStep {
    match w.reason {
        None => waits_on(w, m, Seq::empty()),
        Some(WaitRecord::Timed { input, .. }) => timed_step(w, m, input, i),
        Some(WaitRecord::Stop { reason }) => if reason == Some("exskip"@) {
            WaitStep {
                waiting: w,
                modes: m,
                actions: Seq::empty(),
                outcome: WaitOutcome::EndDebugSkip,
            }
        } else if i.video_finished || (reason == Some("trans"@) && !i.transition_in_progress) {
            WaitStep {
                waiting: Waiting { reason: None, ..w },
                modes: m,
                actions: Seq::empty(),
                outcome: WaitOutcome::Resumes,
            }
        } else if i.scripted_decide {
            goes_on(w, m, Seq::empty())
        } else {
            waits_on(w, m, Seq::empty())
        },
        Some(_) => click_step(w, m, i),
    }
}

/// Whether the end of a video is still to be taken up after a frame of waiting:
/// only a stop uses it up, other than the one that ends skipping for debugging.
pub open spec fn video_left(reason: Option<WaitRecord>, video_finished: bool) -> bool {
    video_finished && !(reason matches Some(WaitRecord::Stop { reason }) && reason != Some(
        "exskip"@,
    ))
}

impl WaitState {
    /// Running.
    pub fn new() -> (out: Self)
        ensures
            out@ == (Waiting { reason: None, remaining_ms: 0 }),
    {
        WaitState { wait_reason: None, timed_remaining_ms: 0 }
    }

    /// Ends the wait and clears its flags.
    pub fn advance_wait_line(&mut self, modes: &mut Modes)
        ensures
            final(self)@ == (Waiting { reason: None, ..old(self)@ }),
            *final(modes) == wait_flags_cleared(*old(modes)),
    {
        self.wait_reason = None;
        modes.reset_wait_flags();
    }

    /// Moves a wait on by a frame. What is left of the end of a video stays among
    /// the inputs.
    pub fn advance_wait_state(
        &mut self,
        modes: &mut Modes,
        inputs: &mut WaitInputs,
        actions: &mut Vec<ControlAction>,
    ) -> (outcome: WaitOutcome)
        ensures
            final(self)@ == wait_step(old(self)@, *old(modes), *old(inputs)).waiting,
            *final(modes) == wait_step(old(self)@, *old(modes), *old(inputs)).modes,
            noted(
                old(actions)@,
                final(actions)@,
                wait_step(old(self)@, *old(modes), *old(inputs)).actions,
            ),
            outcome == wait_step(old(self)@, *old(modes), *old(inputs)).outcome,
            *final(inputs) == (WaitInputs {
                video_finished: video_left(old(self)@.reason, old(inputs).video_finished),
                ..*old(inputs)
            }),
    {
        let used = match &self.wait_reason {
            Some(WaitReason::Stop { reason }) => match reason {
                Some(name) => !same_text(name.as_str(), "exskip"),
                None => true,
            },
            _ => false,
        };
        let outcome = self.step_wait(modes, inputs, actions);
        if used {
            inputs.video_finished = false;
        }
        outcome
    }

    /// Moves a wait on by a frame.
    fn step_wait(
        &mut self,
        modes: &mut Modes,
        inputs: &WaitInputs,
        actions: &mut Vec<ControlAction>,
    ) -> (outcome: WaitOutcome)
        ensures
            final(self)@ == wait_step(old(self)@, *old(modes), *inputs).waiting,
            *final(modes) == wait_step(old(self)@, *old(modes), *inputs).modes,
            noted(
                old(actions)@,
                final(actions)@,
                wait_step(old(self)@, *old(modes), *inputs).actions,
            ),
            outcome == wait_step(old(self)@, *old(modes), *inputs).outcome,
    {
        let ghost start = records(actions@);
        proof {
            lemma_pushed0(start);
            lemma_pushed1(start, ActionRecord::RevealText);
        }
        let clicked = inputs.clicked || inputs.scripted_decide;
        let advance = match &self.wait_reason {
            None => {
                return WaitOutcome::Waits;
            },
            Some(WaitReason::Timed { input, .. }) => {
                if timed_wait_accepts_click(*input, clicked) {
                    self.timed_remaining_ms = 0;
                    true
                } else if modes.skip_active() {
                    if modes.should_hold_for_skip_reveal(actions) {
                        false
                    } else {
                        self.timed_remaining_ms = 0;
                        true
                    }
                } else if inputs.delta_ms >= self.timed_remaining_ms {
                    self.timed_remaining_ms = 0;
                    true
                } else {
                    self.timed_remaining_ms = self.timed_remaining_ms - inputs.delta_ms;
                    false
                }
            },
            Some(WaitReason::Stop { reason }) => {
                let in_transition = match reason {
                    Some(r) => {
                        if same_text(r.as_str(), "exskip") {
                            return WaitOutcome::EndDebugSkip;
                        }
                        same_text(r.as_str(), "trans")
                    },
                    None => false,
                };
                if inputs.video_finished || (in_transition && !inputs.transition_in_progress) {
                    self.wait_reason = None;
                    return WaitOutcome::Resumes;
                }
                stop_wait_accepts_scripted_decide(inputs.scripted_decide)
            },
            Some(_) => {
                if clicked {
                    if inputs.text_complete {
                        true
                    } else {
                        note(actions, ControlAction::RevealText);
                        false
                    }
                } else if modes.skip_active() {
                    !modes.should_hold_for_skip_reveal(actions)
                } else {
                    modes.should_auto_advance(
                        inputs.delta_ms,
                        inputs.text_complete && inputs.voice_ready,
                        inputs.auto_wait_ms,
                    )
                }
            },
        };
        if advance {
            self.advance_wait_line(modes);
            WaitOutcome::NextLine
        } else {
            WaitOutcome::Waits
        }
    }
}

/// The frames of a timed wait add up: it ends in the frame in which their sum
/// reaches the time.
pub proof fn law_timed_frames_add_up(w: Waiting, m: Modes, input: i32, a: WaitInputs, b: WaitInputs)
    requires
        !skipping(m),
        !(input == 1 && (a.clicked || a.scripted_decide)),
        !(input == 1 && (b.clicked || b.scripted_decide)),
        a.delta_ms < w.remaining_ms,
    ensures
        ({
            let first = timed_step(w, m, input, a);
            let second = timed_step(first.waiting, first.modes, input, b);
            &&& first.outcome == WaitOutcome::Waits
            &&& (second.outcome == WaitOutcome::NextLine <==> a.delta_ms + b.delta_ms
                >= w.remaining_ms)
            &&& (second.outcome == WaitOutcome::Waits ==> second.waiting.remaining_ms
                == w.remaining_ms - a.delta_ms - b.delta_ms)
        }),
{
}

/// The end of a video ends one stop and no other: it is used up by the stop that
/// it ends, and it outlasts every other wait.
pub proof fn law_video_ends_one_stop(w: Waiting, m: Modes, i: WaitInputs)
    requires
        i.video_finished,
    ensures
        !video_left(w.reason, i.video_finished) ==> wait_step(w, m, i).outcome
            == WaitOutcome::Resumes && wait_step(w, m, i).waiting.reason is None,
        video_left(w.reason, i.video_finished) ==> wait_step(w, m, i).outcome
            != WaitOutcome::Resumes,
{
}

/// A real click never ends a stop.
pub proof fn law_click_does_not_end_stop(w: Waiting, m: Modes, i: WaitInputs)
    requires
        w.reason matches Some(WaitRecord::Stop { reason }) && reason != Some("exskip"@) && (reason
            == Some("trans"@) ==> i.transition_in_progress),
        !i.scripted_decide,
        !i.video_finished,
    ensures
        wait_step(w, m, i) == waits_on(w, m, Seq::empty()),
{
}

/// A click on text that is still appearing shows the text, and the next one
/// goes on.
pub proof fn law_click_reveals_then_advances(w: Waiting, m: Modes, i: WaitInputs)
    requires
        click_wait(w.reason),
        i.clicked,
    ensures
        !i.text_complete ==> wait_step(w, m, i) == waits_on(w, m, seq![ActionRecord::RevealText]),
        i.text_complete ==> wait_step(w, m, i).outcome == WaitOutcome::NextLine,
{
}

/// Whenever a script goes on behind a wait, no wait is left and the flags of
/// the wait are cleared.
pub proof fn law_going_on_clears_the_wait(w: Waiting, m: Modes, i: WaitInputs)
    requires
        wait_step(w, m, i).outcome == WaitOutcome::NextLine,
    ensures
        wait_step(w, m, i).waiting.reason is None,
        wait_step(w, m, i).modes.auto_wait_elapsed_ms == 0,
        !wait_step(w, m, i).modes.skip_wait_revealed,
        wait_step(w, m, i).modes.skip_hold_frames == 0,
{
}

// ── Running and draining ───────────────────────────────────────

/// What the interpreter came back with.
pub enum RunResult {
    /// A wait that a script asked for.
    Wait(WaitReason),
    /// A video, on a layer or over the whole screen.
    Video { on_layer: bool },
    /// A transition.
    Transition,
    /// Another event that is waited for.
    OtherWait,
    /// The script is over, or there is nothing more to run in this frame.
    Ended,
}

/// How the frame goes on.
#[derive(Clone, Copy, Debug, PartialEq, Eq, Structural)]
pub enum RunNext {
    /// The interpreter runs on.
    RunOn,
    /// The frame is over.
    EndFrame,
}

/// The wait that a result begins.
pub open spec fn wait_of(result: RunResult) -> Option<WaitRecord> {
    match result {
        RunResult::Wait(reason) => Some(reason@),
        RunResult::Video { on_layer } => if on_layer {
            None
        } else {
            Some(WaitRecord::Stop { reason: Some("video"@) })
        },
        RunResult::Transition => Some(WaitRecord::Stop { reason: Some("trans"@) }),
        RunResult::OtherWait => Some(WaitRecord::Generic),
        RunResult::Ended => None,
    }
}

impl WaitState {
    /// Takes up what the interpreter came back with. A video on a layer does
    /// not stop the script.
    pub fn take_run_result(&mut self, result: RunResult, modes: &mut Modes) -> (next: RunNext)
        requires
            old(self)@.reason is None,
        ensures
            final(self)@.reason == wait_of(result),
            final(self)@.remaining_ms == (match wait_of(result) {
                Some(WaitRecord::Timed { milliseconds, .. }) => milliseconds,
                _ => old(self)@.remaining_ms,
            }),
            *final(modes) == (if wait_of(result) is Some {
                wait_flags_cleared(*old(modes))
            } else {
                *old(modes)
            }),
            next == (if result matches RunResult::Video { on_layer } && on_layer {
                RunNext::RunOn
            } else {
                RunNext::EndFrame
            }),
    {
        match result {
            RunResult::Wait(reason) => {
                if let WaitReason::Timed { milliseconds, .. } = &reason {
                    self.timed_remaining_ms = *milliseconds;
                }
                self.wait_reason = Some(reason);
                modes.reset_wait_flags();
                RunNext::EndFrame
            },
            RunResult::Video { on_layer } => {
                if on_layer {
                    return RunNext::RunOn;
                }
                self.wait_reason = Some(WaitReason::Stop { reason: Some(copy_text("video")) });
                modes.reset_wait_flags();
                RunNext::EndFrame
            },
            RunResult::Transition => {
                self.wait_reason = Some(WaitReason::Stop { reason: Some(copy_text("trans")) });
                modes.reset_wait_flags();
                RunNext::EndFrame
            },
            RunResult::OtherWait => {
                self.wait_reason = Some(WaitReason::Generic);
                modes.reset_wait_flags();
                RunNext::EndFrame
            },
            RunResult::Ended => RunNext::EndFrame,
        }
    }
}

/// What is done at a stop that ends fast forwarding.
#[derive(Clone, Copy, Debug, PartialEq, Eq, Structural)]
pub enum DebugSkipEnd {
    /// The handler for its end runs first.
    FireHandler,
    /// Queued tags run while the stop stands.
    DrainTags,
    /// The script goes on in the next line.
    NextLine,
    /// The stop stands.
    Stay,
}

/// Begins the end of fast forwarding: it is off from here on, and its handler
/// runs only where it was on.
pub fn advance_exskip_stop(debug_skip: &mut bool) -> (out: DebugSkipEnd)
    ensures
        !*final(debug_skip),
        out == (if *old(debug_skip) {
            DebugSkipEnd::FireHandler
        } else {
            DebugSkipEnd::NextLine
        }),
{
    let was_on: bool = *debug_skip;
    *debug_skip = false;
    if was_on {
        DebugSkipEnd::FireHandler
    } else {
        DebugSkipEnd::NextLine
    }
}

/// What follows the handler for the end of fast forwarding.
pub fn after_exskip_handler(failed: bool, has_tags: bool) -> (out: DebugSkipEnd)
    ensures
        out == (if failed {
            DebugSkipEnd::Stay
        } else if has_tags {
            DebugSkipEnd::DrainTags
        } else {
            DebugSkipEnd::NextLine
        }),
{
    if failed {
        DebugSkipEnd::Stay
    } else if has_tags {
        DebugSkipEnd::DrainTags
    } else {
        DebugSkipEnd::NextLine
    }
}

/// What is done with queued tags before the script moves on.
#[derive(Clone, Copy, Debug, PartialEq, Eq, Structural)]
pub enum TagPlan {
    /// The script does not move in this frame.
    Frozen,
    /// There is nothing to do.
    Nothing,
    /// Tags run while a stop stands.
    WhileStopped,
    /// Tags run while another wait stands.
    WhileWaiting,
    /// Tags of an event run in the middle of a script.
    Inline,
    /// Tags run with the script.
    WithScript,
}

/// What is done with queued tags. A dialog freezes the script.
pub open spec fn tag_plan(
    dialog_open: bool,
    has_tags: bool,
    wait: Option<WaitRecord>,
    inline_event: bool,
) -> TagPlan {
    if dialog_open {
        TagPlan::Frozen
    } else if !has_tags {
        TagPlan::Nothing
    } else {
        match wait {
            Some(WaitRecord::Stop { .. }) => TagPlan::WhileStopped,
            Some(_) => TagPlan::WhileWaiting,
            None => if inline_event {
                TagPlan::Inline
            } else {
                TagPlan::WithScript
            },
        }
    }
}

/// Decides what is done with queued tags.
pub fn plan_tags(
    dialog_open: bool,
    has_tags: bool,
    wait_reason: Option<&WaitReason>,
    inline_event: bool,
) -> (out: TagPlan)
    ensures
        out == tag_plan(dialog_open, has_tags, opt_wait_ref(wait_reason), inline_event),
{
    if dialog_open {
        return TagPlan::Frozen;
    }
    if !has_tags {
        return TagPlan::Nothing;
    }
    match wait_reason {
        Some(WaitReason::Stop { .. }) => TagPlan::WhileStopped,
        Some(_) => TagPlan::WhileWaiting,
        None => if inline_event {
            TagPlan::Inline
        } else {
            TagPlan::WithScript
        },
    }
}

/// What stopped queued tags.
pub enum DrainWait {
    /// A wait.
    Reason(WaitReason),
    /// Another event that the host answers.
    Other,
}

/// The wait that begins while another one stands, where there is one.
pub open spec fn replacing_wait(wait: Option<DrainWait>) -> Option<WaitRecord> {
    match wait {
        Some(DrainWait::Reason(reason)) => Some(reason@),
        _ => None,
    }
}

/// The wait that begins where none stood: what is no wait itself waits for a
/// click.
pub open spec fn beginning_wait(wait: Option<DrainWait>) -> Option<WaitRecord> {
    match wait {
        Some(DrainWait::Reason(reason)) => Some(reason@),
        Some(DrainWait::Other) => Some(WaitRecord::Generic),
        None => None,
    }
}

/// What running queued tags did.
pub struct DrainReport {
    pub saw_return: bool,
    pub changed_position: bool,
    /// The wait that a tag asked for.
    pub wait: Option<DrainWait>,
}

/// How many rounds of queued tags run in one frame of a stop.
pub const MAX_DRAIN_ROUNDS: u32 = 64;

/// Running queued tags while a stop stands.
#[derive(Clone, Copy, Debug, PartialEq, Eq, Structural)]
pub struct StopDrain {
    pub rounds: u32,
    pub should_resume: bool,
}

/// What follows a round of queued tags.
#[derive(Clone, Copy, Debug, PartialEq, Eq, Structural)]
pub struct DrainNext {
    /// The interpreter goes to the next line.
    pub next_line: bool,
    /// Another round runs.
    pub again: bool,
    /// The stop ends, once no more round runs.
    pub resume: bool,
}

impl StopDrain {
    pub fn new() -> (out: Self)
        ensures
            out == (StopDrain { rounds: 0, should_resume: false }),
    {
        StopDrain { rounds: 0, should_resume: false }
    }

    /// Takes up a round. A tag that waits is passed over, and another round
    /// follows, up to a limit. The stop ends where a tag moved the script.
    pub fn take_round(&mut self, report: &DrainReport) -> (next: DrainNext)
        requires
            old(self).rounds < MAX_DRAIN_ROUNDS,
        ensures
            final(self).rounds == old(self).rounds + 1,
            final(self).should_resume == (old(self).should_resume || report.saw_return
                || report.changed_position),
            next == (DrainNext {
                next_line: report.wait is Some,
                again: report.wait is Some && final(self).rounds < MAX_DRAIN_ROUNDS,
                resume: final(self).should_resume,
            }),
    {
        self.rounds = self.rounds + 1;
        self.should_resume = self.should_resume || report.saw_return || report.changed_position;
        let waits = report.wait.is_some();
        DrainNext {
            next_line: waits,
            again: waits && self.rounds < MAX_DRAIN_ROUNDS,
            resume: self.should_resume,
        }
    }
}

impl WaitState {
    /// Takes up queued tags that ran while a wait stood: a tag that moved the
    /// script ends the wait, and a wait of a tag replaces it.
    pub fn take_drain_while_waiting(&mut self, report: DrainReport)
        ensures
            final(self)@ == (Waiting {
                reason: if report.saw_return || report.changed_position {
                    None
                } else {
                    match replacing_wait(report.wait) {
                        Some(reason) => Some(reason),
                        None => old(self)@.reason,
                    }
                },
                ..old(self)@
            }),
    {
        if report.saw_return || report.changed_position {
            self.wait_reason = None;
        } else if let Some(DrainWait::Reason(reason)) = report.wait {
            self.wait_reason = Some(reason);
        }
    }

    /// Takes up queued tags of an event that ran without a wait.
    pub fn take_inline_drain(&mut self, report: DrainReport)
        ensures
            final(self)@ == (Waiting {
                reason: match beginning_wait(report.wait) {
                    Some(reason) => Some(reason),
                    None => old(self)@.reason,
                },
                ..old(self)@
            }),
    {
        match report.wait {
            Some(DrainWait::Reason(reason)) => {
                self.wait_reason = Some(reason);
            },
            Some(DrainWait::Other) => {
                self.wait_reason = Some(WaitReason::Generic);
            },
            None => {},
        }
    }
}

// ── What holds of every wait ───────────────────────────────────

/// A running script is left alone.
pub proof fn law_running_scripts_do_not_wait(w: Waiting, m: Modes, i: WaitInputs)
    requires
        w.reason is None,
    ensures
        wait_step(w, m, i).outcome == WaitOutcome::Waits,
        wait_step(w, m, i).waiting == w,
        wait_step(w, m, i).modes == m,
        wait_step(w, m, i).actions.len() == 0,
{
}

/// The waits that text stands behind: all but a timed one and a stop.
pub open spec fn behind_text(wait: Option<WaitRecord>) -> bool {
    wait is Some && !(wait matches Some(WaitRecord::Timed { .. })) && !(wait matches Some(
        WaitRecord::Stop { .. },
    ))
}

/// Auto mode ends a wait behind text in the frame in which the time that the text
/// and the voices were ready reaches the pause. Before that the wait stands, the
/// time is counted, and nothing else changes. Without auto mode the wait stands.
pub proof fn law_auto_mode_ends_waits(w: Waiting, m: Modes, i: WaitInputs)
    requires
        behind_text(w.reason),
        !i.clicked,
        !i.scripted_decide,
        !m.control_skip_active,
        !(m.skip_active && m.skip_allowed),
    ensures
        ({
            let step = wait_step(w, m, i);
            let on = m.automode_active && m.automode_allowed;
            let ready = i.text_complete && i.voice_ready;
            let counted = m.auto_wait_elapsed_ms + i.delta_ms;
            &&& step.actions.len() == 0
            &&& on && ready && counted >= i.auto_wait_ms ==> step.outcome == WaitOutcome::NextLine
                && step.waiting.reason is None
            &&& on && ready && counted < i.auto_wait_ms ==> step.outcome == WaitOutcome::Waits
                && step.waiting == w && step.modes == (Modes {
                auto_wait_elapsed_ms: counted as u64,
                ..m
            })
            &&& !on || !ready ==> step.outcome == WaitOutcome::Waits && step.waiting == w
                && step.modes == (Modes { auto_wait_elapsed_ms: 0, ..m })
        }),
{
}

/// The outcome of several frames of waiting, one after the other.
pub open spec fn frames_run(w: Waiting, m: Modes, frames: Seq<WaitInputs>) -> WaitStep
    decreases frames.len(),
{
    if frames.len() == 0 {
        WaitStep { waiting: w, modes: m, actions: Seq::empty(), outcome: WaitOutcome::Waits }
    } else {
        let before = frames_run(w, m, frames.drop_last());
        wait_step(before.waiting, before.modes, frames.last())
    }
}

/// The time that frames take together.
pub open spec fn frames_ms(frames: Seq<WaitInputs>) -> int
    decreases frames.len(),
{
    if frames.len() == 0 {
        0
    } else {
        frames_ms(frames.drop_last()) + frames.last().delta_ms
    }
}

/// Auto mode goes on in exactly the frame in which the sum of the frames reaches
/// the pause.
pub proof fn law_auto_frames_add_up(w: Waiting, m: Modes, frames: Seq<WaitInputs>, pause: u64)
    requires
        behind_text(w.reason),
        m.automode_active,
        m.automode_allowed,
        m.auto_wait_elapsed_ms == 0,
        !m.control_skip_active,
        !(m.skip_active && m.skip_allowed),
        frames.len() > 0,
        forall|k: int|
            0 <= k < frames.len() ==> {
                let i = #[trigger] frames[k];
                &&& !i.clicked
                &&& !i.scripted_decide
                &&& i.text_complete
                &&& i.voice_ready
                &&& i.auto_wait_ms == pause
            },
        frames_ms(frames.drop_last()) < pause,
    ensures
        ({
            let end = frames_run(w, m, frames);
            &&& end.outcome == WaitOutcome::NextLine <==> frames_ms(frames) >= pause
            &&& end.outcome == WaitOutcome::Waits <==> frames_ms(frames) < pause
            &&& frames_ms(frames) < pause ==> end.waiting == w && end.modes == (Modes {
                auto_wait_elapsed_ms: frames_ms(frames) as u64,
                ..m
            })
        }),
    decreases frames.len(),
{
    let rest = frames.drop_last();
    assert(frames_ms(rest) >= 0) by {
        lemma_frames_take_time(rest);
    }
    if rest.len() > 0 {
        lemma_frames_take_time(rest.drop_last());
        assert(frames_ms(rest.drop_last()) <= frames_ms(rest));
        assert forall|k: int| 0 <= k < rest.len() implies {
            let i = #[trigger] rest[k];
            &&& !i.clicked
            &&& !i.scripted_decide
            &&& i.text_complete
            &&& i.voice_ready
            &&& i.auto_wait_ms == pause
        } by {
            assert(rest[k] == frames[k]);
        }
        law_auto_frames_add_up(w, m, rest, pause);
    } else {
        assert(frames_run(w, m, rest).modes == m);
    }
    let before = frames_run(w, m, rest);
    let last = frames[frames.len() - 1];
    assert(frames.last() == last);
    law_auto_mode_ends_waits(before.waiting, before.modes, last);
}

proof fn lemma_frames_take_time(frames: Seq<WaitInputs>)
    ensures
        frames_ms(frames) >= 0,
    decreases frames.len(),
{
    if frames.len() > 0 {
        lemma_frames_take_time(frames.drop_last());
    }
}

/// A click, and a key that a script pressed, end a wait behind text once the text
/// is there; before, they make it appear and the wait stands.
pub proof fn law_clicks_end_waits_behind_text(w: Waiting, m: Modes, i: WaitInputs)
    requires
        behind_text(w.reason),
        i.clicked || i.scripted_decide,
    ensures
        i.text_complete ==> wait_step(w, m, i).outcome == WaitOutcome::NextLine && wait_step(
            w,
            m,
            i,
        ).waiting.reason is None && wait_step(w, m, i).actions.len() == 0,
        !i.text_complete ==> wait_step(w, m, i).outcome == WaitOutcome::Waits && wait_step(
            w,
            m,
            i,
        ).waiting == w && wait_step(w, m, i).modes == m && wait_step(w, m, i).actions == seq![
            ActionRecord::RevealText,
        ],
{
}

/// While scripts are skipped, a wait that a click does not end stands for three
/// frames, of which the first makes the text appear, and ends in the fourth. A
/// stop is not skipped.
pub proof fn law_skipped_waits_stand_three_frames(
    w: Waiting,
    m: Modes,
    frames: Seq<WaitInputs>,
    n: int,
)
    requires
        behind_text(w.reason) || (w.reason matches Some(WaitRecord::Timed { .. })),
        m.control_skip_active || (m.skip_active && m.skip_allowed),
        !m.skip_wait_revealed,
        1 <= n <= 4,
        frames.len() == n,
        forall|k: int|
            0 <= k < n ==> !(#[trigger] frames[k]).clicked && !frames[k].scripted_decide,
    ensures
        ({
            let end = frames_run(w, m, frames);
            &&& end.outcome == (if n < 4 {
                WaitOutcome::Waits
            } else {
                WaitOutcome::NextLine
            })
            &&& n < 4 ==> end.waiting == w && end.modes == (Modes {
                skip_wait_revealed: true,
                skip_hold_frames: n as u8,
                ..m
            })
            &&& n == 4 ==> end.waiting.reason is None
            &&& end.actions == (if n == 1 {
                seq![ActionRecord::RevealText]
            } else {
                Seq::empty()
            })
        }),
    decreases n,
{
    let rest = frames.drop_last();
    assert(frames.last() == frames[n - 1]);
    if n > 1 {
        assert forall|k: int| 0 <= k < n - 1 implies !(#[trigger] rest[k]).clicked
            && !rest[k].scripted_decide by {
            assert(rest[k] == frames[k]);
        }
        law_skipped_waits_stand_three_frames(w, m, rest, n - 1);
    } else {
        assert(frames_run(w, m, rest).modes == m);
        assert(frames_run(w, m, rest).waiting == w);
    }
}

/// A timed wait ends by a click, or by a key that a script pressed, exactly where
/// it takes input, and else when its time is over; until then the time of the
/// frame goes off it. Auto mode and the text do not matter.
pub proof fn law_timed_waits_end_by_time(w: Waiting, m: Modes, i: WaitInputs)
    requires
        w.reason matches Some(WaitRecord::Timed { .. }),
        !m.control_skip_active,
        !(m.skip_active && m.skip_allowed),
    ensures
        ({
            let step = wait_step(w, m, i);
            let takes = w.reason->0->Timed_input == 1 && (i.clicked || i.scripted_decide);
            let over = takes || i.delta_ms >= w.remaining_ms;
            &&& step.actions.len() == 0
            &&& step.outcome == (if over {
                WaitOutcome::NextLine
            } else {
                WaitOutcome::Waits
            })
            &&& over ==> step.waiting == (Waiting { reason: None, remaining_ms: 0 })
            &&& !over ==> step.modes == m && step.waiting.reason == w.reason
                && step.waiting.remaining_ms + i.delta_ms == w.remaining_ms
        }),
{
}

/// A timed wait that takes input ends by a click even while scripts are skipped.
pub proof fn law_timed_waits_take_clicks(w: Waiting, m: Modes, i: WaitInputs)
    requires
        w.reason matches Some(WaitRecord::Timed { input, .. }) && input == 1,
        i.clicked || i.scripted_decide,
    ensures
        wait_step(w, m, i).outcome == WaitOutcome::NextLine,
        wait_step(w, m, i).waiting == (Waiting { reason: None, remaining_ms: 0 }),
        wait_step(w, m, i).actions.len() == 0,
{
}

/// A stop ends by the end of a video, that of a transition by the end of the
/// transition, and else by a key that a script pressed. Clicks, skipping, auto
/// mode and time do not end it. The stop that ends skipping for debugging is left
/// as it is.
pub proof fn law_stops_end_by_what_they_wait_for(w: Waiting, m: Modes, i: WaitInputs)
    requires
        w.reason matches Some(WaitRecord::Stop { .. }),
    ensures
        ({
            let step = wait_step(w, m, i);
            let name = w.reason->0->Stop_reason;
            let resumed = i.video_finished || (name == Some("trans"@)
                && !i.transition_in_progress);
            &&& step.actions.len() == 0
            &&& name == Some("exskip"@) ==> step.outcome == WaitOutcome::EndDebugSkip
                && step.waiting == w && step.modes == m
            &&& name != Some("exskip"@) && resumed ==> step.outcome == WaitOutcome::Resumes
                && step.waiting == (Waiting { reason: None, ..w }) && step.modes == m
            &&& name != Some("exskip"@) && !resumed && i.scripted_decide ==> step.outcome
                == WaitOutcome::NextLine && step.waiting == (Waiting { reason: None, ..w })
            &&& name != Some("exskip"@) && !resumed && !i.scripted_decide ==> step.outcome
                == WaitOutcome::Waits && step.waiting == w && step.modes == m
        }),
{
}

/// Whatever a frame of waiting does, it changes no setting and no mode but the
/// flags of the wait, and going on clears exactly these.
#[verifier::rlimit(50)]
pub proof fn law_waiting_keeps_the_modes(w: Waiting, m: Modes, i: WaitInputs)
    ensures
        ({
            let next = wait_step(w, m, i).modes;
            &&& next == (Modes {
                auto_wait_elapsed_ms: next.auto_wait_elapsed_ms,
                skip_wait_revealed: next.skip_wait_revealed,
                skip_hold_frames: next.skip_hold_frames,
                ..m
            })
            &&& wait_step(w, m, i).outcome == WaitOutcome::NextLine ==> next == (Modes {
                auto_wait_elapsed_ms: 0,
                skip_wait_revealed: false,
                skip_hold_frames: 0,
                ..m
            })
        }),
{
}

/// The end of a video is used up by a stop, other than the one that ends skipping
/// for debugging, and by nothing else.
pub proof fn law_only_stops_use_up_videos(reason: Option<WaitRecord>, video_finished: bool)
    ensures
        video_left(reason, video_finished) ==> video_finished,
        video_finished ==> (!video_left(reason, video_finished) <==> (reason matches Some(
            WaitRecord::Stop { reason },
        ) && reason != Some("exskip"@))),
{
}

/// Each state of the engine has its own status: leaving goes before skipping for
/// debugging, this before a dialog, and this before what the script waits for.
pub proof fn law_statuses_tell_states_apart(
    wait: Option<WaitRecord>,
    dialog_open: bool,
    debug_skip: bool,
    exit_requested: bool,
)
    ensures
        ({
            let status = engine_status(wait, dialog_open, debug_skip, exit_requested);
            let plain = !exit_requested && !debug_skip && !dialog_open;
            let stop = wait matches Some(WaitRecord::Stop { .. });
            let name = wait->0->Stop_reason;
            let moving = name matches Some(r) && (r == "trans"@ || (r.len() >= 6 && r.take(6)
                == "tween:"@));
            let timed = wait matches Some(WaitRecord::Timed { .. });
            let clicks = wait == Some(WaitRecord::Generic) || wait == Some(WaitRecord::Generic0)
                || (wait matches Some(WaitRecord::Timed { input, .. }) && input == 1);
            &&& status == 14 <==> exit_requested
            &&& status == 9 <==> dialog_open && !exit_requested && !debug_skip
            &&& status == 4 <==> !exit_requested && (debug_skip || (!dialog_open && timed
                && !clicks))
            &&& status == 0 <==> plain && wait is None
            &&& status == 1 <==> plain && clicks
            &&& status == 7 <==> plain && stop && name == Some("video"@)
            &&& status == 2 <==> plain && stop && moving
            &&& status == 3 <==> plain && wait is Some && !clicks && !timed && !(stop && (name
                == Some("video"@) || moving))
        }),
{
    reveal_strlit("trans");
    reveal_strlit("tween:");
    reveal_strlit("video");
    assert("trans"@[0] != "video"@[0]);
    assert("tween:"@[0] != "video"@[0]);
    if let Some(WaitRecord::Stop { reason: Some(r) }) = wait {
        if r.len() >= 6 && r.take(6) == "tween:"@ {
            assert(r.take(6)[0] == r[0]);
            assert(has_prefix(r, "tween:"@));
        }
        if has_prefix(r, "tween:"@) {
            assert(r.take(6) =~= "tween:"@);
        }
    }
}

/// A script sees a status that it set itself until the engine's own status is
/// another one, and is woken exactly where it set the status to running.
pub proof fn law_only_running_wakes(s: ScriptStatus, computed: u8)
    ensures
        woken(s) <==> s.visible == 0 && s.last_engine != 0,
        synced(s, computed).visible == synced(s, computed).last_engine,
        synced(s, computed).forced_stop <==> (if s.visible != s.last_engine {
            s.visible != 0
        } else {
            s.forced_stop
        }),
        synced(s, computed).forced_stop ==> synced(s, computed).visible == s.visible,
        !synced(s, computed).forced_stop ==> synced(s, computed).visible == computed,
{
}

/// Only the two plain waits wait for a click alone.
pub proof fn law_click_waits(wait: Option<WaitRecord>)
    ensures
        click_wait(wait) <==> (wait matches Some(r) && (r is Generic || r is Generic0)),
{
}

/// A handled push of the left button keeps the click from every wait but a timed
/// one that takes input; a push that nobody handled keeps it from none.
pub proof fn law_pushes_keep_clicks_away(wait: Option<WaitRecord>, handled: bool)
    ensures
        push_absorbs(wait, handled) ==> handled,
        handled ==> (!push_absorbs(wait, handled) <==> (wait matches Some(
            WaitRecord::Timed { input, .. },
        ) && input == 1)),
{
}

/// What the interpreter comes back with decides what is waited for: its own wait,
/// the end of a video over the whole screen, the end of a transition, or a click.
/// A video on a layer and the end of the script are not waited for.
pub proof fn law_results_decide_waits(result: RunResult)
    ensures
        wait_of(result) is None <==> (result is Ended || (result matches RunResult::Video {
            on_layer,
        } && on_layer)),
        result matches RunResult::Wait(reason) ==> wait_of(result) == Some(reason@),
        result matches RunResult::Video { on_layer } ==> !on_layer ==> wait_of(result) == Some(
            WaitRecord::Stop { reason: Some("video"@) },
        ),
        result is Transition ==> wait_of(result) == Some(
            WaitRecord::Stop { reason: Some("trans"@) },
        ),
        result is OtherWait ==> wait_of(result) == Some(WaitRecord::Generic),
{
}

/// Queued tags run unless a dialog is open: beside a wait where there is one, at
/// once where an event broke in, and with the script else.
pub proof fn law_tags_run_beside_waits(
    dialog_open: bool,
    has_tags: bool,
    wait: Option<WaitRecord>,
    inline_event: bool,
)
    ensures
        ({
            let plan = tag_plan(dialog_open, has_tags, wait, inline_event);
            let stop = wait matches Some(WaitRecord::Stop { .. });
            let run = !dialog_open && has_tags;
            &&& plan is Frozen <==> dialog_open
            &&& plan is Nothing <==> !dialog_open && !has_tags
            &&& plan is WhileStopped <==> run && stop
            &&& plan is WhileWaiting <==> run && wait is Some && !stop
            &&& plan is Inline <==> run && wait is None && inline_event
            &&& plan is WithScript <==> run && wait is None && !inline_event
        }),
{
}

/// A wait that a queued tag asks for takes the place of the one that stands, and
/// begins where none stood; another event that is waited for begins one for a
/// click only where none stood.
pub proof fn law_tags_ask_for_waits(wait: Option<DrainWait>)
    ensures
        wait matches Some(DrainWait::Reason(reason)) ==> replacing_wait(wait) == Some(reason@)
            && beginning_wait(wait) == Some(reason@),
        wait matches Some(DrainWait::Other) ==> replacing_wait(wait) is None && beginning_wait(wait)
            == Some(WaitRecord::Generic),
        wait is None ==> replacing_wait(wait) is None && beginning_wait(wait) is None,
{
}

/// A stop lets 64 rounds of queued tags run in one frame.
pub proof fn law_drains_are_limited(rounds: u32)
    ensures
        rounds < MAX_DRAIN_ROUNDS <==> rounds < 64,
{
}

} // verus!
