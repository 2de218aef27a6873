//! From one picture to the next.
use crate::render_pipeline::draw::{pixels_handed, TextureId, TextureInfo, TextureProvider};
use crate::strs::{copy_opt, copy_text, opt_text, texts};
use vstd::prelude::*;

verus! {

/// The name of the picture that is left.
pub open spec fn capture_name() -> Seq<char> {
    "__trans_capture__"@
}

/// What a script asks of a transition.
pub struct TransitionRequest {
    /// 0 is none at all.
    pub trans_type: i32,
    pub time: Option<u64>,
    pub rule: Option<String>,
    pub vague: Option<i32>,
    pub input: i32,
}

/// A transition on its way.
pub struct TransitionState {
    pub trans_type: i32,
    pub start_ms: u64,
    pub duration_ms: u64,
    /// The picture that is left, with its size.
    pub captured: Option<(TextureId, TextureInfo)>,
    /// Whether the picture that is left is still to be taken.
    pub needs_capture: bool,
    pub rule: Option<String>,
    pub vague: Option<i32>,
    pub input: i32,
}

/// What a transition holds.
pub struct TransitionRecord {
    pub trans_type: i32,
    pub start_ms: u64,
    pub duration_ms: u64,
    pub captured: Option<(TextureId, TextureInfo)>,
    pub needs_capture: bool,
    pub rule: Option<Seq<char>>,
    pub vague: Option<i32>,
    pub input: i32,
}

impl View for TransitionState {
    type V = TransitionRecord;

    open spec fn view(&self) -> TransitionRecord {
        TransitionRecord {
            trans_type: self.trans_type,
            start_ms: self.start_ms,
            duration_ms: self.duration_ms,
            captured: self.captured,
            needs_capture: self.needs_capture,
            rule: opt_text(self.rule),
            vague: self.vague,
            input: self.input,
        }
    }
}

/// The transition in a slot.
pub open spec fn slot_view(slot: Option<TransitionState>) -> Option<TransitionRecord> {
    match slot {
        Some(t) => Some(t@),
        None => None,
    }
}

/// The time since a moment; none before it.
pub open spec fn since(clock_ms: u64, start_ms: u64) -> int {
    if clock_ms < start_ms {
        0
    } else {
        clock_ms - start_ms
    }
}

/// The transition that a request begins. Without a time it takes a second.
pub open spec fn started(request: TransitionRequest, clock_ms: u64) -> Option<TransitionRecord> {
    if request.trans_type == 0 {
        None
    } else {
        Some(
            TransitionRecord {
                trans_type: request.trans_type,
                start_ms: clock_ms,
                duration_ms: match request.time {
                    Some(t) => t,
                    None => 1000,
                },
                captured: None,
                needs_capture: true,
                rule: opt_text(request.rule),
                vague: request.vague,
                input: request.input,
            },
        )
    }
}

/// Begins a transition in place of any other.
pub fn start(slot: &mut Option<TransitionState>, clock_ms: u64, request: &TransitionRequest)
    ensures
        slot_view(*final(slot)) == started(*request, clock_ms),
{
    if request.trans_type == 0 {
        clear(slot);
        return;
    }
    let duration_ms: u64 = match request.time {
        Some(t) => t,
        None => 1000,
    };
    *slot = Some(
        TransitionState {
            trans_type: request.trans_type,
            start_ms: clock_ms,
            duration_ms,
            captured: None,
            needs_capture: true,
            rule: copy_opt(&request.rule),
            vague: request.vague,
            input: request.input,
        },
    );
}

/// Ends a transition.
pub fn clear(slot: &mut Option<TransitionState>)
    ensures
        *final(slot) is None,
{
    *slot = None;
}

/// Whether a transition is on its way: its picture is still to be taken, or its
/// time is not over.
pub open spec fn in_progress(slot: Option<TransitionRecord>, clock_ms: u64) -> bool {
    slot matches Some(t) && (t.needs_capture || since(clock_ms, t.start_ms) < t.duration_ms)
}

/// Ends a transition whose time is over.
pub fn clear_finished(slot: &mut Option<TransitionState>, clock_ms: u64)
    ensures
        *final(slot) == (if in_progress(slot_view(*old(slot)), clock_ms) {
            *old(slot)
        } else {
            None
        }),
{
    let over = match &*slot {
        Some(t) => !t.needs_capture && clock_ms.saturating_sub(t.start_ms) >= t.duration_ms,
        None => true,
    };
    if over {
        *slot = None;
    }
}

/// Whether the picture that is left is still to be taken.
pub open spec fn wants_picture(slot: Option<TransitionRecord>) -> bool {
    slot matches Some(t) && t.needs_capture
}

/// Whether the picture that is left is still to be taken.
pub fn needs_capture(slot: &Option<TransitionState>) -> (out: bool)
    ensures
        out == wants_picture(slot_view(*slot)),
{
    match slot {
        Some(t) => t.needs_capture,
        None => false,
    }
}

/// Whether a transition is on its way.
pub fn is_in_progress(slot: &Option<TransitionState>, clock_ms: u64) -> (out: bool)
    ensures
        out == in_progress(slot_view(*slot), clock_ms),
{
    match slot {
        Some(t) => t.needs_capture || clock_ms.saturating_sub(t.start_ms) < t.duration_ms,
        None => false,
    }
}

/// A transition after an attempt to take the picture that is left. Its time
/// begins with the picture.
pub open spec fn after_capture(
    slot: Option<TransitionRecord>,
    clock_ms: u64,
    uploaded: Option<(TextureId, TextureInfo)>,
) -> Option<TransitionRecord> {
    match (slot, uploaded) {
        (Some(t), Some(texture)) => if t.needs_capture {
            Some(
                TransitionRecord {
                    captured: Some(texture),
                    needs_capture: false,
                    start_ms: clock_ms,
                    ..t
                },
            )
        } else {
            slot
        },
        _ => slot,
    }
}

/// Takes what an attempt to keep the picture gave.
pub fn take_capture(
    slot: &mut Option<TransitionState>,
    clock_ms: u64,
    uploaded: Option<(TextureId, TextureInfo)>,
)
    ensures
        slot_view(*final(slot)) == after_capture(slot_view(*old(slot)), clock_ms, uploaded),
{
    if let Some(t) = slot {
        if t.needs_capture {
            if let Some(texture) = uploaded {
                t.captured = Some(texture);
                t.needs_capture = false;
                t.start_ms = clock_ms;
            }
        }
    }
}

/// Keeps the picture that is left, where one is wanted: the provider is handed
/// its pixels under the name of such pictures, once. What it makes of them
/// decides whether the transition goes on; where no picture is wanted, it is
/// left alone.
pub fn capture_texture<P: TextureProvider>(
    slot: &mut Option<TransitionState>,
    clock_ms: u64,
    pixels: &[u8],
    width: u32,
    height: u32,
    provider: &mut P,
)
    ensures
        wants_picture(slot_view(*old(slot))) ==> exists|made: Option<(TextureId, TextureInfo)>|
            final(provider).account() == #[trigger] pixels_handed(
                old(provider).account(),
                capture_name(),
                width,
                height,
                pixels@,
                made,
            ) && slot_view(*final(slot)) == after_capture(slot_view(*old(slot)), clock_ms, made),
        !wants_picture(slot_view(*old(slot))) ==> *final(provider) == *old(provider)
            && *final(slot) == *old(slot),
{
    if needs_capture(slot) {
        let made = provider.upload_rgba("__trans_capture__", width, height, pixels);
        take_capture(slot, clock_ms, made);
        assert(provider.account() == pixels_handed(
            old(provider).account(),
            capture_name(),
            width,
            height,
            pixels@,
            made,
        ));
    }
}

/// The textures that a transition keeps.
pub fn retained_files(slot: &Option<TransitionState>) -> (out: Vec<String>)
    ensures
        texts(out@) == (match slot_view(*slot) {
            Some(t) => if !t.needs_capture && t.captured is Some {
                seq![capture_name()]
            } else {
                Seq::empty()
            },
            None => Seq::empty(),
        }),
{
    let mut out: Vec<String> = Vec::new();
    let kept = match slot {
        Some(t) => !t.needs_capture && t.captured.is_some(),
        None => false,
    };
    if kept {
        out.push(copy_text("__trans_capture__"));
        assert(texts(out@) =~= seq![capture_name()]);
    } else {
        assert(texts(out@) =~= Seq::empty());
    }
    out
}

/// The picture that is laid over the frame: what it is, and how much of the
/// time of its fading has gone.
#[derive(Clone, Copy, Debug, PartialEq, Eq, Structural)]
pub struct Overlay {
    pub texture: TextureId,
    pub size: TextureInfo,
    pub elapsed_ms: u64,
    pub duration_ms: u64,
}

/// The picture that is laid over the frame. Only a cross fade has one.
pub fn overlay_old_frame(slot: &Option<TransitionState>, clock_ms: u64) -> (out: Option<Overlay>)
    ensures
        out == (match slot_view(*slot) {
            Some(t) => match t.captured {
                Some((texture, size)) => if !t.needs_capture && t.trans_type == 1 {
                    Some(
                        Overlay {
                            texture,
                            size,
                            elapsed_ms: since(clock_ms, t.start_ms) as u64,
                            duration_ms: t.duration_ms,
                        },
                    )
                } else {
                    None
                },
                None => None,
            },
            None => None,
        }),
{
    match slot {
        Some(t) => match t.captured {
            Some((texture, size)) => if !t.needs_capture && t.trans_type == 1 {
                Some(
                    Overlay {
                        texture,
                        size,
                        elapsed_ms: clock_ms.saturating_sub(t.start_ms),
                        duration_ms: t.duration_ms,
                    },
                )
            } else {
                None
            },
            None => None,
        },
        None => None,
    }
}

/// A transition waits for its picture however long that takes, and then lasts
/// as long as was asked.
pub proof fn law_transition_lasts(
    request: TransitionRequest,
    asked_ms: u64,
    captured_ms: u64,
    clock_ms: u64,
    texture: TextureId,
    info: TextureInfo,
)
    requires
        request.trans_type != 0,
        captured_ms <= clock_ms,
    ensures
        in_progress(started(request, asked_ms), clock_ms),
        ({
            let slot = after_capture(
                started(request, asked_ms),
                captured_ms,
                Some((texture, info)),
            );
            let duration = match request.time {
                Some(t) => t,
                None => 1000,
            };
            in_progress(slot, clock_ms) <==> clock_ms < captured_ms + duration
        }),
{
}

/// A transition of type 0 is none. Any other begins at once with the picture still
/// to be taken, and lasts a second where no time is said.
pub proof fn law_transitions_begin_as_asked(request: TransitionRequest, clock_ms: u64)
    ensures
        started(request, clock_ms) is Some <==> request.trans_type != 0,
        started(request, clock_ms) matches Some(t) ==> {
            &&& t.trans_type == request.trans_type
            &&& t.start_ms == clock_ms
            &&& request.time matches Some(time) ==> t.duration_ms == time
            &&& request.time is None ==> t.duration_ms == 1000
            &&& t.captured is None && t.needs_capture
            &&& t.rule == opt_text(request.rule) && t.vague == request.vague && t.input
                == request.input
        },
{
}

/// The picture is taken once, and the transition begins with it; until then, and
/// without a picture, it stays as it is.
pub proof fn law_pictures_are_taken_once(
    t: TransitionRecord,
    clock_ms: u64,
    texture: TextureId,
    info: TextureInfo,
)
    ensures
        wants_picture(Some(t)) <==> t.needs_capture,
        !wants_picture(None),
        after_capture(Some(t), clock_ms, None) == Some(t),
        after_capture(None, clock_ms, Some((texture, info))) is None,
        !t.needs_capture ==> after_capture(Some(t), clock_ms, Some((texture, info))) == Some(t),
        t.needs_capture ==> after_capture(Some(t), clock_ms, Some((texture, info))) == Some(
            TransitionRecord {
                captured: Some((texture, info)),
                needs_capture: false,
                start_ms: clock_ms,
                ..t
            },
        ),
        !wants_picture(after_capture(Some(t), clock_ms, Some((texture, info)))),
        capture_name() == "__trans_capture__"@,
{
}

/// A transition whose picture is taken goes on for as long as it lasts, counted from
/// when it began; a clock that is behind that has not moved.
pub proof fn law_transitions_go_on_for_their_time(t: TransitionRecord, clock_ms: u64)
    ensures
        !in_progress(None, clock_ms),
        t.needs_capture ==> in_progress(Some(t), clock_ms),
        !t.needs_capture && t.start_ms <= clock_ms ==> (in_progress(Some(t), clock_ms)
            <==> clock_ms < t.start_ms + t.duration_ms),
        !t.needs_capture && clock_ms < t.start_ms ==> (in_progress(Some(t), clock_ms)
            <==> t.duration_ms > 0),
        since(clock_ms, t.start_ms) >= 0,
        t.start_ms <= clock_ms ==> t.start_ms + since(clock_ms, t.start_ms) == clock_ms,
{
}

} // verus!
