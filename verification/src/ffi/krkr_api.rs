//! Frames and audio of the KRKR engine on their way to the host.
use crate::strs::copy_bytes;
use vstd::prelude::*;

verus! {

/// How a call ended. The numbers that stand for this are the engine's own.
#[derive(Clone, Copy, Debug, PartialEq, Eq, Structural)]
pub enum KrkrStatus {
    Done,
    InvalidArgument,
    InvalidHandle,
    Engine,
    /// Another end that the engine reports by its number.
    Other(i32),
}

/// The most input events of one call.
pub const MAX_INPUT_EVENTS: usize = 4096;

/// A frame of the engine.
#[derive(Clone, Copy, Debug, PartialEq, Eq, Structural)]
pub struct NativeFrame {
    pub frame_id: u64,
    pub width: u32,
    pub height: u32,
    pub stride: u32,
}

/// How many bytes a frame holds, where its rows are long enough for the picture
/// and can be counted; an empty frame holds none.
pub open spec fn frame_bytes(frame: NativeFrame) -> Option<usize> {
    if frame.width == 0 || frame.height == 0 || frame.width * 4 > usize::MAX || frame.stride
        * frame.height > usize::MAX || frame.stride < frame.width * 4 {
        None
    } else {
        Some((frame.stride * frame.height) as usize)
    }
}

/// The bytes that are kept of a frame.
pub open spec fn kept_pixels(frame: NativeFrame, pixels: Option<Seq<u8>>) -> Option<Seq<u8>> {
    match (pixels, frame_bytes(frame)) {
        (Some(bytes), Some(required)) => if bytes.len() < required {
            None
        } else {
            Some(bytes.take(required as int))
        },
        _ => None,
    }
}

fn required_bytes(frame: &NativeFrame) -> (out: Option<usize>)
    ensures
        out == frame_bytes(*frame),
        out matches Some(n) ==> n > 0,
{
    if frame.width == 0 || frame.height == 0 {
        return None;
    }
    let row: usize = match (frame.width as usize).checked_mul(4) {
        Some(row) => row,
        None => return None,
    };
    assert(frame.stride * frame.height >= 0) by (nonlinear_arith)
        requires
            frame.stride >= 0,
            frame.height >= 0,
    ;
    let required: usize = match (frame.stride as usize).checked_mul(frame.height as usize) {
        Some(required) => required,
        None => return None,
    };
    if (frame.stride as usize) < row {
        return None;
    }
    assert(required > 0) by (nonlinear_arith)
        requires
            required == frame.stride * frame.height,
            frame.stride > 0,
            frame.height > 0,
    ;
    Some(required)
}

/// Copies a frame out of the engine's memory. A frame that makes no sense, or
/// whose bytes are too few, leaves the copy as it was.
pub fn copy_native_frame(
    frame: &NativeFrame,
    pixels: Option<&[u8]>,
    destination: &mut Vec<u8>,
) -> (out: bool)
    ensures
        match kept_pixels(
            *frame,
            match pixels {
                Some(bytes) => Some(bytes@),
                None => None,
            },
        ) {
            Some(kept) => out && final(destination)@ == kept,
            None => !out && final(destination)@ == old(destination)@,
        },
{
    let bytes = match pixels {
        Some(bytes) => bytes,
        None => return false,
    };
    let required: usize = match required_bytes(frame) {
        Some(required) => required,
        None => return false,
    };
    if bytes.len() < required {
        return false;
    }
    let mut copy = copy_bytes(bytes);
    copy.truncate(required);
    *destination = copy;
    true
}

/// The frame that the host holds.
pub struct FrameSlot {
    pub pixels: Vec<u8>,
    pub frame_id: Option<u64>,
}

impl FrameSlot {
    /// The host holds none.
    pub fn new() -> (out: Self)
        ensures
            out.pixels@.len() == 0,
            out.frame_id is None,
    {
        FrameSlot { pixels: Vec::new(), frame_id: None }
    }

    /// Hands a frame to the host. The engine's own frame is released by the
    /// caller, whatever comes of it.
    pub fn acquire(&mut self, status: KrkrStatus, frame: &NativeFrame, pixels: Option<&[u8]>) -> (out: KrkrStatus)
        ensures
            ({
                let kept = kept_pixels(
                    *frame,
                    match pixels {
                        Some(bytes) => Some(bytes@),
                        None => None,
                    },
                );
                if status != KrkrStatus::Done {
                    out == status && *final(self) == *old(self)
                } else {
                    match kept {
                        Some(bytes) => out == KrkrStatus::Done && final(self).pixels@ == bytes
                            && final(self).frame_id == Some(frame.frame_id),
                        None => out == KrkrStatus::Engine && final(self).pixels@ == old(self).pixels@
                            && final(self).frame_id == old(self).frame_id,
                    }
                }
            }),
    {
        if status != KrkrStatus::Done {
            return status;
        }
        if !copy_native_frame(frame, pixels, &mut self.pixels) {
            return KrkrStatus::Engine;
        }
        self.frame_id = Some(frame.frame_id);
        KrkrStatus::Done
    }

    /// Takes a frame back from the host. Only the one that it holds is taken.
    pub fn release(&mut self, frame_id: u64) -> (out: KrkrStatus)
        ensures
            old(self).frame_id == Some(frame_id) ==> out == KrkrStatus::Done
                && final(self).frame_id is None && final(self).pixels@.len() == 0,
            old(self).frame_id != Some(frame_id) ==> out == KrkrStatus::InvalidArgument
                && *final(self) == *old(self),
    {
        match self.frame_id {
            Some(held) => {
                if held != frame_id {
                    return KrkrStatus::InvalidArgument;
                }
            },
            None => return KrkrStatus::InvalidArgument,
        }
        self.frame_id = None;
        self.pixels.clear();
        KrkrStatus::Done
    }
}

/// Takes the payload of an audio command. A command that says it has one and
/// has none is the engine's fault.
pub fn take_audio_payload(
    status: KrkrStatus,
    payload_size: usize,
    payload: Option<&[u8]>,
    held: &mut Vec<u8>,
) -> (out: KrkrStatus)
    requires
        payload matches Some(bytes) ==> bytes@.len() == payload_size,
    ensures
        if status != KrkrStatus::Done {
            out == status && final(held)@ == old(held)@
        } else if payload_size == 0 {
            out == KrkrStatus::Done && final(held)@.len() == 0
        } else {
            match payload {
                Some(bytes) => out == KrkrStatus::Done && final(held)@ == bytes@,
                None => out == KrkrStatus::Engine && final(held)@ == old(held)@,
            }
        },
{
    if status != KrkrStatus::Done {
        return status;
    }
    if payload_size == 0 {
        held.clear();
        return KrkrStatus::Done;
    }
    match payload {
        Some(bytes) => {
            *held = copy_bytes(bytes);
            KrkrStatus::Done
        },
        None => KrkrStatus::Engine,
    }
}

/// Whether the events of a call are taken: there must be a list of them unless
/// there are none, not too many, and a runtime.
pub fn check_input(has_events: bool, count: usize, runtime: u64) -> (out: KrkrStatus)
    ensures
        out == (if (!has_events && count != 0) || count > MAX_INPUT_EVENTS {
            KrkrStatus::InvalidArgument
        } else if runtime == 0 {
            KrkrStatus::InvalidHandle
        } else {
            KrkrStatus::Done
        }),
{
    if (!has_events && count != 0) || count > MAX_INPUT_EVENTS {
        KrkrStatus::InvalidArgument
    } else if runtime == 0 {
        KrkrStatus::InvalidHandle
    } else {
        KrkrStatus::Done
    }
}

/// What making a runtime came to: the engine's status, and a fault where it
/// succeeded without a runtime.
pub fn create_status(status: KrkrStatus, native_runtime: u64) -> (out: KrkrStatus)
    ensures
        out == (if status == KrkrStatus::Done && native_runtime == 0 {
            KrkrStatus::Engine
        } else {
            status
        }),
{
    if status == KrkrStatus::Done && native_runtime == 0 {
        KrkrStatus::Engine
    } else {
        status
    }
}

/// A frame has the bytes of its rows, one stride each; it has none where a side is 0
/// or where a row does not hold its pixels.
pub proof fn law_frames_have_whole_rows(frame: NativeFrame)
    ensures
        frame_bytes(frame) is Some <==> frame.width > 0 && frame.height > 0 && 4 * frame.width
            <= frame.stride && frame.stride * frame.height <= usize::MAX && 4 * frame.width
            <= usize::MAX,
        frame_bytes(frame) matches Some(len) ==> len == frame.stride * frame.height && len >= 4
            * frame.width * frame.height,
{
    if frame_bytes(frame) is Some {
        assert(frame.stride * frame.height >= 4 * frame.width * frame.height) by (nonlinear_arith)
            requires
                frame.stride >= frame.width * 4,
        ;
    }
}

/// Of the pixels that came, those of the frame are kept, where there are as many.
pub proof fn law_frames_keep_their_pixels(frame: NativeFrame, bytes: Seq<u8>, i: int)
    ensures
        kept_pixels(frame, None) is None,
        frame_bytes(frame) is None ==> kept_pixels(frame, Some(bytes)) is None,
        frame_bytes(frame) matches Some(len) ==> {
            &&& kept_pixels(frame, Some(bytes)) is Some <==> len <= bytes.len()
            &&& kept_pixels(frame, Some(bytes)) matches Some(kept) ==> kept.len() == len && (0 <= i
                < len ==> kept[i] == bytes[i])
        },
{
}

} // verus!
