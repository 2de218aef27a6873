//! Arguments and results of the host interface, as plain values.
use crate::render_pipeline::post_process::UpscaleMode;
use crate::strs::{trim, trimmed};
use vstd::prelude::*;

verus! {

/// The bytes of an RGBA picture, where they can be counted.
pub open spec fn rgba_len(width: u32, height: u32) -> Option<usize> {
    if width * height * 4 <= usize::MAX {
        Some((width * height * 4) as usize)
    } else {
        None
    }
}

/// Counts the bytes of an RGBA picture.
pub fn expected_rgba_len(width: u32, height: u32) -> (out: Option<usize>)
    ensures
        out == rgba_len(width, height),
{
    assert(width * height >= 0) by (nonlinear_arith)
        requires
            width >= 0,
            height >= 0,
    ;
    match (width as usize).checked_mul(height as usize) {
        Some(pixels) => pixels.checked_mul(4),
        None => None,
    }
}

/// How many bytes of a video frame are taken: those of the picture, where the
/// picture is not empty, its layer has a name and the bytes are enough.
pub fn upload_len(id: &str, width: u32, height: u32, len: usize) -> (out: Option<usize>)
    ensures
        out == (if width == 0 || height == 0 || id@.len() == 0 {
            None
        } else {
            match rgba_len(width, height) {
                Some(expected) => if len < expected {
                    None
                } else {
                    Some(expected)
                },
                None => None,
            }
        }),
{
    if width == 0 || height == 0 || id.is_empty() {
        return None;
    }
    match expected_rgba_len(width, height) {
        Some(expected) => if len < expected {
            None
        } else {
            Some(expected)
        },
        None => None,
    }
}

/// Whether a video frame can be taken as a texture: it is not empty, and its
/// layer has a name.
pub fn accepts_import(id: &str, width: u32, height: u32) -> (out: bool)
    ensures
        out == (width != 0 && height != 0 && id@.len() > 0),
{
    width != 0 && height != 0 && !id.is_empty()
}

/// The bytes of a stage's picture; a count that does not fit is the largest.
pub fn pixel_buffer_size(width: u32, height: u32) -> (out: usize)
    ensures
        out == (if width * height * 4 <= usize::MAX {
            width * height * 4
        } else {
            usize::MAX as int
        }),
{
    match expected_rgba_len(width, height) {
        Some(len) => len,
        None => usize::MAX,
    }
}

/// How many bytes of a caption are handed out: all of them, or none where there
/// are none or the buffer is too small.
pub fn caption_len(len: usize, capacity: i32) -> (out: i32)
    ensures
        out == (if capacity <= 0 || len == 0 || len > capacity {
            0
        } else {
            len as i32
        }),
{
    if capacity <= 0 || len == 0 || len > capacity as usize {
        0
    } else {
        len as i32
    }
}

/// What a snapshot of a length answers: the length where no buffer is given or
/// the snapshot fits, and its negation where the buffer is too small.
pub fn snapshot_answer(len: usize, has_buffer: bool, capacity: u32) -> (out: i32)
    ensures
        ({
            let required = if len > i32::MAX {
                i32::MAX as int
            } else {
                len as int
            };
            out == (if has_buffer && capacity != 0 && capacity < len {
                -required
            } else {
                required
            })
        }),
{
    let required: i32 = if len > 0x7fff_ffff {
        0x7fff_ffff
    } else {
        len as i32
    };
    if !has_buffer || capacity == 0 {
        required
    } else if (capacity as u64) < len as u64 {
        -required
    } else {
        required
    }
}

/// The upscale mode of a number.
pub fn upscale_mode(mode: i32) -> (out: Option<UpscaleMode>)
    ensures
        out == (if mode == 0 {
            Some(UpscaleMode::Linear)
        } else if mode == 1 {
            Some(UpscaleMode::Spatial)
        } else {
            None
        }),
{
    match mode {
        0 => Some(UpscaleMode::Linear),
        1 => Some(UpscaleMode::Spatial),
        _ => None,
    }
}

/// The machine that scripts are told of: the trimmed name, or none where it is
/// blank.
pub fn reported_os(os: Option<&str>) -> (out: Option<String>)
    ensures
        match os {
            Some(name) => (out is None <==> trim(name@).len() == 0) && (out matches Some(text)
                ==> text@ == trim(name@)),
            None => out is None,
        },
{
    match os {
        Some(name) => {
            let text = trimmed(name);
            if text.as_str().is_empty() {
                None
            } else {
                Some(text)
            }
        },
        None => None,
    }
}

/// Pixels have four bytes each; where their number cannot be held there is none.
pub proof fn law_pixels_have_four_bytes(width: u32, height: u32)
    ensures
        rgba_len(width, height) is Some <==> 4 * width * height <= usize::MAX,
        rgba_len(width, height) matches Some(len) ==> len == 4 * width * height,
{
    assert(width * height * 4 == 4 * width * height) by (nonlinear_arith);
}

} // verus!
