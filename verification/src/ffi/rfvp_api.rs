//! The host interface of the RFVP engine, as plain values.
use crate::codec::{char_of, is_scalar, text_from_utf8};
use crate::strs::opt_text;
use vstd::prelude::*;
use vstd::utf8::*;

verus! {

pub const ART3M1S_RFVP_API_ABI_VERSION: u32 = 1;

pub const ART3M1S_RFVP_API_ABI_MAGIC: u64 = 0x3156_4652_4d33_4152;

pub const ART3M1S_RFVP_STATUS_OK: i32 = 0;

pub const ART3M1S_RFVP_STATUS_NO_FRAME: i32 = 1;

pub const ART3M1S_RFVP_STATUS_NO_COMMAND: i32 = 2;

pub const ART3M1S_RFVP_STATUS_INVALID_ARGUMENT: i32 = -1;

pub const ART3M1S_RFVP_STATUS_INVALID_HANDLE: i32 = -2;

pub const ART3M1S_RFVP_STATUS_ENGINE: i32 = -3;

pub const ART3M1S_RFVP_STATUS_UNSUPPORTED: i32 = -4;

pub const ART3M1S_RFVP_STATUS_OUT_OF_MEMORY: i32 = -5;

pub const ART3M1S_RFVP_NLS_SHIFT_JIS: u32 = 1;

pub const ART3M1S_RFVP_NLS_GBK: u32 = 2;

pub const ART3M1S_RFVP_NLS_UTF8: u32 = 3;

pub const ART3M1S_RFVP_INPUT_KEY: u32 = 1;

pub const ART3M1S_RFVP_INPUT_TEXT: u32 = 2;

pub const ART3M1S_RFVP_INPUT_POINTER_MOVE: u32 = 3;

pub const ART3M1S_RFVP_INPUT_POINTER_BUTTON: u32 = 4;

pub const ART3M1S_RFVP_INPUT_WHEEL: u32 = 5;

pub const ART3M1S_RFVP_INPUT_TOUCH: u32 = 6;

pub const ART3M1S_RFVP_INPUT_FOCUS: u32 = 7;

pub const ART3M1S_RFVP_INPUT_QUIT: u32 = 8;

pub const ART3M1S_RFVP_INPUT_PHASE_DOWN: u32 = 0;

pub const ART3M1S_RFVP_INPUT_PHASE_UP: u32 = 1;

pub const ART3M1S_RFVP_INPUT_PHASE_REPEAT: u32 = 2;

pub const ART3M1S_RFVP_INPUT_PHASE_MOVE: u32 = 3;

pub const ART3M1S_RFVP_POINTER_LEFT: u32 = 1;

pub const ART3M1S_RFVP_POINTER_RIGHT: u32 = 2;

pub const ART3M1S_RFVP_POINTER_MIDDLE: u32 = 4;

pub const ART3M1S_RFVP_AUDIO_LOAD_ENCODED: u32 = 1;

pub const ART3M1S_RFVP_AUDIO_CREATE_STREAM: u32 = 2;

pub const ART3M1S_RFVP_AUDIO_SUBMIT_I16: u32 = 3;

pub const ART3M1S_RFVP_AUDIO_SUBMIT_F32: u32 = 4;

pub const ART3M1S_RFVP_AUDIO_PLAY: u32 = 5;

pub const ART3M1S_RFVP_AUDIO_STOP: u32 = 6;

pub const ART3M1S_RFVP_AUDIO_PAUSE: u32 = 7;

pub const ART3M1S_RFVP_AUDIO_RESUME: u32 = 8;

pub const ART3M1S_RFVP_AUDIO_SET_PARAMS: u32 = 9;

pub const ART3M1S_RFVP_AUDIO_DESTROY_STREAM: u32 = 10;

pub const ART3M1S_RFVP_AUDIO_MASTER_VOLUME: u32 = 11;

pub const ART3M1S_RFVP_AUDIO_SAMPLE_I16: u32 = 1;

pub const ART3M1S_RFVP_AUDIO_SAMPLE_F32: u32 = 2;

pub const ART3M1S_RFVP_AUDIO_ENCODED_UNKNOWN: u32 = 0;

pub const ART3M1S_RFVP_AUDIO_ENCODED_WAV: u32 = 1;

pub const ART3M1S_RFVP_AUDIO_ENCODED_OGG: u32 = 2;

pub const ART3M1S_RFVP_AUDIO_ENCODED_MP3: u32 = 3;

pub const ART3M1S_RFVP_AUDIO_ENCODED_FLAC: u32 = 4;

/// The bytes of an input event in the host's memory.
pub const INPUT_EVENT_SIZE: u32 = 40;

/// The most input events of one call.
pub const MAX_INPUT_EVENTS: usize = 4096;

/// An input event as the host sends it.
#[derive(Clone, Copy, Debug, PartialEq, Eq, Structural)]
pub struct Art3m1sRfvpInputEventV1 {
    pub struct_size: u32,
    pub kind: u32,
    pub code: u32,
    pub phase: u32,
    pub x: i32,
    pub y: i32,
    pub value: i32,
    pub modifiers: u32,
    pub id: u64,
}

#[derive(Clone, Copy, Debug, PartialEq, Eq, Structural)]
pub enum PointerButton {
    Left,
    Right,
    Middle,
}

#[derive(Clone, Copy, Debug, PartialEq, Eq, Structural)]
pub enum TouchPhase {
    Down,
    Move,
    Up,
}

/// An input event as the engine takes it.
#[derive(Clone, Copy, Debug, PartialEq, Eq, Structural)]
pub enum HostInputEvent {
    Key { code: u32, pressed: bool, repeat: bool, modifiers: u32 },
    Text { character: char },
    PointerMove { x: i32, y: i32 },
    PointerButton { button: PointerButton, pressed: bool, x: i32, y: i32 },
    Wheel { delta_x: i32, delta_y: i32 },
    Touch { id: u64, phase: TouchPhase, x: i32, y: i32 },
    Focus { focused: bool },
    Quit,
}

/// The button of a code: one bit each.
pub open spec fn button_of(code: u32) -> Option<PointerButton> {
    if code == 1 {
        Some(PointerButton::Left)
    } else if code == 2 {
        Some(PointerButton::Right)
    } else if code == 4 {
        Some(PointerButton::Middle)
    } else {
        None
    }
}

/// The phase of a touch.
pub open spec fn touch_phase_of(phase: u32) -> Option<TouchPhase> {
    if phase == 0 {
        Some(TouchPhase::Down)
    } else if phase == 3 {
        Some(TouchPhase::Move)
    } else if phase == 1 {
        Some(TouchPhase::Up)
    } else {
        None
    }
}

/// The event that the engine takes; none where the host's makes no sense.
pub open spec fn converted(e: Art3m1sRfvpInputEventV1) -> Option<HostInputEvent> {
    if e.struct_size < INPUT_EVENT_SIZE {
        None
    } else if e.kind == ART3M1S_RFVP_INPUT_KEY {
        Some(
            HostInputEvent::Key {
                code: e.code,
                pressed: e.phase != 1,
                repeat: e.phase == 2,
                modifiers: e.modifiers,
            },
        )
    } else if e.kind == ART3M1S_RFVP_INPUT_TEXT {
        if is_scalar(e.code) {
            Some(HostInputEvent::Text { character: e.code as char })
        } else {
            None
        }
    } else if e.kind == ART3M1S_RFVP_INPUT_POINTER_MOVE {
        Some(HostInputEvent::PointerMove { x: e.x, y: e.y })
    } else if e.kind == ART3M1S_RFVP_INPUT_POINTER_BUTTON {
        match button_of(e.code) {
            Some(button) => Some(
                HostInputEvent::PointerButton { button, pressed: e.phase == 0, x: e.x, y: e.y },
            ),
            None => None,
        }
    } else if e.kind == ART3M1S_RFVP_INPUT_WHEEL {
        Some(HostInputEvent::Wheel { delta_x: e.x, delta_y: e.y })
    } else if e.kind == ART3M1S_RFVP_INPUT_TOUCH {
        match touch_phase_of(e.phase) {
            Some(phase) => Some(HostInputEvent::Touch { id: e.id, phase, x: e.x, y: e.y }),
            None => None,
        }
    } else if e.kind == ART3M1S_RFVP_INPUT_FOCUS {
        Some(HostInputEvent::Focus { focused: e.phase != 0 })
    } else if e.kind == ART3M1S_RFVP_INPUT_QUIT {
        Some(HostInputEvent::Quit)
    } else {
        None
    }
}

/// Makes an event for the engine of one of the host.
pub fn convert_input_event(event: &Art3m1sRfvpInputEventV1) -> (out: Result<HostInputEvent, i32>)
    ensures
        match converted(*event) {
            Some(e) => out == Ok::<HostInputEvent, i32>(e),
            None => out == Err::<HostInputEvent, i32>(ART3M1S_RFVP_STATUS_INVALID_ARGUMENT),
        },
{
    let invalid: i32 = ART3M1S_RFVP_STATUS_INVALID_ARGUMENT;
    if event.struct_size < INPUT_EVENT_SIZE {
        return Err(invalid);
    }
    if event.kind == ART3M1S_RFVP_INPUT_KEY {
        Ok(
            HostInputEvent::Key {
                code: event.code,
                pressed: event.phase != ART3M1S_RFVP_INPUT_PHASE_UP,
                repeat: event.phase == ART3M1S_RFVP_INPUT_PHASE_REPEAT,
                modifiers: event.modifiers,
            },
        )
    } else if event.kind == ART3M1S_RFVP_INPUT_TEXT {
        match char_of(event.code) {
            Some(character) => Ok(HostInputEvent::Text { character }),
            None => Err(invalid),
        }
    } else if event.kind == ART3M1S_RFVP_INPUT_POINTER_MOVE {
        Ok(HostInputEvent::PointerMove { x: event.x, y: event.y })
    } else if event.kind == ART3M1S_RFVP_INPUT_POINTER_BUTTON {
        let button = if event.code == ART3M1S_RFVP_POINTER_LEFT {
            PointerButton::Left
        } else if event.code == ART3M1S_RFVP_POINTER_RIGHT {
            PointerButton::Right
        } else if event.code == ART3M1S_RFVP_POINTER_MIDDLE {
            PointerButton::Middle
        } else {
            return Err(invalid);
        };
        Ok(
            HostInputEvent::PointerButton {
                button,
                pressed: event.phase == ART3M1S_RFVP_INPUT_PHASE_DOWN,
                x: event.x,
                y: event.y,
            },
        )
    } else if event.kind == ART3M1S_RFVP_INPUT_WHEEL {
        Ok(HostInputEvent::Wheel { delta_x: event.x, delta_y: event.y })
    } else if event.kind == ART3M1S_RFVP_INPUT_TOUCH {
        let phase = if event.phase == ART3M1S_RFVP_INPUT_PHASE_DOWN {
            TouchPhase::Down
        } else if event.phase == ART3M1S_RFVP_INPUT_PHASE_MOVE {
            TouchPhase::Move
        } else if event.phase == ART3M1S_RFVP_INPUT_PHASE_UP {
            TouchPhase::Up
        } else {
            return Err(invalid);
        };
        Ok(HostInputEvent::Touch { id: event.id, phase, x: event.x, y: event.y })
    } else if event.kind == ART3M1S_RFVP_INPUT_FOCUS {
        Ok(HostInputEvent::Focus { focused: event.phase != 0 })
    } else if event.kind == ART3M1S_RFVP_INPUT_QUIT {
        Ok(HostInputEvent::Quit)
    } else {
        Err(invalid)
    }
}

/// Whether every event makes sense.
pub open spec fn all_converted(events: Seq<Art3m1sRfvpInputEventV1>) -> bool {
    forall|i: int| 0 <= i < events.len() ==> converted(#[trigger] events[i]) is Some
}

/// Makes events for the engine of those of one call: all of them, or none where
/// there are too many or one makes no sense.
pub fn convert_input_events(events: &Vec<Art3m1sRfvpInputEventV1>) -> (out: Result<
    Vec<HostInputEvent>,
    i32,
>)
    ensures
        out is Ok <==> events@.len() <= MAX_INPUT_EVENTS && all_converted(events@),
        out matches Ok(list) ==> list@.len() == events@.len() && forall|i: int|
            0 <= i < events@.len() ==> converted(events@[i]) == Some(#[trigger] list@[i]),
        out matches Err(status) ==> status == ART3M1S_RFVP_STATUS_INVALID_ARGUMENT,
{
    if events.len() > MAX_INPUT_EVENTS {
        return Err(ART3M1S_RFVP_STATUS_INVALID_ARGUMENT);
    }
    let mut list: Vec<HostInputEvent> = Vec::new();
    let mut i: usize = 0;
    while i < events.len()
        invariant
            i <= events.len(),
            list@.len() == i,
            events@.len() <= MAX_INPUT_EVENTS,
            forall|j: int| 0 <= j < i ==> converted(events@[j]) == Some(#[trigger] list@[j]),
        decreases events.len() - i,
    {
        match convert_input_event(&events[i]) {
            Ok(event) => list.push(event),
            Err(_) => {
                assert(converted(events@[i as int]) is None);
                return Err(ART3M1S_RFVP_STATUS_INVALID_ARGUMENT);
            },
        }
        i += 1;
    }
    assert forall|j: int| 0 <= j < events@.len() implies converted(#[trigger] events@[j]) is Some by {
        assert(converted(events@[j]) == Some(list@[j]));
    }
    Ok(list)
}

/// The text encoding of a game.
#[derive(Clone, Copy, Debug, PartialEq, Eq, Structural)]
pub enum Nls {
    ShiftJis,
    Gbk,
    Utf8,
}

/// The encoding of a number.
pub open spec fn nls_of(nls: u32) -> Option<Nls> {
    if nls == 1 {
        Some(Nls::ShiftJis)
    } else if nls == 2 {
        Some(Nls::Gbk)
    } else if nls == 3 {
        Some(Nls::Utf8)
    } else {
        None
    }
}

/// What a runtime is made from.
pub struct CreateArgs {
    pub game_root: String,
    pub save_root: Option<String>,
    pub nls: Nls,
}

/// Whether the arguments for a runtime make sense: a root of at least one byte,
/// a stage that is not empty, paths in UTF-8 and a known encoding. A save root
/// of no bytes is none.
pub open spec fn create_valid(
    game_root: Option<Seq<u8>>,
    save_root: Option<Seq<u8>>,
    save_root_len: usize,
    width: u32,
    height: u32,
    nls: u32,
) -> bool {
    &&& game_root matches Some(root) && root.len() > 0 && valid_utf8(root)
    &&& width != 0 && height != 0
    &&& save_root_len != 0 ==> (save_root matches Some(root) && valid_utf8(root))
    &&& nls_of(nls) is Some
}

pub open spec fn opt_bytes(bytes: Option<&[u8]>) -> Option<Seq<u8>> {
    match bytes {
        Some(b) => Some(b@),
        None => None,
    }
}

/// Checks the arguments for a runtime.
pub fn create_args(
    game_root: Option<&[u8]>,
    save_root: Option<&[u8]>,
    save_root_len: usize,
    width: u32,
    height: u32,
    nls: u32,
) -> (out: Result<CreateArgs, i32>)
    ensures
        out is Ok <==> create_valid(
            opt_bytes(game_root),
            opt_bytes(save_root),
            save_root_len,
            width,
            height,
            nls,
        ),
        out matches Err(status) ==> status == ART3M1S_RFVP_STATUS_INVALID_ARGUMENT,
        out matches Ok(args) ==> args.game_root@ == decode_utf8(game_root->0@) && Some(args.nls)
            == nls_of(nls) && opt_text(args.save_root) == (if save_root_len == 0 {
            None
        } else {
            Some(decode_utf8(save_root->0@))
        }),
{
    let invalid: i32 = ART3M1S_RFVP_STATUS_INVALID_ARGUMENT;
    let root = match game_root {
        Some(root) => root,
        None => return Err(invalid),
    };
    if root.len() == 0 || width == 0 || height == 0 {
        return Err(invalid);
    }
    if save_root.is_none() && save_root_len != 0 {
        return Err(invalid);
    }
    let game_root = match text_from_utf8(root) {
        Some(path) => path,
        None => return Err(invalid),
    };
    let save_root = if save_root_len == 0 {
        None
    } else {
        match save_root {
            Some(bytes) => match text_from_utf8(bytes) {
                Some(path) => Some(path),
                None => return Err(invalid),
            },
            None => return Err(invalid),
        }
    };
    let nls = if nls == ART3M1S_RFVP_NLS_SHIFT_JIS {
        Nls::ShiftJis
    } else if nls == ART3M1S_RFVP_NLS_GBK {
        Nls::Gbk
    } else if nls == ART3M1S_RFVP_NLS_UTF8 {
        Nls::Utf8
    } else {
        return Err(invalid);
    };
    Ok(CreateArgs { game_root, save_root, nls })
}

#[derive(Clone, Copy, Debug, PartialEq, Eq, Structural)]
pub enum AudioCommandKind {
    LoadEncoded,
    CreateStream,
    SubmitI16,
    SubmitF32,
    Play,
    Stop,
    Pause,
    Resume,
    SetParams,
    DestroyStream,
    MasterVolume,
}

#[derive(Clone, Copy, Debug, PartialEq, Eq, Structural)]
pub enum SampleFormat {
    I16,
    F32,
}

#[derive(Clone, Copy, Debug, PartialEq, Eq, Structural)]
pub enum EncodedAudioKind {
    Unknown,
    Wav,
    Ogg,
    Mp3,
    Flac,
}

/// An audio command of the engine. Volume and pan are the bits of numbers with
/// a fraction.
#[derive(Clone, Copy, Debug, PartialEq, Eq, Structural)]
pub struct AudioCommand {
    pub kind: AudioCommandKind,
    pub stream_id: u32,
    pub sample_format: Option<SampleFormat>,
    pub encoded_kind: Option<EncodedAudioKind>,
    pub sample_rate: u32,
    pub channels: u32,
    pub repeat: bool,
    pub fade_ms: u32,
    pub volume_bits: u32,
    pub pan_bits: u32,
    pub sample_count: usize,
}

/// An audio command as the host reads it.
#[derive(Clone, Copy, Debug, PartialEq, Eq, Structural)]
pub struct AudioCommandV1 {
    pub kind: u32,
    pub stream_id: u32,
    pub sample_format: u32,
    pub encoded_kind: u32,
    pub sample_rate: u32,
    pub channels: u32,
    pub repeat: u32,
    pub fade_ms: u32,
    pub volume_bits: u32,
    pub pan_bits: u32,
    pub sample_count: usize,
    /// Whether samples or a file come with the command.
    pub has_payload: bool,
    pub payload_size: usize,
}

/// The number of a command.
pub open spec fn kind_number(kind: AudioCommandKind) -> u32 {
    match kind {
        AudioCommandKind::LoadEncoded => 1,
        AudioCommandKind::CreateStream => 2,
        AudioCommandKind::SubmitI16 => 3,
        AudioCommandKind::SubmitF32 => 4,
        AudioCommandKind::Play => 5,
        AudioCommandKind::Stop => 6,
        AudioCommandKind::Pause => 7,
        AudioCommandKind::Resume => 8,
        AudioCommandKind::SetParams => 9,
        AudioCommandKind::DestroyStream => 10,
        AudioCommandKind::MasterVolume => 11,
    }
}

/// The number of a sample format; none is 0.
pub open spec fn format_number(format: Option<SampleFormat>) -> u32 {
    match format {
        Some(SampleFormat::I16) => 1,
        Some(SampleFormat::F32) => 2,
        None => 0,
    }
}

/// The number of an encoding; an unknown one is 0, as is none.
pub open spec fn encoding_number(kind: Option<EncodedAudioKind>) -> u32 {
    match kind {
        Some(EncodedAudioKind::Unknown) => 0,
        Some(EncodedAudioKind::Wav) => 1,
        Some(EncodedAudioKind::Ogg) => 2,
        Some(EncodedAudioKind::Mp3) => 3,
        Some(EncodedAudioKind::Flac) => 4,
        None => 0,
    }
}

/// Makes a command for the host of one of the engine.
pub fn audio_command_v1(command: &AudioCommand, payload_size: usize) -> (out: AudioCommandV1)
    ensures
        out == (AudioCommandV1 {
            kind: kind_number(command.kind),
            stream_id: command.stream_id,
            sample_format: format_number(command.sample_format),
            encoded_kind: encoding_number(command.encoded_kind),
            sample_rate: command.sample_rate,
            channels: command.channels,
            repeat: if command.repeat {
                1
            } else {
                0
            },
            fade_ms: command.fade_ms,
            volume_bits: command.volume_bits,
            pan_bits: command.pan_bits,
            sample_count: command.sample_count,
            has_payload: payload_size != 0,
            payload_size,
        }),
{
    let kind: u32 = match command.kind {
        AudioCommandKind::LoadEncoded => ART3M1S_RFVP_AUDIO_LOAD_ENCODED,
        AudioCommandKind::CreateStream => ART3M1S_RFVP_AUDIO_CREATE_STREAM,
        AudioCommandKind::SubmitI16 => ART3M1S_RFVP_AUDIO_SUBMIT_I16,
        AudioCommandKind::SubmitF32 => ART3M1S_RFVP_AUDIO_SUBMIT_F32,
        AudioCommandKind::Play => ART3M1S_RFVP_AUDIO_PLAY,
        AudioCommandKind::Stop => ART3M1S_RFVP_AUDIO_STOP,
        AudioCommandKind::Pause => ART3M1S_RFVP_AUDIO_PAUSE,
        AudioCommandKind::Resume => ART3M1S_RFVP_AUDIO_RESUME,
        AudioCommandKind::SetParams => ART3M1S_RFVP_AUDIO_SET_PARAMS,
        AudioCommandKind::DestroyStream => ART3M1S_RFVP_AUDIO_DESTROY_STREAM,
        AudioCommandKind::MasterVolume => ART3M1S_RFVP_AUDIO_MASTER_VOLUME,
    };
    let sample_format: u32 = match command.sample_format {
        Some(SampleFormat::I16) => ART3M1S_RFVP_AUDIO_SAMPLE_I16,
        Some(SampleFormat::F32) => ART3M1S_RFVP_AUDIO_SAMPLE_F32,
        None => 0,
    };
    let encoded_kind: u32 = match command.encoded_kind {
        Some(EncodedAudioKind::Unknown) => ART3M1S_RFVP_AUDIO_ENCODED_UNKNOWN,
        Some(EncodedAudioKind::Wav) => ART3M1S_RFVP_AUDIO_ENCODED_WAV,
        Some(EncodedAudioKind::Ogg) => ART3M1S_RFVP_AUDIO_ENCODED_OGG,
        Some(EncodedAudioKind::Mp3) => ART3M1S_RFVP_AUDIO_ENCODED_MP3,
        Some(EncodedAudioKind::Flac) => ART3M1S_RFVP_AUDIO_ENCODED_FLAC,
        None => 0,
    };
    let repeat: u32 = if command.repeat {
        1
    } else {
        0
    };
    AudioCommandV1 {
        kind,
        stream_id: command.stream_id,
        sample_format,
        encoded_kind,
        sample_rate: command.sample_rate,
        channels: command.channels,
        repeat,
        fade_ms: command.fade_ms,
        volume_bits: command.volume_bits,
        pan_bits: command.pan_bits,
        sample_count: command.sample_count,
        has_payload: payload_size != 0,
        payload_size,
    }
}

/// The bytes of a stage's picture; a count that does not fit is the largest.
pub fn pixel_buffer_size(width: u32, height: u32) -> (out: u32)
    ensures
        out == (if width * height * 4 <= u32::MAX {
            width * height * 4
        } else {
            u32::MAX as int
        }),
{
    assert(width * height >= 0) by (nonlinear_arith)
        requires
            width >= 0,
            height >= 0,
    ;
    match width.checked_mul(height) {
        Some(pixels) => match pixels.checked_mul(4) {
            Some(bytes) => bytes,
            None => u32::MAX,
        },
        None => u32::MAX,
    }
}

/// How many bytes of a drawn frame are handed out: those of the stage, where
/// the buffer and the frame hold them, else none.
pub fn render_len(width: u32, height: u32, capacity: u32, frame_len: usize) -> (out: u32)
    ensures
        ({
            let required = if width * height * 4 <= u32::MAX {
                width * height * 4
            } else {
                u32::MAX as int
            };
            out == (if capacity < required || frame_len < required {
                0
            } else {
                required
            })
        }),
{
    let required: u32 = pixel_buffer_size(width, height);
    if capacity < required || (frame_len as u64) < required as u64 {
        0
    } else {
        required
    }
}

/// Different commands have different numbers.
pub proof fn law_command_numbers_differ(a: AudioCommandKind, b: AudioCommandKind)
    requires
        a != b,
    ensures
        kind_number(a) != kind_number(b),
{
}

/// An event says what it is by its kind, and one that is too short, or of another
/// kind, is none. A key is pressed unless its phase is that of release, and only the
/// phase of repetition repeats it.
pub proof fn law_key_events(e: Art3m1sRfvpInputEventV1)
    ensures
        e.struct_size < 40 ==> converted(e) is None,
        e.kind == 0 || e.kind > 8 ==> converted(e) is None,
        e.struct_size >= 40 && e.kind == 1 ==> (converted(e) matches Some(
            HostInputEvent::Key { code, pressed, repeat, modifiers },
        ) && code == e.code && modifiers == e.modifiers && (pressed <==> e.phase != 1) && (repeat
            <==> e.phase == 2)),
        e.struct_size >= 40 && e.kind == 2 ==> (converted(e) is Some <==> e.code < 0xd800
            || 0xe000 <= e.code <= 0x10ffff),
        e.struct_size >= 40 && e.kind == 2 ==> (converted(e) matches Some(event) ==> (event matches
            HostInputEvent::Text { character } && character == e.code as char)),
{
}

/// The pointer moves to its place, its buttons are the left, the right and the middle
/// one by their bits and are pressed in the first phase alone, and the wheel turns by
/// both numbers.
pub proof fn law_pointer_events(e: Art3m1sRfvpInputEventV1)
    requires
        e.struct_size >= 40,
    ensures
        e.kind == 3 ==> converted(e) == Some(HostInputEvent::PointerMove { x: e.x, y: e.y }),
        e.kind == 5 ==> converted(e) == Some(
            HostInputEvent::Wheel { delta_x: e.x, delta_y: e.y },
        ),
        e.kind == 4 ==> (converted(e) is Some <==> e.code == 1 || e.code == 2 || e.code == 4),
        e.kind == 4 && e.code == 1 ==> converted(e) == Some(
            HostInputEvent::PointerButton {
                button: PointerButton::Left,
                pressed: e.phase == 0,
                x: e.x,
                y: e.y,
            },
        ),
        e.kind == 4 && e.code == 2 ==> converted(e) == Some(
            HostInputEvent::PointerButton {
                button: PointerButton::Right,
                pressed: e.phase == 0,
                x: e.x,
                y: e.y,
            },
        ),
        e.kind == 4 && e.code == 4 ==> converted(e) == Some(
            HostInputEvent::PointerButton {
                button: PointerButton::Middle,
                pressed: e.phase == 0,
                x: e.x,
                y: e.y,
            },
        ),
{
}

/// A touch goes down, moves and goes up by its phase, and is none in another one; the
/// window has the focus unless the phase is 0.
pub proof fn law_touch_events(e: Art3m1sRfvpInputEventV1)
    requires
        e.struct_size >= 40,
    ensures
        e.kind == 6 ==> (converted(e) is Some <==> e.phase == 0 || e.phase == 1 || e.phase == 3),
        e.kind == 6 && e.phase == 0 ==> converted(e) == Some(
            HostInputEvent::Touch { id: e.id, phase: TouchPhase::Down, x: e.x, y: e.y },
        ),
        e.kind == 6 && e.phase == 1 ==> converted(e) == Some(
            HostInputEvent::Touch { id: e.id, phase: TouchPhase::Up, x: e.x, y: e.y },
        ),
        e.kind == 6 && e.phase == 3 ==> converted(e) == Some(
            HostInputEvent::Touch { id: e.id, phase: TouchPhase::Move, x: e.x, y: e.y },
        ),
        e.kind == 7 ==> converted(e) == Some(HostInputEvent::Focus { focused: e.phase != 0 }),
        e.kind == 8 ==> converted(e) == Some(HostInputEvent::Quit),
{
}

/// Events are all in order where each one is.
pub proof fn law_events_are_converted_together(
    events: Seq<Art3m1sRfvpInputEventV1>,
    last: Art3m1sRfvpInputEventV1,
)
    ensures
        all_converted(Seq::empty()),
        all_converted(events.push(last)) <==> all_converted(events) && converted(last) is Some,
{
    let all = events.push(last);
    if all_converted(all) {
        assert(all[events.len() as int] == last);
        assert forall|i: int| 0 <= i < events.len() implies converted(#[trigger] events[i])
            is Some by {
            assert(all[i] == events[i]);
        }
    }
}

/// Text is in one of three encodings by their numbers. A game is made where it has a
/// root of its own in valid text, a picture with pixels and a known encoding; a root
/// for saves may be missing, but not be invalid.
pub proof fn law_games_need_a_root_and_a_size(
    root: Seq<u8>,
    saves: Seq<u8>,
    save_root_len: usize,
    width: u32,
    height: u32,
    nls: u32,
)
    ensures
        nls_of(1) is Some && nls_of(1)->0 is ShiftJis,
        nls_of(2) is Some && nls_of(2)->0 is Gbk,
        nls_of(3) is Some && nls_of(3)->0 is Utf8,
        nls_of(nls) is Some <==> 1 <= nls <= 3,
        !create_valid(None, Some(saves), save_root_len, width, height, nls),
        create_valid(Some(root), None, 0, width, height, nls) <==> root.len() > 0 && valid_utf8(
            root,
        ) && width > 0 && height > 0 && 1 <= nls <= 3,
        save_root_len > 0 ==> !create_valid(Some(root), None, save_root_len, width, height, nls),
        save_root_len > 0 ==> (create_valid(
            Some(root),
            Some(saves),
            save_root_len,
            width,
            height,
            nls,
        ) <==> create_valid(Some(root), None, 0, width, height, nls) && valid_utf8(saves)),
        create_valid(Some(root), Some(saves), 0, width, height, nls) == create_valid(
            Some(root),
            None,
            0,
            width,
            height,
            nls,
        ),
{
}

/// Commands, samples and encoded files have their numbers; what there is none of is
/// 0.
pub proof fn law_commands_have_numbers()
    ensures
        kind_number(AudioCommandKind::LoadEncoded) == ART3M1S_RFVP_AUDIO_LOAD_ENCODED,
        kind_number(AudioCommandKind::CreateStream) == ART3M1S_RFVP_AUDIO_CREATE_STREAM,
        kind_number(AudioCommandKind::SubmitI16) == ART3M1S_RFVP_AUDIO_SUBMIT_I16,
        kind_number(AudioCommandKind::SubmitF32) == ART3M1S_RFVP_AUDIO_SUBMIT_F32,
        kind_number(AudioCommandKind::Play) == ART3M1S_RFVP_AUDIO_PLAY,
        kind_number(AudioCommandKind::Stop) == ART3M1S_RFVP_AUDIO_STOP,
        kind_number(AudioCommandKind::Pause) == ART3M1S_RFVP_AUDIO_PAUSE,
        kind_number(AudioCommandKind::Resume) == ART3M1S_RFVP_AUDIO_RESUME,
        kind_number(AudioCommandKind::SetParams) == ART3M1S_RFVP_AUDIO_SET_PARAMS,
        kind_number(AudioCommandKind::DestroyStream) == ART3M1S_RFVP_AUDIO_DESTROY_STREAM,
        kind_number(AudioCommandKind::MasterVolume) == ART3M1S_RFVP_AUDIO_MASTER_VOLUME,
        format_number(None) == 0,
        format_number(Some(SampleFormat::I16)) == ART3M1S_RFVP_AUDIO_SAMPLE_I16,
        format_number(Some(SampleFormat::F32)) == ART3M1S_RFVP_AUDIO_SAMPLE_F32,
        encoding_number(None) == 0,
        encoding_number(Some(EncodedAudioKind::Unknown)) == ART3M1S_RFVP_AUDIO_ENCODED_UNKNOWN,
        encoding_number(Some(EncodedAudioKind::Wav)) == ART3M1S_RFVP_AUDIO_ENCODED_WAV,
        encoding_number(Some(EncodedAudioKind::Ogg)) == ART3M1S_RFVP_AUDIO_ENCODED_OGG,
        encoding_number(Some(EncodedAudioKind::Mp3)) == ART3M1S_RFVP_AUDIO_ENCODED_MP3,
        encoding_number(Some(EncodedAudioKind::Flac)) == ART3M1S_RFVP_AUDIO_ENCODED_FLAC,
{
}

} // verus!
