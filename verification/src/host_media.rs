//! Media commands to the host.
//!
//! The host plays audio and decodes video. Commands name what to play; each has
//! a kind and a payload, a JSON object with its members in ascending order.
use crate::host::events::{push_media, routed, EventRouter, EVENT_KIND_MEDIA};
use crate::json::{
    bool_of, bool_text, envelope_text, field_views, json_reprinted, object, object_text,
    opt_number_of, opt_number_text, opt_quote, opt_quoted, quote, quoted,
};
use crate::strs::{decimal_of, decimal_text, opt_text, signed_of, signed_text};
use vstd::prelude::*;
use vstd::utf8::*;

verus! {

#[derive(Debug, Clone, Copy, PartialEq, Eq, Structural)]
pub enum HostMediaCommandKind {
    AudioSetVolume,
    AudioBgmPlay,
    AudioBgmStop,
    AudioBgmFade,
    AudioBgmPan,
    AudioBgmCrossfade,
    AudioSePlay,
    AudioSeStop,
    AudioSeFade,
    AudioSePan,
    AudioVoicePlay,
    AudioStopAll,
    VideoPlay,
    VideoStopAll,
    VideoLayerFrame,
}

/// The name of a kind on the wire.
pub open spec fn kind_name(kind: HostMediaCommandKind) -> Seq<char> {
    match kind {
        HostMediaCommandKind::AudioSetVolume => "audio_set_volume"@,
        HostMediaCommandKind::AudioBgmPlay => "audio_bgm_play"@,
        HostMediaCommandKind::AudioBgmStop => "audio_bgm_stop"@,
        HostMediaCommandKind::AudioBgmFade => "audio_bgm_fade"@,
        HostMediaCommandKind::AudioBgmPan => "audio_bgm_pan"@,
        HostMediaCommandKind::AudioBgmCrossfade => "audio_bgm_crossfade"@,
        HostMediaCommandKind::AudioSePlay => "audio_se_play"@,
        HostMediaCommandKind::AudioSeStop => "audio_se_stop"@,
        HostMediaCommandKind::AudioSeFade => "audio_se_fade"@,
        HostMediaCommandKind::AudioSePan => "audio_se_pan"@,
        HostMediaCommandKind::AudioVoicePlay => "audio_voice_play"@,
        HostMediaCommandKind::AudioStopAll => "audio_stop_all"@,
        HostMediaCommandKind::VideoPlay => "video_play"@,
        HostMediaCommandKind::VideoStopAll => "video_stop_all"@,
        HostMediaCommandKind::VideoLayerFrame => "video_layer_frame"@,
    }
}

impl HostMediaCommandKind {
    pub fn as_str(self) -> (out: &'static str)
        ensures
            out@ == kind_name(self),
    {
        match self {
            HostMediaCommandKind::AudioSetVolume => "audio_set_volume",
            HostMediaCommandKind::AudioBgmPlay => "audio_bgm_play",
            HostMediaCommandKind::AudioBgmStop => "audio_bgm_stop",
            HostMediaCommandKind::AudioBgmFade => "audio_bgm_fade",
            HostMediaCommandKind::AudioBgmPan => "audio_bgm_pan",
            HostMediaCommandKind::AudioBgmCrossfade => "audio_bgm_crossfade",
            HostMediaCommandKind::AudioSePlay => "audio_se_play",
            HostMediaCommandKind::AudioSeStop => "audio_se_stop",
            HostMediaCommandKind::AudioSeFade => "audio_se_fade",
            HostMediaCommandKind::AudioSePan => "audio_se_pan",
            HostMediaCommandKind::AudioVoicePlay => "audio_voice_play",
            HostMediaCommandKind::AudioStopAll => "audio_stop_all",
            HostMediaCommandKind::VideoPlay => "video_play",
            HostMediaCommandKind::VideoStopAll => "video_stop_all",
            HostMediaCommandKind::VideoLayerFrame => "video_layer_frame",
        }
    }
}

/// What tells a name apart: its length, its first character and the fourth from
/// its end.
spec fn kind_mark(kind: HostMediaCommandKind) -> (int, char, char) {
    match kind {
        HostMediaCommandKind::AudioSetVolume => (16, 'a', 'l'),
        HostMediaCommandKind::AudioBgmPlay => (14, 'a', 'p'),
        HostMediaCommandKind::AudioBgmStop => (14, 'a', 's'),
        HostMediaCommandKind::AudioBgmFade => (14, 'a', 'f'),
        HostMediaCommandKind::AudioBgmPan => (13, 'a', '_'),
        HostMediaCommandKind::AudioBgmCrossfade => (19, 'a', 'f'),
        HostMediaCommandKind::AudioSePlay => (13, 'a', 'p'),
        HostMediaCommandKind::AudioSeStop => (13, 'a', 's'),
        HostMediaCommandKind::AudioSeFade => (13, 'a', 'f'),
        HostMediaCommandKind::AudioSePan => (12, 'a', '_'),
        HostMediaCommandKind::AudioVoicePlay => (16, 'a', 'p'),
        HostMediaCommandKind::AudioStopAll => (14, 'a', '_'),
        HostMediaCommandKind::VideoPlay => (10, 'v', 'p'),
        HostMediaCommandKind::VideoStopAll => (14, 'v', '_'),
        HostMediaCommandKind::VideoLayerFrame => (17, 'v', 'r'),
    }
}

proof fn lemma_kind_mark(kind: HostMediaCommandKind)
    ensures
        ({
            let name = kind_name(kind);
            kind_mark(kind) == (name.len() as int, name[0], name[name.len() - 4])
        }),
{
    match kind {
        HostMediaCommandKind::AudioSetVolume => {
            reveal_strlit("audio_set_volume");
        },
        HostMediaCommandKind::AudioBgmPlay => {
            reveal_strlit("audio_bgm_play");
        },
        HostMediaCommandKind::AudioBgmStop => {
            reveal_strlit("audio_bgm_stop");
        },
        HostMediaCommandKind::AudioBgmFade => {
            reveal_strlit("audio_bgm_fade");
        },
        HostMediaCommandKind::AudioBgmPan => {
            reveal_strlit("audio_bgm_pan");
        },
        HostMediaCommandKind::AudioBgmCrossfade => {
            reveal_strlit("audio_bgm_crossfade");
        },
        HostMediaCommandKind::AudioSePlay => {
            reveal_strlit("audio_se_play");
        },
        HostMediaCommandKind::AudioSeStop => {
            reveal_strlit("audio_se_stop");
        },
        HostMediaCommandKind::AudioSeFade => {
            reveal_strlit("audio_se_fade");
        },
        HostMediaCommandKind::AudioSePan => {
            reveal_strlit("audio_se_pan");
        },
        HostMediaCommandKind::AudioVoicePlay => {
            reveal_strlit("audio_voice_play");
        },
        HostMediaCommandKind::AudioStopAll => {
            reveal_strlit("audio_stop_all");
        },
        HostMediaCommandKind::VideoPlay => {
            reveal_strlit("video_play");
        },
        HostMediaCommandKind::VideoStopAll => {
            reveal_strlit("video_stop_all");
        },
        HostMediaCommandKind::VideoLayerFrame => {
            reveal_strlit("video_layer_frame");
        },
    }
}

/// No two kinds share a name.
pub proof fn law_kind_names_differ(a: HostMediaCommandKind, b: HostMediaCommandKind)
    requires
        kind_name(a) == kind_name(b),
    ensures
        a == b,
{
    lemma_kind_mark(a);
    lemma_kind_mark(b);
}

/// Sends a media command to the host.
pub fn emit(router: &mut EventRouter, kind: HostMediaCommandKind, payload: &str)
    requires
        old(router).wf(),
    ensures
        final(router).wf(),
        final(router)@ == routed(
            old(router)@,
            EVENT_KIND_MEDIA,
            0,
            encode_utf8(envelope_text(kind_name(kind), json_reprinted(payload@))),
        ),
{
    push_media(router, kind.as_str(), payload);
}

/// No payload.
pub struct EmptyPayload {}

pub struct BgmPlay {
    pub file: String,
    pub resolved_file: Option<String>,
    pub loop_play: bool,
    pub gain: Option<i32>,
    pub pan: Option<i32>,
    pub fade_ms: u64,
}

pub struct BgmStop {
    pub fade_ms: u64,
}

pub struct BgmFade {
    pub gain: i32,
    pub time_ms: u64,
}

pub struct BgmPan {
    pub pan: i32,
}

pub struct BgmCrossfade {
    pub file: String,
    pub resolved_file: Option<String>,
    pub loop_play: bool,
    pub gain: Option<i32>,
    pub pan: Option<i32>,
    pub time_ms: u64,
}

pub struct SePlay {
    pub id: String,
    pub file: String,
    pub resolved_file: Option<String>,
    pub loop_play: bool,
    pub gain: Option<i32>,
    pub pan: Option<i32>,
    pub fade_ms: u64,
    pub skippable: bool,
}

pub struct SeStop {
    pub id: String,
    pub fade_ms: u64,
}

pub struct SeFade {
    pub id: String,
    pub gain: i32,
    pub time_ms: u64,
}

pub struct SePan {
    pub id: String,
    pub pan: i32,
}

pub struct VoicePlay {
    pub id: String,
    pub file: String,
    pub resolved_file: Option<String>,
    pub gain: Option<i32>,
    pub pan: Option<i32>,
    pub fade_ms: u64,
}

pub struct VideoPlay {
    pub id: Option<String>,
    pub file: String,
    pub resolved_file: Option<String>,
    pub skippable: bool,
    pub loop_play: bool,
}

/// A frame of a video layer, by the name of its texture.
pub struct VideoLayerFrame {
    pub id: String,
    pub texture: String,
    pub width: u32,
    pub height: u32,
}

impl EmptyPayload {
    pub fn payload(&self) -> (out: String)
        ensures
            out@ == object_text(Seq::empty()),
    {
        let fields: Vec<(&'static str, String)> = Vec::new();
        assert(field_views(fields@) =~= Seq::empty());
        object(&fields)
    }
}

/// The members of the payload for background music that starts.
pub open spec fn bgm_play_fields(
    fade_ms: u64,
    file: Seq<char>,
    gain: Option<i32>,
    loop_play: bool,
    pan: Option<i32>,
    resolved_file: Option<Seq<char>>,
) -> Seq<(Seq<char>, Seq<char>)> {
    seq![
        ("fade_ms"@, decimal_text(fade_ms as nat)),
        ("file"@, quoted(file)),
        ("gain"@, opt_number_text(gain)),
        ("loop"@, bool_text(loop_play)),
        ("pan"@, opt_number_text(pan)),
        ("resolved_file"@, opt_quoted(resolved_file)),
    ]
}

impl BgmPlay {
    pub open spec fn fields(self) -> Seq<(Seq<char>, Seq<char>)> {
        bgm_play_fields(self.fade_ms, self.file@, self.gain, self.loop_play, self.pan, opt_text(self.resolved_file))
    }

    /// The payload as a JSON object.
    pub fn payload(&self) -> (out: String)
        ensures
            out@ == object_text(self.fields()),
    {
        let mut fields: Vec<(&'static str, String)> = Vec::new();
        fields.push(("fade_ms", decimal_of(self.fade_ms)));
        fields.push(("file", quote(self.file.as_str())));
        fields.push(("gain", opt_number_of(self.gain)));
        fields.push(("loop", bool_of(self.loop_play)));
        fields.push(("pan", opt_number_of(self.pan)));
        fields.push(("resolved_file", opt_quote(&self.resolved_file)));
        assert(field_views(fields@) =~= self.fields());
        object(&fields)
    }
}

/// The members of the payload for background music that stops.
pub open spec fn bgm_stop_fields(
    fade_ms: u64,
) -> Seq<(Seq<char>, Seq<char>)> {
    seq![
        ("fade_ms"@, decimal_text(fade_ms as nat)),
    ]
}

impl BgmStop {
    pub open spec fn fields(self) -> Seq<(Seq<char>, Seq<char>)> {
        bgm_stop_fields(self.fade_ms)
    }

    /// The payload as a JSON object.
    pub fn payload(&self) -> (out: String)
        ensures
            out@ == object_text(self.fields()),
    {
        let mut fields: Vec<(&'static str, String)> = Vec::new();
        fields.push(("fade_ms", decimal_of(self.fade_ms)));
        assert(field_views(fields@) =~= self.fields());
        object(&fields)
    }
}

/// The members of the payload for background music that fades.
pub open spec fn bgm_fade_fields(
    gain: i32,
    time_ms: u64,
) -> Seq<(Seq<char>, Seq<char>)> {
    seq![
        ("gain"@, signed_text(gain as int)),
        ("time_ms"@, decimal_text(time_ms as nat)),
    ]
}

impl BgmFade {
    pub open spec fn fields(self) -> Seq<(Seq<char>, Seq<char>)> {
        bgm_fade_fields(self.gain, self.time_ms)
    }

    /// The payload as a JSON object.
    pub fn payload(&self) -> (out: String)
        ensures
            out@ == object_text(self.fields()),
    {
        let mut fields: Vec<(&'static str, String)> = Vec::new();
        fields.push(("gain", signed_of(self.gain)));
        fields.push(("time_ms", decimal_of(self.time_ms)));
        assert(field_views(fields@) =~= self.fields());
        object(&fields)
    }
}

/// The members of the payload for background music that moves.
pub open spec fn bgm_pan_fields(
    pan: i32,
) -> Seq<(Seq<char>, Seq<char>)> {
    seq![
        ("pan"@, signed_text(pan as int)),
    ]
}

impl BgmPan {
    pub open spec fn fields(self) -> Seq<(Seq<char>, Seq<char>)> {
        bgm_pan_fields(self.pan)
    }

    /// The payload as a JSON object.
    pub fn payload(&self) -> (out: String)
        ensures
            out@ == object_text(self.fields()),
    {
        let mut fields: Vec<(&'static str, String)> = Vec::new();
        fields.push(("pan", signed_of(self.pan)));
        assert(field_views(fields@) =~= self.fields());
        object(&fields)
    }
}

/// The members of the payload for background music that changes.
pub open spec fn bgm_crossfade_fields(
    file: Seq<char>,
    gain: Option<i32>,
    loop_play: bool,
    pan: Option<i32>,
    resolved_file: Option<Seq<char>>,
    time_ms: u64,
) -> Seq<(Seq<char>, Seq<char>)> {
    seq![
        ("file"@, quoted(file)),
        ("gain"@, opt_number_text(gain)),
        ("loop"@, bool_text(loop_play)),
        ("pan"@, opt_number_text(pan)),
        ("resolved_file"@, opt_quoted(resolved_file)),
        ("time_ms"@, decimal_text(time_ms as nat)),
    ]
}

impl BgmCrossfade {
    pub open spec fn fields(self) -> Seq<(Seq<char>, Seq<char>)> {
        bgm_crossfade_fields(self.file@, self.gain, self.loop_play, self.pan, opt_text(self.resolved_file), self.time_ms)
    }

    /// The payload as a JSON object.
    pub fn payload(&self) -> (out: String)
        ensures
            out@ == object_text(self.fields()),
    {
        let mut fields: Vec<(&'static str, String)> = Vec::new();
        fields.push(("file", quote(self.file.as_str())));
        fields.push(("gain", opt_number_of(self.gain)));
        fields.push(("loop", bool_of(self.loop_play)));
        fields.push(("pan", opt_number_of(self.pan)));
        fields.push(("resolved_file", opt_quote(&self.resolved_file)));
        fields.push(("time_ms", decimal_of(self.time_ms)));
        assert(field_views(fields@) =~= self.fields());
        object(&fields)
    }
}

/// The members of the payload for a sound that starts.
pub open spec fn se_play_fields(
    fade_ms: u64,
    file: Seq<char>,
    gain: Option<i32>,
    id: Seq<char>,
    loop_play: bool,
    pan: Option<i32>,
    resolved_file: Option<Seq<char>>,
    skippable: bool,
) -> Seq<(Seq<char>, Seq<char>)> {
    seq![
        ("fade_ms"@, decimal_text(fade_ms as nat)),
        ("file"@, quoted(file)),
        ("gain"@, opt_number_text(gain)),
        ("id"@, quoted(id)),
        ("loop"@, bool_text(loop_play)),
        ("pan"@, opt_number_text(pan)),
        ("resolved_file"@, opt_quoted(resolved_file)),
        ("skippable"@, bool_text(skippable)),
    ]
}

impl SePlay {
    pub open spec fn fields(self) -> Seq<(Seq<char>, Seq<char>)> {
        se_play_fields(self.fade_ms, self.file@, self.gain, self.id@, self.loop_play, self.pan, opt_text(self.resolved_file), self.skippable)
    }

    /// The payload as a JSON object.
    pub fn payload(&self) -> (out: String)
        ensures
            out@ == object_text(self.fields()),
    {
        let mut fields: Vec<(&'static str, String)> = Vec::new();
        fields.push(("fade_ms", decimal_of(self.fade_ms)));
        fields.push(("file", quote(self.file.as_str())));
        fields.push(("gain", opt_number_of(self.gain)));
        fields.push(("id", quote(self.id.as_str())));
        fields.push(("loop", bool_of(self.loop_play)));
        fields.push(("pan", opt_number_of(self.pan)));
        fields.push(("resolved_file", opt_quote(&self.resolved_file)));
        fields.push(("skippable", bool_of(self.skippable)));
        assert(field_views(fields@) =~= self.fields());
        object(&fields)
    }
}

/// The members of the payload for a sound that stops.
pub open spec fn se_stop_fields(
    fade_ms: u64,
    id: Seq<char>,
) -> Seq<(Seq<char>, Seq<char>)> {
    seq![
        ("fade_ms"@, decimal_text(fade_ms as nat)),
        ("id"@, quoted(id)),
    ]
}

impl SeStop {
    pub open spec fn fields(self) -> Seq<(Seq<char>, Seq<char>)> {
        se_stop_fields(self.fade_ms, self.id@)
    }

    /// The payload as a JSON object.
    pub fn payload(&self) -> (out: String)
        ensures
            out@ == object_text(self.fields()),
    {
        let mut fields: Vec<(&'static str, String)> = Vec::new();
        fields.push(("fade_ms", decimal_of(self.fade_ms)));
        fields.push(("id", quote(self.id.as_str())));
        assert(field_views(fields@) =~= self.fields());
        object(&fields)
    }
}

/// The members of the payload for a sound that fades.
pub open spec fn se_fade_fields(
    gain: i32,
    id: Seq<char>,
    time_ms: u64,
) -> Seq<(Seq<char>, Seq<char>)> {
    seq![
        ("gain"@, signed_text(gain as int)),
        ("id"@, quoted(id)),
        ("time_ms"@, decimal_text(time_ms as nat)),
    ]
}

impl SeFade {
    pub open spec fn fields(self) -> Seq<(Seq<char>, Seq<char>)> {
        se_fade_fields(self.gain, self.id@, self.time_ms)
    }

    /// The payload as a JSON object.
    pub fn payload(&self) -> (out: String)
        ensures
            out@ == object_text(self.fields()),
    {
        let mut fields: Vec<(&'static str, String)> = Vec::new();
        fields.push(("gain", signed_of(self.gain)));
        fields.push(("id", quote(self.id.as_str())));
        fields.push(("time_ms", decimal_of(self.time_ms)));
        assert(field_views(fields@) =~= self.fields());
        object(&fields)
    }
}

/// The members of the payload for a sound that moves.
pub open spec fn se_pan_fields(
    id: Seq<char>,
    pan: i32,
) -> Seq<(Seq<char>, Seq<char>)> {
    seq![
        ("id"@, quoted(id)),
        ("pan"@, signed_text(pan as int)),
    ]
}

impl SePan {
    pub open spec fn fields(self) -> Seq<(Seq<char>, Seq<char>)> {
        se_pan_fields(self.id@, self.pan)
    }

    /// The payload as a JSON object.
    pub fn payload(&self) -> (out: String)
        ensures
            out@ == object_text(self.fields()),
    {
        let mut fields: Vec<(&'static str, String)> = Vec::new();
        fields.push(("id", quote(self.id.as_str())));
        fields.push(("pan", signed_of(self.pan)));
        assert(field_views(fields@) =~= self.fields());
        object(&fields)
    }
}

/// The members of the payload for a voice that starts.
pub open spec fn voice_play_fields(
    fade_ms: u64,
    file: Seq<char>,
    gain: Option<i32>,
    id: Seq<char>,
    pan: Option<i32>,
    resolved_file: Option<Seq<char>>,
) -> Seq<(Seq<char>, Seq<char>)> {
    seq![
        ("fade_ms"@, decimal_text(fade_ms as nat)),
        ("file"@, quoted(file)),
        ("gain"@, opt_number_text(gain)),
        ("id"@, quoted(id)),
        ("pan"@, opt_number_text(pan)),
        ("resolved_file"@, opt_quoted(resolved_file)),
    ]
}

impl VoicePlay {
    pub open spec fn fields(self) -> Seq<(Seq<char>, Seq<char>)> {
        voice_play_fields(self.fade_ms, self.file@, self.gain, self.id@, self.pan, opt_text(self.resolved_file))
    }

    /// The payload as a JSON object.
    pub fn payload(&self) -> (out: String)
        ensures
            out@ == object_text(self.fields()),
    {
        let mut fields: Vec<(&'static str, String)> = Vec::new();
        fields.push(("fade_ms", decimal_of(self.fade_ms)));
        fields.push(("file", quote(self.file.as_str())));
        fields.push(("gain", opt_number_of(self.gain)));
        fields.push(("id", quote(self.id.as_str())));
        fields.push(("pan", opt_number_of(self.pan)));
        fields.push(("resolved_file", opt_quote(&self.resolved_file)));
        assert(field_views(fields@) =~= self.fields());
        object(&fields)
    }
}

/// The members of the payload for a video that starts.
pub open spec fn video_play_fields(
    file: Seq<char>,
    id: Option<Seq<char>>,
    loop_play: bool,
    resolved_file: Option<Seq<char>>,
    skippable: bool,
) -> Seq<(Seq<char>, Seq<char>)> {
    seq![
        ("file"@, quoted(file)),
        ("id"@, opt_quoted(id)),
        ("loop"@, bool_text(loop_play)),
        ("resolved_file"@, opt_quoted(resolved_file)),
        ("skippable"@, bool_text(skippable)),
    ]
}

impl VideoPlay {
    pub open spec fn fields(self) -> Seq<(Seq<char>, Seq<char>)> {
        video_play_fields(self.file@, opt_text(self.id), self.loop_play, opt_text(self.resolved_file), self.skippable)
    }

    /// The payload as a JSON object.
    pub fn payload(&self) -> (out: String)
        ensures
            out@ == object_text(self.fields()),
    {
        let mut fields: Vec<(&'static str, String)> = Vec::new();
        fields.push(("file", quote(self.file.as_str())));
        fields.push(("id", opt_quote(&self.id)));
        fields.push(("loop", bool_of(self.loop_play)));
        fields.push(("resolved_file", opt_quote(&self.resolved_file)));
        fields.push(("skippable", bool_of(self.skippable)));
        assert(field_views(fields@) =~= self.fields());
        object(&fields)
    }
}

/// The members of the payload for a frame of a video layer.
pub open spec fn video_layer_frame_fields(
    height: u32,
    id: Seq<char>,
    texture: Seq<char>,
    width: u32,
) -> Seq<(Seq<char>, Seq<char>)> {
    seq![
        ("height"@, decimal_text(height as nat)),
        ("id"@, quoted(id)),
        ("texture"@, quoted(texture)),
        ("width"@, decimal_text(width as nat)),
    ]
}

impl VideoLayerFrame {
    pub open spec fn fields(self) -> Seq<(Seq<char>, Seq<char>)> {
        video_layer_frame_fields(self.height, self.id@, self.texture@, self.width)
    }

    /// The payload as a JSON object.
    pub fn payload(&self) -> (out: String)
        ensures
            out@ == object_text(self.fields()),
    {
        let mut fields: Vec<(&'static str, String)> = Vec::new();
        fields.push(("height", decimal_of(self.height as u64)));
        fields.push(("id", quote(self.id.as_str())));
        fields.push(("texture", quote(self.texture.as_str())));
        fields.push(("width", decimal_of(self.width as u64)));
        assert(field_views(fields@) =~= self.fields());
        object(&fields)
    }
}

/// What a frame of a video layer tells the host.
pub proof fn law_layer_frames_are_told(frame: VideoLayerFrame)
    ensures
        frame.fields() == seq![
            ("height"@, decimal_text(frame.height as nat)),
            ("id"@, quoted(frame.id@)),
            ("texture"@, quoted(frame.texture@)),
            ("width"@, decimal_text(frame.width as nat)),
        ],
{
}

/// The members of a payload are those of the command, each under its own name.
pub proof fn law_payloads_hold_their_commands(
    bgm: BgmPlay,
    change: BgmCrossfade,
    se: SePlay,
    voice: VoicePlay,
    video: VideoPlay,
)
    ensures
        bgm.fields() == seq![
            ("fade_ms"@, decimal_text(bgm.fade_ms as nat)),
            ("file"@, quoted(bgm.file@)),
            ("gain"@, opt_number_text(bgm.gain)),
            ("loop"@, bool_text(bgm.loop_play)),
            ("pan"@, opt_number_text(bgm.pan)),
            ("resolved_file"@, opt_quoted(opt_text(bgm.resolved_file))),
        ],
        change.fields() == seq![
            ("file"@, quoted(change.file@)),
            ("gain"@, opt_number_text(change.gain)),
            ("loop"@, bool_text(change.loop_play)),
            ("pan"@, opt_number_text(change.pan)),
            ("resolved_file"@, opt_quoted(opt_text(change.resolved_file))),
            ("time_ms"@, decimal_text(change.time_ms as nat)),
        ],
        se.fields() == seq![
            ("fade_ms"@, decimal_text(se.fade_ms as nat)),
            ("file"@, quoted(se.file@)),
            ("gain"@, opt_number_text(se.gain)),
            ("id"@, quoted(se.id@)),
            ("loop"@, bool_text(se.loop_play)),
            ("pan"@, opt_number_text(se.pan)),
            ("resolved_file"@, opt_quoted(opt_text(se.resolved_file))),
            ("skippable"@, bool_text(se.skippable)),
        ],
        voice.fields() == seq![
            ("fade_ms"@, decimal_text(voice.fade_ms as nat)),
            ("file"@, quoted(voice.file@)),
            ("gain"@, opt_number_text(voice.gain)),
            ("id"@, quoted(voice.id@)),
            ("pan"@, opt_number_text(voice.pan)),
            ("resolved_file"@, opt_quoted(opt_text(voice.resolved_file))),
        ],
        video.fields() == seq![
            ("file"@, quoted(video.file@)),
            ("id"@, opt_quoted(opt_text(video.id))),
            ("loop"@, bool_text(video.loop_play)),
            ("resolved_file"@, opt_quoted(opt_text(video.resolved_file))),
            ("skippable"@, bool_text(video.skippable)),
        ],
{
}

/// The kinds have the names that hosts know them by.
pub proof fn law_kinds_have_their_names(kind: HostMediaCommandKind)
    ensures
        kind_name(kind) == (match kind {
            HostMediaCommandKind::AudioSetVolume => "audio_set_volume"@,
            HostMediaCommandKind::AudioBgmPlay => "audio_bgm_play"@,
            HostMediaCommandKind::AudioBgmStop => "audio_bgm_stop"@,
            HostMediaCommandKind::AudioBgmFade => "audio_bgm_fade"@,
            HostMediaCommandKind::AudioBgmPan => "audio_bgm_pan"@,
            HostMediaCommandKind::AudioBgmCrossfade => "audio_bgm_crossfade"@,
            HostMediaCommandKind::AudioSePlay => "audio_se_play"@,
            HostMediaCommandKind::AudioSeStop => "audio_se_stop"@,
            HostMediaCommandKind::AudioSeFade => "audio_se_fade"@,
            HostMediaCommandKind::AudioSePan => "audio_se_pan"@,
            HostMediaCommandKind::AudioVoicePlay => "audio_voice_play"@,
            HostMediaCommandKind::AudioStopAll => "audio_stop_all"@,
            HostMediaCommandKind::VideoPlay => "video_play"@,
            HostMediaCommandKind::VideoStopAll => "video_stop_all"@,
            HostMediaCommandKind::VideoLayerFrame => "video_layer_frame"@,
        }),
{
}

} // verus!
