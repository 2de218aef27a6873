//! Media events of scripts: what the sound and video engines do, and what the
//! host is told.
use crate::audio::{FinishHandler, FinishRecord};
use crate::host_media::{
    bgm_crossfade_fields, bgm_fade_fields, bgm_pan_fields, bgm_play_fields, bgm_stop_fields,
    se_fade_fields, se_pan_fields, se_play_fields, se_stop_fields, video_play_fields,
    voice_play_fields, BgmCrossfade, BgmFade, BgmPan, BgmPlay, BgmStop, EmptyPayload,
    HostMediaCommandKind, SeFade, SePan, SePlay, SeStop, VideoPlay, VoicePlay,
};
use crate::json::{object_text, quoted};
use crate::name_map::NameMap;
use crate::save::{AudioSnapshot, ChannelRecord, SnapshotRecord};
use crate::strs::{
    concat, copy_opt, copy_text, decimal_of, decimal_text, lemma_decimal_reads_back, lemma_texts_push,
    opt_text, same_text, signed_text, texts,
};
use vstd::prelude::*;

verus! {

/// A media event of a script.
pub enum MediaEvent {
    BgmPlay {
        file: String,
        loop_play: bool,
        gain: Option<i32>,
        pan: Option<i32>,
        fade_time: Option<u64>,
    },
    BgmStop { fade_time: Option<u64> },
    BgmFade { gain: i32, time: u64 },
    BgmPan { pan: i32 },
    BgmCrossFade { file: String, loop_play: bool, gain: Option<i32>, pan: Option<i32>, time: u64 },
    SePlay {
        id: String,
        file: String,
        loop_play: bool,
        gain: Option<i32>,
        pan: Option<i32>,
        fade_time: Option<u64>,
        skippable: bool,
    },
    SeStop { id: String, fade_time: Option<u64> },
    SeFade { id: String, gain: i32, time: u64 },
    SePan { id: String, pan: i32 },
    VoicePlay { file: String, gain: Option<i32>, pan: Option<i32>, fade_time: Option<u64> },
    StopAllSounds,
    /// An empty id stands for the background music.
    SoundFinishHandler { id: String, handler: FinishHandler },
    SoundFinishHandlerDel { id: String },
    VideoPlay { id: Option<String>, file: String, skip: bool, loop_play: bool },
    VideoFinishHandler { handler: FinishHandler },
    VideoFinishHandlerDel,
}

/// How a sound is played.
#[derive(Clone, Copy, Debug, PartialEq, Eq, Structural)]
pub struct SoundSettings {
    pub loop_play: bool,
    pub gain: Option<i32>,
    pub pan: Option<i32>,
    pub fade_in_ms: u64,
    pub skippable: bool,
}

/// What the sound or video engine does.
pub enum MediaCall {
    PlayBgm { file: String, settings: SoundSettings },
    StopBgm { fade_ms: u64 },
    FadeBgm { gain: i32, time_ms: u64 },
    PanBgm { pan: i32 },
    CrossfadeBgm { file: String, settings: SoundSettings },
    PlaySe { id: String, file: String, settings: SoundSettings },
    StopSe { id: String, fade_ms: u64 },
    FadeSe { id: String, gain: i32, time_ms: u64 },
    PanSe { id: String, pan: i32 },
    PlayVoice { id: String, file: String, settings: SoundSettings },
    StopAllSounds,
    /// Without an id the background music is meant.
    SetSoundFinish { id: Option<String>, handler: FinishHandler },
    RemoveSoundFinish { id: Option<String> },
    /// Play on a layer, which shows the video's texture from then on.
    PlayLayer { id: String, file: String, skippable: bool, loop_play: bool },
    PlayFullscreen { file: String, skippable: bool, loop_play: bool },
    SetVideoFinish { handler: FinishHandler },
    RemoveVideoFinish,
}

/// What such a call holds.
pub enum CallRecord {
    PlayBgm { file: Seq<char>, settings: SoundSettings },
    StopBgm { fade_ms: u64 },
    FadeBgm { gain: i32, time_ms: u64 },
    PanBgm { pan: i32 },
    CrossfadeBgm { file: Seq<char>, settings: SoundSettings },
    PlaySe { id: Seq<char>, file: Seq<char>, settings: SoundSettings },
    StopSe { id: Seq<char>, fade_ms: u64 },
    FadeSe { id: Seq<char>, gain: i32, time_ms: u64 },
    PanSe { id: Seq<char>, pan: i32 },
    PlayVoice { id: Seq<char>, file: Seq<char>, settings: SoundSettings },
    StopAllSounds,
    SetSoundFinish { id: Option<Seq<char>>, handler: FinishRecord },
    RemoveSoundFinish { id: Option<Seq<char>> },
    PlayLayer { id: Seq<char>, file: Seq<char>, skippable: bool, loop_play: bool },
    PlayFullscreen { file: Seq<char>, skippable: bool, loop_play: bool },
    SetVideoFinish { handler: FinishRecord },
    RemoveVideoFinish,
}

impl View for MediaCall {
    type V = CallRecord;

    open spec fn view(&self) -> CallRecord {
        match self {
            MediaCall::PlayBgm { file, settings } => CallRecord::PlayBgm {
                file: file@,
                settings: *settings,
            },
            MediaCall::StopBgm { fade_ms } => CallRecord::StopBgm { fade_ms: *fade_ms },
            MediaCall::FadeBgm { gain, time_ms } => CallRecord::FadeBgm {
                gain: *gain,
                time_ms: *time_ms,
            },
            MediaCall::PanBgm { pan } => CallRecord::PanBgm { pan: *pan },
            MediaCall::CrossfadeBgm { file, settings } => CallRecord::CrossfadeBgm {
                file: file@,
                settings: *settings,
            },
            MediaCall::PlaySe { id, file, settings } => CallRecord::PlaySe {
                id: id@,
                file: file@,
                settings: *settings,
            },
            MediaCall::StopSe { id, fade_ms } => CallRecord::StopSe { id: id@, fade_ms: *fade_ms },
            MediaCall::FadeSe { id, gain, time_ms } => CallRecord::FadeSe {
                id: id@,
                gain: *gain,
                time_ms: *time_ms,
            },
            MediaCall::PanSe { id, pan } => CallRecord::PanSe { id: id@, pan: *pan },
            MediaCall::PlayVoice { id, file, settings } => CallRecord::PlayVoice {
                id: id@,
                file: file@,
                settings: *settings,
            },
            MediaCall::StopAllSounds => CallRecord::StopAllSounds,
            MediaCall::SetSoundFinish { id, handler } => CallRecord::SetSoundFinish {
                id: opt_text(*id),
                handler: handler@,
            },
            MediaCall::RemoveSoundFinish { id } => CallRecord::RemoveSoundFinish {
                id: opt_text(*id),
            },
            MediaCall::PlayLayer { id, file, skippable, loop_play } => CallRecord::PlayLayer {
                id: id@,
                file: file@,
                skippable: *skippable,
                loop_play: *loop_play,
            },
            MediaCall::PlayFullscreen { file, skippable, loop_play } =>
                CallRecord::PlayFullscreen {
                file: file@,
                skippable: *skippable,
                loop_play: *loop_play,
            },
            MediaCall::SetVideoFinish { handler } => CallRecord::SetVideoFinish {
                handler: handler@,
            },
            MediaCall::RemoveVideoFinish => CallRecord::RemoveVideoFinish,
        }
    }
}

/// The records of calls.
pub open spec fn call_records(calls: Seq<MediaCall>) -> Seq<CallRecord> {
    Seq::new(calls.len(), |i: int| calls[i]@)
}

/// What a media event comes to: a call, and a command to the host where it has
/// one.
pub struct MediaPlan {
    pub call: MediaCall,
    pub command: Option<(HostMediaCommandKind, String)>,
}

/// A time that may be missing, which means none.
pub open spec fn or_zero(time: Option<u64>) -> u64 {
    match time {
        Some(t) => t,
        None => 0,
    }
}

fn time_or_zero(time: Option<u64>) -> (out: u64)
    ensures
        out == or_zero(time),
{
    match time {
        Some(t) => t,
        None => 0,
    }
}

/// The number of the next voice.
pub open spec fn next_serial(serial: u64) -> u64 {
    if serial == u64::MAX {
        serial
    } else {
        (serial + 1) as u64
    }
}

/// The name of a voice by its number.
pub open spec fn voice_name(serial: u64) -> Seq<char> {
    "voice:"@ + decimal_text(serial as nat)
}

/// An empty id stands for the background music.
pub open spec fn sound_id(id: Seq<char>) -> Option<Seq<char>> {
    if id.len() == 0 {
        None
    } else {
        Some(id)
    }
}

fn sound_id_of(id: &str) -> (out: Option<String>)
    ensures
        opt_text(out) == sound_id(id@),
{
    if id.is_empty() {
        None
    } else {
        Some(copy_text(id))
    }
}

/// The number of voices after an event.
pub open spec fn serial_after(event: MediaEvent, serial: u64) -> u64 {
    match event {
        MediaEvent::VoicePlay { .. } => next_serial(serial),
        _ => serial,
    }
}

/// The call of an event.
pub open spec fn media_call(event: MediaEvent, serial: u64) -> CallRecord {
    match event {
        MediaEvent::BgmPlay { file, loop_play, gain, pan, fade_time } => CallRecord::PlayBgm {
            file: file@,
            settings: SoundSettings {
                loop_play,
                gain,
                pan,
                fade_in_ms: or_zero(fade_time),
                skippable: false,
            },
        },
        MediaEvent::BgmStop { fade_time } => CallRecord::StopBgm { fade_ms: or_zero(fade_time) },
        MediaEvent::BgmFade { gain, time } => CallRecord::FadeBgm { gain, time_ms: time },
        MediaEvent::BgmPan { pan } => CallRecord::PanBgm { pan },
        MediaEvent::BgmCrossFade { file, loop_play, gain, pan, time } => CallRecord::CrossfadeBgm {
            file: file@,
            settings: SoundSettings { loop_play, gain, pan, fade_in_ms: time, skippable: false },
        },
        MediaEvent::SePlay { id, file, loop_play, gain, pan, fade_time, skippable } =>
            CallRecord::PlaySe {
            id: id@,
            file: file@,
            settings: SoundSettings {
                loop_play,
                gain,
                pan,
                fade_in_ms: or_zero(fade_time),
                skippable,
            },
        },
        MediaEvent::SeStop { id, fade_time } => CallRecord::StopSe {
            id: id@,
            fade_ms: or_zero(fade_time),
        },
        MediaEvent::SeFade { id, gain, time } => CallRecord::FadeSe {
            id: id@,
            gain,
            time_ms: time,
        },
        MediaEvent::SePan { id, pan } => CallRecord::PanSe { id: id@, pan },
        MediaEvent::VoicePlay { file, gain, pan, fade_time } => CallRecord::PlayVoice {
            id: voice_name(next_serial(serial)),
            file: file@,
            settings: SoundSettings {
                loop_play: false,
                gain,
                pan,
                fade_in_ms: or_zero(fade_time),
                skippable: false,
            },
        },
        MediaEvent::StopAllSounds => CallRecord::StopAllSounds,
        MediaEvent::SoundFinishHandler { id, handler } => CallRecord::SetSoundFinish {
            id: sound_id(id@),
            handler: handler@,
        },
        MediaEvent::SoundFinishHandlerDel { id } => CallRecord::RemoveSoundFinish {
            id: sound_id(id@),
        },
        MediaEvent::VideoPlay { id, file, skip, loop_play } => match id {
            Some(layer) => CallRecord::PlayLayer {
                id: layer@,
                file: file@,
                skippable: skip,
                loop_play,
            },
            None => CallRecord::PlayFullscreen { file: file@, skippable: skip, loop_play },
        },
        MediaEvent::VideoFinishHandler { handler } => CallRecord::SetVideoFinish {
            handler: handler@,
        },
        MediaEvent::VideoFinishHandlerDel => CallRecord::RemoveVideoFinish,
    }
}

/// The command of an event to the host. A file comes with the path that it
/// resolves to beside it.
pub open spec fn media_command(
    event: MediaEvent,
    serial: u64,
    resolved: Seq<char>,
) -> Option<(HostMediaCommandKind, Seq<char>)> {
    match event {
        MediaEvent::BgmPlay { file, loop_play, gain, pan, fade_time } => Some(
            (
                HostMediaCommandKind::AudioBgmPlay,
                object_text(
                    bgm_play_fields(
                        or_zero(fade_time),
                        file@,
                        gain,
                        loop_play,
                        pan,
                        Some(resolved),
                    ),
                ),
            ),
        ),
        MediaEvent::BgmStop { fade_time } => Some(
            (
                HostMediaCommandKind::AudioBgmStop,
                object_text(bgm_stop_fields(or_zero(fade_time))),
            ),
        ),
        MediaEvent::BgmFade { gain, time } => Some(
            (HostMediaCommandKind::AudioBgmFade, object_text(bgm_fade_fields(gain, time))),
        ),
        MediaEvent::BgmPan { pan } => Some(
            (HostMediaCommandKind::AudioBgmPan, object_text(bgm_pan_fields(pan))),
        ),
        MediaEvent::BgmCrossFade { file, loop_play, gain, pan, time } => Some(
            (
                HostMediaCommandKind::AudioBgmCrossfade,
                object_text(
                    bgm_crossfade_fields(
                        file@,
                        gain,
                        loop_play,
                        pan,
                        Some(resolved),
                        time,
                    ),
                ),
            ),
        ),
        MediaEvent::SePlay { id, file, loop_play, gain, pan, fade_time, skippable } => Some(
            (
                HostMediaCommandKind::AudioSePlay,
                object_text(
                    se_play_fields(
                        or_zero(fade_time),
                        file@,
                        gain,
                        id@,
                        loop_play,
                        pan,
                        Some(resolved),
                        skippable,
                    ),
                ),
            ),
        ),
        MediaEvent::SeStop { id, fade_time } => Some(
            (
                HostMediaCommandKind::AudioSeStop,
                object_text(se_stop_fields(or_zero(fade_time), id@)),
            ),
        ),
        MediaEvent::SeFade { id, gain, time } => Some(
            (HostMediaCommandKind::AudioSeFade, object_text(se_fade_fields(gain, id@, time))),
        ),
        MediaEvent::SePan { id, pan } => Some(
            (HostMediaCommandKind::AudioSePan, object_text(se_pan_fields(id@, pan))),
        ),
        MediaEvent::VoicePlay { file, gain, pan, fade_time } => Some(
            (
                HostMediaCommandKind::AudioVoicePlay,
                object_text(
                    voice_play_fields(
                        or_zero(fade_time),
                        file@,
                        gain,
                        voice_name(next_serial(serial)),
                        pan,
                        Some(resolved),
                    ),
                ),
            ),
        ),
        MediaEvent::StopAllSounds => Some(
            (HostMediaCommandKind::AudioStopAll, object_text(Seq::empty())),
        ),
        MediaEvent::VideoPlay { id, file, skip, loop_play } => Some(
            (
                HostMediaCommandKind::VideoPlay,
                object_text(
                    video_play_fields(
                        file@,
                        opt_text(id),
                        loop_play,
                        Some(resolved),
                        skip,
                    ),
                ),
            ),
        ),
        _ => None,
    }
}

pub open spec fn command_view(command: Option<(HostMediaCommandKind, String)>) -> Option<
    (HostMediaCommandKind, Seq<char>),
> {
    match command {
        Some((kind, payload)) => Some((kind, payload@)),
        None => None,
    }
}

/// Plans a sound event.
fn plan_audio(event: &MediaEvent, voice_serial: &mut u64, resolved: &str) -> (out: Option<
    MediaPlan,
>)
    ensures
        *final(voice_serial) == serial_after(*event, *old(voice_serial)),
        out is None <==> (*event is VideoPlay || *event is VideoFinishHandler
            || *event is VideoFinishHandlerDel),
        out matches Some(plan) ==> plan.call@ == media_call(*event, *old(voice_serial))
            && command_view(plan.command) == media_command(
            *event,
            *old(voice_serial),
            resolved@,
        ),
{
    match event {
        MediaEvent::BgmPlay { file, loop_play, gain, pan, fade_time } => {
            let fade: u64 = time_or_zero(*fade_time);
            let payload = BgmPlay {
                file: copy_text(file.as_str()),
                resolved_file: Some(copy_text(resolved)),
                loop_play: *loop_play,
                gain: *gain,
                pan: *pan,
                fade_ms: fade,
            };
            let settings = SoundSettings {
                loop_play: *loop_play,
                gain: *gain,
                pan: *pan,
                fade_in_ms: fade,
                skippable: false,
            };
            Some(
                MediaPlan {
                    call: MediaCall::PlayBgm { file: copy_text(file.as_str()), settings },
                    command: Some((HostMediaCommandKind::AudioBgmPlay, payload.payload())),
                },
            )
        },
        MediaEvent::BgmStop { fade_time } => {
            let fade: u64 = time_or_zero(*fade_time);
            let payload = BgmStop { fade_ms: fade };
            Some(
                MediaPlan {
                    call: MediaCall::StopBgm { fade_ms: fade },
                    command: Some((HostMediaCommandKind::AudioBgmStop, payload.payload())),
                },
            )
        },
        MediaEvent::BgmFade { gain, time } => {
            let payload = BgmFade { gain: *gain, time_ms: *time };
            Some(
                MediaPlan {
                    call: MediaCall::FadeBgm { gain: *gain, time_ms: *time },
                    command: Some((HostMediaCommandKind::AudioBgmFade, payload.payload())),
                },
            )
        },
        MediaEvent::BgmPan { pan } => {
            let payload = BgmPan { pan: *pan };
            Some(
                MediaPlan {
                    call: MediaCall::PanBgm { pan: *pan },
                    command: Some((HostMediaCommandKind::AudioBgmPan, payload.payload())),
                },
            )
        },
        MediaEvent::BgmCrossFade { file, loop_play, gain, pan, time } => {
            let payload = BgmCrossfade {
                file: copy_text(file.as_str()),
                resolved_file: Some(copy_text(resolved)),
                loop_play: *loop_play,
                gain: *gain,
                pan: *pan,
                time_ms: *time,
            };
            let settings = SoundSettings {
                loop_play: *loop_play,
                gain: *gain,
                pan: *pan,
                fade_in_ms: *time,
                skippable: false,
            };
            Some(
                MediaPlan {
                    call: MediaCall::CrossfadeBgm { file: copy_text(file.as_str()), settings },
                    command: Some((HostMediaCommandKind::AudioBgmCrossfade, payload.payload())),
                },
            )
        },
        MediaEvent::SePlay { id, file, loop_play, gain, pan, fade_time, skippable } => {
            let fade: u64 = time_or_zero(*fade_time);
            let payload = SePlay {
                id: copy_text(id.as_str()),
                file: copy_text(file.as_str()),
                resolved_file: Some(copy_text(resolved)),
                loop_play: *loop_play,
                gain: *gain,
                pan: *pan,
                fade_ms: fade,
                skippable: *skippable,
            };
            let settings = SoundSettings {
                loop_play: *loop_play,
                gain: *gain,
                pan: *pan,
                fade_in_ms: fade,
                skippable: *skippable,
            };
            Some(
                MediaPlan {
                    call: MediaCall::PlaySe {
                        id: copy_text(id.as_str()),
                        file: copy_text(file.as_str()),
                        settings,
                    },
                    command: Some((HostMediaCommandKind::AudioSePlay, payload.payload())),
                },
            )
        },
        MediaEvent::SeStop { id, fade_time } => {
            let fade: u64 = time_or_zero(*fade_time);
            let payload = SeStop { id: copy_text(id.as_str()), fade_ms: fade };
            Some(
                MediaPlan {
                    call: MediaCall::StopSe { id: copy_text(id.as_str()), fade_ms: fade },
                    command: Some((HostMediaCommandKind::AudioSeStop, payload.payload())),
                },
            )
        },
        MediaEvent::SeFade { id, gain, time } => {
            let payload = SeFade { id: copy_text(id.as_str()), gain: *gain, time_ms: *time };
            Some(
                MediaPlan {
                    call: MediaCall::FadeSe {
                        id: copy_text(id.as_str()),
                        gain: *gain,
                        time_ms: *time,
                    },
                    command: Some((HostMediaCommandKind::AudioSeFade, payload.payload())),
                },
            )
        },
        MediaEvent::SePan { id, pan } => {
            let payload = SePan { id: copy_text(id.as_str()), pan: *pan };
            Some(
                MediaPlan {
                    call: MediaCall::PanSe { id: copy_text(id.as_str()), pan: *pan },
                    command: Some((HostMediaCommandKind::AudioSePan, payload.payload())),
                },
            )
        },
        MediaEvent::VoicePlay { file, gain, pan, fade_time } => {
            *voice_serial = voice_serial.saturating_add(1);
            let number = decimal_of(*voice_serial);
            let voice_id = concat("voice:", number.as_str());
            let fade: u64 = time_or_zero(*fade_time);
            let payload = VoicePlay {
                id: copy_text(voice_id.as_str()),
                file: copy_text(file.as_str()),
                resolved_file: Some(copy_text(resolved)),
                gain: *gain,
                pan: *pan,
                fade_ms: fade,
            };
            let settings = SoundSettings {
                loop_play: false,
                gain: *gain,
                pan: *pan,
                fade_in_ms: fade,
                skippable: false,
            };
            Some(
                MediaPlan {
                    call: MediaCall::PlayVoice {
                        id: voice_id,
                        file: copy_text(file.as_str()),
                        settings,
                    },
                    command: Some((HostMediaCommandKind::AudioVoicePlay, payload.payload())),
                },
            )
        },
        MediaEvent::StopAllSounds => {
            let payload = EmptyPayload {  };
            Some(
                MediaPlan {
                    call: MediaCall::StopAllSounds,
                    command: Some((HostMediaCommandKind::AudioStopAll, payload.payload())),
                },
            )
        },
        MediaEvent::SoundFinishHandler { id, handler } => Some(
            MediaPlan {
                call: MediaCall::SetSoundFinish {
                    id: sound_id_of(id.as_str()),
                    handler: handler.copy(),
                },
                command: None,
            },
        ),
        MediaEvent::SoundFinishHandlerDel { id } => Some(
            MediaPlan {
                call: MediaCall::RemoveSoundFinish { id: sound_id_of(id.as_str()) },
                command: None,
            },
        ),
        _ => None,
    }
}

/// Plans a media event: what the sound or video engine does, and what the host
/// is told. `resolved` is the path that the event's file resolves to.
pub fn apply_media_event(
    event: &MediaEvent,
    voice_serial: &mut u64,
    resolved: &str,
) -> (out: MediaPlan)
    ensures
        *final(voice_serial) == serial_after(*event, *old(voice_serial)),
        out.call@ == media_call(*event, *old(voice_serial)),
        command_view(out.command) == media_command(*event, *old(voice_serial), resolved@),
{
    match event {
        MediaEvent::VideoPlay { id, file, skip, loop_play } => {
            let payload = VideoPlay {
                id: copy_opt(id),
                file: copy_text(file.as_str()),
                resolved_file: Some(copy_text(resolved)),
                skippable: *skip,
                loop_play: *loop_play,
            };
            let call = match id {
                Some(layer) => MediaCall::PlayLayer {
                    id: copy_text(layer.as_str()),
                    file: copy_text(file.as_str()),
                    skippable: *skip,
                    loop_play: *loop_play,
                },
                None => MediaCall::PlayFullscreen {
                    file: copy_text(file.as_str()),
                    skippable: *skip,
                    loop_play: *loop_play,
                },
            };
            MediaPlan {
                call,
                command: Some((HostMediaCommandKind::VideoPlay, payload.payload())),
            }
        },
        MediaEvent::VideoFinishHandler { handler } => MediaPlan {
            call: MediaCall::SetVideoFinish { handler: handler.copy() },
            command: None,
        },
        MediaEvent::VideoFinishHandlerDel => MediaPlan {
            call: MediaCall::RemoveVideoFinish,
            command: None,
        },
        _ => match plan_audio(event, voice_serial, resolved) {
            Some(plan) => plan,
            None => MediaPlan { call: MediaCall::StopAllSounds, command: None },
        },
    }
}

/// Voices go by different names as long as the numbers last: each voice has the
/// next number, and no two numbers have one name.
pub proof fn law_voices_are_told_apart(first: u64, second: u64)
    requires
        first != second,
    ensures
        voice_name(first) != voice_name(second),
        first < u64::MAX ==> next_serial(first) > first,
{
    let here = decimal_text(first as nat);
    let there = decimal_text(second as nat);
    lemma_decimal_reads_back(first as nat);
    lemma_decimal_reads_back(second as nat);
    let head = "voice:"@;
    assert((head + here).skip(head.len() as int) =~= here);
    assert((head + there).skip(head.len() as int) =~= there);
}

// ── All at once ────────────────────────────────────────────────

/// The commands as the host sees them.
pub open spec fn commands_view(commands: Seq<(HostMediaCommandKind, String)>) -> Seq<
    (HostMediaCommandKind, Seq<char>),
> {
    Seq::new(commands.len(), |i: int| (commands[i].0, commands[i].1@))
}

/// What silences everything.
pub struct MediaStop {
    /// What the host is told: sounds stop, then videos.
    pub commands: Vec<(HostMediaCommandKind, String)>,
    /// The layers that no longer show a video.
    pub layers: Vec<String>,
}

/// The ids of layers that show videos.
pub open spec fn layer_ids(layers: Seq<VideoLayer>) -> Seq<Seq<char>> {
    Seq::new(layers.len(), |i: int| layers[i].id@)
}

/// Plans how everything is silenced: every layer that shows a video, whether it
/// plays or not, shows it no longer.
pub fn stop_all_media(layers: &Vec<VideoLayer>) -> (out: MediaStop)
    ensures
        commands_view(out.commands@) == seq![
            (HostMediaCommandKind::AudioStopAll, object_text(Seq::empty())),
            (HostMediaCommandKind::VideoStopAll, object_text(Seq::empty())),
        ],
        texts(out.layers@) == layer_ids(layers@),
{
    let empty = EmptyPayload {  };
    let mut commands: Vec<(HostMediaCommandKind, String)> = Vec::new();
    commands.push((HostMediaCommandKind::AudioStopAll, empty.payload()));
    commands.push((HostMediaCommandKind::VideoStopAll, empty.payload()));
    assert(commands_view(commands@) =~= seq![
        (HostMediaCommandKind::AudioStopAll, object_text(Seq::empty())),
        (HostMediaCommandKind::VideoStopAll, object_text(Seq::empty())),
    ]);
    let mut ids: Vec<String> = Vec::new();
    let mut i: usize = 0;
    while i < layers.len()
        invariant
            i <= layers.len(),
            texts(ids@) == layer_ids(layers@).take(i as int),
        decreases layers.len() - i,
    {
        let id = copy_text(layers[i].id.as_str());
        proof {
            lemma_texts_push(ids@, id);
        }
        ids.push(id);
        i += 1;
        assert(texts(ids@) =~= layer_ids(layers@).take(i as int));
    }
    assert(layer_ids(layers@).take(i as int) =~= layer_ids(layers@));
    MediaStop { commands, layers: ids }
}

/// The command that starts kept background music.
pub open spec fn bgm_command(c: ChannelRecord, resolved: Seq<char>) -> (
    HostMediaCommandKind,
    Seq<char>,
) {
    (
        HostMediaCommandKind::AudioBgmPlay,
        object_text(
            bgm_play_fields(
                0,
                c.file,
                Some(c.gain),
                c.loop_play,
                Some(c.pan),
                Some(resolved),
            ),
        ),
    )
}

/// The command that starts a kept sound.
pub open spec fn se_command(c: ChannelRecord, resolved: Seq<char>) -> (
    HostMediaCommandKind,
    Seq<char>,
) {
    (
        HostMediaCommandKind::AudioSePlay,
        object_text(
            se_play_fields(
                0,
                c.file,
                Some(c.gain),
                c.id,
                c.loop_play,
                Some(c.pan),
                Some(resolved),
                c.skippable,
            ),
        ),
    )
}

/// The command that starts a kept voice.
pub open spec fn voice_command(c: ChannelRecord, resolved: Seq<char>) -> (
    HostMediaCommandKind,
    Seq<char>,
) {
    (
        HostMediaCommandKind::AudioVoicePlay,
        object_text(
            voice_play_fields(
                0,
                c.file,
                Some(c.gain),
                c.id,
                Some(c.pan),
                Some(resolved),
            ),
        ),
    )
}

/// How many sounds a snapshot holds.
pub open spec fn sound_count(snapshot: SnapshotRecord) -> int {
    music_count(snapshot) + snapshot.se.len() + snapshot.voice.len()
}

/// How many pieces of background music a snapshot holds.
pub open spec fn music_count(snapshot: SnapshotRecord) -> int {
    if snapshot.bgm is Some {
        1
    } else {
        0
    }
}

/// The commands that start the sounds of a snapshot.
pub open spec fn se_commands(snapshot: SnapshotRecord, paths: Seq<Seq<char>>) -> Seq<
    (HostMediaCommandKind, Seq<char>),
> {
    Seq::new(
        snapshot.se.len(),
        |i: int| se_command(snapshot.se[i], paths[music_count(snapshot) + i]),
    )
}

/// The commands that start the voices of a snapshot.
pub open spec fn voice_commands(snapshot: SnapshotRecord, paths: Seq<Seq<char>>) -> Seq<
    (HostMediaCommandKind, Seq<char>),
> {
    Seq::new(
        snapshot.voice.len(),
        |i: int|
            voice_command(
                snapshot.voice[i],
                paths[music_count(snapshot) + snapshot.se.len() + i],
            ),
    )
}

/// The commands that start everything that a snapshot holds. `paths` holds, for
/// each sound in the same order, the path that its file resolves to.
pub open spec fn restore_commands(snapshot: SnapshotRecord, paths: Seq<Seq<char>>) -> Seq<
    (HostMediaCommandKind, Seq<char>),
> {
    let bgm = match snapshot.bgm {
        Some(bgm) => seq![bgm_command(bgm, paths[0])],
        None => Seq::empty(),
    };
    bgm + se_commands(snapshot, paths) + voice_commands(snapshot, paths)
}

/// Tells the host to start everything that a snapshot holds, in the order in
/// which the sound engine starts it. `resolved` holds, for each sound in that
/// order, the path that its file resolves to.
pub fn restore_audio_snapshot(snapshot: &AudioSnapshot, resolved: &Vec<String>) -> (out: Vec<
    (HostMediaCommandKind, String),
>)
    requires
        resolved@.len() == sound_count(snapshot@),
    ensures
        commands_view(out@) == restore_commands(snapshot@, texts(resolved@)),
{
    let ghost paths = texts(resolved@);
    let ghost ses = se_commands(snapshot@, paths);
    let ghost voices = voice_commands(snapshot@, paths);
    let ghost bgm_part = match snapshot@.bgm {
        Some(bgm) => seq![bgm_command(bgm, paths[0])],
        None => Seq::empty(),
    };
    let mut out: Vec<(HostMediaCommandKind, String)> = Vec::new();
    let mut next: usize = 0;
    if let Some(bgm) = &snapshot.bgm {
        let payload = BgmPlay {
            file: copy_text(bgm.file.as_str()),
            resolved_file: Some(copy_text(resolved[0].as_str())),
            loop_play: bgm.loop_play,
            gain: Some(bgm.gain),
            pan: Some(bgm.pan),
            fade_ms: 0,
        };
        out.push((HostMediaCommandKind::AudioBgmPlay, payload.payload()));
        next = 1;
    }
    assert(commands_view(out@) =~= bgm_part);
    let mut i: usize = 0;
    while i < snapshot.se.len()
        invariant
            i <= snapshot.se.len(),
            next == music_count(snapshot@) + i,
            resolved@.len() == sound_count(snapshot@),
            paths == texts(resolved@),
            ses == se_commands(snapshot@, paths),
            commands_view(out@) == bgm_part + ses.take(i as int),
        decreases snapshot.se.len() - i,
    {
        let se = &snapshot.se[i];
        let payload = SePlay {
            id: copy_text(se.id.as_str()),
            file: copy_text(se.file.as_str()),
            resolved_file: Some(copy_text(resolved[next].as_str())),
            loop_play: se.loop_play,
            gain: Some(se.gain),
            pan: Some(se.pan),
            fade_ms: 0,
            skippable: se.skippable,
        };
        let ghost before = out@;
        out.push((HostMediaCommandKind::AudioSePlay, payload.payload()));
        proof {
            assert(snapshot@.se[i as int] == se@);
            assert(ses[i as int] == se_command(se@, paths[next as int]));
            assert(commands_view(out@) =~= commands_view(before).push(ses[i as int]));
            assert(ses.take(i + 1) =~= ses.take(i as int).push(ses[i as int]));
        }
        i += 1;
        assert(next < resolved.len());
        next += 1;
    }
    let mut k: usize = 0;
    assert(ses.take(i as int) =~= ses);
    assert(voices.take(0) =~= Seq::empty());
    while k < snapshot.voice.len()
        invariant
            k <= snapshot.voice.len(),
            next == music_count(snapshot@) + snapshot@.se.len() + k,
            resolved@.len() == sound_count(snapshot@),
            paths == texts(resolved@),
            voices == voice_commands(snapshot@, paths),
            commands_view(out@) == bgm_part + ses + voices.take(k as int),
        decreases snapshot.voice.len() - k,
    {
        let voice = &snapshot.voice[k];
        let payload = VoicePlay {
            id: copy_text(voice.id.as_str()),
            file: copy_text(voice.file.as_str()),
            resolved_file: Some(copy_text(resolved[next].as_str())),
            gain: Some(voice.gain),
            pan: Some(voice.pan),
            fade_ms: 0,
        };
        let ghost before = out@;
        out.push((HostMediaCommandKind::AudioVoicePlay, payload.payload()));
        proof {
            assert(snapshot@.voice[k as int] == voice@);
            assert(voices[k as int] == voice_command(voice@, paths[next as int]));
            assert(commands_view(out@) =~= commands_view(before).push(voices[k as int]));
            assert(voices.take(k + 1) =~= voices.take(k as int).push(voices[k as int]));
        }
        k += 1;
        assert(next < resolved.len());
        next += 1;
    }
    assert(voices.take(k as int) =~= voices);
    out
}

// ── Layers that show videos ────────────────────────────────────

/// A layer that shows a video.
pub struct VideoLayer {
    pub id: String,
    pub playing: bool,
}

/// Whether a frame of a video is taken: only for a layer that plays.
pub fn accepts_video_frame(layers: &Vec<VideoLayer>, id: &str) -> (out: bool)
    ensures
        out == (exists|i: int|
            0 <= i < layers@.len() && (#[trigger] layers@[i]).id@ == id@ && layers@[i].playing),
{
    let mut i: usize = 0;
    while i < layers.len()
        invariant
            i <= layers.len(),
            forall|j: int|
                0 <= j < i ==> !((#[trigger] layers@[j]).id@ == id@ && layers@[j].playing),
        decreases layers.len() - i,
    {
        if layers[i].playing && same_text(layers[i].id.as_str(), id) {
            return true;
        }
        i += 1;
    }
    false
}

// ── Volumes ────────────────────────────────────────────────────

/// A volume as a script gives it, in thousandths of the loudest.
pub open spec fn permille(volume: int) -> int {
    if volume < 0 {
        0
    } else if volume > 1000 {
        1000
    } else {
        volume
    }
}

/// The volumes that the system variables set: of the music, then of the sounds.
pub open spec fn system_volumes(bgm: Option<i64>, se: Option<i64>) -> Seq<(Seq<char>, int)> {
    let first = match bgm {
        Some(v) => seq![("bgm"@, permille(v as int))],
        None => Seq::empty(),
    };
    match se {
        Some(v) => first.push(("se"@, permille(v as int))),
        None => first,
    }
}

/// Volumes by channel.
pub open spec fn volumes_view(volumes: Seq<(String, u32)>) -> Seq<(Seq<char>, int)> {
    Seq::new(volumes.len(), |i: int| (volumes[i].0@, volumes[i].1 as int))
}

fn to_permille(volume: i64) -> (out: u32)
    ensures
        out == permille(volume as int),
{
    if volume < 0 {
        0
    } else if volume > 1000 {
        1000
    } else {
        volume as u32
    }
}

/// The volumes to set in a frame, each with its channel and in thousandths.
/// A system variable that holds no number sets nothing.
pub fn apply_system_audio_volume(bgm: Option<i64>, se: Option<i64>) -> (out: Vec<(String, u32)>)
    ensures
        volumes_view(out@) == system_volumes(bgm, se),
{
    let mut out: Vec<(String, u32)> = Vec::new();
    if let Some(v) = bgm {
        out.push((copy_text("bgm"), to_permille(v)));
    }
    if let Some(v) = se {
        out.push((copy_text("se"), to_permille(v)));
    }
    assert(volumes_view(out@) =~= system_volumes(bgm, se));
    out
}

/// The channels whose volume scripts can set, in the order in which they are
/// set.
pub open spec fn volume_channels() -> Seq<Seq<char>> {
    seq!["master"@, "bgm"@, "se"@, "voice"@]
}

/// The volumes that scripts asked for, among the first `n` channels.
pub open spec fn asked_volumes<V>(asked: Map<Seq<char>, V>, n: int) -> Seq<(Seq<char>, V)>
    decreases n,
{
    if n <= 0 {
        Seq::empty()
    } else {
        let before = asked_volumes(asked, n - 1);
        let channel = volume_channels()[n - 1];
        if asked.contains_key(channel) {
            before.push((channel, asked[channel]))
        } else {
            before
        }
    }
}

/// Volumes, by the names of their channels.
pub open spec fn channel_values<V>(volumes: Seq<(String, V)>) -> Seq<(Seq<char>, V)> {
    Seq::new(volumes.len(), |i: int| (volumes[i].0@, volumes[i].1))
}

fn take_volume<V>(asked: &mut NameMap<V>, channel: &str, out: &mut Vec<(String, V)>)
    requires
        old(asked).wf(),
    ensures
        (*final(asked)).wf(),
        final(asked)@ == old(asked)@.remove(channel@),
        channel_values(final(out)@) == (if old(asked)@.contains_key(channel@) {
            channel_values(old(out)@).push((channel@, old(asked)@[channel@]))
        } else {
            channel_values(old(out)@)
        }),
{
    if let Some(value) = asked.remove(channel) {
        let ghost before = out@;
        out.push((copy_text(channel), value));
        proof {
            assert forall|i: int| 0 <= i < before.len() implies channel_values(out@)[i]
                == channel_values(before)[i] by {
                assert(out@[i] == before[i]);
            }
            assert(channel_values(out@) =~= channel_values(before).push(
                (channel@, old(asked)@[channel@]),
            ));
        }
    }
}

/// Takes the volumes that scripts asked for since the last frame. What was asked
/// of other channels is left.
pub fn take_pending_volumes<V>(asked: &mut NameMap<V>) -> (out: Vec<(String, V)>)
    requires
        old(asked).wf(),
    ensures
        (*final(asked)).wf(),
        channel_values(out@) == asked_volumes(old(asked)@, 4),
        final(asked)@ == old(asked)@.remove("master"@).remove("bgm"@).remove("se"@).remove(
            "voice"@,
        ),
{
    let mut out: Vec<(String, V)> = Vec::new();
    let ghost first = asked@;
    proof {
        reveal_strlit("master");
        reveal_strlit("bgm");
        reveal_strlit("se");
        reveal_strlit("voice");
        reveal_with_fuel(asked_volumes, 5);
        assert(channel_values(out@) =~= Seq::empty());
        assert("master"@.len() == 6 && "bgm"@.len() == 3 && "se"@.len() == 2 && "voice"@.len()
            == 5);
    }
    take_volume(asked, "master", &mut out);
    assert(channel_values(out@) == asked_volumes(first, 1));
    take_volume(asked, "bgm", &mut out);
    assert(channel_values(out@) == asked_volumes(first, 2));
    take_volume(asked, "se", &mut out);
    assert(channel_values(out@) == asked_volumes(first, 3));
    take_volume(asked, "voice", &mut out);
    out
}

// ── What scripts ask of sounds and videos ──────────────────────

/// Whether a plan is that of an event.
pub open spec fn is_plan(plan: MediaPlan, event: MediaEvent, serial: u64, resolved: Seq<char>) -> bool {
    plan.call@ == media_call(event, serial) && command_view(plan.command) == media_command(
        event,
        serial,
        resolved,
    )
}

/// Whether a plan tells the host something: a kind and the members of an object,
/// in the order of their names.
pub open spec fn tells_host(
    plan: MediaPlan,
    kind: HostMediaCommandKind,
    members: Seq<(Seq<char>, Seq<char>)>,
) -> bool {
    plan.command matches Some((k, payload)) && k == kind && payload@ == object_text(members)
}

/// A flag as the host reads it.
pub open spec fn said(flag: bool) -> Seq<char> {
    if flag {
        "true"@
    } else {
        "false"@
    }
}

/// A number as the host reads it; what is missing is `null`.
pub open spec fn said_number(value: Option<i32>) -> Seq<char> {
    match value {
        Some(n) => signed_text(n as int),
        None => "null"@,
    }
}

/// A time that is not given is none.
pub proof fn law_missing_times_are_none(time: Option<u64>)
    ensures
        time matches Some(t) ==> or_zero(time) == t,
        time is None ==> or_zero(time) == 0,
{
}

/// Background music plays as the script says: its file, whether it repeats, its
/// gain, its place and its fade reach both the engine and the host as they are,
/// and the host gets the resolved path beside the file.
pub proof fn law_music_plays_as_said(
    plan: MediaPlan,
    event: MediaEvent,
    serial: u64,
    resolved: Seq<char>,
)
    requires
        is_plan(plan, event, serial, resolved),
    ensures
        event matches MediaEvent::BgmPlay { file, loop_play, gain, pan, fade_time } ==> {
            let fade: u64 = match fade_time {
                Some(t) => t,
                None => 0,
            };
            &&& plan.call matches MediaCall::PlayBgm { file: played, settings } && played@ == file@
                && settings.loop_play == loop_play && settings.gain == gain && settings.pan == pan
                && settings.fade_in_ms == fade && !settings.skippable
            &&& tells_host(
                plan,
                HostMediaCommandKind::AudioBgmPlay,
                seq![
                    ("fade_ms"@, decimal_text(fade as nat)),
                    ("file"@, quoted(file@)),
                    ("gain"@, said_number(gain)),
                    ("loop"@, said(loop_play)),
                    ("pan"@, said_number(pan)),
                    ("resolved_file"@, quoted(resolved)),
                ],
            )
        },
        event matches MediaEvent::BgmCrossFade { file, loop_play, gain, pan, time } ==> {
            &&& plan.call matches MediaCall::CrossfadeBgm { file: played, settings } && played@
                == file@ && settings.loop_play == loop_play && settings.gain == gain
                && settings.pan == pan && settings.fade_in_ms == time && !settings.skippable
            &&& tells_host(
                plan,
                HostMediaCommandKind::AudioBgmCrossfade,
                seq![
                    ("file"@, quoted(file@)),
                    ("gain"@, said_number(gain)),
                    ("loop"@, said(loop_play)),
                    ("pan"@, said_number(pan)),
                    ("resolved_file"@, quoted(resolved)),
                    ("time_ms"@, decimal_text(time as nat)),
                ],
            )
        },
        event matches MediaEvent::BgmStop { fade_time } ==> {
            let fade: u64 = match fade_time {
                Some(t) => t,
                None => 0,
            };
            &&& plan.call matches MediaCall::StopBgm { fade_ms } && fade_ms == fade
            &&& tells_host(
                plan,
                HostMediaCommandKind::AudioBgmStop,
                seq![("fade_ms"@, decimal_text(fade as nat))],
            )
        },
        event matches MediaEvent::BgmFade { gain, time } ==> {
            &&& plan.call matches MediaCall::FadeBgm { gain: to, time_ms } && to == gain && time_ms
                == time
            &&& tells_host(
                plan,
                HostMediaCommandKind::AudioBgmFade,
                seq![
                    ("gain"@, signed_text(gain as int)),
                    ("time_ms"@, decimal_text(time as nat)),
                ],
            )
        },
        event matches MediaEvent::BgmPan { pan } ==> {
            &&& plan.call matches MediaCall::PanBgm { pan: to } && to == pan
            &&& tells_host(
                plan,
                HostMediaCommandKind::AudioBgmPan,
                seq![("pan"@, signed_text(pan as int))],
            )
        },
{
}

/// A sound plays, stops, fades and moves under its own id as the script says, in
/// the engine as at the host.
pub proof fn law_sounds_play_as_said(
    plan: MediaPlan,
    event: MediaEvent,
    serial: u64,
    resolved: Seq<char>,
)
    requires
        is_plan(plan, event, serial, resolved),
    ensures
        event matches MediaEvent::SePlay { id, file, loop_play, gain, pan, fade_time, skippable }
            ==> {
            let fade: u64 = match fade_time {
                Some(t) => t,
                None => 0,
            };
            &&& plan.call matches MediaCall::PlaySe { id: name, file: played, settings } && name@
                == id@ && played@ == file@ && settings.loop_play == loop_play && settings.gain
                == gain && settings.pan == pan && settings.fade_in_ms == fade && settings.skippable
                == skippable
            &&& tells_host(
                plan,
                HostMediaCommandKind::AudioSePlay,
                seq![
                    ("fade_ms"@, decimal_text(fade as nat)),
                    ("file"@, quoted(file@)),
                    ("gain"@, said_number(gain)),
                    ("id"@, quoted(id@)),
                    ("loop"@, said(loop_play)),
                    ("pan"@, said_number(pan)),
                    ("resolved_file"@, quoted(resolved)),
                    ("skippable"@, said(skippable)),
                ],
            )
        },
        event matches MediaEvent::SeStop { id, fade_time } ==> {
            let fade: u64 = match fade_time {
                Some(t) => t,
                None => 0,
            };
            &&& plan.call matches MediaCall::StopSe { id: name, fade_ms } && name@ == id@ && fade_ms
                == fade
            &&& tells_host(
                plan,
                HostMediaCommandKind::AudioSeStop,
                seq![("fade_ms"@, decimal_text(fade as nat)), ("id"@, quoted(id@))],
            )
        },
        event matches MediaEvent::SeFade { id, gain, time } ==> {
            &&& plan.call matches MediaCall::FadeSe { id: name, gain: to, time_ms } && name@ == id@
                && to == gain && time_ms == time
            &&& tells_host(
                plan,
                HostMediaCommandKind::AudioSeFade,
                seq![
                    ("gain"@, signed_text(gain as int)),
                    ("id"@, quoted(id@)),
                    ("time_ms"@, decimal_text(time as nat)),
                ],
            )
        },
        event matches MediaEvent::SePan { id, pan } ==> {
            &&& plan.call matches MediaCall::PanSe { id: name, pan: to } && name@ == id@ && to
                == pan
            &&& tells_host(
                plan,
                HostMediaCommandKind::AudioSePan,
                seq![("id"@, quoted(id@)), ("pan"@, signed_text(pan as int))],
            )
        },
        event is StopAllSounds ==> plan.call is StopAllSounds && tells_host(
            plan,
            HostMediaCommandKind::AudioStopAll,
            Seq::empty(),
        ),
{
}

/// A voice plays once under a name of its own, which holds its number; the number
/// is the one after the last, and only voices are counted.
pub proof fn law_voices_play_once(
    plan: MediaPlan,
    event: MediaEvent,
    serial: u64,
    resolved: Seq<char>,
)
    requires
        is_plan(plan, event, serial, resolved),
    ensures
        !(event is VoicePlay) ==> serial_after(event, serial) == serial,
        event matches MediaEvent::VoicePlay { file, gain, pan, fade_time } ==> {
            let fade: u64 = match fade_time {
                Some(t) => t,
                None => 0,
            };
            let number = serial_after(event, serial);
            let name = "voice:"@ + decimal_text(number as nat);
            &&& serial < u64::MAX ==> number == serial + 1
            &&& serial == u64::MAX ==> number == serial
            &&& plan.call matches MediaCall::PlayVoice { id, file: played, settings } && id@ == name
                && played@ == file@ && !settings.loop_play && settings.gain == gain && settings.pan
                == pan && settings.fade_in_ms == fade && !settings.skippable
            &&& tells_host(
                plan,
                HostMediaCommandKind::AudioVoicePlay,
                seq![
                    ("fade_ms"@, decimal_text(fade as nat)),
                    ("file"@, quoted(file@)),
                    ("gain"@, said_number(gain)),
                    ("id"@, quoted(name)),
                    ("pan"@, said_number(pan)),
                    ("resolved_file"@, quoted(resolved)),
                ],
            )
        },
{
}

/// A video plays on the layer that is named, and over the whole screen where none
/// is, and may be skipped and repeats as the script says.
pub proof fn law_videos_play_as_said(
    plan: MediaPlan,
    event: MediaEvent,
    serial: u64,
    resolved: Seq<char>,
)
    requires
        is_plan(plan, event, serial, resolved),
    ensures
        event matches MediaEvent::VideoPlay { id, file, skip, loop_play: repeats } ==> {
            &&& id matches Some(layer) ==> (plan.call matches MediaCall::PlayLayer {
                id: name,
                file: played,
                skippable,
                loop_play,
            } && name@ == layer@ && played@ == file@ && skippable == skip && loop_play == repeats)
            &&& id is None ==> (plan.call matches MediaCall::PlayFullscreen {
                file: played,
                skippable,
                loop_play,
            } && played@ == file@ && skippable == skip && loop_play == repeats)
            &&& tells_host(
                plan,
                HostMediaCommandKind::VideoPlay,
                seq![
                    ("file"@, quoted(file@)),
                    (
                        "id"@,
                        match id {
                            Some(layer) => quoted(layer@),
                            None => "null"@,
                        },
                    ),
                    ("loop"@, said(repeats)),
                    ("resolved_file"@, quoted(resolved)),
                    ("skippable"@, said(skip)),
                ],
            )
        },
{
    if let MediaEvent::VideoPlay { id, file, skip, loop_play } = event {
        let members = seq![
            ("file"@, quoted(file@)),
            (
                "id"@,
                match id {
                    Some(layer) => quoted(layer@),
                    None => "null"@,
                },
            ),
            ("loop"@, said(loop_play)),
            ("resolved_file"@, quoted(resolved)),
            ("skippable"@, said(skip)),
        ];
        assert(members =~= video_play_fields(
            file@,
            opt_text(id),
            loop_play,
            Some(resolved),
            skip,
        ));
    }
}

/// The script that waits for an end is set and taken away for the sound that is
/// named, for the background music where the name is empty, or for the video; the
/// host is told nothing.
pub proof fn law_ends_are_waited_for(
    plan: MediaPlan,
    event: MediaEvent,
    serial: u64,
    resolved: Seq<char>,
)
    requires
        is_plan(plan, event, serial, resolved),
    ensures
        event is SoundFinishHandler || event is SoundFinishHandlerDel || event
            is VideoFinishHandler || event is VideoFinishHandlerDel ==> plan.command is None,
        event matches MediaEvent::SoundFinishHandler { id, handler } ==> (plan.call matches
            MediaCall::SetSoundFinish { id: name, handler: script } && script@ == handler@ && (
        id@.len() == 0 ==> name is None) && (id@.len() > 0 ==> (name matches Some(n) && n@
            == id@))),
        event matches MediaEvent::SoundFinishHandlerDel { id } ==> (plan.call matches
            MediaCall::RemoveSoundFinish { id: name } && (id@.len() == 0 ==> name is None) && (
        id@.len() > 0 ==> (name matches Some(n) && n@ == id@))),
        event matches MediaEvent::VideoFinishHandler { handler } ==> (plan.call matches
            MediaCall::SetVideoFinish { handler: script } && script@ == handler@),
        event is VideoFinishHandlerDel ==> plan.call is RemoveVideoFinish,
{
}

/// What a saved game kept is played from the start, the music first, then the
/// sounds, then the voices, each with the path that stands in its place.
pub proof fn law_kept_sounds_are_played_in_order(
    snapshot: SnapshotRecord,
    paths: Seq<Seq<char>>,
    k: int,
)
    requires
        paths.len() == sound_count(snapshot),
        0 <= k < paths.len(),
    ensures
        ({
            let all = restore_commands(snapshot, paths);
            let music: int = if snapshot.bgm is Some {
                1
            } else {
                0
            };
            let sounds = snapshot.se.len();
            &&& all.len() == paths.len()
            &&& paths.len() == music + sounds + snapshot.voice.len()
            &&& k < music ==> all[k] == bgm_command(snapshot.bgm->0, paths[k])
            &&& music <= k < music + sounds ==> all[k] == se_command(snapshot.se[k - music], paths[k])
            &&& music + sounds <= k ==> all[k] == voice_command(
                snapshot.voice[k - music - sounds],
                paths[k],
            )
        }),
{
}

/// A kept sound is started with its own file, path, gain and place, without a
/// fade; music and sounds repeat as they did, and sounds and voices keep their
/// ids.
pub proof fn law_kept_sounds_are_played_again(c: ChannelRecord, path: Seq<char>)
    ensures
        bgm_command(c, path) == (
            HostMediaCommandKind::AudioBgmPlay,
            object_text(
                seq![
                    ("fade_ms"@, decimal_text(0)),
                    ("file"@, quoted(c.file)),
                    ("gain"@, signed_text(c.gain as int)),
                    ("loop"@, said(c.loop_play)),
                    ("pan"@, signed_text(c.pan as int)),
                    ("resolved_file"@, quoted(path)),
                ],
            ),
        ),
        se_command(c, path) == (
            HostMediaCommandKind::AudioSePlay,
            object_text(
                seq![
                    ("fade_ms"@, decimal_text(0)),
                    ("file"@, quoted(c.file)),
                    ("gain"@, signed_text(c.gain as int)),
                    ("id"@, quoted(c.id)),
                    ("loop"@, said(c.loop_play)),
                    ("pan"@, signed_text(c.pan as int)),
                    ("resolved_file"@, quoted(path)),
                    ("skippable"@, said(c.skippable)),
                ],
            ),
        ),
        voice_command(c, path) == (
            HostMediaCommandKind::AudioVoicePlay,
            object_text(
                seq![
                    ("fade_ms"@, decimal_text(0)),
                    ("file"@, quoted(c.file)),
                    ("gain"@, signed_text(c.gain as int)),
                    ("id"@, quoted(c.id)),
                    ("pan"@, signed_text(c.pan as int)),
                    ("resolved_file"@, quoted(path)),
                ],
            ),
        ),
{
}

/// A volume is cut to the range from silence to the loudest and is else as the
/// script gave it; each variable sets its own channel, the music before the
/// sounds.
pub proof fn law_volumes_are_cut(bgm: Option<i64>, se: Option<i64>, volume: int)
    ensures
        0 <= permille(volume) <= 1000,
        0 <= volume <= 1000 ==> permille(volume) == volume,
        volume < 0 ==> permille(volume) == 0,
        volume > 1000 ==> permille(volume) == 1000,
        ({
            let set = system_volumes(bgm, se);
            let first: int = if bgm is Some {
                1
            } else {
                0
            };
            &&& set.len() == first + (if se is Some {
                1int
            } else {
                0
            })
            &&& bgm matches Some(v) ==> set[0] == ("bgm"@, permille(v as int))
            &&& se matches Some(v) ==> set[first] == ("se"@, permille(v as int))
        }),
{
}

/// What was asked of one channel.
pub open spec fn asked_of<V>(asked: Map<Seq<char>, V>, name: Seq<char>) -> Seq<(Seq<char>, V)> {
    if asked.contains_key(name) {
        seq![(name, asked[name])]
    } else {
        Seq::empty()
    }
}

/// The volumes that scripts asked for are handed out for the four channels in
/// their order: the whole, the music, the sounds and the voices.
pub proof fn law_asked_volumes_are_handed_out<V>(asked: Map<Seq<char>, V>)
    ensures
        asked_volumes(asked, 4) == asked_of(asked, "master"@) + asked_of(asked, "bgm"@) + asked_of(
            asked,
            "se"@,
        ) + asked_of(asked, "voice"@),
{
    reveal_with_fuel(asked_volumes, 5);
    assert(asked_volumes(asked, 4) =~= asked_of(asked, "master"@) + asked_of(asked, "bgm"@)
        + asked_of(asked, "se"@) + asked_of(asked, "voice"@));
}

} // verus!
