//! What is known of the sounds that are on.
use crate::name_map::NameMap;
use crate::strs::{contains_text, copy_opt, occurs, opt_text};
use vstd::prelude::*;

verus! {

/// A script that runs when a sound or video has ended.
pub struct FinishHandler {
    pub file: Option<String>,
    pub label: Option<String>,
    pub call: bool,
    pub handler: Option<String>,
}

/// What such a script holds.
pub struct FinishRecord {
    pub file: Option<Seq<char>>,
    pub label: Option<Seq<char>>,
    pub call: bool,
    pub handler: Option<Seq<char>>,
}

impl View for FinishHandler {
    type V = FinishRecord;

    open spec fn view(&self) -> FinishRecord {
        FinishRecord {
            file: opt_text(self.file),
            label: opt_text(self.label),
            call: self.call,
            handler: opt_text(self.handler),
        }
    }
}

impl FinishHandler {
    pub fn copy(&self) -> (out: Self)
        ensures
            out@ == self@,
    {
        FinishHandler {
            file: copy_opt(&self.file),
            label: copy_opt(&self.label),
            call: self.call,
            handler: copy_opt(&self.handler),
        }
    }
}

/// A channel and what it plays.
pub struct SoundChannel {
    pub id: String,
    pub file: String,
    pub playing: bool,
    pub loop_play: bool,
    pub raw_gain: i32,
    pub raw_pan: i32,
    pub skippable: bool,
}

/// The sounds that are on, and the scripts that wait for their end.
pub struct AudioState {
    pub bgm_channel: Option<SoundChannel>,
    pub se_channels: NameMap<SoundChannel>,
    pub voice_channels: NameMap<SoundChannel>,
    pub bgm_finish_handler: Option<FinishHandler>,
    pub se_finish_handlers: NameMap<FinishHandler>,
}

impl AudioState {
    /// Silence.
    pub fn new() -> (out: Self)
        ensures
            out.wf(),
            out.bgm_channel is None,
            out.se_channels@ == Map::<Seq<char>, SoundChannel>::empty(),
            out.voice_channels@ == Map::<Seq<char>, SoundChannel>::empty(),
            out.bgm_finish_handler is None,
            out.se_finish_handlers@ == Map::<Seq<char>, FinishHandler>::empty(),
    {
        AudioState {
            bgm_channel: None,
            se_channels: NameMap::new(),
            voice_channels: NameMap::new(),
            bgm_finish_handler: None,
            se_finish_handlers: NameMap::new(),
        }
    }

    /// No channel is there twice.
    pub open spec fn wf(self) -> bool {
        self.se_channels.wf() && self.voice_channels.wf() && self.se_finish_handlers.wf()
    }
}

/// Whether some channel plays.
pub open spec fn any_playing(channels: Seq<(String, SoundChannel)>) -> bool {
    exists|i: int| 0 <= i < channels.len() && (#[trigger] channels[i]).1.playing
}

/// Whether some channel plays a file of the voice space.
pub open spec fn any_voice_file(channels: Seq<(String, SoundChannel)>) -> bool {
    exists|i: int|
        0 <= i < channels.len() && (#[trigger] channels[i]).1.playing && occurs(
            channels[i].1.file@,
            ":vo/"@,
        )
}

/// Whether a voice is heard: on a voice channel, or as a sound with a file of
/// the voice space.
pub fn is_voice_playing(state: &AudioState) -> (out: bool)
    ensures
        out == (any_playing(state.voice_channels.items()) || any_voice_file(
            state.se_channels.items(),
        )),
{
    let mut i: usize = 0;
    while i < state.voice_channels.len()
        invariant
            i <= state.voice_channels.items().len(),
            forall|j: int| 0 <= j < i ==> !(#[trigger] state.voice_channels.items()[j]).1.playing,
        decreases state.voice_channels.items().len() - i,
    {
        if state.voice_channels.value_at(i).playing {
            return true;
        }
        i += 1;
    }
    let mut k: usize = 0;
    while k < state.se_channels.len()
        invariant
            k <= state.se_channels.items().len(),
            forall|j: int|
                0 <= j < k ==> !((#[trigger] state.se_channels.items()[j]).1.playing && occurs(
                    state.se_channels.items()[j].1.file@,
                    ":vo/"@,
                )),
            !any_playing(state.voice_channels.items()),
        decreases state.se_channels.items().len() - k,
    {
        let sound = state.se_channels.value_at(k);
        if sound.playing && contains_text(sound.file.as_str(), ":vo/") {
            return true;
        }
        k += 1;
    }
    false
}

/// A voice is heard where a voice channel plays, or a sound plays a file of the
/// voice space; what does not play is not heard.
pub proof fn law_voices_are_heard(channels: Seq<(String, SoundChannel)>, i: int)
    requires
        0 <= i < channels.len(),
    ensures
        channels[i].1.playing ==> any_playing(channels),
        channels[i].1.playing && occurs(channels[i].1.file@, ":vo/"@) ==> any_voice_file(channels),
        (forall|k: int| 0 <= k < channels.len() ==> !(#[trigger] channels[k]).1.playing)
            ==> !any_playing(channels) && !any_voice_file(channels),
        (forall|k: int|
            0 <= k < channels.len() ==> !occurs((#[trigger] channels[k]).1.file@, ":vo/"@))
            ==> !any_voice_file(channels),
{
}

} // verus!
