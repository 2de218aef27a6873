//! What a saved game holds beside the script's state.
use crate::audio::{AudioState, SoundChannel};
use crate::name_map::NameMap;
use crate::runtime::media::{call_records, CallRecord, MediaCall, SoundSettings};
use crate::strs::{concat, copy_text, ends_with, has_suffix};
use crate::text_order::{
    lemma_text_le_total, lemma_text_le_transitive, text_before, text_le,
};
use vstd::prelude::*;

verus! {

/// A sound that was on. How far it had come is not kept: it starts anew.
pub struct AudioChannelSnapshot {
    pub id: String,
    pub file: String,
    pub loop_play: bool,
    pub gain: i32,
    pub pan: i32,
    pub skippable: bool,
}

/// What a kept sound holds.
pub struct ChannelRecord {
    pub id: Seq<char>,
    pub file: Seq<char>,
    pub loop_play: bool,
    pub gain: i32,
    pub pan: i32,
    pub skippable: bool,
}

impl View for AudioChannelSnapshot {
    type V = ChannelRecord;

    open spec fn view(&self) -> ChannelRecord {
        ChannelRecord {
            id: self.id@,
            file: self.file@,
            loop_play: self.loop_play,
            gain: self.gain,
            pan: self.pan,
            skippable: self.skippable,
        }
    }
}

/// What is kept of a channel.
pub open spec fn channel_record(channel: SoundChannel) -> ChannelRecord {
    ChannelRecord {
        id: channel.id@,
        file: channel.file@,
        loop_play: channel.loop_play,
        gain: channel.raw_gain,
        pan: channel.raw_pan,
        skippable: channel.skippable,
    }
}

impl AudioChannelSnapshot {
    /// Keeps a channel.
    pub fn of(channel: &SoundChannel) -> (out: Self)
        ensures
            out@ == channel_record(*channel),
    {
        AudioChannelSnapshot {
            id: copy_text(channel.id.as_str()),
            file: copy_text(channel.file.as_str()),
            loop_play: channel.loop_play,
            gain: channel.raw_gain,
            pan: channel.raw_pan,
            skippable: channel.skippable,
        }
    }
}

/// The sounds that were on.
pub struct AudioSnapshot {
    pub bgm: Option<AudioChannelSnapshot>,
    pub se: Vec<AudioChannelSnapshot>,
    pub voice: Vec<AudioChannelSnapshot>,
}

/// The records of kept sounds.
pub open spec fn channel_records(channels: Seq<AudioChannelSnapshot>) -> Seq<ChannelRecord> {
    Seq::new(channels.len(), |i: int| channels[i]@)
}

/// The records of the channels that play.
pub open spec fn playing_records(channels: Seq<(String, SoundChannel)>) -> Seq<ChannelRecord>
    decreases channels.len(),
{
    if channels.len() == 0 {
        Seq::empty()
    } else {
        let before = playing_records(channels.drop_last());
        if channels.last().1.playing {
            before.push(channel_record(channels.last().1))
        } else {
            before
        }
    }
}

/// Sounds in the order of their ids.
pub open spec fn sorted_by_id(records: Seq<ChannelRecord>) -> bool {
    forall|i: int, j: int|
        0 <= i <= j < records.len() ==> text_le((#[trigger] records[i]).id, (
        #[trigger] records[j]).id)
}

/// The same sounds, in the order of their ids.
pub open spec fn kept_in_order(
    kept: Seq<AudioChannelSnapshot>,
    channels: Seq<(String, SoundChannel)>,
) -> bool {
    &&& sorted_by_id(channel_records(kept))
    &&& channel_records(kept).to_multiset() == playing_records(channels).to_multiset()
}

/// Puts a sound at its place among sounds in the order of their ids.
fn insert_channel(kept: &mut Vec<AudioChannelSnapshot>, channel: AudioChannelSnapshot)
    requires
        sorted_by_id(channel_records(old(kept)@)),
    ensures
        sorted_by_id(channel_records(final(kept)@)),
        channel_records(final(kept)@).to_multiset() == channel_records(
            old(kept)@,
        ).to_multiset().insert(channel@),
{
    let ghost before = channel_records(kept@);
    let mut at: usize = kept.len();
    while at > 0 && !text_before(kept[at - 1].id.as_str(), channel.id.as_str())
        invariant
            at <= kept.len(),
            before == channel_records(kept@),
            forall|j: int|
                at <= j < before.len() ==> !text_le((#[trigger] before[j]).id, channel.id@),
        decreases at,
    {
        at -= 1;
    }
    let ghost record = channel@;
    kept.insert(at, channel);
    let ghost after = channel_records(kept@);
    proof {
        broadcast use vstd::seq_lib::group_to_multiset_ensures;

        assert(after =~= before.insert(at as int, record));
        assert(at > 0 ==> text_le(before[at - 1].id, record.id));
        assert forall|i: int, j: int| 0 <= i <= j < after.len() implies text_le(
            (#[trigger] after[i]).id,
            (#[trigger] after[j]).id,
        ) by {
            let l: int = if i < at { i } else { i - 1 };
            let r: int = if j < at { j } else { j - 1 };
            if i == at && j == at {
                lemma_text_le_total(record.id, record.id);
            } else if i == at {
                lemma_text_le_total(before[r].id, record.id);
            } else if j == at {
                assert(text_le(before[i].id, before[at - 1].id));
                lemma_text_le_transitive(before[i].id, before[at - 1].id, record.id);
            } else {
                assert(text_le(before[l].id, before[r].id));
            }
        }
    }
}

fn keep_playing(channels: &NameMap<SoundChannel>) -> (out: Vec<AudioChannelSnapshot>)
    ensures
        kept_in_order(out@, channels.items()),
{
    let mut out: Vec<AudioChannelSnapshot> = Vec::new();
    let mut i: usize = 0;
    let ghost all = channels.items();
    proof {
        assert(all.take(0) =~= Seq::empty());
        assert(channel_records(out@) =~= Seq::empty());
    }
    while i < channels.len()
        invariant
            all == channels.items(),
            i <= all.len(),
            sorted_by_id(channel_records(out@)),
            channel_records(out@).to_multiset() == playing_records(
                all.take(i as int),
            ).to_multiset(),
        decreases all.len() - i,
    {
        let channel = channels.value_at(i);
        proof {
            broadcast use vstd::seq_lib::group_to_multiset_ensures;

            assert(all.take(i + 1).drop_last() =~= all.take(i as int));
            assert(all.take(i + 1).last() == all[i as int]);
        }
        if channel.playing {
            let kept = AudioChannelSnapshot::of(channel);
            insert_channel(&mut out, kept);
        }
        i += 1;
    }
    assert(all.take(i as int) =~= all);
    out
}

/// The call that starts a kept sound.
pub open spec fn replay_settings(channel: ChannelRecord) -> SoundSettings {
    SoundSettings {
        loop_play: channel.loop_play,
        gain: Some(channel.gain),
        pan: Some(channel.pan),
        fade_in_ms: 0,
        skippable: channel.skippable,
    }
}

pub open spec fn replay_bgm(channel: ChannelRecord) -> CallRecord {
    CallRecord::PlayBgm {
        file: channel.file,
        settings: SoundSettings { skippable: false, ..replay_settings(channel) },
    }
}

pub open spec fn replay_se(channel: ChannelRecord) -> CallRecord {
    CallRecord::PlaySe {
        id: channel.id,
        file: channel.file,
        settings: replay_settings(channel),
    }
}

pub open spec fn replay_voice(channel: ChannelRecord) -> CallRecord {
    CallRecord::PlayVoice {
        id: channel.id,
        file: channel.file,
        settings: replay_settings(channel),
    }
}

/// What a snapshot holds.
pub struct SnapshotRecord {
    pub bgm: Option<ChannelRecord>,
    pub se: Seq<ChannelRecord>,
    pub voice: Seq<ChannelRecord>,
}

impl View for AudioSnapshot {
    type V = SnapshotRecord;

    open spec fn view(&self) -> SnapshotRecord {
        SnapshotRecord {
            bgm: match self.bgm {
                Some(bgm) => Some(bgm@),
                None => None,
            },
            se: channel_records(self.se@),
            voice: channel_records(self.voice@),
        }
    }
}

/// The calls that start everything that a snapshot holds: the background music,
/// then the sounds, then the voices.
pub open spec fn replay_calls(snapshot: SnapshotRecord) -> Seq<CallRecord> {
    let bgm = match snapshot.bgm {
        Some(bgm) => seq![replay_bgm(bgm)],
        None => Seq::empty(),
    };
    bgm + snapshot.se.map_values(|c: ChannelRecord| replay_se(c)) + snapshot.voice.map_values(
        |c: ChannelRecord| replay_voice(c),
    )
}

fn settings_of(channel: &AudioChannelSnapshot) -> (out: SoundSettings)
    ensures
        out == replay_settings(channel@),
{
    SoundSettings {
        loop_play: channel.loop_play,
        gain: Some(channel.gain),
        pan: Some(channel.pan),
        fade_in_ms: 0,
        skippable: channel.skippable,
    }
}

impl AudioSnapshot {
    /// Nothing is on.
    pub fn new() -> (out: Self)
        ensures
            out@ == (SnapshotRecord { bgm: None, se: Seq::empty(), voice: Seq::empty() }),
    {
        let out = AudioSnapshot { bgm: None, se: Vec::new(), voice: Vec::new() };
        assert(channel_records(out.se@) =~= Seq::empty());
        assert(channel_records(out.voice@) =~= Seq::empty());
        out
    }

    /// Keeps the sounds that are on: those that play, in the order of their ids.
    pub fn from_audio(state: &AudioState) -> (out: Self)
        ensures
            out@.bgm == (match state.bgm_channel {
                Some(channel) if channel.playing => Some(channel_record(channel)),
                _ => None,
            }),
            kept_in_order(out.se@, state.se_channels.items()),
            kept_in_order(out.voice@, state.voice_channels.items()),
    {
        let bgm = match &state.bgm_channel {
            Some(channel) => if channel.playing {
                Some(AudioChannelSnapshot::of(channel))
            } else {
                None
            },
            None => None,
        };
        AudioSnapshot {
            bgm,
            se: keep_playing(&state.se_channels),
            voice: keep_playing(&state.voice_channels),
        }
    }

    /// The calls that start what was kept, from the beginning and without a
    /// fade.
    pub fn restore_into(&self, calls: &mut Vec<MediaCall>)
        ensures
            call_records(final(calls)@) == call_records(old(calls)@) + replay_calls(self@),
    {
        let ghost start = call_records(calls@);
        let ghost bgm_part = match self@.bgm {
            Some(bgm) => seq![replay_bgm(bgm)],
            None => Seq::empty(),
        };
        if let Some(bgm) = &self.bgm {
            let mut settings = settings_of(bgm);
            settings.skippable = false;
            calls.push(MediaCall::PlayBgm { file: copy_text(bgm.file.as_str()), settings });
        }
        assert(call_records(calls@) =~= start + bgm_part);
        let ghost ses = self@.se.map_values(|c: ChannelRecord| replay_se(c));
        let ghost voices = self@.voice.map_values(|c: ChannelRecord| replay_voice(c));
        let mut i: usize = 0;
        while i < self.se.len()
            invariant
                i <= self.se.len(),
                ses == self@.se.map_values(|c: ChannelRecord| replay_se(c)),
                call_records(calls@) == start + bgm_part + ses.take(i as int),
            decreases self.se.len() - i,
        {
            let se = &self.se[i];
            let ghost before = calls@;
            calls.push(
                MediaCall::PlaySe {
                    id: copy_text(se.id.as_str()),
                    file: copy_text(se.file.as_str()),
                    settings: settings_of(se),
                },
            );
            proof {
                assert(self@.se[i as int] == se@);
                assert(ses[i as int] == replay_se(se@));
                assert(call_records(calls@) =~= call_records(before).push(replay_se(se@)));
                assert(ses.take(i + 1) =~= ses.take(i as int).push(ses[i as int]));
            }
            i += 1;
        }
        let mut k: usize = 0;
        assert(ses.take(i as int) =~= ses);
        assert(voices.take(0) =~= Seq::empty());
        while k < self.voice.len()
            invariant
                k <= self.voice.len(),
                voices == self@.voice.map_values(|c: ChannelRecord| replay_voice(c)),
                call_records(calls@) == start + bgm_part + ses + voices.take(k as int),
            decreases self.voice.len() - k,
        {
            let voice = &self.voice[k];
            let ghost before = calls@;
            calls.push(
                MediaCall::PlayVoice {
                    id: copy_text(voice.id.as_str()),
                    file: copy_text(voice.file.as_str()),
                    settings: settings_of(voice),
                },
            );
            proof {
                assert(self@.voice[k as int] == voice@);
                assert(voices[k as int] == replay_voice(voice@));
                assert(call_records(calls@) =~= call_records(before).push(replay_voice(voice@)));
                assert(voices.take(k + 1) =~= voices.take(k as int).push(voices[k as int]));
            }
            k += 1;
        }
        assert(voices.take(k as int) =~= voices);
        assert(start + bgm_part + ses + voices =~= start + replay_calls(self@));
    }
}

proof fn lemma_playing_is_recorded(channels: Seq<(String, SoundChannel)>, at: int)
    requires
        0 <= at < channels.len(),
        channels[at].1.playing,
    ensures
        playing_records(channels).contains(channel_record(channels[at].1)),
    decreases channels.len(),
{
    let record = channel_record(channels[at].1);
    let before = playing_records(channels.drop_last());
    if at == channels.len() - 1 {
        assert(before.push(record)[before.len() as int] == record);
    } else {
        lemma_playing_is_recorded(channels.drop_last(), at);
        let k = choose|k: int| 0 <= k < before.len() && before[k] == record;
        assert(playing_records(channels)[k] == record);
    }
}

proof fn lemma_recorded_is_playing(channels: Seq<(String, SoundChannel)>, record: ChannelRecord)
    requires
        playing_records(channels).contains(record),
    ensures
        exists|i: int|
            0 <= i < channels.len() && (#[trigger] channels[i]).1.playing && channel_record(
                channels[i].1,
            ) == record,
    decreases channels.len(),
{
    if channels.len() > 0 {
        let last = channels.last().1;
        if last.playing && channel_record(last) == record {
            assert(channels[channels.len() - 1].1.playing);
        } else {
            let k = choose|k: int|
                0 <= k < playing_records(channels).len() && playing_records(channels)[k] == record;
            assert(playing_records(channels.drop_last())[k] == record);
            lemma_recorded_is_playing(channels.drop_last(), record);
            let i = choose|i: int|
                0 <= i < channels.len() - 1 && (#[trigger] channels.drop_last()[i]).1.playing
                    && channel_record(channels.drop_last()[i].1) == record;
            assert(channels[i].1.playing);
        }
    }
}

/// A snapshot holds a sound just where one plays: what plays is kept, and
/// nothing else is.
pub proof fn law_playing_sounds_are_kept(
    kept: Seq<AudioChannelSnapshot>,
    channels: Seq<(String, SoundChannel)>,
    record: ChannelRecord,
)
    requires
        kept_in_order(kept, channels),
    ensures
        channel_records(kept).contains(record) <==> exists|i: int|
            0 <= i < channels.len() && (#[trigger] channels[i]).1.playing && channel_record(
                channels[i].1,
            ) == record,
{
    vstd::seq_lib::to_multiset_contains(channel_records(kept), record);
    vstd::seq_lib::to_multiset_contains(playing_records(channels), record);
    if exists|i: int|
        0 <= i < channels.len() && (#[trigger] channels[i]).1.playing && channel_record(
            channels[i].1,
        ) == record {
        let i = choose|i: int|
            0 <= i < channels.len() && (#[trigger] channels[i]).1.playing && channel_record(
                channels[i].1,
            ) == record;
        lemma_playing_is_recorded(channels, i);
    }
    if playing_records(channels).contains(record) {
        lemma_recorded_is_playing(channels, record);
    }
}

/// Nothing of a kept sound is lost when it starts again: two snapshots that make
/// the same calls hold the same sounds, and the same music with the same
/// settings.
pub proof fn law_replay_gives_back_what_was_kept(a: SnapshotRecord, b: SnapshotRecord)
    requires
        replay_calls(a) == replay_calls(b),
    ensures
        a.se == b.se,
        a.voice == b.voice,
        a.bgm is Some <==> b.bgm is Some,
        (a.bgm, b.bgm) matches (Some(m), Some(n)) ==> m.file == n.file && m.loop_play
            == n.loop_play && m.gain == n.gain && m.pan == n.pan,
{
    let x = replay_calls(a);
    let y = replay_calls(b);
    let n: int = if a.bgm is Some {
        1
    } else {
        0
    };
    if x.len() > 0 {
        assert(x[0] is PlayBgm <==> a.bgm is Some);
        assert(y[0] is PlayBgm <==> b.bgm is Some);
    }
    assert(x.len() == n + a.se.len() + a.voice.len());
    if a.se.len() < b.se.len() {
        assert(y[n + a.se.len()] is PlaySe);
        assert(x[n + a.se.len()] is PlayVoice);
    }
    if b.se.len() < a.se.len() {
        assert(x[n + b.se.len()] is PlaySe);
        assert(y[n + b.se.len()] is PlayVoice);
    }
    assert forall|i: int| 0 <= i < a.se.len() implies a.se[i] == b.se[i] by {
        assert(x[n + i] == replay_se(a.se[i]));
        assert(y[n + i] == replay_se(b.se[i]));
    }
    assert(a.se =~= b.se);
    let m = n + a.se.len();
    assert forall|i: int| 0 <= i < a.voice.len() implies a.voice[i] == b.voice[i] by {
        assert(x[m + i] == replay_voice(a.voice[i]));
        assert(y[m + i] == replay_voice(b.voice[i]));
    }
    assert(a.voice =~= b.voice);
    if a.bgm is Some {
        assert(x[0] == replay_bgm(a.bgm->0));
        assert(y[0] == replay_bgm(b.bgm->0));
    }
}

/// A frame of the call stack.
pub struct CallFrameSnapshot {
    pub script: String,
    pub return_line: usize,
}

/// The saved games of a directory.
pub struct SaveManager {
    pub save_dir: String,
}

/// The name of a saved game, with its ending.
pub open spec fn save_file_name(file: Seq<char>) -> Seq<char> {
    if has_suffix(file, ".dat"@) {
        file
    } else {
        file + ".dat"@
    }
}

/// The names of saved games among the names of a directory.
pub open spec fn save_names(names: Seq<Seq<char>>) -> Seq<Seq<char>>
    decreases names.len(),
{
    if names.len() == 0 {
        Seq::empty()
    } else {
        let before = save_names(names.drop_last());
        if is_save_name(names.last()) {
            crate::text_order::insert_sorted(before, names.last())
        } else {
            before
        }
    }
}

/// Whether a name has the ending of saved games behind a stem.
pub open spec fn is_save_name(name: Seq<char>) -> bool {
    name.len() > 4 && has_suffix(name, ".dat"@)
}

impl SaveManager {
    /// The name of a saved game within the directory.
    pub fn resolve(&self, file: &str) -> (out: String)
        ensures
            out@ == save_file_name(file@),
    {
        if ends_with(file, ".dat") {
            copy_text(file)
        } else {
            concat(file, ".dat")
        }
    }

    /// Whether a saved game is there, among the names of the directory.
    pub fn has_save(&self, file: &str, names: &Vec<String>) -> (out: bool)
        ensures
            out == is_saved(crate::strs::texts(names@).to_set(), file@),
    {
        let name = self.resolve(file);
        crate::strs::list_has(names, name.as_str())
    }

    /// The saved games among the names of the directory, in ascending order.
    pub fn list(&self, names: &Vec<String>) -> (out: Vec<String>)
        ensures
            crate::strs::texts(out@) == save_names(crate::strs::texts(names@)),
    {
        let mut out: Vec<String> = Vec::new();
        let ghost all = crate::strs::texts(names@);
        let mut i: usize = 0;
        assert(all.take(0) =~= Seq::empty());
        assert(crate::strs::texts(out@) =~= Seq::empty());
        while i < names.len()
            invariant
                i <= names.len(),
                all == crate::strs::texts(names@),
                crate::strs::texts(out@) == save_names(all.take(i as int)),
            decreases names.len() - i,
        {
            let name = copy_text(names[i].as_str());
            assert(all.take(i + 1).drop_last() =~= all.take(i as int));
            if crate::strs::char_count(name.as_str()) > 4 && ends_with(name.as_str(), ".dat") {
                crate::text_order::insert_name(&mut out, name);
            }
            i += 1;
        }
        assert(all.take(i as int) =~= all);
        out
    }
}

/// Whether a saved game is there, among the names of a directory.
pub open spec fn is_saved(names: Set<Seq<char>>, file: Seq<char>) -> bool {
    names.contains(save_file_name(file))
}

/// A game that was saved is there, under its name with and without the ending; a
/// game that was deleted is not, and no other game is touched.
pub proof fn law_saved_games_are_found(
    names: Set<Seq<char>>,
    file: Seq<char>,
    other: Seq<char>,
)
    ensures
        is_saved(names.insert(save_file_name(file)), file),
        !is_saved(names.remove(save_file_name(file)), file),
        !has_suffix(file, ".dat"@) ==> is_saved(names, file) == is_saved(names, file + ".dat"@),
        save_file_name(other) != save_file_name(file) ==> is_saved(
            names.insert(save_file_name(file)),
            other,
        ) == is_saved(names, other) && is_saved(names.remove(save_file_name(file)), other)
            == is_saved(names, other),
{
    law_save_names_settle(file);
}

/// A name that was resolved resolves to itself.
pub proof fn law_save_names_settle(file: Seq<char>)
    ensures
        save_file_name(save_file_name(file)) == save_file_name(file),
{
    let name = file + ".dat"@;
    assert(name.skip(name.len() - ".dat"@.len()) =~= ".dat"@);
}

/// The list of saved games is in ascending order.
pub proof fn law_save_names_are_sorted(names: Seq<Seq<char>>)
    ensures
        crate::text_order::text_sorted(save_names(names)),
    decreases names.len(),
{
    if names.len() > 0 {
        law_save_names_are_sorted(names.drop_last());
        crate::text_order::lemma_insert_sorted(save_names(names.drop_last()), names.last());
    }
}

/// What is kept of a channel is what it plays and how: its id, its file, whether
/// it repeats and may be skipped, its gain and its place.
pub proof fn law_channels_are_kept_as_they_are(channel: SoundChannel, kept: AudioChannelSnapshot)
    requires
        kept@ == channel_record(channel),
    ensures
        kept.id@ == channel.id@,
        kept.file@ == channel.file@,
        kept.loop_play == channel.loop_play,
        kept.gain == channel.raw_gain,
        kept.pan == channel.raw_pan,
        kept.skippable == channel.skippable,
{
}

/// Of the channels exactly those that play are kept.
pub proof fn law_silent_channels_are_not_kept(
    channels: Seq<(String, SoundChannel)>,
    name: String,
    channel: SoundChannel,
)
    ensures
        playing_records(Seq::empty()).len() == 0,
        channel.playing ==> playing_records(channels.push((name, channel))) == playing_records(
            channels,
        ).push(channel_record(channel)),
        !channel.playing ==> playing_records(channels.push((name, channel))) == playing_records(
            channels,
        ),
{
    assert(channels.push((name, channel)).drop_last() =~= channels);
}

/// What was kept starts again as it was, from the beginning and without a fade:
/// the music first, then the sounds, then the voices, in their order. Music
/// cannot be skipped.
pub proof fn law_kept_sounds_start_again(snapshot: SnapshotRecord, k: int)
    ensures
        ({
            let calls = replay_calls(snapshot);
            let music: int = if snapshot.bgm is Some {
                1
            } else {
                0
            };
            let sounds = snapshot.se.len();
            let plain = |c: ChannelRecord| SoundSettings {
                loop_play: c.loop_play,
                gain: Some(c.gain),
                pan: Some(c.pan),
                fade_in_ms: 0,
                skippable: c.skippable,
            };
            &&& calls.len() == music + sounds + snapshot.voice.len()
            &&& 0 <= k < music ==> calls[k] == (CallRecord::PlayBgm {
                file: snapshot.bgm->0.file,
                settings: SoundSettings { skippable: false, ..plain(snapshot.bgm->0) },
            })
            &&& music <= k < music + sounds ==> calls[k] == (CallRecord::PlaySe {
                id: snapshot.se[k - music].id,
                file: snapshot.se[k - music].file,
                settings: plain(snapshot.se[k - music]),
            })
            &&& music + sounds <= k < calls.len() ==> calls[k] == (CallRecord::PlayVoice {
                id: snapshot.voice[k - music - sounds].id,
                file: snapshot.voice[k - music - sounds].file,
                settings: plain(snapshot.voice[k - music - sounds]),
            })
        }),
{
}

/// The name of a saved game ends in `.dat`: it is the name that was asked for
/// where that ends so, and else that name with the ending behind it.
pub proof fn law_save_names_have_their_ending(file: Seq<char>)
    ensures
        ({
            let name = save_file_name(file);
            let ends = file.len() >= 4 && file.skip(file.len() - 4) == ".dat"@;
            &&& ends ==> name == file
            &&& !ends ==> name == file + ".dat"@
        }),
{
    reveal_strlit(".dat");
}

/// The list of saved games holds exactly the names of the directory that have
/// something before the ending `.dat`.
pub proof fn law_saved_games_are_listed(names: Seq<Seq<char>>, name: Seq<char>)
    ensures
        is_save_name(name) <==> name.len() > 4 && name.skip(name.len() - 4) == ".dat"@,
        save_names(names).contains(name) <==> names.contains(name) && is_save_name(name),
    decreases names.len(),
{
    reveal_strlit(".dat");
    if names.len() > 0 {
        let rest = names.drop_last();
        let last = names.last();
        law_saved_games_are_listed(rest, name);
        crate::text_order::lemma_insert_contains(save_names(rest), last, name);
        assert(names.contains(name) <==> rest.contains(name) || name == last) by {
            if names.contains(name) {
                let m = choose|m: int| 0 <= m < names.len() && names[m] == name;
                if m < rest.len() {
                    assert(rest[m] == name);
                }
            }
            if rest.contains(name) {
                let m = choose|m: int| 0 <= m < rest.len() && rest[m] == name;
                assert(names[m] == name);
            }
            assert(names[names.len() - 1] == last);
        }
    }
}

} // verus!
