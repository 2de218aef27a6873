//! What runs when sounds and videos end.
use crate::audio::{AudioState, FinishHandler, FinishRecord};
use crate::name_map::{text_map, NameMap};
use crate::runtime::handlers::{
    enqueue_handler_tags, handler_tags, lemma_queued_both, lemma_queued_none, pairs_view, queued,
    EventHandler, HandlerRecord, Tag, TagRecord,
};
use crate::strs::{copy_opt, copy_text, lemma_texts_push, texts};
use vstd::prelude::*;

verus! {

/// The tags that the script of an end queues.
pub open spec fn finish_tags(h: FinishRecord) -> Seq<TagRecord> {
    handler_tags(
        HandlerRecord {
            enabled: true,
            penetration: false,
            call: h.call,
            handler: h.handler,
            file: h.file,
            label: h.label,
            params: Map::empty(),
        },
        Seq::empty(),
    )
}

/// The tags of a script that may be missing.
pub open spec fn opt_finish_tags(h: Option<FinishHandler>) -> Seq<TagRecord> {
    match h {
        Some(handler) => finish_tags(handler@),
        None => Seq::empty(),
    }
}

/// Queues the tags of the script of an end, where there is one.
pub fn enqueue_finish(queue: &mut Vec<Tag>, finish: &Option<FinishHandler>)
    ensures
        queued(old(queue)@, final(queue)@, opt_finish_tags(*finish)),
{
    proof {
        lemma_queued_none(queue@);
    }
    if let Some(h) = finish {
        let handler = EventHandler {
            enabled: true,
            penetration: false,
            call: h.call,
            handler: copy_opt(&h.handler),
            file: copy_opt(&h.file),
            label: copy_opt(&h.label),
            params: NameMap::new(),
        };
        let event: Vec<(String, String)> = Vec::new();
        proof {
            assert(text_map(handler.params) =~= Map::empty());
            assert(pairs_view(event@) =~= Seq::empty());
        }
        enqueue_handler_tags(queue, &handler, &event);
    }
}

/// The end of a video: on a layer, or of the whole screen.
pub struct VideoFinish {
    pub id: Option<String>,
    pub handler: Option<FinishHandler>,
}

/// The tags of several ended sounds.
pub open spec fn sound_tags(ends: Seq<Option<FinishHandler>>) -> Seq<TagRecord>
    decreases ends.len(),
{
    if ends.len() == 0 {
        Seq::empty()
    } else {
        sound_tags(ends.drop_last()) + opt_finish_tags(ends.last())
    }
}

/// The tags of several ended videos.
pub open spec fn video_tags(ends: Seq<VideoFinish>) -> Seq<TagRecord>
    decreases ends.len(),
{
    if ends.len() == 0 {
        Seq::empty()
    } else {
        video_tags(ends.drop_last()) + opt_finish_tags(ends.last().handler)
    }
}

/// The layers whose videos ended.
pub open spec fn ended_layers(ends: Seq<VideoFinish>) -> Seq<Seq<char>>
    decreases ends.len(),
{
    if ends.len() == 0 {
        Seq::empty()
    } else {
        match ends.last().id {
            Some(id) => ended_layers(ends.drop_last()).push(id@),
            None => ended_layers(ends.drop_last()),
        }
    }
}

/// What follows from the ends of a frame.
pub struct MediaEnds {
    /// The layers that no longer show a video.
    pub cleared: Vec<String>,
    /// Whether a video of the whole screen ended.
    pub video_finished: bool,
}

/// Queues the scripts of what ended in a frame, sounds before videos. A host
/// that plays the media reports their ends itself: nothing follows here.
pub fn advance_media_and_enqueue_finish_handlers(
    queue: &mut Vec<Tag>,
    host_media: bool,
    sounds: &Vec<Option<FinishHandler>>,
    videos: &Vec<VideoFinish>,
) -> (out: MediaEnds)
    ensures
        host_media ==> queued(old(queue)@, final(queue)@, Seq::empty()) && out.cleared@.len() == 0
            && !out.video_finished,
        !host_media ==> queued(
            old(queue)@,
            final(queue)@,
            sound_tags(sounds@) + video_tags(videos@),
        ),
        !host_media ==> texts(out.cleared@) == ended_layers(videos@),
        !host_media ==> out.video_finished == (exists|i: int|
            0 <= i < videos@.len() && (#[trigger] videos@[i]).id is None),
{
    let mut out = MediaEnds { cleared: Vec::new(), video_finished: false };
    let ghost start = queue@;
    proof {
        lemma_queued_none(start);
    }
    if host_media {
        return out;
    }
    let mut i: usize = 0;
    assert(sounds@.take(0) =~= Seq::empty());
    while i < sounds.len()
        invariant
            i <= sounds.len(),
            queued(start, queue@, sound_tags(sounds@.take(i as int))),
        decreases sounds.len() - i,
    {
        let ghost middle = queue@;
        enqueue_finish(queue, &sounds[i]);
        proof {
            assert(sounds@.take(i + 1).drop_last() =~= sounds@.take(i as int));
            lemma_queued_both(
                start,
                middle,
                queue@,
                sound_tags(sounds@.take(i as int)),
                opt_finish_tags(sounds@[i as int]),
            );
        }
        i += 1;
    }
    assert(sounds@.take(i as int) =~= sounds@);
    let ghost between = queue@;
    let mut k: usize = 0;
    proof {
        lemma_queued_none(between);
        assert(videos@.take(0) =~= Seq::empty());
        assert(texts(out.cleared@) =~= Seq::empty());
    }
    while k < videos.len()
        invariant
            k <= videos.len(),
            queued(between, queue@, video_tags(videos@.take(k as int))),
            texts(out.cleared@) == ended_layers(videos@.take(k as int)),
            out.video_finished == (exists|j: int|
                0 <= j < k && (#[trigger] videos@[j]).id is None),
        decreases videos.len() - k,
    {
        let ghost middle = queue@;
        let video = &videos[k];
        enqueue_finish(queue, &video.handler);
        proof {
            assert(videos@.take(k + 1).drop_last() =~= videos@.take(k as int));
            lemma_queued_both(
                between,
                middle,
                queue@,
                video_tags(videos@.take(k as int)),
                opt_finish_tags(video.handler),
            );
        }
        match &video.id {
            Some(id) => {
                let name = copy_text(id.as_str());
                proof {
                    lemma_texts_push(out.cleared@, name);
                }
                out.cleared.push(name);
            },
            None => {
                out.video_finished = true;
            },
        }
        k += 1;
    }
    proof {
        assert(videos@.take(k as int) =~= videos@);
        lemma_queued_both(
            start,
            between,
            queue@,
            sound_tags(sounds@),
            video_tags(videos@),
        );
    }
    out
}

/// The script that waits for the end of a sound; without an id, of the
/// background music.
pub open spec fn sound_end_tags(state: AudioState, id: Option<Seq<char>>) -> Seq<TagRecord> {
    match id {
        Some(id) => if state.se_finish_handlers@.contains_key(id) {
            finish_tags(state.se_finish_handlers@[id]@)
        } else {
            Seq::empty()
        },
        None => opt_finish_tags(state.bgm_finish_handler),
    }
}

/// Takes the host's word that a sound ended: its script is queued, and a voice
/// of that id is gone. The caller stops the sound, without an id the background
/// music, and drops ends that were noted meanwhile.
pub fn notify_sound_finished(queue: &mut Vec<Tag>, state: &mut AudioState, id: Option<&str>)
    requires
        old(state).wf(),
    ensures
        (*final(state)).wf(),
        queued(
            old(queue)@,
            final(queue)@,
            sound_end_tags(
                *old(state),
                match id {
                    Some(id) => Some(id@),
                    None => None,
                },
            ),
        ),
        final(state).voice_channels@ == (match id {
            Some(id) => old(state).voice_channels@.remove(id@),
            None => old(state).voice_channels@,
        }),
        final(state).bgm_channel == old(state).bgm_channel,
        final(state).se_channels == old(state).se_channels,
        final(state).bgm_finish_handler == old(state).bgm_finish_handler,
        final(state).se_finish_handlers == old(state).se_finish_handlers,
{
    match id {
        Some(id) => {
            let _gone = state.voice_channels.remove(id);
            let handler = match state.se_finish_handlers.get(id) {
                Some(handler) => Some(handler.copy()),
                None => None,
            };
            enqueue_finish(queue, &handler);
        },
        None => enqueue_finish(queue, &state.bgm_finish_handler),
    }
}

/// Takes the host's word that a video ended: its script is queued. The caller
/// stops the video, on the layer `id` or on the whole screen. Whether the end
/// is that of a video of the whole screen is handed out.
pub fn notify_video_finished(
    queue: &mut Vec<Tag>,
    handler: &Option<FinishHandler>,
    id: Option<&str>,
) -> (out: bool)
    ensures
        queued(old(queue)@, final(queue)@, opt_finish_tags(*handler)),
        out == (id is None),
{
    enqueue_finish(queue, handler);
    id.is_none()
}

// ── What holds of ends ─────────────────────────────────────────

/// The script of an end runs its own tag without parameters, and goes to its
/// target as any handler does.
pub proof fn law_ends_run_their_scripts(h: FinishRecord)
    ensures
        ({
            let tags = finish_tags(h);
            let own: int = if h.handler is Some {
                1
            } else {
                0
            };
            let has_target = h.file is Some || h.label is Some;
            &&& tags.len() == own + (if has_target {
                1int
            } else {
                0
            })
            &&& h.handler matches Some(name) ==> tags[0].name == name && tags[0].params
                == Map::<Seq<char>, Seq<char>>::empty()
            &&& has_target ==> tags[own].name == (if h.call {
                "call"@
            } else {
                "jump"@
            })
            &&& h.file matches Some(file) ==> tags[own].params.contains_key("file"@)
                && tags[own].params["file"@] == file
            &&& h.label matches Some(label) ==> tags[own].params.contains_key("label"@)
                && tags[own].params["label"@] == label
        }),
{
    reveal_strlit("file");
    reveal_strlit("label");
    assert("file"@.len() != "label"@.len());
}

/// Sounds and videos that ended run their scripts in their order; what has no
/// script runs none, and a layer whose video ended is named.
pub proof fn law_ends_come_in_order(
    sounds: Seq<Option<FinishHandler>>,
    sound: Option<FinishHandler>,
    videos: Seq<VideoFinish>,
    video: VideoFinish,
)
    ensures
        sound_tags(Seq::empty()).len() == 0,
        video_tags(Seq::empty()).len() == 0,
        ended_layers(Seq::empty()).len() == 0,
        sound is None ==> sound_tags(sounds.push(sound)) == sound_tags(sounds),
        sound matches Some(h) ==> sound_tags(sounds.push(sound)) == sound_tags(sounds)
            + finish_tags(h@),
        video.handler is None ==> video_tags(videos.push(video)) == video_tags(videos),
        video.handler matches Some(h) ==> video_tags(videos.push(video)) == video_tags(videos)
            + finish_tags(h@),
        video.id is None ==> ended_layers(videos.push(video)) == ended_layers(videos),
        video.id matches Some(id) ==> ended_layers(videos.push(video)) == ended_layers(videos).push(
            id@,
        ),
{
    assert(sounds.push(sound).drop_last() =~= sounds);
    assert(videos.push(video).drop_last() =~= videos);
    assert(sound_tags(sounds) + Seq::<TagRecord>::empty() =~= sound_tags(sounds));
    assert(video_tags(videos) + Seq::<TagRecord>::empty() =~= video_tags(videos));
}

/// The end of a sound runs the script that waits for that sound, and the end of
/// the background music the one that waits for it.
pub proof fn law_each_end_has_its_script(state: AudioState, id: Seq<char>)
    ensures
        state.se_finish_handlers@.contains_key(id) ==> sound_end_tags(state, Some(id))
            == finish_tags(state.se_finish_handlers@[id]@),
        !state.se_finish_handlers@.contains_key(id) ==> sound_end_tags(state, Some(id)).len() == 0,
        state.bgm_finish_handler matches Some(h) ==> sound_end_tags(state, None) == finish_tags(h@),
        state.bgm_finish_handler is None ==> sound_end_tags(state, None).len() == 0,
{
}

} // verus!
