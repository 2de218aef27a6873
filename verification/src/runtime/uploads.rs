//! How the textures of figures reach the graphics device.
use crate::render_pipeline::draw::{
    blocks_handed, pixels_handed, TextureId, TextureInfo, TextureProvider, UploadRecord,
};
use crate::runtime::dxt5::{decode_dxt5_rgba8, dxt5_fault, is_decoded};
use crate::strs::{concat, copy_text, decimal_of, decimal_text, lemma_texts_push, list_has, texts};
use vstd::prelude::*;

verus! {

/// What is done next for a texture.
#[derive(Clone, Copy, Debug, PartialEq, Eq, Structural)]
pub enum UploadStep {
    /// Its compressed bytes are read from the model.
    ReadSource,
    /// They are uploaded as they are.
    UploadCompressed,
    /// The form that the device takes is read from the cache.
    ReadCache,
    /// What the cache had is uploaded.
    UploadCached,
    /// The compressed bytes are turned into pixels.
    Decode,
    /// The pixels are turned into the form that the device takes.
    Encode,
    /// That form is put into the cache and uploaded.
    UploadEncoded,
    /// The pixels are uploaded.
    UploadPixels,
    /// The texture is there.
    Uploaded,
    /// The device took it in no form. It is tried again with the next frame.
    Missing,
    /// The texture cannot be had from the model.
    Failed,
}

/// The step after another. `done` says whether that one succeeded; a cached
/// form of the wrong length does not count as read. `recodes` says whether the
/// device takes a form of its own.
pub open spec fn upload_after(step: UploadStep, done: bool, recodes: bool) -> UploadStep {
    match step {
        UploadStep::ReadSource => if done {
            UploadStep::UploadCompressed
        } else {
            UploadStep::Failed
        },
        UploadStep::UploadCompressed => if done {
            UploadStep::Uploaded
        } else if recodes {
            UploadStep::ReadCache
        } else {
            UploadStep::Decode
        },
        UploadStep::ReadCache => if done {
            UploadStep::UploadCached
        } else {
            UploadStep::Decode
        },
        UploadStep::UploadCached => if done {
            UploadStep::Uploaded
        } else {
            UploadStep::Decode
        },
        UploadStep::Decode => if !done {
            UploadStep::Failed
        } else if recodes {
            UploadStep::Encode
        } else {
            UploadStep::UploadPixels
        },
        UploadStep::Encode => if done {
            UploadStep::UploadEncoded
        } else {
            UploadStep::UploadPixels
        },
        UploadStep::UploadEncoded => if done {
            UploadStep::Uploaded
        } else {
            UploadStep::UploadPixels
        },
        UploadStep::UploadPixels => if done {
            UploadStep::Uploaded
        } else {
            UploadStep::Missing
        },
        UploadStep::Uploaded => UploadStep::Uploaded,
        UploadStep::Missing => UploadStep::Missing,
        UploadStep::Failed => UploadStep::Failed,
    }
}

/// Finds the step after another.
pub fn next_upload_step(step: UploadStep, done: bool, recodes: bool) -> (out: UploadStep)
    ensures
        out == upload_after(step, done, recodes),
{
    match step {
        UploadStep::ReadSource => if done {
            UploadStep::UploadCompressed
        } else {
            UploadStep::Failed
        },
        UploadStep::UploadCompressed => if done {
            UploadStep::Uploaded
        } else if recodes {
            UploadStep::ReadCache
        } else {
            UploadStep::Decode
        },
        UploadStep::ReadCache => if done {
            UploadStep::UploadCached
        } else {
            UploadStep::Decode
        },
        UploadStep::UploadCached => if done {
            UploadStep::Uploaded
        } else {
            UploadStep::Decode
        },
        UploadStep::Decode => if !done {
            UploadStep::Failed
        } else if recodes {
            UploadStep::Encode
        } else {
            UploadStep::UploadPixels
        },
        UploadStep::Encode => if done {
            UploadStep::UploadEncoded
        } else {
            UploadStep::UploadPixels
        },
        UploadStep::UploadEncoded => if done {
            UploadStep::Uploaded
        } else {
            UploadStep::UploadPixels
        },
        UploadStep::UploadPixels => if done {
            UploadStep::Uploaded
        } else {
            UploadStep::Missing
        },
        UploadStep::Uploaded => UploadStep::Uploaded,
        UploadStep::Missing => UploadStep::Missing,
        UploadStep::Failed => UploadStep::Failed,
    }
}

/// Whether nothing is left to do for a texture.
pub open spec fn upload_over(step: UploadStep) -> bool {
    step == UploadStep::Uploaded || step == UploadStep::Missing || step == UploadStep::Failed
}

/// The step after several, whose successes are given.
pub open spec fn upload_run(step: UploadStep, done: Seq<bool>, recodes: bool) -> UploadStep
    decreases done.len(),
{
    if done.len() == 0 {
        step
    } else {
        upload_after(upload_run(step, done.drop_last(), recodes), done.last(), recodes)
    }
}

/// How many steps are left at most.
spec fn upload_rank(step: UploadStep) -> nat {
    match step {
        UploadStep::ReadSource => 8,
        UploadStep::UploadCompressed => 7,
        UploadStep::ReadCache => 6,
        UploadStep::UploadCached => 5,
        UploadStep::Decode => 4,
        UploadStep::Encode => 3,
        UploadStep::UploadEncoded => 2,
        UploadStep::UploadPixels => 1,
        _ => 0,
    }
}

proof fn lemma_rank_falls(step: UploadStep, done: Seq<bool>, recodes: bool)
    ensures
        upload_rank(upload_run(step, done, recodes)) + done.len() <= upload_rank(step)
            || upload_over(upload_run(step, done, recodes)),
    decreases done.len(),
{
    if done.len() > 0 {
        lemma_rank_falls(step, done.drop_last(), recodes);
    }
}

/// An upload ends after at most eight steps, however they turn out.
pub proof fn law_uploads_end(done: Seq<bool>, recodes: bool)
    requires
        done.len() >= 8,
    ensures
        upload_over(upload_run(UploadStep::ReadSource, done, recodes)),
{
    lemma_rank_falls(UploadStep::ReadSource, done, recodes);
}

/// A texture fails only where the model cannot be read or decoded: whatever the
/// device refuses, another form follows.
pub proof fn law_only_the_model_fails(step: UploadStep, done: bool, recodes: bool)
    requires
        !upload_over(step),
        upload_after(step, done, recodes) == UploadStep::Failed,
    ensures
        !done,
        step == UploadStep::ReadSource || step == UploadStep::Decode,
{
}

/// A device without a form of its own is given the compressed bytes and the
/// pixels, and nothing else.
pub proof fn law_plain_devices_get_two_forms(done: Seq<bool>)
    ensures
        ({
            let step = upload_run(UploadStep::ReadSource, done, false);
            &&& step != UploadStep::ReadCache
            &&& step != UploadStep::UploadCached
            &&& step != UploadStep::Encode
            &&& step != UploadStep::UploadEncoded
        }),
    decreases done.len(),
{
    if done.len() > 0 {
        law_plain_devices_get_two_forms(done.drop_last());
    }
}

/// Whether the model's file is no longer needed: every texture is there.
pub fn source_is_done(uploaded: &Vec<bool>) -> (out: bool)
    ensures
        out == (forall|i: int| 0 <= i < uploaded@.len() ==> uploaded@[i]),
{
    let mut i: usize = 0;
    while i < uploaded.len()
        invariant
            i <= uploaded.len(),
            forall|j: int| 0 <= j < i ==> uploaded@[j],
        decreases uploaded.len() - i,
    {
        if !uploaded[i] {
            return false;
        }
        i += 1;
    }
    true
}

/// Why a texture cannot be had from its model.
pub enum UploadFault {
    /// The model's file is gone, and the device lost the texture.
    Evicted,
    Unreadable { error: String },
    Undecodable { error: String },
}

/// What is said of a texture that cannot be had.
pub open spec fn fault_text(id: Seq<char>, fault: UploadFault) -> Seq<char> {
    match fault {
        UploadFault::Evicted => "E-Mote texture "@ + id + " was evicted after source release"@,
        UploadFault::Unreadable { error } => "failed to read E-Mote texture "@ + id + ": "@
            + error@,
        UploadFault::Undecodable { error } => "failed to decode E-Mote texture "@ + id + ": "@
            + error@,
    }
}

/// Tells why a texture cannot be had.
pub fn upload_fault(id: &str, fault: &UploadFault) -> (out: String)
    ensures
        out@ == fault_text(id@, *fault),
{
    match fault {
        UploadFault::Evicted => {
            let mut out = concat("E-Mote texture ", id);
            out.append(" was evicted after source release");
            out
        },
        UploadFault::Unreadable { error } => {
            let mut out = concat("failed to read E-Mote texture ", id);
            out.append(": ");
            out.append(error.as_str());
            out
        },
        UploadFault::Undecodable { error } => {
            let mut out = concat("failed to decode E-Mote texture ", id);
            out.append(": ");
            out.append(error.as_str());
            out
        },
    }
}

// ── Textures of the other renderer ─────────────────────────────

/// The name of a texture of a figure of the other renderer.
pub fn eluna_texture_name(generation: u64, source: &str) -> (out: String)
    ensures
        out@ == ":emote/eluna/"@ + decimal_text(generation as nat) + "/"@ + source@,
{
    let mut out = concat(":emote/eluna/", decimal_of(generation).as_str());
    out.append("/");
    out.append(source);
    out
}

/// What becomes of a texture of the other renderer that the device did not take
/// as it was: what the device made of its pixels, or what is said.
pub open spec fn pixels_outcome(
    index: u32,
    fault: Option<Seq<char>>,
    uploaded: Option<(TextureId, TextureInfo)>,
) -> Result<(TextureId, TextureInfo), Seq<char>> {
    match fault {
        Some(message) => Err(
            "Eluna failed to decode texture "@ + decimal_text(index as nat) + ": "@ + message,
        ),
        None => match uploaded {
            Some(texture) => Ok(texture),
            None => Err(
                "Eluna failed to upload texture resource "@ + decimal_text(index as nat),
            ),
        },
    }
}

/// What comes back, by its contents.
pub open spec fn outcome_view(out: Result<(TextureId, TextureInfo), String>) -> Result<
    (TextureId, TextureInfo),
    Seq<char>,
> {
    match out {
        Ok(texture) => Ok(texture),
        Err(message) => Err(message@),
    }
}

/// Takes what the device made of the pixels of a texture.
pub fn take_pixels_outcome(
    index: u32,
    fault: Option<String>,
    uploaded: Option<(TextureId, TextureInfo)>,
) -> (out: Result<(TextureId, TextureInfo), String>)
    ensures
        outcome_view(out) == pixels_outcome(
            index,
            match fault {
                Some(message) => Some(message@),
                None => None,
            },
            uploaded,
        ),
{
    match fault {
        Some(error) => {
            let mut message = concat("Eluna failed to decode texture ", decimal_of(index as u64).as_str());
            message.append(": ");
            message.append(error.as_str());
            Err(message)
        },
        None => match uploaded {
            Some(texture) => Ok(texture),
            None => Err(
                concat("Eluna failed to upload texture resource ", decimal_of(index as u64).as_str()),
            ),
        },
    }
}

/// A texture of a figure of the other renderer.
pub struct ElunaTexture {
    /// The number of the resource that holds it.
    pub index: u32,
    pub name: String,
    pub width: u32,
    pub height: u32,
    /// What the device made of it, once it did.
    pub gpu: Option<(TextureId, TextureInfo)>,
    pub data: Vec<u8>,
}

/// What a texture holds.
#[verifier::ext_equal]
pub struct TextureRecord {
    pub index: u32,
    pub name: Seq<char>,
    pub width: u32,
    pub height: u32,
    pub gpu: Option<(TextureId, TextureInfo)>,
    pub data: Seq<u8>,
}

impl View for ElunaTexture {
    type V = TextureRecord;

    open spec fn view(&self) -> TextureRecord {
        TextureRecord {
            index: self.index,
            name: self.name@,
            width: self.width,
            height: self.height,
            gpu: self.gpu,
            data: self.data@,
        }
    }
}

/// The records of textures.
pub open spec fn texture_records(textures: Seq<ElunaTexture>) -> Seq<TextureRecord> {
    Seq::new(textures.len(), |i: int| textures[i]@)
}

/// Whether a texture that can be decoded has pixels that can be counted.
pub open spec fn pixels_fit(t: TextureRecord) -> bool {
    dxt5_fault(t.data.len(), t.width, t.height) is None ==> t.width * t.height * 4 <= usize::MAX
}

/// What becomes of a texture whose blocks the device did not take: its pixels are
/// decoded and handed to the device, once. A texture that cannot be decoded is
/// not.
pub open spec fn uploaded_as_pixels(
    t: TextureRecord,
    before: Option<Seq<UploadRecord>>,
    after: Option<Seq<UploadRecord>>,
    outcome: Result<(TextureId, TextureInfo), Seq<char>>,
) -> bool {
    match dxt5_fault(t.data.len(), t.width, t.height) {
        Some(fault) => after == before && outcome == pixels_outcome(t.index, Some(fault), None),
        None => exists|pixels: Seq<u8>, made: Option<(TextureId, TextureInfo)>|
            after == #[trigger] pixels_handed(before, t.name, t.width, t.height, pixels, made)
                && is_decoded(pixels, t.data, t.width, t.height) && outcome == pixels_outcome(
                t.index,
                None,
                made,
            ),
    }
}

/// What becomes of a texture: the device is handed its blocks, once; where it
/// makes nothing of them, its pixels follow. The device's account goes from
/// `before` to `after`.
pub open spec fn texture_uploaded(
    t: TextureRecord,
    before: Option<Seq<UploadRecord>>,
    after: Option<Seq<UploadRecord>>,
    outcome: Result<(TextureId, TextureInfo), Seq<char>>,
) -> bool {
    exists|made: Option<(TextureId, TextureInfo)>|
        {
            let offered = #[trigger] blocks_handed(before, t.name, t.width, t.height, t.data, made);
            match made {
                Some(texture) => after == offered && outcome == Ok::<_, Seq<char>>(texture),
                None => uploaded_as_pixels(t, offered, after, outcome),
            }
        }
}

/// Uploads a texture of the other renderer: as it is where the device takes it,
/// otherwise as pixels.
pub fn upload_texture<P: TextureProvider>(provider: &mut P, texture: &ElunaTexture) -> (out: Result<
    (TextureId, TextureInfo),
    String,
>)
    requires
        pixels_fit(texture@),
    ensures
        texture_uploaded(
            texture@,
            old(provider).account(),
            final(provider).account(),
            outcome_view(out),
        ),
{
    let name = texture.name.as_str();
    let data = texture.data.as_slice();
    let ghost t = texture@;
    let ghost before = provider.account();
    let blocks = provider.upload_dxt5_render_only(name, texture.width, texture.height, data);
    let ghost offered = provider.account();
    assert(offered == blocks_handed(before, t.name, t.width, t.height, t.data, blocks));
    if let Some(made) = blocks {
        return Ok(made);
    }
    match decode_dxt5_rgba8(data, texture.width, texture.height) {
        Ok(rgba) => {
            let made = provider.upload_rgba_render_only(
                name,
                texture.width,
                texture.height,
                rgba.as_slice(),
            );
            assert(provider.account() == pixels_handed(
                offered,
                t.name,
                t.width,
                t.height,
                rgba@,
                made,
            ));
            take_pixels_outcome(texture.index, None, made)
        },
        Err(error) => take_pixels_outcome(texture.index, Some(error), None),
    }
}

/// An upload of several textures on its way.
#[verifier::ext_equal]
pub struct UploadState {
    /// What the device was handed.
    pub account: Option<Seq<UploadRecord>>,
    /// The textures, with what the device made of them.
    pub textures: Seq<TextureRecord>,
    /// How many textures were seen to.
    pub seen: int,
    /// What ended the upload.
    pub fault: Option<Seq<char>>,
}

/// The state after the outcome of the texture at `at`.
pub open spec fn with_outcome(
    s: UploadState,
    at: int,
    account: Option<Seq<UploadRecord>>,
    outcome: Result<(TextureId, TextureInfo), Seq<char>>,
) -> UploadState {
    UploadState {
        account,
        textures: match outcome {
            Ok(made) => s.textures.update(at, TextureRecord { gpu: Some(made), ..s.textures[at] }),
            Err(_) => s.textures,
        },
        seen: at + 1,
        fault: match outcome {
            Ok(_) => None,
            Err(message) => Some(message),
        },
    }
}

/// How the texture at `at` is seen to. What the device has is not uploaded again,
/// and behind a fault nothing is.
pub open spec fn sees_to(
    before: UploadState,
    after: UploadState,
    at: int,
) -> bool {
    if before.fault is Some {
        after == before
    } else if before.textures[at].gpu is Some {
        after == (UploadState { seen: at + 1, ..before })
    } else {
        exists|outcome: Result<(TextureId, TextureInfo), Seq<char>>|
            #[trigger] texture_uploaded(
                before.textures[at],
                before.account,
                after.account,
                outcome,
            ) && after == with_outcome(before, at, after.account, outcome)
    }
}

/// How the first `n` textures are seen to, one after the other.
pub open spec fn sees_to_all(
    before: UploadState,
    after: UploadState,
    n: int,
) -> bool
    decreases n,
{
    if n <= 0 {
        after == before
    } else {
        exists|between: UploadState|
            sees_to_all(before, between, n - 1) && #[trigger] sees_to(between, after, n - 1)
    }
}

/// An upload that begins.
pub open spec fn upload_begins(
    account: Option<Seq<UploadRecord>>,
    textures: Seq<TextureRecord>,
) -> UploadState {
    UploadState { account, textures, seen: 0, fault: None }
}

/// Behind a fault nothing is uploaded.
proof fn lemma_fault_ends(
    before: UploadState,
    after: UploadState,
    n: int,
    last: int,
)
    requires
        0 <= n <= last,
        sees_to_all(before, after, n),
        after.fault is Some,
    ensures
        sees_to_all(before, after, last),
    decreases last - n,
{
    if n < last {
        lemma_fault_ends(before, after, n, last - 1);
        assert(sees_to(after, after, last - 1));
    }
}

/// The names of the first `n` textures.
pub open spec fn texture_names(textures: Seq<TextureRecord>, n: int) -> Set<Seq<char>> {
    Set::new(|name: Seq<char>| exists|i: int| 0 <= i < n && (#[trigger] textures[i]).name == name)
}

/// Uploads the textures of a figure of the other renderer, in their order, and
/// notes the names of those that were seen to among the names to keep. The first
/// fault ends it.
pub fn upload_textures<P: TextureProvider>(
    provider: &mut P,
    textures: &mut Vec<ElunaTexture>,
    retained: &mut Vec<String>,
) -> (out: Result<(), String>)
    requires
        forall|i: int|
            0 <= i < old(textures)@.len() ==> pixels_fit((#[trigger] old(textures)@[i])@),
    ensures
        exists|end: UploadState|
            {
                &&& #[trigger] sees_to_all(
                    upload_begins(old(provider).account(), texture_records(old(textures)@)),
                    end,
                    old(textures)@.len() as int,
                )
                &&& end.account == final(provider).account()
                &&& end.textures == texture_records(final(textures)@)
                &&& texts(final(retained)@).to_set() == texts(old(retained)@).to_set().union(
                    texture_names(texture_records(old(textures)@), end.seen),
                )
                &&& match out {
                    Ok(()) => end.fault is None,
                    Err(message) => end.fault == Some(message@),
                }
            },
{
    let ghost start = texture_records(textures@);
    let ghost begin = upload_begins(provider.account(), start);
    let ghost kept = texts(retained@).to_set();
    let ghost mut state = begin;
    let mut i: usize = 0;
    proof {
        assert(kept.union(texture_names(start, 0)) =~= kept);
    }
    while i < textures.len()
        invariant
            i <= textures.len(),
            start.len() == textures@.len(),
            start == texture_records(old(textures)@),
            begin == upload_begins(old(provider).account(), start),
            kept == texts(old(retained)@).to_set(),
            forall|k: int| 0 <= k < start.len() ==> pixels_fit(#[trigger] start[k]),
            sees_to_all(begin, state, i as int),
            state.account == provider.account(),
            state.textures == texture_records(textures@),
            state.seen == i,
            state.fault is None,
            forall|k: int| i <= k < start.len() ==> state.textures[k] == #[trigger] start[k],
            texts(retained@).to_set() == kept.union(texture_names(start, i as int)),
        decreases textures.len() - i,
    {
        let ghost names = texts(retained@);
        let ghost now = textures@;
        let ghost t = start[i as int];
        assert(textures@[i as int]@ == t) by {
            assert(state.textures[i as int] == start[i as int]);
        }
        if !list_has(retained, textures[i].name.as_str()) {
            let name = copy_text(textures[i].name.as_str());
            proof {
                lemma_texts_push(retained@, name);
            }
            retained.push(name);
        }
        proof {
            lemma_name_noted(names, texts(retained@), t.name);
            assert(texture_names(start, i + 1) =~= texture_names(start, i as int).insert(t.name))
                by {
                assert(start[i as int].name == t.name);
            }
            assert(texts(retained@).to_set() =~= kept.union(texture_names(start, i + 1)));
        }
        if textures[i].gpu.is_none() {
            let uploaded = upload_texture(provider, &textures[i]);
            let ghost outcome = outcome_view(uploaded);
            let ghost after = with_outcome(state, i as int, provider.account(), outcome);
            proof {
                assert(texture_uploaded(
                    state.textures[i as int],
                    state.account,
                    after.account,
                    outcome,
                ));
                assert(sees_to(state, after, i + 1 - 1));
                assert(sees_to_all(begin, after, i + 1));
                state = after;
            }
            match uploaded {
                Ok(made) => {
                    textures[i].gpu = Some(made);
                    assert(texture_records(textures@) =~= state.textures);
                },
                Err(message) => {
                    proof {
                        lemma_fault_ends(begin, state, i + 1, start.len() as int);
                    }
                    return Err(message);
                },
            }
        } else {
            proof {
                let after = UploadState { seen: i + 1, ..state };
                assert(sees_to(state, after, i + 1 - 1));
                assert(sees_to_all(begin, after, i + 1));
                state = after;
            }
        }
        i += 1;
    }
    Ok(())
}

/// Noting a name adds it to the names.
proof fn lemma_name_noted(before: Seq<Seq<char>>, after: Seq<Seq<char>>, name: Seq<char>)
    requires
        after == if before.contains(name) {
            before
        } else {
            before.push(name)
        },
    ensures
        after.to_set() == before.to_set().insert(name),
{
    assert forall|other: Seq<char>| after.contains(other) <==> (before.contains(other) || other
        == name) by {
        if before.contains(other) {
            let k = choose|k: int| 0 <= k < before.len() && before[k] == other;
            assert(after[k] == other);
        }
        if other == name && !before.contains(name) {
            assert(after[before.len() as int] == other);
        }
    }
    assert(after.to_set() =~= before.to_set().insert(name));
}

// ── What reaches the device ────────────────────────────────────

/// A texture is read from its model first and offered to the device as it is. A
/// device with a form of its own is offered what the cache has of that form, and
/// where that fails the pixels recoded; at last every device is offered the
/// pixels themselves. The first form that is taken ends the upload. Only a source
/// that cannot be read, or pixels that cannot be decoded, are a fault.
pub proof fn law_forms_are_tried_in_order(done: bool, recodes: bool)
    ensures
        upload_after(UploadStep::ReadSource, done, recodes) == (if done {
            UploadStep::UploadCompressed
        } else {
            UploadStep::Failed
        }),
        upload_after(UploadStep::UploadCompressed, true, recodes) == UploadStep::Uploaded,
        upload_after(UploadStep::UploadCompressed, false, true) == UploadStep::ReadCache,
        upload_after(UploadStep::UploadCompressed, false, false) == UploadStep::Decode,
        upload_after(UploadStep::ReadCache, done, recodes) == (if done {
            UploadStep::UploadCached
        } else {
            UploadStep::Decode
        }),
        upload_after(UploadStep::UploadCached, done, recodes) == (if done {
            UploadStep::Uploaded
        } else {
            UploadStep::Decode
        }),
        upload_after(UploadStep::Decode, false, recodes) == UploadStep::Failed,
        upload_after(UploadStep::Decode, true, true) == UploadStep::Encode,
        upload_after(UploadStep::Decode, true, false) == UploadStep::UploadPixels,
        upload_after(UploadStep::Encode, done, recodes) == (if done {
            UploadStep::UploadEncoded
        } else {
            UploadStep::UploadPixels
        }),
        upload_after(UploadStep::UploadEncoded, done, recodes) == (if done {
            UploadStep::Uploaded
        } else {
            UploadStep::UploadPixels
        }),
        upload_after(UploadStep::UploadPixels, done, recodes) == (if done {
            UploadStep::Uploaded
        } else {
            UploadStep::Missing
        }),
{
}

/// What is over stays over, and nothing else is.
pub proof fn law_ended_uploads_stay_ended(step: UploadStep, done: bool, recodes: bool)
    ensures
        upload_over(step) <==> step == UploadStep::Uploaded || step == UploadStep::Missing || step
            == UploadStep::Failed,
        upload_over(step) ==> upload_after(step, done, recodes) == step,
        !upload_over(step) ==> upload_after(step, done, recodes) != step,
{
}

/// What is said of a fault names the texture and what was wrong with it.
pub proof fn law_faults_name_their_texture(id: Seq<char>, error: String, index: u32)
    ensures
        fault_text(id, UploadFault::Evicted) == "E-Mote texture "@ + id
            + " was evicted after source release"@,
        fault_text(id, UploadFault::Unreadable { error }) == "failed to read E-Mote texture "@ + id
            + ": "@ + error@,
        fault_text(id, UploadFault::Undecodable { error }) == "failed to decode E-Mote texture "@
            + id + ": "@ + error@,
        pixels_outcome(index, Some(error@), None) == Err::<(TextureId, TextureInfo), Seq<char>>(
            "Eluna failed to decode texture "@ + decimal_text(index as nat) + ": "@ + error@,
        ),
        pixels_outcome(index, None, None) == Err::<(TextureId, TextureInfo), Seq<char>>(
            "Eluna failed to upload texture resource "@ + decimal_text(index as nat),
        ),
{
}

/// A device that keeps an account of what it is handed gets the blocks of a
/// texture first, under the texture's own name and in its size. Where it makes a
/// texture of them, that is all and comes back; else it gets the decoded pixels,
/// and what it makes of these comes back. A texture that cannot be decoded is not
/// handed over again.
pub proof fn law_blocks_come_before_pixels(
    t: TextureRecord,
    before: Seq<UploadRecord>,
    after: Seq<UploadRecord>,
    outcome: Result<(TextureId, TextureInfo), Seq<char>>,
)
    requires
        texture_uploaded(t, Some(before), Some(after), outcome),
    ensures
        ({
            let n = before.len() as int;
            let first = after[n];
            let second = after[n + 1];
            let decodes = dxt5_fault(t.data.len(), t.width, t.height) is None;
            &&& after.len() > n
            &&& after.take(n) == before
            &&& first.name == t.name && first.width == t.width && first.height == t.height
            &&& first.data == t.data && first.blocks
            &&& first.made matches Some(made) ==> after.len() == n + 1 && outcome == Ok::<
                (TextureId, TextureInfo),
                Seq<char>,
            >(made)
            &&& first.made is None && !decodes ==> after.len() == n + 1 && outcome is Err
            &&& first.made is None && decodes ==> {
                &&& after.len() == n + 2
                &&& second.name == t.name && second.width == t.width && second.height == t.height
                &&& !second.blocks
                &&& is_decoded(second.data, t.data, t.width, t.height)
                &&& second.made matches Some(made) ==> outcome == Ok::<
                    (TextureId, TextureInfo),
                    Seq<char>,
                >(made)
                &&& second.made is None ==> outcome is Err
            }
        }),
{
    let n = before.len() as int;
    let made = choose|made: Option<(TextureId, TextureInfo)>|
        {
            let offered = #[trigger] blocks_handed(
                Some(before),
                t.name,
                t.width,
                t.height,
                t.data,
                made,
            );
            match made {
                Some(texture) => Some(after) == offered && outcome == Ok::<_, Seq<char>>(texture),
                None => uploaded_as_pixels(t, offered, Some(after), outcome),
            }
        };
    let offered = blocks_handed(Some(before), t.name, t.width, t.height, t.data, made);
    let log = offered->0;
    assert(log.take(n) =~= before);
    if made is None && dxt5_fault(t.data.len(), t.width, t.height) is None {
        let (pixels, other) = choose|pixels: Seq<u8>, other: Option<(TextureId, TextureInfo)>|
            Some(after) == #[trigger] pixels_handed(
                offered,
                t.name,
                t.width,
                t.height,
                pixels,
                other,
            ) && is_decoded(pixels, t.data, t.width, t.height) && outcome == pixels_outcome(
                t.index,
                None,
                other,
            );
        assert(after.take(n) =~= before);
        assert(after[n] == log[n]);
    }
}

/// Textures are seen to in their order. Where no fault ends it, the device has
/// every one of them afterwards; what it had before stays as it was, and of a
/// texture nothing changes but that the device has it.
pub proof fn law_every_texture_is_seen_to(before: UploadState, after: UploadState, n: int)
    requires
        sees_to_all(before, after, n),
        before.fault is None,
        before.seen == 0,
        0 <= n <= before.textures.len(),
    ensures
        after.textures.len() == before.textures.len(),
        after.fault is None ==> after.seen == n,
        after.fault is Some ==> 0 < after.seen <= n,
        forall|i: int|
            0 <= i < before.textures.len() ==> {
                let was = #[trigger] before.textures[i];
                let is = after.textures[i];
                &&& is == (TextureRecord { gpu: is.gpu, ..was })
                &&& was.gpu is Some ==> is == was
                &&& i >= n ==> is == was
                &&& i < n && after.fault is None ==> is.gpu is Some
            },
    decreases n,
{
    if n > 0 {
        let between = choose|between: UploadState|
            sees_to_all(before, between, n - 1) && #[trigger] sees_to(between, after, n - 1);
        law_every_texture_is_seen_to(before, between, n - 1);
        assert forall|i: int| 0 <= i < before.textures.len() implies {
            let was = #[trigger] before.textures[i];
            let is = after.textures[i];
            &&& is == (TextureRecord { gpu: is.gpu, ..was })
            &&& was.gpu is Some ==> is == was
            &&& i >= n ==> is == was
            &&& i < n && after.fault is None ==> is.gpu is Some
        } by {
            let was = before.textures[i];
            let mid = between.textures[i];
            assert(mid == (TextureRecord { gpu: mid.gpu, ..was }));
        }
    }
}

/// A name is kept where one of the textures that were seen to has it.
pub proof fn law_seen_textures_are_kept(textures: Seq<TextureRecord>, n: int, name: Seq<char>)
    requires
        0 <= n <= textures.len(),
    ensures
        texture_names(textures, n).contains(name) <==> (exists|i: int|
            0 <= i < n && (#[trigger] textures[i]).name == name),
{
}

} // verus!
