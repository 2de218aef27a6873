//! What of a frame is drawn again.
use vstd::prelude::*;

verus! {

/// Whether a frame is drawn: unless it is the one that was drawn last, from the
/// same textures. `same` says whether its parts are those of the last one.
pub fn frame_requires_render(same: bool, last_revision: u64, revision: u64) -> (out: bool)
    ensures
        out == (!same || last_revision != revision),
{
    !same || last_revision != revision
}

/// What is known of a frame as a whole.
#[derive(Clone, Copy, Debug, PartialEq, Eq, Structural)]
pub struct FrameFacts {
    pub has_shader_groups: bool,
    pub has_masks: bool,
    /// Whether a part is a mesh or has a shader.
    pub has_effects: bool,
}

/// Whether a frame can be drawn in parts.
pub open spec fn is_plain(f: FrameFacts) -> bool {
    !f.has_shader_groups && !f.has_masks && !f.has_effects
}

/// What is known of the parts at one place of two frames.
#[derive(Clone, Copy, Debug, PartialEq, Eq, Structural)]
pub struct PartFacts {
    /// Whether both frames have the same part there.
    pub same: bool,
    /// The textures of the parts that are there.
    pub old_texture: Option<u64>,
    pub new_texture: Option<u64>,
}

/// Whether a texture is one of those that changed.
pub open spec fn texture_changed(texture: Option<u64>, changed: Seq<u64>) -> bool {
    texture matches Some(t) && changed.contains(t)
}

/// Whether a place is to be drawn again.
pub open spec fn is_damaged(part: PartFacts, changed: Seq<u64>) -> bool {
    !part.same || texture_changed(part.old_texture, changed) || texture_changed(
        part.new_texture,
        changed,
    )
}

/// The places that are to be drawn again, among the first `n`.
pub open spec fn damaged_places(parts: Seq<PartFacts>, changed: Seq<u64>, n: int) -> Seq<int>
    decreases n,
{
    if n <= 0 {
        Seq::empty()
    } else {
        let before = damaged_places(parts, changed, n - 1);
        if is_damaged(parts[n - 1], changed) {
            before.push(n - 1)
        } else {
            before
        }
    }
}

fn has_texture(texture: Option<u64>, changed: &Vec<u64>) -> (out: bool)
    ensures
        out == texture_changed(texture, changed@),
{
    let t: u64 = match texture {
        Some(t) => t,
        None => return false,
    };
    let mut i: usize = 0;
    while i < changed.len()
        invariant
            i <= changed.len(),
            texture == Some(t),
            forall|j: int| 0 <= j < i ==> changed@[j] != t,
        decreases changed.len() - i,
    {
        if changed[i] == t {
            assert(changed@[i as int] == t);
            return true;
        }
        i += 1;
    }
    false
}

/// The places as whole numbers.
pub open spec fn places(list: Seq<usize>) -> Seq<int> {
    Seq::new(list.len(), |i: int| list[i] as int)
}

/// The places of a frame that are to be drawn again; none where the whole frame
/// is: there was no frame before, one of the two cannot be drawn in parts, or
/// no place is known to have changed.
pub fn damaged_parts(
    last: Option<FrameFacts>,
    current: FrameFacts,
    parts: &Vec<PartFacts>,
    changed: &Vec<u64>,
) -> (out: Option<Vec<usize>>)
    ensures
        ({
            let all = damaged_places(parts@, changed@, parts@.len() as int);
            match out {
                Some(list) => places(list@) == all && all.len() > 0 && is_plain(current) && (
                last matches Some(f) && is_plain(f)),
                None => all.len() == 0 || !is_plain(current) || !(last matches Some(f)
                    && is_plain(f)),
            }
        }),
{
    let before = match last {
        Some(f) => f,
        None => return None,
    };
    if before.has_shader_groups || current.has_shader_groups || before.has_masks
        || current.has_masks || before.has_effects || current.has_effects {
        return None;
    }
    let mut list: Vec<usize> = Vec::new();
    let mut i: usize = 0;
    assert(places(list@) =~= Seq::empty());
    while i < parts.len()
        invariant
            i <= parts.len(),
            places(list@) == damaged_places(parts@, changed@, i as int),
        decreases parts.len() - i,
    {
        let part = parts[i];
        if !part.same || has_texture(part.old_texture, changed) || has_texture(
            part.new_texture,
            changed,
        ) {
            let ghost here = list@;
            list.push(i);
            assert(places(list@) =~= places(here).push(i as int));
        }
        i += 1;
    }
    assert(places(list@).len() == list@.len());
    if list.len() == 0 {
        None
    } else {
        Some(list)
    }
}

/// A frame that is the one before, from the same textures, damages nothing.
pub proof fn law_unchanged_frames_are_undamaged(parts: Seq<PartFacts>, n: int)
    requires
        0 <= n <= parts.len(),
        forall|i: int| 0 <= i < parts.len() ==> (#[trigger] parts[i]).same,
    ensures
        damaged_places(parts, Seq::empty(), n).len() == 0,
    decreases n,
{
    if n > 0 {
        law_unchanged_frames_are_undamaged(parts, n - 1);
        assert(parts[n - 1].same);
    }
}

/// Whether the icon that waits for a click is shown: while a click is waited
/// for and the whole text has appeared.
pub fn shows_click_wait_icon(click_wait: bool, text_complete: bool) -> (out: bool)
    ensures
        out == (click_wait && text_complete),
{
    click_wait && text_complete
}

/// How a frame is drawn.
#[derive(Clone, Copy, Debug, PartialEq, Eq, Structural)]
pub enum RenderMode {
    /// Not at all; the last one stands.
    Keep,
    /// The places that changed, marked or not.
    Damage { visualized: bool },
    /// The whole frame, marked or not.
    Full { visualized: bool },
}

/// How a frame is drawn. `localized` says whether the places that changed are
/// known.
pub fn render_mode(required: bool, localized: bool, visualized: bool) -> (out: RenderMode)
    ensures
        out == (if !required {
            RenderMode::Keep
        } else if localized {
            RenderMode::Damage { visualized }
        } else {
            RenderMode::Full { visualized }
        }),
{
    if !required {
        RenderMode::Keep
    } else if localized {
        RenderMode::Damage { visualized }
    } else {
        RenderMode::Full { visualized }
    }
}

/// A place is damaged where its part changed or where the texture of what stood
/// there, or stands there now, did; the damaged places come in order, each once.
pub proof fn law_damage_is_what_changed(parts: Seq<PartFacts>, changed: Seq<u64>, n: int, i: int)
    requires
        0 <= n <= parts.len(),
    ensures
        0 <= i < n ==> (damaged_places(parts, changed, n).contains(i) <==> !parts[i].same || (
        parts[i].old_texture is Some && changed.contains(parts[i].old_texture->0)) || (
        parts[i].new_texture is Some && changed.contains(parts[i].new_texture->0))),
        forall|k: int|
            0 <= k < damaged_places(parts, changed, n).len() ==> 0 <= (#[trigger] damaged_places(
                parts,
                changed,
                n,
            )[k]) < n,
        forall|j: int, k: int|
            0 <= j < k < damaged_places(parts, changed, n).len() ==> (#[trigger] damaged_places(
                parts,
                changed,
                n,
            )[j]) < (#[trigger] damaged_places(parts, changed, n)[k]),
    decreases n,
{
    if n > 0 {
        law_damage_is_what_changed(parts, changed, n - 1, i);
        let before = damaged_places(parts, changed, n - 1);
        let after = damaged_places(parts, changed, n);
        if is_damaged(parts[n - 1], changed) {
            assert(after == before.push(n - 1));
            assert(after[before.len() as int] == n - 1);
            if i < n - 1 && after.contains(i) {
                let k = choose|k: int| 0 <= k < after.len() && after[k] == i;
                assert(before[k] == i);
            }
            if i < n - 1 && before.contains(i) {
                let k = choose|k: int| 0 <= k < before.len() && before[k] == i;
                assert(after[k] == i);
            }
        } else if i == n - 1 && before.contains(i) {
            let k = choose|k: int| 0 <= k < before.len() && before[k] == i;
            assert(before[k] < n - 1);
        }
    }
}

/// A frame is plain where it has no shader group, no mask and no effect.
pub proof fn law_plain_frames(f: FrameFacts)
    ensures
        is_plain(f) <==> !f.has_shader_groups && !f.has_masks && !f.has_effects,
{
}

} // verus!
