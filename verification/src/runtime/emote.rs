//! Animated figures: which model a layer shows, and what is known of it
//! without looking inside.
use crate::name_map::{lemma_value_changed, NameMap};
use crate::render_pipeline::draw::{hex_digit, BlendMode};
use crate::strs::{
    concat, copy_text, decimal_of, decimal_text, list_has, push_char, split, split_text, texts,
};
use crate::text_order::{insert_name, insert_sorted};
use vstd::prelude::*;

verus! {

/// Which renderer draws the figures.
#[derive(Clone, Copy, Debug, PartialEq, Eq, Structural)]
pub enum EmoteBackend {
    BuiltIn,
    ElunaExperimental,
}

impl EmoteBackend {
    /// The renderer of a number; any but 1 is the built-in one.
    pub fn from_int(value: i32) -> (out: Self)
        ensures
            out == (if value == 1 {
                EmoteBackend::ElunaExperimental
            } else {
                EmoteBackend::BuiltIn
            }),
    {
        if value == 1 {
            EmoteBackend::ElunaExperimental
        } else {
            EmoteBackend::BuiltIn
        }
    }
}

/// The figures of a layer: the active one, and one that is to follow. The one
/// that is to follow is drawn as soon as it is there.
pub struct LayerSlots<I> {
    pub active: Option<I>,
    pub pending: Option<I>,
    /// Whether the scene is still to be told of the layer.
    pub attach_to_scene: bool,
}

/// The figures of all layers.
pub struct EmoteState<I> {
    pub layers: NameMap<LayerSlots<I>>,
    pub next_generation: u64,
}

/// The number of the next figure.
pub open spec fn next_number(generation: u64) -> u64 {
    if generation == u64::MAX {
        0
    } else {
        (generation + 1) as u64
    }
}

/// The figure of a layer that is drawn.
pub open spec fn drawn<I>(slots: LayerSlots<I>) -> Option<I> {
    match slots.pending {
        Some(figure) => Some(figure),
        None => slots.active,
    }
}

/// A layer after another figure came: it is active where none was, else it is to
/// follow.
pub open spec fn placed<I>(slots: Option<LayerSlots<I>>, figure: I) -> LayerSlots<I> {
    match slots {
        Some(s) => if s.active is None {
            LayerSlots { active: Some(figure), pending: s.pending, attach_to_scene: true }
        } else {
            LayerSlots { active: s.active, pending: Some(figure), attach_to_scene: true }
        },
        None => LayerSlots { active: Some(figure), pending: None, attach_to_scene: true },
    }
}

/// A layer after the figure that is to follow was asked for.
pub open spec fn advanced<I>(slots: LayerSlots<I>, next: bool) -> LayerSlots<I> {
    if next && slots.pending is Some {
        LayerSlots { active: slots.pending, pending: None, attach_to_scene: slots.attach_to_scene }
    } else {
        slots
    }
}

/// What is said of a layer that a command does not reach.
pub open spec fn missing_text(id: Seq<char>, known: bool, next: bool) -> Seq<char> {
    if known {
        "E-Mote layer "@ + id + " has no "@ + (if next {
            "pending"@
        } else {
            "active"@
        }) + " instance"@
    } else {
        "unknown E-Mote layer "@ + id
    }
}

/// The layers that the scene is still to be told of, in ascending order.
pub open spec fn unattached<I>(items: Seq<(String, LayerSlots<I>)>) -> Seq<Seq<char>>
    decreases items.len(),
{
    if items.len() == 0 {
        Seq::empty()
    } else {
        let before = unattached(items.drop_last());
        if items.last().1.attach_to_scene {
            insert_sorted(before, items.last().0@)
        } else {
            before
        }
    }
}

/// Whether a model of a layer comes as one file.
pub fn check_files(id: &str, files: usize) -> (out: Result<(), String>)
    ensures
        out is Ok <==> files == 1,
        out matches Err(message) ==> message@ == "E-Mote layer "@ + id@
            + " requires exactly one embedded-texture PSB, got "@ + decimal_text(files as nat),
{
    if files == 1 {
        Ok(())
    } else {
        let mut message = concat("E-Mote layer ", id);
        message.append(" requires exactly one embedded-texture PSB, got ");
        message.append(decimal_of(files as u64).as_str());
        Err(message)
    }
}

impl<I> EmoteState<I> {
    /// No layer is there twice.
    pub open spec fn wf(self) -> bool {
        self.layers.wf()
    }

    /// No figure.
    pub fn new() -> (out: Self)
        ensures
            out.wf(),
            out.layers@ == Map::<Seq<char>, LayerSlots<I>>::empty(),
            out.next_generation == 0,
    {
        EmoteState { layers: NameMap::new(), next_generation: 0 }
    }

    /// Gives the number of a figure.
    pub fn take_generation(&mut self) -> (out: u64)
        ensures
            out == next_number(old(self).next_generation),
            final(self).next_generation == out,
            final(self).layers == old(self).layers,
    {
        self.next_generation = self.next_generation.wrapping_add(1);
        self.next_generation
    }

    /// Takes a figure for a layer. Whether it is to follow another one is
    /// handed out.
    pub fn create_layer(&mut self, id: &str, figure: I) -> (out: bool)
        requires
            old(self).wf(),
        ensures
            (*final(self)).wf(),
            final(self).next_generation == old(self).next_generation,
            ({
                let before = if old(self).layers@.contains_key(id@) {
                    Some(old(self).layers@[id@])
                } else {
                    None
                };
                &&& final(self).layers@ == old(self).layers@.insert(id@, placed(before, figure))
                &&& out == (before matches Some(s) && s.active is Some)
            }),
    {
        let ghost before = self.layers;
        match self.layers.place(id) {
            Some(at) => {
                let slots = self.layers.value_at_mut(at);
                slots.attach_to_scene = true;
                let follows = slots.active.is_some();
                if follows {
                    slots.pending = Some(figure);
                } else {
                    slots.active = Some(figure);
                }
                proof {
                    lemma_value_changed(
                        before,
                        self.layers,
                        at as int,
                        self.layers.items()[at as int].1,
                    );
                }
                follows
            },
            None => {
                let slots = LayerSlots {
                    active: Some(figure),
                    pending: None,
                    attach_to_scene: true,
                };
                self.layers.insert(id, slots);
                false
            },
        }
    }

    /// Asks for a layer; `next` lets the figure that is to follow take its
    /// place. Whether only a following figure is there is handed out; nothing
    /// where there is no figure at all.
    pub fn get_layer(&mut self, id: &str, next: bool) -> (out: Option<bool>)
        requires
            old(self).wf(),
        ensures
            (*final(self)).wf(),
            final(self).next_generation == old(self).next_generation,
            if old(self).layers@.contains_key(id@) {
                let after = advanced(old(self).layers@[id@], next);
                &&& final(self).layers@ == old(self).layers@.insert(id@, after)
                &&& out == (if after.active is Some {
                    Some(false)
                } else if after.pending is Some {
                    Some(true)
                } else {
                    None
                })
            } else {
                out is None && final(self).layers@ == old(self).layers@
            },
    {
        let ghost before = self.layers;
        match self.layers.place(id) {
            Some(at) => {
                let slots = self.layers.value_at_mut(at);
                if next && slots.pending.is_some() {
                    let mut follower: Option<I> = None;
                    std::mem::swap(&mut follower, &mut slots.pending);
                    slots.active = follower;
                }
                let out = if slots.active.is_some() {
                    Some(false)
                } else if slots.pending.is_some() {
                    Some(true)
                } else {
                    None
                };
                proof {
                    lemma_value_changed(
                        before,
                        self.layers,
                        at as int,
                        self.layers.items()[at as int].1,
                    );
                }
                out
            },
            None => None,
        }
    }

    /// The figure that a command is for, or what is said where there is none.
    pub fn command_target(&self, id: &str, next: bool) -> (out: Result<&I, String>)
        ensures
            if self.layers@.contains_key(id@) {
                match (if next {
                    self.layers@[id@].pending
                } else {
                    self.layers@[id@].active
                }) {
                    Some(figure) => out matches Ok(f) && *f == figure,
                    None => out matches Err(m) && m@ == missing_text(id@, true, next),
                }
            } else {
                out matches Err(m) && m@ == missing_text(id@, false, next)
            },
    {
        match self.layers.get(id) {
            Some(slots) => {
                let figure = if next {
                    &slots.pending
                } else {
                    &slots.active
                };
                match figure {
                    Some(f) => Ok(f),
                    None => {
                        let mut message = concat("E-Mote layer ", id);
                        message.append(" has no ");
                        if next {
                            message.append("pending");
                        } else {
                            message.append("active");
                        }
                        message.append(" instance");
                        Err(message)
                    },
                }
            },
            None => Err(concat("unknown E-Mote layer ", id)),
        }
    }

    /// The figure of a layer that is drawn.
    pub fn drawn_figure(&self, id: &str) -> (out: Option<&I>)
        ensures
            match out {
                Some(figure) => self.layers@.contains_key(id@) && drawn(self.layers@[id@])
                    == Some(*figure),
                None => !self.layers@.contains_key(id@) || drawn(self.layers@[id@]) is None,
            },
    {
        match self.layers.get(id) {
            Some(slots) => match &slots.pending {
                Some(figure) => Some(figure),
                None => match &slots.active {
                    Some(figure) => Some(figure),
                    None => None,
                },
            },
            None => None,
        }
    }

    /// The layers that the scene was not told of, in ascending order. It is
    /// told of them once.
    pub fn take_scene_attachments(&mut self) -> (out: Vec<String>)
        requires
            old(self).wf(),
        ensures
            (*final(self)).wf(),
            texts(out@) == unattached(old(self).layers.items()),
            unattached(final(self).layers.items()).len() == 0,
            final(self).next_generation == old(self).next_generation,
            final(self).layers.items().len() == old(self).layers.items().len(),
            forall|i: int|
                0 <= i < old(self).layers.items().len() ==> (
                #[trigger] final(self).layers.items()[i]).0 == old(self).layers.items()[i].0
                    && final(self).layers.items()[i].1 == (LayerSlots {
                    attach_to_scene: false,
                    ..old(self).layers.items()[i].1
                }),
    {
        let ghost first = self.layers;
        let ghost all = first.items();
        let mut out: Vec<String> = Vec::new();
        let mut i: usize = 0;
        proof {
            assert(all.take(0) =~= Seq::empty());
            assert(texts(out@) =~= Seq::empty());
        }
        while i < self.layers.len()
            invariant
                i <= all.len(),
                all == first.items(),
                self.next_generation == old(self).next_generation,
                self.layers.items().len() == all.len(),
                self.layers.wf(),
                texts(out@) == unattached(all.take(i as int)),
                forall|j: int|
                    0 <= j < i ==> (#[trigger] self.layers.items()[j]).0 == all[j].0
                        && self.layers.items()[j].1 == (LayerSlots {
                        attach_to_scene: false,
                        ..all[j].1
                    }),
                forall|j: int| i <= j < all.len() ==> #[trigger] self.layers.items()[j] == all[j],
            decreases all.len() - i,
        {
            let ghost before = self.layers;
            proof {
                assert(all.take(i + 1).drop_last() =~= all.take(i as int));
                assert(all.take(i + 1).last() == all[i as int]);
                assert(self.layers.items()[i as int] == all[i as int]);
            }
            if self.layers.value_at(i).attach_to_scene {
                let id = copy_text(self.layers.key_at(i));
                insert_name(&mut out, id);
            }
            let slots = self.layers.value_at_mut(i);
            slots.attach_to_scene = false;
            proof {
                lemma_value_changed(before, self.layers, i as int, self.layers.items()[i as int].1);
            }
            i += 1;
        }
        proof {
            assert(all.take(i as int) =~= all);
            lemma_none_unattached(self.layers.items());
        }
        out
    }

    /// Drops the layers that are not in the scene.
    pub fn retain_scene_layers(&mut self, scene_ids: &Vec<String>)
        requires
            old(self).wf(),
        ensures
            (*final(self)).wf(),
            final(self).next_generation == old(self).next_generation,
            final(self).layers@ == old(self).layers@.restrict(
                Set::new(|id: Seq<char>| texts(scene_ids@).contains(id)),
            ),
    {
        let ghost first = self.layers@;
        let ghost kept = Set::new(|id: Seq<char>| texts(scene_ids@).contains(id));
        let mut gone: Vec<String> = Vec::new();
        let mut i: usize = 0;
        while i < self.layers.len()
            invariant
                i <= self.layers.items().len(),
                self.wf(),
                *self == *old(self),
                forall|j: int| #![trigger self.layers.items()[j]]
                    0 <= j < i ==> texts(scene_ids@).contains(self.layers.items()[j].0@) || texts(
                        gone@,
                    ).contains(self.layers.items()[j].0@),
                forall|j: int|
                    0 <= j < gone@.len() ==> !texts(scene_ids@).contains(
                        (#[trigger] gone@[j])@,
                    ),
            decreases self.layers.items().len() - i,
        {
            let id = self.layers.key_at(i);
            if !list_has(scene_ids, id) {
                let name = copy_text(id);
                let ghost before = gone@;
                gone.push(name);
                proof {
                    assert(texts(gone@)[before.len() as int] == id@);
                    assert forall|x: Seq<char>| texts(before).contains(x) implies texts(
                        gone@,
                    ).contains(x) by {
                        let k = choose|k: int|
                            0 <= k < texts(before).len() && texts(before)[k] == x;
                        assert(texts(gone@)[k] == x);
                    }
                }
            }
            i += 1;
        }
        proof {
            assert forall|id: Seq<char>| first.contains_key(id) && !kept.contains(id) implies texts(
                gone@,
            ).contains(id) by {
                crate::name_map::lemma_key_has_item(self.layers, id);
            }
        }
        let mut k: usize = 0;
        while k < gone.len()
            invariant
                k <= gone.len(),
                self.wf(),
                self.next_generation == old(self).next_generation,
                forall|j: int|
                    0 <= j < gone@.len() ==> !texts(scene_ids@).contains(
                        (#[trigger] gone@[j])@,
                    ),
                forall|id: Seq<char>| #[trigger]
                    self.layers@.contains_key(id) == (first.contains_key(id) && !(exists|j: int|
                        0 <= j < k && (#[trigger] gone@[j])@ == id)),
                forall|id: Seq<char>| #[trigger]
                    self.layers@.contains_key(id) ==> self.layers@[id] == first[id],
            decreases gone.len() - k,
        {
            let ghost before = self.layers@;
            let _slots = self.layers.remove(gone[k].as_str());
            proof {
                assert forall|id: Seq<char>| #[trigger] self.layers@.contains_key(id) == (
                first.contains_key(id) && !(exists|j: int|
                    0 <= j < k + 1 && (#[trigger] gone@[j])@ == id)) by {
                    assert(before.contains_key(id) == (first.contains_key(id) && !(exists|j: int|
                        0 <= j < k && (#[trigger] gone@[j])@ == id)));
                    if exists|j: int| 0 <= j < k && (#[trigger] gone@[j])@ == id {
                        let j = choose|j: int| 0 <= j < k && (#[trigger] gone@[j])@ == id;
                        assert(0 <= j < k + 1 && gone@[j]@ == id);
                    }
                    assert(gone@[k as int]@ == gone@[k as int]@);
                }
            }
            k += 1;
        }
        proof {
            assert forall|id: Seq<char>| #[trigger] self.layers@.contains_key(id)
                == first.restrict(kept).contains_key(id) by {
                if first.contains_key(id) && !kept.contains(id) {
                    let j = choose|j: int| 0 <= j < texts(gone@).len() && texts(gone@)[j] == id;
                    assert(gone@[j]@ == id);
                }
            }
            assert(self.layers@ =~= first.restrict(kept));
        }
    }

    /// Drops every layer.
    pub fn clear(&mut self)
        ensures
            (*final(self)).wf(),
            final(self).layers@ == Map::<Seq<char>, LayerSlots<I>>::empty(),
            final(self).next_generation == old(self).next_generation,
    {
        self.layers = NameMap::new();
    }
}

proof fn lemma_none_unattached<I>(items: Seq<(String, LayerSlots<I>)>)
    requires
        forall|i: int| 0 <= i < items.len() ==> !(#[trigger] items[i]).1.attach_to_scene,
    ensures
        unattached(items).len() == 0,
    decreases items.len(),
{
    if items.len() > 0 {
        let short = items.drop_last();
        assert forall|i: int| 0 <= i < short.len() implies !(
        #[trigger] short[i]).1.attach_to_scene by {
            assert(short[i] == items[i]);
        }
        lemma_none_unattached(short);
    }
}

/// A figure that follows another waits until it is asked for, and is the active
/// one from then on.
pub proof fn law_following_figures_wait<I>(slots: LayerSlots<I>, figure: I)
    requires
        slots.active is Some,
    ensures
        placed(Some(slots), figure).active == slots.active,
        advanced(placed(Some(slots), figure), false) == placed(Some(slots), figure),
        advanced(placed(Some(slots), figure), true).active == Some(figure),
{
}

/// The figure that came last is drawn, and asking for it changes nothing of what
/// is drawn.
pub proof fn law_last_figure_is_drawn<I>(slots: LayerSlots<I>, figure: I, next: bool)
    requires
        slots.active is Some || slots.pending is None,
    ensures
        drawn(placed(Some(slots), figure)) == Some(figure),
        drawn(placed(None, figure)) == Some(figure),
        drawn(advanced(slots, next)) == drawn(slots),
{
}

/// The name of a texture of a figure.
pub fn texture_name(generation: u64, texture_id: &str) -> (out: String)
    ensures
        out@ == ":emote/"@ + decimal_text(generation as nat) + "/"@ + texture_id@,
{
    let mut out = concat(":emote/", decimal_of(generation).as_str());
    out.append("/");
    out.append(texture_id);
    out
}

/// How a part of a figure is laid over what is below it.
pub fn emote_blend(value: i64) -> (out: BlendMode)
    ensures
        out == (if value == 1 {
            BlendMode::Add
        } else if value == 2 {
            BlendMode::Multiply
        } else if value == 3 {
            BlendMode::Screen
        } else {
            BlendMode::Alpha
        }),
{
    match value {
        1 => BlendMode::Add,
        2 => BlendMode::Multiply,
        3 => BlendMode::Screen,
        _ => BlendMode::Alpha,
    }
}

/// How a part of a figure of the other renderer is laid over what is below it:
/// the last four bits of its mode count.
pub fn eluna_blend(mode: u32) -> (out: BlendMode)
    ensures
        out == (match mode % 16 {
            1 => BlendMode::Add,
            2 | 3 | 5 => BlendMode::Multiply,
            4 => BlendMode::Screen,
            _ => BlendMode::Alpha,
        }),
{
    match mode % 16 {
        1 => BlendMode::Add,
        2 | 3 | 5 => BlendMode::Multiply,
        4 => BlendMode::Screen,
        _ => BlendMode::Alpha,
    }
}

/// The number that a figure's blinking begins with: different for each eye, and
/// never 0.
pub open spec fn blink_seed(generation: u64, index: u32) -> u32 {
    let salt = (((index as nat + 1) * 0x9e37_79b9) % 0x1_0000_0000) as u32;
    let seed = (generation % 0x1_0000_0000) as u32 ^ salt;
    if seed == 0 {
        1
    } else {
        seed
    }
}

/// The number that a figure's blinking begins with.
pub fn eye_blink_seed(generation: u64, index: u32) -> (out: u32)
    ensures
        out == blink_seed(generation, index),
{
    let salt: u32 = (((index as u64 + 1) * 0x9e37_79b9) % 0x1_0000_0000) as u32;
    let low: u32 = (generation % 0x1_0000_0000) as u32;
    let seed: u32 = low ^ salt;
    if seed == 0 {
        1
    } else {
        seed
    }
}

/// The number after one in the sequence that spaces the blinks.
pub fn next_random(state: u32) -> (out: u32)
    ensures
        out == (state * 1664525 + 1013904223) % 0x1_0000_0000,
{
    ((state as u64 * 1664525 + 1013904223) % 0x1_0000_0000) as u32
}

/// The time that a figure is behind: what came meanwhile counts up to a tenth
/// of a second.
pub fn pending_time(pending_ms: u64, delta_ms: u64) -> (out: u64)
    ensures
        out == (if pending_ms + delta_ms < 100 {
            pending_ms + delta_ms
        } else {
            100
        }),
{
    let sum: u64 = pending_ms.saturating_add(delta_ms);
    if sum < 100 {
        sum
    } else {
        100
    }
}

/// One step of the hash of a texture.
pub open spec fn hash_step(hash: u64, byte: u8) -> u64 {
    (((hash ^ (byte as u64)) as nat * 0x1000_0000_01b3) % 0x1_0000_0000_0000_0000) as u64
}

/// The hash of a texture.
pub open spec fn texture_hash(bytes: Seq<u8>) -> u64
    decreases bytes.len(),
{
    if bytes.len() == 0 {
        0xcbf2_9ce4_8422_2325
    } else {
        hash_step(texture_hash(bytes.drop_last()), bytes.last())
    }
}

/// Digits of a number in hexadecimal, as many as asked for.
pub open spec fn hex_digits(value: nat, count: nat) -> Seq<char>
    decreases count,
{
    if count == 0 {
        Seq::empty()
    } else {
        hex_digits(value / 16, (count - 1) as nat).push(hex_digit((value % 16) as u8))
    }
}

fn push_hex_digits(out: &mut String, value: u64, count: u32)
    ensures
        final(out)@ == old(out)@ + hex_digits(value as nat, count as nat),
    decreases count,
{
    if count > 0 {
        push_hex_digits(out, value / 16, count - 1);
        let n: u8 = (value % 16) as u8;
        let c = if n < 10 {
            (('0' as u8) + n) as char
        } else {
            (('a' as u8) + (n - 10)) as char
        };
        push_char(out, c);
        assert(out@ =~= old(out)@ + hex_digits(value as nat, count as nat));
    } else {
        assert(out@ =~= old(out)@ + hex_digits(value as nat, 0));
    }
}

/// Where a texture is kept once it was encoded again.
pub fn astc_cache_path(compressed: &[u8], width: u32, height: u32) -> (out: String)
    ensures
        out@ == "cache/emote/astc4x4/"@ + hex_digits(texture_hash(compressed@) as nat, 16) + "-"@
            + decimal_text(width as nat) + "x"@ + decimal_text(height as nat) + ".bin"@,
{
    let mut hash: u64 = 0xcbf2_9ce4_8422_2325;
    let mut i: usize = 0;
    let ghost all = compressed@;
    assert(all.take(0) =~= Seq::empty());
    while i < compressed.len()
        invariant
            i <= compressed.len(),
            all == compressed@,
            hash == texture_hash(all.take(i as int)),
        decreases compressed.len() - i,
    {
        assert(all.take(i + 1).drop_last() =~= all.take(i as int));
        let mixed: u64 = hash ^ (compressed[i] as u64);
        hash = ((mixed as u128 * 0x1000_0000_01b3) % 0x1_0000_0000_0000_0000) as u64;
        i += 1;
    }
    assert(all.take(i as int) =~= all);
    let mut out = copy_text("cache/emote/astc4x4/");
    push_hex_digits(&mut out, hash, 16);
    out.append("-");
    out.append(decimal_of(width as u64).as_str());
    out.append("x");
    out.append(decimal_of(height as u64).as_str());
    out.append(".bin");
    out
}

// ── Encrypted models ───────────────────────────────────────────

/// Two bytes as a number, the low one first.
pub open spec fn low_first_u16(data: Seq<u8>, at: int) -> u16 {
    (data[at] + data[at + 1] * 256) as u16
}

/// Four bytes as a number, the low one first.
pub open spec fn low_first_u32(data: Seq<u8>, at: int) -> u32 {
    (data[at] + data[at + 1] * 0x100 + data[at + 2] * 0x1_0000 + data[at + 3] * 0x100_0000) as u32
}

/// The length of a model's header by its version.
pub open spec fn header_len(version: u16) -> Option<u32> {
    if version == 1 || version == 2 {
        Some(40)
    } else if version == 3 {
        Some(44)
    } else if version == 4 {
        Some(56)
    } else {
        None
    }
}

/// The key under which the first number of a header would read `encrypted` in
/// place of the header's length.
pub open spec fn key_of(encrypted: u32, length: u32) -> u32 {
    let start: u32 = 123456789;
    let shifted = start ^ (start << 11);
    let rhs = encrypted ^ length ^ shifted ^ (shifted >> 8);
    rhs ^ (rhs >> 19)
}

/// The key of an encrypted model, where its header tells it.
pub open spec fn header_key(data: Seq<u8>) -> Option<u32> {
    if data.len() < 12 || data[0] != 0x50 || data[1] != 0x53 || data[2] != 0x42 || data[3] != 0
        || low_first_u16(data, 6) % 2 == 0 {
        None
    } else {
        match header_len(low_first_u16(data, 4)) {
            Some(length) => Some(key_of(low_first_u32(data, 8), length)),
            None => None,
        }
    }
}

/// Infers the key of an encrypted model from its header.
pub fn infer_emote_header_key(data: &[u8]) -> (out: Option<u32>)
    ensures
        out == header_key(data@),
{
    if data.len() < 12 {
        return None;
    }
    if data[0] != 0x50 || data[1] != 0x53 || data[2] != 0x42 || data[3] != 0 {
        return None;
    }
    let version: u16 = data[4] as u16 + data[5] as u16 * 256;
    let flags: u16 = data[6] as u16 + data[7] as u16 * 256;
    if flags % 2 == 0 {
        return None;
    }
    let length: u32 = match version {
        1 | 2 => 40,
        3 => 44,
        4 => 56,
        _ => return None,
    };
    let encrypted: u32 = data[8] as u32 + data[9] as u32 * 0x100 + data[10] as u32 * 0x1_0000
        + data[11] as u32 * 0x100_0000;
    let start: u32 = 123456789;
    let shifted: u32 = start ^ (start << 11);
    let rhs: u32 = encrypted ^ length ^ shifted ^ (shifted >> 8);
    Some(rhs ^ (rhs >> 19))
}

// ── Meshes ─────────────────────────────────────────────────────

/// Whether a list of coordinates is that of a square grid of points, with at
/// least two on a side.
pub open spec fn is_grid(coordinates: nat, side: int) -> bool {
    side >= 2 && coordinates == 2 * (side * side)
}

/// The corners of the two triangles of a cell, as places of points: the column
/// and the row.
pub open spec fn cell_corners(x: int, y: int) -> Seq<(int, int)> {
    seq![(x, y), (x + 1, y), (x + 1, y + 1), (x, y), (x + 1, y + 1), (x, y + 1)]
}

/// The corners of the first `n` cells, row by row. A row has `width` cells.
pub open spec fn grid_corners(width: int, n: int) -> Seq<(int, int)>
    decreases n,
{
    if n <= 0 {
        Seq::empty()
    } else {
        grid_corners(width, n - 1) + cell_corners((n - 1) % width, (n - 1) / width)
    }
}

/// Places as whole numbers.
pub open spec fn corners_view(corners: Seq<(usize, usize)>) -> Seq<(int, int)> {
    Seq::new(corners.len(), |i: int| (corners[i].0 as int, corners[i].1 as int))
}

proof fn lemma_square_grows(a: int, b: int)
    requires
        0 <= a < b,
    ensures
        a * a < b * b,
{
    assert(a * a < b * b) by (nonlinear_arith)
        requires
            0 <= a < b,
    ;
}

/// The side of a square grid of points, where a list of coordinates is one.
pub fn mesh_side(coordinates: usize) -> (out: Option<usize>)
    ensures
        out matches Some(side) ==> is_grid(coordinates as nat, side as int),
        out is None ==> forall|side: int| !#[trigger] is_grid(coordinates as nat, side),
{
    if coordinates % 2 != 0 {
        return None;
    }
    let count: usize = coordinates / 2;
    let mut side: usize = 1;
    while side < count && side + 1 <= count / (side + 1)
        invariant
            1 <= side,
            count >= 1 ==> side * side <= count,
            count <= usize::MAX / 2,
        decreases count - side,
    {
        let ghost next = side + 1;
        proof {
            let q = (count / (side + 1) as usize) as int;
            assert(next * next <= count) by (nonlinear_arith)
                requires
                    next <= q,
                    0 < next,
                    q == count as int / next,
            ;
        }
        side += 1;
    }
    proof {
        let next = side as int + 1;
        if side < count {
            let q = count as int / next;
            assert(count < next * next) by (nonlinear_arith)
                requires
                    0 < next,
                    q == count as int / next,
                    q < next,
            ;
        } else {
            assert(count < next * next) by (nonlinear_arith)
                requires
                    count <= next - 1,
                    next >= 2,
            ;
        }
        assert forall|other: int| #[trigger] is_grid(coordinates as nat, other) implies other
            == side by {
            lemma_square_grows(0, other);
            assert(count == other * other);
            if other < side {
                lemma_square_grows(other, side as int);
            }
            if other > next {
                lemma_square_grows(next, other);
            }
            if other == next {
                assert(other * other == next * next);
            }
        }
    }
    if side >= 2 && count / side == side && count % side == 0 {
        proof {
            assert(count == side * side) by (nonlinear_arith)
                requires
                    side >= 2,
                    count as int / side as int == side,
                    count as int % side as int == 0,
            ;
        }
        Some(side)
    } else {
        proof {
            if side >= 2 && count == side * side {
                let s = side as int;
                assert((s * s) / s == s && (s * s) % s == 0) by (nonlinear_arith)
                    requires
                        s >= 2,
                ;
            }
        }
        None
    }
}

/// The corners of the triangles of a grid, as places of points: two triangles
/// for every cell, row by row.
pub fn mesh_corners(side: usize) -> (out: Vec<(usize, usize)>)
    requires
        side >= 2,
    ensures
        corners_view(out@) == grid_corners(side - 1, (side - 1) * (side - 1)),
{
    let width: usize = side - 1;
    let mut out: Vec<(usize, usize)> = Vec::new();
    assert(corners_view(out@) =~= Seq::empty());
    let mut y: usize = 0;
    proof {
        assert(width * 0 == 0);
    }
    while y < width
        invariant
            y <= width,
            width == side - 1,
            width >= 1,
            corners_view(out@) == grid_corners(width as int, width * y),
        decreases width - y,
    {
        let mut x: usize = 0;
        while x < width
            invariant
                x <= width,
                y < width,
                width == side - 1,
                corners_view(out@) == grid_corners(width as int, width * y + x),
            decreases width - x,
        {
            let ghost before = out@;
            let ghost n = width * y + x;
            proof {
                let w = width as int;
                let yy = y as int;
                let xx = x as int;
                assert((w * yy + xx) % w == xx && (w * yy + xx) / w == yy && w * yy + xx >= 0)
                    by (nonlinear_arith)
                    requires
                        0 <= xx < w,
                        0 <= yy,
                ;
            }
            out.push((x, y));
            out.push((x + 1, y));
            out.push((x + 1, y + 1));
            out.push((x, y));
            out.push((x + 1, y + 1));
            out.push((x, y + 1));
            proof {
                assert(corners_view(out@) =~= corners_view(before) + cell_corners(
                    x as int,
                    y as int,
                ));
                assert(grid_corners(width as int, n + 1) == grid_corners(width as int, n)
                    + cell_corners(x as int, y as int));
            }
            x += 1;
        }
        proof {
            assert(width * y + width == width * (y + 1)) by (nonlinear_arith);
        }
        y += 1;
    }
    out
}

// ── Figures that are computed aside ────────────────────────────

/// In which pass a part of a figure is drawn.
#[derive(Clone, Copy, Debug, PartialEq, Eq, Structural)]
pub enum SpritePass {
    Normal,
    Filtered,
    Other,
}

/// Whether a part of a figure is drawn: it can be seen, it belongs to a pass that
/// draws, and it is not kept for feedback.
pub fn sprite_is_drawn(visible: bool, opaque: bool, pass: SpritePass, feedback: bool) -> (out:
    bool)
    ensures
        out == (visible && opaque && pass != SpritePass::Other && !feedback),
{
    match pass {
        SpritePass::Other => false,
        _ => visible && opaque && !feedback,
    }
}

/// The name of the thread that computes a figure: it ends as the path of the
/// figure's file does.
pub fn worker_name(path: &str) -> (out: String)
    ensures
        out@ == "art3m1s-eluna-"@ + split(path@, '/').last(),
{
    let parts = split_text(path, '/');
    assert(texts(parts@).len() == parts@.len());
    assert(texts(parts@).last() == parts@.last()@);
    concat("art3m1s-eluna-", parts[parts.len() - 1].as_str())
}

/// What a worker does next.
#[derive(Clone, Copy, Debug, PartialEq, Eq, Structural)]
pub enum WorkerStep {
    /// Nothing came: it waits.
    Wait,
    /// Time passed: the figure moves on.
    Progress { delta_ms: u64 },
    /// Only commands came: the figure is made anew.
    Rebuild,
}

/// What a worker does after it ran the commands that came.
pub fn worker_step(commands: usize, delta_ms: u64) -> (out: WorkerStep)
    ensures
        out == (if delta_ms != 0 {
            WorkerStep::Progress { delta_ms }
        } else if commands != 0 {
            WorkerStep::Rebuild
        } else {
            WorkerStep::Wait
        }),
{
    if delta_ms != 0 {
        WorkerStep::Progress { delta_ms }
    } else if commands != 0 {
        WorkerStep::Rebuild
    } else {
        WorkerStep::Wait
    }
}

/// Figures are numbered one after the other, and 0 follows the last number.
pub proof fn law_figures_are_numbered(generation: u64)
    ensures
        generation < u64::MAX ==> next_number(generation) == generation + 1,
        next_number(u64::MAX) == 0,
{
}

/// The figure that waits is drawn before the one that is active. A figure takes the
/// active place where that is free and waits else, and the scene is told of its
/// layer; the one that waits becomes active when the next is asked for.
pub proof fn law_figures_have_two_places<I>(slots: LayerSlots<I>, figure: I)
    ensures
        slots.pending is Some ==> drawn(slots) == slots.pending,
        slots.pending is None ==> drawn(slots) == slots.active,
        placed(None, figure) == (LayerSlots {
            active: Some(figure),
            pending: None,
            attach_to_scene: true,
        }),
        slots.active is None ==> placed(Some(slots), figure) == (LayerSlots {
            active: Some(figure),
            pending: slots.pending,
            attach_to_scene: true,
        }),
        slots.active is Some ==> placed(Some(slots), figure) == (LayerSlots {
            active: slots.active,
            pending: Some(figure),
            attach_to_scene: true,
        }),
        advanced(slots, false) == slots,
        slots.pending is None ==> advanced(slots, true) == slots,
        slots.pending is Some ==> advanced(slots, true) == (LayerSlots {
            active: slots.pending,
            pending: None,
            attach_to_scene: slots.attach_to_scene,
        }),
{
}

/// A figure that is not there is told with its layer, and with the place that is
/// empty where the layer is known.
pub proof fn law_missing_figures_are_told(id: Seq<char>, next: bool)
    ensures
        missing_text(id, false, next) == "unknown E-Mote layer "@ + id,
        missing_text(id, true, true) == "E-Mote layer "@ + id + " has no "@ + "pending"@
            + " instance"@,
        missing_text(id, true, false) == "E-Mote layer "@ + id + " has no "@ + "active"@
            + " instance"@,
{
}

/// The layers of which the scene is still to be told are named, sorted.
pub proof fn law_unattached_layers_are_named<I>(
    items: Seq<(String, LayerSlots<I>)>,
    item: (String, LayerSlots<I>),
)
    ensures
        unattached::<I>(Seq::empty()).len() == 0,
        item.1.attach_to_scene ==> unattached(items.push(item)) == insert_sorted(
            unattached(items),
            item.0@,
        ),
        !item.1.attach_to_scene ==> unattached(items.push(item)) == unattached(items),
{
    assert(items.push(item).drop_last() =~= items);
}

/// The seed of a figure's blinking is never 0. It is the low half of the figure's
/// number mixed with the low half of a multiple that the place gives, or 1 where
/// that is 0.
pub proof fn law_blinking_has_a_seed(generation: u64, index: u32)
    ensures
        blink_seed(generation, index) != 0,
        ({
            let salt = (((index + 1) * 2654435769) % 4294967296) as u32;
            let low = (generation % 4294967296) as u32;
            &&& low != salt ==> blink_seed(generation, index) == low ^ salt
            &&& low == salt ==> blink_seed(generation, index) == 1
        }),
{
    let salt = (((index + 1) * 2654435769) % 4294967296) as u32;
    let low = (generation % 4294967296) as u32;
    lemma_unlike_numbers_mix(low, salt);
}

proof fn lemma_unlike_numbers_mix(a: u32, b: u32)
    by (bit_vector)
    ensures
        a != b <==> a ^ b != 0,
{
}

/// The hash of a texture mixes in byte after byte: each is put into the low bits and
/// the result multiplied, within 64 bits.
pub proof fn law_hashes_mix_bytes_in_order(bytes: Seq<u8>, byte: u8)
    ensures
        texture_hash(Seq::empty()) == 14695981039346656037,
        texture_hash(bytes.push(byte)) as int == ((texture_hash(bytes) ^ (byte as u64)) as int
            * 17592186044851) % 18446744073709551616,
{
    assert(bytes.push(byte).drop_last() =~= bytes);
}

/// Digits in hexadecimal are as many as asked for, the last one for the lowest part.
pub proof fn law_digits_end_with_the_lowest(value: nat, digit: nat, count: nat)
    requires
        digit < 16,
    ensures
        hex_digits(value, count).len() == count,
        hex_digits(value * 16 + digit, count + 1) == hex_digits(value, count).push(
            hex_digit(digit as u8),
        ),
    decreases count,
{
    let whole = value * 16 + digit;
    assert(whole / 16 == value && whole % 16 == digit);
    if count > 0 {
        law_digits_end_with_the_lowest(value / 16, 0, (count - 1) as nat);
    }
}

/// Numbers are stored with their lowest byte first.
pub proof fn law_stored_numbers_begin_with_the_lowest(data: Seq<u8>, at: int)
    ensures
        low_first_u16(data, at) as int == data[at] + 256 * data[at + 1],
        low_first_u32(data, at) as int == data[at] + 256 * (data[at + 1] + 256 * (data[at + 2] + 256
            * data[at + 3])),
{
}

/// The key of a file is the one that, put through the generator, turns the length of
/// the header into what the file holds in its place.
pub proof fn law_keys_turn_lengths_into_what_is_stored(encrypted: u32, length: u32)
    ensures
        ({
            let key = key_of(encrypted, length);
            let first: u32 = 123456789u32 ^ (123456789u32 << 11);
            let mask = (key ^ (key >> 19)) ^ (first ^ (first >> 8));
            length ^ mask == encrypted
        }),
{
    lemma_key(encrypted, length);
}

proof fn lemma_key(encrypted: u32, length: u32)
    by (bit_vector)
    ensures
        ({
            let start: u32 = 123456789u32;
            let shifted = start ^ (start << 11);
            let rhs = encrypted ^ length ^ shifted ^ (shifted >> 8);
            let key = rhs ^ (rhs >> 19);
            let first: u32 = 123456789u32 ^ (123456789u32 << 11);
            let mask = (key ^ (key >> 19)) ^ (first ^ (first >> 8));
            length ^ mask == encrypted
        }),
{
}

/// A key is read from files that begin with `PSB` and a zero, are long enough, say
/// that they are encrypted by an odd number, and are of a known version, which gives
/// the length of the header.
pub proof fn law_headers_give_keys(data: Seq<u8>, version: u16)
    ensures
        header_len(1) == Some(40u32) && header_len(2) == Some(40u32),
        header_len(3) == Some(44u32),
        header_len(4) == Some(56u32),
        version == 0 || version > 4 ==> header_len(version) is None,
        header_key(data) is Some <==> data.len() >= 12 && data[0] == 0x50 && data[1] == 0x53
            && data[2] == 0x42 && data[3] == 0 && data[6] % 2 == 1 && header_len(
            low_first_u16(data, 4),
        ) is Some,
        header_key(data) matches Some(key) ==> key == key_of(
            low_first_u32(data, 8),
            header_len(low_first_u16(data, 4))->0,
        ),
{
    assert(low_first_u16(data, 6) as int == data[6] + 256 * data[7]);
}

/// Each cell of a grid is two triangles over its four corners: along the upper edge
/// and down the right one, and back along the lower edge and down the left one. The
/// cells come row by row.
pub proof fn law_cells_are_two_triangles(width: int, n: int, cell: int)
    requires
        0 <= cell < n,
    ensures
        grid_corners(width, n).len() == 6 * n,
        ({
            let x = cell % width;
            let y = cell / width;
            let at = grid_corners(width, n);
            &&& at[6 * cell] == (x, y) && at[6 * cell + 1] == (x + 1, y)
            &&& at[6 * cell + 2] == (x + 1, y + 1)
            &&& at[6 * cell + 3] == (x, y) && at[6 * cell + 4] == (x + 1, y + 1)
            &&& at[6 * cell + 5] == (x, y + 1)
        }),
        grid_corners(width, 0).len() == 0,
    decreases n,
{
    let before = grid_corners(width, n - 1);
    let last = cell_corners((n - 1) % width, (n - 1) / width);
    let all = grid_corners(width, n);
    assert(all == before + last);
    if cell < n - 1 {
        law_cells_are_two_triangles(width, n - 1, cell);
        assert forall|k: int| 0 <= k < 6 implies #[trigger] all[6 * cell + k] == before[6 * cell
            + k] by {}
        assert(all[6 * cell + 0] == before[6 * cell + 0]);
    } else {
        if n > 1 {
            law_cells_are_two_triangles(width, n - 1, n - 2);
        }
        assert(before.len() == 6 * cell);
        assert forall|k: int| 0 <= k < 6 implies #[trigger] all[6 * cell + k] == last[k] by {}
        assert(all[6 * cell + 0] == last[0]);
    }
}

/// Coordinates make a grid where there are two for each point of a square with two
/// points a side at least.
pub proof fn law_grids_are_square(coordinates: nat, side: int)
    ensures
        is_grid(coordinates, side) <==> side >= 2 && coordinates == 2 * side * side,
{
    assert(2 * side * side == 2 * (side * side)) by (nonlinear_arith);
}

} // verus!
