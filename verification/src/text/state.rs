//! The text of all message layers.
use crate::name_map::{
    copy_text_map, lemma_item_is_mapped, lemma_key_has_item, lemma_value_changed, text_map,
    NameMap,
};
use crate::strs::{copy_text, lemma_texts_push, opt_text, texts};
use crate::text::font::{merged_font, plain_font, FontDesc, FontRecord};
use crate::text::layers::{
    advanced, complete, fresh_layer, restarted, revealed, with_line_break, with_popped_font,
    with_scetween, with_settings, with_text, without_text, LayerRecord, MessageLayer,
};
use crate::text::render::ScetweenConfig;
use vstd::prelude::*;

verus! {

/// The message layers, and which of them is written on.
pub struct FontState {
    pub layers: NameMap<MessageLayer>,
    pub active_layer: Option<String>,
    pub layer_stack: Vec<String>,
    pub default_font: FontDesc,
    pub glyph_config: NameMap<String>,
}

/// What the message layers hold.
#[verifier::ext_equal]
pub struct StateRecord {
    pub layers: Map<Seq<char>, LayerRecord>,
    pub active: Option<Seq<char>>,
    pub stack: Seq<Seq<char>>,
    pub default_font: FontRecord,
    pub glyph_config: Map<Seq<char>, Seq<char>>,
}

/// The records of layers by their names.
pub open spec fn layer_map(layers: NameMap<MessageLayer>) -> Map<Seq<char>, LayerRecord> {
    layers@.map_values(|l: MessageLayer| l@)
}

impl View for FontState {
    type V = StateRecord;

    open spec fn view(&self) -> StateRecord {
        StateRecord {
            layers: layer_map(self.layers),
            active: opt_text(self.active_layer),
            stack: texts(self.layer_stack@),
            default_font: self.default_font@,
            glyph_config: text_map(self.glyph_config),
        }
    }
}

/// The layer that is written on; the first is called `adv01`.
pub open spec fn active_id(s: StateRecord) -> Seq<char> {
    match s.active {
        Some(id) => id,
        None => "adv01"@,
    }
}

/// The layer of a name, or a fresh one.
pub open spec fn layer_named(s: StateRecord, id: Seq<char>) -> LayerRecord {
    if s.layers.contains_key(id) {
        s.layers[id]
    } else {
        fresh_layer(id)
    }
}

/// What the active layer holds.
pub open spec fn active_record(s: StateRecord) -> LayerRecord {
    layer_named(s, active_id(s))
}

/// The layers with another active layer in place of the one that was.
pub open spec fn with_active(s: StateRecord, layer: LayerRecord) -> StateRecord {
    StateRecord {
        layers: s.layers.insert(active_id(s), layer),
        active: Some(active_id(s)),
        ..s
    }
}

/// The layers after another became active. A layer without a place of its own
/// takes the font of the one before.
pub open spec fn switched(s: StateRecord, id: Option<Seq<char>>, unplaced: bool) -> StateRecord {
    let next = StateRecord {
        active: id,
        stack: match s.active {
            Some(before) => s.stack.push(before),
            None => s.stack,
        },
        ..s
    };
    let layer = active_record(next);
    let font = match s.active {
        Some(before) => if unplaced && s.layers.contains_key(before) {
            s.layers[before].font
        } else {
            layer.font
        },
        None => layer.font,
    };
    with_active(next, without_text(LayerRecord { font, ..layer }))
}

/// The layers after the one before became active again.
pub open spec fn popped(s: StateRecord) -> StateRecord {
    if s.stack.len() > 0 {
        StateRecord { active: Some(s.stack.last()), stack: s.stack.drop_last(), ..s }
    } else {
        s
    }
}

/// The layers after some time.
pub open spec fn time_passed(
    layers: Map<Seq<char>, LayerRecord>,
    delta_ms: u64,
) -> Map<Seq<char>, LayerRecord> {
    layers.map_values(|l: LayerRecord| layer_later(l, delta_ms))
}

/// A layer after some time.
pub open spec fn layer_later(l: LayerRecord, delta_ms: u64) -> LayerRecord {
    LayerRecord {
        progress: advanced(l.progress, l.scetween, l.text.len() as usize, delta_ms),
        ..l
    }
}

/// A layer whose whole text appeared.
pub open spec fn layer_revealed(l: LayerRecord) -> LayerRecord {
    LayerRecord { progress: revealed(l.progress, l.scetween, l.text.len() as usize), ..l }
}

/// The layers after the whole text of the active one appeared, where that layer
/// is there.
pub open spec fn active_revealed(s: StateRecord) -> StateRecord {
    match s.active {
        Some(id) => if s.layers.contains_key(id) {
            StateRecord { layers: s.layers.insert(id, layer_revealed(s.layers[id])), ..s }
        } else {
            s
        },
        None => s,
    }
}

/// Whether the text of the active layer has appeared; where there is no such
/// layer, there is no text to wait for.
pub open spec fn active_complete(s: StateRecord) -> bool {
    match s.active {
        Some(id) => s.layers.contains_key(id) ==> complete(
            s.layers[id].progress,
            s.layers[id].text.len(),
        ),
        None => true,
    }
}

impl FontState {
    /// Nothing is there twice, and every layer is well formed.
    pub open spec fn wf(self) -> bool {
        &&& self.layers.wf()
        &&& forall|i: int|
            0 <= i < self.layers.items().len() ==> (#[trigger] self.layers.items()[i]).1.wf()
        &&& self.default_font.wf()
        &&& self.glyph_config.wf()
    }

    /// No layer yet.
    pub fn new() -> (out: Self)
        ensures
            out.wf(),
            out@ == (StateRecord {
                layers: Map::empty(),
                active: None,
                stack: Seq::empty(),
                default_font: plain_font(),
                glyph_config: Map::empty(),
            }),
    {
        let out = FontState {
            layers: NameMap::new(),
            active_layer: None,
            layer_stack: Vec::new(),
            default_font: FontDesc::new(),
            glyph_config: NameMap::new(),
        };
        proof {
            assert(layer_map(out.layers) =~= Map::empty());
            assert(text_map(out.glyph_config) =~= Map::empty());
            assert(texts(out.layer_stack@) =~= Seq::empty());
        }
        out
    }

    /// Makes sure that the active layer is there, and finds it.
    pub fn activate(&mut self) -> (at: usize)
        requires
            old(self).wf(),
        ensures
            (*final(self)).wf(),
            final(self)@ == with_active(old(self)@, active_record(old(self)@)),
            at < final(self).layers.items().len(),
            final(self).layers.items()[at as int].0@ == active_id(old(self)@),
            final(self).layers.items()[at as int].1@ == active_record(old(self)@),
            final(self).layer_stack == old(self).layer_stack,
            final(self).default_font == old(self).default_font,
            final(self).glyph_config == old(self).glyph_config,
    {
        let id = match &self.active_layer {
            Some(id) => copy_text(id.as_str()),
            None => copy_text("adv01"),
        };
        let ghost name = id@;
        let ghost before = self.layers;
        assert(name == active_id(old(self)@));
        if !self.layers.contains_key(id.as_str()) {
            let layer = MessageLayer::new(copy_text(id.as_str()));
            self.layers.insert(id.as_str(), layer);
            proof {
                assert forall|i: int| 0 <= i < self.layers.items().len() implies (
                #[trigger] self.layers.items()[i]).1.wf() by {
                    lemma_item_is_mapped(self.layers, i);
                    let key = self.layers.items()[i].0@;
                    if key != name {
                        assert(before@.contains_key(key));
                        lemma_key_has_item(before, key);
                    }
                }
                assert(layer_map(self.layers) =~= layer_map(before).insert(
                    name,
                    fresh_layer(name),
                ));
            }
        } else {
            assert(layer_map(self.layers) =~= layer_map(before).insert(
                name,
                layer_map(before)[name],
            ));
        }
        let at: usize = match self.layers.place(id.as_str()) {
            Some(at) => at,
            None => 0,
        };
        self.active_layer = Some(id);
        proof {
            assert(self@ =~= with_active(old(self)@, active_record(old(self)@)));
            assert(layer_map(self.layers)[name] == self.layers@[name]@);
        }
        at
    }

    /// The active layer, to be changed in place.
    pub fn active_layer_mut(&mut self) -> (out: &mut MessageLayer)
        requires
            old(self).wf(),
        ensures
            out@ == active_record(old(self)@),
            (*out).wf(),
            (*final(out)).wf() ==> (*final(self)).wf() && final(self)@ == with_active(
                old(self)@,
                final(out)@,
            ),
    {
        let at: usize = self.activate();
        let ghost before = self.layers;
        let ghost start = *self;
        assert(self.layers.items()[at as int].1.wf());
        let out = self.layers.value_at_mut(at);
        proof {
            let after = after_borrow(self.layers);
            lemma_value_changed(before, after, at as int, *final(out));
            assert(layer_map(after) =~= layer_map(before).insert(
                active_id(old(self)@),
                final(out)@,
            ));
            assert(layer_map(after) =~= old(self)@.layers.insert(
                active_id(old(self)@),
                final(out)@,
            ));
        }
        out
    }

    /// Takes font settings for the active layer.
    pub fn apply_font_settings(&mut self, settings: &NameMap<String>)
        requires
            old(self).wf(),
            settings.wf(),
        ensures
            (*final(self)).wf(),
            final(self)@ == with_active(
                old(self)@,
                with_settings(active_record(old(self)@), text_map(*settings)),
            ),
    {
        let layer = self.active_layer_mut();
        layer.apply_settings(settings);
    }

    /// Takes the default font for the active layer.
    pub fn font_init(&mut self)
        requires
            old(self).wf(),
        ensures
            (*final(self)).wf(),
            final(self)@ == with_active(
                old(self)@,
                (LayerRecord {
                    font: old(self)@.default_font,
                    ..active_record(old(self)@)
                }),
            ),
    {
        let font = self.default_font.copy();
        let layer = self.active_layer_mut();
        layer.set_font(font);
    }

    /// Brings back the font that the active layer had before its last settings.
    pub fn font_pop(&mut self)
        requires
            old(self).wf(),
        ensures
            (*final(self)).wf(),
            final(self)@ == with_active(old(self)@, with_popped_font(active_record(old(self)@))),
    {
        let layer = self.active_layer_mut();
        layer.pop_font();
    }

    /// Takes settings for the default font.
    pub fn font_default(&mut self, settings: &NameMap<String>)
        requires
            old(self).wf(),
            settings.wf(),
        ensures
            (*final(self)).wf(),
            final(self)@ == (StateRecord {
                default_font: merged_font(old(self)@.default_font, text_map(*settings)),
                ..old(self)@
            }),
    {
        self.default_font.merge_raw(settings);
    }

    /// Makes another layer active, which begins without text. `unplaced` says
    /// that the layer has no place of its own yet.
    pub fn switch_message_layer(&mut self, id: Option<&str>, unplaced: bool)
        requires
            old(self).wf(),
        ensures
            (*final(self)).wf(),
            final(self)@ == switched(
                old(self)@,
                match id {
                    Some(id) => Some(id@),
                    None => None,
                },
                unplaced,
            ),
    {
        let ghost start = self@;
        let font = match &self.active_layer {
            Some(before) => if unplaced {
                match self.layers.place(before.as_str()) {
                    Some(at) => {
                        assert(self.layers.items()[at as int].1.wf());
                        Some(self.layers.value_at(at).font.copy())
                    },
                    None => None,
                }
            } else {
                None
            },
            None => None,
        };
        let left = match &self.active_layer {
            Some(before) => Some(copy_text(before.as_str())),
            None => None,
        };
        if let Some(name) = left {
            proof {
                lemma_texts_push(self.layer_stack@, name);
            }
            self.layer_stack.push(name);
        }
        self.active_layer = match id {
            Some(id) => Some(copy_text(id)),
            None => None,
        };
        let ghost next = self@;
        let layer = self.active_layer_mut();
        if let Some(font) = font {
            layer.set_font(font);
        }
        layer.clear_text();
        proof {
            let spec_next = StateRecord {
                active: next.active,
                stack: match start.active {
                    Some(before) => start.stack.push(before),
                    None => start.stack,
                },
                ..start
            };
            assert(next =~= spec_next);
        }
    }

    /// Makes the layer before the active one active again.
    pub fn pop_message_layer(&mut self)
        requires
            old(self).wf(),
        ensures
            (*final(self)).wf(),
            final(self)@ == popped(old(self)@),
    {
        let ghost before = self.layer_stack@;
        if let Some(id) = self.layer_stack.pop() {
            self.active_layer = Some(id);
            assert(texts(self.layer_stack@) =~= texts(before).drop_last());
        }
    }

    /// Takes the settings of the icon that waits for a click.
    pub fn set_glyph_config(&mut self, config: &NameMap<String>)
        requires
            old(self).wf(),
            config.wf(),
        ensures
            (*final(self)).wf(),
            final(self)@ == (StateRecord { glyph_config: text_map(*config), ..old(self)@ }),
    {
        self.glyph_config = copy_text_map(config);
    }

    /// Writes the characters that the font has onto the active layer.
    pub fn push_text(&mut self, glyphs: &Vec<char>)
        requires
            old(self).wf(),
        ensures
            (*final(self)).wf(),
            final(self)@ == with_active(
                old(self)@,
                with_text(active_record(old(self)@), glyphs@),
            ),
    {
        let layer = self.active_layer_mut();
        layer.push_text(glyphs);
    }

    /// Ends the line of the active layer.
    pub fn push_line_break(&mut self)
        requires
            old(self).wf(),
        ensures
            (*final(self)).wf(),
            final(self)@ == with_active(old(self)@, with_line_break(active_record(old(self)@))),
    {
        let layer = self.active_layer_mut();
        layer.push_line_break();
    }

    /// Takes the text of the active layer away, where that layer is there.
    pub fn push_page_break(&mut self)
        requires
            old(self).wf(),
        ensures
            (*final(self)).wf(),
            final(self)@ == page_broken(old(self)@),
    {
        let at = match &self.active_layer {
            Some(id) => self.layers.place(id.as_str()),
            None => self.layers.place(""),
        };
        if let Some(at) = at {
            let ghost before = self.layers;
            let ghost id = self.layers.items()[at as int].0@;
            assert(self.layers.items()[at as int].1.wf());
            let layer = self.layers.value_at_mut(at);
            layer.clear_text();
            proof {
                lemma_value_changed(
                    before,
                    self.layers,
                    at as int,
                    self.layers.items()[at as int].1,
                );
                assert(layer_map(self.layers) =~= layer_map(before).insert(
                    id,
                    without_text(layer_map(before)[id]),
                ));
            }
        }
        proof {
            reveal_strlit("");
            assert(""@ =~= Seq::empty());
        }
    }

    /// Takes a setting of how the text of the active layer appears.
    pub fn set_scetween(&mut self, config: ScetweenConfig)
        requires
            old(self).wf(),
        ensures
            (*final(self)).wf(),
            final(self)@ == with_active(
                old(self)@,
                with_scetween(active_record(old(self)@), config),
            ),
    {
        let layer = self.active_layer_mut();
        layer.set_scetween(config);
    }

    /// Makes the text of the active layer appear from the start.
    pub fn reset_reveal(&mut self)
        requires
            old(self).wf(),
        ensures
            (*final(self)).wf(),
            final(self)@ == with_active(
                old(self)@,
                restarted(
                    active_record(old(self)@),
                    active_record(old(self)@).progress.hidden,
                ),
            ),
    {
        let layer = self.active_layer_mut();
        let hidden = layer.text_hidden;
        layer.restart(hidden);
    }

    /// Makes the text of the active layer go.
    pub fn hide_text(&mut self)
        requires
            old(self).wf(),
        ensures
            (*final(self)).wf(),
            final(self)@ == with_active(old(self)@, restarted(active_record(old(self)@), true)),
    {
        let layer = self.active_layer_mut();
        layer.restart(true);
    }

    /// Makes the text of the active layer come again.
    pub fn show_text(&mut self)
        requires
            old(self).wf(),
        ensures
            (*final(self)).wf(),
            final(self)@ == with_active(old(self)@, restarted(active_record(old(self)@), false)),
    {
        let layer = self.active_layer_mut();
        layer.restart(false);
    }

    /// Lets time pass for every layer.
    pub fn advance_reveal(&mut self, delta_ms: u64)
        requires
            old(self).wf(),
        ensures
            (*final(self)).wf(),
            final(self)@ == (StateRecord {
                layers: time_passed(old(self)@.layers, delta_ms),
                ..old(self)@
            }),
    {
        let ghost first = self.layers;
        let ghost start = *self;
        let mut i: usize = 0;
        while i < self.layers.len()
            invariant
                i <= first.items().len(),
                self.wf(),
                first.wf(),
                *self == (FontState { layers: self.layers, ..start }),
                self.layers.items().len() == first.items().len(),
                forall|j: int|
                    0 <= j < first.items().len() ==> (#[trigger] self.layers.items()[j]).0
                        == first.items()[j].0,
                forall|j: int|
                    0 <= j < i ==> (#[trigger] self.layers.items()[j]).1@ == layer_later(
                        first.items()[j].1@,
                        delta_ms,
                    ),
                forall|j: int|
                    i <= j < first.items().len() ==> (#[trigger] self.layers.items()[j]).1
                        == first.items()[j].1,
            decreases first.items().len() - i,
        {
            let ghost before = self.layers;
            assert(self.layers.items()[i as int].1.wf());
            let layer = self.layers.value_at_mut(i);
            layer.advance(delta_ms);
            proof {
                lemma_value_changed(before, self.layers, i as int, self.layers.items()[i as int].1);
            }
            i += 1;
        }
        proof {
            lemma_layers_changed(first, self.layers, |l: LayerRecord| layer_later(l, delta_ms));
            assert(layer_map(self.layers) =~= time_passed(layer_map(first), delta_ms));
        }
    }

    /// Makes the whole text of the active layer appear, where that layer is there.
    pub fn reveal_all(&mut self)
        requires
            old(self).wf(),
        ensures
            (*final(self)).wf(),
            final(self)@ == active_revealed(old(self)@),
    {
        let at = match &self.active_layer {
            Some(id) => self.layers.place(id.as_str()),
            None => None,
        };
        if let Some(at) = at {
            let ghost before = self.layers;
            let ghost id = self.layers.items()[at as int].0@;
            assert(self.layers.items()[at as int].1.wf());
            let layer = self.layers.value_at_mut(at);
            layer.reveal_now();
            proof {
                lemma_value_changed(
                    before,
                    self.layers,
                    at as int,
                    self.layers.items()[at as int].1,
                );
                assert(layer_map(self.layers) =~= layer_map(before).insert(
                    id,
                    layer_revealed(layer_map(before)[id]),
                ));
            }
        }
    }

    /// Whether the text of the active layer has appeared; where there is no such
    /// layer, there is no text to wait for.
    pub fn is_reveal_complete(&self) -> (out: bool)
        requires
            self.wf(),
        ensures
            out == active_complete(self@),
    {
        match &self.active_layer {
            Some(id) => match self.layers.get(id.as_str()) {
                Some(layer) => layer.is_complete(),
                None => true,
            },
            None => true,
        }
    }
}

/// The layers after the page of the active one was broken.
pub open spec fn page_broken(s: StateRecord) -> StateRecord {
    let id = match s.active {
        Some(id) => id,
        None => Seq::empty(),
    };
    if s.layers.contains_key(id) {
        StateRecord { layers: s.layers.insert(id, without_text(s.layers[id])), ..s }
    } else {
        s
    }
}

/// Changing every layer in place changes the map everywhere.
pub proof fn lemma_layers_changed(
    before: NameMap<MessageLayer>,
    after: NameMap<MessageLayer>,
    change: spec_fn(LayerRecord) -> LayerRecord,
)
    requires
        before.wf(),
        after.wf(),
        after.items().len() == before.items().len(),
        forall|j: int|
            0 <= j < before.items().len() ==> (#[trigger] after.items()[j]).0
                == before.items()[j].0,
        forall|j: int|
            0 <= j < before.items().len() ==> (#[trigger] after.items()[j]).1@ == change(
                before.items()[j].1@,
            ),
    ensures
        layer_map(after) == layer_map(before).map_values(change),
{
    assert forall|id: Seq<char>| #[trigger]
        layer_map(after).contains_key(id) == layer_map(before).contains_key(id) by {
        if layer_map(after).contains_key(id) {
            lemma_key_has_item(after, id);
            let i = choose|i: int|
                0 <= i < after.items().len() && (#[trigger] after.items()[i]).0@ == id;
            lemma_item_is_mapped(before, i);
        }
        if layer_map(before).contains_key(id) {
            lemma_key_has_item(before, id);
            let i = choose|i: int|
                0 <= i < before.items().len() && (#[trigger] before.items()[i]).0@ == id;
            assert(after.items()[i].0@ == id);
            lemma_item_is_mapped(after, i);
        }
    }
    assert forall|id: Seq<char>| #[trigger] layer_map(after).contains_key(id) implies layer_map(
        after,
    )[id] == change(layer_map(before)[id]) by {
        lemma_key_has_item(after, id);
        let i = choose|i: int|
            0 <= i < after.items().len() && (#[trigger] after.items()[i]).0@ == id
                && after.items()[i].1 == after@[id];
        lemma_item_is_mapped(before, i);
        assert(after.items()[i].1@ == change(before.items()[i].1@));
    }
    assert(layer_map(after) =~= layer_map(before).map_values(change));
}

/// Making all text of the active layer appear completes it, and no other layer
/// changes.
pub proof fn law_reveal_all_completes(s: StateRecord)
    requires
        forall|id: Seq<char>| #[trigger]
            s.layers.contains_key(id) ==> s.layers[id].text.len() <= usize::MAX,
    ensures
        active_complete(active_revealed(s)),
        forall|id: Seq<char>| #[trigger]
            s.layers.contains_key(id) && s.active != Some(id) ==> active_revealed(
                s,
            ).layers.contains_key(id) && active_revealed(s).layers[id] == s.layers[id],
{
}

/// Every piece of text and every line break makes the active layer appear from
/// the start, as a restart after it does.
pub proof fn law_text_restarts(s: StateRecord, more: Seq<char>)
    ensures
        ({
            let layer = with_text(active_record(s), more);
            &&& restarted(layer, layer.progress.hidden) == layer
            &&& layer.progress.hidden == active_record(s).progress.hidden
        }),
        ({
            let layer = with_line_break(active_record(s));
            &&& restarted(layer, layer.progress.hidden) == layer
            &&& layer.progress.hidden == active_record(s).progress.hidden
        }),
{
}

/// Going to a layer and back makes the one before active again.
pub proof fn law_switching_is_undone(s: StateRecord, id: Option<Seq<char>>, unplaced: bool)
    requires
        s.active is Some,
    ensures
        popped(switched(s, id, unplaced)).active == s.active,
        popped(switched(s, id, unplaced)).stack == s.stack,
{
    let there = switched(s, id, unplaced);
    assert(there.stack.drop_last() =~= s.stack);
}

/// Settings that save the font are undone by bringing it back.
pub proof fn law_font_settings_are_undone(l: LayerRecord, raw: Map<Seq<char>, Seq<char>>)
    requires
        crate::text::layers::saves_font(raw),
    ensures
        with_popped_font(with_settings(l, raw)) == l,
{
    assert(with_popped_font(with_settings(l, raw)).font_stack =~= l.font_stack);
}

/// The layer of this name is the active one; without one it is `adv01`, and where
/// the layer is not there yet it is a fresh one.
pub proof fn law_the_active_layer(s: StateRecord, id: Seq<char>)
    ensures
        s.active == Some(id) ==> active_id(s) == id,
        s.active is None ==> active_id(s) == "adv01"@,
        s.layers.contains_key(id) ==> layer_named(s, id) == s.layers[id],
        !s.layers.contains_key(id) ==> layer_named(s, id) == fresh_layer(id),
        active_record(s) == layer_named(s, active_id(s)),
{
}

/// Changing the active layer makes it active by name, puts the layer in its place
/// and leaves every other one, the stack, the default font and the glyphs alone.
pub proof fn law_one_layer_changes(s: StateRecord, layer: LayerRecord, other: Seq<char>)
    ensures
        ({
            let next = with_active(s, layer);
            &&& next.layers.contains_key(active_id(s)) && next.layers[active_id(s)] == layer
            &&& next.active == Some(active_id(s))
            &&& other != active_id(s) ==> next.layers.contains_key(other)
                == s.layers.contains_key(other) && next.layers[other] == s.layers[other]
            &&& next.stack == s.stack
            &&& next.default_font == s.default_font
            &&& next.glyph_config == s.glyph_config
        }),
{
}

/// Switching to a layer makes it active, remembers the one before on top of the
/// stack, and clears the text of the new one. Its font is that of the layer before
/// where the layer has no place of its own.
pub proof fn law_switching_clears_the_layer(
    s: StateRecord,
    id: Option<Seq<char>>,
    unplaced: bool,
    other: Seq<char>,
)
    ensures
        ({
            let next = switched(s, id, unplaced);
            let name = if id is Some {
                id->0
            } else {
                "adv01"@
            };
            let was = if s.layers.contains_key(name) {
                s.layers[name]
            } else {
                fresh_layer(name)
            };
            &&& next.active == Some(name)
            &&& s.active is None ==> next.stack == s.stack
            &&& s.active matches Some(before) ==> next.stack == s.stack.push(before)
            &&& next.layers.contains_key(name)
            &&& next.layers[name].text.len() == 0
            &&& !next.layers[name].progress.pending
            &&& next.layers[name].font == (if unplaced && s.active is Some && s.layers.contains_key(
                s.active->0,
            ) {
                s.layers[s.active->0].font
            } else {
                was.font
            })
            &&& next.layers[name] == (LayerRecord {
                text: Seq::empty(),
                progress: next.layers[name].progress,
                font: next.layers[name].font,
                ..was
            })
            &&& next.layers[name].progress.hidden == was.progress.hidden
            &&& other != name ==> next.layers.contains_key(other) == s.layers.contains_key(other)
                && next.layers[other] == s.layers[other]
            &&& next.default_font == s.default_font && next.glyph_config == s.glyph_config
        }),
{
}

/// Going back makes the layer on top of the stack active; without one nothing
/// changes.
pub proof fn law_going_back(s: StateRecord)
    ensures
        s.stack.len() == 0 ==> popped(s) == s,
        s.stack.len() > 0 ==> popped(s) == (StateRecord {
            active: Some(s.stack.last()),
            stack: s.stack.drop_last(),
            ..s
        }),
{
}

/// Time passes for the text of every layer, and changes nothing else of it.
pub proof fn law_time_passes_for_every_layer(
    layers: Map<Seq<char>, LayerRecord>,
    delta_ms: u64,
    id: Seq<char>,
)
    ensures
        time_passed(layers, delta_ms).dom() == layers.dom(),
        layers.contains_key(id) ==> ({
            let was = layers[id];
            let next = time_passed(layers, delta_ms)[id];
            &&& next.progress == advanced(
                was.progress,
                was.scetween,
                was.text.len() as usize,
                delta_ms,
            )
            &&& next == (LayerRecord { progress: next.progress, ..was })
        }),
{
    assert(time_passed(layers, delta_ms).dom() =~= layers.dom());
}

/// A page break clears the text of the active layer alone, and only where that
/// layer is there; without an active layer it is the one with the empty name.
pub proof fn law_page_breaks_clear_one_layer(s: StateRecord, other: Seq<char>)
    ensures
        ({
            let id = if s.active is Some {
                s.active->0
            } else {
                Seq::empty()
            };
            let next = page_broken(s);
            &&& !s.layers.contains_key(id) ==> next == s
            &&& s.layers.contains_key(id) ==> {
                &&& next.layers[id].text.len() == 0
                &&& next.layers[id] == without_text(s.layers[id])
                &&& next.layers.dom() == s.layers.dom()
                &&& other != id ==> next.layers[other] == s.layers[other]
                &&& next == (StateRecord { layers: next.layers, ..s })
            }
        }),
{
    let id = if s.active is Some {
        s.active->0
    } else {
        Seq::empty()
    };
    if s.layers.contains_key(id) {
        assert(page_broken(s).layers.dom() =~= s.layers.dom());
    }
}

/// The text is complete where no layer is active, where the active one is not
/// there, and where its own text is.
pub proof fn law_completeness_is_that_of_the_active_layer(s: StateRecord)
    ensures
        s.active is None ==> active_complete(s),
        s.active matches Some(id) ==> {
            &&& !s.layers.contains_key(id) ==> active_complete(s)
            &&& s.layers.contains_key(id) ==> (active_complete(s) <==> s.layers[id].text.len() == 0
                || (!s.layers[id].progress.pending && s.layers[id].progress.index
                >= s.layers[id].text.len()))
        },
{
}

} // verus!
