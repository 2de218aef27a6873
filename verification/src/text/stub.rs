//! Text without glyphs: every character counts, none is drawn.
use crate::name_map::lemma_value_changed;
use crate::strs::{chars_of, copy_text, lemma_texts_push, opt_text};
use crate::text::layers::{
    appeared, capped, restarted, with_scetween, with_text, LayerRecord, MessageLayer, Progress,
};
use crate::text::render::{is_entrance_mode, ScetweenConfig};
use crate::text::state::{active_record, lemma_layers_changed, with_active, FontState, StateRecord};
use vstd::prelude::*;

verus! {

/// A text renderer that keeps the state of text and draws nothing.
pub struct StubTextRenderer {
    pub state: FontState,
    /// The text that came last.
    pub last_text: Option<String>,
}

/// The setting of a layer: the last one counts.
pub open spec fn only_config(configs: Seq<ScetweenConfig>) -> Option<ScetweenConfig> {
    if configs.len() == 0 {
        None
    } else {
        Some(configs.last())
    }
}

/// The progress of `count` characters after some time, under one setting.
pub open spec fn stub_advanced(
    p: Progress,
    config: Option<ScetweenConfig>,
    count: usize,
    delta_ms: u64,
) -> Progress {
    let clock_ms = capped(p.clock_ms + delta_ms);
    if !p.pending {
        p
    } else {
        match config {
            None => Progress { index: count, pending: false, clock_ms, hidden: p.hidden },
            Some(c) => if !is_entrance_mode(c.mode) {
                Progress { index: count, pending: false, clock_ms, hidden: p.hidden }
            } else if count == 0 {
                Progress { pending: false, clock_ms, ..p }
            } else if c.delay_per_char == 0 {
                Progress {
                    index: count,
                    pending: clock_ms < c.time_per_char,
                    clock_ms,
                    hidden: p.hidden,
                }
            } else {
                let index = appeared(clock_ms, c.delay_per_char, count as nat);
                Progress {
                    index: index as usize,
                    pending: index < count || (c.time_per_char > 0 && clock_ms < (count - 1)
                        * c.delay_per_char + c.time_per_char),
                    clock_ms,
                    hidden: p.hidden,
                }
            },
        }
    }
}

/// A layer after some time.
pub open spec fn stub_later(l: LayerRecord, delta_ms: u64) -> LayerRecord {
    LayerRecord {
        progress: stub_advanced(
            l.progress,
            only_config(l.scetween),
            l.text.len() as usize,
            delta_ms,
        ),
        ..l
    }
}

fn advance_layer(layer: &mut MessageLayer, delta_ms: u64)
    requires
        old(layer).wf(),
    ensures
        (*final(layer)).wf(),
        final(layer)@ == stub_later(old(layer)@, delta_ms),
{
    if !layer.reveal_pending {
        return;
    }
    let count: usize = layer.text_buffer.len();
    layer.reveal_clock_ms = layer.reveal_clock_ms.saturating_add(delta_ms);
    let settings: usize = layer.scetween.len();
    if settings == 0 {
        layer.reveal_index = count;
        layer.reveal_pending = false;
        return;
    }
    let config = layer.scetween[settings - 1];
    if !config.mode.is_entrance() {
        layer.reveal_index = count;
        layer.reveal_pending = false;
        return;
    }
    if count == 0 {
        layer.reveal_pending = false;
        return;
    }
    if config.delay_per_char == 0 {
        layer.reveal_index = count;
        layer.reveal_pending = layer.reveal_clock_ms < config.time_per_char;
        return;
    }
    let whole: u64 = layer.reveal_clock_ms / config.delay_per_char;
    layer.reveal_index = if whole < count as u64 {
        whole as usize + 1
    } else {
        count
    };
    if layer.reveal_index >= count {
        let steps: u128 = (count - 1) as u128;
        proof {
            assert(steps * config.delay_per_char <= 0xffff_ffff_ffff_ffff
                * 0xffff_ffff_ffff_ffff) by (nonlinear_arith)
                requires
                    0 <= steps <= 0xffff_ffff_ffff_ffff,
                    0 <= config.delay_per_char <= 0xffff_ffff_ffff_ffff,
            ;
            assert(steps * config.delay_per_char >= 0) by (nonlinear_arith)
                requires
                    steps >= 0,
                    config.delay_per_char >= 0,
            ;
        }
        let end: u128 = steps * config.delay_per_char as u128 + config.time_per_char as u128;
        layer.reveal_pending = config.time_per_char > 0 && (layer.reveal_clock_ms as u128) < end;
    }
}

impl StubTextRenderer {
    /// The state is well formed.
    pub open spec fn wf(self) -> bool {
        self.state.wf()
    }

    /// No text yet.
    pub fn new() -> (out: Self)
        ensures
            out.wf(),
            out.last_text is None,
            out.state@.active is None,
            out.state@.layers == Map::<Seq<char>, LayerRecord>::empty(),
            out.state@.stack == Seq::<Seq<char>>::empty(),
    {
        StubTextRenderer { state: FontState::new(), last_text: None }
    }

    /// Makes another layer active, as it is.
    pub fn switch_message_layer(&mut self, id: Option<&str>)
        requires
            old(self).wf(),
        ensures
            (*final(self)).wf(),
            final(self).last_text == old(self).last_text,
            final(self).state@ == (StateRecord {
                active: match id {
                    Some(id) => Some(id@),
                    None => None,
                },
                stack: match old(self).state@.active {
                    Some(before) => old(self).state@.stack.push(before),
                    None => old(self).state@.stack,
                },
                ..old(self).state@
            }),
    {
        let left = match &self.state.active_layer {
            Some(before) => Some(copy_text(before.as_str())),
            None => None,
        };
        if let Some(name) = left {
            proof {
                lemma_texts_push(self.state.layer_stack@, name);
            }
            self.state.layer_stack.push(name);
        }
        self.state.active_layer = match id {
            Some(id) => Some(copy_text(id)),
            None => None,
        };
    }

    /// Writes text onto the active layer, which appears anew.
    pub fn push_text(&mut self, content: &str)
        requires
            old(self).wf(),
        ensures
            (*final(self)).wf(),
            opt_text(final(self).last_text) == Some(content@),
            final(self).state@ == with_active(
                old(self).state@,
                with_text(active_record(old(self).state@), content@),
            ),
    {
        self.last_text = Some(copy_text(content));
        let more = chars_of(content);
        self.state.push_text(&more);
    }

    /// Ends the line of the active layer, which appears anew. Lines are not kept.
    pub fn push_line_break(&mut self)
        requires
            old(self).wf(),
        ensures
            (*final(self)).wf(),
            final(self).last_text == old(self).last_text,
            final(self).state@ == with_active(
                old(self).state@,
                restarted(
                    active_record(old(self).state@),
                    active_record(old(self).state@).progress.hidden,
                ),
            ),
    {
        self.state.reset_reveal();
    }

    /// Takes the text of the active layer away.
    pub fn push_page_break(&mut self)
        requires
            old(self).wf(),
        ensures
            (*final(self)).wf(),
            final(self).last_text == old(self).last_text,
            final(self).state@ == with_active(
                old(self).state@,
                (LayerRecord {
                    text: Seq::empty(),
                    progress: Progress {
                        index: 0,
                        pending: false,
                        ..active_record(old(self).state@).progress
                    },
                    ..active_record(old(self).state@)
                }),
            ),
    {
        let layer = self.state.active_layer_mut();
        let clock: u64 = layer.reveal_clock_ms;
        layer.clear_text();
        layer.reveal_clock_ms = clock;
    }

    /// Takes a setting of how the text of the active layer appears.
    pub fn set_scetween(&mut self, config: ScetweenConfig)
        requires
            old(self).wf(),
        ensures
            (*final(self)).wf(),
            final(self).last_text == old(self).last_text,
            final(self).state@ == with_active(
                old(self).state@,
                with_scetween(active_record(old(self).state@), config),
            ),
    {
        self.state.set_scetween(config);
    }

    /// Lets time pass for every layer.
    pub fn advance_reveal(&mut self, delta_ms: u64)
        requires
            old(self).wf(),
        ensures
            (*final(self)).wf(),
            final(self).last_text == old(self).last_text,
            final(self).state@ == (StateRecord {
                layers: old(self).state@.layers.map_values(
                    |l: LayerRecord| stub_later(l, delta_ms),
                ),
                ..old(self).state@
            }),
    {
        let ghost first = self.state.layers;
        let ghost start = self.state;
        let ghost text = self.last_text;
        let mut i: usize = 0;
        while i < self.state.layers.len()
            invariant
                i <= first.items().len(),
                self.wf(),
                first.wf(),
                self.last_text == text,
                self.state == (FontState { layers: self.state.layers, ..start }),
                self.state.layers.items().len() == first.items().len(),
                forall|j: int|
                    0 <= j < first.items().len() ==> (#[trigger] self.state.layers.items()[j]).0
                        == first.items()[j].0,
                forall|j: int|
                    0 <= j < i ==> (#[trigger] self.state.layers.items()[j]).1@ == stub_later(
                        first.items()[j].1@,
                        delta_ms,
                    ),
                forall|j: int|
                    i <= j < first.items().len() ==> (#[trigger] self.state.layers.items()[j]).1
                        == first.items()[j].1,
            decreases first.items().len() - i,
        {
            let ghost before = self.state.layers;
            assert(self.state.layers.items()[i as int].1.wf());
            let layer = self.state.layers.value_at_mut(i);
            advance_layer(layer, delta_ms);
            proof {
                lemma_value_changed(
                    before,
                    self.state.layers,
                    i as int,
                    self.state.layers.items()[i as int].1,
                );
            }
            i += 1;
        }
        proof {
            lemma_layers_changed(
                first,
                self.state.layers,
                |l: LayerRecord| stub_later(l, delta_ms),
            );
        }
    }

    /// Makes the whole text of the active layer appear.
    pub fn reveal_all(&mut self)
        requires
            old(self).wf(),
        ensures
            (*final(self)).wf(),
            final(self).last_text == old(self).last_text,
            final(self).state@ == with_active(
                old(self).state@,
                (LayerRecord {
                    progress: Progress {
                        index: active_record(old(self).state@).text.len() as usize,
                        pending: false,
                        ..active_record(old(self).state@).progress
                    },
                    ..active_record(old(self).state@)
                }),
            ),
    {
        let layer = self.state.active_layer_mut();
        layer.reveal_index = layer.text_buffer.len();
        layer.reveal_pending = false;
    }

    /// Takes back how much of the active layer has appeared.
    pub fn hide_text(&mut self)
        requires
            old(self).wf(),
        ensures
            (*final(self)).wf(),
            final(self).last_text == old(self).last_text,
            final(self).state@ == with_active(
                old(self).state@,
                (LayerRecord {
                    progress: Progress {
                        index: 0,
                        ..active_record(old(self).state@).progress
                    },
                    ..active_record(old(self).state@)
                }),
            ),
    {
        let layer = self.state.active_layer_mut();
        layer.reveal_index = 0;
    }

    /// Makes the text of the active layer appear once more.
    pub fn show_text(&mut self)
        requires
            old(self).wf(),
        ensures
            (*final(self)).wf(),
            final(self).last_text == old(self).last_text,
            final(self).state@ == with_active(
                old(self).state@,
                (LayerRecord {
                    progress: Progress {
                        pending: true,
                        ..active_record(old(self).state@).progress
                    },
                    ..active_record(old(self).state@)
                }),
            ),
    {
        let layer = self.state.active_layer_mut();
        layer.reveal_pending = true;
    }

    /// Whether the text of the active layer has appeared.
    pub fn is_reveal_complete(&self) -> (out: bool)
        ensures
            out == stub_complete(self.state@),
    {
        match &self.state.active_layer {
            Some(id) => match self.state.layers.get(id.as_str()) {
                Some(layer) => !layer.reveal_pending && layer.reveal_index
                    >= layer.text_buffer.len(),
                None => true,
            },
            None => true,
        }
    }
}

/// Whether the text of the active layer has appeared; where there is no such
/// layer, there is no text to wait for.
pub open spec fn stub_complete(s: StateRecord) -> bool {
    match s.active {
        Some(id) => s.layers.contains_key(id) ==> {
            let layer = s.layers[id];
            !layer.progress.pending && layer.progress.index >= layer.text.len()
        },
        None => true,
    }
}

/// Of several tweens the last one counts.
pub proof fn law_the_last_tween_counts(before: Seq<ScetweenConfig>, config: ScetweenConfig)
    ensures
        only_config(Seq::empty()) is None,
        only_config(before.push(config)) == Some(config),
{
}

/// Character `k` has appeared as soon as `k` delays have passed; the text is done
/// when all have and the last has had its time.
pub proof fn law_stub_characters_appear_in_turn(
    p: Progress,
    c: ScetweenConfig,
    count: usize,
    delta_ms: u64,
    k: int,
)
    requires
        p.pending,
        is_entrance_mode(c.mode),
        c.delay_per_char > 0,
        0 <= k < count,
        p.clock_ms + delta_ms <= u64::MAX,
    ensures
        ({
            let next = stub_advanced(p, Some(c), count, delta_ms);
            &&& next.clock_ms == p.clock_ms + delta_ms
            &&& next.hidden == p.hidden
            &&& k < next.index <==> k * c.delay_per_char <= next.clock_ms
            &&& next.index <= count
            &&& next.pending <==> next.index < count || next.clock_ms < (count - 1)
                * c.delay_per_char + c.time_per_char
        }),
{
    let delay = c.delay_per_char as int;
    let clock = p.clock_ms + delta_ms;
    vstd::arithmetic::div_mod::lemma_fundamental_div_mod(clock, delay);
    vstd::arithmetic::div_mod::lemma_mod_bound(clock, delay);
    let q = clock / delay;
    assert(k * delay <= clock <==> k <= q) by (nonlinear_arith)
        requires
            clock == delay * q + clock % delay,
            0 <= clock % delay < delay,
    ;
    let last = count - 1;
    assert(last * delay <= clock <==> last <= q) by (nonlinear_arith)
        requires
            clock == delay * q + clock % delay,
            0 <= clock % delay < delay,
    ;
    assert(q >= 0) by (nonlinear_arith)
        requires
            clock == delay * q + clock % delay,
            0 <= clock % delay < delay,
            clock >= 0,
    ;
}

/// Text without a delay appears at once and is done when one character had its
/// time; without a tween for appearing it is done at once. Text that waits for
/// nothing stays.
pub proof fn law_stub_text_appears_at_once(
    p: Progress,
    c: ScetweenConfig,
    count: usize,
    delta_ms: u64,
)
    requires
        p.clock_ms + delta_ms <= u64::MAX,
    ensures
        !p.pending ==> stub_advanced(p, Some(c), count, delta_ms) == p && stub_advanced(
            p,
            None,
            count,
            delta_ms,
        ) == p,
        p.pending ==> stub_advanced(p, None, count, delta_ms) == (Progress {
            index: count,
            pending: false,
            clock_ms: (p.clock_ms + delta_ms) as u64,
            hidden: p.hidden,
        }),
        p.pending && !is_entrance_mode(c.mode) ==> stub_advanced(p, Some(c), count, delta_ms)
            == stub_advanced(p, None, count, delta_ms),
        p.pending && is_entrance_mode(c.mode) && count == 0 ==> stub_advanced(
            p,
            Some(c),
            count,
            delta_ms,
        ) == (Progress { pending: false, clock_ms: (p.clock_ms + delta_ms) as u64, ..p }),
        p.pending && is_entrance_mode(c.mode) && count > 0 && c.delay_per_char == 0
            ==> stub_advanced(p, Some(c), count, delta_ms) == (Progress {
            index: count,
            pending: p.clock_ms + delta_ms < c.time_per_char,
            clock_ms: (p.clock_ms + delta_ms) as u64,
            hidden: p.hidden,
        }),
{
}

/// Time changes nothing of a layer but how far its text has come, and the text is
/// complete where no layer is active, where the active one is not there, and where
/// nothing of it is left to appear.
pub proof fn law_stub_time_and_completeness(l: LayerRecord, delta_ms: u64, s: StateRecord)
    ensures
        stub_later(l, delta_ms) == (LayerRecord { progress: stub_later(l, delta_ms).progress, ..l }),
        stub_later(l, delta_ms).progress == stub_advanced(
            l.progress,
            only_config(l.scetween),
            l.text.len() as usize,
            delta_ms,
        ),
        s.active is None ==> stub_complete(s),
        s.active matches Some(id) ==> {
            &&& !s.layers.contains_key(id) ==> stub_complete(s)
            &&& s.layers.contains_key(id) ==> (stub_complete(s) <==> !s.layers[id].progress.pending
                && s.layers[id].progress.index >= s.layers[id].text.len())
        },
{
}

} // verus!
