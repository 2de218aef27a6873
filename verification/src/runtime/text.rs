//! Text events of scripts.
use crate::ffi::text_inject::TextInjectResult;
use crate::name_map::{text_map, NameMap};
use crate::render_pipeline::draw::{hex_byte, hex_digit, push_hex};
use crate::runtime::backlog::{configured, BacklogConfig, BacklogSettings, SettingsRecord};
use crate::runtime::translation::PendingScenarioText;
use crate::strs::{
    chars_of, concat, copy_opt, copy_text, ends_with, has_suffix, lower, opt_text, same_text,
    string_of_range, texts, to_lower,
};
use crate::text::font::merged_font;
use crate::text::layers::{
    restarted, with_line_break, with_popped_font, with_scetween, with_settings, with_text,
    LayerRecord,
};
use crate::text::render::ScetweenConfig;
use crate::text::state::{
    active_complete, active_id, active_record, active_revealed, law_reveal_all_completes,
    page_broken, popped, switched, time_passed, with_active, FontState, StateRecord,
};
use vstd::prelude::*;
use vstd::string::*;
use vstd::utf8::*;

verus! {

/// A text event, with what is known to whoever lays out the text.
pub enum TextEvent {
    /// The characters of the text that the font has; `has_font` says that there is
    /// one.
    ScenarioText { shown: Vec<char>, has_font: bool },
    FontSettings { settings: NameMap<String> },
    FontInit,
    FontClose,
    FontDefault { settings: NameMap<String> },
    /// `unplaced` says that the layer has no place of its own yet.
    MessageLayerSwitch { id: Option<String>, unplaced: bool, layered: Option<i32> },
    MessageLayerPop,
    /// `has_font` says that there is a font to lay out the line with.
    LineBreak { has_font: bool },
    PageBreak,
    GlyphConfig { config: NameMap<String> },
    TextAnimation { config: ScetweenConfig },
    SceneIn,
    SceneOut,
    BacklogConfig { config: BacklogConfig },
    WriteBacklogConfig { mode: bool },
    /// An event of which only the layout knows.
    Other,
}

/// No setting is there twice.
pub open spec fn event_wf(event: TextEvent) -> bool {
    match event {
        TextEvent::FontSettings { settings } => settings.wf(),
        TextEvent::FontDefault { settings } => settings.wf(),
        TextEvent::GlyphConfig { config } => config.wf(),
        _ => true,
    }
}

/// The message layers after an event.
pub open spec fn text_state(s: StateRecord, event: TextEvent) -> StateRecord {
    match event {
        TextEvent::ScenarioText { shown, has_font } => with_active(
            s,
            if has_font {
                with_text(active_record(s), shown@)
            } else {
                active_record(s)
            },
        ),
        TextEvent::FontSettings { settings } => with_active(
            s,
            with_settings(active_record(s), text_map(settings)),
        ),
        TextEvent::FontInit => with_active(
            s,
            LayerRecord { font: s.default_font, ..active_record(s) },
        ),
        TextEvent::FontClose => with_active(s, with_popped_font(active_record(s))),
        TextEvent::FontDefault { settings } => StateRecord {
            default_font: merged_font(s.default_font, text_map(settings)),
            ..s
        },
        TextEvent::MessageLayerSwitch { id, unplaced, layered } => {
            let next = switched(s, opt_text(id), unplaced);
            with_active(next, LayerRecord { layered: layered == Some(1i32), ..active_record(next) })
        },
        TextEvent::MessageLayerPop => popped(s),
        TextEvent::LineBreak { has_font } => with_active(
            s,
            if has_font {
                with_line_break(active_record(s))
            } else {
                active_record(s)
            },
        ),
        TextEvent::PageBreak => page_broken(s),
        TextEvent::GlyphConfig { config } => StateRecord { glyph_config: text_map(config), ..s },
        TextEvent::TextAnimation { config } => with_active(
            s,
            with_scetween(active_record(s), config),
        ),
        TextEvent::SceneIn => with_active(s, restarted(active_record(s), false)),
        TextEvent::SceneOut => with_active(s, restarted(active_record(s), true)),
        TextEvent::BacklogConfig { .. } => s,
        TextEvent::WriteBacklogConfig { .. } => s,
        TextEvent::Other => s,
    }
}

/// How pages are kept after an event.
pub open spec fn kept_pages(s: SettingsRecord, event: TextEvent) -> SettingsRecord {
    match event {
        TextEvent::BacklogConfig { config } => configured(s, config),
        TextEvent::WriteBacklogConfig { mode } => SettingsRecord { write_mode: mode, ..s },
        _ => s,
    }
}

/// Whether an event drops the pages that were kept.
pub open spec fn drops_pages(event: TextEvent) -> bool {
    match event {
        TextEvent::BacklogConfig { config } => config.clear,
        _ => false,
    }
}

/// A name that is not empty.
pub open spec fn some_name(raw: Map<Seq<char>, Seq<char>>, key: Seq<char>) -> Option<Seq<char>> {
    if raw.contains_key(key) && raw[key].len() > 0 {
        Some(raw[key])
    } else {
        None
    }
}

/// The font file that an event asks for.
pub open spec fn asked_face(event: TextEvent) -> Option<Seq<char>> {
    match event {
        TextEvent::FontSettings { settings } => some_name(text_map(settings), "face"@),
        TextEvent::FontDefault { settings } => some_name(text_map(settings), "face"@),
        _ => None,
    }
}

/// The font file of the active layer.
pub open spec fn active_face(s: StateRecord) -> Option<Seq<char>> {
    let font = active_record(s).font;
    if font.props.contains_key("face"@) {
        Some(font.props["face"@])
    } else {
        None
    }
}

/// Whether an event may change the font of the active layer.
pub open spec fn changes_font(event: TextEvent) -> bool {
    match event {
        TextEvent::FontInit
        | TextEvent::FontClose
        | TextEvent::FontDefault { .. }
        | TextEvent::FontSettings { .. }
        | TextEvent::MessageLayerSwitch { .. }
        | TextEvent::MessageLayerPop => true,
        _ => false,
    }
}

/// Whether an event changes which layer is active.
pub open spec fn changes_layer(event: TextEvent) -> bool {
    event is MessageLayerSwitch || event is MessageLayerPop
}

/// What follows from a text event.
pub struct TextOutcome {
    /// The font file of the active layer, to be loaded after the event.
    pub restored_face: Option<String>,
    /// Whether the scene is told which layer is active.
    pub rebind: bool,
    /// Whether the pages that were kept are dropped.
    pub drop_pages: bool,
}

fn name_in(raw: &NameMap<String>, key: &str) -> (out: Option<String>)
    ensures
        opt_text(out) == some_name(text_map(*raw), key@),
{
    match raw.get(key) {
        Some(text) => if text.as_str().is_empty() {
            None
        } else {
            Some(copy_text(text.as_str()))
        },
        None => None,
    }
}

/// The font file that an event asks for. It is loaded before the event is taken.
pub fn asked_font(event: &TextEvent) -> (out: Option<String>)
    ensures
        opt_text(out) == asked_face(*event),
{
    match event {
        TextEvent::FontSettings { settings } => name_in(settings, "face"),
        TextEvent::FontDefault { settings } => name_in(settings, "face"),
        _ => None,
    }
}

fn face_of_active(state: &FontState) -> (out: Option<String>)
    requires
        state.wf(),
    ensures
        opt_text(out) == active_face(state@),
{
    let id = match &state.active_layer {
        Some(id) => copy_text(id.as_str()),
        None => copy_text("adv01"),
    };
    match state.layers.get(id.as_str()) {
        Some(layer) => match layer.font.value("face") {
            Some(face) => Some(copy_text(face.as_str())),
            None => None,
        },
        None => None,
    }
}

/// Takes a text event.
pub fn apply_text_event(
    state: &mut FontState,
    backlog: &mut BacklogSettings,
    event: &TextEvent,
) -> (out: TextOutcome)
    requires
        old(state).wf(),
        event_wf(*event),
    ensures
        (*final(state)).wf(),
        final(state)@ == text_state(old(state)@, *event),
        opt_text(out.restored_face) == (if changes_font(*event) {
            active_face(final(state)@)
        } else {
            None
        }),
        out.rebind == changes_layer(*event),
        final(backlog)@ == kept_pages(old(backlog)@, *event),
        out.drop_pages == drops_pages(*event),
{
    let mut out = TextOutcome {
        restored_face: None,
        rebind: false,
        drop_pages: false,
    };
    match event {
        TextEvent::ScenarioText { shown, has_font } => {
            if *has_font {
                state.push_text(shown);
            } else {
                state.active_layer_mut();
            }
            return out;
        },
        TextEvent::FontSettings { settings } => {
            state.apply_font_settings(settings);
        },
        TextEvent::FontInit => state.font_init(),
        TextEvent::FontClose => state.font_pop(),
        TextEvent::FontDefault { settings } => {
            state.font_default(settings);
        },
        TextEvent::MessageLayerSwitch { id, unplaced, layered } => {
            match id {
                Some(id) => state.switch_message_layer(Some(id.as_str()), *unplaced),
                None => state.switch_message_layer(None, *unplaced),
            }
            let on = match layered {
                Some(n) => *n == 1,
                None => false,
            };
            let layer = state.active_layer_mut();
            layer.layered = on;
            out.rebind = true;
        },
        TextEvent::MessageLayerPop => {
            state.pop_message_layer();
            out.rebind = true;
        },
        TextEvent::LineBreak { has_font } => {
            if *has_font {
                state.push_line_break();
            } else {
                state.active_layer_mut();
            }
            return out;
        },
        TextEvent::PageBreak => {
            state.push_page_break();
            return out;
        },
        TextEvent::GlyphConfig { config } => {
            state.set_glyph_config(config);
            return out;
        },
        TextEvent::TextAnimation { config } => {
            state.set_scetween(*config);
            return out;
        },
        TextEvent::SceneIn => {
            state.show_text();
            return out;
        },
        TextEvent::SceneOut => {
            state.hide_text();
            return out;
        },
        TextEvent::BacklogConfig { config } => {
            out.drop_pages = backlog.configure(config);
            return out;
        },
        TextEvent::WriteBacklogConfig { mode } => {
            backlog.set_write_mode(*mode);
            return out;
        },
        TextEvent::Other => return out,
    }
    out.restored_face = face_of_active(state);
    out
}

/// The ruby text that is open on the active layer.
pub fn open_ruby(state: &FontState) -> (out: Option<String>)
    ensures
        opt_text(out) == (if state@.layers.contains_key(active_id(state@)) {
            state@.layers[active_id(state@)].open_ruby
        } else {
            None
        }),
{
    let id = match &state.active_layer {
        Some(id) => copy_text(id.as_str()),
        None => copy_text("adv01"),
    };
    match state.layers.get(id.as_str()) {
        Some(layer) => copy_opt(&layer.open_ruby),
        None => None,
    }
}

/// The text that is shown, and the question for its translation where one may
/// follow. The piece of text that the answer replaces is known once the text
/// is laid out.
pub fn injected_text(content: &str, answer: TextInjectResult, ruby: Option<String>) -> (out: (
    String,
    Option<PendingScenarioText>,
))
    ensures
        out.0@ == (match answer {
            TextInjectResult::Replaced(text) => text@,
            _ => content@,
        }),
        out.1 is Some <==> answer is Pending,
        out.1 matches Some(pending) ==> pending.source@ == content@ && opt_text(pending.ruby)
            == opt_text(ruby) && pending.span is None,
{
    match answer {
        TextInjectResult::Replaced(text) => (text, None),
        TextInjectResult::Unchanged => (copy_text(content), None),
        TextInjectResult::Pending => {
            let pending = PendingScenarioText { source: copy_text(content), ruby, span: None };
            (copy_text(content), Some(pending))
        },
    }
}

/// Lets time pass for the text. While scripts are skipped, and once after, the
/// whole text of the active layer appears; whether that end of skipping is settled is handed out.
pub fn advance_text(
    state: &mut FontState,
    delta_ms: u64,
    skip_active: bool,
    was_skipping: bool,
) -> (settled: bool)
    requires
        old(state).wf(),
    ensures
        (*final(state)).wf(),
        final(state)@ == ({
            let later = StateRecord {
                layers: time_passed(old(state)@.layers, delta_ms),
                ..old(state)@
            };
            if skip_active || was_skipping {
                active_revealed(later)
            } else {
                later
            }
        }),
        settled == (was_skipping && !skip_active && active_complete(final(state)@)),
{
    state.advance_reveal(delta_ms);
    if skip_active {
        state.reveal_all();
        false
    } else if was_skipping {
        state.reveal_all();
        state.is_reveal_complete()
    } else {
        false
    }
}

// ── Message layers in the scene ────────────────────────────────

/// Bytes in hexadecimal.
pub open spec fn hex_text(bytes: Seq<u8>) -> Seq<char>
    decreases bytes.len(),
{
    if bytes.len() == 0 {
        Seq::empty()
    } else {
        hex_text(bytes.drop_last()) + hex_byte(bytes.last())
    }
}

/// The scene layer of a message layer: of the same name where the text belongs
/// to the picture, else one of its own above the scene.
pub open spec fn scene_id(prefix: Seq<char>, message_id: Seq<char>, layered: bool) -> Seq<char> {
    if layered {
        message_id
    } else {
        prefix + hex_text(encode_utf8(message_id))
    }
}

/// The scene layer of a message layer.
pub fn message_layer_scene_id(prefix: &str, message_id: &str, layered: bool) -> (out: String)
    ensures
        out@ == scene_id(prefix@, message_id@, layered),
{
    if layered {
        return copy_text(message_id);
    }
    let mut out = copy_text(prefix);
    let bytes = message_id.as_bytes();
    let ghost all = bytes@;
    let mut i: usize = 0;
    proof {
        assert(all.take(0) =~= Seq::empty());
        assert(prefix@ + hex_text(all.take(0)) =~= prefix@);
    }
    while i < bytes.len()
        invariant
            i <= bytes.len(),
            all == bytes@,
            out@ == prefix@ + hex_text(all.take(i as int)),
        decreases bytes.len() - i,
    {
        push_hex(&mut out, bytes[i]);
        proof {
            assert(all.take(i + 1).drop_last() =~= all.take(i as int));
            assert(out@ =~= prefix@ + hex_text(all.take(i + 1)));
        }
        i += 1;
    }
    assert(all.take(i as int) =~= all);
    out
}

proof fn lemma_hex_text(a: Seq<u8>, b: Seq<u8>)
    requires
        hex_text(a) == hex_text(b),
    ensures
        a == b,
    decreases a.len(),
{
    lemma_hex_len(a);
    lemma_hex_len(b);
    if a.len() == 0 {
        assert(a =~= b);
    } else {
        let x = hex_text(a);
        let y = hex_text(b);
        let n = 2 * (a.len() - 1);
        assert(x[n] == hex_digit(a.last() / 16) && x[n + 1] == hex_digit(a.last() % 16)) by {
            lemma_hex_len(a.drop_last());
        }
        assert(y[n] == hex_digit(b.last() / 16) && y[n + 1] == hex_digit(b.last() % 16)) by {
            lemma_hex_len(b.drop_last());
        }
        assert(a.last() == b.last());
        lemma_hex_len(a.drop_last());
        lemma_hex_len(b.drop_last());
        assert(x.take(n) =~= hex_text(a.drop_last()));
        assert(y.take(n) =~= hex_text(b.drop_last()));
        lemma_hex_text(a.drop_last(), b.drop_last());
        assert(a =~= a.drop_last().push(a.last()));
        assert(b =~= b.drop_last().push(b.last()));
    }
}

proof fn lemma_hex_len(a: Seq<u8>)
    ensures
        hex_text(a).len() == 2 * a.len(),
    decreases a.len(),
{
    if a.len() > 0 {
        lemma_hex_len(a.drop_last());
    }
}

/// Different message layers have different scene layers of their own.
pub proof fn law_overlay_layers_differ(prefix: Seq<char>, a: Seq<char>, b: Seq<char>)
    requires
        scene_id(prefix, a, false) == scene_id(prefix, b, false),
    ensures
        a == b,
{
    let x = hex_text(encode_utf8(a));
    let y = hex_text(encode_utf8(b));
    assert((prefix + x).skip(prefix.len() as int) =~= x);
    assert((prefix + y).skip(prefix.len() as int) =~= y);
    lemma_hex_text(encode_utf8(a), encode_utf8(b));
    encode_utf8_decode_utf8(a);
    encode_utf8_decode_utf8(b);
}

/// What the scene is told of the active message layer.
pub enum LayerBinding {
    /// No layer is active.
    Unbound,
    /// The message layer and its scene layer, which must be there.
    Bound { message_id: String, scene_id: String },
}

/// What the scene is told of the active message layer.
pub fn message_layer_binding(prefix: &str, active: Option<(String, bool)>) -> (out: LayerBinding)
    ensures
        match active {
            Some((id, layered)) => out matches LayerBinding::Bound { message_id, scene_id: scene }
                && message_id@ == id@ && scene@ == scene_id(prefix@, id@, layered),
            None => out is Unbound,
        },
{
    match active {
        Some((message_id, layered)) => {
            let scene_id = message_layer_scene_id(prefix, message_id.as_str(), layered);
            LayerBinding::Bound { message_id, scene_id }
        },
        None => LayerBinding::Unbound,
    }
}

/// The active message layer, and whether it belongs to the picture.
pub fn active_binding(state: &FontState) -> (out: Option<(String, bool)>)
    ensures
        match state@.active {
            Some(id) => out matches Some((name, layered)) && name@ == id && layered == (
            state@.layers.contains_key(id) && state@.layers[id].layered),
            None => out is None,
        },
{
    match &state.active_layer {
        Some(id) => {
            let layered = match state.layers.get(id.as_str()) {
                Some(layer) => layer.layered,
                None => false,
            };
            Some((copy_text(id.as_str()), layered))
        },
        None => None,
    }
}

// ── Font files ─────────────────────────────────────────────────

/// The place of the last character of a kind.
pub open spec fn last_place(s: Seq<char>, c: char) -> Option<int>
    decreases s.len(),
{
    if s.len() == 0 {
        None
    } else if s.last() == c {
        Some(s.len() - 1)
    } else {
        last_place(s.drop_last(), c)
    }
}

proof fn lemma_last_place(s: Seq<char>, c: char)
    ensures
        last_place(s, c) matches Some(at) ==> 0 <= at < s.len(),
    decreases s.len(),
{
    if s.len() > 0 {
        lemma_last_place(s.drop_last(), c);
    }
}

/// A file name before its last dot, and what follows the dot.
pub open spec fn stem_and_ending(face: Seq<char>) -> (Seq<char>, Seq<char>) {
    match last_place(face, '.') {
        Some(at) => (face.take(at), face.skip(at + 1)),
        None => (face, Seq::empty()),
    }
}

/// The family of a font of medium weight, named behind a separator.
pub open spec fn medium_family(stem: Seq<char>, mark: Seq<char>) -> Option<Seq<char>> {
    if has_suffix(lower(stem), mark + "medium"@) {
        Some(stem.take(stem.len() - (mark + "medium"@).len()))
    } else {
        None
    }
}

/// An ending with its dot, where there is one.
pub open spec fn dotted(ending: Seq<char>) -> Seq<char> {
    if ending.len() == 0 {
        Seq::empty()
    } else {
        "."@ + ending
    }
}

/// The other weights of a family.
pub open spec fn other_weights(family: Seq<char>, mark: Seq<char>, ending: Seq<char>) -> Seq<
    Seq<char>,
> {
    seq![
        family + mark + "regular"@ + dotted(ending),
        family + mark + "bold"@ + dotted(ending),
    ]
}

/// The fonts that stand in for one that is missing: other weights of a medium
/// font, and none for any other.
pub open spec fn fallbacks(face: Seq<char>) -> Seq<Seq<char>> {
    let (stem, ending) = stem_and_ending(face);
    match medium_family(stem, "-"@) {
        Some(family) => other_weights(family, "-"@, ending),
        None => match medium_family(stem, "_"@) {
            Some(family) => other_weights(family, "_"@, ending),
            None => Seq::empty(),
        },
    }
}

fn family_of(stem: &str, mark: &str) -> (out: Option<String>)
    ensures
        opt_text(out) == medium_family(stem@, mark@),
{
    let low = to_lower(stem);
    let suffix = concat(mark, "medium");
    if ends_with(low.as_str(), suffix.as_str()) {
        let chars = chars_of(stem);
        let tail = chars_of(suffix.as_str());
        assert(lower(stem@).len() == stem@.len());
        let family = string_of_range(&chars, 0, chars.len() - tail.len());
        assert(family@ =~= stem@.take(stem@.len() - suffix@.len()));
        Some(family)
    } else {
        None
    }
}

fn weights_of(family: &str, mark: &str, ending: &str) -> (out: Vec<String>)
    ensures
        texts(out@) == other_weights(family@, mark@, ending@),
{
    let tail = if ending.is_empty() {
        String::new()
    } else {
        concat(".", ending)
    };
    assert(tail@ =~= dotted(ending@));
    let head = concat(family, mark);
    let regular = concat(head.as_str(), "regular");
    let bold = concat(head.as_str(), "bold");
    let mut out: Vec<String> = Vec::new();
    out.push(concat(regular.as_str(), tail.as_str()));
    out.push(concat(bold.as_str(), tail.as_str()));
    assert(texts(out@) =~= other_weights(family@, mark@, ending@));
    out
}

/// Parts a file name at its last dot.
fn part_at_ending(face: &str) -> (out: (String, String))
    ensures
        (out.0@, out.1@) == stem_and_ending(face@),
{
    let chars = chars_of(face);
    let mut at: usize = chars.len();
    assert(chars@.take(at as int) =~= chars@);
    while at > 0 && chars[at - 1] != '.'
        invariant
            at <= chars.len(),
            chars@ == face@,
            last_place(chars@, '.') == last_place(chars@.take(at as int), '.'),
        decreases at,
    {
        assert(chars@.take(at as int).drop_last() =~= chars@.take(at - 1));
        assert(chars@.take(at as int).last() == chars@[at - 1]);
        at -= 1;
    }
    if at > 0 {
        assert(chars@.take(at as int).last() == chars@[at - 1]);
        assert(last_place(chars@, '.') == Some(at - 1));
        let stem = string_of_range(&chars, 0, at - 1);
        let ending = string_of_range(&chars, at, chars.len());
        assert(stem@ =~= face@.take(at - 1));
        assert(ending@ =~= face@.skip(at as int));
        (stem, ending)
    } else {
        assert(last_place(chars@, '.') is None);
        let ending = String::new();
        assert(ending@ =~= Seq::empty());
        (copy_text(face), ending)
    }
}

/// The fonts that stand in for one that is missing.
pub fn font_fallback_candidates(face: &str) -> (out: Vec<String>)
    ensures
        texts(out@) == fallbacks(face@),
{
    let (stem, ending) = part_at_ending(face);
    if let Some(family) = family_of(stem.as_str(), "-") {
        return weights_of(family.as_str(), "-", ending.as_str());
    }
    if let Some(family) = family_of(stem.as_str(), "_") {
        return weights_of(family.as_str(), "_", ending.as_str());
    }
    let none: Vec<String> = Vec::new();
    assert(texts(none@) =~= Seq::empty());
    none
}

/// The fonts to try for a face, in order; none where it is loaded already.
pub fn fonts_to_try(loaded: &Option<String>, face: &str) -> (out: Option<Vec<String>>)
    ensures
        out is None <==> opt_text(*loaded) == Some(face@),
        out matches Some(list) ==> texts(list@) == seq![face@] + fallbacks(face@),
{
    let same = match loaded {
        Some(text) => same_text(text.as_str(), face),
        None => false,
    };
    if same {
        return None;
    }
    let mut list: Vec<String> = Vec::new();
    list.push(copy_text(face));
    let mut rest = font_fallback_candidates(face);
    let ghost more = rest@;
    list.append(&mut rest);
    assert(texts(list@) =~= seq![face@] + texts(more));
    Some(list)
}

/// Skipping leaves no text of the active layer behind: its end is settled at once.
pub proof fn law_skipped_text_is_complete(s: StateRecord, delta_ms: u64)
    requires
        forall|id: Seq<char>| #[trigger]
            s.layers.contains_key(id) ==> s.layers[id].text.len() <= usize::MAX,
    ensures
        active_complete(
            active_revealed(StateRecord { layers: time_passed(s.layers, delta_ms), ..s }),
        ),
{
    let later = StateRecord { layers: time_passed(s.layers, delta_ms), ..s };
    assert forall|id: Seq<char>| #[trigger] later.layers.contains_key(id) implies later.layers[
        id].text.len() <= usize::MAX by {
        assert(s.layers.contains_key(id));
    }
    law_reveal_all_completes(later);
}

// ── Where text is drawn ────────────────────────────────────────

/// What is drawn on a message layer.
pub struct LayerDrawing<T> {
    pub message_id: String,
    pub layered: bool,
    pub commands: Vec<T>,
}

/// The layer of the scene that a drawing goes to.
pub open spec fn goes_to<T>(prefix: Seq<char>, drawing: LayerDrawing<T>) -> Seq<char> {
    scene_id(prefix, drawing.message_id@, drawing.layered)
}

/// What is drawn on the layers of the scene: all that is drawn on message
/// layers that stand for one, in the order in which they come.
pub open spec fn placed<T>(prefix: Seq<char>, drawings: Seq<LayerDrawing<T>>) -> Map<
    Seq<char>,
    Seq<T>,
>
    decreases drawings.len(),
{
    if drawings.len() == 0 {
        Map::empty()
    } else {
        let before = placed(prefix, drawings.drop_last());
        let id = goes_to(prefix, drawings.last());
        let more = drawings.last().commands@;
        before.insert(
            id,
            if before.contains_key(id) {
                before[id] + more
            } else {
                more
            },
        )
    }
}

/// Lists by name.
pub open spec fn lists_view<T>(map: NameMap<Vec<T>>) -> Map<Seq<char>, Seq<T>> {
    map@.map_values(|list: Vec<T>| list@)
}

/// Puts what is drawn on message layers on the layers of the scene that they
/// stand for.
pub fn build_text_commands<T>(prefix: &str, drawings: Vec<LayerDrawing<T>>) -> (out: NameMap<
    Vec<T>,
>)
    ensures
        out.wf(),
        lists_view(out) == placed(prefix@, drawings@),
{
    let ghost all = drawings@;
    let mut rest = drawings;
    let mut out: NameMap<Vec<T>> = NameMap::new();
    let ghost mut done: int = 0;
    proof {
        assert(all.take(0) =~= Seq::empty());
        assert(all.skip(0) =~= all);
        assert(lists_view(out) =~= Map::empty());
    }
    while rest.len() > 0
        invariant
            0 <= done <= all.len(),
            rest@ == all.skip(done),
            out.wf(),
            lists_view(out) == placed(prefix@, all.take(done)),
        decreases rest.len(),
    {
        let ghost before = lists_view(out);
        let drawing = rest.remove(0);
        let ghost given = drawing;
        let id = message_layer_scene_id(
            prefix,
            drawing.message_id.as_str(),
            drawing.layered,
        );
        let mut more = drawing.commands;
        let ghost added = more@;
        let mut list: Vec<T> = match out.remove(id.as_str()) {
            Some(list) => list,
            None => Vec::new(),
        };
        list.append(&mut more);
        let ghost whole = list@;
        out.insert(id.as_str(), list);
        proof {
            assert(all.take(done + 1).drop_last() =~= all.take(done));
            assert(all.take(done + 1).last() == given);
            assert(rest@ =~= all.skip(done + 1));
            assert(whole =~= (if before.contains_key(id@) {
                before[id@] + added
            } else {
                added
            }));
            assert(lists_view(out) =~= before.insert(id@, whole));
            done = done + 1;
        }
    }
    proof {
        assert(all.take(done) =~= all);
    }
    out
}

/// What each event does to the layers. Text and line breaks are written only where
/// there is a font, but make their layer active even so.
pub proof fn law_events_write_and_break(s: StateRecord, shown: Vec<char>, has_font: bool)
    ensures
        ({
            let id = if s.active is Some {
                s.active->0
            } else {
                "adv01"@
            };
            let was = if s.layers.contains_key(id) {
                s.layers[id]
            } else {
                crate::text::layers::fresh_layer(id)
            };
            let wrote = text_state(s, TextEvent::ScenarioText { shown, has_font });
            let broke = text_state(s, TextEvent::LineBreak { has_font });
            &&& wrote.active == Some(id) && broke.active == Some(id)
            &&& wrote.stack == s.stack && broke.stack == s.stack
            &&& has_font ==> wrote.layers == s.layers.insert(id, with_text(was, shown@))
            &&& has_font ==> wrote.layers[id].text == was.text + shown@
            &&& has_font ==> broke.layers[id].text == was.text.push('\n')
            &&& !has_font ==> wrote.layers == s.layers.insert(id, was) && broke.layers
                == wrote.layers
            &&& text_state(s, TextEvent::PageBreak) == page_broken(s)
            &&& text_state(s, TextEvent::Other) == s
            &&& text_state(s, TextEvent::MessageLayerPop) == popped(s)
        }),
{
}

/// The font of the active layer becomes what the settings make of it, the default
/// one, or the one that was kept; the default is changed by its own event alone.
pub proof fn law_events_set_fonts(s: StateRecord, settings: NameMap<String>)
    ensures
        ({
            let id = active_id(s);
            let was = active_record(s);
            let set = text_state(s, TextEvent::FontSettings { settings });
            let initial = text_state(s, TextEvent::FontInit);
            let closed = text_state(s, TextEvent::FontClose);
            let default = text_state(s, TextEvent::FontDefault { settings });
            &&& set.layers[id] == with_settings(was, text_map(settings))
            &&& set.default_font == s.default_font
            &&& initial.layers[id] == (LayerRecord { font: s.default_font, ..was })
            &&& closed.layers[id] == with_popped_font(was)
            &&& default == (StateRecord {
                default_font: merged_font(s.default_font, text_map(settings)),
                ..s
            })
            &&& text_state(s, TextEvent::GlyphConfig { config: settings }) == (StateRecord {
                glyph_config: text_map(settings),
                ..s
            })
        }),
{
}

/// Scenes come in with their text shown and go out with it hidden, from the start
/// in both; a tween is set on the active layer; a switch says whether its layer
/// belongs to a picture, which only the number 1 means.
pub proof fn law_events_start_scenes(
    s: StateRecord,
    config: ScetweenConfig,
    id: Option<String>,
    unplaced: bool,
    layered: Option<i32>,
)
    ensures
        ({
            let name = active_id(s);
            let entered = text_state(s, TextEvent::SceneIn).layers[name];
            let left = text_state(s, TextEvent::SceneOut).layers[name];
            &&& entered == (LayerRecord { progress: entered.progress, ..active_record(s) })
            &&& !entered.progress.hidden && entered.progress.pending && entered.progress.index == 0
                && entered.progress.clock_ms == 0
            &&& left == (LayerRecord { progress: left.progress, ..active_record(s) })
            &&& left.progress.hidden && left.progress.pending && left.progress.index == 0
                && left.progress.clock_ms == 0
            &&& text_state(s, TextEvent::TextAnimation { config }).layers[name] == with_scetween(
                active_record(s),
                config,
            )
        }),
        ({
            let next = text_state(s, TextEvent::MessageLayerSwitch { id, unplaced, layered });
            let plain = switched(s, opt_text(id), unplaced);
            let name = active_id(plain);
            &&& next.active == plain.active && next.stack == plain.stack
            &&& next.layers[name].layered <==> layered == Some(1i32)
            &&& next.layers[name] == (LayerRecord {
                layered: next.layers[name].layered,
                ..plain.layers[name]
            })
        }),
{
}

/// The pages that are kept are set up by their own two events alone, and dropped
/// only where the settings say so.
pub proof fn law_only_their_events_set_pages(s: SettingsRecord, event: TextEvent)
    ensures
        !(event is BacklogConfig) && !(event is WriteBacklogConfig) ==> kept_pages(s, event) == s,
        event matches TextEvent::WriteBacklogConfig { mode } ==> kept_pages(s, event) == (
        SettingsRecord { write_mode: mode, ..s }),
        event matches TextEvent::BacklogConfig { config } ==> kept_pages(s, event) == configured(
            s,
            config,
        ),
        drops_pages(event) <==> (event matches TextEvent::BacklogConfig { config }
            && config.clear),
        event is BacklogConfig || event is WriteBacklogConfig ==> forall|t: StateRecord|
            #[trigger] text_state(t, event) == t,
{
}

/// A font is asked for by the two events that name a face, where the name is not
/// empty; the active layer asks for the face that it has.
pub proof fn law_faces_are_asked_for(s: StateRecord, event: TextEvent)
    ensures
        asked_face(event) is Some ==> event is FontSettings || event is FontDefault,
        event matches TextEvent::FontSettings { settings } ==> ({
            let raw = text_map(settings);
            &&& asked_face(event) is Some <==> raw.contains_key("face"@) && raw["face"@].len() > 0
            &&& asked_face(event) matches Some(face) ==> face == raw["face"@]
        }),
        event matches TextEvent::FontDefault { settings } ==> ({
            let raw = text_map(settings);
            &&& asked_face(event) is Some <==> raw.contains_key("face"@) && raw["face"@].len() > 0
            &&& asked_face(event) matches Some(face) ==> face == raw["face"@]
        }),
        active_face(s) is Some <==> active_record(s).font.props.contains_key("face"@),
        active_face(s) matches Some(face) ==> face == active_record(s).font.props["face"@],
        changes_font(event) <==> event is FontInit || event is FontClose || event is FontDefault
            || event is FontSettings || event is MessageLayerSwitch || event is MessageLayerPop,
        changes_layer(event) <==> event is MessageLayerSwitch || event is MessageLayerPop,
{
}

/// An event that does not change the font leaves the default font and the fonts of
/// every layer alone; one that does not change the layer leaves the stack alone.
pub proof fn law_other_events_keep_fonts(s: StateRecord, event: TextEvent, id: Seq<char>)
    ensures
        !changes_font(event) ==> text_state(s, event).default_font == s.default_font && (
        s.layers.contains_key(id) ==> text_state(s, event).layers.contains_key(id) && text_state(
            s,
            event,
        ).layers[id].font == s.layers[id].font && text_state(s, event).layers[id].font_stack
            == s.layers[id].font_stack),
        !changes_layer(event) ==> text_state(s, event).stack == s.stack && (s.active is Some
            ==> text_state(s, event).active == s.active),
{
}

/// The text of bytes in hexadecimal has two digits for each, in their order. A
/// layer of its own picture goes by its name, any other behind the prefix in
/// hexadecimal.
pub proof fn law_overlay_layers_have_names(
    prefix: Seq<char>,
    message_id: Seq<char>,
    bytes: Seq<u8>,
    byte: u8,
)
    ensures
        hex_text(Seq::empty()).len() == 0,
        hex_text(bytes.push(byte)) == hex_text(bytes) + hex_byte(byte),
        scene_id(prefix, message_id, true) == message_id,
        scene_id(prefix, message_id, false) == prefix + hex_text(encode_utf8(message_id)),
{
    assert(bytes.push(byte).drop_last() =~= bytes);
}

/// The ending of a font file stands behind its last full stop.
pub proof fn law_endings_stand_behind_the_last_stop(stem: Seq<char>, ending: Seq<char>)
    requires
        forall|i: int| 0 <= i < ending.len() ==> ending[i] != '.',
    ensures
        stem_and_ending(stem + seq!['.'] + ending) == (stem, ending),
        stem_and_ending(ending) == (ending, Seq::<char>::empty()),
{
    let face = stem + seq!['.'] + ending;
    lemma_stops_before(stem + seq!['.'], ending);
    lemma_no_stop(ending);
    assert((stem + seq!['.']).last() == '.');
    assert(face.take(stem.len() as int) =~= stem);
    assert(face.skip(stem.len() as int + 1) =~= ending);
}

proof fn lemma_stops_before(before: Seq<char>, rest: Seq<char>)
    requires
        forall|i: int| 0 <= i < rest.len() ==> rest[i] != '.',
    ensures
        last_place(before + rest, '.') == last_place(before, '.'),
    decreases rest.len(),
{
    let all = before + rest;
    if rest.len() == 0 {
        assert(all =~= before);
    } else {
        assert(all.drop_last() =~= before + rest.drop_last());
        assert(all.last() == rest[rest.len() - 1]);
        lemma_stops_before(before, rest.drop_last());
    }
}

proof fn lemma_no_stop(rest: Seq<char>)
    requires
        forall|i: int| 0 <= i < rest.len() ==> rest[i] != '.',
    ensures
        last_place(rest, '.') is None,
{
    lemma_stops_before(Seq::empty(), rest);
    assert(Seq::<char>::empty() + rest =~= rest);
}

/// In place of a font of medium weight the regular one is tried and then the bold
/// one of the same family, under the same mark, a hyphen or an underscore, and the
/// same ending.
pub proof fn law_medium_fonts_have_others(
    family: Seq<char>,
    medium: Seq<char>,
    ending: Seq<char>,
)
    requires
        lower(medium) == "medium"@,
        medium.len() == 6,
        forall|i: int| 0 <= i < ending.len() ==> ending[i] != '.',
        ending.len() > 0,
    ensures
        ({
            let face = family + seq!['-'] + medium + seq!['.'] + ending;
            fallbacks(face) == seq![
                family + "-"@ + "regular"@ + ("."@ + ending),
                family + "-"@ + "bold"@ + ("."@ + ending),
            ]
        }),
        ({
            let face = family + seq!['_'] + medium + seq!['.'] + ending;
            fallbacks(face) == seq![
                family + "_"@ + "regular"@ + ("."@ + ending),
                family + "_"@ + "bold"@ + ("."@ + ending),
            ]
        }),
{
    reveal_strlit("-");
    reveal_strlit("_");
    reveal_strlit("medium");
    let hyphen = family + seq!['-'] + medium;
    let score = family + seq!['_'] + medium;
    law_endings_stand_behind_the_last_stop(hyphen, ending);
    law_endings_stand_behind_the_last_stop(score, ending);
    assert("-"@ =~= seq!['-']);
    assert("_"@ =~= seq!['_']);
    lemma_medium(family, '-', medium, "-"@);
    lemma_medium(family, '_', medium, "_"@);
    assert(lower(score)[score.len() - 7] == '_');
    let marked = "-"@ + "medium"@;
    assert(marked[0] == '-');
    if has_suffix(lower(score), marked) {
        assert(lower(score).skip(score.len() - 7)[0] == marked[0]);
    }
}

proof fn lemma_medium(family: Seq<char>, c: char, medium: Seq<char>, mark: Seq<char>)
    requires
        lower(medium) == "medium"@,
        medium.len() == 6,
        mark == seq![c],
        c == '-' || c == '_',
    ensures
        medium_family(family + seq![c] + medium, mark) == Some(family),
        lower(family + seq![c] + medium)[family.len() as int] == c,
        (mark + "medium"@).len() == 7,
{
    reveal_strlit("medium");
    let stem = family + seq![c] + medium;
    let marked = mark + "medium"@;
    assert(lower(stem).skip(stem.len() - 7) =~= marked) by {
        assert forall|i: int| 0 <= i < 7 implies lower(stem).skip(stem.len() - 7)[i] == marked[i] by {
            if i > 0 {
                assert(stem[family.len() + i] == medium[i - 1]);
                assert(lower(medium)[i - 1] == "medium"@[i - 1]);
            }
        }
    }
    assert(stem.take(stem.len() - 7) =~= family);
}

/// The drawings of a layer come one behind the other, in the order in which they
/// were made, and those of other layers stay.
pub proof fn law_drawings_keep_their_order<T>(
    prefix: Seq<char>,
    drawings: Seq<LayerDrawing<T>>,
    next: LayerDrawing<T>,
    other: Seq<char>,
)
    ensures
        ({
            let id = if next.layered {
                next.message_id@
            } else {
                prefix + hex_text(encode_utf8(next.message_id@))
            };
            let before = placed(prefix, drawings);
            let after = placed(prefix, drawings.push(next));
            &&& placed::<T>(prefix, Seq::empty()) == Map::<Seq<char>, Seq<T>>::empty()
            &&& after.contains_key(id)
            &&& before.contains_key(id) ==> after[id] == before[id] + next.commands@
            &&& !before.contains_key(id) ==> after[id] == next.commands@
            &&& other != id ==> after.contains_key(other) == before.contains_key(other)
                && after[other] == before[other]
        }),
{
    assert(drawings.push(next).drop_last() =~= drawings);
}

} // verus!
