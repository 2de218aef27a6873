//! Hiding the message window for a while.
use crate::name_map::NameMap;
use crate::runtime::actions::{lemma_pushed0, note, noted, records, ActionRecord, ControlAction};
use crate::strs::{copy_text, copy_texts, list_has, opt_text, texts};
use vstd::prelude::*;

verus! {

/// What is hidden, and what hiding covers.
pub struct Hiding {
    pub allowed: bool,
    /// The layers that are hidden together with the message layer.
    pub window: Vec<String>,
    pub active: bool,
    /// The hidden layers with the visibility they had before.
    pub hidden_layers: Vec<(String, bool)>,
    pub active_message_layer: Option<String>,
}

/// What the hiding state holds.
pub struct HidingRecord {
    pub allowed: bool,
    pub window: Seq<Seq<char>>,
    pub active: bool,
    pub hidden_layers: Seq<(Seq<char>, bool)>,
    pub message_layer: Option<Seq<char>>,
}

/// Layers with a visibility.
pub open spec fn layer_flags(layers: Seq<(String, bool)>) -> Seq<(Seq<char>, bool)> {
    Seq::new(layers.len(), |i: int| (layers[i].0@, layers[i].1))
}

impl View for Hiding {
    type V = HidingRecord;

    open spec fn view(&self) -> HidingRecord {
        HidingRecord {
            allowed: self.allowed,
            window: texts(self.window@),
            active: self.active,
            hidden_layers: layer_flags(self.hidden_layers@),
            message_layer: opt_text(self.active_message_layer),
        }
    }
}

/// A hiding state and the actions that a rule gave.
pub struct HideStep {
    pub hiding: HidingRecord,
    pub actions: Seq<ActionRecord>,
}

/// Nothing changes.
pub open spec fn hide_idle(h: HidingRecord) -> HideStep {
    HideStep { hiding: h, actions: Seq::empty() }
}

/// The layers to hide: the configured ones and the message layer.
pub open spec fn hide_targets(h: HidingRecord) -> Seq<Seq<char>> {
    match h.message_layer {
        Some(layer) => if h.window.contains(layer) {
            h.window
        } else {
            h.window.push(layer)
        },
        None => h.window,
    }
}

/// The layers to hide that exist, with the visibility to restore. A layer that
/// is named again is hidden already.
pub open spec fn saved_layers(targets: Seq<Seq<char>>, scene: Map<Seq<char>, bool>) -> Seq<
    (Seq<char>, bool),
>
    decreases targets.len(),
{
    if targets.len() == 0 {
        Seq::empty()
    } else {
        let before = saved_layers(targets.drop_last(), scene);
        let id = targets.last();
        if scene.contains_key(id) {
            before.push((id, scene[id] && !targets.drop_last().contains(id)))
        } else {
            before
        }
    }
}

/// Each saved layer is hidden.
pub open spec fn hide_each(saved: Seq<(Seq<char>, bool)>) -> Seq<ActionRecord> {
    Seq::new(
        saved.len(),
        |i: int| ActionRecord::LayerVisible { id: saved[i].0, visible: false },
    )
}

/// Each saved layer that was visible and is still there is shown.
pub open spec fn show_each(saved: Seq<(Seq<char>, bool)>, scene: Map<Seq<char>, bool>) -> Seq<
    ActionRecord,
>
    decreases saved.len(),
{
    if saved.len() == 0 {
        Seq::empty()
    } else {
        let before = show_each(saved.drop_last(), scene);
        if saved.last().1 && scene.contains_key(saved.last().0) {
            before.push(ActionRecord::LayerVisible { id: saved.last().0, visible: true })
        } else {
            before
        }
    }
}

/// What ends a change of visibility: the script sees the layers and its handler
/// runs.
pub open spec fn hide_tail(event: Seq<char>) -> Seq<ActionRecord> {
    seq![ActionRecord::SyncLayerInfo, ActionRecord::ControlHandler(event)]
}

/// The message window is hidden.
pub open spec fn hide_entered(h: HidingRecord, scene: Map<Seq<char>, bool>) -> HideStep {
    if !h.allowed || h.active {
        hide_idle(h)
    } else {
        let saved = saved_layers(hide_targets(h), scene);
        HideStep {
            hiding: HidingRecord { hidden_layers: saved, active: true, ..h },
            actions: hide_each(saved) + hide_tail("hidein"@),
        }
    }
}

/// The message window is shown again.
pub open spec fn hide_left(h: HidingRecord, scene: Map<Seq<char>, bool>) -> HideStep {
    if !h.active {
        hide_idle(h)
    } else {
        HideStep {
            hiding: HidingRecord { hidden_layers: Seq::empty(), active: false, ..h },
            actions: show_each(h.hidden_layers, scene) + hide_tail("hideout"@),
        }
    }
}

pub open spec fn hide_toggled(h: HidingRecord, scene: Map<Seq<char>, bool>) -> HideStep {
    if h.active {
        hide_left(h, scene)
    } else {
        hide_entered(h, scene)
    }
}

/// The settings of hiding. Forbidding it ends it.
pub open spec fn hide_configured(
    h: HidingRecord,
    allow: bool,
    window: Option<Seq<Seq<char>>>,
    scene: Map<Seq<char>, bool>,
) -> HideStep {
    let next = HidingRecord {
        allowed: allow,
        window: match window {
            Some(layers) => layers,
            None => h.window,
        },
        ..h
    };
    if allow {
        hide_idle(next)
    } else {
        hide_left(next, scene)
    }
}

/// A hiding state and a list of actions moved on by a step.
pub open spec fn hid(
    after: Hiding,
    noted_before: Seq<ControlAction>,
    noted_after: Seq<ControlAction>,
    step: HideStep,
) -> bool {
    after@ == step.hiding && noted(noted_before, noted_after, step.actions)
}

proof fn lemma_extend(s: Seq<ActionRecord>, mid: Seq<ActionRecord>, a: ActionRecord, b: ActionRecord)
    ensures
        (s + mid).push(a).push(b) == s + (mid + seq![a, b]),
{
    assert((s + mid).push(a).push(b) =~= s + (mid + seq![a, b]));
}

impl Hiding {
    /// Hiding is allowed and nothing is hidden.
    pub fn new() -> (out: Self)
        ensures
            out@.allowed,
            !out@.active,
            out@.window == Seq::<Seq<char>>::empty(),
            out@.hidden_layers == Seq::<(Seq<char>, bool)>::empty(),
            out@.message_layer is None,
    {
        Hiding {
            allowed: true,
            window: Vec::new(),
            active: false,
            hidden_layers: Vec::new(),
            active_message_layer: None,
        }
    }

    /// The layers to hide.
    fn targets(&self) -> (out: Vec<String>)
        ensures
            texts(out@) == hide_targets(self@),
    {
        let mut out = copy_texts(&self.window);
        if let Some(layer) = &self.active_message_layer {
            if !list_has(&self.window, layer.as_str()) {
                let owned = copy_text(layer.as_str());
                proof {
                    crate::strs::lemma_texts_push(out@, owned);
                }
                out.push(owned);
            }
        }
        out
    }

    /// Hides the message window.
    pub fn enter_hide_mode(&mut self, scene: &NameMap<bool>, actions: &mut Vec<ControlAction>)
        ensures
            hid(*final(self), old(actions)@, final(actions)@, hide_entered(old(self)@, scene@)),
    {
        let ghost start = records(actions@);
        if !self.allowed || self.active {
            proof {
                lemma_pushed0(start);
            }
            return;
        }
        let targets = self.targets();
        let ghost all = texts(targets@);
        let mut saved: Vec<(String, bool)> = Vec::new();
        let mut i: usize = 0;
        proof {
            assert(all.take(0) =~= Seq::empty());
            assert(layer_flags(saved@) =~= saved_layers(all.take(0), scene@));
            assert(start + hide_each(layer_flags(saved@)) =~= start);
        }
        while i < targets.len()
            invariant
                i <= targets.len(),
                all == texts(targets@),
                layer_flags(saved@) == saved_layers(all.take(i as int), scene@),
                records(actions@) == start + hide_each(layer_flags(saved@)),
            decreases targets.len() - i,
        {
            proof {
                assert(all.take(i + 1).drop_last() =~= all.take(i as int));
                assert(all.take(i + 1).last() == targets@[i as int]@);
            }
            let id = targets[i].as_str();
            if let Some(visible) = scene.get(id) {
                let mut named = false;
                let mut j: usize = 0;
                while j < i
                    invariant
                        j <= i < targets.len(),
                        all == texts(targets@),
                        named == all.take(j as int).contains(id@),
                    decreases i - j,
                {
                    let same = crate::strs::same_text(targets[j].as_str(), id);
                    proof {
                        let before = all.take(j as int);
                        let longer = all.take(j + 1);
                        assert(longer =~= before.push(targets@[j as int]@));
                        if before.contains(id@) {
                            let k = choose|k: int| 0 <= k < before.len() && before[k] == id@;
                            assert(longer[k] == id@);
                        }
                        if same {
                            assert(longer[j as int] == id@);
                        }
                        if longer.contains(id@) && !same {
                            let k = choose|k: int| 0 <= k < longer.len() && longer[k] == id@;
                            assert(before[k] == id@);
                        }
                    }
                    named = named || same;
                    j += 1;
                }
                let owned = copy_text(id);
                let ghost before = saved@;
                saved.push((owned, *visible && !named));
                note(actions, ControlAction::LayerVisible { id: copy_text(id), visible: false });
                proof {
                    let last = (id@, *visible && !named);
                    assert(layer_flags(saved@) =~= layer_flags(before).push(last));
                    assert(start + hide_each(layer_flags(saved@)) =~= (start + hide_each(
                        layer_flags(before),
                    )).push(ActionRecord::LayerVisible { id: id@, visible: false }));
                }
            }
            i += 1;
        }
        assert(all.take(i as int) =~= all);
        self.hidden_layers = saved;
        self.active = true;
        note(actions, ControlAction::SyncLayerInfo);
        note(actions, ControlAction::ControlHandler(copy_text("hidein")));
        proof {
            lemma_extend(
                start,
                hide_each(saved_layers(all, scene@)),
                ActionRecord::SyncLayerInfo,
                ActionRecord::ControlHandler("hidein"@),
            );
        }
    }

    /// Shows the message window again.
    pub fn exit_hide_mode(&mut self, scene: &NameMap<bool>, actions: &mut Vec<ControlAction>)
        ensures
            hid(*final(self), old(actions)@, final(actions)@, hide_left(old(self)@, scene@)),
    {
        let ghost start = records(actions@);
        if !self.active {
            proof {
                lemma_pushed0(start);
            }
            return;
        }
        let mut i: usize = 0;
        let ghost all = layer_flags(self.hidden_layers@);
        proof {
            assert(all.take(0) =~= Seq::empty());
            lemma_pushed0(start);
        }
        while i < self.hidden_layers.len()
            invariant
                i <= self.hidden_layers.len(),
                *self == *old(self),
                all == layer_flags(self.hidden_layers@),
                records(actions@) == start + show_each(all.take(i as int), scene@),
            decreases self.hidden_layers.len() - i,
        {
            proof {
                assert(all.take(i + 1).drop_last() =~= all.take(i as int));
                assert(all.take(i + 1).last() == all[i as int]);
            }
            let id = self.hidden_layers[i].0.as_str();
            if self.hidden_layers[i].1 && scene.contains_key(id) {
                note(actions, ControlAction::LayerVisible { id: copy_text(id), visible: true });
                proof {
                    let before = show_each(all.take(i as int), scene@);
                    let action = ActionRecord::LayerVisible { id: id@, visible: true };
                    assert((start + before).push(action) =~= start + before.push(action));
                }
            }
            i += 1;
        }
        assert(all.take(i as int) =~= all);
        self.hidden_layers = Vec::new();
        self.active = false;
        note(actions, ControlAction::SyncLayerInfo);
        note(actions, ControlAction::ControlHandler(copy_text("hideout")));
        proof {
            lemma_extend(
                start,
                show_each(all, scene@),
                ActionRecord::SyncLayerInfo,
                ActionRecord::ControlHandler("hideout"@),
            );
            assert(layer_flags(self.hidden_layers@) =~= Seq::empty());
        }
    }

    pub fn toggle_hide_mode(&mut self, scene: &NameMap<bool>, actions: &mut Vec<ControlAction>)
        ensures
            hid(*final(self), old(actions)@, final(actions)@, hide_toggled(old(self)@, scene@)),
    {
        if self.active {
            self.exit_hide_mode(scene, actions);
        } else {
            self.enter_hide_mode(scene, actions);
        }
    }

    /// The settings of hiding; a list of layers that is not given stays.
    pub fn apply_hide_config(
        &mut self,
        allow: bool,
        window: Option<Vec<String>>,
        scene: &NameMap<bool>,
        actions: &mut Vec<ControlAction>,
    )
        ensures
            hid(
                *final(self),
                old(actions)@,
                final(actions)@,
                hide_configured(
                    old(self)@,
                    allow,
                    match window {
                        Some(list) => Some(texts(list@)),
                        None => None,
                    },
                    scene@,
                ),
            ),
    {
        proof {
            lemma_pushed0(records(actions@));
        }
        self.allowed = allow;
        if let Some(window) = window {
            self.window = window;
        }
        if !allow && self.active {
            self.exit_hide_mode(scene, actions);
        }
    }

    /// Forgets what is hidden, as loading a game does.
    pub fn reset_for_load(&mut self)
        ensures
            final(self)@ == (HidingRecord {
                active: false,
                hidden_layers: Seq::empty(),
                ..old(self)@
            }),
    {
        self.active = false;
        self.hidden_layers = Vec::new();
        assert(layer_flags(self.hidden_layers@) =~= Seq::empty());
    }
}

// ── What holds of hiding ───────────────────────────────────────

/// A scene after the visibility changes among some actions.
pub open spec fn seen(scene: Map<Seq<char>, bool>, actions: Seq<ActionRecord>) -> Map<
    Seq<char>,
    bool,
>
    decreases actions.len(),
{
    if actions.len() == 0 {
        scene
    } else {
        let before = seen(scene, actions.drop_last());
        match actions.last() {
            ActionRecord::LayerVisible { id, visible } => if before.contains_key(id) {
                before.insert(id, visible)
            } else {
                before
            },
            _ => before,
        }
    }
}

/// Whether a layer is among saved ones.
spec fn saved_has(saved: Seq<(Seq<char>, bool)>, id: Seq<char>) -> bool {
    exists|i: int| 0 <= i < saved.len() && (#[trigger] saved[i]).0 == id
}

/// Whether a layer is among saved ones as visible.
spec fn saved_visible(saved: Seq<(Seq<char>, bool)>, id: Seq<char>) -> bool {
    exists|i: int| 0 <= i < saved.len() && (#[trigger] saved[i]) == (id, true)
}

proof fn lemma_seen_tail(scene: Map<Seq<char>, bool>, mid: Seq<ActionRecord>, event: Seq<char>)
    ensures
        seen(scene, mid + hide_tail(event)) == seen(scene, mid),
{
    let whole = mid + hide_tail(event);
    let one = mid.push(ActionRecord::SyncLayerInfo);
    assert(whole.drop_last() =~= one);
    assert(one.drop_last() =~= mid);
    assert(whole.last() == ActionRecord::ControlHandler(event));
    assert(one.last() == ActionRecord::SyncLayerInfo);
    reveal_with_fuel(seen, 3);
}

proof fn lemma_seen_hidden(scene: Map<Seq<char>, bool>, saved: Seq<(Seq<char>, bool)>)
    ensures
        seen(scene, hide_each(saved)).dom() == scene.dom(),
        forall|id: Seq<char>| #[trigger]
            scene.contains_key(id) ==> seen(scene, hide_each(saved))[id] == (scene[id]
                && !saved_has(saved, id)),
    decreases saved.len(),
{
    let after = seen(scene, hide_each(saved));
    if saved.len() == 0 {
        assert(hide_each(saved) =~= Seq::empty());
    } else {
        let short = saved.drop_last();
        lemma_seen_hidden(scene, short);
        assert(hide_each(saved).drop_last() =~= hide_each(short));
        assert(hide_each(saved).last() == (ActionRecord::LayerVisible {
            id: saved.last().0,
            visible: false,
        }));
        let before = seen(scene, hide_each(short));
        assert(after.dom() =~= scene.dom());
        assert forall|id: Seq<char>| #[trigger] scene.contains_key(id) implies after[id] == (
        scene[id] && !saved_has(saved, id)) by {
            assert(before.contains_key(id));
            if saved_has(short, id) {
                let i = choose|i: int| 0 <= i < short.len() && (#[trigger] short[i]).0 == id;
                assert(saved[i].0 == id);
            }
            if saved.last().0 == id {
                assert(saved[saved.len() - 1].0 == id);
            }
            if saved_has(saved, id) && saved.last().0 != id {
                let i = choose|i: int| 0 <= i < saved.len() && (#[trigger] saved[i]).0 == id;
                assert(short[i].0 == id);
            }
        }
    }
}

proof fn lemma_seen_shown(
    scene: Map<Seq<char>, bool>,
    saved: Seq<(Seq<char>, bool)>,
    there: Map<Seq<char>, bool>,
)
    requires
        there.dom() == scene.dom(),
    ensures
        seen(scene, show_each(saved, there)).dom() == scene.dom(),
        forall|id: Seq<char>| #[trigger]
            scene.contains_key(id) ==> seen(scene, show_each(saved, there))[id] == (scene[id]
                || saved_visible(saved, id)),
    decreases saved.len(),
{
    let after = seen(scene, show_each(saved, there));
    if saved.len() > 0 {
        let short = saved.drop_last();
        lemma_seen_shown(scene, short, there);
        let before = seen(scene, show_each(short, there));
        let action = ActionRecord::LayerVisible { id: saved.last().0, visible: true };
        assert(show_each(short, there).push(action).drop_last() =~= show_each(short, there));
        assert(after.dom() =~= scene.dom());
        assert forall|id: Seq<char>| #[trigger] scene.contains_key(id) implies after[id] == (
        scene[id] || saved_visible(saved, id)) by {
            assert(before.contains_key(id));
            assert(there.contains_key(id));
            if saved_visible(short, id) {
                let i = choose|i: int| 0 <= i < short.len() && (#[trigger] short[i]) == (id, true);
                assert(saved[i] == (id, true));
            }
            if saved.last() == (id, true) {
                assert(saved[saved.len() - 1] == (id, true));
            }
            if saved_visible(saved, id) && saved.last() != (id, true) {
                let i = choose|i: int| 0 <= i < saved.len() && (#[trigger] saved[i]) == (id, true);
                assert(short[i] == (id, true));
            }
        }
    }
}

proof fn lemma_saved(targets: Seq<Seq<char>>, scene: Map<Seq<char>, bool>, id: Seq<char>)
    requires
        scene.contains_key(id),
    ensures
        saved_has(saved_layers(targets, scene), id) == targets.contains(id),
        saved_visible(saved_layers(targets, scene), id) == (targets.contains(id) && scene[id]),
    decreases targets.len(),
{
    let saved = saved_layers(targets, scene);
    if targets.len() > 0 {
        let short = targets.drop_last();
        lemma_saved(short, scene, id);
        let before = saved_layers(short, scene);
        let last = targets.last();
        if short.contains(id) {
            let k = choose|k: int| 0 <= k < short.len() && short[k] == id;
            assert(targets[k] == id);
        }
        if last == id {
            assert(targets[targets.len() - 1] == id);
        }
        if targets.contains(id) && last != id {
            let k = choose|k: int| 0 <= k < targets.len() && targets[k] == id;
            assert(short[k] == id);
        }
        if saved_has(before, id) {
            let i = choose|i: int| 0 <= i < before.len() && (#[trigger] before[i]).0 == id;
            assert(saved[i].0 == id);
        }
        if saved_visible(before, id) {
            let i = choose|i: int| 0 <= i < before.len() && (#[trigger] before[i]) == (id, true);
            assert(saved[i] == (id, true));
        }
        if last == id {
            assert(saved[saved.len() - 1].0 == id);
            if scene[id] && !short.contains(id) {
                assert(saved[saved.len() - 1] == (id, true));
            }
        }
        if saved_has(saved, id) && last != id {
            let i = choose|i: int| 0 <= i < saved.len() && (#[trigger] saved[i]).0 == id;
            assert(before[i].0 == id);
        }
        if saved_visible(saved, id) {
            let i = choose|i: int| 0 <= i < saved.len() && (#[trigger] saved[i]) == (id, true);
            if i < before.len() {
                assert(before[i] == (id, true));
            }
        }
    }
}

/// Hiding and showing again leaves every layer as visible as it was.
pub proof fn law_hiding_is_undone(h: HidingRecord, scene: Map<Seq<char>, bool>)
    requires
        h.allowed,
        !h.active,
    ensures
        ({
            let entered = hide_entered(h, scene);
            let hidden = seen(scene, entered.actions);
            let left = hide_left(entered.hiding, hidden);
            seen(hidden, left.actions) == scene
        }),
{
    let targets = hide_targets(h);
    let saved = saved_layers(targets, scene);
    let entered = hide_entered(h, scene);
    lemma_seen_tail(scene, hide_each(saved), "hidein"@);
    let hidden = seen(scene, entered.actions);
    lemma_seen_hidden(scene, saved);
    lemma_seen_tail(hidden, show_each(saved, hidden), "hideout"@);
    lemma_seen_shown(hidden, saved, hidden);
    let left = hide_left(entered.hiding, hidden);
    let shown = seen(hidden, left.actions);
    assert forall|id: Seq<char>| #[trigger] scene.contains_key(id) implies shown[id] == scene[id] by {
        assert(hidden.contains_key(id));
        lemma_saved(targets, scene, id);
    }
    assert(shown =~= scene);
}

/// While the window is hidden, no layer that hiding covers is visible.
pub proof fn law_hidden_layers_are_invisible(
    h: HidingRecord,
    scene: Map<Seq<char>, bool>,
    id: Seq<char>,
)
    requires
        h.allowed,
        !h.active,
        scene.contains_key(id),
        h.window.contains(id) || h.message_layer == Some(id),
    ensures
        !seen(scene, hide_entered(h, scene).actions)[id],
{
    let targets = hide_targets(h);
    let saved = saved_layers(targets, scene);
    lemma_seen_tail(scene, hide_each(saved), "hidein"@);
    lemma_seen_hidden(scene, saved);
    lemma_saved(targets, scene, id);
    if h.window.contains(id) {
        let k = choose|k: int| 0 <= k < h.window.len() && h.window[k] == id;
        assert(targets[k] == id);
    } else {
        assert(targets[targets.len() - 1] == id);
    }
}

/// Hiding names the configured layers in their order, and the message layer
/// behind them where it is not among them.
pub proof fn law_hiding_covers_the_message_layer(h: HidingRecord)
    ensures
        h.message_layer is None ==> hide_targets(h) == h.window,
        h.message_layer matches Some(id) ==> (h.window.contains(id) ==> hide_targets(h) == h.window)
            && (!h.window.contains(id) ==> hide_targets(h) == h.window.push(id)),
{
}

/// The layers that are hidden are those of the scene, each with whether it was
/// visible; a layer that is named again counts as hidden by then.
pub proof fn law_hidden_layers_are_saved(
    targets: Seq<Seq<char>>,
    id: Seq<char>,
    scene: Map<Seq<char>, bool>,
)
    ensures
        saved_layers(Seq::empty(), scene).len() == 0,
        !scene.contains_key(id) ==> saved_layers(targets.push(id), scene) == saved_layers(
            targets,
            scene,
        ),
        scene.contains_key(id) ==> saved_layers(targets.push(id), scene) == saved_layers(
            targets,
            scene,
        ).push((id, scene[id] && !targets.contains(id))),
{
    assert(targets.push(id).drop_last() =~= targets);
}

/// Hiding makes each of the layers invisible, in their order, and then tells the
/// script of the layers and runs its handler; nothing but the hiding itself
/// changes. Where it is not allowed, or on already, nothing happens.
pub proof fn law_hiding_hides(h: HidingRecord, scene: Map<Seq<char>, bool>, k: int)
    ensures
        ({
            let step = hide_entered(h, scene);
            let saved = saved_layers(hide_targets(h), scene);
            let n = saved.len() as int;
            &&& !h.allowed || h.active ==> step.hiding == h && step.actions.len() == 0
            &&& h.allowed && !h.active ==> {
                &&& step.hiding == (HidingRecord { hidden_layers: saved, active: true, ..h })
                &&& step.actions.len() == n + 2
                &&& 0 <= k < n ==> step.actions[k] == (ActionRecord::LayerVisible {
                    id: saved[k].0,
                    visible: false,
                })
                &&& step.actions[n] == ActionRecord::SyncLayerInfo
                &&& step.actions[n + 1] == ActionRecord::ControlHandler("hidein"@)
            }
        }),
{
}

/// Showing again makes each layer visible that was so and is still there, in their
/// order, and then tells the script of the layers and runs its handler. Where
/// nothing is hidden, nothing happens.
pub proof fn law_showing_shows(
    h: HidingRecord,
    scene: Map<Seq<char>, bool>,
    saved: Seq<(Seq<char>, bool)>,
    layer: (Seq<char>, bool),
)
    ensures
        show_each(Seq::empty(), scene).len() == 0,
        layer.1 && scene.contains_key(layer.0) ==> show_each(saved.push(layer), scene) == show_each(
            saved,
            scene,
        ).push(ActionRecord::LayerVisible { id: layer.0, visible: true }),
        !(layer.1 && scene.contains_key(layer.0)) ==> show_each(saved.push(layer), scene)
            == show_each(saved, scene),
        ({
            let step = hide_left(h, scene);
            let shown = show_each(h.hidden_layers, scene);
            &&& !h.active ==> step.hiding == h && step.actions.len() == 0
            &&& h.active ==> {
                &&& step.hiding == (HidingRecord {
                    hidden_layers: Seq::empty(),
                    active: false,
                    ..h
                })
                &&& step.actions == shown + seq![
                    ActionRecord::SyncLayerInfo,
                    ActionRecord::ControlHandler("hideout"@),
                ]
            }
        }),
{
    assert(saved.push(layer).drop_last() =~= saved);
}

/// Toggling hides what is shown and shows what is hidden. Settings change what
/// they say; forbidding hiding shows what is hidden.
pub proof fn law_hiding_is_toggled_and_set(
    h: HidingRecord,
    scene: Map<Seq<char>, bool>,
    allow: bool,
    window: Option<Seq<Seq<char>>>,
)
    ensures
        h.active ==> hide_toggled(h, scene) == hide_left(h, scene),
        !h.active ==> hide_toggled(h, scene) == hide_entered(h, scene),
        ({
            let said = HidingRecord {
                allowed: allow,
                window: if window is Some {
                    window->0
                } else {
                    h.window
                },
                ..h
            };
            let step = hide_configured(h, allow, window, scene);
            &&& allow ==> step.hiding == said && step.actions.len() == 0
            &&& !allow ==> step == hide_left(said, scene)
        }),
{
}

} // verus!
