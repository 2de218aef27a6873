//! Pointer and key input: edges, hovering, dragging and clicks.
use crate::name_map::NameMap;
use crate::runtime::handlers::{
    dispatch_handler, dispatched, enqueue_layer_handler, enqueue_layers, event_dispatch_layers,
    handler_tags, has_drag, has_drag_handler, layer_dispatch, layer_tags, layers_dispatch,
    layers_tags, lemma_queued_both, lemma_queued_none, merged, pairs_view, queued, reached_layers,
    scene_wf, unhandled, EventHandler, HandlerDispatch, LayerInput, Tag, TagRecord,
};
use crate::runtime::key_set::KeySet;
use crate::runtime::wait::{
    global_push_absorbs_default_click, opt_wait_ref, push_absorbs, WaitReason, WaitRecord,
};
use crate::strs::{
    copy_text, decimal_of, decimal_text, lemma_texts_push, list_has, opt_text, same_text, texts,
};
use crate::text_order::{insert_name, insert_sorted};
use vstd::prelude::*;

verus! {

/// The state of the pointer and of the keys, with what changed in this frame.
pub struct InputState {
    pub mouse_x: i32,
    pub mouse_y: i32,
    pub clicked: bool,
    pub keys_down: KeySet,
    pub keys_down_edge: KeySet,
    pub keys_up_edge: KeySet,
    pub mouse_buttons_down: KeySet,
    pub mouse_buttons_down_edge: KeySet,
    pub mouse_buttons_up_edge: KeySet,
}

/// What the input state holds.
pub struct InputRecord {
    pub mouse: (i32, i32),
    pub clicked: bool,
    pub keys: Set<u32>,
    pub keys_pressed: Set<u32>,
    pub keys_released: Set<u32>,
    pub buttons: Set<u32>,
    pub buttons_pressed: Set<u32>,
    pub buttons_released: Set<u32>,
}

impl View for InputState {
    type V = InputRecord;

    open spec fn view(&self) -> InputRecord {
        InputRecord {
            mouse: (self.mouse_x, self.mouse_y),
            clicked: self.clicked,
            keys: self.keys_down@,
            keys_pressed: self.keys_down_edge@,
            keys_released: self.keys_up_edge@,
            buttons: self.mouse_buttons_down@,
            buttons_pressed: self.mouse_buttons_down_edge@,
            buttons_released: self.mouse_buttons_up_edge@,
        }
    }
}

/// A key goes down: it is pressed where it was up.
pub open spec fn key_pressed(i: InputRecord, key: u32) -> InputRecord {
    InputRecord {
        keys: i.keys.insert(key),
        keys_pressed: if i.keys.contains(key) {
            i.keys_pressed
        } else {
            i.keys_pressed.insert(key)
        },
        ..i
    }
}

/// A key goes up: it is released where it was down.
pub open spec fn key_released(i: InputRecord, key: u32) -> InputRecord {
    InputRecord {
        keys: i.keys.remove(key),
        keys_released: if i.keys.contains(key) {
            i.keys_released.insert(key)
        } else {
            i.keys_released
        },
        ..i
    }
}

/// A mouse button moves; it counts as a key of the same number.
pub open spec fn button_moved(i: InputRecord, button: u32, pressed: bool) -> InputRecord {
    if pressed {
        if i.buttons.contains(button) {
            i
        } else {
            key_pressed(
                InputRecord {
                    buttons: i.buttons.insert(button),
                    buttons_pressed: i.buttons_pressed.insert(button),
                    ..i
                },
                button,
            )
        }
    } else {
        key_released(
            InputRecord {
                buttons: i.buttons.remove(button),
                buttons_released: if i.buttons.contains(button) {
                    i.buttons_released.insert(button)
                } else {
                    i.buttons_released
                },
                ..i
            },
            button,
        )
    }
}

impl InputState {
    pub open spec fn wf(self) -> bool {
        &&& self.keys_down.wf()
        &&& self.keys_down_edge.wf()
        &&& self.keys_up_edge.wf()
        &&& self.mouse_buttons_down.wf()
        &&& self.mouse_buttons_down_edge.wf()
        &&& self.mouse_buttons_up_edge.wf()
    }

    /// Nothing is pressed and nothing changed.
    pub fn new() -> (out: Self)
        ensures
            out.wf(),
            out@ == (InputRecord {
                mouse: (0, 0),
                clicked: false,
                keys: Set::empty(),
                keys_pressed: Set::empty(),
                keys_released: Set::empty(),
                buttons: Set::empty(),
                buttons_pressed: Set::empty(),
                buttons_released: Set::empty(),
            }),
    {
        InputState {
            mouse_x: 0,
            mouse_y: 0,
            clicked: false,
            keys_down: KeySet::new(),
            keys_down_edge: KeySet::new(),
            keys_up_edge: KeySet::new(),
            mouse_buttons_down: KeySet::new(),
            mouse_buttons_down_edge: KeySet::new(),
            mouse_buttons_up_edge: KeySet::new(),
        }
    }

    pub fn feed_mouse(&mut self, x: i32, y: i32)
        requires
            old(self).wf(),
        ensures
            final(self).wf(),
            final(self)@ == (InputRecord { mouse: (x, y), ..old(self)@ }),
    {
        self.mouse_x = x;
        self.mouse_y = y;
    }

    /// A click without a button: the left button counts as pressed.
    pub fn feed_click(&mut self)
        requires
            old(self).wf(),
        ensures
            final(self).wf(),
            final(self)@ == (InputRecord {
                clicked: true,
                keys_pressed: old(self)@.keys_pressed.insert(1),
                ..old(self)@
            }),
    {
        self.clicked = true;
        self.keys_down_edge.insert(1);
    }

    pub fn feed_mouse_button(&mut self, button: u32, pressed: bool)
        requires
            old(self).wf(),
        ensures
            final(self).wf(),
            final(self)@ == button_moved(old(self)@, button, pressed),
    {
        if pressed {
            if self.mouse_buttons_down.insert(button) {
                self.mouse_buttons_down_edge.insert(button);
                if self.keys_down.insert(button) {
                    self.keys_down_edge.insert(button);
                }
            } else {
                assert(self@.buttons =~= old(self)@.buttons);
            }
        } else {
            if self.mouse_buttons_down.remove(button) {
                self.mouse_buttons_up_edge.insert(button);
            }
            if self.keys_down.remove(button) {
                self.keys_up_edge.insert(button);
            }
        }
    }

    pub fn feed_key_down(&mut self, vk: u32)
        requires
            old(self).wf(),
        ensures
            final(self).wf(),
            final(self)@ == key_pressed(old(self)@, vk),
    {
        if self.keys_down.insert(vk) {
            self.keys_down_edge.insert(vk);
        }
    }

    pub fn feed_key_up(&mut self, vk: u32)
        requires
            old(self).wf(),
        ensures
            final(self).wf(),
            final(self)@ == key_released(old(self)@, vk),
    {
        if self.keys_down.remove(vk) {
            self.keys_up_edge.insert(vk);
        }
    }

    /// What the pointer did in this frame.
    pub fn pointer_input(&self) -> (out: PointerInput)
        requires
            self.wf(),
        ensures
            out.left_down_edge == (self@.clicked || self@.buttons_pressed.contains(1)),
            out.left_up_edge == self@.buttons_released.contains(1),
            out.left_down == self@.buttons.contains(1),
            out.key_edges@ == self.keys_down_edge.items(),
    {
        PointerInput {
            left_down_edge: self.clicked || self.mouse_buttons_down_edge.contains(1),
            left_up_edge: self.mouse_buttons_up_edge.contains(1),
            left_down: self.mouse_buttons_down.contains(1),
            key_edges: self.keys_down_edge.to_list(),
        }
    }
}

/// A held key is pressed once, however often it is reported.
pub proof fn law_held_key_is_pressed_once(i: InputRecord, key: u32)
    ensures
        key_pressed(key_pressed(i, key), key) == key_pressed(i, key),
        i.keys.contains(key) ==> key_pressed(i, key).keys_pressed == i.keys_pressed,
{
    assert(i.keys.insert(key).insert(key) =~= i.keys.insert(key));
}

/// Pressing and releasing a key that was up leaves it up, and both are seen.
pub proof fn law_press_and_release(i: InputRecord, key: u32)
    requires
        !i.keys.contains(key),
    ensures
        ({
            let o = key_released(key_pressed(i, key), key);
            &&& o.keys == i.keys
            &&& o.keys_pressed.contains(key)
            &&& o.keys_released.contains(key)
        }),
{
    assert(i.keys.insert(key).remove(key) =~= i.keys);
}

// ── Pointer handlers ───────────────────────────────────────────

/// What the pointer did in a frame.
pub struct PointerInput {
    pub left_down_edge: bool,
    pub left_up_edge: bool,
    pub left_down: bool,
    /// The keys that were pressed, ascending.
    pub key_edges: Vec<u32>,
}

/// What the pointer hovers over and drags.
pub struct PointerState {
    /// The hovered layers that take hovering, ascending.
    pub hovered: Vec<String>,
    pub drag: Option<String>,
}

/// What the pointer state holds.
pub struct PointerRecord {
    pub hovered: Seq<Seq<char>>,
    pub drag: Option<Seq<char>>,
}

impl View for PointerState {
    type V = PointerRecord;

    open spec fn view(&self) -> PointerRecord {
        PointerRecord { hovered: texts(self.hovered@), drag: opt_text(self.drag) }
    }
}

/// A step of a drag that the scene carries out.
pub enum DragMove {
    /// The layer's place is the start of the drag.
    Start(String),
    /// The layer follows the pointer.
    Follow(String),
}

/// What a step of a drag holds.
pub enum DragRecord {
    Start(Seq<char>),
    Follow(Seq<char>),
}

impl View for DragMove {
    type V = DragRecord;

    open spec fn view(&self) -> DragRecord {
        match self {
            DragMove::Start(id) => DragRecord::Start(id@),
            DragMove::Follow(id) => DragRecord::Follow(id@),
        }
    }
}

pub open spec fn drag_records(moves: Seq<DragMove>) -> Seq<DragRecord> {
    Seq::new(moves.len(), |i: int| moves[i]@)
}

/// The texts of `list` that are not in `other`.
pub open spec fn without(list: Seq<Seq<char>>, other: Seq<Seq<char>>) -> Seq<Seq<char>>
    decreases list.len(),
{
    if list.len() == 0 {
        Seq::empty()
    } else {
        let before = without(list.drop_last(), other);
        if other.contains(list.last()) {
            before
        } else {
            before.push(list.last())
        }
    }
}

/// The texts of a list, ascending and once each.
pub open spec fn sorted_once(list: Seq<Seq<char>>) -> Seq<Seq<char>>
    decreases list.len(),
{
    if list.len() == 0 {
        Seq::empty()
    } else {
        let before = sorted_once(list.drop_last());
        if before.contains(list.last()) {
            before
        } else {
            insert_sorted(before, list.last())
        }
    }
}

fn list_without(list: &Vec<String>, other: &Vec<String>) -> (out: Vec<String>)
    ensures
        texts(out@) == without(texts(list@), texts(other@)),
{
    let mut out: Vec<String> = Vec::new();
    let mut i: usize = 0;
    let ghost all = texts(list@);
    assert(texts(out@) =~= without(all.take(0), texts(other@)));
    while i < list.len()
        invariant
            i <= list.len(),
            all == texts(list@),
            texts(out@) == without(all.take(i as int), texts(other@)),
        decreases list.len() - i,
    {
        proof {
            assert(all.take(i + 1).drop_last() =~= all.take(i as int));
            assert(all.take(i + 1).last() == list@[i as int]@);
        }
        if !list_has(other, list[i].as_str()) {
            let owned = copy_text(list[i].as_str());
            proof {
                lemma_texts_push(out@, owned);
            }
            out.push(owned);
        }
        i += 1;
    }
    assert(all.take(i as int) =~= all);
    out
}

fn list_sorted_once(list: &Vec<String>) -> (out: Vec<String>)
    ensures
        texts(out@) == sorted_once(texts(list@)),
{
    let mut out: Vec<String> = Vec::new();
    let mut i: usize = 0;
    let ghost all = texts(list@);
    assert(texts(out@) =~= sorted_once(all.take(0)));
    while i < list.len()
        invariant
            i <= list.len(),
            all == texts(list@),
            texts(out@) == sorted_once(all.take(i as int)),
        decreases list.len() - i,
    {
        proof {
            assert(all.take(i + 1).drop_last() =~= all.take(i as int));
            assert(all.take(i + 1).last() == list@[i as int]@);
        }
        if !list_has(&out, list[i].as_str()) {
            let owned = copy_text(list[i].as_str());
            insert_name(&mut out, owned);
        }
        i += 1;
    }
    assert(all.take(i as int) =~= all);
    out
}

/// A step of pointer handling.
pub struct PointerStep {
    pub pointer: PointerRecord,
    pub tags: Seq<TagRecord>,
    pub moves: Seq<DragRecord>,
    pub dispatch: HandlerDispatch,
}

/// The pointer moved: layers that it left are told first, in ascending order,
/// then layers that it entered, from the bottom up.
pub open spec fn hover_step(
    p: PointerRecord,
    scene: Map<Seq<char>, LayerInput>,
    hits: Seq<Seq<char>>,
) -> PointerStep {
    let now = reached_layers(scene, hits, "rollover"@).reverse();
    let left = without(p.hovered, now);
    let entered = without(now, p.hovered);
    PointerStep {
        pointer: PointerRecord { hovered: sorted_once(now), ..p },
        tags: layers_tags(scene, left, "rollout"@, Seq::empty()) + layers_tags(
            scene,
            entered,
            "rollover"@,
            Seq::empty(),
        ),
        moves: Seq::empty(),
        dispatch: merged(
            layers_dispatch(scene, left, "rollout"@),
            layers_dispatch(scene, entered, "rollover"@),
        ),
    }
}

/// Whether the top layer is dragged.
pub open spec fn drag_starts(scene: Map<Seq<char>, LayerInput>, hits: Seq<Seq<char>>) -> bool {
    hits.len() > 0 && scene.contains_key(hits[0]) && scene[hits[0]].draggable
        && scene[hits[0]].placed && has_drag(scene, hits[0])
}

/// What a drag handler is told.
pub open spec fn drag_params(flag: Seq<char>, id: Seq<char>) -> Seq<(Seq<char>, Seq<char>)> {
    seq![("drag"@, flag), ("id"@, id)]
}

/// What a click handler is told.
pub open spec fn click_params() -> Seq<(Seq<char>, Seq<char>)> {
    seq![("click"@, "1"@)]
}

/// The left button went down: the top layer is dragged, or else the layers
/// under the pointer are clicked.
pub open spec fn press_step(
    p: PointerRecord,
    scene: Map<Seq<char>, LayerInput>,
    hits: Seq<Seq<char>>,
) -> PointerStep {
    if drag_starts(scene, hits) {
        PointerStep {
            pointer: PointerRecord { drag: Some(hits[0]), ..p },
            tags: layer_tags(scene, hits[0], "dragin"@, drag_params("1"@, hits[0])),
            moves: seq![DragRecord::Start(hits[0])],
            dispatch: layer_dispatch(scene, hits[0], "dragin"@),
        }
    } else {
        let clicked = reached_layers(scene, hits, "click"@).reverse();
        PointerStep {
            pointer: p,
            tags: layers_tags(scene, clicked, "click"@, click_params()),
            moves: Seq::empty(),
            dispatch: layers_dispatch(scene, clicked, "click"@),
        }
    }
}

/// The left button is held: a dragged layer follows.
pub open spec fn follow_step(p: PointerRecord, scene: Map<Seq<char>, LayerInput>) -> PointerStep {
    match p.drag {
        Some(id) => PointerStep {
            pointer: p,
            tags: layer_tags(scene, id, "drag"@, drag_params("1"@, id)),
            moves: seq![DragRecord::Follow(id)],
            dispatch: layer_dispatch(scene, id, "drag"@),
        },
        None => PointerStep {
            pointer: p,
            tags: Seq::empty(),
            moves: Seq::empty(),
            dispatch: unhandled(),
        },
    }
}

/// The left button went up: a drag ends.
pub open spec fn drop_step(p: PointerRecord, scene: Map<Seq<char>, LayerInput>) -> PointerStep {
    match p.drag {
        Some(id) => PointerStep {
            pointer: PointerRecord { drag: None, ..p },
            tags: layer_tags(scene, id, "dragout"@, drag_params("0"@, id)),
            moves: Seq::empty(),
            dispatch: layer_dispatch(scene, id, "dragout"@),
        },
        None => PointerStep {
            pointer: p,
            tags: Seq::empty(),
            moves: Seq::empty(),
            dispatch: unhandled(),
        },
    }
}

/// Whether a key is a mouse button.
pub open spec fn mouse_button(key: u32) -> bool {
    1 <= key <= 3
}

pub fn is_mouse_button(key: u32) -> (out: bool)
    ensures
        out == mouse_button(key),
{
    1 <= key && key <= 3
}

/// What a key handler is told.
pub open spec fn push_params(key: u32) -> Seq<(Seq<char>, Seq<char>)> {
    seq![
        ("key"@, decimal_text(key as nat)),
        (
            "type"@,
            if mouse_button(key) {
                "click"@
            } else {
                "key"@
            },
        ),
    ]
}

/// What pressed keys queue.
pub open spec fn push_tags(pushes: Map<Seq<char>, EventHandler>, keys: Seq<u32>) -> Seq<TagRecord>
    decreases keys.len(),
{
    if keys.len() == 0 {
        Seq::empty()
    } else {
        let before = push_tags(pushes, keys.drop_last());
        let name = decimal_text(keys.last() as nat);
        if pushes.contains_key(name) {
            before + handler_tags(pushes[name]@, push_params(keys.last()))
        } else {
            before
        }
    }
}

/// Whether a pressed key needs a frame to return to.
pub open spec fn push_needs_frame(pushes: Map<Seq<char>, EventHandler>, keys: Seq<u32>) -> bool
    decreases keys.len(),
{
    if keys.len() == 0 {
        false
    } else {
        let name = decimal_text(keys.last() as nat);
        push_needs_frame(pushes, keys.drop_last()) || (pushes.contains_key(name) && dispatched(
            pushes[name]@,
        ).needs_return_frame)
    }
}

/// Whether a handler of the left button took it.
pub open spec fn left_push(pushes: Map<Seq<char>, EventHandler>, keys: Seq<u32>) -> bool {
    keys.contains(1u32) && pushes.contains_key(decimal_text(1))
}

/// The handlers of keys are well formed.
pub open spec fn pushes_wf(pushes: NameMap<EventHandler>) -> bool {
    pushes.wf() && forall|name: Seq<char>| #[trigger]
        pushes@.contains_key(name) ==> pushes@[name].wf()
}

/// The whole outcome of a frame of pointer handling.
pub struct PointerOutcome {
    pub pointer: PointerRecord,
    pub tags: Seq<TagRecord>,
    pub moves: Seq<DragRecord>,
    pub needs_return_frame: bool,
    pub clicked: bool,
}

/// A frame of pointer handling: hovering, pressing, dragging and dropping, then
/// keys. The script is clicked where the left button went down and nobody took
/// it.
pub open spec fn pointer_outcome(
    p: PointerRecord,
    left_down_edge: bool,
    left_up_edge: bool,
    left_down: bool,
    keys: Seq<u32>,
    hits: Seq<Seq<char>>,
    scene: Map<Seq<char>, LayerInput>,
    pushes: Map<Seq<char>, EventHandler>,
    wait: Option<WaitRecord>,
) -> PointerOutcome {
    let hover = hover_step(p, scene, hits);
    let press = if left_down_edge {
        press_step(hover.pointer, scene, hits)
    } else {
        still(hover.pointer)
    };
    let follow = if left_down {
        follow_step(press.pointer, scene)
    } else {
        still(press.pointer)
    };
    let dropped = if left_up_edge {
        drop_step(follow.pointer, scene)
    } else {
        still(follow.pointer)
    };
    let by_drag = (left_down_edge && drag_starts(scene, hits)) || (left_down && press.pointer.drag
        is Some) || (left_up_edge && follow.pointer.drag is Some);
    let by_layer = left_down_edge && !drag_starts(scene, hits) && press.dispatch.handled;
    PointerOutcome {
        pointer: dropped.pointer,
        tags: hover.tags + press.tags + follow.tags + dropped.tags + push_tags(pushes, keys),
        moves: press.moves + follow.moves,
        needs_return_frame: hover.dispatch.needs_return_frame || press.dispatch.needs_return_frame
            || follow.dispatch.needs_return_frame || dropped.dispatch.needs_return_frame
            || push_needs_frame(pushes, keys),
        clicked: left_down_edge && !by_layer && !push_absorbs(wait, left_push(pushes, keys))
            && !by_drag,
    }
}

/// Nothing happens.
pub open spec fn still(p: PointerRecord) -> PointerStep {
    PointerStep {
        pointer: p,
        tags: Seq::empty(),
        moves: Seq::empty(),
        dispatch: unhandled(),
    }
}

/// A pointer state, queued tags and drag moves went on by a step.
spec fn stepped(
    after: PointerState,
    queue_before: Seq<Tag>,
    queue_after: Seq<Tag>,
    moves_before: Seq<DragMove>,
    moves_after: Seq<DragMove>,
    dispatch: HandlerDispatch,
    step: PointerStep,
) -> bool {
    &&& after@ == step.pointer
    &&& queued(queue_before, queue_after, step.tags)
    &&& drag_records(moves_after) == drag_records(moves_before) + step.moves
    &&& dispatch == step.dispatch
}

fn drag_event(flag: &str, id: &str) -> (out: Vec<(String, String)>)
    ensures
        pairs_view(out@) == drag_params(flag@, id@),
{
    let mut out: Vec<(String, String)> = Vec::new();
    out.push((copy_text("drag"), copy_text(flag)));
    out.push((copy_text("id"), copy_text(id)));
    assert(pairs_view(out@) =~= drag_params(flag@, id@));
    out
}

fn push_event(key: u32, name: &str) -> (out: Vec<(String, String)>)
    requires
        name@ == decimal_text(key as nat),
    ensures
        pairs_view(out@) == push_params(key),
{
    let kind = if is_mouse_button(key) {
        copy_text("click")
    } else {
        copy_text("key")
    };
    let mut out: Vec<(String, String)> = Vec::new();
    out.push((copy_text("key"), copy_text(name)));
    out.push((copy_text("type"), kind));
    assert(pairs_view(out@) =~= push_params(key));
    out
}

proof fn lemma_no_moves(moves: Seq<DragMove>)
    ensures
        drag_records(moves) + Seq::<DragRecord>::empty() == drag_records(moves),
{
    assert(drag_records(moves) + Seq::<DragRecord>::empty() =~= drag_records(moves));
}

impl PointerState {
    pub fn new() -> (out: Self)
        ensures
            out@.hovered == Seq::<Seq<char>>::empty(),
            out@.drag is None,
    {
        PointerState { hovered: Vec::new(), drag: None }
    }

    fn hover(
        &mut self,
        scene: &NameMap<LayerInput>,
        hits: &Vec<String>,
        queue: &mut Vec<Tag>,
    ) -> (out: HandlerDispatch)
        requires
            scene_wf(*scene),
        ensures
            final(self)@ == hover_step(old(self)@, scene@, texts(hits@)).pointer,
            queued(
                old(queue)@,
                final(queue)@,
                hover_step(old(self)@, scene@, texts(hits@)).tags,
            ),
            out == hover_step(old(self)@, scene@, texts(hits@)).dispatch,
    {
        let ghost start = queue@;
        let now = event_dispatch_layers(scene, hits, "rollover");
        let left = list_without(&self.hovered, &now);
        let entered = list_without(&now, &self.hovered);
        let nothing: Vec<(String, String)> = Vec::new();
        assert(pairs_view(nothing@) =~= Seq::empty());
        let first = enqueue_layers(queue, scene, &left, "rollout", &nothing);
        let ghost middle = queue@;
        let second = enqueue_layers(queue, scene, &entered, "rollover", &nothing);
        proof {
            lemma_queued_both(
                start,
                middle,
                queue@,
                layers_tags(scene@, texts(left@), "rollout"@, Seq::empty()),
                layers_tags(scene@, texts(entered@), "rollover"@, Seq::empty()),
            );
        }
        self.hovered = list_sorted_once(&now);
        first.merge(second)
    }

    /// Starts a drag of the top layer where it can be dragged.
    fn start_pointer_drag(
        &mut self,
        scene: &NameMap<LayerInput>,
        hits: &Vec<String>,
    ) -> (out: Option<String>)
        ensures
            out is Some <==> drag_starts(scene@, texts(hits@)),
            out matches Some(id) ==> id@ == texts(hits@)[0] && final(self)@ == (PointerRecord {
                drag: Some(id@),
                ..old(self)@
            }),
            out is None ==> final(self)@ == old(self)@,
    {
        if hits.len() == 0 {
            return None;
        }
        let id = hits[0].as_str();
        assert(texts(hits@)[0] == id@);
        let ready = match scene.get(id) {
            Some(layer) => layer.draggable && layer.placed,
            None => false,
        };
        if !ready || !has_drag_handler(scene, id) {
            return None;
        }
        self.drag = Some(copy_text(id));
        Some(copy_text(id))
    }

    fn press(
        &mut self,
        scene: &NameMap<LayerInput>,
        hits: &Vec<String>,
        queue: &mut Vec<Tag>,
        moves: &mut Vec<DragMove>,
    ) -> (out: (HandlerDispatch, bool))
        requires
            scene_wf(*scene),
        ensures
            stepped(
                *final(self),
                old(queue)@,
                final(queue)@,
                old(moves)@,
                final(moves)@,
                out.0,
                press_step(old(self)@, scene@, texts(hits@)),
            ),
            out.1 == drag_starts(scene@, texts(hits@)),
    {
        proof {
            lemma_no_moves(moves@);
        }
        match self.start_pointer_drag(scene, hits) {
            Some(id) => {
                let event = drag_event("1", id.as_str());
                let out = enqueue_layer_handler(queue, scene, id.as_str(), "dragin", &event);
                let step = DragMove::Start(id);
                moves.push(step);
                proof {
                    assert(drag_records(moves@) =~= drag_records(old(moves)@) + seq![step@]);
                }
                (out, true)
            },
            None => {
                let clicked = event_dispatch_layers(scene, hits, "click");
                let mut event: Vec<(String, String)> = Vec::new();
                event.push((copy_text("click"), copy_text("1")));
                assert(pairs_view(event@) =~= click_params());
                (enqueue_layers(queue, scene, &clicked, "click", &event), false)
            },
        }
    }

    fn continue_pointer_drag(
        &self,
        scene: &NameMap<LayerInput>,
        queue: &mut Vec<Tag>,
        moves: &mut Vec<DragMove>,
    ) -> (out: HandlerDispatch)
        requires
            scene_wf(*scene),
        ensures
            stepped(
                *self,
                old(queue)@,
                final(queue)@,
                old(moves)@,
                final(moves)@,
                out,
                follow_step(self@, scene@),
            ),
    {
        proof {
            lemma_no_moves(moves@);
            lemma_queued_none(queue@);
        }
        match &self.drag {
            Some(id) => {
                let event = drag_event("1", id.as_str());
                let out = enqueue_layer_handler(queue, scene, id.as_str(), "drag", &event);
                let step = DragMove::Follow(copy_text(id.as_str()));
                moves.push(step);
                proof {
                    assert(drag_records(moves@) =~= drag_records(old(moves)@) + seq![step@]);
                }
                out
            },
            None => HandlerDispatch::none(),
        }
    }

    fn finish_pointer_drag(
        &mut self,
        scene: &NameMap<LayerInput>,
        queue: &mut Vec<Tag>,
    ) -> (out: HandlerDispatch)
        requires
            scene_wf(*scene),
        ensures
            final(self)@ == drop_step(old(self)@, scene@).pointer,
            queued(old(queue)@, final(queue)@, drop_step(old(self)@, scene@).tags),
            out == drop_step(old(self)@, scene@).dispatch,
    {
        proof {
            lemma_queued_none(queue@);
        }
        let out = match &self.drag {
            Some(id) => {
                let event = drag_event("0", id.as_str());
                enqueue_layer_handler(queue, scene, id.as_str(), "dragout", &event)
            },
            None => HandlerDispatch::none(),
        };
        self.drag = None;
        out
    }

    /// Handles the pointer and the keys of a frame. `hits` lists the layers
    /// under the pointer from the top down, `pushes` the handlers of keys by
    /// the key's number in decimal. Returns whether the script is clicked and
    /// whether it needs a frame to return to.
    pub fn process_pointer_handlers(
        &mut self,
        input: &PointerInput,
        hits: &Vec<String>,
        scene: &NameMap<LayerInput>,
        pushes: &NameMap<EventHandler>,
        wait_reason: Option<&WaitReason>,
        queue: &mut Vec<Tag>,
        moves: &mut Vec<DragMove>,
    ) -> (out: PointerResult)
        requires
            scene_wf(*scene),
            pushes_wf(*pushes),
        ensures
            ({
                let expected = pointer_outcome(
                    old(self)@,
                    input.left_down_edge,
                    input.left_up_edge,
                    input.left_down,
                    input.key_edges@,
                    texts(hits@),
                    scene@,
                    pushes@,
                    opt_wait_ref(wait_reason),
                );
                &&& final(self)@ == expected.pointer
                &&& queued(old(queue)@, final(queue)@, expected.tags)
                &&& drag_records(final(moves)@) == drag_records(old(moves)@) + expected.moves
                &&& out.clicked == expected.clicked
                &&& out.needs_return_frame == expected.needs_return_frame
            }),
    {
        let ghost q0 = queue@;
        let ghost m0 = moves@;
        let hover = self.hover(scene, hits, queue);
        let ghost q1 = queue@;
        let ghost p1 = self@;
        proof {
            lemma_no_moves(moves@);
            lemma_queued_none(queue@);
        }
        let mut press = HandlerDispatch::none();
        let mut by_drag = false;
        let mut by_layer = false;
        if input.left_down_edge {
            let (dispatch, dragged) = self.press(scene, hits, queue, moves);
            press = dispatch;
            by_drag = dragged;
            by_layer = !dragged && dispatch.handled;
        }
        let ghost q2 = queue@;
        let ghost m2 = moves@;
        let ghost p2 = self@;
        proof {
            lemma_no_moves(moves@);
            lemma_queued_none(queue@);
        }
        let mut follow = HandlerDispatch::none();
        if input.left_down {
            by_drag = by_drag || self.drag.is_some();
            follow = self.continue_pointer_drag(scene, queue, moves);
        }
        let ghost q3 = queue@;
        let ghost p3 = self@;
        proof {
            lemma_queued_none(queue@);
        }
        let mut dropped = HandlerDispatch::none();
        if input.left_up_edge {
            by_drag = by_drag || self.drag.is_some();
            dropped = self.finish_pointer_drag(scene, queue);
        }
        let ghost q4 = queue@;
        let (push_frame, by_push) = push_keys(queue, pushes, &input.key_edges);
        proof {
            let hover_spec = hover_step(old(self)@, scene@, texts(hits@));
            let press_spec = if input.left_down_edge {
                press_step(p1, scene@, texts(hits@))
            } else {
                still(p1)
            };
            let follow_spec = if input.left_down {
                follow_step(p2, scene@)
            } else {
                still(p2)
            };
            let drop_spec = if input.left_up_edge {
                drop_step(p3, scene@)
            } else {
                still(p3)
            };
            lemma_queued_both(q0, q1, q2, hover_spec.tags, press_spec.tags);
            lemma_queued_both(q0, q2, q3, hover_spec.tags + press_spec.tags, follow_spec.tags);
            lemma_queued_both(
                q0,
                q3,
                q4,
                hover_spec.tags + press_spec.tags + follow_spec.tags,
                drop_spec.tags,
            );
            lemma_queued_both(
                q0,
                q4,
                queue@,
                hover_spec.tags + press_spec.tags + follow_spec.tags + drop_spec.tags,
                push_tags(pushes@, input.key_edges@),
            );
            assert(drag_records(m2) == drag_records(m0) + press_spec.moves);
            assert(drag_records(moves@) == drag_records(m2) + follow_spec.moves);
            assert((drag_records(m0) + press_spec.moves) + follow_spec.moves =~= drag_records(m0)
                + (press_spec.moves + follow_spec.moves));
        }
        let absorbed = global_push_absorbs_default_click(wait_reason, by_push);
        PointerResult {
            clicked: input.left_down_edge && !by_layer && !absorbed && !by_drag,
            needs_return_frame: hover.needs_return_frame || press.needs_return_frame
                || follow.needs_return_frame || dropped.needs_return_frame || push_frame,
        }
    }
}

/// What pointer handling leaves for the script.
#[derive(Clone, Copy, Debug, PartialEq, Eq, Structural)]
pub struct PointerResult {
    pub clicked: bool,
    pub needs_return_frame: bool,
}

/// Sends pressed keys to their handlers. Returns whether one needs a frame to
/// return to, and whether the left button was taken.
fn push_keys(
    queue: &mut Vec<Tag>,
    pushes: &NameMap<EventHandler>,
    keys: &Vec<u32>,
) -> (out: (bool, bool))
    requires
        pushes_wf(*pushes),
    ensures
        queued(old(queue)@, final(queue)@, push_tags(pushes@, keys@)),
        out.0 == push_needs_frame(pushes@, keys@),
        out.1 == left_push(pushes@, keys@),
{
    let ghost start = queue@;
    let mut needs_frame = false;
    let mut left = false;
    let mut i: usize = 0;
    proof {
        lemma_queued_none(start);
        assert(keys@.take(0) =~= Seq::empty());
    }
    while i < keys.len()
        invariant
            i <= keys.len(),
            pushes_wf(*pushes),
            queued(start, queue@, push_tags(pushes@, keys@.take(i as int))),
            needs_frame == push_needs_frame(pushes@, keys@.take(i as int)),
            left == left_push(pushes@, keys@.take(i as int)),
        decreases keys.len() - i,
    {
        let key: u32 = keys[i];
        let ghost shorter = keys@.take(i as int);
        let ghost longer = keys@.take(i + 1);
        proof {
            assert(longer.drop_last() =~= shorter);
            assert(longer.last() == key);
            if shorter.contains(1u32) {
                let k = choose|k: int| 0 <= k < shorter.len() && shorter[k] == 1u32;
                assert(longer[k] == 1u32);
            }
            if key == 1 {
                assert(longer[i as int] == 1u32);
            }
            if longer.contains(1u32) && key != 1 {
                let k = choose|k: int| 0 <= k < longer.len() && longer[k] == 1u32;
                assert(shorter[k] == 1u32);
            }
        }
        let name = decimal_of(key as u64);
        if let Some(handler) = pushes.get(name.as_str()) {
            let ghost middle = queue@;
            let event = push_event(key, name.as_str());
            let dispatch = dispatch_handler(queue, handler, &event);
            proof {
                lemma_queued_both(
                    start,
                    middle,
                    queue@,
                    push_tags(pushes@, shorter),
                    handler_tags(handler@, push_params(key)),
                );
            }
            needs_frame = needs_frame || dispatch.needs_return_frame;
            left = left || key == 1;
        }
        i += 1;
    }
    assert(keys@.take(i as int) =~= keys@);
    (needs_frame, left)
}

/// A click that a layer, a drag or a handler of the left button took does not
/// reach the script, save that a timed wait which takes input gets it from a
/// handler of the left button.
pub proof fn law_taken_clicks_stay_away(
    p: PointerRecord,
    left_up_edge: bool,
    left_down: bool,
    keys: Seq<u32>,
    hits: Seq<Seq<char>>,
    scene: Map<Seq<char>, LayerInput>,
    pushes: Map<Seq<char>, EventHandler>,
    wait: Option<WaitRecord>,
)
    ensures
        ({
            let o = pointer_outcome(
                p,
                true,
                left_up_edge,
                left_down,
                keys,
                hits,
                scene,
                pushes,
                wait,
            );
            let clicks = layers_dispatch(scene, reached_layers(scene, hits, "click"@).reverse(), "click"@);
            &&& drag_starts(scene, hits) ==> !o.clicked
            &&& clicks.handled ==> !o.clicked
            &&& (left_push(pushes, keys) && o.clicked ==> (wait matches Some(
                WaitRecord::Timed { input, .. },
            ) && input == 1))
        }),
{
}

/// A layer is dragged from the press to the release and no longer.
pub proof fn law_release_ends_drag(
    p: PointerRecord,
    left_down_edge: bool,
    left_down: bool,
    keys: Seq<u32>,
    hits: Seq<Seq<char>>,
    scene: Map<Seq<char>, LayerInput>,
    pushes: Map<Seq<char>, EventHandler>,
    wait: Option<WaitRecord>,
)
    ensures
        pointer_outcome(
            p,
            left_down_edge,
            true,
            left_down,
            keys,
            hits,
            scene,
            pushes,
            wait,
        ).pointer.drag is None,
{
}

// ── Inline event frames ────────────────────────────────────────

/// A place that a script returns to.
pub struct CallFrame {
    pub script: String,
    pub return_line: usize,
}

impl View for CallFrame {
    type V = (Seq<char>, usize);

    open spec fn view(&self) -> (Seq<char>, usize) {
        (self.script@, self.return_line)
    }
}

/// The places of a call stack.
pub open spec fn stack_view(stack: Seq<CallFrame>) -> Seq<(Seq<char>, usize)> {
    Seq::new(stack.len(), |i: int| stack[i]@)
}

/// The place of a script at which an event broke in.
pub struct InlineEventFrame {
    pub script: String,
    pub line: usize,
    pub stack: Vec<CallFrame>,
    pub committed: bool,
}

/// Whether the place of the event is on the stack, above what was there before.
pub open spec fn marker_active(frame: InlineEventFrame, stack: Seq<(Seq<char>, usize)>) -> bool {
    frame.stack@.len() < stack.len() && stack[frame.stack@.len() as int] == (
        frame.script@,
        frame.line,
    )
}

/// Whether an event that broke in is still to return.
pub fn inline_event_marker_is_active(frame: &InlineEventFrame, stack: &Vec<CallFrame>) -> (out:
    bool)
    ensures
        out == marker_active(*frame, stack_view(stack@)),
{
    let at: usize = frame.stack.len();
    at < stack.len() && same_text(stack[at].script.as_str(), frame.script.as_str())
        && stack[at].return_line == frame.line
}

/// Takes the place of the event off the stack and leaves every other place.
/// Returns whether it was there.
pub fn detach_inline_event_marker(frame: &InlineEventFrame, stack: &mut Vec<CallFrame>) -> (out:
    bool)
    ensures
        out == marker_active(*frame, stack_view(old(stack)@)),
        stack_view(final(stack)@) == (if out {
            stack_view(old(stack)@).remove(frame.stack@.len() as int)
        } else {
            stack_view(old(stack)@)
        }),
{
    if !inline_event_marker_is_active(frame, stack) {
        return false;
    }
    let _ = stack.remove(frame.stack.len());
    assert(stack_view(stack@) =~= stack_view(old(stack)@).remove(frame.stack@.len() as int));
    true
}

/// Breaks in with an event: the place where the script stands goes onto the
/// stack. Returns the record of the event and the stack to go on with.
pub fn begin_inline_event(script: &str, line: usize, stack: Vec<CallFrame>) -> (out: (
    InlineEventFrame,
    Vec<CallFrame>,
))
    ensures
        out.0.script@ == script@,
        out.0.line == line,
        !out.0.committed,
        stack_view(out.0.stack@) == stack_view(stack@),
        stack_view(out.1@) == stack_view(stack@).push((script@, line)),
{
    let mut copy: Vec<CallFrame> = Vec::new();
    let mut i: usize = 0;
    while i < stack.len()
        invariant
            i <= stack.len(),
            copy@.len() == i,
            forall|j: int| 0 <= j < i ==> (#[trigger] copy@[j])@ == stack@[j]@,
        decreases stack.len() - i,
    {
        copy.push(
            CallFrame {
                script: copy_text(stack[i].script.as_str()),
                return_line: stack[i].return_line,
            },
        );
        i += 1;
    }
    assert(stack_view(copy@) =~= stack_view(stack@));
    copy.push(CallFrame { script: copy_text(script), return_line: line });
    assert(stack_view(copy@) =~= stack_view(stack@).push((script@, line)));
    (InlineEventFrame { script: copy_text(script), line, stack, committed: false }, copy)
}

/// Breaks in with an event, unless one runs already or no script does. Returns
/// the record of the event and the stack to go on with.
pub fn begin_inline_event_frame(
    slot: &Option<InlineEventFrame>,
    script: Option<&str>,
    line: usize,
    stack: Vec<CallFrame>,
) -> (out: Option<(InlineEventFrame, Vec<CallFrame>)>)
    ensures
        out is None <==> (slot is Some || script is None),
        out matches Some((frame, next)) ==> {
            &&& frame.script@ == script->0@
            &&& frame.line == line
            &&& !frame.committed
            &&& stack_view(frame.stack@) == stack_view(stack@)
            &&& stack_view(next@) == stack_view(stack@).push((script->0@, line))
        },
{
    match (slot, script) {
        (None, Some(name)) => Some(begin_inline_event(name, line, stack)),
        _ => None,
    }
}

/// Forgets an event that has returned.
pub fn refresh_inline_event_frame(slot: &mut Option<InlineEventFrame>, stack: &Vec<CallFrame>)
    ensures
        *final(slot) == (match *old(slot) {
            Some(frame) => if marker_active(frame, stack_view(stack@)) {
                Some(frame)
            } else {
                None
            },
            None => None,
        }),
{
    let active = match slot {
        Some(frame) => inline_event_marker_is_active(frame, stack),
        None => true,
    };
    if !active {
        *slot = None;
    }
}

/// Ends the round of an event that broke in. Where the script went elsewhere,
/// the event stays until it has returned. Otherwise it is over: what comes back
/// says where the script stood before.
pub fn finish_inline_event_frame(
    slot: &mut Option<InlineEventFrame>,
    changed_position: bool,
    stack: &Vec<CallFrame>,
) -> (out: Option<InlineEventFrame>)
    ensures
        out == (if changed_position {
            None
        } else {
            *old(slot)
        }),
        *final(slot) == (match *old(slot) {
            Some(frame) => if changed_position && marker_active(frame, stack_view(stack@)) {
                Some(frame)
            } else {
                None
            },
            None => None,
        }),
{
    if changed_position {
        refresh_inline_event_frame(slot, stack);
        return None;
    }
    slot.take()
}

/// Taking off the place of an event undoes putting it on, and what was called
/// in between stays.
pub proof fn law_detaching_undoes_breaking_in(
    frame: InlineEventFrame,
    stack: Seq<(Seq<char>, usize)>,
    nested: Seq<(Seq<char>, usize)>,
)
    requires
        stack_view(frame.stack@) == stack,
    ensures
        ({
            let broken = stack.push((frame.script@, frame.line)) + nested;
            &&& marker_active(frame, broken)
            &&& broken.remove(frame.stack@.len() as int) == stack + nested
        }),
{
    let broken = stack.push((frame.script@, frame.line)) + nested;
    assert(stack.len() == frame.stack@.len());
    assert(broken.remove(frame.stack@.len() as int) =~= stack + nested);
}

// ── What a frame of input does ─────────────────────────────────

/// A key that goes down is down, and pressed where it was up; one that goes up is
/// up, and released where it was down. Nothing else changes.
pub proof fn law_keys_move(i: InputRecord, key: u32)
    ensures
        ({
            let down = key_pressed(i, key);
            &&& down == (InputRecord { keys: down.keys, keys_pressed: down.keys_pressed, ..i })
            &&& forall|k: u32| #[trigger]
                down.keys.contains(k) <==> i.keys.contains(k) || k == key
            &&& forall|k: u32| #[trigger]
                down.keys_pressed.contains(k) <==> i.keys_pressed.contains(k) || (k == key
                    && !i.keys.contains(key))
        }),
        ({
            let up = key_released(i, key);
            &&& up == (InputRecord { keys: up.keys, keys_released: up.keys_released, ..i })
            &&& forall|k: u32| #[trigger]
                up.keys.contains(k) <==> i.keys.contains(k) && k != key
            &&& forall|k: u32| #[trigger]
                up.keys_released.contains(k) <==> i.keys_released.contains(k) || (k == key
                    && i.keys.contains(key))
        }),
{
}

/// A mouse button moves as a key of its number does, and is a button beside that.
/// One that is reported down again changes nothing.
pub proof fn law_buttons_move_like_keys(i: InputRecord, button: u32, pressed: bool)
    ensures
        ({
            let o = button_moved(i, button, pressed);
            let key = if pressed {
                key_pressed(i, button)
            } else {
                key_released(i, button)
            };
            let again = pressed && i.buttons.contains(button);
            &&& again ==> o == i
            &&& !again ==> o.keys == key.keys && o.keys_pressed == key.keys_pressed
                && o.keys_released == key.keys_released
            &&& o.mouse == i.mouse && o.clicked == i.clicked
            &&& forall|b: u32| #[trigger]
                o.buttons.contains(b) <==> (if b == button {
                    pressed
                } else {
                    i.buttons.contains(b)
                })
            &&& forall|b: u32| #[trigger]
                o.buttons_pressed.contains(b) <==> i.buttons_pressed.contains(b) || (b == button
                    && pressed && !i.buttons.contains(b))
            &&& forall|b: u32| #[trigger]
                o.buttons_released.contains(b) <==> i.buttons_released.contains(b) || (b == button
                    && !pressed && i.buttons.contains(b))
        }),
{
}

/// Taking texts out of a list leaves the others, in their order.
pub proof fn law_texts_are_taken_out(
    list: Seq<Seq<char>>,
    other: Seq<Seq<char>>,
    text: Seq<char>,
)
    ensures
        without(Seq::empty(), other).len() == 0,
        without(list.push(text), other) == (if other.contains(text) {
            without(list, other)
        } else {
            without(list, other).push(text)
        }),
{
    assert(list.push(text).drop_last() =~= list);
}

proof fn lemma_without_contains(list: Seq<Seq<char>>, other: Seq<Seq<char>>, text: Seq<char>)
    ensures
        without(list, other).contains(text) <==> list.contains(text) && !other.contains(text),
    decreases list.len(),
{
    if list.len() > 0 {
        let rest = list.drop_last();
        lemma_without_contains(rest, other, text);
        let before = without(rest, other);
        let all = without(list, other);
        if all.contains(text) && !before.contains(text) {
            assert(list[list.len() - 1] == text);
        }
        if before.contains(text) {
            let k = choose|k: int| 0 <= k < before.len() && before[k] == text;
            assert(all[k] == text);
            let m = choose|m: int| 0 <= m < rest.len() && rest[m] == text;
            assert(list[m] == text);
        }
        if list.contains(text) && !other.contains(text) && !before.contains(text) {
            let m = choose|m: int| 0 <= m < list.len() && list[m] == text;
            if m < rest.len() {
                assert(rest[m] == text);
            }
            assert(all[before.len() as int] == text);
        }
    }
}

proof fn lemma_sorted_once_contains(list: Seq<Seq<char>>, text: Seq<char>)
    ensures
        sorted_once(list).contains(text) <==> list.contains(text),
    decreases list.len(),
{
    broadcast use vstd::seq_lib::group_to_multiset_ensures;

    if list.len() > 0 {
        let rest = list.drop_last();
        let last = list.last();
        lemma_sorted_once_contains(rest, text);
        let before = sorted_once(rest);
        assert(list.contains(text) <==> rest.contains(text) || text == last) by {
            if list.contains(text) {
                let m = choose|m: int| 0 <= m < list.len() && list[m] == text;
                if m < rest.len() {
                    assert(rest[m] == text);
                }
            }
            if rest.contains(text) {
                let m = choose|m: int| 0 <= m < rest.len() && rest[m] == text;
                assert(list[m] == text);
            }
            assert(list[list.len() - 1] == last);
        }
        if !before.contains(last) {
            crate::text_order::lemma_insert_contains(before, last, text);
        }
    }
}

/// The layers that a pointer is over are remembered exactly: a layer is hovered
/// after a frame where it is reached by the pointer in it. Staying queues nothing;
/// leaving everything tells every layer that was hovered, and entering from
/// nowhere every layer that is reached, from the bottom up.
pub proof fn law_hovering_is_remembered(
    p: PointerRecord,
    scene: Map<Seq<char>, LayerInput>,
    hits: Seq<Seq<char>>,
    id: Seq<char>,
)
    ensures
        ({
            let step = hover_step(p, scene, hits);
            let again = hover_step(step.pointer, scene, hits);
            let away = hover_step(p, scene, Seq::empty());
            &&& step.pointer.drag == p.drag
            &&& step.moves.len() == 0
            &&& step.pointer.hovered.contains(id) <==> reached_layers(
                scene,
                hits,
                "rollover"@,
            ).contains(id)
            &&& again.tags.len() == 0
            &&& !again.dispatch.handled
            &&& away.tags == layers_tags(scene, p.hovered, "rollout"@, Seq::empty())
            &&& p.hovered.len() == 0 ==> step.tags == layers_tags(
                scene,
                reached_layers(scene, hits, "rollover"@).reverse(),
                "rollover"@,
                Seq::empty(),
            )
        }),
{
    let above = reached_layers(scene, hits, "rollover"@);
    let now = above.reverse();
    let step = hover_step(p, scene, hits);
    assert forall|t: Seq<char>| sorted_once(now).contains(t) <==> above.contains(t) by {
        lemma_sorted_once_contains(now, t);
        if now.contains(t) {
            let k = choose|k: int| 0 <= k < now.len() && now[k] == t;
            assert(above[above.len() - 1 - k] == t);
        }
        if above.contains(t) {
            let k = choose|k: int| 0 <= k < above.len() && above[k] == t;
            assert(now[above.len() - 1 - k] == t);
        }
    }
    let hovered = sorted_once(now);
    assert forall|t: Seq<char>| hovered.contains(t) <==> now.contains(t) by {
        lemma_sorted_once_contains(now, t);
    }
    lemma_nothing_left(hovered, now);
    lemma_nothing_left(now, hovered);
    let none = Seq::<Seq<char>>::empty();
    let away = reached_layers(scene, none, "rollover"@).reverse();
    assert(away =~= none);
    lemma_nothing_taken(p.hovered, away);
    lemma_nothing_left(away, p.hovered);
    let rollouts = layers_tags(scene, p.hovered, "rollout"@, Seq::empty());
    assert(rollouts + Seq::<TagRecord>::empty() =~= rollouts);
    if p.hovered.len() == 0 {
        lemma_nothing_taken(now, p.hovered);
        lemma_nothing_left(p.hovered, now);
        let rollovers = layers_tags(scene, now, "rollover"@, Seq::empty());
        assert(Seq::<TagRecord>::empty() + rollovers =~= rollovers);
    }
}

proof fn lemma_nothing_left(list: Seq<Seq<char>>, other: Seq<Seq<char>>)
    requires
        forall|t: Seq<char>| list.contains(t) ==> other.contains(t),
    ensures
        without(list, other) == Seq::<Seq<char>>::empty(),
    decreases list.len(),
{
    if list.len() > 0 {
        let rest = list.drop_last();
        assert forall|t: Seq<char>| rest.contains(t) implies other.contains(t) by {
            let k = choose|k: int| 0 <= k < rest.len() && rest[k] == t;
            assert(list[k] == t);
        }
        lemma_nothing_left(rest, other);
        assert(list.contains(list.last())) by {
            assert(list[list.len() - 1] == list.last());
        }
    }
}

proof fn lemma_nothing_taken(list: Seq<Seq<char>>, other: Seq<Seq<char>>)
    requires
        other.len() == 0,
    ensures
        without(list, other) == list,
    decreases list.len(),
{
    if list.len() > 0 {
        lemma_nothing_taken(list.drop_last(), other);
        assert(list.drop_last().push(list.last()) =~= list);
    }
}

/// A pointer that goes from some layers to others tells those that it left before
/// those that it entered, and none of those that it stayed on.
pub proof fn law_leaving_comes_before_entering(
    p: PointerRecord,
    scene: Map<Seq<char>, LayerInput>,
    hits: Seq<Seq<char>>,
    left: Seq<Seq<char>>,
    entered: Seq<Seq<char>>,
    id: Seq<char>,
)
    requires
        left == without(p.hovered, reached_layers(scene, hits, "rollover"@)),
        entered == without(reached_layers(scene, hits, "rollover"@).reverse(), p.hovered),
    ensures
        hover_step(p, scene, hits).tags == layers_tags(scene, left, "rollout"@, Seq::empty())
            + layers_tags(scene, entered, "rollover"@, Seq::empty()),
        left.contains(id) <==> p.hovered.contains(id) && !reached_layers(
            scene,
            hits,
            "rollover"@,
        ).contains(id),
        entered.contains(id) <==> reached_layers(scene, hits, "rollover"@).contains(id)
            && !p.hovered.contains(id),
{
    let above = reached_layers(scene, hits, "rollover"@);
    let now = above.reverse();
    assert forall|t: Seq<char>| now.contains(t) <==> above.contains(t) by {
        if now.contains(t) {
            let k = choose|k: int| 0 <= k < now.len() && now[k] == t;
            assert(above[above.len() - 1 - k] == t);
        }
        if above.contains(t) {
            let k = choose|k: int| 0 <= k < above.len() && above[k] == t;
            assert(now[above.len() - 1 - k] == t);
        }
    }
    lemma_same_without(p.hovered, above, now);
    lemma_without_contains(p.hovered, above, id);
    lemma_without_contains(now, p.hovered, id);
}

proof fn lemma_same_without(list: Seq<Seq<char>>, a: Seq<Seq<char>>, b: Seq<Seq<char>>)
    requires
        forall|t: Seq<char>| a.contains(t) <==> b.contains(t),
    ensures
        without(list, a) == without(list, b),
    decreases list.len(),
{
    if list.len() > 0 {
        lemma_same_without(list.drop_last(), a, b);
    }
}

/// Pressing the left button starts a drag of the top layer exactly where that has
/// a place, may be dragged and has a handler for it. The layer is told that the
/// drag begins, and no layer is clicked.
pub proof fn law_pressing_starts_a_drag(
    p: PointerRecord,
    scene: Map<Seq<char>, LayerInput>,
    hits: Seq<Seq<char>>,
)
    ensures
        drag_starts(scene, hits) <==> hits.len() > 0 && scene.contains_key(hits[0])
            && scene[hits[0]].draggable && scene[hits[0]].placed && has_drag(scene, hits[0]),
        drag_starts(scene, hits) ==> ({
            let step = press_step(p, scene, hits);
            &&& step.pointer == (PointerRecord { drag: Some(hits[0]), ..p })
            &&& step.moves == seq![DragRecord::Start(hits[0])]
            &&& step.tags == layer_tags(
                scene,
                hits[0],
                "dragin"@,
                seq![("drag"@, "1"@), ("id"@, hits[0])],
            )
            &&& step.dispatch == layer_dispatch(scene, hits[0], "dragin"@)
        }),
{
}

/// Pressing the left button clicks the layers that a click reaches, from the
/// bottom up, where no drag starts; the pointer stays as it is.
pub proof fn law_pressing_clicks_layers(
    p: PointerRecord,
    scene: Map<Seq<char>, LayerInput>,
    hits: Seq<Seq<char>>,
)
    requires
        !drag_starts(scene, hits),
    ensures
        ({
            let step = press_step(p, scene, hits);
            let clicked = reached_layers(scene, hits, "click"@).reverse();
            &&& step.pointer == p
            &&& step.moves.len() == 0
            &&& step.tags == layers_tags(scene, clicked, "click"@, seq![("click"@, "1"@)])
            &&& step.dispatch == layers_dispatch(scene, clicked, "click"@)
        }),
{
}

/// A dragged layer follows while the button is held and is told so; when the
/// button goes up it is told that the drag ended. Without a drag nothing happens.
pub proof fn law_drags_follow_and_end(p: PointerRecord, scene: Map<Seq<char>, LayerInput>)
    ensures
        p.drag is None ==> follow_step(p, scene).pointer == p && drop_step(p, scene).pointer == p
            && follow_step(p, scene).tags.len() == 0 && drop_step(p, scene).tags.len() == 0
            && follow_step(p, scene).moves.len() == 0 && !follow_step(p, scene).dispatch.handled
            && !drop_step(p, scene).dispatch.handled,
        drop_step(p, scene).moves.len() == 0,
        p.drag matches Some(id) ==> {
            &&& follow_step(p, scene).pointer == p
            &&& follow_step(p, scene).moves == seq![DragRecord::Follow(id)]
            &&& follow_step(p, scene).tags == layer_tags(
                scene,
                id,
                "drag"@,
                seq![("drag"@, "1"@), ("id"@, id)],
            )
            &&& follow_step(p, scene).dispatch == layer_dispatch(scene, id, "drag"@)
            &&& drop_step(p, scene).pointer == (PointerRecord { drag: None, ..p })
            &&& drop_step(p, scene).tags == layer_tags(
                scene,
                id,
                "dragout"@,
                seq![("drag"@, "0"@), ("id"@, id)],
            )
            &&& drop_step(p, scene).dispatch == layer_dispatch(scene, id, "dragout"@)
        },
{
}

/// A pressed key runs the handler of its number, which is told the number and
/// whether it is one of the three mouse buttons; keys run in their order.
pub proof fn law_pressed_keys_run_their_handlers(
    pushes: Map<Seq<char>, EventHandler>,
    keys: Seq<u32>,
    key: u32,
)
    ensures
        push_tags(pushes, Seq::empty()).len() == 0,
        !push_needs_frame(pushes, Seq::empty()),
        ({
            let name = decimal_text(key as nat);
            let known = seq![
                ("key"@, name),
                (
                    "type"@,
                    if key == 1 || key == 2 || key == 3 {
                        "click"@
                    } else {
                        "key"@
                    },
                ),
            ];
            &&& pushes.contains_key(name) ==> push_tags(pushes, keys.push(key)) == push_tags(
                pushes,
                keys,
            ) + handler_tags(pushes[name]@, known)
            &&& !pushes.contains_key(name) ==> push_tags(pushes, keys.push(key)) == push_tags(
                pushes,
                keys,
            )
            &&& push_needs_frame(pushes, keys.push(key)) <==> push_needs_frame(pushes, keys) || (
            pushes.contains_key(name) && dispatched(pushes[name]@).needs_return_frame)
        }),
{
    assert(keys.push(key).drop_last() =~= keys);
    assert(keys.push(key).last() == key);
}

/// The left button is taken by a handler of key 1 where it was pressed.
pub proof fn law_left_pushes(pushes: Map<Seq<char>, EventHandler>, keys: Seq<u32>)
    ensures
        left_push(pushes, keys) <==> keys.contains(1u32) && pushes.contains_key("1"@),
        forall|key: u32| mouse_button(key) <==> key == 1 || key == 2 || key == 3,
{
    reveal_strlit("1");
    assert(decimal_text(1) =~= "1"@);
}

/// In a frame the pointer hovers first, is pressed then, drags, lets go, and last
/// come the keys; each begins where the one before ended, and what each queues
/// comes behind what was queued before it. Each happens only where its part of
/// the input says so.
pub proof fn law_input_comes_in_order(
    p: PointerRecord,
    down_edge: bool,
    up_edge: bool,
    down: bool,
    keys: Seq<u32>,
    hits: Seq<Seq<char>>,
    scene: Map<Seq<char>, LayerInput>,
    pushes: Map<Seq<char>, EventHandler>,
    wait: Option<WaitRecord>,
)
    ensures
        ({
            let o = pointer_outcome(p, down_edge, up_edge, down, keys, hits, scene, pushes, wait);
            let hover = hover_step(p, scene, hits);
            let press = press_step(hover.pointer, scene, hits);
            let pressed = if down_edge {
                press.pointer
            } else {
                hover.pointer
            };
            let none = Seq::<TagRecord>::empty();
            let press_tags = if down_edge {
                press.tags
            } else {
                none
            };
            let follow_tags = if down {
                follow_step(pressed, scene).tags
            } else {
                none
            };
            let drop_tags = if up_edge {
                drop_step(pressed, scene).tags
            } else {
                none
            };
            &&& o.pointer == (if up_edge {
                PointerRecord { drag: None, ..pressed }
            } else {
                pressed
            })
            &&& o.tags == hover.tags + press_tags + follow_tags + drop_tags + push_tags(
                pushes,
                keys,
            )
            &&& o.moves == (if down_edge {
                press.moves
            } else {
                Seq::empty()
            }) + (if down {
                follow_step(pressed, scene).moves
            } else {
                Seq::empty()
            })
            &&& o.needs_return_frame <==> hover.dispatch.needs_return_frame || (down_edge
                && press.dispatch.needs_return_frame) || (down && follow_step(
                pressed,
                scene,
            ).dispatch.needs_return_frame) || (up_edge && drop_step(
                pressed,
                scene,
            ).dispatch.needs_return_frame) || push_needs_frame(pushes, keys)
        }),
{
}

/// The script is clicked exactly where the left button went down and nobody took
/// it: no layer by a click, no drag that starts or runs, and no handler of the
/// button, unless a timed wait that takes input stands.
pub proof fn law_clicks_reach_the_script(
    p: PointerRecord,
    down_edge: bool,
    up_edge: bool,
    down: bool,
    keys: Seq<u32>,
    hits: Seq<Seq<char>>,
    scene: Map<Seq<char>, LayerInput>,
    pushes: Map<Seq<char>, EventHandler>,
    wait: Option<WaitRecord>,
)
    ensures
        ({
            let o = pointer_outcome(p, down_edge, up_edge, down, keys, hits, scene, pushes, wait);
            let clicked = reached_layers(scene, hits, "click"@).reverse();
            let drags = drag_starts(scene, hits) || (p.drag is Some && (down || up_edge));
            let timed = wait matches Some(WaitRecord::Timed { input, .. }) && input == 1;
            o.clicked <==> down_edge && !drags && !layers_dispatch(scene, clicked, "click"@).handled
                && (timed || !(keys.contains(1u32) && pushes.contains_key(decimal_text(1))))
        }),
{
}

/// An event that broke in is still to return while its place lies on the stack right
/// above what was there before.
pub proof fn law_events_return_to_their_place(
    frame: InlineEventFrame,
    below: Seq<(Seq<char>, usize)>,
    above: Seq<(Seq<char>, usize)>,
    place: (Seq<char>, usize),
)
    requires
        below.len() == frame.stack@.len(),
    ensures
        !marker_active(frame, below),
        marker_active(frame, below.push(place) + above) <==> place == (frame.script@, frame.line),
{
    assert((below.push(place) + above)[below.len() as int] == place);
}

} // verus!
