//! Script handlers of events, and the tags that they queue.
use crate::name_map::{copy_text_map, text_map, NameMap};
use crate::strs::{copy_text, opt_text, texts};
use vstd::prelude::*;

verus! {

/// What a script set up for an event.
pub struct EventHandler {
    pub enabled: bool,
    /// Whether the event reaches the handler through layers above.
    pub penetration: bool,
    /// Whether the script is called or jumped to.
    pub call: bool,
    pub handler: Option<String>,
    pub file: Option<String>,
    pub label: Option<String>,
    pub params: NameMap<String>,
}

/// What a handler holds.
pub struct HandlerRecord {
    pub enabled: bool,
    pub penetration: bool,
    pub call: bool,
    pub handler: Option<Seq<char>>,
    pub file: Option<Seq<char>>,
    pub label: Option<Seq<char>>,
    pub params: Map<Seq<char>, Seq<char>>,
}

impl View for EventHandler {
    type V = HandlerRecord;

    open spec fn view(&self) -> HandlerRecord {
        HandlerRecord {
            enabled: self.enabled,
            penetration: self.penetration,
            call: self.call,
            handler: opt_text(self.handler),
            file: opt_text(self.file),
            label: opt_text(self.label),
            params: text_map(self.params),
        }
    }
}

impl EventHandler {
    /// No parameter is there twice.
    pub open spec fn wf(self) -> bool {
        self.params.wf()
    }
}

/// A script tag with its parameters.
pub struct Tag {
    pub name: String,
    pub params: NameMap<String>,
}

/// What a tag holds.
pub struct TagRecord {
    pub name: Seq<char>,
    pub params: Map<Seq<char>, Seq<char>>,
}

impl View for Tag {
    type V = TagRecord;

    open spec fn view(&self) -> TagRecord {
        TagRecord { name: self.name@, params: text_map(self.params) }
    }
}

/// The records of queued tags.
#[verifier::opaque]
pub open spec fn tag_records(queue: Seq<Tag>) -> Seq<TagRecord> {
    Seq::new(queue.len(), |i: int| queue[i]@)
}

/// More tags were queued behind the earlier ones.
pub open spec fn queued(before: Seq<Tag>, after: Seq<Tag>, more: Seq<TagRecord>) -> bool {
    tag_records(after) == tag_records(before) + more
}

fn push_tag(queue: &mut Vec<Tag>, tag: Tag)
    ensures
        queued(old(queue)@, final(queue)@, seq![tag@]),
{
    reveal(tag_records);
    queue.push(tag);
    assert(tag_records(queue@) =~= tag_records(old(queue)@) + seq![tag@]);
}

/// Nothing was queued.
pub proof fn lemma_queued_none(queue: Seq<Tag>)
    ensures
        queued(queue, queue, Seq::empty()),
{
    assert(tag_records(queue) + Seq::<TagRecord>::empty() =~= tag_records(queue));
}

/// What was queued in two steps was queued.
pub proof fn lemma_queued_both(
    a: Seq<Tag>,
    b: Seq<Tag>,
    c: Seq<Tag>,
    first: Seq<TagRecord>,
    second: Seq<TagRecord>,
)
    requires
        queued(a, b, first),
        queued(b, c, second),
    ensures
        queued(a, c, first + second),
{
    assert((tag_records(a) + first) + second =~= tag_records(a) + (first + second));
}

/// Pairs of a name and a value.
pub open spec fn pairs_view(pairs: Seq<(String, String)>) -> Seq<(Seq<char>, Seq<char>)> {
    Seq::new(pairs.len(), |i: int| (pairs[i].0@, pairs[i].1@))
}

/// Parameters with others put over them.
pub open spec fn with_params(
    params: Map<Seq<char>, Seq<char>>,
    more: Seq<(Seq<char>, Seq<char>)>,
) -> Map<Seq<char>, Seq<char>>
    decreases more.len(),
{
    if more.len() == 0 {
        params
    } else {
        with_params(params, more.drop_last()).insert(more.last().0, more.last().1)
    }
}

/// The parameters of a jump or call.
pub open spec fn target_params(file: Option<Seq<char>>, label: Option<Seq<char>>) -> Map<
    Seq<char>,
    Seq<char>,
> {
    let with_file = match file {
        Some(f) => Map::<Seq<char>, Seq<char>>::empty().insert("file"@, f),
        None => Map::empty(),
    };
    match label {
        Some(l) => with_file.insert("label"@, l),
        None => with_file,
    }
}

/// The tags that a handler queues: its own tag with what is known of the event,
/// then a jump or call where it has a target.
pub open spec fn handler_tags(h: HandlerRecord, event: Seq<(Seq<char>, Seq<char>)>) -> Seq<
    TagRecord,
> {
    let own = match h.handler {
        Some(name) => seq![TagRecord { name, params: with_params(h.params, event) }],
        None => Seq::empty(),
    };
    let target = if h.file is Some || h.label is Some {
        seq![
            TagRecord {
                name: if h.call {
                    "call"@
                } else {
                    "jump"@
                },
                params: target_params(h.file, h.label),
            },
        ]
    } else {
        Seq::empty()
    };
    own + target
}

/// What became of an event.
#[derive(Clone, Copy, Debug, PartialEq, Eq, Structural)]
pub struct HandlerDispatch {
    pub handled: bool,
    /// Whether the script needs a frame to return to.
    pub needs_return_frame: bool,
}

/// Nobody took the event.
pub open spec fn unhandled() -> HandlerDispatch {
    HandlerDispatch { handled: false, needs_return_frame: false }
}

/// A handler that only queues its own tag needs a frame to return to.
pub open spec fn dispatched(h: HandlerRecord) -> HandlerDispatch {
    HandlerDispatch {
        handled: true,
        needs_return_frame: h.handler is Some && h.file is None && h.label is None,
    }
}

fn overlay(params: &NameMap<String>, event: &Vec<(String, String)>) -> (out: NameMap<String>)
    requires
        params.wf(),
    ensures
        out.wf(),
        text_map(out) == with_params(text_map(*params), pairs_view(event@)),
{
    let mut out = copy_text_map(params);
    let mut i: usize = 0;
    let ghost all = pairs_view(event@);
    assert(all.take(0) =~= Seq::empty());
    while i < event.len()
        invariant
            i <= event.len(),
            all == pairs_view(event@),
            out.wf(),
            text_map(out) == with_params(text_map(*params), all.take(i as int)),
        decreases event.len() - i,
    {
        let ghost before = out;
        let value = copy_text(event[i].1.as_str());
        out.insert(event[i].0.as_str(), value);
        proof {
            assert(all.take(i + 1).drop_last() =~= all.take(i as int));
            assert(all.take(i + 1).last() == all[i as int]);
            assert(text_map(out) =~= text_map(before).insert(event@[i as int].0@, value@));
        }
        i += 1;
    }
    assert(all.take(i as int) =~= all);
    out
}

/// Queues the tags of a handler.
pub fn enqueue_handler_tags(
    queue: &mut Vec<Tag>,
    handler: &EventHandler,
    event: &Vec<(String, String)>,
)
    requires
        handler.wf(),
    ensures
        queued(old(queue)@, final(queue)@, handler_tags(handler@, pairs_view(event@))),
{
    let ghost start = queue@;
    let ghost own = Seq::<TagRecord>::empty();
    proof {
        lemma_queued_none(start);
    }
    if let Some(name) = &handler.handler {
        let tag = Tag { name: copy_text(name.as_str()), params: overlay(&handler.params, event) };
        proof {
            own = seq![tag@];
        }
        push_tag(queue, tag);
    }
    let ghost middle = queue@;
    let ghost target = Seq::<TagRecord>::empty();
    proof {
        lemma_queued_none(middle);
    }
    if handler.file.is_some() || handler.label.is_some() {
        let mut params: NameMap<String> = NameMap::new();
        assert(text_map(params) =~= Map::empty());
        if let Some(file) = &handler.file {
            let value = copy_text(file.as_str());
            params.insert("file", value);
            assert(text_map(params) =~= Map::<Seq<char>, Seq<char>>::empty().insert(
                "file"@,
                value@,
            ));
        }
        let ghost before = params;
        if let Some(label) = &handler.label {
            let value = copy_text(label.as_str());
            params.insert("label", value);
            assert(text_map(params) =~= text_map(before).insert("label"@, value@));
        }
        let name = if handler.call {
            copy_text("call")
        } else {
            copy_text("jump")
        };
        let tag = Tag { name, params };
        proof {
            target = seq![tag@];
        }
        push_tag(queue, tag);
    }
    proof {
        lemma_queued_both(start, middle, queue@, own, target);
    }
}

/// Queues the tags of a handler and says what became of the event.
pub fn dispatch_handler(
    queue: &mut Vec<Tag>,
    handler: &EventHandler,
    event: &Vec<(String, String)>,
) -> (out: HandlerDispatch)
    requires
        handler.wf(),
    ensures
        queued(old(queue)@, final(queue)@, handler_tags(handler@, pairs_view(event@))),
        out == dispatched(handler@),
{
    enqueue_handler_tags(queue, handler, event);
    HandlerDispatch {
        handled: true,
        needs_return_frame: handler.handler.is_some() && handler.file.is_none()
            && handler.label.is_none(),
    }
}

/// What is known of an event of the engine itself: a key that was pressed, or
/// the name of the event alone.
pub open spec fn engine_event(event: Seq<char>, key: Seq<char>) -> Seq<(Seq<char>, Seq<char>)> {
    if key.len() == 0 {
        seq![("type"@, event)]
    } else {
        seq![("key"@, key), ("type"@, "click"@)]
    }
}

/// The tags that an event queues, where a handler is set up for it.
pub open spec fn opt_handler_tags(
    handler: Option<&EventHandler>,
    event: Seq<(Seq<char>, Seq<char>)>,
) -> Seq<TagRecord> {
    match handler {
        Some(h) => handler_tags(h@, event),
        None => Seq::empty(),
    }
}

/// Queues the tags of the handler of an input event that a command stands for.
pub fn enqueue_exec_input(
    queue: &mut Vec<Tag>,
    handler: Option<&EventHandler>,
    event: &str,
    key: &str,
)
    requires
        handler matches Some(h) ==> h.wf(),
    ensures
        queued(
            old(queue)@,
            final(queue)@,
            opt_handler_tags(handler, engine_event(event@, key@)),
        ),
{
    let h = match handler {
        Some(h) => h,
        None => {
            proof {
                lemma_queued_none(queue@);
            }
            return;
        },
    };
    let mut known: Vec<(String, String)> = Vec::new();
    if key.is_empty() {
        known.push((copy_text("type"), copy_text(event)));
    } else {
        known.push((copy_text("key"), copy_text(key)));
        known.push((copy_text("type"), copy_text("click")));
    }
    assert(pairs_view(known@) =~= engine_event(event@, key@));
    enqueue_handler_tags(queue, h, &known);
}

/// Queues the tags of the handler of a change of the modes.
pub fn enqueue_control_handler(queue: &mut Vec<Tag>, handler: Option<&EventHandler>, event: &str)
    requires
        handler matches Some(h) ==> h.wf(),
    ensures
        queued(
            old(queue)@,
            final(queue)@,
            opt_handler_tags(handler, engine_event(event@, Seq::empty())),
        ),
{
    proof {
        reveal_strlit("");
        assert(""@ =~= Seq::<char>::empty());
    }
    enqueue_exec_input(queue, handler, event, "");
}

/// What the end of several movements queues, one after the other. A mark
/// without a handler and without a target queues nothing.
pub open spec fn tween_tags(handlers: Seq<EventHandler>) -> Seq<TagRecord>
    decreases handlers.len(),
{
    if handlers.len() == 0 {
        Seq::empty()
    } else {
        tween_tags(handlers.drop_last()) + handler_tags(handlers.last()@, Seq::empty())
    }
}

/// Queues the tags of the handlers of movements that ended.
pub fn dispatch_tween_handlers(queue: &mut Vec<Tag>, handlers: &Vec<EventHandler>)
    requires
        forall|i: int| 0 <= i < handlers@.len() ==> (#[trigger] handlers@[i]).wf(),
    ensures
        queued(old(queue)@, final(queue)@, tween_tags(handlers@)),
{
    let none: Vec<(String, String)> = Vec::new();
    let ghost start = queue@;
    let mut i: usize = 0;
    proof {
        lemma_queued_none(start);
        assert(handlers@.take(0) =~= Seq::empty());
        assert(pairs_view(none@) =~= Seq::empty());
    }
    while i < handlers.len()
        invariant
            i <= handlers.len(),
            forall|j: int| 0 <= j < handlers@.len() ==> (#[trigger] handlers@[j]).wf(),
            pairs_view(none@) == Seq::<(Seq<char>, Seq<char>)>::empty(),
            queued(start, queue@, tween_tags(handlers@.take(i as int))),
        decreases handlers.len() - i,
    {
        let ghost middle = queue@;
        enqueue_handler_tags(queue, &handlers[i], &none);
        proof {
            assert(handlers@.take(i + 1).drop_last() =~= handlers@.take(i as int));
            assert(handlers@.take(i + 1).last() == handlers@[i as int]);
            lemma_queued_both(
                start,
                middle,
                queue@,
                tween_tags(handlers@.take(i as int)),
                handler_tags(handlers@[i as int]@, Seq::empty()),
            );
        }
        i += 1;
    }
    assert(handlers@.take(i as int) =~= handlers@);
}

/// What a layer answers to.
pub struct LayerInput {
    pub draggable: bool,
    /// Whether the layer has a place to be dragged from.
    pub placed: bool,
    /// The handlers by event.
    pub handlers: NameMap<EventHandler>,
}

/// The layers of a scene.
pub open spec fn scene_wf(scene: NameMap<LayerInput>) -> bool {
    &&& scene.wf()
    &&& forall|id: Seq<char>, event: Seq<char>|
        scene@.contains_key(id) && #[trigger] scene@[id].handlers@.contains_key(event)
            ==> scene@[id].handlers@[event].wf()
}

/// The handler of a layer for an event, where the layer has one that is enabled.
pub open spec fn layer_handler(
    scene: Map<Seq<char>, LayerInput>,
    id: Seq<char>,
    event: Seq<char>,
) -> Option<HandlerRecord> {
    if scene.contains_key(id) && scene[id].handlers@.contains_key(event)
        && scene[id].handlers@[event].enabled {
        Some(scene[id].handlers@[event]@)
    } else {
        None
    }
}

/// What an event of a layer queues.
pub open spec fn layer_tags(
    scene: Map<Seq<char>, LayerInput>,
    id: Seq<char>,
    event: Seq<char>,
    params: Seq<(Seq<char>, Seq<char>)>,
) -> Seq<TagRecord> {
    match layer_handler(scene, id, event) {
        Some(h) => handler_tags(h, params),
        None => Seq::empty(),
    }
}

/// What becomes of an event of a layer.
pub open spec fn layer_dispatch(
    scene: Map<Seq<char>, LayerInput>,
    id: Seq<char>,
    event: Seq<char>,
) -> HandlerDispatch {
    match layer_handler(scene, id, event) {
        Some(h) => dispatched(h),
        None => unhandled(),
    }
}

/// Sends an event to a layer.
pub fn enqueue_layer_handler(
    queue: &mut Vec<Tag>,
    scene: &NameMap<LayerInput>,
    layer_id: &str,
    event_type: &str,
    params: &Vec<(String, String)>,
) -> (out: HandlerDispatch)
    requires
        scene_wf(*scene),
    ensures
        queued(
            old(queue)@,
            final(queue)@,
            layer_tags(scene@, layer_id@, event_type@, pairs_view(params@)),
        ),
        out == layer_dispatch(scene@, layer_id@, event_type@),
{
    proof {
        lemma_queued_none(queue@);
    }
    if let Some(layer) = scene.get(layer_id) {
        if let Some(handler) = layer.handlers.get(event_type) {
            assert(scene@[layer_id@].handlers@.contains_key(event_type@));
            if handler.enabled {
                return dispatch_handler(queue, handler, params);
            }
        }
    }
    HandlerDispatch { handled: false, needs_return_frame: false }
}

/// Whether a layer has a handler for dragging.
pub open spec fn has_drag(scene: Map<Seq<char>, LayerInput>, id: Seq<char>) -> bool {
    layer_handler(scene, id, "drag"@) is Some || layer_handler(scene, id, "dragin"@) is Some
        || layer_handler(scene, id, "dragout"@) is Some
}

fn layer_takes(scene: &NameMap<LayerInput>, layer_id: &str, event_type: &str) -> (out: bool)
    ensures
        out == (layer_handler(scene@, layer_id@, event_type@) is Some),
{
    match scene.get(layer_id) {
        Some(layer) => match layer.handlers.get(event_type) {
            Some(handler) => handler.enabled,
            None => false,
        },
        None => false,
    }
}

pub fn has_drag_handler(scene: &NameMap<LayerInput>, layer_id: &str) -> (out: bool)
    ensures
        out == has_drag(scene@, layer_id@),
{
    layer_takes(scene, layer_id, "drag") || layer_takes(scene, layer_id, "dragin") || layer_takes(
        scene,
        layer_id,
        "dragout",
    )
}

/// Whether the event reaches the layer at place `index` of the hit layers: the
/// top one, or one below that lets events through to it.
pub open spec fn reached(
    scene: Map<Seq<char>, LayerInput>,
    id: Seq<char>,
    event: Seq<char>,
    index: int,
) -> bool {
    layer_handler(scene, id, event) matches Some(h) && (index == 0 || h.penetration)
}

/// The layers that an event reaches, from the top down.
pub open spec fn reached_layers(
    scene: Map<Seq<char>, LayerInput>,
    hits: Seq<Seq<char>>,
    event: Seq<char>,
) -> Seq<Seq<char>>
    decreases hits.len(),
{
    if hits.len() == 0 {
        Seq::empty()
    } else {
        let above = reached_layers(scene, hits.drop_last(), event);
        if reached(scene, hits.last(), event, hits.len() - 1) {
            above.push(hits.last())
        } else {
            above
        }
    }
}

/// The layers that an event reaches, from the bottom up. `hits` lists the layers
/// under the pointer from the top down.
pub fn event_dispatch_layers(
    scene: &NameMap<LayerInput>,
    hits: &Vec<String>,
    event_type: &str,
) -> (out: Vec<String>)
    ensures
        texts(out@) == reached_layers(scene@, texts(hits@), event_type@).reverse(),
{
    let mut out: Vec<String> = Vec::new();
    let mut i: usize = 0;
    let ghost all = texts(hits@);
    assert(texts(out@) =~= reached_layers(scene@, all.take(0), event_type@).reverse());
    while i < hits.len()
        invariant
            i <= hits.len(),
            all == texts(hits@),
            texts(out@) == reached_layers(scene@, all.take(i as int), event_type@).reverse(),
        decreases hits.len() - i,
    {
        proof {
            assert(all.take(i + 1).drop_last() =~= all.take(i as int));
            assert(all.take(i + 1).last() == hits@[i as int]@);
        }
        let id = hits[i].as_str();
        let mut takes = false;
        if let Some(layer) = scene.get(id) {
            if let Some(handler) = layer.handlers.get(event_type) {
                takes = handler.enabled && (i == 0 || handler.penetration);
            }
        }
        if takes {
            let ghost before = out@;
            let owned = copy_text(id);
            out.insert(0, owned);
            proof {
                let above = reached_layers(scene@, all.take(i as int), event_type@);
                assert(texts(out@) =~= seq![owned@] + texts(before));
                assert(above.push(id@).reverse() =~= seq![id@] + above.reverse());
            }
        }
        i += 1;
    }
    assert(all.take(i as int) =~= all);
    out
}

/// Only the top layer and layers that let events through are reached.
pub proof fn law_lower_layers_need_penetration(
    scene: Map<Seq<char>, LayerInput>,
    hits: Seq<Seq<char>>,
    event: Seq<char>,
    id: Seq<char>,
)
    requires
        reached_layers(scene, hits, event).contains(id),
    ensures
        hits.contains(id),
        layer_handler(scene, id, event) is Some,
        id == hits[0] || layer_handler(scene, id, event)->0.penetration,
    decreases hits.len(),
{
    let short = hits.drop_last();
    let above = reached_layers(scene, short, event);
    let k = choose|k: int|
        0 <= k < reached_layers(scene, hits, event).len() && reached_layers(scene, hits, event)[k]
            == id;
    if k < above.len() {
        assert(above[k] == id);
        law_lower_layers_need_penetration(scene, short, event, id);
        let m = choose|m: int| 0 <= m < short.len() && short[m] == id;
        assert(hits[m] == id);
    } else {
        assert(hits[hits.len() - 1] == id);
    }
}

/// What an event of several layers queues, one layer after the other.
pub open spec fn layers_tags(
    scene: Map<Seq<char>, LayerInput>,
    ids: Seq<Seq<char>>,
    event: Seq<char>,
    params: Seq<(Seq<char>, Seq<char>)>,
) -> Seq<TagRecord>
    decreases ids.len(),
{
    if ids.len() == 0 {
        Seq::empty()
    } else {
        layers_tags(scene, ids.drop_last(), event, params) + layer_tags(
            scene,
            ids.last(),
            event,
            params,
        )
    }
}

/// What becomes of an event of several layers.
pub open spec fn layers_dispatch(
    scene: Map<Seq<char>, LayerInput>,
    ids: Seq<Seq<char>>,
    event: Seq<char>,
) -> HandlerDispatch
    decreases ids.len(),
{
    if ids.len() == 0 {
        unhandled()
    } else {
        merged(
            layers_dispatch(scene, ids.drop_last(), event),
            layer_dispatch(scene, ids.last(), event),
        )
    }
}

/// What became of two events together.
pub open spec fn merged(a: HandlerDispatch, b: HandlerDispatch) -> HandlerDispatch {
    HandlerDispatch {
        handled: a.handled || b.handled,
        needs_return_frame: a.needs_return_frame || b.needs_return_frame,
    }
}

impl HandlerDispatch {
    pub fn none() -> (out: Self)
        ensures
            out == unhandled(),
    {
        HandlerDispatch { handled: false, needs_return_frame: false }
    }

    pub fn merge(self, other: HandlerDispatch) -> (out: Self)
        ensures
            out == merged(self, other),
    {
        HandlerDispatch {
            handled: self.handled || other.handled,
            needs_return_frame: self.needs_return_frame || other.needs_return_frame,
        }
    }
}

/// Sends an event to several layers, one after the other.
pub fn enqueue_layers(
    queue: &mut Vec<Tag>,
    scene: &NameMap<LayerInput>,
    ids: &Vec<String>,
    event_type: &str,
    params: &Vec<(String, String)>,
) -> (out: HandlerDispatch)
    requires
        scene_wf(*scene),
    ensures
        queued(
            old(queue)@,
            final(queue)@,
            layers_tags(scene@, texts(ids@), event_type@, pairs_view(params@)),
        ),
        out == layers_dispatch(scene@, texts(ids@), event_type@),
{
    let ghost start = queue@;
    let ghost all = texts(ids@);
    let ghost p = pairs_view(params@);
    let mut out = HandlerDispatch::none();
    let mut i: usize = 0;
    proof {
        lemma_queued_none(start);
        assert(all.take(0) =~= Seq::empty());
    }
    while i < ids.len()
        invariant
            i <= ids.len(),
            all == texts(ids@),
            p == pairs_view(params@),
            scene_wf(*scene),
            queued(start, queue@, layers_tags(scene@, all.take(i as int), event_type@, p)),
            out == layers_dispatch(scene@, all.take(i as int), event_type@),
        decreases ids.len() - i,
    {
        let ghost middle = queue@;
        let one = enqueue_layer_handler(queue, scene, ids[i].as_str(), event_type, params);
        proof {
            assert(all.take(i + 1).drop_last() =~= all.take(i as int));
            assert(all.take(i + 1).last() == ids@[i as int]@);
            lemma_queued_both(
                start,
                middle,
                queue@,
                layers_tags(scene@, all.take(i as int), event_type@, p),
                layer_tags(scene@, ids@[i as int]@, event_type@, p),
            );
        }
        out = out.merge(one);
        i += 1;
    }
    assert(all.take(i as int) =~= all);
    out
}

// ── What handlers queue ────────────────────────────────────────

/// What is queued comes behind what was queued before, in its own order, and
/// leaves that as it was.
pub proof fn law_queued_tags_come_last(before: Seq<Tag>, after: Seq<Tag>, more: Seq<TagRecord>)
    requires
        queued(before, after, more),
    ensures
        after.len() == before.len() + more.len(),
        forall|i: int| 0 <= i < before.len() ==> (#[trigger] after[i])@ == before[i]@,
        forall|i: int|
            0 <= i < more.len() ==> (#[trigger] after[before.len() + i])@ == more[i],
{
    reveal(tag_records);
    let all = tag_records(after);
    let first = tag_records(before);
    assert(all == first + more);
    assert(all.len() == after.len());
    assert forall|i: int| 0 <= i < before.len() implies (#[trigger] after[i])@ == before[i]@ by {
        assert(all[i] == after[i]@);
        assert(all[i] == first[i]);
    }
    assert forall|i: int| 0 <= i < more.len() implies (#[trigger] after[before.len() + i])@
        == more[i] by {
        assert(all[before.len() + i] == after[before.len() + i]@);
        assert(all[before.len() + i] == more[i]);
    }
}

/// What is known of an event goes over a handler's own parameters: the last value
/// of a name counts, and a parameter that the event does not name stays.
pub proof fn law_event_goes_over_parameters(
    params: Map<Seq<char>, Seq<char>>,
    event: Seq<(Seq<char>, Seq<char>)>,
    key: Seq<char>,
)
    ensures
        (forall|i: int| 0 <= i < event.len() ==> (#[trigger] event[i]).0 != key) ==> (with_params(
            params,
            event,
        ).contains_key(key) <==> params.contains_key(key)) && (params.contains_key(key)
            ==> with_params(params, event)[key] == params[key]),
        forall|i: int|
            0 <= i < event.len() && (#[trigger] event[i]).0 == key && (forall|j: int|
                i < j < event.len() ==> (#[trigger] event[j]).0 != key) ==> with_params(
                params,
                event,
            ).contains_key(key) && with_params(params, event)[key] == event[i].1,
    decreases event.len(),
{
    if event.len() > 0 {
        let rest = event.drop_last();
        law_event_goes_over_parameters(params, rest, key);
        let last = event[event.len() - 1];
        assert(event.last() == last);
        assert forall|i: int| 0 <= i < rest.len() implies #[trigger] rest[i] == event[i] by {}
        if last.0 != key {
            if forall|i: int| 0 <= i < event.len() ==> (#[trigger] event[i]).0 != key {
                assert forall|i: int| 0 <= i < rest.len() implies (#[trigger] rest[i]).0 != key by {
                    assert(rest[i] == event[i]);
                }
            }
        }
        assert forall|i: int|
            0 <= i < event.len() && (#[trigger] event[i]).0 == key && (forall|j: int|
                i < j < event.len() ==> (#[trigger] event[j]).0 != key) implies with_params(
            params,
            event,
        ).contains_key(key) && with_params(params, event)[key] == event[i].1 by {
            if i < rest.len() {
                assert(event[event.len() - 1].0 != key);
                assert(rest[i].0 == key);
                assert forall|j: int| i < j < rest.len() implies (#[trigger] rest[j]).0 != key by {
                    assert(event[j].0 != key);
                }
            }
        }
    }
}

/// A handler queues its own tag, with what is known of the event, and behind it a
/// tag that goes to its target. Each is there exactly where the handler has it.
/// The target's tag holds the file where there is one and the label where there is
/// one, each whatever the other, and nothing else; it calls where the handler
/// calls and jumps else.
pub proof fn law_handlers_go_to_their_targets(
    h: HandlerRecord,
    event: Seq<(Seq<char>, Seq<char>)>,
)
    ensures
        ({
            let tags = handler_tags(h, event);
            let has_target = h.file is Some || h.label is Some;
            let own: int = if h.handler is Some {
                1
            } else {
                0
            };
            let last = tags[own];
            &&& tags.len() == own + (if has_target {
                1int
            } else {
                0
            })
            &&& h.handler matches Some(name) ==> tags[0].name == name && tags[0].params
                == with_params(h.params, event)
            &&& has_target ==> {
                &&& last.name == (if h.call {
                    "call"@
                } else {
                    "jump"@
                })
                &&& forall|key: Seq<char>| #[trigger]
                    last.params.contains_key(key) <==> (key == "file"@ && h.file is Some) || (key
                        == "label"@ && h.label is Some)
                &&& h.file matches Some(file) ==> last.params["file"@] == file
                &&& h.label matches Some(label) ==> last.params["label"@] == label
            }
        }),
{
    reveal_strlit("file");
    reveal_strlit("label");
    assert("file"@.len() != "label"@.len());
}

/// An event is handled by the handler that gets it, and the script needs a frame
/// to return to exactly where the handler has a tag of its own and no target.
pub proof fn law_handlers_without_targets_return(h: HandlerRecord)
    ensures
        dispatched(h).handled,
        dispatched(h).needs_return_frame <==> h.handler is Some && h.file is None && h.label
            is None,
        !unhandled().handled,
        !unhandled().needs_return_frame,
{
}

/// An event of the engine tells its name where no key is meant, and else the key
/// and that it was clicked.
pub proof fn law_engine_events_name_their_keys(event: Seq<char>, key: Seq<char>)
    ensures
        key.len() == 0 ==> engine_event(event, key) == seq![("type"@, event)],
        key.len() > 0 ==> engine_event(event, key) == seq![("key"@, key), ("type"@, "click"@)],
{
}

/// Without a handler an event queues nothing, and with one what the handler
/// queues.
pub proof fn law_events_need_handlers(
    handler: Option<&EventHandler>,
    event: Seq<(Seq<char>, Seq<char>)>,
)
    ensures
        handler is None ==> opt_handler_tags(handler, event).len() == 0,
        handler matches Some(h) ==> opt_handler_tags(handler, event) == handler_tags(h@, event),
{
}

/// Movements that end queue their tags one after the other, and tell nothing of an
/// event.
pub proof fn law_movements_end_in_order(first: Seq<EventHandler>, second: Seq<EventHandler>)
    ensures
        tween_tags(first + second) == tween_tags(first) + tween_tags(second),
        second.len() == 1 ==> tween_tags(second) == handler_tags(second[0]@, Seq::empty()),
    decreases second.len(),
{
    let all = first + second;
    if second.len() == 0 {
        assert(all =~= first);
        assert(tween_tags(first) + tween_tags(second) =~= tween_tags(first));
    } else {
        law_movements_end_in_order(first, second.drop_last());
        assert(all.drop_last() =~= first + second.drop_last());
        assert(all.last() == second.last());
        let last = handler_tags(second.last()@, Seq::empty());
        assert(tween_tags(first) + (tween_tags(second.drop_last()) + last) =~= (tween_tags(first)
            + tween_tags(second.drop_last())) + last);
        if second.len() == 1 {
            assert(second.drop_last() =~= Seq::empty());
            assert(Seq::<TagRecord>::empty() + last =~= last);
        }
    }
}

/// A layer answers to an event where it is there and has a handler for it that is
/// enabled, with that handler.
pub proof fn law_layers_answer_by_their_handlers(
    scene: Map<Seq<char>, LayerInput>,
    id: Seq<char>,
    event: Seq<char>,
    params: Seq<(Seq<char>, Seq<char>)>,
)
    ensures
        ({
            let answers = scene.contains_key(id) && scene[id].handlers@.contains_key(event)
                && scene[id].handlers@[event].enabled;
            let own = scene[id].handlers@[event]@;
            &&& layer_handler(scene, id, event) is Some <==> answers
            &&& answers ==> layer_handler(scene, id, event) == Some(own) && layer_tags(
                scene,
                id,
                event,
                params,
            ) == handler_tags(own, params) && layer_dispatch(scene, id, event) == dispatched(own)
            &&& !answers ==> layer_tags(scene, id, event, params).len() == 0 && layer_dispatch(
                scene,
                id,
                event,
            ) == unhandled()
        }),
{
}

/// A layer can be dragged by a handler for any part of a drag.
pub proof fn law_drags_need_a_handler(scene: Map<Seq<char>, LayerInput>, id: Seq<char>)
    ensures
        has_drag(scene, id) <==> (layer_handler(scene, id, "dragin"@) is Some || layer_handler(
            scene,
            id,
            "drag"@,
        ) is Some || layer_handler(scene, id, "dragout"@) is Some),
{
}

/// Of the layers under the pointer an event reaches exactly the top one, where it
/// answers, and each one below whose handler lets the event through, in the order
/// of the layers.
pub proof fn law_events_reach_layers(
    scene: Map<Seq<char>, LayerInput>,
    hits: Seq<Seq<char>>,
    event: Seq<char>,
    below: Seq<char>,
)
    ensures
        reached_layers(scene, Seq::empty(), event).len() == 0,
        ({
            let through = layer_handler(scene, below, event) matches Some(h) && (hits.len() == 0
                || h.penetration);
            reached_layers(scene, hits.push(below), event) == (if through {
                reached_layers(scene, hits, event).push(below)
            } else {
                reached_layers(scene, hits, event)
            })
        }),
{
    assert(hits.push(below).drop_last() =~= hits);
    assert(hits.push(below).last() == below);
}

/// An event of several layers queues what each of them queues, in their order, and
/// is handled where one of them handles it.
pub proof fn law_layers_answer_in_order(
    scene: Map<Seq<char>, LayerInput>,
    ids: Seq<Seq<char>>,
    id: Seq<char>,
    event: Seq<char>,
    params: Seq<(Seq<char>, Seq<char>)>,
)
    ensures
        layers_tags(scene, Seq::empty(), event, params).len() == 0,
        layers_dispatch(scene, Seq::empty(), event) == unhandled(),
        layers_tags(scene, ids.push(id), event, params) == layers_tags(scene, ids, event, params)
            + layer_tags(scene, id, event, params),
        ({
            let all = layers_dispatch(scene, ids.push(id), event);
            let before = layers_dispatch(scene, ids, event);
            let last = layer_dispatch(scene, id, event);
            &&& all.handled <==> before.handled || last.handled
            &&& all.needs_return_frame <==> before.needs_return_frame || last.needs_return_frame
        }),
{
    assert(ids.push(id).drop_last() =~= ids);
}

/// Two events together are handled where one is, and need a frame to return to
/// where one does.
pub proof fn law_dispatches_are_merged(a: HandlerDispatch, b: HandlerDispatch)
    ensures
        merged(a, b).handled <==> a.handled || b.handled,
        merged(a, b).needs_return_frame <==> a.needs_return_frame || b.needs_return_frame,
{
}

} // verus!
