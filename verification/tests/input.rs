use art3m1s_core::name_map::NameMap;
use art3m1s_core::runtime::handlers::{
    dispatch_handler, dispatch_tween_handlers, enqueue_control_handler, enqueue_exec_input,
    enqueue_layer_handler, event_dispatch_layers, EventHandler, LayerInput, Tag,
};
use art3m1s_core::runtime::input::{
    begin_inline_event, detach_inline_event_marker, inline_event_marker_is_active, CallFrame,
    DragMove, InlineEventFrame, InputState, PointerInput, PointerState,
};
use art3m1s_core::runtime::telemetry::{capture_raw_bits, format_bits, format_keys, KeyBits, RawKey};

fn handler(tag: &str, penetration: bool) -> EventHandler {
    EventHandler {
        enabled: true,
        penetration,
        call: false,
        handler: Some(tag.to_string()),
        file: None,
        label: None,
        params: NameMap::new(),
    }
}

fn layer(event: &str, handler: EventHandler) -> LayerInput {
    let mut handlers = NameMap::new();
    handlers.insert(event, handler);
    LayerInput { draggable: false, placed: true, handlers }
}

#[test]
fn overlapping_events_only_include_penetrating_lower_layers_bottom_to_top() {
    let mut scene = NameMap::new();
    for (id, penetration) in [("lower", true), ("middle", false), ("top", false)] {
        scene.insert(id, layer("click", handler("calllua", penetration)));
    }
    let hits = vec!["top".into(), "middle".into(), "lower".into()];
    assert_eq!(
        event_dispatch_layers(&scene, &hits, "click"),
        vec!["lower".to_string(), "top".to_string()]
    );
}

fn frame(script: &str, return_line: usize) -> CallFrame {
    CallFrame { script: script.to_string(), return_line }
}

#[test]
fn nested_ui_events_reuse_the_existing_inline_return_frame() {
    let inline = InlineEventFrame {
        script: "system/ui.asb".into(),
        line: 80,
        stack: vec![frame("story.asb", 12)],
        committed: false,
    };
    assert!(inline_event_marker_is_active(
        &inline,
        &vec![
            frame("story.asb", 12),
            frame("system/ui.asb", 80),
            frame("system/script.asb", 21)
        ]
    ));
    assert!(inline_event_marker_is_active(
        &inline,
        &vec![frame("story.asb", 12), frame("system/ui.asb", 80)]
    ));
    assert!(!inline_event_marker_is_active(&inline, &vec![frame("story.asb", 12)]));
}

#[test]
fn detaching_committed_marker_preserves_nested_control_flow_frames() {
    let inline = InlineEventFrame {
        script: "system/ui.asb".into(),
        line: 80,
        stack: vec![frame("story.asb", 12)],
        committed: true,
    };
    let mut stack = vec![
        frame("story.asb", 12),
        frame("system/ui.asb", 80),
        frame("system/script.asb", 21),
    ];

    assert!(detach_inline_event_marker(&inline, &mut stack));
    assert_eq!(stack.len(), 2);
    assert_eq!(stack[0].script, "story.asb");
    assert_eq!(stack[1].script, "system/script.asb");
    assert_eq!(stack[1].return_line, 21);
}

#[test]
fn breaking_in_is_undone_by_detaching() {
    let (inline, mut stack) = begin_inline_event("ui.asb", 5, vec![frame("story.asb", 12)]);
    assert!(inline_event_marker_is_active(&inline, &stack));
    assert!(detach_inline_event_marker(&inline, &mut stack));
    assert_eq!(stack.len(), 1);
    assert_eq!(stack[0].script, "story.asb");
    assert!(!inline_event_marker_is_active(&inline, &stack));
}

fn names(queue: &[Tag]) -> Vec<&str> {
    queue.iter().map(|tag| tag.name.as_str()).collect()
}

#[test]
fn handlers_queue_their_tag_and_their_target() {
    let mut queue = Vec::new();
    let mut h = handler("calllua", false);
    h.params.insert("id", "old".to_string());
    let event = vec![("id".to_string(), "1".to_string())];
    let result = dispatch_handler(&mut queue, &h, &event);
    assert!(result.handled && result.needs_return_frame);
    assert_eq!(queue[0].params.get("id"), Some(&"1".to_string()));
    h.file = Some("a.asb".to_string());
    h.call = true;
    let result = dispatch_handler(&mut queue, &h, &event);
    assert!(!result.needs_return_frame);
    assert_eq!(names(&queue), vec!["calllua", "calllua", "call"]);
    assert_eq!(queue[2].params.get("file"), Some(&"a.asb".to_string()));
}

#[test]
fn engine_events_tell_their_name_or_their_key() {
    let mut queue = Vec::new();
    enqueue_exec_input(&mut queue, Some(&handler("h", false)), "push", "2");
    assert_eq!(queue[0].params.get("key"), Some(&"2".to_string()));
    assert_eq!(queue[0].params.get("type"), Some(&"click".to_string()));
    enqueue_control_handler(&mut queue, Some(&handler("h", false)), "hidein");
    assert_eq!(queue[1].params.get("type"), Some(&"hidein".to_string()));
    enqueue_control_handler(&mut queue, None, "hideout");
    assert_eq!(queue.len(), 2);
    let mut mark = handler("x", false);
    mark.handler = None;
    dispatch_tween_handlers(&mut queue, &vec![mark, handler("tween", false)]);
    assert_eq!(names(&queue), vec!["h", "h", "tween"]);
}

#[test]
fn disabled_handlers_take_nothing() {
    let mut scene = NameMap::new();
    let mut off = handler("h", false);
    off.enabled = false;
    scene.insert("1", layer("click", off));
    let mut queue = Vec::new();
    let result = enqueue_layer_handler(&mut queue, &scene, "1", "click", &Vec::new());
    assert!(!result.handled && queue.is_empty());
    assert!(!enqueue_layer_handler(&mut queue, &scene, "2", "click", &Vec::new()).handled);
}

#[test]
fn a_held_key_is_pressed_once() {
    let mut input = InputState::new();
    input.feed_key_down(65);
    assert!(input.keys_down_edge.contains(65));
    input.keys_down_edge.clear();
    input.feed_key_down(65);
    assert!(!input.keys_down_edge.contains(65));
    input.feed_key_up(65);
    assert!(input.keys_up_edge.contains(65));
    assert!(!input.keys_down.contains(65));
    input.feed_mouse(3, 4);
    assert_eq!((input.mouse_x, input.mouse_y), (3, 4));
    input.feed_click();
    assert!(input.clicked);
}

fn pointer(down_edge: bool, up_edge: bool, down: bool) -> PointerInput {
    PointerInput { left_down_edge: down_edge, left_up_edge: up_edge, left_down: down, key_edges: Vec::new() }
}

#[test]
fn a_click_on_a_layer_does_not_reach_the_script() {
    let mut scene = NameMap::new();
    scene.insert("button", layer("click", handler("calllua", false)));
    let pushes = NameMap::new();
    let mut state = PointerState::new();
    let mut queue = Vec::new();
    let mut moves = Vec::new();
    let hits = vec!["button".to_string()];
    let result = state.process_pointer_handlers(
        &pointer(true, false, true),
        &hits,
        &scene,
        &pushes,
        None,
        &mut queue,
        &mut moves,
    );
    assert!(!result.clicked);
    assert!(result.needs_return_frame);
    let result = PointerState::new().process_pointer_handlers(
        &pointer(true, false, true),
        &Vec::new(),
        &scene,
        &pushes,
        None,
        &mut queue,
        &mut moves,
    );
    assert!(result.clicked);
}

#[test]
fn releasing_the_button_ends_a_drag() {
    let mut scene = NameMap::new();
    let mut dragged = layer("drag", handler("calllua", false));
    dragged.draggable = true;
    scene.insert("slider", dragged);
    let pushes = NameMap::new();
    let mut state = PointerState::new();
    let mut queue = Vec::new();
    let mut moves = Vec::new();
    let hits = vec!["slider".to_string()];
    state.process_pointer_handlers(&pointer(true, false, true), &hits, &scene, &pushes, None, &mut queue, &mut moves);
    assert_eq!(state.drag, Some("slider".to_string()));
    assert!(matches!(&moves[0], DragMove::Start(id) if id == "slider"));
    state.process_pointer_handlers(&pointer(false, true, false), &hits, &scene, &pushes, None, &mut queue, &mut moves);
    assert_eq!(state.drag, None);
}

#[test]
fn traces_name_what_a_key_does() {
    let quiet = RawKey {
        code: 65,
        down: false,
        down_edge: false,
        up_edge: false,
        mouse_down: true,
        mouse_down_edge: true,
        mouse_up_edge: true,
        clicked: true,
        held_ms: None,
    };
    let none = capture_raw_bits(&quiet);
    assert_eq!(format_bits(&none), "0");
    let button = capture_raw_bits(&RawKey { code: 1, ..quiet });
    assert_eq!(format_bits(&button), "PUSH|DOWN|DOWN_EDGE|UP_EDGE|DECIDE");
    let held = capture_raw_bits(&RawKey { down: true, held_ms: Some(500), ..quiet });
    assert_eq!(format_bits(&held), "PUSH|DOWN");
    let fresh = capture_raw_bits(&RawKey { down: true, held_ms: Some(499), ..quiet });
    assert_eq!(fresh, KeyBits { push: false, down: true, down_edge: false, up_edge: false, decide: false, rest: 0 });
    assert_eq!(format_keys(&vec![(1, held), (65, fresh)]), "1:PUSH|DOWN, 65:DOWN");
    assert_eq!(format_keys(&Vec::new()), "-");
}
