use art3m1s_core::ffi::text_inject::TextInjectResult;
use art3m1s_core::name_map::NameMap;
use art3m1s_core::runtime::backlog::{
    build_backlog_snapshot, BacklogConfig, BacklogMirror, BacklogSettings, BacklogSnapshot,
    FoundTags, PageTags,
};
use art3m1s_core::runtime::text::{
    active_binding, advance_text, apply_text_event, asked_font, build_text_commands, font_fallback_candidates,
    fonts_to_try, injected_text, message_layer_binding, message_layer_scene_id, open_ruby,
    LayerBinding, LayerDrawing, TextEvent,
};
use art3m1s_core::runtime::translation::{
    text_span_ready, PendingScenarioText, TextSpanToken, Translations,
};
use art3m1s_core::text::atlas::{parse, Atlas};
use art3m1s_core::text::font::FontDesc;
use art3m1s_core::text::render::{
    char_phase, CharPhase, ScetweenConfig, ScetweenMode, ScetweenSetMode, TextAlignment,
};
use art3m1s_core::text::state::FontState;
use art3m1s_core::text::stub::StubTextRenderer;

fn map(pairs: &[(&str, &str)]) -> NameMap<String> {
    let mut out = NameMap::new();
    for (key, value) in pairs {
        out.insert(key, value.to_string());
    }
    out
}

#[test]
fn advance_reveal_no_scetween_reveals_all() {
    let mut s = StubTextRenderer::new();
    s.push_text("Hello");
    assert!(!s.is_reveal_complete());

    s.advance_reveal(0);
    assert!(s.is_reveal_complete());
    let layer = s.state.layers.get("adv01").unwrap();
    assert_eq!(layer.reveal_index, 5);
}

#[test]
fn advance_reveal_with_scetween_delay() {
    let mut s = StubTextRenderer::new();
    s.push_text("ABC");
    s.set_scetween(ScetweenConfig {
        mode: ScetweenMode::In,
        delay_per_char: 100,
        ..Default::default()
    });

    s.advance_reveal(50);
    assert!(!s.is_reveal_complete());

    s.advance_reveal(100);
    assert!(!s.is_reveal_complete());

    s.advance_reveal(200);
    assert!(s.is_reveal_complete());
    assert_eq!(s.state.layers.get("adv01").unwrap().reveal_index, 3);
}

#[test]
fn reveal_all_immediately_shows_all() {
    let mut s = StubTextRenderer::new();
    s.push_text("Hello, World!");
    assert!(!s.is_reveal_complete());

    s.reveal_all();
    assert!(s.is_reveal_complete());
    assert_eq!(s.state.layers.get("adv01").unwrap().reveal_index, 13);
}

#[test]
fn hide_and_show_text() {
    let mut s = StubTextRenderer::new();
    s.push_text("Test");
    s.reveal_all();

    s.hide_text();
    assert_eq!(s.state.layers.get("adv01").unwrap().reveal_index, 0);

    s.show_text();
    assert!(s.state.layers.get("adv01").unwrap().reveal_pending);
}

#[test]
fn medium_font_fallbacks_stay_in_the_same_family() {
    assert_eq!(
        font_fallback_candidates("font/sourcehansans-medium.otf"),
        vec!["font/sourcehansans-regular.otf", "font/sourcehansans-bold.otf"]
    );
    assert_eq!(
        font_fallback_candidates("font/ui_medium.ttf"),
        vec!["font/ui_regular.ttf", "font/ui_bold.ttf"]
    );
    assert!(font_fallback_candidates("font/story.otf").is_empty());
}

#[test]
fn a_loaded_font_is_not_tried_again() {
    assert_eq!(fonts_to_try(&Some("a.otf".to_string()), "a.otf"), None);
    assert_eq!(
        fonts_to_try(&None, "A-Medium"),
        Some(vec!["A-Medium".to_string(), "A-regular".to_string(), "A-bold".to_string()])
    );
}

#[test]
fn async_translation_waits_for_reveal_and_expires_after_page_change() {
    let mut state = FontState::new();
    let layer = state.active_layer_mut();
    layer.reveal_pending = true;
    let span = TextSpanToken {
        layer_id: layer.id.clone(),
        generation: layer.generation,
        start: 0,
        end: 0,
    };

    assert_eq!(text_span_ready(&state, &span), Some(false));
    state.active_layer_mut().reveal_pending = false;
    assert_eq!(text_span_ready(&state, &span), Some(true));
    state.active_layer_mut().clear_page();
    assert_eq!(text_span_ready(&state, &span), None);
}

#[test]
fn translations_are_asked_for_once() {
    let mut state = FontState::new();
    let id = state.active_layer_mut().id.clone();
    let generation = state.active_layer_mut().generation;
    let span = |start, end| TextSpanToken { layer_id: id.clone(), generation, start, end };
    let ask = |source: &str, start, end| PendingScenarioText {
        source: source.to_string(),
        ruby: None,
        span: Some(span(start, end)),
    };
    let mut translations = Translations::new();
    let request = translations.begin_text_translation(ask("a", 0, 1));
    let value: serde_json::Value = serde_json::from_str(&request).unwrap();
    let first = value["serial"].as_u64().unwrap();
    let request = translations.begin_text_translation(ask("b", 1, 2));
    let second = serde_json::from_str::<serde_json::Value>(&request).unwrap()["serial"].as_u64().unwrap();
    assert!(translations.submit_text_translation(first, Some("AAA")));
    assert!(!translations.submit_text_translation(first + 100, Some("x")));
    assert_eq!(translations.apply_ready_text_translations(&state), vec![first]);
    let (text, replaced) = translations.take(first).unwrap();
    assert_eq!(text, "AAA");
    translations.shift_spans(&replaced, 2);
    assert!(translations.submit_text_translation(second, Some("B")));
    let (_, shifted) = translations.take(second).unwrap();
    assert_eq!((shifted.start, shifted.end), (3, 4));
    assert!(!translations.submit_text_translation(first, Some("again")));
    translations.clear_pending_text_translation();
    assert!(translations.take(second).is_none());
}

fn tags(plain: &[&str], with_fonts: &[&str]) -> PageTags {
    PageTags {
        plain: plain.iter().map(|t| t.to_string()).collect(),
        with_fonts: with_fonts.iter().map(|t| t.to_string()).collect(),
    }
}

#[test]
fn snapshot_accessors_follow_pseudo_array_conventions() {
    let mut snap = BacklogSnapshot::new();
    snap.pages.push(tags(
        &["[print data=\"页0\"]"],
        &["[font size=\"40\"]", "[print data=\"页0\"]"],
    ));
    snap.message_layers.insert(
        "adv01",
        tags(&["[print data=\"当前\"]"], &["[font size=\"40\"]", "[print data=\"当前\"]"]),
    );

    assert_eq!(snap.backlog_size(), 1);
    assert_eq!(snap.backlog_tags(0, false).unwrap(), vec!["[print data=\"页0\"]"]);
    assert_eq!(snap.backlog_tags(0, true).unwrap().len(), 2);
    assert!(snap.backlog_tags(1, false).is_none());
    assert_eq!(snap.message_tags("adv01", false).unwrap(), vec!["[print data=\"当前\"]"]);
    assert_eq!(snap.message_tags("adv01", true).unwrap().len(), 2);
    assert!(snap.message_tags("missing", false).is_none());
}

fn found(plain: &[&str], with_fonts: Option<&[&str]>) -> FoundTags {
    FoundTags {
        plain: Some(plain.iter().map(|t| t.to_string()).collect()),
        with_fonts: with_fonts.map(|list| list.iter().map(|t| t.to_string()).collect()),
    }
}

#[test]
fn build_snapshot_extracts_backlog_pages_and_message_tags() {
    let pages = vec![
        found(&["[print data=\"第一页\"]"], None),
        found(&["[print data=\"第二页\"]"], None),
    ];
    let mut layers = NameMap::new();
    layers.insert("adv01", found(&["[print data=\"当前行\"]"], None));

    let snap = build_backlog_snapshot(&pages, &layers);

    assert_eq!(snap.backlog_size(), 2);
    assert_eq!(snap.backlog_tags(0, false).unwrap(), vec!["[print data=\"第一页\"]"]);
    assert_eq!(snap.backlog_tags(1, false).unwrap(), vec!["[print data=\"第二页\"]"]);
    assert_eq!(snap.message_tags("adv01", false).unwrap(), vec!["[print data=\"当前行\"]"]);
}

#[test]
fn build_snapshot_allfont_prepends_page_font() {
    let mut layers = NameMap::new();
    layers.insert(
        "adv01",
        found(&["[print data=\"あ\"]"], Some(&["[font size=\"40\"]", "[print data=\"あ\"]"])),
    );

    let snap = build_backlog_snapshot(&Vec::new(), &layers);
    let with_font = snap.message_tags("adv01", true).unwrap();
    assert_eq!(with_font[0], "[font size=\"40\"]");
    let no_font = snap.message_tags("adv01", false).unwrap();
    assert_eq!(no_font, vec!["[print data=\"あ\"]"]);
}

#[test]
fn snapshot_static_round_trips() {
    let mut snap = BacklogSnapshot::new();
    snap.pages.push(tags(&["[print data=\"x\"]"], &[]));
    let mut mirror = BacklogMirror { snapshot: BacklogSnapshot::new() };
    mirror.store(snap.copy());
    let read = mirror.backlog_snapshot();
    assert_eq!(read.backlog_size(), snap.backlog_size());
    assert_eq!(read.backlog_tags(0, false), snap.backlog_tags(0, false));
    assert_eq!(read.backlog_tags(0, true), snap.backlog_tags(0, true));
    assert_eq!(read.message_layers.len(), 0);
}

#[test]
fn backlog_settings_keep_what_is_not_said() {
    let mut settings = BacklogSettings {
        allow: false,
        message_layer: "a".to_string(),
        include_font: true,
        hide: "h".to_string(),
        layer: None,
        write_mode: false,
    };
    let clear = settings.configure(&BacklogConfig {
        allow: true,
        message_layer: None,
        include_font: None,
        hide: None,
        layer: None,
        clear: true,
    });
    assert!(clear && settings.allow && settings.include_font);
    assert_eq!(settings.message_layer, "a");
    settings.set_write_mode(true);
    assert!(settings.write_mode);
}

#[test]
fn independent_message_layer_uses_overlay_scene_node() {
    let overlay = message_layer_scene_id("overlay:", "1.80.mw.adv", false);
    assert_eq!(overlay, "overlay:312e38302e6d772e616476");
    match message_layer_binding("overlay:", Some(("1.80.mw.adv".to_string(), false))) {
        LayerBinding::Bound { message_id, scene_id } => {
            assert_eq!(message_id, "1.80.mw.adv");
            assert_eq!(scene_id, overlay);
        }
        LayerBinding::Unbound => panic!("no layer is bound"),
    }
}

#[test]
fn message_layer_binding_registers_active_layer_and_resolves_tilde() {
    match message_layer_binding("overlay:", Some(("mw".to_string(), true))) {
        LayerBinding::Bound { message_id, scene_id } => {
            assert_eq!((message_id.as_str(), scene_id.as_str()), ("mw", "mw"));
        }
        LayerBinding::Unbound => panic!("no layer is bound"),
    }
}

#[test]
fn message_layer_binding_none_clears_default() {
    assert!(matches!(message_layer_binding("overlay:", None), LayerBinding::Unbound));
}

#[test]
fn switch_message_layer_exposes_active_id_for_binding() {
    let mut state = FontState::new();
    state.switch_message_layer(Some("mw"), true);
    assert_eq!(state.active_layer.as_deref(), Some("mw"));
    assert_eq!(active_binding(&state).map(|(id, _)| id), Some("mw".to_string()));
}

#[test]
fn drawings_go_to_the_layers_of_the_scene() {
    let drawing = |id: &str, layered, commands| LayerDrawing {
        message_id: id.to_string(),
        layered,
        commands,
    };
    let placed = build_text_commands(
        "o:",
        vec![
            drawing("a", true, vec![1]),
            drawing("a", false, vec![2]),
            drawing("o:61", true, vec![3]),
        ],
    );
    assert_eq!(placed.get("a"), Some(&vec![1]));
    assert_eq!(placed.get("o:61"), Some(&vec![2, 3]));
    assert_eq!(placed.len(), 2);
}

fn pages_kept() -> BacklogSettings {
    BacklogSettings {
        allow: false,
        message_layer: "a".to_string(),
        include_font: true,
        hide: "h".to_string(),
        layer: Some("b".to_string()),
        write_mode: false,
    }
}

#[test]
fn text_events_say_how_pages_are_kept() {
    let mut state = FontState::new();
    let mut kept = pages_kept();
    let config = BacklogConfig {
        allow: true,
        message_layer: None,
        include_font: Some(false),
        hide: None,
        layer: None,
        clear: true,
    };
    let outcome = apply_text_event(&mut state, &mut kept, &TextEvent::BacklogConfig { config });
    assert!(outcome.drop_pages && kept.allow && !kept.include_font && !kept.write_mode);
    assert_eq!(kept.layer, None);
    assert_eq!(kept.hide, "h");
    let outcome =
        apply_text_event(&mut state, &mut kept, &TextEvent::WriteBacklogConfig { mode: true });
    assert!(kept.write_mode && !outcome.drop_pages);
}

#[test]
fn text_events_change_the_active_layer() {
    let mut state = FontState::new();
    let mut kept = pages_kept();
    let settings =
        TextEvent::FontSettings { settings: map(&[("face", "a.otf"), ("size", "20")]) };
    assert_eq!(asked_font(&settings), Some("a.otf".to_string()));
    assert_eq!(asked_font(&TextEvent::FontInit), None);
    let outcome = apply_text_event(&mut state, &mut kept, &settings);
    assert_eq!(outcome.restored_face, Some("a.otf".to_string()));
    let unknown = TextEvent::ScenarioText { shown: Vec::new(), has_font: false };
    apply_text_event(&mut state, &mut kept, &unknown);
    assert!(!state.active_layer_mut().reveal_pending);
    apply_text_event(&mut state, &mut kept, &TextEvent::ScenarioText {
        shown: vec!['a', 'b'],
        has_font: true,
    });
    assert_eq!(state.active_layer_mut().text_buffer, vec!['a', 'b']);
    apply_text_event(&mut state, &mut kept, &TextEvent::LineBreak { has_font: false });
    assert_eq!(state.active_layer_mut().text_buffer, vec!['a', 'b']);
    apply_text_event(&mut state, &mut kept, &TextEvent::LineBreak { has_font: true });
    assert_eq!(state.active_layer_mut().text_buffer, vec!['a', 'b', '\n']);
    let closed = apply_text_event(&mut state, &mut kept, &TextEvent::FontClose);
    assert_eq!(closed.restored_face, None);
    apply_text_event(&mut state, &mut kept, &TextEvent::PageBreak);
    assert!(state.active_layer_mut().text_buffer.is_empty());
    let switched = apply_text_event(
        &mut state,
        &mut kept,
        &TextEvent::MessageLayerSwitch {
            id: Some("mw".to_string()),
            unplaced: true,
            layered: Some(1),
        },
    );
    assert!(switched.rebind);
    assert!(apply_text_event(&mut state, &mut kept, &TextEvent::MessageLayerPop).rebind);
    assert_ne!(state.active_layer.as_deref(), Some("mw"));
    assert_eq!(open_ruby(&state), None);
}

#[test]
fn injected_text_takes_the_place_of_the_source() {
    let (shown, pending) = injected_text("a", TextInjectResult::Replaced("b".to_string()), None);
    assert_eq!(shown, "b");
    assert!(pending.is_none());
    let (shown, pending) = injected_text("a", TextInjectResult::Pending, Some("r".to_string()));
    assert_eq!(shown, "a");
    let pending = pending.unwrap();
    assert_eq!((pending.source.as_str(), pending.ruby.as_deref()), ("a", Some("r")));
    assert!(injected_text("a", TextInjectResult::Unchanged, None).1.is_none());
}

#[test]
fn skipped_text_is_there_at_once() {
    let mut state = FontState::new();
    state.set_scetween(ScetweenConfig { delay_per_char: 100, ..Default::default() });
    state.push_text(&vec!['a', 'b', 'c']);
    assert!(!advance_text(&mut state, 10, false, false));
    assert!(!state.is_reveal_complete());
    advance_text(&mut state, 0, true, false);
    assert!(state.is_reveal_complete());
    assert!(advance_text(&mut state, 0, false, true));
}

#[test]
fn only_the_active_layer_is_revealed_at_once() {
    let mut state = FontState::new();
    assert!(state.is_reveal_complete());
    state.set_scetween(ScetweenConfig { delay_per_char: 100, ..Default::default() });
    state.push_text(&vec!['a', 'b', 'c']);
    state.switch_message_layer(Some("mw"), true);
    assert!(state.is_reveal_complete());
    state.set_scetween(ScetweenConfig { delay_per_char: 100, ..Default::default() });
    state.push_text(&vec!['d', 'e']);
    assert!(!state.is_reveal_complete());
    state.reveal_all();
    assert!(state.is_reveal_complete());
    assert_eq!(state.layers.get("mw").unwrap().reveal_index, 2);
    assert_eq!(state.layers.get("adv01").unwrap().reveal_index, 0);
    assert!(state.layers.get("adv01").unwrap().reveal_pending);
    state.pop_message_layer();
    assert!(!state.is_reveal_complete());
}

#[test]
fn every_piece_of_text_appears_from_the_start() {
    let mut state = FontState::new();
    state.push_text(&vec!['a', 'b']);
    state.reveal_all();
    assert_eq!(state.active_layer_mut().reveal_index, 2);
    state.push_text(&vec!['c']);
    let layer = state.active_layer_mut();
    assert_eq!((layer.reveal_index, layer.reveal_clock_ms), (0, 0));
    assert!(layer.reveal_pending);
    let mut stub = StubTextRenderer::new();
    stub.push_text("ab");
    stub.reveal_all();
    stub.push_line_break();
    assert!(!stub.is_reveal_complete());
    assert_eq!(stub.state.layers.get("adv01").unwrap().reveal_index, 0);
    stub.reveal_all();
    stub.push_text("c");
    assert_eq!(stub.state.layers.get("adv01").unwrap().reveal_index, 0);
}

#[test]
fn frames_of_a_reveal_add_up() {
    let text = vec!['a', 'b', 'c', 'd'];
    let config = ScetweenConfig { delay_per_char: 30, time_per_char: 20, ..Default::default() };
    let mut once = FontState::new();
    let mut twice = FontState::new();
    for state in [&mut once, &mut twice] {
        state.set_scetween(config);
        state.push_text(&text);
    }
    once.advance_reveal(70);
    twice.advance_reveal(40);
    twice.advance_reveal(30);
    assert_eq!(once.active_layer_mut().reveal_index, twice.active_layer_mut().reveal_index);
    assert_eq!(once.active_layer_mut().reveal_index, 3);
}

#[test]
fn characters_set_out_one_after_the_other() {
    let config = ScetweenConfig { delay_per_char: 100, time_per_char: 50, ..Default::default() };
    assert_eq!(char_phase(&config, 1, 99, false), CharPhase::Start);
    assert_eq!(char_phase(&config, 1, 120, false), CharPhase::Moving { elapsed: 20 });
    assert_eq!(char_phase(&config, 1, 150, false), CharPhase::End);
    assert_eq!(char_phase(&config, 1, 150, true), CharPhase::Unmoved);
}

#[test]
fn settings_replace_those_of_their_mode() {
    let mut state = FontState::new();
    let first = ScetweenConfig { mode: ScetweenMode::In, ..Default::default() };
    state.set_scetween(first);
    state.set_scetween(ScetweenConfig { mode: ScetweenMode::Hide, ..first });
    state.set_scetween(ScetweenConfig { delay_per_char: 9, ..first });
    let modes: Vec<ScetweenMode> = state.active_layer_mut().scetween.iter().map(|c| c.mode).collect();
    assert_eq!(modes, vec![ScetweenMode::Hide, ScetweenMode::In]);
    state.set_scetween(ScetweenConfig { set_mode: ScetweenSetMode::Add, ..first });
    assert_eq!(state.active_layer_mut().scetween.len(), 3);
}

#[test]
fn names_of_settings_are_read() {
    assert_eq!(ScetweenMode::from_str(" hide "), ScetweenMode::Hide);
    assert!(ScetweenMode::from_str("other").is_entrance());
    assert!(matches!(TextAlignment::named("center"), TextAlignment::Center));
    let mut font = FontDesc::from_raw(&map(&[("size", "30"), ("style", "bold, italic")]));
    assert_eq!(font.value("size"), Some(&"30".to_string()));
    assert_eq!((font.bold, font.underline), (Some(true), None));
    font.merge_raw(&map(&[("size", "40")]));
    assert_eq!(font.value("size"), Some(&"40".to_string()));
    assert_eq!(font.bold, Some(true));
    let other = FontDesc::from_raw(&map(&[("vertical", "1"), ("alpha", "300"), ("x", "y")]));
    assert_eq!(other.flag("vertical"), Some(true));
    assert_eq!(other.flag("stack"), None);
    assert_eq!(other.opacity("alpha"), Some(255));
    assert_eq!(other.custom.get("x"), Some(&"y".to_string()));
}

#[test]
fn switching_layers_is_undone() {
    let mut state = FontState::new();
    state.push_text(&vec!['a']);
    let before = state.active_layer.clone();
    state.switch_message_layer(Some("other"), false);
    state.pop_message_layer();
    assert_eq!(state.active_layer.clone().or(Some("adv01".to_string())), before.or(Some("adv01".to_string())));
    assert_eq!(state.active_layer_mut().text_buffer, vec!['a']);
}

#[test]
fn glyphs_do_not_overlap() {
    let mut atlas = Atlas::new();
    let first = atlas.allocate(10, 20).unwrap();
    let second = atlas.allocate(10, 20).unwrap();
    let third = atlas.allocate(10, 30).unwrap();
    assert_eq!((first, second, third), ((0, 0), (10, 0), (0, 20)));
    assert_eq!(atlas.allocate(10, 1000), None);
    assert_eq!(atlas.allocate(1, 1025), None);
    assert_eq!(atlas.allocate(2000, 40), Some((0, 50)));
    assert_eq!(atlas.allocate(1, 40), Some((0, 90)));
    atlas.write(1, 2, 1, 1, &vec![1, 2, 3, 4]);
    let at = (2 * 1024 + 1) * 4;
    assert_eq!(&atlas.px[at..at + 4], &[1, 2, 3, 4]);
    assert!(atlas.dirty);
    atlas.write(0, 10, 2, 2, &vec![1, 2, 3, 4, 5, 6, 7, 8, 9]);
    let at = 10 * 4096;
    assert_eq!(&atlas.px[at..at + 9], &[1, 2, 3, 4, 5, 6, 7, 8, 0]);
    assert_eq!(&atlas.px[at + 4096..at + 4098], &[9, 0]);
    atlas.write(1023, 1023, 2, 1, &vec![7; 8]);
    assert_eq!(atlas.px[1024 * 4096 - 5..], [0, 7, 7, 7, 7]);
    assert_eq!(parse("0xff8000"), (255, 128, 0));
    assert_eq!(parse("#zz8000"), (255, 128, 0));
    assert_eq!(parse("12"), (255, 255, 255));
}
