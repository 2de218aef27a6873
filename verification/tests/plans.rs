use art3m1s_core::ffi::abi::accepts_import;
use art3m1s_core::ffi_callbacks::load_png_comments;
use art3m1s_core::name_map::NameMap;
use art3m1s_core::render_pipeline::draw::{TextureId, TextureInfo, TextureProvider};
use art3m1s_core::runtime::emote::{sprite_is_drawn, worker_name, EmoteState, SpritePass};
use art3m1s_core::runtime::input::{
    begin_inline_event, finish_inline_event_frame, refresh_inline_event_frame, CallFrame,
    InputState,
};
use art3m1s_core::runtime::media::take_pending_volumes;
use art3m1s_core::runtime::save_io::SaveScope;
use art3m1s_core::runtime::save_plan::{
    handle_load_game, handle_save_game, load_failure, save_failure, syssave, sysload, LoadStep,
    SaveStep,
};
use art3m1s_core::runtime::telemetry::{
    capture_raw_input_state, format_bits, InputTelemetry, KeyBits,
};
use art3m1s_core::runtime::uploads::{
    eluna_texture_name, next_upload_step, source_is_done, upload_fault, upload_texture,
    upload_textures, ElunaTexture, UploadFault, UploadStep,
};
use art3m1s_core::runtime::wait::{advance_exskip_stop, after_exskip_handler, DebugSkipEnd};
use art3m1s_core::text::layers::MessageLayer;
use art3m1s_core::text::layout::{
    glyph_copies, motion_axis, visible_count, GlyphCopy, GlyphFacts, GlyphPlace, Lines, MotionAxis,
};
use art3m1s_core::text::render::ScetweenConfig;
use art3m1s_core::text::state::FontState;
use std::collections::HashMap;

fn upload_path(outcomes: &[bool], recodes: bool) -> Vec<UploadStep> {
    let mut step = UploadStep::ReadSource;
    let mut path = Vec::new();
    for done in outcomes {
        step = next_upload_step(step, *done, recodes);
        path.push(step);
    }
    path
}

#[test]
fn compressed_textures_are_uploaded_as_they_are() {
    assert_eq!(
        upload_path(&[true, true], true),
        vec![UploadStep::UploadCompressed, UploadStep::Uploaded]
    );
}

#[test]
fn recoded_textures_come_from_the_cache_or_are_encoded() {
    assert_eq!(
        upload_path(&[true, false, true, true], true),
        vec![
            UploadStep::UploadCompressed,
            UploadStep::ReadCache,
            UploadStep::UploadCached,
            UploadStep::Uploaded,
        ]
    );
    assert_eq!(
        upload_path(&[true, false, false, true, true, false, true], true),
        vec![
            UploadStep::UploadCompressed,
            UploadStep::ReadCache,
            UploadStep::Decode,
            UploadStep::Encode,
            UploadStep::UploadEncoded,
            UploadStep::UploadPixels,
            UploadStep::Uploaded,
        ]
    );
}

#[test]
fn plain_devices_get_pixels() {
    assert_eq!(
        upload_path(&[true, false, true, false], false),
        vec![
            UploadStep::UploadCompressed,
            UploadStep::Decode,
            UploadStep::UploadPixels,
            UploadStep::Missing,
        ]
    );
    assert_eq!(upload_path(&[false], false), vec![UploadStep::Failed]);
    assert_eq!(
        upload_path(&[true, false, false], false),
        vec![UploadStep::UploadCompressed, UploadStep::Decode, UploadStep::Failed]
    );
}

#[test]
fn uploads_end_after_eight_steps() {
    for bits in 0u32..256 {
        let outcomes: Vec<bool> = (0..8).map(|i| bits >> i & 1 == 1).collect();
        for recodes in [false, true] {
            let last = upload_path(&outcomes, recodes)[7];
            assert!(matches!(
                last,
                UploadStep::Uploaded | UploadStep::Missing | UploadStep::Failed
            ));
        }
    }
}

#[test]
fn texture_faults_are_told() {
    assert_eq!(
        upload_fault("t1", &UploadFault::Evicted),
        "E-Mote texture t1 was evicted after source release"
    );
    assert_eq!(
        upload_fault("t1", &UploadFault::Unreadable { error: "eof".into() }),
        "failed to read E-Mote texture t1: eof"
    );
    assert_eq!(
        upload_fault("t1", &UploadFault::Undecodable { error: "bad".into() }),
        "failed to decode E-Mote texture t1: bad"
    );
    assert!(source_is_done(&vec![true, true]));
    assert!(!source_is_done(&vec![true, false]));
    assert!(source_is_done(&Vec::new()));
}

struct Device {
    takes_blocks: bool,
    takes_pixels: bool,
    seen: Vec<(String, u32, u32, usize)>,
}

impl TextureProvider for Device {
    fn resolve(&mut self, _name: &str) -> Option<(TextureId, TextureInfo)> {
        None
    }

    fn upload_rgba(
        &mut self,
        name: &str,
        width: u32,
        height: u32,
        data: &[u8],
    ) -> Option<(TextureId, TextureInfo)> {
        self.seen.push((name.to_string(), width, height, data.len()));
        if self.takes_pixels {
            Some((TextureId(7), TextureInfo { width, height }))
        } else {
            None
        }
    }

    fn upload_dxt5_render_only(
        &mut self,
        name: &str,
        width: u32,
        height: u32,
        data: &[u8],
    ) -> Option<(TextureId, TextureInfo)> {
        self.seen.push((name.to_string(), width, height, data.len()));
        if self.takes_blocks {
            Some((TextureId(1), TextureInfo { width, height }))
        } else {
            None
        }
    }
}

fn eluna_texture(index: u32, name: &str, data: Vec<u8>) -> ElunaTexture {
    ElunaTexture { index, name: name.to_string(), width: 2, height: 4, gpu: None, data }
}

#[test]
fn other_figures_fall_back_to_pixels() {
    let name = eluna_texture_name(3, "body");
    assert_eq!(name, ":emote/eluna/3/body");
    let texture = eluna_texture(5, &name, vec![0u8; 16]);
    let size = TextureInfo { width: 2, height: 4 };
    let mut device = Device { takes_blocks: true, takes_pixels: true, seen: Vec::new() };
    assert_eq!(upload_texture(&mut device, &texture), Ok((TextureId(1), size)));
    assert_eq!(device.seen, vec![(name.clone(), 2, 4, 16)]);

    let mut device = Device { takes_blocks: false, takes_pixels: true, seen: Vec::new() };
    assert_eq!(upload_texture(&mut device, &texture), Ok((TextureId(7), size)));
    assert_eq!(device.seen, vec![(name.clone(), 2, 4, 16), (name.clone(), 2, 4, 32)]);

    device.takes_pixels = false;
    let refused = upload_texture(&mut device, &texture);
    assert_eq!(refused, Err("Eluna failed to upload texture resource 5".to_string()));
    match upload_texture(&mut device, &eluna_texture(5, &name, Vec::new())) {
        Err(message) => assert!(message.starts_with("Eluna failed to decode texture 5: ")),
        Ok(_) => panic!("decoded nothing"),
    }
}

#[test]
fn the_first_fault_ends_an_upload() {
    let mut there = eluna_texture(0, "there", Vec::new());
    there.gpu = Some((TextureId(3), TextureInfo { width: 2, height: 4 }));
    let mut textures = vec![
        there,
        eluna_texture(1, "good", vec![0u8; 16]),
        eluna_texture(2, "bad", vec![0u8; 3]),
        eluna_texture(3, "late", vec![0u8; 16]),
    ];
    let mut kept = vec!["good".to_string()];
    let mut device = Device { takes_blocks: false, takes_pixels: true, seen: Vec::new() };
    match upload_textures(&mut device, &mut textures, &mut kept) {
        Err(message) => assert_eq!(
            message,
            "Eluna failed to decode texture 2: DXT5 data has 3 bytes, expected 16"
        ),
        Ok(()) => panic!("decoded nothing"),
    }
    assert_eq!(kept, vec!["good".to_string(), "there".to_string(), "bad".to_string()]);
    let made: Vec<Option<TextureId>> =
        textures.iter().map(|texture| texture.gpu.map(|(id, _)| id)).collect();
    assert_eq!(made, vec![Some(TextureId(3)), Some(TextureId(7)), None, None]);
    let names: Vec<&str> = device.seen.iter().map(|(name, ..)| name.as_str()).collect();
    assert_eq!(names, vec!["good", "good", "bad"]);
}

#[test]
fn the_last_figure_is_drawn() {
    let mut state: EmoteState<u32> = EmoteState::new();
    assert!(state.drawn_figure("1").is_none());
    assert!(!state.create_layer("1", 10));
    assert_eq!(state.drawn_figure("1"), Some(&10));
    assert!(state.create_layer("1", 20));
    assert_eq!(state.drawn_figure("1"), Some(&20));
    assert_eq!(state.get_layer("1", true), Some(false));
    assert_eq!(state.drawn_figure("1"), Some(&20));
}

#[test]
fn parts_of_figures_are_drawn_when_they_can_be_seen() {
    assert!(sprite_is_drawn(true, true, SpritePass::Normal, false));
    assert!(sprite_is_drawn(true, true, SpritePass::Filtered, false));
    assert!(!sprite_is_drawn(true, true, SpritePass::Other, false));
    assert!(!sprite_is_drawn(false, true, SpritePass::Normal, false));
    assert!(!sprite_is_drawn(true, false, SpritePass::Normal, false));
    assert!(!sprite_is_drawn(true, true, SpritePass::Normal, true));
    assert_eq!(worker_name("emote/a/b.psb"), "art3m1s-eluna-b.psb");
    assert_eq!(worker_name("b.psb"), "art3m1s-eluna-b.psb");
}

fn place_all(glyphs: &[(bool, bool)]) -> (Vec<GlyphPlace>, Lines) {
    let mut lines = Lines::new();
    let mut out = Vec::new();
    for (index, (newline, overflows)) in glyphs.iter().enumerate() {
        out.push(lines.place(index, GlyphFacts { newline: *newline, overflows: *overflows }));
    }
    (out, lines)
}

#[test]
fn lines_break_at_newlines_and_at_the_width() {
    let (places, lines) = place_all(&[
        (false, false),
        (false, true),
        (true, false),
        (false, true),
        (false, true),
    ]);
    assert_eq!(
        places,
        vec![
            GlyphPlace::SameLine,
            GlyphPlace::NextLine,
            GlyphPlace::LineEnd,
            GlyphPlace::SameLine,
            GlyphPlace::NextLine,
        ]
    );
    assert_eq!(lines, Lines { line: 3, start: 4 });
}

#[test]
fn styles_ask_for_copies() {
    assert_eq!(glyph_copies(""), vec![GlyphCopy::Base]);
    assert_eq!(glyph_copies("bold,shadow"), vec![GlyphCopy::Shadow, GlyphCopy::Base]);
    assert_eq!(
        glyph_copies("outline,shadow"),
        vec![
            GlyphCopy::Shadow,
            GlyphCopy::Outline { dx: -1, dy: -1 },
            GlyphCopy::Outline { dx: 1, dy: -1 },
            GlyphCopy::Outline { dx: -1, dy: 1 },
            GlyphCopy::Outline { dx: 1, dy: 1 },
            GlyphCopy::Base,
        ]
    );
    assert_eq!(motion_axis(Some("alpha")), MotionAxis::Alpha);
    assert_eq!(motion_axis(Some("left")), MotionAxis::Left);
    assert_eq!(motion_axis(Some("top")), MotionAxis::Top);
    assert_eq!(motion_axis(Some("xscale")), MotionAxis::XScale);
    assert_eq!(motion_axis(Some("yscale")), MotionAxis::YScale);
    assert_eq!(motion_axis(Some("rotate")), MotionAxis::Rotate);
    assert_eq!(motion_axis(Some("colour")), MotionAxis::Nothing);
    assert_eq!(motion_axis(None), MotionAxis::Nothing);
}

#[test]
fn only_revealed_characters_are_shown() {
    let mut layer = MessageLayer::new("adv01".to_string());
    layer.push_text(&vec!['a', 'b', 'c']);
    assert_eq!(visible_count(&layer), 3);
    layer.set_scetween(ScetweenConfig::default());
    assert_eq!(visible_count(&layer), 0);
    layer.reveal_index = 2;
    assert_eq!(visible_count(&layer), 2);
    layer.reveal_index = 9;
    assert_eq!(visible_count(&layer), 3);
}

#[test]
fn a_line_break_makes_the_text_appear_anew() {
    let mut state = FontState::new();
    state.push_text(&vec!['a']);
    state.reveal_all();
    state.push_line_break();
    let layer = state.active_layer_mut();
    assert_eq!(layer.text_buffer, vec!['a', '\n']);
    assert_eq!(layer.reveal_index, 0);
    assert!(layer.reveal_pending);
}

const DOWN: KeyBits =
    KeyBits { push: false, down: true, down_edge: false, up_edge: false, decide: false, rest: 0 };

#[test]
fn raw_keys_are_told_in_order() {
    let mut input = InputState::new();
    input.feed_key_down(40);
    input.feed_key_down(13);
    let mut held = HashMap::new();
    held.insert(40, 499);
    let pressed =
        KeyBits { push: true, down: true, down_edge: true, up_edge: false, decide: true, rest: 0 };
    assert_eq!(capture_raw_input_state(&input, &held), vec![(13, pressed), (40, pressed)]);
    input.keys_down_edge.clear();
    assert_eq!(capture_raw_input_state(&input, &held), vec![(13, DOWN), (40, DOWN)]);
    held.insert(40, 500);
    let pushed = KeyBits { push: true, ..DOWN };
    assert_eq!(capture_raw_input_state(&input, &held), vec![(13, DOWN), (40, pushed)]);
    input.feed_key_up(13);
    input.feed_key_up(40);
    input.keys_up_edge.clear();
    assert_eq!(capture_raw_input_state(&input, &held), Vec::new());
}

#[test]
fn a_frame_with_input_is_one_line() {
    assert_eq!(format_bits(&DOWN), "DOWN");
    let quiet = KeyBits { down: false, ..DOWN };
    assert_eq!(format_bits(&quiet), "0");
    assert_eq!(format_bits(&KeyBits { rest: 0x1a0, ..quiet }), "0x1a0");
    assert_eq!(format_bits(&KeyBits { rest: u32::MAX, ..quiet }), "0xffffffff");
    let odd = KeyBits { rest: 64, ..DOWN };
    assert_eq!(format_bits(&odd), "DOWN");
    let mut telemetry = InputTelemetry {
        raw: vec![(1, DOWN)],
        overrides: vec![(1, odd), (13, DOWN), (14, quiet)],
        override_all: None,
        effective: Vec::new(),
        pointer_target: None,
        layer_outcome: Some("Handled".to_string()),
        push_outcome: "Unhandled".to_string(),
        default_role_allowed: true,
        user_input: false,
        advance: true,
        wait_before: Some("Generic".to_string()),
        wait_after: None,
        script_before: Some(("a.iet".to_string(), 3)),
        script_after: None,
        queue_len_before: 0,
        queue_len_after: 12,
    };
    assert_eq!(
        telemetry.emit(),
        "[INPUT-TICK] raw={1:DOWN} override={1:DOWN, 13:DOWN} effective={-} ptr=- layer=Handled push=Unhandled role_allow=true user_input=false advance=true wait={Generic→-} pc={a.iet:3→-} queue={0→12}"
    );
    telemetry.override_all = Some(quiet);
    assert!(telemetry.emit().contains(" override={all:0, 1:DOWN, 13:DOWN} "));
    telemetry.overrides = Vec::new();
    assert!(telemetry.emit().contains(" override={all:0} "));
    telemetry.override_all = None;
    assert!(telemetry.emit().contains(" override={-} "));
}

#[test]
fn saving_a_game_saves_what_is_kept_between_games() {
    let steps = handle_save_game("save0001.dat", "savedata");
    assert_eq!(steps.len(), 5);
    assert!(matches!(&steps[0], SaveStep::FireSaveHandler));
    assert!(matches!(&steps[1], SaveStep::FlushTags));
    assert!(matches!(&steps[2], SaveStep::WriteGame { path } if path == "savedata/save0001.dat"));
    assert!(matches!(
        &steps[3],
        SaveStep::WriteScope { scope: SaveScope::Global, path } if path == "savedata/saveg.dat"
    ));
    assert!(matches!(
        &steps[4],
        SaveStep::WriteScope { scope: SaveScope::System, path } if path == "savedata/system.dat"
    ));
    let refused = handle_save_game("../up.dat", "savedata");
    assert_eq!(refused.len(), 3);
    assert!(matches!(&refused[2], SaveStep::Fail { message } if message == "非法存档路径: ../up.dat"));
    assert_eq!(syssave("save").len(), 2);
    assert_eq!(save_failure(&steps[0], "x"), "onSave 处理器失败: x");
    assert_eq!(save_failure(&steps[1], "x"), "抽干存档标签失败: x");
    assert_eq!(save_failure(&steps[2], "x"), "x");
    assert_eq!(save_failure(&steps[3], "x"), "同步系统存档失败: x");
    assert_eq!(save_failure(&refused[2], "x"), "非法存档路径: ../up.dat");
}

#[test]
fn kept_entries_become_variables_of_their_scope() {
    let entries = vec![("a".to_string(), 1), ("b".to_string(), 2)];
    assert_eq!(
        sysload(SaveScope::Global, entries.clone()),
        vec![("g.a".to_string(), 1), ("g.b".to_string(), 2)]
    );
    assert_eq!(
        sysload(SaveScope::System, entries),
        vec![("s.a".to_string(), 1), ("s.b".to_string(), 2)]
    );
}

#[test]
fn loading_ends_the_wait_last() {
    assert_eq!(
        handle_load_game(true, true),
        vec![
            LoadStep::ResetScene,
            LoadStep::StopMedia,
            LoadStep::ClearHovered,
            LoadStep::RestoreScene,
            LoadStep::RestoreState,
            LoadStep::FireLoadHandler,
            LoadStep::FlushTags,
            LoadStep::ApplyVolumes,
            LoadStep::RestoreAudio,
            LoadStep::ClearWait,
        ]
    );
    assert_eq!(handle_load_game(false, false).len(), 8);
    assert_eq!(load_failure(LoadStep::RestoreState, "x"), "恢复存档状态失败: x");
    assert_eq!(load_failure(LoadStep::FireLoadHandler, "x"), "onLoad 处理器失败: x");
    assert_eq!(load_failure(LoadStep::FlushTags, "x"), "抽干读档标签失败: x");
    assert_eq!(load_failure(LoadStep::StopMedia, "x"), "x");
}

#[test]
fn asked_volumes_are_taken_in_order() {
    let mut asked: NameMap<f32> = NameMap::new();
    asked.insert("voice", 0.5);
    asked.insert("other", 0.1);
    asked.insert("bgm", 1.0);
    assert_eq!(
        take_pending_volumes(&mut asked),
        vec![("bgm".to_string(), 1.0), ("voice".to_string(), 0.5)]
    );
    assert!(take_pending_volumes(&mut asked).is_empty());
    assert_eq!(asked.get("other"), Some(&0.1));
}

#[test]
fn png_files_without_texts_have_no_comments() {
    assert!(load_png_comments(None).is_none());
    assert!(load_png_comments(Some(b"not a png")).is_none());
    let mut png = b"\x89PNG\r\n\x1a\n".to_vec();
    png.extend_from_slice(&[0, 0, 0, 5]);
    png.extend_from_slice(b"tEXtpos\x001");
    png.extend_from_slice(&[0, 0, 0, 0]);
    let comments = load_png_comments(Some(&png)).expect("one text");
    assert_eq!(comments.get("pos").map(String::as_str), Some("1"));
}

#[test]
fn video_imports_need_a_name_and_a_size() {
    assert!(accepts_import("1.0", 2, 3));
    assert!(!accepts_import("", 2, 3));
    assert!(!accepts_import("1.0", 0, 3));
    assert!(!accepts_import("1.0", 2, 0));
}

#[test]
fn fast_forwarding_ends_once() {
    let mut on = true;
    assert_eq!(advance_exskip_stop(&mut on), DebugSkipEnd::FireHandler);
    assert!(!on);
    assert_eq!(advance_exskip_stop(&mut on), DebugSkipEnd::NextLine);
    assert_eq!(after_exskip_handler(true, true), DebugSkipEnd::Stay);
    assert_eq!(after_exskip_handler(false, true), DebugSkipEnd::DrainTags);
    assert_eq!(after_exskip_handler(false, false), DebugSkipEnd::NextLine);
}

#[test]
fn events_that_broke_in_end_or_stay() {
    let (event, stack) = begin_inline_event("main.iet", 7, Vec::new());
    let mut slot = Some(event);
    refresh_inline_event_frame(&mut slot, &stack);
    assert!(slot.is_some());
    assert!(finish_inline_event_frame(&mut slot, true, &stack).is_none());
    assert!(slot.is_some());
    let over = finish_inline_event_frame(&mut slot, false, &stack).expect("the event ends");
    assert_eq!((over.script.as_str(), over.line), ("main.iet", 7));
    assert!(slot.is_none());
    let (event, _) = begin_inline_event("main.iet", 7, Vec::new());
    let mut gone = Some(event);
    let other = vec![CallFrame { script: "other.iet".to_string(), return_line: 1 }];
    assert!(finish_inline_event_frame(&mut gone, true, &other).is_none());
    assert!(gone.is_none());
}
