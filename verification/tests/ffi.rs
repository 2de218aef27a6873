use art3m1s_core::ffi::abi::{
    caption_len, expected_rgba_len, pixel_buffer_size, reported_os, snapshot_answer, upload_len,
    upscale_mode,
};
use art3m1s_core::ffi::debug::{
    damage_visualization_enabled, debug_enabled, script_debug_level, script_debug_mode,
    script_debug_print_allowed, set_damage_visualization, set_debug, set_script_debug_config,
    DebugSwitches, ProfileIo, ScriptDebug,
};
use art3m1s_core::ffi::font_override::FontSlot;
use art3m1s_core::ffi::krkr_api::{
    check_input, copy_native_frame, create_status, take_audio_payload, FrameSlot,
    KrkrStatus, NativeFrame,
};
use art3m1s_core::ffi::log_filter::{log, log_unless, LogFilter, LogThread};
use art3m1s_core::ffi::requests::{
    clear_file_size_cache, file_reader_registered, load_font_ffi, query_asset_size, request_asset,
    request_asset_range, request_delete, request_file_mtime, request_file_range, request_write,
    FileRequest,
};
use art3m1s_core::ffi::rfvp_api::{
    audio_command_v1, convert_input_event, convert_input_events, create_args, render_len,
    Art3m1sRfvpInputEventV1, AudioCommand, AudioCommandKind, EncodedAudioKind, HostInputEvent, Nls,
    PointerButton, SampleFormat, TouchPhase, ART3M1S_RFVP_AUDIO_ENCODED_OGG,
    ART3M1S_RFVP_AUDIO_LOAD_ENCODED, ART3M1S_RFVP_AUDIO_SAMPLE_F32, ART3M1S_RFVP_INPUT_FOCUS,
    ART3M1S_RFVP_INPUT_KEY, ART3M1S_RFVP_INPUT_PHASE_DOWN, ART3M1S_RFVP_INPUT_PHASE_REPEAT,
    ART3M1S_RFVP_INPUT_PHASE_UP, ART3M1S_RFVP_INPUT_POINTER_BUTTON, ART3M1S_RFVP_INPUT_QUIT,
    ART3M1S_RFVP_INPUT_TEXT, ART3M1S_RFVP_INPUT_TOUCH, ART3M1S_RFVP_NLS_UTF8,
    ART3M1S_RFVP_POINTER_RIGHT, ART3M1S_RFVP_STATUS_INVALID_ARGUMENT, INPUT_EVENT_SIZE,
};
use art3m1s_core::ffi::siglus_api::{
    project_path, runtime_input, stage_valid, tick_mode, tick_written, EngineInput, HandleCounter,
    HandleTable, LastError, TickMode, STATUS_ARGUMENT, STATUS_ENGINE, STATUS_HANDLE,
};
use art3m1s_core::ffi::text_inject::{
    emit_json_command, emit_media_command, emit_ui_command, inject_text,
    media_command_callback_registered, query_font_list,
    query_window_state, request_text_injection, ui_command_callback_registered, write_clipboard,
    TextInjectResult,
};
use art3m1s_core::host::events::{EventRouter, EVENT_HEADER_SIZE, EVENT_KIND_UI};
use art3m1s_core::host::files::{DiskFacts, HostResources};
use art3m1s_core::render_pipeline::post_process::UpscaleMode;

#[test]
fn log_filter_hook_suppresses_and_guards_reentrancy() {
    let mut filter = LogFilter::new();
    let mut thread = LogThread::new();
    assert!(!filter.log_suppressed_by_filter(&mut thread, "I", "hello"));

    filter.set_log_filter(Some(|_level: &str, msg: &str| msg.contains("noisy")));
    let hook = filter.begin(&mut thread).unwrap();
    // Lines that the filter writes itself pass.
    assert!(!filter.log_suppressed_by_filter(&mut thread, "D", "inner log"));
    assert!(hook("I", "noisy line"));
    filter.end(&mut thread, hook);
    assert!(filter.log_suppressed_by_filter(&mut thread, "I", "noisy line"));
    assert!(!filter.log_suppressed_by_filter(&mut thread, "I", "normal line"));

    filter.set_log_filter(None);
    assert!(!filter.log_suppressed_by_filter(&mut thread, "I", "noisy line"));
}

#[test]
fn suppressed_lines_do_not_reach_the_host() {
    let mut router = EventRouter::new();
    let id = router.create();
    router.set_enabled(id, true);
    log_unless(true, &mut router, "I", "noisy line");
    assert_eq!(router.handle(id).unwrap().next_event_bytes(), 0);
    log_unless(false, &mut router, "I", "line");
    assert_eq!(router.handle(id).unwrap().next_event_bytes(), EVENT_HEADER_SIZE + 4);
}

#[test]
fn stopped_lines_do_not_reach_the_host() {
    let mut router = EventRouter::new();
    let id = router.create();
    router.set_enabled(id, true);
    let mut thread = LogThread::new();
    let mut filter = LogFilter::new();
    filter.set_log_filter(Some(|level: &str, msg: &str| level == "D" && msg.contains("noisy")));
    assert!(log(&mut filter, &mut thread, &mut router, "D", "noisy line"));
    assert_eq!(router.handle(id).unwrap().queued_bytes(), 0);
    assert!(!log(&mut filter, &mut thread, &mut router, "I", "noisy"));
    assert_eq!(router.handle(id).unwrap().queued_bytes(), EVENT_HEADER_SIZE + 5);
    filter.set_log_filter(None);
    assert!(!log(&mut filter, &mut thread, &mut router, "D", "noisy"));
    assert_eq!(router.handle(id).unwrap().queued_bytes(), 2 * (EVENT_HEADER_SIZE + 5));
}

#[test]
fn a_filter_that_was_installed_meanwhile_stays() {
    let mut filter: LogFilter<fn(&str, &str) -> bool> = LogFilter::new();
    let mut thread = LogThread::new();
    let mut other = LogThread::new();
    filter.set_log_filter(Some(|_l, _m| false));
    let hook = filter.begin(&mut thread).unwrap();
    // The new filter sees the lines of other threads at once.
    filter.set_log_filter(Some(|_l, _m| true));
    assert!(!filter.log_suppressed_by_filter(&mut thread, "I", "x"));
    assert!(filter.log_suppressed_by_filter(&mut other, "I", "x"));
    filter.end(&mut thread, hook);
    assert!(filter.log_suppressed_by_filter(&mut thread, "I", "x"));
}

#[test]
fn script_debug_config_gates_debugprint_output() {
    let mut config = ScriptDebug { mode: 0, level: 0 };
    set_script_debug_config(&mut config, Some(0), Some(0));
    assert!(!script_debug_print_allowed(&config, 0));
    assert!(!script_debug_print_allowed(&config, 3));

    set_script_debug_config(&mut config, Some(1), None);
    assert!(script_debug_print_allowed(&config, 0));
    assert!(!script_debug_print_allowed(&config, 1));

    set_script_debug_config(&mut config, None, Some(2));
    assert!(script_debug_print_allowed(&config, 2));
    assert!(!script_debug_print_allowed(&config, 3));

    set_script_debug_config(&mut config, None, None);
    assert!(script_debug_print_allowed(&config, 2));

    set_script_debug_config(&mut config, Some(2), Some(3));
    assert!(script_debug_print_allowed(&config, 3));
    assert_eq!(script_debug_mode(&config), 2);
    assert_eq!(script_debug_level(&config), 3);

    set_script_debug_config(&mut config, Some(0), Some(0));
    assert!(!script_debug_print_allowed(&config, 0));
}

#[test]
fn switches_follow_the_host() {
    let mut switches = DebugSwitches { debug: false, damage: false };
    set_debug(&mut switches, 2);
    assert!(debug_enabled(&switches));
    assert!(!damage_visualization_enabled(&switches));
    set_damage_visualization(&mut switches, 1);
    assert!(damage_visualization_enabled(&switches));
    set_debug(&mut switches, 0);
    assert!(!damage_visualization_enabled(&switches));
    set_damage_visualization(&mut switches, 1);
    set_debug(&mut switches, 1);
    assert!(!damage_visualization_enabled(&switches));
}

#[test]
fn profiled_reads_are_counted_only_while_enabled() {
    let mut io = ProfileIo::new();
    io.finish_profile_io(None, 5);
    assert_eq!(io.take_profile_io_counters().calls, 0);
    io.set_profile_io_enabled(true);
    io.finish_profile_io(Some(10), 5);
    io.finish_profile_io(Some(20), 7);
    let counters = io.take_profile_io_counters();
    assert_eq!((counters.calls, counters.elapsed_ns, counters.bytes), (2, 30, 12));
    assert_eq!(io.take_profile_io_counters().calls, 0);
}

#[test]
fn font_override_rejects_invalid_bytes_without_storing() {
    let mut slot = FontSlot::new();
    let before = slot.font_override().map(|(generation, _)| generation);
    assert!(slot.set_font_override(vec![0, 1, 2, 3]).is_err());
    assert!(slot.set_font_override(Vec::new()).is_err());
    let after = slot.font_override().map(|(generation, _)| generation);
    assert_eq!(before, after);
}

#[test]
fn font_installations_are_numbered() {
    let mut slot = FontSlot::new();
    assert!(slot.install(vec![1, 2], None).is_ok());
    let (first, bytes) = slot.font_override().unwrap();
    assert_eq!(bytes, vec![1, 2]);
    assert!(slot.install(vec![3], Some("broken".to_string())).is_err());
    assert_eq!(slot.font_override().unwrap(), (first, vec![1, 2]));
    assert!(slot.install(vec![4], None).is_ok());
    assert!(slot.font_override().unwrap().0 > first);
    let last = slot.font_override().unwrap().0;
    slot.clear_font_override();
    assert!(slot.font_override().is_none());
    slot.clear_font_override();
    assert!(slot.install(vec![5], None).is_ok());
    assert!(slot.font_override().unwrap().0 > last);
}

#[test]
fn copies_native_frame_into_core_owned_storage() {
    let pixels = [1u8, 2, 3, 4, 5, 6, 7, 8];
    let frame = NativeFrame { frame_id: 0, width: 1, height: 2, stride: 4 };
    let mut destination = Vec::new();
    assert!(copy_native_frame(&frame, Some(&pixels), &mut destination));
    assert_eq!(destination, pixels);
}

#[test]
fn frames_without_enough_bytes_are_refused() {
    let frame = NativeFrame { frame_id: 0, width: 1, height: 2, stride: 4 };
    let mut destination = vec![9];
    assert!(!copy_native_frame(&frame, Some(&[1, 2, 3, 4, 5, 6, 7]), &mut destination));
    assert!(!copy_native_frame(&frame, None, &mut destination));
    let narrow = NativeFrame { frame_id: 0, width: 2, height: 2, stride: 4 };
    assert!(!copy_native_frame(&narrow, Some(&[0; 16]), &mut destination));
    assert_eq!(destination, vec![9]);
}

#[test]
fn an_acquired_frame_is_released_by_its_number() {
    let mut slot = FrameSlot::new();
    let frame = NativeFrame { frame_id: 7, width: 1, height: 1, stride: 4 };
    assert_eq!(slot.acquire(KrkrStatus::Done, &frame, Some(&[1, 2, 3, 4])), KrkrStatus::Done);
    assert_eq!(slot.pixels, vec![1, 2, 3, 4]);
    assert_eq!(slot.frame_id, Some(7));
    assert_eq!(slot.release(8), KrkrStatus::InvalidArgument);
    assert_eq!(slot.release(7), KrkrStatus::Done);
    assert_eq!(slot.frame_id, None);
}

#[test]
fn audio_payloads_are_held_by_the_core() {
    let mut held = vec![1];
    assert_eq!(take_audio_payload(KrkrStatus::Done, 2, Some(&[5, 6]), &mut held), KrkrStatus::Done);
    assert_eq!(held, vec![5, 6]);
    let other = KrkrStatus::Other(9);
    assert_eq!(take_audio_payload(other, 2, Some(&[7, 8]), &mut held), other);
    assert_eq!(held, vec![5, 6]);
    assert_eq!(take_audio_payload(KrkrStatus::Done, 2, None, &mut held), KrkrStatus::Engine);
}

#[test]
fn native_input_is_checked() {
    assert_eq!(check_input(true, 1, 1), KrkrStatus::Done);
    assert_eq!(check_input(false, 1, 1), KrkrStatus::InvalidArgument);
    assert_eq!(check_input(true, 4097, 1), KrkrStatus::InvalidArgument);
    assert_eq!(check_input(true, 1, 0), KrkrStatus::InvalidHandle);
    assert_eq!(create_status(KrkrStatus::Done, 0), KrkrStatus::Engine);
    assert_eq!(create_status(KrkrStatus::Done, 4), KrkrStatus::Done);
}

fn event(kind: u32, code: u32, phase: u32) -> Art3m1sRfvpInputEventV1 {
    Art3m1sRfvpInputEventV1 {
        struct_size: INPUT_EVENT_SIZE,
        kind,
        code,
        phase,
        x: 3,
        y: 4,
        value: 1,
        modifiers: 0,
        id: 9,
    }
}

#[test]
fn input_events_map_to_the_host_adapter() {
    let key = Art3m1sRfvpInputEventV1 {
        struct_size: INPUT_EVENT_SIZE,
        kind: ART3M1S_RFVP_INPUT_KEY,
        code: 13,
        phase: ART3M1S_RFVP_INPUT_PHASE_DOWN,
        x: 0,
        y: 0,
        value: 0,
        modifiers: 0,
        id: 0,
    };
    assert!(matches!(convert_input_event(&key), Ok(HostInputEvent::Key { code: 13, .. })));
}

#[test]
fn every_kind_of_input_is_converted() {
    let repeat = convert_input_event(&event(ART3M1S_RFVP_INPUT_KEY, 65, ART3M1S_RFVP_INPUT_PHASE_REPEAT));
    assert!(matches!(repeat, Ok(HostInputEvent::Key { code: 65, pressed: true, repeat: true, .. })));
    let text = convert_input_event(&event(ART3M1S_RFVP_INPUT_TEXT, 0x3042, 0));
    assert!(matches!(text, Ok(HostInputEvent::Text { character: 'あ' })));
    assert!(convert_input_event(&event(ART3M1S_RFVP_INPUT_TEXT, 0xd800, 0)).is_err());
    let button = convert_input_event(&event(
        ART3M1S_RFVP_INPUT_POINTER_BUTTON,
        ART3M1S_RFVP_POINTER_RIGHT,
        ART3M1S_RFVP_INPUT_PHASE_UP,
    ));
    assert!(matches!(
        button,
        Ok(HostInputEvent::PointerButton { button: PointerButton::Right, pressed: false, x: 3, y: 4 })
    ));
    let touch = convert_input_event(&event(ART3M1S_RFVP_INPUT_TOUCH, 0, ART3M1S_RFVP_INPUT_PHASE_DOWN));
    assert!(matches!(touch, Ok(HostInputEvent::Touch { id: 9, phase: TouchPhase::Down, x: 3, y: 4 })));
    let focus = convert_input_event(&event(ART3M1S_RFVP_INPUT_FOCUS, 0, 1));
    assert!(matches!(focus, Ok(HostInputEvent::Focus { focused: true })));
    let blur = convert_input_event(&event(ART3M1S_RFVP_INPUT_FOCUS, 0, 0));
    assert!(matches!(blur, Ok(HostInputEvent::Focus { focused: false })));
    assert!(matches!(convert_input_event(&event(ART3M1S_RFVP_INPUT_QUIT, 0, 0)), Ok(HostInputEvent::Quit)));
    assert!(matches!(
        convert_input_event(&event(99, 0, 0)),
        Err(ART3M1S_RFVP_STATUS_INVALID_ARGUMENT)
    ));
    let mut small = event(ART3M1S_RFVP_INPUT_QUIT, 0, 0);
    small.struct_size = 1;
    assert!(convert_input_event(&small).is_err());
    let all = vec![event(ART3M1S_RFVP_INPUT_QUIT, 0, 0), event(ART3M1S_RFVP_INPUT_FOCUS, 0, 0)];
    assert_eq!(convert_input_events(&all).ok().map(|list| list.len()), Some(2));
    let bad = vec![event(ART3M1S_RFVP_INPUT_QUIT, 0, 0), event(77, 0, 0)];
    assert!(convert_input_events(&bad).is_err());
}

#[test]
fn creation_needs_a_root_a_size_and_a_charset() {
    let args = create_args(Some(b"/game"), None, 0, 640, 480, ART3M1S_RFVP_NLS_UTF8);
    match args {
        Ok(args) => {
            assert_eq!(args.game_root, "/game");
            assert_eq!(args.save_root, None);
            assert!(matches!(args.nls, Nls::Utf8));
        }
        Err(_) => panic!("creation is refused"),
    }
    assert!(create_args(None, None, 0, 640, 480, ART3M1S_RFVP_NLS_UTF8).is_err());
    assert!(create_args(Some(b"/game"), None, 0, 0, 480, ART3M1S_RFVP_NLS_UTF8).is_err());
    assert!(create_args(Some(b"/game"), None, 0, 640, 480, 9).is_err());
    assert!(create_args(Some(&[0xff]), None, 0, 640, 480, ART3M1S_RFVP_NLS_UTF8).is_err());
}

#[test]
fn audio_commands_are_numbered() {
    let command = AudioCommand {
        kind: AudioCommandKind::LoadEncoded,
        stream_id: 5,
        sample_format: Some(SampleFormat::F32),
        encoded_kind: Some(EncodedAudioKind::Ogg),
        sample_rate: 44100,
        channels: 2,
        repeat: true,
        fade_ms: 10,
        volume_bits: 1,
        pan_bits: 2,
        sample_count: 3,
    };
    let told = audio_command_v1(&command, 8);
    assert_eq!(told.kind, ART3M1S_RFVP_AUDIO_LOAD_ENCODED);
    assert_eq!(told.sample_format, ART3M1S_RFVP_AUDIO_SAMPLE_F32);
    assert_eq!(told.encoded_kind, ART3M1S_RFVP_AUDIO_ENCODED_OGG);
    assert_eq!(told.repeat, 1);
    assert!(told.has_payload);
    assert_eq!(told.payload_size, 8);
    let empty = audio_command_v1(&command, 0);
    assert!(!empty.has_payload);
}

#[test]
fn pictures_are_measured() {
    assert_eq!(expected_rgba_len(2, 3), Some(24));
    assert_eq!(pixel_buffer_size(2, 3), 24);
    assert_eq!(upload_len("movie", 1, 2, 8), Some(8));
    assert_eq!(upload_len("movie", 1, 2, 7), None);
    assert_eq!(upload_len("movie", 0, 2, 0), None);
    assert_eq!(render_len(1, 2, 8, 8), 8);
    assert_eq!(render_len(1, 2, 7, 8), 0);
    assert_eq!(caption_len(3, 8), 3);
    assert_eq!(snapshot_answer(3, true, 8), 3);
    assert!(matches!(upscale_mode(0), Some(UpscaleMode::Linear)));
    assert!(upscale_mode(9).is_none());
    assert_eq!(reported_os(None), None);
    assert_eq!(reported_os(Some("android")), Some("android".to_string()));
}

#[test]
fn handles_are_never_given_twice() {
    let mut handles = HandleCounter::new();
    let mut table: HandleTable<&str> = HandleTable::new();
    let a = table.register(&mut handles, "a").unwrap();
    let b = table.register(&mut handles, "b").unwrap();
    assert_ne!(a, b);
    assert_eq!(table.get(a), Some(&"a"));
    assert_eq!(table.remove(a), Some("a"));
    assert_eq!(table.get(a), None);
    let c = table.register(&mut handles, "c").unwrap();
    assert!(c != a && c != b);
    assert_eq!(table.get(b), Some(&"b"));
    let mut other: HandleTable<&str> = HandleTable::new();
    let d = other.register(&mut handles, "d").unwrap();
    assert_eq!((a, b, c, d), (1, 2, 3, 4));
    assert_eq!(table.get(d), None);
    assert_eq!(other.get(b), None);
    table.insert(b, "e");
    assert_eq!(table.get(b), Some(&"e"));
    assert_eq!(handles.draw(), Some(5));
}

#[test]
fn ticks_are_checked_before_they_run() {
    assert!(matches!(tick_mode(0, false, 0, 4, 4, false), Ok(TickMode::Advance)));
    assert!(matches!(tick_mode(1, true, 64, 4, 4, false), Ok(TickMode::Read)));
    assert!(matches!(tick_mode(1, true, 63, 4, 4, false), Err(STATUS_ARGUMENT)));
    assert!(matches!(tick_mode(2, false, 0, 4, 4, true), Ok(TickMode::Present)));
    assert!(tick_mode(2, false, 0, 4, 4, false).is_err());
    assert!(tick_mode(5, false, 0, 4, 4, true).is_err());
    assert_eq!(tick_written(TickMode::Read, 64, 64), Ok(64));
    assert!(tick_written(TickMode::Read, 65, 64).is_err());
    assert!(stage_valid(1, 1));
    assert!(!stage_valid(0, 1));
    assert!(matches!(project_path(Some(b"/g")), Ok(path) if path == "/g"));
    assert!(project_path(None).is_err());
    assert_eq!((STATUS_HANDLE, STATUS_ENGINE), (-2, -3));
}

#[test]
fn engine_input_is_told_apart_by_its_kind() {
    assert!(matches!(runtime_input(0, 0, 3, 4, 0), Ok(EngineInput::Move { x: 3, y: 4 })));
    assert!(runtime_input(42, 0, 0, 0, 0).is_err());
}

#[test]
fn the_last_error_fits_the_buffer() {
    let mut error = LastError::new();
    assert_eq!(error.fail("broken"), STATUS_ENGINE);
    let (bytes, _) = error.last_error(64);
    assert_eq!(&bytes[..6], b"broken");
}

#[test]
fn whole_files_are_read_at_once_or_in_parts() {
    let mut short = FileRequest::request_file("a.txt", Some(3)).ok().unwrap();
    assert_eq!(short.next(), Some((0, 3)));
    short.feed(b"abc");
    assert_eq!(short.next(), None);
    assert_eq!(short.finish(), Ok(b"abc".to_vec()));

    let mut cut = FileRequest::request_file("a.txt", Some(3)).ok().unwrap();
    cut.feed(b"ab");
    assert_eq!(cut.finish(), Err("short read: a.txt (2 of 3 bytes)".to_string()));

    assert!(matches!(
        FileRequest::request_file("gone", None),
        Err(message) if message == "not found: gone"
    ));

    let size = 16 * 1024 * 1024 + 1;
    let mut long = FileRequest::request_file("b", Some(size)).ok().unwrap();
    let mut parts = 0;
    while let Some((at, len)) = long.next() {
        assert_eq!(at, parts * 65536);
        long.feed(&vec![7u8; len as usize]);
        parts += 1;
    }
    assert_eq!(parts, 257);
    assert_eq!(load_font_ffi(long).unwrap().len() as u64, size);

    let empty = FileRequest::request_file("c", Some(0)).ok().unwrap();
    assert_eq!(empty.next(), None);
    assert_eq!(request_asset(empty.finish()), Some(Vec::new()));
}

#[test]
fn ranges_keep_what_was_read() {
    assert_eq!(request_file_range(vec![1, 2, 3], Some(2)), Some(vec![1, 2]));
    assert_eq!(request_asset_range(vec![1, 2, 3], None), None);
}

#[test]
fn the_mounted_files_answer_requests() {
    let mut resources = HostResources::new();
    assert!(!file_reader_registered(&resources));
    let facts = DiskFacts { save: None, sidecar: None, indexed: None };
    assert_eq!(query_asset_size(&resources, "a", &facts), None);
    assert!(matches!(
        request_write(&resources, "a"),
        Err(message) if message == "file host is not mounted"
    ));
    resources.set_save_dir(Some("/save"));
    assert!(matches!(request_write(&resources, "a/b"), Ok(path) if path.root == "/save" && path.relative == "a/b"));
    assert!(matches!(
        request_delete(&resources, "../x"),
        Err(message) if message == "invalid save path: ../x"
    ));
    resources.set_override("A.txt", vec![1, 2]).unwrap();
    assert_eq!(query_asset_size(&resources, "a.TXT", &facts), Some(2));
    clear_file_size_cache(&mut resources);
    assert_eq!(query_asset_size(&resources, "a.txt", &facts), None);
    assert_eq!(request_file_mtime(&resources, "a.txt"), None);
}

#[test]
fn text_is_replaced_or_asked_for() {
    let mut router = EventRouter::new();
    assert!(matches!(request_text_injection(&router, "hello"), TextInjectResult::Unchanged));
    let id = router.create();
    router.set_enabled(id, true);
    assert!(media_command_callback_registered(&router));
    assert!(ui_command_callback_registered(&router));
    if let Some(events) = router.handle_mut(id) {
        assert!(events.load_text_replacements(br#"{"hello":"bonjour"}"#));
    }
    assert_eq!(inject_text(&router, "hello"), Some("bonjour".to_string()));
    assert_eq!(inject_text(&router, "other"), None);
    if let Some(events) = router.handle_mut(id) {
        events.set_text_translation_enabled(true);
    }
    assert!(matches!(request_text_injection(&router, "other"), TextInjectResult::Pending));
}

#[test]
fn commands_go_to_the_host_as_json() {
    let mut router = EventRouter::new();
    let id = router.create();
    router.set_enabled(id, true);
    write_clipboard(&mut router, "a\"b");
    let mut expected = EVENT_HEADER_SIZE;
    expected += br#"{"kind":"write_clipboard","payload":{"string":"a\"b"}}"#.len();
    assert_eq!(router.handle(id).unwrap().next_event_bytes(), expected);
    emit_json_command(&mut router, EVENT_KIND_UI, "k", "{}");
    assert!(router.handle(id).unwrap().queued_bytes() > expected);
    assert_eq!(query_font_list(&router, false, false), Vec::<String>::new());
    assert_eq!(query_window_state(&router), (false, false));
    router.handle_mut(id).unwrap().set_window_state(1);
    assert_eq!(query_window_state(&router), (true, false));
    router.handle_mut(id).unwrap().set_window_state(2);
    assert_eq!(query_window_state(&router), (false, true));
    let before = router.handle(id).unwrap().queued_bytes();
    let size = EVENT_HEADER_SIZE + br#"{"kind":"k","payload":{"a":1}}"#.len();
    emit_media_command(&mut router, "k", "{ \"a\": 1 }");
    assert_eq!(router.handle(id).unwrap().queued_bytes(), before + size);
    emit_ui_command(&mut router, "k", "{ \"a\": 1 }");
    assert_eq!(router.handle(id).unwrap().queued_bytes(), before + 2 * size);
    router.set_enabled(id, false);
    assert_eq!(query_window_state(&router), (false, false));
}
