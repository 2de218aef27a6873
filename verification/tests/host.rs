use art3m1s_core::codec::ByteOrder;
use art3m1s_core::ffi_callbacks::{parse_png_text_chunks, resolve_magic, InputSnapshot};
use art3m1s_core::host::events::{
    parse_font_list, push_log, push_media, push_ui, query_font_list, query_window_state,
    string_members, text_replacement, text_translation_enabled, EventRouter, HostEvents,
    EVENT_HEADER_SIZE, EVENT_KIND_LOG, EVENT_KIND_MEDIA, EVENT_KIND_UI, MAX_EVENTS,
};
use art3m1s_core::host::files::{
    archive_candidates, check_full_read, default_resources, encoding_for, is_archive_candidate,
    normalize_lookup, normalize_save_path, ArchiveEntry, DiskFacts, HostResources, NameEncoding,
    OpenedArchive, ReadAction,
};
use art3m1s_core::host_media::{
    emit, EmptyPayload, HostMediaCommandKind, SePlay, VideoLayerFrame, VideoPlay,
};
use art3m1s_core::json::{envelope, envelope_of};
use art3m1s_core::name_map::NameMap;

fn reset() -> HostEvents {
    let mut events = HostEvents::new();
    events.set_enabled(true);
    events.clear_host_state();
    events
}

fn u32_at(bytes: &[u8], at: usize) -> u32 {
    u32::from_ne_bytes(bytes[at..at + 4].try_into().unwrap())
}

fn u64_at(bytes: &[u8], at: usize) -> u64 {
    u64::from_ne_bytes(bytes[at..at + 8].try_into().unwrap())
}

#[test]
fn event_encoding_preserves_order_and_payloads() {
    let mut events = reset();
    events.push_log("W", "warning");
    events.push_media("audio_stop_all", "{}");
    events.push_ui("caption", r#"{"data":"title"}"#);

    let required = events.queued_bytes();
    let (output, count) = events.poll_events(required);
    let written = output.len();
    assert_eq!(written, required);
    assert_eq!(count, 3);

    let mut offset = 0usize;
    let first_sequence = u64_at(&output, 8);
    for (index, kind) in [EVENT_KIND_LOG, EVENT_KIND_MEDIA, EVENT_KIND_UI].into_iter().enumerate() {
        let payload_len = u32_at(&output, offset + 16) as usize;
        assert_eq!(u32_at(&output, offset + 4), kind);
        assert_eq!(u64_at(&output, offset + 8), first_sequence + index as u64);
        offset += EVENT_HEADER_SIZE + payload_len;
    }
    assert_eq!(offset, written);
}

#[test]
fn payloads_are_wrapped_as_json() {
    let mut events = reset();
    events.push_ui("caption", r#"{ "data" : "title" }"#);
    let (output, _) = events.poll_events(4096);
    assert_eq!(
        &output[EVENT_HEADER_SIZE..],
        br#"{"kind":"caption","payload":{"data":"title"}}"#
    );
    assert_eq!(envelope("k", "{ \"b\": 1, \"a\": 2 }"), r#"{"kind":"k","payload":{"a":2,"b":1}}"#);
    assert_eq!(envelope("k", "no json"), r#"{"kind":"k","payload":null}"#);
    assert_eq!(envelope_of("a\"", &Some("[]".to_string())), r#"{"kind":"a\"","payload":[]}"#);
}

#[test]
fn font_window_and_text_state_are_available_without_callbacks() {
    let mut events = reset();
    assert!(events.load_font_list(false, false, b"Font A\nFont B"));
    assert_eq!(
        events.query_font_list(false, false),
        Some(vec!["Font A".to_string(), "Font B".to_string()])
    );

    events.set_window_state(0b11);
    assert_eq!(events.query_window_state(), Some((true, true)));

    assert!(events.load_text_replacements(br#"{"hello":"translated","bad":1}"#));
    assert_eq!(events.text_replacement("hello").as_deref(), Some("translated"));
    assert_eq!(events.text_replacement("bad"), None);
    events.set_text_translation_enabled(true);
    assert!(events.text_translation_enabled());
}

#[test]
fn full_buffer_polls_complete_events_only() {
    let mut events = reset();
    events.push_log("I", "first");
    events.push_log("I", "second");
    let one_event = EVENT_HEADER_SIZE + "first".len();
    let (output, count) = events.poll_events(one_event);
    assert_eq!(output.len(), one_event);
    assert_eq!(count, 1);
    assert_eq!(events.next_event_bytes(), EVENT_HEADER_SIZE + "second".len());
}

#[test]
fn enabled_handle_routes_process_events_without_sharing_queue() {
    let mut router = EventRouter::new();
    let first = router.create();
    router.set_enabled(first, true);
    push_log(&mut router, "I", "first");
    assert_eq!(
        router.handle(first).unwrap().next_event_bytes(),
        EVENT_HEADER_SIZE + "first".len()
    );

    let second = router.create();
    router.set_enabled(second, true);
    push_log(&mut router, "I", "second");
    assert_eq!(
        router.handle(first).unwrap().next_event_bytes(),
        EVENT_HEADER_SIZE + "first".len()
    );
    assert_eq!(
        router.handle(second).unwrap().next_event_bytes(),
        EVENT_HEADER_SIZE + "second".len()
    );

    router.set_enabled(second, false);
    push_log(&mut router, "I", "dropped");
    assert_eq!(
        router.handle(second).unwrap().next_event_bytes(),
        EVENT_HEADER_SIZE + "second".len()
    );
}

#[test]
fn destroying_null_handle_is_a_noop() {
    let mut router = EventRouter::new();
    let id = router.create();
    router.set_enabled(id, true);
    router.destroy(id + 1);
    push_log(&mut router, "I", "kept");
    assert_eq!(router.handle(id).unwrap().next_event_bytes(), EVENT_HEADER_SIZE + 4);
    router.destroy(id);
    assert!(router.handle(id).is_none());
    push_media(&mut router, "audio_stop_all", "{}");
    push_ui(&mut router, "caption", "{}");
    assert_eq!(query_font_list(&router, false, false), None);
    assert_eq!(query_window_state(&router), None);
    assert_eq!(text_replacement(&router, "a"), None);
    assert!(!text_translation_enabled(&router));
}

#[test]
fn a_disabled_handle_takes_nothing() {
    let mut events = HostEvents::new();
    events.push_log("I", "lost");
    assert_eq!(events.queued_bytes(), 0);
}

#[test]
fn a_full_queue_drops_the_oldest_event() {
    let mut events = reset();
    for _ in 0..MAX_EVENTS {
        events.push_log("I", "x");
    }
    assert_eq!(events.dropped_events(), 0);
    events.push_log("I", "one more");
    assert_eq!(events.dropped_events(), 1);
    assert_eq!(
        events.queued_bytes(),
        (MAX_EVENTS - 1) * (EVENT_HEADER_SIZE + 1) + EVENT_HEADER_SIZE + 8
    );
}

#[test]
fn polling_in_parts_gives_the_same_bytes() {
    let mut whole = reset();
    let mut parts = reset();
    for events in [&mut whole, &mut parts] {
        events.push_log("E", "one");
        events.push_log("D", "two two");
    }
    let (all, count) = whole.poll_in_order(1 << 16, ByteOrder::Big);
    let (first, a) = parts.poll_in_order(EVENT_HEADER_SIZE + 3, ByteOrder::Big);
    let (second, b) = parts.poll_in_order(1 << 16, ByteOrder::Big);
    assert_eq!(count, a + b);
    assert_eq!(all, [first, second].concat());
    // The version, with its high byte first.
    assert_eq!(all[..4], [0, 0, 0, 1]);
}

#[test]
fn font_lists_are_read_line_by_line() {
    assert_eq!(parse_font_list(b" A \n\nB\n"), vec!["A".to_string(), "B".to_string()]);
    assert_eq!(parse_font_list(&[0x41, 0xff]), vec!["A\u{fffd}".to_string()]);
    let members = string_members(&vec![
        ("a".to_string(), Some("1".to_string())),
        ("b".to_string(), None),
    ]);
    assert_eq!(members.len(), 1);
    assert_eq!(members.get("a"), Some(&"1".to_string()));
}

#[test]
fn replacements_need_an_object_of_utf8() {
    let mut events = reset();
    assert!(!events.load_text_replacements(b"[1]"));
    assert!(!events.load_text_replacements(&[0xff]));
    assert!(events.load_text_replacements(b""));
}

#[test]
fn video_play_wire_payload_keeps_frontend_field_names() {
    let text = VideoPlay {
        id: Some("movie".to_string()),
        file: ":mv/opening".to_string(),
        resolved_file: Some("movie/opening".to_string()),
        skippable: true,
        loop_play: false,
    }
    .payload();
    let value: serde_json::Value = serde_json::from_str(&text).unwrap();

    assert_eq!(value["id"], "movie");
    assert_eq!(value["file"], ":mv/opening");
    assert_eq!(value["resolved_file"], "movie/opening");
    assert_eq!(value["skippable"], true);
    assert_eq!(value["loop"], false);
    assert!(value.get("loop_play").is_none());
}

#[test]
fn payloads_are_valid_json() {
    let se = SePlay {
        id: "a\"\\\u{1}".to_string(),
        file: "風.ogg".to_string(),
        resolved_file: None,
        loop_play: true,
        gain: Some(-5),
        pan: None,
        fade_ms: 18446744073709551615,
        skippable: false,
    }
    .payload();
    let value: serde_json::Value = serde_json::from_str(&se).unwrap();
    assert_eq!(value["id"], "a\"\\\u{1}");
    assert_eq!(value["gain"], -5);
    assert_eq!(value["fade_ms"], 18446744073709551615u64);
    let frame = VideoLayerFrame { id: "1".to_string(), texture: "t".to_string(), width: 2, height: 3 };
    let value: serde_json::Value = serde_json::from_str(&frame.payload()).unwrap();
    assert_eq!(value["height"], 3);
    assert_eq!(EmptyPayload {}.payload(), "{}");
}

#[test]
fn media_commands_reach_the_enabled_handle() {
    let mut router = EventRouter::new();
    let id = router.create();
    router.set_enabled(id, true);
    emit(&mut router, HostMediaCommandKind::AudioStopAll, "{}");
    assert_eq!(
        router.handle(id).unwrap().next_event_bytes(),
        EVENT_HEADER_SIZE + r#"{"kind":"audio_stop_all","payload":{}}"#.len()
    );
    assert_eq!(HostMediaCommandKind::VideoLayerFrame.as_str(), "video_layer_frame");
}

const NOWHERE: DiskFacts = DiskFacts { save: None, sidecar: None, indexed: None };

fn found(files: &[(&str, &str)]) -> Vec<(String, String)> {
    files.iter().map(|(a, b)| (a.to_string(), b.to_string())).collect()
}

fn archive(path: &str, entries: &[(&str, u32)]) -> OpenedArchive {
    OpenedArchive {
        path: path.to_string(),
        entries: Ok(entries
            .iter()
            .map(|(name, size)| ArchiveEntry { path: name.to_string(), size: *size })
            .collect()),
    }
}

#[test]
fn directory_mount_supports_overrides_and_save_precedence() {
    let mut resources = HostResources::new();
    resources
        .mount_directory("/root", true, &found(&[("data/value.txt", "/root/data/value.txt")]))
        .unwrap();
    let on_disk = DiskFacts { save: None, sidecar: None, indexed: Some(8) };
    let read = resources.read_file("DATA\\VALUE.TXT", &on_disk).ok().unwrap();
    assert_eq!(read.size, 8);
    assert!(matches!(read.action, Some(ReadAction::File(path)) if path == "/root/data/value.txt"));

    resources.set_override("data/value.txt", b"override".to_vec()).unwrap();
    let read = resources.read_file("data/value.txt", &on_disk).ok().unwrap();
    assert!(matches!(read.action, Some(ReadAction::Bytes(bytes)) if bytes == b"override"));

    resources.set_save_dir(Some("/root/save"));
    let target = resources.write("data/value.txt").ok().unwrap();
    assert_eq!((target.root.as_str(), target.relative.as_str()), ("/root/save", "data/value.txt"));
    let saved = DiskFacts { save: Some(Some(4)), sidecar: None, indexed: Some(8) };
    let read = resources.read_file("data/value.txt", &saved).ok().unwrap();
    assert_eq!(read.size, 4);
    assert!(matches!(read.action, Some(ReadAction::Disk(path)) if path.root == "/root/save"));
    let gone = resources.delete("data/value.txt").ok().unwrap();
    assert_eq!((gone.root.as_str(), gone.relative.as_str()), ("/root/save", "data/value.txt"));
    let read = resources.read_file("data/value.txt", &on_disk).ok().unwrap();
    assert!(matches!(read.action, Some(ReadAction::Bytes(bytes)) if bytes == b"override"));
    assert!(resources.mount_directory("/x", false, &Vec::new()).is_err());
}

#[test]
fn pfs_mount_ignores_invalid_sibling_candidates() {
    let names: Vec<String> = ["game.pfs", "._game.pfs.001", "game.pfs.001", "readme.txt"]
        .iter()
        .map(|name| name.to_string())
        .collect();
    assert_eq!(archive_candidates(&names), vec!["game.pfs".to_string(), "game.pfs.001".to_string()]);
    assert!(is_archive_candidate("A.PFS"));
    assert!(!is_archive_candidate("a.pfs.txt"));

    let mut resources = HostResources::new();
    let broken = OpenedArchive {
        path: "/g/game.pfs.001".to_string(),
        entries: Err("no archive".to_string()),
    };
    resources
        .mount_pfs("/g", "/g/game.pfs", vec![archive("/g/game.pfs", &[("system.ini", 23)]), broken])
        .unwrap();
    assert_eq!(resources.query_size("system.ini", &NOWHERE), Ok(Some(23)));

    let mut other = HostResources::new();
    let asked = OpenedArchive { path: "/g/a".to_string(), entries: Err("bad".to_string()) };
    assert!(other.mount_pfs("/g", "/g/a", vec![asked]).is_err());
    assert!(other.mount_pfs("/g", "/g/a", Vec::new()).is_err());
    assert!(!other.is_mounted());
}

#[test]
fn pfs_mount_reads_sidecar_files_after_archive_entries() {
    let mut resources = HostResources::new();
    resources
        .mount_pfs(
            "/g",
            "/g/game.pfs",
            vec![archive("/g/game.pfs", &[("system.ini", 23), ("movie/logo.dat", 12)])],
        )
        .unwrap();
    assert_eq!(resources.query_size("system.ini", &NOWHERE), Ok(Some(23)));
    let beside = DiskFacts { save: None, sidecar: Some(Some(12)), indexed: None };
    assert_eq!(resources.query_size("movie/logo.dat", &beside), Ok(Some(12)));
    let logo = resources.read_file("movie/logo.dat", &beside).ok().unwrap();
    assert!(matches!(
        logo.action,
        Some(ReadAction::Disk(path)) if path.root == "/g" && path.relative == "movie/logo.dat"
    ));
    let only_beside = DiskFacts { save: None, sidecar: Some(Some(15)), indexed: None };
    let opening = resources.read_file("movie/opening.dat", &only_beside).ok().unwrap();
    assert_eq!(opening.size, 15);
    assert!(matches!(
        opening.action,
        Some(ReadAction::Disk(path)) if path.root == "/g" && path.relative == "movie/opening.dat"
    ));
    assert!(resources.read_file("movie/opening.dat", &NOWHERE).is_err());
    assert!(matches!(
        resources.read_range("movie/logo.dat", 0, 4, &beside),
        Ok(ReadAction::Disk(path)) if path.root == "/g" && path.relative == "movie/logo.dat"
    ));
    assert!(matches!(
        resources.read_range("movie/logo.dat", 0, 4, &NOWHERE),
        Ok(ReadAction::Archive { archive: 0, path }) if path == "movie/logo.dat"
    ));
    assert!(matches!(
        resources.read_range("gone", 0, 4, &NOWHERE),
        Err(message) if message == "not found: gone"
    ));
}

#[test]
fn pfs_patch_volumes_override_lower_volumes() {
    let mut resources = HostResources::new();
    resources
        .mount_pfs(
            "/g",
            "/g/game.pfs",
            vec![
                archive("/g/game.pfs", &[("system.ini", 4), ("only-base.txt", 9)]),
                archive("/g/game.pfs.001", &[("system.ini", 9), ("only-001.txt", 8)]),
                archive("/g/game.pfs.002", &[("system.ini", 9), ("only-002.txt", 8)]),
            ],
        )
        .unwrap();
    let served = |path: &str| {
        let read = resources.read_file(path, &NOWHERE).ok().unwrap();
        match read.action {
            Some(ReadAction::Archive { archive, path }) => (archive, path, read.size),
            _ => panic!("no archive"),
        }
    };
    assert_eq!(served("system.ini"), (2, "system.ini".to_string(), 9));
    assert_eq!(served("only-base.txt"), (0, "only-base.txt".to_string(), 9));
    assert_eq!(served("only-001.txt"), (1, "only-001.txt".to_string(), 8));
    assert_eq!(served("only-002.txt"), (2, "only-002.txt".to_string(), 8));
}

#[test]
fn media_source_reads_mounted_resources() {
    assert!(!default_resources().is_mounted());
    let mut resources = HostResources::new();
    assert!(resources.open_media_source("movie/opening.bin", &NOWHERE).is_err());
    resources
        .mount_directory("/r", true, &found(&[("movie/opening.bin", "/r/movie/opening.bin")]))
        .unwrap();
    let facts = DiskFacts { save: None, sidecar: None, indexed: Some(10) };
    let source = resources.open_media_source("movie\\opening.bin", &facts).ok().unwrap();
    assert_eq!(source.len(&resources, &facts), Ok(10));
    assert!(matches!(
        source.read_at(&resources, 3, 4, &facts),
        Ok(ReadAction::File(path)) if path == "/r/movie/opening.bin"
    ));
    resources.set_override("movie/opening.bin", b"0123456789".to_vec()).unwrap();
    assert!(matches!(
        source.read_at(&resources, 3, 4, &facts),
        Ok(ReadAction::Bytes(bytes)) if bytes == b"3456"
    ));
    assert!(resources.open_media_source("gone", &NOWHERE).is_err());
}

#[test]
fn resource_handles_keep_mounts_isolated() {
    let mut a = HostResources::new();
    let mut b = HostResources::new();
    a.mount_directory("/a", true, &found(&[("value.txt", "/a/value.txt")])).unwrap();
    b.mount_directory("/b", true, &found(&[("value.txt", "/b/value.txt")])).unwrap();
    let facts = DiskFacts { save: None, sidecar: None, indexed: Some(1) };
    let file_of = |resources: &HostResources| match resources.read_file("value.txt", &facts) {
        Ok(read) => match read.action {
            Some(ReadAction::File(path)) => (path, read.size),
            _ => panic!("no file"),
        },
        Err(message) => panic!("{message}"),
    };
    assert_eq!(file_of(&a), ("/a/value.txt".to_string(), 1));
    assert_eq!(file_of(&b), ("/b/value.txt".to_string(), 1));

    a.clear();
    assert!(a.query_size("value.txt", &facts).is_err());
    assert_eq!(file_of(&b), ("/b/value.txt".to_string(), 1));
}

#[test]
fn overrides_are_cut_to_the_range() {
    let mut resources = HostResources::new();
    resources.set_override("a", b"0123456789".to_vec()).unwrap();
    let read = |offset, wanted| match resources.read_range("a", offset, wanted, &NOWHERE) {
        Ok(ReadAction::Bytes(bytes)) => bytes,
        _ => panic!("no bytes"),
    };
    assert_eq!(read(3, 4), b"3456");
    assert_eq!(read(8, 4), b"89");
    assert_eq!(read(11, 4), b"");
    assert!(matches!(
        resources.set_override("../a", Vec::new()),
        Err(message) if message == "invalid override path: ../a"
    ));
    assert!(matches!(
        resources.read_range("..", 0, 1, &NOWHERE),
        Err(message) if message == "invalid resource path: .."
    ));
}

#[test]
fn lookup_keys_do_not_depend_on_case_or_slashes() {
    assert_eq!(normalize_lookup("Data\\Value.TXT"), Some("data/value.txt".to_string()));
    assert_eq!(normalize_lookup("./a//b"), Some("a/b".to_string()));
    assert_eq!(normalize_lookup("../a"), None);
    assert_eq!(normalize_save_path("Data\\A"), Some("Data/A".to_string()));
    assert_eq!(normalize_save_path("C:/a"), None);
    assert!(matches!(encoding_for("gbk"), NameEncoding::Gbk));
    assert!(matches!(encoding_for(" SJIS "), NameEncoding::ShiftJis));
    assert!(matches!(encoding_for("gb18030"), NameEncoding::Gb18030));
    assert!(matches!(encoding_for("unknown"), NameEncoding::Utf8));
    assert!(check_full_read("a", 3, 3).is_ok());
    assert!(check_full_read("a", 2, 3).is_err());
}

#[test]
fn magic_names_are_resolved() {
    let mut table: NameMap<String> = NameMap::new();
    table.insert("bg", "image/bg".to_string());
    assert_eq!(resolve_magic(&table, ":bg/room"), "image/bg/room");
    assert_eq!(resolve_magic(&table, ":gone/room"), "image/room");
    assert_eq!(resolve_magic(&table, ":foo"), "image/foo");
    assert_eq!(resolve_magic(&table, ":bg"), "image/bg/");
    assert_eq!(resolve_magic(&table, "plain"), "plain");
    table.insert("bg", "image/background".to_string());
    assert_eq!(resolve_magic(&table, ":bg/room.png"), "image/background/room.png");
    assert_eq!(resolve_magic(&table, ":fg/aya.png"), "image/aya.png");
    assert_eq!(resolve_magic(&table, "plain/x.png"), "plain/x.png");
}

#[test]
fn overridden_keys_are_released_again() {
    let mut input = InputSnapshot::new();
    input.keys_down.insert(13);
    input.keys_down_edge.insert(13);
    assert!(input.key_down(13));
    assert!(!input.key_down(32));
    input.override_key(32, 1);
    assert!(input.key_down(32));
    input.override_key(32, 0);
    assert!(!input.key_down(32));
    input.clear_edges();
    assert!(!input.keys_down_edge.contains(13));
    assert!(input.key_down(13));
}

fn chunk(kind: &[u8; 4], data: &[u8]) -> Vec<u8> {
    let mut out = Vec::new();
    out.extend_from_slice(&(data.len() as u32).to_be_bytes());
    out.extend_from_slice(kind);
    out.extend_from_slice(data);
    out.extend_from_slice(&[0; 4]);
    out
}

#[test]
fn text_chunks_of_a_picture_are_read() {
    let mut png = vec![0x89, b'P', b'N', b'G', b'\r', b'\n', 0x1a, b'\n'];
    png.extend(chunk(b"tEXt", b"comment\0pos,1,2"));
    png.extend(chunk(b"IEND", b""));
    let texts = parse_png_text_chunks(&png);
    assert_eq!(texts.get("comment"), Some(&"pos,1,2".to_string()));
    assert_eq!(parse_png_text_chunks(b"no picture").len(), 0);
}
