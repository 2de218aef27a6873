use art3m1s_core::audio::{is_voice_playing, AudioState, FinishHandler, SoundChannel};
use art3m1s_core::host_media::HostMediaCommandKind;
use art3m1s_core::runtime::finish::{
    advance_media_and_enqueue_finish_handlers, notify_sound_finished, notify_video_finished,
    VideoFinish,
};
use art3m1s_core::runtime::media::{
    accepts_video_frame, apply_media_event, apply_system_audio_volume, restore_audio_snapshot,
    stop_all_media, MediaCall, MediaEvent, VideoLayer,
};
use art3m1s_core::runtime::save_io::{
    encode_png_rgba, handle_go_title, handle_save_screenshot, qualify_save_path,
    resize_screenshot_rgba, sanitize_savepath, saved_scene, scope_path, scope_variable,
    screenshot_paths_for, SaveScope, ScreenshotBuffer,
};
use art3m1s_core::runtime::wait::{WaitReason, WaitState};
use art3m1s_core::save::{AudioSnapshot, SaveManager};

#[test]
fn save_paths_are_qualified_with_savepath_once() {
    assert_eq!(
        qualify_save_path("save0001.dat", "savedata").unwrap(),
        "savedata/save0001.dat"
    );
    assert_eq!(
        qualify_save_path("savedata/save0001.dat", "savedata").unwrap(),
        "savedata/save0001.dat"
    );
    assert_eq!(
        qualify_save_path(r"savedata\\saveg.dat", "savedata").unwrap(),
        "savedata/saveg.dat"
    );
}

#[test]
fn save_paths_reject_parent_traversal() {
    assert!(qualify_save_path("../save0001.dat", "savedata").is_err());
    assert!(qualify_save_path("C:/save0001.dat", "savedata").is_err());
}

#[test]
fn savepath_from_ini_is_sanitized() {
    assert_eq!(sanitize_savepath(Some(r"Citrus\\hokeloli")), "Citrus/hokeloli");
    assert_eq!(sanitize_savepath(Some("../bad/save")), "bad/save");
    assert_eq!(sanitize_savepath(None), "save");
}

#[test]
fn blank_save_directories_fall_back() {
    assert_eq!(sanitize_savepath(Some("  ")), "save");
    assert_eq!(sanitize_savepath(Some("C:\\..\\.")), "save");
}

fn picture() -> ScreenshotBuffer<u8> {
    ScreenshotBuffer {
        width: 2,
        height: 2,
        rgba: vec![255, 0, 0, 255, 0, 255, 0, 255, 0, 0, 255, 255, 255, 255, 255, 255],
        scene: 7,
    }
}

#[test]
fn screenshot_resize_and_png_encode_work() {
    let screenshot = picture();
    let resized = resize_screenshot_rgba(&screenshot, 1, 1).unwrap();
    assert_eq!(resized.len(), 4);

    let png = encode_png_rgba(&resized, 1, 1).unwrap();
    let decoded = image::load_from_memory(&png).unwrap().to_rgba8();
    assert_eq!(decoded.dimensions(), (1, 1));
}

#[test]
fn pictures_of_their_own_size_stay_and_others_are_scaled() {
    let screenshot = picture();
    assert_eq!(resize_screenshot_rgba(&screenshot, 2, 2).unwrap(), screenshot.rgba);
    let wide = resize_screenshot_rgba(&screenshot, 4, 2).unwrap();
    assert_eq!(wide.len(), 32);
    let png = encode_png_rgba(&screenshot.rgba, 2, 2).unwrap();
    let decoded = image::load_from_memory(&png).unwrap().to_rgba8();
    assert_eq!(decoded.into_raw(), screenshot.rgba);
    assert!(encode_png_rgba(&screenshot.rgba, 3, 2).is_err());
    let broken = ScreenshotBuffer { width: 2, height: 2, rgba: vec![0; 3], scene: () };
    assert!(resize_screenshot_rgba(&broken, 1, 1).is_err());
}

#[test]
fn thumbnails_are_named_after_their_file() {
    assert_eq!(
        screenshot_paths_for("thumb.PNG", "save"),
        Ok(("save/thumb".to_string(), "save/thumb.PNG".to_string()))
    );
    assert_eq!(
        screenshot_paths_for("thumb", "save"),
        Ok(("save/thumb".to_string(), "save/thumb.png".to_string()))
    );
    assert!(matches!(
        screenshot_paths_for("../thumb", "save"),
        Err(message) if message == "非法缩略图路径: ../thumb"
    ));
    let thumbnail = handle_save_screenshot(Some(&picture()), "t", Some(0), None, "save").ok().unwrap();
    assert_eq!((thumbnail.width, thumbnail.height), (1, 2));
    assert_eq!(thumbnail.rgba.len(), 8);
    assert!(handle_save_screenshot::<u8>(None, "t", None, None, "save").is_err());
}

#[test]
fn scopes_have_their_own_files_and_prefixes() {
    assert_eq!(scope_path(SaveScope::Global, "save"), Ok("save/saveg.dat".to_string()));
    assert_eq!(scope_path(SaveScope::System, "save"), Ok("save/system.dat".to_string()));
    assert_eq!(scope_variable(SaveScope::Global, "a"), "g.a");
    assert_eq!(scope_variable(SaveScope::System, "a"), "s.a");
}

#[test]
fn the_title_begins_anew() {
    let mut hovered = vec!["1".to_string()];
    let mut screenshot = Some(picture());
    let mut wait = WaitState::new();
    wait.wait_reason = Some(WaitReason::Generic);
    wait.timed_remaining_ms = 5;
    let start = handle_go_title(&mut hovered, &mut screenshot, &mut wait, None);
    assert_eq!(start, ("system/first.iet".to_string(), "title".to_string()));
    let start = handle_go_title(&mut hovered, &mut screenshot, &mut wait, Some("boot.iet"));
    assert_eq!(start, ("boot.iet".to_string(), "title".to_string()));
    assert!(hovered.is_empty() && screenshot.is_none());
    assert!(wait.wait_reason.is_none() && wait.timed_remaining_ms == 0);
    assert_eq!(saved_scene(Some(picture()), 1), 7);
    assert_eq!(saved_scene(None, 1), 1);
}

#[test]
fn saved_games_have_one_ending() {
    let manager = SaveManager { save_dir: "/save".to_string() };
    assert_eq!(manager.resolve("slot1"), "slot1.dat");
    assert_eq!(manager.resolve("slot1.dat"), "slot1.dat");
    let names = vec!["b.dat".to_string(), "a.dat".to_string(), "a.txt".to_string()];
    assert!(manager.has_save("a", &names));
    assert!(manager.has_save("a.dat", &names));
    assert!(!manager.has_save("c", &names));
    assert!(!manager.has_save("a.txt", &names));
    assert!(manager.list(&names).iter().all(|name| manager.has_save(name, &names)));
    assert_eq!(manager.list(&names).len(), 2);
}

fn channel(id: &str, file: &str, gain: i32, pan: i32, skippable: bool) -> SoundChannel {
    SoundChannel {
        id: id.to_string(),
        file: file.to_string(),
        playing: true,
        loop_play: true,
        raw_gain: gain,
        raw_pan: pan,
        skippable,
    }
}

#[test]
fn audio_snapshot_replays_active_channels_from_start() {
    let mut audio = AudioState::new();
    audio.bgm_channel = Some(channel("bgm", "bgm/scene.ogg", 700, -100, false));
    audio.se_channels.insert("amb", channel("amb", "se/wind.ogg", 400, 100, true));

    let snapshot = AudioSnapshot::from_audio(&audio);
    assert_eq!(snapshot.bgm.as_ref().unwrap().file, "bgm/scene.ogg");
    assert_eq!(snapshot.bgm.as_ref().unwrap().gain, 700);
    assert_eq!(snapshot.se[0].file, "se/wind.ogg");
    assert!(snapshot.se[0].skippable);

    let mut calls = Vec::new();
    snapshot.restore_into(&mut calls);
    let bgm = calls
        .iter()
        .find_map(|call| match call {
            MediaCall::PlayBgm { file, settings } => Some((file, settings)),
            _ => None,
        })
        .unwrap();
    assert_eq!(bgm.0, "bgm/scene.ogg");
    assert_eq!(bgm.1.gain, Some(700));
    assert_eq!(bgm.1.fade_in_ms, 0);
    let se = calls
        .iter()
        .find_map(|call| match call {
            MediaCall::PlaySe { id, file, settings } => Some((id, file, settings)),
            _ => None,
        })
        .unwrap();
    assert_eq!((se.0.as_str(), se.1.as_str()), ("amb", "se/wind.ogg"));
    assert_eq!(se.2.gain, Some(400));
    assert!(se.2.skippable);
    assert_eq!(se.2.fade_in_ms, 0);
}

#[test]
fn silent_channels_are_not_saved() {
    let mut audio = AudioState::new();
    let mut silent = channel("a", "a.ogg", 1, 1, false);
    silent.playing = false;
    audio.se_channels.insert("a", silent);
    audio.se_channels.insert("c", channel("c", "c.ogg", 1, 1, false));
    audio.se_channels.insert("b", channel("b", "b.ogg", 1, 1, false));
    let snapshot = AudioSnapshot::from_audio(&audio);
    let ids: Vec<&str> = snapshot.se.iter().map(|c| c.id.as_str()).collect();
    assert_eq!(ids, vec!["b", "c"]);
    let resolved = vec!["se/b.ogg".to_string(), "se/c.ogg".to_string()];
    let commands = restore_audio_snapshot(&snapshot, &resolved);
    assert!(commands.iter().all(|(kind, _)| matches!(kind, HostMediaCommandKind::AudioSePlay)));
    let paths: Vec<String> = commands
        .iter()
        .map(|(_, payload)| {
            let value: serde_json::Value = serde_json::from_str(payload).unwrap();
            value["resolved_file"].as_str().unwrap().to_string()
        })
        .collect();
    assert_eq!(paths, resolved);
}

#[test]
fn voices_are_numbered() {
    let mut serial = 0;
    let event = MediaEvent::VoicePlay {
        file: "v.ogg".to_string(),
        gain: None,
        pan: None,
        fade_time: None,
    };
    let id = |plan: &MediaCall| match plan {
        MediaCall::PlayVoice { id, .. } => id.clone(),
        _ => panic!("no voice"),
    };
    let first = id(&apply_media_event(&event, &mut serial, "voice/v.ogg").call);
    let second = id(&apply_media_event(&event, &mut serial, "voice/v.ogg").call);
    assert_ne!(first, second);
    assert_eq!(serial, 2);
}

#[test]
fn media_events_tell_the_host() {
    let mut serial = 0;
    let plan = apply_media_event(
        &MediaEvent::VideoPlay {
            id: None,
            file: ":mv/op".to_string(),
            skip: true,
            loop_play: false,
        },
        &mut serial,
        "movie/op",
    );
    assert!(matches!(plan.call, MediaCall::PlayFullscreen { .. }));
    let (kind, payload) = plan.command.unwrap();
    assert_eq!(kind.as_str(), "video_play");
    let value: serde_json::Value = serde_json::from_str(&payload).unwrap();
    assert_eq!(value["resolved_file"], "movie/op");
    assert!(value["id"].is_null());
    let plan = apply_media_event(
        &MediaEvent::SoundFinishHandlerDel { id: String::new() },
        &mut serial,
        "",
    );
    assert!(matches!(plan.call, MediaCall::RemoveSoundFinish { id: None }));
    assert!(plan.command.is_none());
    let silenced = stop_all_media(&vec![
        VideoLayer { id: "1.0".to_string(), playing: true },
        VideoLayer { id: "2.0".to_string(), playing: false },
    ]);
    assert_eq!(silenced.layers, vec!["1.0".to_string(), "2.0".to_string()]);
    let stop: Vec<&str> = silenced.commands.iter().map(|(kind, _)| kind.as_str()).collect();
    assert_eq!(stop, vec!["audio_stop_all", "video_stop_all"]);
}

#[test]
fn system_volumes_stay_in_range() {
    assert_eq!(
        apply_system_audio_volume(Some(1500), Some(-3)),
        vec![("bgm".to_string(), 1000), ("se".to_string(), 0)]
    );
    assert_eq!(apply_system_audio_volume(None, Some(250)), vec![("se".to_string(), 250)]);
}

fn finish(label: &str) -> FinishHandler {
    FinishHandler { file: None, label: Some(label.to_string()), call: true, handler: None }
}

#[test]
fn ends_of_media_run_their_handlers() {
    let mut queue = Vec::new();
    let mut audio = AudioState::new();
    audio.bgm_channel = Some(channel("bgm", "a.ogg", 0, 0, false));
    audio.bgm_finish_handler = Some(finish("over"));
    notify_sound_finished(&mut queue, &mut audio, None);
    assert_eq!(queue.len(), 1);
    assert_eq!(queue[0].params.get("label"), Some(&"over".to_string()));
    let ends = advance_media_and_enqueue_finish_handlers(
        &mut queue,
        false,
        &vec![Some(finish("a"))],
        &vec![
            VideoFinish { id: Some("v".to_string()), handler: Some(finish("b")) },
            VideoFinish { id: None, handler: None },
        ],
    );
    assert_eq!(ends.cleared, vec!["v".to_string()]);
    assert!(ends.video_finished);
    assert_eq!(queue.len(), 3);
    assert!(notify_video_finished(&mut queue, &None, None));
    assert!(!notify_video_finished(&mut queue, &Some(finish("c")), Some("v")));
}

#[test]
fn frames_are_taken_for_playing_layers_only() {
    let layers = vec![
        VideoLayer { id: "a".to_string(), playing: true },
        VideoLayer { id: "b".to_string(), playing: false },
    ];
    assert!(accepts_video_frame(&layers, "a"));
    assert!(!accepts_video_frame(&layers, "b"));
    assert!(!accepts_video_frame(&layers, "c"));
    let mut audio = AudioState::new();
    assert!(!is_voice_playing(&audio));
    audio.voice_channels.insert("v", channel("v", "v.ogg", 0, 0, false));
    assert!(is_voice_playing(&audio));
}
