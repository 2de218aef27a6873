use art3m1s_core::name_map::NameMap;
use art3m1s_core::paths::{cleaned, PartRule};
use art3m1s_core::project::{
    parse_ini, resolve_project_path, start_boot_label, CoreError, Project, ProjectConfig,
    ScriptEncoding,
};
use art3m1s_core::runtime::actions::ControlAction;
use art3m1s_core::runtime::control::RuntimeControlState;
use art3m1s_core::runtime::events::{
    apply_control_action, dispatch_event, dispatch_events, event_summary, format_map, EventAction, ScriptEvent,
    SummaryEvent,
};
use art3m1s_core::runtime::project::{
    event_requires_host_pause, project_title, texture_paths, PauseEvent,
};
use art3m1s_core::text_order::text_before;

const INI: &str = "; comment\n[WINDOWS]\nWIDTH=1280\nHEIGHT=720\nFPS=60\nCHARSET=UTF-8\nBOOT=system/first.iet\nRESIZABLE=1\nFIXED_ASPECT_RATIO=1\nFRAMELESS=0\n";

#[test]
fn layer_video_does_not_pause_script_execution() {
    assert!(!event_requires_host_pause(&PauseEvent::VideoPlay { id: Some("1.0.effect".into()) }));
    assert!(event_requires_host_pause(&PauseEvent::VideoPlay { id: None }));
}

#[test]
fn waits_and_dialogs_pause_the_script() {
    assert!(event_requires_host_pause(&PauseEvent::Wait));
    assert!(event_requires_host_pause(&PauseEvent::YesNo));
    assert!(event_requires_host_pause(&PauseEvent::ShowDialog));
    assert!(event_requires_host_pause(&PauseEvent::Trans { trans_type: 1 }));
    assert!(!event_requires_host_pause(&PauseEvent::Trans { trans_type: 0 }));
    assert!(!event_requires_host_pause(&PauseEvent::Other));
}

#[test]
fn windows_config_is_read() {
    let project = match Project::open_from_data("/game", INI, "WINDOWS") {
        Ok(project) => project,
        Err(error) => panic!("{}", error.message()),
    };
    let config = project.config();
    assert_eq!(config.stage_width, 1280);
    assert_eq!(config.stage_height, 720);
    assert_eq!(config.fps, 60);
    assert_eq!(config.charset, "UTF-8");
    assert_eq!(config.boot_script, "system/first.iet");
    assert!(config.resizable);
    assert!(config.fixed_aspect_ratio);
    assert!(!config.frameless);
    let interpreter = config.to_interpreter_config(Some("/game"));
    assert!(matches!(interpreter.encoding, ScriptEncoding::Utf8));
    assert_eq!(project.root(), "/game");
}

#[test]
fn faults_of_a_configuration_are_told() {
    let fault = |ini: &str| match ProjectConfig::from_system_ini(ini, "WINDOWS") {
        Ok(_) => panic!("no fault"),
        Err(error) => error,
    };
    let missing = fault("[ANDROID]\nWIDTH=1");
    assert!(matches!(&missing, CoreError::MissingIniSection { section } if section == "WINDOWS"));
    let key = fault("[WINDOWS]\nHEIGHT=1");
    assert!(matches!(&key, CoreError::MissingIniKey { key, .. } if key == "WIDTH"));
    let number = fault("[WINDOWS]\nWIDTH=wide\nHEIGHT=1\nFPS=60\nCHARSET=UTF-8\nBOOT=a");
    assert!(matches!(&number, CoreError::InvalidIniNumber { value, .. } if value == "wide"));
    assert!(number.message().contains("\"wide\"") || number.message().contains("wide"));
    assert!(matches!(
        resolve_project_path("/game", "../x"),
        Err(CoreError::InvalidProjectPath { path }) if path == "../x"
    ));
    assert!(matches!(resolve_project_path("/game", "a/./b"), Ok(path) if path == "/game/a/b"));
}

#[test]
fn later_values_win() {
    let sections = parse_ini("[a]\nk=1\n[A]\nK = 2 \n");
    assert_eq!(sections.get("A").unwrap().get("K"), Some(&"2".to_string()));
    assert_eq!(sections.len(), 1);
    assert_eq!(start_boot_label(&Vec::new()), None);
}

#[test]
fn titles_and_textures_are_found() {
    assert_eq!(project_title("A=1\r\nTITLE= My = game \nTITLE=other"), "My = game");
    assert_eq!(project_title("A=1"), "");
    assert_eq!(
        texture_paths("image/bg/room"),
        vec!["image/bg/room.png".to_string(), "image/bg/room".to_string()]
    );
}

#[test]
fn cleaned_paths_stay_clean() {
    let once = cleaned(PartRule::Lookup, "a\\.\\b//c").unwrap();
    assert_eq!(once, "a/b/c");
    assert_eq!(cleaned(PartRule::Lookup, &once), Some(once.clone()));
    assert_eq!(cleaned(PartRule::Lenient, "a/../b"), Some("a/b".to_string()));
    assert!(text_before("a", "b"));
    assert!(text_before("a", "ab"));
    assert!(!text_before("b", "ab"));
}

#[test]
fn script_events_ask_for_work() {
    assert!(matches!(
        dispatch_event(&ScriptEvent::SaveGame { file: String::new() }, "save"),
        EventAction::SaveSystem
    ));
    assert!(matches!(
        dispatch_event(&ScriptEvent::SaveGame { file: "a".to_string() }, "save"),
        EventAction::Save { file } if file == "a"
    ));
    assert!(matches!(
        dispatch_event(&ScriptEvent::LoadGame { file: String::new() }, "save"),
        EventAction::Refuse
    ));
    let shader = |pairs: &[(&str, &str)]| {
        let mut params = NameMap::new();
        for (key, value) in pairs {
            params.insert(key, value.to_string());
        }
        ScriptEvent::Custom { tag: "lyshader".to_string(), params }
    };
    assert!(matches!(
        dispatch_event(&shader(&[("id", "s"), ("file", "s.hlsl")]), "save"),
        EventAction::LoadShader { id, file } if id == "s" && file == "s.hlsl"
    ));
    assert!(!matches!(
        dispatch_event(&shader(&[("id", "s")]), "save"),
        EventAction::LoadShader { .. }
    ));
    let all = dispatch_events(&vec![ScriptEvent::Exit, ScriptEvent::GoTitle, ScriptEvent::Other], "s");
    assert!(matches!(all[0], EventAction::Exit));
    assert!(matches!(all[1], EventAction::GoTitle));
    assert!(matches!(all[2], EventAction::Nothing));
    let dialog = ScriptEvent::ShowDialog {
        title: "t".to_string(),
        message: "m".to_string(),
        varname: Some("v".to_string()),
        textfield: None,
        textfield_size: Some(8),
    };
    assert!(matches!(
        dispatch_event(&dialog, "s"),
        EventAction::Dialog { title, message, varname, textfield, textfield_size }
            if title == "t" && message == "m" && varname.as_deref() == Some("v")
                && textfield.is_none() && textfield_size == Some(8)
    ));
}

#[test]
fn script_events_change_the_control_state() {
    let mut control = RuntimeControlState::default();
    let mut noted = Vec::new();
    let scene: NameMap<bool> = NameMap::new();
    let mut take = |control: &mut RuntimeControlState, event: ScriptEvent| {
        let action = dispatch_event(&event, "s");
        apply_control_action(control, &action, None, &scene, &mut noted)
    };
    assert!(!take(&mut control, ScriptEvent::GoTitle));
    let config = ScriptEvent::AutoModeConfig {
        allow: true,
        layer: Some("auto".to_string()),
        stop_by_click: Some(false),
        stop_by_stop: None,
        sync_se: Some(vec!["1".to_string()]),
    };
    assert!(take(&mut control, config));
    assert_eq!(control.automode_layer.as_deref(), Some("auto"));
    assert_eq!(control.automode_sync_se, vec!["1".to_string()]);
    assert!(control.modes.automode_allowed && !control.modes.automode_stop_by_click);
    let on = ScriptEvent::Exec { command: "automode".to_string(), mode: None };
    assert!(take(&mut control, on) && control.automode_active());
    assert!(take(&mut control, ScriptEvent::AutoSkipDisable) && !control.automode_active());
    let skip = ScriptEvent::SkipConfig { allow: Some(false), skip_unread: Some(true) };
    assert!(take(&mut control, skip));
    assert!(!control.modes.skip_allowed && control.modes.skip_unread);
    let exec = ScriptEvent::Exec { command: "fullscreen".to_string(), mode: None };
    assert!(take(&mut control, exec));
    assert!(matches!(
        noted.last(),
        Some(ControlAction::UiCommand { kind, payload })
            if kind == "exec" && payload == "{\"command\":\"fullscreen\"}"
    ));
}

#[test]
fn events_are_told_in_one_line() {
    assert_eq!(
        event_summary(&SummaryEvent::LayerCreate { id: "1".to_string(), file: "a".to_string() }),
        "LayerCreate id=1 file=a"
    );
    assert_eq!(
        event_summary(&SummaryEvent::LayerCreate2 {
            id: "1".to_string(),
            file: "a".to_string(),
            alpha: "Some(3)".to_string(),
        }),
        "LayerCreate2 id=1 file=a alpha=Some(3)"
    );
    assert_eq!(
        event_summary(&SummaryEvent::LayerTween {
            id: "1".to_string(),
            param: "left".to_string(),
            to: "Some(5)".to_string(),
            time: "None".to_string(),
        }),
        "LayerTween id=1 left->Some(5) time=None"
    );
    assert_eq!(
        event_summary(&SummaryEvent::Trans {
            trans_type: -1,
            time: Some(500),
            rule: Some("r\"1".to_string()),
        }),
        "Trans type=-1 time=Some(500) rule=Some(\"r\\\"1\")"
    );
    let long = event_summary(&SummaryEvent::Told { text: "x".repeat(500) });
    assert!(long.chars().count() <= 201);
    let mut map = NameMap::new();
    map.insert("b", "2".to_string());
    map.insert("a", "1".to_string());
    let told = format_map(&map);
    assert!(told.find('a').unwrap() < told.find('b').unwrap());
}
