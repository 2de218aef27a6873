use art3m1s_core::name_map::NameMap;
use art3m1s_core::runtime::actions::ControlAction;
use art3m1s_core::runtime::control::{exec_input_route, RuntimeControlState};
use art3m1s_core::runtime::keymap::{
    parse_keyconfig, ROLE_ADVANCE, ROLE_AVOID_IN, ROLE_AVOID_OUT, ROLE_CONTROL_SKIP, ROLE_HIDE_IN,
    ROLE_SKIP_IN,
};
use art3m1s_core::runtime::modes::{auto_wait_ms, Modes};
use art3m1s_core::runtime::wait::{
    engine_status_for, global_push_absorbs_default_click, plan_tags,
    stop_wait_accepts_scripted_decide, timed_wait_accepts_click, wait_reason_is_click_wait,
    DrainReport, DrainWait, RunNext, RunResult, ScriptStatus, StopDrain, TagPlan, WaitInputs, WaitOutcome,
    WaitReason, WaitState,
};

fn params(pairs: &[(&str, &str)]) -> NameMap<String> {
    let mut map = NameMap::new();
    for (key, value) in pairs {
        map.insert(key, value.to_string());
    }
    map
}

fn scene(layers: &[(&str, bool)]) -> NameMap<bool> {
    let mut map = NameMap::new();
    for (id, visible) in layers {
        map.insert(id, *visible);
    }
    map
}

#[test]
fn load_reset_disables_transient_advance_modes() {
    let mut control = RuntimeControlState::default();
    control.modes.skip_active = true;
    control.modes.automode_active = true;
    control.modes.auto_wait_elapsed_ms = 500;
    control.modes.skip_wait_revealed = true;
    control.modes.skip_hold_frames = 3;
    control.modes.was_skipping = true;
    control.modes.control_skip_active = true;
    control.hiding.active = true;
    control.hiding.hidden_layers = vec![("mw".into(), true)];

    control.reset_modes_for_load();

    assert!(!control.skip_active());
    assert!(!control.automode_active());
    assert_eq!(control.modes.auto_wait_elapsed_ms, 0);
    assert!(!control.modes.skip_wait_revealed);
    assert_eq!(control.modes.skip_hold_frames, 0);
    assert!(!control.modes.was_skipping);
    assert!(!control.control_skip_active());
    assert!(!control.hide_active());
    assert!(control.hiding.hidden_layers.is_empty());
}

#[test]
fn exec_commands_route_to_the_matching_input_handlers() {
    assert_eq!(exec_input_route("backlog"), Some(("backlogin", "")));
    assert_eq!(exec_input_route("rclick"), None);
    assert_eq!(exec_input_route("hide"), None);
    assert_eq!(exec_input_route("automode"), None);
    assert_eq!(exec_input_route("fullscreen"), None);
    assert_eq!(exec_input_route("unknown"), None);
}

#[test]
fn control_skip_forces_skip_even_when_commandskip_disallowed() {
    let mut control = RuntimeControlState::default();
    control.modes.skip_allowed = false;
    control.modes.skip_active = false;
    control.modes.control_skip_active = true;
    assert!(control.skip_active());
    assert!(control.control_skip_active());
}

#[test]
fn keyconfig_parses_role_and_number_array_keys() {
    assert_eq!(
        parse_keyconfig(&params(&[("role", "12"), ("keys", "16, 83 13")])),
        Some((12, vec![16, 83, 13]))
    );
    assert_eq!(parse_keyconfig(&params(&[("role", "0")])), Some((0, vec![])));
    assert_eq!(parse_keyconfig(&params(&[("role", "x")])), None);
}

#[test]
fn default_keymap_matches_key_assign_spec() {
    let control = RuntimeControlState::default();
    assert_eq!(control.roles_for_key(13), vec![ROLE_ADVANCE]);
    assert!(control.roles_for_key(32).contains(&ROLE_HIDE_IN));
    assert!(control.roles_for_key(16).contains(&ROLE_SKIP_IN));
    assert_eq!(control.roles_for_key(17), vec![ROLE_CONTROL_SKIP]);
    assert!(control.roles_for_key(999).is_empty());
}

#[test]
fn automode_stop_flags_default_on_and_gate_by_active() {
    let mut control = RuntimeControlState::default();
    assert!(control.modes.automode_stop_by_click);
    assert!(control.modes.automode_stop_by_stop);
    assert!(!control.automode_active());
    control.modes.automode_active = true;
    assert!(control.automode_active());
    assert!(control.modes.automode_stop_by_click && control.automode_active());
    assert!(control.modes.automode_stops_on_click());
    assert!(control.modes.automode_stops_on_stop());
    control.modes.apply_alreadyread(0);
    assert!(!control.modes.already_read_enabled);
}

#[test]
fn already_read_tracking_and_unread_stop_gate() {
    let mut control = RuntimeControlState::default();
    assert!(!control.unread_stops_skip());
    control.modes.skip_unread = false;
    assert!(control.unread_stops_skip());
    control.modes.already_read_enabled = false;
    assert!(!control.unread_stops_skip());

    assert!(!control.is_read("scene01.asb", 100));
    assert!(control.mark_read("scene01.asb", 100));
    assert!(!control.mark_read("scene01.asb", 100));
    assert!(control.is_read("scene01.asb", 100));
    assert!(!control.is_read("tips.asb", 100));

    control.mark_read("scene01.asb", 101);
    let export = control.read_lines_export();
    assert_eq!(export.get("scene01.asb"), Some(&vec![100, 101]));
    let mut fresh = RuntimeControlState::default();
    fresh.read_lines_import(&export);
    assert!(fresh.is_read("scene01.asb", 100) && fresh.is_read("scene01.asb", 101));
    assert!(!fresh.is_read("tips.asb", 100));
    let again = fresh.read_lines_export();
    assert_eq!(again.len(), 1);
    assert_eq!(again.get("scene01.asb"), export.get("scene01.asb"));
    let mut more = NameMap::new();
    more.insert("scene01.asb", vec![7]);
    fresh.read_lines_import(&more);
    assert!(fresh.is_read("scene01.asb", 7) && fresh.is_read("scene01.asb", 100));
}

#[test]
fn keyconfig_assigns_avoid_roles() {
    assert_eq!(ROLE_AVOID_IN, 15);
    assert_eq!(ROLE_AVOID_OUT, 16);
    let (role_in, keys_in) =
        parse_keyconfig(&params(&[("role", "15"), ("keys", "88")])).expect("role 15 应可解析");
    assert_eq!(role_in, ROLE_AVOID_IN);
    assert_eq!(keys_in, vec![88]);

    let mut control = RuntimeControlState::default();
    control.keymap.insert(role_in, keys_in);
    assert!(control.roles_for_key(88).contains(&ROLE_AVOID_IN));
}

#[test]
fn keyconfig_replaces_the_keys_of_a_role() {
    let mut control = RuntimeControlState::default();
    assert!(control.apply_keyconfig(&params(&[("role", "14"), ("keys", "90")])));
    assert_eq!(control.roles_for_key(90), vec![ROLE_CONTROL_SKIP]);
    assert!(control.roles_for_key(17).is_empty());
    assert!(!control.apply_keyconfig(&params(&[("keys", "90")])));
}

#[test]
fn skipping_and_auto_mode_exclude_each_other() {
    let mut modes = Modes::new();
    modes.skip_allowed = true;
    modes.automode_allowed = true;
    let mut actions = Vec::new();
    modes.set_automode_mode(true, &mut actions);
    assert!(modes.automode_active());
    modes.set_skip_mode(true, &mut actions);
    assert!(modes.skip_active());
    assert!(!modes.automode_active());
    modes.disable_auto_skip(&mut actions);
    assert!(!modes.skip_active() && !modes.automode_active());
    modes.apply_skip_config(Some(false), None, &mut actions);
    modes.set_skip_mode(true, &mut actions);
    assert!(!modes.skip_active());
    assert!(actions.iter().any(|a| matches!(a, ControlAction::ControlHandler(name) if name == "commandskipin")));
    let mut told = Vec::new();
    modes.sync_control_status_variables(&mut told);
    assert!(matches!(
        told[0],
        ControlAction::SyncStatus { commandskip: false, automode: false, controlskip: false }
    ));
}

#[test]
fn a_held_key_skips_until_it_is_released() {
    let mut control = RuntimeControlState::default();
    let mut actions = Vec::new();
    control.update_control_skip_from_keys(&vec![17], &mut actions);
    assert!(control.control_skip_active());
    control.update_control_skip_from_keys(&vec![], &mut actions);
    assert!(!control.control_skip_active());
    let names: Vec<&str> = actions
        .iter()
        .filter_map(|a| match a {
            ControlAction::ControlHandler(name) => Some(name.as_str()),
            _ => None,
        })
        .collect();
    assert_eq!(names, vec!["controlskipin", "controlskipout"]);
}

#[test]
fn hiding_is_undone() {
    let mut control = RuntimeControlState::default();
    let mut actions = Vec::new();
    let layers = scene(&[("mw", true), ("name", false)]);
    control.hiding.apply_hide_config(
        true,
        Some(vec!["mw".to_string(), "name".to_string(), "gone".to_string()]),
        &layers,
        &mut actions,
    );
    control.hiding.enter_hide_mode(&layers, &mut actions);
    assert!(control.hide_active());
    assert_eq!(
        control.hiding.hidden_layers,
        vec![("mw".to_string(), true), ("name".to_string(), false)]
    );
    actions.clear();
    control.hiding.toggle_hide_mode(&layers, &mut actions);
    assert!(!control.hide_active());
    let shown: Vec<(&str, bool)> = actions
        .iter()
        .filter_map(|a| match a {
            ControlAction::LayerVisible { id, visible } => Some((id.as_str(), *visible)),
            _ => None,
        })
        .collect();
    assert_eq!(shown, vec![("mw", true)]);
}

#[test]
fn a_right_click_leaves_hiding_first() {
    let mut control = RuntimeControlState::default();
    let layers = scene(&[]);
    let mut actions = Vec::new();
    control.hiding.allowed = true;
    control.hiding.enter_hide_mode(&layers, &mut actions);
    assert!(control.trigger_rclick(None, &layers, &mut actions));
    assert!(!control.hide_active());

    control.rclick.apply_rclick_config(true, Some("menu.asb"));
    actions.clear();
    assert!(control.trigger_rclick(Some("story.asb"), &layers, &mut actions));
    assert!(matches!(
        &actions[0],
        ControlAction::RunScript { file, label: None, call: true } if file == "menu.asb"
    ));
    actions.clear();
    assert!(control.trigger_rclick(Some("menu.asb"), &layers, &mut actions));
    assert!(matches!(
        &actions[0],
        ControlAction::RunScript { file, label: Some(label), call: false }
            if file == "menu.asb" && label == "leave"
    ));
    control.rclick.apply_rclick_config(false, None);
    assert!(!control.trigger_rclick(None, &layers, &mut actions));
}

#[test]
fn commands_drive_the_engine() {
    let mut control = RuntimeControlState::default();
    let layers = scene(&[]);
    let mut actions = Vec::new();
    control.modes.skip_allowed = true;
    control.apply_exec_command("skip", None, None, &layers, &mut actions);
    assert!(control.skip_active());
    control.apply_exec_command("skip", None, None, &layers, &mut actions);
    assert!(!control.skip_active());
    actions.clear();
    control.apply_exec_command("rclick", None, None, &layers, &mut actions);
    assert!(matches!(
        &actions[0],
        ControlAction::ExecInput { event, key } if event == "push" && key == "2"
    ));
    actions.clear();
    control.apply_exec_command("fullscreen", None, None, &layers, &mut actions);
    assert!(matches!(
        &actions[0],
        ControlAction::UiCommand { kind, payload } if kind == "exec" && payload == r#"{"command":"fullscreen"}"#
    ));
    actions.clear();
    control.apply_exec_command("backlog", None, None, &layers, &mut actions);
    assert!(matches!(
        &actions[0],
        ControlAction::ExecInput { event, key } if event == "backlogin" && key.is_empty()
    ));
    actions.clear();
    control.apply_exec_command("unknown", None, None, &layers, &mut actions);
    assert!(actions.is_empty());
}

#[test]
fn an_emergency_screen_comes_and_goes() {
    let mut control = RuntimeControlState::default();
    let mut actions = Vec::new();
    control.avoid.apply_avoid_config(Some("work.png"), 1);
    control.avoid.enter_avoid(&mut actions);
    assert!(control.avoid.active);
    assert!(actions.iter().any(|a| matches!(a, ControlAction::MuteAudio(true))));
    control.avoid.exit_avoid(&mut actions);
    assert!(!control.avoid.active);
    assert!(actions.iter().any(|a| matches!(a, ControlAction::MuteAudio(false))));
}

#[test]
fn a_role_key_toggles_its_mode() {
    let mut control = RuntimeControlState::default();
    control.modes.skip_allowed = true;
    let layers = scene(&[]);
    let mut actions = Vec::new();
    assert!(control.handle_role_key_edge(13, &layers, &mut actions));
    assert!(!control.handle_role_key_edge(16, &layers, &mut actions));
    assert!(control.skip_active());
}

#[test]
fn unread_text_stops_skipping() {
    let mut control = RuntimeControlState::default();
    control.modes.skip_allowed = true;
    control.modes.skip_unread = false;
    let mut actions = Vec::new();
    control.modes.set_skip_mode(true, &mut actions);
    assert!(control.track_read_and_stop_skip_on_unread(true, true, Some("a.asb"), 3, &mut actions));
    assert!(!control.skip_active());
    assert!(control.is_read("a.asb", 3));
    control.modes.set_skip_mode(true, &mut actions);
    assert!(!control.track_read_and_stop_skip_on_unread(true, true, Some("a.asb"), 3, &mut actions));
    assert!(control.skip_active());
}

#[test]
fn auto_mode_waits_before_it_goes_on() {
    let mut modes = Modes::new();
    modes.automode_allowed = true;
    modes.automode_active = true;
    assert_eq!(auto_wait_ms(None), 900);
    assert_eq!(auto_wait_ms(Some(-1)), 900);
    assert_eq!(auto_wait_ms(Some(50)), 50);
    assert!(!modes.should_auto_advance(40, true, 50));
    assert!(modes.should_auto_advance(10, true, 50));
    let mut held = Vec::new();
    for _ in 0..3 {
        assert!(modes.should_hold_for_skip_reveal(&mut held));
    }
    assert!(!modes.should_hold_for_skip_reveal(&mut held));
}

#[test]
fn engine_status_maps_wait_states_to_script_status_codes() {
    assert_eq!(engine_status_for(None, false, false, false), 0);
    assert_eq!(engine_status_for(Some(&WaitReason::Generic), false, false, false), 1);
    assert_eq!(
        engine_status_for(
            Some(&WaitReason::Timed { milliseconds: 100, input: 1 }),
            false,
            false,
            false
        ),
        1
    );
    assert_eq!(
        engine_status_for(
            Some(&WaitReason::Timed { milliseconds: 100, input: 0 }),
            false,
            false,
            false
        ),
        4
    );
    assert_eq!(
        engine_status_for(
            Some(&WaitReason::Stop { reason: Some("trans".into()) }),
            false,
            false,
            false
        ),
        2
    );
    assert_eq!(
        engine_status_for(
            Some(&WaitReason::Stop { reason: Some("video".into()) }),
            false,
            false,
            false
        ),
        7
    );
    assert_eq!(
        engine_status_for(Some(&WaitReason::Stop { reason: None }), false, false, false),
        3
    );
}

#[test]
fn dialog_debug_skip_and_exit_take_precedence() {
    assert_eq!(engine_status_for(Some(&WaitReason::Generic), true, false, false), 9);
    assert_eq!(engine_status_for(Some(&WaitReason::Generic), false, true, false), 4);
    assert_eq!(engine_status_for(None, true, true, true), 14);
}

#[test]
fn click_wait_covers_generic_variants_only() {
    assert!(wait_reason_is_click_wait(Some(&WaitReason::Generic)));
    assert!(wait_reason_is_click_wait(Some(&WaitReason::Generic0)));
    assert!(!wait_reason_is_click_wait(None));
    assert!(!wait_reason_is_click_wait(Some(&WaitReason::Timed { milliseconds: 100, input: 1 })));
    assert!(!wait_reason_is_click_wait(Some(&WaitReason::Stop { reason: None })));
    assert!(!wait_reason_is_click_wait(Some(&WaitReason::KeyWait { buttons: vec![] })));
}

#[test]
fn timed_wait_only_accepts_click_for_input_one() {
    assert!(!timed_wait_accepts_click(0, true));
    assert!(timed_wait_accepts_click(1, true));
    assert!(!timed_wait_accepts_click(2, true));
    assert!(!timed_wait_accepts_click(1, false));
}

#[test]
fn stop_wait_only_accepts_a_scripted_decide_edge() {
    assert!(stop_wait_accepts_scripted_decide(true));
    assert!(!stop_wait_accepts_scripted_decide(false));
}

#[test]
fn input_enabled_timed_wait_keeps_default_click_despite_global_push() {
    let input_wait = WaitReason::Timed { milliseconds: 2500, input: 1 };
    let non_input_wait = WaitReason::Timed { milliseconds: 2500, input: 0 };

    assert!(!global_push_absorbs_default_click(Some(&input_wait), true));
    assert!(global_push_absorbs_default_click(Some(&non_input_wait), true));
    assert!(global_push_absorbs_default_click(None, true));
    assert!(!global_push_absorbs_default_click(None, false));
}

const QUIET: WaitInputs = WaitInputs {
    clicked: false,
    scripted_decide: false,
    delta_ms: 0,
    video_finished: false,
    transition_in_progress: false,
    text_complete: true,
    voice_ready: true,
    auto_wait_ms: 900,
};

#[test]
fn a_forced_stop_holds_until_the_script_runs_again() {
    let mut status = ScriptStatus::new();
    status.set_by_script(3);
    assert!(!status.sync_script_status(None, false, false, false));
    assert!(status.forced_stop);
    assert_eq!(status.visible, 3);
    status.set_by_script(0);
    assert!(status.sync_script_status(Some(&WaitReason::Generic), false, false, false));
    assert!(!status.forced_stop);
}

#[test]
fn frames_of_a_timed_wait_add_up() {
    let mut modes = Modes::new();
    let mut wait = WaitState::new();
    let next = wait.take_run_result(
        RunResult::Wait(WaitReason::Timed { milliseconds: 100, input: 0 }),
        &mut modes,
    );
    assert_eq!(next, RunNext::EndFrame);
    let mut actions = Vec::new();
    let mut frame = WaitInputs { delta_ms: 60, ..QUIET };
    assert_eq!(wait.advance_wait_state(&mut modes, &mut frame, &mut actions), WaitOutcome::Waits);
    assert_eq!(wait.timed_remaining_ms, 40);
    assert_eq!(wait.advance_wait_state(&mut modes, &mut frame, &mut actions), WaitOutcome::NextLine);
    assert!(wait.wait_reason.is_none());
}

#[test]
fn a_click_shows_the_text_before_it_goes_on() {
    let mut modes = Modes::new();
    let mut wait = WaitState::new();
    wait.take_run_result(RunResult::OtherWait, &mut modes);
    let mut actions = Vec::new();
    let mut early = WaitInputs { clicked: true, text_complete: false, ..QUIET };
    assert_eq!(wait.advance_wait_state(&mut modes, &mut early, &mut actions), WaitOutcome::Waits);
    assert!(matches!(actions[0], ControlAction::RevealText));
    let mut late = WaitInputs { clicked: true, ..QUIET };
    assert_eq!(wait.advance_wait_state(&mut modes, &mut late, &mut actions), WaitOutcome::NextLine);
}

#[test]
fn a_stop_ends_by_what_it_waits_for() {
    let mut modes = Modes::new();
    let mut actions = Vec::new();
    let mut wait = WaitState::new();
    wait.take_run_result(RunResult::Video { on_layer: false }, &mut modes);
    let mut clicked = WaitInputs { clicked: true, ..QUIET };
    assert_eq!(wait.advance_wait_state(&mut modes, &mut clicked, &mut actions), WaitOutcome::Waits);
    let mut ended = WaitInputs { video_finished: true, ..QUIET };
    assert_eq!(wait.advance_wait_state(&mut modes, &mut ended, &mut actions), WaitOutcome::Resumes);
    assert!(!ended.video_finished);

    wait.take_run_result(RunResult::Transition, &mut modes);
    let mut running = WaitInputs { transition_in_progress: true, ..QUIET };
    assert_eq!(wait.advance_wait_state(&mut modes, &mut running, &mut actions), WaitOutcome::Waits);
    assert_eq!(wait.advance_wait_state(&mut modes, &mut WaitInputs { ..QUIET }, &mut actions), WaitOutcome::Resumes);

    wait.take_run_result(RunResult::Wait(WaitReason::Stop { reason: None }), &mut modes);
    let mut scripted = WaitInputs { scripted_decide: true, ..QUIET };
    assert_eq!(wait.advance_wait_state(&mut modes, &mut scripted, &mut actions), WaitOutcome::NextLine);

    wait.take_run_result(
        RunResult::Wait(WaitReason::Stop { reason: Some("exskip".into()) }),
        &mut modes,
    );
    assert_eq!(wait.advance_wait_state(&mut modes, &mut WaitInputs { ..QUIET }, &mut actions), WaitOutcome::EndDebugSkip);
    assert_eq!(
        wait.take_run_result(RunResult::Video { on_layer: true }, &mut modes),
        RunNext::RunOn
    );
}

#[test]
fn the_end_of_a_video_outlasts_other_waits() {
    let mut modes = Modes::new();
    let mut actions = Vec::new();
    let mut wait = WaitState::new();
    let mut ended = WaitInputs { video_finished: true, ..QUIET };
    wait.advance_wait_state(&mut modes, &mut ended, &mut actions);
    assert!(ended.video_finished);
    wait.take_run_result(RunResult::OtherWait, &mut modes);
    wait.advance_wait_state(&mut modes, &mut ended, &mut actions);
    assert!(ended.video_finished);
    wait.wait_reason = Some(WaitReason::Stop { reason: Some("exskip".into()) });
    wait.advance_wait_state(&mut modes, &mut ended, &mut actions);
    assert!(ended.video_finished);
    wait.wait_reason = Some(WaitReason::Stop { reason: Some("trans".into()) });
    assert_eq!(wait.advance_wait_state(&mut modes, &mut ended, &mut actions), WaitOutcome::Resumes);
    assert!(!ended.video_finished);
}

#[test]
fn queued_tags_run_beside_a_wait() {
    assert_eq!(plan_tags(true, true, None, false), TagPlan::Frozen);
    assert_eq!(plan_tags(false, false, None, false), TagPlan::Nothing);
    assert_eq!(
        plan_tags(false, true, Some(&WaitReason::Stop { reason: None }), true),
        TagPlan::WhileStopped
    );
    assert_eq!(plan_tags(false, true, Some(&WaitReason::Generic), true), TagPlan::WhileWaiting);
    assert_eq!(plan_tags(false, true, None, true), TagPlan::Inline);
    assert_eq!(plan_tags(false, true, None, false), TagPlan::WithScript);

    let mut drain = StopDrain::new();
    let waits = DrainReport {
        saw_return: false,
        changed_position: true,
        wait: Some(DrainWait::Reason(WaitReason::Generic)),
    };
    let mut rounds = 0;
    loop {
        let next = drain.take_round(&waits);
        rounds += 1;
        if !next.again {
            assert!(next.resume);
            break;
        }
    }
    assert_eq!(rounds, 64);

    let mut wait = WaitState::new();
    wait.wait_reason = Some(WaitReason::Generic);
    wait.take_drain_while_waiting(DrainReport { saw_return: true, changed_position: false, wait: None });
    assert!(wait.wait_reason.is_none());
    wait.take_inline_drain(DrainReport {
        saw_return: false,
        changed_position: false,
        wait: Some(DrainWait::Reason(WaitReason::Generic0)),
    });
    assert!(matches!(wait.wait_reason, Some(WaitReason::Generic0)));
    let other = || DrainReport {
        saw_return: false,
        changed_position: false,
        wait: Some(DrainWait::Other),
    };
    wait.take_drain_while_waiting(other());
    assert!(matches!(wait.wait_reason, Some(WaitReason::Generic0)));
    wait.take_inline_drain(other());
    assert!(matches!(wait.wait_reason, Some(WaitReason::Generic)));
}
