//! What script events ask of the runtime, and how they are told in one line.
use crate::name_map::{text_map, NameMap};
use crate::project::{debug_quoted, debug_text};
use crate::runtime::actions::ControlAction;
use crate::runtime::control::{exec_step, in_modes, took, Control, RuntimeControlState, Step};
use crate::runtime::modes::{auto_configured, auto_off, skip_configured, skip_off};
use crate::runtime::save_io::{qualified, qualify_save_path};
use crate::runtime::text::some_name;
use crate::strs::{
    chars_of, concat, copy_opt, copy_text, copy_texts, decimal_of, decimal_text, join, join_text, opt_text, same_text,
    signed_of, signed_text, string_of_range, texts,
};
use crate::text_order::{insert_name, insert_sorted, lemma_insert_sorted, text_sorted};
use vstd::prelude::*;

verus! {

// ── What follows from an event ─────────────────────────────────

/// An event that asks something of the runtime itself.
pub enum ScriptEvent {
    Exit,
    SaveGame { file: String },
    LoadGame { file: String },
    GoTitle,
    FileOperation {
        command: String,
        target: Option<String>,
        src: Option<String>,
        dst: Option<String>,
    },
    TakeScreenshot,
    SaveScreenshot { file: String, width: Option<u32>, height: Option<u32> },
    Custom { tag: String, params: NameMap<String> },
    ShaderLoad { id: String, file: String },
    AutoModeConfig {
        allow: bool,
        layer: Option<String>,
        stop_by_click: Option<bool>,
        stop_by_stop: Option<bool>,
        sync_se: Option<Vec<String>>,
    },
    SkipConfig { allow: Option<bool>, skip_unread: Option<bool> },
    AutoSkipDisable,
    Exec { command: String, mode: Option<i32> },
    ShowDialog {
        title: String,
        message: String,
        varname: Option<String>,
        textfield: Option<String>,
        textfield_size: Option<i32>,
    },
    Other,
}

/// What the runtime does.
pub enum EventAction {
    Exit,
    /// Keep the global and the system state.
    SaveSystem,
    Save { file: String },
    Load { file: String },
    GoTitle,
    Delete { path: String },
    Copy { src: String, dst: String, remove: bool },
    Capture,
    Thumbnail { file: String, width: Option<u32>, height: Option<u32> },
    LoadShader { id: String, file: String },
    AutoMode {
        allow: bool,
        layer: Option<String>,
        stop_by_click: Option<bool>,
        stop_by_stop: Option<bool>,
        sync_se: Option<Vec<String>>,
    },
    Skip { allow: Option<bool>, skip_unread: Option<bool> },
    /// End auto mode and skipping.
    EndModes,
    Exec { command: String, mode: Option<i32> },
    Dialog {
        title: String,
        message: String,
        varname: Option<String>,
        textfield: Option<String>,
        textfield_size: Option<i32>,
    },
    /// The event asks for something that cannot be done.
    Refuse,
    Nothing,
}

/// A list of texts that may be missing.
pub open spec fn opt_texts(list: Option<Vec<String>>) -> Option<Seq<Seq<char>>> {
    match list {
        Some(list) => Some(texts(list@)),
        None => None,
    }
}

/// What an action holds.
pub enum ActionView {
    Exit,
    SaveSystem,
    Save { file: Seq<char> },
    Load { file: Seq<char> },
    GoTitle,
    Delete { path: Seq<char> },
    Copy { src: Seq<char>, dst: Seq<char>, remove: bool },
    Capture,
    Thumbnail { file: Seq<char>, width: Option<u32>, height: Option<u32> },
    LoadShader { id: Seq<char>, file: Seq<char> },
    AutoMode {
        allow: bool,
        layer: Option<Seq<char>>,
        stop_by_click: Option<bool>,
        stop_by_stop: Option<bool>,
        sync_se: Option<Seq<Seq<char>>>,
    },
    Skip { allow: Option<bool>, skip_unread: Option<bool> },
    EndModes,
    Exec { command: Seq<char>, mode: Option<i32> },
    Dialog {
        title: Seq<char>,
        message: Seq<char>,
        varname: Option<Seq<char>>,
        textfield: Option<Seq<char>>,
        textfield_size: Option<i32>,
    },
    Refuse,
    Nothing,
}

impl View for EventAction {
    type V = ActionView;

    open spec fn view(&self) -> ActionView {
        match self {
            EventAction::Exit => ActionView::Exit,
            EventAction::SaveSystem => ActionView::SaveSystem,
            EventAction::Save { file } => ActionView::Save { file: file@ },
            EventAction::Load { file } => ActionView::Load { file: file@ },
            EventAction::GoTitle => ActionView::GoTitle,
            EventAction::Delete { path } => ActionView::Delete { path: path@ },
            EventAction::Copy { src, dst, remove } => ActionView::Copy {
                src: src@,
                dst: dst@,
                remove: *remove,
            },
            EventAction::Capture => ActionView::Capture,
            EventAction::Thumbnail { file, width, height } => ActionView::Thumbnail {
                file: file@,
                width: *width,
                height: *height,
            },
            EventAction::LoadShader { id, file } => ActionView::LoadShader {
                id: id@,
                file: file@,
            },
            EventAction::AutoMode { allow, layer, stop_by_click, stop_by_stop, sync_se } =>
                ActionView::AutoMode {
                allow: *allow,
                layer: opt_text(*layer),
                stop_by_click: *stop_by_click,
                stop_by_stop: *stop_by_stop,
                sync_se: opt_texts(*sync_se),
            },
            EventAction::Skip { allow, skip_unread } => ActionView::Skip {
                allow: *allow,
                skip_unread: *skip_unread,
            },
            EventAction::EndModes => ActionView::EndModes,
            EventAction::Exec { command, mode } => ActionView::Exec {
                command: command@,
                mode: *mode,
            },
            EventAction::Dialog { title, message, varname, textfield, textfield_size } =>
                ActionView::Dialog {
                title: title@,
                message: message@,
                varname: opt_text(*varname),
                textfield: opt_text(*textfield),
                textfield_size: *textfield_size,
            },
            EventAction::Refuse => ActionView::Refuse,
            EventAction::Nothing => ActionView::Nothing,
        }
    }
}

/// What a file operation asks for. A deletion without a target, and a copy or
/// move without both ends, asks for nothing.
pub open spec fn file_action(
    command: Seq<char>,
    target: Option<Seq<char>>,
    src: Option<Seq<char>>,
    dst: Option<Seq<char>>,
    savepath: Seq<char>,
) -> ActionView {
    if command == "delete"@ {
        match target {
            Some(file) => match qualified(file, savepath) {
                Some(path) => ActionView::Delete { path },
                None => ActionView::Refuse,
            },
            None => ActionView::Nothing,
        }
    } else if command == "copy"@ || command == "move"@ {
        match (src, dst) {
            (Some(s), Some(d)) => ActionView::Copy {
                src: s,
                dst: d,
                remove: command == "move"@,
            },
            _ => ActionView::Nothing,
        }
    } else {
        ActionView::Refuse
    }
}

/// What the runtime does on an event. A save without a name keeps the system
/// state; a load without one is refused; a shader needs a name and a file.
pub open spec fn action_for(event: ScriptEvent, savepath: Seq<char>) -> ActionView {
    match event {
        ScriptEvent::Exit => ActionView::Exit,
        ScriptEvent::SaveGame { file } => if file@.len() == 0 {
            ActionView::SaveSystem
        } else {
            ActionView::Save { file: file@ }
        },
        ScriptEvent::LoadGame { file } => if file@.len() == 0 {
            ActionView::Refuse
        } else {
            ActionView::Load { file: file@ }
        },
        ScriptEvent::GoTitle => ActionView::GoTitle,
        ScriptEvent::FileOperation { command, target, src, dst } => file_action(
            command@,
            opt_text(target),
            opt_text(src),
            opt_text(dst),
            savepath,
        ),
        ScriptEvent::TakeScreenshot => ActionView::Capture,
        ScriptEvent::SaveScreenshot { file, width, height } => ActionView::Thumbnail {
            file: file@,
            width,
            height,
        },
        ScriptEvent::Custom { tag, params } => if tag@ == "lyshader"@ {
            match (some_name(text_map(params), "id"@), some_name(text_map(params), "file"@)) {
                (Some(id), Some(file)) => ActionView::LoadShader { id, file },
                _ => ActionView::Refuse,
            }
        } else {
            ActionView::Nothing
        },
        ScriptEvent::ShaderLoad { id, file } => ActionView::LoadShader { id: id@, file: file@ },
        ScriptEvent::AutoModeConfig { allow, layer, stop_by_click, stop_by_stop, sync_se } =>
            ActionView::AutoMode {
            allow,
            layer: opt_text(layer),
            stop_by_click,
            stop_by_stop,
            sync_se: opt_texts(sync_se),
        },
        ScriptEvent::SkipConfig { allow, skip_unread } => ActionView::Skip { allow, skip_unread },
        ScriptEvent::AutoSkipDisable => ActionView::EndModes,
        ScriptEvent::Exec { command, mode } => ActionView::Exec { command: command@, mode },
        ScriptEvent::ShowDialog { title, message, varname, textfield, textfield_size } =>
            ActionView::Dialog {
            title: title@,
            message: message@,
            varname: opt_text(varname),
            textfield: opt_text(textfield),
            textfield_size,
        },
        ScriptEvent::Other => ActionView::Nothing,
    }
}

fn param(params: &NameMap<String>, key: &str) -> (out: Option<String>)
    ensures
        opt_text(out) == some_name(text_map(*params), key@),
{
    match params.get(key) {
        Some(text) => if text.as_str().is_empty() {
            None
        } else {
            Some(copy_text(text.as_str()))
        },
        None => None,
    }
}

fn copy_list(list: &Option<Vec<String>>) -> (out: Option<Vec<String>>)
    ensures
        opt_texts(out) == opt_texts(*list),
{
    match list {
        Some(list) => Some(copy_texts(list)),
        None => None,
    }
}

/// What an action does to the control state; `None` where it does nothing to
/// it.
pub open spec fn control_step(
    c: Control,
    action: ActionView,
    script: Option<Seq<char>>,
    scene: Map<Seq<char>, bool>,
) -> Option<Step> {
    match action {
        ActionView::AutoMode { allow, layer, stop_by_click, stop_by_stop, sync_se } => Some(
            in_modes(
                Control {
                    automode_layer: layer,
                    automode_sync_se: match sync_se {
                        Some(list) => list,
                        None => c.automode_sync_se,
                    },
                    ..c
                },
                auto_configured(c.modes, allow, stop_by_click, stop_by_stop),
            ),
        ),
        ActionView::Skip { allow, skip_unread } => Some(
            in_modes(c, skip_configured(c.modes, allow, skip_unread)),
        ),
        ActionView::EndModes => Some(
            in_modes(c, auto_off(c.modes).followed_by(skip_off(auto_off(c.modes).modes))),
        ),
        ActionView::Exec { command, mode } => Some(exec_step(c, command, mode, script, scene)),
        _ => None,
    }
}

/// Carries out what an event asks of the control state. Returns whether it asks
/// anything of it.
pub fn apply_control_action(
    control: &mut RuntimeControlState,
    action: &EventAction,
    current_script: Option<&str>,
    scene: &NameMap<bool>,
    actions: &mut Vec<ControlAction>,
) -> (taken: bool)
    requires
        old(control).wf(),
    ensures
        ({
            let script = match current_script {
                Some(name) => Some(name@),
                None => None,
            };
            match control_step(old(control)@, action@, script, scene@) {
                Some(step) => taken && took(*final(control), old(actions)@, final(actions)@, step),
                None => !taken && *final(control) == *old(control) && *final(actions) == *old(
                    actions,
                ),
            }
        }),
{
    match action {
        EventAction::AutoMode { allow, layer, stop_by_click, stop_by_stop, sync_se } => {
            control.apply_automode_config(
                *allow,
                copy_opt(layer),
                *stop_by_click,
                *stop_by_stop,
                copy_list(sync_se),
                actions,
            );
            true
        },
        EventAction::Skip { allow, skip_unread } => {
            control.modes.apply_skip_config(*allow, *skip_unread, actions);
            true
        },
        EventAction::EndModes => {
            control.modes.disable_auto_skip(actions);
            true
        },
        EventAction::Exec { command, mode } => {
            control.apply_exec_command(command.as_str(), *mode, current_script, scene, actions);
            true
        },
        _ => false,
    }
}

/// Finds what the runtime does on an event.
pub fn dispatch_event(event: &ScriptEvent, savepath: &str) -> (out: EventAction)
    ensures
        out@ == action_for(*event, savepath@),
{
    match event {
        ScriptEvent::Exit => EventAction::Exit,
        ScriptEvent::SaveGame { file } => if file.as_str().is_empty() {
            EventAction::SaveSystem
        } else {
            EventAction::Save { file: copy_text(file.as_str()) }
        },
        ScriptEvent::LoadGame { file } => if file.as_str().is_empty() {
            EventAction::Refuse
        } else {
            EventAction::Load { file: copy_text(file.as_str()) }
        },
        ScriptEvent::GoTitle => EventAction::GoTitle,
        ScriptEvent::FileOperation { command, target, src, dst } => {
            let name = command.as_str();
            if same_text(name, "delete") {
                match target {
                    Some(file) => match qualify_save_path(file.as_str(), savepath) {
                        Ok(path) => EventAction::Delete { path },
                        Err(_) => EventAction::Refuse,
                    },
                    None => EventAction::Nothing,
                }
            } else if same_text(name, "copy") || same_text(name, "move") {
                match (src, dst) {
                    (Some(s), Some(d)) => EventAction::Copy {
                        src: copy_text(s.as_str()),
                        dst: copy_text(d.as_str()),
                        remove: same_text(name, "move"),
                    },
                    _ => EventAction::Nothing,
                }
            } else {
                EventAction::Refuse
            }
        },
        ScriptEvent::TakeScreenshot => EventAction::Capture,
        ScriptEvent::SaveScreenshot { file, width, height } => EventAction::Thumbnail {
            file: copy_text(file.as_str()),
            width: *width,
            height: *height,
        },
        ScriptEvent::Custom { tag, params } => if same_text(tag.as_str(), "lyshader") {
            match (param(params, "id"), param(params, "file")) {
                (Some(id), Some(file)) => EventAction::LoadShader { id, file },
                _ => EventAction::Refuse,
            }
        } else {
            EventAction::Nothing
        },
        ScriptEvent::ShaderLoad { id, file } => EventAction::LoadShader {
            id: copy_text(id.as_str()),
            file: copy_text(file.as_str()),
        },
        ScriptEvent::AutoModeConfig { allow, layer, stop_by_click, stop_by_stop, sync_se } =>
            EventAction::AutoMode {
            allow: *allow,
            layer: copy_opt(layer),
            stop_by_click: *stop_by_click,
            stop_by_stop: *stop_by_stop,
            sync_se: copy_list(sync_se),
        },
        ScriptEvent::SkipConfig { allow, skip_unread } => EventAction::Skip {
            allow: *allow,
            skip_unread: *skip_unread,
        },
        ScriptEvent::AutoSkipDisable => EventAction::EndModes,
        ScriptEvent::Exec { command, mode } => EventAction::Exec {
            command: copy_text(command.as_str()),
            mode: *mode,
        },
        ScriptEvent::ShowDialog { title, message, varname, textfield, textfield_size } =>
            EventAction::Dialog {
            title: copy_text(title.as_str()),
            message: copy_text(message.as_str()),
            varname: copy_opt(varname),
            textfield: copy_opt(textfield),
            textfield_size: *textfield_size,
        },
        ScriptEvent::Other => EventAction::Nothing,
    }
}

/// Finds what the runtime does on the events of a frame, in their order.
pub fn dispatch_events(events: &Vec<ScriptEvent>, savepath: &str) -> (out: Vec<EventAction>)
    ensures
        out@.len() == events@.len(),
        forall|i: int|
            0 <= i < events@.len() ==> (#[trigger] out@[i])@ == action_for(
                events@[i],
                savepath@,
            ),
{
    let mut out: Vec<EventAction> = Vec::new();
    let mut i: usize = 0;
    while i < events.len()
        invariant
            i <= events.len(),
            out@.len() == i,
            forall|j: int|
                0 <= j < i ==> (#[trigger] out@[j])@ == action_for(events@[j], savepath@),
        decreases events.len() - i,
    {
        out.push(dispatch_event(&events[i], savepath));
        i += 1;
    }
    out
}

// ── Events in one line ─────────────────────────────────────────

/// What a line tells of.
pub enum SummaryEvent {
    LayerCreate { id: String, file: String },
    /// `alpha` as it tells itself.
    LayerCreate2 { id: String, file: String, alpha: String },
    LayerDelete { id: String },
    LayerSetProperty { id: String, property: String, value: String },
    LayerSetProperties { id: String, properties: NameMap<String> },
    /// `to` and `time` as they tell themselves.
    LayerTween { id: String, param: String, to: String, time: String },
    LayerRename { id: String, to: String },
    Trans { trans_type: i32, time: Option<u64>, rule: Option<String> },
    BgmPlay { file: String, loop_play: bool, gain: Option<i32> },
    SePlay { id: String, file: String },
    VoicePlay { file: String, gain: Option<i32> },
    VideoPlay { id: Option<String>, file: String },
    Text { content: String },
    ScenarioText { content: String, inline: bool },
    FontSettings { settings: NameMap<String> },
    FontDefault { settings: NameMap<String> },
    WaitGeneric,
    WaitStop { reason: Option<String> },
    WaitTimed { milliseconds: u64, input: i32 },
    Custom { tag: String, params: NameMap<String> },
    /// An event that tells itself.
    Told { text: String },
}

/// A name with its value.
pub open spec fn entry_text(key: Seq<char>, value: Seq<char>) -> Seq<char> {
    key + "="@ + value
}

/// The entries of a map as texts, in ascending order.
pub open spec fn sorted_entries(items: Seq<(String, String)>) -> Seq<Seq<char>>
    decreases items.len(),
{
    if items.len() == 0 {
        Seq::empty()
    } else {
        insert_sorted(
            sorted_entries(items.drop_last()),
            entry_text(items.last().0@, items.last().1@),
        )
    }
}

/// The entries of a map as texts, in the map's order.
pub open spec fn entry_texts(items: Seq<(String, String)>) -> Seq<Seq<char>> {
    Seq::new(items.len(), |i: int| entry_text(items[i].0@, items[i].1@))
}

/// The line of a map does not depend on the order of its entries: they come in
/// ascending order, each as often as it is there.
pub proof fn law_entries_are_sorted(items: Seq<(String, String)>)
    ensures
        text_sorted(sorted_entries(items)),
        sorted_entries(items).to_multiset() == entry_texts(items).to_multiset(),
    decreases items.len(),
{
    broadcast use vstd::seq_lib::group_to_multiset_ensures;

    if items.len() > 0 {
        law_entries_are_sorted(items.drop_last());
        let last = entry_text(items.last().0@, items.last().1@);
        lemma_insert_sorted(sorted_entries(items.drop_last()), last);
        assert(entry_texts(items) =~= entry_texts(items.drop_last()).push(last));
    } else {
        assert(entry_texts(items) =~= Seq::empty());
    }
}

/// Writes a map as `key=value` entries in ascending order.
pub fn format_map(map: &NameMap<String>) -> (out: String)
    ensures
        out@ == join(sorted_entries(map.items()), ' '),
{
    let mut lines: Vec<String> = Vec::new();
    let mut i: usize = 0;
    let ghost all = map.items();
    assert(all.take(0) =~= Seq::empty());
    assert(texts(lines@) =~= Seq::empty());
    while i < map.len()
        invariant
            all == map.items(),
            i <= all.len(),
            texts(lines@) == sorted_entries(all.take(i as int)),
        decreases all.len() - i,
    {
        let head = concat(map.key_at(i), "=");
        let line = concat(head.as_str(), map.value_at(i).as_str());
        assert(all.take(i + 1).drop_last() =~= all.take(i as int));
        insert_name(&mut lines, line);
        i += 1;
    }
    assert(all.take(i as int) =~= all);
    join_text(&lines, ' ')
}

/// A truth value.
pub open spec fn flag_text(value: bool) -> Seq<char> {
    if value {
        "true"@
    } else {
        "false"@
    }
}

/// A number that may be missing.
pub open spec fn some_number(value: Option<i32>) -> Seq<char> {
    match value {
        Some(n) => "Some("@ + signed_text(n as int) + ")"@,
        None => "None"@,
    }
}

/// A time that may be missing.
pub open spec fn some_time(value: Option<u64>) -> Seq<char> {
    match value {
        Some(n) => "Some("@ + decimal_text(n as nat) + ")"@,
        None => "None"@,
    }
}

/// A text that may be missing.
pub open spec fn some_text(value: Option<Seq<char>>) -> Seq<char> {
    match value {
        Some(text) => "Some("@ + debug_quoted(text) + ")"@,
        None => "None"@,
    }
}

fn flag_of(value: bool) -> (out: String)
    ensures
        out@ == flag_text(value),
{
    if value {
        copy_text("true")
    } else {
        copy_text("false")
    }
}

fn number_of(value: Option<i32>) -> (out: String)
    ensures
        out@ == some_number(value),
{
    match value {
        Some(n) => {
            let mut out = concat("Some(", signed_of(n).as_str());
            out.append(")");
            out
        },
        None => copy_text("None"),
    }
}

fn time_of(value: Option<u64>) -> (out: String)
    ensures
        out@ == some_time(value),
{
    match value {
        Some(n) => {
            let mut out = concat("Some(", decimal_of(n).as_str());
            out.append(")");
            out
        },
        None => copy_text("None"),
    }
}

fn text_or_none(value: &Option<String>) -> (out: String)
    ensures
        out@ == some_text(opt_text(*value)),
{
    match value {
        Some(text) => {
            let mut out = concat("Some(", debug_text(text.as_str()).as_str());
            out.append(")");
            out
        },
        None => copy_text("None"),
    }
}

/// The whole line of an event.
pub open spec fn event_line(event: SummaryEvent) -> Seq<char> {
    match event {
        SummaryEvent::LayerCreate { id, file } => "LayerCreate id="@ + id@ + " file="@ + file@,
        SummaryEvent::LayerCreate2 { id, file, alpha } => "LayerCreate2 id="@ + id@ + " file="@
            + file@ + " alpha="@ + alpha@,
        SummaryEvent::LayerDelete { id } => "LayerDelete id="@ + id@,
        SummaryEvent::LayerSetProperty { id, property, value } => "LayerSetProp id="@ + id@ + " "@
            + property@ + "="@ + value@,
        SummaryEvent::LayerSetProperties { id, properties } => "LayerSetProps id="@ + id@ + " "@
            + join(sorted_entries(properties.items()), ' '),
        SummaryEvent::LayerTween { id, param, to, time } => "LayerTween id="@ + id@ + " "@ + param@
            + "->"@ + to@ + " time="@ + time@,
        SummaryEvent::LayerRename { id, to } => "LayerRename id="@ + id@ + " -> "@ + to@,
        SummaryEvent::Trans { trans_type, time, rule } => "Trans type="@ + signed_text(
            trans_type as int,
        ) + " time="@ + some_time(time) + " rule="@ + some_text(opt_text(rule)),
        SummaryEvent::BgmPlay { file, loop_play, gain } => "BgmPlay file="@ + file@ + " loop="@
            + flag_text(loop_play) + " gain="@ + some_number(gain),
        SummaryEvent::SePlay { id, file } => "SePlay id="@ + id@ + " file="@ + file@,
        SummaryEvent::VoicePlay { file, gain } => "VoicePlay file="@ + file@ + " gain="@
            + some_number(gain),
        SummaryEvent::VideoPlay { id, file } => "VideoPlay id="@ + some_text(opt_text(id))
            + " file="@ + file@,
        SummaryEvent::Text { content } => "Text "@ + debug_quoted(content@),
        SummaryEvent::ScenarioText { content, inline } => "ScenarioText inline="@ + flag_text(
            inline,
        ) + " "@ + debug_quoted(content@),
        SummaryEvent::FontSettings { settings } => "FontSettings "@ + join(
            sorted_entries(settings.items()),
            ' ',
        ),
        SummaryEvent::FontDefault { settings } => "FontDefault "@ + join(
            sorted_entries(settings.items()),
            ' ',
        ),
        SummaryEvent::WaitGeneric => "Wait(Generic)"@,
        SummaryEvent::WaitStop { reason } => match reason {
            Some(r) => "Wait(Stop:"@ + r@ + ")"@,
            None => "Wait(Stop)"@,
        },
        SummaryEvent::WaitTimed { milliseconds, input } => "Wait(Timed time="@ + decimal_text(
            milliseconds as nat,
        ) + " input="@ + signed_text(input as int) + ")"@,
        SummaryEvent::Custom { tag, params } => "Custom ["@ + tag@ + "] "@ + join(
            sorted_entries(params.items()),
            ' ',
        ),
        SummaryEvent::Told { text } => text@,
    }
}

/// A line of 200 characters at most; what is cut off is marked.
pub open spec fn cut_line(line: Seq<char>) -> Seq<char> {
    if line.len() > 200 {
        line.take(200) + "…"@
    } else {
        line
    }
}

fn cut(line: &str) -> (out: String)
    ensures
        out@ == cut_line(line@),
{
    let chars = chars_of(line);
    if chars.len() > 200 {
        let head = string_of_range(&chars, 0, 200);
        assert(head@ =~= line@.take(200));
        concat(head.as_str(), "…")
    } else {
        copy_text(line)
    }
}

fn whole_line(event: &SummaryEvent) -> (out: String)
    ensures
        out@ == event_line(*event),
{
    match event {
        SummaryEvent::LayerCreate { id, file } => {
            let mut out = concat("LayerCreate id=", id.as_str());
            out.append(" file=");
            out.append(file.as_str());
            out
        },
        SummaryEvent::LayerCreate2 { id, file, alpha } => {
            let mut out = concat("LayerCreate2 id=", id.as_str());
            out.append(" file=");
            out.append(file.as_str());
            out.append(" alpha=");
            out.append(alpha.as_str());
            out
        },
        SummaryEvent::LayerTween { id, param, to, time } => {
            let mut out = concat("LayerTween id=", id.as_str());
            out.append(" ");
            out.append(param.as_str());
            out.append("->");
            out.append(to.as_str());
            out.append(" time=");
            out.append(time.as_str());
            out
        },
        SummaryEvent::Trans { trans_type, time, rule } => {
            let mut out = concat("Trans type=", signed_of(*trans_type).as_str());
            out.append(" time=");
            out.append(time_of(*time).as_str());
            out.append(" rule=");
            out.append(text_or_none(rule).as_str());
            out
        },
        SummaryEvent::LayerDelete { id } => concat("LayerDelete id=", id.as_str()),
        SummaryEvent::LayerSetProperty { id, property, value } => {
            let mut out = concat("LayerSetProp id=", id.as_str());
            out.append(" ");
            out.append(property.as_str());
            out.append("=");
            out.append(value.as_str());
            out
        },
        SummaryEvent::LayerSetProperties { id, properties } => {
            let mut out = concat("LayerSetProps id=", id.as_str());
            out.append(" ");
            out.append(format_map(properties).as_str());
            out
        },
        SummaryEvent::LayerRename { id, to } => {
            let mut out = concat("LayerRename id=", id.as_str());
            out.append(" -> ");
            out.append(to.as_str());
            out
        },
        SummaryEvent::BgmPlay { file, loop_play, gain } => {
            let mut out = concat("BgmPlay file=", file.as_str());
            out.append(" loop=");
            out.append(flag_of(*loop_play).as_str());
            out.append(" gain=");
            out.append(number_of(*gain).as_str());
            out
        },
        SummaryEvent::SePlay { id, file } => {
            let mut out = concat("SePlay id=", id.as_str());
            out.append(" file=");
            out.append(file.as_str());
            out
        },
        SummaryEvent::VoicePlay { file, gain } => {
            let mut out = concat("VoicePlay file=", file.as_str());
            out.append(" gain=");
            out.append(number_of(*gain).as_str());
            out
        },
        SummaryEvent::VideoPlay { id, file } => {
            let mut out = concat("VideoPlay id=", text_or_none(id).as_str());
            out.append(" file=");
            out.append(file.as_str());
            out
        },
        SummaryEvent::Text { content } => concat("Text ", debug_text(content.as_str()).as_str()),
        SummaryEvent::ScenarioText { content, inline } => {
            let mut out = concat("ScenarioText inline=", flag_of(*inline).as_str());
            out.append(" ");
            out.append(debug_text(content.as_str()).as_str());
            out
        },
        SummaryEvent::FontSettings { settings } => concat(
            "FontSettings ",
            format_map(settings).as_str(),
        ),
        SummaryEvent::FontDefault { settings } => concat(
            "FontDefault ",
            format_map(settings).as_str(),
        ),
        SummaryEvent::WaitGeneric => copy_text("Wait(Generic)"),
        SummaryEvent::WaitStop { reason } => match reason {
            Some(r) => {
                let mut out = concat("Wait(Stop:", r.as_str());
                out.append(")");
                out
            },
            None => copy_text("Wait(Stop)"),
        },
        SummaryEvent::WaitTimed { milliseconds, input } => {
            let mut out = concat("Wait(Timed time=", decimal_of(*milliseconds).as_str());
            out.append(" input=");
            out.append(signed_of(*input).as_str());
            out.append(")");
            out
        },
        SummaryEvent::Custom { tag, params } => {
            let mut out = concat("Custom [", tag.as_str());
            out.append("] ");
            out.append(format_map(params).as_str());
            out
        },
        SummaryEvent::Told { text } => copy_text(text.as_str()),
    }
}

/// Tells an event in one line of limited length.
pub fn event_summary(event: &SummaryEvent) -> (out: String)
    ensures
        out@ == cut_line(event_line(*event)),
{
    let line = whole_line(event);
    cut(line.as_str())
}

/// A line is never longer than its limit and the mark, and a short one is
/// whole.
pub proof fn law_lines_are_limited(event: SummaryEvent)
    ensures
        cut_line(event_line(event)).len() <= 201,
        event_line(event).len() <= 200 ==> cut_line(event_line(event)) == event_line(event),
{
    reveal_strlit("…");
}

/// What scripts ask of a game: an empty name saves what is kept between games, and
/// loads nothing.
pub proof fn law_games_are_saved_and_loaded(file: String, savepath: Seq<char>)
    ensures
        file@.len() == 0 ==> action_for(ScriptEvent::SaveGame { file }, savepath) is SaveSystem,
        file@.len() > 0 ==> action_for(ScriptEvent::SaveGame { file }, savepath) == (
        ActionView::Save { file: file@ }),
        file@.len() == 0 ==> action_for(ScriptEvent::LoadGame { file }, savepath) is Refuse,
        file@.len() > 0 ==> action_for(ScriptEvent::LoadGame { file }, savepath) == (
        ActionView::Load { file: file@ }),
        action_for(ScriptEvent::Exit, savepath) is Exit,
        action_for(ScriptEvent::GoTitle, savepath) is GoTitle,
        action_for(ScriptEvent::TakeScreenshot, savepath) is Capture,
        action_for(ScriptEvent::AutoSkipDisable, savepath) is EndModes,
        action_for(ScriptEvent::Other, savepath) is Nothing,
{
}

/// Files are deleted below the path of saves, or not at all; copied and moved as
/// they are named, and only a move removes the first one. What lacks a name does
/// nothing, and what is none of the three is refused.
pub proof fn law_files_are_deleted_copied_and_moved(
    command: Seq<char>,
    target: Option<Seq<char>>,
    src: Option<Seq<char>>,
    dst: Option<Seq<char>>,
    savepath: Seq<char>,
)
    ensures
        ({
            let delete = file_action("delete"@, target, src, dst, savepath);
            &&& target is None ==> delete is Nothing
            &&& target matches Some(file) ==> {
                &&& qualified(file, savepath) is None ==> delete is Refuse
                &&& qualified(file, savepath) matches Some(path) ==> delete == (
                ActionView::Delete { path })
            }
        }),
        ({
            let copy = file_action("copy"@, target, src, dst, savepath);
            let moved = file_action("move"@, target, src, dst, savepath);
            &&& src is None || dst is None ==> copy is Nothing && moved is Nothing
            &&& src matches Some(s) ==> (dst matches Some(d) ==> copy == (ActionView::Copy {
                src: s,
                dst: d,
                remove: false,
            }) && moved == (ActionView::Copy { src: s, dst: d, remove: true }))
        }),
        command != "delete"@ && command != "copy"@ && command != "move"@ ==> file_action(
            command,
            target,
            src,
            dst,
            savepath,
        ) is Refuse,
{
    reveal_strlit("delete");
    reveal_strlit("copy");
    reveal_strlit("move");
    assert("delete"@[0] == 'd' && "copy"@[0] == 'c' && "move"@[0] == 'm');
}

/// An event hands on what it holds, with no part in another's place.
pub proof fn law_events_hand_on_what_they_hold(event: ScriptEvent, savepath: Seq<char>)
    ensures
        event matches ScriptEvent::SaveScreenshot { file, width, height } ==> action_for(
            event,
            savepath,
        ) == (ActionView::Thumbnail { file: file@, width, height }),
        event matches ScriptEvent::ShaderLoad { id, file } ==> action_for(event, savepath) == (
        ActionView::LoadShader { id: id@, file: file@ }),
        event matches ScriptEvent::AutoModeConfig {
            allow,
            layer,
            stop_by_click,
            stop_by_stop,
            sync_se,
        } ==> action_for(event, savepath) == (ActionView::AutoMode {
            allow,
            layer: opt_text(layer),
            stop_by_click,
            stop_by_stop,
            sync_se: opt_texts(sync_se),
        }),
        event matches ScriptEvent::SkipConfig { allow, skip_unread } ==> action_for(event, savepath)
            == (ActionView::Skip { allow, skip_unread }),
        event matches ScriptEvent::Exec { command, mode } ==> action_for(event, savepath) == (
        ActionView::Exec { command: command@, mode }),
        event matches ScriptEvent::ShowDialog {
            title,
            message,
            varname,
            textfield,
            textfield_size,
        } ==> action_for(event, savepath) == (ActionView::Dialog {
            title: title@,
            message: message@,
            varname: opt_text(varname),
            textfield: opt_text(textfield),
            textfield_size,
        }),
        event matches ScriptEvent::FileOperation { command, target, src, dst } ==> action_for(
            event,
            savepath,
        ) == file_action(command@, opt_text(target), opt_text(src), opt_text(dst), savepath),
{
}

/// Of the tags that only some know, one loads a shader, where it gives it a name
/// and a file that are not empty; without them it is refused. Others do nothing.
pub proof fn law_shaders_need_a_name_and_a_file(
    tag: String,
    params: NameMap<String>,
    savepath: Seq<char>,
)
    ensures
        ({
            let out = action_for(ScriptEvent::Custom { tag, params }, savepath);
            let raw = text_map(params);
            let named = raw.contains_key("id"@) && raw["id"@].len() > 0 && raw.contains_key(
                "file"@,
            ) && raw["file"@].len() > 0;
            &&& tag@ != "lyshader"@ ==> out is Nothing
            &&& tag@ == "lyshader"@ && !named ==> out is Refuse
            &&& tag@ == "lyshader"@ && named ==> out == (ActionView::LoadShader {
                id: raw["id"@],
                file: raw["file"@],
            })
        }),
{
}

/// Four of the actions are for the control, and go to its rules: those of auto mode
/// with its layer and sounds, where sounds that are not said stay; those of
/// skipping; ending both, auto mode first; and commands.
pub proof fn law_actions_of_the_control(
    c: Control,
    action: ActionView,
    script: Option<Seq<char>>,
    scene: Map<Seq<char>, bool>,
)
    ensures
        ({
            let out = control_step(c, action, script, scene);
            &&& out is Some <==> action is AutoMode || action is Skip || action is EndModes
                || action is Exec
            &&& action matches ActionView::AutoMode {
                allow,
                layer,
                stop_by_click,
                stop_by_stop,
                sync_se,
            } ==> {
                let rule = auto_configured(c.modes, allow, stop_by_click, stop_by_stop);
                &&& out->0.actions == rule.actions
                &&& out->0.control == (Control {
                    modes: rule.modes,
                    automode_layer: layer,
                    automode_sync_se: out->0.control.automode_sync_se,
                    ..c
                })
                &&& sync_se is None ==> out->0.control.automode_sync_se == c.automode_sync_se
                &&& sync_se matches Some(list) ==> out->0.control.automode_sync_se == list
            }
            &&& action matches ActionView::Skip { allow, skip_unread } ==> out->0.control == (
            Control { modes: skip_configured(c.modes, allow, skip_unread).modes, ..c })
                && out->0.actions == skip_configured(c.modes, allow, skip_unread).actions
            &&& action is EndModes ==> out->0.control == (Control {
                modes: skip_off(auto_off(c.modes).modes).modes,
                ..c
            }) && out->0.actions == auto_off(c.modes).actions + skip_off(
                auto_off(c.modes).modes,
            ).actions
            &&& action matches ActionView::Exec { command, mode } ==> out == Some(
                exec_step(c, command, mode, script, scene),
            )
        }),
{
}

/// The parts of a line are told so: a switch by its word, what may be missing by
/// `Some` and its value or by `None`, and an entry by its name and its value.
pub proof fn law_parts_of_lines(n: i32, t: u64, text: Seq<char>, key: Seq<char>)
    ensures
        flag_text(true) == "true"@,
        flag_text(false) == "false"@,
        some_number(None) == "None"@,
        some_number(Some(n)) == "Some("@ + signed_text(n as int) + ")"@,
        some_time(None) == "None"@,
        some_time(Some(t)) == "Some("@ + decimal_text(t as nat) + ")"@,
        some_text(None) == "None"@,
        some_text(Some(text)) == "Some("@ + debug_quoted(text) + ")"@,
        entry_text(key, text) == key + "="@ + text,
{
}

/// A line that is too long keeps its first 200 characters and is marked.
pub proof fn law_long_lines_are_marked(line: Seq<char>, i: int)
    ensures
        line.len() <= 200 ==> cut_line(line) == line,
        line.len() > 200 ==> cut_line(line).len() == 200 + "…"@.len() && (0 <= i < 200
            ==> cut_line(line)[i] == line[i]) && cut_line(line).skip(200) == "…"@,
{
    if line.len() > 200 {
        assert(cut_line(line).skip(200) =~= "…"@);
    }
}

/// Layers, pictures and properties are told with their names and what becomes of
/// them.
pub proof fn law_layer_events_are_told(event: SummaryEvent)
    ensures
        event matches SummaryEvent::LayerCreate { id, file } ==> event_line(event)
            == "LayerCreate id="@ + id@ + " file="@ + file@,
        event matches SummaryEvent::LayerCreate2 { id, file, alpha } ==> event_line(event)
            == "LayerCreate2 id="@ + id@ + " file="@ + file@ + " alpha="@ + alpha@,
        event matches SummaryEvent::LayerDelete { id } ==> event_line(event) == "LayerDelete id="@
            + id@,
        event matches SummaryEvent::LayerSetProperty { id, property, value } ==> event_line(event)
            == "LayerSetProp id="@ + id@ + " "@ + property@ + "="@ + value@,
        event matches SummaryEvent::LayerSetProperties { id, properties } ==> event_line(event)
            == "LayerSetProps id="@ + id@ + " "@ + join(sorted_entries(properties.items()), ' '),
        event matches SummaryEvent::LayerTween { id, param, to, time } ==> event_line(event)
            == "LayerTween id="@ + id@ + " "@ + param@ + "->"@ + to@ + " time="@ + time@,
        event matches SummaryEvent::LayerRename { id, to } ==> event_line(event)
            == "LayerRename id="@ + id@ + " -> "@ + to@,
        event matches SummaryEvent::Trans { trans_type, time, rule } ==> event_line(event)
            == "Trans type="@ + signed_text(trans_type as int) + " time="@ + some_time(time)
            + " rule="@ + some_text(opt_text(rule)),
{
}

/// What plays is told with its file, whether it plays again and how loud.
pub proof fn law_media_events_are_told(event: SummaryEvent)
    ensures
        event matches SummaryEvent::BgmPlay { file, loop_play, gain } ==> event_line(event)
            == "BgmPlay file="@ + file@ + " loop="@ + (if loop_play {
            "true"@
        } else {
            "false"@
        }) + " gain="@ + some_number(gain),
        event matches SummaryEvent::SePlay { id, file } ==> event_line(event) == "SePlay id="@ + id@
            + " file="@ + file@,
        event matches SummaryEvent::VoicePlay { file, gain } ==> event_line(event)
            == "VoicePlay file="@ + file@ + " gain="@ + some_number(gain),
        event matches SummaryEvent::VideoPlay { id, file } ==> event_line(event)
            == "VideoPlay id="@ + some_text(opt_text(id)) + " file="@ + file@,
{
}

/// Text is told in quotes, settings entry by entry, and waits with what they wait
/// for; an event that tells itself is told so.
pub proof fn law_text_events_are_told(event: SummaryEvent)
    ensures
        event matches SummaryEvent::Text { content } ==> event_line(event) == "Text "@
            + debug_quoted(content@),
        event matches SummaryEvent::ScenarioText { content, inline } ==> event_line(event)
            == "ScenarioText inline="@ + (if inline {
            "true"@
        } else {
            "false"@
        }) + " "@ + debug_quoted(content@),
        event matches SummaryEvent::FontSettings { settings } ==> event_line(event)
            == "FontSettings "@ + join(sorted_entries(settings.items()), ' '),
        event matches SummaryEvent::FontDefault { settings } ==> event_line(event)
            == "FontDefault "@ + join(sorted_entries(settings.items()), ' '),
        event is WaitGeneric ==> event_line(event) == "Wait(Generic)"@,
        event matches SummaryEvent::WaitStop { reason } ==> {
            &&& reason is None ==> event_line(event) == "Wait(Stop)"@
            &&& reason matches Some(r) ==> event_line(event) == "Wait(Stop:"@ + r@ + ")"@
        },
        event matches SummaryEvent::WaitTimed { milliseconds, input } ==> event_line(event)
            == "Wait(Timed time="@ + decimal_text(milliseconds as nat) + " input="@ + signed_text(
            input as int,
        ) + ")"@,
        event matches SummaryEvent::Custom { tag, params } ==> event_line(event) == "Custom ["@
            + tag@ + "] "@ + join(sorted_entries(params.items()), ' '),
        event matches SummaryEvent::Told { text } ==> event_line(event) == text@,
{
}

} // verus!
