//! The control state as a whole: modes, hiding, the right-click script, the
//! emergency screen and the keys and commands that drive them.
use crate::json::{one_member, one_member_text, quote, quoted};
use crate::name_map::{text_map, NameMap};
use crate::runtime::actions::{
    lemma_joined, lemma_pushed0, lemma_pushed1, lemma_pushed2, note, noted, records, ActionRecord,
    ControlAction,
};
use crate::runtime::hiding::{hide_left, hide_toggled, Hiding, HidingRecord};
use crate::runtime::keymap::{
    default_keys, keyconfig, parse_keyconfig, plays, KeyMap, ROLE_ADVANCE, ROLE_AUTOMODE_IN,
    ROLE_AUTOMODE_OUT, ROLE_AUTOMODE_OUT_NOCLICK, ROLE_AVOID_IN, ROLE_AVOID_OUT, ROLE_BACKLOG_IN,
    ROLE_BACKLOG_OUT, ROLE_CONTROL_SKIP, ROLE_HIDE_IN, ROLE_HIDE_OUT, ROLE_SKIP_IN, ROLE_SKIP_OUT,
};
use crate::runtime::modes::{
    auto_configured, auto_on, auto_set, control_skip_set, initial_modes, modes_after_load,
    skip_set, text_shown, Modes,
};
use crate::runtime::read_lines::{is_export, listed, ReadLines};
use crate::strs::{concat, copy_text, opt_text, same_text, signed_of, signed_text, texts};
use vstd::prelude::*;

verus! {

/// A request to the network that a script waits for.
pub struct PendingHttp {
    /// The variable that takes the response code.
    pub varname_code: Option<String>,
    /// The variable that takes the response body.
    pub varname_data: Option<String>,
    /// The file that takes the response body.
    pub filename: Option<String>,
    pub serial: u64,
}

/// What a pending request holds.
pub struct HttpRecord {
    pub varname_code: Option<Seq<char>>,
    pub varname_data: Option<Seq<char>>,
    pub filename: Option<Seq<char>>,
    pub serial: u64,
}

impl View for PendingHttp {
    type V = HttpRecord;

    open spec fn view(&self) -> HttpRecord {
        HttpRecord {
            varname_code: opt_text(self.varname_code),
            varname_data: opt_text(self.varname_data),
            filename: opt_text(self.filename),
            serial: self.serial,
        }
    }
}

// ── Right click ────────────────────────────────────────────────

/// The right-click script.
pub struct RightClick {
    pub allowed: bool,
    /// The script; none means the default one.
    pub file: Option<String>,
}

/// What the right-click settings hold.
pub struct RightClickRecord {
    pub allowed: bool,
    pub file: Option<Seq<char>>,
}

impl View for RightClick {
    type V = RightClickRecord;

    open spec fn view(&self) -> RightClickRecord {
        RightClickRecord { allowed: self.allowed, file: opt_text(self.file) }
    }
}

/// What a right click runs outside of hiding: the script, or its `leave` label
/// where the script is the one that runs.
pub open spec fn rclick_script(r: RightClickRecord, script: Option<Seq<char>>) -> ActionRecord {
    let file = match r.file {
        Some(file) => file,
        None => "rclick.iet"@,
    };
    if script == Some(file) {
        ActionRecord::RunScript { file, label: Some("leave"@), call: false }
    } else {
        ActionRecord::RunScript { file, label: None, call: true }
    }
}

impl RightClick {
    /// The settings; an empty or missing script name leaves the earlier one.
    pub fn apply_rclick_config(&mut self, allow: bool, file: Option<&str>)
        ensures
            final(self)@ == (RightClickRecord {
                allowed: allow,
                file: match file {
                    Some(name) if name@.len() > 0 => Some(name@),
                    _ => old(self)@.file,
                },
            }),
    {
        self.allowed = allow;
        if let Some(name) = file {
            if !name.is_empty() {
                self.file = Some(copy_text(name));
            }
        }
    }

    fn run(&self, current_script: Option<&str>, actions: &mut Vec<ControlAction>)
        ensures
            noted(
                old(actions)@,
                final(actions)@,
                seq![
                    rclick_script(
                        self@,
                        match current_script {
                            Some(name) => Some(name@),
                            None => None,
                        },
                    ),
                ],
            ),
    {
        let file = match &self.file {
            Some(file) => copy_text(file.as_str()),
            None => copy_text("rclick.iet"),
        };
        let inside = match current_script {
            Some(name) => same_text(name, file.as_str()),
            None => false,
        };
        let action = if inside {
            ControlAction::RunScript { file, label: Some(copy_text("leave")), call: false }
        } else {
            ControlAction::RunScript { file, label: None, call: true }
        };
        proof {
            lemma_pushed1(records(actions@), action@);
        }
        note(actions, action);
    }
}

// ── Emergency screen ───────────────────────────────────────────

/// The screen that covers the game in an emergency.
pub struct Avoid {
    /// The picture; none means there is no such screen.
    pub file: Option<String>,
    /// What the window buttons do: 0 nothing, 1 the default, 2 leave the screen
    /// and run the handler.
    pub windowbutton: i32,
    pub active: bool,
}

/// What the emergency screen holds.
pub struct AvoidRecord {
    pub file: Option<Seq<char>>,
    pub windowbutton: i32,
    pub active: bool,
}

impl View for Avoid {
    type V = AvoidRecord;

    open spec fn view(&self) -> AvoidRecord {
        AvoidRecord {
            file: opt_text(self.file),
            windowbutton: self.windowbutton,
            active: self.active,
        }
    }
}

/// An emergency screen and the actions that a rule gave.
pub struct AvoidStep {
    pub avoid: AvoidRecord,
    pub actions: Seq<ActionRecord>,
}

/// What the host is told to show.
pub open spec fn avoid_payload(file: Seq<char>, windowbutton: i32) -> Seq<char> {
    "{\"action\":\"show\",\"file\":"@ + quoted(file) + ",\"windowbutton\":"@ + signed_text(
        windowbutton as int,
    ) + "}"@
}

/// The screen comes up and the audio falls silent.
pub open spec fn avoid_entered(a: AvoidRecord) -> AvoidStep {
    match a.file {
        Some(file) if !a.active => AvoidStep {
            avoid: AvoidRecord { active: true, ..a },
            actions: seq![
                ActionRecord::MuteAudio(true),
                ActionRecord::UiCommand {
                    kind: "avoid"@,
                    payload: avoid_payload(file, a.windowbutton),
                },
            ],
        },
        _ => AvoidStep { avoid: a, actions: Seq::empty() },
    }
}

/// The screen goes away and the audio comes back.
pub open spec fn avoid_left(a: AvoidRecord) -> AvoidStep {
    if !a.active {
        AvoidStep { avoid: a, actions: Seq::empty() }
    } else {
        AvoidStep {
            avoid: AvoidRecord { active: false, ..a },
            actions: seq![
                ActionRecord::MuteAudio(false),
                ActionRecord::UiCommand {
                    kind: "avoid"@,
                    payload: one_member_text("action"@, "hide"@),
                },
            ],
        }
    }
}

/// An emergency screen and a list of actions moved on by a step.
pub open spec fn avoided(
    after: Avoid,
    noted_before: Seq<ControlAction>,
    noted_after: Seq<ControlAction>,
    step: AvoidStep,
) -> bool {
    after@ == step.avoid && noted(noted_before, noted_after, step.actions)
}

impl Avoid {
    /// The settings; an empty name means that there is no screen.
    pub fn apply_avoid_config(&mut self, file: Option<&str>, windowbutton: i32)
        ensures
            final(self)@ == (AvoidRecord {
                file: match file {
                    Some(name) if name@.len() > 0 => Some(name@),
                    _ => None,
                },
                windowbutton,
                ..old(self)@
            }),
    {
        self.file = match file {
            Some(name) => if name.is_empty() {
                None
            } else {
                Some(copy_text(name))
            },
            None => None,
        };
        self.windowbutton = windowbutton;
    }

    /// Brings the screen up.
    pub fn enter_avoid(&mut self, actions: &mut Vec<ControlAction>)
        ensures
            avoided(*final(self), old(actions)@, final(actions)@, avoid_entered(old(self)@)),
    {
        let ghost start = records(actions@);
        proof {
            lemma_pushed0(start);
        }
        if self.active {
            return;
        }
        let payload = match &self.file {
            Some(file) => {
                let name = quote(file.as_str());
                let head = concat("{\"action\":\"show\",\"file\":", name.as_str());
                let middle = concat(head.as_str(), ",\"windowbutton\":");
                let number = signed_of(self.windowbutton);
                let body = concat(middle.as_str(), number.as_str());
                concat(body.as_str(), "}")
            },
            None => {
                return;
            },
        };
        self.active = true;
        let command = ControlAction::UiCommand { kind: copy_text("avoid"), payload };
        proof {
            lemma_pushed2(start, ActionRecord::MuteAudio(true), command@);
        }
        note(actions, ControlAction::MuteAudio(true));
        note(actions, command);
    }

    /// Takes the screen away.
    pub fn exit_avoid(&mut self, actions: &mut Vec<ControlAction>)
        ensures
            avoided(*final(self), old(actions)@, final(actions)@, avoid_left(old(self)@)),
    {
        let ghost start = records(actions@);
        proof {
            lemma_pushed0(start);
        }
        if !self.active {
            return;
        }
        self.active = false;
        let payload = one_member("action", "hide");
        let command = ControlAction::UiCommand { kind: copy_text("avoid"), payload };
        proof {
            lemma_pushed2(start, ActionRecord::MuteAudio(false), command@);
        }
        note(actions, ControlAction::MuteAudio(false));
        note(actions, command);
    }
}

/// An emergency screen that came up goes away again as if nothing had been.
pub proof fn law_avoid_is_undone(a: AvoidRecord)
    requires
        !a.active,
        a.file is Some,
    ensures
        avoid_entered(a).avoid.active,
        avoid_left(avoid_entered(a).avoid).avoid == a,
{
}

// ── The control state ──────────────────────────────────────────

/// The state of everything that controls the flow of a game.
pub struct RuntimeControlState {
    pub modes: Modes,
    pub automode_layer: Option<String>,
    /// The sounds that auto mode waits for; none means any voice.
    pub automode_sync_se: Vec<String>,
    pub read_lines: ReadLines,
    pub hiding: Hiding,
    pub rclick: RightClick,
    pub avoid: Avoid,
    /// 0: never; 1: on leaving; 2: at every wait for input.
    pub autosave_allow: i32,
    pub keymap: KeyMap,
    pub pending_http: Option<PendingHttp>,
    pub http_serial: u64,
    pub host_hooks_installed: bool,
}

/// What the control state holds.
pub struct Control {
    pub modes: Modes,
    pub automode_layer: Option<Seq<char>>,
    pub automode_sync_se: Seq<Seq<char>>,
    pub read: Set<(Seq<char>, usize)>,
    /// The scripts that the record of read lines has an entry for.
    pub read_scripts: Set<Seq<char>>,
    pub hiding: HidingRecord,
    pub rclick: RightClickRecord,
    pub avoid: AvoidRecord,
    pub autosave_allow: i32,
    pub keys: spec_fn(i32) -> Option<Seq<u32>>,
    pub pending_http: Option<HttpRecord>,
    pub http_serial: u64,
    pub host_hooks_installed: bool,
}

pub open spec fn opt_http(pending: Option<PendingHttp>) -> Option<HttpRecord> {
    match pending {
        Some(p) => Some(p@),
        None => None,
    }
}

/// The keys of every role.
pub open spec fn key_table(keymap: KeyMap) -> spec_fn(i32) -> Option<Seq<u32>> {
    |role: i32| keymap.keys(role)
}

/// The read lines as a set.
pub open spec fn read_set(lines: ReadLines) -> Set<(Seq<char>, usize)> {
    Set::new(|p: (Seq<char>, usize)| lines.read(p.0, p.1))
}

impl View for RuntimeControlState {
    type V = Control;

    open spec fn view(&self) -> Control {
        Control {
            modes: self.modes,
            automode_layer: opt_text(self.automode_layer),
            automode_sync_se: texts(self.automode_sync_se@),
            read: read_set(self.read_lines),
            read_scripts: self.read_lines.scripts(),
            hiding: self.hiding@,
            rclick: self.rclick@,
            avoid: self.avoid@,
            autosave_allow: self.autosave_allow,
            keys: key_table(self.keymap),
            pending_http: opt_http(self.pending_http),
            http_serial: self.http_serial,
            host_hooks_installed: self.host_hooks_installed,
        }
    }
}

/// A control state and the actions that a rule gave.
pub struct Step {
    pub control: Control,
    pub actions: Seq<ActionRecord>,
}

/// Nothing changes.
pub open spec fn stays(c: Control) -> Step {
    Step { control: c, actions: Seq::empty() }
}

/// One step after another.
pub open spec fn both(first: Step, second: Step) -> Step {
    Step { control: second.control, actions: first.actions + second.actions }
}

/// A state and a list of actions moved on by a step.
pub open spec fn took(
    after: RuntimeControlState,
    noted_before: Seq<ControlAction>,
    noted_after: Seq<ControlAction>,
    step: Step,
) -> bool {
    after.wf() && after@ == step.control && noted(noted_before, noted_after, step.actions)
}

/// Only the modes change.
pub open spec fn in_modes(c: Control, step: crate::runtime::modes::ModeStep) -> Step {
    Step { control: Control { modes: step.modes, ..c }, actions: step.actions }
}

/// Only hiding changes.
pub open spec fn in_hiding(c: Control, step: crate::runtime::hiding::HideStep) -> Step {
    Step { control: Control { hiding: step.hiding, ..c }, actions: step.actions }
}

/// Only the emergency screen changes.
pub open spec fn in_avoid(c: Control, step: AvoidStep) -> Step {
    Step { control: Control { avoid: step.avoid, ..c }, actions: step.actions }
}

/// Only one thing is left to do.
pub open spec fn asks(c: Control, action: ActionRecord) -> Step {
    Step { control: c, actions: seq![action] }
}

/// A right click: it leaves hiding first, then runs the right-click script.
pub open spec fn rclick_step(
    c: Control,
    script: Option<Seq<char>>,
    scene: Map<Seq<char>, bool>,
) -> Step {
    if c.hiding.active {
        in_hiding(c, hide_left(c.hiding, scene))
    } else if c.rclick.allowed {
        asks(c, rclick_script(c.rclick, script))
    } else {
        stays(c)
    }
}

/// Whether a right click is used up.
pub open spec fn rclick_consumed(c: Control) -> bool {
    c.hiding.active || c.rclick.allowed
}

/// A command of a script to the engine.
pub open spec fn exec_step(
    c: Control,
    command: Seq<char>,
    mode: Option<i32>,
    script: Option<Seq<char>>,
    scene: Map<Seq<char>, bool>,
) -> Step {
    if command == "automode"@ {
        in_modes(
            c,
            auto_set(
                c.modes,
                match mode {
                    Some(m) => m != 0,
                    None => true,
                },
            ),
        )
    } else if command == "skip"@ {
        in_modes(
            c,
            skip_set(
                c.modes,
                match mode {
                    Some(m) => m != 0,
                    None => !c.modes.skip_active,
                },
            ),
        )
    } else if command == "rclick"@ {
        if rclick_consumed(c) {
            rclick_step(c, script, scene)
        } else {
            asks(c, ActionRecord::ExecInput { event: "push"@, key: "2"@ })
        }
    } else if command == "hide"@ {
        in_hiding(c, hide_toggled(c.hiding, scene))
    } else if command == "fullscreen"@ || command == "minimize"@ {
        asks(
            c,
            ActionRecord::UiCommand {
                kind: "exec"@,
                payload: one_member_text("command"@, command),
            },
        )
    } else {
        match input_route(command) {
            Some((event, key)) => asks(c, ActionRecord::ExecInput { event, key }),
            None => stays(c),
        }
    }
}

/// The input event that stands for a command.
pub open spec fn input_route(command: Seq<char>) -> Option<(Seq<char>, Seq<char>)> {
    if command == "backlog"@ {
        Some(("backlogin"@, ""@))
    } else {
        None
    }
}

/// The input event, and its key, that a command is routed to.
pub fn exec_input_route(command: &str) -> (out: Option<(&'static str, &'static str)>)
    ensures
        match input_route(command@) {
            Some((event, key)) => out matches Some(route) && route.0@ == event && route.1@ == key,
            None => out is None,
        },
{
    if same_text(command, "backlog") {
        Some(("backlogin", ""))
    } else {
        None
    }
}

/// Whether a role has a key.
pub open spec fn has_role(c: Control, role: i32, key: u32) -> bool {
    plays((c.keys)(role), key)
}

/// What a key does in one of its roles. A key that starts and ends a mode
/// toggles it.
pub open spec fn role_step(c: Control, role: i32, key: u32, scene: Map<Seq<char>, bool>) -> Step {
    if role == ROLE_HIDE_IN {
        in_hiding(c, hide_toggled(c.hiding, scene))
    } else if role == ROLE_HIDE_OUT {
        if has_role(c, ROLE_HIDE_IN, key) {
            stays(c)
        } else {
            in_hiding(c, hide_left(c.hiding, scene))
        }
    } else if role == ROLE_BACKLOG_IN {
        asks(c, ActionRecord::ExecInput { event: "backlogin"@, key: ""@ })
    } else if role == ROLE_BACKLOG_OUT {
        asks(c, ActionRecord::ExecInput { event: "backlogout"@, key: ""@ })
    } else if role == ROLE_AUTOMODE_IN {
        in_modes(c, auto_set(c.modes, true))
    } else if role == ROLE_AUTOMODE_OUT || role == ROLE_AUTOMODE_OUT_NOCLICK {
        if has_role(c, ROLE_AUTOMODE_IN, key) {
            stays(c)
        } else {
            in_modes(c, auto_set(c.modes, false))
        }
    } else if role == ROLE_SKIP_IN {
        in_modes(
            c,
            skip_set(c.modes, !(has_role(c, ROLE_SKIP_OUT, key) && c.modes.skip_active)),
        )
    } else if role == ROLE_SKIP_OUT {
        if has_role(c, ROLE_SKIP_IN, key) {
            stays(c)
        } else {
            in_modes(c, skip_set(c.modes, false))
        }
    } else if role == ROLE_AVOID_IN {
        if has_role(c, ROLE_AVOID_OUT, key) && c.avoid.active {
            in_avoid(c, avoid_left(c.avoid))
        } else {
            in_avoid(c, avoid_entered(c.avoid))
        }
    } else if role == ROLE_AVOID_OUT {
        if has_role(c, ROLE_AVOID_IN, key) {
            stays(c)
        } else {
            in_avoid(c, avoid_left(c.avoid))
        }
    } else {
        stays(c)
    }
}

/// What a key does in the given roles, one after the other.
pub open spec fn roles_step(
    c: Control,
    roles: Seq<i32>,
    key: u32,
    scene: Map<Seq<char>, bool>,
) -> Step
    decreases roles.len(),
{
    if roles.len() == 0 {
        stays(c)
    } else {
        let before = roles_step(c, roles.drop_last(), key, scene);
        both(before, role_step(before.control, roles.last(), key, scene))
    }
}

/// The roles of a key, ascending.
pub open spec fn roles_of(c: Control, key: u32, roles: Seq<i32>) -> bool {
    &&& forall|a: int, b: int| 0 <= a < b < roles.len() ==> roles[a] < roles[b]
    &&& forall|role: i32| #[trigger] roles.contains(role) == has_role(c, role, key)
}

/// The state after a saved game was loaded: everything that passes is off.
pub open spec fn after_load(c: Control) -> Control {
    Control {
        modes: modes_after_load(c.modes),
        hiding: HidingRecord { active: false, hidden_layers: Seq::empty(), ..c.hiding },
        pending_http: None,
        ..c
    }
}

/// The state at the start.
pub open spec fn initial_control(c: Control) -> bool {
    &&& c.modes == initial_modes()
    &&& c.automode_layer is None
    &&& c.automode_sync_se == Seq::<Seq<char>>::empty()
    &&& c.read == Set::<(Seq<char>, usize)>::empty()
    &&& c.read_scripts == Set::<Seq<char>>::empty()
    &&& c.hiding.allowed
    &&& c.hiding.window == Seq::<Seq<char>>::empty()
    &&& !c.hiding.active
    &&& c.hiding.hidden_layers == Seq::<(Seq<char>, bool)>::empty()
    &&& c.hiding.message_layer is None
    &&& c.rclick == (RightClickRecord { allowed: false, file: None })
    &&& c.avoid == (AvoidRecord { file: None, windowbutton: 0, active: false })
    &&& c.autosave_allow == 0
    &&& forall|role: i32| #[trigger] (c.keys)(role) == default_keys(role)
    &&& c.pending_http is None
    &&& c.http_serial == 0
    &&& !c.host_hooks_installed
}

impl Default for RuntimeControlState {
    fn default() -> (out: Self)
        ensures
            out.wf(),
            initial_control(out@),
    {
        let out = RuntimeControlState {
            modes: Modes::new(),
            automode_layer: None,
            automode_sync_se: Vec::new(),
            read_lines: ReadLines::new(),
            hiding: Hiding::new(),
            rclick: RightClick { allowed: false, file: None },
            avoid: Avoid { file: None, windowbutton: 0, active: false },
            autosave_allow: 0,
            keymap: KeyMap::default_keymap(),
            pending_http: None,
            http_serial: 0,
            host_hooks_installed: false,
        };
        proof {
            assert(out@.read =~= Set::<(Seq<char>, usize)>::empty());
            assert(out@.read_scripts =~= Set::<Seq<char>>::empty());
            assert(out@.automode_sync_se =~= Seq::<Seq<char>>::empty());
        }
        out
    }
}

impl RuntimeControlState {
    /// The record of read lines and the key map are well formed.
    pub open spec fn wf(self) -> bool {
        self.read_lines.wf() && self.keymap.wf()
    }

    pub fn skip_active(&self) -> (out: bool)
        ensures
            out == crate::runtime::modes::skipping(self@.modes),
    {
        self.modes.skip_active()
    }

    pub fn control_skip_active(&self) -> (out: bool)
        ensures
            out == self@.modes.control_skip_active,
    {
        self.modes.control_skip_active
    }

    pub fn hide_active(&self) -> (out: bool)
        ensures
            out == self@.hiding.active,
    {
        self.hiding.active
    }

    pub fn automode_active(&self) -> (out: bool)
        ensures
            out == auto_on(self@.modes),
    {
        self.modes.automode_active()
    }

    /// The roles of a key, ascending.
    pub fn roles_for_key(&self, key: u32) -> (out: Vec<i32>)
        requires
            self.wf(),
        ensures
            roles_of(self@, key, out@),
    {
        self.keymap.roles_for_key(key)
    }

    /// Whether a line of a script was read.
    pub fn is_read(&self, script: &str, line: usize) -> (out: bool)
        ensures
            out == self@.read.contains((script@, line)),
    {
        self.read_lines.is_read(script, line)
    }

    /// Marks a line as read; returns whether that is new.
    pub fn mark_read(&mut self, script: &str, line: usize) -> (out: bool)
        requires
            old(self).wf(),
        ensures
            final(self).wf(),
            out == !old(self)@.read.contains((script@, line)),
            final(self)@ == (Control {
                read: old(self)@.read.insert((script@, line)),
                read_scripts: old(self)@.read_scripts.insert(script@),
                ..old(self)@
            }),
    {
        let fresh = self.read_lines.mark_read(script, line);
        proof {
            assert(self@.read =~= old(self)@.read.insert((script@, line)));
        }
        fresh
    }

    pub fn unread_stops_skip(&self) -> (out: bool)
        ensures
            out == crate::runtime::modes::unread_stops(self@.modes),
    {
        self.modes.already_read_enabled && !self.modes.skip_unread
    }

    /// The read lines as ascending lists, by script.
    pub fn read_lines_export(&self) -> (out: NameMap<Vec<usize>>)
        requires
            self.wf(),
        ensures
            out.wf(),
            is_export(out@, self@.read_scripts, self@.read),
    {
        let out = self.read_lines.export();
        proof {
            assert forall|s: Seq<char>, l: usize| #[trigger] listed(out@, s, l)
                == self@.read.contains((s, l)) by {
                assert(out@.contains_key(s) == self.read_lines.map().contains_key(s));
            }
        }
        out
    }

    /// Adds exported lines to those that were read.
    pub fn read_lines_import(&mut self, data: &NameMap<Vec<usize>>)
        requires
            old(self).wf(),
            data.wf(),
        ensures
            final(self).wf(),
            final(self)@ == (Control {
                read: old(self)@.read.union(
                    Set::new(|p: (Seq<char>, usize)| listed(data@, p.0, p.1)),
                ),
                read_scripts: old(self)@.read_scripts.union(data@.dom()),
                ..old(self)@
            }),
    {
        self.read_lines.import(data);
        proof {
            assert(self@.read =~= old(self)@.read.union(
                Set::new(|p: (Seq<char>, usize)| listed(data@, p.0, p.1)),
            ));
        }
    }

    /// Switches off everything that passes, as loading a game does.
    pub fn reset_modes_for_load(&mut self)
        requires
            old(self).wf(),
        ensures
            final(self).wf(),
            final(self)@ == after_load(old(self)@),
    {
        self.modes.reset_for_load();
        self.hiding.reset_for_load();
        self.pending_http = None;
    }

    /// Switches off everything that passes and tells the audio.
    pub fn reset_control_modes_for_load(&mut self, actions: &mut Vec<ControlAction>)
        requires
            old(self).wf(),
        ensures
            took(
                *final(self),
                old(actions)@,
                final(actions)@,
                asks(after_load(old(self)@), ActionRecord::SetSkipping(false)),
            ),
    {
        proof {
            lemma_pushed1(records(actions@), ActionRecord::SetSkipping(false));
        }
        self.reset_modes_for_load();
        note(actions, ControlAction::SetSkipping(false));
    }

    /// The settings of auto mode. The layer is replaced; the other settings
    /// stay where they are not given.
    pub fn apply_automode_config(
        &mut self,
        allow: bool,
        layer: Option<String>,
        stop_by_click: Option<bool>,
        stop_by_stop: Option<bool>,
        sync_se: Option<Vec<String>>,
        actions: &mut Vec<ControlAction>,
    )
        requires
            old(self).wf(),
        ensures
            took(
                *final(self),
                old(actions)@,
                final(actions)@,
                in_modes(
                    Control {
                        automode_layer: opt_text(layer),
                        automode_sync_se: match sync_se {
                            Some(list) => texts(list@),
                            None => old(self)@.automode_sync_se,
                        },
                        ..old(self)@
                    },
                    auto_configured(old(self)@.modes, allow, stop_by_click, stop_by_stop),
                ),
            ),
    {
        self.modes.apply_automode_config(allow, stop_by_click, stop_by_stop, actions);
        self.automode_layer = layer;
        if let Some(se) = sync_se {
            self.automode_sync_se = se;
        }
    }

    /// Follows up on text that was shown: nothing happens without a wait behind
    /// the text or without a script. Returns whether the record of read lines
    /// changed.
    pub fn track_read_and_stop_skip_on_unread(
        &mut self,
        shown: bool,
        waiting: bool,
        script: Option<&str>,
        line: usize,
        actions: &mut Vec<ControlAction>,
    ) -> (dirty: bool)
        requires
            old(self).wf(),
        ensures
            took(
                *final(self),
                old(actions)@,
                final(actions)@,
                match script {
                    Some(name) if shown && waiting => in_modes(
                        Control {
                            read: old(self)@.read.insert((name@, line)),
                            read_scripts: old(self)@.read_scripts.insert(name@),
                            ..old(self)@
                        },
                        text_shown(
                            old(self)@.modes,
                            old(self)@.read.contains((name@, line)),
                        ),
                    ),
                    _ => stays(old(self)@),
                },
            ),
            dirty == (match script {
                Some(name) => shown && waiting && !old(self)@.read.contains((name@, line)),
                None => false,
            }),
    {
        proof {
            lemma_pushed0(records(actions@));
        }
        if !shown || !waiting {
            return false;
        }
        match script {
            Some(name) => {
                let was_read = self.is_read(name, line);
                self.modes.show_text(was_read, actions);
                self.mark_read(name, line)
            },
            None => false,
        }
    }

    /// Skipping is forced while one of its keys is held.
    pub fn update_control_skip_from_keys(
        &mut self,
        keys_down: &Vec<u32>,
        actions: &mut Vec<ControlAction>,
    )
        requires
            old(self).wf(),
        ensures
            took(
                *final(self),
                old(actions)@,
                final(actions)@,
                in_modes(
                    old(self)@,
                    control_skip_set(
                        old(self)@.modes,
                        exists|key: u32|
                            has_role(old(self)@, ROLE_CONTROL_SKIP, key)
                                && #[trigger] keys_down@.contains(key),
                    ),
                ),
            ),
    {
        let held = self.keymap.role_is_held(ROLE_CONTROL_SKIP, keys_down);
        proof {
            assert(held == (exists|key: u32|
                has_role(self@, ROLE_CONTROL_SKIP, key) && #[trigger] keys_down@.contains(key)));
        }
        self.modes.set_control_skip(held, actions);
    }

    /// Gives a role its keys. Invalid parameters change nothing; returns
    /// whether they were valid.
    pub fn apply_keyconfig(&mut self, params: &NameMap<String>) -> (out: bool)
        requires
            old(self).wf(),
        ensures
            final(self).wf(),
            out == (keyconfig(text_map(*params)) is Some),
            forall|role: i32| #[trigger]
                (final(self)@.keys)(role) == (match keyconfig(text_map(*params)) {
                    Some((r, keys)) => if r == role {
                        Some(keys)
                    } else {
                        (old(self)@.keys)(role)
                    },
                    None => (old(self)@.keys)(role),
                }),
            final(self)@ == (Control { keys: final(self)@.keys, ..old(self)@ }),
    {
        match parse_keyconfig(params) {
            Some((role, keys)) => {
                self.keymap.insert(role, keys);
                proof {
                    assert forall|r: i32| #[trigger] (self@.keys)(r) == (if r == role {
                        Some(keys@)
                    } else {
                        (old(self)@.keys)(r)
                    }) by {
                        assert(self.keymap.keys(r) == self.keymap.keys(r));
                    }
                }
                true
            },
            None => false,
        }
    }

    /// Handles a right click; returns whether it is used up.
    pub fn trigger_rclick(
        &mut self,
        current_script: Option<&str>,
        scene: &NameMap<bool>,
        actions: &mut Vec<ControlAction>,
    ) -> (out: bool)
        requires
            old(self).wf(),
        ensures
            out == rclick_consumed(old(self)@),
            took(
                *final(self),
                old(actions)@,
                final(actions)@,
                rclick_step(
                    old(self)@,
                    match current_script {
                        Some(name) => Some(name@),
                        None => None,
                    },
                    scene@,
                ),
            ),
    {
        proof {
            lemma_pushed0(records(actions@));
        }
        if self.hiding.active {
            self.hiding.exit_hide_mode(scene, actions);
            return true;
        }
        if !self.rclick.allowed {
            return false;
        }
        self.rclick.run(current_script, actions);
        true
    }

    /// Carries out a command of a script. Unknown commands are ignored.
    pub fn apply_exec_command(
        &mut self,
        command: &str,
        mode: Option<i32>,
        current_script: Option<&str>,
        scene: &NameMap<bool>,
        actions: &mut Vec<ControlAction>,
    )
        requires
            old(self).wf(),
        ensures
            took(
                *final(self),
                old(actions)@,
                final(actions)@,
                exec_step(
                    old(self)@,
                    command@,
                    mode,
                    match current_script {
                        Some(name) => Some(name@),
                        None => None,
                    },
                    scene@,
                ),
            ),
    {
        let ghost start = records(actions@);
        proof {
            lemma_pushed0(start);
        }
        if same_text(command, "automode") {
            let enabled = match mode {
                Some(m) => m != 0,
                None => true,
            };
            self.modes.set_automode_mode(enabled, actions);
        } else if same_text(command, "skip") {
            let enabled = match mode {
                Some(m) => m != 0,
                None => !self.modes.skip_active,
            };
            self.modes.set_skip_mode(enabled, actions);
        } else if same_text(command, "rclick") {
            if !self.trigger_rclick(current_script, scene, actions) {
                let action = ControlAction::ExecInput {
                    event: copy_text("push"),
                    key: copy_text("2"),
                };
                proof {
                    lemma_pushed1(start, action@);
                }
                note(actions, action);
            }
        } else if same_text(command, "hide") {
            self.hiding.toggle_hide_mode(scene, actions);
        } else if same_text(command, "fullscreen") || same_text(command, "minimize") {
            let action = ControlAction::UiCommand {
                kind: copy_text("exec"),
                payload: one_member("command", command),
            };
            proof {
                lemma_pushed1(start, action@);
            }
            note(actions, action);
        } else if let Some(route) = exec_input_route(command) {
            let action = ControlAction::ExecInput {
                event: copy_text(route.0),
                key: copy_text(route.1),
            };
            proof {
                lemma_pushed1(start, action@);
            }
            note(actions, action);
        }
    }

    /// What a key does in one of its roles.
    fn play_role(
        &mut self,
        role: i32,
        key: u32,
        scene: &NameMap<bool>,
        actions: &mut Vec<ControlAction>,
    )
        requires
            old(self).wf(),
        ensures
            took(
                *final(self),
                old(actions)@,
                final(actions)@,
                role_step(old(self)@, role, key, scene@),
            ),
    {
        let ghost start = records(actions@);
        proof {
            lemma_pushed0(start);
        }
        if role == ROLE_HIDE_IN {
            self.hiding.toggle_hide_mode(scene, actions);
        } else if role == ROLE_HIDE_OUT {
            if !self.keymap.role_has_key(ROLE_HIDE_IN, key) {
                self.hiding.exit_hide_mode(scene, actions);
            }
        } else if role == ROLE_BACKLOG_IN || role == ROLE_BACKLOG_OUT {
            let event = if role == ROLE_BACKLOG_IN {
                copy_text("backlogin")
            } else {
                copy_text("backlogout")
            };
            let action = ControlAction::ExecInput { event, key: copy_text("") };
            proof {
                lemma_pushed1(start, action@);
            }
            note(actions, action);
        } else if role == ROLE_AUTOMODE_IN {
            self.modes.set_automode_mode(true, actions);
        } else if role == ROLE_AUTOMODE_OUT || role == ROLE_AUTOMODE_OUT_NOCLICK {
            if !self.keymap.role_has_key(ROLE_AUTOMODE_IN, key) {
                self.modes.set_automode_mode(false, actions);
            }
        } else if role == ROLE_SKIP_IN {
            let off = self.keymap.role_has_key(ROLE_SKIP_OUT, key) && self.modes.skip_active;
            self.modes.set_skip_mode(!off, actions);
        } else if role == ROLE_SKIP_OUT {
            if !self.keymap.role_has_key(ROLE_SKIP_IN, key) {
                self.modes.set_skip_mode(false, actions);
            }
        } else if role == ROLE_AVOID_IN {
            if self.keymap.role_has_key(ROLE_AVOID_OUT, key) && self.avoid.active {
                self.avoid.exit_avoid(actions);
            } else {
                self.avoid.enter_avoid(actions);
            }
        } else if role == ROLE_AVOID_OUT {
            if !self.keymap.role_has_key(ROLE_AVOID_IN, key) {
                self.avoid.exit_avoid(actions);
            }
        }
    }

    /// Handles a key press in all roles of the key, in ascending order. Returns
    /// whether the key advances the text.
    pub fn handle_role_key_edge(
        &mut self,
        key: u32,
        scene: &NameMap<bool>,
        actions: &mut Vec<ControlAction>,
    ) -> (advance: bool)
        requires
            old(self).wf(),
        ensures
            advance == has_role(old(self)@, ROLE_ADVANCE, key),
            exists|roles: Seq<i32>| #[trigger]
                roles_of(old(self)@, key, roles) && took(
                    *final(self),
                    old(actions)@,
                    final(actions)@,
                    roles_step(old(self)@, roles, key, scene@),
                ),
    {
        let roles = self.roles_for_key(key);
        let ghost all = roles@;
        let ghost start = records(actions@);
        let ghost c = self@;
        let mut advance = false;
        let mut i: usize = 0;
        proof {
            assert(all.take(0) =~= Seq::empty());
            lemma_pushed0(start);
        }
        while i < roles.len()
            invariant
                i <= roles.len(),
                all == roles@,
                self.wf(),
                self@ == roles_step(c, all.take(i as int), key, scene@).control,
                records(actions@) == start + roles_step(
                    c,
                    all.take(i as int),
                    key,
                    scene@,
                ).actions,
                advance == all.take(i as int).contains(ROLE_ADVANCE),
            decreases roles.len() - i,
        {
            let role: i32 = roles[i];
            let ghost before = roles_step(c, all.take(i as int), key, scene@);
            proof {
                let longer = all.take(i + 1);
                let shorter = all.take(i as int);
                assert(longer.drop_last() =~= shorter);
                assert(longer.last() == role);
                lemma_joined(
                    start,
                    before.actions,
                    role_step(before.control, role, key, scene@).actions,
                );
                if shorter.contains(ROLE_ADVANCE) {
                    let k = choose|k: int| 0 <= k < shorter.len() && shorter[k] == ROLE_ADVANCE;
                    assert(longer[k] == ROLE_ADVANCE);
                }
                if role == ROLE_ADVANCE {
                    assert(longer[i as int] == ROLE_ADVANCE);
                }
                if longer.contains(ROLE_ADVANCE) && role != ROLE_ADVANCE {
                    let k = choose|k: int| 0 <= k < longer.len() && longer[k] == ROLE_ADVANCE;
                    assert(shorter[k] == ROLE_ADVANCE);
                }
            }
            if role == ROLE_ADVANCE {
                advance = true;
            }
            self.play_role(role, key, scene, actions);
            i += 1;
        }
        proof {
            assert(all.take(i as int) =~= all);
            assert(roles_of(old(self)@, key, all));
        }
        advance
    }
}

proof fn lemma_ascending_same(a: Seq<i32>, b: Seq<i32>, n: int)
    requires
        forall|i: int, j: int| 0 <= i < j < a.len() ==> a[i] < a[j],
        forall|i: int, j: int| 0 <= i < j < b.len() ==> b[i] < b[j],
        forall|r: i32| #[trigger] a.contains(r) == b.contains(r),
        0 <= n <= a.len(),
    ensures
        n <= b.len(),
        forall|i: int| 0 <= i < n ==> a[i] == b[i],
    decreases n,
{
    if n > 0 {
        lemma_ascending_same(a, b, n - 1);
        let x = a[n - 1];
        assert(a.contains(x));
        assert(b.contains(x));
        let k = choose|k: int| 0 <= k < b.len() && b[k] == x;
        if k < n - 1 {
            assert(a[k] == b[k]);
            assert(a[k] < a[n - 1]);
        }
        if k > n - 1 {
            let y = b[n - 1];
            assert(b.contains(y));
            assert(a.contains(y));
            let m = choose|m: int| 0 <= m < a.len() && a[m] == y;
            assert(y < x);
            if m < n - 1 {
                assert(b[m] == y);
                assert(b[m] < b[n - 1]);
            } else {
                assert(m != n - 1);
                assert(a[n - 1] < a[m]);
            }
        }
    }
}

/// A key has one list of roles in ascending order, so what it does is settled.
pub proof fn law_key_effect_is_settled(c: Control, key: u32, a: Seq<i32>, b: Seq<i32>)
    requires
        roles_of(c, key, a),
        roles_of(c, key, b),
    ensures
        a == b,
{
    assert forall|r: i32| #[trigger] a.contains(r) == b.contains(r) by {
        assert(a.contains(r) == has_role(c, r, key));
        assert(b.contains(r) == has_role(c, r, key));
    }
    lemma_ascending_same(a, b, a.len() as int);
    assert forall|r: i32| #[trigger] b.contains(r) == a.contains(r) by {
        assert(a.contains(r) == b.contains(r));
    }
    lemma_ascending_same(b, a, b.len() as int);
    assert(a =~= b);
}

/// A line that was read stays read, whatever text comes after it.
pub proof fn law_read_lines_stay_read(
    read: Set<(Seq<char>, usize)>,
    other: (Seq<char>, usize),
    line: (Seq<char>, usize),
)
    requires
        read.contains(line),
    ensures
        read.insert(other).contains(line),
        read.insert(other).contains(other),
{
}

// ── What commands and keys do ──────────────────────────────────

/// Nothing but the part that a rule is about changes, and what it leaves to do is
/// handed on as it is.
pub proof fn law_rules_keep_to_their_part(
    c: Control,
    modes: crate::runtime::modes::ModeStep,
    hiding: crate::runtime::hiding::HideStep,
    avoid: AvoidStep,
    action: ActionRecord,
)
    ensures
        in_modes(c, modes) == (Step {
            control: Control { modes: modes.modes, ..c },
            actions: modes.actions,
        }),
        in_hiding(c, hiding) == (Step {
            control: Control { hiding: hiding.hiding, ..c },
            actions: hiding.actions,
        }),
        in_avoid(c, avoid) == (Step {
            control: Control { avoid: avoid.avoid, ..c },
            actions: avoid.actions,
        }),
        asks(c, action) == (Step { control: c, actions: seq![action] }),
        stays(c).control == c,
        stays(c).actions.len() == 0,
{
}

/// A right click shows what is hidden. Else it calls the right-click script where
/// that is allowed, or goes to its label `leave` where it runs already; without a
/// script of its own that is `rclick.iet`. Where neither applies the click is not
/// used up.
pub proof fn law_right_clicks(
    c: Control,
    script: Option<Seq<char>>,
    scene: Map<Seq<char>, bool>,
)
    ensures
        ({
            let step = rclick_step(c, script, scene);
            let file = if c.rclick.file is Some {
                c.rclick.file->0
            } else {
                "rclick.iet"@
            };
            &&& rclick_consumed(c) <==> c.hiding.active || c.rclick.allowed
            &&& c.hiding.active ==> step.control == (Control {
                hiding: hide_left(c.hiding, scene).hiding,
                ..c
            }) && step.actions == hide_left(c.hiding, scene).actions
            &&& !c.hiding.active && c.rclick.allowed ==> step.control == c && step.actions == seq![
                ActionRecord::RunScript {
                    file,
                    label: if script == Some(file) {
                        Some("leave"@)
                    } else {
                        None
                    },
                    call: script != Some(file),
                },
            ]
            &&& !rclick_consumed(c) ==> step.control == c && step.actions.len() == 0
        }),
{
}

/// The commands that change the modes: auto mode is switched on unless the command
/// says 0, and skipping is switched as it says, or over where it says nothing.
pub proof fn law_commands_switch_modes(
    c: Control,
    mode: Option<i32>,
    script: Option<Seq<char>>,
    scene: Map<Seq<char>, bool>,
)
    ensures
        exec_step(c, "automode"@, mode, script, scene) == in_modes(
            c,
            auto_set(c.modes, mode != Some(0i32)),
        ),
        mode matches Some(m) ==> exec_step(c, "skip"@, mode, script, scene) == in_modes(
            c,
            skip_set(c.modes, m != 0),
        ),
        mode is None ==> exec_step(c, "skip"@, mode, script, scene) == in_modes(
            c,
            skip_set(c.modes, !c.modes.skip_active),
        ),
{
    reveal_strlit("automode");
    reveal_strlit("skip");
    assert("automode"@.len() == 8 && "skip"@.len() == 4);
}

/// The other commands: a right click is one, and pushes key 2 where it is not used
/// up; hiding is toggled; the pages that were read are opened; the host is told of
/// the two that concern the window. What is no command does nothing.
pub proof fn law_commands_of_scripts(
    c: Control,
    command: Seq<char>,
    mode: Option<i32>,
    script: Option<Seq<char>>,
    scene: Map<Seq<char>, bool>,
)
    ensures
        command == "rclick"@ && rclick_consumed(c) ==> exec_step(c, command, mode, script, scene)
            == rclick_step(c, script, scene),
        command == "rclick"@ && !rclick_consumed(c) ==> exec_step(c, command, mode, script, scene)
            == asks(c, ActionRecord::ExecInput { event: "push"@, key: "2"@ }),
        command == "hide"@ ==> exec_step(c, command, mode, script, scene) == in_hiding(
            c,
            hide_toggled(c.hiding, scene),
        ),
        command == "backlog"@ ==> exec_step(c, command, mode, script, scene) == asks(
            c,
            ActionRecord::ExecInput { event: "backlogin"@, key: ""@ },
        ),
        command == "fullscreen"@ || command == "minimize"@ ==> exec_step(
            c,
            command,
            mode,
            script,
            scene,
        ) == asks(
            c,
            ActionRecord::UiCommand {
                kind: "exec"@,
                payload: "{"@ + quoted("command"@) + ":"@ + quoted(command) + "}"@,
            },
        ),
        command != "automode"@ && command != "skip"@ && command != "rclick"@ && command != "hide"@
            && command != "backlog"@ && command != "fullscreen"@ && command != "minimize"@
            ==> exec_step(c, command, mode, script, scene) == stays(c),
{
    reveal_strlit("automode");
    reveal_strlit("skip");
    reveal_strlit("rclick");
    reveal_strlit("hide");
    reveal_strlit("backlog");
    reveal_strlit("fullscreen");
    reveal_strlit("minimize");
    assert("automode"@[0] == 'a' && "skip"@[0] == 's' && "rclick"@[0] == 'r' && "hide"@[0] == 'h');
    assert("backlog"@[0] == 'b' && "fullscreen"@[0] == 'f' && "minimize"@[0] == 'm');
    crate::json::law_one_member_is_written("command"@, command);
}

/// A key that plays the role of beginning something begins it, and one that plays
/// the role of ending it ends it, unless the key plays both: then it toggles. So
/// it is with hiding, auto mode, skipping and the emergency screen; auto mode
/// alone is not ended by the key that begins it.
pub proof fn law_keys_play_their_roles(
    c: Control,
    key: u32,
    scene: Map<Seq<char>, bool>,
)
    ensures
        role_step(c, 3, key, scene) == in_hiding(c, hide_toggled(c.hiding, scene)),
        role_step(c, 4, key, scene) == (if has_role(c, 3, key) {
            stays(c)
        } else {
            in_hiding(c, hide_left(c.hiding, scene))
        }),
        role_step(c, 5, key, scene) == asks(
            c,
            ActionRecord::ExecInput { event: "backlogin"@, key: ""@ },
        ),
        role_step(c, 6, key, scene) == asks(
            c,
            ActionRecord::ExecInput { event: "backlogout"@, key: ""@ },
        ),
        role_step(c, 9, key, scene) == in_modes(c, auto_set(c.modes, true)),
        role_step(c, 10, key, scene) == (if has_role(c, 9, key) {
            stays(c)
        } else {
            in_modes(c, auto_set(c.modes, false))
        }),
        role_step(c, 11, key, scene) == role_step(c, 10, key, scene),
        role_step(c, 12, key, scene) == (if has_role(c, 13, key) && c.modes.skip_active {
            in_modes(c, skip_set(c.modes, false))
        } else {
            in_modes(c, skip_set(c.modes, true))
        }),
        role_step(c, 13, key, scene) == (if has_role(c, 12, key) {
            stays(c)
        } else {
            in_modes(c, skip_set(c.modes, false))
        }),
        role_step(c, 15, key, scene) == (if has_role(c, 16, key) && c.avoid.active {
            in_avoid(c, avoid_left(c.avoid))
        } else {
            in_avoid(c, avoid_entered(c.avoid))
        }),
        role_step(c, 16, key, scene) == (if has_role(c, 15, key) {
            stays(c)
        } else {
            in_avoid(c, avoid_left(c.avoid))
        }),
        has_role(c, 0, key) <==> (c.keys)(0) is Some && (c.keys)(0)->0.contains(key),
{
}

/// A role that is none of these does nothing by itself.
pub proof fn law_other_roles_do_nothing(
    c: Control,
    role: i32,
    key: u32,
    scene: Map<Seq<char>, bool>,
)
    requires
        role < 3 || role == 7 || role == 8 || role == 14 || role > 16,
    ensures
        role_step(c, role, key, scene) == stays(c),
{
}

/// A key plays its roles one after the other, each on what the one before left.
pub proof fn law_roles_are_played_in_order(
    c: Control,
    roles: Seq<i32>,
    role: i32,
    key: u32,
    scene: Map<Seq<char>, bool>,
)
    ensures
        roles_step(c, Seq::empty(), key, scene) == stays(c),
        ({
            let before = roles_step(c, roles, key, scene);
            let last = role_step(before.control, role, key, scene);
            roles_step(c, roles.push(role), key, scene) == (Step {
                control: last.control,
                actions: before.actions + last.actions,
            })
        }),
{
    assert(roles.push(role).drop_last() =~= roles);
}

/// The emergency screen comes up where one is set and none is up, silences the
/// audio and is told to the host with its file and what the window's buttons do;
/// taking it away brings the audio back.
pub proof fn law_emergency_screens(a: AvoidRecord)
    ensures
        a.active || a.file is None ==> avoid_entered(a).avoid == a && avoid_entered(
            a,
        ).actions.len() == 0,
        !a.active ==> (a.file matches Some(file) ==> avoid_entered(a).avoid == (AvoidRecord {
            active: true,
            ..a
        }) && avoid_entered(a).actions == seq![
            ActionRecord::MuteAudio(true),
            ActionRecord::UiCommand {
                kind: "avoid"@,
                payload: "{\"action\":\"show\",\"file\":"@ + quoted(file) + ",\"windowbutton\":"@
                    + signed_text(a.windowbutton as int) + "}"@,
            },
        ]),
        !a.active ==> avoid_left(a).avoid == a && avoid_left(a).actions.len() == 0,
        a.active ==> avoid_left(a).avoid == (AvoidRecord { active: false, ..a }) && avoid_left(
            a,
        ).actions == seq![
            ActionRecord::MuteAudio(false),
            ActionRecord::UiCommand {
                kind: "avoid"@,
                payload: "{"@ + quoted("action"@) + ":"@ + quoted("hide"@) + "}"@,
            },
        ],
{
    crate::json::law_one_member_is_written("action"@, "hide"@);
}

/// Loading a game ends what passes: the modes, hiding and a request to the
/// network. Everything else stays.
pub proof fn law_loading_ends_what_passes(c: Control)
    ensures
        ({
            let after = after_load(c);
            &&& after == (Control {
                modes: after.modes,
                hiding: after.hiding,
                pending_http: None,
                ..c
            })
            &&& after.modes == modes_after_load(c.modes)
            &&& !after.hiding.active
            &&& after.hiding.hidden_layers.len() == 0
            &&& after.hiding.allowed == c.hiding.allowed
            &&& after.hiding.window == c.hiding.window
            &&& after.hiding.message_layer == c.hiding.message_layer
        }),
{
}

/// At the start nothing was read and nothing is hidden; hiding is allowed, the
/// right-click script is not, and the keys are the first ones.
pub proof fn law_control_at_the_start(c: Control, role: i32)
    requires
        initial_control(c),
    ensures
        c.modes == initial_modes(),
        c.read.len() == 0 || c.read == Set::<(Seq<char>, usize)>::empty(),
        c.hiding.allowed && !c.hiding.active,
        !c.rclick.allowed && c.rclick.file is None,
        !c.avoid.active && c.avoid.file is None,
        c.autosave_allow == 0,
        c.http_serial == 0,
        (c.keys)(role) == default_keys(role),
        c.pending_http is None,
{
}

} // verus!
