//! Skipping and auto mode.
use crate::runtime::actions::{
    lemma_joined, lemma_pushed0, lemma_pushed1, lemma_pushed2, lemma_pushed3, lemma_pushed4, note,
    noted, noted_one, records, ActionRecord, ControlAction,
};
use crate::strs::copy_text;
use vstd::prelude::*;

verus! {

/// The pause before auto mode goes on, in milliseconds.
pub const AUTO_ADVANCE_DELAY_MS: u64 = 900;

/// The modes in which the engine goes on by itself.
#[derive(Clone, Copy, Debug, PartialEq, Eq, Structural)]
pub struct Modes {
    pub skip_allowed: bool,
    /// Whether unread text is skipped too.
    pub skip_unread: bool,
    pub skip_active: bool,
    pub automode_allowed: bool,
    pub automode_active: bool,
    /// Whether a left click stops auto mode.
    pub automode_stop_by_click: bool,
    /// Whether a script stop ends auto mode.
    pub automode_stop_by_stop: bool,
    /// Whether unread text may stop skipping.
    pub already_read_enabled: bool,
    pub auto_wait_elapsed_ms: u64,
    pub skip_wait_revealed: bool,
    pub skip_hold_frames: u8,
    pub was_skipping: bool,
    /// Whether skipping is forced by a held key.
    pub control_skip_active: bool,
}

/// Modes and the actions that a rule gave.
pub struct ModeStep {
    pub modes: Modes,
    pub actions: Seq<ActionRecord>,
}

impl ModeStep {
    /// One step after another.
    pub open spec fn followed_by(self, next: ModeStep) -> ModeStep {
        ModeStep { modes: next.modes, actions: self.actions + next.actions }
    }
}

/// The modes at the start.
pub open spec fn initial_modes() -> Modes {
    Modes {
        skip_allowed: true,
        skip_unread: true,
        skip_active: false,
        automode_allowed: true,
        automode_active: false,
        automode_stop_by_click: true,
        automode_stop_by_stop: true,
        already_read_enabled: true,
        auto_wait_elapsed_ms: 0,
        skip_wait_revealed: false,
        skip_hold_frames: 0,
        was_skipping: false,
        control_skip_active: false,
    }
}

/// Nothing changes.
pub open spec fn idle(m: Modes) -> ModeStep {
    ModeStep { modes: m, actions: Seq::empty() }
}

/// Whether the engine skips: by command where that is allowed, or by a held
/// key.
pub open spec fn skipping(m: Modes) -> bool {
    (m.skip_active && m.skip_allowed) || m.control_skip_active
}

/// Whether the engine advances by itself.
pub open spec fn auto_on(m: Modes) -> bool {
    m.automode_active && m.automode_allowed
}

/// Whether unread text stops skipping.
pub open spec fn unread_stops(m: Modes) -> bool {
    m.already_read_enabled && !m.skip_unread
}

/// What the script is told of the modes.
pub open spec fn status(m: Modes) -> ActionRecord {
    ActionRecord::SyncStatus {
        commandskip: skipping(m),
        automode: auto_on(m),
        controlskip: m.control_skip_active,
    }
}

/// Auto mode ends.
pub open spec fn auto_off(m: Modes) -> ModeStep {
    if !m.automode_active {
        idle(m)
    } else {
        let next = Modes { automode_active: false, auto_wait_elapsed_ms: 0, ..m };
        ModeStep {
            modes: next,
            actions: seq![status(next), ActionRecord::ControlHandler("automodeout"@)],
        }
    }
}

/// Skipping by command ends.
pub open spec fn skip_off(m: Modes) -> ModeStep {
    if !m.skip_active {
        ModeStep { modes: m, actions: seq![ActionRecord::SetSkipping(skipping(m))] }
    } else {
        let next = Modes { skip_active: false, auto_wait_elapsed_ms: 0, was_skipping: true, ..m };
        ModeStep {
            modes: next,
            actions: seq![
                ActionRecord::SetSkipping(skipping(next)),
                status(next),
                ActionRecord::RevealText,
                ActionRecord::ControlHandler("commandskipout"@),
            ],
        }
    }
}

/// Skipping by command begins, where auto mode is off.
pub open spec fn skip_begins(m: Modes) -> ModeStep {
    if m.skip_active {
        ModeStep { modes: m, actions: seq![ActionRecord::SetSkipping(skipping(m))] }
    } else {
        let next = Modes { skip_active: true, auto_wait_elapsed_ms: 0, ..m };
        ModeStep {
            modes: next,
            actions: seq![
                ActionRecord::SetSkipping(skipping(next)),
                status(next),
                ActionRecord::ControlHandler("commandskipin"@),
            ],
        }
    }
}

/// Skipping by command is switched. It is not switched on where it is not
/// allowed, and switching it on ends auto mode.
pub open spec fn skip_set(m: Modes, enabled: bool) -> ModeStep {
    if !enabled {
        skip_off(m)
    } else if !m.skip_allowed {
        idle(m)
    } else {
        auto_off(m).followed_by(skip_begins(auto_off(m).modes))
    }
}

/// Auto mode begins, where skipping by command is off.
pub open spec fn auto_begins(m: Modes) -> ModeStep {
    if m.automode_active {
        idle(m)
    } else {
        let next = Modes { automode_active: true, auto_wait_elapsed_ms: 0, ..m };
        ModeStep {
            modes: next,
            actions: seq![status(next), ActionRecord::ControlHandler("automodein"@)],
        }
    }
}

/// Auto mode is switched. It is not switched on where it is not allowed, and
/// switching it on ends skipping by command.
pub open spec fn auto_set(m: Modes, enabled: bool) -> ModeStep {
    if !enabled {
        auto_off(m)
    } else if !m.automode_allowed {
        idle(m)
    } else if m.skip_active {
        skip_off(m).followed_by(auto_begins(skip_off(m).modes))
    } else {
        auto_begins(m)
    }
}

/// Forced skipping is switched.
pub open spec fn control_skip_set(m: Modes, active: bool) -> ModeStep {
    if m.control_skip_active == active {
        idle(m)
    } else if active {
        let next = Modes { control_skip_active: true, auto_wait_elapsed_ms: 0, ..m };
        ModeStep {
            modes: next,
            actions: seq![
                ActionRecord::SetSkipping(skipping(next)),
                status(next),
                ActionRecord::ControlHandler("controlskipin"@),
            ],
        }
    } else {
        let next = Modes {
            control_skip_active: false,
            auto_wait_elapsed_ms: 0,
            was_skipping: true,
            ..m
        };
        ModeStep {
            modes: next,
            actions: seq![
                ActionRecord::SetSkipping(skipping(next)),
                status(next),
                ActionRecord::RevealText,
                ActionRecord::ControlHandler("controlskipout"@),
            ],
        }
    }
}

/// The settings of skipping: what is not given stays as it was.
pub open spec fn skip_configured(m: Modes, allow: Option<bool>, unread: Option<bool>) -> ModeStep {
    let first = match allow {
        Some(true) => idle(Modes { skip_allowed: true, ..m }),
        Some(false) => skip_off(Modes { skip_allowed: false, ..m }),
        None => idle(m),
    };
    match unread {
        Some(skip_unread) => ModeStep {
            modes: Modes { skip_unread, ..first.modes },
            actions: first.actions,
        },
        None => first,
    }
}

/// The settings of auto mode. Forbidding it ends it.
pub open spec fn auto_configured(
    m: Modes,
    allow: bool,
    stop_by_click: Option<bool>,
    stop_by_stop: Option<bool>,
) -> ModeStep {
    let next = Modes {
        automode_allowed: allow,
        automode_stop_by_click: match stop_by_click {
            Some(v) => v,
            None => m.automode_stop_by_click,
        },
        automode_stop_by_stop: match stop_by_stop {
            Some(v) => v,
            None => m.automode_stop_by_stop,
        },
        ..m
    };
    if allow {
        idle(next)
    } else {
        auto_off(next)
    }
}

/// Text came up in a line that was or was not read before: the script is told,
/// and unread text may stop skipping.
pub open spec fn text_shown(m: Modes, was_read: bool) -> ModeStep {
    let told = ModeStep { modes: m, actions: seq![ActionRecord::AlreadyRead(was_read)] };
    if skipping(m) && unread_stops(m) && !was_read {
        told.followed_by(skip_off(m))
    } else {
        told
    }
}

/// The modes after a saved game was loaded: every passing mode is off.
pub open spec fn modes_after_load(m: Modes) -> Modes {
    Modes {
        skip_active: false,
        automode_active: false,
        was_skipping: false,
        control_skip_active: false,
        auto_wait_elapsed_ms: 0,
        skip_wait_revealed: false,
        skip_hold_frames: 0,
        ..m
    }
}

/// How long auto mode has waited after `delta_ms` more.
pub open spec fn auto_waited(m: Modes, delta_ms: u64, text_ready: bool) -> u64 {
    if !auto_on(m) || !text_ready {
        0
    } else if m.auto_wait_elapsed_ms + delta_ms > u64::MAX {
        u64::MAX
    } else {
        (m.auto_wait_elapsed_ms + delta_ms) as u64
    }
}

/// Modes and a list of actions moved on by a step.
pub open spec fn moved(
    after: Modes,
    noted_before: Seq<ControlAction>,
    noted_after: Seq<ControlAction>,
    step: ModeStep,
) -> bool {
    after == step.modes && noted(noted_before, noted_after, step.actions)
}

impl Modes {
    pub fn new() -> (out: Self)
        ensures
            out == initial_modes(),
    {
        Modes {
            skip_allowed: true,
            skip_unread: true,
            skip_active: false,
            automode_allowed: true,
            automode_active: false,
            automode_stop_by_click: true,
            automode_stop_by_stop: true,
            already_read_enabled: true,
            auto_wait_elapsed_ms: 0,
            skip_wait_revealed: false,
            skip_hold_frames: 0,
            was_skipping: false,
            control_skip_active: false,
        }
    }

    pub fn skip_active(&self) -> (out: bool)
        ensures
            out == skipping(*self),
    {
        (self.skip_active && self.skip_allowed) || self.control_skip_active
    }

    pub fn automode_active(&self) -> (out: bool)
        ensures
            out == auto_on(*self),
    {
        self.automode_active && self.automode_allowed
    }

    /// Shows the modes to the script.
    pub fn sync_control_status_variables(&self, actions: &mut Vec<ControlAction>)
        ensures
            noted_one(old(actions)@, final(actions)@, status(*self)),
    {
        note(
            actions,
            ControlAction::SyncStatus {
                commandskip: self.skip_active(),
                automode: self.automode_active(),
                controlskip: self.control_skip_active,
            },
        );
    }

    fn end_automode(&mut self, actions: &mut Vec<ControlAction>)
        ensures
            moved(*final(self), old(actions)@, final(actions)@, auto_off(*old(self))),
    {
        let ghost start = records(actions@);
        if !self.automode_active {
            proof {
                lemma_pushed0(start);
            }
            return;
        }
        self.automode_active = false;
        self.auto_wait_elapsed_ms = 0;
        self.sync_control_status_variables(actions);
        note(actions, ControlAction::ControlHandler(copy_text("automodeout")));
        proof {
            lemma_pushed2(start, status(*self), ActionRecord::ControlHandler("automodeout"@));
        }
    }

    fn end_skip(&mut self, actions: &mut Vec<ControlAction>)
        ensures
            moved(*final(self), old(actions)@, final(actions)@, skip_off(*old(self))),
    {
        let ghost start = records(actions@);
        if !self.skip_active {
            note(actions, ControlAction::SetSkipping(self.skip_active()));
            proof {
                lemma_pushed1(start, ActionRecord::SetSkipping(skipping(*self)));
            }
            return;
        }
        self.skip_active = false;
        self.auto_wait_elapsed_ms = 0;
        self.was_skipping = true;
        note(actions, ControlAction::SetSkipping(self.skip_active()));
        self.sync_control_status_variables(actions);
        note(actions, ControlAction::RevealText);
        note(actions, ControlAction::ControlHandler(copy_text("commandskipout")));
        proof {
            lemma_pushed4(
                start,
                ActionRecord::SetSkipping(skipping(*self)),
                status(*self),
                ActionRecord::RevealText,
                ActionRecord::ControlHandler("commandskipout"@),
            );
        }
    }

    fn begin_skip(&mut self, actions: &mut Vec<ControlAction>)
        ensures
            moved(*final(self), old(actions)@, final(actions)@, skip_begins(*old(self))),
    {
        let ghost start = records(actions@);
        if self.skip_active {
            note(actions, ControlAction::SetSkipping(self.skip_active()));
            proof {
                lemma_pushed1(start, ActionRecord::SetSkipping(skipping(*self)));
            }
            return;
        }
        self.skip_active = true;
        self.auto_wait_elapsed_ms = 0;
        note(actions, ControlAction::SetSkipping(self.skip_active()));
        self.sync_control_status_variables(actions);
        note(actions, ControlAction::ControlHandler(copy_text("commandskipin")));
        proof {
            lemma_pushed3(
                start,
                ActionRecord::SetSkipping(skipping(*self)),
                status(*self),
                ActionRecord::ControlHandler("commandskipin"@),
            );
        }
    }

    fn begin_automode(&mut self, actions: &mut Vec<ControlAction>)
        ensures
            moved(*final(self), old(actions)@, final(actions)@, auto_begins(*old(self))),
    {
        let ghost start = records(actions@);
        if self.automode_active {
            proof {
                lemma_pushed0(start);
            }
            return;
        }
        self.automode_active = true;
        self.auto_wait_elapsed_ms = 0;
        self.sync_control_status_variables(actions);
        note(actions, ControlAction::ControlHandler(copy_text("automodein")));
        proof {
            lemma_pushed2(start, status(*self), ActionRecord::ControlHandler("automodein"@));
        }
    }

    /// Switches skipping by command.
    pub fn set_skip_mode(&mut self, enabled: bool, actions: &mut Vec<ControlAction>)
        ensures
            moved(*final(self), old(actions)@, final(actions)@, skip_set(*old(self), enabled)),
    {
        let ghost start = records(actions@);
        if !enabled {
            self.end_skip(actions);
        } else if !self.skip_allowed {
            proof {
                lemma_pushed0(start);
            }
        } else {
            self.end_automode(actions);
            let ghost first = *self;
            self.begin_skip(actions);
            proof {
                lemma_joined(start, auto_off(*old(self)).actions, skip_begins(first).actions);
            }
        }
    }

    /// Switches auto mode.
    pub fn set_automode_mode(&mut self, enabled: bool, actions: &mut Vec<ControlAction>)
        ensures
            moved(*final(self), old(actions)@, final(actions)@, auto_set(*old(self), enabled)),
    {
        let ghost start = records(actions@);
        if !enabled {
            self.end_automode(actions);
        } else if !self.automode_allowed {
            proof {
                lemma_pushed0(start);
            }
        } else if self.skip_active {
            self.end_skip(actions);
            let ghost first = *self;
            self.begin_automode(actions);
            proof {
                lemma_joined(start, skip_off(*old(self)).actions, auto_begins(first).actions);
            }
        } else {
            self.begin_automode(actions);
        }
    }

    /// Ends both modes.
    pub fn disable_auto_skip(&mut self, actions: &mut Vec<ControlAction>)
        ensures
            moved(
                *final(self),
                old(actions)@,
                final(actions)@,
                auto_off(*old(self)).followed_by(skip_off(auto_off(*old(self)).modes)),
            ),
    {
        let ghost start = records(actions@);
        self.end_automode(actions);
        let ghost first = *self;
        self.end_skip(actions);
        proof {
            lemma_joined(start, auto_off(*old(self)).actions, skip_off(first).actions);
        }
    }

    /// The settings of skipping.
    pub fn apply_skip_config(
        &mut self,
        allow: Option<bool>,
        skip_unread: Option<bool>,
        actions: &mut Vec<ControlAction>,
    )
        ensures
            moved(
                *final(self),
                old(actions)@,
                final(actions)@,
                skip_configured(*old(self), allow, skip_unread),
            ),
    {
        proof {
            lemma_pushed0(records(actions@));
        }
        if let Some(allow) = allow {
            self.skip_allowed = allow;
            if !allow {
                self.end_skip(actions);
            }
        }
        if let Some(skip_unread) = skip_unread {
            self.skip_unread = skip_unread;
        }
    }

    /// The settings of auto mode.
    pub fn apply_automode_config(
        &mut self,
        allow: bool,
        stop_by_click: Option<bool>,
        stop_by_stop: Option<bool>,
        actions: &mut Vec<ControlAction>,
    )
        ensures
            moved(
                *final(self),
                old(actions)@,
                final(actions)@,
                auto_configured(*old(self), allow, stop_by_click, stop_by_stop),
            ),
    {
        proof {
            lemma_pushed0(records(actions@));
        }
        self.automode_allowed = allow;
        if let Some(v) = stop_by_click {
            self.automode_stop_by_click = v;
        }
        if let Some(v) = stop_by_stop {
            self.automode_stop_by_stop = v;
        }
        if !allow {
            self.end_automode(actions);
        }
    }

    /// Sets whether unread text may stop skipping.
    pub fn apply_alreadyread(&mut self, mode: i32)
        ensures
            *final(self) == (Modes { already_read_enabled: mode != 0, ..*old(self) }),
    {
        self.already_read_enabled = mode != 0;
    }

    /// Whether a left click ends auto mode.
    pub fn automode_stops_on_click(&self) -> (out: bool)
        ensures
            out == (auto_on(*self) && self.automode_stop_by_click),
    {
        self.automode_active() && self.automode_stop_by_click
    }

    /// Whether a stop of the script ends auto mode.
    pub fn automode_stops_on_stop(&self) -> (out: bool)
        ensures
            out == (auto_on(*self) && self.automode_stop_by_stop),
    {
        self.automode_active() && self.automode_stop_by_stop
    }

    /// Follows up on text that came up.
    pub fn show_text(&mut self, was_read: bool, actions: &mut Vec<ControlAction>)
        ensures
            moved(*final(self), old(actions)@, final(actions)@, text_shown(*old(self), was_read)),
    {
        let ghost start = records(actions@);
        note(actions, ControlAction::AlreadyRead(was_read));
        proof {
            lemma_pushed1(start, ActionRecord::AlreadyRead(was_read));
        }
        if self.already_read_enabled && self.skip_active() && !self.skip_unread && !was_read {
            self.end_skip(actions);
            proof {
                lemma_joined(
                    start,
                    seq![ActionRecord::AlreadyRead(was_read)],
                    skip_off(*old(self)).actions,
                );
            }
        }
    }

    /// Switches forced skipping, which knows no permission.
    pub fn set_control_skip(&mut self, active: bool, actions: &mut Vec<ControlAction>)
        ensures
            moved(
                *final(self),
                old(actions)@,
                final(actions)@,
                control_skip_set(*old(self), active),
            ),
    {
        let ghost start = records(actions@);
        if self.control_skip_active == active {
            proof {
                lemma_pushed0(start);
            }
            return;
        }
        self.control_skip_active = active;
        self.auto_wait_elapsed_ms = 0;
        if !active {
            self.was_skipping = true;
        }
        note(actions, ControlAction::SetSkipping(self.skip_active()));
        self.sync_control_status_variables(actions);
        if active {
            note(actions, ControlAction::ControlHandler(copy_text("controlskipin")));
            proof {
                lemma_pushed3(
                    start,
                    ActionRecord::SetSkipping(skipping(*self)),
                    status(*self),
                    ActionRecord::ControlHandler("controlskipin"@),
                );
            }
        } else {
            note(actions, ControlAction::RevealText);
            note(actions, ControlAction::ControlHandler(copy_text("controlskipout")));
            proof {
                lemma_pushed4(
                    start,
                    ActionRecord::SetSkipping(skipping(*self)),
                    status(*self),
                    ActionRecord::RevealText,
                    ActionRecord::ControlHandler("controlskipout"@),
                );
            }
        }
    }

    pub fn reset_wait_flags(&mut self)
        ensures
            *final(self) == (Modes {
                auto_wait_elapsed_ms: 0,
                skip_wait_revealed: false,
                skip_hold_frames: 0,
                ..*old(self)
            }),
    {
        self.auto_wait_elapsed_ms = 0;
        self.skip_wait_revealed = false;
        self.skip_hold_frames = 0;
    }

    /// Switches off every passing mode.
    pub fn reset_for_load(&mut self)
        ensures
            *final(self) == modes_after_load(*old(self)),
    {
        self.skip_active = false;
        self.automode_active = false;
        self.was_skipping = false;
        self.control_skip_active = false;
        self.reset_wait_flags();
    }

    /// Counts the wait of auto mode and tells whether it is over. The count
    /// starts again while auto mode is off or the text is not ready.
    pub fn should_auto_advance(&mut self, delta_ms: u64, text_ready: bool, wait_ms: u64) -> (out:
        bool)
        ensures
            *final(self) == (Modes {
                auto_wait_elapsed_ms: auto_waited(*old(self), delta_ms, text_ready),
                ..*old(self)
            }),
            out == (auto_on(*old(self)) && text_ready && auto_waited(
                *old(self),
                delta_ms,
                text_ready,
            ) >= wait_ms),
    {
        if !self.automode_active() || !text_ready {
            self.auto_wait_elapsed_ms = 0;
            return false;
        }
        self.auto_wait_elapsed_ms = self.auto_wait_elapsed_ms.saturating_add(delta_ms);
        self.auto_wait_elapsed_ms >= wait_ms
    }

    /// Lets a page stay for a few frames while skipping: it is revealed first,
    /// then held for two frames more.
    pub fn should_hold_for_skip_reveal(&mut self, actions: &mut Vec<ControlAction>) -> (out: bool)
        ensures
            out == (!old(self).skip_wait_revealed || old(self).skip_hold_frames < 3),
            moved(*final(self), old(actions)@, final(actions)@, skip_held(*old(self))),
    {
        proof {
            lemma_pushed0(records(actions@));
            lemma_pushed1(records(actions@), ActionRecord::RevealText);
        }
        if self.skip_wait_revealed {
            if self.skip_hold_frames < 3 {
                self.skip_hold_frames = self.skip_hold_frames + 1;
                return true;
            }
            return false;
        }
        note(actions, ControlAction::RevealText);
        self.skip_wait_revealed = true;
        self.skip_hold_frames = 1;
        true
    }
}

/// A page is held while skipping.
pub open spec fn skip_held(m: Modes) -> ModeStep {
    if !m.skip_wait_revealed {
        ModeStep {
            modes: Modes { skip_wait_revealed: true, skip_hold_frames: 1, ..m },
            actions: seq![ActionRecord::RevealText],
        }
    } else if m.skip_hold_frames < 3 {
        idle(Modes { skip_hold_frames: (m.skip_hold_frames + 1) as u8, ..m })
    } else {
        idle(m)
    }
}

/// The wait of auto mode: the script's setting where it is a number that is not
/// negative, else the default.
pub fn auto_wait_ms(setting: Option<i64>) -> (out: u64)
    ensures
        out == (match setting {
            Some(n) if n >= 0 => n as u64,
            _ => AUTO_ADVANCE_DELAY_MS,
        }),
{
    match setting {
        Some(n) => if n >= 0 {
            n as u64
        } else {
            AUTO_ADVANCE_DELAY_MS
        },
        None => AUTO_ADVANCE_DELAY_MS,
    }
}

// ── What holds of the modes ────────────────────────────────────

/// Skipping by command and auto mode are not on at once.
pub open spec fn exclusive(m: Modes) -> bool {
    !(m.skip_active && m.automode_active)
}

/// No rule switches skipping by command and auto mode on together.
pub proof fn law_modes_stay_exclusive(
    m: Modes,
    flag: bool,
    first: Option<bool>,
    second: Option<bool>,
)
    requires
        exclusive(m),
    ensures
        exclusive(skip_set(m, flag).modes),
        exclusive(auto_set(m, flag).modes),
        exclusive(control_skip_set(m, flag).modes),
        exclusive(skip_configured(m, first, second).modes),
        exclusive(auto_configured(m, flag, first, second).modes),
        exclusive(text_shown(m, flag).modes),
        exclusive(skip_held(m).modes),
        exclusive(modes_after_load(m)),
        exclusive(initial_modes()),
{
}

/// Where a mode is allowed, switching it on switches the other one off.
pub proof fn law_switching_on_ends_the_other(m: Modes)
    ensures
        m.skip_allowed ==> skip_set(m, true).modes.skip_active && !skip_set(
            m,
            true,
        ).modes.automode_active,
        m.automode_allowed ==> auto_set(m, true).modes.automode_active && !auto_set(
            m,
            true,
        ).modes.skip_active,
{
}

/// Forced skipping skips even where skipping by command is forbidden, and
/// letting go ends it.
pub proof fn law_forced_skip_ignores_permission(m: Modes)
    ensures
        skipping(control_skip_set(m, true).modes),
        !m.skip_active ==> !skipping(control_skip_set(m, false).modes),
{
}

/// A mode that is forbidden is off: forbidding it ends it, and it cannot be
/// switched on.
pub proof fn law_forbidden_modes_are_off(m: Modes, unread: Option<bool>)
    ensures
        !skip_configured(m, Some(false), unread).modes.skip_active,
        !auto_configured(m, false, None, None).modes.automode_active,
        !m.skip_allowed ==> skip_set(m, true).modes == m,
        !m.automode_allowed ==> auto_set(m, true).modes == m,
{
}

/// After a game was loaded nothing advances by itself.
pub proof fn law_load_stops_advancing(m: Modes)
    ensures
        !skipping(modes_after_load(m)),
        !auto_on(modes_after_load(m)),
        modes_after_load(modes_after_load(m)) == modes_after_load(m),
{
}

/// Unread text never stops skipping where all text is skipped or reading is not
/// tracked.
pub proof fn law_unread_gate(m: Modes, was_read: bool)
    requires
        m.skip_unread || !m.already_read_enabled || was_read,
    ensures
        text_shown(m, was_read).modes == m,
{
}

/// Skipping is on by a held key, or by command where that is allowed; auto mode
/// where it was switched on and is allowed; and unread text stops skipping where
/// reading counts and unread text is not to be skipped.
pub proof fn law_modes_need_permission(m: Modes)
    ensures
        skipping(m) <==> m.control_skip_active || (m.skip_allowed && m.skip_active),
        auto_on(m) <==> m.automode_allowed && m.automode_active,
        unread_stops(m) <==> m.already_read_enabled && !m.skip_unread,
{
}

/// What is told of modes: the script sees which are on.
pub open spec fn tells(m: Modes, action: ActionRecord) -> bool {
    action matches ActionRecord::SyncStatus { commandskip, automode, controlskip }
        && commandskip == (m.control_skip_active || (m.skip_allowed && m.skip_active))
        && automode == (m.automode_allowed && m.automode_active) && controlskip
        == m.control_skip_active
}

/// What the audio is told of modes: whether scripts are skipped.
pub open spec fn tells_audio(m: Modes, action: ActionRecord) -> bool {
    action == ActionRecord::SetSkipping(
        m.control_skip_active || (m.skip_allowed && m.skip_active),
    )
}

/// Auto mode is switched on and off: nothing else changes, the count of its pause
/// begins anew, and the script is told of the modes and has its handler run.
pub proof fn law_auto_mode_is_switched(m: Modes, enabled: bool)
    requires
        !m.skip_active,
        enabled ==> m.automode_allowed,
    ensures
        ({
            let step = auto_set(m, enabled);
            &&& m.automode_active == enabled ==> step.modes == m && step.actions.len() == 0
            &&& m.automode_active != enabled ==> {
                &&& step.modes == (Modes {
                    automode_active: enabled,
                    auto_wait_elapsed_ms: 0,
                    ..m
                })
                &&& step.actions.len() == 2
                &&& tells(step.modes, step.actions[0])
                &&& step.actions[1] == ActionRecord::ControlHandler(
                    if enabled {
                        "automodein"@
                    } else {
                        "automodeout"@
                    },
                )
            }
        }),
{
}

/// Skipping by command is switched on: nothing else changes, and the audio, the
/// script and its handler are told of it. Where it is on already the audio alone
/// is told.
pub proof fn law_skipping_is_switched_on(m: Modes)
    requires
        m.skip_allowed,
        !m.automode_active,
    ensures
        ({
            let step = skip_set(m, true);
            &&& m.skip_active ==> step.modes == m && step.actions.len() == 1
            &&& !m.skip_active ==> {
                &&& step.modes == (Modes { skip_active: true, auto_wait_elapsed_ms: 0, ..m })
                &&& step.actions.len() == 3
                &&& tells(step.modes, step.actions[1])
                &&& step.actions[2] == ActionRecord::ControlHandler("commandskipin"@)
            }
            &&& step.actions[0] == ActionRecord::SetSkipping(true)
        }),
{
}

/// Skipping by command is switched off, by itself or because it is forbidden: the
/// audio, the script and its handler are told of it, and the whole text appears.
/// Auto mode stays as it is.
pub proof fn law_skipping_is_switched_off(m: Modes, unread: Option<bool>)
    ensures
        ({
            let step = skip_set(m, false);
            &&& m.skip_active ==> {
                &&& step.modes == (Modes {
                    skip_active: false,
                    auto_wait_elapsed_ms: 0,
                    was_skipping: true,
                    ..m
                })
                &&& step.actions.len() == 4
                &&& tells(step.modes, step.actions[1])
                &&& step.actions[2] == ActionRecord::RevealText
                &&& step.actions[3] == ActionRecord::ControlHandler("commandskipout"@)
            }
            &&& !m.skip_active ==> step.modes == m && step.actions.len() == 1
            &&& tells_audio(step.modes, step.actions[0])
        }),
        ({
            let forbidden = Modes { skip_allowed: false, ..m };
            let step = skip_configured(m, Some(false), unread);
            &&& step.actions == skip_set(forbidden, false).actions
            &&& step.modes == (Modes {
                skip_unread: match unread {
                    Some(flag) => flag,
                    None => m.skip_unread,
                },
                ..skip_set(forbidden, false).modes
            })
        }),
{
}

/// Switching a mode on ends the other one first, and is then as if that had never
/// been on.
pub proof fn law_the_other_mode_ends_first(m: Modes)
    ensures
        m.skip_allowed ==> ({
            let first = auto_set(m, false);
            let second = skip_set(first.modes, true);
            &&& skip_set(m, true).modes == second.modes
            &&& skip_set(m, true).actions == first.actions + second.actions
        }),
        m.automode_allowed && m.skip_active ==> ({
            let first = skip_set(m, false);
            let second = auto_set(first.modes, true);
            &&& auto_set(m, true).modes == second.modes
            &&& auto_set(m, true).actions == first.actions + second.actions
        }),
{
    let none = auto_set(m, false);
    if m.skip_allowed && !m.automode_active {
        assert(none.actions + skip_set(none.modes, true).actions =~= skip_set(m, true).actions);
    }
    if m.skip_allowed && m.automode_active {
        let first = auto_set(m, false);
        let idle_step = auto_set(first.modes, false);
        assert(idle_step.actions + skip_begins(first.modes).actions =~= skip_begins(
            first.modes,
        ).actions);
        assert(first.actions + skip_set(first.modes, true).actions =~= skip_set(m, true).actions);
    }
}

/// A mode that is not allowed cannot be switched on, and trying tells nobody.
pub proof fn law_forbidden_modes_stay_off(m: Modes)
    ensures
        !m.skip_allowed ==> skip_set(m, true).modes == m && skip_set(m, true).actions.len() == 0,
        !m.automode_allowed ==> auto_set(m, true).modes == m && auto_set(m, true).actions.len()
            == 0,
{
}

/// Forced skipping follows its key whatever else is on: nothing else changes, and
/// the audio, the script and its handler are told; letting go shows the whole
/// text.
pub proof fn law_forced_skipping_follows_its_key(m: Modes, active: bool)
    ensures
        ({
            let step = control_skip_set(m, active);
            &&& m.control_skip_active == active ==> step.modes == m && step.actions.len() == 0
            &&& m.control_skip_active != active ==> {
                &&& step.modes == (Modes {
                    control_skip_active: active,
                    auto_wait_elapsed_ms: 0,
                    was_skipping: m.was_skipping || !active,
                    ..m
                })
                &&& tells_audio(step.modes, step.actions[0])
                &&& tells(step.modes, step.actions[1])
                &&& active ==> step.actions.len() == 3 && step.actions[2]
                    == ActionRecord::ControlHandler("controlskipin"@)
                &&& !active ==> step.actions.len() == 4 && step.actions[2]
                    == ActionRecord::RevealText && step.actions[3] == ActionRecord::ControlHandler(
                    "controlskipout"@,
                )
            }
        }),
{
}

/// Settings of skipping that do not forbid it change what they say and nothing
/// else, and tell nobody.
pub proof fn law_skip_settings(m: Modes, allow: Option<bool>, unread: Option<bool>)
    requires
        allow != Some(false),
    ensures
        ({
            let step = skip_configured(m, allow, unread);
            &&& step.actions.len() == 0
            &&& step.modes == (Modes {
                skip_allowed: allow is Some || m.skip_allowed,
                skip_unread: match unread {
                    Some(flag) => flag,
                    None => m.skip_unread,
                },
                ..m
            })
        }),
{
}

/// Settings of auto mode change what they say; forbidding it ends it as switching
/// it off does.
pub proof fn law_auto_settings(
    m: Modes,
    allow: bool,
    by_click: Option<bool>,
    by_stop: Option<bool>,
)
    ensures
        ({
            let step = auto_configured(m, allow, by_click, by_stop);
            let said = Modes {
                automode_allowed: allow,
                automode_stop_by_click: step.modes.automode_stop_by_click,
                automode_stop_by_stop: step.modes.automode_stop_by_stop,
                ..m
            };
            &&& by_click matches Some(flag) ==> step.modes.automode_stop_by_click == flag
            &&& by_click is None ==> step.modes.automode_stop_by_click == m.automode_stop_by_click
            &&& by_stop matches Some(flag) ==> step.modes.automode_stop_by_stop == flag
            &&& by_stop is None ==> step.modes.automode_stop_by_stop == m.automode_stop_by_stop
            &&& allow ==> step.modes == said && step.actions.len() == 0
            &&& !allow ==> step.modes == auto_set(said, false).modes && step.actions == auto_set(
                said,
                false,
            ).actions
        }),
{
}

/// The script is told whether text was read before it came up. Text that was not
/// ends skipping by command exactly where scripts are skipped, reading counts and
/// unread text is not to be skipped.
pub proof fn law_unread_text_ends_skipping(m: Modes, was_read: bool)
    ensures
        ({
            let step = text_shown(m, was_read);
            let ends = !was_read && m.already_read_enabled && !m.skip_unread && (
            m.control_skip_active || (m.skip_allowed && m.skip_active));
            &&& step.actions.len() >= 1
            &&& step.actions[0] == ActionRecord::AlreadyRead(was_read)
            &&& !ends ==> step.modes == m && step.actions.len() == 1
            &&& ends ==> step.modes == skip_set(m, false).modes && step.actions.skip(1) == skip_set(
                m,
                false,
            ).actions
        }),
{
    let step = text_shown(m, was_read);
    if step.actions.len() > 1 {
        assert(step.actions.skip(1) =~= skip_set(m, false).actions);
    }
}

/// Loading a game switches every passing mode off and keeps every setting.
pub proof fn law_loading_keeps_settings(m: Modes)
    ensures
        modes_after_load(m) == (Modes {
            skip_allowed: m.skip_allowed,
            skip_unread: m.skip_unread,
            automode_allowed: m.automode_allowed,
            automode_stop_by_click: m.automode_stop_by_click,
            automode_stop_by_stop: m.automode_stop_by_stop,
            already_read_enabled: m.already_read_enabled,
            ..initial_modes()
        }),
        !modes_after_load(m).skip_active && !modes_after_load(m).automode_active
            && !modes_after_load(m).control_skip_active && !modes_after_load(m).was_skipping,
        modes_after_load(m).auto_wait_elapsed_ms == 0 && !modes_after_load(m).skip_wait_revealed
            && modes_after_load(m).skip_hold_frames == 0,
{
}

/// At the start both modes are allowed and off, unread text is skipped, and
/// clicks and stops end auto mode.
pub proof fn law_modes_at_the_start()
    ensures
        initial_modes().skip_allowed && initial_modes().automode_allowed,
        initial_modes().skip_unread && initial_modes().already_read_enabled,
        initial_modes().automode_stop_by_click && initial_modes().automode_stop_by_stop,
        !skipping(initial_modes()) && !auto_on(initial_modes()),
{
}

/// The pause of auto mode grows by the time of a frame while the text is ready,
/// and begins anew else.
pub proof fn law_auto_pause_is_counted(m: Modes, delta_ms: u64, ready: bool)
    ensures
        m.automode_active && m.automode_allowed && ready && m.auto_wait_elapsed_ms + delta_ms
            <= u64::MAX ==> auto_waited(m, delta_ms, ready) == m.auto_wait_elapsed_ms + delta_ms,
        m.automode_active && m.automode_allowed && ready && m.auto_wait_elapsed_ms + delta_ms
            > u64::MAX ==> auto_waited(m, delta_ms, ready) == u64::MAX,
        !(m.automode_active && m.automode_allowed && ready) ==> auto_waited(m, delta_ms, ready)
            == 0,
{
}

/// A page that is skipped appears in its first frame, is counted in the next two,
/// and is then left alone; nothing but the count changes.
pub proof fn law_skipped_pages_are_counted(m: Modes)
    ensures
        !m.skip_wait_revealed ==> skip_held(m).actions == seq![ActionRecord::RevealText]
            && skip_held(m).modes == (Modes {
            skip_wait_revealed: true,
            skip_hold_frames: 1,
            ..m
        }),
        m.skip_wait_revealed ==> skip_held(m).actions.len() == 0,
        m.skip_wait_revealed && m.skip_hold_frames < 3 ==> skip_held(m).modes == (Modes {
            skip_hold_frames: (m.skip_hold_frames + 1) as u8,
            ..m
        }),
        m.skip_wait_revealed && m.skip_hold_frames >= 3 ==> skip_held(m).modes == m,
{
}

/// Without a setting of the script the pause of auto mode is 900 milliseconds.
pub proof fn law_default_pause()
    ensures
        AUTO_ADVANCE_DELAY_MS == 900,
{
}

} // verus!
