//! Switches of the host interface, and the counters of its file calls.
use vstd::prelude::*;

verus! {

/// The log settings of scripts.
#[derive(Clone, Copy, Debug, PartialEq, Eq, Structural)]
pub struct ScriptDebug {
    /// 0 is silence; any other mode prints.
    pub mode: i32,
    pub level: i32,
}

impl Default for ScriptDebug {
    fn default() -> (out: Self)
        ensures
            out == (ScriptDebug { mode: 0, level: 0 }),
    {
        ScriptDebug { mode: 0, level: 0 }
    }
}

/// The settings after some were said; what is not said stays.
pub open spec fn debug_set(c: ScriptDebug, mode: Option<i32>, level: Option<i32>) -> ScriptDebug {
    ScriptDebug {
        mode: match mode {
            Some(m) => m,
            None => c.mode,
        },
        level: match level {
            Some(l) => l,
            None => c.level,
        },
    }
}

/// Takes the log settings of a script; what is not said stays.
pub fn set_script_debug_config(config: &mut ScriptDebug, mode: Option<i32>, level: Option<i32>)
    ensures
        *final(config) == debug_set(*old(config), mode, level),
{
    if let Some(m) = mode {
        config.mode = m;
    }
    if let Some(l) = level {
        config.level = l;
    }
}

pub fn script_debug_mode(config: &ScriptDebug) -> (out: i32)
    ensures
        out == config.mode,
{
    config.mode
}

pub fn script_debug_level(config: &ScriptDebug) -> (out: i32)
    ensures
        out == config.level,
{
    config.level
}

/// Whether a script's line of a level is printed.
pub fn script_debug_print_allowed(config: &ScriptDebug, level: i32) -> (out: bool)
    ensures
        out == (config.mode != 0 && level <= config.level),
{
    config.mode != 0 && level <= config.level
}

/// Saying nothing changes nothing, and saying something twice changes no more
/// than saying it once.
pub proof fn law_unsaid_settings_stay(c: ScriptDebug, mode: Option<i32>, level: Option<i32>)
    ensures
        debug_set(c, None, None) == c,
        debug_set(debug_set(c, mode, level), mode, level) == debug_set(c, mode, level),
{
}

/// The debug switches of the process.
#[derive(Clone, Copy, Debug, PartialEq, Eq, Structural)]
pub struct DebugSwitches {
    pub debug: bool,
    pub damage: bool,
}

impl Default for DebugSwitches {
    fn default() -> (out: Self)
        ensures
            out == (DebugSwitches { debug: false, damage: false }),
    {
        DebugSwitches { debug: false, damage: false }
    }
}

/// Switches debugging; off, damage is no longer shown either.
pub fn set_debug(switches: &mut DebugSwitches, enabled: i32)
    ensures
        final(switches).debug == (enabled != 0),
        final(switches).damage == (enabled != 0 && old(switches).damage),
{
    switches.debug = enabled != 0;
    if enabled == 0 {
        switches.damage = false;
    }
}

pub fn debug_enabled(switches: &DebugSwitches) -> (out: bool)
    ensures
        out == switches.debug,
{
    switches.debug
}

/// Shows damage, where debugging is on.
pub fn set_damage_visualization(switches: &mut DebugSwitches, enabled: i32)
    ensures
        final(switches).debug == old(switches).debug,
        final(switches).damage == (enabled != 0 && old(switches).debug),
{
    switches.damage = enabled != 0 && switches.debug;
}

/// Whether damage is shown.
pub fn damage_visualization_enabled(switches: &DebugSwitches) -> (out: bool)
    ensures
        out == (switches.debug && switches.damage),
{
    switches.debug && switches.damage
}

/// What the file calls of a frame came to.
#[derive(Clone, Copy, Debug, PartialEq, Eq, Structural)]
pub struct HostFfiProfile {
    pub calls: u64,
    pub elapsed_ns: u64,
    pub bytes: u64,
}

/// The counters of file calls.
#[derive(Clone, Copy, Debug, PartialEq, Eq, Structural)]
pub struct ProfileIo {
    pub enabled: bool,
    pub counters: HostFfiProfile,
}

/// No calls.
pub open spec fn no_calls() -> HostFfiProfile {
    HostFfiProfile { calls: 0, elapsed_ns: 0, bytes: 0 }
}

/// A sum that stays within 64 bits.
pub open spec fn capped_sum(a: u64, b: u64) -> u64 {
    if a + b > u64::MAX {
        u64::MAX
    } else {
        (a + b) as u64
    }
}

impl ProfileIo {
    pub fn new() -> (out: Self)
        ensures
            out == (ProfileIo { enabled: false, counters: no_calls() }),
    {
        ProfileIo {
            enabled: false,
            counters: HostFfiProfile { calls: 0, elapsed_ns: 0, bytes: 0 },
        }
    }

    /// Switches counting; off, what was counted is gone.
    pub fn set_profile_io_enabled(&mut self, enabled: bool)
        ensures
            final(self).enabled == enabled,
            final(self).counters == (if enabled {
                old(self).counters
            } else {
                no_calls()
            }),
    {
        self.enabled = enabled;
        if !enabled {
            let _gone = self.take_profile_io_counters();
        }
    }

    /// Hands out what was counted and begins anew.
    pub fn take_profile_io_counters(&mut self) -> (out: HostFfiProfile)
        ensures
            out == old(self).counters,
            final(self).counters == no_calls(),
            final(self).enabled == old(self).enabled,
    {
        let out = self.counters;
        self.counters = HostFfiProfile { calls: 0, elapsed_ns: 0, bytes: 0 };
        out
    }

    /// Counts a call that took some time, where it was begun while counting was
    /// on.
    pub fn finish_profile_io(&mut self, elapsed_ns: Option<u64>, bytes: u64)
        ensures
            final(self).enabled == old(self).enabled,
            final(self).counters == (match elapsed_ns {
                Some(ns) => HostFfiProfile {
                    calls: capped_sum(old(self).counters.calls, 1),
                    elapsed_ns: capped_sum(old(self).counters.elapsed_ns, ns),
                    bytes: capped_sum(old(self).counters.bytes, bytes),
                },
                None => old(self).counters,
            }),
    {
        if let Some(ns) = elapsed_ns {
            self.counters = HostFfiProfile {
                calls: self.counters.calls.saturating_add(1),
                elapsed_ns: self.counters.elapsed_ns.saturating_add(ns),
                bytes: self.counters.bytes.saturating_add(bytes),
            };
        }
    }
}

/// What is said of the printing holds, and what is not said stays.
pub proof fn law_said_settings_hold(c: ScriptDebug, mode: Option<i32>, level: Option<i32>)
    ensures
        ({
            let next = debug_set(c, mode, level);
            &&& mode is None ==> next.mode == c.mode
            &&& mode matches Some(m) ==> next.mode == m
            &&& level is None ==> next.level == c.level
            &&& level matches Some(l) ==> next.level == l
        }),
{
}

/// Counters begin at 0 and stop at the largest number.
pub proof fn law_counters_stop_at_the_largest(a: u64, b: u64)
    ensures
        a + b <= u64::MAX ==> capped_sum(a, b) == a + b,
        a + b > u64::MAX ==> capped_sum(a, b) == u64::MAX,
        no_calls().calls == 0 && no_calls().elapsed_ns == 0 && no_calls().bytes == 0,
{
}

} // verus!
