//! How text appears.
use crate::strs::{same_text, trim, trimmed};
use vstd::prelude::*;

verus! {

/// What moves the characters of a text.
#[derive(Clone, Copy, Debug, PartialEq, Eq, Structural)]
pub enum ScetweenMode {
    /// Text appears.
    In,
    /// Text goes.
    Out,
    /// Text is shown again.
    Show,
    /// Text is hidden.
    Hide,
    /// A page appears on the way to the past.
    BacklogDownIn,
    /// A page goes on the way to the past.
    BacklogDownOut,
    /// A page appears on the way to the present.
    BacklogUpIn,
    /// A page goes on the way to the present.
    BacklogUpOut,
}

/// The mode that a trimmed name stands for.
pub open spec fn mode_named(name: Seq<char>) -> ScetweenMode {
    if name == "out"@ {
        ScetweenMode::Out
    } else if name == "show"@ {
        ScetweenMode::Show
    } else if name == "hide"@ {
        ScetweenMode::Hide
    } else if name == "backlog_down_in"@ {
        ScetweenMode::BacklogDownIn
    } else if name == "backlog_down_out"@ {
        ScetweenMode::BacklogDownOut
    } else if name == "backlog_up_in"@ {
        ScetweenMode::BacklogUpIn
    } else if name == "backlog_up_out"@ {
        ScetweenMode::BacklogUpOut
    } else {
        ScetweenMode::In
    }
}

/// Whether characters appear rather than go.
pub open spec fn is_entrance_mode(mode: ScetweenMode) -> bool {
    match mode {
        ScetweenMode::In
        | ScetweenMode::Show
        | ScetweenMode::BacklogDownIn
        | ScetweenMode::BacklogUpIn => true,
        _ => false,
    }
}

impl ScetweenMode {
    /// The mode of a name; an unknown one means that text appears.
    pub fn from_str(s: &str) -> (out: Self)
        ensures
            out == mode_named(trim(s@)),
    {
        let text = trimmed(s);
        let name = text.as_str();
        if same_text(name, "out") {
            ScetweenMode::Out
        } else if same_text(name, "show") {
            ScetweenMode::Show
        } else if same_text(name, "hide") {
            ScetweenMode::Hide
        } else if same_text(name, "backlog_down_in") {
            ScetweenMode::BacklogDownIn
        } else if same_text(name, "backlog_down_out") {
            ScetweenMode::BacklogDownOut
        } else if same_text(name, "backlog_up_in") {
            ScetweenMode::BacklogUpIn
        } else if same_text(name, "backlog_up_out") {
            ScetweenMode::BacklogUpOut
        } else {
            ScetweenMode::In
        }
    }

    /// Whether characters appear rather than go.
    pub fn is_entrance(&self) -> (out: bool)
        ensures
            out == is_entrance_mode(*self),
    {
        match self {
            ScetweenMode::In
            | ScetweenMode::Show
            | ScetweenMode::BacklogDownIn
            | ScetweenMode::BacklogUpIn => true,
            _ => false,
        }
    }
}

/// How a setting is taken.
#[derive(Clone, Copy, Debug, PartialEq, Eq, Structural)]
pub enum ScetweenSetMode {
    /// In place of those of the same mode.
    Init,
    /// Beside the others.
    Add,
}

/// When the characters of a text move. What moves, and how far, is known to
/// whoever draws them.
#[derive(Clone, Copy, Debug, PartialEq, Eq, Structural)]
pub struct ScetweenConfig {
    pub mode: ScetweenMode,
    pub set_mode: ScetweenSetMode,
    /// How long each character waits for the one before it.
    pub delay_per_char: u64,
    /// How long one character moves.
    pub time_per_char: u64,
    /// Whether the characters come in a random order.
    pub random_delay: bool,
}

impl Default for ScetweenConfig {
    fn default() -> (out: Self)
        ensures
            out == (ScetweenConfig {
                mode: ScetweenMode::In,
                set_mode: ScetweenSetMode::Init,
                delay_per_char: 0,
                time_per_char: 0,
                random_delay: false,
            }),
    {
        ScetweenConfig {
            mode: ScetweenMode::In,
            set_mode: ScetweenSetMode::Init,
            delay_per_char: 0,
            time_per_char: 0,
            random_delay: false,
        }
    }
}

/// Where the lines of a text stand.
#[derive(Clone, Copy, Debug, PartialEq, Eq, Structural)]
pub enum TextAlignment {
    Left,
    Center,
    Right,
    /// Both margins, with the room between the characters shared out.
    Equalize,
}

/// The alignment that a trimmed name stands for.
pub open spec fn alignment_named(name: Seq<char>) -> TextAlignment {
    if name == "center"@ || name == "centre"@ {
        TextAlignment::Center
    } else if name == "right"@ {
        TextAlignment::Right
    } else if name == "equalize"@ || name == "justify"@ {
        TextAlignment::Equalize
    } else {
        TextAlignment::Left
    }
}

impl Default for TextAlignment {
    fn default() -> (out: Self)
        ensures
            out == TextAlignment::Left,
    {
        TextAlignment::Left
    }
}

impl TextAlignment {
    /// The alignment of a name; an unknown one means the left margin.
    pub fn named(s: &str) -> (out: Self)
        ensures
            out == alignment_named(trim(s@)),
    {
        let text = trimmed(s);
        let name = text.as_str();
        if same_text(name, "center") || same_text(name, "centre") {
            TextAlignment::Center
        } else if same_text(name, "right") {
            TextAlignment::Right
        } else if same_text(name, "equalize") || same_text(name, "justify") {
            TextAlignment::Equalize
        } else {
            TextAlignment::Left
        }
    }
}

// ── Where a character is on its way ────────────────────────────

/// Where a character is on its way.
#[derive(Clone, Copy, Debug, PartialEq, Eq, Structural)]
pub enum CharPhase {
    /// The setting does not move the text now.
    Unmoved,
    /// The character has not set out.
    Start,
    /// The character is on its way for this long.
    Moving { elapsed: u64 },
    /// The character has arrived.
    End,
}

/// Where a character is on its way. A text that is there is moved by settings
/// under which text appears, a hidden one by those under which it goes.
pub open spec fn phase_of(c: ScetweenConfig, index: int, clock_ms: int, hidden: bool) -> CharPhase {
    let start = index * c.delay_per_char;
    if is_entrance_mode(c.mode) == hidden {
        CharPhase::Unmoved
    } else if clock_ms < start {
        CharPhase::Start
    } else if clock_ms - start >= c.time_per_char {
        CharPhase::End
    } else {
        CharPhase::Moving { elapsed: (clock_ms - start) as u64 }
    }
}

/// Finds where a character is on its way.
pub fn char_phase(config: &ScetweenConfig, index: usize, clock_ms: u64, hidden: bool) -> (out:
    CharPhase)
    ensures
        out == phase_of(*config, index as int, clock_ms as int, hidden),
{
    if config.mode.is_entrance() == hidden {
        return CharPhase::Unmoved;
    }
    let start: u64 = match (index as u64).checked_mul(config.delay_per_char) {
        Some(start) => start,
        None => return CharPhase::Start,
    };
    if clock_ms < start {
        return CharPhase::Start;
    }
    let elapsed: u64 = clock_ms - start;
    if elapsed >= config.time_per_char {
        CharPhase::End
    } else {
        CharPhase::Moving { elapsed }
    }
}

/// How far a phase is along.
pub open spec fn phase_rank(phase: CharPhase) -> int {
    match phase {
        CharPhase::Unmoved => 0,
        CharPhase::Start => 0,
        CharPhase::Moving { .. } => 1,
        CharPhase::End => 2,
    }
}

/// As time passes no character goes back, and none sets out before one that
/// stands earlier in the text.
pub proof fn law_characters_move_in_order(
    c: ScetweenConfig,
    first: int,
    second: int,
    early_ms: int,
    late_ms: int,
    hidden: bool,
)
    requires
        0 <= first <= second,
        early_ms <= late_ms,
    ensures
        phase_rank(phase_of(c, first, early_ms, hidden)) <= phase_rank(
            phase_of(c, first, late_ms, hidden),
        ),
        phase_rank(phase_of(c, second, early_ms, hidden)) <= phase_rank(
            phase_of(c, first, early_ms, hidden),
        ),
{
    let delay = c.delay_per_char as int;
    assert(first * delay <= second * delay) by (nonlinear_arith)
        requires
            0 <= first <= second,
            0 <= delay,
    ;
}

/// The modes of text have their names, and any other name means that text
/// appears. Half of them are for text that appears.
pub proof fn law_modes_have_names(name: Seq<char>)
    ensures
        mode_named("in"@) is In,
        mode_named("out"@) is Out,
        mode_named("show"@) is Show,
        mode_named("hide"@) is Hide,
        mode_named("backlog_down_in"@) is BacklogDownIn,
        mode_named("backlog_down_out"@) is BacklogDownOut,
        mode_named("backlog_up_in"@) is BacklogUpIn,
        mode_named("backlog_up_out"@) is BacklogUpOut,
        name != "out"@ && name != "show"@ && name != "hide"@ && name != "backlog_down_in"@ && name
            != "backlog_down_out"@ && name != "backlog_up_in"@ && name != "backlog_up_out"@
            ==> mode_named(name) is In,
        is_entrance_mode(mode_named("in"@)) && is_entrance_mode(mode_named("show"@)),
        is_entrance_mode(mode_named("backlog_down_in"@)) && is_entrance_mode(
            mode_named("backlog_up_in"@),
        ),
        !is_entrance_mode(mode_named("out"@)) && !is_entrance_mode(mode_named("hide"@)),
        !is_entrance_mode(mode_named("backlog_down_out"@)) && !is_entrance_mode(
            mode_named("backlog_up_out"@),
        ),
{
    reveal_strlit("in");
    reveal_strlit("out");
    reveal_strlit("show");
    reveal_strlit("hide");
    reveal_strlit("backlog_down_in");
    reveal_strlit("backlog_down_out");
    reveal_strlit("backlog_up_in");
    reveal_strlit("backlog_up_out");
    assert("show"@[0] == 's' && "hide"@[0] == 'h');
    assert("in"@.len() == 2 && "out"@.len() == 3 && "show"@.len() == 4 && "hide"@.len() == 4);
    assert("backlog_down_in"@.len() == 15 && "backlog_down_out"@.len() == 16);
    assert("backlog_up_in"@.len() == 13 && "backlog_up_out"@.len() == 14);
}

/// Lines are aligned by their names, in both spellings of the middle and of both
/// margins; any other name means the left.
pub proof fn law_alignments_have_names(name: Seq<char>)
    ensures
        alignment_named(name) is Center <==> name == "center"@ || name == "centre"@,
        alignment_named(name) is Right <==> name == "right"@,
        alignment_named(name) is Equalize <==> name == "equalize"@ || name == "justify"@,
{
    reveal_strlit("center");
    reveal_strlit("centre");
    reveal_strlit("right");
    reveal_strlit("equalize");
    reveal_strlit("justify");
    assert("center"@.len() == 6 && "centre"@.len() == 6 && "right"@.len() == 5);
    assert("equalize"@.len() == 8 && "justify"@.len() == 7);
}

/// A character sets out when one delay has passed for each character before it and
/// arrives when its own time has passed. It moves only while the text goes the way
/// that the setting is for.
pub proof fn law_characters_set_out_in_turn(
    c: ScetweenConfig,
    index: int,
    clock_ms: int,
    hidden: bool,
)
    requires
        0 <= index,
        0 <= clock_ms <= u64::MAX,
    ensures
        ({
            let phase = phase_of(c, index, clock_ms, hidden);
            let start = index * c.delay_per_char;
            &&& phase is Unmoved <==> is_entrance_mode(c.mode) == hidden
            &&& is_entrance_mode(c.mode) != hidden ==> {
                &&& phase is Start <==> clock_ms < start
                &&& phase is End <==> clock_ms >= start + c.time_per_char
                &&& phase matches CharPhase::Moving { elapsed } ==> elapsed == clock_ms - start
                    && elapsed < c.time_per_char
            }
        }),
        phase_rank(CharPhase::Start) < phase_rank(CharPhase::Moving { elapsed: 0 }),
        phase_rank(CharPhase::Moving { elapsed: 0 }) < phase_rank(CharPhase::End),
{
    let start = index * c.delay_per_char;
    assert(start >= 0) by (nonlinear_arith)
        requires
            index >= 0,
            start == index * c.delay_per_char,
    ;
}

} // verus!
