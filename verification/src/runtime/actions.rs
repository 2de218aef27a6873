//! What the rules of the engine leave to do outside of them.
use crate::strs::opt_text;
use vstd::prelude::*;

verus! {

/// What is left to do outside of the control state.
pub enum ControlAction {
    /// Tell the audio whether skipping is on.
    SetSkipping(bool),
    /// Show the modes to the script.
    SyncStatus { commandskip: bool, automode: bool, controlskip: bool },
    /// Show the whole text of the page now.
    RevealText,
    /// Run the script's handler of a control event.
    ControlHandler(String),
    /// Run the script's handler of an input event.
    ExecInput { event: String, key: String },
    LayerVisible { id: String, visible: bool },
    SyncLayerInfo,
    /// Call a script, or jump to a label of it.
    RunScript { file: String, label: Option<String>, call: bool },
    /// Send a command to the host's user interface.
    UiCommand { kind: String, payload: String },
    /// Silence the audio, or bring it back.
    MuteAudio(bool),
    /// Show the script whether the line was read before.
    AlreadyRead(bool),
}

/// What an action holds.
pub enum ActionRecord {
    SetSkipping(bool),
    SyncStatus { commandskip: bool, automode: bool, controlskip: bool },
    RevealText,
    ControlHandler(Seq<char>),
    ExecInput { event: Seq<char>, key: Seq<char> },
    LayerVisible { id: Seq<char>, visible: bool },
    SyncLayerInfo,
    RunScript { file: Seq<char>, label: Option<Seq<char>>, call: bool },
    UiCommand { kind: Seq<char>, payload: Seq<char> },
    MuteAudio(bool),
    AlreadyRead(bool),
}

impl View for ControlAction {
    type V = ActionRecord;

    open spec fn view(&self) -> ActionRecord {
        match self {
            ControlAction::SetSkipping(on) => ActionRecord::SetSkipping(*on),
            ControlAction::SyncStatus { commandskip, automode, controlskip } =>
                ActionRecord::SyncStatus {
                commandskip: *commandskip,
                automode: *automode,
                controlskip: *controlskip,
            },
            ControlAction::RevealText => ActionRecord::RevealText,
            ControlAction::ControlHandler(name) => ActionRecord::ControlHandler(name@),
            ControlAction::ExecInput { event, key } => ActionRecord::ExecInput {
                event: event@,
                key: key@,
            },
            ControlAction::LayerVisible { id, visible } => ActionRecord::LayerVisible {
                id: id@,
                visible: *visible,
            },
            ControlAction::SyncLayerInfo => ActionRecord::SyncLayerInfo,
            ControlAction::RunScript { file, label, call } => ActionRecord::RunScript {
                file: file@,
                label: opt_text(*label),
                call: *call,
            },
            ControlAction::UiCommand { kind, payload } => ActionRecord::UiCommand {
                kind: kind@,
                payload: payload@,
            },
            ControlAction::MuteAudio(on) => ActionRecord::MuteAudio(*on),
            ControlAction::AlreadyRead(read) => ActionRecord::AlreadyRead(*read),
        }
    }
}

/// The records of a list of actions.
#[verifier::opaque]
pub open spec fn records(actions: Seq<ControlAction>) -> Seq<ActionRecord> {
    Seq::new(actions.len(), |i: int| actions[i]@)
}

/// More actions were noted behind the earlier ones.
pub open spec fn noted(
    before: Seq<ControlAction>,
    after: Seq<ControlAction>,
    more: Seq<ActionRecord>,
) -> bool {
    records(after) == records(before) + more
}

/// One more action was noted.
pub open spec fn noted_one(
    before: Seq<ControlAction>,
    after: Seq<ControlAction>,
    action: ActionRecord,
) -> bool {
    records(after) == records(before).push(action)
}

/// Notes an action.
pub fn note(actions: &mut Vec<ControlAction>, action: ControlAction)
    ensures
        noted_one(old(actions)@, final(actions)@, action@),
{
    reveal(records);
    actions.push(action);
    assert(records(actions@) =~= records(old(actions)@).push(action@));
}

pub proof fn lemma_pushed0(s: Seq<ActionRecord>)
    ensures
        s + Seq::<ActionRecord>::empty() == s,
{
    assert(s + Seq::<ActionRecord>::empty() =~= s);
}

pub proof fn lemma_pushed1(s: Seq<ActionRecord>, a: ActionRecord)
    ensures
        s.push(a) == s + seq![a],
{
    assert(s.push(a) =~= s + seq![a]);
}

pub proof fn lemma_pushed2(s: Seq<ActionRecord>, a: ActionRecord, b: ActionRecord)
    ensures
        s.push(a).push(b) == s + seq![a, b],
{
    assert(s.push(a).push(b) =~= s + seq![a, b]);
}

pub proof fn lemma_pushed3(s: Seq<ActionRecord>, a: ActionRecord, b: ActionRecord, c: ActionRecord)
    ensures
        s.push(a).push(b).push(c) == s + seq![a, b, c],
{
    assert(s.push(a).push(b).push(c) =~= s + seq![a, b, c]);
}

pub proof fn lemma_pushed4(
    s: Seq<ActionRecord>,
    a: ActionRecord,
    b: ActionRecord,
    c: ActionRecord,
    d: ActionRecord,
)
    ensures
        s.push(a).push(b).push(c).push(d) == s + seq![a, b, c, d],
{
    assert(s.push(a).push(b).push(c).push(d) =~= s + seq![a, b, c, d]);
}

pub proof fn lemma_joined(s: Seq<ActionRecord>, a: Seq<ActionRecord>, b: Seq<ActionRecord>)
    ensures
        (s + a) + b == s + (a + b),
{
    assert((s + a) + b =~= s + (a + b));
}

/// What is noted comes behind what was noted before, in its own order, and leaves
/// that as it was.
pub proof fn law_noted_actions_come_last(
    before: Seq<ControlAction>,
    after: Seq<ControlAction>,
    more: Seq<ActionRecord>,
)
    requires
        noted(before, after, more),
    ensures
        after.len() == before.len() + more.len(),
        forall|i: int| 0 <= i < before.len() ==> (#[trigger] after[i])@ == before[i]@,
        forall|i: int|
            0 <= i < more.len() ==> (#[trigger] after[before.len() + i])@ == more[i],
{
    reveal(records);
    let all = records(after);
    let first = records(before);
    assert(all == first + more);
    assert(all.len() == after.len());
    assert forall|i: int| 0 <= i < before.len() implies (#[trigger] after[i])@ == before[i]@ by {
        assert(all[i] == after[i]@);
        assert(all[i] == first[i]);
    }
    assert forall|i: int| 0 <= i < more.len() implies (#[trigger] after[before.len() + i])@
        == more[i] by {
        assert(all[before.len() + i] == after[before.len() + i]@);
        assert(all[before.len() + i] == more[i]);
    }
}

/// An action holds what it was made of.
pub proof fn law_actions_hold_their_parts(action: ControlAction)
    ensures
        action matches ControlAction::SetSkipping(on) ==> action@ == ActionRecord::SetSkipping(on),
        action matches ControlAction::MuteAudio(on) ==> action@ == ActionRecord::MuteAudio(on),
        action matches ControlAction::AlreadyRead(on) ==> action@ == ActionRecord::AlreadyRead(on),
        action is RevealText ==> action@ is RevealText,
        action is SyncLayerInfo ==> action@ is SyncLayerInfo,
        action matches ControlAction::ControlHandler(name) ==> action@
            == ActionRecord::ControlHandler(name@),
        action matches ControlAction::LayerVisible { id, visible } ==> action@ == (
        ActionRecord::LayerVisible { id: id@, visible }),
        action matches ControlAction::ExecInput { event, key } ==> action@ == (
        ActionRecord::ExecInput { event: event@, key: key@ }),
        action matches ControlAction::UiCommand { kind, payload } ==> action@ == (
        ActionRecord::UiCommand { kind: kind@, payload: payload@ }),
        action matches ControlAction::RunScript { file, label, call } ==> action@ == (
        ActionRecord::RunScript { file: file@, label: opt_text(label), call }),
{
}

} // verus!
