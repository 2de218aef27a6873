//! What is done, and in what order, to save a game and to load one.
use crate::paths::{clean_part, lemma_clean_of_joined, PartRule};
use crate::runtime::save_io::{
    qualified, qualify_save_path, scope_file, scope_path, scope_prefix, scope_variable, SaveScope,
};
use crate::strs::{concat, copy_text, join, trim};
use vstd::prelude::*;

verus! {

// ── Saving ─────────────────────────────────────────────────────

/// What is done to save a game. The first step that fails is the last.
pub enum SaveStep {
    /// Scripts put their state into variables.
    FireSaveHandler,
    /// The tags that they queued for that run.
    FlushTags,
    /// Variables, scene and sound are written.
    WriteGame { path: String },
    /// What is kept between games is written.
    WriteScope { scope: SaveScope, path: String },
    /// Saving fails, and this is said.
    Fail { message: String },
}

/// What a step holds.
pub enum SaveRecord {
    FireSaveHandler,
    FlushTags,
    WriteGame { path: Seq<char> },
    WriteScope { scope: SaveScope, path: Seq<char> },
    Fail { message: Seq<char> },
}

impl View for SaveStep {
    type V = SaveRecord;

    open spec fn view(&self) -> SaveRecord {
        match self {
            SaveStep::FireSaveHandler => SaveRecord::FireSaveHandler,
            SaveStep::FlushTags => SaveRecord::FlushTags,
            SaveStep::WriteGame { path } => SaveRecord::WriteGame { path: path@ },
            SaveStep::WriteScope { scope, path } => SaveRecord::WriteScope {
                scope: *scope,
                path: path@,
            },
            SaveStep::Fail { message } => SaveRecord::Fail { message: message@ },
        }
    }
}

/// Steps, by what they hold.
pub open spec fn save_records(steps: Seq<SaveStep>) -> Seq<SaveRecord> {
    Seq::new(steps.len(), |i: int| steps[i]@)
}

/// The step that writes a scope.
pub open spec fn scope_step(scope: SaveScope, savepath: Seq<char>) -> SaveRecord {
    match qualified(scope_file(scope), savepath) {
        Some(path) => SaveRecord::WriteScope { scope, path },
        None => SaveRecord::Fail { message: "非法存档路径: "@ + scope_file(scope) },
    }
}

/// The steps that write what is kept between games.
pub open spec fn system_steps(savepath: Seq<char>) -> Seq<SaveRecord> {
    seq![scope_step(SaveScope::Global, savepath), scope_step(SaveScope::System, savepath)]
}

/// The steps that save a game: what is kept between games is written with it, so
/// that the list of saves is right after a restart.
pub open spec fn game_steps(file: Seq<char>, savepath: Seq<char>) -> Seq<SaveRecord> {
    let first = seq![SaveRecord::FireSaveHandler, SaveRecord::FlushTags];
    match qualified(file, savepath) {
        Some(path) => first + seq![SaveRecord::WriteGame { path }] + system_steps(savepath),
        None => first + seq![SaveRecord::Fail { message: "非法存档路径: "@ + file }],
    }
}

fn write_scope(scope: SaveScope, savepath: &str) -> (out: SaveStep)
    ensures
        out@ == scope_step(scope, savepath@),
{
    match scope_path(scope, savepath) {
        Ok(path) => SaveStep::WriteScope { scope, path },
        Err(message) => SaveStep::Fail { message },
    }
}

/// Plans how what is kept between games is written.
pub fn syssave(savepath: &str) -> (out: Vec<SaveStep>)
    ensures
        save_records(out@) == system_steps(savepath@),
{
    let mut out: Vec<SaveStep> = Vec::new();
    out.push(write_scope(SaveScope::Global, savepath));
    out.push(write_scope(SaveScope::System, savepath));
    assert(save_records(out@) =~= system_steps(savepath@));
    out
}

/// Plans how a game is saved.
pub fn handle_save_game(file: &str, savepath: &str) -> (out: Vec<SaveStep>)
    ensures
        save_records(out@) == game_steps(file@, savepath@),
{
    let mut out: Vec<SaveStep> = Vec::new();
    out.push(SaveStep::FireSaveHandler);
    out.push(SaveStep::FlushTags);
    match qualify_save_path(file, savepath) {
        Ok(path) => {
            out.push(SaveStep::WriteGame { path });
            out.push(write_scope(SaveScope::Global, savepath));
            out.push(write_scope(SaveScope::System, savepath));
        },
        Err(message) => {
            out.push(SaveStep::Fail { message });
        },
    }
    assert(save_records(out@) =~= game_steps(file@, savepath@));
    out
}

/// What is said when a step of saving a game failed with an error.
pub open spec fn save_fault(step: SaveRecord, error: Seq<char>) -> Seq<char> {
    match step {
        SaveRecord::FireSaveHandler => "onSave 处理器失败: "@ + error,
        SaveRecord::FlushTags => "抽干存档标签失败: "@ + error,
        SaveRecord::WriteGame { .. } => error,
        SaveRecord::WriteScope { .. } => "同步系统存档失败: "@ + error,
        SaveRecord::Fail { message } => message,
    }
}

/// Tells how a step of saving a game failed.
pub fn save_failure(step: &SaveStep, error: &str) -> (out: String)
    ensures
        out@ == save_fault(step@, error@),
{
    match step {
        SaveStep::FireSaveHandler => concat("onSave 处理器失败: ", error),
        SaveStep::FlushTags => concat("抽干存档标签失败: ", error),
        SaveStep::WriteGame { .. } => copy_text(error),
        SaveStep::WriteScope { .. } => concat("同步系统存档失败: ", error),
        SaveStep::Fail { message } => copy_text(message.as_str()),
    }
}

/// What is kept between games always has a path to be written to.
pub proof fn law_scopes_have_paths(scope: SaveScope, savepath: Seq<char>)
    ensures
        qualified(scope_file(scope), savepath) is Some,
        scope_step(scope, savepath) is WriteScope,
{
    let name = scope_file(scope);
    reveal_strlit("saveg.dat");
    reveal_strlit("system.dat");
    reveal_strlit(".");
    reveal_strlit("..");
    assert("."@.len() == 1);
    assert(".."@.len() == 2);
    reveal_with_fuel(crate::strs::trim_start, 2);
    reveal_with_fuel(crate::strs::trim_end, 2);
    assert(trim(name) == name);
    assert(clean_part(PartRule::Strict, name));
    lemma_clean_of_joined(PartRule::Strict, seq![name]);
    reveal_with_fuel(join, 2);
    assert(join(seq![name], '/') =~= name);
}

/// A game that is saved is saved together with what is kept between games, and
/// only after scripts put their state into variables.
pub proof fn law_saves_are_complete(file: Seq<char>, savepath: Seq<char>)
    requires
        qualified(file, savepath) is Some,
    ensures
        game_steps(file, savepath).len() == 5,
        game_steps(file, savepath)[0] is FireSaveHandler,
        game_steps(file, savepath)[1] is FlushTags,
        game_steps(file, savepath)[2] is WriteGame,
        game_steps(file, savepath)[3] is WriteScope,
        game_steps(file, savepath)[4] is WriteScope,
{
    law_scopes_have_paths(SaveScope::Global, savepath);
    law_scopes_have_paths(SaveScope::System, savepath);
}

// ── Reading back what is kept between games ────────────────────

/// The variables that kept entries are read back into, with their values.
pub open spec fn variables_of<V>(scope: SaveScope, entries: Seq<(String, V)>) -> Seq<
    (Seq<char>, V),
> {
    Seq::new(entries.len(), |i: int| (scope_prefix(scope) + entries[i].0@, entries[i].1))
}

/// Variables with their values, by their names.
pub open spec fn named<V>(variables: Seq<(String, V)>) -> Seq<(Seq<char>, V)> {
    Seq::new(variables.len(), |i: int| (variables[i].0@, variables[i].1))
}

/// Names the variables that the kept entries of a scope are read back into.
pub fn sysload<V>(scope: SaveScope, mut entries: Vec<(String, V)>) -> (out: Vec<(String, V)>)
    ensures
        named(out@) == variables_of(scope, entries@),
{
    let ghost all = entries@;
    let mut out: Vec<(String, V)> = Vec::new();
    let mut i: usize = 0;
    let count: usize = entries.len();
    while i < count
        invariant
            i <= count,
            count == all.len(),
            entries@ == all.skip(i as int),
            out@.len() == i,
            named(out@) == variables_of(scope, all.take(i as int)),
        decreases count - i,
    {
        let (key, value) = entries.remove(0);
        assert((key, value) == all[i as int]);
        let name = scope_variable(scope, key.as_str());
        let ghost before = named(out@);
        let ghost written = out@;
        let ghost read = variables_of(scope, all.take(i as int));
        out.push((name, value));
        i += 1;
        proof {
            let now = named(out@);
            let wanted = variables_of(scope, all.take(i as int));
            assert(entries@ =~= all.skip(i as int));
            assert forall|j: int| 0 <= j < now.len() implies now[j] == wanted[j] by {
                if j < i - 1 {
                    assert(out@[j] == written[j]);
                    assert(now[j] == before[j]);
                    assert(wanted[j] == read[j]);
                }
            }
            assert(now =~= wanted);
        }
    }
    assert(all.take(i as int) =~= all);
    out
}

// ── Loading ────────────────────────────────────────────────────

/// What is done to load a game that was read. The first step that fails is the
/// last.
#[derive(Clone, Copy, Debug, PartialEq, Eq, Structural)]
pub enum LoadStep {
    ResetScene,
    StopMedia,
    /// No layer is under the pointer.
    ClearHovered,
    RestoreScene,
    /// Variables, place and call stack come back.
    RestoreState,
    /// Scripts take their state out of variables.
    FireLoadHandler,
    /// The tags that they queued for that run.
    FlushTags,
    ApplyVolumes,
    RestoreAudio,
    /// The script goes on.
    ClearWait,
}

/// The steps that load a game. Older games hold no scene or no sound.
pub open spec fn load_steps(has_scene: bool, has_audio: bool) -> Seq<LoadStep> {
    seq![LoadStep::ResetScene, LoadStep::StopMedia, LoadStep::ClearHovered] + (if has_scene {
        seq![LoadStep::RestoreScene]
    } else {
        Seq::empty()
    }) + seq![
        LoadStep::RestoreState,
        LoadStep::FireLoadHandler,
        LoadStep::FlushTags,
        LoadStep::ApplyVolumes,
    ] + (if has_audio {
        seq![LoadStep::RestoreAudio]
    } else {
        Seq::empty()
    }) + seq![LoadStep::ClearWait]
}

/// Plans how a game that was read is loaded.
pub fn handle_load_game(has_scene: bool, has_audio: bool) -> (out: Vec<LoadStep>)
    ensures
        out@ == load_steps(has_scene, has_audio),
{
    let mut out: Vec<LoadStep> = Vec::new();
    out.push(LoadStep::ResetScene);
    out.push(LoadStep::StopMedia);
    out.push(LoadStep::ClearHovered);
    if has_scene {
        out.push(LoadStep::RestoreScene);
    }
    out.push(LoadStep::RestoreState);
    out.push(LoadStep::FireLoadHandler);
    out.push(LoadStep::FlushTags);
    out.push(LoadStep::ApplyVolumes);
    if has_audio {
        out.push(LoadStep::RestoreAudio);
    }
    out.push(LoadStep::ClearWait);
    assert(out@ =~= load_steps(has_scene, has_audio));
    out
}

/// What is said when a step of loading a game failed with an error.
pub open spec fn load_fault(step: LoadStep, error: Seq<char>) -> Seq<char> {
    match step {
        LoadStep::RestoreState => "恢复存档状态失败: "@ + error,
        LoadStep::FireLoadHandler => "onLoad 处理器失败: "@ + error,
        LoadStep::FlushTags => "抽干读档标签失败: "@ + error,
        _ => error,
    }
}

/// Tells how a step of loading a game failed.
pub fn load_failure(step: LoadStep, error: &str) -> (out: String)
    ensures
        out@ == load_fault(step, error@),
{
    match step {
        LoadStep::RestoreState => concat("恢复存档状态失败: ", error),
        LoadStep::FireLoadHandler => concat("onLoad 处理器失败: ", error),
        LoadStep::FlushTags => concat("抽干读档标签失败: ", error),
        _ => copy_text(error),
    }
}

/// The script goes on only after everything else of a load succeeded, and sound
/// comes back only after what played was stopped and volumes are set.
pub proof fn law_loads_end_the_wait_last(has_scene: bool, has_audio: bool, i: int)
    requires
        0 <= i < load_steps(has_scene, has_audio).len(),
    ensures
        load_steps(has_scene, has_audio)[i] == LoadStep::ClearWait <==> i == load_steps(
            has_scene,
            has_audio,
        ).len() - 1,
        load_steps(has_scene, has_audio)[i] == LoadStep::StopMedia ==> i == 1,
        load_steps(has_scene, has_audio)[i] == LoadStep::RestoreAudio ==> i > 1
            && load_steps(has_scene, has_audio)[i - 1] == LoadStep::ApplyVolumes,
{
}

/// A game is saved in its file below the path, and then what is kept between games,
/// the global part first. A file that is refused is told before anything is
/// written, but after scripts put their state away.
pub proof fn law_games_are_saved_to_their_files(file: Seq<char>, savepath: Seq<char>)
    ensures
        ({
            let steps = game_steps(file, savepath);
            &&& steps[0] is FireSaveHandler && steps[1] is FlushTags
            &&& qualified(file, savepath) matches Some(path) ==> {
                &&& steps[2] == (SaveRecord::WriteGame { path })
                &&& steps[3] == system_steps(savepath)[0] && steps[4] == system_steps(savepath)[1]
            }
            &&& qualified(file, savepath) is None ==> steps.len() == 3 && steps[2] == (
            SaveRecord::Fail { message: "非法存档路径: "@ + file })
        }),
        system_steps(savepath).len() == 2,
        qualified("saveg.dat"@, savepath) matches Some(path) ==> system_steps(savepath)[0] == (
        SaveRecord::WriteScope { scope: SaveScope::Global, path }),
        qualified("system.dat"@, savepath) matches Some(path) ==> system_steps(savepath)[1] == (
        SaveRecord::WriteScope { scope: SaveScope::System, path }),
{
}

/// What went wrong is told with the step that it went wrong in.
pub proof fn law_faults_name_their_step(
    error: Seq<char>,
    path: Seq<char>,
    scope: SaveScope,
    step: LoadStep,
)
    ensures
        save_fault(SaveRecord::FireSaveHandler, error) == "onSave 处理器失败: "@ + error,
        save_fault(SaveRecord::FlushTags, error) == "抽干存档标签失败: "@ + error,
        save_fault(SaveRecord::WriteGame { path }, error) == error,
        save_fault(SaveRecord::WriteScope { scope, path }, error) == "同步系统存档失败: "@
            + error,
        save_fault(SaveRecord::Fail { message: path }, error) == path,
        load_fault(LoadStep::RestoreState, error) == "恢复存档状态失败: "@ + error,
        load_fault(LoadStep::FireLoadHandler, error) == "onLoad 处理器失败: "@ + error,
        load_fault(LoadStep::FlushTags, error) == "抽干读档标签失败: "@ + error,
        !(step is RestoreState) && !(step is FireLoadHandler) && !(step is FlushTags)
            ==> load_fault(step, error) == error,
{
}

/// The variables of a scope are its entries in their order, each under its name
/// behind the prefix of the scope, with its value.
pub proof fn law_variables_have_the_prefix_of_their_scope<V>(
    entries: Seq<(String, V)>,
    i: int,
)
    ensures
        variables_of(SaveScope::Global, entries).len() == entries.len(),
        variables_of(SaveScope::System, entries).len() == entries.len(),
        0 <= i < entries.len() ==> variables_of(SaveScope::Global, entries)[i] == (
            "g."@ + entries[i].0@,
            entries[i].1,
        ) && variables_of(SaveScope::System, entries)[i] == (
            "s."@ + entries[i].0@,
            entries[i].1,
        ),
{
}

/// Loading empties the scene, silences the media and forgets what is under the
/// pointer; brings back the scene where one was kept; then the state, what scripts
/// do with it, the volumes, and the sound where it was kept; and then the script
/// goes on.
pub proof fn law_games_are_loaded_in_order(has_scene: bool, has_audio: bool)
    ensures
        ({
            let steps = load_steps(has_scene, has_audio);
            let s: int = if has_scene {
                1
            } else {
                0
            };
            let a: int = if has_audio {
                1
            } else {
                0
            };
            &&& steps.len() == 8 + s + a
            &&& steps[0] is ResetScene && steps[1] is StopMedia && steps[2] is ClearHovered
            &&& has_scene ==> steps[3] is RestoreScene
            &&& steps[3 + s] is RestoreState && steps[4 + s] is FireLoadHandler
            &&& steps[5 + s] is FlushTags && steps[6 + s] is ApplyVolumes
            &&& has_audio ==> steps[7 + s] is RestoreAudio
            &&& steps[7 + s + a] is ClearWait
        }),
{
}

} // verus!
