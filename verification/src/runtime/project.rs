//! What loading a project decides.
use crate::strs::{
    chars_of, concat, copy_text, has_prefix, lines, split_lines, starts_with, string_of_range, texts, trim,
    trimmed,
};
use vstd::prelude::*;

verus! {

/// An event that may hold the script until the host answers.
pub enum PauseEvent {
    Wait,
    YesNo,
    ShowDialog,
    VideoPlay { id: Option<String> },
    Trans { trans_type: i32 },
    Other,
}

/// Whether the script is held until the host answers. A video on a layer is
/// only seen; a video of the whole screen holds the script.
pub fn event_requires_host_pause(event: &PauseEvent) -> (out: bool)
    ensures
        out == (match *event {
            PauseEvent::Wait | PauseEvent::YesNo | PauseEvent::ShowDialog => true,
            PauseEvent::VideoPlay { id } => id is None,
            PauseEvent::Trans { trans_type } => trans_type != 0,
            PauseEvent::Other => false,
        }),
{
    match event {
        PauseEvent::Wait | PauseEvent::YesNo | PauseEvent::ShowDialog => true,
        PauseEvent::VideoPlay { id } => id.is_none(),
        PauseEvent::Trans { trans_type } => *trans_type != 0,
        PauseEvent::Other => false,
    }
}

/// The first line that gives a title.
pub open spec fn title_line(all: Seq<Seq<char>>) -> Option<Seq<char>>
    decreases all.len(),
{
    if all.len() == 0 {
        None
    } else if has_prefix(all[0], "TITLE="@) {
        Some(all[0])
    } else {
        title_line(all.skip(1))
    }
}

/// The title of a project; empty where none is given.
pub open spec fn title_of(ini: Seq<char>) -> Seq<char> {
    match title_line(lines(ini)) {
        Some(line) => trim(line.skip("TITLE="@.len() as int)),
        None => Seq::empty(),
    }
}

/// Finds the title of a project.
pub fn project_title(ini: &str) -> (out: String)
    ensures
        out@ == title_of(ini@),
{
    let all = split_lines(ini);
    let ghost parts = texts(all@);
    let mut i: usize = 0;
    assert(parts.skip(0) =~= parts);
    while i < all.len()
        invariant
            i <= all.len(),
            parts == texts(all@),
            parts == lines(ini@),
            title_line(parts) == title_line(parts.skip(i as int)),
        decreases all.len() - i,
    {
        let line = all[i].as_str();
        proof {
            assert(parts.skip(i as int)[0] == line@);
            assert(parts.skip(i as int).skip(1) =~= parts.skip(i + 1));
        }
        if starts_with(line, "TITLE=") {
            let chars = chars_of(line);
            proof {
                reveal_strlit("TITLE=");
            }
            let rest = string_of_range(&chars, 6, chars.len());
            assert(rest@ =~= line@.skip(6));
            return trimmed(rest.as_str());
        }
        i += 1;
    }
    let none = String::new();
    assert(none@ =~= Seq::empty());
    none
}

/// The files that may hold a texture: with the ending of pictures first.
/// `resolved` is the path that the texture's name resolves to.
pub fn texture_paths(resolved: &str) -> (out: Vec<String>)
    ensures
        texts(out@) == seq![resolved@ + ".png"@, resolved@],
{
    let mut out: Vec<String> = Vec::new();
    out.push(concat(resolved, ".png"));
    out.push(copy_text(resolved));
    assert(texts(out@) =~= seq![resolved@ + ".png"@, resolved@]);
    out
}

/// The title is what follows `TITLE=` on the first line that begins so, trimmed; no
/// such line, no title.
pub proof fn law_titles_follow_their_mark(all: Seq<Seq<char>>, i: int)
    ensures
        0 <= i < all.len() && has_prefix(all[i], "TITLE="@) && (forall|j: int|
            0 <= j < i ==> !has_prefix(#[trigger] all[j], "TITLE="@)) ==> title_line(all) == Some(
            all[i],
        ),
        (forall|j: int| 0 <= j < all.len() ==> !has_prefix(#[trigger] all[j], "TITLE="@))
            ==> title_line(all) is None,
    decreases all.len(),
{
    if all.len() > 0 && !has_prefix(all[0], "TITLE="@) {
        let rest = all.skip(1);
        assert forall|j: int| 0 <= j < rest.len() implies #[trigger] rest[j] == all[j + 1] by {}
        law_titles_follow_their_mark(rest, i - 1);
    }
}

/// The title of a game is the text behind the mark, without white space around it.
pub proof fn law_titles_are_trimmed(ini: Seq<char>, title: Seq<char>)
    ensures
        title_line(lines(ini)) == Some("TITLE="@ + title) ==> title_of(ini) == trim(title),
        title_line(lines(ini)) is None ==> title_of(ini).len() == 0,
{
    assert(("TITLE="@ + title).skip("TITLE="@.len() as int) =~= title);
}

} // verus!
