//! Where characters go: which are shown, where lines break, and how often each
//! is drawn.
use crate::strs::{contains_text, occurs, same_text};
use crate::text::layers::{LayerRecord, MessageLayer};
use vstd::prelude::*;

verus! {

/// How many characters of a layer are shown: all of them, unless they appear one
/// after the other.
pub open spec fn shown_count(l: LayerRecord) -> nat {
    if l.scetween.len() > 0 && l.progress.index < l.text.len() {
        l.progress.index as nat
    } else {
        l.text.len()
    }
}

/// Counts the characters of a layer that are shown.
pub fn visible_count(layer: &MessageLayer) -> (out: usize)
    ensures
        out == shown_count(layer@),
{
    let all: usize = layer.text_buffer.len();
    if layer.scetween.len() > 0 && layer.reveal_index < all {
        layer.reveal_index
    } else {
        all
    }
}

// ── Lines ──────────────────────────────────────────────────────

/// What is known of a character when its place is sought.
#[derive(Clone, Copy, Debug, PartialEq, Eq, Structural)]
pub struct GlyphFacts {
    /// Whether it ends its line.
    pub newline: bool,
    /// Whether it goes beyond the width of the line that it would stand in.
    pub overflows: bool,
}

/// The line that is being filled: how many lines are above it, and the first
/// character that belongs to it.
#[derive(Clone, Copy, Debug, PartialEq, Eq, Structural)]
pub struct Lines {
    pub line: usize,
    pub start: usize,
}

/// Where a character goes.
#[derive(Clone, Copy, Debug, PartialEq, Eq, Structural)]
pub enum GlyphPlace {
    /// It is not drawn; the next line begins behind it.
    LineEnd,
    /// It stands in the line that is being filled.
    SameLine,
    /// It is the first of the next line.
    NextLine,
}

/// Where a character goes. The first character of a line stays in it, however
/// wide it is.
pub open spec fn place_of(lines: Lines, index: int, glyph: GlyphFacts) -> GlyphPlace {
    if glyph.newline {
        GlyphPlace::LineEnd
    } else if glyph.overflows && index > lines.start {
        GlyphPlace::NextLine
    } else {
        GlyphPlace::SameLine
    }
}

/// The line that is being filled behind a character.
pub open spec fn lines_after(lines: Lines, index: int, glyph: GlyphFacts) -> Lines {
    match place_of(lines, index, glyph) {
        GlyphPlace::LineEnd => Lines {
            line: (lines.line + 1) as usize,
            start: (index + 1) as usize,
        },
        GlyphPlace::SameLine => lines,
        GlyphPlace::NextLine => Lines { line: (lines.line + 1) as usize, start: index as usize },
    }
}

/// The line that is being filled behind all characters of a text.
pub open spec fn lines_of(glyphs: Seq<GlyphFacts>) -> Lines
    decreases glyphs.len(),
{
    if glyphs.len() == 0 {
        Lines { line: 0, start: 0 }
    } else {
        lines_after(lines_of(glyphs.drop_last()), glyphs.len() - 1, glyphs.last())
    }
}

impl Lines {
    /// The first line, without a character.
    pub fn new() -> (out: Self)
        ensures
            out == lines_of(Seq::empty()),
    {
        Lines { line: 0, start: 0 }
    }

    /// Finds the place of the next character, which has the number `index`.
    pub fn place(&mut self, index: usize, glyph: GlyphFacts) -> (out: GlyphPlace)
        requires
            old(self).line <= index,
            index < usize::MAX,
        ensures
            out == place_of(*old(self), index as int, glyph),
            *final(self) == lines_after(*old(self), index as int, glyph),
            final(self).line <= index + 1,
    {
        if glyph.newline {
            self.line = self.line + 1;
            self.start = index + 1;
            GlyphPlace::LineEnd
        } else if glyph.overflows && index > self.start {
            self.line = self.line + 1;
            self.start = index;
            GlyphPlace::NextLine
        } else {
            GlyphPlace::SameLine
        }
    }
}

/// The line that is being filled begins within the text, or right behind it; no
/// character in it ends a line; and there are no more lines above it than
/// characters.
pub proof fn law_open_line_is_unbroken(glyphs: Seq<GlyphFacts>)
    requires
        glyphs.len() < usize::MAX,
    ensures
        lines_of(glyphs).start <= glyphs.len(),
        lines_of(glyphs).line <= glyphs.len(),
        forall|i: int|
            lines_of(glyphs).start <= i < glyphs.len() ==> !(#[trigger] glyphs[i]).newline,
    decreases glyphs.len(),
{
    if glyphs.len() > 0 {
        let before = glyphs.drop_last();
        law_open_line_is_unbroken(before);
        assert forall|i: int| lines_of(glyphs).start <= i < glyphs.len() implies !(
        #[trigger] glyphs[i]).newline by {
            if i < before.len() {
                assert(glyphs[i] == before[i]);
            }
        }
    }
}

/// A line that is broken for its width holds at least one character, and all of
/// its characters are drawn.
pub proof fn law_broken_lines_hold_text(glyphs: Seq<GlyphFacts>)
    requires
        0 < glyphs.len() < usize::MAX,
        place_of(lines_of(glyphs.drop_last()), glyphs.len() - 1, glyphs.last())
            == GlyphPlace::NextLine,
    ensures
        ({
            let left = lines_of(glyphs.drop_last()).start;
            &&& left < glyphs.len() - 1
            &&& lines_of(glyphs).start == glyphs.len() - 1
            &&& forall|i: int| left <= i < glyphs.len() - 1 ==> !(#[trigger] glyphs[i]).newline
        }),
{
    let before = glyphs.drop_last();
    law_open_line_is_unbroken(before);
    assert forall|i: int|
        lines_of(before).start <= i < glyphs.len() - 1 implies !(#[trigger] glyphs[i]).newline by {
        assert(glyphs[i] == before[i]);
    }
}

// ── Copies ─────────────────────────────────────────────────────

/// A copy of a character that is drawn.
#[derive(Clone, Copy, Debug, PartialEq, Eq, Structural)]
pub enum GlyphCopy {
    /// To the lower right, in the colour of the edge.
    Shadow,
    /// To one corner, in the colour of the edge.
    Outline { dx: i8, dy: i8 },
    /// In its place, in the colour of the text.
    Base,
}

/// The copies that a style asks for, the lowest first.
pub open spec fn copies_of(style: Seq<char>) -> Seq<GlyphCopy> {
    (if occurs(style, "shadow"@) {
        seq![GlyphCopy::Shadow]
    } else {
        Seq::empty()
    }) + (if occurs(style, "outline"@) {
        seq![
            GlyphCopy::Outline { dx: (-1) as i8, dy: (-1) as i8 },
            GlyphCopy::Outline { dx: 1, dy: (-1) as i8 },
            GlyphCopy::Outline { dx: (-1) as i8, dy: 1 },
            GlyphCopy::Outline { dx: 1, dy: 1 },
        ]
    } else {
        Seq::empty()
    }) + seq![GlyphCopy::Base]
}

/// Lists the copies that a style asks for.
pub fn glyph_copies(style: &str) -> (out: Vec<GlyphCopy>)
    ensures
        out@ == copies_of(style@),
{
    let mut out: Vec<GlyphCopy> = Vec::new();
    if contains_text(style, "shadow") {
        out.push(GlyphCopy::Shadow);
    }
    if contains_text(style, "outline") {
        out.push(GlyphCopy::Outline { dx: -1, dy: -1 });
        out.push(GlyphCopy::Outline { dx: 1, dy: -1 });
        out.push(GlyphCopy::Outline { dx: -1, dy: 1 });
        out.push(GlyphCopy::Outline { dx: 1, dy: 1 });
    }
    out.push(GlyphCopy::Base);
    assert(out@ =~= copies_of(style@));
    out
}

/// Every style draws the character itself, over all other copies.
pub proof fn law_text_is_on_top(style: Seq<char>)
    ensures
        copies_of(style).len() > 0,
        copies_of(style).last() == GlyphCopy::Base,
        forall|i: int|
            0 <= i < copies_of(style).len() - 1 ==> #[trigger] copies_of(style)[i]
                != GlyphCopy::Base,
{
}

// ── Motion ─────────────────────────────────────────────────────

/// What of a character moves while it comes or goes.
#[derive(Clone, Copy, Debug, PartialEq, Eq, Structural)]
pub enum MotionAxis {
    Left,
    Top,
    Alpha,
    XScale,
    YScale,
    Rotate,
    Nothing,
}

/// What a setting moves, by its name.
pub open spec fn axis_of(param: Option<Seq<char>>) -> MotionAxis {
    if param == Some("left"@) {
        MotionAxis::Left
    } else if param == Some("top"@) {
        MotionAxis::Top
    } else if param == Some("alpha"@) {
        MotionAxis::Alpha
    } else if param == Some("xscale"@) {
        MotionAxis::XScale
    } else if param == Some("yscale"@) {
        MotionAxis::YScale
    } else if param == Some("rotate"@) {
        MotionAxis::Rotate
    } else {
        MotionAxis::Nothing
    }
}

/// Finds what a setting moves.
pub fn motion_axis(param: Option<&str>) -> (out: MotionAxis)
    ensures
        out == axis_of(
            match param {
                Some(name) => Some(name@),
                None => None,
            },
        ),
{
    match param {
        None => MotionAxis::Nothing,
        Some(name) => {
            if same_text(name, "left") {
                MotionAxis::Left
            } else if same_text(name, "top") {
                MotionAxis::Top
            } else if same_text(name, "alpha") {
                MotionAxis::Alpha
            } else if same_text(name, "xscale") {
                MotionAxis::XScale
            } else if same_text(name, "yscale") {
                MotionAxis::YScale
            } else if same_text(name, "rotate") {
                MotionAxis::Rotate
            } else {
                MotionAxis::Nothing
            }
        },
    }
}

/// A layer shows the characters that have appeared, and all of them where no
/// tween is set.
pub proof fn law_layers_show_what_has_appeared(l: LayerRecord)
    ensures
        shown_count(l) <= l.text.len(),
        l.scetween.len() == 0 ==> shown_count(l) == l.text.len(),
        l.scetween.len() > 0 && l.progress.index <= l.text.len() ==> shown_count(l)
            == l.progress.index,
        l.progress.index >= l.text.len() ==> shown_count(l) == l.text.len(),
{
}

/// A character that ends its line is not drawn and the next line begins behind it.
/// One that goes beyond the width begins the next line, unless it is the first of
/// its line; any other stands behind the one before it.
pub proof fn law_characters_have_their_lines(
    glyphs: Seq<GlyphFacts>,
    next: GlyphFacts,
)
    requires
        glyphs.len() < usize::MAX,
        lines_of(glyphs).line < usize::MAX,
    ensures
        lines_of(Seq::empty()).line == 0 && lines_of(Seq::empty()).start == 0,
        ({
            let was = lines_of(glyphs);
            let now = lines_of(glyphs.push(next));
            let place = place_of(was, glyphs.len() as int, next);
            let first = was.start >= glyphs.len();
            &&& place is LineEnd <==> next.newline
            &&& place is NextLine <==> !next.newline && next.overflows && !first
            &&& next.newline ==> now.line == was.line + 1 && now.start == glyphs.len() + 1
            &&& place is NextLine ==> now.line == was.line + 1 && now.start == glyphs.len()
            &&& place is SameLine ==> now == was
        }),
{
    assert(glyphs.push(next).drop_last() =~= glyphs);
}

/// A shadow and an outline are drawn where the style names them: one copy for the
/// shadow, first, and one for each corner of the outline, row by row.
pub proof fn law_styles_ask_for_copies(style: Seq<char>)
    ensures
        ({
            let copies = copies_of(style);
            let shadow = occurs(style, "shadow"@);
            let outline = occurs(style, "outline"@);
            let n: int = if shadow {
                1
            } else {
                0
            };
            &&& copies.len() == 1 + n + (if outline {
                4int
            } else {
                0
            })
            &&& shadow ==> copies[0] is Shadow
            &&& outline ==> {
                &&& copies[n] == (GlyphCopy::Outline { dx: -1i8, dy: -1i8 })
                &&& copies[n + 1] == (GlyphCopy::Outline { dx: 1, dy: -1i8 })
                &&& copies[n + 2] == (GlyphCopy::Outline { dx: -1i8, dy: 1 })
                &&& copies[n + 3] == (GlyphCopy::Outline { dx: 1, dy: 1 })
            }
        }),
{
}

/// What moves is named by the setting; without a name, or under another one,
/// nothing moves.
pub proof fn law_motions_have_names(name: Seq<char>)
    ensures
        axis_of(None) is Nothing,
        axis_of(Some(name)) is Left <==> name == "left"@,
        axis_of(Some(name)) is Top <==> name == "top"@,
        axis_of(Some(name)) is Alpha <==> name == "alpha"@,
        axis_of(Some(name)) is XScale <==> name == "xscale"@,
        axis_of(Some(name)) is YScale <==> name == "yscale"@,
        axis_of(Some(name)) is Rotate <==> name == "rotate"@,
{
    reveal_strlit("left");
    reveal_strlit("top");
    reveal_strlit("alpha");
    reveal_strlit("xscale");
    reveal_strlit("yscale");
    reveal_strlit("rotate");
    assert("left"@[0] == 'l' && "top"@[0] == 't' && "alpha"@[0] == 'a' && "xscale"@[0] == 'x');
    assert("yscale"@[0] == 'y' && "rotate"@[0] == 'r');
}

} // verus!
