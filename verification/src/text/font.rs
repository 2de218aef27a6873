//! Logical fonts.
use crate::name_map::{copy_text_map, lemma_item_is_mapped, lemma_key_has_item, text_map, NameMap};
use crate::strs::{
    parse_i32, same_text, signed_decimal, split, split_text, texts, trim, trimmed,
};
use vstd::prelude::*;

verus! {

/// A logical font: what scripts said of it.
///
/// Values are kept as trimmed text under the names that scripts use; numbers are
/// read from them by whoever lays out the text.
pub struct FontDesc {
    /// What is known of fonts.
    pub props: NameMap<String>,
    /// What else a script said.
    pub custom: NameMap<String>,
    pub bold: Option<bool>,
    pub italic: Option<bool>,
    pub underline: Option<bool>,
    pub strikeout: Option<bool>,
}

/// What a font holds.
#[verifier::ext_equal]
pub struct FontRecord {
    pub props: Map<Seq<char>, Seq<char>>,
    pub custom: Map<Seq<char>, Seq<char>>,
    pub bold: Option<bool>,
    pub italic: Option<bool>,
    pub underline: Option<bool>,
    pub strikeout: Option<bool>,
}

impl View for FontDesc {
    type V = FontRecord;

    open spec fn view(&self) -> FontRecord {
        FontRecord {
            props: text_map(self.props),
            custom: text_map(self.custom),
            bold: self.bold,
            italic: self.italic,
            underline: self.underline,
            strikeout: self.strikeout,
        }
    }
}

/// A font of which nothing is said.
pub open spec fn plain_font() -> FontRecord {
    FontRecord {
        props: Map::empty(),
        custom: Map::empty(),
        bold: None,
        italic: None,
        underline: None,
        strikeout: None,
    }
}

/// The names under which something is known of fonts.
pub open spec fn is_font_key(key: Seq<char>) -> bool {
    ||| key == "face"@
    ||| key == "size"@
    ||| key == "rubyface"@
    ||| key == "rubysize"@
    ||| key == "color"@
    ||| key == "outlinecolor"@
    ||| key == "shadowcolor"@
    ||| key == "height"@
    ||| key == "kerning"@
    ||| key == "shadow"@
    ||| key == "outline"@
    ||| key == "rubyshadow"@
    ||| key == "rubyoutline"@
    ||| key == "spacetop"@
    ||| key == "spacemiddle"@
    ||| key == "spacebottom"@
    ||| key == "rubykerning"@
    ||| key == "alpha"@
    ||| key == "xscale"@
    ||| key == "yscale"@
    ||| key == "rotate"@
    ||| key == "layermode"@
    ||| key == "entirealpha"@
    ||| key == "entirexscale"@
    ||| key == "entireyscale"@
    ||| key == "entirerotate"@
    ||| key == "entireanchorx"@
    ||| key == "entireanchory"@
    ||| key == "anchorcenter"@
    ||| key == "stack"@
    ||| key == "align"@
    ||| key == "overflow"@
    ||| key == "vertical"@
    ||| key == "style"@
}

fn known_key(key: &str) -> (out: bool)
    ensures
        out == is_font_key(key@),
{
    same_text(key, "face") ||
        same_text(key, "size") ||
        same_text(key, "rubyface") ||
        same_text(key, "rubysize") ||
        same_text(key, "color") ||
        same_text(key, "outlinecolor") ||
        same_text(key, "shadowcolor") ||
        same_text(key, "height") ||
        same_text(key, "kerning") ||
        same_text(key, "shadow") ||
        same_text(key, "outline") ||
        same_text(key, "rubyshadow") ||
        same_text(key, "rubyoutline") ||
        same_text(key, "spacetop") ||
        same_text(key, "spacemiddle") ||
        same_text(key, "spacebottom") ||
        same_text(key, "rubykerning") ||
        same_text(key, "alpha") ||
        same_text(key, "xscale") ||
        same_text(key, "yscale") ||
        same_text(key, "rotate") ||
        same_text(key, "layermode") ||
        same_text(key, "entirealpha") ||
        same_text(key, "entirexscale") ||
        same_text(key, "entireyscale") ||
        same_text(key, "entirerotate") ||
        same_text(key, "entireanchorx") ||
        same_text(key, "entireanchory") ||
        same_text(key, "anchorcenter") ||
        same_text(key, "stack") ||
        same_text(key, "align") ||
        same_text(key, "overflow") ||
        same_text(key, "vertical") ||
        same_text(key, "style")
}

/// Whether a list of styles names a style.
pub open spec fn style_names(styles: Seq<char>, name: Seq<char>) -> bool {
    exists|i: int|
        0 <= i < split(styles, ',').len() && trim(#[trigger] split(styles, ',')[i]) == name
}

fn names_style(styles: &str, name: &str) -> (out: bool)
    ensures
        out == style_names(styles@, name@),
{
    let parts = split_text(styles, ',');
    let ghost all = split(styles@, ',');
    let mut i: usize = 0;
    assert(all.len() == parts@.len());
    while i < parts.len()
        invariant
            i <= parts.len(),
            all == split(styles@, ','),
            texts(parts@) == all,
            all.len() == parts@.len(),
            forall|j: int| 0 <= j < i ==> trim(#[trigger] all[j]) != name@,
        decreases parts.len() - i,
    {
        assert(all[i as int] == parts@[i as int]@);
        let part = trimmed(parts[i].as_str());
        if same_text(part.as_str(), name) {
            return true;
        }
        i += 1;
    }
    false
}

/// What became of the known values: those of `raw` are put over the earlier
/// ones.
pub open spec fn merged_props(
    old_props: Map<Seq<char>, Seq<char>>,
    raw: Map<Seq<char>, Seq<char>>,
    known: bool,
) -> Map<Seq<char>, Seq<char>> {
    Map::new(
        |k: Seq<char>|
            old_props.contains_key(k) || (raw.contains_key(k) && is_font_key(k) == known),
        |k: Seq<char>|
            if raw.contains_key(k) && is_font_key(k) == known {
                trim(raw[k])
            } else {
                old_props[k]
            },
    )
}

/// A style flag after styles were said.
pub open spec fn merged_flag(
    flag: Option<bool>,
    raw: Map<Seq<char>, Seq<char>>,
    name: Seq<char>,
) -> Option<bool> {
    if raw.contains_key("style"@) && style_names(trim(raw["style"@]), name) {
        Some(true)
    } else {
        flag
    }
}

/// A font after more was said of it.
pub open spec fn merged_font(font: FontRecord, raw: Map<Seq<char>, Seq<char>>) -> FontRecord {
    FontRecord {
        props: merged_props(font.props, raw, true),
        custom: merged_props(font.custom, raw, false),
        bold: merged_flag(font.bold, raw, "bold"@),
        italic: merged_flag(font.italic, raw, "italic"@),
        underline: merged_flag(font.underline, raw, "underline"@),
        strikeout: merged_flag(font.strikeout, raw, "strikeout"@),
    }
}

/// The first `n` entries of a map of texts.
spec fn first_entries(raw: NameMap<String>, n: int) -> Map<Seq<char>, Seq<char>> {
    Map::new(
        |k: Seq<char>|
            exists|i: int| 0 <= i < n && (#[trigger] raw.items()[i]).0@ == k,
        |k: Seq<char>| text_map(raw)[k],
    )
}

proof fn lemma_first_entries(raw: NameMap<String>, n: int)
    requires
        raw.wf(),
        0 <= n < raw.items().len(),
    ensures
        first_entries(raw, n + 1) == first_entries(raw, n).insert(
            raw.items()[n].0@,
            raw.items()[n].1@,
        ),
        !first_entries(raw, n).contains_key(raw.items()[n].0@),
{
    let key = raw.items()[n].0@;
    lemma_item_is_mapped(raw, n);
    assert(text_map(raw)[key] == raw.items()[n].1@);
    let next = first_entries(raw, n + 1);
    let step = first_entries(raw, n).insert(key, raw.items()[n].1@);
    assert forall|k: Seq<char>| #[trigger] next.contains_key(k) == step.contains_key(k) by {
        if next.contains_key(k) {
            let i = choose|i: int| 0 <= i < n + 1 && (#[trigger] raw.items()[i]).0@ == k;
            if i < n {
                assert(first_entries(raw, n).contains_key(k));
            }
        }
        if step.contains_key(k) {
            if k == key {
                assert(raw.items()[n].0@ == k);
            } else {
                let i = choose|i: int| 0 <= i < n && (#[trigger] raw.items()[i]).0@ == k;
                assert(raw.items()[i].0@ == k);
            }
        }
    }
    assert(next =~= step);
}

proof fn lemma_all_entries(raw: NameMap<String>)
    requires
        raw.wf(),
    ensures
        first_entries(raw, raw.items().len() as int) == text_map(raw),
{
    let all = first_entries(raw, raw.items().len() as int);
    assert forall|k: Seq<char>| #[trigger] all.contains_key(k) == text_map(raw).contains_key(k) by {
        if all.contains_key(k) {
            let i = choose|i: int|
                0 <= i < raw.items().len() && (#[trigger] raw.items()[i]).0@ == k;
            lemma_item_is_mapped(raw, i);
        }
        if text_map(raw).contains_key(k) {
            lemma_key_has_item(raw, k);
        }
    }
    assert(all =~= text_map(raw));
}

impl FontDesc {
    /// No name is there twice.
    pub open spec fn wf(self) -> bool {
        self.props.wf() && self.custom.wf()
    }

    /// A font of which nothing is said.
    pub fn new() -> (out: Self)
        ensures
            out.wf(),
            out@ == plain_font(),
    {
        let out = FontDesc {
            props: NameMap::new(),
            custom: NameMap::new(),
            bold: None,
            italic: None,
            underline: None,
            strikeout: None,
        };
        assert(text_map(out.props) =~= Map::empty());
        assert(text_map(out.custom) =~= Map::empty());
        out
    }

    pub fn copy(&self) -> (out: Self)
        requires
            self.wf(),
        ensures
            out.wf(),
            out@ == self@,
    {
        FontDesc {
            props: copy_text_map(&self.props),
            custom: copy_text_map(&self.custom),
            bold: self.bold,
            italic: self.italic,
            underline: self.underline,
            strikeout: self.strikeout,
        }
    }

    /// A font made of what a script said.
    pub fn from_raw(raw: &NameMap<String>) -> (out: Self)
        requires
            raw.wf(),
        ensures
            out.wf(),
            out@ == merged_font(plain_font(), text_map(*raw)),
    {
        let mut out = FontDesc::new();
        out.merge_raw(raw);
        out
    }

    /// Takes one style list.
    fn take_styles(&mut self, styles: &str)
        ensures
            final(self).props == old(self).props,
            final(self).custom == old(self).custom,
            final(self).bold == (if style_names(styles@, "bold"@) {
                Some(true)
            } else {
                old(self).bold
            }),
            final(self).italic == (if style_names(styles@, "italic"@) {
                Some(true)
            } else {
                old(self).italic
            }),
            final(self).underline == (if style_names(styles@, "underline"@) {
                Some(true)
            } else {
                old(self).underline
            }),
            final(self).strikeout == (if style_names(styles@, "strikeout"@) {
                Some(true)
            } else {
                old(self).strikeout
            }),
    {
        if names_style(styles, "bold") {
            self.bold = Some(true);
        }
        if names_style(styles, "italic") {
            self.italic = Some(true);
        }
        if names_style(styles, "underline") {
            self.underline = Some(true);
        }
        if names_style(styles, "strikeout") {
            self.strikeout = Some(true);
        }
    }

    /// Takes what a script said over what was known.
    pub fn merge_raw(&mut self, raw: &NameMap<String>)
        requires
            old(self).wf(),
            raw.wf(),
        ensures
            (*final(self)).wf(),
            final(self)@ == merged_font(old(self)@, text_map(*raw)),
    {
        let ghost start = self@;
        let mut i: usize = 0;
        proof {
            let none = first_entries(*raw, 0);
            assert(none =~= Map::empty());
            assert(merged_font(start, none) =~= start);
        }
        while i < raw.len()
            invariant
                i <= raw.items().len(),
                raw.wf(),
                self.wf(),
                self@ == merged_font(start, first_entries(*raw, i as int)),
            decreases raw.items().len() - i,
        {
            let key = raw.key_at(i);
            let value = trimmed(raw.value_at(i).as_str());
            let ghost before = self@;
            let ghost seen = first_entries(*raw, i as int);
            let ghost next = first_entries(*raw, i + 1);
            proof {
                lemma_first_entries(*raw, i as int);
                assert(next == seen.insert(key@, raw.items()[i as int].1@));
                assert(next[key@] == raw.items()[i as int].1@);
            }
            let known = known_key(key);
            if same_text(key, "style") {
                self.take_styles(value.as_str());
            }
            let ghost written = value@;
            if known {
                self.props.insert(key, value);
                assert(text_map(self.props) =~= before.props.insert(key@, written));
            } else {
                self.custom.insert(key, value);
                assert(text_map(self.custom) =~= before.custom.insert(key@, written));
            }
            proof {
                let after = merged_font(start, next);
                assert(text_map(self.props) =~= after.props);
                assert(text_map(self.custom) =~= after.custom);
                assert(self@ =~= after);
            }
            i += 1;
        }
        proof {
            lemma_all_entries(*raw);
        }
    }

    /// The value said under a name.
    pub fn value(&self, key: &str) -> (out: Option<&String>)
        ensures
            out is Some <==> self@.props.contains_key(key@),
            out matches Some(text) ==> text@ == self@.props[key@],
    {
        self.props.get(key)
    }

    /// An opacity from 0 to 255, where a number was said.
    pub fn opacity(&self, key: &str) -> (out: Option<u8>)
        ensures
            out == font_opacity(self@, key@),
    {
        match self.props.get(key) {
            Some(text) => match parse_i32(text.as_str()) {
                Some(n) => Some(
                    if n < 0 {
                        0u8
                    } else if n > 255 {
                        255u8
                    } else {
                        n as u8
                    },
                ),
                None => None,
            },
            None => None,
        }
    }

    /// A switch, on where `1` or `true` was said.
    pub fn flag(&self, key: &str) -> (out: Option<bool>)
        ensures
            out == font_flag(self@, key@),
    {
        match self.props.get(key) {
            Some(text) => Some(same_text(text.as_str(), "1") || same_text(text.as_str(), "true")),
            None => None,
        }
    }
}

/// The opacity that a font has under a name, held to 0 to 255.
pub open spec fn font_opacity(font: FontRecord, key: Seq<char>) -> Option<u8> {
    if font.props.contains_key(key) {
        match signed_decimal(font.props[key]) {
            Some(n) => if i32::MIN <= n <= i32::MAX {
                Some(
                    if n < 0 {
                        0u8
                    } else if n > 255 {
                        255u8
                    } else {
                        n as u8
                    },
                )
            } else {
                None
            },
            None => None,
        }
    } else {
        None
    }
}

/// The switch that a font has under a name.
pub open spec fn font_flag(font: FontRecord, key: Seq<char>) -> Option<bool> {
    if font.props.contains_key(key) {
        Some(font.props[key] == "1"@ || font.props[key] == "true"@)
    } else {
        None
    }
}

/// What was said last holds: saying the same again changes nothing.
pub proof fn law_saying_again_changes_nothing(
    font: FontRecord,
    raw: Map<Seq<char>, Seq<char>>,
)
    ensures
        merged_font(merged_font(font, raw), raw) == merged_font(font, raw),
{
    let once = merged_font(font, raw);
    let twice = merged_font(once, raw);
    assert(twice.props =~= once.props);
    assert(twice.custom =~= once.custom);
}

/// What a script says of a font is trimmed and put over what was said before under
/// that name; what it does not say stays. The known names and the others are kept
/// apart.
pub proof fn law_fonts_take_what_is_said(
    font: FontRecord,
    raw: Map<Seq<char>, Seq<char>>,
    key: Seq<char>,
)
    ensures
        ({
            let next = merged_font(font, raw);
            &&& raw.contains_key(key) && is_font_key(key) ==> next.props.contains_key(key)
                && next.props[key] == trim(raw[key])
            &&& raw.contains_key(key) && !is_font_key(key) ==> next.custom.contains_key(key)
                && next.custom[key] == trim(raw[key])
            &&& !raw.contains_key(key) || !is_font_key(key) ==> next.props.contains_key(key)
                == font.props.contains_key(key) && (font.props.contains_key(key) ==> next.props[key]
                == font.props[key])
            &&& !raw.contains_key(key) || is_font_key(key) ==> next.custom.contains_key(key)
                == font.custom.contains_key(key) && (font.custom.contains_key(key)
                ==> next.custom[key] == font.custom[key])
        }),
{
}

/// Styles are only switched on: bold where the styles name it among what commas
/// part, and so the other three. Without styles they stay.
pub proof fn law_styles_are_switched_on(
    font: FontRecord,
    raw: Map<Seq<char>, Seq<char>>,
    i: int,
)
    ensures
        ({
            let next = merged_font(font, raw);
            let parts = split(trim(raw["style"@]), ',');
            let part = trim(parts[i]);
            &&& !raw.contains_key("style"@) ==> next.bold == font.bold && next.italic == font.italic
                && next.underline == font.underline && next.strikeout == font.strikeout
            &&& raw.contains_key("style"@) && 0 <= i < parts.len() ==> {
                &&& part == "bold"@ ==> next.bold == Some(true)
                &&& part == "italic"@ ==> next.italic == Some(true)
                &&& part == "underline"@ ==> next.underline == Some(true)
                &&& part == "strikeout"@ ==> next.strikeout == Some(true)
            }
            &&& (forall|j: int| 0 <= j < parts.len() ==> trim(#[trigger] parts[j]) != "bold"@)
                ==> next.bold == font.bold
            &&& (forall|j: int| 0 <= j < parts.len() ==> trim(#[trigger] parts[j]) != "italic"@)
                ==> next.italic == font.italic
            &&& (forall|j: int| 0 <= j < parts.len() ==> trim(#[trigger] parts[j]) != "underline"@)
                ==> next.underline == font.underline
            &&& (forall|j: int| 0 <= j < parts.len() ==> trim(#[trigger] parts[j]) != "strikeout"@)
                ==> next.strikeout == font.strikeout
        }),
{
}

/// An opacity is the number that was said, or the nearest of 0 to 255; what is no
/// number of 32 bits is none. A switch is on where `1` or `true` was said, and off
/// for anything else.
pub proof fn law_opacities_and_switches(font: FontRecord, key: Seq<char>)
    ensures
        !font.props.contains_key(key) ==> font_opacity(font, key) is None && font_flag(
            font,
            key,
        ) is None,
        font.props.contains_key(key) ==> ({
            let read = signed_decimal(font.props[key]);
            let valid = read is Some && i32::MIN <= read->0 <= i32::MAX;
            &&& font_opacity(font, key) is Some <==> valid
            &&& valid && 0 <= read->0 <= 255 ==> font_opacity(font, key)->0 as int == read->0
            &&& valid && read->0 < 0 ==> font_opacity(font, key)->0 == 0
            &&& valid && read->0 > 255 ==> font_opacity(font, key)->0 == 255
            &&& font_flag(font, key) == Some(
                font.props[key] == "1"@ || font.props[key] == "true"@,
            )
        }),
        plain_font().props.len() == 0,
        plain_font().custom.len() == 0,
        plain_font().bold is None && plain_font().italic is None && plain_font().underline is None
            && plain_font().strikeout is None,
{
}

/// The names that are known of fonts.
pub proof fn law_known_font_names(key: Seq<char>)
    ensures
        is_font_key("face"@) && is_font_key("size"@) && is_font_key("rubyface"@) && is_font_key(
            "rubysize"@,
        ) && is_font_key("color"@) && is_font_key("outlinecolor"@) && is_font_key("shadowcolor"@),
        is_font_key("height"@) && is_font_key("kerning"@) && is_font_key("shadow"@) && is_font_key(
            "outline"@,
        ) && is_font_key("rubyshadow"@) && is_font_key("rubyoutline"@) && is_font_key("spacetop"@),
        is_font_key("spacemiddle"@) && is_font_key("spacebottom"@) && is_font_key("rubykerning"@)
            && is_font_key("alpha"@) && is_font_key("xscale"@) && is_font_key("yscale"@),
        is_font_key("rotate"@) && is_font_key("layermode"@) && is_font_key("entirealpha"@)
            && is_font_key("entirexscale"@) && is_font_key("entireyscale"@) && is_font_key(
            "entirerotate"@,
        ),
        is_font_key("entireanchorx"@) && is_font_key("entireanchory"@) && is_font_key(
            "anchorcenter"@,
        ) && is_font_key("stack"@) && is_font_key("align"@) && is_font_key("overflow"@),
        is_font_key("vertical"@) && is_font_key("style"@),
        key.len() < 4 || key.len() > 13 ==> !is_font_key(key),
{
    reveal_strlit("face");
    reveal_strlit("size");
    reveal_strlit("rubyface");
    reveal_strlit("rubysize");
    reveal_strlit("color");
    reveal_strlit("outlinecolor");
    reveal_strlit("shadowcolor");
    reveal_strlit("height");
    reveal_strlit("kerning");
    reveal_strlit("shadow");
    reveal_strlit("outline");
    reveal_strlit("rubyshadow");
    reveal_strlit("rubyoutline");
    reveal_strlit("spacetop");
    reveal_strlit("spacemiddle");
    reveal_strlit("spacebottom");
    reveal_strlit("rubykerning");
    reveal_strlit("alpha");
    reveal_strlit("xscale");
    reveal_strlit("yscale");
    reveal_strlit("rotate");
    reveal_strlit("layermode");
    reveal_strlit("entirealpha");
    reveal_strlit("entirexscale");
    reveal_strlit("entireyscale");
    reveal_strlit("entirerotate");
    reveal_strlit("entireanchorx");
    reveal_strlit("entireanchory");
    reveal_strlit("anchorcenter");
    reveal_strlit("stack");
    reveal_strlit("align");
    reveal_strlit("overflow");
    reveal_strlit("vertical");
    reveal_strlit("style");
}

} // verus!
