//! What the engine's callbacks compute: input queries, magic paths and the text
//! chunks of PNG files.
use crate::name_map::{lemma_item_is_mapped, lemma_key_has_item, text_map, NameMap};
use crate::runtime::key_set::KeySet;
use crate::strs::{chars_of, concat, copy_text, find, find_from, push_char, string_of_range};
use std::collections::HashMap;
use vstd::prelude::*;

verus! {

broadcast use vstd::std_specs::hash::group_hash_axioms;

/// A small picture of the input state.
pub struct InputSnapshot {
    pub mouse_x: i32,
    pub mouse_y: i32,
    pub clicked: bool,
    pub keys_down: KeySet,
    pub keys_down_edge: KeySet,
    pub keys_up_edge: KeySet,
    pub key_overrides: HashMap<u32, bool>,
}

/// Whether a key counts as down: as it is overridden, or else as it is.
pub open spec fn counts_as_down(s: InputSnapshot, key: u32) -> bool {
    if s.key_overrides@.contains_key(key) {
        s.key_overrides@[key]
    } else {
        s.keys_down@.contains(key)
    }
}

impl InputSnapshot {
    pub open spec fn wf(self) -> bool {
        self.keys_down.wf() && self.keys_down_edge.wf() && self.keys_up_edge.wf()
    }

    pub fn new() -> (out: Self)
        ensures
            out.wf(),
            out.mouse_x == 0,
            out.mouse_y == 0,
            !out.clicked,
            out.keys_down@ == Set::<u32>::empty(),
            out.keys_down_edge@ == Set::<u32>::empty(),
            out.keys_up_edge@ == Set::<u32>::empty(),
            out.key_overrides@ == Map::<u32, bool>::empty(),
    {
        InputSnapshot {
            mouse_x: 0,
            mouse_y: 0,
            clicked: false,
            keys_down: KeySet::new(),
            keys_down_edge: KeySet::new(),
            keys_up_edge: KeySet::new(),
            key_overrides: HashMap::new(),
        }
    }

    /// Forgets which keys moved. What is held stays.
    pub fn clear_edges(&mut self)
        requires
            old(self).wf(),
        ensures
            final(self).wf(),
            final(self).keys_down_edge@ == Set::<u32>::empty(),
            final(self).keys_up_edge@ == Set::<u32>::empty(),
            *final(self) == (InputSnapshot {
                keys_down_edge: final(self).keys_down_edge,
                keys_up_edge: final(self).keys_up_edge,
                ..*old(self)
            }),
    {
        self.keys_down_edge.clear();
        self.keys_up_edge.clear();
    }

    pub fn key_down(&self, vk: u32) -> (out: bool)
        ensures
            out == counts_as_down(*self, vk),
    {
        match self.key_overrides.get(&vk) {
            Some(down) => *down,
            None => self.keys_down.contains(vk),
        }
    }

    /// Overrides a key as held, or with `to` 0 removes the override.
    pub fn override_key(&mut self, from: u32, to: u32)
        requires
            old(self).wf(),
        ensures
            final(self).wf(),
            final(self).key_overrides@ == (if to == 0 {
                old(self).key_overrides@.remove(from)
            } else {
                old(self).key_overrides@.insert(from, true)
            }),
            *final(self) == (InputSnapshot {
                key_overrides: final(self).key_overrides,
                ..*old(self)
            }),
    {
        if to == 0 {
            let _ = self.key_overrides.remove(&from);
        } else {
            let _ = self.key_overrides.insert(from, true);
        }
    }
}

/// An override is undone by overriding with 0.
pub proof fn law_override_is_undone(overrides: Map<u32, bool>, key: u32)
    requires
        !overrides.contains_key(key),
    ensures
        overrides.insert(key, true).remove(key) == overrides,
{
    assert(overrides.insert(key, true).remove(key) =~= overrides);
}

// ── Magic paths ────────────────────────────────────────────────

/// The path that a name stands for. A name `:space/rest` stands for the space's
/// directory and `rest`, or for `image/` and `rest` where the space is not known.
/// A name `:space` that is not known stands for `image/space`.
pub open spec fn magic_path(table: Map<Seq<char>, Seq<char>>, name: Seq<char>) -> Seq<char> {
    if name.len() == 0 || name[0] != ':' {
        name
    } else {
        let rest = name.skip(1);
        let at = find(rest, '/');
        let space = rest.take(at);
        let tail = if at < rest.len() {
            rest.skip(at + 1)
        } else {
            Seq::empty()
        };
        if table.contains_key(space) {
            table[space] + "/"@ + tail
        } else if at < rest.len() {
            "image/"@ + tail
        } else {
            "image/"@ + rest
        }
    }
}

/// Resolves a magic path.
pub fn resolve_magic(table: &NameMap<String>, name: &str) -> (out: String)
    ensures
        out@ == magic_path(text_map(*table), name@),
{
    let chars = chars_of(name);
    if chars.len() == 0 || chars[0] != ':' {
        return copy_text(name);
    }
    let at = find_from(&chars, 1, '/');
    let space = string_of_range(&chars, 1, at);
    let ghost rest = name@.skip(1);
    proof {
        assert(chars@.skip(1) =~= rest);
        assert(space@ =~= rest.take(at - 1));
    }
    let tail = if at < chars.len() {
        string_of_range(&chars, at + 1, chars.len())
    } else {
        String::new()
    };
    proof {
        if at < chars.len() {
            assert(tail@ =~= rest.skip(at - 1 + 1));
        }
    }
    match table.get(space.as_str()) {
        Some(prefix) => {
            let head = concat(prefix.as_str(), "/");
            concat(head.as_str(), tail.as_str())
        },
        None => if at < chars.len() {
            concat("image/", tail.as_str())
        } else {
            assert(space@ =~= rest);
            concat("image/", space.as_str())
        },
    }
}

// ── PNG text chunks ────────────────────────────────────────────

/// The eight bytes that a PNG file starts with.
pub open spec fn png_signature() -> Seq<u8> {
    seq![0x89u8, 0x50u8, 0x4Eu8, 0x47u8, 0x0Du8, 0x0Au8, 0x1Au8, 0x0Au8]
}

/// Four bytes as a number, the highest first.
pub open spec fn be_number(bytes: Seq<u8>, at: int) -> nat {
    (bytes[at] as nat) * 0x100_0000 + (bytes[at + 1] as nat) * 0x1_0000 + (bytes[at + 2] as nat)
        * 0x100 + (bytes[at + 3] as nat)
}

/// Bytes as characters of the same numbers.
pub open spec fn latin1(bytes: Seq<u8>) -> Seq<char> {
    Seq::new(bytes.len(), |i: int| bytes[i] as char)
}

/// The place of the first zero byte, or the length.
pub open spec fn find_zero(bytes: Seq<u8>) -> int
    decreases bytes.len(),
{
    if bytes.len() == 0 || bytes[0] == 0 {
        0
    } else {
        1 + find_zero(bytes.skip(1))
    }
}

proof fn lemma_find_zero_is(bytes: Seq<u8>, at: int)
    requires
        0 <= at <= bytes.len(),
        at < bytes.len() ==> bytes[at] == 0,
        forall|j: int| 0 <= j < at ==> bytes[j] != 0,
    ensures
        find_zero(bytes) == at,
    decreases at,
{
    if at > 0 {
        assert(bytes[0] != 0);
        lemma_find_zero_is(bytes.skip(1), at - 1);
    }
}

/// Whether the chunk at `at` has this type.
pub open spec fn chunk_is(bytes: Seq<u8>, at: int, a: u8, b: u8, c: u8, d: u8) -> bool {
    bytes[at + 4] == a && bytes[at + 5] == b && bytes[at + 6] == c && bytes[at + 7] == d
}

/// The keyword and text of a text chunk's data, where it has a separator.
pub open spec fn text_of_chunk(data: Seq<u8>) -> Option<(Seq<char>, Seq<char>)> {
    let zero = find_zero(data);
    if zero < data.len() {
        Some((latin1(data.take(zero)), latin1(data.skip(zero + 1))))
    } else {
        None
    }
}

/// The texts in the chunks from `at` on, added to those found before. The end
/// chunk ends the file, and a chunk that is cut off ends it too.
pub open spec fn texts_from(
    bytes: Seq<u8>,
    at: int,
    found: Map<Seq<char>, Seq<char>>,
) -> Map<Seq<char>, Seq<char>>
    decreases bytes.len() + 4 - at,
{
    if at < 0 || at + 8 > bytes.len() || at + 8 + be_number(bytes, at) > bytes.len() {
        found
    } else {
        let end = at + 8 + be_number(bytes, at);
        let next = if chunk_is(bytes, at, 0x74, 0x45, 0x58, 0x74) {
            match text_of_chunk(bytes.subrange(at + 8, end)) {
                Some((keyword, text)) => found.insert(keyword, text),
                None => found,
            }
        } else {
            found
        };
        if chunk_is(bytes, at, 0x49, 0x45, 0x4E, 0x44) {
            next
        } else {
            texts_from(bytes, end + 4, next)
        }
    }
}

/// The texts of a PNG file by keyword; none where the file is no PNG.
pub open spec fn png_texts(bytes: Seq<u8>) -> Map<Seq<char>, Seq<char>> {
    if bytes.len() < 8 || bytes.take(8) != png_signature() {
        Map::empty()
    } else {
        texts_from(bytes, 8, Map::empty())
    }
}

fn latin1_text(bytes: &[u8], from: usize, to: usize) -> (out: String)
    requires
        from <= to <= bytes@.len(),
    ensures
        out@ == latin1(bytes@.subrange(from as int, to as int)),
{
    let mut out = String::new();
    let mut i: usize = from;
    let ghost all = latin1(bytes@.subrange(from as int, to as int));
    assert(out@ =~= all.take(0));
    while i < to
        invariant
            from <= i <= to <= bytes@.len(),
            all == latin1(bytes@.subrange(from as int, to as int)),
            out@ == all.take(i - from),
        decreases to - i,
    {
        push_char(&mut out, bytes[i] as char);
        i += 1;
        assert(out@ =~= all.take(i - from));
    }
    assert(all.take(to - from) =~= all);
    out
}

fn is_png(bytes: &[u8]) -> (out: bool)
    ensures
        out == (bytes@.len() >= 8 && bytes@.take(8) == png_signature()),
{
    if bytes.len() < 8 {
        return false;
    }
    let out = bytes[0] == 0x89 && bytes[1] == 0x50 && bytes[2] == 0x4E && bytes[3] == 0x47
        && bytes[4] == 0x0D && bytes[5] == 0x0A && bytes[6] == 0x1A && bytes[7] == 0x0A;
    proof {
        let head = bytes@.take(8);
        let sig = png_signature();
        if out {
            assert(head =~= sig);
        } else {
            if head == sig {
                assert(head[0] == sig[0] && head[1] == sig[1] && head[2] == sig[2] && head[3]
                    == sig[3] && head[4] == sig[4] && head[5] == sig[5] && head[6] == sig[6]
                    && head[7] == sig[7]);
            }
        }
    }
    out
}

/// Reads the text chunks of a PNG file; a later text replaces an earlier one
/// with the same keyword.
pub fn parse_png_text_chunks(bytes: &[u8]) -> (out: NameMap<String>)
    ensures
        out.wf(),
        text_map(out) == png_texts(bytes@),
{
    let mut out: NameMap<String> = NameMap::new();
    assert(text_map(out) =~= Map::empty());
    if !is_png(bytes) {
        return out;
    }
    let mut at: usize = 8;
    while at <= bytes.len() && bytes.len() - at >= 8
        invariant_except_break
            8 <= at,
            texts_from(bytes@, at as int, text_map(out)) == png_texts(bytes@),
        invariant
            out.wf(),
        ensures
            text_map(out) == png_texts(bytes@),
        decreases bytes.len() - at,
    {
        let size: u64 = bytes[at] as u64 * 0x100_0000 + bytes[at + 1] as u64 * 0x1_0000
            + bytes[at + 2] as u64 * 0x100 + bytes[at + 3] as u64;
        let start: usize = at + 8;
        if size > (bytes.len() - start) as u64 {
            break;
        }
        let end: usize = start + size as usize;
        let is_text = bytes[at + 4] == 0x74 && bytes[at + 5] == 0x45 && bytes[at + 6] == 0x58
            && bytes[at + 7] == 0x74;
        if is_text {
            let mut zero: usize = start;
            while zero < end && bytes[zero] != 0
                invariant
                    start <= zero <= end <= bytes@.len(),
                    forall|j: int| start <= j < zero ==> bytes@[j] != 0,
                decreases end - zero,
            {
                zero += 1;
            }
            let ghost data = bytes@.subrange(start as int, end as int);
            proof {
                lemma_find_zero_is(data, zero - start);
            }
            if zero < end {
                let keyword = latin1_text(bytes, start, zero);
                let text = latin1_text(bytes, zero + 1, end);
                let ghost before = out;
                proof {
                    assert(bytes@.subrange(start as int, zero as int) =~= data.take(zero - start));
                    assert(bytes@.subrange(zero + 1, end as int) =~= data.skip(zero - start + 1));
                }
                out.insert(keyword.as_str(), text);
                proof {
                    assert(text_map(out) =~= text_map(before).insert(keyword@, text@));
                }
            }
        }
        let is_end = bytes[at + 4] == 0x49 && bytes[at + 5] == 0x45 && bytes[at + 6] == 0x4E
            && bytes[at + 7] == 0x44;
        proof {
            assert(is_end == chunk_is(bytes@, at as int, 0x49, 0x45, 0x4E, 0x44));
            assert(is_text == chunk_is(bytes@, at as int, 0x74, 0x45, 0x58, 0x74));
        }
        if is_end {
            break;
        }
        if bytes.len() - end < 4 {
            assert(texts_from(bytes@, end + 4, text_map(out)) == text_map(out));
            break;
        }
        at = end + 4;
    }
    out
}

/// The texts of a PNG file, where the file could be read and has any.
pub fn load_png_comments(bytes: Option<&[u8]>) -> (out: Option<NameMap<String>>)
    ensures
        match bytes {
            Some(data) => match out {
                Some(map) => map.wf() && text_map(map) == png_texts(data@) && (exists|key: Seq<
                    char,
                >| #[trigger] png_texts(data@).contains_key(key)),
                None => forall|key: Seq<char>| !#[trigger] png_texts(data@).contains_key(key),
            },
            None => out is None,
        },
{
    let texts = match bytes {
        Some(data) => parse_png_text_chunks(data),
        None => return None,
    };
    if texts.len() == 0 {
        proof {
            assert forall|key: Seq<char>| !#[trigger] text_map(texts).contains_key(key) by {
                if texts@.contains_key(key) {
                    lemma_key_has_item(texts, key);
                }
            }
        }
        None
    } else {
        proof {
            lemma_item_is_mapped(texts, 0);
            assert(text_map(texts).contains_key(texts.items()[0].0@));
        }
        Some(texts)
    }
}

/// What a script made of a key counts before what the key did.
pub proof fn law_overrides_count_first(s: InputSnapshot, key: u32)
    ensures
        s.key_overrides@.contains_key(key) ==> counts_as_down(s, key) == s.key_overrides@[key],
        !s.key_overrides@.contains_key(key) ==> counts_as_down(s, key) == s.keys_down@.contains(
            key,
        ),
{
}

/// A name that begins with a colon names a place up to the first slash: where the
/// place is known its path stands there instead, and else `image`. Any other name
/// stays as it is.
pub proof fn law_colons_name_places(
    table: Map<Seq<char>, Seq<char>>,
    space: Seq<char>,
    tail: Seq<char>,
)
    requires
        forall|i: int| 0 <= i < space.len() ==> space[i] != '/',
    ensures
        table.contains_key(space) ==> magic_path(table, seq![':'] + space + seq!['/'] + tail)
            == table[space] + "/"@ + tail && magic_path(table, seq![':'] + space) == table[space]
            + "/"@ + Seq::<char>::empty(),
        !table.contains_key(space) ==> magic_path(table, seq![':'] + space + seq!['/'] + tail)
            == "image/"@ + tail && magic_path(table, seq![':'] + space) == "image/"@ + space,
        tail.len() == 0 || tail[0] != ':' ==> magic_path(table, tail) == tail,
{
    let named = seq![':'] + space + seq!['/'] + tail;
    let rest = space + seq!['/'] + tail;
    assert(named[0] == ':');
    assert(named.skip(1) =~= rest);
    lemma_slash_is_found(space, rest);
    assert(rest.take(space.len() as int) =~= space);
    assert(rest.skip(space.len() as int + 1) =~= tail);
    let bare = seq![':'] + space;
    assert(bare[0] == ':');
    assert(bare.skip(1) =~= space);
    assert(space.take(space.len() as int) =~= space);
    lemma_slash_is_found(space, space);
}

proof fn lemma_slash_is_found(space: Seq<char>, s: Seq<char>)
    requires
        forall|i: int| 0 <= i < space.len() ==> space[i] != '/',
        space.len() <= s.len(),
        s.take(space.len() as int) =~= space,
        s.len() > space.len() ==> s[space.len() as int] == '/',
    ensures
        find(s, '/') == space.len(),
    decreases space.len(),
{
    if space.len() > 0 {
        assert(s.take(space.len() as int)[0] == s[0]);
        let rest = space.skip(1);
        assert(s.skip(1).take(rest.len() as int) =~= rest) by {
            assert(s.take(space.len() as int).skip(1) =~= s.skip(1).take(rest.len() as int));
        }
        lemma_slash_is_found(rest, s.skip(1));
    }
}

/// A text of a picture is split at its first zero, and its bytes are its characters;
/// without a zero there is none.
pub proof fn law_picture_texts_are_split_at_zero(keyword: Seq<u8>, text: Seq<u8>, i: int)
    requires
        forall|k: int| 0 <= k < keyword.len() ==> keyword[k] != 0,
    ensures
        text_of_chunk(keyword + seq![0u8] + text) == Some((latin1(keyword), latin1(text))),
        text_of_chunk(keyword) is None,
        latin1(text).len() == text.len(),
        0 <= i < text.len() ==> latin1(text)[i] == text[i] as char,
{
    let data = keyword + seq![0u8] + text;
    lemma_zero_is_found(keyword, data);
    lemma_zero_is_found(keyword, keyword);
    assert(data.take(keyword.len() as int) =~= keyword);
    assert(data.skip(keyword.len() as int + 1) =~= text);
}

proof fn lemma_zero_is_found(before: Seq<u8>, data: Seq<u8>)
    requires
        forall|k: int| 0 <= k < before.len() ==> before[k] != 0,
        before.len() <= data.len(),
        forall|k: int| 0 <= k < before.len() ==> data[k] == before[k],
        data.len() > before.len() ==> data[before.len() as int] == 0,
    ensures
        find_zero(data) == before.len(),
    decreases before.len(),
{
    if before.len() > 0 {
        assert(data[0] == before[0]);
        lemma_zero_is_found(before.skip(1), data.skip(1));
    }
}

/// The parts of a picture stand one behind the other, each with its length, its
/// kind, its content and four bytes that check it. Those of the kind `tEXt` give
/// texts, a later one in the place of an earlier one; `IEND` is the last, and a part
/// that goes beyond the end is none.
pub proof fn law_parts_of_pictures_are_read_in_order(
    bytes: Seq<u8>,
    at: int,
    found: Map<Seq<char>, Seq<char>>,
)
    requires
        0 <= at,
    ensures
        at + 8 > bytes.len() ==> texts_from(bytes, at, found) == found,
        at + 8 <= bytes.len() ==> ({
            let len = ((bytes[at] * 256 + bytes[at + 1]) * 256 + bytes[at + 2]) * 256 + bytes[at
                + 3];
            let end = at + 8 + len;
            let kind = bytes.subrange(at + 4, at + 8);
            let content = text_of_chunk(bytes.subrange(at + 8, end));
            &&& end > bytes.len() ==> texts_from(bytes, at, found) == found
            &&& end <= bytes.len() && kind == seq![0x49u8, 0x45u8, 0x4Eu8, 0x44u8] ==> texts_from(
                bytes,
                at,
                found,
            ) == found
            &&& end <= bytes.len() && kind == seq![0x74u8, 0x45u8, 0x58u8, 0x74u8] ==> {
                &&& content is None ==> texts_from(bytes, at, found) == texts_from(
                    bytes,
                    end + 4,
                    found,
                )
                &&& content matches Some((keyword, text)) ==> texts_from(bytes, at, found)
                    == texts_from(bytes, end + 4, found.insert(keyword, text))
            }
            &&& end <= bytes.len() && kind != seq![0x49u8, 0x45u8, 0x4Eu8, 0x44u8] && kind
                != seq![0x74u8, 0x45u8, 0x58u8, 0x74u8] ==> texts_from(bytes, at, found)
                == texts_from(bytes, end + 4, found)
        }),
{
    if at + 8 <= bytes.len() {
        let kind = bytes.subrange(at + 4, at + 8);
        let last = seq![0x49u8, 0x45u8, 0x4Eu8, 0x44u8];
        let text = seq![0x74u8, 0x45u8, 0x58u8, 0x74u8];
        assert(kind[0] == bytes[at + 4] && kind[1] == bytes[at + 5]);
        assert(kind[2] == bytes[at + 6] && kind[3] == bytes[at + 7]);
        assert(last[0] == 0x49 && text[0] == 0x74);
        assert(chunk_is(bytes, at, 0x49, 0x45, 0x4E, 0x44) ==> kind =~= last);
        assert(chunk_is(bytes, at, 0x74, 0x45, 0x58, 0x74) ==> kind =~= text);
    }
}

/// A picture has texts only behind the signature of the format.
pub proof fn law_pictures_begin_with_the_signature(bytes: Seq<u8>)
    ensures
        bytes.len() < 8 ==> png_texts(bytes) == Map::<Seq<char>, Seq<char>>::empty(),
        bytes.len() >= 8 && bytes[0] == 137 && bytes[1] == 80 && bytes[2] == 78 && bytes[3] == 71
            && bytes[4] == 13 && bytes[5] == 10 && bytes[6] == 26 && bytes[7] == 10 ==> png_texts(
            bytes,
        ) == texts_from(bytes, 8, Map::empty()),
        bytes.len() >= 8 && !(bytes[0] == 137 && bytes[1] == 80 && bytes[2] == 78 && bytes[3] == 71
            && bytes[4] == 13 && bytes[5] == 10 && bytes[6] == 26 && bytes[7] == 10) ==> png_texts(
            bytes,
        ) == Map::<Seq<char>, Seq<char>>::empty(),
{
    if bytes.len() >= 8 {
        let head = bytes.take(8);
        let signature = png_signature();
        assert(signature[0] == 137 && signature[1] == 80 && signature[2] == 78 && signature[3] == 71);
        assert(signature[4] == 13 && signature[5] == 10 && signature[6] == 26 && signature[7] == 10);
        assert(head[0] == bytes[0] && head[1] == bytes[1] && head[2] == bytes[2] && head[3]
            == bytes[3]);
        assert(head[4] == bytes[4] && head[5] == bytes[5] && head[6] == bytes[6] && head[7]
            == bytes[7]);
        if bytes[0] == 137 && bytes[1] == 80 && bytes[2] == 78 && bytes[3] == 71 && bytes[4] == 13
            && bytes[5] == 10 && bytes[6] == 26 && bytes[7] == 10 {
            assert(head =~= signature);
        }
    }
}

} // verus!
