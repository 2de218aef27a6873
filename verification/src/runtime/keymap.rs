//! Which keys play which role, and how a key configuration is read.
use crate::name_map::{text_map, NameMap};
use crate::strs::{
    chars_of, decimal, is_white, parse_i32, parse_u32, signed_decimal, string_of_range, trim,
    trimmed, white,
};
use vstd::prelude::*;

verus! {

pub const ROLE_ADVANCE: i32 = 0;

pub const ROLE_HIDE_IN: i32 = 3;

pub const ROLE_HIDE_OUT: i32 = 4;

pub const ROLE_BACKLOG_IN: i32 = 5;

pub const ROLE_BACKLOG_OUT: i32 = 6;

pub const ROLE_AUTOMODE_IN: i32 = 9;

pub const ROLE_AUTOMODE_OUT: i32 = 10;

pub const ROLE_AUTOMODE_OUT_NOCLICK: i32 = 11;

pub const ROLE_SKIP_IN: i32 = 12;

pub const ROLE_SKIP_OUT: i32 = 13;

pub const ROLE_CONTROL_SKIP: i32 = 14;

pub const ROLE_AVOID_IN: i32 = 15;

pub const ROLE_AVOID_OUT: i32 = 16;

/// The keys of each role, by ascending role.
pub struct KeyMap {
    entries: Vec<(i32, Vec<u32>)>,
}

/// The keys of a role among entries.
pub open spec fn keys_in(entries: Seq<(i32, Vec<u32>)>, role: i32) -> Option<Seq<u32>>
    decreases entries.len(),
{
    if entries.len() == 0 {
        None
    } else if entries[0].0 == role {
        Some(entries[0].1@)
    } else {
        keys_in(entries.skip(1), role)
    }
}

/// Whether a role has a key.
pub open spec fn plays(keys: Option<Seq<u32>>, key: u32) -> bool {
    keys matches Some(list) && list.contains(key)
}

proof fn lemma_keys_at(entries: Seq<(i32, Vec<u32>)>, i: int)
    requires
        0 <= i < entries.len(),
        forall|a: int, b: int| 0 <= a < b < entries.len() ==> (#[trigger] entries[a]).0 < (
        #[trigger] entries[b]).0,
    ensures
        keys_in(entries, entries[i].0) == Some(entries[i].1@),
    decreases entries.len(),
{
    if i > 0 {
        assert(entries[0].0 < entries[i].0);
        let rest = entries.skip(1);
        assert forall|a: int, b: int| 0 <= a < b < rest.len() implies (#[trigger] rest[a]).0 < (
        #[trigger] rest[b]).0 by {
            assert(entries[a + 1].0 < entries[b + 1].0);
        }
        lemma_keys_at(rest, i - 1);
    }
}

proof fn lemma_keys_absent(entries: Seq<(i32, Vec<u32>)>, role: i32)
    requires
        forall|a: int| 0 <= a < entries.len() ==> (#[trigger] entries[a]).0 != role,
    ensures
        keys_in(entries, role) is None,
    decreases entries.len(),
{
    if entries.len() > 0 {
        assert(entries[0].0 != role);
        let rest = entries.skip(1);
        assert forall|a: int| 0 <= a < rest.len() implies (#[trigger] rest[a]).0 != role by {
            assert(entries[a + 1].0 != role);
        }
        lemma_keys_absent(rest, role);
    }
}

/// Whether a list of keys holds a key.
pub fn has_key(keys: &Vec<u32>, key: u32) -> (out: bool)
    ensures
        out == keys@.contains(key),
{
    let mut i: usize = 0;
    while i < keys.len()
        invariant
            i <= keys.len(),
            forall|j: int| 0 <= j < i ==> keys@[j] != key,
        decreases keys.len() - i,
    {
        if keys[i] == key {
            return true;
        }
        i += 1;
    }
    false
}

impl KeyMap {
    pub closed spec fn entries_view(self) -> Seq<(i32, Vec<u32>)> {
        self.entries@
    }

    /// Roles ascend and none comes twice.
    pub open spec fn wf(self) -> bool {
        forall|a: int, b: int|
            0 <= a < b < self.entries_view().len() ==> (#[trigger] self.entries_view()[a]).0 < (
            #[trigger] self.entries_view()[b]).0
    }

    /// The keys of a role.
    pub open spec fn keys(self, role: i32) -> Option<Seq<u32>> {
        keys_in(self.entries_view(), role)
    }

    /// No role has keys.
    pub fn empty() -> (out: Self)
        ensures
            out.wf(),
            forall|role: i32| (#[trigger] out.keys(role)) is None,
    {
        KeyMap { entries: Vec::new() }
    }

    /// Gives a role its keys, in place of earlier ones.
    pub fn insert(&mut self, role: i32, keys: Vec<u32>)
        requires
            old(self).wf(),
        ensures
            final(self).wf(),
            forall|r: i32| #[trigger]
                final(self).keys(r) == (if r == role {
                    Some(keys@)
                } else {
                    old(self).keys(r)
                }),
    {
        let mut at: usize = 0;
        while at < self.entries.len() && self.entries[at].0 < role
            invariant
                at <= self.entries.len(),
                forall|j: int| 0 <= j < at ==> (#[trigger] self.entries@[j]).0 < role,
            decreases self.entries.len() - at,
        {
            at += 1;
        }
        let ghost before = self.entries@;
        if at < self.entries.len() && self.entries[at].0 == role {
            self.entries.set(at, (role, keys));
        } else {
            self.entries.insert(at, (role, keys));
        }
        proof {
            let after = self.entries@;
            let replaced = at < before.len() && before[at as int].0 == role;
            assert forall|a: int, b: int| 0 <= a < b < after.len() implies (#[trigger] after[a]).0
                < (#[trigger] after[b]).0 by {
                if !replaced {
                    let a2 = if a < at {
                        a
                    } else {
                        a - 1
                    };
                    let b2 = if b < at {
                        b
                    } else {
                        b - 1
                    };
                    if a != at && b != at {
                        assert(before[a2].0 < before[b2].0);
                    } else if b == at {
                        assert(before[a].0 < role);
                    } else {
                        if b2 > at {
                            assert(before[at as int].0 < before[b2].0);
                        }
                    }
                } else {
                    assert(before[a].0 < before[b].0);
                }
            }
            assert forall|r: i32| #[trigger] self.keys(r) == (if r == role {
                Some(keys@)
            } else {
                old(self).keys(r)
            }) by {
                if r == role {
                    lemma_keys_at(after, at as int);
                } else if exists|k: int| 0 <= k < before.len() && (#[trigger] before[k]).0 == r {
                    let k = choose|k: int| 0 <= k < before.len() && (#[trigger] before[k]).0 == r;
                    lemma_keys_at(before, k);
                    let k2 = if replaced || k < at {
                        k
                    } else {
                        k + 1
                    };
                    assert(after[k2] == before[k]);
                    lemma_keys_at(after, k2);
                } else {
                    lemma_keys_absent(before, r);
                    assert forall|a: int| 0 <= a < after.len() implies (#[trigger] after[a]).0
                        != r by {
                        if a != at {
                            let a2 = if replaced || a < at {
                                a
                            } else {
                                a - 1
                            };
                            assert(after[a] == before[a2]);
                        }
                    }
                    lemma_keys_absent(after, r);
                }
            }
        }
    }

    /// The keys as assigned by default: Enter advances, Space hides, Up opens
    /// the backlog, A starts auto mode, Shift toggles skipping and Ctrl skips
    /// while it is held.
    pub fn default_keymap() -> (out: Self)
        ensures
            out.wf(),
            forall|role: i32| #[trigger] out.keys(role) == default_keys(role),
    {
        let mut out = KeyMap::empty();
        out.insert(ROLE_ADVANCE, vec![13]);
        out.insert(ROLE_HIDE_IN, vec![32]);
        out.insert(ROLE_HIDE_OUT, vec![32]);
        out.insert(ROLE_BACKLOG_IN, vec![38]);
        out.insert(ROLE_AUTOMODE_IN, vec![65]);
        out.insert(ROLE_SKIP_IN, vec![16]);
        out.insert(ROLE_SKIP_OUT, vec![16]);
        out.insert(ROLE_CONTROL_SKIP, vec![17]);
        out
    }

    /// Whether a role has a key.
    pub fn role_has_key(&self, role: i32, key: u32) -> (out: bool)
        requires
            self.wf(),
        ensures
            out == plays(self.keys(role), key),
    {
        let mut i: usize = 0;
        while i < self.entries.len()
            invariant
                i <= self.entries.len(),
                self.wf(),
                forall|j: int| 0 <= j < i ==> (#[trigger] self.entries@[j]).0 != role,
            decreases self.entries.len() - i,
        {
            if self.entries[i].0 == role {
                proof {
                    lemma_keys_at(self.entries@, i as int);
                }
                return has_key(&self.entries[i].1, key);
            }
            i += 1;
        }
        proof {
            lemma_keys_absent(self.entries@, role);
        }
        false
    }

    /// Whether a role has one of the keys that are held.
    pub fn role_is_held(&self, role: i32, held: &Vec<u32>) -> (out: bool)
        requires
            self.wf(),
        ensures
            out == (exists|key: u32| plays(self.keys(role), key) && #[trigger] held@.contains(key)),
    {
        let mut i: usize = 0;
        while i < held.len()
            invariant
                i <= held.len(),
                self.wf(),
                forall|j: int| 0 <= j < i ==> !plays(self.keys(role), #[trigger] held@[j]),
            decreases held.len() - i,
        {
            if self.role_has_key(role, held[i]) {
                assert(held@.contains(held@[i as int]));
                return true;
            }
            i += 1;
        }
        false
    }

    /// The roles of a key, ascending.
    pub fn roles_for_key(&self, key: u32) -> (out: Vec<i32>)
        requires
            self.wf(),
        ensures
            forall|a: int, b: int| 0 <= a < b < out@.len() ==> out@[a] < out@[b],
            forall|role: i32| #[trigger] out@.contains(role) == plays(self.keys(role), key),
    {
        let mut out: Vec<i32> = Vec::new();
        let mut i: usize = 0;
        let ghost entries = self.entries_view();
        while i < self.entries.len()
            invariant
                i <= entries.len(),
                entries == self.entries@,
                self.wf(),
                entries == self.entries_view(),
                forall|a: int, b: int| 0 <= a < b < out@.len() ==> out@[a] < out@[b],
                forall|a: int|
                    0 <= a < out@.len() ==> role_before(entries, i as int, #[trigger] out@[a], key),
                forall|role: i32|
                    role_before(entries, i as int, role, key) ==> #[trigger] out@.contains(role),
            decreases entries.len() - i,
        {
            let ghost before = out@;
            if has_key(&self.entries[i].1, key) {
                let role: i32 = self.entries[i].0;
                out.push(role);
                proof {
                    assert forall|a: int, b: int| 0 <= a < b < out@.len() implies out@[a]
                        < out@[b] by {
                        if b == before.len() {
                            assert(role_before(entries, i as int, before[a], key));
                            let k = choose|k: int|
                                0 <= k < i && (#[trigger] entries[k]).0 == before[a]
                                    && entries[k].1@.contains(key);
                            assert(entries[k].0 < entries[i as int].0);
                        }
                    }
                    assert(entries[i as int].0 == role);
                    assert(out@[before.len() as int] == role);
                }
            }
            proof {
                assert forall|a: int| 0 <= a < out@.len() implies role_before(
                    entries,
                    i + 1,
                    #[trigger] out@[a],
                    key,
                ) by {
                    if a < before.len() {
                        assert(role_before(entries, i as int, before[a], key));
                        let k = choose|k: int|
                            0 <= k < i && (#[trigger] entries[k]).0 == before[a]
                                && entries[k].1@.contains(key);
                        assert(entries[k].0 == out@[a]);
                    }
                }
                assert forall|role: i32| role_before(
                    entries,
                    i + 1,
                    role,
                    key,
                ) implies #[trigger] out@.contains(role) by {
                    let k = choose|k: int|
                        0 <= k < i + 1 && (#[trigger] entries[k]).0 == role
                            && entries[k].1@.contains(key);
                    if k < i {
                        assert(role_before(entries, i as int, role, key));
                        assert(before.contains(role));
                        let m = choose|m: int| 0 <= m < before.len() && before[m] == role;
                        assert(out@[m] == role);
                    }
                }
            }
            i += 1;
        }
        proof {
            assert forall|role: i32| #[trigger] out@.contains(role) == plays(
                self.keys(role),
                key,
            ) by {
                if out@.contains(role) {
                    let a = choose|a: int| 0 <= a < out@.len() && out@[a] == role;
                    assert(role_before(entries, i as int, out@[a], key));
                    let k = choose|k: int|
                        0 <= k < i && (#[trigger] entries[k]).0 == role
                            && entries[k].1@.contains(key);
                    lemma_keys_at(entries, k);
                }
                if exists|k: int| 0 <= k < entries.len() && (#[trigger] entries[k]).0 == role {
                    let k = choose|k: int|
                        0 <= k < entries.len() && (#[trigger] entries[k]).0 == role;
                    lemma_keys_at(entries, k);
                    if entries[k].1@.contains(key) {
                        assert(role_before(entries, i as int, role, key));
                    }
                } else {
                    lemma_keys_absent(entries, role);
                }
            }
        }
        out
    }
}

/// Whether one of the first `n` entries gives a role a key.
spec fn role_before(entries: Seq<(i32, Vec<u32>)>, n: int, role: i32, key: u32) -> bool {
    exists|k: int| 0 <= k < n && (#[trigger] entries[k]).0 == role && entries[k].1@.contains(key)
}

/// The keys that a role has by default.
pub open spec fn default_keys(role: i32) -> Option<Seq<u32>> {
    if role == ROLE_ADVANCE {
        Some(seq![13u32])
    } else if role == ROLE_HIDE_IN || role == ROLE_HIDE_OUT {
        Some(seq![32u32])
    } else if role == ROLE_BACKLOG_IN {
        Some(seq![38u32])
    } else if role == ROLE_AUTOMODE_IN {
        Some(seq![65u32])
    } else if role == ROLE_SKIP_IN || role == ROLE_SKIP_OUT {
        Some(seq![16u32])
    } else if role == ROLE_CONTROL_SKIP {
        Some(seq![17u32])
    } else {
        None
    }
}

// ── Reading a key configuration ────────────────────────────────

/// Whether a character separates the keys of a list.
pub open spec fn separates(c: char) -> bool {
    c == ',' || is_white(c)
}

/// The length of the first word of `s`, up to a separator.
pub open spec fn word_len(s: Seq<char>) -> int
    decreases s.len(),
{
    if s.len() == 0 || separates(s[0]) {
        0
    } else {
        1 + word_len(s.skip(1))
    }
}

proof fn lemma_word_len(s: Seq<char>)
    ensures
        0 <= word_len(s) <= s.len(),
    decreases s.len(),
{
    if s.len() > 0 && !separates(s[0]) {
        lemma_word_len(s.skip(1));
    }
}

proof fn lemma_word_len_is(s: Seq<char>, n: int)
    requires
        0 <= n <= s.len(),
        n < s.len() ==> separates(s[n]),
        forall|j: int| 0 <= j < n ==> !separates(s[j]),
    ensures
        word_len(s) == n,
    decreases n,
{
    if n > 0 {
        lemma_word_len_is(s.skip(1), n - 1);
    }
}

/// The number that a word of a key list stands for.
pub open spec fn key_number(word: Seq<char>) -> Option<u32> {
    match decimal(word) {
        Some(n) if n <= u32::MAX => Some(n as u32),
        _ => None,
    }
}

/// The keys of a list: the numbers among its words.
pub open spec fn key_list(s: Seq<char>) -> Seq<u32>
    decreases s.len(),
{
    let n = word_len(s);
    let first = match key_number(s.take(n)) {
        Some(key) => seq![key],
        None => Seq::empty(),
    };
    if 0 <= n < s.len() {
        first + key_list(s.skip(n + 1))
    } else {
        first
    }
}

fn parse_keys(raw: &str) -> (out: Vec<u32>)
    ensures
        out@ == key_list(raw@),
{
    let chars = chars_of(raw);
    let mut out: Vec<u32> = Vec::new();
    let mut from: usize = 0;
    assert(chars@.skip(0) =~= raw@);
    assert(out@ + key_list(raw@) =~= key_list(raw@));
    loop
        invariant
            from <= chars.len(),
            chars@ == raw@,
            out@ + key_list(chars@.skip(from as int)) == key_list(raw@),
        decreases chars.len() - from,
    {
        let mut at: usize = from;
        while at < chars.len() && chars[at] != ',' && !white(chars[at])
            invariant
                from <= at <= chars.len(),
                forall|j: int| from <= j < at ==> !separates(chars@[j]),
            decreases chars.len() - at,
        {
            at += 1;
        }
        let ghost rest = chars@.skip(from as int);
        let word = string_of_range(&chars, from, at);
        let ghost before = out@;
        proof {
            lemma_word_len_is(rest, at - from);
            assert(word@ =~= rest.take(at - from));
            if at < chars.len() {
                assert(rest.skip(at - from + 1) =~= chars@.skip(at + 1));
            }
        }
        if let Some(key) = parse_u32(word.as_str()) {
            out.push(key);
            assert(out@ =~= before + seq![key]);
        }
        if at == chars.len() {
            proof {
                assert(out@ =~= before + key_list(rest));
            }
            return out;
        }
        proof {
            assert(out@ + key_list(chars@.skip(at + 1)) =~= before + key_list(rest));
        }
        from = at + 1;
    }
}

/// The role and keys that the parameters of a key configuration stand for.
/// Without a list of keys the role has none; without a number for the role the
/// parameters are invalid.
pub open spec fn keyconfig(params: Map<Seq<char>, Seq<char>>) -> Option<(i32, Seq<u32>)> {
    if !params.contains_key("role"@) {
        None
    } else {
        match signed_decimal(trim(params["role"@])) {
            Some(n) if i32::MIN <= n <= i32::MAX => Some(
                (
                    n as i32,
                    if params.contains_key("keys"@) {
                        key_list(params["keys"@])
                    } else {
                        Seq::empty()
                    },
                ),
            ),
            _ => None,
        }
    }
}

/// Reads the parameters of a key configuration.
pub fn parse_keyconfig(params: &NameMap<String>) -> (out: Option<(i32, Vec<u32>)>)
    ensures
        match keyconfig(text_map(*params)) {
            Some((role, keys)) => out matches Some(found) && found.0 == role && found.1@ == keys,
            None => out is None,
        },
{
    let role_text = match params.get("role") {
        Some(text) => trimmed(text.as_str()),
        None => {
            return None;
        },
    };
    let role: i32 = match parse_i32(role_text.as_str()) {
        Some(role) => role,
        None => {
            return None;
        },
    };
    let keys = match params.get("keys") {
        Some(raw) => parse_keys(raw.as_str()),
        None => Vec::new(),
    };
    Some((role, keys))
}

// ── What holds of keys and roles ───────────────────────────────

/// The roles have their numbers, and the keys that they have at the start: Enter
/// goes on, the space bar hides and shows, the arrow up opens the pages that were
/// read, A begins auto mode, Shift skips and stops, and Ctrl skips while it is
/// held. No other role has a key.
pub proof fn law_roles_have_their_first_keys(role: i32)
    ensures
        default_keys(role) == (if role == 0 {
            Some(seq![13u32])
        } else if role == 3 || role == 4 {
            Some(seq![32u32])
        } else if role == 5 {
            Some(seq![38u32])
        } else if role == 9 {
            Some(seq![65u32])
        } else if role == 12 || role == 13 {
            Some(seq![16u32])
        } else if role == 14 {
            Some(seq![17u32])
        } else {
            None
        }),
        ROLE_BACKLOG_OUT == 6 && ROLE_AUTOMODE_OUT == 10 && ROLE_AUTOMODE_OUT_NOCLICK == 11,
        ROLE_AVOID_IN == 15 && ROLE_AVOID_OUT == 16,
{
}

/// A role has a key where its keys hold it.
pub proof fn law_roles_have_keys(keys: Option<Seq<u32>>, key: u32)
    ensures
        plays(keys, key) <==> keys is Some && keys->0.contains(key),
{
}

/// Commas and white space part the keys of a list. The first key is read, and the
/// rest of the list after it; what is no number of 32 bits is passed over.
pub proof fn law_keys_are_listed(word: Seq<char>, sep: char, rest: Seq<char>, n: u32)
    requires
        sep == ',' || is_white(sep),
        forall|i: int| 0 <= i < word.len() ==> (#[trigger] word[i]) != ',' && !is_white(word[i]),
    ensures
        key_number(word) is None ==> key_list(word.push(sep) + rest) == key_list(rest)
            && key_list(word).len() == 0,
        key_number(word) matches Some(key) ==> key_list(word.push(sep) + rest) == seq![key]
            + key_list(rest) && key_list(word) == seq![key],
        key_number(crate::strs::decimal_text(n as nat)) == Some(n),
        key_number(word) matches Some(key) ==> decimal(word) == Some(key as nat),
{
    let whole = word.push(sep) + rest;
    assert(whole.take(word.len() as int) =~= word);
    assert(whole.skip(word.len() as int + 1) =~= rest);
    assert(word.take(word.len() as int) =~= word);
    lemma_word_ends(word, whole);
    lemma_word_ends(word, word);
    assert(Seq::<u32>::empty() + key_list(rest) =~= key_list(rest));
    crate::strs::law_numbers_read_back(n as nat, word, 0);
}

proof fn lemma_word_ends(word: Seq<char>, s: Seq<char>)
    requires
        word.len() <= s.len(),
        s.take(word.len() as int) == word,
        s.len() > word.len() ==> separates(s[word.len() as int]),
        forall|i: int| 0 <= i < word.len() ==> (#[trigger] word[i]) != ',' && !is_white(word[i]),
    ensures
        word_len(s) == word.len(),
    decreases word.len(),
{
    if word.len() > 0 {
        assert(s.take(word.len() as int)[0] == s[0]);
        let rest = word.skip(1);
        assert(s.skip(1).take(rest.len() as int) =~= rest) by {
            assert(s.take(word.len() as int).skip(1) =~= s.skip(1).take(rest.len() as int));
        }
        assert forall|i: int| 0 <= i < rest.len() implies (#[trigger] rest[i]) != ',' && !is_white(
            rest[i],
        ) by {
            assert(rest[i] == word[i + 1]);
        }
        lemma_word_ends(rest, s.skip(1));
        assert(!separates(word[0]));
    }
}

/// A setting of keys names its role by a number of 32 bits, with or without a sign
/// and white space; without a valid role there is none. Without keys the role has
/// no key.
pub proof fn law_key_settings_name_a_role(params: Map<Seq<char>, Seq<char>>)
    ensures
        !params.contains_key("role"@) ==> keyconfig(params) is None,
        params.contains_key("role"@) ==> ({
            let read = signed_decimal(trim(params["role"@]));
            let valid = read is Some && i32::MIN <= read->0 <= i32::MAX;
            &&& keyconfig(params) is Some <==> valid
            &&& keyconfig(params) matches Some((role, keys)) ==> role == read->0 && (
            params.contains_key("keys"@) ==> keys == key_list(params["keys"@])) && (
            !params.contains_key("keys"@) ==> keys.len() == 0)
        }),
{
}

} // verus!
