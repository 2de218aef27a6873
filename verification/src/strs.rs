//! Character-level text helpers and their mathematical models.
//!
//! Text is modelled as `Seq<char>`. Each executable helper states its result
//! as a function of the characters it was given.
use vstd::prelude::*;
use vstd::string::*;

verus! {

/// Appends one character to a string.
///
/// Calls `String::push`: the string keeps its characters and gains `c` at the
/// end.
#[verifier::external_body]
pub(crate) fn push_char(text: &mut String, c: char)
    ensures
        final(text)@ == old(text)@.push(c),
{
    text.push(c);
}

/// The characters of `text`, in order.
pub fn chars_of(text: &str) -> (out: Vec<char>)
    ensures
        out@ == text@,
{
    let mut out: Vec<char> = Vec::new();
    for c in iter: text.chars()
        invariant
            out@ == iter.seq().take(iter.index() as int),
            iter.seq() == text@,
    {
        out.push(c);
        proof {
            assert(out@ =~= iter.seq().take(iter.index() as int + 1));
        }
    }
    out
}

/// The string made of `chars[from..to]`.
pub fn string_of_range(chars: &Vec<char>, from: usize, to: usize) -> (out: String)
    requires
        from <= to <= chars.len(),
    ensures
        out@ == chars@.subrange(from as int, to as int),
{
    let mut out = String::new();
    let mut i: usize = from;
    while i < to
        invariant
            from <= i <= to <= chars.len(),
            out@ == chars@.subrange(from as int, i as int),
        decreases to - i,
    {
        push_char(&mut out, chars[i]);
        i += 1;
        assert(out@ =~= chars@.subrange(from as int, i as int));
    }
    out
}

/// The views of a sequence of strings.
pub open spec fn texts(parts: Seq<String>) -> Seq<Seq<char>> {
    Seq::new(parts.len(), |i: int| parts[i]@)
}

pub proof fn lemma_texts_push(parts: Seq<String>, s: String)
    ensures
        texts(parts.push(s)) == texts(parts).push(s@),
{
    assert(texts(parts.push(s)) =~= texts(parts).push(s@));
}

/// An independent copy of a string.
pub fn copy_text(text: &str) -> (out: String)
    ensures
        out@ == text@,
{
    text.to_owned()
}

/// The view of an optional string.
pub open spec fn opt_text(text: Option<String>) -> Option<Seq<char>> {
    match text {
        Some(t) => Some(t@),
        None => None,
    }
}

/// An independent copy of an optional string.
pub fn copy_opt(text: &Option<String>) -> (out: Option<String>)
    ensures
        opt_text(out) == opt_text(*text),
{
    match text {
        Some(t) => Some(copy_text(t.as_str())),
        None => None,
    }
}

/// An independent copy of a list of strings.
pub fn copy_texts(parts: &Vec<String>) -> (out: Vec<String>)
    ensures
        texts(out@) == texts(parts@),
{
    let mut out: Vec<String> = Vec::new();
    let mut i: usize = 0;
    while i < parts.len()
        invariant
            i <= parts.len(),
            out@.len() == i,
            forall|j: int| 0 <= j < i ==> (#[trigger] out@[j])@ == parts@[j]@,
        decreases parts.len() - i,
    {
        out.push(copy_text(parts[i].as_str()));
        i += 1;
    }
    assert(texts(out@) =~= texts(parts@));
    out
}

/// An independent copy of bytes.
pub fn copy_bytes(bytes: &[u8]) -> (out: Vec<u8>)
    ensures
        out@ == bytes@,
{
    let mut out: Vec<u8> = Vec::new();
    let mut i: usize = 0;
    while i < bytes.len()
        invariant
            i <= bytes.len(),
            out@ == bytes@.take(i as int),
        decreases bytes.len() - i,
    {
        out.push(bytes[i]);
        i += 1;
        assert(out@ =~= bytes@.take(i as int));
    }
    assert(out@ =~= bytes@);
    out
}

/// The concatenation of two strings.
pub fn concat(a: &str, b: &str) -> (out: String)
    ensures
        out@ == a@ + b@,
{
    let mut out = a.to_owned();
    out.append(b);
    out
}

/// Whether two strings hold the same characters.
pub fn same_text(a: &str, b: &str) -> (out: bool)
    ensures
        out == (a@ == b@),
{
    let x = chars_of(a);
    let y = chars_of(b);
    if x.len() != y.len() {
        return false;
    }
    let mut i: usize = 0;
    while i < x.len()
        invariant
            i <= x.len(),
            x.len() == y.len(),
            x@ == a@,
            y@ == b@,
            forall|j: int| 0 <= j < i ==> x@[j] == y@[j],
        decreases x.len() - i,
    {
        if x[i] != y[i] {
            return false;
        }
        i += 1;
    }
    assert(x@ =~= y@);
    true
}

// ── Letter case ────────────────────────────────────────────────

/// The ASCII lower-case form of a character.
pub open spec fn lower_char(c: char) -> char {
    if 'A' <= c <= 'Z' {
        ((c as u8) + 32) as char
    } else {
        c
    }
}

/// The ASCII upper-case form of a character.
pub open spec fn upper_char(c: char) -> char {
    if 'a' <= c <= 'z' {
        ((c as u8) - 32) as char
    } else {
        c
    }
}

/// `s` with every ASCII capital replaced by its lower-case letter.
pub open spec fn lower(s: Seq<char>) -> Seq<char> {
    Seq::new(s.len(), |i: int| lower_char(s[i]))
}

/// `s` with every ASCII small letter replaced by its capital.
pub open spec fn upper(s: Seq<char>) -> Seq<char> {
    Seq::new(s.len(), |i: int| upper_char(s[i]))
}

pub fn to_lower(text: &str) -> (out: String)
    ensures
        out@ == lower(text@),
{
    let chars = chars_of(text);
    let mut out = String::new();
    let mut i: usize = 0;
    while i < chars.len()
        invariant
            i <= chars.len(),
            chars@ == text@,
            out@ == lower(text@).take(i as int),
        decreases chars.len() - i,
    {
        let c = chars[i];
        let d = if 'A' <= c && c <= 'Z' {
            ((c as u8) + 32) as char
        } else {
            c
        };
        push_char(&mut out, d);
        i += 1;
        assert(out@ =~= lower(text@).take(i as int));
    }
    assert(lower(text@).take(i as int) =~= lower(text@));
    out
}

pub fn to_upper(text: &str) -> (out: String)
    ensures
        out@ == upper(text@),
{
    let chars = chars_of(text);
    let mut out = String::new();
    let mut i: usize = 0;
    while i < chars.len()
        invariant
            i <= chars.len(),
            chars@ == text@,
            out@ == upper(text@).take(i as int),
        decreases chars.len() - i,
    {
        let c = chars[i];
        let d = if 'a' <= c && c <= 'z' {
            ((c as u8) - 32) as char
        } else {
            c
        };
        push_char(&mut out, d);
        i += 1;
        assert(out@ =~= upper(text@).take(i as int));
    }
    assert(upper(text@).take(i as int) =~= upper(text@));
    out
}

/// Lower-casing twice is lower-casing once.
pub proof fn lemma_lower_idempotent(s: Seq<char>)
    ensures
        lower(lower(s)) == lower(s),
{
    assert forall|i: int| 0 <= i < s.len() implies lower_char(lower_char(s[i])) == lower_char(
        s[i],
    ) by {
        lemma_lower_char(s[i]);
    }
    assert(lower(lower(s)) =~= lower(s));
}

pub proof fn lemma_lower_char(c: char)
    ensures
        lower_char(lower_char(c)) == lower_char(c),
        lower_char(c) == '/' <==> c == '/',
        lower_char(c) == '.' <==> c == '.',
        lower_char(c) == '\\' <==> c == '\\',
{
    if 'A' <= c <= 'Z' {
        let b = ((c as u8) + 32) as char;
        assert(b as u32 == c as u32 + 32);
    }
}

// ── White space ────────────────────────────────────────────────

/// The characters with the Unicode `White_Space` property.
pub open spec fn is_white(c: char) -> bool {
    let n = c as u32;
    ||| 9 <= n <= 13
    ||| n == 0x20
    ||| n == 0x85
    ||| n == 0xA0
    ||| n == 0x1680
    ||| 0x2000 <= n <= 0x200A
    ||| n == 0x2028
    ||| n == 0x2029
    ||| n == 0x202F
    ||| n == 0x205F
    ||| n == 0x3000
}

pub fn white(c: char) -> (out: bool)
    ensures
        out == is_white(c),
{
    let n: u32 = c as u32;
    (9 <= n && n <= 13) || n == 0x20 || n == 0x85 || n == 0xA0 || n == 0x1680 || (0x2000 <= n && n
        <= 0x200A) || n == 0x2028 || n == 0x2029 || n == 0x202F || n == 0x205F || n == 0x3000
}

/// `s` without its leading white space.
pub open spec fn trim_start(s: Seq<char>) -> Seq<char>
    decreases s.len(),
{
    if s.len() > 0 && is_white(s[0]) {
        trim_start(s.skip(1))
    } else {
        s
    }
}

/// `s` without its trailing white space.
pub open spec fn trim_end(s: Seq<char>) -> Seq<char>
    decreases s.len(),
{
    if s.len() > 0 && is_white(s.last()) {
        trim_end(s.drop_last())
    } else {
        s
    }
}

/// `s` without white space at either end.
pub open spec fn trim(s: Seq<char>) -> Seq<char> {
    trim_end(trim_start(s))
}

pub fn trimmed(text: &str) -> (out: String)
    ensures
        out@ == trim(text@),
{
    let chars = chars_of(text);
    let mut from: usize = 0;
    assert(chars@.skip(0) =~= text@);
    while from < chars.len() && white(chars[from])
        invariant
            from <= chars.len(),
            chars@ == text@,
            trim_start(chars@.skip(from as int)) == trim_start(text@),
        decreases chars.len() - from,
    {
        proof {
            assert(chars@.skip(from as int)[0] == chars@[from as int]);
            assert(chars@.skip(from as int).skip(1) =~= chars@.skip(from as int + 1));
        }
        from += 1;
    }
    proof {
        if from < chars.len() {
            assert(chars@.skip(from as int)[0] == chars@[from as int]);
        }
        assert(trim_start(text@) == chars@.skip(from as int));
    }
    let mut to: usize = chars.len();
    proof {
        assert(chars@.subrange(from as int, to as int) =~= chars@.skip(from as int));
    }
    while from < to && white(chars[to - 1])
        invariant
            from <= to <= chars.len(),
            chars@ == text@,
            trim_end(chars@.subrange(from as int, to as int)) == trim(text@),
        decreases to - from,
    {
        proof {
            let s = chars@.subrange(from as int, to as int);
            assert(s.last() == chars@[to - 1]);
            assert(s.drop_last() =~= chars@.subrange(from as int, to - 1));
        }
        to -= 1;
    }
    proof {
        let s = chars@.subrange(from as int, to as int);
        if from < to {
            assert(s.last() == chars@[to - 1]);
        }
        assert(trim_end(s) == s);
    }
    string_of_range(&chars, from, to)
}

/// What trimming leaves: a piece of the text with no white space at its ends.
pub proof fn lemma_trim(s: Seq<char>)
    ensures
        trim(s).len() <= s.len(),
        trim(s).len() > 0 ==> !is_white(trim(s)[0]) && !is_white(trim(s).last()),
        exists|from: int| 0 <= from <= s.len() - trim(s).len() && trim(s) == #[trigger] s.subrange(
            from,
            from + trim(s).len(),
        ),
{
    lemma_trim_start(s);
    lemma_trim_end(trim_start(s));
    let a = trim_start(s);
    let from = s.len() - a.len();
    assert(trim(s) =~= s.subrange(from, from + trim(s).len()));
}

proof fn lemma_trim_start(s: Seq<char>)
    ensures
        trim_start(s).len() <= s.len(),
        trim_start(s) == s.skip(s.len() - trim_start(s).len()),
        trim_start(s).len() > 0 ==> !is_white(trim_start(s)[0]),
    decreases s.len(),
{
    if s.len() > 0 && is_white(s[0]) {
        lemma_trim_start(s.skip(1));
        let k = s.skip(1).len() - trim_start(s.skip(1)).len();
        assert(s.skip(1).skip(k) =~= s.skip(k + 1));
    } else {
        assert(s.skip(0) =~= s);
    }
}

proof fn lemma_trim_end(s: Seq<char>)
    ensures
        trim_end(s).len() <= s.len(),
        trim_end(s) == s.take(trim_end(s).len() as int),
        trim_end(s).len() > 0 ==> !is_white(trim_end(s).last()),
    decreases s.len(),
{
    if s.len() > 0 && is_white(s.last()) {
        lemma_trim_end(s.drop_last());
        let k = trim_end(s.drop_last()).len() as int;
        assert(s.drop_last().take(k) =~= s.take(k));
    } else {
        assert(s.take(s.len() as int) =~= s);
    }
}

/// Trimming a trimmed text changes nothing.
pub proof fn lemma_trim_idempotent(s: Seq<char>)
    ensures
        trim(trim(s)) == trim(s),
{
    lemma_trim(s);
    let t = trim(s);
    assert(trim_start(t) == t);
    assert(trim_end(t) == t);
}

// ── Searching and splitting ────────────────────────────────────

/// The place of the first `c` in `s`, or `s.len()` where there is none.
pub open spec fn find(s: Seq<char>, c: char) -> int
    decreases s.len(),
{
    if s.len() == 0 || s[0] == c {
        0
    } else {
        1 + find(s.skip(1), c)
    }
}

pub proof fn lemma_find(s: Seq<char>, c: char)
    ensures
        0 <= find(s, c) <= s.len(),
        find(s, c) < s.len() ==> s[find(s, c)] == c,
        forall|j: int| 0 <= j < find(s, c) ==> s[j] != c,
    decreases s.len(),
{
    if s.len() > 0 && s[0] != c {
        lemma_find(s.skip(1), c);
        assert forall|j: int| 0 <= j < find(s, c) implies s[j] != c by {
            if j > 0 {
                assert(s.skip(1)[j - 1] == s[j]);
            }
        }
    }
}

pub proof fn lemma_find_is(s: Seq<char>, c: char, at: int)
    requires
        0 <= at <= s.len(),
        at < s.len() ==> s[at] == c,
        forall|j: int| 0 <= j < at ==> s[j] != c,
    ensures
        find(s, c) == at,
{
    lemma_find(s, c);
    if find(s, c) < at {
        assert(s[find(s, c)] != c);
    }
}

/// The place of the first `c` at or behind `from`, or the length.
pub fn find_from(chars: &Vec<char>, from: usize, c: char) -> (at: usize)
    requires
        from <= chars.len(),
    ensures
        from <= at <= chars.len(),
        at - from == find(chars@.skip(from as int), c),
        at < chars.len() ==> chars@[at as int] == c,
        forall|j: int| from <= j < at ==> chars@[j] != c,
{
    let mut at: usize = from;
    while at < chars.len() && chars[at] != c
        invariant
            from <= at <= chars.len(),
            forall|j: int| from <= j < at ==> chars@[j] != c,
        decreases chars.len() - at,
    {
        at += 1;
    }
    proof {
        let s = chars@.skip(from as int);
        lemma_find_is(s, c, at - from);
    }
    at
}

/// Whether `c` occurs in `text`.
pub fn has_char(text: &str, c: char) -> (out: bool)
    ensures
        out == text@.contains(c),
{
    let chars = chars_of(text);
    let at = find_from(&chars, 0, c);
    at < chars.len()
}

/// The pieces of `s` between the occurrences of `sep`.
pub open spec fn split(s: Seq<char>, sep: char) -> Seq<Seq<char>>
    decreases s.len(),
{
    let at = find(s, sep);
    if 0 <= at < s.len() {
        seq![s.take(at)] + split(s.skip(at + 1), sep)
    } else {
        seq![s]
    }
}

pub fn split_text(text: &str, sep: char) -> (out: Vec<String>)
    ensures
        texts(out@) == split(text@, sep),
{
    let chars = chars_of(text);
    let mut out: Vec<String> = Vec::new();
    let mut from: usize = 0;
    assert(chars@.skip(0) =~= text@);
    assert(texts(out@) + split(text@, sep) =~= split(text@, sep));
    loop
        invariant
            from <= chars.len(),
            chars@ == text@,
            texts(out@) + split(chars@.skip(from as int), sep) == split(text@, sep),
        decreases chars.len() - from,
    {
        let at = find_from(&chars, from, sep);
        let piece = string_of_range(&chars, from, at);
        let ghost rest = chars@.skip(from as int);
        let ghost before = texts(out@);
        proof {
            lemma_find(rest, sep);
            lemma_texts_push(out@, piece);
            assert(piece@ =~= rest.take(at - from));
        }
        out.push(piece);
        if at == chars.len() {
            proof {
                assert(rest.take(at - from) =~= rest);
                assert(texts(out@) =~= before + seq![rest]);
            }
            return out;
        }
        proof {
            assert(rest.skip(at - from + 1) =~= chars@.skip(at + 1));
            assert(texts(out@) + split(chars@.skip(at + 1), sep) =~= before + (seq![
                rest.take(at - from),
            ] + split(chars@.skip(at + 1), sep)));
        }
        from = at + 1;
    }
}

/// The pieces of `s` joined with `sep` between them.
pub open spec fn join(parts: Seq<Seq<char>>, sep: char) -> Seq<char>
    decreases parts.len(),
{
    if parts.len() == 0 {
        Seq::empty()
    } else if parts.len() == 1 {
        parts[0]
    } else {
        join(parts.drop_last(), sep).push(sep) + parts.last()
    }
}

pub fn join_text(parts: &Vec<String>, sep: char) -> (out: String)
    ensures
        out@ == join(texts(parts@), sep),
{
    let mut out = String::new();
    let mut i: usize = 0;
    while i < parts.len()
        invariant
            i <= parts.len(),
            out@ == join(texts(parts@).take(i as int), sep),
        decreases parts.len() - i,
    {
        let ghost t = texts(parts@);
        proof {
            assert(t.take(i + 1).drop_last() =~= t.take(i as int));
            assert(t.take(i + 1).last() == parts@[i as int]@);
        }
        if i > 0 {
            push_char(&mut out, sep);
        }
        out.append(parts[i].as_str());
        proof {
            if i == 0 {
                assert(out@ =~= parts@[0]@);
            }
        }
        i += 1;
    }
    assert(texts(parts@).take(i as int) =~= texts(parts@));
    out
}

/// `s` with every `from` replaced by `to`.
pub open spec fn replace(s: Seq<char>, from: char, to: char) -> Seq<char> {
    Seq::new(
        s.len(),
        |i: int|
            if s[i] == from {
                to
            } else {
                s[i]
            },
    )
}

pub fn replace_char(text: &str, from: char, to: char) -> (out: String)
    ensures
        out@ == replace(text@, from, to),
{
    let chars = chars_of(text);
    let mut out = String::new();
    let mut i: usize = 0;
    while i < chars.len()
        invariant
            i <= chars.len(),
            chars@ == text@,
            out@ == replace(text@, from, to).take(i as int),
        decreases chars.len() - i,
    {
        let c = chars[i];
        push_char(
            &mut out,
            if c == from {
                to
            } else {
                c
            },
        );
        i += 1;
        assert(out@ =~= replace(text@, from, to).take(i as int));
    }
    assert(replace(text@, from, to).take(i as int) =~= replace(text@, from, to));
    out
}

/// The lines of `s`: pieces ended by a line feed, without the line feed and
/// one carriage return before it. A last line needs no line feed.
pub open spec fn lines(s: Seq<char>) -> Seq<Seq<char>>
    decreases s.len(),
{
    let at = find(s, '\n');
    if s.len() == 0 {
        Seq::empty()
    } else if 0 <= at < s.len() {
        seq![without_return(s.take(at))] + lines(s.skip(at + 1))
    } else {
        seq![s]
    }
}

/// `s` without one carriage return at its end.
pub open spec fn without_return(s: Seq<char>) -> Seq<char> {
    if s.len() > 0 && s.last() == '\r' {
        s.drop_last()
    } else {
        s
    }
}

pub fn split_lines(text: &str) -> (out: Vec<String>)
    ensures
        texts(out@) == lines(text@),
{
    let chars = chars_of(text);
    let mut out: Vec<String> = Vec::new();
    let mut from: usize = 0;
    assert(chars@.skip(0) =~= text@);
    assert(texts(out@) + lines(text@) =~= lines(text@));
    while from < chars.len()
        invariant
            from <= chars.len(),
            chars@ == text@,
            texts(out@) + lines(chars@.skip(from as int)) == lines(text@),
        decreases chars.len() - from,
    {
        let at = find_from(&chars, from, '\n');
        let ghost rest = chars@.skip(from as int);
        let ghost before = texts(out@);
        proof {
            lemma_find(rest, '\n');
        }
        if at == chars.len() {
            let piece = string_of_range(&chars, from, at);
            proof {
                lemma_texts_push(out@, piece);
                assert(piece@ =~= rest);
            }
            out.push(piece);
            proof {
                assert(texts(out@) =~= before + seq![rest]);
            }
            return out;
        }
        let to = if at > from && chars[at - 1] == '\r' {
            at - 1
        } else {
            at
        };
        let piece = string_of_range(&chars, from, to);
        proof {
            let line = rest.take(at - from);
            if at > from {
                assert(line.last() == chars@[at - 1]);
            }
            assert(piece@ =~= without_return(line));
            lemma_texts_push(out@, piece);
            assert(rest.skip(at - from + 1) =~= chars@.skip(at + 1));
        }
        out.push(piece);
        proof {
            assert(texts(out@) + lines(chars@.skip(at + 1)) =~= before + (seq![
                without_return(rest.take(at - from)),
            ] + lines(chars@.skip(at + 1))));
        }
        from = at + 1;
    }
    assert(chars@.skip(from as int) =~= Seq::empty());
    assert(texts(out@) + lines(chars@.skip(from as int)) =~= texts(out@));
    out
}

// ── One character at both ends ─────────────────────────────────

/// A text without a character at its start.
pub open spec fn strip_start(s: Seq<char>, c: char) -> Seq<char>
    decreases s.len(),
{
    if s.len() > 0 && s[0] == c {
        strip_start(s.skip(1), c)
    } else {
        s
    }
}

/// A text without a character at its end.
pub open spec fn strip_end(s: Seq<char>, c: char) -> Seq<char>
    decreases s.len(),
{
    if s.len() > 0 && s.last() == c {
        strip_end(s.drop_last(), c)
    } else {
        s
    }
}

/// A text without a character at either end.
pub open spec fn strip(s: Seq<char>, c: char) -> Seq<char> {
    strip_end(strip_start(s, c), c)
}

pub fn stripped(text: &str, c: char) -> (out: String)
    ensures
        out@ == strip(text@, c),
{
    let chars = chars_of(text);
    let mut from: usize = 0;
    assert(chars@.skip(0) =~= chars@);
    while from < chars.len() && chars[from] == c
        invariant
            from <= chars.len(),
            strip_start(chars@, c) == strip_start(chars@.skip(from as int), c),
        decreases chars.len() - from,
    {
        assert(chars@.skip(from as int).skip(1) =~= chars@.skip(from + 1));
        from += 1;
    }
    let ghost rest = chars@.skip(from as int);
    assert(strip_start(chars@, c) == rest);
    let mut to: usize = chars.len();
    assert(chars@.subrange(from as int, to as int) =~= rest);
    while from < to && chars[to - 1] == c
        invariant
            from <= to <= chars.len(),
            strip_end(rest, c) == strip_end(chars@.subrange(from as int, to as int), c),
        decreases to,
    {
        assert(chars@.subrange(from as int, to as int).drop_last() =~= chars@.subrange(
            from as int,
            to - 1,
        ));
        to -= 1;
    }
    string_of_range(&chars, from, to)
}

// ── Prefixes and suffixes ──────────────────────────────────────

pub open spec fn has_prefix(s: Seq<char>, prefix: Seq<char>) -> bool {
    prefix.len() <= s.len() && s.take(prefix.len() as int) == prefix
}

pub open spec fn has_suffix(s: Seq<char>, suffix: Seq<char>) -> bool {
    suffix.len() <= s.len() && s.skip(s.len() - suffix.len()) == suffix
}

/// Whether `chars[from..from + needle.len()]` is `needle`.
pub fn range_is(chars: &Vec<char>, from: usize, needle: &Vec<char>) -> (out: bool)
    requires
        from + needle.len() <= chars.len(),
    ensures
        out == (chars@.subrange(from as int, from + needle.len()) == needle@),
{
    let mut i: usize = 0;
    while i < needle.len()
        invariant
            i <= needle.len(),
            from + needle.len() <= chars.len(),
            forall|j: int| 0 <= j < i ==> chars@[from + j] == needle@[j],
        decreases needle.len() - i,
    {
        if chars[from + i] != needle[i] {
            proof {
                assert(chars@.subrange(from as int, from + needle.len())[i as int] != needle@[i as int]);
            }
            return false;
        }
        i += 1;
    }
    assert(chars@.subrange(from as int, from + needle.len()) =~= needle@);
    true
}

pub fn starts_with(text: &str, prefix: &str) -> (out: bool)
    ensures
        out == has_prefix(text@, prefix@),
{
    let s = chars_of(text);
    let p = chars_of(prefix);
    if p.len() > s.len() {
        return false;
    }
    assert(s@.subrange(0, p.len() as int) =~= s@.take(p.len() as int));
    range_is(&s, 0, &p)
}

pub fn ends_with(text: &str, suffix: &str) -> (out: bool)
    ensures
        out == has_suffix(text@, suffix@),
{
    let s = chars_of(text);
    let p = chars_of(suffix);
    if p.len() > s.len() {
        return false;
    }
    assert(s@.subrange(s.len() - p.len(), s.len() as int) =~= s@.skip(s.len() - p.len()));
    range_is(&s, s.len() - p.len(), &p)
}

/// Whether `needle` stands in `s` at `at`.
pub open spec fn occurs_at(s: Seq<char>, needle: Seq<char>, at: int) -> bool {
    0 <= at && at + needle.len() <= s.len() && s.subrange(at, at + needle.len()) == needle
}

/// Whether `needle` stands somewhere in `s`.
pub open spec fn occurs(s: Seq<char>, needle: Seq<char>) -> bool {
    exists|at: int| occurs_at(s, needle, at)
}

pub fn contains_text(text: &str, needle: &str) -> (out: bool)
    ensures
        out == occurs(text@, needle@),
{
    let s = chars_of(text);
    let p = chars_of(needle);
    let mut i: usize = 0;
    while i <= s.len() && p.len() <= s.len() - i
        invariant
            i <= s.len() + 1,
            s@ == text@,
            p@ == needle@,
            forall|at: int| 0 <= at < i ==> !occurs_at(s@, p@, at),
        decreases s.len() + 1 - i,
    {
        if range_is(&s, i, &p) {
            proof {
                assert(occurs_at(s@, p@, i as int));
            }
            return true;
        }
        if i == s.len() {
            return false;
        }
        i += 1;
    }
    false
}

/// The text from character `from` on.
pub fn skip_text(text: &str, from: usize) -> (out: String)
    requires
        from <= text@.len(),
    ensures
        out@ == text@.skip(from as int),
{
    let chars = chars_of(text);
    let out = string_of_range(&chars, from, chars.len());
    assert(out@ =~= text@.skip(from as int));
    out
}

/// The number of characters of a text.
pub fn char_count(text: &str) -> (out: usize)
    ensures
        out == text@.len(),
{
    text.unicode_len()
}

// ── Numbers ────────────────────────────────────────────────────

pub open spec fn is_digit(c: char) -> bool {
    '0' <= c <= '9'
}

pub open spec fn digit_value(c: char) -> nat {
    (c as u32 - '0' as u32) as nat
}

pub open spec fn all_digits(s: Seq<char>) -> bool {
    forall|i: int| 0 <= i < s.len() ==> is_digit(#[trigger] s[i])
}

/// The number that a sequence of decimal digits stands for.
pub open spec fn digits_value(s: Seq<char>) -> nat
    decreases s.len(),
{
    if s.len() == 0 {
        0
    } else {
        digits_value(s.drop_last()) * 10 + digit_value(s.last())
    }
}

pub proof fn lemma_digits_monotone(s: Seq<char>, i: int)
    requires
        0 <= i <= s.len(),
    ensures
        digits_value(s.take(i)) <= digits_value(s),
    decreases s.len() - i,
{
    if i < s.len() {
        lemma_digits_monotone(s, i + 1);
        assert(s.take(i + 1).drop_last() =~= s.take(i));
    } else {
        assert(s.take(i) =~= s);
    }
}

/// The value of `s` read as decimal digits, one at least.
pub open spec fn unsigned(s: Seq<char>) -> Option<nat> {
    if s.len() > 0 && all_digits(s) {
        Some(digits_value(s))
    } else {
        None
    }
}

/// The value of `s` read as an unsigned number with an optional plus sign.
pub open spec fn decimal(s: Seq<char>) -> Option<nat> {
    if s.len() > 0 && s[0] == '+' {
        unsigned(s.skip(1))
    } else {
        unsigned(s)
    }
}

/// The value of `s` read as a number with an optional sign.
pub open spec fn signed_decimal(s: Seq<char>) -> Option<int> {
    if s.len() > 0 && s[0] == '-' {
        match unsigned(s.skip(1)) {
            Some(n) => Some(-(n as int)),
            None => None,
        }
    } else {
        match decimal(s) {
            Some(n) => Some(n as int),
            None => None,
        }
    }
}

/// Reads `chars[from..]` as decimal digits with a value of at most `most`.
fn parse_digits(chars: &Vec<char>, from: usize, most: u64) -> (out: Option<u64>)
    requires
        from <= chars.len(),
        most <= 0x1_0000_0000,
    ensures
        out == (match unsigned(chars@.skip(from as int)) {
            Some(n) if n <= most => Some(n as u64),
            _ => None,
        }),
{
    let ghost s = chars@.skip(from as int);
    if from == chars.len() {
        return None;
    }
    let mut value: u64 = 0;
    let mut i: usize = from;
    let mut over = false;
    assert(s.take(0) =~= Seq::empty());
    while i < chars.len()
        invariant
            from <= i <= chars.len(),
            s == chars@.skip(from as int),
            most <= 0x1_0000_0000,
            all_digits(s.take(i - from)),
            over ==> digits_value(s.take(i - from)) > most,
            !over ==> value == digits_value(s.take(i - from)) && value <= most,
        decreases chars.len() - i,
    {
        let c = chars[i];
        let ghost k = i - from;
        assert(s[k] == c);
        if c < '0' || c > '9' {
            proof {
                assert(!is_digit(s[k]));
            }
            return None;
        }
        let d: u64 = (c as u32 - '0' as u32) as u64;
        proof {
            assert(s.take(k + 1).drop_last() =~= s.take(k));
            assert(s.take(k + 1).last() == c);
            assert forall|j: int| 0 <= j < k + 1 implies is_digit(#[trigger] s.take(k + 1)[j]) by {
                if j < k {
                    assert(s.take(k)[j] == s[j]);
                }
            }
        }
        if !over {
            value = value * 10 + d;
            if value > most {
                over = true;
            }
        }
        i += 1;
    }
    assert(s.take(i - from) =~= s);
    if over {
        None
    } else {
        Some(value)
    }
}

/// Reads an unsigned 32-bit decimal number with an optional plus sign.
pub fn parse_u32(text: &str) -> (out: Option<u32>)
    ensures
        out == (match decimal(text@) {
            Some(n) if n <= u32::MAX => Some(n as u32),
            _ => None,
        }),
{
    let chars = chars_of(text);
    assert(chars@.skip(0) =~= text@);
    let from: usize = if chars.len() > 0 && chars[0] == '+' {
        1
    } else {
        0
    };
    match parse_digits(&chars, from, 0xFFFF_FFFF) {
        Some(n) => Some(n as u32),
        None => None,
    }
}

/// Reads a signed 32-bit decimal number with an optional sign.
pub fn parse_i32(text: &str) -> (out: Option<i32>)
    ensures
        out == (match signed_decimal(text@) {
            Some(n) if i32::MIN <= n <= i32::MAX => Some(n as i32),
            _ => None,
        }),
{
    let chars = chars_of(text);
    assert(chars@.skip(0) =~= text@);
    if chars.len() > 0 && chars[0] == '-' {
        return match parse_digits(&chars, 1, 0x8000_0000) {
            Some(n) => Some((0i64 - n as i64) as i32),
            None => None,
        };
    }
    let from: usize = if chars.len() > 0 && chars[0] == '+' {
        1
    } else {
        0
    };
    match parse_digits(&chars, from, 0x7FFF_FFFF) {
        Some(n) => Some(n as i32),
        None => None,
    }
}

/// The decimal digits of a number, without leading zeros.
pub open spec fn decimal_text(n: nat) -> Seq<char>
    decreases n,
{
    if n < 10 {
        seq![(('0' as u8) + n) as char]
    } else {
        decimal_text(n / 10).push((('0' as u8) + n % 10) as char)
    }
}

/// Writes a number in decimal.
pub fn decimal_of(n: u64) -> (out: String)
    ensures
        out@ == decimal_text(n as nat),
    decreases n,
{
    let last = (('0' as u8) + (n % 10) as u8) as char;
    let mut out = if n < 10 {
        String::new()
    } else {
        decimal_of(n / 10)
    };
    push_char(&mut out, last);
    proof {
        if n < 10 {
            assert(out@ =~= decimal_text(n as nat));
        }
    }
    out
}

/// The digits of a number read back as the number.
pub proof fn lemma_decimal_reads_back(n: nat)
    ensures
        decimal_text(n).len() > 0,
        all_digits(decimal_text(n)),
        digits_value(decimal_text(n)) == n,
    decreases n,
{
    let text = decimal_text(n);
    reveal_with_fuel(digits_value, 2);
    if n < 10 {
        assert(text.drop_last() =~= Seq::empty());
    } else {
        lemma_decimal_reads_back(n / 10);
        assert(text.drop_last() =~= decimal_text(n / 10));
    }
}

/// A number in decimal, with a minus sign where it is negative.
pub open spec fn signed_text(n: int) -> Seq<char> {
    if n < 0 {
        seq!['-'] + decimal_text((-n) as nat)
    } else {
        decimal_text(n as nat)
    }
}

/// Writes a signed number in decimal.
pub fn signed_of(n: i32) -> (out: String)
    ensures
        out@ == signed_text(n as int),
{
    if n < 0 {
        let mut out = String::new();
        push_char(&mut out, '-');
        let digits = decimal_of((0i64 - n as i64) as u64);
        out.append(digits.as_str());
        assert(out@ =~= signed_text(n as int));
        out
    } else {
        decimal_of(n as u64)
    }
}

/// Whether a list of strings holds a text.
pub fn list_has(list: &Vec<String>, text: &str) -> (out: bool)
    ensures
        out == texts(list@).contains(text@),
{
    let mut i: usize = 0;
    while i < list.len()
        invariant
            i <= list.len(),
            forall|j: int| 0 <= j < i ==> (#[trigger] list@[j])@ != text@,
        decreases list.len() - i,
    {
        if same_text(list[i].as_str(), text) {
            assert(texts(list@)[i as int] == text@);
            return true;
        }
        i += 1;
    }
    proof {
        if texts(list@).contains(text@) {
            let j = choose|j: int| 0 <= j < list@.len() && texts(list@)[j] == text@;
            assert(list@[j]@ == text@);
        }
    }
    false
}

// ── What holds of texts ────────────────────────────────────────

/// Changing the case moves the 26 letters of ASCII by 32 places and leaves every
/// other character.
pub proof fn law_letters_change_case(c: char)
    ensures
        65 <= c as u32 <= 90 ==> lower_char(c) as u32 == c as u32 + 32,
        !(65 <= c as u32 <= 90) ==> lower_char(c) == c,
        97 <= c as u32 <= 122 ==> upper_char(c) as u32 == c as u32 - 32,
        !(97 <= c as u32 <= 122) ==> upper_char(c) == c,
{
}

/// The capital of a character is another one, which is no small letter, exactly
/// where the character is that one or its small letter.
pub proof fn law_case_is_undone(c: char, capital: char)
    requires
        !('a' <= capital <= 'z'),
    ensures
        upper_char(c) == capital <==> (c == capital || c == lower_char(capital)),
{
    if 'A' <= capital <= 'Z' {
        let small = lower_char(capital);
        assert(small as u32 == capital as u32 + 32);
        assert('a' <= small <= 'z');
        assert(upper_char(small) == capital);
    }
    if 'a' <= c <= 'z' {
        let up = upper_char(c);
        assert(up as u32 == c as u32 - 32);
        assert('A' <= up <= 'Z');
        assert(lower_char(up) == c);
    }
}

/// A text keeps its length when its case changes, and each of its characters
/// changes by itself.
pub proof fn law_texts_change_case(s: Seq<char>, i: int)
    requires
        0 <= i < s.len(),
    ensures
        lower(s).len() == s.len(),
        upper(s).len() == s.len(),
        lower(s)[i] == lower_char(s[i]),
        upper(s)[i] == upper_char(s[i]),
{
}

/// Whether all characters of a text are white space.
pub open spec fn all_white(s: Seq<char>) -> bool {
    forall|i: int| 0 <= i < s.len() ==> is_white(#[trigger] s[i])
}

/// Blanks, tabs and the ends of lines are white space; the signs from the
/// exclamation mark to the tilde are not.
pub proof fn law_white_space(c: char)
    ensures
        c == ' ' || c == '\t' || c == '\n' || c == '\r' ==> is_white(c),
        33 <= c as u32 <= 126 ==> !is_white(c),
        c as u32 == 0x3000 || c as u32 == 0xA0 ==> is_white(c),
{
}

/// White space around a text is taken away, and nothing else.
pub proof fn law_trimming_takes_white_space(before: Seq<char>, s: Seq<char>, after: Seq<char>)
    requires
        all_white(before),
        all_white(after),
        s.len() > 0,
        !is_white(s[0]),
        !is_white(s.last()),
    ensures
        trim(before + s + after) == s,
        trim(before) == Seq::<char>::empty(),
    decreases before.len() + after.len(),
{
    lemma_white_is_trimmed(before);
    if before.len() > 0 {
        let rest = before.skip(1);
        assert forall|i: int| 0 <= i < rest.len() implies is_white(#[trigger] rest[i]) by {
            assert(rest[i] == before[i + 1]);
        }
        law_trimming_takes_white_space(rest, s, after);
        let whole = before + s + after;
        assert(whole[0] == before[0]);
        assert(whole.skip(1) =~= rest + s + after);
    } else {
        assert(before + s + after =~= s + after);
        assert((s + after)[0] == s[0]);
        assert(trim_start(s + after) == s + after);
        lemma_trim_end_white(s, after);
    }
}

proof fn lemma_white_is_trimmed(s: Seq<char>)
    requires
        all_white(s),
    ensures
        trim_start(s) == Seq::<char>::empty(),
        trim(s) == Seq::<char>::empty(),
    decreases s.len(),
{
    if s.len() > 0 {
        let rest = s.skip(1);
        assert forall|i: int| 0 <= i < rest.len() implies is_white(#[trigger] rest[i]) by {
            assert(rest[i] == s[i + 1]);
        }
        lemma_white_is_trimmed(rest);
        assert(is_white(s[0]));
    } else {
        assert(s =~= Seq::empty());
    }
}

proof fn lemma_trim_end_white(s: Seq<char>, after: Seq<char>)
    requires
        all_white(after),
        s.len() > 0,
        !is_white(s.last()),
    ensures
        trim_end(s + after) == s,
    decreases after.len(),
{
    if after.len() > 0 {
        let rest = after.drop_last();
        assert forall|i: int| 0 <= i < rest.len() implies is_white(#[trigger] rest[i]) by {
            assert(rest[i] == after[i]);
        }
        lemma_trim_end_white(s, rest);
        assert((s + after).last() == after[after.len() - 1]);
        assert((s + after).drop_last() =~= s + rest);
    } else {
        assert(s + after =~= s);
    }
}

/// The lines of a text: a first line up to its end, without a carriage return
/// before the end, then those of the rest. A last line need not be ended.
pub proof fn law_lines_are_ended(line: Seq<char>, rest: Seq<char>)
    requires
        !line.contains('\n'),
    ensures
        lines(Seq::empty()).len() == 0,
        line.len() > 0 ==> lines(line) == seq![line],
        lines(line.push('\n') + rest) == seq![
            if line.len() > 0 && line.last() == '\r' {
                line.drop_last()
            } else {
                line
            },
        ] + lines(rest),
{
    assert forall|j: int| 0 <= j < line.len() implies line[j] != '\n' by {
        assert(line.contains(line[j]));
    }
    let whole = line.push('\n') + rest;
    lemma_find_is(whole, '\n', line.len() as int);
    assert(whole.take(line.len() as int) =~= line);
    assert(whole.skip(line.len() as int + 1) =~= rest);
    if line.len() > 0 {
        lemma_find_is(line, '\n', line.len() as int);
    }
}

/// A number is written by its decimal digits: the last one behind those of the
/// rest.
pub proof fn law_numbers_are_decimal(n: nat, digit: nat)
    requires
        digit < 10,
    ensures
        decimal_text(digit).len() == 1,
        decimal_text(digit)[0] as u32 == 48 + digit,
        n > 0 ==> decimal_text(10 * n + digit) == decimal_text(n).push(decimal_text(digit)[0]),
        signed_text(n as int) == decimal_text(n),
        n > 0 ==> signed_text(-(n as int)) == seq!['-'] + decimal_text(n),
{
    if n > 0 {
        assert((10 * n + digit) / 10 == n);
        assert((10 * n + digit) % 10 == digit);
    }
}

/// A number reads back from its digits, with or without a sign before them; a
/// sign alone, and a text with anything else in it, is no number.
pub proof fn law_numbers_read_back(n: nat, s: Seq<char>, i: int)
    ensures
        decimal(decimal_text(n)) == Some(n),
        decimal(seq!['+'] + decimal_text(n)) == Some(n),
        signed_decimal(decimal_text(n)) == Some(n as int),
        signed_decimal(seq!['-'] + decimal_text(n)) == Some(-(n as int)),
        decimal(Seq::empty()) is None,
        decimal(seq!['+']) is None,
        signed_decimal(seq!['-']) is None,
        0 < i < s.len() && !(48 <= s[i] as u32 <= 57) ==> decimal(s) is None && signed_decimal(s)
            is None,
        s.len() > 0 && s[0] != '+' && !(48 <= s[0] as u32 <= 57) ==> decimal(s) is None,
{
    lemma_decimal_reads_back(n);
    let text = decimal_text(n);
    assert(is_digit(text[0]));
    assert((seq!['+'] + text).skip(1) =~= text);
    assert((seq!['-'] + text).skip(1) =~= text);
    assert(seq!['+'].skip(1) =~= Seq::<char>::empty());
    assert(seq!['-'].skip(1) =~= Seq::<char>::empty());
    if 0 < i < s.len() && !(48 <= s[i] as u32 <= 57) {
        assert(!is_digit(s[i]));
        assert(s.skip(1)[i - 1] == s[i]);
        assert(!all_digits(s));
        assert(!all_digits(s.skip(1)));
    }
    if s.len() > 0 && s[0] != '+' && !(48 <= s[0] as u32 <= 57) {
        assert(!is_digit(s[0]));
        assert(!all_digits(s));
    }
}

/// A text begins with its first part and ends with its last.
pub proof fn law_parts_begin_and_end_texts(a: Seq<char>, b: Seq<char>, s: Seq<char>)
    ensures
        has_prefix(a + b, a),
        has_suffix(a + b, b),
        has_prefix(s, a) ==> s == a + s.skip(a.len() as int),
        has_suffix(s, b) ==> s == s.take(s.len() - b.len()) + b,
{
    assert((a + b).take(a.len() as int) =~= a);
    assert((a + b).skip((a + b).len() - b.len()) =~= b);
    if has_prefix(s, a) {
        assert(s =~= a + s.skip(a.len() as int));
    }
    if has_suffix(s, b) {
        assert(s =~= s.take(s.len() - b.len()) + b);
    }
}

/// The pieces of a text are free of the separator, and joined by it they are the
/// text again.
pub proof fn law_split_texts_join_again(s: Seq<char>, sep: char)
    ensures
        split(s, sep).len() > 0,
        join(split(s, sep), sep) == s,
        forall|i: int| 0 <= i < split(s, sep).len() ==> !(#[trigger] split(s, sep)[i]).contains(sep),
    decreases s.len(),
{
    lemma_find(s, sep);
    let at = find(s, sep);
    let pieces = split(s, sep);
    if at < s.len() {
        let rest = s.skip(at + 1);
        let more = split(rest, sep);
        law_split_texts_join_again(rest, sep);
        lemma_join_cons(s.take(at), more, sep);
        assert(s =~= s.take(at).push(sep) + rest);
        assert forall|i: int| 0 <= i < pieces.len() implies !(#[trigger] pieces[i]).contains(
            sep,
        ) by {
            if i > 0 {
                assert(pieces[i] == more[i - 1]);
            }
        }
    } else {
        assert(pieces =~= seq![s]);
    }
}

proof fn lemma_join_cons(first: Seq<char>, more: Seq<Seq<char>>, sep: char)
    requires
        more.len() > 0,
    ensures
        join(seq![first] + more, sep) == first.push(sep) + join(more, sep),
    decreases more.len(),
{
    let all = seq![first] + more;
    if more.len() == 1 {
        assert(all.drop_last() =~= seq![first]);
        assert(all.last() == more[0]);
        assert(join(seq![first], sep) == first);
        assert(join(more, sep) == more[0]);
        assert(join(all, sep) == join(all.drop_last(), sep).push(sep) + all.last());
    } else {
        lemma_join_cons(first, more.drop_last(), sep);
        assert(all.drop_last() =~= seq![first] + more.drop_last());
        assert(all.last() == more.last());
        assert((first.push(sep) + join(more.drop_last(), sep)).push(sep) + more.last()
            =~= first.push(sep) + (join(more.drop_last(), sep).push(sep) + more.last()));
    }
}

/// Replacing a character changes the places that hold it and no others.
pub proof fn law_characters_are_replaced(s: Seq<char>, from: char, to: char, i: int)
    requires
        0 <= i < s.len(),
    ensures
        replace(s, from, to).len() == s.len(),
        s[i] == from ==> replace(s, from, to)[i] == to,
        s[i] != from ==> replace(s, from, to)[i] == s[i],
{
}

} // verus!
