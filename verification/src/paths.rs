//! Relative paths as clean lists of parts.
//!
//! Paths from scripts and from configuration may use either slash and may hold
//! empty, dotted or drive-like parts. A rule says which parts are kept, which
//! are skipped and which make the whole path invalid.
use crate::strs::{
    ends_with, find, has_char, is_white, join, join_text, lemma_find, lemma_find_is, lemma_lower_char,
    lemma_texts_push, lemma_trim, lemma_trim_idempotent, lower, replace, replace_char, same_text,
    split, split_text, texts, to_lower, trim, trim_end, trim_start, trimmed,
};
use vstd::prelude::*;

verus! {

/// How the parts of a path are judged.
#[derive(Clone, Copy, PartialEq, Eq, Debug, Structural)]
pub enum PartRule {
    /// Resource lookup: parts as they are; a parent part is refused.
    Lookup,
    /// Save files: trimmed parts; a parent part or a colon is refused.
    Strict,
    /// Configured directories: trimmed parts; parent and drive parts are
    /// skipped.
    Lenient,
}

/// What becomes of one part.
#[derive(Clone, Copy, PartialEq, Eq, Debug, Structural)]
pub enum PartFate {
    Keep,
    Skip,
    Refuse,
}

/// The part as the rule looks at it.
pub open spec fn part_text(rule: PartRule, raw: Seq<char>) -> Seq<char> {
    if rule == PartRule::Lookup {
        raw
    } else {
        trim(raw)
    }
}

/// What the rule makes of a part.
pub open spec fn part_fate(rule: PartRule, part: Seq<char>) -> PartFate {
    if part.len() == 0 || part == "."@ {
        PartFate::Skip
    } else {
        match rule {
            PartRule::Lookup => if part == ".."@ {
                PartFate::Refuse
            } else {
                PartFate::Keep
            },
            PartRule::Strict => if part == ".."@ || part.contains(':') {
                PartFate::Refuse
            } else {
                PartFate::Keep
            },
            PartRule::Lenient => if part == ".."@ || part.last() == ':' {
                PartFate::Skip
            } else {
                PartFate::Keep
            },
        }
    }
}

/// The kept parts, in order.
pub open spec fn kept_parts(rule: PartRule, raw: Seq<Seq<char>>) -> Seq<Seq<char>>
    decreases raw.len(),
{
    if raw.len() == 0 {
        Seq::empty()
    } else {
        let before = kept_parts(rule, raw.drop_last());
        let part = part_text(rule, raw.last());
        if part_fate(rule, part) == PartFate::Keep {
            before.push(part)
        } else {
            before
        }
    }
}

/// Whether some part makes the path invalid.
pub open spec fn has_refused(rule: PartRule, raw: Seq<Seq<char>>) -> bool {
    exists|i: int|
        0 <= i < raw.len() && part_fate(rule, part_text(rule, #[trigger] raw[i]))
            == PartFate::Refuse
}

/// The pieces of a path between slashes of either kind.
pub open spec fn path_pieces(path: Seq<char>) -> Seq<Seq<char>> {
    split(replace(path, '\\', '/'), '/')
}

/// The clean parts of a path, or `None` where a part is refused.
pub open spec fn clean(rule: PartRule, path: Seq<char>) -> Option<Seq<Seq<char>>> {
    if has_refused(rule, path_pieces(path)) {
        None
    } else {
        Some(kept_parts(rule, path_pieces(path)))
    }
}

fn judge(rule: PartRule, part: &str) -> (out: PartFate)
    ensures
        out == part_fate(rule, part@),
{
    if part.is_empty() || same_text(part, ".") {
        return PartFate::Skip;
    }
    let parent = same_text(part, "..");
    match rule {
        PartRule::Lookup => if parent {
            PartFate::Refuse
        } else {
            PartFate::Keep
        },
        PartRule::Strict => if parent || has_char(part, ':') {
            PartFate::Refuse
        } else {
            PartFate::Keep
        },
        PartRule::Lenient => {
            let drive = ends_with(part, ":");
            proof {
                reveal_strlit(":");
                let s = part@;
                assert(s.skip(s.len() - 1) =~= seq![s.last()]);
                assert(":"@ =~= seq![':']);
                assert(seq![s.last()][0] == s.last());
                assert(seq![':'][0] == ':');
            }
            if parent || drive {
                PartFate::Skip
            } else {
                PartFate::Keep
            }
        },
    }
}

/// The clean parts of a path.
pub fn clean_parts(rule: PartRule, path: &str) -> (out: Option<Vec<String>>)
    ensures
        out is None <==> clean(rule, path@) is None,
        out matches Some(parts) ==> clean(rule, path@) == Some(texts(parts@)),
{
    let slashed = replace_char(path, '\\', '/');
    let raw = split_text(slashed.as_str(), '/');
    let mut out: Vec<String> = Vec::new();
    let mut i: usize = 0;
    let ghost pieces = path_pieces(path@);
    assert(texts(out@) =~= kept_parts(rule, pieces.take(0)));
    while i < raw.len()
        invariant
            i <= raw.len(),
            pieces == path_pieces(path@),
            texts(raw@) == pieces,
            texts(out@) == kept_parts(rule, pieces.take(i as int)),
            forall|j: int|
                0 <= j < i ==> part_fate(rule, part_text(rule, #[trigger] pieces[j]))
                    != PartFate::Refuse,
        decreases raw.len() - i,
    {
        let part = match rule {
            PartRule::Lookup => raw[i].clone(),
            _ => trimmed(raw[i].as_str()),
        };
        proof {
            assert(pieces.take(i + 1).drop_last() =~= pieces.take(i as int));
            assert(texts(raw@)[i as int] == raw@[i as int]@);
            assert(pieces.take(i + 1).last() == pieces[i as int]);
            lemma_texts_push(out@, part);
        }
        match judge(rule, part.as_str()) {
            PartFate::Refuse => {
                assert(part_fate(rule, part_text(rule, pieces[i as int])) == PartFate::Refuse);
                return None;
            },
            PartFate::Skip => {},
            PartFate::Keep => {
                out.push(part);
            },
        }
        i += 1;
    }
    assert(pieces.take(i as int) =~= pieces);
    Some(out)
}

/// The clean path under a rule: its parts joined by slashes, in lower case for
/// lookup. A path without parts is none.
pub open spec fn clean_path(rule: PartRule, path: Seq<char>) -> Option<Seq<char>> {
    match clean(rule, path) {
        Some(parts) => if parts.len() == 0 {
            None
        } else if rule == PartRule::Lookup {
            Some(lower(join(parts, '/')))
        } else {
            Some(join(parts, '/'))
        },
        None => None,
    }
}

/// Writes the clean path under a rule.
pub fn cleaned(rule: PartRule, path: &str) -> (out: Option<String>)
    ensures
        out is None <==> clean_path(rule, path@) is None,
        out matches Some(text) ==> clean_path(rule, path@) == Some(text@),
{
    match clean_parts(rule, path) {
        Some(parts) => {
            assert(texts(parts@).len() == parts@.len());
            if parts.len() == 0 {
                return None;
            }
            let joined = join_text(&parts, '/');
            match rule {
                PartRule::Lookup => Some(to_lower(joined.as_str())),
                _ => Some(joined),
            }
        },
        None => None,
    }
}

// ── Splitting what was joined ──────────────────────────────────

/// A separator behind `a` and a piece without separators split off at the end.
proof fn lemma_split_snoc(a: Seq<char>, b: Seq<char>, sep: char)
    requires
        !b.contains(sep),
    ensures
        split(a.push(sep) + b, sep) == split(a, sep).push(b),
    decreases a.len(),
{
    let whole = a.push(sep) + b;
    lemma_find(a, sep);
    let at = find(a, sep);
    assert forall|j: int| 0 <= j < b.len() implies b[j] != sep by {
        assert(b.contains(b[j]));
    }
    if at < a.len() {
        lemma_find_is(whole, sep, at);
        lemma_split_snoc(a.skip(at + 1), b, sep);
        assert(whole.take(at) =~= a.take(at));
        assert(whole.skip(at + 1) =~= a.skip(at + 1).push(sep) + b);
        assert(split(whole, sep) =~= split(a, sep).push(b));
    } else {
        lemma_find_is(whole, sep, a.len() as int);
        assert(whole.take(a.len() as int) =~= a);
        assert(whole.skip(a.len() as int + 1) =~= b);
        lemma_find_is(b, sep, b.len() as int);
        assert(split(b, sep) =~= seq![b]);
        assert(split(whole, sep) =~= split(a, sep).push(b));
    }
}

/// Splitting what was joined gives the parts back.
pub proof fn lemma_split_join(parts: Seq<Seq<char>>, sep: char)
    requires
        parts.len() > 0,
        forall|i: int| 0 <= i < parts.len() ==> !(#[trigger] parts[i]).contains(sep),
    ensures
        split(join(parts, sep), sep) == parts,
    decreases parts.len(),
{
    if parts.len() == 1 {
        let p = parts[0];
        assert forall|j: int| 0 <= j < p.len() implies p[j] != sep by {
            assert(p.contains(p[j]));
        }
        lemma_find_is(p, sep, p.len() as int);
        assert(split(p, sep) =~= parts);
    } else {
        let short = parts.drop_last();
        assert forall|i: int| 0 <= i < short.len() implies !(#[trigger] short[i]).contains(sep) by {
            assert(short[i] == parts[i]);
        }
        lemma_split_join(short, sep);
        assert(!parts[parts.len() - 1].contains(sep));
        lemma_split_snoc(join(short, sep), parts.last(), sep);
        assert(split(join(parts, sep), sep) =~= parts);
    }
}

/// A piece of a split holds no separator and only characters of the text.
proof fn lemma_split_piece(s: Seq<char>, sep: char, i: int, c: char)
    requires
        0 <= i < split(s, sep).len(),
        split(s, sep)[i].contains(c),
    ensures
        c != sep,
        s.contains(c),
    decreases s.len(),
{
    lemma_find(s, sep);
    let at = find(s, sep);
    let piece = split(s, sep)[i];
    let k = choose|k: int| 0 <= k < piece.len() && piece[k] == c;
    if at < s.len() {
        if i == 0 {
            assert(piece =~= s.take(at));
            assert(s[k] == c);
        } else {
            let rest = s.skip(at + 1);
            assert(split(s, sep)[i] == split(rest, sep)[i - 1]);
            lemma_split_piece(rest, sep, i - 1, c);
            let m = choose|m: int| 0 <= m < rest.len() && rest[m] == c;
            assert(s[m + at + 1] == c);
        }
    } else {
        assert(piece =~= s);
        assert(s[k] == c);
    }
}

/// A part that a rule keeps as it stands.
pub open spec fn clean_part(rule: PartRule, part: Seq<char>) -> bool {
    &&& part_text(rule, part) == part
    &&& part_fate(rule, part) == PartFate::Keep
    &&& !part.contains('/')
    &&& !part.contains('\\')
}

/// Every kept part is clean.
pub proof fn lemma_kept_parts_clean(rule: PartRule, path: Seq<char>, n: int)
    requires
        0 <= n <= path_pieces(path).len(),
    ensures
        forall|i: int|
            0 <= i < kept_parts(rule, path_pieces(path).take(n)).len() ==> clean_part(
                rule,
                #[trigger] kept_parts(rule, path_pieces(path).take(n))[i],
            ),
    decreases n,
{
    let pieces = path_pieces(path);
    if n > 0 {
        lemma_kept_parts_clean(rule, path, n - 1);
        let now = pieces.take(n);
        assert(now.drop_last() =~= pieces.take(n - 1));
        let raw = pieces[n - 1];
        let part = part_text(rule, raw);
        lemma_trim_idempotent(raw);
        lemma_trim(raw);
        assert forall|c: char| part.contains(c) implies raw.contains(c) by {
            if rule != PartRule::Lookup {
                let k = choose|k: int| 0 <= k < part.len() && part[k] == c;
                let from = choose|from: int|
                    0 <= from <= raw.len() - trim(raw).len() && trim(raw)
                        == #[trigger] raw.subrange(from, from + trim(raw).len());
                assert(raw[from + k] == c);
            }
        }
        if part.contains('/') {
            lemma_split_piece(replace(path, '\\', '/'), '/', n - 1, '/');
        }
        if part.contains('\\') {
            lemma_split_piece(replace(path, '\\', '/'), '/', n - 1, '\\');
            let r = replace(path, '\\', '/');
            let k = choose|k: int| 0 <= k < r.len() && r[k] == '\\';
            assert(r[k] != '\\');
        }
        let before = kept_parts(rule, pieces.take(n - 1));
        assert(now.last() == raw);
        assert forall|i: int| 0 <= i < kept_parts(rule, now).len() implies clean_part(
            rule,
            #[trigger] kept_parts(rule, now)[i],
        ) by {
            if i < before.len() {
                assert(kept_parts(rule, now)[i] == before[i]);
            }
        }
    }
}

/// Keeping clean parts keeps them all.
proof fn lemma_kept_of_clean(rule: PartRule, parts: Seq<Seq<char>>)
    requires
        forall|i: int| 0 <= i < parts.len() ==> clean_part(rule, #[trigger] parts[i]),
    ensures
        kept_parts(rule, parts) == parts,
        !has_refused(rule, parts),
    decreases parts.len(),
{
    if parts.len() > 0 {
        let short = parts.drop_last();
        assert forall|i: int| 0 <= i < short.len() implies clean_part(
            rule,
            #[trigger] short[i],
        ) by {
            assert(short[i] == parts[i]);
        }
        lemma_kept_of_clean(rule, short);
        assert(clean_part(rule, parts[parts.len() - 1]));
    }
    assert(kept_parts(rule, parts) =~= parts);
    assert forall|i: int| 0 <= i < parts.len() implies part_fate(
        rule,
        part_text(rule, #[trigger] parts[i]),
    ) != PartFate::Refuse by {
        assert(clean_part(rule, parts[i]));
    }
}

/// Joined clean parts hold no backslash.
proof fn lemma_join_no_backslash(parts: Seq<Seq<char>>)
    requires
        forall|i: int| 0 <= i < parts.len() ==> !(#[trigger] parts[i]).contains('\\'),
    ensures
        replace(join(parts, '/'), '\\', '/') == join(parts, '/'),
    decreases parts.len(),
{
    let whole = join(parts, '/');
    if parts.len() == 1 {
        assert forall|k: int| 0 <= k < whole.len() implies whole[k] != '\\' by {
            assert(parts[0].contains(whole[k]));
        }
    } else if parts.len() > 1 {
        let short = parts.drop_last();
        assert forall|i: int| 0 <= i < short.len() implies !(#[trigger] short[i]).contains(
            '\\',
        ) by {
            assert(short[i] == parts[i]);
        }
        lemma_join_no_backslash(short);
        let head = join(short, '/');
        let last = parts.last();
        assert(!parts[parts.len() - 1].contains('\\'));
        assert forall|k: int| 0 <= k < whole.len() implies whole[k] != '\\' by {
            if k < head.len() {
                assert(replace(head, '\\', '/')[k] == head[k]);
            } else if k > head.len() {
                assert(whole[k] == last[k - head.len() - 1]);
                assert(last.contains(whole[k]));
            }
        }
    }
    assert(replace(whole, '\\', '/') =~= whole);
}

/// Cleaning the join of clean parts gives the parts back.
pub proof fn lemma_clean_of_joined(rule: PartRule, parts: Seq<Seq<char>>)
    requires
        parts.len() > 0,
        forall|i: int| 0 <= i < parts.len() ==> clean_part(rule, #[trigger] parts[i]),
    ensures
        clean(rule, join(parts, '/')) == Some(parts),
{
    assert forall|i: int| 0 <= i < parts.len() implies !(#[trigger] parts[i]).contains('/') by {
        assert(clean_part(rule, parts[i]));
    }
    assert forall|i: int| 0 <= i < parts.len() implies !(#[trigger] parts[i]).contains('\\') by {
        assert(clean_part(rule, parts[i]));
    }
    lemma_join_no_backslash(parts);
    lemma_split_join(parts, '/');
    lemma_kept_of_clean(rule, parts);
}

/// Cleaning is done once: a path that was cleaned without lower-casing is its
/// own clean path.
pub proof fn law_cleaning_is_idempotent(rule: PartRule, path: Seq<char>)
    requires
        rule != PartRule::Lookup,
        clean_path(rule, path) is Some,
    ensures
        clean_path(rule, clean_path(rule, path)->0) == clean_path(rule, path),
{
    let pieces = path_pieces(path);
    lemma_kept_parts_clean(rule, path, pieces.len() as int);
    assert(pieces.take(pieces.len() as int) =~= pieces);
    lemma_clean_of_joined(rule, clean(rule, path)->0);
}

/// The parts in lower case.
spec fn lower_parts(parts: Seq<Seq<char>>) -> Seq<Seq<char>> {
    Seq::new(parts.len(), |i: int| lower(parts[i]))
}

proof fn lemma_lower_join(parts: Seq<Seq<char>>)
    ensures
        lower(join(parts, '/')) == join(lower_parts(parts), '/'),
    decreases parts.len(),
{
    if parts.len() == 0 {
        assert(lower(join(parts, '/')) =~= join(lower_parts(parts), '/'));
    } else if parts.len() == 1 {
        assert(lower_parts(parts)[0] == lower(parts[0]));
    } else {
        let short = parts.drop_last();
        lemma_lower_join(short);
        assert(lower_parts(parts).drop_last() =~= lower_parts(short));
        assert(lower_parts(parts).last() == lower(parts.last()));
        lemma_lower_char('/');
        assert(lower(join(parts, '/')) =~= join(lower_parts(parts), '/'));
    }
}

/// Lower-casing keeps a lookup part clean.
proof fn lemma_lower_part_clean(part: Seq<char>)
    requires
        clean_part(PartRule::Lookup, part),
    ensures
        clean_part(PartRule::Lookup, lower(part)),
{
    reveal_strlit(".");
    reveal_strlit("..");
    let l = lower(part);
    assert forall|k: int| 0 <= k < part.len() implies (l[k] == '.' <==> part[k] == '.') && (l[k]
        == '/' <==> part[k] == '/') && (l[k] == '\\' <==> part[k] == '\\') by {
        lemma_lower_char(part[k]);
    }
    if l.contains('/') {
        let k = choose|k: int| 0 <= k < l.len() && l[k] == '/';
        assert(part[k] == '/');
    }
    if l.contains('\\') {
        let k = choose|k: int| 0 <= k < l.len() && l[k] == '\\';
        assert(part[k] == '\\');
    }
    if l == "."@ {
        assert(l[0] == '.');
        assert(part =~= "."@);
    }
    if l == ".."@ {
        assert(l[0] == '.' && l[1] == '.');
        assert(part =~= ".."@);
    }
}

/// A lookup key is its own lookup key.
pub proof fn law_lookup_key_is_stable(path: Seq<char>)
    requires
        clean_path(PartRule::Lookup, path) is Some,
    ensures
        clean_path(PartRule::Lookup, clean_path(PartRule::Lookup, path)->0) == clean_path(
            PartRule::Lookup,
            path,
        ),
{
    let rule = PartRule::Lookup;
    let pieces = path_pieces(path);
    lemma_kept_parts_clean(rule, path, pieces.len() as int);
    assert(pieces.take(pieces.len() as int) =~= pieces);
    let parts = clean(rule, path)->0;
    let low = lower_parts(parts);
    lemma_lower_join(parts);
    assert forall|i: int| 0 <= i < low.len() implies clean_part(rule, #[trigger] low[i]) by {
        assert(clean_part(rule, parts[i]));
        lemma_lower_part_clean(parts[i]);
    }
    lemma_clean_of_joined(rule, low);
    crate::strs::lemma_lower_idempotent(join(parts, '/'));
}

/// Lookup does not tell the two slashes apart.
pub proof fn law_lookup_ignores_slash_kind(path: Seq<char>)
    ensures
        clean_path(PartRule::Lookup, replace(path, '\\', '/')) == clean_path(
            PartRule::Lookup,
            path,
        ),
{
    let r = replace(path, '\\', '/');
    assert(replace(r, '\\', '/') =~= r);
}

proof fn lemma_split_lower(s: Seq<char>)
    ensures
        split(lower(s), '/') == lower_parts(split(s, '/')),
    decreases s.len(),
{
    lemma_find(s, '/');
    let at = find(s, '/');
    let l = lower(s);
    assert forall|k: int| 0 <= k < s.len() implies (l[k] == '/' <==> s[k] == '/') by {
        lemma_lower_char(s[k]);
    }
    lemma_find_is(l, '/', at);
    if at < s.len() {
        lemma_split_lower(s.skip(at + 1));
        assert(l.skip(at + 1) =~= lower(s.skip(at + 1)));
        assert(l.take(at) =~= lower(s.take(at)));
        assert(split(l, '/') =~= lower_parts(split(s, '/')));
    } else {
        assert(split(l, '/') =~= lower_parts(split(s, '/')));
    }
}

proof fn lemma_lower_is(s: Seq<char>, dots: Seq<char>)
    requires
        forall|k: int| 0 <= k < dots.len() ==> dots[k] == '.',
    ensures
        lower(s) == dots <==> s == dots,
{
    assert forall|k: int| 0 <= k < s.len() implies (lower(s)[k] == '.' <==> s[k] == '.') by {
        lemma_lower_char(s[k]);
    }
    if lower(s) == dots {
        assert(s =~= dots);
    }
    if s == dots {
        assert(lower(s) =~= dots);
    }
}

proof fn lemma_kept_lower(raw: Seq<Seq<char>>)
    ensures
        kept_parts(PartRule::Lookup, lower_parts(raw)) == lower_parts(
            kept_parts(PartRule::Lookup, raw),
        ),
        has_refused(PartRule::Lookup, lower_parts(raw)) == has_refused(PartRule::Lookup, raw),
    decreases raw.len(),
{
    reveal_strlit(".");
    reveal_strlit("..");
    let rule = PartRule::Lookup;
    let low = lower_parts(raw);
    assert forall|i: int| 0 <= i < raw.len() implies part_fate(rule, #[trigger] low[i])
        == part_fate(rule, raw[i]) by {
        lemma_lower_is(raw[i], "."@);
        lemma_lower_is(raw[i], ".."@);
    }
    if raw.len() > 0 {
        let short = raw.drop_last();
        lemma_kept_lower(short);
        assert(low.drop_last() =~= lower_parts(short));
        assert(low.last() == lower(raw.last()));
        assert(part_fate(rule, low[raw.len() - 1]) == part_fate(rule, raw[raw.len() - 1]));
    }
    assert(kept_parts(rule, low) =~= lower_parts(kept_parts(rule, raw)));
    if has_refused(rule, raw) {
        let i = choose|i: int|
            0 <= i < raw.len() && part_fate(rule, part_text(rule, #[trigger] raw[i]))
                == PartFate::Refuse;
        assert(part_fate(rule, part_text(rule, low[i])) == PartFate::Refuse);
    }
    if has_refused(rule, low) {
        let i = choose|i: int|
            0 <= i < low.len() && part_fate(rule, part_text(rule, #[trigger] low[i]))
                == PartFate::Refuse;
        assert(part_fate(rule, part_text(rule, raw[i])) == PartFate::Refuse);
    }
}

/// Lookup does not tell ASCII letters of either case apart.
pub proof fn law_lookup_ignores_case(path: Seq<char>)
    ensures
        clean_path(PartRule::Lookup, lower(path)) == clean_path(PartRule::Lookup, path),
{
    let rule = PartRule::Lookup;
    let r = replace(path, '\\', '/');
    assert forall|k: int| 0 <= k < path.len() implies lower(r)[k] == replace(
        lower(path),
        '\\',
        '/',
    )[k] by {
        lemma_lower_char(path[k]);
        lemma_lower_char('/');
    }
    assert(lower(r) =~= replace(lower(path), '\\', '/'));
    lemma_split_lower(r);
    lemma_kept_lower(split(r, '/'));
    if !has_refused(rule, split(r, '/')) {
        let parts = kept_parts(rule, split(r, '/'));
        lemma_lower_join(parts);
        crate::strs::lemma_lower_idempotent(join(parts, '/'));
    }
}

// ── Paths of saves ─────────────────────────────────────────────

/// The same pieces but for white space around them.
spec fn same_trimmed(a: Seq<Seq<char>>, b: Seq<Seq<char>>) -> bool {
    &&& a.len() == b.len()
    &&& forall|i: int| 0 <= i < a.len() ==> trim(#[trigger] a[i]) == trim(b[i])
}

proof fn lemma_white_is_no_slash(c: char)
    requires
        is_white(c),
    ensures
        c != '/',
        c != '\\',
{
}

proof fn lemma_trim_tail(s: Seq<char>)
    requires
        s.len() > 0,
        is_white(s.last()),
    ensures
        trim(s) == trim(s.drop_last()),
    decreases s.len(),
{
    if is_white(s[0]) {
        if s.len() > 1 {
            lemma_trim_tail(s.skip(1));
            assert(s.skip(1).drop_last() =~= s.drop_last().skip(1));
        } else {
            assert(s.skip(1) =~= s.drop_last());
        }
    }
}

proof fn lemma_split_lead(s: Seq<char>)
    requires
        s.len() > 0,
        is_white(s[0]),
    ensures
        same_trimmed(split(s, '/'), split(s.skip(1), '/')),
{
    lemma_white_is_no_slash(s[0]);
    let t = s.skip(1);
    lemma_find(t, '/');
    let at = find(t, '/');
    if at < t.len() {
        assert(s.skip(at + 2) =~= t.skip(at + 1));
        assert(s.take(at + 1).skip(1) =~= t.take(at));
        assert(s.take(at + 1)[0] == s[0]);
    }
}

proof fn lemma_split_tail(s: Seq<char>)
    requires
        s.len() > 0,
        is_white(s.last()),
    ensures
        same_trimmed(split(s, '/'), split(s.drop_last(), '/')),
    decreases s.len(),
{
    lemma_white_is_no_slash(s.last());
    lemma_find(s, '/');
    let at = find(s, '/');
    let t = s.drop_last();
    if at < s.len() {
        assert(at < t.len());
        lemma_find_is(t, '/', at);
        let rest = s.skip(at + 1);
        assert(rest.last() == s.last());
        lemma_split_tail(rest);
        assert(rest.drop_last() =~= t.skip(at + 1));
        assert(s.take(at) =~= t.take(at));
        let a = split(s, '/');
        let b = split(t, '/');
        assert forall|i: int| 0 <= i < a.len() implies trim(#[trigger] a[i]) == trim(b[i]) by {
            if i > 0 {
                assert(a[i] == split(rest, '/')[i - 1]);
                assert(b[i] == split(t.skip(at + 1), '/')[i - 1]);
            }
        }
    } else {
        lemma_find_is(t, '/', t.len() as int);
        lemma_trim_tail(s);
    }
}

proof fn lemma_same_trimmed_chain(a: Seq<Seq<char>>, b: Seq<Seq<char>>, c: Seq<Seq<char>>)
    requires
        same_trimmed(a, b),
        same_trimmed(b, c),
    ensures
        same_trimmed(a, c),
{
    assert forall|i: int| 0 <= i < a.len() implies trim(#[trigger] a[i]) == trim(c[i]) by {
        assert(trim(b[i]) == trim(c[i]));
    }
}

proof fn lemma_pieces_start(path: Seq<char>)
    ensures
        same_trimmed(path_pieces(path), path_pieces(trim_start(path))),
    decreases path.len(),
{
    if path.len() > 0 && is_white(path[0]) {
        let s = replace(path, '\\', '/');
        lemma_white_is_no_slash(path[0]);
        lemma_split_lead(s);
        assert(s.skip(1) =~= replace(path.skip(1), '\\', '/'));
        lemma_pieces_start(path.skip(1));
        lemma_same_trimmed_chain(
            path_pieces(path),
            path_pieces(path.skip(1)),
            path_pieces(trim_start(path)),
        );
    }
}

proof fn lemma_pieces_end(path: Seq<char>)
    ensures
        same_trimmed(path_pieces(path), path_pieces(trim_end(path))),
    decreases path.len(),
{
    if path.len() > 0 && is_white(path.last()) {
        let s = replace(path, '\\', '/');
        lemma_white_is_no_slash(path.last());
        lemma_split_tail(s);
        assert(s.drop_last() =~= replace(path.drop_last(), '\\', '/'));
        lemma_pieces_end(path.drop_last());
        lemma_same_trimmed_chain(
            path_pieces(path),
            path_pieces(path.drop_last()),
            path_pieces(trim_end(path)),
        );
    }
}

proof fn lemma_kept_has_source(rule: PartRule, raw: Seq<Seq<char>>)
    ensures
        kept_parts(rule, raw).len() > 0 <==> exists|i: int|
            0 <= i < raw.len() && part_fate(rule, part_text(rule, #[trigger] raw[i]))
                == PartFate::Keep,
    decreases raw.len(),
{
    if raw.len() > 0 {
        let short = raw.drop_last();
        lemma_kept_has_source(rule, short);
        let last = raw.len() - 1;
        assert(raw[last] == raw.last());
        if exists|i: int|
            0 <= i < short.len() && part_fate(rule, part_text(rule, #[trigger] short[i]))
                == PartFate::Keep {
            let i = choose|i: int|
                0 <= i < short.len() && part_fate(rule, part_text(rule, #[trigger] short[i]))
                    == PartFate::Keep;
            assert(raw[i] == short[i]);
        }
        if exists|i: int|
            0 <= i < raw.len() && part_fate(rule, part_text(rule, #[trigger] raw[i]))
                == PartFate::Keep {
            let i = choose|i: int|
                0 <= i < raw.len() && part_fate(rule, part_text(rule, #[trigger] raw[i]))
                    == PartFate::Keep;
            if i < last {
                assert(short[i] == raw[i]);
            }
        }
    }
}

/// Every path that a save can be written to can be looked up.
pub proof fn law_save_paths_have_keys(path: Seq<char>)
    requires
        clean_path(PartRule::Strict, trim(path)) is Some,
    ensures
        clean_path(PartRule::Lookup, path) is Some,
{
    let raw = path_pieces(path);
    let neat = path_pieces(trim(path));
    lemma_pieces_start(path);
    lemma_pieces_end(trim_start(path));
    lemma_same_trimmed_chain(raw, path_pieces(trim_start(path)), neat);
    reveal_strlit(".");
    reveal_strlit("..");
    assert(trim("."@) == "."@ && trim(".."@) == ".."@) by {
        assert(!is_white('.'));
    }
    assert(trim(Seq::<char>::empty()) =~= Seq::empty());
    lemma_kept_has_source(PartRule::Strict, neat);
    let k = choose|k: int|
        0 <= k < neat.len() && part_fate(
            PartRule::Strict,
            part_text(PartRule::Strict, #[trigger] neat[k]),
        ) == PartFate::Keep;
    assert(trim(raw[k]) == trim(neat[k]));
    if raw[k].len() == 0 {
        assert(raw[k] =~= Seq::empty());
    }
    assert forall|i: int| 0 <= i < raw.len() implies part_fate(
        PartRule::Lookup,
        part_text(PartRule::Lookup, #[trigger] raw[i]),
    ) != PartFate::Refuse by {
        assert(trim(raw[i]) == trim(neat[i]));
        if raw[i] == ".."@ {
            assert(part_fate(PartRule::Strict, part_text(PartRule::Strict, neat[i]))
                == PartFate::Refuse);
        }
    }
    assert(part_fate(PartRule::Lookup, part_text(PartRule::Lookup, raw[k])) == PartFate::Keep);
    lemma_kept_has_source(PartRule::Lookup, raw);
}

// ── What a rule makes of a path ────────────────────────────────

/// Each rule judges a part by itself. Empty parts and single dots never count. For
/// lookup a parent part makes a path invalid; for saves, where white space around
/// a part does not count, so does a colon; in configured directories parent and
/// drive parts are passed over, and nothing makes a path invalid.
pub proof fn law_parts_are_judged(part: Seq<char>)
    ensures
        ({
            let plain = trim(part);
            &&& part_text(PartRule::Lookup, part) == part
            &&& part_text(PartRule::Strict, part) == plain
            &&& part_text(PartRule::Lenient, part) == plain
        }),
        forall|rule: PartRule| #[trigger]
            part_fate(rule, part) == PartFate::Refuse <==> part.len() > 0 && part != "."@ && (
            match rule {
                PartRule::Lookup => part == ".."@,
                PartRule::Strict => part == ".."@ || part.contains(':'),
                PartRule::Lenient => false,
            }),
        forall|rule: PartRule| #[trigger]
            part_fate(rule, part) == PartFate::Skip <==> part.len() == 0 || part == "."@ || (rule
                == PartRule::Lenient && (part == ".."@ || part[part.len() - 1] == ':')),
{
}

/// The pieces of a path are those between its slashes, of either kind.
pub proof fn law_paths_are_split_at_slashes(pieces: Seq<Seq<char>>, path: Seq<char>)
    requires
        pieces.len() > 0,
        forall|i: int|
            0 <= i < pieces.len() ==> !(#[trigger] pieces[i]).contains('/') && !pieces[i].contains(
                '\\',
            ),
    ensures
        path_pieces(join(pieces, '/')) == pieces,
        path_pieces(path) == path_pieces(replace(path, '\\', '/')),
{
    lemma_join_no_backslash(pieces);
    lemma_split_join(pieces, '/');
    let r = replace(path, '\\', '/');
    assert(replace(r, '\\', '/') =~= r);
}

/// The parts that a rule keeps come in their order, and one refused part makes the
/// whole path invalid.
pub proof fn law_kept_parts_come_in_order(rule: PartRule, raw: Seq<Seq<char>>, part: Seq<char>)
    ensures
        ({
            let text = part_text(rule, part);
            &&& kept_parts(rule, Seq::empty()).len() == 0
            &&& !has_refused(rule, Seq::empty())
            &&& part_fate(rule, text) == PartFate::Keep ==> kept_parts(rule, raw.push(part))
                == kept_parts(rule, raw).push(text)
            &&& part_fate(rule, text) != PartFate::Keep ==> kept_parts(rule, raw.push(part))
                == kept_parts(rule, raw)
            &&& has_refused(rule, raw.push(part)) <==> has_refused(rule, raw) || part_fate(
                rule,
                text,
            ) == PartFate::Refuse
        }),
{
    let more = raw.push(part);
    assert(more.drop_last() =~= raw);
    if has_refused(rule, raw) {
        let i = choose|i: int|
            0 <= i < raw.len() && part_fate(rule, part_text(rule, #[trigger] raw[i]))
                == PartFate::Refuse;
        assert(more[i] == raw[i]);
    }
    if part_fate(rule, part_text(rule, part)) == PartFate::Refuse {
        assert(more[raw.len() as int] == part);
    }
    if has_refused(rule, more) {
        let i = choose|i: int|
            0 <= i < more.len() && part_fate(rule, part_text(rule, #[trigger] more[i]))
                == PartFate::Refuse;
        if i < raw.len() {
            assert(raw[i] == more[i]);
        }
    }
}

/// A clean path is that of the parts that are kept, with single slashes between
/// them; a key for lookup is in lower case besides. A path that is invalid, or of
/// which nothing is kept, has none.
pub proof fn law_clean_paths(rule: PartRule, path: Seq<char>)
    ensures
        ({
            let pieces = path_pieces(path);
            let kept = kept_parts(rule, pieces);
            &&& clean(rule, path) is None <==> has_refused(rule, pieces)
            &&& clean(rule, path) matches Some(parts) ==> parts == kept
            &&& clean_path(rule, path) is None <==> has_refused(rule, pieces) || kept.len() == 0
            &&& clean_path(rule, path) matches Some(text) ==> text == (if rule == PartRule::Lookup {
                lower(join(kept, '/'))
            } else {
                join(kept, '/')
            })
        }),
{
}

} // verus!
