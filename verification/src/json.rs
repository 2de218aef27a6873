//! JSON text: quoting, re-printing and reading the members of an object.
use crate::strs::{concat, copy_text, opt_text, push_char, signed_of, signed_text};
use vstd::string::*;
use vstd::prelude::*;

verus! {

/// A lower-case hexadecimal digit.
pub open spec fn hex_digit(n: int) -> char {
    if n < 10 {
        (('0' as u8) + n) as char
    } else {
        (('a' as u8) + (n - 10)) as char
    }
}

/// How one character is written inside a JSON string.
pub open spec fn escaped(c: char) -> Seq<char> {
    if c == '"' {
        seq!['\\', '"']
    } else if c == '\\' {
        seq!['\\', '\\']
    } else if c as u32 == 8 {
        seq!['\\', 'b']
    } else if c == '\t' {
        seq!['\\', 't']
    } else if c == '\n' {
        seq!['\\', 'n']
    } else if c as u32 == 12 {
        seq!['\\', 'f']
    } else if c == '\r' {
        seq!['\\', 'r']
    } else if (c as u32) < 32 {
        seq!['\\', 'u', '0', '0', hex_digit(c as int / 16), hex_digit(c as int % 16)]
    } else {
        seq![c]
    }
}

/// The characters of `s`, each written as in a JSON string.
pub open spec fn escaped_all(s: Seq<char>) -> Seq<char>
    decreases s.len(),
{
    if s.len() == 0 {
        Seq::empty()
    } else {
        escaped_all(s.drop_last()) + escaped(s.last())
    }
}

/// `s` as a JSON string.
pub open spec fn quoted(s: Seq<char>) -> Seq<char> {
    seq!['"'] + escaped_all(s) + seq!['"']
}

/// Writes a text as a JSON string.
///
/// Calls `serde_json::to_string` on a `str`: the text between double quotes,
/// with the quote, the backslash and the control characters below `U+0020`
/// escaped and every other character as it is.
#[verifier::external_body]
pub(crate) fn quote(text: &str) -> (out: String)
    ensures
        out@ == quoted(text@),
{
    serde_json::to_string(text).unwrap()
}

/// The compact printing of the JSON value that a text holds.
pub uninterp spec fn json_reprinted(text: Seq<char>) -> Option<Seq<char>>;

/// Reads a JSON value and prints it compactly.
///
/// Calls `serde_json::from_str::<serde_json::Value>` and hands the value out as
/// the text that it prints; `None` where the text is no JSON value.
#[verifier::external_body]
pub(crate) fn reprint(text: &str) -> (out: Option<String>)
    ensures
        opt_text(out) == json_reprinted(text@),
{
    serde_json::from_str::<serde_json::Value>(text).ok().map(|value| value.to_string())
}

/// The members of a JSON object, each with its value where that is a string.
pub open spec fn members(pairs: Seq<(String, Option<String>)>) -> Seq<
    (Seq<char>, Option<Seq<char>>),
> {
    Seq::new(pairs.len(), |i: int| (pairs[i].0@, opt_text(pairs[i].1)))
}

/// The members of the JSON object that a text holds.
pub uninterp spec fn json_members(text: Seq<char>) -> Option<
    Seq<(Seq<char>, Option<Seq<char>>)>,
>;

/// Reads the members of a JSON object.
///
/// Calls `serde_json::from_str::<serde_json::Value>` and hands out the members
/// of an object, each key with its value where that is a string; `None` where
/// the text is no JSON value or the value is no object. No key comes twice.
#[verifier::external_body]
pub(crate) fn object_members(text: &str) -> (out: Option<Vec<(String, Option<String>)>>)
    ensures
        out matches Some(pairs) ==> json_members(text@) == Some(members(pairs@)),
        out is None ==> json_members(text@) is None,
        out matches Some(pairs) ==> (forall|i: int, j: int|
            0 <= i < j < pairs@.len() ==> (#[trigger] pairs@[i]).0@ != (#[trigger] pairs@[j]).0@),
{
    match serde_json::from_str::<serde_json::Value>(text) {
        Ok(serde_json::Value::Object(map)) => Some(
            map.into_iter().map(|(key, value)| (key, value.as_str().map(String::from))).collect(),
        ),
        _ => None,
    }
}

/// The JSON value that stands for a payload: the payload printed compactly, or
/// `null` where it holds no JSON.
pub open spec fn payload_text(reprinted: Option<Seq<char>>) -> Seq<char> {
    match reprinted {
        Some(text) => text,
        None => "null"@,
    }
}

/// The envelope around a command: an object with its kind and its payload.
pub open spec fn envelope_text(kind: Seq<char>, reprinted: Option<Seq<char>>) -> Seq<char> {
    "{\"kind\":"@ + quoted(kind) + ",\"payload\":"@ + payload_text(reprinted) + "}"@
}

/// Writes the envelope of a command whose payload was printed as `reprinted`.
pub fn envelope_of(kind: &str, reprinted: &Option<String>) -> (out: String)
    ensures
        out@ == envelope_text(kind@, opt_text(*reprinted)),
{
    let kind_text = quote(kind);
    let payload = match reprinted {
        Some(text) => copy_text(text.as_str()),
        None => copy_text("null"),
    };
    let head = concat("{\"kind\":", kind_text.as_str());
    let middle = concat(head.as_str(), ",\"payload\":");
    let body = concat(middle.as_str(), payload.as_str());
    concat(body.as_str(), "}")
}

/// Writes the envelope of a command with a JSON payload.
pub fn envelope(kind: &str, payload_json: &str) -> (out: String)
    ensures
        out@ == envelope_text(kind@, json_reprinted(payload_json@)),
{
    let reprinted = reprint(payload_json);
    envelope_of(kind, &reprinted)
}

/// The members of an object, separated by commas. Each is a name and the text of
/// its value.
pub open spec fn members_text(fields: Seq<(Seq<char>, Seq<char>)>) -> Seq<char>
    decreases fields.len(),
{
    if fields.len() == 0 {
        Seq::empty()
    } else {
        let before = members_text(fields.drop_last());
        let last = quoted(fields.last().0).push(':') + fields.last().1;
        if fields.len() == 1 {
            last
        } else {
            before.push(',') + last
        }
    }
}

/// An object with the given members.
pub open spec fn object_text(fields: Seq<(Seq<char>, Seq<char>)>) -> Seq<char> {
    seq!['{'] + members_text(fields) + seq!['}']
}

/// The views of members.
pub open spec fn field_views(fields: Seq<(&'static str, String)>) -> Seq<(Seq<char>, Seq<char>)> {
    Seq::new(fields.len(), |i: int| (fields[i].0@, fields[i].1@))
}

/// Writes an object with the given members.
pub fn object(fields: &Vec<(&'static str, String)>) -> (out: String)
    ensures
        out@ == object_text(field_views(fields@)),
{
    let mut out = String::new();
    push_char(&mut out, '{');
    let mut i: usize = 0;
    let ghost all = field_views(fields@);
    assert(out@ =~= seq!['{'] + members_text(all.take(0)));
    while i < fields.len()
        invariant
            i <= fields.len(),
            all == field_views(fields@),
            out@ == seq!['{'] + members_text(all.take(i as int)),
        decreases fields.len() - i,
    {
        let ghost before = members_text(all.take(i as int));
        proof {
            assert(all.take(i + 1).drop_last() =~= all.take(i as int));
            assert(all.take(i + 1).last() == all[i as int]);
        }
        if i > 0 {
            push_char(&mut out, ',');
        }
        let name = quote(fields[i].0);
        out.append(name.as_str());
        push_char(&mut out, ':');
        out.append(fields[i].1.as_str());
        proof {
            let last = quoted(all[i as int].0).push(':') + all[i as int].1;
            if i == 0 {
                assert(before =~= Seq::empty());
                assert(out@ =~= seq!['{'] + last);
            } else {
                assert(out@ =~= seq!['{'] + (before.push(',') + last));
            }
        }
        i += 1;
    }
    assert(all.take(i as int) =~= all);
    push_char(&mut out, '}');
    assert(out@ =~= object_text(all));
    out
}

/// A truth value in JSON.
pub open spec fn bool_text(value: bool) -> Seq<char> {
    if value {
        "true"@
    } else {
        "false"@
    }
}

pub fn bool_of(value: bool) -> (out: String)
    ensures
        out@ == bool_text(value),
{
    if value {
        copy_text("true")
    } else {
        copy_text("false")
    }
}

/// A number in JSON, or `null`.
pub open spec fn opt_number_text(value: Option<i32>) -> Seq<char> {
    match value {
        Some(n) => signed_text(n as int),
        None => "null"@,
    }
}

pub fn opt_number_of(value: Option<i32>) -> (out: String)
    ensures
        out@ == opt_number_text(value),
{
    match value {
        Some(n) => signed_of(n),
        None => copy_text("null"),
    }
}

/// A string in JSON, or `null`.
pub open spec fn opt_quoted(value: Option<Seq<char>>) -> Seq<char> {
    match value {
        Some(text) => quoted(text),
        None => "null"@,
    }
}

pub fn opt_quote(value: &Option<String>) -> (out: String)
    ensures
        out@ == opt_quoted(opt_text(*value)),
{
    match value {
        Some(text) => quote(text.as_str()),
        None => copy_text("null"),
    }
}

/// An object with one member, whose value is a string.
pub open spec fn one_member_text(name: Seq<char>, value: Seq<char>) -> Seq<char> {
    object_text(seq![(name, quoted(value))])
}

/// Writes an object with one member, whose value is a string.
pub fn one_member(name: &'static str, value: &str) -> (out: String)
    ensures
        out@ == one_member_text(name@, value@),
{
    let mut fields: Vec<(&'static str, String)> = Vec::new();
    fields.push((name, quote(value)));
    assert(field_views(fields@) =~= seq![(name@, quoted(value@))]);
    object(&fields)
}

/// An object without members is a pair of brackets; each member stands behind the
/// others, after a comma, as its quoted name, a colon and its value.
pub proof fn law_objects_list_their_members(
    fields: Seq<(Seq<char>, Seq<char>)>,
    name: Seq<char>,
    value: Seq<char>,
)
    ensures
        object_text(Seq::empty()) == "{}"@,
        object_text(seq![(name, value)]) == "{"@ + quoted(name) + ":"@ + value + "}"@,
        fields.len() > 0 ==> object_text(fields.push((name, value))) == object_text(
            fields,
        ).drop_last() + ","@ + quoted(name) + ":"@ + value + "}"@,
{
    reveal_strlit("{}");
    reveal_strlit("{");
    reveal_strlit("}");
    reveal_strlit(":");
    reveal_strlit(",");
    assert(object_text(Seq::empty()) =~= "{}"@);
    let one = seq![(name, value)];
    assert(one.drop_last() =~= Seq::empty());
    assert(object_text(one) =~= "{"@ + quoted(name) + ":"@ + value + "}"@);
    if fields.len() > 0 {
        let more = fields.push((name, value));
        assert(more.drop_last() =~= fields);
        assert(object_text(more) =~= object_text(fields).drop_last() + ","@ + quoted(name) + ":"@
            + value + "}"@);
    }
}

/// Truth values are written as words, and what is missing as `null`.
pub proof fn law_values_are_written(flag: bool, number: i32, text: Seq<char>)
    ensures
        bool_text(flag) == (if flag {
            "true"@
        } else {
            "false"@
        }),
        opt_number_text(None) == "null"@,
        opt_number_text(Some(number)) == signed_text(number as int),
        opt_quoted(None) == "null"@,
        opt_quoted(Some(text)) == quoted(text),
        payload_text(None) == "null"@,
        payload_text(Some(text)) == text,
{
}

/// A text without quotes, backslashes and control characters is written as it is,
/// between quotes.
pub proof fn law_plain_texts_are_quoted(text: Seq<char>)
    requires
        forall|i: int|
            0 <= i < text.len() ==> (#[trigger] text[i]) != '"' && text[i] != '\\' && text[i] as u32
                >= 32,
    ensures
        quoted(text) == seq!['"'] + text + seq!['"'],
{
    lemma_plain_stays(text);
}

proof fn lemma_plain_stays(text: Seq<char>)
    requires
        forall|i: int|
            0 <= i < text.len() ==> (#[trigger] text[i]) != '"' && text[i] != '\\' && text[i] as u32
                >= 32,
    ensures
        escaped_all(text) == text,
    decreases text.len(),
{
    if text.len() > 0 {
        let rest = text.drop_last();
        let last = text[text.len() - 1];
        assert forall|i: int| 0 <= i < rest.len() implies (#[trigger] rest[i]) != '"' && rest[i]
            != '\\' && rest[i] as u32 >= 32 by {
            assert(rest[i] == text[i]);
        }
        lemma_plain_stays(rest);
        assert('\t' as u32 == 9 && '\n' as u32 == 10 && '\r' as u32 == 13);
        assert(escaped(last) == seq![last]);
        assert(rest + seq![last] =~= text);
    }
}

/// A command goes to the host as an object with its kind and its payload, and no
/// two kinds of plain names look alike.
pub proof fn law_envelopes_name_their_kind(kind: Seq<char>, reprinted: Option<Seq<char>>)
    ensures
        envelope_text(kind, reprinted) == "{\"kind\":"@ + quoted(kind) + ",\"payload\":"@ + (
        match reprinted {
            Some(text) => text,
            None => "null"@,
        }) + "}"@,
{
}

/// An object with one member that is a text.
pub proof fn law_one_member_is_written(name: Seq<char>, value: Seq<char>)
    ensures
        one_member_text(name, value) == "{"@ + quoted(name) + ":"@ + quoted(value) + "}"@,
{
    law_objects_list_their_members(Seq::empty(), name, quoted(value));
}

/// Text in quotes is written character by character: the quote and the backslash
/// behind a backslash, line breaks, tabs and their like by a letter, and the other
/// control characters by their number in hexadecimal.
pub proof fn law_special_characters_are_escaped(text: Seq<char>, c: char)
    ensures
        quoted(Seq::empty()) == seq!['"', '"'],
        quoted(text.push(c)) == quoted(text).drop_last() + escaped(c) + seq!['"'],
        escaped('"') == seq!['\\', '"'],
        escaped('\\') == seq!['\\', '\\'],
        escaped('\n') == seq!['\\', 'n'],
        escaped('\r') == seq!['\\', 'r'],
        escaped('\t') == seq!['\\', 't'],
        escaped('\u{8}') == seq!['\\', 'b'],
        escaped('\u{c}') == seq!['\\', 'f'],
        escaped('\u{1f}') == seq!['\\', 'u', '0', '0', '1', 'f'],
        escaped('\u{b}') == seq!['\\', 'u', '0', '0', '0', 'b'],
        c as u32 >= 32 && c != '"' && c != '\\' ==> escaped(c) == seq![c],
        (c as u32) < 32 && c as u32 != 8 && c as u32 != 9 && c as u32 != 10 && c as u32 != 12
            && c as u32 != 13 ==> escaped(c).len() == 6,
        hex_digit(9) == '9' && hex_digit(10) == 'a' && hex_digit(15) == 'f',
{
    assert(text.push(c).drop_last() =~= text);
    assert(quoted(text.push(c)) =~= quoted(text).drop_last() + escaped(c) + seq!['"']);
}

} // verus!
