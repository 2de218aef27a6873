//! Traces of the input of a frame.
use crate::json::{bool_of, bool_text};
use crate::render_pipeline::draw::{hex_digit, push_digit};
use crate::runtime::input::{InputRecord, InputState};
use crate::runtime::key_set::KeySet;
use crate::strs::{concat, copy_text, decimal_of, decimal_text, opt_text};
use std::collections::HashMap;
use vstd::prelude::*;

verus! {

broadcast use vstd::std_specs::hash::group_hash_axioms;

/// What is known of a key before scripts change it.
#[derive(Clone, Copy, Debug, PartialEq, Eq, Structural)]
pub struct RawKey {
    pub code: u32,
    pub down: bool,
    pub down_edge: bool,
    pub up_edge: bool,
    /// The same of the left mouse button, which counts as key 1.
    pub mouse_down: bool,
    pub mouse_down_edge: bool,
    pub mouse_up_edge: bool,
    pub clicked: bool,
    /// How long the key is held, where that is known.
    pub held_ms: Option<u64>,
}

/// What a key does in a frame.
#[derive(Clone, Copy, Debug, PartialEq, Eq, Structural)]
pub struct KeyBits {
    pub push: bool,
    pub down: bool,
    pub down_edge: bool,
    pub up_edge: bool,
    pub decide: bool,
    /// The bits that have no name.
    pub rest: u32,
}

/// What a key does: it is pushed when it goes down, and again while it is held
/// for half a second or longer.
pub open spec fn raw_bits(key: RawKey) -> KeyBits {
    let mouse = key.code == 1;
    let down = key.down || (mouse && key.mouse_down);
    let edge = key.down_edge || (mouse && (key.clicked || key.mouse_down_edge));
    KeyBits {
        push: edge || (down && (key.held_ms matches Some(ms) && ms >= 500)),
        down,
        down_edge: edge,
        up_edge: key.up_edge || (mouse && key.mouse_up_edge),
        decide: edge,
        rest: 0,
    }
}

/// Finds what a key does in a frame.
pub fn capture_raw_bits(key: &RawKey) -> (out: KeyBits)
    ensures
        out == raw_bits(*key),
{
    let mouse = key.code == 1;
    let down = key.down || (mouse && key.mouse_down);
    let edge = key.down_edge || (mouse && (key.clicked || key.mouse_down_edge));
    let held = match key.held_ms {
        Some(ms) => ms >= 500,
        None => false,
    };
    KeyBits {
        push: edge || (down && held),
        down,
        down_edge: edge,
        up_edge: key.up_edge || (mouse && key.mouse_up_edge),
        decide: edge,
        rest: 0,
    }
}

/// What is known of a key, by the input of a frame and by how long keys are held.
pub open spec fn raw_key(i: InputRecord, held: Map<u32, u64>, code: u32) -> RawKey {
    RawKey {
        code,
        down: i.keys.contains(code),
        down_edge: i.keys_pressed.contains(code),
        up_edge: i.keys_released.contains(code),
        mouse_down: i.buttons.contains(1),
        mouse_down_edge: i.buttons_pressed.contains(1),
        mouse_up_edge: i.buttons_released.contains(1),
        clicked: i.clicked,
        held_ms: if held.contains_key(code) {
            Some(held[code])
        } else {
            None
        },
    }
}

/// Whether anything is known of a key in a frame.
pub open spec fn is_concerned(i: InputRecord, code: u32) -> bool {
    i.keys.contains(code) || i.keys_pressed.contains(code) || i.keys_released.contains(code)
        || i.buttons.contains(code) || i.buttons_pressed.contains(code)
        || i.buttons_released.contains(code)
}

/// A key that does nothing.
pub open spec fn no_bits() -> KeyBits {
    KeyBits { push: false, down: false, down_edge: false, up_edge: false, decide: false, rest: 0 }
}

fn is_idle(bits: &KeyBits) -> (out: bool)
    ensures
        out == (*bits == no_bits()),
{
    !bits.push && !bits.down && !bits.down_edge && !bits.up_edge && !bits.decide
        && bits.rest == 0
}

fn add_keys(all: &mut KeySet, more: &KeySet)
    requires
        old(all).wf(),
    ensures
        (*final(all)).wf(),
        final(all)@ == old(all)@.union(more@),
{
    let list = more.to_list();
    let mut i: usize = 0;
    let ghost first = all@;
    while i < list.len()
        invariant
            i <= list.len(),
            all.wf(),
            list@ == more.items(),
            all@ == first.union(Set::new(|k: u32| list@.take(i as int).contains(k))),
        decreases list.len() - i,
    {
        let ghost before = all@;
        let _new = all.insert(list[i]);
        proof {
            let now = list@.take(i + 1);
            let then = list@.take(i as int);
            assert(now.drop_last() =~= then);
            assert(now.last() == list@[i as int]);
            assert forall|k: u32| #[trigger] now.contains(k) == (then.contains(k) || k
                == list@[i as int]) by {
                if then.contains(k) {
                    let j = choose|j: int| 0 <= j < then.len() && then[j] == k;
                    assert(now[j] == k);
                }
                if k == list@[i as int] {
                    assert(now[i as int] == k);
                }
                if now.contains(k) {
                    let j = choose|j: int| 0 <= j < now.len() && now[j] == k;
                    if j < i {
                        assert(then[j] == k);
                    }
                }
            }
            assert(all@ =~= first.union(Set::new(|k: u32| now.contains(k))));
        }
        i += 1;
    }
    proof {
        assert(list@.take(i as int) =~= list@);
        assert(all@ =~= first.union(more@));
    }
}

/// What keys do in a frame before scripts change it, but for those that do
/// nothing.
spec fn told_keys(i: InputRecord, held: Map<u32, u64>, codes: Seq<u32>) -> Seq<(u32, KeyBits)>
    decreases codes.len(),
{
    if codes.len() == 0 {
        Seq::empty()
    } else {
        let before = told_keys(i, held, codes.drop_last());
        let bits = raw_bits(raw_key(i, held, codes.last()));
        if bits != no_bits() {
            before.push((codes.last(), bits))
        } else {
            before
        }
    }
}

/// Every key that is told is one of the keys and does something.
proof fn lemma_told_is_there(i: InputRecord, held: Map<u32, u64>, codes: Seq<u32>, a: int)
    requires
        0 <= a < told_keys(i, held, codes).len(),
    ensures
        ({
            let (code, bits) = told_keys(i, held, codes)[a];
            &&& codes.contains(code)
            &&& bits == raw_bits(raw_key(i, held, code))
            &&& bits != no_bits()
        }),
    decreases codes.len(),
{
    let before = told_keys(i, held, codes.drop_last());
    let code = told_keys(i, held, codes)[a].0;
    if a < before.len() {
        lemma_told_is_there(i, held, codes.drop_last(), a);
        let k = choose|k: int| 0 <= k < codes.drop_last().len() && codes.drop_last()[k] == code;
        assert(codes[k] == code);
    } else {
        assert(codes[codes.len() - 1] == code);
    }
}

/// Every key that does something is told.
proof fn lemma_there_is_told(i: InputRecord, held: Map<u32, u64>, codes: Seq<u32>, k: int)
    requires
        0 <= k < codes.len(),
        raw_bits(raw_key(i, held, codes[k])) != no_bits(),
    ensures
        exists|a: int|
            0 <= a < told_keys(i, held, codes).len() && (#[trigger] told_keys(
                i,
                held,
                codes,
            )[a]).0 == codes[k],
    decreases codes.len(),
{
    let told = told_keys(i, held, codes);
    let before = told_keys(i, held, codes.drop_last());
    if k < codes.len() - 1 {
        lemma_there_is_told(i, held, codes.drop_last(), k);
        let a = choose|a: int| 0 <= a < before.len() && (#[trigger] before[a]).0 == codes[k];
        assert(told[a].0 == codes[k]);
    } else {
        assert(told[before.len() as int].0 == codes[k]);
    }
}

/// Keys are told in the order of the keys.
proof fn lemma_told_ascends(i: InputRecord, held: Map<u32, u64>, codes: Seq<u32>)
    requires
        forall|a: int, b: int| 0 <= a < b < codes.len() ==> codes[a] < codes[b],
    ensures
        forall|a: int, b: int|
            0 <= a < b < told_keys(i, held, codes).len() ==> told_keys(i, held, codes)[a].0
                < told_keys(i, held, codes)[b].0,
    decreases codes.len(),
{
    if codes.len() > 0 {
        let told = told_keys(i, held, codes);
        let rest = codes.drop_last();
        let before = told_keys(i, held, rest);
        lemma_told_ascends(i, held, rest);
        assert forall|a: int, b: int| 0 <= a < b < told.len() implies told[a].0 < told[b].0 by {
            assert(told[a] == before[a]);
            if b < before.len() {
                assert(told[b] == before[b]);
            } else {
                lemma_told_is_there(i, held, rest, a);
                let k = choose|k: int| 0 <= k < rest.len() && rest[k] == before[a].0;
                assert(codes[k] < codes[codes.len() - 1]);
            }
        }
    }
}

/// Finds what a key does in a frame before scripts change it.
fn bits_of(input: &InputState, held: &HashMap<u32, u64>, code: u32) -> (out: KeyBits)
    requires
        input.wf(),
    ensures
        out == raw_bits(raw_key(input@, held@, code)),
{
    let key = RawKey {
        code,
        down: input.keys_down.contains(code),
        down_edge: input.keys_down_edge.contains(code),
        up_edge: input.keys_up_edge.contains(code),
        mouse_down: input.mouse_buttons_down.contains(1),
        mouse_down_edge: input.mouse_buttons_down_edge.contains(1),
        mouse_up_edge: input.mouse_buttons_up_edge.contains(1),
        clicked: input.clicked,
        held_ms: match held.get(&code) {
            Some(ms) => Some(*ms),
            None => None,
        },
    };
    assert(key == raw_key(input@, held@, code));
    capture_raw_bits(&key)
}

/// Tells the keys that do something in a frame before scripts change them, in
/// ascending order. `held` says for how many milliseconds keys are held.
pub fn capture_raw_input_state(input: &InputState, held: &HashMap<u32, u64>) -> (out: Vec<
    (u32, KeyBits),
>)
    requires
        input.wf(),
    ensures
        forall|i: int, j: int| 0 <= i < j < out@.len() ==> out@[i].0 < out@[j].0,
        forall|i: int|
            0 <= i < out@.len() ==> {
                let (code, bits) = #[trigger] out@[i];
                &&& is_concerned(input@, code)
                &&& bits == raw_bits(raw_key(input@, held@, code))
                &&& bits != no_bits()
            },
        forall|code: u32|
            is_concerned(input@, code) && raw_bits(#[trigger] raw_key(input@, held@, code))
                != no_bits() ==> exists|i: int|
                0 <= i < out@.len() && (#[trigger] out@[i]).0 == code,
{
    let mut all = KeySet::new();
    add_keys(&mut all, &input.keys_down);
    add_keys(&mut all, &input.keys_down_edge);
    add_keys(&mut all, &input.keys_up_edge);
    add_keys(&mut all, &input.mouse_buttons_down);
    add_keys(&mut all, &input.mouse_buttons_down_edge);
    add_keys(&mut all, &input.mouse_buttons_up_edge);
    let codes = all.to_list();
    assert forall|code: u32| all@.contains(code) == #[trigger] is_concerned(input@, code) by {}
    let mut out: Vec<(u32, KeyBits)> = Vec::new();
    let mut i: usize = 0;
    assert(codes@.take(0) =~= Seq::empty());
    while i < codes.len()
        invariant
            i <= codes.len(),
            input.wf(),
            out@ == told_keys(input@, held@, codes@.take(i as int)),
        decreases codes.len() - i,
    {
        let code: u32 = codes[i];
        let bits = bits_of(input, held, code);
        assert(codes@.take(i + 1).drop_last() =~= codes@.take(i as int));
        if !is_idle(&bits) {
            out.push((code, bits));
        }
        i += 1;
    }
    proof {
        assert(codes@.take(i as int) =~= codes@);
        lemma_told_ascends(input@, held@, codes@);
        assert forall|a: int| 0 <= a < out@.len() implies {
            let (code, bits) = #[trigger] out@[a];
            &&& is_concerned(input@, code)
            &&& bits == raw_bits(raw_key(input@, held@, code))
            &&& bits != no_bits()
        } by {
            lemma_told_is_there(input@, held@, codes@, a);
            assert(all@.contains(out@[a].0));
        }
        assert forall|code: u32|
            is_concerned(input@, code) && raw_bits(#[trigger] raw_key(input@, held@, code))
                != no_bits() implies exists|a: int|
            0 <= a < out@.len() && (#[trigger] out@[a]).0 == code by {
            assert(all@.contains(code));
            let k = choose|k: int| 0 <= k < codes@.len() && codes@[k] == code;
            lemma_there_is_told(input@, held@, codes@, k);
        }
    }
    out
}

/// A name behind those before it.
pub open spec fn with_name(before: Seq<char>, name: Seq<char>, on: bool) -> Seq<char> {
    if !on {
        before
    } else if before.len() == 0 {
        name
    } else {
        before + "|"@ + name
    }
}

/// A number in hexadecimal digits.
pub open spec fn hex_text(n: nat) -> Seq<char>
    decreases n,
{
    if n < 16 {
        seq![hex_digit(n as u8)]
    } else {
        hex_text(n / 16).push(hex_digit((n % 16) as u8))
    }
}

fn hex_of(n: u32) -> (out: String)
    ensures
        out@ == hex_text(n as nat),
    decreases n,
{
    let mut out = if n < 16 {
        String::new()
    } else {
        hex_of(n / 16)
    };
    let ghost before = out@;
    push_digit(&mut out, (n % 16) as u8);
    assert(n < 16 ==> before =~= Seq::empty());
    assert(n < 16 ==> out@ =~= seq![hex_digit(n as u8)]);
    out
}

/// What a key does, in words; `0` where it does nothing. Bits without a name are
/// told where there are no others, in hexadecimal.
pub open spec fn bits_text(bits: KeyBits) -> Seq<char> {
    let a = with_name(Seq::empty(), "PUSH"@, bits.push);
    let b = with_name(a, "DOWN"@, bits.down);
    let c = with_name(b, "DOWN_EDGE"@, bits.down_edge);
    let d = with_name(c, "UP_EDGE"@, bits.up_edge);
    let e = with_name(d, "DECIDE"@, bits.decide);
    if e.len() > 0 {
        e
    } else if bits.rest != 0 {
        "0x"@ + hex_text(bits.rest as nat)
    } else {
        "0"@
    }
}

fn add_name(text: String, name: &str, on: bool) -> (out: String)
    ensures
        out@ == with_name(text@, name@, on),
{
    if !on {
        text
    } else if text.as_str().is_empty() {
        copy_text(name)
    } else {
        let head = concat(text.as_str(), "|");
        concat(head.as_str(), name)
    }
}

/// Tells what a key does.
pub fn format_bits(bits: &KeyBits) -> (out: String)
    ensures
        out@ == bits_text(*bits),
{
    let none = String::new();
    assert(none@ =~= Seq::empty());
    let a = add_name(none, "PUSH", bits.push);
    let b = add_name(a, "DOWN", bits.down);
    let c = add_name(b, "DOWN_EDGE", bits.down_edge);
    let d = add_name(c, "UP_EDGE", bits.up_edge);
    let e = add_name(d, "DECIDE", bits.decide);
    if !e.as_str().is_empty() {
        e
    } else if bits.rest != 0 {
        concat("0x", hex_of(bits.rest).as_str())
    } else {
        copy_text("0")
    }
}

/// Several keys, one behind the other.
pub open spec fn keys_text(keys: Seq<(u32, KeyBits)>) -> Seq<char>
    decreases keys.len(),
{
    if keys.len() == 0 {
        Seq::empty()
    } else {
        let last = decimal_text(keys.last().0 as nat) + ":"@ + bits_text(keys.last().1);
        if keys.len() == 1 {
            last
        } else {
            keys_text(keys.drop_last()) + ", "@ + last
        }
    }
}

/// Tells what several keys do; `-` where there are none.
pub fn format_keys(keys: &Vec<(u32, KeyBits)>) -> (out: String)
    ensures
        out@ == (if keys@.len() == 0 {
            "-"@
        } else {
            keys_text(keys@)
        }),
{
    if keys.len() == 0 {
        return copy_text("-");
    }
    let mut out = String::new();
    let mut i: usize = 0;
    assert(keys@.take(0) =~= Seq::empty());
    assert(out@ =~= Seq::empty());
    while i < keys.len()
        invariant
            i <= keys.len(),
            out@ == keys_text(keys@.take(i as int)),
        decreases keys.len() - i,
    {
        proof {
            assert(keys@.take(i + 1).drop_last() =~= keys@.take(i as int));
            assert(keys@.take(i + 1).last() == keys@[i as int]);
        }
        let head = concat(decimal_of(keys[i].0 as u64).as_str(), ":");
        let key = concat(head.as_str(), format_bits(&keys[i].1).as_str());
        if i == 0 {
            out = key;
        } else {
            out.append(", ");
            out.append(key.as_str());
            assert(out@ =~= keys_text(keys@.take(i as int)) + ", "@ + key@);
        }
        i += 1;
    }
    assert(keys@.take(i as int) =~= keys@);
    out
}

// ── The line of a frame ────────────────────────────────────────

/// What is traced of a frame with input.
pub struct InputTelemetry {
    /// What keys did, what scripts made of them, and what counted.
    pub raw: Vec<(u32, KeyBits)>,
    pub overrides: Vec<(u32, KeyBits)>,
    pub override_all: Option<KeyBits>,
    pub effective: Vec<(u32, KeyBits)>,
    pub pointer_target: Option<String>,
    pub layer_outcome: Option<String>,
    pub push_outcome: String,
    pub default_role_allowed: bool,
    pub user_input: bool,
    pub advance: bool,
    pub wait_before: Option<String>,
    pub wait_after: Option<String>,
    /// The script and the line in it.
    pub script_before: Option<(String, usize)>,
    pub script_after: Option<(String, usize)>,
    pub queue_len_before: usize,
    pub queue_len_after: usize,
}

/// What a key does in a list, nothing where it is not there.
pub open spec fn bits_in(keys: Seq<(u32, KeyBits)>, code: u32) -> KeyBits
    decreases keys.len(),
{
    if keys.len() == 0 {
        no_bits()
    } else if keys[0].0 == code {
        keys[0].1
    } else {
        bits_in(keys.skip(1), code)
    }
}

fn find_bits(keys: &Vec<(u32, KeyBits)>, code: u32) -> (out: KeyBits)
    ensures
        out == bits_in(keys@, code),
{
    let mut i: usize = 0;
    assert(keys@.skip(0) =~= keys@);
    while i < keys.len()
        invariant
            i <= keys.len(),
            bits_in(keys@.skip(i as int), code) == bits_in(keys@, code),
        decreases keys.len() - i,
    {
        assert(keys@.skip(i as int)[0] == keys@[i as int]);
        assert(keys@.skip(i as int).skip(1) =~= keys@.skip(i + 1));
        if keys[i].0 == code {
            return keys[i].1;
        }
        i += 1;
    }
    KeyBits { push: false, down: false, down_edge: false, up_edge: false, decide: false, rest: 0 }
}

/// The overrides that changed something, among the first `n`.
pub open spec fn real_overrides(
    overrides: Seq<(u32, KeyBits)>,
    raw: Seq<(u32, KeyBits)>,
    n: int,
) -> Seq<(u32, KeyBits)>
    decreases n,
{
    if n <= 0 {
        Seq::empty()
    } else {
        let before = real_overrides(overrides, raw, n - 1);
        if bits_in(raw, overrides[n - 1].0) != overrides[n - 1].1 {
            before.push(overrides[n - 1])
        } else {
            before
        }
    }
}

fn changed_overrides(overrides: &Vec<(u32, KeyBits)>, raw: &Vec<(u32, KeyBits)>) -> (out: Vec<
    (u32, KeyBits),
>)
    ensures
        out@ == real_overrides(overrides@, raw@, overrides@.len() as int),
{
    let mut out: Vec<(u32, KeyBits)> = Vec::new();
    let mut i: usize = 0;
    while i < overrides.len()
        invariant
            i <= overrides.len(),
            out@ == real_overrides(overrides@, raw@, i as int),
        decreases overrides.len() - i,
    {
        let bits = find_bits(raw, overrides[i].0);
        if bits != overrides[i].1 {
            out.push(overrides[i]);
        }
        i += 1;
    }
    out
}

/// Several keys; `-` where there are none.
pub open spec fn keys_or_dash(keys: Seq<(u32, KeyBits)>) -> Seq<char> {
    if keys.len() == 0 {
        "-"@
    } else {
        keys_text(keys)
    }
}

/// What scripts changed: what holds for all keys, and then single keys.
pub open spec fn overrides_text(all: Option<KeyBits>, changed: Seq<(u32, KeyBits)>) -> Seq<char> {
    match all {
        Some(bits) => if changed.len() == 0 {
            "all:"@ + bits_text(bits)
        } else {
            "all:"@ + bits_text(bits) + ", "@ + keys_text(changed)
        },
        None => keys_or_dash(changed),
    }
}

fn format_overrides(all: &Option<KeyBits>, changed: &Vec<(u32, KeyBits)>) -> (out: String)
    ensures
        out@ == overrides_text(*all, changed@),
{
    match all {
        Some(bits) => {
            let mut out = concat("all:", format_bits(bits).as_str());
            if changed.len() > 0 {
                out.append(", ");
                out.append(format_keys(changed).as_str());
            }
            out
        },
        None => format_keys(changed),
    }
}

/// A text, or `-` where there is none.
pub open spec fn or_dash(text: Option<Seq<char>>) -> Seq<char> {
    match text {
        Some(t) => t,
        None => "-"@,
    }
}

fn text_or_dash(text: &Option<String>) -> (out: String)
    ensures
        out@ == or_dash(opt_text(*text)),
{
    match text {
        Some(t) => copy_text(t.as_str()),
        None => copy_text("-"),
    }
}

/// A place in a script, or `-` where there is none.
pub open spec fn script_place(place: Option<(String, usize)>) -> Seq<char> {
    match place {
        Some((file, line)) => file@ + ":"@ + decimal_text(line as nat),
        None => "-"@,
    }
}

fn format_place(place: &Option<(String, usize)>) -> (out: String)
    ensures
        out@ == script_place(*place),
{
    match place {
        Some((file, line)) => {
            let mut out = concat(file.as_str(), ":");
            out.append(decimal_of(*line as u64).as_str());
            out
        },
        None => copy_text("-"),
    }
}

/// A part of the line: its name, what was before and what was after.
pub open spec fn change_text(name: Seq<char>, before: Seq<char>, after: Seq<char>) -> Seq<char> {
    name + "={"@ + before + "→"@ + after + "}"@
}

fn add_change(line: &mut String, name: &str, before: &str, after: &str)
    ensures
        final(line)@ == old(line)@ + change_text(name@, before@, after@),
{
    line.append(name);
    line.append("={");
    line.append(before);
    line.append("→");
    line.append(after);
    line.append("}");
    assert(line@ =~= old(line)@ + change_text(name@, before@, after@));
}

/// The keys in the line of a frame.
pub open spec fn keys_part(t: InputTelemetry) -> Seq<char> {
    "[INPUT-TICK] raw={"@ + keys_or_dash(t.raw@) + "} override={"@ + overrides_text(
        t.override_all,
        real_overrides(t.overrides@, t.raw@, t.overrides@.len() as int),
    ) + "} effective={"@ + keys_or_dash(t.effective@) + "}"@
}

/// What was decided, in the line of a frame.
pub open spec fn decisions_part(t: InputTelemetry) -> Seq<char> {
    " ptr="@ + or_dash(opt_text(t.pointer_target)) + " layer="@ + or_dash(
        opt_text(t.layer_outcome),
    ) + " push="@ + t.push_outcome@ + " role_allow="@ + bool_text(t.default_role_allowed)
        + " user_input="@ + bool_text(t.user_input) + " advance="@ + bool_text(t.advance)
}

/// What changed, in the line of a frame.
pub open spec fn changes_part(t: InputTelemetry) -> Seq<char> {
    " "@ + change_text(
        "wait"@,
        or_dash(opt_text(t.wait_before)),
        or_dash(opt_text(t.wait_after)),
    ) + " "@ + change_text("pc"@, script_place(t.script_before), script_place(t.script_after))
        + " "@ + change_text(
        "queue"@,
        decimal_text(t.queue_len_before as nat),
        decimal_text(t.queue_len_after as nat),
    )
}

impl InputTelemetry {
    fn keys_line(&self) -> (out: String)
        ensures
            out@ == keys_part(*self),
    {
        let changed = changed_overrides(&self.overrides, &self.raw);
        let mut out = concat("[INPUT-TICK] raw={", format_keys(&self.raw).as_str());
        out.append("} override={");
        out.append(format_overrides(&self.override_all, &changed).as_str());
        out.append("} effective={");
        out.append(format_keys(&self.effective).as_str());
        out.append("}");
        out
    }

    fn decisions_line(&self) -> (out: String)
        ensures
            out@ == decisions_part(*self),
    {
        let mut out = concat(" ptr=", text_or_dash(&self.pointer_target).as_str());
        out.append(" layer=");
        out.append(text_or_dash(&self.layer_outcome).as_str());
        out.append(" push=");
        out.append(self.push_outcome.as_str());
        out.append(" role_allow=");
        out.append(bool_of(self.default_role_allowed).as_str());
        out.append(" user_input=");
        out.append(bool_of(self.user_input).as_str());
        out.append(" advance=");
        out.append(bool_of(self.advance).as_str());
        out
    }

    fn changes_line(&self) -> (out: String)
        ensures
            out@ == changes_part(*self),
    {
        let mut out = copy_text(" ");
        let wait_before = text_or_dash(&self.wait_before);
        let wait_after = text_or_dash(&self.wait_after);
        add_change(&mut out, "wait", wait_before.as_str(), wait_after.as_str());
        out.append(" ");
        let place_before = format_place(&self.script_before);
        let place_after = format_place(&self.script_after);
        add_change(&mut out, "pc", place_before.as_str(), place_after.as_str());
        out.append(" ");
        let queue_before = decimal_of(self.queue_len_before as u64);
        let queue_after = decimal_of(self.queue_len_after as u64);
        add_change(&mut out, "queue", queue_before.as_str(), queue_after.as_str());
        assert(out@ =~= changes_part(*self));
        out
    }

    /// Tells a frame with input in one line.
    pub fn emit(&self) -> (out: String)
        ensures
            out@ == keys_part(*self) + decisions_part(*self) + changes_part(*self),
    {
        let mut out = self.keys_line();
        out.append(self.decisions_line().as_str());
        out.append(self.changes_line().as_str());
        out
    }
}

/// Keys that scripts left as they were are not told of as overridden.
pub proof fn law_unchanged_keys_are_not_overrides(
    overrides: Seq<(u32, KeyBits)>,
    raw: Seq<(u32, KeyBits)>,
    n: int,
)
    requires
        0 <= n <= overrides.len(),
        forall|i: int|
            0 <= i < overrides.len() ==> bits_in(raw, (#[trigger] overrides[i]).0)
                == overrides[i].1,
    ensures
        real_overrides(overrides, raw, n).len() == 0,
    decreases n,
{
    if n > 0 {
        law_unchanged_keys_are_not_overrides(overrides, raw, n - 1);
        assert(bits_in(raw, overrides[n - 1].0) == overrides[n - 1].1);
    }
}

/// A key is down while it is held, and key 1 also while the left mouse button is; so
/// it is with its edges, where a click counts as one that goes down.
pub proof fn law_keys_and_the_mouse(key: RawKey)
    ensures
        ({
            let bits = raw_bits(key);
            let mouse = key.code == 1;
            &&& bits.down <==> key.down || (mouse && key.mouse_down)
            &&& bits.down_edge <==> key.down_edge || (mouse && (key.clicked
                || key.mouse_down_edge))
            &&& bits.up_edge <==> key.up_edge || (mouse && key.mouse_up_edge)
            &&& bits.decide <==> bits.down_edge
            &&& bits.rest == 0
        }),
{
}

/// A key is pushed when it goes down, and again all the time once it is held for half
/// a second.
pub proof fn law_held_keys_are_pushed_again(key: RawKey)
    ensures
        raw_bits(key).down_edge ==> raw_bits(key).push,
        !raw_bits(key).down_edge ==> (raw_bits(key).push <==> raw_bits(key).down && key.held_ms
            is Some && key.held_ms->0 >= 500),
{
}

/// What a key did is taken from the keys and the left button of this frame, and how
/// long it is held from what is known of that.
pub proof fn law_keys_are_read_from_input(i: InputRecord, held: Map<u32, u64>, code: u32)
    ensures
        ({
            let key = raw_key(i, held, code);
            &&& key.code == code
            &&& key.down == i.keys.contains(code)
            &&& key.down_edge == i.keys_pressed.contains(code)
            &&& key.up_edge == i.keys_released.contains(code)
            &&& key.mouse_down == i.buttons.contains(1)
            &&& key.mouse_down_edge == i.buttons_pressed.contains(1)
            &&& key.mouse_up_edge == i.buttons_released.contains(1)
            &&& key.clicked == i.clicked
            &&& key.held_ms is Some <==> held.contains_key(code)
            &&& key.held_ms matches Some(ms) ==> ms == held[code]
        }),
        is_concerned(i, code) <==> i.keys.contains(code) || i.keys_pressed.contains(code)
            || i.keys_released.contains(code) || i.buttons.contains(code)
            || i.buttons_pressed.contains(code) || i.buttons_released.contains(code),
{
}

/// The bits of a key are told by their names in one order, with strokes between
/// them. Without a name that is on, bits that have none are told in hexadecimal, and
/// nothing as 0.
pub proof fn law_bits_are_told_by_name(bits: KeyBits)
    ensures
        ({
            let none = !bits.push && !bits.down && !bits.down_edge && !bits.up_edge && !bits.decide;
            &&& none && bits.rest == 0 ==> bits_text(bits) == "0"@
            &&& none && bits.rest != 0 ==> bits_text(bits) == "0x"@ + hex_text(bits.rest as nat)
            &&& bits.push && !bits.down && !bits.down_edge && !bits.up_edge && !bits.decide
                ==> bits_text(bits) == "PUSH"@
            &&& bits.push && bits.down && !bits.down_edge && !bits.up_edge && !bits.decide
                ==> bits_text(bits) == "PUSH"@ + "|"@ + "DOWN"@
            &&& bits.push && bits.down && bits.down_edge && !bits.up_edge && !bits.decide
                ==> bits_text(bits) == "PUSH"@ + "|"@ + "DOWN"@ + "|"@ + "DOWN_EDGE"@
            &&& bits.push && bits.down && bits.down_edge && bits.up_edge && !bits.decide
                ==> bits_text(bits) == "PUSH"@ + "|"@ + "DOWN"@ + "|"@ + "DOWN_EDGE"@ + "|"@
                + "UP_EDGE"@
            &&& bits.push && bits.down && bits.down_edge && bits.up_edge && bits.decide
                ==> bits_text(bits) == "PUSH"@ + "|"@ + "DOWN"@ + "|"@ + "DOWN_EDGE"@ + "|"@
                + "UP_EDGE"@ + "|"@ + "DECIDE"@
        }),
        forall|before: Seq<char>, name: Seq<char>| #[trigger]
            with_name(before, name, false) == before,
        forall|before: Seq<char>, name: Seq<char>|
            before.len() > 0 ==> #[trigger] with_name(before, name, true) == before + "|"@ + name,
        forall|name: Seq<char>| #[trigger] with_name(Seq::empty(), name, true) == name,
{
    reveal_strlit("PUSH");
    reveal_strlit("DOWN");
    reveal_strlit("DOWN_EDGE");
    reveal_strlit("UP_EDGE");
    reveal_strlit("DECIDE");
}

/// A number in hexadecimal is read back sixteen by sixteen.
pub proof fn law_hexadecimal_numbers(n: nat, d: nat)
    requires
        d < 16,
    ensures
        hex_text(d) == seq![hex_digit(d as u8)],
        n > 0 ==> hex_text(n * 16 + d) == hex_text(n).push(hex_digit(d as u8)),
{
    let whole = n * 16 + d;
    assert(whole / 16 == n && whole % 16 == d);
}

/// The keys of a list are told one behind the other, with commas between them.
pub proof fn law_keys_are_told_in_order(keys: Seq<(u32, KeyBits)>, key: (u32, KeyBits))
    ensures
        keys_or_dash(Seq::empty()) == "-"@,
        keys.len() == 0 ==> keys_text(keys.push(key)) == decimal_text(key.0 as nat) + ":"@
            + bits_text(key.1),
        keys.len() > 0 ==> keys_text(keys.push(key)) == keys_text(keys) + ", "@ + (decimal_text(
            key.0 as nat,
        ) + ":"@ + bits_text(key.1)),
        keys_or_dash(keys.push(key)) == keys_text(keys.push(key)),
{
    assert(keys.push(key).drop_last() =~= keys);
}

/// The bits of a key are those that the list gives first for it, and none where it
/// gives none.
pub proof fn law_keys_are_found(keys: Seq<(u32, KeyBits)>, code: u32, i: int)
    ensures
        0 <= i < keys.len() && keys[i].0 == code && (forall|j: int|
            0 <= j < i ==> (#[trigger] keys[j]).0 != code) ==> bits_in(keys, code) == keys[i].1,
        (forall|j: int| 0 <= j < keys.len() ==> (#[trigger] keys[j]).0 != code) ==> bits_in(
            keys,
            code,
        ) == no_bits(),
        no_bits().rest == 0 && !no_bits().push && !no_bits().down && !no_bits().down_edge,
        !no_bits().up_edge && !no_bits().decide,
    decreases keys.len(),
{
    if keys.len() > 0 {
        let rest = keys.skip(1);
        assert forall|j: int| 0 <= j < rest.len() implies #[trigger] rest[j] == keys[j + 1] by {}
        if keys[0].0 != code {
            law_keys_are_found(rest, code, i - 1);
        }
    }
}

/// Of what scripts made of keys only what differs from what the keys did is told.
pub proof fn law_real_overrides_differ(
    overrides: Seq<(u32, KeyBits)>,
    raw: Seq<(u32, KeyBits)>,
    n: int,
)
    requires
        0 <= n < overrides.len(),
    ensures
        real_overrides(overrides, raw, 0).len() == 0,
        bits_in(raw, overrides[n].0) == overrides[n].1 ==> real_overrides(overrides, raw, n + 1)
            == real_overrides(overrides, raw, n),
        bits_in(raw, overrides[n].0) != overrides[n].1 ==> real_overrides(overrides, raw, n + 1)
            == real_overrides(overrides, raw, n).push(overrides[n]),
{
}

/// What holds for every key comes first, and then what holds for some.
pub proof fn law_overrides_of_all_keys_come_first(
    all: KeyBits,
    changed: Seq<(u32, KeyBits)>,
)
    ensures
        overrides_text(None, changed) == keys_or_dash(changed),
        changed.len() == 0 ==> overrides_text(Some(all), changed) == "all:"@ + bits_text(all),
        changed.len() > 0 ==> overrides_text(Some(all), changed) == "all:"@ + bits_text(all)
            + ", "@ + keys_text(changed),
{
}

/// What is missing is told by a dash, a place by its file and its line, and a change
/// by what was before and after it.
pub proof fn law_changes_are_told(
    text: Seq<char>,
    place: (String, usize),
    name: Seq<char>,
    before: Seq<char>,
)
    ensures
        or_dash(None) == "-"@,
        or_dash(Some(text)) == text,
        script_place(None) == "-"@,
        script_place(Some(place)) == place.0@ + ":"@ + decimal_text(place.1 as nat),
        change_text(name, before, text) == name + "={"@ + before + "→"@ + text + "}"@,
{
}

/// A line about input tells what keys did, what scripts made of them and what
/// counted, in this order, each in braces.
pub proof fn law_lines_tell_keys_first(t: InputTelemetry)
    ensures
        keys_part(t) == "[INPUT-TICK] raw={"@ + keys_or_dash(t.raw@) + "} override={"@
            + overrides_text(
            t.override_all,
            real_overrides(t.overrides@, t.raw@, t.overrides@.len() as int),
        ) + "} effective={"@ + keys_or_dash(t.effective@) + "}"@,
        decisions_part(t) == " ptr="@ + or_dash(opt_text(t.pointer_target)) + " layer="@ + or_dash(
            opt_text(t.layer_outcome),
        ) + " push="@ + t.push_outcome@ + " role_allow="@ + (if t.default_role_allowed {
            "true"@
        } else {
            "false"@
        }) + " user_input="@ + (if t.user_input {
            "true"@
        } else {
            "false"@
        }) + " advance="@ + (if t.advance {
            "true"@
        } else {
            "false"@
        }),
        changes_part(t) == " "@ + ("wait"@ + "={"@ + or_dash(opt_text(t.wait_before)) + "→"@
            + or_dash(opt_text(t.wait_after)) + "}"@) + " "@ + ("pc"@ + "={"@ + script_place(
            t.script_before,
        ) + "→"@ + script_place(t.script_after) + "}"@) + " "@ + ("queue"@ + "={"@ + decimal_text(
            t.queue_len_before as nat,
        ) + "→"@ + decimal_text(t.queue_len_after as nat) + "}"@),
{
}

} // verus!
