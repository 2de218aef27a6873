//! Texts in the order of their characters.
use crate::strs::{chars_of, texts};
use vstd::prelude::*;

verus! {

/// Whether `a` stands before `b` in the order of their characters.
pub open spec fn text_le(a: Seq<char>, b: Seq<char>) -> bool
    decreases a.len(),
{
    if a.len() == 0 {
        true
    } else if b.len() == 0 {
        false
    } else if a[0] != b[0] {
        a[0] < b[0]
    } else {
        text_le(a.skip(1), b.skip(1))
    }
}

pub proof fn lemma_text_le_total(a: Seq<char>, b: Seq<char>)
    ensures
        text_le(a, b) || text_le(b, a),
    decreases a.len(),
{
    if a.len() > 0 && b.len() > 0 && a[0] == b[0] {
        lemma_text_le_total(a.skip(1), b.skip(1));
    }
}

pub proof fn lemma_text_le_transitive(a: Seq<char>, b: Seq<char>, c: Seq<char>)
    requires
        text_le(a, b),
        text_le(b, c),
    ensures
        text_le(a, c),
    decreases a.len(),
{
    if a.len() > 0 && b.len() > 0 && c.len() > 0 && a[0] == b[0] && b[0] == c[0] {
        lemma_text_le_transitive(a.skip(1), b.skip(1), c.skip(1));
    }
}

/// Whether a text stands before another, or is the same.
pub fn text_before(a: &str, b: &str) -> (out: bool)
    ensures
        out == text_le(a@, b@),
{
    let x = chars_of(a);
    let y = chars_of(b);
    let mut i: usize = 0;
    assert(x@.skip(0) =~= a@);
    assert(y@.skip(0) =~= b@);
    while i < x.len() && i < y.len() && x[i] == y[i]
        invariant
            i <= x.len(),
            i <= y.len(),
            text_le(a@, b@) == text_le(x@.skip(i as int), y@.skip(i as int)),
        decreases x.len() - i,
    {
        proof {
            assert(x@.skip(i as int)[0] == x@[i as int]);
            assert(y@.skip(i as int)[0] == y@[i as int]);
            assert(x@.skip(i as int).skip(1) =~= x@.skip(i + 1));
            assert(y@.skip(i as int).skip(1) =~= y@.skip(i + 1));
        }
        i += 1;
    }
    proof {
        if i < x.len() {
            assert(x@.skip(i as int)[0] == x@[i as int]);
        }
        if i < y.len() {
            assert(y@.skip(i as int)[0] == y@[i as int]);
        }
    }
    if i == x.len() {
        true
    } else if i == y.len() {
        false
    } else {
        x[i] < y[i]
    }
}

/// Names in ascending order.
pub open spec fn text_sorted(names: Seq<Seq<char>>) -> bool {
    forall|i: int, j: int|
        0 <= i <= j < names.len() ==> text_le(#[trigger] names[i], #[trigger] names[j])
}

/// `name` put into ascending names at its place, behind equal ones.
pub open spec fn insert_sorted(names: Seq<Seq<char>>, name: Seq<char>) -> Seq<Seq<char>>
    decreases names.len(),
{
    if names.len() == 0 || text_le(names.last(), name) {
        names.push(name)
    } else {
        insert_sorted(names.drop_last(), name).push(names.last())
    }
}

/// Inserting keeps the order and adds just the one name.
pub proof fn lemma_insert_sorted(names: Seq<Seq<char>>, name: Seq<char>)
    requires
        text_sorted(names),
    ensures
        text_sorted(insert_sorted(names, name)),
        insert_sorted(names, name).to_multiset() =~= names.to_multiset().insert(name),
        insert_sorted(names, name).len() == names.len() + 1,
    decreases names.len(),
{
    broadcast use vstd::seq_lib::group_to_multiset_ensures;

    let out = insert_sorted(names, name);
    if names.len() == 0 {
        lemma_text_le_total(name, name);
        assert(out =~= names.push(name));
    } else if text_le(names.last(), name) {
        lemma_text_le_total(name, name);
        assert forall|i: int, j: int| 0 <= i <= j < out.len() implies text_le(
            #[trigger] out[i],
            #[trigger] out[j],
        ) by {
            if j == names.len() && i < names.len() {
                assert(text_le(names[i], names[names.len() - 1]));
                lemma_text_le_transitive(names[i], names.last(), name);
            }
        }
    } else {
        let short = names.drop_last();
        assert forall|i: int, j: int| 0 <= i <= j < short.len() implies text_le(
            #[trigger] short[i],
            #[trigger] short[j],
        ) by {
            assert(text_le(names[i], names[j]));
        }
        lemma_insert_sorted(short, name);
        let inner = insert_sorted(short, name);
        lemma_text_le_total(names.last(), name);
        lemma_text_le_total(names.last(), names.last());
        assert forall|i: int| 0 <= i < inner.len() implies text_le(
            #[trigger] inner[i],
            names.last(),
        ) by {
            assert(inner.to_multiset().contains(inner[i]));
            if inner[i] != name {
                assert(short.to_multiset().contains(inner[i]));
                let k = choose|k: int| 0 <= k < short.len() && short[k] == inner[i];
                assert(text_le(names[k], names[names.len() - 1]));
            }
        }
        assert(names =~= short.push(names.last()));
    }
}

/// Puts a name at its place among ascending names.
pub fn insert_name(names: &mut Vec<String>, name: String)
    ensures
        texts(final(names)@) == insert_sorted(texts(old(names)@), name@),
{
    let mut at: usize = names.len();
    let ghost all = texts(names@);
    let ghost tail = Seq::<Seq<char>>::empty();
    assert(all.take(at as int) =~= all);
    assert(insert_sorted(all, name@) + tail =~= insert_sorted(all, name@));
    while at > 0 && !text_before(names[at - 1].as_str(), name.as_str())
        invariant
            at <= names.len(),
            all == texts(names@),
            tail == all.skip(at as int),
            insert_sorted(all.take(at as int), name@) + tail == insert_sorted(all, name@),
        decreases at,
    {
        proof {
            let head = all.take(at as int);
            assert(head.last() == names@[at - 1]@);
            assert(head.drop_last() =~= all.take(at - 1));
            let next = seq![all[at - 1]] + tail;
            assert(next =~= all.skip(at - 1));
            assert(insert_sorted(all.take(at - 1), name@) + next =~= insert_sorted(head, name@)
                + tail);
            tail = next;
        }
        at -= 1;
    }
    proof {
        let head = all.take(at as int);
        if at > 0 {
            assert(head.last() == names@[at - 1]@);
        }
        assert(insert_sorted(head, name@) == head.push(name@));
        assert(insert_sorted(all, name@) =~= head.push(name@) + all.skip(at as int));
    }
    names.insert(at, name);
    assert(texts(names@) =~= all.take(at as int).push(name@) + all.skip(at as int));
}

/// Inserting a name adds it and keeps the others, whatever their order.
pub proof fn lemma_insert_contains(names: Seq<Seq<char>>, name: Seq<char>, other: Seq<char>)
    ensures
        insert_sorted(names, name).contains(other) <==> names.contains(other) || other == name,
        insert_sorted(names, name).len() == names.len() + 1,
    decreases names.len(),
{
    let out = insert_sorted(names, name);
    if names.len() == 0 || text_le(names.last(), name) {
        assert(out[names.len() as int] == name);
        if names.contains(other) {
            let k = choose|k: int| 0 <= k < names.len() && names[k] == other;
            assert(out[k] == other);
        }
    } else {
        let rest = names.drop_last();
        lemma_insert_contains(rest, name, other);
        let before = insert_sorted(rest, name);
        if before.contains(other) {
            let k = choose|k: int| 0 <= k < before.len() && before[k] == other;
            assert(out[k] == other);
        }
        if rest.contains(other) {
            let k = choose|k: int| 0 <= k < rest.len() && rest[k] == other;
            assert(names[k] == other);
        }
        assert(out[before.len() as int] == names.last());
        assert(names[names.len() - 1] == names.last());
        if names.contains(other) {
            let k = choose|k: int| 0 <= k < names.len() && names[k] == other;
            if k < rest.len() {
                assert(rest[k] == other);
            }
        }
    }
}

/// Of two texts with a common start the one whose next character is smaller comes
/// first, and the start itself before both.
pub proof fn law_first_difference_decides(
    start: Seq<char>,
    a: Seq<char>,
    b: Seq<char>,
)
    requires
        a.len() > 0,
        b.len() > 0,
        a[0] != b[0],
    ensures
        text_le(start + a, start + b) <==> a[0] < b[0],
        text_le(start, start + a),
        !text_le(start + a, start),
        text_le(start, start),
    decreases start.len(),
{
    if start.len() == 0 {
        assert(start + a =~= a);
        assert(start + b =~= b);
    } else {
        let rest = start.skip(1);
        law_first_difference_decides(rest, a, b);
        assert((start + a).skip(1) =~= rest + a);
        assert((start + b).skip(1) =~= rest + b);
    }
}

} // verus!
