//! Which lines of which script have been read.
use crate::name_map::{lemma_item_is_mapped, lemma_key_has_item, NameMap};
use vstd::prelude::*;

verus! {

/// A set of line numbers, kept in ascending order.
pub struct LineSet {
    lines: Vec<usize>,
}

/// Numbers in strictly ascending order.
pub open spec fn ascending(lines: Seq<usize>) -> bool {
    forall|i: int, j: int| 0 <= i < j < lines.len() ==> lines[i] < lines[j]
}

impl LineSet {
    pub closed spec fn items(self) -> Seq<usize> {
        self.lines@
    }

    pub open spec fn wf(self) -> bool {
        ascending(self.items())
    }

    pub open spec fn has(self, line: usize) -> bool {
        self.items().contains(line)
    }

    pub fn new() -> (out: Self)
        ensures
            out.wf(),
            forall|l: usize| !out.has(l),
    {
        LineSet { lines: Vec::new() }
    }

    pub fn contains(&self, line: usize) -> (out: bool)
        ensures
            out == self.has(line),
    {
        let mut i: usize = 0;
        while i < self.lines.len()
            invariant
                i <= self.lines.len(),
                forall|j: int| 0 <= j < i ==> self.lines@[j] != line,
            decreases self.lines.len() - i,
        {
            if self.lines[i] == line {
                return true;
            }
            i += 1;
        }
        false
    }

    /// Adds a line; returns whether it was new.
    pub fn insert(&mut self, line: usize) -> (out: bool)
        requires
            old(self).wf(),
        ensures
            final(self).wf(),
            out == !old(self).has(line),
            forall|l: usize| final(self).has(l) == (old(self).has(l) || l == line),
    {
        let mut at: usize = 0;
        while at < self.lines.len() && self.lines[at] < line
            invariant
                at <= self.lines.len(),
                forall|j: int| 0 <= j < at ==> self.lines@[j] < line,
            decreases self.lines.len() - at,
        {
            at += 1;
        }
        if at < self.lines.len() && self.lines[at] == line {
            return false;
        }
        let ghost before = self.lines@;
        self.lines.insert(at, line);
        proof {
            let after = self.lines@;
            assert(after == before.insert(at as int, line));
            assert forall|l: usize| self.has(l) == (before.contains(l) || l == line) by {
                if before.contains(l) {
                    let k = choose|k: int| 0 <= k < before.len() && before[k] == l;
                    assert(after[if k < at {
                        k
                    } else {
                        k + 1
                    }] == l);
                }
                if l == line {
                    assert(after[at as int] == line);
                }
                if after.contains(l) && l != line {
                    let k = choose|k: int| 0 <= k < after.len() && after[k] == l;
                    assert(before[if k < at {
                        k
                    } else {
                        k - 1
                    }] == l);
                }
            }
        }
        true
    }

    /// The lines in ascending order.
    pub fn to_list(&self) -> (out: Vec<usize>)
        ensures
            out@ == self.items(),
    {
        let mut out: Vec<usize> = Vec::new();
        let mut i: usize = 0;
        while i < self.lines.len()
            invariant
                i <= self.lines.len(),
                out@ == self.lines@.take(i as int),
            decreases self.lines.len() - i,
        {
            out.push(self.lines[i]);
            i += 1;
            assert(out@ =~= self.lines@.take(i as int));
        }
        assert(out@ =~= self.lines@);
        out
    }
}

/// The lines read so far, by script.
pub struct ReadLines {
    scripts: NameMap<LineSet>,
}

impl ReadLines {
    /// The read lines of the scripts that have any.
    pub closed spec fn map(self) -> Map<Seq<char>, LineSet> {
        self.scripts@
    }

    pub closed spec fn wf(self) -> bool {
        &&& self.scripts.wf()
        &&& forall|k: Seq<char>| #[trigger] self.map().contains_key(k) ==> self.map()[k].wf()
    }

    /// The scripts that have an entry, be it one without lines.
    pub open spec fn scripts(self) -> Set<Seq<char>> {
        self.map().dom()
    }

    /// Whether a line of a script has been read.
    pub open spec fn read(self, script: Seq<char>, line: usize) -> bool {
        self.map().contains_key(script) && self.map()[script].has(line)
    }

    pub fn new() -> (out: Self)
        ensures
            out.wf(),
            out.map() == Map::<Seq<char>, LineSet>::empty(),
            forall|s: Seq<char>, l: usize| !out.read(s, l),
    {
        ReadLines { scripts: NameMap::new() }
    }

    pub fn is_read(&self, script: &str, line: usize) -> (out: bool)
        ensures
            out == self.read(script@, line),
    {
        match self.scripts.get(script) {
            Some(lines) => lines.contains(line),
            None => false,
        }
    }

    /// The set of a script, taken out; an empty one where there is none.
    fn take(&mut self, script: &str) -> (out: LineSet)
        requires
            old(self).wf(),
        ensures
            final(self).wf(),
            out.wf(),
            forall|l: usize| out.has(l) == old(self).read(script@, l),
            final(self).map() == old(self).map().remove(script@),
    {
        match self.scripts.remove(script) {
            Some(lines) => {
                assert(old(self).map().contains_key(script@));
                lines
            },
            None => LineSet::new(),
        }
    }

    /// Marks a line as read; returns whether it was unread before.
    pub fn mark_read(&mut self, script: &str, line: usize) -> (out: bool)
        requires
            old(self).wf(),
        ensures
            final(self).wf(),
            out == !old(self).read(script@, line),
            forall|s: Seq<char>, l: usize| #[trigger]
                final(self).read(s, l) == (old(self).read(s, l) || (s == script@ && l == line)),
            final(self).scripts() == old(self).scripts().insert(script@),
    {
        let mut lines = self.take(script);
        let fresh = lines.insert(line);
        self.scripts.insert(script, lines);
        fresh
    }

    /// Adds a list of lines of a script.
    fn add_lines(&mut self, script: &str, list: &Vec<usize>)
        requires
            old(self).wf(),
        ensures
            final(self).wf(),
            forall|s: Seq<char>, l: usize| #[trigger]
                final(self).read(s, l) == (old(self).read(s, l) || (s == script@ && list@.contains(
                    l,
                ))),
            final(self).scripts() == old(self).scripts().insert(script@),
    {
        let mut lines = self.take(script);
        let ghost start = lines;
        let mut i: usize = 0;
        while i < list.len()
            invariant
                i <= list.len(),
                lines.wf(),
                forall|l: usize| #[trigger]
                    lines.has(l) == (start.has(l) || list@.take(i as int).contains(l)),
            decreases list.len() - i,
        {
            let ghost before = lines;
            lines.insert(list[i]);
            proof {
                let line = list@[i as int];
                assert forall|l: usize| #[trigger] lines.has(l) == (start.has(l) || list@.take(
                    i + 1,
                ).contains(l)) by {
                    if list@.take(i as int).contains(l) {
                        let k = choose|k: int| 0 <= k < i && list@.take(i as int)[k] == l;
                        assert(list@.take(i + 1)[k] == l);
                    }
                    if l == line {
                        assert(list@.take(i + 1)[i as int] == l);
                    }
                    let longer = list@.take(i + 1);
                    if longer.contains(l) && l != line {
                        let k = choose|k: int| 0 <= k < longer.len() && longer[k] == l;
                        assert(list@.take(i as int)[k] == l);
                    }
                    assert(before.has(l) == (start.has(l) || list@.take(i as int).contains(l)));
                }
            }
            i += 1;
        }
        assert(list@.take(i as int) =~= list@);
        self.scripts.insert(script, lines);
    }

    /// The read lines as lists in ascending order, by script.
    pub fn export(&self) -> (out: NameMap<Vec<usize>>)
        requires
            self.wf(),
        ensures
            out.wf(),
            forall|s: Seq<char>| #[trigger] out@.contains_key(s) == self.map().contains_key(s),
            forall|s: Seq<char>| #[trigger]
                out@.contains_key(s) ==> out@[s]@ == self.map()[s].items() && ascending(out@[s]@),
    {
        let mut out: NameMap<Vec<usize>> = NameMap::new();
        let mut i: usize = 0;
        let ghost items = self.scripts.items();
        while i < self.scripts.len()
            invariant
                i <= items.len(),
                items == self.scripts.items(),
                self.wf(),
                out.wf(),
                forall|s: Seq<char>| #[trigger]
                    out@.contains_key(s) == (exists|k: int|
                        0 <= k < i && (#[trigger] items[k]).0@ == s),
                forall|s: Seq<char>| #[trigger]
                    out@.contains_key(s) ==> self.map().contains_key(s) && out@[s]@
                        == self.map()[s].items(),
            decreases items.len() - i,
        {
            let list = self.scripts.value_at(i).to_list();
            let ghost before = out@;
            proof {
                lemma_item_is_mapped(self.scripts, i as int);
            }
            out.insert(self.scripts.key_at(i), list);
            proof {
                let key = items[i as int].0@;
                assert forall|s: Seq<char>| #[trigger] out@.contains_key(s) == (exists|k: int|
                    0 <= k < i + 1 && (#[trigger] items[k]).0@ == s) by {
                    if before.contains_key(s) {
                        let k = choose|k: int| 0 <= k < i && (#[trigger] items[k]).0@ == s;
                        assert(items[k].0@ == s);
                    }
                    if s == key {
                        assert(items[i as int].0@ == s);
                    }
                    if exists|k: int| 0 <= k < i + 1 && (#[trigger] items[k]).0@ == s {
                        let k = choose|k: int| 0 <= k < i + 1 && (#[trigger] items[k]).0@ == s;
                        if k < i {
                            assert(before.contains_key(s));
                        }
                    }
                }
            }
            i += 1;
        }
        proof {
            assert forall|s: Seq<char>| #[trigger] out@.contains_key(s) == self.map().contains_key(
                s,
            ) by {
                if self.map().contains_key(s) {
                    lemma_key_has_item(self.scripts, s);
                    let k = choose|k: int|
                        0 <= k < items.len() && (#[trigger] items[k]).0@ == s;
                    assert(items[k].0@ == s);
                }
            }
            assert forall|s: Seq<char>| #[trigger] out@.contains_key(s) implies out@[s]@
                == self.map()[s].items() && ascending(out@[s]@) by {
                assert(self.map()[s].wf());
            }
        }
        out
    }

    /// Adds exported lines to those read already.
    pub fn import(&mut self, data: &NameMap<Vec<usize>>)
        requires
            old(self).wf(),
            data.wf(),
        ensures
            final(self).wf(),
            forall|s: Seq<char>, l: usize| #[trigger]
                final(self).read(s, l) == (old(self).read(s, l) || listed(data@, s, l)),
            final(self).scripts() == old(self).scripts().union(data@.dom()),
    {
        let mut i: usize = 0;
        let ghost items = data.items();
        while i < data.len()
            invariant
                i <= items.len(),
                items == data.items(),
                data.wf(),
                self.wf(),
                forall|s: Seq<char>, l: usize| #[trigger]
                    self.read(s, l) == (old(self).read(s, l) || listed_before(items, i as int, s, l)),
                forall|s: Seq<char>| #[trigger]
                    self.scripts().contains(s) == (old(self).scripts().contains(s) || named_before(
                        items,
                        i as int,
                        s,
                    )),
            decreases items.len() - i,
        {
            let ghost before = *self;
            self.add_lines(data.key_at(i), data.value_at(i));
            proof {
                assert forall|s: Seq<char>| #[trigger] self.scripts().contains(s) == (old(
                    self,
                ).scripts().contains(s) || named_before(items, i + 1, s)) by {
                    assert(before.scripts().contains(s) == (old(self).scripts().contains(s)
                        || named_before(items, i as int, s)));
                    if items[i as int].0@ == s {
                        assert(named_before(items, i + 1, s));
                    }
                    if named_before(items, i as int, s) {
                        let k = choose|k: int| 0 <= k < i && (#[trigger] items[k]).0@ == s;
                        assert(items[k].0@ == s);
                    }
                    if named_before(items, i + 1, s) && items[i as int].0@ != s {
                        let k = choose|k: int| 0 <= k < i + 1 && (#[trigger] items[k]).0@ == s;
                        assert(named_before(items, i as int, s));
                    }
                }
                assert forall|s: Seq<char>, l: usize| #[trigger] self.read(s, l) == (old(self).read(
                    s,
                    l,
                ) || listed_before(items, i + 1, s, l)) by {
                    assert(before.read(s, l) == (old(self).read(s, l) || listed_before(
                        items,
                        i as int,
                        s,
                        l,
                    )));
                    if listed_before(items, i as int, s, l) {
                        let k = choose|k: int|
                            0 <= k < i && (#[trigger] items[k]).0@ == s && items[k].1@.contains(l);
                        assert(items[k].0@ == s && items[k].1@.contains(l));
                    }
                    if items[i as int].0@ == s && items[i as int].1@.contains(l) {
                        assert(listed_before(items, i + 1, s, l));
                    }
                    if listed_before(items, i + 1, s, l) {
                        let k = choose|k: int|
                            0 <= k < i + 1 && (#[trigger] items[k]).0@ == s
                                && items[k].1@.contains(l);
                        if k < i {
                            assert(listed_before(items, i as int, s, l));
                        }
                    }
                }
            }
            i += 1;
        }
        proof {
            assert forall|s: Seq<char>| #[trigger] named_before(items, i as int, s)
                == data@.contains_key(s) by {
                if named_before(items, i as int, s) {
                    let k = choose|k: int| 0 <= k < i && (#[trigger] items[k]).0@ == s;
                    lemma_item_is_mapped(*data, k);
                }
                if data@.contains_key(s) {
                    lemma_key_has_item(*data, s);
                    let k = choose|k: int| 0 <= k < items.len() && (#[trigger] items[k]).0@ == s;
                    assert(items[k].0@ == s);
                }
            }
            assert(self.scripts() =~= old(self).scripts().union(data@.dom()));
            assert forall|s: Seq<char>, l: usize| #[trigger] self.read(s, l) == (old(self).read(
                s,
                l,
            ) || listed(data@, s, l)) by {
                if listed_before(items, i as int, s, l) {
                    let k = choose|k: int|
                        0 <= k < i && (#[trigger] items[k]).0@ == s && items[k].1@.contains(l);
                    lemma_item_is_mapped(*data, k);
                }
                if listed(data@, s, l) {
                    lemma_key_has_item(*data, s);
                    let k = choose|k: int|
                        0 <= k < items.len() && (#[trigger] items[k]).0@ == s && items[k].1
                            == data@[s];
                    assert(items[k].0@ == s && items[k].1@.contains(l));
                }
            }
        }
    }
}

/// Whether exported data lists a line of a script.
pub open spec fn listed(data: Map<Seq<char>, Vec<usize>>, script: Seq<char>, line: usize) -> bool {
    data.contains_key(script) && data[script]@.contains(line)
}

spec fn named_before(items: Seq<(String, Vec<usize>)>, n: int, script: Seq<char>) -> bool {
    exists|k: int| 0 <= k < n && (#[trigger] items[k]).0@ == script
}

spec fn listed_before(
    items: Seq<(String, Vec<usize>)>,
    n: int,
    script: Seq<char>,
    line: usize,
) -> bool {
    exists|k: int| 0 <= k < n && (#[trigger] items[k]).0@ == script && items[k].1@.contains(line)
}

/// Whether data is the export of read lines: the scripts that have an entry,
/// each with its lines in ascending order.
pub open spec fn is_export(
    data: Map<Seq<char>, Vec<usize>>,
    scripts: Set<Seq<char>>,
    read: Set<(Seq<char>, usize)>,
) -> bool {
    &&& forall|s: Seq<char>| #[trigger] data.contains_key(s) == scripts.contains(s)
    &&& forall|s: Seq<char>, l: usize| #[trigger] listed(data, s, l) == read.contains((s, l))
    &&& forall|s: Seq<char>| #[trigger] data.contains_key(s) ==> ascending(data[s]@)
}

proof fn lemma_ascending_is_one(a: Seq<usize>, b: Seq<usize>)
    requires
        ascending(a),
        ascending(b),
        forall|l: usize| #[trigger] a.contains(l) == b.contains(l),
    ensures
        a == b,
    decreases a.len(),
{
    if a.len() == 0 {
        if b.len() > 0 {
            assert(b.contains(b[0]));
            assert(a.contains(b[0]));
        }
        assert(a =~= b);
    } else {
        assert(a.contains(a.last()));
        assert(b.contains(a.last()));
        assert(b.contains(b.last()));
        assert(a.contains(b.last()));
        let i = choose|i: int| 0 <= i < b.len() && b[i] == a.last();
        let j = choose|j: int| 0 <= j < a.len() && a[j] == b.last();
        assert(b[i] <= b.last());
        assert(a[j] <= a.last());
        let x = a.drop_last();
        let y = b.drop_last();
        assert forall|l: usize| #[trigger] x.contains(l) == y.contains(l) by {
            if x.contains(l) {
                let k = choose|k: int| 0 <= k < x.len() && x[k] == l;
                assert(a[k] == l && a[k] < a.last());
                assert(a.contains(l));
                assert(b.contains(l));
                let m = choose|m: int| 0 <= m < b.len() && b[m] == l;
                assert(y[m] == l);
            }
            if y.contains(l) {
                let k = choose|k: int| 0 <= k < y.len() && y[k] == l;
                assert(b[k] == l && b[k] < b.last());
                assert(b.contains(l));
                assert(a.contains(l));
                let m = choose|m: int| 0 <= m < a.len() && a[m] == l;
                assert(x[m] == l);
            }
        }
        lemma_ascending_is_one(x, y);
        assert(a =~= x.push(a.last()));
        assert(b =~= y.push(b.last()));
    }
}

/// Read lines have one export: two exports hold the same scripts with the same
/// lists.
pub proof fn law_exports_are_equal(
    a: Map<Seq<char>, Vec<usize>>,
    b: Map<Seq<char>, Vec<usize>>,
    scripts: Set<Seq<char>>,
    read: Set<(Seq<char>, usize)>,
)
    requires
        is_export(a, scripts, read),
        is_export(b, scripts, read),
    ensures
        a.dom() == b.dom(),
        forall|s: Seq<char>| #[trigger] a.contains_key(s) ==> a[s]@ == b[s]@,
{
    assert forall|s: Seq<char>| #[trigger] a.contains_key(s) == b.contains_key(s) by {
        assert(a.contains_key(s) == scripts.contains(s));
        assert(b.contains_key(s) == scripts.contains(s));
    }
    assert(a.dom() =~= b.dom());
    assert forall|s: Seq<char>| #[trigger] a.contains_key(s) implies a[s]@ == b[s]@ by {
        assert(b.contains_key(s));
        assert forall|l: usize| #[trigger] a[s]@.contains(l) == b[s]@.contains(l) by {
            assert(listed(a, s, l) == read.contains((s, l)));
            assert(listed(b, s, l) == read.contains((s, l)));
        }
        lemma_ascending_is_one(a[s]@, b[s]@);
    }
}

/// What is imported into a fresh record is exported again as it was.
pub proof fn law_import_exports_again(
    data: Map<Seq<char>, Vec<usize>>,
    scripts: Set<Seq<char>>,
    read: Set<(Seq<char>, usize)>,
)
    requires
        is_export(data, scripts, read),
    ensures
        Set::<Seq<char>>::empty().union(data.dom()) == scripts,
        Set::<(Seq<char>, usize)>::empty().union(
            Set::new(|p: (Seq<char>, usize)| listed(data, p.0, p.1)),
        ) == read,
{
    assert forall|s: Seq<char>| data.dom().contains(s) == scripts.contains(s) by {
        assert(data.contains_key(s) == scripts.contains(s));
    }
    assert(Set::<Seq<char>>::empty().union(data.dom()) =~= scripts);
    assert forall|p: (Seq<char>, usize)| read.contains(p) == listed(data, p.0, p.1) by {
        assert(listed(data, p.0, p.1) == read.contains((p.0, p.1)));
    }
    assert(Set::<(Seq<char>, usize)>::empty().union(
        Set::new(|p: (Seq<char>, usize)| listed(data, p.0, p.1)),
    ) =~= read);
}

/// What was exported and imported into a fresh record is what was read.
pub proof fn law_export_import_round_trip(
    source: ReadLines,
    exported: Map<Seq<char>, Vec<usize>>,
    fresh: ReadLines,
    loaded: ReadLines,
)
    requires
        forall|s: Seq<char>| #[trigger] exported.contains_key(s) == source.map().contains_key(s),
        forall|s: Seq<char>| #[trigger]
            exported.contains_key(s) ==> exported[s]@ == source.map()[s].items(),
        forall|s: Seq<char>, l: usize| !fresh.read(s, l),
        forall|s: Seq<char>, l: usize| #[trigger]
            loaded.read(s, l) == (fresh.read(s, l) || listed(exported, s, l)),
    ensures
        forall|s: Seq<char>, l: usize| #[trigger] loaded.read(s, l) == source.read(s, l),
{
    assert forall|s: Seq<char>, l: usize| #[trigger] loaded.read(s, l) == source.read(s, l) by {
        assert(exported.contains_key(s) == source.map().contains_key(s));
    }
}

} // verus!
