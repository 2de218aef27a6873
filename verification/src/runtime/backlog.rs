//! Pages that were read, and the tags that bring them back.
use crate::name_map::NameMap;
use crate::strs::{copy_opt, copy_text, copy_texts, opt_text, texts};
use vstd::prelude::*;

verus! {

/// The tags that bring a page back: without and with its fonts.
pub struct PageTags {
    pub plain: Vec<String>,
    pub with_fonts: Vec<String>,
}

/// The tags of a page, by whether fonts are wanted.
pub open spec fn page_tags(page: PageTags, allfont: bool) -> Seq<Seq<char>> {
    if allfont {
        texts(page.with_fonts@)
    } else {
        texts(page.plain@)
    }
}

impl PageTags {
    pub fn copy(&self) -> (out: Self)
        ensures
            same_tags(out, *self),
    {
        PageTags { plain: copy_texts(&self.plain), with_fonts: copy_texts(&self.with_fonts) }
    }

    fn tags(&self, allfont: bool) -> (out: Vec<String>)
        ensures
            texts(out@) == page_tags(*self, allfont),
    {
        if allfont {
            copy_texts(&self.with_fonts)
        } else {
            copy_texts(&self.plain)
        }
    }
}

/// Whether two pages have the same tags.
pub open spec fn same_tags(a: PageTags, b: PageTags) -> bool {
    texts(a.plain@) == texts(b.plain@) && texts(a.with_fonts@) == texts(b.with_fonts@)
}

/// What scripts can ask of the pages: those that were read, the oldest first,
/// and what the message layers show.
pub struct BacklogSnapshot {
    pub pages: Vec<PageTags>,
    pub message_layers: NameMap<PageTags>,
}

/// The tags of a page that may be missing.
pub open spec fn opt_tags(out: Option<Vec<String>>) -> Option<Seq<Seq<char>>> {
    match out {
        Some(tags) => Some(texts(tags@)),
        None => None,
    }
}

impl BacklogSnapshot {
    /// No layer is there twice.
    pub open spec fn wf(self) -> bool {
        self.message_layers.wf()
    }

    /// Nothing was read, nothing is shown.
    pub fn new() -> (out: Self)
        ensures
            out.wf(),
            out.pages@.len() == 0,
            out.message_layers@ == Map::<Seq<char>, PageTags>::empty(),
    {
        BacklogSnapshot { pages: Vec::new(), message_layers: NameMap::new() }
    }

    /// The number of pages.
    pub fn backlog_size(&self) -> (out: usize)
        ensures
            out == self.pages@.len(),
    {
        self.pages.len()
    }

    /// The tags of a page; none beyond the last one.
    pub fn backlog_tags(&self, page: usize, allfont: bool) -> (out: Option<Vec<String>>)
        ensures
            opt_tags(out) == (if page < self.pages@.len() {
                Some(page_tags(self.pages@[page as int], allfont))
            } else {
                None
            }),
    {
        if page < self.pages.len() {
            Some(self.pages[page].tags(allfont))
        } else {
            None
        }
    }

    /// The tags of what a message layer shows; none where there is no such
    /// layer.
    pub fn message_tags(&self, id: &str, allfont: bool) -> (out: Option<Vec<String>>)
        ensures
            opt_tags(out) == (if self.message_layers@.contains_key(id@) {
                Some(page_tags(self.message_layers@[id@], allfont))
            } else {
                None
            }),
    {
        match self.message_layers.get(id) {
            Some(page) => Some(page.tags(allfont)),
            None => None,
        }
    }

    pub fn copy(&self) -> (out: Self)
        requires
            self.wf(),
        ensures
            out.wf(),
            same_snapshot(out, *self),
    {
        let mut pages: Vec<PageTags> = Vec::new();
        let mut i: usize = 0;
        while i < self.pages.len()
            invariant
                i <= self.pages.len(),
                pages@.len() == i,
                forall|j: int| 0 <= j < i ==> same_tags(#[trigger] pages@[j], self.pages@[j]),
            decreases self.pages.len() - i,
        {
            pages.push(self.pages[i].copy());
            i += 1;
        }
        let mut message_layers: NameMap<PageTags> = NameMap::new();
        let mut k: usize = 0;
        proof {
            assert forall|id: Seq<char>| !first_layers(self.message_layers, 0, id) by {}
        }
        while k < self.message_layers.len()
            invariant
                k <= self.message_layers.items().len(),
                self.message_layers.wf(),
                message_layers.wf(),
                forall|id: Seq<char>| #[trigger]
                    message_layers@.contains_key(id) == first_layers(
                        self.message_layers,
                        k as int,
                        id,
                    ),
                forall|id: Seq<char>| #[trigger]
                    message_layers@.contains_key(id) ==> self.message_layers@.contains_key(id)
                        && same_tags(message_layers@[id], self.message_layers@[id]),
            decreases self.message_layers.items().len() - k,
        {
            let id = self.message_layers.key_at(k);
            let page = self.message_layers.value_at(k).copy();
            let ghost before = message_layers@;
            message_layers.insert(id, page);
            proof {
                crate::name_map::lemma_item_is_mapped(self.message_layers, k as int);
                assert forall|x: Seq<char>| #[trigger] message_layers@.contains_key(x)
                    == first_layers(self.message_layers, k + 1, x) by {
                    lemma_first_layers(self.message_layers, k as int, x);
                    assert(before.contains_key(x) == first_layers(
                        self.message_layers,
                        k as int,
                        x,
                    ));
                }
            }
            k += 1;
        }
        proof {
            assert forall|id: Seq<char>| #[trigger]
                message_layers@.contains_key(id) == self.message_layers@.contains_key(id) by {
                if self.message_layers@.contains_key(id) {
                    crate::name_map::lemma_key_has_item(self.message_layers, id);
                }
            }
        }
        BacklogSnapshot { pages, message_layers }
    }
}

/// Whether a layer is one of the first `n`.
spec fn first_layers(layers: NameMap<PageTags>, n: int, id: Seq<char>) -> bool {
    exists|i: int| 0 <= i < n && (#[trigger] layers.items()[i]).0@ == id
}

proof fn lemma_first_layers(layers: NameMap<PageTags>, n: int, id: Seq<char>)
    requires
        0 <= n < layers.items().len(),
    ensures
        first_layers(layers, n + 1, id) == (first_layers(layers, n, id) || layers.items()[n].0@
            == id),
{
    if first_layers(layers, n, id) {
        let i = choose|i: int| 0 <= i < n && (#[trigger] layers.items()[i]).0@ == id;
        assert(layers.items()[i].0@ == id);
    }
}

/// Whether two snapshots answer every question alike.
pub open spec fn same_snapshot(a: BacklogSnapshot, b: BacklogSnapshot) -> bool {
    &&& a.pages@.len() == b.pages@.len()
    &&& forall|i: int| 0 <= i < a.pages@.len() ==> same_tags(#[trigger] a.pages@[i], b.pages@[i])
    &&& forall|id: Seq<char>| #[trigger]
        a.message_layers@.contains_key(id) == b.message_layers@.contains_key(id)
    &&& forall|id: Seq<char>| #[trigger]
        a.message_layers@.contains_key(id) ==> same_tags(
            a.message_layers@[id],
            b.message_layers@[id],
        )
}

/// The snapshot that scripts ask, kept between frames.
pub struct BacklogMirror {
    pub snapshot: BacklogSnapshot,
}

impl BacklogMirror {
    /// Takes a snapshot in place of the last one.
    pub fn store(&mut self, snapshot: BacklogSnapshot)
        ensures
            final(self).snapshot == snapshot,
    {
        self.snapshot = snapshot;
    }

    /// The snapshot as it was stored.
    pub fn backlog_snapshot(&self) -> (out: BacklogSnapshot)
        requires
            self.snapshot.wf(),
        ensures
            out.wf(),
            same_snapshot(out, self.snapshot),
    {
        self.snapshot.copy()
    }
}

/// What a page's tags were found to be, without and with its fonts.
pub struct FoundTags {
    pub plain: Option<Vec<String>>,
    pub with_fonts: Option<Vec<String>>,
}

/// The tags that were found; none where none were.
pub open spec fn found_or_none(tags: Option<Vec<String>>) -> Seq<Seq<char>> {
    match tags {
        Some(t) => texts(t@),
        None => Seq::empty(),
    }
}

fn found_tags(tags: &Option<Vec<String>>) -> (out: Vec<String>)
    ensures
        texts(out@) == found_or_none(*tags),
{
    match tags {
        Some(t) => copy_texts(t),
        None => {
            let none: Vec<String> = Vec::new();
            assert(texts(none@) =~= Seq::empty());
            none
        },
    }
}

/// Makes a snapshot of the pages, the oldest first, and of the message layers.
pub fn build_backlog_snapshot(pages: &Vec<FoundTags>, layers: &NameMap<FoundTags>) -> (out:
    BacklogSnapshot)
    requires
        layers.wf(),
    ensures
        out.wf(),
        out.pages@.len() == pages@.len(),
        forall|i: int|
            0 <= i < pages@.len() ==> texts((#[trigger] out.pages@[i]).plain@) == found_or_none(
                pages@[i].plain,
            ) && texts(out.pages@[i].with_fonts@) == found_or_none(pages@[i].with_fonts),
        forall|id: Seq<char>| #[trigger]
            out.message_layers@.contains_key(id) == layers@.contains_key(id),
        forall|id: Seq<char>| #[trigger]
            out.message_layers@.contains_key(id) ==> texts(out.message_layers@[id].plain@)
                == found_or_none(layers@[id].plain) && texts(
                out.message_layers@[id].with_fonts@,
            ) == found_or_none(layers@[id].with_fonts),
{
    let mut out = BacklogSnapshot::new();
    let mut i: usize = 0;
    while i < pages.len()
        invariant
            i <= pages.len(),
            out.wf(),
            out.message_layers@ == Map::<Seq<char>, PageTags>::empty(),
            out.pages@.len() == i,
            forall|j: int|
                0 <= j < i ==> texts((#[trigger] out.pages@[j]).plain@) == found_or_none(
                    pages@[j].plain,
                ) && texts(out.pages@[j].with_fonts@) == found_or_none(pages@[j].with_fonts),
        decreases pages.len() - i,
    {
        let page = PageTags {
            plain: found_tags(&pages[i].plain),
            with_fonts: found_tags(&pages[i].with_fonts),
        };
        out.pages.push(page);
        i += 1;
    }
    let mut k: usize = 0;
    let ghost done = out.pages@;
    while k < layers.len()
        invariant
            k <= layers.items().len(),
            layers.wf(),
            out.wf(),
            out.pages@ == done,
            forall|id: Seq<char>| #[trigger]
                out.message_layers@.contains_key(id) == found_first(*layers, k as int, id),
            forall|id: Seq<char>| #[trigger]
                out.message_layers@.contains_key(id) ==> layers@.contains_key(id) && texts(
                    out.message_layers@[id].plain@,
                ) == found_or_none(layers@[id].plain) && texts(
                    out.message_layers@[id].with_fonts@,
                ) == found_or_none(layers@[id].with_fonts),
        decreases layers.items().len() - k,
    {
        let id = layers.key_at(k);
        let found = layers.value_at(k);
        let page = PageTags {
            plain: found_tags(&found.plain),
            with_fonts: found_tags(&found.with_fonts),
        };
        let ghost before = out.message_layers@;
        out.message_layers.insert(id, page);
        proof {
            crate::name_map::lemma_item_is_mapped(*layers, k as int);
            assert forall|x: Seq<char>| #[trigger] out.message_layers@.contains_key(x)
                == found_first(*layers, k + 1, x) by {
                lemma_found_first(*layers, k as int, x);
                assert(before.contains_key(x) == found_first(*layers, k as int, x));
            }
        }
        k += 1;
    }
    proof {
        assert forall|id: Seq<char>| #[trigger]
            out.message_layers@.contains_key(id) == layers@.contains_key(id) by {
            if layers@.contains_key(id) {
                crate::name_map::lemma_key_has_item(*layers, id);
            }
        }
    }
    out
}

spec fn found_first(layers: NameMap<FoundTags>, n: int, id: Seq<char>) -> bool {
    exists|i: int| 0 <= i < n && (#[trigger] layers.items()[i]).0@ == id
}

proof fn lemma_found_first(layers: NameMap<FoundTags>, n: int, id: Seq<char>)
    requires
        0 <= n < layers.items().len(),
    ensures
        found_first(layers, n + 1, id) == (found_first(layers, n, id) || layers.items()[n].0@
            == id),
{
    if found_first(layers, n, id) {
        let i = choose|i: int| 0 <= i < n && (#[trigger] layers.items()[i]).0@ == id;
        assert(layers.items()[i].0@ == id);
    }
}

/// How pages are kept.
pub struct BacklogSettings {
    pub allow: bool,
    pub message_layer: String,
    pub include_font: bool,
    pub hide: String,
    /// The layer that shows the pages; without one they are not shown.
    pub layer: Option<String>,
    /// Whether a page is kept when the next one begins.
    pub write_mode: bool,
}

/// What a script says of how pages are kept.
pub struct BacklogConfig {
    pub allow: bool,
    pub message_layer: Option<String>,
    pub include_font: Option<bool>,
    pub hide: Option<String>,
    pub layer: Option<String>,
    /// Whether the pages that were kept are dropped.
    pub clear: bool,
}

/// What the settings hold.
pub struct SettingsRecord {
    pub allow: bool,
    pub message_layer: Seq<char>,
    pub include_font: bool,
    pub hide: Seq<char>,
    pub layer: Option<Seq<char>>,
    pub write_mode: bool,
}

impl View for BacklogSettings {
    type V = SettingsRecord;

    open spec fn view(&self) -> SettingsRecord {
        SettingsRecord {
            allow: self.allow,
            message_layer: self.message_layer@,
            include_font: self.include_font,
            hide: self.hide@,
            layer: opt_text(self.layer),
            write_mode: self.write_mode,
        }
    }
}

/// The settings after a script spoke: what it leaves out stays, but for the
/// layer that shows the pages.
pub open spec fn configured(s: SettingsRecord, config: BacklogConfig) -> SettingsRecord {
    SettingsRecord {
        allow: config.allow,
        message_layer: match config.message_layer {
            Some(id) => id@,
            None => s.message_layer,
        },
        include_font: match config.include_font {
            Some(b) => b,
            None => s.include_font,
        },
        hide: match config.hide {
            Some(h) => h@,
            None => s.hide,
        },
        layer: opt_text(config.layer),
        write_mode: s.write_mode,
    }
}

impl BacklogSettings {
    /// Takes what a script says. Whether the kept pages are dropped is handed
    /// out.
    pub fn configure(&mut self, config: &BacklogConfig) -> (clear: bool)
        ensures
            final(self)@ == configured(old(self)@, *config),
            clear == config.clear,
    {
        self.allow = config.allow;
        if let Some(id) = &config.message_layer {
            self.message_layer = copy_text(id.as_str());
        }
        if let Some(include_font) = config.include_font {
            self.include_font = include_font;
        }
        if let Some(hide) = &config.hide {
            self.hide = copy_text(hide.as_str());
        }
        self.layer = copy_opt(&config.layer);
        config.clear
    }

    /// Says whether a page is kept when the next one begins.
    pub fn set_write_mode(&mut self, mode: bool)
        ensures
            final(self)@ == (SettingsRecord { write_mode: mode, ..old(self)@ }),
    {
        self.write_mode = mode;
    }
}

/// The tags of a page are those with fonts where they are asked for, and the plain
/// ones else.
pub proof fn law_pages_have_two_forms(page: PageTags)
    ensures
        page_tags(page, true) == texts(page.with_fonts@),
        page_tags(page, false) == texts(page.plain@),
        same_tags(page, page),
{
}

/// Two pages are the same where both forms of their tags are, and two snapshots
/// where they have the same pages in the same order and the same layers by name.
pub proof fn law_snapshots_are_compared_by_tags(
    a: BacklogSnapshot,
    b: BacklogSnapshot,
    i: int,
    id: Seq<char>,
)
    ensures
        same_snapshot(a, a),
        same_snapshot(a, b) ==> {
            &&& a.pages@.len() == b.pages@.len()
            &&& 0 <= i < a.pages@.len() ==> texts(a.pages@[i].plain@) == texts(b.pages@[i].plain@)
                && texts(a.pages@[i].with_fonts@) == texts(b.pages@[i].with_fonts@)
            &&& a.message_layers@.contains_key(id) == b.message_layers@.contains_key(id)
            &&& a.message_layers@.contains_key(id) ==> texts(a.message_layers@[id].plain@) == texts(
                b.message_layers@[id].plain@,
            ) && texts(a.message_layers@[id].with_fonts@) == texts(
                b.message_layers@[id].with_fonts@,
            )
        },
        a.pages@.len() != b.pages@.len() ==> !same_snapshot(a, b),
        0 <= i < a.pages@.len() && i < b.pages@.len() && texts(a.pages@[i].plain@) != texts(
            b.pages@[i].plain@,
        ) ==> !same_snapshot(a, b),
        0 <= i < a.pages@.len() && i < b.pages@.len() && texts(a.pages@[i].with_fonts@) != texts(
            b.pages@[i].with_fonts@,
        ) ==> !same_snapshot(a, b),
        a.message_layers@.contains_key(id) != b.message_layers@.contains_key(id)
            ==> !same_snapshot(a, b),
{
}

/// Settings change whether pages are kept and which layer shows them, with what
/// they say or with nothing; of the rest, what they do not say stays. They never
/// change whether pages are written.
pub proof fn law_page_settings(s: SettingsRecord, config: BacklogConfig)
    ensures
        ({
            let next = configured(s, config);
            &&& next.allow == config.allow
            &&& next.write_mode == s.write_mode
            &&& config.message_layer is None ==> next.message_layer == s.message_layer
            &&& config.message_layer matches Some(id) ==> next.message_layer == id@
            &&& config.include_font is None ==> next.include_font == s.include_font
            &&& config.include_font matches Some(b) ==> next.include_font == b
            &&& config.hide is None ==> next.hide == s.hide
            &&& config.hide matches Some(h) ==> next.hide == h@
            &&& config.layer is None ==> next.layer is None
            &&& config.layer matches Some(layer) ==> next.layer == Some(layer@)
        }),
{
}

/// Tags that were not found count as none.
pub proof fn law_missing_tags_are_none(tags: Vec<String>)
    ensures
        found_or_none(None).len() == 0,
        found_or_none(Some(tags)) == texts(tags@),
        opt_tags(None) is None,
        opt_tags(Some(tags)) == Some(texts(tags@)),
{
}

} // verus!
