//! Resource and save-file lookup.
//!
//! Directories and archives are indexed once, when they are mounted. This
//! module decides which source serves a path; the caller does the disk work
//! that an answer asks for and reports what it found on disk.
use crate::name_map::NameMap;
use crate::paths::{clean_path, cleaned, law_save_paths_have_keys, PartRule};
use crate::text_order::{insert_name, insert_sorted, lemma_insert_sorted, text_sorted};
use crate::strs::{
    all_digits, chars_of, concat, copy_text, decimal_of, decimal_text, ends_with, has_prefix,
    has_suffix, is_digit, lower, occurs_at, opt_text, range_is, replace, replace_char, same_text,
    starts_with, texts, to_lower, trim, trimmed,
};
use vstd::prelude::*;
use vstd::string::*;

verus! {

/// Where an indexed path is served from.
pub enum IndexedResource {
    /// An entry of a mounted archive.
    Pfs { archive: usize, path: String, size: u64 },
    /// A file of a mounted directory.
    File(String),
}

/// What an index entry holds.
pub enum ResourceRecord {
    Pfs { archive: int, path: Seq<char>, size: u64 },
    File(Seq<char>),
}

impl View for IndexedResource {
    type V = ResourceRecord;

    open spec fn view(&self) -> ResourceRecord {
        match self {
            IndexedResource::Pfs { archive, path, size } => ResourceRecord::Pfs {
                archive: *archive as int,
                path: path@,
                size: *size,
            },
            IndexedResource::File(path) => ResourceRecord::File(path@),
        }
    }
}

/// A path below a root directory.
pub struct DiskPath {
    pub root: String,
    pub relative: String,
}

impl DiskPath {
    /// The root and the path below it.
    pub open spec fn view(&self) -> (Seq<char>, Seq<char>) {
        (self.root@, self.relative@)
    }
}

pub open spec fn opt_disk(path: Option<DiskPath>) -> Option<(Seq<char>, Seq<char>)> {
    match path {
        Some(p) => Some(p@),
        None => None,
    }
}

/// The mounted state.
struct HostFiles {
    directory: Option<String>,
    archives: usize,
    index: NameMap<IndexedResource>,
    overrides: NameMap<Vec<u8>>,
    save_dir: Option<String>,
}

/// What the mounted state holds.
#[verifier::ext_equal]
pub struct FilesState {
    pub directory: Option<Seq<char>>,
    pub archives: nat,
    pub index: Map<Seq<char>, ResourceRecord>,
    pub overrides: Map<Seq<char>, Seq<u8>>,
    pub save_dir: Option<Seq<char>>,
}

pub open spec fn index_view(index: NameMap<IndexedResource>) -> Map<Seq<char>, ResourceRecord> {
    index@.map_values(|r: IndexedResource| r@)
}

pub open spec fn overrides_view(overrides: NameMap<Vec<u8>>) -> Map<Seq<char>, Seq<u8>> {
    overrides@.map_values(|b: Vec<u8>| b@)
}

/// The state before anything was mounted.
pub open spec fn no_files() -> FilesState {
    FilesState {
        directory: None,
        archives: 0,
        index: Map::empty(),
        overrides: Map::empty(),
        save_dir: None,
    }
}

impl HostFiles {
    spec fn state(self) -> FilesState {
        FilesState {
            directory: opt_text(self.directory),
            archives: self.archives as nat,
            index: index_view(self.index),
            overrides: overrides_view(self.overrides),
            save_dir: opt_text(self.save_dir),
        }
    }

    spec fn wf(self) -> bool {
        self.index.wf() && self.overrides.wf()
    }

    fn empty() -> (out: Self)
        ensures
            out.wf(),
            out.state() == no_files(),
    {
        let out = HostFiles {
            directory: None,
            archives: 0,
            index: NameMap::new(),
            overrides: NameMap::new(),
            save_dir: None,
        };
        assert(out.state().index =~= Map::empty());
        assert(out.state().overrides =~= Map::empty());
        out
    }

    /// The disk path of a save file.
    fn save_path(&self, path: &str) -> (out: Option<DiskPath>)
        ensures
            opt_disk(out) == below(self.state().save_dir, path@),
    {
        below_root(&self.save_dir, path)
    }

    /// The disk path beside the mounted archives or in the mounted directory.
    fn sidecar_path(&self, path: &str) -> (out: Option<DiskPath>)
        ensures
            opt_disk(out) == below(self.state().directory, path@),
    {
        below_root(&self.directory, path)
    }
}

fn below_root(root: &Option<String>, path: &str) -> (out: Option<DiskPath>)
    ensures
        opt_disk(out) == below(opt_text(*root), path@),
{
    match root {
        Some(root) => match normalize_save_path(path) {
            Some(relative) => Some(DiskPath { root: copy_text(root.as_str()), relative }),
            None => None,
        },
        None => None,
    }
}

/// The key under which a path is looked up.
pub open spec fn lookup_key(path: Seq<char>) -> Option<Seq<char>> {
    clean_path(PartRule::Lookup, path)
}

/// A save path: trimmed, with clean parts joined by slashes.
pub open spec fn save_name(path: Seq<char>) -> Option<Seq<char>> {
    clean_path(PartRule::Strict, trim(path))
}

/// A save path below a root, where there is a root and the path is valid.
pub open spec fn below(root: Option<Seq<char>>, path: Seq<char>) -> Option<
    (Seq<char>, Seq<char>),
> {
    match (root, save_name(path)) {
        (Some(root), Some(relative)) => Some((root, relative)),
        _ => None,
    }
}

/// The lookup key of a path: slashes unified, empty and dotted parts dropped,
/// in lower case. A parent part or an empty path has none.
pub fn normalize_lookup(path: &str) -> (out: Option<String>)
    ensures
        opt_text(out) == lookup_key(path@),
{
    cleaned(PartRule::Lookup, path)
}

/// The relative path of a save file. A parent part, a colon or an empty path
/// has none.
pub fn normalize_save_path(path: &str) -> (out: Option<String>)
    ensures
        opt_text(out) == save_name(path@),
{
    let text = trimmed(path);
    cleaned(PartRule::Strict, text.as_str())
}

/// A character encoding of archive names.
#[derive(Clone, Copy, PartialEq, Eq, Debug, Structural)]
pub enum NameEncoding {
    ShiftJis,
    Gbk,
    Gb18030,
    Utf8,
}

/// The encoding that a name stands for. Unknown names mean UTF-8.
pub open spec fn encoding_named(name: Seq<char>) -> NameEncoding {
    let key = lower(trim(name));
    if key == "shift_jis"@ || key == "shift-jis"@ || key == "sjis"@ {
        NameEncoding::ShiftJis
    } else if key == "gbk"@ || key == "gb2312"@ {
        NameEncoding::Gbk
    } else if key == "gb18030"@ {
        NameEncoding::Gb18030
    } else {
        NameEncoding::Utf8
    }
}

pub fn encoding_for(name: &str) -> (out: NameEncoding)
    ensures
        out == encoding_named(name@),
{
    let plain = trimmed(name);
    let key = to_lower(plain.as_str());
    let key = key.as_str();
    if same_text(key, "shift_jis") || same_text(key, "shift-jis") || same_text(key, "sjis") {
        NameEncoding::ShiftJis
    } else if same_text(key, "gbk") || same_text(key, "gb2312") {
        NameEncoding::Gbk
    } else if same_text(key, "gb18030") {
        NameEncoding::Gb18030
    } else {
        NameEncoding::Utf8
    }
}

// ── Archive candidates ─────────────────────────────────────────

/// Whether a file name is that of an archive: it ends in `.pfs`, or in `.pfs.`
/// and three digits, in either case of letters.
pub open spec fn archive_name(name: Seq<char>) -> bool {
    let l = lower(name);
    ||| has_suffix(l, ".pfs"@)
    ||| {
        &&& l.len() >= 8
        &&& occurs_at(l, ".pfs."@, l.len() - 8)
        &&& all_digits(l.skip(l.len() - 3))
    }
}

pub fn is_archive_candidate(name: &str) -> (out: bool)
    ensures
        out == archive_name(name@),
{
    let l = to_lower(name);
    if ends_with(l.as_str(), ".pfs") {
        return true;
    }
    let chars = chars_of(l.as_str());
    if chars.len() < 8 {
        return false;
    }
    let at: usize = chars.len() - 8;
    let dotted = chars_of(".pfs.");
    proof {
        reveal_strlit(".pfs.");
        assert(dotted@.len() == 5);
    }
    if !range_is(&chars, at, &dotted) {
        return false;
    }
    let mut i: usize = chars.len() - 3;
    let ghost tail = l@.skip(l@.len() - 3);
    while i < chars.len()
        invariant
            chars@ == l@,
            l@ == lower(name@),
            !has_suffix(l@, ".pfs"@),
            occurs_at(l@, ".pfs."@, l@.len() - 8),
            chars.len() >= 8,
            chars.len() - 3 <= i <= chars.len(),
            tail == l@.skip(l@.len() - 3),
            forall|j: int|
                0 <= j < i - (chars.len() - 3) ==> is_digit(#[trigger] tail[j]),
        decreases chars.len() - i,
    {
        let c = chars[i];
        assert(tail[i - (chars.len() - 3)] == c);
        if c < '0' || c > '9' {
            assert(!is_digit(tail[i - (chars.len() - 3)]));
            return false;
        }
        i += 1;
    }
    true
}

/// Whether a file beside an archive is taken for an archive. Metadata files,
/// whose names start with `._`, are not.
pub open spec fn archive_candidate(name: Seq<char>) -> bool {
    !has_prefix(name, "._"@) && archive_name(name)
}

/// The archive candidates among file names, in ascending order.
pub open spec fn sorted_candidates(names: Seq<Seq<char>>) -> Seq<Seq<char>>
    decreases names.len(),
{
    if names.len() == 0 {
        Seq::empty()
    } else {
        let before = sorted_candidates(names.drop_last());
        if archive_candidate(names.last()) {
            insert_sorted(before, names.last())
        } else {
            before
        }
    }
}

/// The candidates are in ascending order, and they are exactly the candidates
/// among the names.
pub proof fn law_candidates_sorted(names: Seq<Seq<char>>)
    ensures
        text_sorted(sorted_candidates(names)),
        sorted_candidates(names).to_multiset() =~= names.filter(
            |n: Seq<char>| archive_candidate(n),
        ).to_multiset(),
    decreases names.len(),
{
    broadcast use vstd::seq_lib::group_to_multiset_ensures;

    reveal(Seq::filter);
    let keep = |n: Seq<char>| archive_candidate(n);
    if names.len() > 0 {
        let short = names.drop_last();
        law_candidates_sorted(short);
        if archive_candidate(names.last()) {
            lemma_insert_sorted(sorted_candidates(short), names.last());
        }
    }
}

/// Picks the archive candidates among file names, in ascending order.
pub fn archive_candidates(names: &Vec<String>) -> (out: Vec<String>)
    ensures
        texts(out@) == sorted_candidates(texts(names@)),
{
    let mut out: Vec<String> = Vec::new();
    let mut i: usize = 0;
    let ghost all = texts(names@);
    assert(texts(out@) =~= sorted_candidates(all.take(0)));
    while i < names.len()
        invariant
            i <= names.len(),
            all == texts(names@),
            texts(out@) == sorted_candidates(all.take(i as int)),
        decreases names.len() - i,
    {
        proof {
            assert(all.take(i + 1).drop_last() =~= all.take(i as int));
            assert(all.take(i + 1).last() == names@[i as int]@);
        }
        let name = names[i].as_str();
        if !starts_with(name, "._") && is_archive_candidate(name) {
            let owned = copy_text(name);
            insert_name(&mut out, owned);
        }
        i += 1;
    }
    assert(all.take(i as int) =~= all);
    out
}

// ── Indexing ───────────────────────────────────────────────────

/// A directory index after the first `n` found files: the last file with a key
/// serves it.
pub open spec fn directory_index(found: Seq<(Seq<char>, Seq<char>)>) -> Map<
    Seq<char>,
    ResourceRecord,
>
    decreases found.len(),
{
    if found.len() == 0 {
        Map::empty()
    } else {
        let before = directory_index(found.drop_last());
        match lookup_key(replace(found.last().0, '\\', '/')) {
            Some(key) => before.insert(key, ResourceRecord::File(found.last().1)),
            None => before,
        }
    }
}

/// Pairs of texts.
pub open spec fn pair_texts(pairs: Seq<(String, String)>) -> Seq<(Seq<char>, Seq<char>)> {
    Seq::new(pairs.len(), |i: int| (pairs[i].0@, pairs[i].1@))
}

/// Indexes the files below a directory. Each file comes with its path relative
/// to the directory and with its full path.
fn index_directory(found: &Vec<(String, String)>) -> (out: NameMap<IndexedResource>)
    ensures
        out.wf(),
        index_view(out) == directory_index(pair_texts(found@)),
{
    let mut out: NameMap<IndexedResource> = NameMap::new();
    let mut i: usize = 0;
    let ghost all = pair_texts(found@);
    assert(index_view(out) =~= directory_index(all.take(0)));
    while i < found.len()
        invariant
            i <= found.len(),
            all == pair_texts(found@),
            out.wf(),
            index_view(out) == directory_index(all.take(i as int)),
        decreases found.len() - i,
    {
        proof {
            assert(all.take(i + 1).drop_last() =~= all.take(i as int));
            assert(all.take(i + 1).last() == all[i as int]);
        }
        let relative = replace_char(found[i].0.as_str(), '\\', '/');
        if let Some(key) = normalize_lookup(relative.as_str()) {
            let ghost before = out;
            let file = IndexedResource::File(copy_text(found[i].1.as_str()));
            out.insert(key.as_str(), file);
            proof {
                assert(index_view(out) =~= index_view(before).insert(key@, file@));
            }
        }
        i += 1;
    }
    assert(all.take(i as int) =~= all);
    out
}

/// One entry of an archive.
pub struct ArchiveEntry {
    pub path: String,
    pub size: u32,
}

/// A candidate that was opened: its entries, or the error that came.
pub struct OpenedArchive {
    pub path: String,
    pub entries: Result<Vec<ArchiveEntry>, String>,
}

/// Entries by path and size.
pub open spec fn entry_views(entries: Seq<ArchiveEntry>) -> Seq<(Seq<char>, u32)> {
    Seq::new(entries.len(), |i: int| (entries[i].path@, entries[i].size))
}

/// The index with the entries of an archive added where their key is free.
/// Empty entries and entries without a key are left out.
pub open spec fn with_entries(
    base: Map<Seq<char>, ResourceRecord>,
    archive: int,
    entries: Seq<(Seq<char>, u32)>,
) -> Map<Seq<char>, ResourceRecord>
    decreases entries.len(),
{
    if entries.len() == 0 {
        base
    } else {
        let before = with_entries(base, archive, entries.drop_last());
        let path = replace(entries.last().0, '\\', '/');
        let size = entries.last().1;
        match lookup_key(path) {
            Some(key) => if size == 0 || before.contains_key(key) {
                before
            } else {
                before.insert(key, ResourceRecord::Pfs { archive, path, size: size as u64 })
            },
            None => before,
        }
    }
}

/// The index of the archives from `from` on. Later archives are patch volumes:
/// they come first, and an earlier archive only fills what is free.
pub open spec fn archive_index(archives: Seq<Seq<(Seq<char>, u32)>>, from: int) -> Map<
    Seq<char>,
    ResourceRecord,
>
    decreases archives.len() - from,
{
    if from < 0 || from >= archives.len() {
        Map::empty()
    } else {
        with_entries(archive_index(archives, from + 1), from, archives[from])
    }
}

/// The readable archives among the opened candidates, in their order.
pub open spec fn readable(opened: Seq<OpenedArchive>) -> Seq<Seq<(Seq<char>, u32)>>
    decreases opened.len(),
{
    if opened.len() == 0 {
        Seq::empty()
    } else {
        let before = readable(opened.drop_last());
        match opened.last().entries {
            Ok(entries) => before.push(entry_views(entries@)),
            Err(_) => before,
        }
    }
}

/// The place of the first candidate that was asked for by name and did not
/// open, or the length.
pub open spec fn failed_request(opened: Seq<OpenedArchive>, requested: Seq<char>) -> int
    decreases opened.len(),
{
    if opened.len() == 0 || (opened[0].path@ == requested && opened[0].entries is Err) {
        0
    } else {
        1 + failed_request(opened.skip(1), requested)
    }
}

proof fn lemma_failed_request_is(opened: Seq<OpenedArchive>, requested: Seq<char>, at: int)
    requires
        0 <= at <= opened.len(),
        at < opened.len() ==> opened[at].path@ == requested && opened[at].entries is Err,
        forall|j: int|
            0 <= j < at ==> !((#[trigger] opened[j]).path@ == requested
                && opened[j].entries is Err),
    ensures
        failed_request(opened, requested) == at,
    decreases opened.len(),
{
    if at > 0 {
        assert(!(opened[0].path@ == requested && opened[0].entries is Err));
        assert forall|j: int| 0 <= j < at - 1 implies !((
        #[trigger] opened.skip(1)[j]).path@ == requested && opened.skip(1)[j].entries is Err) by {
            assert(opened.skip(1)[j] == opened[j + 1]);
        }
        lemma_failed_request_is(opened.skip(1), requested, at - 1);
    }
}

/// Adds the entries of an archive to an index.
fn add_entries(index: &mut NameMap<IndexedResource>, archive: usize, entries: &Vec<ArchiveEntry>)
    requires
        old(index).wf(),
    ensures
        final(index).wf(),
        index_view(*final(index)) == with_entries(
            index_view(*old(index)),
            archive as int,
            entry_views(entries@),
        ),
{
    let mut i: usize = 0;
    let ghost base = index_view(*index);
    let ghost all = entry_views(entries@);
    assert(all.take(0) =~= Seq::empty());
    while i < entries.len()
        invariant
            i <= entries.len(),
            all == entry_views(entries@),
            index.wf(),
            index_view(*index) == with_entries(base, archive as int, all.take(i as int)),
        decreases entries.len() - i,
    {
        proof {
            assert(all.take(i + 1).drop_last() =~= all.take(i as int));
            assert(all.take(i + 1).last() == all[i as int]);
        }
        let path = replace_char(entries[i].path.as_str(), '\\', '/');
        let size: u64 = entries[i].size as u64;
        if let Some(key) = normalize_lookup(path.as_str()) {
            if size != 0 && !index.contains_key(key.as_str()) {
                let ghost before = *index;
                let resource = IndexedResource::Pfs { archive, path, size };
                index.insert(key.as_str(), resource);
                proof {
                    assert(index_view(*index) =~= index_view(before).insert(key@, resource@));
                }
            }
        }
        i += 1;
    }
    assert(all.take(i as int) =~= all);
}

/// The entries of the readable archives.
fn readable_archives(opened: Vec<OpenedArchive>) -> (out: Vec<Vec<ArchiveEntry>>)
    ensures
        out@.len() == readable(opened@).len(),
        forall|i: int|
            0 <= i < out@.len() ==> entry_views((#[trigger] out@[i])@) == readable(opened@)[i],
{
    let mut rest = opened;
    let mut reversed: Vec<Vec<ArchiveEntry>> = Vec::new();
    let ghost all = opened@;
    let ghost target = readable(all);
    let ghost done = Seq::<Seq<(Seq<char>, u32)>>::empty();
    assert(readable(rest@) + done =~= target);
    while rest.len() > 0
        invariant
            readable(rest@) + done == target,
            reversed@.len() == done.len(),
            forall|i: int|
                0 <= i < done.len() ==> entry_views((#[trigger] reversed@[i])@) == done[done.len()
                    - 1 - i],
        decreases rest.len(),
    {
        let ghost before = rest@;
        let last = rest.pop().unwrap();
        proof {
            assert(rest@ =~= before.drop_last());
            assert(last == before.last());
        }
        match last.entries {
            Ok(entries) => {
                proof {
                    let view = entry_views(entries@);
                    assert(readable(rest@) + (seq![view] + done) =~= readable(before) + done);
                    done = seq![view] + done;
                }
                reversed.push(entries);
            },
            Err(_) => {},
        }
    }
    assert(readable(rest@) + done =~= done);
    let mut out: Vec<Vec<ArchiveEntry>> = Vec::new();
    while reversed.len() > 0
        invariant
            out@.len() + reversed@.len() == target.len(),
            target == done,
            forall|i: int| 0 <= i < out@.len() ==> entry_views((#[trigger] out@[i])@) == target[i],
            forall|i: int|
                0 <= i < reversed@.len() ==> entry_views((#[trigger] reversed@[i])@)
                    == target[target.len() - 1 - i],
        decreases reversed.len(),
    {
        let entries = reversed.pop().unwrap();
        out.push(entries);
    }
    out
}

/// Indexes archives, the last one first.
fn index_archives(archives: &Vec<Vec<ArchiveEntry>>) -> (out: NameMap<IndexedResource>)
    ensures
        out.wf(),
        index_view(out) == archive_index(
            Seq::new(archives@.len(), |i: int| entry_views(archives@[i]@)),
            0,
        ),
{
    let ghost all = Seq::new(archives@.len(), |i: int| entry_views(archives@[i]@));
    let mut out: NameMap<IndexedResource> = NameMap::new();
    let mut i: usize = archives.len();
    assert(index_view(out) =~= archive_index(all, i as int));
    while i > 0
        invariant
            i <= archives.len(),
            all == Seq::new(archives@.len(), |i: int| entry_views(archives@[i]@)),
            out.wf(),
            index_view(out) == archive_index(all, i as int),
        decreases i,
    {
        i -= 1;
        add_entries(&mut out, i, &archives[i]);
    }
    out
}

// ── Resource handle ────────────────────────────────────────────

/// What the disk holds at the paths that a request may be served from.
pub struct DiskFacts {
    /// Set where the save path is a regular file, with its size if known.
    pub save: Option<Option<u64>>,
    /// Set where the sidecar path is a regular file, with its size if known.
    pub sidecar: Option<Option<u64>>,
    /// The size of the indexed file, if known.
    pub indexed: Option<u64>,
}

/// The disk paths that a request may be served from.
pub struct DiskPaths {
    pub save: Option<DiskPath>,
    pub sidecar: Option<DiskPath>,
    pub indexed: Option<String>,
}

/// A step of reading that is left to the caller, or bytes that are there.
pub enum ReadAction {
    /// The bytes read.
    Bytes(Vec<u8>),
    /// Read a file below a root directory.
    Disk(DiskPath),
    /// Read an indexed file.
    File(String),
    /// Read an entry of an archive.
    Archive { archive: usize, path: String },
}

/// What serves a path.
pub enum Served {
    Save(Seq<char>, Seq<char>),
    Override(Seq<u8>),
    Sidecar(Seq<char>, Seq<char>),
    Indexed(ResourceRecord),
    Missing,
}

/// The source of a path with a lookup key: the save file, then an override,
/// then a file beside the archives, then the index.
pub open spec fn serving(
    files: FilesState,
    path: Seq<char>,
    key: Seq<char>,
    save_found: bool,
    sidecar_found: bool,
) -> Served {
    match (below(files.save_dir, path), save_found) {
        (Some((root, relative)), true) => Served::Save(root, relative),
        _ => if files.overrides.contains_key(key) {
            Served::Override(files.overrides[key])
        } else {
            match (below(files.directory, path), sidecar_found) {
                (Some((root, relative)), true) => Served::Sidecar(root, relative),
                _ => if files.index.contains_key(key) {
                    Served::Indexed(files.index[key])
                } else {
                    Served::Missing
                },
            }
        },
    }
}

/// The size of what serves a path.
pub open spec fn served_size(source: Served, facts: DiskFacts) -> Option<u64> {
    match source {
        Served::Save(_, _) => facts.save->0,
        Served::Override(bytes) => Some(bytes.len() as u64),
        Served::Sidecar(_, _) => facts.sidecar->0,
        Served::Indexed(ResourceRecord::Pfs { size, .. }) => Some(size),
        Served::Indexed(ResourceRecord::File(_)) => facts.indexed,
        Served::Missing => None,
    }
}

/// The size of a path in mounted files.
pub open spec fn size_of(files: FilesState, path: Seq<char>, facts: DiskFacts) -> Option<u64> {
    match lookup_key(path) {
        Some(key) => served_size(
            serving(files, path, key, facts.save is Some, facts.sidecar is Some),
            facts,
        ),
        None => None,
    }
}

/// `wanted` bytes from `offset` on, or as many as there are.
pub open spec fn part_of(bytes: Seq<u8>, offset: u64, wanted: usize) -> Seq<u8> {
    if offset >= bytes.len() {
        Seq::empty()
    } else if offset + wanted >= bytes.len() {
        bytes.skip(offset as int)
    } else {
        bytes.subrange(offset as int, offset + wanted)
    }
}

/// Whether an action reads `wanted` bytes from `offset` on out of a source.
pub open spec fn reads(action: ReadAction, source: Served, offset: u64, wanted: usize) -> bool {
    match (action, source) {
        (ReadAction::Bytes(bytes), Served::Override(all)) => bytes@ == part_of(all, offset, wanted),
        (ReadAction::Disk(path), Served::Save(root, relative)) => path@ == (root, relative),
        (ReadAction::Disk(path), Served::Sidecar(root, relative)) => path@ == (root, relative),
        (ReadAction::File(path), Served::Indexed(ResourceRecord::File(full))) => path@ == full,
        (
            ReadAction::Archive { archive, path },
            Served::Indexed(ResourceRecord::Pfs { archive: a, path: p, .. }),
        ) => archive == a && path@ == p,
        _ => false,
    }
}

/// What a result text says where no resource is mounted.
pub open spec fn not_mounted_text() -> Seq<char> {
    "file host is not mounted"@
}

/// A handle to mounted resources.
pub struct HostResources {
    files: Option<HostFiles>,
}

/// A sized read of a whole file.
pub struct FileRead {
    pub size: u64,
    /// The read that fetches the bytes; none where the file is empty.
    pub action: Option<ReadAction>,
}

impl View for HostResources {
    type V = Option<FilesState>;

    closed spec fn view(&self) -> Option<FilesState> {
        match self.files {
            Some(files) => Some(files.state()),
            None => None,
        }
    }
}

/// The mounted state, or the empty one.
pub open spec fn or_empty(state: Option<FilesState>) -> FilesState {
    match state {
        Some(files) => files,
        None => no_files(),
    }
}

impl HostResources {
    /// No key of an index or override table occurs twice.
    pub closed spec fn wf(self) -> bool {
        self.files matches Some(files) ==> files.wf()
    }

    /// A handle with nothing mounted.
    pub fn new() -> (out: Self)
        ensures
            out.wf(),
            out@ is None,
    {
        HostResources { files: None }
    }

    /// Forgets everything that was mounted or set.
    pub fn clear(&mut self)
        ensures
            final(self).wf(),
            final(self)@ is None,
    {
        self.files = None;
    }

    /// Whether a directory or an archive is mounted.
    pub fn is_mounted(&self) -> (out: bool)
        ensures
            out == (self@ matches Some(files) && (files.directory is Some || files.archives > 0)),
    {
        match &self.files {
            Some(files) => files.directory.is_some() || files.archives > 0,
            None => false,
        }
    }

    /// Makes sure that there is state to change.
    fn open(&mut self)
        requires
            old(self).wf(),
        ensures
            final(self).wf(),
            final(self)@ == Some(or_empty(old(self)@)),
    {
        if self.files.is_none() {
            self.files = Some(HostFiles::empty());
        }
    }

    /// Sets or removes the directory of save files.
    pub fn set_save_dir(&mut self, path: Option<&str>)
        requires
            old(self).wf(),
        ensures
            final(self).wf(),
            final(self)@ == Some(
                FilesState {
                    save_dir: match path {
                        Some(p) => Some(p@),
                        None => None,
                    },
                    ..or_empty(old(self)@)
                },
            ),
    {
        self.open();
        let owned: Option<String> = match path {
            Some(p) => Some(copy_text(p)),
            None => None,
        };
        if let Some(files) = &mut self.files {
            files.save_dir = owned;
        }
    }

    /// The directory of save files that is set now.
    fn previous_save_dir(&self) -> (out: Option<String>)
        ensures
            opt_text(out) == or_empty(self@).save_dir,
    {
        match &self.files {
            Some(files) => match &files.save_dir {
                Some(dir) => Some(copy_text(dir.as_str())),
                None => None,
            },
            None => None,
        }
    }

    /// Mounts a directory with the files found below it. The save directory
    /// stays; overrides and an earlier mount go.
    pub fn mount_directory(
        &mut self,
        root: &str,
        is_directory: bool,
        found: &Vec<(String, String)>,
    ) -> (out: Result<(), String>)
        requires
            old(self).wf(),
        ensures
            final(self).wf(),
            is_directory ==> out is Ok && final(self)@ == Some(
                FilesState {
                    directory: Some(root@),
                    index: directory_index(pair_texts(found@)),
                    save_dir: or_empty(old(self)@).save_dir,
                    ..no_files()
                },
            ),
            !is_directory ==> (out matches Err(text) && text@ == "not a directory: "@ + root@)
                && final(self)@ == old(self)@,
    {
        if !is_directory {
            return Err(concat("not a directory: ", root));
        }
        let save_dir = self.previous_save_dir();
        let mut files = HostFiles::empty();
        files.directory = Some(copy_text(root));
        files.index = index_directory(found);
        files.save_dir = save_dir;
        self.files = Some(files);
        Ok(())
    }

    /// Mounts the archives among the opened candidates. The parent directory
    /// serves the files beside them; the save directory stays.
    pub fn mount_pfs(
        &mut self,
        parent: &str,
        requested: &str,
        opened: Vec<OpenedArchive>,
    ) -> (out: Result<(), String>)
        requires
            old(self).wf(),
        ensures
            final(self).wf(),
            mount_outcome(parent@, requested@, opened@, out),
            out is Err ==> final(self)@ == old(self)@,
            out is Ok ==> final(self)@ == Some(
                FilesState {
                    directory: Some(parent@),
                    archives: readable(opened@).len(),
                    index: archive_index(readable(opened@), 0),
                    save_dir: or_empty(old(self)@).save_dir,
                    ..no_files()
                },
            ),
    {
        if opened.len() == 0 {
            return Err(concat("no PFS archives under ", parent));
        }
        let mut i: usize = 0;
        while i < opened.len()
            invariant
                i <= opened.len(),
                self@ == old(self)@,
                self.wf(),
                opened@.len() > 0,
                forall|j: int|
                    0 <= j < i ==> !((#[trigger] opened@[j]).path@ == requested@
                        && opened@[j].entries is Err),
            decreases opened.len() - i,
        {
            if same_text(opened[i].path.as_str(), requested) {
                if let Err(error) = &opened[i].entries {
                    proof {
                        lemma_failed_request_is(opened@, requested@, i as int);
                    }
                    let head = concat("open ", requested);
                    let text = concat(head.as_str(), ": ");
                    return Err(concat(text.as_str(), error.as_str()));
                }
            }
            i += 1;
        }
        proof {
            lemma_failed_request_is(opened@, requested@, i as int);
        }
        let ghost all = opened@;
        let archives = readable_archives(opened);
        if archives.len() == 0 {
            return Err(concat("no readable PFS archives under ", parent));
        }
        let save_dir = self.previous_save_dir();
        let mut files = HostFiles::empty();
        files.directory = Some(copy_text(parent));
        files.archives = archives.len();
        files.index = index_archives(&archives);
        files.save_dir = save_dir;
        proof {
            assert(Seq::new(archives@.len(), |i: int| entry_views(archives@[i]@)) =~= readable(all));
        }
        self.files = Some(files);
        Ok(())
    }

    /// Puts bytes in the place of a resource.
    pub fn set_override(&mut self, path: &str, bytes: Vec<u8>) -> (out: Result<(), String>)
        requires
            old(self).wf(),
        ensures
            final(self).wf(),
            match lookup_key(path@) {
                Some(key) => out is Ok && final(self)@ == Some(
                    FilesState {
                        overrides: or_empty(old(self)@).overrides.insert(key, bytes@),
                        ..or_empty(old(self)@)
                    },
                ),
                None => (out matches Err(text) && text@ == "invalid override path: "@ + path@)
                    && final(self)@ == old(self)@,
            },
    {
        match normalize_lookup(path) {
            Some(key) => {
                self.open();
                if let Some(files) = &mut self.files {
                    let ghost before = files.overrides;
                    files.overrides.insert(key.as_str(), bytes);
                    proof {
                        assert(overrides_view(files.overrides) =~= overrides_view(before).insert(
                            key@,
                            bytes@,
                        ));
                    }
                }
                Ok(())
            },
            None => Err(concat("invalid override path: ", path)),
        }
    }

    /// Removes every override.
    pub fn clear_overrides(&mut self)
        requires
            old(self).wf(),
        ensures
            final(self).wf(),
            final(self)@ == (match old(self)@ {
                Some(files) => Some(FilesState { overrides: Map::empty(), ..files }),
                None => None,
            }),
    {
        if let Some(files) = &mut self.files {
            files.overrides.clear();
            proof {
                assert(overrides_view(files.overrides) =~= Map::empty());
            }
        }
    }

    /// The disk paths that a request for `path` may be served from.
    pub fn disk_paths(&self, path: &str) -> (out: DiskPaths)
        ensures
            opt_disk(out.save) == below(or_empty(self@).save_dir, path@),
            opt_disk(out.sidecar) == below(or_empty(self@).directory, path@),
            opt_text(out.indexed) == (match lookup_key(path@) {
                Some(key) => if or_empty(self@).index.contains_key(key) {
                    match or_empty(self@).index[key] {
                        ResourceRecord::File(full) => Some(full),
                        ResourceRecord::Pfs { .. } => None,
                    }
                } else {
                    None
                },
                None => None,
            }),
    {
        match &self.files {
            Some(files) => {
                let indexed = match normalize_lookup(path) {
                    Some(key) => match files.index.get(key.as_str()) {
                        Some(IndexedResource::File(full)) => Some(copy_text(full.as_str())),
                        _ => None,
                    },
                    None => None,
                };
                DiskPaths { save: files.save_path(path), sidecar: files.sidecar_path(path), indexed }
            },
            None => DiskPaths { save: None, sidecar: None, indexed: None },
        }
    }

    /// The size of a resource, or `None` where nothing serves it.
    pub fn query_size(&self, path: &str, facts: &DiskFacts) -> (out: Result<Option<u64>, String>)
        requires
            self.wf(),
        ensures
            match self@ {
                Some(files) => out == Ok::<Option<u64>, String>(size_of(files, path@, *facts)),
                None => out matches Err(text) && text@ == not_mounted_text(),
            },
    {
        match &self.files {
            Some(files) => {
                let key = match normalize_lookup(path) {
                    Some(key) => key,
                    None => {
                        return Ok(None);
                    },
                };
                if files.save_path(path).is_some() {
                    if let Some(size) = facts.save {
                        return Ok(size);
                    }
                }
                if let Some(bytes) = files.overrides.get(key.as_str()) {
                    return Ok(Some(bytes.len() as u64));
                }
                if files.sidecar_path(path).is_some() {
                    if let Some(size) = facts.sidecar {
                        return Ok(size);
                    }
                }
                match files.index.get(key.as_str()) {
                    Some(IndexedResource::Pfs { size, .. }) => Ok(Some(*size)),
                    Some(IndexedResource::File(_)) => Ok(facts.indexed),
                    None => Ok(None),
                }
            },
            None => Err(copy_text("file host is not mounted")),
        }
    }

    /// How `wanted` bytes of a resource are read from `offset` on.
    pub fn read_range(&self, path: &str, offset: u64, wanted: usize, facts: &DiskFacts) -> (out:
        Result<ReadAction, String>)
        requires
            self.wf(),
        ensures
            match self@ {
                Some(files) => match lookup_key(path@) {
                    Some(key) => {
                        let source = serving(
                            files,
                            path@,
                            key,
                            facts.save is Some,
                            facts.sidecar is Some,
                        );
                        match out {
                            Ok(action) => reads(action, source, offset, wanted),
                            Err(text) => source is Missing && text@ == "not found: "@ + path@,
                        }
                    },
                    None => out matches Err(text) && text@ == "invalid resource path: "@ + path@,
                },
                None => out matches Err(text) && text@ == not_mounted_text(),
            },
    {
        match &self.files {
            Some(files) => {
                let key = match normalize_lookup(path) {
                    Some(key) => key,
                    None => {
                        return Err(concat("invalid resource path: ", path));
                    },
                };
                if facts.save.is_some() {
                    if let Some(save) = files.save_path(path) {
                        return Ok(ReadAction::Disk(save));
                    }
                }
                if let Some(bytes) = files.overrides.get(key.as_str()) {
                    return Ok(ReadAction::Bytes(copy_part(bytes, offset, wanted)));
                }
                if facts.sidecar.is_some() {
                    if let Some(sidecar) = files.sidecar_path(path) {
                        return Ok(ReadAction::Disk(sidecar));
                    }
                }
                match files.index.get(key.as_str()) {
                    Some(IndexedResource::Pfs { archive, path, .. }) => Ok(
                        ReadAction::Archive { archive: *archive, path: copy_text(path.as_str()) },
                    ),
                    Some(IndexedResource::File(full)) => Ok(
                        ReadAction::File(copy_text(full.as_str())),
                    ),
                    None => Err(concat("not found: ", path)),
                }
            },
            None => Err(copy_text("file host is not mounted")),
        }
    }

    /// How a whole resource is read: its size and the read that fetches it.
    pub fn read_file(&self, path: &str, facts: &DiskFacts) -> (out: Result<FileRead, String>)
        requires
            self.wf(),
        ensures
            match self@ {
                Some(files) => match size_of(files, path@, *facts) {
                    Some(size) => out matches Ok(read) && read.size == size && (if size == 0 {
                        read.action is None
                    } else {
                        read.action matches Some(action) && reads(
                            action,
                            serving(
                                files,
                                path@,
                                lookup_key(path@)->0,
                                facts.save is Some,
                                facts.sidecar is Some,
                            ),
                            0,
                            whole(size),
                        )
                    }),
                    None => out matches Err(text) && text@ == "not found: "@ + path@,
                },
                None => out matches Err(text) && text@ == not_mounted_text(),
            },
    {
        let size = match self.query_size(path, facts) {
            Ok(Some(size)) => size,
            Ok(None) => {
                return Err(concat("not found: ", path));
            },
            Err(error) => {
                return Err(error);
            },
        };
        if size == 0 {
            return Ok(FileRead { size, action: None });
        }
        let wanted: usize = if size > usize::MAX as u64 {
            usize::MAX
        } else {
            size as usize
        };
        match self.read_range(path, 0, wanted, facts) {
            Ok(action) => Ok(FileRead { size, action: Some(action) }),
            Err(error) => Err(error),
        }
    }

    /// The disk path that a save is written to.
    pub fn write(&self, path: &str) -> (out: Result<DiskPath, String>)
        ensures
            save_target(self@, path@, out),
    {
        match &self.files {
            Some(files) => match files.save_path(path) {
                Some(target) => Ok(target),
                None => Err(concat("invalid save path: ", path)),
            },
            None => Err(copy_text("file host is not mounted")),
        }
    }

    /// The disk path of a save that is deleted.
    pub fn delete(&self, path: &str) -> (out: Result<DiskPath, String>)
        ensures
            save_target(self@, path@, out),
    {
        self.write(path)
    }

    /// Modification times are not kept.
    pub fn file_mtime(&self, path: &str) -> (out: Option<[i64; 6]>)
        ensures
            out is None,
    {
        None
    }

    /// Opens a resource for a decoder: something must be mounted and serve it.
    pub fn open_media_source(&self, path: &str, facts: &DiskFacts) -> (out: Result<
        HostFileSource,
        String,
    >)
        requires
            self.wf(),
        ensures
            match self@ {
                Some(files) => if files.directory is None && files.archives == 0 {
                    out matches Err(text) && text@ == not_mounted_text()
                } else if size_of(files, path@, *facts) is None {
                    out matches Err(text) && text@ == "not found: "@ + path@
                } else {
                    out matches Ok(source) && source@ == path@
                },
                None => out matches Err(text) && text@ == not_mounted_text(),
            },
    {
        if !self.is_mounted() {
            return Err(copy_text("file host is not mounted"));
        }
        match self.query_size(path, facts) {
            Ok(Some(_)) => Ok(HostFileSource { path: copy_text(path) }),
            Ok(None) => Err(concat("not found: ", path)),
            Err(error) => Err(error),
        }
    }
}

/// A size as a count of bytes in memory.
pub open spec fn whole(size: u64) -> usize {
    if size > usize::MAX {
        usize::MAX
    } else {
        size as usize
    }
}

/// Where a save is written or deleted, or why it cannot be.
pub open spec fn save_target(
    state: Option<FilesState>,
    path: Seq<char>,
    out: Result<DiskPath, String>,
) -> bool {
    match state {
        Some(files) => match below(files.save_dir, path) {
            Some(target) => out matches Ok(p) && p@ == target,
            None => out matches Err(text) && text@ == "invalid save path: "@ + path,
        },
        None => out matches Err(text) && text@ == not_mounted_text(),
    }
}

/// The outcome of mounting archives: an error where there is no candidate,
/// where the requested one does not open or where none is readable.
pub open spec fn mount_outcome(
    parent: Seq<char>,
    requested: Seq<char>,
    opened: Seq<OpenedArchive>,
    out: Result<(), String>,
) -> bool {
    let at = failed_request(opened, requested);
    if opened.len() == 0 {
        out matches Err(text) && text@ == "no PFS archives under "@ + parent
    } else if at < opened.len() {
        out matches Err(text) && text@ == "open "@ + requested + ": "@
            + opened[at].entries->Err_0@
    } else if readable(opened).len() == 0 {
        out matches Err(text) && text@ == "no readable PFS archives under "@ + parent
    } else {
        out is Ok
    }
}

/// A random-access source over a mounted resource.
pub struct HostFileSource {
    path: String,
}

impl View for HostFileSource {
    type V = Seq<char>;

    closed spec fn view(&self) -> Seq<char> {
        self.path@
    }
}

impl HostFileSource {
    /// The size of the resource.
    pub fn len(&self, resources: &HostResources, facts: &DiskFacts) -> (out: Result<u64, String>)
        requires
            resources.wf(),
        ensures
            match resources@ {
                Some(files) => match size_of(files, self@, *facts) {
                    Some(size) => out == Ok::<u64, String>(size),
                    None => out matches Err(text) && text@ == "not found: "@ + self@,
                },
                None => out matches Err(text) && text@ == not_mounted_text(),
            },
    {
        match resources.query_size(self.path.as_str(), facts) {
            Ok(Some(size)) => Ok(size),
            Ok(None) => Err(concat("not found: ", self.path.as_str())),
            Err(error) => Err(error),
        }
    }

    /// How `wanted` bytes of the resource are read from `offset` on.
    pub fn read_at(
        &self,
        resources: &HostResources,
        offset: u64,
        wanted: usize,
        facts: &DiskFacts,
    ) -> (out: Result<ReadAction, String>)
        requires
            resources.wf(),
        ensures
            match resources@ {
                Some(files) => match lookup_key(self@) {
                    Some(key) => {
                        let source = serving(
                            files,
                            self@,
                            key,
                            facts.save is Some,
                            facts.sidecar is Some,
                        );
                        match out {
                            Ok(action) => reads(action, source, offset, wanted),
                            Err(text) => source is Missing && text@ == "not found: "@ + self@,
                        }
                    },
                    None => out matches Err(text) && text@ == "invalid resource path: "@ + self@,
                },
                None => out matches Err(text) && text@ == not_mounted_text(),
            },
    {
        resources.read_range(self.path.as_str(), offset, wanted, facts)
    }
}

/// Copies `wanted` bytes from `offset` on, or as many as there are.
fn copy_part(bytes: &Vec<u8>, offset: u64, wanted: usize) -> (out: Vec<u8>)
    ensures
        out@ == part_of(bytes@, offset, wanted),
{
    let mut out: Vec<u8> = Vec::new();
    if offset >= bytes.len() as u64 {
        return out;
    }
    let from: usize = offset as usize;
    let to: usize = if wanted >= bytes.len() - from {
        bytes.len()
    } else {
        from + wanted
    };
    let mut i: usize = from;
    while i < to
        invariant
            from <= i <= to <= bytes.len(),
            out@ == bytes@.subrange(from as int, i as int),
        decreases to - i,
    {
        out.push(bytes[i]);
        i += 1;
        assert(out@ =~= bytes@.subrange(from as int, i as int));
    }
    assert(out@ =~= part_of(bytes@, offset, wanted));
    out
}

/// What a short read is reported as.
pub open spec fn short_read_text(path: Seq<char>, read: nat, wanted: nat) -> Seq<char> {
    "short read: "@ + path + " ("@ + decimal_text(read) + " of "@ + decimal_text(wanted)
        + " bytes)"@
}

/// Accepts a read that fetched all bytes that were wanted.
pub fn check_full_read(path: &str, read: u64, wanted: u64) -> (out: Result<(), String>)
    ensures
        read == wanted ==> out is Ok,
        read != wanted ==> (out matches Err(text) && text@ == short_read_text(
            path@,
            read as nat,
            wanted as nat,
        )),
{
    if read == wanted {
        return Ok(());
    }
    let head = concat("short read: ", path);
    let open = concat(head.as_str(), " (");
    let got = decimal_of(read);
    let with_got = concat(open.as_str(), got.as_str());
    let of = concat(with_got.as_str(), " of ");
    let all = decimal_of(wanted);
    let with_all = concat(of.as_str(), all.as_str());
    Err(concat(with_all.as_str(), " bytes)"))
}

// ── Calls on the process-wide handle ───────────────────────────

pub fn clear(resources: &mut HostResources)
    ensures
        final(resources).wf(),
        final(resources)@ is None,
{
    resources.clear();
}

pub fn is_mounted(resources: &HostResources) -> (out: bool)
    ensures
        out == (resources@ matches Some(files) && (files.directory is Some || files.archives > 0)),
{
    resources.is_mounted()
}

pub fn set_override(resources: &mut HostResources, path: &str, bytes: Vec<u8>) -> (out: Result<
    (),
    String,
>)
    requires
        old(resources).wf(),
    ensures
        final(resources).wf(),
        match lookup_key(path@) {
            Some(key) => out is Ok && final(resources)@ == Some(
                FilesState {
                    overrides: or_empty(old(resources)@).overrides.insert(key, bytes@),
                    ..or_empty(old(resources)@)
                },
            ),
            None => (out matches Err(text) && text@ == "invalid override path: "@ + path@)
                && final(resources)@ == old(resources)@,
        },
{
    resources.set_override(path, bytes)
}

pub fn clear_overrides(resources: &mut HostResources)
    requires
        old(resources).wf(),
    ensures
        final(resources).wf(),
        final(resources)@ == (match old(resources)@ {
            Some(files) => Some(FilesState { overrides: Map::empty(), ..files }),
            None => None,
        }),
{
    resources.clear_overrides();
}

/// The handle that a process begins with: nothing is mounted.
pub fn default_resources() -> (out: HostResources)
    ensures
        out.wf(),
        out@ is None,
{
    HostResources::new()
}

pub fn set_save_dir(resources: &mut HostResources, path: Option<&str>)
    requires
        old(resources).wf(),
    ensures
        final(resources).wf(),
        final(resources)@ == Some(
            FilesState {
                save_dir: match path {
                    Some(p) => Some(p@),
                    None => None,
                },
                ..or_empty(old(resources)@)
            },
        ),
{
    resources.set_save_dir(path);
}

pub fn mount_directory(
    resources: &mut HostResources,
    root: &str,
    is_directory: bool,
    found: &Vec<(String, String)>,
) -> (out: Result<(), String>)
    requires
        old(resources).wf(),
    ensures
        final(resources).wf(),
        is_directory ==> out is Ok && final(resources)@ == Some(
            FilesState {
                directory: Some(root@),
                index: directory_index(pair_texts(found@)),
                save_dir: or_empty(old(resources)@).save_dir,
                ..no_files()
            },
        ),
        !is_directory ==> (out matches Err(text) && text@ == "not a directory: "@ + root@)
            && final(resources)@ == old(resources)@,
{
    resources.mount_directory(root, is_directory, found)
}

pub fn mount_pfs(
    resources: &mut HostResources,
    parent: &str,
    requested: &str,
    opened: Vec<OpenedArchive>,
) -> (out: Result<(), String>)
    requires
        old(resources).wf(),
    ensures
        final(resources).wf(),
        mount_outcome(parent@, requested@, opened@, out),
        out is Err ==> final(resources)@ == old(resources)@,
        out is Ok ==> final(resources)@ == Some(
            FilesState {
                directory: Some(parent@),
                archives: readable(opened@).len(),
                index: archive_index(readable(opened@), 0),
                save_dir: or_empty(old(resources)@).save_dir,
                ..no_files()
            },
        ),
{
    resources.mount_pfs(parent, requested, opened)
}

pub fn query_size(resources: &HostResources, path: &str, facts: &DiskFacts) -> (out: Result<Option<u64>, String>)
    requires
        resources.wf(),
    ensures
        match resources@ {
            Some(files) => out == Ok::<Option<u64>, String>(size_of(files, path@, *facts)),
            None => out matches Err(text) && text@ == not_mounted_text(),
        },
{
    resources.query_size(path, facts)
}

pub fn read_range(resources: &HostResources, path: &str, offset: u64, wanted: usize, facts: &DiskFacts) -> (out:
    Result<ReadAction, String>)
    requires
        resources.wf(),
    ensures
        match resources@ {
            Some(files) => match lookup_key(path@) {
                Some(key) => {
                    let source = serving(
                        files,
                        path@,
                        key,
                        facts.save is Some,
                        facts.sidecar is Some,
                    );
                    match out {
                        Ok(action) => reads(action, source, offset, wanted),
                        Err(text) => source is Missing && text@ == "not found: "@ + path@,
                    }
                },
                None => out matches Err(text) && text@ == "invalid resource path: "@ + path@,
            },
            None => out matches Err(text) && text@ == not_mounted_text(),
        },
{
    resources.read_range(path, offset, wanted, facts)
}

pub fn read_file(resources: &HostResources, path: &str, facts: &DiskFacts) -> (out: Result<FileRead, String>)
    requires
        resources.wf(),
    ensures
        match resources@ {
            Some(files) => match size_of(files, path@, *facts) {
                Some(size) => out matches Ok(read) && read.size == size && (if size == 0 {
                    read.action is None
                } else {
                    read.action matches Some(action) && reads(
                        action,
                        serving(
                            files,
                            path@,
                            lookup_key(path@)->0,
                            facts.save is Some,
                            facts.sidecar is Some,
                        ),
                        0,
                        whole(size),
                    )
                }),
                None => out matches Err(text) && text@ == "not found: "@ + path@,
            },
            None => out matches Err(text) && text@ == not_mounted_text(),
        },
{
    resources.read_file(path, facts)
}

pub fn write(resources: &HostResources, path: &str) -> (out: Result<DiskPath, String>)
    ensures
        save_target(resources@, path@, out),
{
    resources.write(path)
}

pub fn delete(resources: &HostResources, path: &str) -> (out: Result<DiskPath, String>)
    ensures
        save_target(resources@, path@, out),
{
    resources.delete(path)
}

pub fn file_mtime(resources: &HostResources, path: &str) -> (out: Option<[i64; 6]>)
    ensures
        out is None,
{
    resources.file_mtime(path)
}

// ── What holds of lookup as a whole ────────────────────────────

proof fn lemma_with_entries(
    base: Map<Seq<char>, ResourceRecord>,
    archive: int,
    entries: Seq<(Seq<char>, u32)>,
)
    ensures
        forall|k: Seq<char>|
            base.contains_key(k) ==> #[trigger] with_entries(base, archive, entries).contains_key(k)
                && with_entries(base, archive, entries)[k] == base[k],
        forall|k: Seq<char>|
            #[trigger] with_entries(base, archive, entries).contains_key(k) && !base.contains_key(
                k,
            ) ==> {
                &&& with_entries(base, archive, entries)[k] is Pfs
                &&& with_entries(base, archive, entries)[k]->Pfs_archive == archive
            },
        forall|e: int|
            0 <= e < entries.len() && (#[trigger] entries[e]).1 != 0 && lookup_key(
                replace(entries[e].0, '\\', '/'),
            ) is Some ==> with_entries(base, archive, entries).contains_key(
                lookup_key(replace(entries[e].0, '\\', '/'))->0,
            ),
    decreases entries.len(),
{
    if entries.len() > 0 {
        let short = entries.drop_last();
        lemma_with_entries(base, archive, short);
        assert forall|e: int|
            0 <= e < entries.len() && (#[trigger] entries[e]).1 != 0 && lookup_key(
                replace(entries[e].0, '\\', '/'),
            ) is Some implies with_entries(base, archive, entries).contains_key(
            lookup_key(replace(entries[e].0, '\\', '/'))->0,
        ) by {
            if e < short.len() {
                assert(short[e] == entries[e]);
            }
        }
    }
}

/// An archive entry is served by its own archive or by a later one: patch
/// volumes win over the volumes before them.
pub proof fn law_patch_volumes_win(
    archives: Seq<Seq<(Seq<char>, u32)>>,
    from: int,
    archive: int,
    entry: int,
)
    requires
        0 <= from <= archive < archives.len(),
        0 <= entry < archives[archive].len(),
        archives[archive][entry].1 != 0,
        lookup_key(replace(archives[archive][entry].0, '\\', '/')) is Some,
    ensures
        ({
            let key = lookup_key(replace(archives[archive][entry].0, '\\', '/'))->0;
            let index = archive_index(archives, from);
            &&& index.contains_key(key)
            &&& index[key] is Pfs
            &&& index[key]->Pfs_archive >= archive
        }),
    decreases archives.len() - from,
{
    let key = lookup_key(replace(archives[archive][entry].0, '\\', '/'))->0;
    let rest = archive_index(archives, from + 1);
    lemma_with_entries(rest, from, archives[from]);
    if from < archive {
        law_patch_volumes_win(archives, from + 1, archive, entry);
        assert(with_entries(rest, from, archives[from]).contains_key(key));
    } else {
        lemma_archive_index_bounds(archives, from + 1);
        assert(archives[from][entry].1 != 0);
        assert(with_entries(rest, from, archives[from]).contains_key(key));
        if rest.contains_key(key) {
            assert(rest[key]->Pfs_archive >= from + 1);
        }
    }
}

proof fn lemma_archive_index_bounds(archives: Seq<Seq<(Seq<char>, u32)>>, from: int)
    requires
        0 <= from,
    ensures
        forall|k: Seq<char>| #[trigger]
            archive_index(archives, from).contains_key(k) ==> {
                &&& archive_index(archives, from)[k] is Pfs
                &&& from <= archive_index(archives, from)[k]->Pfs_archive < archives.len()
            },
    decreases archives.len() - from,
{
    if from < archives.len() {
        lemma_archive_index_bounds(archives, from + 1);
        let rest = archive_index(archives, from + 1);
        lemma_with_entries(rest, from, archives[from]);
        assert forall|k: Seq<char>| #[trigger] archive_index(archives, from).contains_key(
            k,
        ) implies {
            &&& archive_index(archives, from)[k] is Pfs
            &&& from <= archive_index(archives, from)[k]->Pfs_archive < archives.len()
        } by {
            if rest.contains_key(k) {
                assert(archive_index(archives, from)[k] == rest[k]);
            }
        }
    }
}

/// Every entry of an archive index names a mounted archive.
pub proof fn law_index_names_mounted_archives(archives: Seq<Seq<(Seq<char>, u32)>>, key: Seq<char>)
    requires
        archive_index(archives, 0).contains_key(key),
    ensures
        archive_index(archives, 0)[key] is Pfs,
        0 <= archive_index(archives, 0)[key]->Pfs_archive < archives.len(),
{
    lemma_archive_index_bounds(archives, 0);
}

/// An override serves its path, and every path with the same key, unless a
/// save file does.
pub proof fn law_override_serves(
    files: FilesState,
    path: Seq<char>,
    other: Seq<char>,
    bytes: Seq<u8>,
    sidecar_found: bool,
)
    requires
        lookup_key(path) is Some,
        lookup_key(other) == lookup_key(path),
    ensures
        serving(
            FilesState {
                overrides: files.overrides.insert(lookup_key(path)->0, bytes),
                ..files
            },
            other,
            lookup_key(other)->0,
            false,
            sidecar_found,
        ) == Served::Override(bytes),
{
}

/// A save file serves its path before anything else.
pub proof fn law_save_serves_first(
    files: FilesState,
    path: Seq<char>,
    key: Seq<char>,
    sidecar_found: bool,
)
    requires
        files.save_dir is Some,
        save_name(path) is Some,
    ensures
        serving(files, path, key, true, sidecar_found) == Served::Save(
            files.save_dir->0,
            save_name(path)->0,
        ),
{
}

/// Reading an override in two ranges that meet gives the same bytes as reading
/// it in one.
pub proof fn law_override_ranges_meet(bytes: Seq<u8>, offset: u64, first: usize, second: usize)
    requires
        offset + first <= u64::MAX,
        first + second <= usize::MAX,
    ensures
        part_of(bytes, offset, first) + part_of(bytes, (offset + first) as u64, second) == part_of(
            bytes,
            offset,
            (first + second) as usize,
        ),
{
    assert(part_of(bytes, offset, first) + part_of(bytes, (offset + first) as u64, second)
        =~= part_of(bytes, offset, (first + second) as usize));
}

// ── Files that are written and deleted ─────────────────────────

/// The files of a disk, by root directory and path below it.
pub type DiskFiles = Map<(Seq<char>, Seq<char>), Seq<u8>>;

/// What is found at a place of a disk, and its size.
pub open spec fn found_at(disk: DiskFiles, at: Option<(Seq<char>, Seq<char>)>) -> Option<
    Option<u64>,
> {
    match at {
        Some(place) => if disk.contains_key(place) {
            Some(Some(disk[place].len() as u64))
        } else {
            None
        },
        None => None,
    }
}

/// Whether facts tell what a disk holds for a path.
pub open spec fn facts_hold(
    facts: DiskFacts,
    files: FilesState,
    path: Seq<char>,
    disk: DiskFiles,
) -> bool {
    &&& facts.save == found_at(disk, below(files.save_dir, path))
    &&& facts.sidecar == found_at(disk, below(files.directory, path))
}

/// What serves a path, by what is known of the disk.
pub open spec fn served(files: FilesState, path: Seq<char>, facts: DiskFacts) -> Served {
    match lookup_key(path) {
        Some(key) => serving(files, path, key, facts.save is Some, facts.sidecar is Some),
        None => Served::Missing,
    }
}

/// What was written under a path is what the path serves, whatever override,
/// file or archive entry has the same path.
pub proof fn law_written_is_served(
    files: FilesState,
    path: Seq<char>,
    disk: DiskFiles,
    data: Seq<u8>,
    facts: DiskFacts,
)
    requires
        below(files.save_dir, path) is Some,
        data.len() <= u64::MAX,
        facts_hold(facts, files, path, disk.insert(below(files.save_dir, path)->0, data)),
    ensures
        lookup_key(path) is Some,
        ({
            let place = below(files.save_dir, path)->0;
            &&& served(files, path, facts) == Served::Save(place.0, place.1)
            &&& disk.insert(place, data)[place] == data
            &&& size_of(files, path, facts) == Some(data.len() as u64)
        }),
{
    law_save_paths_have_keys(path);
}

/// A save that was deleted is gone: deleting it again changes nothing, and the
/// path serves what it would have served had nothing been written under it.
pub proof fn law_deleted_is_gone(
    files: FilesState,
    path: Seq<char>,
    disk: DiskFiles,
    data: Seq<u8>,
    before: DiskFacts,
    after: DiskFacts,
)
    requires
        below(files.save_dir, path) is Some,
        !disk.contains_key(below(files.save_dir, path)->0),
        facts_hold(before, files, path, disk),
        facts_hold(
            after,
            files,
            path,
            disk.insert(below(files.save_dir, path)->0, data).remove(
                below(files.save_dir, path)->0,
            ),
        ),
    ensures
        ({
            let place = below(files.save_dir, path)->0;
            let gone = disk.insert(place, data).remove(place);
            &&& gone == disk
            &&& gone.remove(place) == gone
            &&& served(files, path, after) == served(files, path, before)
            &&& !(served(files, path, after) is Save)
        }),
{
    let place = below(files.save_dir, path)->0;
    assert(disk.insert(place, data).remove(place) =~= disk);
    assert(disk.remove(place) =~= disk);
}

// ── What serves a path ─────────────────────────────────────────

/// A path is served by the first that has it: the save file, an override, a file
/// beside the archives, and what was found when the resources were mounted.
pub proof fn law_sources_have_an_order(
    files: FilesState,
    path: Seq<char>,
    key: Seq<char>,
    save_found: bool,
    sidecar_found: bool,
)
    ensures
        ({
            let source = serving(files, path, key, save_found, sidecar_found);
            let saved = save_found && files.save_dir is Some && save_name(path) is Some;
            let overridden = files.overrides.contains_key(key);
            let beside = sidecar_found && files.directory is Some && save_name(path) is Some;
            let indexed = files.index.contains_key(key);
            &&& saved ==> source == Served::Save(files.save_dir->0, save_name(path)->0)
            &&& !saved && overridden ==> source == Served::Override(files.overrides[key])
            &&& !saved && !overridden && beside ==> source == Served::Sidecar(
                files.directory->0,
                save_name(path)->0,
            )
            &&& !saved && !overridden && !beside && indexed ==> source == Served::Indexed(
                files.index[key],
            )
            &&& !saved && !overridden && !beside && !indexed ==> source == Served::Missing
        }),
{
}

/// The key by which a path is looked up, and the name under which it is saved,
/// are those of its parts; white space around a save path does not count. A save
/// path leads below the root that is set, and nowhere without one.
pub proof fn law_paths_have_keys_and_names(path: Seq<char>, root: Option<Seq<char>>)
    ensures
        lookup_key(path) == clean_path(PartRule::Lookup, path),
        save_name(path) == clean_path(PartRule::Strict, trim(path)),
        below(root, path) is Some <==> root is Some && save_name(path) is Some,
        below(root, path) matches Some(place) ==> place.0 == root->0 && place.1 == save_name(
            path,
        )->0,
{
}

/// The size of a path is that of what serves it: of an override its length, of an
/// archive entry the size in the index, and of a file that which the disk knows.
pub proof fn law_sizes_are_those_of_the_source(
    files: FilesState,
    path: Seq<char>,
    facts: DiskFacts,
)
    ensures
        lookup_key(path) is None ==> size_of(files, path, facts) is None,
        lookup_key(path) matches Some(key) ==> {
            let source = serving(files, path, key, facts.save is Some, facts.sidecar is Some);
            let size = size_of(files, path, facts);
            &&& source is Save ==> Some(size) == facts.save
            &&& source is Sidecar ==> Some(size) == facts.sidecar
            &&& source matches Served::Override(bytes) ==> size == Some(bytes.len() as u64)
            &&& source matches Served::Indexed(entry) ==> (entry matches ResourceRecord::Pfs {
                size: own,
                ..
            } ==> size == Some(own)) && (entry is File ==> size == facts.indexed)
            &&& source is Missing ==> size is None
        },
{
}

/// Bytes are read from what serves the path: an override's own bytes, else the
/// file at its place, or the entry of its archive.
pub proof fn law_reads_go_to_the_source(
    action: ReadAction,
    source: Served,
    offset: u64,
    wanted: usize,
)
    requires
        reads(action, source, offset, wanted),
    ensures
        !(source is Missing),
        source matches Served::Save(root, relative) ==> (action matches ReadAction::Disk(at)
            && at.root@ == root && at.relative@ == relative),
        source matches Served::Sidecar(root, relative) ==> (action matches ReadAction::Disk(at)
            && at.root@ == root && at.relative@ == relative),
        source matches Served::Override(all) ==> (action matches ReadAction::Bytes(bytes) && bytes@
            == part_of(all, offset, wanted)),
        source matches Served::Indexed(ResourceRecord::File(full)) ==> (action matches
            ReadAction::File(at) && at@ == full),
        source matches Served::Indexed(ResourceRecord::Pfs { archive, path, .. }) ==> (action
            matches ReadAction::Archive { archive: number, path: at } && number == archive && at@
            == path),
{
}

/// A range of bytes begins at its offset and is as long as it was asked for, or as
/// there are bytes.
pub proof fn law_ranges_are_parts(bytes: Seq<u8>, offset: u64, wanted: usize, i: int)
    ensures
        offset >= bytes.len() ==> part_of(bytes, offset, wanted).len() == 0,
        offset < bytes.len() && wanted <= bytes.len() - offset ==> part_of(
            bytes,
            offset,
            wanted,
        ).len() == wanted,
        offset < bytes.len() && wanted > bytes.len() - offset ==> part_of(
            bytes,
            offset,
            wanted,
        ).len() == bytes.len() - offset,
        0 <= i < part_of(bytes, offset, wanted).len() ==> part_of(bytes, offset, wanted)[i]
            == bytes[offset + i],
{
}

/// The files of a directory are found by their keys, whichever slashes their paths
/// have; a later file of the same key takes the place of an earlier one.
pub proof fn law_directories_are_indexed(
    found: Seq<(Seq<char>, Seq<char>)>,
    relative: Seq<char>,
    full: Seq<char>,
)
    ensures
        directory_index(Seq::empty()) == Map::<Seq<char>, ResourceRecord>::empty(),
        lookup_key(relative) matches Some(key) ==> directory_index(found.push((relative, full)))
            == directory_index(found).insert(key, ResourceRecord::File(full)),
        lookup_key(relative) is None ==> directory_index(found.push((relative, full)))
            == directory_index(found),
{
    assert(found.push((relative, full)).drop_last() =~= found);
    crate::paths::law_lookup_ignores_slash_kind(relative);
}

/// An entry of an archive is found by its key, with the archive's number, its path
/// with plain slashes and its size, unless the key is taken or the entry is empty.
pub proof fn law_archive_entries_are_indexed(
    base: Map<Seq<char>, ResourceRecord>,
    archive: int,
    entries: Seq<(Seq<char>, u32)>,
    path: Seq<char>,
    size: u32,
)
    ensures
        with_entries(base, archive, Seq::empty()) == base,
        ({
            let before = with_entries(base, archive, entries);
            let after = with_entries(base, archive, entries.push((path, size)));
            let key = lookup_key(path);
            &&& key is None || size == 0 || before.contains_key(key->0) ==> after == before
            &&& key is Some && size > 0 && !before.contains_key(key->0) ==> after == before.insert(
                key->0,
                ResourceRecord::Pfs {
                    archive,
                    path: replace(path, '\\', '/'),
                    size: size as u64,
                },
            )
        }),
{
    assert(entries.push((path, size)).drop_last() =~= entries);
    crate::paths::law_lookup_ignores_slash_kind(path);
}

/// The last archive is indexed first, and each one before it fills what those
/// behind it left free.
pub proof fn law_later_archives_are_indexed_first(archives: Seq<Seq<(Seq<char>, u32)>>, from: int)
    ensures
        from >= archives.len() ==> archive_index(archives, from) == Map::<
            Seq<char>,
            ResourceRecord,
        >::empty(),
        0 <= from < archives.len() ==> archive_index(archives, from) == with_entries(
            archive_index(archives, from + 1),
            from,
            archives[from],
        ),
{
}

/// Archives that could not be opened are passed over; the others keep their order.
pub proof fn law_unreadable_archives_are_passed_over(
    opened: Seq<OpenedArchive>,
    archive: OpenedArchive,
)
    ensures
        readable(Seq::empty()).len() == 0,
        archive.entries matches Ok(entries) ==> readable(opened.push(archive)) == readable(
            opened,
        ).push(entry_views(entries@)),
        archive.entries is Err ==> readable(opened.push(archive)) == readable(opened),
{
    assert(opened.push(archive).drop_last() =~= opened);
}

/// Mounting archives fails where there is no candidate, where the archive that was
/// asked for could not be opened, and where no archive could; else it succeeds.
pub proof fn law_mounts_need_an_archive(
    parent: Seq<char>,
    requested: Seq<char>,
    opened: Seq<OpenedArchive>,
    out: Result<(), String>,
    at: int,
)
    requires
        mount_outcome(parent, requested, opened, out),
    ensures
        opened.len() == 0 ==> (out matches Err(text) && text@ == "no PFS archives under "@
            + parent),
        0 <= at < opened.len() && opened[at].path@ == requested && opened[at].entries is Err
            ==> out is Err,
        (forall|k: int| 0 <= k < opened.len() ==> (#[trigger] opened[k]).entries is Err) ==> out
            is Err,
        0 <= at < opened.len() && opened[at].entries is Ok && (forall|k: int|
            0 <= k < opened.len() && (#[trigger] opened[k]).path@ == requested
                ==> opened[k].entries is Ok) ==> out is Ok,
{
    lemma_failed_request(opened, requested);
    if 0 <= at < opened.len() && opened[at].entries is Ok {
        lemma_readable_is_there(opened, at);
    }
    if forall|k: int| 0 <= k < opened.len() ==> (#[trigger] opened[k]).entries is Err {
        lemma_nothing_readable(opened);
    }
}

proof fn lemma_failed_request(opened: Seq<OpenedArchive>, requested: Seq<char>)
    ensures
        0 <= failed_request(opened, requested) <= opened.len(),
        ({
            let at = failed_request(opened, requested);
            at < opened.len() ==> opened[at].path@ == requested && opened[at].entries is Err
        }),
        forall|j: int|
            0 <= j < failed_request(opened, requested) ==> !((#[trigger] opened[j]).path@
                == requested && opened[j].entries is Err),
    decreases opened.len(),
{
    if opened.len() > 0 && !(opened[0].path@ == requested && opened[0].entries is Err) {
        lemma_failed_request(opened.skip(1), requested);
        assert forall|j: int| 0 <= j < failed_request(opened, requested) implies !((
        #[trigger] opened[j]).path@ == requested && opened[j].entries is Err) by {
            if j > 0 {
                assert(opened.skip(1)[j - 1] == opened[j]);
            }
        }
    }
}

proof fn lemma_readable_is_there(opened: Seq<OpenedArchive>, at: int)
    requires
        0 <= at < opened.len(),
        opened[at].entries is Ok,
    ensures
        readable(opened).len() > 0,
    decreases opened.len(),
{
    if at < opened.len() - 1 {
        lemma_readable_is_there(opened.drop_last(), at);
    }
}

proof fn lemma_nothing_readable(opened: Seq<OpenedArchive>)
    requires
        forall|k: int| 0 <= k < opened.len() ==> (#[trigger] opened[k]).entries is Err,
    ensures
        readable(opened).len() == 0,
    decreases opened.len(),
{
    if opened.len() > 0 {
        let rest = opened.drop_last();
        assert forall|k: int| 0 <= k < rest.len() implies (#[trigger] rest[k]).entries is Err by {
            assert(rest[k] == opened[k]);
        }
        lemma_nothing_readable(rest);
        assert(opened[opened.len() - 1].entries is Err);
    }
}

/// An archive is a file whose name ends in `.pfs`, or in `.pfs.` and three digits,
/// in capitals or small letters; hidden files that only tell of another one are
/// not taken.
pub proof fn law_archives_go_by_their_names(name: Seq<char>, digits: Seq<char>, stem: Seq<char>)
    ensures
        lower(name) == stem + ".pfs"@ ==> archive_name(name),
        lower(name) == stem + ".pfs."@ + digits && digits.len() == 3 && crate::strs::all_digits(
            digits,
        ) ==> archive_name(name),
        archive_name(name) ==> ({
            let l = lower(name);
            ||| l.len() >= 4 && l.skip(l.len() - 4) == ".pfs"@
            ||| l.len() >= 8 && l.subrange(l.len() - 8, l.len() - 3) == ".pfs."@
                && crate::strs::all_digits(l.skip(l.len() - 3))
        }),
        archive_candidate(name) <==> archive_name(name) && !(name.len() >= 2 && name.take(2)
            == "._"@),
{
    reveal_strlit(".pfs");
    reveal_strlit(".pfs.");
    reveal_strlit("._");
    let l = lower(name);
    if l == stem + ".pfs"@ {
        assert(l.skip(l.len() - 4) =~= ".pfs"@);
    }
    if l == stem + ".pfs."@ + digits && digits.len() == 3 {
        assert(l.subrange(l.len() - 8, l.len() - 8 + 5) =~= ".pfs."@);
        assert(l.skip(l.len() - 3) =~= digits);
    }
}

/// The encoding of an archive's names goes by its name, in capitals or small
/// letters and with or without white space around it; an unknown one is UTF-8.
pub proof fn law_encodings_go_by_their_names(name: Seq<char>)
    ensures
        ({
            let key = lower(trim(name));
            &&& encoding_named(name) == NameEncoding::ShiftJis <==> key == "shift_jis"@ || key
                == "shift-jis"@ || key == "sjis"@
            &&& encoding_named(name) == NameEncoding::Gbk <==> key == "gbk"@ || key == "gb2312"@
            &&& encoding_named(name) == NameEncoding::Gb18030 <==> key == "gb18030"@
        }),
{
    reveal_strlit("shift_jis");
    reveal_strlit("shift-jis");
    reveal_strlit("sjis");
    reveal_strlit("gbk");
    reveal_strlit("gb2312");
    reveal_strlit("gb18030");
    assert("shift_jis"@.len() == 9 && "shift-jis"@.len() == 9 && "sjis"@.len() == 4);
    assert("gbk"@.len() == 3 && "gb2312"@.len() == 6 && "gb18030"@.len() == 7);
}

/// A save is written to and deleted from its place below the save directory; an
/// invalid path, or one without such a directory, is refused by its name.
pub proof fn law_saves_have_their_place(
    state: Option<FilesState>,
    path: Seq<char>,
    out: Result<DiskPath, String>,
)
    requires
        save_target(state, path, out),
    ensures
        state is None ==> (out matches Err(text) && text@ == "file host is not mounted"@),
        state matches Some(files) ==> {
            &&& files.save_dir is Some && save_name(path) is Some ==> (out matches Ok(at)
                && at.root@ == files.save_dir->0 && at.relative@ == save_name(path)->0)
            &&& !(files.save_dir is Some && save_name(path) is Some) ==> (out matches Err(text)
                && text@ == "invalid save path: "@ + path)
        },
{
}

/// A whole file is read by its size, and a read that fell short says so.
pub proof fn law_files_are_read_whole(size: u64, path: Seq<char>, read: nat, wanted: nat)
    ensures
        size <= usize::MAX ==> whole(size) == size,
        size > usize::MAX ==> whole(size) == usize::MAX,
        short_read_text(path, read, wanted) == "short read: "@ + path + " ("@ + decimal_text(read)
            + " of "@ + decimal_text(wanted) + " bytes)"@,
{
}

/// Before anything was mounted nothing is there.
pub proof fn law_nothing_is_mounted_at_first()
    ensures
        no_files().directory is None && no_files().save_dir is None && no_files().archives == 0,
        no_files().index == Map::<Seq<char>, ResourceRecord>::empty(),
        no_files().overrides == Map::<Seq<char>, Seq<u8>>::empty(),
{
}

/// Archives are mounted where the one that was asked for opens and any is readable;
/// the first thing that is in the way is told.
pub proof fn law_mounting_says_what_is_in_the_way(
    parent: Seq<char>,
    requested: Seq<char>,
    opened: Seq<OpenedArchive>,
    out: Result<(), String>,
    i: int,
)
    requires
        mount_outcome(parent, requested, opened, out),
    ensures
        opened.len() == 0 ==> (out matches Err(text) && text@ == "no PFS archives under "@
            + parent),
        0 <= i < opened.len() && opened[i].path@ == requested && opened[i].entries is Err && (
        forall|j: int|
            0 <= j < i ==> !((#[trigger] opened[j]).path@ == requested && opened[j].entries is Err))
            ==> (out matches Err(text) && text@ == "open "@ + requested + ": "@
            + opened[i].entries->Err_0@),
        opened.len() > 0 && (forall|j: int|
            0 <= j < opened.len() ==> !((#[trigger] opened[j]).path@ == requested
                && opened[j].entries is Err)) ==> {
            &&& readable(opened).len() > 0 ==> out is Ok
            &&& readable(opened).len() == 0 ==> (out matches Err(text) && text@
                == "no readable PFS archives under "@ + parent)
        },
{
    if 0 <= i < opened.len() && opened[i].path@ == requested && opened[i].entries is Err && (
    forall|j: int|
        0 <= j < i ==> !((#[trigger] opened[j]).path@ == requested && opened[j].entries is Err)) {
        lemma_failed_request_is(opened, requested, i);
    }
    if forall|j: int|
        0 <= j < opened.len() ==> !((#[trigger] opened[j]).path@ == requested
            && opened[j].entries is Err) {
        lemma_failed_request_is(opened, requested, opened.len() as int);
    }
}

} // verus!
