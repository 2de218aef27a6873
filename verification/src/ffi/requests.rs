//! Reading whole files through reads of parts.
use crate::host::files::{save_target, size_of, DiskFacts, DiskPath, FilesState, HostResources};
use crate::strs::{concat, copy_bytes, copy_text, decimal_of, decimal_text};
use vstd::prelude::*;

verus! {

/// The largest part of a long file that is asked for at once.
pub const CHUNK: u64 = 65536;

/// The longest file that is read at once.
pub const MAX_SINGLE: u64 = 16777216;

/// A file that is read part by part.
pub struct FileRequest {
    path: String,
    total: u64,
    buf: Vec<u8>,
    ended: bool,
}

/// How far a file was read.
pub struct RequestRecord {
    pub path: Seq<char>,
    pub total: u64,
    pub buf: Seq<u8>,
    /// Whether no more comes.
    pub ended: bool,
}

impl View for FileRequest {
    type V = RequestRecord;

    closed spec fn view(&self) -> RequestRecord {
        RequestRecord {
            path: self.path@,
            total: self.total,
            buf: self.buf@,
            ended: self.ended,
        }
    }
}

/// The part that is asked for next: where it begins and how long it is.
pub open spec fn next_part(r: RequestRecord) -> Option<(u64, u64)> {
    let at = r.buf.len();
    if r.ended || at >= r.total {
        None
    } else if r.total <= MAX_SINGLE {
        Some((0, r.total))
    } else if r.total - at < CHUNK {
        Some((at as u64, (r.total - at) as u64))
    } else {
        Some((at as u64, CHUNK))
    }
}

/// How far a file was read after a part came. A short file comes at once; a
/// long one ends with an empty part.
pub open spec fn fed(r: RequestRecord, part: Seq<u8>) -> RequestRecord {
    if next_part(r) is None {
        r
    } else {
        RequestRecord {
            buf: r.buf + part,
            ended: r.total <= MAX_SINGLE || part.len() == 0,
            ..r
        }
    }
}

/// What is said of a file that came short.
pub open spec fn short_text(path: Seq<char>, came: nat, total: u64) -> Seq<char> {
    "short read: "@ + path + " ("@ + decimal_text(came) + " of "@ + decimal_text(total as nat)
        + " bytes)"@
}

/// What the reading came to.
pub open spec fn outcome(r: RequestRecord) -> Result<Seq<u8>, Seq<char>> {
    if r.buf.len() == r.total {
        Ok(r.buf)
    } else {
        Err(short_text(r.path, r.buf.len(), r.total))
    }
}

pub open spec fn outcome_view(out: Result<Vec<u8>, String>) -> Result<Seq<u8>, Seq<char>> {
    match out {
        Ok(bytes) => Ok(bytes@),
        Err(message) => Err(message@),
    }
}

impl FileRequest {
    /// No more came than the file holds, and a short file comes at once.
    pub open spec fn wf(self) -> bool {
        &&& self@.buf.len() <= self@.total
        &&& self@.total <= MAX_SINGLE && !self@.ended ==> self@.buf.len() == 0
    }

    /// Begins to read a file of a size; without a size there is no file.
    pub fn request_file(path: &str, size: Option<u64>) -> (out: Result<Self, String>)
        ensures
            out is Ok <==> size is Some,
            out matches Ok(request) ==> request.wf() && request@ == (RequestRecord {
                path: path@,
                total: size->0,
                buf: Seq::empty(),
                ended: false,
            }),
            out matches Err(message) ==> message@ == "not found: "@ + path@,
    {
        match size {
            Some(total) => Ok(
                FileRequest { path: copy_text(path), total, buf: Vec::new(), ended: false },
            ),
            None => Err(concat("not found: ", path)),
        }
    }

    /// The part to read next; none where the reading is over.
    pub fn next(&self) -> (out: Option<(u64, u64)>)
        ensures
            out == next_part(self@),
    {
        let at: u64 = self.buf.len() as u64;
        if self.ended || at >= self.total {
            None
        } else if self.total <= MAX_SINGLE {
            Some((0, self.total))
        } else if self.total - at < CHUNK {
            Some((at, self.total - at))
        } else {
            Some((at, CHUNK))
        }
    }

    /// Takes what a read of the next part gave, which is that part or the
    /// beginning of it. A read that failed gave nothing.
    pub fn feed(&mut self, part: &[u8])
        requires
            old(self).wf(),
            next_part(old(self)@) matches Some((_, len)) ==> part@.len() <= len,
        ensures
            (*final(self)).wf(),
            final(self)@ == fed(old(self)@, part@),
    {
        if self.next().is_none() {
            return;
        }
        let single = self.total <= MAX_SINGLE;
        let mut bytes = copy_bytes(part);
        let empty = bytes.len() == 0;
        self.buf.append(&mut bytes);
        self.ended = single || empty;
    }

    /// What the reading came to.
    pub fn finish(self) -> (out: Result<Vec<u8>, String>)
        ensures
            outcome_view(out) == outcome(self@),
    {
        if self.buf.len() as u64 == self.total {
            Ok(self.buf)
        } else {
            let mut message = concat("short read: ", self.path.as_str());
            message.append(" (");
            message.append(decimal_of(self.buf.len() as u64).as_str());
            message.append(" of ");
            message.append(decimal_of(self.total).as_str());
            message.append(" bytes)");
            Err(message)
        }
    }
}

/// Whether what was read is the beginning of a file.
pub open spec fn reads(r: RequestRecord, content: Seq<u8>) -> bool {
    &&& r.total == content.len()
    &&& r.buf.len() <= content.len()
    &&& r.buf == content.take(r.buf.len() as int)
    &&& r.total <= MAX_SINGLE ==> (r.buf.len() == 0 || r.buf.len() == r.total)
}

/// Where every read gives the whole part that was asked for, reading goes on
/// through the file, each read brings it further, and at its end it is the
/// file's content.
pub proof fn law_whole_file_is_read(r: RequestRecord, content: Seq<u8>)
    requires
        reads(r, content),
        !r.ended,
    ensures
        next_part(r) is None ==> outcome(r) == Ok::<Seq<u8>, Seq<char>>(content),
        next_part(r) matches Some((at, len)) ==> {
            let next = fed(r, content.subrange(at as int, at + len));
            &&& at + len <= content.len()
            &&& reads(next, content)
            &&& next.buf.len() > r.buf.len()
            &&& !next.ended || next_part(next) is None && outcome(next) == Ok::<
                Seq<u8>,
                Seq<char>,
            >(content)
        },
{
    match next_part(r) {
        Some((at, len)) => {
            let next = fed(r, content.subrange(at as int, at + len));
            assert(next.buf =~= content.take(next.buf.len() as int));
            if next.buf.len() == content.len() {
                assert(content.take(content.len() as int) =~= content);
            }
        },
        None => {
            assert(content.take(content.len() as int) =~= content);
        },
    }
}

/// What a read of a range came to: the bytes that came, or nothing where the
/// read failed.
pub fn request_file_range(mut buf: Vec<u8>, read: Option<usize>) -> (out: Option<Vec<u8>>)
    requires
        read matches Some(n) ==> n <= buf@.len(),
    ensures
        match read {
            Some(n) => out matches Some(bytes) && bytes@ == buf@.take(n as int),
            None => out is None,
        },
{
    match read {
        Some(n) => {
            buf.truncate(n);
            Some(buf)
        },
        None => None,
    }
}

/// The content of a file, where it could be read.
pub fn request_asset(outcome: Result<Vec<u8>, String>) -> (out: Option<Vec<u8>>)
    ensures
        match outcome {
            Ok(bytes) => out matches Some(b) && b@ == bytes@,
            Err(_) => out is None,
        },
{
    match outcome {
        Ok(bytes) => Some(bytes),
        Err(_) => None,
    }
}

/// What a read of a range of an asset came to.
pub fn request_asset_range(buf: Vec<u8>, read: Option<usize>) -> (out: Option<Vec<u8>>)
    requires
        read matches Some(n) ==> n <= buf@.len(),
    ensures
        match read {
            Some(n) => out matches Some(bytes) && bytes@ == buf@.take(n as int),
            None => out is None,
        },
{
    request_file_range(buf, read)
}

/// The bytes of a font whose file was read, or why they could not be.
pub fn load_font_ffi(request: FileRequest) -> (out: Result<Vec<u8>, String>)
    ensures
        outcome_view(out) == outcome(request@),
{
    request.finish()
}

// ── The mounted files ──────────────────────────────────────────

/// Forgets every file that was put over a mounted one.
pub fn clear_file_size_cache(resources: &mut HostResources)
    requires
        old(resources).wf(),
    ensures
        final(resources).wf(),
        final(resources)@ == (match old(resources)@ {
            Some(files) => Some(FilesState { overrides: Map::empty(), ..files }),
            None => None,
        }),
{
    resources.clear_overrides();
}

/// Whether there is anything to read from.
pub fn file_reader_registered(resources: &HostResources) -> (out: bool)
    ensures
        out == (resources@ matches Some(files) && (files.directory is Some || files.archives > 0)),
{
    resources.is_mounted()
}

/// Where a save is written to.
pub fn request_write(resources: &HostResources, path: &str) -> (out: Result<DiskPath, String>)
    ensures
        save_target(resources@, path@, out),
{
    resources.write(path)
}

/// Which save is deleted.
pub fn request_delete(resources: &HostResources, path: &str) -> (out: Result<DiskPath, String>)
    ensures
        save_target(resources@, path@, out),
{
    resources.delete(path)
}

/// Modification times are not kept.
pub fn request_file_mtime(resources: &HostResources, path: &str) -> (out: Option<[i64; 6]>)
    ensures
        out is None,
{
    resources.file_mtime(path)
}

/// The size of an asset; none where nothing serves it or nothing is mounted.
pub fn query_asset_size(resources: &HostResources, path: &str, facts: &DiskFacts) -> (out: Option<
    u64,
>)
    requires
        resources.wf(),
    ensures
        out == (match resources@ {
            Some(files) => size_of(files, path@, *facts),
            None => None,
        }),
{
    match resources.query_size(path, facts) {
        Ok(size) => size,
        Err(_) => None,
    }
}

/// A file of 16 MiB or less is asked for at once; a larger one by parts of 64 KiB
/// from where the last part ended, the last as long as what is left. Nothing is
/// asked for when all has come or no more comes.
pub proof fn law_files_are_asked_for_by_parts(r: RequestRecord)
    ensures
        r.ended || r.buf.len() >= r.total ==> next_part(r) is None,
        !r.ended && r.buf.len() < r.total && r.total <= 16777216 ==> next_part(r) == Some(
            (0u64, r.total),
        ),
        !r.ended && r.buf.len() < r.total && r.total > 16777216 ==> ({
            let left = r.total - r.buf.len();
            &&& next_part(r) matches Some((at, len))
            &&& at == r.buf.len()
            &&& left >= 65536 ==> len == 65536
            &&& left < 65536 ==> len == left
        }),
{
}

/// A part goes behind those that came before. No more comes after an empty part, nor
/// after the only one; a part that was not asked for changes nothing.
pub proof fn law_parts_go_behind_each_other(r: RequestRecord, part: Seq<u8>)
    ensures
        next_part(r) is None ==> fed(r, part) == r,
        next_part(r) is Some ==> {
            &&& fed(r, part).buf == r.buf + part
            &&& fed(r, part).path == r.path && fed(r, part).total == r.total
            &&& fed(r, part).ended <==> part.len() == 0 || r.total <= 16777216
        },
        r.buf.len() == r.total ==> outcome(r) == Ok::<Seq<u8>, Seq<char>>(r.buf),
        r.buf.len() != r.total ==> outcome(r) == Err::<Seq<u8>, Seq<char>>(
            "short read: "@ + r.path + " ("@ + decimal_text(r.buf.len()) + " of "@ + decimal_text(
                r.total as nat,
            ) + " bytes)"@,
        ),
{
}

} // verus!
