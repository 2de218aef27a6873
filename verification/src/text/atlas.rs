//! The picture that glyphs are kept in, and colours by their digits.
use crate::strs::{chars_of, trim, trimmed};
use vstd::prelude::*;

verus! {

/// The side of the picture.
pub const ATLAS_SZ: u32 = 1024;

/// The bytes of one row of the picture.
pub const ROW_BYTES: usize = 4096;

/// The bytes of the picture.
pub const ATLAS_BYTES: usize = 4194304;

/// A square picture, cut into rows from the top; each row is filled from the
/// left.
pub struct Atlas {
    /// Where each row begins and how high it is.
    pub rows: Vec<(u32, u32)>,
    /// How far each row is filled.
    pub cur: Vec<u32>,
    pub px: Vec<u8>,
    /// Whether the picture changed since it was handed out.
    pub dirty: bool,
}

/// Whether a point lies in a part of the picture that was handed out.
pub open spec fn used(a: Atlas, x: int, y: int) -> bool {
    exists|i: int|
        #![trigger a.rows@[i]]
        0 <= i < a.rows@.len() && a.rows@[i].0 <= y < a.rows@[i].0 + a.rows@[i].1 && 0 <= x
            < a.cur@[i]
}

/// The end of the last row.
pub open spec fn rows_end(rows: Seq<(u32, u32)>) -> int {
    if rows.len() == 0 {
        0
    } else {
        rows.last().0 + rows.last().1
    }
}

/// Whether row `i` has room.
pub open spec fn row_fits(a: Atlas, i: int, w: u32, h: u32) -> bool {
    a.rows@[i].1 >= h && a.cur@[i] + w <= ATLAS_SZ
}

/// The first row with room, or the number of rows.
pub open spec fn first_fit(a: Atlas, w: u32, h: u32, from: int) -> int
    decreases a.rows@.len() - from,
{
    if from >= a.rows@.len() || row_fits(a, from, w, h) {
        from
    } else {
        first_fit(a, w, h, from + 1)
    }
}

/// Where a part is handed out: in the first row with room, else in a new row
/// below, where that fits.
pub open spec fn place_for(a: Atlas, w: u32, h: u32) -> Option<(u32, u32)> {
    let i = first_fit(a, w, h, 0);
    if i < a.rows@.len() {
        Some((a.cur@[i], a.rows@[i].0))
    } else if rows_end(a.rows@) + h <= ATLAS_SZ {
        Some((0, rows_end(a.rows@) as u32))
    } else {
        None
    }
}

/// The rows, and how far each is filled, after a part was handed out.
pub open spec fn rows_after(a: Atlas, w: u32, h: u32) -> (Seq<(u32, u32)>, Seq<u32>) {
    let i = first_fit(a, w, h, 0);
    if i < a.rows@.len() {
        (a.rows@, a.cur@.update(i, (a.cur@[i] + w) as u32))
    } else {
        (a.rows@.push((rows_end(a.rows@) as u32, h)), a.cur@.push(w))
    }
}

/// Whether every point of a part was unused before and is used after.
pub open spec fn newly_used(before: Atlas, after: Atlas, at: (u32, u32), w: u32, h: u32) -> bool {
    forall|x: int, y: int|
        #![trigger used(before, x, y)]
        #![trigger used(after, x, y)]
        at.0 <= x < at.0 + w && at.1 <= y < at.1 + h ==> !used(before, x, y) && used(after, x, y)
}

/// Whether the ends that are looked at to hand out a part can be counted: those
/// of the rows that are high enough, up to the first with room, and that of a
/// new row where no row has room.
pub open spec fn ends_fit(a: Atlas, w: u32, h: u32) -> bool {
    let fit = first_fit(a, w, h, 0);
    &&& forall|i: int|
        #![trigger a.rows@[i]]
        0 <= i < a.rows@.len() && i <= fit && a.rows@[i].1 >= h ==> a.cur@[i] + w <= u32::MAX
    &&& fit >= a.rows@.len() ==> rows_end(a.rows@) + h <= u32::MAX
}

/// The smaller of two counts.
pub open spec fn fewer(a: int, b: int) -> int {
    if a < b {
        a
    } else {
        b
    }
}

/// Bytes with others copied over them, as many as there are and fit.
pub open spec fn copied(px: Seq<u8>, to: int, bytes: Seq<u8>) -> Seq<u8> {
    Seq::new(
        px.len(),
        |i: int|
            if to <= i < to + bytes.len() {
                bytes[i - to]
            } else {
                px[i]
            },
    )
}

/// The bytes of a row of a part.
pub open spec fn row_bytes(w: u32, rgba: Seq<u8>, row: int) -> Seq<u8> {
    let from = row * (4 * w);
    rgba.subrange(from, from + fewer(4 * w, rgba.len() - from))
}

/// The picture after the first `rows` rows of a part were written, each where
/// it begins and as far as there are bytes.
pub open spec fn written(
    px: Seq<u8>,
    x: u32,
    y: u32,
    w: u32,
    rgba: Seq<u8>,
    rows: int,
) -> Seq<u8>
    decreases rows,
{
    if rows <= 0 {
        px
    } else {
        copied(
            written(px, x, y, w, rgba, rows - 1),
            (y + rows - 1) * 4096 + 4 * x,
            row_bytes(w, rgba, rows - 1),
        )
    }
}

/// A byte of the picture after a part inside of it was written.
pub open spec fn painted(
    px: Seq<u8>,
    x: u32,
    y: u32,
    w: u32,
    rgba: Seq<u8>,
    rows: int,
    at: int,
) -> u8 {
    let row = at / 4096;
    let off = at % 4096;
    if y <= row < y + rows && 4 * x <= off < 4 * x + 4 * w {
        rgba[(row - y) * (4 * w) + (off - 4 * x)]
    } else {
        px[at]
    }
}

impl Atlas {
    /// The rows lie one below the other inside the picture.
    pub open spec fn wf(self) -> bool {
        &&& self.rows@.len() == self.cur@.len()
        &&& self.px@.len() == ATLAS_BYTES
        &&& rows_end(self.rows@) <= ATLAS_SZ
        &&& forall|i: int|
            #![trigger self.rows@[i]]
            0 <= i < self.rows@.len() ==> self.rows@[i].0 + self.rows@[i].1 <= rows_end(self.rows@)
        &&& forall|i: int, j: int|
            #![trigger self.rows@[i], self.rows@[j]]
            0 <= i < j < self.rows@.len() ==> self.rows@[i].0 + self.rows@[i].1 <= self.rows@[j].0
    }

    /// An empty picture.
    pub fn new() -> (out: Self)
        ensures
            out.wf(),
            out.rows@.len() == 0,
            !out.dirty,
            forall|i: int| 0 <= i < ATLAS_BYTES ==> out.px@[i] == 0,
            forall|x: int, y: int| !used(out, x, y),
    {
        let px: Vec<u8> = vec![0u8; ATLAS_BYTES];
        Atlas { rows: Vec::new(), cur: Vec::new(), px, dirty: false }
    }

    /// Hands out a part of the picture. A part that is wider than the picture is
    /// handed out too, in a row of its own.
    pub fn allocate(&mut self, w: u32, h: u32) -> (out: Option<(u32, u32)>)
        requires
            old(self).wf(),
            ends_fit(*old(self), w, h),
        ensures
            (*final(self)).wf(),
            out == place_for(*old(self), w, h),
            final(self).px == old(self).px,
            final(self).dirty == old(self).dirty,
            out is None ==> *final(self) == *old(self),
            out is Some ==> (final(self).rows@, final(self).cur@) == rows_after(*old(self), w, h),
            out matches Some(at) ==> at.1 + h <= ATLAS_SZ && (w <= ATLAS_SZ ==> at.0 + w <= ATLAS_SZ),
            out matches Some(at) ==> newly_used(*old(self), *final(self), at, w, h),
            forall|x: int, y: int| used(*old(self), x, y) ==> used(*final(self), x, y),
    {
        let ghost before = *self;
        let mut i: usize = 0;
        while i < self.rows.len()
            invariant
                i <= self.rows.len(),
                *self == before,
                before.wf(),
                ends_fit(before, w, h),
                first_fit(before, w, h, 0) == first_fit(before, w, h, i as int),
                before == *old(self),
            decreases self.rows.len() - i,
        {
            let row = self.rows[i];
            let x: u32 = self.cur[i];
            proof {
                lemma_first_fit(before, w, h, i as int);
                assert(before.rows@[i as int] == row);
            }
            if row.1 >= h && x + w <= ATLAS_SZ {
                self.cur[i] = x + w;
                proof {
                    let at = (x, row.0);
                    assert forall|px: int, py: int|
                        at.0 <= px < at.0 + w && at.1 <= py < at.1 + h implies !used(
                        before,
                        px,
                        py,
                    ) && used(*self, px, py) by {
                        assert(self.rows@[i as int] == row);
                        if used(before, px, py) {
                            let k = choose|k: int|
                                #![trigger before.rows@[k]]
                                0 <= k < before.rows@.len() && before.rows@[k].0 <= py
                                    < before.rows@[k].0 + before.rows@[k].1 && 0 <= px
                                    < before.cur@[k];
                            if k < i {
                                assert(before.rows@[k].0 + before.rows@[k].1
                                    <= before.rows@[i as int].0);
                            } else if k > i {
                                assert(before.rows@[i as int].0 + before.rows@[i as int].1
                                    <= before.rows@[k].0);
                            }
                        }
                    }
                    assert forall|px: int, py: int| used(before, px, py) implies used(
                        *self,
                        px,
                        py,
                    ) by {
                        let k = choose|k: int|
                            #![trigger before.rows@[k]]
                            0 <= k < before.rows@.len() && before.rows@[k].0 <= py
                                < before.rows@[k].0 + before.rows@[k].1 && 0 <= px
                                < before.cur@[k];
                        assert(self.rows@[k] == before.rows@[k]);
                    }
                }
                return Some((x, row.0));
            }
            i += 1;
        }
        let count: usize = self.rows.len();
        let y: u32 = if count == 0 {
            0
        } else {
            let last = self.rows[count - 1];
            last.0 + last.1
        };
        if y + h > ATLAS_SZ {
            return None;
        }
        self.rows.push((y, h));
        self.cur.push(w);
        proof {
            assert(y == rows_end(before.rows@));
            assert forall|px: int, py: int| used(before, px, py) implies used(*self, px, py) by {
                let k = choose|k: int|
                    #![trigger before.rows@[k]]
                    0 <= k < before.rows@.len() && before.rows@[k].0 <= py < before.rows@[k].0
                        + before.rows@[k].1 && 0 <= px < before.cur@[k];
                assert(self.rows@[k] == before.rows@[k]);
            }
            assert forall|px: int, py: int| 0 <= px < w && y <= py < y + h implies !used(
                before,
                px,
                py,
            ) && used(*self, px, py) by {
                assert(self.rows@[count as int] == (y, h));
            }
        }
        Some((0, y))
    }

    /// Writes the pixels of a part, row by row. A row for which there are too few
    /// bytes, or too little room to the end of the picture, is cut.
    pub fn write(&mut self, x: u32, y: u32, w: u32, h: u32, rgba: &Vec<u8>)
        requires
            old(self).wf(),
            h > 0 ==> {
                &&& 4 * w <= usize::MAX
                &&& (h - 1) * (4 * w) <= rgba@.len()
                &&& (y + h - 1) * 4096 + 4 * x <= ATLAS_BYTES
            },
        ensures
            (*final(self)).wf(),
            final(self).rows == old(self).rows,
            final(self).cur == old(self).cur,
            final(self).dirty,
            final(self).px@ == written(old(self).px@, x, y, w, rgba@, h as int),
    {
        self.dirty = true;
        let ghost before = old(self).px@;
        let size: usize = rgba.len();
        let mut r: u32 = 0;
        while r < h
            invariant
                r <= h,
                h > 0 ==> 4 * w <= usize::MAX && (h - 1) * (4 * w) <= size && (y + h - 1) * 4096 + 4
                    * x <= ATLAS_BYTES,
                size == rgba@.len(),
                self.px@.len() == ATLAS_BYTES,
                self.rows == old(self).rows,
                self.cur == old(self).cur,
                self.dirty,
                self.px@ == written(before, x, y, w, rgba@, r as int),
            decreases h - r,
        {
            let line: usize = w as usize * 4;
            proof {
                assert(r * line <= (h - 1) * line) by (nonlinear_arith)
                    requires
                        r <= h - 1,
                        line >= 0,
                ;
                assert(r * line >= 0) by (nonlinear_arith)
                    requires
                        r >= 0,
                        line >= 0,
                ;
            }
            let to: usize = (y as usize + r as usize) * ROW_BYTES + x as usize * 4;
            let from: usize = r as usize * line;
            let mut len: usize = line;
            if size - from < len {
                len = size - from;
            }
            if ATLAS_BYTES - to < len {
                len = ATLAS_BYTES - to;
            }
            let ghost row = self.px@;
            let mut k: usize = 0;
            while k < len
                invariant
                    k <= len,
                    to + len <= ATLAS_BYTES,
                    from + len <= size,
                    size == rgba@.len(),
                    self.px@.len() == ATLAS_BYTES,
                    row.len() == ATLAS_BYTES,
                    self.rows == old(self).rows,
                    self.cur == old(self).cur,
                    self.dirty,
                    self.px@ == copied(row, to as int, rgba@.subrange(from as int, from + k)),
                decreases len - k,
            {
                let ghost now = self.px@;
                self.px[to + k] = rgba[from + k];
                k += 1;
                assert(self.px@ =~= copied(
                    row,
                    to as int,
                    rgba@.subrange(from as int, from + k),
                ));
            }
            proof {
                assert(copied(row, to as int, rgba@.subrange(from as int, from + len)) =~= copied(
                    row,
                    to as int,
                    row_bytes(w, rgba@, r as int),
                ));
                assert(copied(row, to as int, rgba@.subrange(from as int, from + 0)) =~= row);
            }
            r += 1;
        }
    }
}

/// A part inside the picture is painted as it is, and nothing else changes.
pub proof fn law_parts_are_painted(
    px: Seq<u8>,
    x: u32,
    y: u32,
    w: u32,
    h: u32,
    rgba: Seq<u8>,
    rows: int,
    at: int,
)
    requires
        px.len() == ATLAS_BYTES,
        x + w <= ATLAS_SZ,
        y + h <= ATLAS_SZ,
        rgba.len() == h * (4 * w),
        0 <= rows <= h,
        0 <= at < ATLAS_BYTES,
    ensures
        written(px, x, y, w, rgba, rows).len() == ATLAS_BYTES,
        written(px, x, y, w, rgba, rows)[at] == painted(px, x, y, w, rgba, rows, at),
    decreases rows,
{
    if rows > 0 {
        let r = rows - 1;
        law_parts_are_painted(px, x, y, w, h, rgba, r, at);
        let line = 4 * w;
        let from = r * line;
        let to = (y + r) * 4096 + 4 * x;
        assert(from + line <= h * line) by (nonlinear_arith)
            requires
                from == r * line,
                r + 1 <= h,
                line >= 0,
        ;
        assert(0 <= from) by (nonlinear_arith)
            requires
                from == r * line,
                r >= 0,
                line >= 0,
        ;
        let row = at / 4096;
        let off = at % 4096;
        assert(at == row * 4096 + off);
        if to <= at < to + line {
            assert(row == y + r);
            assert(off - 4 * x == at - to);
            assert(row_bytes(w, rgba, r)[at - to] == rgba[from + (at - to)]);
        } else {
            assert(!(row == y + r && 4 * x <= off < 4 * x + 4 * w));
        }
    }
}

proof fn lemma_first_fit(a: Atlas, w: u32, h: u32, from: int)
    requires
        0 <= from <= a.rows@.len(),
    ensures
        from <= first_fit(a, w, h, from) <= a.rows@.len(),
        first_fit(a, w, h, from) < a.rows@.len() ==> row_fits(a, first_fit(a, w, h, from), w, h),
    decreases a.rows@.len() - from,
{
    if from < a.rows@.len() && !row_fits(a, from, w, h) {
        lemma_first_fit(a, w, h, from + 1);
    }
}

/// A part that is handed out has no point in common with what was handed out
/// before.
pub proof fn law_parts_do_not_overlap(a: Atlas, w: u32, h: u32, x: int, y: int)
    requires
        a.wf(),
        used(a, x, y),
        place_for(a, w, h) is Some,
    ensures
        ({
            let at = place_for(a, w, h)->0;
            !(at.0 <= x < at.0 + w && at.1 <= y < at.1 + h)
        }),
{
    lemma_first_fit(a, w, h, 0);
    let i = first_fit(a, w, h, 0);
    let k = choose|k: int|
        #![trigger a.rows@[k]]
        0 <= k < a.rows@.len() && a.rows@[k].0 <= y < a.rows@[k].0 + a.rows@[k].1 && 0 <= x
            < a.cur@[k];
    if i < a.rows@.len() {
        if k < i {
            assert(a.rows@[k].0 + a.rows@[k].1 <= a.rows@[i].0);
        } else if i < k {
            assert(a.rows@[i].0 + a.rows@[i].1 <= a.rows@[k].0);
        }
    }
}

// ── Colours ────────────────────────────────────────────────────

/// The bytes of a character in UTF-8.
pub open spec fn char_bytes(c: char) -> nat {
    let n = c as u32;
    if n < 0x80 {
        1
    } else if n < 0x800 {
        2
    } else if n < 0x10000 {
        3
    } else {
        4
    }
}

/// The bytes of a text in UTF-8.
pub open spec fn text_bytes(s: Seq<char>) -> nat
    decreases s.len(),
{
    if s.len() == 0 {
        0
    } else {
        char_bytes(s[0]) + text_bytes(s.skip(1))
    }
}

/// A text without `0x` at its start, however often.
pub open spec fn without_hex_mark(s: Seq<char>) -> Seq<char>
    decreases s.len(),
{
    if s.len() >= 2 && s[0] == '0' && s[1] == 'x' {
        without_hex_mark(s.skip(2))
    } else {
        s
    }
}

/// A text without `#` at its start.
pub open spec fn without_hash(s: Seq<char>) -> Seq<char>
    decreases s.len(),
{
    if s.len() > 0 && s[0] == '#' {
        without_hash(s.skip(1))
    } else {
        s
    }
}

/// The digits of a colour.
pub open spec fn colour_digits(s: Seq<char>) -> Seq<char> {
    without_hash(without_hex_mark(trim(s)))
}

/// The value of a hexadecimal digit.
pub open spec fn hex_value(c: char) -> Option<u8> {
    if '0' <= c <= '9' {
        Some((c as u32 - '0' as u32) as u8)
    } else if 'a' <= c <= 'f' {
        Some((c as u32 - 'a' as u32 + 10) as u8)
    } else if 'A' <= c <= 'F' {
        Some((c as u32 - 'A' as u32 + 10) as u8)
    } else {
        None
    }
}

/// One channel of a colour: two digits, or a digit behind a plus sign; 255 for
/// anything else.
pub open spec fn channel_value(a: char, b: char) -> u8 {
    match (hex_value(a), hex_value(b)) {
        (Some(x), Some(y)) => (x * 16 + y) as u8,
        (None, Some(y)) => if a == '+' {
            y
        } else {
            255
        },
        _ => 255,
    }
}

/// How many characters the next channel takes: two of one byte, or one of two
/// bytes; none where the next two bytes end inside a character.
pub open spec fn channel_chars(d: Seq<char>) -> int {
    if d.len() > 0 && char_bytes(d[0]) == 2 {
        1
    } else if d.len() > 1 && char_bytes(d[0]) == 1 && char_bytes(d[1]) == 1 {
        2
    } else {
        0
    }
}

/// The next channel.
pub open spec fn next_channel(d: Seq<char>) -> u8 {
    if channel_chars(d) == 2 {
        channel_value(d[0], d[1])
    } else {
        255
    }
}

/// What follows the next channel.
pub open spec fn after_channel(d: Seq<char>) -> Seq<char> {
    d.skip(channel_chars(d))
}

/// Whether three channels can be cut off: no character lies across their
/// bounds.
pub open spec fn channels_whole(d: Seq<char>) -> bool {
    &&& channel_chars(d) > 0
    &&& channel_chars(after_channel(d)) > 0
    &&& channel_chars(after_channel(after_channel(d))) > 0
}

/// The channels of a colour; white where there are too few digits.
pub open spec fn colour_channels(s: Seq<char>) -> (u8, u8, u8) {
    let d = colour_digits(s);
    if text_bytes(d) >= 6 {
        let e = after_channel(d);
        (next_channel(d), next_channel(e), next_channel(after_channel(e)))
    } else {
        (255, 255, 255)
    }
}

fn bytes_of(c: char) -> (out: u64)
    ensures
        out == char_bytes(c),
        1 <= out <= 4,
{
    let n: u32 = c as u32;
    if n < 0x80 {
        1
    } else if n < 0x800 {
        2
    } else if n < 0x10000 {
        3
    } else {
        4
    }
}

/// Whether six bytes are there at least.
fn six_bytes(chars: &Vec<char>, from: usize) -> (out: bool)
    requires
        from <= chars.len(),
    ensures
        out == (text_bytes(chars@.skip(from as int)) >= 6),
{
    let mut i: usize = from;
    let mut sum: u64 = 0;
    while i < chars.len() && sum < 6
        invariant
            from <= i <= chars.len(),
            sum < 10,
            text_bytes(chars@.skip(from as int)) == sum + text_bytes(chars@.skip(i as int)),
        decreases chars.len() - i,
    {
        assert(chars@.skip(i as int)[0] == chars@[i as int]);
        assert(chars@.skip(i as int).skip(1) =~= chars@.skip(i + 1));
        sum += bytes_of(chars[i]);
        i += 1;
    }
    sum >= 6
}

/// Reads the next channel and says where the one behind it begins.
fn read_channel(chars: &Vec<char>, from: usize) -> (out: (u8, usize))
    requires
        from <= chars.len(),
        channel_chars(chars@.skip(from as int)) > 0,
    ensures
        out.0 == next_channel(chars@.skip(from as int)),
        out.1 <= chars.len(),
        chars@.skip(out.1 as int) == after_channel(chars@.skip(from as int)),
{
    let ghost d = chars@.skip(from as int);
    let first = chars[from];
    assert(d[0] == first);
    if bytes_of(first) == 2 {
        assert(chars@.skip(from + 1) =~= after_channel(d));
        return (255, from + 1);
    }
    let second = chars[from + 1];
    assert(d[1] == second);
    assert(chars@.skip(from + 2) =~= after_channel(d));
    (channel_of(first, second), from + 2)
}

fn hex_of(c: char) -> (out: Option<u8>)
    ensures
        out == hex_value(c),
{
    if '0' <= c && c <= '9' {
        Some((c as u32 - '0' as u32) as u8)
    } else if 'a' <= c && c <= 'f' {
        Some((c as u32 - 'a' as u32 + 10) as u8)
    } else if 'A' <= c && c <= 'F' {
        Some((c as u32 - 'A' as u32 + 10) as u8)
    } else {
        None
    }
}

fn channel_of(a: char, b: char) -> (out: u8)
    ensures
        out == channel_value(a, b),
{
    match (hex_of(a), hex_of(b)) {
        (Some(x), Some(y)) => x * 16 + y,
        (None, Some(y)) => if a == '+' {
            y
        } else {
            255
        },
        _ => 255,
    }
}

/// Reads the channels of a colour from its digits.
pub fn parse(s: &str) -> (out: (u8, u8, u8))
    requires
        text_bytes(colour_digits(s@)) >= 6 ==> channels_whole(colour_digits(s@)),
    ensures
        out == colour_channels(s@),
{
    let text = trimmed(s);
    let chars = chars_of(text.as_str());
    let mut from: usize = 0;
    assert(chars@.skip(0) =~= chars@);
    while chars.len() - from > 1 && chars[from] == '0' && chars[from + 1] == 'x'
        invariant
            from <= chars.len(),
            chars@ == trim(s@),
            without_hex_mark(chars@) == without_hex_mark(chars@.skip(from as int)),
        decreases chars.len() - from,
    {
        assert(chars@.skip(from as int)[0] == chars@[from as int]);
        assert(chars@.skip(from as int)[1] == chars@[from + 1]);
        assert(chars@.skip(from as int).skip(2) =~= chars@.skip(from + 2));
        from += 2;
    }
    proof {
        if from + 1 < chars.len() {
            assert(chars@.skip(from as int)[0] == chars@[from as int]);
            assert(chars@.skip(from as int)[1] == chars@[from + 1]);
        }
    }
    let ghost marked = chars@.skip(from as int);
    assert(without_hex_mark(chars@) == marked);
    while from < chars.len() && chars[from] == '#'
        invariant
            from <= chars.len(),
            chars@ == trim(s@),
            without_hex_mark(chars@) == marked,
            without_hash(marked) == without_hash(chars@.skip(from as int)),
        decreases chars.len() - from,
    {
        assert(chars@.skip(from as int)[0] == chars@[from as int]);
        assert(chars@.skip(from as int).skip(1) =~= chars@.skip(from + 1));
        from += 1;
    }
    let ghost digits = chars@.skip(from as int);
    proof {
        if from < chars.len() {
            assert(digits[0] == chars@[from as int]);
        }
        assert(colour_digits(s@) == digits);
    }
    if !six_bytes(&chars, from) {
        return (255, 255, 255);
    }
    let (red, at_green) = read_channel(&chars, from);
    let (green, at_blue) = read_channel(&chars, at_green);
    let (blue, _end) = read_channel(&chars, at_blue);
    (red, green, blue)
}

/// A part gets the first row that is high enough and has room for it, behind what
/// the row holds; no row before it would do. Where none does, it opens a row below
/// all others, at the left. It is refused only where that row would go beyond the
/// picture.
pub proof fn law_parts_take_the_first_row(a: Atlas, w: u32, h: u32, i: int, j: int)
    requires
        a.wf(),
    ensures
        0 <= i < a.rows@.len() && a.rows@[i].1 >= h && a.cur@[i] + w <= 1024 && (forall|k: int|
            0 <= k < i ==> (#[trigger] a.rows@[k]).1 < h || a.cur@[k] + w > 1024) ==> place_for(
            a,
            w,
            h,
        ) == Some((a.cur@[i], a.rows@[i].0)) && rows_after(a, w, h).0 == a.rows@ && rows_after(
            a,
            w,
            h,
        ).1.len() == a.cur@.len() && rows_after(a, w, h).1[i] == a.cur@[i] + w && (0 <= j
            < a.cur@.len() && j != i ==> rows_after(a, w, h).1[j] == a.cur@[j]),
        (forall|k: int|
            0 <= k < a.rows@.len() ==> (#[trigger] a.rows@[k]).1 < h || a.cur@[k] + w > 1024) ==> {
            let end = rows_end(a.rows@);
            &&& place_for(a, w, h) is Some <==> end + h <= 1024
            &&& place_for(a, w, h) matches Some(at) ==> at.0 == 0 && at.1 == end && rows_after(
                a,
                w,
                h,
            ).0 == a.rows@.push((end as u32, h)) && rows_after(a, w, h).1 == a.cur@.push(w)
        },
        a.rows@.len() == 0 ==> rows_end(a.rows@) == 0,
        a.rows@.len() > 0 ==> rows_end(a.rows@) == a.rows@[a.rows@.len() - 1].0
            + a.rows@[a.rows@.len() - 1].1,
{
    let fit = first_fit(a, w, h, 0);
    lemma_first_row(a, w, h, 0);
    assert(row_fits(a, i, w, h) || !row_fits(a, i, w, h));
    if 0 <= i < a.rows@.len() && row_fits(a, i, w, h) && (forall|k: int|
        0 <= k < i ==> (#[trigger] a.rows@[k]).1 < h || a.cur@[k] + w > 1024) {
        if fit < i {
            assert(a.rows@[fit].1 < h || a.cur@[fit] + w > 1024);
        }
        if i < fit {
            assert(!row_fits(a, i, w, h));
        }
        assert(fit == i);
    }
    if (forall|k: int|
        0 <= k < a.rows@.len() ==> (#[trigger] a.rows@[k]).1 < h || a.cur@[k] + w > 1024) {
        if fit < a.rows@.len() {
            assert(a.rows@[fit].1 < h || a.cur@[fit] + w > 1024);
        }
    }
}

proof fn lemma_first_row(a: Atlas, w: u32, h: u32, from: int)
    requires
        0 <= from <= a.rows@.len(),
    ensures
        from <= first_fit(a, w, h, from) <= a.rows@.len(),
        first_fit(a, w, h, from) < a.rows@.len() ==> row_fits(a, first_fit(a, w, h, from), w, h),
        forall|k: int|
            from <= k < first_fit(a, w, h, from) ==> !(#[trigger] row_fits(a, k, w, h)),
    decreases a.rows@.len() - from,
{
    if from < a.rows@.len() && !row_fits(a, from, w, h) {
        lemma_first_row(a, w, h, from + 1);
    }
}

/// Pixel by pixel a part stands where it was put, row below row, and every other
/// byte of the picture stays.
pub proof fn law_parts_stand_where_they_were_put(
    px: Seq<u8>,
    x: u32,
    y: u32,
    w: u32,
    h: u32,
    rgba: Seq<u8>,
    column: int,
    row: int,
    channel: int,
)
    requires
        px.len() == ATLAS_BYTES,
        x + w <= 1024,
        y + h <= 1024,
        rgba.len() == h * (4 * w),
        0 <= column < 1024,
        0 <= row < 1024,
        0 <= channel < 4,
    ensures
        written(px, x, y, w, rgba, h as int).len() == px.len(),
        ({
            let at = (row * 1024 + column) * 4 + channel;
            let byte = written(px, x, y, w, rgba, h as int)[at];
            &&& x <= column < x + w && y <= row < y + h ==> byte == rgba[((row - y) * w + (column
                - x)) * 4 + channel]
            &&& !(x <= column < x + w && y <= row < y + h) ==> byte == px[at]
        }),
{
    let at = (row * 1024 + column) * 4 + channel;
    assert(at == row * 4096 + (column * 4 + channel));
    assert(at / 4096 == row && at % 4096 == column * 4 + channel) by (nonlinear_arith)
        requires
            at == row * 4096 + (column * 4 + channel),
            0 <= column < 1024,
            0 <= channel < 4,
            0 <= row,
    ;
    law_parts_are_painted(px, x, y, w, h, rgba, h as int, at);
    assert((row - y) * (4 * w) + (column * 4 + channel - 4 * x) == ((row - y) * w + (column - x))
        * 4 + channel) by (nonlinear_arith);
}

/// The digits of a colour stand behind any marks in front of them: first `0x`,
/// however often, then `#`, however often.
pub proof fn law_marks_stand_before_digits(s: Seq<char>)
    ensures
        without_hex_mark(seq!['0', 'x'] + s) == without_hex_mark(s),
        without_hash(seq!['#'] + s) == without_hash(s),
        s.len() < 2 || s[0] != '0' || s[1] != 'x' ==> without_hex_mark(s) == s,
        s.len() == 0 || s[0] != '#' ==> without_hash(s) == s,
        colour_digits(s) == without_hash(without_hex_mark(trim(s))),
{
    let marked = seq!['0', 'x'] + s;
    assert(marked.len() >= 2 && marked[0] == '0' && marked[1] == 'x');
    assert(marked.skip(2) =~= s);
    let hashed = seq!['#'] + s;
    assert(hashed.len() > 0 && hashed[0] == '#');
    assert(hashed.skip(1) =~= s);
}

/// Two digits make a channel, the first worth sixteen of the second; a plus sign
/// counts as no digit before one, and what is no number is 255.
pub proof fn law_digits_make_a_channel(a: char, b: char)
    ensures
        hex_value(a) matches Some(x) ==> x < 16 && (hex_value(b) matches Some(y) ==> channel_value(
            a,
            b,
        ) == x * 16 + y),
        hex_value(b) is None ==> channel_value(a, b) == 255,
        hex_value(a) is None && a != '+' ==> channel_value(a, b) == 255,
        a == '+' ==> (hex_value(b) matches Some(y) ==> channel_value(a, b) == y),
        hex_value('0') == Some(0u8) && hex_value('9') == Some(9u8),
        hex_value('a') == Some(10u8) && hex_value('f') == Some(15u8),
        hex_value('A') == Some(10u8) && hex_value('F') == Some(15u8),
        '0' <= a <= '9' ==> hex_value(a) is Some && hex_value(a)->0 as int == a as int - '0' as int,
        'a' <= a <= 'f' ==> hex_value(a) is Some && hex_value(a)->0 as int == a as int - 'a' as int
            + 10,
        'A' <= a <= 'F' ==> hex_value(a) is Some && hex_value(a)->0 as int == a as int - 'A' as int
            + 10,
        hex_value(a) is Some <==> '0' <= a <= '9' || 'a' <= a <= 'f' || 'A' <= a <= 'F',
{
}

/// A colour takes its three channels, red first, from the first six characters
/// where those are plain ones, and is white where its text is shorter than six
/// bytes.
pub proof fn law_colours_are_read_in_order(s: Seq<char>)
    ensures
        text_bytes(colour_digits(s)) < 6 ==> colour_channels(s) == (255u8, 255u8, 255u8),
        ({
            let d = colour_digits(s);
            d.len() >= 6 && (forall|k: int|
                0 <= k < 6 ==> (#[trigger] d[k]) < '\u{80}') ==> colour_channels(s) == (
                channel_value(d[0], d[1]),
                channel_value(d[2], d[3]),
                channel_value(d[4], d[5]),
            )
        }),
{
    let d = colour_digits(s);
    if d.len() >= 6 && (forall|k: int| 0 <= k < 6 ==> (#[trigger] d[k]) < '\u{80}') {
        assert(d[0] < '\u{80}' && d[1] < '\u{80}' && d[2] < '\u{80}');
        assert(d[3] < '\u{80}' && d[4] < '\u{80}' && d[5] < '\u{80}');
        law_texts_have_the_bytes_of_their_characters(d[0], d);
        law_texts_have_the_bytes_of_their_characters(d[1], d);
        law_texts_have_the_bytes_of_their_characters(d[2], d);
        law_texts_have_the_bytes_of_their_characters(d[3], d);
        law_texts_have_the_bytes_of_their_characters(d[4], d);
        law_texts_have_the_bytes_of_their_characters(d[5], d);
        let e = d.skip(2);
        assert(after_channel(d) =~= e);
        let f = e.skip(2);
        assert(after_channel(e) =~= f);
        lemma_bytes_are_more(d, 6);
    }
}

proof fn lemma_bytes_are_more(s: Seq<char>, n: nat)
    requires
        s.len() >= n,
    ensures
        text_bytes(s) >= n,
    decreases n,
{
    if n > 0 {
        lemma_bytes_are_more(s.skip(1), (n - 1) as nat);
    }
}

/// A character has one byte below U+0080, two below U+0800, three below U+10000 and
/// four from there on; a text has the bytes of its characters.
pub proof fn law_texts_have_the_bytes_of_their_characters(c: char, s: Seq<char>)
    ensures
        char_bytes(c) == 1 <==> c < '\u{80}',
        char_bytes(c) == 2 <==> '\u{80}' <= c < '\u{800}',
        char_bytes(c) == 3 <==> '\u{800}' <= c < '\u{10000}',
        char_bytes(c) == 4 <==> '\u{10000}' <= c,
        text_bytes(Seq::empty()) == 0,
        text_bytes(seq![c] + s) == char_bytes(c) + text_bytes(s),
{
    assert((seq![c] + s).skip(1) =~= s);
}

} // verus!
