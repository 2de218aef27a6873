//! DXT5 textures.
use crate::strs::{concat, copy_text, decimal_of, decimal_text};
use vstd::prelude::*;

verus! {

/// The number of groups of four that cover a length.
pub open spec fn quarters(n: u32) -> int {
    (n as int + 3) / 4
}

/// The opacity of an index: the two ends, and steps between them; where the
/// ends come in ascending order, nothing and everything are the last two.
pub open spec fn alpha_value(a0: u8, a1: u8, i: int) -> u8 {
    if i == 0 {
        a0
    } else if i == 1 {
        a1
    } else if a0 > a1 {
        (((8 - i) * a0 + (i - 1) * a1) / 7) as u8
    } else if i == 6 {
        0
    } else if i == 7 {
        255
    } else {
        (((6 - i) * a0 + (i - 1) * a1) / 5) as u8
    }
}

/// A channel of five bits, widened to eight.
pub open spec fn widen5(v: int) -> u8 {
    (v * 8 + v / 4) as u8
}

/// A channel of six bits, widened to eight.
pub open spec fn widen6(v: int) -> u8 {
    (v * 4 + v / 16) as u8
}

/// The channels of a colour of 16 bits.
pub open spec fn rgb565_of(value: u16) -> (u8, u8, u8) {
    (
        widen5(value as int / 2048),
        widen6((value as int / 32) % 64),
        widen5(value as int % 32),
    )
}

/// A channel of an index: the two ends, and thirds between them.
pub open spec fn colour_value(a: u8, b: u8, i: int) -> u8 {
    if i == 0 {
        a
    } else if i == 1 {
        b
    } else if i == 2 {
        ((2 * a + b) / 3) as u8
    } else {
        ((a + 2 * b) / 3) as u8
    }
}

/// Two bytes as a number, the low one first.
pub open spec fn word_at(data: Seq<u8>, at: int) -> u16 {
    (data[at] + data[at + 1] * 256) as u16
}

/// The opacity index of a pixel of a block: three bits each, the low ones
/// first.
pub open spec fn alpha_index(data: Seq<u8>, at: int, pixel: int) -> int {
    let bits = data[at + 2] + data[at + 3] * 0x100 + data[at + 4] * 0x1_0000 + data[at + 5]
        * 0x100_0000 + data[at + 6] * 0x1_0000_0000 + data[at + 7] * 0x100_0000_0000;
    (bits / eighth_power(pixel)) % 8
}

/// A power of eight.
pub open spec fn eighth_power(n: int) -> int
    decreases n,
{
    if n <= 0 {
        1
    } else {
        8 * eighth_power(n - 1)
    }
}

/// A power of four.
pub open spec fn fourth_power(n: int) -> int
    decreases n,
{
    if n <= 0 {
        1
    } else {
        4 * fourth_power(n - 1)
    }
}

/// The colour index of a pixel of a block: two bits each, a byte for each row.
pub open spec fn colour_index(data: Seq<u8>, at: int, pixel: int) -> int {
    (data[at + 12 + pixel / 4] as int / fourth_power(pixel % 4)) % 4
}

/// A pixel of the block that begins at `at`.
pub open spec fn block_pixel(data: Seq<u8>, at: int, pixel: int) -> Seq<u8> {
    let a = rgb565_of(word_at(data, at + 8));
    let b = rgb565_of(word_at(data, at + 10));
    let c = colour_index(data, at, pixel);
    seq![
        colour_value(a.0, b.0, c),
        colour_value(a.1, b.1, c),
        colour_value(a.2, b.2, c),
        alpha_value(data[at], data[at + 1], alpha_index(data, at, pixel)),
    ]
}

/// The pixel in column `x` and row `y` of a texture.
pub open spec fn texture_pixel(data: Seq<u8>, width: u32, x: int, y: int) -> Seq<u8> {
    let block = (y / 4) * quarters(width) + x / 4;
    block_pixel(data, block * 16, (y % 4) * 4 + x % 4)
}

fn alpha_palette(a0: u8, a1: u8, i: usize) -> (out: u8)
    requires
        i < 8,
    ensures
        out == alpha_value(a0, a1, i as int),
{
    if i == 0 {
        return a0;
    }
    if i == 1 {
        return a1;
    }
    let k: u32 = i as u32;
    if a0 > a1 {
        proof {
            assert((8 - k) * a0 <= 6 * 255) by (nonlinear_arith)
                requires
                    2 <= k < 8,
                    0 <= a0 <= 255,
            ;
            assert((k - 1) * a1 <= 6 * 255) by (nonlinear_arith)
                requires
                    2 <= k < 8,
                    0 <= a1 <= 255,
            ;
            assert((8 - k) * a0 + (k - 1) * a1 <= 7 * 255) by (nonlinear_arith)
                requires
                    2 <= k < 8,
                    0 <= a0 <= 255,
                    0 <= a1 <= 255,
            ;
            assert((8 - k) * a0 >= 0 && (k - 1) * a1 >= 0) by (nonlinear_arith)
                requires
                    2 <= k < 8,
                    0 <= a0 <= 255,
                    0 <= a1 <= 255,
            ;
        }
        (((8 - k) * a0 as u32 + (k - 1) * a1 as u32) / 7) as u8
    } else if i == 6 {
        0
    } else if i == 7 {
        255
    } else {
        proof {
            assert((6 - k) * a0 + (k - 1) * a1 <= 5 * 255) by (nonlinear_arith)
                requires
                    2 <= k < 6,
                    0 <= a0 <= 255,
                    0 <= a1 <= 255,
            ;
            assert((6 - k) * a0 >= 0 && (k - 1) * a1 >= 0) by (nonlinear_arith)
                requires
                    2 <= k < 6,
                    0 <= a0 <= 255,
                    0 <= a1 <= 255,
            ;
        }
        (((6 - k) * a0 as u32 + (k - 1) * a1 as u32) / 5) as u8
    }
}

fn rgb565(value: u16) -> (out: (u8, u8, u8))
    ensures
        out == rgb565_of(value),
{
    let red: u16 = value / 2048;
    let green: u16 = (value / 32) % 64;
    let blue: u16 = value % 32;
    (
        (red * 8 + red / 4) as u8,
        (green * 4 + green / 16) as u8,
        (blue * 8 + blue / 4) as u8,
    )
}

fn colour_channel(a: u8, b: u8, i: usize) -> (out: u8)
    requires
        i < 4,
    ensures
        out == colour_value(a, b, i as int),
{
    if i == 0 {
        a
    } else if i == 1 {
        b
    } else if i == 2 {
        ((2 * a as u16 + b as u16) / 3) as u8
    } else {
        ((a as u16 + 2 * b as u16) / 3) as u8
    }
}

fn power_of_eight(n: usize) -> (out: u64)
    requires
        n < 16,
    ensures
        out == eighth_power(n as int),
        out > 0,
{
    let mut out: u64 = 1;
    let mut i: usize = 0;
    while i < n
        invariant
            i <= n < 16,
            out == eighth_power(i as int),
            0 < out,
        decreases n - i,
    {
        proof {
            lemma_bound(i as int);
        }
        out = out * 8;
        i += 1;
    }
    out
}

proof fn lemma_bound(n: int)
    requires
        0 <= n < 15,
    ensures
        eighth_power(n + 1) <= 0x2000_0000_0000,
    decreases 15 - n,
{
    reveal_with_fuel(eighth_power, 17);
    if n < 14 {
        lemma_bound(n + 1);
    }
}

fn power_of_four(n: usize) -> (out: u32)
    requires
        n < 4,
    ensures
        out == fourth_power(n as int),
        out > 0,
{
    proof {
        reveal_with_fuel(fourth_power, 5);
    }
    if n == 0 {
        1
    } else if n == 1 {
        4
    } else if n == 2 {
        16
    } else {
        64
    }
}

/// Decodes a pixel of the block that begins at `at`.
fn decode_pixel(data: &[u8], at: usize, pixel: usize) -> (out: (u8, u8, u8, u8))
    requires
        at + 16 <= data@.len(),
        pixel < 16,
    ensures
        seq![out.0, out.1, out.2, out.3] == block_pixel(data@, at as int, pixel as int),
{
    let size: usize = data.len();
    assert(at + 16 <= size);
    let bits: u64 = data[at + 2] as u64 + data[at + 3] as u64 * 0x100 + data[at + 4] as u64
        * 0x1_0000 + data[at + 5] as u64 * 0x100_0000 + data[at + 6] as u64 * 0x1_0000_0000
        + data[at + 7] as u64 * 0x100_0000_0000;
    let power: u64 = power_of_eight(pixel);
    let alpha: usize = ((bits / power) % 8) as usize;
    let row: u32 = data[at + 12 + pixel / 4] as u32;
    let colour: usize = ((row / power_of_four(pixel % 4)) % 4) as usize;
    let first: u16 = data[at + 8] as u16 + data[at + 9] as u16 * 256;
    let second: u16 = data[at + 10] as u16 + data[at + 11] as u16 * 256;
    let a = rgb565(first);
    let b = rgb565(second);
    (
        colour_channel(a.0, b.0, colour),
        colour_channel(a.1, b.1, colour),
        colour_channel(a.2, b.2, colour),
        alpha_palette(data[at], data[at + 1], alpha),
    )
}

/// What stands against data of a size, if anything.
pub open spec fn dxt5_fault(len: nat, width: u32, height: u32) -> Option<Seq<char>> {
    let expected = quarters(width) * quarters(height) * 16;
    if expected > usize::MAX {
        Some("DXT5 texture size overflow"@)
    } else if len != expected {
        Some(
            "DXT5 data has "@ + decimal_text(len) + " bytes, expected "@ + decimal_text(
                expected as nat,
            ),
        )
    } else if width * height > usize::MAX {
        Some("RGBA texture size overflow"@)
    } else {
        None
    }
}

/// Whether bytes are the pixels of a texture, row by row.
pub open spec fn is_decoded(rgba: Seq<u8>, data: Seq<u8>, width: u32, height: u32) -> bool {
    &&& rgba.len() == width * height * 4
    &&& forall|k: int|
        0 <= k < width * height ==> #[trigger] rgba.subrange(4 * k, 4 * k + 4) == texture_pixel(
            data,
            width,
            k % (width as int),
            k / (width as int),
        )
}

fn four_parts(n: u32) -> (out: usize)
    ensures
        out == quarters(n),
        out <= 0x4000_0000,
{
    let whole: u32 = n / 4;
    if n % 4 == 0 {
        whole as usize
    } else {
        (whole + 1) as usize
    }
}

proof fn lemma_block_in_range(k: int, width: int, height: int, bx: int, by: int)
    requires
        0 <= k < width * height,
        width > 0,
        bx == (width + 3) / 4,
        by == (height + 3) / 4,
    ensures
        0 <= k / width < height,
        0 <= k % width < width,
        0 <= ((k / width) / 4) * bx + (k % width) / 4 < bx * by,
{
    assert(0 <= k / width < height) by (nonlinear_arith)
        requires
            0 <= k < width * height,
            width > 0,
    ;
    assert(0 <= k % width < width) by (nonlinear_arith)
        requires
            width > 0,
    ;
    let y = k / width;
    let x = k % width;
    assert(y / 4 <= by - 1);
    assert(x / 4 <= bx - 1);
    assert((y / 4) * bx <= (by - 1) * bx) by (nonlinear_arith)
        requires
            y / 4 <= by - 1,
            bx >= 0,
    ;
    assert((by - 1) * bx == bx * by - bx) by (nonlinear_arith);
    assert((y / 4) * bx >= 0) by (nonlinear_arith)
        requires
            y / 4 >= 0,
            bx >= 0,
    ;
}

/// Decodes a texture into RGBA pixels.
pub fn decode_dxt5_rgba8(data: &[u8], width: u32, height: u32) -> (out: Result<Vec<u8>, String>)
    requires
        dxt5_fault(data@.len(), width, height) is None ==> width * height * 4 <= usize::MAX,
    ensures
        match out {
            Ok(rgba) => dxt5_fault(data@.len(), width, height) is None && is_decoded(
                rgba@,
                data@,
                width,
                height,
            ),
            Err(message) => dxt5_fault(data@.len(), width, height) == Some(message@),
        },
{
    let bx: usize = four_parts(width);
    let by: usize = four_parts(height);
    assert(bx * by >= 0) by (nonlinear_arith)
        requires
            bx >= 0,
            by >= 0,
    ;
    let blocks: usize = match bx.checked_mul(by) {
        Some(n) => n,
        None => return Err(copy_text("DXT5 texture size overflow")),
    };
    let expected: usize = match blocks.checked_mul(16) {
        Some(n) => n,
        None => return Err(copy_text("DXT5 texture size overflow")),
    };
    if data.len() != expected {
        let mut message = concat("DXT5 data has ", decimal_of(data.len() as u64).as_str());
        message.append(" bytes, expected ");
        message.append(decimal_of(expected as u64).as_str());
        return Err(message);
    }
    assert(width * height >= 0) by (nonlinear_arith)
        requires
            width >= 0,
            height >= 0,
    ;
    let count: usize = match (width as usize).checked_mul(height as usize) {
        Some(n) => n,
        None => return Err(copy_text("RGBA texture size overflow")),
    };
    let w: usize = width as usize;
    let mut rgba: Vec<u8> = Vec::new();
    let mut k: usize = 0;
    while k < count
        invariant
            k <= count,
            count == width * height,
            count * 4 <= usize::MAX,
            w == width,
            bx == quarters(width),
            by == quarters(height),
            blocks == bx * by,
            data@.len() == blocks * 16,
            data@.len() <= usize::MAX,
            rgba@.len() == 4 * k,
            forall|j: int|
                0 <= j < k ==> #[trigger] rgba@.subrange(4 * j, 4 * j + 4) == texture_pixel(
                    data@,
                    width,
                    j % (width as int),
                    j / (width as int),
                ),
        decreases count - k,
    {
        proof {
            if w == 0 {
                assert(width * height == 0) by (nonlinear_arith)
                    requires
                        width == 0,
                ;
            }
            lemma_block_in_range(k as int, w as int, height as int, bx as int, by as int);
        }
        let x: usize = k % w;
        let y: usize = k / w;
        let ghost block = ((k as int / w as int) / 4) * bx + (k as int % w as int) / 4;
        proof {
            assert((y / 4) * bx >= 0) by (nonlinear_arith)
                requires
                    y >= 0,
                    bx >= 0,
            ;
        }
        let at: usize = ((y / 4) * bx + x / 4) * 16;
        let pixel = decode_pixel(data, at, (y % 4) * 4 + x % 4);
        let ghost before = rgba@;
        rgba.push(pixel.0);
        rgba.push(pixel.1);
        rgba.push(pixel.2);
        rgba.push(pixel.3);
        proof {
            let four = seq![pixel.0, pixel.1, pixel.2, pixel.3];
            assert(rgba@ =~= before + four);
            assert forall|j: int| 0 <= j < k + 1 implies #[trigger] rgba@.subrange(
                4 * j,
                4 * j + 4,
            ) == texture_pixel(data@, width, j % (width as int), j / (width as int)) by {
                if j < k {
                    assert(rgba@.subrange(4 * j, 4 * j + 4) =~= before.subrange(
                        4 * j,
                        4 * j + 4,
                    ));
                } else {
                    assert(rgba@.subrange(4 * j, 4 * j + 4) =~= four);
                }
            }
        }
        k += 1;
    }
    Ok(rgba)
}

// ── What a decoded texture holds ───────────────────────────────

/// The number that digits of base eight stand for, the low ones first.
pub open spec fn octal_number(digits: Seq<int>) -> int
    decreases digits.len(),
{
    if digits.len() == 0 {
        0
    } else {
        digits[0] + 8 * octal_number(digits.skip(1))
    }
}

proof fn lemma_octal_digit(digits: Seq<int>, p: int)
    requires
        0 <= p < digits.len(),
        forall|k: int| 0 <= k < digits.len() ==> 0 <= #[trigger] digits[k] < 8,
    ensures
        (octal_number(digits) / eighth_power(p)) % 8 == digits[p],
        eighth_power(p) > 0,
        octal_number(digits) >= 0,
    decreases digits.len(),
{
    let rest = digits.skip(1);
    assert forall|k: int| 0 <= k < rest.len() implies 0 <= #[trigger] rest[k] < 8 by {
        assert(rest[k] == digits[k + 1]);
    }
    if p == 0 && rest.len() > 0 {
        lemma_octal_digit(rest, 0);
    }
    if p > 0 {
        lemma_octal_digit(rest, p - 1);
        assert(octal_number(digits) / 8 == octal_number(rest));
        vstd::arithmetic::div_mod::lemma_div_denominator(
            octal_number(digits),
            8,
            eighth_power(p - 1),
        );
        assert(rest[p - 1] == digits[p]);
    }
}

/// The byte at which the block in column `bx` and row `by` of blocks begins.
pub open spec fn block_start(width: u32, bx: int, by: int) -> int {
    (by * ((width + 3) / 4) + bx) * 16
}

/// The place of a pixel among the decoded bytes: rows from the top, pixels from
/// the left, four bytes each.
pub open spec fn pixel_start(width: u32, x: int, y: int) -> int {
    (y * width + x) * 4
}

proof fn lemma_block_of_pixel(
    rgba: Seq<u8>,
    data: Seq<u8>,
    width: u32,
    height: u32,
    bx: int,
    by: int,
    r: int,
    c: int,
)
    requires
        is_decoded(rgba, data, width, height),
        0 <= bx,
        0 <= by,
        0 <= r < 4,
        0 <= c < 4,
        4 * bx + c < width,
        4 * by + r < height,
    ensures
        ({
            let p = pixel_start(width, 4 * bx + c, 4 * by + r);
            &&& 0 <= p
            &&& p + 4 <= rgba.len()
            &&& seq![rgba[p], rgba[p + 1], rgba[p + 2], rgba[p + 3]] == block_pixel(
                data,
                block_start(width, bx, by),
                4 * r + c,
            )
        }),
{
    let w = width as int;
    let x = 4 * bx + c;
    let y = 4 * by + r;
    let k = y * w + x;
    assert(0 <= k < w * height) by (nonlinear_arith)
        requires
            k == y * w + x,
            0 <= x < w,
            0 <= y < height,
    ;
    vstd::arithmetic::div_mod::lemma_fundamental_div_mod_converse(k, w, y, x);
    assert(k / w == y && k % w == x);
    assert(y / 4 == by && y % 4 == r && x / 4 == bx && x % 4 == c);
    let part = rgba.subrange(4 * k, 4 * k + 4);
    assert(part == texture_pixel(data, width, x, y));
    assert(rgba.len() == w * height * 4);
    assert(seq![rgba[4 * k], rgba[4 * k + 1], rgba[4 * k + 2], rgba[4 * k + 3]] =~= part);
}

/// The indices of a block's pixels read back where the pixels stand: a block whose
/// bits of opacity are the digits `alphas`, and whose row `r` of colour bits holds
/// `i` in the place `c`, has in its row `r` and column `c` the opacity of index
/// `alphas[4 * r + c]` and the colour of index `i`.
pub proof fn law_block_indices_read_back(
    rgba: Seq<u8>,
    data: Seq<u8>,
    width: u32,
    height: u32,
    bx: int,
    by: int,
    r: int,
    c: int,
    alphas: Seq<int>,
    i: int,
)
    requires
        is_decoded(rgba, data, width, height),
        0 <= bx,
        0 <= by,
        0 <= r < 4,
        0 <= c < 4,
        4 * bx + c < width,
        4 * by + r < height,
        alphas.len() == 16,
        forall|k: int| 0 <= k < 16 ==> 0 <= #[trigger] alphas[k] < 8,
        ({
            let at = block_start(width, bx, by);
            data[at + 2] + 256 * (data[at + 3] + 256 * (data[at + 4] + 256 * (data[at + 5] + 256
                * (data[at + 6] + 256 * data[at + 7])))) == octal_number(alphas)
        }),
        ({
            let row = data[block_start(width, bx, by) + 12 + r];
            i == (if c == 0 {
                row % 4
            } else if c == 1 {
                (row / 4) % 4
            } else if c == 2 {
                (row / 16) % 4
            } else {
                row / 64
            })
        }),
    ensures
        ({
            let at = block_start(width, bx, by);
            let p = pixel_start(width, 4 * bx + c, 4 * by + r);
            &&& rgba[p + 3] == alpha_value(data[at], data[at + 1], alphas[4 * r + c])
            &&& rgba[p] == colour_value(
                rgb565_of(word_at(data, at + 8)).0,
                rgb565_of(word_at(data, at + 10)).0,
                i,
            )
            &&& rgba[p + 1] == colour_value(
                rgb565_of(word_at(data, at + 8)).1,
                rgb565_of(word_at(data, at + 10)).1,
                i,
            )
            &&& rgba[p + 2] == colour_value(
                rgb565_of(word_at(data, at + 8)).2,
                rgb565_of(word_at(data, at + 10)).2,
                i,
            )
        }),
{
    let at = block_start(width, bx, by);
    let pixel = 4 * r + c;
    lemma_block_of_pixel(rgba, data, width, height, bx, by, r, c);
    lemma_octal_digit(alphas, pixel);
    assert(alpha_index(data, at, pixel) == alphas[pixel]);
    reveal_with_fuel(fourth_power, 5);
    assert(pixel / 4 == r && pixel % 4 == c);
    assert(colour_index(data, at, pixel) == i);
    let p = pixel_start(width, 4 * bx + c, 4 * by + r);
    let four = seq![rgba[p], rgba[p + 1], rgba[p + 2], rgba[p + 3]];
    assert(four[0] == rgba[p] && four[1] == rgba[p + 1] && four[2] == rgba[p + 2] && four[3]
        == rgba[p + 3]);
}

/// The first two opacities are the block's own. The others stand between them, a
/// seventh apart where the first is the greater one; else a fifth apart, and the
/// last two are nothing and everything. Fractions are dropped.
pub proof fn law_opacities_lie_between(a0: u8, a1: u8, i: int)
    requires
        0 <= i < 8,
    ensures
        ({
            let v = alpha_value(a0, a1, i);
            &&& i == 0 ==> v == a0
            &&& i == 1 ==> v == a1
            &&& a0 > a1 && i >= 2 ==> 7 * v <= (8 - i) * a0 + (i - 1) * a1 < 7 * v + 7
            &&& a0 <= a1 && 2 <= i < 6 ==> 5 * v <= (6 - i) * a0 + (i - 1) * a1 < 5 * v + 5
            &&& a0 <= a1 && i == 6 ==> v == 0
            &&& a0 <= a1 && i == 7 ==> v == 255
        }),
{
    if i >= 2 && a0 > a1 {
        let n = (8 - i) * a0 + (i - 1) * a1;
        assert(0 <= n <= 7 * 255) by (nonlinear_arith)
            requires
                n == (8 - i) * a0 + (i - 1) * a1,
                2 <= i < 8,
                0 <= a0 <= 255,
                0 <= a1 <= 255,
        ;
    } else if i >= 2 && i < 6 {
        let n = (6 - i) * a0 + (i - 1) * a1;
        assert(0 <= n <= 5 * 255) by (nonlinear_arith)
            requires
                n == (6 - i) * a0 + (i - 1) * a1,
                2 <= i < 6,
                0 <= a0 <= 255,
                0 <= a1 <= 255,
        ;
    }
}

/// The first two colours are the block's own, and the others stand a third of the
/// way from one to the other; the third index is nearer to the first colour.
/// Fractions are dropped.
pub proof fn law_colours_lie_between(a: u8, b: u8, i: int)
    requires
        0 <= i < 4,
    ensures
        ({
            let v = colour_value(a, b, i);
            &&& i == 0 ==> v == a
            &&& i == 1 ==> v == b
            &&& i == 2 ==> 3 * v <= 2 * a + b < 3 * v + 3
            &&& i == 3 ==> 3 * v <= a + 2 * b < 3 * v + 3
        }),
{
}

/// A colour of 16 bits, the low byte first, holds five bits of red, six of green
/// and five of blue. Each is widened to eight by repeating its high bits, so that
/// nothing stays nothing and everything becomes everything.
pub proof fn law_colours_are_widened(data: Seq<u8>, at: int, red: int, green: int, blue: int)
    requires
        0 <= red < 32,
        0 <= green < 64,
        0 <= blue < 32,
        data[at] + 256 * data[at + 1] == red * 2048 + green * 32 + blue,
    ensures
        ({
            let (r, g, b) = rgb565_of(word_at(data, at));
            &&& r == red * 8 + red / 4
            &&& g == green * 4 + green / 16
            &&& b == blue * 8 + blue / 4
            &&& red == 0 ==> r == 0
            &&& red == 31 ==> r == 255
            &&& green == 0 ==> g == 0
            &&& green == 63 ==> g == 255
            &&& blue == 0 ==> b == 0
            &&& blue == 31 ==> b == 255
        }),
{
    let word = word_at(data, at) as int;
    assert(word == (red * 64 + green) * 32 + blue);
    assert(word / 32 == red * 64 + green);
    assert(word % 32 == blue);
    assert((word / 32) % 64 == green);
    assert(word / 2048 == red);
    assert(rgb565_of(word_at(data, at)) == (widen5(red), widen6(green), widen5(blue)));
}

/// A texture can be decoded exactly where its data holds 16 bytes for each block
/// of four times four pixels that its sides take up, a part of a block counting
/// as a whole one, and the sizes can be counted.
pub proof fn law_texture_data_has_its_size(len: nat, width: u32, height: u32)
    requires
        len <= usize::MAX,
    ensures
        dxt5_fault(len, width, height) is None <==> (len == ((width + 3) / 4) * ((height + 3) / 4)
            * 16 && width * height <= usize::MAX),
        ((width + 3) / 4) * ((height + 3) / 4) * 16 > usize::MAX ==> dxt5_fault(
            len,
            width,
            height,
        ) == Some("DXT5 texture size overflow"@),
        ((width + 3) / 4) * ((height + 3) / 4) * 16 <= usize::MAX && len != ((width + 3) / 4) * ((
        height + 3) / 4) * 16 ==> dxt5_fault(len, width, height) == Some(
            "DXT5 data has "@ + decimal_text(len) + " bytes, expected "@ + decimal_text(
                (((width + 3) / 4) * ((height + 3) / 4) * 16) as nat,
            ),
        ),
        len == ((width + 3) / 4) * ((height + 3) / 4) * 16 && width * height > usize::MAX
            ==> dxt5_fault(len, width, height) == Some("RGBA texture size overflow"@),
{
}

/// A decoded texture has four bytes for each pixel, and pixels that lie in the
/// same place of equal blocks are equal.
pub proof fn law_equal_blocks_look_equal(
    rgba: Seq<u8>,
    data: Seq<u8>,
    width: u32,
    height: u32,
    ax: int,
    ay: int,
    bx: int,
    by: int,
    r: int,
    c: int,
)
    requires
        is_decoded(rgba, data, width, height),
        0 <= ax,
        0 <= ay,
        0 <= bx,
        0 <= by,
        0 <= r < 4,
        0 <= c < 4,
        4 * ax + c < width,
        4 * ay + r < height,
        4 * bx + c < width,
        4 * by + r < height,
        forall|k: int|
            0 <= k < 16 ==> data[block_start(width, ax, ay) + k] == #[trigger] data[block_start(
                width,
                bx,
                by,
            ) + k],
    ensures
        rgba.len() == width * height * 4,
        forall|k: int|
            0 <= k < 4 ==> rgba[pixel_start(width, 4 * ax + c, 4 * ay + r) + k]
                == #[trigger] rgba[pixel_start(width, 4 * bx + c, 4 * by + r) + k],
{
    let a = block_start(width, ax, ay);
    let b = block_start(width, bx, by);
    let p = pixel_start(width, 4 * ax + c, 4 * ay + r);
    let q = pixel_start(width, 4 * bx + c, 4 * by + r);
    lemma_block_of_pixel(rgba, data, width, height, ax, ay, r, c);
    lemma_block_of_pixel(rgba, data, width, height, bx, by, r, c);
    assert(data[a] == data[b + 0] && data[a + 1] == data[b + 1] && data[a + 2] == data[b + 2]);
    assert(data[a + 3] == data[b + 3] && data[a + 4] == data[b + 4] && data[a + 5] == data[b + 5]);
    assert(data[a + 6] == data[b + 6] && data[a + 7] == data[b + 7] && data[a + 8] == data[b + 8]);
    assert(data[a + 9] == data[b + 9] && data[a + 10] == data[b + 10] && data[a + 11] == data[b
        + 11]);
    let row = (4 * r + c) / 4;
    assert(0 <= row < 4);
    assert(data[a + (12 + row)] == data[b + (12 + row)]);
    assert(block_pixel(data, a, 4 * r + c) == block_pixel(data, b, 4 * r + c));
    let four = seq![rgba[p], rgba[p + 1], rgba[p + 2], rgba[p + 3]];
    let same = seq![rgba[q], rgba[q + 1], rgba[q + 2], rgba[q + 3]];
    assert(four == same);
    assert(four[0] == same[0] && four[1] == same[1] && four[2] == same[2] && four[3] == same[3]);
    assert forall|k: int| 0 <= k < 4 implies rgba[p + k] == #[trigger] rgba[q + k] by {
        assert(k == 0 || k == 1 || k == 2 || k == 3);
    }
}

} // verus!
