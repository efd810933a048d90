//! What the diagnostics say of a frame: how bright it is and its mean colour, and the
//! pattern a surface of ours is filled with when it stands in for the guest.
use vstd::prelude::*;

verus! {

/// A byte brighter than this counts as lit.
pub const BRIGHT: u8 = 40;

/// How many of the first `k` pixels (every fourth byte, from the first) are lit.
pub open spec fn bright_upto(p: Seq<u8>, k: int) -> int
    decreases k,
{
    if k <= 0 {
        0
    } else {
        bright_upto(p, k - 1) + if p[(k - 1) * 4] > BRIGHT {
            1int
        } else {
            0
        }
    }
}

/// How many pixels of a frame are lit, reading the first byte of every four, the last
/// partial pixel included.
pub fn bright_count(pixels: &[u8]) -> (r: usize)
    ensures
        r == bright_upto(pixels@, (pixels@.len() + 3) as int / 4),
{
    let n = pixels.len();
    let chunks = n / 4 + if n % 4 == 0 {
        0
    } else {
        1
    };
    let mut count: usize = 0;
    let mut k: usize = 0;
    while k < chunks
        invariant
            n == pixels@.len(),
            chunks == (n + 3) / 4,
            k <= chunks,
            count == bright_upto(pixels@, k as int),
            count <= k,
        decreases chunks - k,
    {
        if pixels[k * 4] > BRIGHT {
            count = count + 1;
        }
        k = k + 1;
    }
    count
}

/// The sum of channel `c` over the first `k` whole pixels.
pub open spec fn channel_sum(p: Seq<u8>, c: int, k: int) -> int
    decreases k,
{
    if k <= 0 {
        0
    } else {
        channel_sum(p, c, k - 1) + p[(k - 1) * 4 + c]
    }
}

proof fn lemma_channel_sum_bound(p: Seq<u8>, c: int, k: int)
    requires
        0 <= c < 4,
        0 <= k,
        k * 4 <= p.len(),
    ensures
        0 <= channel_sum(p, c, k) <= 255 * k,
    decreases k,
{
    if k > 0 {
        lemma_channel_sum_bound(p, c, k - 1);
    }
}

/// The mean red, green and blue of a frame's whole pixels, as whole numbers.
pub open spec fn spec_mean_rgb(p: Seq<u8>) -> (int, int, int) {
    let n = p.len() as int / 4;
    let count: int = if n > 0 {
        n
    } else {
        1
    };
    (channel_sum(p, 0, n) / count, channel_sum(p, 1, n) / count, channel_sum(p, 2, n) / count)
}

pub fn mean_rgb(pixels: &[u8]) -> (r: (u64, u64, u64))
    requires
        (pixels@.len() / 4) * 255 <= u64::MAX,
    ensures
        (r.0 as int, r.1 as int, r.2 as int) == spec_mean_rgb(pixels@),
{
    let n = pixels.len() / 4;
    let mut red: u64 = 0;
    let mut green: u64 = 0;
    let mut blue: u64 = 0;
    let mut k: usize = 0;
    while k < n
        invariant
            n == pixels@.len() / 4,
            pixels@.len() == pixels.len(),
            n * 255 <= u64::MAX,
            k <= n,
            red == channel_sum(pixels@, 0, k as int),
            green == channel_sum(pixels@, 1, k as int),
            blue == channel_sum(pixels@, 2, k as int),
        decreases n - k,
    {
        proof {
            lemma_channel_sum_bound(pixels@, 0, k as int);
            lemma_channel_sum_bound(pixels@, 1, k as int);
            lemma_channel_sum_bound(pixels@, 2, k as int);
        }
        red = red + pixels[k * 4] as u64;
        green = green + pixels[k * 4 + 1] as u64;
        blue = blue + pixels[k * 4 + 2] as u64;
        k = k + 1;
    }
    let count: u64 = if n > 0 {
        n as u64
    } else {
        1
    };
    (red / count, green / count, blue / count)
}

/// How wide a square of the stand-in pattern is.
pub const PATTERN_CELL: u32 = 32;

/// How wide the marker stripe at the pattern's left edge is.
pub const PATTERN_MARKER: u32 = 48;

pub const DARK: u8 = 0x28;

pub const LIGHT: u8 = 0x50;

/// Channel `c` of the pattern's pixel `x` in a row of `parity` (0 or 1): the marker's colour
/// at the left edge, then squares that alternate dark and light, offset by one on odd rows
/// of squares.  The bytes are in the surface's blue, green, red, alpha order.
pub open spec fn pattern_channel(x: int, parity: int, c: int) -> u8 {
    if x < PATTERN_MARKER {
        if c < 2 {
            0x30
        } else {
            0xff
        }
    } else if c == 3 {
        0xff
    } else if (x / PATTERN_CELL as int + parity) % 2 == 0 {
        DARK
    } else {
        LIGHT
    }
}

/// Which of the two rows of the pattern row `y` of a surface is.
pub fn pattern_parity(y: u32) -> (r: u32)
    ensures
        r == (y / PATTERN_CELL) % 2,
{
    (y / PATTERN_CELL) % 2
}

/// One row of the pattern, `width` pixels wide.
pub fn pattern_row(width: u32, parity: u32) -> (r: Vec<u8>)
    requires
        parity < 2,
    ensures
        r@.len() == width * 4,
        forall|x: int, c: int|
            0 <= x < width && 0 <= c < 4 ==> #[trigger] r@[x * 4 + c] == pattern_channel(
                x,
                parity as int,
                c,
            ),
{
    let mut row: Vec<u8> = Vec::new();
    let mut x: u32 = 0;
    while x < width
        invariant
            x <= width,
            parity < 2,
            row@.len() == x * 4,
            forall|xx: int, c: int|
                0 <= xx < x && 0 <= c < 4 ==> #[trigger] row@[xx * 4 + c] == pattern_channel(
                    xx,
                    parity as int,
                    c,
                ),
        decreases width - x,
    {
        if x < PATTERN_MARKER {
            row.push(0x30);
            row.push(0x30);
            row.push(0xff);
            row.push(0xff);
        } else if (x / PATTERN_CELL + parity) % 2 == 0 {
            row.push(DARK);
            row.push(DARK);
            row.push(DARK);
            row.push(0xff);
        } else {
            row.push(LIGHT);
            row.push(LIGHT);
            row.push(LIGHT);
            row.push(0xff);
        }
        x = x + 1;
    }
    row
}

} // verus!
