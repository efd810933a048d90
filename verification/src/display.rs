//! The frames the guest's console sends over its display socket: a whole scanout, or a patch
//! of the one the window already has, turned into the RGBA pixels the window draws.
use vstd::prelude::*;

verus! {

/// The console's 32-bit formats whose bytes are turned from blue, green, red into red,
/// green, blue: pixman's `x8r8g8b8`, which a little-endian console stores blue first and reads
/// a frame back as, and the two formats with the blue, green, red order in their code.
pub const X8R8G8B8: u32 = 0x20020888;

pub const BGRX: u32 = 0x20088880;

pub const BGRA: u32 = 0x20088888;

pub open spec fn is_bgr(format: u32) -> bool {
    format == X8R8G8B8 || format == BGRX || format == BGRA
}

/// Where channel `c` of the pixel at `x`, `y` stands in an RGBA frame `w` pixels wide.
pub open spec fn pixel_index(w: int, x: int, y: int, c: int) -> int {
    (y * w + x) * 4 + c
}

/// Channel `c` of the pixel at `x`, `y`, read from the console's rows of `stride` bytes: the
/// colour in red, green, blue order and an opaque alpha, or nothing (zero) for a pixel past
/// the end of what the console sent.
pub open spec fn rgba_channel(stride: u32, format: u32, data: Seq<u8>, x: int, y: int, c: int) -> u8 {
    let s = y * stride + x * 4;
    if s + 4 > data.len() {
        0
    } else if c == 3 {
        255
    } else if is_bgr(format) {
        data[s + 2 - c]
    } else {
        data[s + c]
    }
}

/// `out` is the console's frame of `width` by `height` pixels, as RGBA.
pub open spec fn is_rgba_of(
    out: Seq<u8>,
    width: u32,
    height: u32,
    stride: u32,
    format: u32,
    data: Seq<u8>,
) -> bool {
    &&& out.len() == width * height * 4
    &&& forall|x: int, y: int, c: int|
        0 <= x < width && 0 <= y < height && 0 <= c < 4 ==> out[pixel_index(width as int, x, y, c)]
            == #[trigger] rgba_channel(stride, format, data, x, y, c)
}

/// The frame fits in memory and its rows can be addressed.
pub open spec fn frame_fits(width: u32, height: u32, stride: u32) -> bool {
    &&& width * height * 4 <= usize::MAX
    &&& height * stride + width * 4 + 4 <= usize::MAX
}

/// Whether a frame of this shape can be converted at all: what a caller tests first.
pub fn fits(width: u32, height: u32, stride: u32) -> (r: bool)
    ensures
        r == frame_fits(width, height, stride),
{
    proof {
        assert((width as int) * (height as int) <= (u32::MAX as int) * (u32::MAX as int))
            by (nonlinear_arith);
        assert((height as int) * (stride as int) <= (u32::MAX as int) * (u32::MAX as int))
            by (nonlinear_arith);
    }
    let area: u128 = width as u128 * height as u128 * 4;
    let rows: u128 = height as u128 * stride as u128 + width as u128 * 4 + 4;
    area <= usize::MAX as u128 && rows <= usize::MAX as u128
}

proof fn lemma_index_step(w: int, x: int, y: int)
    requires
        0 <= x <= w,
        0 <= y,
    ensures
        y * w + x <= (y + 1) * w,
        x == w ==> y * w + x == (y + 1) * w,
{
    assert((y + 1) * w == y * w + w) by (nonlinear_arith);
}

proof fn lemma_index_below(w: int, h: int, x: int, y: int)
    requires
        0 <= x < w,
        0 <= y < h,
    ensures
        0 <= y * w + x < h * w,
        0 <= y * w,
{
    assert(0 <= y * w) by (nonlinear_arith)
        requires
            0 <= y,
            0 <= w,
    ;
    assert((y + 1) * w <= h * w) by (nonlinear_arith)
        requires
            y + 1 <= h,
            0 <= w,
    ;
    assert((y + 1) * w == y * w + w) by (nonlinear_arith);
}

proof fn lemma_row_fits(w: int, h: int, row: int)
    requires
        0 <= row < h,
        0 <= w,
    ensures
        0 <= row * w,
        row * w + w <= w * h,
{
    assert(0 <= row * w) by (nonlinear_arith)
        requires
            0 <= row,
            0 <= w,
    ;
    assert((row + 1) * w <= h * w) by (nonlinear_arith)
        requires
            row + 1 <= h,
            0 <= w,
    ;
    assert((row + 1) * w == row * w + w) by (nonlinear_arith);
    assert(h * w == w * h) by (nonlinear_arith);
}

proof fn lemma_row_offset(stride: int, w: int, h: int, x: int, y: int)
    requires
        0 <= x < w,
        0 <= y < h,
        0 <= stride,
    ensures
        0 <= y * stride <= h * stride,
        y * stride + x * 4 + 4 <= h * stride + w * 4 + 4,
{
    assert(0 <= y * stride <= h * stride) by (nonlinear_arith)
        requires
            0 <= y < h,
            0 <= stride,
    ;
}

/// The console's frame in RGBA: each pixel's colour in red, green, blue order with an opaque
/// alpha, and pixels past the end of what it sent left at zero.
pub fn pixels_to_rgba(width: u32, height: u32, stride: u32, format: u32, data: &[u8]) -> (r: Vec<
    u8,
>)
    requires
        frame_fits(width, height, stride),
    ensures
        is_rgba_of(r@, width, height, stride, format, data@),
{
    let w = width as usize;
    let h = height as usize;
    let bgr = format == X8R8G8B8 || format == BGRX || format == BGRA;
    let mut pixels: Vec<u8> = Vec::new();
    let mut y: usize = 0;
    while y < h
        invariant
            w == width,
            h == height,
            bgr == is_bgr(format),
            frame_fits(width, height, stride),
            y <= h,
            pixels@.len() == (y * w) * 4,
            forall|xx: int, yy: int, c: int|
                0 <= xx < w && 0 <= yy < y && 0 <= c < 4 ==> pixels@[pixel_index(
                    w as int,
                    xx,
                    yy,
                    c,
                )] == #[trigger] rgba_channel(stride, format, data@, xx, yy, c),
        decreases h - y,
    {
        let mut x: usize = 0;
        while x < w
            invariant
                w == width,
                h == height,
                bgr == is_bgr(format),
                frame_fits(width, height, stride),
                y < h,
                x <= w,
                pixels@.len() == (y * w + x) * 4,
                forall|xx: int, yy: int, c: int|
                    0 <= xx < w && 0 <= yy <= y && 0 <= c < 4 && (yy < y || xx < x)
                        ==> pixels@[pixel_index(w as int, xx, yy, c)] == #[trigger] rgba_channel(
                        stride,
                        format,
                        data@,
                        xx,
                        yy,
                        c,
                    ),
            decreases w - x,
        {
            proof {
                lemma_row_offset(stride as int, w as int, h as int, x as int, y as int);
                lemma_index_below(w as int, h as int, x as int, y as int);
            }
            let source = y * (stride as usize) + x * 4;
            let ghost before = pixels@;
            let ghost base = (y * w + x) * 4;
            if source + 4 > data.len() {
                pixels.push(0);
                pixels.push(0);
                pixels.push(0);
                pixels.push(0);
            } else if bgr {
                pixels.push(data[source + 2]);
                pixels.push(data[source + 1]);
                pixels.push(data[source]);
                pixels.push(255);
            } else {
                pixels.push(data[source]);
                pixels.push(data[source + 1]);
                pixels.push(data[source + 2]);
                pixels.push(255);
            }
            proof {
                assert forall|xx: int, yy: int, c: int|
                    0 <= xx < w && 0 <= yy <= y && 0 <= c < 4 && (yy < y || xx < x
                        + 1) implies pixels@[pixel_index(w as int, xx, yy, c)]
                    == #[trigger] rgba_channel(stride, format, data@, xx, yy, c) by {
                    if yy < y || xx < x {
                        if yy < y {
                            lemma_index_step(w as int, xx + 1, yy);
                            assert((yy + 1) * w <= y * w) by (nonlinear_arith)
                                requires
                                    yy + 1 <= y,
                                    0 <= w,
                            ;
                        }
                        assert(pixel_index(w as int, xx, yy, c) < before.len());
                        assert(pixels@[pixel_index(w as int, xx, yy, c)] == before[pixel_index(
                            w as int,
                            xx,
                            yy,
                            c,
                        )]);
                    } else {
                        assert(xx == x && yy == y);
                        assert(pixel_index(w as int, xx, yy, c) == base + c);
                    }
                }
            }
            x = x + 1;
        }
        proof {
            lemma_index_step(w as int, w as int, y as int);
        }
        y = y + 1;
    }
    assert(h * w == w * h) by (nonlinear_arith);
    pixels
}

/// What the window draws of a pixel the console sent: opaque, with the blue, green, red bytes
/// of `x8r8g8b8` (0x20020888), `BGRX` (0x20088880) and `BGRA` (0x20088888) turned into red,
/// green, blue, and the first three bytes of any other format kept in order; a pixel the
/// console did not send is drawn as nothing at all.
pub proof fn each_pixel_comes_out_red_first(
    out: Seq<u8>,
    width: u32,
    height: u32,
    stride: u32,
    format: u32,
    data: Seq<u8>,
    x: int,
    y: int,
)
    requires
        is_rgba_of(out, width, height, stride, format, data),
        0 <= x < width,
        0 <= y < height,
    ensures
        ({
            let s = y * stride + x * 4;
            let t = (y * width + x) * 4;
            &&& s + 4 <= data.len() ==> out[t + 3] == 255
            &&& s + 4 <= data.len() && (format == 0x20020888 || format == 0x20088880 || format
                == 0x20088888) ==> out[t] == data[s + 2] && out[t + 1] == data[s + 1] && out[t
                + 2] == data[s]
            &&& s + 4 <= data.len() && !(format == 0x20020888 || format == 0x20088880 || format
                == 0x20088888) ==> out[t] == data[s] && out[t + 1] == data[s + 1] && out[t + 2]
                == data[s + 2]
            &&& s + 4 > data.len() ==> out[t] == 0 && out[t + 1] == 0 && out[t + 2] == 0 && out[t
                + 3] == 0
        }),
{
    let t = (y * width + x) * 4;
    assert(rgba_channel(stride, format, data, x, y, 0) == out[pixel_index(width as int, x, y, 0)]);
    assert(rgba_channel(stride, format, data, x, y, 1) == out[pixel_index(width as int, x, y, 1)]);
    assert(rgba_channel(stride, format, data, x, y, 2) == out[pixel_index(width as int, x, y, 2)]);
    assert(rgba_channel(stride, format, data, x, y, 3) == out[pixel_index(width as int, x, y, 3)]);
    assert(pixel_index(width as int, x, y, 0) == t);
    assert(pixel_index(width as int, x, y, 3) == t + 3);
}

/// The frame the window holds: the last scanout with every patch since applied.
pub struct Surface {
    pub width: u32,
    pub height: u32,
    pub pixels: Vec<u8>,
    pub format: u32,
}

impl Surface {
    pub open spec fn wf(&self) -> bool {
        self.pixels@.len() == self.width * self.height * 4
    }
}

/// A whole frame from the console.
pub struct Scanout {
    pub width: u32,
    pub height: u32,
    pub stride: u32,
    pub format: u32,
    pub data: Vec<u8>,
}

/// A rectangle of the frame from the console.
pub struct Update {
    pub x: i32,
    pub y: i32,
    pub w: i32,
    pub h: i32,
    pub stride: u32,
    pub format: u32,
    pub data: Vec<u8>,
}

/// What a frame from the console comes to.
pub enum Outcome {
    /// Nothing: a patch that does not belong to the frame the window holds.
    Dropped,
    /// The console read the frame into a surface of ours: the ring moves on and the window
    /// redraws the surface.
    Landed,
    /// A frame the window draws as an image, the whole of the frame it now holds.  With
    /// `scanout` it is a whole new frame, for which the ring of surfaces is made this size.
    Frame { width: u32, height: u32, pixels: Vec<u8>, scanout: bool },
}

/// The state of the socket's side of the display: the frame it holds.
pub struct Listener {
    pub surface: Option<Surface>,
}

/// The patch's size, a negative one read as nothing.
pub open spec fn extent(v: i32) -> int {
    if v < 0 {
        0
    } else {
        v as int
    }
}

/// Whether a patch can be converted at all: what a caller tests first.
pub open spec fn update_fits(update: &Update) -> bool {
    frame_fits(extent(update.w) as u32, extent(update.h) as u32, update.stride)
}

pub fn update_fits_exec(update: &Update) -> (r: bool)
    ensures
        r == update_fits(update),
{
    let w: u32 = if update.w < 0 {
        0
    } else {
        update.w as u32
    };
    let h: u32 = if update.h < 0 {
        0
    } else {
        update.h as u32
    };
    fits(w, h, update.stride)
}

/// The patch lands inside the frame: it starts on the frame, has its format, and does not
/// run past its right or bottom edge.
pub open spec fn patch_fits(surface: &Surface, update: &Update) -> bool {
    &&& surface.format == update.format
    &&& update.x >= 0
    &&& update.y >= 0
    &&& update.x + extent(update.w) <= surface.width
    &&& update.y + extent(update.h) <= surface.height
}

/// The frame after a patch that fits: the patch's pixels where it lands, the old ones
/// everywhere else.
pub open spec fn patched(old: Seq<u8>, new: Seq<u8>, surface_width: u32, surface_height: u32, update: &Update) -> bool {
    &&& new.len() == old.len()
    &&& forall|px: int, py: int, c: int|
        0 <= px < surface_width && 0 <= py < surface_height && 0 <= c < 4 ==> #[trigger] new[pixel_index(
            surface_width as int,
            px,
            py,
            c,
        )] == if update.x <= px < update.x + extent(update.w) && update.y <= py < update.y
            + extent(update.h) {
            rgba_channel(update.stride, update.format, update.data@, px - update.x, py - update.y, c)
        } else {
            old[pixel_index(surface_width as int, px, py, c)]
        }
}

proof fn lemma_index_unique(w: int, x1: int, y1: int, c1: int, x2: int, y2: int, c2: int)
    requires
        0 <= x1 < w,
        0 <= x2 < w,
        0 <= y1,
        0 <= y2,
        0 <= c1 < 4,
        0 <= c2 < 4,
        pixel_index(w, x1, y1, c1) == pixel_index(w, x2, y2, c2),
    ensures
        x1 == x2,
        y1 == y2,
        c1 == c2,
{
    let a = y1 * w + x1;
    let b = y2 * w + x2;
    assert(a == b && c1 == c2);
    if y1 < y2 {
        assert((y1 + 1) * w <= y2 * w) by (nonlinear_arith)
            requires
                y1 + 1 <= y2,
                0 <= w,
        ;
        assert((y1 + 1) * w == y1 * w + w) by (nonlinear_arith);
        assert(false);
    } else if y2 < y1 {
        assert((y2 + 1) * w <= y1 * w) by (nonlinear_arith)
            requires
                y2 + 1 <= y1,
                0 <= w,
        ;
        assert((y2 + 1) * w == y2 * w + w) by (nonlinear_arith);
        assert(false);
    }
}

/// Copies the converted patch into the frame, row by row.
fn apply_patch(pixels: &mut Vec<u8>, surface_width: u32, surface_height: u32, update: &Update, updated: &Vec<u8>)
    requires
        old(pixels)@.len() == surface_width * surface_height * 4,
        surface_width * surface_height * 4 <= usize::MAX,
        update.x >= 0,
        update.y >= 0,
        update.x + extent(update.w) <= surface_width,
        update.y + extent(update.h) <= surface_height,
        is_rgba_of(
            updated@,
            extent(update.w) as u32,
            extent(update.h) as u32,
            update.stride,
            update.format,
            update.data@,
        ),
    ensures
        patched(old(pixels)@, final(pixels)@, surface_width, surface_height, update),
{
    let ghost start = pixels@;
    let sw = surface_width as usize;
    let x = update.x as usize;
    let y = update.y as usize;
    let w: usize = if update.w < 0 {
        0
    } else {
        update.w as usize
    };
    let h: usize = if update.h < 0 {
        0
    } else {
        update.h as usize
    };
    let ghost sh = surface_height as int;
    let mut row: usize = 0;
    while row < h
        invariant
            sw == surface_width,
            sh == surface_height,
            x == update.x,
            y == update.y,
            w == extent(update.w),
            h == extent(update.h),
            x + w <= sw,
            y + h <= sh,
            row <= h,
            sw * sh * 4 <= usize::MAX,
            start.len() == sw * sh * 4,
            pixels@.len() == start.len(),
            is_rgba_of(updated@, w as u32, h as u32, update.stride, update.format, update.data@),
            forall|px: int, py: int, c: int|
                0 <= px < sw && 0 <= py < sh && 0 <= c < 4 ==> #[trigger] pixels@[pixel_index(
                    sw as int,
                    px,
                    py,
                    c,
                )] == if x <= px < x + w && y <= py < y + row {
                    rgba_channel(update.stride, update.format, update.data@, px - x, py - y, c)
                } else {
                    start[pixel_index(sw as int, px, py, c)]
                },
        decreases h - row,
    {
        proof {
            lemma_row_fits(sw as int, sh, (y + row) as int);
            lemma_row_fits(w as int, h as int, row as int);
            assert(((y + row) * sw + x) * 4 + w * 4 <= sw * sh * 4);
            assert(updated@.len() == updated.len());
        }
        let target = ((y + row) * sw + x) * 4;
        let source = row * w * 4;
        let mut k: usize = 0;
        while k < w * 4
            invariant
                sw == surface_width,
                sh == surface_height,
                x == update.x,
                y == update.y,
                w == extent(update.w),
                h == extent(update.h),
                x + w <= sw,
                y + h <= sh,
                row < h,
                k <= w * 4,
                sw * sh * 4 <= usize::MAX,
                target == ((y + row) * sw + x) * 4,
                source == (row * w) * 4,
                target + w * 4 <= sw * sh * 4,
                source + w * 4 <= updated@.len(),
                updated@.len() == updated.len(),
                start.len() == sw * sh * 4,
                pixels@.len() == start.len(),
                is_rgba_of(updated@, w as u32, h as u32, update.stride, update.format, update.data@),
                forall|px: int, py: int, c: int|
                    0 <= px < sw && 0 <= py < sh && 0 <= c < 4 ==> #[trigger] pixels@[pixel_index(
                        sw as int,
                        px,
                        py,
                        c,
                    )] == if x <= px < x + w && (y <= py < y + row || (py == y + row && (px
                        - x) * 4 + c < k)) {
                        rgba_channel(update.stride, update.format, update.data@, px - x, py - y, c)
                    } else {
                        start[pixel_index(sw as int, px, py, c)]
                    },
            decreases w * 4 - k,
        {
            let value = updated[source + k];
            let ghost before = pixels@;
            let ghost j = k as int / 4;
            let ghost ch = k as int % 4;
            assert(pixel_index(w as int, j, row as int, ch) == source + k);
            assert(value == rgba_channel(update.stride, update.format, update.data@, j, row as int, ch));
            assert(pixel_index(sw as int, x + j, (y + row) as int, ch) == target + k);
            pixels.set(target + k, value);
            proof {
                assert forall|px: int, py: int, c: int|
                    0 <= px < sw && 0 <= py < sh && 0 <= c < 4 implies #[trigger] pixels@[pixel_index(
                        sw as int,
                        px,
                        py,
                        c,
                    )] == if x <= px < x + w && (y <= py < y + row || (py == y + row && (px
                        - x) * 4 + c < k + 1)) {
                        rgba_channel(update.stride, update.format, update.data@, px - x, py - y, c)
                    } else {
                        start[pixel_index(sw as int, px, py, c)]
                    } by {
                    lemma_index_below(sw as int, sh, px, py);
                    if pixel_index(sw as int, px, py, c) == target + k {
                        lemma_index_unique(sw as int, px, py, c, x + j, (y + row) as int, ch);
                    } else {
                        assert(pixels@[pixel_index(sw as int, px, py, c)] == before[pixel_index(
                            sw as int,
                            px,
                            py,
                            c,
                        )]);
                        if x <= px < x + w && py == y + row && (px - x) * 4 + c == k {
                            assert(pixel_index(sw as int, px, py, c) == target + k);
                        }
                    }
                }
            }
            k = k + 1;
        }
        row = row + 1;
    }
}

impl Listener {
    pub fn new() -> (r: Self)
        ensures
            r.surface is None,
    {
        Listener { surface: None }
    }

    pub open spec fn wf(&self) -> bool {
        self.surface matches Some(s) ==> s.wf()
    }

    /// A whole frame: converted and held, and sent to the window, unless the console read it
    /// into a surface of ours and sent no pixels at all.
    pub fn replace_surface(&mut self, scanout: Scanout) -> (r: Outcome)
        requires
            old(self).wf(),
            frame_fits(scanout.width, scanout.height, scanout.stride),
        ensures
            final(self).wf(),
            scanout.data@.len() == 0 ==> r is Landed && final(self).surface == old(self).surface,
            scanout.data@.len() > 0 ==> {
                &&& final(self).surface matches Some(s) && s.width == scanout.width && s.height
                    == scanout.height && s.format == scanout.format && is_rgba_of(
                    s.pixels@,
                    scanout.width,
                    scanout.height,
                    scanout.stride,
                    scanout.format,
                    scanout.data@,
                )
                &&& r matches Outcome::Frame { width, height, pixels, scanout: whole } && whole
                    && width == scanout.width && height == scanout.height && pixels@
                    == final(self).surface->0.pixels@
            },
    {
        if scanout.data.len() == 0 {
            return Outcome::Landed;
        }
        let pixels = pixels_to_rgba(
            scanout.width,
            scanout.height,
            scanout.stride,
            scanout.format,
            scanout.data.as_slice(),
        );
        let frame = pixels.clone();
        self.surface = Some(
            Surface {
                width: scanout.width,
                height: scanout.height,
                pixels,
                format: scanout.format,
            },
        );
        Outcome::Frame { width: scanout.width, height: scanout.height, pixels: frame, scanout: true }
    }

    /// A rectangle of the frame.  One that fits the frame the window holds is copied into it
    /// and the whole frame sent on; a whole frame from the corner at a size this frame is not
    /// is the console at a new size, taken as a new frame; anything else is dropped.
    pub fn update_surface(&mut self, update: Update) -> (r: Outcome)
        requires
            old(self).wf(),
            update_fits(&update),
        ensures
            final(self).wf(),
            update.data@.len() == 0 ==> r is Landed && final(self).surface == old(self).surface,
            update.data@.len() > 0 && old(self).surface is None ==> r is Dropped
                && final(self).surface is None,
            update.data@.len() > 0 ==> (old(self).surface matches Some(s) ==> {
                if patch_fits(&s, &update) {
                    &&& final(self).surface matches Some(n) && n.width == s.width && n.height
                        == s.height && n.format == s.format && patched(
                        s.pixels@,
                        n.pixels@,
                        s.width,
                        s.height,
                        &update,
                    )
                    &&& r matches Outcome::Frame { width, height, pixels, scanout: whole }
                        && !whole && width == s.width && height == s.height && pixels@
                        == final(self).surface->0.pixels@
                } else if s.format == update.format && update.x == 0 && update.y == 0 {
                    &&& final(self).surface matches Some(n) && n.width == extent(update.w)
                        && n.height == extent(update.h) && n.format == update.format
                        && is_rgba_of(
                        n.pixels@,
                        n.width,
                        n.height,
                        update.stride,
                        update.format,
                        update.data@,
                    )
                    &&& r matches Outcome::Frame { width, height, pixels, scanout: whole }
                        && whole && width == extent(update.w) && height == extent(update.h)
                        && pixels@ == final(self).surface->0.pixels@
                } else {
                    r is Dropped && final(self).surface == old(self).surface
                }
            }),
    {
        if update.data.len() == 0 {
            assert(self.wf());
            return Outcome::Landed;
        }
        let (sw, sh, format) = match &self.surface {
            Some(surface) => (surface.width, surface.height, surface.format),
            None => return Outcome::Dropped,
        };
        if format != update.format || update.x < 0 || update.y < 0 {
            return Outcome::Dropped;
        }
        let x = update.x as u32;
        let y = update.y as u32;
        let width: u32 = if update.w < 0 {
            0
        } else {
            update.w as u32
        };
        let height: u32 = if update.h < 0 {
            0
        } else {
            update.h as u32
        };
        let fits_frame = x as u64 + width as u64 <= sw as u64 && y as u64 + height as u64 <= sh as u64;
        if !fits_frame {
            if x == 0 && y == 0 {
                return self.replace_surface(
                    Scanout {
                        width,
                        height,
                        stride: update.stride,
                        format: update.format,
                        data: update.data,
                    },
                );
            }
            return Outcome::Dropped;
        }
        let updated = pixels_to_rgba(width, height, update.stride, update.format, update.data.as_slice());
        let mut surface = self.surface.take().unwrap();
        assert(surface.pixels@.len() == surface.pixels.len());
        apply_patch(&mut surface.pixels, sw, sh, &update, &updated);
        let frame = surface.pixels.clone();
        self.surface = Some(surface);
        Outcome::Frame { width: sw, height: sh, pixels: frame, scanout: false }
    }
}

} // verus!
