//! The shape of the guest's display: what the window asks for, what the device can take,
//! and what the guest sends back.
use vstd::prelude::*;
use crate::rounding::{
    f64_ratio, f64_times, lemma_ratio_binade, lemma_round_even_near, lemma_two_to_add,
    lemma_two_to_mono, lemma_two_to_positive, lemma_wide_binade, ratio_f64, ratio_shift,
    round_even, times_f64, two_to, wide_shift, SIGNIFICAND_HIGH, SIGNIFICAND_LOW,
};
use crate::text::{
    after_first, after_first_in, before_first, before_first_in, chars_of, decimal, parse_u32,
    parse_unsigned, push_decimal, push_str,
};

verus! {

/// The display a guest is given when the device names none.
pub const GUEST_MAX_DISPLAY: (u32, u32) = (2560, 1440);

/// The window's physical size is described in whole centimetres of this many millimetres.
pub const MM_PER_CM: u16 = 10;

/// The largest physical size, in centimetres, a base EDID carries.
pub const MAX_CM: u16 = 255;

/// The window as the guest is told it: its physical size, which is how the guest learns how
/// many of its pixels are one of the window's points, and its size in pixels.
#[derive(Clone, Copy, Debug, PartialEq, Eq, Structural)]
pub struct WindowSize {
    pub width_mm: u16,
    pub height_mm: u16,
    pub width: u32,
    pub height: u32,
}

/// A size in pixels rounded down to whole logical pixels of `divisor` device pixels each,
/// and never below one of them.
pub open spec fn snapped(pixels: u32, divisor: u32) -> u32 {
    if pixels / divisor * divisor < divisor {
        divisor
    } else {
        (pixels / divisor * divisor) as u32
    }
}

/// Rounds a size in pixels down to whole logical pixels.
pub fn snap(pixels: u32, divisor: u32) -> (r: u32)
    requires
        1 <= divisor,
    ensures
        r == snapped(pixels, divisor),
        r % divisor == 0,
        r >= divisor,
        r <= pixels || r == divisor,
        pixels < r + divisor,
{
    let q = pixels / divisor;
    proof {
        vstd::arithmetic::div_mod::lemma_fundamental_div_mod(pixels as int, divisor as int);
        vstd::arithmetic::div_mod::lemma_mod_multiples_basic(q as int, divisor as int);
        assert(q * divisor == divisor * q) by (nonlinear_arith);
        assert(0 <= pixels % divisor < divisor);
    }
    let whole = q * divisor;
    if whole < divisor {
        proof {
            vstd::arithmetic::div_mod::lemma_mod_self_0(divisor as int);
        }
        divisor
    } else {
        whole
    }
}

/// The window described to the guest: `width_cm` by `height_cm` centimetres, and
/// `width_px` by `height_px` device pixels, rounded down to whole logical pixels of
/// `divisor` device pixels (1 for a 1x window, 3 for 1.5x, 2 for 2x).
pub fn describe_window(
    width_cm: u16,
    height_cm: u16,
    width_px: u32,
    height_px: u32,
    divisor: u32,
) -> (r: WindowSize)
    requires
        1 <= width_cm <= MAX_CM,
        1 <= height_cm <= MAX_CM,
        1 <= divisor <= 3,
    ensures
        r.width_mm == width_cm * MM_PER_CM,
        r.height_mm == height_cm * MM_PER_CM,
        r.width == snapped(width_px, divisor),
        r.height == snapped(height_px, divisor),
{
    WindowSize {
        width_mm: width_cm * MM_PER_CM,
        height_mm: height_cm * MM_PER_CM,
        width: snap(width_px, divisor),
        height: snap(height_px, divisor),
    }
}

/// The guest builds its framebuffer for the size it is first told, so until its display
/// service is up it is told the largest size the device advertises, with the window's
/// physical size; after that, the window itself.
pub open spec fn spec_opening_size(wanted: WindowSize, display: (u32, u32), ready: bool) -> WindowSize {
    if ready {
        wanted
    } else {
        WindowSize { width: display.0, height: display.1, ..wanted }
    }
}

pub fn opening_size(wanted: WindowSize, display: (u32, u32), ready: bool) -> (r: WindowSize)
    ensures
        r == spec_opening_size(wanted, display, ready),
{
    if ready {
        return wanted;
    }
    WindowSize { width: display.0, height: display.1, ..wanted }
}

/// The scale, as the fraction `num / den`, that fits a size into a display without growing
/// it: the smallest of `max / size` on each side that has a size, and one.
pub open spec fn fit_scale(size: (u32, u32), max: (u32, u32)) -> (int, int) {
    let first = if size.0 > 0 && max.0 < size.0 {
        (max.0 as int, size.0 as int)
    } else {
        (1int, 1int)
    };
    if size.1 > 0 && max.1 * first.1 < first.0 * size.1 {
        (max.1 as int, size.1 as int)
    } else {
        first
    }
}

/// A side as a `u32` from its scaled size: as `as u32` saturates a double, and never below one
/// pixel.
pub open spec fn saturated_side(v: nat) -> u32 {
    if v < 1 {
        1
    } else if v > u32::MAX {
        u32::MAX
    } else {
        v as u32
    }
}

/// The size the guest is asked for: the window's shape kept, scaled down into the display
/// the device advertises, in doubles as the window computes it.  The scale is the smallest of
/// `max / size` on each side and one, rounded to a double (rounding keeps order, so the
/// smallest rounded ratio is the rounded smallest ratio); each side is multiplied by it,
/// rounded again, and cut to whole pixels.
pub open spec fn spec_clamp_to_display(size: (u32, u32), max: (u32, u32)) -> (u32, u32) {
    let scale = fit_scale(size, max);
    let s = f64_ratio(scale.0 as nat, scale.1 as nat);
    (saturated_side(f64_times(size.0 as nat, s)), saturated_side(f64_times(size.1 as nat, s)))
}

proof fn lemma_fit_scale(size: (u32, u32), max: (u32, u32))
    ensures
        ({
            let s = fit_scale(size, max);
            &&& 0 <= s.0 <= s.1
            &&& 1 <= s.1 <= u32::MAX
            &&& size.0 > 0 ==> max.0 * s.1 >= s.0 * size.0
            &&& size.1 > 0 ==> max.1 * s.1 >= s.0 * size.1
        }),
{
    let first = if size.0 > 0 && max.0 < size.0 {
        (max.0 as int, size.0 as int)
    } else {
        (1int, 1int)
    };
    if size.0 > 0 {
        assert(max.0 * first.1 >= first.0 * size.0);
    }
    if size.1 > 0 && max.1 * first.1 < first.0 * size.1 {
        if size.0 > 0 {
            assert(max.0 * size.1 >= max.1 * size.0) by (nonlinear_arith)
                requires
                    max.0 * first.1 >= first.0 * size.0,
                    max.1 * first.1 < first.0 * size.1,
                    first.1 > 0,
                    first.0 >= 0,
                    size.1 > 0,
                    size.0 > 0,
            ;
        }
        assert(max.1 < size.1) by (nonlinear_arith)
            requires
                max.1 * first.1 < first.0 * size.1,
                0 <= first.0 <= first.1,
                size.1 > 0,
        ;
    }
}

proof fn lemma_u32_product(a: int, b: int)
    requires
        0 <= a <= u32::MAX,
        0 <= b <= u32::MAX,
    ensures
        0 <= a * b <= u64::MAX,
{
    assert(0 <= a * b <= u32::MAX * u32::MAX) by (nonlinear_arith)
        requires
            0 <= a <= u32::MAX,
            0 <= b <= u32::MAX,
    ;
}

/// A side times a scale that keeps it within `bound`, in doubles, stays within `bound`: each
/// of the two roundings is off by at most one part in 2^53, too little to reach the next
/// whole pixel below 2^32.
proof fn lemma_times_within(side: nat, bound: nat, num: nat, den: nat)
    requires
        1 <= num <= den <= u32::MAX,
        side <= u32::MAX,
        bound <= u32::MAX,
        side * num <= bound * den,
    ensures
        f64_times(side, f64_ratio(num, den)) <= bound,
{
    let hi: int = SIGNIFICAND_HIGH as int;
    let lo: int = SIGNIFICAND_LOW as int;
    lemma_ratio_binade(num, den, 0);
    let k = ratio_shift(num, den, 0);
    let kk = two_to(k);
    let m = round_even(num * kk, den);
    lemma_round_even_near(num * kk, den);
    assert(m <= hi) by (nonlinear_arith)
        requires
            2 * m * den <= 2 * (num * kk) + den,
            num * kk < hi * den,
            den >= 1,
    ;
    let p = side * m;
    assert(p <= (u32::MAX as int) * hi) by (nonlinear_arith)
        requires
            p == side * m,
            m <= hi,
            side <= u32::MAX,
    ;
    lemma_wide_binade(p, 0);
    let t = wide_shift(p, 0);
    let tt = two_to(t);
    lemma_two_to_positive(t);
    lemma_two_to_positive(k);
    let m2 = round_even(p, tt);
    lemma_round_even_near(p, tt);
    if t == 0 {
        assert(tt == 1);
        assert(p % 1 == 0);
        assert(m2 * tt == p);
    }
    let m2t = m2 * tt;
    assert(2 * m2 * tt == 2 * m2t) by (nonlinear_arith)
        requires
            m2t == m2 * tt,
    ;
    assert(hi * m2t <= hi * p + p) by {
        if t != 0 {
            assert(SIGNIFICAND_LOW * tt <= p);
        }
    }
    let md = m * den;
    let nk = num * kk;
    assert(2 * m * den == 2 * md) by (nonlinear_arith)
        requires
            md == m * den,
    ;
    assert(hi * md <= hi * nk + nk);
    assert(hi * p <= (hi + 1) * kk * bound) by (nonlinear_arith)
        requires
            hi * (m * den) <= hi * (num * kk) + num * kk,
            md == m * den,
            nk == num * kk,
            hi * md <= hi * nk + nk,
            p == side * m,
            side * num <= bound * den,
            den >= 1,
            hi > 0,
            kk >= 1,
    ;
    assert(m2 * tt < kk * (bound + 1)) by (nonlinear_arith)
        requires
            hi * (m2 * tt) <= hi * p + p,
            m2t == m2 * tt,
            hi * m2t <= hi * p + p,
            hi * p <= (hi + 1) * kk * bound,
            hi == 9007199254740992,
            bound <= u32::MAX,
            kk >= 1,
    ;
    assert((m2 * tt) / kk <= bound) by (nonlinear_arith)
        requires
            m2 * tt < kk * (bound + 1),
            kk >= 1,
    ;
}

/// At scale one a side stays what it is: both roundings are exact.
proof fn lemma_times_one(side: nat)
    requires
        side <= u32::MAX,
    ensures
        f64_times(side, f64_ratio(1, 1)) == side,
{
    lemma_ratio_binade(1, 1, 0);
    let k = ratio_shift(1, 1, 0);
    let kk = two_to(k);
    lemma_round_even_near(kk, 1);
    assert(kk % 1 == 0);
    assert(round_even(1 * kk, 1) == kk);
    let p = side * kk;
    assert(p <= (u32::MAX as int) * (SIGNIFICAND_HIGH as int)) by (nonlinear_arith)
        requires
            p == side * kk,
            kk < SIGNIFICAND_HIGH,
            side <= u32::MAX,
    ;
    lemma_wide_binade(p, 0);
    let t = wide_shift(p, 0);
    let tt = two_to(t);
    lemma_two_to_positive(t);
    lemma_two_to_positive(k);
    if t > 0 {
        assert(tt < kk) by (nonlinear_arith)
            requires
                p >= (SIGNIFICAND_LOW as int) * tt,
                p == side * kk,
                side <= u32::MAX,
                kk >= 1,
        ;
        if t >= k {
            lemma_two_to_mono(k, t);
        }
        lemma_two_to_add(t, (k - t) as nat);
        let c = side * two_to((k - t) as nat);
        assert(p == c * tt) by (nonlinear_arith)
            requires
                p == side * kk,
                kk == tt * two_to((k - t) as nat),
                c == side * two_to((k - t) as nat),
        ;
        vstd::arithmetic::div_mod::lemma_mod_multiples_basic(c as int, tt as int);
    }
    assert(p % tt == 0);
    lemma_round_even_near(p, tt);
    assert(round_even(p, tt) * tt == p);
    vstd::arithmetic::div_mod::lemma_div_multiples_vanish(side as int, kk as int);
    assert(p == kk * side) by (nonlinear_arith)
        requires
            p == side * kk,
    ;
}

/// The scale is nothing for an empty display: every side is then cut to nothing.
proof fn lemma_times_nothing(side: nat, den: nat)
    requires
        den >= 1,
    ensures
        f64_times(side, f64_ratio(0, den)) == 0,
{
    let k = ratio_shift(0, den, 0);
    assert(0 * two_to(k) == 0);
    assert(round_even(0, den) == 0);
    let p = side * 0;
    assert(p == 0);
    assert(wide_shift(0, 0) == 0);
    assert(two_to(0) == 1);
    assert(round_even(0, 1) == 0);
    lemma_two_to_positive(k);
}

fn side_of(v: u128) -> (r: u32)
    ensures
        r == saturated_side(v as nat),
{
    if v < 1 {
        1
    } else if v > u32::MAX as u128 {
        u32::MAX
    } else {
        v as u32
    }
}

/// Scales a size into the display the device advertises, keeping its shape.
pub fn clamp_to_display(size: (u32, u32), max: (u32, u32)) -> (r: (u32, u32))
    ensures
        r == spec_clamp_to_display(size, max),
{
    proof {
        lemma_fit_scale(size, max);
    }
    let mut num: u64 = 1;
    let mut den: u64 = 1;
    if size.0 > 0 && max.0 < size.0 {
        num = max.0 as u64;
        den = size.0 as u64;
    }
    proof {
        lemma_u32_product(max.1 as int, den as int);
        lemma_u32_product(num as int, size.1 as int);
        lemma_u32_product(size.0 as int, num as int);
    }
    if size.1 > 0 && (max.1 as u64) * den < num * (size.1 as u64) {
        num = max.1 as u64;
        den = size.1 as u64;
    }
    assert((num as int, den as int) == fit_scale(size, max));
    proof {
        lemma_fit_scale(size, max);
    }
    if num == 0 {
        proof {
            lemma_times_nothing(size.0 as nat, den as nat);
            lemma_times_nothing(size.1 as nat, den as nat);
        }
        return (1, 1);
    }
    let (m, pk) = ratio_f64(num, den);
    let ghost k = f64_ratio(num as nat, den as nat).1;
    let width = times_f64(size.0, m, pk, Ghost(k));
    let height = times_f64(size.1, m, pk, Ghost(k));
    (side_of(width), side_of(height))
}

/// Whatever size is asked for, what the guest is asked for fits the display the device
/// advertises, is never larger than the size asked for, and is the size asked for unchanged
/// when that already fits.
pub proof fn clamp_fits_the_display(size: (u32, u32), max: (u32, u32))
    requires
        size.0 >= 1,
        size.1 >= 1,
        max.0 >= 1,
        max.1 >= 1,
    ensures
        ({
            let r = spec_clamp_to_display(size, max);
            &&& 1 <= r.0 <= max.0
            &&& 1 <= r.1 <= max.1
            &&& r.0 <= size.0
            &&& r.1 <= size.1
            &&& size.0 <= max.0 && size.1 <= max.1 ==> r == size
        }),
{
    let sc = fit_scale(size, max);
    lemma_fit_scale(size, max);
    let num = sc.0 as nat;
    let den = sc.1 as nat;
    if num == 0 {
        lemma_times_nothing(size.0 as nat, den);
        lemma_times_nothing(size.1 as nat, den);
    } else {
        assert(size.0 * num <= max.0 * den) by (nonlinear_arith)
            requires
                max.0 * sc.1 >= sc.0 * size.0,
                num == sc.0,
                den == sc.1,
        ;
        assert(size.1 * num <= max.1 * den) by (nonlinear_arith)
            requires
                max.1 * sc.1 >= sc.0 * size.1,
                num == sc.0,
                den == sc.1,
        ;
        lemma_times_within(size.0 as nat, max.0 as nat, num, den);
        lemma_times_within(size.1 as nat, max.1 as nat, num, den);
        assert(size.0 * num <= size.0 * den) by (nonlinear_arith)
            requires
                num <= den,
        ;
        assert(size.1 * num <= size.1 * den) by (nonlinear_arith)
            requires
                num <= den,
        ;
        lemma_times_within(size.0 as nat, size.0 as nat, num, den);
        lemma_times_within(size.1 as nat, size.1 as nat, num, den);
    }
    if size.0 <= max.0 && size.1 <= max.1 {
        assert(!(size.0 > 0 && max.0 < size.0));
        assert(!(size.1 > 0 && max.1 * 1int < 1int * size.1));
        assert(sc == (1int, 1int));
        lemma_times_one(size.0 as nat);
        lemma_times_one(size.1 as nat);
    }
}

/// A size already scaled into the display is left as it is: asking twice asks for the same.
pub proof fn clamping_twice_is_clamping_once(size: (u32, u32), max: (u32, u32))
    requires
        max.0 >= 1,
        max.1 >= 1,
    ensures
        spec_clamp_to_display(spec_clamp_to_display(size, max), max) == spec_clamp_to_display(
            size,
            max,
        ),
{
    let sc = fit_scale(size, max);
    lemma_fit_scale(size, max);
    let num = sc.0 as nat;
    let den = sc.1 as nat;
    if num == 0 {
        lemma_times_nothing(size.0 as nat, den);
        lemma_times_nothing(size.1 as nat, den);
    } else {
        if size.0 > 0 {
            assert(size.0 * num <= max.0 * den) by (nonlinear_arith)
                requires
                    max.0 * sc.1 >= sc.0 * size.0,
                    num == sc.0,
                    den == sc.1,
            ;
            lemma_times_within(size.0 as nat, max.0 as nat, num, den);
        } else {
            lemma_times_within(0, 0, num, den);
        }
        if size.1 > 0 {
            assert(size.1 * num <= max.1 * den) by (nonlinear_arith)
                requires
                    max.1 * sc.1 >= sc.0 * size.1,
                    num == sc.0,
                    den == sc.1,
            ;
            lemma_times_within(size.1 as nat, max.1 as nat, num, den);
        } else {
            lemma_times_within(0, 0, num, den);
        }
    }
    let r = spec_clamp_to_display(size, max);
    clamp_fits_the_display(r, max);
}

/// `xres=` in a device argument.
pub open spec fn xres() -> Seq<char> {
    seq!['x', 'r', 'e', 's', '=']
}

/// `yres=` in a device argument.
pub open spec fn yres() -> Seq<char> {
    seq!['y', 'r', 'e', 's', '=']
}

/// The piece of the text after the first time `pat` stands in it and before the next:
/// what `split(pat).nth(1)` gives.
pub open spec fn second_piece(s: Seq<char>, pat: Seq<char>) -> Option<Seq<char>> {
    match after_first(s, pat) {
        Some(after) => Some(before_first(after, pat)),
        None => None,
    }
}

/// The display one command-line argument advertises: the number after `xres=` up to a comma,
/// and the number after a `yres=` that follows it, up to a comma.
pub open spec fn entry_display(entry: Seq<char>) -> Option<(u32, u32)> {
    match second_piece(entry, xres()) {
        Some(rest) => {
            let width = parse_unsigned(before_first(rest, seq![',']), u32::MAX as int);
            let height = match second_piece(rest, yres()) {
                Some(h) => parse_unsigned(before_first(h, seq![',']), u32::MAX as int),
                None => None,
            };
            match (width, height) {
                (Some(w), Some(h)) => Some((w as u32, h as u32)),
                _ => None,
            }
        },
        None => None,
    }
}

/// The display the first argument that advertises one advertises, or the default.
pub open spec fn display_max_of(argv: Seq<Seq<char>>) -> (u32, u32)
    decreases argv.len(),
{
    if argv.len() == 0 {
        GUEST_MAX_DISPLAY
    } else {
        match entry_display(argv[0]) {
            Some(display) => display,
            None => display_max_of(argv.drop_first()),
        }
    }
}

fn second_piece_in(s: &[char], pat: &[char]) -> (r: Option<Vec<char>>)
    ensures
        match r {
            Some(v) => second_piece(s@, pat@) == Some(v@),
            None => second_piece(s@, pat@) is None,
        },
{
    match after_first_in(s, pat) {
        Some(after) => Some(before_first_in(after.as_slice(), pat)),
        None => None,
    }
}

fn entry_display_in(entry: &[char]) -> (r: Option<(u32, u32)>)
    ensures
        r == entry_display(entry@),
{
    let x = ['x', 'r', 'e', 's', '='];
    let y = ['y', 'r', 'e', 's', '='];
    let comma = [','];
    assert(x@ == xres());
    assert(y@ == yres());
    assert(comma@ == seq![',']);
    match second_piece_in(entry, &x) {
        Some(rest) => {
            let width = parse_u32(before_first_in(rest.as_slice(), &comma).as_slice());
            let height = match second_piece_in(rest.as_slice(), &y) {
                Some(h) => parse_u32(before_first_in(h.as_slice(), &comma).as_slice()),
                None => None,
            };
            match (width, height) {
                (Some(w), Some(h)) => Some((w, h)),
                _ => None,
            }
        },
        None => None,
    }
}

/// The display the device on QEMU's command line advertises with `xres=` and `yres=`, or the
/// default when no argument says.
pub fn display_max(argv: &[String]) -> (r: (u32, u32))
    ensures
        r == display_max_of(argv@.map_values(|s: String| s@)),
{
    let ghost all = argv@.map_values(|s: String| s@);
    let mut i: usize = 0;
    assert(all.skip(0) =~= all);
    while i < argv.len()
        invariant
            i <= argv@.len(),
            all == argv@.map_values(|s: String| s@),
            display_max_of(all) == display_max_of(all.skip(i as int)),
        decreases argv@.len() - i,
    {
        let entry = chars_of(argv[i].as_str());
        assert(all.skip(i as int)[0] == entry@);
        assert(all.skip(i as int).drop_first() == all.skip(i + 1));
        match entry_display_in(entry.as_slice()) {
            Some(display) => return display,
            None => {},
        }
        i = i + 1;
    }
    assert(all.skip(i as int).len() == 0);
    GUEST_MAX_DISPLAY
}

/// What the guest sent against what the window asked for, so a screen that does not fill
/// the window can be told from one that is a resize behind.
pub open spec fn shape_note(surface: (u32, u32), want: Option<WindowSize>) -> Option<Seq<char>> {
    match want {
        Some(size) => if surface.0 == size.width && surface.1 == size.height {
            None
        } else {
            Some(
                "guest sent "@ + decimal(surface.0 as nat) + "x"@ + decimal(surface.1 as nat)
                    + " for a "@ + decimal(size.width as nat) + "x"@ + decimal(
                    size.height as nat,
                ) + " window"@,
            )
        },
        None => None,
    }
}

pub fn frame_shape(surface: (u32, u32), want: Option<WindowSize>) -> (r: Option<String>)
    ensures
        match r {
            Some(s) => shape_note(surface, want) == Some(s@),
            None => shape_note(surface, want) is None,
        },
{
    let size = match want {
        Some(size) => size,
        None => return None,
    };
    if surface.0 == size.width && surface.1 == size.height {
        return None;
    }
    let mut note = String::new();
    push_str(&mut note, "guest sent ");
    push_decimal(&mut note, surface.0 as u64);
    push_str(&mut note, "x");
    push_decimal(&mut note, surface.1 as u64);
    push_str(&mut note, " for a ");
    push_decimal(&mut note, size.width as u64);
    push_str(&mut note, "x");
    push_decimal(&mut note, size.height as u64);
    push_str(&mut note, " window");
    Some(note)
}

} // verus!
