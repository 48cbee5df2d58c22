//! Color model, pastel correction and ratio scaling.

use vstd::prelude::*;
use vstd::arithmetic::div_mod::{
    lemma_div_is_ordered, lemma_div_multiples_vanish, lemma_div_nonincreasing,
    lemma_div_pos_is_pos, lemma_small_mod,
};
use vstd::arithmetic::mul::lemma_mul_inequality;

verus! {

/// Number of LEDs in the LED strip.
pub const LED_NUMBER: usize = 300;

/// Exclusive upper bound for a generated color component: R, G or B.
pub const AMPLITUDE: u16 = 8;

/// One RGB pixel of the strip.
#[derive(Clone, Copy, PartialEq, Eq, Structural, Debug)]
pub struct Color {
    pub r: u8,
    pub g: u8,
    pub b: u8,
}

/// The fully dark pixel.
pub open spec fn spec_black() -> Color {
    Color { r: 0, g: 0, b: 0 }
}

/// Every component stays strictly below `AMPLITUDE`.
pub open spec fn valid_color(c: Color) -> bool {
    (c.r as u16) < AMPLITUDE && (c.g as u16) < AMPLITUDE && (c.b as u16) < AMPLITUDE
}

/// The fully dark pixel as an executable value.
pub fn black() -> (c: Color)
    ensures
        c == spec_black(),
{
    Color { r: 0, g: 0, b: 0 }
}

pub open spec fn spec_max2(one: u8, two: u8) -> u8 {
    if one > two {
        one
    } else {
        two
    }
}

pub open spec fn spec_max3(one: u8, two: u8, three: u8) -> u8 {
    spec_max2(one, spec_max2(two, three))
}

/// Larger of two components.
pub fn max2(one: u8, two: u8) -> (r: u8)
    ensures
        r == spec_max2(one, two),
{
    if one > two {
        one
    } else {
        two
    }
}

/// Largest of three components.
pub fn max(one: u8, two: u8, three: u8) -> (r: u8)
    ensures
        r == spec_max3(one, two, three),
{
    max2(one, max2(two, three))
}

/// Which channel `no_pastel` darkens, and to what, as a value.
///
/// The first channel (R, then G, then B) that reaches the maximum decides;
/// its parity picks one *other* channel, which is divided by 3.
pub open spec fn spec_no_pastel(color: Color) -> Color {
    let m = spec_max3(color.r, color.g, color.b);
    if color.r == m {
        if color.r % 2 == 0 {
            Color { r: color.r, g: (color.g / 3) as u8, b: color.b }
        } else {
            Color { r: color.r, g: color.g, b: (color.b / 3) as u8 }
        }
    } else if color.g == m {
        if color.g % 2 == 0 {
            Color { r: (color.r / 3) as u8, g: color.g, b: color.b }
        } else {
            Color { r: color.r, g: color.g, b: (color.b / 3) as u8 }
        }
    } else {
        if color.b % 2 == 0 {
            Color { r: (color.r / 3) as u8, g: color.g, b: color.b }
        } else {
            Color { r: color.r, g: (color.g / 3) as u8, b: color.b }
        }
    }
}

/// Make a pastel color not so pastel by darkening one of its components.
pub fn no_pastel(color: Color) -> (res: Color)
    ensures
        res == spec_no_pastel(color),
        valid_color(color) ==> valid_color(res),
{
    let mut res = color;

    if color.r == max(color.r, color.g, color.b) {
        if color.r % 2 == 0 {
            res.g /= 3;
        } else {
            res.b /= 3;
        }
    } else if color.g == max(color.r, color.g, color.b) {
        if color.g % 2 == 0 {
            res.r /= 3;
        } else {
            res.b /= 3;
        }
    } else {
        if color.b % 2 == 0 {
            res.r /= 3;
        } else {
            res.g /= 3;
        }
    }

    res
}

/// One component multiplied by `numerator / denominator` in widened
/// arithmetic, truncated back to the component's native range.
pub open spec fn spec_scale(component: u8, numerator: u8, denominator: u8) -> u8
    recommends
        denominator > 0,
{
    (((component as int * numerator as int) / (denominator as int)) % 256) as u8
}

pub open spec fn spec_mul_on_ratio(color: Color, numerator: u8, denominator: u8) -> Color
    recommends
        denominator > 0,
{
    Color {
        r: spec_scale(color.r, numerator, denominator),
        g: spec_scale(color.g, numerator, denominator),
        b: spec_scale(color.b, numerator, denominator),
    }
}

/// Scale one component by `numerator / denominator` in widened arithmetic.
pub fn scale(component: u8, numerator: u8, denominator: u8) -> (res: u8)
    requires
        denominator > 0,
    ensures
        res == spec_scale(component, numerator, denominator),
{
    proof {
        assert(component as int * numerator as int <= 255 * 255) by (nonlinear_arith)
            requires
                component as int <= 255,
                numerator as int <= 255,
        ;
    }
    let wide: u16 = component as u16 * numerator as u16 / denominator as u16;
    let res: u8 = #[verifier::truncate] (wide as u8);
    proof {
        assert((wide as u8) as u16 == wide % 256) by (bit_vector);
    }
    res
}

/// Scale every component of a color by `numerator / denominator`.
pub fn mul_on_ratio(color: Color, numerator: u8, denominator: u8) -> (res: Color)
    requires
        denominator > 0,
    ensures
        res == spec_mul_on_ratio(color, numerator, denominator),
{
    Color {
        r: scale(color.r, numerator, denominator),
        g: scale(color.g, numerator, denominator),
        b: scale(color.b, numerator, denominator),
    }
}

/// Capacity of a pattern vector: six times `AMPLITUDE`.
pub const PATTERN_LEN: usize = 48;

/// What a pattern vector holds, first element first.
pub uninterp spec fn pattern_of(v: heapless::Vec<Color, PATTERN_LEN>) -> Seq<Color>;

/// Relies on `heapless::Vec::new`: a new vector is empty.
#[verifier::external_body]
pub(crate) fn pattern_new() -> (v: heapless::Vec<Color, PATTERN_LEN>)
    ensures
        pattern_of(v) == Seq::<Color>::empty(),
{
    heapless::Vec::new()
}

/// Relies on `heapless::Vec::push`: appends the item when the vector holds
/// fewer than `N` elements.
#[verifier::external_body]
pub(crate) fn pattern_push(v: &mut heapless::Vec<Color, PATTERN_LEN>, color: Color)
    requires
        pattern_of(*old(v)).len() < PATTERN_LEN,
    ensures
        pattern_of(*final(v)) == pattern_of(*old(v)).push(color),
{
    let _ = v.push(color);
}

/// Relies on `heapless::Vec`'s deref to a slice: its length.
#[verifier::external_body]
pub(crate) fn pattern_len(v: &heapless::Vec<Color, PATTERN_LEN>) -> (n: usize)
    ensures
        n == pattern_of(*v).len(),
        n <= PATTERN_LEN,
{
    v.len()
}

/// Relies on `heapless::Vec`'s deref to a slice: indexing.
#[verifier::external_body]
pub(crate) fn pattern_get(v: &heapless::Vec<Color, PATTERN_LEN>, index: usize) -> (c: Color)
    requires
        index < pattern_of(*v).len(),
    ensures
        c == pattern_of(*v)[index as int],
{
    v[index]
}

/// What a single-point pattern vector holds.
pub uninterp spec fn point_of(v: heapless::Vec<Color, 1>) -> Seq<Color>;

/// Relies on `heapless::Vec::new`: a new vector is empty.
#[verifier::external_body]
pub(crate) fn point_new() -> (v: heapless::Vec<Color, 1>)
    ensures
        point_of(v) == Seq::<Color>::empty(),
{
    heapless::Vec::new()
}

/// Relies on `heapless::Vec::push`: appends the item when the vector holds
/// fewer than `N` elements.
#[verifier::external_body]
pub(crate) fn point_push(v: &mut heapless::Vec<Color, 1>, color: Color)
    requires
        point_of(*old(v)).len() < 1,
    ensures
        point_of(*final(v)) == point_of(*old(v)).push(color),
{
    let _ = v.push(color);
}

/// Color pattern made of a single point.
pub fn single_point(color: Color) -> (res: heapless::Vec<Color, 1>)
    ensures
        point_of(res) == seq![color],
{
    let mut res = point_new();
    point_push(&mut res, color);
    proof {
        assert(point_of(res) =~= seq![color]);
    }
    res
}

/// A run of fully dark pixels.
pub open spec fn spec_zero_run(n: int) -> Seq<Color> {
    Seq::new(n as nat, |i: int| spec_black())
}

/// The rising half of the envelope: the color scaled by `x / m` for
/// `x` from 1 up to `m`.
pub open spec fn spec_ascending(color: Color, m: u8) -> Seq<Color> {
    Seq::new(m as nat, |i: int| spec_mul_on_ratio(color, (i + 1) as u8, m))
}

/// The falling half of the envelope: the color scaled by `x / m` for
/// `x` from `m` down to 2.
pub open spec fn spec_descending(color: Color, m: u8) -> Seq<Color> {
    if m == 0 {
        Seq::<Color>::empty()
    } else {
        Seq::new((m - 1) as nat, |i: int| spec_mul_on_ratio(color, (m - i) as u8, m))
    }
}

/// The whole brightness envelope around one base color: zero padding of
/// length `2m` on both sides of a triangle wave, where `m` is the color's
/// largest component.  For `m == 0` every part is empty.
pub open spec fn spec_triangle_wave(color: Color) -> Seq<Color> {
    let m = spec_max3(color.r, color.g, color.b);
    spec_zero_run(2 * m) + spec_ascending(color, m) + spec_descending(color, m) + spec_zero_run(
        2 * m,
    )
}

/// Color pattern with brightness changing as a triangle wave.
#[verifier::loop_isolation(false)]
pub fn triangle_wave(color: Color) -> (res: heapless::Vec<Color, PATTERN_LEN>)
    requires
        valid_color(color),
    ensures
        pattern_of(res) == spec_triangle_wave(color),
{
    let mut res = pattern_new();

    let len = max(color.r, color.g, color.b);

    let mut i: u8 = 0;
    while i < 2 * len
        invariant
            i <= 2 * len,
            pattern_of(res) == spec_zero_run(i as int),
        decreases 2 * len - i,
    {
        pattern_push(&mut res, black());
        i = i + 1;
        proof {
            assert(pattern_of(res) =~= spec_zero_run(i as int));
        }
    }

    let mut x: u8 = 1;
    while x <= len
        invariant
            1 <= x <= len + 1,
            pattern_of(res) == spec_zero_run(2 * len) + spec_ascending(color, len).take(x - 1),
        decreases len + 1 - x,
    {
        let value = mul_on_ratio(color, x, len);
        pattern_push(&mut res, value);
        x = x + 1;
        proof {
            assert(pattern_of(res) =~= spec_zero_run(2 * len) + spec_ascending(color, len).take(
                x - 1,
            ));
        }
    }
    proof {
        assert(spec_ascending(color, len).take(x - 1) =~= spec_ascending(color, len));
    }

    let mut x: u8 = len;
    while x >= 2
        invariant
            x <= len,
            len >= 1 ==> x >= 1,
            pattern_of(res) == spec_zero_run(2 * len) + spec_ascending(color, len)
                + spec_descending(color, len).take(len - x),
        decreases x,
    {
        let value = mul_on_ratio(color, x, len);
        pattern_push(&mut res, value);
        x = x - 1;
        proof {
            assert(pattern_of(res) =~= spec_zero_run(2 * len) + spec_ascending(color, len)
                + spec_descending(color, len).take(len - x));
        }
    }
    proof {
        assert(spec_descending(color, len).take(len - x) =~= spec_descending(color, len));
    }

    let mut i: u8 = 0;
    while i < 2 * len
        invariant
            i <= 2 * len,
            pattern_of(res) == spec_zero_run(2 * len) + spec_ascending(color, len)
                + spec_descending(color, len) + spec_zero_run(i as int),
        decreases 2 * len - i,
    {
        pattern_push(&mut res, black());
        i = i + 1;
        proof {
            assert(pattern_of(res) =~= spec_zero_run(2 * len) + spec_ascending(color, len)
                + spec_descending(color, len) + spec_zero_run(i as int));
        }
    }

    res
}

/// Components below `AMPLITUDE` keep their product far below 256.
proof fn lemma_small_product(a: u8, b: u8)
    requires
        a < 8,
        b < 8,
    ensures
        (a as int * b as int) < 256,
{
    assert((a as int * b as int) < 64) by (nonlinear_arith)
        requires
            (a as int) < 8,
            (b as int) < 8,
    ;
}

/// With a product below 256 the widened scaling is plain integer division.
proof fn lemma_scale_small(ch: u8, x: u8, m: u8)
    requires
        0 < m,
        (ch as int * x as int) < 256,
    ensures
        spec_scale(ch, x, m) == (ch as int * x as int) / (m as int),
{
    let p = ch as int * x as int;
    lemma_div_pos_is_pos(p, m as int);
    lemma_div_nonincreasing(p, m as int);
    lemma_small_mod((p / (m as int)) as nat, 256);
}

/// Scaling is monotone in the numerator, channel by channel.
proof fn lemma_scale_mono(ch: u8, x1: u8, x2: u8, m: u8)
    requires
        0 < m,
        x1 <= x2,
        (ch as int * x2 as int) < 256,
    ensures
        spec_scale(ch, x1, m) <= spec_scale(ch, x2, m),
{
    lemma_mul_inequality(x1 as int, x2 as int, ch as int);
    lemma_div_is_ordered(ch as int * x1 as int, ch as int * x2 as int, m as int);
    lemma_scale_small(ch, x1, m);
    lemma_scale_small(ch, x2, m);
}

/// Scaling a valid color by `x / m`, where `m` is its largest component,
/// yields a color whose largest component is exactly `x`.
proof fn lemma_scale_peak(c: Color, x: u8, m: u8)
    requires
        valid_color(c),
        m == spec_max3(c.r, c.g, c.b),
        0 < x <= m,
    ensures
        ({
            let sc = spec_mul_on_ratio(c, x, m);
            spec_max3(sc.r, sc.g, sc.b) == x
        }),
{
    assert forall|ch: u8| ch <= m implies spec_scale(ch, x, m) <= x by {
        lemma_small_product(ch, x);
        lemma_mul_inequality(ch as int, m as int, x as int);
        lemma_div_is_ordered(ch as int * x as int, m as int * x as int, m as int);
        lemma_div_multiples_vanish(x as int, m as int);
        lemma_scale_small(ch, x, m);
    }
    assert(spec_scale(m, x, m) == x) by {
        lemma_small_product(m, x);
        lemma_div_multiples_vanish(x as int, m as int);
        lemma_scale_small(m, x, m);
    }
    assert(c.r == m || c.g == m || c.b == m);
}

/// For a base color with largest component `m > 0` the produced pattern is
/// zero padding of equal length `2m` at both ends around a triangle: a run
/// of length `m` whose envelope rises strictly from 1 to `m`, then a run of
/// length `m - 1` whose envelope falls strictly from `m` back to 2, every
/// channel non-decreasing and then non-increasing over the non-zero region.
pub proof fn lemma_pattern_shape(c: Color)
    requires
        valid_color(c),
        spec_max3(c.r, c.g, c.b) > 0,
    ensures
        ({
            let m = spec_max3(c.r, c.g, c.b) as int;
            let pat = spec_triangle_wave(c);
            &&& pat.len() == 6 * m - 1
            &&& forall|i: int| 0 <= i < 2 * m ==> #[trigger] pat[i] == spec_black()
            &&& forall|i: int| 4 * m - 1 <= i < 6 * m - 1 ==> #[trigger] pat[i] == spec_black()
            &&& forall|i: int|
                0 <= i < m ==> #[trigger] pat[2 * m + i] == spec_mul_on_ratio(
                    c,
                    (i + 1) as u8,
                    (m as u8),
                )
            &&& forall|i: int|
                0 <= i < m - 1 ==> #[trigger] pat[3 * m + i] == spec_mul_on_ratio(
                    c,
                    (m - i) as u8,
                    (m as u8),
                )
            &&& forall|i: int|
                0 <= i < m ==> spec_max3(
                    #[trigger] pat[2 * m + i].r,
                    pat[2 * m + i].g,
                    pat[2 * m + i].b,
                ) == i + 1
            &&& forall|i: int|
                0 <= i < m - 1 ==> spec_max3(
                    #[trigger] pat[3 * m + i].r,
                    pat[3 * m + i].g,
                    pat[3 * m + i].b,
                ) == m - i
            &&& forall|i: int|
                2 * m <= i < 3 * m - 1 ==> ((#[trigger] pat[i]).r <= pat[i + 1].r && pat[i].g
                    <= pat[i + 1].g && pat[i].b <= pat[i + 1].b)
            &&& forall|i: int|
                3 * m - 1 <= i < 4 * m - 2 ==> ((#[trigger] pat[i]).r >= pat[i + 1].r && pat[i].g
                    >= pat[i + 1].g && pat[i].b >= pat[i + 1].b)
        }),
{
    let mu = spec_max3(c.r, c.g, c.b);
    let m = mu as int;
    let pat = spec_triangle_wave(c);
    assert(pat.len() == 6 * m - 1);
    assert forall|i: int| 0 <= i < m implies spec_max3(
        #[trigger] pat[2 * m + i].r,
        pat[2 * m + i].g,
        pat[2 * m + i].b,
    ) == i + 1 by {
        assert(pat[2 * m + i] == spec_mul_on_ratio(c, (i + 1) as u8, mu));
        lemma_scale_peak(c, (i + 1) as u8, mu);
    }
    assert forall|i: int| 0 <= i < m - 1 implies spec_max3(
        #[trigger] pat[3 * m + i].r,
        pat[3 * m + i].g,
        pat[3 * m + i].b,
    ) == m - i by {
        assert(pat[3 * m + i] == spec_mul_on_ratio(c, (m - i) as u8, mu));
        lemma_scale_peak(c, (m - i) as u8, mu);
    }
    assert forall|i: int| 2 * m <= i < 3 * m - 1 implies ((#[trigger] pat[i]).r <= pat[i + 1].r
        && pat[i].g <= pat[i + 1].g && pat[i].b <= pat[i + 1].b) by {
        let x1 = (i - 2 * m + 1) as u8;
        let x2 = (i - 2 * m + 2) as u8;
        assert(pat[i] == spec_mul_on_ratio(c, x1, mu));
        assert(pat[i + 1] == spec_mul_on_ratio(c, x2, mu));
        lemma_small_product(c.r, x2);
        lemma_small_product(c.g, x2);
        lemma_small_product(c.b, x2);
        lemma_scale_mono(c.r, x1, x2, mu);
        lemma_scale_mono(c.g, x1, x2, mu);
        lemma_scale_mono(c.b, x1, x2, mu);
    }
    assert forall|i: int| 3 * m - 1 <= i < 4 * m - 2 implies ((#[trigger] pat[i]).r >= pat[i + 1].r
        && pat[i].g >= pat[i + 1].g && pat[i].b >= pat[i + 1].b) by {
        let x1 = if i == 3 * m - 1 {
            mu
        } else {
            (m - (i - 3 * m)) as u8
        };
        let x2 = (m - (i + 1 - 3 * m)) as u8;
        assert(pat[i] == spec_mul_on_ratio(c, x1, mu));
        assert(pat[i + 1] == spec_mul_on_ratio(c, x2, mu));
        lemma_small_product(c.r, x1);
        lemma_small_product(c.g, x1);
        lemma_small_product(c.b, x1);
        lemma_scale_mono(c.r, x2, x1, mu);
        lemma_scale_mono(c.g, x2, x1, mu);
        lemma_scale_mono(c.b, x2, x1, mu);
    }
}

/// For the fully black color the produced pattern is empty.
pub proof fn lemma_pattern_degenerate(c: Color)
    requires
        spec_max3(c.r, c.g, c.b) == 0,
    ensures
        spec_triangle_wave(c).len() == 0,
{
}

/// Pastel correction touches exactly the channel that the max-channel table
/// picks: for each of the six (max channel, parity) branches, that one other
/// channel becomes its old value divided by 3 and the two remaining channels
/// are unchanged.
pub proof fn lemma_no_pastel_branches(c: Color)
    ensures
        ({
            let m = spec_max3(c.r, c.g, c.b);
            let res = spec_no_pastel(c);
            &&& (c.r == m && c.r % 2 == 0 ==> res.r == c.r && res.g == c.g / 3 && res.b == c.b)
            &&& (c.r == m && c.r % 2 == 1 ==> res.r == c.r && res.g == c.g && res.b == c.b / 3)
            &&& (c.r != m && c.g == m && c.g % 2 == 0 ==> res.r == c.r / 3 && res.g == c.g
                && res.b == c.b)
            &&& (c.r != m && c.g == m && c.g % 2 == 1 ==> res.r == c.r && res.g == c.g
                && res.b == c.b / 3)
            &&& (c.r != m && c.g != m && c.b % 2 == 0 ==> res.r == c.r / 3 && res.g == c.g
                && res.b == c.b)
            &&& (c.r != m && c.g != m && c.b % 2 == 1 ==> res.r == c.r && res.g == c.g / 3
                && res.b == c.b)
        }),
{
}

} // verus!
