//! One quota bar: a glass track, its fill, and the percentage in it.

use vstd::prelude::*;

use crate::color::{
    blue_of, color, dim_color, dimmed, green_of, lighten_color, lightened, red_of, rgb,
};
use crate::overlay::Rect;
use crate::percent::{
    clamped, larger, max_of, min_of, nearest_even, nearest_up, round_half_even,
    round_half_up, smaller, Ratio,
};
use crate::text::{decimal, push_decimal};

verus! {

/// The fill of a bar.
#[derive(Clone, Copy, Debug, PartialEq, Eq, Structural)]
pub struct BarFill {
    pub body: Rect,
    pub glint: Rect,
    pub shadow: Rect,
    /// The mark at the edge of the fill when little is left.
    pub marker: Option<Rect>,
}

/// The parts of a bar.
#[derive(Clone, Copy, Debug, PartialEq, Eq, Structural)]
pub struct QuotaBar {
    pub outer_corner: i64,
    pub inner: Rect,
    pub inner_corner: i64,
    pub upper_pane: Rect,
    pub glass_glint: Option<Rect>,
    pub glass_shadow: Option<Rect>,
    pub fill: Option<BarFill>,
    /// Where the shadow of the label goes.
    pub label_shadow: Rect,
}

/// The colors of a bar.
#[derive(Clone, Copy, Debug, PartialEq, Eq, Structural)]
pub struct BarColors {
    pub rim: u32,
    pub track: u32,
    pub upper_pane: u32,
    pub glass_glint: u32,
    pub glass_shadow: u32,
    pub fill: u32,
    pub fill_glint: u32,
    pub fill_shadow: u32,
    pub marker: u32,
    pub label_shadow: u32,
    pub label: u32,
}

/// A color dimmed in all of its parts.
pub open spec fn dimmed_color(c: u32, percent: int) -> int {
    color(
        dimmed(red_of(c as int), percent),
        dimmed(green_of(c as int), percent),
        dimmed(blue_of(c as int), percent),
    )
}

/// A color lightened in all of its parts.
pub open spec fn lightened_color(c: u32, percent: int) -> int {
    color(
        lightened(red_of(c as int), percent),
        lightened(green_of(c as int), percent),
        lightened(blue_of(c as int), percent),
    )
}

/// The colors of a bar with the given accent.
pub fn bar_colors(accent: u32) -> (r: BarColors)
    ensures
        r.rim == color(112, 122, 142),
        r.track == color(29, 34, 42),
        r.upper_pane == color(45, 52, 64),
        r.glass_glint == color(134, 145, 166),
        r.glass_shadow == color(19, 23, 29),
        r.fill == dimmed_color(accent, 92),
        r.fill_glint == lightened_color(accent, 34),
        r.fill_shadow == dimmed_color(accent, 54),
        r.marker == lightened_color(accent, 58),
        r.label_shadow == color(9, 11, 15),
        r.label == color(250, 252, 255),
{
    BarColors {
        rim: rgb(112, 122, 142),
        track: rgb(29, 34, 42),
        upper_pane: rgb(45, 52, 64),
        glass_glint: rgb(134, 145, 166),
        glass_shadow: rgb(19, 23, 29),
        fill: dim_color(accent, 92),
        fill_glint: lighten_color(accent, 34),
        fill_shadow: dim_color(accent, 54),
        marker: lighten_color(accent, 58),
        label_shadow: rgb(9, 11, 15),
        label: rgb(250, 252, 255),
    }
}

/// The diameter of the rounded corners of a bar of a given height.
pub open spec fn corner_diameter(height: int) -> int {
    clamped(height * 2 / 3, 6, larger(height, 6))
}

/// The diameter of the rounded corners of a bar of a given height.
pub fn glass_corner_diameter(height: i64) -> (r: i64)
    ensures
        r == corner_diameter(height as int),
{
    if height < 9 {
        6
    } else {
        (height as i128 * 2 / 3) as i64
    }
}

/// How much of a bar's width is filled: the part that is left, to the nearest dot.
pub open spec fn fill_width(width: int, part: Ratio) -> int {
    if width <= 0 || part.numerator == 0 {
        0
    } else {
        nearest_up(
            width * smaller(part.numerator as int, part.denominator as int),
            part.denominator as int,
        )
    }
}

/// How much of a bar's width is filled.
pub fn quota_fill_width(width: i64, part: Ratio) -> (r: i64)
    requires
        part.denominator > 0,
    ensures
        r == fill_width(width as int, part),
        0 <= r,
        width > 0 ==> r <= width,
{
    if width <= 0 || part.numerator == 0 {
        return 0;
    }
    let top: u64 = if part.numerator < part.denominator {
        part.numerator
    } else {
        part.denominator
    };
    proof {
        lemma_fill_in_range(width as int, top as int, part.denominator as int);
    }
    let product: u128 = width as u128 * top as u128;
    round_half_up(product, part.denominator as u128) as i64
}

proof fn lemma_fill_in_range(width: int, top: int, whole: int)
    requires
        0 < width <= i64::MAX,
        0 <= top <= whole <= u64::MAX,
        0 < whole,
    ensures
        0 <= width * top <= i64::MAX * u64::MAX,
        0 <= width * top / whole <= width,
        0 <= nearest_up(width * top, whole) <= width,
        top == whole ==> nearest_up(width * top, whole) == width,
{
    assert(0 <= width * top <= width * whole) by (nonlinear_arith)
        requires
            0 < width,
            0 <= top <= whole,
    ;
    assert(width * whole <= i64::MAX * u64::MAX) by (nonlinear_arith)
        requires
            0 < width <= i64::MAX,
            0 < whole <= u64::MAX,
    ;
    let product = width * top;
    vstd::arithmetic::div_mod::lemma_fundamental_div_mod(product, whole);
    let q = product / whole;
    let r = product % whole;
    assert(0 <= q <= width && (q == width ==> r == 0)) by (nonlinear_arith)
        requires
            product == whole * q + r,
            0 <= r < whole,
            0 <= product <= width * whole,
            whole > 0,
    ;
    if top == whole {
        assert(q == width) by (nonlinear_arith)
            requires
                product == whole * q + r,
                0 <= r < whole,
                product == width * whole,
                whole > 0,
        ;
    }
}

/// Whether so little is left that the edge of the fill is marked: less than twelve
/// percent, but not nothing.
pub open spec fn is_low(part: Ratio) -> bool {
    0 < part.numerator && part.numerator * 100 < part.denominator * 12
}

/// The inside of a bar's rim.
pub open spec fn inner_of(rect: Rect) -> Rect {
    Rect {
        left: (rect.left + 1) as i64,
        top: (rect.top + 1) as i64,
        right: (rect.right - 1) as i64,
        bottom: (rect.bottom - 1) as i64,
    }
}

/// A rectangle, if it holds anything.
pub open spec fn visible_part(left: int, top: int, right: int, bottom: int) -> Option<Rect> {
    if left < right && top < bottom {
        Some(Rect { left: left as i64, top: top as i64, right: right as i64, bottom: bottom as i64 })
    } else {
        None
    }
}

/// The mark at the edge of a fill: it sits on the edge itself.
pub open spec fn marker_of(inner: Rect, fill_right: int) -> Option<Rect> {
    let x = larger(fill_right - 1, inner.left as int);
    visible_part(x, inner.top + 2, smaller(x + 2, inner.right as int), inner.bottom - 2)
}

/// The fill of a bar, if there is any.
pub open spec fn fill_of(inner: Rect, part: Ratio) -> Option<BarFill> {
    let width = fill_width(larger(inner.right - inner.left, 0), part);
    if width <= 0 {
        None
    } else {
        let right = smaller(inner.left + width, inner.right as int);
        Some(
            BarFill {
                body: Rect { right: right as i64, ..inner },
                glint: Rect {
                    right: right as i64,
                    bottom: smaller(inner.top + 3, inner.bottom as int) as i64,
                    ..inner
                },
                shadow: Rect {
                    right: right as i64,
                    top: larger(inner.bottom - 3, inner.top as int) as i64,
                    ..inner
                },
                marker: if is_low(part) {
                    marker_of(inner, right)
                } else {
                    None
                },
            },
        )
    }
}

/// The parts of a bar in a rectangle.
pub open spec fn bar_of(rect: Rect, part: Ratio) -> QuotaBar {
    let inner = inner_of(rect);
    let height = larger(inner.bottom - inner.top, 1);
    QuotaBar {
        outer_corner: corner_diameter(rect.bottom - rect.top) as i64,
        inner,
        inner_corner: corner_diameter(height) as i64,
        upper_pane: Rect {
            bottom: smaller(inner.top + larger(height / 2, 3), inner.bottom as int) as i64,
            ..inner
        },
        glass_glint: visible_part(
            inner.left + 3,
            inner.top + 1,
            inner.right - 3,
            smaller(inner.top + 2, inner.bottom as int),
        ),
        glass_shadow: visible_part(
            inner.left + 2,
            larger(inner.bottom - 3, inner.top as int),
            inner.right - 2,
            inner.bottom as int,
        ),
        fill: fill_of(inner, part),
        label_shadow: Rect {
            top: (rect.top + 1) as i64,
            bottom: (rect.bottom + 1) as i64,
            ..rect
        },
    }
}

fn if_visible(left: i64, top: i64, right: i64, bottom: i64) -> (r: Option<Rect>)
    ensures
        r == visible_part(left as int, top as int, right as int, bottom as int),
{
    if left < right && top < bottom {
        Some(Rect { left, top, right, bottom })
    } else {
        None
    }
}

fn fill_part(inner: &Rect, part: Ratio) -> (r: Option<BarFill>)
    requires
        -0x200_0000_0000 <= inner.left <= 0x200_0000_0000,
        -0x200_0000_0000 <= inner.top <= 0x200_0000_0000,
        -0x200_0000_0000 <= inner.right <= 0x200_0000_0000,
        -0x200_0000_0000 <= inner.bottom <= 0x200_0000_0000,
        part.denominator > 0,
    ensures
        r == fill_of(*inner, part),
{
    let width = quota_fill_width(max_of(inner.right - inner.left, 0), part);
    if width <= 0 {
        return None;
    }
    let right = min_of(inner.left + width, inner.right);
    let low = 0 < part.numerator && (part.numerator as u128) * 100 < (part.denominator as u128)
        * 12;
    let marker = if low {
        let x = max_of(right - 1, inner.left);
        if_visible(x, inner.top + 2, min_of(x + 2, inner.right), inner.bottom - 2)
    } else {
        None
    };
    Some(
        BarFill {
            body: Rect { left: inner.left, top: inner.top, right, bottom: inner.bottom },
            glint: Rect {
                left: inner.left,
                top: inner.top,
                right,
                bottom: min_of(inner.top + 3, inner.bottom),
            },
            shadow: Rect {
                left: inner.left,
                top: max_of(inner.bottom - 3, inner.top),
                right,
                bottom: inner.bottom,
            },
            marker,
        },
    )
}

/// The parts of a bar in a rectangle, where the rectangle holds anything.
pub fn quota_bar(rect: &Rect, part: Ratio) -> (r: Option<QuotaBar>)
    requires
        rect.modest(),
        part.denominator > 0,
    ensures
        r == if rect.has_area() {
            Some(bar_of(*rect, part))
        } else {
            None
        },
{
    let width = rect.right - rect.left;
    let height = rect.bottom - rect.top;
    if width <= 0 || height <= 0 {
        return None;
    }
    let inner = Rect {
        left: rect.left + 1,
        top: rect.top + 1,
        right: rect.right - 1,
        bottom: rect.bottom - 1,
    };
    let inner_height = max_of(inner.bottom - inner.top, 1);
    Some(
        QuotaBar {
            outer_corner: glass_corner_diameter(height),
            inner,
            inner_corner: glass_corner_diameter(inner_height),
            upper_pane: Rect {
                left: inner.left,
                top: inner.top,
                right: inner.right,
                bottom: min_of(inner.top + max_of(inner_height / 2, 3), inner.bottom),
            },
            glass_glint: if_visible(
                inner.left + 3,
                inner.top + 1,
                inner.right - 3,
                min_of(inner.top + 2, inner.bottom),
            ),
            glass_shadow: if_visible(
                inner.left + 2,
                max_of(inner.bottom - 3, inner.top),
                inner.right - 2,
                inner.bottom,
            ),
            fill: fill_part(&inner, part),
            label_shadow: Rect {
                left: rect.left,
                top: rect.top + 1,
                right: rect.right,
                bottom: rect.bottom + 1,
            },
        },
    )
}

/// A rectangle of one color.
#[derive(Clone, Copy, Debug, PartialEq, Eq, Structural)]
pub struct Patch {
    pub rect: Rect,
    pub color: u32,
}

/// A patch where there is a rectangle for it.
pub open spec fn patch_if(rect: Option<Rect>, color: u32) -> Seq<Patch> {
    match rect {
        Some(rect) => seq![Patch { rect, color }],
        None => seq![],
    }
}

impl QuotaBar {
    /// What is painted on the track, each over the ones before: the glass, the fill on it,
    /// and the mark on the fill.
    pub open spec fn patches(self, colors: BarColors) -> Seq<Patch> {
        let glass = seq![Patch { rect: self.upper_pane, color: colors.upper_pane }] + patch_if(
            self.glass_glint,
            colors.glass_glint,
        ) + patch_if(self.glass_shadow, colors.glass_shadow);
        match self.fill {
            Some(fill) => glass + seq![
                Patch { rect: fill.body, color: colors.fill },
                Patch { rect: fill.glint, color: colors.fill_glint },
                Patch { rect: fill.shadow, color: colors.fill_shadow },
            ] + patch_if(fill.marker, colors.marker),
            None => glass,
        }
    }

    /// What is painted on the track, in its order.
    pub fn paint_order(&self, colors: &BarColors) -> (r: Vec<Patch>)
        ensures
            r@ == self.patches(*colors),
    {
        let mut out: Vec<Patch> = Vec::new();
        out.push(Patch { rect: self.upper_pane, color: colors.upper_pane });
        push_if(&mut out, self.glass_glint, colors.glass_glint);
        push_if(&mut out, self.glass_shadow, colors.glass_shadow);
        if let Some(fill) = self.fill {
            out.push(Patch { rect: fill.body, color: colors.fill });
            out.push(Patch { rect: fill.glint, color: colors.fill_glint });
            out.push(Patch { rect: fill.shadow, color: colors.fill_shadow });
            push_if(&mut out, fill.marker, colors.marker);
        }
        assert(out@ =~= self.patches(*colors));
        out
    }
}

fn push_if(out: &mut Vec<Patch>, rect: Option<Rect>, color: u32)
    ensures
        final(out)@ == old(out)@ + patch_if(rect, color),
{
    if let Some(rect) = rect {
        out.push(Patch { rect, color });
    }
    assert(out@ =~= old(out)@ + patch_if(rect, color));
}

/// The percentage that is left, in whole percent and at most one hundred, halves to
/// even.
pub open spec fn percent_words(part: Ratio) -> Seq<char> {
    decimal(
        nearest_even(
            100 * smaller(part.numerator as int, part.denominator as int),
            part.denominator as int,
        ) as nat,
    ) + "%"@
}

/// The label of a bar.
pub fn percent_label(part: Ratio) -> (r: String)
    requires
        part.denominator > 0,
    ensures
        r@ == percent_words(part),
{
    let top: u64 = if part.numerator < part.denominator {
        part.numerator
    } else {
        part.denominator
    };
    let product: u128 = 100 * top as u128;
    proof {
        lemma_fill_in_range(100, top as int, part.denominator as int);
    }
    let percent = round_half_even(product, part.denominator as u128);
    let mut label = String::new();
    push_decimal(&mut label, percent as u64);
    label.append("%");
    assert(label@ =~= percent_words(part));
    label
}

/// The region that a rounded rectangle covers: its edges at the right and the bottom
/// are counted in. A rectangle that holds nothing covers nothing.
pub fn round_region(rect: &Rect) -> (r: Option<Rect>)
    requires
        rect.right < i64::MAX,
        rect.bottom < i64::MAX,
    ensures
        r == if rect.has_area() {
            Some(
                Rect { right: (rect.right + 1) as i64, bottom: (rect.bottom + 1) as i64, ..*rect },
            )
        } else {
            None
        },
{
    if rect.right <= rect.left || rect.bottom <= rect.top {
        None
    } else {
        Some(
            Rect {
                left: rect.left,
                top: rect.top,
                right: rect.right + 1,
                bottom: rect.bottom + 1,
            },
        )
    }
}

/// The fill shows the true part: it is never wider than the track, it fills the track
/// exactly when everything is left, and less quota never gives a wider fill.
pub proof fn law_the_fill_shows_the_true_part(width: int, part: Ratio, less: Ratio)
    requires
        0 < width <= i64::MAX,
        0 < part.denominator,
        less.denominator == part.denominator,
        less.numerator <= part.numerator,
    ensures
        0 <= fill_width(width, part) <= width,
        part.numerator >= part.denominator ==> fill_width(width, part) == width,
        part.numerator == 0 ==> fill_width(width, part) == 0,
        fill_width(width, less) <= fill_width(width, part),
{
    let d = part.denominator as int;
    let a = smaller(less.numerator as int, d);
    let b = smaller(part.numerator as int, d);
    lemma_fill_in_range(width, a, d);
    lemma_fill_in_range(width, b, d);
    assert(width * a <= width * b) by (nonlinear_arith)
        requires
            0 < width,
            a <= b,
    ;
    lemma_rounding_keeps_order(width * a, width * b, d);
}

proof fn lemma_rounding_keeps_order(x: int, y: int, d: int)
    requires
        0 <= x <= y,
        d > 0,
    ensures
        nearest_up(x, d) <= nearest_up(y, d),
{
    vstd::arithmetic::div_mod::lemma_fundamental_div_mod(x, d);
    vstd::arithmetic::div_mod::lemma_fundamental_div_mod(y, d);
    let (p, q, r, s) = (x / d, y / d, x % d, y % d);
    assert(p <= q && (p == q ==> r <= s)) by (nonlinear_arith)
        requires
            x == d * p + r,
            y == d * q + s,
            0 <= r < d,
            0 <= s < d,
            x <= y,
            d > 0,
    ;
}

/// Every part of a bar that is painted lies inside of the bar.
pub proof fn law_a_bar_is_painted_inside_of_its_rectangle(rect: Rect, part: Ratio)
    requires
        rect.modest(),
        rect.right - rect.left >= 2,
        rect.bottom - rect.top >= 2,
        part.denominator > 0,
    ensures
        ({
            let b = bar_of(rect, part);
            &&& b.inner.inside(rect)
            &&& b.upper_pane.inside(b.inner)
            &&& b.glass_glint matches Some(r) ==> r.inside(b.inner)
            &&& b.glass_shadow matches Some(r) ==> r.inside(b.inner)
            &&& b.fill matches Some(fill) ==> {
                &&& fill.body.inside(b.inner)
                &&& fill.glint.inside(fill.body)
                &&& fill.shadow.inside(fill.body)
                &&& fill.marker matches Some(r) ==> r.inside(b.inner)
            }
        }),
{
    let inner = inner_of(rect);
    let width = larger(inner.right - inner.left, 0);
    if width > 0 {
        lemma_fill_in_range(
            width,
            smaller(part.numerator as int, part.denominator as int),
            part.denominator as int,
        );
    }
}

/// The mark for a low quota sits on the true edge of the fill and is only painted when
/// something, but less than twelve percent, is left.
pub proof fn law_the_marker_sits_on_the_fill_edge(rect: Rect, part: Ratio, fill: BarFill, mark: Rect)
    requires
        rect.modest(),
        part.denominator > 0,
        bar_of(rect, part).fill == Some(fill),
        fill.marker == Some(mark),
    ensures
        is_low(part),
        mark.left == fill.body.right - 1,
        fill.body.right - fill.body.left == fill_width(
            inner_of(rect).right - inner_of(rect).left,
            part,
        ),
{
    let inner = inner_of(rect);
    let width = larger(inner.right - inner.left, 0);
    if width > 0 {
        lemma_fill_in_range(
            width,
            smaller(part.numerator as int, part.denominator as int),
            part.denominator as int,
        );
    }
}

/// The label of a bar is the whole percentage nearest to the part that is left, from the
/// middle between two the even one, and a percent sign; more than all counts as all.
pub proof fn law_the_label_is_the_nearest_percentage(part: Ratio) -> (p: int)
    requires
        0 < part.denominator,
    ensures
        0 <= p <= 100,
        percent_words(part) == decimal(p as nat) + "%"@,
        part.numerator <= part.denominator ==> {
            let off = 100 * part.numerator - p * part.denominator;
            &&& -part.denominator <= 2 * off <= part.denominator
            &&& 2 * off == part.denominator || 2 * off == -part.denominator ==> p % 2 == 0
        },
        part.numerator >= part.denominator ==> p == 100,
{
    let d = part.denominator as int;
    let top = if part.numerator < part.denominator {
        part.numerator as int
    } else {
        d
    };
    let p = nearest_even(100 * top, d);
    crate::percent::law_rounding_goes_to_the_nearest(100 * top, d);
    lemma_fill_in_range(100, top, d);
    if part.numerator >= part.denominator {
        assert(p == 100) by (nonlinear_arith)
            requires
                -d <= 2 * (100 * d - p * d) <= d,
                d > 0,
        ;
    }
    assert(0 <= p <= 100) by (nonlinear_arith)
        requires
            -d <= 2 * (100 * top - p * d) <= d,
            0 <= top <= d,
            d > 0,
    ;
    p
}

/// The fill takes the nearest whole number of dots to its part of the width, from the
/// middle between two the larger one.
pub proof fn law_the_fill_is_the_nearest_number_of_dots(width: int, part: Ratio)
    requires
        0 < part.denominator,
    ensures
        ({
            let r = fill_width(width, part);
            let off = width * part.numerator - r * part.denominator;
            &&& width <= 0 ==> r == 0
            &&& width > 0 && part.numerator <= part.denominator ==> -part.denominator <= 2 * off
                < part.denominator
            &&& width > 0 && part.numerator >= part.denominator ==> r == width
        }),
{
    if width > 0 {
        let d = part.denominator as int;
        let top = if part.numerator < part.denominator {
            part.numerator as int
        } else {
            d
        };
        crate::percent::law_rounding_goes_to_the_nearest(width * top, d);
        assert(width * 0 == 0 && 0 * d == 0);
        if part.numerator >= part.denominator {
            let r = fill_width(width, part);
            assert(r == width) by (nonlinear_arith)
                requires
                    -d <= 2 * (width * d - r * d) < d,
                    d > 0,
            ;
        }
    }
}

/// Corners are two thirds of the height, rounded down, and never less than six dots.
pub proof fn law_corners_are_two_thirds_of_the_height(height: int)
    ensures
        height < 9 ==> corner_diameter(height) == 6,
        height >= 9 ==> 3 * corner_diameter(height) <= 2 * height < 3 * (corner_diameter(height)
            + 1),
{
}

/// The parts of a bar, dot by dot: the rim is one dot wide; the upper pane takes half of the
/// inside and at least three rows; the glint is the second row without three dots at each
/// end; the shadow takes the last three rows without two dots at each end; the shadow of
/// the label is one row lower than the bar.
pub proof fn law_the_glass_of_a_bar(rect: Rect, part: Ratio)
    requires
        rect.modest(),
        rect.left < rect.right,
        rect.top < rect.bottom,
        0 < part.denominator,
    ensures
        ({
            let bar = bar_of(rect, part);
            let inner = bar.inner;
            let rows = inner.bottom - inner.top;
            let pane = bar.upper_pane.bottom - bar.upper_pane.top;
            &&& inner.left == rect.left + 1
            &&& inner.top == rect.top + 1
            &&& inner.right == rect.right - 1
            &&& inner.bottom == rect.bottom - 1
            &&& bar.outer_corner == corner_diameter(rect.bottom - rect.top)
            &&& bar.inner_corner == corner_diameter(rows)
            &&& bar.upper_pane.left == inner.left
            &&& bar.upper_pane.top == inner.top
            &&& bar.upper_pane.right == inner.right
            &&& rows >= 6 ==> 2 * pane <= rows < 2 * (pane + 1)
            &&& 3 <= rows < 6 ==> pane == 3
            &&& rows < 3 ==> pane == rows
            &&& bar.glass_glint is Some <==> inner.right - inner.left > 6 && rows >= 2
            &&& bar.glass_glint matches Some(g) ==> g.left == inner.left + 3 && g.right
                == inner.right - 3 && g.top == inner.top + 1 && g.bottom == inner.top + 2
            &&& bar.glass_shadow is Some <==> inner.right - inner.left > 4 && rows >= 1
            &&& bar.glass_shadow matches Some(g) ==> {
                &&& g.left == inner.left + 2
                &&& g.right == inner.right - 2
                &&& g.bottom == inner.bottom
                &&& rows >= 3 ==> g.top == inner.bottom - 3
                &&& rows < 3 ==> g.top == inner.top
            }
            &&& bar.label_shadow.left == rect.left
            &&& bar.label_shadow.right == rect.right
            &&& bar.label_shadow.top == rect.top + 1
            &&& bar.label_shadow.bottom == rect.bottom + 1
        }),
{
}

/// The fill of a bar, dot by dot: it starts at the left of the inside and is as wide as the
/// part that is left; its glint takes the first three rows and its shadow the last three.
/// A mark of up to two dots stands on its last column exactly when less than twelve percent,
/// but not nothing, is left and there are more than four rows.
pub proof fn law_the_fill_of_a_bar(rect: Rect, part: Ratio)
    requires
        rect.modest(),
        rect.left < rect.right,
        rect.top < rect.bottom,
        0 < part.denominator,
    ensures
        ({
            let bar = bar_of(rect, part);
            let inner = bar.inner;
            let rows = inner.bottom - inner.top;
            let width = fill_width(inner.right - inner.left, part);
            &&& bar.fill is Some <==> width > 0
            &&& bar.fill matches Some(f) ==> {
                &&& f.body.left == inner.left
                &&& f.body.top == inner.top
                &&& f.body.bottom == inner.bottom
                &&& f.body.right == inner.left + width
                &&& f.glint.left == inner.left
                &&& f.glint.top == inner.top
                &&& f.glint.right == f.body.right
                &&& rows >= 3 ==> f.glint.bottom == inner.top + 3 && f.shadow.top == inner.bottom
                    - 3
                &&& rows < 3 ==> f.glint.bottom == inner.bottom && f.shadow.top == inner.top
                &&& f.shadow.left == inner.left
                &&& f.shadow.right == f.body.right
                &&& f.shadow.bottom == inner.bottom
                &&& f.marker is Some <==> 100 * part.numerator < 12 * part.denominator && rows > 4
                &&& f.marker matches Some(m) ==> {
                    &&& m.left == f.body.right - 1
                    &&& m.top == inner.top + 2
                    &&& m.bottom == inner.bottom - 2
                    &&& f.body.right < inner.right ==> m.right == f.body.right + 1
                    &&& f.body.right == inner.right ==> m.right == inner.right
                }
            }
        }),
{
    let inner = inner_of(rect);
    let width = inner.right - inner.left;
    if width > 0 {
        lemma_fill_in_range(
            width,
            smaller(part.numerator as int, part.denominator as int),
            part.denominator as int,
        );
    }
}

/// Every part of a bar is painted once, in its own color: the pane first, the glass next,
/// then the fill with its glint and its shadow, and the mark last.
pub proof fn law_parts_are_painted_in_their_colors(bar: QuotaBar, colors: BarColors)
    ensures
        ({
            let all = bar.patches(colors);
            let glint: int = if bar.glass_glint is Some {
                1
            } else {
                0
            };
            let shadow: int = if bar.glass_shadow is Some {
                1
            } else {
                0
            };
            let at = 1 + glint + shadow;
            &&& all[0] == (Patch { rect: bar.upper_pane, color: colors.upper_pane })
            &&& bar.glass_glint matches Some(r) ==> all[1] == (Patch {
                rect: r,
                color: colors.glass_glint,
            })
            &&& bar.glass_shadow matches Some(r) ==> all[1 + glint] == (Patch {
                rect: r,
                color: colors.glass_shadow,
            })
            &&& bar.fill is None ==> all.len() == at
            &&& bar.fill matches Some(f) ==> {
                &&& all[at] == (Patch { rect: f.body, color: colors.fill })
                &&& all[at + 1] == (Patch { rect: f.glint, color: colors.fill_glint })
                &&& all[at + 2] == (Patch { rect: f.shadow, color: colors.fill_shadow })
                &&& f.marker is None ==> all.len() == at + 3
                &&& f.marker matches Some(r) ==> all.len() == at + 4 && all[at + 3] == (Patch {
                    rect: r,
                    color: colors.marker,
                })
            }
        }),
{
}

/// The fill and its edges take the accent, each part of it dimmed or lightened by its own
/// percentage.
pub proof fn law_fills_take_the_accent(accent: u32, percent: int)
    ensures
        dimmed_color(accent, percent) == dimmed(accent as int % 256, percent) + 256 * dimmed(
            accent as int / 256 % 256,
            percent,
        ) + 65_536 * dimmed(accent as int / 65_536 % 256, percent),
        lightened_color(accent, percent) == lightened(accent as int % 256, percent) + 256
            * lightened(accent as int / 256 % 256, percent) + 65_536 * lightened(
            accent as int / 65_536 % 256,
            percent,
        ),
{
}

} // verus!
