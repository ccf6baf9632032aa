//! The chart geometry engine: a pure map from a candlestick series and a
//! viewport to an ordered list of draw primitives.
//!
//! Coordinates are exact. A [`Fraction`] is a quotient of two integers, so
//! nothing is rounded here; whoever draws the primitives decides how a
//! quotient becomes a pixel position. The vertical axis points down: a
//! higher price has a smaller `y`.

use crate::data_format::Candlestick;
use vstd::prelude::*;

verus! {

/// The exact quotient `num / den`. No fraction that this module hands out
/// has a zero denominator, and on a series whose bars keep the price order
/// every denominator is positive.
#[derive(Clone, Copy, Debug, PartialEq, Eq, Structural)]
pub struct Fraction {
    pub num: i128,
    pub den: i128,
}

/// A position on the canvas.
#[derive(Clone, Copy, Debug, PartialEq, Eq, Structural)]
pub struct Point {
    pub x: Fraction,
    pub y: Fraction,
}

/// An extent on the canvas.
#[derive(Clone, Copy, Debug, PartialEq, Eq, Structural)]
pub struct Size {
    pub width: Fraction,
    pub height: Fraction,
}

/// An opaque colour, eight bits per channel.
#[derive(Clone, Copy, Debug, PartialEq, Eq, Structural)]
pub struct Color {
    pub r: u8,
    pub g: u8,
    pub b: u8,
}

/// How the ends of a stroked line are drawn.
#[derive(Clone, Copy, Debug, PartialEq, Eq, Structural)]
pub enum LineCap {
    Butt,
    Round,
    Square,
}

/// How an outline is drawn: its width in canvas units, its cap and colour.
#[derive(Clone, Copy, Debug, PartialEq, Eq, Structural)]
pub struct Stroke {
    pub width: u32,
    pub cap: LineCap,
    pub color: Color,
}

/// One thing to draw. A value of its own: it keeps nothing of the series it
/// was computed from.
#[derive(Clone, Copy, Debug, PartialEq, Eq, Structural)]
pub enum DrawPrimitive {
    /// A stroked segment.
    Line { from: Point, to: Point, stroke: Stroke },
    /// A rectangle filled with `fill` and then outlined with `outline`.
    FilledRect { origin: Point, size: Size, fill: Color, outline: Stroke },
    /// A rectangle that is outlined only.
    StrokedRect { origin: Point, size: Size, stroke: Stroke },
}

/// The size of the canvas, in canvas units.
#[derive(Clone, Copy, Debug, PartialEq, Eq, Structural)]
pub struct Viewport {
    pub width: u32,
    pub height: u32,
}

impl Fraction {
    /// The fraction has a positive denominator.
    pub open spec fn well_formed(self) -> bool {
        self.den > 0
    }
}

/// The stroke of a wick: one unit wide, round caps, white.
pub open spec fn wick_stroke() -> Stroke {
    Stroke { width: 1, cap: LineCap::Round, color: Color { r: 255, g: 255, b: 255 } }
}

/// The outline of a body: one unit wide, black.
pub open spec fn body_outline() -> Stroke {
    Stroke { width: 1, cap: LineCap::Butt, color: Color { r: 0, g: 0, b: 0 } }
}

/// The fill of a body: green for a bar that closed at or above its open,
/// red for one that closed below it.
pub open spec fn body_fill(bar: Candlestick) -> Color {
    if bar.rising() {
        Color { r: 0, g: 204, b: 0 }
    } else {
        Color { r: 204, g: 0, b: 0 }
    }
}

/// The lowest `low` among the first `upto` bars (of the first bar, if
/// `upto` is less than one).
pub open spec fn lowest_low(bars: Seq<Candlestick>, upto: int) -> int
    decreases upto,
{
    if upto <= 1 {
        bars[0].low as int
    } else if bars[upto - 1].low < lowest_low(bars, upto - 1) {
        bars[upto - 1].low as int
    } else {
        lowest_low(bars, upto - 1)
    }
}

/// The highest `high` among the first `upto` bars (of the first bar, if
/// `upto` is less than one).
pub open spec fn highest_high(bars: Seq<Candlestick>, upto: int) -> int
    decreases upto,
{
    if upto <= 1 {
        bars[0].high as int
    } else if bars[upto - 1].high > highest_high(bars, upto - 1) {
        bars[upto - 1].high as int
    } else {
        highest_high(bars, upto - 1)
    }
}

/// The bottom of the price axis of a series that is not empty: the minimum
/// of `low` over all bars.
pub open spec fn min_price(bars: Seq<Candlestick>) -> int {
    lowest_low(bars, bars.len() as int)
}

/// The top of the price axis of a series that is not empty: the maximum of
/// `high` over all bars.
pub open spec fn max_price(bars: Seq<Candlestick>) -> int {
    highest_high(bars, bars.len() as int)
}

/// The denominator of every vertical coordinate: the price range, or 2
/// where the range is zero.
pub open spec fn y_den(lo: int, hi: int) -> int {
    if hi == lo {
        2
    } else {
        hi - lo
    }
}

/// The numerator of `y(price) = height * (1 - (price - lo) / (hi - lo))`
/// over [`y_den`]. Where the range is zero every price sits at the
/// midpoint, `height / 2`.
pub open spec fn y_num(height: int, lo: int, hi: int, price: int) -> int {
    if hi == lo {
        height
    } else {
        height * ((hi - lo) - (price - lo))
    }
}

/// The vertical position of `price` on an axis from `lo` (bottom) to `hi`
/// (top) over `height` canvas units.
pub open spec fn y_position(height: u32, lo: i64, hi: i64, price: i64) -> Fraction {
    Fraction {
        num: y_num(height as int, lo as int, hi as int, price as int) as i128,
        den: y_den(lo as int, hi as int) as i128,
    }
}

/// The distance `y(lower) - y(upper)` between two prices, over [`y_den`].
pub open spec fn y_distance(height: u32, lo: i64, hi: i64, lower: i64, upper: i64) -> Fraction {
    Fraction {
        num: (y_num(height as int, lo as int, hi as int, lower as int) - y_num(
            height as int,
            lo as int,
            hi as int,
            upper as int,
        )) as i128,
        den: y_den(lo as int, hi as int) as i128,
    }
}

/// The horizontal centre of slot `i` of `n`: `(i + 0.5) * (width / n)`,
/// written over the denominator `10 * n`.
pub open spec fn slot_center(width: u32, n: int, i: int) -> Fraction {
    Fraction { num: (width * (10 * i + 5)) as i128, den: (10 * n) as i128 }
}

/// The left edge of the body in slot `i` of `n`: the centre less half the
/// body width.
pub open spec fn body_left(width: u32, n: int, i: int) -> Fraction {
    Fraction { num: (width * (10 * i + 2)) as i128, den: (10 * n) as i128 }
}

/// The width of a body: `0.6 * (width / n)`.
pub open spec fn body_width(width: u32, n: int) -> Fraction {
    Fraction { num: (6 * width) as i128, den: (10 * n) as i128 }
}

/// The higher of a bar's open and close.
pub open spec fn upper_body_price(bar: Candlestick) -> i64 {
    if bar.open <= bar.close {
        bar.close
    } else {
        bar.open
    }
}

/// The lower of a bar's open and close.
pub open spec fn lower_body_price(bar: Candlestick) -> i64 {
    if bar.open <= bar.close {
        bar.open
    } else {
        bar.close
    }
}

/// The wick of bar `i`: a line at the slot's centre from `y(high)` to
/// `y(low)`.
pub open spec fn wick(bars: Seq<Candlestick>, viewport: Viewport, i: int) -> DrawPrimitive {
    let lo = min_price(bars) as i64;
    let hi = max_price(bars) as i64;
    let x = slot_center(viewport.width, bars.len() as int, i);
    DrawPrimitive::Line {
        from: Point { x, y: y_position(viewport.height, lo, hi, bars[i].high) },
        to: Point { x, y: y_position(viewport.height, lo, hi, bars[i].low) },
        stroke: wick_stroke(),
    }
}

/// The body of bar `i`: a rectangle whose top is `y(max(open, close))` and
/// whose bottom is `y(min(open, close))`, six tenths of a slot wide and
/// centred in the slot.
pub open spec fn body(bars: Seq<Candlestick>, viewport: Viewport, i: int) -> DrawPrimitive {
    let lo = min_price(bars) as i64;
    let hi = max_price(bars) as i64;
    let n = bars.len() as int;
    let upper = upper_body_price(bars[i]);
    let lower = lower_body_price(bars[i]);
    DrawPrimitive::FilledRect {
        origin: Point {
            x: body_left(viewport.width, n, i),
            y: y_position(viewport.height, lo, hi, upper),
        },
        size: Size {
            width: body_width(viewport.width, n),
            height: y_distance(viewport.height, lo, hi, lower, upper),
        },
        fill: body_fill(bars[i]),
        outline: body_outline(),
    }
}

/// The primitive at position `k` of the output: wicks at the even
/// positions, bodies at the odd ones, bar `k / 2` for both.
pub open spec fn primitive_at(bars: Seq<Candlestick>, viewport: Viewport, k: int) -> DrawPrimitive {
    if k % 2 == 0 {
        wick(bars, viewport, k / 2)
    } else {
        body(bars, viewport, k / 2)
    }
}

/// The chart of a series: for each bar in index order its wick, then its
/// body. An empty series gives an empty chart.
pub open spec fn primitives(bars: Seq<Candlestick>, viewport: Viewport) -> Seq<DrawPrimitive> {
    Seq::new(2 * bars.len(), |k: int| primitive_at(bars, viewport, k))
}

/// The lowest low is a lower bound of the lows seen so far, is one of
/// them, and fits the type of a price.
pub proof fn lemma_lowest_low(bars: Seq<Candlestick>, upto: int)
    requires
        1 <= upto <= bars.len(),
    ensures
        forall|i: int| 0 <= i < upto ==> lowest_low(bars, upto) <= (#[trigger] bars[i]).low,
        exists|i: int| 0 <= i < upto && lowest_low(bars, upto) == (#[trigger] bars[i]).low,
        i64::MIN <= lowest_low(bars, upto) <= i64::MAX,
    decreases upto,
{
    if upto > 1 {
        lemma_lowest_low(bars, upto - 1);
        let j = choose|i: int|
            0 <= i < upto - 1 && lowest_low(bars, upto - 1) == (#[trigger] bars[i]).low;
        if bars[upto - 1].low < lowest_low(bars, upto - 1) {
            assert(lowest_low(bars, upto) == bars[upto - 1].low);
        } else {
            assert(lowest_low(bars, upto) == bars[j].low);
        }
    } else {
        assert(lowest_low(bars, upto) == bars[0].low);
    }
}

/// The highest high is an upper bound of the highs seen so far, is one of
/// them, and fits the type of a price.
pub proof fn lemma_highest_high(bars: Seq<Candlestick>, upto: int)
    requires
        1 <= upto <= bars.len(),
    ensures
        forall|i: int| 0 <= i < upto ==> highest_high(bars, upto) >= (#[trigger] bars[i]).high,
        exists|i: int| 0 <= i < upto && highest_high(bars, upto) == (#[trigger] bars[i]).high,
        i64::MIN <= highest_high(bars, upto) <= i64::MAX,
    decreases upto,
{
    if upto > 1 {
        lemma_highest_high(bars, upto - 1);
        let j = choose|i: int|
            0 <= i < upto - 1 && highest_high(bars, upto - 1) == (#[trigger] bars[i]).high;
        if bars[upto - 1].high > highest_high(bars, upto - 1) {
            assert(highest_high(bars, upto) == bars[upto - 1].high);
        } else {
            assert(highest_high(bars, upto) == bars[j].high);
        }
    } else {
        assert(highest_high(bars, upto) == bars[0].high);
    }
}

/// A product of a canvas extent and a slot count or a difference of two
/// prices stays far inside `i128`.
proof fn lemma_scaled_difference_fits(extent: int, difference: int)
    requires
        0 <= extent <= u32::MAX,
        -0x10_0000_0000_0000_0000 < difference < 0x10_0000_0000_0000_0000,
    ensures
        -0x10_0000_0000_0000_0000_0000_0000 < extent * difference
            < 0x10_0000_0000_0000_0000_0000_0000,
{
    assert(-0x10_0000_0000_0000_0000_0000_0000 < extent * difference
        < 0x10_0000_0000_0000_0000_0000_0000) by (nonlinear_arith)
        requires
            0 <= extent <= 0xffff_ffff,
            -0x10_0000_0000_0000_0000 < difference < 0x10_0000_0000_0000_0000,
    ;
}

/// The price axis of a series that is not empty: its bottom is the least
/// `low` and its top the greatest `high`, both are prices of the series,
/// and where one bar has `low <= high` the bottom is not above the top.
pub proof fn lemma_price_axis(bars: Seq<Candlestick>)
    requires
        bars.len() > 0,
    ensures
        forall|i: int| 0 <= i < bars.len() ==> min_price(bars) <= (#[trigger] bars[i]).low,
        exists|i: int| 0 <= i < bars.len() && min_price(bars) == (#[trigger] bars[i]).low,
        forall|i: int| 0 <= i < bars.len() ==> max_price(bars) >= (#[trigger] bars[i]).high,
        exists|i: int| 0 <= i < bars.len() && max_price(bars) == (#[trigger] bars[i]).high,
        i64::MIN <= min_price(bars) <= i64::MAX,
        i64::MIN <= max_price(bars) <= i64::MAX,
        (exists|i: int| 0 <= i < bars.len() && (#[trigger] bars[i]).low <= bars[i].high)
            ==> min_price(bars) <= max_price(bars),
{
    lemma_lowest_low(bars, bars.len() as int);
    lemma_highest_high(bars, bars.len() as int);
}

/// A vertical position holds exactly the numerator and the denominator of
/// the formula: nothing is lost to the width of the integers. The
/// denominator is never zero, and positive where `lo <= hi`.
pub proof fn lemma_y_position_exact(height: u32, lo: i64, hi: i64, price: i64)
    ensures
        y_position(height, lo, hi, price).num == y_num(
            height as int,
            lo as int,
            hi as int,
            price as int,
        ),
        y_position(height, lo, hi, price).den == y_den(lo as int, hi as int),
        y_position(height, lo, hi, price).den != 0,
        lo <= hi ==> y_position(height, lo, hi, price).well_formed(),
{
    if hi != lo {
        lemma_scaled_difference_fits(height as int, (hi - lo) - (price - lo));
    }
}

/// A horizontal position holds exactly `width * (10 * i + 5)`, or `+ 2`
/// for the left edge of a body, over `10 * n`; a body is `6 * width` over
/// `10 * n` wide. So the centre is `(i + 0.5) * (width / n)`, the body is
/// `0.6 * (width / n)` wide, and its left edge is the centre less half of
/// that.
pub proof fn lemma_slot_exact(width: u32, n: usize, i: usize)
    requires
        i < n,
    ensures
        slot_center(width, n as int, i as int).num == width * (10 * i + 5),
        body_left(width, n as int, i as int).num == width * (10 * i + 2),
        body_width(width, n as int).num == 6 * width,
        slot_center(width, n as int, i as int).den == 10 * n,
        body_left(width, n as int, i as int).den == 10 * n,
        body_width(width, n as int).den == 10 * n,
        10 * n > 0,
        2 * body_left(width, n as int, i as int).num + body_width(width, n as int).num == 2
            * slot_center(width, n as int, i as int).num,
{
    lemma_scaled_difference_fits(width as int, 10 * i + 5);
    lemma_scaled_difference_fits(width as int, 10 * i + 2);
    assert(2 * (width * (10 * i + 2)) + 6 * width == 2 * (width * (10 * i + 5)))
        by (nonlinear_arith);
}

/// The body of a bar spans the prices from `min(open, close)` to
/// `max(open, close)`: its top edge is `y(max(open, close))`, its top edge
/// plus its height is `y(min(open, close))`, and its height is not
/// negative: the numerator never is, and on a series whose bars keep the
/// price order the denominator is positive.
pub proof fn lemma_body_span(bars: Seq<Candlestick>, viewport: Viewport, i: int)
    requires
        0 <= i < bars.len(),
    ensures
        ({
            let lo = min_price(bars) as i64;
            let hi = max_price(bars) as i64;
            let top = y_position(viewport.height, lo, hi, upper_body_price(bars[i]));
            let bottom = y_position(viewport.height, lo, hi, lower_body_price(bars[i]));
            &&& lo == min_price(bars)
            &&& hi == max_price(bars)
            &&& upper_body_price(bars[i]) == bars[i].body_high()
            &&& lower_body_price(bars[i]) == bars[i].body_low()
            &&& body(bars, viewport, i) matches DrawPrimitive::FilledRect { origin, size, .. }
            &&& origin.y == top
            &&& size.height.den == top.den
            &&& bottom.den == top.den
            &&& origin.y.num + size.height.num == bottom.num
            &&& size.height.num >= 0
            &&& (forall|j: int| 0 <= j < bars.len() ==> (#[trigger] bars[j]).price_ordered())
                ==> size.height.den > 0
        }),
{
    lemma_price_axis(bars);
    let lo = min_price(bars) as i64;
    let hi = max_price(bars) as i64;
    let upper = upper_body_price(bars[i]);
    let lower = lower_body_price(bars[i]);
    lemma_y_position_exact(viewport.height, lo, hi, upper);
    lemma_y_position_exact(viewport.height, lo, hi, lower);
    let height = viewport.height as int;
    let top = y_num(height, lo as int, hi as int, upper as int);
    let bottom = y_num(height, lo as int, hi as int, lower as int);
    if hi != lo {
        assert(bottom - top == height * (upper - lower)) by (nonlinear_arith)
            requires
                bottom == height * ((hi - lo) - (lower - lo)),
                top == height * ((hi - lo) - (upper - lo)),
        ;
        lemma_scaled_difference_fits(height, upper - lower);
        assert(height * (upper - lower) >= 0) by (nonlinear_arith)
            requires
                height >= 0,
                upper - lower >= 0,
        ;
    }
    if forall|j: int| 0 <= j < bars.len() ==> (#[trigger] bars[j]).price_ordered() {
        assert(bars[i].price_ordered());
        assert(bars[i].low <= bars[i].high);
    }
}

/// On a series without a price range (the lowest low equals the highest
/// high) every vertical position is the midpoint `height / 2`: both ends
/// of each wick, the top of each body, and each body has height zero.
pub proof fn lemma_flat_series_sits_at_midpoint(
    bars: Seq<Candlestick>,
    viewport: Viewport,
    i: int,
)
    requires
        0 <= i < bars.len(),
        min_price(bars) == max_price(bars),
    ensures
        forall|price: i64|
            #[trigger] y_position(
                viewport.height,
                min_price(bars) as i64,
                max_price(bars) as i64,
                price,
            ) == (Fraction { num: viewport.height as i128, den: 2 }),
        ({
            let midpoint = Fraction { num: viewport.height as i128, den: 2 };
            &&& wick(bars, viewport, i) matches DrawPrimitive::Line { from, to, .. }
            &&& from.y == midpoint
            &&& to.y == midpoint
            &&& body(bars, viewport, i) matches DrawPrimitive::FilledRect { origin, size, .. }
            &&& origin.y == midpoint
            &&& size.height == (Fraction { num: 0, den: 2 })
        }),
{
    lemma_price_axis(bars);
}

/// The lowest low and the highest high of a series; `None` for the empty
/// series, which has neither.
pub fn price_range(bars: &Vec<Candlestick>) -> (range: Option<(i64, i64)>)
    ensures
        match range {
            Some((lo, hi)) => bars@.len() > 0 && lo == min_price(bars@) && hi == max_price(bars@),
            None => bars@.len() == 0,
        },
{
    let n = bars.len();
    if n == 0 {
        return None;
    }
    let mut lo: i64 = bars[0].low;
    let mut hi: i64 = bars[0].high;
    let mut i: usize = 1;
    while i < n
        invariant
            1 <= i <= n,
            n == bars@.len(),
            lo == lowest_low(bars@, i as int),
            hi == highest_high(bars@, i as int),
        decreases n - i,
    {
        if bars[i].low < lo {
            lo = bars[i].low;
        }
        if bars[i].high > hi {
            hi = bars[i].high;
        }
        i += 1;
    }
    Some((lo, hi))
}

/// The numerator of the vertical position of `price`.
fn y_numerator(height: u32, lo: i64, hi: i64, price: i64) -> (num: i128)
    ensures
        num == y_num(height as int, lo as int, hi as int, price as int),
        -0x10_0000_0000_0000_0000_0000_0000 < num < 0x10_0000_0000_0000_0000_0000_0000,
{
    if hi == lo {
        height as i128
    } else {
        let offset: i128 = (hi as i128 - lo as i128) - (price as i128 - lo as i128);
        proof {
            lemma_scaled_difference_fits(height as int, offset as int);
        }
        (height as i128) * offset
    }
}

/// The denominator of every vertical position on an axis from `lo` to `hi`.
fn y_denominator(lo: i64, hi: i64) -> (den: i128)
    ensures
        den == y_den(lo as int, hi as int),
{
    if hi == lo {
        2
    } else {
        hi as i128 - lo as i128
    }
}

/// The vertical position of `price` on an axis from `lo` (bottom) to `hi`
/// (top) over `height` canvas units: `height * (1 - (price - lo) / (hi -
/// lo))`, or `height / 2` where `hi == lo`.
pub fn y_of(height: u32, lo: i64, hi: i64, price: i64) -> (y: Fraction)
    ensures
        y == y_position(height, lo, hi, price),
        y.num == y_num(height as int, lo as int, hi as int, price as int),
        y.den == y_den(lo as int, hi as int),
{
    Fraction { num: y_numerator(height, lo, hi, price), den: y_denominator(lo, hi) }
}

/// Maps a series and a viewport to the primitives of its candlestick
/// chart: for each bar, in index order, the wick and then the body. No bar
/// is skipped or clipped, whatever its size on the canvas.
pub fn render(bars: &Vec<Candlestick>, viewport: Viewport) -> (out: Vec<DrawPrimitive>)
    ensures
        out@ == primitives(bars@, viewport),
        out@.len() == 2 * bars@.len(),
{
    let n = bars.len();
    let mut out: Vec<DrawPrimitive> = Vec::new();
    let (lo, hi) = match price_range(bars) {
        Some(range) => range,
        None => {
            assert(out@ =~= primitives(bars@, viewport));
            return out;
        },
    };
    let den = y_denominator(lo, hi);
    let slots: i128 = 10 * (n as i128);
    let width: i128 = viewport.width as i128;
    let mut i: usize = 0;
    while i < n
        invariant
            i <= n,
            n == bars@.len(),
            n > 0,
            lo == min_price(bars@),
            hi == max_price(bars@),
            den == y_den(lo as int, hi as int),
            slots == 10 * n,
            width == viewport.width,
            out@.len() == 2 * i,
            forall|k: int| 0 <= k < 2 * i ==> out@[k] == primitive_at(bars@, viewport, k),
        decreases n - i,
    {
        let bar = bars[i];
        let upper: i64 = if bar.open <= bar.close {
            bar.close
        } else {
            bar.open
        };
        let lower: i64 = if bar.open <= bar.close {
            bar.open
        } else {
            bar.close
        };
        let step: i128 = 10 * (i as i128);
        proof {
            lemma_scaled_difference_fits(width as int, step + 5);
            lemma_scaled_difference_fits(width as int, step + 2);
        }
        let x = Fraction { num: width * (step + 5), den: slots };
        let y_upper = y_numerator(viewport.height, lo, hi, upper);
        let y_lower = y_numerator(viewport.height, lo, hi, lower);
        let wick = DrawPrimitive::Line {
            from: Point { x, y: y_of(viewport.height, lo, hi, bar.high) },
            to: Point { x, y: y_of(viewport.height, lo, hi, bar.low) },
            stroke: Stroke {
                width: 1,
                cap: LineCap::Round,
                color: Color { r: 255, g: 255, b: 255 },
            },
        };
        let fill = if bar.close >= bar.open {
            Color { r: 0, g: 204, b: 0 }
        } else {
            Color { r: 204, g: 0, b: 0 }
        };
        let body = DrawPrimitive::FilledRect {
            origin: Point {
                x: Fraction { num: width * (step + 2), den: slots },
                y: Fraction { num: y_upper, den },
            },
            size: Size {
                width: Fraction { num: 6 * width, den: slots },
                height: Fraction { num: y_lower - y_upper, den },
            },
            fill,
            outline: Stroke { width: 1, cap: LineCap::Butt, color: Color { r: 0, g: 0, b: 0 } },
        };
        proof {
            let k = 2 * (i as int);
            assert(k % 2 == 0 && k / 2 == i as int);
            assert((k + 1) % 2 == 1 && (k + 1) / 2 == i as int);
            assert(wick == primitive_at(bars@, viewport, k));
            assert(body == primitive_at(bars@, viewport, k + 1));
        }
        out.push(wick);
        out.push(body);
        i += 1;
    }
    assert(out@ =~= primitives(bars@, viewport));
    out
}

} // verus!
