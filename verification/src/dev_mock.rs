//! A generator of synthetic series, for exercising the chart and the
//! consumers of the feed without a live connection.
//!
//! The shape of a series is fixed: bars one minute apart, each opening
//! where the one before closed. The values are a random walk.

use crate::data_format::{first_fault, strictly_ascending, Candlestick};
use crate::data_format::lemma_faultless_bars;
use vstd::prelude::*;

verus! {

/// The timestamp of the first bar, in seconds.
pub const MOCK_START_TIME: i64 = 1_672_444_800;

/// The distance between two bars, in seconds.
pub const MOCK_INTERVAL: i64 = 60;

/// The open of the first bar, in ticks: 150 units.
pub const MOCK_START_PRICE: i64 = 1_500_000;

/// The most that a close lies from the open, and that a wick reaches beyond
/// the body, in ticks: one unit.
pub const MOCK_MAX_STEP: i64 = 10_000;

/// The bound of a bar's volume, in ticks: 100 000 units.
pub const MOCK_MAX_VOLUME: i64 = 1_000_000_000;

/// `rand::random::<u64>()`: one word from the thread's generator. Nothing
/// is claimed of it; two calls need not agree.
#[verifier::external_body]
fn random_word() -> u64 {
    rand::random::<u64>()
}

/// The bar that opens at `open` at time `timestamp`, given four random
/// words. The close lies less than a step from the open, the high not
/// below and the low not above the body, each by less than a step.
pub open spec fn mock_bar_of(
    timestamp: i64,
    open: i64,
    close_draw: u64,
    high_draw: u64,
    low_draw: u64,
    volume_draw: u64,
) -> Candlestick {
    let close = open + close_draw % 20_000 - 10_000;
    let upper = if open <= close {
        close
    } else {
        open as int
    };
    let lower = if open <= close {
        open as int
    } else {
        close
    };
    Candlestick {
        timestamp,
        open,
        high: (upper + high_draw % 10_000) as i64,
        low: (lower - low_draw % 10_000) as i64,
        close: close as i64,
        volume: (volume_draw % 1_000_000_000) as i64,
    }
}

/// Whether a price leaves room for one more bar of the walk.
pub open spec fn leaves_room(price: i64) -> bool {
    i64::MIN + 2 * MOCK_MAX_STEP <= price <= i64::MAX - 2 * MOCK_MAX_STEP
}

/// Makes one bar of the walk from four random words.
pub fn mock_bar(
    timestamp: i64,
    open: i64,
    close_draw: u64,
    high_draw: u64,
    low_draw: u64,
    volume_draw: u64,
) -> (bar: Candlestick)
    requires
        leaves_room(open),
    ensures
        bar == mock_bar_of(timestamp, open, close_draw, high_draw, low_draw, volume_draw),
        bar.timestamp == timestamp,
        bar.open == open,
        bar.well_formed(),
        open - MOCK_MAX_STEP <= bar.close < open + MOCK_MAX_STEP,
        bar.body_high() <= bar.high < bar.body_high() + MOCK_MAX_STEP,
        bar.body_low() - MOCK_MAX_STEP < bar.low <= bar.body_low(),
        0 <= bar.volume < MOCK_MAX_VOLUME,
{
    let close: i64 = open + (close_draw % 20_000) as i64 - 10_000;
    let upper: i64 = if open <= close {
        close
    } else {
        open
    };
    let lower: i64 = if open <= close {
        open
    } else {
        close
    };
    Candlestick {
        timestamp,
        open,
        high: upper + (high_draw % 10_000) as i64,
        low: lower - (low_draw % 10_000) as i64,
        close,
        volume: (volume_draw % 1_000_000_000) as i64,
    }
}

/// The shape of a generated series: the first bar opens at the start
/// price at the start time; every later bar comes one interval after the
/// bar before it and opens at that bar's close; every bar is well formed
/// and closes less than a step from its open.
pub open spec fn is_mock_walk(bars: Seq<Candlestick>) -> bool {
    &&& bars.len() > 0 ==> bars[0].open == MOCK_START_PRICE
    &&& forall|i: int|
        0 <= i < bars.len() ==> (#[trigger] bars[i]).timestamp == MOCK_START_TIME + MOCK_INTERVAL
            * i
    &&& forall|i: int| 0 < i < bars.len() ==> (#[trigger] bars[i]).open == bars[i - 1].close
    &&& forall|i: int| 0 <= i < bars.len() ==> (#[trigger] bars[i]).well_formed()
    &&& forall|i: int|
        0 <= i < bars.len() ==> (#[trigger] bars[i]).open - MOCK_MAX_STEP <= bars[i].close
            < bars[i].open + MOCK_MAX_STEP
}

/// Generates a series of `count` bars. Whatever the random words are, the
/// series has the shape of [`is_mock_walk`].
pub fn make_mock_data(count: u32) -> (bars: Vec<Candlestick>)
    ensures
        bars@.len() == count,
        is_mock_walk(bars@),
{
    let mut bars: Vec<Candlestick> = Vec::new();
    let mut timestamp: i64 = MOCK_START_TIME;
    let mut open: i64 = MOCK_START_PRICE;
    let mut i: u32 = 0;
    while i < count
        invariant
            i <= count,
            bars@.len() == i,
            timestamp == MOCK_START_TIME + MOCK_INTERVAL * i,
            MOCK_START_PRICE - MOCK_MAX_STEP * i <= open <= MOCK_START_PRICE + MOCK_MAX_STEP * i,
            i == 0 ==> open == MOCK_START_PRICE,
            i > 0 ==> open == bars@[i - 1].close,
            is_mock_walk(bars@),
        decreases count - i,
    {
        let close_draw = random_word();
        let high_draw = random_word();
        let low_draw = random_word();
        let volume_draw = random_word();
        let bar = mock_bar(timestamp, open, close_draw, high_draw, low_draw, volume_draw);
        bars.push(bar);
        timestamp = timestamp + MOCK_INTERVAL;
        open = bar.close;
        i += 1;
    }
    bars
}

/// A generated series is a series as the model wants it: no bar of it has
/// a fault, and its timestamps increase strictly, by one interval a bar.
pub proof fn lemma_mock_walk_is_sound(bars: Seq<Candlestick>)
    requires
        is_mock_walk(bars),
    ensures
        first_fault(bars) is None,
        strictly_ascending(bars),
        forall|i: int|
            0 < i < bars.len() ==> (#[trigger] bars[i]).timestamp - bars[i - 1].timestamp
                == MOCK_INTERVAL,
{
    assert forall|i: int| 0 < i < bars.len() implies bars[i - 1].timestamp
        < (#[trigger] bars[i]).timestamp && bars[i].timestamp - bars[i - 1].timestamp
        == MOCK_INTERVAL by {
        assert(bars[i - 1].timestamp == MOCK_START_TIME + MOCK_INTERVAL * (i - 1));
    }
    lemma_faultless_bars(bars);
}

} // verus!
