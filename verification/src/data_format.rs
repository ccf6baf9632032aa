//! The candlestick series model.
//!
//! Prices and volumes are fixed-point: an `i64` counts ticks, and
//! [`TICKS_PER_UNIT`] ticks make one whole unit. A series as it arrives may
//! break the rules of the model; [`ChartData::normalized`] is the single
//! gate that turns an arriving snapshot into a series that keeps them.

use vstd::prelude::*;

verus! {

/// Ticks in one whole unit of price or volume.
pub const TICKS_PER_UNIT: i64 = 10_000;

/// One price bar: the open, high, low and close of an interval that starts
/// at `timestamp` (seconds), and the volume traded in it.
#[derive(Clone, Copy, Debug, PartialEq, Eq, Structural)]
pub struct Candlestick {
    pub timestamp: i64,
    pub open: i64,
    pub high: i64,
    pub low: i64,
    pub close: i64,
    pub volume: i64,
}

/// Optional derived series, each aligned one to one with the bars.
#[derive(Clone, Debug, PartialEq, Eq)]
pub struct Indicators {
    pub sma_50: Option<Vec<i64>>,
    pub rsi: Option<Vec<i64>>,
}

/// A snapshot of one instrument's series at one timeframe.
#[derive(Clone, Debug, PartialEq, Eq)]
pub struct ChartData {
    pub symbol: String,
    pub timeframe: String,
    pub data: Vec<Candlestick>,
    pub indicators: Option<Indicators>,
}

/// Which derived series a finding is about.
#[derive(Clone, Copy, Debug, PartialEq, Eq, Structural)]
pub enum IndicatorKind {
    Sma50,
    Rsi,
}

/// The first rule of the model that a snapshot breaks.
#[derive(Clone, Copy, Debug, PartialEq, Eq, Structural)]
pub enum Violation {
    /// The symbol is the empty string.
    EmptySymbol,
    /// The timeframe is the empty string.
    EmptyTimeframe,
    /// The bar at `index` does not satisfy `low <= min(open, close)` and
    /// `max(open, close) <= high`.
    PriceOrder { index: usize },
    /// The bar at `index` has a negative volume.
    NegativeVolume { index: usize },
    /// The bar at `index` is older than the bar before it.
    OutOfOrder { index: usize },
    /// A derived series is present but not as long as the bar list.
    Misaligned { indicator: IndicatorKind },
}

/// What [`Indicators`] holds, as mathematical sequences.
pub struct IndicatorsView {
    pub sma_50: Option<Seq<i64>>,
    pub rsi: Option<Seq<i64>>,
}

/// What [`ChartData`] holds, as mathematical sequences.
pub struct ChartView {
    pub symbol: Seq<char>,
    pub timeframe: Seq<char>,
    pub data: Seq<Candlestick>,
    pub indicators: Option<IndicatorsView>,
}

/// The view of an optional vector.
pub open spec fn optional_seq(values: Option<Vec<i64>>) -> Option<Seq<i64>> {
    match values {
        Some(v) => Some(v@),
        None => None,
    }
}

impl View for Indicators {
    type V = IndicatorsView;

    open spec fn view(&self) -> IndicatorsView {
        IndicatorsView { sma_50: optional_seq(self.sma_50), rsi: optional_seq(self.rsi) }
    }
}

impl View for ChartData {
    type V = ChartView;

    open spec fn view(&self) -> ChartView {
        ChartView {
            symbol: self.symbol@,
            timeframe: self.timeframe@,
            data: self.data@,
            indicators: match self.indicators {
                Some(ind) => Some(ind@),
                None => None,
            },
        }
    }
}

impl Candlestick {
    /// The lower end of the body: `min(open, close)`.
    pub open spec fn body_low(self) -> int {
        if self.open <= self.close {
            self.open as int
        } else {
            self.close as int
        }
    }

    /// The upper end of the body: `max(open, close)`.
    pub open spec fn body_high(self) -> int {
        if self.open <= self.close {
            self.close as int
        } else {
            self.open as int
        }
    }

    /// `low <= min(open, close) <= max(open, close) <= high`.
    pub open spec fn price_ordered(self) -> bool {
        self.low <= self.body_low() && self.body_high() <= self.high
    }

    /// The bar keeps the price order and its volume is not negative.
    pub open spec fn well_formed(self) -> bool {
        self.price_ordered() && self.volume >= 0
    }

    /// Whether the bar closed at or above its open. A tie counts as a rise.
    pub open spec fn rising(self) -> bool {
        self.close >= self.open
    }

    /// Tests the price order.
    pub fn is_price_ordered(&self) -> (ordered: bool)
        ensures
            ordered == self.price_ordered(),
    {
        self.low <= self.open && self.low <= self.close && self.open <= self.high && self.close
            <= self.high
    }

    /// Tests the price order and the sign of the volume.
    pub fn is_well_formed(&self) -> (sound: bool)
        ensures
            sound == self.well_formed(),
    {
        self.is_price_ordered() && self.volume >= 0
    }
}

/// What is wrong with the bar at index `i`, if anything: first its price
/// order, then its volume, then its place after the bar before it.
pub open spec fn bar_fault(bars: Seq<Candlestick>, i: int) -> Option<Violation> {
    if !bars[i].price_ordered() {
        Some(Violation::PriceOrder { index: i as usize })
    } else if bars[i].volume < 0 {
        Some(Violation::NegativeVolume { index: i as usize })
    } else if i > 0 && bars[i].timestamp < bars[i - 1].timestamp {
        Some(Violation::OutOfOrder { index: i as usize })
    } else {
        None
    }
}

/// The fault of the first faulty bar among the first `upto` bars.
pub open spec fn first_fault_below(bars: Seq<Candlestick>, upto: int) -> Option<Violation>
    decreases upto,
{
    if upto <= 0 {
        None
    } else {
        match first_fault_below(bars, upto - 1) {
            Some(v) => Some(v),
            None => bar_fault(bars, upto - 1),
        }
    }
}

/// The fault of the first faulty bar of the list.
pub open spec fn first_fault(bars: Seq<Candlestick>) -> Option<Violation> {
    first_fault_below(bars, bars.len() as int)
}

/// Timestamps never decrease along the list.
pub open spec fn non_decreasing(bars: Seq<Candlestick>) -> bool {
    forall|i: int| 0 < i < bars.len() ==> bars[i - 1].timestamp <= #[trigger] bars[i].timestamp
}

/// Timestamps increase strictly along the list: no instant occurs twice.
pub open spec fn strictly_ascending(bars: Seq<Candlestick>) -> bool {
    forall|i: int| 0 < i < bars.len() ==> bars[i - 1].timestamp < #[trigger] bars[i].timestamp
}

/// The bar at `i` is the last one of its instant: the list ends there or
/// the next bar has another timestamp.
pub open spec fn ends_run(bars: Seq<Candlestick>, i: int) -> bool {
    i + 1 >= bars.len() || bars[i].timestamp != bars[i + 1].timestamp
}

/// Of the first `upto` entries of `values`, those whose bar is the last of
/// its instant, in order. This is last-write-wins on equal timestamps,
/// applied alike to the bars and to every series aligned with them.
pub open spec fn run_ends<T>(values: Seq<T>, bars: Seq<Candlestick>, upto: int) -> Seq<T>
    decreases upto,
{
    if upto <= 0 {
        Seq::empty()
    } else if ends_run(bars, upto - 1) {
        run_ends(values, bars, upto - 1).push(values[upto - 1])
    } else {
        run_ends(values, bars, upto - 1)
    }
}

/// [`run_ends`] on an optional series that is as long as the bar list.
pub open spec fn optional_run_ends(values: Option<Seq<i64>>, bars: Seq<Candlestick>) -> Option<
    Seq<i64>,
> {
    match values {
        Some(v) => Some(run_ends(v, bars, bars.len() as int)),
        None => None,
    }
}

impl IndicatorsView {
    /// The first derived series that is present with another length than
    /// `len`.
    pub open spec fn misaligned(self, len: nat) -> Option<IndicatorKind> {
        if self.sma_50 is Some && self.sma_50->0.len() != len {
            Some(IndicatorKind::Sma50)
        } else if self.rsi is Some && self.rsi->0.len() != len {
            Some(IndicatorKind::Rsi)
        } else {
            None
        }
    }

    /// Every series reduced to the entries of the bars that end a run.
    pub open spec fn collapsed(self, bars: Seq<Candlestick>) -> IndicatorsView {
        IndicatorsView {
            sma_50: optional_run_ends(self.sma_50, bars),
            rsi: optional_run_ends(self.rsi, bars),
        }
    }
}

impl ChartView {
    /// The first derived series that is out of step with the bars.
    pub open spec fn misaligned(self) -> Option<IndicatorKind> {
        match self.indicators {
            Some(ind) => ind.misaligned(self.data.len()),
            None => None,
        }
    }

    /// The first rule that the snapshot breaks: symbol, timeframe, the bars
    /// in index order, then the alignment of the derived series.
    pub open spec fn violation(self) -> Option<Violation> {
        if self.symbol.len() == 0 {
            Some(Violation::EmptySymbol)
        } else if self.timeframe.len() == 0 {
            Some(Violation::EmptyTimeframe)
        } else if first_fault(self.data) is Some {
            first_fault(self.data)
        } else {
            match self.misaligned() {
                Some(indicator) => Some(Violation::Misaligned { indicator }),
                None => None,
            }
        }
    }

    /// The snapshot breaks no rule.
    pub open spec fn acceptable(self) -> bool {
        self.violation() is None
    }

    /// The snapshot with one bar left per instant, the last one written,
    /// and the derived series cut down alike.
    pub open spec fn collapsed(self) -> ChartView {
        ChartView {
            symbol: self.symbol,
            timeframe: self.timeframe,
            data: run_ends(self.data, self.data, self.data.len() as int),
            indicators: match self.indicators {
                Some(ind) => Some(ind.collapsed(self.data)),
                None => None,
            },
        }
    }

    /// A series as the model wants it: it breaks no rule and no instant
    /// occurs twice.
    pub open spec fn canonical(self) -> bool {
        self.acceptable() && strictly_ascending(self.data)
    }

    /// What becomes of an arriving snapshot: the first broken rule, or the
    /// collapsed series.
    pub open spec fn normalized(self) -> Result<ChartView, Violation> {
        match self.violation() {
            Some(v) => Err(v),
            None => Ok(self.collapsed()),
        }
    }
}

/// Scans the bars in index order for the first fault.
fn find_first_fault(bars: &Vec<Candlestick>) -> (found: Option<Violation>)
    ensures
        found == first_fault(bars@),
{
    let n = bars.len();
    let mut i: usize = 0;
    while i < n
        invariant
            i <= n,
            n == bars@.len(),
            first_fault_below(bars@, i as int) is None,
        decreases n - i,
    {
        let bar = bars[i];
        let fault = if !bar.is_price_ordered() {
            Some(Violation::PriceOrder { index: i })
        } else if bar.volume < 0 {
            Some(Violation::NegativeVolume { index: i })
        } else if i > 0 && bar.timestamp < bars[i - 1].timestamp {
            Some(Violation::OutOfOrder { index: i })
        } else {
            None
        };
        assert(fault == bar_fault(bars@, i as int));
        if fault.is_some() {
            proof {
                lemma_first_fault_is_stable(bars@, i + 1, n as int);
            }
            return fault;
        }
        i += 1;
    }
    None
}

/// Keeps of `values` the entries whose bar is the last of its instant.
fn keep_run_ends<T: Copy>(values: &Vec<T>, bars: &Vec<Candlestick>) -> (kept: Vec<T>)
    requires
        values@.len() == bars@.len(),
    ensures
        kept@ == run_ends(values@, bars@, bars@.len() as int),
{
    let n = bars.len();
    let mut kept: Vec<T> = Vec::new();
    let mut i: usize = 0;
    while i < n
        invariant
            i <= n,
            n == bars@.len(),
            n == values@.len(),
            kept@ == run_ends(values@, bars@, i as int),
        decreases n - i,
    {
        if i + 1 >= n || bars[i].timestamp != bars[i + 1].timestamp {
            kept.push(values[i]);
        }
        i += 1;
    }
    kept
}

/// [`keep_run_ends`] on a series that may be absent.
fn keep_optional_run_ends(values: Option<Vec<i64>>, bars: &Vec<Candlestick>) -> (kept: Option<
    Vec<i64>,
>)
    requires
        values is Some ==> values->0@.len() == bars@.len(),
    ensures
        optional_seq(kept) == optional_run_ends(optional_seq(values), bars@),
{
    match values {
        Some(v) => Some(keep_run_ends(&v, bars)),
        None => None,
    }
}

impl Indicators {
    /// The first derived series that is present with another length than
    /// `len`.
    pub fn misaligned(&self, len: usize) -> (found: Option<IndicatorKind>)
        ensures
            found == self@.misaligned(len as nat),
    {
        if let Some(v) = &self.sma_50 {
            if v.len() != len {
                return Some(IndicatorKind::Sma50);
            }
        }
        if let Some(v) = &self.rsi {
            if v.len() != len {
                return Some(IndicatorKind::Rsi);
            }
        }
        None
    }
}

impl ChartData {
    /// Puts a snapshot together from its parts, unchecked.
    pub fn new(
        symbol: String,
        timeframe: String,
        data: Vec<Candlestick>,
        indicators: Option<Indicators>,
    ) -> (chart: Self)
        ensures
            chart.symbol == symbol,
            chart.timeframe == timeframe,
            chart.data == data,
            chart.indicators == indicators,
    {
        Self { symbol, timeframe, data, indicators }
    }

    /// The first rule of the model that the snapshot breaks, if any.
    pub fn violation(&self) -> (found: Option<Violation>)
        ensures
            found == self@.violation(),
    {
        if self.symbol.as_str().is_empty() {
            return Some(Violation::EmptySymbol);
        }
        if self.timeframe.as_str().is_empty() {
            return Some(Violation::EmptyTimeframe);
        }
        let fault = find_first_fault(&self.data);
        if fault.is_some() {
            return fault;
        }
        if let Some(ind) = &self.indicators {
            if let Some(indicator) = ind.misaligned(self.data.len()) {
                return Some(Violation::Misaligned { indicator });
            }
        }
        None
    }

    /// Admits an arriving snapshot into the model: a snapshot that breaks a
    /// rule is refused with the first rule it breaks; any other comes back
    /// with one bar per instant, the last one written.
    pub fn normalized(self) -> (outcome: Result<ChartData, Violation>)
        ensures
            match outcome {
                Ok(series) => self@.normalized() == Ok::<ChartView, Violation>(series@),
                Err(v) => self@.normalized() == Err::<ChartView, Violation>(v),
            },
    {
        if let Some(v) = self.violation() {
            return Err(v);
        }
        let ChartData { symbol, timeframe, data, indicators } = self;
        let kept = keep_run_ends(&data, &data);
        let indicators = match indicators {
            Some(ind) => {
                let Indicators { sma_50, rsi } = ind;
                Some(
                    Indicators {
                        sma_50: keep_optional_run_ends(sma_50, &data),
                        rsi: keep_optional_run_ends(rsi, &data),
                    },
                )
            },
            None => None,
        };
        Ok(ChartData { symbol, timeframe, data: kept, indicators })
    }
}

/// Once a fault is found among the first `k` bars, looking further does not
/// change it.
pub proof fn lemma_first_fault_is_stable(bars: Seq<Candlestick>, k: int, m: int)
    requires
        k <= m,
        first_fault_below(bars, k) is Some,
    ensures
        first_fault_below(bars, m) == first_fault_below(bars, k),
    decreases m - k,
{
    if k < m {
        lemma_first_fault_is_stable(bars, k, m - 1);
    }
}

/// No fault among the first `upto` bars means that none of them has one.
pub proof fn lemma_no_fault_below(bars: Seq<Candlestick>, upto: int)
    ensures
        first_fault_below(bars, upto) is None <==> forall|i: int|
            0 <= i < upto ==> bar_fault(bars, i) is None,
    decreases upto,
{
    if upto > 0 {
        lemma_no_fault_below(bars, upto - 1);
        if first_fault_below(bars, upto) is None {
            assert forall|i: int| 0 <= i < upto implies bar_fault(bars, i) is None by {
                if i < upto - 1 {
                } else {
                    assert(i == upto - 1);
                }
            }
        } else {
            if first_fault_below(bars, upto - 1) is None {
                assert(bar_fault(bars, upto - 1) is Some);
            }
        }
    }
}

/// A reported fault is the fault of some bar, and no earlier bar has one.
pub proof fn lemma_first_fault_is_least(bars: Seq<Candlestick>, upto: int) -> (index: int)
    requires
        first_fault_below(bars, upto) is Some,
    ensures
        0 <= index < upto,
        first_fault_below(bars, upto) == bar_fault(bars, index),
        forall|i: int| 0 <= i < index ==> bar_fault(bars, i) is None,
    decreases upto,
{
    if first_fault_below(bars, upto - 1) is Some {
        lemma_first_fault_is_least(bars, upto - 1)
    } else {
        lemma_no_fault_below(bars, upto - 1);
        upto - 1
    }
}

/// A list without a fault holds well-formed bars in non-decreasing order of
/// time, and the other way round.
pub proof fn lemma_faultless_bars(bars: Seq<Candlestick>)
    ensures
        first_fault(bars) is None <==> non_decreasing(bars) && forall|i: int|
            0 <= i < bars.len() ==> (#[trigger] bars[i]).well_formed(),
{
    lemma_no_fault_below(bars, bars.len() as int);
    if first_fault(bars) is None {
        assert forall|i: int| 0 < i < bars.len() implies bars[i - 1].timestamp
            <= #[trigger] bars[i].timestamp by {
            assert(bar_fault(bars, i) is None);
        }
        assert forall|i: int| 0 <= i < bars.len() implies (#[trigger] bars[i]).well_formed() by {
            assert(bar_fault(bars, i) is None);
        }
    }
    if non_decreasing(bars) && forall|i: int|
        0 <= i < bars.len() ==> (#[trigger] bars[i]).well_formed() {
        assert forall|i: int| 0 <= i < bars.len() implies bar_fault(bars, i) is None by {
            assert(bars[i].well_formed());
        }
    }
}

/// A snapshot with a bar that breaks the price order is refused, whatever
/// else it holds.
pub proof fn lemma_malformed_bar_is_refused(snapshot: ChartView, i: int)
    requires
        0 <= i < snapshot.data.len(),
        !snapshot.data[i].price_ordered(),
    ensures
        snapshot.normalized() is Err,
        !snapshot.acceptable(),
{
    lemma_no_fault_below(snapshot.data, snapshot.data.len() as int);
    assert(bar_fault(snapshot.data, i) is Some);
}

/// Cutting a series down to the ends of its runs keeps as many entries of
/// any aligned series as it keeps bars.
pub proof fn lemma_run_ends_stay_aligned<T>(values: Seq<T>, bars: Seq<Candlestick>, upto: int)
    ensures
        run_ends(values, bars, upto).len() == run_ends(bars, bars, upto).len(),
        run_ends(values, bars, upto).len() <= if upto < 0 {
            0
        } else {
            upto
        },
    decreases upto,
{
    if upto > 0 {
        lemma_run_ends_stay_aligned(values, bars, upto - 1);
    }
}

/// Every bar that is kept is a bar of the list, and is older than the
/// first bar that was not looked at yet.
pub proof fn lemma_run_ends_are_older(bars: Seq<Candlestick>, upto: int)
    requires
        0 <= upto <= bars.len(),
        non_decreasing(bars),
    ensures
        forall|k: int|
            0 <= k < run_ends(bars, bars, upto).len() ==> exists|j: int|
                0 <= j < upto && #[trigger] run_ends(bars, bars, upto)[k] == bars[j],
        upto < bars.len() ==> forall|k: int|
            0 <= k < run_ends(bars, bars, upto).len() ==> (#[trigger] run_ends(
                bars,
                bars,
                upto,
            )[k]).timestamp < bars[upto].timestamp,
        strictly_ascending(run_ends(bars, bars, upto)),
    decreases upto,
{
    if upto > 0 {
        lemma_run_ends_are_older(bars, upto - 1);
        let before = run_ends(bars, bars, upto - 1);
        let now = run_ends(bars, bars, upto);
        assert forall|k: int| 0 <= k < now.len() implies exists|j: int|
            0 <= j < upto && #[trigger] now[k] == bars[j] by {
            if k < before.len() {
                let j = choose|j: int| 0 <= j < upto - 1 && before[k] == bars[j];
                assert(now[k] == bars[j]);
            } else {
                assert(now[k] == bars[upto - 1]);
            }
        }
        if upto < bars.len() {
            assert(bars[upto - 1].timestamp <= bars[upto].timestamp);
            assert forall|k: int| 0 <= k < now.len() implies (#[trigger] now[k]).timestamp
                < bars[upto].timestamp by {
                if k < before.len() {
                    assert(before[k].timestamp < bars[upto - 1].timestamp);
                }
            }
        }
        assert forall|k: int| 0 < k < now.len() implies now[k - 1].timestamp
            < (#[trigger] now[k]).timestamp by {
            if k < before.len() {
                assert(before[k - 1].timestamp < before[k].timestamp);
            } else {
                assert(before[k - 1].timestamp < bars[upto - 1].timestamp);
            }
        }
    }
}

/// Where no instant occurs twice, every bar ends its run and nothing is
/// cut away.
pub proof fn lemma_run_ends_of_ascending<T>(values: Seq<T>, bars: Seq<Candlestick>, upto: int)
    requires
        0 <= upto <= bars.len(),
        values.len() == bars.len(),
        strictly_ascending(bars),
    ensures
        run_ends(values, bars, upto) == values.take(upto),
    decreases upto,
{
    if upto > 0 {
        lemma_run_ends_of_ascending(values, bars, upto - 1);
        if upto < bars.len() {
            assert(bars[upto - 1].timestamp < bars[upto].timestamp);
        }
        assert(values.take(upto - 1).push(values[upto - 1]) =~= values.take(upto));
    } else {
        assert(values.take(0) =~= Seq::<T>::empty());
    }
}

/// What is admitted is a series as the model wants it: it breaks no rule,
/// no instant occurs twice in it, and each of its bars is a bar of the
/// snapshot.
pub proof fn lemma_normalized_is_canonical(snapshot: ChartView)
    requires
        snapshot.normalized() is Ok,
    ensures
        snapshot.normalized()->Ok_0.canonical(),
        forall|k: int|
            0 <= k < snapshot.normalized()->Ok_0.data.len() ==> snapshot.data.contains(
                #[trigger] snapshot.normalized()->Ok_0.data[k],
            ),
{
    let bars = snapshot.data;
    let n = bars.len() as int;
    let series = snapshot.collapsed();
    lemma_faultless_bars(bars);
    lemma_run_ends_are_older(bars, n);
    assert forall|k: int| 0 <= k < series.data.len() implies bars.contains(
        #[trigger] series.data[k],
    ) && series.data[k].well_formed() by {
        let j = choose|j: int| 0 <= j < n && series.data[k] == bars[j];
        assert(bars[j].well_formed());
    }
    assert forall|k: int| 0 < k < series.data.len() implies series.data[k - 1].timestamp
        <= #[trigger] series.data[k].timestamp by {}
    lemma_faultless_bars(series.data);
    match snapshot.indicators {
        Some(ind) => {
            if ind.sma_50 is Some {
                lemma_run_ends_stay_aligned(ind.sma_50->0, bars, n);
            }
            if ind.rsi is Some {
                lemma_run_ends_stay_aligned(ind.rsi->0, bars, n);
            }
        },
        None => {},
    }
}

/// A series as the model wants it is admitted as it is: sending it and
/// taking it in again gives an equal series, field for field.
pub proof fn lemma_canonical_is_kept(series: ChartView)
    requires
        series.canonical(),
    ensures
        series.normalized() == Ok::<ChartView, Violation>(series),
{
    let bars = series.data;
    let n = bars.len() as int;
    lemma_run_ends_of_ascending(bars, bars, n);
    assert(bars.take(n) =~= bars);
    match series.indicators {
        Some(ind) => {
            if ind.sma_50 is Some {
                lemma_run_ends_of_ascending(ind.sma_50->0, bars, n);
                assert(ind.sma_50->0.take(n) =~= ind.sma_50->0);
            }
            if ind.rsi is Some {
                lemma_run_ends_of_ascending(ind.rsi->0, bars, n);
                assert(ind.rsi->0.take(n) =~= ind.rsi->0);
            }
            assert(ind.collapsed(bars) == ind);
        },
        None => {},
    }
    assert(series.collapsed() == series);
}

} // verus!
