use flowsurface::data_format::{
    Candlestick, ChartData, IndicatorKind, Indicators, Violation, TICKS_PER_UNIT,
};

fn candle(timestamp: i64, open: i64, high: i64, low: i64, close: i64) -> Candlestick {
    Candlestick { timestamp, open, high, low, close, volume: 5 * TICKS_PER_UNIT }
}

fn snapshot(data: Vec<Candlestick>) -> ChartData {
    ChartData::new("AAPL".to_string(), "1m".to_string(), data, None)
}

fn three_bars() -> Vec<Candlestick> {
    vec![candle(0, 10, 12, 9, 11), candle(60, 11, 13, 10, 10), candle(120, 10, 10, 10, 10)]
}

#[test]
fn new_keeps_its_parts() {
    let indicators = Indicators { sma_50: Some(vec![1, 2, 3]), rsi: None };
    let chart = ChartData::new(
        "GOOGL".to_string(),
        "5m".to_string(),
        three_bars(),
        Some(indicators.clone()),
    );
    assert_eq!(chart.symbol, "GOOGL");
    assert_eq!(chart.timeframe, "5m");
    assert_eq!(chart.data, three_bars());
    assert_eq!(chart.indicators, Some(indicators));
}

#[test]
fn price_order_is_low_body_high() {
    assert!(candle(0, 10, 12, 9, 11).is_price_ordered());
    assert!(candle(0, 10, 10, 10, 10).is_price_ordered());
    assert!(!candle(0, 10, 8, 9, 9).is_price_ordered());
    assert!(!candle(0, 13, 12, 9, 11).is_price_ordered());
    assert!(!candle(0, 10, 12, 9, 13).is_price_ordered());
    assert!(!candle(0, 8, 12, 9, 11).is_price_ordered());
    assert!(!candle(0, 10, 12, 9, 8).is_price_ordered());
    let mut negative = candle(0, 10, 12, 9, 11);
    negative.volume = -1;
    assert!(negative.is_price_ordered());
    assert!(!negative.is_well_formed());
}

#[test]
fn canonical_series_is_admitted_as_it_is() {
    let chart = ChartData::new(
        "AAPL".to_string(),
        "1m".to_string(),
        three_bars(),
        Some(Indicators { sma_50: Some(vec![7, 8, 9]), rsi: Some(vec![30, 50, 70]) }),
    );
    assert_eq!(chart.violation(), None);
    assert_eq!(chart.clone().normalized(), Ok(chart));
    let empty = snapshot(Vec::new());
    assert_eq!(empty.clone().normalized(), Ok(empty));
}

#[test]
fn admission_is_idempotent() {
    let mut data = three_bars();
    data.insert(1, candle(0, 10, 14, 9, 13));
    let once = snapshot(data).normalized().unwrap();
    assert_eq!(once.clone().normalized(), Ok(once));
}

#[test]
fn empty_symbol_is_refused() {
    let chart = ChartData::new(String::new(), "1m".to_string(), three_bars(), None);
    assert_eq!(chart.normalized(), Err(Violation::EmptySymbol));
}

#[test]
fn empty_timeframe_is_refused() {
    let chart = ChartData::new("AAPL".to_string(), String::new(), three_bars(), None);
    assert_eq!(chart.normalized(), Err(Violation::EmptyTimeframe));
}

#[test]
fn high_below_low_is_refused() {
    let mut data = three_bars();
    data[1] = candle(60, 10, 8, 9, 9);
    assert_eq!(snapshot(data).normalized(), Err(Violation::PriceOrder { index: 1 }));
}

#[test]
fn open_or_close_outside_the_range_is_refused() {
    let mut data = three_bars();
    data[2] = candle(120, 14, 13, 10, 11);
    assert_eq!(snapshot(data).normalized(), Err(Violation::PriceOrder { index: 2 }));
    let mut data = three_bars();
    data[0] = candle(0, 10, 12, 9, 8);
    assert_eq!(snapshot(data).normalized(), Err(Violation::PriceOrder { index: 0 }));
}

#[test]
fn negative_volume_is_refused() {
    let mut data = three_bars();
    data[2].volume = -1;
    assert_eq!(snapshot(data).normalized(), Err(Violation::NegativeVolume { index: 2 }));
}

#[test]
fn bar_older_than_its_predecessor_is_refused() {
    let mut data = three_bars();
    data[2].timestamp = 59;
    assert_eq!(snapshot(data).normalized(), Err(Violation::OutOfOrder { index: 2 }));
}

#[test]
fn misaligned_indicator_is_refused() {
    let chart = ChartData::new(
        "AAPL".to_string(),
        "1m".to_string(),
        three_bars(),
        Some(Indicators { sma_50: Some(vec![1, 2]), rsi: Some(vec![1]) }),
    );
    assert_eq!(
        chart.normalized(),
        Err(Violation::Misaligned { indicator: IndicatorKind::Sma50 })
    );
    let chart = ChartData::new(
        "AAPL".to_string(),
        "1m".to_string(),
        three_bars(),
        Some(Indicators { sma_50: None, rsi: Some(vec![1, 2, 3, 4]) }),
    );
    assert_eq!(
        chart.normalized(),
        Err(Violation::Misaligned { indicator: IndicatorKind::Rsi })
    );
}

#[test]
fn first_broken_rule_is_reported() {
    let mut data = three_bars();
    data[1].volume = -3;
    data[2] = candle(10, 10, 8, 9, 9);
    let chart = ChartData::new(
        "AAPL".to_string(),
        "1m".to_string(),
        data.clone(),
        Some(Indicators { sma_50: Some(Vec::new()), rsi: None }),
    );
    assert_eq!(chart.violation(), Some(Violation::NegativeVolume { index: 1 }));
    let chart = ChartData::new(String::new(), String::new(), data, None);
    assert_eq!(chart.violation(), Some(Violation::EmptySymbol));
    let mut both = three_bars();
    both[1] = candle(-5, 10, 8, 9, 9);
    assert_eq!(snapshot(both).violation(), Some(Violation::PriceOrder { index: 1 }));
}

#[test]
fn later_bar_of_an_instant_wins() {
    let data = vec![
        candle(0, 10, 12, 9, 11),
        candle(0, 10, 14, 9, 13),
        candle(60, 13, 13, 13, 13),
        candle(120, 13, 15, 12, 12),
        candle(120, 13, 16, 12, 14),
        candle(120, 13, 17, 11, 15),
    ];
    let chart = ChartData::new(
        "AAPL".to_string(),
        "1m".to_string(),
        data,
        Some(Indicators { sma_50: Some(vec![1, 2, 3, 4, 5, 6]), rsi: None }),
    );
    let series = chart.normalized().unwrap();
    assert_eq!(
        series.data,
        vec![candle(0, 10, 14, 9, 13), candle(60, 13, 13, 13, 13), candle(120, 13, 17, 11, 15)]
    );
    assert_eq!(series.indicators, Some(Indicators { sma_50: Some(vec![2, 3, 6]), rsi: None }));
    assert_eq!(series.symbol, "AAPL");
    assert_eq!(series.timeframe, "1m");
}
