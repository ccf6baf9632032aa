use flowsurface::chart::{render, Viewport};
use flowsurface::data_format::{Candlestick, ChartData};
use flowsurface::dev_mock::{
    make_mock_data, mock_bar, MOCK_INTERVAL, MOCK_MAX_STEP, MOCK_MAX_VOLUME, MOCK_START_PRICE,
    MOCK_START_TIME,
};

#[test]
fn sixty_mock_bars_form_a_continuous_walk() {
    let bars = make_mock_data(60);
    assert_eq!(bars.len(), 60);
    assert_eq!(bars[0].timestamp, 1_672_444_800);
    assert_eq!(bars[0].open, 1_500_000);
    for i in 0..bars.len() {
        let bar = bars[i];
        assert_eq!(bar.timestamp, MOCK_START_TIME + MOCK_INTERVAL * i as i64);
        assert!(bar.low <= bar.open.min(bar.close));
        assert!(bar.open.max(bar.close) <= bar.high);
        assert!(bar.is_well_formed());
        assert!((bar.close - bar.open).abs() <= MOCK_MAX_STEP);
        assert!(0 <= bar.volume && bar.volume < MOCK_MAX_VOLUME);
        if i > 0 {
            assert!(bars[i - 1].timestamp < bar.timestamp);
            assert_eq!(bar.timestamp - bars[i - 1].timestamp, 60);
            assert_eq!(bar.open, bars[i - 1].close);
        }
    }
}

#[test]
fn no_bars_asked_no_bars_made() {
    assert!(make_mock_data(0).is_empty());
}

#[test]
fn mock_bar_is_fixed_by_its_draws() {
    let bar = mock_bar(1_672_444_800, 1_500_000, 15_000, 20_123, 456, 2_000_000_123);
    assert_eq!(
        bar,
        Candlestick {
            timestamp: 1_672_444_800,
            open: 1_500_000,
            high: 1_505_123,
            low: 1_499_544,
            close: 1_505_000,
            volume: 123,
        }
    );
    let falling = mock_bar(60, MOCK_START_PRICE, 0, 0, 9_999, 999_999_999);
    assert_eq!(
        falling,
        Candlestick {
            timestamp: 60,
            open: 1_500_000,
            high: 1_500_000,
            low: 1_480_001,
            close: 1_490_000,
            volume: 999_999_999,
        }
    );
}

#[test]
fn mock_series_is_admitted_unchanged_and_renders() {
    let bars = make_mock_data(25);
    let chart = ChartData::new("MOCK".to_string(), "1m".to_string(), bars.clone(), None);
    let admitted = chart.clone().normalized();
    assert_eq!(admitted, Ok(chart));
    assert_eq!(render(&bars, Viewport { width: 800, height: 600 }).len(), 50);
}
