use market_ingest::aggregate::{aggregate_trades_to_candles, AggregateError};
use market_ingest::backfill::kline_from_backfill_row;
use market_ingest::records::RecentTrade;
use market_ingest::window::{get_time_range, window_bounds, BACKFILL_START_MS};

fn trade(
    tid: &str,
    pair: &str,
    price: &str,
    amount: &str,
    quantity: &str,
    side: &str,
    ts: i64,
) -> RecentTrade {
    RecentTrade {
        tid: String::from(tid),
        pair: String::from(pair),
        price: String::from(price),
        amount: String::from(amount),
        quantity: String::from(quantity),
        side: String::from(side),
        create_time: ts,
        timestamp: ts,
    }
}

// Window anchored at a minute boundary.
const T0: i64 = 1_700_000_040_000;

#[test]
fn one_minute_window_ohlc_and_volume_split() {
    // quote amount = price * quantity for each trade
    let trades = vec![
        trade("1", "BTC_USDT", "10", "10", "1", "buy", T0),
        trade("2", "BTC_USDT", "12", "24", "2", "sell", T0 + 30_000),
    ];
    let k = aggregate_trades_to_candles(&trades, "BTC_USDT", "1m", T0, T0 + 60_000)
        .unwrap()
        .unwrap();
    assert_eq!(k.open, 1_000_000_000);
    assert_eq!(k.close, 1_200_000_000);
    assert_eq!(k.high, 1_200_000_000);
    assert_eq!(k.low, 1_000_000_000);
    assert_eq!(k.volume_bs.buy_base, 100_000_000);
    assert_eq!(k.volume_bs.sell_base, 200_000_000);
    assert_eq!(k.volume_bs.buy_quote, 1_000_000_000);
    assert_eq!(k.volume_bs.sell_quote, 2_400_000_000);
    assert_eq!(k.pair.as_str(), "BTC_USDT");
    assert_eq!(k.time_frame.as_str(), "1m");
    assert_eq!(k.utc_begin, T0);
}

#[test]
fn empty_window_yields_no_candle() {
    let trades = vec![trade("1", "BTC_USDT", "10", "10", "1", "buy", T0 - 1)];
    let r = aggregate_trades_to_candles(&trades, "BTC_USDT", "1m", T0, T0 + 60_000).unwrap();
    assert!(r.is_none());
}

#[test]
fn other_pair_is_not_aggregated() {
    let trades = vec![trade("1", "ETH_USDT", "10", "10", "1", "buy", T0 + 1)];
    let r = aggregate_trades_to_candles(&trades, "BTC_USDT", "1m", T0, T0 + 60_000).unwrap();
    assert!(r.is_none());
}

#[test]
fn window_end_is_exclusive() {
    let trades = vec![
        trade("1", "BTC_USDT", "10", "10", "1", "buy", T0),
        trade("2", "BTC_USDT", "99", "99", "1", "buy", T0 + 60_000),
    ];
    let k = aggregate_trades_to_candles(&trades, "BTC_USDT", "1m", T0, T0 + 60_000)
        .unwrap()
        .unwrap();
    assert_eq!(k.high, 1_000_000_000);
}

#[test]
fn earliest_and_latest_prices_win_open_and_close() {
    let trades = vec![
        trade("2", "BTC_USDT", "11", "11", "1", "sell", T0 + 20_000),
        trade("1", "BTC_USDT", "10", "10", "1", "buy", T0 + 10_000),
        trade("3", "BTC_USDT", "12", "12", "1", "sell", T0 + 30_000),
    ];
    let k = aggregate_trades_to_candles(&trades, "BTC_USDT", "1m", T0, T0 + 60_000)
        .unwrap()
        .unwrap();
    assert_eq!(k.open, 1_000_000_000);
    assert_eq!(k.close, 1_200_000_000);
}

#[test]
fn bad_number_in_window_fails_aggregation() {
    let trades = vec![trade("1", "BTC_USDT", "ten", "10", "1", "buy", T0 + 1)];
    let r = aggregate_trades_to_candles(&trades, "BTC_USDT", "1m", T0, T0 + 60_000);
    assert!(matches!(r, Err(AggregateError::BadNumber)));
}

#[test]
fn bad_number_outside_window_is_ignored() {
    let trades = vec![
        trade("1", "BTC_USDT", "ten", "10", "1", "buy", T0 - 1),
        trade("2", "BTC_USDT", "10", "10", "1", "buy", T0 + 1),
    ];
    let k = aggregate_trades_to_candles(&trades, "BTC_USDT", "1m", T0, T0 + 60_000)
        .unwrap()
        .unwrap();
    assert_eq!(k.open, 1_000_000_000);
}

#[test]
fn window_bounds_truncate_to_the_minute() {
    let (start, end) = window_bounds(T0 + 31_234, 1);
    assert_eq!(start, T0);
    assert_eq!(end, T0 + 60_000);
    let (start15, end15) = window_bounds(T0 + 31_234, 15);
    assert_eq!(start15, T0);
    assert_eq!(end15, T0 + 15 * 60_000);
}

#[test]
fn backfill_time_range_starts_at_fixed_date() {
    let (start, _end) = get_time_range();
    assert_eq!(start, BACKFILL_START_MS);
    assert_eq!(start, 1_733_011_200_000);
}

#[test]
fn backfill_row_conversion_splits_taker_volume() {
    let k = kline_from_backfill_row(
        "BTC_USDT",
        "MINUTE_1",
        "9.5",
        "12",
        "10",
        "11",
        "33",
        "3",
        "11",
        "1",
        T0,
    );
    assert_eq!(k.pair.as_str(), "BTC_USDT");
    assert_eq!(k.time_frame.as_str(), "MINUTE_1");
    assert_eq!(k.low, 950_000_000);
    assert_eq!(k.high, 1_200_000_000);
    assert_eq!(k.open, 1_000_000_000);
    assert_eq!(k.close, 1_100_000_000);
    assert_eq!(k.volume_bs.buy_base, 100_000_000);
    assert_eq!(k.volume_bs.sell_base, 200_000_000);
    assert_eq!(k.volume_bs.buy_quote, 1_100_000_000);
    assert_eq!(k.volume_bs.sell_quote, 2_200_000_000);
    assert_eq!(k.utc_begin, T0);
}

#[test]
fn backfill_row_bad_column_falls_back_to_zero() {
    let k = kline_from_backfill_row(
        "BTC_USDT",
        "MINUTE_1",
        "x",
        "12",
        "10",
        "11",
        "33",
        "3",
        "0",
        "0",
        T0,
    );
    assert_eq!(k.low, 0);
    assert_eq!(k.volume_bs.buy_base, 0);
    assert_eq!(k.volume_bs.sell_base, 300_000_000);
}
