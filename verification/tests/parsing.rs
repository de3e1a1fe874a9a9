use market_ingest::ascii::i64_to_string;
use market_ingest::fixed::parse_fixed;
use market_ingest::jsonio::{parse_candle_message, parse_trade_message};
use market_ingest::normalize::{
    candle_from_fields, time_frame_label, trade_from_fields, CandleFields, TradeFields,
};

#[test]
fn parse_fixed_whole_number() {
    assert_eq!(parse_fixed("10"), Some(1_000_000_000));
    assert_eq!(parse_fixed("0"), Some(0));
    assert_eq!(parse_fixed("007"), Some(700_000_000));
}

#[test]
fn parse_fixed_fractions() {
    assert_eq!(parse_fixed("12.5"), Some(1_250_000_000));
    assert_eq!(parse_fixed("0.00000001"), Some(1));
    assert_eq!(parse_fixed("3.14159265"), Some(314_159_265));
}

#[test]
fn parse_fixed_rejects_bad_strings() {
    assert_eq!(parse_fixed(""), None);
    assert_eq!(parse_fixed("abc"), None);
    assert_eq!(parse_fixed("1."), None);
    assert_eq!(parse_fixed(".5"), None);
    assert_eq!(parse_fixed("1.2.3"), None);
    assert_eq!(parse_fixed("12,5"), None);
    assert_eq!(parse_fixed("-3"), None);
    // nine fractional digits: beyond the eight the scale keeps
    assert_eq!(parse_fixed("1.123456789"), None);
}

#[test]
fn parse_fixed_integer_limit() {
    assert_eq!(parse_fixed("9999999999"), Some(999_999_999_900_000_000));
    // the integer part must stay below 10^10
    assert_eq!(parse_fixed("10000000000"), None);
}

#[test]
fn decimal_text_of_integers() {
    assert_eq!(i64_to_string(0).as_str(), "0");
    assert_eq!(i64_to_string(12345).as_str(), "12345");
    assert_eq!(i64_to_string(-42).as_str(), "-42");
}

#[test]
fn timeframe_label_from_channel() {
    assert_eq!(time_frame_label("candles_minute_1").as_str(), "MINUTE_1");
    assert_eq!(time_frame_label("candles_day_1").as_str(), "DAY_1");
    assert_eq!(time_frame_label("trades").as_str(), "");
}

fn full_candle_fields() -> CandleFields {
    CandleFields {
        symbol: Some(String::from("BTC_USDT")),
        open: Some(String::from("10")),
        high: Some(String::from("12")),
        low: Some(String::from("9.5")),
        close: Some(String::from("11")),
        quantity: Some(String::from("3")),
        amount: Some(String::from("33")),
        start_time: Some(1_700_000_040_000),
    }
}

#[test]
fn candle_label_equals_uppercased_channel_suffix() {
    let k = candle_from_fields(&full_candle_fields(), "candles_minute_15").unwrap();
    assert_eq!(k.time_frame.as_str(), "MINUTE_15");
    assert_eq!(k.pair.as_str(), "BTC_USDT");
    assert_eq!(k.open, 1_000_000_000);
    assert_eq!(k.high, 1_200_000_000);
    assert_eq!(k.low, 950_000_000);
    assert_eq!(k.close, 1_100_000_000);
    // streamed candles attribute all volume to the sell side
    assert_eq!(k.volume_bs.buy_base, 0);
    assert_eq!(k.volume_bs.sell_base, 300_000_000);
    assert_eq!(k.volume_bs.buy_quote, 0);
    assert_eq!(k.volume_bs.sell_quote, 3_300_000_000);
    assert_eq!(k.utc_begin, 1_700_000_040_000);
}

#[test]
fn candle_missing_close_yields_no_record() {
    let mut f = full_candle_fields();
    f.close = None;
    assert!(candle_from_fields(&f, "candles_minute_1").is_none());
}

#[test]
fn candle_unparsable_price_yields_no_record() {
    let mut f = full_candle_fields();
    f.open = Some(String::from("ten"));
    assert!(candle_from_fields(&f, "candles_minute_1").is_none());
}

#[test]
fn trade_from_numeric_id() {
    let f = TradeFields {
        symbol: Some(String::from("ETH_USDT")),
        price: Some(String::from("1800.5")),
        amount: Some(String::from("3601")),
        quantity: Some(String::from("2")),
        side: Some(String::from("buy")),
        create_time: Some(1_700_000_000_001),
        id_text: None,
        id_number: Some(98765),
        ts: Some(1_700_000_000_002),
    };
    let t = trade_from_fields(&f).unwrap();
    assert_eq!(t.tid.as_str(), "98765");
    assert_eq!(t.pair.as_str(), "ETH_USDT");
    assert_eq!(t.price.as_str(), "1800.5");
    assert_eq!(t.side.as_str(), "buy");
    assert_eq!(t.create_time, 1_700_000_000_001);
    assert_eq!(t.timestamp, 1_700_000_000_002);
}

#[test]
fn trade_missing_create_time_defaults_to_zero() {
    let f = TradeFields {
        symbol: Some(String::from("ETH_USDT")),
        price: Some(String::from("1800.5")),
        amount: Some(String::from("3601")),
        quantity: Some(String::from("2")),
        side: Some(String::from("buy")),
        create_time: None,
        id_text: None,
        id_number: Some(7),
        ts: Some(1_700_000_000_002),
    };
    let t = trade_from_fields(&f).unwrap();
    assert_eq!(t.create_time, 0);
    assert_eq!(t.timestamp, 1_700_000_000_002);
}

#[test]
fn trade_missing_side_yields_no_record() {
    let f = TradeFields {
        symbol: Some(String::from("ETH_USDT")),
        price: Some(String::from("1800.5")),
        amount: Some(String::from("3601")),
        quantity: Some(String::from("2")),
        side: None,
        create_time: Some(1),
        id_text: Some(String::from("a1")),
        id_number: None,
        ts: Some(2),
    };
    assert!(trade_from_fields(&f).is_none());
}

#[test]
fn candle_message_end_to_end() {
    let text = "{\"channel\":\"candles_minute_1\",\"data\":[{\"symbol\":\"BTC_USDT\",\
                \"open\":\"10\",\"high\":\"12\",\"low\":\"9.5\",\"close\":\"11\",\
                \"quantity\":\"3\",\"amount\":\"33\",\"startTime\":1700000040000}]}";
    let k = parse_candle_message(text).unwrap();
    assert_eq!(k.pair.as_str(), "BTC_USDT");
    assert_eq!(k.time_frame.as_str(), "MINUTE_1");
    assert_eq!(k.open, 1_000_000_000);
    assert_eq!(k.volume_bs.sell_quote, 3_300_000_000);
}

#[test]
fn candle_message_missing_close_is_dropped() {
    let text = "{\"channel\":\"candles_minute_1\",\"data\":[{\"symbol\":\"BTC_USDT\",\
                \"open\":\"10\",\"high\":\"12\",\"low\":\"9.5\",\
                \"quantity\":\"3\",\"amount\":\"33\",\"startTime\":1700000040000}]}";
    assert!(parse_candle_message(text).is_none());
}

#[test]
fn trade_message_end_to_end() {
    let text = "{\"channel\":\"trades\",\"data\":[{\"symbol\":\"BTC_USDT\",\"price\":\"10\",\
                \"amount\":\"10\",\"quantity\":\"1\",\"takerSide\":\"buy\",\
                \"createTime\":1700000040000,\"id\":12345,\"ts\":1700000040001}]}";
    let t = parse_trade_message(text).unwrap();
    assert_eq!(t.tid.as_str(), "12345");
    assert_eq!(t.pair.as_str(), "BTC_USDT");
    assert_eq!(t.side.as_str(), "buy");
}

#[test]
fn trade_message_with_text_id() {
    let text = "{\"channel\":\"trades\",\"data\":[{\"symbol\":\"BTC_USDT\",\"price\":\"10\",\
                \"amount\":\"10\",\"quantity\":\"1\",\"takerSide\":\"sell\",\
                \"createTime\":1700000040000,\"id\":\"abc-1\",\"ts\":1700000040001}]}";
    let t = parse_trade_message(text).unwrap();
    assert_eq!(t.tid.as_str(), "abc-1");
}

#[test]
fn malformed_json_is_dropped() {
    assert!(parse_candle_message("not json").is_none());
    assert!(parse_trade_message("{\"data\":7}").is_none());
}

#[test]
fn parsing_the_same_frame_twice_gives_the_same_record() {
    let text = "{\"channel\":\"candles_minute_1\",\"data\":[{\"symbol\":\"BTC_USDT\",\
                \"open\":\"10\",\"high\":\"12\",\"low\":\"9.5\",\"close\":\"11\",\
                \"quantity\":\"3\",\"amount\":\"33\",\"startTime\":1700000040000}]}";
    let a = parse_candle_message(text).unwrap();
    let b = parse_candle_message(text).unwrap();
    assert_eq!(a.pair.as_str(), b.pair.as_str());
    assert_eq!(a.time_frame.as_str(), b.time_frame.as_str());
    assert_eq!(a.open, b.open);
    assert_eq!(a.close, b.close);
    assert_eq!(a.volume_bs.sell_quote, b.volume_bs.sell_quote);
    assert_eq!(a.utc_begin, b.utc_begin);
}
