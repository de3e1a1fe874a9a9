use market_ingest::frames::{
    candle_channels, candle_symbols, ping_frame, subscribe_frame, tracked_intervals,
    tracked_pairs, trade_channels, Subscription,
};
use market_ingest::keepalive::KeepAliveTask;
use market_ingest::records::RecentTrade;
use market_ingest::store::{handle_candle_frame, handle_trade_frame, CandleStore, TradeStore};
use market_ingest::supervisor::{
    supervisor_start, supervisor_step, ConnectionEvent, ConnectionState, SupervisorAction,
};

fn trade(tid: &str, pair: &str, ts: i64) -> RecentTrade {
    RecentTrade {
        tid: String::from(tid),
        pair: String::from(pair),
        price: String::from("10"),
        amount: String::from("10"),
        quantity: String::from("1"),
        side: String::from("buy"),
        create_time: ts,
        timestamp: ts,
    }
}

#[test]
fn duplicate_trade_key_is_stored_once() {
    let mut store = TradeStore::new();
    store.store_trade(trade("1", "BTC_USDT", 100));
    store.store_trade(trade("1", "BTC_USDT", 200));
    assert_eq!(store.trades.len(), 1);
    assert_eq!(store.trades[0].timestamp, 100);
}

#[test]
fn same_id_on_other_pair_is_a_new_row() {
    let mut store = TradeStore::new();
    store.store_trade(trade("1", "BTC_USDT", 100));
    store.store_trade(trade("1", "ETH_USDT", 200));
    assert_eq!(store.trades.len(), 2);
}

#[test]
fn query_returns_pair_window_in_order() {
    let mut store = TradeStore::new();
    store.store_trade(trade("1", "BTC_USDT", 100));
    store.store_trade(trade("2", "ETH_USDT", 150));
    store.store_trade(trade("3", "BTC_USDT", 200));
    store.store_trade(trade("4", "BTC_USDT", 300));
    let r = store.query_trades("BTC_USDT", 100, 300);
    assert_eq!(r.len(), 2);
    assert_eq!(r[0].tid.as_str(), "1");
    assert_eq!(r[1].tid.as_str(), "3");
}

#[test]
fn candle_frame_missing_close_makes_no_store_call() {
    let mut store = CandleStore::new();
    let text = "{\"channel\":\"candles_minute_1\",\"data\":[{\"symbol\":\"BTC_USDT\",\
                \"open\":\"10\",\"high\":\"12\",\"low\":\"9.5\",\
                \"quantity\":\"3\",\"amount\":\"33\",\"startTime\":1700000040000}]}";
    let stored = handle_candle_frame(&mut store, text);
    assert!(!stored);
    assert_eq!(store.candles.len(), 0);
}

#[test]
fn well_formed_candle_frame_is_stored() {
    let mut store = CandleStore::new();
    let text = "{\"channel\":\"candles_hour_1\",\"data\":[{\"symbol\":\"BTC_USDT\",\
                \"open\":\"10\",\"high\":\"12\",\"low\":\"9.5\",\"close\":\"11\",\
                \"quantity\":\"3\",\"amount\":\"33\",\"startTime\":1700000040000}]}";
    let stored = handle_candle_frame(&mut store, text);
    assert!(stored);
    assert_eq!(store.candles.len(), 1);
    assert_eq!(store.candles[0].time_frame.as_str(), "HOUR_1");
}

#[test]
fn trade_frames_with_one_key_store_one_row() {
    let mut store = TradeStore::new();
    let text = "{\"channel\":\"trades\",\"data\":[{\"symbol\":\"BTC_USDT\",\"price\":\"10\",\
                \"amount\":\"10\",\"quantity\":\"1\",\"takerSide\":\"buy\",\
                \"createTime\":1700000040000,\"id\":12345,\"ts\":1700000040001}]}";
    assert!(handle_trade_frame(&mut store, text));
    assert!(handle_trade_frame(&mut store, text));
    assert_eq!(store.trades.len(), 1);
}

#[test]
fn supervisor_retries_with_fixed_delay_until_streaming() {
    // start: one connection attempt
    let (s0, a0) = supervisor_start();
    assert_eq!(s0, ConnectionState::Connecting);
    assert_eq!(a0, SupervisorAction::Connect);
    let mut state = s0;
    let mut attempts = 1u64;
    // two consecutive failures, each answered by a delayed retry
    for _ in 0..2 {
        let (s, a) = supervisor_step(state, ConnectionEvent::ConnectFailed);
        assert_eq!(s, ConnectionState::Disconnected);
        assert_eq!(a, SupervisorAction::RetryAfterDelay);
        let (s2, a2) = supervisor_step(s, ConnectionEvent::RetryElapsed);
        assert_eq!(s2, ConnectionState::Connecting);
        assert_eq!(a2, SupervisorAction::Connect);
        attempts += 1;
        state = s2;
    }
    assert_eq!(attempts, 3);
    let (s3, a3) = supervisor_step(state, ConnectionEvent::ConnectSucceeded);
    assert_eq!(s3, ConnectionState::Subscribed);
    assert_eq!(a3, SupervisorAction::SendSubscribe);
    let (s4, a4) = supervisor_step(s3, ConnectionEvent::SubscribeSent);
    assert_eq!(s4, ConnectionState::Streaming);
    assert_eq!(a4, SupervisorAction::AwaitFrame);
}

#[test]
fn streaming_failures_reconnect() {
    for e in [
        ConnectionEvent::ReadFailed,
        ConnectionEvent::StreamEnded,
        ConnectionEvent::KeepAliveFailed,
    ] {
        let (s, a) = supervisor_step(ConnectionState::Streaming, e);
        assert_eq!(s, ConnectionState::Disconnected);
        assert_eq!(a, SupervisorAction::RetryAfterDelay);
    }
    let (s, a) = supervisor_step(ConnectionState::Streaming, ConnectionEvent::TextFrame);
    assert_eq!(s, ConnectionState::Streaming);
    assert_eq!(a, SupervisorAction::AwaitFrame);
}

#[test]
fn heartbeats_over_uptime() {
    let mut task = KeepAliveTask::new();
    let mut sends = 0u64;
    for now in 1..=58u64 {
        if task.poll(now) {
            sends += 1;
            assert!(now % 29 == 0);
        }
    }
    // floor(58 / 29) heartbeats over 58 seconds of uptime
    assert_eq!(sends, 2);
}

#[test]
fn ping_frame_text() {
    assert_eq!(ping_frame().as_str(), "{\"event\":\"ping\"}");
}

#[test]
fn subscribe_frame_text() {
    let sub = Subscription {
        channels: trade_channels(),
        symbols: vec![String::from("BTC_USDT"), String::from("ETH_USDT")],
    };
    assert_eq!(
        subscribe_frame(&sub).as_str(),
        "{\"event\":\"subscribe\",\"channel\":[\"trades\"],\"symbols\":[\"BTC_USDT\",\"ETH_USDT\"]}"
    );
}

#[test]
fn fixed_configuration_lists() {
    assert_eq!(candle_channels().len(), 4);
    assert_eq!(candle_channels()[0].as_str(), "candles_minute_1");
    assert_eq!(candle_symbols().len(), 5);
    assert_eq!(candle_symbols()[0].as_str(), "btc_usdt");
    assert_eq!(tracked_pairs().len(), 5);
    assert_eq!(tracked_pairs()[4].as_str(), "BCH_USDT");
    assert_eq!(tracked_intervals().len(), 4);
    assert_eq!(tracked_intervals()[3].as_str(), "DAY_1");
}
