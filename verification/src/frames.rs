//! Outbound control frames and the fixed subscription configuration.
//!
//! The subscribe and heartbeat frames are JSON text built here byte for
//! byte, with contracts pinning the exact string sent. The channel and
//! pair lists mirror the deployment's fixed configuration and are
//! injected into the supervisors at construction.

use vstd::prelude::*;

verus! {

/// Channel names plus symbols, sent once per connection establishment.
pub struct Subscription {
    pub channels: Vec<String>,
    pub symbols: Vec<String>,
}

/// A JSON string literal: the text between quotes.
pub open spec fn quoted(s: Seq<char>) -> Seq<char> {
    "\""@ + s + "\""@
}

/// A comma-separated list of JSON string literals.
pub open spec fn json_string_list(items: Seq<Seq<char>>) -> Seq<char>
    decreases items.len(),
{
    if items.len() == 0 {
        Seq::empty()
    } else if items.len() == 1 {
        quoted(items[0])
    } else {
        json_string_list(items.drop_last()) + ","@ + quoted(items.last())
    }
}

/// The exact text of a subscribe frame.
pub open spec fn subscribe_frame_spec(channels: Seq<Seq<char>>, symbols: Seq<Seq<char>>) -> Seq<
    char,
> {
    "{\"event\":\"subscribe\",\"channel\":["@ + json_string_list(channels) + "],\"symbols\":["@
        + json_string_list(symbols) + "]}"@
}

/// The exact text of a heartbeat frame.
pub open spec fn ping_frame_spec() -> Seq<char> {
    "{\"event\":\"ping\"}"@
}

fn json_string_list_exec(items: &Vec<String>) -> (r: String)
    ensures
        r@ == json_string_list(items.deep_view()),
{
    let ghost dv: Seq<Seq<char>> = items.deep_view();
    let mut out = String::new();
    let n: usize = items.len();
    let mut i: usize = 0;
    while i < n
        invariant
            0 <= i <= n == items@.len(),
            dv == items.deep_view(),
            out@ == json_string_list(dv.take(i as int)),
        decreases n - i,
    {
        proof {
            assert(dv.take(i + 1).drop_last() =~= dv.take(i as int));
            assert(dv.take(i + 1).last() == dv[i as int]);
            assert(dv[i as int] == items@[i as int]@);
        }
        if i > 0 {
            out.append(",");
        }
        out.append("\"");
        out.append(items[i].as_str());
        out.append("\"");
        proof {
            if i == 0 {
                assert(out@ =~= quoted(dv[0]));
                assert(json_string_list(dv.take(1)) == quoted(dv.take(1)[0]));
            } else {
                assert(out@ =~= json_string_list(dv.take(i as int)) + ","@ + quoted(dv[i as int]));
            }
        }
        i = i + 1;
    }
    proof {
        assert(dv.take(n as int) =~= dv);
    }
    out
}

/// Build the subscribe frame for a subscription, exactly the text that
/// `subscribe_frame_spec` gives.
pub fn subscribe_frame(sub: &Subscription) -> (r: String)
    ensures
        r@ == subscribe_frame_spec(sub.channels.deep_view(), sub.symbols.deep_view()),
{
    let mut out = String::from_str("{\"event\":\"subscribe\",\"channel\":[");
    let chans = json_string_list_exec(&sub.channels);
    out.append(chans.as_str());
    out.append("],\"symbols\":[");
    let syms = json_string_list_exec(&sub.symbols);
    out.append(syms.as_str());
    out.append("]}");
    proof {
        assert(out@ =~= subscribe_frame_spec(sub.channels.deep_view(), sub.symbols.deep_view()));
    }
    out
}

/// Build the heartbeat frame.
pub fn ping_frame() -> (r: String)
    ensures
        r@ == ping_frame_spec(),
{
    String::from_str("{\"event\":\"ping\"}")
}

/// The candle channels the deployment subscribes to.
pub fn candle_channels() -> (r: Vec<String>)
    ensures
        r.deep_view() =~= seq![
            "candles_minute_1"@,
            "candles_minute_15"@,
            "candles_hour_1"@,
            "candles_day_1"@,
        ],
{
    let mut v: Vec<String> = Vec::new();
    v.push(String::from_str("candles_minute_1"));
    v.push(String::from_str("candles_minute_15"));
    v.push(String::from_str("candles_hour_1"));
    v.push(String::from_str("candles_day_1"));
    v
}

/// The symbols of the candle subscription, written lower-case as the
/// candle channels expect them.
pub fn candle_symbols() -> (r: Vec<String>)
    ensures
        r.deep_view() =~= seq!["btc_usdt"@, "trx_usdt"@, "eth_usdt"@, "doge_usdt"@, "bch_usdt"@],
{
    let mut v: Vec<String> = Vec::new();
    v.push(String::from_str("btc_usdt"));
    v.push(String::from_str("trx_usdt"));
    v.push(String::from_str("eth_usdt"));
    v.push(String::from_str("doge_usdt"));
    v.push(String::from_str("bch_usdt"));
    v
}

/// The single trade channel.
pub fn trade_channels() -> (r: Vec<String>)
    ensures
        r.deep_view() =~= seq!["trades"@],
{
    let mut v: Vec<String> = Vec::new();
    v.push(String::from_str("trades"));
    v
}

/// The tracked trading pairs, as persisted and as the trade channel
/// names them.
pub fn tracked_pairs() -> (r: Vec<String>)
    ensures
        r.deep_view() =~= seq!["BTC_USDT"@, "TRX_USDT"@, "ETH_USDT"@, "DOGE_USDT"@, "BCH_USDT"@],
{
    let mut v: Vec<String> = Vec::new();
    v.push(String::from_str("BTC_USDT"));
    v.push(String::from_str("TRX_USDT"));
    v.push(String::from_str("ETH_USDT"));
    v.push(String::from_str("DOGE_USDT"));
    v.push(String::from_str("BCH_USDT"));
    v
}

/// The candle timeframes the aggregator and the backfill cover.
pub fn tracked_intervals() -> (r: Vec<String>)
    ensures
        r.deep_view() =~= seq!["MINUTE_1"@, "MINUTE_15"@, "HOUR_1"@, "DAY_1"@],
{
    let mut v: Vec<String> = Vec::new();
    v.push(String::from_str("MINUTE_1"));
    v.push(String::from_str("MINUTE_15"));
    v.push(String::from_str("HOUR_1"));
    v.push(String::from_str("DAY_1"));
    v
}

} // verus!
