//! Folding raw trades into an OHLC candle for one pair and one time
//! window.
//!
//! The window is half-open: a trade belongs to it when its event time
//! lies in `[start_ts, end_ts)` and its pair matches. Over the trades of
//! a window: open is the price of the earliest trade (the first seen on
//! a tie), close the price of the latest (the last seen on a tie), high
//! and low the extreme prices, and the volume split sums base quantity
//! and quote amount per taker side. A window with no trades yields no
//! candle. A window trade whose price, quantity or amount does not parse
//! as a decimal makes the whole aggregation fail, like a store that
//! rejects a malformed numeric column; the caller logs and drops it.

use vstd::prelude::*;
use crate::fixed::{FIXED_VALUE_LIMIT, parse_fixed, parse_fixed_chars};
use crate::records::{Kline, KlineView, RecentTrade, RecentTradeView, VBS, VbsView};

verus! {

/// Why an aggregation run produced no result.
#[derive(Debug, PartialEq, Eq, Structural)]
pub enum AggregateError {
    /// A trade inside the window carries an unparsable numeric string.
    BadNumber,
}

pub open spec fn trade_in_window(
    t: RecentTradeView,
    pair: Seq<char>,
    start_ts: int,
    end_ts: int,
) -> bool {
    t.pair == pair && start_ts <= t.timestamp < end_ts
}

pub open spec fn in_window_pred(pair: Seq<char>, start_ts: int, end_ts: int) -> spec_fn(
    RecentTradeView,
) -> bool {
    |t: RecentTradeView| trade_in_window(t, pair, start_ts, end_ts)
}

pub open spec fn trades_view(ts: Seq<RecentTrade>) -> Seq<RecentTradeView> {
    ts.map_values(|t: RecentTrade| t@)
}

/// The trades of one pair falling in one window, in stream order.
pub open spec fn window_trades(
    ts: Seq<RecentTradeView>,
    pair: Seq<char>,
    start_ts: int,
    end_ts: int,
) -> Seq<RecentTradeView> {
    ts.filter(in_window_pred(pair, start_ts, end_ts))
}

pub open spec fn trade_numbers_ok(t: RecentTradeView) -> bool {
    &&& parse_fixed_chars(t.price) is Some
    &&& parse_fixed_chars(t.quantity) is Some
    &&& parse_fixed_chars(t.amount) is Some
}

pub open spec fn all_numbers_ok(w: Seq<RecentTradeView>) -> bool {
    forall|i: int| 0 <= i < w.len() ==> trade_numbers_ok(#[trigger] w[i])
}

pub open spec fn price_of(t: RecentTradeView) -> int {
    parse_fixed_chars(t.price)->Some_0 as int
}

pub open spec fn qty_of(t: RecentTradeView) -> int {
    parse_fixed_chars(t.quantity)->Some_0 as int
}

pub open spec fn amount_of(t: RecentTradeView) -> int {
    parse_fixed_chars(t.amount)->Some_0 as int
}

/// Index of the earliest trade; on equal times the first one seen.
pub open spec fn earliest_index(w: Seq<RecentTradeView>) -> int
    decreases w.len(),
{
    if w.len() <= 1 {
        0
    } else {
        let r = earliest_index(w.drop_last());
        if w.last().timestamp < w[r].timestamp {
            w.len() - 1
        } else {
            r
        }
    }
}

/// Index of the latest trade; on equal times the last one seen.
pub open spec fn latest_index(w: Seq<RecentTradeView>) -> int
    decreases w.len(),
{
    if w.len() <= 1 {
        0
    } else {
        let r = latest_index(w.drop_last());
        if w.last().timestamp >= w[r].timestamp {
            w.len() - 1
        } else {
            r
        }
    }
}

pub open spec fn max_price(w: Seq<RecentTradeView>) -> int
    decreases w.len(),
{
    if w.len() <= 1 {
        price_of(w[0])
    } else {
        let m = max_price(w.drop_last());
        if price_of(w.last()) > m {
            price_of(w.last())
        } else {
            m
        }
    }
}

pub open spec fn min_price(w: Seq<RecentTradeView>) -> int
    decreases w.len(),
{
    if w.len() <= 1 {
        price_of(w[0])
    } else {
        let m = min_price(w.drop_last());
        if price_of(w.last()) < m {
            price_of(w.last())
        } else {
            m
        }
    }
}

/// Sum of base quantity over the window's trades of one taker side.
pub open spec fn sum_base(w: Seq<RecentTradeView>, side: Seq<char>) -> int
    decreases w.len(),
{
    if w.len() == 0 {
        0
    } else {
        sum_base(w.drop_last(), side) + if w.last().side == side {
            qty_of(w.last())
        } else {
            0
        }
    }
}

/// Sum of quote amount over the window's trades of one taker side.
pub open spec fn sum_quote(w: Seq<RecentTradeView>, side: Seq<char>) -> int
    decreases w.len(),
{
    if w.len() == 0 {
        0
    } else {
        sum_quote(w.drop_last(), side) + if w.last().side == side {
            amount_of(w.last())
        } else {
            0
        }
    }
}

pub proof fn lemma_earliest_index_bounds(w: Seq<RecentTradeView>)
    requires
        w.len() > 0,
    ensures
        0 <= earliest_index(w) < w.len(),
    decreases w.len(),
{
    if w.len() > 1 {
        lemma_earliest_index_bounds(w.drop_last());
    }
}

pub proof fn lemma_latest_index_bounds(w: Seq<RecentTradeView>)
    requires
        w.len() > 0,
    ensures
        0 <= latest_index(w) < w.len(),
    decreases w.len(),
{
    if w.len() > 1 {
        lemma_latest_index_bounds(w.drop_last());
    }
}

/// The whole aggregation, as a function of the trade sequence.
pub open spec fn aggregate_spec(
    ts: Seq<RecentTradeView>,
    pair: Seq<char>,
    time_frame: Seq<char>,
    start_ts: int,
    end_ts: int,
) -> Result<Option<KlineView>, AggregateError> {
    let w = window_trades(ts, pair, start_ts, end_ts);
    if !all_numbers_ok(w) {
        Err(AggregateError::BadNumber)
    } else if w.len() == 0 {
        Ok(None)
    } else {
        Ok(
            Some(
                KlineView {
                    pair: pair,
                    time_frame: time_frame,
                    open: price_of(w[earliest_index(w)]),
                    high: max_price(w),
                    low: min_price(w),
                    close: price_of(w[latest_index(w)]),
                    volume_bs: VbsView {
                        buy_base: sum_base(w, "buy"@),
                        sell_base: sum_base(w, "sell"@),
                        buy_quote: sum_quote(w, "buy"@),
                        sell_quote: sum_quote(w, "sell"@),
                    },
                    utc_begin: start_ts,
                },
            ),
        )
    }
}

/// The model value of an aggregation result.
pub open spec fn agg_result_view(r: Result<Option<Kline>, AggregateError>) -> Result<
    Option<KlineView>,
    AggregateError,
> {
    match r {
        Ok(None) => Ok(None),
        Ok(Some(k)) => Ok(Some(k@)),
        Err(e) => Err(e),
    }
}

/// A window with no trades yields no candle.
pub proof fn lemma_empty_window_no_candle(
    ts: Seq<RecentTradeView>,
    pair: Seq<char>,
    time_frame: Seq<char>,
    start_ts: int,
    end_ts: int,
)
    requires
        window_trades(ts, pair, start_ts, end_ts).len() == 0,
    ensures
        aggregate_spec(ts, pair, time_frame, start_ts, end_ts) == Ok::<
            Option<KlineView>,
            AggregateError,
        >(None),
{
}

/// Compute the candle of one pair and one window from raw trades.
///
/// Returns exactly what `aggregate_spec` says of the trades' models:
/// no candle for an empty window, an error if a window trade carries a
/// bad number, and otherwise the OHLC candle with its volume split.
pub fn aggregate_trades_to_candles(
    trades: &Vec<RecentTrade>,
    pair: &str,
    time_frame: &str,
    start_ts: i64,
    end_ts: i64,
) -> (r: Result<Option<Kline>, AggregateError>)
    ensures
        agg_result_view(r) == aggregate_spec(
            trades_view(trades@),
            pair@,
            time_frame@,
            start_ts as int,
            end_ts as int,
        ),
{
    let ghost tsv: Seq<RecentTradeView> = trades_view(trades@);
    let ghost pred = in_window_pred(pair@, start_ts as int, end_ts as int);
    let pair_owned: String = pair.to_owned();
    let buy_str: String = String::from_str("buy");
    let sell_str: String = String::from_str("sell");

    let mut any: bool = false;
    let mut open_px: i64 = 0;
    let mut open_ts: i64 = 0;
    let mut close_px: i64 = 0;
    let mut close_ts: i64 = 0;
    let mut high: i64 = 0;
    let mut low: i64 = 0;
    let mut buy_base: i128 = 0;
    let mut sell_base: i128 = 0;
    let mut buy_quote: i128 = 0;
    let mut sell_quote: i128 = 0;

    let n: usize = trades.len();
    let mut i: usize = 0;
    while i < n
        invariant
            0 <= i <= n == trades@.len(),
            tsv == trades_view(trades@),
            pred == in_window_pred(pair@, start_ts as int, end_ts as int),
            pair_owned@ == pair@,
            buy_str@ == "buy"@,
            sell_str@ == "sell"@,
            all_numbers_ok(tsv.take(i as int).filter(pred)),
            any <==> tsv.take(i as int).filter(pred).len() > 0,
            any ==> ({
                let w = tsv.take(i as int).filter(pred);
                &&& open_ts == w[earliest_index(w)].timestamp
                &&& open_px == price_of(w[earliest_index(w)])
                &&& close_ts == w[latest_index(w)].timestamp
                &&& close_px == price_of(w[latest_index(w)])
                &&& high == max_price(w)
                &&& low == min_price(w)
            }),
            buy_base == sum_base(tsv.take(i as int).filter(pred), "buy"@),
            sell_base == sum_base(tsv.take(i as int).filter(pred), "sell"@),
            buy_quote == sum_quote(tsv.take(i as int).filter(pred), "buy"@),
            sell_quote == sum_quote(tsv.take(i as int).filter(pred), "sell"@),
            0 <= buy_base <= (i as int) * (FIXED_VALUE_LIMIT as int),
            0 <= sell_base <= (i as int) * (FIXED_VALUE_LIMIT as int),
            0 <= buy_quote <= (i as int) * (FIXED_VALUE_LIMIT as int),
            0 <= sell_quote <= (i as int) * (FIXED_VALUE_LIMIT as int),
        decreases n - i,
    {
        let t = &trades[i];
        proof {
            assert(tsv[i as int] == trades@[i as int]@);
            assert(tsv.take(i + 1).drop_last() =~= tsv.take(i as int));
            assert(tsv.take(i + 1).last() == tsv[i as int]);
            reveal_with_fuel(Seq::<RecentTradeView>::filter, 2);
        }
        let in_win = t.pair == pair_owned && start_ts <= t.timestamp && t.timestamp < end_ts;
        proof {
            assert(in_win == pred(tsv[i as int]));
            if !in_win {
                assert(tsv.take(i + 1).filter(pred) == tsv.take(i as int).filter(pred));
            } else {
                assert(tsv.take(i + 1).filter(pred) == tsv.take(i as int).filter(pred).push(
                    tsv[i as int],
                ));
            }
        }
        if in_win {
            let px = match parse_fixed(t.price.as_str()) {
                Some(v) => v,
                None => {
                    proof {
                        lemma_bad_number(tsv, pred, i as int);
                        assert(tsv.take(tsv.len() as int) =~= tsv);
                    }
                    return Err(AggregateError::BadNumber);
                },
            };
            let qty = match parse_fixed(t.quantity.as_str()) {
                Some(v) => v,
                None => {
                    proof {
                        lemma_bad_number(tsv, pred, i as int);
                        assert(tsv.take(tsv.len() as int) =~= tsv);
                    }
                    return Err(AggregateError::BadNumber);
                },
            };
            let amt = match parse_fixed(t.amount.as_str()) {
                Some(v) => v,
                None => {
                    proof {
                        lemma_bad_number(tsv, pred, i as int);
                        assert(tsv.take(tsv.len() as int) =~= tsv);
                    }
                    return Err(AggregateError::BadNumber);
                },
            };
            proof {
                let w = tsv.take(i as int).filter(pred);
                let w2 = tsv.take(i + 1).filter(pred);
                assert(w2 == w.push(tsv[i as int]));
                assert(w2.drop_last() =~= w);
                assert(w2.last() == tsv[i as int]);
                assert(trade_numbers_ok(tsv[i as int]));
                assert(all_numbers_ok(w2)) by {
                    assert(forall|k: int|
                        0 <= k < w.len() ==> #[trigger] w2[k] == w[k]);
                }
                if w.len() > 0 {
                    lemma_earliest_index_bounds(w);
                    lemma_latest_index_bounds(w);
                }
                lemma_earliest_index_bounds(w2);
                lemma_latest_index_bounds(w2);
            }
            if !any {
                any = true;
                open_px = px;
                open_ts = t.timestamp;
                close_px = px;
                close_ts = t.timestamp;
                high = px;
                low = px;
            } else {
                if t.timestamp < open_ts {
                    open_px = px;
                    open_ts = t.timestamp;
                }
                if t.timestamp >= close_ts {
                    close_px = px;
                    close_ts = t.timestamp;
                }
                if px > high {
                    high = px;
                }
                if px < low {
                    low = px;
                }
            }
            let is_buy = t.side == buy_str;
            let is_sell = t.side == sell_str;
            if is_buy {
                buy_base = buy_base + (qty as i128);
                buy_quote = buy_quote + (amt as i128);
            }
            if is_sell {
                sell_base = sell_base + (qty as i128);
                sell_quote = sell_quote + (amt as i128);
            }
        }
        i = i + 1;
    }

    proof {
        assert(tsv.take(n as int) =~= tsv);
    }
    if !any {
        return Ok(None);
    }
    Ok(
        Some(
            Kline {
                pair: pair_owned,
                time_frame: time_frame.to_owned(),
                open: open_px,
                high,
                low,
                close: close_px,
                volume_bs: VBS { buy_base, sell_base, buy_quote, sell_quote },
                utc_begin: start_ts,
            },
        ),
    )
}

/// A window trade with a bad number fails the whole window.
proof fn lemma_bad_number(
    tsv: Seq<RecentTradeView>,
    pred: spec_fn(RecentTradeView) -> bool,
    i: int,
)
    requires
        0 <= i < tsv.len(),
        pred(tsv[i]),
        !trade_numbers_ok(tsv[i]),
    ensures
        !all_numbers_ok(tsv.filter(pred)),
{
    tsv.lemma_filter_contains(pred, i);
    let w = tsv.filter(pred);
    let j = choose|j: int| 0 <= j < w.len() && w[j] == tsv[i];
    assert(!trade_numbers_ok(w[j]));
}

} // verus!
