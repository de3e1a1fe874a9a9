//! Model of the persistent store's contract, and the dispatch steps
//! that feed it.
//!
//! The durable engine itself is an external collaborator; what the
//! library verifies is the contract the rest of the system relies on:
//! `store_trade` absorbs a duplicate of an already-stored (pair, id)
//! key as a no-op, `store_candles` appends a whole batch with an empty
//! batch a no-op, and `query_trades` returns the trades of one pair in
//! a half-open time interval, in insertion order.

use vstd::prelude::*;
use crate::aggregate::{trades_view, in_window_pred, window_trades};
use crate::normalize::{CandleFields, candle_from_fields, candle_of_fields};
use crate::jsonio::{
    candle_extract_of, candle_message_spec, extract_candle_fields, parse_trade_message,
    trade_message_spec,
};
use crate::records::{Kline, KlineView, RecentTrade, RecentTradeView};

verus! {

/// Two trades collide when they share pair and external id.
pub open spec fn same_trade_key(a: RecentTradeView, b: RecentTradeView) -> bool {
    a.pair == b.pair && a.tid == b.tid
}

pub open spec fn has_trade_key(s: Seq<RecentTradeView>, t: RecentTradeView) -> bool {
    exists|i: int| 0 <= i < s.len() && same_trade_key(#[trigger] s[i], t)
}

/// How many stored rows share `t`'s key.
pub open spec fn key_count(s: Seq<RecentTradeView>, t: RecentTradeView) -> int
    decreases s.len(),
{
    if s.len() == 0 {
        0
    } else {
        key_count(s.drop_last(), t) + if same_trade_key(s.last(), t) {
            1int
        } else {
            0int
        }
    }
}

/// What storing a trade does to the table: a duplicate key is absorbed.
pub open spec fn store_trade_spec(s: Seq<RecentTradeView>, t: RecentTradeView) -> Seq<
    RecentTradeView,
> {
    if has_trade_key(s, t) {
        s
    } else {
        s.push(t)
    }
}

/// The trade table.
pub struct TradeStore {
    pub trades: Vec<RecentTrade>,
}

/// The candle table.
pub struct CandleStore {
    pub candles: Vec<Kline>,
}

impl TradeStore {
    pub open spec fn model(&self) -> Seq<RecentTradeView> {
        trades_view(self.trades@)
    }

    /// No two stored trades share a key.
    pub open spec fn well_formed(&self) -> bool {
        forall|i: int, j: int|
            0 <= i < j < self.model().len() ==> !same_trade_key(
                #[trigger] self.model()[i],
                #[trigger] self.model()[j],
            )
    }

    pub fn new() -> (r: TradeStore)
        ensures
            r.model() == Seq::<RecentTradeView>::empty(),
            r.well_formed(),
    {
        let r = TradeStore { trades: Vec::new() };
        proof {
            assert(r.model() =~= Seq::<RecentTradeView>::empty());
        }
        r
    }

    /// Store a trade; a duplicate of a stored (pair, id) key is a no-op.
    pub fn store_trade(&mut self, t: RecentTrade)
        ensures
            final(self).model() == store_trade_spec(old(self).model(), t@),
            old(self).well_formed() ==> final(self).well_formed(),
    {
        let n: usize = self.trades.len();
        let mut i: usize = 0;
        while i < n
            invariant
                0 <= i <= n == self.trades@.len(),
                *self == *old(self),
                forall|k: int| 0 <= k < i ==> !same_trade_key(#[trigger] old(self).model()[k], t@),
            decreases n - i,
        {
            let row = &self.trades[i];
            if row.pair == t.pair && row.tid == t.tid {
                proof {
                    assert(self.model()[i as int] == self.trades@[i as int]@);
                    assert(same_trade_key(self.model()[i as int], t@));
                }
                return ;
            }
            proof {
                assert(self.model()[i as int] == self.trades@[i as int]@);
            }
            i = i + 1;
        }
        proof {
            assert(!has_trade_key(old(self).model(), t@));
        }
        let ghost before = self.model();
        self.trades.push(t);
        proof {
            assert(self.model() =~= before.push(t@));
            if old(self).well_formed() {
                assert forall|a: int, b: int|
                    0 <= a < b < self.model().len() implies !same_trade_key(
                    #[trigger] self.model()[a],
                    #[trigger] self.model()[b],
                ) by {
                    if b < before.len() {
                        assert(self.model()[a] == before[a]);
                        assert(self.model()[b] == before[b]);
                    } else {
                        assert(self.model()[b] == t@);
                        assert(self.model()[a] == before[a]);
                    }
                }
            }
        }
    }

    /// The stored trades of one pair with event time in `[start_ts, end_ts)`,
    /// in insertion order.
    pub fn query_trades(&self, pair: &str, start_ts: i64, end_ts: i64) -> (r: Vec<RecentTrade>)
        ensures
            trades_view(r@) == window_trades(self.model(), pair@, start_ts as int, end_ts as int),
    {
        let ghost pred = in_window_pred(pair@, start_ts as int, end_ts as int);
        let pair_owned: String = pair.to_owned();
        let mut out: Vec<RecentTrade> = Vec::new();
        let n: usize = self.trades.len();
        let mut i: usize = 0;
        while i < n
            invariant
                0 <= i <= n == self.trades@.len(),
                pred == in_window_pred(pair@, start_ts as int, end_ts as int),
                pair_owned@ == pair@,
                trades_view(out@) == self.model().take(i as int).filter(pred),
            decreases n - i,
        {
            let t = &self.trades[i];
            proof {
                assert(self.model()[i as int] == self.trades@[i as int]@);
                assert(self.model().take(i + 1).drop_last() =~= self.model().take(i as int));
                assert(self.model().take(i + 1).last() == self.model()[i as int]);
                reveal_with_fuel(Seq::<RecentTradeView>::filter, 2);
            }
            let in_win = t.pair == pair_owned && start_ts <= t.timestamp && t.timestamp < end_ts;
            proof {
                assert(in_win == pred(self.model()[i as int]));
            }
            if in_win {
                let ghost before = out@;
                out.push(t.duplicate());
                proof {
                    assert(trades_view(out@) =~= trades_view(before).push(
                        self.model()[i as int],
                    ));
                }
            }
            i = i + 1;
        }
        proof {
            assert(self.model().take(n as int) =~= self.model());
        }
        out
    }
}

impl CandleStore {
    pub open spec fn model(&self) -> Seq<KlineView> {
        self.candles@.map_values(|k: Kline| k@)
    }

    pub fn new() -> (r: CandleStore)
        ensures
            r.model() == Seq::<KlineView>::empty(),
    {
        let r = CandleStore { candles: Vec::new() };
        proof {
            assert(r.model() =~= Seq::<KlineView>::empty());
        }
        r
    }

    /// Append a whole batch of candles; an empty batch is a no-op.
    pub fn store_candles(&mut self, batch: Vec<Kline>)
        ensures
            final(self).model() == old(self).model() + batch@.map_values(|k: Kline| k@),
    {
        let ghost start = self.model();
        let ghost bv = batch@;
        let mut rest = batch;
        let mut i: usize = 0;
        let n: usize = rest.len();
        while i < n
            invariant
                0 <= i <= n == bv.len(),
                rest@ == bv,
                self.model() == start + bv.map_values(|k: Kline| k@).take(i as int),
            decreases n - i,
        {
            let ghost before = self.model();
            let k = rest[i].duplicate_kline();
            self.candles.push(k);
            proof {
                assert(self.model() =~= before.push(bv[i as int]@));
                assert(bv.map_values(|x: Kline| x@).take(i + 1) =~= bv.map_values(
                    |x: Kline| x@,
                ).take(i as int).push(bv[i as int]@));
                assert(self.model() =~= start + bv.map_values(|x: Kline| x@).take(i + 1));
            }
            i = i + 1;
        }
        proof {
            assert(bv.map_values(|x: Kline| x@).take(n as int) =~= bv.map_values(|x: Kline| x@));
            assert(self.model() =~= start + bv.map_values(|x: Kline| x@));
        }
    }
}

/// Storing a trade leaves exactly one row with its key.
pub proof fn lemma_store_trade_once(s: Seq<RecentTradeView>, t: RecentTradeView)
    requires
        forall|i: int, j: int|
            0 <= i < j < s.len() ==> !same_trade_key(#[trigger] s[i], #[trigger] s[j]),
    ensures
        key_count(store_trade_spec(s, t), t) == 1,
{
    if has_trade_key(s, t) {
        lemma_key_count_unique(s, t);
    } else {
        lemma_key_count_absent(s, t);
        assert(store_trade_spec(s, t) == s.push(t));
        assert(s.push(t).drop_last() =~= s);
        assert(same_trade_key(s.push(t).last(), t));
    }
}

/// Storing the same trade twice is the same as storing it once.
pub proof fn lemma_store_trade_idempotent(s: Seq<RecentTradeView>, t: RecentTradeView)
    ensures
        store_trade_spec(store_trade_spec(s, t), t) == store_trade_spec(s, t),
{
    if has_trade_key(s, t) {
    } else {
        let s2 = s.push(t);
        assert(same_trade_key(s2[s.len() as int], t));
        assert(has_trade_key(s2, t));
    }
}

proof fn lemma_key_count_absent(s: Seq<RecentTradeView>, t: RecentTradeView)
    requires
        !has_trade_key(s, t),
    ensures
        key_count(s, t) == 0,
    decreases s.len(),
{
    if s.len() > 0 {
        assert(!same_trade_key(s[s.len() - 1], t));
        assert(!has_trade_key(s.drop_last(), t)) by {
            if has_trade_key(s.drop_last(), t) {
                let i = choose|i: int|
                    0 <= i < s.drop_last().len() && same_trade_key(s.drop_last()[i], t);
                assert(same_trade_key(s[i], t));
            }
        }
        lemma_key_count_absent(s.drop_last(), t);
    }
}

proof fn lemma_key_count_unique(s: Seq<RecentTradeView>, t: RecentTradeView)
    requires
        forall|i: int, j: int|
            0 <= i < j < s.len() ==> !same_trade_key(#[trigger] s[i], #[trigger] s[j]),
        has_trade_key(s, t),
    ensures
        key_count(s, t) == 1,
    decreases s.len(),
{
    let w = choose|i: int| 0 <= i < s.len() && same_trade_key(s[i], t);
    if same_trade_key(s.last(), t) {
        assert(!has_trade_key(s.drop_last(), t)) by {
            if has_trade_key(s.drop_last(), t) {
                let i = choose|i: int|
                    0 <= i < s.drop_last().len() && same_trade_key(s.drop_last()[i], t);
                assert(same_trade_key(s[i], t));
                assert(same_trade_key(s[i], s[s.len() - 1]));
            }
        }
        lemma_key_count_absent(s.drop_last(), t);
    } else {
        assert(w < s.len() - 1);
        assert(same_trade_key(s.drop_last()[w], t));
        assert(has_trade_key(s.drop_last(), t));
        lemma_key_count_unique(s.drop_last(), t);
    }
}

/// One read-dispatch step for a normalized candle: a frame that yields
/// no record leaves the store untouched; one that yields a candle
/// appends it as a single-element batch.
pub fn dispatch_candle_fields(
    store: &mut CandleStore,
    fields: &CandleFields,
    channel: &str,
) -> (stored: bool)
    ensures
        candle_of_fields(fields@, channel@) is None ==> !stored && final(store).model() == old(
            store,
        ).model(),
        candle_of_fields(fields@, channel@) matches Some(kv) ==> stored && final(store).model()
            == old(store).model().push(kv),
{
    match candle_from_fields(fields, channel) {
        Some(k) => {
            let ghost kv = k@;
            let mut batch: Vec<Kline> = Vec::new();
            batch.push(k);
            store.store_candles(batch);
            proof {
                assert(store.model() =~= old(store).model().push(kv));
            }
            true
        },
        None => false,
    }
}

/// One read-dispatch step for a raw candle frame: a frame that
/// normalizes to no candle leaves the store untouched; one that
/// normalizes to a candle appends exactly that candle.
pub fn handle_candle_frame(store: &mut CandleStore, text: &str) -> (stored: bool)
    ensures
        candle_message_spec(text@) is None ==> !stored && final(store).model() == old(
            store,
        ).model(),
        candle_message_spec(text@) matches Some(kv) ==> stored && final(store).model() == old(
            store,
        ).model().push(kv),
{
    match extract_candle_fields(text) {
        Some((fields, channel)) => {
            proof {
                assert(candle_extract_of(text@) == Some((fields@, channel@)));
            }
            dispatch_candle_fields(store, &fields, channel.as_str())
        },
        None => false,
    }
}

/// One read-dispatch step for a raw trade frame: a frame that
/// normalizes to no trade leaves the store untouched; one that
/// normalizes to a trade stores exactly that trade, duplicate keys
/// absorbed.
pub fn handle_trade_frame(store: &mut TradeStore, text: &str) -> (stored: bool)
    ensures
        trade_message_spec(text@) is None ==> !stored && final(store).model() == old(
            store,
        ).model(),
        trade_message_spec(text@) matches Some(tv) ==> stored && final(store).model()
            == store_trade_spec(old(store).model(), tv),
        old(store).well_formed() ==> final(store).well_formed(),
{
    match parse_trade_message(text) {
        Some(t) => {
            store.store_trade(t);
            true
        },
        None => false,
    }
}

} // verus!
