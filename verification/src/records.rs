//! Canonical records: trades, candles, and the buy/sell volume split.
//!
//! Monetary quantities are fixed-point integers with eight decimal places
//! (see the `fixed` module). Trade records keep the numeric fields as the
//! decimal strings they arrived with, exactly as the wire carries them;
//! candle records hold parsed fixed-point values.

use vstd::prelude::*;

verus! {

/// Buy/sell volume split of a candle, in base-asset and quote-asset units.
/// Values are fixed-point with eight decimal places; sums over many trades
/// are kept in `i128` so that no realizable batch can overflow them.
#[derive(Clone, Copy)]
pub struct VBS {
    pub buy_base: i128,
    pub sell_base: i128,
    pub buy_quote: i128,
    pub sell_quote: i128,
}

/// OHLC candle for one pair and one time window.
pub struct Kline {
    pub pair: String,
    pub time_frame: String,
    pub open: i64,
    pub high: i64,
    pub low: i64,
    pub close: i64,
    pub volume_bs: VBS,
    pub utc_begin: i64,
}

/// A single trade as observed on the stream. The numeric fields stay as
/// decimal strings until aggregation parses them.
pub struct RecentTrade {
    pub tid: String,
    pub pair: String,
    pub price: String,
    pub amount: String,
    pub quantity: String,
    pub side: String,
    pub create_time: i64,
    pub timestamp: i64,
}

/// Mathematical model of a volume split.
pub ghost struct VbsView {
    pub buy_base: int,
    pub sell_base: int,
    pub buy_quote: int,
    pub sell_quote: int,
}

/// Mathematical model of a candle.
pub ghost struct KlineView {
    pub pair: Seq<char>,
    pub time_frame: Seq<char>,
    pub open: int,
    pub high: int,
    pub low: int,
    pub close: int,
    pub volume_bs: VbsView,
    pub utc_begin: int,
}

/// Mathematical model of a trade.
pub ghost struct RecentTradeView {
    pub tid: Seq<char>,
    pub pair: Seq<char>,
    pub price: Seq<char>,
    pub amount: Seq<char>,
    pub quantity: Seq<char>,
    pub side: Seq<char>,
    pub create_time: int,
    pub timestamp: int,
}

impl View for VBS {
    type V = VbsView;

    open spec fn view(&self) -> VbsView {
        VbsView {
            buy_base: self.buy_base as int,
            sell_base: self.sell_base as int,
            buy_quote: self.buy_quote as int,
            sell_quote: self.sell_quote as int,
        }
    }
}

impl View for Kline {
    type V = KlineView;

    open spec fn view(&self) -> KlineView {
        KlineView {
            pair: self.pair@,
            time_frame: self.time_frame@,
            open: self.open as int,
            high: self.high as int,
            low: self.low as int,
            close: self.close as int,
            volume_bs: self.volume_bs@,
            utc_begin: self.utc_begin as int,
        }
    }
}

impl View for RecentTrade {
    type V = RecentTradeView;

    open spec fn view(&self) -> RecentTradeView {
        RecentTradeView {
            tid: self.tid@,
            pair: self.pair@,
            price: self.price@,
            amount: self.amount@,
            quantity: self.quantity@,
            side: self.side@,
            create_time: self.create_time as int,
            timestamp: self.timestamp as int,
        }
    }
}

impl Kline {
    /// Field-for-field copy; the model value is preserved exactly.
    pub fn duplicate_kline(&self) -> (r: Kline)
        ensures
            r@ == self@,
    {
        Kline {
            pair: self.pair.clone(),
            time_frame: self.time_frame.clone(),
            open: self.open,
            high: self.high,
            low: self.low,
            close: self.close,
            volume_bs: self.volume_bs,
            utc_begin: self.utc_begin,
        }
    }
}

impl RecentTrade {
    /// Field-for-field copy; the model value is preserved exactly.
    pub fn duplicate(&self) -> (r: RecentTrade)
        ensures
            r@ == self@,
    {
        RecentTrade {
            tid: self.tid.clone(),
            pair: self.pair.clone(),
            price: self.price.clone(),
            amount: self.amount.clone(),
            quantity: self.quantity.clone(),
            side: self.side.clone(),
            create_time: self.create_time,
            timestamp: self.timestamp,
        }
    }
}

} // verus!
