//! Message normalization: turning the fields of a wire message into a
//! canonical candle or trade record, or into no record at all.
//!
//! Normalization never fails loudly: a missing or unparsable required
//! field yields no record and the frame is dropped. The timeframe label
//! of a streamed candle is the channel name after its first underscore,
//! upper-cased; the exchange sends only ASCII channel names, and a
//! non-ASCII channel yields no record.
//!
//! The streamed candle message carries only aggregate quantity and
//! amount, with no taker-side split, so all volume of a streamed candle
//! is attributed to the sell side and the buy side stays zero.

use vstd::prelude::*;
use vstd::string::StringSliceAdditionalSpecFns;
use vstd::utf8::{encode_utf8, is_ascii_chars};
use crate::ascii::{chars_of_bytes, int_str_bytes, i64_to_string, string_from_ascii_bytes};
use crate::fixed::{parse_fixed, parse_fixed_chars};
use crate::records::{Kline, KlineView, RecentTrade, RecentTradeView, VBS, VbsView};

verus! {

broadcast use vstd::string::is_ascii_spec_bytes, vstd::utf8::is_ascii_chars_nat_bound;

/// Index of the first occurrence of `b` in `s`, or the length of `s`.
pub open spec fn find_byte(s: Seq<u8>, b: u8) -> int
    decreases s.len(),
{
    if s.len() == 0 {
        0
    } else if s[0] == b {
        0
    } else {
        1 + find_byte(s.drop_first(), b)
    }
}

proof fn lemma_find_byte_at(s: Seq<u8>, b: u8, i: int)
    requires
        0 <= i <= s.len(),
        forall|k: int| 0 <= k < i ==> s[k] != b,
        i < s.len() ==> s[i] == b,
    ensures
        find_byte(s, b) == i,
    decreases s.len(),
{
    if s.len() == 0 {
    } else if i == 0 {
    } else {
        assert(s[0] != b);
        lemma_find_byte_at(s.drop_first(), b, i - 1);
    }
}

/// Upper-case an ASCII letter byte; anything else is unchanged.
pub open spec fn upper_byte(b: u8) -> u8 {
    if 97 <= b && b <= 122 {
        (b - 32) as u8
    } else {
        b
    }
}

/// The timeframe label bytes derived from a channel name: everything
/// after the first underscore, upper-cased; empty when there is none.
pub open spec fn tf_label_bytes(s: Seq<u8>) -> Seq<u8> {
    if find_byte(s, 95) < s.len() {
        s.skip(find_byte(s, 95) + 1).map_values(|b: u8| upper_byte(b))
    } else {
        Seq::empty()
    }
}

/// Timeframe label of an ASCII channel name, as characters.
pub open spec fn tf_label_chars(channel: Seq<char>) -> Seq<char> {
    chars_of_bytes(tf_label_bytes(encode_utf8(channel)))
}

/// Derive the timeframe label from a channel name: the suffix after the
/// first underscore, upper-cased (`candles_minute_1` becomes `MINUTE_1`).
pub fn time_frame_label(channel: &str) -> (r: String)
    requires
        channel.is_ascii(),
    ensures
        r@ == tf_label_chars(channel@),
{
    let b: &[u8] = channel.as_bytes();
    let ghost bs: Seq<u8> = channel.spec_bytes();
    let n: usize = b.len();

    let mut i: usize = 0;
    while i < n && b[i] != 95
        invariant
            0 <= i <= n == bs.len(),
            b@ == bs,
            forall|k: int| 0 <= k < i ==> bs[k] != 95u8,
        decreases n - i,
    {
        i = i + 1;
    }
    proof {
        lemma_find_byte_at(bs, 95, i as int);
    }
    if i == n {
        proof {
            assert(tf_label_bytes(bs).len() == 0);
            assert(chars_of_bytes(tf_label_bytes(bs)) =~= Seq::<char>::empty());
        }
        return String::new();
    }

    let start: usize = i + 1;
    let ghost target: Seq<u8> = bs.skip(start as int).map_values(|x: u8| upper_byte(x));
    let mut out: Vec<u8> = Vec::new();
    let mut k: usize = start;
    while k < n
        invariant
            start <= k <= n == bs.len(),
            b@ == bs,
            target == bs.skip(start as int).map_values(|x: u8| upper_byte(x)),
            out@ =~= target.take(k - start),
        decreases n - k,
    {
        let d: u8 = b[k];
        let u: u8 = if d >= 97 && d <= 122 {
            d - 32
        } else {
            d
        };
        out.push(u);
        proof {
            assert(target[k - start] == upper_byte(bs[k as int]));
            assert(out@ =~= target.take(k + 1 - start));
        }
        k = k + 1;
    }
    proof {
        assert(out@ =~= target);
        assert(tf_label_bytes(bs) == target);
        assert(forall|p: int| 0 <= p < bs.len() ==> #[trigger] bs[p] < 128) by {
            assert(bs =~= Seq::new(channel@.len(), |q: int| channel@[q] as u8));
        }
        assert(forall|p: int| 0 <= p < out@.len() ==> #[trigger] out@[p] < 128) by {
            assert(forall|p: int|
                0 <= p < target.len() ==> #[trigger] target[p] == upper_byte(
                    bs[start as int + p],
                ));
        }
    }
    string_from_ascii_bytes(&out)
}

/// Every candle the normalizer yields carries the timeframe label
/// derived from its channel: the suffix after the first underscore,
/// upper-cased, underscores kept.
pub proof fn lemma_candle_label_from_channel(f: CandleFieldsView, channel: Seq<char>)
    requires
        candle_of_fields(f, channel) is Some,
    ensures
        candle_of_fields(f, channel)->Some_0.time_frame == tf_label_chars(channel),
{
}

/// The fields a streamed candle message may carry, each possibly absent.
pub struct CandleFields {
    pub symbol: Option<String>,
    pub open: Option<String>,
    pub high: Option<String>,
    pub low: Option<String>,
    pub close: Option<String>,
    pub quantity: Option<String>,
    pub amount: Option<String>,
    pub start_time: Option<i64>,
}

pub ghost struct CandleFieldsView {
    pub symbol: Option<Seq<char>>,
    pub open: Option<Seq<char>>,
    pub high: Option<Seq<char>>,
    pub low: Option<Seq<char>>,
    pub close: Option<Seq<char>>,
    pub quantity: Option<Seq<char>>,
    pub amount: Option<Seq<char>>,
    pub start_time: Option<int>,
}

impl View for CandleFields {
    type V = CandleFieldsView;

    open spec fn view(&self) -> CandleFieldsView {
        CandleFieldsView {
            symbol: self.symbol.deep_view(),
            open: self.open.deep_view(),
            high: self.high.deep_view(),
            low: self.low.deep_view(),
            close: self.close.deep_view(),
            quantity: self.quantity.deep_view(),
            amount: self.amount.deep_view(),
            start_time: match self.start_time {
                Some(t) => Some(t as int),
                None => None,
            },
        }
    }
}

/// The candle, if any, normalized from a set of fields and the channel
/// the message arrived on. All required fields must be present and the
/// prices and volumes must parse as fixed-point decimals; the channel
/// must be ASCII for its label to be derived. Otherwise: no record.
pub open spec fn candle_of_fields(f: CandleFieldsView, channel: Seq<char>) -> Option<KlineView> {
    if f.symbol is Some && f.open is Some && f.high is Some && f.low is Some && f.close is Some
        && f.quantity is Some && f.amount is Some && f.start_time is Some && parse_fixed_chars(
        f.open->Some_0,
    ) is Some && parse_fixed_chars(f.high->Some_0) is Some && parse_fixed_chars(
        f.low->Some_0,
    ) is Some && parse_fixed_chars(f.close->Some_0) is Some && parse_fixed_chars(
        f.quantity->Some_0,
    ) is Some && parse_fixed_chars(f.amount->Some_0) is Some && is_ascii_chars(channel) {
        Some(
            KlineView {
                pair: f.symbol->Some_0,
                time_frame: tf_label_chars(channel),
                open: parse_fixed_chars(f.open->Some_0)->Some_0 as int,
                high: parse_fixed_chars(f.high->Some_0)->Some_0 as int,
                low: parse_fixed_chars(f.low->Some_0)->Some_0 as int,
                close: parse_fixed_chars(f.close->Some_0)->Some_0 as int,
                volume_bs: VbsView {
                    buy_base: 0,
                    sell_base: parse_fixed_chars(f.quantity->Some_0)->Some_0 as int,
                    buy_quote: 0,
                    sell_quote: parse_fixed_chars(f.amount->Some_0)->Some_0 as int,
                },
                utc_begin: f.start_time->Some_0,
            },
        )
    } else {
        None
    }
}

/// Normalize candle fields into a candle record, or into no record,
/// exactly as `candle_of_fields` says.
pub fn candle_from_fields(fields: &CandleFields, channel: &str) -> (r: Option<Kline>)
    ensures
        r is Some <==> candle_of_fields(fields@, channel@) is Some,
        r matches Some(k) ==> Some(k@) == candle_of_fields(fields@, channel@),
{
    if !channel.is_ascii() {
        return None;
    }
    let symbol = match &fields.symbol {
        Some(s) => s,
        None => {
            return None;
        },
    };
    let open_s = match &fields.open {
        Some(s) => s,
        None => {
            return None;
        },
    };
    let high_s = match &fields.high {
        Some(s) => s,
        None => {
            return None;
        },
    };
    let low_s = match &fields.low {
        Some(s) => s,
        None => {
            return None;
        },
    };
    let close_s = match &fields.close {
        Some(s) => s,
        None => {
            return None;
        },
    };
    let quantity_s = match &fields.quantity {
        Some(s) => s,
        None => {
            return None;
        },
    };
    let amount_s = match &fields.amount {
        Some(s) => s,
        None => {
            return None;
        },
    };
    let start_time = match fields.start_time {
        Some(t) => t,
        None => {
            return None;
        },
    };
    let open = match parse_fixed(open_s.as_str()) {
        Some(v) => v,
        None => {
            return None;
        },
    };
    let high = match parse_fixed(high_s.as_str()) {
        Some(v) => v,
        None => {
            return None;
        },
    };
    let low = match parse_fixed(low_s.as_str()) {
        Some(v) => v,
        None => {
            return None;
        },
    };
    let close = match parse_fixed(close_s.as_str()) {
        Some(v) => v,
        None => {
            return None;
        },
    };
    let quantity = match parse_fixed(quantity_s.as_str()) {
        Some(v) => v,
        None => {
            return None;
        },
    };
    let amount = match parse_fixed(amount_s.as_str()) {
        Some(v) => v,
        None => {
            return None;
        },
    };
    Some(
        Kline {
            pair: symbol.clone(),
            time_frame: time_frame_label(channel),
            open,
            high,
            low,
            close,
            volume_bs: VBS {
                buy_base: 0,
                sell_base: quantity as i128,
                buy_quote: 0,
                sell_quote: amount as i128,
            },
            utc_begin: start_time,
        },
    )
}

/// The fields a trade message may carry, each possibly absent. The
/// external id arrives either as text or as a number.
pub struct TradeFields {
    pub symbol: Option<String>,
    pub price: Option<String>,
    pub amount: Option<String>,
    pub quantity: Option<String>,
    pub side: Option<String>,
    pub create_time: Option<i64>,
    pub id_text: Option<String>,
    pub id_number: Option<i64>,
    pub ts: Option<i64>,
}

pub ghost struct TradeFieldsView {
    pub symbol: Option<Seq<char>>,
    pub price: Option<Seq<char>>,
    pub amount: Option<Seq<char>>,
    pub quantity: Option<Seq<char>>,
    pub side: Option<Seq<char>>,
    pub create_time: Option<int>,
    pub id_text: Option<Seq<char>>,
    pub id_number: Option<int>,
    pub ts: Option<int>,
}

impl View for TradeFields {
    type V = TradeFieldsView;

    open spec fn view(&self) -> TradeFieldsView {
        TradeFieldsView {
            symbol: self.symbol.deep_view(),
            price: self.price.deep_view(),
            amount: self.amount.deep_view(),
            quantity: self.quantity.deep_view(),
            side: self.side.deep_view(),
            create_time: match self.create_time {
                Some(t) => Some(t as int),
                None => None,
            },
            id_text: self.id_text.deep_view(),
            id_number: match self.id_number {
                Some(t) => Some(t as int),
                None => None,
            },
            ts: match self.ts {
                Some(t) => Some(t as int),
                None => None,
            },
        }
    }
}

/// The trade, if any, normalized from a set of fields. Symbol, price,
/// amount, quantity, taker side, event timestamp and the external id
/// are required; the id may be text or a number, a numeric id is
/// written in decimal. The creation time is optional and recorded as
/// zero when absent. The numeric strings stay as they arrived.
pub open spec fn trade_of_fields(f: TradeFieldsView) -> Option<RecentTradeView> {
    if f.symbol is Some && f.price is Some && f.amount is Some && f.quantity is Some
        && f.side is Some && f.ts is Some && (f.id_text is Some || f.id_number is Some) {
        Some(
            RecentTradeView {
                tid: if f.id_text is Some {
                    f.id_text->Some_0
                } else {
                    chars_of_bytes(int_str_bytes(f.id_number->Some_0))
                },
                pair: f.symbol->Some_0,
                price: f.price->Some_0,
                amount: f.amount->Some_0,
                quantity: f.quantity->Some_0,
                side: f.side->Some_0,
                create_time: if f.create_time is Some {
                    f.create_time->Some_0
                } else {
                    0
                },
                timestamp: f.ts->Some_0,
            },
        )
    } else {
        None
    }
}

/// Normalize trade fields into a trade record, or into no record,
/// exactly as `trade_of_fields` says.
pub fn trade_from_fields(fields: &TradeFields) -> (r: Option<RecentTrade>)
    ensures
        r is Some <==> trade_of_fields(fields@) is Some,
        r matches Some(t) ==> Some(t@) == trade_of_fields(fields@),
{
    let symbol = match &fields.symbol {
        Some(s) => s,
        None => {
            return None;
        },
    };
    let price = match &fields.price {
        Some(s) => s,
        None => {
            return None;
        },
    };
    let amount = match &fields.amount {
        Some(s) => s,
        None => {
            return None;
        },
    };
    let quantity = match &fields.quantity {
        Some(s) => s,
        None => {
            return None;
        },
    };
    let side = match &fields.side {
        Some(s) => s,
        None => {
            return None;
        },
    };
    let create_time = match fields.create_time {
        Some(t) => t,
        None => 0,
    };
    let ts = match fields.ts {
        Some(t) => t,
        None => {
            return None;
        },
    };
    let tid: String = match &fields.id_text {
        Some(s) => s.clone(),
        None => {
            match fields.id_number {
                Some(n) => i64_to_string(n),
                None => {
                    return None;
                },
            }
        },
    };
    Some(
        RecentTrade {
            tid,
            pair: symbol.clone(),
            price: price.clone(),
            amount: amount.clone(),
            quantity: quantity.clone(),
            side: side.clone(),
            create_time,
            timestamp: ts,
        },
    )
}

} // verus!
