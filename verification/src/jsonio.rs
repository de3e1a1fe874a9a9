//! Reading wire frames: JSON field extraction and whole-message parsing.
//!
//! A wire frame is a JSON document. What the extraction returns for a
//! given text is a function of that text alone, but stating it takes
//! the whole JSON grammar; so the result is given a name
//! (`candle_extract_of`, `trade_extract_of`), and every contract over
//! frames speaks through that name. The verified normalizer then
//! decides everything about the extracted fields.

use vstd::prelude::*;
use crate::normalize::{
    CandleFields, CandleFieldsView, TradeFields, TradeFieldsView, candle_from_fields,
    candle_of_fields, trade_from_fields, trade_of_fields,
};
use crate::records::{Kline, KlineView, RecentTrade, RecentTradeView};

verus! {

/// The candle fields and channel name that `extract_candle_fields`
/// pulls out of a frame: a function of the text alone.
pub uninterp spec fn candle_extract_of(text: Seq<char>) -> Option<(CandleFieldsView, Seq<char>)>;

/// The trade fields that `extract_trade_fields` pulls out of a frame:
/// a function of the text alone.
pub uninterp spec fn trade_extract_of(text: Seq<char>) -> Option<TradeFieldsView>;

/// Relies on serde_json: `from_str` parses the document, and the
/// `Value` accessors `get`, `as_array`, `as_str` and `as_i64` read the
/// channel name and the fields of the first `data` element, each
/// deterministic functions of the text. Yields the fields and the
/// channel, or nothing when the frame is not a JSON object holding
/// them; a present field is still `None` when its JSON type is wrong.
#[verifier::external_body]
pub fn extract_candle_fields(text: &str) -> (r: Option<(CandleFields, String)>)
    ensures
        r is Some <==> candle_extract_of(text@) is Some,
        r matches Some(p) ==> candle_extract_of(text@) == Some((p.0@, p.1@)),
{
    let v: serde_json::Value = serde_json::from_str(text).ok()?;
    let channel = v.get("channel")?.as_str()?.to_owned();
    let row = v.get("data")?.as_array()?.get(0)?;
    let s = |k| row.get(k).and_then(|x| x.as_str()).map(String::from);
    let start_time = row.get("startTime").and_then(|x| x.as_i64());
    let fields = CandleFields {
        symbol: s("symbol"), open: s("open"), high: s("high"), low: s("low"),
        close: s("close"), quantity: s("quantity"), amount: s("amount"), start_time,
    };
    Some((fields, channel))
}

/// Relies on serde_json, as `extract_candle_fields` does, to read the
/// first `data` element of a trade frame. The external id is taken
/// both as text and as a number; whichever matches its JSON type is
/// present.
#[verifier::external_body]
pub fn extract_trade_fields(text: &str) -> (r: Option<TradeFields>)
    ensures
        r is Some <==> trade_extract_of(text@) is Some,
        r matches Some(f) ==> trade_extract_of(text@) == Some(f@),
{
    let v: serde_json::Value = serde_json::from_str(text).ok()?;
    let row = v.get("data")?.as_array()?.get(0)?;
    let s = |k| row.get(k).and_then(|x| x.as_str()).map(String::from);
    let n = |k| row.get(k).and_then(|x| x.as_i64());
    Some(TradeFields {
        symbol: s("symbol"), price: s("price"), amount: s("amount"),
        quantity: s("quantity"), side: s("takerSide"), create_time: n("createTime"),
        id_text: s("id"), id_number: n("id"), ts: n("ts"),
    })
}

/// The candle, if any, a raw frame normalizes to: extraction of the
/// text, then the field-level normalizer. No record comes out exactly
/// when the frame fails extraction or a required field is missing or
/// unparsable; no error is surfaced either way.
pub open spec fn candle_message_spec(text: Seq<char>) -> Option<KlineView> {
    match candle_extract_of(text) {
        Some(p) => candle_of_fields(p.0, p.1),
        None => None,
    }
}

/// The trade, if any, a raw frame normalizes to.
pub open spec fn trade_message_spec(text: Seq<char>) -> Option<RecentTradeView> {
    match trade_extract_of(text) {
        Some(f) => trade_of_fields(f),
        None => None,
    }
}

/// Normalize a raw candle frame, exactly as `candle_message_spec` says
/// of the text. A returned candle carries no buy-side volume: the
/// streamed message has no taker split.
pub fn parse_candle_message(text: &str) -> (r: Option<Kline>)
    ensures
        r is Some <==> candle_message_spec(text@) is Some,
        r matches Some(k) ==> Some(k@) == candle_message_spec(text@),
        r matches Some(k) ==> k@.volume_bs.buy_base == 0 && k@.volume_bs.buy_quote == 0,
{
    match extract_candle_fields(text) {
        Some((fields, channel)) => candle_from_fields(&fields, channel.as_str()),
        None => None,
    }
}

/// Normalize a raw trade frame, exactly as `trade_message_spec` says
/// of the text.
pub fn parse_trade_message(text: &str) -> (r: Option<RecentTrade>)
    ensures
        r is Some <==> trade_message_spec(text@) is Some,
        r matches Some(t) ==> Some(t@) == trade_message_spec(text@),
{
    match extract_trade_fields(text) {
        Some(fields) => trade_from_fields(&fields),
        None => None,
    }
}

} // verus!
