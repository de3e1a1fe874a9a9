//! Converting one row of the historical candle response into a candle
//! record.
//!
//! The backfill fetch itself is an external collaborator; what is
//! verified is the row conversion: each numeric column parses as a
//! fixed-point decimal or falls back to zero, and the taker split
//! subtracts the buy-taker share from the totals to get the sell side.

use vstd::prelude::*;
use vstd::string::StringSliceAdditionalSpecFns;
use crate::fixed::{FIXED_VALUE_LIMIT, parse_fixed, parse_fixed_spec};
use crate::records::{Kline, KlineView, VBS, VbsView};

verus! {

/// The value of a numeric column, zero when it does not parse.
pub open spec fn parse_or_zero(s: Seq<u8>) -> int {
    match parse_fixed_spec(s) {
        Some(v) => v as int,
        None => 0,
    }
}

fn parse_field_or_zero(s: &str) -> (r: i64)
    ensures
        r == parse_or_zero(s.spec_bytes()),
        0 <= r < FIXED_VALUE_LIMIT,
{
    match parse_fixed(s) {
        Some(v) => v,
        None => 0,
    }
}

/// Build a candle from the columns of one historical row. The buy
/// taker share goes to the buy side; the remainder of each total goes
/// to the sell side.
pub fn kline_from_backfill_row(
    pair: &str,
    interval: &str,
    low: &str,
    high: &str,
    open: &str,
    close: &str,
    amount: &str,
    quantity: &str,
    buy_taker_amount: &str,
    buy_taker_quantity: &str,
    utc_begin: i64,
) -> (r: Kline)
    ensures
        r@ == (KlineView {
            pair: pair@,
            time_frame: interval@,
            open: parse_or_zero(open.spec_bytes()),
            high: parse_or_zero(high.spec_bytes()),
            low: parse_or_zero(low.spec_bytes()),
            close: parse_or_zero(close.spec_bytes()),
            volume_bs: VbsView {
                buy_base: parse_or_zero(buy_taker_quantity.spec_bytes()),
                sell_base: parse_or_zero(quantity.spec_bytes()) - parse_or_zero(
                    buy_taker_quantity.spec_bytes(),
                ),
                buy_quote: parse_or_zero(buy_taker_amount.spec_bytes()),
                sell_quote: parse_or_zero(amount.spec_bytes()) - parse_or_zero(
                    buy_taker_amount.spec_bytes(),
                ),
            },
            utc_begin: utc_begin as int,
        }),
{
    let open_v = parse_field_or_zero(open);
    let high_v = parse_field_or_zero(high);
    let low_v = parse_field_or_zero(low);
    let close_v = parse_field_or_zero(close);
    let amount_v = parse_field_or_zero(amount);
    let quantity_v = parse_field_or_zero(quantity);
    let bta_v = parse_field_or_zero(buy_taker_amount);
    let btq_v = parse_field_or_zero(buy_taker_quantity);
    Kline {
        pair: pair.to_owned(),
        time_frame: interval.to_owned(),
        open: open_v,
        high: high_v,
        low: low_v,
        close: close_v,
        volume_bs: VBS {
            buy_base: btq_v as i128,
            sell_base: (quantity_v as i128) - (btq_v as i128),
            buy_quote: bta_v as i128,
            sell_quote: (amount_v as i128) - (bta_v as i128),
        },
        utc_begin,
    }
}

} // verus!
