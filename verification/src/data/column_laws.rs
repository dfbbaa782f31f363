//! How the columns of a line are read.

use vstd::prelude::*;

use crate::data::tardis;
use crate::data::tardis::FileType;
use crate::data::tardis_fast;
use crate::numbers;
use crate::text;
use crate::text_laws;
use crate::types::{BUY_EVENT, SELL_EVENT, TRADE_EVENT};

verus! {

/// Columns that make up a line: at least one, and none holds a comma.
pub open spec fn are_columns(columns: Seq<Seq<char>>) -> bool {
    &&& columns.len() > 0
    &&& forall|i: int| 0 <= i < columns.len() ==> !(#[trigger] columns[i]).contains(',')
}

/// A trade is read from a line of eight columns at least: the third and fourth
/// are its times, the sixth its side, the seventh and eighth price and amount.
/// There is none where one of the four numbers cannot be read.
pub proof fn law_columns_of_a_trade<F, P: Fn(&str) -> Option<F>>(parse: P, columns: Seq<Seq<char>>)
    requires
        are_columns(columns),
    ensures
        ({
            let r = tardis::trade_in(parse, text::joined(columns, ','));
            &&& r is Some == (columns.len() >= 8 && text::integer(columns[2]) is Some
                && text::integer(columns[3]) is Some && numbers::number_in(
                parse,
                columns[6],
            ) is Some && numbers::number_in(parse, columns[7]) is Some)
            &&& r is Some ==> {
                &&& Some(r->0.timestamp) == text::integer(columns[2])
                &&& Some(r->0.local_timestamp) == text::integer(columns[3])
                &&& r->0.side == columns[5]
                &&& Some(r->0.price) == numbers::number_in(parse, columns[6])
                &&& Some(r->0.amount) == numbers::number_in(parse, columns[7])
            }
        }),
{
    text_laws::law_join_and_split(columns, ',');
}

/// A depth record is read from a line of eight columns at least: the third and
/// fourth are its times, the fifth tells whether it belongs to a snapshot, the
/// sixth is its side, the seventh and eighth price and amount. There is none
/// where one of the four numbers cannot be read.
pub proof fn law_columns_of_a_depth_record<F, P: Fn(&str) -> Option<F>>(
    parse: P,
    columns: Seq<Seq<char>>,
)
    requires
        are_columns(columns),
    ensures
        ({
            let r = tardis::depth_in(parse, text::joined(columns, ','));
            &&& r is Some == (columns.len() >= 8 && text::integer(columns[2]) is Some
                && text::integer(columns[3]) is Some && numbers::number_in(
                parse,
                columns[6],
            ) is Some && numbers::number_in(parse, columns[7]) is Some)
            &&& r is Some ==> {
                &&& Some(r->0.timestamp) == text::integer(columns[2])
                &&& Some(r->0.local_timestamp) == text::integer(columns[3])
                &&& r->0.is_snapshot == (columns[4] == "true"@)
                &&& r->0.side == columns[5]
                &&& Some(r->0.price) == numbers::number_in(parse, columns[6])
                &&& Some(r->0.amount) == numbers::number_in(parse, columns[7])
            }
        }),
{
    text_laws::law_join_and_split(columns, ',');
}

/// A header is known by its fifth and sixth columns.
pub proof fn law_columns_of_a_header(columns: Seq<Seq<char>>)
    requires
        are_columns(columns),
    ensures
        ({
            let r = tardis::file_type_of(text::joined(columns, ','));
            &&& r == Some(FileType::Trades) <==> columns.len() >= 8 && columns[4] == "id"@
                && columns[5] == "side"@
            &&& r == Some(FileType::Depth) <==> columns.len() >= 8 && columns[4]
                == "is_snapshot"@ && columns[5] == "side"@
            &&& r == Some(FileType::BookTicker) <==> columns.len() >= 8 && columns[4]
                == "ask_amount"@
        }),
{
    text_laws::law_join_and_split(columns, ',');
    reveal_strlit("id");
    reveal_strlit("is_snapshot");
    reveal_strlit("ask_amount");
    assert("id"@.len() != "is_snapshot"@.len());
    assert("id"@.len() != "ask_amount"@.len());
    assert("is_snapshot"@.len() != "ask_amount"@.len());
}

/// The optimized parser reads a trade from the same columns, by the digits of
/// its times and the first letter of its side; a number that cannot be read is
/// zero. There is none where columns are missing or the side is empty.
pub proof fn law_columns_of_a_fast_trade<F, P: Fn(&str) -> Option<F>>(
    parse: P,
    columns: Seq<Seq<char>>,
    zero: F,
)
    requires
        are_columns(columns),
    ensures
        ({
            let r = tardis_fast::fast_trade(parse, text::joined(columns, ','), zero);
            &&& r is Some == (columns.len() >= 8 && columns[5].len() > 0)
            &&& r is Some ==> {
                let e = r->0;
                &&& e.ev == TRADE_EVENT | (if columns[5][0] == 'b' {
                    BUY_EVENT
                } else if columns[5][0] == 's' {
                    SELL_EVENT
                } else {
                    0
                })
                &&& e.exch_ts == (tardis_fast::lenient_value(columns[2]) as i64 * 1000) as i64
                &&& e.local_ts == (tardis_fast::lenient_value(columns[3]) as i64 * 1000) as i64
                &&& match numbers::number_in(parse, columns[6]) {
                    Some(v) => e.px == v,
                    None => e.px == zero,
                }
                &&& match numbers::number_in(parse, columns[7]) {
                    Some(v) => e.qty == v,
                    None => e.qty == zero,
                }
                &&& e.order_id == 0 && e.ival == 0 && e.fval == zero
            }
        }),
{
    text_laws::law_join_and_split(columns, ',');
}

/// The optimized parser reads a depth line from the same columns; all sides
/// that do not begin with `b` are asks.
pub proof fn law_columns_of_a_fast_depth_line<F, P: Fn(&str) -> Option<F>>(
    parse: P,
    columns: Seq<Seq<char>>,
    zero: F,
)
    requires
        are_columns(columns),
    ensures
        ({
            let r = tardis_fast::fast_depth(parse, text::joined(columns, ','), zero);
            &&& r is Some == (columns.len() >= 8)
            &&& r is Some ==> {
                let row = tardis_fast::fast_row(r->0);
                &&& row.timestamp == tardis_fast::lenient_value(columns[2]) as i64
                &&& row.local_timestamp == tardis_fast::lenient_value(columns[3]) as i64
                &&& row.is_snapshot == (columns[4] == "true"@)
                &&& row.is_bid == (columns[5].len() > 0 && columns[5][0] == 'b')
                &&& row.side == (if row.is_bid {
                    BUY_EVENT
                } else {
                    SELL_EVENT
                })
                &&& match numbers::number_in(parse, columns[6]) {
                    Some(v) => row.px == v,
                    None => row.px == zero,
                }
                &&& match numbers::number_in(parse, columns[7]) {
                    Some(v) => row.qty == v,
                    None => row.qty == zero,
                }
            }
        }),
{
    text_laws::law_join_and_split(columns, ',');
}

/// Characters that are no digits make no difference to the number that the
/// optimized parser reads, and a further digit is the last one of the number.
pub proof fn law_lenient_number(s: Seq<char>, c: char)
    ensures
        !('0' <= c && c <= '9') ==> tardis_fast::lenient_value(s.push(c))
            == tardis_fast::lenient_value(s),
        '0' <= c && c <= '9' ==> tardis_fast::lenient_value(s.push(c)) == 10
            * tardis_fast::lenient_value(s) + (c as int - '0' as int),
        tardis_fast::lenient_value(Seq::empty()) == 0,
{
    assert(s.push(c).drop_last() =~= s);
}

} // verus!
