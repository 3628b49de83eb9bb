//! Decoding what the venue sends: stream frames and REST answers.

use vstd::prelude::*;
use vstd::string::*;
use crate::amount::{Price, MAX_AMOUNT};
use crate::decimal::{decimal_value, digits_of, parse_decimal, push_digits};
use crate::json::{
    integer_of,
    items_of,
    json_as_array,
    json_as_i64,
    json_as_str,
    json_document,
    json_get,
    json_view,
    member_of,
    parse_json,
    read_text_member,
    text_member,
    text_of,
    views_of,
    JsonView,
};
use crate::logic::evaluate_level::{evaluate_level, level_action, LevelAction};
use crate::state::market_price::MarketPriceState;
use crate::state::orderbook::{prices_in_range, OrderbookLevel, OrderbookState};

verus! {

/// Most levels of one side that are taken from a depth answer.
pub const DEPTH_LIMIT: usize = 10;

/// The best bid that a `bookTicker` frame carries: member `b` of the frame,
/// a string that writes an amount.
pub open spec fn best_bid_of(payload: Seq<char>) -> Option<Price> {
    match json_document(payload) {
        None => None,
        Some(doc) => match text_member(doc, "b"@) {
            None => None,
            Some(text) => decimal_value(text),
        },
    }
}

/// Reads the best bid out of a `bookTicker` frame.
pub fn decode_best_bid(payload: &str) -> (best_bid: Option<Price>)
    ensures
        best_bid == best_bid_of(payload@),
{
    match parse_json(payload) {
        Err(_) => None,
        Ok(doc) => match read_text_member(&doc, "b") {
            None => None,
            Some(text) => parse_decimal(text.as_str()),
        },
    }
}

/// Handles one frame of the `bookTicker` stream: the best bid it carries is
/// put to the level evaluator. A frame that carries none is dropped: the
/// answer is to hold, and the bid remembered stays.
pub fn handle_bookticker_message(payload: &str, market: &mut MarketPriceState) -> (action:
    LevelAction)
    ensures
        match best_bid_of(payload@) {
            Some(best_bid) => {
                &&& action == level_action(old(market).last_best_bid, best_bid)
                &&& final(market).last_best_bid == Some(best_bid)
            },
            None => action == LevelAction::Hold && final(market).last_best_bid == old(
                market,
            ).last_best_bid,
        },
{
    match decode_best_bid(payload) {
        Some(best_bid) => evaluate_level(market, best_bid),
        None => LevelAction::Hold,
    }
}

/// Why a depth answer could not be read.
#[derive(Debug, Clone, Copy, PartialEq, Eq, Structural)]
pub enum DepthError {
    /// The answer is no JSON document.
    NotJson,
    /// `bids` or `asks` is missing or no array.
    MissingLevels,
    /// A level is no array.
    InvalidLevel,
    /// A level has no first entry, or one that is no string.
    MissingPrice,
    /// A level has no second entry, or one that is no string.
    MissingQuantity,
    /// A price or a quantity writes no amount.
    InvalidNumber,
}

/// The level that one item of a depth answer writes: an array whose first
/// two entries are strings that write the price and the quantity.
pub open spec fn level_of(item: JsonView) -> Result<OrderbookLevel, DepthError> {
    match items_of(item) {
        None => Err(DepthError::InvalidLevel),
        Some(cells) => if cells.len() < 1 || text_of(cells[0]) is None {
            Err(DepthError::MissingPrice)
        } else {
            match decimal_value(text_of(cells[0])->0) {
                None => Err(DepthError::InvalidNumber),
                Some(price) => if cells.len() < 2 || text_of(cells[1]) is None {
                    Err(DepthError::MissingQuantity)
                } else {
                    match decimal_value(text_of(cells[1])->0) {
                        None => Err(DepthError::InvalidNumber),
                        Some(qty) => Ok(OrderbookLevel { price, qty }),
                    }
                },
            }
        },
    }
}

/// The levels that the first `n` items write, or the first error among
/// them.
pub open spec fn levels_of(items: Seq<JsonView>, n: nat) -> Result<
    Seq<OrderbookLevel>,
    DepthError,
>
    decreases n,
{
    if n == 0 {
        Ok(Seq::empty())
    } else {
        match levels_of(items, (n - 1) as nat) {
            Err(e) => Err(e),
            Ok(front) => match level_of(items[n - 1]) {
                Err(e) => Err(e),
                Ok(level) => Ok(front.push(level)),
            },
        }
    }
}

/// The side `key` of a depth answer: the first ten levels of the array
/// member `key`.
pub open spec fn side_of(doc: JsonView, key: Seq<char>) -> Result<
    Seq<OrderbookLevel>,
    DepthError,
> {
    match member_of(doc, key) {
        None => Err(DepthError::MissingLevels),
        Some(member) => match items_of(member) {
            None => Err(DepthError::MissingLevels),
            Some(items) => levels_of(
                items,
                if items.len() <= DEPTH_LIMIT {
                    items.len()
                } else {
                    DEPTH_LIMIT as nat
                },
            ),
        },
    }
}

/// The book that a depth answer writes: its bids, then its asks; or the
/// first error met on the way.
pub open spec fn depth_of(payload: Seq<char>) -> Result<
    (Seq<OrderbookLevel>, Seq<OrderbookLevel>),
    DepthError,
> {
    match json_document(payload) {
        None => Err(DepthError::NotJson),
        Some(doc) => match side_of(doc, "bids"@) {
            Err(e) => Err(e),
            Ok(bids) => match side_of(doc, "asks"@) {
                Err(e) => Err(e),
                Ok(asks) => Ok((bids, asks)),
            },
        },
    }
}

/// Reads one level of a depth answer.
pub fn parse_level(item: &serde_json::Value) -> (level: Result<OrderbookLevel, DepthError>)
    ensures
        level == level_of(json_view(*item)),
        level matches Ok(l) ==> l.price <= MAX_AMOUNT,
{
    let cells = match json_as_array(item) {
        Some(cells) => cells,
        None => {
            return Err(DepthError::InvalidLevel);
        },
    };
    if cells.len() < 1 {
        return Err(DepthError::MissingPrice);
    }
    let price = match json_as_str(&cells[0]) {
        None => {
            return Err(DepthError::MissingPrice);
        },
        Some(text) => match parse_decimal(text) {
            None => {
                return Err(DepthError::InvalidNumber);
            },
            Some(price) => price,
        },
    };
    if cells.len() < 2 {
        return Err(DepthError::MissingQuantity);
    }
    let qty = match json_as_str(&cells[1]) {
        None => {
            return Err(DepthError::MissingQuantity);
        },
        Some(text) => match parse_decimal(text) {
            None => {
                return Err(DepthError::InvalidNumber);
            },
            Some(qty) => qty,
        },
    };
    Ok(OrderbookLevel { price, qty })
}

/// Reads one side of a depth answer.
pub fn parse_levels(doc: &serde_json::Value, key: &str) -> (levels: Result<
    Vec<OrderbookLevel>,
    DepthError,
>)
    ensures
        match levels {
            Ok(found) => side_of(json_view(*doc), key@) == Ok::<Seq<OrderbookLevel>, DepthError>(
                found@,
            ) && prices_in_range(found@),
            Err(e) => side_of(json_view(*doc), key@) == Err::<Seq<OrderbookLevel>, DepthError>(e),
        },
{
    let member = match json_get(doc, key) {
        Some(member) => member,
        None => {
            return Err(DepthError::MissingLevels);
        },
    };
    let items = match json_as_array(member) {
        Some(items) => items,
        None => {
            return Err(DepthError::MissingLevels);
        },
    };
    let count = if items.len() <= DEPTH_LIMIT {
        items.len()
    } else {
        DEPTH_LIMIT
    };
    let mut parsed: Vec<OrderbookLevel> = Vec::new();
    let mut i: usize = 0;
    while i < count
        invariant
            i <= count <= items@.len(),
            count == if items@.len() <= DEPTH_LIMIT {
                items@.len()
            } else {
                DEPTH_LIMIT as nat
            },
            member_of(json_view(*doc), key@) == Some(json_view(*member)),
            items_of(json_view(*member)) == Some(views_of(items@)),
            levels_of(views_of(items@), i as nat) == Ok::<Seq<OrderbookLevel>, DepthError>(
                parsed@,
            ),
            prices_in_range(parsed@),
        decreases count - i,
    {
        match parse_level(&items[i]) {
            Err(e) => {
                proof {
                    assert(levels_of(views_of(items@), (i + 1) as nat) == Err::<
                        Seq<OrderbookLevel>,
                        DepthError,
                    >(e));
                    lemma_levels_error_stays(views_of(items@), (i + 1) as nat, count as nat);
                }
                return Err(e);
            },
            Ok(level) => {
                parsed.push(level);
            },
        }
        i += 1;
    }
    Ok(parsed)
}

/// Once the first items have run into an error, more items run into the
/// same.
pub proof fn lemma_levels_error_stays(items: Seq<JsonView>, n: nat, m: nat)
    requires
        n <= m,
        levels_of(items, n) is Err,
    ensures
        levels_of(items, m) == levels_of(items, n),
    decreases m,
{
    if n < m {
        lemma_levels_error_stays(items, n, (m - 1) as nat);
    }
}

/// Reads the book out of a depth answer. The levels come as the venue
/// wrote them: nothing is sorted or dropped, but for what lies beyond the
/// tenth level of a side.
pub fn decode_depth(payload: &str) -> (book: Result<OrderbookState, DepthError>)
    ensures
        match book {
            Ok(state) => depth_of(payload@) == Ok::<
                (Seq<OrderbookLevel>, Seq<OrderbookLevel>),
                DepthError,
            >((state.bids@, state.asks@)) && prices_in_range(state.bids@) && prices_in_range(
                state.asks@,
            ),
            Err(e) => depth_of(payload@) == Err::<
                (Seq<OrderbookLevel>, Seq<OrderbookLevel>),
                DepthError,
            >(e),
        },
{
    let doc = match parse_json(payload) {
        Ok(doc) => doc,
        Err(_) => {
            return Err(DepthError::NotJson);
        },
    };
    let bids = match parse_levels(&doc, "bids") {
        Ok(levels) => levels,
        Err(e) => {
            return Err(e);
        },
    };
    let asks = match parse_levels(&doc, "asks") {
        Ok(levels) => levels,
        Err(e) => {
            return Err(e);
        },
    };
    Ok(OrderbookState { bids, asks })
}

/// A signed integer in decimal.
pub open spec fn integer_text(number: i64) -> Seq<char> {
    if number < 0 {
        seq!['-'] + digits_of((-number) as nat)
    } else {
        digits_of(number as nat)
    }
}

/// Writes a signed integer in decimal.
pub fn format_integer(number: i64) -> (text: String)
    ensures
        text@ == integer_text(number),
{
    let mut text = String::new();
    if number < 0 {
        text.push('-');
        let magnitude: u64 = (-(number + 1)) as u64 + 1;
        push_digits(&mut text, magnitude);
        assert(text@ =~= seq!['-'] + digits_of((-number) as nat));
    } else {
        push_digits(&mut text, number as u64);
        assert(text@ =~= digits_of(number as nat));
    }
    text
}

/// The id under which the venue accepted an order: member `orderId` of its
/// answer, an integer, in decimal.
pub open spec fn order_id_of(payload: Seq<char>) -> Option<Seq<char>> {
    match json_document(payload) {
        None => None,
        Some(doc) => match member_of(doc, "orderId"@) {
            None => None,
            Some(member) => match integer_of(member) {
                None => None,
                Some(number) => Some(integer_text(number)),
            },
        },
    }
}

/// Reads the order id out of the venue's answer to an order.
pub fn decode_order_id(payload: &str) -> (order_id: Option<String>)
    ensures
        order_id is Some == order_id_of(payload@) is Some,
        order_id matches Some(id) ==> order_id_of(payload@) == Some(id@),
{
    match parse_json(payload) {
        Err(_) => None,
        Ok(doc) => match json_get(&doc, "orderId") {
            None => None,
            Some(member) => match json_as_i64(member) {
                None => None,
                Some(number) => Some(format_integer(number)),
            },
        },
    }
}

/// Whether an HTTP status tells of success: the codes from 200 to 299.
pub open spec fn is_success(status: u16) -> bool {
    200 <= status < 300
}

/// Whether an HTTP status tells of success.
pub fn status_is_success(status: u16) -> (success: bool)
    ensures
        success == is_success(status),
{
    200 <= status && status < 300
}

/// Reads the venue's answer to an order: the order's id where the status
/// tells of success and the body names one; `None` for a refusal.
pub fn accepted_order_id(status: u16, body: &str) -> (order_id: Option<String>)
    ensures
        is_success(status) ==> order_id is Some == order_id_of(body@) is Some,
        is_success(status) ==> (order_id matches Some(id) ==> order_id_of(body@) == Some(id@)),
        !is_success(status) ==> order_id is None,
{
    if status_is_success(status) {
        decode_order_id(body)
    } else {
        None
    }
}

/// The listen key of a user-data session: member `listenKey` of the venue's
/// answer, a string.
pub open spec fn listen_key_of(payload: Seq<char>) -> Option<Seq<char>> {
    match json_document(payload) {
        None => None,
        Some(doc) => text_member(doc, "listenKey"@),
    }
}

/// Reads the listen key out of the venue's answer.
pub fn decode_listen_key(payload: &str) -> (listen_key: Option<String>)
    ensures
        listen_key is Some == listen_key_of(payload@) is Some,
        listen_key matches Some(key) ==> listen_key_of(payload@) == Some(key@),
{
    match parse_json(payload) {
        Err(_) => None,
        Ok(doc) => read_text_member(&doc, "listenKey"),
    }
}

} // verus!
