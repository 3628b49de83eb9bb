//! The execution router: an execution report from the user-data stream is
//! checked, and a fill is booked on the slot that its price names.

use vstd::prelude::*;
use vstd::string::*;
use crate::amount::{Price, Quantity};
use crate::decimal::{decimal_value, parse_decimal};
use crate::json::{json_document, parse_json, read_text_member, text_member};
use crate::logic::order::{
    add_filled_buy_for_bid_price,
    add_filled_sell_for_ask_price,
    buy_fill_books,
    sell_fill_books,
    BuyFill,
};
use crate::state::asset::AssetState;
use crate::state::orders::{OrdersState, SlotView};
use crate::text::same_text;

verus! {

/// What an [`ExecutionReport`] holds, as plain values.
#[verifier::ext_equal]
pub struct ReportView {
    pub event_type: Seq<char>,
    pub symbol: Seq<char>,
    pub side: Seq<char>,
    pub last_executed_price: Option<Seq<char>>,
    pub last_executed_quantity: Option<Seq<char>>,
    pub order_status: Seq<char>,
}

/// The fields of a user-data event that the router reads, as the venue
/// sent them.
#[derive(Debug, Clone)]
pub struct ExecutionReport {
    /// `e`
    pub event_type: String,
    /// `s`
    pub symbol: String,
    /// `S`
    pub side: String,
    /// `L`
    pub last_executed_price: Option<String>,
    /// `l`
    pub last_executed_quantity: Option<String>,
    /// `X`
    pub order_status: String,
}

/// The characters of an optional text.
pub open spec fn optional_text(text: Option<String>) -> Option<Seq<char>> {
    match text {
        Some(s) => Some(s@),
        None => None,
    }
}

impl View for ExecutionReport {
    type V = ReportView;

    open spec fn view(&self) -> ReportView {
        ReportView {
            event_type: self.event_type@,
            symbol: self.symbol@,
            side: self.side@,
            last_executed_price: optional_text(self.last_executed_price),
            last_executed_quantity: optional_text(self.last_executed_quantity),
            order_status: self.order_status@,
        }
    }
}

/// What the router did with a report, and what is left to do.
#[derive(Debug, Clone, Copy, PartialEq, Eq, Structural)]
pub enum UserStreamAction {
    /// The report was not for the router, or names a side or a status
    /// that it does not handle. Nothing changed.
    Dropped,
    /// A BUY execution; see [`BuyFill`] for what is to be placed.
    Buy(BuyFill),
    /// A SELL order was filled in part. The execution was booked on the
    /// slot named, if any.
    SellPartial(Option<usize>),
    /// A SELL order was filled whole. The execution was booked on the slot
    /// named, if any; that slot's remaining orders are to be cancelled,
    /// the slot cleaned, and the reconciler run.
    SellFilled(Option<usize>),
}

/// The amount that an optional text writes.
pub open spec fn optional_amount(text: Option<Seq<char>>) -> Option<u64> {
    match text {
        Some(s) => decimal_value(s),
        None => None,
    }
}

/// The execution that `report` tells of, if it is one to book: it is an
/// `executionReport` for `symbol`, its last price and last quantity are
/// amounts, and the quantity is positive.
pub open spec fn reported_fill(report: ReportView, symbol: Seq<char>) -> Option<(Price, Quantity)> {
    if report.event_type == "executionReport"@ && report.symbol == symbol {
        match (
            optional_amount(report.last_executed_price),
            optional_amount(report.last_executed_quantity),
        ) {
            (Some(price), Some(quantity)) => if quantity > 0 {
                Some((price, quantity))
            } else {
                None
            },
            _ => None,
        }
    } else {
        None
    }
}

/// What routing `report` makes of the table `before`, and what it answers.
pub open spec fn report_routed(
    report: ReportView,
    symbol: Seq<char>,
    before: Seq<SlotView>,
    after: Seq<SlotView>,
    action: UserStreamAction,
) -> bool {
    match reported_fill(report, symbol) {
        None => action == UserStreamAction::Dropped && after == before,
        Some((price, quantity)) => if report.side == "BUY"@ {
            action matches UserStreamAction::Buy(outcome) && buy_fill_books(
                before,
                after,
                price,
                quantity,
                outcome,
            )
        } else if report.side == "SELL"@ && report.order_status == "PARTIALLY_FILLED"@ {
            action matches UserStreamAction::SellPartial(matched) && sell_fill_books(
                before,
                after,
                price,
                quantity,
                matched,
            )
        } else if report.side == "SELL"@ && report.order_status == "FILLED"@ {
            action matches UserStreamAction::SellFilled(matched) && sell_fill_books(
                before,
                after,
                price,
                quantity,
                matched,
            )
        } else {
            action == UserStreamAction::Dropped && after == before
        },
    }
}

/// Reads the amount that an optional text writes.
pub fn parse_optional_amount(text: &Option<String>) -> (amount: Option<u64>)
    ensures
        amount == optional_amount(optional_text(*text)),
{
    match text {
        Some(s) => parse_decimal(s.as_str()),
        None => None,
    }
}

/// Routes one execution report.
///
/// A report is taken up when it is an `executionReport` for the asset's
/// symbol whose last price and last quantity are amounts, the quantity
/// positive. A BUY execution is booked on the first slot that bids at its
/// price, a SELL execution of an order filled in part or whole on the first
/// slot that sells at its price. Everything else is dropped and changes
/// nothing.
pub fn route_execution_report(
    report: &ExecutionReport,
    asset: &AssetState,
    orders: &mut OrdersState,
) -> (action: UserStreamAction)
    ensures
        report_routed(report@, asset.symbol@, old(orders)@, final(orders)@, action),
        old(orders).wf() ==> final(orders).wf(),
        old(orders).distinct_bids() ==> final(orders).distinct_bids(),
{
    if !same_text(&report.event_type, "executionReport") {
        return UserStreamAction::Dropped;
    }
    if report.symbol != asset.symbol {
        return UserStreamAction::Dropped;
    }
    let price = match parse_optional_amount(&report.last_executed_price) {
        Some(value) => value,
        None => {
            return UserStreamAction::Dropped;
        },
    };
    let quantity = match parse_optional_amount(&report.last_executed_quantity) {
        Some(value) => value,
        None => {
            return UserStreamAction::Dropped;
        },
    };
    if quantity == 0 {
        return UserStreamAction::Dropped;
    }
    if same_text(&report.side, "BUY") {
        UserStreamAction::Buy(add_filled_buy_for_bid_price(orders, price, quantity))
    } else if same_text(&report.side, "SELL") {
        if same_text(&report.order_status, "PARTIALLY_FILLED") {
            UserStreamAction::SellPartial(add_filled_sell_for_ask_price(orders, price, quantity))
        } else if same_text(&report.order_status, "FILLED") {
            UserStreamAction::SellFilled(add_filled_sell_for_ask_price(orders, price, quantity))
        } else {
            UserStreamAction::Dropped
        }
    } else {
        UserStreamAction::Dropped
    }
}

/// The report that a user-data frame carries: the frame is a JSON object
/// whose members `e`, `s`, `S` and `X` are strings. The members `L` and `l`
/// are taken where they are strings.
pub open spec fn execution_report_of(message: Seq<char>) -> Option<ReportView> {
    match json_document(message) {
        None => None,
        Some(doc) => match (
            text_member(doc, "e"@),
            text_member(doc, "s"@),
            text_member(doc, "S"@),
            text_member(doc, "X"@),
        ) {
            (Some(event_type), Some(symbol), Some(side), Some(order_status)) => Some(
                ReportView {
                    event_type,
                    symbol,
                    side,
                    last_executed_price: text_member(doc, "L"@),
                    last_executed_quantity: text_member(doc, "l"@),
                    order_status,
                },
            ),
            _ => None,
        },
    }
}

/// Reads the execution report out of a user-data frame.
pub fn decode_execution_report(message: &str) -> (report: Option<ExecutionReport>)
    ensures
        report is Some == execution_report_of(message@) is Some,
        report matches Some(r) ==> execution_report_of(message@) == Some(r@),
{
    let doc = match parse_json(message) {
        Ok(doc) => doc,
        Err(_) => {
            return None;
        },
    };
    let event_type = match read_text_member(&doc, "e") {
        Some(text) => text,
        None => {
            return None;
        },
    };
    let symbol = match read_text_member(&doc, "s") {
        Some(text) => text,
        None => {
            return None;
        },
    };
    let side = match read_text_member(&doc, "S") {
        Some(text) => text,
        None => {
            return None;
        },
    };
    let order_status = match read_text_member(&doc, "X") {
        Some(text) => text,
        None => {
            return None;
        },
    };
    let last_executed_price = read_text_member(&doc, "L");
    let last_executed_quantity = read_text_member(&doc, "l");
    let report = ExecutionReport {
        event_type,
        symbol,
        side,
        last_executed_price,
        last_executed_quantity,
        order_status,
    };
    assert(report@ =~= execution_report_of(message@)->0);
    Some(report)
}

/// Handles one frame of the user-data stream: the report it carries is
/// routed as [`route_execution_report`] says; a frame that carries none is
/// dropped and changes nothing.
pub fn handle_user_stream_message(
    message: &str,
    asset: &AssetState,
    orders: &mut OrdersState,
) -> (action: UserStreamAction)
    ensures
        match execution_report_of(message@) {
            Some(report) => report_routed(
                report,
                asset.symbol@,
                old(orders)@,
                final(orders)@,
                action,
            ),
            None => action == UserStreamAction::Dropped && final(orders)@ == old(orders)@,
        },
        old(orders).wf() ==> final(orders).wf(),
        old(orders).distinct_bids() ==> final(orders).distinct_bids(),
{
    match decode_execution_report(message) {
        Some(report) => route_execution_report(&report, asset, orders),
        None => UserStreamAction::Dropped,
    }
}

} // verus!
