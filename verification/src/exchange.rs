//! What is sent to the venue: the payload of each signed request, and the
//! signed form of it.

use vstd::prelude::*;
use vstd::string::*;
use crate::amount::{Price, Quantity};
use crate::decimal::{amount_text, digits_of, format_qty, push_digits};
use crate::logic::hedge::ShortOrder;
use crate::logic::reconcile::BuyPlacement;
use crate::signing::{sign, signature_text, SigningError};

verus! {

/// Name of the header that carries the API key.
pub fn api_key_header() -> (name: &'static str)
    ensures
        name@ == "X-MBX-APIKEY"@,
{
    "X-MBX-APIKEY"
}

/// The side of an order.
#[derive(Debug, Clone, Copy, PartialEq, Eq, Structural)]
pub enum Side {
    Buy,
    Sell,
}

/// How the venue writes a side.
pub open spec fn side_text(side: Side) -> Seq<char> {
    match side {
        Side::Buy => "BUY"@,
        Side::Sell => "SELL"@,
    }
}

/// Payload of a spot LIMIT GTC order.
pub open spec fn spot_order_payload(
    symbol: Seq<char>,
    side: Side,
    quantity: Quantity,
    price: Price,
    timestamp: u64,
) -> Seq<char> {
    "symbol="@ + symbol + "&side="@ + side_text(side) + "&type=LIMIT&timeInForce=GTC&quantity="@
        + amount_text(quantity) + "&price="@ + amount_text(price) + "&timestamp="@ + digits_of(
        timestamp as nat,
    )
}

/// Payload of the cancellation of one spot order.
pub open spec fn cancel_payload(symbol: Seq<char>, order_id: Seq<char>, timestamp: u64) -> Seq<
    char,
> {
    "symbol="@ + symbol + "&orderId="@ + order_id + "&timestamp="@ + digits_of(timestamp as nat)
}

/// Payload of the request that sets the futures leverage to 1.
pub open spec fn leverage_payload(symbol: Seq<char>, timestamp: u64) -> Seq<char> {
    "symbol="@ + symbol + "&leverage=1&timestamp="@ + digits_of(timestamp as nat)
}

/// Payload of a futures MARKET order; one that closes a short only reduces.
pub open spec fn futures_order_payload(
    symbol: Seq<char>,
    side: Side,
    quantity: Quantity,
    reduce_only: bool,
    timestamp: u64,
) -> Seq<char> {
    "symbol="@ + symbol + "&side="@ + side_text(side) + if reduce_only {
        "&type=MARKET&reduceOnly=true&quantity="@
    } else {
        "&type=MARKET&quantity="@
    } + amount_text(quantity) + "&timestamp="@ + digits_of(timestamp as nat)
}

/// A payload with its signature appended.
pub open spec fn signed_payload(payload: Seq<char>, signature: Seq<char>) -> Seq<char> {
    payload + "&signature="@ + signature
}

/// A payload signed under `secret`.
pub open spec fn signed_under(secret: Seq<char>, payload: Seq<char>) -> Seq<char> {
    signed_payload(payload, signature_text(secret, payload))
}

/// Why a request could not be made up.
#[derive(Debug, Clone, Copy, PartialEq, Eq, Structural)]
pub enum RequestError {
    /// The API key or the API secret is empty.
    MissingCredentials,
    /// The payload could not be signed.
    Signing,
}

/// How the venue writes `side`.
pub fn side_name(side: Side) -> (name: &'static str)
    ensures
        name@ == side_text(side),
{
    match side {
        Side::Buy => "BUY",
        Side::Sell => "SELL",
    }
}

/// Makes up the payload of a spot LIMIT GTC order.
pub fn spot_order_query(
    symbol: &str,
    side: Side,
    quantity: Quantity,
    price: Price,
    timestamp: u64,
) -> (query: String)
    ensures
        query@ == spot_order_payload(symbol@, side, quantity, price, timestamp),
{
    let mut query = String::from_str("symbol=");
    query.append(symbol);
    query.append("&side=");
    query.append(side_name(side));
    query.append("&type=LIMIT&timeInForce=GTC&quantity=");
    query.append(format_qty(quantity).as_str());
    query.append("&price=");
    query.append(format_qty(price).as_str());
    query.append("&timestamp=");
    push_digits(&mut query, timestamp);
    query
}

/// The payload of the BUY that `placement` plans.
pub fn buy_order_query(symbol: &str, placement: &BuyPlacement, timestamp: u64) -> (query: String)
    ensures
        query@ == spot_order_payload(
            symbol@,
            Side::Buy,
            placement.quantity,
            placement.price,
            timestamp,
        ),
{
    spot_order_query(symbol, Side::Buy, placement.quantity, placement.price, timestamp)
}

/// The payload of the SELL paired with a BUY execution.
pub fn sell_order_query(symbol: &str, quantity: Quantity, price: Price, timestamp: u64) -> (query:
    String)
    ensures
        query@ == spot_order_payload(symbol@, Side::Sell, quantity, price, timestamp),
{
    spot_order_query(symbol, Side::Sell, quantity, price, timestamp)
}

/// Makes up the payload that cancels the spot order `order_id`.
pub fn cancel_order_query(symbol: &str, order_id: &str, timestamp: u64) -> (query: String)
    ensures
        query@ == cancel_payload(symbol@, order_id@, timestamp),
{
    let mut query = String::from_str("symbol=");
    query.append(symbol);
    query.append("&orderId=");
    query.append(order_id);
    query.append("&timestamp=");
    push_digits(&mut query, timestamp);
    query
}

/// Makes up the payload that sets the futures leverage to 1.
pub fn leverage_query(symbol: &str, timestamp: u64) -> (query: String)
    ensures
        query@ == leverage_payload(symbol@, timestamp),
{
    let mut query = String::from_str("symbol=");
    query.append(symbol);
    query.append("&leverage=1&timestamp=");
    push_digits(&mut query, timestamp);
    query
}

/// Makes up the payload of a futures MARKET order.
pub fn futures_order_query(
    symbol: &str,
    side: Side,
    quantity: Quantity,
    reduce_only: bool,
    timestamp: u64,
) -> (query: String)
    ensures
        query@ == futures_order_payload(symbol@, side, quantity, reduce_only, timestamp),
{
    let mut query = String::from_str("symbol=");
    query.append(symbol);
    query.append("&side=");
    query.append(side_name(side));
    if reduce_only {
        query.append("&type=MARKET&reduceOnly=true&quantity=");
    } else {
        query.append("&type=MARKET&quantity=");
    }
    query.append(format_qty(quantity).as_str());
    query.append("&timestamp=");
    push_digits(&mut query, timestamp);
    query
}

/// Appends `signature` to `payload`.
pub fn with_signature(payload: &str, signature: &str) -> (signed: String)
    ensures
        signed@ == signed_payload(payload@, signature@),
{
    let mut signed = String::from_str(payload);
    signed.append("&signature=");
    signed.append(signature);
    signed
}

/// Puts the signature on a payload, given what signing it came to.
pub fn finish_signed(payload: &str, signature: Result<String, SigningError>) -> (signed: Result<
    String,
    RequestError,
>)
    ensures
        match signature {
            Ok(text) => signed matches Ok(query) && query@ == signed_payload(payload@, text@),
            Err(_) => signed == Err::<String, RequestError>(RequestError::Signing),
        },
{
    match signature {
        Ok(text) => Ok(with_signature(payload, text.as_str())),
        Err(_) => Err(RequestError::Signing),
    }
}

/// Signs `payload` under `api_secret` and appends the signature.
pub fn signed_query(payload: &str, api_secret: &str) -> (signed: Result<String, RequestError>)
    ensures
        signed matches Ok(query) && query@ == signed_under(api_secret@, payload@),
{
    finish_signed(payload, sign(api_secret, payload))
}

/// What making up a signed request comes to: without credentials it
/// fails for want of them; with them it is the payload signed under the
/// secret.
pub open spec fn request_made(
    api_key: Seq<char>,
    api_secret: Seq<char>,
    payload: Seq<char>,
    signed: Result<String, RequestError>,
) -> bool {
    if api_key.len() > 0 && api_secret.len() > 0 {
        signed matches Ok(query) && query@ == signed_under(api_secret, payload)
    } else {
        signed == Err::<String, RequestError>(RequestError::MissingCredentials)
    }
}

/// Whether both the API key and the API secret are there.
pub fn has_credentials(api_key: &str, api_secret: &str) -> (present: bool)
    ensures
        present == (api_key@.len() > 0 && api_secret@.len() > 0),
{
    !api_key.is_empty() && !api_secret.is_empty()
}

/// The signed query that sets the futures leverage of `symbol` to 1.
///
/// Without credentials there is none. With them, the query is the leverage
/// payload signed under the secret.
pub fn set_leverage_x1(symbol: &str, api_key: &str, api_secret: &str, timestamp: u64) -> (signed:
    Result<String, RequestError>)
    ensures
        request_made(api_key@, api_secret@, leverage_payload(symbol@, timestamp), signed),
{
    if !has_credentials(api_key, api_secret) {
        return Err(RequestError::MissingCredentials);
    }
    let payload = leverage_query(symbol, timestamp);
    signed_query(payload.as_str(), api_secret)
}

/// The signed query of the futures MARKET SELL that opens the short
/// `order`.
///
/// Without credentials there is none. With them, the query is the order's
/// payload signed under the secret.
pub fn open_short_position(
    symbol: &str,
    order: ShortOrder,
    api_key: &str,
    api_secret: &str,
    timestamp: u64,
) -> (signed: Result<String, RequestError>)
    ensures
        request_made(api_key@, api_secret@, futures_order_payload(symbol@, Side::Sell, order.size, false, timestamp), signed),
{
    if !has_credentials(api_key, api_secret) {
        return Err(RequestError::MissingCredentials);
    }
    let payload = futures_order_query(symbol, Side::Sell, order.size, false, timestamp);
    signed_query(payload.as_str(), api_secret)
}

/// The signed query of the reducing futures MARKET BUY that closes the
/// short `order`.
///
/// Without credentials there is none. With them, the query is the order's
/// payload signed under the secret.
pub fn close_short_position(
    symbol: &str,
    order: ShortOrder,
    api_key: &str,
    api_secret: &str,
    timestamp: u64,
) -> (signed: Result<String, RequestError>)
    ensures
        request_made(api_key@, api_secret@, futures_order_payload(symbol@, Side::Buy, order.size, true, timestamp), signed),
{
    if !has_credentials(api_key, api_secret) {
        return Err(RequestError::MissingCredentials);
    }
    let payload = futures_order_query(symbol, Side::Buy, order.size, true, timestamp);
    signed_query(payload.as_str(), api_secret)
}

/// The signed query that cancels the spot order `order_id`.
///
/// Without credentials there is none. With them, the query is the
/// cancellation's payload signed under the secret.
pub fn cancel_spot_order(
    symbol: &str,
    order_id: &str,
    api_key: &str,
    api_secret: &str,
    timestamp: u64,
) -> (signed: Result<String, RequestError>)
    ensures
        request_made(api_key@, api_secret@, cancel_payload(symbol@, order_id@, timestamp), signed),
{
    if !has_credentials(api_key, api_secret) {
        return Err(RequestError::MissingCredentials);
    }
    let payload = cancel_order_query(symbol, order_id, timestamp);
    signed_query(payload.as_str(), api_secret)
}

/// What making up the cancellations of `order_ids` comes to. Where there
/// is nothing to cancel there is nothing to send, credentials or none.
/// Otherwise, without credentials it fails for want of them; with them
/// there is one signed query per id, in the order of the ids.
pub open spec fn cancellations_made(
    symbol: Seq<char>,
    order_ids: Seq<String>,
    api_key: Seq<char>,
    api_secret: Seq<char>,
    timestamp: u64,
    made: Result<Vec<String>, RequestError>,
) -> bool {
    if order_ids.len() == 0 {
        made matches Ok(queries) && queries@.len() == 0
    } else if api_key.len() > 0 && api_secret.len() > 0 {
        &&& made matches Ok(queries)
        &&& queries@.len() == order_ids.len()
        &&& forall|k: int|
            0 <= k < order_ids.len() ==> (#[trigger] queries@[k])@ == signed_under(
                api_secret,
                cancel_payload(symbol, order_ids[k]@, timestamp),
            )
    } else {
        made == Err::<Vec<String>, RequestError>(RequestError::MissingCredentials)
    }
}

/// The signed queries that cancel the spot orders `order_ids`, one per id.
pub fn cancel_spot_orders(
    symbol: &str,
    order_ids: &[String],
    api_key: &str,
    api_secret: &str,
    timestamp: u64,
) -> (made: Result<Vec<String>, RequestError>)
    ensures
        cancellations_made(symbol@, order_ids@, api_key@, api_secret@, timestamp, made),
{
    let mut queries: Vec<String> = Vec::new();
    if order_ids.len() == 0 {
        return Ok(queries);
    }
    if !has_credentials(api_key, api_secret) {
        return Err(RequestError::MissingCredentials);
    }
    let mut i: usize = 0;
    while i < order_ids.len()
        invariant
            i <= order_ids@.len(),
            api_key@.len() > 0 && api_secret@.len() > 0,
            queries@.len() == i,
            forall|k: int|
                0 <= k < i ==> (#[trigger] queries@[k])@ == signed_under(
                    api_secret@,
                    cancel_payload(symbol@, order_ids@[k]@, timestamp),
                ),
        decreases order_ids@.len() - i,
    {
        match cancel_spot_order(symbol, order_ids[i].as_str(), api_key, api_secret, timestamp) {
            Ok(query) => {
                queries.push(query);
            },
            Err(_) => {
                return Err(RequestError::Signing);
            },
        }
        i += 1;
    }
    Ok(queries)
}

} // verus!
