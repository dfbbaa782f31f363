//! Requests to the portfolio margin REST interface: paths, bodies, the texts
//! that are signed, and how replies are taken.

use vstd::prelude::*;

use crate::connector::papi::BinancePapiError;
use crate::text;

verus! {

/// Path of the listen key requests.
pub fn listen_key_path() -> (r: &'static str)
    ensures
        r@ == "/papi/v1/listenKey"@,
{
    "/papi/v1/listenKey"
}

/// Path of the order requests.
pub fn order_path() -> (r: &'static str)
    ensures
        r@ == "/papi/v1/um/order"@,
{
    "/papi/v1/um/order"
}

/// Path of the request that cancels all orders.
pub fn all_orders_path() -> (r: &'static str)
    ensures
        r@ == "/papi/v1/um/allOpenOrders"@,
{
    "/papi/v1/um/allOpenOrders"
}

/// Path of the account request.
pub fn account_path() -> (r: &'static str)
    ensures
        r@ == "/papi/v1/account"@,
{
    "/papi/v1/account"
}

/// Path of the balance request.
pub fn balance_path() -> (r: &'static str)
    ensures
        r@ == "/papi/v1/balance"@,
{
    "/papi/v1/balance"
}

/// Path of the position request.
pub fn position_path() -> (r: &'static str)
    ensures
        r@ == "/papi/v1/um/positionRisk"@,
{
    "/papi/v1/um/positionRisk"
}

/// The time that a request carries: a second before now, in milliseconds.
pub fn request_time(now_millis: i64) -> (r: i64)
    requires
        now_millis >= i64::MIN + 1000,
    ensures
        r == now_millis - 1000,
{
    now_millis - 1000
}

/// The query of a reading request, which is also the text that is signed.
pub open spec fn get_query_text(query: Seq<char>, time: int) -> Seq<char> {
    (if query.len() == 0 {
        query
    } else {
        query + "&"@
    }) + "recvWindow=5000&timestamp="@ + text::int_text(time)
}

/// Writes the query of a reading request.
pub fn get_query(query: &str, time: i64) -> (r: String)
    ensures
        r@ == get_query_text(query@, time as int),
{
    let mut r = query.to_string();
    if !query.is_empty() {
        r.append("&");
    }
    r.append("recvWindow=5000&timestamp=");
    text::append_i64(&mut r, time);
    r
}

/// The URL of a reading request.
pub open spec fn get_url_text(
    api_url: Seq<char>,
    path: Seq<char>,
    query: Seq<char>,
    signature: Seq<char>,
) -> Seq<char> {
    api_url + path + "?"@ + query + "&signature="@ + signature
}

/// Writes the URL of a reading request.
pub fn get_url(api_url: &str, path: &str, query: &str, signature: &str) -> (r: String)
    ensures
        r@ == get_url_text(api_url@, path@, query@, signature@),
{
    let mut r = api_url.to_string();
    r.append(path);
    r.append("?");
    r.append(query);
    r.append("&signature=");
    r.append(signature);
    r
}

/// The text that is signed of a changing request: the query, then the body.
pub open spec fn signed_text(time: int, body: Seq<char>) -> Seq<char> {
    "recvWindow=5000&timestamp="@ + text::int_text(time) + body
}

/// Writes the text that is signed of a changing request.
pub fn sign_body(time: i64, body: &str) -> (r: String)
    ensures
        r@ == signed_text(time as int, body@),
{
    let mut r = "recvWindow=5000&timestamp=".to_string();
    text::append_i64(&mut r, time);
    r.append(body);
    r
}

/// The URL of a changing request.
pub open spec fn signed_url_text(
    api_url: Seq<char>,
    path: Seq<char>,
    time: int,
    signature: Seq<char>,
) -> Seq<char> {
    api_url + path + "?recvWindow=5000&timestamp="@ + text::int_text(time) + "&signature="@
        + signature
}

/// Writes the URL of a changing request.
pub fn signed_url(api_url: &str, path: &str, time: i64, signature: &str) -> (r: String)
    ensures
        r@ == signed_url_text(api_url@, path@, time as int, signature@),
{
    let mut r = api_url.to_string();
    r.append(path);
    r.append("?recvWindow=5000&timestamp=");
    text::append_i64(&mut r, time);
    r.append("&signature=");
    r.append(signature);
    r
}

/// Writes the body of an order request. Price and quantity come as text.
pub fn submit_body(
    client_order_id: &str,
    symbol: &str,
    side: &str,
    price: &str,
    qty: &str,
    order_type: &str,
    time_in_force: &str,
) -> (r: String)
    ensures
        r@ == "newClientOrderId="@ + client_order_id@ + "&symbol="@ + symbol@ + "&side="@ + side@
            + "&price="@ + price@ + "&quantity="@ + qty@ + "&type="@ + order_type@
            + "&timeInForce="@ + time_in_force@,
{
    let mut body = "newClientOrderId=".to_string();
    body.append(client_order_id);
    body.append("&symbol=");
    body.append(symbol);
    body.append("&side=");
    body.append(side);
    body.append("&price=");
    body.append(price);
    body.append("&quantity=");
    body.append(qty);
    body.append("&type=");
    body.append(order_type);
    body.append("&timeInForce=");
    body.append(time_in_force);
    body
}

/// Writes the body of an order change. Price and quantity come as text.
pub fn modify_body(
    client_order_id: &str,
    symbol: &str,
    side: &str,
    price: &str,
    qty: &str,
) -> (r: String)
    ensures
        r@ == "symbol="@ + symbol@ + "&origClientOrderId="@ + client_order_id@ + "&side="@ + side@
            + "&price="@ + price@ + "&quantity="@ + qty@,
{
    let mut body = "symbol=".to_string();
    body.append(symbol);
    body.append("&origClientOrderId=");
    body.append(client_order_id);
    body.append("&side=");
    body.append(side);
    body.append("&price=");
    body.append(price);
    body.append("&quantity=");
    body.append(qty);
    body
}

/// Writes the body of a cancel request.
pub fn cancel_body(client_order_id: &str, symbol: &str) -> (r: String)
    ensures
        r@ == "symbol="@ + symbol@ + "&origClientOrderId="@ + client_order_id@,
{
    let mut body = "symbol=".to_string();
    body.append(symbol);
    body.append("&origClientOrderId=");
    body.append(client_order_id);
    body
}

/// Writes the query or body that names a symbol only.
pub fn symbol_query(symbol: &str) -> (r: String)
    ensures
        r@ == "symbol="@ + symbol@,
{
    let mut r = "symbol=".to_string();
    r.append(symbol);
    r
}

/// Reply to an order request: the order, or an error with code and message.
#[derive(Debug)]
pub enum OrderReply<R> {
    Accepted(R),
    Refused { code: i64, msg: String },
}

/// Takes the reply to an order request.
pub fn order_result<R>(reply: OrderReply<R>) -> (r: Result<R, BinancePapiError>)
    ensures
        match reply {
            OrderReply::Accepted(order) => r == Ok::<R, BinancePapiError>(order),
            OrderReply::Refused { code, msg } => r == Err::<R, _>(
                BinancePapiError::OrderError { code, msg },
            ),
        },
{
    match reply {
        OrderReply::Accepted(order) => Ok(order),
        OrderReply::Refused { code, msg } => Err(BinancePapiError::OrderError { code, msg }),
    }
}

} // verus!
