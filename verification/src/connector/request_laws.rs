//! Words, addresses and requests of the exchange, and what is published about
//! orders.

use vstd::prelude::*;

use crate::connector::msg;
use crate::connector::msg::{OrdType, Side, Status, TimeInForce};
use crate::connector::papi;
use crate::connector::papi::{
    BinancePapiError, Config, ErrorKind, ErrorModel, Published, PublishedModel, RequestOutcome,
};
use crate::connector::papi_rest;
use crate::text;

verus! {

/// Each side and each kind of order has one word, and no other word has a
/// meaning.
pub proof fn law_words_for_sides_and_kinds(s: Seq<char>)
    ensures
        (msg::side_named(s) == Some(Side::Buy)) == (s == "BUY"@),
        (msg::side_named(s) == Some(Side::Sell)) == (s == "SELL"@),
        (msg::type_named(s) == Some(OrdType::Limit)) == (s == "LIMIT"@),
        (msg::type_named(s) == Some(OrdType::Market)) == (s == "MARKET"@),
{
    reveal_strlit("BUY");
    reveal_strlit("SELL");
    reveal_strlit("LIMIT");
    reveal_strlit("MARKET");
    assert("BUY"@.len() != "SELL"@.len());
    assert("LIMIT"@.len() != "MARKET"@.len());
}

/// Each state that the exchange reports has one word, the state of rest has
/// none, and no other word has a meaning.
pub proof fn law_words_for_states(s: Seq<char>)
    ensures
        (msg::status_named(s) == Some(Status::New)) == (s == "NEW"@),
        (msg::status_named(s) == Some(Status::PartiallyFilled)) == (s == "PARTIALLY_FILLED"@),
        (msg::status_named(s) == Some(Status::Filled)) == (s == "FILLED"@),
        (msg::status_named(s) == Some(Status::Canceled)) == (s == "CANCELED"@),
        (msg::status_named(s) == Some(Status::Expired)) == (s == "EXPIRED"@),
        msg::status_named(s) != Some(Status::Idle),
{
    reveal_strlit("NEW");
    reveal_strlit("PARTIALLY_FILLED");
    reveal_strlit("FILLED");
    reveal_strlit("CANCELED");
    reveal_strlit("EXPIRED");
    assert("NEW"@.len() == 3);
    assert("PARTIALLY_FILLED"@.len() == 16);
    assert("FILLED"@.len() == 6);
    assert("CANCELED"@.len() == 8);
    assert("EXPIRED"@.len() == 7);
}

/// Each lifetime has one word, and no other word has a meaning.
pub proof fn law_words_for_lifetimes(s: Seq<char>)
    ensures
        (msg::tif_named(s) == Some(TimeInForce::GTC)) == (s == "GTC"@),
        (msg::tif_named(s) == Some(TimeInForce::IOC)) == (s == "IOC"@),
        (msg::tif_named(s) == Some(TimeInForce::FOK)) == (s == "FOK"@),
        (msg::tif_named(s) == Some(TimeInForce::GTX)) == (s == "GTX"@),
{
    reveal_strlit("GTC");
    reveal_strlit("IOC");
    reveal_strlit("FOK");
    reveal_strlit("GTX");
    assert("GTC"@[0] == 'G' && "GTC"@[2] == 'C');
    assert("IOC"@[0] == 'I');
    assert("FOK"@[0] == 'F');
    assert("GTX"@[0] == 'G' && "GTX"@[2] == 'X');
}

/// A text in which the sought one does not stand is kept.
pub proof fn law_nothing_to_replace(s: Seq<char>, from: Seq<char>, to: Seq<char>)
    requires
        from.len() > 0,
        !text::holds(s, from),
    ensures
        papi::replaced(s, from, to) == s,
    decreases s.len(),
{
    if s.len() > 0 {
        assert(!text::stands_at(s, from, 0));
        let rest = s.drop_first();
        if text::holds(rest, from) {
            let at = choose|at: int| #[trigger] text::stands_at(rest, from, at);
            assert(s.subrange(at + 1, at + 1 + from.len()) =~= rest.subrange(
                at,
                at + from.len(),
            ));
            assert(text::stands_at(s, from, at + 1));
        }
        law_nothing_to_replace(rest, from, to);
        assert(seq![s[0]] + rest =~= s);
    }
}

/// The first place where the sought text stands is replaced, what is before it
/// is kept, and what is behind it is treated alike.
pub proof fn law_first_place_is_replaced(
    head: Seq<char>,
    from: Seq<char>,
    tail: Seq<char>,
    to: Seq<char>,
)
    requires
        from.len() > 0,
        forall|i: int| 0 <= i < head.len() ==> !#[trigger] text::stands_at(
            head + from + tail,
            from,
            i,
        ),
    ensures
        papi::replaced(head + from + tail, from, to) == head + to + papi::replaced(
            tail,
            from,
            to,
        ),
    decreases head.len(),
{
    let s = head + from + tail;
    if head.len() == 0 {
        assert(s.subrange(0, from.len() as int) =~= from);
        assert(text::stands_at(s, from, 0));
        assert(s.skip(from.len() as int) =~= tail);
        assert(head + to + papi::replaced(tail, from, to) =~= to + papi::replaced(
            tail,
            from,
            to,
        ));
    } else {
        let rest = head.drop_first();
        let shorter = rest + from + tail;
        assert(s.drop_first() =~= shorter);
        assert(!text::stands_at(s, from, 0));
        assert forall|i: int| 0 <= i < rest.len() implies !#[trigger] text::stands_at(
            shorter,
            from,
            i,
        ) by {
            if text::stands_at(shorter, from, i) {
                assert(s.subrange(i + 1, i + 1 + from.len()) =~= shorter.subrange(
                    i,
                    i + from.len(),
                ));
                assert(text::stands_at(s, from, i + 1));
            }
        }
        law_first_place_is_replaced(rest, from, tail, to);
        assert(seq![s[0]] + (rest + to + papi::replaced(tail, from, to)) =~= head + to
            + papi::replaced(tail, from, to));
    }
}

/// Only the character itself is cut off the end, and all of it.
pub proof fn law_end_is_cut_off(s: Seq<char>, c: char)
    ensures
        ({
            let r = papi::without_end(s, c);
            &&& r.len() <= s.len()
            &&& r == s.take(r.len() as int)
            &&& r.len() > 0 ==> r.last() != c
            &&& forall|i: int| r.len() <= i < s.len() ==> #[trigger] s[i] == c
        }),
    decreases s.len(),
{
    if s.len() > 0 && s.last() == c {
        let front = s.drop_last();
        law_end_is_cut_off(front, c);
        let r = papi::without_end(s, c);
        assert(front.take(r.len() as int) =~= s.take(r.len() as int));
        assert forall|i: int| r.len() <= i < s.len() implies #[trigger] s[i] == c by {
            if i < front.len() {
                assert(s[i] == front[i]);
            }
        }
    } else {
        assert(s.take(s.len() as int) =~= s);
    }
}

/// Scheme and host of an address are kept, and in its path `/pm` is put before
/// every `/ws`.
pub proof fn law_only_the_path_changes(scheme: Seq<char>, host: Seq<char>, path: Seq<char>)
    requires
        !scheme.contains(':'),
        !host.contains('/'),
        path.len() > 0 ==> path[0] == '/',
    ensures
        papi::with_pm_path(scheme + "://"@ + host + path) == scheme + "://"@ + host
            + papi::replaced(path, "/ws"@, "/pm/ws"@),
{
    reveal_strlit("://");
    let url = scheme + "://"@ + host + path;
    let n: int = scheme.len() as int;
    assert forall|j: int| 0 <= j < n implies url[j] != ':' by {
        assert(url[j] == scheme[j]);
        if url[j] == ':' {
            assert(scheme.contains(':'));
        }
    }
    assert("://"@[0] == ':');
    assert(url[n] == "://"@[0]);
    text::lemma_first_at(url, ':', n);
    assert(url.subrange(n, n + 3) =~= "://"@);
    assert(text::stands_at(url, "://"@, n));
    assert(papi::host_start(url) == n + 3);
    let rest = url.skip(n + 3);
    assert(rest =~= host + path);
    assert forall|j: int| 0 <= j < host.len() implies rest[j] != '/' by {
        assert(rest[j] == host[j]);
        if rest[j] == '/' {
            assert(host.contains('/'));
        }
    }
    text::lemma_first_at(rest, '/', host.len() as int);
    assert(papi::path_start(url) == n + 3 + host.len());
    assert(url.take(papi::path_start(url)) =~= scheme + "://"@ + host);
    assert(url.skip(papi::path_start(url)) =~= path);
}

/// The user data stream stands under its own address where one is configured,
/// else under that of the market data stream with the changed path; slashes at
/// the end do not count.
pub proof fn law_address_of_the_user_stream(config: Config)
    ensures
        config.user_stream_url@.len() > 0 ==> papi::user_stream_base_of(config)
            == papi::without_end(config.user_stream_url@, '/'),
        config.user_stream_url@.len() == 0 ==> papi::user_stream_base_of(config)
            == papi::without_end(papi::with_pm_path(config.stream_url@), '/'),
{
}

/// Every request carries the window and its time. A reading request puts them
/// behind its own query; a changing request is signed over them and its body.
pub proof fn law_window_and_time_are_signed(query: Seq<char>, body: Seq<char>, time: int)
    ensures
        papi_rest::get_query_text(Seq::empty(), time) == "recvWindow=5000&timestamp="@
            + text::int_text(time),
        query.len() > 0 ==> papi_rest::get_query_text(query, time) == query + "&"@
            + papi_rest::get_query_text(Seq::empty(), time),
        papi_rest::signed_text(time, body) == papi_rest::get_query_text(Seq::empty(), time)
            + body,
{
    let window = "recvWindow=5000&timestamp="@ + text::int_text(time);
    assert(papi_rest::get_query_text(Seq::empty(), time) =~= window);
    if query.len() > 0 {
        assert(papi_rest::get_query_text(query, time) =~= query + "&"@ + window);
    }
}

/// The address of a request is that of the interface, its path, its query and
/// the signature; a changing request has only window and time in its query.
pub proof fn law_address_of_a_request(
    api_url: Seq<char>,
    path: Seq<char>,
    query: Seq<char>,
    signature: Seq<char>,
    time: int,
)
    ensures
        papi_rest::get_url_text(api_url, path, query, signature) == api_url + path + "?"@ + query
            + "&signature="@ + signature,
        papi_rest::signed_url_text(api_url, path, time, signature) == papi_rest::get_url_text(
            api_url,
            path,
            papi_rest::get_query_text(Seq::empty(), time),
            signature,
        ),
{
    reveal_strlit("?recvWindow=5000&timestamp=");
    reveal_strlit("recvWindow=5000&timestamp=");
    reveal_strlit("?");
    assert("?recvWindow=5000&timestamp="@ =~= "?"@ + "recvWindow=5000&timestamp="@);
    assert(papi_rest::signed_url_text(api_url, path, time, signature)
        =~= papi_rest::get_url_text(
        api_url,
        path,
        papi_rest::get_query_text(Seq::empty(), time),
        signature,
    ));
}

/// Errors are published under their names, with the reason, the status or the
/// code that they carry.
pub proof fn law_what_is_said_of_an_error(error: BinancePapiError)
    ensures
        match error {
            BinancePapiError::InstrumentNotFound => papi::error_model(error) == ErrorModel::Text(
                "InstrumentNotFound"@,
            ),
            BinancePapiError::InvalidRequest => papi::error_model(error) == ErrorModel::Text(
                "InvalidRequest"@,
            ),
            BinancePapiError::ListenKeyExpired => papi::error_model(error) == ErrorModel::Text(
                "ListenKeyExpired"@,
            ),
            BinancePapiError::ConnectionInterrupted => papi::error_model(error)
                == ErrorModel::Text("ConnectionInterrupted"@),
            BinancePapiError::ConnectionAbort(reason) => papi::error_model(error)
                == ErrorModel::Text("ConnectionAbort: "@ + reason@),
            BinancePapiError::ReqError { status: Some(status), msg } => papi::error_model(error)
                == (ErrorModel::Request { status_code: Some(status@), msg: msg@ }),
            BinancePapiError::ReqError { status: None, msg } => papi::error_model(error) == (
            ErrorModel::Request { status_code: None, msg: msg@ }),
            BinancePapiError::OrderError { code, msg } => papi::error_model(error) == (
            ErrorModel::Order { code, msg: msg@ }),
            BinancePapiError::PrefixUnmatched => papi::error_model(error) == ErrorModel::Text(
                "PrefixUnmatched"@,
            ),
            BinancePapiError::OrderNotFound => papi::error_model(error) == ErrorModel::Text(
                "OrderNotFound"@,
            ),
            BinancePapiError::Tunstenite(error_text) => papi::error_model(error)
                == ErrorModel::Text(error_text@),
            BinancePapiError::Config(error_text) => papi::error_model(error) == ErrorModel::Text(
                "Config: "@ + error_text@,
            ),
        },
{
}

/// After a request the order is published where it is still known, and behind
/// it the error where the request failed; nothing else is.
pub proof fn law_order_then_error<O>(symbol: Seq<char>, order: O, error: BinancePapiError)
    ensures
        papi::request_publications(symbol, RequestOutcome::Accepted(Some(order))) == seq![
            PublishedModel::Order { symbol, order },
        ],
        papi::request_publications(symbol, RequestOutcome::Accepted(None::<O>)) == Seq::<
            PublishedModel<O>,
        >::empty(),
        papi::request_publications(
            symbol,
            RequestOutcome::Failed { order: Some(order), error },
        ) == seq![
            PublishedModel::Order { symbol, order },
            PublishedModel::Error { kind: ErrorKind::OrderError, value: papi::error_model(error) },
        ],
        papi::request_publications(
            symbol,
            RequestOutcome::Failed { order: None::<O>, error },
        ) == seq![
            PublishedModel::<O>::Error {
                kind: ErrorKind::OrderError,
                value: papi::error_model(error),
            },
        ],
{
    assert(papi::request_publications(
        symbol,
        RequestOutcome::Failed { order: Some(order), error },
    ) =~= seq![
        PublishedModel::Order { symbol, order },
        PublishedModel::Error { kind: ErrorKind::OrderError, value: papi::error_model(error) },
    ]);
    assert(papi::request_publications(
        symbol,
        RequestOutcome::Failed { order: None::<O>, error },
    ) =~= seq![
        PublishedModel::<O>::Error {
            kind: ErrorKind::OrderError,
            value: papi::error_model(error),
        },
    ]);
}

/// A list of publications is taken one by one, with all that each says.
pub proof fn law_published_is_taken_whole<O>(published: Seq<Published<O>>)
    ensures
        papi::published_view(published).len() == published.len(),
        forall|i: int|
            0 <= i < published.len() ==> match #[trigger] published[i] {
                Published::Order { symbol, order } => papi::published_view(published)[i] == (
                PublishedModel::Order { symbol: symbol@, order }),
                Published::Error { kind, value } => papi::published_view(published)[i] == (
                PublishedModel::<O>::Error { kind, value: value@ }),
            },
{
}

} // verus!
