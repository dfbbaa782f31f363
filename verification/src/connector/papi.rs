//! Portfolio margin connector: configuration, registration of symbols, and
//! what is published about orders.

use vstd::prelude::*;

use crate::connector::msg::{OrdType, Side, Status, TimeInForce};
use crate::keyed::Keyed;
use crate::text;

verus! {

/// Errors of the connector. Errors of the network, of the web socket and of
/// the configuration are carried as the texts that they are shown with.
#[derive(Debug)]
pub enum BinancePapiError {
    InstrumentNotFound,
    InvalidRequest,
    ListenKeyExpired,
    ConnectionInterrupted,
    ConnectionAbort(String),
    /// A request failed, with the HTTP status where there was one.
    ReqError { status: Option<String>, msg: String },
    OrderError { code: i64, msg: String },
    PrefixUnmatched,
    OrderNotFound,
    Tunstenite(String),
    Config(String),
}

/// A value that is published about an error.
#[derive(Debug)]
pub enum ErrorValue {
    Text(String),
    /// HTTP status, where there is one, and message.
    Request { status_code: Option<String>, msg: String },
    /// Code and message of a refused order.
    Order { code: i64, msg: String },
}

/// What an `ErrorValue` says.
pub enum ErrorModel {
    Text(Seq<char>),
    Request { status_code: Option<Seq<char>>, msg: Seq<char> },
    Order { code: i64, msg: Seq<char> },
}

impl View for ErrorValue {
    type V = ErrorModel;

    open spec fn view(&self) -> ErrorModel {
        match *self {
            ErrorValue::Text(t) => ErrorModel::Text(t@),
            ErrorValue::Request { status_code, msg } => ErrorModel::Request {
                status_code: crate::decode::opt_view(status_code),
                msg: msg@,
            },
            ErrorValue::Order { code, msg } => ErrorModel::Order { code, msg: msg@ },
        }
    }
}

/// The value that is published about an error.
pub open spec fn error_model(error: BinancePapiError) -> ErrorModel {
    match error {
        BinancePapiError::InstrumentNotFound => ErrorModel::Text("InstrumentNotFound"@),
        BinancePapiError::InvalidRequest => ErrorModel::Text("InvalidRequest"@),
        BinancePapiError::ListenKeyExpired => ErrorModel::Text("ListenKeyExpired"@),
        BinancePapiError::ConnectionInterrupted => ErrorModel::Text("ConnectionInterrupted"@),
        BinancePapiError::ConnectionAbort(reason) => ErrorModel::Text(
            "ConnectionAbort: "@ + reason@,
        ),
        BinancePapiError::ReqError { status, msg } => ErrorModel::Request {
            status_code: crate::decode::opt_view(status),
            msg: msg@,
        },
        BinancePapiError::OrderError { code, msg } => ErrorModel::Order { code, msg: msg@ },
        BinancePapiError::PrefixUnmatched => ErrorModel::Text("PrefixUnmatched"@),
        BinancePapiError::OrderNotFound => ErrorModel::Text("OrderNotFound"@),
        BinancePapiError::Tunstenite(error) => ErrorModel::Text(error@),
        BinancePapiError::Config(error) => ErrorModel::Text("Config: "@ + error@),
    }
}

/// Makes the value that is published about an error.
pub fn error_value(error: BinancePapiError) -> (r: ErrorValue)
    ensures
        r@ == error_model(error),
{
    match error {
        BinancePapiError::InstrumentNotFound => ErrorValue::Text("InstrumentNotFound".to_string()),
        BinancePapiError::InvalidRequest => ErrorValue::Text("InvalidRequest".to_string()),
        BinancePapiError::ListenKeyExpired => ErrorValue::Text("ListenKeyExpired".to_string()),
        BinancePapiError::ConnectionInterrupted => ErrorValue::Text(
            "ConnectionInterrupted".to_string(),
        ),
        BinancePapiError::ConnectionAbort(reason) => {
            let mut t = "ConnectionAbort: ".to_string();
            t.append(reason.as_str());
            ErrorValue::Text(t)
        },
        BinancePapiError::ReqError { status, msg } => ErrorValue::Request {
            status_code: status,
            msg,
        },
        BinancePapiError::OrderError { code, msg } => ErrorValue::Order { code, msg },
        BinancePapiError::PrefixUnmatched => ErrorValue::Text("PrefixUnmatched".to_string()),
        BinancePapiError::OrderNotFound => ErrorValue::Text("OrderNotFound".to_string()),
        BinancePapiError::Tunstenite(error) => ErrorValue::Text(error),
        BinancePapiError::Config(error) => {
            let mut t = "Config: ".to_string();
            t.append(error.as_str());
            ErrorValue::Text(t)
        },
    }
}

/// Configuration of the connector.
#[derive(Debug)]
pub struct Config {
    /// REST URL.
    pub api_url: String,
    /// Web socket URL for market data.
    pub stream_url: String,
    /// Web socket URL for user data; where empty, it is made of `stream_url`.
    pub user_stream_url: String,
    pub order_prefix: String,
    pub api_key: String,
    pub secret: String,
}

/// The text with every `from` replaced by `to`, from left to right.
pub open spec fn replaced(s: Seq<char>, from: Seq<char>, to: Seq<char>) -> Seq<char>
    decreases s.len(),
{
    if s.len() == 0 || from.len() == 0 {
        s
    } else if text::stands_at(s, from, 0) {
        to + replaced(s.skip(from.len() as int), from, to)
    } else {
        seq![s[0]] + replaced(s.drop_first(), from, to)
    }
}

/// The text without any `c` at its end.
pub open spec fn without_end(s: Seq<char>, c: char) -> Seq<char>
    decreases s.len(),
{
    if s.len() > 0 && s.last() == c {
        without_end(s.drop_last(), c)
    } else {
        s
    }
}

/// Replaces every occurrence of a text.
fn replace_all(s: &str, from: &str, to: &str) -> (r: String)
    requires
        from@.len() > 0,
    ensures
        r@ == replaced(s@, from@, to@),
{
    let mut r = String::new();
    let n: usize = s.unicode_len();
    let m: usize = from.unicode_len();
    let mut i: usize = 0;
    assert(r@ + replaced(s@.skip(0), from@, to@) =~= replaced(s@, from@, to@)) by {
        assert(s@.skip(0) =~= s@);
    }
    while i < n
        invariant
            n == s@.len(),
            m == from@.len(),
            m > 0,
            i <= n,
            r@ + replaced(s@.skip(i as int), from@, to@) == replaced(s@, from@, to@),
        decreases n - i,
    {
        let ghost before = r@;
        let ghost rest = s@.skip(i as int);
        let tail = s.substring_char(i, n);
        assert(tail@ =~= rest);
        if text::begins_with(tail, from) {
            r.append(to);
            assert(rest.skip(m as int) =~= s@.skip(i as int + m as int));
            i = i + m;
        } else {
            r.append(s.substring_char(i, i + 1));
            assert(s@.subrange(i as int, i as int + 1) =~= seq![rest[0]]);
            assert(rest.drop_first() =~= s@.skip(i as int + 1));
            i = i + 1;
        }
        assert(r@ + replaced(s@.skip(i as int), from@, to@) =~= before + replaced(
            rest,
            from@,
            to@,
        ));
    }
    assert(s@.skip(i as int) =~= Seq::empty());
    assert(r@ =~= replaced(s@, from@, to@));
    r
}

/// Removes every `c` at the end.
fn trim_end_char<'a>(s: &'a str, c: char) -> (r: &'a str)
    ensures
        r@ == without_end(s@, c),
{
    let chars = text::chars_of(s);
    let mut n: usize = chars.len();
    assert(s@.take(n as int) =~= s@);
    while n > 0 && chars[n - 1] == c
        invariant
            chars@ == s@,
            n <= chars@.len(),
            without_end(s@.take(n as int), c) == without_end(s@, c),
        decreases n,
    {
        assert(s@.take(n as int).drop_last() =~= s@.take(n - 1));
        n -= 1;
    }
    let r = s.substring_char(0, n);
    assert(r@ =~= s@.take(n as int));
    r
}

/// Where the host of a URL begins: behind `://`, or at the front.
pub open spec fn host_start(url: Seq<char>) -> int {
    let scheme = text::first_at(url, ':');
    if text::stands_at(url, "://"@, scheme) {
        scheme + "://"@.len()
    } else {
        0
    }
}

/// Where the path of a URL begins: at the first `/` behind its host.
pub open spec fn path_start(url: Seq<char>) -> int {
    host_start(url) + text::first_at(url.skip(host_start(url)), '/')
}

/// The URL with `/pm` before `/ws` in its path.
pub open spec fn with_pm_path(url: Seq<char>) -> Seq<char> {
    url.take(path_start(url)) + replaced(url.skip(path_start(url)), "/ws"@, "/pm/ws"@)
}

/// Puts `/pm` before `/ws` in the path of a URL.
fn put_pm_path(url: &str) -> (r: String)
    ensures
        r@ == with_pm_path(url@),
{
    proof {
        reveal_strlit("://");
        reveal_strlit("/ws");
    }
    let n: usize = url.unicode_len();
    let scheme: usize = text::before_first(url, ':').unicode_len();
    proof {
        text::lemma_first_at_bound(url@, ':');
    }
    let behind = url.substring_char(scheme, n);
    assert(behind@ =~= url@.skip(scheme as int));
    assert(text::stands_at(behind@, "://"@, 0) == text::stands_at(
        url@,
        "://"@,
        scheme as int,
    )) by {
        if scheme + 3 <= n {
            assert(behind@.subrange(0, 3) =~= url@.subrange(scheme as int, scheme + 3));
        }
    }
    let host: usize = if text::begins_with(behind, "://") {
        scheme + 3
    } else {
        0
    };
    let rest = url.substring_char(host, n);
    assert(rest@ =~= url@.skip(host_start(url@)));
    proof {
        text::lemma_first_at_bound(rest@, '/');
    }
    let path: usize = host + text::before_first(rest, '/').unicode_len();
    let mut r = url.substring_char(0, path).to_string();
    assert(r@ =~= url@.take(path_start(url@)));
    let tail = url.substring_char(path, n);
    assert(tail@ =~= url@.skip(path_start(url@)));
    let replaced = replace_all(tail, "/ws", "/pm/ws");
    r.append(replaced.as_str());
    r
}

/// The start of the user data stream's URL: the configured one, or that of
/// the market data stream with `/pm` before `/ws` in its path, without
/// slashes at the end.
pub open spec fn user_stream_base_of(config: Config) -> Seq<char> {
    if config.user_stream_url@.len() == 0 {
        without_end(with_pm_path(config.stream_url@), '/')
    } else {
        without_end(config.user_stream_url@, '/')
    }
}

impl Config {
    /// The start of the user data stream's URL.
    pub fn user_stream_base(&self) -> (r: String)
        ensures
            r@ == user_stream_base_of(*self),
    {
        if self.user_stream_url.as_str().is_empty() {
            let made = put_pm_path(self.stream_url.as_str());
            trim_end_char(made.as_str(), '/').to_string()
        } else {
            trim_end_char(self.user_stream_url.as_str(), '/').to_string()
        }
    }

    /// URL of the user data stream of a listen key.
    pub fn user_stream(&self, listen_key: &str) -> (r: String)
        ensures
            r@ == user_stream_base_of(*self) + "/"@ + listen_key@,
    {
        let mut r = self.user_stream_base();
        r.append("/");
        r.append(listen_key);
        r
    }

    /// The user data stream is used only with both an API key and a secret.
    pub fn has_credentials(&self) -> (r: bool)
        ensures
            r == (self.api_key@.len() > 0 && self.secret@.len() > 0),
    {
        !self.api_key.as_str().is_empty() && !self.secret.as_str().is_empty()
    }
}

/// The registered symbols, in lower case.
pub struct SymbolSet {
    symbols: Keyed<()>,
}

impl View for SymbolSet {
    type V = Set<Seq<char>>;

    closed spec fn view(&self) -> Set<Seq<char>> {
        self.symbols@.dom()
    }
}

impl SymbolSet {
    /// No symbol is registered twice.
    pub closed spec fn wf(&self) -> bool {
        self.symbols.wf()
    }

    pub fn new() -> (r: Self)
        ensures
            r.wf(),
            r@ == Set::<Seq<char>>::empty(),
    {
        let r = SymbolSet { symbols: Keyed::new() };
        assert(r@ =~= Set::empty());
        r
    }

    /// Registers a symbol in lower case. Where it is new, it is handed out to
    /// be subscribed to.
    pub fn register(&mut self, symbol: &str) -> (r: Option<String>)
        requires
            old(self).wf(),
        ensures
            final(self).wf(),
            final(self)@ == old(self)@.insert(text::in_lower_case(symbol@)),
            r is Some == !old(self)@.contains(text::in_lower_case(symbol@)),
            r is Some ==> r->0@ == text::in_lower_case(symbol@),
    {
        let name = text::to_lower(symbol);
        match self.symbols.get(name.as_str()) {
            Some(_) => {
                assert(self@ =~= self@.insert(name@));
                None
            },
            None => {
                let ghost before = self@;
                self.symbols.set(name.as_str(), ());
                assert(self@ =~= before.insert(name@));
                Some(name)
            },
        }
    }
}

/// Kind of a published error.
#[derive(Debug, Clone, Copy, PartialEq, Eq, Structural)]
pub enum ErrorKind {
    ConnectionInterrupted,
    OrderError,
}

/// Something published about an order or a connection. `O` is the order.
#[derive(Debug)]
pub enum Published<O> {
    Order { symbol: String, order: O },
    Error { kind: ErrorKind, value: ErrorValue },
}

/// What is published.
pub enum PublishedModel<O> {
    Order { symbol: Seq<char>, order: O },
    Error { kind: ErrorKind, value: ErrorModel },
}

impl<O> View for Published<O> {
    type V = PublishedModel<O>;

    open spec fn view(&self) -> PublishedModel<O> {
        match *self {
            Published::Order { symbol, order } => PublishedModel::Order { symbol: symbol@, order },
            Published::Error { kind, value } => PublishedModel::Error { kind, value: value@ },
        }
    }
}

/// What a list of publications says.
pub open spec fn published_view<O>(p: Seq<Published<O>>) -> Seq<PublishedModel<O>> {
    p.map_values(|x: Published<O>| x@)
}

/// Makes what is published about an error of a stream's connection.
pub fn connection_error<O>(error: BinancePapiError) -> (r: Published<O>)
    ensures
        r@ == (PublishedModel::<O>::Error {
            kind: ErrorKind::ConnectionInterrupted,
            value: error_model(error),
        }),
{
    Published::Error { kind: ErrorKind::ConnectionInterrupted, value: error_value(error) }
}

/// An order to be sent. The price is `price_tick` times `tick_size`.
#[derive(Debug)]
pub struct LiveOrder<F> {
    pub order_id: u64,
    pub side: Side,
    pub price_tick: i64,
    pub tick_size: F,
    pub qty: F,
    pub order_type: OrdType,
    pub time_in_force: TimeInForce,
    /// State of the request about the order.
    pub req: Status,
    pub status: Status,
}

/// What is done first about a submitted order.
#[derive(Debug)]
pub enum SubmitStep<F> {
    /// It is sent under this client order id.
    Send { client_order_id: String, order: LiveOrder<F> },
    /// It cannot be sent; this is published.
    Publish(Published<LiveOrder<F>>),
}

/// Begins to submit an order. Without a client order id, because the one
/// made for it is taken, the request is over and the order has expired.
pub fn begin_submit<F>(
    symbol: String,
    order: LiveOrder<F>,
    client_order_id: Option<String>,
) -> (r: SubmitStep<F>)
    ensures
        match client_order_id {
            Some(id) => r == (SubmitStep::Send { client_order_id: id, order }),
            None => r is Publish && r->Publish_0@ == (PublishedModel::Order {
                symbol: symbol@,
                order: LiveOrder { req: Status::Idle, status: Status::Expired, ..order },
            }),
        },
{
    match client_order_id {
        Some(client_order_id) => SubmitStep::Send { client_order_id, order },
        None => {
            let mut order = order;
            order.req = Status::Idle;
            order.status = Status::Expired;
            SubmitStep::Publish(Published::Order { symbol, order })
        },
    }
}

/// How a submit or cancel request went, with the order as it is after the
/// reply or the failure, where it is still known.
#[derive(Debug)]
pub enum RequestOutcome<O> {
    Accepted(Option<O>),
    Failed { order: Option<O>, error: BinancePapiError },
}

/// What is published about an order that may still be known.
pub open spec fn order_publication<O>(symbol: Seq<char>, order: Option<O>) -> Seq<PublishedModel<O>> {
    match order {
        Some(order) => seq![PublishedModel::Order { symbol, order }],
        None => Seq::empty(),
    }
}

/// What is published after a submit or cancel request: the order, where it is
/// still known, then the error, where the request failed.
pub open spec fn request_publications<O>(symbol: Seq<char>, outcome: RequestOutcome<O>) -> Seq<
    PublishedModel<O>,
> {
    match outcome {
        RequestOutcome::Accepted(order) => order_publication(symbol, order),
        RequestOutcome::Failed { order, error } => order_publication(symbol, order).push(
            PublishedModel::Error { kind: ErrorKind::OrderError, value: error_model(error) },
        ),
    }
}

/// Makes what is published after a submit or cancel request.
pub fn after_request<O>(symbol: String, outcome: RequestOutcome<O>) -> (r: Vec<Published<O>>)
    ensures
        published_view(r@) == request_publications(symbol@, outcome),
{
    let mut r: Vec<Published<O>> = Vec::new();
    match outcome {
        RequestOutcome::Accepted(order) => {
            if let Some(order) = order {
                r.push(Published::Order { symbol, order });
            }
        },
        RequestOutcome::Failed { order, error } => {
            if let Some(order) = order {
                r.push(Published::Order { symbol, order });
            }
            r.push(Published::Error { kind: ErrorKind::OrderError, value: error_value(error) });
        },
    }
    assert(published_view(r@) =~= request_publications(symbol@, outcome));
    r
}

/// Makes what is published after all orders of a symbol have been cancelled.
pub fn after_cancel_all<O>(symbol: &str, orders: Vec<O>) -> (r: Vec<Published<O>>)
    ensures
        published_view(r@) == orders@.map_values(
            |order: O| PublishedModel::Order { symbol: symbol@, order },
        ),
{
    let ghost all = orders@;
    let ghost expected = all.map_values(
        |order: O| PublishedModel::Order { symbol: symbol@, order },
    );
    let mut r: Vec<Published<O>> = Vec::new();
    assert(published_view(r@) =~= expected.take(0));
    for order in it: orders
        invariant
            it.seq() == all,
            expected == all.map_values(
                |order: O| PublishedModel::Order { symbol: symbol@, order },
            ),
            published_view(r@) == expected.take(it.index() as int),
    {
        let ghost before = published_view(r@);
        let publication = Published::Order { symbol: symbol.to_string(), order };
        let ghost model = publication@;
        r.push(publication);
        assert(published_view(r@) =~= before.push(model));
        assert(expected.take(it.index() as int + 1) =~= before.push(model));
    }
    assert(expected.take(all.len() as int) =~= expected);
    r
}

} // verus!
