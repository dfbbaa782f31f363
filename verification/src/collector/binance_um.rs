//! Messages of the USD-margined futures streams: keeps the order books'
//! synchronization up to date and tells what is to be fetched and written.

use vstd::prelude::*;

use crate::collector::error::ConnectorError;
use crate::connector::orderbook;
use crate::connector::orderbook::{BookModel, OrderBookManager};
use crate::connector::rest;
use crate::connector::rest::SnapshotModel;
use crate::connector::stream;
use crate::connector::stream::DepthModel;
use crate::json;
use crate::json::{JsonLeaf, LeafModel};
use crate::text;

verus! {

/// What is read of a stream message.
#[derive(Debug)]
pub struct MessageFields {
    pub data: JsonLeaf,
    pub symbol: JsonLeaf,
    pub event: JsonLeaf,
    pub transaction_time: JsonLeaf,
    pub event_time: JsonLeaf,
    pub first_update_id: JsonLeaf,
    pub last_update_id: JsonLeaf,
    pub prev_update_id: JsonLeaf,
}

/// What the fields of a stream message say.
pub struct MessageModel {
    pub data: LeafModel,
    pub symbol: LeafModel,
    pub event: LeafModel,
    pub transaction_time: LeafModel,
    pub event_time: LeafModel,
    pub first_update_id: LeafModel,
    pub last_update_id: LeafModel,
    pub prev_update_id: LeafModel,
}

impl View for MessageFields {
    type V = MessageModel;

    open spec fn view(&self) -> MessageModel {
        MessageModel {
            data: self.data@,
            symbol: self.symbol@,
            event: self.event@,
            transaction_time: self.transaction_time@,
            event_time: self.event_time@,
            first_update_id: self.first_update_id@,
            last_update_id: self.last_update_id@,
            prev_update_id: self.prev_update_id@,
        }
    }
}

/// The fields of a stream message with this text.
pub open spec fn message_of(message: Seq<char>) -> MessageModel {
    MessageModel {
        data: json::json_leaf(message, "/data"@),
        symbol: json::json_leaf(message, "/data/s"@),
        event: json::json_leaf(message, "/data/e"@),
        transaction_time: json::json_leaf(message, "/data/T"@),
        event_time: json::json_leaf(message, "/data/E"@),
        first_update_id: json::json_leaf(message, "/data/U"@),
        last_update_id: json::json_leaf(message, "/data/u"@),
        prev_update_id: json::json_leaf(message, "/data/pu"@),
    }
}

/// What is to be done about a message.
#[derive(Debug)]
pub struct Handled {
    /// Symbol in lower case, under which the message is to be written.
    pub symbol: String,
    /// Symbol whose depth snapshot is to be fetched.
    pub fetch: Option<String>,
}

/// What is to be done about a message.
pub struct HandledModel {
    pub symbol: Seq<char>,
    pub fetch: Option<Seq<char>>,
}

impl View for Handled {
    type V = HandledModel;

    open spec fn view(&self) -> HandledModel {
        HandledModel { symbol: self.symbol@, fetch: crate::decode::opt_view(self.fetch) }
    }
}

/// The integer of a field, 0 where it has none.
pub open spec fn int_or_zero(leaf: LeafModel) -> i64 {
    match leaf.int {
        Some(v) => v,
        None => 0,
    }
}

/// The depth update that a message carries, without its levels, which play no
/// part in the synchronization. `None` where an update id is missing.
pub open spec fn update_in(m: MessageModel, symbol: Seq<char>) -> Option<DepthModel> {
    match (m.first_update_id.int, m.last_update_id.int, m.prev_update_id.int) {
        (Some(first_update_id), Some(last_update_id), Some(prev_update_id)) => Some(
            DepthModel {
                event_time: int_or_zero(m.event_time),
                transaction_time: int_or_zero(m.transaction_time),
                symbol,
                first_update_id,
                last_update_id,
                prev_update_id,
                bids: Seq::empty(),
                asks: Seq::empty(),
            },
        ),
        _ => None,
    }
}

/// How a message is handled.
pub enum Handling {
    /// The message has not the form that it should have.
    Malformed,
    /// The message names no symbol: there is nothing to do.
    Nothing,
    /// The message is to be written, with the books as they are then.
    Write { handled: HandledModel, books: Map<Seq<char>, BookModel> },
}

/// How a message is handled, by the books before it and its fields.
pub open spec fn handling(books: Map<Seq<char>, BookModel>, m: MessageModel) -> Handling {
    if !m.data.present {
        Handling::Nothing
    } else if !m.data.is_object {
        Handling::Malformed
    } else if !m.symbol.present {
        Handling::Nothing
    } else if m.symbol.text is None || m.event.text is None {
        Handling::Malformed
    } else {
        let name = m.symbol.text->0;
        let symbol = text::in_lower_case(name);
        if m.event.text->0 == "depthUpdate"@ {
            match update_in(m, symbol) {
                None => Handling::Malformed,
                Some(d) => {
                    let (book, (_, fetch)) = orderbook::after_update(
                        orderbook::book_or_fresh(books, symbol),
                        d,
                    );
                    Handling::Write {
                        handled: HandledModel {
                            symbol,
                            fetch: if fetch {
                                Some(name)
                            } else {
                                None
                            },
                        },
                        books: books.insert(symbol, book),
                    }
                },
            }
        } else {
            Handling::Write { handled: HandledModel { symbol, fetch: None }, books }
        }
    }
}

/// The answer `r` and the books `after` are those of a message with fields `m`.
pub open spec fn handled_as(
    before: Map<Seq<char>, BookModel>,
    m: MessageModel,
    r: Result<Option<Handled>, ConnectorError>,
    after: Map<Seq<char>, BookModel>,
) -> bool {
    match handling(before, m) {
        Handling::Malformed => r == Err::<Option<Handled>, _>(ConnectorError::FormatError) && after
            == before,
        Handling::Nothing => r == Ok::<Option<Handled>, ConnectorError>(None) && after == before,
        Handling::Write { handled, books } => {
            &&& r is Ok
            &&& r->Ok_0 is Some
            &&& r->Ok_0->0@ == handled
            &&& after == books
        },
    }
}

/// Handles a message by its fields. `None` where there is nothing to write.
pub fn handle_fields(order_book_manager: &mut OrderBookManager, fields: &MessageFields) -> (r:
    Result<Option<Handled>, ConnectorError>)
    requires
        old(order_book_manager).wf(),
    ensures
        final(order_book_manager).wf(),
        handled_as(old(order_book_manager)@, fields@, r, final(order_book_manager)@),
{
    if !fields.data.present {
        return Ok(None);
    }
    if !fields.data.is_object {
        return Err(ConnectorError::FormatError);
    }
    if !fields.symbol.present {
        return Ok(None);
    }
    let symbol_upper: &String = match &fields.symbol.text {
        Some(name) => name,
        None => return Err(ConnectorError::FormatError),
    };
    let symbol = text::to_lower(symbol_upper.as_str());
    let ev: &String = match &fields.event.text {
        Some(ev) => ev,
        None => return Err(ConnectorError::FormatError),
    };
    let mut fetch: Option<String> = None;
    if text::same_text(ev.as_str(), "depthUpdate") {
        let first_update_id: i64 = match fields.first_update_id.int {
            Some(v) => v,
            None => return Err(ConnectorError::FormatError),
        };
        let last_update_id: i64 = match fields.last_update_id.int {
            Some(v) => v,
            None => return Err(ConnectorError::FormatError),
        };
        let prev_update_id: i64 = match fields.prev_update_id.int {
            Some(v) => v,
            None => return Err(ConnectorError::FormatError),
        };
        let depth_data = stream::Depth {
            transaction_time: match fields.transaction_time.int {
                Some(v) => v,
                None => 0,
            },
            event_time: match fields.event_time.int {
                Some(v) => v,
                None => 0,
            },
            symbol: symbol.clone(),
            first_update_id,
            last_update_id,
            prev_update_id,
            bids: Vec::new(),
            asks: Vec::new(),
        };
        proof {
            assert(depth_data@.bids =~= Seq::empty());
            assert(depth_data@.asks =~= Seq::empty());
        }
        let (_, should_request_snapshot) = order_book_manager.on_depth_update(&depth_data);
        if should_request_snapshot {
            fetch = Some(symbol_upper.clone());
        }
    }
    Ok(Some(Handled { symbol, fetch }))
}

/// Handles the text of a message. `None` where there is nothing to write.
pub fn handle(order_book_manager: &mut OrderBookManager, message: &str) -> (r: Result<
    Option<Handled>,
    ConnectorError,
>)
    requires
        old(order_book_manager).wf(),
    ensures
        final(order_book_manager).wf(),
        !json::json_valid(message@) ==> {
            &&& r is Err
            &&& r->Err_0 is SerdeError
            &&& final(order_book_manager)@ == old(order_book_manager)@
        },
        json::json_valid(message@) ==> handled_as(
            old(order_book_manager)@,
            message_of(message@),
            r,
            final(order_book_manager)@,
        ),
{
    let mut paths: Vec<&str> = Vec::new();
    paths.push("/data/pu");
    paths.push("/data/u");
    paths.push("/data/U");
    paths.push("/data/E");
    paths.push("/data/T");
    paths.push("/data/e");
    paths.push("/data/s");
    paths.push("/data");
    let mut leaves = match json::leaves_at(message, &paths) {
        Ok(leaves) => leaves,
        Err(error) => return Err(ConnectorError::SerdeError(error)),
    };
    let ghost found = leaves@;
    assert forall|i: int| 0 <= i < 8 implies (#[trigger] found[i])@ == json::json_leaf(
        message@,
        paths@[i]@,
    ) by {}
    let data = leaves.pop();
    let symbol = leaves.pop();
    let event = leaves.pop();
    let transaction_time = leaves.pop();
    let event_time = leaves.pop();
    let first_update_id = leaves.pop();
    let last_update_id = leaves.pop();
    let prev_update_id = leaves.pop();
    match (
        data,
        symbol,
        event,
        transaction_time,
        event_time,
        first_update_id,
        last_update_id,
        prev_update_id,
    ) {
        (
            Some(data),
            Some(symbol),
            Some(event),
            Some(transaction_time),
            Some(event_time),
            Some(first_update_id),
            Some(last_update_id),
            Some(prev_update_id),
        ) => {
            let fields = MessageFields {
                data,
                symbol,
                event,
                transaction_time,
                event_time,
                first_update_id,
                last_update_id,
                prev_update_id,
            };
            assert(data == found[7] && symbol == found[6] && event == found[5]);
            assert(transaction_time == found[4] && event_time == found[3]);
            assert(first_update_id == found[2] && last_update_id == found[1]);
            assert(prev_update_id == found[0]);
            assert(fields@ == message_of(message@));
            handle_fields(order_book_manager, &fields)
        },
        _ => Err(ConnectorError::FormatError),
    }
}

/// What is read of a snapshot reply.
#[derive(Debug)]
pub struct SnapshotFields {
    pub last_update_id: JsonLeaf,
    pub event_time: JsonLeaf,
    pub transaction_time: JsonLeaf,
}

/// The snapshot that a reply carries, without its levels. `None` where the
/// update id is missing.
pub open spec fn snapshot_in(
    last_update_id: LeafModel,
    event_time: LeafModel,
    transaction_time: LeafModel,
) -> Option<SnapshotModel> {
    match last_update_id.int {
        Some(last_update_id) => Some(
            SnapshotModel {
                last_update_id,
                event_time: int_or_zero(event_time),
                transaction_time: int_or_zero(transaction_time),
                bids: Seq::empty(),
                asks: Seq::empty(),
            },
        ),
        None => None,
    }
}

/// Applies a snapshot reply by its fields. Tells whether it could be applied;
/// where not, nothing buffered reaches back to it.
pub fn handle_snapshot_fields(
    order_book_manager: &mut OrderBookManager,
    symbol: &str,
    fields: &SnapshotFields,
) -> (r: Result<bool, ConnectorError>)
    requires
        old(order_book_manager).wf(),
    ensures
        final(order_book_manager).wf(),
        match snapshot_in(fields.last_update_id@, fields.event_time@, fields.transaction_time@) {
            None => r == Err::<bool, _>(ConnectorError::FormatError) && final(order_book_manager)@
                == old(order_book_manager)@,
            Some(s) => {
                let (book, events) = orderbook::after_snapshot(
                    orderbook::book_or_fresh(old(order_book_manager)@, symbol@),
                    s,
                );
                &&& r == Ok::<bool, ConnectorError>(events.len() > 0)
                &&& final(order_book_manager)@ == old(order_book_manager)@.insert(symbol@, book)
            },
        },
{
    let snapshot = rest::Depth {
        last_update_id: match fields.last_update_id.int {
            Some(v) => v,
            None => return Err(ConnectorError::FormatError),
        },
        event_time: match fields.event_time.int {
            Some(v) => v,
            None => 0,
        },
        transaction_time: match fields.transaction_time.int {
            Some(v) => v,
            None => 0,
        },
        bids: Vec::new(),
        asks: Vec::new(),
    };
    proof {
        assert(snapshot@.bids =~= Seq::empty());
        assert(snapshot@.asks =~= Seq::empty());
    }
    let events = order_book_manager.on_snapshot(symbol, &snapshot);
    assert(orderbook::events_view(events@).len() == events@.len());
    Ok(events.len() > 0)
}

/// Applies the text of a snapshot reply.
pub fn handle_snapshot(
    order_book_manager: &mut OrderBookManager,
    symbol: &str,
    snapshot_json: &str,
) -> (r: Result<bool, ConnectorError>)
    requires
        old(order_book_manager).wf(),
    ensures
        final(order_book_manager).wf(),
        !json::json_valid(snapshot_json@) ==> {
            &&& r is Err
            &&& r->Err_0 is SerdeError
            &&& final(order_book_manager)@ == old(order_book_manager)@
        },
        json::json_valid(snapshot_json@) ==> match snapshot_in(
            json::json_leaf(snapshot_json@, "/lastUpdateId"@),
            json::json_leaf(snapshot_json@, "/E"@),
            json::json_leaf(snapshot_json@, "/T"@),
        ) {
            None => r == Err::<bool, _>(ConnectorError::FormatError) && final(order_book_manager)@
                == old(order_book_manager)@,
            Some(s) => {
                let (book, events) = orderbook::after_snapshot(
                    orderbook::book_or_fresh(old(order_book_manager)@, symbol@),
                    s,
                );
                &&& r == Ok::<bool, ConnectorError>(events.len() > 0)
                &&& final(order_book_manager)@ == old(order_book_manager)@.insert(symbol@, book)
            },
        },
{
    let mut paths: Vec<&str> = Vec::new();
    paths.push("/T");
    paths.push("/E");
    paths.push("/lastUpdateId");
    let mut leaves = match json::leaves_at(snapshot_json, &paths) {
        Ok(leaves) => leaves,
        Err(error) => return Err(ConnectorError::SerdeError(error)),
    };
    let ghost found = leaves@;
    assert forall|i: int| 0 <= i < 3 implies (#[trigger] found[i])@ == json::json_leaf(
        snapshot_json@,
        paths@[i]@,
    ) by {}
    match (leaves.pop(), leaves.pop(), leaves.pop()) {
        (Some(last_update_id), Some(event_time), Some(transaction_time)) => {
            assert(last_update_id == found[2]);
            assert(event_time == found[1]);
            assert(transaction_time == found[0]);
            let fields = SnapshotFields { last_update_id, event_time, transaction_time };
            handle_snapshot_fields(order_book_manager, symbol, &fields)
        },
        _ => Err(ConnectorError::FormatError),
    }
}

/// Starts the books of all symbols that are collected.
pub fn start_books(symbols: &Vec<String>) -> (r: OrderBookManager)
    ensures
        r.wf(),
        forall|s: Seq<char>| #[trigger]
            r@.contains_key(s) == exists|i: int|
                0 <= i < symbols@.len() && text::in_lower_case((#[trigger] symbols@[i])@) == s,
        forall|s: Seq<char>| #[trigger]
            r@.contains_key(s) ==> r@[s] == orderbook::fresh_book(s),
{
    let mut r = OrderBookManager::new();
    let mut i: usize = 0;
    while i < symbols.len()
        invariant
            r.wf(),
            i <= symbols@.len(),
            forall|s: Seq<char>| #[trigger]
                r@.contains_key(s) == exists|j: int|
                    0 <= j < i && text::in_lower_case((#[trigger] symbols@[j])@) == s,
            forall|s: Seq<char>| #[trigger]
                r@.contains_key(s) ==> r@[s] == orderbook::fresh_book(s),
        decreases symbols@.len() - i,
    {
        let name = text::to_lower(symbols[i].as_str());
        let ghost before = r@;
        r.start_init(name.as_str());
        proof {
            let n = i as int;
            assert forall|s: Seq<char>| #[trigger]
                r@.contains_key(s) == exists|j: int|
                    0 <= j < n + 1 && text::in_lower_case((#[trigger] symbols@[j])@) == s by {
                if s == name@ {
                    assert(text::in_lower_case(symbols@[n]@) == s);
                } else if before.contains_key(s) {
                    let j = choose|j: int|
                        0 <= j < n && text::in_lower_case((#[trigger] symbols@[j])@) == s;
                    assert(text::in_lower_case(symbols@[j]@) == s);
                }
            }
        }
        i += 1;
    }
    r
}

} // verus!
