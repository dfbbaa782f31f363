//! Order book synchronisation: buffers depth updates until a snapshot arrives,
//! joins the two, and watches the update ids for gaps from then on.

use std::collections::VecDeque;
use vstd::prelude::*;

use crate::connector::rest;
use crate::connector::rest::SnapshotModel;
use crate::connector::stream;
use crate::connector::stream::DepthModel;
use crate::text::LevelText;

verus! {

/// Order book synchronization state for a single symbol.
#[derive(Debug, Clone, Copy, PartialEq, Eq, Structural)]
pub enum SyncState {
    /// Not initialized, buffering events and waiting for a snapshot.
    Initializing,
    /// Synchronized and processing events normally.
    Synchronized,
    /// Detected a gap, a new snapshot is needed.
    NeedResync,
}

/// Order book synchronization of one symbol.
#[derive(Debug)]
pub struct SymbolOrderBook {
    pub symbol: String,
    /// Current synchronization state.
    pub state: SyncState,
    /// Depth events buffered while no snapshot is there.
    pub pending_events: VecDeque<stream::Depth>,
    /// Final update id of the last event that was processed.
    pub last_update_id: Option<i64>,
    /// Update id of the snapshot that the book was built from.
    pub snapshot_last_update_id: Option<i64>,
    /// Set when the book was built from the snapshot alone: the next event
    /// must reach across the snapshot's update id before ids are chained.
    pub awaiting_first_event: bool,
}

/// What a `SymbolOrderBook` holds.
pub struct BookModel {
    pub symbol: Seq<char>,
    pub state: SyncState,
    pub pending: Seq<DepthModel>,
    pub last_update_id: Option<i64>,
    pub snapshot_last_update_id: Option<i64>,
    pub awaiting_first_event: bool,
}

/// What a list of buffered events says.
pub open spec fn pending_view(events: Seq<stream::Depth>) -> Seq<DepthModel> {
    events.map_values(|d: stream::Depth| d@)
}

impl View for SymbolOrderBook {
    type V = BookModel;

    open spec fn view(&self) -> BookModel {
        BookModel {
            symbol: self.symbol@,
            state: self.state,
            pending: pending_view(self.pending_events@),
            last_update_id: self.last_update_id,
            snapshot_last_update_id: self.snapshot_last_update_id,
            awaiting_first_event: self.awaiting_first_event,
        }
    }
}

/// A book that waits for its first snapshot with nothing buffered.
pub open spec fn fresh_book(symbol: Seq<char>) -> BookModel {
    BookModel {
        symbol,
        state: SyncState::Initializing,
        pending: Seq::empty(),
        last_update_id: None,
        snapshot_last_update_id: None,
        awaiting_first_event: false,
    }
}

/// The book that starts over and keeps only `d`.
pub open spec fn restarted_with(b: BookModel, d: DepthModel) -> BookModel {
    BookModel { pending: seq![d], ..fresh_book(b.symbol) }
}

/// The book with `d` buffered behind what it holds.
pub open spec fn buffered(b: BookModel, d: DepthModel) -> BookModel {
    BookModel { pending: b.pending.push(d), ..b }
}

/// The first event to apply on top of a snapshot reaches across its update id.
pub open spec fn reaches_across(d: DepthModel, snapshot_id: i64) -> bool {
    d.first_update_id <= snapshot_id && snapshot_id < d.last_update_id
}

/// Book state and the two answers after a depth update: whether the update is
/// to be applied, and whether a snapshot is to be requested.
pub open spec fn after_update(b: BookModel, d: DepthModel) -> (BookModel, (bool, bool)) {
    match b.state {
        SyncState::Initializing => (buffered(b, d), (false, b.pending.len() == 0)),
        SyncState::NeedResync => (buffered(b, d), (false, false)),
        SyncState::Synchronized => if b.awaiting_first_event && b.snapshot_last_update_id is Some {
            let snapshot_id = b.snapshot_last_update_id->0;
            if d.last_update_id <= snapshot_id {
                (b, (false, false))
            } else if reaches_across(d, snapshot_id) {
                (
                    BookModel {
                        last_update_id: Some(d.last_update_id),
                        awaiting_first_event: false,
                        ..b
                    },
                    (true, false),
                )
            } else {
                (restarted_with(b, d), (false, true))
            }
        } else if b.last_update_id is Some && b.last_update_id->0 != d.prev_update_id {
            (restarted_with(b, d), (false, true))
        } else {
            (BookModel { last_update_id: Some(d.last_update_id), ..b }, (true, false))
        },
    }
}

/// How buffered events join a snapshot.
#[verifier::ext_equal]
pub enum Join {
    /// All events were used up; `applied` go on top of the snapshot.
    Complete { applied: Seq<DepthModel> },
    /// No event reaches back to the snapshot; `rest` stays buffered.
    SnapshotGap { rest: Seq<DepthModel> },
    /// The chain of update ids breaks behind `applied`; `rest` stays buffered.
    EventGap { applied: Seq<DepthModel>, rest: Seq<DepthModel> },
}

/// Joins `pending` to a snapshot with update id `snapshot_id`, behind the
/// events in `applied` that have already been joined.
pub open spec fn join_from(
    snapshot_id: i64,
    applied: Seq<DepthModel>,
    pending: Seq<DepthModel>,
) -> Join
    decreases pending.len(),
{
    if pending.len() == 0 {
        Join::Complete { applied }
    } else {
        let d = pending.first();
        let rest = pending.drop_first();
        if d.last_update_id <= snapshot_id {
            join_from(snapshot_id, applied, rest)
        } else if applied.len() == 0 {
            if d.first_update_id <= snapshot_id {
                join_from(snapshot_id, applied.push(d), rest)
            } else if d.first_update_id > snapshot_id + 1 {
                Join::SnapshotGap { rest: pending }
            } else {
                join_from(snapshot_id, applied, rest)
            }
        } else if d.prev_update_id != applied.last().last_update_id {
            Join::EventGap { applied, rest: pending }
        } else {
            join_from(snapshot_id, applied.push(d), rest)
        }
    }
}

/// Joins buffered events to a snapshot with update id `snapshot_id`.
pub open spec fn join(snapshot_id: i64, pending: Seq<DepthModel>) -> Join {
    join_from(snapshot_id, Seq::empty(), pending)
}

/// What a `DepthEvent` says.
pub enum DepthEventModel {
    Snapshot {
        symbol: Seq<char>,
        transaction_time: i64,
        bids: Seq<LevelText>,
        asks: Seq<LevelText>,
        last_update_id: i64,
    },
    Update {
        symbol: Seq<char>,
        transaction_time: i64,
        bids: Seq<LevelText>,
        asks: Seq<LevelText>,
        first_update_id: i64,
        last_update_id: i64,
    },
}

/// The event by which a snapshot is handed on.
pub open spec fn snapshot_event(symbol: Seq<char>, s: SnapshotModel) -> DepthEventModel {
    DepthEventModel::Snapshot {
        symbol,
        transaction_time: s.transaction_time,
        bids: s.bids,
        asks: s.asks,
        last_update_id: s.last_update_id,
    }
}

/// The event by which a buffered update is handed on.
pub open spec fn update_event(symbol: Seq<char>, d: DepthModel) -> DepthEventModel {
    DepthEventModel::Update {
        symbol,
        transaction_time: d.transaction_time,
        bids: d.bids,
        asks: d.asks,
        first_update_id: d.first_update_id,
        last_update_id: d.last_update_id,
    }
}

/// The snapshot followed by the updates applied on top of it.
pub open spec fn refresh_events(
    symbol: Seq<char>,
    s: SnapshotModel,
    applied: Seq<DepthModel>,
) -> Seq<DepthEventModel> {
    seq![snapshot_event(symbol, s)] + applied.map_values(|d: DepthModel| update_event(symbol, d))
}

/// Book state and events to process after a snapshot.
pub open spec fn after_snapshot(b: BookModel, s: SnapshotModel) -> (
    BookModel,
    Seq<DepthEventModel>,
) {
    match join(s.last_update_id, b.pending) {
        Join::Complete { applied } => (
            BookModel {
                state: SyncState::Synchronized,
                pending: Seq::empty(),
                last_update_id: Some(
                    if applied.len() > 0 {
                        applied.last().last_update_id
                    } else {
                        s.last_update_id
                    },
                ),
                snapshot_last_update_id: Some(s.last_update_id),
                awaiting_first_event: applied.len() == 0,
                ..b
            },
            refresh_events(b.symbol, s, applied),
        ),
        Join::SnapshotGap { rest } => (
            BookModel { state: SyncState::NeedResync, pending: rest, ..b },
            Seq::empty(),
        ),
        Join::EventGap { applied, rest } => (
            BookModel { state: SyncState::NeedResync, pending: rest, ..b },
            refresh_events(b.symbol, s, applied),
        ),
    }
}

/// Depth event to be processed by the data stream.
#[derive(Debug)]
pub enum DepthEvent {
    /// Full snapshot: clear and rebuild.
    Snapshot {
        symbol: String,
        transaction_time: i64,
        bids: Vec<(String, String)>,
        asks: Vec<(String, String)>,
        last_update_id: i64,
    },
    /// Incremental update.
    Update {
        symbol: String,
        transaction_time: i64,
        bids: Vec<(String, String)>,
        asks: Vec<(String, String)>,
        first_update_id: i64,
        last_update_id: i64,
    },
}

impl View for DepthEvent {
    type V = DepthEventModel;

    open spec fn view(&self) -> DepthEventModel {
        match *self {
            DepthEvent::Snapshot { symbol, transaction_time, bids, asks, last_update_id } => {
                DepthEventModel::Snapshot {
                    symbol: symbol@,
                    transaction_time,
                    bids: crate::text::levels_view(bids@),
                    asks: crate::text::levels_view(asks@),
                    last_update_id,
                }
            },
            DepthEvent::Update {
                symbol,
                transaction_time,
                bids,
                asks,
                first_update_id,
                last_update_id,
            } => {
                DepthEventModel::Update {
                    symbol: symbol@,
                    transaction_time,
                    bids: crate::text::levels_view(bids@),
                    asks: crate::text::levels_view(asks@),
                    first_update_id,
                    last_update_id,
                }
            },
        }
    }
}

impl Clone for DepthEvent {
    fn clone(&self) -> (r: Self)
        ensures
            r@ == self@,
    {
        match self {
            DepthEvent::Snapshot { symbol, transaction_time, bids, asks, last_update_id } => {
                DepthEvent::Snapshot {
                    symbol: symbol.clone(),
                    transaction_time: *transaction_time,
                    bids: crate::text::clone_levels(bids),
                    asks: crate::text::clone_levels(asks),
                    last_update_id: *last_update_id,
                }
            },
            DepthEvent::Update {
                symbol,
                transaction_time,
                bids,
                asks,
                first_update_id,
                last_update_id,
            } => {
                DepthEvent::Update {
                    symbol: symbol.clone(),
                    transaction_time: *transaction_time,
                    bids: crate::text::clone_levels(bids),
                    asks: crate::text::clone_levels(asks),
                    first_update_id: *first_update_id,
                    last_update_id: *last_update_id,
                }
            },
        }
    }
}

/// What a list of depth events says.
pub open spec fn events_view(events: Seq<DepthEvent>) -> Seq<DepthEventModel> {
    events.map_values(|e: DepthEvent| e@)
}

impl SymbolOrderBook {
    pub fn new(symbol: String) -> (r: Self)
        ensures
            r@ == fresh_book(symbol@),
    {
        let r = SymbolOrderBook {
            symbol,
            state: SyncState::Initializing,
            pending_events: VecDeque::new(),
            last_update_id: None,
            snapshot_last_update_id: None,
            awaiting_first_event: false,
        };
        assert(r@.pending =~= Seq::empty());
        r
    }

    /// Reset to initializing state (called on gaps or errors).
    pub fn reset(&mut self)
        ensures
            final(self)@ == fresh_book(old(self)@.symbol),
    {
        self.state = SyncState::Initializing;
        self.pending_events.clear();
        self.last_update_id = None;
        self.snapshot_last_update_id = None;
        self.awaiting_first_event = false;
        assert(self@.pending =~= Seq::empty());
    }

    /// Puts an event behind the buffered ones.
    fn buffer(&mut self, data: &stream::Depth)
        ensures
            final(self)@ == buffered(old(self)@, data@),
    {
        self.pending_events.push_back(data.clone());
        assert(self@.pending =~= old(self)@.pending.push(data@));
    }

    /// Starts over with `data` as the only buffered event.
    fn restart_with(&mut self, data: &stream::Depth)
        ensures
            final(self)@ == restarted_with(old(self)@, data@),
    {
        self.reset();
        self.buffer(data);
        assert(self@.pending =~= seq![data@]);
    }

    /// Handles a depth update of this book's symbol.
    /// Returns: (should_process, should_request_snapshot).
    pub fn on_depth_update(&mut self, data: &stream::Depth) -> (r: (bool, bool))
        ensures
            (final(self)@, r) == after_update(old(self)@, data@),
    {
        match self.state {
            SyncState::Initializing => {
                self.buffer(data);
                assert(self@.pending.len() == self.pending_events@.len());
                (false, self.pending_events.len() == 1)
            },
            SyncState::Synchronized => {
                if self.awaiting_first_event {
                    if let Some(snapshot_u) = self.snapshot_last_update_id {
                        if data.first_update_id <= snapshot_u && data.last_update_id > snapshot_u {
                            self.awaiting_first_event = false;
                            self.last_update_id = Some(data.last_update_id);
                            return (true, false);
                        } else if data.last_update_id <= snapshot_u {
                            return (false, false);
                        } else {
                            self.restart_with(data);
                            return (false, true);
                        }
                    }
                }
                if let Some(last_u) = self.last_update_id {
                    if data.prev_update_id != last_u {
                        self.restart_with(data);
                        return (false, true);
                    }
                }
                self.last_update_id = Some(data.last_update_id);
                (true, false)
            },
            SyncState::NeedResync => {
                self.buffer(data);
                (false, false)
            },
        }
    }

    /// Handles a snapshot of this book's symbol.
    /// Returns the events to process: the snapshot and the buffered updates that follow it.
    pub fn on_snapshot(&mut self, snapshot: &rest::Depth) -> (r: Vec<DepthEvent>)
        ensures
            (final(self)@, events_view(r@)) == after_snapshot(old(self)@, snapshot@),
    {
        let last_update_id: i64 = snapshot.last_update_id;
        let ghost b = self@;
        let ghost mut applied: Seq<DepthModel> = Seq::empty();

        let mut events_to_process: Vec<DepthEvent> = Vec::new();
        events_to_process.push(
            DepthEvent::Snapshot {
                symbol: self.symbol.clone(),
                transaction_time: snapshot.transaction_time,
                bids: crate::text::clone_levels(&snapshot.bids),
                asks: crate::text::clone_levels(&snapshot.asks),
                last_update_id,
            },
        );
        assert(events_view(events_to_process@) =~= refresh_events(b.symbol, snapshot@, applied));

        let mut current_u: Option<i64> = None;
        loop
            invariant
                b == old(self)@,
                last_update_id == snapshot@.last_update_id,
                self@ == (BookModel { pending: self@.pending, ..b }),
                join_from(last_update_id, applied, self@.pending) == join(
                    last_update_id,
                    b.pending,
                ),
                events_view(events_to_process@) == refresh_events(b.symbol, snapshot@, applied),
                current_u == (if applied.len() == 0 {
                    None::<i64>
                } else {
                    Some(applied.last().last_update_id)
                }),
            ensures
                self@.pending == Seq::<DepthModel>::empty(),
            decreases self.pending_events@.len(),
        {
            let ghost pending = self@.pending;
            match self.pending_events.pop_front() {
                None => {
                    assert(self@.pending =~= Seq::empty());
                    break;
                },
                Some(event) => {
                    assert(self@.pending =~= pending.drop_first());
                    assert(event@ == pending.first());
                    if event.last_update_id <= last_update_id {
                        continue;
                    }
                    let follows: bool = match current_u {
                        Some(prev_u) => event.prev_update_id == prev_u,
                        None => event.first_update_id <= last_update_id,
                    };
                    if follows {
                        let ghost d = event@;
                        let ghost events = events_to_process@;
                        current_u = Some(event.last_update_id);
                        events_to_process.push(
                            DepthEvent::Update {
                                symbol: self.symbol.clone(),
                                transaction_time: event.transaction_time,
                                bids: event.bids,
                                asks: event.asks,
                                first_update_id: event.first_update_id,
                                last_update_id: event.last_update_id,
                            },
                        );
                        proof {
                            assert(events_to_process@.last()@ == update_event(b.symbol, d));
                            assert(events_view(events_to_process@) =~= events_view(events).push(
                                update_event(b.symbol, d),
                            ));
                            assert(refresh_events(b.symbol, snapshot@, applied.push(d))
                                =~= refresh_events(b.symbol, snapshot@, applied).push(
                                update_event(b.symbol, d),
                            ));
                            applied = applied.push(d);
                        }
                        continue;
                    }
                    if current_u.is_some() {
                        // The chain breaks here: keep this event and all behind it.
                        self.pending_events.push_front(event);
                        self.state = SyncState::NeedResync;
                        assert(self@.pending =~= pending);
                        return events_to_process;
                    }
                    if event.first_update_id > last_update_id + 1 {
                        // Nothing reaches back to the snapshot: a newer one is needed.
                        self.pending_events.push_front(event);
                        self.state = SyncState::NeedResync;
                        assert(self@.pending =~= pending);
                        let none: Vec<DepthEvent> = Vec::new();
                        assert(events_view(none@) =~= Seq::empty());
                        return none;
                    }
                },
            }
        }

        self.state = SyncState::Synchronized;
        self.snapshot_last_update_id = Some(last_update_id);
        match current_u {
            Some(u) => {
                self.last_update_id = Some(u);
                self.awaiting_first_event = false;
            },
            None => {
                self.last_update_id = Some(last_update_id);
                self.awaiting_first_event = true;
            },
        }
        events_to_process
    }
}

/// Manages order book synchronization for multiple symbols.
pub struct OrderBookManager {
    /// One book per symbol.
    books: Vec<SymbolOrderBook>,
}

/// Tells whether `books` holds a book of `symbol`.
spec fn has_book(books: Seq<SymbolOrderBook>, symbol: Seq<char>) -> bool {
    exists|i: int| 0 <= i < books.len() && (#[trigger] books[i])@.symbol == symbol
}

/// Where the book of `symbol` stands.
spec fn book_index(books: Seq<SymbolOrderBook>, symbol: Seq<char>) -> int {
    choose|i: int| 0 <= i < books.len() && (#[trigger] books[i])@.symbol == symbol
}

/// No two books are of one symbol.
spec fn distinct_books(books: Seq<SymbolOrderBook>) -> bool {
    forall|i: int, j: int|
        0 <= i < books.len() && 0 <= j < books.len() && (#[trigger] books[i])@.symbol == (
        #[trigger] books[j])@.symbol ==> i == j
}

/// The books by symbol.
spec fn books_map(books: Seq<SymbolOrderBook>) -> Map<Seq<char>, BookModel> {
    Map::new(
        |s: Seq<char>| has_book(books, s),
        |s: Seq<char>| books[book_index(books, s)]@,
    )
}

proof fn lemma_books_map_at(books: Seq<SymbolOrderBook>, i: int)
    requires
        distinct_books(books),
        0 <= i < books.len(),
    ensures
        books_map(books).contains_key(books[i]@.symbol),
        books_map(books)[books[i]@.symbol] == books[i]@,
{
    let s = books[i]@.symbol;
    assert(has_book(books, s));
    assert(books[book_index(books, s)]@.symbol == s);
}

proof fn lemma_books_map_update(
    before: Seq<SymbolOrderBook>,
    after: Seq<SymbolOrderBook>,
    i: int,
)
    requires
        distinct_books(before),
        0 <= i < before.len(),
        after == before.update(i, after[i]),
        after[i]@.symbol == before[i]@.symbol,
    ensures
        distinct_books(after),
        books_map(after) == books_map(before).insert(before[i]@.symbol, after[i]@),
{
    assert forall|j: int, k: int|
        0 <= j < after.len() && 0 <= k < after.len() && (#[trigger] after[j])@.symbol == (
        #[trigger] after[k])@.symbol implies j == k by {
        assert(before[j]@.symbol == before[k]@.symbol);
    }
    assert forall|s: Seq<char>| has_book(after, s) == has_book(before, s) by {
        if has_book(after, s) {
            assert(before[book_index(after, s)]@.symbol == s);
        }
        if has_book(before, s) {
            assert(after[book_index(before, s)]@.symbol == s);
        }
    }
    lemma_books_map_at(after, i);
    assert forall|s: Seq<char>| #[trigger]
        books_map(before).contains_key(s) && s != before[i]@.symbol implies books_map(after)[s]
        == books_map(before)[s] by {
        let j = book_index(before, s);
        assert(has_book(before, s));
        assert(after[j]@.symbol == s);
        lemma_books_map_at(after, j);
    }
    assert(books_map(after).contains_key(before[i]@.symbol)) by {
        lemma_books_map_at(before, i);
    }
    assert(books_map(after) =~= books_map(before).insert(before[i]@.symbol, after[i]@));
}

proof fn lemma_books_map_push(books: Seq<SymbolOrderBook>, book: SymbolOrderBook)
    requires
        distinct_books(books),
        !has_book(books, book@.symbol),
    ensures
        distinct_books(books.push(book)),
        books_map(books.push(book)) == books_map(books).insert(book@.symbol, book@),
{
    let after = books.push(book);
    assert forall|j: int, k: int|
        0 <= j < after.len() && 0 <= k < after.len() && (#[trigger] after[j])@.symbol == (
        #[trigger] after[k])@.symbol implies j == k by {
        if j < books.len() && k == books.len() {
            assert(books[j]@.symbol == book@.symbol);
        }
        if k < books.len() && j == books.len() {
            assert(books[k]@.symbol == book@.symbol);
        }
        if j < books.len() && k < books.len() {
            assert(books[j]@.symbol == books[k]@.symbol);
        }
    }
    assert(after[books.len() as int] == book);
    lemma_books_map_at(after, books.len() as int);
    assert forall|s: Seq<char>| has_book(after, s) == (has_book(books, s) || s == book@.symbol) by {
        if has_book(after, s) {
            let j = book_index(after, s);
            assert(after[j]@.symbol == s);
            if j < books.len() {
                assert(books[j]@.symbol == s);
            }
        }
        if has_book(books, s) {
            assert(after[book_index(books, s)]@.symbol == s);
        }
    }
    assert forall|s: Seq<char>| #[trigger] books_map(books).contains_key(s) implies books_map(
        after,
    )[s] == books_map(books)[s] by {
        let j = book_index(books, s);
        assert(has_book(books, s));
        assert(after[j]@.symbol == s);
        lemma_books_map_at(after, j);
    }
    assert(books_map(after) =~= books_map(books).insert(book@.symbol, book@));
}

impl View for OrderBookManager {
    type V = Map<Seq<char>, BookModel>;

    closed spec fn view(&self) -> Map<Seq<char>, BookModel> {
        books_map(self.books@)
    }
}

/// The book of `symbol`, a fresh one where there is none yet.
pub open spec fn book_or_fresh(books: Map<Seq<char>, BookModel>, symbol: Seq<char>) -> BookModel {
    if books.contains_key(symbol) {
        books[symbol]
    } else {
        fresh_book(symbol)
    }
}

/// Tells whether a book needs a snapshot.
pub open spec fn wants_snapshot(b: BookModel) -> bool {
    b.state == SyncState::Initializing || b.state == SyncState::NeedResync
}

impl OrderBookManager {
    /// Every symbol has at most one book, kept under its own name.
    pub closed spec fn wf(&self) -> bool {
        distinct_books(self.books@)
    }

    /// Each book is found under its own symbol.
    pub proof fn law_books_stand_under_their_symbols(&self)
        requires
            self.wf(),
        ensures
            forall|s: Seq<char>| #[trigger] self@.contains_key(s) ==> self@[s].symbol == s,
    {
        assert forall|s: Seq<char>| #[trigger] self@.contains_key(s) implies self@[s].symbol
            == s by {
            assert(has_book(self.books@, s));
        }
    }

    pub fn new() -> (r: Self)
        ensures
            r.wf(),
            r@ == Map::<Seq<char>, BookModel>::empty(),
    {
        let r = OrderBookManager { books: Vec::new() };
        assert(r@ =~= Map::empty());
        r
    }

    /// Where the book of a symbol stands.
    fn find(&self, symbol: &str) -> (r: Option<usize>)
        requires
            self.wf(),
        ensures
            match r {
                Some(i) => i < self.books@.len() && self.books@[i as int]@.symbol == symbol@
                    && self@.contains_key(symbol@) && self@[symbol@] == self.books@[i as int]@,
                None => !self@.contains_key(symbol@) && !has_book(self.books@, symbol@),
            },
    {
        let mut i: usize = 0;
        while i < self.books.len()
            invariant
                self.wf(),
                i <= self.books.len(),
                forall|j: int| 0 <= j < i ==> (#[trigger] self.books@[j])@.symbol != symbol@,
            decreases self.books.len() - i,
        {
            if crate::text::same_text(self.books[i].symbol.as_str(), symbol) {
                proof {
                    lemma_books_map_at(self.books@, i as int);
                }
                return Some(i);
            }
            i += 1;
        }
        None
    }

    /// Get or create order book state for a symbol.
    fn get_or_create(&mut self, symbol: &str) -> (r: usize)
        requires
            old(self).wf(),
        ensures
            final(self).wf(),
            r < final(self).books@.len(),
            final(self).books@[r as int]@ == book_or_fresh(old(self)@, symbol@),
            final(self).books@[r as int]@.symbol == symbol@,
            final(self)@ == old(self)@.insert(symbol@, book_or_fresh(old(self)@, symbol@)),
    {
        match self.find(symbol) {
            Some(i) => {
                assert(self@ =~= self@.insert(symbol@, self@[symbol@]));
                i
            },
            None => {
                let book = SymbolOrderBook::new(symbol.to_string());
                proof {
                    lemma_books_map_push(self.books@, book);
                }
                self.books.push(book);
                self.books.len() - 1
            },
        }
    }

    /// Check if a symbol needs snapshot (unknown, initializing or needs resync).
    pub fn needs_snapshot(&self, symbol: &str) -> (r: bool)
        requires
            self.wf(),
        ensures
            r == (!self@.contains_key(symbol@) || wants_snapshot(self@[symbol@])),
    {
        match self.find(symbol) {
            None => true,
            Some(i) => match self.books[i].state {
                SyncState::Initializing => true,
                SyncState::NeedResync => true,
                SyncState::Synchronized => false,
            },
        }
    }

    /// Check if a symbol is currently initializing (buffering events).
    pub fn is_initializing(&self, symbol: &str) -> (r: bool)
        requires
            self.wf(),
        ensures
            r == (self@.contains_key(symbol@) && self@[symbol@].state == SyncState::Initializing),
    {
        match self.find(symbol) {
            None => false,
            Some(i) => match self.books[i].state {
                SyncState::Initializing => true,
                _ => false,
            },
        }
    }

    /// Start initialization for a symbol (called when subscribing).
    pub fn start_init(&mut self, symbol: &str)
        requires
            old(self).wf(),
        ensures
            final(self).wf(),
            final(self)@ == old(self)@.insert(symbol@, fresh_book(symbol@)),
    {
        let i: usize = self.get_or_create(symbol);
        let ghost before = self.books@;
        self.books[i].reset();
        proof {
            lemma_books_map_update(before, self.books@, i as int);
            assert(self@ =~= old(self)@.insert(symbol@, fresh_book(symbol@)));
        }
    }

    /// Handle incoming depth update.
    /// Returns: (should_process, should_request_snapshot).
    pub fn on_depth_update(&mut self, data: &stream::Depth) -> (r: (bool, bool))
        requires
            old(self).wf(),
        ensures
            final(self).wf(),
            ({
                let (book, answers) = after_update(
                    book_or_fresh(old(self)@, data@.symbol),
                    data@,
                );
                &&& final(self)@ == old(self)@.insert(data@.symbol, book)
                &&& r == answers
            }),
    {
        let i: usize = self.get_or_create(data.symbol.as_str());
        let ghost before = self.books@;
        let r = self.books[i].on_depth_update(data);
        proof {
            lemma_books_map_update(before, self.books@, i as int);
            assert(self@ =~= old(self)@.insert(data@.symbol, self.books@[i as int]@));
        }
        r
    }

    /// Handle snapshot reply.
    /// Returns events that should be processed (snapshot + valid buffered events).
    pub fn on_snapshot(&mut self, symbol: &str, snapshot: &rest::Depth) -> (r: Vec<DepthEvent>)
        requires
            old(self).wf(),
        ensures
            final(self).wf(),
            ({
                let (book, events) = after_snapshot(
                    book_or_fresh(old(self)@, symbol@),
                    snapshot@,
                );
                &&& final(self)@ == old(self)@.insert(symbol@, book)
                &&& events_view(r@) == events
            }),
    {
        let i: usize = self.get_or_create(symbol);
        let ghost before = self.books@;
        let r = self.books[i].on_snapshot(snapshot);
        proof {
            lemma_books_map_update(before, self.books@, i as int);
            assert(self@ =~= old(self)@.insert(symbol@, self.books@[i as int]@));
        }
        r
    }

    /// Mark a symbol as needing resync (e.g., on reconnect).
    pub fn mark_resync(&mut self, symbol: &str)
        requires
            old(self).wf(),
        ensures
            final(self).wf(),
            final(self)@ == (if old(self)@.contains_key(symbol@) {
                old(self)@.insert(symbol@, fresh_book(symbol@))
            } else {
                old(self)@
            }),
    {
        if let Some(i) = self.find(symbol) {
            let ghost before = self.books@;
            self.books[i].reset();
            proof {
                lemma_books_map_update(before, self.books@, i as int);
            }
        }
    }

    /// Mark all symbols as needing resync (e.g., on reconnect).
    pub fn mark_all_resync(&mut self)
        requires
            old(self).wf(),
        ensures
            final(self).wf(),
            final(self)@ == old(self)@.map_entries(
                |s: Seq<char>, b: BookModel| fresh_book(s),
            ),
    {
        let ghost start = self.books@;
        let mut i: usize = 0;
        while i < self.books.len()
            invariant
                start == old(self).books@,
                distinct_books(start),
                i <= self.books@.len(),
                self.books@.len() == start.len(),
                forall|j: int|
                    0 <= j < i ==> (#[trigger] self.books@[j])@ == fresh_book(start[j]@.symbol),
                forall|j: int| i <= j < start.len() ==> #[trigger] self.books@[j] == start[j],
            decreases self.books@.len() - i,
        {
            self.books[i].reset();
            i += 1;
        }
        proof {
            let end = self.books@;
            assert forall|j: int, k: int|
                0 <= j < end.len() && 0 <= k < end.len() && (#[trigger] end[j])@.symbol == (
                #[trigger] end[k])@.symbol implies j == k by {
                assert(start[j]@.symbol == start[k]@.symbol);
            }
            let m = old(self)@.map_entries(|s: Seq<char>, b: BookModel| fresh_book(s));
            assert forall|s: Seq<char>| has_book(end, s) == has_book(start, s) by {
                if has_book(end, s) {
                    assert(start[book_index(end, s)]@.symbol == s);
                }
                if has_book(start, s) {
                    assert(end[book_index(start, s)]@.symbol == s);
                }
            }
            assert forall|s: Seq<char>| #[trigger] books_map(end).contains_key(s) implies books_map(
                end,
            )[s] == m[s] by {
                assert(has_book(end, s));
                assert(end[book_index(end, s)]@.symbol == s);
            }
            assert(books_map(end) =~= m);
        }
    }

    /// Get all symbols that need snapshot.
    pub fn symbols_needing_snapshot(&self) -> (r: Vec<String>)
        requires
            self.wf(),
        ensures
            forall|s: Seq<char>|
                (exists|i: int| 0 <= i < r@.len() && (#[trigger] r@[i])@ == s) == (
                #[trigger] self@.contains_key(s) && wants_snapshot(self@[s])),
            forall|i: int, j: int| 0 <= i < j < r@.len() ==> (#[trigger] r@[i])@ != (#[trigger] r@[j])@,
    {
        let mut r: Vec<String> = Vec::new();
        let mut i: usize = 0;
        let ghost mut from: Seq<int> = Seq::empty();
        while i < self.books.len()
            invariant
                self.wf(),
                i <= self.books.len(),
                from.len() == r@.len(),
                forall|k: int|
                    0 <= k < from.len() ==> 0 <= #[trigger] from[k] < i && r@[k]@
                        == self.books@[from[k]]@.symbol && wants_snapshot(self.books@[from[k]]@),
                forall|k: int, l: int|
                    0 <= k < l < from.len() ==> #[trigger] from[k] < #[trigger] from[l],
                forall|j: int|
                    0 <= j < i && wants_snapshot((#[trigger] self.books@[j])@) ==> exists|k: int|
                        0 <= k < r@.len() && (#[trigger] r@[k])@ == self.books@[j]@.symbol,
            decreases self.books.len() - i,
        {
            let wanted: bool = match self.books[i].state {
                SyncState::Initializing => true,
                SyncState::NeedResync => true,
                SyncState::Synchronized => false,
            };
            let ghost before = r@;
            if wanted {
                r.push(self.books[i].symbol.clone());
                proof {
                    from = from.push(i as int);
                    assert(r@[r@.len() - 1]@ == self.books@[i as int]@.symbol);
                    assert forall|j: int|
                        0 <= j < i + 1 && wants_snapshot(
                            (#[trigger] self.books@[j])@,
                        ) implies exists|k: int|
                        0 <= k < r@.len() && (#[trigger] r@[k])@ == self.books@[j]@.symbol by {
                        if j < i {
                            let k = choose|k: int|
                                0 <= k < before.len() && (#[trigger] before[k])@
                                    == self.books@[j]@.symbol;
                            assert(r@[k]@ == self.books@[j]@.symbol);
                        }
                    }
                }
            }
            i += 1;
        }
        proof {
            assert forall|s: Seq<char>|
                (exists|i: int| 0 <= i < r@.len() && (#[trigger] r@[i])@ == s) == (
                #[trigger] self@.contains_key(s) && wants_snapshot(self@[s])) by {
                if exists|i: int| 0 <= i < r@.len() && (#[trigger] r@[i])@ == s {
                    let k = choose|i: int| 0 <= i < r@.len() && (#[trigger] r@[i])@ == s;
                    lemma_books_map_at(self.books@, from[k]);
                }
                if self@.contains_key(s) && wants_snapshot(self@[s]) {
                    assert(has_book(self.books@, s));
                    assert(self.books@[book_index(self.books@, s)]@.symbol == s);
                }
            }
            assert forall|i: int, j: int| 0 <= i < j < r@.len() implies (#[trigger] r@[i])@ != (
            #[trigger] r@[j])@ by {
                assert(from[i] < from[j]);
            }
        }
        r
    }
}

impl Default for OrderBookManager {
    fn default() -> (r: Self)
        ensures
            r.wf(),
            r@ == Map::<Seq<char>, BookModel>::empty(),
    {
        OrderBookManager::new()
    }
}

} // verus!
