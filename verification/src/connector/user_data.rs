//! User data stream: positions and orders, keepalive and ping checks.

use vstd::prelude::*;

use crate::connector::market_data;
use crate::connector::market_data::PING_TIMEOUT;
use crate::text;

verus! {

/// A position that is published.
#[derive(Debug)]
pub struct Position<F> {
    pub symbol: String,
    pub qty: F,
    /// Exchange timestamp in nanoseconds.
    pub exch_ts: i64,
}

/// What is published of a position.
pub struct PositionModel<F> {
    pub symbol: Seq<char>,
    pub qty: F,
    pub exch_ts: int,
}

impl<F> View for Position<F> {
    type V = PositionModel<F>;

    open spec fn view(&self) -> PositionModel<F> {
        PositionModel { symbol: self.symbol@, qty: self.qty, exch_ts: self.exch_ts as int }
    }
}

/// What is published of positions.
pub open spec fn positions_view<F>(p: Seq<Position<F>>) -> Seq<PositionModel<F>> {
    p.map_values(|x: Position<F>| x@)
}

/// A position as the exchange reports it, with its time in milliseconds.
#[derive(Debug)]
pub struct ReportedPosition<F> {
    pub symbol: String,
    pub position_amount: F,
    pub update_time: i64,
}

/// What comes of a position report.
pub open spec fn reported<F>(p: ReportedPosition<F>) -> PositionModel<F> {
    PositionModel {
        symbol: p.symbol@,
        qty: p.position_amount,
        exch_ts: p.update_time * 1_000_000,
    }
}

/// The symbol is in one of the reports.
pub open spec fn is_reported<F>(reports: Seq<ReportedPosition<F>>, symbol: Seq<char>) -> bool {
    exists|i: int| 0 <= i < reports.len() && (#[trigger] reports[i]).symbol@ == symbol
}

/// The symbols that are in none of the reports.
pub open spec fn unreported<F>(
    reports: Seq<ReportedPosition<F>>,
    symbols: Seq<Seq<char>>,
) -> Seq<Seq<char>> {
    symbols.filter(|s: Seq<char>| !is_reported(reports, s))
}

/// The positions published on connecting: all that are reported, then an
/// empty one for each symbol that is not.
pub open spec fn initial_positions<F>(
    reports: Seq<ReportedPosition<F>>,
    symbols: Seq<Seq<char>>,
    zero: F,
) -> Seq<PositionModel<F>> {
    reports.map_values(|p: ReportedPosition<F>| reported(p)) + unreported(
        reports,
        symbols,
    ).map_values(|s: Seq<char>| PositionModel { symbol: s, qty: zero, exch_ts: 0 })
}

fn find_report<F>(reports: &Vec<ReportedPosition<F>>, symbol: &str) -> (r: bool)
    ensures
        r == is_reported(reports@, symbol@),
{
    let mut i: usize = 0;
    while i < reports.len()
        invariant
            i <= reports@.len(),
            forall|j: int| 0 <= j < i ==> (#[trigger] reports@[j]).symbol@ != symbol@,
        decreases reports@.len() - i,
    {
        if text::same_text(reports[i].symbol.as_str(), symbol) {
            return true;
        }
        i += 1;
    }
    false
}

/// Makes the positions that are published on connecting.
pub fn position_information<F: Copy>(
    reports: &Vec<ReportedPosition<F>>,
    symbols: &Vec<String>,
    zero: F,
) -> (r: Vec<Position<F>>)
    requires
        forall|i: int|
            0 <= i < reports@.len() ==> market_data::millis_fit(
                (#[trigger] reports@[i]).update_time,
            ),
    ensures
        positions_view(r@) == initial_positions(reports@, text::strings(symbols@), zero),
{
    let mut r: Vec<Position<F>> = Vec::new();
    let ghost known = reports@.map_values(|p: ReportedPosition<F>| reported(p));
    let mut i: usize = 0;
    assert(positions_view(r@) =~= known.take(0));
    while i < reports.len()
        invariant
            forall|k: int|
                0 <= k < reports@.len() ==> market_data::millis_fit(
                    (#[trigger] reports@[k]).update_time,
                ),
            known == reports@.map_values(|p: ReportedPosition<F>| reported(p)),
            i <= reports@.len(),
            positions_view(r@) == known.take(i as int),
        decreases reports@.len() - i,
    {
        let ghost before = positions_view(r@);
        let p = &reports[i];
        assert(market_data::millis_fit(p.update_time));
        let position = Position {
            symbol: p.symbol.clone(),
            qty: p.position_amount,
            exch_ts: p.update_time * 1_000_000,
        };
        assert(position@ == known[i as int]);
        let ghost model = position@;
        r.push(position);
        assert(positions_view(r@) =~= before.push(model));
        assert(known.take(i as int + 1) =~= before.push(model));
        i += 1;
    }
    assert(known.take(i as int) =~= known);
    let ghost names = text::strings(symbols@);
    let ghost keep = |s: Seq<char>| !is_reported(reports@, s);
    let ghost empty = |s: Seq<char>| PositionModel { symbol: s, qty: zero, exch_ts: 0 };
    let mut j: usize = 0;
    assert(names.take(0).filter(keep) =~= Seq::empty()) by {
        assert(names.take(0) =~= Seq::empty());
        reveal(Seq::filter);
    }
    assert(positions_view(r@) =~= known + names.take(0).filter(keep).map_values(empty));
    while j < symbols.len()
        invariant
            names == text::strings(symbols@),
            keep == (|s: Seq<char>| !is_reported(reports@, s)),
            empty == (|s: Seq<char>| PositionModel { symbol: s, qty: zero, exch_ts: 0 }),
            j <= symbols@.len(),
            positions_view(r@) == known + names.take(j as int).filter(keep).map_values(empty),
        decreases symbols@.len() - j,
    {
        let ghost before = positions_view(r@);
        let ghost done = names.take(j as int);
        proof {
            assert(names.take(j as int + 1).drop_last() =~= done);
            reveal(Seq::filter);
        }
        assert(symbols@[j as int]@ == names[j as int]);
        if !find_report(reports, symbols[j].as_str()) {
            let position = Position { symbol: symbols[j].clone(), qty: zero, exch_ts: 0 };
            let ghost model = position@;
            r.push(position);
            assert(model == empty(names[j as int]));
            assert(positions_view(r@) =~= before.push(model));
            assert(names.take(j as int + 1).filter(keep) == done.filter(keep).push(
                names[j as int],
            ));
            assert(known + names.take(j as int + 1).filter(keep).map_values(empty)
                =~= before.push(model));
        } else {
            assert(names.take(j as int + 1).filter(keep) == done.filter(keep));
        }
        j += 1;
    }
    assert(names.take(j as int) =~= names);
    r
}

/// What the order book keeping made of an order update.
#[derive(Debug)]
pub enum OrderUpdate<O> {
    /// The order as it is now.
    Updated(O),
    /// The order is already deleted.
    Gone,
    /// The order is not of this connector.
    PrefixUnmatched,
    /// The order could not be updated.
    Failed,
}

/// A message of the user data stream. `O` is the order type.
#[derive(Debug)]
pub enum UserEvent<F, O> {
    ListenKeyExpired,
    /// Positions with the time of the transaction in milliseconds.
    AccountUpdate { transaction_time: i64, positions: Vec<(String, F)> },
    OrderTradeUpdate { symbol: String, update: OrderUpdate<O> },
    TradeLite,
}

/// Something published about the user's account.
#[derive(Debug)]
pub enum UserPublication<F, O> {
    Position(Position<F>),
    Order { symbol: String, order: O },
}

/// What is published about the user's account.
pub enum UserPublicationModel<F, O> {
    Position(PositionModel<F>),
    Order { symbol: Seq<char>, order: O },
}

impl<F, O> View for UserPublication<F, O> {
    type V = UserPublicationModel<F, O>;

    open spec fn view(&self) -> UserPublicationModel<F, O> {
        match *self {
            UserPublication::Position(p) => UserPublicationModel::Position(p@),
            UserPublication::Order { symbol, order } => UserPublicationModel::Order {
                symbol: symbol@,
                order,
            },
        }
    }
}

/// What a list of publications says.
pub open spec fn publications_view<F, O>(p: Seq<UserPublication<F, O>>) -> Seq<
    UserPublicationModel<F, O>,
> {
    p.map_values(|x: UserPublication<F, O>| x@)
}

/// The position of an account update.
pub open spec fn updated_position<F, O>(millis: i64, p: (String, F)) -> UserPublicationModel<F, O> {
    UserPublicationModel::Position(
        PositionModel { symbol: p.0@, qty: p.1, exch_ts: millis * 1_000_000 },
    )
}

/// What is published on a message; `None` where the listen key has expired.
pub open spec fn message_publications<F, O>(event: UserEvent<F, O>) -> Option<
    Seq<UserPublicationModel<F, O>>,
> {
    match event {
        UserEvent::ListenKeyExpired => None,
        UserEvent::AccountUpdate { transaction_time, positions } => Some(
            positions@.map_values(|p: (String, F)| updated_position(transaction_time, p)),
        ),
        UserEvent::OrderTradeUpdate { symbol, update } => match update {
            OrderUpdate::Updated(order) => Some(
                seq![UserPublicationModel::Order { symbol: symbol@, order }],
            ),
            _ => Some(Seq::empty()),
        },
        UserEvent::TradeLite => Some(Seq::empty()),
    }
}

/// The timestamp of a message fits.
pub open spec fn message_fits<F, O>(event: UserEvent<F, O>) -> bool {
    match event {
        UserEvent::AccountUpdate { transaction_time, positions } => positions@.len() > 0
            ==> market_data::millis_fit(transaction_time),
        _ => true,
    }
}

/// Makes what is published on a message; `None` where the listen key has expired.
pub fn process_message<F: Copy, O>(event: UserEvent<F, O>) -> (r: Option<
    Vec<UserPublication<F, O>>,
>)
    requires
        message_fits(event),
    ensures
        match r {
            Some(published) => message_publications(event) == Some(publications_view(published@)),
            None => message_publications(event) is None,
        },
{
    let mut r: Vec<UserPublication<F, O>> = Vec::new();
    assert(publications_view(r@) =~= Seq::empty());
    match event {
        UserEvent::ListenKeyExpired => return None,
        UserEvent::AccountUpdate { transaction_time, positions } => {
            let ghost all = positions@.map_values(
                |p: (String, F)| updated_position::<F, O>(transaction_time, p),
            );
            let mut i: usize = 0;
            assert(publications_view(r@) =~= all.take(0));
            while i < positions.len()
                invariant
                    positions@.len() > 0 ==> market_data::millis_fit(transaction_time),
                    all == positions@.map_values(
                        |p: (String, F)| updated_position::<F, O>(transaction_time, p),
                    ),
                    i <= positions@.len(),
                    publications_view(r@) == all.take(i as int),
                decreases positions@.len() - i,
            {
                let ghost before = publications_view(r@);
                let publication = UserPublication::Position(
                    Position {
                        symbol: positions[i].0.clone(),
                        qty: positions[i].1,
                        exch_ts: transaction_time * 1_000_000,
                    },
                );
                assert(publication@ == all[i as int]);
                let ghost model = publication@;
                r.push(publication);
                assert(publications_view(r@) =~= before.push(model));
                assert(all.take(i as int + 1) =~= before.push(model));
                i += 1;
            }
            assert(all.take(i as int) =~= all);
        },
        UserEvent::OrderTradeUpdate { symbol, update } => {
            if let OrderUpdate::Updated(order) = update {
                r.push(UserPublication::Order { symbol, order });
                assert(publications_view(r@) =~= seq![
                    UserPublicationModel::<F, O>::Order { symbol: symbol@, order },
                ]);
            }
        },
        UserEvent::TradeLite => {},
    }
    Some(r)
}

/// Something that happens on the connection. Times are nanoseconds of a
/// monotonic clock.
pub enum UserInput<F, O> {
    /// The listen key is to be kept alive.
    KeepaliveTick,
    PingCheck { now: u64 },
    /// A symbol has been registered.
    Symbol(String),
    /// No more symbols will come.
    SymbolsClosed,
    /// Some symbols were missed.
    SymbolsLagged,
    Event(UserEvent<F, O>),
    /// A text that is no event, or a frame without meaning here.
    Ignored,
    Ping { now: u64 },
    /// The server closed the connection.
    Close(Option<String>),
    /// The connection failed, with this message.
    Failed(String),
    /// The stream ended.
    End,
}

/// Something to be done for the stream.
#[derive(Debug)]
pub enum UserAction<F, O> {
    /// Drop orders that are no longer needed.
    CollectGarbage,
    /// Keep the listen key alive.
    Keepalive,
    /// Cancel all orders of a symbol.
    CancelAll(String),
    /// Fetch and publish the positions.
    FetchPositions,
    /// Publish these, in turn.
    Publish(Vec<UserPublication<F, O>>),
    /// Answer a ping.
    Pong,
}

/// What a `UserAction` says.
pub enum UserActionModel<F, O> {
    CollectGarbage,
    Keepalive,
    CancelAll(Seq<char>),
    FetchPositions,
    Publish(Seq<UserPublicationModel<F, O>>),
    Pong,
}

impl<F, O> View for UserAction<F, O> {
    type V = UserActionModel<F, O>;

    open spec fn view(&self) -> UserActionModel<F, O> {
        match *self {
            UserAction::CollectGarbage => UserActionModel::CollectGarbage,
            UserAction::Keepalive => UserActionModel::Keepalive,
            UserAction::CancelAll(symbol) => UserActionModel::CancelAll(symbol@),
            UserAction::FetchPositions => UserActionModel::FetchPositions,
            UserAction::Publish(p) => UserActionModel::Publish(publications_view(p@)),
            UserAction::Pong => UserActionModel::Pong,
        }
    }
}

/// What a list of actions says.
pub open spec fn user_actions_view<F, O>(a: Seq<UserAction<F, O>>) -> Seq<UserActionModel<F, O>> {
    a.map_values(|x: UserAction<F, O>| x@)
}

/// Why a connection ends.
#[derive(Debug)]
pub enum UserEnd {
    /// No more symbols will come: the end is wanted.
    Closed,
    ListenKeyExpired,
    ConnectionInterrupted,
    /// The server closed the connection, with this reason.
    ConnectionAbort(String),
    /// The connection failed, with this message.
    Failed(String),
}

/// Why a connection ends.
pub enum UserEndModel {
    Closed,
    ListenKeyExpired,
    ConnectionInterrupted,
    ConnectionAbort(Seq<char>),
    Failed(Seq<char>),
}

impl View for UserEnd {
    type V = UserEndModel;

    open spec fn view(&self) -> UserEndModel {
        match *self {
            UserEnd::Closed => UserEndModel::Closed,
            UserEnd::ListenKeyExpired => UserEndModel::ListenKeyExpired,
            UserEnd::ConnectionInterrupted => UserEndModel::ConnectionInterrupted,
            UserEnd::ConnectionAbort(reason) => UserEndModel::ConnectionAbort(reason@),
            UserEnd::Failed(message) => UserEndModel::Failed(message@),
        }
    }
}

/// What happens on an input: the time of the last ping, and the actions or
/// the end of the connection.
pub open spec fn after_user_input<F, O>(last_ping: u64, input: UserInput<F, O>) -> (
    u64,
    Result<Seq<UserActionModel<F, O>>, UserEndModel>,
) {
    match input {
        UserInput::KeepaliveTick => (
            last_ping,
            Ok(seq![UserActionModel::CollectGarbage, UserActionModel::Keepalive]),
        ),
        UserInput::PingCheck { now } => (
            last_ping,
            if now - last_ping > PING_TIMEOUT {
                Err(UserEndModel::ConnectionInterrupted)
            } else {
                Ok(Seq::empty())
            },
        ),
        UserInput::Symbol(symbol) => (last_ping, Ok(seq![UserActionModel::CancelAll(symbol@)])),
        UserInput::SymbolsClosed => (last_ping, Err(UserEndModel::Closed)),
        UserInput::SymbolsLagged => (last_ping, Ok(Seq::empty())),
        UserInput::Event(event) => (
            last_ping,
            match message_publications(event) {
                Some(published) => Ok(seq![UserActionModel::Publish(published)]),
                None => Err(UserEndModel::ListenKeyExpired),
            },
        ),
        UserInput::Ignored => (last_ping, Ok(Seq::empty())),
        UserInput::Ping { now } => (now, Ok(seq![UserActionModel::Pong])),
        UserInput::Close(reason) => (
            last_ping,
            Err(
                UserEndModel::ConnectionAbort(
                    match reason {
                        Some(text) => text@,
                        None => Seq::empty(),
                    },
                ),
            ),
        ),
        UserInput::Failed(message) => (last_ping, Err(UserEndModel::Failed(message@))),
        UserInput::End => (last_ping, Err(UserEndModel::ConnectionInterrupted)),
    }
}

/// The stream's state: when the last ping came.
pub struct UserDataStream {
    last_ping: u64,
}

impl UserDataStream {
    /// When the last ping came.
    pub closed spec fn last_ping(&self) -> u64 {
        self.last_ping
    }

    pub fn new(now: u64) -> (r: Self)
        ensures
            r.last_ping() == now,
    {
        UserDataStream { last_ping: now }
    }

    /// What is done on connecting: all orders of all symbols are cancelled,
    /// then the positions are fetched.
    pub fn on_connect<F, O>(&self, symbols: &Vec<String>) -> (r: Vec<UserAction<F, O>>)
        ensures
            user_actions_view(r@) == text::strings(symbols@).map_values(
                |s: Seq<char>| UserActionModel::<F, O>::CancelAll(s),
            ).push(UserActionModel::FetchPositions),
    {
        let mut r: Vec<UserAction<F, O>> = Vec::new();
        let ghost all = text::strings(symbols@).map_values(
            |s: Seq<char>| UserActionModel::<F, O>::CancelAll(s),
        );
        let mut i: usize = 0;
        assert(user_actions_view(r@) =~= all.take(0));
        while i < symbols.len()
            invariant
                all == text::strings(symbols@).map_values(
                    |s: Seq<char>| UserActionModel::<F, O>::CancelAll(s),
                ),
                i <= symbols@.len(),
                user_actions_view(r@) == all.take(i as int),
            decreases symbols@.len() - i,
        {
            let ghost before = user_actions_view(r@);
            let action = UserAction::CancelAll(symbols[i].clone());
            let ghost model = action@;
            assert(model == all[i as int]);
            r.push(action);
            assert(user_actions_view(r@) =~= before.push(model));
            assert(all.take(i as int + 1) =~= before.push(model));
            i += 1;
        }
        assert(all.take(i as int) =~= all);
        r.push(UserAction::FetchPositions);
        assert(user_actions_view(r@) =~= all.push(UserActionModel::FetchPositions));
        r
    }

    /// Takes an input and tells what is to be done.
    pub fn step<F: Copy, O>(&mut self, input: UserInput<F, O>) -> (r: Result<
        Vec<UserAction<F, O>>,
        UserEnd,
    >)
        requires
            input matches UserInput::Event(event) ==> message_fits(event),
        ensures
            ({
                let (last_ping, outcome) = after_user_input(old(self).last_ping(), input);
                &&& final(self).last_ping() == last_ping
                &&& match r {
                    Ok(actions) => outcome == Ok::<_, UserEndModel>(user_actions_view(actions@)),
                    Err(end) => outcome == Err::<Seq<UserActionModel<F, O>>, _>(end@),
                }
            }),
    {
        let mut actions: Vec<UserAction<F, O>> = Vec::new();
        assert(user_actions_view(actions@) =~= Seq::empty());
        match input {
            UserInput::KeepaliveTick => {
                actions.push(UserAction::CollectGarbage);
                actions.push(UserAction::Keepalive);
                assert(user_actions_view(actions@) =~= seq![
                    UserActionModel::<F, O>::CollectGarbage,
                    UserActionModel::Keepalive,
                ]);
            },
            UserInput::PingCheck { now } => {
                if now > self.last_ping && now - self.last_ping > PING_TIMEOUT {
                    return Err(UserEnd::ConnectionInterrupted);
                }
            },
            UserInput::Symbol(symbol) => {
                actions.push(UserAction::CancelAll(symbol));
                assert(user_actions_view(actions@) =~= seq![
                    UserActionModel::<F, O>::CancelAll(symbol@),
                ]);
            },
            UserInput::SymbolsClosed => return Err(UserEnd::Closed),
            UserInput::SymbolsLagged => {},
            UserInput::Event(event) => {
                match process_message(event) {
                    None => return Err(UserEnd::ListenKeyExpired),
                    Some(published) => {
                        actions.push(UserAction::Publish(published));
                        assert(user_actions_view(actions@) =~= seq![
                            UserActionModel::Publish(publications_view(published@)),
                        ]);
                    },
                }
            },
            UserInput::Ignored => {},
            UserInput::Ping { now } => {
                self.last_ping = now;
                actions.push(UserAction::Pong);
                assert(user_actions_view(actions@) =~= seq![UserActionModel::<F, O>::Pong]);
            },
            UserInput::Close(reason) => {
                return Err(
                    UserEnd::ConnectionAbort(
                        match reason {
                            Some(text) => text,
                            None => {
                                let none = String::new();
                                assert(none@ =~= Seq::empty());
                                none
                            },
                        },
                    ),
                );
            },
            UserInput::Failed(message) => return Err(UserEnd::Failed(message)),
            UserInput::End => return Err(UserEnd::ConnectionInterrupted),
        }
        Ok(actions)
    }
}

} // verus!
