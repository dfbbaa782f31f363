//! What the user data stream publishes and does.

use vstd::prelude::*;

use crate::connector::market_data;
use crate::connector::market_data::{Action, ActionModel};
use crate::connector::user_data;
use crate::connector::user_data::{
    OrderUpdate, PositionModel, ReportedPosition, UserAction, UserActionModel, UserEndModel,
    UserEvent, UserInput, UserPublication, UserPublicationModel,
};
use crate::text;

verus! {

/// A list of market actions is taken action by action, with all that each says.
pub proof fn law_actions_are_taken_whole<F>(actions: Seq<Action<F>>)
    ensures
        market_data::actions_view(actions).len() == actions.len(),
        forall|i: int|
            0 <= i < actions.len() ==> match #[trigger] actions[i] {
                Action::RequestSnapshot(symbol) => market_data::actions_view(actions)[i]
                    == ActionModel::<F>::RequestSnapshot(symbol@),
                Action::BatchStart => market_data::actions_view(actions)[i] == ActionModel::<
                    F,
                >::BatchStart,
                Action::BatchEnd => market_data::actions_view(actions)[i] == ActionModel::<
                    F,
                >::BatchEnd,
                Action::Feed { symbol, ev, exch_ts, px, qty } => market_data::actions_view(
                    actions,
                )[i] == (ActionModel::Feed {
                    symbol: symbol@,
                    ev,
                    exch_ts: exch_ts as int,
                    px,
                    qty,
                }),
                Action::Subscribe(symbol) => market_data::actions_view(actions)[i]
                    == ActionModel::<F>::Subscribe(symbol@),
                Action::Pong => market_data::actions_view(actions)[i] == ActionModel::<F>::Pong,
            },
{
}

/// A list of publications is taken one by one, with all that each says.
pub proof fn law_publications_are_taken_whole<F, O>(published: Seq<UserPublication<F, O>>)
    ensures
        user_data::publications_view(published).len() == published.len(),
        forall|i: int|
            0 <= i < published.len() ==> match #[trigger] published[i] {
                UserPublication::Position(p) => user_data::publications_view(published)[i]
                    == UserPublicationModel::<F, O>::Position(
                    PositionModel { symbol: p.symbol@, qty: p.qty, exch_ts: p.exch_ts as int },
                ),
                UserPublication::Order { symbol, order } => user_data::publications_view(
                    published,
                )[i] == (UserPublicationModel::<F, O>::Order { symbol: symbol@, order }),
            },
{
}

/// A list of user actions is taken one by one, with all that each says.
pub proof fn law_user_actions_are_taken_whole<F, O>(actions: Seq<UserAction<F, O>>)
    ensures
        user_data::user_actions_view(actions).len() == actions.len(),
        forall|i: int|
            0 <= i < actions.len() ==> match #[trigger] actions[i] {
                UserAction::CollectGarbage => user_data::user_actions_view(actions)[i]
                    == UserActionModel::<F, O>::CollectGarbage,
                UserAction::Keepalive => user_data::user_actions_view(actions)[i]
                    == UserActionModel::<F, O>::Keepalive,
                UserAction::CancelAll(symbol) => user_data::user_actions_view(actions)[i]
                    == UserActionModel::<F, O>::CancelAll(symbol@),
                UserAction::FetchPositions => user_data::user_actions_view(actions)[i]
                    == UserActionModel::<F, O>::FetchPositions,
                UserAction::Publish(p) => user_data::user_actions_view(actions)[i]
                    == UserActionModel::<F, O>::Publish(user_data::publications_view(p@)),
                UserAction::Pong => user_data::user_actions_view(actions)[i] == UserActionModel::<
                    F,
                    O,
                >::Pong,
            },
{
}

/// No report is of this symbol.
pub open spec fn is_missing<F>(reports: Seq<ReportedPosition<F>>, symbol: Seq<char>) -> bool {
    forall|i: int| 0 <= i < reports.len() ==> (#[trigger] reports[i]).symbol@ != symbol
}

/// Every reported position is published first, in the order of the reports,
/// with its amount and with its time in nanoseconds.
pub proof fn law_reported_positions_come_first<F>(
    reports: Seq<ReportedPosition<F>>,
    symbols: Seq<Seq<char>>,
    zero: F,
)
    ensures
        ({
            let published = user_data::initial_positions(reports, symbols, zero);
            &&& published.len() >= reports.len()
            &&& forall|i: int|
                0 <= i < reports.len() ==> #[trigger] published[i] == (PositionModel {
                    symbol: reports[i].symbol@,
                    qty: reports[i].position_amount,
                    exch_ts: reports[i].update_time * 1_000_000,
                })
        }),
{
}

/// A symbol without a report adds one empty position at the end, and a symbol
/// with one adds nothing.
pub proof fn law_unreported_symbols_have_empty_positions<F>(
    reports: Seq<ReportedPosition<F>>,
    symbols: Seq<Seq<char>>,
    symbol: Seq<char>,
    zero: F,
)
    ensures
        user_data::initial_positions(reports, Seq::empty(), zero).len() == reports.len(),
        ({
            let before = user_data::initial_positions(reports, symbols, zero);
            let after = user_data::initial_positions(reports, symbols.push(symbol), zero);
            if is_missing(reports, symbol) {
                after == before.push(PositionModel { symbol, qty: zero, exch_ts: 0 })
            } else {
                after == before
            }
        }),
{
    reveal(Seq::filter);
    assert(user_data::unreported(reports, Seq::empty()).len() == 0);
    let before = user_data::initial_positions(reports, symbols, zero);
    let after = user_data::initial_positions(reports, symbols.push(symbol), zero);
    assert(symbols.push(symbol).drop_last() =~= symbols);
    assert(is_missing(reports, symbol) == !user_data::is_reported(reports, symbol));
    if is_missing(reports, symbol) {
        assert(user_data::unreported(reports, symbols.push(symbol)) == user_data::unreported(
            reports,
            symbols,
        ).push(symbol));
        assert(after =~= before.push(PositionModel { symbol, qty: zero, exch_ts: 0 }));
    }
}

/// The position is of this symbol.
pub open spec fn is_position_of<F>(p: PositionModel<F>, symbol: Seq<char>) -> bool {
    p.symbol == symbol
}

/// After connecting there is a position of every symbol.
pub proof fn law_every_symbol_has_a_position<F>(
    reports: Seq<ReportedPosition<F>>,
    symbols: Seq<Seq<char>>,
    zero: F,
    k: int,
)
    requires
        0 <= k < symbols.len(),
    ensures
        exists|j: int|
            0 <= j < user_data::initial_positions(reports, symbols, zero).len()
                && #[trigger] is_position_of(
                user_data::initial_positions(reports, symbols, zero)[j],
                symbols[k],
            ),
    decreases symbols.len(),
{
    let front = symbols.drop_last();
    let last = symbols.last();
    assert(front.push(last) =~= symbols);
    law_unreported_symbols_have_empty_positions(reports, front, last, zero);
    let before = user_data::initial_positions(reports, front, zero);
    let after = user_data::initial_positions(reports, symbols, zero);
    if k < front.len() {
        law_every_symbol_has_a_position(reports, front, zero, k);
        let j = choose|j: int|
            0 <= j < before.len() && #[trigger] is_position_of(before[j], front[k]);
        assert(after[j] == before[j]);
        assert(is_position_of(after[j], symbols[k]));
    } else if is_missing(reports, last) {
        assert(is_position_of(after[after.len() - 1], symbols[k]));
    } else {
        law_reported_positions_come_first(reports, symbols, zero);
        let i = choose|i: int|
            0 <= i < reports.len() && (#[trigger] reports[i]).symbol@ == last;
        assert(after[i].symbol == reports[i].symbol@);
        assert(is_position_of(after[i], symbols[k]));
    }
}

/// An account update publishes each of its positions, in turn and at the time
/// of the transaction. An order update publishes the order where it is known.
/// The short form of a trade publishes nothing, and only an expired listen key
/// ends the stream.
pub proof fn law_what_a_message_publishes<F, O>(event: UserEvent<F, O>)
    ensures
        match event {
            UserEvent::ListenKeyExpired => user_data::message_publications(event) is None,
            UserEvent::AccountUpdate { transaction_time, positions } => {
                &&& user_data::message_publications(event) is Some
                &&& user_data::message_publications(event)->0.len() == positions@.len()
                &&& forall|i: int|
                    0 <= i < positions@.len() ==> #[trigger] user_data::message_publications(
                        event,
                    )->0[i] == UserPublicationModel::<F, O>::Position(
                        PositionModel {
                            symbol: positions@[i].0@,
                            qty: positions@[i].1,
                            exch_ts: transaction_time * 1_000_000,
                        },
                    )
            },
            UserEvent::OrderTradeUpdate { symbol, update: OrderUpdate::Updated(order) } => {
                user_data::message_publications(event) == Some(
                    seq![UserPublicationModel::<F, O>::Order { symbol: symbol@, order }],
                )
            },
            UserEvent::OrderTradeUpdate { .. } => user_data::message_publications(event) == Some(
                Seq::<UserPublicationModel<F, O>>::empty(),
            ),
            UserEvent::TradeLite => user_data::message_publications(event) == Some(
                Seq::<UserPublicationModel<F, O>>::empty(),
            ),
        },
{
}

/// Only a ping moves the time of the last ping.
pub proof fn law_only_pings_count<F, O>(last_ping: u64, input: UserInput<F, O>)
    ensures
        match input {
            UserInput::Ping { now } => user_data::after_user_input(last_ping, input).0 == now,
            _ => user_data::after_user_input(last_ping, input).0 == last_ping,
        },
{
}

/// The user data stream ends with its symbols, with its listen key, on a close,
/// a failure or its end, and on a check more than five minutes after the last
/// ping.
pub proof fn law_when_the_user_stream_ends<F, O>(last_ping: u64, input: UserInput<F, O>)
    ensures
        ({
            let outcome = user_data::after_user_input(last_ping, input).1;
            match input {
                UserInput::PingCheck { now } => if now > last_ping + 300_000_000_000 {
                    outcome == Err::<Seq<UserActionModel<F, O>>, _>(
                        UserEndModel::ConnectionInterrupted,
                    )
                } else {
                    outcome is Ok
                },
                UserInput::SymbolsClosed => outcome == Err::<Seq<UserActionModel<F, O>>, _>(
                    UserEndModel::Closed,
                ),
                UserInput::Event(UserEvent::ListenKeyExpired) => outcome == Err::<
                    Seq<UserActionModel<F, O>>,
                    _,
                >(UserEndModel::ListenKeyExpired),
                UserInput::Close(Some(reason)) => outcome == Err::<
                    Seq<UserActionModel<F, O>>,
                    _,
                >(UserEndModel::ConnectionAbort(reason@)),
                UserInput::Close(None) => outcome == Err::<Seq<UserActionModel<F, O>>, _>(
                    UserEndModel::ConnectionAbort(Seq::empty()),
                ),
                UserInput::Failed(message) => outcome == Err::<Seq<UserActionModel<F, O>>, _>(
                    UserEndModel::Failed(message@),
                ),
                UserInput::End => outcome == Err::<Seq<UserActionModel<F, O>>, _>(
                    UserEndModel::ConnectionInterrupted,
                ),
                _ => outcome is Ok,
            }
        }),
{
}

/// A tick collects garbage and keeps the listen key alive, a new symbol has its
/// orders cancelled, a message has its publications published, a ping is
/// answered, and nothing else calls for anything.
pub proof fn law_what_the_user_stream_does<F, O>(last_ping: u64, input: UserInput<F, O>)
    ensures
        user_data::after_user_input(last_ping, input).1 matches Ok(actions) ==> match input {
            UserInput::KeepaliveTick => actions == seq![
                UserActionModel::<F, O>::CollectGarbage,
                UserActionModel::Keepalive,
            ],
            UserInput::Symbol(symbol) => actions == seq![
                UserActionModel::<F, O>::CancelAll(symbol@),
            ],
            UserInput::Event(event) => {
                &&& actions.len() == 1
                &&& actions[0] == UserActionModel::<F, O>::Publish(
                    user_data::message_publications(event)->0,
                )
            },
            UserInput::Ping { .. } => actions == seq![UserActionModel::<F, O>::Pong],
            _ => actions.len() == 0,
        },
{
}

/// A list of texts is taken text by text.
pub proof fn law_lists_of_texts(owned: Seq<String>, borrowed: Seq<&str>)
    ensures
        text::strings(owned).len() == owned.len(),
        forall|i: int| 0 <= i < owned.len() ==> #[trigger] text::strings(owned)[i] == owned[i]@,
        text::texts(borrowed).len() == borrowed.len(),
        forall|i: int|
            0 <= i < borrowed.len() ==> #[trigger] text::texts(borrowed)[i] == borrowed[i]@,
{
}

} // verus!
