//! What holds of the state whatever is done to it, and in whatever order.

use vstd::prelude::*;
use crate::connection::delivery_outcome;
use crate::connection::Refusal;
use crate::encodable::encoding;
use crate::encodable::Value;
use crate::identity::ConnectionKey;
use crate::identity::PropertyId;
use crate::session::SendError;
use crate::state::change_notice;
use crate::state::Operation;
use crate::state::StateView;

verus! {

/// Whether `operation` can happen in `state`: every operation can, but that a
/// connection is registered only under a key that was never handed out.
pub open spec fn possible(state: StateView, operation: Operation) -> bool {
    operation matches Operation::Connect(key, _) ==> !state.issued.contains(key)
}

/// A consistent state stays consistent.
pub proof fn law_consistency_is_kept(state: StateView, operation: Operation)
    requires
        state.consistent(),
        possible(state, operation),
    ensures
        state.after(operation).consistent(),
{
    let next = state.after(operation);
    assert forall|property: PropertyId, connection: ConnectionKey| #[trigger]
        next.subscriptions.contains((property, connection)) implies next.values.contains_key(
        property,
    ) by {
        match operation {
            Operation::Subscribe(subscribed, _) => {
                if property != subscribed {
                    assert(state.subscriptions.contains((property, connection)));
                }
            },
            _ => {
                assert(state.subscriptions.contains((property, connection)));
            },
        }
    }
}

/// A write changes the session of no connection that is not subscribed to
/// the property: who has unsubscribed hears no more of it, until subscribed
/// again.
pub proof fn law_changes_reach_subscribers_only(
    state: StateView,
    property: PropertyId,
    connection: ConnectionKey,
    value: Value,
)
    requires
        !state.subscriptions.contains((property, connection)),
    ensures
        state.after_write(property, value).sessions.contains_key(connection)
            == state.sessions.contains_key(connection),
        state.sessions.contains_key(connection) ==> state.after_write(
            property,
            value,
        ).sessions[connection] == state.sessions[connection],
{
}

/// After a connection has unsubscribed from a property, a write to the
/// property leaves its session as it was.
pub proof fn law_unsubscribed_hears_nothing(
    state: StateView,
    property: PropertyId,
    connection: ConnectionKey,
    value: Value,
)
    ensures
        ({
            let quiet = state.after_unsubscribe(property, connection);
            let later = quiet.after_write(property, value);
            &&& later.sessions.contains_key(connection) == quiet.sessions.contains_key(connection)
            &&& quiet.sessions.contains_key(connection) ==> later.sessions[connection]
                == quiet.sessions[connection]
        }),
{
    law_changes_reach_subscribers_only(
        state.after_unsubscribe(property, connection),
        property,
        connection,
        value,
    );
}

/// Nothing but subscribing a connection to a property makes it a subscriber:
/// once unsubscribed, it stays so whatever else is done.
pub proof fn law_unsubscribed_until_subscribed(
    state: StateView,
    property: PropertyId,
    connection: ConnectionKey,
    operation: Operation,
)
    requires
        !state.subscriptions.contains((property, connection)),
        operation != Operation::Subscribe(property, connection),
    ensures
        !state.after(operation).subscriptions.contains((property, connection)),
{
}

/// Subscribing a second time changes nothing.
pub proof fn law_subscribe_is_idempotent(
    state: StateView,
    property: PropertyId,
    connection: ConnectionKey,
)
    ensures
        state.after_subscribe(property, connection).after_subscribe(property, connection)
            == state.after_subscribe(property, connection),
{
    let once = state.after_subscribe(property, connection);
    assert(once.after_subscribe(property, connection).subscriptions =~= once.subscriptions);
}

/// A write asks the session of each subscriber exactly once to send the
/// notice, however often the connection subscribed: where the session takes
/// the notice, its queue is longer by that one packet.
pub proof fn law_subscriber_hears_once(
    state: StateView,
    property: PropertyId,
    connection: ConnectionKey,
    value: Value,
)
    requires
        state.values.contains_key(property),
        state.sessions.contains_key(connection),
    ensures
        ({
            let twice = state.after_subscribe(property, connection).after_subscribe(
                property,
                connection,
            );
            let notice = encoding(change_notice(property, value));
            let before = twice.sessions[connection];
            let after = twice.after_write(property, value).sessions[connection];
            &&& after == before.after_send(notice)
            &&& before.send_outcome(notice.len()) is Ok ==> after.queued == before.queued.push(
                notice,
            )
            &&& before.send_outcome(notice.len()) is Err ==> after == before
        }),
{
}

/// A subscriber whose session does not take the notice of a write is noted
/// with the reason, and its session stays as it was; the note stays until the
/// notes are handed over.
pub proof fn law_refusals_are_noted(
    state: StateView,
    property: PropertyId,
    connection: ConnectionKey,
    value: Value,
    error: SendError,
    operation: Operation,
)
    requires
        state.values.contains_key(property),
        state.subscriptions.contains((property, connection)),
        state.sessions.contains_key(connection),
        state.sessions[connection].send_outcome(encoding(change_notice(property, value)).len())
            == Err::<(), SendError>(error),
        operation != Operation::TakeUndelivered,
    ensures
        ({
            let later = state.after_write(property, value);
            let note = Refusal { connection, error };
            &&& later.undelivered.contains(note)
            &&& later.sessions[connection] == state.sessions[connection]
            &&& later.after(operation).undelivered.contains(note)
            &&& !later.after_take_undelivered().undelivered.contains(note)
        }),
{
}

/// A write notes no subscriber whose session takes the notice, and nobody
/// who is not subscribed.
pub proof fn law_only_refusals_are_noted(
    state: StateView,
    property: PropertyId,
    value: Value,
    note: Refusal,
)
    requires
        !state.undelivered.contains(note),
        state.after_write(property, value).undelivered.contains(note),
    ensures
        state.subscriptions.contains((property, note.connection)),
        state.sessions.contains_key(note.connection),
        state.sessions[note.connection].send_outcome(
            encoding(change_notice(property, value)).len(),
        ) == Err::<(), SendError>(note.error),
{
}

/// A finalized property is gone, and nothing brings it back: it stays gone
/// whatever is done.
pub proof fn law_finalized_stays_gone(state: StateView, property: PropertyId, operation: Operation)
    ensures
        state.after_finalize(property).gone.contains(property),
        state.gone.contains(property) ==> state.after(operation).gone.contains(property),
{
}

/// A property that is gone has no value and no subscribers, so that reading
/// it, writing it and subscribing to it all report that it is gone.
pub proof fn law_gone_is_not_live(state: StateView, property: PropertyId)
    requires
        state.consistent(),
        state.gone.contains(property),
    ensures
        !state.values.contains_key(property),
        state.subscribers(property) == Set::<ConnectionKey>::empty(),
        forall|value: Value| state.after_write(property, value) == state,
        forall|connection: ConnectionKey| state.after_subscribe(property, connection) == state,
{
    assert(state.subscribers(property) =~= Set::<ConnectionKey>::empty());
}

/// A packet for a connection that was just taken out is dropped: nothing is
/// reported and nothing changes.
pub proof fn law_delivery_to_the_departed_is_dropped(
    state: StateView,
    key: ConnectionKey,
    packet: Seq<u8>,
)
    ensures
        ({
            let left = state.after_disconnect(key);
            &&& delivery_outcome(left.sessions, key, packet) == Ok::<(), crate::session::SendError>(
                (),
            )
            &&& left.after_deliver(key, packet) == left
        }),
{
}

/// A key that was handed out and names no connection names none ever again:
/// what is registered later gets a key of its own.
pub proof fn law_stale_keys_stay_stale(state: StateView, key: ConnectionKey, operation: Operation)
    requires
        possible(state, operation),
        state.issued.contains(key),
        !state.sessions.contains_key(key),
    ensures
        state.after(operation).issued.contains(key),
        !state.after(operation).sessions.contains_key(key),
{
}

/// A connection that was taken out has no subscriptions left, and neither
/// has one whose session was closed: a write reaches neither.
pub proof fn law_departed_has_no_subscriptions(
    state: StateView,
    key: ConnectionKey,
    property: PropertyId,
)
    ensures
        !state.after_disconnect(key).subscriptions.contains((property, key)),
        !state.after_disconnect(key).sessions.contains_key(key),
        !state.after_close(key).subscriptions.contains((property, key)),
        state.after_close(key).sessions.contains_key(key) == state.sessions.contains_key(key),
        state.sessions.contains_key(key) ==> state.after_close(key).sessions[key]
            == state.sessions[key].closed(),
{
}

} // verus!
