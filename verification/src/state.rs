//! The shared state: the values of the live properties, who is subscribed to
//! them, and the connections that changes go out to.

use vstd::prelude::*;
use std::collections::HashMap;
use crate::connection::after_delivery;
use crate::connection::after_fan_out;
use crate::connection::delivery_outcome;
use crate::connection::lemma_deliveries_reach_each_once;
use crate::connection::lemma_refusals_are_the_refused;
use crate::connection::refused;
use crate::connection::Refusal;
use crate::connection::ConnectionRegistry;
use crate::encodable::encoding;
use crate::encodable::value_of;
use crate::encodable::Encodable;
use crate::encodable::Value;
use crate::identity::ConnectionKey;
use crate::identity::Identity;
use crate::identity::PropertyId;
use crate::session::packets_of;
use crate::session::SendError;
use crate::session::Session;
use crate::session::SessionView;
use crate::subscription::lemma_codes_differ;
use crate::subscription::SubscriptionRegistry;

verus! {

broadcast use vstd::std_specs::hash::group_hash_axioms;

/// The state that properties live in.
pub struct State {
    /// The value of each live property, and `None` for each finalized one.
    cells: HashMap<u128, Option<Encodable>>,
    subscriptions: SubscriptionRegistry,
    connections: ConnectionRegistry,
    /// Who did not take a notice, and why, since this was last asked.
    undelivered: Vec<Refusal>,
}

/// The state as plain values.
#[verifier::ext_equal]
pub struct StateView {
    /// The value of each live property.
    pub values: Map<PropertyId, Value>,
    /// The properties that were finalized.
    pub gone: Set<PropertyId>,
    /// Which connection is subscribed to which property.
    pub subscriptions: Set<(PropertyId, ConnectionKey)>,
    /// The session of each live connection.
    pub sessions: Map<ConnectionKey, SessionView>,
    /// The keys handed out so far.
    pub issued: Set<ConnectionKey>,
    /// The subscribers that did not take a notice, each with the reason,
    /// since they were last handed over.
    pub undelivered: Set<Refusal>,
}

/// What subscribers are sent when `property` takes the value `value`: the
/// entity, the attribute and the value, in a row.
pub open spec fn change_notice(property: PropertyId, value: Value) -> Value {
    Value::List(
        seq![Value::Int(property.entity as i64), Value::Int(property.attribute as i64), value],
    )
}

/// What subscribers are sent when `property` is no more: the entity and the
/// attribute, in a row.
pub open spec fn removal_notice(property: PropertyId) -> Value {
    Value::List(seq![Value::Int(property.entity as i64), Value::Int(property.attribute as i64)])
}

impl StateView {
    /// No finalized property is live, only live properties have subscribers,
    /// and only keys that were handed out name connections.
    pub open spec fn consistent(self) -> bool {
        &&& forall|property: PropertyId| #[trigger]
            self.gone.contains(property) ==> !self.values.contains_key(property)
        &&& forall|property: PropertyId, connection: ConnectionKey|
            #[trigger] self.subscriptions.contains((property, connection))
                ==> self.values.contains_key(property)
        &&& forall|connection: ConnectionKey| #[trigger]
            self.sessions.contains_key(connection) ==> self.issued.contains(connection)
    }

    /// The connections subscribed to `property`.
    pub open spec fn subscribers(self, property: PropertyId) -> Set<ConnectionKey> {
        Set::new(|connection: ConnectionKey| self.subscriptions.contains((property, connection)))
    }

    /// The state after `property` was created with `value`. A property that
    /// is live is not created again, and one that was finalized stays gone.
    pub open spec fn after_create(self, property: PropertyId, value: Value) -> StateView {
        if self.values.contains_key(property) || self.gone.contains(property) {
            self
        } else {
            StateView { values: self.values.insert(property, value), ..self }
        }
    }

    /// The state after `value` was written to `property`: the property holds
    /// the value, each subscriber's session was asked once to send the
    /// notice of the change, and who did not take it is noted. Nothing is
    /// written to a property that is gone.
    pub open spec fn after_write(self, property: PropertyId, value: Value) -> StateView {
        if self.values.contains_key(property) {
            StateView {
                values: self.values.insert(property, value),
                sessions: after_fan_out(
                    self.sessions,
                    self.subscribers(property),
                    encoding(change_notice(property, value)),
                ),
                undelivered: self.undelivered.union(
                    refused(
                        self.sessions,
                        self.subscribers(property),
                        encoding(change_notice(property, value)),
                    ),
                ),
                ..self
            }
        } else {
            self
        }
    }

    /// The state after `connection` subscribed to `property`. Nobody
    /// subscribes to a property that is gone.
    pub open spec fn after_subscribe(
        self,
        property: PropertyId,
        connection: ConnectionKey,
    ) -> StateView {
        if self.values.contains_key(property) {
            StateView { subscriptions: self.subscriptions.insert((property, connection)), ..self }
        } else {
            self
        }
    }

    /// The state after `connection` unsubscribed from `property`.
    pub open spec fn after_unsubscribe(
        self,
        property: PropertyId,
        connection: ConnectionKey,
    ) -> StateView {
        StateView { subscriptions: self.subscriptions.remove((property, connection)), ..self }
    }

    /// The state after `property` was finalized: it is gone, it has no value
    /// and no subscribers, each session of those it had was asked once to
    /// send the notice of the removal, and who did not take it is noted.
    pub open spec fn after_finalize(self, property: PropertyId) -> StateView {
        StateView {
            values: self.values.remove(property),
            gone: self.gone.insert(property),
            subscriptions: self.subscriptions.filter(
                |pair: (PropertyId, ConnectionKey)| pair.0 != property,
            ),
            sessions: after_fan_out(
                self.sessions,
                self.subscribers(property),
                encoding(removal_notice(property)),
            ),
            undelivered: self.undelivered.union(
                refused(
                    self.sessions,
                    self.subscribers(property),
                    encoding(removal_notice(property)),
                ),
            ),
            ..self
        }
    }

    /// The state after `session` was registered under `key`.
    pub open spec fn after_connect(self, key: ConnectionKey, session: SessionView) -> StateView {
        StateView {
            sessions: self.sessions.insert(key, session),
            issued: self.issued.insert(key),
            ..self
        }
    }

    /// The state after the connection `key` was taken out: it has no session
    /// and no subscriptions.
    pub open spec fn after_disconnect(self, key: ConnectionKey) -> StateView {
        StateView {
            sessions: self.sessions.remove(key),
            subscriptions: self.subscriptions.filter(
                |pair: (PropertyId, ConnectionKey)| pair.1 != key,
            ),
            ..self
        }
    }

    /// The state after `packet` was handed to the connection `key`.
    pub open spec fn after_deliver(self, key: ConnectionKey, packet: Seq<u8>) -> StateView {
        StateView { sessions: after_delivery(self.sessions, key, packet), ..self }
    }

    /// The state after the session of the connection `key` was closed: the
    /// key has no subscriptions, and its session, if it has one, is closed.
    pub open spec fn after_close(self, key: ConnectionKey) -> StateView {
        StateView {
            sessions: if self.sessions.contains_key(key) {
                self.sessions.insert(key, self.sessions[key].closed())
            } else {
                self.sessions
            },
            subscriptions: self.subscriptions.filter(
                |pair: (PropertyId, ConnectionKey)| pair.1 != key,
            ),
            ..self
        }
    }

    /// The state after those who did not take a notice were handed over.
    pub open spec fn after_take_undelivered(self) -> StateView {
        StateView { undelivered: Set::empty(), ..self }
    }

    /// The state after the queue of the connection `key` was handed to the
    /// transport.
    pub open spec fn after_take_outbound(self, key: ConnectionKey) -> StateView {
        if self.sessions.contains_key(key) {
            StateView {
                sessions: self.sessions.insert(
                    key,
                    SessionView { queued: Seq::empty(), ..self.sessions[key] },
                ),
                ..self
            }
        } else {
            self
        }
    }

    /// The state after `operation`.
    pub open spec fn after(self, operation: Operation) -> StateView {
        match operation {
            Operation::Create(property, value) => self.after_create(property, value),
            Operation::Write(property, value) => self.after_write(property, value),
            Operation::Subscribe(property, connection) => self.after_subscribe(
                property,
                connection,
            ),
            Operation::Unsubscribe(property, connection) => self.after_unsubscribe(
                property,
                connection,
            ),
            Operation::Finalize(property) => self.after_finalize(property),
            Operation::Connect(key, session) => self.after_connect(key, session),
            Operation::Disconnect(key) => self.after_disconnect(key),
            Operation::Deliver(key, packet) => self.after_deliver(key, packet),
            Operation::Close(key) => self.after_close(key),
            Operation::TakeOutbound(key) => self.after_take_outbound(key),
            Operation::TakeUndelivered => self.after_take_undelivered(),
        }
    }
}

/// What can be done to the state, with what it is done to.
pub enum Operation {
    Create(PropertyId, Value),
    Write(PropertyId, Value),
    Subscribe(PropertyId, ConnectionKey),
    Unsubscribe(PropertyId, ConnectionKey),
    Finalize(PropertyId),
    /// Registering a session under the key that is handed out for it.
    Connect(ConnectionKey, SessionView),
    Disconnect(ConnectionKey),
    Deliver(ConnectionKey, Seq<u8>),
    Close(ConnectionKey),
    TakeOutbound(ConnectionKey),
    TakeUndelivered,
}

impl View for State {
    type V = StateView;

    closed spec fn view(&self) -> StateView {
        StateView {
            values: Map::new(
                |property: PropertyId|
                    self.cells@.contains_key(property.code()) && self.cells@[property.code()]
                        is Some,
                |property: PropertyId| self.cells@[property.code()]->Some_0@,
            ),
            gone: Set::new(
                |property: PropertyId|
                    self.cells@.contains_key(property.code()) && self.cells@[property.code()]
                        is None,
            ),
            subscriptions: self.subscriptions@,
            sessions: self.connections@,
            issued: self.connections.issued(),
            undelivered: self.undelivered@.to_set(),
        }
    }
}

/// The value that notifies of a change of `property` to `value`.
fn change_notice_of(property: PropertyId, value: &Encodable) -> (notice: Encodable)
    ensures
        notice@ == change_notice(property, value@),
{
    let mut items: Vec<Encodable> = Vec::new();
    items.push(Encodable::Int(property.entity as i64));
    items.push(Encodable::Int(property.attribute as i64));
    items.push(value.duplicate());
    let notice = Encodable::List(items);
    proof {
        reveal_with_fuel(value_of, 2);
    }
    assert(notice@->List_0 =~= change_notice(property, value@)->List_0);
    notice
}

/// The value that notifies of the removal of `property`.
fn removal_notice_of(property: PropertyId) -> (notice: Encodable)
    ensures
        notice@ == removal_notice(property),
{
    let mut items: Vec<Encodable> = Vec::new();
    items.push(Encodable::Int(property.entity as i64));
    items.push(Encodable::Int(property.attribute as i64));
    let notice = Encodable::List(items);
    proof {
        reveal_with_fuel(value_of, 2);
    }
    assert(notice@->List_0 =~= removal_notice(property)->List_0);
    notice
}

/// Where every subscription was there before or is to a live property, and
/// no live property went, every subscription is to a live property still.
proof fn lemma_subscribers_are_live(before: StateView, after: StateView)
    requires
        before.consistent(),
        forall|pair: (PropertyId, ConnectionKey)| #[trigger]
            after.subscriptions.contains(pair) ==> before.subscriptions.contains(pair)
                || after.values.contains_key(pair.0),
        forall|property: PropertyId| #[trigger]
            before.values.contains_key(property) ==> after.values.contains_key(property),
    ensures
        forall|property: PropertyId, connection: ConnectionKey|
            #[trigger] after.subscriptions.contains((property, connection))
                ==> after.values.contains_key(property),
{
    assert forall|property: PropertyId, connection: ConnectionKey| #[trigger]
        after.subscriptions.contains((property, connection)) implies after.values.contains_key(
        property,
    ) by {
        if before.subscriptions.contains((property, connection)) {
            assert(before.values.contains_key(property));
        }
    }
}

/// What two rows hold together is what either holds.
proof fn lemma_joined_rows<T>(first: Seq<T>, second: Seq<T>)
    ensures
        (first + second).to_set() == first.to_set().union(second.to_set()),
{
    let joined = first + second;
    assert forall|item: T| joined.to_set().contains(item) == first.to_set().union(
        second.to_set(),
    ).contains(item) by {
        if joined.contains(item) {
            let at = choose|at: int| 0 <= at < joined.len() && joined[at] == item;
            if at < first.len() {
                assert(first[at] == item);
            } else {
                assert(second[at - first.len()] == item);
            }
        }
        if first.contains(item) {
            let at = choose|at: int| 0 <= at < first.len() && first[at] == item;
            assert(joined[at] == item);
        }
        if second.contains(item) {
            let at = choose|at: int| 0 <= at < second.len() && second[at] == item;
            assert(joined[first.len() + at] == item);
        }
    }
    assert(joined.to_set() =~= first.to_set().union(second.to_set()));
}

impl State {
    /// The registries are sound, and the state is consistent.
    pub closed spec fn wf(&self) -> bool {
        &&& self.subscriptions.wf()
        &&& self@.consistent()
    }

    /// A sound state is consistent.
    pub proof fn lemma_consistent(&self)
        requires
            self.wf(),
        ensures
            self@.consistent(),
    {
    }

    /// A state without properties, subscriptions or connections.
    pub fn new() -> (state: State)
        ensures
            state.wf(),
            state@ == (StateView {
                values: Map::empty(),
                gone: Set::empty(),
                subscriptions: Set::empty(),
                sessions: Map::empty(),
                issued: Set::empty(),
                undelivered: Set::empty(),
            }),
    {
        let state = State {
            cells: HashMap::new(),
            subscriptions: SubscriptionRegistry::new(),
            connections: ConnectionRegistry::new(),
            undelivered: Vec::new(),
        };
        assert(state@.undelivered =~= Set::<Refusal>::empty());
        assert(state@.values =~= Map::<PropertyId, Value>::empty());
        assert(state@.gone =~= Set::<PropertyId>::empty());
        proof {
            state.connections.lemma_live_keys_were_issued();
        }
        state
    }

    /// Whether `property` is live.
    pub fn is_live(&self, property: PropertyId) -> (live: bool)
        ensures
            live == self@.values.contains_key(property),
    {
        match self.cells.get(&property.index_code()) {
            Some(cell) => cell.is_some(),
            None => false,
        }
    }

    /// Whether `property` was finalized.
    pub fn is_gone(&self, property: PropertyId) -> (gone: bool)
        ensures
            gone == self@.gone.contains(property),
    {
        match self.cells.get(&property.index_code()) {
            Some(cell) => cell.is_none(),
            None => false,
        }
    }

    /// Whether `connection` is subscribed to `property`.
    pub fn is_subscribed(&self, property: PropertyId, connection: ConnectionKey) -> (subscribed:
        bool)
        ensures
            subscribed == self@.subscriptions.contains((property, connection)),
    {
        self.subscriptions.is_subscribed(property, connection)
    }

    /// Whether `key` names a live connection.
    pub fn is_connected(&self, key: ConnectionKey) -> (live: bool)
        ensures
            live == self@.sessions.contains_key(key),
    {
        self.connections.is_live(key)
    }

    /// Creates `property` with the value `initial`, and says whether it did:
    /// a property that is live is not created again, and one that was
    /// finalized stays gone.
    pub(crate) fn create(&mut self, property: PropertyId, initial: Encodable) -> (created: bool)
        requires
            old(self).wf(),
        ensures
            final(self).wf(),
            created == !(old(self)@.values.contains_key(property) || old(self)@.gone.contains(
                property,
            )),
            final(self)@ == old(self)@.after_create(property, initial@),
    {
        let code = property.index_code();
        if self.cells.contains_key(&code) {
            false
        } else {
            self.cells.insert(code, Some(initial));
            proof {
                self.connections.lemma_live_keys_were_issued();
                assert forall|other: PropertyId| other != property implies other.code()
                    != property.code() by {
                    lemma_codes_differ(other, property);
                }
                assert(final(self)@.values =~= old(self)@.values.insert(property, initial@));
                assert(final(self)@.gone =~= old(self)@.gone);
                lemma_subscribers_are_live(old(self)@, self@);
            }
            true
        }
    }

    /// The value of `property`, if it is live.
    pub fn read(&self, property: PropertyId) -> (value: Option<Encodable>)
        ensures
            match value {
                Some(value) => self@.values.contains_key(property) && value@
                    == self@.values[property],
                None => !self@.values.contains_key(property),
            },
    {
        match self.cells.get(&property.index_code()) {
            Some(Some(value)) => Some(value.duplicate()),
            _ => None,
        }
    }

    /// Writes `value` to `property` and queues the notice of the change on
    /// the session of every subscriber; says whether the property is live.
    /// A session that refuses the notice does not keep the others from
    /// getting it, and does not undo the write; the refusal is noted.
    pub(crate) fn write(&mut self, property: PropertyId, value: Encodable) -> (written: bool)
        requires
            old(self).wf(),
        ensures
            final(self).wf(),
            written == old(self)@.values.contains_key(property),
            final(self)@ == old(self)@.after_write(property, value@),
    {
        let code = property.index_code();
        if !self.is_live(property) {
            return false;
        }
        let notice = change_notice_of(property, &value);
        let packet = notice.encode();
        self.cells.insert(code, Some(value));
        let audience = self.subscriptions.subscribers_of(property);
        proof {
            lemma_deliveries_reach_each_once(self.connections@, audience@, packet@);
            lemma_refusals_are_the_refused(self.connections@, audience@, packet@);
        }
        let mut refusals = self.connections.deliver_to_all(&audience, packet.as_slice());
        proof {
            lemma_joined_rows(self.undelivered@, refusals@);
        }
        self.undelivered.append(&mut refusals);
        proof {
            self.connections.lemma_live_keys_were_issued();
            assert forall|other: PropertyId| other != property implies other.code()
                != property.code() by {
                lemma_codes_differ(other, property);
            }
            assert(final(self)@.values =~= old(self)@.values.insert(property, value@));
            assert(final(self)@.gone =~= old(self)@.gone);
            assert(audience@.to_set() =~= old(self)@.subscribers(property));
        }
        true
    }

    /// Subscribes `connection` to `property`, and says whether the property
    /// is live. Subscribing again changes nothing.
    pub(crate) fn subscribe(&mut self, property: PropertyId, connection: ConnectionKey) -> (subscribed:
        bool)
        requires
            old(self).wf(),
        ensures
            final(self).wf(),
            subscribed == old(self)@.values.contains_key(property),
            final(self)@ == old(self)@.after_subscribe(property, connection),
    {
        if !self.is_live(property) {
            return false;
        }
        self.subscriptions.subscribe(property, connection);
        proof {
            self.connections.lemma_live_keys_were_issued();
            lemma_subscribers_are_live(old(self)@, self@);
        }
        true
    }

    /// Ends the subscription of `connection` to `property`. Ending what is
    /// not there changes nothing.
    pub(crate) fn unsubscribe(&mut self, property: PropertyId, connection: ConnectionKey)
        requires
            old(self).wf(),
        ensures
            final(self).wf(),
            final(self)@ == old(self)@.after_unsubscribe(property, connection),
    {
        self.subscriptions.unsubscribe(property, connection);
        proof {
            self.connections.lemma_live_keys_were_issued();
            lemma_subscribers_are_live(old(self)@, self@);
        }
    }

    /// Finalizes `property`: queues the notice of its removal on the session
    /// of every subscriber, ends their subscriptions and forgets its value.
    pub(crate) fn retire(&mut self, property: PropertyId)
        requires
            old(self).wf(),
        ensures
            final(self).wf(),
            final(self)@ == old(self)@.after_finalize(property),
    {
        let audience = self.subscriptions.remove_property(property);
        let notice = removal_notice_of(property);
        let packet = notice.encode();
        proof {
            lemma_deliveries_reach_each_once(self.connections@, audience@, packet@);
            lemma_refusals_are_the_refused(self.connections@, audience@, packet@);
        }
        let mut refusals = self.connections.deliver_to_all(&audience, packet.as_slice());
        proof {
            lemma_joined_rows(self.undelivered@, refusals@);
        }
        self.undelivered.append(&mut refusals);
        self.cells.insert(property.index_code(), None);
        proof {
            self.connections.lemma_live_keys_were_issued();
            assert forall|other: PropertyId| other != property implies other.code()
                != property.code() by {
                lemma_codes_differ(other, property);
            }
            assert(final(self)@.values =~= old(self)@.values.remove(property));
            assert(final(self)@.gone =~= old(self)@.gone.insert(property));
            assert(audience@.to_set() =~= old(self)@.subscribers(property));
        }
    }

    /// Registers a session and hands out the key of its connection: one that
    /// was never handed out before.
    pub fn connect(&mut self, session: Session) -> (key: ConnectionKey)
        requires
            old(self).wf(),
        ensures
            final(self).wf(),
            !old(self)@.issued.contains(key),
            final(self)@ == old(self)@.after_connect(key, session@),
    {
        let key = self.connections.register(session);
        proof {
            self.connections.lemma_live_keys_were_issued();
            lemma_subscribers_are_live(old(self)@, self@);
        }
        key
    }

    /// Takes the connection `key` out, hands over its session and ends its
    /// subscriptions.
    pub fn disconnect(&mut self, key: ConnectionKey) -> (session: Option<Session>)
        requires
            old(self).wf(),
        ensures
            final(self).wf(),
            final(self)@ == old(self)@.after_disconnect(key),
            match session {
                Some(session) => old(self)@.sessions.contains_key(key) && session@ == old(
                    self,
                )@.sessions[key],
                None => !old(self)@.sessions.contains_key(key),
            },
    {
        let session = self.connections.deregister(key, &mut self.subscriptions);
        proof {
            self.connections.lemma_live_keys_were_issued();
            lemma_subscribers_are_live(old(self)@, self@);
        }
        session
    }

    /// Hands one value, in its byte form, to the connection `key`. A key that
    /// names no connection is not an error: the value is dropped and nothing
    /// changes.
    pub fn deliver(&mut self, key: ConnectionKey, value: &Encodable) -> (sent: Result<
        (),
        SendError,
    >)
        requires
            old(self).wf(),
        ensures
            final(self).wf(),
            sent == delivery_outcome(old(self)@.sessions, key, encoding(value@)),
            final(self)@ == old(self)@.after_deliver(key, encoding(value@)),
    {
        let sent = self.connections.deliver(key, value);
        proof {
            self.connections.lemma_live_keys_were_issued();
            lemma_subscribers_are_live(old(self)@, self@);
        }
        sent
    }

    /// Closes the session of the connection `key`, if there is one, and ends
    /// the subscriptions of the key. The connection stays registered, with
    /// what is queued on it, until it is taken out.
    pub fn close(&mut self, key: ConnectionKey)
        requires
            old(self).wf(),
        ensures
            final(self).wf(),
            final(self)@ == old(self)@.after_close(key),
    {
        self.connections.close(key, &mut self.subscriptions);
        proof {
            self.connections.lemma_live_keys_were_issued();
            lemma_subscribers_are_live(old(self)@, self@);
        }
    }

    /// Hands over who did not take a notice since this was last asked, each
    /// with the reason, and forgets them.
    pub fn take_undelivered(&mut self) -> (refusals: Vec<Refusal>)
        requires
            old(self).wf(),
        ensures
            final(self).wf(),
            refusals@.to_set() == old(self)@.undelivered,
            final(self)@ == old(self)@.after_take_undelivered(),
    {
        let mut refusals: Vec<Refusal> = Vec::new();
        refusals.append(&mut self.undelivered);
        proof {
            self.connections.lemma_live_keys_were_issued();
            lemma_subscribers_are_live(old(self)@, self@);
            assert(refusals@ =~= old(self).undelivered@);
            assert(self@.undelivered =~= Set::<Refusal>::empty());
        }
        refusals
    }

    /// Hands over the packets that wait on the connection `key` for the
    /// transport, and empties its queue. A key that names no connection has
    /// none.
    pub fn take_outbound(&mut self, key: ConnectionKey) -> (packets: Vec<Vec<u8>>)
        requires
            old(self).wf(),
        ensures
            final(self).wf(),
            packets_of(packets@) == if old(self)@.sessions.contains_key(key) {
                old(self)@.sessions[key].queued
            } else {
                Seq::<Seq<u8>>::empty()
            },
            final(self)@ == old(self)@.after_take_outbound(key),
    {
        let packets = self.connections.take_outbound(key);
        proof {
            self.connections.lemma_live_keys_were_issued();
            lemma_subscribers_are_live(old(self)@, self@);
        }
        packets
    }
}

} // verus!
