//! The live connections and their sessions.
//!
//! The registry is an arena: a key names a slot and the generation the slot
//! had when the key was handed out. Taking a connection out leaves the slot
//! empty; putting a new one in raises the generation, so that what named the
//! old connection names nothing.

use vstd::prelude::*;
use crate::encodable::encoding;
use crate::encodable::Encodable;
use crate::identity::ConnectionKey;
use crate::identity::PropertyId;
use crate::session::packets_of;
use crate::session::SendError;
use crate::session::Session;
use crate::session::SessionView;
use crate::subscription::SubscriptionRegistry;

verus! {

/// A connection whose session did not take a packet, and why it did not.
#[derive(Clone, Copy, Debug, PartialEq, Eq, Structural)]
pub struct Refusal {
    pub connection: ConnectionKey,
    pub error: SendError,
}

/// One place of the arena: the generation of the key that names it, and the
/// session that is in it if one is.
struct Slot {
    generation: u64,
    session: Option<Session>,
}

/// The sessions of the connections that are live, by their keys.
pub struct ConnectionRegistry {
    slots: Vec<Slot>,
}

/// The sessions after a packet was handed to the connection `key`: its
/// session was asked to send the packet, and where the key names no session
/// nothing has changed.
pub open spec fn after_delivery(
    sessions: Map<ConnectionKey, SessionView>,
    key: ConnectionKey,
    packet: Seq<u8>,
) -> Map<ConnectionKey, SessionView> {
    if sessions.contains_key(key) {
        sessions.insert(key, sessions[key].after_send(packet))
    } else {
        sessions
    }
}

/// What handing a packet to the connection `key` reports: what its session
/// says to the packet, and success where the key names no session.
pub open spec fn delivery_outcome(
    sessions: Map<ConnectionKey, SessionView>,
    key: ConnectionKey,
    packet: Seq<u8>,
) -> Result<(), SendError> {
    if sessions.contains_key(key) {
        sessions[key].send_outcome(packet.len())
    } else {
        Ok(())
    }
}

/// The sessions after a packet was handed to every connection of `audience`:
/// each of their sessions was asked once to send the packet, and no other
/// session has changed.
pub open spec fn after_fan_out(
    sessions: Map<ConnectionKey, SessionView>,
    audience: Set<ConnectionKey>,
    packet: Seq<u8>,
) -> Map<ConnectionKey, SessionView> {
    Map::new(
        |key: ConnectionKey| sessions.contains_key(key),
        |key: ConnectionKey|
            if audience.contains(key) {
                sessions[key].after_send(packet)
            } else {
                sessions[key]
            },
    )
}

/// The sessions after a packet was handed to the connections of `audience`,
/// one after another.
pub open spec fn after_deliveries(
    sessions: Map<ConnectionKey, SessionView>,
    audience: Seq<ConnectionKey>,
    packet: Seq<u8>,
) -> Map<ConnectionKey, SessionView>
    decreases audience.len(),
{
    if audience.len() == 0 {
        sessions
    } else {
        after_delivery(
            after_deliveries(sessions, audience.drop_last(), packet),
            audience.last(),
            packet,
        )
    }
}

/// Who of `audience` does not take the packet, and why, in the order of the
/// audience. A key that names no connection refuses nothing.
pub open spec fn refusals_of(
    sessions: Map<ConnectionKey, SessionView>,
    audience: Seq<ConnectionKey>,
    packet: Seq<u8>,
) -> Seq<Refusal>
    decreases audience.len(),
{
    if audience.len() == 0 {
        Seq::empty()
    } else {
        let earlier = refusals_of(sessions, audience.drop_last(), packet);
        match delivery_outcome(sessions, audience.last(), packet) {
            Ok(_) => earlier,
            Err(error) => earlier.push(Refusal { connection: audience.last(), error }),
        }
    }
}

/// Who of `audience` does not take the packet, and why.
pub open spec fn refused(
    sessions: Map<ConnectionKey, SessionView>,
    audience: Set<ConnectionKey>,
    packet: Seq<u8>,
) -> Set<Refusal> {
    Set::new(
        |refusal: Refusal|
            audience.contains(refusal.connection) && delivery_outcome(
                sessions,
                refusal.connection,
                packet,
            ) == Err::<(), SendError>(refusal.error),
    )
}

/// Handing a packet out changes no session's answer to any packet: whether a
/// session takes a packet depends on what carries it, on whether it is open
/// and on its limit, and none of these changes when a packet is queued.
pub proof fn lemma_deliveries_keep_outcomes(
    sessions: Map<ConnectionKey, SessionView>,
    audience: Seq<ConnectionKey>,
    packet: Seq<u8>,
    key: ConnectionKey,
    other: Seq<u8>,
)
    ensures
        delivery_outcome(after_deliveries(sessions, audience, packet), key, other)
            == delivery_outcome(sessions, key, other),
    decreases audience.len(),
{
    if audience.len() > 0 {
        lemma_deliveries_keep_outcomes(sessions, audience.drop_last(), packet, key, other);
        lemma_deliveries_keep_outcomes(
            sessions,
            audience.drop_last(),
            packet,
            audience.last(),
            packet,
        );
    }
}

/// The refusals of an audience served in turn are the refusals of its
/// members.
pub proof fn lemma_refusals_are_the_refused(
    sessions: Map<ConnectionKey, SessionView>,
    audience: Seq<ConnectionKey>,
    packet: Seq<u8>,
)
    ensures
        refusals_of(sessions, audience, packet).to_set() == refused(
            sessions,
            audience.to_set(),
            packet,
        ),
    decreases audience.len(),
{
    let all = refusals_of(sessions, audience, packet);
    if audience.len() == 0 {
        assert(all.to_set() =~= refused(sessions, audience.to_set(), packet));
    } else {
        let earlier_audience = audience.drop_last();
        let earlier = refusals_of(sessions, earlier_audience, packet);
        let key = audience.last();
        lemma_refusals_are_the_refused(sessions, earlier_audience, packet);
        assert forall|refusal: Refusal| all.to_set().contains(refusal) == refused(
            sessions,
            audience.to_set(),
            packet,
        ).contains(refusal) by {
            let by_member = refused(sessions, earlier_audience.to_set(), packet).contains(refusal);
            assert(earlier.to_set().contains(refusal) == by_member);
            if audience.contains(refusal.connection) {
                let at = choose|at: int|
                    0 <= at < audience.len() && audience[at] == refusal.connection;
                if at < earlier_audience.len() {
                    assert(earlier_audience[at] == refusal.connection);
                }
            }
            if earlier_audience.contains(refusal.connection) {
                let at = choose|at: int|
                    0 <= at < earlier_audience.len() && earlier_audience[at]
                        == refusal.connection;
                assert(audience[at] == refusal.connection);
            }
            assert(audience[audience.len() - 1] == key);
            if all.contains(refusal) {
                let at = choose|at: int| 0 <= at < all.len() && all[at] == refusal;
                if at < earlier.len() {
                    assert(earlier[at] == refusal);
                }
            }
            if earlier.contains(refusal) {
                let at = choose|at: int| 0 <= at < earlier.len() && earlier[at] == refusal;
                assert(all[at] == refusal);
            }
            match delivery_outcome(sessions, key, packet) {
                Ok(_) => {},
                Err(error) => {
                    assert(all[all.len() - 1] == (Refusal { connection: key, error }));
                },
            }
        }
        assert(all.to_set() =~= refused(sessions, audience.to_set(), packet));
    }
}

/// Handing a packet to connections one after another, none of them twice,
/// asks each of their sessions once and leaves the others alone.
pub proof fn lemma_deliveries_reach_each_once(
    sessions: Map<ConnectionKey, SessionView>,
    audience: Seq<ConnectionKey>,
    packet: Seq<u8>,
)
    requires
        audience.no_duplicates(),
    ensures
        after_deliveries(sessions, audience, packet) == after_fan_out(
            sessions,
            audience.to_set(),
            packet,
        ),
    decreases audience.len(),
{
    if audience.len() == 0 {
        assert(sessions =~= after_fan_out(sessions, audience.to_set(), packet));
    } else {
        let earlier = audience.drop_last();
        let key = audience.last();
        lemma_deliveries_reach_each_once(sessions, earlier, packet);
        assert(!earlier.contains(key)) by {
            if earlier.contains(key) {
                let at = choose|at: int| 0 <= at < earlier.len() && earlier[at] == key;
                assert(audience[at] == key);
            }
        }
        assert forall|other: ConnectionKey| audience.to_set().contains(other) == (
        earlier.to_set().contains(other) || other == key) by {
            if audience.contains(other) {
                let at = choose|at: int| 0 <= at < audience.len() && audience[at] == other;
                if at < earlier.len() {
                    assert(earlier[at] == other);
                }
            }
            if earlier.contains(other) {
                let at = choose|at: int| 0 <= at < earlier.len() && earlier[at] == other;
                assert(audience[at] == other);
            }
            if other == key {
                assert(audience[audience.len() - 1] == other);
            }
        }
        assert(after_deliveries(sessions, audience, packet) =~= after_fan_out(
            sessions,
            audience.to_set(),
            packet,
        ));
    }
}

impl View for ConnectionRegistry {
    type V = Map<ConnectionKey, SessionView>;

    /// The live connections, each with its session.
    closed spec fn view(&self) -> Map<ConnectionKey, SessionView> {
        Map::new(
            |key: ConnectionKey| self.holds(key),
            |key: ConnectionKey| self.slots@[key.slot as int].session->Some_0@,
        )
    }
}

impl ConnectionRegistry {
    spec fn holds(&self, key: ConnectionKey) -> bool {
        &&& key.slot < self.slots@.len()
        &&& self.slots@[key.slot as int].generation == key.generation
        &&& self.slots@[key.slot as int].session is Some
    }

    /// The keys handed out so far, live or stale.
    pub closed spec fn issued(&self) -> Set<ConnectionKey> {
        Set::new(
            |key: ConnectionKey|
                key.slot < self.slots@.len() && key.generation
                    <= self.slots@[key.slot as int].generation,
        )
    }

    /// Every live key was handed out.
    pub proof fn lemma_live_keys_were_issued(&self)
        ensures
            forall|key: ConnectionKey| #[trigger]
                self@.contains_key(key) ==> self.issued().contains(key),
    {
    }

    /// A registry without connections, from which no key was handed out.
    pub fn new() -> (registry: Self)
        ensures
            registry@ == Map::<ConnectionKey, SessionView>::empty(),
            registry.issued() == Set::<ConnectionKey>::empty(),
    {
        let registry = ConnectionRegistry { slots: Vec::new() };
        assert(registry@ =~= Map::<ConnectionKey, SessionView>::empty());
        assert(registry.issued() =~= Set::<ConnectionKey>::empty());
        registry
    }

    /// Whether `key` names a live connection.
    pub fn is_live(&self, key: ConnectionKey) -> (live: bool)
        ensures
            live == self@.contains_key(key),
    {
        key.slot < self.slots.len() && self.slots[key.slot].generation == key.generation
            && self.slots[key.slot].session.is_some()
    }

    /// Takes in a session and hands out the key of its connection: one that
    /// was never handed out before.
    pub fn register(&mut self, session: Session) -> (key: ConnectionKey)
        ensures
            !old(self).issued().contains(key),
            final(self).issued() == old(self).issued().insert(key),
            final(self)@ == old(self)@.insert(key, session@),
    {
        let mut i: usize = 0;
        while i < self.slots.len()
            invariant
                i <= self.slots@.len(),
                *self == *old(self),
            decreases self.slots@.len() - i,
        {
            if self.slots[i].session.is_none() && self.slots[i].generation < u64::MAX {
                let generation = self.slots[i].generation + 1;
                let key = ConnectionKey { slot: i, generation };
                self.slots[i] = Slot { generation, session: Some(session) };
                assert(final(self)@ =~= old(self)@.insert(key, session@));
                assert(final(self).issued() =~= old(self).issued().insert(key));
                return key;
            }
            i += 1;
        }
        let key = ConnectionKey { slot: self.slots.len(), generation: 0 };
        self.slots.push(Slot { generation: 0, session: Some(session) });
        assert(final(self)@ =~= old(self)@.insert(key, session@));
        assert(final(self).issued() =~= old(self).issued().insert(key));
        key
    }

    /// Takes the connection `key` out, hands over its session and ends its
    /// subscriptions. A key that names no connection has no session to hand
    /// over; what was subscribed under it is ended all the same.
    pub fn deregister(&mut self, key: ConnectionKey, subscriptions: &mut SubscriptionRegistry) -> (
        session: Option<Session>)
        requires
            old(subscriptions).wf(),
        ensures
            final(self)@ == old(self)@.remove(key),
            final(self).issued() == old(self).issued(),
            match session {
                Some(session) => old(self)@.contains_key(key) && session@ == old(self)@[key],
                None => !old(self)@.contains_key(key),
            },
            final(subscriptions).wf(),
            final(subscriptions)@ == old(subscriptions)@.filter(
                |pair: (PropertyId, ConnectionKey)| pair.1 != key,
            ),
    {
        subscriptions.remove_connection(key);
        if self.is_live(key) {
            let session = self.slots[key.slot].session.take();
            assert(final(self)@ =~= old(self)@.remove(key));
            assert(final(self).issued() =~= old(self).issued());
            session
        } else {
            assert(final(self)@ =~= old(self)@.remove(key));
            None
        }
    }

    /// Hands one packet to the connection `key`. A key that names no
    /// connection is not an error: the packet is dropped and nothing changes.
    pub fn deliver_encoded(&mut self, key: ConnectionKey, packet: &[u8]) -> (sent: Result<
        (),
        SendError,
    >)
        ensures
            sent == delivery_outcome(old(self)@, key, packet@),
            final(self)@ == after_delivery(old(self)@, key, packet@),
            final(self).issued() == old(self).issued(),
    {
        if self.is_live(key) {
            let sent = match &mut self.slots[key.slot].session {
                Some(session) => session.send_packet(packet),
                None => Ok(()),
            };
            assert(final(self)@ =~= after_delivery(old(self)@, key, packet@));
            assert(final(self).issued() =~= old(self).issued());
            sent
        } else {
            Ok(())
        }
    }

    /// Hands one packet to each connection of `audience`, in turn, and says
    /// who did not take it. What one of them makes of the packet does not
    /// touch the others: a key that names no connection is passed over, and
    /// a session that refuses is reported and passed over.
    pub fn deliver_to_all(&mut self, audience: &Vec<ConnectionKey>, packet: &[u8]) -> (refusals:
        Vec<Refusal>)
        ensures
            final(self)@ == after_deliveries(old(self)@, audience@, packet@),
            final(self).issued() == old(self).issued(),
            refusals@ == refusals_of(old(self)@, audience@, packet@),
    {
        let mut refusals: Vec<Refusal> = Vec::new();
        let mut i: usize = 0;
        while i < audience.len()
            invariant
                i <= audience@.len(),
                self.issued() == old(self).issued(),
                self@ == after_deliveries(old(self)@, audience@.subrange(0, i as int), packet@),
                refusals@ == refusals_of(old(self)@, audience@.subrange(0, i as int), packet@),
            decreases audience@.len() - i,
        {
            let key = audience[i];
            proof {
                lemma_deliveries_keep_outcomes(
                    old(self)@,
                    audience@.subrange(0, i as int),
                    packet@,
                    key,
                    packet@,
                );
            }
            match self.deliver_encoded(key, packet) {
                Ok(_) => {},
                Err(error) => {
                    refusals.push(Refusal { connection: key, error });
                },
            }
            proof {
                let served = audience@.subrange(0, i + 1);
                assert(served.drop_last() =~= audience@.subrange(0, i as int));
                assert(served.last() == key);
            }
            i += 1;
        }
        assert(audience@.subrange(0, i as int) =~= audience@);
        refusals
    }

    /// Hands one value, in its byte form, to the connection `key`. A key that
    /// names no connection is not an error: the value is dropped and nothing
    /// changes.
    pub fn deliver(&mut self, key: ConnectionKey, value: &Encodable) -> (sent: Result<
        (),
        SendError,
    >)
        ensures
            sent == delivery_outcome(old(self)@, key, encoding(value@)),
            final(self)@ == after_delivery(old(self)@, key, encoding(value@)),
            final(self).issued() == old(self).issued(),
    {
        if self.is_live(key) {
            let packet = value.encode();
            self.deliver_encoded(key, packet.as_slice())
        } else {
            Ok(())
        }
    }

    /// Closes the session of the connection `key`, if there is one, and ends
    /// the subscriptions of the key. The connection stays registered, with
    /// what is queued on it, until it is taken out.
    pub fn close(&mut self, key: ConnectionKey, subscriptions: &mut SubscriptionRegistry)
        requires
            old(subscriptions).wf(),
        ensures
            final(self).issued() == old(self).issued(),
            final(self)@ == if old(self)@.contains_key(key) {
                old(self)@.insert(key, old(self)@[key].closed())
            } else {
                old(self)@
            },
            final(subscriptions).wf(),
            final(subscriptions)@ == old(subscriptions)@.filter(
                |pair: (PropertyId, ConnectionKey)| pair.1 != key,
            ),
    {
        subscriptions.remove_connection(key);
        if self.is_live(key) {
            match &mut self.slots[key.slot].session {
                Some(session) => session.close(),
                None => {},
            };
            assert(final(self)@ =~= old(self)@.insert(key, old(self)@[key].closed()));
            assert(final(self).issued() =~= old(self).issued());
        }
    }

    /// Hands over the packets that wait on the connection `key` for the
    /// transport, and empties its queue. A key that names no connection has
    /// none.
    pub fn take_outbound(&mut self, key: ConnectionKey) -> (packets: Vec<Vec<u8>>)
        ensures
            final(self).issued() == old(self).issued(),
            packets_of(packets@) == if old(self)@.contains_key(key) {
                old(self)@[key].queued
            } else {
                Seq::<Seq<u8>>::empty()
            },
            final(self)@ == if old(self)@.contains_key(key) {
                old(self)@.insert(
                    key,
                    SessionView { queued: Seq::<Seq<u8>>::empty(), ..old(self)@[key] },
                )
            } else {
                old(self)@
            },
    {
        if self.is_live(key) {
            let packets = match &mut self.slots[key.slot].session {
                Some(session) => session.take_outbound(),
                None => Vec::new(),
            };
            assert(final(self)@ =~= old(self)@.insert(
                key,
                SessionView { queued: Seq::<Seq<u8>>::empty(), ..old(self)@[key] },
            ));
            assert(final(self).issued() =~= old(self).issued());
            packets
        } else {
            let packets: Vec<Vec<u8>> = Vec::new();
            assert(packets_of(packets@) =~= Seq::<Seq<u8>>::empty());
            packets
        }
    }
}

} // verus!
