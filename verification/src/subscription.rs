//! Who is subscribed to what.
//!
//! The registry keeps the subscriptions twice: by property, to find whom a
//! change goes out to, and by connection, to drop all that a connection
//! holds when it goes away. The two never disagree.

use vstd::prelude::*;
use crate::identity::ConnectionKey;
use crate::identity::Identity;
use crate::identity::PropertyId;
use crate::index::Index;

verus! {

/// The standing requests of connections to hear of changes to properties.
pub struct SubscriptionRegistry {
    by_property: Index<ConnectionKey>,
    by_connection: Index<PropertyId>,
}

/// Identities that differ have codes that differ.
pub proof fn lemma_codes_differ<T: Identity>(a: T, b: T)
    requires
        a != b,
    ensures
        a.code() != b.code(),
{
    if a.code() == b.code() {
        T::lemma_code_injective(a, b);
    }
}

/// The two directions of a relation hold the same pairs: what is filed in
/// `near` under the one is filed in `far` under the other.
pub open spec fn agree<A: Identity, B: Identity>(near: Index<B>, far: Index<A>) -> bool {
    forall|a: A, b: B|
        #![trigger near.related(a.code()).contains(b)]
        #![trigger far.related(b.code()).contains(a)]
        near.related(a.code()).contains(b) <==> far.related(b.code()).contains(a)
}

/// Takes every pair of `gone` out of both directions of a relation, and hands
/// over what `gone` was paired with, each once.
fn strike<A: Identity, B: Identity>(near: &mut Index<B>, far: &mut Index<A>, gone: A) -> (partners:
    Vec<B>)
    requires
        old(near).wf(),
        old(far).wf(),
        agree(*old(near), *old(far)),
    ensures
        final(near).wf(),
        final(far).wf(),
        agree(*final(near), *final(far)),
        partners@.no_duplicates(),
        partners@.to_set() == old(near).related(gone.code()),
        forall|a: A, b: B| #[trigger]
            final(near).related(a.code()).contains(b) == (old(near).related(a.code()).contains(b)
                && a != gone),
{
    let partners = near.take(gone.index_code());
    proof {
        old(near).lemma_rows_have_no_repeats(gone.code());
    }
    let mut i: usize = 0;
    while i < partners.len()
        invariant
            i <= partners@.len(),
            old(near).wf(),
            old(far).wf(),
            agree(*old(near), *old(far)),
            partners@ == old(near).row(gone.code()),
            near.wf(),
            far.wf(),
            near.row(gone.code()) == Seq::<B>::empty(),
            forall|other: u128|
                other != gone.code() ==> #[trigger] near.row(other) == old(near).row(other),
            forall|b: B|
                #![trigger far.related(b.code())]
                far.related(b.code()) == if partners@.subrange(0, i as int).contains(b) {
                    old(far).related(b.code()).remove(gone)
                } else {
                    old(far).related(b.code())
                },
        decreases partners@.len() - i,
    {
        let partner = partners[i];
        let ghost before = *far;
        far.remove(partner.index_code(), &gone);
        proof {
            let done = partners@.subrange(0, i as int);
            let done_next = partners@.subrange(0, i + 1);
            assert(done_next =~= done.push(partner));
            assert forall|b: B|
                #![trigger far.related(b.code())]
                far.related(b.code()) == if done_next.contains(b) {
                    old(far).related(b.code()).remove(gone)
                } else {
                    old(far).related(b.code())
                } by {
                if b == partner {
                    assert(done_next[i as int] == b);
                    assert(far.related(b.code()) == before.related(b.code()).remove(gone));
                    assert(before.related(b.code()).remove(gone) =~= old(far).related(
                        b.code(),
                    ).remove(gone));
                } else {
                    lemma_codes_differ(b, partner);
                    assert(far.row(b.code()) == before.row(b.code()));
                    assert(far.related(b.code()) == before.related(b.code()));
                    if done_next.contains(b) {
                        let at = choose|at: int| 0 <= at < done_next.len() && done_next[at] == b;
                        assert(done[at] == b);
                    }
                    if done.contains(b) {
                        let at = choose|at: int| 0 <= at < done.len() && done[at] == b;
                        assert(done_next[at] == b);
                    }
                }
            }
        }
        i += 1;
    }
    proof {
        assert(partners@.subrange(0, i as int) =~= partners@);
        assert forall|a: A, b: B|
            far.related(b.code()).contains(a) == (old(far).related(b.code()).contains(a) && a
                != gone) by {
            if !partners@.contains(b) {
                assert(!old(near).related(gone.code()).contains(b));
            }
        }
        assert forall|a: A, b: B| #[trigger]
            near.related(a.code()).contains(b) == (old(near).related(a.code()).contains(b) && a
                != gone) by {
            if a != gone {
                lemma_codes_differ(a, gone);
            }
        }
    }
    partners
}

impl View for SubscriptionRegistry {
    type V = Set<(PropertyId, ConnectionKey)>;

    /// The subscriptions: each a property and a connection that wants to hear
    /// of it.
    closed spec fn view(&self) -> Set<(PropertyId, ConnectionKey)> {
        Set::new(
            |pair: (PropertyId, ConnectionKey)|
                self.by_property.related(pair.0.code()).contains(pair.1),
        )
    }
}

impl SubscriptionRegistry {
    /// Both directions are sound and hold the same subscriptions.
    pub closed spec fn wf(&self) -> bool {
        &&& self.by_property.wf()
        &&& self.by_connection.wf()
        &&& agree(self.by_property, self.by_connection)
    }

    /// The connections subscribed to `property`.
    pub open spec fn subscribers(&self, property: PropertyId) -> Set<ConnectionKey> {
        Set::new(|connection: ConnectionKey| self@.contains((property, connection)))
    }

    /// The properties `connection` is subscribed to.
    pub open spec fn subscriptions(&self, connection: ConnectionKey) -> Set<PropertyId> {
        Set::new(|property: PropertyId| self@.contains((property, connection)))
    }

    /// A registry without subscriptions.
    pub fn new() -> (registry: Self)
        ensures
            registry.wf(),
            registry@ == Set::<(PropertyId, ConnectionKey)>::empty(),
    {
        let registry = SubscriptionRegistry {
            by_property: Index::new(),
            by_connection: Index::new(),
        };
        assert(registry@ =~= Set::<(PropertyId, ConnectionKey)>::empty());
        registry
    }

    /// Whether `connection` is subscribed to `property`.
    pub fn is_subscribed(&self, property: PropertyId, connection: ConnectionKey) -> (subscribed:
        bool)
        ensures
            subscribed == self@.contains((property, connection)),
    {
        self.by_property.contains(property.index_code(), &connection)
    }

    /// The connections subscribed to `property`, each once.
    pub fn subscribers_of(&self, property: PropertyId) -> (connections: Vec<ConnectionKey>)
        requires
            self.wf(),
        ensures
            connections@.no_duplicates(),
            connections@.to_set() == self.subscribers(property),
    {
        let connections = self.by_property.list(property.index_code());
        proof {
            self.by_property.lemma_rows_have_no_repeats(property.code());
            assert(connections@.to_set() =~= self.subscribers(property));
        }
        connections
    }

    /// The properties `connection` is subscribed to, each once.
    pub fn subscriptions_of(&self, connection: ConnectionKey) -> (properties: Vec<PropertyId>)
        requires
            self.wf(),
        ensures
            properties@.no_duplicates(),
            properties@.to_set() == self.subscriptions(connection),
    {
        let properties = self.by_connection.list(connection.index_code());
        proof {
            self.by_connection.lemma_rows_have_no_repeats(connection.code());
            assert(properties@.to_set() =~= self.subscriptions(connection));
        }
        properties
    }

    /// Subscribes `connection` to `property`, and says whether that is new.
    /// Subscribing again changes nothing.
    pub fn subscribe(&mut self, property: PropertyId, connection: ConnectionKey) -> (added: bool)
        requires
            old(self).wf(),
        ensures
            final(self).wf(),
            final(self)@ == old(self)@.insert((property, connection)),
            added == !old(self)@.contains((property, connection)),
    {
        let added = self.by_property.insert(property.index_code(), connection);
        self.by_connection.insert(connection.index_code(), property);
        proof {
            assert forall|p: PropertyId, c: ConnectionKey|
                final(self).by_property.related(p.code()).contains(c) == (old(
                    self,
                ).by_property.related(p.code()).contains(c) || (p == property && c
                    == connection)) by {
                if p != property {
                    lemma_codes_differ(p, property);
                }
            }
            assert forall|p: PropertyId, c: ConnectionKey|
                final(self).by_connection.related(c.code()).contains(p) == (old(
                    self,
                ).by_connection.related(c.code()).contains(p) || (p == property && c
                    == connection)) by {
                if c != connection {
                    lemma_codes_differ(c, connection);
                }
            }
            assert(final(self)@ =~= old(self)@.insert((property, connection)));
        }
        added
    }

    /// Ends the subscription of `connection` to `property`, and says whether
    /// there was one. Ending what is not there changes nothing.
    pub fn unsubscribe(&mut self, property: PropertyId, connection: ConnectionKey) -> (removed:
        bool)
        requires
            old(self).wf(),
        ensures
            final(self).wf(),
            final(self)@ == old(self)@.remove((property, connection)),
            removed == old(self)@.contains((property, connection)),
    {
        let removed = self.by_property.remove(property.index_code(), &connection);
        self.by_connection.remove(connection.index_code(), &property);
        proof {
            assert forall|p: PropertyId, c: ConnectionKey|
                final(self).by_property.related(p.code()).contains(c) == (old(
                    self,
                ).by_property.related(p.code()).contains(c) && !(p == property && c
                    == connection)) by {
                if p != property {
                    lemma_codes_differ(p, property);
                }
            }
            assert forall|p: PropertyId, c: ConnectionKey|
                final(self).by_connection.related(c.code()).contains(p) == (old(
                    self,
                ).by_connection.related(c.code()).contains(p) && !(p == property && c
                    == connection)) by {
                if c != connection {
                    lemma_codes_differ(c, connection);
                }
            }
            assert(final(self)@ =~= old(self)@.remove((property, connection)));
        }
        removed
    }

    /// Ends every subscription of `connection`, and hands over the properties
    /// it was subscribed to, each once.
    pub fn remove_connection(&mut self, connection: ConnectionKey) -> (properties: Vec<PropertyId>)
        requires
            old(self).wf(),
        ensures
            final(self).wf(),
            final(self)@ == old(self)@.filter(
                |pair: (PropertyId, ConnectionKey)| pair.1 != connection,
            ),
            properties@.no_duplicates(),
            properties@.to_set() == old(self).subscriptions(connection),
    {
        let properties = strike(&mut self.by_connection, &mut self.by_property, connection);
        proof {
            assert(properties@.to_set() =~= old(self).subscriptions(connection));
            assert(final(self)@ =~= old(self)@.filter(
                |pair: (PropertyId, ConnectionKey)| pair.1 != connection,
            ));
        }
        properties
    }

    /// Ends every subscription to `property`, and hands over the connections
    /// that were subscribed to it, each once.
    pub fn remove_property(&mut self, property: PropertyId) -> (connections: Vec<ConnectionKey>)
        requires
            old(self).wf(),
        ensures
            final(self).wf(),
            final(self)@ == old(self)@.filter(
                |pair: (PropertyId, ConnectionKey)| pair.0 != property,
            ),
            connections@.no_duplicates(),
            connections@.to_set() == old(self).subscribers(property),
    {
        let connections = strike(&mut self.by_property, &mut self.by_connection, property);
        proof {
            assert(connections@.to_set() =~= old(self).subscribers(property));
            assert(final(self)@ =~= old(self)@.filter(
                |pair: (PropertyId, ConnectionKey)| pair.0 != property,
            ));
        }
        connections
    }
}

} // verus!
