//! Identities of connections and of properties.

use vstd::prelude::*;

verus! {

/// An identity that can stand as one integer: what the registries index by.
pub trait Identity: Sized + Copy {
    /// The identity as one integer.
    spec fn code(&self) -> u128;

    /// Two identities with the same code are the same identity.
    proof fn lemma_code_injective(a: Self, b: Self)
        requires
            a.code() == b.code(),
        ensures
            a == b,
    ;

    /// The identity as one integer.
    fn index_code(&self) -> (code: u128)
        ensures
            code == self.code(),
    ;

    /// Whether two identities are the same.
    fn same(&self, other: &Self) -> (same: bool)
        ensures
            same == (*self == *other),
    ;
}

/// The identity of one registered connection: an arena slot together with the
/// generation the slot had when the connection was registered. A slot hands
/// out each generation at most once, so a key that has gone stale never
/// names a later connection.
#[derive(Clone, Copy, Debug, PartialEq, Eq, Hash, Structural)]
pub struct ConnectionKey {
    pub(crate) slot: usize,
    pub(crate) generation: u64,
}

/// The identity of one property: the entity that owns it and which of the
/// entity's attributes it is.
#[derive(Clone, Copy, Debug, PartialEq, Eq, Hash, Structural)]
pub struct PropertyId {
    pub entity: u32,
    pub attribute: u32,
}

impl ConnectionKey {
    /// The arena slot the key points into.
    pub closed spec fn spec_slot(&self) -> usize {
        self.slot
    }

    /// The generation of the slot that the key belongs to.
    pub closed spec fn spec_generation(&self) -> u64 {
        self.generation
    }

    #[verifier::when_used_as_spec(spec_slot)]
    pub fn slot(&self) -> (slot: usize)
        ensures
            slot == self.spec_slot(),
    {
        self.slot
    }

    #[verifier::when_used_as_spec(spec_generation)]
    pub fn generation(&self) -> (generation: u64)
        ensures
            generation == self.spec_generation(),
    {
        self.generation
    }
}

impl Identity for ConnectionKey {
    closed spec fn code(&self) -> u128 {
        (self.slot * 0x1_0000_0000_0000_0000 + self.generation) as u128
    }

    proof fn lemma_code_injective(a: Self, b: Self) {
    }

    fn index_code(&self) -> (code: u128) {
        let high: u128 = self.slot as u128;
        let low: u128 = self.generation as u128;
        high * 0x1_0000_0000_0000_0000u128 + low
    }

    fn same(&self, other: &Self) -> (same: bool) {
        self.slot == other.slot && self.generation == other.generation
    }
}

impl PropertyId {
    /// The identity of the given attribute of the given entity.
    pub fn new(entity: u32, attribute: u32) -> (id: PropertyId)
        ensures
            id == (PropertyId { entity, attribute }),
    {
        PropertyId { entity, attribute }
    }
}

impl Identity for PropertyId {
    open spec fn code(&self) -> u128 {
        (self.entity * 0x1_0000_0000 + self.attribute) as u128
    }

    proof fn lemma_code_injective(a: Self, b: Self) {
    }

    fn index_code(&self) -> (code: u128) {
        let high: u128 = self.entity as u128;
        let low: u128 = self.attribute as u128;
        high * 0x1_0000_0000u128 + low
    }

    fn same(&self, other: &Self) -> (same: bool) {
        self.entity == other.entity && self.attribute == other.attribute
    }
}

} // verus!
