//! Properties: the attributes of entities that clients can watch and change.

use vstd::prelude::*;
use vstd::string::*;
use vstd::utf8::*;
use crate::encodable::Encodable;
use crate::encodable::Value;
use crate::identity::ConnectionKey;
use crate::identity::PropertyId;
use crate::state::State;

verus! {

/// Why a property was not read or written.
#[derive(Clone, Copy, Debug, PartialEq, Eq, Structural)]
pub enum PropertyError {
    /// The value is not one the property takes.
    InvalidValue,
    /// The property was finalized, or was never created.
    PropertyGone,
    /// The property is live already, and cannot be created.
    AlreadyExists,
}

/// Why a connection was not subscribed.
#[derive(Clone, Copy, Debug, PartialEq, Eq, Structural)]
pub enum SubscriptionError {
    /// The property was finalized.
    PropertyGone,
}

/// The values a property takes.
#[derive(Clone, Copy, Debug, PartialEq, Eq, Structural)]
pub enum Domain {
    /// Whole numbers from `min` to `max`, both included.
    Int { min: i64, max: i64 },
    /// Binary64 numbers.
    Float,
    /// Truth values.
    Bool,
    /// Texts of at most `max_len` bytes of UTF-8.
    Text { max_len: usize },
    /// Rows of at most `max_len` values.
    List { max_len: usize },
}

impl PropertyError {
    /// The error in words.
    pub open spec fn text(self) -> Seq<char> {
        match self {
            PropertyError::InvalidValue => "value is not one the property takes"@,
            PropertyError::PropertyGone => "property is gone"@,
            PropertyError::AlreadyExists => "property exists already"@,
        }
    }

    /// The error in words.
    pub fn message(&self) -> (message: String)
        ensures
            message@ == self.text(),
    {
        match self {
            PropertyError::InvalidValue => String::from_str("value is not one the property takes"),
            PropertyError::PropertyGone => String::from_str("property is gone"),
            PropertyError::AlreadyExists => String::from_str("property exists already"),
        }
    }
}

impl SubscriptionError {
    /// The error in words.
    pub open spec fn text(self) -> Seq<char> {
        "property is gone"@
    }

    /// The error in words.
    pub fn message(&self) -> (message: String)
        ensures
            message@ == self.text(),
    {
        String::from_str("property is gone")
    }
}

impl Domain {
    /// Whether `value` is in the domain.
    pub open spec fn admits(self, value: Value) -> bool {
        match (self, value) {
            (Domain::Int { min, max }, Value::Int(number)) => min <= number <= max,
            (Domain::Float, Value::Float(_)) => true,
            (Domain::Bool, Value::Bool(_)) => true,
            (Domain::Text { max_len }, Value::Text(text)) => encode_utf8(text).len() <= max_len,
            (Domain::List { max_len }, Value::List(items)) => items.len() <= max_len,
            _ => false,
        }
    }

    /// Whether `value` is in the domain.
    pub fn accepts(&self, value: &Encodable) -> (accepted: bool)
        ensures
            accepted == self.admits(value@),
    {
        match (self, value) {
            (Domain::Int { min, max }, Encodable::Int(number)) => *min <= *number && *number
                <= *max,
            (Domain::Float, Encodable::Float(_)) => true,
            (Domain::Bool, Encodable::Bool(_)) => true,
            (Domain::Text { max_len }, Encodable::Text(text)) => text.as_str().as_bytes().len()
                <= *max_len,
            (Domain::List { max_len }, Encodable::List(items)) => items.len() <= *max_len,
            _ => false,
        }
    }
}

/// One attribute of an entity, as the simulation and the clients see it.
///
/// Whoever implements the trait says which property it is and which values
/// it takes; reading, writing, subscribing and finalizing are then done on
/// the shared state.
pub trait Property {
    /// Which property this is.
    spec fn id(&self) -> PropertyId;

    /// Whether the property takes `value`.
    spec fn admits(&self, value: Value) -> bool;

    /// Which property this is.
    fn identity(&self) -> (id: PropertyId)
        ensures
            id == self.id(),
    ;

    /// Whether the property takes `value`.
    fn accepts(&self, value: &Encodable) -> (accepted: bool)
        ensures
            accepted == self.admits(value@),
    ;

    /// Brings the property to life, holding `initial`. A value that the
    /// property does not take is refused, and so is a property that was
    /// finalized or is live already; nothing changes then.
    fn create(&self, state: &mut State, initial: Encodable) -> (created: Result<(), PropertyError>)
        requires
            old(state).wf(),
        ensures
            final(state).wf(),
            created == if !self.admits(initial@) {
                Err::<(), PropertyError>(PropertyError::InvalidValue)
            } else if old(state)@.gone.contains(self.id()) {
                Err::<(), PropertyError>(PropertyError::PropertyGone)
            } else if old(state)@.values.contains_key(self.id()) {
                Err::<(), PropertyError>(PropertyError::AlreadyExists)
            } else {
                Ok::<(), PropertyError>(())
            },
            final(state)@ == if created is Ok {
                old(state)@.after_create(self.id(), initial@)
            } else {
                old(state)@
            },
    {
        let id = self.identity();
        if !self.accepts(&initial) {
            Err(PropertyError::InvalidValue)
        } else if state.is_gone(id) {
            Err(PropertyError::PropertyGone)
        } else if state.create(id, initial) {
            Ok(())
        } else {
            Err(PropertyError::AlreadyExists)
        }
    }

    /// The value the property holds.
    fn get_value(&self, state: &State) -> (value: Result<Encodable, PropertyError>)
        ensures
            match value {
                Ok(value) => state@.values.contains_key(self.id()) && value@
                    == state@.values[self.id()],
                Err(error) => !state@.values.contains_key(self.id()) && error
                    == PropertyError::PropertyGone,
            },
    {
        match state.read(self.identity()) {
            Some(value) => Ok(value),
            None => Err(PropertyError::PropertyGone),
        }
    }

    /// Gives the property a new value and notifies each subscriber once. A
    /// value that the property does not take is refused, and nothing changes.
    fn set_value(&self, state: &mut State, value: Encodable) -> (set: Result<(), PropertyError>)
        requires
            old(state).wf(),
        ensures
            final(state).wf(),
            set == if !old(state)@.values.contains_key(self.id()) {
                Err::<(), PropertyError>(PropertyError::PropertyGone)
            } else if !self.admits(value@) {
                Err::<(), PropertyError>(PropertyError::InvalidValue)
            } else {
                Ok::<(), PropertyError>(())
            },
            final(state)@ == if set is Ok {
                old(state)@.after_write(self.id(), value@)
            } else {
                old(state)@
            },
    {
        let id = self.identity();
        if !state.is_live(id) {
            Err(PropertyError::PropertyGone)
        } else if !self.accepts(&value) {
            Err(PropertyError::InvalidValue)
        } else {
            state.write(id, value);
            Ok(())
        }
    }

    /// Subscribes `subscriber` to the property. Subscribing again changes
    /// nothing.
    fn subscribe(&self, state: &mut State, subscriber: ConnectionKey) -> (subscribed: Result<
        (),
        SubscriptionError,
    >)
        requires
            old(state).wf(),
        ensures
            final(state).wf(),
            subscribed == if old(state)@.values.contains_key(self.id()) {
                Ok::<(), SubscriptionError>(())
            } else {
                Err::<(), SubscriptionError>(SubscriptionError::PropertyGone)
            },
            final(state)@ == old(state)@.after_subscribe(self.id(), subscriber),
    {
        if state.subscribe(self.identity(), subscriber) {
            Ok(())
        } else {
            Err(SubscriptionError::PropertyGone)
        }
    }

    /// Ends the subscription of `subscriber` to the property. Ending what is
    /// not there changes nothing, and is no error.
    fn unsubscribe(&self, state: &mut State, subscriber: ConnectionKey) -> (unsubscribed: Result<
        (),
        SubscriptionError,
    >)
        requires
            old(state).wf(),
        ensures
            final(state).wf(),
            unsubscribed == Ok::<(), SubscriptionError>(()),
            final(state)@ == old(state)@.after_unsubscribe(self.id(), subscriber),
    {
        state.unsubscribe(self.identity(), subscriber);
        Ok(())
    }

    /// Ends the property for good: each subscriber is notified once of the
    /// removal, the subscriptions end and the value is forgotten.
    fn finalize(&self, state: &mut State)
        requires
            old(state).wf(),
        ensures
            final(state).wf(),
            final(state)@ == old(state)@.after_finalize(self.id()),
    {
        state.retire(self.identity());
    }
}

/// A property that takes the values of one domain.
#[derive(Clone, Copy, Debug, PartialEq, Eq, Structural)]
pub struct Attribute {
    id: PropertyId,
    domain: Domain,
}

impl Attribute {
    /// The domain of the attribute.
    pub closed spec fn domain(&self) -> Domain {
        self.domain
    }

    /// The handle to the property `id`, which takes the values of `domain`.
    /// The property comes to life when it is created in a state.
    pub fn new(id: PropertyId, domain: Domain) -> (attribute: Attribute)
        ensures
            attribute.id() == id,
            attribute.domain() == domain,
    {
        Attribute { id, domain }
    }
}

impl Property for Attribute {
    closed spec fn id(&self) -> PropertyId {
        self.id
    }

    open spec fn admits(&self, value: Value) -> bool {
        self.domain().admits(value)
    }

    fn identity(&self) -> (id: PropertyId) {
        self.id
    }

    fn accepts(&self, value: &Encodable) -> (accepted: bool) {
        self.domain.accepts(value)
    }
}

} // verus!
