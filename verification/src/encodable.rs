//! The values that cross the network boundary, and their byte form.

use vstd::prelude::*;
use vstd::bytes::*;
use vstd::string::*;
use vstd::utf8::*;

verus! {

broadcast use vstd::std_specs::vec::axiom_vec_index_decreases;

/// First byte of an encoded whole number.
pub const TAG_INT: u8 = 1;

/// First byte of an encoded binary64 number.
pub const TAG_FLOAT: u8 = 2;

/// First byte of an encoded truth value.
pub const TAG_BOOL: u8 = 3;

/// First byte of an encoded text.
pub const TAG_TEXT: u8 = 4;

/// First byte of an encoded row of values.
pub const TAG_LIST: u8 = 5;

/// A value that can be sent to a client or received from one.
#[derive(Debug, PartialEq, Eq)]
pub enum Encodable {
    /// A whole number.
    Int(i64),
    /// A binary64 number, carried as its bit pattern.
    Float(u64),
    /// A truth value.
    Bool(bool),
    /// A text.
    Text(String),
    /// Values in a row.
    List(Vec<Encodable>),
}

/// A value as plain mathematics.
pub enum Value {
    Int(i64),
    Float(u64),
    Bool(bool),
    Text(Seq<char>),
    List(Seq<Value>),
}

/// The kinds of value there are.
#[derive(Clone, Copy, Debug, PartialEq, Eq, Structural)]
pub enum ValueKind {
    Int,
    Float,
    Bool,
    Text,
    List,
}

/// What a value holds, as plain mathematics.
pub open spec fn value_of(value: Encodable) -> Value
    decreases value,
{
    match value {
        Encodable::Int(number) => Value::Int(number),
        Encodable::Float(bits) => Value::Float(bits),
        Encodable::Bool(truth) => Value::Bool(truth),
        Encodable::Text(text) => Value::Text(text@),
        Encodable::List(items) => Value::List(
            Seq::new(
                items@.len(),
                |i: int|
                    if 0 <= i < items@.len() {
                        value_of(items@[i])
                    } else {
                        Value::Bool(false)
                    },
            ),
        ),
    }
}

impl View for Encodable {
    type V = Value;

    open spec fn view(&self) -> Value {
        value_of(*self)
    }
}

impl Value {
    /// The kind this value is of.
    pub open spec fn kind(self) -> ValueKind {
        match self {
            Value::Int(_) => ValueKind::Int,
            Value::Float(_) => ValueKind::Float,
            Value::Bool(_) => ValueKind::Bool,
            Value::Text(_) => ValueKind::Text,
            Value::List(_) => ValueKind::List,
        }
    }
}

/// The bytes of a length or count: eight bytes, lowest first.
pub open spec fn length_bytes(length: nat) -> Seq<u8> {
    spec_u64_to_le_bytes(length as u64)
}

/// The byte form of a value: a tag for its kind, then what it holds. Numbers
/// take eight bytes, lowest first; a text is its length in bytes and its UTF-8
/// form; a row is the number of its items and their byte forms one after
/// another.
pub open spec fn encoding(value: Value) -> Seq<u8>
    decreases value, 0nat,
{
    match value {
        Value::Int(number) => seq![TAG_INT] + spec_u64_to_le_bytes(number as u64),
        Value::Float(bits) => seq![TAG_FLOAT] + spec_u64_to_le_bytes(bits),
        Value::Bool(truth) => seq![TAG_BOOL, if truth { 1u8 } else { 0u8 }],
        Value::Text(text) => seq![TAG_TEXT] + length_bytes(encode_utf8(text).len())
            + encode_utf8(text),
        Value::List(items) => seq![TAG_LIST] + length_bytes(items.len()) + encoding_of_first(
            items,
            items.len(),
        ),
    }
}

/// The byte forms of the first `count` of `items`, one after another.
pub open spec fn encoding_of_first(items: Seq<Value>, count: nat) -> Seq<u8>
    decreases items, count,
{
    if count == 0 || count > items.len() {
        Seq::empty()
    } else {
        encoding_of_first(items, (count - 1) as nat) + encoding(items[count - 1])
    }
}

impl Encodable {
    /// The kind this value is of.
    pub fn kind(&self) -> (kind: ValueKind)
        ensures
            kind == self@.kind(),
    {
        match self {
            Encodable::Int(_) => ValueKind::Int,
            Encodable::Float(_) => ValueKind::Float,
            Encodable::Bool(_) => ValueKind::Bool,
            Encodable::Text(_) => ValueKind::Text,
            Encodable::List(_) => ValueKind::List,
        }
    }

    /// A second value that holds the same as this one.
    #[verifier::loop_isolation(false)]
    pub fn duplicate(&self) -> (twin: Encodable)
        ensures
            twin@ == self@,
        decreases self,
    {
        match self {
            Encodable::Int(number) => Encodable::Int(*number),
            Encodable::Float(bits) => Encodable::Float(*bits),
            Encodable::Bool(truth) => Encodable::Bool(*truth),
            Encodable::Text(text) => Encodable::Text(text.clone()),
            Encodable::List(items) => {
                let mut twins: Vec<Encodable> = Vec::new();
                let mut i: usize = 0;
                while i < items.len()
                    invariant
                        i <= items.len(),
                        twins@.len() == i,
                        forall|j: int| 0 <= j < i ==> (#[trigger] twins@[j])@ == items@[j]@,
                    decreases items.len() - i,
                {
                    let twin = items[i].duplicate();
                    twins.push(twin);
                    i += 1;
                }
                let twin = Encodable::List(twins);
                assert(twin@->List_0 =~= self@->List_0);
                twin
            },
        }
    }

    /// Appends the byte form of this value to `out`.
    #[verifier::loop_isolation(false)]
    pub fn encode_into(&self, out: &mut Vec<u8>)
        ensures
            final(out)@ == old(out)@ + encoding(self@),
        decreases self,
    {
        match self {
            Encodable::Int(number) => {
                out.push(TAG_INT);
                let mut bytes = u64_to_le_bytes(#[verifier::truncate] (*number as u64));
                out.append(&mut bytes);
            },
            Encodable::Float(bits) => {
                out.push(TAG_FLOAT);
                let mut bytes = u64_to_le_bytes(*bits);
                out.append(&mut bytes);
            },
            Encodable::Bool(truth) => {
                out.push(TAG_BOOL);
                out.push(if *truth { 1u8 } else { 0u8 });
            },
            Encodable::Text(text) => {
                out.push(TAG_TEXT);
                let mut utf8 = text.as_str().as_bytes_vec();
                let mut length = u64_to_le_bytes(utf8.len() as u64);
                out.append(&mut length);
                out.append(&mut utf8);
            },
            Encodable::List(items) => {
                out.push(TAG_LIST);
                let mut length = u64_to_le_bytes(items.len() as u64);
                out.append(&mut length);
                let ghost head = out@;
                let ghost values = self@->List_0;
                let mut i: usize = 0;
                while i < items.len()
                    invariant
                        i <= items.len(),
                        values.len() == items@.len(),
                        forall|j: int| 0 <= j < items@.len() ==> values[j] == items@[j]@,
                        out@ == head + encoding_of_first(values, i as nat),
                    decreases items.len() - i,
                {
                    items[i].encode_into(out);
                    i += 1;
                }
            },
        }
        assert(final(out)@ =~= old(out)@ + encoding(self@));
    }

    /// The byte form of this value.
    pub fn encode(&self) -> (bytes: Vec<u8>)
        ensures
            bytes@ == encoding(self@),
    {
        let mut bytes: Vec<u8> = Vec::new();
        self.encode_into(&mut bytes);
        bytes
    }
}

} // verus!
