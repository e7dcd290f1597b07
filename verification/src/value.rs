//! The scalar values of the lilliput data model: bytes, unit, booleans,
//! null, strings and integers.

pub mod integer;
pub mod integer_order;
pub mod integer_laws;
pub mod display;

use vstd::prelude::*;
use vstd::std_specs::convert::FromSpecImpl;

verus! {

/// Represents a byte sequence.
#[derive(Default, Clone, Eq, PartialEq, Ord, PartialOrd, Hash, Debug)]
pub struct BytesValue(pub Vec<u8>);

impl BytesValue {
    /// Returns the bytes as a slice.
    pub fn as_slice(&self) -> (r: &[u8])
        ensures
            r@ == self.0@,
    {
        self.0.as_slice()
    }

    /// Returns the bytes, consuming `self`.
    pub fn into_vec(self) -> (r: Vec<u8>)
        ensures
            r@ == self.0@,
    {
        self.0
    }
}

impl From<Vec<u8>> for BytesValue {
    fn from(value: Vec<u8>) -> (r: Self) {
        Self(value)
    }
}

impl FromSpecImpl<Vec<u8>> for BytesValue {
    open spec fn obeys_from_spec() -> bool {
        true
    }

    open spec fn from_spec(v: Vec<u8>) -> Self {
        BytesValue(v)
    }
}

impl From<BytesValue> for Vec<u8> {
    fn from(value: BytesValue) -> (r: Self) {
        value.0
    }
}

impl FromSpecImpl<BytesValue> for Vec<u8> {
    open spec fn obeys_from_spec() -> bool {
        true
    }

    open spec fn from_spec(v: BytesValue) -> Self {
        v.0
    }
}

/// Represents a unit value.
#[derive(Default, Copy, Clone, Eq, PartialEq, Ord, PartialOrd, Hash, Debug)]
pub struct UnitValue(pub ());

impl From<()> for UnitValue {
    fn from(value: ()) -> (r: Self) {
        Self(value)
    }
}

impl FromSpecImpl<()> for UnitValue {
    open spec fn obeys_from_spec() -> bool {
        true
    }

    open spec fn from_spec(v: ()) -> Self {
        UnitValue(v)
    }
}

/// Represents a boolean.
#[derive(Default, Copy, Clone, Eq, PartialEq, Ord, PartialOrd, Hash, Debug, Structural)]
pub struct BoolValue(pub bool);

impl From<bool> for BoolValue {
    fn from(value: bool) -> (r: Self) {
        Self(value)
    }
}

impl FromSpecImpl<bool> for BoolValue {
    open spec fn obeys_from_spec() -> bool {
        true
    }

    open spec fn from_spec(v: bool) -> Self {
        BoolValue(v)
    }
}

impl From<BoolValue> for bool {
    fn from(value: BoolValue) -> (r: Self) {
        value.0
    }
}

impl FromSpecImpl<BoolValue> for bool {
    open spec fn obeys_from_spec() -> bool {
        true
    }

    open spec fn from_spec(v: BoolValue) -> Self {
        v.0
    }
}

/// Represents a null value.
#[derive(Default, Copy, Clone, Eq, PartialEq, Ord, PartialOrd, Hash, Debug, Structural)]
pub struct NullValue;

impl From<()> for NullValue {
    fn from(value: ()) -> (r: Self) {
        NullValue
    }
}

impl FromSpecImpl<()> for NullValue {
    open spec fn obeys_from_spec() -> bool {
        true
    }

    open spec fn from_spec(v: ()) -> Self {
        NullValue
    }
}

/// Represents a string.
#[derive(Default, Clone, Eq, PartialEq, Ord, PartialOrd, Hash, Debug)]
pub struct StringValue(pub String);

impl StringValue {
    /// Returns a reference to the internal string.
    pub fn as_str(&self) -> (r: &str)
        ensures
            r@ == self.0@,
    {
        self.0.as_str()
    }

    /// Returns the internal string, consuming `self`.
    pub fn into_string(self) -> (r: String)
        ensures
            r@ == self.0@,
    {
        self.0
    }

    /// Returns the length of the internal string in bytes (of its UTF-8
    /// encoding).
    pub fn len(&self) -> (r: usize)
        ensures
            r == vstd::utf8::encode_utf8(self.0@).len(),
    {
        self.0.as_str().as_bytes().len()
    }

    /// Returns `true`, if the internal string is empty, otherwise `false`.
    pub fn is_empty(&self) -> (r: bool)
        ensures
            r == (self.0@.len() == 0),
    {
        self.0.as_str().is_empty()
    }
}

/// A string is empty exactly when its UTF-8 encoding is, so `is_empty`
/// agrees with `len() == 0`.
pub proof fn lemma_string_len_is_empty(s: StringValue)
    ensures
        (vstd::utf8::encode_utf8(s.0@).len() == 0) == (s.0@.len() == 0),
{
    let chars = s.0@;
    if chars.len() > 0 {
        let first = vstd::utf8::encode_scalar(chars[0] as u32);
        assert(first.len() >= 1);
        assert(vstd::utf8::encode_utf8(chars) == first + vstd::utf8::encode_utf8(
            chars.drop_first(),
        ));
    }
}

impl From<String> for StringValue {
    fn from(value: String) -> (r: Self) {
        Self(value)
    }
}

impl FromSpecImpl<String> for StringValue {
    open spec fn obeys_from_spec() -> bool {
        true
    }

    open spec fn from_spec(v: String) -> Self {
        StringValue(v)
    }
}

impl From<StringValue> for String {
    fn from(value: StringValue) -> (r: Self) {
        value.0
    }
}

impl FromSpecImpl<StringValue> for String {
    open spec fn obeys_from_spec() -> bool {
        true
    }

    open spec fn from_spec(v: StringValue) -> Self {
        v.0
    }
}

} // verus!
