//! Integer values of 8 to 64 bits, signed or unsigned, compared by the
//! number they stand for whatever their width and signedness.

use std::num::TryFromIntError;

use vstd::prelude::*;
use vstd::std_specs::cmp::PartialEqSpecImpl;
use vstd::std_specs::convert::{FromSpecImpl, TryFromSpecImpl};

verus! {

/// Represents a signed integer number.
#[derive(Copy, Clone, Debug)]
pub enum SignedIntValue {
    /// 8-bit value.
    I8(i8),
    /// 16-bit value.
    I16(i16),
    /// 32-bit value.
    I32(i32),
    /// 64-bit value.
    I64(i64),
}

/// Represents an unsigned integer number.
#[derive(Copy, Clone, Debug)]
pub enum UnsignedIntValue {
    /// 8-bit value.
    U8(u8),
    /// 16-bit value.
    U16(u16),
    /// 32-bit value.
    U32(u32),
    /// 64-bit value.
    U64(u64),
}

/// Represents an integer number.
#[derive(Copy, Clone, Debug)]
pub enum IntValue {
    Signed(SignedIntValue),
    Unsigned(UnsignedIntValue),
}

/// The result of comparing two integer values.
#[derive(Copy, Clone, Debug, PartialEq, Eq, Structural)]
pub enum IntOrder {
    Less,
    Equal,
    Greater,
}

/// The order of two integers.
pub open spec fn int_order_of(x: int, y: int) -> IntOrder {
    if x < y {
        IntOrder::Less
    } else if x == y {
        IntOrder::Equal
    } else {
        IntOrder::Greater
    }
}

impl SignedIntValue {
    /// The number that the value stands for.
    pub open spec fn value(self) -> int {
        match self {
            SignedIntValue::I8(v) => v as int,
            SignedIntValue::I16(v) => v as int,
            SignedIntValue::I32(v) => v as int,
            SignedIntValue::I64(v) => v as int,
        }
    }

    /// The unsigned value of the same width, when the number is not
    /// negative.
    pub open spec fn unsigned_of(self) -> Option<UnsignedIntValue> {
        match self {
            SignedIntValue::I8(v) => if v >= 0 {
                Some(UnsignedIntValue::U8(v as u8))
            } else {
                None
            },
            SignedIntValue::I16(v) => if v >= 0 {
                Some(UnsignedIntValue::U16(v as u16))
            } else {
                None
            },
            SignedIntValue::I32(v) => if v >= 0 {
                Some(UnsignedIntValue::U32(v as u32))
            } else {
                None
            },
            SignedIntValue::I64(v) => if v >= 0 {
                Some(UnsignedIntValue::U64(v as u64))
            } else {
                None
            },
        }
    }

    /// Attempts to convert the value into an unsigned value of the same
    /// width; fails when the number is negative.
    pub fn to_unsigned(self) -> (r: Result<UnsignedIntValue, TryFromIntError>)
        ensures
            r is Ok <==> self.value() >= 0,
            r matches Ok(u) ==> Some(u) == self.unsigned_of(),
    {
        match self {
            SignedIntValue::I8(signed) => match u8::try_from(signed) {
                Ok(v) => Ok(UnsignedIntValue::U8(v)),
                Err(e) => Err(e),
            },
            SignedIntValue::I16(signed) => match u16::try_from(signed) {
                Ok(v) => Ok(UnsignedIntValue::U16(v)),
                Err(e) => Err(e),
            },
            SignedIntValue::I32(signed) => match u32::try_from(signed) {
                Ok(v) => Ok(UnsignedIntValue::U32(v)),
                Err(e) => Err(e),
            },
            SignedIntValue::I64(signed) => match u64::try_from(signed) {
                Ok(v) => Ok(UnsignedIntValue::U64(v)),
                Err(e) => Err(e),
            },
        }
    }

    /// The number as a 64-bit integer.
    pub fn canonicalized(&self) -> (r: i64)
        ensures
            r as int == self.value(),
    {
        match *self {
            SignedIntValue::I8(value) => value as i64,
            SignedIntValue::I16(value) => value as i64,
            SignedIntValue::I32(value) => value as i64,
            SignedIntValue::I64(value) => value,
        }
    }
}

impl UnsignedIntValue {
    /// The number that the value stands for.
    pub open spec fn value(self) -> int {
        match self {
            UnsignedIntValue::U8(v) => v as int,
            UnsignedIntValue::U16(v) => v as int,
            UnsignedIntValue::U32(v) => v as int,
            UnsignedIntValue::U64(v) => v as int,
        }
    }

    /// The signed value of the narrowest width, starting at the same one,
    /// that holds the number, if any does.
    pub open spec fn signed_of(self) -> Option<SignedIntValue> {
        match self {
            UnsignedIntValue::U8(v) => if v <= 0x7f {
                Some(SignedIntValue::I8(v as i8))
            } else {
                Some(SignedIntValue::I16(v as i16))
            },
            UnsignedIntValue::U16(v) => if v <= 0x7fff {
                Some(SignedIntValue::I16(v as i16))
            } else {
                Some(SignedIntValue::I32(v as i32))
            },
            UnsignedIntValue::U32(v) => if v <= 0x7fff_ffff {
                Some(SignedIntValue::I32(v as i32))
            } else {
                Some(SignedIntValue::I64(v as i64))
            },
            UnsignedIntValue::U64(v) => if v <= 0x7fff_ffff_ffff_ffff {
                Some(SignedIntValue::I64(v as i64))
            } else {
                None
            },
        }
    }

    /// Attempts to convert the value into a signed value, widening it when
    /// the number does not fit the signed type of the same width; fails
    /// only for 64-bit numbers above `i64::MAX`.
    pub fn to_signed(self) -> (r: Result<SignedIntValue, TryFromIntError>)
        ensures
            r is Ok <==> self.value() <= i64::MAX,
            r matches Ok(s) ==> Some(s) == self.signed_of(),
    {
        match self {
            UnsignedIntValue::U8(unsigned) => if unsigned <= 0x7f {
                Ok(SignedIntValue::I8(unsigned as i8))
            } else {
                Ok(SignedIntValue::I16(unsigned as i16))
            },
            UnsignedIntValue::U16(unsigned) => if unsigned <= 0x7fff {
                Ok(SignedIntValue::I16(unsigned as i16))
            } else {
                Ok(SignedIntValue::I32(unsigned as i32))
            },
            UnsignedIntValue::U32(unsigned) => if unsigned <= 0x7fff_ffff {
                Ok(SignedIntValue::I32(unsigned as i32))
            } else {
                Ok(SignedIntValue::I64(unsigned as i64))
            },
            UnsignedIntValue::U64(unsigned) => match i64::try_from(u128::from(unsigned)) {
                Ok(v) => Ok(SignedIntValue::I64(v)),
                Err(e) => Err(e),
            },
        }
    }

    /// The number as a 64-bit integer.
    pub fn canonicalized(&self) -> (r: u64)
        ensures
            r as int == self.value(),
    {
        match *self {
            UnsignedIntValue::U8(value) => value as u64,
            UnsignedIntValue::U16(value) => value as u64,
            UnsignedIntValue::U32(value) => value as u64,
            UnsignedIntValue::U64(value) => value,
        }
    }
}

impl IntValue {
    /// The number that the value stands for.
    pub open spec fn value(self) -> int {
        match self {
            IntValue::Signed(v) => v.value(),
            IntValue::Unsigned(v) => v.value(),
        }
    }

    /// Whether the value is of a signed type.
    pub fn is_signed(&self) -> (r: bool)
        ensures
            r == (*self is Signed),
    {
        match self {
            IntValue::Signed(_) => true,
            IntValue::Unsigned(_) => false,
        }
    }

    /// Compares the numbers that two values stand for.
    pub fn compare(&self, other: &Self) -> (r: IntOrder)
        ensures
            r == int_order_of(self.value(), other.value()),
    {
        match (self, other) {
            (IntValue::Unsigned(lhs), IntValue::Unsigned(rhs)) => {
                let (l, r) = (lhs.canonicalized(), rhs.canonicalized());
                if l < r {
                    IntOrder::Less
                } else if l == r {
                    IntOrder::Equal
                } else {
                    IntOrder::Greater
                }
            },
            (IntValue::Signed(lhs), IntValue::Signed(rhs)) => {
                let (l, r) = (lhs.canonicalized(), rhs.canonicalized());
                if l < r {
                    IntOrder::Less
                } else if l == r {
                    IntOrder::Equal
                } else {
                    IntOrder::Greater
                }
            },
            (IntValue::Unsigned(lhs), IntValue::Signed(rhs)) => {
                let (l, r) = (lhs.canonicalized(), rhs.canonicalized());
                if r < 0 {
                    IntOrder::Greater
                } else if l < r as u64 {
                    IntOrder::Less
                } else if l == r as u64 {
                    IntOrder::Equal
                } else {
                    IntOrder::Greater
                }
            },
            (IntValue::Signed(lhs), IntValue::Unsigned(rhs)) => {
                let (l, r) = (lhs.canonicalized(), rhs.canonicalized());
                if l < 0 {
                    IntOrder::Less
                } else if (l as u64) < r {
                    IntOrder::Less
                } else if l as u64 == r {
                    IntOrder::Equal
                } else {
                    IntOrder::Greater
                }
            },
        }
    }
}

impl SignedIntValue {
    /// Compares the numbers that two values stand for.
    pub fn compare(&self, other: &Self) -> (r: IntOrder)
        ensures
            r == int_order_of(self.value(), other.value()),
    {
        let (l, r) = (self.canonicalized(), other.canonicalized());
        if l < r {
            IntOrder::Less
        } else if l == r {
            IntOrder::Equal
        } else {
            IntOrder::Greater
        }
    }
}

impl UnsignedIntValue {
    /// Compares the numbers that two values stand for.
    pub fn compare(&self, other: &Self) -> (r: IntOrder)
        ensures
            r == int_order_of(self.value(), other.value()),
    {
        let (l, r) = (self.canonicalized(), other.canonicalized());
        if l < r {
            IntOrder::Less
        } else if l == r {
            IntOrder::Equal
        } else {
            IntOrder::Greater
        }
    }
}

impl Default for SignedIntValue {
    fn default() -> (r: Self)
        ensures
            r == SignedIntValue::I8(0),
    {
        SignedIntValue::I8(0)
    }
}

impl Default for UnsignedIntValue {
    fn default() -> (r: Self)
        ensures
            r == UnsignedIntValue::U8(0),
    {
        UnsignedIntValue::U8(0)
    }
}

impl Default for IntValue {
    fn default() -> (r: Self)
        ensures
            r == IntValue::Unsigned(UnsignedIntValue::U8(0)),
    {
        IntValue::Unsigned(UnsignedIntValue::default())
    }
}

impl PartialEq for SignedIntValue {
    fn eq(&self, other: &Self) -> (r: bool) {
        self.canonicalized() == other.canonicalized()
    }
}

impl PartialEqSpecImpl for SignedIntValue {
    open spec fn obeys_eq_spec() -> bool {
        true
    }

    open spec fn eq_spec(&self, other: &Self) -> bool {
        self.value() == other.value()
    }
}

impl Eq for SignedIntValue {}

impl PartialEq for UnsignedIntValue {
    fn eq(&self, other: &Self) -> (r: bool) {
        self.canonicalized() == other.canonicalized()
    }
}

impl PartialEqSpecImpl for UnsignedIntValue {
    open spec fn obeys_eq_spec() -> bool {
        true
    }

    open spec fn eq_spec(&self, other: &Self) -> bool {
        self.value() == other.value()
    }
}

impl Eq for UnsignedIntValue {}

impl PartialEq for IntValue {
    fn eq(&self, other: &Self) -> (r: bool) {
        match (self, other) {
            (IntValue::Signed(lhs), IntValue::Signed(rhs)) => lhs.eq(rhs),
            (IntValue::Signed(lhs), IntValue::Unsigned(rhs)) => {
                let lhs = lhs.canonicalized();
                let rhs = rhs.canonicalized();
                if lhs < 0 {
                    false
                } else {
                    (lhs as u64) == rhs
                }
            },
            (IntValue::Unsigned(lhs), IntValue::Signed(rhs)) => {
                let lhs = lhs.canonicalized();
                let rhs = rhs.canonicalized();
                if rhs < 0 {
                    false
                } else {
                    lhs == (rhs as u64)
                }
            },
            (IntValue::Unsigned(lhs), IntValue::Unsigned(rhs)) => lhs.eq(rhs),
        }
    }
}

impl PartialEqSpecImpl for IntValue {
    open spec fn obeys_eq_spec() -> bool {
        true
    }

    open spec fn eq_spec(&self, other: &Self) -> bool {
        self.value() == other.value()
    }
}

impl Eq for IntValue {}

/// Conversions between signed and unsigned values keep the number: one to
/// unsigned exists exactly for numbers that are not negative, one to signed
/// exactly for numbers up to `i64::MAX`, and converting back gives a value
/// equal to the first.
pub proof fn lemma_sign_conversions_keep_value(s: SignedIntValue, u: UnsignedIntValue)
    ensures
        s.unsigned_of() is Some <==> s.value() >= 0,
        s.unsigned_of() matches Some(x) ==> x.value() == s.value(),
        u.signed_of() is Some <==> u.value() <= i64::MAX,
        u.signed_of() matches Some(y) ==> y.value() == u.value(),
        s.unsigned_of() matches Some(x) ==> (x.signed_of() matches Some(y) && y.value()
            == s.value()),
{
}

impl From<i8> for SignedIntValue {
    fn from(value: i8) -> (r: Self) {
        SignedIntValue::I8(value)
    }
}

impl FromSpecImpl<i8> for SignedIntValue {
    open spec fn obeys_from_spec() -> bool {
        true
    }

    open spec fn from_spec(v: i8) -> Self {
        SignedIntValue::I8(v)
    }
}

impl From<i16> for SignedIntValue {
    fn from(value: i16) -> (r: Self) {
        SignedIntValue::I16(value)
    }
}

impl FromSpecImpl<i16> for SignedIntValue {
    open spec fn obeys_from_spec() -> bool {
        true
    }

    open spec fn from_spec(v: i16) -> Self {
        SignedIntValue::I16(v)
    }
}

impl From<i32> for SignedIntValue {
    fn from(value: i32) -> (r: Self) {
        SignedIntValue::I32(value)
    }
}

impl FromSpecImpl<i32> for SignedIntValue {
    open spec fn obeys_from_spec() -> bool {
        true
    }

    open spec fn from_spec(v: i32) -> Self {
        SignedIntValue::I32(v)
    }
}

impl From<i64> for SignedIntValue {
    fn from(value: i64) -> (r: Self) {
        SignedIntValue::I64(value)
    }
}

impl FromSpecImpl<i64> for SignedIntValue {
    open spec fn obeys_from_spec() -> bool {
        true
    }

    open spec fn from_spec(v: i64) -> Self {
        SignedIntValue::I64(v)
    }
}

impl From<u8> for UnsignedIntValue {
    fn from(value: u8) -> (r: Self) {
        UnsignedIntValue::U8(value)
    }
}

impl FromSpecImpl<u8> for UnsignedIntValue {
    open spec fn obeys_from_spec() -> bool {
        true
    }

    open spec fn from_spec(v: u8) -> Self {
        UnsignedIntValue::U8(v)
    }
}

impl From<u16> for UnsignedIntValue {
    fn from(value: u16) -> (r: Self) {
        UnsignedIntValue::U16(value)
    }
}

impl FromSpecImpl<u16> for UnsignedIntValue {
    open spec fn obeys_from_spec() -> bool {
        true
    }

    open spec fn from_spec(v: u16) -> Self {
        UnsignedIntValue::U16(v)
    }
}

impl From<u32> for UnsignedIntValue {
    fn from(value: u32) -> (r: Self) {
        UnsignedIntValue::U32(value)
    }
}

impl FromSpecImpl<u32> for UnsignedIntValue {
    open spec fn obeys_from_spec() -> bool {
        true
    }

    open spec fn from_spec(v: u32) -> Self {
        UnsignedIntValue::U32(v)
    }
}

impl From<u64> for UnsignedIntValue {
    fn from(value: u64) -> (r: Self) {
        UnsignedIntValue::U64(value)
    }
}

impl FromSpecImpl<u64> for UnsignedIntValue {
    open spec fn obeys_from_spec() -> bool {
        true
    }

    open spec fn from_spec(v: u64) -> Self {
        UnsignedIntValue::U64(v)
    }
}

impl From<i8> for IntValue {
    fn from(value: i8) -> (r: Self) {
        IntValue::Signed(SignedIntValue::I8(value))
    }
}

impl FromSpecImpl<i8> for IntValue {
    open spec fn obeys_from_spec() -> bool {
        true
    }

    open spec fn from_spec(v: i8) -> Self {
        IntValue::Signed(SignedIntValue::I8(v))
    }
}

impl From<i16> for IntValue {
    fn from(value: i16) -> (r: Self) {
        IntValue::Signed(SignedIntValue::I16(value))
    }
}

impl FromSpecImpl<i16> for IntValue {
    open spec fn obeys_from_spec() -> bool {
        true
    }

    open spec fn from_spec(v: i16) -> Self {
        IntValue::Signed(SignedIntValue::I16(v))
    }
}

impl From<i32> for IntValue {
    fn from(value: i32) -> (r: Self) {
        IntValue::Signed(SignedIntValue::I32(value))
    }
}

impl FromSpecImpl<i32> for IntValue {
    open spec fn obeys_from_spec() -> bool {
        true
    }

    open spec fn from_spec(v: i32) -> Self {
        IntValue::Signed(SignedIntValue::I32(v))
    }
}

impl From<i64> for IntValue {
    fn from(value: i64) -> (r: Self) {
        IntValue::Signed(SignedIntValue::I64(value))
    }
}

impl FromSpecImpl<i64> for IntValue {
    open spec fn obeys_from_spec() -> bool {
        true
    }

    open spec fn from_spec(v: i64) -> Self {
        IntValue::Signed(SignedIntValue::I64(v))
    }
}

impl From<u8> for IntValue {
    fn from(value: u8) -> (r: Self) {
        IntValue::Unsigned(UnsignedIntValue::U8(value))
    }
}

impl FromSpecImpl<u8> for IntValue {
    open spec fn obeys_from_spec() -> bool {
        true
    }

    open spec fn from_spec(v: u8) -> Self {
        IntValue::Unsigned(UnsignedIntValue::U8(v))
    }
}

impl From<u16> for IntValue {
    fn from(value: u16) -> (r: Self) {
        IntValue::Unsigned(UnsignedIntValue::U16(value))
    }
}

impl FromSpecImpl<u16> for IntValue {
    open spec fn obeys_from_spec() -> bool {
        true
    }

    open spec fn from_spec(v: u16) -> Self {
        IntValue::Unsigned(UnsignedIntValue::U16(v))
    }
}

impl From<u32> for IntValue {
    fn from(value: u32) -> (r: Self) {
        IntValue::Unsigned(UnsignedIntValue::U32(value))
    }
}

impl FromSpecImpl<u32> for IntValue {
    open spec fn obeys_from_spec() -> bool {
        true
    }

    open spec fn from_spec(v: u32) -> Self {
        IntValue::Unsigned(UnsignedIntValue::U32(v))
    }
}

impl From<u64> for IntValue {
    fn from(value: u64) -> (r: Self) {
        IntValue::Unsigned(UnsignedIntValue::U64(value))
    }
}

impl FromSpecImpl<u64> for IntValue {
    open spec fn obeys_from_spec() -> bool {
        true
    }

    open spec fn from_spec(v: u64) -> Self {
        IntValue::Unsigned(UnsignedIntValue::U64(v))
    }
}

impl TryFrom<SignedIntValue> for i8 {
    type Error = TryFromIntError;

    fn try_from(value: SignedIntValue) -> (r: Result<i8, TryFromIntError>) {
        match value {
            SignedIntValue::I8(v) => Ok(v),
            SignedIntValue::I16(v) => i8::try_from(v),
            SignedIntValue::I32(v) => i8::try_from(v),
            SignedIntValue::I64(v) => i8::try_from(v),
        }
    }
}

impl TryFromSpecImpl<SignedIntValue> for i8 {
    open spec fn obeys_try_from_spec() -> bool {
        true
    }

    open spec fn try_from_spec(v: SignedIntValue) -> Result<i8, TryFromIntError> {
        if i8::MIN <= v.value() <= i8::MAX {
            Ok(v.value() as i8)
        } else {
            Err(arbitrary())
        }
    }
}

impl TryFrom<SignedIntValue> for i16 {
    type Error = TryFromIntError;

    fn try_from(value: SignedIntValue) -> (r: Result<i16, TryFromIntError>) {
        match value {
            SignedIntValue::I8(v) => Ok(i16::from(v)),
            SignedIntValue::I16(v) => Ok(v),
            SignedIntValue::I32(v) => i16::try_from(v),
            SignedIntValue::I64(v) => i16::try_from(v),
        }
    }
}

impl TryFromSpecImpl<SignedIntValue> for i16 {
    open spec fn obeys_try_from_spec() -> bool {
        true
    }

    open spec fn try_from_spec(v: SignedIntValue) -> Result<i16, TryFromIntError> {
        if i16::MIN <= v.value() <= i16::MAX {
            Ok(v.value() as i16)
        } else {
            Err(arbitrary())
        }
    }
}

impl TryFrom<SignedIntValue> for i32 {
    type Error = TryFromIntError;

    fn try_from(value: SignedIntValue) -> (r: Result<i32, TryFromIntError>) {
        match value {
            SignedIntValue::I8(v) => Ok(i32::from(v)),
            SignedIntValue::I16(v) => Ok(i32::from(v)),
            SignedIntValue::I32(v) => Ok(v),
            SignedIntValue::I64(v) => i32::try_from(v),
        }
    }
}

impl TryFromSpecImpl<SignedIntValue> for i32 {
    open spec fn obeys_try_from_spec() -> bool {
        true
    }

    open spec fn try_from_spec(v: SignedIntValue) -> Result<i32, TryFromIntError> {
        if i32::MIN <= v.value() <= i32::MAX {
            Ok(v.value() as i32)
        } else {
            Err(arbitrary())
        }
    }
}

impl TryFrom<SignedIntValue> for i64 {
    type Error = TryFromIntError;

    fn try_from(value: SignedIntValue) -> (r: Result<i64, TryFromIntError>) {
        match value {
            SignedIntValue::I8(v) => Ok(i64::from(v)),
            SignedIntValue::I16(v) => Ok(i64::from(v)),
            SignedIntValue::I32(v) => Ok(i64::from(v)),
            SignedIntValue::I64(v) => Ok(v),
        }
    }
}

impl TryFromSpecImpl<SignedIntValue> for i64 {
    open spec fn obeys_try_from_spec() -> bool {
        true
    }

    open spec fn try_from_spec(v: SignedIntValue) -> Result<i64, TryFromIntError> {
        if i64::MIN <= v.value() <= i64::MAX {
            Ok(v.value() as i64)
        } else {
            Err(arbitrary())
        }
    }
}

impl TryFrom<SignedIntValue> for isize {
    type Error = TryFromIntError;

    fn try_from(value: SignedIntValue) -> (r: Result<isize, TryFromIntError>) {
        match value {
            SignedIntValue::I8(v) => Ok(isize::from(v)),
            SignedIntValue::I16(v) => Ok(isize::from(v)),
            SignedIntValue::I32(v) => isize::try_from(v),
            SignedIntValue::I64(v) => isize::try_from(v),
        }
    }
}

impl TryFromSpecImpl<SignedIntValue> for isize {
    open spec fn obeys_try_from_spec() -> bool {
        true
    }

    open spec fn try_from_spec(v: SignedIntValue) -> Result<isize, TryFromIntError> {
        if isize::MIN <= v.value() <= isize::MAX {
            Ok(v.value() as isize)
        } else {
            Err(arbitrary())
        }
    }
}

impl TryFrom<UnsignedIntValue> for u8 {
    type Error = TryFromIntError;

    fn try_from(value: UnsignedIntValue) -> (r: Result<u8, TryFromIntError>) {
        match value {
            UnsignedIntValue::U8(v) => Ok(v),
            UnsignedIntValue::U16(v) => u8::try_from(v),
            UnsignedIntValue::U32(v) => u8::try_from(v),
            UnsignedIntValue::U64(v) => u8::try_from(v),
        }
    }
}

impl TryFromSpecImpl<UnsignedIntValue> for u8 {
    open spec fn obeys_try_from_spec() -> bool {
        true
    }

    open spec fn try_from_spec(v: UnsignedIntValue) -> Result<u8, TryFromIntError> {
        if u8::MIN <= v.value() <= u8::MAX {
            Ok(v.value() as u8)
        } else {
            Err(arbitrary())
        }
    }
}

impl TryFrom<UnsignedIntValue> for u16 {
    type Error = TryFromIntError;

    fn try_from(value: UnsignedIntValue) -> (r: Result<u16, TryFromIntError>) {
        match value {
            UnsignedIntValue::U8(v) => Ok(u16::from(v)),
            UnsignedIntValue::U16(v) => Ok(v),
            UnsignedIntValue::U32(v) => u16::try_from(v),
            UnsignedIntValue::U64(v) => u16::try_from(v),
        }
    }
}

impl TryFromSpecImpl<UnsignedIntValue> for u16 {
    open spec fn obeys_try_from_spec() -> bool {
        true
    }

    open spec fn try_from_spec(v: UnsignedIntValue) -> Result<u16, TryFromIntError> {
        if u16::MIN <= v.value() <= u16::MAX {
            Ok(v.value() as u16)
        } else {
            Err(arbitrary())
        }
    }
}

impl TryFrom<UnsignedIntValue> for u32 {
    type Error = TryFromIntError;

    fn try_from(value: UnsignedIntValue) -> (r: Result<u32, TryFromIntError>) {
        match value {
            UnsignedIntValue::U8(v) => Ok(u32::from(v)),
            UnsignedIntValue::U16(v) => Ok(u32::from(v)),
            UnsignedIntValue::U32(v) => Ok(v),
            UnsignedIntValue::U64(v) => u32::try_from(v),
        }
    }
}

impl TryFromSpecImpl<UnsignedIntValue> for u32 {
    open spec fn obeys_try_from_spec() -> bool {
        true
    }

    open spec fn try_from_spec(v: UnsignedIntValue) -> Result<u32, TryFromIntError> {
        if u32::MIN <= v.value() <= u32::MAX {
            Ok(v.value() as u32)
        } else {
            Err(arbitrary())
        }
    }
}

impl TryFrom<UnsignedIntValue> for u64 {
    type Error = TryFromIntError;

    fn try_from(value: UnsignedIntValue) -> (r: Result<u64, TryFromIntError>) {
        match value {
            UnsignedIntValue::U8(v) => Ok(u64::from(v)),
            UnsignedIntValue::U16(v) => Ok(u64::from(v)),
            UnsignedIntValue::U32(v) => Ok(u64::from(v)),
            UnsignedIntValue::U64(v) => Ok(v),
        }
    }
}

impl TryFromSpecImpl<UnsignedIntValue> for u64 {
    open spec fn obeys_try_from_spec() -> bool {
        true
    }

    open spec fn try_from_spec(v: UnsignedIntValue) -> Result<u64, TryFromIntError> {
        if u64::MIN <= v.value() <= u64::MAX {
            Ok(v.value() as u64)
        } else {
            Err(arbitrary())
        }
    }
}

impl TryFrom<UnsignedIntValue> for usize {
    type Error = TryFromIntError;

    fn try_from(value: UnsignedIntValue) -> (r: Result<usize, TryFromIntError>) {
        match value {
            UnsignedIntValue::U8(v) => Ok(usize::from(v)),
            UnsignedIntValue::U16(v) => Ok(usize::from(v)),
            UnsignedIntValue::U32(v) => usize::try_from(v),
            UnsignedIntValue::U64(v) => usize::try_from(v),
        }
    }
}

impl TryFromSpecImpl<UnsignedIntValue> for usize {
    open spec fn obeys_try_from_spec() -> bool {
        true
    }

    open spec fn try_from_spec(v: UnsignedIntValue) -> Result<usize, TryFromIntError> {
        if usize::MIN <= v.value() <= usize::MAX {
            Ok(v.value() as usize)
        } else {
            Err(arbitrary())
        }
    }
}

} // verus!
