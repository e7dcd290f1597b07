//! Conversions between the float types and their big-endian byte
//! encodings, which hold exactly the bytes of the format (no padding).

use vstd::arithmetic::power2::*;
use vstd::prelude::*;

use crate::bits::{FpFromBits, FpToBits};
use crate::floats::{F16, F24, F32, F40, F48, F56, F64, F8};

verus! {

/// The number that a big-endian byte sequence encodes.
pub open spec fn be_value(bytes: Seq<u8>) -> nat
    decreases bytes.len(),
{
    if bytes.len() == 0 {
        0
    } else {
        be_value(bytes.drop_last()) * 256 + bytes.last() as nat
    }
}

/// The `n` low-order bytes of `x`, most significant first.
pub open spec fn be_seq(x: nat, n: nat) -> Seq<u8>
    decreases n,
{
    if n == 0 {
        Seq::empty()
    } else {
        be_seq(x / 256, (n - 1) as nat).push((x % 256) as u8)
    }
}

/// Encoding the low bytes and reading them back gives `x` modulo `2^(8n)`.
pub proof fn lemma_be_value_of_seq(x: nat, n: nat)
    ensures
        be_seq(x, n).len() == n,
        be_value(be_seq(x, n)) == x % pow2(8 * n),
    decreases n,
{
    if n == 0 {
        lemma2_to64();
    } else {
        lemma_be_value_of_seq(x / 256, (n - 1) as nat);
        let s = be_seq(x, n);
        assert(s.drop_last() =~= be_seq(x / 256, (n - 1) as nat));
        let p = pow2(8 * (n - 1) as nat);
        lemma_pow2_pos(8 * (n - 1) as nat);
        lemma2_to64();
        lemma_pow2_adds(8, 8 * (n - 1) as nat);
        assert(pow2(8 * n) == 256 * p);
        // x % (256 * p) == 256 * ((x / 256) % p) + x % 256
        vstd::arithmetic::div_mod::lemma_mod_breakdown(x as int, 256, p as int);
        vstd::arithmetic::mul::lemma_mul_is_commutative(256, ((x / 256) % p) as int);
    }
}

/// A byte sequence is the encoding of the number it encodes.
pub proof fn lemma_be_seq_of_value(bytes: Seq<u8>)
    ensures
        be_seq(be_value(bytes), bytes.len()) == bytes,
        be_value(bytes) < pow2(8 * bytes.len()),
    decreases bytes.len(),
{
    lemma2_to64();
    if bytes.len() > 0 {
        let init = bytes.drop_last();
        lemma_be_seq_of_value(init);
        let v = be_value(bytes);
        let vi = be_value(init);
        assert(v / 256 == vi && v % 256 == bytes.last()) by {
            vstd::arithmetic::div_mod::lemma_fundamental_div_mod_converse(
                v as int,
                256,
                vi as int,
                bytes.last() as int,
            );
        }
        assert(be_seq(v, bytes.len()) =~= bytes);
        lemma_pow2_adds(8, 8 * init.len());
        assert(pow2(8 * bytes.len()) == 256 * pow2(8 * init.len()));
    }
}

/// Reads a big-endian byte sequence of at most 8 bytes.
pub fn be_bytes_to_u64(bytes: &[u8]) -> (r: u64)
    requires
        bytes@.len() <= 8,
    ensures
        r == be_value(bytes@),
{
    let mut acc: u64 = 0;
    let mut i: usize = 0;
    proof {
        lemma2_to64();
    }
    while i < bytes.len()
        invariant
            i <= bytes@.len() <= 8,
            acc == be_value(bytes@.take(i as int)),
            acc < pow2(8 * i as nat),
        decreases bytes@.len() - i,
    {
        proof {
            let t = bytes@.take(i as int + 1);
            assert(t.drop_last() =~= bytes@.take(i as int));
            lemma2_to64();
            lemma2_to64_rest();
            lemma_pow2_adds(8, 8 * i as nat);
            if i < 7 {
                lemma_pow2_strictly_increases(8 * i as nat, 56);
            }
            assert(pow2(8 * (i + 1) as nat) == 256 * pow2(8 * i as nat));
        }
        acc = acc * 256 + bytes[i] as u64;
        i = i + 1;
    }
    proof {
        assert(bytes@.take(i as int) =~= bytes@);
    }
    acc
}

/// The `n` low-order bytes of `x`, most significant first.
pub fn u64_to_be_bytes(x: u64, n: usize) -> (r: Vec<u8>)
    requires
        n <= 8,
    ensures
        r@ == be_seq(x as nat, n as nat),
    decreases n,
{
    if n == 0 {
        Vec::new()
    } else {
        let mut v = u64_to_be_bytes(x / 256, n - 1);
        v.push((x % 256) as u8);
        v
    }
}

/// Construction of a float type from its big-endian bytes.
pub trait FpFromBeBytes: Sized + View<V = nat> {
    type Bytes;

    /// The bytes held by a value of `Self::Bytes`.
    spec fn byte_seq(bytes: Self::Bytes) -> Seq<u8>;

    /// Returns the float whose bit pattern the bytes encode, big-endian.
    fn from_be_bytes(be_bytes: Self::Bytes) -> (r: Self)
        ensures
            r@ == be_value(Self::byte_seq(be_bytes)),
    ;
}

/// The big-endian bytes of a float type.
pub trait FpToBeBytes: Sized + View<V = nat> {
    type Bytes;

    /// The bytes held by a value of `Self::Bytes`.
    spec fn byte_seq(bytes: Self::Bytes) -> Seq<u8>;

    /// The number of bytes of the format.
    spec fn byte_width() -> nat;

    /// Returns the bytes of the format of `self`, most significant first.
    fn to_be_bytes(self) -> (r: Self::Bytes)
        ensures
            Self::byte_seq(r) == be_seq(self@, Self::byte_width()),
    ;
}

impl FpFromBeBytes for F8 {
    type Bytes = [u8; 1];

    open spec fn byte_seq(bytes: [u8; 1]) -> Seq<u8> {
        bytes@
    }

    fn from_be_bytes(be_bytes: [u8; 1]) -> (r: Self) {
        let v = be_bytes_to_u64(be_bytes.as_slice());
        proof {
            lemma_be_seq_of_value(be_bytes@);
            lemma2_to64();
            lemma2_to64_rest();
        }
        F8::from_bits(v as u8)
    }
}

impl FpToBeBytes for F8 {
    type Bytes = [u8; 1];

    open spec fn byte_seq(bytes: [u8; 1]) -> Seq<u8> {
        bytes@
    }

    open spec fn byte_width() -> nat {
        1
    }

    fn to_be_bytes(self) -> (r: [u8; 1]) {
        let bits = self.to_bits();
        let v = u64_to_be_bytes(bits as u64, 1);
        proof {
            lemma_be_value_of_seq(bits as nat, 1);
        }
        let r = [v[0]];
        proof {
            assert(r@ =~= v@);
        }
        r
    }
}

impl FpFromBeBytes for F16 {
    type Bytes = [u8; 2];

    open spec fn byte_seq(bytes: [u8; 2]) -> Seq<u8> {
        bytes@
    }

    fn from_be_bytes(be_bytes: [u8; 2]) -> (r: Self) {
        let v = be_bytes_to_u64(be_bytes.as_slice());
        proof {
            lemma_be_seq_of_value(be_bytes@);
            lemma2_to64();
            lemma2_to64_rest();
        }
        F16::from_bits(v as u16)
    }
}

impl FpToBeBytes for F16 {
    type Bytes = [u8; 2];

    open spec fn byte_seq(bytes: [u8; 2]) -> Seq<u8> {
        bytes@
    }

    open spec fn byte_width() -> nat {
        2
    }

    fn to_be_bytes(self) -> (r: [u8; 2]) {
        let bits = self.to_bits();
        let v = u64_to_be_bytes(bits as u64, 2);
        proof {
            lemma_be_value_of_seq(bits as nat, 2);
        }
        let r = [v[0], v[1]];
        proof {
            assert(r@ =~= v@);
        }
        r
    }
}

impl FpFromBeBytes for F24 {
    type Bytes = [u8; 3];

    open spec fn byte_seq(bytes: [u8; 3]) -> Seq<u8> {
        bytes@
    }

    fn from_be_bytes(be_bytes: [u8; 3]) -> (r: Self) {
        let v = be_bytes_to_u64(be_bytes.as_slice());
        proof {
            lemma_be_seq_of_value(be_bytes@);
            lemma2_to64();
            lemma2_to64_rest();
        }
        F24::from_bits(v as u32)
    }
}

impl FpToBeBytes for F24 {
    type Bytes = [u8; 3];

    open spec fn byte_seq(bytes: [u8; 3]) -> Seq<u8> {
        bytes@
    }

    open spec fn byte_width() -> nat {
        3
    }

    fn to_be_bytes(self) -> (r: [u8; 3]) {
        let bits = self.to_bits();
        let v = u64_to_be_bytes(bits as u64, 3);
        proof {
            lemma_be_value_of_seq(bits as nat, 3);
        }
        let r = [v[0], v[1], v[2]];
        proof {
            assert(r@ =~= v@);
        }
        r
    }
}

impl FpFromBeBytes for F32 {
    type Bytes = [u8; 4];

    open spec fn byte_seq(bytes: [u8; 4]) -> Seq<u8> {
        bytes@
    }

    fn from_be_bytes(be_bytes: [u8; 4]) -> (r: Self) {
        let v = be_bytes_to_u64(be_bytes.as_slice());
        proof {
            lemma_be_seq_of_value(be_bytes@);
            lemma2_to64();
            lemma2_to64_rest();
        }
        F32::from_bits(v as u32)
    }
}

impl FpToBeBytes for F32 {
    type Bytes = [u8; 4];

    open spec fn byte_seq(bytes: [u8; 4]) -> Seq<u8> {
        bytes@
    }

    open spec fn byte_width() -> nat {
        4
    }

    fn to_be_bytes(self) -> (r: [u8; 4]) {
        let bits = self.to_bits();
        let v = u64_to_be_bytes(bits as u64, 4);
        proof {
            lemma_be_value_of_seq(bits as nat, 4);
        }
        let r = [v[0], v[1], v[2], v[3]];
        proof {
            assert(r@ =~= v@);
        }
        r
    }
}

impl FpFromBeBytes for F40 {
    type Bytes = [u8; 5];

    open spec fn byte_seq(bytes: [u8; 5]) -> Seq<u8> {
        bytes@
    }

    fn from_be_bytes(be_bytes: [u8; 5]) -> (r: Self) {
        let v = be_bytes_to_u64(be_bytes.as_slice());
        proof {
            lemma_be_seq_of_value(be_bytes@);
            lemma2_to64();
            lemma2_to64_rest();
        }
        F40::from_bits(v)
    }
}

impl FpToBeBytes for F40 {
    type Bytes = [u8; 5];

    open spec fn byte_seq(bytes: [u8; 5]) -> Seq<u8> {
        bytes@
    }

    open spec fn byte_width() -> nat {
        5
    }

    fn to_be_bytes(self) -> (r: [u8; 5]) {
        let bits = self.to_bits();
        let v = u64_to_be_bytes(bits as u64, 5);
        proof {
            lemma_be_value_of_seq(bits as nat, 5);
        }
        let r = [v[0], v[1], v[2], v[3], v[4]];
        proof {
            assert(r@ =~= v@);
        }
        r
    }
}

impl FpFromBeBytes for F48 {
    type Bytes = [u8; 6];

    open spec fn byte_seq(bytes: [u8; 6]) -> Seq<u8> {
        bytes@
    }

    fn from_be_bytes(be_bytes: [u8; 6]) -> (r: Self) {
        let v = be_bytes_to_u64(be_bytes.as_slice());
        proof {
            lemma_be_seq_of_value(be_bytes@);
            lemma2_to64();
            lemma2_to64_rest();
        }
        F48::from_bits(v)
    }
}

impl FpToBeBytes for F48 {
    type Bytes = [u8; 6];

    open spec fn byte_seq(bytes: [u8; 6]) -> Seq<u8> {
        bytes@
    }

    open spec fn byte_width() -> nat {
        6
    }

    fn to_be_bytes(self) -> (r: [u8; 6]) {
        let bits = self.to_bits();
        let v = u64_to_be_bytes(bits as u64, 6);
        proof {
            lemma_be_value_of_seq(bits as nat, 6);
        }
        let r = [v[0], v[1], v[2], v[3], v[4], v[5]];
        proof {
            assert(r@ =~= v@);
        }
        r
    }
}

impl FpFromBeBytes for F56 {
    type Bytes = [u8; 7];

    open spec fn byte_seq(bytes: [u8; 7]) -> Seq<u8> {
        bytes@
    }

    fn from_be_bytes(be_bytes: [u8; 7]) -> (r: Self) {
        let v = be_bytes_to_u64(be_bytes.as_slice());
        proof {
            lemma_be_seq_of_value(be_bytes@);
            lemma2_to64();
            lemma2_to64_rest();
        }
        F56::from_bits(v)
    }
}

impl FpToBeBytes for F56 {
    type Bytes = [u8; 7];

    open spec fn byte_seq(bytes: [u8; 7]) -> Seq<u8> {
        bytes@
    }

    open spec fn byte_width() -> nat {
        7
    }

    fn to_be_bytes(self) -> (r: [u8; 7]) {
        let bits = self.to_bits();
        let v = u64_to_be_bytes(bits as u64, 7);
        proof {
            lemma_be_value_of_seq(bits as nat, 7);
        }
        let r = [v[0], v[1], v[2], v[3], v[4], v[5], v[6]];
        proof {
            assert(r@ =~= v@);
        }
        r
    }
}

impl FpFromBeBytes for F64 {
    type Bytes = [u8; 8];

    open spec fn byte_seq(bytes: [u8; 8]) -> Seq<u8> {
        bytes@
    }

    fn from_be_bytes(be_bytes: [u8; 8]) -> (r: Self) {
        let v = be_bytes_to_u64(be_bytes.as_slice());
        proof {
            lemma_be_seq_of_value(be_bytes@);
            lemma2_to64();
            lemma2_to64_rest();
        }
        F64::from_bits(v)
    }
}

impl FpToBeBytes for F64 {
    type Bytes = [u8; 8];

    open spec fn byte_seq(bytes: [u8; 8]) -> Seq<u8> {
        bytes@
    }

    open spec fn byte_width() -> nat {
        8
    }

    fn to_be_bytes(self) -> (r: [u8; 8]) {
        let bits = self.to_bits();
        let v = u64_to_be_bytes(bits as u64, 8);
        proof {
            lemma_be_value_of_seq(bits as nat, 8);
        }
        let r = [v[0], v[1], v[2], v[3], v[4], v[5], v[6], v[7]];
        proof {
            assert(r@ =~= v@);
        }
        r
    }
}

/// Reading back the bytes of a float gives the float back, for any value
/// whose bit pattern fits the format.
pub proof fn lemma_be_bytes_roundtrip(x: nat, n: nat)
    requires
        x < pow2(8 * n),
    ensures
        be_value(be_seq(x, n)) == x,
{
    lemma_be_value_of_seq(x, n);
    vstd::arithmetic::div_mod::lemma_small_mod(x, pow2(8 * n));
}

} // verus!
