//! The text forms of the scalar values: what they show when displayed, and
//! their debug form, plain or alternate.

use crate::text::{
    append_binary, append_hex_byte, binary_digits, decimal_digits, digit_value, digits_value,
    hex_alphabet, hex_digit_char, int_text, lemma_binary_digits_read_back, lemma_hex_digit_char,
    signed_text, unsigned_text,
};
use crate::value::integer::{IntValue, SignedIntValue, UnsignedIntValue};
use crate::value::{BoolValue, BytesValue, NullValue, StringValue, UnitValue};
use vstd::prelude::*;

verus! {

impl SignedIntValue {
    /// The name of the value's primitive type, such as `i8`.
    pub open spec fn width_name(self) -> Seq<char> {
        match self {
            SignedIntValue::I8(_) => seq!['i', '8'],
            SignedIntValue::I16(_) => seq!['i', '1', '6'],
            SignedIntValue::I32(_) => seq!['i', '3', '2'],
            SignedIntValue::I64(_) => seq!['i', '6', '4'],
        }
    }

    /// The number as an `i64`, which holds every width.
    fn widest(&self) -> (r: i64)
        ensures
            r as int == self.value(),
    {
        match *self {
            SignedIntValue::I8(v) => v as i64,
            SignedIntValue::I16(v) => v as i64,
            SignedIntValue::I32(v) => v as i64,
            SignedIntValue::I64(v) => v,
        }
    }

    /// The decimal text of the number.
    pub fn to_display_string(&self) -> (r: String)
        ensures
            r@ == int_text(self.value()),
    {
        signed_text(self.widest())
    }

    /// The debug text: the decimal number, followed in the alternate form
    /// by `_` and the type's name (`42_i8`).
    pub fn to_debug_string(&self, alternate: bool) -> (r: String)
        ensures
            r@ == if alternate {
                int_text(self.value()) + seq!['_'] + self.width_name()
            } else {
                int_text(self.value())
            },
    {
        let mut out = signed_text(self.widest());
        if alternate {
            let suffix = match *self {
                SignedIntValue::I8(_) => "_i8",
                SignedIntValue::I16(_) => "_i16",
                SignedIntValue::I32(_) => "_i32",
                SignedIntValue::I64(_) => "_i64",
            };
            proof {
                reveal_strlit("_i8");
                reveal_strlit("_i16");
                reveal_strlit("_i32");
                reveal_strlit("_i64");
                assert(suffix@ =~= seq!['_'] + self.width_name());
            }
            out.append(suffix);
            proof {
                assert(out@ =~= int_text(self.value()) + seq!['_'] + self.width_name());
            }
        }
        out
    }
}

impl UnsignedIntValue {
    /// The name of the value's primitive type, such as `u8`.
    pub open spec fn width_name(self) -> Seq<char> {
        match self {
            UnsignedIntValue::U8(_) => seq!['u', '8'],
            UnsignedIntValue::U16(_) => seq!['u', '1', '6'],
            UnsignedIntValue::U32(_) => seq!['u', '3', '2'],
            UnsignedIntValue::U64(_) => seq!['u', '6', '4'],
        }
    }

    /// The number as a `u64`, which holds every width.
    fn widest(&self) -> (r: u64)
        ensures
            r as int == self.value(),
    {
        match *self {
            UnsignedIntValue::U8(v) => v as u64,
            UnsignedIntValue::U16(v) => v as u64,
            UnsignedIntValue::U32(v) => v as u64,
            UnsignedIntValue::U64(v) => v,
        }
    }

    /// The decimal text of the number.
    pub fn to_display_string(&self) -> (r: String)
        ensures
            r@ == int_text(self.value()),
    {
        unsigned_text(self.widest())
    }

    /// The debug text: the decimal number, followed in the alternate form
    /// by `_` and the type's name (`42_u8`).
    pub fn to_debug_string(&self, alternate: bool) -> (r: String)
        ensures
            r@ == if alternate {
                int_text(self.value()) + seq!['_'] + self.width_name()
            } else {
                int_text(self.value())
            },
    {
        let mut out = unsigned_text(self.widest());
        if alternate {
            let suffix = match *self {
                UnsignedIntValue::U8(_) => "_u8",
                UnsignedIntValue::U16(_) => "_u16",
                UnsignedIntValue::U32(_) => "_u32",
                UnsignedIntValue::U64(_) => "_u64",
            };
            proof {
                reveal_strlit("_u8");
                reveal_strlit("_u16");
                reveal_strlit("_u32");
                reveal_strlit("_u64");
                assert(suffix@ =~= seq!['_'] + self.width_name());
            }
            out.append(suffix);
            proof {
                assert(out@ =~= int_text(self.value()) + seq!['_'] + self.width_name());
            }
        }
        out
    }
}

impl IntValue {
    /// The name of the value's primitive type, such as `u8` or `i64`.
    pub open spec fn width_name(self) -> Seq<char> {
        match self {
            IntValue::Signed(s) => s.width_name(),
            IntValue::Unsigned(u) => u.width_name(),
        }
    }

    /// The decimal text of the number.
    pub fn to_display_string(&self) -> (r: String)
        ensures
            r@ == int_text(self.value()),
    {
        match self {
            IntValue::Signed(s) => s.to_display_string(),
            IntValue::Unsigned(u) => u.to_display_string(),
        }
    }

    /// The debug text: the decimal number, followed in the alternate form
    /// by `_` and the type's name (`42_u8`).
    pub fn to_debug_string(&self, alternate: bool) -> (r: String)
        ensures
            r@ == if alternate {
                int_text(self.value()) + seq!['_'] + self.width_name()
            } else {
                int_text(self.value())
            },
    {
        match self {
            IntValue::Signed(s) => s.to_debug_string(alternate),
            IntValue::Unsigned(u) => u.to_debug_string(alternate),
        }
    }
}

impl BoolValue {
    /// The text of the boolean, `true` or `false`.
    pub open spec fn text(self) -> Seq<char> {
        if self.0 {
            seq!['t', 'r', 'u', 'e']
        } else {
            seq!['f', 'a', 'l', 's', 'e']
        }
    }

    /// The displayed text: `true` or `false`.
    pub fn to_display_string(&self) -> (r: String)
        ensures
            r@ == self.text(),
    {
        proof {
            reveal_strlit("true");
            reveal_strlit("false");
        }
        if self.0 {
            String::from_str("true")
        } else {
            String::from_str("false")
        }
    }

    /// The debug text, plain or alternate: the same as the displayed one.
    pub fn to_debug_string(&self, _alternate: bool) -> (r: String)
        ensures
            r@ == self.text(),
    {
        self.to_display_string()
    }
}

/// The text `null`.
pub open spec fn null_text() -> Seq<char> {
    seq!['n', 'u', 'l', 'l']
}

/// The text `unit`.
pub open spec fn unit_text() -> Seq<char> {
    seq!['u', 'n', 'i', 't']
}

impl NullValue {
    /// The displayed text: `null`.
    pub fn to_display_string(&self) -> (r: String)
        ensures
            r@ == null_text(),
    {
        proof {
            reveal_strlit("null");
        }
        String::from_str("null")
    }

    /// The debug text, plain or alternate: `null`.
    pub fn to_debug_string(&self, _alternate: bool) -> (r: String)
        ensures
            r@ == null_text(),
    {
        self.to_display_string()
    }
}

impl UnitValue {
    /// The displayed text: `unit`.
    pub fn to_display_string(&self) -> (r: String)
        ensures
            r@ == unit_text(),
    {
        proof {
            reveal_strlit("unit");
        }
        String::from_str("unit")
    }

    /// The debug text, plain or alternate: `unit`.
    pub fn to_debug_string(&self, _alternate: bool) -> (r: String)
        ensures
            r@ == unit_text(),
    {
        self.to_display_string()
    }
}

/// The text that std's `Debug` gives a string: the string between double
/// quotes, with the characters that need it escaped.
pub uninterp spec fn str_debug_text(s: Seq<char>) -> Seq<char>;

/// Calls std's `Debug` on `s` through `format!`; the text it gives is named
/// `str_debug_text` of the string's characters, and depends on nothing else.
/// Which characters it escapes, and how, is left unsaid.
#[verifier::external_body]
fn str_debug(s: &str) -> (r: String)
    ensures
        r@ == str_debug_text(s@),
{
    format!("{:?}", s)
}

impl StringValue {
    /// The displayed text: the string itself.
    pub fn to_display_string(&self) -> (r: String)
        ensures
            r@ == self.0@,
    {
        self.0.clone()
    }

    /// The debug text, plain or alternate: the string quoted and escaped as
    /// std's `Debug` writes a string.
    pub fn to_debug_string(&self, _alternate: bool) -> (r: String)
        ensures
            r@ == str_debug_text(self.0@),
    {
        str_debug(self.0.as_str())
    }
}

/// The debug text of one byte: its eight binary digits, after `0b` in the
/// alternate form.
pub open spec fn byte_debug_text(b: u8, alternate: bool) -> Seq<char> {
    if alternate {
        seq!['0', 'b'] + binary_digits(b as nat, 8)
    } else {
        binary_digits(b as nat, 8)
    }
}

/// The displayed text of a byte is two characters of `0123456789abcdef`
/// that read back, in base sixteen, as the byte.
pub proof fn lemma_byte_display_reads_back(b: u8)
    ensures
        byte_display_text(b).len() == 2,
        hex_alphabet().contains(byte_display_text(b)[0]),
        hex_alphabet().contains(byte_display_text(b)[1]),
        digits_value(byte_display_text(b), 16) == b,
{
    lemma_hex_digit_char((b / 16) as nat);
    lemma_hex_digit_char((b % 16) as nat);
    let t = byte_display_text(b);
    assert(t.drop_last() =~= seq![t[0]]);
    let first = seq![t[0]];
    assert(first.drop_last() =~= Seq::<char>::empty());
    assert(first.last() == t[0]);
    assert(t[0] == hex_digit_char((b / 16) as nat));
    assert(digit_value(t[0]) == (b / 16) as int);
    assert(digits_value(first, 16) == digits_value(first.drop_last(), 16) * 16 + digit_value(
        first.last(),
    ));
    assert(digits_value(first, 16) == (b / 16) as int);
}

/// The debug text of a byte is its eight binary digits, which read back as
/// the byte, after `0b` in the alternate form.
pub proof fn lemma_byte_debug_reads_back(b: u8, alternate: bool)
    ensures
        byte_debug_text(b, alternate) == if alternate {
            seq!['0', 'b'] + binary_digits(b as nat, 8)
        } else {
            binary_digits(b as nat, 8)
        },
        binary_digits(b as nat, 8).len() == 8,
        digits_value(binary_digits(b as nat, 8), 2) == b,
{
    lemma_binary_digits_read_back(b as nat, 8);
    vstd::arithmetic::power2::lemma2_to64();
}

/// The name of an integer type is `i` or `u`, for signed or unsigned, then
/// its width in decimal.
pub proof fn lemma_width_names(s: SignedIntValue, u: UnsignedIntValue)
    ensures
        s.width_name() == seq!['i'] + decimal_digits(s.bit_width()),
        u.width_name() == seq!['u'] + decimal_digits(u.bit_width()),
{
    assert(decimal_digits(8) =~= seq!['8']);
    assert(decimal_digits(1) =~= seq!['1']);
    assert(decimal_digits(3) =~= seq!['3']);
    assert(decimal_digits(6) =~= seq!['6']);
    assert(decimal_digits(16) =~= seq!['1', '6']);
    assert(decimal_digits(32) =~= seq!['3', '2']);
    assert(decimal_digits(64) =~= seq!['6', '4']);
    assert(s.width_name() =~= seq!['i'] + decimal_digits(s.bit_width()));
    assert(u.width_name() =~= seq!['u'] + decimal_digits(u.bit_width()));
}

/// The displayed text of bytes, inside its brackets, puts the two digits of
/// the `k`-th byte at place `4 * k`, each pair but the last followed by
/// `, `.
pub proof fn lemma_bytes_display_layout(s: Seq<u8>)
    ensures
        bytes_display_items(s).len() == if s.len() == 0 {
            0
        } else {
            4 * s.len() - 2
        },
        forall|k: int|
            0 <= k < s.len() ==> #[trigger] bytes_display_items(s).subrange(4 * k, 4 * k + 2)
                == byte_display_text(s[k]),
        forall|k: int|
            0 <= k < s.len() - 1 ==> #[trigger] bytes_display_items(s).subrange(
                4 * k + 2,
                4 * k + 4,
            ) == seq![',', ' '],
    decreases s.len(),
{
    if s.len() == 1 {
        assert(bytes_display_items(s).subrange(0, 2) =~= byte_display_text(s[0]));
    } else if s.len() > 1 {
        let init = s.drop_last();
        lemma_bytes_display_layout(init);
        let a = bytes_display_items(init);
        let t = bytes_display_items(s);
        let n = s.len() as int;
        assert(t == a + seq![',', ' '] + byte_display_text(s.last()));
        assert forall|k: int| 0 <= k < n implies #[trigger] t.subrange(4 * k, 4 * k + 2)
            == byte_display_text(s[k]) by {
            if k < n - 1 {
                assert(t.subrange(4 * k, 4 * k + 2) =~= a.subrange(4 * k, 4 * k + 2));
                assert(init[k] == s[k]);
            } else {
                assert(t.subrange(4 * k, 4 * k + 2) =~= byte_display_text(s.last()));
            }
        }
        assert forall|k: int| 0 <= k < n - 1 implies #[trigger] t.subrange(4 * k + 2, 4 * k + 4)
            == seq![',', ' '] by {
            if k < n - 2 {
                assert(t.subrange(4 * k + 2, 4 * k + 4) =~= a.subrange(4 * k + 2, 4 * k + 4));
            } else {
                assert(t.subrange(4 * k + 2, 4 * k + 4) =~= seq![',', ' ']);
            }
        }
    }
}

/// The debug texts of the bytes of `s`, separated by `, `.
pub open spec fn bytes_debug_items(s: Seq<u8>, alternate: bool) -> Seq<char>
    decreases s.len(),
{
    if s.len() == 0 {
        seq![]
    } else if s.len() == 1 {
        byte_debug_text(s[0], alternate)
    } else {
        bytes_debug_items(s.drop_last(), alternate) + seq![',', ' '] + byte_debug_text(
            s.last(),
            alternate,
        )
    }
}

/// The displayed text of one byte: its two lower-case hexadecimal digits.
pub open spec fn byte_display_text(b: u8) -> Seq<char> {
    seq![hex_digit_char((b / 16) as nat), hex_digit_char((b % 16) as nat)]
}

/// The displayed texts of the bytes of `s`, separated by `, `.
pub open spec fn bytes_display_items(s: Seq<u8>) -> Seq<char>
    decreases s.len(),
{
    if s.len() == 0 {
        seq![]
    } else if s.len() == 1 {
        byte_display_text(s[0])
    } else {
        bytes_display_items(s.drop_last()) + seq![',', ' '] + byte_display_text(s.last())
    }
}

/// The number of characters of the debug text of one byte: eight binary
/// digits, after `0b` in the alternate form.
pub open spec fn byte_debug_width(alternate: bool) -> int {
    if alternate {
        10
    } else {
        8
    }
}

/// The debug text of bytes, inside its brackets, puts the characters of the
/// `k`-th byte at place `(w + 2) * k`, where `w` is the width of one byte's
/// text, each but the last followed by `, `.
pub proof fn lemma_bytes_debug_layout(s: Seq<u8>, alternate: bool)
    ensures
        bytes_debug_items(s, alternate).len() == if s.len() == 0 {
            0
        } else {
            (byte_debug_width(alternate) + 2) * s.len() - 2
        },
        forall|k: int|
            0 <= k < s.len() ==> #[trigger] bytes_debug_items(s, alternate).subrange(
                (byte_debug_width(alternate) + 2) * k,
                (byte_debug_width(alternate) + 2) * k + byte_debug_width(alternate),
            ) == byte_debug_text(s[k], alternate),
        forall|k: int|
            0 <= k < s.len() - 1 ==> #[trigger] bytes_debug_items(s, alternate).subrange(
                (byte_debug_width(alternate) + 2) * k + byte_debug_width(alternate),
                (byte_debug_width(alternate) + 2) * k + byte_debug_width(alternate) + 2,
            ) == seq![',', ' '],
    decreases s.len(),
{
    let w = byte_debug_width(alternate);
    assert forall|b: u8| #[trigger] byte_debug_text(b, alternate).len() == w by {
        lemma_binary_digits_read_back(b as nat, 8);
    }
    if s.len() == 1 {
        assert(bytes_debug_items(s, alternate).subrange(0, w) =~= byte_debug_text(s[0], alternate));
    } else if s.len() > 1 {
        let init = s.drop_last();
        lemma_bytes_debug_layout(init, alternate);
        let a = bytes_debug_items(init, alternate);
        let t = bytes_debug_items(s, alternate);
        let n = s.len() as int;
        assert(t == a + seq![',', ' '] + byte_debug_text(s.last(), alternate));
        assert(a.len() == (w + 2) * (n - 1) - 2);
        assert((w + 2) * (n - 1) == (w + 2) * n - (w + 2)) by (nonlinear_arith);
        assert forall|k: int| 0 <= k < n implies #[trigger] t.subrange((w + 2) * k, (w + 2) * k + w)
            == byte_debug_text(s[k], alternate) by {
            if k < n - 1 {
                assert((w + 2) * k + w <= (w + 2) * (n - 1) - 2) by (nonlinear_arith)
                    requires
                        k < n - 1,
                        w >= 8,
                ;
                assert(a.subrange((w + 2) * k, (w + 2) * k + w) == byte_debug_text(
                    init[k],
                    alternate,
                ));
                assert(t.subrange((w + 2) * k, (w + 2) * k + w) =~= a.subrange(
                    (w + 2) * k,
                    (w + 2) * k + w,
                ));
                assert(init[k] == s[k]);
            } else {
                assert((w + 2) * k == a.len() + 2) by (nonlinear_arith)
                    requires
                        k == n - 1,
                        a.len() == (w + 2) * (n - 1) - 2,
                ;
                assert(t.subrange((w + 2) * k, (w + 2) * k + w) =~= byte_debug_text(
                    s.last(),
                    alternate,
                ));
            }
        }
        assert forall|k: int| 0 <= k < n - 1 implies #[trigger] t.subrange(
            (w + 2) * k + w,
            (w + 2) * k + w + 2,
        ) == seq![',', ' '] by {
            if k < n - 2 {
                assert((w + 2) * k + w + 2 <= (w + 2) * (n - 1) - 2) by (nonlinear_arith)
                    requires
                        k < n - 2,
                        w >= 8,
                ;
                assert(a.subrange((w + 2) * k + w, (w + 2) * k + w + 2) == seq![',', ' ']);
                assert(t.subrange((w + 2) * k + w, (w + 2) * k + w + 2) =~= a.subrange(
                    (w + 2) * k + w,
                    (w + 2) * k + w + 2,
                ));
            } else {
                assert((w + 2) * k + w == a.len()) by (nonlinear_arith)
                    requires
                        k == n - 2,
                        a.len() == (w + 2) * (n - 1) - 2,
                ;
                assert(t.subrange((w + 2) * k + w, (w + 2) * k + w + 2) =~= seq![',', ' ']);
            }
        }
    }
}

impl BytesValue {
    /// The displayed text: the bytes in hexadecimal between brackets, such
    /// as `[01, 0a, ff]`.
    pub fn to_display_string(&self) -> (r: String)
        ensures
            r@ == seq!['['] + bytes_display_items(self.0@) + seq![']'],
    {
        proof {
            reveal_strlit("[");
            reveal_strlit("]");
        }
        let mut out = String::from_str("[");
        let n = self.0.len();
        let mut i: usize = 0;
        while i < n
            invariant
                i <= n,
                n == self.0@.len(),
                out@ == seq!['['] + bytes_display_items(self.0@.take(i as int)),
            decreases n - i,
        {
            proof {
                reveal_strlit(", ");
            }
            let ghost before = out@;
            let b: u8 = self.0[i];
            if i > 0 {
                out.append(", ");
            }
            let ghost sep = out@;
            append_hex_byte(&mut out, b);
            proof {
                let t = self.0@.take(i as int + 1);
                assert(t.drop_last() =~= self.0@.take(i as int));
                assert(t.last() == b);
                assert(out@ =~= sep + byte_display_text(b));
                if i == 0 {
                    assert(self.0@.take(0) =~= Seq::<u8>::empty());
                    assert(t.len() == 1);
                    assert(t[0] == b);
                    assert(sep =~= seq!['[']);
                } else {
                    assert(sep =~= before + seq![',', ' ']);
                }
                assert(out@ =~= seq!['['] + bytes_display_items(t));
            }
            i += 1;
        }
        proof {
            assert(self.0@.take(n as int) =~= self.0@);
        }
        out.append("]");
        out
    }
    /// The debug text: the bytes in binary between brackets, such as
    /// `[00000001, 00000010]`, or `[0b00000001, 0b00000010]` in the
    /// alternate form.
    pub fn to_debug_string(&self, alternate: bool) -> (r: String)
        ensures
            r@ == seq!['['] + bytes_debug_items(self.0@, alternate) + seq![']'],
    {
        proof {
            reveal_strlit("[");
            reveal_strlit("]");
        }
        let mut out = String::from_str("[");
        let n = self.0.len();
        let mut i: usize = 0;
        while i < n
            invariant
                i <= n,
                n == self.0@.len(),
                out@ == seq!['['] + bytes_debug_items(self.0@.take(i as int), alternate),
            decreases n - i,
        {
            proof {
                reveal_strlit(", ");
                reveal_strlit("0b");
            }
            let ghost before = out@;
            let b: u8 = self.0[i];
            if i > 0 {
                out.append(", ");
            }
            let ghost sep = out@;
            if alternate {
                out.append("0b");
            }
            let ghost mid = out@;
            append_binary(&mut out, b as u64, 8);
            proof {
                let t = self.0@.take(i as int + 1);
                assert(t.drop_last() =~= self.0@.take(i as int));
                assert(t.last() == b);
                assert(mid + binary_digits(b as nat, 8) =~= sep + byte_debug_text(b, alternate));
                if i == 0 {
                    assert(self.0@.take(0) =~= Seq::<u8>::empty());
                    assert(t.len() == 1);
                    assert(t[0] == b);
                    assert(sep =~= seq!['[']);
                } else {
                    assert(sep =~= before + seq![',', ' ']);
                }
                assert(out@ =~= seq!['['] + bytes_debug_items(t, alternate));
            }
            i += 1;
        }
        proof {
            assert(self.0@.take(n as int) =~= self.0@);
        }
        out.append("]");
        out
    }
}

} // verus!
