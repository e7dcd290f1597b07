//! Text forms of numbers: decimal, fixed-width binary and hexadecimal
//! digits.

use vstd::prelude::*;

verus! {

/// The character of the digit `d`.
pub open spec fn digit_char(d: nat) -> char {
    ((d + 48) as u32) as char
}

/// The decimal digits of `n`, most significant first, without leading
/// zeros (a single `0` for zero).
pub open spec fn decimal_digits(n: nat) -> Seq<char>
    decreases n,
{
    if n < 10 {
        seq![digit_char(n)]
    } else {
        decimal_digits(n / 10).push(digit_char(n % 10))
    }
}

/// The decimal text of `v`: its digits, after a minus sign when negative.
pub open spec fn int_text(v: int) -> Seq<char> {
    if v < 0 {
        seq!['-'] + decimal_digits((-v) as nat)
    } else {
        decimal_digits(v as nat)
    }
}

/// The `width` lowest binary digits of `n`, most significant first.
pub open spec fn binary_digits(n: nat, width: nat) -> Seq<char>
    decreases width,
{
    if width == 0 {
        seq![]
    } else {
        binary_digits(n / 2, (width - 1) as nat).push(digit_char(n % 2))
    }
}

/// The one-character string of the digit `d`.
pub fn digit_str(d: u64) -> (r: &'static str)
    requires
        d < 10,
    ensures
        r@ == seq![digit_char(d as nat)],
{
    proof {
        reveal_strlit("0");
        reveal_strlit("1");
        reveal_strlit("2");
        reveal_strlit("3");
        reveal_strlit("4");
        reveal_strlit("5");
        reveal_strlit("6");
        reveal_strlit("7");
        reveal_strlit("8");
        reveal_strlit("9");
    }
    match d {
        0 => "0",
        1 => "1",
        2 => "2",
        3 => "3",
        4 => "4",
        5 => "5",
        6 => "6",
        7 => "7",
        8 => "8",
        _ => "9",
    }
}

/// Appends the decimal digits of `n` to `out`.
pub fn append_decimal(out: &mut String, n: u64)
    ensures
        final(out)@ == old(out)@ + decimal_digits(n as nat),
    decreases n,
{
    if n >= 10 {
        append_decimal(out, n / 10);
    }
    out.append(digit_str(n % 10));
    proof {
        if n >= 10 {
            assert(old(out)@ + decimal_digits(n as nat) =~= old(out)@ + decimal_digits(
                (n / 10) as nat,
            ) + seq![digit_char((n % 10) as nat)]);
        }
    }
}

/// The decimal text of `v`.
pub fn unsigned_text(v: u64) -> (r: String)
    ensures
        r@ == int_text(v as int),
{
    let mut out = String::new();
    append_decimal(&mut out, v);
    proof {
        assert(out@ =~= int_text(v as int));
    }
    out
}

/// The decimal text of `v`, with a minus sign when negative.
pub fn signed_text(v: i64) -> (r: String)
    ensures
        r@ == int_text(v as int),
{
    let mut out = String::new();
    if v < 0 {
        out.append("-");
        let magnitude: u64 = ((-(v + 1)) as u64) + 1;
        append_decimal(&mut out, magnitude);
        proof {
            reveal_strlit("-");
            assert(out@ =~= int_text(v as int));
        }
    } else {
        append_decimal(&mut out, v as u64);
        proof {
            assert(out@ =~= int_text(v as int));
        }
    }
    out
}

/// Appends the `width` lowest binary digits of `n` to `out`.
pub fn append_binary(out: &mut String, n: u64, width: u32)
    ensures
        final(out)@ == old(out)@ + binary_digits(n as nat, width as nat),
    decreases width,
{
    if width > 0 {
        append_binary(out, n / 2, width - 1);
        out.append(digit_str(n % 2));
        proof {
            assert(old(out)@ + binary_digits(n as nat, width as nat) =~= old(out)@
                + binary_digits((n / 2) as nat, (width - 1) as nat) + seq![
                digit_char((n % 2) as nat),
            ]);
        }
    } else {
        proof {
            assert(old(out)@ + binary_digits(n as nat, width as nat) =~= old(out)@);
        }
    }
}

/// The lower-case hexadecimal character of the digit `d`.
pub open spec fn hex_digit_char(d: nat) -> char {
    if d < 10 {
        digit_char(d)
    } else {
        ((d - 10 + 97) as u32) as char
    }
}

/// The one-character string of the hexadecimal digit `d`, in lower case.
pub fn hex_digit_str(d: u64) -> (r: &'static str)
    requires
        d < 16,
    ensures
        r@ == seq![hex_digit_char(d as nat)],
{
    proof {
        reveal_strlit("0");
        reveal_strlit("1");
        reveal_strlit("2");
        reveal_strlit("3");
        reveal_strlit("4");
        reveal_strlit("5");
        reveal_strlit("6");
        reveal_strlit("7");
        reveal_strlit("8");
        reveal_strlit("9");
        reveal_strlit("a");
        reveal_strlit("b");
        reveal_strlit("c");
        reveal_strlit("d");
        reveal_strlit("e");
        reveal_strlit("f");
    }
    match d {
        0 => "0",
        1 => "1",
        2 => "2",
        3 => "3",
        4 => "4",
        5 => "5",
        6 => "6",
        7 => "7",
        8 => "8",
        9 => "9",
        10 => "a",
        11 => "b",
        12 => "c",
        13 => "d",
        14 => "e",
        _ => "f",
    }
}

/// Appends the two lower-case hexadecimal digits of the byte `b`.
pub fn append_hex_byte(out: &mut String, b: u8)
    ensures
        final(out)@ == old(out)@ + seq![
            hex_digit_char((b / 16) as nat),
            hex_digit_char((b % 16) as nat),
        ],
{
    out.append(hex_digit_str((b / 16) as u64));
    out.append(hex_digit_str((b % 16) as u64));
    proof {
        assert(out@ =~= old(out)@ + seq![
            hex_digit_char((b / 16) as nat),
            hex_digit_char((b % 16) as nat),
        ]);
    }
}

/// The sixteen hexadecimal digits in lower case, in order: `0123456789abcdef`.
pub open spec fn hex_alphabet() -> Seq<char> {
    seq!['0', '1', '2', '3', '4', '5', '6', '7', '8', '9', 'a', 'b', 'c', 'd', 'e', 'f']
}

/// The number that a digit character stands for: its place in
/// `0123456789abcdef`.
pub open spec fn digit_value(c: char) -> int {
    if '0' <= c <= '9' {
        (c as u32) - ('0' as u32)
    } else {
        (c as u32) - ('a' as u32) + 10
    }
}

/// The number that the digits `s` stand for in base `base`, most
/// significant first.
pub open spec fn digits_value(s: Seq<char>, base: nat) -> int
    decreases s.len(),
{
    if s.len() == 0 {
        0
    } else {
        digits_value(s.drop_last(), base) * base + digit_value(s.last())
    }
}

/// The decimal digit `d` is the `d`-th character of `0123456789`.
pub proof fn lemma_digit_char(d: nat)
    requires
        d < 10,
    ensures
        digit_char(d) == hex_alphabet()[d as int],
        digit_value(digit_char(d)) == d,
{
}

/// The hexadecimal digit `d` is the `d`-th character of
/// `0123456789abcdef`, and reads back as `d`.
pub proof fn lemma_hex_digit_char(d: nat)
    requires
        d < 16,
    ensures
        hex_digit_char(d) == hex_alphabet()[d as int],
        digit_value(hex_digit_char(d)) == d,
{
}

/// The sixteen hexadecimal digits are distinct.
pub proof fn lemma_hex_alphabet_distinct(i: nat, j: nat)
    requires
        i < 16,
        j < 16,
    ensures
        (hex_alphabet()[i as int] == hex_alphabet()[j as int]) == (i == j),
{
}

/// The decimal digits of `n` read back as `n`, each is one of `0` to `9`,
/// and the first is not `0` unless `n` is zero.
pub proof fn lemma_decimal_digits_read_back(n: nat)
    ensures
        digits_value(decimal_digits(n), 10) == n,
        decimal_digits(n).len() > 0,
        forall|k: int|
            0 <= k < decimal_digits(n).len() ==> '0' <= #[trigger] decimal_digits(n)[k] <= '9',
        n > 0 ==> decimal_digits(n)[0] != '0',
    decreases n,
{
    lemma_digit_char(n % 10);
    if n >= 10 {
        lemma_decimal_digits_read_back(n / 10);
        let s = decimal_digits(n);
        assert(s.drop_last() =~= decimal_digits(n / 10));
        assert(s.last() == digit_char(n % 10));
        assert(s[0] == decimal_digits(n / 10)[0]);
        vstd::arithmetic::div_mod::lemma_fundamental_div_mod(n as int, 10);
        assert(digits_value(s, 10) == (n / 10) as int * 10 + (n % 10) as int);
        assert forall|k: int| 0 <= k < s.len() implies '0' <= #[trigger] s[k] <= '9' by {
            if k < s.len() - 1 {
                assert(s[k] == decimal_digits(n / 10)[k]);
            }
        }
    } else {
        let s = decimal_digits(n);
        assert(s.drop_last() =~= Seq::<char>::empty());
        assert(digits_value(s.drop_last(), 10) == 0);
        assert(s.last() == digit_char(n));
    }
}

/// The `width` binary digits of `n` read back as `n` modulo `2^width`, and
/// each is `0` or `1`.
pub proof fn lemma_binary_digits_read_back(n: nat, width: nat)
    ensures
        digits_value(binary_digits(n, width), 2) == n % vstd::arithmetic::power2::pow2(width),
        binary_digits(n, width).len() == width,
        forall|k: int| 0 <= k < width ==> #[trigger] binary_digits(n, width)[k] == '0'
            || binary_digits(n, width)[k] == '1',
    decreases width,
{
    vstd::arithmetic::power2::lemma_pow2_pos(width);
    if width == 0 {
        vstd::arithmetic::power2::lemma2_to64();
    } else {
        let w1 = (width - 1) as nat;
        lemma_binary_digits_read_back(n / 2, w1);
        lemma_digit_char(n % 2);
        let s = binary_digits(n, width);
        assert(s.drop_last() =~= binary_digits(n / 2, w1));
        assert forall|k: int| 0 <= k < width implies #[trigger] s[k] == '0' || s[k] == '1' by {
            if k < width - 1 {
                assert(s[k] == binary_digits(n / 2, w1)[k]);
            }
        }
        vstd::arithmetic::power2::lemma_pow2_unfold(width);
        vstd::arithmetic::power2::lemma_pow2_pos(w1);
        let p = vstd::arithmetic::power2::pow2(w1);
        // n % 2^width == (n / 2 % 2^(width-1)) * 2 + n % 2
        vstd::arithmetic::div_mod::lemma_breakdown(n as int, 2, p as int);
        vstd::arithmetic::mul::lemma_mul_is_commutative(2, p as int);
    }
}

/// The decimal text of `v` reads back as `v`: it starts with a minus sign
/// exactly when `v` is negative, and the digits after it stand for the
/// magnitude of `v`, without leading zeros.
pub proof fn lemma_int_text_reads_back(v: int)
    ensures
        int_text(v).len() > 0,
        (int_text(v)[0] == '-') == (v < 0),
        v < 0 ==> digits_value(int_text(v).drop_first(), 10) == -v,
        v < 0 ==> int_text(v).drop_first()[0] != '0',
        v >= 0 ==> digits_value(int_text(v), 10) == v,
        v > 0 ==> int_text(v)[0] != '0',
{
    if v < 0 {
        lemma_decimal_digits_read_back((-v) as nat);
        assert(int_text(v).drop_first() =~= decimal_digits((-v) as nat));
    } else {
        lemma_decimal_digits_read_back(v as nat);
        let d = decimal_digits(v as nat);
        assert(d.len() > 0 && '0' <= d[0] <= '9');
    }
}

} // verus!
