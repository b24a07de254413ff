//! Decimal and hexadecimal renderings of integers, and the decimal parser
//! of `u64`'s `FromStr`.

use vstd::prelude::*;

verus! {

/// The character of a decimal digit.
pub open spec fn digit_char(d: nat) -> char {
    (48 + d) as char
}

/// The character of a lowercase hexadecimal digit.
pub open spec fn hex_char(d: nat) -> char {
    if d < 10 {
        (48 + d) as char
    } else {
        (87 + d) as char
    }
}

/// `x` in decimal, without leading zeros (`format!("{}", x)`).
pub open spec fn decimal(x: nat) -> Seq<char>
    decreases x,
{
    if x < 10 {
        seq![digit_char(x)]
    } else {
        decimal(x / 10).push(digit_char(x % 10))
    }
}

/// The last `n` lowercase hexadecimal digits of `x`, most significant first
/// (`format!("{:0n$x}", x)` when `x < 16^n`).
pub open spec fn hex_digits(x: nat, n: nat) -> Seq<char>
    decreases n,
{
    if n == 0 {
        Seq::empty()
    } else {
        hex_digits(x / 16, (n - 1) as nat).push(hex_char(x % 16))
    }
}

/// Whether `c` is an ASCII decimal digit.
pub open spec fn is_digit(c: char) -> bool {
    48 <= (c as u32) && (c as u32) <= 57
}

/// The value of a digit character.
pub open spec fn digit_value(c: char) -> nat {
    ((c as u32) - 48) as nat
}

/// The value of a string of decimal digits (0 for the empty string).
pub open spec fn digits_value(s: Seq<char>) -> nat
    decreases s.len(),
{
    if s.len() == 0 {
        0
    } else {
        digits_value(s.drop_last()) * 10 + digit_value(s.last())
    }
}

/// The digits part of an unsigned number: a leading `+` dropped.
pub open spec fn unsigned_body(s: Seq<char>) -> Seq<char> {
    if s.len() > 0 && s[0] == '+' {
        s.drop_first()
    } else {
        s
    }
}

/// Whether every character is a decimal digit.
pub open spec fn all_digits(s: Seq<char>) -> bool {
    forall|i: int| 0 <= i < s.len() ==> is_digit(#[trigger] s[i])
}

/// `u64::from_str`: an optional `+`, then one or more decimal digits whose
/// value fits in a `u64`.
pub open spec fn parse_u64(s: Seq<char>) -> Option<u64> {
    let body = unsigned_body(s);
    if body.len() > 0 && all_digits(body) && digits_value(body) <= u64::MAX {
        Some(digits_value(body) as u64)
    } else {
        None
    }
}

fn digit_to_char(d: u64) -> (c: char)
    requires
        d < 10,
    ensures
        c == digit_char(d as nat),
{
    let b: u8 = 48 + d as u8;
    b as char
}

fn hex_digit_to_char(d: u64) -> (c: char)
    requires
        d < 16,
    ensures
        c == hex_char(d as nat),
{
    if d < 10 {
        let b: u8 = 48 + d as u8;
        b as char
    } else {
        let b: u8 = 87 + d as u8;
        b as char
    }
}

/// The decimal digits of `x` (`format!("{}", x)`).
pub fn decimal_chars(x: u64) -> (r: Vec<char>)
    ensures
        r@ == decimal(x as nat),
    decreases x,
{
    if x < 10 {
        let mut r = Vec::new();
        r.push(digit_to_char(x));
        r
    } else {
        let mut r = decimal_chars(x / 10);
        r.push(digit_to_char(x % 10));
        r
    }
}

/// The last `n` lowercase hexadecimal digits of `x`.
pub fn hex_chars(x: u64, n: usize) -> (r: Vec<char>)
    ensures
        r@ == hex_digits(x as nat, n as nat),
    decreases n,
{
    if n == 0 {
        Vec::new()
    } else {
        let mut r = hex_chars(x / 16, n - 1);
        r.push(hex_digit_to_char(x % 16));
        r
    }
}

proof fn lemma_digits_value_prefix(s: Seq<char>, i: int)
    requires
        0 <= i <= s.len(),
    ensures
        digits_value(s.take(i)) <= digits_value(s),
    decreases s.len() - i,
{
    if i < s.len() {
        lemma_digits_value_prefix(s, i + 1);
        assert(s.take(i + 1).drop_last() =~= s.take(i));
    } else {
        assert(s.take(i) =~= s);
    }
}

/// Parses a `u64` as `u64::from_str` does.
pub fn parse_u64_chars(s: &Vec<char>) -> (r: Option<u64>)
    ensures
        r == parse_u64(s@),
{
    let start: usize = if s.len() > 0 && s[0] == '+' {
        1
    } else {
        0
    };
    let ghost body = unsigned_body(s@);
    assert(body =~= s@.skip(start as int));
    if start >= s.len() {
        return None;
    }
    let mut acc: u64 = 0;
    let mut i: usize = start;
    assert(body.take(0) =~= Seq::<char>::empty());
    while i < s.len()
        invariant
            start <= i <= s@.len(),
            start < s@.len(),
            body == s@.skip(start as int),
            body == unsigned_body(s@),
            acc as nat == digits_value(body.take(i - start)),
            forall|k: int| 0 <= k < i - start ==> is_digit(#[trigger] body[k]),
        decreases s.len() - i,
    {
        let c = s[i];
        let u = c as u32;
        assert(body[i - start] == c);
        if u < 48 || u > 57 {
            assert(!is_digit(body[i - start]));
            assert(!all_digits(body));
            return None;
        }
        let d = (u - 48) as u64;
        assert(body.take(i + 1 - start).drop_last() =~= body.take(i - start));
        if acc > (u64::MAX - d) / 10 {
            proof {
                assert(acc * 10 + d > u64::MAX) by (nonlinear_arith)
                    requires
                        acc > (u64::MAX - d) / 10,
                        d <= 9,
                ;
                lemma_digits_value_prefix(body, i + 1 - start);
                assert(digit_value(body.take(i + 1 - start).last()) == d);
                assert(digits_value(body) > u64::MAX);
            }
            return None;
        }
        assert(acc * 10 + d <= u64::MAX) by (nonlinear_arith)
            requires
                acc <= (u64::MAX - d) / 10,
                d <= 9,
        ;
        acc = acc * 10 + d;
        i = i + 1;
    }
    assert(body.take(i - start) =~= body);
    Some(acc)
}

/// Facts on the decimal rendering: it is a non-empty string of digits that
/// denotes the number.
pub proof fn lemma_decimal(x: nat)
    ensures
        decimal(x).len() > 0,
        all_digits(decimal(x)),
        digits_value(decimal(x)) == x,
    decreases x,
{
    let d = x % 10;
    assert(((48 + d) as char) as u32 == 48 + d);
    if x >= 10 {
        lemma_decimal(x / 10);
        assert(decimal(x).drop_last() =~= decimal(x / 10));
        assert(decimal(x).last() == digit_char(d));
        assert(digit_value(decimal(x).last()) == d);
        assert((x / 10) * 10 + d == x);
        assert(digits_value(decimal(x)) == digits_value(decimal(x).drop_last()) * 10 + digit_value(
            decimal(x).last(),
        ));
        assert forall|i: int| 0 <= i < decimal(x).len() implies is_digit(#[trigger] decimal(x)[i]) by {
            if i < decimal(x).len() - 1 {
                assert(decimal(x)[i] == decimal(x / 10)[i]);
            }
        }
    } else {
        assert(decimal(x).drop_last() =~= Seq::<char>::empty());
        assert(d == x);
        assert(digit_value(decimal(x).last()) == d);
        assert(digits_value(Seq::<char>::empty()) == 0);
        assert(digits_value(decimal(x)) == digits_value(decimal(x).drop_last()) * 10 + digit_value(
            decimal(x).last(),
        ));
    }
}

/// Reading back the decimal rendering of a `u64` with `u64::from_str`
/// gives the number again.
pub proof fn law_decimal_parses_back(x: u64)
    ensures
        parse_u64(decimal(x as nat)) == Some(x),
{
    lemma_decimal(x as nat);
    let s = decimal(x as nat);
    assert(is_digit(s[0]));
    assert(unsigned_body(s) == s);
}

/// `16^n`.
pub open spec fn pow16(n: nat) -> nat
    decreases n,
{
    if n == 0 {
        1
    } else {
        16 * pow16((n - 1) as nat)
    }
}

/// The value of a lowercase hexadecimal digit character.
pub open spec fn hex_digit_value(c: char) -> nat {
    if (c as u32) <= 57 {
        ((c as u32) - 48) as nat
    } else {
        ((c as u32) - 87) as nat
    }
}

/// The value of a string of hexadecimal digits.
pub open spec fn hex_value(s: Seq<char>) -> nat
    decreases s.len(),
{
    if s.len() == 0 {
        0
    } else {
        hex_value(s.drop_last()) * 16 + hex_digit_value(s.last())
    }
}

proof fn lemma_pow16_positive(n: nat)
    ensures
        pow16(n) > 0,
    decreases n,
{
    if n > 0 {
        lemma_pow16_positive((n - 1) as nat);
    }
}

/// The `n` hexadecimal digits of `x` denote `x` modulo `16^n`.
pub proof fn lemma_hex_digits(x: nat, n: nat)
    ensures
        hex_digits(x, n).len() == n,
        hex_value(hex_digits(x, n)) == x % pow16(n),
    decreases n,
{
    if n > 0 {
        let m = (n - 1) as nat;
        lemma_hex_digits(x / 16, m);
        lemma_pow16_positive(m);
        let d = x % 16;
        if d < 10 {
            assert(((48 + d) as char) as u32 == 48 + d);
        } else {
            assert(((87 + d) as char) as u32 == 87 + d);
        }
        assert(hex_digit_value(hex_char(d)) == d);
        let h = hex_digits(x, n);
        assert(h.drop_last() =~= hex_digits(x / 16, m));
        assert(hex_value(h) == hex_value(h.drop_last()) * 16 + hex_digit_value(h.last()));
        vstd::arithmetic::div_mod::lemma_breakdown(x as int, 16, pow16(m) as int);
        assert(pow16(n) == 16 * pow16(m));
    } else {
        assert(hex_value(Seq::<char>::empty()) == 0);
    }
}

/// Sixteen hexadecimal digits are exactly enough for a `u64`.
pub proof fn lemma_pow16_16()
    ensures
        pow16(16) == 0x1_0000_0000_0000_0000,
{
    reveal_with_fuel(pow16, 17);
}

} // verus!
