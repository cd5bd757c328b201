//! Hexadecimal text of natural numbers, as field elements are written on the
//! wire and in storage keys: the prefix `0x` and the digits without leading
//! zeros, in lower case. Reading accepts upper-case digits as well.

use vstd::prelude::*;

verus! {

/// The value of a hexadecimal digit; 16 for any other character.
pub open spec fn hex_digit_value(c: char) -> nat {
    match c {
        '0' => 0,
        '1' => 1,
        '2' => 2,
        '3' => 3,
        '4' => 4,
        '5' => 5,
        '6' => 6,
        '7' => 7,
        '8' => 8,
        '9' => 9,
        'a' | 'A' => 10,
        'b' | 'B' => 11,
        'c' | 'C' => 12,
        'd' | 'D' => 13,
        'e' | 'E' => 14,
        'f' | 'F' => 15,
        _ => 16,
    }
}

/// Whether a character is one of `0-9`, `a-f`, `A-F`.
pub open spec fn is_hex_digit(c: char) -> bool {
    hex_digit_value(c) < 16
}

/// Whether every character of a text is a hexadecimal digit.
pub open spec fn all_hex_digits(s: Seq<char>) -> bool {
    forall|i: int| 0 <= i < s.len() ==> is_hex_digit(#[trigger] s[i])
}

/// The number that a run of hexadecimal digits stands for.
pub open spec fn hex_value(s: Seq<char>) -> nat
    decreases s.len(),
{
    if s.len() == 0 {
        0
    } else {
        hex_value(s.drop_last()) * 16 + hex_digit_value(s.last())
    }
}

/// The lower-case digit for a value below 16.
pub open spec fn hex_digit(d: nat) -> char {
    if d == 0 {
        '0'
    } else if d == 1 {
        '1'
    } else if d == 2 {
        '2'
    } else if d == 3 {
        '3'
    } else if d == 4 {
        '4'
    } else if d == 5 {
        '5'
    } else if d == 6 {
        '6'
    } else if d == 7 {
        '7'
    } else if d == 8 {
        '8'
    } else if d == 9 {
        '9'
    } else if d == 10 {
        'a'
    } else if d == 11 {
        'b'
    } else if d == 12 {
        'c'
    } else if d == 13 {
        'd'
    } else if d == 14 {
        'e'
    } else {
        'f'
    }
}

/// The digits of a number, most significant first, without leading zeros;
/// zero is the single digit `0`.
pub open spec fn hex_digits(n: nat) -> Seq<char>
    decreases n,
{
    if n < 16 {
        seq![hex_digit(n)]
    } else {
        hex_digits(n / 16).push(hex_digit(n % 16))
    }
}

/// Whether a text starts with `0x`.
pub open spec fn has_hex_prefix(s: Seq<char>) -> bool {
    s.len() >= 2 && s[0] == '0' && s[1] == 'x'
}

/// The text of a number: `0x` and its digits.
pub open spec fn hex_text(n: nat) -> Seq<char> {
    seq!['0', 'x'] + hex_digits(n)
}

/// The digit run of a text that is read as a field element, or `None` where
/// the text is refused. The prefix `0x` is required and may not stand alone; a
/// second prefix before at least one more character is passed over; what
/// remains must be at most 64 hexadecimal digits.
pub open spec fn hex_text_digits(s: Seq<char>) -> Option<Seq<char>> {
    if !has_hex_prefix(s) || s.len() == 2 {
        None
    } else {
        let rest = s.skip(2);
        let run = if rest.len() > 2 && has_hex_prefix(rest) {
            rest.skip(2)
        } else {
            rest
        };
        if all_hex_digits(run) && run.len() <= 64 {
            Some(run)
        } else {
            None
        }
    }
}

/// 16 to the power `k`.
pub open spec fn pow16(k: nat) -> nat
    decreases k,
{
    if k == 0 {
        1
    } else {
        16 * pow16((k - 1) as nat)
    }
}

/// The digits of a number are lower-case hexadecimal digits that stand for it.
pub proof fn lemma_hex_digits_value(n: nat)
    ensures
        hex_digits(n).len() >= 1,
        all_hex_digits(hex_digits(n)),
        hex_value(hex_digits(n)) == n,
    decreases n,
{
    if n < 16 {
        let s = seq![hex_digit(n)];
        assert(s.drop_last() =~= Seq::<char>::empty());
        assert(hex_value(s.drop_last()) == 0);
        assert(s.last() == hex_digit(n));
    } else {
        lemma_hex_digits_value(n / 16);
        let head = hex_digits(n / 16);
        let s = head.push(hex_digit(n % 16));
        assert(s.drop_last() =~= head);
        assert(s.last() == hex_digit(n % 16));
        assert forall|i: int| 0 <= i < s.len() implies is_hex_digit(#[trigger] s[i]) by {
            if i < head.len() {
                assert(s[i] == head[i]);
            }
        }
    }
}

/// A number below 16^k has at most `k` digits.
pub proof fn lemma_hex_digits_len(n: nat, k: nat)
    requires
        k >= 1,
        n < pow16(k),
    ensures
        hex_digits(n).len() <= k,
    decreases k,
{
    if n >= 16 {
        assert(pow16(1) == 16) by {
            reveal_with_fuel(pow16, 2);
        }
        assert(k >= 2);
        assert(pow16(k) == 16 * pow16((k - 1) as nat));
        lemma_hex_digits_len(n / 16, (k - 1) as nat);
    }
}

/// 16^64 is 2^256.
pub proof fn lemma_pow16_64()
    ensures
        pow16(64) == 0x1_0000000000000000_0000000000000000_0000000000000000_0000000000000000nat,
{
    assert(pow16(16) == 0x1_0000000000000000nat) by {
        reveal_with_fuel(pow16, 17);
    }
    lemma_pow16_add(16, 16);
    assert(pow16(32) == 0x1_0000000000000000nat * 0x1_0000000000000000nat);
    assert(pow16(32) == 0x1_0000000000000000_0000000000000000nat);
    lemma_pow16_add(32, 32);
    assert(pow16(64) == 0x1_0000000000000000_0000000000000000nat
        * 0x1_0000000000000000_0000000000000000nat);
}

/// 16^(a+b) is 16^a times 16^b.
pub proof fn lemma_pow16_add(a: nat, b: nat)
    ensures
        pow16(a + b) == pow16(a) * pow16(b),
    decreases a,
{
    if a == 0 {
        assert(pow16(0) == 1);
        assert(1 * pow16(b) == pow16(b));
    } else {
        lemma_pow16_add((a - 1) as nat, b);
        assert(pow16(a + b) == 16 * pow16(((a - 1) as nat) + b));
        assert(16 * (pow16((a - 1) as nat) * pow16(b)) == (16 * pow16((a - 1) as nat)) * pow16(b))
            by (nonlinear_arith);
    }
}

/// The text of a number holds nothing but `0`, `x` and digits, and so no `/`.
pub proof fn lemma_hex_text_has_no_slash(n: nat)
    ensures
        hex_text(n).len() >= 3,
        forall|i: int| 0 <= i < hex_text(n).len() ==> #[trigger] hex_text(n)[i] != '/',
{
    lemma_hex_digits_value(n);
    let digits = hex_digits(n);
    let text = hex_text(n);
    assert forall|i: int| 0 <= i < text.len() implies #[trigger] text[i] != '/' by {
        if i >= 2 {
            assert(text[i] == digits[i - 2]);
            assert(is_hex_digit(digits[i - 2]));
        }
    }
}

/// Two numbers with the same text are the same number.
pub proof fn lemma_hex_text_is_injective(a: nat, b: nat)
    requires
        hex_text(a) == hex_text(b),
    ensures
        a == b,
{
    lemma_hex_digits_value(a);
    lemma_hex_digits_value(b);
    assert(hex_text(a).skip(2) =~= hex_digits(a));
    assert(hex_text(b).skip(2) =~= hex_digits(b));
}

/// Reading the text of a number below 2^256 gives back its digits, and they
/// stand for the number.
pub proof fn lemma_hex_text_round_trip(n: nat)
    requires
        n < pow16(64),
    ensures
        hex_text_digits(hex_text(n)) == Some(hex_digits(n)),
        hex_value(hex_digits(n)) == n,
{
    lemma_hex_digits_value(n);
    lemma_hex_digits_len(n, 64);
    let digits = hex_digits(n);
    let text = hex_text(n);
    assert(text.len() == 2 + digits.len());
    assert(text[0] == '0' && text[1] == 'x');
    assert(text.skip(2) =~= digits);
    if digits.len() > 2 {
        assert(is_hex_digit(digits[1]));
    }
}

} // verus!
