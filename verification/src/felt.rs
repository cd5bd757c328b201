//! Field elements of the Stark curve's base field.
//!
//! A [`Felt`] is kept as four 64-bit limbs, most significant first, and is
//! always the canonical representative: its value is below the field prime.

use crate::hex::{hex_text, hex_text_digits, hex_value};
use vstd::prelude::*;
use vstd::utf8::is_ascii_chars;

verus! {

/// 2^64.
pub open spec fn limb_base() -> nat {
    0x1_0000_0000_0000_0000nat
}

/// The field prime, 2^251 + 17 * 2^192 + 1.
pub open spec fn field_prime() -> nat {
    0x800000000000011000000000000000000000000000000000000000000000001nat
}

/// The most significant limb of the field prime.
pub const PRIME_TOP_LIMB: u64 = 0x0800_0000_0000_0011;

/// The number that four limbs stand for, most significant limb first.
pub open spec fn limbs_value(hi: u64, mid_hi: u64, mid_lo: u64, lo: u64) -> nat {
    (((hi as nat * limb_base() + mid_hi as nat) * limb_base() + mid_lo as nat) * limb_base()
        + lo as nat) as nat
}

/// Whether four limbs stand for a number below the field prime.
pub open spec fn limbs_canonical(hi: u64, mid_hi: u64, mid_lo: u64, lo: u64) -> bool {
    hi < PRIME_TOP_LIMB || (hi == PRIME_TOP_LIMB && mid_hi == 0 && mid_lo == 0 && lo == 0)
}

/// Byte `k` (0 is the most significant) of a limb written big-endian.
pub open spec fn limb_byte(limb: u64, k: int) -> u8 {
    ((limb >> ((8 * (7 - k)) as u64)) & 0xff) as u8
}

/// An element of the Stark field.
#[derive(Clone, Copy, Debug, PartialEq, Eq, Structural, Hash)]
pub struct Felt {
    pub(crate) hi: u64,
    pub(crate) mid_hi: u64,
    pub(crate) mid_lo: u64,
    pub(crate) lo: u64,
}

impl Felt {
    /// Every element is the canonical representative of its residue class.
    #[verifier::type_invariant]
    pub closed spec fn is_canonical(self) -> bool {
        limbs_canonical(self.hi, self.mid_hi, self.mid_lo, self.lo)
    }

    /// The four limbs, most significant first.
    pub closed spec fn digits(self) -> Seq<u64> {
        seq![self.hi, self.mid_hi, self.mid_lo, self.lo]
    }

    /// The natural number below the prime that this element stands for.
    pub open spec fn value(self) -> nat {
        limbs_value(self.digits()[0], self.digits()[1], self.digits()[2], self.digits()[3])
    }

    /// The 32 bytes of the value, most significant first.
    pub open spec fn bytes(self) -> Seq<u8> {
        Seq::new(32, |i: int| limb_byte(self.digits()[i / 8], i % 8))
    }

    /// The element that stands for a number below the prime.
    pub closed spec fn with_value(v: nat) -> Felt {
        Felt {
            hi: (v / (limb_base() * limb_base() * limb_base())) as u64,
            mid_hi: ((v / (limb_base() * limb_base())) % limb_base()) as u64,
            mid_lo: ((v / limb_base()) % limb_base()) as u64,
            lo: (v % limb_base()) as u64,
        }
    }

    /// The additive identity.
    pub fn zero() -> (r: Felt)
        ensures
            r == Felt::with_value(0),
            r.value() == 0,
            r.is_canonical(),
    {
        Felt::from_u64(0)
    }

    /// The multiplicative identity.
    pub fn one() -> (r: Felt)
        ensures
            r == Felt::with_value(1),
            r.value() == 1,
            r.is_canonical(),
    {
        Felt::from_u64(1)
    }

    /// The element whose value is `x`.
    pub fn from_u64(x: u64) -> (r: Felt)
        ensures
            r == Felt::with_value(x as nat),
            r.value() == x,
            r.is_canonical(),
    {
        let r = Felt { hi: 0, mid_hi: 0, mid_lo: 0, lo: x };
        proof {
            lemma_with_value(r);
        }
        r
    }

    /// The element whose value is the length or index `x`.
    pub fn from_usize(x: usize) -> (r: Felt)
        ensures
            r == Felt::with_value(x as nat),
            r.value() == x,
            r.is_canonical(),
    {
        Felt::from_u64(x as u64)
    }

    /// The element with the given limbs, most significant first, or `None`
    /// where they stand for a number that is not below the prime.
    pub fn from_be_digits(digits: [u64; 4]) -> (r: Option<Felt>)
        ensures
            r is Some <==> limbs_canonical(digits[0], digits[1], digits[2], digits[3]),
            r is Some ==> r->0.digits() == digits@ && r->0.is_canonical() && r->0
                == Felt::with_value(limbs_value(digits[0], digits[1], digits[2], digits[3])),
    {
        let hi: u64 = digits[0];
        let mid_hi: u64 = digits[1];
        let mid_lo: u64 = digits[2];
        let lo: u64 = digits[3];
        if hi < PRIME_TOP_LIMB || (hi == PRIME_TOP_LIMB && mid_hi == 0 && mid_lo == 0 && lo == 0) {
            let f = Felt { hi, mid_hi, mid_lo, lo };
            proof {
                assert(f.digits() =~= digits@);
                lemma_with_value(f);
            }
            Some(f)
        } else {
            None
        }
    }

    /// The four limbs, most significant first.
    pub fn to_be_digits(&self) -> (r: [u64; 4])
        ensures
            r@ == self.digits(),
    {
        let r: [u64; 4] = [self.hi, self.mid_hi, self.mid_lo, self.lo];
        assert(r@ =~= self.digits());
        r
    }

    /// The 32 bytes of the value, most significant first.
    pub fn to_bytes_be(&self) -> (r: [u8; 32])
        ensures
            r@ == self.bytes(),
    {
        let digits = self.to_be_digits();
        let mut out: [u8; 32] = [0u8; 32];
        let mut i: usize = 0;
        while i < 32
            invariant
                i <= 32,
                digits@ == self.digits(),
                forall|j: int| 0 <= j < i ==> out@[j] == limb_byte(self.digits()[j / 8], j % 8),
            decreases 32 - i,
        {
            let limb: u64 = digits[i / 8];
            let shift: u64 = (8 * (7 - (i % 8))) as u64;
            let byte: u64 = (limb >> shift) & 0xff;
            assert(byte <= 0xff) by (bit_vector)
                requires
                    byte == (limb >> shift) & 0xff,
            ;
            out[i] = byte as u8;
            i = i + 1;
        }
        assert(out@ =~= self.bytes());
        out
    }

    /// Whether two elements are the same element.
    pub fn equals(&self, other: &Felt) -> (r: bool)
        ensures
            r == (*self == *other),
    {
        self.hi == other.hi && self.mid_hi == other.mid_hi && self.mid_lo == other.mid_lo
            && self.lo == other.lo
    }
}

/// Canonical elements are below the prime, and an element is fixed by its value.
pub proof fn lemma_value_is_injective(a: Felt, b: Felt)
    requires
        a.is_canonical(),
        b.is_canonical(),
    ensures
        a.value() < field_prime(),
        b.value() < field_prime(),
        a.value() == b.value() <==> a == b,
{
    let base = limb_base() as int;
    assert(a.digits()[0] == a.hi && a.digits()[3] == a.lo);
    assert(b.digits()[0] == b.hi && b.digits()[3] == b.lo);
    if a.value() == b.value() {
        let xa = (a.hi as int * base + a.mid_hi as int) * base + a.mid_lo as int;
        let xb = (b.hi as int * base + b.mid_hi as int) * base + b.mid_lo as int;
        assert(xa * base + a.lo as int == xb * base + b.lo as int);
        assert(xa == xb && a.lo == b.lo);
        let ya = a.hi as int * base + a.mid_hi as int;
        let yb = b.hi as int * base + b.mid_hi as int;
        assert(ya * base + a.mid_lo as int == yb * base + b.mid_lo as int);
        assert(ya == yb && a.mid_lo == b.mid_lo);
        assert(a.hi == b.hi && a.mid_hi == b.mid_hi);
    }
}

/// An element is the element of its value.
pub proof fn lemma_with_value(f: Felt)
    requires
        f.is_canonical(),
    ensures
        Felt::with_value(f.value()) == f,
{
    let base = limb_base() as int;
    let v = f.value() as int;
    let x = (f.hi as int * base + f.mid_hi as int) * base + f.mid_lo as int;
    let y = f.hi as int * base + f.mid_hi as int;
    assert(f.digits()[0] == f.hi && f.digits()[1] == f.mid_hi && f.digits()[2] == f.mid_lo
        && f.digits()[3] == f.lo);
    assert(v == x * base + f.lo as int);
    assert(v % base == f.lo as int && v / base == x);
    assert(x == y * base + f.mid_lo as int);
    assert(x % base == f.mid_lo as int && x / base == y);
    assert(y % base == f.mid_hi as int && y / base == f.hi as int);
    assert(v / (base * base) == y) by {
        assert(base * base == 0x1_0000000000000000_0000000000000000int);
        assert(v == y * (base * base) + (f.mid_lo as int * base + f.lo as int)) by (nonlinear_arith)
            requires
                v == x * base + f.lo as int,
                x == y * base + f.mid_lo as int,
        ;
    }
    assert(v / (base * base * base) == f.hi as int) by {
        assert(base * base * base == 0x1_0000000000000000_0000000000000000_0000000000000000int);
        assert(v == f.hi as int * (base * base * base) + ((f.mid_hi as int * base
            + f.mid_lo as int) * base + f.lo as int)) by (nonlinear_arith)
            requires
                v == x * base + f.lo as int,
                x == y * base + f.mid_lo as int,
                y == f.hi as int * base + f.mid_hi as int,
        ;
    }
}

/// The element of a number below the prime is canonical and has that value.
pub proof fn lemma_value_of_with_value(v: nat)
    requires
        v < field_prime(),
    ensures
        Felt::with_value(v).is_canonical(),
        Felt::with_value(v).value() == v,
{
    let base = limb_base() as int;
    let f = Felt::with_value(v);
    let vi = v as int;
    assert(base * base == 0x1_0000000000000000_0000000000000000int);
    assert(base * base * base == 0x1_0000000000000000_0000000000000000_0000000000000000int);
    let q1 = vi / base;
    let q2 = vi / (base * base);
    let q3 = vi / (base * base * base);
    assert(q2 == q1 / base) by (nonlinear_arith)
        requires
            q1 == vi / base,
            q2 == vi / (base * base),
            base > 0,
            vi >= 0,
    ;
    assert(q3 == q2 / base) by (nonlinear_arith)
        requires
            q2 == vi / (base * base),
            q3 == vi / (base * base * base),
            base > 0,
            vi >= 0,
    ;
    assert(q3 <= PRIME_TOP_LIMB);
    assert(f.hi == q3 && f.mid_hi == q2 % base && f.mid_lo == q1 % base && f.lo == vi % base);
    assert(f.digits()[0] == f.hi && f.digits()[1] == f.mid_hi && f.digits()[2] == f.mid_lo
        && f.digits()[3] == f.lo);
    assert(vi == q1 * base + vi % base);
    assert(q1 == q2 * base + q1 % base);
    assert(q2 == q3 * base + q2 % base);
    assert(f.value() == v);
    if q3 == PRIME_TOP_LIMB {
        assert(vi == ((q3 * base + q2 % base) * base + q1 % base) * base + vi % base);
        assert(q3 * (base * base * base) <= vi) by (nonlinear_arith)
            requires
                vi == ((q3 * base + q2 % base) * base + q1 % base) * base + vi % base,
                q2 % base >= 0,
                q1 % base >= 0,
                vi % base >= 0,
                base > 0,
        ;
        assert(vi == q3 * (base * base * base) + ((q2 % base) * base + q1 % base) * base + vi
            % base) by (nonlinear_arith)
            requires
                vi == ((q3 * base + q2 % base) * base + q1 % base) * base + vi % base,
        ;
    }
}

/// Whether every element of a run is canonical.
pub open spec fn all_canonical(felts: Seq<Felt>) -> bool {
    forall|i: int| 0 <= i < felts.len() ==> (#[trigger] felts[i]).is_canonical()
}

/// Why a text is no Cairo short string.
#[derive(Clone, Copy, Debug, PartialEq, Eq, Structural)]
pub enum ShortStringError {
    /// The text holds a character outside ASCII.
    NonAsciiCharacter,
    /// The text is longer than 31 characters.
    StringTooLong,
}

/// A name that holds a character outside ASCII has no selector.
#[derive(Clone, Copy, Debug, PartialEq, Eq, Structural)]
pub struct NonAsciiNameError;

/// The number whose big-endian bytes are the characters of an ASCII text.
pub open spec fn short_string_value(s: Seq<char>) -> nat
    decreases s.len(),
{
    if s.len() == 0 {
        0
    } else {
        short_string_value(s.drop_last()) * 256 + s.last() as nat
    }
}

/// The value of the entry point selector that belongs to a function name: the
/// result of `starknet::core::utils::get_selector_from_name` on an ASCII name.
pub uninterp spec fn selector_value(name: Seq<char>) -> nat;

/// Calls the `LowerHex` formatter of `starknet::core::types::Felt` in its
/// alternate form. Trusted: the text is `0x` followed by the digits of the
/// value in lower case, without leading zeros.
#[verifier::external_body]
fn format_hex(f: &Felt) -> (r: String)
    requires
        f.is_canonical(),
    ensures
        r@ == hex_text(f.value()),
{
    format!("{:#x}", starknet::core::types::Felt::from_bytes_be(&f.to_bytes_be()))
}

/// Calls `serde_json::from_value` for a `starknet::core::types::Felt` on a
/// JSON string. Trusted: a text without a digit run is refused, and so is one
/// whose digits stand for more than the prime; digits that stand for the
/// prime or less give the element of that number reduced by the prime.
#[verifier::external_body]
fn parse_hex(text: &str) -> (r: Option<Felt>)
    ensures
        hex_text_digits(text@) is None ==> r is None,
        hex_text_digits(text@) is Some && hex_value(hex_text_digits(text@)->0) > field_prime()
            ==> r is None,
        hex_text_digits(text@) is Some && hex_value(hex_text_digits(text@)->0) <= field_prime()
            ==> r is Some,
        r is Some ==> r->0.is_canonical(),
        r is Some ==> r->0.value() == hex_value(hex_text_digits(text@)->0) % field_prime(),
{
    let value = serde_json::Value::String(text.to_owned());
    let felt = serde_json::from_value::<starknet::core::types::Felt>(value).ok()?;
    let d = felt.to_be_digits();
    Some(Felt { hi: d[0], mid_hi: d[1], mid_lo: d[2], lo: d[3] })
}

/// Calls `starknet::core::utils::cairo_short_string_to_felt`. Trusted: a text
/// with a character outside ASCII is refused first, then one of more than 31
/// characters; any other gives the element whose big-endian bytes are the
/// characters.
#[verifier::external_body]
fn short_string_to_felt(text: &str) -> (r: Result<Felt, ShortStringError>)
    ensures
        !is_ascii_chars(text@) ==> r matches Err(ShortStringError::NonAsciiCharacter),
        is_ascii_chars(text@) && text@.len() > 31 ==> r matches Err(ShortStringError::StringTooLong),
        is_ascii_chars(text@) && text@.len() <= 31 ==> r is Ok && r->Ok_0.is_canonical()
            && r->Ok_0.value() == short_string_value(text@),
{
    match starknet::core::utils::cairo_short_string_to_felt(text) {
        Ok(felt) => {
            let d = felt.to_be_digits();
            Ok(Felt { hi: d[0], mid_hi: d[1], mid_lo: d[2], lo: d[3] })
        },
        Err(starknet::core::utils::CairoShortStringToFeltError::NonAsciiCharacter) => Err(
            ShortStringError::NonAsciiCharacter,
        ),
        Err(starknet::core::utils::CairoShortStringToFeltError::StringTooLong) => Err(
            ShortStringError::StringTooLong,
        ),
    }
}

/// Calls `starknet::core::utils::get_selector_from_name`. Trusted: exactly the
/// names with a character outside ASCII are refused, and any other name gives
/// the element that the crate computes for it.
#[verifier::external_body]
fn selector_of(name: &str) -> (r: Result<Felt, NonAsciiNameError>)
    ensures
        r is Ok <==> is_ascii_chars(name@),
        r is Ok ==> r->Ok_0.is_canonical() && r->Ok_0.value() == selector_value(name@),
{
    match starknet::core::utils::get_selector_from_name(name) {
        Ok(felt) => {
            let d = felt.to_be_digits();
            Ok(Felt { hi: d[0], mid_hi: d[1], mid_lo: d[2], lo: d[3] })
        },
        Err(_) => Err(NonAsciiNameError),
    }
}

/// The element that a text stands for, if it stands for one: the text has a
/// digit run whose number is not above the prime.
pub open spec fn felt_of_hex(text: Seq<char>) -> Option<Felt> {
    match hex_text_digits(text) {
        Some(run) => if hex_value(run) <= field_prime() {
            Some(Felt::with_value(hex_value(run) % field_prime()))
        } else {
            None
        },
        None => None,
    }
}

/// The element of a Cairo short string, or why the text is none.
pub open spec fn felt_of_short_string(text: Seq<char>) -> Result<Felt, ShortStringError> {
    if !is_ascii_chars(text) {
        Err(ShortStringError::NonAsciiCharacter)
    } else if text.len() > 31 {
        Err(ShortStringError::StringTooLong)
    } else {
        Ok(Felt::with_value(short_string_value(text)))
    }
}

/// The entry point selector of an ASCII function name.
pub open spec fn selector_of_name(name: Seq<char>) -> Felt {
    Felt::with_value(selector_value(name))
}

impl Felt {
    /// The text of the element: `0x` and the digits of its value in lower
    /// case, without leading zeros.
    pub fn to_hex_string(&self) -> (r: String)
        ensures
            r@ == hex_text(self.value()),
    {
        proof {
            use_type_invariant(self);
        }
        format_hex(self)
    }

    /// Reads the text of an element. The text starts with `0x`; its digits,
    /// at most 64, in either case, stand for a number that is not above the
    /// prime.
    pub fn from_hex(text: &str) -> (r: Option<Felt>)
        ensures
            r == felt_of_hex(text@),
            r is Some ==> r->0.is_canonical(),
    {
        let r = parse_hex(text);
        proof {
            if r is Some {
                lemma_with_value(r->0);
            }
        }
        r
    }

    /// The element of a Cairo short string: an ASCII text of at most 31
    /// characters, read as a big-endian number.
    pub fn from_short_string(text: &str) -> (r: Result<Felt, ShortStringError>)
        ensures
            r == felt_of_short_string(text@),
            r is Ok ==> r->Ok_0.is_canonical() && r->Ok_0.value() == short_string_value(text@),
    {
        let r = short_string_to_felt(text);
        proof {
            if r is Ok {
                lemma_with_value(r->Ok_0);
            }
        }
        r
    }
}

/// The entry point selector of a function name. A name with a character
/// outside ASCII has none.
pub fn get_selector_from_name(name: &str) -> (r: Result<Felt, NonAsciiNameError>)
    ensures
        r is Ok <==> is_ascii_chars(name@),
        r is Ok ==> r->Ok_0 == selector_of_name(name@) && r->Ok_0.is_canonical()
            && r->Ok_0.value() == selector_value(name@),
{
    let r = selector_of(name);
    proof {
        if r is Ok {
            lemma_with_value(r->Ok_0);
        }
    }
    r
}

/// Writing an element as text and reading the text gives the element back.
pub proof fn lemma_hex_round_trip(f: Felt)
    requires
        f.is_canonical(),
    ensures
        felt_of_hex(hex_text(f.value())) == Some(f),
{
    lemma_value_is_injective(f, f);
    crate::hex::lemma_pow16_64();
    crate::hex::lemma_hex_text_round_trip(f.value());
    lemma_with_value(f);
    let run = hex_text_digits(hex_text(f.value()))->0;
    assert(hex_value(run) % field_prime() == f.value()) by {
        vstd::arithmetic::div_mod::lemma_small_mod(f.value(), field_prime());
    }
}

} // verus!
