//! Short codes: the base-62 positional form of an identifier, over the
//! alphabet `0-9a-z A-Z` (digits, then lower case, then upper case).
use vstd::prelude::*;

verus! {

/// The character that stands for the digit `d` (`0 <= d < 62`).
pub open spec fn digit_char(d: int) -> char {
    if d < 10 {
        (d + ('0' as int)) as char
    } else if d < 36 {
        (d - 10 + ('a' as int)) as char
    } else {
        (d - 36 + ('A' as int)) as char
    }
}

/// Whether `c` is one of the 62 digit characters.
pub open spec fn is_digit(c: char) -> bool {
    ('0' <= c && c <= '9') || ('a' <= c && c <= 'z') || ('A' <= c && c <= 'Z')
}

/// The digit that the character `c` stands for (meaningful when `is_digit(c)`).
pub open spec fn digit_value(c: char) -> nat {
    if '0' <= c && c <= '9' {
        (c as int - '0' as int) as nat
    } else if 'a' <= c && c <= 'z' {
        (c as int - 'a' as int + 10) as nat
    } else {
        (c as int - 'A' as int + 36) as nat
    }
}

/// The short code of `n`: its base-62 digits, most significant first, without
/// leading zeros; `0` is the single digit `0`.
pub open spec fn digits_of(n: nat) -> Seq<char>
    decreases n,
{
    if n < 62 {
        seq![digit_char(n as int)]
    } else {
        digits_of(n / 62).push(digit_char((n % 62) as int))
    }
}

/// Whether `s` is a well-formed code: non-empty, digits only.
pub open spec fn is_code(s: Seq<char>) -> bool {
    s.len() > 0 && forall|i: int| 0 <= i < s.len() ==> is_digit(#[trigger] s[i])
}

/// The number that the digits `s` spell, most significant first.
pub open spec fn value_of(s: Seq<char>) -> nat
    decreases s.len(),
{
    if s.len() == 0 {
        0
    } else {
        value_of(s.drop_last()) * 62 + digit_value(s.last())
    }
}

/// The identifier that `code` names, where it names one that fits in 64 bits.
pub open spec fn decoded(code: Seq<char>) -> Option<u64> {
    if is_code(code) && value_of(code) <= u64::MAX {
        Some(value_of(code) as u64)
    } else {
        None
    }
}

/// Relies on `base62::encode_alternative`: the base-62 digits of `n` over
/// `0-9a-zA-Z`, most significant first, with `0` for zero.
#[verifier::external_body]
fn base62_encode(n: u64) -> (r: String)
    ensures
        r@ == digits_of(n as nat),
{
    base62::encode_alternative(n)
}

/// Relies on `base62::decode_alternative`: the number that a non-empty string
/// of `0-9a-zA-Z` digits spells; an error for an empty string, another
/// character, or a number above `u128::MAX`.
#[verifier::external_body]
fn base62_decode(code: &str) -> (r: Option<u128>)
    ensures
        r == (if is_code(code@) && value_of(code@) <= u128::MAX {
            Some(value_of(code@) as u128)
        } else {
            None
        }),
{
    base62::decode_alternative(code).ok()
}

/// The short code of the identifier `n`.
pub fn encode(n: u64) -> (r: String)
    ensures
        r@ == digits_of(n as nat),
        r@.len() >= 1,
        n == 0 ==> r@ == seq!['0'],
{
    proof {
        lemma_value_of_digits(n as nat);
        lemma_zero_code();
    }
    base62_encode(n)
}

/// The identifier that the short code `code` names: `None` where `code` is
/// empty, holds a character outside `0-9a-zA-Z`, or names a number that does
/// not fit in 64 bits.
pub fn decode(code: &str) -> (r: Option<u64>)
    ensures
        r == decoded(code@),
{
    match base62_decode(code) {
        Some(v) => {
            if v <= u64::MAX as u128 {
                Some(v as u64)
            } else {
                None
            }
        },
        None => None,
    }
}

/// Each digit character reads back as the digit it stands for.
pub proof fn lemma_digit_char(d: int)
    requires
        0 <= d < 62,
    ensures
        is_digit(digit_char(d)),
        digit_value(digit_char(d)) == d,
{
}

/// Reading the code of `n` gives back `n`.
pub proof fn lemma_value_of_digits(n: nat)
    ensures
        is_code(digits_of(n)),
        value_of(digits_of(n)) == n,
    decreases n,
{
    if n < 62 {
        lemma_digit_char(n as int);
        let s = digits_of(n);
        assert(s.drop_last() =~= Seq::<char>::empty());
        assert(value_of(s.drop_last()) == 0);
    } else {
        let q = n / 62;
        let d = (n % 62) as int;
        lemma_value_of_digits(q);
        lemma_digit_char(d);
        let s = digits_of(n);
        assert(s.drop_last() =~= digits_of(q));
        assert(s.last() == digit_char(d));
        assert(q * 62 + d == n) by (nonlinear_arith)
            requires q == n / 62, d == n % 62;
        assert forall|i: int| 0 <= i < s.len() implies is_digit(#[trigger] s[i]) by {
            if i < s.len() - 1 {
                assert(s[i] == digits_of(q)[i]);
            }
        }
    }
}

/// Decoding the code of any 64-bit identifier gives that identifier back,
/// and no two identifiers share a code.
pub proof fn lemma_round_trip(n: u64, m: u64)
    ensures
        decoded(digits_of(n as nat)) == Some(n),
        is_code(digits_of(n as nat)),
        value_of(digits_of(n as nat)) == n,
        digits_of(n as nat) == digits_of(m as nat) ==> n == m,
{
    lemma_value_of_digits(n as nat);
    lemma_value_of_digits(m as nat);
}

/// The code of `0` is the single character `0`, never the empty string.
pub proof fn lemma_zero_code()
    ensures
        digits_of(0) == seq!['0'],
{
    assert(digits_of(0) =~= seq!['0']);
}

} // verus!
