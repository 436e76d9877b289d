//! Instance identifiers: 128-bit numbers, drawn at random, written in the
//! canonical hyphenated form.

use vstd::arithmetic::div_mod::{
    lemma_basic_div, lemma_div_denominator, lemma_fundamental_div_mod,
};
use vstd::arithmetic::power::{lemma_pow_positive, pow};
use vstd::prelude::*;

verus! {

/// The lower-case hexadecimal digit for `n`, meant for `0 <= n < 16`.
pub open spec fn hex_digit(n: int) -> char {
    seq!['0', '1', '2', '3', '4', '5', '6', '7', '8', '9', 'a', 'b', 'c', 'd', 'e', 'f'][n]
}

/// The `k`-th hexadecimal digit of `id`, counted from the most significant
/// one, for `0 <= k < 32`.
pub open spec fn nibble(id: u128, k: int) -> int {
    (id as int / pow(16, (31 - k) as nat)) % 16
}

/// Which of the 32 digits stands at position `i` of the canonical form, for a
/// position that holds no hyphen.
pub open spec fn digit_index(i: int) -> int {
    if i < 8 {
        i
    } else if i < 13 {
        i - 1
    } else if i < 18 {
        i - 2
    } else if i < 23 {
        i - 3
    } else {
        i - 4
    }
}

/// The canonical text of an identifier: 32 lower-case hexadecimal digits,
/// most significant first, in groups of 8, 4, 4, 4 and 12 with a hyphen
/// between groups.
pub open spec fn canonical_text(id: u128) -> Seq<char> {
    Seq::new(
        36,
        |i: int|
            if i == 8 || i == 13 || i == 18 || i == 23 {
                '-'
            } else {
                hex_digit(nibble(id, digit_index(i)))
            },
    )
}

/// The position in the canonical form at which the `k`-th digit stands.
pub open spec fn digit_position(k: int) -> int {
    if k < 8 {
        k
    } else if k < 12 {
        k + 1
    } else if k < 16 {
        k + 2
    } else if k < 20 {
        k + 3
    } else {
        k + 4
    }
}

/// The number that the first `k` digits of `id` spell.
pub open spec fn leading(id: u128, k: int) -> int {
    id as int / pow(16, (32 - k) as nat)
}

/// One more digit: the number spelled so far moves up a place and the digit
/// is added.
proof fn lemma_leading_step(id: u128, k: int)
    requires
        0 <= k < 32,
    ensures
        leading(id, k + 1) == 16 * leading(id, k) + nibble(id, k),
        0 <= nibble(id, k) < 16,
{
    let unit = pow(16, (31 - k) as nat);
    lemma_pow_positive(16, (31 - k) as nat);
    assert(pow(16, (32 - k) as nat) == 16 * unit) by {
        reveal(pow);
    }
    lemma_div_denominator(id as int, unit, 16);
    lemma_fundamental_div_mod(id as int / unit, 16);
    assert(unit * 16 == 16 * unit);
}

/// No digits spell 0, and all 32 digits spell the identifier.
proof fn lemma_leading_ends(id: u128)
    ensures
        leading(id, 0) == 0,
        leading(id, 32) == id,
{
    reveal_with_fuel(pow, 33);
    assert(pow(16, 0) == 1);
    assert(pow(16, 32) == 0x1_0000_0000_0000_0000_0000_0000_0000_0000int);
    lemma_basic_div(id as int, pow(16, 32));
}

/// Identifiers with the same digits spell the same number at every length.
proof fn lemma_same_digits(a: u128, b: u128, k: int)
    requires
        0 <= k <= 32,
        forall|j: int| 0 <= j < 32 ==> nibble(a, j) == nibble(b, j),
    ensures
        leading(a, k) == leading(b, k),
    decreases k,
{
    if k == 0 {
        lemma_leading_ends(a);
        lemma_leading_ends(b);
    } else {
        lemma_same_digits(a, b, k - 1);
        lemma_leading_step(a, k - 1);
        lemma_leading_step(b, k - 1);
    }
}

/// Different identifiers have different canonical texts, so no two
/// instances share a directory.
pub proof fn lemma_canonical_text_injective(a: u128, b: u128)
    requires
        canonical_text(a) == canonical_text(b),
    ensures
        a == b,
{
    assert forall|j: int| 0 <= j < 32 implies nibble(a, j) == nibble(b, j) by {
        let p = digit_position(j);
        assert(canonical_text(a)[p] == hex_digit(nibble(a, j)));
        assert(canonical_text(b)[p] == hex_digit(nibble(b, j)));
        lemma_leading_step(a, j);
        lemma_leading_step(b, j);
    }
    lemma_same_digits(a, b, 32);
    lemma_leading_ends(a);
    lemma_leading_ends(b);
}

/// Whether `id` carries the marks of a randomly drawn identifier: version 4
/// in the thirteenth digit, and the two variant bits `10` on top of the
/// seventeenth.
pub open spec fn is_random_id(id: u128) -> bool {
    &&& nibble(id, 12) == 4
    &&& 8 <= nibble(id, 16) < 12
}

/// Draws an identifier with `uuid::Uuid::new_v4` and reads it as a number
/// with `Uuid::as_u128`.
///
/// Trusted: the value is random, so all that is claimed is what `new_v4`
/// fixes in every identifier it returns, the version and variant marks.
/// `new_v4` panics when the operating system cannot supply random bytes.
#[verifier::external_body]
pub(crate) fn random_id() -> (id: u128)
    ensures
        is_random_id(id),
{
    uuid::Uuid::new_v4().as_u128()
}

/// Writes an identifier as text through `uuid::Uuid`'s `Display`, on the
/// value that `Uuid::from_u128` makes of the number.
///
/// Trusted: the text is claimed to be the canonical hyphenated lower-case
/// form, as [`canonical_text`] spells it out.
#[verifier::external_body]
pub(crate) fn hyphenated(id: u128) -> (text: String)
    ensures
        text@ == canonical_text(id),
{
    uuid::Uuid::from_u128(id).to_string()
}

} // verus!
