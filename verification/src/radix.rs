//! Numbers written with a fixed number of digits over an alphabet, and the
//! lexicographic order of such texts.

use crate::value::{is_header_safe, is_printable_ascii};
use vstd::arithmetic::div_mod::{lemma_div_is_ordered, lemma_fundamental_div_mod, lemma_mod_bound};
use vstd::prelude::*;

verus! {

/// `value` without its `count` least significant digits to the base `base`.
pub open spec fn drop_digits(value: nat, base: nat, count: nat) -> nat
    decreases count,
{
    if count == 0 {
        value
    } else {
        drop_digits(value / base, base, (count - 1) as nat)
    }
}

/// The `width` least significant digits of `value` to the base
/// `alphabet.len()`, the most significant of them first, where the digit `d`
/// is written as `alphabet[d]`.
pub open spec fn fixed_width(alphabet: Seq<char>, value: nat, width: nat) -> Seq<char>
    decreases width,
{
    if width == 0 {
        Seq::empty()
    } else {
        fixed_width(alphabet, value / alphabet.len(), (width - 1) as nat).push(
            alphabet[(value % alphabet.len()) as int],
        )
    }
}

/// Whether the characters of `alphabet` stand in strictly increasing order.
pub open spec fn is_increasing(alphabet: Seq<char>) -> bool {
    forall|i: int, j: int| 0 <= i < j < alphabet.len() ==> alphabet[i] < alphabet[j]
}

/// Whether `a` comes before `b` in lexicographic order: at the first place
/// where the two differ, `a` has ended or holds the smaller character.
pub open spec fn precedes(a: Seq<char>, b: Seq<char>) -> bool {
    exists|k: int|
        0 <= k <= a.len() && k < b.len()
            && #[trigger] a.subrange(0, k) == b.subrange(0, k)
            && (k == a.len() || a[k] < b[k])
}

/// A text of `width` digits has `width` characters, each taken from the
/// alphabet.
pub proof fn lemma_fixed_width_shape(alphabet: Seq<char>, value: nat, width: nat)
    requires
        alphabet.len() > 0,
    ensures
        fixed_width(alphabet, value, width).len() == width,
        forall|i: int|
            0 <= i < width ==> alphabet.contains(#[trigger] fixed_width(alphabet, value, width)[i]),
    decreases width,
{
    if width > 0 {
        let base = alphabet.len();
        lemma_fixed_width_shape(alphabet, value / base, (width - 1) as nat);
        lemma_mod_bound(value as int, base as int);
        let digit = (value % base) as int;
        assert(alphabet.contains(alphabet[digit]));
    }
}

/// The character at the place `place` of a text of `width` digits is the digit
/// that `value` has `width - 1 - place` places before its last.
pub proof fn lemma_fixed_width_digit(alphabet: Seq<char>, value: nat, width: nat, place: int)
    requires
        alphabet.len() > 0,
        0 <= place < width,
    ensures
        fixed_width(alphabet, value, width)[place] == alphabet[(drop_digits(
            value,
            alphabet.len(),
            (width - 1 - place) as nat,
        ) % alphabet.len()) as int],
    decreases width,
{
    let base = alphabet.len();
    lemma_fixed_width_shape(alphabet, value / base, (width - 1) as nat);
    if place < width - 1 {
        lemma_fixed_width_digit(alphabet, value / base, (width - 1) as nat, place);
    }
}

/// Digits written over an alphabet of printable ASCII characters make a text
/// that is safe in a header.
pub proof fn lemma_fixed_width_header_safe(alphabet: Seq<char>, value: nat, width: nat)
    requires
        alphabet.len() > 0,
        is_header_safe(alphabet),
    ensures
        is_header_safe(fixed_width(alphabet, value, width)),
{
    lemma_fixed_width_shape(alphabet, value, width);
    let text = fixed_width(alphabet, value, width);
    assert forall|i: int| 0 <= i < text.len() implies is_printable_ascii(#[trigger] text[i]) by {
        assert(alphabet.contains(text[i]));
    }
}

/// Over an increasing alphabet the order of the numbers is the order of their
/// texts: where `a` is smaller than `b` once the `low` last digits of each are
/// set aside, and the two agree beyond `width` digits, the text of `a` comes
/// before that of `b`, and they part among the first `width - low` characters.
/// The result is the place where they part.
pub proof fn lemma_fixed_width_ordered(
    alphabet: Seq<char>,
    a: nat,
    b: nat,
    width: nat,
    low: nat,
) -> (k: int)
    requires
        alphabet.len() > 0,
        is_increasing(alphabet),
        low <= width,
        drop_digits(a, alphabet.len(), low) < drop_digits(b, alphabet.len(), low),
        drop_digits(a, alphabet.len(), width) == drop_digits(b, alphabet.len(), width),
    ensures
        0 <= k < width - low,
        fixed_width(alphabet, a, width).subrange(0, k) == fixed_width(alphabet, b, width).subrange(
            0,
            k,
        ),
        fixed_width(alphabet, a, width)[k] < fixed_width(alphabet, b, width)[k],
        precedes(fixed_width(alphabet, a, width), fixed_width(alphabet, b, width)),
    decreases width,
{
    let base = alphabet.len();
    let text_a = fixed_width(alphabet, a, width);
    let text_b = fixed_width(alphabet, b, width);
    // width > 0: with no digits in view the two numbers would be equal.
    let rest_a = fixed_width(alphabet, a / base, (width - 1) as nat);
    let rest_b = fixed_width(alphabet, b / base, (width - 1) as nat);
    lemma_fixed_width_shape(alphabet, a / base, (width - 1) as nat);
    lemma_fixed_width_shape(alphabet, b / base, (width - 1) as nat);
    let k = if low > 0 {
        lemma_fixed_width_ordered(alphabet, a / base, b / base, (width - 1) as nat, (low - 1) as nat)
    } else if a / base < b / base {
        lemma_fixed_width_ordered(alphabet, a / base, b / base, (width - 1) as nat, 0)
    } else {
        lemma_div_is_ordered(a as int, b as int, base as int);
        lemma_fundamental_div_mod(a as int, base as int);
        lemma_fundamental_div_mod(b as int, base as int);
        width - 1
    };
    assert(text_a.subrange(0, k) =~= rest_a.subrange(0, k));
    assert(text_b.subrange(0, k) =~= rest_b.subrange(0, k));
    k
}

/// Over an increasing alphabet two numbers that have one text of `width`
/// digits, and agree beyond those digits, are one number.
pub proof fn lemma_fixed_width_injective(alphabet: Seq<char>, a: nat, b: nat, width: nat)
    requires
        alphabet.len() > 0,
        is_increasing(alphabet),
        drop_digits(a, alphabet.len(), width) == drop_digits(b, alphabet.len(), width),
        fixed_width(alphabet, a, width) == fixed_width(alphabet, b, width),
    ensures
        a == b,
{
    if a < b {
        lemma_fixed_width_ordered(alphabet, a, b, width, 0);
    } else if b < a {
        lemma_fixed_width_ordered(alphabet, b, a, width, 0);
    }
}

} // verus!
