//! The random generator.

use crate::make::MakeRequestId;
use crate::radix::{
    drop_digits, fixed_width, lemma_fixed_width_digit, lemma_fixed_width_injective,
    lemma_fixed_width_shape,
};
use crate::value::{is_header_safe, is_printable_ascii, RequestId};
use vstd::prelude::*;

verus! {

/// The 16 digits of a random identifier, in lower case.
pub open spec fn lower_hex() -> Seq<char> {
    "0123456789abcdef"@
}

/// The text of the random identifier `bits`: its 32 hexadecimal digits, the
/// most significant first, in groups of 8, 4, 4, 4 and 12 with a hyphen
/// between two groups.
pub open spec fn uuid_text(bits: u128) -> Seq<char> {
    let digits = fixed_width(lower_hex(), bits as nat, 32);
    digits.subrange(0, 8).push('-')
        + digits.subrange(8, 12).push('-')
        + digits.subrange(12, 16).push('-')
        + digits.subrange(16, 20).push('-')
        + digits.subrange(20, 32)
}

/// Whether `bits` carry the marks of a random identifier: the version digit
/// is 4, and the two variant bits after it are 1 and 0. The other 122 bits are
/// free.
pub open spec fn is_version_4(bits: u128) -> bool {
    bits & 0x00000000_0000_f000_c000_000000000000 == 0x00000000_0000_4000_8000_000000000000
}

/// Whether `text` has the hyphenated form: 36 characters, a hyphen at each of
/// the places 8, 13, 18 and 23, and a hexadecimal digit in lower case at every
/// other place.
pub open spec fn is_hyphenated(text: Seq<char>) -> bool {
    &&& text.len() == 36
    &&& forall|i: int|
        #![trigger text[i]]
        0 <= i < 36 ==> if i == 8 || i == 13 || i == 18 || i == 23 {
            text[i] == '-'
        } else {
            lower_hex().contains(text[i])
        }
}

/// The text of a random identifier has the hyphenated form, and is safe in a
/// header.
pub proof fn lemma_uuid_text_shape(bits: u128)
    ensures
        is_hyphenated(uuid_text(bits)),
        is_header_safe(uuid_text(bits)),
{
    reveal_strlit("0123456789abcdef");
    lemma_fixed_width_shape(lower_hex(), bits as nat, 32);
    let text = uuid_text(bits);
    assert forall|i: int| 0 <= i < text.len() implies is_printable_ascii(#[trigger] text[i]) by {
        if !(i == 8 || i == 13 || i == 18 || i == 23) {
            assert(lower_hex().contains(text[i]));
        }
    }
}

/// Two identifiers with one text are one identifier.
pub proof fn lemma_uuid_text_injective(a: u128, b: u128)
    requires
        uuid_text(a) == uuid_text(b),
    ensures
        a == b,
{
    reveal_strlit("0123456789abcdef");
    let digits_a = fixed_width(lower_hex(), a as nat, 32);
    let digits_b = fixed_width(lower_hex(), b as nat, 32);
    lemma_fixed_width_shape(lower_hex(), a as nat, 32);
    lemma_fixed_width_shape(lower_hex(), b as nat, 32);
    assert forall|i: int| 0 <= i < 32 implies digits_a[i] == digits_b[i] by {
        let place = if i < 8 {
            i
        } else if i < 12 {
            i + 1
        } else if i < 16 {
            i + 2
        } else if i < 20 {
            i + 3
        } else {
            i + 4
        };
        assert(uuid_text(a)[place] == digits_a[i]);
        assert(uuid_text(b)[place] == digits_b[i]);
    }
    assert(digits_a =~= digits_b);
    assert(drop_digits(a as nat, 16, 32) == 0 && drop_digits(b as nat, 16, 32) == 0) by {
        reveal_with_fuel(drop_digits, 33);
    }
    lemma_fixed_width_injective(lower_hex(), a as nat, b as nat, 32);
}

/// Where the bits carry the marks of a random identifier, the text shows
/// them: the digit at the place 14 is 4, and the one at the place 19 is 8, 9,
/// a or b.
pub proof fn lemma_uuid_text_marks(bits: u128)
    requires
        is_version_4(bits),
    ensures
        uuid_text(bits)[14] == '4',
        uuid_text(bits)[19] == '8' || uuid_text(bits)[19] == '9' || uuid_text(bits)[19] == 'a'
            || uuid_text(bits)[19] == 'b',
{
    reveal_strlit("0123456789abcdef");
    let digits = fixed_width(lower_hex(), bits as nat, 32);
    lemma_fixed_width_shape(lower_hex(), bits as nat, 32);
    lemma_fixed_width_digit(lower_hex(), bits as nat, 32, 12);
    lemma_fixed_width_digit(lower_hex(), bits as nat, 32, 16);
    assert(uuid_text(bits)[14] == digits[12]);
    assert(uuid_text(bits)[19] == digits[16]);
    assert(drop_digits(bits as nat, 16, 19) == bits / 0x1000_0000_0000_0000_0000u128
        && drop_digits(bits as nat, 16, 15) == bits / 0x1000_0000_0000_0000u128) by {
        reveal_with_fuel(drop_digits, 20);
    }
    assert((bits / 0x1000_0000_0000_0000_0000u128) % 16 == 4 && 8 <= (bits
        / 0x1000_0000_0000_0000u128) % 16 <= 11) by (bit_vector)
        requires
            bits & 0x00000000_0000_f000_c000_000000000000
                == 0x00000000_0000_4000_8000_000000000000,
    ;
}

/// Calls `Uuid::new_v4` of the uuid crate and hands out the 128 bits of the
/// identifier it made. The crate draws 128 random bits from the operating
/// system and then sets the version digit and the variant bits; nothing else
/// is promised of the result. The crate panics where the operating system has
/// no random bytes to give.
#[verifier::external_body]
fn random_uuid() -> (bits: u128)
    ensures
        is_version_4(bits),
{
    uuid::Uuid::new_v4().as_u128()
}

/// Calls `to_string` of the uuid crate on the identifier `bits`. The crate
/// writes the hyphenated form in lower case: the 16 bytes in order, two digits
/// for each, and the four hyphens.
#[verifier::external_body]
fn uuid_string(bits: u128) -> (text: String)
    ensures
        text@ == uuid_text(bits),
{
    uuid::Uuid::from_u128(bits).to_string()
}

impl RequestId {
    /// The request identifier of the random identifier `bits`.
    pub fn from_uuid(bits: u128) -> (id: RequestId)
        ensures
            id@ == uuid_text(bits),
    {
        let text = uuid_string(bits);
        proof {
            lemma_uuid_text_shape(bits);
        }
        RequestId::new(text).expect("uuid should only contain ascii characters")
    }
}

/// Makes request identifiers at random.
#[derive(Clone, Copy, Debug, Default)]
pub struct MakeRequestUuid;

impl MakeRequestId for MakeRequestUuid {
    /// Always makes an identifier: the text of a fresh random identifier.
    #[allow(unused_variables)]
    fn make_request_id<B>(&mut self, request: &hyper::Request<B>) -> (id: Option<RequestId>)
        ensures
            id matches Some(made) && exists|bits: u128|
                is_version_4(bits) && made@ == uuid_text(bits),
            *final(self) == *old(self),
    {
        let made = RequestId::from_uuid(random_uuid());
        proof {
            use_type_invariant(&made);
        }
        Some(made)
    }
}

} // verus!
