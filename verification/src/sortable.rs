//! The time-ordered generator.

use crate::make::MakeRequestId;
use crate::radix::{
    drop_digits, fixed_width, is_increasing, lemma_fixed_width_header_safe,
    lemma_fixed_width_injective, lemma_fixed_width_ordered, lemma_fixed_width_shape, precedes,
};
use crate::value::{is_header_safe, RequestId};
use vstd::prelude::*;

verus! {

/// The 32 digits of a time-ordered identifier: Crockford's alphabet, which
/// leaves out the letters I, L, O and U.
pub open spec fn crockford() -> Seq<char> {
    "0123456789ABCDEFGHJKMNPQRSTVWXYZ"@
}

/// The text of the time-ordered identifier `bits`: its 26 digits to the base
/// 32, the most significant first.
pub open spec fn ulid_text(bits: u128) -> Seq<char> {
    fixed_width(crockford(), bits as nat, 26)
}

/// The time that the identifier `bits` carries: its 48 leading bits, a count
/// of milliseconds.
pub open spec fn ulid_timestamp(bits: u128) -> nat {
    bits as nat / 0x1_0000_0000_0000_0000_0000
}

/// The alphabet has 32 printable characters, in increasing order.
pub proof fn lemma_crockford()
    ensures
        crockford().len() == 32,
        is_increasing(crockford()),
        is_header_safe(crockford()),
{
    reveal_strlit("0123456789ABCDEFGHJKMNPQRSTVWXYZ");
}

/// The text of a time-ordered identifier has 26 characters, each a digit of
/// Crockford's alphabet, and is safe in a header.
pub proof fn lemma_ulid_text_shape(bits: u128)
    ensures
        ulid_text(bits).len() == 26,
        forall|i: int| 0 <= i < 26 ==> crockford().contains(#[trigger] ulid_text(bits)[i]),
        is_header_safe(ulid_text(bits)),
{
    lemma_crockford();
    lemma_fixed_width_shape(crockford(), bits as nat, 26);
    lemma_fixed_width_header_safe(crockford(), bits as nat, 26);
}

/// Of two identifiers the one that carries the later time has the later text,
/// whatever the random bits of both are.
pub proof fn lemma_later_sorts_after(earlier: u128, later: u128)
    requires
        ulid_timestamp(earlier) < ulid_timestamp(later),
    ensures
        precedes(ulid_text(earlier), ulid_text(later)),
{
    lemma_crockford();
    lemma_leading_digits(earlier);
    lemma_leading_digits(later);
    lemma_fixed_width_ordered(crockford(), earlier as nat, later as nat, 26, 16);
}

/// Two identifiers with one text are one identifier.
pub proof fn lemma_ulid_text_injective(a: u128, b: u128)
    requires
        ulid_text(a) == ulid_text(b),
    ensures
        a == b,
{
    lemma_crockford();
    lemma_leading_digits(a);
    lemma_leading_digits(b);
    lemma_fixed_width_injective(crockford(), a as nat, b as nat, 26);
}

/// The 16 last digits of an identifier hold its 80 random bits, and 26 digits
/// hold all of it.
proof fn lemma_leading_digits(bits: u128)
    ensures
        drop_digits(bits as nat, 32, 16) == ulid_timestamp(bits),
        drop_digits(bits as nat, 32, 26) == 0,
{
    reveal_with_fuel(drop_digits, 27);
}

/// Calls `Ulid::new` of the ulid crate and hands out the 128 bits of the
/// identifier it made: the clock's reading in milliseconds in the 48 leading
/// bits, and 80 random bits. Nothing is promised of the result, which is
/// different at every call. The random source panics where the operating
/// system has no random bytes to give.
#[verifier::external_body]
fn fresh_ulid() -> (bits: u128) {
    ulid::Ulid::new().0
}

/// Calls `Ulid::to_string` of the ulid crate on the identifier `bits`. The
/// crate writes the number's 26 digits to the base 32 over Crockford's
/// alphabet, the most significant first.
#[verifier::external_body]
fn ulid_string(bits: u128) -> (text: String)
    ensures
        text@ == ulid_text(bits),
{
    ulid::Ulid(bits).to_string()
}

impl RequestId {
    /// The request identifier of the time-ordered identifier `bits`.
    pub fn from_ulid(bits: u128) -> (id: RequestId)
        ensures
            id@ == ulid_text(bits),
    {
        let text = ulid_string(bits);
        proof {
            lemma_ulid_text_shape(bits);
        }
        RequestId::new(text).expect("ulid should only contain ascii characters")
    }
}

/// Makes request identifiers that sort by the time of their making.
#[derive(Clone, Copy, Debug, Default)]
pub struct MakeRequestUlid;

impl MakeRequestId for MakeRequestUlid {
    /// Always makes an identifier: the text of a fresh time-ordered identifier.
    #[allow(unused_variables)]
    fn make_request_id<B>(&mut self, request: &hyper::Request<B>) -> (id: Option<RequestId>)
        ensures
            id matches Some(made) && exists|bits: u128| made@ == ulid_text(bits),
            *final(self) == *old(self),
    {
        let made = RequestId::from_ulid(fresh_ulid());
        proof {
            use_type_invariant(&made);
        }
        Some(made)
    }
}

} // verus!
