//! The counting generator.

use crate::make::MakeRequestId;
use crate::value::{is_header_safe, RequestId};
use std::sync::atomic::{AtomicUsize, Ordering};
use std::sync::Arc;
use vstd::prelude::*;

verus! {

/// The ten digits.
pub open spec fn decimal_digits() -> Seq<char> {
    "0123456789"@
}

/// `value` written to the base ten, without leading zeros.
pub open spec fn decimal_text(value: nat) -> Seq<char>
    decreases value,
{
    if value < 10 {
        seq![decimal_digits()[value as int]]
    } else {
        decimal_text(value / 10).push(decimal_digits()[(value % 10) as int])
    }
}

/// A number's text has at least one character, and digits only.
pub proof fn lemma_decimal_text_shape(value: nat)
    ensures
        decimal_text(value).len() >= 1,
        value >= 10 ==> decimal_text(value).len() >= 2,
        forall|i: int|
            0 <= i < decimal_text(value).len() ==> '0' <= #[trigger] decimal_text(value)[i] <= '9',
        is_header_safe(decimal_text(value)),
    decreases value,
{
    reveal_strlit("0123456789");
    if value >= 10 {
        lemma_decimal_text_shape(value / 10);
    }
}

/// The digit `digit` is written as the character that many places after `'0'`.
proof fn lemma_decimal_digits()
    ensures
        decimal_digits().len() == 10,
        forall|digit: int|
            0 <= digit < 10 ==> #[trigger] decimal_digits()[digit] as int == '0' as int + digit,
{
    reveal_strlit("0123456789");
}

/// Two numbers with one text are one number: no two values of the counter
/// share an identifier.
pub proof fn lemma_decimal_text_injective(a: nat, b: nat)
    requires
        decimal_text(a) == decimal_text(b),
    ensures
        a == b,
    decreases a,
{
    lemma_decimal_digits();
    lemma_decimal_text_shape(a);
    lemma_decimal_text_shape(b);
    let last_a = decimal_digits()[(a % 10) as int];
    let last_b = decimal_digits()[(b % 10) as int];
    if a >= 10 && b >= 10 {
        let head_a = decimal_text(a / 10);
        let head_b = decimal_text(b / 10);
        assert(head_a.push(last_a).drop_last() =~= head_a);
        assert(head_b.push(last_b).drop_last() =~= head_b);
        assert(head_a.push(last_a).last() == last_a);
        assert(head_b.push(last_b).last() == last_b);
        assert(head_a == head_b);
        assert(last_a == last_b);
        lemma_decimal_text_injective(a / 10, b / 10);
    } else if a < 10 && b < 10 {
        assert(decimal_text(a)[0] == last_a);
        assert(decimal_text(b)[0] == last_b);
    }
}

/// Writes `value` to the base ten.
fn decimal_string(value: usize) -> (text: String)
    ensures
        text@ == decimal_text(value as nat),
{
    let digits = "0123456789";
    proof {
        reveal_strlit("0123456789");
    }
    let last: usize = value % 10;
    let mut text = String::from_str(digits.substring_ascii(last, last + 1));
    let mut rest: usize = value / 10;
    assert(text@ =~= seq![decimal_digits()[last as int]]);
    while rest > 0
        invariant
            digits@ == decimal_digits(),
            digits.is_ascii(),
            digits@.len() == 10,
            decimal_text(value as nat) == if rest > 0 {
                decimal_text(rest as nat) + text@
            } else {
                text@
            },
        decreases rest,
    {
        let last: usize = rest % 10;
        let ghost tail = text@;
        text = String::from_str(digits.substring_ascii(last, last + 1)).concat(text.as_str());
        rest = rest / 10;
        assert(text@ =~= seq![decimal_digits()[last as int]] + tail);
    }
    text
}

impl RequestId {
    /// The request identifier of the counter's value `value`.
    pub fn from_counter(value: usize) -> (id: RequestId)
        ensures
            id@ == decimal_text(value as nat),
    {
        let text = decimal_string(value);
        proof {
            lemma_decimal_text_shape(value as nat);
        }
        RequestId::new(text).expect("usize should only contain ascii characters")
    }
}

/// The count that a generator started at `start` hands out once `calls`
/// identifiers were made before: `start + calls`, which begins again at zero
/// after the largest value.
pub open spec fn count_after(start: usize, calls: usize) -> nat {
    if start + calls > usize::MAX {
        (start + calls - usize::MAX - 1) as nat
    } else {
        (start + calls) as nat
    }
}

/// Makes request identifiers by counting. A generator holds the value that its
/// count starts at, and a cell with the number of identifiers made so far;
/// every clone of the generator counts on the same cell.
#[derive(Debug)]
pub struct MakeRequestIdCounter {
    start: usize,
    counter: Arc<AtomicUsize>,
}

impl MakeRequestIdCounter {
    /// The value that the generator's count starts at.
    pub closed spec fn start(&self) -> usize {
        self.start
    }

    /// A generator whose count starts at zero.
    #[must_use]
    pub fn new() -> (made: Self)
        ensures
            made.start() == 0,
    {
        MakeRequestIdCounter::starting_at(0)
    }

    /// A generator whose count starts at `start`.
    #[must_use]
    pub fn starting_at(start: usize) -> (made: Self)
        ensures
            made.start() == start,
    {
        MakeRequestIdCounter { start, counter: Arc::new(AtomicUsize::new(0)) }
    }

    /// Takes the number of identifiers made so far out of the cell and adds
    /// one to it, in one step that no other caller can come between; at the
    /// largest value the number starts again at zero. What is taken depends on
    /// every holder of the cell, so nothing is promised of it.
    fn fetch_increment(&self) -> usize {
        self.counter.fetch_add(1, Ordering::Relaxed)
    }
}

/// Calls `Arc::clone`, which makes one more pointer to the cell that `cell`
/// points to; no second cell is made.
#[verifier::external_body]
fn share(cell: &Arc<AtomicUsize>) -> (same: Arc<AtomicUsize>)
    ensures
        same == *cell,
{
    Arc::clone(cell)
}

impl Clone for MakeRequestIdCounter {
    /// The clone is the generator once more: it counts on the same cell.
    fn clone(&self) -> (copy: Self)
        ensures
            copy == *self,
    {
        MakeRequestIdCounter { start: self.start, counter: share(&self.counter) }
    }
}

impl Default for MakeRequestIdCounter {
    /// A generator whose count starts at zero.
    fn default() -> (made: Self)
        ensures
            made.start() == 0,
    {
        MakeRequestIdCounter::new()
    }
}

impl MakeRequestId for MakeRequestIdCounter {
    /// Always makes an identifier: the count that it took, written to the base
    /// ten. The count is the one that follows from the generator's start and
    /// the number of identifiers that were made before.
    #[allow(unused_variables)]
    fn make_request_id<B>(&mut self, request: &hyper::Request<B>) -> (id: Option<RequestId>)
        ensures
            id matches Some(made) && exists|calls: usize|
                made@ == decimal_text(count_after(old(self).start(), calls)),
            *final(self) == *old(self),
    {
        let calls: usize = self.fetch_increment();
        let made = RequestId::from_counter(self.start.wrapping_add(calls));
        proof {
            use_type_invariant(&made);
            assert(made@ == decimal_text(count_after(self.start(), calls)));
        }
        Some(made)
    }
}

} // verus!
