//! The identifier value: text that is safe to place in an HTTP header.

use vstd::prelude::*;
use vstd::string::{is_ascii, is_ascii_spec_bytes};

verus! {

/// Whether `c` is a printable ASCII character: the space, or one of the visible
/// characters from the exclamation mark to the tilde. Control characters and
/// everything beyond ASCII are left out.
pub open spec fn is_printable_ascii(c: char) -> bool {
    ' ' <= c <= '~'
}

/// Whether every character of `text` is a printable ASCII character.
pub open spec fn is_header_safe(text: Seq<char>) -> bool {
    forall|i: int| 0 <= i < text.len() ==> is_printable_ascii(#[trigger] text[i])
}

/// The error of [`RequestId::new`]: the text holds a character that is not
/// printable ASCII.
#[derive(Debug, Clone, Copy, PartialEq, Eq)]
pub struct InvalidCharacter;

/// An identifier for a request. Its text is printable ASCII throughout.
#[derive(Debug)]
pub struct RequestId {
    text: String,
}

impl View for RequestId {
    type V = Seq<char>;

    closed spec fn view(&self) -> Seq<char> {
        self.text@
    }
}

impl Clone for RequestId {
    fn clone(&self) -> (copy: Self)
        ensures
            copy@ == self@,
    {
        proof {
            use_type_invariant(self);
        }
        RequestId { text: self.text.clone() }
    }
}

impl RequestId {
    /// What holds of every identifier: its text is safe in a header.
    #[verifier::type_invariant]
    pub open spec fn well_formed(self) -> bool {
        is_header_safe(self@)
    }

    /// Makes an identifier of `text`, which is refused if and only if one of
    /// its characters is not printable ASCII.
    pub fn new(text: String) -> (made: Result<RequestId, InvalidCharacter>)
        ensures
            made is Ok <==> is_header_safe(text@),
            made matches Ok(id) ==> id@ == text@,
    {
        for c in it: text.as_str().chars()
            invariant
                it.seq() == text@,
                forall|i: int| 0 <= i < it.index() ==> is_printable_ascii(#[trigger] text@[i]),
        {
            if c < ' ' || c > '~' {
                return Err(InvalidCharacter);
            }
        }
        Ok(RequestId { text })
    }

    /// The identifier's text.
    pub fn as_str(&self) -> (text: &str)
        ensures
            text@ == self@,
            is_header_safe(text@),
    {
        proof {
            use_type_invariant(self);
        }
        self.text.as_str()
    }

    /// The identifier's text as the bytes of a header value: one byte for each
    /// character, none of them a control byte or beyond ASCII.
    pub fn as_bytes(&self) -> (bytes: &[u8])
        ensures
            bytes@.len() == self@.len(),
            forall|i: int| 0 <= i < bytes@.len() ==> #[trigger] bytes@[i] == self@[i] as u8,
            forall|i: int| 0 <= i < bytes@.len() ==> 0x20 <= #[trigger] bytes@[i] <= 0x7e,
    {
        proof {
            use_type_invariant(self);
        }
        let text = self.text.as_str();
        proof {
            assert(is_ascii(text)) by {
                assert forall|i: int| 0 <= i < text@.len() implies '\0' <= #[trigger] text@[i]
                    <= '\u{7f}' by {
                    assert(is_printable_ascii(text@[i]));
                }
            }
            is_ascii_spec_bytes(text);
        }
        text.as_bytes()
    }
}

} // verus!
