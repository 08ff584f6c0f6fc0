//! What every generator offers.

use crate::value::{is_header_safe, RequestId};
use vstd::prelude::*;

verus! {

/// A request as the HTTP stack hands it over. The generators take it by
/// reference and never look inside.
#[verifier::external_type_specification]
#[verifier::external_body]
#[verifier::reject_recursive_types(T)]
pub struct ExRequest<T>(hyper::Request<T>);

/// A source of request identifiers.
pub trait MakeRequestId {
    /// Makes the identifier for `request`, or declines with `None`. An
    /// identifier that is made is safe to place in a header.
    fn make_request_id<B>(&mut self, request: &hyper::Request<B>) -> (id: Option<RequestId>)
        ensures
            id matches Some(made) ==> is_header_safe(made@),
    ;
}

} // verus!
