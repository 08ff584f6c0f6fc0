//! Generators of request identifiers: a random one, a time-ordered one and a
//! counter shared by all clones of its generator.
//!
//! Every identifier is a [`RequestId`]: text made of printable ASCII characters
//! only, so that it can be placed in an HTTP header value as it is.

pub mod counter;
pub mod make;
pub mod radix;
pub mod random;
pub mod sortable;
pub mod value;

pub use counter::MakeRequestIdCounter;
pub use make::MakeRequestId;
pub use random::MakeRequestUuid;
pub use sortable::MakeRequestUlid;
pub use value::{InvalidCharacter, RequestId};
