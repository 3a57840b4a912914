//! The payload union nested in `InvocationResponse`.

use vstd::prelude::*;

verus! {

use crate::protocol::{AnyValue, Noop};

/// The value forwarded back to the original caller, or the no-payload
/// marker.
#[derive(Clone, Debug, PartialEq)]
pub enum Payload {
    Value(AnyValue),
    Noop(Noop),
}

} // verus!
