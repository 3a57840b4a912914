//! The payload union nested in `ActorInvocationResponse`.

use vstd::prelude::*;

verus! {

use crate::protocol::{AnyValue, Noop};

/// The value a user function answers with, or the no-payload marker.
#[derive(Clone, Debug, PartialEq)]
pub enum Payload {
    Value(AnyValue),
    Noop(Noop),
}

} // verus!
