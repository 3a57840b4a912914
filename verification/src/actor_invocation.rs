//! The payload union nested in `ActorInvocation`.

use vstd::prelude::*;

verus! {

use crate::protocol::{AnyValue, Noop};

/// The value handed to the invoked command, or the no-payload marker.
#[derive(Clone, Debug, PartialEq)]
pub enum Payload {
    Value(AnyValue),
    Noop(Noop),
}

} // verus!
