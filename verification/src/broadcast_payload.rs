//! The payload union nested in `Broadcast`.

use vstd::prelude::*;

verus! {

use crate::protocol::{AnyValue, Noop};

/// A broadcast carries a typed value or the no-payload marker.
#[derive(Clone, Debug, PartialEq)]
pub enum Payload {
    Value(AnyValue),
    Noop(Noop),
}

} // verus!
