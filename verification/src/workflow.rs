//! The routing union nested in `Workflow`.

use vstd::prelude::*;

verus! {

use crate::protocol::{Forward, Pipe};

/// Where a reply's value is routed next.
#[derive(Clone, Debug, PartialEq)]
pub enum Routing {
    Pipe(Pipe),
    Forward(Forward),
}

} // verus!
