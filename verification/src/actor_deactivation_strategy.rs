//! The strategy union nested in `ActorDeactivationStrategy`.

use vstd::prelude::*;

verus! {

use crate::protocol::TimeoutStrategy;

/// The one way a deactivation strategy can currently be chosen.
#[derive(Clone, Debug, PartialEq)]
pub enum Strategy {
    Timeout(TimeoutStrategy),
}

} // verus!
