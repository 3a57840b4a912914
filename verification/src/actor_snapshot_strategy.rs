//! The strategy union nested in `ActorSnapshotStrategy`.

use vstd::prelude::*;

verus! {

use crate::protocol::TimeoutStrategy;

/// The one way a snapshot strategy can currently be chosen.
#[derive(Clone, Debug, PartialEq)]
pub enum Strategy {
    Timeout(TimeoutStrategy),
}

} // verus!
