//! The payload union nested in `InvocationRequest`.

use vstd::prelude::*;

verus! {

use crate::model::PayloadView;
use crate::protocol::{AnyValue, Noop};

/// The payload of an invocation: exactly one of a typed value or the
/// no-payload marker is ever encoded.
#[derive(Clone, Debug, PartialEq)]
pub enum Payload {
    Value(AnyValue),
    Noop(Noop),
}

impl View for Payload {
    type V = PayloadView;

    open spec fn view(&self) -> PayloadView {
        match self {
            Payload::Value(v) => PayloadView::Value(v@),
            Payload::Noop(_) => PayloadView::Noop,
        }
    }
}

} // verus!
