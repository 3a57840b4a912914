//! Mathematical views of the invocation message and its parts.
//!
//! The codec's contracts and the round-trip laws are stated over these ghost
//! types: each carries exactly the fields that the activator populates and
//! that the wire format transports for it.

use vstd::prelude::*;

verus! {

use crate::protocol::DispatchMode;

/// View of an actor identity: three character strings.
#[verifier::ext_equal]
pub ghost struct ActorIdView {
    pub name: Seq<char>,
    pub system: Seq<char>,
    pub parent: Seq<char>,
}

impl ActorIdView {
    /// The value every field decodes from an absent wire field.
    pub open spec fn initial() -> ActorIdView {
        ActorIdView { name: Seq::empty(), system: Seq::empty(), parent: Seq::empty() }
    }
}

/// View of an actor system reference: its name.  The registry that the full
/// runtime schema allows here is never populated by this client.
#[verifier::ext_equal]
pub ghost struct ActorSystemView {
    pub name: Seq<char>,
}

impl ActorSystemView {
    pub open spec fn initial() -> ActorSystemView {
        ActorSystemView { name: Seq::empty() }
    }
}

/// View of the addressed actor: only the identity, the one field this
/// client fills in.
#[verifier::ext_equal]
pub ghost struct ActorView {
    pub id: Option<ActorIdView>,
}

impl ActorView {
    pub open spec fn initial() -> ActorView {
        ActorView { id: None }
    }
}

/// View of a typed payload value: a type tag and opaque bytes.
#[verifier::ext_equal]
pub ghost struct AnyValueView {
    pub type_url: Seq<char>,
    pub value: Seq<u8>,
}

impl AnyValueView {
    pub open spec fn initial() -> AnyValueView {
        AnyValueView { type_url: Seq::empty(), value: Seq::empty() }
    }
}

/// View of the payload union: a typed value, or the marker that no
/// meaningful payload was supplied.
#[verifier::ext_equal]
pub ghost enum PayloadView {
    Value(AnyValueView),
    Noop,
}

/// View of the whole invocation message.
#[verifier::ext_equal]
pub ghost struct InvocationView {
    pub system: Option<ActorSystemView>,
    pub actor: Option<ActorView>,
    pub command_name: Seq<char>,
    pub dispatch_mode: DispatchMode,
    pub caller: Option<ActorIdView>,
    pub metadata: Seq<(Seq<char>, Seq<char>)>,
    pub scheduled_to: i64,
    pub pooled: bool,
    pub payload: Option<PayloadView>,
}

impl InvocationView {
    /// The message every field of which still has its wire default: what a
    /// decoder starts from.  An absent fire-and-forget flag means
    /// request-reply, the mode the flag's false value names.
    pub open spec fn initial() -> InvocationView {
        InvocationView {
            system: None,
            actor: None,
            command_name: Seq::empty(),
            dispatch_mode: DispatchMode::RequestReply,
            caller: None,
            metadata: Seq::empty(),
            scheduled_to: 0,
            pooled: false,
            payload: None,
        }
    }
}

} // verus!
