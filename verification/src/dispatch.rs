//! The dispatch side of one activation run, as pure decisions.
//!
//! Everything here computes: token validation, the invocation builder, the
//! plan that names the topic, the encoded bytes and the transport action,
//! and the reading of what the transport reported.  The transport itself
//! (connecting, publishing, awaiting a reply) is outside the library; it
//! performs the plan's action and hands the event back.

use vstd::prelude::*;

verus! {

use crate::encode::{enc_invocation, encode_invocation, invocation_ok};
use crate::errors::ActivatorError;
use crate::model::{
    ActorIdView, ActorSystemView, ActorView, InvocationView, PayloadView,
};
use crate::protocol::{
    Actor, ActorId, ActorSystem, DispatchMode, InvocationRequest, Noop,
};
use crate::invocation_request::Payload;
use crate::topic::{topic_for, topic_of};

/// The values of one run, as parsed from the operator's tokens.
#[derive(Clone, Debug, PartialEq)]
pub struct InvocationArgs {
    pub system: String,
    pub actor: String,
    pub command: String,
}

/// The operator must supply exactly four tokens — the program name, then
/// actor system, actor name and command name — none of the three values
/// empty.
pub open spec fn tokens_valid(args: Seq<String>) -> bool {
    &&& args.len() == 4
    &&& args[1]@.len() > 0
    &&& args[2]@.len() > 0
    &&& args[3]@.len() > 0
}

/// Parses the operator's tokens.  Wrong count or an empty value is
/// `InvalidArguments`, raised before any network activity.
pub fn parse_args(args: &Vec<String>) -> (r: Result<InvocationArgs, ActivatorError>)
    ensures
        match r {
            Ok(a) => {
                &&& tokens_valid(args@)
                &&& a.system@ == args@[1]@
                &&& a.actor@ == args@[2]@
                &&& a.command@ == args@[3]@
            },
            Err(e) => !tokens_valid(args@) && e == ActivatorError::InvalidArguments,
        },
{
    if args.len() != 4 {
        return Err(ActivatorError::InvalidArguments);
    }
    let system = args[1].clone();
    let actor = args[2].clone();
    let command = args[3].clone();
    if system.as_str().is_empty() || actor.as_str().is_empty() || command.as_str().is_empty() {
        return Err(ActivatorError::InvalidArguments);
    }
    Ok(InvocationArgs { system, actor, command })
}

/// The message the builder produces: the addressed actor in the named
/// system, the command, the chosen mode, the given caller and metadata,
/// and the no-payload marker — this client never supplies a body.
pub open spec fn built_view(
    system: Seq<char>,
    actor: Seq<char>,
    command: Seq<char>,
    mode: DispatchMode,
    caller: Option<ActorIdView>,
    metadata: Seq<(Seq<char>, Seq<char>)>,
) -> InvocationView {
    InvocationView {
        system: Some(ActorSystemView { name: system }),
        actor: Some(
            ActorView { id: Some(ActorIdView { name: actor, system: system, parent: Seq::empty() }) },
        ),
        command_name: command,
        dispatch_mode: mode,
        caller: caller,
        metadata: metadata,
        scheduled_to: 0,
        pooled: false,
        payload: Some(PayloadView::Noop),
    }
}

/// The addressing invariant of a message this client sends: command and
/// system names non-empty, and the actor addressed within that system.
pub open spec fn well_addressed(m: InvocationView) -> bool {
    &&& m.command_name.len() > 0
    &&& match m.system {
        Some(s) => s.name.len() > 0,
        None => false,
    }
    &&& match (m.actor, m.system) {
        (Some(a), Some(s)) => match a.id {
            Some(id) => id.system == s.name,
            None => false,
        },
        _ => false,
    }
}

/// Builds the invocation message.  The three name strings must be
/// non-empty; the dispatch mode is the caller's choice, fire-and-forget
/// unless reply-waiting was asked for.  The builder does not check that
/// the target actor exists — that is resolved remotely.
pub fn build_invocation(
    args: &InvocationArgs,
    mode: DispatchMode,
    caller: Option<ActorId>,
    metadata: Vec<(String, String)>,
) -> (r: InvocationRequest)
    requires
        args.system@.len() > 0,
        args.actor@.len() > 0,
        args.command@.len() > 0,
    ensures
        r@ == built_view(
            args.system@,
            args.actor@,
            args.command@,
            mode,
            match caller {
                Some(c) => Some(c@),
                None => None,
            },
            metadata@.map_values(|p: (String, String)| (p.0@, p.1@)),
        ),
        r.client_form(),
        well_addressed(r@),
{
    let id = ActorId {
        name: args.actor.clone(),
        system: args.system.clone(),
        parent: String::new(),
    };
    let mut actor = Actor::empty();
    actor.id = Some(id);
    let request = InvocationRequest {
        system: Some(ActorSystem { name: args.system.clone(), registry: None }),
        actor: Some(actor),
        command_name: args.command.clone(),
        dispatch_mode: mode,
        caller,
        metadata,
        scheduled_to: 0,
        pooled: false,
        payload: Some(Payload::Noop(Noop {})),
    };
    proof {
        assert(request@ =~= built_view(
            args.system@,
            args.actor@,
            args.command@,
            mode,
            match caller {
                Some(c) => Some(c@),
                None => None,
            },
            metadata@.map_values(|p: (String, String)| (p.0@, p.1@)),
        ));
    }
    request
}

/// The transport action one dispatch asks of the bus.
#[derive(Clone, Copy, Debug, PartialEq, Eq, Structural)]
pub enum DispatchAction {
    /// Hand the bytes to the bus and return.
    Publish,
    /// Send the bytes and await a correlated reply up to a timeout.
    Request,
}

/// The action each mode takes.
pub open spec fn action_of(mode: DispatchMode) -> DispatchAction {
    match mode {
        DispatchMode::FireAndForget => DispatchAction::Publish,
        DispatchMode::RequestReply => DispatchAction::Request,
    }
}

/// Selects the transport path: fire-and-forget publishes and is done the
/// moment the transport accepts the bytes; request-reply sends and blocks
/// for a correlated reply.
pub fn action_for(mode: DispatchMode) -> (r: DispatchAction)
    ensures
        r == action_of(mode),
{
    match mode {
        DispatchMode::FireAndForget => DispatchAction::Publish,
        DispatchMode::RequestReply => DispatchAction::Request,
    }
}

/// What the transport reported for one dispatch attempt.
#[derive(Clone, Debug, PartialEq)]
pub enum TransportEvent {
    /// The bytes were handed to the transport's send buffer.
    Accepted,
    /// A correlated reply arrived within the window.
    Reply(Vec<u8>),
    /// The window elapsed with no correlated reply.
    NoReply,
    /// The broker endpoint was unreachable or rejected the connection.
    ConnectionRefused,
    /// Any other failure from the underlying bus client.
    Failed,
}

/// Reads a fire-and-forget outcome: success the instant the transport
/// accepted the bytes, with no reply awaited — a reply or its absence
/// changes nothing.  Connection failure and other transport failures are
/// the only errors.
pub fn settle_publish(event: &TransportEvent) -> (r: Result<(), ActivatorError>)
    ensures
        match event {
            TransportEvent::ConnectionRefused => r == Err::<(), ActivatorError>(
                ActivatorError::ConnectionFailure,
            ),
            TransportEvent::Failed => r == Err::<(), ActivatorError>(
                ActivatorError::TransportError,
            ),
            _ => r == Ok::<(), ActivatorError>(()),
        },
{
    match event {
        TransportEvent::ConnectionRefused => Err(ActivatorError::ConnectionFailure),
        TransportEvent::Failed => Err(ActivatorError::TransportError),
        _ => Ok(()),
    }
}

/// Reads a request-reply outcome: the reply's bytes when one arrived;
/// a timeout, kept distinct from connection failure, when nobody answered
/// within the window (a bare send acknowledgement counts as no reply).
pub fn settle_request(event: TransportEvent) -> (r: Result<Vec<u8>, ActivatorError>)
    ensures
        match event {
            TransportEvent::Reply(b) => match r {
                Ok(out) => out == b,
                Err(_) => false,
            },
            TransportEvent::Accepted => r == Err::<Vec<u8>, ActivatorError>(
                ActivatorError::Timeout,
            ),
            TransportEvent::NoReply => r == Err::<Vec<u8>, ActivatorError>(
                ActivatorError::Timeout,
            ),
            TransportEvent::ConnectionRefused => r == Err::<Vec<u8>, ActivatorError>(
                ActivatorError::ConnectionFailure,
            ),
            TransportEvent::Failed => r == Err::<Vec<u8>, ActivatorError>(
                ActivatorError::TransportError,
            ),
        },
{
    match event {
        TransportEvent::Reply(b) => Ok(b),
        TransportEvent::Accepted => Err(ActivatorError::Timeout),
        TransportEvent::NoReply => Err(ActivatorError::Timeout),
        TransportEvent::ConnectionRefused => Err(ActivatorError::ConnectionFailure),
        TransportEvent::Failed => Err(ActivatorError::TransportError),
    }
}

/// Everything the transport needs for one run: where to send, what to
/// send, how to send it, and the message itself for the confirmation echo.
#[derive(Clone, Debug, PartialEq)]
pub struct DispatchPlan {
    pub topic: String,
    pub bytes: Vec<u8>,
    pub action: DispatchAction,
    pub message: InvocationRequest,
}

/// The whole pure pipeline of one run: validate the tokens, build the
/// message, encode it, derive the topic, pick the action.  No transport is
/// touched; a token error reports before any network activity could
/// happen.
pub fn prepare(args: &Vec<String>, mode: DispatchMode) -> (r: Result<DispatchPlan, ActivatorError>)
    ensures
        match r {
            Ok(p) => {
                &&& tokens_valid(args@)
                &&& p.message@ == built_view(
                    args@[1]@,
                    args@[2]@,
                    args@[3]@,
                    mode,
                    None,
                    Seq::empty(),
                )
                &&& p.message.client_form()
                &&& well_addressed(p.message@)
                &&& p.bytes@ == enc_invocation(p.message@)
                &&& p.topic@ == topic_of(args@[1]@)
                &&& p.action == action_of(mode)
            },
            Err(e) => !tokens_valid(args@) && e == ActivatorError::InvalidArguments,
        },
{
    let parsed = match parse_args(args) {
        Ok(a) => a,
        Err(e) => {
            return Err(e);
        },
    };
    let empty_meta: Vec<(String, String)> = Vec::new();
    proof {
        assert(empty_meta@.map_values(|p: (String, String)| (p.0@, p.1@)) =~= Seq::<
            (Seq<char>, Seq<char>),
        >::empty());
    }
    let message = build_invocation(&parsed, mode, None, empty_meta);
    let bytes = encode_invocation(&message);
    let topic = topic_for(parsed.system.as_str());
    let action = action_for(mode);
    Ok(DispatchPlan { topic, bytes, action, message })
}

} // verus!
