//! The shared schema of the actor runtime's protocol, as plain value types.
//!
//! Field tags are part of the public wire contract and must never be
//! renumbered or reused; the codec hard-codes them.  This client populates
//! only a small corner of the schema (an invocation with an identity), but
//! the full set of message types is kept so that the schema reads as the
//! cross-process contract it is.

use vstd::prelude::*;

verus! {

use crate::model::{
    ActorIdView, ActorSystemView, ActorView, AnyValueView, InvocationView,
};

/// How an invocation is dispatched: fire-and-forget hands the message to the
/// bus and returns, request-reply blocks for a correlated response.  On the
/// wire this is the boolean "async" flag: true for fire-and-forget.
#[derive(Clone, Copy, Debug, PartialEq, Eq, Structural)]
pub enum DispatchMode {
    FireAndForget,
    RequestReply,
}

/// A typed payload value: a type tag and the bytes of the value it names.
#[derive(Clone, Debug, PartialEq)]
pub struct AnyValue {
    pub type_url: String,
    pub value: Vec<u8>,
}

impl View for AnyValue {
    type V = AnyValueView;

    open spec fn view(&self) -> AnyValueView {
        AnyValueView { type_url: self.type_url@, value: self.value@ }
    }
}

impl AnyValue {
    pub fn empty() -> (r: AnyValue)
        ensures
            r@ == AnyValueView::initial(),
    {
        let r = AnyValue { type_url: String::new(), value: Vec::new() };
        proof {
            assert(r@ =~= AnyValueView::initial());
        }
        r
    }
}

/// The marker for "no meaningful payload".
#[derive(Clone, Debug, PartialEq)]
pub struct Noop {}

/// Identifies an actor instance within a system.  `parent` is set only for a
/// dynamically created child of an abstract actor; otherwise empty.
#[derive(Clone, Debug, PartialEq)]
pub struct ActorId {
    pub name: String,
    pub system: String,
    pub parent: String,
}

impl View for ActorId {
    type V = ActorIdView;

    open spec fn view(&self) -> ActorIdView {
        ActorIdView { name: self.name@, system: self.system@, parent: self.parent@ }
    }
}

impl ActorId {
    pub fn empty() -> (r: ActorId)
        ensures
            r@ == ActorIdView::initial(),
    {
        let r = ActorId { name: String::new(), system: String::new(), parent: String::new() };
        proof {
            assert(r@ =~= ActorIdView::initial());
        }
        r
    }
}

/// A registry of named actors.
#[derive(Clone, Debug, PartialEq)]
pub struct Registry {
    pub actors: Vec<(String, Actor)>,
}

/// Identifies a logical cluster of actors sharing a registry.  This client
/// only ever fills in the name.
#[derive(Clone, Debug, PartialEq)]
pub struct ActorSystem {
    pub name: String,
    pub registry: Option<Registry>,
}

impl View for ActorSystem {
    type V = ActorSystemView;

    open spec fn view(&self) -> ActorSystemView {
        ActorSystemView { name: self.name@ }
    }
}

impl ActorSystem {
    /// True when the optional registry, which this client never populates,
    /// is absent; the codec carries only such references.
    pub open spec fn plain(&self) -> bool {
        self.registry is None
    }

    pub fn empty() -> (r: ActorSystem)
        ensures
            r@ == ActorSystemView::initial(),
            r.plain(),
    {
        let r = ActorSystem { name: String::new(), registry: None };
        proof {
            assert(r@ =~= ActorSystemView::initial());
        }
        r
    }
}

/// A strategy based on a timeout, in milliseconds.
#[derive(Clone, Debug, PartialEq)]
pub struct TimeoutStrategy {
    pub timeout: i64,
}

/// A strategy for saving state.
#[derive(Clone, Debug, PartialEq)]
pub struct ActorSnapshotStrategy {
    pub strategy: Option<crate::actor_snapshot_strategy::Strategy>,
}

/// A strategy by which an actor is passivated.
#[derive(Clone, Debug, PartialEq)]
pub struct ActorDeactivationStrategy {
    pub strategy: Option<crate::actor_deactivation_strategy::Strategy>,
}

/// An action that can be invoked on an actor; represented in supporting
/// languages by a function or method.
#[derive(Clone, Debug, PartialEq)]
pub struct Command {
    pub name: String,
}

/// A command scheduled to run at a fixed interval, taking only the actor's
/// own state as argument.
#[derive(Clone, Debug, PartialEq)]
pub struct FixedTimerCommand {
    pub seconds: i32,
    pub command: Option<Command>,
}

/// An actor's persisted state: tags and an opaque value.
#[derive(Clone, Debug, PartialEq)]
pub struct ActorState {
    pub tags: Vec<(String, String)>,
    pub state: Option<AnyValue>,
}

/// Actor metadata: a channel group and tags.
#[derive(Clone, Debug, PartialEq)]
pub struct Metadata {
    pub channel_group: String,
    pub tags: Vec<(String, String)>,
}

/// The runtime characteristics of an actor.
#[derive(Clone, Copy, Debug, PartialEq, Eq, Structural)]
pub enum Kind {
    /// When no kind is informed, the singleton pattern is assumed.
    UnknowKind,
    /// Abstract actors create children of themselves at runtime.
    Abstract,
    /// Singleton actors have one real instance over their whole lifecycle.
    Singleton,
    /// Pooled actors act as a stateless request service pool.
    Pooled,
    /// Reserved for future use.
    Proxy,
}

/// The name of `k` as the protocol schema writes it.
pub open spec fn kind_wire_name(k: Kind) -> Seq<char> {
    match k {
        Kind::UnknowKind => "UNKNOW_KIND"@,
        Kind::Abstract => "ABSTRACT"@,
        Kind::Singleton => "SINGLETON"@,
        Kind::Pooled => "POOLED"@,
        Kind::Proxy => "PROXY"@,
    }
}

/// The kind whose schema name is `s`, if any; the names are checked in
/// declaration order.
pub open spec fn kind_of_wire_name(s: Seq<char>) -> Option<Kind> {
    if s == "UNKNOW_KIND"@ {
        Some(Kind::UnknowKind)
    } else if s == "ABSTRACT"@ {
        Some(Kind::Abstract)
    } else if s == "SINGLETON"@ {
        Some(Kind::Singleton)
    } else if s == "POOLED"@ {
        Some(Kind::Pooled)
    } else if s == "PROXY"@ {
        Some(Kind::Proxy)
    } else {
        None
    }
}

impl Kind {
    /// String value of the enum field names used in the protocol schema.
    /// The values are not transformed in any way and are stable.
    pub fn as_str_name(&self) -> (r: &'static str)
        ensures
            r@ == kind_wire_name(*self),
    {
        match self {
            Kind::UnknowKind => "UNKNOW_KIND",
            Kind::Abstract => "ABSTRACT",
            Kind::Singleton => "SINGLETON",
            Kind::Pooled => "POOLED",
            Kind::Proxy => "PROXY",
        }
    }

    /// Creates the enum value from a field name used in the protocol schema.
    pub fn from_str_name(value: &str) -> (r: Option<Self>)
        ensures
            r == kind_of_wire_name(value@),
    {
        if str_eq(value, "UNKNOW_KIND") {
            Some(Kind::UnknowKind)
        } else if str_eq(value, "ABSTRACT") {
            Some(Kind::Abstract)
        } else if str_eq(value, "SINGLETON") {
            Some(Kind::Singleton)
        } else if str_eq(value, "POOLED") {
            Some(Kind::Pooled)
        } else if str_eq(value, "PROXY") {
            Some(Kind::Proxy)
        } else {
            None
        }
    }
}

/// Settings under which an actor runs.
#[derive(Clone, Debug, PartialEq)]
pub struct ActorSettings {
    pub kind: Kind,
    pub stateful: bool,
    pub snapshot_strategy: Option<ActorSnapshotStrategy>,
    pub deactivation_strategy: Option<ActorDeactivationStrategy>,
    pub min_pool_size: i32,
    pub max_pool_size: i32,
}

/// The addressed actor.  Of these fields this client populates only `id`;
/// the rest belong to the full actor descriptor that the runtime owns.
#[derive(Clone, Debug, PartialEq)]
pub struct Actor {
    pub id: Option<ActorId>,
    pub state: Option<ActorState>,
    pub metadata: Option<Metadata>,
    pub settings: Option<ActorSettings>,
    pub commands: Vec<Command>,
    pub timer_commands: Vec<FixedTimerCommand>,
}

impl View for Actor {
    type V = ActorView;

    open spec fn view(&self) -> ActorView {
        ActorView {
            id: match self.id {
                Some(id) => Some(id@),
                None => None,
            },
        }
    }
}

impl Actor {
    /// True when only the identity is populated: the form this client
    /// produces and the only form the codec carries.
    pub open spec fn id_only(&self) -> bool {
        &&& self.state is None
        &&& self.metadata is None
        &&& self.settings is None
        &&& self.commands@.len() == 0
        &&& self.timer_commands@.len() == 0
    }

    pub fn empty() -> (r: Actor)
        ensures
            r@ == ActorView::initial(),
            r.id_only(),
    {
        let r = Actor {
            id: None,
            state: None,
            metadata: None,
            settings: None,
            commands: Vec::new(),
            timer_commands: Vec::new(),
        };
        proof {
            assert(r@ =~= ActorView::initial());
        }
        r
    }
}

/// The state carried between the runtime and a user function during an
/// invocation.
#[derive(Clone, Debug, PartialEq)]
pub struct Context {
    pub state: Option<AnyValue>,
    pub metadata: Vec<(String, String)>,
    pub tags: Vec<(String, String)>,
    pub caller: Option<ActorId>,
    pub self_: Option<ActorId>,
}

/// Registers a service and its actor system with the runtime.
#[derive(Clone, Debug, PartialEq)]
pub struct RegistrationRequest {
    pub service_info: Option<ServiceInfo>,
    pub actor_system: Option<ActorSystem>,
}

/// The runtime's answer to a registration.
#[derive(Clone, Debug, PartialEq)]
pub struct RegistrationResponse {
    pub status: Option<RequestStatus>,
    pub proxy_info: Option<ProxyInfo>,
}

/// Describes the registering service and its support library.
#[derive(Clone, Debug, PartialEq)]
pub struct ServiceInfo {
    pub service_name: String,
    pub service_version: String,
    pub service_runtime: String,
    pub support_library_name: String,
    pub support_library_version: String,
    pub protocol_major_version: i32,
    pub protocol_minor_version: i32,
}

/// Asks the runtime to spawn the listed actors.
#[derive(Clone, Debug, PartialEq)]
pub struct SpawnRequest {
    pub actors: Vec<ActorId>,
}

/// The runtime's answer to a spawn request.
#[derive(Clone, Debug, PartialEq)]
pub struct SpawnResponse {
    pub status: Option<RequestStatus>,
}

/// Describes the proxy answering a registration.
#[derive(Clone, Debug, PartialEq)]
pub struct ProxyInfo {
    pub protocol_major_version: i32,
    pub protocol_minor_version: i32,
    pub proxy_name: String,
    pub proxy_version: String,
}

/// A further invocation issued as a consequence of handling one; forwarded
/// asynchronously and not part of the reply.
#[derive(Clone, Debug, PartialEq)]
pub struct SideEffect {
    pub request: Option<InvocationRequest>,
}

/// A message broadcast to the actors of a channel group.
#[derive(Clone, Debug, PartialEq)]
pub struct Broadcast {
    pub channel_group: String,
    pub command_name: String,
    pub payload: Option<crate::broadcast_payload::Payload>,
}

/// Sends the output of one actor's command to the input of another's.
#[derive(Clone, Debug, PartialEq)]
pub struct Pipe {
    pub actor: String,
    pub command_name: String,
}

/// Sends the input of one actor's command on to another's.
#[derive(Clone, Debug, PartialEq)]
pub struct Forward {
    pub actor: String,
    pub command_name: String,
}

/// Container for the messaging patterns a reply can request.
#[derive(Clone, Debug, PartialEq)]
pub struct Workflow {
    pub broadcast: Option<Broadcast>,
    pub effects: Vec<SideEffect>,
    pub routing: Option<crate::workflow::Routing>,
}

/// What a metadata key maps to: the value of the last entry holding it,
/// later entries shadowing earlier ones.
pub open spec fn lookup_last(
    entries: Seq<(Seq<char>, Seq<char>)>,
    key: Seq<char>,
) -> Option<Seq<char>>
    decreases entries.len(),
{
    if entries.len() == 0 {
        None
    } else if entries.last().0 == key {
        Some(entries.last().1)
    } else {
        lookup_last(entries.drop_last(), key)
    }
}

/// The envelope this client sends: a request to execute a named command on a
/// named actor of a named system.
#[derive(Clone, Debug, PartialEq)]
pub struct InvocationRequest {
    pub system: Option<ActorSystem>,
    pub actor: Option<Actor>,
    pub command_name: String,
    pub dispatch_mode: DispatchMode,
    pub caller: Option<ActorId>,
    pub metadata: Vec<(String, String)>,
    pub scheduled_to: i64,
    pub pooled: bool,
    pub payload: Option<crate::invocation_request::Payload>,
}

impl View for InvocationRequest {
    type V = InvocationView;

    open spec fn view(&self) -> InvocationView {
        InvocationView {
            system: match self.system {
                Some(s) => Some(s@),
                None => None,
            },
            actor: match self.actor {
                Some(a) => Some(a@),
                None => None,
            },
            command_name: self.command_name@,
            dispatch_mode: self.dispatch_mode,
            caller: match self.caller {
                Some(c) => Some(c@),
                None => None,
            },
            metadata: self.metadata@.map_values(|p: (String, String)| (p.0@, p.1@)),
            scheduled_to: self.scheduled_to,
            pooled: self.pooled,
            payload: match self.payload {
                Some(p) => Some(p@),
                None => None,
            },
        }
    }
}

impl InvocationRequest {
    /// True when the nested system and actor are in the form this client
    /// produces: no registry, and an actor that carries only its identity.
    pub open spec fn client_form(&self) -> bool {
        &&& match self.system {
            Some(s) => s.plain(),
            None => true,
        }
        &&& match self.actor {
            Some(a) => a.id_only(),
            None => true,
        }
    }

    /// Looks a key up in the metadata, later entries shadowing earlier
    /// ones: the duplicate-key-last-wins reading of the entry list.
    pub fn metadata_get(&self, key: &String) -> (r: Option<String>)
        ensures
            match r {
                Some(v) => lookup_last(self@.metadata, key@) == Some(v@),
                None => lookup_last(self@.metadata, key@) is None,
            },
    {
        let ghost entries = self@.metadata;
        let n = self.metadata.len();
        let mut i: usize = n;
        proof {
            assert(entries.take(n as int) =~= entries);
        }
        while i > 0
            invariant
                i <= n,
                n == self.metadata.len(),
                entries == self@.metadata,
                lookup_last(entries.take(i as int), key@) == lookup_last(entries, key@),
            decreases i,
        {
            let j = i - 1;
            if self.metadata[j].0 == *key {
                let found = self.metadata[j].1.clone();
                proof {
                    assert(entries.take(j + 1 as int).last() == entries[j as int]);
                }
                return Some(found);
            }
            proof {
                assert(entries.take(j + 1 as int).last() == entries[j as int]);
                assert(entries.take(j + 1 as int).drop_last() =~= entries.take(j as int));
            }
            i = j;
        }
        proof {
            assert(entries.take(0) =~= Seq::<(Seq<char>, Seq<char>)>::empty());
        }
        None
    }

    pub fn empty() -> (r: InvocationRequest)
        ensures
            r@ == InvocationView::initial(),
            r.client_form(),
    {
        let r = InvocationRequest {
            system: None,
            actor: None,
            command_name: String::new(),
            dispatch_mode: DispatchMode::RequestReply,
            caller: None,
            metadata: Vec::new(),
            scheduled_to: 0,
            pooled: false,
            payload: None,
        };
        proof {
            assert(r@.metadata =~= InvocationView::initial().metadata);
            assert(r@ =~= InvocationView::initial());
        }
        r
    }
}

/// Carries an invocation from the runtime to the actor that answers it.
#[derive(Clone, Debug, PartialEq)]
pub struct ActorInvocation {
    pub actor: Option<ActorId>,
    pub command_name: String,
    pub current_context: Option<Context>,
    pub caller: Option<ActorId>,
    pub payload: Option<crate::actor_invocation::Payload>,
}

/// A user function's answer to an `ActorInvocation`.
#[derive(Clone, Debug, PartialEq)]
pub struct ActorInvocationResponse {
    pub actor_name: String,
    pub actor_system: String,
    pub updated_context: Option<Context>,
    pub workflow: Option<Workflow>,
    pub payload: Option<crate::actor_invocation_response::Payload>,
}

/// The reply forwarded to the original caller of an `InvocationRequest`.
#[derive(Clone, Debug, PartialEq)]
pub struct InvocationResponse {
    pub status: Option<RequestStatus>,
    pub system: Option<ActorSystem>,
    pub actor: Option<Actor>,
    pub payload: Option<crate::invocation_response::Payload>,
}

/// The status of a handled request.
#[derive(Clone, Debug, PartialEq)]
pub struct RequestStatus {
    pub status: Status,
    pub message: String,
}

/// The outcome a request status names.
#[derive(Clone, Copy, Debug, PartialEq, Eq, Structural)]
pub enum Status {
    Unknown,
    Okay,
    ActorNotFound,
    Error,
}

/// The name of `s` as the protocol schema writes it.
pub open spec fn status_wire_name(s: Status) -> Seq<char> {
    match s {
        Status::Unknown => "UNKNOWN"@,
        Status::Okay => "OK"@,
        Status::ActorNotFound => "ACTOR_NOT_FOUND"@,
        Status::Error => "ERROR"@,
    }
}

/// The status whose schema name is `s`, if any.
pub open spec fn status_of_wire_name(s: Seq<char>) -> Option<Status> {
    if s == "UNKNOWN"@ {
        Some(Status::Unknown)
    } else if s == "OK"@ {
        Some(Status::Okay)
    } else if s == "ACTOR_NOT_FOUND"@ {
        Some(Status::ActorNotFound)
    } else if s == "ERROR"@ {
        Some(Status::Error)
    } else {
        None
    }
}

impl Status {
    /// String value of the enum field names used in the protocol schema.
    /// The values are not transformed in any way and are stable.
    pub fn as_str_name(&self) -> (r: &'static str)
        ensures
            r@ == status_wire_name(*self),
    {
        match self {
            Status::Unknown => "UNKNOWN",
            Status::Okay => "OK",
            Status::ActorNotFound => "ACTOR_NOT_FOUND",
            Status::Error => "ERROR",
        }
    }

    /// Creates the enum value from a field name used in the protocol schema.
    pub fn from_str_name(value: &str) -> (r: Option<Self>)
        ensures
            r == status_of_wire_name(value@),
    {
        if str_eq(value, "UNKNOWN") {
            Some(Status::Unknown)
        } else if str_eq(value, "OK") {
            Some(Status::Okay)
        } else if str_eq(value, "ACTOR_NOT_FOUND") {
            Some(Status::ActorNotFound)
        } else if str_eq(value, "ERROR") {
            Some(Status::Error)
        } else {
            None
        }
    }
}

/// Relies on `str`'s `==` (its `PartialEq`): true exactly when the two
/// slices hold the same characters.
#[verifier::external_body]
fn str_eq(a: &str, b: &str) -> (r: bool)
    ensures
        r == (a@ == b@),
{
    a == b
}

} // verus!
