use spawn_activator::decode::decode_invocation;
use spawn_activator::dispatch::{
    action_for, parse_args, prepare, settle_publish, settle_request, DispatchAction,
    TransportEvent,
};
use spawn_activator::errors::ActivatorError;
use spawn_activator::protocol::{DispatchMode, Kind, Status};
use spawn_activator::topic::topic_for;

/// A transport stand-in that only counts how often it was touched; the
/// argument-validation property asks that a bad token count causes zero
/// network activity.
struct RecordingTransport {
    connect_attempts: usize,
}

impl RecordingTransport {
    fn new() -> RecordingTransport {
        RecordingTransport { connect_attempts: 0 }
    }

    fn connect_and_send(&mut self, _topic: &str, _bytes: &[u8]) -> TransportEvent {
        self.connect_attempts += 1;
        TransportEvent::Accepted
    }
}

fn argv(tokens: &[&str]) -> Vec<String> {
    tokens.iter().map(|t| t.to_string()).collect()
}

#[test]
fn topic_for_orders() {
    assert_eq!(topic_for("orders"), "spawn.orders.actors.actions");
}

#[test]
fn topic_matches_plan_topic() {
    let args = argv(&["activator", "billing", "invoice-42", "chargeCard"]);
    let plan = prepare(&args, DispatchMode::FireAndForget).unwrap();
    assert_eq!(plan.topic, "spawn.billing.actors.actions");
}

#[test]
fn three_tokens_is_invalid_arguments_and_no_network_call() {
    let mut transport = RecordingTransport::new();
    let args = argv(&["activator", "billing", "invoice-42"]);
    match prepare(&args, DispatchMode::FireAndForget) {
        Ok(plan) => {
            transport.connect_and_send(&plan.topic, &plan.bytes);
            panic!("three tokens must not produce a plan");
        }
        Err(e) => assert_eq!(e, ActivatorError::InvalidArguments),
    }
    assert_eq!(transport.connect_attempts, 0);
}

#[test]
fn five_tokens_is_invalid_arguments() {
    let args = argv(&["activator", "billing", "invoice-42", "chargeCard", "extra"]);
    assert_eq!(
        parse_args(&args).unwrap_err(),
        ActivatorError::InvalidArguments
    );
}

#[test]
fn empty_token_is_invalid_arguments() {
    let args = argv(&["activator", "billing", "", "chargeCard"]);
    assert_eq!(
        parse_args(&args).unwrap_err(),
        ActivatorError::InvalidArguments
    );
    let args = argv(&["activator", "", "invoice-42", "chargeCard"]);
    assert_eq!(
        parse_args(&args).unwrap_err(),
        ActivatorError::InvalidArguments
    );
}

#[test]
fn fire_and_forget_publishes_and_succeeds_without_reply() {
    assert_eq!(action_for(DispatchMode::FireAndForget), DispatchAction::Publish);
    // a stub that never produces a reply: acceptance alone is success
    assert_eq!(settle_publish(&TransportEvent::Accepted), Ok(()));
    assert_eq!(settle_publish(&TransportEvent::NoReply), Ok(()));
}

#[test]
fn request_reply_times_out_when_nobody_answers() {
    assert_eq!(action_for(DispatchMode::RequestReply), DispatchAction::Request);
    assert_eq!(
        settle_request(TransportEvent::NoReply),
        Err(ActivatorError::Timeout)
    );
    assert_eq!(
        settle_request(TransportEvent::Accepted),
        Err(ActivatorError::Timeout)
    );
}

#[test]
fn request_reply_surfaces_the_reply_bytes() {
    assert_eq!(
        settle_request(TransportEvent::Reply(vec![1, 2, 3])),
        Ok(vec![1, 2, 3])
    );
}

#[test]
fn connection_failure_is_distinct_from_timeout() {
    assert_eq!(
        settle_request(TransportEvent::ConnectionRefused),
        Err(ActivatorError::ConnectionFailure)
    );
    assert_eq!(
        settle_publish(&TransportEvent::ConnectionRefused),
        Err(ActivatorError::ConnectionFailure)
    );
    assert_eq!(
        settle_request(TransportEvent::Failed),
        Err(ActivatorError::TransportError)
    );
    assert_eq!(
        settle_publish(&TransportEvent::Failed),
        Err(ActivatorError::TransportError)
    );
}

#[test]
fn end_to_end_example() {
    let args = argv(&["activator", "billing", "invoice-42", "chargeCard"]);
    let plan = prepare(&args, DispatchMode::FireAndForget).unwrap();
    assert_eq!(plan.topic, "spawn.billing.actors.actions");
    assert_eq!(plan.action, DispatchAction::Publish);
    let decoded = decode_invocation(&plan.bytes).unwrap();
    assert_eq!(decoded.command_name, "chargeCard");
    assert_eq!(
        decoded.actor.clone().unwrap().id.unwrap().name,
        "invoice-42"
    );
    assert_eq!(decoded.system.clone().unwrap().name, "billing");
    assert_eq!(decoded.dispatch_mode, DispatchMode::FireAndForget);
    assert_eq!(decoded, plan.message);
}

#[test]
fn error_descriptions_are_stable() {
    assert_eq!(ActivatorError::InvalidArguments.describe(), "invalid arguments");
    assert_eq!(ActivatorError::ConnectionFailure.describe(), "connection failure");
    assert_eq!(ActivatorError::MalformedMessage.describe(), "malformed message");
    assert_eq!(ActivatorError::Timeout.describe(), "timeout");
    assert_eq!(ActivatorError::TransportError.describe(), "transport error");
}

#[test]
fn kind_names_round_trip() {
    let kinds = [
        Kind::UnknowKind,
        Kind::Abstract,
        Kind::Singleton,
        Kind::Pooled,
        Kind::Proxy,
    ];
    for k in kinds {
        assert_eq!(Kind::from_str_name(k.as_str_name()), Some(k));
    }
    assert_eq!(Kind::Abstract.as_str_name(), "ABSTRACT");
    assert_eq!(Kind::from_str_name("SINGLETON"), Some(Kind::Singleton));
    assert_eq!(Kind::from_str_name("nonsense"), None);
}

#[test]
fn status_names_round_trip() {
    let statuses = [
        Status::Unknown,
        Status::Okay,
        Status::ActorNotFound,
        Status::Error,
    ];
    for s in statuses {
        assert_eq!(Status::from_str_name(s.as_str_name()), Some(s));
    }
    assert_eq!(Status::Okay.as_str_name(), "OK");
    assert_eq!(Status::from_str_name("ACTOR_NOT_FOUND"), Some(Status::ActorNotFound));
    assert_eq!(Status::from_str_name(""), None);
}
