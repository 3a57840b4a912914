use spawn_activator::decode::decode_invocation;
use spawn_activator::encode::{encode_actor_id, encode_any, encode_invocation};
use spawn_activator::errors::ActivatorError;
use spawn_activator::invocation_request::Payload;
use spawn_activator::protocol::{
    Actor, ActorId, ActorSystem, AnyValue, DispatchMode, InvocationRequest, Noop,
};

fn full_message() -> InvocationRequest {
    InvocationRequest {
        system: Some(ActorSystem {
            name: "billing".to_string(),
            registry: None,
        }),
        actor: Some(Actor {
            id: Some(ActorId {
                name: "invoice-42".to_string(),
                system: "billing".to_string(),
                parent: "template".to_string(),
            }),
            state: None,
            metadata: None,
            settings: None,
            commands: Vec::new(),
            timer_commands: Vec::new(),
        }),
        command_name: "chargeCard".to_string(),
        dispatch_mode: DispatchMode::FireAndForget,
        caller: Some(ActorId {
            name: "operator".to_string(),
            system: "billing".to_string(),
            parent: String::new(),
        }),
        metadata: vec![
            ("trace".to_string(), "abc-123".to_string()),
            ("tenant".to_string(), "acme".to_string()),
        ],
        scheduled_to: 0,
        pooled: false,
        payload: Some(Payload::Value(AnyValue {
            type_url: "type.example/Charge".to_string(),
            value: vec![1, 2, 3, 255],
        })),
    }
}

#[test]
fn round_trip_full_message() {
    let m = full_message();
    let bytes = encode_invocation(&m);
    let decoded = decode_invocation(&bytes).expect("self-produced encoding must decode");
    assert_eq!(decoded, m);
}

#[test]
fn round_trip_minimal_message() {
    let m = InvocationRequest {
        system: None,
        actor: None,
        command_name: String::new(),
        dispatch_mode: DispatchMode::RequestReply,
        caller: None,
        metadata: Vec::new(),
        scheduled_to: 0,
        pooled: false,
        payload: None,
    };
    let bytes = encode_invocation(&m);
    assert!(bytes.is_empty(), "the all-defaults message encodes to nothing");
    let decoded = decode_invocation(&bytes).unwrap();
    assert_eq!(decoded, m);
}

#[test]
fn round_trip_noop_payload_and_flags() {
    let mut m = full_message();
    m.payload = Some(Payload::Noop(Noop {}));
    m.pooled = true;
    m.scheduled_to = 1_700_000_000_000;
    let bytes = encode_invocation(&m);
    let decoded = decode_invocation(&bytes).unwrap();
    assert_eq!(decoded, m);
}

#[test]
fn round_trip_negative_scheduled_to() {
    let mut m = full_message();
    m.scheduled_to = -1;
    let decoded = decode_invocation(&encode_invocation(&m)).unwrap();
    assert_eq!(decoded.scheduled_to, -1);
    m.scheduled_to = i64::MIN;
    let decoded = decode_invocation(&encode_invocation(&m)).unwrap();
    assert_eq!(decoded.scheduled_to, i64::MIN);
}

#[test]
fn exact_bytes_of_known_message() {
    // system "billing", actor id name "invoice-42" in "billing",
    // command "chargeCard", fire-and-forget, no-payload marker.
    let m = InvocationRequest {
        system: Some(ActorSystem {
            name: "billing".to_string(),
            registry: None,
        }),
        actor: Some(Actor {
            id: Some(ActorId {
                name: "invoice-42".to_string(),
                system: "billing".to_string(),
                parent: String::new(),
            }),
            state: None,
            metadata: None,
            settings: None,
            commands: Vec::new(),
            timer_commands: Vec::new(),
        }),
        command_name: "chargeCard".to_string(),
        dispatch_mode: DispatchMode::FireAndForget,
        caller: None,
        metadata: Vec::new(),
        scheduled_to: 0,
        pooled: false,
        payload: Some(Payload::Noop(Noop {})),
    };
    let mut expected: Vec<u8> = Vec::new();
    // field 1 (system), nested field 1 "billing"
    expected.extend_from_slice(&[0x0A, 0x09, 0x0A, 0x07]);
    expected.extend_from_slice(b"billing");
    // field 2 (actor), nested field 1 (id) holding name and system
    expected.extend_from_slice(&[0x12, 0x17, 0x0A, 0x15, 0x0A, 0x0A]);
    expected.extend_from_slice(b"invoice-42");
    expected.extend_from_slice(&[0x12, 0x07]);
    expected.extend_from_slice(b"billing");
    // field 3 (command_name)
    expected.extend_from_slice(&[0x1A, 0x0A]);
    expected.extend_from_slice(b"chargeCard");
    // field 5 (fire-and-forget flag), field 7 (no-payload marker)
    expected.extend_from_slice(&[0x28, 0x01, 0x3A, 0x00]);
    assert_eq!(encode_invocation(&m), expected);
}

#[test]
fn varint_boundaries() {
    let mut out: Vec<u8> = Vec::new();
    spawn_activator::wire::write_varint(&mut out, 0);
    assert_eq!(out, vec![0x00]);
    out.clear();
    spawn_activator::wire::write_varint(&mut out, 127);
    assert_eq!(out, vec![0x7F]);
    out.clear();
    spawn_activator::wire::write_varint(&mut out, 128);
    assert_eq!(out, vec![0x80, 0x01]);
    out.clear();
    spawn_activator::wire::write_varint(&mut out, 300);
    assert_eq!(out, vec![0xAC, 0x02]);
    out.clear();
    spawn_activator::wire::write_varint(&mut out, u64::MAX);
    assert_eq!(
        out,
        vec![0xFF, 0xFF, 0xFF, 0xFF, 0xFF, 0xFF, 0xFF, 0xFF, 0xFF, 0x01]
    );
}

#[test]
fn forward_compatibility_unknown_fields_are_skipped() {
    let m = full_message();
    let mut bytes = encode_invocation(&m);
    // tag 12 varint field
    bytes.extend_from_slice(&[0x60, 0x2A]);
    // tag 13 length-delimited field
    bytes.extend_from_slice(&[0x6A, 0x03, 9, 9, 9]);
    // tag 14 64-bit field, tag 15 32-bit field
    bytes.extend_from_slice(&[0x71, 1, 2, 3, 4, 5, 6, 7, 8]);
    bytes.extend_from_slice(&[0x7D, 1, 2, 3, 4]);
    let decoded = decode_invocation(&bytes).unwrap();
    assert_eq!(decoded, m);
}

#[test]
fn unknown_fields_between_known_ones_are_skipped() {
    // command_name, an unknown tag 12 field, then the fire-and-forget flag.
    let mut bytes: Vec<u8> = vec![0x1A, 0x02];
    bytes.extend_from_slice(b"go");
    bytes.extend_from_slice(&[0x60, 0x07]);
    bytes.extend_from_slice(&[0x28, 0x01]);
    let decoded = decode_invocation(&bytes).unwrap();
    assert_eq!(decoded.command_name, "go");
    assert_eq!(decoded.dispatch_mode, DispatchMode::FireAndForget);
}

#[test]
fn oneof_both_tags_last_wins_noop() {
    // field 4 (typed value with empty contents), then field 7 (noop)
    let bytes: Vec<u8> = vec![0x22, 0x00, 0x3A, 0x00];
    let decoded = decode_invocation(&bytes).unwrap();
    assert_eq!(decoded.payload, Some(Payload::Noop(Noop {})));
}

#[test]
fn oneof_both_tags_last_wins_value() {
    // field 7 (noop), then field 4 (typed value with type_url "t")
    let bytes: Vec<u8> = vec![0x3A, 0x00, 0x22, 0x03, 0x0A, 0x01, b't'];
    let decoded = decode_invocation(&bytes).unwrap();
    assert_eq!(
        decoded.payload,
        Some(Payload::Value(AnyValue {
            type_url: "t".to_string(),
            value: Vec::new(),
        }))
    );
}

#[test]
fn decoder_tolerates_any_field_order() {
    // flag first, then command_name, then system.
    let mut bytes: Vec<u8> = vec![0x28, 0x01, 0x1A, 0x02];
    bytes.extend_from_slice(b"go");
    bytes.extend_from_slice(&[0x0A, 0x04, 0x0A, 0x02]);
    bytes.extend_from_slice(b"sy");
    let decoded = decode_invocation(&bytes).unwrap();
    assert_eq!(decoded.dispatch_mode, DispatchMode::FireAndForget);
    assert_eq!(decoded.command_name, "go");
    assert_eq!(decoded.system.unwrap().name, "sy");
}

#[test]
fn duplicate_field_last_wins() {
    // two command_name fields: "a" then "b"
    let bytes: Vec<u8> = vec![0x1A, 0x01, b'a', 0x1A, 0x01, b'b'];
    let decoded = decode_invocation(&bytes).unwrap();
    assert_eq!(decoded.command_name, "b");
}

#[test]
fn truncated_input_is_malformed() {
    // a length-delimited field whose length overruns the input
    let bytes: Vec<u8> = vec![0x0A, 0x09, 0x0A];
    assert_eq!(
        decode_invocation(&bytes),
        Err(ActivatorError::MalformedMessage)
    );
    // a key with nothing after it
    assert_eq!(
        decode_invocation(&[0x28]),
        Err(ActivatorError::MalformedMessage)
    );
}

#[test]
fn wrong_wire_type_for_known_tag_is_malformed() {
    // command_name (tag 3) as a varint field
    let bytes: Vec<u8> = vec![0x18, 0x05];
    assert_eq!(
        decode_invocation(&bytes),
        Err(ActivatorError::MalformedMessage)
    );
}

#[test]
fn invalid_utf8_in_string_field_is_malformed() {
    let bytes: Vec<u8> = vec![0x1A, 0x01, 0xFF];
    assert_eq!(
        decode_invocation(&bytes),
        Err(ActivatorError::MalformedMessage)
    );
}

#[test]
fn group_wire_types_are_malformed() {
    // tag 12 with wire type 3 (group start), which the format does not carry
    let bytes: Vec<u8> = vec![0x63];
    assert_eq!(
        decode_invocation(&bytes),
        Err(ActivatorError::MalformedMessage)
    );
}

#[test]
fn field_number_zero_is_malformed() {
    let bytes: Vec<u8> = vec![0x00, 0x00];
    assert_eq!(
        decode_invocation(&bytes),
        Err(ActivatorError::MalformedMessage)
    );
}

#[test]
fn any_value_encoding_matches_reference_codec() {
    let ours = AnyValue {
        type_url: "type.googleapis.com/spawn.Charge".to_string(),
        value: vec![8, 42, 16, 7],
    };
    let theirs = prost_types::Any {
        type_url: "type.googleapis.com/spawn.Charge".to_string(),
        value: vec![8, 42, 16, 7],
    };
    let reference = prost::Message::encode_to_vec(&theirs);
    assert_eq!(encode_any(&ours), reference);
}

#[test]
fn actor_id_encoding_omits_empty_fields() {
    let id = ActorId {
        name: "a".to_string(),
        system: String::new(),
        parent: String::new(),
    };
    assert_eq!(encode_actor_id(&id), vec![0x0A, 0x01, b'a']);
}

#[test]
fn metadata_round_trips_with_duplicate_keys() {
    let mut m = full_message();
    m.metadata = vec![
        ("k".to_string(), "first".to_string()),
        ("other".to_string(), "x".to_string()),
        ("k".to_string(), "last".to_string()),
    ];
    let decoded = decode_invocation(&encode_invocation(&m)).unwrap();
    assert_eq!(decoded.metadata, m.metadata);
    assert_eq!(
        decoded.metadata_get(&"k".to_string()),
        Some("last".to_string())
    );
    assert_eq!(
        decoded.metadata_get(&"other".to_string()),
        Some("x".to_string())
    );
    assert_eq!(decoded.metadata_get(&"absent".to_string()), None);
}

#[test]
fn empty_metadata_entry_values_round_trip() {
    let mut m = full_message();
    m.metadata = vec![(String::new(), String::new()), ("k".to_string(), String::new())];
    let decoded = decode_invocation(&encode_invocation(&m)).unwrap();
    assert_eq!(decoded.metadata, m.metadata);
}
