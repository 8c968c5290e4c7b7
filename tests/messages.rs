use sync_types::client::{
    double_option, AuthenticationToken, ClientEvent, ClientMessage, Query, QuerySetModification,
};
use sync_types::error::DecodeError;
use sync_types::identity::UserIdentityAttributes;
use sync_types::json::{JsonNumber, JsonValue};
use sync_types::server::{QueryFailure, ServerMessage, StateModification, StateVersion};
use sync_types::types::{QueryId, SessionId, UserIdentifier};
use sync_types::value::Value;

fn s(x: &str) -> JsonValue {
    JsonValue::String(x.to_string())
}

fn n(x: u64) -> JsonValue {
    JsonValue::Number(JsonNumber::PosInt(x))
}

fn obj(members: Vec<(&str, JsonValue)>) -> JsonValue {
    JsonValue::Object(members.into_iter().map(|(k, v)| (k.to_string(), v)).collect())
}

/// The members of an object sorted by name, so that objects compare as maps.
fn sorted(j: JsonValue) -> Vec<(String, JsonValue)> {
    match j {
        JsonValue::Object(mut fs) => {
            fs.sort_by(|a, b| a.0.cmp(&b.0));
            fs
        },
        _ => panic!("expected an object"),
    }
}

fn assert_json_roundtrips(j: JsonValue) {
    let m = ClientMessage::from_json(&j).unwrap();
    let back = m.to_json();
    assert_eq!(sorted(back), sorted(j));
}

#[test]
fn authentication_token_backwards_compatability() {
    let old_admin_auth_message = obj(vec![
        ("type", s("Authenticate")),
        ("tokenType", s("Admin")),
        ("value", s("fakefakefake")),
        ("baseVersion", n(0)),
    ]);
    match ClientMessage::from_json(&old_admin_auth_message).unwrap() {
        ClientMessage::Authenticate { base_version, token: AuthenticationToken::Admin(v, None) } => {
            assert_eq!(base_version, 0);
            assert_eq!(v, "fakefakefake");
        },
        other => panic!("unexpected {other:?}"),
    }
    assert_json_roundtrips(old_admin_auth_message);
    let old_user_auth_message = obj(vec![
        ("type", s("Authenticate")),
        ("tokenType", s("User")),
        ("value", s("fakefakefake")),
        ("baseVersion", n(0)),
    ]);
    assert_json_roundtrips(old_user_auth_message);
}

#[test]
fn impersonating_is_read_as_acting_as() {
    let j = obj(vec![
        ("type", s("Authenticate")),
        ("tokenType", s("Admin")),
        ("value", s("key")),
        ("baseVersion", n(3)),
        ("impersonating", obj(vec![("tokenIdentifier", s("who"))])),
    ]);
    let m = ClientMessage::from_json(&j).unwrap();
    match &m {
        ClientMessage::Authenticate { token: AuthenticationToken::Admin(_, Some(u)), .. } => {
            assert_eq!(u.token_identifier.0, "who");
        },
        other => panic!("unexpected {other:?}"),
    }
    let fs = sorted(m.to_json());
    assert!(fs.iter().any(|(k, _)| k == "actingAs"));
    assert!(!fs.iter().any(|(k, _)| k == "impersonating"));
}

#[test]
fn user_identity_attributes_deserialize_token_identifier_given() {
    let serialized = obj(vec![("tokenIdentifier", s("fake_identifier"))]);
    let deserialized = UserIdentityAttributes::from_json(&serialized).unwrap();
    assert_eq!(deserialized.token_identifier.0, UserIdentifier("fake_identifier".to_owned()).0);
}

#[test]
fn user_identity_attributes_deserialize_token_identifier_deriver() {
    let serialized = obj(vec![("issuer", s("fake_issuer")), ("subject", s("fake_subject"))]);
    let deserialized = UserIdentityAttributes::from_json(&serialized).unwrap();
    assert_eq!(
        deserialized.token_identifier.0,
        UserIdentifier::construct("fake_issuer", "fake_subject").0
    );
    assert_eq!(deserialized.token_identifier.0, "fake_issuer|fake_subject");
}

#[test]
fn user_identity_attributes_deserialize_token_identifier_cannot_derive() {
    let serialized = obj(vec![("issuer", s("fake_issuer"))]);
    let deserialized = UserIdentityAttributes::from_json(&serialized);
    let err = deserialized.unwrap_err();
    assert_eq!(err, DecodeError::MissingIdentityKey);
    assert!(err
        .message()
        .contains("Either \"tokenIdentifier\" or \"issuer\" and \"subject\" must be set"));
}

#[test]
fn user_identity_attributes_round_trip() {
    let mut u = UserIdentityAttributes::default();
    u.email = Some("a@b.c".to_string());
    u.email_verified = Some(true);
    u.issuer = Some("iss".to_string());
    let j = u.to_json();
    let back = UserIdentityAttributes::from_json(&j).unwrap();
    assert_eq!(back.token_identifier.0, "convex|fake_user");
    assert_eq!(back.email, Some("a@b.c".to_string()));
    assert_eq!(back.email_verified, Some(true));
    assert_eq!(back.issuer, Some("iss".to_string()));
    assert_eq!(back.subject, None);
    assert_eq!(back.to_json(), j);
    let bad = obj(vec![("tokenIdentifier", s("t")), ("emailVerified", s("yes"))]);
    assert_eq!(UserIdentityAttributes::from_json(&bad).unwrap_err(), DecodeError::InvalidType);
}

#[test]
fn legacy_mutation_id_is_read_and_both_are_written() {
    let j = obj(vec![
        ("type", s("Mutation")),
        ("mutationId", n(7)),
        ("udfPath", s("f:g")),
        ("args", JsonValue::Array(vec![])),
    ]);
    let m = ClientMessage::from_json(&j).unwrap();
    match &m {
        ClientMessage::Mutation { request_id, .. } => assert_eq!(*request_id, 7),
        other => panic!("unexpected {other:?}"),
    }
    let fs = sorted(m.to_json());
    assert!(fs.contains(&("requestId".to_string(), n(7))));
    assert!(fs.contains(&("mutationId".to_string(), n(7))));
    let missing = obj(vec![("type", s("Action")), ("udfPath", s("f")), ("args", JsonValue::Array(vec![]))]);
    assert_eq!(ClientMessage::from_json(&missing).unwrap_err(), DecodeError::MissingRequestId);
}

#[test]
fn connect_defaults_close_reason() {
    let j = obj(vec![
        ("type", s("Connect")),
        ("sessionId", s("67e55044-10b1-426f-9247-bb680e5fe0c8")),
        ("connectionCount", n(2)),
    ]);
    let m = ClientMessage::from_json(&j).unwrap();
    match &m {
        ClientMessage::Connect { session_id, connection_count, last_close_reason } => {
            assert_eq!(session_id.0, 0x67e5504410b1426f9247bb680e5fe0c8);
            assert_eq!(*connection_count, 2);
            assert_eq!(last_close_reason, "unknown");
        },
        other => panic!("unexpected {other:?}"),
    }
    let fs = sorted(m.to_json());
    assert!(fs.contains(&("sessionId".to_string(), s("67e55044-10b1-426f-9247-bb680e5fe0c8"))));
    assert!(fs.contains(&("lastCloseReason".to_string(), s("unknown"))));
    let simple = obj(vec![
        ("type", s("Connect")),
        ("sessionId", s("67e5504410b1426f9247bb680e5fe0c8")),
        ("connectionCount", n(2)),
    ]);
    assert_eq!(ClientMessage::from_json(&simple).unwrap_err(), DecodeError::MalformedSessionId);
}

#[test]
fn client_messages_round_trip() {
    let msgs = vec![
        ClientMessage::Connect {
            session_id: SessionId::nil(),
            connection_count: 1,
            last_close_reason: "closed".to_string(),
        },
        ClientMessage::ModifyQuerySet {
            base_version: 1,
            new_version: 2,
            modifications: vec![
                QuerySetModification::Add(Query {
                    query_id: QueryId::new(4),
                    udf_path: "q:list".to_string(),
                    args: vec![s("a")],
                    journal: Some(None),
                }),
                QuerySetModification::Add(Query {
                    query_id: QueryId::new(5),
                    udf_path: "q:page".to_string(),
                    args: vec![],
                    journal: Some(Some("j".to_string())),
                }),
                QuerySetModification::Remove { query_id: QueryId::new(3) },
            ],
        },
        ClientMessage::Action { request_id: 9, udf_path: "a:run".to_string(), args: vec![n(1)] },
        ClientMessage::Authenticate { base_version: 2, token: AuthenticationToken::Anonymous },
        ClientMessage::Event(ClientEvent { event_type: "t".to_string(), event: s("e") }),
    ];
    for m in msgs {
        let j = m.to_json();
        let back = ClientMessage::from_json(&j).unwrap();
        assert_eq!(back.to_json(), j);
    }
    let unknown = obj(vec![("type", s("Nope"))]);
    assert_eq!(ClientMessage::from_json(&unknown).unwrap_err(), DecodeError::UnknownVariant);
}

#[test]
fn server_messages_round_trip() {
    let v = StateVersion { query_set: 1, identity: 2, ts: 1 << 60 };
    let msgs: Vec<ServerMessage<Value>> = vec![
        ServerMessage::Transition {
            start_version: StateVersion::initial(),
            end_version: v,
            modifications: vec![
                StateModification::QueryUpdated {
                    query_id: QueryId::new(1),
                    value: Value::Float64(f64::NAN.to_bits()),
                    log_lines: vec!["l".to_string()],
                    journal: None,
                },
                StateModification::QueryFailed {
                    query_id: QueryId::new(2),
                    error_message: "bad".to_string(),
                    log_lines: vec![],
                    journal: Some("j".to_string()),
                },
                StateModification::QueryRemoved { query_id: QueryId::new(3) },
            ],
        },
        ServerMessage::QueriesFailed {
            failures: vec![QueryFailure {
                query_id: QueryId::new(1),
                message: "m".to_string(),
                log_lines: vec![],
            }],
        },
        ServerMessage::MutationResponse {
            request_id: 4,
            result: Ok(Value::Int64(5)),
            ts: Some(7),
            log_lines: vec![],
        },
        ServerMessage::ActionResponse {
            request_id: 4,
            result: Err("oops".to_string()),
            log_lines: vec!["x".to_string()],
        },
        ServerMessage::AuthError { error_message: "no".to_string(), base_version: Some(1) },
        ServerMessage::FatalError { error_message: "fatal".to_string() },
        ServerMessage::Ping,
    ];
    for m in msgs {
        let j = m.to_json();
        let back = ServerMessage::<Value>::from_json(&j).unwrap();
        assert_eq!(back.to_json(), j);
    }
    let passthrough: ServerMessage<JsonValue> = ServerMessage::MutationResponse {
        request_id: 1,
        result: Ok(obj(vec![("k", n(1))])),
        ts: None,
        log_lines: vec![],
    };
    let j = passthrough.to_json();
    assert_eq!(ServerMessage::<JsonValue>::from_json(&j).unwrap().to_json(), j);
}

#[test]
fn state_version_json() {
    let v = StateVersion { query_set: 1, identity: 2, ts: 1 << 60 };
    let j = v.to_json();
    assert_eq!(j, obj(vec![("querySet", n(1)), ("identity", n(2)), ("ts", s("AAAAAAAAABA="))]));
    assert_eq!(StateVersion::from_json(&j), Ok(v));
    let bad = obj(vec![("querySet", n(1)), ("identity", n(2)), ("ts", s("AQID"))]);
    assert_eq!(StateVersion::from_json(&bad), Err(DecodeError::MalformedEncoding));
    assert!(StateVersion::initial() < v);
}

#[test]
fn missing_member_is_reported() {
    let j = obj(vec![("type", s("Event")), ("eventType", s("t"))]);
    assert_eq!(ClientMessage::from_json(&j).unwrap_err(), DecodeError::MissingField);
    let no_type = obj(vec![("eventType", s("t"))]);
    assert_eq!(ClientMessage::from_json(&no_type).unwrap_err(), DecodeError::MissingField);
    assert_eq!(ClientMessage::from_json(&n(1)).unwrap_err(), DecodeError::InvalidType);
}

#[test]
fn journal_distinguishes_absent_null_and_token() {
    assert_eq!(double_option(None), Ok(None));
    assert_eq!(double_option(Some(&JsonValue::Null)), Ok(Some(None)));
    assert_eq!(double_option(Some(&s("j"))), Ok(Some(Some("j".to_string()))));
    assert_eq!(double_option(Some(&n(1))), Err(DecodeError::InvalidType));
    let add = obj(vec![("type", s("Add")), ("args", JsonValue::Array(vec![]))]);
    match QuerySetModification::from_json(&add).unwrap() {
        QuerySetModification::Add(q) => {
            assert_eq!(q.query_id, QueryId::new(0));
            assert_eq!(q.udf_path, "");
            assert_eq!(q.journal, None);
        },
        other => panic!("unexpected {other:?}"),
    }
    let remove = QuerySetModification::Remove { query_id: QueryId::new(3) };
    assert_eq!(remove.to_json(), obj(vec![("type", s("Remove")), ("queryId", n(3))]));
}

#[test]
fn admin_token_encodes_without_legacy_name() {
    let m = ClientMessage::Authenticate {
        base_version: 0,
        token: AuthenticationToken::Admin("k".to_string(), Some(UserIdentityAttributes::default())),
    };
    let j = m.to_json();
    let fs = sorted(j);
    assert!(fs.contains(&("tokenType".to_string(), s("Admin"))));
    assert!(fs.iter().any(|(k, _)| k == "actingAs"));
    assert!(!fs.iter().any(|(k, _)| k == "impersonating"));
}
