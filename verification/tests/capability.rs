use arrow_flight_worker::capability::{
    authorize_get, authorize_put, constant_time_eq, normalize_prefix, open_envelope,
    parse_capability_envelope, sign_payload, validate_optional_bucket, validate_optional_id,
    validate_time_bounds, validate_worker_binding, verify_get_capability, verify_put_capability,
    verify_signature, CapabilityEnvelope, CapabilityPayload, CAPABILITY_VERSION,
};
use arrow_flight_worker::config::{SecurityConfig, WorkerConfig};
use arrow_flight_worker::status::Code;
use base64::engine::general_purpose::URL_SAFE_NO_PAD;
use base64::Engine;
use serde_json::{Number, Value};

fn worker() -> WorkerConfig {
    WorkerConfig {
        worker_id: "worker-1".to_owned(),
        flight_uri: "grpc+tcp://worker-1:50051".to_owned(),
        zone: Some("zone-a".to_owned()),
        draining: false,
        max_active_put_streams: 16,
        max_put_streams_per_upload: 8,
        put_scheduler_reserved_slots: 0,
        put_slot_wait_ms: 30_000,
        put_first_batch_timeout_ms: 10_000,
        max_put_stream_bytes: None,
        require_staging_prefix: false,
        max_active_read_streams: 16,
        max_read_streams_per_operation: 8,
        read_scheduler_reserved_slots: 0,
        read_slot_wait_ms: 30_000,
        require_structured_tickets: true,
        registry_heartbeat_interval_ms: 5_000,
        registry_ttl_ms: 15_000,
    }
}

fn security() -> SecurityConfig {
    SecurityConfig {
        require_signed_capabilities: true,
        capability_secret: Some("secret".to_owned()),
        require_capability_worker_binding: true,
        max_capability_ttl_ms: 3_600_000,
    }
}

fn object(texts: &[(&str, &str)], numbers: &[(&str, u64)]) -> Value {
    let mut map = serde_json::Map::new();
    for (name, text) in texts {
        map.insert((*name).to_owned(), Value::String((*text).to_owned()));
    }
    for (name, number) in numbers {
        map.insert((*name).to_owned(), Value::Number(Number::from(*number)));
    }
    Value::Object(map)
}

fn signed_envelope_for_test(payload: Value, secret: &str) -> Vec<u8> {
    let payload = URL_SAFE_NO_PAD.encode(serde_json::to_vec(&payload).unwrap());
    let signature = sign_payload(secret, &payload).unwrap();
    let texts =
        [("alg", "HS256"), ("payload", payload.as_str()), ("signature", signature.as_str())];
    object(&texts, &[("version", u64::from(CAPABILITY_VERSION))]).to_string().into_bytes()
}

fn text(value: &Value, name: &str) -> Option<String> {
    value.get(name).and_then(Value::as_str).map(str::to_owned)
}

fn number(value: &Value, name: &str) -> Option<u64> {
    value.get(name).and_then(Value::as_u64)
}

fn decode_envelope(value: Value) -> Result<CapabilityEnvelope, String> {
    Ok(CapabilityEnvelope {
        version: number(&value, "version").ok_or("missing field `version`")? as u16,
        alg: text(&value, "alg"),
        payload: text(&value, "payload").ok_or("missing field `payload`")?,
        signature: text(&value, "signature").ok_or("missing field `signature`")?,
    })
}

fn decode_payload(bytes: Vec<u8>) -> Result<CapabilityPayload, String> {
    let value: Value = serde_json::from_slice(&bytes).map_err(|error| error.to_string())?;
    Ok(CapabilityPayload {
        op: text(&value, "op").ok_or("missing field `op`")?,
        operation_id: text(&value, "operation_id"),
        attempt_id: text(&value, "attempt_id"),
        upload_id: text(&value, "upload_id"),
        stream_id: text(&value, "stream_id"),
        bucket: text(&value, "bucket"),
        path: text(&value, "path"),
        allowed_output_prefix: text(&value, "allowed_output_prefix"),
        staging_prefix: text(&value, "staging_prefix"),
        worker_id: text(&value, "worker_id"),
        worker_group: text(&value, "worker_group"),
        expires_at_ms: number(&value, "expires_at_ms"),
        start_before_ms: number(&value, "start_before_ms"),
        not_before_ms: number(&value, "not_before_ms"),
        issued_at_ms: number(&value, "issued_at_ms"),
        max_upload_streams: number(&value, "max_upload_streams").map(|n| n as usize),
        max_stream_bytes: number(&value, "max_stream_bytes"),
        target_file_size: number(&value, "target_file_size").map(|n| n as usize),
        max_batch_rows: number(&value, "max_batch_rows").map(|n| n as usize),
        max_record_batch_bytes: number(&value, "max_record_batch_bytes"),
    })
}

fn payload(texts: &[(&str, &str)], numbers: &[(&str, u64)]) -> CapabilityPayload {
    decode_payload(object(texts, numbers).to_string().into_bytes()).unwrap()
}

#[test]
fn verifies_signed_put_capability() {
    let ticket = signed_envelope_for_test(
        object(
            &[
                ("op", "put"),
                ("worker_id", "worker-1"),
                ("allowed_output_prefix", "table/.staging/op-1"),
                ("staging_prefix", "table/.staging/op-1"),
                ("attempt_id", "attempt-1"),
            ],
            &[("expires_at_ms", 4102444800000u64)],
        ),
        "secret",
    );
    let value = parse_capability_envelope(&ticket).unwrap();
    let verified =
        verify_put_capability(value, &worker(), &security(), &decode_envelope, &decode_payload)
            .unwrap();

    assert_eq!(verified.attempt_id.as_deref(), Some("attempt-1"));
    assert_eq!(verified.allowed_output_prefix, "table/.staging/op-1/");
}

#[test]
fn rejects_tampered_signature() {
    let ticket = signed_envelope_for_test(
        object(
            &[("op", "get"), ("worker_id", "worker-1"), ("path", "table/data/file.parquet")],
            &[("expires_at_ms", 4102444800000u64)],
        ),
        "secret",
    );
    let mut value: Value = serde_json::from_slice(&ticket).unwrap();
    value["signature"] = Value::String("bad".to_owned());

    let error =
        verify_get_capability(value, &worker(), &security(), &decode_envelope, &decode_payload)
            .expect_err("bad signature must be rejected");
    assert_eq!(error.code, Code::InvalidArgument);
}

#[test]
fn rejects_wrong_worker_binding() {
    let ticket = signed_envelope_for_test(
        object(
            &[("op", "get"), ("worker_id", "worker-2"), ("path", "table/data/file.parquet")],
            &[("expires_at_ms", 4102444800000u64)],
        ),
        "secret",
    );
    let value = parse_capability_envelope(&ticket).unwrap();

    let error =
        verify_get_capability(value, &worker(), &security(), &decode_envelope, &decode_payload)
            .expect_err("wrong worker binding must be rejected");
    assert_eq!(error.code, Code::PermissionDenied);
}

#[test]
fn rejects_put_started_after_planning_reservation() {
    let ticket = signed_envelope_for_test(
        object(
            &[
                ("op", "put"),
                ("worker_id", "worker-1"),
                ("allowed_output_prefix", "table/data"),
                ("staging_prefix", "table/data"),
                ("attempt_id", "attempt-expired"),
            ],
            &[("expires_at_ms", 4102444800000u64), ("start_before_ms", 1)],
        ),
        "secret",
    );
    let value = parse_capability_envelope(&ticket).unwrap();

    let error =
        verify_put_capability(value, &worker(), &security(), &decode_envelope, &decode_payload)
            .expect_err("expired planning reservation must be rejected");
    assert_eq!(error.code, Code::PermissionDenied);
    assert!(error.message.contains("start reservation has expired"));
}

#[test]
fn recognizes_envelopes_by_their_members() {
    assert!(parse_capability_envelope(b"{\"payload\":1,\"signature\":null}").is_some());
    assert!(parse_capability_envelope(b"{\"payload\":1}").is_none());
    assert!(parse_capability_envelope(b"[\"payload\",\"signature\"]").is_none());
    assert!(parse_capability_envelope(b"table/data").is_none());
}

#[test]
fn signs_with_hmac_sha256() {
    // The second test case of RFC 4231.
    let signature = sign_payload("Jefe", "what do ya want for nothing?").unwrap();
    let code = URL_SAFE_NO_PAD.decode(&signature).unwrap();
    assert_eq!(code[..4], [0x5b, 0xdc, 0xc1, 0x46]);
    assert_eq!(code.len(), 32);
    assert_eq!(signature, "W9zBRr9gdU5qBCQmCJV1x1oAPwidJzmDnexYuWTsOEM");
}

#[test]
fn a_signature_is_accepted_for_its_payload_alone() {
    let signature = sign_payload("secret", "payload").unwrap();
    assert!(verify_signature("secret", "payload", &signature).is_ok());
    let denied = verify_signature("secret", "other", &signature).unwrap_err();
    assert_eq!(denied.code, Code::PermissionDenied);
    assert_eq!(denied.message, "worker capability signature is invalid");
    let denied = verify_signature("other", "payload", &signature).unwrap_err();
    assert_eq!(denied.code, Code::PermissionDenied);
    let invalid = verify_signature("secret", "payload", "???").unwrap_err();
    assert_eq!(invalid.code, Code::InvalidArgument);
    assert!(invalid
        .message
        .starts_with("invalid worker capability signature encoding: Invalid symbol 63"));
}

#[test]
fn compares_all_bytes() {
    assert!(constant_time_eq(b"", b""));
    assert!(constant_time_eq(b"abc", b"abc"));
    assert!(!constant_time_eq(b"abc", b"abd"));
    assert!(!constant_time_eq(b"abc", b"ab"));
}

fn envelope(version: u16, alg: Option<&str>, payload: &str) -> CapabilityEnvelope {
    CapabilityEnvelope {
        version,
        alg: alg.map(str::to_owned),
        payload: payload.to_owned(),
        signature: sign_payload("secret", payload).unwrap(),
    }
}

#[test]
fn opens_signed_envelopes_of_its_version() {
    let open = |envelope: &CapabilityEnvelope| open_envelope(envelope, &security());
    assert_eq!(open(&envelope(1, None, "e30")).unwrap(), b"{}");
    assert_eq!(open(&envelope(1, Some("HS256"), "e30")).unwrap(), b"{}");
    assert_eq!(
        open(&envelope(2, None, "e30")).unwrap_err().message,
        "unsupported worker capability version 2"
    );
    assert_eq!(
        open(&envelope(1, Some("none"), "e30")).unwrap_err().message,
        "unsupported worker capability signature algorithm"
    );
    let encoding = open(&envelope(1, None, "!")).unwrap_err();
    assert_eq!(encoding.code, Code::InvalidArgument);
    assert!(encoding.message.starts_with("invalid worker capability payload encoding: "));
    let mut no_secret = security();
    no_secret.capability_secret = None;
    assert_eq!(
        open_envelope(&envelope(1, None, "e30"), &no_secret).unwrap_err().message,
        "worker is missing capability verification secret"
    );
}

#[test]
fn bad_json_is_an_invalid_argument() {
    let value = object(&[("payload", "e30"), ("signature", "x")], &[]);
    let error =
        verify_put_capability(value, &worker(), &security(), &decode_envelope, &decode_payload)
            .unwrap_err();
    assert_eq!(error.message, "invalid worker capability: missing field `version`");
    let signature = sign_payload("secret", "e30").unwrap();
    let value = object(&[("payload", "e30"), ("signature", &signature)], &[("version", 1)]);
    let error =
        verify_put_capability(value, &worker(), &security(), &decode_envelope, &decode_payload)
            .unwrap_err();
    assert_eq!(error.code, Code::InvalidArgument);
    assert_eq!(error.message, "invalid worker capability payload: missing field `op`");
}

#[test]
fn bounds_the_life_of_a_capability() {
    let check = |numbers: &[(&str, u64)], now: u64| {
        validate_time_bounds(&payload(&[("op", "get")], numbers), &security(), now)
            .map_err(|status| status.message)
    };
    assert_eq!(check(&[("expires_at_ms", 10)], 10), Ok(()));
    assert_eq!(
        check(&[("expires_at_ms", 10)], 11),
        Err("worker capability has expired".to_owned())
    );
    assert_eq!(
        check(&[("expires_at_ms", 10), ("not_before_ms", 5)], 4),
        Err("worker capability is not active yet".to_owned())
    );
    assert_eq!(check(&[], 0), Err("worker capability requires expires_at_ms".to_owned()));
    assert_eq!(check(&[("expires_at_ms", 3_600_001), ("issued_at_ms", 1)], 2), Ok(()));
    assert_eq!(
        check(&[("expires_at_ms", 3_600_002), ("issued_at_ms", 1)], 2),
        Err("worker capability ttl exceeds 3600000ms".to_owned())
    );
    assert_eq!(check(&[("expires_at_ms", u64::MAX), ("issued_at_ms", u64::MAX)], 2), Ok(()));
}

#[test]
fn binds_capabilities_to_workers() {
    let check = |texts: &[(&str, &str)], security: &SecurityConfig| {
        validate_worker_binding(&payload(texts, &[]), &worker(), security)
            .map_err(|status| status.message)
    };
    assert_eq!(check(&[("op", "get"), ("worker_id", "worker-1")], &security()), Ok(()));
    assert_eq!(
        check(&[("op", "get"), ("worker_id", "w\"2")], &security()),
        Err("worker capability is bound to worker \"w\\\"2\", not \"worker-1\"".to_owned())
    );
    assert_eq!(check(&[("op", "get"), ("worker_group", "zone-a")], &security()), Ok(()));
    assert_eq!(
        check(&[("op", "get"), ("worker_group", "zone-b")], &security()),
        Err("worker capability requires worker_id binding".to_owned())
    );
    let mut lenient = security();
    lenient.require_capability_worker_binding = false;
    assert_eq!(check(&[("op", "get")], &lenient), Ok(()));
}

#[test]
fn authorizes_the_operation_that_was_signed() {
    let get = payload(
        &[("op", "get"), ("path", "a/../b"), ("bucket", "data"), ("operation_id", " op:1 ")],
        &[("max_batch_rows", 7)],
    );
    let granted = authorize_get(&get).unwrap();
    assert_eq!(granted.path, "a/b.parquet");
    assert_eq!(granted.operation_id.as_deref(), Some("op:1"));
    assert_eq!(granted.bucket.as_deref(), Some("data"));
    assert_eq!(granted.max_batch_rows, Some(7));
    assert_eq!(
        authorize_put(&get, 0).unwrap_err().message,
        "worker capability op \"get\" cannot authorize DoPut"
    );
    let put = payload(&[("op", "put"), ("allowed_output_prefix", "x")], &[("start_before_ms", 5)]);
    assert_eq!(authorize_put(&put, 5).unwrap().allowed_output_prefix, "x/");
    assert!(authorize_put(&put, 6).unwrap_err().message.contains("reservation has expired"));
    assert_eq!(
        authorize_get(&put).unwrap_err().message,
        "worker capability op \"put\" cannot authorize DoGet"
    );
    assert_eq!(
        authorize_put(&payload(&[("op", "put")], &[]), 0).unwrap_err().message,
        "DoPut capability requires allowed_output_prefix"
    );
    assert_eq!(
        authorize_get(&payload(&[("op", "get")], &[])).unwrap_err().message,
        "DoGet capability requires exact parquet path"
    );
}

#[test]
fn prefixes_are_normal_forms() {
    let prefix = normalize_prefix("\\a//./b/..").unwrap();
    assert_eq!(prefix, "a/b/");
    assert_eq!(normalize_prefix(&prefix).unwrap(), prefix);
    let error = normalize_prefix("../.").unwrap_err();
    assert_eq!(error.code, Code::InvalidArgument);
    assert_eq!(error.message, "capability prefix must not be empty");
}

#[test]
fn checks_identifiers_and_buckets() {
    let id = |value: &str| {
        validate_optional_id("upload_id", &Some(value.to_owned()))
            .map_err(|status| status.message)
    };
    assert_eq!(id(" a-Z_0.:9 "), Ok(Some("a-Z_0.:9".to_owned())));
    assert_eq!(id(" "), Err("upload_id must not be empty".to_owned()));
    assert_eq!(id(&"x".repeat(129)), Err("upload_id must be at most 128 bytes".to_owned()));
    assert_eq!(id(&"é".repeat(65)), Err("upload_id must be at most 128 bytes".to_owned()));
    assert_eq!(
        id("a b"),
        Err("upload_id may only contain ASCII letters, digits, '-', '_', '.', and ':'".to_owned())
    );
    assert_eq!(validate_optional_id("x", &None).unwrap(), None);
    for bad in ["", "s3://b", "s3a://b", "a/b", "a\\b"] {
        let error = validate_optional_bucket(&Some(bad.to_owned())).unwrap_err();
        assert_eq!(error.code, Code::PermissionDenied);
    }
    assert_eq!(validate_optional_bucket(&Some("b".to_owned())).unwrap().as_deref(), Some("b"));
}

#[test]
fn a_capability_is_for_one_operation() {
    for op in ["put", "get", "Put", "", "put get"] {
        let both = payload(
            &[("op", op), ("allowed_output_prefix", "x"), ("path", "x/a.parquet")],
            &[],
        );
        let passed = [authorize_put(&both, 0).is_ok(), authorize_get(&both).is_ok()];
        assert_eq!(passed, [op == "put", op == "get"], "{op}");
    }
}

#[test]
fn an_envelope_is_for_one_operation() {
    for op in ["put", "get"] {
        let ticket = signed_envelope_for_test(
            object(
                &[
                    ("op", op),
                    ("worker_id", "worker-1"),
                    ("allowed_output_prefix", "table"),
                    ("path", "table/a.parquet"),
                ],
                &[("expires_at_ms", 4102444800000u64)],
            ),
            "secret",
        );
        let value = parse_capability_envelope(&ticket).unwrap();
        let put = verify_put_capability(
            value.clone(),
            &worker(),
            &security(),
            &decode_envelope,
            &decode_payload,
        );
        let get =
            verify_get_capability(value, &worker(), &security(), &decode_envelope, &decode_payload);
        let codes = (put.err().map(|error| error.code), get.err().map(|error| error.code));
        let denied = Some(Code::PermissionDenied);
        assert_eq!(codes, if op == "put" { (None, denied) } else { (denied, None) });
    }
}
