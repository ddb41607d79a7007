use arrow_flight_worker::capability::{
    sign_payload, CapabilityEnvelope, CapabilityPayload, CAPABILITY_VERSION,
};
use arrow_flight_worker::config::{AppConfig, HostProbe, SecurityConfig, WorkerConfig};
use arrow_flight_worker::env::{CoreCount, EnvVar, Environment};
use arrow_flight_worker::status::{Code, Status};
use arrow_flight_worker::ticket::{
    batch_rows, check_end, chunk_bytes, parse_read_ticket, read_structured, ReadTicket,
    StructuredReadTicket,
};
use base64::engine::general_purpose::URL_SAFE_NO_PAD;
use base64::Engine;
use serde_json::{Number, Value};

fn worker(require_structured_tickets: bool) -> WorkerConfig {
    WorkerConfig {
        worker_id: "worker-1".to_owned(),
        flight_uri: "grpc+tcp://worker-1:50051".to_owned(),
        zone: None,
        draining: false,
        max_active_put_streams: 16,
        max_put_streams_per_upload: 8,
        put_scheduler_reserved_slots: 0,
        put_slot_wait_ms: 30_000,
        put_first_batch_timeout_ms: 10_000,
        max_put_stream_bytes: None,
        require_staging_prefix: false,
        max_active_read_streams: 16,
        max_read_streams_per_operation: 8,
        read_scheduler_reserved_slots: 0,
        read_slot_wait_ms: 30_000,
        require_structured_tickets,
        registry_heartbeat_interval_ms: 5_000,
        registry_ttl_ms: 15_000,
    }
}

fn security(require_signed_capabilities: bool) -> SecurityConfig {
    SecurityConfig {
        require_signed_capabilities,
        capability_secret: Some("secret".to_owned()),
        require_capability_worker_binding: require_signed_capabilities,
        max_capability_ttl_ms: 3_600_000,
    }
}

fn text(value: &Value, name: &str) -> Option<String> {
    value.get(name).and_then(Value::as_str).map(str::to_owned)
}

fn number(value: &Value, name: &str) -> Option<u64> {
    value.get(name).and_then(Value::as_u64)
}

fn decode_envelope(value: Value) -> Result<CapabilityEnvelope, String> {
    Ok(CapabilityEnvelope {
        version: number(&value, "version").ok_or("missing field `version`")? as u16,
        alg: text(&value, "alg"),
        payload: text(&value, "payload").ok_or("missing field `payload`")?,
        signature: text(&value, "signature").ok_or("missing field `signature`")?,
    })
}

fn decode_payload(bytes: Vec<u8>) -> Result<CapabilityPayload, String> {
    let value: Value = serde_json::from_slice(&bytes).map_err(|error| error.to_string())?;
    Ok(CapabilityPayload {
        op: text(&value, "op").ok_or("missing field `op`")?,
        operation_id: text(&value, "operation_id"),
        attempt_id: text(&value, "attempt_id"),
        upload_id: text(&value, "upload_id"),
        stream_id: text(&value, "stream_id"),
        bucket: text(&value, "bucket"),
        path: text(&value, "path"),
        allowed_output_prefix: text(&value, "allowed_output_prefix"),
        staging_prefix: text(&value, "staging_prefix"),
        worker_id: text(&value, "worker_id"),
        worker_group: text(&value, "worker_group"),
        expires_at_ms: number(&value, "expires_at_ms"),
        start_before_ms: number(&value, "start_before_ms"),
        not_before_ms: number(&value, "not_before_ms"),
        issued_at_ms: number(&value, "issued_at_ms"),
        max_upload_streams: number(&value, "max_upload_streams").map(|n| n as usize),
        max_stream_bytes: number(&value, "max_stream_bytes"),
        target_file_size: number(&value, "target_file_size").map(|n| n as usize),
        max_batch_rows: number(&value, "max_batch_rows").map(|n| n as usize),
        max_record_batch_bytes: number(&value, "max_record_batch_bytes"),
    })
}

fn decode_ticket(bytes: &[u8]) -> Result<StructuredReadTicket, String> {
    let value: Value = serde_json::from_slice(bytes).map_err(|error| error.to_string())?;
    Ok(StructuredReadTicket {
        path: text(&value, "path").ok_or("missing field `path`")?,
        operation_id: text(&value, "operation_id"),
        expires_at_ms: number(&value, "expires_at_ms"),
    })
}

fn parse(bytes: &[u8], structured: bool, signed: bool) -> Result<ReadTicket, Status> {
    parse_read_ticket(
        bytes,
        &worker(structured),
        &security(signed),
        &decode_envelope,
        &decode_payload,
        &decode_ticket,
    )
}

fn signed_envelope_for_test(payload: Value, secret: &str) -> Vec<u8> {
    let payload = URL_SAFE_NO_PAD.encode(serde_json::to_vec(&payload).unwrap());
    let signature = sign_payload(secret, &payload).unwrap();
    let mut envelope = serde_json::Map::new();
    envelope.insert("version".to_owned(), Value::Number(Number::from(CAPABILITY_VERSION)));
    envelope.insert("alg".to_owned(), Value::String("HS256".to_owned()));
    envelope.insert("payload".to_owned(), Value::String(payload));
    envelope.insert("signature".to_owned(), Value::String(signature));
    Value::Object(envelope).to_string().into_bytes()
}

#[test]
fn parses_legacy_raw_path_when_allowed() {
    let ticket = parse(b"bench/file.parquet", false, false).unwrap();

    assert_eq!(ticket.key, "bench/file.parquet");
    assert_eq!(ticket.operation_id, None);
}

#[test]
fn rejects_legacy_raw_path_when_structured_required() {
    let error = parse(b"bench/file.parquet", true, false)
        .expect_err("raw ticket should be rejected");

    assert_eq!(error.code, Code::PermissionDenied);
}

#[test]
fn parses_structured_ticket() {
    let ticket = parse(
        br#"{"path":"bench/file.parquet","operation_id":"read-1","expires_at_ms":4102444800000}"#,
        true,
        false,
    )
    .unwrap();

    assert_eq!(ticket.key, "bench/file.parquet");
    assert_eq!(ticket.operation_id.as_deref(), Some("read-1"));
}

#[test]
fn rejects_expired_structured_ticket() {
    let error = parse(br#"{"path":"bench/file.parquet","expires_at_ms":1}"#, true, false)
        .expect_err("expired ticket should be rejected");

    assert_eq!(error.code, Code::PermissionDenied);
}

#[test]
fn parses_signed_read_capability() {
    let mut payload = serde_json::Map::new();
    for (name, value) in [
        ("op", "get"),
        ("worker_id", "worker-1"),
        ("path", "bench/file.parquet"),
        ("operation_id", "read-1"),
    ] {
        payload.insert(name.to_owned(), Value::String(value.to_owned()));
    }
    for (name, value) in [
        ("expires_at_ms", 4102444800000u64),
        ("max_batch_rows", 1024),
        ("max_record_batch_bytes", 4096),
    ] {
        payload.insert(name.to_owned(), Value::Number(Number::from(value)));
    }
    let ticket = signed_envelope_for_test(Value::Object(payload), "secret");
    let ticket = parse(&ticket, true, true).unwrap();

    assert_eq!(ticket.key, "bench/file.parquet");
    assert_eq!(ticket.operation_id.as_deref(), Some("read-1"));
    assert_eq!(ticket.max_batch_rows, Some(1024));
    assert_eq!(ticket.max_record_batch_bytes, Some(4096));
}

#[test]
fn rejects_unsigned_ticket_when_signed_capabilities_required() {
    let error = parse(
        br#"{"path":"bench/file.parquet","operation_id":"read-1","expires_at_ms":4102444800000}"#,
        true,
        true,
    )
    .expect_err("unsigned structured ticket should be rejected");

    assert_eq!(error.code, Code::PermissionDenied);
}

fn refusal(bytes: &[u8], structured: bool) -> (Code, String) {
    let error = parse(bytes, structured, false).unwrap_err();
    (error.code, error.message)
}

#[test]
fn explains_refused_tickets() {
    assert_eq!(
        refusal(b"", false),
        (Code::InvalidArgument, "DoGet ticket must not be empty".to_owned())
    );
    assert_eq!(
        refusal(b"a/b", true),
        (Code::PermissionDenied, "worker requires structured DoGet tickets".to_owned())
    );
    assert_eq!(
        refusal(b"{}", true),
        (Code::InvalidArgument, "invalid DoGet ticket JSON: missing field `path`".to_owned())
    );
    let (code, message) = refusal(b"a\xff", false);
    assert_eq!(code, Code::InvalidArgument);
    assert_eq!(
        message,
        "DoGet ticket is not utf8: invalid utf-8 sequence of 1 bytes from index 1"
    );
    assert_eq!(
        refusal(br#"{"path":"a","operation_id":"a b"}"#, true),
        (
            Code::InvalidArgument,
            "operation_id may only contain ASCII letters, digits, '-', '_', '.', and ':'".to_owned()
        )
    );
}

#[test]
fn a_ticket_ends_after_its_last_millisecond() {
    assert!(check_end(10, 10).is_ok());
    let error = check_end(10, 11).unwrap_err();
    assert_eq!(error.code, Code::PermissionDenied);
    assert_eq!(error.message, "DoGet ticket has expired");
}

#[test]
fn structured_tickets_name_object_keys() {
    let ticket = StructuredReadTicket {
        path: "/a\\..\\b".to_owned(),
        operation_id: None,
        expires_at_ms: None,
    };
    let read = read_structured(&ticket).unwrap();
    assert_eq!(read.key, "a/b.parquet");
    assert_eq!(read.max_batch_rows, None);
}

fn host() -> HostProbe {
    HostProbe {
        cpu_max: None,
        cpu_quota: None,
        cpu_period: None,
        memory_max: None,
        memory_limit: None,
        parallelism: Some(2),
        cpu_cores: CoreCount::NotANumber,
        flight_addr_parses: true,
        metrics_addr_parses: true,
    }
}

fn config(vars: &[(&str, &str)]) -> AppConfig {
    let env = Environment {
        vars: vars
            .iter()
            .map(|(name, value)| EnvVar { name: (*name).to_owned(), value: (*value).to_owned() })
            .collect(),
    };
    AppConfig::from_env(&env, &host()).unwrap()
}

#[test]
fn batches_of_reads_are_limited() {
    let mut ticket = ReadTicket {
        key: "k".to_owned(),
        operation_id: None,
        max_batch_rows: None,
        max_record_batch_bytes: None,
    };
    let mut config = config(&[]);
    config.read_batch_size = 100;
    config.resources.read_max_batch_rows = 80;
    assert_eq!(batch_rows(&config, &ticket), 80);
    ticket.max_batch_rows = Some(30);
    assert_eq!(batch_rows(&config, &ticket), 30);
    ticket.max_batch_rows = Some(0);
    assert_eq!(batch_rows(&config, &ticket), 1);
}

#[test]
fn messages_of_reads_are_limited() {
    let mut ticket = ReadTicket {
        key: "k".to_owned(),
        operation_id: None,
        max_batch_rows: None,
        max_record_batch_bytes: None,
    };
    let mut config = config(&[]);
    config.flight_data_chunk_size = 1000;
    config.resources.read_max_record_batch_bytes = 5000;
    assert_eq!(chunk_bytes(&config, &ticket), 1000);
    config.resources.read_max_record_batch_bytes = 900;
    assert_eq!(chunk_bytes(&config, &ticket), 900);
    ticket.max_record_batch_bytes = Some(70);
    assert_eq!(chunk_bytes(&config, &ticket), 70);
    ticket.max_record_batch_bytes = Some(0);
    assert_eq!(chunk_bytes(&config, &ticket), 1);
}
