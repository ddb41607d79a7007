use arrow_flight_worker::capability::{
    sign_payload, CapabilityEnvelope, CapabilityPayload, VerifiedPutCapability,
    CAPABILITY_VERSION,
};
use arrow_flight_worker::config::{AppConfig, HostProbe};
use arrow_flight_worker::env::{CoreCount, EnvVar, Environment};
use arrow_flight_worker::flight_service::WorkerFlightService;
use arrow_flight_worker::put_grant::confine_options;
use arrow_flight_worker::put_model::PutOptions;
use arrow_flight_worker::status::{Code, Status};
use base64::engine::general_purpose::URL_SAFE_NO_PAD;
use base64::Engine;
use serde_json::{Number, Value};

fn host() -> HostProbe {
    HostProbe {
        cpu_max: None,
        cpu_quota: None,
        cpu_period: None,
        memory_max: None,
        memory_limit: None,
        parallelism: Some(2),
        cpu_cores: CoreCount::NotANumber,
        flight_addr_parses: true,
        metrics_addr_parses: true,
    }
}

fn config(vars: &[(&str, &str)]) -> AppConfig {
    let env = Environment {
        vars: vars
            .iter()
            .map(|(name, value)| EnvVar { name: (*name).to_owned(), value: (*value).to_owned() })
            .collect(),
    };
    AppConfig::from_env(&env, &host()).unwrap()
}

fn service(vars: &[(&str, &str)]) -> WorkerFlightService {
    WorkerFlightService::new(config(vars))
}

fn options() -> PutOptions {
    PutOptions {
        capability: None,
        attempt_id: None,
        upload_id: None,
        stream_id: None,
        staging_prefix: None,
        max_upload_streams: None,
        max_stream_bytes: None,
        target_file_size: None,
        input_file_bytes: None,
        profile: false,
    }
}

fn refusal<T>(result: Result<T, Status>) -> (Code, String) {
    match result {
        Ok(_) => panic!("a refusal was expected"),
        Err(status) => (status.code, status.message),
    }
}

fn object(texts: &[(&str, &str)], numbers: &[(&str, u64)]) -> Value {
    let mut map = serde_json::Map::new();
    for (name, text) in texts {
        map.insert((*name).to_owned(), Value::String((*text).to_owned()));
    }
    for (name, number) in numbers {
        map.insert((*name).to_owned(), Value::Number(Number::from(*number)));
    }
    Value::Object(map)
}

fn text(value: &Value, name: &str) -> Option<String> {
    value.get(name).and_then(Value::as_str).map(str::to_owned)
}

fn number(value: &Value, name: &str) -> Option<u64> {
    value.get(name).and_then(Value::as_u64)
}

fn decode_envelope(value: Value) -> Result<CapabilityEnvelope, String> {
    Ok(CapabilityEnvelope {
        version: number(&value, "version").ok_or("missing field `version`")? as u16,
        alg: text(&value, "alg"),
        payload: text(&value, "payload").ok_or("missing field `payload`")?,
        signature: text(&value, "signature").ok_or("missing field `signature`")?,
    })
}

fn decode_payload(bytes: Vec<u8>) -> Result<CapabilityPayload, String> {
    let value: Value = serde_json::from_slice(&bytes).map_err(|error| error.to_string())?;
    Ok(CapabilityPayload {
        op: text(&value, "op").ok_or("missing field `op`")?,
        operation_id: text(&value, "operation_id"),
        attempt_id: text(&value, "attempt_id"),
        upload_id: text(&value, "upload_id"),
        stream_id: text(&value, "stream_id"),
        bucket: text(&value, "bucket"),
        path: text(&value, "path"),
        allowed_output_prefix: text(&value, "allowed_output_prefix"),
        staging_prefix: text(&value, "staging_prefix"),
        worker_id: text(&value, "worker_id"),
        worker_group: text(&value, "worker_group"),
        expires_at_ms: number(&value, "expires_at_ms"),
        start_before_ms: number(&value, "start_before_ms"),
        not_before_ms: number(&value, "not_before_ms"),
        issued_at_ms: number(&value, "issued_at_ms"),
        max_upload_streams: number(&value, "max_upload_streams").map(|n| n as usize),
        max_stream_bytes: number(&value, "max_stream_bytes"),
        target_file_size: number(&value, "target_file_size").map(|n| n as usize),
        max_batch_rows: number(&value, "max_batch_rows").map(|n| n as usize),
        max_record_batch_bytes: number(&value, "max_record_batch_bytes"),
    })
}

fn granted() -> VerifiedPutCapability {
    VerifiedPutCapability {
        bucket: None,
        operation_id: Some("op-1".to_owned()),
        attempt_id: Some("try-1".to_owned()),
        upload_id: Some("up-1".to_owned()),
        stream_id: None,
        allowed_output_prefix: "table/".to_owned(),
        staging_prefix: Some("table/stage/".to_owned()),
        max_upload_streams: Some(2),
        max_stream_bytes: Some(50),
        target_file_size: Some(7),
        max_record_batch_bytes: Some(9),
    }
}

#[test]
fn a_capability_goes_before_the_options() {
    let mut wanted = options();
    wanted.attempt_id = Some("mine".to_owned());
    wanted.stream_id = Some("s".to_owned());
    wanted.max_upload_streams = Some(9);
    wanted.max_stream_bytes = Some(0);
    wanted.input_file_bytes = Some(3);
    let confined = confine_options(wanted, &granted());
    assert_eq!(confined.attempt_id.as_deref(), Some("try-1"));
    assert_eq!(confined.stream_id.as_deref(), Some("s"));
    assert_eq!(confined.staging_prefix.as_deref(), Some("table/stage/"));
    assert_eq!(confined.max_upload_streams, Some(2));
    assert_eq!(confined.max_stream_bytes, Some(50));
    assert_eq!(confined.target_file_size, Some(7));
    assert_eq!(confined.input_file_bytes, Some(3));
}

#[test]
fn a_granted_write_keeps_to_its_limits() {
    let service = service(&[]);
    let (confined, context) = service
        .grant_write("table/stage/a.parquet", options(), &granted(), "fresh".to_owned())
        .unwrap();
    assert_eq!(confined.target_file_size, Some(7));
    assert_eq!(context.operation_id.as_deref(), Some("op-1"));
    assert_eq!(context.upload_stream_limit, Some(2));
    assert_eq!(context.stream_budget_bytes, Some(50));
    assert_eq!(context.max_record_batch_bytes, 9);
    assert_eq!(
        refusal(service.grant_write("other/a.parquet", options(), &granted(), String::new())),
        (
            Code::PermissionDenied,
            "DoPut key \"other/a.parquet\" is outside allowed_output_prefix \"table/\"".to_owned()
        )
    );
}

fn signed(texts: &[(&str, &str)], numbers: &[(&str, u64)]) -> Value {
    let payload = URL_SAFE_NO_PAD.encode(object(texts, numbers).to_string());
    let signature = sign_payload("secret", &payload).unwrap();
    object(
        &[("payload", payload.as_str()), ("signature", signature.as_str())],
        &[("version", u64::from(CAPABILITY_VERSION))],
    )
}

#[test]
fn signed_writes_are_verified() {
    let strict = service(&[
        ("WORKER_ID", "w-1"),
        ("WORKER_REQUIRE_SIGNED_CAPABILITIES", "true"),
        ("WORKER_CAPABILITY_SECRET", "secret"),
    ]);
    let authorize = |options: PutOptions| {
        strict.authorize_write("t/a.parquet", options, &decode_envelope, &decode_payload)
    };
    assert_eq!(
        refusal(authorize(options())),
        (Code::PermissionDenied, "worker requires signed DoPut capabilities".to_owned())
    );
    let mut wanted = options();
    wanted.capability = Some(signed(
        &[("op", "put"), ("worker_id", "w-1"), ("allowed_output_prefix", "t"), ("operation_id", "o")],
        &[("expires_at_ms", 4102444800000)],
    ));
    let (confined, context) = authorize(wanted).unwrap();
    assert!(confined.capability.is_none());
    assert_eq!(context.operation_id.as_deref(), Some("o"));
    assert_eq!(context.attempt_id.len(), 36);
    let mut other = options();
    other.capability = Some(signed(
        &[("op", "put"), ("worker_id", "w-2"), ("allowed_output_prefix", "t")],
        &[("expires_at_ms", 4102444800000)],
    ));
    assert_eq!(refusal(authorize(other)).0, Code::PermissionDenied);
}

#[test]
fn unsigned_writes_are_accepted_where_allowed() {
    let (kept, context) = service(&[])
        .authorize_write("a.parquet", options(), &decode_envelope, &decode_payload)
        .unwrap();
    assert_eq!(kept.target_file_size, None);
    assert_eq!(context.operation_id, None);
}
