use arrow_flight_worker::env::{EnvVar, Environment};
use arrow_flight_worker::logging::{
    enrich_with_id, enrich_worker_status, status_metadata, unix_timestamp_millis,
    worker_error_class, LogIdentity, WorkerRequestContext, ATTEMPT_ID_METADATA, ERROR_ID_METADATA,
    OPERATION_ID_METADATA, STREAM_ID_METADATA, UPLOAD_ID_METADATA,
};
use arrow_flight_worker::status::{Code, Status};

#[test]
fn worker_error_status_carries_structured_correlation_metadata() {
    let status = enrich_worker_status(
        Status::of(Code::InvalidArgument, "bad ticket"),
        &WorkerRequestContext {
            operation_id: Some("read-123".to_owned()),
            upload_id: Some("upload-123".to_owned()),
            stream_id: Some("stream-2".to_owned()),
            attempt_id: Some("attempt-2".to_owned()),
            ..WorkerRequestContext::default()
        },
    );

    assert!(status_metadata(&status, ERROR_ID_METADATA).starts_with("worker-err-"));
    assert_eq!(status_metadata(&status, OPERATION_ID_METADATA), "read-123");
    assert_eq!(status_metadata(&status, UPLOAD_ID_METADATA), "upload-123");
    assert_eq!(status_metadata(&status, STREAM_ID_METADATA), "stream-2");
    assert_eq!(status_metadata(&status, ATTEMPT_ID_METADATA), "attempt-2");
    assert!(status.message.contains("operationId=read-123"));
    assert_eq!(worker_error_class(&status), "request");
}

#[test]
fn worker_error_status_is_not_wrapped_twice() {
    let first = enrich_worker_status(
        Status::of(Code::Internal, "storage failed"),
        &WorkerRequestContext::default(),
    );
    let error_id = status_metadata(&first, ERROR_ID_METADATA);
    let message = first.message.clone();

    let second = enrich_worker_status(first, &WorkerRequestContext::default());

    assert_eq!(status_metadata(&second, ERROR_ID_METADATA), error_id);
    assert_eq!(second.message, message);
    assert_eq!(worker_error_class(&second), "internal");
}

#[test]
fn identifiers_stand_in_front_of_the_message() {
    let context = WorkerRequestContext {
        operation_id: Some("op".to_owned()),
        upload_id: Some(String::new()),
        attempt_id: Some("a\nb".to_owned()),
        ..WorkerRequestContext::default()
    };
    let status = enrich_with_id(Status::of(Code::NotFound, "gone"), &context, "e-1");
    assert_eq!(status.code, Code::NotFound);
    assert_eq!(status.message, "errorId=e-1 operationId=op attemptId=a\nb: gone");
    assert_eq!(status_metadata(&status, ERROR_ID_METADATA), "e-1");
    assert_eq!(status_metadata(&status, "X-Operation-Id"), "op");
    assert_eq!(status_metadata(&status, UPLOAD_ID_METADATA), "");
    // A line break may not stand in a metadata value.
    assert_eq!(status_metadata(&status, ATTEMPT_ID_METADATA), "");
    assert_eq!(status.metadata.entries.len(), 2);
}

#[test]
fn metadata_text_is_visible_ascii() {
    let context = WorkerRequestContext {
        operation_id: Some("é".to_owned()),
        stream_id: Some("a\tb".to_owned()),
        ..WorkerRequestContext::default()
    };
    let status = enrich_with_id(Status::of(Code::Aborted, "x"), &context, "e");
    assert!(status.metadata.get(OPERATION_ID_METADATA).is_some());
    assert_eq!(status_metadata(&status, OPERATION_ID_METADATA), "");
    assert_eq!(status_metadata(&status, STREAM_ID_METADATA), "a\tb");
}

#[test]
fn error_identifiers_are_fresh() {
    let id = || {
        let context = WorkerRequestContext::default();
        status_metadata(
            &enrich_worker_status(Status::of(Code::Unknown, ""), &context),
            ERROR_ID_METADATA,
        )
    };
    let (first, second) = (id(), id());
    assert_ne!(first, second);
    assert_eq!(first.len(), "worker-err-".len() + 32);
    assert!(first["worker-err-".len()..].chars().all(|c| c.is_ascii_hexdigit()));
}

#[test]
fn classes_of_failures() {
    for code in [Code::Unknown, Code::Internal, Code::Unavailable, Code::DataLoss] {
        assert_eq!(worker_error_class(&Status::of(code, "")), "internal");
    }
    for code in [Code::Cancelled, Code::ResourceExhausted, Code::Unimplemented] {
        assert_eq!(worker_error_class(&Status::of(code, "")), "request");
    }
}

fn environment(vars: &[(&str, &str)]) -> Environment {
    Environment {
        vars: vars
            .iter()
            .map(|(name, value)| EnvVar { name: (*name).to_owned(), value: (*value).to_owned() })
            .collect(),
    }
}

#[test]
fn log_identity_prefers_the_first_variable() {
    let identity = LogIdentity::from_env(
        &environment(&[("ENV", "third"), ("APP_ENV", " second "), ("LOG_GROUP", " ")]),
        "worker",
    );
    assert_eq!(identity.env, "second");
    // The first variable that is set decides, even where it is blank.
    assert_eq!(identity.group, "arrow-flight");
    assert_eq!(identity.system, "worker");
    assert_eq!(identity.namespace, "local");
}

#[test]
fn log_lines_hold_the_identity() {
    let identity = LogIdentity {
        env: "e".to_owned(),
        group: "g".to_owned(),
        system: "s".to_owned(),
        namespace: "n".to_owned(),
    };
    let line = identity.line_at("12", "INFO", "worker");
    assert_eq!(line.len(), 7);
    let member = |name: &str| line.get(name).and_then(|value| value.as_str());
    assert_eq!(member("env"), Some("e"));
    assert_eq!(member("group"), Some("g"));
    assert_eq!(member("system"), Some("s"));
    assert_eq!(member("namespace"), Some("n"));
    assert_eq!(member("timestamp"), Some("12"));
    assert_eq!(member("level"), Some("INFO"));
    assert_eq!(member("target"), Some("worker"));
    assert!(identity.line("INFO", "x").get("timestamp").is_some());
    assert!(unix_timestamp_millis().parse::<u128>().unwrap() > 1_600_000_000_000);
}
