//! Signed capabilities: what a coordinator lets a client do on a worker.

use vstd::prelude::*;
use vstd::utf8::encode_utf8;

use crate::clock::{epoch_ms, epoch_ms_of};
use crate::codec::{
    base64url, base64url_bytes, base64url_bytes_of, base64url_of, hmac_sha256, hmac_sha256_of,
};
use crate::config::{SecurityConfig, WorkerConfig};
use crate::json::{json_member, json_of, member, parse_value};
use crate::number::{at_least, at_most, decimal, decimal_of, max_u64};
use crate::path::{clean_path, clean_path_of};
use crate::status::{answers, either_refusal, status_of, Code, Status, StatusView};
use crate::text::{
    chars_of, contains_char, has_prefix, has_suffix, opt_text, starts_with, text_eq, trim, trim_of,
};
use crate::util::{is_uuid_text, normalize_object_key, object_key_of, quoted, quoted_of};

verus! {

/// The version of the envelope that this worker reads.
pub const CAPABILITY_VERSION: u16 = 1;

/// What a verified capability lets a client write.
#[derive(Clone, Debug)]
pub struct VerifiedPutCapability {
    pub bucket: Option<String>,
    pub operation_id: Option<String>,
    pub attempt_id: Option<String>,
    pub upload_id: Option<String>,
    pub stream_id: Option<String>,
    pub allowed_output_prefix: String,
    pub staging_prefix: Option<String>,
    pub max_upload_streams: Option<usize>,
    pub max_stream_bytes: Option<u64>,
    pub target_file_size: Option<usize>,
    pub max_record_batch_bytes: Option<u64>,
}

/// What a verified capability lets a client read.
#[derive(Clone, Debug)]
pub struct VerifiedGetCapability {
    pub bucket: Option<String>,
    pub operation_id: Option<String>,
    pub path: String,
    pub max_batch_rows: Option<usize>,
    pub max_record_batch_bytes: Option<u64>,
}

/// A signed payload.
#[derive(Debug)]
pub struct CapabilityEnvelope {
    pub version: u16,
    pub alg: Option<String>,
    pub payload: String,
    pub signature: String,
}

/// What a coordinator signed.
#[derive(Debug)]
pub struct CapabilityPayload {
    pub op: String,
    pub operation_id: Option<String>,
    pub attempt_id: Option<String>,
    pub upload_id: Option<String>,
    pub stream_id: Option<String>,
    pub bucket: Option<String>,
    pub path: Option<String>,
    pub allowed_output_prefix: Option<String>,
    pub staging_prefix: Option<String>,
    pub worker_id: Option<String>,
    pub worker_group: Option<String>,
    pub expires_at_ms: Option<u64>,
    pub start_before_ms: Option<u64>,
    pub not_before_ms: Option<u64>,
    pub issued_at_ms: Option<u64>,
    pub max_upload_streams: Option<usize>,
    pub max_stream_bytes: Option<u64>,
    pub target_file_size: Option<usize>,
    pub max_batch_rows: Option<usize>,
    pub max_record_batch_bytes: Option<u64>,
}

/// A refusal with permission denied.
pub open spec fn denied(message: Seq<char>) -> Option<StatusView> {
    Some(status_of(Code::PermissionDenied, message))
}

/// A refusal of an argument.
pub open spec fn invalid(message: Seq<char>) -> Option<StatusView> {
    Some(status_of(Code::InvalidArgument, message))
}

// ---------------------------------------------------------------------------
// The envelope

/// The JSON value that `bytes` hold, where it looks like an envelope.
pub open spec fn envelope_of(bytes: Seq<u8>) -> Option<serde_json::Value> {
    match json_of(bytes) {
        Ok(value) => if json_member(value, "payload"@) is Some && json_member(
            value,
            "signature"@,
        ) is Some {
            Some(value)
        } else {
            None
        },
        Err(_) => None,
    }
}

/// The JSON value that `bytes` hold, where it is an object with a payload and a signature.
pub fn parse_capability_envelope(bytes: &[u8]) -> (r: Option<serde_json::Value>)
    ensures
        r == envelope_of(bytes@),
{
    match parse_value(bytes) {
        Ok(value) => if member(&value, "payload").is_some() && member(
            &value,
            "signature",
        ).is_some() {
            Some(value)
        } else {
            None
        },
        Err(_) => None,
    }
}

/// The code that signs a payload.
pub open spec fn mac_of(secret: Seq<char>, payload: Seq<char>) -> Seq<u8> {
    hmac_sha256_of(encode_utf8(secret), encode_utf8(payload))
}

/// Why a signature is refused: its text is no base64, or it is not the payload's code.
pub open spec fn signature_refusal(
    secret: Seq<char>,
    payload: Seq<char>,
    signature: Seq<char>,
) -> Option<StatusView> {
    match base64url_bytes_of(signature) {
        Err(words) => invalid("invalid worker capability signature encoding: "@ + words),
        Ok(bytes) => if bytes == mac_of(secret, payload) {
            None
        } else {
            denied("worker capability signature is invalid"@)
        },
    }
}

/// Whether two byte strings are the same. The time it takes depends on their lengths alone.
pub fn constant_time_eq(left: &[u8], right: &[u8]) -> (r: bool)
    ensures
        r == (left@ == right@),
{
    if left.len() != right.len() {
        return false;
    }
    let mut diff: u8 = 0;
    let mut i: usize = 0;
    proof {
        assert(left@.take(0) == right@.take(0));
    }
    while i < left.len()
        invariant
            i <= left@.len(),
            left@.len() == right@.len(),
            diff == 0 <==> left@.take(i as int) == right@.take(i as int),
        decreases left@.len() - i,
    {
        let a: u8 = left[i];
        let b: u8 = right[i];
        let next: u8 = diff | (a ^ b);
        proof {
            assert(next == diff | (a ^ b));
            assert((diff | (a ^ b)) == 0 <==> (diff == 0 && a == b)) by (bit_vector);
            assert(left@.take(i + 1) == left@.take(i as int).push(a));
            assert(right@.take(i + 1) == right@.take(i as int).push(b));
            if left@.take(i + 1) == right@.take(i + 1) {
                assert(left@.take(i + 1).last() == right@.take(i + 1).last());
                assert(left@.take(i as int) == left@.take(i + 1).drop_last());
                assert(right@.take(i as int) == right@.take(i + 1).drop_last());
            }
        }
        diff = next;
        i += 1;
    }
    proof {
        assert(left@.take(i as int) == left@);
        assert(right@.take(i as int) == right@);
    }
    diff == 0
}

/// The signature of a payload. It is one that `verify_signature` accepts.
pub fn sign_payload(secret: &str, payload: &str) -> (r: Result<String, Status>)
    ensures
        r matches Ok(signature) && signature@ == base64url_of(mac_of(secret@, payload@))
            && signature_refusal(secret@, payload@, signature@) is None
            && base64url_bytes_of(signature@) == Ok::<Seq<u8>, Seq<char>>(
            mac_of(secret@, payload@),
        ),
{
    match hmac_sha256(secret.as_bytes(), payload.as_bytes()) {
        Ok(code) => Ok(base64url(code.as_slice())),
        Err(error) => {
            let mut message = "invalid capability secret: ".to_owned();
            message.append(error.as_str());
            Err(Status::new(Code::Internal, message))
        },
    }
}

/// Accepts exactly the payload's code, in base64.
pub fn verify_signature(secret: &str, payload: &str, signature: &str) -> (r: Result<(), Status>)
    ensures
        answers(r, signature_refusal(secret@, payload@, signature@), |unit: ()| true),
{
    let expected = match sign_payload(secret, payload) {
        Ok(value) => value,
        Err(error) => return Err(error),
    };
    let expected_bytes = match base64url_bytes(expected.as_str()) {
        Ok(bytes) => bytes,
        Err(error) => return Err(Status::new(Code::Internal, error)),
    };
    let actual_bytes = match base64url_bytes(signature) {
        Ok(bytes) => bytes,
        Err(error) => {
            let mut message = "invalid worker capability signature encoding: ".to_owned();
            message.append(error.as_str());
            return Err(Status::new(Code::InvalidArgument, message));
        },
    };
    if expected_bytes.len() != actual_bytes.len() || !constant_time_eq(
        expected_bytes.as_slice(),
        actual_bytes.as_slice(),
    ) {
        return Err(Status::of(Code::PermissionDenied, "worker capability signature is invalid"));
    }
    Ok(())
}

/// Why an envelope is refused before its payload is read.
pub open spec fn envelope_refusal(
    envelope: CapabilityEnvelope,
    security: SecurityConfig,
) -> Option<StatusView> {
    if envelope.version != CAPABILITY_VERSION {
        denied("unsupported worker capability version "@ + decimal_of(envelope.version as nat))
    } else if opt_text(envelope.alg) is Some && opt_text(envelope.alg) != Some("HS256"@) {
        denied("unsupported worker capability signature algorithm"@)
    } else {
        match opt_text(security.capability_secret) {
            None => denied("worker is missing capability verification secret"@),
            Some(secret) => either_refusal(
                signature_refusal(secret, envelope.payload@, envelope.signature@),
                match base64url_bytes_of(envelope.payload@) {
                    Ok(_) => None,
                    Err(words) => invalid(
                        "invalid worker capability payload encoding: "@ + words,
                    ),
                },
            ),
        }
    }
}

/// The bytes that an envelope signs, once its version, algorithm and signature are accepted.
pub fn open_envelope(envelope: &CapabilityEnvelope, security: &SecurityConfig) -> (r: Result<
    Vec<u8>,
    Status,
>)
    ensures
        answers(
            r,
            envelope_refusal(*envelope, *security),
            |bytes: Vec<u8>|
                base64url_bytes_of(envelope.payload@) == Ok::<Seq<u8>, Seq<char>>(bytes@),
        ),
{
    if envelope.version != CAPABILITY_VERSION {
        let mut message = "unsupported worker capability version ".to_owned();
        message.append(decimal(envelope.version as u128).as_str());
        return Err(Status::new(Code::PermissionDenied, message));
    }
    if let Some(alg) = &envelope.alg {
        if !text_eq(alg.as_str(), "HS256") {
            return Err(
                Status::of(
                    Code::PermissionDenied,
                    "unsupported worker capability signature algorithm",
                ),
            );
        }
    }
    let secret = match &security.capability_secret {
        Some(secret) => secret,
        None => return Err(
            Status::of(Code::PermissionDenied, "worker is missing capability verification secret"),
        ),
    };
    match verify_signature(
        secret.as_str(),
        envelope.payload.as_str(),
        envelope.signature.as_str(),
    ) {
        Ok(value) => value,
        Err(error) => return Err(error),
    };
    match base64url_bytes(envelope.payload.as_str()) {
        Ok(bytes) => Ok(bytes),
        Err(error) => {
            let mut message = "invalid worker capability payload encoding: ".to_owned();
            message.append(error.as_str());
            Err(Status::new(Code::InvalidArgument, message))
        },
    }
}

// ---------------------------------------------------------------------------
// The payload

/// Why a payload is refused at a time: it is not active yet, it has no end or is past it, or it
/// lives longer than this worker lets a capability live.
pub open spec fn time_refusal(
    payload: CapabilityPayload,
    security: SecurityConfig,
    now_ms: u64,
) -> Option<StatusView> {
    if payload.not_before_ms matches Some(start) && now_ms < start {
        denied("worker capability is not active yet"@)
    } else {
        match payload.expires_at_ms {
            None => denied("worker capability requires expires_at_ms"@),
            Some(expiry) => if now_ms > expiry {
                denied("worker capability has expired"@)
            } else if payload.issued_at_ms matches Some(issued) && expiry > at_most(
                issued + at_least(security.max_capability_ttl_ms as int, 1),
                u64::MAX as int,
            ) {
                denied(
                    "worker capability ttl exceeds "@ + decimal_of(
                        security.max_capability_ttl_ms as nat,
                    ) + "ms"@,
                )
            } else {
                None
            },
        }
    }
}

/// Refuses a payload that is not valid at the time `now_ms`.
pub fn validate_time_bounds(
    payload: &CapabilityPayload,
    security: &SecurityConfig,
    now_ms: u64,
) -> (r: Result<(), Status>)
    ensures
        answers(r, time_refusal(*payload, *security, now_ms), |unit: ()| true),
{
    if let Some(not_before_ms) = payload.not_before_ms {
        if now_ms < not_before_ms {
            return Err(Status::of(Code::PermissionDenied, "worker capability is not active yet"));
        }
    }
    let expires_at_ms: u64 = match payload.expires_at_ms {
        Some(expires_at_ms) => expires_at_ms,
        None => return Err(
            Status::of(Code::PermissionDenied, "worker capability requires expires_at_ms"),
        ),
    };
    if now_ms > expires_at_ms {
        return Err(Status::of(Code::PermissionDenied, "worker capability has expired"));
    }
    if let Some(issued_at_ms) = payload.issued_at_ms {
        let max_expires_at_ms: u64 = issued_at_ms.saturating_add(
            max_u64(security.max_capability_ttl_ms, 1),
        );
        if expires_at_ms > max_expires_at_ms {
            let mut message = "worker capability ttl exceeds ".to_owned();
            message.append(decimal(security.max_capability_ttl_ms as u128).as_str());
            message.append("ms");
            return Err(Status::new(Code::PermissionDenied, message));
        }
    }
    Ok(())
}

/// Why a payload is refused on a worker: it is bound to another one, or to none though it has to
/// be.
pub open spec fn binding_refusal(
    payload: CapabilityPayload,
    worker: WorkerConfig,
    security: SecurityConfig,
) -> Option<StatusView> {
    match opt_text(payload.worker_id) {
        Some(id) => if id == worker.worker_id@ {
            None
        } else {
            denied(
                "worker capability is bound to worker "@ + quoted_of(id) + ", not "@ + quoted_of(
                    worker.worker_id@,
                ),
            )
        },
        None => if payload.worker_group is Some && opt_text(payload.worker_group) == opt_text(
            worker.zone,
        ) {
            None
        } else if security.require_capability_worker_binding {
            denied("worker capability requires worker_id binding"@)
        } else {
            None
        },
    }
}

/// Refuses a payload that is not meant for this worker.
pub fn validate_worker_binding(
    payload: &CapabilityPayload,
    worker: &WorkerConfig,
    security: &SecurityConfig,
) -> (r: Result<(), Status>)
    ensures
        answers(r, binding_refusal(*payload, *worker, *security), |unit: ()| true),
{
    if let Some(worker_id) = &payload.worker_id {
        if !text_eq(worker_id.as_str(), worker.worker_id.as_str()) {
            let mut message = "worker capability is bound to worker ".to_owned();
            message.append(quoted(worker_id.as_str()).as_str());
            message.append(", not ");
            message.append(quoted(worker.worker_id.as_str()).as_str());
            return Err(Status::new(Code::PermissionDenied, message));
        }
        return Ok(());
    }
    if let (Some(worker_group), Some(zone)) = (&payload.worker_group, &worker.zone) {
        if text_eq(worker_group.as_str(), zone.as_str()) {
            return Ok(());
        }
    }
    if security.require_capability_worker_binding {
        return Err(
            Status::of(Code::PermissionDenied, "worker capability requires worker_id binding"),
        );
    }
    Ok(())
}

/// The milliseconds since the Unix epoch now.
pub fn now_ms() -> (r: Result<u64, Status>)
    ensures
        exists|time: std::time::SystemTime| #[trigger] is_reading(r, time),
{
    match epoch_ms() {
        Ok(ms) => {
            let r = Ok(ms);
            proof {
                let time = choose|time: std::time::SystemTime|
                    #[trigger] epoch_ms_of(time) == Ok::<u64, Seq<char>>(ms);
                assert(is_reading(r, time));
            }
            r
        },
        Err(error) => {
            let ghost words = error@;
            let r = Err(Status::new(Code::Internal, error));
            proof {
                let time = choose|time: std::time::SystemTime|
                    #[trigger] epoch_ms_of(time) == Err::<u64, Seq<char>>(words);
                assert(is_reading(r, time));
            }
            r
        },
    }
}

/// Whether a result is what the clock reads when it shows a time.
pub open spec fn is_reading(result: Result<u64, Status>, time: std::time::SystemTime) -> bool {
    match epoch_ms_of(time) {
        Ok(ms) => result == Ok::<u64, Status>(ms),
        Err(words) => result matches Err(status) && status@ == status_of(Code::Internal, words),
    }
}

/// Why a payload is refused when the clock shows a time.
pub open spec fn payload_refusal(
    payload: CapabilityPayload,
    worker: WorkerConfig,
    security: SecurityConfig,
    time: std::time::SystemTime,
) -> Option<StatusView> {
    match epoch_ms_of(time) {
        Err(words) => Some(status_of(Code::Internal, words)),
        Ok(now_ms) => either_refusal(
            time_refusal(payload, security, now_ms),
            binding_refusal(payload, worker, security),
        ),
    }
}

/// Whether `result` is what judging a payload gives: the payload, or its refusal at some time that
/// the clock may show.
pub open spec fn is_judged(
    payload: CapabilityPayload,
    worker: WorkerConfig,
    security: SecurityConfig,
    result: Result<CapabilityPayload, Status>,
) -> bool {
    exists|time: std::time::SystemTime|
        answers(
            result,
            #[trigger] payload_refusal(payload, worker, security, time),
            |verified: CapabilityPayload| verified == payload,
        )
}

/// Hands a payload back where it holds now and on this worker.
pub fn judge_payload(
    payload: CapabilityPayload,
    worker: &WorkerConfig,
    security: &SecurityConfig,
) -> (r: Result<CapabilityPayload, Status>)
    ensures
        is_judged(payload, *worker, *security, r),
{
    let reading = now_ms();
    let ghost time = choose|time: std::time::SystemTime| #[trigger] is_reading(reading, time);
    let ghost refusal = payload_refusal(payload, *worker, *security, time);
    proof {
        assert(is_reading(reading, time));
        assert(refusal == payload_refusal(payload, *worker, *security, time));
    }
    let now_ms = match reading {
        Ok(value) => value,
        Err(error) => return Err(error),
    };
    match validate_time_bounds(&payload, security, now_ms) {
        Ok(value) => value,
        Err(error) => return Err(error),
    };
    match validate_worker_binding(&payload, worker, security) {
        Ok(value) => value,
        Err(error) => return Err(error),
    };
    Ok(payload)
}

/// Whether `result` is what verifying gives for a decoded envelope.
pub open spec fn is_envelope_verdict<P: Fn(Vec<u8>) -> Result<CapabilityPayload, String>>(
    envelope: Result<CapabilityEnvelope, String>,
    worker: WorkerConfig,
    security: SecurityConfig,
    decode_payload: P,
    result: Result<CapabilityPayload, Status>,
) -> bool {
    match envelope {
        Err(words) => result matches Err(status) && Some(status@) == invalid(
            "invalid worker capability: "@ + words@,
        ),
        Ok(envelope) => match envelope_refusal(envelope, security) {
            Some(refusal) => result matches Err(status) && status@ == refusal,
            None => is_payload_verdict(
                base64url_bytes_of(envelope.payload@)->Ok_0,
                worker,
                security,
                decode_payload,
                result,
            ),
        },
    }
}

/// Whether `result` is what verifying gives for a decoded payload.
pub open spec fn is_decoded_verdict(
    payload: Result<CapabilityPayload, String>,
    worker: WorkerConfig,
    security: SecurityConfig,
    result: Result<CapabilityPayload, Status>,
) -> bool {
    match payload {
        Err(words) => result matches Err(status) && Some(status@) == invalid(
            "invalid worker capability payload: "@ + words@,
        ),
        Ok(payload) => is_judged(payload, worker, security, result),
    }
}

/// Whether `result` is what verifying gives, where the envelope's value and the payload's bytes
/// decode as the two decoders decode them: the refusal of the first step that refuses, or the
/// decoded payload.
pub open spec fn is_verdict<
    E: Fn(serde_json::Value) -> Result<CapabilityEnvelope, String>,
    P: Fn(Vec<u8>) -> Result<CapabilityPayload, String>,
>(
    value: serde_json::Value,
    worker: WorkerConfig,
    security: SecurityConfig,
    decode_envelope: E,
    decode_payload: P,
    result: Result<CapabilityPayload, Status>,
) -> bool {
    exists|envelope: Result<CapabilityEnvelope, String>|
        #[trigger] decode_envelope.ensures((value,), envelope) && is_envelope_verdict(
            envelope,
            worker,
            security,
            decode_payload,
            result,
        )
}

/// Whether `result` is what verifying gives for signed bytes.
pub open spec fn is_payload_verdict<P: Fn(Vec<u8>) -> Result<CapabilityPayload, String>>(
    bytes: Seq<u8>,
    worker: WorkerConfig,
    security: SecurityConfig,
    decode_payload: P,
    result: Result<CapabilityPayload, Status>,
) -> bool {
    exists|input: Vec<u8>, payload: Result<CapabilityPayload, String>|
        input@ == bytes && #[trigger] decode_payload.ensures((input,), payload)
            && is_decoded_verdict(payload, worker, security, result)
}

/// Reads an envelope, checks its signature, then reads what it signs and checks that it holds now
/// and here. Nothing of the payload is read before the signature is accepted.
pub fn verify_payload<
    E: Fn(serde_json::Value) -> Result<CapabilityEnvelope, String>,
    P: Fn(Vec<u8>) -> Result<CapabilityPayload, String>,
>(
    value: serde_json::Value,
    worker: &WorkerConfig,
    security: &SecurityConfig,
    decode_envelope: &E,
    decode_payload: &P,
) -> (r: Result<CapabilityPayload, Status>)
    requires
        forall|value: serde_json::Value| decode_envelope.requires((value,)),
        forall|bytes: Vec<u8>| decode_payload.requires((bytes,)),
    ensures
        is_verdict(value, *worker, *security, *decode_envelope, *decode_payload, r),
{
    let envelope = match decode_envelope(value) {
        Ok(envelope) => envelope,
        Err(error) => {
            let mut message = "invalid worker capability: ".to_owned();
            message.append(error.as_str());
            return Err(Status::new(Code::InvalidArgument, message));
        },
    };
    let payload_bytes = match open_envelope(&envelope, security) {
        Ok(value) => value,
        Err(error) => return Err(error),
    };
    let payload = match decode_payload(payload_bytes) {
        Ok(payload) => payload,
        Err(error) => {
            let mut message = "invalid worker capability payload: ".to_owned();
            message.append(error.as_str());
            return Err(Status::new(Code::InvalidArgument, message));
        },
    };
    judge_payload(payload, worker, security)
}

// ---------------------------------------------------------------------------
// The members of a payload

/// Why a prefix is refused: it has no component.
pub open spec fn prefix_refusal(raw: Seq<char>) -> Option<StatusView> {
    if clean_path_of(raw).len() == 0 {
        invalid("capability prefix must not be empty"@)
    } else {
        None
    }
}

/// The clean form of a prefix, with a slash behind it.
pub open spec fn prefix_of(raw: Seq<char>) -> Seq<char> {
    clean_path_of(raw) + "/"@
}

/// The clean form of a prefix, with a slash behind it.
pub fn normalize_prefix(raw: &str) -> (r: Result<String, Status>)
    ensures
        answers(r, prefix_refusal(raw@), |prefix: String| prefix@ == prefix_of(raw@)),
{
    let mut prefix = clean_path(raw);
    if prefix.as_str().is_empty() {
        return Err(Status::of(Code::InvalidArgument, "capability prefix must not be empty"));
    }
    prefix.append("/");
    Ok(prefix)
}

/// The characters that an identifier may hold.
pub open spec fn is_id_char(c: char) -> bool {
    ||| 'a' <= c <= 'z'
    ||| 'A' <= c <= 'Z'
    ||| '0' <= c <= '9'
    ||| c == '-'
    ||| c == '_'
    ||| c == '.'
    ||| c == ':'
}

/// Why an identifier is refused.
pub open spec fn id_refusal(name: Seq<char>, value: Option<Seq<char>>) -> Option<StatusView> {
    match value {
        None => None,
        Some(value) => {
            let id = trim_of(value);
            if id.len() == 0 {
                invalid(name + " must not be empty"@)
            } else if encode_utf8(id).len() > 128 {
                invalid(name + " must be at most 128 bytes"@)
            } else if exists|i: int| 0 <= i < id.len() && !is_id_char(#[trigger] id[i]) {
                invalid(
                    name
                        + " may only contain ASCII letters, digits, '-', '_', '.', and ':'"@,
                )
            } else {
                None
            }
        },
    }
}

/// An identifier without surrounding white space.
pub open spec fn id_of(value: Option<Seq<char>>) -> Option<Seq<char>> {
    match value {
        None => None,
        Some(value) => Some(trim_of(value)),
    }
}

fn about_id(name: &str, rest: &str) -> (r: Status)
    ensures
        Some(r@) == invalid(name@ + rest@),
{
    let mut message = name.to_owned();
    message.append(rest);
    Status::new(Code::InvalidArgument, message)
}

/// An identifier without surrounding white space: not empty, at most 128 bytes, of ASCII letters,
/// digits and a few marks.
pub fn validate_optional_id(name: &str, value: &Option<String>) -> (r: Result<
    Option<String>,
    Status,
>)
    ensures
        answers(
            r,
            id_refusal(name@, opt_text(*value)),
            |id: Option<String>| opt_text(id) == id_of(opt_text(*value)),
        ),
{
    let raw = match value {
        Some(raw) => raw,
        None => return Ok(None),
    };
    let id = trim(raw.as_str());
    if id.as_str().is_empty() {
        return Err(about_id(name, " must not be empty"));
    }
    if id.as_str().as_bytes().len() > 128 {
        return Err(about_id(name, " must be at most 128 bytes"));
    }
    let chars = chars_of(id.as_str());
    let mut i: usize = 0;
    while i < chars.len()
        invariant
            i <= chars@.len(),
            chars@ == id@,
            opt_text(*value) == Some(raw@),
            id@ == trim_of(raw@),
            id@.len() > 0,
            encode_utf8(id@).len() <= 128,
            forall|j: int| 0 <= j < i ==> is_id_char(#[trigger] id@[j]),
        decreases chars@.len() - i,
    {
        let c = chars[i];
        if !(('a' <= c && c <= 'z') || ('A' <= c && c <= 'Z') || ('0' <= c && c <= '9') || c == '-'
            || c == '_' || c == '.' || c == ':') {
            proof {
                assert(!is_id_char(id@[i as int]));
            }
            return Err(
                about_id(
                    name,
                    " may only contain ASCII letters, digits, '-', '_', '.', and ':'",
                ),
            );
        }
        i += 1;
    }
    Ok(Some(id))
}

/// Whether a text is a bucket name and nothing more.
pub open spec fn is_plain_bucket(bucket: Seq<char>) -> bool {
    &&& bucket.len() > 0
    &&& !has_prefix(bucket, "s3://"@)
    &&& !has_prefix(bucket, "s3a://"@)
    &&& !bucket.contains('/')
    &&& !bucket.contains('\\')
}

/// Why a bucket is refused: it is more than a plain name.
pub open spec fn bucket_refusal(bucket: Option<Seq<char>>) -> Option<StatusView> {
    if bucket matches Some(bucket) && !is_plain_bucket(bucket) {
        denied(
            "capability bucket must be a plain bucket name without s3://, s3a://, or subdirectories"@,
        )
    } else {
        None
    }
}

/// Hands a plain bucket name back.
pub fn validate_optional_bucket(bucket: &Option<String>) -> (r: Result<Option<String>, Status>)
    ensures
        answers(
            r,
            bucket_refusal(opt_text(*bucket)),
            |name: Option<String>| opt_text(name) == opt_text(*bucket),
        ),
{
    let name = match bucket {
        Some(name) => name,
        None => return Ok(None),
    };
    if name.as_str().is_empty() || starts_with(name.as_str(), "s3://") || starts_with(
        name.as_str(),
        "s3a://",
    ) || contains_char(name.as_str(), '/') || contains_char(name.as_str(), '\\') {
        return Err(
            Status::of(
                Code::PermissionDenied,
                "capability bucket must be a plain bucket name without s3://, s3a://, or subdirectories",
            ),
        );
    }
    Ok(Some(name.clone()))
}

// ---------------------------------------------------------------------------
// What a payload authorizes

/// Why a payload is refused for the operation `op`, which `call` makes.
pub open spec fn op_refusal(
    payload: CapabilityPayload,
    op: Seq<char>,
    call: Seq<char>,
) -> Option<StatusView> {
    if payload.op@ == op {
        None
    } else {
        denied("worker capability op "@ + quoted_of(payload.op@) + " cannot authorize "@ + call)
    }
}

fn check_op(payload: &CapabilityPayload, op: &str, call: &str) -> (r: Result<(), Status>)
    ensures
        answers(r, op_refusal(*payload, op@, call@), |unit: ()| true),
{
    if text_eq(payload.op.as_str(), op) {
        return Ok(());
    }
    let mut message = "worker capability op ".to_owned();
    message.append(quoted(payload.op.as_str()).as_str());
    message.append(" cannot authorize ");
    message.append(call);
    Err(Status::new(Code::PermissionDenied, message))
}

/// Why the output prefix of a payload is refused: there is none, or it is empty.
pub open spec fn output_refusal(payload: CapabilityPayload) -> Option<StatusView> {
    match opt_text(payload.allowed_output_prefix) {
        None => denied("DoPut capability requires allowed_output_prefix"@),
        Some(prefix) => prefix_refusal(prefix),
    }
}

/// Why the staging prefix of a payload is refused: there is one, and it is empty.
pub open spec fn staging_refusal(payload: CapabilityPayload) -> Option<StatusView> {
    match opt_text(payload.staging_prefix) {
        None => None,
        Some(prefix) => prefix_refusal(prefix),
    }
}

/// Why a payload does not authorize a write that starts at `now_ms`.
pub open spec fn put_refusal(payload: CapabilityPayload, now_ms: u64) -> Option<StatusView> {
    either_refusal(
        op_refusal(payload, "put"@, "DoPut"@),
        if payload.start_before_ms matches Some(limit) && now_ms > limit {
            denied("DoPut capability start reservation has expired; create a new upload"@)
        } else {
            either_refusal(
                output_refusal(payload),
                either_refusal(
                    staging_refusal(payload),
                    either_refusal(
                        bucket_refusal(opt_text(payload.bucket)),
                        either_refusal(
                            id_refusal("operation_id"@, opt_text(payload.operation_id)),
                            either_refusal(
                                id_refusal("attempt_id"@, opt_text(payload.attempt_id)),
                                either_refusal(
                                    id_refusal("upload_id"@, opt_text(payload.upload_id)),
                                    id_refusal("stream_id"@, opt_text(payload.stream_id)),
                                ),
                            ),
                        ),
                    ),
                ),
            )
        },
    )
}

/// Whether a value holds what a payload lets a client write.
pub open spec fn is_put_capability(
    payload: CapabilityPayload,
    capability: VerifiedPutCapability,
) -> bool {
    &&& opt_text(capability.bucket) == opt_text(payload.bucket)
    &&& opt_text(capability.operation_id) == id_of(opt_text(payload.operation_id))
    &&& opt_text(capability.attempt_id) == id_of(opt_text(payload.attempt_id))
    &&& opt_text(capability.upload_id) == id_of(opt_text(payload.upload_id))
    &&& opt_text(capability.stream_id) == id_of(opt_text(payload.stream_id))
    &&& Some(capability.allowed_output_prefix@) == (match opt_text(payload.allowed_output_prefix) {
        Some(prefix) => Some(prefix_of(prefix)),
        None => None,
    })
    &&& opt_text(capability.staging_prefix) == (match opt_text(payload.staging_prefix) {
        Some(prefix) => Some(prefix_of(prefix)),
        None => None,
    })
    &&& capability.max_upload_streams == payload.max_upload_streams
    &&& capability.max_stream_bytes == payload.max_stream_bytes
    &&& capability.target_file_size == payload.target_file_size
    &&& capability.max_record_batch_bytes == payload.max_record_batch_bytes
}

/// What a verified payload lets a client write, where it authorizes a write that starts at
/// `now_ms`.
pub fn authorize_put(payload: &CapabilityPayload, now_ms: u64) -> (r: Result<
    VerifiedPutCapability,
    Status,
>)
    ensures
        answers(
            r,
            put_refusal(*payload, now_ms),
            |capability: VerifiedPutCapability| is_put_capability(*payload, capability),
        ),
{
    match check_op(payload, "put", "DoPut") {
        Ok(value) => value,
        Err(error) => return Err(error),
    };
    if let Some(start_before_ms) = payload.start_before_ms {
        if now_ms > start_before_ms {
            return Err(
                Status::of(
                    Code::PermissionDenied,
                    "DoPut capability start reservation has expired; create a new upload",
                ),
            );
        }
    }
    let allowed_output_prefix = match &payload.allowed_output_prefix {
        Some(prefix) => match normalize_prefix(prefix.as_str()) {
            Ok(value) => value,
            Err(error) => return Err(error),
        },
        None => return Err(
            Status::of(
                Code::PermissionDenied,
                "DoPut capability requires allowed_output_prefix",
            ),
        ),
    };
    let staging_prefix = match &payload.staging_prefix {
        Some(prefix) => Some(match normalize_prefix(prefix.as_str()) {
            Ok(value) => value,
            Err(error) => return Err(error),
        }),
        None => None,
    };
    let bucket = match validate_optional_bucket(&payload.bucket) {
        Ok(value) => value,
        Err(error) => return Err(error),
    };
    let operation_id = match validate_optional_id("operation_id", &payload.operation_id) {
        Ok(value) => value,
        Err(error) => return Err(error),
    };
    let attempt_id = match validate_optional_id("attempt_id", &payload.attempt_id) {
        Ok(value) => value,
        Err(error) => return Err(error),
    };
    let upload_id = match validate_optional_id("upload_id", &payload.upload_id) {
        Ok(value) => value,
        Err(error) => return Err(error),
    };
    let stream_id = match validate_optional_id("stream_id", &payload.stream_id) {
        Ok(value) => value,
        Err(error) => return Err(error),
    };
    Ok(
        VerifiedPutCapability {
            bucket,
            operation_id,
            attempt_id,
            upload_id,
            stream_id,
            allowed_output_prefix,
            staging_prefix,
            max_upload_streams: payload.max_upload_streams,
            max_stream_bytes: payload.max_stream_bytes,
            target_file_size: payload.target_file_size,
            max_record_batch_bytes: payload.max_record_batch_bytes,
        },
    )
}

/// Why a payload does not authorize a read.
pub open spec fn get_refusal(payload: CapabilityPayload) -> Option<StatusView> {
    either_refusal(
        op_refusal(payload, "get"@, "DoGet"@),
        if payload.path is None {
            denied("DoGet capability requires exact parquet path"@)
        } else {
            either_refusal(
                bucket_refusal(opt_text(payload.bucket)),
                id_refusal("operation_id"@, opt_text(payload.operation_id)),
            )
        },
    )
}

/// Whether `key` is the object key for `raw`; a path without a component gets a random name.
pub open spec fn is_object_key(raw: Seq<char>, key: Seq<char>) -> bool {
    exists|id: Seq<char>| #[trigger] is_uuid_text(id) && key == object_key_of(raw, id)
}

/// Whether a value holds what a payload lets a client read.
pub open spec fn is_get_capability(
    payload: CapabilityPayload,
    capability: VerifiedGetCapability,
) -> bool {
    &&& opt_text(capability.bucket) == opt_text(payload.bucket)
    &&& opt_text(capability.operation_id) == id_of(opt_text(payload.operation_id))
    &&& payload.path matches Some(path) && is_object_key(path@, capability.path@)
    &&& capability.max_batch_rows == payload.max_batch_rows
    &&& capability.max_record_batch_bytes == payload.max_record_batch_bytes
}

/// What a verified payload lets a client read, where it authorizes a read.
pub fn authorize_get(payload: &CapabilityPayload) -> (r: Result<VerifiedGetCapability, Status>)
    ensures
        answers(
            r,
            get_refusal(*payload),
            |capability: VerifiedGetCapability| is_get_capability(*payload, capability),
        ),
{
    match check_op(payload, "get", "DoGet") {
        Ok(value) => value,
        Err(error) => return Err(error),
    };
    let path = match &payload.path {
        Some(path) => path,
        None => return Err(
            Status::of(Code::PermissionDenied, "DoGet capability requires exact parquet path"),
        ),
    };
    let bucket = match validate_optional_bucket(&payload.bucket) {
        Ok(value) => value,
        Err(error) => return Err(error),
    };
    let operation_id = match validate_optional_id("operation_id", &payload.operation_id) {
        Ok(value) => value,
        Err(error) => return Err(error),
    };
    Ok(
        VerifiedGetCapability {
            bucket,
            operation_id,
            path: normalize_object_key(path.as_str()),
            max_batch_rows: payload.max_batch_rows,
            max_record_batch_bytes: payload.max_record_batch_bytes,
        },
    )
}

/// Why a payload does not authorize a write when the clock shows a time.
pub open spec fn put_refusal_at(
    payload: CapabilityPayload,
    time: std::time::SystemTime,
) -> Option<StatusView> {
    either_refusal(
        op_refusal(payload, "put"@, "DoPut"@),
        match epoch_ms_of(time) {
            Err(words) => Some(status_of(Code::Internal, words)),
            Ok(now_ms) => put_refusal(payload, now_ms),
        },
    )
}

/// Whether `result` is what authorizing a write gives for a verified payload.
pub open spec fn is_put_grant(
    payload: CapabilityPayload,
    result: Result<VerifiedPutCapability, Status>,
) -> bool {
    exists|time: std::time::SystemTime|
        answers(
            result,
            #[trigger] put_refusal_at(payload, time),
            |capability: VerifiedPutCapability| is_put_capability(payload, capability),
        )
}

/// What a verified payload lets a client write, where it authorizes a write that starts now.
pub fn grant_put(payload: &CapabilityPayload) -> (r: Result<VerifiedPutCapability, Status>)
    ensures
        is_put_grant(*payload, r),
{
    let reading = now_ms();
    let ghost time = choose|time: std::time::SystemTime| #[trigger] is_reading(reading, time);
    let ghost refusal = put_refusal_at(*payload, time);
    proof {
        assert(is_reading(reading, time));
        assert(refusal == put_refusal_at(*payload, time));
    }
    match check_op(payload, "put", "DoPut") {
        Ok(value) => value,
        Err(error) => return Err(error),
    };
    let now_ms = match reading {
        Ok(value) => value,
        Err(error) => return Err(error),
    };
    authorize_put(payload, now_ms)
}

/// Whether `result` is what a signed envelope lets a client write.
pub open spec fn is_put_verdict<
    E: Fn(serde_json::Value) -> Result<CapabilityEnvelope, String>,
    P: Fn(Vec<u8>) -> Result<CapabilityPayload, String>,
>(
    value: serde_json::Value,
    worker: WorkerConfig,
    security: SecurityConfig,
    decode_envelope: E,
    decode_payload: P,
    result: Result<VerifiedPutCapability, Status>,
) -> bool {
    exists|verdict: Result<CapabilityPayload, Status>|
        #[trigger] is_verdict(value, worker, security, decode_envelope, decode_payload, verdict)
            && match verdict {
            Err(refusal) => result matches Err(status) && status@ == refusal@,
            Ok(payload) => is_put_grant(payload, result),
        }
}

/// Verifies an envelope and tells what it lets a client write.
pub fn verify_put_capability<
    E: Fn(serde_json::Value) -> Result<CapabilityEnvelope, String>,
    P: Fn(Vec<u8>) -> Result<CapabilityPayload, String>,
>(
    value: serde_json::Value,
    worker: &WorkerConfig,
    security: &SecurityConfig,
    decode_envelope: &E,
    decode_payload: &P,
) -> (r: Result<VerifiedPutCapability, Status>)
    requires
        forall|value: serde_json::Value| decode_envelope.requires((value,)),
        forall|bytes: Vec<u8>| decode_payload.requires((bytes,)),
    ensures
        is_put_verdict(value, *worker, *security, *decode_envelope, *decode_payload, r),
{
    let payload = match verify_payload(value, worker, security, decode_envelope, decode_payload) {
        Ok(value) => value,
        Err(error) => return Err(error),
    };
    grant_put(&payload)
}

/// Whether `result` is what verifying an envelope for a read gives.
pub open spec fn is_get_verdict<
    E: Fn(serde_json::Value) -> Result<CapabilityEnvelope, String>,
    P: Fn(Vec<u8>) -> Result<CapabilityPayload, String>,
>(
    value: serde_json::Value,
    worker: WorkerConfig,
    security: SecurityConfig,
    decode_envelope: E,
    decode_payload: P,
    result: Result<VerifiedGetCapability, Status>,
) -> bool {
    exists|verdict: Result<CapabilityPayload, Status>|
        #[trigger] is_verdict(value, worker, security, decode_envelope, decode_payload, verdict)
            && match verdict {
            Err(refusal) => result matches Err(status) && status@ == refusal@,
            Ok(payload) => answers(
                result,
                get_refusal(payload),
                |capability: VerifiedGetCapability| is_get_capability(payload, capability),
            ),
        }
}

/// Verifies an envelope and tells what it lets a client read.
pub fn verify_get_capability<
    E: Fn(serde_json::Value) -> Result<CapabilityEnvelope, String>,
    P: Fn(Vec<u8>) -> Result<CapabilityPayload, String>,
>(
    value: serde_json::Value,
    worker: &WorkerConfig,
    security: &SecurityConfig,
    decode_envelope: &E,
    decode_payload: &P,
) -> (r: Result<VerifiedGetCapability, Status>)
    requires
        forall|value: serde_json::Value| decode_envelope.requires((value,)),
        forall|bytes: Vec<u8>| decode_payload.requires((bytes,)),
    ensures
        is_get_verdict(value, *worker, *security, *decode_envelope, *decode_payload, r),
{
    let payload = match verify_payload(value, worker, security, decode_envelope, decode_payload) {
        Ok(value) => value,
        Err(error) => return Err(error),
    };
    authorize_get(&payload)
}

// ---------------------------------------------------------------------------
// Laws

/// An envelope that is accepted carries the one code of its payload under the worker's secret: any
/// other signature, and any other payload under the same signature unless the codes collide, is
/// refused.
pub proof fn law_accepted_only_with_the_code(
    envelope: CapabilityEnvelope,
    security: SecurityConfig,
)
    requires
        envelope_refusal(envelope, security) is None,
    ensures
        security.capability_secret matches Some(secret) && base64url_bytes_of(
            envelope.signature@,
        ) == Ok::<Seq<u8>, Seq<char>>(mac_of(secret@, envelope.payload@)),
{
}

/// A payload that is accepted at a time has an end that is not past, and one that says when it was
/// issued does not outlive the worker's limit.
pub proof fn law_accepted_only_while_valid(
    payload: CapabilityPayload,
    security: SecurityConfig,
    now_ms: u64,
)
    requires
        time_refusal(payload, security, now_ms) is None,
    ensures
        payload.expires_at_ms matches Some(expiry) && now_ms <= expiry && (
        payload.not_before_ms matches Some(start) ==> start <= now_ms) && (
        payload.issued_at_ms matches Some(issued) ==> expiry <= issued + at_least(
            security.max_capability_ttl_ms as int,
            1,
        )),
{
}

/// A worker that demands a binding accepts only payloads that name it, or its zone.
pub proof fn law_binding_is_enforced(
    payload: CapabilityPayload,
    worker: WorkerConfig,
    security: SecurityConfig,
)
    requires
        security.require_capability_worker_binding,
        binding_refusal(payload, worker, security) is None,
    ensures
        payload.worker_id matches Some(id) ==> id@ == worker.worker_id@,
        payload.worker_id is None ==> payload.worker_group is Some && opt_text(
            payload.worker_group,
        ) == opt_text(worker.zone),
{
}

/// A capability is for one operation: no payload that authorizes a read authorizes a write,
/// whatever the time.
pub proof fn law_one_operation(payload: CapabilityPayload, now_ms: u64)
    ensures
        put_refusal(payload, now_ms) is Some || get_refusal(payload) is Some,
        put_refusal(payload, now_ms) is None ==> payload.op@ == "put"@,
        get_refusal(payload) is None ==> payload.op@ == "get"@,
{
    reveal_strlit("put");
    reveal_strlit("get");
    assert("put"@[0] != "get"@[0]);
}

/// Whether a decoder of envelopes gives one result for each value.
pub open spec fn decodes_one_envelope<
    E: Fn(serde_json::Value) -> Result<CapabilityEnvelope, String>,
>(decode_envelope: E) -> bool {
    forall|
        value: serde_json::Value,
        a: Result<CapabilityEnvelope, String>,
        b: Result<CapabilityEnvelope, String>,
    |
        #[trigger] decode_envelope.ensures((value,), a) && #[trigger] decode_envelope.ensures(
            (value,),
            b,
        ) ==> a == b
}

/// Whether a decoder of payloads gives one result for each sequence of bytes.
pub open spec fn decodes_one_payload<P: Fn(Vec<u8>) -> Result<CapabilityPayload, String>>(
    decode_payload: P,
) -> bool {
    forall|
        x: Vec<u8>,
        y: Vec<u8>,
        a: Result<CapabilityPayload, String>,
        b: Result<CapabilityPayload, String>,
    |
        x@ == y@ && #[trigger] decode_payload.ensures((x,), a) && #[trigger] decode_payload.ensures(
            (y,),
            b,
        ) ==> a == b
}

/// Whether a status is that of a clock which shows a time that cannot be told.
pub open spec fn is_clock_failure(status: StatusView) -> bool {
    exists|time: std::time::SystemTime|
        #[trigger] epoch_ms_of(time) matches Err(words) && status == status_of(
            Code::Internal,
            words,
        )
}

proof fn lemma_judged_again(
    payload: CapabilityPayload,
    worker: WorkerConfig,
    security: SecurityConfig,
    first: Result<CapabilityPayload, Status>,
    second: Result<CapabilityPayload, Status>,
)
    requires
        is_judged(payload, worker, security, first),
        is_judged(payload, worker, security, second),
        first is Ok,
    ensures
        first == Ok::<CapabilityPayload, Status>(payload),
        match second {
            Ok(judged) => judged == payload,
            Err(status) => status.code == Code::PermissionDenied || is_clock_failure(status@),
        },
{
    let described = |verified: CapabilityPayload| verified == payload;
    let earlier = choose|time: std::time::SystemTime|
        answers(first, #[trigger] payload_refusal(payload, worker, security, time), described);
    let later = choose|time: std::time::SystemTime|
        answers(second, #[trigger] payload_refusal(payload, worker, security, time), described);
    assert(payload_refusal(payload, worker, security, earlier) is None);
    assert(answers(second, payload_refusal(payload, worker, security, later), described));
}

/// Two verifications of one envelope come to the same payload, unless a later one finds that it no
/// longer or not yet holds, or the clock fails.
proof fn lemma_verified_again<
    E: Fn(serde_json::Value) -> Result<CapabilityEnvelope, String>,
    P: Fn(Vec<u8>) -> Result<CapabilityPayload, String>,
>(
    value: serde_json::Value,
    worker: WorkerConfig,
    security: SecurityConfig,
    decode_envelope: E,
    decode_payload: P,
    first: Result<CapabilityPayload, Status>,
    second: Result<CapabilityPayload, Status>,
)
    requires
        decodes_one_envelope(decode_envelope),
        decodes_one_payload(decode_payload),
        is_verdict(value, worker, security, decode_envelope, decode_payload, first),
        is_verdict(value, worker, security, decode_envelope, decode_payload, second),
        first is Ok,
    ensures
        match second {
            Ok(payload) => first == Ok::<CapabilityPayload, Status>(payload),
            Err(status) => status.code == Code::PermissionDenied || is_clock_failure(status@),
        },
{
    let a = choose|envelope: Result<CapabilityEnvelope, String>|
        #[trigger] decode_envelope.ensures((value,), envelope) && is_envelope_verdict(
            envelope,
            worker,
            security,
            decode_payload,
            first,
        );
    let b = choose|envelope: Result<CapabilityEnvelope, String>|
        #[trigger] decode_envelope.ensures((value,), envelope) && is_envelope_verdict(
            envelope,
            worker,
            security,
            decode_payload,
            second,
        );
    assert(a == b);
    let bytes = base64url_bytes_of(a->Ok_0.payload@)->Ok_0;
    assert(is_payload_verdict(bytes, worker, security, decode_payload, first));
    assert(is_payload_verdict(bytes, worker, security, decode_payload, second));
    let (x, one) = choose|input: Vec<u8>, payload: Result<CapabilityPayload, String>|
        input@ == bytes && #[trigger] decode_payload.ensures((input,), payload)
            && is_decoded_verdict(payload, worker, security, first);
    let (y, other) = choose|input: Vec<u8>, payload: Result<CapabilityPayload, String>|
        input@ == bytes && #[trigger] decode_payload.ensures((input,), payload)
            && is_decoded_verdict(payload, worker, security, second);
    assert(one == other);
    lemma_judged_again(one->Ok_0, worker, security, first, second);
}

/// An envelope is for one operation: one that lets a client write is refused for a read, and one
/// that lets a client read is refused for a write. The refusal is that of a missing permission,
/// unless the clock fails in between.
pub proof fn law_one_envelope_one_operation<
    E: Fn(serde_json::Value) -> Result<CapabilityEnvelope, String>,
    P: Fn(Vec<u8>) -> Result<CapabilityPayload, String>,
>(
    value: serde_json::Value,
    worker: WorkerConfig,
    security: SecurityConfig,
    decode_envelope: E,
    decode_payload: P,
    put: Result<VerifiedPutCapability, Status>,
    get: Result<VerifiedGetCapability, Status>,
)
    requires
        decodes_one_envelope(decode_envelope),
        decodes_one_payload(decode_payload),
        is_put_verdict(value, worker, security, decode_envelope, decode_payload, put),
        is_get_verdict(value, worker, security, decode_envelope, decode_payload, get),
    ensures
        put is Err || get is Err,
        put is Ok ==> (get matches Err(status) && (status.code == Code::PermissionDenied
            || is_clock_failure(status@))),
        get is Ok ==> (put matches Err(status) && (status.code == Code::PermissionDenied
            || is_clock_failure(status@))),
{
    reveal_strlit("put");
    reveal_strlit("get");
    assert("put"@[0] != "get"@[0]);
    let writing = choose|verdict: Result<CapabilityPayload, Status>|
        #[trigger] is_verdict(value, worker, security, decode_envelope, decode_payload, verdict)
            && match verdict {
            Err(refusal) => put matches Err(status) && status@ == refusal@,
            Ok(payload) => is_put_grant(payload, put),
        };
    let reading = choose|verdict: Result<CapabilityPayload, Status>|
        #[trigger] is_verdict(value, worker, security, decode_envelope, decode_payload, verdict)
            && match verdict {
            Err(refusal) => get matches Err(status) && status@ == refusal@,
            Ok(payload) => answers(
                get,
                get_refusal(payload),
                |capability: VerifiedGetCapability| is_get_capability(payload, capability),
            ),
        };
    if writing is Ok {
        lemma_verified_again(
            value,
            worker,
            security,
            decode_envelope,
            decode_payload,
            writing,
            reading,
        );
    }
    if reading is Ok {
        lemma_verified_again(
            value,
            worker,
            security,
            decode_envelope,
            decode_payload,
            reading,
            writing,
        );
    }
}

/// A normalized prefix is a prefix whose normal form is itself.
pub proof fn law_prefix_idempotent(raw: Seq<char>)
    requires
        prefix_refusal(raw) is None,
    ensures
        prefix_refusal(prefix_of(raw)) is None,
        prefix_of(prefix_of(raw)) == prefix_of(raw),
{
    crate::path::lemma_clean_path_with_slash(raw);
}

/// A payload is accepted at a time exactly where it has begun, has an end that is not past, and,
/// where it says when it was issued, ends within the longest life that the worker allows.
pub proof fn law_valid_times(payload: CapabilityPayload, security: SecurityConfig, now_ms: u64)
    ensures
        time_refusal(payload, security, now_ms) is None <==> {
            &&& payload.not_before_ms matches Some(start) ==> start <= now_ms
            &&& payload.expires_at_ms is Some
            &&& now_ms <= payload.expires_at_ms->0
            &&& payload.issued_at_ms matches Some(issued) ==> {
                ||| payload.expires_at_ms->0 <= issued + security.max_capability_ttl_ms
                ||| security.max_capability_ttl_ms == 0 && payload.expires_at_ms->0 <= issued + 1
            }
        },
        time_refusal(payload, security, now_ms) matches Some(status) ==> status.code
            == Code::PermissionDenied,
{
}

/// A payload is accepted on a worker exactly where it names that worker, or names none and either
/// names the worker's zone as its group or need not be bound. A group never outweighs the name of
/// another worker.
pub proof fn law_bound_workers(
    payload: CapabilityPayload,
    worker: WorkerConfig,
    security: SecurityConfig,
)
    ensures
        payload.worker_id matches Some(id) ==> (binding_refusal(payload, worker, security) is None
            <==> id@ == worker.worker_id@),
        payload.worker_id is None ==> (binding_refusal(payload, worker, security) is None <==> {
            ||| !security.require_capability_worker_binding
            ||| payload.worker_group is Some && worker.zone is Some && payload.worker_group->0@
                == worker.zone->0@
        }),
        binding_refusal(payload, worker, security) matches Some(status) ==> status.code
            == Code::PermissionDenied,
{
}

/// An envelope is opened exactly where it is of version one, names no other algorithm than HS256,
/// the worker has a secret, the signature decodes to the payload's code under that secret, and the
/// payload decodes. An envelope that is not signed so is refused before its payload is read.
pub proof fn law_opened_envelopes(envelope: CapabilityEnvelope, security: SecurityConfig)
    ensures
        envelope_refusal(envelope, security) is None <==> {
            &&& envelope.version == 1
            &&& envelope.alg matches Some(alg) ==> alg@ == "HS256"@
            &&& security.capability_secret is Some
            &&& base64url_bytes_of(envelope.signature@) == Ok::<Seq<u8>, Seq<char>>(
                hmac_sha256_of(
                    encode_utf8(security.capability_secret->0@),
                    encode_utf8(envelope.payload@),
                ),
            )
            &&& base64url_bytes_of(envelope.payload@) is Ok
        },
{
}

/// A payload that is judged good is handed on unchanged, and it is valid at a time that the clock
/// shows and bound to this worker.
pub proof fn law_judged_payloads(
    payload: CapabilityPayload,
    worker: WorkerConfig,
    security: SecurityConfig,
    result: Result<CapabilityPayload, Status>,
)
    requires
        is_judged(payload, worker, security, result),
        result is Ok,
    ensures
        result->Ok_0 == payload,
        payload.expires_at_ms is Some,
        payload.worker_id matches Some(id) ==> id@ == worker.worker_id@,
        exists|time: std::time::SystemTime|
            #[trigger] epoch_ms_of(time) matches Ok(now_ms) && now_ms <= payload.expires_at_ms->0
                && (payload.not_before_ms matches Some(start) ==> start <= now_ms),
{
    let time = choose|time: std::time::SystemTime|
        answers(
            result,
            #[trigger] payload_refusal(payload, worker, security, time),
            |verified: CapabilityPayload| verified == payload,
        );
    assert(payload_refusal(payload, worker, security, time) is None);
    assert(epoch_ms_of(time) is Ok);
}

/// An identifier may be used exactly where, without the white space around it, it is not empty, has
/// at most 128 bytes, and is made of ASCII letters, digits and the marks `-`, `_`, `.` and `:`. No
/// identifier at all may be used too.
pub proof fn law_usable_ids(name: Seq<char>, value: Seq<char>)
    ensures
        id_refusal(name, None) is None,
        id_refusal(name, Some(value)) is None <==> {
            &&& trim_of(value).len() > 0
            &&& encode_utf8(trim_of(value)).len() <= 128
            &&& forall|i: int|
                0 <= i < trim_of(value).len() ==> {
                    let c = #[trigger] trim_of(value)[i];
                    ||| 'a' <= c <= 'z'
                    ||| 'A' <= c <= 'Z'
                    ||| '0' <= c <= '9'
                    ||| c == '-'
                    ||| c == '_'
                    ||| c == '.'
                    ||| c == ':'
                }
        },
        id_refusal(name, Some(value)) is None ==> id_refusal(name, Some(trim_of(value))) is None,
{
    let id = trim_of(value);
    crate::text::law_trim(value);
    if id_refusal(name, Some(value)) is None {
        assert forall|i: int| 0 <= i < id.len() implies is_id_char(#[trigger] id[i]) by {
            if !is_id_char(id[i]) {
                assert(exists|i: int| 0 <= i < id.len() && !is_id_char(#[trigger] id[i]));
            }
        }
    }
}

/// A bucket is a plain name: not empty, without a scheme, and without a slash or a backslash.
pub proof fn law_plain_buckets(bucket: Option<Seq<char>>)
    ensures
        bucket is None ==> bucket_refusal(bucket) is None,
        bucket matches Some(name) ==> (bucket_refusal(bucket) is None <==> {
            &&& name.len() > 0
            &&& !has_prefix(name, "s3://"@)
            &&& !has_prefix(name, "s3a://"@)
            &&& !name.contains('/')
            &&& !name.contains('\\')
        }),
        bucket_refusal(bucket) matches Some(status) ==> status.code == Code::PermissionDenied,
{
}

/// A payload lets a client write exactly where it is for writes, its start is not past, it names an
/// output prefix that is not empty, its staging prefix is not empty if it has one, its bucket is a
/// plain name, and its identifiers may be used.
pub proof fn law_granted_puts(payload: CapabilityPayload, now_ms: u64)
    ensures
        put_refusal(payload, now_ms) is None <==> {
            &&& payload.op@ == "put"@
            &&& payload.start_before_ms matches Some(limit) ==> now_ms <= limit
            &&& payload.allowed_output_prefix is Some
            &&& clean_path_of(payload.allowed_output_prefix->0@).len() > 0
            &&& payload.staging_prefix matches Some(prefix) ==> clean_path_of(prefix@).len() > 0
            &&& bucket_refusal(opt_text(payload.bucket)) is None
            &&& id_refusal("operation_id"@, opt_text(payload.operation_id)) is None
            &&& id_refusal("attempt_id"@, opt_text(payload.attempt_id)) is None
            &&& id_refusal("upload_id"@, opt_text(payload.upload_id)) is None
            &&& id_refusal("stream_id"@, opt_text(payload.stream_id)) is None
        },
{
}

/// A payload lets a client read exactly where it is for reads, names a path, its bucket is a plain
/// name, and its operation's identifier may be used.
pub proof fn law_granted_gets(payload: CapabilityPayload)
    ensures
        get_refusal(payload) is None <==> {
            &&& payload.op@ == "get"@
            &&& payload.path is Some
            &&& bucket_refusal(opt_text(payload.bucket)) is None
            &&& id_refusal("operation_id"@, opt_text(payload.operation_id)) is None
        },
{
}

/// What a payload lets a client write is what the coordinator signed: each name without the white
/// space around it under its own place, each prefix in its clean form with one slash behind it, and
/// each limit unchanged.
pub proof fn law_put_capability_is_as_signed(
    payload: CapabilityPayload,
    capability: VerifiedPutCapability,
)
    requires
        is_put_grant(payload, Ok(capability)),
    ensures
        opt_text(capability.bucket) == opt_text(payload.bucket),
        payload.operation_id is Some <==> capability.operation_id is Some,
        payload.operation_id matches Some(id) ==> capability.operation_id->0@ == trim_of(id@),
        payload.attempt_id is Some <==> capability.attempt_id is Some,
        payload.attempt_id matches Some(id) ==> capability.attempt_id->0@ == trim_of(id@),
        payload.upload_id is Some <==> capability.upload_id is Some,
        payload.upload_id matches Some(id) ==> capability.upload_id->0@ == trim_of(id@),
        payload.stream_id is Some <==> capability.stream_id is Some,
        payload.stream_id matches Some(id) ==> capability.stream_id->0@ == trim_of(id@),
        payload.allowed_output_prefix is Some,
        capability.allowed_output_prefix@ == clean_path_of(payload.allowed_output_prefix->0@)
            + "/"@,
        payload.staging_prefix is Some <==> capability.staging_prefix is Some,
        payload.staging_prefix matches Some(prefix) ==> capability.staging_prefix->0@
            == clean_path_of(prefix@) + "/"@,
        capability.max_upload_streams == payload.max_upload_streams,
        capability.max_stream_bytes == payload.max_stream_bytes,
        capability.target_file_size == payload.target_file_size,
        capability.max_record_batch_bytes == payload.max_record_batch_bytes,
        payload.op@ == "put"@,
{
}

/// What a payload lets a client read is what the coordinator signed: the one object of its path,
/// its bucket, the name of its operation without the white space around it, and its limits.
pub proof fn law_get_capability_is_as_signed(
    payload: CapabilityPayload,
    capability: VerifiedGetCapability,
)
    requires
        is_get_capability(payload, capability),
    ensures
        opt_text(capability.bucket) == opt_text(payload.bucket),
        payload.operation_id is Some <==> capability.operation_id is Some,
        payload.operation_id matches Some(id) ==> capability.operation_id->0@ == trim_of(id@),
        payload.path is Some,
        has_suffix(capability.path@, ".parquet"@),
        clean_path_of(payload.path->0@).len() > 0 && has_suffix(
            clean_path_of(payload.path->0@),
            ".parquet"@,
        ) ==> capability.path@ == clean_path_of(payload.path->0@),
        clean_path_of(payload.path->0@).len() > 0 && !has_suffix(
            clean_path_of(payload.path->0@),
            ".parquet"@,
        ) ==> capability.path@ == clean_path_of(payload.path->0@) + ".parquet"@,
        capability.max_batch_rows == payload.max_batch_rows,
        capability.max_record_batch_bytes == payload.max_record_batch_bytes,
{
    let raw = payload.path->0@;
    let id = choose|id: Seq<char>|
        #[trigger] is_uuid_text(id) && capability.path@ == object_key_of(raw, id);
    crate::util::law_object_key_idempotent(raw, id, id);
}

}
