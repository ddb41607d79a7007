//! Tickets for reads.

use vstd::prelude::*;
use vstd::utf8::{decode_utf8, valid_utf8};

use crate::capability::{
    denied, envelope_of, get_refusal, id_of, id_refusal, invalid, is_get_capability,
    is_get_verdict, is_object_key, is_reading, is_verdict, now_ms, parse_capability_envelope,
    validate_optional_id, verify_get_capability, CapabilityEnvelope, CapabilityPayload,
    VerifiedGetCapability,
};
use crate::clock::epoch_ms_of;
use crate::codec::{utf8_error_of, utf8_text};
use crate::config::{AppConfig, SecurityConfig, WorkerConfig};
use crate::number::{at_least, at_most, max_usize, min_u64, min_usize};
use crate::status::{answers, either_refusal, status_of, Code, Status, StatusView};
use crate::text::{opt_text, trim_of};
use crate::util::normalize_object_key;

verus! {

/// What a ticket lets a client read.
#[derive(Clone, Debug)]
pub struct ReadTicket {
    pub key: String,
    pub operation_id: Option<String>,
    pub max_batch_rows: Option<usize>,
    pub max_record_batch_bytes: Option<u64>,
}

/// A ticket in JSON without a signature.
#[derive(Debug)]
pub struct StructuredReadTicket {
    pub path: String,
    pub operation_id: Option<String>,
    pub expires_at_ms: Option<u64>,
}

/// The first byte of a JSON object.
pub const OPENING_BRACE: u8 = 0x7b;

/// Why a ticket that ends at `expires_at_ms` is refused at `now_ms`.
pub open spec fn end_refusal(expires_at_ms: u64, now_ms: u64) -> Option<StatusView> {
    if now_ms > expires_at_ms {
        denied("DoGet ticket has expired"@)
    } else {
        None
    }
}

/// Refuses a ticket after its end.
pub fn check_end(expires_at_ms: u64, now_ms: u64) -> (r: Result<(), Status>)
    ensures
        answers(r, end_refusal(expires_at_ms, now_ms), |unit: ()| true),
{
    if now_ms > expires_at_ms {
        Err(Status::of(Code::PermissionDenied, "DoGet ticket has expired"))
    } else {
        Ok(())
    }
}

/// Why a ticket is refused when the clock shows a time. One without an end is never refused.
pub open spec fn expiry_refusal(
    expires_at_ms: Option<u64>,
    time: std::time::SystemTime,
) -> Option<StatusView> {
    match expires_at_ms {
        None => None,
        Some(expires_at_ms) => match epoch_ms_of(time) {
            Err(words) => Some(status_of(Code::Internal, words)),
            Ok(now_ms) => end_refusal(expires_at_ms, now_ms),
        },
    }
}

/// Refuses a ticket after its end. One without an end is accepted without a look at the clock.
pub fn validate_expiry(expires_at_ms: Option<u64>) -> (r: Result<(), Status>)
    ensures
        exists|time: std::time::SystemTime|
            answers(r, #[trigger] expiry_refusal(expires_at_ms, time), |unit: ()| true),
        expires_at_ms is None ==> r is Ok,
{
    let end: u64 = match expires_at_ms {
        Some(end) => end,
        None => {
            let r = Ok(());
            proof {
                let time: std::time::SystemTime = arbitrary();
                assert(answers(r, expiry_refusal(None, time), |unit: ()| true));
            }
            return r;
        },
    };
    let reading = now_ms();
    let ghost time = choose|time: std::time::SystemTime| #[trigger] is_reading(reading, time);
    let ghost refusal = expiry_refusal(expires_at_ms, time);
    proof {
        assert(is_reading(reading, time));
        assert(refusal == expiry_refusal(expires_at_ms, time));
    }
    let now_ms = match reading {
        Ok(value) => value,
        Err(error) => return Err(error),
    };
    check_end(end, now_ms)
}

/// Whether a value holds what a ticket in JSON lets a client read.
pub open spec fn is_structured_read(ticket: StructuredReadTicket, read: ReadTicket) -> bool {
    &&& is_object_key(ticket.path@, read.key@)
    &&& opt_text(read.operation_id) == id_of(opt_text(ticket.operation_id))
    &&& read.max_batch_rows is None
    &&& read.max_record_batch_bytes is None
}

/// What a ticket in JSON lets a client read.
pub fn read_structured(ticket: &StructuredReadTicket) -> (r: Result<ReadTicket, Status>)
    ensures
        answers(
            r,
            id_refusal("operation_id"@, opt_text(ticket.operation_id)),
            |read: ReadTicket| is_structured_read(*ticket, read),
        ),
{
    let key = normalize_object_key(ticket.path.as_str());
    let operation_id = match validate_optional_id("operation_id", &ticket.operation_id) {
        Ok(value) => value,
        Err(error) => return Err(error),
    };
    Ok(ReadTicket { key, operation_id, max_batch_rows: None, max_record_batch_bytes: None })
}

/// Why a ticket in JSON is refused when the clock shows a time.
pub open spec fn structured_refusal(
    ticket: StructuredReadTicket,
    time: std::time::SystemTime,
) -> Option<StatusView> {
    either_refusal(
        expiry_refusal(ticket.expires_at_ms, time),
        id_refusal("operation_id"@, opt_text(ticket.operation_id)),
    )
}

/// Whether `result` is what a ticket in JSON gives.
pub open spec fn is_structured_verdict(
    ticket: StructuredReadTicket,
    result: Result<ReadTicket, Status>,
) -> bool {
    exists|time: std::time::SystemTime|
        answers(
            result,
            #[trigger] structured_refusal(ticket, time),
            |read: ReadTicket| is_structured_read(ticket, read),
        )
}

/// What a ticket in JSON lets a client read now.
pub fn judge_structured(ticket: &StructuredReadTicket) -> (r: Result<ReadTicket, Status>)
    ensures
        is_structured_verdict(*ticket, r),
{
    let expiry = validate_expiry(ticket.expires_at_ms);
    let ghost time = choose|time: std::time::SystemTime|
        answers(expiry, #[trigger] expiry_refusal(ticket.expires_at_ms, time), |unit: ()| true);
    let ghost refusal = structured_refusal(*ticket, time);
    proof {
        assert(refusal == structured_refusal(*ticket, time));
    }
    match expiry {
        Ok(value) => value,
        Err(error) => return Err(error),
    };
    read_structured(ticket)
}

/// The part of a read that a verified capability fixes.
pub open spec fn is_capability_read(capability: VerifiedGetCapability, read: ReadTicket) -> bool {
    &&& read.key@ == capability.path@
    &&& opt_text(read.operation_id) == opt_text(capability.operation_id)
    &&& read.max_batch_rows == capability.max_batch_rows
    &&& read.max_record_batch_bytes == capability.max_record_batch_bytes
}

/// Whether `result` is what the bytes of a ticket give: a signed capability is verified, and only
/// where none is required do a ticket in JSON and then a plain path count.
pub open spec fn is_ticket_verdict<
    E: Fn(serde_json::Value) -> Result<CapabilityEnvelope, String>,
    P: Fn(Vec<u8>) -> Result<CapabilityPayload, String>,
    T: Fn(&[u8]) -> Result<StructuredReadTicket, String>,
>(
    bytes: &[u8],
    worker: WorkerConfig,
    security: SecurityConfig,
    decode_envelope: E,
    decode_payload: P,
    decode_ticket: T,
    result: Result<ReadTicket, Status>,
) -> bool {
    if bytes@.len() == 0 {
        result matches Err(status) && Some(status@) == invalid("DoGet ticket must not be empty"@)
    } else if envelope_of(bytes@) is Some {
        exists|verdict: Result<VerifiedGetCapability, Status>|
            #[trigger] is_get_verdict(
                envelope_of(bytes@)->0,
                worker,
                security,
                decode_envelope,
                decode_payload,
                verdict,
            ) && match verdict {
                Err(refusal) => result matches Err(status) && status@ == refusal@,
                Ok(capability) => result matches Ok(read) && is_capability_read(capability, read),
            }
    } else if security.require_signed_capabilities {
        result matches Err(status) && Some(status@) == denied(
            "worker requires signed DoGet capability tickets"@,
        )
    } else if bytes@[0] == OPENING_BRACE {
        exists|ticket: Result<StructuredReadTicket, String>|
            #[trigger] decode_ticket.ensures((bytes,), ticket) && match ticket {
                Err(words) => result matches Err(status) && Some(status@) == invalid(
                    "invalid DoGet ticket JSON: "@ + words@,
                ),
                Ok(ticket) => is_structured_verdict(ticket, result),
            }
    } else if worker.require_structured_tickets {
        result matches Err(status) && Some(status@) == denied(
            "worker requires structured DoGet tickets"@,
        )
    } else if !valid_utf8(bytes@) {
        result matches Err(status) && Some(status@) == invalid(
            "DoGet ticket is not utf8: "@ + utf8_error_of(bytes@),
        )
    } else {
        &&& result matches Ok(read)
        &&& is_object_key(decode_utf8(bytes@), read.key@)
        &&& read.operation_id is None
        &&& read.max_batch_rows is None
        &&& read.max_record_batch_bytes is None
    }
}

/// What the bytes of a ticket let a client read.
pub fn parse_read_ticket<
    E: Fn(serde_json::Value) -> Result<CapabilityEnvelope, String>,
    P: Fn(Vec<u8>) -> Result<CapabilityPayload, String>,
    T: Fn(&[u8]) -> Result<StructuredReadTicket, String>,
>(
    bytes: &[u8],
    worker: &WorkerConfig,
    security: &SecurityConfig,
    decode_envelope: &E,
    decode_payload: &P,
    decode_ticket: &T,
) -> (r: Result<ReadTicket, Status>)
    requires
        forall|value: serde_json::Value| decode_envelope.requires((value,)),
        forall|bytes: Vec<u8>| decode_payload.requires((bytes,)),
        forall|bytes: &[u8]| decode_ticket.requires((bytes,)),
    ensures
        is_ticket_verdict(
            bytes,
            *worker,
            *security,
            *decode_envelope,
            *decode_payload,
            *decode_ticket,
            r,
        ),
        security.require_signed_capabilities && r is Ok ==> envelope_of(bytes@) is Some,
{
    if bytes.len() == 0 {
        return Err(Status::of(Code::InvalidArgument, "DoGet ticket must not be empty"));
    }
    if let Some(value) = parse_capability_envelope(bytes) {
        let capability = match verify_get_capability(
            value,
            worker,
            security,
            decode_envelope,
            decode_payload,
        ) {
            Ok(value) => value,
            Err(error) => return Err(error),
        };
        return Ok(
            ReadTicket {
                key: capability.path,
                operation_id: capability.operation_id,
                max_batch_rows: capability.max_batch_rows,
                max_record_batch_bytes: capability.max_record_batch_bytes,
            },
        );
    }
    if security.require_signed_capabilities {
        return Err(
            Status::of(Code::PermissionDenied, "worker requires signed DoGet capability tickets"),
        );
    }
    if bytes[0] == OPENING_BRACE {
        return match decode_ticket(bytes) {
            Ok(ticket) => judge_structured(&ticket),
            Err(error) => {
                let mut message = "invalid DoGet ticket JSON: ".to_owned();
                message.append(error.as_str());
                Err(Status::new(Code::InvalidArgument, message))
            },
        };
    }
    if worker.require_structured_tickets {
        return Err(Status::of(Code::PermissionDenied, "worker requires structured DoGet tickets"));
    }
    match utf8_text(bytes) {
        Ok(raw) => Ok(
            ReadTicket {
                key: normalize_object_key(raw.as_str()),
                operation_id: None,
                max_batch_rows: None,
                max_record_batch_bytes: None,
            },
        ),
        Err(error) => {
            let mut message = "DoGet ticket is not utf8: ".to_owned();
            message.append(error.as_str());
            Err(Status::new(Code::InvalidArgument, message))
        },
    }
}

/// How many rows a batch of a read may have: the batch size of the worker, and no more than its
/// limit and the ticket's, but at least one.
pub open spec fn batch_rows_of(config: AppConfig, ticket: ReadTicket) -> int {
    let most = at_most(
        config.read_batch_size as int,
        config.resources.read_max_batch_rows as int,
    );
    at_least(
        match ticket.max_batch_rows {
            Some(rows) => at_most(rows as int, most),
            None => most,
        },
        1,
    )
}

/// How many rows a batch of a read may have.
pub fn batch_rows(config: &AppConfig, ticket: &ReadTicket) -> (r: usize)
    ensures
        r == batch_rows_of(*config, *ticket),
{
    let most: usize = min_usize(config.read_batch_size, config.resources.read_max_batch_rows);
    let rows: usize = match ticket.max_batch_rows {
        Some(rows) => min_usize(rows, most),
        None => most,
    };
    max_usize(rows, 1)
}

/// The size at which the batches of a read are cut before they are sent: that of the worker's
/// messages, and no more than its limit for a batch and the ticket's, but at least one byte.
pub open spec fn chunk_bytes_of(config: AppConfig, ticket: ReadTicket) -> int {
    let most = at_most(
        config.flight_data_chunk_size as int,
        config.resources.read_max_record_batch_bytes as int,
    );
    at_least(
        match ticket.max_record_batch_bytes {
            Some(bytes) => at_most(bytes as int, most),
            None => most,
        },
        1,
    )
}

/// The size at which the batches of a read are cut before they are sent.
pub fn chunk_bytes(config: &AppConfig, ticket: &ReadTicket) -> (r: usize)
    ensures
        r == chunk_bytes_of(*config, *ticket),
{
    let most: u64 = min_u64(
        config.flight_data_chunk_size as u64,
        config.resources.read_max_record_batch_bytes,
    );
    let bytes: u64 = match ticket.max_record_batch_bytes {
        Some(bytes) => min_u64(bytes, most),
        None => most,
    };
    max_usize(bytes as usize, 1)
}

// ---------------------------------------------------------------------------
// Laws

/// The batches of a read never have more rows than the batch size of the worker, where that is at
/// least one, than its limit, or than the ticket's, and have exactly the batch size where neither
/// limit is smaller. They always have at least one row, and as many as the least of the three.
pub proof fn law_batch_rows(config: AppConfig, ticket: ReadTicket)
    ensures
        ({
            let rows = batch_rows_of(config, ticket);
            let size = config.read_batch_size;
            let most = config.resources.read_max_batch_rows;
            &&& rows >= 1
            &&& rows <= size || rows == 1
            &&& rows <= most || rows == 1
            &&& ticket.max_batch_rows matches Some(asked) ==> rows <= asked || rows == 1
            &&& size >= 1 && size <= most && (ticket.max_batch_rows matches Some(asked) ==> size
                <= asked) ==> rows == size
            &&& most >= 1 && most <= size && (ticket.max_batch_rows matches Some(asked) ==> most
                <= asked) ==> rows == most
            &&& ticket.max_batch_rows matches Some(asked) ==> (1 <= asked && asked <= size && asked
                <= most ==> rows == asked)
        }),
{
}

/// The batches of a read are never cut larger than the worker's messages, its limit for a batch, or
/// the ticket's limit, but at one byte or more; they are cut at the least of the three.
pub proof fn law_chunk_bytes(config: AppConfig, ticket: ReadTicket)
    ensures
        ({
            let bytes = chunk_bytes_of(config, ticket);
            let size = config.flight_data_chunk_size;
            let most = config.resources.read_max_record_batch_bytes;
            &&& bytes >= 1
            &&& bytes <= size || bytes == 1
            &&& bytes <= most || bytes == 1
            &&& ticket.max_record_batch_bytes matches Some(asked) ==> bytes <= asked || bytes == 1
            &&& size >= 1 && size <= most && (ticket.max_record_batch_bytes matches Some(asked)
                ==> size <= asked) ==> bytes == size
            &&& most >= 1 && most <= size && (ticket.max_record_batch_bytes matches Some(asked)
                ==> most <= asked) ==> bytes == most
            &&& ticket.max_record_batch_bytes matches Some(asked) ==> (1 <= asked && asked <= size
                && asked <= most ==> bytes == asked)
        }),
{
}

/// A ticket with an end is good up to and with its last millisecond, and refused after it for want
/// of permission.
pub proof fn law_ticket_end(expires_at_ms: u64, now_ms: u64)
    ensures
        end_refusal(expires_at_ms, now_ms) is None <==> now_ms <= expires_at_ms,
        end_refusal(expires_at_ms, now_ms) matches Some(status) ==> status.code
            == Code::PermissionDenied,
{
}

/// A ticket in JSON lets a client read the object of its path under the name of its operation,
/// without the white space around it, and without limits of its own. It is accepted only before its
/// end, if it has one, at a time that the clock shows.
pub proof fn law_structured_reads(ticket: StructuredReadTicket, read: ReadTicket)
    requires
        is_structured_verdict(ticket, Ok(read)),
    ensures
        is_object_key(ticket.path@, read.key@),
        ticket.operation_id is Some <==> read.operation_id is Some,
        ticket.operation_id matches Some(id) ==> read.operation_id->0@ == trim_of(id@),
        read.max_batch_rows is None,
        read.max_record_batch_bytes is None,
        ticket.expires_at_ms matches Some(end) ==> exists|time: std::time::SystemTime|
            #[trigger] epoch_ms_of(time) matches Ok(now_ms) && now_ms <= end,
{
    let time = choose|time: std::time::SystemTime|
        answers(
            Ok::<ReadTicket, Status>(read),
            #[trigger] structured_refusal(ticket, time),
            |read: ReadTicket| is_structured_read(ticket, read),
        );
    assert(structured_refusal(ticket, time) is None);
    if ticket.expires_at_ms is Some {
        assert(epoch_ms_of(time) is Ok);
    }
}

/// A signed ticket lets a client read what the coordinator signed: the one object of the payload's
/// path, under the name of its operation without the white space around it, with its limits. Where
/// the worker requires signatures, every read that it accepts is so signed.
pub proof fn law_signed_reads<
    E: Fn(serde_json::Value) -> Result<CapabilityEnvelope, String>,
    P: Fn(Vec<u8>) -> Result<CapabilityPayload, String>,
    T: Fn(&[u8]) -> Result<StructuredReadTicket, String>,
>(
    bytes: &[u8],
    worker: WorkerConfig,
    security: SecurityConfig,
    decode_envelope: E,
    decode_payload: P,
    decode_ticket: T,
    read: ReadTicket,
)
    requires
        is_ticket_verdict(
            bytes,
            worker,
            security,
            decode_envelope,
            decode_payload,
            decode_ticket,
            Ok(read),
        ),
        security.require_signed_capabilities || envelope_of(bytes@) is Some,
    ensures
        envelope_of(bytes@) is Some,
        exists|payload: CapabilityPayload|
            {
                &&& #[trigger] is_verdict(
                    envelope_of(bytes@)->0,
                    worker,
                    security,
                    decode_envelope,
                    decode_payload,
                    Ok(payload),
                )
                &&& payload.op@ == "get"@
                &&& payload.path is Some && is_object_key(payload.path->0@, read.key@)
                &&& payload.operation_id is Some <==> read.operation_id is Some
                &&& payload.operation_id matches Some(id) ==> read.operation_id->0@ == trim_of(id@)
                &&& read.max_batch_rows == payload.max_batch_rows
                &&& read.max_record_batch_bytes == payload.max_record_batch_bytes
            },
{
    let value = envelope_of(bytes@)->0;
    let granted = choose|verdict: Result<VerifiedGetCapability, Status>|
        #[trigger] is_get_verdict(
            value,
            worker,
            security,
            decode_envelope,
            decode_payload,
            verdict,
        ) && match verdict {
            Err(refusal) => Ok::<ReadTicket, Status>(read) matches Err(status) && status@
                == refusal@,
            Ok(capability) => Ok::<ReadTicket, Status>(read) matches Ok(read)
                && is_capability_read(capability, read),
        };
    assert(granted is Ok);
    let verdict = choose|verdict: Result<CapabilityPayload, Status>|
        #[trigger] is_verdict(value, worker, security, decode_envelope, decode_payload, verdict)
            && match verdict {
            Err(refusal) => granted matches Err(status) && status@ == refusal@,
            Ok(payload) => answers(
                granted,
                get_refusal(payload),
                |capability: VerifiedGetCapability| is_get_capability(payload, capability),
            ),
        };
    assert(verdict is Ok);
    let payload = verdict->Ok_0;
    assert(is_verdict(
        value,
        worker,
        security,
        decode_envelope,
        decode_payload,
        Ok(payload),
    ));
}

/// A read without a signature is accepted only where the worker requires none. A bare path is a
/// ticket only where the worker does not require tickets in JSON either, and lets a client read the
/// object of that path, under no operation and without limits of its own.
pub proof fn law_unsigned_reads<
    E: Fn(serde_json::Value) -> Result<CapabilityEnvelope, String>,
    P: Fn(Vec<u8>) -> Result<CapabilityPayload, String>,
    T: Fn(&[u8]) -> Result<StructuredReadTicket, String>,
>(
    bytes: &[u8],
    worker: WorkerConfig,
    security: SecurityConfig,
    decode_envelope: E,
    decode_payload: P,
    decode_ticket: T,
    read: ReadTicket,
)
    requires
        is_ticket_verdict(
            bytes,
            worker,
            security,
            decode_envelope,
            decode_payload,
            decode_ticket,
            Ok(read),
        ),
        envelope_of(bytes@) is None,
    ensures
        bytes@.len() > 0,
        !security.require_signed_capabilities,
        bytes@[0] == 0x7b ==> exists|ticket: StructuredReadTicket|
            #[trigger] decode_ticket.ensures((bytes,), Ok(ticket)) && is_object_key(
                ticket.path@,
                read.key@,
            ),
        bytes@[0] != 0x7b ==> {
            &&& !worker.require_structured_tickets
            &&& valid_utf8(bytes@)
            &&& is_object_key(decode_utf8(bytes@), read.key@)
            &&& read.operation_id is None
            &&& read.max_batch_rows is None
            &&& read.max_record_batch_bytes is None
        },
{
    if bytes@[0] == 0x7b {
        let result = Ok::<ReadTicket, Status>(read);
        let decoded = choose|ticket: Result<StructuredReadTicket, String>|
            #[trigger] decode_ticket.ensures((bytes,), ticket) && match ticket {
                Err(words) => result matches Err(status) && Some(status@) == invalid(
                    "invalid DoGet ticket JSON: "@ + words@,
                ),
                Ok(ticket) => is_structured_verdict(ticket, result),
            };
        assert(decoded is Ok);
        law_structured_reads(decoded->Ok_0, read);
        assert(decode_ticket.ensures((bytes,), Ok(decoded->Ok_0)));
    }
}

}
