//! Writes under a signed capability: they keep to its prefix and its limits.

use vstd::prelude::*;

use crate::capability::{
    denied, is_put_grant, is_put_verdict, is_verdict, verify_put_capability, CapabilityEnvelope,
    CapabilityPayload, VerifiedPutCapability,
};
use crate::config::AppConfig;
use crate::flight_service::{
    arrival_refusal, brought_since, context_refusal, is_context, min_optional, min_optional_u64,
    WorkerFlightService,
};
use crate::number::{at_least, at_most, min_u64, min_usize};
use crate::path::clean_path_of;
use crate::put_model::{PutContext, PutOptions};
use crate::status::{answers, either_refusal, Code, Status, StatusView};
use crate::text::{copy_opt, has_prefix, opt_text, starts_with, trim_of};
use crate::util::{is_uuid_text, new_uuid, quoted, quoted_of};

verus! {

// ---------------------------------------------------------------------------
// Options

/// The text of a capability, or else the client's.
pub open spec fn preferred_of(
    granted: Option<Seq<char>>,
    wanted: Option<Seq<char>>,
) -> Option<Seq<char>> {
    if granted is Some {
        granted
    } else {
        wanted
    }
}

fn preferred(granted: &Option<String>, wanted: Option<String>) -> (r: Option<String>)
    ensures
        opt_text(r) == preferred_of(opt_text(*granted), opt_text(wanted)),
{
    if granted.is_some() {
        copy_opt(granted)
    } else {
        wanted
    }
}

/// A byte limit that counts: zero is none.
pub open spec fn positive_of(bytes: Option<u64>) -> Option<u64> {
    if bytes == Some(0u64) {
        None
    } else {
        bytes
    }
}

fn positive(bytes: Option<u64>) -> (r: Option<u64>)
    ensures
        r == positive_of(bytes),
{
    match bytes {
        Some(bytes) => if bytes > 0 {
            Some(bytes)
        } else {
            None
        },
        None => None,
    }
}

/// The smaller of two stream counts that need not be there.
pub open spec fn fewer_of(left: Option<usize>, right: Option<usize>) -> Option<usize> {
    match (left, right) {
        (Some(left), Some(right)) => Some(at_most(left as int, right as int) as usize),
        (Some(count), None) => Some(count),
        (None, right) => right,
    }
}

fn fewer(left: Option<usize>, right: Option<usize>) -> (r: Option<usize>)
    ensures
        r == fewer_of(left, right),
{
    match (left, right) {
        (Some(left), Some(right)) => Some(min_usize(left, right)),
        (Some(count), None) => Some(count),
        (None, right) => right,
    }
}

/// Whether `confined` holds the client's options within a capability: its names and its file size
/// go before the client's, and of two limits the smaller counts.
pub open spec fn is_confined(
    options: PutOptions,
    granted: VerifiedPutCapability,
    confined: PutOptions,
) -> bool {
    &&& confined.capability is None
    &&& opt_text(confined.attempt_id) == preferred_of(
        opt_text(granted.attempt_id),
        opt_text(options.attempt_id),
    )
    &&& opt_text(confined.upload_id) == preferred_of(
        opt_text(granted.upload_id),
        opt_text(options.upload_id),
    )
    &&& opt_text(confined.stream_id) == preferred_of(
        opt_text(granted.stream_id),
        opt_text(options.stream_id),
    )
    &&& opt_text(confined.staging_prefix) == preferred_of(
        opt_text(granted.staging_prefix),
        opt_text(options.staging_prefix),
    )
    &&& confined.max_upload_streams == fewer_of(
        granted.max_upload_streams,
        options.max_upload_streams,
    )
    &&& confined.max_stream_bytes == min_optional(
        positive_of(granted.max_stream_bytes),
        positive_of(options.max_stream_bytes),
    )
    &&& confined.target_file_size == (if granted.target_file_size is Some {
        granted.target_file_size
    } else {
        options.target_file_size
    })
    &&& confined.input_file_bytes == options.input_file_bytes
    &&& confined.profile == options.profile
}

/// The client's options within a capability.
pub fn confine_options(options: PutOptions, granted: &VerifiedPutCapability) -> (r: PutOptions)
    ensures
        is_confined(options, *granted, r),
{
    PutOptions {
        capability: None,
        attempt_id: preferred(&granted.attempt_id, options.attempt_id),
        upload_id: preferred(&granted.upload_id, options.upload_id),
        stream_id: preferred(&granted.stream_id, options.stream_id),
        staging_prefix: preferred(&granted.staging_prefix, options.staging_prefix),
        max_upload_streams: fewer(granted.max_upload_streams, options.max_upload_streams),
        max_stream_bytes: min_optional_u64(
            positive(granted.max_stream_bytes),
            positive(options.max_stream_bytes),
        ),
        target_file_size: if granted.target_file_size.is_some() {
            granted.target_file_size
        } else {
            options.target_file_size
        },
        input_file_bytes: options.input_file_bytes,
        profile: options.profile,
    }
}

// ---------------------------------------------------------------------------
// Contexts

/// Why a key is refused under a capability: it lies outside the capability's prefix.
pub open spec fn output_key_refusal(
    key: Seq<char>,
    granted: VerifiedPutCapability,
) -> Option<StatusView> {
    let prefix = granted.allowed_output_prefix@;
    if has_prefix(key, prefix) {
        None
    } else {
        denied(
            "DoPut key "@ + quoted_of(key) + " is outside allowed_output_prefix "@ + quoted_of(
                prefix,
            ),
        )
    }
}

/// Whether a context is that of a write under a capability.
pub open spec fn is_granted_context(
    confined: PutOptions,
    granted: VerifiedPutCapability,
    config: AppConfig,
    fresh_id: Seq<char>,
    context: PutContext,
) -> bool {
    let most = config.resources.put_max_record_batch_bytes;
    &&& is_context(
        confined,
        config,
        fresh_id,
        PutContext { operation_id: None, max_record_batch_bytes: most, ..context },
    )
    &&& opt_text(context.operation_id) == opt_text(granted.operation_id)
    &&& context.max_record_batch_bytes == (match granted.max_record_batch_bytes {
        Some(bytes) => at_most(bytes as int, most as int),
        None => most as int,
    })
}

/// Whether `result` is the options and the context of a write under a capability.
pub open spec fn is_granted_write(
    config: AppConfig,
    key: Seq<char>,
    options: PutOptions,
    granted: VerifiedPutCapability,
    fresh_id: Seq<char>,
    result: Result<(PutOptions, PutContext), Status>,
) -> bool {
    exists|confined: PutOptions|
        #[trigger] is_confined(options, granted, confined) && answers(
            result,
            either_refusal(
                output_key_refusal(key, granted),
                context_refusal(key, confined, config),
            ),
            |write: (PutOptions, PutContext)|
                write.0 == confined && is_granted_context(
                    confined,
                    granted,
                    config,
                    fresh_id,
                    write.1,
                ),
        )
}

/// Whether `result` is the options and the context of a write without a capability.
pub open spec fn is_plain_write(
    config: AppConfig,
    key: Seq<char>,
    options: PutOptions,
    fresh_id: Seq<char>,
    result: Result<(PutOptions, PutContext), Status>,
) -> bool {
    answers(
        result,
        context_refusal(key, options, config),
        |write: (PutOptions, PutContext)|
            write.0 == options && is_context(options, config, fresh_id, write.1),
    )
}

/// Whether `result` is the options and the context of a write that a client asks for: with a
/// capability it is verified, and without one the worker must not require any.
pub open spec fn is_authorized_write<
    E: Fn(serde_json::Value) -> Result<CapabilityEnvelope, String>,
    P: Fn(Vec<u8>) -> Result<CapabilityPayload, String>,
>(
    config: AppConfig,
    key: Seq<char>,
    options: PutOptions,
    decode_envelope: E,
    decode_payload: P,
    result: Result<(PutOptions, PutContext), Status>,
) -> bool {
    match options.capability {
        Some(value) => exists|verdict: Result<VerifiedPutCapability, Status>|
            #[trigger] is_put_verdict(
                value,
                config.worker,
                config.security,
                decode_envelope,
                decode_payload,
                verdict,
            ) && match verdict {
                Err(refusal) => result matches Err(status) && status@ == refusal@,
                Ok(granted) => exists|fresh_id: Seq<char>|
                    #[trigger] is_uuid_text(fresh_id) && is_granted_write(
                        config,
                        key,
                        options,
                        granted,
                        fresh_id,
                        result,
                    ),
            },
        None => if config.security.require_signed_capabilities {
            result matches Err(status) && Some(status@) == denied(
                "worker requires signed DoPut capabilities"@,
            )
        } else {
            exists|fresh_id: Seq<char>|
                #[trigger] is_uuid_text(fresh_id) && is_plain_write(
                    config,
                    key,
                    options,
                    fresh_id,
                    result,
                )
        },
    }
}

impl WorkerFlightService {
    /// The options and the context of a write under a capability. The identifier stands for an
    /// attempt that has none.
    pub fn grant_write(
        &self,
        key: &str,
        options: PutOptions,
        granted: &VerifiedPutCapability,
        fresh_id: String,
    ) -> (r: Result<(PutOptions, PutContext), Status>)
        ensures
            is_granted_write(self.config, key@, options, *granted, fresh_id@, r),
    {
        let confined = confine_options(options, granted);
        proof {
            assert(is_confined(options, *granted, confined));
        }
        if !starts_with(key, granted.allowed_output_prefix.as_str()) {
            let mut message = "DoPut key ".to_owned();
            message.append(quoted(key).as_str());
            message.append(" is outside allowed_output_prefix ");
            message.append(quoted(granted.allowed_output_prefix.as_str()).as_str());
            return Err(Status::new(Code::PermissionDenied, message));
        }
        let context = match self.put_context(key, &confined, fresh_id) {
            Ok(value) => value,
            Err(error) => return Err(error),
        };
        let most: u64 = self.config.resources.put_max_record_batch_bytes;
        let max_record_batch_bytes: u64 = match granted.max_record_batch_bytes {
            Some(bytes) => min_u64(bytes, most),
            None => most,
        };
        let operation_id = copy_opt(&granted.operation_id);
        let context = PutContext {
            operation_id,
            attempt_id: context.attempt_id,
            upload_id: context.upload_id,
            stream_id: context.stream_id,
            staging_prefix: context.staging_prefix,
            target_file_size: context.target_file_size,
            upload_stream_limit: context.upload_stream_limit,
            stream_budget_bytes: context.stream_budget_bytes,
            max_record_batch_bytes,
        };
        Ok((confined, context))
    }

    /// The options and the context of a write that a client asks for.
    pub fn authorize_write<
        E: Fn(serde_json::Value) -> Result<CapabilityEnvelope, String>,
        P: Fn(Vec<u8>) -> Result<CapabilityPayload, String>,
    >(&self, key: &str, options: PutOptions, decode_envelope: &E, decode_payload: &P) -> (r: Result<
        (PutOptions, PutContext),
        Status,
    >)
        requires
            forall|value: serde_json::Value| decode_envelope.requires((value,)),
            forall|bytes: Vec<u8>| decode_payload.requires((bytes,)),
        ensures
            is_authorized_write(
                self.config,
                key@,
                options,
                *decode_envelope,
                *decode_payload,
                r,
            ),
            self.config.security.require_signed_capabilities && r is Ok ==> options.capability
                is Some,
    {
        let PutOptions {
            capability,
            attempt_id,
            upload_id,
            stream_id,
            staging_prefix,
            max_upload_streams,
            max_stream_bytes,
            target_file_size,
            input_file_bytes,
            profile,
        } = options;
        let plain = PutOptions {
            capability: None,
            attempt_id,
            upload_id,
            stream_id,
            staging_prefix,
            max_upload_streams,
            max_stream_bytes,
            target_file_size,
            input_file_bytes,
            profile,
        };
        let fresh_id = new_uuid();
        let ghost name = fresh_id@;
        proof {
            assert(is_uuid_text(name));
        }
        match capability {
            Some(value) => {
                let granted = match verify_put_capability(
                    value,
                    &self.config.worker,
                    &self.config.security,
                    decode_envelope,
                    decode_payload,
                ) {
                    Ok(granted) => granted,
                    Err(status) => return Err(status),
                };
                let write = self.grant_write(key, plain, &granted, fresh_id);
                proof {
                    let confined = choose|confined: PutOptions|
                        #[trigger] is_confined(plain, granted, confined) && answers(
                            write,
                            either_refusal(
                                output_key_refusal(key@, granted),
                                context_refusal(key@, confined, self.config),
                            ),
                            |write: (PutOptions, PutContext)|
                                write.0 == confined && is_granted_context(
                                    confined,
                                    granted,
                                    self.config,
                                    name,
                                    write.1,
                                ),
                        );
                    assert(is_confined(options, granted, confined));
                    assert(is_granted_write(self.config, key@, options, granted, name, write));
                }
                write
            },
            None => {
                if self.config.security.require_signed_capabilities {
                    return Err(
                        Status::of(
                            Code::PermissionDenied,
                            "worker requires signed DoPut capabilities",
                        ),
                    );
                }
                match self.put_context(key, &plain, fresh_id) {
                    Ok(context) => Ok((plain, context)),
                    Err(status) => Err(status),
                }
            },
        }
    }
}

/// A write under a capability has its prefix and its limits: the key lies under the prefix, and
/// neither the limit of the stream's bytes, nor that of a batch's, nor that of the upload's streams
/// exceeds what the capability allows.
pub proof fn law_granted_write_is_limited(
    config: AppConfig,
    key: Seq<char>,
    options: PutOptions,
    granted: VerifiedPutCapability,
    fresh_id: Seq<char>,
    write: (PutOptions, PutContext),
)
    requires
        is_granted_write(config, key, options, granted, fresh_id, Ok(write)),
    ensures
        has_prefix(key, granted.allowed_output_prefix@),
        match positive_of(granted.max_stream_bytes) {
            Some(bytes) => write.1.stream_budget_bytes is Some
                && write.1.stream_budget_bytes->0 <= bytes,
            None => true,
        },
        match granted.max_record_batch_bytes {
            Some(bytes) => write.1.max_record_batch_bytes <= bytes,
            None => true,
        },
        match (granted.max_upload_streams, write.1.upload_stream_limit) {
            (Some(most), Some(limit)) => limit <= at_least(most as int, 1),
            _ => true,
        },
        opt_text(write.1.operation_id) == opt_text(granted.operation_id),
{
}

/// Every batch that is taken from a write under a capability keeps to it: the stream has brought no
/// more bytes than the capability allows to it, and the batch came in no more than it allows to a
/// batch.
pub proof fn law_granted_batch_is_limited(
    config: AppConfig,
    key: Seq<char>,
    options: PutOptions,
    granted: VerifiedPutCapability,
    fresh_id: Seq<char>,
    write: (PutOptions, PutContext),
    before: u64,
    seen: u64,
)
    requires
        is_granted_write(config, key, options, granted, fresh_id, Ok(write)),
        arrival_refusal(write.1, before, seen) is None,
    ensures
        match positive_of(granted.max_stream_bytes) {
            Some(bytes) => seen <= bytes,
            None => true,
        },
        match granted.max_record_batch_bytes {
            Some(bytes) => brought_since(before, seen) <= bytes,
            None => true,
        },
        brought_since(before, seen) <= config.resources.put_max_record_batch_bytes,
{
    law_granted_write_is_limited(config, key, options, granted, fresh_id, write);
}

/// Whether a write runs under the names that a payload was signed with: each that the payload
/// names, without the white space around it, and its own staging prefix in its clean form.
pub open spec fn runs_as_signed(payload: CapabilityPayload, context: PutContext) -> bool {
    &&& payload.upload_id matches Some(id) ==> context.upload_id is Some
        && context.upload_id->0@ == trim_of(id@)
    &&& payload.stream_id matches Some(id) ==> context.stream_id is Some
        && context.stream_id->0@ == trim_of(id@)
    &&& payload.attempt_id matches Some(id) ==> context.attempt_id@ == trim_of(id@)
    &&& payload.operation_id is Some <==> context.operation_id is Some
    &&& payload.operation_id matches Some(id) ==> context.operation_id->0@ == trim_of(id@)
    &&& payload.staging_prefix matches Some(prefix) ==> context.staging_prefix is Some
        && context.staging_prefix->0@ == clean_path_of(prefix@) + "/"@
    &&& payload.target_file_size is Some ==> context.target_file_size == payload.target_file_size
}

/// Whether a write keeps to the limits of a payload, of its client and of its worker: none is
/// exceeded by the bytes of the stream, the bytes of a batch, or the streams of its upload.
pub open spec fn keeps_to_limits(
    payload: CapabilityPayload,
    options: PutOptions,
    config: AppConfig,
    context: PutContext,
) -> bool {
    &&& payload.max_stream_bytes matches Some(bytes) ==> bytes > 0
        ==> context.stream_budget_bytes is Some && context.stream_budget_bytes->0 <= bytes
    &&& options.max_stream_bytes matches Some(bytes) ==> bytes > 0
        ==> context.stream_budget_bytes is Some && context.stream_budget_bytes->0 <= bytes
    &&& config.worker.max_put_stream_bytes matches Some(bytes) ==> context.stream_budget_bytes
        is Some && context.stream_budget_bytes->0 <= bytes
    &&& payload.max_record_batch_bytes matches Some(bytes) ==> context.max_record_batch_bytes
        <= bytes
    &&& context.max_record_batch_bytes <= config.resources.put_max_record_batch_bytes
    &&& context.upload_stream_limit matches Some(limit) ==> {
        &&& limit >= 1
        &&& limit <= config.worker.max_put_streams_per_upload || limit == 1
        &&& payload.max_upload_streams matches Some(most) ==> limit <= most || limit == 1
        &&& options.max_upload_streams matches Some(most) ==> limit <= most || limit == 1
    }
}

/// The upload of a granted write is the one that the coordinator signed, and so are its stream, its
/// attempt, its operation, its staging prefix and its file size; names that the coordinator left
/// open are the client's. Its key lies under the prefix that was signed, and it keeps to every
/// limit.
pub proof fn law_granted_write_is_as_signed(
    payload: CapabilityPayload,
    config: AppConfig,
    key: Seq<char>,
    options: PutOptions,
    granted: VerifiedPutCapability,
    fresh_id: Seq<char>,
    write: (PutOptions, PutContext),
)
    requires
        is_put_grant(payload, Ok(granted)),
        is_granted_write(config, key, options, granted, fresh_id, Ok(write)),
    ensures
        runs_as_signed(payload, write.1),
        keeps_to_limits(payload, options, config, write.1),
        payload.allowed_output_prefix matches Some(prefix) && has_prefix(
            key,
            clean_path_of(prefix@) + "/"@,
        ),
        payload.upload_id is None ==> (options.upload_id is Some <==> write.1.upload_id is Some),
        payload.upload_id is None && options.upload_id is Some ==> write.1.upload_id->0@ == trim_of(
            options.upload_id->0@,
        ),
        payload.stream_id is None ==> (options.stream_id is Some <==> write.1.stream_id is Some),
        payload.stream_id is None && options.stream_id is Some ==> write.1.stream_id->0@ == trim_of(
            options.stream_id->0@,
        ),
        payload.attempt_id is None ==> write.1.attempt_id@ == (match options.attempt_id {
            Some(id) => trim_of(id@),
            None => fresh_id,
        }),
        payload.staging_prefix is None ==> (options.staging_prefix is Some
            <==> write.1.staging_prefix is Some),
        payload.target_file_size is None ==> write.1.target_file_size == options.target_file_size,
        write.0.profile == options.profile,
        write.0.input_file_bytes == options.input_file_bytes,
{
    crate::capability::law_put_capability_is_as_signed(payload, granted);
    if let Some(id) = payload.upload_id {
        crate::text::law_trim(id@);
    }
    if let Some(id) = payload.stream_id {
        crate::text::law_trim(id@);
    }
    if let Some(id) = payload.attempt_id {
        crate::text::law_trim(id@);
    }
    if let Some(prefix) = payload.staging_prefix {
        crate::capability::law_prefix_idempotent(prefix@);
    }
}

/// Every write that comes with a capability and is accepted runs under the names that the
/// coordinator signed into the envelope, under the prefix that it signed, and within every limit.
pub proof fn law_authorized_write_is_as_signed<
    E: Fn(serde_json::Value) -> Result<CapabilityEnvelope, String>,
    P: Fn(Vec<u8>) -> Result<CapabilityPayload, String>,
>(
    config: AppConfig,
    key: Seq<char>,
    options: PutOptions,
    decode_envelope: E,
    decode_payload: P,
    write: (PutOptions, PutContext),
)
    requires
        options.capability is Some,
        is_authorized_write(config, key, options, decode_envelope, decode_payload, Ok(write)),
    ensures
        exists|payload: CapabilityPayload|
            {
                &&& #[trigger] is_verdict(
                    options.capability->0,
                    config.worker,
                    config.security,
                    decode_envelope,
                    decode_payload,
                    Ok(payload),
                )
                &&& payload.op@ == "put"@
                &&& runs_as_signed(payload, write.1)
                &&& keeps_to_limits(payload, options, config, write.1)
                &&& payload.allowed_output_prefix is Some
                &&& has_prefix(
                    key,
                    clean_path_of(payload.allowed_output_prefix->0@) + "/"@,
                )
            },
{
    let value = options.capability->0;
    let result = Ok::<(PutOptions, PutContext), Status>(write);
    let verdict = choose|verdict: Result<VerifiedPutCapability, Status>|
        #[trigger] is_put_verdict(
            value,
            config.worker,
            config.security,
            decode_envelope,
            decode_payload,
            verdict,
        ) && match verdict {
            Err(refusal) => result matches Err(status) && status@ == refusal@,
            Ok(granted) => exists|fresh_id: Seq<char>|
                #[trigger] is_uuid_text(fresh_id) && is_granted_write(
                    config,
                    key,
                    options,
                    granted,
                    fresh_id,
                    result,
                ),
        };
    assert(verdict is Ok);
    let granted = verdict->Ok_0;
    let fresh_id = choose|fresh_id: Seq<char>|
        #[trigger] is_uuid_text(fresh_id) && is_granted_write(
            config,
            key,
            options,
            granted,
            fresh_id,
            result,
        );
    let signed = choose|signed: Result<CapabilityPayload, Status>|
        #[trigger] is_verdict(
            value,
            config.worker,
            config.security,
            decode_envelope,
            decode_payload,
            signed,
        ) && match signed {
            Err(refusal) => verdict matches Err(status) && status@ == refusal@,
            Ok(payload) => is_put_grant(payload, verdict),
        };
    assert(signed is Ok);
    let payload = signed->Ok_0;
    law_granted_write_is_as_signed(payload, config, key, options, granted, fresh_id, write);
    crate::capability::law_put_capability_is_as_signed(payload, granted);
    assert(is_verdict(
        value,
        config.worker,
        config.security,
        decode_envelope,
        decode_payload,
        Ok(payload),
    ));
}

/// A write without a capability is accepted only where the worker requires none, and keeps to the
/// client's options and to the limits of the worker.
pub proof fn law_unsigned_writes<
    E: Fn(serde_json::Value) -> Result<CapabilityEnvelope, String>,
    P: Fn(Vec<u8>) -> Result<CapabilityPayload, String>,
>(
    config: AppConfig,
    key: Seq<char>,
    options: PutOptions,
    decode_envelope: E,
    decode_payload: P,
    write: (PutOptions, PutContext),
)
    requires
        options.capability is None,
        is_authorized_write(config, key, options, decode_envelope, decode_payload, Ok(write)),
    ensures
        !config.security.require_signed_capabilities,
        write.0 == options,
        write.1.operation_id is None,
        opt_text(write.1.upload_id) is Some <==> options.upload_id is Some,
        options.upload_id matches Some(id) ==> write.1.upload_id->0@ == trim_of(id@),
        options.stream_id matches Some(id) ==> write.1.stream_id is Some
            && write.1.stream_id->0@ == trim_of(id@),
        options.attempt_id matches Some(id) ==> write.1.attempt_id@ == trim_of(id@),
        write.1.upload_stream_limit matches Some(limit) ==> limit
            <= config.worker.max_put_streams_per_upload || limit == 1,
        config.worker.max_put_stream_bytes matches Some(most) ==> write.1.stream_budget_bytes
            is Some && write.1.stream_budget_bytes->0 <= most,
        write.1.max_record_batch_bytes == config.resources.put_max_record_batch_bytes,
        config.worker.require_staging_prefix ==> options.staging_prefix is Some,
        options.staging_prefix matches Some(prefix) ==> has_prefix(
            key,
            clean_path_of(prefix@) + "/"@,
        ),
{
    let result = Ok::<(PutOptions, PutContext), Status>(write);
    let fresh_id = choose|fresh_id: Seq<char>|
        #[trigger] is_uuid_text(fresh_id) && is_plain_write(
            config,
            key,
            options,
            fresh_id,
            result,
        );
    assert(is_plain_write(config, key, options, fresh_id, result));
}

}
