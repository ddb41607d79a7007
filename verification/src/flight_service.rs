//! The Flight service of a worker: admission, limits and answers.

use vstd::prelude::*;

use crate::admission::{
    active_of, admitted, released, upload_refusal, PutAdmission, ReadAdmission, UploadStreams,
};
use crate::capability::{
    denied, id_of, id_refusal, invalid, prefix_of, validate_optional_id, CAPABILITY_VERSION,
};
use crate::config::AppConfig;
use crate::metadata_store::{
    column_i32, column_i64, is_clipped, PutFileRecord, PutStreamCompleteRecord, PutStreamStartRecord,
};
use crate::metrics::WorkerMetrics;
use crate::number::{
    at_least, at_most, decimal, decimal_of, max_usize, min_u64, min_usize, u128_to_i64, u64_to_i64,
    usize_to_i32, usize_to_i64,
};
use crate::path::{clean_path, clean_path_of};
use crate::put_model::{PutContext, PutFileSummary, PutOptions, PutSummary, WorkerPutSummary};
use crate::resource::{
    permit_request, request_of, PermitOutcome, PermitRequest, ResourceLimiter, ResourcePermit,
};
use crate::status::{answers, either_refusal, status_of, Code, Status, StatusView};
use crate::text::{copy_opt, has_prefix, opt_text, starts_with, text_eq, trim_of};
use crate::util::{
    checked_total_size, is_uuid_text, new_uuid, quoted, quoted_of, sum_of, total_size,
};
use crate::worker_status::{
    signal_of, PutRuntimeStatus, ReadRuntimeStatus, WorkerCapabilities, WorkerCapacity,
    WorkerLocality, WorkerResourcePool, WorkerResourceStatus, WorkerRuntimeStatus,
    WorkerSchedulerStatus, WorkerSchedulingPolicy, WorkerSchedulingSignal,
    WorkerSchedulingTelemetry, WorkerState, WorkerStatus, WorkerWriterCapacity,
};

verus! {

/// The state that the calls on a worker share.
#[derive(Debug)]
pub struct WorkerFlightService {
    pub config: AppConfig,
    pub upload_streams: UploadStreams,
    pub active_put_streams: usize,
    pub active_read_streams: usize,
    pub draining: bool,
    pub put_memory: ResourceLimiter,
    pub read_memory: ResourceLimiter,
    /// How many writes were not admitted.
    pub put_rejected: u64,
    /// How many reads were not admitted.
    pub read_rejected: u64,
}

/// The name of the action that returns a worker's snapshot.
pub open spec fn status_action() -> Seq<char> {
    "worker.status"@
}

// ---------------------------------------------------------------------------
// Snapshots

/// The slots of a pool.
pub open spec fn capacity_of(limit: usize, active: usize, slot_wait_ms: u64) -> WorkerCapacity {
    WorkerCapacity {
        limit,
        active,
        available: at_least(limit - active, 0) as usize,
        slot_wait_ms,
    }
}

fn capacity(limit: usize, active: usize, slot_wait_ms: u64) -> (r: WorkerCapacity)
    ensures
        r == capacity_of(limit, active, slot_wait_ms),
{
    WorkerCapacity { limit, active, available: limit.saturating_sub(active), slot_wait_ms }
}

/// The memory of a pool.
pub open spec fn pool_of(
    limiter: ResourceLimiter,
    max_stream_memory_bytes: u64,
    max_record_batch_bytes: u64,
    max_batch_rows: Option<usize>,
) -> WorkerResourcePool {
    WorkerResourcePool {
        limit_bytes: limiter.total_of() as u64,
        active_bytes: limiter.active_of() as u64,
        available_bytes: (limiter.total_of() - limiter.active_of()) as u64,
        max_stream_memory_bytes,
        max_record_batch_bytes,
        max_batch_rows,
    }
}

fn pool(
    limiter: &ResourceLimiter,
    max_stream_memory_bytes: u64,
    max_record_batch_bytes: u64,
    max_batch_rows: Option<usize>,
) -> (r: WorkerResourcePool)
    ensures
        r == pool_of(*limiter, max_stream_memory_bytes, max_record_batch_bytes, max_batch_rows),
{
    WorkerResourcePool {
        limit_bytes: limiter.total_bytes(),
        active_bytes: limiter.active_bytes(),
        available_bytes: limiter.available_bytes(),
        max_stream_memory_bytes,
        max_record_batch_bytes,
        max_batch_rows,
    }
}

/// What a coordinator is told of the write slots.
pub open spec fn put_signal_of(
    service: WorkerFlightService,
    runtime: WorkerRuntimeStatus,
) -> WorkerSchedulingSignal {
    signal_of(
        capacity_of(
            service.config.worker.max_active_put_streams,
            service.active_put_streams,
            service.config.worker.put_slot_wait_ms,
        ),
        WorkerSchedulingPolicy {
            max_streams_per_operation: service.config.worker.max_put_streams_per_upload,
            reserved_slots: service.config.worker.put_scheduler_reserved_slots,
            memory_available_streams: Some(
                service.put_memory.streams_of(
                    service.config.resources.put_max_stream_memory_bytes as nat,
                ) as usize,
            ),
        },
        WorkerSchedulingTelemetry {
            succeeded_total: runtime.put.succeeded_total,
            failed_total: runtime.put.failed_total,
            rejected_total: runtime.put.rejected_total,
            cancelled_total: 0,
            admission_wait_ms_ewma: runtime.put.admission_wait_ms_ewma,
        },
        service.draining,
    )
}

/// What a coordinator is told of the read slots.
pub open spec fn read_signal_of(
    service: WorkerFlightService,
    runtime: WorkerRuntimeStatus,
) -> WorkerSchedulingSignal {
    signal_of(
        capacity_of(
            service.config.worker.max_active_read_streams,
            service.active_read_streams,
            service.config.worker.read_slot_wait_ms,
        ),
        WorkerSchedulingPolicy {
            max_streams_per_operation: service.config.worker.max_read_streams_per_operation,
            reserved_slots: service.config.worker.read_scheduler_reserved_slots,
            memory_available_streams: Some(
                service.read_memory.streams_of(
                    service.config.resources.read_max_stream_memory_bytes as nat,
                ) as usize,
            ),
        },
        WorkerSchedulingTelemetry {
            succeeded_total: runtime.read.succeeded_total,
            failed_total: runtime.read.failed_total,
            rejected_total: runtime.read.rejected_total,
            cancelled_total: runtime.read.cancelled_total,
            admission_wait_ms_ewma: runtime.read.admission_wait_ms_ewma,
        },
        service.draining,
    )
}

/// The limits that a worker announces.
pub open spec fn capabilities_of(
    config: AppConfig,
    put_writers: WorkerWriterCapacity,
) -> WorkerCapabilities {
    WorkerCapabilities {
        put_parallelism: config.parquet.put_parallelism,
        max_active_put_writers: put_writers.limit,
        put_queue_depth: config.parquet.put_queue_depth,
        max_put_streams_per_upload: config.worker.max_put_streams_per_upload,
        max_put_stream_bytes: config.worker.max_put_stream_bytes,
        put_max_stream_memory_bytes: config.resources.put_max_stream_memory_bytes,
        put_max_record_batch_bytes: config.resources.put_max_record_batch_bytes,
        read_max_streams_per_operation: config.worker.max_read_streams_per_operation,
        read_batch_size: config.read_batch_size,
        read_max_stream_memory_bytes: config.resources.read_max_stream_memory_bytes,
        read_max_record_batch_bytes: config.resources.read_max_record_batch_bytes,
        read_max_batch_rows: config.resources.read_max_batch_rows,
        flight_data_chunk_size: config.flight_data_chunk_size,
        capability_version: CAPABILITY_VERSION,
        signed_capabilities_required: config.security.require_signed_capabilities,
        capability_worker_binding_required: config.security.require_capability_worker_binding,
    }
}

/// Whether a snapshot shows a service, with the part writers and the running counts that are
/// reported beside it.
pub open spec fn is_snapshot(
    service: WorkerFlightService,
    put_writers: WorkerWriterCapacity,
    runtime: WorkerRuntimeStatus,
    status: WorkerStatus,
) -> bool {
    let worker = service.config.worker;
    let resources = service.config.resources;
    &&& status.worker_id@ == worker.worker_id@
    &&& status.flight_uri@ == worker.flight_uri@
    &&& opt_text(status.locality.zone) == opt_text(worker.zone)
    &&& status.state == (if service.draining {
        WorkerState::Draining
    } else {
        WorkerState::Active
    })
    &&& status.draining == service.draining
    &&& status.put == capacity_of(
        worker.max_active_put_streams,
        service.active_put_streams,
        worker.put_slot_wait_ms,
    )
    &&& status.put_writers == put_writers
    &&& status.read == capacity_of(
        worker.max_active_read_streams,
        service.active_read_streams,
        worker.read_slot_wait_ms,
    )
    &&& status.resources == (WorkerResourceStatus {
        worker_cpu_millicores: resources.worker_cpu_millicores,
        worker_memory_bytes: resources.worker_memory_bytes,
        reserved_memory_bytes: resources.reserved_memory_bytes,
        put: pool_of(
            service.put_memory,
            resources.put_max_stream_memory_bytes,
            resources.put_max_record_batch_bytes,
            None,
        ),
        read: pool_of(
            service.read_memory,
            resources.read_max_stream_memory_bytes,
            resources.read_max_record_batch_bytes,
            Some(resources.read_max_batch_rows),
        ),
    })
    &&& status.scheduler == (WorkerSchedulerStatus {
        put: put_signal_of(service, runtime),
        read: read_signal_of(service, runtime),
    })
    &&& status.runtime == runtime
    &&& status.capabilities == capabilities_of(service.config, put_writers)
    &&& status.heartbeat_interval_ms == worker.registry_heartbeat_interval_ms
    &&& status.registry_ttl_ms == worker.registry_ttl_ms
}

/// The running counts of a worker. It keeps no moving averages: they are zero.
pub open spec fn runtime_of(
    service: WorkerFlightService,
    metrics: WorkerMetrics,
) -> WorkerRuntimeStatus {
    WorkerRuntimeStatus {
        put: PutRuntimeStatus {
            started_total: metrics.put_started,
            succeeded_total: metrics.put_succeeded,
            failed_total: metrics.put_failed,
            rejected_total: service.put_rejected,
            rows_total: metrics.put_rows,
            batches_total: metrics.put_batches,
            files_total: metrics.put_files,
            flight_stream_bytes_total: metrics.put_flight_stream_bytes,
            parquet_object_bytes_total: metrics.put_parquet_object_bytes,
            admission_wait_ms_ewma: 0,
            duration_ms_ewma: 0,
            throughput_bytes_per_sec_ewma: 0,
        },
        read: ReadRuntimeStatus {
            started_total: metrics.get_started,
            succeeded_total: metrics.get_succeeded,
            failed_total: metrics.get_failed,
            rejected_total: service.read_rejected,
            cancelled_total: metrics.get_cancelled,
            object_bytes_total: metrics.get_object_bytes,
            admission_wait_ms_ewma: 0,
            duration_ms_ewma: 0,
            throughput_bytes_per_sec_ewma: 0,
        },
    }
}

impl WorkerFlightService {
    /// The streams of each upload are tracked as `UploadStreams` demands.
    pub open spec fn well_formed(self) -> bool {
        self.upload_streams.well_formed()
    }

    /// A service without streams.
    pub fn new(config: AppConfig) -> (r: WorkerFlightService)
        ensures
            r.well_formed(),
            r.config == config,
            r.upload_streams@ == Map::<Seq<char>, usize>::empty(),
            r.active_put_streams == 0,
            r.active_read_streams == 0,
            r.draining == config.worker.draining,
            r.put_memory.total_units == crate::resource::units_of(
                config.resources.put_memory_bytes as nat,
            ),
            r.read_memory.total_units == crate::resource::units_of(
                config.resources.read_memory_bytes as nat,
            ),
            r.put_memory.well_formed() && r.put_memory.active_units == 0,
            r.read_memory.well_formed() && r.read_memory.active_units == 0,
            r.put_rejected == 0,
            r.read_rejected == 0,
    {
        let draining = config.worker.draining;
        let put_memory = ResourceLimiter::new(config.resources.put_memory_bytes);
        let read_memory = ResourceLimiter::new(config.resources.read_memory_bytes);
        WorkerFlightService {
            config,
            upload_streams: UploadStreams::new(),
            active_put_streams: 0,
            active_read_streams: 0,
            draining,
            put_memory,
            read_memory,
            put_rejected: 0,
            read_rejected: 0,
        }
    }

    /// The service after a write was not admitted.
    pub open spec fn after_put_rejected(self) -> WorkerFlightService {
        WorkerFlightService { put_rejected: self.put_rejected.wrapping_add(1), ..self }
    }

    /// The service after a read was not admitted.
    pub open spec fn after_read_rejected(self) -> WorkerFlightService {
        WorkerFlightService { read_rejected: self.read_rejected.wrapping_add(1), ..self }
    }

    /// Counts a write that was not admitted.
    pub fn record_put_rejected(&mut self)
        ensures
            *final(self) == old(self).after_put_rejected(),
    {
        self.put_rejected = self.put_rejected.wrapping_add(1);
    }

    /// Counts a read that was not admitted.
    pub fn record_read_rejected(&mut self)
        ensures
            *final(self) == old(self).after_read_rejected(),
    {
        self.read_rejected = self.read_rejected.wrapping_add(1);
    }

    /// The running counts of the worker. It keeps no moving averages: they are zero.
    pub fn runtime_status(&self, metrics: &WorkerMetrics) -> (r: WorkerRuntimeStatus)
        ensures
            r == runtime_of(*self, *metrics),
    {
        WorkerRuntimeStatus {
            put: PutRuntimeStatus {
                started_total: metrics.put_started,
                succeeded_total: metrics.put_succeeded,
                failed_total: metrics.put_failed,
                rejected_total: self.put_rejected,
                rows_total: metrics.put_rows,
                batches_total: metrics.put_batches,
                files_total: metrics.put_files,
                flight_stream_bytes_total: metrics.put_flight_stream_bytes,
                parquet_object_bytes_total: metrics.put_parquet_object_bytes,
                ..PutRuntimeStatus::default()
            },
            read: ReadRuntimeStatus {
                started_total: metrics.get_started,
                succeeded_total: metrics.get_succeeded,
                failed_total: metrics.get_failed,
                rejected_total: self.read_rejected,
                cancelled_total: metrics.get_cancelled,
                object_bytes_total: metrics.get_object_bytes,
                ..ReadRuntimeStatus::default()
            },
        }
    }

    /// How many writes may run at once.
    pub fn put_slots(&self) -> (r: usize)
        ensures
            r == at_least(self.config.worker.max_active_put_streams as int, 1),
    {
        max_usize(self.config.worker.max_active_put_streams, 1)
    }

    /// How many reads may run at once.
    pub fn read_slots(&self) -> (r: usize)
        ensures
            r == at_least(self.config.worker.max_active_read_streams as int, 1),
    {
        max_usize(self.config.worker.max_active_read_streams, 1)
    }

    /// The snapshot that the worker publishes.
    pub fn worker_status(
        &self,
        put_writers: WorkerWriterCapacity,
        runtime: WorkerRuntimeStatus,
    ) -> (r: WorkerStatus)
        ensures
            is_snapshot(*self, put_writers, runtime, r),
    {
        let worker = &self.config.worker;
        let resources = &self.config.resources;
        let put = capacity(
            worker.max_active_put_streams,
            self.active_put_streams,
            worker.put_slot_wait_ms,
        );
        let read = capacity(
            worker.max_active_read_streams,
            self.active_read_streams,
            worker.read_slot_wait_ms,
        );
        let put_signal = WorkerSchedulingSignal::from_capacity(
            &put,
            WorkerSchedulingPolicy {
                max_streams_per_operation: worker.max_put_streams_per_upload,
                reserved_slots: worker.put_scheduler_reserved_slots,
                memory_available_streams: Some(
                    self.put_memory.available_streams(resources.put_max_stream_memory_bytes),
                ),
            },
            WorkerSchedulingTelemetry {
                succeeded_total: runtime.put.succeeded_total,
                failed_total: runtime.put.failed_total,
                rejected_total: runtime.put.rejected_total,
                cancelled_total: 0,
                admission_wait_ms_ewma: runtime.put.admission_wait_ms_ewma,
            },
            self.draining,
        );
        let read_signal = WorkerSchedulingSignal::from_capacity(
            &read,
            WorkerSchedulingPolicy {
                max_streams_per_operation: worker.max_read_streams_per_operation,
                reserved_slots: worker.read_scheduler_reserved_slots,
                memory_available_streams: Some(
                    self.read_memory.available_streams(resources.read_max_stream_memory_bytes),
                ),
            },
            WorkerSchedulingTelemetry {
                succeeded_total: runtime.read.succeeded_total,
                failed_total: runtime.read.failed_total,
                rejected_total: runtime.read.rejected_total,
                cancelled_total: runtime.read.cancelled_total,
                admission_wait_ms_ewma: runtime.read.admission_wait_ms_ewma,
            },
            self.draining,
        );
        let state = if self.draining {
            WorkerState::Draining
        } else {
            WorkerState::Active
        };
        WorkerStatus {
            worker_id: worker.worker_id.clone(),
            flight_uri: worker.flight_uri.clone(),
            locality: WorkerLocality { zone: copy_opt(&worker.zone) },
            state,
            draining: self.draining,
            put,
            put_writers,
            read,
            resources: WorkerResourceStatus {
                worker_cpu_millicores: resources.worker_cpu_millicores,
                worker_memory_bytes: resources.worker_memory_bytes,
                reserved_memory_bytes: resources.reserved_memory_bytes,
                put: pool(
                    &self.put_memory,
                    resources.put_max_stream_memory_bytes,
                    resources.put_max_record_batch_bytes,
                    None,
                ),
                read: pool(
                    &self.read_memory,
                    resources.read_max_stream_memory_bytes,
                    resources.read_max_record_batch_bytes,
                    Some(resources.read_max_batch_rows),
                ),
            },
            scheduler: WorkerSchedulerStatus { put: put_signal, read: read_signal },
            runtime,
            capabilities: WorkerCapabilities {
                put_parallelism: self.config.parquet.put_parallelism,
                max_active_put_writers: put_writers.limit,
                put_queue_depth: self.config.parquet.put_queue_depth,
                max_put_streams_per_upload: worker.max_put_streams_per_upload,
                max_put_stream_bytes: worker.max_put_stream_bytes,
                put_max_stream_memory_bytes: resources.put_max_stream_memory_bytes,
                put_max_record_batch_bytes: resources.put_max_record_batch_bytes,
                read_max_streams_per_operation: worker.max_read_streams_per_operation,
                read_batch_size: self.config.read_batch_size,
                read_max_stream_memory_bytes: resources.read_max_stream_memory_bytes,
                read_max_record_batch_bytes: resources.read_max_record_batch_bytes,
                read_max_batch_rows: resources.read_max_batch_rows,
                flight_data_chunk_size: self.config.flight_data_chunk_size,
                capability_version: CAPABILITY_VERSION,
                signed_capabilities_required: self.config.security.require_signed_capabilities,
                capability_worker_binding_required: self.config.security.require_capability_worker_binding,
            },
            heartbeat_interval_ms: worker.registry_heartbeat_interval_ms,
            registry_ttl_ms: worker.registry_ttl_ms,
        }
    }
}

// ---------------------------------------------------------------------------
// What a client asks for

/// Whether `result` is what the options of a write give: nothing is asked for by empty metadata,
/// and other metadata is decoded.
pub open spec fn is_options_verdict<D: Fn(&[u8]) -> Result<PutOptions, String>>(
    app_metadata: &[u8],
    decode: D,
    result: Result<PutOptions, Status>,
) -> bool {
    if app_metadata@.len() == 0 {
        result matches Ok(options) && options.is_default()
    } else {
        exists|decoded: Result<PutOptions, String>|
            #[trigger] decode.ensures((app_metadata,), decoded) && match decoded {
                Ok(options) => result == Ok::<PutOptions, Status>(options),
                Err(words) => result matches Err(status) && Some(status@) == invalid(
                    "invalid DoPut app_metadata options: "@ + words@,
                ),
            }
    }
}

/// The options of a write.
pub fn parse_put_options<D: Fn(&[u8]) -> Result<PutOptions, String>>(
    app_metadata: &[u8],
    decode: &D,
) -> (r: Result<PutOptions, Status>)
    requires
        forall|bytes: &[u8]| decode.requires((bytes,)),
    ensures
        is_options_verdict(app_metadata, *decode, r),
{
    if app_metadata.len() == 0 {
        return Ok(PutOptions::default());
    }
    match decode(app_metadata) {
        Ok(options) => Ok(options),
        Err(error) => {
            let mut message = "invalid DoPut app_metadata options: ".to_owned();
            message.append(error.as_str());
            Err(Status::new(Code::InvalidArgument, message))
        },
    }
}

/// How a write is laid out: in one file, or in files of a target size.
pub open spec fn mode_of(options: PutOptions) -> Seq<char> {
    if options.target_file_size is Some {
        "sized_dataset"@
    } else {
        "single"@
    }
}

/// How a write is laid out: in one file, or in files of a target size.
pub fn put_mode(options: &PutOptions) -> (r: &'static str)
    ensures
        r@ == mode_of(*options),
{
    if options.target_file_size.is_some() {
        "sized_dataset"
    } else {
        "single"
    }
}

/// How a write is laid out.
#[derive(Clone, Copy, Debug, PartialEq, Eq, Structural)]
pub enum PutLayout {
    /// In one file.
    Single,
    /// In files of this size.
    Sized(usize),
}

/// How a write is laid out: one file, or files of the size that it asks for.
pub open spec fn layout_of(options: PutOptions) -> PutLayout {
    match options.target_file_size {
        Some(size) => PutLayout::Sized(size),
        None => PutLayout::Single,
    }
}

/// How a write is laid out.
pub fn put_layout(options: &PutOptions) -> (r: PutLayout)
    ensures
        r == layout_of(*options),
        r is Single <==> mode_of(*options) == "single"@,
{
    proof {
        reveal_strlit("single");
        reveal_strlit("sized_dataset");
        assert("single"@.len() != "sized_dataset"@.len());
    }
    match options.target_file_size {
        Some(size) => PutLayout::Sized(size),
        None => PutLayout::Single,
    }
}

/// Checks an identifier that a client chose.
pub fn validate_worker_id(name: &str, value: &Option<String>) -> (r: Result<Option<String>, Status>)
    ensures
        answers(
            r,
            id_refusal(name@, opt_text(*value)),
            |id: Option<String>| opt_text(id) == id_of(opt_text(*value)),
        ),
{
    validate_optional_id(name, value)
}

/// Why a staging prefix is refused: it has no component.
pub open spec fn staging_refusal(raw: Seq<char>) -> Option<StatusView> {
    if clean_path_of(raw).len() == 0 {
        invalid("staging_prefix must not be empty"@)
    } else {
        None
    }
}

/// The clean form of a staging prefix, with a slash behind it.
pub fn normalize_staging_prefix(raw: &str) -> (r: Result<String, Status>)
    ensures
        answers(r, staging_refusal(raw@), |prefix: String| prefix@ == prefix_of(raw@)),
{
    let mut prefix = clean_path(raw);
    if prefix.as_str().is_empty() {
        return Err(Status::of(Code::InvalidArgument, "staging_prefix must not be empty"));
    }
    prefix.append("/");
    Ok(prefix)
}

/// The smaller of two limits that need not be there.
pub open spec fn min_optional(left: Option<u64>, right: Option<u64>) -> Option<u64> {
    match (left, right) {
        (Some(left), Some(right)) => Some(at_most(left as int, right as int) as u64),
        (Some(value), None) => Some(value),
        (None, right) => right,
    }
}

/// The smaller of two limits that need not be there.
pub fn min_optional_u64(left: Option<u64>, right: Option<u64>) -> (r: Option<u64>)
    ensures
        r == min_optional(left, right),
{
    match (left, right) {
        (Some(left), Some(right)) => Some(min_u64(left, right)),
        (Some(value), None) => Some(value),
        (None, right) => right,
    }
}

/// How many bytes a write may bring: the client's positive limit and the worker's.
pub open spec fn budget_of(options: PutOptions, config: AppConfig) -> Option<u64> {
    min_optional(
        if options.max_stream_bytes == Some(0u64) {
            None
        } else {
            options.max_stream_bytes
        },
        config.worker.max_put_stream_bytes,
    )
}

/// How many streams the upload of a write may have at once: never more than the worker allows,
/// and at least one.
pub open spec fn stream_limit_of(options: PutOptions, config: AppConfig) -> Option<usize> {
    let most = config.worker.max_put_streams_per_upload as int;
    if options.upload_id is Some {
        Some(
            at_least(
                at_most(
                    match options.max_upload_streams {
                        Some(streams) => streams as int,
                        None => most,
                    },
                    most,
                ),
                1,
            ) as usize,
        )
    } else {
        None
    }
}

/// The staging prefix of a write.
pub open spec fn staging_of(options: PutOptions) -> Option<Seq<char>> {
    match opt_text(options.staging_prefix) {
        Some(prefix) => Some(prefix_of(prefix)),
        None => None,
    }
}

/// Why a key is refused: a staging prefix is required and missing, or the key lies outside it.
pub open spec fn key_refusal(
    key: Seq<char>,
    options: PutOptions,
    config: AppConfig,
) -> Option<StatusView> {
    match staging_of(options) {
        None => if config.worker.require_staging_prefix {
            denied("DoPut requires staging_prefix metadata"@)
        } else {
            None
        },
        Some(prefix) => if has_prefix(key, prefix) {
            None
        } else {
            denied(
                "DoPut key "@ + quoted_of(key) + " is outside staging_prefix "@ + quoted_of(prefix),
            )
        },
    }
}

/// Why the announced size of a write is refused.
pub open spec fn size_refusal(options: PutOptions, config: AppConfig) -> Option<StatusView> {
    match (options.input_file_bytes, budget_of(options, config)) {
        (Some(bytes), Some(budget)) => if bytes > budget {
            Some(
                status_of(
                    Code::ResourceExhausted,
                    "DoPut input_file_bytes "@ + decimal_of(bytes as nat)
                        + " exceeds stream budget "@ + decimal_of(budget as nat),
                ),
            )
        } else {
            None
        },
        _ => None,
    }
}

/// Why a write is refused before it is admitted.
pub open spec fn context_refusal(
    key: Seq<char>,
    options: PutOptions,
    config: AppConfig,
) -> Option<StatusView> {
    either_refusal(
        id_refusal("attempt_id"@, opt_text(options.attempt_id)),
        either_refusal(
            id_refusal("upload_id"@, opt_text(options.upload_id)),
            either_refusal(
                id_refusal("stream_id"@, opt_text(options.stream_id)),
                either_refusal(
                    match opt_text(options.staging_prefix) {
                        Some(prefix) => staging_refusal(prefix),
                        None => None,
                    },
                    either_refusal(
                        key_refusal(key, options, config),
                        size_refusal(options, config),
                    ),
                ),
            ),
        ),
    )
}

/// Whether a context holds the limits and identifiers of a write; `fresh_id` names an attempt that
/// the client gave no name.
pub open spec fn is_context(
    options: PutOptions,
    config: AppConfig,
    fresh_id: Seq<char>,
    context: PutContext,
) -> bool {
    &&& context.operation_id is None
    &&& context.attempt_id@ == (match id_of(opt_text(options.attempt_id)) {
        Some(id) => id,
        None => fresh_id,
    })
    &&& opt_text(context.upload_id) == id_of(opt_text(options.upload_id))
    &&& opt_text(context.stream_id) == id_of(opt_text(options.stream_id))
    &&& opt_text(context.staging_prefix) == staging_of(options)
    &&& context.target_file_size == options.target_file_size
    &&& context.upload_stream_limit == stream_limit_of(options, config)
    &&& context.stream_budget_bytes == budget_of(options, config)
    &&& context.max_record_batch_bytes == config.resources.put_max_record_batch_bytes
}

impl WorkerFlightService {
    /// The limits and identifiers of a write, with the name for an attempt that has none.
    pub fn put_context(&self, key: &str, options: &PutOptions, fresh_id: String) -> (r: Result<
        PutContext,
        Status,
    >)
        ensures
            answers(
                r,
                context_refusal(key@, *options, self.config),
                |context: PutContext| is_context(*options, self.config, fresh_id@, context),
            ),
    {
        let given_id = match validate_worker_id("attempt_id", &options.attempt_id) {
            Ok(value) => value,
            Err(error) => return Err(error),
        };
        let attempt_id = match given_id {
            Some(id) => id,
            None => fresh_id,
        };
        let upload_id = match validate_worker_id("upload_id", &options.upload_id) {
            Ok(value) => value,
            Err(error) => return Err(error),
        };
        let stream_id = match validate_worker_id("stream_id", &options.stream_id) {
            Ok(value) => value,
            Err(error) => return Err(error),
        };
        let staging_prefix = match &options.staging_prefix {
            Some(prefix) => Some(match normalize_staging_prefix(prefix.as_str()) {
                Ok(value) => value,
                Err(error) => return Err(error),
            }),
            None => None,
        };
        if self.config.worker.require_staging_prefix && staging_prefix.is_none() {
            return Err(
                Status::of(Code::PermissionDenied, "DoPut requires staging_prefix metadata"),
            );
        }
        if let Some(prefix) = &staging_prefix {
            if !starts_with(key, prefix.as_str()) {
                let mut message = "DoPut key ".to_owned();
                message.append(quoted(key).as_str());
                message.append(" is outside staging_prefix ");
                message.append(quoted(prefix.as_str()).as_str());
                return Err(Status::new(Code::PermissionDenied, message));
            }
        }
        let most: usize = self.config.worker.max_put_streams_per_upload;
        let upload_stream_limit = if upload_id.is_some() {
            let wanted: usize = match options.max_upload_streams {
                Some(streams) => streams,
                None => most,
            };
            Some(max_usize(min_usize(wanted, most), 1))
        } else {
            None
        };
        let client_budget = match options.max_stream_bytes {
            Some(bytes) => if bytes > 0 {
                Some(bytes)
            } else {
                None
            },
            None => None,
        };
        let stream_budget_bytes = min_optional_u64(
            client_budget,
            self.config.worker.max_put_stream_bytes,
        );
        if let (Some(bytes), Some(budget)) = (options.input_file_bytes, stream_budget_bytes) {
            if bytes > budget {
                let mut message = "DoPut input_file_bytes ".to_owned();
                message.append(decimal(bytes as u128).as_str());
                message.append(" exceeds stream budget ");
                message.append(decimal(budget as u128).as_str());
                return Err(Status::new(Code::ResourceExhausted, message));
            }
        }
        Ok(
            PutContext {
                operation_id: None,
                attempt_id,
                upload_id,
                stream_id,
                staging_prefix,
                target_file_size: options.target_file_size,
                upload_stream_limit,
                stream_budget_bytes,
                max_record_batch_bytes: self.config.resources.put_max_record_batch_bytes,
            },
        )
    }

    /// The limits and identifiers of a write. An attempt without a name gets a random one.
    pub fn build_put_context(&self, key: &str, options: &PutOptions) -> (r: Result<
        PutContext,
        Status,
    >)
        ensures
            exists|fresh_id: Seq<char>|
                #[trigger] is_uuid_text(fresh_id) && answers(
                    r,
                    context_refusal(key@, *options, self.config),
                    |context: PutContext| is_context(*options, self.config, fresh_id, context),
                ),
    {
        let fresh_id = new_uuid();
        let ghost name = fresh_id@;
        proof {
            assert(is_uuid_text(name));
        }
        self.put_context(key, options, fresh_id)
    }
}

// ---------------------------------------------------------------------------
// Admission

/// Why a worker takes no new stream.
pub open spec fn draining_refusal(draining: bool, words: Seq<char>) -> Option<StatusView> {
    if draining {
        Some(status_of(Code::Unavailable, words))
    } else {
        None
    }
}

/// Why a slot was not got.
pub open spec fn slot_refusal(
    outcome: PermitOutcome,
    none_free: Seq<char>,
    timed_out: Seq<char>,
) -> Option<StatusView> {
    match outcome {
        PermitOutcome::Acquired => None,
        PermitOutcome::NoPermits => Some(status_of(Code::ResourceExhausted, none_free)),
        PermitOutcome::TimedOut => Some(status_of(Code::ResourceExhausted, timed_out)),
        PermitOutcome::Closed(words) => Some(status_of(Code::Internal, words@)),
    }
}

fn check_slot(outcome: PermitOutcome, none_free: &str, timed_out: &str) -> (r: Result<(), Status>)
    ensures
        answers(r, slot_refusal(outcome, none_free@, timed_out@), |unit: ()| true),
{
    match outcome {
        PermitOutcome::Acquired => Ok(()),
        PermitOutcome::NoPermits => Err(Status::of(Code::ResourceExhausted, none_free)),
        PermitOutcome::TimedOut => Err(Status::of(Code::ResourceExhausted, timed_out)),
        PermitOutcome::Closed(words) => Err(Status::new(Code::Internal, words)),
    }
}

/// Goes on once a slot for a write was acquired.
pub fn check_put_slot(outcome: PermitOutcome) -> (r: Result<(), Status>)
    ensures
        answers(
            r,
            slot_refusal(
                outcome,
                "DoPut worker has no free upload slots"@,
                "timed out waiting for DoPut upload slot"@,
            ),
            |unit: ()| true,
        ),
{
    check_slot(
        outcome,
        "DoPut worker has no free upload slots",
        "timed out waiting for DoPut upload slot",
    )
}

/// Goes on once a slot for a read was acquired.
pub fn check_read_slot(outcome: PermitOutcome) -> (r: Result<(), Status>)
    ensures
        answers(
            r,
            slot_refusal(
                outcome,
                "DoGet worker has no free read slots"@,
                "timed out waiting for DoGet read slot"@,
            ),
            |unit: ()| true,
        ),
{
    check_slot(
        outcome,
        "DoGet worker has no free read slots",
        "timed out waiting for DoGet read slot",
    )
}

/// Why one more stream is refused by the limit of its upload. A write without an upload has none.
pub open spec fn limit_refusal(
    streams: Map<Seq<char>, usize>,
    context: PutContext,
) -> Option<StatusView> {
    match (context.upload_id, context.upload_stream_limit) {
        (Some(upload_id), Some(limit)) => upload_refusal(streams, upload_id@, limit),
        _ => None,
    }
}

/// The streams of each upload after a write was admitted.
pub open spec fn streams_admitted(
    streams: Map<Seq<char>, usize>,
    context: PutContext,
) -> Map<Seq<char>, usize> {
    match (context.upload_id, context.upload_stream_limit) {
        (Some(upload_id), Some(_)) => admitted(streams, upload_id@),
        _ => streams,
    }
}

/// The streams of each upload after a write has ended.
pub open spec fn streams_released(
    streams: Map<Seq<char>, usize>,
    upload_id: Option<Seq<char>>,
) -> Map<Seq<char>, usize> {
    match upload_id {
        Some(upload_id) => released(streams, upload_id),
        None => streams,
    }
}

/// Whether a summary tells how a write was admitted to a service.
pub open spec fn is_admission_summary(
    service: WorkerFlightService,
    context: PutContext,
    admission_wait_ms: u128,
    summary: WorkerPutSummary,
) -> bool {
    &&& summary.worker_id@ == service.config.worker.worker_id@
    &&& opt_text(summary.operation_id) == opt_text(context.operation_id)
    &&& summary.attempt_id@ == context.attempt_id@
    &&& opt_text(summary.upload_id) == opt_text(context.upload_id)
    &&& opt_text(summary.stream_id) == opt_text(context.stream_id)
    &&& opt_text(summary.staging_prefix) == opt_text(context.staging_prefix)
    &&& summary.admission_wait_ms == admission_wait_ms
    &&& summary.global_put_stream_limit == service.config.worker.max_active_put_streams
    &&& summary.upload_put_stream_limit == context.upload_stream_limit
    &&& summary.active_put_streams_at_admit == service.active_put_streams.wrapping_add(1)
    &&& summary.upload_active_streams_at_admit == (match (
        context.upload_id,
        context.upload_stream_limit,
    ) {
        (Some(upload_id), Some(_)) => Some(
            (active_of(service.upload_streams@, upload_id@) + 1) as usize,
        ),
        _ => None,
    })
    &&& summary.stream_budget_bytes == context.stream_budget_bytes
}

/// A budget after the units of a permit were given back.
pub open spec fn memory_released(limiter: ResourceLimiter, units: u32) -> ResourceLimiter {
    ResourceLimiter { active_units: limiter.active_units.wrapping_sub(units as u64), ..limiter }
}

/// Whether nothing of a service changed but what belongs to writes.
pub open spec fn only_puts_change(before: WorkerFlightService, after: WorkerFlightService) -> bool {
    &&& after.config == before.config
    &&& after.draining == before.draining
    &&& after.active_read_streams == before.active_read_streams
    &&& after.read_memory == before.read_memory
    &&& after.put_rejected == before.put_rejected
    &&& after.read_rejected == before.read_rejected
}

/// Whether a write was admitted.
pub open spec fn is_put_admitted(
    before: WorkerFlightService,
    context: PutContext,
    after: WorkerFlightService,
) -> bool {
    &&& after.upload_streams@ == streams_admitted(before.upload_streams@, context)
    &&& after.active_put_streams == before.active_put_streams.wrapping_add(1)
    &&& after.put_memory == before.put_memory
}

/// Whether a write that held its memory was not admitted and gave it back.
pub open spec fn is_put_turned_away(
    before: WorkerFlightService,
    units: u32,
    after: WorkerFlightService,
) -> bool {
    &&& after.upload_streams@ == before.upload_streams@
    &&& after.active_put_streams == before.active_put_streams
    &&& after.put_memory == memory_released(before.put_memory, units)
}

/// Whether a write ended and gave back what it held.
pub open spec fn is_put_finished(
    before: WorkerFlightService,
    upload_id: Option<Seq<char>>,
    units: u32,
    after: WorkerFlightService,
) -> bool {
    &&& after.active_put_streams == before.active_put_streams.wrapping_sub(1)
    &&& after.upload_streams@ == streams_released(before.upload_streams@, upload_id)
    &&& after.put_memory == memory_released(before.put_memory, units)
}

/// The service after a read was admitted.
pub open spec fn read_admitted(service: WorkerFlightService) -> WorkerFlightService {
    WorkerFlightService {
        active_read_streams: service.active_read_streams.wrapping_add(1),
        ..service
    }
}

/// The service after a read ended and gave back what it held.
pub open spec fn read_finished(service: WorkerFlightService, units: u32) -> WorkerFlightService {
    WorkerFlightService {
        active_read_streams: service.active_read_streams.wrapping_sub(1),
        read_memory: memory_released(service.read_memory, units),
        ..service
    }
}

impl WorkerFlightService {
    /// How long a write may wait for its slot. A draining worker refuses it at once.
    pub fn request_put_slot(&self) -> (r: Result<PermitRequest, Status>)
        ensures
            answers(
                r,
                draining_refusal(
                    self.draining,
                    "worker is draining and rejects new DoPut streams"@,
                ),
                |request: PermitRequest| request == request_of(self.config.worker.put_slot_wait_ms),
            ),
    {
        if self.draining {
            return Err(
                Status::of(Code::Unavailable, "worker is draining and rejects new DoPut streams"),
            );
        }
        Ok(permit_request(self.config.worker.put_slot_wait_ms))
    }

    /// How long a read may wait for its slot. A draining worker refuses it at once.
    pub fn request_read_slot(&self) -> (r: Result<PermitRequest, Status>)
        ensures
            answers(
                r,
                draining_refusal(
                    self.draining,
                    "worker is draining and rejects new DoGet streams"@,
                ),
                |request: PermitRequest|
                    request == request_of(self.config.worker.read_slot_wait_ms),
            ),
    {
        if self.draining {
            return Err(
                Status::of(Code::Unavailable, "worker is draining and rejects new DoGet streams"),
            );
        }
        Ok(permit_request(self.config.worker.read_slot_wait_ms))
    }

    /// Admits a write that has its slot and its memory, unless its upload has no stream left. A
    /// write that is refused gives its memory back. The count of active streams wraps around.
    pub fn admit_put(
        &mut self,
        context: &PutContext,
        admission_wait_ms: u128,
        memory: ResourcePermit,
    ) -> (r: Result<(PutAdmission, WorkerPutSummary), Status>)
        requires
            old(self).well_formed(),
        ensures
            final(self).well_formed(),
            only_puts_change(*old(self), *final(self)),
            answers(
                r,
                limit_refusal(old(self).upload_streams@, *context),
                |admission: (PutAdmission, WorkerPutSummary)|
                    {
                        &&& admission.0.memory == memory
                        &&& opt_text(admission.0.upload_id) == opt_text(context.upload_id)
                        &&& is_admission_summary(
                            *old(self),
                            *context,
                            admission_wait_ms,
                            admission.1,
                        )
                    },
            ),
            r is Ok ==> is_put_admitted(*old(self), *context, *final(self)),
            r is Err ==> is_put_turned_away(*old(self), memory.units, *final(self)),
    {
        let upload_active_streams_at_admit = match (
            &context.upload_id,
            context.upload_stream_limit,
        ) {
            (Some(upload_id), Some(limit)) => {
                match self.upload_streams.take(upload_id.as_str(), limit) {
                    Ok(count) => Some(count),
                    Err(status) => {
                        self.put_memory.release(memory);
                        return Err(status);
                    },
                }
            },
            _ => None,
        };
        self.active_put_streams = self.active_put_streams.wrapping_add(1);
        let summary = WorkerPutSummary {
            worker_id: self.config.worker.worker_id.clone(),
            operation_id: copy_opt(&context.operation_id),
            attempt_id: context.attempt_id.clone(),
            upload_id: copy_opt(&context.upload_id),
            stream_id: copy_opt(&context.stream_id),
            staging_prefix: copy_opt(&context.staging_prefix),
            admission_wait_ms,
            global_put_stream_limit: self.config.worker.max_active_put_streams,
            upload_put_stream_limit: context.upload_stream_limit,
            active_put_streams_at_admit: self.active_put_streams,
            upload_active_streams_at_admit,
            stream_budget_bytes: context.stream_budget_bytes,
        };
        let admission = PutAdmission { memory, upload_id: copy_opt(&context.upload_id) };
        Ok((admission, summary))
    }

    /// Takes back what an admitted write held.
    pub fn finish_put(&mut self, admission: PutAdmission)
        requires
            old(self).well_formed(),
        ensures
            final(self).well_formed(),
            only_puts_change(*old(self), *final(self)),
            is_put_finished(
                *old(self),
                opt_text(admission.upload_id),
                admission.memory.units,
                *final(self),
            ),
    {
        self.active_put_streams = self.active_put_streams.wrapping_sub(1);
        if let Some(upload_id) = &admission.upload_id {
            self.upload_streams.release(upload_id.as_str());
        }
        self.put_memory.release(admission.memory);
    }

    /// Admits a read that has its slot and its memory.
    pub fn admit_read(&mut self, memory: ResourcePermit) -> (r: ReadAdmission)
        ensures
            r.memory == memory,
            r.active_read_streams_at_admit == read_admitted(*old(self)).active_read_streams,
            *final(self) == read_admitted(*old(self)),
    {
        self.active_read_streams = self.active_read_streams.wrapping_add(1);
        ReadAdmission { memory, active_read_streams_at_admit: self.active_read_streams }
    }

    /// Takes back what an admitted read held.
    pub fn finish_read(&mut self, admission: ReadAdmission)
        ensures
            *final(self) == read_finished(*old(self), admission.memory.units),
    {
        self.active_read_streams = self.active_read_streams.wrapping_sub(1);
        self.read_memory.release(admission.memory);
    }
}

/// The end of a write undoes its admission: the stream counts and the memory are those of before
/// its reservation.
pub proof fn law_finish_undoes_put(
    service: WorkerFlightService,
    context: PutContext,
    units: u32,
)
    requires
        service.well_formed(),
        context.upload_id is Some <==> context.upload_stream_limit is Some,
        limit_refusal(service.upload_streams@, context) is None,
    ensures
        streams_released(
            streams_admitted(service.upload_streams@, context),
            opt_text(context.upload_id),
        ) == service.upload_streams@,
        service.active_put_streams.wrapping_add(1).wrapping_sub(1) == service.active_put_streams,
        memory_released(
            ResourceLimiter {
                active_units: service.put_memory.active_units.wrapping_add(units as u64),
                ..service.put_memory
            },
            units,
        ) == service.put_memory,
{
    if let (Some(upload_id), Some(limit)) = (context.upload_id, context.upload_stream_limit) {
        crate::admission::law_release_undoes_admission(
            service.upload_streams,
            upload_id@,
            limit,
        );
    }
}

// ---------------------------------------------------------------------------
// Rows

/// An optional size as a column of 64 bits holds it.
pub open spec fn optional_i64(value: Option<u64>) -> Option<i64> {
    match value {
        Some(value) => Some(column_i64(value as int) as i64),
        None => None,
    }
}

fn optional_u64_to_i64(value: Option<u64>) -> (r: Option<i64>)
    ensures
        r == optional_i64(value),
{
    match value {
        Some(value) => Some(u64_to_i64(value)),
        None => None,
    }
}

/// An optional count as a column of 32 bits holds it.
pub open spec fn optional_i32(value: Option<usize>) -> Option<i32> {
    match value {
        Some(value) => Some(column_i32(value as int) as i32),
        None => None,
    }
}

fn optional_usize_to_i32(value: Option<usize>) -> (r: Option<i32>)
    ensures
        r == optional_i32(value),
{
    match value {
        Some(value) => Some(usize_to_i32(value)),
        None => None,
    }
}

/// Whether a row starts the record of a write; `summary` is there once the write was admitted.
pub open spec fn is_start_record(
    config: AppConfig,
    key: Seq<char>,
    context: PutContext,
    summary: Option<&WorkerPutSummary>,
    options: PutOptions,
    record: PutStreamStartRecord,
) -> bool {
    &&& record.attempt_id@ == context.attempt_id@
    &&& opt_text(record.upload_id) == opt_text(context.upload_id)
    &&& opt_text(record.stream_id) == opt_text(context.stream_id)
    &&& record.worker_id@ == config.worker.worker_id@
    &&& record.key@ == key
    &&& opt_text(record.mode) == Some(mode_of(options))
    &&& opt_text(record.staging_prefix) == opt_text(context.staging_prefix)
    &&& record.target_file_size == (match options.target_file_size {
        Some(size) => Some(column_i64(size as int) as i64),
        None => None,
    })
    &&& record.client_input_file_bytes == optional_i64(options.input_file_bytes)
    &&& record.stream_budget_bytes == optional_i64(context.stream_budget_bytes)
    &&& record.global_put_stream_limit == column_i32(config.worker.max_active_put_streams as int)
    &&& record.upload_put_stream_limit == optional_i32(context.upload_stream_limit)
    &&& record.active_put_streams_at_admit == (match summary {
        Some(summary) => Some(column_i32(summary.active_put_streams_at_admit as int) as i32),
        None => None,
    })
    &&& record.upload_active_streams_at_admit == (match summary {
        Some(summary) => optional_i32(summary.upload_active_streams_at_admit),
        None => None,
    })
    &&& record.compression@ == config.parquet.compression_name@
    &&& record.multipart_part_size == column_i64(config.parquet.multipart_part_size as int)
    &&& record.multipart_max_concurrency == column_i32(
        config.parquet.multipart_max_concurrency as int,
    )
}

impl WorkerFlightService {
    /// The row that starts the record of a write.
    pub fn put_start_record(
        &self,
        key: &str,
        context: &PutContext,
        worker_summary: Option<&WorkerPutSummary>,
        options: &PutOptions,
    ) -> (r: PutStreamStartRecord)
        ensures
            is_start_record(self.config, key@, *context, worker_summary, *options, r),
    {
        let mode = put_mode(options).to_owned();
        PutStreamStartRecord {
            attempt_id: context.attempt_id.clone(),
            upload_id: copy_opt(&context.upload_id),
            stream_id: copy_opt(&context.stream_id),
            worker_id: self.config.worker.worker_id.clone(),
            key: key.to_owned(),
            mode: Some(mode),
            staging_prefix: copy_opt(&context.staging_prefix),
            target_file_size: match options.target_file_size {
                Some(size) => Some(usize_to_i64(size)),
                None => None,
            },
            client_input_file_bytes: optional_u64_to_i64(options.input_file_bytes),
            stream_budget_bytes: optional_u64_to_i64(context.stream_budget_bytes),
            global_put_stream_limit: usize_to_i32(self.config.worker.max_active_put_streams),
            upload_put_stream_limit: optional_usize_to_i32(context.upload_stream_limit),
            active_put_streams_at_admit: match worker_summary {
                Some(summary) => Some(usize_to_i32(summary.active_put_streams_at_admit)),
                None => None,
            },
            upload_active_streams_at_admit: match worker_summary {
                Some(summary) => optional_usize_to_i32(summary.upload_active_streams_at_admit),
                None => None,
            },
            compression: self.config.parquet.compression_name.clone(),
            multipart_part_size: usize_to_i64(self.config.parquet.multipart_part_size),
            multipart_max_concurrency: usize_to_i32(self.config.parquet.multipart_max_concurrency),
        }
    }
}

/// Whether a row holds one file of a write.
pub open spec fn is_file_record(
    summary: PutSummary,
    file: PutFileSummary,
    record: PutFileRecord,
) -> bool {
    &&& record.attempt_id@ == summary.worker.attempt_id@
    &&& opt_text(record.upload_id) == opt_text(summary.worker.upload_id)
    &&& opt_text(record.stream_id) == opt_text(summary.worker.stream_id)
    &&& record.worker_id@ == summary.worker.worker_id@
    &&& record.logical_key@ == summary.key@
    &&& record.part_index == column_i32(file.part_index as int)
    &&& record.file_path@ == file.key@
    &&& record.rows == column_i64(file.rows as int)
    &&& record.batches == column_i64(file.batches as int)
    &&& record.flight_stream_bytes == column_i64(file.flight_stream_bytes as int)
    &&& record.parquet_object_bytes == column_i64(file.parquet_object_bytes as int)
}

/// Whether rows hold the files of a write, in order.
pub open spec fn are_file_records(summary: PutSummary, records: Seq<PutFileRecord>) -> bool {
    &&& records.len() == summary.files@.len()
    &&& forall|i: int|
        0 <= i < records.len() ==> is_file_record(
            summary,
            summary.files@[i],
            #[trigger] records[i],
        )
}

/// The rows of the files of a write, in order.
pub fn put_file_records(summary: &PutSummary) -> (r: Vec<PutFileRecord>)
    ensures
        are_file_records(*summary, r@),
{
    let mut records: Vec<PutFileRecord> = Vec::new();
    let mut i: usize = 0;
    while i < summary.files.len()
        invariant
            i <= summary.files@.len(),
            records@.len() == i,
            forall|j: int|
                0 <= j < i ==> is_file_record(
                    *summary,
                    summary.files@[j],
                    #[trigger] records@[j],
                ),
        decreases summary.files@.len() - i,
    {
        let file = &summary.files[i];
        records.push(
            PutFileRecord {
                attempt_id: summary.worker.attempt_id.clone(),
                upload_id: copy_opt(&summary.worker.upload_id),
                stream_id: copy_opt(&summary.worker.stream_id),
                worker_id: summary.worker.worker_id.clone(),
                logical_key: summary.key.clone(),
                part_index: usize_to_i32(file.part_index),
                file_path: file.key.clone(),
                rows: usize_to_i64(file.rows),
                batches: usize_to_i64(file.batches),
                flight_stream_bytes: u64_to_i64(file.flight_stream_bytes),
                parquet_object_bytes: u64_to_i64(file.parquet_object_bytes),
            },
        );
        i += 1;
    }
    records
}

/// Whether a row ends the record of a write that succeeded.
pub open spec fn is_complete_record(summary: PutSummary, record: PutStreamCompleteRecord) -> bool {
    &&& record.attempt_id@ == summary.worker.attempt_id@
    &&& record.mode@ == summary.mode@
    &&& record.rows == column_i64(summary.rows as int)
    &&& record.batches == column_i64(summary.batches as int)
    &&& record.parts == column_i32(summary.parts as int)
    &&& record.flight_stream_bytes == column_i64(summary.flight_stream_bytes as int)
    &&& record.parquet_object_bytes == optional_i64(summary.parquet_object_bytes)
    &&& record.elapsed_ms == column_i64(summary.elapsed_ms as int)
    &&& are_file_records(summary, record.files@)
}

/// The row that ends the record of a write that succeeded.
pub fn put_complete_record(summary: &PutSummary) -> (r: PutStreamCompleteRecord)
    ensures
        is_complete_record(*summary, r),
{
    PutStreamCompleteRecord {
        attempt_id: summary.worker.attempt_id.clone(),
        mode: summary.mode.clone(),
        rows: usize_to_i64(summary.rows),
        batches: usize_to_i64(summary.batches),
        parts: usize_to_i32(summary.parts),
        flight_stream_bytes: u64_to_i64(summary.flight_stream_bytes),
        parquet_object_bytes: optional_u64_to_i64(summary.parquet_object_bytes),
        elapsed_ms: u128_to_i64(summary.elapsed_ms),
        files: put_file_records(summary),
    }
}

// ---------------------------------------------------------------------------
// Limits of a stream

/// Why a stream is cut off: it brought more than its budget.
pub open spec fn overrun_refusal(context: PutContext, observed_bytes: u64) -> Option<StatusView> {
    match context.stream_budget_bytes {
        Some(budget) => if observed_bytes > budget {
            Some(
                status_of(
                    Code::ResourceExhausted,
                    "DoPut stream exceeded byte budget; observed="@ + decimal_of(
                        observed_bytes as nat,
                    ) + ", budget="@ + decimal_of(budget as nat),
                ),
            )
        } else {
            None
        },
        None => None,
    }
}

/// Cuts off a stream that brought more than its budget.
pub fn enforce_stream_budget(context: &PutContext, observed_bytes: u64) -> (r: Result<(), Status>)
    ensures
        answers(r, overrun_refusal(*context, observed_bytes), |unit: ()| true),
{
    let budget: u64 = match context.stream_budget_bytes {
        Some(budget) => budget,
        None => return Ok(()),
    };
    if observed_bytes > budget {
        let mut message = "DoPut stream exceeded byte budget; observed=".to_owned();
        message.append(decimal(observed_bytes as u128).as_str());
        message.append(", budget=");
        message.append(decimal(budget as u128).as_str());
        return Err(Status::new(Code::ResourceExhausted, message));
    }
    Ok(())
}

/// The bytes that a stream has brought since it had brought `before`.
pub open spec fn brought_since(before: u64, seen: u64) -> int {
    at_least(seen - before, 0)
}

/// Why a batch is not taken: it came in more bytes than a batch may.
pub open spec fn batch_refusal(context: PutContext, batch_bytes: int) -> Option<StatusView> {
    if batch_bytes > context.max_record_batch_bytes {
        Some(
            status_of(
                Code::ResourceExhausted,
                "DoPut record batch exceeded byte limit; observed="@ + decimal_of(
                    batch_bytes as nat,
                ) + ", limit="@ + decimal_of(context.max_record_batch_bytes as nat),
            ),
        )
    } else {
        None
    }
}

/// Refuses a batch that came in more bytes than a batch may.
pub fn check_batch_bytes(context: &PutContext, batch_bytes: u64) -> (r: Result<(), Status>)
    ensures
        answers(r, batch_refusal(*context, batch_bytes as int), |unit: ()| true),
{
    if batch_bytes > context.max_record_batch_bytes {
        let mut message = "DoPut record batch exceeded byte limit; observed=".to_owned();
        message.append(decimal(batch_bytes as u128).as_str());
        message.append(", limit=");
        message.append(decimal(context.max_record_batch_bytes as u128).as_str());
        return Err(Status::new(Code::ResourceExhausted, message));
    }
    Ok(())
}

/// Why a batch is not taken from a stream that had brought `before` bytes with the batches before
/// it and has brought `seen` bytes now: the stream or the batch is too large.
pub open spec fn arrival_refusal(context: PutContext, before: u64, seen: u64) -> Option<
    StatusView,
> {
    either_refusal(
        overrun_refusal(context, seen),
        batch_refusal(context, brought_since(before, seen)),
    )
}

/// Holds a stream, and the batch that it has just brought, to the limits of the write.
pub fn check_arrival(context: &PutContext, before: u64, seen: u64) -> (r: Result<(), Status>)
    ensures
        answers(r, arrival_refusal(*context, before, seen), |unit: ()| true),
{
    match enforce_stream_budget(context, seen) {
        Err(status) => Err(status),
        Ok(_) => check_batch_bytes(context, seen.saturating_sub(before)),
    }
}

/// What became of the wait for the first message.
#[derive(Debug)]
pub enum FirstMessage {
    Arrived,
    Ended,
    Failed(Status),
}

/// Why a write ends without a first message.
pub open spec fn first_message_refusal(event: FirstMessage) -> Option<StatusView> {
    match event {
        FirstMessage::Arrived => None,
        FirstMessage::Ended => invalid("DoPut stream was empty"@),
        FirstMessage::Failed(status) => Some(status@),
    }
}

/// Goes on once the first message has arrived.
pub fn read_first_message(event: FirstMessage) -> (r: Result<(), Status>)
    ensures
        answers(r, first_message_refusal(event), |unit: ()| true),
{
    match event {
        FirstMessage::Arrived => Ok(()),
        FirstMessage::Ended => Err(Status::of(Code::InvalidArgument, "DoPut stream was empty")),
        FirstMessage::Failed(status) => Err(status),
    }
}

/// What became of the wait for the first batch.
#[derive(Debug)]
pub enum FirstBatch {
    Arrived,
    Ended,
    TimedOut,
    Failed(Status),
}

/// How long the first batch of a write may take, where zero stands for no limit.
pub open spec fn first_batch_limit_of(timeout_ms: u64) -> Option<u64> {
    if timeout_ms == 0 {
        None
    } else {
        Some(timeout_ms)
    }
}

/// How long the first batch is waited for in milliseconds; without limit where zero is set. An
/// admission that outlasts the limit is stale.
pub fn first_batch_limit(timeout_ms: u64) -> (r: Option<u64>)
    ensures
        r == first_batch_limit_of(timeout_ms),
{
    if timeout_ms == 0 {
        None
    } else {
        Some(timeout_ms)
    }
}

/// Why a write ends without a first batch.
pub open spec fn first_batch_refusal(event: FirstBatch, timeout_ms: u64) -> Option<StatusView> {
    match event {
        FirstBatch::Arrived => None,
        FirstBatch::Ended => invalid("DoPut stream did not contain record batches"@),
        FirstBatch::TimedOut => Some(
            status_of(
                Code::DeadlineExceeded,
                "timed out waiting "@ + decimal_of(timeout_ms as nat)
                    + "ms for first DoPut record batch after admission"@,
            ),
        ),
        FirstBatch::Failed(status) => Some(status@),
    }
}

/// Goes on once the first batch has arrived.
pub fn read_first_batch(event: FirstBatch, timeout_ms: u64) -> (r: Result<(), Status>)
    ensures
        answers(r, first_batch_refusal(event, timeout_ms), |unit: ()| true),
{
    match event {
        FirstBatch::Arrived => Ok(()),
        FirstBatch::Ended => Err(
            Status::of(Code::InvalidArgument, "DoPut stream did not contain record batches"),
        ),
        FirstBatch::TimedOut => {
            let mut message = "timed out waiting ".to_owned();
            message.append(decimal(timeout_ms as u128).as_str());
            message.append("ms for first DoPut record batch after admission");
            Err(Status::new(Code::DeadlineExceeded, message))
        },
        FirstBatch::Failed(status) => Err(status),
    }
}

/// What the record of a write says that never sent its first batch.
pub fn stale_admission_message(timeout_ms: u64) -> (r: String)
    ensures
        r@ == "timed out waiting "@ + decimal_of(timeout_ms as nat)
            + "ms for first DoPut record batch"@,
{
    let mut message = "timed out waiting ".to_owned();
    message.append(decimal(timeout_ms as u128).as_str());
    message.append("ms for first DoPut record batch");
    message
}

/// The lengths of the parts of a Flight message.
#[derive(Debug)]
pub struct FlightDataSizes {
    pub app_metadata: usize,
    pub data_body: usize,
    pub data_header: usize,
    pub descriptor: Option<DescriptorSizes>,
}

/// The lengths of the parts of a descriptor.
#[derive(Debug)]
pub struct DescriptorSizes {
    pub cmd: usize,
    pub path: Vec<usize>,
}

/// The bytes of a descriptor.
pub open spec fn descriptor_size_of(descriptor: Option<DescriptorSizes>) -> nat {
    match descriptor {
        Some(descriptor) => descriptor.cmd as nat + sum_of(descriptor.path@),
        None => 0,
    }
}

/// The bytes of a Flight message.
pub open spec fn flight_data_size_of(data: FlightDataSizes) -> nat {
    data.app_metadata as nat + data.data_body as nat + data.data_header as nat
        + descriptor_size_of(data.descriptor)
}

/// The bytes of a Flight message whose size can be represented.
pub fn flight_data_size(data: &FlightDataSizes) -> (r: u64)
    requires
        flight_data_size_of(*data) <= usize::MAX,
    ensures
        r == flight_data_size_of(*data),
{
    let descriptor: usize = match &data.descriptor {
        Some(descriptor) => {
            proof {
                assert(sum_of(descriptor.path@) <= usize::MAX);
            }
            descriptor.cmd + total_size(&descriptor.path) as usize
        },
        None => 0,
    };
    (data.app_metadata + data.data_body + data.data_header + descriptor) as u64
}

/// The bytes of a Flight message, where its size can be represented.
pub fn checked_flight_data_size(data: &FlightDataSizes) -> (r: Option<u64>)
    ensures
        r == (if flight_data_size_of(*data) <= usize::MAX {
            Some(flight_data_size_of(*data) as u64)
        } else {
            None
        }),
{
    let descriptor: u128 = match &data.descriptor {
        Some(descriptor) => match checked_total_size(&descriptor.path) {
            Some(path) => descriptor.cmd as u128 + path as u128,
            None => return None,
        },
        None => 0,
    };
    let total: u128 = data.app_metadata as u128 + data.data_body as u128 + data.data_header as u128
        + descriptor;
    if total > usize::MAX as u128 {
        return None;
    }
    Some(flight_data_size(data))
}

// ---------------------------------------------------------------------------
// Actions and calls that a worker does not serve

/// Why an action is refused.
pub open spec fn action_refusal(action: Seq<char>) -> Option<StatusView> {
    if action == status_action() {
        None
    } else {
        Some(
            status_of(Code::Unimplemented, "unsupported worker action "@ + quoted_of(action)),
        )
    }
}

/// Accepts the action that returns the snapshot.
pub fn check_action(action: &str) -> (r: Result<(), Status>)
    ensures
        answers(
            r,
            action_refusal(action@),
            |unit: ()| true,
        ),
{
    if text_eq(action, "worker.status") {
        return Ok(());
    }
    let mut message = "unsupported worker action ".to_owned();
    message.append(quoted(action).as_str());
    Err(Status::new(Code::Unimplemented, message))
}

/// An action that a worker serves.
#[derive(Debug)]
pub struct WorkerAction {
    pub name: String,
    pub description: String,
}

/// Whether actions are those that a worker serves.
pub open spec fn are_actions(actions: Seq<WorkerAction>) -> bool {
    &&& actions.len() == 1
    &&& actions[0].name@ == status_action()
    &&& actions[0].description@
        == "Return raw Parquet worker readiness and capacity snapshot as JSON"@
}

/// The actions that a worker serves: each is one that `check_action` accepts.
pub fn list_actions() -> (r: Vec<WorkerAction>)
    ensures
        are_actions(r@),
{
    let mut actions: Vec<WorkerAction> = Vec::new();
    actions.push(
        WorkerAction {
            name: "worker.status".to_owned(),
            description: "Return raw Parquet worker readiness and capacity snapshot as JSON".to_owned(),
        },
    );
    actions
}

/// A Flight call that a worker does not serve.
#[derive(Clone, Copy, Debug, PartialEq, Eq, Structural)]
pub enum UnservedCall {
    GetFlightInfo,
    PollFlightInfo,
    GetSchema,
    DoExchange,
}

/// What a call is answered with that a worker does not serve.
pub fn unserved(call: UnservedCall) -> (r: Status)
    ensures
        r@ == status_of(
            Code::Unimplemented,
            match call {
                UnservedCall::GetFlightInfo =>
                    "GetFlightInfo is owned by the Java coordinator; worker only accepts direct DoPut/DoGet tickets"@,
                UnservedCall::PollFlightInfo => "PollFlightInfo is not implemented"@,
                UnservedCall::GetSchema => "GetSchema is not implemented"@,
                UnservedCall::DoExchange => "DoExchange is not implemented"@,
            },
        ),
{
    let message = match call {
        UnservedCall::GetFlightInfo =>
            "GetFlightInfo is owned by the Java coordinator; worker only accepts direct DoPut/DoGet tickets",
        UnservedCall::PollFlightInfo => "PollFlightInfo is not implemented",
        UnservedCall::GetSchema => "GetSchema is not implemented",
        UnservedCall::DoExchange => "DoExchange is not implemented",
    };
    Status::of(Code::Unimplemented, message)
}

// ---------------------------------------------------------------------------
// Laws of snapshots

/// A snapshot shows the slots as they are: the limits and the waits of the configuration, the
/// streams that run, and as many free slots as are left of the limit.
pub proof fn law_snapshot_shows_the_slots(
    service: WorkerFlightService,
    put_writers: WorkerWriterCapacity,
    runtime: WorkerRuntimeStatus,
    status: WorkerStatus,
)
    requires
        is_snapshot(service, put_writers, runtime, status),
    ensures
        status.put.limit == service.config.worker.max_active_put_streams,
        status.put.active == service.active_put_streams,
        status.put.slot_wait_ms == service.config.worker.put_slot_wait_ms,
        status.put.active <= status.put.limit ==> status.put.active + status.put.available
            == status.put.limit,
        status.put.active > status.put.limit ==> status.put.available == 0,
        status.read.limit == service.config.worker.max_active_read_streams,
        status.read.active == service.active_read_streams,
        status.read.slot_wait_ms == service.config.worker.read_slot_wait_ms,
        status.read.active <= status.read.limit ==> status.read.active + status.read.available
            == status.read.limit,
        status.read.active > status.read.limit ==> status.read.available == 0,
        status.put_writers == put_writers,
        status.runtime == runtime,
        status.draining == service.draining,
        status.state == WorkerState::Draining <==> service.draining,
        status.worker_id@ == service.config.worker.worker_id@,
        status.flight_uri@ == service.config.worker.flight_uri@,
        opt_text(status.locality.zone) == opt_text(service.config.worker.zone),
        status.heartbeat_interval_ms == service.config.worker.registry_heartbeat_interval_ms,
        status.registry_ttl_ms == service.config.worker.registry_ttl_ms,
        status.capabilities == capabilities_of(service.config, put_writers),
{
}

/// A snapshot shows the memory as it is: of each pool the whole budget, what is in use, and the
/// rest, in bytes, with the limits of the configuration.
pub proof fn law_snapshot_shows_the_memory(
    service: WorkerFlightService,
    put_writers: WorkerWriterCapacity,
    runtime: WorkerRuntimeStatus,
    status: WorkerStatus,
)
    requires
        is_snapshot(service, put_writers, runtime, status),
        service.put_memory.well_formed(),
        service.read_memory.well_formed(),
    ensures
        ({
            let resources = service.config.resources;
            let put = status.resources.put;
            let read = status.resources.read;
            &&& status.resources.worker_cpu_millicores == resources.worker_cpu_millicores
            &&& status.resources.worker_memory_bytes == resources.worker_memory_bytes
            &&& status.resources.reserved_memory_bytes == resources.reserved_memory_bytes
            &&& put.limit_bytes == service.put_memory.total_units * 0x10_0000
            &&& put.active_bytes == service.put_memory.active_units * 0x10_0000
            &&& put.active_bytes + put.available_bytes == put.limit_bytes
            &&& put.max_stream_memory_bytes == resources.put_max_stream_memory_bytes
            &&& put.max_record_batch_bytes == resources.put_max_record_batch_bytes
            &&& put.max_batch_rows is None
            &&& read.limit_bytes == service.read_memory.total_units * 0x10_0000
            &&& read.active_bytes == service.read_memory.active_units * 0x10_0000
            &&& read.active_bytes + read.available_bytes == read.limit_bytes
            &&& read.max_stream_memory_bytes == resources.read_max_stream_memory_bytes
            &&& read.max_record_batch_bytes == resources.read_max_record_batch_bytes
            &&& read.max_batch_rows == Some(resources.read_max_batch_rows)
        }),
{
}

/// The signal of a snapshot for writes is about the write slots and the write memory: it grants no
/// more streams than slots are free outside the reserve, than memory is free for, and than one
/// upload may have, and it grants one of these. So does the signal for reads about the read slots.
pub proof fn law_snapshot_grants(
    service: WorkerFlightService,
    put_writers: WorkerWriterCapacity,
    runtime: WorkerRuntimeStatus,
    status: WorkerStatus,
)
    requires
        is_snapshot(service, put_writers, runtime, status),
        !service.draining,
        service.put_memory.well_formed(),
        service.read_memory.well_formed(),
        service.config.worker.max_put_streams_per_upload >= 1,
        service.config.worker.max_read_streams_per_operation >= 1,
        service.config.resources.put_max_stream_memory_bytes >= 1,
        service.config.resources.read_max_stream_memory_bytes >= 1,
    ensures
        ({
            let put = status.scheduler.put;
            let worker = service.config.worker;
            let free = status.put.available - worker.put_scheduler_reserved_slots;
            &&& put.reserved_slots == worker.put_scheduler_reserved_slots
            &&& put.max_streams_per_operation == worker.max_put_streams_per_upload
            &&& put.recommended_streams > 0 ==> put.recommended_streams <= free
            &&& put.recommended_streams <= worker.max_put_streams_per_upload
            &&& put.recommended_streams * service.config.resources.put_max_stream_memory_bytes
                <= status.resources.put.available_bytes
            &&& put.recommended_streams == 0 && free <= 0 || put.recommended_streams == free
                || put.recommended_streams == worker.max_put_streams_per_upload
                || put.recommended_streams == put.memory_available_streams
        }),
        ({
            let read = status.scheduler.read;
            let worker = service.config.worker;
            let free = status.read.available - worker.read_scheduler_reserved_slots;
            &&& read.reserved_slots == worker.read_scheduler_reserved_slots
            &&& read.max_streams_per_operation == worker.max_read_streams_per_operation
            &&& read.recommended_streams > 0 ==> read.recommended_streams <= free
            &&& read.recommended_streams <= worker.max_read_streams_per_operation
            &&& read.recommended_streams * service.config.resources.read_max_stream_memory_bytes
                <= status.resources.read.available_bytes
            &&& read.recommended_streams == 0 && free <= 0 || read.recommended_streams == free
                || read.recommended_streams == worker.max_read_streams_per_operation
                || read.recommended_streams == read.memory_available_streams
        }),
{
    let resources = service.config.resources;
    lemma_streams_fit(service.put_memory, resources.put_max_stream_memory_bytes);
    lemma_streams_fit(service.read_memory, resources.read_max_stream_memory_bytes);
    let put = status.scheduler.put;
    let read = status.scheduler.read;
    let put_streams = service.put_memory.streams_of(resources.put_max_stream_memory_bytes as nat);
    let read_streams = service.read_memory.streams_of(
        resources.read_max_stream_memory_bytes as nat,
    );
    assert(put.recommended_streams * resources.put_max_stream_memory_bytes <= put_streams
        * resources.put_max_stream_memory_bytes) by (nonlinear_arith)
        requires
            put.recommended_streams <= put_streams,
    ;
    assert(read.recommended_streams * resources.read_max_stream_memory_bytes <= read_streams
        * resources.read_max_stream_memory_bytes) by (nonlinear_arith)
        requires
            read.recommended_streams <= read_streams,
    ;
}

proof fn lemma_streams_fit(limiter: ResourceLimiter, bytes: u64)
    requires
        limiter.well_formed(),
        bytes >= 1,
    ensures
        limiter.streams_of(bytes as nat) * bytes <= limiter.total_of() - limiter.active_of(),
        0 <= limiter.streams_of(bytes as nat) <= usize::MAX,
{
    let free = limiter.total_of() - limiter.active_of();
    let size = bytes as int;
    assert(0 <= free / size && (free / size) * size <= free) by (nonlinear_arith)
        requires
            free >= 0,
            size >= 1,
    ;
    let streams = limiter.streams_of(bytes as nat);
    assert(streams * size <= (free / size) * size) by (nonlinear_arith)
        requires
            streams <= free / size,
            size >= 1,
    ;
}

/// A draining worker takes no stream: its snapshot grants none, and a request for a slot is refused
/// as unavailable. A worker that does not drain refuses no request.
pub proof fn law_draining_takes_nothing(
    service: WorkerFlightService,
    put_writers: WorkerWriterCapacity,
    runtime: WorkerRuntimeStatus,
    status: WorkerStatus,
    words: Seq<char>,
)
    requires
        is_snapshot(service, put_writers, runtime, status),
    ensures
        service.draining ==> !status.scheduler.put.allowed && !status.scheduler.read.allowed
            && status.scheduler.put.recommended_streams == 0
            && status.scheduler.read.recommended_streams == 0,
        service.draining ==> (draining_refusal(service.draining, words) matches Some(status)
            && status.code == Code::Unavailable && status.message == words),
        !service.draining ==> draining_refusal(service.draining, words) is None,
{
}

/// A worker announces what it is configured for, writes and reads apart.
pub proof fn law_announced_limits(config: AppConfig, put_writers: WorkerWriterCapacity)
    ensures
        ({
            let announced = capabilities_of(config, put_writers);
            let resources = config.resources;
            &&& announced.put_parallelism == config.parquet.put_parallelism
            &&& announced.max_active_put_writers == put_writers.limit
            &&& announced.put_queue_depth == config.parquet.put_queue_depth
            &&& announced.max_put_streams_per_upload == config.worker.max_put_streams_per_upload
            &&& announced.max_put_stream_bytes == config.worker.max_put_stream_bytes
            &&& announced.put_max_stream_memory_bytes == resources.put_max_stream_memory_bytes
            &&& announced.put_max_record_batch_bytes == resources.put_max_record_batch_bytes
            &&& announced.read_max_streams_per_operation
                == config.worker.max_read_streams_per_operation
            &&& announced.read_batch_size == config.read_batch_size
            &&& announced.read_max_stream_memory_bytes == resources.read_max_stream_memory_bytes
            &&& announced.read_max_record_batch_bytes == resources.read_max_record_batch_bytes
            &&& announced.read_max_batch_rows == resources.read_max_batch_rows
            &&& announced.flight_data_chunk_size == config.flight_data_chunk_size
            &&& announced.capability_version == 1
            &&& announced.signed_capabilities_required
                == config.security.require_signed_capabilities
            &&& announced.capability_worker_binding_required
                == config.security.require_capability_worker_binding
        }),
{
}

/// The running counts of a snapshot are the counters of the worker, writes and reads apart, with
/// the streams that were not admitted beside them.
pub proof fn law_runtime_tells_of_the_counters(
    service: WorkerFlightService,
    metrics: WorkerMetrics,
)
    ensures
        ({
            let put = runtime_of(service, metrics).put;
            &&& put.started_total == metrics.put_started
            &&& put.succeeded_total == metrics.put_succeeded
            &&& put.failed_total == metrics.put_failed
            &&& put.rejected_total == service.put_rejected
            &&& put.rows_total == metrics.put_rows
            &&& put.batches_total == metrics.put_batches
            &&& put.files_total == metrics.put_files
            &&& put.flight_stream_bytes_total == metrics.put_flight_stream_bytes
            &&& put.parquet_object_bytes_total == metrics.put_parquet_object_bytes
            &&& put.admission_wait_ms_ewma == 0
            &&& put.duration_ms_ewma == 0
            &&& put.throughput_bytes_per_sec_ewma == 0
        }),
        ({
            let read = runtime_of(service, metrics).read;
            &&& read.started_total == metrics.get_started
            &&& read.succeeded_total == metrics.get_succeeded
            &&& read.failed_total == metrics.get_failed
            &&& read.rejected_total == service.read_rejected
            &&& read.cancelled_total == metrics.get_cancelled
            &&& read.object_bytes_total == metrics.get_object_bytes
            &&& read.admission_wait_ms_ewma == 0
            &&& read.duration_ms_ewma == 0
            &&& read.throughput_bytes_per_sec_ewma == 0
        }),
{
}

// ---------------------------------------------------------------------------
// Laws of contexts

/// The stream limit of an upload never exceeds the worker's own limit, or one where that is zero,
/// whatever a client asks for; nor does it exceed what the client asks for, or one. It is at least
/// one, it is what the client asks for where the worker allows that, and only a write that belongs
/// to an upload has one.
pub proof fn law_upload_limit_is_the_workers(
    options: PutOptions,
    config: AppConfig,
    fresh_id: Seq<char>,
    context: PutContext,
)
    requires
        is_context(options, config, fresh_id, context),
    ensures
        options.upload_id is Some <==> context.upload_stream_limit is Some,
        ({
            let most: int = if config.worker.max_put_streams_per_upload >= 1 {
                config.worker.max_put_streams_per_upload as int
            } else {
                1
            };
            context.upload_stream_limit matches Some(limit) ==> {
                &&& 1 <= limit <= most
                &&& options.max_upload_streams is None ==> limit == most
                &&& options.max_upload_streams matches Some(asked) ==> {
                    &&& limit <= asked || limit == 1
                    &&& 1 <= asked <= most ==> limit == asked
                    &&& asked > most ==> limit == most
                }
            }
        }),
{
}

/// The byte budget of a write is the smaller of the worker's limit and the client's positive one:
/// it exceeds neither, it is one of them, and there is none only where neither is set.
pub proof fn law_stream_budget_is_the_smaller(
    options: PutOptions,
    config: AppConfig,
    fresh_id: Seq<char>,
    context: PutContext,
)
    requires
        is_context(options, config, fresh_id, context),
    ensures
        config.worker.max_put_stream_bytes matches Some(most)
            ==> context.stream_budget_bytes is Some && context.stream_budget_bytes->0 <= most,
        options.max_stream_bytes matches Some(asked) ==> asked > 0
            ==> context.stream_budget_bytes is Some && context.stream_budget_bytes->0 <= asked,
        context.stream_budget_bytes is Some ==> context.stream_budget_bytes
            == config.worker.max_put_stream_bytes || context.stream_budget_bytes
            == options.max_stream_bytes && options.max_stream_bytes != Some(0u64),
        context.max_record_batch_bytes == config.resources.put_max_record_batch_bytes,
{
}

/// A write runs under the names that its client gave, without the white space around them, an
/// attempt without a name under the fresh one. Its staging prefix is the client's in its clean
/// form, with one slash behind it.
pub proof fn law_context_carries_the_names(
    options: PutOptions,
    config: AppConfig,
    fresh_id: Seq<char>,
    context: PutContext,
)
    requires
        is_context(options, config, fresh_id, context),
    ensures
        context.operation_id is None,
        options.attempt_id matches Some(id) ==> context.attempt_id@ == trim_of(id@),
        options.attempt_id is None ==> context.attempt_id@ == fresh_id,
        options.upload_id is Some <==> context.upload_id is Some,
        options.upload_id matches Some(id) ==> context.upload_id->0@ == trim_of(id@),
        options.stream_id is Some <==> context.stream_id is Some,
        options.stream_id matches Some(id) ==> context.stream_id->0@ == trim_of(id@),
        options.staging_prefix is Some <==> context.staging_prefix is Some,
        options.staging_prefix matches Some(prefix) ==> context.staging_prefix->0@
            == clean_path_of(prefix@) + "/"@,
        context.target_file_size == options.target_file_size,
{
}

/// A write is accepted exactly where its names may be used, its key lies under its staging prefix
/// if it has one, it has one if the worker requires that, and the size that it announces exceeds
/// neither the worker's limit nor the client's own.
pub proof fn law_accepted_writes(key: Seq<char>, options: PutOptions, config: AppConfig)
    ensures
        context_refusal(key, options, config) is None <==> {
            &&& options.attempt_id matches Some(id) ==> id_refusal("attempt_id"@, Some(id@)) is None
            &&& options.upload_id matches Some(id) ==> id_refusal("upload_id"@, Some(id@)) is None
            &&& options.stream_id matches Some(id) ==> id_refusal("stream_id"@, Some(id@)) is None
            &&& options.staging_prefix matches Some(prefix) ==> {
                &&& clean_path_of(prefix@).len() > 0
                &&& has_prefix(key, clean_path_of(prefix@) + "/"@)
            }
            &&& config.worker.require_staging_prefix ==> options.staging_prefix is Some
            &&& options.input_file_bytes matches Some(bytes) ==> {
                &&& config.worker.max_put_stream_bytes matches Some(most) ==> bytes <= most
                &&& options.max_stream_bytes matches Some(asked) ==> asked == 0 || bytes <= asked
            }
        },
{
}

// ---------------------------------------------------------------------------
// Laws of admission

/// A slot is got exactly where it was acquired. One that is not free, or did not become free in
/// time, is refused as exhausted, and the two refusals say which it was.
pub proof fn law_slot_refusals(
    outcome: PermitOutcome,
    none_free: Seq<char>,
    timed_out: Seq<char>,
)
    ensures
        slot_refusal(outcome, none_free, timed_out) is None <==> outcome is Acquired,
        outcome is NoPermits ==> slot_refusal(outcome, none_free, timed_out) == Some(
            status_of(Code::ResourceExhausted, none_free),
        ),
        outcome is TimedOut ==> slot_refusal(outcome, none_free, timed_out) == Some(
            status_of(Code::ResourceExhausted, timed_out),
        ),
        outcome matches PermitOutcome::Closed(words) ==> slot_refusal(
            outcome,
            none_free,
            timed_out,
        ) == Some(status_of(Code::Internal, words@)),
{
}

/// A slot is waited for no longer than the configured time, and not at all where that is zero.
pub proof fn law_slot_wait(wait_ms: u64)
    ensures
        request_of(wait_ms) is Immediate <==> wait_ms == 0,
        request_of(wait_ms) matches PermitRequest::Within(limit) ==> limit == wait_ms,
{
}

/// An upload never has more streams than its limit: one more is admitted exactly while fewer than
/// the limit run, and it is then counted for this upload and for no other. A write without an
/// upload is never refused and counted for none.
pub proof fn law_upload_streams_are_limited(
    streams: Map<Seq<char>, usize>,
    context: PutContext,
    other: Seq<char>,
)
    ensures
        context.upload_id is None ==> limit_refusal(streams, context) is None && streams_admitted(
            streams,
            context,
        ) == streams,
        context.upload_id matches Some(upload) ==> context.upload_stream_limit matches Some(limit)
            ==> {
            let running: int = if streams.contains_key(upload@) {
                streams[upload@] as int
            } else {
                0
            };
            &&& limit_refusal(streams, context) is None <==> running < limit
            &&& running < limit ==> {
                let after = streams_admitted(streams, context);
                &&& after.contains_key(upload@) && after[upload@] == running + 1
                &&& after[upload@] <= limit
                &&& other != upload@ ==> (after.contains_key(other) <==> streams.contains_key(
                    other,
                ))
                &&& other != upload@ && streams.contains_key(other) ==> after[other]
                    == streams[other]
            }
        },
{
}

/// What a write is told of its admission is the worker, the names and limits that it runs under,
/// and the streams that run with it, of the worker and of its upload.
pub proof fn law_admission_is_told(
    service: WorkerFlightService,
    context: PutContext,
    admission_wait_ms: u128,
    summary: WorkerPutSummary,
)
    requires
        is_admission_summary(service, context, admission_wait_ms, summary),
        service.active_put_streams < usize::MAX,
        limit_refusal(service.upload_streams@, context) is None,
    ensures
        summary.worker_id@ == service.config.worker.worker_id@,
        opt_text(summary.operation_id) == opt_text(context.operation_id),
        summary.attempt_id@ == context.attempt_id@,
        opt_text(summary.upload_id) == opt_text(context.upload_id),
        opt_text(summary.stream_id) == opt_text(context.stream_id),
        opt_text(summary.staging_prefix) == opt_text(context.staging_prefix),
        summary.admission_wait_ms == admission_wait_ms,
        summary.global_put_stream_limit == service.config.worker.max_active_put_streams,
        summary.upload_put_stream_limit == context.upload_stream_limit,
        summary.active_put_streams_at_admit == service.active_put_streams + 1,
        summary.stream_budget_bytes == context.stream_budget_bytes,
        context.upload_id is None ==> summary.upload_active_streams_at_admit is None,
        context.upload_id matches Some(upload) ==> context.upload_stream_limit matches Some(limit)
            ==> {
            let streams = service.upload_streams@;
            &&& summary.upload_active_streams_at_admit matches Some(running)
            &&& 1 <= running <= limit
            &&& streams.contains_key(upload@) ==> running == streams[upload@] + 1
            &&& !streams.contains_key(upload@) ==> running == 1
        },
{
}

// ---------------------------------------------------------------------------
// Laws of rows

/// The row of each file tells of that file: its path and its index, and the rows, the batches and
/// the bytes that went into it, as far as the columns hold them, under the key and the names of the
/// write.
pub proof fn law_file_records_tell_of_the_files(
    summary: PutSummary,
    records: Seq<PutFileRecord>,
    i: int,
)
    requires
        are_file_records(summary, records),
        0 <= i < records.len(),
    ensures
        records.len() == summary.files@.len(),
        ({
            let file = summary.files@[i];
            let record = records[i];
            &&& record.attempt_id@ == summary.worker.attempt_id@
            &&& opt_text(record.upload_id) == opt_text(summary.worker.upload_id)
            &&& opt_text(record.stream_id) == opt_text(summary.worker.stream_id)
            &&& record.worker_id@ == summary.worker.worker_id@
            &&& record.logical_key@ == summary.key@
            &&& record.file_path@ == file.key@
            &&& is_clipped(file.part_index as int, record.part_index as int, 0x7fff_ffff)
            &&& is_clipped(file.rows as int, record.rows as int, 0x7fff_ffff_ffff_ffff)
            &&& is_clipped(file.batches as int, record.batches as int, 0x7fff_ffff_ffff_ffff)
            &&& is_clipped(
                file.flight_stream_bytes as int,
                record.flight_stream_bytes as int,
                0x7fff_ffff_ffff_ffff,
            )
            &&& is_clipped(
                file.parquet_object_bytes as int,
                record.parquet_object_bytes as int,
                0x7fff_ffff_ffff_ffff,
            )
        }),
{
    assert(is_file_record(summary, summary.files@[i], records[i]));
}

/// The row that ends a write tells of the whole write what its summary tells, as far as the columns
/// hold it, and goes with one row for each file.
pub proof fn law_complete_record_tells_of_the_write(
    summary: PutSummary,
    record: PutStreamCompleteRecord,
)
    requires
        is_complete_record(summary, record),
    ensures
        record.attempt_id@ == summary.worker.attempt_id@,
        record.mode@ == summary.mode@,
        is_clipped(summary.rows as int, record.rows as int, 0x7fff_ffff_ffff_ffff),
        is_clipped(summary.batches as int, record.batches as int, 0x7fff_ffff_ffff_ffff),
        is_clipped(summary.parts as int, record.parts as int, 0x7fff_ffff),
        is_clipped(
            summary.flight_stream_bytes as int,
            record.flight_stream_bytes as int,
            0x7fff_ffff_ffff_ffff,
        ),
        is_clipped(summary.elapsed_ms as int, record.elapsed_ms as int, 0x7fff_ffff_ffff_ffff),
        summary.parquet_object_bytes is Some <==> record.parquet_object_bytes is Some,
        summary.parquet_object_bytes matches Some(bytes) ==> is_clipped(
            bytes as int,
            record.parquet_object_bytes->0 as int,
            0x7fff_ffff_ffff_ffff,
        ),
        record.files@.len() == summary.files@.len(),
        are_file_records(summary, record.files@),
{
}

/// The row that starts a write tells under which names, limits and settings it runs, as far as the
/// columns hold them; what was so at its admission is told only of a write that was admitted.
pub proof fn law_start_record_tells_of_the_write(
    config: AppConfig,
    key: Seq<char>,
    context: PutContext,
    summary: Option<&WorkerPutSummary>,
    options: PutOptions,
    record: PutStreamStartRecord,
)
    requires
        is_start_record(config, key, context, summary, options, record),
    ensures
        record.attempt_id@ == context.attempt_id@,
        opt_text(record.upload_id) == opt_text(context.upload_id),
        opt_text(record.stream_id) == opt_text(context.stream_id),
        record.worker_id@ == config.worker.worker_id@,
        record.key@ == key,
        opt_text(record.staging_prefix) == opt_text(context.staging_prefix),
        record.compression@ == config.parquet.compression_name@,
        options.target_file_size is None ==> opt_text(record.mode) == Some("single"@)
            && record.target_file_size is None,
        options.target_file_size matches Some(size) ==> opt_text(record.mode) == Some(
            "sized_dataset"@,
        ) && record.target_file_size is Some && is_clipped(
            size as int,
            record.target_file_size->0 as int,
            0x7fff_ffff_ffff_ffff,
        ),
        options.input_file_bytes is Some <==> record.client_input_file_bytes is Some,
        options.input_file_bytes matches Some(bytes) ==> is_clipped(
            bytes as int,
            record.client_input_file_bytes->0 as int,
            0x7fff_ffff_ffff_ffff,
        ),
        context.stream_budget_bytes is Some <==> record.stream_budget_bytes is Some,
        context.stream_budget_bytes matches Some(bytes) ==> is_clipped(
            bytes as int,
            record.stream_budget_bytes->0 as int,
            0x7fff_ffff_ffff_ffff,
        ),
        is_clipped(
            config.worker.max_active_put_streams as int,
            record.global_put_stream_limit as int,
            0x7fff_ffff,
        ),
        context.upload_stream_limit is Some <==> record.upload_put_stream_limit is Some,
        context.upload_stream_limit matches Some(limit) ==> is_clipped(
            limit as int,
            record.upload_put_stream_limit->0 as int,
            0x7fff_ffff,
        ),
        is_clipped(
            config.parquet.multipart_part_size as int,
            record.multipart_part_size as int,
            0x7fff_ffff_ffff_ffff,
        ),
        is_clipped(
            config.parquet.multipart_max_concurrency as int,
            record.multipart_max_concurrency as int,
            0x7fff_ffff,
        ),
        summary is None ==> record.active_put_streams_at_admit is None
            && record.upload_active_streams_at_admit is None,
        summary matches Some(told) ==> {
            &&& record.active_put_streams_at_admit matches Some(running)
            &&& is_clipped(told.active_put_streams_at_admit as int, running as int, 0x7fff_ffff)
            &&& told.upload_active_streams_at_admit is Some
                <==> record.upload_active_streams_at_admit is Some
            &&& told.upload_active_streams_at_admit matches Some(streams) ==> is_clipped(
                streams as int,
                record.upload_active_streams_at_admit->0 as int,
                0x7fff_ffff,
            )
        },
{
}

// ---------------------------------------------------------------------------
// Laws of streams

/// A batch is taken exactly where the stream with it stays within its budget, if it has one, and
/// the bytes since the batch before stay within the limit of a batch.
pub proof fn law_taken_batches(context: PutContext, before: u64, seen: u64)
    requires
        before <= seen,
    ensures
        arrival_refusal(context, before, seen) is None <==> {
            &&& context.stream_budget_bytes matches Some(budget) ==> seen <= budget
            &&& seen - before <= context.max_record_batch_bytes
        },
        arrival_refusal(context, before, seen) matches Some(status) ==> status.code
            == Code::ResourceExhausted,
{
}

/// A write goes on exactly where its first message and its first batch have come. One that ended
/// before is refused for its argument, and one that came too late because of the time.
pub proof fn law_first_arrivals(message: FirstMessage, batch: FirstBatch, timeout_ms: u64)
    ensures
        first_message_refusal(message) is None <==> message is Arrived,
        message is Ended ==> (first_message_refusal(message) matches Some(status) && status.code
            == Code::InvalidArgument),
        message matches FirstMessage::Failed(cause) ==> first_message_refusal(message) == Some(
            cause@,
        ),
        first_batch_refusal(batch, timeout_ms) is None <==> batch is Arrived,
        batch is Ended ==> (first_batch_refusal(batch, timeout_ms) matches Some(status)
            && status.code == Code::InvalidArgument),
        batch is TimedOut ==> (first_batch_refusal(batch, timeout_ms) matches Some(status)
            && status.code == Code::DeadlineExceeded),
        batch matches FirstBatch::Failed(cause) ==> first_batch_refusal(batch, timeout_ms) == Some(
            cause@,
        ),
{
}

/// Every byte of a message counts once: each part adds its length to the size, a further path
/// component its own, and a message without a descriptor has no more than its other parts.
pub proof fn law_every_byte_counts(
    plain: FlightDataSizes,
    data: FlightDataSizes,
    longer: FlightDataSizes,
)
    requires
        plain.descriptor is None,
        data.descriptor is Some && longer.descriptor is Some,
        plain.app_metadata == data.app_metadata == longer.app_metadata,
        plain.data_body == data.data_body == longer.data_body,
        plain.data_header == data.data_header == longer.data_header,
        longer.descriptor->0.cmd == data.descriptor->0.cmd,
        longer.descriptor->0.path@.len() > 0,
        longer.descriptor->0.path@.drop_last() == data.descriptor->0.path@,
    ensures
        flight_data_size_of(plain) == plain.app_metadata + plain.data_body + plain.data_header,
        data.descriptor->0.path@.len() == 0 ==> flight_data_size_of(data) == flight_data_size_of(
            plain,
        ) + data.descriptor->0.cmd,
        flight_data_size_of(longer) == flight_data_size_of(data)
            + longer.descriptor->0.path@.last(),
{
}

// ---------------------------------------------------------------------------
// Laws of counts

/// An admitted write is one more active write; one that is turned away leaves the count and the
/// streams of the uploads and gives its memory back; one that ends is one less. The memory that the
/// write reserved stays in use from its admission to its end.
pub proof fn law_writes_are_counted(
    before: WorkerFlightService,
    context: PutContext,
    upload_id: Option<Seq<char>>,
    units: u32,
    after: WorkerFlightService,
)
    requires
        before.put_memory.well_formed(),
        units <= before.put_memory.active_units,
    ensures
        is_put_admitted(before, context, after) && before.active_put_streams < usize::MAX
            ==> after.active_put_streams == before.active_put_streams + 1
            && after.put_memory.active_of() == before.put_memory.active_of(),
        is_put_turned_away(before, units, after) ==> after.active_put_streams
            == before.active_put_streams && after.upload_streams@ == before.upload_streams@
            && after.put_memory.active_of() == before.put_memory.active_of() - units * 0x10_0000,
        is_put_finished(before, upload_id, units, after) && before.active_put_streams > 0
            ==> after.active_put_streams == before.active_put_streams - 1
            && after.put_memory.active_of() == before.put_memory.active_of() - units * 0x10_0000,
        only_puts_change(before, after) ==> after.active_read_streams
            == before.active_read_streams && after.read_memory == before.read_memory
            && after.draining == before.draining && after.config == before.config
            && after.put_rejected == before.put_rejected && after.read_rejected
            == before.read_rejected,
{
    crate::resource::law_memory_in_use(before.put_memory, units);
}

/// The end of an admitted write undoes its admission and the reservation of its memory.
pub proof fn law_write_leaves_no_trace(
    before: WorkerFlightService,
    context: PutContext,
    units: u32,
    reserved: WorkerFlightService,
    admitted: WorkerFlightService,
    finished: WorkerFlightService,
)
    requires
        before.well_formed(),
        context.upload_id is Some <==> context.upload_stream_limit is Some,
        limit_refusal(before.upload_streams@, context) is None,
        reserved == (WorkerFlightService {
            put_memory: before.put_memory.after_reserve(units),
            ..before
        }),
        is_put_admitted(reserved, context, admitted),
        is_put_finished(admitted, opt_text(context.upload_id), units, finished),
    ensures
        finished.active_put_streams == before.active_put_streams,
        finished.upload_streams@ == before.upload_streams@,
        finished.put_memory == before.put_memory,
{
    law_finish_undoes_put(before, context, units);
}

/// An admitted read is one more active read, and its end makes it one less and gives its memory
/// back. Neither touches the writes.
pub proof fn law_reads_are_counted(service: WorkerFlightService, units: u32)
    requires
        service.read_memory.well_formed(),
        units <= service.read_memory.active_units,
    ensures
        service.active_read_streams < usize::MAX ==> read_admitted(service).active_read_streams
            == service.active_read_streams + 1,
        read_admitted(service).read_memory == service.read_memory,
        service.active_read_streams > 0 ==> read_finished(service, units).active_read_streams
            == service.active_read_streams - 1,
        read_finished(service, units).read_memory.active_of() == service.read_memory.active_of()
            - units * 0x10_0000,
        read_finished(read_admitted(service), units).active_read_streams
            == service.active_read_streams,
        only_reads_change(service, read_admitted(service)),
        only_reads_change(service, read_finished(service, units)),
{
    crate::resource::law_memory_in_use(service.read_memory, units);
}

/// Whether nothing of a service changed but what belongs to reads.
pub open spec fn only_reads_change(before: WorkerFlightService, after: WorkerFlightService) -> bool {
    &&& after.config == before.config
    &&& after.draining == before.draining
    &&& after.active_put_streams == before.active_put_streams
    &&& after.upload_streams == before.upload_streams
    &&& after.put_memory == before.put_memory
    &&& after.put_rejected == before.put_rejected
    &&& after.read_rejected == before.read_rejected
}

/// A stream that is refused is counted once, among those of its direction, and changes nothing
/// else.
pub proof fn law_refused_streams_are_counted(service: WorkerFlightService)
    ensures
        service.put_rejected < u64::MAX ==> service.after_put_rejected().put_rejected
            == service.put_rejected + 1,
        service.after_put_rejected().read_rejected == service.read_rejected,
        service.read_rejected < u64::MAX ==> service.after_read_rejected().read_rejected
            == service.read_rejected + 1,
        service.after_read_rejected().put_rejected == service.put_rejected,
        service.after_put_rejected().active_put_streams == service.active_put_streams,
        service.after_put_rejected().put_memory == service.put_memory,
        service.after_read_rejected().active_read_streams == service.active_read_streams,
        service.after_read_rejected().read_memory == service.read_memory,
{
}

/// The first batch is waited for without limit exactly where zero is set, and else as long as is
/// set.
pub proof fn law_first_batch_wait(timeout_ms: u64)
    ensures
        first_batch_limit_of(timeout_ms) is None <==> timeout_ms == 0,
        first_batch_limit_of(timeout_ms) matches Some(limit) ==> limit == timeout_ms,
{
}

/// The actions that a worker lists are those it accepts; every other one is refused as not
/// implemented.
pub proof fn law_listed_actions_are_accepted(actions: Seq<WorkerAction>, action: Seq<char>)
    requires
        are_actions(actions),
    ensures
        action_refusal(action) is None <==> exists|i: int|
            0 <= i < actions.len() && #[trigger] actions[i].name@ == action,
        action_refusal(action) matches Some(status) ==> status.code == Code::Unimplemented,
{
    assert(actions[0].name@ == status_action());
}

/// A write without metadata asks for nothing, and one with metadata for exactly what was decoded;
/// metadata that cannot be decoded is refused as an invalid argument.
pub proof fn law_put_options<D: Fn(&[u8]) -> Result<PutOptions, String>>(
    app_metadata: &[u8],
    decode: D,
    result: Result<PutOptions, Status>,
)
    requires
        is_options_verdict(app_metadata, decode, result),
    ensures
        app_metadata@.len() == 0 ==> (result matches Ok(options) && options.capability is None
            && options.attempt_id is None && options.upload_id is None && options.stream_id is None
            && options.staging_prefix is None && options.max_upload_streams is None
            && options.max_stream_bytes is None && options.target_file_size is None
            && options.input_file_bytes is None && !options.profile),
        app_metadata@.len() > 0 ==> (result matches Ok(options) ==> decode.ensures(
            (app_metadata,),
            Ok(options),
        )),
        result matches Err(status) ==> app_metadata@.len() > 0 && status.code
            == Code::InvalidArgument && exists|words: String|
            #[trigger] decode.ensures((app_metadata,), Err(words)),
{
}

/// The score that a snapshot gives each direction rests on the streams of that direction: its free
/// slots out of ten thousand, less a tenth of its admission wait of at most half a minute, twice
/// the share of its streams that failed, were refused or were cancelled, and its use, both in
/// thousandths.
pub proof fn law_snapshot_scores(
    service: WorkerFlightService,
    put_writers: WorkerWriterCapacity,
    runtime: WorkerRuntimeStatus,
    status: WorkerStatus,
)
    requires
        is_snapshot(service, put_writers, runtime, status),
        !service.draining,
        status.put.active * 1000 <= usize::MAX,
        status.read.active * 1000 <= usize::MAX,
        status.put.limit * 10_000 <= usize::MAX,
        status.read.limit * 10_000 <= usize::MAX,
        (runtime.put.succeeded_total + runtime.put.failed_total + runtime.put.rejected_total) * 1000
            <= u64::MAX,
        (runtime.read.succeeded_total + runtime.read.failed_total + runtime.read.rejected_total
            + runtime.read.cancelled_total) * 1000 <= u64::MAX,
    ensures
        ({
            let put = status.scheduler.put;
            let failed = runtime.put.failed_total + runtime.put.rejected_total;
            put.allowed ==> put.selection_score == score_after(
                put.soft_available_slots * 10_000 / (status.put.limit as int),
                runtime.put.admission_wait_ms_ewma as int,
                failed,
                runtime.put.succeeded_total + failed,
                put.utilization_per_mille as int,
            )
        }),
        ({
            let read = status.scheduler.read;
            let failed = runtime.read.failed_total + runtime.read.rejected_total
                + runtime.read.cancelled_total;
            read.allowed ==> read.selection_score == score_after(
                read.soft_available_slots * 10_000 / (status.read.limit as int),
                runtime.read.admission_wait_ms_ewma as int,
                failed,
                runtime.read.succeeded_total + failed,
                read.utilization_per_mille as int,
            )
        }),
{
    let worker = service.config.worker;
    crate::worker_status::law_score_penalties(
        status.put,
        WorkerSchedulingPolicy {
            max_streams_per_operation: worker.max_put_streams_per_upload,
            reserved_slots: worker.put_scheduler_reserved_slots,
            memory_available_streams: Some(
                service.put_memory.streams_of(
                    service.config.resources.put_max_stream_memory_bytes as nat,
                ) as usize,
            ),
        },
        WorkerSchedulingTelemetry {
            succeeded_total: runtime.put.succeeded_total,
            failed_total: runtime.put.failed_total,
            rejected_total: runtime.put.rejected_total,
            cancelled_total: 0,
            admission_wait_ms_ewma: runtime.put.admission_wait_ms_ewma,
        },
    );
    crate::worker_status::law_score_penalties(
        status.read,
        WorkerSchedulingPolicy {
            max_streams_per_operation: worker.max_read_streams_per_operation,
            reserved_slots: worker.read_scheduler_reserved_slots,
            memory_available_streams: Some(
                service.read_memory.streams_of(
                    service.config.resources.read_max_stream_memory_bytes as nat,
                ) as usize,
            ),
        },
        WorkerSchedulingTelemetry {
            succeeded_total: runtime.read.succeeded_total,
            failed_total: runtime.read.failed_total,
            rejected_total: runtime.read.rejected_total,
            cancelled_total: runtime.read.cancelled_total,
            admission_wait_ms_ewma: runtime.read.admission_wait_ms_ewma,
        },
    );
}

/// What is left of a share of free slots after the penalties, never below zero.
pub open spec fn score_after(
    free: int,
    wait_ms: int,
    failed: int,
    completed: int,
    utilization: int,
) -> int {
    let wait = if wait_ms < 30_000 {
        wait_ms
    } else {
        30_000
    };
    let failures = if completed == 0 {
        0
    } else {
        failed * 1000 / completed
    };
    let left = free - wait / 10 - 2 * failures - utilization;
    if left > 0 {
        left
    } else {
        0
    }
}

/// A write that names no size goes into one file, and one that names a size into files of that
/// size; the mode that is told of it says which.
pub proof fn law_layouts(options: PutOptions)
    ensures
        options.target_file_size is None ==> layout_of(options) == PutLayout::Single && mode_of(
            options,
        ) == "single"@,
        options.target_file_size matches Some(size) ==> layout_of(options) == PutLayout::Sized(size)
            && mode_of(options) == "sized_dataset"@,
{
}

}
