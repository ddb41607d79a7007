//! What a worker reports of itself, and how many streams a coordinator should give it.

use vstd::prelude::*;

use crate::number::{
    at_least, at_most, max_u64, max_usize, min_u64, min_usize, saturating_mul_u64,
    saturating_mul_usize,
};

verus! {

/// The snapshot that a worker publishes.
#[derive(Clone, Debug)]
pub struct WorkerStatus {
    pub worker_id: String,
    pub flight_uri: String,
    pub locality: WorkerLocality,
    pub state: WorkerState,
    pub draining: bool,
    pub put: WorkerCapacity,
    pub put_writers: WorkerWriterCapacity,
    pub read: WorkerCapacity,
    pub resources: WorkerResourceStatus,
    pub scheduler: WorkerSchedulerStatus,
    pub runtime: WorkerRuntimeStatus,
    pub capabilities: WorkerCapabilities,
    pub heartbeat_interval_ms: u64,
    pub registry_ttl_ms: u64,
}

#[derive(Clone, Debug)]
pub struct WorkerLocality {
    pub zone: Option<String>,
}

#[derive(Debug, Clone, Copy, PartialEq, Eq, Structural)]
pub enum WorkerState {
    Active,
    Draining,
}

impl WorkerState {
    /// The name of the state in the worker registry.
    pub open spec fn text(self) -> Seq<char> {
        match self {
            WorkerState::Active => "ACTIVE"@,
            WorkerState::Draining => "DRAINING"@,
        }
    }

    /// The name of the state in the worker registry.
    pub fn as_str(self) -> (r: &'static str)
        ensures
            r@ == self.text(),
    {
        match self {
            WorkerState::Active => "ACTIVE",
            WorkerState::Draining => "DRAINING",
        }
    }
}

#[derive(Debug, Clone, Copy)]
pub struct WorkerCapacity {
    pub limit: usize,
    pub active: usize,
    pub available: usize,
    pub slot_wait_ms: u64,
}

#[derive(Debug, Clone, Copy)]
pub struct WorkerWriterCapacity {
    pub limit: usize,
    pub active: usize,
    pub available: usize,
}

/// How many part writers may run at once, where each write may run `put_parallelism`, but at least
/// one.
pub open spec fn writer_limit_of(put_parallelism: usize, max_active_put_streams: usize) -> int {
    at_most(at_least(put_parallelism as int, 1) * max_active_put_streams, usize::MAX as int)
}

impl WorkerWriterCapacity {
    /// Whether these are the part writers of a worker, of which `active` run.
    pub open spec fn is_capacity(
        self,
        put_parallelism: usize,
        max_active_put_streams: usize,
        active: usize,
    ) -> bool {
        &&& self.limit == writer_limit_of(put_parallelism, max_active_put_streams)
        &&& self.active == active
        &&& self.available == at_least(self.limit - active, 0)
    }

    /// The part writers of a worker of which `active` run.
    pub fn of(put_parallelism: usize, max_active_put_streams: usize, active: usize) -> (r:
        WorkerWriterCapacity)
        ensures
            r.is_capacity(put_parallelism, max_active_put_streams, active),
    {
        let limit: usize = saturating_mul_usize(
            max_usize(put_parallelism, 1),
            max_active_put_streams,
        );
        WorkerWriterCapacity { limit, active, available: limit.saturating_sub(active) }
    }
}

#[derive(Debug, Clone, Copy)]
pub struct WorkerResourceStatus {
    pub worker_cpu_millicores: u64,
    pub worker_memory_bytes: u64,
    pub reserved_memory_bytes: u64,
    pub put: WorkerResourcePool,
    pub read: WorkerResourcePool,
}

#[derive(Debug, Clone, Copy)]
pub struct WorkerResourcePool {
    pub limit_bytes: u64,
    pub active_bytes: u64,
    pub available_bytes: u64,
    pub max_stream_memory_bytes: u64,
    pub max_record_batch_bytes: u64,
    pub max_batch_rows: Option<usize>,
}

#[derive(Debug, Clone, Copy)]
pub struct WorkerSchedulerStatus {
    pub put: WorkerSchedulingSignal,
    pub read: WorkerSchedulingSignal,
}

#[derive(Debug, Clone, Copy)]
pub struct WorkerSchedulingSignal {
    pub allowed: bool,
    pub saturation: WorkerSaturation,
    pub recommended_streams: usize,
    pub max_streams_per_operation: usize,
    pub reserved_slots: usize,
    pub soft_available_slots: usize,
    pub memory_available_streams: usize,
    pub utilization_per_mille: u16,
    pub selection_score: u64,
}

#[derive(Debug, Clone, Copy, PartialEq, Eq, Structural)]
pub enum WorkerSaturation {
    Disabled,
    Saturated,
    Busy,
    Available,
}

#[derive(Debug, Clone, Copy)]
pub struct WorkerRuntimeStatus {
    pub put: PutRuntimeStatus,
    pub read: ReadRuntimeStatus,
}

#[derive(Debug, Clone, Copy)]
pub struct PutRuntimeStatus {
    pub started_total: u64,
    pub succeeded_total: u64,
    pub failed_total: u64,
    pub rejected_total: u64,
    pub rows_total: u64,
    pub batches_total: u64,
    pub files_total: u64,
    pub flight_stream_bytes_total: u64,
    pub parquet_object_bytes_total: u64,
    pub admission_wait_ms_ewma: u64,
    pub duration_ms_ewma: u64,
    pub throughput_bytes_per_sec_ewma: u64,
}

impl Default for PutRuntimeStatus {
    fn default() -> (r: PutRuntimeStatus)
        ensures
            r == (PutRuntimeStatus {
                started_total: 0,
                succeeded_total: 0,
                failed_total: 0,
                rejected_total: 0,
                rows_total: 0,
                batches_total: 0,
                files_total: 0,
                flight_stream_bytes_total: 0,
                parquet_object_bytes_total: 0,
                admission_wait_ms_ewma: 0,
                duration_ms_ewma: 0,
                throughput_bytes_per_sec_ewma: 0,
            }),
    {
        PutRuntimeStatus {
            started_total: 0,
            succeeded_total: 0,
            failed_total: 0,
            rejected_total: 0,
            rows_total: 0,
            batches_total: 0,
            files_total: 0,
            flight_stream_bytes_total: 0,
            parquet_object_bytes_total: 0,
            admission_wait_ms_ewma: 0,
            duration_ms_ewma: 0,
            throughput_bytes_per_sec_ewma: 0,
        }
    }
}

#[derive(Debug, Clone, Copy)]
pub struct ReadRuntimeStatus {
    pub started_total: u64,
    pub succeeded_total: u64,
    pub failed_total: u64,
    pub rejected_total: u64,
    pub cancelled_total: u64,
    pub object_bytes_total: u64,
    pub admission_wait_ms_ewma: u64,
    pub duration_ms_ewma: u64,
    pub throughput_bytes_per_sec_ewma: u64,
}

impl Default for ReadRuntimeStatus {
    fn default() -> (r: ReadRuntimeStatus)
        ensures
            r == (ReadRuntimeStatus {
                started_total: 0,
                succeeded_total: 0,
                failed_total: 0,
                rejected_total: 0,
                cancelled_total: 0,
                object_bytes_total: 0,
                admission_wait_ms_ewma: 0,
                duration_ms_ewma: 0,
                throughput_bytes_per_sec_ewma: 0,
            }),
    {
        ReadRuntimeStatus {
            started_total: 0,
            succeeded_total: 0,
            failed_total: 0,
            rejected_total: 0,
            cancelled_total: 0,
            object_bytes_total: 0,
            admission_wait_ms_ewma: 0,
            duration_ms_ewma: 0,
            throughput_bytes_per_sec_ewma: 0,
        }
    }
}

#[derive(Debug, Clone, Copy)]
pub struct WorkerCapabilities {
    pub put_parallelism: usize,
    pub max_active_put_writers: usize,
    pub put_queue_depth: usize,
    pub max_put_streams_per_upload: usize,
    pub max_put_stream_bytes: Option<u64>,
    pub put_max_stream_memory_bytes: u64,
    pub put_max_record_batch_bytes: u64,
    pub read_max_streams_per_operation: usize,
    pub read_batch_size: usize,
    pub read_max_stream_memory_bytes: u64,
    pub read_max_record_batch_bytes: u64,
    pub read_max_batch_rows: usize,
    pub flight_data_chunk_size: usize,
    pub capability_version: u16,
    pub signed_capabilities_required: bool,
    pub capability_worker_binding_required: bool,
}

#[derive(Debug, Clone, Copy)]
pub struct WorkerSchedulingPolicy {
    pub max_streams_per_operation: usize,
    pub reserved_slots: usize,
    pub memory_available_streams: Option<usize>,
}

#[derive(Debug, Clone, Copy)]
pub struct WorkerSchedulingTelemetry {
    pub succeeded_total: u64,
    pub failed_total: u64,
    pub rejected_total: u64,
    pub cancelled_total: u64,
    pub admission_wait_ms_ewma: u64,
}

impl Default for WorkerSchedulingTelemetry {
    fn default() -> (r: WorkerSchedulingTelemetry)
        ensures
            r == (WorkerSchedulingTelemetry {
                succeeded_total: 0,
                failed_total: 0,
                rejected_total: 0,
                cancelled_total: 0,
                admission_wait_ms_ewma: 0,
            }),
    {
        WorkerSchedulingTelemetry {
            succeeded_total: 0,
            failed_total: 0,
            rejected_total: 0,
            cancelled_total: 0,
            admission_wait_ms_ewma: 0,
        }
    }
}

/// The used share of `limit` slots in thousandths, at most 1000; all of it where there is no slot.
pub open spec fn utilization_of(active: int, limit: int) -> int {
    if limit == 0 {
        1000
    } else {
        at_most(at_most(active * 1000, usize::MAX as int) / limit, 1000)
    }
}

/// The used share of `limit` slots in thousandths.
pub fn utilization_per_mille(active: usize, limit: usize) -> (r: u16)
    ensures
        r == utilization_of(active as int, limit as int),
{
    if limit == 0 {
        return 1000;
    }
    let share: usize = saturating_mul_usize(active, 1000) / limit;
    if share > 1000 {
        1000
    } else {
        share as u16
    }
}

/// Completed attempts, as far as they can be counted.
pub open spec fn completed_of(telemetry: WorkerSchedulingTelemetry) -> int {
    at_most(
        telemetry.succeeded_total + telemetry.failed_total + telemetry.rejected_total
            + telemetry.cancelled_total,
        u64::MAX as int,
    )
}

/// Attempts that failed, were rejected or were cancelled, in thousandths of the completed ones.
pub open spec fn failure_rate_of(telemetry: WorkerSchedulingTelemetry) -> int {
    if completed_of(telemetry) == 0 {
        0
    } else {
        at_most(
            at_most(
                telemetry.failed_total + telemetry.rejected_total + telemetry.cancelled_total,
                u64::MAX as int,
            ) * 1000,
            u64::MAX as int,
        ) / completed_of(telemetry)
    }
}

/// The share of free slots in ten-thousandths.
pub open spec fn availability_of(soft_available_slots: int, limit: int) -> int {
    at_most(soft_available_slots * 10_000, u64::MAX as int) / limit
}

/// The share of free slots, less a penalty for waiting, for failures and for use; never negative,
/// and zero where no stream can be granted.
pub open spec fn score_of(
    limit: int,
    soft_available_slots: int,
    recommended_streams: int,
    utilization: int,
    telemetry: WorkerSchedulingTelemetry,
) -> int {
    if recommended_streams == 0 || limit == 0 {
        0
    } else {
        at_least(
            availability_of(soft_available_slots, limit) - at_most(
                telemetry.admission_wait_ms_ewma as int,
                30_000,
            ) / 10 - at_most(failure_rate_of(telemetry) * 2, u64::MAX as int) - utilization,
            0,
        )
    }
}

/// How well placed a worker is to take another stream.
pub fn selection_score(
    capacity: &WorkerCapacity,
    soft_available_slots: usize,
    recommended_streams: usize,
    utilization_per_mille: u16,
    telemetry: WorkerSchedulingTelemetry,
) -> (r: u64)
    ensures
        r == score_of(
            capacity.limit as int,
            soft_available_slots as int,
            recommended_streams as int,
            utilization_per_mille as int,
            telemetry,
        ),
{
    if recommended_streams == 0 || capacity.limit == 0 {
        return 0;
    }
    let availability_score: u64 = saturating_mul_u64(soft_available_slots as u64, 10_000)
        / max_u64(capacity.limit as u64, 1);
    let wait_penalty: u64 = min_u64(telemetry.admission_wait_ms_ewma, 30_000) / 10;
    let completed: u64 = telemetry.succeeded_total.saturating_add(
        telemetry.failed_total,
    ).saturating_add(telemetry.rejected_total).saturating_add(telemetry.cancelled_total);
    let failure_rate_per_mille: u64 = if completed == 0 {
        0
    } else {
        saturating_mul_u64(
            telemetry.failed_total.saturating_add(telemetry.rejected_total).saturating_add(
                telemetry.cancelled_total,
            ),
            1000,
        ) / completed
    };
    let failure_penalty: u64 = saturating_mul_u64(failure_rate_per_mille, 2);
    availability_score.saturating_sub(wait_penalty).saturating_sub(
        failure_penalty,
    ).saturating_sub(utilization_per_mille as u64)
}

/// Slots that are free, not reserved, and covered by free memory.
pub open spec fn soft_slots_of(capacity: WorkerCapacity, policy: WorkerSchedulingPolicy) -> int {
    let free = at_least(capacity.available - policy.reserved_slots, 0);
    match policy.memory_available_streams {
        Some(streams) => at_most(free, streams as int),
        None => free,
    }
}

/// The streams that a coordinator may give the worker for one operation.
pub open spec fn recommended_of(
    capacity: WorkerCapacity,
    policy: WorkerSchedulingPolicy,
    draining: bool,
) -> int {
    if draining {
        0
    } else {
        at_most(
            soft_slots_of(capacity, policy),
            at_least(policy.max_streams_per_operation as int, 1),
        )
    }
}

/// How busy the worker is: a draining worker takes nothing, a worker without soft slots is
/// saturated, one that uses four fifths of its slots is busy.
pub open spec fn saturation_of(
    capacity: WorkerCapacity,
    policy: WorkerSchedulingPolicy,
    draining: bool,
) -> WorkerSaturation {
    if draining {
        WorkerSaturation::Disabled
    } else if soft_slots_of(capacity, policy) == 0 {
        WorkerSaturation::Saturated
    } else if utilization_of(capacity.active as int, capacity.limit as int) >= 800 {
        WorkerSaturation::Busy
    } else {
        WorkerSaturation::Available
    }
}

/// The scheduling signal of a worker.
pub open spec fn signal_of(
    capacity: WorkerCapacity,
    policy: WorkerSchedulingPolicy,
    telemetry: WorkerSchedulingTelemetry,
    draining: bool,
) -> WorkerSchedulingSignal {
    let recommended = recommended_of(capacity, policy, draining);
    let soft = soft_slots_of(capacity, policy);
    let utilization = utilization_of(capacity.active as int, capacity.limit as int);
    WorkerSchedulingSignal {
        allowed: recommended > 0,
        saturation: saturation_of(capacity, policy, draining),
        recommended_streams: recommended as usize,
        max_streams_per_operation: at_least(policy.max_streams_per_operation as int, 1) as usize,
        reserved_slots: policy.reserved_slots,
        soft_available_slots: soft as usize,
        memory_available_streams: match policy.memory_available_streams {
            Some(streams) => streams,
            None => usize::MAX,
        },
        utilization_per_mille: utilization as u16,
        selection_score: score_of(
            capacity.limit as int,
            soft,
            recommended,
            utilization,
            telemetry,
        ) as u64,
    }
}

impl WorkerSchedulingSignal {
    /// The signal for a coordinator from the state of one pool of slots.
    pub fn from_capacity(
        capacity: &WorkerCapacity,
        policy: WorkerSchedulingPolicy,
        telemetry: WorkerSchedulingTelemetry,
        draining: bool,
    ) -> (r: WorkerSchedulingSignal)
        ensures
            r == signal_of(*capacity, policy, telemetry, draining),
    {
        let utilization_per_mille: u16 = utilization_per_mille(capacity.active, capacity.limit);
        let slot_soft_available: usize = capacity.available.saturating_sub(policy.reserved_slots);
        let memory_available_streams: usize = match policy.memory_available_streams {
            Some(streams) => streams,
            None => usize::MAX,
        };
        let soft_available_slots: usize = min_usize(slot_soft_available, memory_available_streams);
        let max_streams_per_operation: usize = max_usize(policy.max_streams_per_operation, 1);
        let recommended_streams: usize = if draining {
            0
        } else {
            min_usize(soft_available_slots, max_streams_per_operation)
        };
        let allowed = recommended_streams > 0;
        let saturation = if draining {
            WorkerSaturation::Disabled
        } else if soft_available_slots == 0 {
            WorkerSaturation::Saturated
        } else if utilization_per_mille >= 800 {
            WorkerSaturation::Busy
        } else {
            WorkerSaturation::Available
        };
        WorkerSchedulingSignal {
            allowed,
            saturation,
            recommended_streams,
            max_streams_per_operation,
            reserved_slots: policy.reserved_slots,
            soft_available_slots,
            memory_available_streams,
            utilization_per_mille,
            selection_score: selection_score(
                capacity,
                soft_available_slots,
                recommended_streams,
                utilization_per_mille,
                telemetry,
            ),
        }
    }
}

/// A grant never touches the reserved slots, never exceeds the cap of one operation or the free
/// memory, and a draining worker gets none.
pub proof fn law_grant_bounds(
    capacity: WorkerCapacity,
    policy: WorkerSchedulingPolicy,
    telemetry: WorkerSchedulingTelemetry,
    draining: bool,
)
    ensures
        ({
            let signal = signal_of(capacity, policy, telemetry, draining);
            &&& signal.allowed ==> signal.recommended_streams + policy.reserved_slots
                <= capacity.available
            &&& signal.recommended_streams <= at_least(policy.max_streams_per_operation as int, 1)
            &&& policy.memory_available_streams matches Some(streams)
                ==> signal.recommended_streams <= streams
            &&& draining ==> signal.recommended_streams == 0
            &&& signal.allowed <==> signal.recommended_streams > 0
        }),
{
}

/// A worker is allowed exactly where it is neither draining nor saturated, and only such a worker
/// has a score.
pub proof fn law_allowed_iff_not_saturated(
    capacity: WorkerCapacity,
    policy: WorkerSchedulingPolicy,
    telemetry: WorkerSchedulingTelemetry,
    draining: bool,
)
    ensures
        ({
            let signal = signal_of(capacity, policy, telemetry, draining);
            &&& signal.allowed <==> signal.saturation != WorkerSaturation::Disabled
                && signal.saturation != WorkerSaturation::Saturated
            &&& !signal.allowed ==> signal.selection_score == 0
        }),
{
}

/// Longer admission waits never raise the score of a worker.
pub proof fn law_waiting_never_raises_the_score(
    limit: int,
    soft_available_slots: int,
    recommended_streams: int,
    utilization: int,
    shorter: WorkerSchedulingTelemetry,
    longer: WorkerSchedulingTelemetry,
)
    requires
        shorter.admission_wait_ms_ewma <= longer.admission_wait_ms_ewma,
        longer == (WorkerSchedulingTelemetry {
            admission_wait_ms_ewma: longer.admission_wait_ms_ewma,
            ..shorter
        }),
    ensures
        score_of(limit, soft_available_slots, recommended_streams, utilization, longer)
            <= score_of(limit, soft_available_slots, recommended_streams, utilization, shorter),
{
}

/// The score of a pool whose free slots are among its slots is at most ten thousand.
pub proof fn law_score_bound(
    limit: int,
    soft_available_slots: int,
    recommended_streams: int,
    utilization: int,
    telemetry: WorkerSchedulingTelemetry,
)
    requires
        0 <= soft_available_slots <= limit,
        0 <= utilization,
    ensures
        0 <= score_of(limit, soft_available_slots, recommended_streams, utilization, telemetry)
            <= 10_000,
{
    if limit > 0 {
        let scaled = at_most(soft_available_slots * 10_000, u64::MAX as int);
        assert(scaled <= limit * 10_000);
        assert(scaled / limit <= 10_000) by (nonlinear_arith)
            requires
                limit > 0,
                scaled <= limit * 10_000,
        ;
        let failures = at_most(
            at_most(
                telemetry.failed_total + telemetry.rejected_total + telemetry.cancelled_total,
                u64::MAX as int,
            ) * 1000,
            u64::MAX as int,
        );
        let completed = completed_of(telemetry);
        if completed > 0 {
            assert(failures / completed >= 0) by (nonlinear_arith)
                requires
                    failures >= 0,
                    completed > 0,
            ;
        }
    }
}

/// A grant is as large as its bounds allow: on a worker that is not draining it is the least of
/// the free slots outside the reserve, the streams that the free memory covers, and the cap of one
/// operation.
pub proof fn law_grant_is_greatest(
    capacity: WorkerCapacity,
    policy: WorkerSchedulingPolicy,
    telemetry: WorkerSchedulingTelemetry,
    draining: bool,
)
    requires
        !draining,
    ensures
        ({
            let granted = signal_of(capacity, policy, telemetry, draining).recommended_streams;
            let free = if capacity.available >= policy.reserved_slots {
                capacity.available - policy.reserved_slots
            } else {
                0
            };
            let cap: int = if policy.max_streams_per_operation >= 1 {
                policy.max_streams_per_operation as int
            } else {
                1
            };
            &&& granted <= free
            &&& granted <= cap
            &&& policy.memory_available_streams matches Some(streams) ==> granted <= streams
            &&& granted == free || granted == cap || policy.memory_available_streams == Some(
                granted,
            )
        }),
{
}

/// What a signal says of the worker is what the worker has: the reserve, the cap of one operation
/// (at least one), the streams that the free memory covers (without a bound where no budget sets
/// one), and the free slots outside the reserve that the memory covers.
pub proof fn law_signal_tells_of_the_worker(
    capacity: WorkerCapacity,
    policy: WorkerSchedulingPolicy,
    telemetry: WorkerSchedulingTelemetry,
    draining: bool,
)
    ensures
        ({
            let signal = signal_of(capacity, policy, telemetry, draining);
            &&& signal.reserved_slots == policy.reserved_slots
            &&& signal.max_streams_per_operation >= 1
            &&& policy.max_streams_per_operation >= 1 ==> signal.max_streams_per_operation
                == policy.max_streams_per_operation
            &&& policy.max_streams_per_operation == 0 ==> signal.max_streams_per_operation == 1
            &&& policy.memory_available_streams matches Some(streams)
                ==> signal.memory_available_streams == streams
            &&& policy.memory_available_streams is None ==> signal.memory_available_streams
                == usize::MAX
            &&& signal.soft_available_slots + policy.reserved_slots <= capacity.available
                || signal.soft_available_slots == 0
            &&& signal.soft_available_slots <= signal.memory_available_streams
            &&& signal.soft_available_slots == signal.memory_available_streams
                || signal.soft_available_slots + policy.reserved_slots == capacity.available
                || capacity.available < policy.reserved_slots
            &&& !draining && signal.soft_available_slots <= signal.max_streams_per_operation
                ==> signal.recommended_streams == signal.soft_available_slots
        }),
{
}

/// The used share of the slots in thousandths, rounded down: `share` thousandths of the slots are
/// in use, and `share + 1` thousandths are not. Slots that are all in use, or that do not exist,
/// are fully used, and no more than that.
pub proof fn law_utilization(
    capacity: WorkerCapacity,
    policy: WorkerSchedulingPolicy,
    telemetry: WorkerSchedulingTelemetry,
    draining: bool,
)
    requires
        capacity.active * 1000 <= usize::MAX,
    ensures
        ({
            let share = signal_of(capacity, policy, telemetry, draining).utilization_per_mille;
            &&& share <= 1000
            &&& capacity.active >= capacity.limit ==> share == 1000
            &&& capacity.active < capacity.limit ==> share * capacity.limit <= capacity.active
                * 1000 < (share + 1) * capacity.limit
        }),
{
    lemma_utilization(capacity.active, capacity.limit);
}

proof fn lemma_utilization(active: usize, limit: usize)
    requires
        active * 1000 <= usize::MAX,
    ensures
        ({
            let share = utilization_of(active as int, limit as int);
            &&& 0 <= share <= 1000
            &&& active >= limit ==> share == 1000
            &&& active < limit ==> share * limit <= active * 1000 < (share + 1) * limit
        }),
{
    let share = utilization_of(active as int, limit as int);
    let used = active * 1000;
    if limit > 0 {
        let quotient = used / (limit as int);
        assert(quotient * limit <= used < (quotient + 1) * limit) by (nonlinear_arith)
            requires
                limit > 0,
                quotient == used / (limit as int),
        ;
        if active >= limit {
            assert(quotient >= 1000) by (nonlinear_arith)
                requires
                    used < (quotient + 1) * limit,
                    used >= 1000 * limit,
                    limit > 0,
            ;
        } else {
            assert(quotient < 1000) by (nonlinear_arith)
                requires
                    quotient * limit <= used,
                    used < 1000 * limit,
                    limit > 0,
            ;
            assert(quotient >= 0) by (nonlinear_arith)
                requires
                    used < (quotient + 1) * limit,
                    used >= 0,
                    limit > 0,
            ;
        }
    }
}

/// A worker that has a slot to grant is busy exactly where four fifths of its slots are in use, and
/// available below that.
pub proof fn law_busy_from_four_fifths(
    capacity: WorkerCapacity,
    policy: WorkerSchedulingPolicy,
    telemetry: WorkerSchedulingTelemetry,
)
    requires
        capacity.limit > 0,
        capacity.active * 1000 <= usize::MAX,
    ensures
        ({
            let signal = signal_of(capacity, policy, telemetry, false);
            &&& signal.soft_available_slots == 0 <==> signal.saturation
                == WorkerSaturation::Saturated
            &&& signal.soft_available_slots > 0 && capacity.active * 5 >= capacity.limit * 4
                <==> signal.saturation == WorkerSaturation::Busy
            &&& signal.soft_available_slots > 0 && capacity.active * 5 < capacity.limit * 4
                <==> signal.saturation == WorkerSaturation::Available
        }),
{
    lemma_utilization(capacity.active, capacity.limit);
    let share = utilization_of(capacity.active as int, capacity.limit as int);
    let active = capacity.active as int;
    let limit = capacity.limit as int;
    if active < limit {
        if active * 5 >= limit * 4 {
            assert(share >= 800) by (nonlinear_arith)
                requires
                    active * 1000 < (share + 1) * limit,
                    active * 5 >= limit * 4,
                    limit > 0,
            ;
        } else {
            assert(share < 800) by (nonlinear_arith)
                requires
                    share * limit <= active * 1000,
                    active * 5 < limit * 4,
                    limit > 0,
            ;
        }
    }
}

/// A signal of a draining worker is disabled, whatever else holds.
pub proof fn law_draining_is_disabled(
    capacity: WorkerCapacity,
    policy: WorkerSchedulingPolicy,
    telemetry: WorkerSchedulingTelemetry,
)
    ensures
        ({
            let signal = signal_of(capacity, policy, telemetry, true);
            &&& !signal.allowed
            &&& signal.saturation == WorkerSaturation::Disabled
            &&& signal.recommended_streams == 0
            &&& signal.selection_score == 0
        }),
{
}

/// What each trouble costs: as long as the score stays positive, it is the free share of the slots
/// in ten-thousandths, less a tenth of the milliseconds of a wait (three thousand at most), two for
/// each thousandth of failed, rejected or cancelled attempts, and one for each thousandth of used
/// slots.
pub proof fn law_score_penalties(
    capacity: WorkerCapacity,
    policy: WorkerSchedulingPolicy,
    telemetry: WorkerSchedulingTelemetry,
)
    requires
        capacity.active * 1000 <= usize::MAX,
        capacity.available * 10_000 <= usize::MAX,
        (telemetry.succeeded_total + telemetry.failed_total + telemetry.rejected_total
            + telemetry.cancelled_total) * 1000 <= u64::MAX,
    ensures
        ({
            let signal = signal_of(capacity, policy, telemetry, false);
            let wait: int = if telemetry.admission_wait_ms_ewma < 30_000 {
                telemetry.admission_wait_ms_ewma as int
            } else {
                30_000
            };
            let failed = telemetry.failed_total + telemetry.rejected_total
                + telemetry.cancelled_total;
            let completed = telemetry.succeeded_total + failed;
            let failures = if completed == 0 {
                0
            } else {
                failed * 1000 / completed
            };
            let sum = signal.soft_available_slots * 10_000 / (capacity.limit as int) - wait / 10
                - 2 * failures - signal.utilization_per_mille;
            signal.allowed && capacity.limit > 0 ==> signal.selection_score == if sum > 0 {
                sum
            } else {
                0
            }
        }),
{
    lemma_utilization(capacity.active, capacity.limit);
    let failed = telemetry.failed_total + telemetry.rejected_total + telemetry.cancelled_total;
    let completed = telemetry.succeeded_total + failed;
    if completed > 0 {
        assert(0 <= failed * 1000 / completed <= 1000) by (nonlinear_arith)
            requires
                0 <= failed <= completed,
                completed > 0,
        ;
    }
    let scaled = soft_slots_of(capacity, policy) * 10_000;
    let limit = capacity.limit as int;
    if limit > 0 {
        assert(0 <= scaled / limit <= scaled) by (nonlinear_arith)
            requires
                scaled >= 0,
                limit > 0,
        ;
    }
}

/// More free slots, fewer failures among as many attempts, and less use never lower the score.
pub proof fn law_better_placed_never_scores_less(
    limit: int,
    fewer_slots: int,
    more_slots: int,
    recommended_streams: int,
    less_use: int,
    more_use: int,
    better: WorkerSchedulingTelemetry,
    worse: WorkerSchedulingTelemetry,
)
    requires
        0 < limit,
        0 <= fewer_slots <= more_slots,
        0 <= less_use <= more_use,
        better.admission_wait_ms_ewma <= worse.admission_wait_ms_ewma,
        better.succeeded_total >= worse.succeeded_total,
        better.succeeded_total + better.failed_total + better.rejected_total
            + better.cancelled_total == worse.succeeded_total + worse.failed_total
            + worse.rejected_total + worse.cancelled_total,
    ensures
        score_of(limit, fewer_slots, recommended_streams, more_use, worse) <= score_of(
            limit,
            more_slots,
            recommended_streams,
            less_use,
            better,
        ),
{
    let fewer = at_most(fewer_slots * 10_000, u64::MAX as int);
    let more = at_most(more_slots * 10_000, u64::MAX as int);
    assert(fewer / limit <= more / limit) by (nonlinear_arith)
        requires
            limit > 0,
            fewer <= more,
    ;
    let completed = completed_of(better);
    assert(completed == completed_of(worse));
    if completed > 0 {
        let low = at_most(
            at_most(
                better.failed_total + better.rejected_total + better.cancelled_total,
                u64::MAX as int,
            ) * 1000,
            u64::MAX as int,
        );
        let high = at_most(
            at_most(
                worse.failed_total + worse.rejected_total + worse.cancelled_total,
                u64::MAX as int,
            ) * 1000,
            u64::MAX as int,
        );
        assert(low / completed <= high / completed) by (nonlinear_arith)
            requires
                completed > 0,
                low <= high,
        ;
    }
}

/// Each write that may run at once brings as many part writers as one write may run, and at least
/// one.
pub proof fn law_writers_per_write(put_parallelism: usize, max_active_put_streams: usize)
    requires
        put_parallelism * max_active_put_streams <= usize::MAX,
    ensures
        put_parallelism >= 1 ==> writer_limit_of(put_parallelism, max_active_put_streams)
            == put_parallelism * max_active_put_streams,
        put_parallelism == 0 ==> writer_limit_of(put_parallelism, max_active_put_streams)
            == max_active_put_streams,
{
    assert(1 * max_active_put_streams == max_active_put_streams);
}

/// The part writers that run and those that are free make up all of them, unless more run than
/// there are, and then none is free.
pub proof fn law_writers_are_told(
    capacity: WorkerWriterCapacity,
    put_parallelism: usize,
    max_active_put_streams: usize,
    active: usize,
)
    requires
        capacity.is_capacity(put_parallelism, max_active_put_streams, active),
    ensures
        capacity.active == active,
        active <= capacity.limit ==> capacity.active + capacity.available == capacity.limit,
        active > capacity.limit ==> capacity.available == 0,
{
}

}
