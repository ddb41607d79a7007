//! The rows that a worker keeps in the metadata database.

use vstd::prelude::*;

use crate::number::{at_most, u64_to_i64, usize_to_i32};
use crate::worker_status::{WorkerState, WorkerStatus};

verus! {

/// The row of a write that was admitted or rejected.
#[derive(Debug)]
pub struct PutStreamStartRecord {
    pub attempt_id: String,
    pub upload_id: Option<String>,
    pub stream_id: Option<String>,
    pub worker_id: String,
    pub key: String,
    pub mode: Option<String>,
    pub staging_prefix: Option<String>,
    pub target_file_size: Option<i64>,
    pub client_input_file_bytes: Option<i64>,
    pub stream_budget_bytes: Option<i64>,
    pub global_put_stream_limit: i32,
    pub upload_put_stream_limit: Option<i32>,
    pub active_put_streams_at_admit: Option<i32>,
    pub upload_active_streams_at_admit: Option<i32>,
    pub compression: String,
    pub multipart_part_size: i64,
    pub multipart_max_concurrency: i32,
}

/// The row of a write that succeeded.
#[derive(Debug)]
pub struct PutStreamCompleteRecord {
    pub attempt_id: String,
    pub mode: String,
    pub rows: i64,
    pub batches: i64,
    pub parts: i32,
    pub flight_stream_bytes: i64,
    pub parquet_object_bytes: Option<i64>,
    pub elapsed_ms: i64,
    pub files: Vec<PutFileRecord>,
}

/// The row of a file that a write left behind.
#[derive(Debug)]
pub struct PutFileRecord {
    pub attempt_id: String,
    pub upload_id: Option<String>,
    pub stream_id: Option<String>,
    pub worker_id: String,
    pub logical_key: String,
    pub part_index: i32,
    pub file_path: String,
    pub rows: i64,
    pub batches: i64,
    pub flight_stream_bytes: i64,
    pub parquet_object_bytes: i64,
}

/// The row of a worker in the registry.
#[derive(Debug)]
pub struct WorkerHeartbeat {
    pub worker_id: String,
    pub flight_uri: String,
    pub state: String,
    pub draining: bool,
    pub put_recommended_streams: i32,
    pub put_utilization_per_mille: i32,
    pub put_selection_score: i64,
    pub put_admission_wait_ms_ewma: i64,
    pub put_throughput_bytes_per_sec_ewma: i64,
    pub read_recommended_streams: i32,
    pub read_utilization_per_mille: i32,
    pub read_selection_score: i64,
    pub read_admission_wait_ms_ewma: i64,
    pub read_throughput_bytes_per_sec_ewma: i64,
    pub registry_ttl_ms: i64,
}

/// A count as a column of 32 bits holds it.
pub open spec fn column_i32(value: int) -> int {
    at_most(value, i32::MAX as int)
}

/// A count as a column of 64 bits holds it.
pub open spec fn column_i64(value: int) -> int {
    at_most(value, i64::MAX as int)
}

/// Whether `kept` is what a column with the greatest value `most` keeps of a count.
pub open spec fn is_clipped(value: int, kept: int, most: int) -> bool {
    &&& value <= most ==> kept == value
    &&& value > most ==> kept == most
}

/// Whether a row holds a snapshot, each number as far as its column holds it.
pub open spec fn is_heartbeat(status: WorkerStatus, row: WorkerHeartbeat) -> bool {
    &&& row.worker_id@ == status.worker_id@
    &&& row.flight_uri@ == status.flight_uri@
    &&& row.state@ == status.state.text()
    &&& row.draining == status.draining
    &&& row.put_recommended_streams == column_i32(status.scheduler.put.recommended_streams as int)
    &&& row.put_utilization_per_mille == status.scheduler.put.utilization_per_mille
    &&& row.put_selection_score == column_i64(status.scheduler.put.selection_score as int)
    &&& row.put_admission_wait_ms_ewma == column_i64(
        status.runtime.put.admission_wait_ms_ewma as int,
    )
    &&& row.put_throughput_bytes_per_sec_ewma == column_i64(
        status.runtime.put.throughput_bytes_per_sec_ewma as int,
    )
    &&& row.read_recommended_streams == column_i32(
        status.scheduler.read.recommended_streams as int,
    )
    &&& row.read_utilization_per_mille == status.scheduler.read.utilization_per_mille
    &&& row.read_selection_score == column_i64(status.scheduler.read.selection_score as int)
    &&& row.read_admission_wait_ms_ewma == column_i64(
        status.runtime.read.admission_wait_ms_ewma as int,
    )
    &&& row.read_throughput_bytes_per_sec_ewma == column_i64(
        status.runtime.read.throughput_bytes_per_sec_ewma as int,
    )
    &&& row.registry_ttl_ms == column_i64(status.registry_ttl_ms as int)
}

impl WorkerHeartbeat {
    /// The registry row of a snapshot.
    pub fn from_status(status: &WorkerStatus) -> (r: WorkerHeartbeat)
        ensures
            is_heartbeat(*status, r),
    {
        WorkerHeartbeat {
            worker_id: status.worker_id.clone(),
            flight_uri: status.flight_uri.clone(),
            state: status.state.as_str().to_owned(),
            draining: status.draining,
            put_recommended_streams: usize_to_i32(status.scheduler.put.recommended_streams),
            put_utilization_per_mille: status.scheduler.put.utilization_per_mille as i32,
            put_selection_score: u64_to_i64(status.scheduler.put.selection_score),
            put_admission_wait_ms_ewma: u64_to_i64(status.runtime.put.admission_wait_ms_ewma),
            put_throughput_bytes_per_sec_ewma: u64_to_i64(
                status.runtime.put.throughput_bytes_per_sec_ewma,
            ),
            read_recommended_streams: usize_to_i32(status.scheduler.read.recommended_streams),
            read_utilization_per_mille: status.scheduler.read.utilization_per_mille as i32,
            read_selection_score: u64_to_i64(status.scheduler.read.selection_score),
            read_admission_wait_ms_ewma: u64_to_i64(status.runtime.read.admission_wait_ms_ewma),
            read_throughput_bytes_per_sec_ewma: u64_to_i64(
                status.runtime.read.throughput_bytes_per_sec_ewma,
            ),
            registry_ttl_ms: u64_to_i64(status.registry_ttl_ms),
        }
    }
}

/// A row of the registry tells what the snapshot tells, writes and reads apart, each number as far
/// as its column holds it.
pub proof fn law_heartbeat_tells_of_the_worker(status: WorkerStatus, row: WorkerHeartbeat)
    requires
        is_heartbeat(status, row),
    ensures
        row.worker_id@ == status.worker_id@,
        row.flight_uri@ == status.flight_uri@,
        status.state == WorkerState::Active ==> row.state@ == "ACTIVE"@,
        status.state == WorkerState::Draining ==> row.state@ == "DRAINING"@,
        row.draining == status.draining,
        ({
            let put = status.scheduler.put;
            let ran = status.runtime.put;
            &&& is_clipped(
                put.recommended_streams as int,
                row.put_recommended_streams as int,
                0x7fff_ffff,
            )
            &&& row.put_utilization_per_mille == put.utilization_per_mille
            &&& is_clipped(
                put.selection_score as int,
                row.put_selection_score as int,
                0x7fff_ffff_ffff_ffff,
            )
            &&& is_clipped(
                ran.admission_wait_ms_ewma as int,
                row.put_admission_wait_ms_ewma as int,
                0x7fff_ffff_ffff_ffff,
            )
            &&& is_clipped(
                ran.throughput_bytes_per_sec_ewma as int,
                row.put_throughput_bytes_per_sec_ewma as int,
                0x7fff_ffff_ffff_ffff,
            )
        }),
        ({
            let read = status.scheduler.read;
            let ran = status.runtime.read;
            &&& is_clipped(
                read.recommended_streams as int,
                row.read_recommended_streams as int,
                0x7fff_ffff,
            )
            &&& row.read_utilization_per_mille == read.utilization_per_mille
            &&& is_clipped(
                read.selection_score as int,
                row.read_selection_score as int,
                0x7fff_ffff_ffff_ffff,
            )
            &&& is_clipped(
                ran.admission_wait_ms_ewma as int,
                row.read_admission_wait_ms_ewma as int,
                0x7fff_ffff_ffff_ffff,
            )
            &&& is_clipped(
                ran.throughput_bytes_per_sec_ewma as int,
                row.read_throughput_bytes_per_sec_ewma as int,
                0x7fff_ffff_ffff_ffff,
            )
        }),
        is_clipped(status.registry_ttl_ms as int, row.registry_ttl_ms as int, 0x7fff_ffff_ffff_ffff),
{
}

}
