//! The values of a write: what a client asks for, and what it is told.

use vstd::prelude::*;

verus! {

/// What a finished write is answered with.
#[derive(Debug)]
pub struct PutSummary {
    pub key: String,
    pub worker: WorkerPutSummary,
    pub mode: String,
    pub rows: usize,
    pub batches: usize,
    pub parts: usize,
    pub put_parallelism: usize,
    pub client_input_file_bytes: Option<u64>,
    pub flight_data_messages: Option<u64>,
    pub flight_stream_bytes: u64,
    pub parquet_object_bytes: Option<u64>,
    pub files: Vec<PutFileSummary>,
    pub target_file_size: Option<usize>,
    pub elapsed_ms: u128,
    pub compression: String,
    pub multipart_part_size: usize,
    pub multipart_max_concurrency: usize,
    pub profile: Option<PutProfile>,
    pub part_profiles: Option<Vec<PartProfileSummary>>,
}

/// One file that a write left behind.
#[derive(Clone, Debug)]
pub struct PutFileSummary {
    pub key: String,
    pub part_index: usize,
    pub rows: usize,
    pub batches: usize,
    pub flight_stream_bytes: u64,
    pub parquet_object_bytes: u64,
}

/// How a write was admitted.
#[derive(Clone, Debug)]
pub struct WorkerPutSummary {
    pub worker_id: String,
    pub operation_id: Option<String>,
    pub attempt_id: String,
    pub upload_id: Option<String>,
    pub stream_id: Option<String>,
    pub staging_prefix: Option<String>,
    pub admission_wait_ms: u128,
    pub global_put_stream_limit: usize,
    pub upload_put_stream_limit: Option<usize>,
    pub active_put_streams_at_admit: usize,
    pub upload_active_streams_at_admit: Option<usize>,
    pub stream_budget_bytes: Option<u64>,
}

/// Where the time of a write went, in milliseconds.
#[derive(Clone, Copy, Debug, PartialEq, Eq, Structural)]
pub struct PutProfile {
    pub total_server_ms: u128,
    pub first_flight_data_message_ms: u128,
    pub first_batch_receive_decode_ms: u128,
    pub receive_decode_ms: u128,
    pub enqueue_wait_ms: u128,
    pub collect_writer_wait_ms: u128,
    pub object_head_ms: u128,
    pub writer_task_elapsed_ms_sum: u128,
    pub writer_task_elapsed_ms_max: u128,
    pub writer_task_idle_wait_ms_sum: u128,
    pub writer_task_write_ms_sum: u128,
    pub writer_task_write_ms_max: u128,
    pub writer_task_flush_ms_sum: u128,
    pub writer_task_close_ms_sum: u128,
    pub writer_task_close_ms_max: u128,
    pub writer_task_head_ms_sum: u128,
}

/// Where the time of one part went, in milliseconds.
#[derive(Clone, Copy, Debug, PartialEq, Eq, Structural)]
pub struct PartProfile {
    pub elapsed_ms: u128,
    pub idle_wait_ms: u128,
    pub write_ms: u128,
    pub flush_ms: u128,
    pub close_ms: u128,
    pub head_ms: u128,
}

impl Default for PartProfile {
    fn default() -> (r: PartProfile)
        ensures
            r == (PartProfile {
                elapsed_ms: 0,
                idle_wait_ms: 0,
                write_ms: 0,
                flush_ms: 0,
                close_ms: 0,
                head_ms: 0,
            }),
    {
        PartProfile {
            elapsed_ms: 0,
            idle_wait_ms: 0,
            write_ms: 0,
            flush_ms: 0,
            close_ms: 0,
            head_ms: 0,
        }
    }
}

impl PartProfile {
    /// Whether no time was measured.
    pub fn is_empty(&self) -> (r: bool)
        ensures
            r == (*self == PartProfile {
                elapsed_ms: 0,
                idle_wait_ms: 0,
                write_ms: 0,
                flush_ms: 0,
                close_ms: 0,
                head_ms: 0,
            }),
    {
        self.elapsed_ms == 0 && self.idle_wait_ms == 0 && self.write_ms == 0 && self.flush_ms == 0
            && self.close_ms == 0 && self.head_ms == 0
    }
}

/// One file of a write with its profile.
#[derive(Clone, Debug)]
pub struct PartProfileSummary {
    pub key: String,
    pub part_index: usize,
    pub rows: usize,
    pub batches: usize,
    pub flight_stream_bytes: u64,
    pub parquet_object_bytes: u64,
    pub profile: PartProfile,
}

/// A part that a writer finished.
#[derive(Clone, Debug)]
pub struct DatasetPart {
    pub key: String,
    pub part_index: usize,
    pub rows: usize,
    pub batches: usize,
    pub flight_stream_bytes: u64,
    pub parquet_object_bytes: u64,
    pub profile: PartProfile,
}

/// What a client asks for.
#[derive(Clone, Debug)]
pub struct PutOptions {
    pub capability: Option<serde_json::Value>,
    pub attempt_id: Option<String>,
    pub upload_id: Option<String>,
    pub stream_id: Option<String>,
    pub staging_prefix: Option<String>,
    pub max_upload_streams: Option<usize>,
    pub max_stream_bytes: Option<u64>,
    pub target_file_size: Option<usize>,
    pub input_file_bytes: Option<u64>,
    pub profile: bool,
}

impl PutOptions {
    /// Whether nothing is asked for.
    pub open spec fn is_default(self) -> bool {
        &&& self.capability is None
        &&& self.attempt_id is None
        &&& self.upload_id is None
        &&& self.stream_id is None
        &&& self.staging_prefix is None
        &&& self.max_upload_streams is None
        &&& self.max_stream_bytes is None
        &&& self.target_file_size is None
        &&& self.input_file_bytes is None
        &&& !self.profile
    }
}

impl Default for PutOptions {
    fn default() -> (r: PutOptions)
        ensures
            r.is_default(),
    {
        PutOptions {
            capability: None,
            attempt_id: None,
            upload_id: None,
            stream_id: None,
            staging_prefix: None,
            max_upload_streams: None,
            max_stream_bytes: None,
            target_file_size: None,
            input_file_bytes: None,
            profile: false,
        }
    }
}

/// The limits and identifiers that a write runs under.
#[derive(Clone, Debug)]
pub struct PutContext {
    pub operation_id: Option<String>,
    pub attempt_id: String,
    pub upload_id: Option<String>,
    pub stream_id: Option<String>,
    pub staging_prefix: Option<String>,
    pub target_file_size: Option<usize>,
    pub upload_stream_limit: Option<usize>,
    pub stream_budget_bytes: Option<u64>,
    pub max_record_batch_bytes: u64,
}

/// A batch on its way to a part writer, with the bytes that it came in.
#[derive(Debug)]
pub struct PartBatch<B> {
    pub batch: B,
    pub flight_stream_bytes: u64,
}

}
