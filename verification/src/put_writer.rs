//! What writing batches to files adds up to.

use vstd::prelude::*;

use crate::config::AppConfig;
use crate::number::{at_least, padded, padded_of};
use crate::put_model::{
    DatasetPart, PartProfile, PartProfileSummary, PutFileSummary, PutProfile, PutSummary,
    WorkerPutSummary,
};
use crate::text::{has_prefix, has_suffix, strip_suffix};

verus! {

/// The milliseconds of the steps of a write.
#[derive(Clone, Copy, Debug)]
pub struct PutTimings {
    pub elapsed_ms: u128,
    pub first_flight_data_message_ms: u128,
    pub first_batch_receive_decode_ms: u128,
    pub receive_decode_ms: u128,
    pub enqueue_wait_ms: u128,
    pub collect_writer_wait_ms: u128,
}

// ---------------------------------------------------------------------------
// Profiles

/// The sum of one measure over parts.
pub open spec fn sum_by(parts: Seq<PartProfile>, measure: spec_fn(PartProfile) -> u128) -> nat
    decreases parts.len(),
{
    if parts.len() == 0 {
        0
    } else {
        sum_by(parts.drop_last(), measure) + measure(parts.last()) as nat
    }
}

/// The greatest value of one measure over parts, zero where there is no part.
pub open spec fn max_by(parts: Seq<PartProfile>, measure: spec_fn(PartProfile) -> u128) -> int
    decreases parts.len(),
{
    if parts.len() == 0 {
        0
    } else {
        at_least(max_by(parts.drop_last(), measure), measure(parts.last()) as int)
    }
}

pub open spec fn elapsed() -> spec_fn(PartProfile) -> u128 {
    |part: PartProfile| part.elapsed_ms
}

pub open spec fn idle() -> spec_fn(PartProfile) -> u128 {
    |part: PartProfile| part.idle_wait_ms
}

pub open spec fn writing() -> spec_fn(PartProfile) -> u128 {
    |part: PartProfile| part.write_ms
}

pub open spec fn flushing() -> spec_fn(PartProfile) -> u128 {
    |part: PartProfile| part.flush_ms
}

pub open spec fn closing() -> spec_fn(PartProfile) -> u128 {
    |part: PartProfile| part.close_ms
}

pub open spec fn heading() -> spec_fn(PartProfile) -> u128 {
    |part: PartProfile| part.head_ms
}

/// Whether the sums over parts can be represented.
pub open spec fn sums_fit(parts: Seq<PartProfile>) -> bool {
    &&& sum_by(parts, elapsed()) <= u128::MAX
    &&& sum_by(parts, idle()) <= u128::MAX
    &&& sum_by(parts, writing()) <= u128::MAX
    &&& sum_by(parts, flushing()) <= u128::MAX
    &&& sum_by(parts, closing()) <= u128::MAX
    &&& sum_by(parts, heading()) <= u128::MAX
}

proof fn lemma_sum_grows(
    parts: Seq<PartProfile>,
    measure: spec_fn(PartProfile) -> u128,
    i: int,
)
    requires
        0 <= i <= parts.len(),
    ensures
        sum_by(parts.take(i), measure) <= sum_by(parts, measure),
        i < parts.len() ==> sum_by(parts.take(i + 1), measure) == sum_by(parts.take(i), measure)
            + measure(parts[i]) as nat,
        i < parts.len() ==> max_by(parts.take(i + 1), measure) == at_least(
            max_by(parts.take(i), measure),
            measure(parts[i]) as int,
        ),
    decreases parts.len() - i,
{
    if i < parts.len() {
        assert(parts.take(i + 1).drop_last() == parts.take(i));
        lemma_sum_grows(parts, measure, i + 1);
    } else {
        assert(parts.take(i) == parts);
    }
}

/// Whether the sums over the profiles of parts can be represented.
pub fn profiles_fit(parts: &Vec<DatasetPart>) -> (r: bool)
    ensures
        r == sums_fit(profiles_of(parts@)),
{
    let ghost all = profiles_of(parts@);
    let mut sum = PartProfile::default();
    let mut i: usize = 0;
    while i < parts.len()
        invariant
            i <= parts@.len(),
            all == profiles_of(parts@),
            sum.elapsed_ms == sum_by(all.take(i as int), elapsed()),
            sum.idle_wait_ms == sum_by(all.take(i as int), idle()),
            sum.write_ms == sum_by(all.take(i as int), writing()),
            sum.flush_ms == sum_by(all.take(i as int), flushing()),
            sum.close_ms == sum_by(all.take(i as int), closing()),
            sum.head_ms == sum_by(all.take(i as int), heading()),
        decreases parts@.len() - i,
    {
        proof {
            lemma_sum_grows(all, elapsed(), i as int);
            lemma_sum_grows(all, idle(), i as int);
            lemma_sum_grows(all, writing(), i as int);
            lemma_sum_grows(all, flushing(), i as int);
            lemma_sum_grows(all, closing(), i as int);
            lemma_sum_grows(all, heading(), i as int);
            lemma_sum_grows(all, elapsed(), i + 1);
            lemma_sum_grows(all, idle(), i + 1);
            lemma_sum_grows(all, writing(), i + 1);
            lemma_sum_grows(all, flushing(), i + 1);
            lemma_sum_grows(all, closing(), i + 1);
            lemma_sum_grows(all, heading(), i + 1);
            assert(all[i as int] == parts@[i as int].profile);
        }
        let part: PartProfile = parts[i].profile;
        match (
            sum.elapsed_ms.checked_add(part.elapsed_ms),
            sum.idle_wait_ms.checked_add(part.idle_wait_ms),
            sum.write_ms.checked_add(part.write_ms),
            sum.flush_ms.checked_add(part.flush_ms),
            sum.close_ms.checked_add(part.close_ms),
            sum.head_ms.checked_add(part.head_ms),
        ) {
            (
                Some(elapsed_ms),
                Some(idle_wait_ms),
                Some(write_ms),
                Some(flush_ms),
                Some(close_ms),
                Some(head_ms),
            ) => {
                sum = PartProfile {
                    elapsed_ms,
                    idle_wait_ms,
                    write_ms,
                    flush_ms,
                    close_ms,
                    head_ms,
                };
            },
            _ => return false,
        }
        i += 1;
    }
    proof {
        assert(all.take(i as int) == all);
    }
    true
}

/// The profile of a write whose parts have these profiles.
pub open spec fn profile_of(timings: PutTimings, parts: Seq<PartProfile>) -> PutProfile {
    PutProfile {
        total_server_ms: timings.elapsed_ms,
        first_flight_data_message_ms: timings.first_flight_data_message_ms,
        first_batch_receive_decode_ms: timings.first_batch_receive_decode_ms,
        receive_decode_ms: timings.receive_decode_ms,
        enqueue_wait_ms: timings.enqueue_wait_ms,
        collect_writer_wait_ms: timings.collect_writer_wait_ms,
        object_head_ms: sum_by(parts, heading()) as u128,
        writer_task_elapsed_ms_sum: sum_by(parts, elapsed()) as u128,
        writer_task_elapsed_ms_max: max_by(parts, elapsed()) as u128,
        writer_task_idle_wait_ms_sum: sum_by(parts, idle()) as u128,
        writer_task_write_ms_sum: sum_by(parts, writing()) as u128,
        writer_task_write_ms_max: max_by(parts, writing()) as u128,
        writer_task_flush_ms_sum: sum_by(parts, flushing()) as u128,
        writer_task_close_ms_sum: sum_by(parts, closing()) as u128,
        writer_task_close_ms_max: max_by(parts, closing()) as u128,
        writer_task_head_ms_sum: sum_by(parts, heading()) as u128,
    }
}

fn max_u128(a: u128, b: u128) -> (r: u128)
    ensures
        r == at_least(a as int, b as int),
{
    if a >= b {
        a
    } else {
        b
    }
}

/// The profile of a write whose parts have these profiles.
pub fn profile_from_parts(timings: PutTimings, parts: &Vec<PartProfile>) -> (r: PutProfile)
    requires
        sums_fit(parts@),
    ensures
        r == profile_of(timings, parts@),
{
    let mut sum = PartProfile::default();
    let mut most = PartProfile::default();
    let mut i: usize = 0;
    while i < parts.len()
        invariant
            i <= parts@.len(),
            sums_fit(parts@),
            sum.elapsed_ms == sum_by(parts@.take(i as int), elapsed()),
            sum.idle_wait_ms == sum_by(parts@.take(i as int), idle()),
            sum.write_ms == sum_by(parts@.take(i as int), writing()),
            sum.flush_ms == sum_by(parts@.take(i as int), flushing()),
            sum.close_ms == sum_by(parts@.take(i as int), closing()),
            sum.head_ms == sum_by(parts@.take(i as int), heading()),
            most.elapsed_ms == max_by(parts@.take(i as int), elapsed()),
            most.write_ms == max_by(parts@.take(i as int), writing()),
            most.close_ms == max_by(parts@.take(i as int), closing()),
        decreases parts@.len() - i,
    {
        proof {
            lemma_sum_grows(parts@, elapsed(), i as int);
            lemma_sum_grows(parts@, idle(), i as int);
            lemma_sum_grows(parts@, writing(), i as int);
            lemma_sum_grows(parts@, flushing(), i as int);
            lemma_sum_grows(parts@, closing(), i as int);
            lemma_sum_grows(parts@, heading(), i as int);
            lemma_sum_grows(parts@, elapsed(), i + 1);
            lemma_sum_grows(parts@, idle(), i + 1);
            lemma_sum_grows(parts@, writing(), i + 1);
            lemma_sum_grows(parts@, flushing(), i + 1);
            lemma_sum_grows(parts@, closing(), i + 1);
            lemma_sum_grows(parts@, heading(), i + 1);
        }
        let part: PartProfile = parts[i];
        sum = PartProfile {
            elapsed_ms: sum.elapsed_ms + part.elapsed_ms,
            idle_wait_ms: sum.idle_wait_ms + part.idle_wait_ms,
            write_ms: sum.write_ms + part.write_ms,
            flush_ms: sum.flush_ms + part.flush_ms,
            close_ms: sum.close_ms + part.close_ms,
            head_ms: sum.head_ms + part.head_ms,
        };
        most = PartProfile {
            elapsed_ms: max_u128(most.elapsed_ms, part.elapsed_ms),
            write_ms: max_u128(most.write_ms, part.write_ms),
            close_ms: max_u128(most.close_ms, part.close_ms),
            ..most
        };
        i += 1;
    }
    proof {
        assert(parts@.take(i as int) == parts@);
    }
    PutProfile {
        total_server_ms: timings.elapsed_ms,
        first_flight_data_message_ms: timings.first_flight_data_message_ms,
        first_batch_receive_decode_ms: timings.first_batch_receive_decode_ms,
        receive_decode_ms: timings.receive_decode_ms,
        enqueue_wait_ms: timings.enqueue_wait_ms,
        collect_writer_wait_ms: timings.collect_writer_wait_ms,
        object_head_ms: sum.head_ms,
        writer_task_elapsed_ms_sum: sum.elapsed_ms,
        writer_task_elapsed_ms_max: most.elapsed_ms,
        writer_task_idle_wait_ms_sum: sum.idle_wait_ms,
        writer_task_write_ms_sum: sum.write_ms,
        writer_task_write_ms_max: most.write_ms,
        writer_task_flush_ms_sum: sum.flush_ms,
        writer_task_close_ms_sum: sum.close_ms,
        writer_task_close_ms_max: most.close_ms,
        writer_task_head_ms_sum: sum.head_ms,
    }
}

/// The profiles of parts.
pub open spec fn profiles_of(parts: Seq<DatasetPart>) -> Seq<PartProfile> {
    parts.map_values(|part: DatasetPart| part.profile)
}

/// The profile of a write with these parts.
pub fn profile_from_dataset_parts(timings: PutTimings, parts: &Vec<DatasetPart>) -> (r: PutProfile)
    requires
        sums_fit(profiles_of(parts@)),
    ensures
        r == profile_of(timings, profiles_of(parts@)),
{
    let mut profiles: Vec<PartProfile> = Vec::new();
    let mut i: usize = 0;
    while i < parts.len()
        invariant
            i <= parts@.len(),
            profiles@ == profiles_of(parts@.take(i as int)),
        decreases parts@.len() - i,
    {
        profiles.push(parts[i].profile);
        i += 1;
        proof {
            assert(profiles@ == profiles_of(parts@.take(i as int)));
        }
    }
    proof {
        assert(parts@.take(i as int) == parts@);
    }
    profile_from_parts(timings, &profiles)
}

// ---------------------------------------------------------------------------
// Messages

/// What a stream has brought so far.
#[derive(Clone, Copy, Debug)]
pub struct StreamCounters {
    pub flight_stream_bytes: u64,
    pub flight_data_messages: u64,
}

impl StreamCounters {
    /// Nothing so far.
    pub fn new() -> (r: StreamCounters)
        ensures
            r == (StreamCounters { flight_stream_bytes: 0, flight_data_messages: 0 }),
    {
        StreamCounters { flight_stream_bytes: 0, flight_data_messages: 0 }
    }

    /// The counters after a message. The message itself counts where a profile is wanted.
    pub open spec fn after_message(self, bytes: u64, profile_enabled: bool) -> StreamCounters {
        StreamCounters {
            flight_stream_bytes: self.flight_stream_bytes.wrapping_add(bytes),
            flight_data_messages: if profile_enabled {
                self.flight_data_messages.wrapping_add(1)
            } else {
                self.flight_data_messages
            },
        }
    }

    /// Counts the bytes of a message, and the message itself where a profile is wanted.
    pub fn received(&mut self, bytes: u64, profile_enabled: bool)
        ensures
            *final(self) == old(self).after_message(bytes, profile_enabled),
    {
        if profile_enabled {
            self.flight_data_messages = self.flight_data_messages.wrapping_add(1);
        }
        self.flight_stream_bytes = self.flight_stream_bytes.wrapping_add(bytes);
    }
}

// ---------------------------------------------------------------------------
// Batches

/// The batches that went into one file.
#[derive(Clone, Copy, Debug)]
pub struct BatchTotals {
    pub batches: usize,
    pub rows: usize,
    pub profile: PartProfile,
}

impl BatchTotals {
    /// Whether one more batch can be counted.
    pub open spec fn has_room(self, rows: usize, write_ms: u128) -> bool {
        &&& self.batches < usize::MAX
        &&& self.rows + rows <= usize::MAX
        &&& self.profile.write_ms + write_ms <= u128::MAX
    }

    /// Whether one more batch can be counted.
    pub fn can_count(&self, rows: usize, write_ms: u128) -> (r: bool)
        ensures
            r == self.has_room(rows, write_ms),
    {
        self.batches < usize::MAX && self.rows.checked_add(rows).is_some()
            && self.profile.write_ms.checked_add(write_ms).is_some()
    }

    /// No batch.
    pub fn new() -> (r: BatchTotals)
        ensures
            r.batches == 0,
            r.rows == 0,
            r.profile == (PartProfile {
                elapsed_ms: 0,
                idle_wait_ms: 0,
                write_ms: 0,
                flush_ms: 0,
                close_ms: 0,
                head_ms: 0,
            }),
    {
        BatchTotals { batches: 0, rows: 0, profile: PartProfile::default() }
    }

    /// The totals after a batch that was written in `write_ms`.
    pub open spec fn after_batch(self, rows: usize, write_ms: u128) -> BatchTotals {
        BatchTotals {
            batches: (self.batches + 1) as usize,
            rows: (self.rows + rows) as usize,
            profile: PartProfile {
                write_ms: (self.profile.write_ms + write_ms) as u128,
                ..self.profile
            },
        }
    }

    /// The totals after a flush that took `flush_ms`.
    pub open spec fn after_flush(self, flush_ms: u128) -> BatchTotals {
        BatchTotals {
            profile: PartProfile {
                flush_ms: (self.profile.flush_ms + flush_ms) as u128,
                ..self.profile
            },
            ..self
        }
    }

    /// The totals after a wait for a batch that took `idle_ms`.
    pub open spec fn after_wait(self, idle_ms: u128) -> BatchTotals {
        BatchTotals {
            profile: PartProfile {
                idle_wait_ms: (self.profile.idle_wait_ms + idle_ms) as u128,
                ..self.profile
            },
            ..self
        }
    }

    /// The totals after the file was closed and looked up.
    pub open spec fn after_close(
        self,
        close_ms: u128,
        head_ms: u128,
        elapsed_ms: u128,
    ) -> BatchTotals {
        BatchTotals {
            profile: PartProfile {
                close_ms: (self.profile.close_ms + close_ms) as u128,
                head_ms: (self.profile.head_ms + head_ms) as u128,
                elapsed_ms,
                ..self.profile
            },
            ..self
        }
    }

    /// Counts a batch that was written in `write_ms`, and tells whether the writer, which now holds
    /// `in_progress_size` bytes, is to be flushed.
    pub fn wrote(
        &mut self,
        rows: usize,
        write_ms: u128,
        in_progress_size: usize,
        flush_threshold_bytes: usize,
    ) -> (flush: bool)
        requires
            old(self).has_room(rows, write_ms),
        ensures
            *final(self) == old(self).after_batch(rows, write_ms),
            flush == (in_progress_size >= flush_threshold_bytes),
    {
        self.profile.write_ms = self.profile.write_ms + write_ms;
        self.batches = self.batches + 1;
        self.rows = self.rows + rows;
        in_progress_size >= flush_threshold_bytes
    }

    /// Counts a flush that took `flush_ms`.
    pub fn flushed(&mut self, flush_ms: u128)
        requires
            old(self).profile.flush_ms + flush_ms <= u128::MAX,
        ensures
            *final(self) == old(self).after_flush(flush_ms),
    {
        self.profile.flush_ms = self.profile.flush_ms + flush_ms;
    }

    /// Counts a wait for a batch that took `idle_ms`.
    pub fn waited(&mut self, idle_ms: u128)
        requires
            old(self).profile.idle_wait_ms + idle_ms <= u128::MAX,
        ensures
            *final(self) == old(self).after_wait(idle_ms),
    {
        self.profile.idle_wait_ms = self.profile.idle_wait_ms + idle_ms;
    }

    /// Notes how long the file took to close, to be looked up, and in all.
    pub fn closed(&mut self, close_ms: u128, head_ms: u128, elapsed_ms: u128)
        requires
            old(self).profile.close_ms + close_ms <= u128::MAX,
            old(self).profile.head_ms + head_ms <= u128::MAX,
        ensures
            *final(self) == old(self).after_close(close_ms, head_ms, elapsed_ms),
    {
        self.profile.close_ms = self.profile.close_ms + close_ms;
        self.profile.head_ms = self.profile.head_ms + head_ms;
        self.profile.elapsed_ms = elapsed_ms;
    }
}

// ---------------------------------------------------------------------------
// One file

/// What a write into one file came to.
#[derive(Debug)]
pub struct SingleFile {
    pub key: String,
    /// The key as the object store writes it.
    pub path: String,
    pub client_input_file_bytes: Option<u64>,
    pub totals: BatchTotals,
    pub flight_stream_bytes: u64,
    pub flight_data_messages: u64,
    /// The size of the file, where the object store could tell it.
    pub parquet_object_bytes: Option<u64>,
    pub timings: PutTimings,
    pub profile_enabled: bool,
}

/// The size of a file, zero where it is not known.
pub open spec fn known_size(bytes: Option<u64>) -> u64 {
    match bytes {
        Some(bytes) => bytes,
        None => 0,
    }
}

/// The timings of a write without a queue and without parts to collect.
pub open spec fn unqueued(timings: PutTimings) -> PutTimings {
    PutTimings { enqueue_wait_ms: 0, collect_writer_wait_ms: 0, ..timings }
}

/// Whether the profiles of a write into one file are those of its measures.
pub open spec fn is_single_profile(file: SingleFile, summary: PutSummary) -> bool {
    if file.profile_enabled {
        &&& summary.profile == Some(
            profile_of(unqueued(file.timings), seq![file.totals.profile]),
        )
        &&& summary.part_profiles matches Some(profiles) && profiles@.len() == 1
            && profiles@[0].key@ == file.path@ && profiles@[0].part_index == 0 && profiles@[0].rows
            == file.totals.rows && profiles@[0].batches == file.totals.batches
            && profiles@[0].flight_stream_bytes == file.flight_stream_bytes
            && profiles@[0].parquet_object_bytes == known_size(file.parquet_object_bytes)
            && profiles@[0].profile == file.totals.profile
    } else {
        summary.profile is None && summary.part_profiles is None
    }
}

/// Whether a summary tells of a write into one file.
pub open spec fn is_single_summary(
    config: AppConfig,
    worker: WorkerPutSummary,
    file: SingleFile,
    summary: PutSummary,
) -> bool {
    &&& summary.key@ == file.key@
    &&& summary.worker == worker
    &&& summary.mode@ == "single"@
    &&& summary.rows == file.totals.rows
    &&& summary.batches == file.totals.batches
    &&& summary.parts == 1
    &&& summary.put_parallelism == 1
    &&& summary.client_input_file_bytes == file.client_input_file_bytes
    &&& summary.flight_data_messages == (if file.profile_enabled {
        Some(file.flight_data_messages)
    } else {
        None
    })
    &&& summary.flight_stream_bytes == file.flight_stream_bytes
    &&& summary.parquet_object_bytes == file.parquet_object_bytes
    &&& summary.files@.len() == 1
    &&& summary.files@[0].key@ == file.path@
    &&& summary.files@[0].part_index == 0
    &&& summary.files@[0].rows == file.totals.rows
    &&& summary.files@[0].batches == file.totals.batches
    &&& summary.files@[0].flight_stream_bytes == file.flight_stream_bytes
    &&& summary.files@[0].parquet_object_bytes == known_size(file.parquet_object_bytes)
    &&& summary.target_file_size is None
    &&& summary.elapsed_ms == file.timings.elapsed_ms
    &&& summary.compression@ == config.parquet.compression_name@
    &&& summary.multipart_part_size == config.parquet.multipart_part_size
    &&& summary.multipart_max_concurrency == config.parquet.multipart_max_concurrency
    &&& is_single_profile(file, summary)
}

/// What a write into one file is answered with. Its queue and collection waits are zero.
pub fn single_file_summary(config: &AppConfig, worker: WorkerPutSummary, file: SingleFile) -> (r:
    PutSummary)
    ensures
        is_single_summary(*config, worker, file, r),
{
    let object_bytes: u64 = match file.parquet_object_bytes {
        Some(bytes) => bytes,
        None => 0,
    };
    let mut files: Vec<PutFileSummary> = Vec::new();
    files.push(
        PutFileSummary {
            key: file.path.clone(),
            part_index: 0,
            rows: file.totals.rows,
            batches: file.totals.batches,
            flight_stream_bytes: file.flight_stream_bytes,
            parquet_object_bytes: object_bytes,
        },
    );
    let mut profile: Option<PutProfile> = None;
    let mut part_profiles: Option<Vec<PartProfileSummary>> = None;
    if file.profile_enabled {
        let mut profiles: Vec<PartProfile> = Vec::new();
        profiles.push(file.totals.profile);
        proof {
            reveal_with_fuel(sum_by, 2);
            assert(profiles@ == seq![file.totals.profile]);
            assert(profiles@.drop_last() == Seq::<PartProfile>::empty());
        }
        let timings = PutTimings {
            enqueue_wait_ms: 0,
            collect_writer_wait_ms: 0,
            ..file.timings
        };
        profile = Some(profile_from_parts(timings, &profiles));
        let mut summaries: Vec<PartProfileSummary> = Vec::new();
        summaries.push(
            PartProfileSummary {
                key: file.path.clone(),
                part_index: 0,
                rows: file.totals.rows,
                batches: file.totals.batches,
                flight_stream_bytes: file.flight_stream_bytes,
                parquet_object_bytes: object_bytes,
                profile: file.totals.profile,
            },
        );
        part_profiles = Some(summaries);
    }
    let flight_data_messages = if file.profile_enabled {
        Some(file.flight_data_messages)
    } else {
        None
    };
    PutSummary {
        key: file.key,
        worker,
        mode: "single".to_owned(),
        rows: file.totals.rows,
        batches: file.totals.batches,
        parts: 1,
        put_parallelism: 1,
        client_input_file_bytes: file.client_input_file_bytes,
        flight_data_messages,
        flight_stream_bytes: file.flight_stream_bytes,
        parquet_object_bytes: file.parquet_object_bytes,
        files,
        target_file_size: None,
        elapsed_ms: file.timings.elapsed_ms,
        compression: config.parquet.compression_name.clone(),
        multipart_part_size: config.parquet.multipart_part_size,
        multipart_max_concurrency: config.parquet.multipart_max_concurrency,
        profile,
        part_profiles,
    }
}

// ---------------------------------------------------------------------------
// Parts

/// The key of a part: a file in a directory that is named after the whole.
pub open spec fn part_key_of(key: Seq<char>, part_index: nat) -> Seq<char> {
    let stem = if has_suffix(key, ".parquet"@) {
        key.take(key.len() - ".parquet"@.len())
    } else {
        key
    };
    stem + ".parts/part-"@ + padded_of(part_index, 5) + ".parquet"@
}

/// The key of a part.
pub fn dataset_part_key(key: &str, part_index: usize) -> (r: String)
    ensures
        r@ == part_key_of(key@, part_index as nat),
{
    let mut part_key = match strip_suffix(key, ".parquet") {
        Some(stem) => stem,
        None => key.to_owned(),
    };
    part_key.append(".parts/part-");
    part_key.append(padded(part_index as u128, 5).as_str());
    part_key.append(".parquet");
    part_key
}

/// The batches that went into one part, with the bytes that they came in.
#[derive(Clone, Copy, Debug)]
pub struct PartTotals {
    pub totals: BatchTotals,
    pub flight_stream_bytes: u64,
}

impl PartTotals {
    /// No batch.
    pub fn new() -> (r: PartTotals)
        ensures
            r.totals.batches == 0,
            r.totals.rows == 0,
            r.flight_stream_bytes == 0,
            r.totals.profile == (PartProfile {
                elapsed_ms: 0,
                idle_wait_ms: 0,
                write_ms: 0,
                flush_ms: 0,
                close_ms: 0,
                head_ms: 0,
            }),
    {
        PartTotals { totals: BatchTotals::new(), flight_stream_bytes: 0 }
    }

    /// The totals after a batch of the part came in so many bytes.
    pub open spec fn after_bytes(self, flight_stream_bytes: u64) -> PartTotals {
        PartTotals {
            flight_stream_bytes: (self.flight_stream_bytes + flight_stream_bytes) as u64,
            ..self
        }
    }

    /// Counts the bytes that a batch of the part came in.
    pub fn received(&mut self, flight_stream_bytes: u64)
        requires
            old(self).flight_stream_bytes + flight_stream_bytes <= u64::MAX,
        ensures
            *final(self) == old(self).after_bytes(flight_stream_bytes),
    {
        self.flight_stream_bytes = self.flight_stream_bytes + flight_stream_bytes;
    }

    /// The part that the totals come to.
    pub open spec fn part_of(
        self,
        key: String,
        part_index: usize,
        parquet_object_bytes: u64,
    ) -> DatasetPart {
        DatasetPart {
            key,
            part_index,
            rows: self.totals.rows,
            batches: self.totals.batches,
            flight_stream_bytes: self.flight_stream_bytes,
            parquet_object_bytes,
            profile: self.totals.profile,
        }
    }

    /// The finished part.
    pub fn finish(self, key: String, part_index: usize, parquet_object_bytes: u64) -> (r:
        DatasetPart)
        ensures
            r == self.part_of(key, part_index, parquet_object_bytes),
    {
        DatasetPart {
            key,
            part_index,
            rows: self.totals.rows,
            batches: self.totals.batches,
            flight_stream_bytes: self.flight_stream_bytes,
            parquet_object_bytes,
            profile: self.totals.profile,
        }
    }
}

/// Whether a summary tells of a part and its profile.
pub open spec fn is_part_profile(part: DatasetPart, summary: PartProfileSummary) -> bool {
    &&& summary.key@ == part.key@
    &&& summary.part_index == part.part_index
    &&& summary.rows == part.rows
    &&& summary.batches == part.batches
    &&& summary.flight_stream_bytes == part.flight_stream_bytes
    &&& summary.parquet_object_bytes == part.parquet_object_bytes
    &&& summary.profile == part.profile
}

/// Whether summaries tell of parts and their profiles, in order.
pub open spec fn are_part_profiles(
    parts: Seq<DatasetPart>,
    summaries: Seq<PartProfileSummary>,
) -> bool {
    &&& summaries.len() == parts.len()
    &&& forall|i: int|
        0 <= i < parts.len() ==> is_part_profile(parts[i], #[trigger] summaries[i])
}

/// The parts with their profiles, in order.
pub fn part_profile_summaries(parts: &Vec<DatasetPart>) -> (r: Vec<PartProfileSummary>)
    ensures
        are_part_profiles(parts@, r@),
{
    let mut summaries: Vec<PartProfileSummary> = Vec::new();
    let mut i: usize = 0;
    while i < parts.len()
        invariant
            i <= parts@.len(),
            summaries@.len() == i,
            forall|j: int|
                0 <= j < i ==> is_part_profile(parts@[j], #[trigger] summaries@[j]),
        decreases parts@.len() - i,
    {
        let part = &parts[i];
        summaries.push(
            PartProfileSummary {
                key: part.key.clone(),
                part_index: part.part_index,
                rows: part.rows,
                batches: part.batches,
                flight_stream_bytes: part.flight_stream_bytes,
                parquet_object_bytes: part.parquet_object_bytes,
                profile: part.profile,
            },
        );
        i += 1;
    }
    summaries
}

/// Whether a summary tells of the file of a part.
pub open spec fn is_part_file(part: DatasetPart, file: PutFileSummary) -> bool {
    &&& file.key@ == part.key@
    &&& file.part_index == part.part_index
    &&& file.rows == part.rows
    &&& file.batches == part.batches
    &&& file.flight_stream_bytes == part.flight_stream_bytes
    &&& file.parquet_object_bytes == part.parquet_object_bytes
}

/// Whether summaries tell of the files of parts, in order.
pub open spec fn are_part_files(parts: Seq<DatasetPart>, files: Seq<PutFileSummary>) -> bool {
    &&& files.len() == parts.len()
    &&& forall|i: int| 0 <= i < parts.len() ==> is_part_file(parts[i], #[trigger] files[i])
}

/// The files of parts, in order.
pub fn put_file_summaries_from_parts(parts: &Vec<DatasetPart>) -> (r: Vec<PutFileSummary>)
    ensures
        are_part_files(parts@, r@),
{
    let mut files: Vec<PutFileSummary> = Vec::new();
    let mut i: usize = 0;
    while i < parts.len()
        invariant
            i <= parts@.len(),
            files@.len() == i,
            forall|j: int| 0 <= j < i ==> is_part_file(parts@[j], #[trigger] files@[j]),
        decreases parts@.len() - i,
    {
        let part = &parts[i];
        files.push(
            PutFileSummary {
                key: part.key.clone(),
                part_index: part.part_index,
                rows: part.rows,
                batches: part.batches,
                flight_stream_bytes: part.flight_stream_bytes,
                parquet_object_bytes: part.parquet_object_bytes,
            },
        );
        i += 1;
    }
    files
}

// ---------------------------------------------------------------------------
// Laws

/// A message adds its bytes to those of the stream, and one message where a profile is wanted, else
/// none.
pub proof fn law_messages_are_counted(
    counters: StreamCounters,
    bytes: u64,
    profile_enabled: bool,
)
    requires
        counters.flight_stream_bytes + bytes <= u64::MAX,
        counters.flight_data_messages < u64::MAX,
    ensures
        ({
            let after = counters.after_message(bytes, profile_enabled);
            &&& after.flight_stream_bytes == counters.flight_stream_bytes + bytes
            &&& profile_enabled ==> after.flight_data_messages == counters.flight_data_messages + 1
            &&& !profile_enabled ==> after.flight_data_messages == counters.flight_data_messages
        }),
{
}

/// The rows of batches, each given with its rows and the time of its writing.
pub open spec fn batch_rows_sum(batches: Seq<(usize, u128)>) -> nat
    decreases batches.len(),
{
    if batches.len() == 0 {
        0
    } else {
        batch_rows_sum(batches.drop_last()) + batches.last().0 as nat
    }
}

/// The time of writing batches, each given with its rows and the time of its writing.
pub open spec fn batch_time_sum(batches: Seq<(usize, u128)>) -> nat
    decreases batches.len(),
{
    if batches.len() == 0 {
        0
    } else {
        batch_time_sum(batches.drop_last()) + batches.last().1 as nat
    }
}

/// The totals after batches, each given with its rows and the time of its writing.
pub open spec fn after_batches(totals: BatchTotals, batches: Seq<(usize, u128)>) -> BatchTotals
    decreases batches.len(),
{
    if batches.len() == 0 {
        totals
    } else {
        after_batches(totals, batches.drop_last()).after_batch(batches.last().0, batches.last().1)
    }
}

/// The totals of a file count every batch once: after any batches there are as many more batches as
/// were written, as many more rows as they have together, and as much more time as their writing
/// took. Nothing else changes.
pub proof fn law_totals_count_every_batch(totals: BatchTotals, batches: Seq<(usize, u128)>)
    requires
        totals.batches + batches.len() <= usize::MAX,
        totals.rows + batch_rows_sum(batches) <= usize::MAX,
        totals.profile.write_ms + batch_time_sum(batches) <= u128::MAX,
    ensures
        ({
            let after = after_batches(totals, batches);
            &&& after.batches == totals.batches + batches.len()
            &&& after.rows == totals.rows + batch_rows_sum(batches)
            &&& after.profile.write_ms == totals.profile.write_ms + batch_time_sum(batches)
            &&& after.profile.elapsed_ms == totals.profile.elapsed_ms
            &&& after.profile.idle_wait_ms == totals.profile.idle_wait_ms
            &&& after.profile.flush_ms == totals.profile.flush_ms
            &&& after.profile.close_ms == totals.profile.close_ms
            &&& after.profile.head_ms == totals.profile.head_ms
        }),
    decreases batches.len(),
{
    if batches.len() > 0 {
        law_totals_count_every_batch(totals, batches.drop_last());
    }
}

/// Flushing, waiting and closing add their times to their own measures, and leave the rows and the
/// batches alone.
pub proof fn law_times_go_to_their_measures(
    totals: BatchTotals,
    flush_ms: u128,
    idle_ms: u128,
    close_ms: u128,
    head_ms: u128,
    elapsed_ms: u128,
)
    requires
        totals.profile.flush_ms + flush_ms <= u128::MAX,
        totals.profile.idle_wait_ms + idle_ms <= u128::MAX,
        totals.profile.close_ms + close_ms <= u128::MAX,
        totals.profile.head_ms + head_ms <= u128::MAX,
    ensures
        ({
            let after = totals.after_flush(flush_ms).after_wait(idle_ms).after_close(
                close_ms,
                head_ms,
                elapsed_ms,
            );
            &&& after.rows == totals.rows
            &&& after.batches == totals.batches
            &&& after.profile.flush_ms == totals.profile.flush_ms + flush_ms
            &&& after.profile.idle_wait_ms == totals.profile.idle_wait_ms + idle_ms
            &&& after.profile.close_ms == totals.profile.close_ms + close_ms
            &&& after.profile.head_ms == totals.profile.head_ms + head_ms
            &&& after.profile.elapsed_ms == elapsed_ms
            &&& after.profile.write_ms == totals.profile.write_ms
        }),
{
}

/// One more part adds its measures to the sums of a profile, and raises the greatest values to its
/// own where those are greater. What was measured of the whole write stays.
pub proof fn law_profile_adds_parts(
    timings: PutTimings,
    parts: Seq<PartProfile>,
    part: PartProfile,
)
    requires
        sums_fit(parts.push(part)),
    ensures
        ({
            let before = profile_of(timings, parts);
            let after = profile_of(timings, parts.push(part));
            &&& after.writer_task_elapsed_ms_sum == before.writer_task_elapsed_ms_sum
                + part.elapsed_ms
            &&& after.writer_task_idle_wait_ms_sum == before.writer_task_idle_wait_ms_sum
                + part.idle_wait_ms
            &&& after.writer_task_write_ms_sum == before.writer_task_write_ms_sum + part.write_ms
            &&& after.writer_task_flush_ms_sum == before.writer_task_flush_ms_sum + part.flush_ms
            &&& after.writer_task_close_ms_sum == before.writer_task_close_ms_sum + part.close_ms
            &&& after.writer_task_head_ms_sum == before.writer_task_head_ms_sum + part.head_ms
            &&& after.object_head_ms == after.writer_task_head_ms_sum
            &&& after.writer_task_elapsed_ms_max >= part.elapsed_ms
            &&& after.writer_task_elapsed_ms_max >= before.writer_task_elapsed_ms_max
            &&& after.writer_task_elapsed_ms_max == part.elapsed_ms
                || after.writer_task_elapsed_ms_max == before.writer_task_elapsed_ms_max
            &&& after.writer_task_write_ms_max >= part.write_ms
            &&& after.writer_task_write_ms_max >= before.writer_task_write_ms_max
            &&& after.writer_task_write_ms_max == part.write_ms || after.writer_task_write_ms_max
                == before.writer_task_write_ms_max
            &&& after.writer_task_close_ms_max >= part.close_ms
            &&& after.writer_task_close_ms_max >= before.writer_task_close_ms_max
            &&& after.writer_task_close_ms_max == part.close_ms || after.writer_task_close_ms_max
                == before.writer_task_close_ms_max
            &&& after.total_server_ms == timings.elapsed_ms
            &&& after.first_flight_data_message_ms == timings.first_flight_data_message_ms
            &&& after.first_batch_receive_decode_ms == timings.first_batch_receive_decode_ms
            &&& after.receive_decode_ms == timings.receive_decode_ms
            &&& after.enqueue_wait_ms == timings.enqueue_wait_ms
            &&& after.collect_writer_wait_ms == timings.collect_writer_wait_ms
        }),
{
    let more = parts.push(part);
    assert(more.drop_last() == parts);
    lemma_max_is_measured(parts, elapsed());
    lemma_max_is_measured(parts, writing());
    lemma_max_is_measured(parts, closing());
}

/// Without a part, the sums and the greatest values of a profile are zero.
pub proof fn law_profile_of_no_part(timings: PutTimings)
    ensures
        ({
            let profile = profile_of(timings, Seq::empty());
            &&& profile.writer_task_elapsed_ms_sum == 0
            &&& profile.writer_task_elapsed_ms_max == 0
            &&& profile.writer_task_idle_wait_ms_sum == 0
            &&& profile.writer_task_write_ms_sum == 0
            &&& profile.writer_task_write_ms_max == 0
            &&& profile.writer_task_flush_ms_sum == 0
            &&& profile.writer_task_close_ms_sum == 0
            &&& profile.writer_task_close_ms_max == 0
            &&& profile.writer_task_head_ms_sum == 0
            &&& profile.object_head_ms == 0
        }),
{
}

proof fn lemma_max_is_measured(parts: Seq<PartProfile>, measure: spec_fn(PartProfile) -> u128)
    ensures
        0 <= max_by(parts, measure) <= u128::MAX,
    decreases parts.len(),
{
    if parts.len() > 0 {
        lemma_max_is_measured(parts.drop_last(), measure);
    }
}

/// A write into one file is answered with one file that holds all of it: the rows, the batches and
/// the bytes of the write are those of the file, under the path that the object store gave. Its
/// profile is there exactly where one was wanted.
pub proof fn law_single_file_is_the_write(
    config: AppConfig,
    worker: WorkerPutSummary,
    file: SingleFile,
    summary: PutSummary,
)
    requires
        is_single_summary(config, worker, file, summary),
    ensures
        summary.key@ == file.key@,
        summary.worker == worker,
        summary.mode@ == "single"@,
        summary.parts == 1 && summary.files@.len() == 1 && summary.put_parallelism == 1,
        summary.rows == file.totals.rows == summary.files@[0].rows,
        summary.batches == file.totals.batches == summary.files@[0].batches,
        summary.flight_stream_bytes == file.flight_stream_bytes
            == summary.files@[0].flight_stream_bytes,
        summary.files@[0].key@ == file.path@,
        summary.files@[0].part_index == 0,
        summary.parquet_object_bytes == file.parquet_object_bytes,
        file.parquet_object_bytes matches Some(bytes) ==> summary.files@[0].parquet_object_bytes
            == bytes,
        file.parquet_object_bytes is None ==> summary.files@[0].parquet_object_bytes == 0,
        summary.client_input_file_bytes == file.client_input_file_bytes,
        summary.target_file_size is None,
        summary.elapsed_ms == file.timings.elapsed_ms,
        summary.compression@ == config.parquet.compression_name@,
        summary.multipart_part_size == config.parquet.multipart_part_size,
        summary.multipart_max_concurrency == config.parquet.multipart_max_concurrency,
        summary.profile is Some <==> file.profile_enabled,
        summary.part_profiles is Some <==> file.profile_enabled,
        summary.flight_data_messages is Some <==> file.profile_enabled,
        file.profile_enabled ==> {
            let profile = summary.profile->0;
            let part = file.totals.profile;
            &&& summary.flight_data_messages == Some(file.flight_data_messages)
            &&& profile.total_server_ms == file.timings.elapsed_ms
            &&& profile.receive_decode_ms == file.timings.receive_decode_ms
            &&& profile.enqueue_wait_ms == 0
            &&& profile.collect_writer_wait_ms == 0
            &&& profile.writer_task_elapsed_ms_sum == part.elapsed_ms
                == profile.writer_task_elapsed_ms_max
            &&& profile.writer_task_write_ms_sum == part.write_ms
                == profile.writer_task_write_ms_max
            &&& profile.writer_task_close_ms_sum == part.close_ms
                == profile.writer_task_close_ms_max
            &&& profile.writer_task_flush_ms_sum == part.flush_ms
            &&& profile.writer_task_idle_wait_ms_sum == part.idle_wait_ms
            &&& profile.object_head_ms == part.head_ms
            &&& summary.part_profiles->0@.len() == 1
            &&& summary.part_profiles->0@[0].rows == file.totals.rows
            &&& summary.part_profiles->0@[0].batches == file.totals.batches
            &&& summary.part_profiles->0@[0].profile == part
        },
{
    if file.profile_enabled {
        let part = file.totals.profile;
        let none = Seq::<PartProfile>::empty();
        assert(none.push(part) == seq![part]);
        reveal_with_fuel(sum_by, 2);
        reveal_with_fuel(max_by, 2);
        assert(seq![part].drop_last() == none);
    }
}

/// Every part lies in a directory that is named after the whole, and no two parts of a write have
/// the same key.
pub proof fn law_part_keys(key: Seq<char>, part_index: nat, other: nat)
    ensures
        has_suffix(part_key_of(key, part_index), ".parquet"@),
        has_suffix(key, ".parquet"@) ==> has_prefix(
            part_key_of(key, part_index),
            key.take(key.len() - 8) + ".parts/part-"@,
        ),
        !has_suffix(key, ".parquet"@) ==> has_prefix(
            part_key_of(key, part_index),
            key + ".parts/part-"@,
        ),
        part_key_of(key, part_index) == part_key_of(key, other) ==> part_index == other,
{
    reveal_strlit(".parquet");
    let stem = if has_suffix(key, ".parquet"@) {
        key.take(key.len() - 8)
    } else {
        key
    };
    let front = stem + ".parts/part-"@;
    let one = padded_of(part_index, 5);
    let two = padded_of(other, 5);
    let whole = front + one + ".parquet"@;
    assert(part_key_of(key, part_index) == whole);
    assert(whole.skip(whole.len() - 8) == ".parquet"@);
    assert(whole.take(front.len() as int) == front);
    let second = front + two + ".parquet"@;
    assert(part_key_of(key, other) == second);
    if whole == second {
        assert(one.len() == two.len());
        let at = front.len() as int;
        assert(one == whole.subrange(at, at + one.len()));
        assert(two == second.subrange(at, at + two.len()));
        crate::number::law_decimal_reads_back(part_index, other, 5, 0);
    }
}

/// A part tells what its writer counted, and its file and its profile tell the same of it.
pub proof fn law_parts_tell_of_their_writers(
    totals: PartTotals,
    key: String,
    part_index: usize,
    parquet_object_bytes: u64,
    file: PutFileSummary,
    profile: PartProfileSummary,
)
    requires
        is_part_file(totals.part_of(key, part_index, parquet_object_bytes), file),
        is_part_profile(totals.part_of(key, part_index, parquet_object_bytes), profile),
    ensures
        file.key@ == key@ && profile.key@ == key@,
        file.part_index == part_index == profile.part_index,
        file.rows == totals.totals.rows == profile.rows,
        file.batches == totals.totals.batches == profile.batches,
        file.flight_stream_bytes == totals.flight_stream_bytes == profile.flight_stream_bytes,
        file.parquet_object_bytes == parquet_object_bytes == profile.parquet_object_bytes,
        profile.profile == totals.totals.profile,
{
}

/// The bytes that the batches of a part came in add up, and counting them changes nothing else of
/// its totals.
pub proof fn law_part_bytes_add_up(totals: PartTotals, first: u64, second: u64)
    requires
        totals.flight_stream_bytes + first + second <= u64::MAX,
    ensures
        totals.after_bytes(first).after_bytes(second).flight_stream_bytes
            == totals.flight_stream_bytes + first + second,
        totals.after_bytes(first).totals == totals.totals,
{
}

/// Every part of a write has one file and one profile, in the same order, and they agree on its
/// rows, its batches and its bytes.
pub proof fn law_every_part_is_told(
    parts: Seq<DatasetPart>,
    files: Seq<PutFileSummary>,
    profiles: Seq<PartProfileSummary>,
    i: int,
)
    requires
        are_part_files(parts, files),
        are_part_profiles(parts, profiles),
        0 <= i < parts.len(),
    ensures
        files.len() == parts.len() && profiles.len() == parts.len(),
        files[i].key@ == parts[i].key@ && profiles[i].key@ == parts[i].key@,
        files[i].part_index == parts[i].part_index == profiles[i].part_index,
        files[i].rows == parts[i].rows == profiles[i].rows,
        files[i].batches == parts[i].batches == profiles[i].batches,
        files[i].flight_stream_bytes == parts[i].flight_stream_bytes
            == profiles[i].flight_stream_bytes,
        files[i].parquet_object_bytes == parts[i].parquet_object_bytes
            == profiles[i].parquet_object_bytes,
        profiles[i].profile == parts[i].profile,
{
    assert(is_part_file(parts[i], files[i]));
    assert(is_part_profile(parts[i], profiles[i]));
}

}
