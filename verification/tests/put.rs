use arrow_flight_worker::config::{AppConfig, HostProbe};
use arrow_flight_worker::env::{CoreCount, EnvVar, Environment};
use arrow_flight_worker::put_flow::{PutAction, PutFlow, PutStage};
use arrow_flight_worker::put_model::{DatasetPart, PartProfile, WorkerPutSummary};
use arrow_flight_worker::put_writer::{
    dataset_part_key, part_profile_summaries, profile_from_parts, profiles_fit,
    put_file_summaries_from_parts, single_file_summary, BatchTotals, PartTotals, PutTimings,
    SingleFile, StreamCounters,
};
use arrow_flight_worker::sized_dataset::{
    totals_of, DatasetEnd, PartOutcome, SizedDataset, WriterNeed,
};
use arrow_flight_worker::status::{Code, Status};
use arrow_flight_worker::worker_status::WorkerWriterCapacity;

fn host() -> HostProbe {
    HostProbe {
        cpu_max: None,
        cpu_quota: None,
        cpu_period: None,
        memory_max: None,
        memory_limit: None,
        parallelism: Some(2),
        cpu_cores: CoreCount::NotANumber,
        flight_addr_parses: true,
        metrics_addr_parses: true,
    }
}

fn config(vars: &[(&str, &str)]) -> AppConfig {
    let env = Environment {
        vars: vars
            .iter()
            .map(|(name, value)| EnvVar { name: (*name).to_owned(), value: (*value).to_owned() })
            .collect(),
    };
    AppConfig::from_env(&env, &host()).unwrap()
}

fn worker_summary() -> WorkerPutSummary {
    WorkerPutSummary {
        worker_id: "w".to_owned(),
        operation_id: None,
        attempt_id: "t".to_owned(),
        upload_id: None,
        stream_id: None,
        staging_prefix: None,
        admission_wait_ms: 0,
        global_put_stream_limit: 1,
        upload_put_stream_limit: None,
        active_put_streams_at_admit: 1,
        upload_active_streams_at_admit: None,
        stream_budget_bytes: None,
    }
}

fn step(flow: &mut PutFlow, result: Result<(), Status>) -> (PutAction, bool) {
    let step = flow.advance(result);
    (step.action, step.release)
}

fn bad(message: &str) -> Result<(), Status> {
    Err(Status::of(Code::Internal, message))
}

#[test]
fn a_write_goes_through_every_record() {
    let mut flow = PutFlow::new();
    assert!(matches!(step(&mut flow, Ok(())), (PutAction::Admission, false)));
    assert!(matches!(step(&mut flow, Ok(())), (PutAction::RecordAdmitted, false)));
    assert!(matches!(step(&mut flow, Ok(())), (PutAction::ReceiveFirstBatch, false)));
    assert!(matches!(step(&mut flow, Ok(())), (PutAction::RecordWriting, false)));
    assert!(matches!(step(&mut flow, Ok(())), (PutAction::WriteBatches, false)));
    assert!(matches!(step(&mut flow, Ok(())), (PutAction::RecordCompleted, true)));
    assert!(matches!(step(&mut flow, Ok(())), (PutAction::Answer, false)));
    assert_eq!(flow.stage, PutStage::Done);
}

fn refused_with(action: PutAction) -> String {
    match action {
        PutAction::Refuse(status) => status.message,
        _ => panic!("a refusal was expected"),
    }
}

#[test]
fn a_rejected_write_is_recorded() {
    let mut flow = PutFlow::new();
    flow.advance(Ok(()));
    assert!(matches!(step(&mut flow, bad("full")), (PutAction::RecordRejected, false)));
    assert_eq!(refused_with(step(&mut flow, Ok(())).0), "full");

    let mut flow = PutFlow::new();
    flow.advance(Ok(()));
    flow.advance(bad("full"));
    assert_eq!(refused_with(step(&mut flow, bad("no database")).0), "no database");
}

#[test]
fn a_failed_write_is_recorded() {
    let mut flow = PutFlow::new();
    for _ in 0..5 {
        flow.advance(Ok(()));
    }
    assert!(matches!(step(&mut flow, bad("disk")), (PutAction::RecordFailed, true)));
    assert_eq!(refused_with(step(&mut flow, bad("no database")).0), "disk");
    assert_eq!(flow.stage, PutStage::Done);
}

#[test]
fn an_unopened_write_is_refused_at_once() {
    let mut flow = PutFlow::new();
    let (action, release) = step(&mut flow, bad("empty"));
    assert!(!release);
    assert_eq!(refused_with(action), "empty");
    let mut flow = PutFlow::new();
    flow.advance(Ok(()));
    flow.advance(Ok(()));
    let (action, release) = step(&mut flow, bad("no database"));
    assert!(release);
    assert_eq!(refused_with(action), "no database");
}

fn timings() -> PutTimings {
    PutTimings {
        elapsed_ms: 100,
        first_flight_data_message_ms: 1,
        first_batch_receive_decode_ms: 2,
        receive_decode_ms: 3,
        enqueue_wait_ms: 4,
        collect_writer_wait_ms: 5,
    }
}

fn part_profile(base: u128) -> PartProfile {
    PartProfile {
        elapsed_ms: base,
        idle_wait_ms: base + 1,
        write_ms: base + 2,
        flush_ms: base + 3,
        close_ms: base + 4,
        head_ms: base + 5,
    }
}

fn part(part_index: usize, rows: usize) -> DatasetPart {
    DatasetPart {
        key: dataset_part_key("d/k.parquet", part_index),
        part_index,
        rows,
        batches: 1,
        flight_stream_bytes: 10,
        parquet_object_bytes: 20,
        profile: part_profile(10 * part_index as u128),
    }
}

#[test]
fn profiles_sum_and_take_the_largest() {
    let profile = profile_from_parts(timings(), &vec![part_profile(10), part_profile(20)]);
    assert_eq!(profile.total_server_ms, 100);
    assert_eq!(profile.receive_decode_ms, 3);
    assert_eq!(profile.enqueue_wait_ms, 4);
    assert_eq!(profile.collect_writer_wait_ms, 5);
    assert_eq!(profile.writer_task_elapsed_ms_sum, 30);
    assert_eq!(profile.writer_task_elapsed_ms_max, 20);
    assert_eq!(profile.writer_task_idle_wait_ms_sum, 32);
    assert_eq!(profile.writer_task_write_ms_sum, 34);
    assert_eq!(profile.writer_task_write_ms_max, 22);
    assert_eq!(profile.writer_task_flush_ms_sum, 36);
    assert_eq!(profile.writer_task_close_ms_sum, 38);
    assert_eq!(profile.writer_task_close_ms_max, 24);
    assert_eq!(profile.writer_task_head_ms_sum, 40);
    assert_eq!(profile.object_head_ms, 40);
    assert_eq!(profile_from_parts(timings(), &vec![]).writer_task_write_ms_max, 0);
    assert!(part_profile(0).write_ms == 2 && !part_profile(0).is_empty());
    assert!(PartProfile::default().is_empty());
}

#[test]
fn part_keys_are_numbered() {
    assert_eq!(dataset_part_key("a/b.parquet", 7), "a/b.parts/part-00007.parquet");
    assert_eq!(dataset_part_key("a/b", 123456), "a/b.parts/part-123456.parquet");
}

#[test]
fn a_single_file_is_summed_up() {
    let mut totals = BatchTotals::new();
    assert!(totals.wrote(5, 10, 8, 8));
    totals.flushed(3);
    assert!(!totals.wrote(6, 20, 7, 8));
    totals.closed(4, 5, 60);
    let mut counters = StreamCounters::new();
    counters.received(30, true);
    counters.received(12, false);
    let file = SingleFile {
        key: "k".to_owned(),
        path: "k.parquet".to_owned(),
        client_input_file_bytes: Some(9),
        totals,
        flight_stream_bytes: counters.flight_stream_bytes,
        flight_data_messages: counters.flight_data_messages,
        parquet_object_bytes: None,
        timings: timings(),
        profile_enabled: true,
    };
    let summary = single_file_summary(&config(&[]), worker_summary(), file);
    assert_eq!(summary.key, "k");
    assert_eq!((summary.rows, summary.batches), (11, 2));
    assert_eq!(summary.flight_stream_bytes, 42);
    assert_eq!(summary.flight_data_messages, Some(1));
    assert_eq!(summary.parquet_object_bytes, None);
    assert_eq!(summary.files.len(), 1);
    assert_eq!(summary.files[0].key, "k.parquet");
    assert_eq!(summary.files[0].parquet_object_bytes, 0);
    let profile = summary.profile.unwrap();
    assert_eq!(profile.writer_task_write_ms_sum, 30);
    assert_eq!(profile.writer_task_flush_ms_sum, 3);
    assert_eq!(profile.writer_task_elapsed_ms_max, 60);
    assert_eq!(summary.part_profiles.unwrap()[0].profile.close_ms, 4);
}

#[test]
fn a_part_is_summed_up() {
    let mut totals = PartTotals::new();
    totals.totals.waited(2);
    totals.totals.wrote(5, 1, 0, 8);
    totals.received(100);
    totals.received(11);
    let part = totals.finish("p".to_owned(), 3, 77);
    assert_eq!(part.part_index, 3);
    assert_eq!(part.flight_stream_bytes, 111);
    assert_eq!(part.parquet_object_bytes, 77);
    assert_eq!(part.profile.idle_wait_ms, 2);
    assert_eq!(part.profile.write_ms, 1);
}

fn taken(index: usize, batches: usize) -> PartOutcome {
    let mut part = PartTotals::new();
    for _ in 0..batches {
        part.totals.wrote(5, 1, 0, 8);
    }
    PartOutcome::Ended(part, 100 + index as u64)
}

#[test]
fn a_dataset_is_split_at_its_target_size() {
    let mut dataset = SizedDataset::new(100, 2);
    let mut outbox: Vec<(usize, u64)> = Vec::new();
    let mut seen = 0u64;
    for bytes in [60u64, 50, 100, 30, 90, 1] {
        seen += bytes;
        assert_eq!(dataset.arrived(seen), bytes);
        loop {
            match dataset.need() {
                WriterNeed::Ready => break,
                WriterNeed::Collect(index) => {
                    dataset.collected("t.parquet", taken(index, 1)).unwrap();
                }
                WriterNeed::Spawn(_) => dataset.spawned(),
            }
        }
        outbox.push((*dataset.active.last().unwrap(), bytes));
        dataset.sent(bytes, true).unwrap();
    }
    assert_eq!(outbox, [(0, 60), (0, 50), (1, 100), (2, 30), (2, 90), (3, 1)]);
    dataset.end();
    while let Some(index) = dataset.oldest() {
        let batches = if index == 3 { 0 } else { 1 };
        dataset.collected("t.parquet", taken(index, batches)).unwrap();
    }
    let parts: Vec<(usize, &str, u64)> = dataset
        .parts
        .iter()
        .map(|part| (part.part_index, part.key.as_str(), part.parquet_object_bytes))
        .collect();
    assert_eq!(
        parts,
        [
            (0, "t.parts/part-00000.parquet", 100),
            (1, "t.parts/part-00001.parquet", 101),
            (2, "t.parts/part-00002.parquet", 102),
        ]
    );
    assert!(dataset.collected("t.parquet", taken(4, 1)).is_err());
}

#[test]
fn failures_of_part_writers() {
    let mut dataset = SizedDataset::new(10, 0);
    assert_eq!(dataset.max_part_writers, 1);
    let error = dataset.sent(0, true).unwrap_err();
    assert_eq!(error.message, "dataset writer was not initialized");
    dataset.arrived(10);
    dataset.spawned();
    let error = dataset.sent(10, false).unwrap_err();
    assert_eq!(error.code, Code::Internal);
    assert_eq!(error.message, "dataset writer task stopped during DoPut");
    dataset.sent(10, true).unwrap();
    let error = dataset.collected("t", PartOutcome::Failed("disk".to_owned())).unwrap_err();
    assert_eq!((error.code, error.message.as_str()), (Code::Internal, "disk"));
    let error = dataset.collected("t", taken(0, 1)).unwrap_err();
    assert_eq!(error.message, "no active dataset writer to collect");
}

fn end(profile_enabled: bool) -> DatasetEnd {
    DatasetEnd {
        client_input_file_bytes: None,
        flight_stream_bytes: 33,
        flight_data_messages: 4,
        timings: timings(),
        profile_enabled,
    }
}

#[test]
fn parts_are_reported_in_order() {
    let mut dataset = SizedDataset::new(100, 8);
    dataset.parts = vec![part(2, 5), part(0, 7), part(1, 6)];
    assert_eq!(totals_of(&dataset.parts), Some((18, 3, 60)));
    assert!(profiles_fit(&dataset.parts));
    let summary = dataset
        .finish(&config(&[]), "d/k.parquet".to_owned(), worker_summary(), end(true))
        .unwrap();
    assert_eq!(summary.mode, "sized_dataset");
    assert_eq!((summary.rows, summary.batches, summary.parts), (18, 3, 3));
    assert_eq!(summary.put_parallelism, 8);
    assert_eq!(summary.target_file_size, Some(100));
    assert_eq!(summary.parquet_object_bytes, Some(60));
    let order: Vec<usize> = summary.files.iter().map(|file| file.part_index).collect();
    assert_eq!(order, [0, 1, 2]);
    assert_eq!(summary.files[2].rows, 5);
    assert_eq!(summary.flight_data_messages, Some(4));
    assert_eq!(summary.profile.unwrap().writer_task_elapsed_ms_sum, 30);
    assert_eq!(summary.part_profiles.unwrap()[1].key, "d/k.parts/part-00001.parquet");
}

#[test]
fn a_dataset_without_parts_is_refused() {
    let dataset = SizedDataset::new(100, 8);
    let error = dataset
        .finish(&config(&[]), "k".to_owned(), worker_summary(), end(false))
        .unwrap_err();
    assert_eq!(error.code, Code::InvalidArgument);
    assert_eq!(error.message, "DoPut did not contain record batches");
}

#[test]
fn totals_that_do_not_fit() {
    let mut big = part(1, usize::MAX);
    assert_eq!(totals_of(&vec![part(0, 1), big]), None);
    big = part(1, 1);
    big.profile.write_ms = u128::MAX;
    assert!(!profiles_fit(&vec![part(0, 1), big]));
}

#[test]
fn summaries_follow_their_parts() {
    let parts = vec![part(4, 2), part(1, 3)];
    let files = put_file_summaries_from_parts(&parts);
    assert_eq!(files[0].part_index, 4);
    assert_eq!(files[1].key, parts[1].key);
    let profiles = part_profile_summaries(&parts);
    assert_eq!(profiles[0].profile.elapsed_ms, 40);
    assert_eq!(profiles[1].rows, 3);
}

#[test]
fn files_are_the_parts_of_the_split() {
    let mut dataset = SizedDataset::new(10, 2);
    let mut tasks: Vec<PartTotals> = Vec::new();
    let mut seen = 0u64;
    for bytes in [4u64, 7, 12, 3, 3] {
        seen += bytes;
        dataset.arrived(seen);
        loop {
            match dataset.need() {
                WriterNeed::Ready => break,
                WriterNeed::Collect(index) => {
                    let outcome = PartOutcome::Ended(tasks[index], 1);
                    dataset.collected("d/t", outcome).unwrap();
                }
                WriterNeed::Spawn(index) => {
                    assert_eq!(index, tasks.len());
                    tasks.push(PartTotals::new());
                    dataset.spawned();
                }
            }
        }
        let newest = tasks.last_mut().unwrap();
        newest.totals.wrote(1, 0, 0, 1);
        newest.received(bytes);
        dataset.sent(bytes, true).unwrap();
    }
    dataset.end();
    while let Some(index) = dataset.oldest() {
        dataset.collected("d/t", PartOutcome::Ended(tasks[index], 1)).unwrap();
    }
    let summary =
        dataset.finish(&config(&[]), "d/t".to_owned(), worker_summary(), end(false)).unwrap();
    let files: Vec<(usize, &str, u64, usize)> = summary
        .files
        .iter()
        .map(|file| {
            (file.part_index, file.key.as_str(), file.flight_stream_bytes, file.batches)
        })
        .collect();
    assert_eq!(
        files,
        [
            (0, "d/t.parts/part-00000.parquet", 11, 2),
            (1, "d/t.parts/part-00001.parquet", 12, 1),
            (2, "d/t.parts/part-00002.parquet", 6, 2),
        ]
    );
}

#[test]
fn writers_stay_within_the_limit_of_the_worker() {
    let limit = WorkerWriterCapacity::of(3, 2, 0).limit;
    let mut datasets = [SizedDataset::new(1, 3), SizedDataset::new(1, 3)];
    for bytes in 1..20u64 {
        for dataset in &mut datasets {
            dataset.arrived(bytes);
            while let WriterNeed::Collect(index) = dataset.need() {
                dataset.collected("t", taken(index, 1)).unwrap();
            }
            dataset.spawned();
            dataset.sent(1, true).unwrap();
        }
        let running: usize = datasets.iter().map(|dataset| dataset.active.len()).sum();
        assert!(running <= limit);
    }
    assert_eq!(limit, 6);
}

#[test]
fn a_count_that_goes_back_brings_nothing() {
    let mut dataset = SizedDataset::new(10, 1);
    assert_eq!(dataset.arrived(8), 8);
    assert_eq!(dataset.arrived(5), 0);
    assert_eq!(dataset.arrived(9), 4);
}

#[test]
fn totals_have_room_until_they_are_full() {
    let mut totals = BatchTotals::new();
    assert!(totals.can_count(usize::MAX, u128::MAX));
    totals.wrote(1, 1, 0, 1);
    assert!(!totals.can_count(usize::MAX, 0));
    assert!(!totals.can_count(0, u128::MAX));
    assert!(totals.can_count(usize::MAX - 1, u128::MAX - 1));
    totals.batches = usize::MAX;
    assert!(!totals.can_count(0, 0));
}

#[test]
fn a_write_that_does_not_open_is_refused() {
    let mut flow = PutFlow::new();
    let step = flow.advance(Err(Status::of(Code::InvalidArgument, "DoPut stream was empty")));
    assert!(!step.release);
    assert_eq!(flow.stage, PutStage::Done);
    match step.action {
        PutAction::Refuse(status) => assert_eq!(status.message, "DoPut stream was empty"),
        other => panic!("{other:?}"),
    }
}
