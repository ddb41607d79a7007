use arrow_flight_worker::admission_flow::{AdmissionAction, AdmissionFlow, AdmissionStage};
use arrow_flight_worker::config::{AppConfig, HostProbe};
use arrow_flight_worker::env::{CoreCount, EnvVar, Environment};
use arrow_flight_worker::flight_service::{
    check_action, check_arrival, check_batch_bytes, check_put_slot, check_read_slot,
    checked_flight_data_size, enforce_stream_budget, first_batch_limit, flight_data_size,
    list_actions, min_optional_u64, normalize_staging_prefix, parse_put_options,
    put_complete_record, put_file_records, put_layout, put_mode, read_first_batch,
    read_first_message, stale_admission_message, unserved, validate_worker_id, DescriptorSizes,
    FirstBatch, FirstMessage, FlightDataSizes, PutLayout, UnservedCall, WorkerFlightService,
};
use arrow_flight_worker::metadata_store::WorkerHeartbeat;
use arrow_flight_worker::metrics::WorkerMetrics;
use arrow_flight_worker::put_model::{PutContext, PutOptions};
use arrow_flight_worker::put_writer::{
    single_file_summary, BatchTotals, PutTimings, SingleFile,
};
use arrow_flight_worker::resource::{PermitOutcome, PermitRequest, ResourcePermit};
use arrow_flight_worker::server::{heartbeat_interval, shutdown_timed_out, tls_files};
use arrow_flight_worker::status::{code_number, Code, Status};
use arrow_flight_worker::worker_status::{
    PutRuntimeStatus, ReadRuntimeStatus, WorkerRuntimeStatus, WorkerState, WorkerStatus,
    WorkerWriterCapacity,
};

fn host() -> HostProbe {
    HostProbe {
        cpu_max: None,
        cpu_quota: None,
        cpu_period: None,
        memory_max: None,
        memory_limit: None,
        parallelism: Some(2),
        cpu_cores: CoreCount::NotANumber,
        flight_addr_parses: true,
        metrics_addr_parses: true,
    }
}

fn config(vars: &[(&str, &str)]) -> AppConfig {
    let env = Environment {
        vars: vars
            .iter()
            .map(|(name, value)| EnvVar { name: (*name).to_owned(), value: (*value).to_owned() })
            .collect(),
    };
    AppConfig::from_env(&env, &host()).unwrap()
}

fn service(vars: &[(&str, &str)]) -> WorkerFlightService {
    WorkerFlightService::new(config(vars))
}

fn options() -> PutOptions {
    PutOptions {
        capability: None,
        attempt_id: None,
        upload_id: None,
        stream_id: None,
        staging_prefix: None,
        max_upload_streams: None,
        max_stream_bytes: None,
        target_file_size: None,
        input_file_bytes: None,
        profile: false,
    }
}

fn runtime() -> WorkerRuntimeStatus {
    WorkerRuntimeStatus {
        put: PutRuntimeStatus {
            started_total: 0,
            succeeded_total: 0,
            failed_total: 0,
            rejected_total: 0,
            rows_total: 0,
            batches_total: 0,
            files_total: 0,
            flight_stream_bytes_total: 0,
            parquet_object_bytes_total: 0,
            admission_wait_ms_ewma: 0,
            duration_ms_ewma: 0,
            throughput_bytes_per_sec_ewma: 0,
        },
        read: ReadRuntimeStatus {
            started_total: 0,
            succeeded_total: 0,
            failed_total: 0,
            rejected_total: 0,
            cancelled_total: 0,
            object_bytes_total: 0,
            admission_wait_ms_ewma: 0,
            duration_ms_ewma: 0,
            throughput_bytes_per_sec_ewma: u64::MAX,
        },
    }
}

fn snapshot(service: &WorkerFlightService) -> WorkerStatus {
    service.worker_status(WorkerWriterCapacity { limit: 4, active: 1, available: 3 }, runtime())
}

fn refusal<T>(result: Result<T, Status>) -> (Code, String) {
    match result {
        Ok(_) => panic!("a refusal was expected"),
        Err(status) => (status.code, status.message),
    }
}

#[test]
fn an_admitted_write_takes_a_place_and_gives_it_back() {
    let mut service = service(&[("PUT_MAX_STREAMS_PER_UPLOAD", "2")]);
    let mut wanted = options();
    wanted.upload_id = Some("up-1".to_owned());
    wanted.attempt_id = Some("try-1".to_owned());
    let context = service.put_context("a.parquet", &wanted, "fresh".to_owned()).unwrap();
    assert_eq!(context.attempt_id, "try-1");
    assert_eq!(context.upload_stream_limit, Some(2));

    let (first, summary) =
        service.admit_put(&context, 7, ResourcePermit { units: 0 }).unwrap();
    assert_eq!(summary.admission_wait_ms, 7);
    assert_eq!(summary.active_put_streams_at_admit, 1);
    assert_eq!(summary.upload_active_streams_at_admit, Some(1));
    assert_eq!(summary.upload_put_stream_limit, Some(2));
    let (second, _) = service.admit_put(&context, 0, ResourcePermit { units: 0 }).unwrap();
    assert_eq!(service.active_put_streams, 2);
    assert_eq!(service.upload_streams.active("up-1"), 2);
    assert_eq!(
        refusal(service.admit_put(&context, 0, ResourcePermit { units: 0 })),
        (
            Code::ResourceExhausted,
            "upload \"up-1\" has no free stream slots; active=2, limit=2".to_owned()
        )
    );
    assert_eq!(service.active_put_streams, 2);
    service.finish_put(first);
    service.finish_put(second);
    assert_eq!(service.active_put_streams, 0);
    assert_eq!(service.upload_streams.active("up-1"), 0);
}

#[test]
fn a_refused_write_gives_its_memory_back() {
    let mut service = service(&[]);
    let mut wanted = options();
    wanted.upload_id = Some("u".to_owned());
    wanted.max_upload_streams = Some(0);
    let context = service.put_context("a.parquet", &wanted, "fresh".to_owned()).unwrap();
    assert_eq!(context.attempt_id, "fresh");
    assert_eq!(context.upload_stream_limit, Some(1));
    let permit = service.put_memory.reserve(1, "DoPut", PermitOutcome::Acquired).unwrap();
    let (held, _) = service.admit_put(&context, 0, permit).unwrap();
    let before = service.put_memory.active_bytes();
    let permit = service.put_memory.reserve(1, "DoPut", PermitOutcome::Acquired).unwrap();
    assert!(service.admit_put(&context, 0, permit).is_err());
    assert_eq!(service.put_memory.active_bytes(), before);
    service.finish_put(held);
    assert_eq!(service.put_memory.active_bytes(), 0);
}

#[test]
fn reads_take_a_place_and_give_it_back() {
    let mut service = service(&[]);
    let permit = service.read_memory.reserve(1, "DoGet", PermitOutcome::Acquired).unwrap();
    let admission = service.admit_read(permit);
    assert_eq!(admission.active_read_streams_at_admit, 1);
    assert_eq!(service.active_read_streams, 1);
    assert_eq!(snapshot(&service).read.active, 1);
    service.finish_read(admission);
    assert_eq!(service.active_read_streams, 0);
    assert_eq!(service.read_memory.active_bytes(), 0);
}

#[test]
fn a_draining_worker_takes_nothing_new() {
    let mut service = service(&[("PUT_SLOT_WAIT_MS", "0")]);
    assert!(matches!(service.request_put_slot(), Ok(PermitRequest::Immediate)));
    assert!(matches!(service.request_read_slot(), Ok(PermitRequest::Within(_))));
    service.begin_draining();
    assert_eq!(
        refusal(service.request_put_slot()),
        (Code::Unavailable, "worker is draining and rejects new DoPut streams".to_owned())
    );
    assert_eq!(
        refusal(service.request_read_slot()),
        (Code::Unavailable, "worker is draining and rejects new DoGet streams".to_owned())
    );
    let status = snapshot(&service);
    assert!(status.draining);
    assert_eq!(status.state, WorkerState::Draining);
    assert!(!status.scheduler.put.allowed);
    assert!(!status.scheduler.read.allowed);
}

#[test]
fn slots_that_are_not_had_are_explained() {
    assert!(check_put_slot(PermitOutcome::Acquired).is_ok());
    assert!(check_read_slot(PermitOutcome::Acquired).is_ok());
    let exhausted = |message: &str| (Code::ResourceExhausted, message.to_owned());
    assert_eq!(
        refusal(check_put_slot(PermitOutcome::NoPermits)),
        exhausted("DoPut worker has no free upload slots")
    );
    assert_eq!(
        refusal(check_put_slot(PermitOutcome::TimedOut)),
        exhausted("timed out waiting for DoPut upload slot")
    );
    assert_eq!(
        refusal(check_read_slot(PermitOutcome::NoPermits)),
        exhausted("DoGet worker has no free read slots")
    );
    assert_eq!(
        refusal(check_read_slot(PermitOutcome::TimedOut)),
        exhausted("timed out waiting for DoGet read slot")
    );
    assert_eq!(
        refusal(check_put_slot(PermitOutcome::Closed("closed".to_owned()))),
        (Code::Internal, "closed".to_owned())
    );
}

#[test]
fn writes_stay_in_their_staging_prefix() {
    let strict = service(&[("PUT_REQUIRE_STAGING_PREFIX", "true")]);
    assert_eq!(
        refusal(strict.build_put_context("a.parquet", &options())),
        (Code::PermissionDenied, "DoPut requires staging_prefix metadata".to_owned())
    );
    let mut wanted = options();
    wanted.staging_prefix = Some("/stage/../one".to_owned());
    let context = strict.build_put_context("stage/one/a.parquet", &wanted).unwrap();
    assert_eq!(context.staging_prefix.as_deref(), Some("stage/one/"));
    assert_eq!(context.attempt_id.len(), 36);
    assert_eq!(
        refusal(strict.build_put_context("stage/one.parquet", &wanted)),
        (
            Code::PermissionDenied,
            "DoPut key \"stage/one.parquet\" is outside staging_prefix \"stage/one/\"".to_owned()
        )
    );
    assert_eq!(
        refusal(normalize_staging_prefix("./..")),
        (Code::InvalidArgument, "staging_prefix must not be empty".to_owned())
    );
}

#[test]
fn writes_stay_in_their_budget() {
    let service = service(&[("PUT_MAX_STREAM_BYTES", "100")]);
    let mut wanted = options();
    wanted.max_stream_bytes = Some(0);
    let context = service.build_put_context("a", &wanted).unwrap();
    assert_eq!(context.stream_budget_bytes, Some(100));
    wanted.max_stream_bytes = Some(40);
    let context = service.build_put_context("a", &wanted).unwrap();
    assert_eq!(context.stream_budget_bytes, Some(40));
    wanted.input_file_bytes = Some(41);
    assert_eq!(
        refusal(service.build_put_context("a", &wanted)),
        (
            Code::ResourceExhausted,
            "DoPut input_file_bytes 41 exceeds stream budget 40".to_owned()
        )
    );
    assert!(enforce_stream_budget(&context, 40).is_ok());
    assert_eq!(
        refusal(enforce_stream_budget(&context, 41)),
        (
            Code::ResourceExhausted,
            "DoPut stream exceeded byte budget; observed=41, budget=40".to_owned()
        )
    );
    let free = PutContext { stream_budget_bytes: None, ..context };
    assert!(enforce_stream_budget(&free, u64::MAX).is_ok());
    assert_eq!(min_optional_u64(None, None), None);
    assert_eq!(min_optional_u64(Some(1), None), Some(1));
}

#[test]
fn identifiers_of_writes_are_checked() {
    let id = |value: &str| {
        validate_worker_id("stream_id", &Some(value.to_owned())).map_err(|error| error.message)
    };
    assert_eq!(id(" s:1 "), Ok(Some("s:1".to_owned())));
    assert_eq!(id(""), Err("stream_id must not be empty".to_owned()));
    assert_eq!(id(&"a".repeat(129)), Err("stream_id must be at most 128 bytes".to_owned()));
    assert_eq!(
        id("a/b"),
        Err("stream_id may only contain ASCII letters, digits, '-', '_', '.', and ':'".to_owned())
    );
    assert_eq!(
        validate_worker_id("x", &Some("/".to_owned())).unwrap_err().code,
        Code::InvalidArgument
    );
    assert_eq!(validate_worker_id("x", &None).unwrap(), None);
}

#[test]
fn options_come_from_metadata() {
    let decode = |bytes: &[u8]| {
        if bytes == b"sized" {
            let mut sized = options();
            sized.target_file_size = Some(9);
            Ok(sized)
        } else {
            Err("expected value".to_owned())
        }
    };
    let none = parse_put_options(b"", &decode).unwrap();
    assert_eq!(put_mode(&none), "single");
    let sized = parse_put_options(b"sized", &decode).unwrap();
    assert_eq!(put_mode(&sized), "sized_dataset");
    assert_eq!(
        refusal(parse_put_options(b"{", &decode)),
        (
            Code::InvalidArgument,
            "invalid DoPut app_metadata options: expected value".to_owned()
        )
    );
}

#[test]
fn the_first_batch_must_arrive() {
    assert!(read_first_batch(FirstBatch::Arrived, 5).is_ok());
    assert_eq!(
        refusal(read_first_batch(FirstBatch::Ended, 5)),
        (Code::InvalidArgument, "DoPut stream did not contain record batches".to_owned())
    );
    assert_eq!(
        refusal(read_first_batch(FirstBatch::TimedOut, 5)),
        (
            Code::DeadlineExceeded,
            "timed out waiting 5ms for first DoPut record batch after admission".to_owned()
        )
    );
    let failure = FirstBatch::Failed(Status::of(Code::Aborted, "gone"));
    assert_eq!(refusal(read_first_batch(failure, 5)), (Code::Aborted, "gone".to_owned()));
    assert_eq!(
        stale_admission_message(5),
        "timed out waiting 5ms for first DoPut record batch"
    );
}

#[test]
fn sizes_of_messages() {
    let mut data = FlightDataSizes { app_metadata: 1, data_body: 2, data_header: 4, descriptor: None };
    assert_eq!(flight_data_size(&data), 7);
    assert_eq!(checked_flight_data_size(&data), Some(7));
    data.descriptor = Some(DescriptorSizes { cmd: 8, path: vec![16, 32] });
    assert_eq!(flight_data_size(&data), 63);
    assert_eq!(checked_flight_data_size(&data), Some(63));
    data.descriptor = Some(DescriptorSizes { cmd: 0, path: vec![usize::MAX - 7] });
    assert_eq!(checked_flight_data_size(&data), Some(u64::MAX));
    data.data_body = 3;
    assert_eq!(checked_flight_data_size(&data), None);
    data.descriptor = Some(DescriptorSizes { cmd: 0, path: vec![usize::MAX, 1] });
    assert_eq!(checked_flight_data_size(&data), None);
}

#[test]
fn actions_and_calls_of_a_worker() {
    assert!(check_action("worker.status").is_ok());
    assert_eq!(
        refusal(check_action("worker.stop")),
        (Code::Unimplemented, "unsupported worker action \"worker.stop\"".to_owned())
    );
    let actions = list_actions();
    assert_eq!(actions.len(), 1);
    assert_eq!(actions[0].name, "worker.status");
    assert_eq!(
        actions[0].description,
        "Return raw Parquet worker readiness and capacity snapshot as JSON"
    );
    for (call, message) in [
        (
            UnservedCall::GetFlightInfo,
            "GetFlightInfo is owned by the Java coordinator; worker only accepts direct DoPut/DoGet tickets",
        ),
        (UnservedCall::PollFlightInfo, "PollFlightInfo is not implemented"),
        (UnservedCall::GetSchema, "GetSchema is not implemented"),
        (UnservedCall::DoExchange, "DoExchange is not implemented"),
    ] {
        let status = unserved(call);
        assert_eq!(status.code, Code::Unimplemented);
        assert_eq!(status.message, message);
    }
}

#[test]
fn snapshots_show_capacity() {
    let mut service = service(&[
        ("WORKER_ID", "w-1"),
        ("PUT_MAX_ACTIVE_STREAMS", "3"),
        ("WORKER_ZONE", "z"),
    ]);
    let context = service.put_context("a", &options(), "id".to_owned()).unwrap();
    let (admission, _) = service.admit_put(&context, 0, ResourcePermit { units: 0 }).unwrap();
    let status = snapshot(&service);
    assert_eq!(status.worker_id, "w-1");
    assert_eq!(status.locality.zone.as_deref(), Some("z"));
    assert_eq!((status.put.limit, status.put.active, status.put.available), (3, 1, 2));
    assert_eq!(status.state, WorkerState::Active);
    assert_eq!(status.capabilities.max_active_put_writers, 4);
    assert_eq!(status.resources.put.limit_bytes, service.put_memory.total_bytes());
    assert_eq!(status.resources.read.max_batch_rows, Some(service.config.resources.read_max_batch_rows));
    service.finish_put(admission);

    let heartbeat = WorkerHeartbeat::from_status(&status);
    assert_eq!(heartbeat.worker_id, "w-1");
    assert_eq!(heartbeat.state, "ACTIVE");
    assert_eq!(heartbeat.put_recommended_streams, status.scheduler.put.recommended_streams as i32);
    assert_eq!(heartbeat.read_throughput_bytes_per_sec_ewma, i64::MAX);
    assert_eq!(heartbeat.registry_ttl_ms, status.registry_ttl_ms as i64);
}

#[test]
fn a_service_has_at_least_one_slot() {
    let mut config = config(&[]);
    config.worker.max_active_put_streams = 0;
    config.worker.max_active_read_streams = 7;
    let service = WorkerFlightService::new(config);
    assert_eq!(service.put_slots(), 1);
    assert_eq!(service.read_slots(), 7);
}

#[test]
fn records_hold_what_was_written() {
    let mut service = service(&[("WORKER_ID", "w-1")]);
    let mut wanted = options();
    wanted.upload_id = Some("up".to_owned());
    wanted.stream_id = Some("s".to_owned());
    wanted.input_file_bytes = Some(u64::MAX);
    let context = service.put_context("k.parquet", &wanted, "try".to_owned()).unwrap();
    let rejected = service.put_start_record("k.parquet", &context, None, &wanted);
    assert_eq!(rejected.active_put_streams_at_admit, None);
    assert_eq!(rejected.mode.as_deref(), Some("single"));
    assert_eq!(rejected.client_input_file_bytes, Some(i64::MAX));
    let (_, worker) = service.admit_put(&context, 0, ResourcePermit { units: 0 }).unwrap();
    let started = service.put_start_record("k.parquet", &context, Some(&worker), &wanted);
    assert_eq!(started.attempt_id, "try");
    assert_eq!(started.active_put_streams_at_admit, Some(1));
    assert_eq!(started.upload_active_streams_at_admit, Some(1));

    let mut totals = BatchTotals::new();
    assert!(!totals.wrote(10, 0, 5, 6));
    assert!(totals.wrote(20, 0, 6, 6));
    let file = SingleFile {
        key: "k.parquet".to_owned(),
        path: "k.parquet".to_owned(),
        client_input_file_bytes: None,
        totals,
        flight_stream_bytes: 99,
        flight_data_messages: 3,
        parquet_object_bytes: Some(50),
        timings: timings(12),
        profile_enabled: false,
    };
    let summary = single_file_summary(&service.config, worker, file);
    assert_eq!(summary.mode, "single");
    assert_eq!((summary.rows, summary.batches, summary.parts), (30, 2, 1));
    assert_eq!(summary.flight_data_messages, None);
    assert!(summary.profile.is_none());
    let record = put_complete_record(&summary);
    assert_eq!(record.attempt_id, "try");
    assert_eq!((record.rows, record.batches, record.parts), (30, 2, 1));
    assert_eq!(record.elapsed_ms, 12);
    assert_eq!(record.parquet_object_bytes, Some(50));
    let files = put_file_records(&summary);
    assert_eq!(files.len(), 1);
    assert_eq!(files[0].file_path, "k.parquet");
    assert_eq!(files[0].upload_id.as_deref(), Some("up"));
    assert_eq!(files[0].worker_id, "w-1");
    assert_eq!(files[0].parquet_object_bytes, 50);
}

fn timings(elapsed_ms: u128) -> PutTimings {
    PutTimings {
        elapsed_ms,
        first_flight_data_message_ms: 1,
        first_batch_receive_decode_ms: 2,
        receive_decode_ms: 3,
        enqueue_wait_ms: 0,
        collect_writer_wait_ms: 0,
    }
}

#[test]
fn a_server_starts_and_stops() {
    let mut tls = config(&[]).flight_tls;
    assert_eq!(tls_files(&tls).unwrap(), None);
    tls.enabled = true;
    tls.cert_path = None;
    tls.key_path = Some("k".to_owned());
    assert_eq!(
        tls_files(&tls).unwrap_err().one_line(),
        "FLIGHT_TLS_CERT_PATH must be set when Flight TLS is enabled"
    );
    tls.cert_path = Some("c".to_owned());
    assert_eq!(tls_files(&tls).unwrap(), Some(("c".to_owned(), "k".to_owned())));
    tls.key_path = None;
    assert_eq!(
        tls_files(&tls).unwrap_err().one_line(),
        "FLIGHT_TLS_KEY_PATH must be set when Flight TLS is enabled"
    );
    assert_eq!(heartbeat_interval(true, 5), Some(5));
    assert_eq!(heartbeat_interval(true, 0), None);
    assert_eq!(heartbeat_interval(false, 5), None);
    assert_eq!(
        shutdown_timed_out(30, 1, 2).one_line(),
        "worker shutdown exceeded 30ms grace period with 1 active DoPut and 2 active DoGet streams"
    );
}

#[test]
fn batches_stay_in_their_limit() {
    let service = service(&[("PUT_MAX_STREAM_BYTES", "100")]);
    let context = service.build_put_context("a", &options()).unwrap();
    let most = service.config.resources.put_max_record_batch_bytes;
    assert_eq!(context.max_record_batch_bytes, most);
    let context = PutContext { max_record_batch_bytes: 30, ..context };
    assert!(check_batch_bytes(&context, 30).is_ok());
    let too_large = (
        Code::ResourceExhausted,
        "DoPut record batch exceeded byte limit; observed=31, limit=30".to_owned(),
    );
    assert_eq!(refusal(check_batch_bytes(&context, 31)), too_large);
    assert!(check_arrival(&context, 40, 70).is_ok());
    assert!(check_arrival(&context, 70, 40).is_ok());
    assert_eq!(refusal(check_arrival(&context, 40, 71)), too_large);
    assert_eq!(
        refusal(check_arrival(&context, 40, 101)),
        (
            Code::ResourceExhausted,
            "DoPut stream exceeded byte budget; observed=101, budget=100".to_owned()
        )
    );
}

#[test]
fn the_first_message_must_arrive() {
    assert!(read_first_message(FirstMessage::Arrived).is_ok());
    assert_eq!(
        refusal(read_first_message(FirstMessage::Ended)),
        (Code::InvalidArgument, "DoPut stream was empty".to_owned())
    );
    let failure = FirstMessage::Failed(Status::of(Code::Cancelled, "left"));
    assert_eq!(refusal(read_first_message(failure)), (Code::Cancelled, "left".to_owned()));
}

#[test]
fn a_full_count_goes_round_and_comes_back() {
    let mut service = service(&[]);
    service.active_put_streams = usize::MAX;
    service.active_read_streams = usize::MAX;
    let context = service.build_put_context("a", &options()).unwrap();
    let (put, summary) = service.admit_put(&context, 0, ResourcePermit { units: 0 }).unwrap();
    assert_eq!((summary.active_put_streams_at_admit, service.active_put_streams), (0, 0));
    service.finish_put(put);
    assert_eq!(service.active_put_streams, usize::MAX);
    let read = service.admit_read(ResourcePermit { units: 0 });
    assert_eq!(read.active_read_streams_at_admit, 0);
    service.finish_read(read);
    assert_eq!(service.active_read_streams, usize::MAX);
}

#[test]
fn an_admission_ends_with_its_first_refusal() {
    for failing in 0..5 {
        let mut flow = AdmissionFlow::new();
        let mut actions = Vec::new();
        for step in 0..4 {
            let result = if step == failing {
                Err(Status::of(Code::ResourceExhausted, "none"))
            } else {
                Ok(())
            };
            match flow.advance(result) {
                AdmissionAction::TakeSlot => actions.push("slot"),
                AdmissionAction::TakeMemory => actions.push("memory"),
                AdmissionAction::TakePlace => actions.push("place"),
                AdmissionAction::Admitted => actions.push("admitted"),
                AdmissionAction::Refuse(status) => {
                    assert_eq!(status.message, "none");
                    break;
                }
            }
        }
        assert_eq!(actions, ["slot", "memory", "place", "admitted"][..failing.min(4)]);
        assert_eq!(flow.stage, AdmissionStage::Done);
    }
}

#[test]
fn runtime_counts_tell_of_streams() {
    let mut service = service(&[]);
    let mut metrics = WorkerMetrics::starting_at(0);
    metrics.record_put_started();
    metrics.record_get_started();
    metrics.record_get_succeeded(5, 70);
    service.record_put_rejected();
    service.record_put_rejected();
    service.record_read_rejected();
    let runtime = service.runtime_status(&metrics);
    assert_eq!((runtime.put.started_total, runtime.put.rejected_total), (1, 2));
    assert_eq!((runtime.read.succeeded_total, runtime.read.rejected_total), (1, 1));
    assert_eq!(runtime.read.object_bytes_total, 70);
    assert_eq!(runtime.put.admission_wait_ms_ewma, 0);
}

#[test]
fn writes_are_laid_out() {
    let mut wanted = options();
    assert_eq!(put_layout(&wanted), PutLayout::Single);
    wanted.target_file_size = Some(4);
    assert_eq!(put_layout(&wanted), PutLayout::Sized(4));
    assert_eq!(first_batch_limit(0), None);
    assert_eq!(first_batch_limit(9), Some(9));
}

#[test]
fn statuses_are_recorded_in_words() {
    let codes = [
        Code::Success,
        Code::Cancelled,
        Code::Unknown,
        Code::InvalidArgument,
        Code::DeadlineExceeded,
        Code::NotFound,
        Code::AlreadyExists,
        Code::PermissionDenied,
        Code::ResourceExhausted,
        Code::FailedPrecondition,
        Code::Aborted,
        Code::OutOfRange,
        Code::Unimplemented,
        Code::Internal,
        Code::Unavailable,
        Code::DataLoss,
        Code::Unauthenticated,
    ];
    for (number, code) in codes.into_iter().enumerate() {
        let words = tonic::Code::from_i32(number as i32).description();
        assert_eq!(code_number(code), number as i32);
        assert_eq!(Status::of(code, "").words(), format!("code: '{words}'"));
    }
    assert_eq!(
        Status::of(Code::Internal, "a\"b").words(),
        "code: 'Internal error', message: \"a\\\"b\""
    );
    assert_eq!(
        Status::of(Code::Unavailable, "gone").words(),
        "code: 'The service is currently unavailable', message: \"gone\""
    );
    assert_eq!(
        Status::of(Code::FailedPrecondition, "").words(),
        "code: 'The system is not in a state required for the operation's execution'"
    );
}
