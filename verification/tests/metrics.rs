use arrow_flight_worker::config::{AppConfig, HostProbe};
use arrow_flight_worker::env::{CoreCount, EnvVar, Environment};
use arrow_flight_worker::flight_service::WorkerFlightService;
use arrow_flight_worker::metrics::{
    bucket_bound_ms, bucket_label, elapsed_millis, escape_label_value, metrics_reply,
    path_endpoint, request_endpoint, DurationHistogram, Endpoint, MeasuredReadStream, ReadEvent,
    WorkerMetrics, BUCKETS,
};
use arrow_flight_worker::put_model::WorkerPutSummary;
use arrow_flight_worker::put_writer::{
    single_file_summary, BatchTotals, PutTimings, SingleFile,
};
use arrow_flight_worker::worker_status::{
    PutRuntimeStatus, ReadRuntimeStatus, WorkerRuntimeStatus, WorkerStatus, WorkerWriterCapacity,
};

fn host() -> HostProbe {
    HostProbe {
        cpu_max: None,
        cpu_quota: None,
        cpu_period: None,
        memory_max: None,
        memory_limit: None,
        parallelism: Some(2),
        cpu_cores: CoreCount::NotANumber,
        flight_addr_parses: true,
        metrics_addr_parses: true,
    }
}

fn config(vars: &[(&str, &str)]) -> AppConfig {
    let env = Environment {
        vars: vars
            .iter()
            .map(|(name, value)| EnvVar { name: (*name).to_owned(), value: (*value).to_owned() })
            .collect(),
    };
    AppConfig::from_env(&env, &host()).unwrap()
}

fn runtime() -> WorkerRuntimeStatus {
    WorkerRuntimeStatus {
        put: PutRuntimeStatus {
            started_total: 0,
            succeeded_total: 0,
            failed_total: 0,
            rejected_total: 0,
            rows_total: 0,
            batches_total: 0,
            files_total: 0,
            flight_stream_bytes_total: 0,
            parquet_object_bytes_total: 0,
            admission_wait_ms_ewma: 0,
            duration_ms_ewma: 0,
            throughput_bytes_per_sec_ewma: 0,
        },
        read: ReadRuntimeStatus {
            started_total: 0,
            succeeded_total: 0,
            failed_total: 0,
            rejected_total: 0,
            cancelled_total: 0,
            object_bytes_total: 0,
            admission_wait_ms_ewma: 0,
            duration_ms_ewma: 0,
            throughput_bytes_per_sec_ewma: u64::MAX,
        },
    }
}

fn status(vars: &[(&str, &str)]) -> WorkerStatus {
    let writers = WorkerWriterCapacity { limit: 1, active: 0, available: 1 };
    WorkerFlightService::new(config(vars)).worker_status(writers, runtime())
}

#[test]
fn histograms_accumulate() {
    let mut histogram = DurationHistogram::new();
    for ms in [0u128, bucket_bound_ms(0) as u128, bucket_bound_ms(1) as u128, 1 << 90] {
        histogram.observe(ms);
    }
    assert_eq!(histogram.count, 4);
    assert_eq!(histogram.buckets[0], 2);
    assert_eq!(histogram.buckets[1], 1);
    assert_eq!(elapsed_millis(1 << 90), u64::MAX);
    let mut text = String::new();
    histogram.render(&mut text, "d", "1.5");
    let lines: Vec<&str> = text.lines().collect();
    assert_eq!(lines[0], "# TYPE d histogram");
    assert_eq!(lines[1], format!("d_bucket{{le=\"{}\"}} 2", bucket_label(0)));
    assert_eq!(lines[2], format!("d_bucket{{le=\"{}\"}} 3", bucket_label(1)));
    assert_eq!(lines[lines.len() - 3], "d_bucket{le=\"+Inf\"} 4");
    assert_eq!(lines[lines.len() - 2], "d_sum 1.5");
    assert_eq!(lines[lines.len() - 1], "d_count 4");
    assert_eq!(lines.len(), BUCKETS + 4);
}

#[test]
fn labels_are_the_bounds_in_seconds() {
    let mut last = 0;
    for index in 0..BUCKETS {
        assert_eq!(bucket_label(index), (bucket_bound_ms(index) as f64 / 1000.0).to_string());
        assert!(bucket_bound_ms(index) > last);
        last = bucket_bound_ms(index);
    }
}

#[test]
fn label_values_are_escaped() {
    assert_eq!(escape_label_value("a\\b\nc\"d"), "a\\\\b\\nc\\\"d");
    assert_eq!(escape_label_value("plain"), "plain");
}

fn worker_summary() -> WorkerPutSummary {
    WorkerPutSummary {
        worker_id: "w".to_owned(),
        operation_id: None,
        attempt_id: "t".to_owned(),
        upload_id: None,
        stream_id: None,
        staging_prefix: None,
        admission_wait_ms: 0,
        global_put_stream_limit: 1,
        upload_put_stream_limit: None,
        active_put_streams_at_admit: 1,
        upload_active_streams_at_admit: None,
        stream_budget_bytes: None,
    }
}

#[test]
fn the_page_shows_every_counter() {
    let mut metrics = WorkerMetrics::starting_at(100);
    metrics.record_put_started();
    metrics.record_put_failed(3);
    metrics.record_get_started();
    metrics.record_get_succeeded(4, 500);
    metrics.record_get_failed(5);
    metrics.record_get_cancelled(6);
    let mut totals = BatchTotals::new();
    totals.wrote(10, 0, 0, 1);
    let file = SingleFile {
        key: "k".to_owned(),
        path: "k.parquet".to_owned(),
        client_input_file_bytes: None,
        totals,
        flight_stream_bytes: 70,
        flight_data_messages: 0,
        parquet_object_bytes: None,
        timings: PutTimings {
            elapsed_ms: 0,
            first_flight_data_message_ms: 0,
            first_batch_receive_decode_ms: 0,
            receive_decode_ms: 0,
            enqueue_wait_ms: 0,
            collect_writer_wait_ms: 0,
        },
        profile_enabled: false,
    };
    let summary = single_file_summary(&config(&[]), worker_summary(), file);
    metrics.record_put_succeeded(2, &summary);
    let status = status(&[("WORKER_ID", "w\"1"), ("WORKER_FLIGHT_URI", "grpc+tcp://h:1")]);
    let page = metrics.render_at(&status, 130, "0.005", "0.015");
    let expected_start = "# HELP worker_info Worker identity.\n# TYPE worker_info gauge\n\
        worker_info{worker_id=\"w\\\"1\",flight_uri=\"grpc+tcp://h:1\"} 1\n\
        # HELP worker_up Worker process is running.\n# TYPE worker_up gauge\nworker_up 1\n\
        # HELP worker_uptime_seconds Worker process uptime in seconds.\n\
        # TYPE worker_uptime_seconds gauge\nworker_uptime_seconds 30\n\
        # HELP worker_draining Whether worker rejects new work.\n\
        # TYPE worker_draining gauge\nworker_draining 0\n\
        # HELP worker_state_active Whether worker state is ACTIVE.\n\
        # TYPE worker_state_active gauge\nworker_state_active 1\n";
    assert_eq!(&page[..expected_start.len()], expected_start);
    for line in [
        "worker_put_started_total 1",
        "worker_put_succeeded_total 1",
        "worker_put_failed_total 1",
        "worker_put_rows_total 10",
        "worker_put_batches_total 1",
        "worker_put_files_total 1",
        "worker_put_flight_stream_bytes_total 70",
        "worker_put_parquet_object_bytes_total 0",
        "worker_put_duration_seconds_sum 0.005",
        "worker_put_duration_seconds_count 2",
        "worker_get_started_total 1",
        "worker_get_succeeded_total 1",
        "worker_get_failed_total 1",
        "worker_get_cancelled_total 1",
        "worker_get_object_bytes_total 500",
        "worker_get_duration_seconds_sum 0.015",
        "worker_get_duration_seconds_count 3",
    ] {
        assert!(page.lines().any(|shown| shown == line), "{line}");
    }
    let slots = format!(
        "# TYPE worker_put_slots_limit gauge\nworker_put_slots_limit {}\n",
        status.put.limit
    );
    assert!(page.contains(&slots));
}

#[test]
fn pages_are_rendered_with_the_clock() {
    let metrics = WorkerMetrics::new();
    let page = metrics.render_prometheus(&status(&[]), &|ms: u64| format!("{ms}ms"));
    assert!(page.contains("worker_put_duration_seconds_sum 0ms\n"));
    assert!(page.ends_with("worker_get_duration_seconds_count 0\n"));
    let uptime = page
        .lines()
        .find_map(|line| line.strip_prefix("worker_uptime_seconds "))
        .unwrap();
    assert!(uptime.parse::<u64>().unwrap() < 60);
    assert!(metrics.started_at_unix_seconds > 1_600_000_000);
}

fn outcome(events: &[ReadEvent]) -> (u64, u64, u64, u64) {
    let mut metrics = WorkerMetrics::starting_at(0);
    let mut stream = MeasuredReadStream::new((), 40);
    for event in events {
        stream.observe(*event, 1, &mut metrics);
    }
    (
        metrics.get_succeeded,
        metrics.get_failed,
        metrics.get_cancelled,
        metrics.get_object_bytes,
    )
}

#[test]
fn a_read_is_counted_once() {
    let progress = ReadEvent::Progress;
    assert_eq!(outcome(&[progress, progress]), (0, 0, 0, 0));
    assert_eq!(outcome(&[progress, ReadEvent::Ended, ReadEvent::Dropped]), (1, 0, 0, 40));
    assert_eq!(outcome(&[ReadEvent::Failed, ReadEvent::Ended, ReadEvent::Dropped]), (0, 1, 0, 0));
    assert_eq!(outcome(&[progress, ReadEvent::Dropped]), (0, 0, 1, 0));
}

#[test]
fn requests_name_a_page() {
    assert_eq!(request_endpoint(b"GET /metrics HTTP/1.1\r\nhost: x\r\n"), Endpoint::Metrics);
    assert_eq!(request_endpoint(b"GET  /healthz\n"), Endpoint::Health);
    assert_eq!(request_endpoint(b"GET\n/metrics\n"), Endpoint::Missing);
    assert_eq!(request_endpoint(b""), Endpoint::Missing);
    assert_eq!(request_endpoint(b"\xff /metrics x"), Endpoint::Metrics);
    assert_eq!(path_endpoint("/metrics/"), Endpoint::Missing);
}

#[test]
fn replies_are_plain_text() {
    let reply = metrics_reply(Endpoint::Metrics, "\u{e9}\n".to_owned());
    assert_eq!(
        reply.head,
        "HTTP/1.1 200 OK\r\ncontent-type: text/plain; version=0.0.4\r\n\
         content-length: 3\r\nconnection: close\r\n\r\n"
    );
    assert_eq!(reply.body, "\u{e9}\n");
    assert_eq!(metrics_reply(Endpoint::Health, String::new()).body, "ok\n");
    let missing = metrics_reply(Endpoint::Missing, String::new());
    assert!(missing.head.starts_with("HTTP/1.1 404 Not Found\r\n"));
    assert_eq!(missing.body, "not found\n");
}

#[test]
fn counters_begin_at_zero() {
    let metrics = WorkerMetrics::default();
    assert_eq!(
        [
            metrics.put_started,
            metrics.put_succeeded,
            metrics.put_failed,
            metrics.put_rows,
            metrics.put_batches,
            metrics.put_files,
            metrics.put_flight_stream_bytes,
            metrics.put_parquet_object_bytes,
            metrics.get_started,
            metrics.get_succeeded,
            metrics.get_failed,
            metrics.get_cancelled,
            metrics.get_object_bytes,
        ],
        [0; 13]
    );
    assert_eq!((metrics.put_duration.count, metrics.get_duration.count), (0, 0));
    assert!(metrics.started_at_unix_seconds > 1_600_000_000);
}

#[test]
fn bucket_lines_count_what_lies_within_their_bound() {
    let durations = [0u128, 7, 40, 40, 250, 999, 12_345, 1 << 70];
    let mut histogram = DurationHistogram::new();
    for ms in durations {
        histogram.observe(ms);
    }
    let mut text = String::new();
    histogram.render(&mut text, "d", "0");
    let lines: Vec<&str> = text.lines().collect();
    for index in 0..BUCKETS {
        let bound = bucket_bound_ms(index) as u128;
        let within = durations.iter().filter(|ms| **ms <= bound).count();
        let line = format!("d_bucket{{le=\"{}\"}} {within}", bucket_label(index));
        assert_eq!(lines[1 + index], line);
    }
    assert_eq!(lines[lines.len() - 1], format!("d_count {}", durations.len()));
}

#[test]
fn every_family_is_typed_once_before_its_samples() {
    let page = WorkerMetrics::starting_at(0).render_at(&status(&[]), 9, "0", "0");
    let mut typed: Vec<String> = Vec::new();
    for line in page.lines() {
        if let Some(rest) = line.strip_prefix("# TYPE ") {
            let name = rest.split(' ').next().unwrap().to_owned();
            assert!(!typed.contains(&name), "{name}");
            typed.push(name);
        } else if !line.starts_with('#') {
            let family = typed.last().unwrap();
            assert!(line.starts_with(family.as_str()), "{line}");
        }
    }
    assert_eq!(typed.len(), 30);
}

#[test]
fn only_the_uptime_moves() {
    let metrics = WorkerMetrics::starting_at(0);
    let status = status(&[]);
    let before = metrics.render_at(&status, 9, "0", "0");
    let after = metrics.render_at(&status, 1234, "0", "0");
    let moved: Vec<(&str, &str)> =
        before.lines().zip(after.lines()).filter(|(was, is)| was != is).collect();
    assert_eq!(moved, [("worker_uptime_seconds 9", "worker_uptime_seconds 1234")]);
    assert_eq!(before.lines().count(), after.lines().count());
}

#[test]
fn a_page_tells_of_draining() {
    let mut service = WorkerFlightService::new(config(&[]));
    let writers = WorkerWriterCapacity { limit: 1, active: 0, available: 1 };
    for draining in [false, true] {
        let status = service.worker_status(writers, runtime());
        let page = WorkerMetrics::starting_at(0).render_at(&status, 0, "0", "0");
        let shown = |line: &str| page.lines().any(|other| other == line);
        assert_eq!(shown("worker_draining 1"), draining);
        assert_eq!(shown("worker_draining 0"), !draining);
        assert_eq!(shown("worker_state_active 1"), !draining);
        assert_eq!(shown("worker_state_active 0"), draining);
        service.begin_draining();
    }
}

#[test]
fn the_sum_is_that_of_the_durations() {
    let mut histogram = DurationHistogram::new();
    for ms in [3u128, 40, 7_000, 1 << 40] {
        histogram.observe(ms);
    }
    assert_eq!(histogram.sum_ms, 7_043 + (1 << 40));
    let mut full = DurationHistogram::new();
    full.observe(u128::MAX);
    assert_eq!(full.sum_ms, u64::MAX);
    full.observe(2);
    assert_eq!(full.sum_ms, 1);
}

#[test]
fn two_pages_of_one_state_agree() {
    let mut metrics = WorkerMetrics::new();
    metrics.record_put_started();
    metrics.record_put_failed(1500);
    let status = status(&[]);
    let seconds = |ms: u64| format!("{}", ms as f64 / 1000.0);
    let first = metrics.render_prometheus(&status, &seconds);
    let second = metrics.render_prometheus(&status, &seconds);
    let without_uptime = |page: &str| -> Vec<String> {
        page.lines()
            .filter(|line| !line.starts_with("worker_uptime_seconds "))
            .map(str::to_owned)
            .collect()
    };
    assert_eq!(without_uptime(&first), without_uptime(&second));
    assert_eq!(first.lines().count(), without_uptime(&first).len() + 1);
    assert!(first.contains("worker_put_duration_seconds_sum 1.5\n"));
}
