use arrow_flight_worker::config::{
    auto_put_streams, auto_read_streams, cpu_quota_to_millicores, AppConfig, BenchConfig,
    Compression, FlightTlsConfig, HostProbe, SecurityConfig,
};
use arrow_flight_worker::env::{parse_cpu_millicores, CoreCount, EnvVar, Environment};

fn env(vars: &[(&str, &str)]) -> Environment {
    Environment {
        vars: vars
            .iter()
            .map(|(name, value)| EnvVar { name: (*name).to_owned(), value: (*value).to_owned() })
            .collect(),
    }
}

fn host() -> HostProbe {
    HostProbe {
        cpu_max: None,
        cpu_quota: None,
        cpu_period: None,
        memory_max: None,
        memory_limit: None,
        parallelism: Some(4),
        cpu_cores: CoreCount::NotANumber,
        flight_addr_parses: true,
        metrics_addr_parses: true,
    }
}

fn cores(value: &str) -> CoreCount {
    match value.trim().parse::<f64>() {
        Err(_) => CoreCount::NotANumber,
        Ok(cores) if !cores.is_finite() || cores <= 0.0 => CoreCount::NotPositive,
        Ok(cores) => CoreCount::Millicores((cores * 1000.0).ceil().max(1.0) as u64),
    }
}

fn millicores(value: &str) -> u64 {
    parse_cpu_millicores(value, cores(value)).unwrap()
}

#[test]
fn parses_kubernetes_cpu_values() {
    assert_eq!(millicores("1000m"), 1000);
    assert_eq!(millicores("500m"), 500);
    assert_eq!(millicores("1"), 1000);
    assert_eq!(millicores("0.5"), 500);
}

#[test]
fn detects_cpu_quota_as_millicores() {
    assert_eq!(cpu_quota_to_millicores(100_000, 100_000), Some(1000));
    assert_eq!(cpu_quota_to_millicores(150_000, 100_000), Some(1500));
    assert_eq!(cpu_quota_to_millicores(50_000, 100_000), Some(500));
}

#[test]
fn auto_slots_follow_cpu_budget() {
    assert_eq!(auto_put_streams(500), 1);
    assert_eq!(auto_put_streams(1000), 2);
    assert_eq!(auto_put_streams(4000), 8);
    assert_eq!(auto_put_streams(16_000), 16);

    assert_eq!(auto_read_streams(500), 2);
    assert_eq!(auto_read_streams(1000), 4);
    assert_eq!(auto_read_streams(4000), 16);
    assert_eq!(auto_read_streams(16_000), 32);
}

#[test]
fn cpu_values_that_are_no_budget() {
    let chain = |value: &str| parse_cpu_millicores(value, cores(value)).unwrap_err().one_line();
    assert_eq!(
        chain("xm"),
        "millicore value must be an integer: invalid digit found in string"
    );
    assert_eq!(chain("x"), "CPU value must be a number of cores: invalid float literal");
    assert_eq!(
        chain(" "),
        "CPU value must be a number of cores: cannot parse float from empty string"
    );
    assert_eq!(chain("-1"), "CPU value must be positive");
    assert_eq!(millicores("0m"), 1);
}

#[test]
fn defaults_of_an_empty_environment() {
    let config = AppConfig::from_env(&env(&[]), &host()).unwrap();
    assert_eq!(config.flight_addr, "0.0.0.0:50051");
    assert_eq!(config.worker.worker_id, "local-worker");
    assert_eq!(config.worker.max_active_put_streams, 8);
    assert_eq!(config.worker.max_put_streams_per_upload, 4);
    assert_eq!(config.worker.put_scheduler_reserved_slots, 1);
    assert_eq!(config.worker.max_active_read_streams, 16);
    assert_eq!(config.resources.worker_cpu_millicores, 4000);
    assert_eq!(config.resources.worker_memory_bytes, 16 << 30);
    assert_eq!(config.resources.reserved_memory_bytes, (16u64 << 30) / 5);
    assert_eq!(config.resources.put_max_record_batch_bytes, 512 << 20);
    assert_eq!(config.resources.read_max_stream_memory_bytes, 515_396_075);
    assert_eq!(config.parquet.compression, Compression::Uncompressed);
    assert!(config.s3.allow_http);
    assert!(!config.flight_tls.enabled);
    assert!(config.metrics.enabled);
}

#[test]
fn host_limits_and_settings_are_used() {
    let mut probe = host();
    probe.cpu_max = Some("150000 100000\n".to_owned());
    probe.memory_max = Some("max\n".to_owned());
    probe.memory_limit = Some(" 1073741824 ".to_owned());
    let vars = [
        ("PUT_MAX_ACTIVE_STREAMS", "AUTO"),
        ("READ_MAX_ACTIVE_STREAMS", " 7 "),
        ("PUT_MAX_STREAM_BYTES", "64mb"),
        ("PARQUET_COMPRESSION", " LZ4_RAW "),
        ("WORKER_DRAINING", "Yes"),
    ];
    let config = AppConfig::from_env(&env(&vars), &probe).unwrap();
    assert_eq!(config.resources.worker_cpu_millicores, 1500);
    assert_eq!(config.resources.worker_memory_bytes, 1 << 30);
    assert_eq!(config.resources.reserved_memory_bytes, 512 << 20);
    assert_eq!(config.worker.max_active_put_streams, 3);
    assert_eq!(config.worker.max_active_read_streams, 7);
    assert_eq!(config.worker.max_put_stream_bytes, Some(64 << 20));
    assert_eq!(config.parquet.compression, Compression::Lz4Raw);
    assert!(config.worker.draining);
}

#[test]
fn quota_files_stand_in_for_cpu_max() {
    let mut probe = host();
    probe.cpu_max = Some("max 100000".to_owned());
    probe.cpu_quota = Some("-1".to_owned());
    probe.cpu_period = Some("100000".to_owned());
    let unlimited = AppConfig::from_env(&env(&[]), &probe).unwrap();
    assert_eq!(unlimited.resources.worker_cpu_millicores, 4000);
    probe.cpu_quota = Some("20000".to_owned());
    let limited = AppConfig::from_env(&env(&[]), &probe).unwrap();
    assert_eq!(limited.resources.worker_cpu_millicores, 200);
}

fn failure(vars: &[(&str, &str)], probe: &HostProbe) -> String {
    AppConfig::from_env(&env(vars), probe).unwrap_err().one_line()
}

#[test]
fn the_first_bad_setting_is_reported() {
    assert_eq!(
        failure(&[("WORKER_CPU_MILLICORES", "1xm"), ("WORKER_MEMORY_BYTES", "q")], &host()),
        "WORKER_CPU_MILLICORES must be auto, 1000m, or a CPU count like 1 or 0.5: \
         millicore value must be an integer: invalid digit found in string"
    );
    assert_eq!(
        failure(&[("PUT_SLOT_WAIT_MS", "x")], &host()),
        "PUT_SLOT_WAIT_MS must be an integer: invalid digit found in string"
    );
    assert_eq!(
        failure(&[("PUT_MAX_ACTIVE_STREAMS", "-1")], &host()),
        "PUT_MAX_ACTIVE_STREAMS must be auto or an integer: invalid digit found in string"
    );
    assert_eq!(
        failure(&[("READ_MEMORY_PERCENT", "x")], &host()),
        "READ_MEMORY_PERCENT must be an integer percent: invalid digit found in string"
    );
    assert_eq!(
        failure(&[("PARQUET_COMPRESSION", "ZSTD")], &host()),
        "unsupported PARQUET_COMPRESSION=zstd; use uncompressed, snappy, or lz4_raw"
    );
    assert_eq!(
        failure(&[("WORKER_REQUIRE_SIGNED_CAPABILITIES", "1")], &host()),
        "WORKER_CAPABILITY_SECRET must be set when WORKER_REQUIRE_SIGNED_CAPABILITIES=true"
    );
    let mut probe = host();
    probe.flight_addr_parses = false;
    assert_eq!(
        failure(&[], &probe),
        "FLIGHT_ADDR must be a socket address such as 0.0.0.0:50051: invalid socket address syntax"
    );
}

#[test]
fn tls_needs_both_paths() {
    let plain = FlightTlsConfig::from_env(&env(&[])).unwrap();
    assert!(!plain.enabled);
    let error = FlightTlsConfig::from_env(&env(&[("FLIGHT_TLS_KEY_PATH", "k")])).unwrap_err();
    assert!(error.one_line().starts_with("FLIGHT_TLS_CERT_PATH must be set"));
    let error = FlightTlsConfig::from_env(&env(&[("WORKER_TLS_CERT_PATH", "c")])).unwrap_err();
    assert!(error.one_line().starts_with("FLIGHT_TLS_KEY_PATH must be set"));
    let error = FlightTlsConfig::from_env(&env(&[("FLIGHT_TLS_ENABLED", "maybe")])).unwrap_err();
    assert_eq!(error.one_line(), "FLIGHT_TLS_ENABLED must be a boolean value");
    let both = [("WORKER_TLS_CERT_PATH", " c "), ("FLIGHT_TLS_KEY_PATH", "k")];
    let tls = FlightTlsConfig::from_env(&env(&both)).unwrap();
    assert!(tls.enabled);
    assert_eq!(tls.cert_path.as_deref(), Some("c"));
}

#[test]
fn clients_and_security_read_their_settings() {
    let vars = [("FLIGHT_URI", "grpc://h:1"), ("FLIGHT_DATA_CHUNK_SIZE", "1kb")];
    let bench = BenchConfig::from_env(&env(&vars)).unwrap();
    assert_eq!(bench.uri, "grpc://h:1");
    assert_eq!(bench.flight_data_chunk_size, 1024);
    assert_eq!(bench.max_message_size, 256 << 20);
    let vars =
        [("WORKER_REQUIRE_SIGNED_CAPABILITIES", "on"), ("WORKER_CAPABILITY_SECRET", "secret")];
    let security = SecurityConfig::from_env(&env(&vars)).unwrap();
    assert!(security.require_capability_worker_binding);
    assert_eq!(security.max_capability_ttl_ms, 3_600_000);
}
