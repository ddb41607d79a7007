//! The worker's configuration.

use vstd::prelude::*;

use crate::env::{
    bool_of, count_auto_of, count_of, env_bool, env_count, env_count_auto, env_optional_bool,
    env_optional_cpu_millicores, env_optional_string, env_optional_u64, env_percent, env_string,
    env_usize, is_counted, is_counted_or_auto, is_sized, is_sized_or_none, is_switched, is_worded,
    is_worded_or_none, optional_bool_of, optional_cpu_of, optional_string_of, optional_u64_of,
    percent_of_env, string_of_env, usize_of, var_of, CoreCount, Environment,
};
use crate::error::{agrees, either_error, error_of, ErrorChain};
use crate::number::{at_least, at_most, max_u64, max_usize, min_u64, min_usize};
use crate::number::{parse_unsigned, unsigned_of};
use crate::text::{ascii_lower, ascii_lower_of, opt_text, text_eq, trim, trim_of, words, words_of};

verus! {

/// The whole configuration of a worker.
#[derive(Clone, Debug)]
pub struct AppConfig {
    pub flight_addr: String,
    pub flight_tls: FlightTlsConfig,
    pub s3: S3Config,
    pub parquet: ParquetTuning,
    pub worker: WorkerConfig,
    pub resources: ResourceConfig,
    pub security: SecurityConfig,
    pub metadata: MetadataConfig,
    pub metrics: MetricsConfig,
    pub flight_max_message_size: usize,
    pub flight_data_chunk_size: usize,
    pub read_batch_size: usize,
}

#[derive(Clone, Debug)]
pub struct BenchConfig {
    pub uri: String,
    pub max_message_size: usize,
    pub flight_data_chunk_size: usize,
}

#[derive(Clone, Debug)]
pub struct FlightTlsConfig {
    pub enabled: bool,
    pub cert_path: Option<String>,
    pub key_path: Option<String>,
}

#[derive(Clone, Debug)]
pub struct S3Config {
    pub endpoint: String,
    pub bucket: String,
    pub region: String,
    pub access_key_id: String,
    pub secret_access_key: String,
    pub allow_http: bool,
}

/// How column chunks are compressed.
#[derive(Clone, Copy, Debug, PartialEq, Eq, Structural)]
pub enum Compression {
    Uncompressed,
    Snappy,
    Lz4Raw,
}

#[derive(Clone, Debug)]
pub struct ParquetTuning {
    pub compression_name: String,
    pub compression: Compression,
    pub dictionary_enabled: bool,
    pub max_row_group_rows: usize,
    pub write_batch_size: usize,
    pub data_page_size_limit: usize,
    pub flush_threshold_bytes: usize,
    pub multipart_part_size: usize,
    pub multipart_max_concurrency: usize,
    pub put_parallelism: usize,
    pub put_queue_depth: usize,
}

#[derive(Clone, Debug)]
pub struct WorkerConfig {
    pub worker_id: String,
    pub flight_uri: String,
    pub zone: Option<String>,
    pub draining: bool,
    pub max_active_put_streams: usize,
    pub max_put_streams_per_upload: usize,
    pub put_scheduler_reserved_slots: usize,
    pub put_slot_wait_ms: u64,
    pub put_first_batch_timeout_ms: u64,
    pub max_put_stream_bytes: Option<u64>,
    pub require_staging_prefix: bool,
    pub max_active_read_streams: usize,
    pub max_read_streams_per_operation: usize,
    pub read_scheduler_reserved_slots: usize,
    pub read_slot_wait_ms: u64,
    pub require_structured_tickets: bool,
    pub registry_heartbeat_interval_ms: u64,
    pub registry_ttl_ms: u64,
}

#[derive(Clone, Debug)]
pub struct SecurityConfig {
    pub require_signed_capabilities: bool,
    pub capability_secret: Option<String>,
    pub require_capability_worker_binding: bool,
    pub max_capability_ttl_ms: u64,
}

#[derive(Clone, Copy, Debug)]
pub struct ResourceConfig {
    pub worker_cpu_millicores: u64,
    pub worker_memory_bytes: u64,
    pub reserved_memory_bytes: u64,
    pub put_memory_bytes: u64,
    pub read_memory_bytes: u64,
    pub put_max_stream_memory_bytes: u64,
    pub put_max_record_batch_bytes: u64,
    pub read_max_stream_memory_bytes: u64,
    pub read_max_record_batch_bytes: u64,
    pub read_max_batch_rows: usize,
}

#[derive(Clone, Debug)]
pub struct MetadataConfig {
    pub database_url: Option<String>,
    pub auto_migrate: bool,
}

#[derive(Clone, Debug)]
pub struct MetricsConfig {
    pub enabled: bool,
    pub addr: String,
}

/// The CPU and memory budget of the worker.
#[derive(Clone, Copy, Debug)]
pub struct WorkerFlavor {
    pub cpu_millicores: u64,
    pub memory_bytes: u64,
}

/// What the process found out about its host: the texts of the control group files that it could
/// read, the number of threads that can run at once, and how some settings read in formats of the
/// host's libraries.
#[derive(Debug)]
pub struct HostProbe {
    pub cpu_max: Option<String>,
    pub cpu_quota: Option<String>,
    pub cpu_period: Option<String>,
    pub memory_max: Option<String>,
    pub memory_limit: Option<String>,
    pub parallelism: Option<u64>,
    /// How the value of `WORKER_CPU_MILLICORES` reads as a number of cores.
    pub cpu_cores: CoreCount,
    /// Whether `FLIGHT_ADDR`, or its default, is a socket address.
    pub flight_addr_parses: bool,
    /// Whether `METRICS_ADDR`, or its default, is a socket address.
    pub metrics_addr_parses: bool,
}

pub const MIB: u64 = 1024 * 1024;

pub const GIB: u64 = 1024 * 1024 * 1024;

/// The value of a result that is no error.
pub open spec fn value_of<T>(result: Result<T, Seq<Seq<char>>>) -> T {
    result->Ok_0
}

/// A result whose value meets a description exactly where there is no error, and that has the
/// error's messages otherwise.
pub open spec fn reads<T>(
    result: Result<T, ErrorChain>,
    error: Option<Seq<Seq<char>>>,
    described: spec_fn(T) -> bool,
) -> bool {
    match error {
        None => result matches Ok(value) && described(value),
        Some(messages) => result matches Err(chain) && chain@ == messages,
    }
}

// ---------------------------------------------------------------------------
// Host limits

/// The CPU share of `quota` out of `period`, in thousandths of a core, rounded up.
pub open spec fn quota_millicores_of(quota: nat, period: nat) -> Option<u64> {
    if quota == 0 || period == 0 {
        None
    } else {
        Some(at_most(((quota * 1000 + period - 1) / period as int) as int, u64::MAX as int) as u64)
    }
}

/// The CPU share of `quota` out of `period`, in thousandths of a core, rounded up.
pub fn cpu_quota_to_millicores(quota: u64, period: u64) -> (r: Option<u64>)
    ensures
        r == quota_millicores_of(quota as nat, period as nat),
{
    if quota == 0 || period == 0 {
        return None;
    }
    let rounded: u128 = (quota as u128 * 1000 + period as u128 - 1) / period as u128;
    if rounded > u64::MAX as u128 {
        Some(u64::MAX)
    } else {
        Some(rounded as u64)
    }
}

/// The memory limit in a control group file, where it states one.
pub open spec fn memory_limit_of(raw: Option<Seq<char>>) -> Option<u64> {
    match raw {
        None => None,
        Some(raw) => match unsigned_of(trim_of(raw), u64::MAX as nat) {
            Ok(bytes) => if 0 < bytes < i64::MAX {
                Some(bytes as u64)
            } else {
                None
            },
            Err(_) => None,
        },
    }
}

/// The memory limit in a control group file, where it states one. An empty file and the word
/// `max` state none.
pub fn read_cgroup_memory_limit(raw: &Option<String>) -> (r: Option<u64>)
    ensures
        r == memory_limit_of(opt_text(*raw)),
{
    match raw {
        None => None,
        Some(raw) => {
            let value = trim(raw.as_str());
            match parse_unsigned(value.as_str(), u64::MAX) {
                Ok(bytes) => if bytes > 0 && bytes < 0x7fff_ffff_ffff_ffff {
                    Some(bytes)
                } else {
                    None
                },
                Err(_) => None,
            }
        },
    }
}

/// The CPU share in a `cpu.max` file: a quota and a period.
pub open spec fn cpu_max_of(raw: Option<Seq<char>>) -> Option<u64> {
    match raw {
        None => None,
        Some(raw) => {
            let parts = words_of(raw);
            if parts.len() < 2 {
                None
            } else {
                match (
                    unsigned_of(parts[0], u64::MAX as nat),
                    unsigned_of(parts[1], u64::MAX as nat),
                ) {
                    (Ok(quota), Ok(period)) => quota_millicores_of(quota, period),
                    _ => None,
                }
            }
        },
    }
}

/// The CPU share in a `cpu.max` file. The quota `max` means that there is no limit.
pub fn read_cgroup_cpu_max(raw: &Option<String>) -> (r: Option<u64>)
    ensures
        r == cpu_max_of(opt_text(*raw)),
{
    match raw {
        None => None,
        Some(raw) => {
            let parts = words(raw.as_str());
            if parts.len() < 2 {
                return None;
            }
            proof {
                assert(words_of(raw@)[0] == parts@[0]@);
                assert(words_of(raw@)[1] == parts@[1]@);
            }
            let period = match parse_unsigned(parts[1].as_str(), u64::MAX) {
                Ok(period) => period,
                Err(_) => return None,
            };
            match parse_unsigned(parts[0].as_str(), u64::MAX) {
                Ok(quota) => cpu_quota_to_millicores(quota, period),
                Err(_) => None,
            }
        },
    }
}

/// The CPU share in a pair of quota and period files.
pub open spec fn cpu_quota_period_of(
    quota: Option<Seq<char>>,
    period: Option<Seq<char>>,
) -> Option<u64> {
    match (quota, period) {
        (Some(quota), Some(period)) => match (
            unsigned_of(trim_of(quota), i64::MAX as nat),
            unsigned_of(trim_of(period), u64::MAX as nat),
        ) {
            (Ok(quota), Ok(period)) => quota_millicores_of(quota, period),
            _ => None,
        },
        _ => None,
    }
}

/// The CPU share in a pair of quota and period files. A quota that is not positive means that
/// there is no limit.
pub fn read_cgroup_cpu_quota_period(quota: &Option<String>, period: &Option<String>) -> (r: Option<
    u64,
>)
    ensures
        r == cpu_quota_period_of(opt_text(*quota), opt_text(*period)),
{
    let quota = match quota {
        Some(raw) => {
            let value = trim(raw.as_str());
            match parse_unsigned(value.as_str(), 0x7fff_ffff_ffff_ffff) {
                Ok(quota) => quota,
                Err(_) => return None,
            }
        },
        None => return None,
    };
    match period {
        Some(raw) => {
            let value = trim(raw.as_str());
            match parse_unsigned(value.as_str(), u64::MAX) {
                Ok(period) => cpu_quota_to_millicores(quota, period),
                Err(_) => None,
            }
        },
        None => None,
    }
}

/// `first`, or `second` where there is no first.
pub open spec fn first_some<T>(first: Option<T>, second: Option<T>) -> Option<T> {
    if first is Some {
        first
    } else {
        second
    }
}

/// The memory limit that the host sets.
pub open spec fn host_memory_of(host: HostProbe) -> Option<u64> {
    first_some(
        memory_limit_of(opt_text(host.memory_max)),
        memory_limit_of(opt_text(host.memory_limit)),
    )
}

/// The memory limit that the host sets.
pub fn detect_worker_memory_bytes(host: &HostProbe) -> (r: Option<u64>)
    ensures
        r == host_memory_of(*host),
{
    match read_cgroup_memory_limit(&host.memory_max) {
        Some(bytes) => Some(bytes),
        None => read_cgroup_memory_limit(&host.memory_limit),
    }
}

/// One thousand for each thread that can run at once.
pub open spec fn parallelism_millicores_of(host: HostProbe) -> Option<u64> {
    match host.parallelism {
        Some(threads) => Some((threads * 1000) as u64),
        None => None,
    }
}

/// Whether the thread count of the host can be stated in thousandths.
pub open spec fn plausible_host(host: HostProbe) -> bool {
    host.parallelism matches Some(threads) ==> threads * 1000 <= u64::MAX
}

/// One thousand for each thread that can run at once.
pub fn default_cpu_millicores_opt(host: &HostProbe) -> (r: Option<u64>)
    requires
        plausible_host(*host),
    ensures
        r == parallelism_millicores_of(*host),
{
    match host.parallelism {
        Some(threads) => Some(threads * 1000),
        None => None,
    }
}

/// One thousand for each thread that can run at once, or for one thread.
pub fn default_cpu_millicores(host: &HostProbe) -> (r: u64)
    requires
        plausible_host(*host),
    ensures
        r == (match parallelism_millicores_of(*host) {
            Some(millicores) => millicores,
            None => 1000,
        }),
{
    match default_cpu_millicores_opt(host) {
        Some(millicores) => millicores,
        None => 1000,
    }
}

/// The CPU budget of the host: the control group's limit, or all threads.
pub open spec fn host_cpu_of(host: HostProbe) -> Option<u64> {
    first_some(
        cpu_max_of(opt_text(host.cpu_max)),
        first_some(
            cpu_quota_period_of(opt_text(host.cpu_quota), opt_text(host.cpu_period)),
            parallelism_millicores_of(host),
        ),
    )
}

/// The CPU budget of the host: the control group's limit, or all threads.
pub fn detect_worker_cpu_millicores(host: &HostProbe) -> (r: Option<u64>)
    requires
        plausible_host(*host),
    ensures
        r == host_cpu_of(*host),
{
    match read_cgroup_cpu_max(&host.cpu_max) {
        Some(millicores) => Some(millicores),
        None => match read_cgroup_cpu_quota_period(&host.cpu_quota, &host.cpu_period) {
            Some(millicores) => Some(millicores),
            None => default_cpu_millicores_opt(host),
        },
    }
}

/// The error of reading the budgets from the environment.
pub open spec fn flavor_error(
    vars: Seq<(Seq<char>, Seq<char>)>,
    host: HostProbe,
) -> Option<Seq<Seq<char>>> {
    either_error(
        error_of(optional_cpu_of(vars, "WORKER_CPU_MILLICORES"@, host.cpu_cores)),
        error_of(optional_u64_of(vars, "WORKER_MEMORY_BYTES"@)),
    )
}

/// The budgets: as set, else as the host limits them, else one core and 16 GiB; at least a tenth
/// of a core and 512 MiB.
pub open spec fn flavor_of(
    vars: Seq<(Seq<char>, Seq<char>)>,
    host: HostProbe,
) -> WorkerFlavor {
    let cpu = first_some(
        value_of(optional_cpu_of(vars, "WORKER_CPU_MILLICORES"@, host.cpu_cores)),
        host_cpu_of(host),
    );
    let memory = first_some(
        value_of(optional_u64_of(vars, "WORKER_MEMORY_BYTES"@)),
        host_memory_of(host),
    );
    WorkerFlavor {
        cpu_millicores: at_least(
            match cpu {
                Some(millicores) => millicores as int,
                None => 1000,
            },
            100,
        ) as u64,
        memory_bytes: at_least(
            match memory {
                Some(bytes) => bytes as int,
                None => 16 * GIB,
            },
            512 * MIB,
        ) as u64,
    }
}

impl WorkerFlavor {
    /// The budgets from the environment and the host.
    pub fn from_env(env: &Environment, host: &HostProbe) -> (r: Result<WorkerFlavor, ErrorChain>)
        requires
            plausible_host(*host),
        ensures
            reads(
                r,
                flavor_error(env@, *host),
                |flavor: WorkerFlavor| flavor == flavor_of(env@, *host),
            ),
    {
        let set_cpu = match env_optional_cpu_millicores(
            env,
            "WORKER_CPU_MILLICORES",
            host.cpu_cores,
        ) {
            Ok(value) => value,
            Err(error) => return Err(error),
        };
        let cpu: u64 = match set_cpu {
            Some(millicores) => millicores,
            None => match detect_worker_cpu_millicores(host) {
                Some(millicores) => millicores,
                None => default_cpu_millicores(host),
            },
        };
        let set_memory = match env_optional_u64(env, "WORKER_MEMORY_BYTES") {
            Ok(value) => value,
            Err(error) => return Err(error),
        };
        let memory: u64 = match set_memory {
            Some(bytes) => bytes,
            None => match detect_worker_memory_bytes(host) {
                Some(bytes) => bytes,
                None => 16 * GIB,
            },
        };
        Ok(
            WorkerFlavor {
                cpu_millicores: max_u64(cpu, 100),
                memory_bytes: max_u64(memory, 512 * MIB),
            },
        )
    }
}

// ---------------------------------------------------------------------------
// Defaults that follow from the budgets

/// Two write streams for each core, rounded up, between 1 and 16.
pub open spec fn put_streams_of(cpu_millicores: nat) -> int {
    at_most(at_least(((cpu_millicores * 2 + 999) / 1000) as int, 1), 16)
}

/// Two write streams for each core, rounded up, between 1 and 16.
pub fn auto_put_streams(cpu_millicores: u64) -> (r: usize)
    ensures
        r == put_streams_of(cpu_millicores as nat),
{
    let streams: u128 = (cpu_millicores as u128 * 2 + 999) / 1000;
    if streams < 1 {
        1
    } else if streams > 16 {
        16
    } else {
        streams as usize
    }
}

/// Four read streams for each core, rounded up, between 1 and 32.
pub open spec fn read_streams_of(cpu_millicores: nat) -> int {
    at_most(at_least(((cpu_millicores * 4 + 999) / 1000) as int, 1), 32)
}

/// Four read streams for each core, rounded up, between 1 and 32.
pub fn auto_read_streams(cpu_millicores: u64) -> (r: usize)
    ensures
        r == read_streams_of(cpu_millicores as nat),
{
    let streams: u128 = (cpu_millicores as u128 * 4 + 999) / 1000;
    if streams < 1 {
        1
    } else if streams > 32 {
        32
    } else {
        streams as usize
    }
}

/// One slot is held back once there are four streams.
pub open spec fn reserved_slots_of(streams: int) -> int {
    if streams >= 4 {
        1
    } else {
        0
    }
}

/// One slot is held back once there are four streams.
pub fn auto_reserved_slots(streams: usize) -> (r: usize)
    ensures
        r == reserved_slots_of(streams as int),
{
    if streams >= 4 {
        1
    } else {
        0
    }
}

/// `percent` hundredths of `value`, rounded down.
pub open spec fn share_of(value: nat, percent: nat) -> int {
    at_most((value * percent / 100) as int, u64::MAX as int)
}

/// `percent` hundredths of `value`, rounded down.
pub fn percent_of(value: u64, percent: u64) -> (r: u64)
    ensures
        r == share_of(value as nat, percent as nat),
{
    proof {
        assert(value * percent <= u64::MAX * u64::MAX) by (nonlinear_arith)
            requires
                value <= u64::MAX,
                percent <= u64::MAX,
        ;
        assert(value * percent >= 0) by (nonlinear_arith);
    }
    let share: u128 = value as u128 * percent as u128 / 100;
    if share > u64::MAX as u128 {
        u64::MAX
    } else {
        share as u64
    }
}

/// The memory of one stream: a fair share of the budget among the streams of one operation, at
/// least `floor`, at most `cap`, and never more than the budget.
pub open spec fn stream_memory_of(
    budget: int,
    max_active: int,
    max_per_operation: int,
    floor: int,
    cap: int,
) -> int {
    let streams = at_least(at_most(max_active, at_least(max_per_operation, 1)), 1);
    at_most(at_most(at_least(budget / streams, floor), cap), budget)
}

/// The memory of one stream: a fair share of the budget among the streams of one operation.
pub fn default_stream_memory(
    budget_bytes: u64,
    max_active_streams: usize,
    max_streams_per_operation: usize,
    floor_bytes: u64,
    cap_bytes: u64,
) -> (r: u64)
    ensures
        r == stream_memory_of(
            budget_bytes as int,
            max_active_streams as int,
            max_streams_per_operation as int,
            floor_bytes as int,
            cap_bytes as int,
        ),
{
    let planning_streams: usize = max_usize(
        min_usize(max_active_streams, max_usize(max_streams_per_operation, 1)),
        1,
    );
    let fair_share: u64 = budget_bytes / planning_streams as u64;
    min_u64(min_u64(max_u64(fair_share, floor_bytes), cap_bytes), budget_bytes)
}

/// The memory of one record batch: half of the stream's, at least 16 MiB, at most `cap`, and never
/// more than the stream's.
pub open spec fn batch_memory_of(stream_memory: int, cap: int) -> int {
    at_most(at_most(at_least(stream_memory / 2, 16 * MIB), cap), stream_memory)
}

/// The memory of one record batch.
pub fn default_batch_memory(stream_memory_bytes: u64, cap_bytes: u64) -> (r: u64)
    ensures
        r == batch_memory_of(stream_memory_bytes as int, cap_bytes as int),
{
    min_u64(
        min_u64(max_u64(stream_memory_bytes / 2, 16 * MIB), cap_bytes),
        stream_memory_bytes,
    )
}

// ---------------------------------------------------------------------------
// The sections

/// The error of reading the client settings.
pub open spec fn bench_error(vars: Seq<(Seq<char>, Seq<char>)>) -> Option<Seq<Seq<char>>> {
    either_error(
        error_of(usize_of(vars, "FLIGHT_MAX_MESSAGE_SIZE"@, 0x1000_0000)),
        error_of(usize_of(vars, "FLIGHT_DATA_CHUNK_SIZE"@, 0x100_0000)),
    )
}

/// Whether a value holds the client settings of the environment.
pub open spec fn is_bench(vars: Seq<(Seq<char>, Seq<char>)>, config: BenchConfig) -> bool {
    &&& config.uri@ == string_of_env(vars, "FLIGHT_URI"@, "grpc+tcp://127.0.0.1:50051"@)
    &&& config.max_message_size == value_of(usize_of(vars, "FLIGHT_MAX_MESSAGE_SIZE"@, 0x1000_0000))
    &&& config.flight_data_chunk_size == value_of(
        usize_of(vars, "FLIGHT_DATA_CHUNK_SIZE"@, 0x100_0000),
    )
}

impl BenchConfig {
    /// The client settings from the environment.
    pub fn from_env(env: &Environment) -> (r: Result<BenchConfig, ErrorChain>)
        ensures
            reads(r, bench_error(env@), |config: BenchConfig| is_bench(env@, config)),
    {
        let uri = env_string(env, "FLIGHT_URI", "grpc+tcp://127.0.0.1:50051");
        let max_message_size = match env_usize(env, "FLIGHT_MAX_MESSAGE_SIZE", 256 * 1024 * 1024) {
            Ok(value) => value,
            Err(error) => return Err(error),
        };
        let flight_data_chunk_size = match env_usize(
            env,
            "FLIGHT_DATA_CHUNK_SIZE",
            16 * 1024 * 1024,
        ) {
            Ok(value) => value,
            Err(error) => return Err(error),
        };
        Ok(BenchConfig { uri, max_message_size, flight_data_chunk_size })
    }
}

/// Where the server certificate is.
pub open spec fn tls_cert_of(vars: Seq<(Seq<char>, Seq<char>)>) -> Option<Seq<char>> {
    first_some(
        optional_string_of(vars, "FLIGHT_TLS_CERT_PATH"@),
        optional_string_of(vars, "WORKER_TLS_CERT_PATH"@),
    )
}

/// Where the server key is.
pub open spec fn tls_key_of(vars: Seq<(Seq<char>, Seq<char>)>) -> Option<Seq<char>> {
    first_some(
        optional_string_of(vars, "FLIGHT_TLS_KEY_PATH"@),
        optional_string_of(vars, "WORKER_TLS_KEY_PATH"@),
    )
}

/// Whether the server speaks TLS: as set, else where a certificate or a key is given.
pub open spec fn tls_enabled_of(vars: Seq<(Seq<char>, Seq<char>)>) -> bool {
    match value_of(optional_bool_of(vars, "FLIGHT_TLS_ENABLED"@)) {
        Some(enabled) => enabled,
        None => tls_cert_of(vars) is Some || tls_key_of(vars) is Some,
    }
}

/// The error of reading the TLS settings.
pub open spec fn tls_error(vars: Seq<(Seq<char>, Seq<char>)>) -> Option<Seq<Seq<char>>> {
    if optional_bool_of(vars, "FLIGHT_TLS_ENABLED"@) is Err {
        error_of(optional_bool_of(vars, "FLIGHT_TLS_ENABLED"@))
    } else if tls_enabled_of(vars) && tls_cert_of(vars) is None {
        Some(
            seq![
                "FLIGHT_TLS_CERT_PATH must be set when FLIGHT_TLS_ENABLED=true or TLS key/cert paths are provided"@,
            ],
        )
    } else if tls_enabled_of(vars) && tls_key_of(vars) is None {
        Some(
            seq![
                "FLIGHT_TLS_KEY_PATH must be set when FLIGHT_TLS_ENABLED=true or TLS key/cert paths are provided"@,
            ],
        )
    } else {
        None
    }
}

/// Whether a value holds the TLS settings of the environment.
pub open spec fn is_tls(vars: Seq<(Seq<char>, Seq<char>)>, config: FlightTlsConfig) -> bool {
    &&& config.enabled == tls_enabled_of(vars)
    &&& opt_text(config.cert_path) == tls_cert_of(vars)
    &&& opt_text(config.key_path) == tls_key_of(vars)
}

impl FlightTlsConfig {
    /// The TLS settings from the environment. With TLS on, both paths are there.
    pub fn from_env(env: &Environment) -> (r: Result<FlightTlsConfig, ErrorChain>)
        ensures
            reads(r, tls_error(env@), |config: FlightTlsConfig| is_tls(env@, config)),
            r matches Ok(config) ==> config.enabled ==> config.cert_path is Some
                && config.key_path is Some,
    {
        let cert_path = match env_optional_string(env, "FLIGHT_TLS_CERT_PATH") {
            Some(path) => Some(path),
            None => env_optional_string(env, "WORKER_TLS_CERT_PATH"),
        };
        let key_path = match env_optional_string(env, "FLIGHT_TLS_KEY_PATH") {
            Some(path) => Some(path),
            None => env_optional_string(env, "WORKER_TLS_KEY_PATH"),
        };
        let switch = match env_optional_bool(env, "FLIGHT_TLS_ENABLED") {
            Ok(value) => value,
            Err(error) => return Err(error),
        };
        let enabled = match switch {
            Some(enabled) => enabled,
            None => cert_path.is_some() || key_path.is_some(),
        };
        if enabled && cert_path.is_none() {
            return Err(
                ErrorChain::new(
                    "FLIGHT_TLS_CERT_PATH must be set when FLIGHT_TLS_ENABLED=true or TLS key/cert paths are provided".to_owned(),
                ),
            );
        }
        if enabled && key_path.is_none() {
            return Err(
                ErrorChain::new(
                    "FLIGHT_TLS_KEY_PATH must be set when FLIGHT_TLS_ENABLED=true or TLS key/cert paths are provided".to_owned(),
                ),
            );
        }
        Ok(FlightTlsConfig { enabled, cert_path, key_path })
    }
}

/// Whether a value holds the object store settings of the environment.
pub open spec fn is_s3(vars: Seq<(Seq<char>, Seq<char>)>, config: S3Config) -> bool {
    &&& config.endpoint@ == string_of_env(vars, "S3_ENDPOINT"@, "http://127.0.0.1:9000"@)
    &&& config.bucket@ == string_of_env(vars, "S3_BUCKET"@, "arrow-flight"@)
    &&& config.region@ == string_of_env(vars, "S3_REGION"@, "us-east-1"@)
    &&& config.access_key_id@ == string_of_env(vars, "AWS_ACCESS_KEY_ID"@, "minioadmin"@)
    &&& config.secret_access_key@ == string_of_env(vars, "AWS_SECRET_ACCESS_KEY"@, "minioadmin"@)
    &&& config.allow_http == bool_of(vars, "AWS_ALLOW_HTTP"@, true)
}

impl S3Config {
    /// The object store settings from the environment.
    pub fn from_env(env: &Environment) -> (r: S3Config)
        ensures
            is_s3(env@, r),
    {
        S3Config {
            endpoint: env_string(env, "S3_ENDPOINT", "http://127.0.0.1:9000"),
            bucket: env_string(env, "S3_BUCKET", "arrow-flight"),
            region: env_string(env, "S3_REGION", "us-east-1"),
            access_key_id: env_string(env, "AWS_ACCESS_KEY_ID", "minioadmin"),
            secret_access_key: env_string(env, "AWS_SECRET_ACCESS_KEY", "minioadmin"),
            allow_http: env_bool(env, "AWS_ALLOW_HTTP", true),
        }
    }
}

/// The compression that a name stands for, in any letter case.
pub open spec fn compression_of(value: Seq<char>) -> Result<Compression, Seq<Seq<char>>> {
    let name = ascii_lower_of(trim_of(value));
    if name == "none"@ || name == "uncompressed"@ {
        Ok(Compression::Uncompressed)
    } else if name == "snappy"@ {
        Ok(Compression::Snappy)
    } else if name == "lz4_raw"@ || name == "lz4raw"@ {
        Ok(Compression::Lz4Raw)
    } else {
        Err(
            seq![
                "unsupported PARQUET_COMPRESSION="@ + name
                    + "; use uncompressed, snappy, or lz4_raw"@,
            ],
        )
    }
}

/// The compression that a name stands for, in any letter case.
pub fn parse_compression(value: &str) -> (r: Result<Compression, ErrorChain>)
    ensures
        agrees(r, compression_of(value@)),
{
    let trimmed = trim(value);
    let lower = ascii_lower(trimmed.as_str());
    let name = lower.as_str();
    if text_eq(name, "none") || text_eq(name, "uncompressed") {
        Ok(Compression::Uncompressed)
    } else if text_eq(name, "snappy") {
        Ok(Compression::Snappy)
    } else if text_eq(name, "lz4_raw") || text_eq(name, "lz4raw") {
        Ok(Compression::Lz4Raw)
    } else {
        let mut message = "unsupported PARQUET_COMPRESSION=".to_owned();
        message.append(name);
        message.append("; use uncompressed, snappy, or lz4_raw");
        Err(ErrorChain::new(message))
    }
}

/// The name of the compression that the environment asks for.
pub open spec fn compression_name_of(vars: Seq<(Seq<char>, Seq<char>)>) -> Seq<char> {
    string_of_env(vars, "PARQUET_COMPRESSION"@, "uncompressed"@)
}

/// The error of reading the Parquet settings.
pub open spec fn parquet_error(vars: Seq<(Seq<char>, Seq<char>)>) -> Option<Seq<Seq<char>>> {
    either_error(
        error_of(compression_of(compression_name_of(vars))),
        either_error(
            error_of(usize_of(vars, "PARQUET_MAX_ROW_GROUP_ROWS"@, 1_048_576)),
            either_error(
                error_of(usize_of(vars, "PARQUET_WRITE_BATCH_SIZE"@, 65_536)),
                either_error(
                    error_of(usize_of(vars, "PARQUET_DATA_PAGE_SIZE_LIMIT"@, 1_048_576)),
                    either_error(
                        error_of(usize_of(vars, "PARQUET_FLUSH_THRESHOLD_BYTES"@, 268_435_456)),
                        either_error(
                            error_of(usize_of(vars, "S3_MULTIPART_PART_SIZE"@, 67_108_864)),
                            either_error(
                                error_of(usize_of(vars, "S3_MULTIPART_MAX_CONCURRENCY"@, 16)),
                                either_error(
                                    error_of(usize_of(vars, "PUT_PARALLELISM"@, 4)),
                                    error_of(usize_of(vars, "PUT_QUEUE_DEPTH"@, 2)),
                                ),
                            ),
                        ),
                    ),
                ),
            ),
        ),
    )
}

/// Whether a value holds the Parquet settings of the environment. A multipart upload has parts of
/// at least 5 MiB, and every count is at least one.
pub open spec fn is_parquet(vars: Seq<(Seq<char>, Seq<char>)>, tuning: ParquetTuning) -> bool {
    &&& tuning.compression_name@ == compression_name_of(vars)
    &&& tuning.compression == value_of(compression_of(compression_name_of(vars)))
    &&& tuning.dictionary_enabled == bool_of(vars, "PARQUET_DICTIONARY"@, false)
    &&& tuning.max_row_group_rows == value_of(
        usize_of(vars, "PARQUET_MAX_ROW_GROUP_ROWS"@, 1_048_576),
    )
    &&& tuning.write_batch_size == value_of(usize_of(vars, "PARQUET_WRITE_BATCH_SIZE"@, 65_536))
    &&& tuning.data_page_size_limit == value_of(
        usize_of(vars, "PARQUET_DATA_PAGE_SIZE_LIMIT"@, 1_048_576),
    )
    &&& tuning.flush_threshold_bytes == value_of(
        usize_of(vars, "PARQUET_FLUSH_THRESHOLD_BYTES"@, 268_435_456),
    )
    &&& tuning.multipart_part_size == at_least(
        value_of(usize_of(vars, "S3_MULTIPART_PART_SIZE"@, 67_108_864)) as int,
        5_242_880,
    )
    &&& tuning.multipart_max_concurrency == at_least(
        value_of(usize_of(vars, "S3_MULTIPART_MAX_CONCURRENCY"@, 16)) as int,
        1,
    )
    &&& tuning.put_parallelism == at_least(
        value_of(usize_of(vars, "PUT_PARALLELISM"@, 4)) as int,
        1,
    )
    &&& tuning.put_queue_depth == at_least(
        value_of(usize_of(vars, "PUT_QUEUE_DEPTH"@, 2)) as int,
        1,
    )
}

impl ParquetTuning {
    /// The Parquet settings from the environment.
    pub fn from_env(env: &Environment) -> (r: Result<ParquetTuning, ErrorChain>)
        ensures
            reads(r, parquet_error(env@), |tuning: ParquetTuning| is_parquet(env@, tuning)),
    {
        let compression_name = env_string(env, "PARQUET_COMPRESSION", "uncompressed");
        let compression = match parse_compression(compression_name.as_str()) {
            Ok(value) => value,
            Err(error) => return Err(error),
        };
        let dictionary_enabled = env_bool(env, "PARQUET_DICTIONARY", false);
        let max_row_group_rows = match env_usize(env, "PARQUET_MAX_ROW_GROUP_ROWS", 1_048_576) {
            Ok(value) => value,
            Err(error) => return Err(error),
        };
        let write_batch_size = match env_usize(env, "PARQUET_WRITE_BATCH_SIZE", 65_536) {
            Ok(value) => value,
            Err(error) => return Err(error),
        };
        let data_page_size_limit = match env_usize(env, "PARQUET_DATA_PAGE_SIZE_LIMIT", 1_048_576) {
            Ok(value) => value,
            Err(error) => return Err(error),
        };
        let flush_threshold_bytes = match env_usize(
            env,
            "PARQUET_FLUSH_THRESHOLD_BYTES",
            268_435_456,
        ) {
            Ok(value) => value,
            Err(error) => return Err(error),
        };
        let multipart_part_size = match env_usize(env, "S3_MULTIPART_PART_SIZE", 67_108_864) {
            Ok(value) => value,
            Err(error) => return Err(error),
        };
        let multipart_max_concurrency = match env_usize(env, "S3_MULTIPART_MAX_CONCURRENCY", 16) {
            Ok(value) => value,
            Err(error) => return Err(error),
        };
        let put_parallelism = match env_usize(env, "PUT_PARALLELISM", 4) {
            Ok(value) => value,
            Err(error) => return Err(error),
        };
        let put_queue_depth = match env_usize(env, "PUT_QUEUE_DEPTH", 2) {
            Ok(value) => value,
            Err(error) => return Err(error),
        };
        Ok(
            ParquetTuning {
                compression_name,
                compression,
                dictionary_enabled,
                max_row_group_rows,
                write_batch_size,
                data_page_size_limit,
                flush_threshold_bytes,
                multipart_part_size: max_usize(multipart_part_size, 5_242_880),
                multipart_max_concurrency: max_usize(multipart_max_concurrency, 1),
                put_parallelism: max_usize(put_parallelism, 1),
                put_queue_depth: max_usize(put_queue_depth, 1),
            },
        )
    }
}

/// The error of reading the worker's limits.
pub open spec fn worker_error(
    vars: Seq<(Seq<char>, Seq<char>)>,
    flavor: WorkerFlavor,
) -> Option<Seq<Seq<char>>> {
    either_error(
        error_of(
            count_auto_of(
                vars,
                "PUT_MAX_ACTIVE_STREAMS"@,
                put_streams_of(flavor.cpu_millicores as nat) as usize,
            ),
        ),
        either_error(
            error_of(
                count_auto_of(
                    vars,
                    "PUT_MAX_STREAMS_PER_UPLOAD"@,
                    at_most(put_streams_of(flavor.cpu_millicores as nat), 4) as usize,
                ),
            ),
            either_error(
                error_of(
                    count_auto_of(
                        vars,
                        "PUT_SCHEDULER_RESERVED_SLOTS"@,
                        reserved_slots_of(put_streams_of(flavor.cpu_millicores as nat)) as usize,
                    ),
                ),
                either_error(
                    error_of(count_of(vars, "PUT_SLOT_WAIT_MS"@, 30_000)),
                    either_error(
                        error_of(count_of(vars, "PUT_FIRST_BATCH_TIMEOUT_MS"@, 10_000)),
                        either_error(
                            error_of(optional_u64_of(vars, "PUT_MAX_STREAM_BYTES"@)),
                            either_error(
                                error_of(
                                    count_auto_of(
                                        vars,
                                        "READ_MAX_ACTIVE_STREAMS"@,
                                        read_streams_of(flavor.cpu_millicores as nat) as usize,
                                    ),
                                ),
                                either_error(
                                    error_of(
                                        count_auto_of(
                                            vars,
                                            "READ_MAX_STREAMS_PER_OPERATION"@,
                                            at_most(
                                                read_streams_of(flavor.cpu_millicores as nat),
                                                8,
                                            ) as usize,
                                        ),
                                    ),
                                    either_error(
                                        error_of(
                                            count_auto_of(
                                                vars,
                                                "READ_SCHEDULER_RESERVED_SLOTS"@,
                                                reserved_slots_of(
                                                    read_streams_of(flavor.cpu_millicores as nat),
                                                ) as usize,
                                            ),
                                        ),
                                        either_error(
                                            error_of(count_of(vars, "READ_SLOT_WAIT_MS"@, 30_000)),
                                            either_error(
                                                error_of(
                                                    count_of(
                                                        vars,
                                                        "WORKER_HEARTBEAT_INTERVAL_MS"@,
                                                        5_000,
                                                    ),
                                                ),
                                                error_of(
                                                    count_of(
                                                        vars,
                                                        "WORKER_REGISTRY_TTL_MS"@,
                                                        15_000,
                                                    ),
                                                ),
                                            ),
                                        ),
                                    ),
                                ),
                            ),
                        ),
                    ),
                ),
            ),
        ),
    )
}

/// Whether a value holds the worker's limits as the environment and the CPU budget give them.
pub open spec fn is_worker(
    vars: Seq<(Seq<char>, Seq<char>)>,
    flavor: WorkerFlavor,
    worker: WorkerConfig,
) -> bool {
    &&& worker.worker_id@ == string_of_env(vars, "WORKER_ID"@, "local-worker"@)
    &&& worker.flight_uri@ == string_of_env(
        vars,
        "WORKER_FLIGHT_URI"@,
        "grpc+tcp://127.0.0.1:50051"@,
    )
    &&& opt_text(worker.zone) == optional_string_of(vars, "WORKER_ZONE"@)
    &&& worker.draining == bool_of(vars, "WORKER_DRAINING"@, false)
    &&& worker.require_staging_prefix == bool_of(vars, "PUT_REQUIRE_STAGING_PREFIX"@, false)
    &&& worker.require_structured_tickets == bool_of(
        vars,
        "WORKER_REQUIRE_STRUCTURED_TICKETS"@,
        false,
    )
    &&& worker.max_active_put_streams == at_least(
        value_of(
            count_auto_of(
                vars,
                "PUT_MAX_ACTIVE_STREAMS"@,
                put_streams_of(flavor.cpu_millicores as nat) as usize,
            ),
        ) as int,
        1,
    )
    &&& worker.max_put_streams_per_upload == at_least(
        value_of(
            count_auto_of(
                vars,
                "PUT_MAX_STREAMS_PER_UPLOAD"@,
                at_most(put_streams_of(flavor.cpu_millicores as nat), 4) as usize,
            ),
        ) as int,
        1,
    )
    &&& worker.put_scheduler_reserved_slots == value_of(
        count_auto_of(
            vars,
            "PUT_SCHEDULER_RESERVED_SLOTS"@,
            reserved_slots_of(put_streams_of(flavor.cpu_millicores as nat)) as usize,
        ),
    )
    &&& worker.put_slot_wait_ms == value_of(count_of(vars, "PUT_SLOT_WAIT_MS"@, 30_000))
    &&& worker.put_first_batch_timeout_ms == value_of(
        count_of(vars, "PUT_FIRST_BATCH_TIMEOUT_MS"@, 10_000),
    )
    &&& worker.max_put_stream_bytes == value_of(optional_u64_of(vars, "PUT_MAX_STREAM_BYTES"@))
    &&& worker.max_active_read_streams == at_least(
        value_of(
            count_auto_of(
                vars,
                "READ_MAX_ACTIVE_STREAMS"@,
                read_streams_of(flavor.cpu_millicores as nat) as usize,
            ),
        ) as int,
        1,
    )
    &&& worker.max_read_streams_per_operation == at_least(
        value_of(
            count_auto_of(
                vars,
                "READ_MAX_STREAMS_PER_OPERATION"@,
                at_most(read_streams_of(flavor.cpu_millicores as nat), 8) as usize,
            ),
        ) as int,
        1,
    )
    &&& worker.read_scheduler_reserved_slots == value_of(
        count_auto_of(
            vars,
            "READ_SCHEDULER_RESERVED_SLOTS"@,
            reserved_slots_of(read_streams_of(flavor.cpu_millicores as nat)) as usize,
        ),
    )
    &&& worker.read_slot_wait_ms == value_of(count_of(vars, "READ_SLOT_WAIT_MS"@, 30_000))
    &&& worker.registry_heartbeat_interval_ms == value_of(
        count_of(vars, "WORKER_HEARTBEAT_INTERVAL_MS"@, 5_000),
    )
    &&& worker.registry_ttl_ms == value_of(count_of(vars, "WORKER_REGISTRY_TTL_MS"@, 15_000))
}

impl WorkerConfig {
    /// The worker's limits from the environment and the CPU budget.
    pub fn from_env(env: &Environment, flavor: &WorkerFlavor) -> (r: Result<
        WorkerConfig,
        ErrorChain,
    >)
        ensures
            reads(
                r,
                worker_error(env@, *flavor),
                |worker: WorkerConfig| is_worker(env@, *flavor, worker),
            ),
    {
        let put_streams: usize = auto_put_streams(flavor.cpu_millicores);
        let read_streams: usize = auto_read_streams(flavor.cpu_millicores);
        let max_active_put_streams = match env_count_auto(
            env,
            "PUT_MAX_ACTIVE_STREAMS",
            put_streams,
        ) {
            Ok(value) => value,
            Err(error) => return Err(error),
        };
        let max_put_streams_per_upload = match env_count_auto(
            env,
            "PUT_MAX_STREAMS_PER_UPLOAD",
            min_usize(put_streams, 4),
        ) {
            Ok(value) => value,
            Err(error) => return Err(error),
        };
        let put_scheduler_reserved_slots = match env_count_auto(
            env,
            "PUT_SCHEDULER_RESERVED_SLOTS",
            auto_reserved_slots(put_streams),
        ) {
            Ok(value) => value,
            Err(error) => return Err(error),
        };
        let put_slot_wait_ms = match env_count(env, "PUT_SLOT_WAIT_MS", 30_000) {
            Ok(value) => value,
            Err(error) => return Err(error),
        };
        let put_first_batch_timeout_ms = match env_count(
            env,
            "PUT_FIRST_BATCH_TIMEOUT_MS",
            10_000,
        ) {
            Ok(value) => value,
            Err(error) => return Err(error),
        };
        let max_put_stream_bytes = match env_optional_u64(env, "PUT_MAX_STREAM_BYTES") {
            Ok(value) => value,
            Err(error) => return Err(error),
        };
        let max_active_read_streams = match env_count_auto(
            env,
            "READ_MAX_ACTIVE_STREAMS",
            read_streams,
        ) {
            Ok(value) => value,
            Err(error) => return Err(error),
        };
        let max_read_streams_per_operation = match env_count_auto(
            env,
            "READ_MAX_STREAMS_PER_OPERATION",
            min_usize(read_streams, 8),
        ) {
            Ok(value) => value,
            Err(error) => return Err(error),
        };
        let read_scheduler_reserved_slots = match env_count_auto(
            env,
            "READ_SCHEDULER_RESERVED_SLOTS",
            auto_reserved_slots(read_streams),
        ) {
            Ok(value) => value,
            Err(error) => return Err(error),
        };
        let read_slot_wait_ms = match env_count(env, "READ_SLOT_WAIT_MS", 30_000) {
            Ok(value) => value,
            Err(error) => return Err(error),
        };
        let registry_heartbeat_interval_ms = match env_count(
            env,
            "WORKER_HEARTBEAT_INTERVAL_MS",
            5_000,
        ) {
            Ok(value) => value,
            Err(error) => return Err(error),
        };
        let registry_ttl_ms = match env_count(env, "WORKER_REGISTRY_TTL_MS", 15_000) {
            Ok(value) => value,
            Err(error) => return Err(error),
        };
        Ok(
            WorkerConfig {
                worker_id: env_string(env, "WORKER_ID", "local-worker"),
                flight_uri: env_string(env, "WORKER_FLIGHT_URI", "grpc+tcp://127.0.0.1:50051"),
                zone: env_optional_string(env, "WORKER_ZONE"),
                draining: env_bool(env, "WORKER_DRAINING", false),
                require_staging_prefix: env_bool(env, "PUT_REQUIRE_STAGING_PREFIX", false),
                require_structured_tickets: env_bool(
                    env,
                    "WORKER_REQUIRE_STRUCTURED_TICKETS",
                    false,
                ),
                max_active_put_streams: max_usize(max_active_put_streams, 1),
                max_put_streams_per_upload: max_usize(max_put_streams_per_upload, 1),
                put_scheduler_reserved_slots,
                put_slot_wait_ms: put_slot_wait_ms as u64,
                put_first_batch_timeout_ms: put_first_batch_timeout_ms as u64,
                max_put_stream_bytes,
                max_active_read_streams: max_usize(max_active_read_streams, 1),
                max_read_streams_per_operation: max_usize(max_read_streams_per_operation, 1),
                read_scheduler_reserved_slots,
                read_slot_wait_ms: read_slot_wait_ms as u64,
                registry_heartbeat_interval_ms: registry_heartbeat_interval_ms as u64,
                registry_ttl_ms: registry_ttl_ms as u64,
            },
        )
    }
}

impl MetadataConfig {
    /// The settings of the metadata database from the environment.
    pub fn from_env(env: &Environment) -> (r: MetadataConfig)
        ensures
            is_metadata(env@, r),
    {
        MetadataConfig {
            database_url: env_optional_string(env, "METADATA_DATABASE_URL"),
            auto_migrate: env_bool(env, "METADATA_DB_AUTO_MIGRATE", false),
        }
    }
}

/// Whether a value holds the settings of the metadata database of the environment.
pub open spec fn is_metadata(vars: Seq<(Seq<char>, Seq<char>)>, config: MetadataConfig) -> bool {
    &&& opt_text(config.database_url) == optional_string_of(vars, "METADATA_DATABASE_URL"@)
    &&& config.auto_migrate == bool_of(vars, "METADATA_DB_AUTO_MIGRATE"@, false)
}

/// Whether every request has to carry a signed capability.
pub open spec fn signed_required_of(vars: Seq<(Seq<char>, Seq<char>)>) -> bool {
    bool_of(vars, "WORKER_REQUIRE_SIGNED_CAPABILITIES"@, false)
}

/// The error of reading the security settings.
pub open spec fn security_error(vars: Seq<(Seq<char>, Seq<char>)>) -> Option<Seq<Seq<char>>> {
    if signed_required_of(vars) && optional_string_of(vars, "WORKER_CAPABILITY_SECRET"@) is None {
        Some(
            seq![
                "WORKER_CAPABILITY_SECRET must be set when WORKER_REQUIRE_SIGNED_CAPABILITIES=true"@,
            ],
        )
    } else {
        error_of(usize_of(vars, "WORKER_CAPABILITY_MAX_TTL_MS"@, 3_600_000))
    }
}

/// Whether a value holds the security settings of the environment. Unless set otherwise, a
/// capability has to name its worker exactly where capabilities have to be signed.
pub open spec fn is_security(vars: Seq<(Seq<char>, Seq<char>)>, config: SecurityConfig) -> bool {
    &&& config.require_signed_capabilities == signed_required_of(vars)
    &&& opt_text(config.capability_secret) == optional_string_of(
        vars,
        "WORKER_CAPABILITY_SECRET"@,
    )
    &&& config.require_capability_worker_binding == bool_of(
        vars,
        "WORKER_REQUIRE_CAPABILITY_WORKER_ID"@,
        signed_required_of(vars),
    )
    &&& config.max_capability_ttl_ms == value_of(
        usize_of(vars, "WORKER_CAPABILITY_MAX_TTL_MS"@, 3_600_000),
    )
}

impl SecurityConfig {
    /// The security settings from the environment. Where signatures are required, there is a
    /// secret to check them with.
    pub fn from_env(env: &Environment) -> (r: Result<SecurityConfig, ErrorChain>)
        ensures
            reads(r, security_error(env@), |config: SecurityConfig| is_security(env@, config)),
            r matches Ok(config) ==> config.require_signed_capabilities
                ==> config.capability_secret is Some,
    {
        let require_signed_capabilities = env_bool(
            env,
            "WORKER_REQUIRE_SIGNED_CAPABILITIES",
            false,
        );
        let capability_secret = env_optional_string(env, "WORKER_CAPABILITY_SECRET");
        if require_signed_capabilities && capability_secret.is_none() {
            return Err(
                ErrorChain::new(
                    "WORKER_CAPABILITY_SECRET must be set when WORKER_REQUIRE_SIGNED_CAPABILITIES=true".to_owned(),
                ),
            );
        }
        let max_ttl = match env_usize(env, "WORKER_CAPABILITY_MAX_TTL_MS", 3_600_000) {
            Ok(value) => value,
            Err(error) => return Err(error),
        };
        Ok(
            SecurityConfig {
                require_signed_capabilities,
                capability_secret,
                require_capability_worker_binding: env_bool(
                    env,
                    "WORKER_REQUIRE_CAPABILITY_WORKER_ID",
                    require_signed_capabilities,
                ),
                max_capability_ttl_ms: max_ttl as u64,
            },
        )
    }
}

// ---------------------------------------------------------------------------
// Memory budgets

/// The size that `key` sets, or `default`.
pub open spec fn set_or(vars: Seq<(Seq<char>, Seq<char>)>, key: Seq<char>, default: int) -> int {
    match value_of(optional_u64_of(vars, key)) {
        Some(bytes) => bytes as int,
        None => default,
    }
}

/// The size that a setting holds, or `default`.
fn or_default(setting: Option<u64>, default: u64) -> (r: u64)
    ensures
        r == (match setting {
            Some(bytes) => bytes,
            None => default,
        }),
{
    match setting {
        Some(bytes) => bytes,
        None => default,
    }
}

/// The memory that is kept out of both budgets: as set, else a fifth but at least 512 MiB and at
/// most half; 256 MiB are always left.
pub open spec fn reserved_memory_of(vars: Seq<(Seq<char>, Seq<char>)>, memory: int) -> int {
    at_most(
        set_or(
            vars,
            "WORKER_RESERVED_MEMORY_BYTES"@,
            at_most(at_least(memory / 5, 512 * MIB), memory / 2),
        ),
        at_least(memory - 256 * MIB, 0),
    )
}

/// The memory that the budgets are taken from.
pub open spec fn usable_memory_of(vars: Seq<(Seq<char>, Seq<char>)>, memory: int) -> int {
    at_least(memory - reserved_memory_of(vars, memory), 256 * MIB)
}

/// A budget: as set, else a share of the usable memory; at most all of it, at least 64 MiB.
pub open spec fn budget_of(
    vars: Seq<(Seq<char>, Seq<char>)>,
    key: Seq<char>,
    percent: nat,
    usable: int,
) -> int {
    at_least(at_most(set_or(vars, key, share_of(usable as nat, percent)), usable), 64 * MIB)
}

/// The error of reading the memory settings.
pub open spec fn resource_error(
    vars: Seq<(Seq<char>, Seq<char>)>,
    read_batch_size: usize,
) -> Option<Seq<Seq<char>>> {
    either_error(
        error_of(optional_u64_of(vars, "WORKER_RESERVED_MEMORY_BYTES"@)),
        either_error(
            error_of(percent_of_env(vars, "PUT_MEMORY_PERCENT"@, 55)),
            either_error(
                error_of(percent_of_env(vars, "READ_MEMORY_PERCENT"@, 30)),
                either_error(
                    error_of(optional_u64_of(vars, "PUT_MEMORY_BUDGET_BYTES"@)),
                    either_error(
                        error_of(optional_u64_of(vars, "READ_MEMORY_BUDGET_BYTES"@)),
                        either_error(
                            error_of(optional_u64_of(vars, "PUT_MAX_STREAM_MEMORY_BYTES"@)),
                            either_error(
                                error_of(optional_u64_of(vars, "PUT_MAX_RECORD_BATCH_BYTES"@)),
                                either_error(
                                    error_of(
                                        optional_u64_of(vars, "READ_MAX_STREAM_MEMORY_BYTES"@),
                                    ),
                                    either_error(
                                        error_of(
                                            optional_u64_of(vars, "READ_MAX_RECORD_BATCH_BYTES"@),
                                        ),
                                        error_of(
                                            usize_of(
                                                vars,
                                                "READ_MAX_BATCH_ROWS"@,
                                                at_least(
                                                    read_batch_size as int,
                                                    1_048_576,
                                                ) as usize,
                                            ),
                                        ),
                                    ),
                                ),
                            ),
                        ),
                    ),
                ),
            ),
        ),
    )
}

/// The memory settings as the environment, the worker's limits and the budgets give them.
pub open spec fn resources_of(
    vars: Seq<(Seq<char>, Seq<char>)>,
    worker: WorkerConfig,
    read_batch_size: usize,
    flavor: WorkerFlavor,
) -> ResourceConfig {
    let memory = flavor.memory_bytes as int;
    let usable = usable_memory_of(vars, memory);
    let put_memory = budget_of(
        vars,
        "PUT_MEMORY_BUDGET_BYTES"@,
        value_of(percent_of_env(vars, "PUT_MEMORY_PERCENT"@, 55)) as nat,
        usable,
    );
    let read_memory = budget_of(
        vars,
        "READ_MEMORY_BUDGET_BYTES"@,
        value_of(percent_of_env(vars, "READ_MEMORY_PERCENT"@, 30)) as nat,
        usable,
    );
    let put_stream = set_or(
        vars,
        "PUT_MAX_STREAM_MEMORY_BYTES"@,
        stream_memory_of(
            put_memory,
            worker.max_active_put_streams as int,
            worker.max_put_streams_per_upload as int,
            256 * MIB,
            2 * GIB,
        ),
    );
    let put_batch = set_or(
        vars,
        "PUT_MAX_RECORD_BATCH_BYTES"@,
        batch_memory_of(put_stream, 512 * MIB),
    );
    let read_stream = set_or(
        vars,
        "READ_MAX_STREAM_MEMORY_BYTES"@,
        stream_memory_of(
            read_memory,
            worker.max_active_read_streams as int,
            worker.max_read_streams_per_operation as int,
            128 * MIB,
            GIB as int,
        ),
    );
    let read_batch = set_or(
        vars,
        "READ_MAX_RECORD_BATCH_BYTES"@,
        batch_memory_of(read_stream, 256 * MIB),
    );
    ResourceConfig {
        worker_cpu_millicores: flavor.cpu_millicores,
        worker_memory_bytes: flavor.memory_bytes,
        reserved_memory_bytes: reserved_memory_of(vars, memory) as u64,
        put_memory_bytes: put_memory as u64,
        read_memory_bytes: read_memory as u64,
        put_max_stream_memory_bytes: at_least(put_stream, 1) as u64,
        put_max_record_batch_bytes: at_least(at_most(put_batch, put_stream), 1) as u64,
        read_max_stream_memory_bytes: at_least(read_stream, 1) as u64,
        read_max_record_batch_bytes: at_least(at_most(read_batch, read_stream), 1) as u64,
        read_max_batch_rows: at_least(
            value_of(
                usize_of(
                    vars,
                    "READ_MAX_BATCH_ROWS"@,
                    at_least(read_batch_size as int, 1_048_576) as usize,
                ),
            ) as int,
            1,
        ) as usize,
    }
}

impl ResourceConfig {
    /// The memory settings from the environment, the worker's limits and the budgets.
    pub fn from_env(
        env: &Environment,
        worker: &WorkerConfig,
        read_batch_size: usize,
        flavor: &WorkerFlavor,
    ) -> (r: Result<ResourceConfig, ErrorChain>)
        ensures
            reads(
                r,
                resource_error(env@, read_batch_size),
                |config: ResourceConfig|
                    config == resources_of(env@, *worker, read_batch_size, *flavor),
            ),
    {
        let memory: u64 = flavor.memory_bytes;
        let default_reserved: u64 = min_u64(max_u64(memory / 5, 512 * MIB), memory / 2);
        let set_reserved = match env_optional_u64(env, "WORKER_RESERVED_MEMORY_BYTES") {
            Ok(value) => value,
            Err(error) => return Err(error),
        };
        let reserved: u64 = min_u64(
            or_default(set_reserved, default_reserved),
            memory.saturating_sub(256 * MIB),
        );
        let usable: u64 = max_u64(memory.saturating_sub(reserved), 256 * MIB);

        let put_percent = match env_percent(env, "PUT_MEMORY_PERCENT", 55) {
            Ok(value) => value,
            Err(error) => return Err(error),
        };
        let read_percent = match env_percent(env, "READ_MEMORY_PERCENT", 30) {
            Ok(value) => value,
            Err(error) => return Err(error),
        };
        let set_put = match env_optional_u64(env, "PUT_MEMORY_BUDGET_BYTES") {
            Ok(value) => value,
            Err(error) => return Err(error),
        };
        let put_memory: u64 = max_u64(
            min_u64(or_default(set_put, percent_of(usable, put_percent)), usable),
            64 * MIB,
        );
        let set_read = match env_optional_u64(env, "READ_MEMORY_BUDGET_BYTES") {
            Ok(value) => value,
            Err(error) => return Err(error),
        };
        let read_memory: u64 = max_u64(
            min_u64(or_default(set_read, percent_of(usable, read_percent)), usable),
            64 * MIB,
        );

        let put_default_stream: u64 = default_stream_memory(
            put_memory,
            worker.max_active_put_streams,
            worker.max_put_streams_per_upload,
            256 * MIB,
            2 * GIB,
        );
        let set_put_stream = match env_optional_u64(env, "PUT_MAX_STREAM_MEMORY_BYTES") {
            Ok(value) => value,
            Err(error) => return Err(error),
        };
        let put_stream: u64 = or_default(set_put_stream, put_default_stream);
        let set_put_batch = match env_optional_u64(env, "PUT_MAX_RECORD_BATCH_BYTES") {
            Ok(value) => value,
            Err(error) => return Err(error),
        };
        let put_batch: u64 = or_default(set_put_batch, default_batch_memory(put_stream, 512 * MIB));

        let read_default_stream: u64 = default_stream_memory(
            read_memory,
            worker.max_active_read_streams,
            worker.max_read_streams_per_operation,
            128 * MIB,
            GIB,
        );
        let set_read_stream = match env_optional_u64(env, "READ_MAX_STREAM_MEMORY_BYTES") {
            Ok(value) => value,
            Err(error) => return Err(error),
        };
        let read_stream: u64 = or_default(set_read_stream, read_default_stream);
        let set_read_batch = match env_optional_u64(env, "READ_MAX_RECORD_BATCH_BYTES") {
            Ok(value) => value,
            Err(error) => return Err(error),
        };
        let read_batch: u64 = or_default(
            set_read_batch,
            default_batch_memory(read_stream, 256 * MIB),
        );
        let set_rows = match env_usize(
            env,
            "READ_MAX_BATCH_ROWS",
            max_usize(read_batch_size, 1_048_576),
        ) {
            Ok(value) => value,
            Err(error) => return Err(error),
        };

        Ok(
            ResourceConfig {
                worker_cpu_millicores: flavor.cpu_millicores,
                worker_memory_bytes: memory,
                reserved_memory_bytes: reserved,
                put_memory_bytes: put_memory,
                read_memory_bytes: read_memory,
                put_max_stream_memory_bytes: max_u64(put_stream, 1),
                put_max_record_batch_bytes: max_u64(min_u64(put_batch, put_stream), 1),
                read_max_stream_memory_bytes: max_u64(read_stream, 1),
                read_max_record_batch_bytes: max_u64(min_u64(read_batch, read_stream), 1),
                read_max_batch_rows: max_usize(set_rows, 1),
            },
        )
    }
}

/// Whatever the environment sets: a record batch fits into the memory of its stream and no limit
/// is zero, both budgets are at least 64 MiB, and on a worker with at least 512 MiB, 256 MiB stay
/// outside the reserved memory and neither budget exceeds what is outside it.
pub proof fn law_memory_limits(
    vars: Seq<(Seq<char>, Seq<char>)>,
    worker: WorkerConfig,
    read_batch_size: usize,
    flavor: WorkerFlavor,
)
    ensures
        ({
            let config = resources_of(vars, worker, read_batch_size, flavor);
            &&& 1 <= config.put_max_record_batch_bytes <= config.put_max_stream_memory_bytes
            &&& 1 <= config.read_max_record_batch_bytes <= config.read_max_stream_memory_bytes
            &&& 1 <= config.read_max_batch_rows
            &&& 64 * MIB <= config.put_memory_bytes
            &&& 64 * MIB <= config.read_memory_bytes
            &&& flavor.memory_bytes >= 512 * MIB ==> {
                &&& config.reserved_memory_bytes + 256 * MIB <= flavor.memory_bytes
                &&& config.put_memory_bytes <= flavor.memory_bytes - config.reserved_memory_bytes
                &&& config.read_memory_bytes <= flavor.memory_bytes - config.reserved_memory_bytes
            }
        }),
{
}

// ---------------------------------------------------------------------------
// The whole configuration

/// The error of a socket address setting that is none.
pub open spec fn addr_error(parses: bool, message: Seq<char>) -> Option<Seq<Seq<char>>> {
    if parses {
        None
    } else {
        Some(seq![message, "invalid socket address syntax"@])
    }
}

fn check_addr(parses: bool, message: &str) -> (r: Result<(), ErrorChain>)
    ensures
        reads(r, addr_error(parses, message@), |unit: ()| true),
{
    if parses {
        return Ok(());
    }
    let error = ErrorChain::new("invalid socket address syntax".to_owned()).context(
        message.to_owned(),
    );
    proof {
        assert(error@ == seq![message@, "invalid socket address syntax"@]);
    }
    Err(error)
}

/// Whether a value holds the settings of the metrics endpoint of the environment.
pub open spec fn is_metrics(vars: Seq<(Seq<char>, Seq<char>)>, config: MetricsConfig) -> bool {
    &&& config.enabled == bool_of(vars, "METRICS_ENABLED"@, true)
    &&& config.addr@ == string_of_env(vars, "METRICS_ADDR"@, "0.0.0.0:9090"@)
}

impl MetricsConfig {
    /// The settings of the metrics endpoint from the environment. `addr_parses` says whether
    /// `METRICS_ADDR`, or its default, is a socket address.
    pub fn from_env(env: &Environment, addr_parses: bool) -> (r: Result<MetricsConfig, ErrorChain>)
        ensures
            reads(
                r,
                addr_error(
                    addr_parses,
                    "METRICS_ADDR must be a socket address such as 0.0.0.0:9090"@,
                ),
                |config: MetricsConfig| is_metrics(env@, config),
            ),
    {
        let addr = env_string(env, "METRICS_ADDR", "0.0.0.0:9090");
        match check_addr(
            addr_parses,
            "METRICS_ADDR must be a socket address such as 0.0.0.0:9090",
        ) {
            Ok(value) => value,
            Err(error) => return Err(error),
        };
        Ok(MetricsConfig { enabled: env_bool(env, "METRICS_ENABLED", true), addr })
    }
}

/// The size of a batch that a read hands out, as set.
pub open spec fn read_batch_size_of(
    vars: Seq<(Seq<char>, Seq<char>)>,
) -> Result<usize, Seq<Seq<char>>> {
    usize_of(vars, "READ_BATCH_SIZE"@, 65_536)
}

/// The error of reading the configuration: that of the first section that has one.
pub open spec fn app_error(
    vars: Seq<(Seq<char>, Seq<char>)>,
    host: HostProbe,
) -> Option<Seq<Seq<char>>> {
    either_error(
        addr_error(
            host.flight_addr_parses,
            "FLIGHT_ADDR must be a socket address such as 0.0.0.0:50051"@,
        ),
        either_error(
            flavor_error(vars, host),
            either_error(
                worker_error(vars, flavor_of(vars, host)),
                either_error(
                    error_of(read_batch_size_of(vars)),
                    either_error(
                        resource_error(vars, value_of(read_batch_size_of(vars))),
                        either_error(
                            security_error(vars),
                            either_error(
                                tls_error(vars),
                                either_error(
                                    parquet_error(vars),
                                    either_error(
                                        addr_error(
                                            host.metrics_addr_parses,
                                            "METRICS_ADDR must be a socket address such as 0.0.0.0:9090"@,
                                        ),
                                        bench_error(vars),
                                    ),
                                ),
                            ),
                        ),
                    ),
                ),
            ),
        ),
    )
}

/// Whether a value holds the configuration that the environment and the host give.
pub open spec fn is_app(
    vars: Seq<(Seq<char>, Seq<char>)>,
    host: HostProbe,
    config: AppConfig,
) -> bool {
    &&& config.flight_addr@ == string_of_env(vars, "FLIGHT_ADDR"@, "0.0.0.0:50051"@)
    &&& is_tls(vars, config.flight_tls)
    &&& is_s3(vars, config.s3)
    &&& is_parquet(vars, config.parquet)
    &&& is_worker(vars, flavor_of(vars, host), config.worker)
    &&& config.resources == resources_of(
        vars,
        config.worker,
        value_of(read_batch_size_of(vars)),
        flavor_of(vars, host),
    )
    &&& is_security(vars, config.security)
    &&& is_metadata(vars, config.metadata)
    &&& is_metrics(vars, config.metrics)
    &&& config.flight_max_message_size == value_of(
        usize_of(vars, "FLIGHT_MAX_MESSAGE_SIZE"@, 0x1000_0000),
    )
    &&& config.flight_data_chunk_size == value_of(
        usize_of(vars, "FLIGHT_DATA_CHUNK_SIZE"@, 0x100_0000),
    )
    &&& config.read_batch_size == value_of(read_batch_size_of(vars))
}

impl AppConfig {
    /// The whole configuration from the environment and the host.
    pub fn from_env(env: &Environment, host: &HostProbe) -> (r: Result<AppConfig, ErrorChain>)
        requires
            plausible_host(*host),
        ensures
            reads(r, app_error(env@, *host), |config: AppConfig| is_app(env@, *host, config)),
    {
        let flight_addr = env_string(env, "FLIGHT_ADDR", "0.0.0.0:50051");
        match check_addr(
            host.flight_addr_parses,
            "FLIGHT_ADDR must be a socket address such as 0.0.0.0:50051",
        ) {
            Ok(value) => value,
            Err(error) => return Err(error),
        };
        let flavor = match WorkerFlavor::from_env(env, host) {
            Ok(value) => value,
            Err(error) => return Err(error),
        };
        let worker = match WorkerConfig::from_env(env, &flavor) {
            Ok(value) => value,
            Err(error) => return Err(error),
        };
        let read_batch_size = match env_usize(env, "READ_BATCH_SIZE", 65_536) {
            Ok(value) => value,
            Err(error) => return Err(error),
        };
        let resources = match ResourceConfig::from_env(env, &worker, read_batch_size, &flavor) {
            Ok(value) => value,
            Err(error) => return Err(error),
        };
        let security = match SecurityConfig::from_env(env) {
            Ok(value) => value,
            Err(error) => return Err(error),
        };
        let flight_tls = match FlightTlsConfig::from_env(env) {
            Ok(value) => value,
            Err(error) => return Err(error),
        };
        let parquet = match ParquetTuning::from_env(env) {
            Ok(value) => value,
            Err(error) => return Err(error),
        };
        let metrics = match MetricsConfig::from_env(env, host.metrics_addr_parses) {
            Ok(value) => value,
            Err(error) => return Err(error),
        };
        let flight_max_message_size = match env_usize(
            env,
            "FLIGHT_MAX_MESSAGE_SIZE",
            256 * 1024 * 1024,
        ) {
            Ok(value) => value,
            Err(error) => return Err(error),
        };
        let flight_data_chunk_size = match env_usize(
            env,
            "FLIGHT_DATA_CHUNK_SIZE",
            16 * 1024 * 1024,
        ) {
            Ok(value) => value,
            Err(error) => return Err(error),
        };
        Ok(
            AppConfig {
                flight_addr,
                flight_tls,
                s3: S3Config::from_env(env),
                parquet,
                worker,
                resources,
                security,
                metadata: MetadataConfig::from_env(env),
                metrics,
                flight_max_message_size,
                flight_data_chunk_size,
                read_batch_size,
            },
        )
    }
}

// ---------------------------------------------------------------------------
// Laws

/// A CPU share is rounded up to thousandths of a core: it covers the quota, and a thousandth less
/// would not. Without a quota or a period there is none.
pub proof fn law_cpu_share(quota: u64, period: u64)
    requires
        quota * 1000 <= u64::MAX,
    ensures
        quota_millicores_of(quota as nat, period as nat) is None <==> quota == 0 || period == 0,
        quota_millicores_of(quota as nat, period as nat) matches Some(millicores) ==> (millicores
            - 1) * period < quota * 1000 <= millicores * period,
{
    if quota > 0 && period > 0 {
        let q = quota * 1000;
        let p = period as int;
        let r = (q + p - 1) / p;
        assert((r - 1) * p < q <= r * p && 0 <= r <= q) by (nonlinear_arith)
            requires
                q > 0,
                p > 0,
                r == (q + p - 1) / p,
        ;
    }
}

/// A worker runs a write stream for each half core and a read stream for each quarter, rounded up,
/// at least one, and no more than sixteen and thirty-two.
pub proof fn law_streams_follow_the_cores(cpu_millicores: nat)
    ensures
        ({
            let streams = put_streams_of(cpu_millicores);
            &&& 1 <= streams <= 16
            &&& 0 < cpu_millicores <= 8000 ==> (streams - 1) * 500 < cpu_millicores <= streams * 500
            &&& cpu_millicores > 7500 ==> streams == 16
        }),
        ({
            let streams = read_streams_of(cpu_millicores);
            &&& 1 <= streams <= 32
            &&& 0 < cpu_millicores <= 8000 ==> (streams - 1) * 250 < cpu_millicores <= streams * 250
            &&& cpu_millicores > 7750 ==> streams == 32
        }),
{
}

/// A slot is held back exactly where there are four streams or more, and never more than one, so
/// that most streams stay free for use.
pub proof fn law_held_back_slots(streams: int)
    ensures
        streams >= 4 ==> reserved_slots_of(streams) == 1,
        streams < 4 ==> reserved_slots_of(streams) == 0,
{
}

/// A share of a value is rounded down, never more than the value, all of it at one hundred percent,
/// and the shares of two percentages that make up one hundred fit into the value together.
pub proof fn law_shares(value: u64, percent: nat)
    requires
        percent <= 100,
    ensures
        share_of(value as nat, percent) * 100 <= value * percent < (share_of(value as nat, percent)
            + 1) * 100,
        0 <= share_of(value as nat, percent) <= value,
        share_of(value as nat, 100) == value,
        share_of(value as nat, percent) + share_of(value as nat, (100 - percent) as nat) <= value,
{
    let v = value as int;
    let p = percent as int;
    assert(0 <= v * p <= v * 100) by (nonlinear_arith)
        requires
            0 <= v,
            0 <= p <= 100,
    ;
    assert(v * (100 - p) == v * 100 - v * p) by (nonlinear_arith);
}

/// The memory of a stream lies within the budget and the cap. It is the fair share of the budget
/// among the streams of one operation, but for as many as run at once, where that lies between the
/// floor and the cap; then that many streams fit into the budget together.
pub proof fn law_stream_memory(
    budget: int,
    max_active: int,
    max_per_operation: int,
    floor: int,
    cap: int,
)
    requires
        budget >= 0,
        max_active >= 1,
        max_per_operation >= 1,
        0 <= floor <= cap,
    ensures
        ({
            let memory = stream_memory_of(budget, max_active, max_per_operation, floor, cap);
            let streams = if max_active < max_per_operation {
                max_active
            } else {
                max_per_operation
            };
            let share = budget / streams;
            &&& memory <= budget
            &&& memory <= cap
            &&& floor <= budget ==> memory >= floor
            &&& floor <= share <= cap ==> memory == share && memory * streams <= budget
            &&& share < floor <= budget ==> memory == floor
            &&& share > cap ==> memory == cap
            &&& budget < floor ==> memory == budget
        }),
{
    let streams = if max_active < max_per_operation {
        max_active
    } else {
        max_per_operation
    };
    let share = budget / streams;
    assert(share * streams <= budget && 0 <= share <= budget) by (nonlinear_arith)
        requires
            budget >= 0,
            streams >= 1,
            share == budget / streams,
    ;
}

/// The memory of a batch is half of its stream's, but at least sixteen mebibytes and at most the
/// cap, and never more than the stream's.
pub proof fn law_batch_memory(stream_memory: int, cap: int)
    requires
        stream_memory >= 0,
        cap >= 0x100_0000,
    ensures
        ({
            let memory = batch_memory_of(stream_memory, cap);
            &&& memory <= stream_memory
            &&& memory <= cap
            &&& 0x100_0000 <= stream_memory / 2 <= cap ==> memory == stream_memory / 2
            &&& stream_memory / 2 > cap ==> memory == cap
            &&& stream_memory / 2 < 0x100_0000 <= stream_memory ==> memory == 0x100_0000
            &&& stream_memory < 0x100_0000 ==> memory == stream_memory
        }),
{
}

/// The limits of a control group count where they are set: the newer file goes before the older
/// one, and a CPU limit before the threads of the host. A memory limit is a positive number of
/// bytes that is less than the greatest that a signed number holds.
pub proof fn law_host_limits(host: HostProbe, raw: Seq<char>)
    requires
        plausible_host(host),
    ensures
        memory_limit_of(None) is None,
        memory_limit_of(Some(raw)) matches Some(bytes) ==> 0 < bytes < 0x7fff_ffff_ffff_ffff
            && unsigned_of(trim_of(raw), u64::MAX as nat) == Ok::<
            nat,
            crate::number::IntErrorKind,
        >(bytes as nat),
        memory_limit_of(opt_text(host.memory_max)) is Some ==> host_memory_of(host)
            == memory_limit_of(opt_text(host.memory_max)),
        memory_limit_of(opt_text(host.memory_max)) is None ==> host_memory_of(host)
            == memory_limit_of(opt_text(host.memory_limit)),
        cpu_max_of(opt_text(host.cpu_max)) is Some ==> host_cpu_of(host) == cpu_max_of(
            opt_text(host.cpu_max),
        ),
        cpu_max_of(opt_text(host.cpu_max)) is None && cpu_quota_period_of(
            opt_text(host.cpu_quota),
            opt_text(host.cpu_period),
        ) is None ==> {
            &&& host.parallelism is None <==> host_cpu_of(host) is None
            &&& host.parallelism matches Some(threads) ==> host_cpu_of(host)->0 == threads * 1000
        },
{
}

/// The quota of a `cpu.max` file is its first word and the period its second; in a pair of files
/// each holds one of them. A word that is no number means that there is no limit.
pub proof fn law_cpu_files(raw: Seq<char>, quota: Seq<char>, period: Seq<char>)
    ensures
        cpu_max_of(Some(raw)) is Some ==> {
            let parts = words_of(raw);
            &&& parts.len() >= 2
            &&& unsigned_of(parts[0], u64::MAX as nat) matches Ok(q)
            &&& unsigned_of(parts[1], u64::MAX as nat) matches Ok(p)
            &&& q > 0 && p > 0 && cpu_max_of(Some(raw)) == quota_millicores_of(q, p)
        },
        cpu_quota_period_of(Some(quota), Some(period)) is Some ==> {
            &&& unsigned_of(trim_of(quota), i64::MAX as nat) matches Ok(q)
            &&& unsigned_of(trim_of(period), u64::MAX as nat) matches Ok(p)
            &&& q > 0 && p > 0 && cpu_quota_period_of(Some(quota), Some(period))
                == quota_millicores_of(q, p)
        },
{
}

/// The budgets of a worker are those that are set, else those of its host, else one core and
/// sixteen gibibytes, but never less than a tenth of a core and 512 mebibytes.
pub proof fn law_worker_budgets(vars: Seq<(Seq<char>, Seq<char>)>, host: HostProbe)
    requires
        plausible_host(host),
        flavor_error(vars, host) is None,
    ensures
        ({
            let flavor = flavor_of(vars, host);
            let cpu = optional_cpu_of(vars, "WORKER_CPU_MILLICORES"@, host.cpu_cores)->Ok_0;
            &&& flavor.cpu_millicores >= 100
            &&& cpu matches Some(set) ==> flavor.cpu_millicores == set || set < 100
                && flavor.cpu_millicores == 100
            &&& cpu is None && host_cpu_of(host) is None ==> flavor.cpu_millicores == 1000
            &&& cpu is None && host_cpu_of(host) is Some ==> flavor.cpu_millicores == host_cpu_of(
                host,
            )->0 || host_cpu_of(host)->0 < 100 && flavor.cpu_millicores == 100
            &&& flavor.memory_bytes >= 0x2000_0000
            &&& exists|set: Option<u64>|
                {
                    &&& #[trigger] is_sized_or_none(vars, "WORKER_MEMORY_BYTES"@, set)
                    &&& set matches Some(bytes) ==> flavor.memory_bytes == bytes || bytes
                        < 0x2000_0000 && flavor.memory_bytes == 0x2000_0000
                    &&& set is None && host_memory_of(host) is None ==> flavor.memory_bytes
                        == 0x4_0000_0000
                    &&& set is None && host_memory_of(host) is Some ==> flavor.memory_bytes
                        == host_memory_of(host)->0 || host_memory_of(host)->0 < 0x2000_0000
                        && flavor.memory_bytes == 0x2000_0000
                }
        }),
{
    let set = optional_u64_of(vars, "WORKER_MEMORY_BYTES"@)->Ok_0;
    crate::env::law_settings_are_read(vars, "WORKER_MEMORY_BYTES"@, 0, false, Seq::empty());
    assert(is_sized_or_none(vars, "WORKER_MEMORY_BYTES"@, set));
}

/// Each limit of a worker is read from its own variable: what is set there counts, but at least one
/// stream, and what is not set follows from the cores. Writes and reads are set apart.
pub proof fn law_worker_settings(
    vars: Seq<(Seq<char>, Seq<char>)>,
    flavor: WorkerFlavor,
    worker: WorkerConfig,
)
    requires
        worker_error(vars, flavor) is None,
        is_worker(vars, flavor, worker),
    ensures
        is_worded(vars, "WORKER_ID"@, "local-worker"@, worker.worker_id@),
        is_worded(
            vars,
            "WORKER_FLIGHT_URI"@,
            "grpc+tcp://127.0.0.1:50051"@,
            worker.flight_uri@,
        ),
        is_worded_or_none(vars, "WORKER_ZONE"@, opt_text(worker.zone)),
        is_switched(vars, "WORKER_DRAINING"@, false, worker.draining),
        is_switched(vars, "PUT_REQUIRE_STAGING_PREFIX"@, false, worker.require_staging_prefix),
        is_switched(
            vars,
            "WORKER_REQUIRE_STRUCTURED_TICKETS"@,
            false,
            worker.require_structured_tickets,
        ),
        is_sized_or_none(vars, "PUT_MAX_STREAM_BYTES"@, worker.max_put_stream_bytes),
        is_counted(vars, "PUT_SLOT_WAIT_MS"@, 30_000, worker.put_slot_wait_ms as int),
        is_counted(
            vars,
            "PUT_FIRST_BATCH_TIMEOUT_MS"@,
            10_000,
            worker.put_first_batch_timeout_ms as int,
        ),
        is_counted(vars, "READ_SLOT_WAIT_MS"@, 30_000, worker.read_slot_wait_ms as int),
        is_counted(
            vars,
            "WORKER_HEARTBEAT_INTERVAL_MS"@,
            5_000,
            worker.registry_heartbeat_interval_ms as int,
        ),
        is_counted(vars, "WORKER_REGISTRY_TTL_MS"@, 15_000, worker.registry_ttl_ms as int),
        1 <= worker.max_active_put_streams,
        1 <= worker.max_put_streams_per_upload,
        1 <= worker.max_active_read_streams,
        1 <= worker.max_read_streams_per_operation,
{
    law_streams_follow_the_cores(flavor.cpu_millicores as nat);
    lemma_read(vars, "WORKER_ID"@, 0, false, "local-worker"@);
    lemma_read(vars, "WORKER_FLIGHT_URI"@, 0, false, "grpc+tcp://127.0.0.1:50051"@);
    lemma_read(vars, "WORKER_ZONE"@, 0, false, Seq::empty());
    lemma_read(vars, "WORKER_DRAINING"@, 0, false, Seq::empty());
    lemma_read(vars, "PUT_REQUIRE_STAGING_PREFIX"@, 0, false, Seq::empty());
    lemma_read(vars, "WORKER_REQUIRE_STRUCTURED_TICKETS"@, 0, false, Seq::empty());
    lemma_read(vars, "PUT_MAX_STREAM_BYTES"@, 0, false, Seq::empty());
    lemma_read(vars, "PUT_SLOT_WAIT_MS"@, 30_000, false, Seq::empty());
    lemma_read(vars, "PUT_FIRST_BATCH_TIMEOUT_MS"@, 10_000, false, Seq::empty());
    lemma_read(vars, "READ_SLOT_WAIT_MS"@, 30_000, false, Seq::empty());
    lemma_read(vars, "WORKER_HEARTBEAT_INTERVAL_MS"@, 5_000, false, Seq::empty());
    lemma_read(vars, "WORKER_REGISTRY_TTL_MS"@, 15_000, false, Seq::empty());
}

/// Whether a setting is a number of streams: that of its variable or a default, and one where that
/// is zero.
pub open spec fn is_stream_count(
    vars: Seq<(Seq<char>, Seq<char>)>,
    key: Seq<char>,
    default: int,
    value: int,
) -> bool {
    ||| value >= 1 && is_counted_or_auto(vars, key, default, value)
    ||| value == 1 && is_counted_or_auto(vars, key, default, 0)
}

/// The stream counts of a worker are those that are set, but at least one, and else follow from its
/// cores: two writes and four reads for each, of which one upload gets up to four and one read up
/// to eight, and one slot held back from four on.
pub proof fn law_worker_streams(
    vars: Seq<(Seq<char>, Seq<char>)>,
    flavor: WorkerFlavor,
    worker: WorkerConfig,
)
    requires
        worker_error(vars, flavor) is None,
        is_worker(vars, flavor, worker),
    ensures
        ({
            let puts = put_streams_of(flavor.cpu_millicores as nat);
            let reads = read_streams_of(flavor.cpu_millicores as nat);
            &&& is_stream_count(
                vars,
                "PUT_MAX_ACTIVE_STREAMS"@,
                puts,
                worker.max_active_put_streams as int,
            )
            &&& is_stream_count(
                vars,
                "PUT_MAX_STREAMS_PER_UPLOAD"@,
                if puts < 4 {
                    puts
                } else {
                    4
                },
                worker.max_put_streams_per_upload as int,
            )
            &&& is_counted_or_auto(
                vars,
                "PUT_SCHEDULER_RESERVED_SLOTS"@,
                if puts >= 4 {
                    1
                } else {
                    0
                },
                worker.put_scheduler_reserved_slots as int,
            )
            &&& is_stream_count(
                vars,
                "READ_MAX_ACTIVE_STREAMS"@,
                reads,
                worker.max_active_read_streams as int,
            )
            &&& is_stream_count(
                vars,
                "READ_MAX_STREAMS_PER_OPERATION"@,
                if reads < 8 {
                    reads
                } else {
                    8
                },
                worker.max_read_streams_per_operation as int,
            )
            &&& is_counted_or_auto(
                vars,
                "READ_SCHEDULER_RESERVED_SLOTS"@,
                if reads >= 4 {
                    1
                } else {
                    0
                },
                worker.read_scheduler_reserved_slots as int,
            )
        }),
{
    let puts = put_streams_of(flavor.cpu_millicores as nat);
    let reads = read_streams_of(flavor.cpu_millicores as nat);
    law_streams_follow_the_cores(flavor.cpu_millicores as nat);
    lemma_counted(vars, "PUT_MAX_ACTIVE_STREAMS"@, puts as usize);
    lemma_counted(vars, "PUT_MAX_STREAMS_PER_UPLOAD"@, at_most(puts, 4) as usize);
    lemma_counted(vars, "PUT_SCHEDULER_RESERVED_SLOTS"@, reserved_slots_of(puts) as usize);
    lemma_counted(vars, "READ_MAX_ACTIVE_STREAMS"@, reads as usize);
    lemma_counted(vars, "READ_MAX_STREAMS_PER_OPERATION"@, at_most(reads, 8) as usize);
    lemma_counted(vars, "READ_SCHEDULER_RESERVED_SLOTS"@, reserved_slots_of(reads) as usize);
}

proof fn lemma_counted(vars: Seq<(Seq<char>, Seq<char>)>, key: Seq<char>, default: usize)
    ensures
        count_auto_of(vars, key, default) matches Ok(value) ==> is_counted_or_auto(
            vars,
            key,
            default as int,
            value as int,
        ),
{
    crate::env::law_settings_are_read(vars, key, default, false, Seq::empty());
}

proof fn lemma_read(
    vars: Seq<(Seq<char>, Seq<char>)>,
    key: Seq<char>,
    number: usize,
    truth: bool,
    text: Seq<char>,
)
    ensures
        count_of(vars, key, number) matches Ok(value) ==> is_counted(
            vars,
            key,
            number as int,
            value as int,
        ),
        usize_of(vars, key, number) matches Ok(value) ==> is_sized(
            vars,
            key,
            number as int,
            value as int,
        ),
        is_switched(vars, key, truth, bool_of(vars, key, truth)),
        is_worded(vars, key, text, string_of_env(vars, key, text)),
        is_worded_or_none(vars, key, optional_string_of(vars, key)),
        optional_u64_of(vars, key) matches Ok(value) ==> is_sized_or_none(vars, key, value),
{
    crate::env::law_settings_are_read(vars, key, number, truth, text);
}

/// Each setting of the files is read from its own variable. Whatever is set, the parts of an upload
/// to the object store have at least five mebibytes, and no count is zero.
pub proof fn law_parquet_settings(vars: Seq<(Seq<char>, Seq<char>)>, tuning: ParquetTuning)
    requires
        parquet_error(vars) is None,
        is_parquet(vars, tuning),
    ensures
        is_worded(vars, "PARQUET_COMPRESSION"@, "uncompressed"@, tuning.compression_name@),
        compression_of(tuning.compression_name@) == Ok::<Compression, Seq<Seq<char>>>(
            tuning.compression,
        ),
        is_switched(vars, "PARQUET_DICTIONARY"@, false, tuning.dictionary_enabled),
        is_sized(
            vars,
            "PARQUET_MAX_ROW_GROUP_ROWS"@,
            1_048_576,
            tuning.max_row_group_rows as int,
        ),
        is_sized(vars, "PARQUET_WRITE_BATCH_SIZE"@, 65_536, tuning.write_batch_size as int),
        is_sized(
            vars,
            "PARQUET_DATA_PAGE_SIZE_LIMIT"@,
            1_048_576,
            tuning.data_page_size_limit as int,
        ),
        is_sized(
            vars,
            "PARQUET_FLUSH_THRESHOLD_BYTES"@,
            0x1000_0000,
            tuning.flush_threshold_bytes as int,
        ),
        tuning.multipart_part_size >= 0x50_0000,
        tuning.multipart_part_size > 0x50_0000 ==> is_sized(
            vars,
            "S3_MULTIPART_PART_SIZE"@,
            0x400_0000,
            tuning.multipart_part_size as int,
        ),
        tuning.multipart_max_concurrency >= 1,
        tuning.multipart_max_concurrency > 1 ==> is_sized(
            vars,
            "S3_MULTIPART_MAX_CONCURRENCY"@,
            16,
            tuning.multipart_max_concurrency as int,
        ),
        tuning.put_parallelism >= 1,
        tuning.put_parallelism > 1 ==> is_sized(
            vars,
            "PUT_PARALLELISM"@,
            4,
            tuning.put_parallelism as int,
        ),
        tuning.put_queue_depth >= 1,
        tuning.put_queue_depth > 1 ==> is_sized(
            vars,
            "PUT_QUEUE_DEPTH"@,
            2,
            tuning.put_queue_depth as int,
        ),
        var_of(vars, "S3_MULTIPART_PART_SIZE"@) is None ==> tuning.multipart_part_size
            == 0x400_0000,
        var_of(vars, "S3_MULTIPART_MAX_CONCURRENCY"@) is None ==> tuning.multipart_max_concurrency
            == 16,
        var_of(vars, "PUT_PARALLELISM"@) is None ==> tuning.put_parallelism == 4,
        var_of(vars, "PUT_QUEUE_DEPTH"@) is None ==> tuning.put_queue_depth == 2,
{
    lemma_read(vars, "PARQUET_COMPRESSION"@, 0, false, "uncompressed"@);
    lemma_read(vars, "PARQUET_DICTIONARY"@, 0, false, Seq::empty());
    lemma_read(vars, "PARQUET_MAX_ROW_GROUP_ROWS"@, 1_048_576, false, Seq::empty());
    lemma_read(vars, "PARQUET_WRITE_BATCH_SIZE"@, 65_536, false, Seq::empty());
    lemma_read(vars, "PARQUET_DATA_PAGE_SIZE_LIMIT"@, 1_048_576, false, Seq::empty());
    lemma_read(vars, "PARQUET_FLUSH_THRESHOLD_BYTES"@, 268_435_456, false, Seq::empty());
    lemma_read(vars, "S3_MULTIPART_PART_SIZE"@, 67_108_864, false, Seq::empty());
    lemma_read(vars, "S3_MULTIPART_MAX_CONCURRENCY"@, 16, false, Seq::empty());
    lemma_read(vars, "PUT_PARALLELISM"@, 4, false, Seq::empty());
    lemma_read(vars, "PUT_QUEUE_DEPTH"@, 2, false, Seq::empty());
}

/// The object store, the database and the metrics endpoint are reached as their variables say, each
/// from its own.
pub proof fn law_connection_settings(
    vars: Seq<(Seq<char>, Seq<char>)>,
    s3: S3Config,
    metadata: MetadataConfig,
    metrics: MetricsConfig,
)
    requires
        is_s3(vars, s3),
        is_metadata(vars, metadata),
        is_metrics(vars, metrics),
    ensures
        is_worded(vars, "S3_ENDPOINT"@, "http://127.0.0.1:9000"@, s3.endpoint@),
        is_worded(vars, "S3_BUCKET"@, "arrow-flight"@, s3.bucket@),
        is_worded(vars, "S3_REGION"@, "us-east-1"@, s3.region@),
        is_worded(vars, "AWS_ACCESS_KEY_ID"@, "minioadmin"@, s3.access_key_id@),
        is_worded(vars, "AWS_SECRET_ACCESS_KEY"@, "minioadmin"@, s3.secret_access_key@),
        is_switched(vars, "AWS_ALLOW_HTTP"@, true, s3.allow_http),
        is_worded_or_none(vars, "METADATA_DATABASE_URL"@, opt_text(metadata.database_url)),
        is_switched(vars, "METADATA_DB_AUTO_MIGRATE"@, false, metadata.auto_migrate),
        is_switched(vars, "METRICS_ENABLED"@, true, metrics.enabled),
        is_worded(vars, "METRICS_ADDR"@, "0.0.0.0:9090"@, metrics.addr@),
{
}

/// A worker that requires signatures has a secret to check them with, and binds capabilities to
/// itself unless it is told not to; one that requires none does not bind them unless it is told to.
/// The secret has no white space around it, and capabilities live an hour unless set otherwise.
pub proof fn law_security_settings(vars: Seq<(Seq<char>, Seq<char>)>, security: SecurityConfig)
    requires
        security_error(vars) is None,
        is_security(vars, security),
    ensures
        is_switched(
            vars,
            "WORKER_REQUIRE_SIGNED_CAPABILITIES"@,
            false,
            security.require_signed_capabilities,
        ),
        is_worded_or_none(vars, "WORKER_CAPABILITY_SECRET"@, opt_text(security.capability_secret)),
        security.require_signed_capabilities ==> security.capability_secret is Some
            && security.capability_secret->0@.len() > 0,
        is_switched(
            vars,
            "WORKER_REQUIRE_CAPABILITY_WORKER_ID"@,
            security.require_signed_capabilities,
            security.require_capability_worker_binding,
        ),
        is_sized(
            vars,
            "WORKER_CAPABILITY_MAX_TTL_MS"@,
            3_600_000,
            security.max_capability_ttl_ms as int,
        ),
{
    lemma_read(vars, "WORKER_CAPABILITY_MAX_TTL_MS"@, 3_600_000, false, Seq::empty());
    lemma_read(vars, "WORKER_CAPABILITY_SECRET"@, 0, false, Seq::empty());
}

/// A server speaks TLS where it is told to, and, where it is told nothing, exactly where it has a
/// certificate or a key. One that speaks TLS has both. The variables of the Flight server go before
/// those of the worker.
pub proof fn law_tls_settings(vars: Seq<(Seq<char>, Seq<char>)>, tls: FlightTlsConfig)
    requires
        tls_error(vars) is None,
        is_tls(vars, tls),
    ensures
        tls.enabled ==> tls.cert_path is Some && tls.key_path is Some,
        optional_string_of(vars, "FLIGHT_TLS_ENABLED"@) is None ==> (tls.enabled
            <==> tls.cert_path is Some || tls.key_path is Some),
        optional_string_of(vars, "FLIGHT_TLS_ENABLED"@) is Some ==> is_switched(
            vars,
            "FLIGHT_TLS_ENABLED"@,
            false,
            tls.enabled,
        ),
        optional_string_of(vars, "FLIGHT_TLS_CERT_PATH"@) is Some ==> opt_text(tls.cert_path)
            == optional_string_of(vars, "FLIGHT_TLS_CERT_PATH"@),
        optional_string_of(vars, "FLIGHT_TLS_CERT_PATH"@) is None ==> opt_text(tls.cert_path)
            == optional_string_of(vars, "WORKER_TLS_CERT_PATH"@),
        optional_string_of(vars, "FLIGHT_TLS_KEY_PATH"@) is Some ==> opt_text(tls.key_path)
            == optional_string_of(vars, "FLIGHT_TLS_KEY_PATH"@),
        optional_string_of(vars, "FLIGHT_TLS_KEY_PATH"@) is None ==> opt_text(tls.key_path)
            == optional_string_of(vars, "WORKER_TLS_KEY_PATH"@),
{
    crate::text::law_trim(
        match var_of(vars, "FLIGHT_TLS_ENABLED"@) {
            Some(text) => text,
            None => Seq::empty(),
        },
    );
}

/// A compression has the names that it is known by, in any letter case and with any white space
/// around them.
pub proof fn law_compression_names(value: Seq<char>)
    ensures
        ({
            let name = ascii_lower_of(trim_of(value));
            &&& compression_of(value) == Ok::<Compression, Seq<Seq<char>>>(
                Compression::Uncompressed,
            ) <==> name == "none"@ || name == "uncompressed"@
            &&& compression_of(value) == Ok::<Compression, Seq<Seq<char>>>(Compression::Snappy)
                <==> name == "snappy"@
            &&& compression_of(value) == Ok::<Compression, Seq<Seq<char>>>(Compression::Lz4Raw)
                <==> name == "lz4_raw"@ || name == "lz4raw"@
        }),
{
    reveal_strlit("none");
    reveal_strlit("uncompressed");
    reveal_strlit("snappy");
    reveal_strlit("lz4_raw");
    reveal_strlit("lz4raw");
    assert("snappy"@[0] != "lz4raw"@[0]);
    assert("none"@.len() == 4 && "uncompressed"@.len() == 12);
    assert("lz4_raw"@.len() == 7 && "snappy"@.len() == 6);
}

/// The memory budgets of a worker: what is set for one counts, as far as it is usable and at least
/// 64 mebibytes, and else a share of what is usable. What is usable is what is left of the worker's
/// memory beside its reserve, which is a fifth unless set otherwise.
pub proof fn law_memory_budgets(
    vars: Seq<(Seq<char>, Seq<char>)>,
    worker: WorkerConfig,
    read_batch_size: usize,
    flavor: WorkerFlavor,
)
    requires
        flavor.memory_bytes >= 0x2000_0000,
        resource_error(vars, read_batch_size) is None,
    ensures
        ({
            let config = resources_of(vars, worker, read_batch_size, flavor);
            let memory = flavor.memory_bytes as int;
            let usable = memory - config.reserved_memory_bytes;
            let reserve = optional_u64_of(vars, "WORKER_RESERVED_MEMORY_BYTES"@)->Ok_0;
            let put_set = optional_u64_of(vars, "PUT_MEMORY_BUDGET_BYTES"@)->Ok_0;
            let read_set = optional_u64_of(vars, "READ_MEMORY_BUDGET_BYTES"@)->Ok_0;
            let put_percent = percent_of_env(vars, "PUT_MEMORY_PERCENT"@, 55)->Ok_0 as int;
            let read_percent = percent_of_env(vars, "READ_MEMORY_PERCENT"@, 30)->Ok_0 as int;
            &&& config.worker_memory_bytes == flavor.memory_bytes
            &&& config.worker_cpu_millicores == flavor.cpu_millicores
            &&& reserve matches Some(bytes) ==> bytes <= memory - 0x1000_0000
                ==> config.reserved_memory_bytes == bytes
            &&& reserve is None && memory >= 0xa000_0000 ==> config.reserved_memory_bytes
                == memory / 5
            &&& put_set matches Some(bytes) ==> 0x400_0000 <= bytes <= usable
                ==> config.put_memory_bytes == bytes
            &&& read_set matches Some(bytes) ==> 0x400_0000 <= bytes <= usable
                ==> config.read_memory_bytes == bytes
            &&& put_set is None && usable * put_percent >= 0x400_0000 * 100
                ==> config.put_memory_bytes * 100 <= usable * put_percent < (
            config.put_memory_bytes + 1) * 100
            &&& read_set is None && usable * read_percent >= 0x400_0000 * 100
                ==> config.read_memory_bytes * 100 <= usable * read_percent < (
            config.read_memory_bytes + 1) * 100
        }),
{
    let memory = flavor.memory_bytes as int;
    let usable = usable_memory_of(vars, memory);
    crate::env::law_percentages(vars, "PUT_MEMORY_PERCENT"@, 55);
    crate::env::law_percentages(vars, "READ_MEMORY_PERCENT"@, 30);
    let put_percent = percent_of_env(vars, "PUT_MEMORY_PERCENT"@, 55)->Ok_0;
    let read_percent = percent_of_env(vars, "READ_MEMORY_PERCENT"@, 30)->Ok_0;
    assert(usable == memory - reserved_memory_of(vars, memory));
    law_shares(usable as u64, put_percent as nat);
    law_shares(usable as u64, read_percent as nat);
}

/// The limits of one stream and of one batch: what is set for them counts, a batch never above its
/// stream; what is not set follows from the budget of its kind. Writes and reads are set apart.
pub proof fn law_stream_limits(
    vars: Seq<(Seq<char>, Seq<char>)>,
    worker: WorkerConfig,
    read_batch_size: usize,
    flavor: WorkerFlavor,
)
    requires
        resource_error(vars, read_batch_size) is None,
        worker.max_active_put_streams >= 1 && worker.max_put_streams_per_upload >= 1,
        worker.max_active_read_streams >= 1 && worker.max_read_streams_per_operation >= 1,
    ensures
        ({
            let config = resources_of(vars, worker, read_batch_size, flavor);
            let put_stream = optional_u64_of(vars, "PUT_MAX_STREAM_MEMORY_BYTES"@)->Ok_0;
            let put_batch = optional_u64_of(vars, "PUT_MAX_RECORD_BATCH_BYTES"@)->Ok_0;
            let read_stream = optional_u64_of(vars, "READ_MAX_STREAM_MEMORY_BYTES"@)->Ok_0;
            let read_batch = optional_u64_of(vars, "READ_MAX_RECORD_BATCH_BYTES"@)->Ok_0;
            &&& put_stream matches Some(bytes) ==> bytes >= 1
                ==> config.put_max_stream_memory_bytes == bytes
            &&& put_stream is None ==> config.put_max_stream_memory_bytes
                <= config.put_memory_bytes && config.put_max_stream_memory_bytes <= 0x8000_0000
            &&& put_batch matches Some(bytes) ==> 1 <= bytes <= config.put_max_stream_memory_bytes
                ==> config.put_max_record_batch_bytes == bytes
            &&& put_batch is None ==> config.put_max_record_batch_bytes <= 0x2000_0000
            &&& read_stream matches Some(bytes) ==> bytes >= 1
                ==> config.read_max_stream_memory_bytes == bytes
            &&& read_stream is None ==> config.read_max_stream_memory_bytes
                <= config.read_memory_bytes && config.read_max_stream_memory_bytes <= 0x4000_0000
            &&& read_batch matches Some(bytes) ==> 1 <= bytes <= config.read_max_stream_memory_bytes
                ==> config.read_max_record_batch_bytes == bytes
            &&& read_batch is None ==> config.read_max_record_batch_bytes <= 0x1000_0000
            &&& put_batch is None && 0x200_0000 <= config.put_max_stream_memory_bytes
                <= 0x4000_0000 ==> config.put_max_record_batch_bytes
                == config.put_max_stream_memory_bytes / 2
            &&& read_batch is None && 0x200_0000 <= config.read_max_stream_memory_bytes
                <= 0x2000_0000 ==> config.read_max_record_batch_bytes
                == config.read_max_stream_memory_bytes / 2
            &&& config.read_max_batch_rows > 1 ==> is_sized(
                vars,
                "READ_MAX_BATCH_ROWS"@,
                if read_batch_size >= 1_048_576 {
                    read_batch_size as int
                } else {
                    1_048_576
                },
                config.read_max_batch_rows as int,
            )
        }),
{
    law_memory_limits(vars, worker, read_batch_size, flavor);
    let config = resources_of(vars, worker, read_batch_size, flavor);
    law_stream_memory(
        config.put_memory_bytes as int,
        worker.max_active_put_streams as int,
        worker.max_put_streams_per_upload as int,
        256 * MIB,
        2 * GIB,
    );
    law_stream_memory(
        config.read_memory_bytes as int,
        worker.max_active_read_streams as int,
        worker.max_read_streams_per_operation as int,
        128 * MIB,
        GIB as int,
    );
    lemma_read(
        vars,
        "READ_MAX_BATCH_ROWS"@,
        at_least(read_batch_size as int, 1_048_576) as usize,
        false,
        Seq::empty(),
    );
}

/// The server listens and sizes its messages as its own variables say, and the client settings are
/// read from the same variables, with the same defaults.
pub proof fn law_message_settings(
    vars: Seq<(Seq<char>, Seq<char>)>,
    host: HostProbe,
    config: AppConfig,
    bench: BenchConfig,
)
    requires
        app_error(vars, host) is None,
        is_app(vars, host, config),
        is_bench(vars, bench),
    ensures
        is_worded(vars, "FLIGHT_ADDR"@, "0.0.0.0:50051"@, config.flight_addr@),
        is_sized(
            vars,
            "FLIGHT_MAX_MESSAGE_SIZE"@,
            0x1000_0000,
            config.flight_max_message_size as int,
        ),
        is_sized(
            vars,
            "FLIGHT_DATA_CHUNK_SIZE"@,
            0x100_0000,
            config.flight_data_chunk_size as int,
        ),
        is_sized(vars, "READ_BATCH_SIZE"@, 65_536, config.read_batch_size as int),
        is_worded(vars, "FLIGHT_URI"@, "grpc+tcp://127.0.0.1:50051"@, bench.uri@),
        bench.max_message_size == config.flight_max_message_size,
        bench.flight_data_chunk_size == config.flight_data_chunk_size,
        config.security.require_signed_capabilities ==> config.security.capability_secret is Some,
        config.flight_tls.enabled ==> config.flight_tls.cert_path is Some
            && config.flight_tls.key_path is Some,
        config.resources.put_max_record_batch_bytes
            <= config.resources.put_max_stream_memory_bytes,
        host.flight_addr_parses && host.metrics_addr_parses,
{
    lemma_read(vars, "FLIGHT_MAX_MESSAGE_SIZE"@, 0x1000_0000, false, Seq::empty());
    lemma_read(vars, "FLIGHT_DATA_CHUNK_SIZE"@, 0x100_0000, false, Seq::empty());
    lemma_read(vars, "READ_BATCH_SIZE"@, 65_536, false, Seq::empty());
    law_tls_settings(vars, config.flight_tls);
    law_security_settings(vars, config.security);
    law_memory_limits(vars, config.worker, config.read_batch_size, flavor_of(vars, host));
}

}
