//! Starting and stopping a worker.

use vstd::prelude::*;

use crate::config::FlightTlsConfig;
use crate::error::ErrorChain;
use crate::flight_service::WorkerFlightService;
use crate::number::{decimal, decimal_of};
use crate::text::opt_text;

verus! {

/// The files of a server's identity: none where it does not speak TLS.
pub open spec fn tls_files_of(config: FlightTlsConfig) -> Result<
    Option<(Seq<char>, Seq<char>)>,
    Seq<Seq<char>>,
> {
    if !config.enabled {
        Ok(None)
    } else {
        match (opt_text(config.cert_path), opt_text(config.key_path)) {
            (None, _) => Err(
                seq!["FLIGHT_TLS_CERT_PATH must be set when Flight TLS is enabled"@],
            ),
            (_, None) => Err(seq!["FLIGHT_TLS_KEY_PATH must be set when Flight TLS is enabled"@]),
            (Some(cert), Some(key)) => Ok(Some((cert, key))),
        }
    }
}

/// The files of a server's identity: certificate and key.
pub fn tls_files(config: &FlightTlsConfig) -> (r: Result<Option<(String, String)>, ErrorChain>)
    ensures
        match tls_files_of(*config) {
            Ok(None) => r matches Ok(None),
            Ok(Some((cert, key))) => r matches Ok(Some(files)) && files.0@ == cert && files.1@
                == key,
            Err(messages) => r matches Err(error) && error@ == messages,
        },
{
    if !config.enabled {
        return Ok(None);
    }
    let cert = match &config.cert_path {
        Some(path) => path,
        None => return Err(
            ErrorChain::new(
                "FLIGHT_TLS_CERT_PATH must be set when Flight TLS is enabled".to_owned(),
            ),
        ),
    };
    let key = match &config.key_path {
        Some(path) => path,
        None => return Err(
            ErrorChain::new(
                "FLIGHT_TLS_KEY_PATH must be set when Flight TLS is enabled".to_owned(),
            ),
        ),
    };
    Ok(Some((cert.clone(), key.clone())))
}

/// How often a worker announces itself in milliseconds: never without a registry, or where the
/// interval is zero.
pub open spec fn heartbeat_interval_of(has_registry: bool, interval_ms: u64) -> Option<u64> {
    if has_registry && interval_ms > 0 {
        Some(interval_ms)
    } else {
        None
    }
}

/// How often a worker announces itself in milliseconds: never without a registry, or where the
/// interval is zero.
pub fn heartbeat_interval(has_registry: bool, interval_ms: u64) -> (r: Option<u64>)
    ensures
        r == heartbeat_interval_of(has_registry, interval_ms),
{
    if has_registry && interval_ms > 0 {
        Some(interval_ms)
    } else {
        None
    }
}

impl WorkerFlightService {
    /// The service once it drains.
    pub open spec fn while_draining(self) -> WorkerFlightService {
        WorkerFlightService { draining: true, ..self }
    }

    /// From now on, new streams are refused.
    pub fn begin_draining(&mut self)
        ensures
            *final(self) == old(self).while_draining(),
    {
        self.draining = true;
    }
}

/// How long the streams of a worker may take to finish once it shuts down, in milliseconds.
pub const SHUTDOWN_GRACE_MS: u64 = 30_000;

/// What is told of a shutdown that left streams behind.
pub open spec fn shutdown_text_of(
    grace_ms: u64,
    active_puts: usize,
    active_reads: usize,
) -> Seq<char> {
    "worker shutdown exceeded "@ + decimal_of(grace_ms as nat) + "ms grace period with "@
        + decimal_of(active_puts as nat) + " active DoPut and "@ + decimal_of(active_reads as nat)
        + " active DoGet streams"@
}

/// What a worker ends with whose streams did not finish in time.
pub fn shutdown_timed_out(grace_ms: u64, active_puts: usize, active_reads: usize) -> (r: ErrorChain)
    ensures
        r@ == seq![shutdown_text_of(grace_ms, active_puts, active_reads)],
{
    let mut message = "worker shutdown exceeded ".to_owned();
    message.append(decimal(grace_ms as u128).as_str());
    message.append("ms grace period with ");
    message.append(decimal(active_puts as u128).as_str());
    message.append(" active DoPut and ");
    message.append(decimal(active_reads as u128).as_str());
    message.append(" active DoGet streams");
    ErrorChain::new(message)
}

/// A worker announces itself exactly where it has a registry and an interval, and then at that
/// interval.
pub proof fn law_heartbeats(has_registry: bool, interval_ms: u64)
    ensures
        heartbeat_interval_of(has_registry, interval_ms) is Some <==> has_registry && interval_ms
            != 0,
        heartbeat_interval_of(has_registry, interval_ms) matches Some(every) ==> every
            == interval_ms,
{
}

/// A server that speaks TLS has its certificate and its key, each from its own path, and one that
/// does not needs neither.
pub proof fn law_identity_files(config: FlightTlsConfig)
    ensures
        !config.enabled ==> tls_files_of(config) == Ok::<
            Option<(Seq<char>, Seq<char>)>,
            Seq<Seq<char>>,
        >(None),
        config.enabled ==> (tls_files_of(config) is Ok <==> config.cert_path is Some
            && config.key_path is Some),
        config.enabled ==> (tls_files_of(config) matches Ok(files) ==> {
            &&& files is Some
            &&& (files->0).0 == config.cert_path->0@
            &&& (files->0).1 == config.key_path->0@
        }),
{
}

/// A service that drains says so and has changed in nothing else: what is active stays active.
pub proof fn law_draining_only_stops_new_streams(service: WorkerFlightService)
    ensures
        service.while_draining().draining,
        service.draining ==> service.while_draining() == service,
        service.while_draining().active_put_streams == service.active_put_streams,
        service.while_draining().active_read_streams == service.active_read_streams,
        service.while_draining().put_memory == service.put_memory,
        service.while_draining().read_memory == service.read_memory,
        service.while_draining().upload_streams == service.upload_streams,
        service.while_draining().config == service.config,
{
}

/// What is told of a shutdown that took too long names the writes behind `DoPut` and the reads
/// behind `DoGet`.
pub proof fn law_shutdown_text(grace_ms: u64, active_puts: usize, active_reads: usize)
    ensures
        exists|front: Seq<char>|
            shutdown_text_of(grace_ms, active_puts, active_reads) == #[trigger] (front
                + "ms grace period with "@) + (decimal_of(active_puts as nat)
                + " active DoPut and "@ + decimal_of(active_reads as nat)
                + " active DoGet streams"@),
{
    let front = "worker shutdown exceeded "@ + decimal_of(grace_ms as nat);
    let back = decimal_of(active_puts as nat) + " active DoPut and "@ + decimal_of(
        active_reads as nat,
    ) + " active DoGet streams"@;
    assert(shutdown_text_of(grace_ms, active_puts, active_reads) == (front
        + "ms grace period with "@) + back);
}

}
