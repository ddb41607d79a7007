use arrow_flight_worker::admission::UploadStreams;
use arrow_flight_worker::resource::{
    permit_request, units_for, PermitOutcome, PermitRequest, ResourceLimiter, ResourcePermit,
    MEMORY_UNIT_BYTES,
};
use arrow_flight_worker::status::Code;

#[test]
fn memory_is_counted_in_units() {
    assert_eq!(units_for(0), 1);
    assert_eq!(units_for(MEMORY_UNIT_BYTES), 1);
    assert_eq!(units_for(MEMORY_UNIT_BYTES + 1), 2);
    assert_eq!(units_for(u64::MAX), u32::MAX);
}

#[test]
fn a_release_undoes_a_reservation() {
    let mut limiter = ResourceLimiter::new(10 * MEMORY_UNIT_BYTES);
    assert_eq!(limiter.total_bytes(), 10 * MEMORY_UNIT_BYTES);
    let bytes = 3 * MEMORY_UNIT_BYTES;
    let permit = limiter.reserve(bytes, "DoPut", PermitOutcome::Acquired).unwrap();
    assert_eq!(permit.units, 3);
    assert_eq!(limiter.active_bytes(), bytes);
    assert_eq!(limiter.available_bytes(), 7 * MEMORY_UNIT_BYTES);
    assert_eq!(limiter.available_streams(2 * MEMORY_UNIT_BYTES), 3);
    assert_eq!(limiter.available_streams(0), (7 * MEMORY_UNIT_BYTES) as usize);
    limiter.release(permit);
    assert_eq!(limiter.active_bytes(), 0);
}

#[test]
fn a_reservation_is_at_most_the_whole_budget() {
    let limiter = ResourceLimiter::new(2 * MEMORY_UNIT_BYTES);
    assert_eq!(limiter.reserve_units(u64::MAX), 2);
    assert_eq!(limiter.reserve_units(0), 1);
}

#[test]
fn refused_reservations_are_explained() {
    let mut limiter = ResourceLimiter::new(4 * MEMORY_UNIT_BYTES);
    let none = limiter.reserve(1, "DoGet", PermitOutcome::NoPermits).unwrap_err();
    assert_eq!(none.code, Code::ResourceExhausted);
    assert_eq!(
        none.message,
        "DoGet worker has no free memory budget; requested_bytes=1048576"
    );
    let late = limiter.reserve(1, "DoPut", PermitOutcome::TimedOut).unwrap_err();
    assert_eq!(late.code, Code::ResourceExhausted);
    assert_eq!(late.message, "timed out waiting for DoPut memory budget");
    let closed = PermitOutcome::Closed("semaphore closed".to_owned());
    let closed = limiter.reserve(1, "DoPut", closed).unwrap_err();
    assert_eq!(closed.code, Code::Internal);
    assert_eq!(closed.message, "semaphore closed");
    assert_eq!(limiter.active_bytes(), 0);
    limiter.release(ResourcePermit { units: 0 });
    assert_eq!(limiter.active_bytes(), 0);
}

#[test]
fn waiting_is_asked_for_in_milliseconds() {
    assert!(matches!(permit_request(0), PermitRequest::Immediate));
    assert!(matches!(permit_request(5), PermitRequest::Within(5)));
}

#[test]
fn uploads_keep_to_their_limit() {
    let mut streams = UploadStreams::new();
    assert_eq!(streams.take("a", 2).unwrap(), 1);
    assert_eq!(streams.take("a", 2).unwrap(), 2);
    assert_eq!(streams.take("b\"", 1).unwrap(), 1);
    let refused = streams.take("b\"", 1).unwrap_err();
    assert_eq!(refused.code, Code::ResourceExhausted);
    assert_eq!(refused.message, "upload \"b\\\"\" has no free stream slots; active=1, limit=1");
    assert!(streams.take("a", 2).is_err());
    streams.release("a");
    assert_eq!(streams.active("a"), 1);
    streams.release("a");
    assert_eq!(streams.active("a"), 0);
    assert_eq!(streams.entries.len(), 1);
    streams.release("missing");
    assert_eq!(streams.active("b\""), 1);
}
