use arrow_flight_worker::worker_status::{
    WorkerCapacity, WorkerSaturation, WorkerSchedulingPolicy, WorkerSchedulingSignal,
    WorkerSchedulingTelemetry, WorkerState, WorkerWriterCapacity,
};

fn capacity(active: usize, limit: usize) -> WorkerCapacity {
    WorkerCapacity {
        limit,
        active,
        available: limit.saturating_sub(active),
        slot_wait_ms: 30_000,
    }
}

#[test]
fn recommends_streams_from_available_slots_and_operation_cap() {
    let signal = WorkerSchedulingSignal::from_capacity(
        &capacity(2, 16),
        WorkerSchedulingPolicy {
            max_streams_per_operation: 6,
            reserved_slots: 0,
            memory_available_streams: None,
        },
        WorkerSchedulingTelemetry::default(),
        false,
    );

    assert_eq!(signal.recommended_streams, 6);
    assert_eq!(signal.soft_available_slots, 14);
    assert_eq!(signal.saturation, WorkerSaturation::Available);
    assert!(signal.selection_score > 0);
}

#[test]
fn keeps_reserved_slots_out_of_coordinator_grants() {
    let signal = WorkerSchedulingSignal::from_capacity(
        &capacity(13, 16),
        WorkerSchedulingPolicy {
            max_streams_per_operation: 8,
            reserved_slots: 2,
            memory_available_streams: None,
        },
        WorkerSchedulingTelemetry::default(),
        false,
    );

    assert_eq!(signal.recommended_streams, 1);
    assert_eq!(signal.soft_available_slots, 1);
    assert_eq!(signal.saturation, WorkerSaturation::Busy);
}

#[test]
fn stops_grants_when_draining_or_saturated() {
    let draining = WorkerSchedulingSignal::from_capacity(
        &capacity(0, 16),
        WorkerSchedulingPolicy {
            max_streams_per_operation: 8,
            reserved_slots: 0,
            memory_available_streams: None,
        },
        WorkerSchedulingTelemetry::default(),
        true,
    );
    let saturated = WorkerSchedulingSignal::from_capacity(
        &capacity(16, 16),
        WorkerSchedulingPolicy {
            max_streams_per_operation: 8,
            reserved_slots: 0,
            memory_available_streams: None,
        },
        WorkerSchedulingTelemetry::default(),
        false,
    );

    assert_eq!(draining.recommended_streams, 0);
    assert_eq!(draining.saturation, WorkerSaturation::Disabled);
    assert_eq!(saturated.recommended_streams, 0);
    assert_eq!(saturated.saturation, WorkerSaturation::Saturated);
}

#[test]
fn limits_recommendation_by_available_memory() {
    let signal = WorkerSchedulingSignal::from_capacity(
        &capacity(1, 16),
        WorkerSchedulingPolicy {
            max_streams_per_operation: 8,
            reserved_slots: 0,
            memory_available_streams: Some(3),
        },
        WorkerSchedulingTelemetry::default(),
        false,
    );

    assert_eq!(signal.recommended_streams, 3);
    assert_eq!(signal.soft_available_slots, 3);
    assert_eq!(signal.memory_available_streams, 3);
    assert_eq!(signal.saturation, WorkerSaturation::Available);
}

#[test]
fn waiting_and_failures_lower_the_score() {
    let policy = WorkerSchedulingPolicy {
        max_streams_per_operation: 4,
        reserved_slots: 0,
        memory_available_streams: None,
    };
    let telemetry = WorkerSchedulingTelemetry {
        succeeded_total: 3,
        failed_total: 1,
        rejected_total: 0,
        cancelled_total: 0,
        admission_wait_ms_ewma: 100,
    };
    let signal =
        WorkerSchedulingSignal::from_capacity(&capacity(4, 8), policy, telemetry, false);
    // 4 of 8 slots: 5000, less 10 for the wait, 500 for failures, 500 for utilization.
    assert_eq!(signal.selection_score, 3990);
    assert_eq!(signal.utilization_per_mille, 500);
}

#[test]
fn names_worker_states() {
    assert_eq!(WorkerState::Active.as_str(), "ACTIVE");
    assert_eq!(WorkerState::Draining.as_str(), "DRAINING");
}

#[test]
fn writers_of_a_worker() {
    let writers = WorkerWriterCapacity::of(3, 4, 5);
    assert_eq!((writers.limit, writers.active, writers.available), (12, 5, 7));
    let writers = WorkerWriterCapacity::of(0, 4, 5);
    assert_eq!((writers.limit, writers.active, writers.available), (4, 5, 0));
    assert_eq!(WorkerWriterCapacity::of(usize::MAX, 2, 0).limit, usize::MAX);
}
