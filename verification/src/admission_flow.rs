//! The course of an admission: what a stream asks for, in which order, and what it is refused for.

use vstd::prelude::*;

use crate::flight_service::{
    draining_refusal, limit_refusal, slot_refusal, WorkerFlightService,
};
use crate::put_model::PutContext;
use crate::resource::PermitOutcome;
use crate::status::{either_refusal, Status, StatusView};

verus! {

/// Where an admission stands.
#[derive(Clone, Copy, Debug, PartialEq, Eq, Structural)]
pub enum AdmissionStage {
    /// It is asked whether the worker takes new streams.
    Draining,
    /// A slot is asked for.
    Slot,
    /// Memory is asked for.
    Memory,
    /// A place is asked for, within the limit of the upload.
    Place,
    /// The stream was admitted or refused.
    Done,
}

/// What has to be done next for an admission.
#[derive(Debug)]
pub enum AdmissionAction {
    TakeSlot,
    TakeMemory,
    TakePlace,
    /// The stream holds all that it needs.
    Admitted,
    Refuse(Status),
}

/// The course of one admission.
#[derive(Debug)]
pub struct AdmissionFlow {
    pub stage: AdmissionStage,
}

/// The stage after one whose step went well.
pub open spec fn stage_behind(stage: AdmissionStage) -> AdmissionStage {
    match stage {
        AdmissionStage::Draining => AdmissionStage::Slot,
        AdmissionStage::Slot => AdmissionStage::Memory,
        AdmissionStage::Memory => AdmissionStage::Place,
        AdmissionStage::Place => AdmissionStage::Done,
        AdmissionStage::Done => AdmissionStage::Done,
    }
}

/// Whether an action is the one of a stage that was reached without a refusal.
pub open spec fn is_step_of(action: AdmissionAction, stage: AdmissionStage) -> bool {
    match stage {
        AdmissionStage::Draining => false,
        AdmissionStage::Slot => action is TakeSlot,
        AdmissionStage::Memory => action is TakeMemory,
        AdmissionStage::Place => action is TakePlace,
        AdmissionStage::Done => action is Admitted,
    }
}

impl AdmissionFlow {
    /// An admission of which nothing was asked yet.
    pub fn new() -> (r: AdmissionFlow)
        ensures
            r.stage == AdmissionStage::Draining,
    {
        AdmissionFlow { stage: AdmissionStage::Draining }
    }

    /// Takes the result of the step that the current stage stands for, and tells the next one. The
    /// first refusal ends the admission.
    pub fn advance(&mut self, result: Result<(), Status>) -> (r: AdmissionAction)
        requires
            old(self).stage != AdmissionStage::Done,
        ensures
            match result {
                Ok(_) => final(self).stage == stage_behind(old(self).stage) && is_step_of(
                    r,
                    final(self).stage,
                ),
                Err(status) => final(self).stage == AdmissionStage::Done && (
                r matches AdmissionAction::Refuse(refusal) && refusal == status),
            },
    {
        let status = match result {
            Ok(_) => {
                return match self.stage {
                    AdmissionStage::Draining => {
                        self.stage = AdmissionStage::Slot;
                        AdmissionAction::TakeSlot
                    },
                    AdmissionStage::Slot => {
                        self.stage = AdmissionStage::Memory;
                        AdmissionAction::TakeMemory
                    },
                    AdmissionStage::Memory => {
                        self.stage = AdmissionStage::Place;
                        AdmissionAction::TakePlace
                    },
                    _ => {
                        self.stage = AdmissionStage::Done;
                        AdmissionAction::Admitted
                    },
                };
            },
            Err(status) => status,
        };
        self.stage = AdmissionStage::Done;
        AdmissionAction::Refuse(status)
    }
}

/// What an admission in a stage is refused for, where its next steps come to `refusals`; none where
/// it is not refused.
pub open spec fn answer_from(stage: AdmissionStage, refusals: Seq<Option<StatusView>>) -> Option<
    StatusView,
>
    decreases refusals.len(),
{
    if stage == AdmissionStage::Done || refusals.len() == 0 {
        None
    } else if refusals[0] is Some {
        refusals[0]
    } else {
        answer_from(stage_behind(stage), refusals.drop_first())
    }
}

proof fn lemma_first_of_four(refusals: Seq<Option<StatusView>>)
    requires
        refusals.len() == 4,
    ensures
        answer_from(AdmissionStage::Draining, refusals) == either_refusal(
            refusals[0],
            either_refusal(refusals[1], either_refusal(refusals[2], refusals[3])),
        ),
{
    reveal_with_fuel(answer_from, 5);
    let one = refusals.drop_first();
    let two = one.drop_first();
    let three = two.drop_first();
    assert(one[0] == refusals[1]);
    assert(two[0] == refusals[2]);
    assert(three[0] == refusals[3]);
}

/// A write is refused for the first of four reasons, in this order: the worker is draining, no slot
/// was got, no memory was got, its upload has no stream left. The service may have changed from one
/// step to the next.
pub proof fn law_put_refusals_are_in_order(
    asked: WorkerFlightService,
    slot: PermitOutcome,
    reserving: WorkerFlightService,
    memory: PermitOutcome,
    placing: WorkerFlightService,
    context: PutContext,
)
    ensures
        ({
            let draining = draining_refusal(
                asked.draining,
                "worker is draining and rejects new DoPut streams"@,
            );
            let no_slot = slot_refusal(
                slot,
                "DoPut worker has no free upload slots"@,
                "timed out waiting for DoPut upload slot"@,
            );
            let no_memory = reserving.put_memory.reserve_refusal(
                reserving.config.resources.put_max_stream_memory_bytes as nat,
                "DoPut"@,
                memory,
            );
            let no_stream = limit_refusal(placing.upload_streams@, context);
            answer_from(
                AdmissionStage::Draining,
                seq![draining, no_slot, no_memory, no_stream],
            ) == either_refusal(
                draining,
                either_refusal(no_slot, either_refusal(no_memory, no_stream)),
            )
        }),
{
    lemma_first_of_four(
        seq![
            draining_refusal(
                asked.draining,
                "worker is draining and rejects new DoPut streams"@,
            ),
            slot_refusal(
                slot,
                "DoPut worker has no free upload slots"@,
                "timed out waiting for DoPut upload slot"@,
            ),
            reserving.put_memory.reserve_refusal(
                reserving.config.resources.put_max_stream_memory_bytes as nat,
                "DoPut"@,
                memory,
            ),
            limit_refusal(placing.upload_streams@, context),
        ],
    );
}

/// A read is refused for the first of three reasons, in this order: the worker is draining, no slot
/// was got, no memory was got.
pub proof fn law_read_refusals_are_in_order(
    asked: WorkerFlightService,
    slot: PermitOutcome,
    reserving: WorkerFlightService,
    memory: PermitOutcome,
)
    ensures
        ({
            let draining = draining_refusal(
                asked.draining,
                "worker is draining and rejects new DoGet streams"@,
            );
            let no_slot = slot_refusal(
                slot,
                "DoGet worker has no free read slots"@,
                "timed out waiting for DoGet read slot"@,
            );
            let no_memory = reserving.read_memory.reserve_refusal(
                reserving.config.resources.read_max_stream_memory_bytes as nat,
                "DoGet"@,
                memory,
            );
            answer_from(AdmissionStage::Draining, seq![draining, no_slot, no_memory, None])
                == either_refusal(draining, either_refusal(no_slot, no_memory))
        }),
{
    lemma_first_of_four(
        seq![
            draining_refusal(
                asked.draining,
                "worker is draining and rejects new DoGet streams"@,
            ),
            slot_refusal(
                slot,
                "DoGet worker has no free read slots"@,
                "timed out waiting for DoGet read slot"@,
            ),
            reserving.read_memory.reserve_refusal(
                reserving.config.resources.read_max_stream_memory_bytes as nat,
                "DoGet"@,
                memory,
            ),
            None,
        ],
    );
}

/// A stream that is refused nothing takes its slot first, its memory next and its place last, and
/// is then admitted: it is admitted with no fewer than these three.
pub proof fn law_course_of_an_admission(action: AdmissionAction)
    ensures
        ({
            let slot = stage_behind(AdmissionStage::Draining);
            let memory = stage_behind(slot);
            let place = stage_behind(memory);
            &&& is_step_of(action, slot) <==> action is TakeSlot
            &&& is_step_of(action, memory) <==> action is TakeMemory
            &&& is_step_of(action, place) <==> action is TakePlace
            &&& is_step_of(action, stage_behind(place)) <==> action is Admitted
        }),
{
}

/// The first refusal decides, and where none of the four steps refuses, nothing does: the answer is
/// one of the refusals, and none before it is there.
pub proof fn law_first_refusal_decides(refusals: Seq<Option<StatusView>>, i: int)
    requires
        refusals.len() == 4,
        0 <= i < 4,
        refusals[i] is Some,
        forall|j: int| 0 <= j < i ==> (#[trigger] refusals[j]) is None,
    ensures
        answer_from(AdmissionStage::Draining, refusals) == refusals[i],
{
    lemma_first_of_four(refusals);
    if i >= 1 {
        assert(refusals[0] is None);
    }
    if i >= 2 {
        assert(refusals[1] is None);
    }
    if i >= 3 {
        assert(refusals[2] is None);
    }
}

}
