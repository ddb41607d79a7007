//! The course of a write, from its first message to its answer.

use vstd::prelude::*;

use crate::status::{Status, StatusView};

verus! {

/// Where a write stands.
#[derive(Clone, Copy, Debug, PartialEq, Eq, Structural)]
pub enum PutStage {
    /// The first message is read, and the options in it are checked.
    Opening,
    /// Slot, memory and the upload's limit are asked for.
    Admitting,
    /// The refusal of the admission is recorded.
    Rejecting,
    /// The admission is recorded.
    Admitted,
    /// The first batch is awaited.
    Receiving,
    /// The start of the writing is recorded.
    Starting,
    /// Batches are written to files.
    Writing,
    /// The success is recorded.
    Completing,
    /// The failure is recorded.
    Failing,
    /// The write was answered.
    Done,
}

/// What has to be done next for a write.
#[derive(Debug)]
pub enum PutAction {
    Admission,
    RecordRejected,
    RecordAdmitted,
    ReceiveFirstBatch,
    RecordWriting,
    WriteBatches,
    RecordCompleted,
    RecordFailed,
    /// Answer with the summary of the write.
    Answer,
    /// Answer with a status.
    Refuse(Status),
}

/// The course of one write.
#[derive(Debug)]
pub struct PutFlow {
    pub stage: PutStage,
    /// Whether the write holds a slot, memory and a stream of its upload.
    pub admitted: bool,
    /// Why the write ends, while that is being recorded.
    pub cause: Option<Status>,
}

/// What has to be done next, and whether what the write holds is given back first.
#[derive(Debug)]
pub struct PutStep {
    pub action: PutAction,
    pub release: bool,
}

/// The stage after one whose step went well or failed.
pub open spec fn stage_after(stage: PutStage, passed: bool) -> PutStage {
    match stage {
        PutStage::Opening => if passed {
            PutStage::Admitting
        } else {
            PutStage::Done
        },
        PutStage::Admitting => if passed {
            PutStage::Admitted
        } else {
            PutStage::Rejecting
        },
        PutStage::Rejecting => PutStage::Done,
        PutStage::Admitted => if passed {
            PutStage::Receiving
        } else {
            PutStage::Done
        },
        PutStage::Receiving => if passed {
            PutStage::Starting
        } else {
            PutStage::Failing
        },
        PutStage::Starting => if passed {
            PutStage::Writing
        } else {
            PutStage::Failing
        },
        PutStage::Writing => if passed {
            PutStage::Completing
        } else {
            PutStage::Failing
        },
        PutStage::Completing => PutStage::Done,
        PutStage::Failing => PutStage::Done,
        PutStage::Done => PutStage::Done,
    }
}

/// Whether a write in a stage holds a slot, memory and a stream of its upload.
pub open spec fn holds_admission(stage: PutStage) -> bool {
    stage == PutStage::Admitted || stage == PutStage::Receiving || stage == PutStage::Starting
        || stage == PutStage::Writing
}

/// The status that a write is answered with when its last step is taken; none where it is answered
/// with its summary. What recording a failure comes to does not change the answer.
pub open spec fn answer_after(
    stage: PutStage,
    cause: Option<StatusView>,
    result: Option<StatusView>,
) -> Option<StatusView> {
    match stage {
        PutStage::Failing => cause,
        PutStage::Rejecting => if result is Some {
            result
        } else {
            cause
        },
        _ => result,
    }
}

/// The status of a result that is none.
pub open spec fn refusal_of(result: Result<(), Status>) -> Option<StatusView> {
    match result {
        Ok(_) => None,
        Err(status) => Some(status@),
    }
}

/// Whether an action is the one of a stage; `answer` is what a write that is done is answered with.
pub open spec fn is_action_of(
    action: PutAction,
    stage: PutStage,
    answer: Option<StatusView>,
) -> bool {
    match stage {
        PutStage::Opening => false,
        PutStage::Admitting => action is Admission,
        PutStage::Rejecting => action is RecordRejected,
        PutStage::Admitted => action is RecordAdmitted,
        PutStage::Receiving => action is ReceiveFirstBatch,
        PutStage::Starting => action is RecordWriting,
        PutStage::Writing => action is WriteBatches,
        PutStage::Completing => action is RecordCompleted,
        PutStage::Failing => action is RecordFailed,
        PutStage::Done => match answer {
            None => action is Answer,
            Some(status) => action matches PutAction::Refuse(refusal) && refusal@ == status,
        },
    }
}

impl PutFlow {
    /// A write holds something exactly in the stages between its admission and its end, and it has
    /// a cause exactly while a refusal or a failure is recorded.
    pub open spec fn well_formed(self) -> bool {
        &&& self.admitted == holds_admission(self.stage)
        &&& self.cause is Some <==> self.stage == PutStage::Rejecting || self.stage
            == PutStage::Failing
    }

    /// The status for which the write ends.
    pub open spec fn cause_of(self) -> Option<StatusView> {
        match self.cause {
            Some(status) => Some(status@),
            None => None,
        }
    }

    /// A write whose first message is read.
    pub fn new() -> (r: PutFlow)
        ensures
            r.well_formed(),
            r.stage == PutStage::Opening,
    {
        PutFlow { stage: PutStage::Opening, admitted: false, cause: None }
    }

    fn next(&mut self, stage: PutStage, action: PutAction) -> (r: PutStep)
        requires
            old(self).well_formed(),
            stage != PutStage::Rejecting && stage != PutStage::Failing,
            holds_admission(stage) ==> old(self).admitted || old(self).stage == PutStage::Admitting,
        ensures
            final(self).well_formed(),
            final(self).stage == stage,
            r.action == action,
            r.release == (old(self).admitted && !holds_admission(stage)),
    {
        let holds = stage == PutStage::Admitted || stage == PutStage::Receiving || stage
            == PutStage::Starting || stage == PutStage::Writing;
        let release = self.admitted && !holds;
        self.stage = stage;
        self.admitted = holds;
        self.cause = None;
        PutStep { action, release }
    }

    fn end_with(&mut self, stage: PutStage, cause: Status, action: PutAction) -> (r: PutStep)
        requires
            old(self).well_formed(),
            stage == PutStage::Rejecting || stage == PutStage::Failing,
        ensures
            final(self).well_formed(),
            final(self).stage == stage,
            final(self).cause_of() == Some(cause@),
            r.action == action,
            r.release == old(self).admitted,
    {
        let release = self.admitted;
        self.stage = stage;
        self.admitted = false;
        self.cause = Some(cause);
        PutStep { action, release }
    }

    /// Takes the result of the step that the current stage stands for, and tells the next one.
    pub fn advance(&mut self, result: Result<(), Status>) -> (r: PutStep)
        requires
            old(self).well_formed(),
            old(self).stage != PutStage::Done,
        ensures
            final(self).well_formed(),
            final(self).stage == stage_after(old(self).stage, result is Ok),
            final(self).stage == PutStage::Rejecting || final(self).stage == PutStage::Failing
                ==> final(self).cause_of() == refusal_of(result),
            is_action_of(
                r.action,
                final(self).stage,
                answer_after(old(self).stage, old(self).cause_of(), refusal_of(result)),
            ),
            r.release == (old(self).admitted && !final(self).admitted),
    {
        match (self.stage, result) {
            (PutStage::Opening, Ok(_)) => self.next(PutStage::Admitting, PutAction::Admission),
            (PutStage::Admitting, Ok(_)) => self.next(
                PutStage::Admitted,
                PutAction::RecordAdmitted,
            ),
            (PutStage::Admitting, Err(status)) => self.end_with(
                PutStage::Rejecting,
                status,
                PutAction::RecordRejected,
            ),
            (PutStage::Admitted, Ok(_)) => self.next(
                PutStage::Receiving,
                PutAction::ReceiveFirstBatch,
            ),
            (PutStage::Receiving, Ok(_)) => self.next(PutStage::Starting, PutAction::RecordWriting),
            (PutStage::Starting, Ok(_)) => self.next(PutStage::Writing, PutAction::WriteBatches),
            (PutStage::Writing, Ok(_)) => self.next(
                PutStage::Completing,
                PutAction::RecordCompleted,
            ),
            (PutStage::Receiving, Err(status)) => self.end_with(
                PutStage::Failing,
                status,
                PutAction::RecordFailed,
            ),
            (PutStage::Starting, Err(status)) => self.end_with(
                PutStage::Failing,
                status,
                PutAction::RecordFailed,
            ),
            (PutStage::Writing, Err(status)) => self.end_with(
                PutStage::Failing,
                status,
                PutAction::RecordFailed,
            ),
            (PutStage::Rejecting, Ok(_)) => self.refuse_for_cause(),
            (PutStage::Failing, _) => self.refuse_for_cause(),
            (_, Ok(_)) => self.next(PutStage::Done, PutAction::Answer),
            (_, Err(status)) => self.next(PutStage::Done, PutAction::Refuse(status)),
        }
    }

    fn refuse_for_cause(&mut self) -> (r: PutStep)
        requires
            old(self).well_formed(),
            old(self).cause is Some,
        ensures
            final(self).well_formed(),
            final(self).stage == PutStage::Done,
            r.action matches PutAction::Refuse(status) && Some(status@) == old(self).cause_of(),
            !r.release,
    {
        let status = self.cause.take().unwrap();
        self.stage = PutStage::Done;
        PutStep { action: PutAction::Refuse(status), release: false }
    }
}

/// The stages that a write passes when its steps come to `results`, up to its answer.
pub open spec fn stages_of(stage: PutStage, results: Seq<bool>) -> PutStage
    decreases results.len(),
{
    if results.len() == 0 {
        stage
    } else {
        stages_of(stage_after(stage, results[0]), results.drop_first())
    }
}

/// Every write is answered after at most eight steps, whatever they come to, and a write that was
/// answered holds nothing.
pub proof fn law_write_ends(results: Seq<bool>)
    requires
        results.len() >= 8,
    ensures
        stages_of(PutStage::Opening, results) == PutStage::Done,
        !holds_admission(stages_of(PutStage::Opening, results)),
{
    reveal_with_fuel(stages_of, 9);
    lemma_done_stays(results.skip(8));
    assert(results.drop_first() == results.skip(1));
    assert(results.skip(1).drop_first() == results.skip(2));
    assert(results.skip(2).drop_first() == results.skip(3));
    assert(results.skip(3).drop_first() == results.skip(4));
    assert(results.skip(4).drop_first() == results.skip(5));
    assert(results.skip(5).drop_first() == results.skip(6));
    assert(results.skip(6).drop_first() == results.skip(7));
    assert(results.skip(7).drop_first() == results.skip(8));
    lemma_done_stays(results.skip(1));
    lemma_done_stays(results.skip(2));
    lemma_done_stays(results.skip(3));
    lemma_done_stays(results.skip(4));
    lemma_done_stays(results.skip(5));
    lemma_done_stays(results.skip(6));
    lemma_done_stays(results.skip(7));
}

proof fn lemma_done_stays(results: Seq<bool>)
    ensures
        stages_of(PutStage::Done, results) == PutStage::Done,
    decreases results.len(),
{
    if results.len() > 0 {
        lemma_done_stays(results.drop_first());
    }
}

/// A write that was admitted and recorded ends in exactly one of two records: its success, only if
/// every batch was written, or its failure.
pub proof fn law_admitted_write_is_recorded(stage: PutStage, passed: bool)
    requires
        stage == PutStage::Receiving || stage == PutStage::Starting || stage == PutStage::Writing,
    ensures
        stage_after(stage, passed) == PutStage::Failing <==> !passed,
        stage_after(stage, passed) == PutStage::Completing <==> passed && stage
            == PutStage::Writing,
        holds_admission(stage_after(stage, passed)) <==> passed && stage != PutStage::Writing,
{
}

/// A write whose steps all go well is admitted before it receives, receives before it writes,
/// and is recorded as completed before it is answered; it holds its admission from its record on
/// until everything is written.
pub proof fn law_course_of_a_good_write(action: PutAction)
    ensures
        ({
            let admitting = stage_after(PutStage::Opening, true);
            let admitted = stage_after(admitting, true);
            let receiving = stage_after(admitted, true);
            let starting = stage_after(receiving, true);
            let writing = stage_after(starting, true);
            let completing = stage_after(writing, true);
            &&& is_action_of(action, admitting, None) <==> action is Admission
            &&& is_action_of(action, admitted, None) <==> action is RecordAdmitted
            &&& is_action_of(action, receiving, None) <==> action is ReceiveFirstBatch
            &&& is_action_of(action, starting, None) <==> action is RecordWriting
            &&& is_action_of(action, writing, None) <==> action is WriteBatches
            &&& is_action_of(action, completing, None) <==> action is RecordCompleted
            &&& is_action_of(action, stage_after(completing, true), None) <==> action is Answer
            &&& !holds_admission(PutStage::Opening) && !holds_admission(admitting)
            &&& holds_admission(admitted) && holds_admission(receiving)
            &&& holds_admission(starting) && holds_admission(writing)
            &&& !holds_admission(completing)
        }),
{
}

/// A write that fails is answered with why it failed. One whose admission is refused is recorded as
/// rejected, and one that fails after its admission as failed, and what recording the failure comes
/// to does not change the answer; a rejection that cannot be recorded, or an admission or a
/// success, is answered with that instead.
pub proof fn law_answer_of_a_failed_write(
    cause: StatusView,
    recording: Option<StatusView>,
    action: PutAction,
)
    ensures
        is_action_of(action, stage_after(PutStage::Admitting, false), Some(cause)) <==> action
            is RecordRejected,
        is_action_of(action, stage_after(PutStage::Receiving, false), Some(cause)) <==> action
            is RecordFailed,
        is_action_of(action, stage_after(PutStage::Starting, false), Some(cause)) <==> action
            is RecordFailed,
        is_action_of(action, stage_after(PutStage::Writing, false), Some(cause)) <==> action
            is RecordFailed,
        answer_after(PutStage::Failing, Some(cause), recording) == Some(cause),
        answer_after(PutStage::Rejecting, Some(cause), None) == Some(cause),
        recording is Some ==> answer_after(PutStage::Rejecting, Some(cause), recording)
            == recording,
        answer_after(PutStage::Opening, None, Some(cause)) == Some(cause),
        answer_after(PutStage::Admitted, None, Some(cause)) == Some(cause),
        answer_after(PutStage::Completing, None, Some(cause)) == Some(cause),
        answer_after(PutStage::Completing, None, None) is None,
        stage_after(PutStage::Opening, false) == PutStage::Done,
        stage_after(PutStage::Admitted, false) == PutStage::Done,
        stage_after(PutStage::Completing, false) == PutStage::Done,
        is_action_of(action, PutStage::Done, Some(cause)) ==> (
        action matches PutAction::Refuse(status) && status@ == cause),
{
}

/// What a write holds is given back exactly once: of two steps in a row, at most one leaves the
/// stages that hold something, and no step comes back to them once they were left.
pub proof fn law_given_back_once(stage: PutStage, passed: bool, results: Seq<bool>)
    requires
        holds_admission(stage),
        !holds_admission(stage_after(stage, passed)),
    ensures
        !holds_admission(stages_of(stage_after(stage, passed), results)),
{
    lemma_stays_released(stage_after(stage, passed), results);
}

proof fn lemma_stays_released(stage: PutStage, results: Seq<bool>)
    requires
        stage == PutStage::Completing || stage == PutStage::Failing || stage == PutStage::Done,
    ensures
        !holds_admission(stages_of(stage, results)),
    decreases results.len(),
{
    if results.len() > 0 {
        lemma_stays_released(stage_after(stage, results[0]), results.drop_first());
    }
}

}
