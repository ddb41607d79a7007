//! Writes that are split into files of a target size.

use vstd::prelude::*;

use crate::config::AppConfig;
use crate::flight_service::{are_file_records, brought_since, is_complete_record};
use crate::metadata_store::{PutFileRecord, PutStreamCompleteRecord};
use crate::number::{at_least, max_usize};
use crate::put_model::{DatasetPart, PutSummary, WorkerPutSummary};
use crate::put_writer::{
    are_part_files, are_part_profiles, dataset_part_key, is_part_file, is_single_summary,
    part_key_of, part_profile_summaries, profile_from_dataset_parts, profile_of, profiles_of,
    put_file_summaries_from_parts, sums_fit, PartTotals, PutTimings, SingleFile,
};
use crate::status::{answers, status_of, Code, Status, StatusView};
use crate::worker_status::writer_limit_of;

verus! {

// ---------------------------------------------------------------------------
// How batches are split

/// The bytes of batches.
pub open spec fn bytes_of(batches: Seq<u64>) -> nat
    decreases batches.len(),
{
    if batches.len() == 0 {
        0
    } else {
        bytes_of(batches.drop_last()) + batches.last() as nat
    }
}

/// The parts that batches fall into, and whether the last part takes more: a batch goes into the
/// last part while that is below the target, else into a new one.
pub open spec fn split_batches(batches: Seq<u64>, target: nat) -> (Seq<Seq<u64>>, bool)
    decreases batches.len(),
{
    if batches.len() == 0 {
        (Seq::empty(), false)
    } else {
        let (parts, open) = split_batches(batches.drop_last(), target);
        let batch = batches.last();
        let parts = if open {
            parts.drop_last().push(parts.last().push(batch))
        } else {
            parts.push(seq![batch])
        };
        (parts, bytes_of(parts.last()) < target)
    }
}

/// The batches of parts, one part after the other.
pub open spec fn joined(parts: Seq<Seq<u64>>) -> Seq<u64>
    decreases parts.len(),
{
    if parts.len() == 0 {
        Seq::empty()
    } else {
        joined(parts.drop_last()) + parts.last()
    }
}

/// Splitting loses no batch and keeps their order; no part is empty; every part but the last, and
/// the last once it takes no more, has the target size; and no part has more batches than it takes
/// to reach it.
pub proof fn law_split(batches: Seq<u64>, target: nat)
    ensures
        ({
            let (parts, open) = split_batches(batches, target);
            &&& joined(parts) == batches
            &&& parts.len() == 0 <==> batches.len() == 0
            &&& open ==> parts.len() > 0 && bytes_of(parts.last()) < target
            &&& forall|i: int|
                #![trigger parts[i]]
                0 <= i < parts.len() ==> {
                    &&& parts[i].len() > 0
                    &&& i < parts.len() - 1 || !open ==> bytes_of(parts[i]) >= target
                    &&& parts[i].len() == 1 || bytes_of(parts[i].drop_last()) < target
                }
        }),
    decreases batches.len(),
{
    if batches.len() > 0 {
        let shorter = batches.drop_last();
        law_split(shorter, target);
        let (before, open) = split_batches(shorter, target);
        let batch = batches.last();
        let (parts, _) = split_batches(batches, target);
        assert(shorter.push(batch) == batches);
        if open {
            let grown = before.last().push(batch);
            assert(parts == before.drop_last().push(grown));
            assert(parts.drop_last() == before.drop_last());
            assert(parts.last() == grown);
            assert(grown.drop_last() == before.last());
            assert(joined(before.drop_last()) + grown == (joined(before.drop_last())
                + before.last()).push(batch));
            assert forall|i: int| #![trigger parts[i]] 0 <= i < parts.len() - 1 implies parts[i]
                == before[i] by {}
            assert(before[before.len() - 1] == before.last());
            assert(parts[parts.len() - 1] == grown);
        } else {
            assert(parts == before.push(seq![batch]));
            assert(parts.drop_last() == before);
            assert(parts.last() == seq![batch]);
            assert(joined(before) + seq![batch] == joined(before).push(batch));
            assert forall|i: int| #![trigger parts[i]] 0 <= i < parts.len() - 1 implies parts[i]
                == before[i] by {}
            assert(parts[parts.len() - 1] == seq![batch]);
        }
    }
}

// ---------------------------------------------------------------------------
// The machine

/// Whether parts stand in order of their index, and no two have the same.
pub open spec fn increasing(parts: Seq<DatasetPart>) -> bool {
    forall|i: int, j: int|
        0 <= i < j < parts.len() ==> (#[trigger] parts[i]).part_index < (
        #[trigger] parts[j]).part_index
}

/// What has to be done before the next batch can be sent to a part writer.
#[derive(Clone, Copy, Debug, PartialEq, Eq, Structural)]
pub enum WriterNeed {
    /// Nothing: a writer takes batches.
    Ready,
    /// Wait for the writer of this part to finish.
    Collect(usize),
    /// Start a writer for this part.
    Spawn(usize),
}

/// Whether each part has the key that its index gives it.
pub open spec fn keyed(parts: Seq<DatasetPart>, key: Seq<char>) -> bool {
    forall|i: int|
        0 <= i < parts.len() ==> (#[trigger] parts[i]).key@ == part_key_of(
            key,
            parts[i].part_index as nat,
        )
}

/// What became of the writer of a part.
#[derive(Debug)]
pub enum PartOutcome {
    /// It took these batches, and its file has this size.
    Ended(PartTotals, u64),
    Failed(String),
}

/// Whether a part is what the writer of the part with this index left.
pub open spec fn is_part_of(
    part: DatasetPart,
    key: Seq<char>,
    part_index: usize,
    totals: PartTotals,
    parquet_object_bytes: u64,
) -> bool {
    &&& part.key@ == part_key_of(key, part_index as nat)
    &&& part.part_index == part_index
    &&& part.rows == totals.totals.rows
    &&& part.batches == totals.totals.batches
    &&& part.flight_stream_bytes == totals.flight_stream_bytes
    &&& part.parquet_object_bytes == parquet_object_bytes
    &&& part.profile == totals.totals.profile
}

/// A write into files of a target size, while it runs.
#[derive(Debug)]
pub struct SizedDataset {
    pub target_file_size: usize,
    pub max_part_writers: usize,
    /// Whether the newest writer takes batches.
    pub open: bool,
    /// The parts whose writers run, the oldest first.
    pub active: Vec<usize>,
    pub next_part: usize,
    /// The bytes that the newest writer took.
    pub part_bytes: u64,
    /// The bytes that the stream had brought when its last batch arrived.
    pub last_seen: u64,
    pub parts: Vec<DatasetPart>,
}

impl SizedDataset {
    /// At most the allowed number of writers runs, for the newest parts without a gap, and the one
    /// that takes batches is the newest and has not reached the target. The parts that were
    /// collected are older, and stand in order of their index.
    pub open spec fn well_formed(self) -> bool {
        &&& 1 <= self.max_part_writers
        &&& self.active@.len() <= self.max_part_writers
        &&& self.active@.len() <= self.next_part
        &&& forall|i: int|
            0 <= i < self.active@.len() ==> #[trigger] self.active@[i] == self.next_part
                - self.active@.len() + i
        &&& self.open ==> self.active@.len() >= 1
        &&& self.open ==> self.part_bytes < self.target_file_size || self.part_bytes == 0
        &&& !self.open ==> self.part_bytes == 0
        &&& increasing(self.parts@)
        &&& forall|i: int|
            0 <= i < self.parts@.len() ==> (#[trigger] self.parts@[i]).part_index
                < self.next_part - self.active@.len()
    }

    /// Whether the batches so far were split as `split_batches` splits them.
    pub open spec fn follows(self, batches: Seq<u64>) -> bool {
        let (parts, open) = split_batches(batches, self.target_file_size as nat);
        &&& self.next_part == parts.len()
        &&& self.open == open
        &&& self.part_bytes == (if open {
            bytes_of(parts.last())
        } else {
            0
        })
    }

    /// Whether the stream has ended after these batches.
    pub open spec fn ended_after(self, batches: Seq<u64>) -> bool {
        &&& self.next_part == split_batches(batches, self.target_file_size as nat).0.len()
        &&& !self.open
    }

    /// Whether a writer was started for the batch after these.
    pub open spec fn follows_into_new_part(self, batches: Seq<u64>) -> bool {
        let (parts, open) = split_batches(batches, self.target_file_size as nat);
        &&& !open
        &&& self.open
        &&& self.next_part == parts.len() + 1
        &&& self.part_bytes == 0
    }

    /// A write without a batch.
    pub fn new(target_file_size: usize, put_parallelism: usize) -> (r: SizedDataset)
        ensures
            r.well_formed(),
            r.target_file_size == target_file_size,
            r.max_part_writers == at_least(put_parallelism as int, 1),
            r.last_seen == 0,
            r.parts@.len() == 0,
            forall|key: Seq<char>| keyed(r.parts@, key),
            r.active@.len() == 0,
            r.follows(Seq::empty()),
    {
        SizedDataset {
            target_file_size,
            max_part_writers: max_usize(put_parallelism, 1),
            open: false,
            active: Vec::new(),
            next_part: 0,
            part_bytes: 0,
            last_seen: 0,
            parts: Vec::new(),
        }
    }

    /// The bytes that a batch came in, where the stream has brought `seen` bytes so far.
    pub fn arrived(&mut self, seen: u64) -> (r: u64)
        requires
            old(self).well_formed(),
        ensures
            final(self).well_formed(),
            r == brought_since(old(self).last_seen, seen),
            *final(self) == (SizedDataset { last_seen: seen, ..*old(self) }),
    {
        let bytes: u64 = seen.saturating_sub(self.last_seen);
        self.last_seen = seen;
        bytes
    }

    /// What has to be done before a batch can be sent.
    pub open spec fn need_of(self) -> WriterNeed {
        if self.open {
            WriterNeed::Ready
        } else if self.active@.len() >= self.max_part_writers {
            WriterNeed::Collect(self.active@[0])
        } else {
            WriterNeed::Spawn(self.next_part)
        }
    }

    /// What has to be done before a batch can be sent.
    pub fn need(&self) -> (r: WriterNeed)
        requires
            self.well_formed(),
        ensures
            r == self.need_of(),
    {
        if self.open {
            WriterNeed::Ready
        } else if self.active.len() >= self.max_part_writers {
            WriterNeed::Collect(self.active[0])
        } else {
            WriterNeed::Spawn(self.next_part)
        }
    }

    /// Notes that a writer was started for the next part.
    pub fn spawned(&mut self)
        requires
            old(self).well_formed(),
            old(self).need_of() is Spawn,
            old(self).next_part < usize::MAX,
        ensures
            final(self).well_formed(),
            final(self).need_of() is Ready,
            final(self).active@ == old(self).active@.push(old(self).next_part),
            *final(self) == (SizedDataset {
                open: true,
                active: final(self).active,
                next_part: (old(self).next_part + 1) as usize,
                ..*old(self)
            }),
            forall|batches: Seq<u64>|
                #![trigger old(self).follows(batches)]
                old(self).follows(batches) ==> final(self).follows_into_new_part(batches),
    {
        self.active.push(self.next_part);
        self.next_part = self.next_part + 1;
        self.open = true;
    }

    /// Why a part is not collected.
    pub open spec fn collect_refusal(self, outcome: PartOutcome) -> Option<StatusView> {
        if self.active@.len() == 0 {
            Some(status_of(Code::Internal, "no active dataset writer to collect"@))
        } else {
            match outcome {
                PartOutcome::Failed(words) => Some(status_of(Code::Internal, words@)),
                _ => None,
            }
        }
    }

    /// Takes what became of the oldest writer of a write with this key. A writer that took a batch
    /// leaves the part of its index; one that took none leaves nothing.
    pub fn collected(&mut self, key: &str, outcome: PartOutcome) -> (r: Result<(), Status>)
        requires
            old(self).well_formed(),
            !old(self).open,
        ensures
            final(self).well_formed(),
            answers(r, old(self).collect_refusal(outcome), |unit: ()| true),
            final(self).active@ == (if old(self).active@.len() == 0 {
                old(self).active@
            } else {
                old(self).active@.drop_first()
            }),
            match outcome {
                PartOutcome::Ended(totals, parquet_object_bytes) => if old(self).active@.len() == 0
                    || totals.totals.batches == 0 {
                    final(self).parts@ == old(self).parts@
                } else {
                    &&& final(self).parts@.len() == old(self).parts@.len() + 1
                    &&& final(self).parts@.drop_last() == old(self).parts@
                    &&& is_part_of(
                        final(self).parts@.last(),
                        key@,
                        old(self).active@[0],
                        totals,
                        parquet_object_bytes,
                    )
                },
                PartOutcome::Failed(_) => final(self).parts@ == old(self).parts@,
            },
            keyed(old(self).parts@, key@) ==> keyed(final(self).parts@, key@),
            *final(self) == (SizedDataset {
                active: final(self).active,
                parts: final(self).parts,
                ..*old(self)
            }),
            forall|batches: Seq<u64>|
                #![trigger old(self).follows(batches)]
                old(self).follows(batches) ==> final(self).follows(batches),
            forall|batches: Seq<u64>|
                #![trigger old(self).ended_after(batches)]
                old(self).ended_after(batches) ==> final(self).ended_after(batches),
    {
        if self.active.len() == 0 {
            return Err(Status::of(Code::Internal, "no active dataset writer to collect"));
        }
        let ghost running = self.active@;
        let oldest: usize = self.active.remove(0);
        proof {
            assert(self.active@ == running.drop_first());
            assert forall|i: int| 0 <= i < self.active@.len() implies #[trigger] self.active@[i]
                == self.next_part - self.active@.len() + i by {
                assert(self.active@[i] == running[i + 1]);
            }
        }
        match outcome {
            PartOutcome::Ended(totals, parquet_object_bytes) => {
                if totals.totals.batches > 0 {
                    let ghost before = self.parts@;
                    let part_key = dataset_part_key(key, oldest);
                    self.parts.push(totals.finish(part_key, oldest, parquet_object_bytes));
                    proof {
                        assert(self.parts@.drop_last() == before);
                    }
                }
                Ok(())
            },
            PartOutcome::Failed(words) => Err(Status::new(Code::Internal, words)),
        }
    }

    /// Why a batch could not be sent: no writer takes batches, or the writer has stopped.
    pub open spec fn send_refusal(self, accepted: bool) -> Option<StatusView> {
        if !self.open {
            Some(status_of(Code::Internal, "dataset writer was not initialized"@))
        } else if !accepted {
            Some(status_of(Code::Internal, "dataset writer task stopped during DoPut"@))
        } else {
            None
        }
    }

    /// Notes whether the newest writer accepted a batch that came in `bytes`. A writer that has
    /// reached the target takes no more.
    pub fn sent(&mut self, bytes: u64, accepted: bool) -> (r: Result<(), Status>)
        requires
            old(self).well_formed(),
            old(self).part_bytes + bytes <= u64::MAX,
        ensures
            final(self).well_formed(),
            answers(r, old(self).send_refusal(accepted), |unit: ()| true),
            r is Err ==> *final(self) == *old(self),
            r is Ok ==> {
                let total = old(self).part_bytes + bytes;
                *final(self) == (SizedDataset {
                    open: total < old(self).target_file_size,
                    part_bytes: if total < old(self).target_file_size {
                        total as u64
                    } else {
                        0
                    },
                    ..*old(self)
                })
            },
            r is Ok ==> forall|batches: Seq<u64>|
                #![trigger split_batches(batches.push(bytes), old(self).target_file_size as nat)]
                old(self).follows(batches) || old(self).follows_into_new_part(batches)
                    ==> final(self).follows(batches.push(bytes)),
    {
        if !self.open {
            return Err(Status::of(Code::Internal, "dataset writer was not initialized"));
        }
        if !accepted {
            return Err(Status::of(Code::Internal, "dataset writer task stopped during DoPut"));
        }
        let total: u64 = self.part_bytes + bytes;
        if total >= self.target_file_size as u64 {
            self.open = false;
            self.part_bytes = 0;
        } else {
            self.part_bytes = total;
        }
        proof {
            let target = old(self).target_file_size as nat;
            assert forall|batches: Seq<u64>|
                #![trigger split_batches(batches.push(bytes), target)]
                old(self).follows(batches) || old(self).follows_into_new_part(
                    batches,
                ) implies self.follows(batches.push(bytes)) by {
                let (before, open) = split_batches(batches, target);
                let more = batches.push(bytes);
                assert(more.drop_last() == batches);
                law_split(batches, target);
                if open {
                    let grown = before.last().push(bytes);
                    assert(grown.drop_last() == before.last());
                    assert(before.drop_last().push(grown).last() == grown);
                } else {
                    assert(before.push(seq![bytes]).last() == seq![bytes]);
                    reveal_with_fuel(bytes_of, 2);
                    assert(seq![bytes].drop_last() == Seq::<u64>::empty());
                }
            }
        }
        Ok(())
    }

    /// Notes that the stream has ended: no writer takes batches any more.
    pub fn end(&mut self)
        requires
            old(self).well_formed(),
        ensures
            final(self).well_formed(),
            *final(self) == (SizedDataset { open: false, part_bytes: 0, ..*old(self) }),
            forall|batches: Seq<u64>|
                #![trigger old(self).follows(batches)]
                old(self).follows(batches) ==> final(self).ended_after(batches),
    {
        self.open = false;
        self.part_bytes = 0;
    }

    /// The part of the writer that runs longest.
    pub open spec fn oldest_of(self) -> Option<usize> {
        if self.active@.len() > 0 {
            Some(self.active@[0])
        } else {
            None
        }
    }

    /// The part whose writer is to be waited for next, where one runs.
    pub fn oldest(&self) -> (r: Option<usize>)
        ensures
            r == self.oldest_of(),
    {
        if self.active.len() > 0 {
            Some(self.active[0])
        } else {
            None
        }
    }
}

// ---------------------------------------------------------------------------
// The order of parts

/// Parts in order of their index with one more among them: behind those with a smaller index,
/// before the others.
pub open spec fn insert_part(sorted: Seq<DatasetPart>, part: DatasetPart) -> Seq<DatasetPart>
    decreases sorted.len(),
{
    if sorted.len() == 0 {
        seq![part]
    } else if sorted[0].part_index >= part.part_index {
        seq![part] + sorted
    } else {
        seq![sorted[0]] + insert_part(sorted.drop_first(), part)
    }
}

/// Parts in order of their index.
pub open spec fn sort_parts(parts: Seq<DatasetPart>) -> Seq<DatasetPart>
    decreases parts.len(),
{
    if parts.len() == 0 {
        Seq::empty()
    } else {
        insert_part(sort_parts(parts.drop_first()), parts[0])
    }
}

/// Whether parts are in order of their index.
pub open spec fn in_order(parts: Seq<DatasetPart>) -> bool {
    forall|i: int, j: int|
        0 <= i < j < parts.len() ==> (#[trigger] parts[i]).part_index <= (
        #[trigger] parts[j]).part_index
}

/// The parts with one index.
pub open spec fn with_index(parts: Seq<DatasetPart>, part_index: usize) -> Seq<DatasetPart> {
    parts.filter(|part: DatasetPart| part.part_index == part_index)
}

proof fn lemma_insert_at(sorted: Seq<DatasetPart>, part: DatasetPart, at: int)
    requires
        0 <= at <= sorted.len(),
        forall|i: int| 0 <= i < at ==> (#[trigger] sorted[i]).part_index < part.part_index,
        at < sorted.len() ==> sorted[at].part_index >= part.part_index,
    ensures
        insert_part(sorted, part) == sorted.insert(at, part),
    decreases sorted.len(),
{
    if sorted.len() == 0 {
        assert(sorted.insert(at, part) == seq![part]);
    } else if at == 0 {
        assert(sorted.insert(at, part) == seq![part] + sorted);
    } else {
        let rest = sorted.drop_first();
        assert(sorted[0].part_index < part.part_index);
        assert forall|i: int| 0 <= i < at - 1 implies (#[trigger] rest[i]).part_index
            < part.part_index by {
            assert(rest[i] == sorted[i + 1]);
        }
        lemma_insert_at(rest, part, at - 1);
        assert(sorted.insert(at, part) == seq![sorted[0]] + rest.insert(at - 1, part));
    }
}

proof fn lemma_insert_keeps(sorted: Seq<DatasetPart>, part: DatasetPart, index: usize)
    requires
        in_order(sorted),
    ensures
        in_order(insert_part(sorted, part)),
        insert_part(sorted, part).len() == sorted.len() + 1,
        forall|i: int|
            0 <= i < insert_part(sorted, part).len() ==> (#[trigger] insert_part(sorted, part)[i])
                == part || sorted.contains(insert_part(sorted, part)[i]),
        with_index(insert_part(sorted, part), index) == (if part.part_index == index {
            seq![part] + with_index(sorted, index)
        } else {
            with_index(sorted, index)
        }),
    decreases sorted.len(),
{
    let chosen = |p: DatasetPart| p.part_index == index;
    let result = insert_part(sorted, part);
    let one = seq![part];
    lemma_filter_one(part, index);
    if sorted.len() == 0 {
        assert(with_index(sorted, index) == Seq::<DatasetPart>::empty()) by {
            reveal_with_fuel(Seq::filter, 1);
        }
        assert(one + with_index(sorted, index) == one);
    } else if sorted[0].part_index >= part.part_index {
        Seq::filter_distributes_over_add(one, sorted, chosen);
        assert(Seq::<DatasetPart>::empty() + with_index(sorted, index) == with_index(
            sorted,
            index,
        ));
        assert forall|i: int, j: int| 0 <= i < j < result.len() implies (
        #[trigger] result[i]).part_index <= (#[trigger] result[j]).part_index by {
            assert(result[j] == sorted[j - 1]);
            if i == 0 {
                assert(sorted[0].part_index <= sorted[j - 1].part_index);
            } else {
                assert(result[i] == sorted[i - 1]);
            }
        }
        assert forall|i: int| 0 <= i < result.len() implies (#[trigger] result[i]) == part
            || sorted.contains(result[i]) by {
            if i > 0 {
                assert(result[i] == sorted[i - 1]);
            }
        }
    } else {
        let head = seq![sorted[0]];
        let rest = sorted.drop_first();
        let tail = insert_part(rest, part);
        assert forall|i: int, j: int| 0 <= i < j < rest.len() implies (
        #[trigger] rest[i]).part_index <= (#[trigger] rest[j]).part_index by {
            assert(rest[i] == sorted[i + 1]);
            assert(rest[j] == sorted[j + 1]);
        }
        lemma_insert_keeps(rest, part, index);
        lemma_filter_one(sorted[0], index);
        Seq::filter_distributes_over_add(head, tail, chosen);
        Seq::filter_distributes_over_add(head, rest, chosen);
        assert(head + rest == sorted);
        assert(result == head + tail);
        if part.part_index == index {
            assert(head.filter(chosen) == Seq::<DatasetPart>::empty());
            assert(Seq::<DatasetPart>::empty() + with_index(tail, index) == with_index(
                tail,
                index,
            ));
            assert(Seq::<DatasetPart>::empty() + with_index(rest, index) == with_index(
                rest,
                index,
            ));
        }
        assert forall|i: int| 0 <= i < result.len() implies (#[trigger] result[i]) == part
            || sorted.contains(result[i]) by {
            if i > 0 {
                assert(result[i] == tail[i - 1]);
                if tail[i - 1] != part {
                    let k = choose|k: int| 0 <= k < rest.len() && rest[k] == tail[i - 1];
                    assert(sorted[k + 1] == tail[i - 1]);
                }
            } else {
                assert(result[0] == sorted[0]);
            }
        }
        assert forall|i: int, j: int| 0 <= i < j < result.len() implies (
        #[trigger] result[i]).part_index <= (#[trigger] result[j]).part_index by {
            assert(result[j] == tail[j - 1]);
            if i == 0 {
                if tail[j - 1] != part {
                    let k = choose|k: int| 0 <= k < rest.len() && rest[k] == tail[j - 1];
                    assert(sorted[k + 1] == tail[j - 1]);
                    assert(sorted[0].part_index <= sorted[k + 1].part_index);
                }
            } else {
                assert(result[i] == tail[i - 1]);
            }
        }
    }
}

proof fn lemma_filter_one(part: DatasetPart, index: usize)
    ensures
        with_index(seq![part], index) == (if part.part_index == index {
            seq![part]
        } else {
            Seq::<DatasetPart>::empty()
        }),
{
    reveal_with_fuel(Seq::filter, 2);
    assert(seq![part].drop_last() == Seq::<DatasetPart>::empty());
}

/// Sorting brings parts in order of their index, keeps all of them, and keeps the order of those
/// with one index.
pub proof fn law_sort_parts(parts: Seq<DatasetPart>, index: usize)
    ensures
        in_order(sort_parts(parts)),
        sort_parts(parts).len() == parts.len(),
        with_index(sort_parts(parts), index) == with_index(parts, index),
    decreases parts.len(),
{
    if parts.len() == 0 {
    } else {
        let rest = parts.drop_first();
        law_sort_parts(rest, index);
        lemma_insert_keeps(sort_parts(rest), parts[0], index);
        let chosen = |p: DatasetPart| p.part_index == index;
        lemma_filter_one(parts[0], index);
        Seq::filter_distributes_over_add(seq![parts[0]], rest, chosen);
        assert(seq![parts[0]] + rest == parts);
        assert(Seq::<DatasetPart>::empty() + with_index(rest, index) == with_index(rest, index));
    }
}

fn sort_by_index(parts: Vec<DatasetPart>) -> (r: Vec<DatasetPart>)
    ensures
        r@ == sort_parts(parts@),
{
    let ghost all = parts@;
    let mut parts = parts;
    let mut sorted: Vec<DatasetPart> = Vec::new();
    proof {
        assert(all.skip(all.len() as int) == Seq::<DatasetPart>::empty());
        assert(all.take(all.len() as int) == all);
    }
    while parts.len() > 0
        invariant
            parts@.len() <= all.len(),
            parts@ == all.take(parts@.len() as int),
            sorted@ == sort_parts(all.skip(parts@.len() as int)),
        decreases parts@.len(),
    {
        let ghost left = parts@.len() as int;
        let part = parts.pop().unwrap();
        let mut at: usize = 0;
        while at < sorted.len() && sorted[at].part_index < part.part_index
            invariant
                at <= sorted@.len(),
                forall|i: int| 0 <= i < at ==> (#[trigger] sorted@[i]).part_index < part.part_index,
            decreases sorted@.len() - at,
        {
            at += 1;
        }
        proof {
            lemma_insert_at(sorted@, part, at as int);
            assert(all.skip(left - 1).drop_first() == all.skip(left));
            assert(all.skip(left - 1)[0] == part);
            assert(parts@ == all.take(left - 1));
        }
        sorted.insert(at, part);
    }
    proof {
        assert(all.skip(0) == all);
    }
    sorted
}

// ---------------------------------------------------------------------------
// The end

/// What is known of a write when its last part is collected.
#[derive(Clone, Copy, Debug)]
pub struct DatasetEnd {
    pub client_input_file_bytes: Option<u64>,
    pub flight_stream_bytes: u64,
    pub flight_data_messages: u64,
    pub timings: PutTimings,
    pub profile_enabled: bool,
}

/// The rows of parts.
pub open spec fn rows_of(parts: Seq<DatasetPart>) -> nat
    decreases parts.len(),
{
    if parts.len() == 0 {
        0
    } else {
        rows_of(parts.drop_last()) + parts.last().rows as nat
    }
}

/// The batches of parts.
pub open spec fn batches_of(parts: Seq<DatasetPart>) -> nat
    decreases parts.len(),
{
    if parts.len() == 0 {
        0
    } else {
        batches_of(parts.drop_last()) + parts.last().batches as nat
    }
}

/// The bytes of the files of parts.
pub open spec fn object_bytes_of(parts: Seq<DatasetPart>) -> nat
    decreases parts.len(),
{
    if parts.len() == 0 {
        0
    } else {
        object_bytes_of(parts.drop_last()) + parts.last().parquet_object_bytes as nat
    }
}

/// Whether the totals of parts can be represented.
pub open spec fn totals_fit(parts: Seq<DatasetPart>) -> bool {
    &&& rows_of(parts) <= usize::MAX
    &&& batches_of(parts) <= usize::MAX
    &&& object_bytes_of(parts) <= u64::MAX
}

proof fn lemma_totals_grow(parts: Seq<DatasetPart>, i: int)
    requires
        0 <= i <= parts.len(),
    ensures
        rows_of(parts.take(i)) <= rows_of(parts),
        batches_of(parts.take(i)) <= batches_of(parts),
        object_bytes_of(parts.take(i)) <= object_bytes_of(parts),
        i < parts.len() ==> rows_of(parts.take(i + 1)) == rows_of(parts.take(i))
            + parts[i].rows as nat,
        i < parts.len() ==> batches_of(parts.take(i + 1)) == batches_of(parts.take(i))
            + parts[i].batches as nat,
        i < parts.len() ==> object_bytes_of(parts.take(i + 1)) == object_bytes_of(parts.take(i))
            + parts[i].parquet_object_bytes as nat,
    decreases parts.len() - i,
{
    if i < parts.len() {
        assert(parts.take(i + 1).drop_last() == parts.take(i));
        lemma_totals_grow(parts, i + 1);
    } else {
        assert(parts.take(i) == parts);
    }
}

/// The rows, batches and file bytes of parts, where they can be represented.
pub fn totals_of(parts: &Vec<DatasetPart>) -> (r: Option<(usize, usize, u64)>)
    ensures
        match r {
            Some((rows, batches, object_bytes)) => {
                &&& totals_fit(parts@)
                &&& rows == rows_of(parts@)
                &&& batches == batches_of(parts@)
                &&& object_bytes == object_bytes_of(parts@)
            },
            None => !totals_fit(parts@),
        },
{
    let mut rows: usize = 0;
    let mut batches: usize = 0;
    let mut object_bytes: u64 = 0;
    let mut i: usize = 0;
    while i < parts.len()
        invariant
            i <= parts@.len(),
            rows == rows_of(parts@.take(i as int)),
            batches == batches_of(parts@.take(i as int)),
            object_bytes == object_bytes_of(parts@.take(i as int)),
        decreases parts@.len() - i,
    {
        proof {
            lemma_totals_grow(parts@, i as int);
            lemma_totals_grow(parts@, i + 1);
        }
        match (
            rows.checked_add(parts[i].rows),
            batches.checked_add(parts[i].batches),
            object_bytes.checked_add(parts[i].parquet_object_bytes),
        ) {
            (Some(next_rows), Some(next_batches), Some(next_object_bytes)) => {
                rows = next_rows;
                batches = next_batches;
                object_bytes = next_object_bytes;
            },
            _ => return None,
        }
        i += 1;
    }
    proof {
        assert(parts@.take(i as int) == parts@);
    }
    Some((rows, batches, object_bytes))
}

/// Whether a summary tells of a write into the parts, which are listed in order of their index.
pub open spec fn is_dataset_summary(
    config: AppConfig,
    key: Seq<char>,
    worker: WorkerPutSummary,
    dataset: SizedDataset,
    end: DatasetEnd,
    summary: PutSummary,
) -> bool {
    let parts = dataset.parts@;
    &&& summary.key@ == key
    &&& summary.worker == worker
    &&& summary.mode@ == "sized_dataset"@
    &&& summary.rows == rows_of(parts)
    &&& summary.batches == batches_of(parts)
    &&& summary.parts == parts.len()
    &&& summary.put_parallelism == dataset.max_part_writers
    &&& summary.client_input_file_bytes == end.client_input_file_bytes
    &&& summary.flight_data_messages == (if end.profile_enabled {
        Some(end.flight_data_messages)
    } else {
        None
    })
    &&& summary.flight_stream_bytes == end.flight_stream_bytes
    &&& summary.parquet_object_bytes == Some(object_bytes_of(parts) as u64)
    &&& are_part_files(sort_parts(parts), summary.files@)
    &&& summary.target_file_size == Some(dataset.target_file_size)
    &&& summary.elapsed_ms == end.timings.elapsed_ms
    &&& summary.compression@ == config.parquet.compression_name@
    &&& summary.multipart_part_size == config.parquet.multipart_part_size
    &&& summary.multipart_max_concurrency == config.parquet.multipart_max_concurrency
    &&& summary.profile == (if end.profile_enabled {
        Some(profile_of(end.timings, profiles_of(parts)))
    } else {
        None
    })
    &&& if end.profile_enabled {
        summary.part_profiles matches Some(profiles) && are_part_profiles(
            sort_parts(parts),
            profiles@,
        )
    } else {
        summary.part_profiles is None
    }
}

impl SizedDataset {
    /// Why a write has no summary: none of its parts holds a batch.
    pub open spec fn finish_refusal(self) -> Option<StatusView> {
        if self.parts@.len() == 0 {
            Some(status_of(Code::InvalidArgument, "DoPut did not contain record batches"@))
        } else {
            None
        }
    }

    /// What the write is answered with, once no writer runs any more. One without a part is
    /// refused.
    pub fn finish(
        self,
        config: &AppConfig,
        key: String,
        worker: WorkerPutSummary,
        end: DatasetEnd,
    ) -> (r: Result<PutSummary, Status>)
        requires
            totals_fit(self.parts@),
            end.profile_enabled ==> sums_fit(profiles_of(self.parts@)),
        ensures
            answers(
                r,
                self.finish_refusal(),
                |summary: PutSummary|
                    is_dataset_summary(*config, key@, worker, self, end, summary),
            ),
    {
        if self.parts.len() == 0 {
            return Err(Status::of(Code::InvalidArgument, "DoPut did not contain record batches"));
        }
        let count: usize = self.parts.len();
        let (rows, batches, object_bytes) = totals_of(&self.parts).unwrap();
        let profile = if end.profile_enabled {
            Some(profile_from_dataset_parts(end.timings, &self.parts))
        } else {
            None
        };
        let target_file_size: usize = self.target_file_size;
        let put_parallelism: usize = self.max_part_writers;
        let parts = sort_by_index(self.parts);
        let part_profiles = if end.profile_enabled {
            Some(part_profile_summaries(&parts))
        } else {
            None
        };
        let flight_data_messages = if end.profile_enabled {
            Some(end.flight_data_messages)
        } else {
            None
        };
        Ok(
            PutSummary {
                key,
                worker,
                mode: "sized_dataset".to_owned(),
                rows,
                batches,
                parts: count,
                put_parallelism,
                client_input_file_bytes: end.client_input_file_bytes,
                flight_data_messages,
                flight_stream_bytes: end.flight_stream_bytes,
                parquet_object_bytes: Some(object_bytes),
                files: put_file_summaries_from_parts(&parts),
                target_file_size: Some(target_file_size),
                elapsed_ms: end.timings.elapsed_ms,
                compression: config.parquet.compression_name.clone(),
                multipart_part_size: config.parquet.multipart_part_size,
                multipart_max_concurrency: config.parquet.multipart_max_concurrency,
                profile,
                part_profiles,
            },
        )
    }
}

proof fn lemma_sorted_stays(parts: Seq<DatasetPart>)
    requires
        increasing(parts),
    ensures
        sort_parts(parts) == parts,
    decreases parts.len(),
{
    if parts.len() > 0 {
        let rest = parts.drop_first();
        assert forall|i: int, j: int| 0 <= i < j < rest.len() implies (
        #[trigger] rest[i]).part_index < (#[trigger] rest[j]).part_index by {
            assert(rest[i] == parts[i + 1]);
            assert(rest[j] == parts[j + 1]);
        }
        lemma_sorted_stays(rest);
        if rest.len() > 0 {
            assert(rest[0] == parts[1]);
        }
        assert(seq![parts[0]] + rest == parts);
    } else {
        assert(parts == Seq::<DatasetPart>::empty());
    }
}

proof fn lemma_without_gap(parts: Seq<DatasetPart>, i: int)
    requires
        increasing(parts),
        forall|j: int| 0 <= j < parts.len() ==> (#[trigger] parts[j]).part_index < parts.len(),
        0 <= i < parts.len(),
    ensures
        parts[i].part_index == i,
{
    lemma_at_least(parts, i);
    lemma_at_most(parts, i);
}

proof fn lemma_at_least(parts: Seq<DatasetPart>, i: int)
    requires
        increasing(parts),
        0 <= i < parts.len(),
    ensures
        parts[i].part_index >= i,
    decreases i,
{
    if i > 0 {
        lemma_at_least(parts, i - 1);
        assert(parts[i - 1].part_index < parts[i].part_index);
    }
}

proof fn lemma_at_most(parts: Seq<DatasetPart>, i: int)
    requires
        increasing(parts),
        forall|j: int| 0 <= j < parts.len() ==> (#[trigger] parts[j]).part_index < parts.len(),
        0 <= i < parts.len(),
    ensures
        parts[i].part_index <= i,
    decreases parts.len() - i,
{
    if i < parts.len() - 1 {
        lemma_at_most(parts, i + 1);
        assert(parts[i].part_index < parts[i + 1].part_index);
    }
}

/// The files of a write that was split are its parts in order. Where every writer left its part,
/// there is one file for each part that the batches were split into, with that part's index and
/// key. Where each writer tells the bytes and the number of the batches that it took, each file
/// carries those of its part.
pub proof fn law_files_are_the_split(
    config: AppConfig,
    key: Seq<char>,
    worker: WorkerPutSummary,
    dataset: SizedDataset,
    end: DatasetEnd,
    summary: PutSummary,
    batches: Seq<u64>,
)
    requires
        dataset.well_formed(),
        dataset.ended_after(batches),
        dataset.active@.len() == 0,
        keyed(dataset.parts@, key),
        is_dataset_summary(config, key, worker, dataset, end, summary),
    ensures
        are_part_files(dataset.parts@, summary.files@),
        dataset.parts@.len() == dataset.next_part ==> ({
            let parts = split_batches(batches, dataset.target_file_size as nat).0;
            &&& summary.files@.len() == parts.len()
            &&& forall|i: int|
                0 <= i < parts.len() ==> {
                    &&& (#[trigger] summary.files@[i]).part_index == i
                    &&& summary.files@[i].key@ == part_key_of(key, i as nat)
                }
            &&& (forall|i: int|
                0 <= i < parts.len() ==> (#[trigger] dataset.parts@[i]).flight_stream_bytes
                    == bytes_of(parts[i])) ==> (forall|i: int|
                0 <= i < parts.len() ==> (#[trigger] summary.files@[i]).flight_stream_bytes
                    == bytes_of(parts[i]))
            &&& (forall|i: int|
                0 <= i < parts.len() ==> (#[trigger] dataset.parts@[i]).batches
                    == parts[i].len()) ==> (forall|i: int|
                0 <= i < parts.len() ==> (#[trigger] summary.files@[i]).batches
                    == parts[i].len())
        }),
{
    lemma_sorted_stays(dataset.parts@);
    if dataset.parts@.len() == dataset.next_part {
        let parts = split_batches(batches, dataset.target_file_size as nat).0;
        assert forall|i: int| 0 <= i < parts.len() implies {
            &&& (#[trigger] summary.files@[i]).part_index == i
            &&& summary.files@[i].key@ == part_key_of(key, i as nat)
        } by {
            lemma_without_gap(dataset.parts@, i);
        }
    }
}

// ---------------------------------------------------------------------------
// The writers of a worker

/// How many part writers run for these writes.
pub open spec fn running_writers(datasets: Seq<SizedDataset>) -> nat
    decreases datasets.len(),
{
    if datasets.len() == 0 {
        0
    } else {
        running_writers(datasets.drop_last()) + datasets.last().active@.len()
    }
}

proof fn lemma_running(datasets: Seq<SizedDataset>, most: int)
    requires
        forall|i: int|
            0 <= i < datasets.len() ==> (#[trigger] datasets[i]).well_formed()
                && datasets[i].max_part_writers <= most,
    ensures
        running_writers(datasets) <= most * datasets.len(),
    decreases datasets.len(),
{
    if datasets.len() > 0 {
        let before = datasets.drop_last();
        lemma_running(before, most);
        assert(datasets[datasets.len() - 1].well_formed());
        assert(most * datasets.len() == most * before.len() + most) by (nonlinear_arith)
            requires
                datasets.len() == before.len() + 1,
        ;
    }
}

/// A worker keeps to its limit of part writers: those of as many writes as it runs at once are
/// together within the limit that it announces, while that limit can be represented.
pub proof fn law_writers_are_limited(
    datasets: Seq<SizedDataset>,
    put_parallelism: usize,
    max_active_put_streams: usize,
)
    requires
        datasets.len() <= max_active_put_streams,
        forall|i: int|
            0 <= i < datasets.len() ==> (#[trigger] datasets[i]).well_formed()
                && datasets[i].max_part_writers == at_least(put_parallelism as int, 1),
        at_least(put_parallelism as int, 1) * max_active_put_streams <= usize::MAX,
    ensures
        running_writers(datasets) <= writer_limit_of(put_parallelism, max_active_put_streams),
{
    let most = at_least(put_parallelism as int, 1);
    lemma_running(datasets, most);
    assert(most * datasets.len() <= most * max_active_put_streams) by (nonlinear_arith)
        requires
            most >= 1,
            datasets.len() <= max_active_put_streams,
    ;
}

// ---------------------------------------------------------------------------
// What the rows of a write add up to

/// The rows that the records of files tell of.
pub open spec fn recorded_rows(records: Seq<PutFileRecord>) -> int
    decreases records.len(),
{
    if records.len() == 0 {
        0
    } else {
        recorded_rows(records.drop_last()) + records.last().rows
    }
}

/// The batches that the records of files tell of.
pub open spec fn recorded_batches(records: Seq<PutFileRecord>) -> int
    decreases records.len(),
{
    if records.len() == 0 {
        0
    } else {
        recorded_batches(records.drop_last()) + records.last().batches
    }
}

/// The bytes of files that the records of files tell of.
pub open spec fn recorded_object_bytes(records: Seq<PutFileRecord>) -> int
    decreases records.len(),
{
    if records.len() == 0 {
        0
    } else {
        recorded_object_bytes(records.drop_last()) + records.last().parquet_object_bytes
    }
}

proof fn lemma_recorded(
    summary: PutSummary,
    parts: Seq<DatasetPart>,
    records: Seq<PutFileRecord>,
    n: int,
)
    requires
        are_part_files(parts, summary.files@),
        are_file_records(summary, records),
        0 <= n <= parts.len(),
        rows_of(parts) <= i64::MAX,
        batches_of(parts) <= i64::MAX,
        object_bytes_of(parts) <= i64::MAX,
    ensures
        recorded_rows(records.take(n)) == rows_of(parts.take(n)),
        recorded_batches(records.take(n)) == batches_of(parts.take(n)),
        recorded_object_bytes(records.take(n)) == object_bytes_of(parts.take(n)),
    decreases n,
{
    if n > 0 {
        lemma_recorded(summary, parts, records, n - 1);
        lemma_totals_grow(parts, n - 1);
        lemma_totals_grow(parts, n);
        assert(records.take(n).drop_last() == records.take(n - 1));
        assert(records.take(n).last() == records[n - 1]);
        assert(is_part_file(parts[n - 1], summary.files@[n - 1]));
        crate::flight_service::law_file_records_tell_of_the_files(summary, records, n - 1);
    }
}

/// The records of a split write add up: the rows of its files are together the rows of the whole,
/// and so are the batches and the bytes of the files, and there is one record for each part, while
/// the columns hold these numbers.
pub proof fn law_split_records_add_up(
    config: AppConfig,
    key: Seq<char>,
    worker: WorkerPutSummary,
    dataset: SizedDataset,
    end: DatasetEnd,
    summary: PutSummary,
    record: PutStreamCompleteRecord,
)
    requires
        dataset.well_formed(),
        is_dataset_summary(config, key, worker, dataset, end, summary),
        is_complete_record(summary, record),
        summary.rows <= i64::MAX,
        summary.batches <= i64::MAX,
        object_bytes_of(dataset.parts@) <= i64::MAX,
        summary.parts <= i32::MAX,
    ensures
        recorded_rows(record.files@) == record.rows == summary.rows,
        recorded_batches(record.files@) == record.batches == summary.batches,
        record.parquet_object_bytes matches Some(bytes) && bytes == recorded_object_bytes(
            record.files@,
        ),
        record.files@.len() == record.parts == summary.parts,
{
    let parts = dataset.parts@;
    lemma_sorted_stays(parts);
    lemma_recorded(summary, parts, record.files@, parts.len() as int);
    assert(parts.take(parts.len() as int) == parts);
    assert(record.files@.take(parts.len() as int) == record.files@);
}

/// The record of a write into one file tells of that file what the record of the whole write tells:
/// their rows, their batches and their bytes are the same.
pub proof fn law_single_record_is_the_write(
    config: AppConfig,
    worker: WorkerPutSummary,
    file: SingleFile,
    summary: PutSummary,
    record: PutStreamCompleteRecord,
)
    requires
        is_single_summary(config, worker, file, summary),
        is_complete_record(summary, record),
    ensures
        record.files@.len() == 1,
        record.parts == 1,
        record.files@[0].rows == record.rows,
        record.files@[0].batches == record.batches,
        record.files@[0].flight_stream_bytes == record.flight_stream_bytes,
        record.files@[0].part_index == 0,
        record.files@[0].file_path@ == file.path@,
        record.files@[0].logical_key@ == file.key@,
        file.totals.rows <= i64::MAX ==> record.rows == file.totals.rows,
        file.totals.batches <= i64::MAX ==> record.batches == file.totals.batches,
        file.flight_stream_bytes <= i64::MAX ==> record.flight_stream_bytes
            == file.flight_stream_bytes,
        record.parquet_object_bytes matches Some(bytes) ==> record.files@[0].parquet_object_bytes
            == bytes,
        record.parquet_object_bytes is None <==> file.parquet_object_bytes is None,
{
    crate::flight_service::law_file_records_tell_of_the_files(summary, record.files@, 0);
    crate::flight_service::law_complete_record_tells_of_the_write(summary, record);
}

/// A split write is answered with what was measured of it: under its key and its worker, with the
/// bytes of its stream, its target size and its settings, and with a profile exactly where one was
/// wanted.
pub proof fn law_split_write_is_told(
    config: AppConfig,
    key: Seq<char>,
    worker: WorkerPutSummary,
    dataset: SizedDataset,
    end: DatasetEnd,
    summary: PutSummary,
)
    requires
        is_dataset_summary(config, key, worker, dataset, end, summary),
    ensures
        summary.key@ == key,
        summary.worker == worker,
        summary.mode@ == "sized_dataset"@,
        summary.parts == dataset.parts@.len(),
        summary.put_parallelism == dataset.max_part_writers,
        summary.client_input_file_bytes == end.client_input_file_bytes,
        summary.flight_stream_bytes == end.flight_stream_bytes,
        summary.target_file_size == Some(dataset.target_file_size),
        summary.elapsed_ms == end.timings.elapsed_ms,
        summary.compression@ == config.parquet.compression_name@,
        summary.multipart_part_size == config.parquet.multipart_part_size,
        summary.multipart_max_concurrency == config.parquet.multipart_max_concurrency,
        summary.flight_data_messages is Some <==> end.profile_enabled,
        summary.profile is Some <==> end.profile_enabled,
        summary.part_profiles is Some <==> end.profile_enabled,
        end.profile_enabled ==> {
            &&& summary.flight_data_messages == Some(end.flight_data_messages)
            &&& summary.profile->0.total_server_ms == end.timings.elapsed_ms
            &&& summary.profile->0.enqueue_wait_ms == end.timings.enqueue_wait_ms
            &&& summary.profile->0.collect_writer_wait_ms == end.timings.collect_writer_wait_ms
        },
{
}

/// One more part adds its rows, its batches and its file's bytes to those of the whole, and nothing
/// else does.
pub proof fn law_parts_add_up(parts: Seq<DatasetPart>, part: DatasetPart)
    ensures
        rows_of(parts.push(part)) == rows_of(parts) + part.rows,
        batches_of(parts.push(part)) == batches_of(parts) + part.batches,
        object_bytes_of(parts.push(part)) == object_bytes_of(parts) + part.parquet_object_bytes,
        rows_of(Seq::empty()) == 0,
        batches_of(Seq::empty()) == 0,
        object_bytes_of(Seq::empty()) == 0,
{
    assert(parts.push(part).drop_last() == parts);
}

/// Before a batch is sent, a writer must take batches: the newest one while it is below its target,
/// else a new one, which is started at once while fewer writers run than may, and otherwise only
/// after the oldest has ended.
pub proof fn law_next_writer(dataset: SizedDataset)
    requires
        dataset.well_formed(),
    ensures
        dataset.need_of() is Ready <==> dataset.open,
        dataset.need_of() matches WriterNeed::Spawn(index) ==> {
            &&& index == dataset.next_part
            &&& dataset.active@.len() < dataset.max_part_writers
        },
        dataset.need_of() matches WriterNeed::Collect(index) ==> {
            &&& dataset.active@.len() == dataset.max_part_writers
            &&& index == dataset.next_part - dataset.active@.len()
            &&& forall|i: int|
                0 <= i < dataset.active@.len() ==> index <= #[trigger] dataset.active@[i]
        },
{
    if dataset.need_of() is Collect {
        assert(dataset.active@[0] == dataset.next_part - dataset.active@.len());
    }
}

/// The part of a writer has the index and the key that the writer was started for, and tells what
/// the writer counted.
pub proof fn law_part_tells_of_its_writer(
    part: DatasetPart,
    key: Seq<char>,
    part_index: usize,
    totals: PartTotals,
    parquet_object_bytes: u64,
)
    requires
        is_part_of(part, key, part_index, totals, parquet_object_bytes),
    ensures
        part.part_index == part_index,
        part.key@ == part_key_of(key, part_index as nat),
        part.rows == totals.totals.rows,
        part.batches == totals.totals.batches,
        part.flight_stream_bytes == totals.flight_stream_bytes,
        part.parquet_object_bytes == parquet_object_bytes,
        part.profile == totals.totals.profile,
{
}

/// What a stream brings is counted once: the bytes of its batches, each since the one before,
/// together are all that it has brought.
pub proof fn law_brought_bytes_add_up(first: u64, second: u64, third: u64)
    requires
        first <= second <= third,
    ensures
        brought_since(first, second) + brought_since(second, third) == brought_since(first, third),
        brought_since(0, third) == third,
        brought_since(third, first) == 0,
{
}

/// The writer that is waited for is the one whose part was opened first, and a dataset without
/// writers has none.
pub proof fn law_oldest_writer(dataset: SizedDataset)
    requires
        dataset.well_formed(),
    ensures
        dataset.oldest_of() is None <==> dataset.active@.len() == 0,
        dataset.oldest_of() matches Some(index) ==> dataset.active@.contains(index) && forall|i: int|
            0 <= i < dataset.active@.len() ==> index <= #[trigger] dataset.active@[i],
{
    if dataset.active@.len() > 0 {
        assert(dataset.active@[0] == dataset.next_part - dataset.active@.len());
    }
}

/// A batch is sent where a part is open and its writer takes it; a part is collected where a writer
/// runs and did not fail. All else is a failure inside the worker, and that of a writer is told in
/// its own words.
pub proof fn law_dataset_refusals(dataset: SizedDataset, accepted: bool, outcome: PartOutcome)
    ensures
        dataset.send_refusal(accepted) is None <==> dataset.open && accepted,
        dataset.send_refusal(accepted) matches Some(status) ==> status.code == Code::Internal,
        dataset.collect_refusal(outcome) is None <==> dataset.active@.len() > 0 && outcome is Ended,
        dataset.collect_refusal(outcome) matches Some(status) ==> status.code == Code::Internal,
        dataset.active@.len() > 0 ==> (outcome matches PartOutcome::Failed(words) ==> (
            dataset.collect_refusal(outcome) matches Some(status) && status.message == words@)),
{
}

/// A write has a summary exactly where one of its parts was written; one without batches is refused
/// as an invalid argument.
pub proof fn law_empty_writes(dataset: SizedDataset)
    ensures
        dataset.finish_refusal() is None <==> dataset.parts@.len() > 0,
        dataset.finish_refusal() matches Some(status) ==> status.code == Code::InvalidArgument,
{
}

}
