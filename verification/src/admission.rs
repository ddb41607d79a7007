//! What an admitted stream holds until it ends.

use vstd::prelude::*;

use crate::number::{decimal, decimal_of};
use crate::resource::ResourcePermit;
use crate::status::{answers, status_of, Code, Status, StatusView};
use crate::text::text_eq;
use crate::util::{quoted, quoted_of};

verus! {

/// What an admitted write holds.
#[derive(Debug)]
pub struct PutAdmission {
    pub memory: ResourcePermit,
    pub upload_id: Option<String>,
}

/// What an admitted read holds.
#[derive(Debug)]
pub struct ReadAdmission {
    pub memory: ResourcePermit,
    pub active_read_streams_at_admit: usize,
}

/// The active streams of one upload.
#[derive(Debug)]
pub struct UploadEntry {
    pub upload_id: String,
    pub active: usize,
}

/// The active streams of every upload that has any.
#[derive(Debug)]
pub struct UploadStreams {
    pub entries: Vec<UploadEntry>,
}

/// Whether an entry is for an upload.
pub open spec fn tracks(entries: Seq<UploadEntry>, i: int, upload_id: Seq<char>) -> bool {
    0 <= i < entries.len() && entries[i].upload_id@ == upload_id
}

/// The active streams of each upload.
pub open spec fn streams_of(entries: Seq<UploadEntry>) -> Map<Seq<char>, usize> {
    Map::new(
        |upload_id: Seq<char>| exists|i: int| tracks(entries, i, upload_id),
        |upload_id: Seq<char>| entries[choose|i: int| tracks(entries, i, upload_id)].active,
    )
}

impl View for UploadStreams {
    type V = Map<Seq<char>, usize>;

    open spec fn view(&self) -> Map<Seq<char>, usize> {
        streams_of(self.entries@)
    }
}

proof fn lemma_tracked(entries: Seq<UploadEntry>, i: int)
    requires
        distinct_uploads(entries),
        0 <= i < entries.len(),
    ensures
        streams_of(entries).contains_key(entries[i].upload_id@),
        streams_of(entries)[entries[i].upload_id@] == entries[i].active,
{
    let upload_id = entries[i].upload_id@;
    assert(tracks(entries, i, upload_id));
    let j = choose|j: int| tracks(entries, j, upload_id);
    assert(tracks(entries, j, upload_id));
}

/// Whether no upload has two entries.
pub open spec fn distinct_uploads(entries: Seq<UploadEntry>) -> bool {
    forall|i: int, j: int|
        0 <= i < entries.len() && 0 <= j < entries.len() && #[trigger] entries[i].upload_id@
            == #[trigger] entries[j].upload_id@ ==> i == j
}

/// The number of active streams of an upload.
pub open spec fn active_of(streams: Map<Seq<char>, usize>, upload_id: Seq<char>) -> usize {
    if streams.contains_key(upload_id) {
        streams[upload_id]
    } else {
        0
    }
}

/// The streams after one of an upload was admitted.
pub open spec fn admitted(
    streams: Map<Seq<char>, usize>,
    upload_id: Seq<char>,
) -> Map<Seq<char>, usize> {
    streams.insert(upload_id, (active_of(streams, upload_id) + 1) as usize)
}

/// The streams after one of an upload has ended.
pub open spec fn released(
    streams: Map<Seq<char>, usize>,
    upload_id: Seq<char>,
) -> Map<Seq<char>, usize> {
    if active_of(streams, upload_id) > 1 {
        streams.insert(upload_id, (streams[upload_id] - 1) as usize)
    } else {
        streams.remove(upload_id)
    }
}

/// Why one more stream of an upload is refused.
pub open spec fn upload_refusal(
    streams: Map<Seq<char>, usize>,
    upload_id: Seq<char>,
    limit: usize,
) -> Option<StatusView> {
    if active_of(streams, upload_id) >= limit {
        Some(
            status_of(
                Code::ResourceExhausted,
                "upload "@ + quoted_of(upload_id) + " has no free stream slots; active="@
                    + decimal_of(active_of(streams, upload_id) as nat) + ", limit="@ + decimal_of(
                    limit as nat,
                ),
            ),
        )
    } else {
        None
    }
}

impl UploadStreams {
    /// One entry for each upload with active streams, and none for others.
    pub open spec fn well_formed(self) -> bool {
        &&& distinct_uploads(self.entries@)
        &&& forall|i: int|
            0 <= i < self.entries@.len() ==> (#[trigger] self.entries@[i]).active >= 1
    }

    /// No active stream.
    pub fn new() -> (r: UploadStreams)
        ensures
            r.well_formed(),
            r@ == Map::<Seq<char>, usize>::empty(),
    {
        let r = UploadStreams { entries: Vec::new() };
        assert(r@ == Map::<Seq<char>, usize>::empty());
        r
    }

    fn find(&self, upload_id: &str) -> (r: Option<usize>)
        requires
            distinct_uploads(self.entries@),
        ensures
            match r {
                Some(i) => i < self.entries@.len() && self.entries@[i as int].upload_id@
                    == upload_id@ && self@.contains_key(upload_id@) && self@[upload_id@]
                    == self.entries@[i as int].active,
                None => !self@.contains_key(upload_id@) && forall|i: int|
                    0 <= i < self.entries@.len() ==> (#[trigger] self.entries@[i]).upload_id@
                        != upload_id@,
            },
    {
        let mut i: usize = 0;
        while i < self.entries.len()
            invariant
                i <= self.entries@.len(),
                distinct_uploads(self.entries@),
                forall|j: int|
                    0 <= j < i ==> (#[trigger] self.entries@[j]).upload_id@ != upload_id@,
            decreases self.entries@.len() - i,
        {
            if text_eq(self.entries[i].upload_id.as_str(), upload_id) {
                proof {
                    lemma_tracked(self.entries@, i as int);
                }
                return Some(i);
            }
            i += 1;
        }
        proof {
            if self@.contains_key(upload_id@) {
                let j = choose|j: int| tracks(self.entries@, j, upload_id@);
                assert(tracks(self.entries@, j, upload_id@));
            }
        }
        None
    }

    /// The number of active streams of an upload.
    pub fn active(&self, upload_id: &str) -> (r: usize)
        requires
            self.well_formed(),
        ensures
            r == active_of(self@, upload_id@),
    {
        match self.find(upload_id) {
            Some(i) => self.entries[i].active,
            None => 0,
        }
    }

    /// Counts one more stream of an upload, unless `limit` of them are active.
    pub fn take(&mut self, upload_id: &str, limit: usize) -> (r: Result<usize, Status>)
        requires
            old(self).well_formed(),
        ensures
            final(self).well_formed(),
            answers(
                r,
                upload_refusal(old(self)@, upload_id@, limit),
                |count: usize| count == active_of(old(self)@, upload_id@) + 1,
            ),
            r is Err ==> *final(self) == *old(self),
            r is Ok ==> final(self)@ == admitted(old(self)@, upload_id@),
    {
        let found = self.find(upload_id);
        let active: usize = match found {
            Some(i) => self.entries[i].active,
            None => 0,
        };
        if active >= limit {
            let mut message = "upload ".to_owned();
            message.append(quoted(upload_id).as_str());
            message.append(" has no free stream slots; active=");
            message.append(decimal(active as u128).as_str());
            message.append(", limit=");
            message.append(decimal(limit as u128).as_str());
            return Err(Status::new(Code::ResourceExhausted, message));
        }
        let count: usize = active + 1;
        let ghost before = self.entries@;
        let entry = UploadEntry { upload_id: upload_id.to_owned(), active: count };
        match found {
            Some(i) => {
                self.entries.set(i, entry);
                proof {
                    lemma_replaced(before, i as int, entry);
                }
            },
            None => {
                self.entries.push(entry);
                proof {
                    lemma_pushed(before, entry);
                }
            },
        }
        Ok(count)
    }

    /// Counts one stream of an upload less. An upload without active streams is forgotten.
    pub fn release(&mut self, upload_id: &str)
        requires
            old(self).well_formed(),
        ensures
            final(self).well_formed(),
            final(self)@ == released(old(self)@, upload_id@),
    {
        let ghost before = self.entries@;
        match self.find(upload_id) {
            Some(i) => {
                let active: usize = self.entries[i].active;
                if active > 1 {
                    let entry = UploadEntry {
                        upload_id: upload_id.to_owned(),
                        active: active - 1,
                    };
                    self.entries.set(i, entry);
                    proof {
                        lemma_replaced(before, i as int, entry);
                    }
                } else {
                    self.entries.remove(i);
                    proof {
                        lemma_removed(before, i as int);
                    }
                }
            },
            None => {
                proof {
                    assert(self@.remove(upload_id@) == self@);
                }
            },
        }
    }
}

proof fn lemma_replaced(entries: Seq<UploadEntry>, i: int, entry: UploadEntry)
    requires
        distinct_uploads(entries),
        0 <= i < entries.len(),
        entry.upload_id@ == entries[i].upload_id@,
    ensures
        distinct_uploads(entries.update(i, entry)),
        streams_of(entries.update(i, entry)) == streams_of(entries).insert(
            entry.upload_id@,
            entry.active,
        ),
{
    let after = entries.update(i, entry);
    assert forall|j: int| 0 <= j < after.len() implies (#[trigger] after[j]).upload_id@
        == entries[j].upload_id@ by {}
    assert(distinct_uploads(after));
    let left = streams_of(after);
    let right = streams_of(entries).insert(entry.upload_id@, entry.active);
    assert forall|id: Seq<char>| left.contains_key(id) <==> right.contains_key(id) by {
        if left.contains_key(id) {
            let j = choose|j: int| tracks(after, j, id);
            assert(tracks(after, j, id));
            assert(tracks(entries, j, id));
        }
        if right.contains_key(id) {
            if id == entry.upload_id@ {
                assert(tracks(after, i, id));
            } else {
                let j = choose|j: int| tracks(entries, j, id);
                assert(tracks(entries, j, id));
                assert(tracks(after, j, id));
            }
        }
    }
    assert forall|id: Seq<char>| left.contains_key(id) implies left[id] == right[id] by {
        let j = choose|j: int| tracks(after, j, id);
        assert(tracks(after, j, id));
        lemma_tracked(after, j);
        if j != i {
            lemma_tracked(entries, j);
            assert(entries[j].upload_id@ != entries[i].upload_id@);
        }
    }
    assert(left =~= right);
}

proof fn lemma_pushed(entries: Seq<UploadEntry>, entry: UploadEntry)
    requires
        distinct_uploads(entries),
        forall|i: int|
            0 <= i < entries.len() ==> (#[trigger] entries[i]).upload_id@ != entry.upload_id@,
    ensures
        distinct_uploads(entries.push(entry)),
        streams_of(entries.push(entry)) == streams_of(entries).insert(
            entry.upload_id@,
            entry.active,
        ),
{
    let after = entries.push(entry);
    let last = entries.len() as int;
    assert(after[last] == entry);
    assert forall|j: int| 0 <= j < entries.len() implies #[trigger] after[j] == entries[j] by {}
    assert(distinct_uploads(after));
    let left = streams_of(after);
    let right = streams_of(entries).insert(entry.upload_id@, entry.active);
    assert forall|id: Seq<char>| left.contains_key(id) <==> right.contains_key(id) by {
        if left.contains_key(id) {
            let j = choose|j: int| tracks(after, j, id);
            assert(tracks(after, j, id));
            if j < entries.len() {
                assert(tracks(entries, j, id));
            }
        }
        if right.contains_key(id) {
            if id == entry.upload_id@ {
                assert(tracks(after, last, id));
            } else {
                let j = choose|j: int| tracks(entries, j, id);
                assert(tracks(entries, j, id));
                assert(tracks(after, j, id));
            }
        }
    }
    assert forall|id: Seq<char>| left.contains_key(id) implies left[id] == right[id] by {
        let j = choose|j: int| tracks(after, j, id);
        assert(tracks(after, j, id));
        lemma_tracked(after, j);
        if j < entries.len() {
            lemma_tracked(entries, j);
        }
    }
    assert(left =~= right);
}

proof fn lemma_removed(entries: Seq<UploadEntry>, i: int)
    requires
        distinct_uploads(entries),
        0 <= i < entries.len(),
    ensures
        distinct_uploads(entries.remove(i)),
        streams_of(entries.remove(i)) == streams_of(entries).remove(entries[i].upload_id@),
{
    let after = entries.remove(i);
    assert forall|j: int| 0 <= j < after.len() implies #[trigger] after[j] == entries[if j < i {
        j
    } else {
        j + 1
    }] by {}
    assert(distinct_uploads(after));
    let left = streams_of(after);
    let right = streams_of(entries).remove(entries[i].upload_id@);
    assert forall|id: Seq<char>| left.contains_key(id) <==> right.contains_key(id) by {
        if left.contains_key(id) {
            let j = choose|j: int| tracks(after, j, id);
            assert(tracks(after, j, id));
            let k = if j < i {
                j
            } else {
                j + 1
            };
            assert(tracks(entries, k, id));
            assert(entries[k].upload_id@ != entries[i].upload_id@);
        }
        if right.contains_key(id) {
            let k = choose|k: int| tracks(entries, k, id);
            assert(tracks(entries, k, id));
            assert(k != i);
            let j = if k < i {
                k
            } else {
                k - 1
            };
            assert(after[j] == entries[k]);
            assert(tracks(after, j, id));
        }
    }
    assert forall|id: Seq<char>| left.contains_key(id) implies left[id] == right[id] by {
        let j = choose|j: int| tracks(after, j, id);
        assert(tracks(after, j, id));
        lemma_tracked(after, j);
        lemma_tracked(
            entries,
            if j < i {
                j
            } else {
                j + 1
            },
        );
    }
    assert(left =~= right);
}

/// The end of a stream undoes its admission, and an admitted upload never has more active streams
/// than its limit.
pub proof fn law_release_undoes_admission(
    uploads: UploadStreams,
    upload_id: Seq<char>,
    limit: usize,
)
    requires
        uploads.well_formed(),
        upload_refusal(uploads@, upload_id, limit) is None,
    ensures
        released(admitted(uploads@, upload_id), upload_id) == uploads@,
        active_of(admitted(uploads@, upload_id), upload_id) <= limit,
{
    let streams = uploads@;
    if streams.contains_key(upload_id) {
        let i = choose|i: int| tracks(uploads.entries@, i, upload_id);
        assert(tracks(uploads.entries@, i, upload_id));
        lemma_tracked(uploads.entries@, i);
        assert(uploads.entries@[i].active >= 1);
    }
    assert(released(admitted(streams, upload_id), upload_id) =~= streams);
}

/// One more stream of an upload is refused exactly where as many as its limit are active. An
/// admitted one is counted for its upload alone, and so is one that ends.
pub proof fn law_streams_are_counted(
    uploads: UploadStreams,
    upload_id: Seq<char>,
    other: Seq<char>,
    limit: usize,
)
    requires
        uploads.well_formed(),
    ensures
        upload_refusal(uploads@, upload_id, limit) is None <==> active_of(uploads@, upload_id)
            < limit,
        upload_refusal(uploads@, upload_id, limit) matches Some(status) ==> status.code
            == Code::ResourceExhausted,
        active_of(uploads@, upload_id) < limit ==> active_of(
            admitted(uploads@, upload_id),
            upload_id,
        ) == active_of(uploads@, upload_id) + 1,
        active_of(uploads@, upload_id) > 0 ==> active_of(released(uploads@, upload_id), upload_id)
            == active_of(uploads@, upload_id) - 1,
        other != upload_id ==> active_of(admitted(uploads@, upload_id), other) == active_of(
            uploads@,
            other,
        ) && active_of(released(uploads@, upload_id), other) == active_of(uploads@, other),
{
}

}
