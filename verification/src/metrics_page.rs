//! The metrics page as lines: the families that stand on it, and what holds of the whole page.

use vstd::prelude::*;

use crate::clock::epoch_seconds_of;
use crate::metrics::{
    bucket_lines, cumulative_of, escaped_of, explained_gauge, flag, gets_of, help_line,
    histogram_of, identity_of, info_line, is_page, label_of, law_label_reads_back, prometheus_of,
    puts_of, slots_of, type_line, uptime_of, value_line, DurationHistogram, WorkerMetrics, BUCKETS,
};
use crate::number::{decimal_of, digit_char};
use crate::text::{has_prefix, lemma_split_nonempty, split_of};
use crate::worker_status::{WorkerState, WorkerStatus};

verus! {

// ---------------------------------------------------------------------------
// Families

/// A family of metrics: its name, how it is explained, its type, and the lines of its samples.
pub ghost struct Family {
    pub name: Seq<char>,
    pub help: Option<Seq<char>>,
    pub kind: Seq<char>,
    pub samples: Seq<Seq<char>>,
}

/// The line that types a family, without its line feed.
pub open spec fn typing(name: Seq<char>, kind: Seq<char>) -> Seq<char> {
    "# TYPE "@ + name + " "@ + kind
}

/// The lines of a family, without their line feeds: its type stands before its samples.
pub open spec fn family_lines(family: Family) -> Seq<Seq<char>> {
    (match family.help {
        Some(help) => seq!["# HELP "@ + family.name + " "@ + help],
        None => Seq::empty(),
    }) + seq![typing(family.name, family.kind)] + family.samples
}

/// The lines of families, one family behind the other.
pub open spec fn page_lines(families: Seq<Family>) -> Seq<Seq<char>>
    decreases families.len(),
{
    if families.len() == 0 {
        Seq::empty()
    } else {
        page_lines(families.drop_last()) + family_lines(families.last())
    }
}

/// Lines as one text, each with its line feed.
pub open spec fn text_of(lines: Seq<Seq<char>>) -> Seq<char>
    decreases lines.len(),
{
    if lines.len() == 0 {
        Seq::empty()
    } else {
        text_of(lines.drop_last()) + (lines.last() + "\n"@)
    }
}

/// A family with one value.
pub open spec fn plain(name: Seq<char>, kind: Seq<char>, value: u64) -> Family {
    Family {
        name,
        help: None,
        kind,
        samples: seq![name + " "@ + decimal_of(value as nat)],
    }
}

/// A gauge with one value that is explained.
pub open spec fn explained(name: Seq<char>, help: Seq<char>, value: u64) -> Family {
    Family { help: Some(help), ..plain(name, "gauge"@, value) }
}

/// The family that names a worker.
pub open spec fn info(status: WorkerStatus) -> Family {
    Family {
        name: "worker_info"@,
        help: Some("Worker identity."@),
        kind: "gauge"@,
        samples: seq![
            "worker_info{worker_id=\""@ + escaped_of(status.worker_id@) + "\",flight_uri=\""@
                + escaped_of(status.flight_uri@) + "\"} 1"@,
        ],
    }
}

/// The line of one bucket, without its line feed.
pub open spec fn bucket_sample(name: Seq<char>, label: Seq<char>, count: u64) -> Seq<char> {
    name + "_bucket{le=\""@ + label + "\"} "@ + decimal_of(count as nat)
}

/// The lines of the first `n` buckets, without their line feeds.
pub open spec fn bucket_samples(name: Seq<char>, buckets: Seq<u64>, n: int) -> Seq<Seq<char>>
    decreases n,
{
    if n <= 0 {
        Seq::empty()
    } else {
        bucket_samples(name, buckets, n - 1).push(
            bucket_sample(name, label_of(n - 1), cumulative_of(buckets, n)),
        )
    }
}

/// The family of a histogram.
pub open spec fn durations(
    name: Seq<char>,
    histogram: DurationHistogram,
    sum_seconds: Seq<char>,
) -> Family {
    Family {
        name,
        help: None,
        kind: "histogram"@,
        samples: bucket_samples(name, histogram.buckets@, BUCKETS as int).push(
            bucket_sample(name, "+Inf"@, histogram.count),
        ).push(name + "_sum "@ + sum_seconds).push(
            name + "_count "@ + decimal_of(histogram.count as nat),
        ),
    }
}

/// The families on the worker itself.
#[verifier::opaque]
pub open spec fn identity_families(status: WorkerStatus, uptime: u64) -> Seq<Family> {
    seq![
        info(status),
        explained("worker_up"@, "Worker process is running."@, 1),
        explained("worker_uptime_seconds"@, "Worker process uptime in seconds."@, uptime),
        explained("worker_draining"@, "Whether worker rejects new work."@, flag(status.draining)),
        explained(
            "worker_state_active"@,
            "Whether worker state is ACTIVE."@,
            flag(status.state == WorkerState::Active),
        ),
    ]
}

/// The families on the slots of the worker.
#[verifier::opaque]
pub open spec fn slot_families(status: WorkerStatus) -> Seq<Family> {
    seq![
        plain("worker_put_slots_limit"@, "gauge"@, status.put.limit as u64),
        plain("worker_put_slots_active"@, "gauge"@, status.put.active as u64),
        plain("worker_put_slots_available"@, "gauge"@, status.put.available as u64),
        plain("worker_put_slot_wait_milliseconds"@, "gauge"@, status.put.slot_wait_ms),
        plain("worker_read_slots_limit"@, "gauge"@, status.read.limit as u64),
        plain("worker_read_slots_active"@, "gauge"@, status.read.active as u64),
        plain("worker_read_slots_available"@, "gauge"@, status.read.available as u64),
        plain("worker_read_slot_wait_milliseconds"@, "gauge"@, status.read.slot_wait_ms),
        plain("worker_heartbeat_interval_milliseconds"@, "gauge"@, status.heartbeat_interval_ms),
        plain("worker_registry_ttl_milliseconds"@, "gauge"@, status.registry_ttl_ms),
    ]
}

/// The families on writes.
#[verifier::opaque]
pub open spec fn put_families(metrics: WorkerMetrics, sum_seconds: Seq<char>) -> Seq<Family> {
    seq![
        plain("worker_put_started_total"@, "counter"@, metrics.put_started),
        plain("worker_put_succeeded_total"@, "counter"@, metrics.put_succeeded),
        plain("worker_put_failed_total"@, "counter"@, metrics.put_failed),
        plain("worker_put_rows_total"@, "counter"@, metrics.put_rows),
        plain("worker_put_batches_total"@, "counter"@, metrics.put_batches),
        plain("worker_put_files_total"@, "counter"@, metrics.put_files),
        plain("worker_put_flight_stream_bytes_total"@, "counter"@, metrics.put_flight_stream_bytes),
        plain(
            "worker_put_parquet_object_bytes_total"@,
            "counter"@,
            metrics.put_parquet_object_bytes,
        ),
        durations("worker_put_duration_seconds"@, metrics.put_duration, sum_seconds),
    ]
}

/// The families on reads.
#[verifier::opaque]
pub open spec fn get_families(metrics: WorkerMetrics, sum_seconds: Seq<char>) -> Seq<Family> {
    seq![
        plain("worker_get_started_total"@, "counter"@, metrics.get_started),
        plain("worker_get_succeeded_total"@, "counter"@, metrics.get_succeeded),
        plain("worker_get_failed_total"@, "counter"@, metrics.get_failed),
        plain("worker_get_cancelled_total"@, "counter"@, metrics.get_cancelled),
        plain("worker_get_object_bytes_total"@, "counter"@, metrics.get_object_bytes),
        durations("worker_get_duration_seconds"@, metrics.get_duration, sum_seconds),
    ]
}

/// The families on the page.
pub open spec fn families_of(
    metrics: WorkerMetrics,
    status: WorkerStatus,
    uptime: u64,
    put_seconds: Seq<char>,
    get_seconds: Seq<char>,
) -> Seq<Family> {
    identity_families(status, uptime) + slot_families(status) + put_families(metrics, put_seconds)
        + get_families(metrics, get_seconds)
}

// ---------------------------------------------------------------------------
// Names

/// The names of the families on the page, in order.
#[verifier::opaque]
pub open spec fn family_names() -> Seq<Seq<char>> {
    seq![
        "worker_info"@,
        "worker_up"@,
        "worker_uptime_seconds"@,
        "worker_draining"@,
        "worker_state_active"@,
        "worker_put_slots_limit"@,
        "worker_put_slots_active"@,
        "worker_put_slots_available"@,
        "worker_put_slot_wait_milliseconds"@,
        "worker_read_slots_limit"@,
        "worker_read_slots_active"@,
        "worker_read_slots_available"@,
        "worker_read_slot_wait_milliseconds"@,
        "worker_heartbeat_interval_milliseconds"@,
        "worker_registry_ttl_milliseconds"@,
        "worker_put_started_total"@,
        "worker_put_succeeded_total"@,
        "worker_put_failed_total"@,
        "worker_put_rows_total"@,
        "worker_put_batches_total"@,
        "worker_put_files_total"@,
        "worker_put_flight_stream_bytes_total"@,
        "worker_put_parquet_object_bytes_total"@,
        "worker_put_duration_seconds"@,
        "worker_get_started_total"@,
        "worker_get_succeeded_total"@,
        "worker_get_failed_total"@,
        "worker_get_cancelled_total"@,
        "worker_get_object_bytes_total"@,
        "worker_get_duration_seconds"@,
    ]
}

/// The name of a family by its place on the page.
spec fn name_at(index: int) -> Seq<char> {
    family_names()[index]
}

/// The place of a family on the page by its name.
#[verifier::opaque]
spec fn place_of(name: Seq<char>) -> int {
    if name.len() == 9 {
        1
    } else if name.len() == 11 {
        0
    } else if name.len() == 15 {
        3
    } else if name.len() == 19 {
        4
    } else if name.len() == 21 {
        if name[7] == 'u' {
            2
        } else {
            18
        }
    } else if name.len() == 22 {
        if name[12] == 'l' {
            5
        } else {
            20
        }
    } else if name.len() == 23 {
        if name[7] == 'p' {
            if name[12] == 'l' {
                6
            } else {
                17
            }
        } else if name[7] == 'r' {
            9
        } else {
            26
        }
    } else if name.len() == 24 {
        if name[7] == 'r' {
            10
        } else if name[7] == 'p' {
            if name[12] == 't' {
                15
            } else {
                19
            }
        } else {
            24
        }
    } else if name.len() == 26 {
        if name[7] == 'p' {
            if name[12] == 'l' {
                7
            } else {
                16
            }
        } else {
            if name[12] == 'u' {
                25
            } else {
                27
            }
        }
    } else if name.len() == 27 {
        if name[7] == 'r' {
            11
        } else if name[7] == 'p' {
            23
        } else {
            29
        }
    } else if name.len() == 29 {
        28
    } else if name.len() == 32 {
        14
    } else if name.len() == 33 {
        8
    } else if name.len() == 34 {
        12
    } else if name.len() == 36 {
        21
    } else if name.len() == 37 {
        22
    } else if name.len() == 38 {
        13
    } else {
        -1
    }
}

/// A text without a space or a line feed that begins as the names on the page do.
spec fn is_name(name: Seq<char>) -> bool {
    &&& name.len() >= 8
    &&& name[0] == 'w'
    &&& !name.contains(' ')
    &&& !name.contains('\n')
}

proof fn lemma_name(index: int)
    requires
        0 <= index < 30,
    ensures
        is_name(name_at(index)),
        place_of(name_at(index)) == index,
        name_at(index)[7] == 'd' <==> index == 3,
        name_at(index)[7] == 's' <==> index == 4,
{
    reveal(family_names);
    reveal(place_of);
    if index == 0 {
        reveal_strlit("worker_info");
    } else if index == 1 {
        reveal_strlit("worker_up");
    } else if index == 2 {
        reveal_strlit("worker_uptime_seconds");
    } else if index == 3 {
        reveal_strlit("worker_draining");
    } else if index == 4 {
        reveal_strlit("worker_state_active");
    } else if index == 5 {
        reveal_strlit("worker_put_slots_limit");
    } else if index == 6 {
        reveal_strlit("worker_put_slots_active");
    } else if index == 7 {
        reveal_strlit("worker_put_slots_available");
    } else if index == 8 {
        reveal_strlit("worker_put_slot_wait_milliseconds");
    } else if index == 9 {
        reveal_strlit("worker_read_slots_limit");
    } else if index == 10 {
        reveal_strlit("worker_read_slots_active");
    } else if index == 11 {
        reveal_strlit("worker_read_slots_available");
    } else if index == 12 {
        reveal_strlit("worker_read_slot_wait_milliseconds");
    } else if index == 13 {
        reveal_strlit("worker_heartbeat_interval_milliseconds");
    } else if index == 14 {
        reveal_strlit("worker_registry_ttl_milliseconds");
    } else if index == 15 {
        reveal_strlit("worker_put_started_total");
    } else if index == 16 {
        reveal_strlit("worker_put_succeeded_total");
    } else if index == 17 {
        reveal_strlit("worker_put_failed_total");
    } else if index == 18 {
        reveal_strlit("worker_put_rows_total");
    } else if index == 19 {
        reveal_strlit("worker_put_batches_total");
    } else if index == 20 {
        reveal_strlit("worker_put_files_total");
    } else if index == 21 {
        reveal_strlit("worker_put_flight_stream_bytes_total");
    } else if index == 22 {
        reveal_strlit("worker_put_parquet_object_bytes_total");
    } else if index == 23 {
        reveal_strlit("worker_put_duration_seconds");
    } else if index == 24 {
        reveal_strlit("worker_get_started_total");
    } else if index == 25 {
        reveal_strlit("worker_get_succeeded_total");
    } else if index == 26 {
        reveal_strlit("worker_get_failed_total");
    } else if index == 27 {
        reveal_strlit("worker_get_cancelled_total");
    } else if index == 28 {
        reveal_strlit("worker_get_object_bytes_total");
    } else {
        reveal_strlit("worker_get_duration_seconds");
    }
}

proof fn lemma_identity_names()
    ensures
        family_names().len() == 30,
        name_at(0) == "worker_info"@,
        name_at(1) == "worker_up"@,
        name_at(2) == "worker_uptime_seconds"@,
        name_at(3) == "worker_draining"@,
        name_at(4) == "worker_state_active"@,
{
    reveal(family_names);
}

proof fn lemma_slot_names()
    ensures
        name_at(5) == "worker_put_slots_limit"@,
        name_at(6) == "worker_put_slots_active"@,
        name_at(7) == "worker_put_slots_available"@,
        name_at(8) == "worker_put_slot_wait_milliseconds"@,
        name_at(9) == "worker_read_slots_limit"@,
        name_at(10) == "worker_read_slots_active"@,
        name_at(11) == "worker_read_slots_available"@,
        name_at(12) == "worker_read_slot_wait_milliseconds"@,
        name_at(13) == "worker_heartbeat_interval_milliseconds"@,
        name_at(14) == "worker_registry_ttl_milliseconds"@,
{
    reveal(family_names);
}

proof fn lemma_put_names()
    ensures
        name_at(15) == "worker_put_started_total"@,
        name_at(16) == "worker_put_succeeded_total"@,
        name_at(17) == "worker_put_failed_total"@,
        name_at(18) == "worker_put_rows_total"@,
        name_at(19) == "worker_put_batches_total"@,
        name_at(20) == "worker_put_files_total"@,
        name_at(21) == "worker_put_flight_stream_bytes_total"@,
        name_at(22) == "worker_put_parquet_object_bytes_total"@,
        name_at(23) == "worker_put_duration_seconds"@,
{
    reveal(family_names);
}

proof fn lemma_get_names()
    ensures
        name_at(24) == "worker_get_started_total"@,
        name_at(25) == "worker_get_succeeded_total"@,
        name_at(26) == "worker_get_failed_total"@,
        name_at(27) == "worker_get_cancelled_total"@,
        name_at(28) == "worker_get_object_bytes_total"@,
        name_at(29) == "worker_get_duration_seconds"@,
{
    reveal(family_names);
}

/// A text without a line feed.
pub open spec fn is_line(text: Seq<char>) -> bool {
    !text.contains('\n')
}

proof fn lemma_join(a: Seq<char>, b: Seq<char>)
    requires
        is_line(a),
        is_line(b),
    ensures
        is_line(a + b),
{
    assert forall|i: int| 0 <= i < (a + b).len() implies (a + b)[i] != '\n' by {
        if i < a.len() {
            assert(a.contains((a + b)[i]));
        } else {
            assert((a + b)[i] == b[i - a.len()]);
            assert(b.contains((a + b)[i]));
        }
    }
}

proof fn lemma_decimal(n: nat)
    ensures
        is_line(decimal_of(n)),
    decreases n,
{
    if n >= 10 {
        lemma_decimal(n / 10);
        lemma_join(decimal_of(n / 10), seq![digit_char(n % 10)]);
        assert(decimal_of(n / 10) + seq![digit_char(n % 10)] == decimal_of(n));
    }
}

proof fn lemma_label(index: int)
    ensures
        is_line(label_of(index)),
{
    reveal_strlit("0.005");
    reveal_strlit("0.01");
    reveal_strlit("0.025");
    reveal_strlit("0.05");
    reveal_strlit("0.1");
    reveal_strlit("0.25");
    reveal_strlit("0.5");
    reveal_strlit("1");
    reveal_strlit("2.5");
    reveal_strlit("5");
    reveal_strlit("10");
    reveal_strlit("30");
    reveal_strlit("60");
    reveal_strlit("120");
    reveal_strlit("300");
}

// ---------------------------------------------------------------------------
// The text of families

proof fn lemma_text_concat(a: Seq<Seq<char>>, b: Seq<Seq<char>>)
    ensures
        text_of(a + b) == text_of(a) + text_of(b),
    decreases b.len(),
{
    if b.len() == 0 {
        assert(a + b == a);
        assert(text_of(a) + Seq::<char>::empty() == text_of(a));
    } else {
        lemma_text_concat(a, b.drop_last());
        assert((a + b).drop_last() == a + b.drop_last());
        assert(text_of(a) + text_of(b.drop_last()) + (b.last() + "\n"@) == text_of(a) + (text_of(
            b.drop_last(),
        ) + (b.last() + "\n"@)));
    }
}

proof fn lemma_text_push(lines: Seq<Seq<char>>, line: Seq<char>)
    ensures
        text_of(lines.push(line)) == text_of(lines) + (line + "\n"@),
{
    assert(lines.push(line).drop_last() == lines);
}

proof fn lemma_text_one(line: Seq<char>)
    ensures
        text_of(seq![line]) == line + "\n"@,
{
    lemma_text_push(Seq::empty(), line);
    assert(Seq::<Seq<char>>::empty().push(line) == seq![line]);
    assert(Seq::<char>::empty() + (line + "\n"@) == line + "\n"@);
}

proof fn lemma_page_concat(a: Seq<Family>, b: Seq<Family>)
    ensures
        page_lines(a + b) == page_lines(a) + page_lines(b),
    decreases b.len(),
{
    if b.len() == 0 {
        assert(a + b == a);
        assert(page_lines(a) + Seq::<Seq<char>>::empty() == page_lines(a));
    } else {
        lemma_page_concat(a, b.drop_last());
        assert((a + b).drop_last() == a + b.drop_last());
        assert(page_lines(a) + page_lines(b.drop_last()) + family_lines(b.last()) == page_lines(a)
            + (page_lines(b.drop_last()) + family_lines(b.last())));
    }
}

/// Whether a family has a name, its samples begin with it, and each of its lines is one line.
spec fn is_proper(family: Family) -> bool {
    &&& is_name(family.name)
    &&& is_line(family.kind)
    &&& family.help matches Some(help) ==> is_line(help)
    &&& forall|k: int|
        0 <= k < family.samples.len() ==> is_line(#[trigger] family.samples[k]) && has_prefix(
            family.samples[k],
            family.name,
        )
}

spec fn are_proper(families: Seq<Family>) -> bool {
    forall|i: int| 0 <= i < families.len() ==> is_proper(#[trigger] families[i])
}

proof fn lemma_push(families: Seq<Family>, family: Family)
    requires
        are_proper(families),
        is_proper(family),
    ensures
        are_proper(families.push(family)),
        text_of(page_lines(families.push(family))) == text_of(page_lines(families)) + text_of(
            family_lines(family),
        ),
{
    assert(families.push(family).drop_last() == families);
    lemma_text_concat(page_lines(families), family_lines(family));
}

proof fn lemma_begins(name: Seq<char>, rest: Seq<char>)
    ensures
        has_prefix(name + rest, name),
{
    assert((name + rest).take(name.len() as int) == name);
}

proof fn lemma_value(name: Seq<char>, value: u64)
    requires
        is_name(name),
    ensures
        is_line(name + " "@ + decimal_of(value as nat)),
        has_prefix(name + " "@ + decimal_of(value as nat), name),
{
    reveal_strlit(" ");
    lemma_decimal(value as nat);
    lemma_join(name, " "@);
    lemma_join(name + " "@, decimal_of(value as nat));
    lemma_begins(name, " "@ + decimal_of(value as nat));
    assert(name + (" "@ + decimal_of(value as nat)) == name + " "@ + decimal_of(value as nat));
}

proof fn lemma_kinds()
    ensures
        is_line("gauge"@),
        is_line("counter"@),
        is_line("histogram"@),
{
    reveal_strlit("gauge");
    reveal_strlit("counter");
    reveal_strlit("histogram");
}

proof fn lemma_plain(name: Seq<char>, kind: Seq<char>, value: u64)
    requires
        is_name(name),
        is_line(kind),
    ensures
        is_proper(plain(name, kind, value)),
        text_of(family_lines(plain(name, kind, value))) == type_line(name, kind) + value_line(
            name,
            value,
        ),
{
    let family = plain(name, kind, value);
    let typed = typing(name, kind);
    lemma_value(name, value);
    assert(family_lines(family) == seq![typed].push(family.samples[0]));
    lemma_text_one(typed);
    lemma_text_push(seq![typed], family.samples[0]);
}

proof fn lemma_explained(name: Seq<char>, help: Seq<char>, value: u64)
    requires
        is_name(name),
        is_line(help),
    ensures
        is_proper(explained(name, help, value)),
        text_of(family_lines(explained(name, help, value))) == explained_gauge(name, help, value),
{
    let family = explained(name, help, value);
    let helped = "# HELP "@ + name + " "@ + help;
    let typed = typing(name, "gauge"@);
    lemma_kinds();
    lemma_value(name, value);
    assert(family_lines(family) == seq![helped].push(typed).push(family.samples[0]));
    lemma_text_one(helped);
    lemma_text_push(seq![helped], typed);
    lemma_text_push(seq![helped].push(typed), family.samples[0]);
}

proof fn lemma_info(status: WorkerStatus)
    ensures
        is_proper(info(status)),
        text_of(family_lines(info(status))) == help_line("worker_info"@, "Worker identity."@)
            + type_line("worker_info"@, "gauge"@) + info_line(status),
{
    let family = info(status);
    let name = "worker_info"@;
    let first = "worker_info{worker_id=\""@;
    let second = "\",flight_uri=\""@;
    let last = "\"} 1"@;
    let worker_id = escaped_of(status.worker_id@);
    let flight_uri = escaped_of(status.flight_uri@);
    lemma_name(0);
    lemma_identity_names();
    lemma_kinds();
    reveal_strlit("worker_info");
    reveal_strlit("Worker identity.");
    reveal_strlit("worker_info{worker_id=\"");
    reveal_strlit("\",flight_uri=\"");
    reveal_strlit("\"} 1");
    reveal_strlit("\"} 1\n");
    reveal_strlit("\n");
    law_label_reads_back(status.worker_id@);
    law_label_reads_back(status.flight_uri@);
    lemma_join(first, worker_id);
    lemma_join(first + worker_id, second);
    lemma_join(first + worker_id + second, flight_uri);
    lemma_join(first + worker_id + second + flight_uri, last);
    assert(family.samples[0].take(name.len() as int) == name);
    assert(last + "\n"@ == "\"} 1\n"@);
    assert(family.samples[0] + "\n"@ == info_line(status));
    let helped = "# HELP "@ + name + " "@ + "Worker identity."@;
    let typed = typing(name, "gauge"@);
    assert(family_lines(family) == seq![helped].push(typed).push(family.samples[0]));
    lemma_text_one(helped);
    lemma_text_push(seq![helped], typed);
    lemma_text_push(seq![helped].push(typed), family.samples[0]);
}

proof fn lemma_bucket_sample(name: Seq<char>, label: Seq<char>, count: u64)
    requires
        is_name(name),
        is_line(label),
    ensures
        is_line(bucket_sample(name, label, count)),
        has_prefix(bucket_sample(name, label, count), name),
{
    let opening = "_bucket{le=\""@;
    let closing = "\"} "@;
    let number = decimal_of(count as nat);
    reveal_strlit("_bucket{le=\"");
    reveal_strlit("\"} ");
    lemma_decimal(count as nat);
    lemma_join(name, opening);
    lemma_join(name + opening, label);
    lemma_join(name + opening + label, closing);
    lemma_join(name + opening + label + closing, number);
    lemma_begins(name, opening + label + closing + number);
    assert(name + (opening + label + closing + number) == bucket_sample(name, label, count));
}

proof fn lemma_bucket_samples(name: Seq<char>, buckets: Seq<u64>, n: int)
    requires
        is_name(name),
        0 <= n <= BUCKETS,
    ensures
        bucket_samples(name, buckets, n).len() == n,
        forall|k: int|
            0 <= k < n ==> is_line(#[trigger] bucket_samples(name, buckets, n)[k]) && has_prefix(
                bucket_samples(name, buckets, n)[k],
                name,
            ),
        text_of(bucket_samples(name, buckets, n)) == bucket_lines(name, buckets, n),
    decreases n,
{
    if n > 0 {
        lemma_bucket_samples(name, buckets, n - 1);
        lemma_label(n - 1);
        let sample = bucket_sample(name, label_of(n - 1), cumulative_of(buckets, n));
        lemma_bucket_sample(name, label_of(n - 1), cumulative_of(buckets, n));
        lemma_text_push(bucket_samples(name, buckets, n - 1), sample);
    }
}

proof fn lemma_durations(name: Seq<char>, histogram: DurationHistogram, sum_seconds: Seq<char>)
    requires
        is_name(name),
        is_line(sum_seconds),
    ensures
        is_proper(durations(name, histogram, sum_seconds)),
        text_of(family_lines(durations(name, histogram, sum_seconds))) == histogram_of(
            name,
            histogram,
            sum_seconds,
        ),
{
    let family = durations(name, histogram, sum_seconds);
    let buckets = bucket_samples(name, histogram.buckets@, BUCKETS as int);
    let number = decimal_of(histogram.count as nat);
    let all = bucket_sample(name, "+Inf"@, histogram.count);
    let sum = name + "_sum "@ + sum_seconds;
    let count = name + "_count "@ + number;
    lemma_kinds();
    reveal_strlit("+Inf");
    reveal_strlit("_sum ");
    reveal_strlit("_count ");
    lemma_bucket_samples(name, histogram.buckets@, BUCKETS as int);
    lemma_bucket_sample(name, "+Inf"@, histogram.count);
    lemma_decimal(histogram.count as nat);
    lemma_join(name, "_sum "@);
    lemma_join(name + "_sum "@, sum_seconds);
    lemma_begins(name, "_sum "@ + sum_seconds);
    assert(name + ("_sum "@ + sum_seconds) == sum);
    lemma_join(name, "_count "@);
    lemma_join(name + "_count "@, number);
    lemma_begins(name, "_count "@ + number);
    assert(name + ("_count "@ + number) == count);
    lemma_text_push(buckets, all);
    lemma_text_push(buckets.push(all), sum);
    lemma_text_push(buckets.push(all).push(sum), count);
    let typed = typing(name, "histogram"@);
    lemma_text_one(typed);
    lemma_text_concat(seq![typed], family.samples);
    assert(family_lines(family) == seq![typed] + family.samples);
    assert(text_of(family_lines(family)) == histogram_of(name, histogram, sum_seconds));
}

proof fn lemma_add(families: Seq<Family>, index: int, kind: Seq<char>, value: u64) -> (r: Seq<
    Family,
>)
    requires
        are_proper(families),
        0 <= index < 30,
        is_line(kind),
    ensures
        r == families.push(plain(name_at(index), kind, value)),
        are_proper(r),
        text_of(page_lines(r)) == text_of(page_lines(families)) + (type_line(name_at(index), kind)
            + value_line(name_at(index), value)),
{
    lemma_name(index);
    lemma_plain(name_at(index), kind, value);
    lemma_push(families, plain(name_at(index), kind, value));
    families.push(plain(name_at(index), kind, value))
}

proof fn lemma_add_explained(
    families: Seq<Family>,
    index: int,
    help: Seq<char>,
    value: u64,
) -> (r: Seq<Family>)
    requires
        are_proper(families),
        0 <= index < 30,
        is_line(help),
    ensures
        r == families.push(explained(name_at(index), help, value)),
        are_proper(r),
        text_of(page_lines(r)) == text_of(page_lines(families)) + explained_gauge(
            name_at(index),
            help,
            value,
        ),
{
    lemma_name(index);
    lemma_explained(name_at(index), help, value);
    lemma_push(families, explained(name_at(index), help, value));
    families.push(explained(name_at(index), help, value))
}

proof fn lemma_identity(status: WorkerStatus, uptime: u64)
    ensures
        are_proper(identity_families(status, uptime)),
        text_of(page_lines(identity_families(status, uptime))) == identity_of(status, uptime),
{
    reveal(identity_families);
    lemma_identity_names();
    let fs0 = Seq::<Family>::empty();
    lemma_info(status);
    lemma_push(fs0, info(status));
    let fs1 = fs0.push(info(status));
    reveal_strlit("Worker process is running.");
    let fs2 = lemma_add_explained(fs1, 1, "Worker process is running."@, 1);
    reveal_strlit("Worker process uptime in seconds.");
    let fs3 = lemma_add_explained(fs2, 2, "Worker process uptime in seconds."@, uptime);
    reveal_strlit("Whether worker rejects new work.");
    let fs4 = lemma_add_explained(
        fs3,
        3,
        "Whether worker rejects new work."@,
        flag(status.draining),
    );
    reveal_strlit("Whether worker state is ACTIVE.");
    let fs5 = lemma_add_explained(
        fs4,
        4,
        "Whether worker state is ACTIVE."@,
        flag(status.state == WorkerState::Active),
    );
    assert(fs5 == identity_families(status, uptime));
    assert(text_of(page_lines(fs5)) == identity_of(status, uptime));
}

proof fn lemma_slots(status: WorkerStatus)
    ensures
        are_proper(slot_families(status)),
        text_of(page_lines(slot_families(status))) == slots_of(status),
{
    reveal(slot_families);
    lemma_slot_names();
    let fs0 = Seq::<Family>::empty();
    lemma_kinds();
    let fs1 = lemma_add(fs0, 5, "gauge"@, status.put.limit as u64);
    let fs2 = lemma_add(fs1, 6, "gauge"@, status.put.active as u64);
    let fs3 = lemma_add(fs2, 7, "gauge"@, status.put.available as u64);
    let fs4 = lemma_add(fs3, 8, "gauge"@, status.put.slot_wait_ms);
    let fs5 = lemma_add(fs4, 9, "gauge"@, status.read.limit as u64);
    let fs6 = lemma_add(fs5, 10, "gauge"@, status.read.active as u64);
    let fs7 = lemma_add(fs6, 11, "gauge"@, status.read.available as u64);
    let fs8 = lemma_add(fs7, 12, "gauge"@, status.read.slot_wait_ms);
    let fs9 = lemma_add(fs8, 13, "gauge"@, status.heartbeat_interval_ms);
    let fs10 = lemma_add(fs9, 14, "gauge"@, status.registry_ttl_ms);
    assert(fs10 == slot_families(status));
    assert(text_of(page_lines(fs10)) == slots_of(status));
}

proof fn lemma_puts(metrics: WorkerMetrics, sum_seconds: Seq<char>)
    requires
        is_line(sum_seconds),
    ensures
        are_proper(put_families(metrics, sum_seconds)),
        text_of(page_lines(put_families(metrics, sum_seconds))) == puts_of(metrics, sum_seconds),
{
    reveal(put_families);
    lemma_put_names();
    let fs0 = Seq::<Family>::empty();
    lemma_kinds();
    let fs1 = lemma_add(fs0, 15, "counter"@, metrics.put_started);
    let fs2 = lemma_add(fs1, 16, "counter"@, metrics.put_succeeded);
    let fs3 = lemma_add(fs2, 17, "counter"@, metrics.put_failed);
    let fs4 = lemma_add(fs3, 18, "counter"@, metrics.put_rows);
    let fs5 = lemma_add(fs4, 19, "counter"@, metrics.put_batches);
    let fs6 = lemma_add(fs5, 20, "counter"@, metrics.put_files);
    let fs7 = lemma_add(fs6, 21, "counter"@, metrics.put_flight_stream_bytes);
    let fs8 = lemma_add(fs7, 22, "counter"@, metrics.put_parquet_object_bytes);
    lemma_name(23);
    lemma_durations(name_at(23), metrics.put_duration, sum_seconds);
    let last = durations(name_at(23), metrics.put_duration, sum_seconds);
    lemma_push(fs8, last);
    let fs9 = fs8.push(last);
    assert(fs9 == put_families(metrics, sum_seconds));
    assert(text_of(page_lines(fs9)) == puts_of(metrics, sum_seconds));
}

proof fn lemma_gets(metrics: WorkerMetrics, sum_seconds: Seq<char>)
    requires
        is_line(sum_seconds),
    ensures
        are_proper(get_families(metrics, sum_seconds)),
        text_of(page_lines(get_families(metrics, sum_seconds))) == gets_of(metrics, sum_seconds),
{
    reveal(get_families);
    lemma_get_names();
    let fs0 = Seq::<Family>::empty();
    lemma_kinds();
    let fs1 = lemma_add(fs0, 24, "counter"@, metrics.get_started);
    let fs2 = lemma_add(fs1, 25, "counter"@, metrics.get_succeeded);
    let fs3 = lemma_add(fs2, 26, "counter"@, metrics.get_failed);
    let fs4 = lemma_add(fs3, 27, "counter"@, metrics.get_cancelled);
    let fs5 = lemma_add(fs4, 28, "counter"@, metrics.get_object_bytes);
    lemma_name(29);
    lemma_durations(name_at(29), metrics.get_duration, sum_seconds);
    let last = durations(name_at(29), metrics.get_duration, sum_seconds);
    lemma_push(fs5, last);
    let fs6 = fs5.push(last);
    assert(fs6 == get_families(metrics, sum_seconds));
    assert(text_of(page_lines(fs6)) == gets_of(metrics, sum_seconds));
}

// ---------------------------------------------------------------------------
// Lines of the page

proof fn lemma_split_tail(s: Seq<char>, line: Seq<char>)
    requires
        is_line(line),
    ensures
        split_of(s + line, '\n') == split_of(s, '\n').drop_last().push(
            split_of(s, '\n').last() + line,
        ),
    decreases line.len(),
{
    let parts = split_of(s, '\n');
    lemma_split_nonempty(s, '\n');
    if line.len() == 0 {
        assert(s + line == s);
        assert(parts.last() + line == parts.last());
        assert(parts.drop_last().push(parts.last()) == parts);
    } else {
        let before = line.drop_last();
        assert(line.contains(line.last()));
        assert(is_line(before)) by {
            assert forall|i: int| 0 <= i < before.len() implies before[i] != '\n' by {
                assert(line.contains(line[i]));
            }
        }
        lemma_split_tail(s, before);
        assert((s + line).drop_last() == s + before);
        let so_far = parts.drop_last().push(parts.last() + before);
        assert(so_far.drop_last() == parts.drop_last());
        assert((parts.last() + before).push(line.last()) == parts.last() + line);
    }
}

proof fn lemma_split_lines(lines: Seq<Seq<char>>)
    requires
        forall|i: int| 0 <= i < lines.len() ==> is_line(#[trigger] lines[i]),
    ensures
        split_of(text_of(lines), '\n') == lines.push(Seq::empty()),
    decreases lines.len(),
{
    if lines.len() == 0 {
        assert(lines.push(Seq::empty()) == seq![Seq::<char>::empty()]);
    } else {
        let before = lines.drop_last();
        let line = lines.last();
        lemma_split_lines(before);
        assert(is_line(lines[lines.len() - 1]));
        lemma_split_tail(text_of(before), line);
        reveal_strlit("\n");
        let text = text_of(before) + line;
        assert(before.push(Seq::empty()).drop_last() == before);
        assert(Seq::<char>::empty() + line == line);
        assert(before.push(line) == lines);
        assert(text_of(lines) == text.push('\n'));
        assert(text.push('\n').drop_last() == text);
    }
}

proof fn lemma_typing_is_line(name: Seq<char>, kind: Seq<char>)
    requires
        is_line(name),
        is_line(kind),
    ensures
        is_line(typing(name, kind)),
        is_line("# HELP "@ + name + " "@ + kind),
{
    reveal_strlit("# TYPE ");
    reveal_strlit("# HELP ");
    reveal_strlit(" ");
    lemma_join("# TYPE "@, name);
    lemma_join("# TYPE "@ + name, " "@);
    lemma_join("# TYPE "@ + name + " "@, kind);
    lemma_join("# HELP "@, name);
    lemma_join("# HELP "@ + name, " "@);
    lemma_join("# HELP "@ + name + " "@, kind);
}

proof fn lemma_lines(families: Seq<Family>)
    requires
        are_proper(families),
    ensures
        forall|j: int|
            0 <= j < page_lines(families).len() ==> is_line(#[trigger] page_lines(families)[j]),
    decreases families.len(),
{
    if families.len() > 0 {
        let before = families.drop_last();
        let family = families.last();
        lemma_lines(before);
        assert(is_proper(families[families.len() - 1]));
        lemma_typing_is_line(family.name, family.kind);
        if family.help is Some {
            lemma_typing_is_line(family.name, family.help->0);
        }
        assert forall|j: int| 0 <= j < page_lines(families).len() implies is_line(
            #[trigger] page_lines(families)[j],
        ) by {
            if j >= page_lines(before).len() {
                assert(page_lines(families)[j] == family_lines(family)[j
                    - page_lines(before).len()]);
            } else {
                assert(page_lines(families)[j] == page_lines(before)[j]);
            }
        }
    }
}

/// How many lines stand before a family.
pub open spec fn start_of(families: Seq<Family>, i: int) -> int {
    page_lines(families.take(i)).len() as int
}

/// Where the line stands that types a family.
pub open spec fn type_at(families: Seq<Family>, i: int) -> int {
    start_of(families, i) + (if families[i].help is Some {
        1int
    } else {
        0int
    })
}

proof fn lemma_at(families: Seq<Family>, i: int, k: int)
    requires
        0 <= i < families.len(),
        0 <= k < family_lines(families[i]).len(),
    ensures
        0 <= start_of(families, i) + k < page_lines(families).len(),
        page_lines(families)[start_of(families, i) + k] == family_lines(families[i])[k],
{
    let upto = families.take(i + 1);
    assert(upto.drop_last() == families.take(i));
    assert(upto + families.skip(i + 1) == families);
    lemma_page_concat(upto, families.skip(i + 1));
}

proof fn lemma_owner(families: Seq<Family>, j: int) -> (i: int)
    requires
        0 <= j < page_lines(families).len(),
    ensures
        0 <= i < families.len(),
        0 <= j - start_of(families, i) < family_lines(families[i]).len(),
        page_lines(families)[j] == family_lines(families[i])[j - start_of(families, i)],
    decreases families.len(),
{
    let before = families.drop_last();
    if j < page_lines(before).len() {
        let i = lemma_owner(before, j);
        assert(before.take(i) == families.take(i));
        i
    } else {
        assert(families.take(families.len() - 1) == before);
        families.len() - 1
    }
}

/// Whether families have the names of the page, in order.
spec fn are_named(families: Seq<Family>) -> bool {
    &&& families.len() == 30
    &&& forall|i: int| 0 <= i < 30 ==> (#[trigger] families[i]).name == name_at(i)
}

proof fn lemma_families(
    metrics: WorkerMetrics,
    status: WorkerStatus,
    uptime: u64,
    put_seconds: Seq<char>,
    get_seconds: Seq<char>,
)
    requires
        is_line(put_seconds),
        is_line(get_seconds),
    ensures
        are_proper(families_of(metrics, status, uptime, put_seconds, get_seconds)),
        are_named(families_of(metrics, status, uptime, put_seconds, get_seconds)),
        identity_families(status, uptime).len() == 5,
{
    lemma_identity(status, uptime);
    lemma_slots(status);
    lemma_puts(metrics, put_seconds);
    lemma_gets(metrics, get_seconds);
    reveal(identity_families);
    reveal(slot_families);
    reveal(put_families);
    reveal(get_families);
    lemma_identity_names();
    lemma_slot_names();
    lemma_put_names();
    lemma_get_names();
}

/// The page is its families, one behind the other: split at its line feeds it gives their lines,
/// and behind the last line feed nothing.
pub proof fn law_page_is_its_families(
    metrics: WorkerMetrics,
    status: WorkerStatus,
    uptime: u64,
    put_seconds: Seq<char>,
    get_seconds: Seq<char>,
)
    requires
        is_line(put_seconds),
        is_line(get_seconds),
    ensures
        split_of(prometheus_of(metrics, status, uptime, put_seconds, get_seconds), '\n')
            == page_lines(families_of(metrics, status, uptime, put_seconds, get_seconds)).push(
            Seq::empty(),
        ),
{
    let identity = identity_families(status, uptime);
    let slots = slot_families(status);
    let puts = put_families(metrics, put_seconds);
    let gets = get_families(metrics, get_seconds);
    let families = families_of(metrics, status, uptime, put_seconds, get_seconds);
    lemma_identity(status, uptime);
    lemma_slots(status);
    lemma_puts(metrics, put_seconds);
    lemma_gets(metrics, get_seconds);
    lemma_families(metrics, status, uptime, put_seconds, get_seconds);
    lemma_page_concat(identity, slots);
    lemma_page_concat(identity + slots, puts);
    lemma_page_concat(identity + slots + puts, gets);
    lemma_text_concat(page_lines(identity), page_lines(slots));
    lemma_text_concat(page_lines(identity + slots), page_lines(puts));
    lemma_text_concat(page_lines(identity + slots + puts), page_lines(gets));
    lemma_lines(families);
    lemma_split_lines(page_lines(families));
}

/// Whether a line types the metric of this name.
pub open spec fn is_type_line(line: Seq<char>, name: Seq<char>) -> bool {
    has_prefix(line, "# TYPE "@ + name + " "@)
}

/// Whether a line is a sample: it is no comment and not empty.
pub open spec fn is_sample(line: Seq<char>) -> bool {
    line.len() > 0 && line[0] != '#'
}

proof fn lemma_typing_names(name: Seq<char>, other: Seq<char>, kind: Seq<char>)
    requires
        is_name(name),
        is_name(other),
        is_type_line(typing(other, kind), name),
    ensures
        name == other,
{
    let line = typing(other, kind);
    let prefix = "# TYPE "@ + name + " "@;
    reveal_strlit("# TYPE ");
    reveal_strlit(" ");
    assert forall|k: int| 0 <= k < prefix.len() implies prefix[k] == line[k] by {
        assert(line.take(prefix.len() as int)[k] == line[k]);
    }
    assert(prefix[7 + name.len() as int] == ' ');
    if name.len() < other.len() {
        assert(line[7 + name.len() as int] == other[name.len() as int]);
        assert(other.contains(' '));
    } else if other.len() < name.len() {
        assert(line[7 + other.len() as int] == ' ');
        assert(prefix[7 + other.len() as int] == name[other.len() as int]);
        assert(name.contains(' '));
    } else {
        assert forall|k: int| 0 <= k < name.len() implies name[k] == other[k] by {
            assert(prefix[7 + k] == name[k]);
            assert(line[7 + k] == other[k]);
        }
        assert(name == other);
    }
}

/// What a line of a family can be: its help, its type, or one of its samples.
proof fn lemma_line_kinds(family: Family, k: int, name: Seq<char>)
    requires
        is_proper(family),
        is_name(name),
        0 <= k < family_lines(family).len(),
    ensures
        ({
            let before: int = if family.help is Some {
                1
            } else {
                0
            };
            let line = family_lines(family)[k];
            &&& line.len() > 0
            &&& line[0] == '#' || line[0] == 'w'
            &&& line[0] == '#' <==> k <= before
            &&& k > before ==> k - before - 1 < family.samples.len() && line
                == family.samples[k - before - 1]
            &&& k == before ==> line == typing(family.name, family.kind)
            &&& is_type_line(line, name) ==> k == before && name == family.name
            &&& is_type_line(typing(family.name, family.kind), family.name)
        }),
{
    let before: int = if family.help is Some {
        1
    } else {
        0
    };
    let line = family_lines(family)[k];
    let prefix = "# TYPE "@ + name + " "@;
    reveal_strlit("# TYPE ");
    reveal_strlit("# HELP ");
    reveal_strlit(" ");
    if is_type_line(line, name) {
        assert(line.take(prefix.len() as int)[0] == line[0]);
        assert(line.take(prefix.len() as int)[2] == line[2]);
        assert(prefix[0] == '#');
        assert(prefix[2] == 'T');
    }
    if k > before {
        let sample = family.samples[k - before - 1];
        assert(line == sample);
        assert(sample.take(family.name.len() as int)[0] == sample[0]);
    } else if k < before {
        assert(line == "# HELP "@ + family.name + " "@ + family.help->0);
        assert(line[2] == 'H');
    } else {
        assert(line == typing(family.name, family.kind));
        if is_type_line(line, name) {
            lemma_typing_names(name, family.name, family.kind);
        }
    }
    lemma_begins("# TYPE "@ + family.name + " "@, family.kind);
}

proof fn lemma_one_type_line(families: Seq<Family>, i: int)
    requires
        are_proper(families),
        are_named(families),
        0 <= i < families.len(),
    ensures
        ({
            let lines = page_lines(families).push(Seq::empty());
            let at = type_at(families, i);
            &&& 0 <= at < lines.len()
            &&& is_type_line(lines[at], families[i].name)
            &&& forall|j: int|
                0 <= j < lines.len() && is_type_line(#[trigger] lines[j], families[i].name) ==> j
                    == at
            &&& lines.subrange(at + 1, at + 1 + families[i].samples.len()) == families[i].samples
        }),
{
    let lines = page_lines(families).push(Seq::empty());
    let name = families[i].name;
    let samples = families[i].samples;
    let at = type_at(families, i);
    let start = start_of(families, i);
    assert(is_proper(families[i]));
    lemma_at(families, i, at - start);
    lemma_line_kinds(families[i], at - start, name);
    assert forall|j: int|
        0 <= j < lines.len() && is_type_line(#[trigger] lines[j], name) implies j == at by {
        assert(lines[j].len() > 0) by {
            reveal_strlit("# TYPE ");
        }
        let owner = lemma_owner(families, j);
        assert(is_proper(families[owner]));
        lemma_line_kinds(families[owner], j - start_of(families, owner), name);
        lemma_name(owner);
        lemma_name(i);
        assert(families[owner].name == name_at(owner));
        assert(families[i].name == name_at(i));
        assert(owner == i);
    }
    if samples.len() > 0 {
        lemma_at(families, i, at - start + samples.len());
    }
    let behind = lines.subrange(at + 1, at + 1 + samples.len());
    assert forall|k: int| 0 <= k < samples.len() implies #[trigger] behind[k] == samples[k] by {
        lemma_at(families, i, at - start + 1 + k);
    }
    assert(behind == samples);
}

/// Every family on the page has exactly one line that types it, and its samples are the lines right
/// behind that one.
pub proof fn law_one_type_line(
    metrics: WorkerMetrics,
    status: WorkerStatus,
    uptime: u64,
    put_seconds: Seq<char>,
    get_seconds: Seq<char>,
    i: int,
)
    requires
        is_line(put_seconds),
        is_line(get_seconds),
        0 <= i < families_of(metrics, status, uptime, put_seconds, get_seconds).len(),
    ensures
        ({
            let page = prometheus_of(metrics, status, uptime, put_seconds, get_seconds);
            let lines = split_of(page, '\n');
            let families = families_of(metrics, status, uptime, put_seconds, get_seconds);
            let at = type_at(families, i);
            &&& 0 <= at < lines.len()
            &&& is_type_line(lines[at], families[i].name)
            &&& forall|j: int|
                0 <= j < lines.len() && is_type_line(#[trigger] lines[j], families[i].name) ==> j
                    == at
            &&& lines.subrange(at + 1, at + 1 + families[i].samples.len()) == families[i].samples
        }),
{
    law_page_is_its_families(metrics, status, uptime, put_seconds, get_seconds);
    lemma_families(metrics, status, uptime, put_seconds, get_seconds);
    lemma_one_type_line(families_of(metrics, status, uptime, put_seconds, get_seconds), i);
}

proof fn lemma_sample(families: Seq<Family>, j: int) -> (i: int)
    requires
        are_proper(families),
        0 <= j < page_lines(families).push(Seq::empty()).len(),
        is_sample(page_lines(families).push(Seq::empty())[j]),
    ensures
        0 <= i < families.len(),
        has_prefix(page_lines(families).push(Seq::empty())[j], families[i].name),
        type_at(families, i) < j <= type_at(families, i) + families[i].samples.len(),
{
    let i = lemma_owner(families, j);
    assert(is_proper(families[i]));
    lemma_line_kinds(families[i], j - start_of(families, i), families[i].name);
    i
}

/// Every sample on the page begins with the name of a family, and stands behind the line that types
/// that family.
pub proof fn law_samples_follow_their_type(
    metrics: WorkerMetrics,
    status: WorkerStatus,
    uptime: u64,
    put_seconds: Seq<char>,
    get_seconds: Seq<char>,
    j: int,
)
    requires
        is_line(put_seconds),
        is_line(get_seconds),
        0 <= j < split_of(
            prometheus_of(metrics, status, uptime, put_seconds, get_seconds),
            '\n',
        ).len(),
        is_sample(
            split_of(prometheus_of(metrics, status, uptime, put_seconds, get_seconds), '\n')[j],
        ),
    ensures
        ({
            let page = prometheus_of(metrics, status, uptime, put_seconds, get_seconds);
            let line = split_of(page, '\n')[j];
            let families = families_of(metrics, status, uptime, put_seconds, get_seconds);
            exists|i: int|
                {
                    &&& 0 <= i < families.len()
                    &&& has_prefix(line, (#[trigger] families[i]).name)
                    &&& type_at(families, i) < j <= type_at(families, i)
                        + families[i].samples.len()
                }
        }),
{
    let families = families_of(metrics, status, uptime, put_seconds, get_seconds);
    law_page_is_its_families(metrics, status, uptime, put_seconds, get_seconds);
    lemma_families(metrics, status, uptime, put_seconds, get_seconds);
    let i = lemma_sample(families, j);
    assert(has_prefix(page_lines(families).push(Seq::empty())[j], families[i].name));
}

/// Whether the line at a place is the only one that types the metric of this name.
pub open spec fn is_typed_at(lines: Seq<Seq<char>>, name: Seq<char>, at: int) -> bool {
    &&& 0 <= at < lines.len()
    &&& is_type_line(lines[at], name)
    &&& forall|j: int|
        0 <= j < lines.len() && is_type_line(#[trigger] lines[j], name) ==> j == at
}

/// Whether the line at a place is a sample of a family: between it and the line that types the
/// family there are only samples of that family.
pub open spec fn is_sample_of(lines: Seq<Seq<char>>, i: int, at: int, j: int) -> bool {
    &&& 0 <= i < family_names().len()
    &&& is_typed_at(lines, family_names()[i], at)
    &&& at < j
    &&& forall|k: int|
        at < k <= j ==> is_sample(#[trigger] lines[k]) && has_prefix(lines[k], family_names()[i])
}

/// Whether exactly one line types a family.
pub open spec fn has_one_type(lines: Seq<Seq<char>>, i: int) -> bool {
    exists|at: int| is_typed_at(lines, family_names()[i], at)
}

/// Whether the line at a place stands behind the one that types its family.
pub open spec fn follows_its_type(lines: Seq<Seq<char>>, j: int) -> bool {
    exists|i: int, at: int| is_sample_of(lines, i, at, j)
}

/// Whether every family has exactly one line that types it, and every sample stands behind the one
/// of its family.
pub open spec fn is_typed(lines: Seq<Seq<char>>) -> bool {
    &&& forall|i: int| 0 <= i < family_names().len() ==> #[trigger] has_one_type(lines, i)
    &&& forall|j: int|
        0 <= j < lines.len() && is_sample(lines[j]) ==> #[trigger] follows_its_type(lines, j)
}

proof fn lemma_sample_line(families: Seq<Family>, i: int, j: int)
    requires
        are_proper(families),
        0 <= i < families.len(),
        type_at(families, i) < j <= type_at(families, i) + families[i].samples.len(),
    ensures
        0 <= j < page_lines(families).push(Seq::empty()).len(),
        is_sample(page_lines(families).push(Seq::empty())[j]),
        has_prefix(page_lines(families).push(Seq::empty())[j], families[i].name),
{
    let family = families[i];
    let k = j - start_of(families, i);
    assert(is_proper(family));
    lemma_at(families, i, k);
    lemma_line_kinds(family, k, family.name);
}

proof fn lemma_typed_sample(families: Seq<Family>, j: int)
    requires
        are_proper(families),
        are_named(families),
        0 <= j < page_lines(families).push(Seq::empty()).len(),
        is_sample(page_lines(families).push(Seq::empty())[j]),
    ensures
        follows_its_type(page_lines(families).push(Seq::empty()), j),
{
    let lines = page_lines(families).push(Seq::empty());
    let i = lemma_sample(families, j);
    let at = type_at(families, i);
    lemma_identity_names();
    lemma_one_type_line(families, i);
    assert(families[i].name == name_at(i));
    assert(is_typed_at(lines, family_names()[i], at));
    assert forall|k: int| at < k <= j implies is_sample(#[trigger] lines[k]) && has_prefix(
        lines[k],
        family_names()[i],
    ) by {
        lemma_sample_line(families, i, k);
    }
    assert(is_sample_of(lines, i, at, j));
}

proof fn lemma_typed_family(families: Seq<Family>, i: int)
    requires
        are_proper(families),
        are_named(families),
        0 <= i < families.len(),
    ensures
        has_one_type(page_lines(families).push(Seq::empty()), i),
{
    let lines = page_lines(families).push(Seq::empty());
    lemma_one_type_line(families, i);
    assert(families[i].name == name_at(i));
    assert(is_typed_at(lines, family_names()[i], type_at(families, i)));
}

proof fn lemma_is_typed(families: Seq<Family>)
    requires
        are_proper(families),
        are_named(families),
    ensures
        is_typed(page_lines(families).push(Seq::empty())),
{
    let lines = page_lines(families).push(Seq::empty());
    lemma_identity_names();
    assert forall|i: int| 0 <= i < family_names().len() implies #[trigger] has_one_type(
        lines,
        i,
    ) by {
        lemma_typed_family(families, i);
    }
    assert forall|j: int|
        0 <= j < lines.len() && is_sample(lines[j]) implies #[trigger] follows_its_type(
        lines,
        j,
    ) by {
        lemma_typed_sample(families, j);
    }
}

/// Every family on the page has exactly one line that types it, and every sample stands behind the
/// one of its family.
pub proof fn law_page_is_typed(
    metrics: WorkerMetrics,
    status: WorkerStatus,
    uptime: u64,
    put_seconds: Seq<char>,
    get_seconds: Seq<char>,
)
    requires
        is_line(put_seconds),
        is_line(get_seconds),
    ensures
        is_typed(
            split_of(prometheus_of(metrics, status, uptime, put_seconds, get_seconds), '\n'),
        ),
{
    law_page_is_its_families(metrics, status, uptime, put_seconds, get_seconds);
    lemma_families(metrics, status, uptime, put_seconds, get_seconds);
    lemma_is_typed(families_of(metrics, status, uptime, put_seconds, get_seconds));
}

/// The line of the uptime.
pub open spec fn uptime_line(uptime: u64) -> Seq<char> {
    "worker_uptime_seconds"@ + " "@ + decimal_of(uptime as nat)
}

proof fn lemma_one_moves(families: Seq<Family>, moved: Seq<Family>, uptime: u64, later: u64)
    requires
        families.len() >= 3,
        families[2].help is Some,
        families[2].samples == seq![uptime_line(uptime)],
        moved == families.update(
            2,
            (Family { samples: seq![uptime_line(later)], ..families[2] }),
        ),
    ensures
        ({
            let before = page_lines(families).push(Seq::empty());
            let after = page_lines(moved).push(Seq::empty());
            let at = type_at(families, 2) + 1;
            &&& 0 <= at < before.len()
            &&& before[at] == uptime_line(uptime)
            &&& after == before.update(at, uptime_line(later))
        }),
{
    let before = page_lines(families);
    let after = page_lines(moved);
    let first = families.take(2);
    let rest = families.skip(3);
    let at = type_at(families, 2) + 1;
    assert(first.push(families[2]) + rest == families);
    assert(first.push(moved[2]) + rest == moved);
    lemma_page_concat(first.push(families[2]), rest);
    lemma_page_concat(first.push(moved[2]), rest);
    assert(first.push(families[2]).drop_last() == first);
    assert(first.push(moved[2]).drop_last() == first);
    assert(family_lines(families[2])[2] == uptime_line(uptime));
    assert(family_lines(moved[2]) == family_lines(families[2]).update(2, uptime_line(later)));
    assert(before[at] == uptime_line(uptime));
    assert(after == before.update(at, uptime_line(later)));
    assert(after.push(Seq::empty()) == before.push(Seq::empty()).update(at, uptime_line(later)));
}

proof fn lemma_identity_moves(status: WorkerStatus, uptime: u64, later: u64)
    ensures
        identity_families(status, uptime).len() == 5,
        identity_families(status, uptime)[2].help is Some,
        identity_families(status, uptime)[2].samples == seq![uptime_line(uptime)],
        identity_families(status, later) == identity_families(status, uptime).update(
            2,
            (Family {
                samples: seq![uptime_line(later)],
                ..identity_families(status, uptime)[2]
            }),
        ),
{
    reveal(identity_families);
}

proof fn lemma_families_move(
    metrics: WorkerMetrics,
    status: WorkerStatus,
    uptime: u64,
    later: u64,
    put_seconds: Seq<char>,
    get_seconds: Seq<char>,
)
    ensures
        ({
            let families = families_of(metrics, status, uptime, put_seconds, get_seconds);
            let moved = families_of(metrics, status, later, put_seconds, get_seconds);
            let before = page_lines(families).push(Seq::empty());
            let at = type_at(families, 2) + 1;
            &&& 0 <= at < before.len()
            &&& before[at] == uptime_line(uptime)
            &&& page_lines(moved).push(Seq::empty()) == before.update(at, uptime_line(later))
        }),
{
    let families = families_of(metrics, status, uptime, put_seconds, get_seconds);
    let moved = families_of(metrics, status, later, put_seconds, get_seconds);
    lemma_identity_moves(status, uptime, later);
    assert(moved == families.update(
        2,
        (Family { samples: seq![uptime_line(later)], ..families[2] }),
    ));
    lemma_one_moves(families, moved, uptime, later);
}

/// Two pages of one state differ in at most one line: that of the uptime.
pub proof fn law_only_uptime_moves(
    metrics: WorkerMetrics,
    status: WorkerStatus,
    uptime: u64,
    later: u64,
    put_seconds: Seq<char>,
    get_seconds: Seq<char>,
)
    requires
        is_line(put_seconds),
        is_line(get_seconds),
    ensures
        ({
            let before = split_of(
                prometheus_of(metrics, status, uptime, put_seconds, get_seconds),
                '\n',
            );
            let after = split_of(
                prometheus_of(metrics, status, later, put_seconds, get_seconds),
                '\n',
            );
            exists|at: int|
                {
                    &&& 0 <= at < before.len()
                    &&& #[trigger] before[at] == uptime_line(uptime)
                    &&& after == before.update(at, uptime_line(later))
                }
        }),
{
    law_page_is_its_families(metrics, status, uptime, put_seconds, get_seconds);
    law_page_is_its_families(metrics, status, later, put_seconds, get_seconds);
    lemma_families_move(metrics, status, uptime, later, put_seconds, get_seconds);
}

proof fn lemma_flag(families: Seq<Family>, i: int, value: u64, shown: u64)
    requires
        are_proper(families),
        are_named(families),
        i == 3 || i == 4,
        value <= 1,
        shown <= 1,
        families[i].help is Some,
        families[i].samples == seq![name_at(i) + " "@ + decimal_of(shown as nat)],
    ensures
        page_lines(families).push(Seq::empty()).contains(
            name_at(i) + " "@ + decimal_of(value as nat),
        ) <==> value == shown,
{
    let lines = page_lines(families).push(Seq::empty());
    let line = name_at(i) + " "@ + decimal_of(value as nat);
    let there = name_at(i) + " "@ + decimal_of(shown as nat);
    lemma_name(i);
    lemma_at(families, i, 2);
    assert(lines[start_of(families, i) + 2] == there);
    if lines.contains(line) {
        let j = lines.index_of(line);
        assert(lines[j] == line);
        assert(line[0] == 'w');
        let owner = lemma_owner(families, j);
        assert(is_proper(families[owner]));
        lemma_line_kinds(families[owner], j - start_of(families, owner), families[owner].name);
        lemma_name(owner);
        assert(families[owner].name == name_at(owner));
        let name = families[owner].name;
        assert(has_prefix(line, name));
        assert(line.take(name.len() as int)[7] == line[7]);
        assert(line[7] == name_at(i)[7]);
        assert(owner == i);
        assert(line == there);
        assert(line[line.len() - 1] == digit_char(value as nat));
        assert(there[line.len() - 1] == digit_char(shown as nat));
    }
}

proof fn lemma_flag_texts()
    ensures
        name_at(3) + " "@ + decimal_of(1) == "worker_draining 1"@,
        name_at(3) + " "@ + decimal_of(0) == "worker_draining 0"@,
        name_at(4) + " "@ + decimal_of(1) == "worker_state_active 1"@,
        name_at(4) + " "@ + decimal_of(0) == "worker_state_active 0"@,
{
    lemma_identity_names();
    reveal_strlit("worker_draining");
    reveal_strlit("worker_state_active");
    reveal_strlit("worker_draining 1");
    reveal_strlit("worker_draining 0");
    reveal_strlit("worker_state_active 1");
    reveal_strlit("worker_state_active 0");
    reveal_strlit(" ");
}

proof fn lemma_flag_families(status: WorkerStatus, uptime: u64)
    ensures
        identity_families(status, uptime).len() == 5,
        identity_families(status, uptime)[3].help is Some,
        identity_families(status, uptime)[3].samples == seq![
            name_at(3) + " "@ + decimal_of(flag(status.draining) as nat),
        ],
        identity_families(status, uptime)[4].help is Some,
        identity_families(status, uptime)[4].samples == seq![
            name_at(4) + " "@ + decimal_of(flag(status.state == WorkerState::Active) as nat),
        ],
{
    reveal(identity_families);
    lemma_identity_names();
}

/// Whether lines tell of a worker whether it is draining, and whether it is active.
pub open spec fn shows_state(lines: Seq<Seq<char>>, status: WorkerStatus) -> bool {
    &&& lines.contains("worker_draining 1"@) <==> status.draining
    &&& lines.contains("worker_draining 0"@) <==> !status.draining
    &&& lines.contains("worker_state_active 1"@) <==> status.state == WorkerState::Active
    &&& lines.contains("worker_state_active 0"@) <==> status.state != WorkerState::Active
}

/// The page tells whether the worker is draining, and whether it is active: of the two lines that
/// each of these can have, exactly the one that holds stands on it.
pub proof fn law_flag_lines(
    metrics: WorkerMetrics,
    status: WorkerStatus,
    uptime: u64,
    put_seconds: Seq<char>,
    get_seconds: Seq<char>,
)
    requires
        is_line(put_seconds),
        is_line(get_seconds),
    ensures
        shows_state(
            split_of(prometheus_of(metrics, status, uptime, put_seconds, get_seconds), '\n'),
            status,
        ),
{
    let families = families_of(metrics, status, uptime, put_seconds, get_seconds);
    let draining = flag(status.draining);
    let active = flag(status.state == WorkerState::Active);
    law_page_is_its_families(metrics, status, uptime, put_seconds, get_seconds);
    lemma_families(metrics, status, uptime, put_seconds, get_seconds);
    lemma_flag_texts();
    lemma_flag_families(status, uptime);
    assert(families[3] == identity_families(status, uptime)[3]);
    assert(families[4] == identity_families(status, uptime)[4]);
    lemma_flag(families, 3, 1, draining);
    lemma_flag(families, 3, 0, draining);
    lemma_flag(families, 4, 1, active);
    lemma_flag(families, 4, 0, active);
}

/// Whether a function writes each number as one text, and that in one line.
pub open spec fn writes_one_line<F: Fn(u64) -> String>(seconds: F) -> bool {
    &&& forall|ms: u64, a: String, b: String|
        #[trigger] seconds.ensures((ms,), a) && #[trigger] seconds.ensures((ms,), b) ==> a@ == b@
    &&& forall|ms: u64, a: String| #[trigger] seconds.ensures((ms,), a) ==> is_line(a@)
}

/// Whether the lines of two pages differ at most at one place, which has the line of the uptime in
/// both.
pub open spec fn differ_in_uptime(
    before: Seq<Seq<char>>,
    after: Seq<Seq<char>>,
    at: int,
) -> bool {
    &&& before.len() == after.len()
    &&& 0 <= at < before.len()
    &&& has_prefix(before[at], "worker_uptime_seconds "@)
    &&& has_prefix(after[at], "worker_uptime_seconds "@)
    &&& forall|j: int| 0 <= j < before.len() && j != at ==> #[trigger] before[j] == after[j]
}

proof fn lemma_uptime_prefix(uptime: u64)
    ensures
        has_prefix(uptime_line(uptime), "worker_uptime_seconds "@),
{
    reveal_strlit("worker_uptime_seconds");
    reveal_strlit(" ");
    reveal_strlit("worker_uptime_seconds ");
    assert("worker_uptime_seconds"@ + " "@ == "worker_uptime_seconds "@);
    lemma_begins("worker_uptime_seconds "@, decimal_of(uptime as nat));
}

proof fn lemma_differ(before: Seq<Seq<char>>, after: Seq<Seq<char>>, uptime: u64, later: u64)
    requires
        exists|at: int|
            {
                &&& 0 <= at < before.len()
                &&& #[trigger] before[at] == uptime_line(uptime)
                &&& after == before.update(at, uptime_line(later))
            },
    ensures
        exists|at: int| differ_in_uptime(before, after, at),
{
    let at = choose|at: int|
        {
            &&& 0 <= at < before.len()
            &&& #[trigger] before[at] == uptime_line(uptime)
            &&& after == before.update(at, uptime_line(later))
        };
    lemma_uptime_prefix(uptime);
    lemma_uptime_prefix(later);
    assert(differ_in_uptime(before, after, at));
}

/// Two pages that are written of one state, whenever that is, differ at most in the line of the
/// uptime. In each of them every family has exactly one line that types it, before its samples, and
/// the lines on draining and on the state are those that hold.
pub proof fn law_two_pages<F: Fn(u64) -> String>(
    metrics: WorkerMetrics,
    status: WorkerStatus,
    seconds: F,
    first: Seq<char>,
    second: Seq<char>,
)
    requires
        writes_one_line(seconds),
        is_page(metrics, status, seconds, first),
        is_page(metrics, status, seconds, second),
    ensures
        exists|at: int| differ_in_uptime(split_of(first, '\n'), split_of(second, '\n'), at),
        is_typed(split_of(first, '\n')),
        is_typed(split_of(second, '\n')),
        shows_state(split_of(first, '\n'), status),
        shows_state(split_of(second, '\n'), status),
{
    let (uptime, put_seconds, get_seconds) = lemma_page(metrics, status, seconds, first);
    let (later, put_again, get_again) = lemma_page(metrics, status, seconds, second);
    assert(put_seconds@ == put_again@);
    assert(get_seconds@ == get_again@);
    law_only_uptime_moves(metrics, status, uptime, later, put_seconds@, get_seconds@);
    lemma_differ(split_of(first, '\n'), split_of(second, '\n'), uptime, later);
    law_page_is_typed(metrics, status, uptime, put_seconds@, get_seconds@);
    law_page_is_typed(metrics, status, later, put_seconds@, get_seconds@);
    law_flag_lines(metrics, status, uptime, put_seconds@, get_seconds@);
    law_flag_lines(metrics, status, later, put_seconds@, get_seconds@);
}

proof fn lemma_page<F: Fn(u64) -> String>(
    metrics: WorkerMetrics,
    status: WorkerStatus,
    seconds: F,
    text: Seq<char>,
) -> (r: (u64, String, String))
    requires
        is_page(metrics, status, seconds, text),
    ensures
        seconds.ensures((metrics.put_duration.sum_ms,), r.1),
        seconds.ensures((metrics.get_duration.sum_ms,), r.2),
        text == prometheus_of(metrics, status, r.0, r.1@, r.2@),
{
    let (time, put_seconds, get_seconds) = choose|
        time: std::time::SystemTime,
        put_seconds: String,
        get_seconds: String,
    |
        #![trigger epoch_seconds_of(time),
            seconds.ensures((metrics.put_duration.sum_ms,), put_seconds),
            seconds.ensures((metrics.get_duration.sum_ms,), get_seconds)]
        seconds.ensures((metrics.put_duration.sum_ms,), put_seconds) && seconds.ensures(
            (metrics.get_duration.sum_ms,),
            get_seconds,
        ) && text == prometheus_of(
            metrics,
            status,
            uptime_of(metrics.started_at_unix_seconds, epoch_seconds_of(time)),
            put_seconds@,
            get_seconds@,
        );
    let uptime = uptime_of(metrics.started_at_unix_seconds, epoch_seconds_of(time));
    (uptime, put_seconds, get_seconds)
}

// ---------------------------------------------------------------------------
// What the page tells

proof fn lemma_on_page(
    metrics: WorkerMetrics,
    status: WorkerStatus,
    uptime: u64,
    put_seconds: Seq<char>,
    get_seconds: Seq<char>,
    i: int,
    k: int,
)
    requires
        is_line(put_seconds),
        is_line(get_seconds),
        0 <= i < families_of(metrics, status, uptime, put_seconds, get_seconds).len(),
        0 <= k < families_of(metrics, status, uptime, put_seconds, get_seconds)[i].samples.len(),
    ensures
        split_of(prometheus_of(metrics, status, uptime, put_seconds, get_seconds), '\n').contains(
            families_of(metrics, status, uptime, put_seconds, get_seconds)[i].samples[k],
        ),
{
    law_one_type_line(metrics, status, uptime, put_seconds, get_seconds, i);
    let families = families_of(metrics, status, uptime, put_seconds, get_seconds);
    let lines = split_of(prometheus_of(metrics, status, uptime, put_seconds, get_seconds), '\n');
    let at = type_at(families, i);
    let samples = lines.subrange(at + 1, at + 1 + families[i].samples.len());
    assert(samples == families[i].samples);
    law_page_is_its_families(metrics, status, uptime, put_seconds, get_seconds);
    lemma_families(metrics, status, uptime, put_seconds, get_seconds);
    lemma_samples_within(families, i);
    assert(lines[at + 1 + k] == samples[k]);
}

proof fn lemma_samples_within(families: Seq<Family>, i: int)
    requires
        0 <= i < families.len(),
    ensures
        0 <= type_at(families, i),
        type_at(families, i) + 1 + families[i].samples.len() <= page_lines(families).len(),
    decreases families.len(),
{
    let front = families.drop_last();
    if i < families.len() - 1 {
        lemma_samples_within(front, i);
        assert(front[i] == families[i]);
        assert(front.take(i) == families.take(i));
    } else {
        assert(families.take(i) == front);
    }
}

/// Whether a line of the page gives a value under a name.
pub open spec fn tells(lines: Seq<Seq<char>>, name: Seq<char>, value: nat) -> bool {
    lines.contains(name + " "@ + decimal_of(value))
}

/// The page tells the slots of the worker, each under its own name: the limits, those in use, those
/// that are free, and the waits, of writes and of reads.
pub proof fn law_page_tells_the_slots(
    metrics: WorkerMetrics,
    status: WorkerStatus,
    uptime: u64,
    put_seconds: Seq<char>,
    get_seconds: Seq<char>,
)
    requires
        is_line(put_seconds),
        is_line(get_seconds),
    ensures
        ({
            let page = prometheus_of(metrics, status, uptime, put_seconds, get_seconds);
            let lines = split_of(page, '\n');
            &&& tells(lines, "worker_uptime_seconds"@, uptime as nat)
            &&& tells(lines, "worker_put_slots_limit"@, status.put.limit as nat)
            &&& tells(lines, "worker_put_slots_active"@, status.put.active as nat)
            &&& tells(lines, "worker_put_slots_available"@, status.put.available as nat)
            &&& tells(lines, "worker_put_slot_wait_milliseconds"@, status.put.slot_wait_ms as nat)
            &&& tells(lines, "worker_read_slots_limit"@, status.read.limit as nat)
            &&& tells(lines, "worker_read_slots_active"@, status.read.active as nat)
            &&& tells(lines, "worker_read_slots_available"@, status.read.available as nat)
            &&& tells(lines, "worker_read_slot_wait_milliseconds"@, status.read.slot_wait_ms as nat)
            &&& tells(
                lines,
                "worker_heartbeat_interval_milliseconds"@,
                status.heartbeat_interval_ms as nat,
            )
            &&& tells(lines, "worker_registry_ttl_milliseconds"@, status.registry_ttl_ms as nat)
        }),
{
    reveal(identity_families);
    reveal(slot_families);
    lemma_families(metrics, status, uptime, put_seconds, get_seconds);
    let families = families_of(metrics, status, uptime, put_seconds, get_seconds);
    let slots = slot_families(status);
    assert(families[2] == identity_families(status, uptime)[2]);
    assert(families[5] == slots[0]);
    assert(families[6] == slots[1]);
    assert(families[7] == slots[2]);
    assert(families[8] == slots[3]);
    assert(families[9] == slots[4]);
    assert(families[10] == slots[5]);
    assert(families[11] == slots[6]);
    assert(families[12] == slots[7]);
    assert(families[13] == slots[8]);
    assert(families[14] == slots[9]);
    lemma_on_page(metrics, status, uptime, put_seconds, get_seconds, 2, 0);
    lemma_on_page(metrics, status, uptime, put_seconds, get_seconds, 5, 0);
    lemma_on_page(metrics, status, uptime, put_seconds, get_seconds, 6, 0);
    lemma_on_page(metrics, status, uptime, put_seconds, get_seconds, 7, 0);
    lemma_on_page(metrics, status, uptime, put_seconds, get_seconds, 8, 0);
    lemma_on_page(metrics, status, uptime, put_seconds, get_seconds, 9, 0);
    lemma_on_page(metrics, status, uptime, put_seconds, get_seconds, 10, 0);
    lemma_on_page(metrics, status, uptime, put_seconds, get_seconds, 11, 0);
    lemma_on_page(metrics, status, uptime, put_seconds, get_seconds, 12, 0);
    lemma_on_page(metrics, status, uptime, put_seconds, get_seconds, 13, 0);
    lemma_on_page(metrics, status, uptime, put_seconds, get_seconds, 14, 0);
}

/// The page tells the counters of writes, each under its own name, and how many durations of writes
/// were observed.
pub proof fn law_page_tells_the_writes(
    metrics: WorkerMetrics,
    status: WorkerStatus,
    uptime: u64,
    put_seconds: Seq<char>,
    get_seconds: Seq<char>,
)
    requires
        is_line(put_seconds),
        is_line(get_seconds),
    ensures
        ({
            let page = prometheus_of(metrics, status, uptime, put_seconds, get_seconds);
            let lines = split_of(page, '\n');
            &&& tells(lines, "worker_put_started_total"@, metrics.put_started as nat)
            &&& tells(lines, "worker_put_succeeded_total"@, metrics.put_succeeded as nat)
            &&& tells(lines, "worker_put_failed_total"@, metrics.put_failed as nat)
            &&& tells(lines, "worker_put_rows_total"@, metrics.put_rows as nat)
            &&& tells(lines, "worker_put_batches_total"@, metrics.put_batches as nat)
            &&& tells(lines, "worker_put_files_total"@, metrics.put_files as nat)
            &&& tells(
                lines,
                "worker_put_flight_stream_bytes_total"@,
                metrics.put_flight_stream_bytes as nat,
            )
            &&& tells(
                lines,
                "worker_put_parquet_object_bytes_total"@,
                metrics.put_parquet_object_bytes as nat,
            )
            &&& lines.contains(
                "worker_put_duration_seconds"@ + "_count "@ + decimal_of(
                    metrics.put_duration.count as nat,
                ),
            )
            &&& lines.contains("worker_put_duration_seconds"@ + "_sum "@ + put_seconds)
        }),
{
    reveal(identity_families);
    reveal(slot_families);
    reveal(put_families);
    lemma_families(metrics, status, uptime, put_seconds, get_seconds);
    lemma_bucket_samples_len("worker_put_duration_seconds"@, metrics.put_duration.buckets@, 15);
    let families = families_of(metrics, status, uptime, put_seconds, get_seconds);
    let puts = put_families(metrics, put_seconds);
    assert(families[15] == puts[0]);
    assert(families[16] == puts[1]);
    assert(families[17] == puts[2]);
    assert(families[18] == puts[3]);
    assert(families[19] == puts[4]);
    assert(families[20] == puts[5]);
    assert(families[21] == puts[6]);
    assert(families[22] == puts[7]);
    assert(families[23] == puts[8]);
    lemma_on_page(metrics, status, uptime, put_seconds, get_seconds, 15, 0);
    lemma_on_page(metrics, status, uptime, put_seconds, get_seconds, 16, 0);
    lemma_on_page(metrics, status, uptime, put_seconds, get_seconds, 17, 0);
    lemma_on_page(metrics, status, uptime, put_seconds, get_seconds, 18, 0);
    lemma_on_page(metrics, status, uptime, put_seconds, get_seconds, 19, 0);
    lemma_on_page(metrics, status, uptime, put_seconds, get_seconds, 20, 0);
    lemma_on_page(metrics, status, uptime, put_seconds, get_seconds, 21, 0);
    lemma_on_page(metrics, status, uptime, put_seconds, get_seconds, 22, 0);
    lemma_on_page(metrics, status, uptime, put_seconds, get_seconds, 23, 16);
    lemma_on_page(metrics, status, uptime, put_seconds, get_seconds, 23, 17);
}

proof fn lemma_bucket_samples_len(name: Seq<char>, buckets: Seq<u64>, n: int)
    requires
        0 <= n,
    ensures
        bucket_samples(name, buckets, n).len() == n,
    decreases n,
{
    if n > 0 {
        lemma_bucket_samples_len(name, buckets, n - 1);
    }
}

/// The page tells the counters of reads, each under its own name, and how many durations of reads
/// were observed.
pub proof fn law_page_tells_the_reads(
    metrics: WorkerMetrics,
    status: WorkerStatus,
    uptime: u64,
    put_seconds: Seq<char>,
    get_seconds: Seq<char>,
)
    requires
        is_line(put_seconds),
        is_line(get_seconds),
    ensures
        ({
            let page = prometheus_of(metrics, status, uptime, put_seconds, get_seconds);
            let lines = split_of(page, '\n');
            &&& tells(lines, "worker_get_started_total"@, metrics.get_started as nat)
            &&& tells(lines, "worker_get_succeeded_total"@, metrics.get_succeeded as nat)
            &&& tells(lines, "worker_get_failed_total"@, metrics.get_failed as nat)
            &&& tells(lines, "worker_get_cancelled_total"@, metrics.get_cancelled as nat)
            &&& tells(lines, "worker_get_object_bytes_total"@, metrics.get_object_bytes as nat)
            &&& lines.contains(
                "worker_get_duration_seconds"@ + "_count "@ + decimal_of(
                    metrics.get_duration.count as nat,
                ),
            )
            &&& lines.contains("worker_get_duration_seconds"@ + "_sum "@ + get_seconds)
        }),
{
    reveal(identity_families);
    reveal(slot_families);
    reveal(put_families);
    reveal(get_families);
    lemma_families(metrics, status, uptime, put_seconds, get_seconds);
    lemma_bucket_samples_len("worker_get_duration_seconds"@, metrics.get_duration.buckets@, 15);
    let families = families_of(metrics, status, uptime, put_seconds, get_seconds);
    let gets = get_families(metrics, get_seconds);
    assert(families[24] == gets[0]);
    assert(families[25] == gets[1]);
    assert(families[26] == gets[2]);
    assert(families[27] == gets[3]);
    assert(families[28] == gets[4]);
    assert(families[29] == gets[5]);
    lemma_on_page(metrics, status, uptime, put_seconds, get_seconds, 24, 0);
    lemma_on_page(metrics, status, uptime, put_seconds, get_seconds, 25, 0);
    lemma_on_page(metrics, status, uptime, put_seconds, get_seconds, 26, 0);
    lemma_on_page(metrics, status, uptime, put_seconds, get_seconds, 27, 0);
    lemma_on_page(metrics, status, uptime, put_seconds, get_seconds, 28, 0);
    lemma_on_page(metrics, status, uptime, put_seconds, get_seconds, 29, 16);
    lemma_on_page(metrics, status, uptime, put_seconds, get_seconds, 29, 17);
}

}
