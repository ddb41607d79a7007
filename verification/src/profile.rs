//! Profiles of a write, on the side of the client.

use vstd::prelude::*;
use vstd::utf8::encode_utf8;

use crate::env::{var_of, Environment};
use crate::json::{
    as_items, as_u64, json_items, json_member, json_of, json_u64, member, parse_value,
};
use crate::number::{decimal, decimal_of, parse_unsigned, unsigned_of};
use crate::text::texts;

verus! {

/// What reading its input cost a client.
#[derive(Clone, Copy, Debug)]
pub struct ClientSourceProfile {
    pub enabled: bool,
    pub ipc_read_ms: u64,
    pub rows: u64,
    pub batches: u64,
}

/// A line of the form `name=number`.
pub open spec fn number_line(name: Seq<char>, value: nat) -> Seq<char> {
    name + "="@ + decimal_of(value)
}

fn number_text(name: &str, value: u64) -> (r: String)
    ensures
        r@ == number_line(name@, value as nat),
{
    let mut line = name.to_owned();
    line.append("=");
    line.append(decimal(value as u128).as_str());
    line
}

impl ClientSourceProfile {
    /// Nothing read so far.
    pub fn new(enabled: bool) -> (r: ClientSourceProfile)
        ensures
            r == (ClientSourceProfile { enabled, ipc_read_ms: 0, rows: 0, batches: 0 }),
    {
        ClientSourceProfile { enabled, ipc_read_ms: 0, rows: 0, batches: 0 }
    }

    pub fn enabled(&self) -> (r: bool)
        ensures
            r == self.enabled,
    {
        self.enabled
    }

    /// The profile after a batch was read.
    pub open spec fn after_ipc_read(self, elapsed_ms: u128, rows: usize) -> ClientSourceProfile {
        if self.enabled {
            ClientSourceProfile {
                enabled: true,
                ipc_read_ms: self.ipc_read_ms.wrapping_add(elapsed_ms as u64),
                rows: self.rows.wrapping_add(rows as u64),
                batches: self.batches.wrapping_add(1),
            }
        } else {
            self
        }
    }

    /// The lines that are printed; none where the profile is not enabled.
    pub open spec fn lines(self) -> Seq<Seq<char>> {
        if self.enabled {
            seq![
                number_line("client_source.ipc_read_ms"@, self.ipc_read_ms as nat),
                number_line("client_source.rows"@, self.rows as nat),
                number_line("client_source.batches"@, self.batches as nat),
            ]
        } else {
            Seq::empty()
        }
    }

    /// Counts a batch that was read, where the profile is enabled.
    pub fn record_ipc_read(&mut self, elapsed_ms: u128, rows: usize)
        ensures
            *final(self) == old(self).after_ipc_read(elapsed_ms, rows),
    {
        if !self.enabled {
            return;
        }
        self.ipc_read_ms = self.ipc_read_ms.wrapping_add(
            #[verifier::truncate]
            (elapsed_ms as u64),
        );
        self.rows = self.rows.wrapping_add(rows as u64);
        self.batches = self.batches.wrapping_add(1);
    }

    /// The lines that are printed; none where the profile is not enabled.
    pub fn print(&self) -> (r: Vec<String>)
        ensures
            texts(r@) == self.lines(),
    {
        let mut lines: Vec<String> = Vec::new();
        if self.enabled {
            lines.push(number_text("client_source.ipc_read_ms", self.ipc_read_ms));
            lines.push(number_text("client_source.rows", self.rows));
            lines.push(number_text("client_source.batches", self.batches));
        }
        proof {
            assert(texts(lines@) == self.lines());
        }
        lines
    }
}

// ---------------------------------------------------------------------------
// The profile that a worker sends back

/// The number under a name in a JSON value.
pub open spec fn count_in(value: serde_json::Value, name: Seq<char>) -> Option<u64> {
    match json_member(value, name) {
        Some(found) => json_u64(found),
        None => None,
    }
}

/// The number under a name in a JSON value, zero where there is none.
pub open spec fn count_or_zero(value: serde_json::Value, name: Seq<char>) -> u64 {
    match count_in(value, name) {
        Some(count) => count,
        None => 0,
    }
}

fn count(value: &serde_json::Value, name: &str) -> (r: Option<u64>)
    ensures
        r == count_in(*value, name@),
{
    match member(value, name) {
        Some(found) => as_u64(found),
        None => None,
    }
}

fn count_or(value: &serde_json::Value, name: &str) -> (r: u64)
    ensures
        r == count_or_zero(*value, name@),
{
    match count(value, name) {
        Some(count) => count,
        None => 0,
    }
}

/// The line of one measure of a profile: with its share of the total, where there is a total.
/// `percent` writes a share in percent.
pub open spec fn is_measure_line<F: Fn(u64, u64) -> String>(
    name: Seq<char>,
    ms: u64,
    total_ms: u64,
    percent: F,
    line: Seq<char>,
) -> bool {
    if total_ms == 0 {
        line == number_line("server_profile."@ + name, ms as nat)
    } else {
        exists|share: String|
            #[trigger] percent.ensures((ms, total_ms), share) && line == number_line(
                "server_profile."@ + name,
                ms as nat,
            ) + " ("@ + share@ + "%)"@
    }
}

/// The line of one measure of a profile.
pub fn measure_line<F: Fn(u64, u64) -> String>(
    name: &str,
    ms: u64,
    total_ms: u64,
    percent: &F,
) -> (r: String)
    requires
        forall|ms: u64, total: u64| percent.requires((ms, total)),
    ensures
        is_measure_line(name@, ms, total_ms, *percent, r@),
{
    let mut full = "server_profile.".to_owned();
    full.append(name);
    let mut line = number_text(full.as_str(), ms);
    if total_ms == 0 {
        return line;
    }
    let share = percent(ms, total_ms);
    line.append(" (");
    line.append(share.as_str());
    line.append("%)");
    line
}

/// The measures of a profile that are printed, in order.
pub open spec fn measure_names() -> Seq<Seq<char>> {
    seq![
        "first_flight_data_message_ms"@,
        "first_batch_receive_decode_ms"@,
        "receive_decode_ms"@,
        "enqueue_wait_ms"@,
        "collect_writer_wait_ms"@,
        "manifest_put_ms"@,
        "manifest_head_ms"@,
        "object_head_ms"@,
        "writer_task_elapsed_ms_max"@,
        "writer_task_write_ms_max"@,
        "writer_task_close_ms_max"@,
        "writer_task_write_ms_sum"@,
        "writer_task_flush_ms_sum"@,
        "writer_task_close_ms_sum"@,
        "writer_task_idle_wait_ms_sum"@,
    ]
}

/// The names among `names` under which a profile holds a number, in order.
pub open spec fn measured_names(
    profile: serde_json::Value,
    names: Seq<Seq<char>>,
) -> Seq<Seq<char>>
    decreases names.len(),
{
    if names.len() == 0 {
        Seq::empty()
    } else {
        let front = measured_names(profile, names.drop_last());
        if count_in(profile, names.last()) is Some {
            front.push(names.last())
        } else {
            front
        }
    }
}

/// Whether lines are those of the measures of a profile.
pub open spec fn are_measure_lines<F: Fn(u64, u64) -> String>(
    profile: serde_json::Value,
    names: Seq<Seq<char>>,
    percent: F,
    lines: Seq<Seq<char>>,
) -> bool {
    let present = measured_names(profile, names);
    &&& lines.len() == present.len()
    &&& forall|i: int|
        0 <= i < lines.len() ==> is_measure_line(
            present[i],
            count_in(profile, present[i])->0,
            count_or_zero(profile, "total_server_ms"@),
            percent,
            #[trigger] lines[i],
        )
}

/// The lines of the measures of a profile: one for each that it holds.
pub fn measure_lines<F: Fn(u64, u64) -> String>(profile: &serde_json::Value, percent: &F) -> (r:
    Vec<String>)
    requires
        forall|ms: u64, total: u64| percent.requires((ms, total)),
    ensures
        are_measure_lines(*profile, measure_names(), *percent, texts(r@)),
{
    let total_ms: u64 = count_or(profile, "total_server_ms");
    let names = vec![
        "first_flight_data_message_ms",
        "first_batch_receive_decode_ms",
        "receive_decode_ms",
        "enqueue_wait_ms",
        "collect_writer_wait_ms",
        "manifest_put_ms",
        "manifest_head_ms",
        "object_head_ms",
        "writer_task_elapsed_ms_max",
        "writer_task_write_ms_max",
        "writer_task_close_ms_max",
        "writer_task_write_ms_sum",
        "writer_task_flush_ms_sum",
        "writer_task_close_ms_sum",
        "writer_task_idle_wait_ms_sum",
    ];
    let ghost all = names@.map_values(|name: &str| name@);
    proof {
        assert(all == measure_names());
    }
    let mut lines: Vec<String> = Vec::new();
    let mut i: usize = 0;
    while i < names.len()
        invariant
            i <= names@.len(),
            all == names@.map_values(|name: &str| name@),
            total_ms == count_or_zero(*profile, "total_server_ms"@),
            forall|ms: u64, total: u64| percent.requires((ms, total)),
            are_measure_lines(*profile, all.take(i as int), *percent, texts(lines@)),
        decreases names@.len() - i,
    {
        let ghost before = texts(lines@);
        proof {
            assert(all.take(i + 1).drop_last() == all.take(i as int));
            assert(all.take(i + 1).last() == names@[i as int]@);
        }
        if let Some(ms) = count(profile, names[i]) {
            let line = measure_line(names[i], ms, total_ms, percent);
            lines.push(line);
            proof {
                let present = measured_names(*profile, all.take(i as int));
                let more = measured_names(*profile, all.take(i + 1));
                assert(more == present.push(names@[i as int]@));
                assert(texts(lines@) == before.push(line@));
                assert forall|j: int| 0 <= j < texts(lines@).len() implies is_measure_line(
                    more[j],
                    count_in(*profile, more[j])->0,
                    total_ms,
                    *percent,
                    #[trigger] texts(lines@)[j],
                ) by {
                    if j < before.len() {
                        assert(texts(lines@)[j] == before[j]);
                        assert(more[j] == present[j]);
                    }
                }
            }
        }
        i += 1;
    }
    proof {
        assert(all.take(i as int) == all);
    }
    lines
}

/// The number under a name in the profile of a part.
pub open spec fn part_measure(part: serde_json::Value, name: Seq<char>) -> u64 {
    match json_member(part, "profile"@) {
        Some(profile) => count_or_zero(profile, name),
        None => 0,
    }
}

/// The line of a part.
pub open spec fn part_line_of(part: serde_json::Value) -> Seq<char> {
    "server_part."@ + decimal_of(count_or_zero(part, "part_index"@) as nat) + "=rows="@
        + decimal_of(count_or_zero(part, "rows"@) as nat) + " batches="@ + decimal_of(
        count_or_zero(part, "batches"@) as nat,
    ) + " parquet_bytes="@ + decimal_of(count_or_zero(part, "parquet_object_bytes"@) as nat)
        + " elapsed_ms="@ + decimal_of(part_measure(part, "elapsed_ms"@) as nat) + " write_ms="@
        + decimal_of(part_measure(part, "write_ms"@) as nat) + " flush_ms="@ + decimal_of(
        part_measure(part, "flush_ms"@) as nat,
    ) + " close_ms="@ + decimal_of(part_measure(part, "close_ms"@) as nat) + " idle_wait_ms="@
        + decimal_of(part_measure(part, "idle_wait_ms"@) as nat)
}

fn part_measure_in(part: &serde_json::Value, name: &str) -> (r: u64)
    ensures
        r == part_measure(*part, name@),
{
    match member(part, "profile") {
        Some(profile) => count_or(profile, name),
        None => 0,
    }
}

fn append_number(line: &mut String, label: &str, value: u64)
    ensures
        final(line)@ == old(line)@ + label@ + decimal_of(value as nat),
{
    line.append(label);
    line.append(decimal(value as u128).as_str());
}

/// The line of a part.
pub fn part_line(part: &serde_json::Value) -> (r: String)
    ensures
        r@ == part_line_of(*part),
{
    let mut line = "server_part.".to_owned();
    line.append(decimal(count_or(part, "part_index") as u128).as_str());
    append_number(&mut line, "=rows=", count_or(part, "rows"));
    append_number(&mut line, " batches=", count_or(part, "batches"));
    append_number(&mut line, " parquet_bytes=", count_or(part, "parquet_object_bytes"));
    append_number(&mut line, " elapsed_ms=", part_measure_in(part, "elapsed_ms"));
    append_number(&mut line, " write_ms=", part_measure_in(part, "write_ms"));
    append_number(&mut line, " flush_ms=", part_measure_in(part, "flush_ms"));
    append_number(&mut line, " close_ms=", part_measure_in(part, "close_ms"));
    append_number(&mut line, " idle_wait_ms=", part_measure_in(part, "idle_wait_ms"));
    line
}

/// How many parts are printed: as set, else sixteen.
pub open spec fn part_limit_of(vars: Seq<(Seq<char>, Seq<char>)>) -> usize {
    match var_of(vars, "PROFILE_PART_LIMIT"@) {
        Some(value) => match unsigned_of(value, usize::MAX as nat) {
            Ok(limit) => limit as usize,
            Err(_) => 16,
        },
        None => 16,
    }
}

/// How many parts are printed: as set, else sixteen.
pub fn part_limit(env: &Environment) -> (r: usize)
    ensures
        r == part_limit_of(env@),
{
    match env.var("PROFILE_PART_LIMIT") {
        Some(value) => match parse_unsigned(value, usize::MAX as u64) {
            Ok(limit) => limit as usize,
            Err(_) => 16,
        },
        None => 16,
    }
}

/// The lines of parts: of the first `limit`, and of how many there are beyond.
pub open spec fn part_lines_of(parts: Seq<serde_json::Value>, limit: usize) -> Seq<Seq<char>> {
    let shown = if parts.len() > limit {
        limit as int
    } else {
        parts.len() as int
    };
    let lines = parts.take(shown).map_values(|part: serde_json::Value| part_line_of(part));
    if parts.len() > limit {
        lines.push(number_line("server_part.omitted"@, (parts.len() - limit) as nat))
    } else {
        lines
    }
}

/// The lines of parts.
pub fn part_lines(parts: &Vec<serde_json::Value>, limit: usize) -> (r: Vec<String>)
    ensures
        texts(r@) == part_lines_of(parts@, limit),
{
    let shown: usize = if parts.len() > limit {
        limit
    } else {
        parts.len()
    };
    let mut lines: Vec<String> = Vec::new();
    let mut i: usize = 0;
    let ghost line = |part: serde_json::Value| part_line_of(part);
    proof {
        assert(texts(lines@) == parts@.take(0).map_values(line));
    }
    while i < shown
        invariant
            i <= shown <= parts@.len(),
            line == (|part: serde_json::Value| part_line_of(part)),
            texts(lines@) == parts@.take(i as int).map_values(line),
        decreases shown - i,
    {
        let ghost before = texts(lines@);
        let next = part_line(&parts[i]);
        lines.push(next);
        i += 1;
        proof {
            assert(texts(lines@) == before.push(next@));
            assert(texts(lines@) == parts@.take(i as int).map_values(line));
        }
    }
    if parts.len() > limit {
        let ghost before = texts(lines@);
        let omitted = number_text("server_part.omitted", (parts.len() - limit) as u64);
        lines.push(omitted);
        proof {
            assert(texts(lines@) == before.push(omitted@));
        }
    }
    lines
}

/// The lines before the measures: the total, and the number of messages.
pub open spec fn headline_of(value: serde_json::Value) -> Seq<Seq<char>> {
    let total = match json_member(value, "profile"@) {
        Some(profile) => count_in(profile, "total_server_ms"@),
        None => None,
    };
    let first = match total {
        Some(ms) => seq![number_line("server_profile.total_server_ms"@, ms as nat)],
        None => Seq::empty(),
    };
    match count_in(value, "flight_data_messages"@) {
        Some(messages) => first.push(
            number_line("server_profile.flight_data_messages"@, messages as nat),
        ),
        None => first,
    }
}

fn headline(value: &serde_json::Value) -> (r: Vec<String>)
    ensures
        texts(r@) == headline_of(*value),
{
    let mut lines: Vec<String> = Vec::new();
    proof {
        assert(texts(lines@) == Seq::<Seq<char>>::empty());
    }
    let total = match member(value, "profile") {
        Some(profile) => count(profile, "total_server_ms"),
        None => None,
    };
    if let Some(ms) = total {
        let line = number_text("server_profile.total_server_ms", ms);
        lines.push(line);
        proof {
            assert(texts(lines@) == seq![line@]);
        }
    }
    if let Some(messages) = count(value, "flight_data_messages") {
        let ghost before = texts(lines@);
        let line = number_text("server_profile.flight_data_messages", messages);
        lines.push(line);
        proof {
            assert(texts(lines@) == before.push(line@));
        }
    }
    lines
}

/// Whether lines are what is printed of the result of a write: nothing for one that is no JSON, and
/// no measures and parts where it holds no profile.
pub open spec fn are_profile_lines<F: Fn(u64, u64) -> String>(
    result: Seq<u8>,
    limit: usize,
    percent: F,
    lines: Seq<Seq<char>>,
) -> bool {
    match json_of(result) {
        Err(_) => lines.len() == 0,
        Ok(value) => match json_member(value, "profile"@) {
            None => lines == headline_of(value),
            Some(profile) => exists|measures: Seq<Seq<char>>|
                #[trigger] are_measure_lines(profile, measure_names(), percent, measures) && lines
                    == headline_of(value) + measures + (match json_member(
                    value,
                    "part_profiles"@,
                ) {
                    Some(parts) => match json_items(parts) {
                        Some(parts) => part_lines_of(parts, limit),
                        None => Seq::empty(),
                    },
                    None => Seq::empty(),
                }),
        },
    }
}

fn append_lines(lines: &mut Vec<String>, more: Vec<String>)
    ensures
        texts(final(lines)@) == texts(old(lines)@) + texts(more@),
{
    let ghost first = lines@;
    let mut i: usize = 0;
    while i < more.len()
        invariant
            i <= more@.len(),
            texts(lines@) == texts(first) + texts(more@).take(i as int),
        decreases more@.len() - i,
    {
        let ghost before = texts(lines@);
        lines.push(more[i].clone());
        proof {
            assert(texts(lines@) == before.push(more@[i as int]@));
            assert(texts(more@).take(i + 1) == texts(more@).take(i as int).push(
                more@[i as int]@,
            ));
        }
        i += 1;
        proof {
            assert(texts(lines@) == texts(first) + texts(more@).take(i as int));
        }
    }
    proof {
        assert(texts(more@).take(i as int) == texts(more@));
    }
}

/// What is printed of the result of a write. `percent` writes a share in percent.
pub fn print_server_profile<F: Fn(u64, u64) -> String>(
    result: &str,
    limit: usize,
    percent: &F,
) -> (r: Vec<String>)
    requires
        forall|ms: u64, total: u64| percent.requires((ms, total)),
    ensures
        are_profile_lines(encode_utf8(result@), limit, *percent, texts(r@)),
{
    let value = match parse_value(result.as_bytes()) {
        Ok(value) => value,
        Err(_) => return Vec::new(),
    };
    let mut lines = headline(&value);
    let profile = match member(&value, "profile") {
        Some(profile) => profile,
        None => return lines,
    };
    let measures = measure_lines(profile, percent);
    let ghost measured = texts(measures@);
    append_lines(&mut lines, measures);
    proof {
        assert(are_measure_lines(*profile, measure_names(), *percent, measured));
        assert(texts(lines@) + Seq::<Seq<char>>::empty() == texts(lines@));
    }
    if let Some(parts) = member(&value, "part_profiles") {
        if let Some(parts) = as_items(parts) {
            append_lines(&mut lines, part_lines(parts, limit));
        }
    }
    lines
}

// ---------------------------------------------------------------------------
// Laws of profiles

/// An enabled profile counts the rows, the time and one batch of each read, and one that is not
/// enabled counts nothing and prints nothing.
pub proof fn law_source_reads_are_counted(
    profile: ClientSourceProfile,
    elapsed_ms: u128,
    rows: usize,
)
    ensures
        ({
            let after = profile.after_ipc_read(elapsed_ms, rows);
            &&& after.enabled == profile.enabled
            &&& !profile.enabled ==> after == profile && after.lines().len() == 0
            &&& profile.enabled && profile.rows + rows <= u64::MAX ==> after.rows - profile.rows
                == rows
            &&& profile.enabled && profile.ipc_read_ms + elapsed_ms <= u64::MAX
                ==> after.ipc_read_ms - profile.ipc_read_ms == elapsed_ms
            &&& profile.enabled && profile.batches < u64::MAX ==> after.batches - profile.batches
                == 1
        }),
{
}

/// Each line of an enabled profile shows the number that its name tells of.
pub proof fn law_source_lines_show_the_counts(profile: ClientSourceProfile)
    requires
        profile.enabled,
    ensures
        profile.lines().len() == 3,
        profile.lines()[0] == "client_source.ipc_read_ms="@ + decimal_of(
            profile.ipc_read_ms as nat,
        ),
        profile.lines()[1] == "client_source.rows="@ + decimal_of(profile.rows as nat),
        profile.lines()[2] == "client_source.batches="@ + decimal_of(profile.batches as nat),
{
    reveal_strlit("client_source.ipc_read_ms");
    reveal_strlit("client_source.ipc_read_ms=");
    reveal_strlit("client_source.rows");
    reveal_strlit("client_source.rows=");
    reveal_strlit("client_source.batches");
    reveal_strlit("client_source.batches=");
    reveal_strlit("=");
    assert("client_source.ipc_read_ms"@ + "="@ == "client_source.ipc_read_ms="@);
    assert("client_source.rows"@ + "="@ == "client_source.rows="@);
    assert("client_source.batches"@ + "="@ == "client_source.batches="@);
}

proof fn lemma_measured(profile: serde_json::Value, names: Seq<Seq<char>>, i: int) -> (k: int)
    requires
        0 <= i < names.len(),
        count_in(profile, names[i]) is Some,
    ensures
        0 <= k < measured_names(profile, names).len(),
        measured_names(profile, names)[k] == names[i],
    decreases names.len(),
{
    let front = measured_names(profile, names.drop_last());
    if i == names.len() - 1 {
        front.len() as int
    } else {
        assert(names.drop_last()[i] == names[i]);
        lemma_measured(profile, names.drop_last(), i)
    }
}

/// Every measure that a profile holds a number for has its line, which shows that number in
/// milliseconds behind the name and, where the total is known and not zero, its share of it.
pub proof fn law_measures_are_shown<F: Fn(u64, u64) -> String>(
    profile: serde_json::Value,
    percent: F,
    lines: Seq<Seq<char>>,
    i: int,
    measure: serde_json::Value,
    ms: u64,
    total_ms: u64,
) -> (k: int)
    requires
        are_measure_lines(profile, measure_names(), percent, lines),
        0 <= i < measure_names().len(),
        json_member(profile, measure_names()[i]) == Some(measure),
        json_u64(measure) == Some(ms),
        count_in(profile, "total_server_ms"@) == Some(total_ms),
    ensures
        0 <= k < lines.len(),
        total_ms == 0 ==> lines[k] == "server_profile."@ + measure_names()[i] + "="@ + decimal_of(
            ms as nat,
        ),
        total_ms > 0 ==> exists|share: String|
            #[trigger] percent.ensures((ms, total_ms), share) && lines[k] == "server_profile."@
                + measure_names()[i] + "="@ + decimal_of(ms as nat) + " ("@ + share@ + "%)"@,
{
    let k = lemma_measured(profile, measure_names(), i);
    let name = measured_names(profile, measure_names())[k];
    assert(is_measure_line(name, ms, total_ms, percent, lines[k]));
    k
}

/// The line of a part shows each number of the part behind its own label.
pub proof fn law_part_line_shows_the_part(
    part: serde_json::Value,
    profile: serde_json::Value,
    index: u64,
    rows: u64,
    batches: u64,
    bytes: u64,
    elapsed: u64,
    write: u64,
    flush: u64,
    close: u64,
    idle: u64,
)
    requires
        count_in(part, "part_index"@) == Some(index),
        count_in(part, "rows"@) == Some(rows),
        count_in(part, "batches"@) == Some(batches),
        count_in(part, "parquet_object_bytes"@) == Some(bytes),
        json_member(part, "profile"@) == Some(profile),
        count_in(profile, "elapsed_ms"@) == Some(elapsed),
        count_in(profile, "write_ms"@) == Some(write),
        count_in(profile, "flush_ms"@) == Some(flush),
        count_in(profile, "close_ms"@) == Some(close),
        count_in(profile, "idle_wait_ms"@) == Some(idle),
    ensures
        part_line_of(part) == "server_part."@ + decimal_of(index as nat) + "=rows="@ + decimal_of(
            rows as nat,
        ) + " batches="@ + decimal_of(batches as nat) + " parquet_bytes="@ + decimal_of(
            bytes as nat,
        ) + " elapsed_ms="@ + decimal_of(elapsed as nat) + " write_ms="@ + decimal_of(write as nat)
            + " flush_ms="@ + decimal_of(flush as nat) + " close_ms="@ + decimal_of(close as nat)
            + " idle_wait_ms="@ + decimal_of(idle as nat),
{
}

/// The line of a part that holds no profile shows no time.
pub proof fn law_part_line_without_profile(part: serde_json::Value, name: Seq<char>)
    requires
        json_member(part, "profile"@) is None,
    ensures
        part_measure(part, name) == 0,
        exists|front: Seq<char>|
            part_line_of(part) == #[trigger] (front + " elapsed_ms=0 write_ms=0"@)
                + " flush_ms=0 close_ms=0 idle_wait_ms=0"@,
{
    let zero = decimal_of(0);
    assert(zero == "0"@) by {
        reveal_strlit("0");
        reveal_with_fuel(decimal_of, 2);
    }
    let front = "server_part."@ + decimal_of(count_or_zero(part, "part_index"@) as nat) + "=rows="@
        + decimal_of(count_or_zero(part, "rows"@) as nat) + " batches="@ + decimal_of(
        count_or_zero(part, "batches"@) as nat,
    ) + " parquet_bytes="@ + decimal_of(count_or_zero(part, "parquet_object_bytes"@) as nat);
    reveal_strlit(" elapsed_ms=0 write_ms=0");
    reveal_strlit(" flush_ms=0 close_ms=0 idle_wait_ms=0");
    reveal_strlit(" elapsed_ms=");
    reveal_strlit(" write_ms=");
    reveal_strlit(" flush_ms=");
    reveal_strlit(" close_ms=");
    reveal_strlit(" idle_wait_ms=");
    reveal_strlit("0");
    assert(" elapsed_ms="@ + "0"@ + " write_ms="@ + "0"@ == " elapsed_ms=0 write_ms=0"@);
    assert(" flush_ms="@ + "0"@ + " close_ms="@ + "0"@ + " idle_wait_ms="@ + "0"@
        == " flush_ms=0 close_ms=0 idle_wait_ms=0"@);
    assert(part_line_of(part) == (front + " elapsed_ms=0 write_ms=0"@)
        + " flush_ms=0 close_ms=0 idle_wait_ms=0"@);
}

/// Every part is either shown or counted as omitted: the first `limit` parts have their lines, in
/// order, and where there are more one last line tells how many.
pub proof fn law_parts_are_shown_or_counted(parts: Seq<serde_json::Value>, limit: usize)
    ensures
        forall|i: int|
            0 <= i < parts.len() && i < limit ==> i < part_lines_of(parts, limit).len()
                && #[trigger] part_lines_of(parts, limit)[i] == part_line_of(parts[i]),
        parts.len() <= limit ==> part_lines_of(parts, limit).len() == parts.len(),
        parts.len() > limit ==> part_lines_of(parts, limit).len() == limit + 1 && part_lines_of(
            parts,
            limit,
        ).last() == "server_part.omitted="@ + decimal_of((parts.len() - limit) as nat),
{
    reveal_strlit("server_part.omitted");
    reveal_strlit("server_part.omitted=");
    reveal_strlit("=");
    assert("server_part.omitted"@ + "="@ == "server_part.omitted="@);
}

/// The number of parts that are printed is the one that is set, and sixteen where none is set or
/// what is set is no number.
pub proof fn law_part_limit(vars: Seq<(Seq<char>, Seq<char>)>, limit: usize)
    ensures
        var_of(vars, "PROFILE_PART_LIMIT"@) == Some(decimal_of(limit as nat)) ==> part_limit_of(vars)
            == limit,
        var_of(vars, "PROFILE_PART_LIMIT"@) is None ==> part_limit_of(vars) == 16,
        var_of(vars, "PROFILE_PART_LIMIT"@) matches Some(text) ==> unsigned_of(
            text,
            usize::MAX as nat,
        ) is Err ==> part_limit_of(vars) == 16,
{
    crate::number::law_decimal_reads_back(limit as nat, 0, 0, usize::MAX as nat);
}

/// What is printed begins with the total time and the number of messages, each where the result
/// holds it.
pub proof fn law_headline(value: serde_json::Value, profile: serde_json::Value, ms: u64, messages: u64)
    requires
        json_member(value, "profile"@) == Some(profile),
    ensures
        ({
            let total = "server_profile.total_server_ms="@ + decimal_of(ms as nat);
            let count = "server_profile.flight_data_messages="@ + decimal_of(messages as nat);
            &&& count_in(profile, "total_server_ms"@) == Some(ms) && count_in(
                value,
                "flight_data_messages"@,
            ) == Some(messages) ==> headline_of(value) == seq![total, count]
            &&& count_in(profile, "total_server_ms"@) == Some(ms) && count_in(
                value,
                "flight_data_messages"@,
            ) is None ==> headline_of(value) == seq![total]
            &&& count_in(profile, "total_server_ms"@) is None && count_in(
                value,
                "flight_data_messages"@,
            ) == Some(messages) ==> headline_of(value) == seq![count]
            &&& count_in(profile, "total_server_ms"@) is None && count_in(
                value,
                "flight_data_messages"@,
            ) is None ==> headline_of(value).len() == 0
        }),
{
    reveal_strlit("server_profile.total_server_ms");
    reveal_strlit("server_profile.total_server_ms=");
    reveal_strlit("server_profile.flight_data_messages");
    reveal_strlit("server_profile.flight_data_messages=");
    reveal_strlit("=");
    assert("server_profile.total_server_ms"@ + "="@ == "server_profile.total_server_ms="@);
    assert("server_profile.flight_data_messages"@ + "="@
        == "server_profile.flight_data_messages="@);
}

/// Nothing is printed of a result that is no JSON, and only the head of one without a profile.
pub proof fn law_results_without_profile<F: Fn(u64, u64) -> String>(
    result: Seq<u8>,
    limit: usize,
    percent: F,
    lines: Seq<Seq<char>>,
)
    requires
        are_profile_lines(result, limit, percent, lines),
    ensures
        json_of(result) is Err ==> lines.len() == 0,
        json_of(result) matches Ok(value) ==> json_member(value, "profile"@) is None
            ==> lines.len() <= 1,
{
}

/// What is printed of a result with a profile are its head, a line for each of its measures and the
/// lines of its parts, one behind the other.
pub proof fn law_profile_lines<F: Fn(u64, u64) -> String>(
    result: Seq<u8>,
    limit: usize,
    percent: F,
    lines: Seq<Seq<char>>,
    value: serde_json::Value,
    profile: serde_json::Value,
    parts: serde_json::Value,
    items: Seq<serde_json::Value>,
) -> (measures: Seq<Seq<char>>)
    requires
        are_profile_lines(result, limit, percent, lines),
        json_of(result) == Ok::<serde_json::Value, Seq<char>>(value),
        json_member(value, "profile"@) == Some(profile),
        json_member(value, "part_profiles"@) == Some(parts),
        json_items(parts) == Some(items),
    ensures
        are_measure_lines(profile, measure_names(), percent, measures),
        lines == headline_of(value) + measures + part_lines_of(items, limit),
{
    choose|measures: Seq<Seq<char>>|
        #[trigger] are_measure_lines(profile, measure_names(), percent, measures) && lines
            == headline_of(value) + measures + part_lines_of(items, limit)
}

}
