//! Counters and histograms, and their text for Prometheus.

use vstd::prelude::*;
use vstd::utf8::encode_utf8;

use crate::clock::{epoch_seconds_of, unix_seconds};
use crate::number::{at_least, decimal, decimal_of, digit_value};
use crate::put_model::PutSummary;
use crate::text::{
    is_white_space, replace, replace_of, split, split_of, text_eq, words, words_of,
};
use crate::util::{lossy_text, lossy_text_of};
use crate::worker_status::{WorkerState, WorkerStatus};

verus! {

// ---------------------------------------------------------------------------
// Histograms

/// How many bounded buckets a histogram has.
pub const BUCKETS: usize = 15;

/// The upper bound of a bucket in milliseconds.
pub open spec fn bound_of(index: int) -> u64 {
    if index == 0 {
        5
    } else if index == 1 {
        10
    } else if index == 2 {
        25
    } else if index == 3 {
        50
    } else if index == 4 {
        100
    } else if index == 5 {
        250
    } else if index == 6 {
        500
    } else if index == 7 {
        1_000
    } else if index == 8 {
        2_500
    } else if index == 9 {
        5_000
    } else if index == 10 {
        10_000
    } else if index == 11 {
        30_000
    } else if index == 12 {
        60_000
    } else if index == 13 {
        120_000
    } else {
        300_000
    }
}

/// The upper bound of a bucket in seconds, as a label.
pub open spec fn label_of(index: int) -> Seq<char> {
    if index == 0 {
        "0.005"@
    } else if index == 1 {
        "0.01"@
    } else if index == 2 {
        "0.025"@
    } else if index == 3 {
        "0.05"@
    } else if index == 4 {
        "0.1"@
    } else if index == 5 {
        "0.25"@
    } else if index == 6 {
        "0.5"@
    } else if index == 7 {
        "1"@
    } else if index == 8 {
        "2.5"@
    } else if index == 9 {
        "5"@
    } else if index == 10 {
        "10"@
    } else if index == 11 {
        "30"@
    } else if index == 12 {
        "60"@
    } else if index == 13 {
        "120"@
    } else {
        "300"@
    }
}

/// The upper bound of a bucket in milliseconds.
pub fn bucket_bound_ms(index: usize) -> (r: u64)
    requires
        index < BUCKETS,
    ensures
        r == bound_of(index as int),
{
    match index {
        0 => 5,
        1 => 10,
        2 => 25,
        3 => 50,
        4 => 100,
        5 => 250,
        6 => 500,
        7 => 1_000,
        8 => 2_500,
        9 => 5_000,
        10 => 10_000,
        11 => 30_000,
        12 => 60_000,
        13 => 120_000,
        _ => 300_000,
    }
}

/// The upper bound of a bucket in seconds, as a label.
pub fn bucket_label(index: usize) -> (r: &'static str)
    requires
        index < BUCKETS,
    ensures
        r@ == label_of(index as int),
{
    match index {
        0 => "0.005",
        1 => "0.01",
        2 => "0.025",
        3 => "0.05",
        4 => "0.1",
        5 => "0.25",
        6 => "0.5",
        7 => "1",
        8 => "2.5",
        9 => "5",
        10 => "10",
        11 => "30",
        12 => "60",
        13 => "120",
        _ => "300",
    }
}

/// How often each duration occurred.
#[derive(Debug)]
pub struct DurationHistogram {
    /// How many durations fell into each bucket and no smaller one.
    pub buckets: Vec<u64>,
    pub count: u64,
    pub sum_ms: u64,
}

/// A duration in milliseconds as far as 64 bits hold it.
pub open spec fn capped_ms(elapsed_ms: u128) -> u64 {
    if elapsed_ms > u64::MAX {
        u64::MAX
    } else {
        elapsed_ms as u64
    }
}

/// A duration in milliseconds as far as 64 bits hold it.
pub fn elapsed_millis(elapsed_ms: u128) -> (r: u64)
    ensures
        r == capped_ms(elapsed_ms),
{
    if elapsed_ms > u64::MAX as u128 {
        u64::MAX
    } else {
        elapsed_ms as u64
    }
}

/// The first bucket from `from` on that a duration falls into; `BUCKETS` where it falls into none.
pub open spec fn bucket_from(ms: u64, from: int) -> int
    decreases BUCKETS - from,
{
    if from >= BUCKETS {
        BUCKETS as int
    } else if ms <= bound_of(from) {
        from
    } else {
        bucket_from(ms, from + 1)
    }
}

/// The buckets after one more duration.
pub open spec fn buckets_after(buckets: Seq<u64>, ms: u64) -> Seq<u64> {
    let index = bucket_from(ms, 0);
    if index < BUCKETS {
        buckets.update(index, buckets[index].wrapping_add(1))
    } else {
        buckets
    }
}

/// The buckets after durations, the last one observed last.
pub open spec fn buckets_of(durations: Seq<u128>) -> Seq<u64>
    decreases durations.len(),
{
    if durations.len() == 0 {
        Seq::new(BUCKETS as nat, |i: int| 0u64)
    } else {
        buckets_after(buckets_of(durations.drop_last()), capped_ms(durations.last()))
    }
}

/// The sum of durations in milliseconds.
pub open spec fn total_ms(durations: Seq<u128>) -> nat
    decreases durations.len(),
{
    if durations.len() == 0 {
        0
    } else {
        total_ms(durations.drop_last()) + durations.last() as nat
    }
}

/// The sum of durations as 64 bits hold it: each as far as they do, and wrapped around.
pub open spec fn wrapped_ms(durations: Seq<u128>) -> u64
    decreases durations.len(),
{
    if durations.len() == 0 {
        0
    } else {
        wrapped_ms(durations.drop_last()).wrapping_add(capped_ms(durations.last()))
    }
}

proof fn lemma_sum_fits(durations: Seq<u128>)
    requires
        total_ms(durations) <= u64::MAX,
    ensures
        wrapped_ms(durations) == total_ms(durations),
    decreases durations.len(),
{
    if durations.len() > 0 {
        lemma_sum_fits(durations.drop_last());
    }
}

impl DurationHistogram {
    pub open spec fn well_formed(self) -> bool {
        self.buckets@.len() == BUCKETS
    }

    /// Whether exactly these durations were observed, as many as can be counted.
    pub open spec fn has_seen(self, durations: Seq<u128>) -> bool {
        &&& durations.len() <= u64::MAX
        &&& self.count == durations.len()
        &&& self.buckets@ == buckets_of(durations)
        &&& self.sum_ms == wrapped_ms(durations)
        &&& total_ms(durations) <= u64::MAX ==> self.sum_ms == total_ms(durations)
    }

    /// Whether nothing was observed.
    pub open spec fn is_new(self) -> bool {
        &&& self.well_formed()
        &&& self.count == 0
        &&& self.sum_ms == 0
        &&& forall|i: int| 0 <= i < BUCKETS ==> #[trigger] self.buckets@[i] == 0
    }

    /// Whether this is `old` with one more duration.
    pub open spec fn has_observed(self, old: DurationHistogram, elapsed_ms: u128) -> bool {
        &&& self.count == old.count.wrapping_add(1)
        &&& self.sum_ms == old.sum_ms.wrapping_add(capped_ms(elapsed_ms))
        &&& self.buckets@ == buckets_after(old.buckets@, capped_ms(elapsed_ms))
    }

    /// Nothing observed.
    pub fn new() -> (r: DurationHistogram)
        ensures
            r.is_new(),
            r.has_seen(Seq::empty()),
    {
        let mut buckets: Vec<u64> = Vec::new();
        while buckets.len() < BUCKETS
            invariant
                buckets@.len() <= BUCKETS,
                forall|i: int| 0 <= i < buckets@.len() ==> #[trigger] buckets@[i] == 0,
            decreases BUCKETS - buckets@.len(),
        {
            buckets.push(0);
        }
        proof {
            assert(buckets@ == buckets_of(Seq::empty()));
        }
        DurationHistogram { buckets, count: 0, sum_ms: 0 }
    }

    /// Counts a duration. One above the greatest bound falls into no bucket.
    pub fn observe(&mut self, elapsed_ms: u128)
        requires
            old(self).well_formed(),
        ensures
            final(self).well_formed(),
            final(self).has_observed(*old(self), elapsed_ms),
    {
        let ms: u64 = elapsed_millis(elapsed_ms);
        self.count = self.count.wrapping_add(1);
        self.sum_ms = self.sum_ms.wrapping_add(ms);
        let mut index: usize = 0;
        while index < BUCKETS && ms > bucket_bound_ms(index)
            invariant
                index <= BUCKETS,
                bucket_from(ms, 0) == bucket_from(ms, index as int),
            decreases BUCKETS - index,
        {
            index += 1;
        }
        if index < BUCKETS {
            let raised: u64 = self.buckets[index].wrapping_add(1);
            self.buckets.set(index, raised);
        }
    }
}

/// The durations in the first `n` buckets.
pub open spec fn cumulative_of(buckets: Seq<u64>, n: int) -> u64
    decreases n,
{
    if n <= 0 {
        0
    } else {
        cumulative_of(buckets, n - 1).wrapping_add(buckets[n - 1])
    }
}

/// The line of one bucket: how many durations are at most its bound.
pub open spec fn bucket_line(
    name: Seq<char>,
    label: Seq<char>,
    count: u64,
) -> Seq<char> {
    name + "_bucket{le=\""@ + label + "\"} "@ + decimal_of(count as nat) + "\n"@
}

/// The lines of the first `n` buckets.
pub open spec fn bucket_lines(name: Seq<char>, buckets: Seq<u64>, n: int) -> Seq<char>
    decreases n,
{
    if n <= 0 {
        Seq::empty()
    } else {
        bucket_lines(name, buckets, n - 1) + bucket_line(
            name,
            label_of(n - 1),
            cumulative_of(buckets, n),
        )
    }
}

/// The text of a histogram; `sum_seconds` is its sum in seconds.
pub open spec fn histogram_of(
    name: Seq<char>,
    histogram: DurationHistogram,
    sum_seconds: Seq<char>,
) -> Seq<char> {
    type_line(name, "histogram"@) + bucket_lines(name, histogram.buckets@, BUCKETS as int)
        + bucket_line(name, "+Inf"@, histogram.count) + (name + "_sum "@ + sum_seconds + "\n"@) + (
    name + "_count "@ + decimal_of(histogram.count as nat) + "\n"@)
}

/// How many durations are at most `bound_ms`.
pub open spec fn count_within(durations: Seq<u128>, bound_ms: u64) -> nat
    decreases durations.len(),
{
    if durations.len() == 0 {
        0
    } else {
        count_within(durations.drop_last(), bound_ms) + (if durations.last() <= bound_ms {
            1nat
        } else {
            0nat
        })
    }
}

/// The lines of the first `n` buckets: each tells how many durations are at most its bound.
pub open spec fn within_lines(name: Seq<char>, durations: Seq<u128>, n: int) -> Seq<char>
    decreases n,
{
    if n <= 0 {
        Seq::empty()
    } else {
        within_lines(name, durations, n - 1) + bucket_line(
            name,
            label_of(n - 1),
            count_within(durations, bound_of(n - 1)) as u64,
        )
    }
}

/// One more duration in a bucket raises the counts from that bucket on by one.
proof fn lemma_cumulative_raised(buckets: Seq<u64>, index: int, n: int)
    requires
        0 <= index < buckets.len(),
        0 <= n <= buckets.len(),
    ensures
        cumulative_of(buckets.update(index, buckets[index].wrapping_add(1)), n) == (if index < n {
            cumulative_of(buckets, n).wrapping_add(1)
        } else {
            cumulative_of(buckets, n)
        }),
    decreases n,
{
    if n > 0 {
        lemma_cumulative_raised(buckets, index, n - 1);
    }
}

/// The buckets hold as many durations at most a bound as there are.
proof fn lemma_cumulative(durations: Seq<u128>, n: int)
    requires
        durations.len() <= u64::MAX,
        0 < n <= BUCKETS,
    ensures
        buckets_of(durations).len() == BUCKETS,
        cumulative_of(buckets_of(durations), n) == count_within(durations, bound_of(n - 1)),
        count_within(durations, bound_of(n - 1)) <= durations.len(),
    decreases durations.len(),
{
    if durations.len() == 0 {
        lemma_cumulative_zero(n);
    } else {
        let before = durations.drop_last();
        lemma_cumulative(before, n);
        let ms = capped_ms(durations.last());
        law_bucket(ms);
        let index = bucket_from(ms, 0);
        assert(index < n <==> durations.last() <= bound_of(n - 1)) by {
            if index < n {
                assert(bound_of(index) <= bound_of(n - 1));
            }
        }
        if index < BUCKETS {
            lemma_cumulative_raised(buckets_of(before), index, n);
        }
    }
}

proof fn lemma_cumulative_zero(n: int)
    requires
        0 <= n <= BUCKETS,
    ensures
        cumulative_of(buckets_of(Seq::empty()), n) == 0,
    decreases n,
{
    if n > 0 {
        lemma_cumulative_zero(n - 1);
    }
}

proof fn lemma_within_lines(name: Seq<char>, durations: Seq<u128>, n: int)
    requires
        durations.len() <= u64::MAX,
        0 <= n <= BUCKETS,
    ensures
        bucket_lines(name, buckets_of(durations), n) == within_lines(name, durations, n),
    decreases n,
{
    if n > 0 {
        lemma_within_lines(name, durations, n - 1);
        lemma_cumulative(durations, n);
    }
}

/// A histogram that observes one more duration has seen that one behind the others. While the sum
/// of the durations fits, it grows by that duration.
pub proof fn law_observed(
    before: DurationHistogram,
    after: DurationHistogram,
    durations: Seq<u128>,
    elapsed_ms: u128,
)
    requires
        before.has_seen(durations),
        durations.len() < u64::MAX,
        after.has_observed(before, elapsed_ms),
    ensures
        after.has_seen(durations.push(elapsed_ms)),
        total_ms(durations.push(elapsed_ms)) <= u64::MAX ==> after.sum_ms == before.sum_ms
            + elapsed_ms,
{
    assert(durations.push(elapsed_ms).drop_last() == durations);
    if total_ms(durations.push(elapsed_ms)) <= u64::MAX {
        lemma_sum_fits(durations.push(elapsed_ms));
    }
}

/// The text of a histogram tells of the durations that were observed: each bucket carries the
/// number of those at or below its bound, and the last bucket and the count carry their number. The
/// sum is the sum of the durations while that fits.
pub proof fn law_histogram(
    name: Seq<char>,
    histogram: DurationHistogram,
    durations: Seq<u128>,
    sum_seconds: Seq<char>,
)
    requires
        histogram.has_seen(durations),
    ensures
        histogram.count == durations.len(),
        total_ms(durations) <= u64::MAX ==> histogram.sum_ms == total_ms(durations),
        forall|i: int|
            0 <= i < BUCKETS ==> #[trigger] cumulative_of(histogram.buckets@, i + 1)
                == count_within(durations, bound_of(i)),
        histogram_of(name, histogram, sum_seconds) == type_line(name, "histogram"@) + within_lines(
            name,
            durations,
            BUCKETS as int,
        ) + bucket_line(name, "+Inf"@, durations.len() as u64) + (name + "_sum "@ + sum_seconds
            + "\n"@) + (name + "_count "@ + decimal_of(durations.len()) + "\n"@),
{
    assert forall|i: int| 0 <= i < BUCKETS implies #[trigger] cumulative_of(
        histogram.buckets@,
        i + 1,
    ) == count_within(durations, bound_of(i)) by {
        lemma_cumulative(durations, i + 1);
    }
    lemma_within_lines(name, durations, BUCKETS as int);
}

// ---------------------------------------------------------------------------
// Lines

/// The line that explains a metric.
pub open spec fn help_line(name: Seq<char>, help: Seq<char>) -> Seq<char> {
    "# HELP "@ + name + " "@ + help + "\n"@
}

/// The line that types a metric.
pub open spec fn type_line(name: Seq<char>, metric_type: Seq<char>) -> Seq<char> {
    "# TYPE "@ + name + " "@ + metric_type + "\n"@
}

/// The line of a value.
pub open spec fn value_line(name: Seq<char>, value: u64) -> Seq<char> {
    name + " "@ + decimal_of(value as nat) + "\n"@
}

/// The lines of a gauge.
pub open spec fn gauge_lines(name: Seq<char>, value: u64) -> Seq<char> {
    type_line(name, "gauge"@) + value_line(name, value)
}

/// The lines of a counter.
pub open spec fn counter_lines(name: Seq<char>, value: u64) -> Seq<char> {
    type_line(name, "counter"@) + value_line(name, value)
}

/// The lines of a gauge that is explained.
pub open spec fn explained_gauge(name: Seq<char>, help: Seq<char>, value: u64) -> Seq<char> {
    help_line(name, help) + type_line(name, "gauge"@) + value_line(name, value)
}

pub fn metric_help(out: &mut String, name: &str, help: &str)
    ensures
        final(out)@ == old(out)@ + help_line(name@, help@),
{
    let mut line = "# HELP ".to_owned();
    line.append(name);
    line.append(" ");
    line.append(help);
    line.append("\n");
    out.append(line.as_str());
}

pub fn metric_type(out: &mut String, name: &str, metric_type: &str)
    ensures
        final(out)@ == old(out)@ + type_line(name@, metric_type@),
{
    let mut line = "# TYPE ".to_owned();
    line.append(name);
    line.append(" ");
    line.append(metric_type);
    line.append("\n");
    out.append(line.as_str());
}

pub fn metric(out: &mut String, name: &str, value: u64)
    ensures
        final(out)@ == old(out)@ + value_line(name@, value),
{
    let mut line = name.to_owned();
    line.append(" ");
    line.append(decimal(value as u128).as_str());
    line.append("\n");
    out.append(line.as_str());
}

pub fn gauge_u64(out: &mut String, name: &str, value: u64)
    ensures
        final(out)@ == old(out)@ + gauge_lines(name@, value),
{
    let mut lines = String::new();
    metric_type(&mut lines, name, "gauge");
    metric(&mut lines, name, value);
    proof {
        assert(lines@ == gauge_lines(name@, value));
    }
    out.append(lines.as_str());
}

pub fn gauge(out: &mut String, name: &str, value: usize)
    ensures
        final(out)@ == old(out)@ + gauge_lines(name@, value as u64),
{
    gauge_u64(out, name, value as u64);
}

pub fn counter(out: &mut String, name: &str, value: u64)
    ensures
        final(out)@ == old(out)@ + counter_lines(name@, value),
{
    let mut lines = String::new();
    metric_type(&mut lines, name, "counter");
    metric(&mut lines, name, value);
    proof {
        assert(lines@ == counter_lines(name@, value));
    }
    out.append(lines.as_str());
}

fn explain_gauge(out: &mut String, name: &str, help: &str, value: u64)
    ensures
        final(out)@ == old(out)@ + explained_gauge(name@, help@, value),
{
    let mut lines = String::new();
    metric_help(&mut lines, name, help);
    metric_type(&mut lines, name, "gauge");
    metric(&mut lines, name, value);
    proof {
        assert(lines@ == explained_gauge(name@, help@, value));
    }
    out.append(lines.as_str());
}

fn bucket(out: &mut String, name: &str, label: &str, count: u64)
    ensures
        final(out)@ == old(out)@ + bucket_line(name@, label@, count),
{
    let mut line = name.to_owned();
    line.append("_bucket{le=\"");
    line.append(label);
    line.append("\"} ");
    line.append(decimal(count as u128).as_str());
    line.append("\n");
    out.append(line.as_str());
}

impl DurationHistogram {
    /// Appends the text of the histogram; `sum_seconds` is its sum in seconds.
    pub fn render(&self, out: &mut String, name: &str, sum_seconds: &str)
        requires
            self.well_formed(),
        ensures
            final(out)@ == old(out)@ + histogram_of(name@, *self, sum_seconds@),
    {
        let mut lines = String::new();
        let mut cumulative: u64 = 0;
        let mut i: usize = 0;
        while i < BUCKETS
            invariant
                i <= BUCKETS,
                self.well_formed(),
                cumulative == cumulative_of(self.buckets@, i as int),
                lines@ == bucket_lines(name@, self.buckets@, i as int),
            decreases BUCKETS - i,
        {
            cumulative = cumulative.wrapping_add(self.buckets[i]);
            bucket(&mut lines, name, bucket_label(i), cumulative);
            i += 1;
        }
        let mut text = String::new();
        metric_type(&mut text, name, "histogram");
        text.append(lines.as_str());
        bucket(&mut text, name, "+Inf", self.count);
        let mut sum = name.to_owned();
        sum.append("_sum ");
        sum.append(sum_seconds);
        sum.append("\n");
        text.append(sum.as_str());
        let mut count = name.to_owned();
        count.append("_count ");
        count.append(decimal(self.count as u128).as_str());
        count.append("\n");
        text.append(count.as_str());
        proof {
            assert(text@ == histogram_of(name@, *self, sum_seconds@));
        }
        out.append(text.as_str());
    }
}

// ---------------------------------------------------------------------------
// Labels

/// A text as it stands between the quotes of a label.
pub open spec fn escaped_of(value: Seq<char>) -> Seq<char> {
    replace_of(replace_of(replace_of(value, '\\', "\\\\"@), '\n', "\\n"@), '"', "\\\""@)
}

/// A text as it stands between the quotes of a label.
pub fn escape_label_value(value: &str) -> (r: String)
    ensures
        r@ == escaped_of(value@),
{
    let backslashes = replace(value, '\\', "\\\\");
    let lines = replace(backslashes.as_str(), '\n', "\\n");
    replace(lines.as_str(), '"', "\\\"")
}

/// The text that stands between the quotes of a label: a backslash takes the next character with
/// it, and `n` behind one is a line feed.
pub open spec fn unescaped_of(value: Seq<char>) -> Seq<char>
    decreases value.len(),
{
    if value.len() == 0 {
        Seq::empty()
    } else if value[0] == '\\' && value.len() >= 2 {
        seq![
            if value[1] == 'n' {
                '\n'
            } else {
                value[1]
            },
        ] + unescaped_of(value.skip(2))
    } else {
        seq![value[0]] + unescaped_of(value.drop_first())
    }
}

/// One character as it stands between the quotes of a label.
spec fn escaped_char(c: char) -> Seq<char> {
    if c == '\\' {
        seq!['\\', '\\']
    } else if c == '\n' {
        seq!['\\', 'n']
    } else if c == '"' {
        seq!['\\', '"']
    } else {
        seq![c]
    }
}

pub proof fn lemma_replace_concat(a: Seq<char>, b: Seq<char>, from: char, to: Seq<char>)
    ensures
        replace_of(a + b, from, to) == replace_of(a, from, to) + replace_of(b, from, to),
    decreases b.len(),
{
    if b.len() == 0 {
        assert(a + b == a);
        assert(replace_of(a, from, to) + Seq::<char>::empty() == replace_of(a, from, to));
    } else {
        lemma_replace_concat(a, b.drop_last(), from, to);
        assert((a + b).drop_last() == a + b.drop_last());
        assert((a + b).last() == b.last());
        let last = if b.last() == from {
            to
        } else {
            seq![b.last()]
        };
        assert(replace_of(a, from, to) + replace_of(b.drop_last(), from, to) + last == replace_of(
            a,
            from,
            to,
        ) + (replace_of(b.drop_last(), from, to) + last));
    }
}

pub proof fn lemma_replace_one(c: char, from: char, to: Seq<char>)
    ensures
        replace_of(seq![c], from, to) == (if c == from {
            to
        } else {
            seq![c]
        }),
{
    reveal_with_fuel(replace_of, 2);
    assert(seq![c].drop_last() == Seq::<char>::empty());
    assert(Seq::<char>::empty() + to == to);
    assert(Seq::<char>::empty() + seq![c] == seq![c]);
}

proof fn lemma_replace_two(a: char, b: char, from: char, to: Seq<char>)
    requires
        a != from,
        b != from,
    ensures
        replace_of(seq![a, b], from, to) == seq![a, b],
{
    lemma_replace_one(a, from, to);
    lemma_replace_one(b, from, to);
    lemma_replace_concat(seq![a], seq![b], from, to);
    assert(seq![a] + seq![b] == seq![a, b]);
}

proof fn lemma_escape_one(c: char)
    ensures
        escaped_of(seq![c]) == escaped_char(c),
{
    reveal_strlit("\\\\");
    reveal_strlit("\\n");
    reveal_strlit("\\\"");
    assert("\\\\"@ == seq!['\\', '\\']);
    assert("\\n"@ == seq!['\\', 'n']);
    assert("\\\""@ == seq!['\\', '"']);
    lemma_replace_one(c, '\\', "\\\\"@);
    lemma_replace_one(c, '\n', "\\n"@);
    lemma_replace_one(c, '"', "\\\""@);
    lemma_replace_two('\\', '\\', '\n', "\\n"@);
    lemma_replace_two('\\', '\\', '"', "\\\""@);
    lemma_replace_two('\\', 'n', '"', "\\\""@);
}

/// A label value reads back as the text that was escaped, and never holds a line feed: no value can
/// end its label or its line.
pub proof fn law_label_reads_back(value: Seq<char>)
    ensures
        unescaped_of(escaped_of(value)) == value,
        !escaped_of(value).contains('\n'),
    decreases value.len(),
{
    if value.len() == 0 {
        assert(escaped_of(value) == Seq::<char>::empty());
        assert(unescaped_of(escaped_of(value)) == value);
    } else {
        let c = value[0];
        let rest = value.drop_first();
        law_label_reads_back(rest);
        assert(seq![c] + rest == value);
        lemma_replace_concat(seq![c], rest, '\\', "\\\\"@);
        lemma_replace_concat(
            replace_of(seq![c], '\\', "\\\\"@),
            replace_of(rest, '\\', "\\\\"@),
            '\n',
            "\\n"@,
        );
        lemma_replace_concat(
            replace_of(replace_of(seq![c], '\\', "\\\\"@), '\n', "\\n"@),
            replace_of(replace_of(rest, '\\', "\\\\"@), '\n', "\\n"@),
            '"',
            "\\\""@,
        );
        lemma_escape_one(c);
        let head = escaped_char(c);
        let tail = escaped_of(rest);
        let whole = escaped_of(value);
        assert(whole == head + tail);
        if head.len() == 2 {
            assert(whole[0] == '\\');
            assert(whole[1] == head[1]);
            assert(whole.skip(2) == tail);
        } else {
            assert(whole[0] == c);
            assert(whole.drop_first() == tail);
        }
        assert(unescaped_of(whole) == seq![c] + unescaped_of(tail));
        if whole.contains('\n') {
            let i = choose|i: int| 0 <= i < whole.len() && whole[i] == '\n';
            if i < head.len() {
                assert(head[i] == '\n');
            } else {
                assert(tail[i - head.len()] == '\n');
            }
        }
    }
}

// ---------------------------------------------------------------------------
// The counters of a worker

/// What a worker counts.
#[derive(Debug)]
pub struct WorkerMetrics {
    pub started_at_unix_seconds: u64,
    pub put_started: u64,
    pub put_succeeded: u64,
    pub put_failed: u64,
    pub put_rows: u64,
    pub put_batches: u64,
    pub put_files: u64,
    pub put_flight_stream_bytes: u64,
    pub put_parquet_object_bytes: u64,
    pub put_duration: DurationHistogram,
    pub get_started: u64,
    pub get_succeeded: u64,
    pub get_failed: u64,
    pub get_cancelled: u64,
    pub get_object_bytes: u64,
    pub get_duration: DurationHistogram,
}

/// The line that names a worker.
pub open spec fn info_line(status: WorkerStatus) -> Seq<char> {
    "worker_info{worker_id=\""@ + escaped_of(status.worker_id@) + "\",flight_uri=\""@ + escaped_of(
        status.flight_uri@,
    ) + "\"} 1\n"@
}

/// One for true, zero for false.
pub open spec fn flag(value: bool) -> u64 {
    if value {
        1
    } else {
        0
    }
}

/// The lines on the worker itself.
pub open spec fn identity_of(status: WorkerStatus, uptime: u64) -> Seq<char> {
    help_line("worker_info"@, "Worker identity."@) + type_line("worker_info"@, "gauge"@)
        + info_line(status) + explained_gauge("worker_up"@, "Worker process is running."@, 1)
        + explained_gauge(
        "worker_uptime_seconds"@,
        "Worker process uptime in seconds."@,
        uptime,
    ) + explained_gauge(
        "worker_draining"@,
        "Whether worker rejects new work."@,
        flag(status.draining),
    ) + explained_gauge(
        "worker_state_active"@,
        "Whether worker state is ACTIVE."@,
        flag(status.state == WorkerState::Active),
    )
}

/// The lines on the slots of the worker.
pub open spec fn slots_of(status: WorkerStatus) -> Seq<char> {
    gauge_lines("worker_put_slots_limit"@, status.put.limit as u64) + gauge_lines(
        "worker_put_slots_active"@,
        status.put.active as u64,
    ) + gauge_lines("worker_put_slots_available"@, status.put.available as u64) + gauge_lines(
        "worker_put_slot_wait_milliseconds"@,
        status.put.slot_wait_ms,
    ) + gauge_lines("worker_read_slots_limit"@, status.read.limit as u64) + gauge_lines(
        "worker_read_slots_active"@,
        status.read.active as u64,
    ) + gauge_lines("worker_read_slots_available"@, status.read.available as u64) + gauge_lines(
        "worker_read_slot_wait_milliseconds"@,
        status.read.slot_wait_ms,
    ) + gauge_lines(
        "worker_heartbeat_interval_milliseconds"@,
        status.heartbeat_interval_ms,
    ) + gauge_lines("worker_registry_ttl_milliseconds"@, status.registry_ttl_ms)
}

/// The lines on writes.
pub open spec fn puts_of(metrics: WorkerMetrics, sum_seconds: Seq<char>) -> Seq<char> {
    counter_lines("worker_put_started_total"@, metrics.put_started) + counter_lines(
        "worker_put_succeeded_total"@,
        metrics.put_succeeded,
    ) + counter_lines("worker_put_failed_total"@, metrics.put_failed) + counter_lines(
        "worker_put_rows_total"@,
        metrics.put_rows,
    ) + counter_lines("worker_put_batches_total"@, metrics.put_batches) + counter_lines(
        "worker_put_files_total"@,
        metrics.put_files,
    ) + counter_lines(
        "worker_put_flight_stream_bytes_total"@,
        metrics.put_flight_stream_bytes,
    ) + counter_lines(
        "worker_put_parquet_object_bytes_total"@,
        metrics.put_parquet_object_bytes,
    ) + histogram_of("worker_put_duration_seconds"@, metrics.put_duration, sum_seconds)
}

/// The lines on reads.
pub open spec fn gets_of(metrics: WorkerMetrics, sum_seconds: Seq<char>) -> Seq<char> {
    counter_lines("worker_get_started_total"@, metrics.get_started) + counter_lines(
        "worker_get_succeeded_total"@,
        metrics.get_succeeded,
    ) + counter_lines("worker_get_failed_total"@, metrics.get_failed) + counter_lines(
        "worker_get_cancelled_total"@,
        metrics.get_cancelled,
    ) + counter_lines("worker_get_object_bytes_total"@, metrics.get_object_bytes) + histogram_of(
        "worker_get_duration_seconds"@,
        metrics.get_duration,
        sum_seconds,
    )
}

/// The text for Prometheus. The sums of the durations are given in seconds.
pub open spec fn prometheus_of(
    metrics: WorkerMetrics,
    status: WorkerStatus,
    uptime: u64,
    put_seconds: Seq<char>,
    get_seconds: Seq<char>,
) -> Seq<char> {
    identity_of(status, uptime) + slots_of(status) + puts_of(metrics, put_seconds) + gets_of(
        metrics,
        get_seconds,
    )
}

/// The seconds between the start of a worker and now; none where the clock was set back.
pub open spec fn uptime_of(started: u64, now: u64) -> u64 {
    at_least(now - started, 0) as u64
}

/// Whether a text is the page of a worker at a time that the clock may show. `seconds` writes a
/// number of milliseconds in seconds.
pub open spec fn is_page<F: Fn(u64) -> String>(
    metrics: WorkerMetrics,
    status: WorkerStatus,
    seconds: F,
    text: Seq<char>,
) -> bool {
    exists|time: std::time::SystemTime, put_seconds: String, get_seconds: String|
        #![trigger epoch_seconds_of(time),
            seconds.ensures((metrics.put_duration.sum_ms,), put_seconds),
            seconds.ensures((metrics.get_duration.sum_ms,), get_seconds)]
        seconds.ensures((metrics.put_duration.sum_ms,), put_seconds) && seconds.ensures(
            (metrics.get_duration.sum_ms,),
            get_seconds,
        ) && text == prometheus_of(
            metrics,
            status,
            uptime_of(metrics.started_at_unix_seconds, epoch_seconds_of(time)),
            put_seconds@,
            get_seconds@,
        )
}

impl WorkerMetrics {
    pub open spec fn well_formed(self) -> bool {
        self.put_duration.well_formed() && self.get_duration.well_formed()
    }

    /// Counters at zero, since a time.
    pub fn starting_at(started_at_unix_seconds: u64) -> (r: WorkerMetrics)
        ensures
            r.well_formed(),
            r.started_at_unix_seconds == started_at_unix_seconds,
            r.put_duration.is_new(),
            r.get_duration.is_new(),
            r == (WorkerMetrics {
                started_at_unix_seconds,
                put_started: 0,
                put_succeeded: 0,
                put_failed: 0,
                put_rows: 0,
                put_batches: 0,
                put_files: 0,
                put_flight_stream_bytes: 0,
                put_parquet_object_bytes: 0,
                put_duration: r.put_duration,
                get_started: 0,
                get_succeeded: 0,
                get_failed: 0,
                get_cancelled: 0,
                get_object_bytes: 0,
                get_duration: r.get_duration,
            }),
    {
        WorkerMetrics {
            started_at_unix_seconds,
            put_started: 0,
            put_succeeded: 0,
            put_failed: 0,
            put_rows: 0,
            put_batches: 0,
            put_files: 0,
            put_flight_stream_bytes: 0,
            put_parquet_object_bytes: 0,
            put_duration: DurationHistogram::new(),
            get_started: 0,
            get_succeeded: 0,
            get_failed: 0,
            get_cancelled: 0,
            get_object_bytes: 0,
            get_duration: DurationHistogram::new(),
        }
    }

    /// Counters at zero, since now.
    pub fn new() -> (r: WorkerMetrics)
        ensures
            r.well_formed(),
            exists|time: std::time::SystemTime|
                r.started_at_unix_seconds == #[trigger] epoch_seconds_of(time),
            r.put_duration.is_new(),
            r.get_duration.is_new(),
            r == (WorkerMetrics {
                started_at_unix_seconds: r.started_at_unix_seconds,
                put_started: 0,
                put_succeeded: 0,
                put_failed: 0,
                put_rows: 0,
                put_batches: 0,
                put_files: 0,
                put_flight_stream_bytes: 0,
                put_parquet_object_bytes: 0,
                put_duration: r.put_duration,
                get_started: 0,
                get_succeeded: 0,
                get_failed: 0,
                get_cancelled: 0,
                get_object_bytes: 0,
                get_duration: r.get_duration,
            }),
    {
        WorkerMetrics::starting_at(unix_seconds())
    }

    /// These counters with one more write that has started.
    pub open spec fn with_put_start(self) -> WorkerMetrics {
        WorkerMetrics { put_started: self.put_started.wrapping_add(1), ..self }
    }

    /// These counters with one more read that has started.
    pub open spec fn with_get_start(self) -> WorkerMetrics {
        WorkerMetrics { get_started: self.get_started.wrapping_add(1), ..self }
    }

    /// Whether these are `before` with one more write that succeeded.
    pub open spec fn has_counted_put(
        self,
        before: WorkerMetrics,
        elapsed_ms: u128,
        summary: PutSummary,
    ) -> bool {
        &&& self.put_duration.has_observed(before.put_duration, elapsed_ms)
        &&& self == (WorkerMetrics {
            put_succeeded: before.put_succeeded.wrapping_add(1),
            put_rows: before.put_rows.wrapping_add(summary.rows as u64),
            put_batches: before.put_batches.wrapping_add(summary.batches as u64),
            put_files: before.put_files.wrapping_add(summary.parts as u64),
            put_flight_stream_bytes: before.put_flight_stream_bytes.wrapping_add(
                summary.flight_stream_bytes,
            ),
            put_parquet_object_bytes: match summary.parquet_object_bytes {
                Some(bytes) => before.put_parquet_object_bytes.wrapping_add(bytes),
                None => before.put_parquet_object_bytes,
            },
            put_duration: self.put_duration,
            ..before
        })
    }

    /// Whether these are `before` with one more write that failed.
    pub open spec fn has_counted_failed_put(
        self,
        before: WorkerMetrics,
        elapsed_ms: u128,
    ) -> bool {
        &&& self.put_duration.has_observed(before.put_duration, elapsed_ms)
        &&& self == (WorkerMetrics {
            put_failed: before.put_failed.wrapping_add(1),
            put_duration: self.put_duration,
            ..before
        })
    }

    pub fn record_put_started(&mut self)
        ensures
            *final(self) == old(self).with_put_start(),
    {
        self.put_started = self.put_started.wrapping_add(1);
    }

    /// Counts a write that succeeded, with what its summary tells.
    pub fn record_put_succeeded(&mut self, elapsed_ms: u128, summary: &PutSummary)
        requires
            old(self).well_formed(),
        ensures
            final(self).well_formed(),
            final(self).has_counted_put(*old(self), elapsed_ms, *summary),
    {
        self.put_succeeded = self.put_succeeded.wrapping_add(1);
        self.put_rows = self.put_rows.wrapping_add(summary.rows as u64);
        self.put_batches = self.put_batches.wrapping_add(summary.batches as u64);
        self.put_files = self.put_files.wrapping_add(summary.parts as u64);
        self.put_flight_stream_bytes = self.put_flight_stream_bytes.wrapping_add(
            summary.flight_stream_bytes,
        );
        if let Some(bytes) = summary.parquet_object_bytes {
            self.put_parquet_object_bytes = self.put_parquet_object_bytes.wrapping_add(bytes);
        }
        self.put_duration.observe(elapsed_ms);
    }

    pub fn record_put_failed(&mut self, elapsed_ms: u128)
        requires
            old(self).well_formed(),
        ensures
            final(self).well_formed(),
            final(self).has_counted_failed_put(*old(self), elapsed_ms),
    {
        self.put_failed = self.put_failed.wrapping_add(1);
        self.put_duration.observe(elapsed_ms);
    }

    pub fn record_get_started(&mut self)
        ensures
            *final(self) == old(self).with_get_start(),
    {
        self.get_started = self.get_started.wrapping_add(1);
    }

    pub fn record_get_failed(&mut self, elapsed_ms: u128)
        requires
            old(self).well_formed(),
        ensures
            final(self).well_formed(),
            final(self).get_duration.has_observed(old(self).get_duration, elapsed_ms),
            *final(self) == (WorkerMetrics {
                get_failed: old(self).get_failed.wrapping_add(1),
                get_duration: final(self).get_duration,
                ..*old(self)
            }),
    {
        self.get_failed = self.get_failed.wrapping_add(1);
        self.get_duration.observe(elapsed_ms);
    }

    pub fn record_get_succeeded(&mut self, elapsed_ms: u128, object_bytes: u64)
        requires
            old(self).well_formed(),
        ensures
            final(self).well_formed(),
            final(self).get_duration.has_observed(old(self).get_duration, elapsed_ms),
            *final(self) == (WorkerMetrics {
                get_succeeded: old(self).get_succeeded.wrapping_add(1),
                get_object_bytes: old(self).get_object_bytes.wrapping_add(object_bytes),
                get_duration: final(self).get_duration,
                ..*old(self)
            }),
    {
        self.get_succeeded = self.get_succeeded.wrapping_add(1);
        self.get_object_bytes = self.get_object_bytes.wrapping_add(object_bytes);
        self.get_duration.observe(elapsed_ms);
    }

    pub fn record_get_cancelled(&mut self, elapsed_ms: u128)
        requires
            old(self).well_formed(),
        ensures
            final(self).well_formed(),
            final(self).get_duration.has_observed(old(self).get_duration, elapsed_ms),
            *final(self) == (WorkerMetrics {
                get_cancelled: old(self).get_cancelled.wrapping_add(1),
                get_duration: final(self).get_duration,
                ..*old(self)
            }),
    {
        self.get_cancelled = self.get_cancelled.wrapping_add(1);
        self.get_duration.observe(elapsed_ms);
    }

    fn render_identity(&self, status: &WorkerStatus, uptime: u64) -> (r: String)
        ensures
            r@ == identity_of(*status, uptime),
    {
        let mut out = String::new();
        metric_help(&mut out, "worker_info", "Worker identity.");
        metric_type(&mut out, "worker_info", "gauge");
        let mut info = "worker_info{worker_id=\"".to_owned();
        info.append(escape_label_value(status.worker_id.as_str()).as_str());
        info.append("\",flight_uri=\"");
        info.append(escape_label_value(status.flight_uri.as_str()).as_str());
        info.append("\"} 1\n");
        out.append(info.as_str());
        explain_gauge(&mut out, "worker_up", "Worker process is running.", 1);
        explain_gauge(
            &mut out,
            "worker_uptime_seconds",
            "Worker process uptime in seconds.",
            uptime,
        );
        let draining: u64 = if status.draining {
            1
        } else {
            0
        };
        explain_gauge(&mut out, "worker_draining", "Whether worker rejects new work.", draining);
        let active: u64 = match status.state {
            WorkerState::Active => 1,
            WorkerState::Draining => 0,
        };
        explain_gauge(&mut out, "worker_state_active", "Whether worker state is ACTIVE.", active);
        proof {
            assert(out@ == identity_of(*status, uptime));
        }
        out
    }

    fn render_slots(&self, status: &WorkerStatus) -> (r: String)
        ensures
            r@ == slots_of(*status),
    {
        let mut out = String::new();
        gauge(&mut out, "worker_put_slots_limit", status.put.limit);
        gauge(&mut out, "worker_put_slots_active", status.put.active);
        gauge(&mut out, "worker_put_slots_available", status.put.available);
        gauge_u64(&mut out, "worker_put_slot_wait_milliseconds", status.put.slot_wait_ms);
        gauge(&mut out, "worker_read_slots_limit", status.read.limit);
        gauge(&mut out, "worker_read_slots_active", status.read.active);
        gauge(&mut out, "worker_read_slots_available", status.read.available);
        gauge_u64(&mut out, "worker_read_slot_wait_milliseconds", status.read.slot_wait_ms);
        gauge_u64(
            &mut out,
            "worker_heartbeat_interval_milliseconds",
            status.heartbeat_interval_ms,
        );
        gauge_u64(&mut out, "worker_registry_ttl_milliseconds", status.registry_ttl_ms);
        proof {
            assert(out@ == slots_of(*status));
        }
        out
    }

    fn render_puts(&self, sum_seconds: &str) -> (r: String)
        requires
            self.well_formed(),
        ensures
            r@ == puts_of(*self, sum_seconds@),
    {
        let mut out = String::new();
        counter(&mut out, "worker_put_started_total", self.put_started);
        counter(&mut out, "worker_put_succeeded_total", self.put_succeeded);
        counter(&mut out, "worker_put_failed_total", self.put_failed);
        counter(&mut out, "worker_put_rows_total", self.put_rows);
        counter(&mut out, "worker_put_batches_total", self.put_batches);
        counter(&mut out, "worker_put_files_total", self.put_files);
        counter(
            &mut out,
            "worker_put_flight_stream_bytes_total",
            self.put_flight_stream_bytes,
        );
        counter(
            &mut out,
            "worker_put_parquet_object_bytes_total",
            self.put_parquet_object_bytes,
        );
        self.put_duration.render(&mut out, "worker_put_duration_seconds", sum_seconds);
        proof {
            assert(out@ == puts_of(*self, sum_seconds@));
        }
        out
    }

    fn render_gets(&self, sum_seconds: &str) -> (r: String)
        requires
            self.well_formed(),
        ensures
            r@ == gets_of(*self, sum_seconds@),
    {
        let mut out = String::new();
        counter(&mut out, "worker_get_started_total", self.get_started);
        counter(&mut out, "worker_get_succeeded_total", self.get_succeeded);
        counter(&mut out, "worker_get_failed_total", self.get_failed);
        counter(&mut out, "worker_get_cancelled_total", self.get_cancelled);
        counter(&mut out, "worker_get_object_bytes_total", self.get_object_bytes);
        self.get_duration.render(&mut out, "worker_get_duration_seconds", sum_seconds);
        proof {
            assert(out@ == gets_of(*self, sum_seconds@));
        }
        out
    }

    /// The text for Prometheus at a time. The sums of the durations are given in seconds.
    pub fn render_at(
        &self,
        status: &WorkerStatus,
        now_unix_seconds: u64,
        put_seconds: &str,
        get_seconds: &str,
    ) -> (r: String)
        requires
            self.well_formed(),
        ensures
            r@ == prometheus_of(
                *self,
                *status,
                uptime_of(self.started_at_unix_seconds, now_unix_seconds),
                put_seconds@,
                get_seconds@,
            ),
    {
        let uptime: u64 = now_unix_seconds.saturating_sub(self.started_at_unix_seconds);
        let mut out = self.render_identity(status, uptime);
        out.append(self.render_slots(status).as_str());
        out.append(self.render_puts(put_seconds).as_str());
        out.append(self.render_gets(get_seconds).as_str());
        out
    }

    /// The text for Prometheus now. `seconds` writes a number of milliseconds in seconds.
    pub fn render_prometheus<F: Fn(u64) -> String>(&self, status: &WorkerStatus, seconds: &F) -> (r:
        String)
        requires
            self.well_formed(),
            forall|ms: u64| seconds.requires((ms,)),
        ensures
            is_page(*self, *status, *seconds, r@),
    {
        let now: u64 = unix_seconds();
        let put_seconds = seconds(self.put_duration.sum_ms);
        let get_seconds = seconds(self.get_duration.sum_ms);
        self.render_at(status, now, put_seconds.as_str(), get_seconds.as_str())
    }
}

impl Default for WorkerMetrics {
    /// Counters at zero, since now.
    fn default() -> (r: WorkerMetrics)
        ensures
            r.well_formed(),
            r.put_duration.is_new(),
            r.get_duration.is_new(),
            exists|time: std::time::SystemTime|
                r.started_at_unix_seconds == #[trigger] epoch_seconds_of(time),
            r == (WorkerMetrics {
                started_at_unix_seconds: r.started_at_unix_seconds,
                put_started: 0,
                put_succeeded: 0,
                put_failed: 0,
                put_rows: 0,
                put_batches: 0,
                put_files: 0,
                put_flight_stream_bytes: 0,
                put_parquet_object_bytes: 0,
                put_duration: r.put_duration,
                get_started: 0,
                get_succeeded: 0,
                get_failed: 0,
                get_cancelled: 0,
                get_object_bytes: 0,
                get_duration: r.get_duration,
            }),
    {
        WorkerMetrics::new()
    }
}

/// A duration falls into the first bucket whose bound it does not exceed: it exceeds the bounds of
/// all buckets before it.
pub proof fn law_bucket(ms: u64)
    ensures
        0 <= bucket_from(ms, 0) <= BUCKETS,
        bucket_from(ms, 0) < BUCKETS ==> ms <= bound_of(bucket_from(ms, 0)),
        forall|i: int| 0 <= i < bucket_from(ms, 0) ==> ms > #[trigger] bound_of(i),
{
    reveal_with_fuel(bucket_from, 16);
}

// ---------------------------------------------------------------------------
// Reads

/// A read whose end is counted once.
#[derive(Debug)]
pub struct MeasuredReadStream<S> {
    pub inner: S,
    pub object_bytes: u64,
    pub completed: bool,
}

/// What happens to a read.
#[derive(Clone, Copy, Debug, PartialEq, Eq, Structural)]
pub enum ReadEvent {
    /// A message was sent, or the stream has none yet.
    Progress,
    /// The stream came to its end.
    Ended,
    /// The stream failed.
    Failed,
    /// The stream was given up.
    Dropped,
}

/// Whether a read has come to its end after an event.
pub open spec fn completed_after(completed: bool, event: ReadEvent) -> bool {
    completed || event == ReadEvent::Ended || event == ReadEvent::Failed
}

/// Whether `after` is `before` with the end of a read counted as the event says: a success with the
/// bytes of its object, a failure, or a cancellation.
pub open spec fn is_counted(
    before: WorkerMetrics,
    after: WorkerMetrics,
    object_bytes: u64,
    event: ReadEvent,
    elapsed_ms: u128,
) -> bool {
    &&& after.get_duration.has_observed(before.get_duration, elapsed_ms)
    &&& after == (WorkerMetrics {
        get_succeeded: if event == ReadEvent::Ended {
            before.get_succeeded.wrapping_add(1)
        } else {
            before.get_succeeded
        },
        get_object_bytes: if event == ReadEvent::Ended {
            before.get_object_bytes.wrapping_add(object_bytes)
        } else {
            before.get_object_bytes
        },
        get_failed: if event == ReadEvent::Failed {
            before.get_failed.wrapping_add(1)
        } else {
            before.get_failed
        },
        get_cancelled: if event == ReadEvent::Dropped {
            before.get_cancelled.wrapping_add(1)
        } else {
            before.get_cancelled
        },
        get_duration: after.get_duration,
        ..before
    })
}

/// What an event of a read does to the counters: nothing where the read has come to its end or only
/// goes on.
pub open spec fn is_read_step(
    before: WorkerMetrics,
    after: WorkerMetrics,
    completed: bool,
    object_bytes: u64,
    event: ReadEvent,
    elapsed_ms: u128,
) -> bool {
    if completed || event == ReadEvent::Progress {
        after == before
    } else {
        is_counted(before, after, object_bytes, event, elapsed_ms)
    }
}

impl<S> MeasuredReadStream<S> {
    pub fn new(inner: S, object_bytes: u64) -> (r: MeasuredReadStream<S>)
        ensures
            r == (MeasuredReadStream { inner, object_bytes, completed: false }),
    {
        MeasuredReadStream { inner, object_bytes, completed: false }
    }

    /// Counts the first end of the read: a success, a failure, or a cancellation where it was given
    /// up before either.
    pub fn observe(&mut self, event: ReadEvent, elapsed_ms: u128, metrics: &mut WorkerMetrics)
        requires
            old(metrics).well_formed(),
        ensures
            final(metrics).well_formed(),
            *final(self) == (MeasuredReadStream {
                completed: completed_after(old(self).completed, event),
                ..*old(self)
            }),
            is_read_step(
                *old(metrics),
                *final(metrics),
                old(self).completed,
                old(self).object_bytes,
                event,
                elapsed_ms,
            ),
    {
        if self.completed {
            return;
        }
        match event {
            ReadEvent::Progress => {},
            ReadEvent::Ended => {
                self.completed = true;
                metrics.record_get_succeeded(elapsed_ms, self.object_bytes);
            },
            ReadEvent::Failed => {
                self.completed = true;
                metrics.record_get_failed(elapsed_ms);
            },
            ReadEvent::Dropped => {
                metrics.record_get_cancelled(elapsed_ms);
            },
        }
    }
}

/// Whether the counters pass through `states` while the events of a read are observed, each after
/// its time. Nothing else is counted meanwhile.
pub open spec fn is_read_course(
    completed: bool,
    object_bytes: u64,
    events: Seq<ReadEvent>,
    times: Seq<u128>,
    states: Seq<WorkerMetrics>,
) -> bool
    decreases events.len(),
{
    if events.len() == 0 {
        states.len() == 1
    } else {
        &&& states.len() == events.len() + 1
        &&& is_read_step(states[0], states[1], completed, object_bytes, events[0], times[0])
        &&& is_read_course(
            completed_after(completed, events[0]),
            object_bytes,
            events.drop_first(),
            times.drop_first(),
            states.drop_first(),
        )
    }
}

/// Where the first event is that is more than progress.
pub open spec fn end_at(events: Seq<ReadEvent>) -> int
    decreases events.len(),
{
    if events.len() == 0 || events[0] != ReadEvent::Progress {
        0
    } else {
        1 + end_at(events.drop_first())
    }
}

proof fn lemma_completed_course(
    object_bytes: u64,
    events: Seq<ReadEvent>,
    times: Seq<u128>,
    states: Seq<WorkerMetrics>,
)
    requires
        is_read_course(true, object_bytes, events, times, states),
    ensures
        states.len() == events.len() + 1,
        states.last() == states[0],
    decreases events.len(),
{
    if events.len() > 0 {
        lemma_completed_course(
            object_bytes,
            events.drop_first(),
            times.drop_first(),
            states.drop_first(),
        );
        assert(states.drop_first().last() == states.last());
    }
}

/// Every read is counted exactly once, however often it is polled before it is dropped. Its first
/// event that is more than progress says as what: exactly one of the successes, the failures and
/// the cancellations grows by one, and the time of that event is the duration that is observed.
pub proof fn law_read_is_counted_once(
    object_bytes: u64,
    events: Seq<ReadEvent>,
    times: Seq<u128>,
    states: Seq<WorkerMetrics>,
)
    requires
        events.len() > 0,
        times.len() == events.len(),
        events.last() == ReadEvent::Dropped,
        forall|i: int| 0 <= i < events.len() - 1 ==> #[trigger] events[i] != ReadEvent::Dropped,
        is_read_course(false, object_bytes, events, times, states),
    ensures
        0 <= end_at(events) < events.len(),
        events[end_at(events)] != ReadEvent::Progress,
        is_counted(
            states[0],
            states.last(),
            object_bytes,
            events[end_at(events)],
            times[end_at(events)],
        ),
    decreases events.len(),
{
    let rest = events.drop_first();
    let later = states.drop_first();
    if events[0] == ReadEvent::Progress {
        assert(rest.last() == events.last());
        assert forall|i: int| 0 <= i < rest.len() - 1 implies #[trigger] rest[i]
            != ReadEvent::Dropped by {
            assert(rest[i] == events[i + 1]);
        }
        law_read_is_counted_once(object_bytes, rest, times.drop_first(), later);
        assert(later.last() == states.last());
    } else if events.len() == 1 {
        assert(states.last() == states[1]);
    } else {
        lemma_completed_course(object_bytes, rest, times.drop_first(), later);
        assert(later.last() == states.last());
    }
}

// ---------------------------------------------------------------------------
// The metrics endpoint

/// What a request to the metrics endpoint asks for.
#[derive(Clone, Copy, Debug, PartialEq, Eq, Structural)]
pub enum Endpoint {
    Metrics,
    Health,
    Missing,
}

/// The path in the first line of a request: its second word.
pub open spec fn request_path_of(request: Seq<char>) -> Seq<char> {
    let parts = words_of(split_of(request, '\n')[0]);
    if parts.len() > 1 {
        parts[1]
    } else {
        "/"@
    }
}

/// What a path asks for.
pub open spec fn endpoint_of(path: Seq<char>) -> Endpoint {
    if path == "/metrics"@ {
        Endpoint::Metrics
    } else if path == "/healthz"@ {
        Endpoint::Health
    } else {
        Endpoint::Missing
    }
}

/// What the bytes of a request ask for.
pub fn request_endpoint(request: &[u8]) -> (r: Endpoint)
    ensures
        r == endpoint_of(request_path_of(lossy_text_of(request@))),
{
    let text = lossy_text(request);
    let lines = split(text.as_str(), '\n');
    proof {
        crate::path::lemma_split_parts(text@, '\n');
        assert(split_of(text@, '\n')[0] == lines@[0]@);
    }
    let parts = words(lines[0].as_str());
    if parts.len() > 1 {
        proof {
            assert(words_of(lines@[0]@)[1] == parts@[1]@);
        }
        path_endpoint(parts[1].as_str())
    } else {
        path_endpoint("/")
    }
}

/// What a path asks for.
pub fn path_endpoint(path: &str) -> (r: Endpoint)
    ensures
        r == endpoint_of(path@),
{
    if text_eq(path, "/metrics") {
        Endpoint::Metrics
    } else if text_eq(path, "/healthz") {
        Endpoint::Health
    } else {
        Endpoint::Missing
    }
}

/// The status line and the body that a request is answered with.
pub open spec fn reply_of(endpoint: Endpoint, metrics: Seq<char>) -> (Seq<char>, Seq<char>) {
    match endpoint {
        Endpoint::Metrics => ("200 OK"@, metrics),
        Endpoint::Health => ("200 OK"@, "ok\n"@),
        Endpoint::Missing => ("404 Not Found"@, "not found\n"@),
    }
}

/// An answer of the metrics endpoint.
#[derive(Debug)]
pub struct HttpReply {
    pub head: String,
    pub body: String,
}

/// The head of an answer with a body.
pub open spec fn head_of(endpoint: Endpoint, body: Seq<char>) -> Seq<char> {
    "HTTP/1.1 "@ + reply_of(endpoint, body).0
        + "\r\ncontent-type: text/plain; version=0.0.4\r\ncontent-length: "@ + decimal_of(
        encode_utf8(body).len(),
    ) + "\r\nconnection: close\r\n\r\n"@
}

/// The answer to a request; `metrics` is the text for Prometheus, which only a request for it gets.
pub fn metrics_reply(endpoint: Endpoint, metrics: String) -> (r: HttpReply)
    ensures
        r.body@ == reply_of(endpoint, metrics@).1,
        r.head@ == head_of(endpoint, r.body@),
{
    let (status, body) = match endpoint {
        Endpoint::Metrics => ("200 OK", metrics),
        Endpoint::Health => ("200 OK", "ok\n".to_owned()),
        Endpoint::Missing => ("404 Not Found", "not found\n".to_owned()),
    };
    let mut head = "HTTP/1.1 ".to_owned();
    head.append(status);
    head.append("\r\ncontent-type: text/plain; version=0.0.4\r\ncontent-length: ");
    let length: usize = body.as_str().as_bytes().len();
    head.append(decimal(length as u128).as_str());
    head.append("\r\nconnection: close\r\n\r\n");
    HttpReply { head, body }
}

// ---------------------------------------------------------------------------
// Laws of counters

/// A write that succeeded raises the successes by one, and the rows, the batches, the files and the
/// bytes by those of its summary, while the counters hold them; its duration is observed among the
/// writes. No failure and nothing of the reads is counted.
pub proof fn law_write_is_counted(
    before: WorkerMetrics,
    after: WorkerMetrics,
    elapsed_ms: u128,
    summary: PutSummary,
)
    requires
        after.has_counted_put(before, elapsed_ms, summary),
        before.put_succeeded < u64::MAX,
        before.put_rows + summary.rows <= u64::MAX,
        before.put_batches + summary.batches <= u64::MAX,
        before.put_files + summary.parts <= u64::MAX,
        before.put_flight_stream_bytes + summary.flight_stream_bytes <= u64::MAX,
        summary.parquet_object_bytes matches Some(bytes) ==> before.put_parquet_object_bytes + bytes
            <= u64::MAX,
    ensures
        after.put_succeeded == before.put_succeeded + 1,
        after.put_rows == before.put_rows + summary.rows,
        after.put_batches == before.put_batches + summary.batches,
        after.put_files == before.put_files + summary.parts,
        after.put_flight_stream_bytes == before.put_flight_stream_bytes
            + summary.flight_stream_bytes,
        summary.parquet_object_bytes matches Some(bytes) ==> after.put_parquet_object_bytes
            == before.put_parquet_object_bytes + bytes,
        summary.parquet_object_bytes is None ==> after.put_parquet_object_bytes
            == before.put_parquet_object_bytes,
        after.put_duration.has_observed(before.put_duration, elapsed_ms),
        after.put_started == before.put_started,
        after.put_failed == before.put_failed,
        after.get_started == before.get_started,
        after.get_succeeded == before.get_succeeded,
        after.get_failed == before.get_failed,
        after.get_cancelled == before.get_cancelled,
        after.get_object_bytes == before.get_object_bytes,
        after.get_duration == before.get_duration,
        after.started_at_unix_seconds == before.started_at_unix_seconds,
{
}

/// A write that failed raises the failures by one, its duration is observed among the writes, and
/// nothing else is counted. A start raises the starts of its kind by one, and nothing else.
pub proof fn law_failures_and_starts_are_counted(
    before: WorkerMetrics,
    after: WorkerMetrics,
    elapsed_ms: u128,
)
    requires
        after.has_counted_failed_put(before, elapsed_ms),
        before.put_failed < u64::MAX,
        before.put_started < u64::MAX,
        before.get_started < u64::MAX,
    ensures
        after.put_failed == before.put_failed + 1,
        after.put_duration.has_observed(before.put_duration, elapsed_ms),
        after.put_succeeded == before.put_succeeded,
        after.put_started == before.put_started,
        after.put_rows == before.put_rows,
        after.put_batches == before.put_batches,
        after.put_files == before.put_files,
        after.put_flight_stream_bytes == before.put_flight_stream_bytes,
        after.put_parquet_object_bytes == before.put_parquet_object_bytes,
        after.get_duration == before.get_duration,
        after.get_failed == before.get_failed,
        before.with_put_start().put_started == before.put_started + 1,
        before.with_put_start().get_started == before.get_started,
        before.with_put_start().put_succeeded == before.put_succeeded,
        before.with_get_start().get_started == before.get_started + 1,
        before.with_get_start().put_started == before.put_started,
        before.with_get_start().get_succeeded == before.get_succeeded,
{
}

/// The end of a read is counted as what it is: a success raises the successes by one and the bytes
/// by those of its object, a failure raises the failures, and a read that was given up the
/// cancellations. Nothing of the writes is counted.
pub proof fn law_read_end_is_counted(
    before: WorkerMetrics,
    after: WorkerMetrics,
    object_bytes: u64,
    event: ReadEvent,
    elapsed_ms: u128,
)
    requires
        is_read_step(before, after, false, object_bytes, event, elapsed_ms),
        event != ReadEvent::Progress,
        before.get_succeeded < u64::MAX,
        before.get_failed < u64::MAX,
        before.get_cancelled < u64::MAX,
        before.get_object_bytes + object_bytes <= u64::MAX,
    ensures
        event == ReadEvent::Ended ==> after.get_succeeded == before.get_succeeded + 1
            && after.get_object_bytes == before.get_object_bytes + object_bytes,
        event != ReadEvent::Ended ==> after.get_succeeded == before.get_succeeded
            && after.get_object_bytes == before.get_object_bytes,
        event == ReadEvent::Failed ==> after.get_failed == before.get_failed + 1,
        event != ReadEvent::Failed ==> after.get_failed == before.get_failed,
        event == ReadEvent::Dropped ==> after.get_cancelled == before.get_cancelled + 1,
        event != ReadEvent::Dropped ==> after.get_cancelled == before.get_cancelled,
        after.get_duration.has_observed(before.get_duration, elapsed_ms),
        after.get_started == before.get_started,
        after.put_succeeded == before.put_succeeded,
        after.put_failed == before.put_failed,
        after.put_duration == before.put_duration,
{
}

/// A read that has come to its end, or that only goes on, is not counted; it has come to its end
/// once it ended or failed.
pub proof fn law_read_goes_on(
    before: WorkerMetrics,
    after: WorkerMetrics,
    completed: bool,
    object_bytes: u64,
    event: ReadEvent,
    elapsed_ms: u128,
)
    requires
        is_read_step(before, after, completed, object_bytes, event, elapsed_ms),
        completed || event == ReadEvent::Progress,
    ensures
        after == before,
        completed ==> completed_after(completed, event),
        !completed ==> !completed_after(completed, event),
        completed_after(completed, ReadEvent::Ended),
        completed_after(completed, ReadEvent::Failed),
{
}

/// The bounds of the buckets rise, so that each duration falls into one bucket, and each bound is
/// the label of its bucket in thousandths of a second.
pub proof fn law_bounds_rise(i: int)
    requires
        0 <= i < BUCKETS,
    ensures
        i + 1 < BUCKETS ==> bound_of(i) < bound_of(i + 1),
        bound_of(0) == 5 && bound_of(BUCKETS - 1) == 300_000,
        label_ms(label_of(i)) == bound_of(i),
{
    lemma_label(i);
}

/// Where the first dot of a label is; its length where it has none.
pub open spec fn dot_of(label: Seq<char>) -> nat
    decreases label.len(),
{
    if label.len() == 0 || label[0] == '.' {
        0
    } else {
        1 + dot_of(label.drop_first())
    }
}

/// The value of digits.
pub open spec fn digits_value(digits: Seq<char>) -> nat
    decreases digits.len(),
{
    if digits.len() == 0 {
        0
    } else {
        digits_value(digits.drop_last()) * 10 + digit_value(digits.last())
    }
}

/// The thousandths that a label in seconds stands for; it has three decimals at most.
pub open spec fn label_ms(label: Seq<char>) -> nat {
    let dot = dot_of(label);
    let whole = digits_value(label.take(dot as int));
    if dot >= label.len() {
        whole * 1000
    } else {
        let decimals = label.skip(dot as int + 1);
        whole * 1000 + digits_value(decimals) * (if decimals.len() == 1 {
            100nat
        } else if decimals.len() == 2 {
            10
        } else {
            1
        })
    }
}

proof fn lemma_digits(digits: Seq<char>)
    ensures
        digits.len() == 1 ==> digits_value(digits) == digit_value(digits[0]),
        digits.len() == 2 ==> digits_value(digits) == digit_value(digits[0]) * 10 + digit_value(
            digits[1],
        ),
        digits.len() == 3 ==> digits_value(digits) == digit_value(digits[0]) * 100 + digit_value(
            digits[1],
        ) * 10 + digit_value(digits[2]),
{
    reveal_with_fuel(digits_value, 4);
}

proof fn lemma_label(i: int)
    requires
        0 <= i < BUCKETS,
    ensures
        label_ms(label_of(i)) == bound_of(i),
{
    reveal_strlit("0.005");
    reveal_strlit("0.01");
    reveal_strlit("0.025");
    reveal_strlit("0.05");
    reveal_strlit("0.1");
    reveal_strlit("0.25");
    reveal_strlit("0.5");
    reveal_strlit("1");
    reveal_strlit("2.5");
    reveal_strlit("5");
    reveal_strlit("10");
    reveal_strlit("30");
    reveal_strlit("60");
    reveal_strlit("120");
    reveal_strlit("300");
    reveal_with_fuel(dot_of, 5);
    let label = label_of(i);
    let dot = dot_of(label) as int;
    lemma_digits(label.take(dot));
    if dot < label.len() {
        lemma_digits(label.skip(dot + 1));
    }
}

/// A request is answered by its path alone: the page under `/metrics`, a sign of life under
/// `/healthz`, both as found, and anything else as not found.
pub proof fn law_endpoints(path: Seq<char>, metrics: Seq<char>)
    ensures
        path == "/metrics"@ ==> reply_of(endpoint_of(path), metrics) == ("200 OK"@, metrics),
        path == "/healthz"@ ==> reply_of(endpoint_of(path), metrics) == ("200 OK"@, "ok\n"@),
        path != "/metrics"@ && path != "/healthz"@ ==> reply_of(endpoint_of(path), metrics) == (
            "404 Not Found"@,
            "not found\n"@,
        ),
{
    reveal_strlit("/metrics");
    reveal_strlit("/healthz");
    assert("/metrics"@[1] != "/healthz"@[1]);
}

/// The uptime is the time since the start, and none where the clock was set back behind it.
pub proof fn law_uptime(started: u64, now: u64)
    ensures
        now >= started ==> started + uptime_of(started, now) == now,
        now < started ==> uptime_of(started, now) == 0,
{
}

/// A request whose first line is a method, a path and a version asks for the path, whatever
/// follows; a first line of one word asks for the root.
pub proof fn law_request_path(
    request: Seq<char>,
    method: Seq<char>,
    path: Seq<char>,
    version: Seq<char>,
)
    requires
        method.len() > 0,
        path.len() > 0,
        forall|i: int| 0 <= i < method.len() ==> !is_white_space(#[trigger] method[i]),
        forall|i: int| 0 <= i < path.len() ==> !is_white_space(#[trigger] path[i]),
    ensures
        split_of(request, '\n')[0] == method + seq![' '] + (path + seq![' '] + version)
            ==> request_path_of(request) == path,
        split_of(request, '\n')[0] == method ==> request_path_of(request) == "/"@,
{
    crate::text::law_words(method, ' ', path + seq![' '] + version);
    crate::text::law_words(path, ' ', version);
}

/// The head of an answer tells whether what was asked for is there and, in bytes, how long the body
/// is.
pub proof fn law_reply_heads(endpoint: Endpoint, body: Seq<char>)
    ensures
        endpoint != Endpoint::Missing ==> head_of(endpoint, body) == "HTTP/1.1 200 OK"@
            + "\r\ncontent-type: text/plain; version=0.0.4\r\ncontent-length: "@ + decimal_of(
            encode_utf8(body).len(),
        ) + "\r\nconnection: close\r\n\r\n"@,
        endpoint == Endpoint::Missing ==> head_of(endpoint, body) == "HTTP/1.1 404 Not Found"@
            + "\r\ncontent-type: text/plain; version=0.0.4\r\ncontent-length: "@ + decimal_of(
            encode_utf8(body).len(),
        ) + "\r\nconnection: close\r\n\r\n"@,
{
    reveal_strlit("HTTP/1.1 ");
    reveal_strlit("200 OK");
    reveal_strlit("404 Not Found");
    reveal_strlit("HTTP/1.1 200 OK");
    reveal_strlit("HTTP/1.1 404 Not Found");
    assert("HTTP/1.1 "@ + "200 OK"@ == "HTTP/1.1 200 OK"@);
    assert("HTTP/1.1 "@ + "404 Not Found"@ == "HTTP/1.1 404 Not Found"@);
}

}
