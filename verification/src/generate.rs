//! Test data: how many rows a file gets, and what is in them.

use vstd::prelude::*;

use crate::error::ErrorChain;
use crate::number::{at_least, at_most, max_usize, min_usize};

verus! {

/// Accepts rows with a payload.
pub fn check_payload(payload_bytes: usize) -> (r: Result<(), ErrorChain>)
    ensures
        match r {
            Ok(_) => payload_bytes > 0,
            Err(error) => payload_bytes == 0 && error@ == seq![
                "--payload-bytes must be greater than 0"@,
            ],
        },
{
    if payload_bytes == 0 {
        return Err(ErrorChain::new("--payload-bytes must be greater than 0".to_owned()));
    }
    Ok(())
}

/// The bytes of a row: an identifier, a time and a value of 8 bytes each, a bucket of 4, and the
/// payload.
pub open spec fn row_width_of(payload_bytes: nat) -> nat {
    28 + payload_bytes
}

/// How many rows make up a size, at least one.
pub open spec fn target_rows_of(target_size: nat, payload_bytes: nat) -> int {
    at_least(target_size as int / row_width_of(payload_bytes) as int, 1)
}

/// How many rows make up a size, at least one.
pub fn target_rows(target_size: usize, payload_bytes: usize) -> (r: usize)
    requires
        row_width_of(payload_bytes as nat) <= usize::MAX,
    ensures
        r == target_rows_of(target_size as nat, payload_bytes as nat),
{
    let row_width: usize = 8 + 8 + 8 + 4 + payload_bytes;
    max_usize(target_size / row_width, 1)
}

/// How many rows the next batch has; none where the target is reached.
pub open spec fn next_batch_rows_of(
    rows_per_batch: usize,
    target_rows: usize,
    written_rows: usize,
) -> Option<usize> {
    if written_rows < target_rows {
        Some(at_most(rows_per_batch as int, target_rows - written_rows) as usize)
    } else {
        None
    }
}

/// How many rows the next batch has; none where the target is reached.
pub fn next_batch_rows(rows_per_batch: usize, target_rows: usize, written_rows: usize) -> (r:
    Option<usize>)
    ensures
        r == next_batch_rows_of(rows_per_batch, target_rows, written_rows),
{
    if written_rows < target_rows {
        Some(min_usize(rows_per_batch, target_rows - written_rows))
    } else {
        None
    }
}

/// The identifiers of rows.
pub open spec fn ids_of(start: u64, rows: nat) -> Seq<u64> {
    Seq::new(rows, |i: int| (start + i) as u64)
}

/// The identifiers of rows.
pub fn ids(start: u64, rows: usize) -> (r: Vec<u64>)
    requires
        start + rows <= u64::MAX,
    ensures
        r@ == ids_of(start, rows as nat),
{
    let mut out: Vec<u64> = Vec::new();
    let mut i: usize = 0;
    while i < rows
        invariant
            i <= rows,
            start + rows <= u64::MAX,
            out@ == ids_of(start, i as nat),
        decreases rows - i,
    {
        out.push(start + i as u64);
        i += 1;
        proof {
            assert(out@ == ids_of(start, i as nat));
        }
    }
    out
}

/// The times of rows, a thousand for each row.
pub open spec fn timestamps_of(start: u64, rows: nat) -> Seq<i64> {
    Seq::new(rows, |i: int| ((start + i) * 1000) as i64)
}

/// The times of rows, a thousand for each row.
pub fn timestamps(start: u64, rows: usize) -> (r: Vec<i64>)
    requires
        rows > 0 ==> (start + rows - 1) * 1000 <= i64::MAX,
    ensures
        r@ == timestamps_of(start, rows as nat),
{
    let mut out: Vec<i64> = Vec::new();
    let mut i: usize = 0;
    while i < rows
        invariant
            i <= rows,
            rows > 0 ==> (start + rows - 1) * 1000 <= i64::MAX,
            out@ == timestamps_of(start, i as nat),
        decreases rows - i,
    {
        out.push((start + i as u64) as i64 * 1000);
        i += 1;
        proof {
            assert(out@ == timestamps_of(start, i as nat));
        }
    }
    out
}

/// The values of rows in thousandths: they start again after ten thousand rows.
pub open spec fn values_of(start: u64, rows: nat) -> Seq<u64> {
    Seq::new(rows, |i: int| ((start + i) % 10_000) as u64)
}

/// The values of rows in thousandths: they start again after ten thousand rows.
pub fn value_thousandths(start: u64, rows: usize) -> (r: Vec<u64>)
    requires
        rows > 0 ==> start + rows - 1 <= u64::MAX,
    ensures
        r@ == values_of(start, rows as nat),
{
    let mut out: Vec<u64> = Vec::new();
    let mut i: usize = 0;
    while i < rows
        invariant
            i <= rows,
            rows > 0 ==> start + rows - 1 <= u64::MAX,
            out@ == values_of(start, i as nat),
        decreases rows - i,
    {
        out.push((start + i as u64) % 10_000);
        i += 1;
        proof {
            assert(out@ == values_of(start, i as nat));
        }
    }
    out
}

/// The buckets of rows: they start again after 1024 rows.
pub open spec fn buckets_of(start: u64, rows: nat) -> Seq<u32> {
    Seq::new(rows, |i: int| ((start + i) % 1024) as u32)
}

/// The buckets of rows: they start again after 1024 rows.
pub fn buckets(start: u64, rows: usize) -> (r: Vec<u32>)
    requires
        rows > 0 ==> start + rows - 1 <= u64::MAX,
    ensures
        r@ == buckets_of(start, rows as nat),
{
    let mut out: Vec<u32> = Vec::new();
    let mut i: usize = 0;
    while i < rows
        invariant
            i <= rows,
            rows > 0 ==> start + rows - 1 <= u64::MAX,
            out@ == buckets_of(start, i as nat),
        decreases rows - i,
    {
        out.push(((start + i as u64) % 1024) as u32);
        i += 1;
        proof {
            assert(out@ == buckets_of(start, i as nat));
        }
    }
    out
}

/// A byte of a number, the lowest first.
pub open spec fn byte_of(value: nat, index: nat) -> nat
    decreases index,
{
    if index == 0 {
        value % 256
    } else {
        byte_of(value / 256, (index - 1) as nat)
    }
}

/// The payload of a row: the bytes of its number, the lowest first, then one filling byte.
pub open spec fn payload_of(value: u64, payload_bytes: nat) -> Seq<u8> {
    Seq::new(
        payload_bytes,
        |i: int|
            if i < 8 {
                byte_of(value as nat, i as nat) as u8
            } else {
                ((value as nat % 256) * 31 % 256) as u8
            },
    )
}

/// The payload of a row.
pub fn payload(value: u64, payload_bytes: usize) -> (r: Vec<u8>)
    ensures
        r@ == payload_of(value, payload_bytes as nat),
{
    let filling: u8 = ((value % 256) * 31 % 256) as u8;
    let mut out: Vec<u8> = Vec::new();
    let mut rest: u64 = value;
    let mut i: usize = 0;
    while i < payload_bytes
        invariant
            i <= payload_bytes,
            filling == (value as nat % 256) * 31 % 256,
            forall|j: nat| i + j < 8 ==> #[trigger] byte_of(rest as nat, j) == byte_of(
                value as nat,
                i as nat + j,
            ),
            out@ == payload_of(value, i as nat),
        decreases payload_bytes - i,
    {
        if i < 8 {
            proof {
                assert(byte_of(rest as nat, 0) == byte_of(value as nat, i as nat));
                assert forall|j: nat| i + 1 + j < 8 implies #[trigger] byte_of(
                    rest as nat / 256,
                    j,
                ) == byte_of(value as nat, (i + 1) as nat + j) by {
                    assert(byte_of(rest as nat, j + 1) == byte_of(
                        value as nat,
                        i as nat + (j + 1),
                    ));
                }
            }
            out.push((rest % 256) as u8);
            rest = rest / 256;
        } else {
            out.push(filling);
        }
        i += 1;
        proof {
            assert(out@ == payload_of(value, i as nat));
        }
    }
    out
}

// ---------------------------------------------------------------------------
// Laws

/// The rows of a size fill it and do not exceed it, unless not even one row fits; one row more
/// would exceed it.
pub proof fn law_rows_fill_the_size(target_size: nat, payload_bytes: nat)
    ensures
        ({
            let rows = target_rows_of(target_size, payload_bytes);
            let width = 8 + 8 + 8 + 4 + payload_bytes;
            &&& rows >= 1
            &&& rows * width <= target_size || rows == 1 && target_size < width
            &&& target_size < (rows + 1) * width
        }),
{
    let width = (28 + payload_bytes) as int;
    let size = target_size as int;
    let rows = size / width;
    assert(rows * width <= size < (rows + 1) * width && rows >= 0) by (nonlinear_arith)
        requires
            size >= 0,
            width > 0,
            rows == size / width,
    ;
    if rows == 0 {
        assert(1 * width == width);
        assert(2 * width == width + width);
    }
}

/// The batches of a file reach its rows exactly: a next batch never takes the file above them, none
/// is larger than a batch may be, a batch is smaller only where it is the last, and there is none
/// once the rows are reached.
pub proof fn law_batches_reach_the_rows(
    rows_per_batch: usize,
    target_rows: usize,
    written_rows: usize,
)
    ensures
        next_batch_rows_of(rows_per_batch, target_rows, written_rows) is None <==> written_rows
            >= target_rows,
        next_batch_rows_of(rows_per_batch, target_rows, written_rows) matches Some(rows) ==> {
            &&& written_rows + rows <= target_rows
            &&& rows <= rows_per_batch
            &&& rows == rows_per_batch || written_rows + rows == target_rows
        },
{
}

/// The rows of two batches in a row are those of one batch: identifiers, times, values and buckets
/// go on where the batch before has ended. Each follows from the number of its row alone.
pub proof fn law_rows_go_on(start: u64, first: nat, second: nat, i: int)
    requires
        (start + first + second) * 1000 <= i64::MAX,
        0 <= i < first + second,
    ensures
        ids_of(start, first) + ids_of((start + first) as u64, second) == ids_of(
            start,
            first + second,
        ),
        timestamps_of(start, first) + timestamps_of((start + first) as u64, second)
            == timestamps_of(start, first + second),
        values_of(start, first) + values_of((start + first) as u64, second) == values_of(
            start,
            first + second,
        ),
        buckets_of(start, first) + buckets_of((start + first) as u64, second) == buckets_of(
            start,
            first + second,
        ),
        ids_of(start, first + second)[i] == start + i,
        timestamps_of(start, first + second)[i] == 1000 * (start + i),
        values_of(start, first + second)[i] < 10_000,
        (start + i - values_of(start, first + second)[i]) % 10_000 == 0,
        buckets_of(start, first + second)[i] < 1024,
        (start + i - buckets_of(start, first + second)[i]) % 1024 == 0,
{
    let middle = (start + first) as u64;
    assert(ids_of(start, first) + ids_of(middle, second) =~= ids_of(start, first + second));
    assert(timestamps_of(start, first) + timestamps_of(middle, second) =~= timestamps_of(
        start,
        first + second,
    ));
    assert(values_of(start, first) + values_of(middle, second) =~= values_of(
        start,
        first + second,
    ));
    assert(buckets_of(start, first) + buckets_of(middle, second) =~= buckets_of(
        start,
        first + second,
    ));
}

proof fn lemma_bytes_decide(a: nat, b: nat, k: nat, bound: nat)
    requires
        a < bound && b < bound,
        bound == vstd::arithmetic::power::pow(256, k),
        forall|i: nat| i < k ==> #[trigger] byte_of(a, i) == byte_of(b, i),
    ensures
        a == b,
    decreases k,
{
    if k == 0 {
        vstd::arithmetic::power::lemma_pow0(256);
    } else {
        vstd::arithmetic::power::lemma_pow1(256);
        vstd::arithmetic::power::lemma_pow_adds(256, 1, (k - 1) as nat);
        let smaller = vstd::arithmetic::power::pow(256, (k - 1) as nat);
        assert(bound == 256 * smaller);
        assert forall|i: nat| i < k - 1 implies #[trigger] byte_of(a / 256, i) == byte_of(
            b / 256,
            i,
        ) by {
            assert(byte_of(a, i + 1) == byte_of(b, i + 1));
        }
        assert(byte_of(a, 0) == byte_of(b, 0));
        lemma_bytes_decide(a / 256, b / 256, (k - 1) as nat, smaller as nat);
    }
}

/// A payload has the wanted length, tells its row's number apart from every other where it has
/// eight bytes or more, and is filled behind those with one byte that follows from the first.
pub proof fn law_payloads(value: u64, other: u64, payload_bytes: nat, i: int)
    requires
        0 <= i < payload_bytes,
    ensures
        payload_of(value, payload_bytes).len() == payload_bytes,
        payload_bytes >= 8 && payload_of(value, payload_bytes) == payload_of(other, payload_bytes)
            ==> value == other,
        payload_of(value, payload_bytes)[0] == value % 256,
        i >= 8 ==> payload_of(value, payload_bytes)[i] == payload_of(value, payload_bytes)[0] * 31
            % 256,
{
    if payload_bytes >= 8 && payload_of(value, payload_bytes) == payload_of(other, payload_bytes) {
        let one = payload_of(value, payload_bytes);
        let two = payload_of(other, payload_bytes);
        assert forall|k: nat| k < 8 implies #[trigger] byte_of(value as nat, k) == byte_of(
            other as nat,
            k,
        ) by {
            lemma_byte_is_one(value as nat, k);
            lemma_byte_is_one(other as nat, k);
            assert(one[k as int] == two[k as int]);
        }
        vstd::arithmetic::power::lemma_pow0(256);
        reveal(vstd::arithmetic::power::pow);
        reveal_with_fuel(vstd::arithmetic::power::pow, 9);
        assert(vstd::arithmetic::power::pow(256, 8) == 0x1_0000_0000_0000_0000);
        lemma_bytes_decide(value as nat, other as nat, 8, 0x1_0000_0000_0000_0000);
    }
}

proof fn lemma_byte_is_one(value: nat, index: nat)
    ensures
        byte_of(value, index) < 256,
    decreases index,
{
    if index > 0 {
        lemma_byte_is_one(value / 256, (index - 1) as nat);
    }
}

}
