//! Object keys, sizes and rates.

use vstd::prelude::*;

use crate::error::{agrees, ErrorChain};
use crate::number::{
    decimal, decimal_of, is_digit, padded, padded_of, parse_unsigned, unsigned_of,
};
use crate::path::{clean_path, clean_path_of, components_of};
use crate::text::{
    ascii_lower, ascii_lower_of, chars_of, ends_with, has_suffix, join, join_of, replace, replace_of,
    string_of, text_eq, texts, trim, trim_of,
};

verus! {

// ---------------------------------------------------------------------------
// Trusted items

/// The quoted and escaped form of a text, as `{:?}` of the standard library writes it.
pub uninterp spec fn quoted_of(s: Seq<char>) -> Seq<char>;

/// Calls `format!` of the standard library with `{:?}` and `s`. The result is named: it is a
/// function of the text alone.
#[verifier::external_body]
pub(crate) fn quoted(s: &str) -> (r: String)
    ensures
        r@ == quoted_of(s@),
{
    format!("{:?}", s)
}

/// The text of bytes that may be no UTF-8, as `String::from_utf8_lossy` decodes them.
pub uninterp spec fn lossy_text_of(bytes: Seq<u8>) -> Seq<char>;

/// Calls `String::from_utf8_lossy`. The result is named: it is a function of the bytes alone. Bytes
/// that are UTF-8 are decoded as such.
#[verifier::external_body]
pub(crate) fn lossy_text(bytes: &[u8]) -> (r: String)
    ensures
        r@ == lossy_text_of(bytes@),
        vstd::utf8::valid_utf8(bytes@) ==> r@ == vstd::utf8::decode_utf8(bytes@),
{
    String::from_utf8_lossy(bytes).into_owned()
}

/// Whether a text is a UUID in its hyphenated lower case form.
pub open spec fn is_uuid_text(s: Seq<char>) -> bool {
    &&& s.len() == 36
    &&& forall|i: int|
        0 <= i < 36 ==> if i == 8 || i == 13 || i == 18 || i == 23 {
            #[trigger] s[i] == '-'
        } else {
            '0' <= s[i] <= '9' || 'a' <= s[i] <= 'f'
        }
}

/// Calls `uuid::Uuid::new_v4`, and writes the result with its `Display`, which is the hyphenated
/// lower case form. Which UUID it is, chance decides.
#[verifier::external_body]
pub(crate) fn new_uuid() -> (r: String)
    ensures
        is_uuid_text(r@),
{
    uuid::Uuid::new_v4().to_string()
}

/// The path that an object store gives a key, as text.
pub uninterp spec fn store_path_of(key: Seq<char>) -> Seq<char>;

/// Calls `object_store::path::Path::from`, which percent-encodes what a path may not hold. The
/// result is named: it is a function of the key alone.
#[verifier::external_body]
pub(crate) fn store_path(key: &str) -> (r: String)
    ensures
        r@ == store_path_of(key@),
{
    object_store::path::Path::from(key).to_string()
}

// ---------------------------------------------------------------------------
// Object keys

/// Where an upload lies that was given no key.
pub open spec fn fresh_key_of(id: Seq<char>) -> Seq<char> {
    "uploads/"@ + id + ".parquet"@
}

/// A key with the extension of a Parquet file.
pub open spec fn with_extension(key: Seq<char>) -> Seq<char> {
    if has_suffix(key, ".parquet"@) {
        key
    } else {
        key + ".parquet"@
    }
}

/// The object key for a raw path; `id` names the object where the path has no component.
pub open spec fn object_key_of(raw: Seq<char>, id: Seq<char>) -> Seq<char> {
    if clean_path_of(raw).len() == 0 {
        fresh_key_of(id)
    } else {
        with_extension(clean_path_of(raw))
    }
}

/// Where an upload lies that was given no key.
pub fn fresh_key(id: &str) -> (r: String)
    ensures
        r@ == fresh_key_of(id@),
{
    let mut key = "uploads/".to_owned();
    key.append(id);
    key.append(".parquet");
    key
}

/// The object key for a raw path: its clean form, with the extension of a Parquet file. A path
/// without a component gets a fresh random name under `uploads/`.
pub fn normalize_object_key(raw: &str) -> (r: String)
    ensures
        exists|id: Seq<char>| #[trigger] is_uuid_text(id) && r@ == object_key_of(raw@, id),
        clean_path_of(raw@).len() > 0 ==> r@ == with_extension(clean_path_of(raw@)),
{
    let key = clean_path(raw);
    let ghost clean = key@;
    if key.as_str().is_empty() {
        let id = new_uuid();
        let key = fresh_key(id.as_str());
        proof {
            assert(is_uuid_text(id@) && key@ == object_key_of(raw@, id@));
        }
        return key;
    }
    let mut key = key;
    if !ends_with(key.as_str(), ".parquet") {
        key.append(".parquet");
    }
    proof {
        let id = Seq::new(
            36,
            |i: int| if i == 8 || i == 13 || i == 18 || i == 23 { '-' } else { '0' },
        );
        assert(is_uuid_text(id));
        assert(key@ == object_key_of(raw@, id));
    }
    key
}

/// A Flight descriptor, as far as it names an object.
#[derive(Debug)]
pub struct FlightDescriptor {
    pub path: Vec<String>,
    pub cmd: Vec<u8>,
}

/// The raw path that a descriptor names: its path joined by slashes, or else its command as text.
pub open spec fn descriptor_path_of(descriptor: Option<FlightDescriptor>) -> Option<Seq<char>> {
    match descriptor {
        Some(descriptor) => if descriptor.path@.len() > 0 {
            Some(join_of(texts(descriptor.path@), "/"@))
        } else if descriptor.cmd@.len() > 0 {
            Some(lossy_text_of(descriptor.cmd@))
        } else {
            None
        },
        None => None,
    }
}

/// The object key that a descriptor names. One that names none gets a fresh random name under
/// `uploads/`.
pub fn descriptor_to_object_key(descriptor: &Option<FlightDescriptor>) -> (r: String)
    ensures
        match descriptor_path_of(*descriptor) {
            Some(raw) => {
                &&& exists|id: Seq<char>| #[trigger] is_uuid_text(id) && r@ == object_key_of(
                    raw,
                    id,
                )
                &&& clean_path_of(raw).len() > 0 ==> r@ == with_extension(clean_path_of(raw))
            },
            None => exists|id: Seq<char>| #[trigger]
                is_uuid_text(id) && r@ == object_key_of(fresh_key_of(id), id),
        },
{
    if let Some(descriptor) = descriptor {
        if descriptor.path.len() > 0 {
            let raw = join(&descriptor.path, "/");
            return normalize_object_key(raw.as_str());
        } else if descriptor.cmd.len() > 0 {
            let raw = lossy_text(descriptor.cmd.as_slice());
            return normalize_object_key(raw.as_str());
        }
    }
    let id = new_uuid();
    let raw = fresh_key(id.as_str());
    let key = normalize_object_key(raw.as_str());
    proof {
        lemma_fresh_key_is_clean(id@);
        assert(key@ == object_key_of(fresh_key_of(id@), id@));
    }
    key
}

/// The path in the object store of a key, as text.
pub fn path_from_key(key: &str) -> (r: String)
    ensures
        exists|id: Seq<char>| #[trigger]
            is_uuid_text(id) && r@ == store_path_of(object_key_of(key@, id)),
        clean_path_of(key@).len() > 0 ==> r@ == store_path_of(with_extension(clean_path_of(key@))),
{
    let normal = normalize_object_key(key);
    store_path(normal.as_str())
}

proof fn lemma_fresh_key_is_clean(id: Seq<char>)
    requires
        is_uuid_text(id),
    ensures
        clean_path_of(fresh_key_of(id)) == fresh_key_of(id),
        clean_path_of(fresh_key_of(id)).len() > 0,
{
    reveal_strlit("uploads/");
    reveal_strlit(".parquet");
    reveal_strlit("/");
    reveal_strlit(".");
    reveal_strlit("..");
    let first = "uploads/"@.take(7);
    let second = id + ".parquet"@;
    let parts = seq![first, second];
    assert(fresh_key_of(id) == first + "/"@ + second);
    assert(parts.drop_last() == seq![first]);
    reveal_with_fuel(join_of, 2);
    assert(join_of(parts, "/"@) == fresh_key_of(id));
    assert forall|i: int| 0 <= i < second.len() implies second[i] != '/' && second[i] != '\\' by {
        if i < 36 {
            assert(second[i] == id[i]);
        } else {
            assert(second[i] == ".parquet"@[i - 36]);
        }
    }
    assert(crate::path::are_components(parts)) by {
        assert(parts[0] == first);
        assert(parts[1] == second);
        assert(second.len() == 44);
    }
    crate::path::lemma_components_of_joined(parts);
}

// ---------------------------------------------------------------------------
// Laws of object keys

/// The components of an object key are those of the path that it was made from, the last one with
/// the extension of a Parquet file: a key never leaves its bucket through `..`, and holds no empty
/// component and no backslash.
pub proof fn law_object_key_components(raw: Seq<char>, id: Seq<char>)
    requires
        is_uuid_text(id),
    ensures
        crate::path::are_components(components_of(object_key_of(raw, id))),
        join_of(components_of(object_key_of(raw, id)), "/"@) == object_key_of(raw, id),
        clean_path_of(raw).len() > 0 ==> components_of(object_key_of(raw, id)) == components_of(
            raw,
        ).update(components_of(raw).len() - 1, with_extension(components_of(raw).last())),
{
    let key = object_key_of(raw, id);
    crate::path::law_components(key);
    if clean_path_of(raw).len() == 0 {
        lemma_fresh_key_is_clean(id);
    } else {
        let parts = components_of(raw);
        crate::path::law_components(raw);
        assert(parts.len() > 0);
        let last = parts.last();
        assert(last == parts[parts.len() - 1]);
        lemma_join_last_suffix(parts);
        let longer = parts.update(parts.len() - 1, with_extension(last));
        assert(longer.last() == with_extension(last));
        assert(longer.drop_last() == parts.drop_last());
        if parts.len() == 1 {
            assert(longer == seq![with_extension(last)]);
        }
        assert(join_of(longer, "/"@) == key) by {
            if has_suffix(last, ".parquet"@) {
                assert(longer == parts);
            } else if parts.len() == 1 {
                assert(longer[0] == last + ".parquet"@);
            } else {
                let front = join_of(parts.drop_last(), "/"@);
                assert(front + "/"@ + (last + ".parquet"@) == (front + "/"@ + last) + ".parquet"@);
            }
        }
        reveal_strlit(".parquet");
        reveal_strlit(".");
        reveal_strlit("..");
        assert forall|i: int| 0 <= i < longer.len() implies crate::path::is_component(
            #[trigger] longer[i],
        ) && !longer[i].contains('/') && !longer[i].contains('\\') by {
            if i < parts.len() - 1 {
                assert(longer[i] == parts[i]);
            } else if !has_suffix(last, ".parquet"@) {
                let grown = last + ".parquet"@;
                assert(longer[i] == grown);
                assert(crate::path::is_component(parts[i]));
                assert(grown.len() > 2);
                assert forall|j: int| 0 <= j < grown.len() implies grown[j] != '/' && grown[j] != '\\'
                    by {
                    if j < last.len() {
                        assert(parts[i][j] == grown[j]);
                        assert(parts[i].contains(grown[j]));
                    } else {
                        assert(grown[j] == ".parquet"@[j - last.len()]);
                    }
                }
            } else {
                assert(longer[i] == parts[i]);
            }
        }
        crate::path::lemma_components_of_joined(longer);
    }
}

/// A path ends with the extension of a Parquet file exactly where its last component does.
proof fn lemma_join_last_suffix(parts: Seq<Seq<char>>)
    requires
        parts.len() > 0,
        crate::path::are_components(parts),
    ensures
        has_suffix(join_of(parts, "/"@), ".parquet"@) <==> has_suffix(parts.last(), ".parquet"@),
{
    let whole = join_of(parts, "/"@);
    let last = parts.last();
    let suffix = ".parquet"@;
    reveal_strlit(".parquet");
    reveal_strlit("/");
    if parts.len() > 1 {
        let front = join_of(parts.drop_last(), "/"@);
        assert(whole == front + "/"@ + last);
        if has_suffix(last, suffix) {
            assert(whole.skip(whole.len() - 8) == last.skip(last.len() - 8));
        }
        if has_suffix(whole, suffix) {
            if last.len() < 8 {
                let at = whole.len() - last.len() - 1;
                assert(whole[at] == '/');
                assert(whole.skip(whole.len() - 8)[at - (whole.len() - 8)] == '/');
                assert(suffix[at - (whole.len() - 8)] == '/');
                assert(false);
            }
            assert(whole.skip(whole.len() - 8) == last.skip(last.len() - 8));
        }
    } else {
        assert(parts[0] == last);
    }
}

/// Normalising an object key changes nothing.
pub proof fn law_object_key_idempotent(raw: Seq<char>, id: Seq<char>, other: Seq<char>)
    requires
        is_uuid_text(id),
    ensures
        object_key_of(object_key_of(raw, id), other) == object_key_of(raw, id),
        has_suffix(object_key_of(raw, id), ".parquet"@),
{
    let key = object_key_of(raw, id);
    law_object_key_components(raw, id);
    assert(clean_path_of(key) == key);
    let suffix = ".parquet"@;
    if clean_path_of(raw).len() == 0 {
        lemma_fresh_key_is_clean(id);
        let front = "uploads/"@ + id;
        assert(key == front + suffix);
        assert(key.skip(key.len() - suffix.len()) == suffix);
    } else if !has_suffix(clean_path_of(raw), suffix) {
        assert(key.skip(key.len() - suffix.len()) == suffix);
    }
    assert(has_suffix(key, suffix));
    reveal_strlit(".parquet");
    assert(key.len() > 0);
}

// ---------------------------------------------------------------------------
// Sizes

/// The leading digits of a text.
pub open spec fn digits_len(s: Seq<char>) -> nat
    decreases s.len(),
{
    if s.len() > 0 && is_digit(s[0]) {
        1 + digits_len(s.drop_first())
    } else {
        0
    }
}

/// The factor that a size suffix stands for.
pub open spec fn size_unit_of(suffix: Seq<char>) -> Option<nat> {
    if suffix == ""@ || suffix == "b"@ {
        Some(1)
    } else if suffix == "k"@ || suffix == "kb"@ || suffix == "kib"@ {
        Some(0x400)
    } else if suffix == "m"@ || suffix == "mb"@ || suffix == "mib"@ {
        Some(0x10_0000)
    } else if suffix == "g"@ || suffix == "gb"@ || suffix == "gib"@ {
        Some(0x4000_0000)
    } else if suffix == "t"@ || suffix == "tb"@ || suffix == "tib"@ {
        Some(0x100_0000_0000)
    } else {
        None
    }
}

/// A size text without surrounding white space, in lower case and without underscores.
pub open spec fn plain_size_of(input: Seq<char>) -> Seq<char> {
    replace_of(ascii_lower_of(trim_of(input)), '_', ""@)
}

/// The byte count that a size text such as `64mb` stands for.
pub open spec fn size_of(input: Seq<char>) -> Result<usize, Seq<Seq<char>>> {
    let value = plain_size_of(input);
    let at = digits_len(value) as int;
    let suffix = trim_of(value.skip(at));
    match unsigned_of(value.take(at), usize::MAX as nat) {
        Err(kind) => Err(seq!["invalid size number in "@ + quoted_of(input), kind.words()]),
        Ok(base) => match size_unit_of(suffix) {
            None => Err(
                seq!["unsupported size suffix "@ + quoted_of(suffix) + " in "@ + quoted_of(input)],
            ),
            Some(unit) => if base * unit > usize::MAX {
                Err(seq!["size "@ + quoted_of(input) + " overflowed usize"@])
            } else {
                Ok((base * unit) as usize)
            },
        },
    }
}

fn size_unit(suffix: &str) -> (r: Option<u64>)
    ensures
        match size_unit_of(suffix@) {
            Some(unit) => r matches Some(v) && v == unit && v <= 0x100_0000_0000,
            None => r is None,
        },
{
    if text_eq(suffix, "") || text_eq(suffix, "b") {
        Some(1)
    } else if text_eq(suffix, "k") || text_eq(suffix, "kb") || text_eq(suffix, "kib") {
        Some(0x400)
    } else if text_eq(suffix, "m") || text_eq(suffix, "mb") || text_eq(suffix, "mib") {
        Some(0x10_0000)
    } else if text_eq(suffix, "g") || text_eq(suffix, "gb") || text_eq(suffix, "gib") {
        Some(0x4000_0000)
    } else if text_eq(suffix, "t") || text_eq(suffix, "tb") || text_eq(suffix, "tib") {
        Some(0x100_0000_0000)
    } else {
        None
    }
}

/// The byte count that a size text such as `64mb` stands for: decimal digits and a binary unit,
/// with underscores and letter case of no meaning.
pub fn parse_size(input: &str) -> (r: Result<usize, ErrorChain>)
    ensures
        agrees(r, size_of(input@)),
{
    let trimmed = trim(input);
    let lower = ascii_lower(trimmed.as_str());
    let value = replace(lower.as_str(), '_', "");
    let chars = chars_of(value.as_str());
    let mut split: usize = 0;
    proof {
        assert(value@.skip(0) == value@);
    }
    while split < chars.len() && chars[split] >= '0' && chars[split] <= '9'
        invariant
            chars@ == value@,
            split <= chars@.len(),
            digits_len(value@) == split + digits_len(value@.skip(split as int)),
        decreases chars@.len() - split,
    {
        proof {
            assert(value@.skip(split as int).drop_first() == value@.skip(split + 1));
        }
        split += 1;
    }
    proof {
        assert(digits_len(value@) == split);
        assert(value@.subrange(0, split as int) == value@.take(split as int));
        assert(value@.subrange(split as int, value@.len() as int) == value@.skip(split as int));
    }
    let number = string_of(&chars, 0, split);
    let rest = string_of(&chars, split, chars.len());
    let base: u64 = match parse_unsigned(number.as_str(), usize::MAX as u64) {
        Ok(base) => base,
        Err(kind) => {
            let mut message = "invalid size number in ".to_owned();
            message.append(quoted(input).as_str());
            let cause = ErrorChain::new(kind.describe());
            let error = cause.context(message);
            proof {
                assert(error@ == seq![message@, kind.words()]);
            }
            return Err(error);
        },
    };
    let suffix = trim(rest.as_str());
    let unit: u64 = match size_unit(suffix.as_str()) {
        Some(unit) => unit,
        None => {
            let mut message = "unsupported size suffix ".to_owned();
            message.append(quoted(suffix.as_str()).as_str());
            message.append(" in ");
            message.append(quoted(input).as_str());
            return Err(ErrorChain::new(message));
        },
    };
    proof {
        assert(base * unit <= u64::MAX * 0x100_0000_0000) by (nonlinear_arith)
            requires
                0 <= base <= u64::MAX,
                0 <= unit <= 0x100_0000_0000,
        ;
    }
    let bytes: u128 = base as u128 * unit as u128;
    if bytes > usize::MAX as u128 {
        let mut message = "size ".to_owned();
        message.append(quoted(input).as_str());
        message.append(" overflowed usize");
        return Err(ErrorChain::new(message));
    }
    Ok(bytes as usize)
}

// ---------------------------------------------------------------------------
// Readable sizes and rates

/// `n / d` rounded to the nearest integer, from the middle to the even one.
pub open spec fn nearest_of(n: int, d: int) -> int {
    let quotient = n / d;
    let twice = 2 * (n % d);
    if twice < d || (twice == d && quotient % 2 == 0) {
        quotient
    } else {
        quotient + 1
    }
}

/// The distance of two neighbouring double precision numbers at `n`, from `step` upwards.
pub open spec fn double_step_of(n: nat, step: nat) -> nat
    decreases (if n >= 0x20_0000_0000_0000 * step { n + 1 - step } else { 0 }),
{
    if step == 0 || n < 0x20_0000_0000_0000 * step {
        step
    } else {
        double_step_of(n, 2 * step)
    }
}

/// The double precision number nearest to `n`.
pub open spec fn double_of(n: nat) -> int {
    let step = double_step_of(n, 1) as int;
    nearest_of(n as int, step) * step
}

/// The power of 1024 that a size is written in.
pub open spec fn readable_unit_of(bytes: nat) -> nat {
    if bytes < 0x400 {
        0
    } else if bytes < 0x10_0000 {
        1
    } else if bytes < 0x4000_0000 {
        2
    } else if bytes < 0x100_0000_0000 {
        3
    } else {
        4
    }
}

/// The number of bytes in a unit.
pub open spec fn unit_bytes_of(unit: nat) -> nat {
    if unit == 0 {
        1
    } else if unit == 1 {
        0x400
    } else if unit == 2 {
        0x10_0000
    } else if unit == 3 {
        0x4000_0000
    } else {
        0x100_0000_0000
    }
}

/// The name of a unit.
pub open spec fn unit_name_of(unit: nat) -> Seq<char> {
    if unit == 0 {
        "B"@
    } else if unit == 1 {
        "KiB"@
    } else if unit == 2 {
        "MiB"@
    } else if unit == 3 {
        "GiB"@
    } else {
        "TiB"@
    }
}

/// A byte count in the greatest binary unit that it reaches: whole bytes as they are, all other
/// units with two decimals, of the nearest double precision number.
pub open spec fn pretty_bytes_of(bytes: nat) -> Seq<char> {
    let unit = readable_unit_of(bytes);
    if unit == 0 {
        decimal_of(bytes) + " "@ + unit_name_of(unit)
    } else {
        let hundredths = nearest_of(double_of(bytes) * 100, unit_bytes_of(unit) as int);
        decimal_of((hundredths / 100) as nat) + "."@ + padded_of((hundredths % 100) as nat, 2)
            + " "@ + unit_name_of(unit)
    }
}

fn nearest(n: u128, d: u128) -> (r: u128)
    requires
        0 < d < 0x1_0000_0000_0000_0000,
        n < 0x1_0000_0000_0000_0000_0000_0000,
    ensures
        r == nearest_of(n as int, d as int),
        r <= n + 1,
{
    let quotient: u128 = n / d;
    proof {
        assert(n / d <= n) by (nonlinear_arith)
            requires
                d > 0,
        ;
        assert(n % d < d) by (nonlinear_arith)
            requires
                d > 0,
        ;
    }
    let twice: u128 = 2 * (n % d);
    if twice < d || (twice == d && quotient % 2 == 0) {
        quotient
    } else {
        quotient + 1
    }
}

fn double_step(n: u64) -> (r: u128)
    ensures
        r == double_step_of(n as nat, 1),
        0 < r <= 4096,
{
    let mut step: u128 = 1;
    while n as u128 >= 0x20_0000_0000_0000 * step
        invariant
            0 < step <= 4096,
            double_step_of(n as nat, 1) == double_step_of(n as nat, step as nat),
        decreases 8192 - step,
    {
        step = step * 2;
    }
    step
}

/// A byte count in the greatest binary unit that it reaches.
pub fn pretty_bytes(bytes: u64) -> (r: String)
    ensures
        r@ == pretty_bytes_of(bytes as nat),
{
    if bytes < 0x400 {
        let mut out = decimal(bytes as u128);
        out.append(" ");
        out.append("B");
        return out;
    }
    let step: u128 = double_step(bytes);
    let rounded: u128 = nearest(bytes as u128, step);
    proof {
        assert(rounded * step <= 0x1_0000_0000_0000_0001 * 4096) by (nonlinear_arith)
            requires
                0 <= rounded <= 0x1_0000_0000_0000_0001,
                0 < step <= 4096,
        ;
    }
    let value: u128 = rounded * step;
    let unit_bytes: u128;
    let name;
    if bytes < 0x10_0000 {
        unit_bytes = 0x400;
        name = "KiB";
    } else if bytes < 0x4000_0000 {
        unit_bytes = 0x10_0000;
        name = "MiB";
    } else if bytes < 0x100_0000_0000 {
        unit_bytes = 0x4000_0000;
        name = "GiB";
    } else {
        unit_bytes = 0x100_0000_0000;
        name = "TiB";
    }
    let hundredths: u128 = nearest(value * 100, unit_bytes);
    let mut out = decimal(hundredths / 100);
    out.append(".");
    out.append(padded(hundredths % 100, 2).as_str());
    out.append(" ");
    out.append(name);
    out
}

/// A rate in bytes for each second, as text; `None` is the rate of what took no time.
pub fn throughput(bytes_per_second: Option<u64>) -> (r: String)
    ensures
        match bytes_per_second {
            Some(rate) => r@ == pretty_bytes_of(rate as nat) + "/s"@,
            None => r@ == "inf"@,
        },
{
    match bytes_per_second {
        Some(rate) => {
            let mut out = pretty_bytes(rate);
            out.append("/s");
            out
        },
        None => "inf".to_owned(),
    }
}

/// The sum of sizes.
pub open spec fn sum_of(sizes: Seq<usize>) -> nat
    decreases sizes.len(),
{
    if sizes.len() == 0 {
        0
    } else {
        sum_of(sizes.drop_last()) + sizes.last() as nat
    }
}

proof fn lemma_sum_grows(sizes: Seq<usize>, i: int)
    requires
        0 <= i <= sizes.len(),
    ensures
        sum_of(sizes.take(i)) <= sum_of(sizes),
    decreases sizes.len() - i,
{
    if i < sizes.len() {
        assert(sizes.take(i + 1).drop_last() == sizes.take(i));
        lemma_sum_grows(sizes, i + 1);
    } else {
        assert(sizes.take(i) == sizes);
    }
}

/// The memory of a record batch whose columns take `column_sizes` bytes.
pub fn batch_memory_size(column_sizes: &Vec<usize>) -> (r: u64)
    requires
        sum_of(column_sizes@) <= u64::MAX,
    ensures
        r == sum_of(column_sizes@),
{
    total_size(column_sizes)
}

/// The sum of sizes.
pub fn total_size(sizes: &Vec<usize>) -> (r: u64)
    requires
        sum_of(sizes@) <= u64::MAX,
    ensures
        r == sum_of(sizes@),
{
    let mut total: u64 = 0;
    let mut i: usize = 0;
    while i < sizes.len()
        invariant
            i <= sizes@.len(),
            sum_of(sizes@) <= u64::MAX,
            total == sum_of(sizes@.take(i as int)),
        decreases sizes@.len() - i,
    {
        proof {
            lemma_sum_grows(sizes@, i + 1);
            assert(sizes@.take(i + 1).drop_last() == sizes@.take(i as int));
        }
        total = total + sizes[i] as u64;
        i += 1;
    }
    proof {
        assert(sizes@.take(i as int) == sizes@);
    }
    total
}

/// The sum of sizes, where it can be represented.
pub fn checked_total_size(sizes: &Vec<usize>) -> (r: Option<u64>)
    ensures
        r == (if sum_of(sizes@) <= u64::MAX {
            Some(sum_of(sizes@) as u64)
        } else {
            None
        }),
{
    let mut total: u64 = 0;
    let mut i: usize = 0;
    while i < sizes.len()
        invariant
            i <= sizes@.len(),
            total == sum_of(sizes@.take(i as int)),
        decreases sizes@.len() - i,
    {
        proof {
            lemma_sum_grows(sizes@, i + 1);
            assert(sizes@.take(i + 1).drop_last() == sizes@.take(i as int));
        }
        total = match total.checked_add(sizes[i] as u64) {
            Some(total) => total,
            None => return None,
        };
        i += 1;
    }
    proof {
        assert(sizes@.take(i as int) == sizes@);
    }
    Some(total)
}

// ---------------------------------------------------------------------------
// Laws of keys, sizes and rates

/// A path with components becomes the key of its clean form, with the extension of a Parquet file
/// added where it is missing and only there; one without gets a name of its own under `uploads/`.
pub proof fn law_object_keys(raw: Seq<char>, id: Seq<char>)
    ensures
        clean_path_of(raw).len() > 0 && has_suffix(clean_path_of(raw), ".parquet"@)
            ==> object_key_of(raw, id) == clean_path_of(raw),
        clean_path_of(raw).len() > 0 && !has_suffix(clean_path_of(raw), ".parquet"@)
            ==> object_key_of(raw, id) == clean_path_of(raw) + ".parquet"@,
        clean_path_of(raw).len() == 0 ==> object_key_of(raw, id) == "uploads/"@ + id
            + ".parquet"@,
{
}

/// A descriptor names the path that its components make up, whatever its command; without a path it
/// names what its command says, and without both it names nothing.
pub proof fn law_descriptor_paths(descriptor: FlightDescriptor)
    ensures
        descriptor.path@.len() > 0 ==> descriptor_path_of(Some(descriptor)) == Some(
            join_of(texts(descriptor.path@), "/"@),
        ),
        descriptor.path@.len() == 0 && descriptor.cmd@.len() > 0 ==> descriptor_path_of(
            Some(descriptor),
        ) == Some(lossy_text_of(descriptor.cmd@)),
        descriptor.path@.len() == 0 && descriptor.cmd@.len() == 0 ==> descriptor_path_of(
            Some(descriptor),
        ) is None,
        descriptor_path_of(None) is None,
{
}

/// Whether a word stands for a unit: its letter, alone or with `b` or `ib` behind it.
pub open spec fn is_unit_word(word: Seq<char>, letter: char) -> bool {
    ||| word == seq![letter]
    ||| word == seq![letter, 'b']
    ||| word == seq![letter, 'i', 'b']
}

/// The units of sizes are powers of 1024, each under the words of its letter; a size without a unit
/// is in bytes.
pub proof fn law_size_units(word: Seq<char>)
    ensures
        word.len() == 0 || word == seq!['b'] ==> size_unit_of(word) == Some(1nat),
        is_unit_word(word, 'k') ==> size_unit_of(word) == Some(1024nat),
        is_unit_word(word, 'm') ==> size_unit_of(word) == Some(1024nat * 1024),
        is_unit_word(word, 'g') ==> size_unit_of(word) == Some(1024nat * 1024 * 1024),
        is_unit_word(word, 't') ==> size_unit_of(word) == Some(1024nat * 1024 * 1024 * 1024),
        size_unit_of(word) is Some ==> {
            ||| word.len() == 0
            ||| word == seq!['b']
            ||| is_unit_word(word, 'k')
            ||| is_unit_word(word, 'm')
            ||| is_unit_word(word, 'g')
            ||| is_unit_word(word, 't')
        },
{
    lemma_unit_words();
    if word.len() > 0 {
        let letter = word[0];
        assert(seq!['b'][0] == 'b' && seq!['k'][0] == 'k' && seq!['m'][0] == 'm');
        assert(seq!['g'][0] == 'g' && seq!['t'][0] == 't');
        assert(seq!['k', 'b'][0] == 'k' && seq!['k', 'i', 'b'][0] == 'k');
        assert(seq!['m', 'b'][0] == 'm' && seq!['m', 'i', 'b'][0] == 'm');
        assert(seq!['g', 'b'][0] == 'g' && seq!['g', 'i', 'b'][0] == 'g');
        assert(seq!['t', 'b'][0] == 't' && seq!['t', 'i', 'b'][0] == 't');
    } else {
        assert(word == ""@);
    }
}

proof fn lemma_unit_words()
    ensures
        ""@.len() == 0,
        "b"@ == seq!['b'],
        "k"@ == seq!['k'] && "kb"@ == seq!['k', 'b'] && "kib"@ == seq!['k', 'i', 'b'],
        "m"@ == seq!['m'] && "mb"@ == seq!['m', 'b'] && "mib"@ == seq!['m', 'i', 'b'],
        "g"@ == seq!['g'] && "gb"@ == seq!['g', 'b'] && "gib"@ == seq!['g', 'i', 'b'],
        "t"@ == seq!['t'] && "tb"@ == seq!['t', 'b'] && "tib"@ == seq!['t', 'i', 'b'],
{
    reveal_strlit("");
    reveal_strlit("b");
    reveal_strlit("k");
    reveal_strlit("kb");
    reveal_strlit("kib");
    reveal_strlit("m");
    reveal_strlit("mb");
    reveal_strlit("mib");
    reveal_strlit("g");
    reveal_strlit("gb");
    reveal_strlit("gib");
    reveal_strlit("t");
    reveal_strlit("tb");
    reveal_strlit("tib");
}

/// Whether a text is made of lower case ASCII letters.
pub open spec fn is_lower_word(word: Seq<char>) -> bool {
    forall|i: int| 0 <= i < word.len() ==> 'a' <= #[trigger] word[i] <= 'z'
}

proof fn lemma_decimal_digits(n: nat)
    ensures
        decimal_of(n).len() > 0,
        forall|i: int| 0 <= i < decimal_of(n).len() ==> is_digit(#[trigger] decimal_of(n)[i]),
    decreases n,
{
    if n >= 10 {
        lemma_decimal_digits(n / 10);
        let front = decimal_of(n / 10);
        assert forall|i: int| 0 <= i < decimal_of(n).len() implies is_digit(
            #[trigger] decimal_of(n)[i],
        ) by {
            if i < front.len() {
                assert(is_digit(front[i]));
            }
        }
    }
}

proof fn lemma_digits_len(digits: Seq<char>, rest: Seq<char>)
    requires
        forall|i: int| 0 <= i < digits.len() ==> is_digit(#[trigger] digits[i]),
        rest.len() > 0 ==> !is_digit(rest[0]),
    ensures
        digits_len(digits + rest) == digits.len(),
    decreases digits.len(),
{
    let whole = digits + rest;
    if digits.len() > 0 {
        assert(whole.drop_first() == digits.drop_first() + rest);
        assert(whole[0] == digits[0]);
        lemma_digits_len(digits.drop_first(), rest);
    } else {
        assert(whole == rest);
    }
}

/// Whether a text is made of digits and lower case ASCII letters.
spec fn is_plain(text: Seq<char>) -> bool {
    forall|i: int| 0 <= i < text.len() ==> is_digit(#[trigger] text[i]) || 'a' <= text[i] <= 'z'
}

proof fn lemma_plain_trim(text: Seq<char>)
    requires
        is_plain(text),
    ensures
        trim_of(text) == text,
{
    if text.len() > 0 {
        crate::text::law_trim(text);
        assert(is_digit(text[0]) || 'a' <= text[0] <= 'z');
        let last = text.len() - 1;
        assert(is_digit(text[last]) || 'a' <= text[last] <= 'z');
    }
}

proof fn lemma_plain_size(text: Seq<char>)
    requires
        is_plain(text),
    ensures
        plain_size_of(text) == text,
{
    lemma_plain_trim(text);
    assert(ascii_lower_of(text) == text) by {
        assert forall|i: int| 0 <= i < text.len() implies #[trigger] ascii_lower_of(text)[i]
            == text[i] by {
            assert(is_digit(text[i]) || 'a' <= text[i] <= 'z');
        }
    }
    assert(!text.contains('_')) by {
        if text.contains('_') {
            let i = choose|i: int| 0 <= i < text.len() && text[i] == '_';
            assert(is_digit(text[i]) || 'a' <= text[i] <= 'z');
        }
    }
    crate::path::lemma_replace_absent(text, '_', ""@);
}

/// A size is read back: a whole number with the word of a unit behind it is that many units, as
/// long as that can be represented.
pub proof fn law_sizes_read_back(n: nat, word: Seq<char>)
    requires
        is_lower_word(word),
        size_unit_of(word) is Some,
        n * size_unit_of(word)->0 <= usize::MAX,
        n <= usize::MAX,
    ensures
        size_of(decimal_of(n) + word) == Ok::<usize, Seq<Seq<char>>>(
            (n * size_unit_of(word)->0) as usize,
        ),
{
    let digits = decimal_of(n);
    let text = digits + word;
    lemma_decimal_digits(n);
    assert forall|i: int| 0 <= i < text.len() implies is_digit(#[trigger] text[i]) || 'a'
        <= text[i] <= 'z' by {
        if i < digits.len() {
            assert(is_digit(digits[i]));
        } else {
            assert('a' <= word[i - digits.len()] <= 'z');
        }
    }
    lemma_plain_size(text);
    lemma_plain_trim(word);
    if word.len() > 0 {
        assert('a' <= word[0] <= 'z');
    }
    lemma_digits_len(digits, word);
    assert(text.take(digits.len() as int) == digits);
    assert(text.skip(digits.len() as int) == word);
    crate::number::law_decimal_reads_back(n, n, 0, usize::MAX as nat);
}

/// A size reads the same in any letter case, with white space around it, and with underscores in
/// it. What a size does not have in front of its unit is no number, and no other word is a unit.
pub proof fn law_size_spelling(input: Seq<char>, other: Seq<char>)
    ensures
        plain_size_of(input) == plain_size_of(other) && size_of(input) is Ok ==> size_of(other)
            == size_of(input),
        ascii_lower_of(trim_of(input)) == ascii_lower_of(trim_of(other)) && size_of(input) is Ok
            ==> size_of(other) == size_of(input),
        size_of(input) matches Ok(bytes) ==> {
            let text = plain_size_of(input);
            &&& text.len() > 0
            &&& is_digit(text[0])
        },
{
    let text = plain_size_of(input);
    if size_of(input) is Ok {
        let digits = text.take(digits_len(text) as int);
        crate::number::law_numbers_are_digits(digits, usize::MAX as nat);
        lemma_digits_within(text);
        assert(digits[0] == text[0]);
    }
}

proof fn lemma_digits_within(s: Seq<char>)
    ensures
        digits_len(s) <= s.len(),
        digits_len(s) > 0 ==> is_digit(s[0]),
    decreases s.len(),
{
    if s.len() > 0 {
        lemma_digits_within(s.drop_first());
    }
}

/// Rounding to the nearest misses by half a unit at most, and from the middle it goes to the even
/// number.
pub proof fn law_nearest(n: int, d: int)
    requires
        d > 0,
        n >= 0,
    ensures
        ({
            let r = nearest_of(n, d);
            &&& 2 * (r * d - n) <= d
            &&& 2 * (n - r * d) <= d
            &&& 2 * (r * d - n) == d || 2 * (n - r * d) == d ==> r % 2 == 0
        }),
{
    let q = n / d;
    let m = n % d;
    assert(q * d + m == n && 0 <= m < d) by (nonlinear_arith)
        requires
            d > 0,
            q == n / d,
            m == n % d,
    ;
    assert((q + 1) * d == q * d + d) by (nonlinear_arith);
}

/// A readable size tells the bytes: below a kibibyte their number, and above it the number of the
/// greatest binary unit that they reach, to the nearest hundredth.
pub proof fn law_readable_sizes(bytes: nat)
    requires
        bytes < 0x20_0000_0000_0000,
    ensures
        bytes < 1024 ==> pretty_bytes_of(bytes) == decimal_of(bytes) + " "@ + "B"@,
        1024 <= bytes < 0x10_0000 ==> is_readable(bytes, 1024, "KiB"@),
        0x10_0000 <= bytes < 0x4000_0000 ==> is_readable(bytes, 0x10_0000, "MiB"@),
        0x4000_0000 <= bytes < 0x100_0000_0000 ==> is_readable(bytes, 0x4000_0000, "GiB"@),
        0x100_0000_0000 <= bytes ==> is_readable(bytes, 0x100_0000_0000, "TiB"@),
{
    assert(double_step_of(bytes, 1) == 1);
    assert(nearest_of(bytes as int, 1) == bytes);
    assert(double_of(bytes) == bytes);
    if bytes >= 1024 {
        let unit = unit_bytes_of(readable_unit_of(bytes));
        let hundredths = nearest_of(bytes as int * 100, unit as int);
        law_nearest(bytes as int * 100, unit as int);
        assert(hundredths >= 0) by (nonlinear_arith)
            requires
                2 * (bytes * 100 - hundredths * unit) <= unit,
                bytes >= unit,
                unit > 0,
        ;
        let name = unit_name_of(readable_unit_of(bytes));
        assert(is_readable_as(bytes, unit, name, hundredths as nat));
    }
}

/// Whether the readable form of a size is a number of hundredths of a unit, and the nearest one.
pub open spec fn is_readable_as(bytes: nat, unit: nat, name: Seq<char>, hundredths: nat) -> bool {
    &&& 2 * (hundredths * unit - bytes * 100) <= unit
    &&& 2 * (bytes * 100 - hundredths * unit) <= unit
    &&& pretty_bytes_of(bytes) == decimal_of(hundredths / 100) + "."@ + padded_of(
        hundredths % 100,
        2,
    ) + " "@ + name
}

/// Whether the readable form of a size is given in a unit.
pub open spec fn is_readable(bytes: nat, unit: nat, name: Seq<char>) -> bool {
    exists|hundredths: nat| is_readable_as(bytes, unit, name, hundredths)
}

/// A sum of sizes grows by each size once.
pub proof fn law_sizes_add_up(sizes: Seq<usize>, size: usize)
    ensures
        sum_of(sizes.push(size)) == sum_of(sizes) + size,
        sum_of(Seq::empty()) == 0,
{
    assert(sizes.push(size).drop_last() == sizes);
}

}
