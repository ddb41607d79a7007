//! The status that a Flight call is answered with.

use vstd::prelude::*;

use crate::text::text_eq;
use crate::util::quoted_of;

verus! {

/// The codes of a gRPC status.
#[derive(Clone, Copy, Debug, PartialEq, Eq, Structural)]
pub enum Code {
    Success,
    Cancelled,
    Unknown,
    InvalidArgument,
    DeadlineExceeded,
    NotFound,
    AlreadyExists,
    PermissionDenied,
    ResourceExhausted,
    FailedPrecondition,
    Aborted,
    OutOfRange,
    Unimplemented,
    Internal,
    Unavailable,
    DataLoss,
    Unauthenticated,
}

/// One metadata entry of a status.
#[derive(Clone, Debug)]
pub struct MetadataEntry {
    pub name: String,
    pub value: Vec<u8>,
}

/// The metadata of a status: values under lower case names, in the order of their insertion.
#[derive(Clone, Debug)]
pub struct Metadata {
    pub entries: Vec<MetadataEntry>,
}

/// The value of the first entry under `name`.
pub open spec fn first_value(
    entries: Seq<(Seq<char>, Seq<u8>)>,
    name: Seq<char>,
) -> Option<Seq<u8>>
    decreases entries.len(),
{
    if entries.len() == 0 {
        None
    } else if entries[0].0 == name {
        Some(entries[0].1)
    } else {
        first_value(entries.drop_first(), name)
    }
}

/// The entries under other names than `name`.
pub open spec fn other_than(name: Seq<char>) -> spec_fn((Seq<char>, Seq<u8>)) -> bool {
    |entry: (Seq<char>, Seq<u8>)| entry.0 != name
}

/// `entries` without those under `name`.
pub open spec fn without_name(
    entries: Seq<(Seq<char>, Seq<u8>)>,
    name: Seq<char>,
) -> Seq<(Seq<char>, Seq<u8>)> {
    entries.filter(other_than(name))
}

impl View for MetadataEntry {
    type V = (Seq<char>, Seq<u8>);

    open spec fn view(&self) -> (Seq<char>, Seq<u8>) {
        (self.name@, self.value@)
    }
}

impl View for Metadata {
    type V = Seq<(Seq<char>, Seq<u8>)>;

    open spec fn view(&self) -> Seq<(Seq<char>, Seq<u8>)> {
        self.entries@.map_values(|entry: MetadataEntry| entry@)
    }
}

impl Metadata {
    /// No metadata.
    pub fn new() -> (r: Metadata)
        ensures
            r@ == Seq::<(Seq<char>, Seq<u8>)>::empty(),
    {
        let r = Metadata { entries: Vec::new() };
        assert(r@ == Seq::<(Seq<char>, Seq<u8>)>::empty());
        r
    }

    /// The value of the first entry under `name`.
    pub fn get(&self, name: &str) -> (r: Option<&Vec<u8>>)
        ensures
            match first_value(self@, name@) {
                Some(value) => r matches Some(found) && found@ == value,
                None => r is None,
            },
    {
        let mut i: usize = 0;
        proof {
            assert(self@.skip(0) == self@);
        }
        while i < self.entries.len()
            invariant
                i <= self.entries@.len(),
                first_value(self@.skip(i as int), name@) == first_value(self@, name@),
            decreases self.entries@.len() - i,
        {
            proof {
                assert(self@.skip(i as int).drop_first() == self@.skip(i + 1));
                assert(self@.skip(i as int)[0] == self.entries@[i as int]@);
            }
            if text_eq(self.entries[i].name.as_str(), name) {
                return Some(&self.entries[i].value);
            }
            i += 1;
        }
        proof {
            assert(self@.skip(i as int) == Seq::<(Seq<char>, Seq<u8>)>::empty());
        }
        None
    }

    /// A copy with `value` as the one entry under `name`, behind the other entries.
    pub fn with(&self, name: &str, value: Vec<u8>) -> (r: Metadata)
        ensures
            r@ == without_name(self@, name@).push((name@, value@)),
    {
        let mut entries: Vec<MetadataEntry> = Vec::new();
        let ghost other = other_than(name@);
        let ghost all = self@;
        let mut i: usize = 0;
        proof {
            reveal_with_fuel(Seq::filter, 1);
            assert(entries@.map_values(|entry: MetadataEntry| entry@) == all.take(0).filter(other));
        }
        while i < self.entries.len()
            invariant
                all == self@,
                other == other_than(name@),
                i <= self.entries@.len(),
                entries@.map_values(|entry: MetadataEntry| entry@) == all.take(i as int).filter(
                    other,
                ),
            decreases self.entries@.len() - i,
        {
            let ghost before = entries@.map_values(|entry: MetadataEntry| entry@);
            proof {
                reveal_with_fuel(Seq::filter, 1);
                assert(all.take(i + 1).drop_last() == all.take(i as int));
                assert(all.take(i + 1).last() == self.entries@[i as int]@);
            }
            if !text_eq(self.entries[i].name.as_str(), name) {
                entries.push(
                    MetadataEntry {
                        name: self.entries[i].name.clone(),
                        value: copy_bytes(&self.entries[i].value),
                    },
                );
                proof {
                    assert(entries@.map_values(|entry: MetadataEntry| entry@) == before.push(
                        self.entries@[i as int]@,
                    ));
                }
            }
            i += 1;
        }
        proof {
            assert(all.take(i as int) == all);
        }
        let ghost before = entries@.map_values(|entry: MetadataEntry| entry@);
        entries.push(MetadataEntry { name: name.to_owned(), value });
        let r = Metadata { entries };
        proof {
            assert(r@ == before.push((name@, value@)));
        }
        r
    }
}

/// A copy of `bytes`.
pub fn copy_bytes(bytes: &Vec<u8>) -> (r: Vec<u8>)
    ensures
        r@ == bytes@,
{
    let mut out: Vec<u8> = Vec::new();
    let mut i: usize = 0;
    while i < bytes.len()
        invariant
            i <= bytes@.len(),
            out@ == bytes@.take(i as int),
        decreases bytes@.len() - i,
    {
        out.push(bytes[i]);
        i += 1;
        proof {
            assert(bytes@.take(i as int) == bytes@.take(i - 1).push(bytes@[i - 1]));
        }
    }
    proof {
        assert(bytes@.take(i as int) == bytes@);
    }
    out
}

/// What a status says.
pub ghost struct StatusView {
    pub code: Code,
    pub message: Seq<char>,
    pub details: Seq<u8>,
    pub metadata: Seq<(Seq<char>, Seq<u8>)>,
}

/// A status with a code and a message and nothing else.
pub open spec fn status_of(code: Code, message: Seq<char>) -> StatusView {
    StatusView { code, message, details: Seq::empty(), metadata: Seq::empty() }
}

/// A result that holds a described value exactly where nothing is refused, and the refusal
/// otherwise.
pub open spec fn answers<T>(
    result: Result<T, Status>,
    refusal: Option<StatusView>,
    described: spec_fn(T) -> bool,
) -> bool {
    match refusal {
        None => result matches Ok(value) && described(value),
        Some(status) => result matches Err(error) && error@ == status,
    }
}

/// The first refusal of two steps that are taken in order.
pub open spec fn either_refusal(
    first: Option<StatusView>,
    second: Option<StatusView>,
) -> Option<StatusView> {
    if first is Some {
        first
    } else {
        second
    }
}

/// A gRPC status.
#[derive(Clone, Debug)]
pub struct Status {
    pub code: Code,
    pub message: String,
    pub details: Vec<u8>,
    pub metadata: Metadata,
}

impl View for Status {
    type V = StatusView;

    open spec fn view(&self) -> StatusView {
        StatusView {
            code: self.code,
            message: self.message@,
            details: self.details@,
            metadata: self.metadata@,
        }
    }
}

impl Status {
    /// A status with a code and a message and nothing else.
    pub fn new(code: Code, message: String) -> (r: Status)
        ensures
            r@ == status_of(code, message@),
    {
        Status { code, message, details: Vec::new(), metadata: Metadata::new() }
    }

    /// A status with a code and a fixed message.
    pub fn of(code: Code, message: &str) -> (r: Status)
        ensures
            r@ == status_of(code, message@),
    {
        Status::new(code, message.to_owned())
    }
}

// ---------------------------------------------------------------------------
// Words

/// The number of a code.
pub open spec fn code_number_of(code: Code) -> i32 {
    match code {
        Code::Success => 0,
        Code::Cancelled => 1,
        Code::Unknown => 2,
        Code::InvalidArgument => 3,
        Code::DeadlineExceeded => 4,
        Code::NotFound => 5,
        Code::AlreadyExists => 6,
        Code::PermissionDenied => 7,
        Code::ResourceExhausted => 8,
        Code::FailedPrecondition => 9,
        Code::Aborted => 10,
        Code::OutOfRange => 11,
        Code::Unimplemented => 12,
        Code::Internal => 13,
        Code::Unavailable => 14,
        Code::DataLoss => 15,
        Code::Unauthenticated => 16,
    }
}

/// The number of a code.
pub fn code_number(code: Code) -> (r: i32)
    ensures
        r == code_number_of(code),
{
    match code {
        Code::Success => 0,
        Code::Cancelled => 1,
        Code::Unknown => 2,
        Code::InvalidArgument => 3,
        Code::DeadlineExceeded => 4,
        Code::NotFound => 5,
        Code::AlreadyExists => 6,
        Code::PermissionDenied => 7,
        Code::ResourceExhausted => 8,
        Code::FailedPrecondition => 9,
        Code::Aborted => 10,
        Code::OutOfRange => 11,
        Code::Unimplemented => 12,
        Code::Internal => 13,
        Code::Unavailable => 14,
        Code::DataLoss => 15,
        Code::Unauthenticated => 16,
    }
}

/// What the code with a number is told with.
pub open spec fn description_of(number: i32) -> Seq<char> {
    if number == 0 {
        "The operation completed successfully"@
    } else if number == 1 {
        "The operation was cancelled"@
    } else if number == 3 {
        "Client specified an invalid argument"@
    } else if number == 4 {
        "Deadline expired before operation could complete"@
    } else if number == 5 {
        "Some requested entity was not found"@
    } else if number == 6 {
        "Some entity that we attempted to create already exists"@
    } else if number == 7 {
        "The caller does not have permission to execute the specified operation"@
    } else if number == 8 {
        "Some resource has been exhausted"@
    } else if number == 9 {
        "The system is not in a state required for the operation's execution"@
    } else if number == 10 {
        "The operation was aborted"@
    } else if number == 11 {
        "Operation was attempted past the valid range"@
    } else if number == 12 {
        "Operation is not implemented or not supported"@
    } else if number == 13 {
        "Internal error"@
    } else if number == 14 {
        "The service is currently unavailable"@
    } else if number == 15 {
        "Unrecoverable data loss or corruption"@
    } else if number == 16 {
        "The request does not have valid authentication credentials"@
    } else {
        "Unknown error"@
    }
}

/// The words for a status: what its code means and, quoted, its message where it has one.
pub open spec fn words_of_status(number: i32, message: Seq<char>) -> Seq<char> {
    "code: '"@ + description_of(number) + "'"@ + (if message.len() == 0 {
        Seq::empty()
    } else {
        ", message: "@ + quoted_of(message)
    })
}

/// Calls `to_string` on the `tonic::Status` with a code and a message, that is its `Display`: the
/// description of the code and, where the message is not empty, the message as `{:?}` writes it. A
/// number that is no code stands for the code of an unknown error.
#[verifier::external_body]
fn tonic_words(number: i32, message: &str) -> (r: String)
    ensures
        r@ == words_of_status(number, message@),
{
    tonic::Status::new(tonic::Code::from_i32(number), message).to_string()
}

impl Status {
    /// The words under which a status is recorded.
    pub fn words(&self) -> (r: String)
        ensures
            r@ == words_of_status(code_number_of(self.code), self.message@),
    {
        tonic_words(code_number(self.code), self.message.as_str())
    }
}

// ---------------------------------------------------------------------------
// Laws of statuses

/// Every code has a number of its own from 0 to 16, and the numbers are those of gRPC.
pub proof fn law_code_numbers(code: Code, other: Code)
    ensures
        0 <= code_number_of(code) <= 16,
        code_number_of(code) == code_number_of(other) ==> code == other,
        code_number_of(code) == 0 <==> code == Code::Success,
        code_number_of(code) == 3 <==> code == Code::InvalidArgument,
        code_number_of(code) == 5 <==> code == Code::NotFound,
        code_number_of(code) == 7 <==> code == Code::PermissionDenied,
        code_number_of(code) == 8 <==> code == Code::ResourceExhausted,
        code_number_of(code) == 9 <==> code == Code::FailedPrecondition,
        code_number_of(code) == 12 <==> code == Code::Unimplemented,
        code_number_of(code) == 13 <==> code == Code::Internal,
        code_number_of(code) == 14 <==> code == Code::Unavailable,
        code_number_of(code) == 16 <==> code == Code::Unauthenticated,
{
}

/// Of two steps that are taken in order the first refusal counts, and where neither refuses nothing
/// is refused.
pub proof fn law_first_refusal<T>(
    first: Option<StatusView>,
    second: Option<StatusView>,
    result: Result<T, Status>,
    described: spec_fn(T) -> bool,
)
    requires
        answers(result, either_refusal(first, second), described),
    ensures
        result is Ok <==> first is None && second is None,
        first matches Some(status) ==> (result matches Err(error) && error@ == status),
        first is None ==> (second matches Some(status) ==> (result matches Err(error) && error@
            == status)),
        result matches Ok(value) ==> described(value),
{
}

proof fn lemma_found_behind(entries: Seq<(Seq<char>, Seq<u8>)>, name: Seq<char>, wanted: Seq<char>)
    ensures
        first_value(without_name(entries, name), wanted) == (if wanted == name {
            None
        } else {
            first_value(entries, wanted)
        }),
    decreases entries.len(),
{
    let other = other_than(name);
    if entries.len() == 0 {
        reveal_with_fuel(Seq::filter, 1);
    } else {
        let rest = entries.drop_first();
        lemma_found_behind(rest, name, wanted);
        assert(entries == seq![entries[0]] + rest);
        Seq::filter_distributes_over_add(seq![entries[0]], rest, other);
        reveal_with_fuel(Seq::filter, 2);
        assert(seq![entries[0]].drop_last() == Seq::<(Seq<char>, Seq<u8>)>::empty());
        let kept = without_name(entries, name);
        if entries[0].0 != name {
            assert(seq![entries[0]].filter(other) == seq![entries[0]]);
            assert(kept[0] == entries[0]);
            assert(kept.drop_first() == without_name(rest, name));
        } else {
            assert(seq![entries[0]].filter(other) == Seq::<(Seq<char>, Seq<u8>)>::empty());
            assert(kept == without_name(rest, name));
        }
    }
}

proof fn lemma_found_pushed(
    entries: Seq<(Seq<char>, Seq<u8>)>,
    name: Seq<char>,
    value: Seq<u8>,
    wanted: Seq<char>,
)
    ensures
        first_value(entries.push((name, value)), wanted) == (match first_value(entries, wanted) {
            Some(found) => Some(found),
            None => if wanted == name {
                Some(value)
            } else {
                None
            },
        }),
    decreases entries.len(),
{
    let longer = entries.push((name, value));
    if entries.len() == 0 {
        reveal_with_fuel(first_value, 2);
        assert(longer.drop_first() == entries);
    } else {
        lemma_found_pushed(entries.drop_first(), name, value, wanted);
        assert(longer.drop_first() == entries.drop_first().push((name, value)));
        assert(longer[0] == entries[0]);
    }
}

/// A value that is set under a name is the one that is found there, whatever was set before, and
/// what is found under other names stays.
pub proof fn law_set_value(
    entries: Seq<(Seq<char>, Seq<u8>)>,
    name: Seq<char>,
    value: Seq<u8>,
    other: Seq<char>,
)
    ensures
        first_value(without_name(entries, name).push((name, value)), name) == Some(value),
        other != name ==> first_value(without_name(entries, name).push((name, value)), other)
            == first_value(entries, other),
{
    let kept = without_name(entries, name);
    lemma_found_behind(entries, name, name);
    lemma_found_behind(entries, name, other);
    lemma_found_pushed(kept, name, value, name);
    lemma_found_pushed(kept, name, value, other);
}

}
