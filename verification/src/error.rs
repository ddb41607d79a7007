//! Errors that carry the context in which they came up.

use vstd::prelude::*;

use crate::status::{Code, Status};
use crate::text::{join, join_of, texts};

verus! {

/// An error with its context: `messages[0]` is the outermost context, the last message is the
/// cause.
#[derive(Debug)]
pub struct ErrorChain {
    pub messages: Vec<String>,
}

impl View for ErrorChain {
    type V = Seq<Seq<char>>;

    open spec fn view(&self) -> Seq<Seq<char>> {
        texts(self.messages@)
    }
}

impl ErrorChain {
    /// An error without context.
    pub fn new(message: String) -> (r: ErrorChain)
        ensures
            r@ == seq![message@],
    {
        let mut messages: Vec<String> = Vec::new();
        messages.push(message);
        let r = ErrorChain { messages };
        assert(r@ == seq![message@]);
        r
    }

    /// The same error inside one more context.
    pub fn context(self, message: String) -> (r: ErrorChain)
        ensures
            r@ == seq![message@] + self@,
    {
        let mut messages: Vec<String> = Vec::new();
        messages.push(message);
        let ghost outer = message@;
        let mut i: usize = 0;
        while i < self.messages.len()
            invariant
                i <= self.messages@.len(),
                texts(messages@) == seq![outer] + self@.take(i as int),
            decreases self.messages@.len() - i,
        {
            let ghost before = texts(messages@);
            messages.push(self.messages[i].clone());
            proof {
                assert(texts(messages@) == before.push(self@[i as int]));
                assert(texts(messages@) == seq![outer] + self@.take(i + 1));
            }
            i += 1;
        }
        proof {
            assert(self@.take(i as int) == self@);
        }
        ErrorChain { messages }
    }

    /// The whole chain on one line, the outermost context first.
    pub fn one_line(&self) -> (r: String)
        ensures
            r@ == join_of(self@, ": "@),
    {
        join(&self.messages, ": ")
    }
}

/// Whether a result is the one that a specification gives: the same value, or an error with the
/// same chain of messages.
pub open spec fn agrees<T>(
    result: Result<T,
    ErrorChain>,
    wanted: Result<T,
    Seq<Seq<char>>>,
) -> bool {
    match (result, wanted) {
        (Ok(value), Ok(other)) => value == other,
        (Err(error), Err(messages)) => error@ == messages,
        _ => false,
    }
}

/// The error of a result, if it is one.
pub open spec fn error_of<T>(result: Result<T, Seq<Seq<char>>>) -> Option<Seq<Seq<char>>> {
    match result {
        Ok(_) => None,
        Err(messages) => Some(messages),
    }
}

/// The first error of two steps that are taken in order.
pub open spec fn either_error(
    first: Option<Seq<Seq<char>>>,
    second: Option<Seq<Seq<char>>>,
) -> Option<Seq<Seq<char>>> {
    if first is Some {
        first
    } else {
        second
    }
}

/// A result with its error inside one more context.
pub open spec fn in_context<T>(
    result: Result<T, Seq<Seq<char>>>,
    message: Seq<char>,
) -> Result<T, Seq<Seq<char>>> {
    match result {
        Ok(value) => Ok(value),
        Err(messages) => Err(seq![message] + messages),
    }
}

/// The status that a failure inside the worker is answered with.
pub fn status_from_context(error: ErrorChain) -> (r: Status)
    ensures
        r@ == crate::status::status_of(Code::Internal, join_of(error@, ": "@)),
{
    Status::new(Code::Internal, error.one_line())
}

/// Maps the error of a result to the status that it is answered with.
pub fn map_context<T>(result: Result<T, ErrorChain>) -> (r: Result<T, Status>)
    ensures
        match result {
            Ok(value) => r == Ok::<T, Status>(value),
            Err(error) => r matches Err(status) && status@ == crate::status::status_of(
                Code::Internal,
                join_of(error@, ": "@),
            ),
        },
{
    match result {
        Ok(value) => Ok(value),
        Err(error) => Err(status_from_context(error)),
    }
}

// ---------------------------------------------------------------------------
// Laws of errors

/// A context goes in front of an error and leaves a value as it is, and of two steps the first
/// error counts.
pub proof fn law_context_goes_first<T>(
    value: T,
    messages: Seq<Seq<char>>,
    message: Seq<char>,
    second: Option<Seq<Seq<char>>>,
)
    ensures
        in_context(Ok::<T, Seq<Seq<char>>>(value), message) == Ok::<T, Seq<Seq<char>>>(value),
        in_context(Err::<T, Seq<Seq<char>>>(messages), message) matches Err(chain) && chain.len()
            == messages.len() + 1 && chain[0] == message && chain.skip(1) == messages,
        either_error(Some(messages), second) == Some(messages),
        either_error(None, second) == second,
        error_of(Ok::<T, Seq<Seq<char>>>(value)) is None,
        error_of(Err::<T, Seq<Seq<char>>>(messages)) == Some(messages),
{
    assert((seq![message] + messages).skip(1) == messages);
}

/// On one line, a chain is its outermost context, a separator, and the line of the rest.
pub proof fn law_one_line(message: Seq<char>, messages: Seq<Seq<char>>, sep: Seq<char>)
    ensures
        join_of(seq![message], sep) == message,
        messages.len() > 0 ==> join_of(seq![message] + messages, sep) == message + sep + join_of(
            messages,
            sep,
        ),
    decreases messages.len(),
{
    let whole = seq![message] + messages;
    reveal_with_fuel(join_of, 2);
    if messages.len() == 1 {
        assert(whole.drop_last() == seq![message]);
        assert(whole.last() == messages[0]);
    } else if messages.len() > 1 {
        law_one_line(message, messages.drop_last(), sep);
        assert(whole.drop_last() == seq![message] + messages.drop_last());
        assert(whole.last() == messages.last());
        let inner = join_of(messages.drop_last(), sep);
        assert(message + sep + inner + sep + messages.last() == message + sep + (inner + sep
            + messages.last()));
    }
}

}
