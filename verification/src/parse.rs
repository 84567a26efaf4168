//! How the readers' contracts are stated.
//!
//! Each reader has a spec function from the events still to come to an
//! [`Outcome`]: what was read, whether and how reading failed, and the
//! events that are left. The executable reader is proved to do what its spec
//! function says.

use vstd::prelude::*;
use crate::error::{Error, ErrorView};
use crate::event::EventView;

verus! {

/// What a reader makes of a sequence of events.
pub struct Outcome<T> {
    /// What was read. Where a reader that fills a record fails, this is the
    /// record as the failure leaves it.
    pub value: T,
    /// The failure, if there was one.
    pub fault: Option<ErrorView>,
    /// The events that were not consumed.
    pub rest: Seq<EventView>,
}

impl<T> Outcome<T> {
    /// Reading succeeded.
    pub open spec fn done(value: T, rest: Seq<EventView>) -> Self {
        Outcome { value, fault: None, rest }
    }

    /// Reading failed.
    pub open spec fn failed(value: T, fault: ErrorView, rest: Seq<EventView>) -> Self {
        Outcome { value, fault: Some(fault), rest }
    }
}

/// The failure for a tag (or, with an empty `found`, something that is no
/// tag) that has no place within `within`.
pub open spec fn unexpected(found: Seq<char>, within: Seq<char>) -> ErrorView {
    ErrorView::UnexpectedElement { found, within }
}

/// A reader that returns a value did what `out` says: it stopped where
/// `out` stops, and it returned `out`'s value, or failed as `out` fails.
pub open spec fn gives<T: DeepView>(
    out: Outcome<T::V>,
    result: Result<T, Error>,
    rest: Seq<EventView>,
) -> bool {
    &&& rest == out.rest
    &&& match result {
        Ok(value) => out.fault is None && value.deep_view() == out.value,
        Err(e) => out.fault == Some(e.deep_view()),
    }
}

/// A reader that fills a record in place did what `out` says: it stopped
/// where `out` stops, it left the record as `out` has it, and it succeeded,
/// or failed as `out` fails.
pub open spec fn fills<T>(
    out: Outcome<T>,
    result: Result<(), Error>,
    value: T,
    rest: Seq<EventView>,
) -> bool {
    &&& rest == out.rest
    &&& value == out.value
    &&& match result {
        Ok(()) => out.fault is None,
        Err(e) => out.fault == Some(e.deep_view()),
    }
}

/// The outcome of reading a part of a record, as an outcome for the whole
/// record: `put` says what the record is with the part that was read.
pub open spec fn lift<A, B>(part: Outcome<A>, put: spec_fn(A) -> B) -> Outcome<B> {
    Outcome { value: put(part.value), fault: part.fault, rest: part.rest }
}

/// The outcome of reading a value, as an outcome for the record that takes
/// it: `put` says what the record is with the value, and where reading failed
/// the record is `kept` as it was.
pub open spec fn lift_ok<A, B>(part: Outcome<A>, kept: B, put: spec_fn(A) -> B) -> Outcome<B> {
    Outcome {
        value: if part.fault is Some {
            kept
        } else {
            put(part.value)
        },
        fault: part.fault,
        rest: part.rest,
    }
}

/// Builds the failure `unexpected(found, within)`.
pub(crate) fn unexpected_element(found: &str, within: &str) -> (e: Error)
    ensures
        e.deep_view() == unexpected(found@, within@),
{
    Error::UnexpectedElement { found: found.to_owned(), within: within.to_owned() }
}

/// Builds the failure for something that is no tag and has no place within
/// `within`.
pub(crate) fn out_of_place(within: &str) -> (e: Error)
    ensures
        e.deep_view() == unexpected(Seq::empty(), within@),
{
    Error::UnexpectedElement { found: String::new(), within: within.to_owned() }
}

} // verus!
