//! Telling a missing object apart from a read that failed.

use either::Either;
use vstd::prelude::*;

verus! {

/// The type `either::Either`, with the two variants that the crate
/// declares: `Left` and `Right`, each holding one value.
#[verifier::external_type_specification]
pub struct ExEither<L, R>(Either<L, R>);

/// What the object store says of a request that it did not fulfil.
#[derive(Debug)]
pub struct Status {
    /// The suggested HTTP code; 0 where none was given.
    pub code: u16,
    /// The reason in a form for programs; empty where none was given.
    pub reason: String,
    /// The reason in a form for people.
    pub message: String,
}

/// What can go wrong with a request to the object store.
#[derive(Debug)]
pub enum Error<E> {
    /// The store answered, and refused.
    Api(Status),
    /// Anything else: the request did not get through, or its answer was
    /// not understood.
    Other(E),
}

/// The reason that the object store gives where the object that a request
/// names does not exist.
pub open spec fn not_found_reason() -> Seq<char> {
    "NotFound"@
}

/// The method `is_not_found` of `kube_client::core::Status`. Taken on
/// trust: a status says "not found" where its reason is the text
/// `NotFound`, whatever its code.
#[verifier::external_body]
fn reports_not_found(reason: &str, code: u16) -> (not_found: bool)
    ensures
        not_found == (reason@ == not_found_reason()),
{
    let status = kube_client::core::Status {
        reason: reason.to_string(),
        code,
        ..Default::default()
    };
    status.is_not_found()
}

impl Status {
    /// Whether the status says that the object does not exist.
    pub fn is_not_found(&self) -> (not_found: bool)
        ensures
            not_found == (self.reason@ == not_found_reason()),
    {
        reports_not_found(self.reason.as_str(), self.code)
    }
}

/// What `not_found_ok` makes of an error: the status of a missing object
/// counts as an answer, every other error stays the error it is.
pub open spec fn not_found_as_answer<K, E>(error: Error<E>) -> Result<Either<K, Status>, Error<E>> {
    match error {
        Error::Api(status) => if status.reason@ == not_found_reason() {
            Ok(Either::Right(status))
        } else {
            Err(error)
        },
        Error::Other(_) => Err(error),
    }
}

/// Turns the error of a request that found no object into an answer that
/// carries the store's status. Useful after a delete, where a missing
/// object is as good as a deleted one.
pub fn not_found_ok<K, E>(error: Error<E>) -> (answer: Result<Either<K, Status>, Error<E>>)
    ensures
        answer == not_found_as_answer::<K, E>(error),
{
    match error {
        Error::Api(status) => {
            if status.is_not_found() {
                Ok(Either::Right(status))
            } else {
                Err(Error::Api(status))
            }
        },
        Error::Other(other) => Err(Error::Other(other)),
    }
}

/// The former name of `not_found_ok`.
pub fn ignore_not_found<K, E>(error: Error<E>) -> (answer: Result<Either<K, Status>, Error<E>>)
    ensures
        answer == not_found_as_answer::<K, E>(error),
{
    not_found_ok(error)
}

} // verus!
