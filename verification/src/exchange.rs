//! The moves of one request between its handler, the pool and the store.

use vstd::prelude::*;

verus! {

/// Why the store did not carry an operation out.
#[derive(Clone, Copy, Debug, PartialEq, Eq, Structural)]
pub enum StoreError {
    /// A row with the same key is already there.
    Conflict,
    /// No row has the key.
    NotFound,
    /// The store could not be asked, or could not do what it was asked.
    Unavailable,
}

/// How far a request has come when its handler is asked for the next move.
/// `R` is what the store answers to the handler's operation.
#[derive(Debug, PartialEq, Eq)]
pub enum Progress<R> {
    /// Nothing has been done yet.
    Started,
    /// The pool gave no connection.
    Refused,
    /// The pool gave a connection, and nothing has been run on it.
    Connected,
    /// The store has answered the operation.
    Answered(R),
}

/// The next move of a request. `Q` is the operation that the handler has the
/// store run, `A` the body of its response.
#[derive(Debug, PartialEq, Eq)]
pub enum Step<Q, A> {
    /// Ask the pool for a connection.
    Acquire,
    /// Run this operation on the connection.
    Run(Q),
    /// Finish the request with this response.
    Respond(A),
    /// Give the request up without a response.
    Abort,
}

impl<Q, A> Step<Q, A> {
    /// The move is to run `query` on the connection.
    pub open spec fn runs(self, query: Q) -> bool {
        self == Step::<Q, A>::Run(query)
    }

    /// The move is to finish the request with `body`.
    pub open spec fn responds(self, body: A) -> bool {
        self == Step::<Q, A>::Respond(body)
    }
}

/// What a reply shows: its value taken by its view, or its error.
pub open spec fn shown<T: DeepView>(reply: Result<T, StoreError>) -> Result<T::V, StoreError> {
    match reply {
        Ok(value) => Ok(value.deep_view()),
        Err(error) => Err(error),
    }
}

} // verus!
