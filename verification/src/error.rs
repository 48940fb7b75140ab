//! The errors of query execution.

use std::convert::Infallible;
use std::sync::Arc;

use vstd::prelude::*;

use crate::ir::FieldValue;

verus! {

/// A list of errors that is shown as one.
#[derive(Debug, PartialEq, Eq)]
pub struct DisplayVec<T>(pub Arc<Vec<T>>);

impl<T> Clone for DisplayVec<T> {
    fn clone(&self) -> (copy: Self)
        ensures
            copy == *self,
    {
        DisplayVec(Arc::clone(&self.0))
    }
}

/// The arguments given to a query do not fit it.
#[derive(Debug, Clone, PartialEq, Eq)]
pub enum QueryArgumentsError {
    /// Arguments that the query requires were not provided.
    MissingArguments(Vec<String>),
    /// Arguments were provided that the query does not use.
    UnusedArguments(Vec<String>),
    /// The argument, the type that the query requires it to have, and the value that cannot be
    /// converted to that type.
    ArgumentTypeError(String, String, FieldValue),
    /// Several of these errors.
    MultipleErrors(DisplayVec<QueryArgumentsError>),
}

impl QueryArgumentsError {
    /// Makes one error of at least one: a single error stays as it is.
    pub fn from(errors: Vec<QueryArgumentsError>) -> (error: QueryArgumentsError)
        requires
            errors@.len() > 0,
        ensures
            errors@.len() == 1 ==> error == errors@[0],
            errors@.len() > 1 ==> {
                &&& error matches QueryArgumentsError::MultipleErrors(list)
                &&& *list.0 == errors
            },
    {
        if errors.len() == 1 {
            let mut errors = errors;
            errors.swap_remove(0)
        } else {
            QueryArgumentsError::MultipleErrors(DisplayVec(Arc::new(errors)))
        }
    }
}

/// An error met while consuming the results of a query.
///
/// The first adapter error ends the results, and the row that was being made is discarded. Errors
/// of the interpreter may get variants of their own.
#[derive(Debug, PartialEq, Eq)]
#[non_exhaustive]
pub enum ExecutionError<E> {
    /// The adapter reported an error while it resolved starting vertices, a property, an edge or a
    /// coercion.
    Adapter(E),
}

/// Results that always hold a row, because their adapter's error type is uninhabited.
pub trait IntoRow: Sized {
    /// The row of a result.
    type Row;

    /// The row that the result holds.
    spec fn row(self) -> Option<Self::Row>;

    /// Takes the row out of the result.
    fn into_row(self) -> (row: Self::Row)
        ensures
            self.row() matches Some(held) ==> row == held,
    ;
}

impl<Row> IntoRow for Result<Row, ExecutionError<Infallible>> {
    type Row = Row;

    open spec fn row(self) -> Option<Row> {
        match self {
            Ok(row) => Some(row),
            Err(_) => None,
        }
    }

    fn into_row(self) -> (row: Row) {
        // An error would hold an `Infallible`, and there is none.
        match self {
            Ok(row) => row,
        }
    }
}

} // verus!
