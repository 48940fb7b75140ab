//! The errors of query execution.

use std::collections::BTreeMap;
use std::convert::Infallible;
use std::sync::Arc;

use trustfall_errors::error::{DisplayVec, ExecutionError, IntoRow, QueryArgumentsError};
use trustfall_errors::ir::{EdgeParameters, FieldValue};

#[test]
fn a_row_is_taken_out_without_unwrapping() {
    let result: Result<BTreeMap<String, i64>, ExecutionError<Infallible>> =
        Ok(BTreeMap::from([("value".to_string(), 42)]));
    let row = result.into_row();
    assert_eq!(row["value"], 42);
}

#[test]
fn a_single_arguments_error_stays_as_it_is() {
    let missing = QueryArgumentsError::MissingArguments(vec!["a".to_string()]);
    assert_eq!(QueryArgumentsError::from(vec![missing.clone()]), missing);

    let unused = QueryArgumentsError::UnusedArguments(vec!["b".to_string()]);
    assert_eq!(QueryArgumentsError::from(vec![unused.clone()]), unused);
}

#[test]
fn several_arguments_errors_become_one() {
    let missing = QueryArgumentsError::MissingArguments(vec!["a".to_string()]);
    let mistyped = QueryArgumentsError::ArgumentTypeError(
        "c".to_string(),
        "Int!".to_string(),
        FieldValue::Null,
    );
    let errors = vec![missing.clone(), mistyped.clone()];
    assert_eq!(
        QueryArgumentsError::from(errors),
        QueryArgumentsError::MultipleErrors(DisplayVec(Arc::new(vec![missing, mistyped])))
    );
}

#[test]
fn a_list_of_several_errors_can_be_a_single_error_itself() {
    let list = QueryArgumentsError::MultipleErrors(DisplayVec(Arc::new(vec![])));
    assert_eq!(QueryArgumentsError::from(vec![list.clone()]), list);
}

#[test]
fn copies_of_parameters_are_equal() {
    let parameters = EdgeParameters {
        contents: Arc::new(vec![(Arc::from("max"), FieldValue::Uint64(3))]),
    };
    assert_eq!(parameters.clone(), parameters);
}
