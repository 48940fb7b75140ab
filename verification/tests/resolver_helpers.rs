//! Resolvers out of functions of one vertex.

use std::convert::Infallible;

use trustfall_errors::adapter::{ContextIterator, DataContext};
use trustfall_errors::helpers::{
    coercion_outcome, neighbor_outcomes, property_outcome, resolve_active, resolve_coercion_with,
    resolve_neighbors_with, resolve_property_with, start_resolution, try_resolve_coercion_with,
    try_resolve_neighbors_with, try_resolve_property_with, ResolveContext, TryCoercionWith,
    TryPropertyWith,
};
use trustfall_errors::ir::FieldValue;
use trustfall_errors::pull::{from_fn, Pull, VertexIterator};

fn items<'a, T: 'a>(items: Vec<T>) -> VertexIterator<'a, (), T> {
    let mut items = items.into_iter();
    VertexIterator::new(from_fn(move |_state: &mut ()| items.next()))
}

fn collected<T>(sequence: &mut impl Pull<(), T>) -> Vec<T> {
    let mut collected = vec![];
    while let Some(item) = sequence.next(&mut ()) {
        collected.push(item);
    }
    collected
}

fn present(vertex: i64) -> DataContext<i64> {
    DataContext { active_vertex: Some(vertex), values: vec![] }
}

fn absent() -> DataContext<i64> {
    DataContext { active_vertex: None, values: vec![FieldValue::Boolean(true)] }
}

fn contexts() -> ContextIterator<'static, (), i64> {
    items(vec![present(1), absent(), present(-2)])
}

fn positive(vertex: &i64) -> Result<bool, String> {
    if *vertex == -2 { Err("minus two".to_string()) } else { Ok(*vertex > 0) }
}

#[test]
fn properties_come_in_the_order_of_the_contexts() {
    let mut outcomes = resolve_property_with(contexts(), |vertex: &i64| FieldValue::Int64(*vertex));
    let outcomes: Vec<(_, Result<FieldValue, Infallible>)> = collected(&mut outcomes);
    assert_eq!(
        outcomes,
        vec![
            (present(1), Ok(FieldValue::Int64(1))),
            (absent(), Ok(FieldValue::Null)),
            (present(-2), Ok(FieldValue::Int64(-2))),
        ]
    );
}

#[test]
fn a_failed_property_is_the_outcome_of_its_context() {
    let mut outcomes = try_resolve_property_with(contexts(), |vertex: &i64| {
        positive(vertex).map(FieldValue::Boolean)
    });
    assert_eq!(
        collected(&mut outcomes),
        vec![
            (present(1), Ok(FieldValue::Boolean(true))),
            (absent(), Ok(FieldValue::Null)),
            (present(-2), Err("minus two".to_string())),
        ]
    );
}

#[test]
fn coercions_come_in_the_order_of_the_contexts() {
    let mut outcomes = resolve_coercion_with(contexts(), |vertex: &i64| *vertex == 1);
    let outcomes: Vec<(_, Result<bool, Infallible>)> = collected(&mut outcomes);
    assert_eq!(
        outcomes,
        vec![(present(1), Ok(true)), (absent(), Ok(false)), (present(-2), Ok(false))]
    );
}

#[test]
fn a_failed_coercion_is_the_outcome_of_its_context() {
    let mut outcomes = try_resolve_coercion_with(contexts(), positive);
    assert_eq!(
        collected(&mut outcomes),
        vec![
            (present(1), Ok(true)),
            (absent(), Ok(false)),
            (present(-2), Err("minus two".to_string())),
        ]
    );
}

#[test]
fn neighbors_come_in_the_order_of_the_contexts_and_each_is_ok() {
    let mut outcomes =
        resolve_neighbors_with(contexts(), |vertex: &i64| items(vec![*vertex + 1, *vertex + 2]));
    let mut seen: Vec<(DataContext<i64>, Vec<Result<i64, Infallible>>)> = vec![];
    while let Some((context, mut neighbors)) = outcomes.next(&mut ()) {
        let neighbors = collected(&mut neighbors);
        seen.push((context, neighbors));
    }
    assert_eq!(
        seen,
        vec![
            (present(1), vec![Ok(2), Ok(3)]),
            (absent(), vec![]),
            (present(-2), vec![Ok(-1), Ok(0)]),
        ]
    );
}

#[test]
fn failed_neighbors_stay_among_the_neighbors() {
    let mut outcomes = try_resolve_neighbors_with(contexts(), |vertex: &i64| {
        items(vec![Ok(*vertex), Err("lost"), Ok(7)])
    });
    let mut seen = vec![];
    while let Some((context, mut neighbors)) = outcomes.next(&mut ()) {
        let neighbors = collected(&mut neighbors);
        seen.push((context, neighbors));
    }
    assert_eq!(
        seen,
        vec![
            (present(1), vec![Ok(1), Err("lost"), Ok(7)]),
            (absent(), vec![]),
            (present(-2), vec![Ok(-2), Err("lost"), Ok(7)]),
        ]
    );
}

#[test]
fn contexts_are_resolved_one_at_a_time() {
    let mut calls = vec![];
    let mut outcomes = resolve_property_with(contexts(), |vertex: &i64| {
        calls.push(*vertex);
        FieldValue::Null
    });
    let first: Option<(_, Result<FieldValue, Infallible>)> = outcomes.next(&mut ());
    assert_eq!(first, Some((present(1), Ok(FieldValue::Null))));
    drop(outcomes);
    assert_eq!(calls, vec![1]);
}

#[test]
fn the_resolver_is_asked_only_where_there_is_a_vertex() {
    let mut calls = 0;
    let mut double = |vertex: &i64| {
        calls += 1;
        *vertex * 2
    };
    assert_eq!(resolve_active(&present(4), &mut double), Some(8));
    assert_eq!(resolve_active(&absent(), &mut double), None);
    assert_eq!(calls, 1);
}

#[test]
fn a_resolution_starts_with_a_clone_of_the_vertex() {
    let context = DataContext { active_vertex: Some("vertex".to_string()), values: vec![] };
    let length = |vertex: String| vertex.len();
    assert_eq!(start_resolution(&context, &length), Some(6));
    assert_eq!(context.active_vertex, Some("vertex".to_string()));

    let missing: DataContext<String> = DataContext { active_vertex: None, values: vec![] };
    assert_eq!(start_resolution(&missing, &length), None);
}

#[test]
fn awaited_answers_become_outcomes() {
    let answer: Option<Result<FieldValue, &str>> = Some(Ok(FieldValue::Int64(3)));
    assert_eq!(property_outcome(answer), Ok(FieldValue::Int64(3)));
    assert_eq!(property_outcome(Some(Err("broken"))), Err("broken"));
    assert_eq!(property_outcome::<&str>(None), Ok(FieldValue::Null));

    assert_eq!(coercion_outcome::<&str>(Some(Ok(true))), Ok(true));
    assert_eq!(coercion_outcome(Some(Err("broken"))), Err("broken"));
    assert_eq!(coercion_outcome::<&str>(None), Ok(false));

    let mut neighbors = neighbor_outcomes::<(), i64, &str>(Some(Ok(items(vec![1, 2]))));
    assert_eq!(collected(&mut neighbors), vec![Ok(1), Ok(2)]);
    let mut neighbors = neighbor_outcomes::<(), i64, &str>(Some(Err("broken")));
    assert_eq!(collected(&mut neighbors), vec![Err("broken")]);
    let mut neighbors = neighbor_outcomes::<(), i64, &str>(None);
    assert_eq!(collected(&mut neighbors), vec![]);
}

#[test]
fn concurrent_outcomes_are_the_sequential_ones() {
    for context in [present(1), absent(), present(-2)] {
        // What is started here is done at once.
        let answer = start_resolution(&context, &|vertex: i64| positive(&vertex));
        let mut sequential = TryCoercionWith::new(positive);
        assert_eq!(coercion_outcome(answer), sequential.resolve(&context));

        let value = |vertex: &i64| positive(vertex).map(FieldValue::Boolean);
        let answer = start_resolution(&context, &|vertex: i64| value(&vertex));
        let mut sequential = TryPropertyWith::new(value);
        assert_eq!(property_outcome(answer), sequential.resolve(&context));

        let answer = start_resolution(&context, &|vertex: i64| {
            positive(&vertex).map(|_| items(vec![vertex, 7]))
        });
        let expected = match context.active_vertex {
            Some(-2) => vec![Err("minus two".to_string())],
            Some(vertex) => vec![Ok(vertex), Ok(7)],
            None => vec![],
        };
        assert_eq!(collected(&mut neighbor_outcomes(answer)), expected);
    }
}
