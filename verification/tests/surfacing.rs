//! Errors on their way out of the slot.

use std::sync::atomic::{AtomicUsize, Ordering};
use std::sync::Arc;

use trustfall_errors::adapter::NeighborResolution;
use trustfall_errors::error::ExecutionError;
use trustfall_errors::error_tracking::{
    record_error, ErrorSlot, FuseNeighbors, FuseOnError, SubstituteOnError,
};
use trustfall_errors::pull::{from_fn, Pull, VertexIterator};
use trustfall_errors::surface::{surface_errors, surface_errors_paired};

type Slot = ErrorSlot<&'static str>;

fn items<'a, S: 'a, T: 'a>(items: Vec<T>) -> VertexIterator<'a, S, T> {
    let mut items = items.into_iter();
    VertexIterator::new(from_fn(move |_state: &mut S| items.next()))
}

/// Rows that report an error while the given row is made.
fn rows_failing_at(
    failing: i64,
    count: Arc<AtomicUsize>,
) -> impl Pull<Slot, i64> {
    let mut row = 0;
    from_fn(move |slot: &mut Slot| {
        count.fetch_add(1, Ordering::SeqCst);
        row += 1;
        if row == failing {
            record_error(slot, "broken");
        }
        (row <= 5).then_some(row)
    })
}

#[test]
fn rows_come_first_and_then_one_error_and_then_nothing() {
    let count = Arc::new(AtomicUsize::new(0));
    let mut results = surface_errors(rows_failing_at(3, count.clone()), None);
    assert_eq!(results.next(), Some(Ok(1)));
    assert_eq!(results.next(), Some(Ok(2)));
    assert_eq!(results.next(), Some(Err(ExecutionError::Adapter("broken"))));
    assert_eq!(results.next(), None);
    assert_eq!(results.next(), None);
    assert_eq!(count.load(Ordering::SeqCst), 3);
}

#[test]
fn rows_without_an_error_all_come() {
    let count = Arc::new(AtomicUsize::new(0));
    let mut results = surface_errors(rows_failing_at(-1, count), None);
    for row in 1..=5 {
        assert_eq!(results.next(), Some(Ok(row)));
    }
    assert_eq!(results.next(), None);
    assert_eq!(results.next(), None);
}

#[test]
fn an_error_after_the_last_row_is_still_given() {
    let count = Arc::new(AtomicUsize::new(0));
    let mut results = surface_errors(rows_failing_at(6, count), None);
    for row in 1..=5 {
        assert_eq!(results.next(), Some(Ok(row)));
    }
    assert_eq!(results.next(), Some(Err(ExecutionError::Adapter("broken"))));
    assert_eq!(results.next(), None);
}

#[test]
fn an_error_that_is_there_from_the_start_comes_before_any_row() {
    let count = Arc::new(AtomicUsize::new(0));
    let mut results = surface_errors(rows_failing_at(2, count.clone()), Some("early"));
    assert_eq!(results.next(), Some(Err(ExecutionError::Adapter("early"))));
    assert_eq!(results.next(), None);
    assert_eq!(count.load(Ordering::SeqCst), 0);
}

#[test]
fn starting_vertices_and_their_error_are_the_results() {
    let rows = FuseOnError::new(items(vec![Ok(1), Ok(2), Err("broken"), Ok(3)]));
    let mut results = surface_errors(rows, None);
    assert_eq!(results.next(), Some(Ok(1)));
    assert_eq!(results.next(), Some(Ok(2)));
    assert_eq!(results.next(), Some(Err(ExecutionError::Adapter("broken"))));
    assert_eq!(results.next(), None);
}

#[test]
fn outcomes_and_their_error_are_the_results() {
    let rows = SubstituteOnError::new(
        items(vec![('a', Ok(true)), ('b', Err("broken")), ('c', Ok(true))]),
        false,
    );
    let mut results = surface_errors(rows, None);
    assert_eq!(results.next(), Some(Ok(('a', true))));
    assert_eq!(results.next(), Some(Err(ExecutionError::Adapter("broken"))));
    assert_eq!(results.next(), None);
}

#[test]
fn edges_and_the_edge_that_failed_are_the_results() {
    let resolutions: Vec<(char, NeighborResolution<'static, Slot, i64, &'static str>)> =
        vec![('a', Ok(items(vec![Ok(1)]))), ('b', Err("no edge")), ('c', Ok(items(vec![])))];
    let mut results = surface_errors(FuseNeighbors::new(items(resolutions)), None);
    match results.next() {
        Some(Ok((context, mut neighbors))) => {
            assert_eq!(context, 'a');
            assert_eq!(neighbors.next(&mut None), Some(1));
        }
        _ => panic!("expected the first edge"),
    }
    assert!(matches!(results.next(), Some(Err(ExecutionError::Adapter("no edge")))));
    assert!(results.next().is_none());
}

#[test]
fn the_error_is_attached_to_its_context() {
    let pairs = SubstituteOnError::new(
        items(vec![('a', Ok(1)), ('b', Err("broken")), ('c', Ok(3))]),
        99,
    );
    let mut outcomes = surface_errors_paired(pairs, None);
    assert_eq!(outcomes.next(), Some(('a', Ok(1))));
    assert_eq!(outcomes.next(), Some(('b', Err("broken"))));
    assert_eq!(outcomes.next(), None);
    assert_eq!(outcomes.next(), None);
}

#[test]
fn outcomes_without_an_error_all_come_back() {
    let pairs: SubstituteOnError<_, char, i64, &'static str> =
        SubstituteOnError::new(items(vec![('a', Ok(1)), ('b', Ok(2))]), 99);
    let mut outcomes = surface_errors_paired(pairs, None);
    assert_eq!(outcomes.next(), Some(('a', Ok(1))));
    assert_eq!(outcomes.next(), Some(('b', Ok(2))));
    assert_eq!(outcomes.next(), None);
}

#[test]
fn an_error_without_a_context_at_hand_waits_in_the_slot() {
    let mut asked = 0;
    let pairs = from_fn(move |slot: &mut Slot| {
        asked += 1;
        match asked {
            1 => {
                record_error(slot, "broken");
                None
            }
            2 => Some(('a', 1)),
            _ => None,
        }
    });
    let mut outcomes = surface_errors_paired(pairs, None);
    assert_eq!(outcomes.next(), None);
    assert_eq!(outcomes.next(), Some(('a', Err("broken"))));
    assert_eq!(outcomes.next(), None);
}

#[test]
fn an_error_that_is_there_from_the_start_goes_to_the_first_context() {
    let pairs: VertexIterator<'static, Slot, (char, i64)> = items(vec![('a', 1), ('b', 2)]);
    let mut outcomes = surface_errors_paired(pairs, Some("early"));
    assert_eq!(outcomes.next(), Some(('a', Err("early"))));
    assert_eq!(outcomes.next(), None);
}

#[test]
fn the_slot_shows_the_error_until_it_is_given() {
    let pairs: VertexIterator<'static, Slot, (char, i64)> = items(vec![]);
    let mut outcomes = surface_errors_paired(pairs, Some("early"));
    assert_eq!(outcomes.next(), None);
    assert_eq!(outcomes.error_slot(), &Some("early"));

    let count = Arc::new(AtomicUsize::new(0));
    let mut results = surface_errors(rows_failing_at(1, count), Some("early"));
    assert_eq!(results.error_slot(), &Some("early"));
    assert_eq!(results.next(), Some(Err(ExecutionError::Adapter("early"))));
    assert_eq!(results.error_slot(), &None);
}

#[test]
fn the_error_stays_with_the_context_whose_pull_recorded_it() {
    let count = Arc::new(AtomicUsize::new(0));
    let counter = count.clone();
    let mut pairs = vec![("a", 1), ("b", 2), ("c", 3)].into_iter();
    let inner = from_fn(move |slot: &mut Slot| {
        counter.fetch_add(1, Ordering::SeqCst);
        let pair = pairs.next()?;
        if pair.0 == "b" {
            record_error(slot, "broken");
        }
        Some(pair)
    });
    let mut outcomes = surface_errors_paired(inner, None);
    assert_eq!(outcomes.next(), Some(("a", Ok(1))));
    assert_eq!(outcomes.next(), Some(("b", Err("broken"))));
    assert_eq!(outcomes.next(), None);
    assert_eq!(outcomes.error_slot(), &None);
    assert_eq!(count.load(Ordering::SeqCst), 2);
}
