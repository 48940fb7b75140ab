//! Errors on their way into the slot.

use std::sync::atomic::{AtomicUsize, Ordering};
use std::sync::Arc;

use trustfall_errors::adapter::{
    Adapter, AsVertex, ContextIterator, ContextOutcomeIterator, DataContext, NeighborResolution,
    ResolveEdgeInfo, ResolveInfo,
};
use trustfall_errors::error_tracking::{
    new_error_slot, record_error, ErrorSlot, ErrorTrackingAdapter, FuseNeighbors, FuseOnError,
    RawAdapter, SubstituteOnError,
};
use trustfall_errors::ir::{EdgeParameters, FieldValue};
use trustfall_errors::pull::{from_fn, Pull, VertexIterator};

type Slot = ErrorSlot<&'static str>;

fn items<'a, S: 'a, T: 'a>(items: Vec<T>) -> VertexIterator<'a, S, T> {
    let mut items = items.into_iter();
    VertexIterator::new(from_fn(move |_state: &mut S| items.next()))
}

/// The items, and how often they were asked for.
fn counted<'a, S: 'a, T: 'a>(items: Vec<T>) -> (VertexIterator<'a, S, T>, Arc<AtomicUsize>) {
    let count = Arc::new(AtomicUsize::new(0));
    let counter = count.clone();
    let mut items = items.into_iter();
    let sequence = VertexIterator::new(from_fn(move |_state: &mut S| {
        counter.fetch_add(1, Ordering::SeqCst);
        items.next()
    }));
    (sequence, count)
}

fn context(vertex: i64) -> DataContext<i64> {
    DataContext { active_vertex: Some(vertex), values: vec![] }
}

#[test]
fn a_new_slot_is_empty() {
    let slot: Slot = new_error_slot();
    assert_eq!(slot, None);
}

#[test]
fn only_the_first_error_is_kept() {
    let mut slot: Slot = new_error_slot();
    record_error(&mut slot, "first");
    assert_eq!(slot, Some("first"));
    record_error(&mut slot, "second");
    assert_eq!(slot, Some("first"));
}

#[test]
fn fusing_gives_the_values_until_the_first_error() {
    let (inner, count) = counted(vec![Ok(1), Ok(2), Err("broken"), Ok(3), Err("worse")]);
    let mut sequence = FuseOnError::new(inner);
    let mut slot: Slot = None;
    assert_eq!(sequence.next(&mut slot), Some(1));
    assert_eq!(sequence.next(&mut slot), Some(2));
    assert_eq!(slot, None);
    assert_eq!(sequence.next(&mut slot), None);
    assert_eq!(slot, Some("broken"));
    assert_eq!(sequence.next(&mut slot), None);
    assert_eq!(slot, Some("broken"));
    assert_eq!(count.load(Ordering::SeqCst), 3);
}

#[test]
fn a_fused_sequence_stays_ended_after_the_error_is_taken() {
    let mut sequence = FuseOnError::new(items(vec![Err("broken"), Ok(3)]));
    let mut slot: Slot = None;
    assert_eq!(sequence.next(&mut slot), None);
    assert_eq!(slot.take(), Some("broken"));
    assert_eq!(sequence.next(&mut slot), None);
    assert_eq!(slot, None);
}

#[test]
fn no_sequence_is_polled_against_a_recorded_error() {
    let mut slot: Slot = Some("elsewhere");

    let (inner, count) = counted(vec![Ok::<i64, &'static str>(1)]);
    assert_eq!(FuseOnError::new(inner).next(&mut slot), None);
    assert_eq!(count.load(Ordering::SeqCst), 0);

    let (inner, count) = counted(vec![('a', Ok::<i64, &'static str>(1))]);
    assert_eq!(SubstituteOnError::new(inner, 0).next(&mut slot), None);
    assert_eq!(count.load(Ordering::SeqCst), 0);

    let neighbors: NeighborResolution<'static, Slot, i64, &'static str> = Err("here");
    let (inner, count) = counted(vec![('a', neighbors)]);
    assert!(FuseNeighbors::new(inner).next(&mut slot).is_none());
    assert_eq!(count.load(Ordering::SeqCst), 0);

    assert_eq!(slot, Some("elsewhere"));
}

#[test]
fn the_context_that_failed_gets_the_substitute() {
    let (inner, count) =
        counted(vec![('a', Ok(1)), ('b', Err("broken")), ('c', Ok(3)), ('d', Err("worse"))]);
    let mut sequence = SubstituteOnError::new(inner, 99);
    let mut slot: Slot = None;
    assert_eq!(sequence.next(&mut slot), Some(('a', 1)));
    assert_eq!(slot, None);
    assert_eq!(sequence.next(&mut slot), Some(('b', 99)));
    assert_eq!(slot, Some("broken"));
    assert_eq!(sequence.next(&mut slot), None);
    assert_eq!(count.load(Ordering::SeqCst), 2);
}

#[test]
fn an_error_from_further_up_goes_before_the_own_one() {
    let mut asked = false;
    let inner = from_fn(move |slot: &mut Slot| {
        if asked {
            return None;
        }
        asked = true;
        record_error(slot, "further up");
        Some(('a', Err::<i64, &'static str>("own")))
    });
    let mut sequence = SubstituteOnError::new(inner, 0);
    let mut slot: Slot = None;
    assert_eq!(sequence.next(&mut slot), Some(('a', 0)));
    assert_eq!(slot, Some("further up"));
}

#[test]
fn neighbors_are_fused_and_no_context_follows_an_error() {
    let resolutions: Vec<(char, NeighborResolution<'static, Slot, i64, &'static str>)> = vec![
        ('a', Ok(items(vec![Ok(1), Ok(2)]))),
        ('b', Ok(items(vec![Ok(3), Err("broken"), Ok(4)]))),
        ('c', Ok(items(vec![Ok(5)]))),
    ];
    let mut sequence = FuseNeighbors::new(items(resolutions));
    let mut slot: Slot = None;

    let (context, mut neighbors) = sequence.next(&mut slot).expect("a pair");
    assert_eq!(context, 'a');
    assert_eq!(neighbors.next(&mut slot), Some(1));
    assert_eq!(neighbors.next(&mut slot), Some(2));
    assert_eq!(neighbors.next(&mut slot), None);

    let (context, mut neighbors) = sequence.next(&mut slot).expect("a pair");
    assert_eq!(context, 'b');
    assert_eq!(neighbors.next(&mut slot), Some(3));
    assert_eq!(neighbors.next(&mut slot), None);
    assert_eq!(slot, Some("broken"));
    assert_eq!(neighbors.next(&mut slot), None);

    assert!(sequence.next(&mut slot).is_none());
}

#[test]
fn an_edge_that_failed_has_no_neighbors_and_is_the_last() {
    let resolutions: Vec<(char, NeighborResolution<'static, Slot, i64, &'static str>)> =
        vec![('a', Err("no edge")), ('b', Ok(items(vec![Ok(1)])))];
    let (inner, count) = counted(resolutions);
    let mut sequence = FuseNeighbors::new(inner);
    let mut slot: Slot = None;
    let (context, mut neighbors) = sequence.next(&mut slot).expect("a pair");
    assert_eq!(context, 'a');
    assert_eq!(slot, Some("no edge"));
    assert_eq!(neighbors.next(&mut slot), None);
    assert!(sequence.next(&mut slot).is_none());
    assert_eq!(count.load(Ordering::SeqCst), 1);
}

/// Fails on every vertex whose number is negative.
struct SignedAdapter;

fn signed<T>(vertex: Option<&i64>, value: T) -> Result<T, &'static str> {
    match vertex {
        Some(vertex) if *vertex < 0 => Err("negative"),
        _ => Ok(value),
    }
}

impl<'a> Adapter<'a> for SignedAdapter {
    type Vertex = i64;
    type Error = &'static str;

    fn resolve_starting_vertices<S: 'a>(
        &self,
        _edge_name: &Arc<str>,
        _parameters: &EdgeParameters,
        _resolve_info: &ResolveInfo,
    ) -> VertexIterator<'a, S, Result<i64, &'static str>> {
        items(vec![Ok(1), Err("no more"), Ok(2)])
    }

    fn resolve_property<S: 'a, V: AsVertex<i64> + 'a>(
        &self,
        contexts: ContextIterator<'a, S, V>,
        _vertex_type: &Arc<str>,
        _property_name: &Arc<str>,
        _resolve_info: &ResolveInfo,
    ) -> ContextOutcomeIterator<'a, S, V, Result<FieldValue, &'static str>> {
        let mut contexts = contexts;
        VertexIterator::new(from_fn(move |state: &mut S| {
            let context = contexts.next(state)?;
            let outcome = signed(context.active_vertex(), FieldValue::Boolean(true));
            Some((context, outcome))
        }))
    }

    fn resolve_neighbors<S: 'a, V: AsVertex<i64> + 'a>(
        &self,
        contexts: ContextIterator<'a, S, V>,
        _vertex_type: &Arc<str>,
        _edge_name: &Arc<str>,
        _parameters: &EdgeParameters,
        _resolve_info: &ResolveEdgeInfo,
    ) -> ContextOutcomeIterator<'a, S, V, NeighborResolution<'a, S, i64, &'static str>> {
        let mut contexts = contexts;
        VertexIterator::new(from_fn(move |state: &mut S| {
            let context = contexts.next(state)?;
            let outcome = signed(context.active_vertex(), items(vec![Ok(8), Err("no ninth")]));
            Some((context, outcome))
        }))
    }

    fn resolve_coercion<S: 'a, V: AsVertex<i64> + 'a>(
        &self,
        contexts: ContextIterator<'a, S, V>,
        _vertex_type: &Arc<str>,
        _coerce_to_type: &Arc<str>,
        _resolve_info: &ResolveInfo,
    ) -> ContextOutcomeIterator<'a, S, V, Result<bool, &'static str>> {
        let mut contexts = contexts;
        VertexIterator::new(from_fn(move |state: &mut S| {
            let context = contexts.next(state)?;
            let outcome = signed(context.active_vertex(), true);
            Some((context, outcome))
        }))
    }
}

fn no_parameters() -> EdgeParameters {
    EdgeParameters { contents: Arc::new(vec![]) }
}

#[test]
fn tracked_starting_vertices_end_at_the_error() {
    let adapter = SignedAdapter;
    let tracker: ErrorTrackingAdapter<'_, SignedAdapter, &SignedAdapter> =
        ErrorTrackingAdapter::new(&adapter);
    let mut slot = new_error_slot();
    let mut vertices = tracker.resolve_starting_vertices(
        &Arc::from("All"),
        &no_parameters(),
        &ResolveInfo { vid: 1 },
    );
    assert_eq!(vertices.next(&mut slot), Some(1));
    assert_eq!(vertices.next(&mut slot), None);
    assert_eq!(slot, Some("no more"));
}

#[test]
fn tracked_properties_substitute_null() {
    let tracker = ErrorTrackingAdapter::<'_, SignedAdapter>::new(Arc::new(SignedAdapter));
    let mut slot = new_error_slot();
    let mut outcomes = tracker.resolve_property(
        items(vec![context(1), context(-1), context(2)]),
        &Arc::from("Number"),
        &Arc::from("value"),
        &ResolveInfo { vid: 1 },
    );
    assert_eq!(outcomes.next(&mut slot), Some((context(1), FieldValue::Boolean(true))));
    assert_eq!(outcomes.next(&mut slot), Some((context(-1), FieldValue::Null)));
    assert_eq!(slot, Some("negative"));
    assert_eq!(outcomes.next(&mut slot), None);
}

#[test]
fn tracked_coercions_substitute_false() {
    let tracker = ErrorTrackingAdapter::<'_, SignedAdapter>::new(Arc::new(SignedAdapter));
    let mut slot = new_error_slot();
    let mut outcomes = tracker.resolve_coercion(
        items(vec![context(1), context(-1), context(2)]),
        &Arc::from("Number"),
        &Arc::from("Prime"),
        &ResolveInfo { vid: 1 },
    );
    assert_eq!(outcomes.next(&mut slot), Some((context(1), true)));
    assert_eq!(outcomes.next(&mut slot), Some((context(-1), false)));
    assert_eq!(slot, Some("negative"));
    assert_eq!(outcomes.next(&mut slot), None);
}

#[test]
fn tracked_neighbors_record_both_layers_of_errors() {
    let tracker = ErrorTrackingAdapter::<'_, SignedAdapter>::new(Arc::new(SignedAdapter));
    let mut slot = new_error_slot();
    let mut outcomes = tracker.resolve_neighbors(
        items(vec![context(1), context(-1), context(2)]),
        &Arc::from("Number"),
        &Arc::from("successor"),
        &no_parameters(),
        &ResolveEdgeInfo { eid: 1 },
    );
    let (first, mut neighbors) = outcomes.next(&mut slot).expect("a pair");
    assert_eq!(first, context(1));
    assert_eq!(neighbors.next(&mut slot), Some(8));
    assert_eq!(neighbors.next(&mut slot), None);
    assert_eq!(slot.take(), Some("no ninth"));

    let (second, mut neighbors) = outcomes.next(&mut slot).expect("a pair");
    assert_eq!(second, context(-1));
    assert_eq!(slot, Some("negative"));
    assert_eq!(neighbors.next(&mut slot), None);
    assert!(outcomes.next(&mut slot).is_none());
}
