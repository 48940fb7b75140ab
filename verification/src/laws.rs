//! What the library comes to, said by what goes in and what comes out.

use std::convert::Infallible;
use std::sync::Arc;

use vstd::prelude::*;

use crate::adapter::{
    seen, seen_outcomes, seen_resolutions, shown_contexts, shown_outcomes, shown_resolutions,
    Adapter, AsVertex, ContextIterator, ContextOutcomeIterator, DataContext, NeighborResolution,
    ResolveEdgeInfo, ResolveInfo, Shown, ShownNeighbors, Typename,
};
use crate::basic_adapter::{answers_typenames, typename_answers, typename_value, BasicAdapter};
use crate::bridge::{
    all_gave, all_yielded, is_exhausting, Bridge, CoercionCall, NeighborsCall, PropertyCall,
    ResolveOne,
};
use crate::error::{ExecutionError, IntoRow};
use crate::error_tracking::{
    failed, failed_outcome, fused, fused_behavior, is_fused, is_resolved, is_substituted,
    law_tracked_neighbors, resolved, resolved_behavior, stops_on, substituted,
    substituted_behavior, ErrorSlot,
};
use crate::helpers::{
    is_resolution, law_neighbors_of_an_answer, law_property_rule, neighbors_or_none,
    outcome_behavior, resolves, CoercionWith, ContextOutcomes, NeighborsWith, PropertyWith,
    ResolveContext, TryCoercionWith, TryNeighborsWith, TryPropertyWith,
};
use crate::ir::{EdgeParameters, FieldValue};
use crate::pull::{
    boxed, empty_behavior, is_idle, items_of, may_follow, ok_behavior, once_behavior, replays,
    replays_idle, runs, wrapped, yielded, Behavior, Empty, Once, Pull, Pulled, VertexIterator,
};
use crate::surface::{attaches, somes, SurfaceErrors, SurfaceErrorsPaired};

verus! {

/// The vertices of a basic adapter.
pub type VertexOf<'vertex, T> = <T as BasicAdapter<'vertex>>::Vertex;

/// The error of a basic adapter.
pub type ErrorOf<'vertex, T> = <T as BasicAdapter<'vertex>>::Error;

/// A context with the resolution of an edge, in a run that tracks its error.
pub type Resolution<'vertex, C, Vertex, E> = (
    C,
    NeighborResolution<'vertex, ErrorSlot<E>, Vertex, E>,
);

/// The vertex of a context is the one that its active value stands for, and there is none without
/// an active value: nothing else that the context holds matters.
pub proof fn law_the_vertex_of_a_context<V: AsVertex<Vertex>, Vertex>(
    context: DataContext<V>,
    other: DataContext<V>,
)
    ensures
        context.active_vertex matches Some(value) ==> context.vertex::<Vertex>()
            == AsVertex::<Vertex>::vertex(&value),
        context.active_vertex is None ==> context.vertex::<Vertex>() is None,
        context.active_vertex == other.active_vertex ==> context.vertex::<Vertex>()
            == other.vertex::<Vertex>(),
{
}

/// A vertex stands for itself.
pub proof fn law_a_vertex_stands_for_itself<Vertex>(vertex: Vertex)
    ensures
        AsVertex::<Vertex>::vertex(&vertex) == Some(vertex),
{
}

/// A result that holds a row gives that row.
pub proof fn law_a_row_is_given<Row>(row: Row)
    ensures
        Ok::<Row, ExecutionError<Infallible>>(row).row() == Some(row),
{
}

/// The sequence can be pulled, is at its start, and gives nothing at any pull.
pub open spec fn is_without_items<'vertex, S, T>(sequence: VertexIterator<'vertex, S, T>) -> bool {
    &&& sequence.ready()
    &&& sequence.log().len() == 0
    &&& forall|log: Seq<Pulled<S, T>>, i: int|
        #![trigger (sequence.behavior())(log), log[i]]
        (sequence.behavior())(log) && 0 <= i < log.len() ==> log[i].item is None && log[i].after
            == log[i].before
}

/// A property is what the resolver returns for the active vertex, wrapped in `Ok`, and `Null`
/// without an active vertex.
pub proof fn law_properties_ask_the_resolver<
    V: AsVertex<Vertex>,
    Vertex,
    E,
    R: FnMut(&Vertex) -> FieldValue,
>(resolve: PropertyWith<Vertex, R>, context: DataContext<V>, outcome: Result<FieldValue, E>)
    requires
        resolve.gives(context, outcome),
    ensures
        match context.active_vertex {
            Some(value) => match AsVertex::<Vertex>::vertex(&value) {
                Some(vertex) => outcome matches Ok(given) && call_ensures(
                    resolve.resolver(),
                    (&vertex,),
                    given,
                ),
                None => outcome == Ok::<_, E>(FieldValue::Null),
            },
            None => outcome == Ok::<_, E>(FieldValue::Null),
        },
{
}

/// A fallible property is what the resolver returns for the active vertex, and `Null` without an
/// active vertex.
pub proof fn law_fallible_properties_ask_the_resolver<
    V: AsVertex<Vertex>,
    Vertex,
    E,
    R: FnMut(&Vertex) -> Result<FieldValue, E>,
>(resolve: TryPropertyWith<Vertex, R>, context: DataContext<V>, outcome: Result<FieldValue, E>)
    requires
        resolve.gives(context, outcome),
    ensures
        match context.active_vertex {
            Some(value) => match AsVertex::<Vertex>::vertex(&value) {
                Some(vertex) => call_ensures(resolve.resolver(), (&vertex,), outcome),
                None => outcome == Ok::<_, E>(FieldValue::Null),
            },
            None => outcome == Ok::<_, E>(FieldValue::Null),
        },
{
}

/// A coercion is what the resolver returns for the active vertex, wrapped in `Ok`, and `false`
/// without an active vertex.
pub proof fn law_coercions_ask_the_resolver<
    V: AsVertex<Vertex>,
    Vertex,
    E,
    R: FnMut(&Vertex) -> bool,
>(resolve: CoercionWith<Vertex, R>, context: DataContext<V>, outcome: Result<bool, E>)
    requires
        resolve.gives(context, outcome),
    ensures
        match context.active_vertex {
            Some(value) => match AsVertex::<Vertex>::vertex(&value) {
                Some(vertex) => outcome matches Ok(given) && call_ensures(
                    resolve.resolver(),
                    (&vertex,),
                    given,
                ),
                None => outcome == Ok::<_, E>(false),
            },
            None => outcome == Ok::<_, E>(false),
        },
{
}

/// A fallible coercion is what the resolver returns for the active vertex, and `false` without an
/// active vertex.
pub proof fn law_fallible_coercions_ask_the_resolver<
    V: AsVertex<Vertex>,
    Vertex,
    E,
    R: FnMut(&Vertex) -> Result<bool, E>,
>(resolve: TryCoercionWith<Vertex, R>, context: DataContext<V>, outcome: Result<bool, E>)
    requires
        resolve.gives(context, outcome),
    ensures
        match context.active_vertex {
            Some(value) => match AsVertex::<Vertex>::vertex(&value) {
                Some(vertex) => call_ensures(resolve.resolver(), (&vertex,), outcome),
                None => outcome == Ok::<_, E>(false),
            },
            None => outcome == Ok::<_, E>(false),
        },
{
}

/// The neighbors are those that the resolver returns for the active vertex, each wrapped in `Ok`,
/// and none without an active vertex.
pub proof fn law_neighbors_ask_the_resolver<
    'vertex,
    V: AsVertex<Vertex>,
    Vertex: 'vertex,
    E: 'vertex,
    S: 'vertex,
    R: FnMut(&Vertex) -> VertexIterator<'vertex, S, Vertex>,
>(
    resolve: NeighborsWith<Vertex, R>,
    context: DataContext<V>,
    outcome: VertexIterator<'vertex, S, Result<Vertex, E>>,
)
    requires
        resolve.gives(context, outcome),
    ensures
        match context.active_vertex {
            Some(value) => match AsVertex::<Vertex>::vertex(&value) {
                Some(vertex) => exists|neighbors: VertexIterator<'vertex, S, Vertex>|
                    {
                        &&& #[trigger] call_ensures(resolve.resolver(), (&vertex,), neighbors)
                        &&& outcome.log().len() == 0
                        &&& outcome.behavior() == ok_behavior::<S, Vertex, E>(
                            neighbors.behavior(),
                            neighbors.log(),
                        )
                        &&& neighbors.ready() ==> outcome.ready()
                    },
                None => is_without_items(outcome),
            },
            None => is_without_items(outcome),
        },
{
    Empty::<S, Result<Vertex, E>>::law_nothing_comes();
    assert forall|neighbors: VertexIterator<'vertex, S, Vertex>|
        call_ensures(resolve.resolver(), (&context.vertex::<Vertex>()->0,), neighbors) implies (
    #[trigger] neighbors_or_none(Some(Ok::<_, E>(neighbors)))).log().len() == 0 && (
    neighbors_or_none(Some(Ok::<_, E>(neighbors)))).behavior() == ok_behavior::<
        S,
        Vertex,
        E,
    >(neighbors.behavior(), neighbors.log()) && (neighbors.ready() ==> (
    neighbors_or_none(Some(Ok::<_, E>(neighbors)))).ready()) by {
        law_neighbors_of_an_answer(Some(Ok::<_, E>(neighbors)));
    }
}

/// The fallible neighbors are those that the resolver returns for the active vertex, and none
/// without an active vertex.
pub proof fn law_fallible_neighbors_ask_the_resolver<
    'vertex,
    V: AsVertex<Vertex>,
    Vertex: 'vertex,
    E: 'vertex,
    S: 'vertex,
    R: FnMut(&Vertex) -> VertexIterator<'vertex, S, Result<Vertex, E>>,
>(
    resolve: TryNeighborsWith<Vertex, R>,
    context: DataContext<V>,
    outcome: VertexIterator<'vertex, S, Result<Vertex, E>>,
)
    requires
        resolve.gives(context, outcome),
    ensures
        match context.active_vertex {
            Some(value) => match AsVertex::<Vertex>::vertex(&value) {
                Some(vertex) => call_ensures(resolve.resolver(), (&vertex,), outcome),
                None => is_without_items(outcome),
            },
            None => is_without_items(outcome),
        },
{
    Empty::<S, Result<Vertex, E>>::law_nothing_comes();
}

/// A bridge has, for each context that was supplied, what the adapter returned for the sequence of
/// that context alone, and for the vertex type, the property and the hints of the bridge.
pub proof fn law_a_bridge_asks_for_properties<
    'vertex,
    A: Adapter<'vertex>,
    S: 'vertex,
    V: AsVertex<A::Vertex> + 'vertex,
>(
    bridge: Bridge<
        'vertex,
        S,
        V,
        Result<FieldValue, A::Error>,
        PropertyCall<A>,
    >,
    i: int,
)
    requires
        bridge.ready(),
        0 <= i < bridge.contexts().len(),
    ensures
        call_ensures(
            A::resolve_property::<S, V>,
            (
                &*bridge.call().adapter,
                boxed(Once::fresh(bridge.contexts()[i])),
                &bridge.call().vertex_type,
                &bridge.call().property_name,
                &bridge.call().resolve_info,
            ),
            bridge.given()[i],
        ),
{
    bridge.law_one_context_at_a_time();
    assert(bridge.call().gives(bridge.contexts()[i], bridge.given()[i]));
}

/// A bridge has, for each context that was supplied, what the adapter returned for the sequence of
/// that context alone, and for the vertex type, the edge, the parameters and the hints of the
/// bridge.
pub proof fn law_a_bridge_asks_for_neighbors<
    'vertex,
    A: Adapter<'vertex>,
    S: 'vertex,
    V: AsVertex<A::Vertex> + 'vertex,
>(
    bridge: Bridge<
        'vertex,
        S,
        V,
        NeighborResolution<'vertex, S, A::Vertex, A::Error>,
        NeighborsCall<A>,
    >,
    i: int,
)
    requires
        bridge.ready(),
        0 <= i < bridge.contexts().len(),
    ensures
        call_ensures(
            A::resolve_neighbors::<S, V>,
            (
                &*bridge.call().adapter,
                boxed(Once::fresh(bridge.contexts()[i])),
                &bridge.call().vertex_type,
                &bridge.call().edge_name,
                &bridge.call().parameters,
                &bridge.call().resolve_info,
            ),
            bridge.given()[i],
        ),
{
    bridge.law_one_context_at_a_time();
    assert(bridge.call().gives(bridge.contexts()[i], bridge.given()[i]));
}

/// A bridge has, for each context that was supplied, what the adapter returned for the sequence of
/// that context alone, and for the two types and the hints of the bridge.
pub proof fn law_a_bridge_asks_for_coercions<
    'vertex,
    A: Adapter<'vertex>,
    S: 'vertex,
    V: AsVertex<A::Vertex> + 'vertex,
>(
    bridge: Bridge<
        'vertex,
        S,
        V,
        Result<bool, A::Error>,
        CoercionCall<A>,
    >,
    i: int,
)
    requires
        bridge.ready(),
        0 <= i < bridge.contexts().len(),
    ensures
        call_ensures(
            A::resolve_coercion::<S, V>,
            (
                &*bridge.call().adapter,
                boxed(Once::fresh(bridge.contexts()[i])),
                &bridge.call().vertex_type,
                &bridge.call().coerce_to_type,
                &bridge.call().resolve_info,
            ),
            bridge.given()[i],
        ),
{
    bridge.law_one_context_at_a_time();
    assert(bridge.call().gives(bridge.contexts()[i], bridge.given()[i]));
}

/// The rounds of a bridge, pull by pull: each comes from what the resolver gave for its context,
/// gives an item at every pull but the last, and nothing at the last; the items of the bridge are
/// those of the rounds, and of the round at hand, in order.
pub proof fn law_the_rounds_of_a_bridge<'vertex, S, V, O, P: ResolveOne<'vertex, S, V, O>>(
    bridge: Bridge<'vertex, S, V, O, P>,
)
    requires
        bridge.ready(),
    ensures
        forall|i: int|
            0 <= i < bridge.rounds().len() ==> {
                let round = #[trigger] bridge.rounds()[i];
                let given = bridge.given()[i];
                &&& round.len() > 0
                &&& (given.behavior())(given.log() + round)
                &&& round.last().item is None
                &&& forall|j: int|
                    0 <= j < round.len() - 1 ==> (#[trigger] round[j]).item is Some
            },
        forall|j: int|
            0 <= j < bridge.round().len() ==> (#[trigger] bridge.round()[j]).item is Some,
        bridge.round().len() > 0 ==> !bridge.waiting() && (bridge.given().last().behavior())(
            bridge.given().last().log() + bridge.round(),
        ),
        bridge.items() == bridge.rounds().map_values(
            |round: Seq<Pulled<S, (DataContext<V>, O)>>|
                round.drop_last().map_values(|pull: Pulled<S, (DataContext<V>, O)>| pull.item->0),
        ).flatten() + bridge.round().map_values(
            |pull: Pulled<S, (DataContext<V>, O)>| pull.item->0,
        ),
{
    bridge.law_one_context_at_a_time();
    assert forall|i: int| 0 <= i < bridge.rounds().len() implies {
        let round = #[trigger] bridge.rounds()[i];
        let given = bridge.given()[i];
        &&& round.len() > 0
        &&& (given.behavior())(given.log() + round)
        &&& round.last().item is None
        &&& forall|j: int| 0 <= j < round.len() - 1 ==> (#[trigger] round[j]).item is Some
    } by {
        let round = bridge.rounds()[i];
        assert forall|j: int| 0 <= j < round.len() - 1 implies (#[trigger] round[j]).item
            is Some by {
            assert(round.drop_last()[j].item is Some);
        }
    }
    lemma_items_of_rounds(bridge.rounds());
    lemma_items_given(bridge.round());
}

/// Pulls that all gave an item yield those items.
proof fn lemma_items_given<S, T>(pulls: Seq<Pulled<S, T>>)
    requires
        all_gave(pulls),
    ensures
        yielded(pulls) == pulls.map_values(|pull: Pulled<S, T>| pull.item->0),
    decreases pulls.len(),
{
    if pulls.len() > 0 {
        assert forall|i: int| 0 <= i < pulls.drop_last().len() implies (
        #[trigger] pulls.drop_last()[i]).item is Some by {
            assert(pulls[i].item is Some);
        }
        lemma_items_given(pulls.drop_last());
        assert(pulls[pulls.len() - 1].item is Some);
    }
    assert(yielded(pulls) =~= pulls.map_values(|pull: Pulled<S, T>| pull.item->0));
}

/// Rounds that each end with the first pull that gives nothing yield what the other pulls gave.
proof fn lemma_items_of_rounds<S, T>(rounds: Seq<Seq<Pulled<S, T>>>)
    requires
        forall|i: int| 0 <= i < rounds.len() ==> is_exhausting(#[trigger] rounds[i]),
    ensures
        all_yielded(rounds) == rounds.map_values(
            |round: Seq<Pulled<S, T>>|
                round.drop_last().map_values(|pull: Pulled<S, T>| pull.item->0),
        ).flatten(),
    decreases rounds.len(),
{
    let gave = |round: Seq<Pulled<S, T>>|
        round.drop_last().map_values(|pull: Pulled<S, T>| pull.item->0);
    let items = rounds.map_values(gave);
    if rounds.len() == 0 {
        assert(items =~= Seq::<Seq<T>>::empty());
        items.lemma_flatten_and_flatten_alt_are_equivalent();
    } else {
        let last = rounds.last();
        assert(is_exhausting(rounds[rounds.len() - 1]));
        lemma_items_of_rounds(rounds.drop_last());
        lemma_items_given(last.drop_last());
        items.lemma_flatten_and_flatten_alt_are_equivalent();
        items.drop_last().lemma_flatten_and_flatten_alt_are_equivalent();
        assert(items.drop_last() =~= rounds.drop_last().map_values(gave));
    }
}

/// The vertices that an adapter finds along a starting edge are those that its basic adapter may
/// give for the same edge and the same parameters, whatever the hints.
pub proof fn law_a_basic_adapter_gives_the_starting_vertices<
    'vertex,
    T: BasicAdapter<'vertex>,
    S: 'vertex,
>(
    adapter: &T,
    edge_name: &Arc<str>,
    parameters: &EdgeParameters,
    resolve_info: &ResolveInfo,
    vertices: VertexIterator<'vertex, S, Result<VertexOf<'vertex, T>, ErrorOf<'vertex, T>>>,
    pulls: Seq<Pulled<S, Result<VertexOf<'vertex, T>, ErrorOf<'vertex, T>>>>,
)
    requires
        call_ensures(
            <T as Adapter<'vertex>>::resolve_starting_vertices::<S>,
            (adapter, edge_name, parameters, resolve_info),
            vertices,
        ),
        pulls.len() > 0 ==> (vertices.behavior())(vertices.log() + pulls),
    ensures
        vertices.ready(),
        BasicAdapter::answers_starting(adapter, (**edge_name)@, *parameters)(
            pulls.map_values(|pull: Pulled<S, Result<_, _>>| pull.item),
        ),
{
    let items = pulls.map_values(|pull: Pulled<S, Result<_, _>>| pull.item);
    assert(may_follow(vertices.behavior(), vertices.log(), pulls));
    assert(items == items_of(pulls));
    assert(runs(vertices)(items));
}

/// A resolver can see of the contexts every run that they may go on with: for each context its
/// active vertex and the values that it gathered.
pub proof fn law_contexts_are_shown<'vertex, S, V: AsVertex<Vertex>, Vertex>(
    contexts: ContextIterator<'vertex, S, V>,
    pulls: Seq<Pulled<S, DataContext<V>>>,
    items: Seq<Option<Shown<Vertex>>>,
)
    requires
        pulls.len() > 0 ==> (contexts.behavior())(contexts.log() + pulls),
        items.len() == pulls.len(),
        forall|i: int|
            0 <= i < items.len() ==> #[trigger] items[i] == match pulls[i].item {
                Some(context) => Some(
                    (
                        match context.active_vertex {
                            Some(value) => AsVertex::<Vertex>::vertex(&value),
                            None => None,
                        },
                        context.values@,
                    ),
                ),
                None => None,
            },
    ensures
        shown_contexts::<S, V, Vertex>(contexts)(items),
{
    assert(may_follow(contexts.behavior(), contexts.log(), pulls));
    assert(runs(contexts)(items_of(pulls)));
    assert(items =~= seen::<V, Vertex>(items_of(pulls)));
}

/// A resolver can see of the contexts nothing but the runs that they may go on with.
pub proof fn law_only_contexts_are_shown<'vertex, S, V: AsVertex<Vertex>, Vertex>(
    contexts: ContextIterator<'vertex, S, V>,
    items: Seq<Option<Shown<Vertex>>>,
)
    requires
        shown_contexts::<S, V, Vertex>(contexts)(items),
    ensures
        exists|pulls: Seq<Pulled<S, DataContext<V>>>|
            #![trigger contexts.log() + pulls]
            {
                &&& pulls.len() > 0 ==> (contexts.behavior())(contexts.log() + pulls)
                &&& items.len() == pulls.len()
                &&& forall|i: int|
                    0 <= i < items.len() ==> #[trigger] items[i] == match pulls[i].item {
                        Some(context) => Some(
                            (
                                match context.active_vertex {
                                    Some(value) => AsVertex::<Vertex>::vertex(&value),
                                    None => None,
                                },
                                context.values@,
                            ),
                        ),
                        None => None,
                    }
            },
{
    let run = choose|run: Seq<Option<DataContext<V>>>| #[trigger]
        runs(contexts)(run) && items == seen::<V, Vertex>(run);
    assert(runs(contexts)(run));
    let pulls = choose|pulls: Seq<Pulled<S, DataContext<V>>>| #[trigger]
        may_follow(contexts.behavior(), contexts.log(), pulls) && run == items_of(pulls);
    let all = contexts.log() + pulls;
    assert(pulls.len() > 0 ==> (contexts.behavior())(all));
    assert(items.len() == pulls.len());
}

/// A property, other than `__typename`, that an adapter resolves is what its basic adapter may give
/// for the same contexts, the same vertex type and the same property, whatever the hints.
pub proof fn law_a_basic_adapter_gives_the_properties<
    'vertex,
    T: BasicAdapter<'vertex>,
    S: 'vertex,
    V: AsVertex<VertexOf<'vertex, T>> + 'vertex,
>(
    adapter: &T,
    contexts: ContextIterator<'vertex, S, V>,
    vertex_type: &Arc<str>,
    property_name: &Arc<str>,
    resolve_info: &ResolveInfo,
    outcomes: ContextOutcomeIterator<'vertex, S, V, Result<FieldValue, ErrorOf<'vertex, T>>>,
    pulls: Seq<Pulled<S, (DataContext<V>, Result<FieldValue, ErrorOf<'vertex, T>>)>>,
    items: Seq<Option<(Shown<VertexOf<'vertex, T>>, Result<FieldValue, ErrorOf<'vertex, T>>)>>,
)
    requires
        call_ensures(
            <T as Adapter<'vertex>>::resolve_property::<S, V>,
            (adapter, contexts, vertex_type, property_name, resolve_info),
            outcomes,
        ),
        (**property_name)@ != "__typename"@,
        pulls.len() > 0 ==> (outcomes.behavior())(outcomes.log() + pulls),
        items.len() == pulls.len(),
        forall|i: int|
            0 <= i < items.len() ==> #[trigger] items[i] == match pulls[i].item {
                Some((context, outcome)) => Some(
                    (
                        (
                            match context.active_vertex {
                                Some(value) => AsVertex::<VertexOf<'vertex, T>>::vertex(&value),
                                None => None,
                            },
                            context.values@,
                        ),
                        outcome,
                    ),
                ),
                None => None,
            },
    ensures
        outcomes.ready(),
        BasicAdapter::answers_property(
            adapter,
            shown_contexts(contexts),
            (**vertex_type)@,
            (**property_name)@,
        )(items),
{
    assert(may_follow(outcomes.behavior(), outcomes.log(), pulls));
    let run = items_of(pulls);
    assert(runs(outcomes)(run));
    assert(items =~= seen_outcomes::<V, VertexOf<'vertex, T>, _>(run));
    assert(shown_outcomes::<S, V, VertexOf<'vertex, T>, _>(outcomes)(items));
}

/// The neighbors that an adapter resolves are what its basic adapter may give for the same
/// contexts, the same vertex type, the same edge and the same parameters, whatever the hints.
pub proof fn law_a_basic_adapter_gives_the_neighbors<
    'vertex,
    T: BasicAdapter<'vertex>,
    S: 'vertex,
    V: AsVertex<VertexOf<'vertex, T>> + 'vertex,
>(
    adapter: &T,
    contexts: ContextIterator<'vertex, S, V>,
    vertex_type: &Arc<str>,
    edge_name: &Arc<str>,
    parameters: &EdgeParameters,
    resolve_info: &ResolveEdgeInfo,
    outcomes: ContextOutcomeIterator<
        'vertex,
        S,
        V,
        NeighborResolution<'vertex, S, VertexOf<'vertex, T>, ErrorOf<'vertex, T>>,
    >,
    pulls: Seq<
        Pulled<
            S,
            (
                DataContext<V>,
                NeighborResolution<'vertex, S, VertexOf<'vertex, T>, ErrorOf<'vertex, T>>,
            ),
        >,
    >,
    items: Seq<
        Option<
            (
                Shown<VertexOf<'vertex, T>>,
                ShownNeighbors<VertexOf<'vertex, T>, ErrorOf<'vertex, T>>,
            ),
        >,
    >,
)
    requires
        call_ensures(
            <T as Adapter<'vertex>>::resolve_neighbors::<S, V>,
            (adapter, contexts, vertex_type, edge_name, parameters, resolve_info),
            outcomes,
        ),
        pulls.len() > 0 ==> (outcomes.behavior())(outcomes.log() + pulls),
        items.len() == pulls.len(),
        forall|i: int|
            0 <= i < items.len() ==> #[trigger] items[i] == match pulls[i].item {
                Some((context, outcome)) => Some(
                    (
                        (
                            match context.active_vertex {
                                Some(value) => AsVertex::<VertexOf<'vertex, T>>::vertex(&value),
                                None => None,
                            },
                            context.values@,
                        ),
                        match outcome {
                                Ok(neighbors) => Ok(runs(neighbors)),
                                Err(error) => Err(error),
                            },
                    ),
                ),
                None => None,
            },
    ensures
        outcomes.ready(),
        BasicAdapter::answers_neighbors(
            adapter,
            shown_contexts(contexts),
            (**vertex_type)@,
            (**edge_name)@,
            *parameters,
        )(items),
{
    assert(may_follow(outcomes.behavior(), outcomes.log(), pulls));
    let run = items_of(pulls);
    assert(runs(outcomes)(run));
    assert(items =~= seen_resolutions::<S, V, VertexOf<'vertex, T>, ErrorOf<'vertex, T>>(run));
    assert(shown_resolutions(outcomes)(items));
}

/// A coercion that an adapter tests is what its basic adapter may give for the same contexts, the
/// same vertex type and the same target type, whatever the hints.
pub proof fn law_a_basic_adapter_gives_the_coercions<
    'vertex,
    T: BasicAdapter<'vertex>,
    S: 'vertex,
    V: AsVertex<VertexOf<'vertex, T>> + 'vertex,
>(
    adapter: &T,
    contexts: ContextIterator<'vertex, S, V>,
    vertex_type: &Arc<str>,
    coerce_to_type: &Arc<str>,
    resolve_info: &ResolveInfo,
    outcomes: ContextOutcomeIterator<'vertex, S, V, Result<bool, ErrorOf<'vertex, T>>>,
    pulls: Seq<Pulled<S, (DataContext<V>, Result<bool, ErrorOf<'vertex, T>>)>>,
    items: Seq<Option<(Shown<VertexOf<'vertex, T>>, Result<bool, ErrorOf<'vertex, T>>)>>,
)
    requires
        call_ensures(
            <T as Adapter<'vertex>>::resolve_coercion::<S, V>,
            (adapter, contexts, vertex_type, coerce_to_type, resolve_info),
            outcomes,
        ),
        pulls.len() > 0 ==> (outcomes.behavior())(outcomes.log() + pulls),
        items.len() == pulls.len(),
        forall|i: int|
            0 <= i < items.len() ==> #[trigger] items[i] == match pulls[i].item {
                Some((context, outcome)) => Some(
                    (
                        (
                            match context.active_vertex {
                                Some(value) => AsVertex::<VertexOf<'vertex, T>>::vertex(&value),
                                None => None,
                            },
                            context.values@,
                        ),
                        outcome,
                    ),
                ),
                None => None,
            },
    ensures
        outcomes.ready(),
        BasicAdapter::answers_coercion(
            adapter,
            shown_contexts(contexts),
            (**vertex_type)@,
            (**coerce_to_type)@,
        )(items),
{
    assert(may_follow(outcomes.behavior(), outcomes.log(), pulls));
    let run = items_of(pulls);
    assert(runs(outcomes)(run));
    assert(items =~= seen_outcomes::<V, VertexOf<'vertex, T>, _>(run));
    assert(shown_outcomes::<S, V, VertexOf<'vertex, T>, _>(outcomes)(items));
}

/// The property `__typename` that an adapter resolves is, for one context after the other, the name
/// that the active vertex gives for its own type, and `Null` without an active vertex, but for what
/// its basic adapter may give besides, for the same contexts and the same vertex type.
pub proof fn law_a_basic_adapter_names_the_types<
    'vertex,
    T: BasicAdapter<'vertex>,
    S: 'vertex,
    V: AsVertex<VertexOf<'vertex, T>> + 'vertex,
>(
    adapter: &T,
    contexts: ContextIterator<'vertex, S, V>,
    vertex_type: &Arc<str>,
    property_name: &Arc<str>,
    resolve_info: &ResolveInfo,
    outcomes: ContextOutcomeIterator<'vertex, S, V, Result<FieldValue, ErrorOf<'vertex, T>>>,
    pulls: Seq<Pulled<S, (DataContext<V>, Result<FieldValue, ErrorOf<'vertex, T>>)>>,
    items: Seq<Option<(Shown<VertexOf<'vertex, T>>, Result<FieldValue, ErrorOf<'vertex, T>>)>>,
)
    requires
        call_ensures(
            <T as Adapter<'vertex>>::resolve_property::<S, V>,
            (adapter, contexts, vertex_type, property_name, resolve_info),
            outcomes,
        ),
        (**property_name)@ == "__typename"@,
        pulls.len() > 0 ==> (outcomes.behavior())(outcomes.log() + pulls),
        items.len() == pulls.len(),
        forall|i: int|
            0 <= i < items.len() ==> #[trigger] items[i] == match pulls[i].item {
                Some((context, outcome)) => Some(
                    (
                        (
                            match context.active_vertex {
                                Some(value) => AsVertex::<VertexOf<'vertex, T>>::vertex(&value),
                                None => None,
                            },
                            context.values@,
                        ),
                        outcome,
                    ),
                ),
                None => None,
            },
        !BasicAdapter::answers_typename(
            adapter,
            shown_contexts(contexts),
            (**vertex_type)@,
        )(items),
    ensures
        outcomes.ready(),
        exists|polls: Seq<Pulled<S, DataContext<V>>>|
            #![trigger contexts.log() + polls]
            {
                &&& polls.len() > 0 ==> (contexts.behavior())(contexts.log() + polls)
                &&& polls.len() == pulls.len()
                &&& forall|i: int|
                    0 <= i < pulls.len() ==> match (#[trigger] polls[i]).item {
                        Some(context) => pulls[i].item matches Some((kept, outcome)) && {
                            &&& kept.vertex::<VertexOf<'vertex, T>>() == context.vertex::<
                                VertexOf<'vertex, T>,
                            >()
                            &&& kept.values@ == context.values@
                            &&& match context.vertex::<VertexOf<'vertex, T>>() {
                                Some(vertex) => outcome matches Ok(FieldValue::String(text))
                                    && exists|name: &'static str| #[trigger]
                                    call_ensures(
                                        <VertexOf<'vertex, T> as Typename>::typename,
                                        (&vertex,),
                                        name,
                                    ) && text@ == name@,
                                None => outcome == Ok::<_, ErrorOf<'vertex, T>>(FieldValue::Null),
                            }
                        },
                        None => pulls[i].item is None,
                    }
            },
{
    assert(may_follow(outcomes.behavior(), outcomes.log(), pulls));
    let run = items_of(pulls);
    assert(runs(outcomes)(run));
    assert(items =~= seen_outcomes::<V, VertexOf<'vertex, T>, _>(run));
    assert(shown_outcomes::<S, V, VertexOf<'vertex, T>, _>(outcomes)(items));
    let answers = typename_answers::<VertexOf<'vertex, T>, ErrorOf<'vertex, T>>(
        shown_contexts(contexts),
    );
    assert(answers(items));
    let shown = choose|shown: Seq<Option<Shown<VertexOf<'vertex, T>>>>| #[trigger]
        shown_contexts(contexts)(shown) && answers_typenames(shown, items);
    let given = choose|run: Seq<Option<DataContext<V>>>| #[trigger]
        runs(contexts)(run) && shown == seen::<V, VertexOf<'vertex, T>>(run);
    assert(runs(contexts)(given));
    let polls = choose|polls: Seq<Pulled<S, DataContext<V>>>| #[trigger]
        may_follow(contexts.behavior(), contexts.log(), polls) && given == items_of(polls);
    assert forall|i: int| 0 <= i < pulls.len() implies match (#[trigger] polls[i]).item {
        Some(context) => pulls[i].item matches Some((kept, outcome)) && {
            &&& kept.vertex::<VertexOf<'vertex, T>>() == context.vertex::<VertexOf<'vertex, T>>()
            &&& kept.values@ == context.values@
            &&& match context.vertex::<VertexOf<'vertex, T>>() {
                Some(vertex) => outcome matches Ok(FieldValue::String(text)) && exists|
                    name: &'static str,
                | #[trigger]
                    call_ensures(<VertexOf<'vertex, T> as Typename>::typename, (&vertex,), name)
                        && text@ == name@,
                None => outcome == Ok::<_, ErrorOf<'vertex, T>>(FieldValue::Null),
            }
        },
        None => pulls[i].item is None,
    } by {
        assert(items[i] == seen_outcomes::<V, VertexOf<'vertex, T>, _>(run)[i]);
        assert(given[i] == polls[i].item);
        assert(run[i] == pulls[i].item);
    }
    let all = contexts.log() + polls;
    assert(polls.len() > 0 ==> (contexts.behavior())(all));
    assert(polls.len() == pulls.len());
}

/// The outcomes of contexts come from a run of the contexts, pull by pull: each context comes back
/// with an outcome that is given for it, and where no context comes, nothing does.
pub proof fn law_outcomes_come_from_the_contexts<S, V, O, P: ResolveContext<V, O>>(
    resolve: P,
    source: Behavior<S, DataContext<V>>,
    base: Seq<Pulled<S, DataContext<V>>>,
    log: Seq<Pulled<S, (DataContext<V>, O)>>,
)
    requires
        outcome_behavior(resolve, source, base)(log),
    ensures
        exists|polls: Seq<Pulled<S, DataContext<V>>>|
            #![trigger base + polls]
            {
                &&& polls.len() > 0 ==> source(base + polls)
                &&& polls.len() == log.len()
                &&& forall|i: int|
                    0 <= i < log.len() ==> {
                        &&& (#[trigger] polls[i]).before == log[i].before
                        &&& polls[i].after == log[i].after
                        &&& match polls[i].item {
                            Some(context) => log[i].item matches Some((kept, outcome)) && kept
                                == context && resolve.gives(context, outcome),
                            None => log[i].item is None,
                        }
                    }
            },
{
    let polls = choose|polls: Seq<Pulled<S, DataContext<V>>>| #[trigger]
        may_follow(source, base, polls) && is_resolution(resolve, log, polls);
    let all = base + polls;
    assert(polls.len() > 0 ==> source(all));
    assert forall|i: int| 0 <= i < log.len() implies {
        &&& (#[trigger] polls[i]).before == log[i].before
        &&& polls[i].after == log[i].after
        &&& match polls[i].item {
            Some(context) => log[i].item matches Some((kept, outcome)) && kept == context
                && resolve.gives(context, outcome),
            None => log[i].item is None,
        }
    } by {
        assert(log[i] == log[i]);
        assert(resolves(resolve, polls[i], log[i].item));
    }
}

/// Outcomes that were pulled are those of the contexts that were pulled for them, one for one.
pub proof fn law_the_outcomes_that_were_pulled<
    C: Pull<S, DataContext<V>>,
    S,
    V,
    O,
    P: ResolveContext<V, O>,
>(outcomes: ContextOutcomes<C, S, V, O, P>, i: int)
    requires
        outcomes.ready(),
        0 <= i < outcomes.log().len(),
    ensures
        outcomes.log().len() == outcomes.polls().len(),
        outcomes.contexts().log() == outcomes.base() + outcomes.polls(),
        outcomes.log()[i].before == outcomes.polls()[i].before,
        outcomes.log()[i].after == outcomes.polls()[i].after,
        match outcomes.polls()[i].item {
            Some(context) => outcomes.log()[i].item matches Some((kept, outcome)) && kept == context
                && outcomes.resolve().gives(context, outcome),
            None => outcomes.log()[i].item is None,
        },
{
    outcomes.law_one_outcome_for_each_context();
    outcomes.law_contexts_were_polled();
    let item = outcomes.log()[i].item;
    assert(resolves(outcomes.resolve(), outcomes.polls()[i], item));
}

/// Items wrapped in `Ok` come from a run of the plain items, pull by pull: a plain item comes as
/// `Ok` of it, and where none comes, nothing does.
pub proof fn law_wrapped_items_come_from_the_plain_ones<S, T, E>(
    source: Behavior<S, T>,
    base: Seq<Pulled<S, T>>,
    log: Seq<Pulled<S, Result<T, E>>>,
)
    requires
        ok_behavior::<S, T, E>(source, base)(log),
    ensures
        exists|polls: Seq<Pulled<S, T>>|
            #![trigger base + polls]
            {
                &&& polls.len() > 0 ==> source(base + polls)
                &&& polls.len() == log.len()
                &&& forall|i: int|
                    0 <= i < log.len() ==> {
                        &&& (#[trigger] polls[i]).before == log[i].before
                        &&& polls[i].after == log[i].after
                        &&& match polls[i].item {
                            Some(value) => log[i].item == Some(Ok::<T, E>(value)),
                            None => log[i].item is None,
                        }
                    }
            },
{
    let polls = choose|polls: Seq<Pulled<S, T>>| #[trigger]
        may_follow(source, base, polls) && log == polls.map_values(
            |poll: Pulled<S, T>| wrapped::<S, T, E>(poll),
        );
    let all = base + polls;
    assert(polls.len() > 0 ==> source(all));
    assert(polls.len() == log.len());
    assert forall|i: int| 0 <= i < log.len() implies {
        &&& (#[trigger] polls[i]).before == log[i].before
        &&& polls[i].after == log[i].after
        &&& match polls[i].item {
            Some(value) => log[i].item == Some(Ok::<T, E>(value)),
            None => log[i].item is None,
        }
    } by {
        assert(log[i] == wrapped::<S, T, E>(polls[i]));
    }
}

/// A single item comes at the first pull, nothing comes afterwards, and no pull changes the state;
/// of no items, none ever comes.
pub proof fn law_single_items_and_none<S, T>(item: T, log: Seq<Pulled<S, T>>, i: int)
    requires
        0 <= i < log.len(),
    ensures
        once_behavior::<S, T>(item)(log) ==> {
            &&& log[0].item == Some(item)
            &&& i > 0 ==> log[i].item is None
            &&& log[i].after == log[i].before
        },
        empty_behavior::<S, T>()(log) ==> log[i].item is None && log[i].after == log[i].before,
{
    assert(log[0] == log[0]);
}

/// The property by [`typename_value`] is the name that the active vertex gives for its own type,
/// and `Null` without an active vertex.
pub proof fn law_typenames_ask_the_vertex<V: AsVertex<Vertex>, Vertex: Typename, E>(
    context: DataContext<V>,
    outcome: Result<FieldValue, E>,
)
    requires
        PropertyWith::using(typename_value::<Vertex>).gives(context, outcome),
    ensures
        match context.active_vertex {
            Some(value) => match AsVertex::<Vertex>::vertex(&value) {
                Some(vertex) => outcome matches Ok(FieldValue::String(text)) && exists|
                    name: &'static str,
                | #[trigger]
                    call_ensures(Vertex::typename, (&vertex,), name) && text@ == name@,
                None => outcome == Ok::<_, E>(FieldValue::Null),
            },
            None => outcome == Ok::<_, E>(FieldValue::Null),
        },
{
    law_property_rule::<V, Vertex, E, _>(typename_value::<Vertex>, context, outcome);
}

/// The values of a fallible sequence come from a run of that sequence, and start where it was
/// fused.
pub proof fn law_values_come_from_the_fallible_sequence<T, E>(
    source: Behavior<ErrorSlot<E>, Result<T, E>>,
    base: Seq<Pulled<ErrorSlot<E>, Result<T, E>>>,
    log: Seq<Pulled<ErrorSlot<E>, T>>,
) -> (polls: Seq<Pulled<ErrorSlot<E>, Result<T, E>>>)
    requires
        fused_behavior(source, base)(log),
    ensures
        polls.len() > 0 ==> source(base + polls),
        is_fused(log, polls),
{
    choose|polls: Seq<Pulled<ErrorSlot<E>, Result<T, E>>>| #[trigger]
        may_follow(source, base, polls) && is_fused(log, polls)
}

/// What the last pull of fused values did: nothing where the slot held an error or the fallible
/// sequence had failed, and else one poll of it, whose value it gave, or whose error it recorded
/// behind any that was there.
pub proof fn law_the_last_fused_pull<T, E>(
    log: Seq<Pulled<ErrorSlot<E>, T>>,
    polls: Seq<Pulled<ErrorSlot<E>, Result<T, E>>>,
)
    requires
        is_fused(log, polls),
    ensures
        log.len() == 0 ==> polls.len() == 0,
        log.len() > 0 ==> {
            let pull = log.last();
            ||| {
                &&& is_fused(log.drop_last(), polls)
                &&& pull.before is Some || polls.len() > 0 && (polls.last().item matches Some(
                    Err(_),
                ))
                &&& pull.item is None
                &&& pull.after == pull.before
            }
            ||| {
                &&& polls.len() > 0
                &&& is_fused(log.drop_last(), polls.drop_last())
                &&& pull.before is None
                &&& polls.len() > 1 ==> !(polls[polls.len() - 2].item matches Some(Err(_)))
                &&& polls.last().before == pull.before
                &&& match polls.last().item {
                    Some(Ok(value)) => pull.item == Some(value) && pull.after == polls.last().after,
                    Some(Err(error)) => {
                        &&& pull.item is None
                        &&& pull.after == match polls.last().after {
                            Some(first) => Some(first),
                            None => Some(error),
                        }
                    },
                    None => pull.item is None && pull.after == polls.last().after,
                }
            }
        },
        forall|i: int|
            0 <= i < polls.len() - 1 ==> !((#[trigger] polls[i]).item matches Some(Err(_))),
        forall|i: int|
            0 <= i < log.len() && (#[trigger] log[i]).before is Some ==> log[i].item is None
                && log[i].after == log[i].before,
{
    let failing = |poll: Pulled<ErrorSlot<E>, Result<T, E>>| failed(poll);
    let outcome = |poll: Pulled<ErrorSlot<E>, Result<T, E>>| fused(poll);
    assert forall|i: int| 0 <= i < polls.len() - 1 implies !((
    #[trigger] polls[i]).item matches Some(Err(_))) by {
        assert(!failed(polls[i]));
    }
    if log.len() > 0 {
        assert(log.drop_last().len() < log.len());
        assert forall|i: int|
            0 <= i < log.drop_last().len() && (
            #[trigger] log.drop_last()[i]).before is Some implies is_idle(log.drop_last()[i]) by {
            assert(log[i] == log.drop_last()[i]);
        }
        if replays_idle(log, polls, stops_on(failing)) && replays(
            log.drop_last(),
            polls,
            stops_on(failing),
            outcome,
        ) {
            assert(is_fused(log.drop_last(), polls));
        } else {
            assert forall|i: int| 0 <= i < polls.drop_last().len() - 1 implies !failed(
                #[trigger] polls.drop_last()[i],
            ) by {
                assert(!failed(polls[i]));
            }
            assert(is_fused(log.drop_last(), polls.drop_last()));
        }
    }
}

/// The plain outcomes of fallible ones come from a run of those, and start where they were wrapped.
pub proof fn law_plain_outcomes_come_from_the_fallible_ones<C, T, E>(
    source: Behavior<ErrorSlot<E>, (C, Result<T, E>)>,
    base: Seq<Pulled<ErrorSlot<E>, (C, Result<T, E>)>>,
    substitute: T,
    log: Seq<Pulled<ErrorSlot<E>, (C, T)>>,
) -> (polls: Seq<Pulled<ErrorSlot<E>, (C, Result<T, E>)>>)
    requires
        substituted_behavior(source, base, substitute)(log),
    ensures
        polls.len() > 0 ==> source(base + polls),
        is_substituted(log, polls, substitute),
{
    choose|polls: Seq<Pulled<ErrorSlot<E>, (C, Result<T, E>)>>| #[trigger]
        may_follow(source, base, polls) && is_substituted(log, polls, substitute)
}

/// What the last pull of plain outcomes did: nothing where the slot held an error or an outcome had
/// failed, and else one poll of the fallible outcomes, whose context it gave with the value, or
/// with the substitute, the error then being recorded behind any that was there.
pub proof fn law_the_last_substituted_pull<C, T, E>(
    log: Seq<Pulled<ErrorSlot<E>, (C, T)>>,
    polls: Seq<Pulled<ErrorSlot<E>, (C, Result<T, E>)>>,
    substitute: T,
)
    requires
        is_substituted(log, polls, substitute),
    ensures
        log.len() == 0 ==> polls.len() == 0,
        log.len() > 0 ==> {
            let pull = log.last();
            ||| {
                &&& is_substituted(log.drop_last(), polls, substitute)
                &&& pull.before is Some || polls.len() > 0 && (polls.last().item matches Some(
                    (_, Err(_)),
                ))
                &&& pull.item is None
                &&& pull.after == pull.before
            }
            ||| {
                &&& polls.len() > 0
                &&& is_substituted(log.drop_last(), polls.drop_last(), substitute)
                &&& pull.before is None
                &&& polls.len() > 1 ==> !(polls[polls.len() - 2].item matches Some((_, Err(_))))
                &&& polls.last().before == pull.before
                &&& match polls.last().item {
                    Some((context, Ok(value))) => {
                        &&& pull.item == Some((context, value))
                        &&& pull.after == polls.last().after
                    },
                    Some((context, Err(error))) => {
                        &&& pull.item == Some((context, substitute))
                        &&& pull.after == match polls.last().after {
                            Some(first) => Some(first),
                            None => Some(error),
                        }
                    },
                    None => pull.item is None && pull.after == polls.last().after,
                }
            }
        },
        forall|i: int|
            0 <= i < polls.len() - 1 ==> !((#[trigger] polls[i]).item matches Some((_, Err(_)))),
        forall|i: int|
            0 <= i < log.len() && (#[trigger] log[i]).before is Some ==> log[i].item is None
                && log[i].after == log[i].before,
{
    let failing = |poll: Pulled<ErrorSlot<E>, (C, Result<T, E>)>| failed_outcome(poll);
    let outcome = |poll: Pulled<ErrorSlot<E>, (C, Result<T, E>)>| substituted(poll, substitute);
    assert forall|i: int| 0 <= i < polls.len() - 1 implies !((
    #[trigger] polls[i]).item matches Some((_, Err(_)))) by {
        assert(!failed_outcome(polls[i]));
    }
    if log.len() > 0 {
        assert(log.drop_last().len() < log.len());
        assert forall|i: int|
            0 <= i < log.drop_last().len() && (
            #[trigger] log.drop_last()[i]).before is Some implies is_idle(log.drop_last()[i]) by {
            assert(log[i] == log.drop_last()[i]);
        }
        if replays_idle(log, polls, stops_on(failing)) && replays(
            log.drop_last(),
            polls,
            stops_on(failing),
            outcome,
        ) {
            assert(is_substituted(log.drop_last(), polls, substitute));
        } else {
            assert forall|i: int| 0 <= i < polls.drop_last().len() - 1 implies !failed_outcome(
                #[trigger] polls.drop_last()[i],
            ) by {
                assert(!failed_outcome(polls[i]));
            }
            assert(is_substituted(log.drop_last(), polls.drop_last(), substitute));
        }
    }
}

/// Contexts with neighbors come from a run of the edge resolutions, and start where those were
/// wrapped.
pub proof fn law_neighbors_come_from_the_resolutions<'vertex, C, Vertex: 'vertex, E: 'vertex>(
    source: Behavior<ErrorSlot<E>, Resolution<'vertex, C, Vertex, E>>,
    base: Seq<Pulled<ErrorSlot<E>, Resolution<'vertex, C, Vertex, E>>>,
    log: Seq<Pulled<ErrorSlot<E>, (C, VertexIterator<'vertex, ErrorSlot<E>, Vertex>)>>,
) -> (polls: Seq<Pulled<ErrorSlot<E>, Resolution<'vertex, C, Vertex, E>>>)
    requires
        resolved_behavior(source, base)(log),
    ensures
        polls.len() > 0 ==> source(base + polls),
        is_resolved(log, polls),
{
    choose|polls: Seq<Pulled<ErrorSlot<E>, Resolution<'vertex, C, Vertex, E>>>| #[trigger]
        may_follow(source, base, polls) && is_resolved(log, polls)
}

/// What the last pull of contexts with neighbors did: nothing where the slot held an error or an
/// edge had failed, and else one poll of the edge resolutions, whose context it gave with the
/// neighbors, fused, or with none, the error of the edge then being recorded behind any that was
/// there.
pub proof fn law_the_last_resolved_pull<'vertex, C, Vertex: 'vertex, E: 'vertex>(
    log: Seq<Pulled<ErrorSlot<E>, (C, VertexIterator<'vertex, ErrorSlot<E>, Vertex>)>>,
    polls: Seq<Pulled<ErrorSlot<E>, Resolution<'vertex, C, Vertex, E>>>,
)
    requires
        is_resolved(log, polls),
    ensures
        log.len() == 0 ==> polls.len() == 0,
        log.len() > 0 ==> {
            let pull = log.last();
            ||| {
                &&& is_resolved(log.drop_last(), polls)
                &&& pull.before is Some || polls.len() > 0 && (polls.last().item matches Some(
                    (_, Err(_)),
                ))
                &&& pull.item is None
                &&& pull.after == pull.before
            }
            ||| {
                &&& polls.len() > 0
                &&& is_resolved(log.drop_last(), polls.drop_last())
                &&& pull.before is None
                &&& polls.len() > 1 ==> !(polls[polls.len() - 2].item matches Some((_, Err(_))))
                &&& polls.last().before == pull.before
                &&& match polls.last().item {
                    Some((context, Ok(given))) => pull.item matches Some((kept, neighbors)) && {
                        &&& kept == context
                        &&& neighbors.log().len() == 0
                        &&& neighbors.behavior() == fused_behavior(given.behavior(), given.log())
                        &&& given.ready() ==> neighbors.ready()
                        &&& pull.after == polls.last().after
                    },
                    Some((context, Err(error))) => pull.item matches Some((kept, neighbors)) && {
                        &&& kept == context
                        &&& is_without_items(neighbors)
                        &&& pull.after == match polls.last().after {
                            Some(first) => Some(first),
                            None => Some(error),
                        }
                    },
                    None => pull.item is None && pull.after == polls.last().after,
                }
            }
        },
        forall|i: int|
            0 <= i < polls.len() - 1 ==> !((#[trigger] polls[i]).item matches Some((_, Err(_)))),
        forall|i: int|
            0 <= i < log.len() && (#[trigger] log[i]).before is Some ==> log[i].item is None
                && log[i].after == log[i].before,
{
    let failing = |poll: Pulled<ErrorSlot<E>, Resolution<'vertex, C, Vertex, E>>|
        failed_outcome(poll);
    let outcome = |poll: Pulled<ErrorSlot<E>, Resolution<'vertex, C, Vertex, E>>| resolved(poll);
    assert forall|i: int| 0 <= i < polls.len() - 1 implies !((
    #[trigger] polls[i]).item matches Some((_, Err(_)))) by {
        assert(!failed_outcome(polls[i]));
    }
    if log.len() > 0 {
        assert(log.drop_last().len() < log.len());
        assert forall|i: int|
            0 <= i < log.drop_last().len() && (
            #[trigger] log.drop_last()[i]).before is Some implies is_idle(log.drop_last()[i]) by {
            assert(log[i] == log.drop_last()[i]);
        }
        if replays_idle(log, polls, stops_on(failing)) && replays(
            log.drop_last(),
            polls,
            stops_on(failing),
            outcome,
        ) {
            assert(is_resolved(log.drop_last(), polls));
        } else {
            assert forall|i: int| 0 <= i < polls.drop_last().len() - 1 implies !failed_outcome(
                #[trigger] polls.drop_last()[i],
            ) by {
                assert(!failed_outcome(polls[i]));
            }
            assert(is_resolved(log.drop_last(), polls.drop_last()));
            if let Some((_, resolution)) = polls.last().item {
                law_tracked_neighbors(resolution);
            }
        }
    }
}

/// The results of a query are its polls of rows, one for one: an error that the poll left in the
/// slot, or else the row, and nothing after the first error. An error that is there before anything
/// is pulled is the only result.
pub proof fn law_the_results_of_a_query<I: Pull<ErrorSlot<E>, Item>, Item, E>(
    results: SurfaceErrors<I, Item, E>,
    i: int,
)
    requires
        results.ready(),
        0 <= i < results.results().len(),
    ensures
        results.polls().len() > 0 ==> (results.inner().behavior())(
            results.base() + results.polls(),
        ),
        results.polls().len() > 0 ==> results.results()[i] == if i < results.polls().len() {
            match results.polls()[i].after {
                Some(error) => Some(Err(ExecutionError::Adapter(error))),
                None => match results.polls()[i].item {
                    Some(item) => Some(Ok(item)),
                    None => None,
                },
            }
        } else {
            None
        },
        results.polls().len() == 0 ==> if i == 0 {
            results.results()[i] matches Some(Err(_))
        } else {
            results.results()[i] is None
        },
        i < results.polls().len() ==> results.polls()[i].before is None,
        i < results.polls().len() - 1 ==> results.polls()[i].after is None,
        results.results()[i] matches Some(Err(_)) ==> results.done(),
{
    results.law_fail_fast();
    if results.polls().len() > 0 {
        results.law_results_stand_for_polls();
    } else {
        results.law_an_early_error_is_all();
    }
}

/// The pairs that come out are the polls of pairs, one for one: the context of the poll, with an
/// error that the poll left in the slot, or else with the value; nothing after the first error.
pub proof fn law_the_results_of_pairs<I: Pull<ErrorSlot<E>, (C, T)>, C, T, E>(
    results: SurfaceErrorsPaired<I, C, T, E>,
    i: int,
)
    requires
        results.ready(),
        0 <= i < results.results().len(),
    ensures
        results.polls().len() > 0 ==> (results.inner().behavior())(
            results.base() + results.polls(),
        ),
        results.results()[i] == if i < results.polls().len() {
            match results.polls()[i].item {
                Some((context, value)) => match results.polls()[i].after {
                    Some(error) => Some((context, Err(error))),
                    None => Some((context, Ok(value))),
                },
                None => None,
            }
        } else {
            None
        },
        i < results.polls().len() - 1 ==> {
            &&& results.polls()[i].after == results.polls()[i + 1].before
            &&& results.polls()[i].item is None || results.polls()[i].after is None
        },
        results.done() <==> results.polls().len() > 0 && results.polls().last().item is Some
            && results.polls().last().after is Some,
{
    results.law_results_stand_for_polls();
    if i < results.polls().len() - 1 {
        assert(!attaches(results.polls()[i]));
        assert(results.polls()[i].after == results.polls()[i + 1].before);
    }
}

/// Of a run of results, those that came are in order; one more result adds itself, if it came.
pub proof fn law_the_results_that_came<R>(results: Seq<Option<R>>, result: Option<R>)
    ensures
        somes(Seq::<Option<R>>::empty()).len() == 0,
        somes(results.push(result)) == match result {
            Some(item) => somes(results).push(item),
            None => somes(results),
        },
{
    assert(results.push(result).drop_last() =~= results);
}

} // verus!
