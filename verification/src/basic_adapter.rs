//! A simpler way to write an adapter.

use std::fmt::Debug;
use std::sync::Arc;

use vstd::prelude::*;

use crate::adapter::{
    gives_ready_neighbors, seen, seen_outcomes, shown_contexts, shown_outcomes, shown_resolutions,
    Adapter, AsVertex, ContextIterator, ContextOutcomeIterator, DataContext, NeighborResolution,
    ResolveEdgeInfo, ResolveInfo, Shown, ShownNeighbors, Typename,
};
use crate::helpers::{
    is_resolution, law_property_rule, outcome_behavior, resolves, resolve_property_with,
    ContextOutcomes, PropertyWith, ResolveContext,
};
use crate::ir::{EdgeParameters, FieldValue};
use crate::pull::{either, items_of, may_follow, runs, within, Pull, Pulled, Runs, VertexIterator};

verus! {

/// `value` is the name that `vertex` gives for its own type.
pub open spec fn names_type<Vertex: Typename>(vertex: &Vertex, value: FieldValue) -> bool {
    exists|name: &'static str| #[trigger]
        call_ensures(Vertex::typename, (vertex,), name) && (value matches FieldValue::String(text)
            && text@ == name@)
}

/// The name of the type of a vertex, as a property value.
pub fn typename_value<Vertex: Typename>(vertex: &Vertex) -> (value: FieldValue)
    ensures
        names_type(vertex, value),
        exists|name: &'static str| #[trigger]
            call_ensures(Vertex::typename, (vertex,), name) && (value matches FieldValue::String(
                text,
            ) && text@ == name@),
{
    let name = vertex.typename();
    FieldValue::String(name.to_owned())
}

/// The outcome is the name of the type of the active vertex; `Null` where there is none.
pub open spec fn names_active_type<V: AsVertex<Vertex>, Vertex: Typename, E>(
    context: DataContext<V>,
    outcome: Result<FieldValue, E>,
) -> bool {
    match context.vertex::<Vertex>() {
        Some(vertex) => outcome matches Ok(value) && names_type(&vertex, value),
        None => outcome == Ok::<_, E>(FieldValue::Null),
    }
}

/// The property by [`typename_value`] is the name of the type of the active vertex, and `Null`
/// where there is none.
pub proof fn law_typenames_name_the_vertices<V: AsVertex<Vertex>, Vertex: Typename, E>(
    context: DataContext<V>,
    outcome: Result<FieldValue, E>,
)
    requires
        PropertyWith::using(typename_value::<Vertex>).gives(context, outcome),
    ensures
        names_active_type::<V, Vertex, E>(context, outcome),
{
    law_property_rule::<V, Vertex, E, _>(
        typename_value::<Vertex>,
        context,
        outcome,
    );
}

/// What `__typename` of the given contexts may be: for each context, in order, the name that the
/// active vertex gives for its own type, and `Null` where there is no active vertex.
pub open spec fn typename_answers<Vertex: Typename, E>(contexts: Runs<Shown<Vertex>>) -> Runs<
    (Shown<Vertex>, Result<FieldValue, E>),
> {
    |items: Seq<Option<(Shown<Vertex>, Result<FieldValue, E>)>>|
        exists|seen: Seq<Option<Shown<Vertex>>>| #[trigger]
            contexts(seen) && answers_typenames(seen, items)
}

/// The `items` are the contexts `seen`, each with the name of its type.
pub open spec fn answers_typenames<Vertex: Typename, E>(
    seen: Seq<Option<Shown<Vertex>>>,
    items: Seq<Option<(Shown<Vertex>, Result<FieldValue, E>)>>,
) -> bool {
    &&& seen.len() == items.len()
    &&& forall|i: int|
        #![trigger items[i]]
        0 <= i < items.len() ==> match seen[i] {
            Some((vertex, values)) => items[i] matches Some((kept, outcome)) && kept == (
                vertex,
                values,
            ) && match vertex {
                Some(vertex) => outcome matches Ok(value) && names_type(&vertex, value),
                None => outcome == Ok::<_, E>(FieldValue::Null),
            },
            None => items[i] is None,
        }
}

/// Outcomes by a function that names the types of vertices answer `__typename`.
proof fn lemma_names_are_answers<
    'vertex,
    S,
    V: AsVertex<Vertex>,
    Vertex: Typename,
    E,
    R: FnMut(&Vertex) -> FieldValue,
>(
    contexts: ContextIterator<'vertex, S, V>,
    outcomes: ContextOutcomeIterator<'vertex, S, V, Result<FieldValue, E>>,
    resolver: R,
)
    requires
        outcomes.log().len() == 0,
        outcomes.behavior() == outcome_behavior::<
            S,
            V,
            Result<FieldValue, E>,
            PropertyWith<Vertex, R>,
        >(PropertyWith::using(resolver), contexts.behavior(), contexts.log()),
        forall|vertex: &Vertex, value: FieldValue| #[trigger]
            call_ensures(resolver, (vertex,), value) ==> names_type(vertex, value),
    ensures
        within(
            shown_outcomes::<S, V, Vertex, _>(outcomes),
            typename_answers::<Vertex, E>(shown_contexts(contexts)),
        ),
{
    let resolve = PropertyWith::<Vertex, R>::using(resolver);
    let answers = typename_answers::<Vertex, E>(shown_contexts(contexts));
    let outcome_runs = shown_outcomes::<S, V, Vertex, Result<FieldValue, E>>(outcomes);
    assert forall|items: Seq<Option<(Shown<Vertex>, Result<FieldValue, E>)>>| #[trigger]
        outcome_runs(items) implies answers(items) by {
        let run = choose|run: Seq<Option<(DataContext<V>, Result<FieldValue, E>)>>| #[trigger]
            runs(outcomes)(run) && items == seen_outcomes::<V, Vertex, Result<FieldValue, E>>(run);
        assert(runs(outcomes)(run));
        let pulls = choose|pulls: Seq<Pulled<S, (DataContext<V>, Result<FieldValue, E>)>>|
            #[trigger]
            may_follow(outcomes.behavior(), outcomes.log(), pulls) && run == items_of(pulls);
        assert(may_follow(outcomes.behavior(), outcomes.log(), pulls));
        let polls = if pulls.len() > 0 {
            assert(outcomes.log() + pulls =~= pulls);
            assert((outcomes.behavior())(pulls));
            choose|polls: Seq<Pulled<S, DataContext<V>>>| #[trigger]
                may_follow(contexts.behavior(), contexts.log(), polls) && is_resolution(
                    resolve,
                    pulls,
                    polls,
                )
        } else {
            Seq::empty()
        };
        assert(may_follow(contexts.behavior(), contexts.log(), polls));
        assert(runs(contexts)(items_of(polls)));
        let seen = seen::<V, Vertex>(items_of(polls));
        let context_runs = shown_contexts::<S, V, Vertex>(contexts);
        assert(context_runs(seen));
        assert forall|i: int| #![trigger items[i]] 0 <= i < items.len() implies match seen[i] {
            Some((vertex, values)) => items[i] matches Some((kept, outcome)) && kept == (
                vertex,
                values,
            ) && match vertex {
                Some(vertex) => outcome matches Ok(value) && names_type(&vertex, value),
                None => outcome == Ok::<_, E>(FieldValue::Null),
            },
            None => items[i] is None,
        } by {
            assert(resolves(resolve, polls[i], pulls[i].item));
            if let Some((context, outcome)) = pulls[i].item {
                law_property_rule::<V, Vertex, E, R>(resolver, context, outcome);
            }
        }
        assert(answers_typenames(seen, items));
    }
}

/// A simplified variant of [`Adapter`]: whoever implements it has an [`Adapter`].
///
/// Names are `&str`, no resolver takes hints, and the special property `__typename` is resolved by
/// a method of its own that has a default.
///
/// Each resolver of contexts gives one outcome for every context, in the order of the contexts. A
/// context without an active vertex comes from a missing `@optional` edge: its property is
/// [`FieldValue::Null`], it has no neighbors, and it cannot be coerced.
pub trait BasicAdapter<'vertex> {
    /// The type of the vertices that this adapter queries.
    type Vertex: Typename + Clone + Debug + 'vertex;

    /// The error that this adapter may report; [`std::convert::Infallible`] where it cannot fail.
    type Error: 'static;

    /// What the vertices of a starting edge may be. An adapter may leave it open, as it is here.
    open spec fn answers_starting(
        &self,
        edge_name: Seq<char>,
        parameters: EdgeParameters,
    ) -> Runs<Result<Self::Vertex, Self::Error>> {
        |items: Seq<Option<Result<Self::Vertex, Self::Error>>>| true
    }

    /// What a property, other than `__typename`, of the given contexts may be. An adapter may leave
    /// it open, as it is here.
    open spec fn answers_property(
        &self,
        contexts: Runs<Shown<Self::Vertex>>,
        vertex_type: Seq<char>,
        property_name: Seq<char>,
    ) -> Runs<(Shown<Self::Vertex>, Result<FieldValue, Self::Error>)> {
        |items: Seq<Option<(Shown<Self::Vertex>, Result<FieldValue, Self::Error>)>>| true
    }

    /// What the neighbors of the given contexts may be. An adapter may leave it open, as it is
    /// here.
    open spec fn answers_neighbors(
        &self,
        contexts: Runs<Shown<Self::Vertex>>,
        vertex_type: Seq<char>,
        edge_name: Seq<char>,
        parameters: EdgeParameters,
    ) -> Runs<(Shown<Self::Vertex>, ShownNeighbors<Self::Vertex, Self::Error>)> {
        |items: Seq<Option<(Shown<Self::Vertex>, ShownNeighbors<Self::Vertex, Self::Error>)>>| true
    }

    /// What a coercion of the given contexts may be. An adapter may leave it open, as it is here.
    open spec fn answers_coercion(
        &self,
        contexts: Runs<Shown<Self::Vertex>>,
        vertex_type: Seq<char>,
        coerce_to_type: Seq<char>,
    ) -> Runs<(Shown<Self::Vertex>, Result<bool, Self::Error>)> {
        |items: Seq<Option<(Shown<Self::Vertex>, Result<bool, Self::Error>)>>| true
    }

    /// What `__typename` of the given contexts may be besides the names that the active vertices
    /// give, context by context: nothing, unless an adapter that resolves `__typename` in a way of
    /// its own says more.
    open spec fn answers_typename(
        &self,
        contexts: Runs<Shown<Self::Vertex>>,
        vertex_type: Seq<char>,
    ) -> Runs<(Shown<Self::Vertex>, Result<FieldValue, Self::Error>)> {
        |items: Seq<Option<(Shown<Self::Vertex>, Result<FieldValue, Self::Error>)>>| false
    }

    /// Resolves a starting edge into vertices.
    fn resolve_starting_vertices<S: 'vertex>(
        &self,
        edge_name: &str,
        parameters: &EdgeParameters,
    ) -> (vertices: VertexIterator<'vertex, S, Result<Self::Vertex, Self::Error>>)
        ensures
            vertices.ready(),
            within(runs(vertices), self.answers_starting(edge_name@, *parameters)),
    ;

    /// Resolves a property, other than `__typename`, of the active vertex of each context.
    fn resolve_property<S: 'vertex, V: AsVertex<Self::Vertex> + 'vertex>(
        &self,
        contexts: ContextIterator<'vertex, S, V>,
        vertex_type: &str,
        property_name: &str,
    ) -> (outcomes: ContextOutcomeIterator<'vertex, S, V, Result<FieldValue, Self::Error>>)
        requires
            contexts.ready(),
        ensures
            outcomes.ready(),
            within(
                shown_outcomes::<S, V, Self::Vertex, _>(outcomes),
                self.answers_property(shown_contexts(contexts), vertex_type@, property_name@),
            ),
    ;

    /// Resolves the neighbors of the active vertex of each context across an edge.
    fn resolve_neighbors<S: 'vertex, V: AsVertex<Self::Vertex> + 'vertex>(
        &self,
        contexts: ContextIterator<'vertex, S, V>,
        vertex_type: &str,
        edge_name: &str,
        parameters: &EdgeParameters,
    ) -> (outcomes: ContextOutcomeIterator<
        'vertex,
        S,
        V,
        NeighborResolution<'vertex, S, Self::Vertex, Self::Error>,
    >)
        requires
            contexts.ready(),
        ensures
            outcomes.ready(),
            gives_ready_neighbors(outcomes.behavior()),
            within(
                shown_resolutions(outcomes),
                self.answers_neighbors(
                    shown_contexts(contexts),
                    vertex_type@,
                    edge_name@,
                    *parameters,
                ),
            ),
    ;

    /// Tests whether the active vertex of each context is of a subtype.
    fn resolve_coercion<S: 'vertex, V: AsVertex<Self::Vertex> + 'vertex>(
        &self,
        contexts: ContextIterator<'vertex, S, V>,
        vertex_type: &str,
        coerce_to_type: &str,
    ) -> (outcomes: ContextOutcomeIterator<'vertex, S, V, Result<bool, Self::Error>>)
        requires
            contexts.ready(),
        ensures
            outcomes.ready(),
            within(
                shown_outcomes::<S, V, Self::Vertex, _>(outcomes),
                self.answers_coercion(shown_contexts(contexts), vertex_type@, coerce_to_type@),
            ),
    ;

    /// Resolves the special property `__typename` of the active vertex of each context.
    ///
    /// The default asks each vertex for the name of its type, which may be a subtype of
    /// `vertex_type`.
    fn resolve_typename<S: 'vertex, V: AsVertex<Self::Vertex> + 'vertex>(
        &self,
        contexts: ContextIterator<'vertex, S, V>,
        vertex_type: &str,
    ) -> (outcomes: ContextOutcomeIterator<'vertex, S, V, Result<FieldValue, Self::Error>>)
        requires
            contexts.ready(),
        ensures
            outcomes.ready(),
            within(
                shown_outcomes::<S, V, Self::Vertex, _>(outcomes),
                either(
                    typename_answers::<Self::Vertex, Self::Error>(shown_contexts(contexts)),
                    self.answers_typename(shown_contexts(contexts), vertex_type@),
                ),
            ),
        default_ensures
            outcomes.log().len() == 0,
            outcomes.behavior() == outcome_behavior::<
                S,
                V,
                Result<FieldValue, Self::Error>,
                PropertyWith<Self::Vertex, _>,
            >(
                PropertyWith::using(typename_value::<Self::Vertex>),
                contexts.behavior(),
                contexts.log(),
            ),
    {
        let ghost given = contexts;
        proof {
            ContextOutcomes::<
                _,
                S,
                V,
                Result<FieldValue, Self::Error>,
                PropertyWith<Self::Vertex, _>,
            >::law_boxed(contexts, PropertyWith::using(typename_value::<Self::Vertex>));
        }
        let outcomes = resolve_property_with::<S, V, Self::Vertex, Self::Error, _>(
            contexts,
            typename_value::<Self::Vertex>,
        );
        let outcomes = VertexIterator { source: Box::new(outcomes) };
        proof {
            lemma_names_are_answers::<S, V, Self::Vertex, Self::Error, _>(
                given,
                outcomes,
                typename_value::<Self::Vertex>,
            );
        }
        outcomes
    }
}

/// Compares two texts.
fn same_text(left: &str, right: &str) -> (same: bool)
    ensures
        same == (left@ == right@),
{
    left.to_owned() == right.to_owned()
}

/// Resolves a starting edge of a basic adapter.
pub fn starting_vertices_of<'vertex, T: BasicAdapter<'vertex>, S: 'vertex>(
    adapter: &T,
    edge_name: &Arc<str>,
    parameters: &EdgeParameters,
) -> (vertices: VertexIterator<'vertex, S, Result<T::Vertex, T::Error>>)
    ensures
        vertices.ready(),
        call_ensures(
            T::resolve_starting_vertices::<S>,
            (adapter, &**edge_name, parameters),
            vertices,
        ),
{
    adapter.resolve_starting_vertices(&**edge_name, parameters)
}

/// Resolves a property of a basic adapter: `__typename` by the method of its own, any other by
/// [`BasicAdapter::resolve_property`].
pub fn property_of<
    'vertex,
    T: BasicAdapter<'vertex>,
    S: 'vertex,
    V: AsVertex<T::Vertex> + 'vertex,
>(
    adapter: &T,
    contexts: ContextIterator<'vertex, S, V>,
    vertex_type: &Arc<str>,
    property_name: &Arc<str>,
) -> (outcomes: ContextOutcomeIterator<'vertex, S, V, Result<FieldValue, T::Error>>)
    requires
        contexts.ready(),
    ensures
        outcomes.ready(),
        (**property_name)@ == "__typename"@ ==> call_ensures(
            T::resolve_typename::<S, V>,
            (adapter, contexts, &**vertex_type),
            outcomes,
        ),
        (**property_name)@ != "__typename"@ ==> call_ensures(
            T::resolve_property::<S, V>,
            (adapter, contexts, &**vertex_type, &**property_name),
            outcomes,
        ),
{
    if same_text(&**property_name, "__typename") {
        adapter.resolve_typename(contexts, &**vertex_type)
    } else {
        adapter.resolve_property(contexts, &**vertex_type, &**property_name)
    }
}

/// Resolves an edge of a basic adapter.
pub fn neighbors_of<
    'vertex,
    T: BasicAdapter<'vertex>,
    S: 'vertex,
    V: AsVertex<T::Vertex> + 'vertex,
>(
    adapter: &T,
    contexts: ContextIterator<'vertex, S, V>,
    vertex_type: &Arc<str>,
    edge_name: &Arc<str>,
    parameters: &EdgeParameters,
) -> (outcomes: ContextOutcomeIterator<
    'vertex,
    S,
    V,
    NeighborResolution<'vertex, S, T::Vertex, T::Error>,
>)
    requires
        contexts.ready(),
    ensures
        outcomes.ready(),
        gives_ready_neighbors(outcomes.behavior()),
        call_ensures(
            T::resolve_neighbors::<S, V>,
            (adapter, contexts, &**vertex_type, &**edge_name, parameters),
            outcomes,
        ),
{
    adapter.resolve_neighbors(contexts, &**vertex_type, &**edge_name, parameters)
}

/// Tests a coercion of a basic adapter.
pub fn coercion_of<
    'vertex,
    T: BasicAdapter<'vertex>,
    S: 'vertex,
    V: AsVertex<T::Vertex> + 'vertex,
>(
    adapter: &T,
    contexts: ContextIterator<'vertex, S, V>,
    vertex_type: &Arc<str>,
    coerce_to_type: &Arc<str>,
) -> (outcomes: ContextOutcomeIterator<'vertex, S, V, Result<bool, T::Error>>)
    requires
        contexts.ready(),
    ensures
        outcomes.ready(),
        call_ensures(
            T::resolve_coercion::<S, V>,
            (adapter, contexts, &**vertex_type, &**coerce_to_type),
            outcomes,
        ),
{
    adapter.resolve_coercion(contexts, &**vertex_type, &**coerce_to_type)
}

/// Names go from `&Arc<str>` to `&str`, the hints are dropped, and `__typename` goes to
/// [`BasicAdapter::resolve_typename`].
///
/// What each resolver gives is what the basic adapter may give for the same arguments, and is
/// stated by the function that it calls too: [`starting_vertices_of`], [`property_of`],
/// [`neighbors_of`] or [`coercion_of`].
impl<'vertex, T: BasicAdapter<'vertex>> Adapter<'vertex> for T {
    type Vertex = T::Vertex;

    type Error = T::Error;

    open spec fn starting_answers(
        &self,
        edge_name: Seq<char>,
        parameters: EdgeParameters,
        resolve_info: ResolveInfo,
    ) -> Runs<Result<T::Vertex, T::Error>> {
        self.answers_starting(edge_name, parameters)
    }

    open spec fn property_answers(
        &self,
        contexts: Runs<Shown<T::Vertex>>,
        vertex_type: Seq<char>,
        property_name: Seq<char>,
        resolve_info: ResolveInfo,
    ) -> Runs<(Shown<T::Vertex>, Result<FieldValue, T::Error>)> {
        if property_name == "__typename"@ {
            either(typename_answers(contexts), self.answers_typename(contexts, vertex_type))
        } else {
            self.answers_property(contexts, vertex_type, property_name)
        }
    }

    open spec fn neighbor_answers(
        &self,
        contexts: Runs<Shown<T::Vertex>>,
        vertex_type: Seq<char>,
        edge_name: Seq<char>,
        parameters: EdgeParameters,
        resolve_info: ResolveEdgeInfo,
    ) -> Runs<(Shown<T::Vertex>, ShownNeighbors<T::Vertex, T::Error>)> {
        self.answers_neighbors(contexts, vertex_type, edge_name, parameters)
    }

    open spec fn coercion_answers(
        &self,
        contexts: Runs<Shown<T::Vertex>>,
        vertex_type: Seq<char>,
        coerce_to_type: Seq<char>,
        resolve_info: ResolveInfo,
    ) -> Runs<(Shown<T::Vertex>, Result<bool, T::Error>)> {
        self.answers_coercion(contexts, vertex_type, coerce_to_type)
    }

    fn resolve_starting_vertices<S: 'vertex>(
        &self,
        edge_name: &Arc<str>,
        parameters: &EdgeParameters,
        _resolve_info: &ResolveInfo,
    ) -> (vertices: VertexIterator<'vertex, S, Result<T::Vertex, T::Error>>) {
        starting_vertices_of(self, edge_name, parameters)
    }

    fn resolve_property<S: 'vertex, V: AsVertex<T::Vertex> + 'vertex>(
        &self,
        contexts: ContextIterator<'vertex, S, V>,
        vertex_type: &Arc<str>,
        property_name: &Arc<str>,
        _resolve_info: &ResolveInfo,
    ) -> (outcomes: ContextOutcomeIterator<'vertex, S, V, Result<FieldValue, T::Error>>) {
        property_of(self, contexts, vertex_type, property_name)
    }

    fn resolve_neighbors<S: 'vertex, V: AsVertex<T::Vertex> + 'vertex>(
        &self,
        contexts: ContextIterator<'vertex, S, V>,
        vertex_type: &Arc<str>,
        edge_name: &Arc<str>,
        parameters: &EdgeParameters,
        _resolve_info: &ResolveEdgeInfo,
    ) -> (outcomes: ContextOutcomeIterator<
        'vertex,
        S,
        V,
        NeighborResolution<'vertex, S, T::Vertex, T::Error>,
    >) {
        neighbors_of(self, contexts, vertex_type, edge_name, parameters)
    }

    fn resolve_coercion<S: 'vertex, V: AsVertex<T::Vertex> + 'vertex>(
        &self,
        contexts: ContextIterator<'vertex, S, V>,
        vertex_type: &Arc<str>,
        coerce_to_type: &Arc<str>,
        _resolve_info: &ResolveInfo,
    ) -> (outcomes: ContextOutcomeIterator<'vertex, S, V, Result<bool, T::Error>>) {
        coercion_of(self, contexts, vertex_type, coerce_to_type)
    }
}

} // verus!
