//! Adapters: how a query reaches its data.

use std::fmt::Debug;
use std::sync::Arc;

use vstd::prelude::*;

use crate::ir::{EdgeParameters, FieldValue};
use crate::pull::{runs, within, Behavior, Pull, Pulled, Runs, VertexIterator};

verus! {

/// A value that may stand for a vertex of the type `Vertex`.
pub trait AsVertex<Vertex> {
    /// The vertex that this value stands for, if it stands for one.
    spec fn vertex(&self) -> Option<Vertex>;

    /// Borrows the vertex that this value stands for.
    fn as_vertex(&self) -> (vertex: Option<&Vertex>)
        ensures
            match vertex {
                Some(vertex) => self.vertex() == Some(*vertex),
                None => self.vertex() is None,
            },
    ;
}

/// A vertex stands for itself.
impl<Vertex> AsVertex<Vertex> for Vertex {
    open spec fn vertex(&self) -> Option<Vertex> {
        Some(*self)
    }

    fn as_vertex(&self) -> (vertex: Option<&Vertex>) {
        Some(self)
    }
}

/// A vertex that knows the name of its own type.
pub trait Typename {
    /// The name of the type of this vertex.
    fn typename(&self) -> &'static str;
}

/// A partial result of a query: where it stands, and what it gathered on the way.
#[derive(Debug, Clone, PartialEq, Eq)]
pub struct DataContext<V> {
    /// The vertex that the next resolver works on; absent below a missing `@optional` edge.
    pub active_vertex: Option<V>,
    /// The values gathered so far.
    pub values: Vec<FieldValue>,
}

impl<V> DataContext<V> {
    /// The active vertex as a `Vertex`.
    pub open spec fn vertex<Vertex>(&self) -> Option<Vertex> where V: AsVertex<Vertex> {
        match self.active_vertex {
            Some(value) => value.vertex(),
            None => None,
        }
    }

    /// Borrows the active vertex.
    pub fn active_vertex<Vertex>(&self) -> (vertex: Option<&Vertex>) where V: AsVertex<Vertex>
        ensures
            match vertex {
                Some(vertex) => self.vertex() == Some(*vertex),
                None => self.vertex::<Vertex>() is None,
            },
            match self.active_vertex {
                Some(value) => AsVertex::<Vertex>::vertex(&value) == match vertex {
                    Some(vertex) => Some(*vertex),
                    None => None,
                },
                None => vertex is None,
            },
    {
        match &self.active_vertex {
            Some(value) => value.as_vertex(),
            None => None,
        }
    }
}

/// What a resolver may know of the query around the vertex that it resolves.
#[derive(Debug, Clone, Copy, PartialEq, Eq)]
pub struct ResolveInfo {
    /// The query's number for that vertex.
    pub vid: u64,
}

/// What a resolver may know of the query around the edge that it resolves.
#[derive(Debug, Clone, Copy, PartialEq, Eq)]
pub struct ResolveEdgeInfo {
    /// The query's number for that edge.
    pub eid: u64,
}

/// The query contexts that a resolver works on.
pub type ContextIterator<'vertex, S, V> = VertexIterator<'vertex, S, DataContext<V>>;

/// `(context, outcome)` pairs: one for each context that the resolver was given, in order.
pub type ContextOutcomeIterator<'vertex, S, V, OutcomeT> = VertexIterator<
    'vertex,
    S,
    (DataContext<V>, OutcomeT),
>;

/// The resolution of an edge for one context: its neighbors, each of which may fail, or an error
/// that failed the edge as a whole.
pub type NeighborResolution<'vertex, S, VertexT, ErrorT> = Result<
    VertexIterator<'vertex, S, Result<VertexT, ErrorT>>,
    ErrorT,
>;

/// Sequences of this behavior give neighbors that can be pulled.
pub open spec fn gives_ready_neighbors<'vertex, S, C, VertexT, ErrorT>(
    behavior: Behavior<S, (C, NeighborResolution<'vertex, S, VertexT, ErrorT>)>,
) -> bool {
    forall|
        log: Seq<Pulled<S, (C, NeighborResolution<'vertex, S, VertexT, ErrorT>)>>,
        i: int,
    |
        #![trigger behavior(log), log[i]]
        behavior(log) && 0 <= i < log.len() ==> (log[i].item matches Some((_, Ok(neighbors)))
            ==> neighbors.ready())
}

/// What a resolver can see of a context: the active vertex, and the values gathered so far.
pub type Shown<Vertex> = (Option<Vertex>, Seq<FieldValue>);

/// What a resolver can see of `context`.
pub open spec fn shown<V: AsVertex<Vertex>, Vertex>(context: DataContext<V>) -> Shown<Vertex> {
    (context.vertex(), context.values@)
}

/// What a resolver can see of a run of contexts.
pub open spec fn seen<V: AsVertex<Vertex>, Vertex>(run: Seq<Option<DataContext<V>>>) -> Seq<
    Option<Shown<Vertex>>,
> {
    run.map_values(
        |item: Option<DataContext<V>>|
            match item {
                Some(context) => Some(shown::<V, Vertex>(context)),
                None => None,
            },
    )
}

/// A run of outcomes, each with what a resolver can see of its context.
pub open spec fn seen_outcomes<V: AsVertex<Vertex>, Vertex, O>(
    run: Seq<Option<(DataContext<V>, O)>>,
) -> Seq<Option<(Shown<Vertex>, O)>> {
    run.map_values(
        |item: Option<(DataContext<V>, O)>|
            match item {
                Some((context, outcome)) => Some((shown::<V, Vertex>(context), outcome)),
                None => None,
            },
    )
}

/// The runs of contexts that `contexts` may go on with, as far as a resolver can see them.
pub open spec fn shown_contexts<'vertex, S, V: AsVertex<Vertex>, Vertex>(
    contexts: ContextIterator<'vertex, S, V>,
) -> Runs<Shown<Vertex>> {
    |items: Seq<Option<Shown<Vertex>>>|
        exists|run: Seq<Option<DataContext<V>>>| #[trigger]
            runs(contexts)(run) && items == seen::<V, Vertex>(run)
}

/// The runs of outcomes that `outcomes` may go on with, each with what a resolver can see of its
/// context.
pub open spec fn shown_outcomes<'vertex, S, V: AsVertex<Vertex>, Vertex, O>(
    outcomes: ContextOutcomeIterator<'vertex, S, V, O>,
) -> Runs<(Shown<Vertex>, O)> {
    |items: Seq<Option<(Shown<Vertex>, O)>>|
        exists|run: Seq<Option<(DataContext<V>, O)>>| #[trigger]
            runs(outcomes)(run) && items == seen_outcomes::<V, Vertex, O>(run)
}

/// What a resolution of an edge comes to: the runs of neighbors, or the error of the edge.
pub type ShownNeighbors<VertexT, ErrorT> = Result<Runs<Result<VertexT, ErrorT>>, ErrorT>;

/// What `resolution` comes to.
pub open spec fn shown_neighbors<'vertex, S, VertexT, ErrorT>(
    resolution: NeighborResolution<'vertex, S, VertexT, ErrorT>,
) -> ShownNeighbors<VertexT, ErrorT> {
    match resolution {
        Ok(neighbors) => Ok(runs(neighbors)),
        Err(error) => Err(error),
    }
}

/// A run of edge resolutions, each with what a resolver can see of its context.
pub open spec fn seen_resolutions<'vertex, S, V: AsVertex<VertexT>, VertexT, ErrorT>(
    run: Seq<Option<(DataContext<V>, NeighborResolution<'vertex, S, VertexT, ErrorT>)>>,
) -> Seq<Option<(Shown<VertexT>, ShownNeighbors<VertexT, ErrorT>)>> {
    run.map_values(
        |item: Option<(DataContext<V>, NeighborResolution<'vertex, S, VertexT, ErrorT>)>|
            match item {
                Some((context, resolution)) => Some(
                    (shown::<V, VertexT>(context), shown_neighbors(resolution)),
                ),
                None => None,
            },
    )
}

/// The runs of edge resolutions that `outcomes` may go on with, each with what a resolver can see
/// of its context.
pub open spec fn shown_resolutions<'vertex, S, V: AsVertex<VertexT>, VertexT, ErrorT>(
    outcomes: ContextOutcomeIterator<
        'vertex,
        S,
        V,
        NeighborResolution<'vertex, S, VertexT, ErrorT>,
    >,
) -> Runs<(Shown<VertexT>, ShownNeighbors<VertexT, ErrorT>)> {
    |items: Seq<Option<(Shown<VertexT>, ShownNeighbors<VertexT, ErrorT>)>>|
        exists|
            run: Seq<Option<(DataContext<V>, NeighborResolution<'vertex, S, VertexT, ErrorT>)>>,
        | #[trigger]
            runs(outcomes)(run) && items == seen_resolutions::<S, V, VertexT, ErrorT>(run)
}

/// A data provider for queries.
///
/// Every resolver is generic over the state `S` that the pulls of one run share: an adapter hands
/// the state on to the contexts that it pulls, and can neither read nor change it.
///
/// Each resolver of contexts gives one outcome for every context, in the order of the contexts. A
/// context without an active vertex comes from a missing `@optional` edge: its property is
/// [`FieldValue::Null`], it has no neighbors, and it cannot be coerced.
pub trait Adapter<'vertex> {
    /// The type of the vertices that this adapter queries.
    type Vertex: Clone + Debug + 'vertex;

    /// The error that this adapter may report; [`std::convert::Infallible`] where it cannot fail.
    type Error: 'static;

    /// What the vertices of a starting edge may be. An adapter may leave it open, as it is here.
    open spec fn starting_answers(
        &self,
        edge_name: Seq<char>,
        parameters: EdgeParameters,
        resolve_info: ResolveInfo,
    ) -> Runs<Result<Self::Vertex, Self::Error>> {
        |items: Seq<Option<Result<Self::Vertex, Self::Error>>>| true
    }

    /// What a property of the given contexts may be. An adapter may leave it open, as it is here.
    open spec fn property_answers(
        &self,
        contexts: Runs<Shown<Self::Vertex>>,
        vertex_type: Seq<char>,
        property_name: Seq<char>,
        resolve_info: ResolveInfo,
    ) -> Runs<(Shown<Self::Vertex>, Result<FieldValue, Self::Error>)> {
        |items: Seq<Option<(Shown<Self::Vertex>, Result<FieldValue, Self::Error>)>>| true
    }

    /// What the neighbors of the given contexts may be. An adapter may leave it open, as it is
    /// here.
    open spec fn neighbor_answers(
        &self,
        contexts: Runs<Shown<Self::Vertex>>,
        vertex_type: Seq<char>,
        edge_name: Seq<char>,
        parameters: EdgeParameters,
        resolve_info: ResolveEdgeInfo,
    ) -> Runs<(Shown<Self::Vertex>, ShownNeighbors<Self::Vertex, Self::Error>)> {
        |items: Seq<Option<(Shown<Self::Vertex>, ShownNeighbors<Self::Vertex, Self::Error>)>>| true
    }

    /// What a coercion of the given contexts may be. An adapter may leave it open, as it is here.
    open spec fn coercion_answers(
        &self,
        contexts: Runs<Shown<Self::Vertex>>,
        vertex_type: Seq<char>,
        coerce_to_type: Seq<char>,
        resolve_info: ResolveInfo,
    ) -> Runs<(Shown<Self::Vertex>, Result<bool, Self::Error>)> {
        |items: Seq<Option<(Shown<Self::Vertex>, Result<bool, Self::Error>)>>| true
    }

    /// Resolves a starting edge into vertices.
    fn resolve_starting_vertices<S: 'vertex>(
        &self,
        edge_name: &Arc<str>,
        parameters: &EdgeParameters,
        resolve_info: &ResolveInfo,
    ) -> (vertices: VertexIterator<'vertex, S, Result<Self::Vertex, Self::Error>>)
        ensures
            vertices.ready(),
            within(
                runs(vertices),
                self.starting_answers((**edge_name)@, *parameters, *resolve_info),
            ),
    ;

    /// Resolves a property of the active vertex of each context.
    fn resolve_property<S: 'vertex, V: AsVertex<Self::Vertex> + 'vertex>(
        &self,
        contexts: ContextIterator<'vertex, S, V>,
        vertex_type: &Arc<str>,
        property_name: &Arc<str>,
        resolve_info: &ResolveInfo,
    ) -> (outcomes: ContextOutcomeIterator<'vertex, S, V, Result<FieldValue, Self::Error>>)
        requires
            contexts.ready(),
        ensures
            outcomes.ready(),
            within(
                shown_outcomes::<S, V, Self::Vertex, _>(outcomes),
                self.property_answers(
                    shown_contexts(contexts),
                    (**vertex_type)@,
                    (**property_name)@,
                    *resolve_info,
                ),
            ),
    ;

    /// Resolves the neighbors of the active vertex of each context across an edge.
    fn resolve_neighbors<S: 'vertex, V: AsVertex<Self::Vertex> + 'vertex>(
        &self,
        contexts: ContextIterator<'vertex, S, V>,
        vertex_type: &Arc<str>,
        edge_name: &Arc<str>,
        parameters: &EdgeParameters,
        resolve_info: &ResolveEdgeInfo,
    ) -> (outcomes: ContextOutcomeIterator<
        'vertex,
        S,
        V,
        NeighborResolution<'vertex, S, Self::Vertex, Self::Error>,
    >)
        requires
            contexts.ready(),
        ensures
            outcomes.ready(),
            gives_ready_neighbors(outcomes.behavior()),
            within(
                shown_resolutions(outcomes),
                self.neighbor_answers(
                    shown_contexts(contexts),
                    (**vertex_type)@,
                    (**edge_name)@,
                    *parameters,
                    *resolve_info,
                ),
            ),
    ;

    /// Tests whether the active vertex of each context is of a subtype.
    fn resolve_coercion<S: 'vertex, V: AsVertex<Self::Vertex> + 'vertex>(
        &self,
        contexts: ContextIterator<'vertex, S, V>,
        vertex_type: &Arc<str>,
        coerce_to_type: &Arc<str>,
        resolve_info: &ResolveInfo,
    ) -> (outcomes: ContextOutcomeIterator<'vertex, S, V, Result<bool, Self::Error>>)
        requires
            contexts.ready(),
        ensures
            outcomes.ready(),
            within(
                shown_outcomes::<S, V, Self::Vertex, _>(outcomes),
                self.coercion_answers(
                    shown_contexts(contexts),
                    (**vertex_type)@,
                    (**coerce_to_type)@,
                    *resolve_info,
                ),
            ),
    ;
}

} // verus!
