//! Helpers that make resolvers of whole sequences out of functions of one vertex.

use std::marker::PhantomData;

use vstd::prelude::*;

use crate::adapter::{AsVertex, ContextIterator, DataContext};
use crate::ir::FieldValue;
use crate::pull::{
    boxed, empty_behavior, lemma_one_more_poll, may_follow, ok_behavior, once_behavior, pulled,
    Behavior, Empty, OkEach, Once, Pull, Pulled, VertexIterator,
};

verus! {

/// Asks `resolver` about the active vertex of a context, where there is one.
pub fn resolve_active<V: AsVertex<Vertex>, Vertex, Answer, R: FnMut(&Vertex) -> Answer>(
    context: &DataContext<V>,
    resolver: &mut R,
) -> (answer: Option<Answer>)
    requires
        forall|vertex: &Vertex| call_requires(*old(resolver), (vertex,)),
    ensures
        *final(resolver) == *old(resolver),
        match context.vertex::<Vertex>() {
            Some(vertex) => answer matches Some(given) && call_ensures(
                *old(resolver),
                (&vertex,),
                given,
            ),
            None => answer is None,
        },
        match context.active_vertex {
            Some(value) => match AsVertex::<Vertex>::vertex(&value) {
                Some(vertex) => answer matches Some(given) && call_ensures(
                    *old(resolver),
                    (&vertex,),
                    given,
                ),
                None => answer is None,
            },
            None => answer is None,
        },
{
    match context.active_vertex::<Vertex>() {
        Some(vertex) => Some(resolver(vertex)),
        None => None,
    }
}

/// `started` is what `resolver` gives for a clone of `vertex`.
pub open spec fn starts<Vertex: Clone, Pending, F: Fn(Vertex) -> Pending>(
    resolver: F,
    vertex: Vertex,
    started: Pending,
) -> bool {
    exists|copy: Vertex|
        cloned(vertex, copy) && #[trigger] call_ensures(resolver, (copy,), started)
}

/// `pending` is what `resolver` gives for a clone of the active vertex of `context`; nothing where
/// there is no active vertex.
pub open spec fn is_started<V: AsVertex<Vertex>, Vertex: Clone, Pending, F: Fn(Vertex) -> Pending>(
    context: DataContext<V>,
    resolver: F,
    pending: Option<Pending>,
) -> bool {
    match context.vertex::<Vertex>() {
        Some(vertex) => pending matches Some(started) && starts(resolver, vertex, started),
        None => pending is None,
    }
}

/// Starts the resolution of the active vertex of a context, where there is one: `resolver` gets a
/// clone of the vertex.
pub fn start_resolution<V: AsVertex<Vertex>, Vertex: Clone, Pending, F: Fn(Vertex) -> Pending>(
    context: &DataContext<V>,
    resolver: &F,
) -> (pending: Option<Pending>)
    requires
        forall|vertex: Vertex| call_requires(*resolver, (vertex,)),
    ensures
        is_started::<V, Vertex, Pending, F>(*context, *resolver, pending),
        match context.active_vertex {
            Some(value) => match AsVertex::<Vertex>::vertex(&value) {
                Some(vertex) => pending matches Some(started) && exists|copy: Vertex|
                    cloned(vertex, copy) && #[trigger] call_ensures(*resolver, (copy,), started),
                None => pending is None,
            },
            None => pending is None,
        },
{
    match context.active_vertex::<Vertex>() {
        Some(vertex) => {
            let copy = vertex.clone();
            let started = resolver(copy);
            Some(started)
        },
        None => None,
    }
}

/// The outcome of a property, given the answer about the active vertex: `Null` without one.
pub open spec fn value_or_null<E>(answer: Option<Result<FieldValue, E>>) -> Result<FieldValue, E> {
    match answer {
        Some(outcome) => outcome,
        None => Ok(FieldValue::Null),
    }
}

/// Makes the outcome of a property.
pub fn property_outcome<E>(answer: Option<Result<FieldValue, E>>) -> (outcome: Result<
    FieldValue,
    E,
>)
    ensures
        outcome == value_or_null(answer),
        match answer {
            Some(given) => outcome == given,
            None => outcome == Ok::<_, E>(FieldValue::Null),
        },
{
    match answer {
        Some(outcome) => outcome,
        None => Ok(FieldValue::Null),
    }
}

/// The outcome of a coercion, given the answer about the active vertex: `false` without one.
pub open spec fn test_or_false<E>(answer: Option<Result<bool, E>>) -> Result<bool, E> {
    match answer {
        Some(outcome) => outcome,
        None => Ok(false),
    }
}

/// Makes the outcome of a coercion.
pub fn coercion_outcome<E>(answer: Option<Result<bool, E>>) -> (outcome: Result<bool, E>)
    ensures
        outcome == test_or_false(answer),
        match answer {
            Some(given) => outcome == given,
            None => outcome == Ok::<_, E>(false),
        },
{
    match answer {
        Some(outcome) => outcome,
        None => Ok(false),
    }
}

/// The neighbors across an edge, given the answer about the active vertex: none without one, and a
/// single error where the edge failed as a whole.
pub open spec fn neighbors_or_none<'vertex, S: 'vertex, Vertex: 'vertex, E: 'vertex>(
    answer: Option<Result<VertexIterator<'vertex, S, Vertex>, E>>,
) -> VertexIterator<'vertex, S, Result<Vertex, E>> {
    match answer {
        Some(Ok(neighbors)) => boxed::<_, _, OkEach<_, S, Vertex, E>>(OkEach::fresh(neighbors)),
        Some(Err(error)) => boxed(Once::fresh(Err(error))),
        None => boxed(Empty::fresh()),
    }
}

/// Makes the neighbors across an edge.
pub fn neighbor_outcomes<'vertex, S: 'vertex, Vertex: 'vertex, E: 'vertex>(
    answer: Option<Result<VertexIterator<'vertex, S, Vertex>, E>>,
) -> (neighbors: VertexIterator<'vertex, S, Result<Vertex, E>>)
    ensures
        neighbors == neighbors_or_none(answer),
        match answer {
            Some(Ok(plain)) => neighbors == boxed::<_, _, OkEach<_, S, Vertex, E>>(
                OkEach::fresh(plain),
            ),
            Some(Err(error)) => neighbors == boxed(
                Once::<S, Result<Vertex, E>>::fresh(Err(error)),
            ),
            None => neighbors == boxed(Empty::<S, Result<Vertex, E>>::fresh()),
        },
        (answer matches Some(Ok(plain)) ==> plain.ready()) ==> neighbors.ready(),
{
    match answer {
        Some(Ok(neighbors)) => {
            let each: OkEach<VertexIterator<'vertex, S, Vertex>, S, Vertex, E> = OkEach::new(
                neighbors,
            );
            VertexIterator { source: Box::new(each) }
        },
        Some(Err(error)) => Once::new(Err(error)).boxed(),
        None => {
            let none: Empty<S, Result<Vertex, E>> = Empty::new();
            none.boxed()
        },
    }
}

/// The neighbors across an edge behave as those of the answer do, each wrapped in `Ok`; there is a
/// single error where the edge failed as a whole, and nothing without an answer.
pub proof fn law_neighbors_of_an_answer<'vertex, S: 'vertex, Vertex: 'vertex, E: 'vertex>(
    answer: Option<Result<VertexIterator<'vertex, S, Vertex>, E>>,
)
    ensures
        neighbors_or_none(answer).log().len() == 0,
        neighbors_or_none(answer).behavior() == match answer {
            Some(Ok(neighbors)) => ok_behavior(neighbors.behavior(), neighbors.log()),
            Some(Err(error)) => once_behavior(Err(error)),
            None => empty_behavior(),
        },
        (answer matches Some(Ok(neighbors)) ==> neighbors.ready()) ==> neighbors_or_none(
            answer,
        ).ready(),
{
    match answer {
        Some(Ok(neighbors)) => {
            OkEach::<_, S, Vertex, E>::law_boxed(neighbors);
        },
        Some(Err(error)) => {
            Once::<S, Result<Vertex, E>>::law_the_item_comes_once(Err(error));
        },
        None => {
            Empty::<S, Result<Vertex, E>>::law_nothing_comes();
        },
    }
}

/// A function from contexts to outcomes.
pub trait ResolveContext<V, O>: Sized {
    /// The function can be applied to any context.
    spec fn ready(&self) -> bool;

    /// The function may give `outcome` for `context`.
    spec fn gives(&self, context: DataContext<V>, outcome: O) -> bool;

    /// Applies the function.
    fn resolve(&mut self, context: &DataContext<V>) -> (outcome: O)
        requires
            old(self).ready(),
        ensures
            *final(self) == *old(self),
            old(self).gives(*context, outcome),
    ;
}

/// `outcome` is what `resolver` returns for the active vertex of `context`; `missing` where there
/// is none.
pub open spec fn is_returned<V: AsVertex<Vertex>, Vertex, O, R: FnMut(&Vertex) -> O>(
    resolver: R,
    missing: O,
    context: DataContext<V>,
    outcome: O,
) -> bool {
    match context.vertex::<Vertex>() {
        Some(vertex) => call_ensures(resolver, (&vertex,), outcome),
        None => outcome == missing,
    }
}

/// `outcome` is what `resolver` returns for the active vertex of `context`, wrapped in `Ok`;
/// `missing`, wrapped likewise, where there is none.
pub open spec fn is_returned_ok<V: AsVertex<Vertex>, Vertex, T, E, R: FnMut(&Vertex) -> T>(
    resolver: R,
    missing: T,
    context: DataContext<V>,
    outcome: Result<T, E>,
) -> bool {
    outcome matches Ok(value) && is_returned::<V, Vertex, T, R>(resolver, missing, context, value)
}

/// `outcome` are the neighbors that `resolver` returns for the active vertex of `context`, each
/// wrapped in `Ok`; none where there is no active vertex.
pub open spec fn are_returned_ok<
    'vertex,
    V: AsVertex<Vertex>,
    Vertex: 'vertex,
    E: 'vertex,
    S: 'vertex,
    R: FnMut(&Vertex) -> VertexIterator<'vertex, S, Vertex>,
>(
    resolver: R,
    context: DataContext<V>,
    outcome: VertexIterator<'vertex, S, Result<Vertex, E>>,
) -> bool {
    match context.vertex::<Vertex>() {
        Some(vertex) => exists|neighbors: VertexIterator<'vertex, S, Vertex>|
            {
                &&& #[trigger] call_ensures(resolver, (&vertex,), neighbors)
                &&& outcome == neighbors_or_none(Some(Ok::<_, E>(neighbors)))
            },
        None => outcome == neighbors_or_none::<S, Vertex, E>(None),
    }
}

/// A resolver of contexts out of `resolver`, a function of one vertex: `Rule` says what becomes of
/// a context.
pub struct ResolveWith<Rule, Vertex, R> {
    resolver: R,
    _marker: PhantomData<(Rule, Vertex)>,
}

impl<Rule, Vertex, R> ResolveWith<Rule, Vertex, R> {
    /// The function of one vertex.
    pub closed spec fn resolver(&self) -> R {
        self.resolver
    }

    /// The resolution by `resolver`.
    pub closed spec fn using(resolver: R) -> Self {
        ResolveWith { resolver, _marker: PhantomData }
    }

    /// Resolves by `resolver`.
    pub fn new(resolver: R) -> (resolve: Self)
        ensures
            resolve == Self::using(resolver),
            resolve.resolver() == resolver,
    {
        ResolveWith { resolver, _marker: PhantomData }
    }
}

/// The rule of [`PropertyWith`].
pub struct Property;

/// Resolves a property by a function of the vertex; `Null` without a vertex.
pub type PropertyWith<Vertex, R> = ResolveWith<Property, Vertex, R>;

impl<V: AsVertex<Vertex>, Vertex, E, R: FnMut(&Vertex) -> FieldValue> ResolveContext<
    V,
    Result<FieldValue, E>,
> for PropertyWith<Vertex, R> {
    open spec fn ready(&self) -> bool {
        forall|vertex: &Vertex| call_requires(self.resolver(), (vertex,))
    }

    open spec fn gives(&self, context: DataContext<V>, outcome: Result<FieldValue, E>) -> bool {
        is_returned_ok::<V, Vertex, FieldValue, E, R>(
            self.resolver(),
            FieldValue::Null,
            context,
            outcome,
        )
    }

    fn resolve(&mut self, context: &DataContext<V>) -> (outcome: Result<FieldValue, E>) {
        assert(self.resolver() == self.resolver);
        property_outcome(
            match resolve_active(context, &mut self.resolver) {
                Some(value) => Some(Ok(value)),
                None => None,
            },
        )
    }
}

/// The rule of [`TryPropertyWith`].
pub struct TryProperty;

/// Resolves a property by a fallible function of the vertex; `Null` without a vertex.
pub type TryPropertyWith<Vertex, R> = ResolveWith<TryProperty, Vertex, R>;

impl<V: AsVertex<Vertex>, Vertex, E, R: FnMut(&Vertex) -> Result<FieldValue, E>> ResolveContext<
    V,
    Result<FieldValue, E>,
> for TryPropertyWith<Vertex, R> {
    open spec fn ready(&self) -> bool {
        forall|vertex: &Vertex| call_requires(self.resolver(), (vertex,))
    }

    open spec fn gives(&self, context: DataContext<V>, outcome: Result<FieldValue, E>) -> bool {
        is_returned::<V, Vertex, Result<FieldValue, E>, R>(
            self.resolver(),
            Ok(FieldValue::Null),
            context,
            outcome,
        )
    }

    fn resolve(&mut self, context: &DataContext<V>) -> (outcome: Result<FieldValue, E>)
        ensures
            match context.active_vertex {
                Some(value) => match AsVertex::<Vertex>::vertex(&value) {
                    Some(vertex) => call_ensures(old(self).resolver(), (&vertex,), outcome),
                    None => outcome == Ok::<_, E>(FieldValue::Null),
                },
                None => outcome == Ok::<_, E>(FieldValue::Null),
            },
    {
        assert(self.resolver() == self.resolver);
        property_outcome(resolve_active(context, &mut self.resolver))
    }
}

/// The rule of [`CoercionWith`].
pub struct Coercion;

/// Tests a coercion by a function of the vertex; `false` without a vertex.
pub type CoercionWith<Vertex, R> = ResolveWith<Coercion, Vertex, R>;

impl<V: AsVertex<Vertex>, Vertex, E, R: FnMut(&Vertex) -> bool> ResolveContext<
    V,
    Result<bool, E>,
> for CoercionWith<Vertex, R> {
    open spec fn ready(&self) -> bool {
        forall|vertex: &Vertex| call_requires(self.resolver(), (vertex,))
    }

    open spec fn gives(&self, context: DataContext<V>, outcome: Result<bool, E>) -> bool {
        is_returned_ok::<V, Vertex, bool, E, R>(self.resolver(), false, context, outcome)
    }

    fn resolve(&mut self, context: &DataContext<V>) -> (outcome: Result<bool, E>) {
        assert(self.resolver() == self.resolver);
        coercion_outcome(
            match resolve_active(context, &mut self.resolver) {
                Some(test) => Some(Ok(test)),
                None => None,
            },
        )
    }
}

/// The rule of [`TryCoercionWith`].
pub struct TryCoercion;

/// Tests a coercion by a fallible function of the vertex; `false` without a vertex.
pub type TryCoercionWith<Vertex, R> = ResolveWith<TryCoercion, Vertex, R>;

impl<V: AsVertex<Vertex>, Vertex, E, R: FnMut(&Vertex) -> Result<bool, E>> ResolveContext<
    V,
    Result<bool, E>,
> for TryCoercionWith<Vertex, R> {
    open spec fn ready(&self) -> bool {
        forall|vertex: &Vertex| call_requires(self.resolver(), (vertex,))
    }

    open spec fn gives(&self, context: DataContext<V>, outcome: Result<bool, E>) -> bool {
        is_returned::<V, Vertex, Result<bool, E>, R>(self.resolver(), Ok(false), context, outcome)
    }

    fn resolve(&mut self, context: &DataContext<V>) -> (outcome: Result<bool, E>)
        ensures
            match context.active_vertex {
                Some(value) => match AsVertex::<Vertex>::vertex(&value) {
                    Some(vertex) => call_ensures(old(self).resolver(), (&vertex,), outcome),
                    None => outcome == Ok::<_, E>(false),
                },
                None => outcome == Ok::<_, E>(false),
            },
    {
        assert(self.resolver() == self.resolver);
        coercion_outcome(resolve_active(context, &mut self.resolver))
    }
}

/// The rule of [`NeighborsWith`].
pub struct Neighbors;

/// Resolves an edge by a function of the vertex, whose neighbors cannot fail; no neighbors without
/// a vertex.
pub type NeighborsWith<Vertex, R> = ResolveWith<Neighbors, Vertex, R>;

impl<
    'vertex,
    V: AsVertex<Vertex>,
    Vertex: 'vertex,
    E: 'vertex,
    S: 'vertex,
    R: FnMut(&Vertex) -> VertexIterator<'vertex, S, Vertex>,
> ResolveContext<V, VertexIterator<'vertex, S, Result<Vertex, E>>> for NeighborsWith<Vertex, R> {
    open spec fn ready(&self) -> bool {
        forall|vertex: &Vertex| call_requires(self.resolver(), (vertex,))
    }

    open spec fn gives(
        &self,
        context: DataContext<V>,
        outcome: VertexIterator<'vertex, S, Result<Vertex, E>>,
    ) -> bool {
        are_returned_ok::<V, Vertex, E, S, R>(self.resolver(), context, outcome)
    }

    fn resolve(&mut self, context: &DataContext<V>) -> (outcome: VertexIterator<
        'vertex,
        S,
        Result<Vertex, E>,
    >) {
        assert(self.resolver() == self.resolver);
        neighbor_outcomes(
            match resolve_active(context, &mut self.resolver) {
                Some(neighbors) => Some(Ok(neighbors)),
                None => None,
            },
        )
    }
}

/// The rule of [`TryNeighborsWith`].
pub struct TryNeighbors;

/// Resolves an edge by a function of the vertex, whose neighbors may fail; no neighbors without a
/// vertex.
pub type TryNeighborsWith<Vertex, R> = ResolveWith<TryNeighbors, Vertex, R>;

impl<
    'vertex,
    V: AsVertex<Vertex>,
    Vertex: 'vertex,
    E: 'vertex,
    S: 'vertex,
    R: FnMut(&Vertex) -> VertexIterator<'vertex, S, Result<Vertex, E>>,
> ResolveContext<V, VertexIterator<'vertex, S, Result<Vertex, E>>> for TryNeighborsWith<Vertex, R> {
    open spec fn ready(&self) -> bool {
        forall|vertex: &Vertex| call_requires(self.resolver(), (vertex,))
    }

    open spec fn gives(
        &self,
        context: DataContext<V>,
        outcome: VertexIterator<'vertex, S, Result<Vertex, E>>,
    ) -> bool {
        is_returned::<V, Vertex, VertexIterator<'vertex, S, Result<Vertex, E>>, R>(
            self.resolver(),
            neighbors_or_none(None),
            context,
            outcome,
        )
    }

    fn resolve(&mut self, context: &DataContext<V>) -> (outcome: VertexIterator<
        'vertex,
        S,
        Result<Vertex, E>,
    >)
        ensures
            match context.active_vertex {
                Some(value) => match AsVertex::<Vertex>::vertex(&value) {
                    Some(vertex) => call_ensures(old(self).resolver(), (&vertex,), outcome),
                    None => outcome == boxed(Empty::<S, Result<Vertex, E>>::fresh()),
                },
                None => outcome == boxed(Empty::<S, Result<Vertex, E>>::fresh()),
            },
    {
        assert(self.resolver() == self.resolver);
        match resolve_active(context, &mut self.resolver) {
            Some(neighbors) => neighbors,
            None => neighbor_outcomes(None),
        }
    }
}

/// A property by `resolver` is what `resolver` returns for the active vertex, wrapped in `Ok`, and
/// `Null` where there is none.
pub proof fn law_property_rule<
    V: AsVertex<Vertex>,
    Vertex,
    E,
    R: FnMut(&Vertex) -> FieldValue,
>(resolver: R, context: DataContext<V>, outcome: Result<FieldValue, E>)
    ensures
        (forall|vertex: &Vertex| call_requires(resolver, (vertex,))) ==> ResolveContext::<
            V,
            Result<FieldValue, E>,
        >::ready(&PropertyWith::<Vertex, R>::using(resolver)),
        PropertyWith::<Vertex, R>::using(resolver).gives(context, outcome) <==> is_returned_ok::<
            V,
            Vertex,
            FieldValue,
            E,
            R,
        >(resolver, FieldValue::Null, context, outcome),
{
}

/// A fallible property by `resolver` is what `resolver` returns for the active vertex, and `Null`
/// where there is none.
pub proof fn law_try_property_rule<
    V: AsVertex<Vertex>,
    Vertex,
    E,
    R: FnMut(&Vertex) -> Result<FieldValue, E>,
>(resolver: R, context: DataContext<V>, outcome: Result<FieldValue, E>)
    ensures
        (forall|vertex: &Vertex| call_requires(resolver, (vertex,))) ==> ResolveContext::<
            V,
            Result<FieldValue, E>,
        >::ready(&TryPropertyWith::<Vertex, R>::using(resolver)),
        TryPropertyWith::<Vertex, R>::using(resolver).gives(context, outcome) <==> is_returned::<
            V,
            Vertex,
            Result<FieldValue, E>,
            R,
        >(resolver, Ok(FieldValue::Null), context, outcome),
{
}

/// A coercion by `resolver` is what `resolver` returns for the active vertex, wrapped in `Ok`, and
/// `false` where there is none.
pub proof fn law_coercion_rule<
    V: AsVertex<Vertex>,
    Vertex,
    E,
    R: FnMut(&Vertex) -> bool,
>(resolver: R, context: DataContext<V>, outcome: Result<bool, E>)
    ensures
        (forall|vertex: &Vertex| call_requires(resolver, (vertex,))) ==> ResolveContext::<
            V,
            Result<bool, E>,
        >::ready(&CoercionWith::<Vertex, R>::using(resolver)),
        CoercionWith::<Vertex, R>::using(resolver).gives(context, outcome) <==> is_returned_ok::<
            V,
            Vertex,
            bool,
            E,
            R,
        >(resolver, false, context, outcome),
{
}

/// A fallible coercion by `resolver` is what `resolver` returns for the active vertex, and `false`
/// where there is none.
pub proof fn law_try_coercion_rule<
    V: AsVertex<Vertex>,
    Vertex,
    E,
    R: FnMut(&Vertex) -> Result<bool, E>,
>(resolver: R, context: DataContext<V>, outcome: Result<bool, E>)
    ensures
        (forall|vertex: &Vertex| call_requires(resolver, (vertex,))) ==> ResolveContext::<
            V,
            Result<bool, E>,
        >::ready(&TryCoercionWith::<Vertex, R>::using(resolver)),
        TryCoercionWith::<Vertex, R>::using(resolver).gives(context, outcome) <==> is_returned::<
            V,
            Vertex,
            Result<bool, E>,
            R,
        >(resolver, Ok(false), context, outcome),
{
}

/// The neighbors by `resolver` are those that `resolver` returns for the active vertex, each
/// wrapped in `Ok`, and none where there is no active vertex.
pub proof fn law_neighbors_rule<
    'vertex,
    V: AsVertex<Vertex>,
    Vertex: 'vertex,
    E: 'vertex,
    S: 'vertex,
    R: FnMut(&Vertex) -> VertexIterator<'vertex, S, Vertex>,
>(resolver: R, context: DataContext<V>, outcome: VertexIterator<'vertex, S, Result<Vertex, E>>)
    ensures
        (forall|vertex: &Vertex| call_requires(resolver, (vertex,))) ==> ResolveContext::<
            V,
            VertexIterator<'vertex, S, Result<Vertex, E>>,
        >::ready(&NeighborsWith::<Vertex, R>::using(resolver)),
        NeighborsWith::<Vertex, R>::using(resolver).gives(context, outcome) <==> are_returned_ok::<
            V,
            Vertex,
            E,
            S,
            R,
        >(resolver, context, outcome),
{
}

/// The fallible neighbors by `resolver` are those that `resolver` returns for the active vertex,
/// and none where there is no active vertex.
pub proof fn law_try_neighbors_rule<
    'vertex,
    V: AsVertex<Vertex>,
    Vertex: 'vertex,
    E: 'vertex,
    S: 'vertex,
    R: FnMut(&Vertex) -> VertexIterator<'vertex, S, Result<Vertex, E>>,
>(resolver: R, context: DataContext<V>, outcome: VertexIterator<'vertex, S, Result<Vertex, E>>)
    ensures
        (forall|vertex: &Vertex| call_requires(resolver, (vertex,))) ==> ResolveContext::<
            V,
            VertexIterator<'vertex, S, Result<Vertex, E>>,
        >::ready(&TryNeighborsWith::<Vertex, R>::using(resolver)),
        TryNeighborsWith::<Vertex, R>::using(resolver).gives(context, outcome) <==> is_returned::<
            V,
            Vertex,
            VertexIterator<'vertex, S, Result<Vertex, E>>,
            R,
        >(resolver, neighbors_or_none(None), context, outcome),
{
}

/// A property is `Null` where the context has no active vertex.
pub proof fn law_missing_vertices_have_null_properties<
    V: AsVertex<Vertex>,
    Vertex,
    E,
    R: FnMut(&Vertex) -> FieldValue,
    F: FnMut(&Vertex) -> Result<FieldValue, E>,
>(
    plain: PropertyWith<Vertex, R>,
    fallible: TryPropertyWith<Vertex, F>,
    context: DataContext<V>,
    outcome: Result<FieldValue, E>,
)
    requires
        context.vertex::<Vertex>() is None,
    ensures
        plain.gives(context, outcome) <==> outcome == Ok::<_, E>(FieldValue::Null),
        fallible.gives(context, outcome) <==> outcome == Ok::<_, E>(FieldValue::Null),
{
}

/// A coercion is `false` where the context has no active vertex.
pub proof fn law_missing_vertices_are_not_coerced<
    V: AsVertex<Vertex>,
    Vertex,
    E,
    R: FnMut(&Vertex) -> bool,
    F: FnMut(&Vertex) -> Result<bool, E>,
>(
    plain: CoercionWith<Vertex, R>,
    fallible: TryCoercionWith<Vertex, F>,
    context: DataContext<V>,
    outcome: Result<bool, E>,
)
    requires
        context.vertex::<Vertex>() is None,
    ensures
        plain.gives(context, outcome) <==> outcome == Ok::<_, E>(false),
        fallible.gives(context, outcome) <==> outcome == Ok::<_, E>(false),
{
}

/// An edge has no neighbors where the context has no active vertex.
pub proof fn law_missing_vertices_have_no_neighbors<
    'vertex,
    V: AsVertex<Vertex>,
    Vertex: 'vertex,
    E: 'vertex,
    S: 'vertex,
    R: FnMut(&Vertex) -> VertexIterator<'vertex, S, Vertex>,
    F: FnMut(&Vertex) -> VertexIterator<'vertex, S, Result<Vertex, E>>,
>(
    plain: NeighborsWith<Vertex, R>,
    fallible: TryNeighborsWith<Vertex, F>,
    context: DataContext<V>,
    outcome: VertexIterator<'vertex, S, Result<Vertex, E>>,
)
    requires
        context.vertex::<Vertex>() is None,
    ensures
        plain.gives(context, outcome) <==> outcome == boxed(
            Empty::<S, Result<Vertex, E>>::fresh(),
        ),
        fallible.gives(context, outcome) <==> outcome == boxed(
            Empty::<S, Result<Vertex, E>>::fresh(),
        ),
{
}

/// A resolver of plain values makes no errors, whatever the context.
pub proof fn law_plain_resolvers_make_no_errors<
    V: AsVertex<Vertex>,
    Vertex,
    E,
    R: FnMut(&Vertex) -> FieldValue,
    F: FnMut(&Vertex) -> bool,
>(
    property: PropertyWith<Vertex, R>,
    coercion: CoercionWith<Vertex, F>,
    context: DataContext<V>,
    value: Result<FieldValue, E>,
    test: Result<bool, E>,
)
    ensures
        property.gives(context, value) ==> value is Ok,
        coercion.gives(context, test) ==> test is Ok,
{
}

/// `answer` is what came of `pending`, by `awaits`; nothing where nothing was started.
pub open spec fn is_awaited<Pending, Answer>(
    awaits: spec_fn(Pending, Answer) -> bool,
    pending: Option<Pending>,
    answer: Option<Answer>,
) -> bool {
    match pending {
        Some(started) => answer matches Some(given) && awaits(started, given),
        None => answer is None,
    }
}

/// `sequential` returns, for every vertex, what comes of starting `concurrent` on a clone of it.
pub open spec fn resolves_clones<
    Vertex: Clone,
    Pending,
    Answer,
    F: Fn(Vertex) -> Pending,
    R: FnMut(&Vertex) -> Answer,
>(sequential: R, concurrent: F, awaits: spec_fn(Pending, Answer) -> bool) -> bool {
    forall|vertex: &Vertex, answer: Answer| #[trigger]
        call_ensures(sequential, (vertex,), answer) <==> exists|started: Pending| #[trigger]
            starts(concurrent, *vertex, started) && awaits(started, answer)
}

/// Resolving a property concurrently gives, for each context, what resolving it one context at a
/// time gives: the awaited answer about a clone of the active vertex, and `Null`, with nothing
/// started, where there is none.
pub proof fn law_concurrent_properties_are_the_sequential_ones<
    V: AsVertex<Vertex>,
    Vertex: Clone,
    E,
    Pending,
    F: Fn(Vertex) -> Pending,
    R: FnMut(&Vertex) -> Result<FieldValue, E>,
>(
    sequential: R,
    concurrent: F,
    awaits: spec_fn(Pending, Result<FieldValue, E>) -> bool,
    context: DataContext<V>,
    outcome: Result<FieldValue, E>,
)
    requires
        resolves_clones::<Vertex, Pending, Result<FieldValue, E>, F, R>(
            sequential,
            concurrent,
            awaits,
        ),
    ensures
        TryPropertyWith::<Vertex, R>::using(sequential).gives(context, outcome) <==> exists|
            pending: Option<Pending>,
            answer: Option<Result<FieldValue, E>>,
        | {
            &&& #[trigger] is_started::<V, Vertex, Pending, F>(context, concurrent, pending)
            &&& #[trigger] is_awaited(awaits, pending, answer)
            &&& outcome == value_or_null(answer)
        },
        context.vertex::<Vertex>() is None <==> is_started::<V, Vertex, Pending, F>(
            context,
            concurrent,
            None,
        ),
{
    match context.vertex::<Vertex>() {
        Some(vertex) => {
            if call_ensures(sequential, (&vertex,), outcome) {
                let started = choose|started: Pending| #[trigger]
                    starts(concurrent, vertex, started) && awaits(started, outcome);
                assert(is_started::<V, Vertex, Pending, F>(context, concurrent, Some(started)));
                assert(is_awaited(awaits, Some(started), Some(outcome)));
            }
        },
        None => {
            assert(is_started::<V, Vertex, Pending, F>(context, concurrent, None));
            assert(is_awaited::<Pending, Result<FieldValue, E>>(awaits, None, None));
        },
    }
}

/// Testing a coercion concurrently gives, for each context, what testing it one context at a time
/// gives: the awaited answer about a clone of the active vertex, and `false`, with nothing started,
/// where there is none.
pub proof fn law_concurrent_coercions_are_the_sequential_ones<
    V: AsVertex<Vertex>,
    Vertex: Clone,
    E,
    Pending,
    F: Fn(Vertex) -> Pending,
    R: FnMut(&Vertex) -> Result<bool, E>,
>(
    sequential: R,
    concurrent: F,
    awaits: spec_fn(Pending, Result<bool, E>) -> bool,
    context: DataContext<V>,
    outcome: Result<bool, E>,
)
    requires
        resolves_clones::<Vertex, Pending, Result<bool, E>, F, R>(sequential, concurrent, awaits),
    ensures
        TryCoercionWith::<Vertex, R>::using(sequential).gives(context, outcome) <==> exists|
            pending: Option<Pending>,
            answer: Option<Result<bool, E>>,
        | {
            &&& #[trigger] is_started::<V, Vertex, Pending, F>(context, concurrent, pending)
            &&& #[trigger] is_awaited(awaits, pending, answer)
            &&& outcome == test_or_false(answer)
        },
        context.vertex::<Vertex>() is None <==> is_started::<V, Vertex, Pending, F>(
            context,
            concurrent,
            None,
        ),
{
    match context.vertex::<Vertex>() {
        Some(vertex) => {
            if call_ensures(sequential, (&vertex,), outcome) {
                let started = choose|started: Pending| #[trigger]
                    starts(concurrent, vertex, started) && awaits(started, outcome);
                assert(is_started::<V, Vertex, Pending, F>(context, concurrent, Some(started)));
                assert(is_awaited(awaits, Some(started), Some(outcome)));
            }
        },
        None => {
            assert(is_started::<V, Vertex, Pending, F>(context, concurrent, None));
            assert(is_awaited::<Pending, Result<bool, E>>(awaits, None, None));
        },
    }
}

/// Awaiting what `concurrent` starts on a clone of a vertex gives `function` of the vertex.
pub open spec fn computes<Vertex: Clone, Pending, Answer, F: Fn(Vertex) -> Pending>(
    concurrent: F,
    awaits: spec_fn(Pending, Answer) -> bool,
    function: spec_fn(Vertex) -> Answer,
) -> bool {
    forall|vertex: Vertex, started: Pending, answer: Answer|
        #[trigger] starts(concurrent, vertex, started) && #[trigger] awaits(started, answer)
            ==> answer == function(vertex)
}

/// Where both ways compute a function of the vertex, a property that was started, awaited and made
/// an outcome is the outcome of resolving one context at a time: the function of the active vertex,
/// and `Null` where there is none.
pub proof fn law_concurrent_and_sequential_properties_agree<
    V: AsVertex<Vertex>,
    Vertex: Clone,
    E,
    Pending,
    F: Fn(Vertex) -> Pending,
    R: FnMut(&Vertex) -> Result<FieldValue, E>,
>(
    sequential: R,
    concurrent: F,
    awaits: spec_fn(Pending, Result<FieldValue, E>) -> bool,
    function: spec_fn(Vertex) -> Result<FieldValue, E>,
    context: DataContext<V>,
    pending: Option<Pending>,
    answer: Option<Result<FieldValue, E>>,
    outcome: Result<FieldValue, E>,
)
    requires
        computes(concurrent, awaits, function),
        forall|vertex: &Vertex, given: Result<FieldValue, E>| #[trigger]
            call_ensures(sequential, (vertex,), given) ==> given == function(*vertex),
        is_started::<V, Vertex, Pending, F>(context, concurrent, pending),
        is_awaited(awaits, pending, answer),
        TryPropertyWith::<Vertex, R>::using(sequential).gives(context, outcome),
    ensures
        value_or_null(answer) == outcome,
        outcome == match context.vertex::<Vertex>() {
            Some(vertex) => function(vertex),
            None => Ok(FieldValue::Null),
        },
{
}

/// Where both ways compute a function of the vertex, a coercion that was started, awaited and made
/// an outcome is the outcome of testing one context at a time: the function of the active vertex,
/// and `false` where there is none.
pub proof fn law_concurrent_and_sequential_coercions_agree<
    V: AsVertex<Vertex>,
    Vertex: Clone,
    E,
    Pending,
    F: Fn(Vertex) -> Pending,
    R: FnMut(&Vertex) -> Result<bool, E>,
>(
    sequential: R,
    concurrent: F,
    awaits: spec_fn(Pending, Result<bool, E>) -> bool,
    function: spec_fn(Vertex) -> Result<bool, E>,
    context: DataContext<V>,
    pending: Option<Pending>,
    answer: Option<Result<bool, E>>,
    outcome: Result<bool, E>,
)
    requires
        computes(concurrent, awaits, function),
        forall|vertex: &Vertex, given: Result<bool, E>| #[trigger]
            call_ensures(sequential, (vertex,), given) ==> given == function(*vertex),
        is_started::<V, Vertex, Pending, F>(context, concurrent, pending),
        is_awaited(awaits, pending, answer),
        TryCoercionWith::<Vertex, R>::using(sequential).gives(context, outcome),
    ensures
        test_or_false(answer) == outcome,
        outcome == match context.vertex::<Vertex>() {
            Some(vertex) => function(vertex),
            None => Ok(false),
        },
{
}

/// Resolving an edge concurrently gives, for each context, what resolving it one context at a time
/// gives: the neighbors of the awaited answer about a clone of the active vertex, and none, with
/// nothing started, where there is none.
pub proof fn law_concurrent_neighbors_are_the_sequential_ones<
    'vertex,
    S: 'vertex,
    V: AsVertex<Vertex>,
    Vertex: Clone + 'vertex,
    E: 'vertex,
    Pending,
    F: Fn(Vertex) -> Pending,
    R: FnMut(&Vertex) -> VertexIterator<'vertex, S, Result<Vertex, E>>,
>(
    sequential: R,
    concurrent: F,
    awaits: spec_fn(Pending, Result<VertexIterator<'vertex, S, Vertex>, E>) -> bool,
    context: DataContext<V>,
    outcome: VertexIterator<'vertex, S, Result<Vertex, E>>,
)
    requires
        resolves_clones::<Vertex, Pending, VertexIterator<'vertex, S, Result<Vertex, E>>, F, R>(
            sequential,
            concurrent,
            awaits_neighbors(awaits),
        ),
    ensures
        TryNeighborsWith::<Vertex, R>::using(sequential).gives(context, outcome) <==> exists|
            pending: Option<Pending>,
            answer: Option<Result<VertexIterator<'vertex, S, Vertex>, E>>,
        | {
            &&& #[trigger] is_started::<V, Vertex, Pending, F>(context, concurrent, pending)
            &&& #[trigger] is_awaited(awaits, pending, answer)
            &&& outcome == neighbors_or_none(answer)
        },
        context.vertex::<Vertex>() is None <==> is_started::<V, Vertex, Pending, F>(
            context,
            concurrent,
            None,
        ),
{
    match context.vertex::<Vertex>() {
        Some(vertex) => {
            if call_ensures(sequential, (&vertex,), outcome) {
                let started = choose|started: Pending| #[trigger]
                    starts(concurrent, vertex, started) && awaits_neighbors(awaits)(
                        started,
                        outcome,
                    );
                let given = choose|given: Result<VertexIterator<'vertex, S, Vertex>, E>| #[trigger]
                    awaits(started, given) && outcome == neighbors_or_none(Some(given));
                assert(is_started::<V, Vertex, Pending, F>(context, concurrent, Some(started)));
                assert(is_awaited(awaits, Some(started), Some(given)));
            }
        },
        None => {
            assert(is_started::<V, Vertex, Pending, F>(context, concurrent, None));
            assert(is_awaited::<Pending, Result<VertexIterator<'vertex, S, Vertex>, E>>(
                awaits,
                None,
                None,
            ));
        },
    }
}

/// The neighbors that come of an answer which came of what was started, by `awaits`.
pub open spec fn awaits_neighbors<'vertex, S: 'vertex, Vertex: 'vertex, E: 'vertex, Pending>(
    awaits: spec_fn(Pending, Result<VertexIterator<'vertex, S, Vertex>, E>) -> bool,
) -> spec_fn(Pending, VertexIterator<'vertex, S, Result<Vertex, E>>) -> bool {
    |started: Pending, neighbors: VertexIterator<'vertex, S, Result<Vertex, E>>|
        exists|given: Result<VertexIterator<'vertex, S, Vertex>, E>| #[trigger]
            awaits(started, given) && neighbors == neighbors_or_none(Some(given))
}

/// `item` is what `resolve` makes of a poll of contexts: the context with an outcome.
pub open spec fn resolves<S, V, O, P: ResolveContext<V, O>>(
    resolve: P,
    poll: Pulled<S, DataContext<V>>,
    item: Option<(DataContext<V>, O)>,
) -> bool {
    match poll.item {
        Some(context) => item matches Some((kept, outcome)) && kept == context && resolve.gives(
            context,
            outcome,
        ),
        None => item is None,
    }
}

/// `item` is what comes of a poll of contexts: the context with an outcome that `gives` has for it.
pub open spec fn is_outcome<S, V, O>(
    gives: spec_fn(DataContext<V>, O) -> bool,
    poll: Pulled<S, DataContext<V>>,
    item: Option<(DataContext<V>, O)>,
) -> bool {
    match poll.item {
        Some(context) => item matches Some((kept, outcome)) && kept == context && gives(
            context,
            outcome,
        ),
        None => item is None,
    }
}

/// `log` is what `resolve` makes of `polls` of contexts: pull by pull, the context with an outcome.
pub open spec fn is_resolution<S, V, O, P: ResolveContext<V, O>>(
    resolve: P,
    log: Seq<Pulled<S, (DataContext<V>, O)>>,
    polls: Seq<Pulled<S, DataContext<V>>>,
) -> bool {
    &&& log.len() == polls.len()
    &&& forall|i: int|
        #![trigger log[i]]
        0 <= i < log.len() ==> {
            &&& log[i].before == polls[i].before
            &&& log[i].after == polls[i].after
            &&& resolves(resolve, polls[i], log[i].item)
        }
}

/// The behavior of the outcomes of contexts, given the behavior of the contexts and what was behind
/// them when the outcomes were made.
pub open spec fn outcome_behavior<S, V, O, P: ResolveContext<V, O>>(
    resolve: P,
    source: Behavior<S, DataContext<V>>,
    base: Seq<Pulled<S, DataContext<V>>>,
) -> Behavior<S, (DataContext<V>, O)> {
    |log: Seq<Pulled<S, (DataContext<V>, O)>>|
        exists|polls: Seq<Pulled<S, DataContext<V>>>| #[trigger]
            may_follow(source, base, polls) && is_resolution(resolve, log, polls)
}

/// The outcomes of contexts, one at a time: a pull pulls one context and resolves it.
#[verifier::reject_recursive_types(S)]
#[verifier::reject_recursive_types(V)]
#[verifier::reject_recursive_types(O)]
pub struct ContextOutcomes<C, S, V, O, P> {
    contexts: C,
    resolve: P,
    start: Ghost<int>,
    log: Ghost<Seq<Pulled<S, (DataContext<V>, O)>>>,
}

impl<C: Pull<S, DataContext<V>>, S, V, O, P: ResolveContext<V, O>> ContextOutcomes<C, S, V, O, P> {
    /// The contexts.
    pub closed spec fn contexts(&self) -> C {
        self.contexts
    }

    /// The function that resolves them.
    pub closed spec fn resolve(&self) -> P {
        self.resolve
    }

    /// What was behind the contexts when the outcomes were made.
    pub closed spec fn base(&self) -> Seq<Pulled<S, DataContext<V>>> {
        self.contexts.log().take(self.start@)
    }

    /// The polls of the contexts since the outcomes were made.
    pub closed spec fn polls(&self) -> Seq<Pulled<S, DataContext<V>>> {
        self.contexts.log().skip(self.start@)
    }

    /// The outcomes of `contexts` under `resolve`, before their first pull.
    pub closed spec fn fresh(contexts: C, resolve: P) -> Self {
        ContextOutcomes {
            contexts,
            resolve,
            start: Ghost(contexts.log().len() as int),
            log: Ghost(Seq::empty()),
        }
    }

    /// Makes the outcomes of `contexts` under `resolve`.
    pub fn new(contexts: C, resolve: P) -> (outcomes: Self)
        ensures
            outcomes == Self::fresh(contexts, resolve),
            outcomes.contexts() == contexts,
            outcomes.resolve() == resolve,
            outcomes.base() == contexts.log(),
            outcomes.polls().len() == 0,
            outcomes.log().len() == 0,
            contexts.ready() && resolve.ready() ==> outcomes.ready(),
    {
        ContextOutcomes {
            contexts,
            resolve,
            start: Ghost(contexts.log().len() as int),
            log: Ghost(Seq::empty()),
        }
    }

    /// Every pull of an outcome pulled one context: the context comes back in its place, with an
    /// outcome that the function gives for it.
    pub proof fn law_one_outcome_for_each_context(&self)
        requires
            self.ready(),
        ensures
            is_resolution(self.resolve(), self.log(), self.polls()),
    {
    }

    /// The contexts that were pulled are those of before the outcomes were made, and then one for
    /// each outcome.
    pub proof fn law_contexts_were_polled(&self)
        requires
            self.ready(),
        ensures
            self.contexts().log() == self.base() + self.polls(),
    {
        assert(self.contexts().log() =~= self.base() + self.polls());
    }

    /// Boxed outcomes behave as the contexts do, each with an outcome.
    pub proof fn law_boxed<'vertex>(contexts: C, resolve: P) where
        C: 'vertex,
        S: 'vertex,
        V: 'vertex,
        O: 'vertex,
        P: 'vertex,

        ensures
            boxed::<_, _, Self>(Self::fresh(contexts, resolve)).log().len() == 0,
            boxed::<_, _, Self>(Self::fresh(contexts, resolve)).behavior() == outcome_behavior(
                resolve,
                contexts.behavior(),
                contexts.log(),
            ),
            contexts.ready() && resolve.ready() ==> boxed::<_, _, Self>(
                Self::fresh(contexts, resolve),
            ).ready(),
    {
        assert(Self::fresh(contexts, resolve).base() =~= contexts.log());
    }
}

impl<C: Pull<S, DataContext<V>>, S, V, O, P: ResolveContext<V, O>> Pull<
    S,
    (DataContext<V>, O),
> for ContextOutcomes<C, S, V, O, P> {
    closed spec fn ready(&self) -> bool {
        &&& self.contexts.ready()
        &&& self.resolve.ready()
        &&& 0 <= self.start@ <= self.contexts.log().len()
        &&& may_follow(self.contexts.behavior(), self.base(), self.polls())
        &&& is_resolution(self.resolve, self.log@, self.polls())
    }

    closed spec fn log(&self) -> Seq<Pulled<S, (DataContext<V>, O)>> {
        self.log@
    }

    open spec fn behavior(&self) -> Behavior<S, (DataContext<V>, O)> {
        outcome_behavior(self.resolve(), self.contexts().behavior(), self.base())
    }

    fn next(&mut self, state: &mut S) -> (item: Option<(DataContext<V>, O)>)
        ensures
            ({
                let poll = final(self).contexts().log().last();
                &&& final(self).contexts().log() == old(self).contexts().log().push(poll)
                &&& (final(self).contexts().behavior())(final(self).contexts().log())
                &&& final(self).polls() == old(self).polls().push(poll)
                &&& final(self).resolve() == old(self).resolve()
                &&& poll.before == *old(state)
                &&& poll.after == *final(state)
                &&& resolves(old(self).resolve(), poll, item)
                &&& match poll.item {
                    Some(context) => item matches Some((kept, outcome)) && kept == context && old(
                        self,
                    ).resolve().gives(context, outcome),
                    None => item is None,
                }
            }),
            final(self).base() == old(self).base(),
            final(self).contexts().behavior() == old(self).contexts().behavior(),
            may_follow(final(self).contexts().behavior(), final(self).base(), final(self).polls()),
    {
        let ghost before = *state;
        let ghost polled = self.contexts.log();
        let item = match self.contexts.next(state) {
            Some(context) => {
                let outcome = self.resolve.resolve(&context);
                Some((context, outcome))
            },
            None => None,
        };
        self.log = Ghost(self.log@.push(pulled(before, item, *state)));
        proof {
            let poll = self.contexts.log().last();
            lemma_one_more_poll(self.contexts.behavior(), polled, self.start@, poll);
        }
        item
    }
}

/// Resolves a property of each context by a function of the vertex. A context without an active
/// vertex has the property `Null`.
pub fn resolve_property_with<
    'vertex,
    S,
    V: AsVertex<Vertex>,
    Vertex,
    E,
    R: FnMut(&Vertex) -> FieldValue,
>(contexts: ContextIterator<'vertex, S, V>, resolver: R) -> (outcomes: ContextOutcomes<
    ContextIterator<'vertex, S, V>,
    S,
    V,
    Result<FieldValue, E>,
    PropertyWith<Vertex, R>,
>)
    requires
        contexts.ready(),
        forall|vertex: &Vertex| call_requires(resolver, (vertex,)),
    ensures
        outcomes == ContextOutcomes::<_, S, V, Result<FieldValue, E>, _>::fresh(
            contexts,
            PropertyWith::using(resolver),
        ),
        outcomes.ready(),
        outcomes.contexts() == contexts,
        outcomes.base() == contexts.log(),
        outcomes.resolve().resolver() == resolver,
        forall|
            poll: Pulled<S, DataContext<V>>,
            item: Option<(DataContext<V>, Result<FieldValue, E>)>,
        |
            #[trigger] resolves(outcomes.resolve(), poll, item) <==> is_outcome(
                |context: DataContext<V>, outcome: Result<FieldValue, E>|
                    is_returned_ok::<V, Vertex, FieldValue, E, R>(
                        resolver,
                        FieldValue::Null,
                        context,
                        outcome,
                    ),
                poll,
                item,
            ),
        outcomes.polls().len() == 0,
        outcomes.log().len() == 0,
{
    ContextOutcomes::new(contexts, PropertyWith::new(resolver))
}

/// Resolves a property of each context by a fallible function of the vertex, whose error is the
/// outcome. A context without an active vertex has the property `Null`.
pub fn try_resolve_property_with<
    'vertex,
    S,
    V: AsVertex<Vertex>,
    Vertex,
    E,
    R: FnMut(&Vertex) -> Result<FieldValue, E>,
>(contexts: ContextIterator<'vertex, S, V>, resolver: R) -> (outcomes: ContextOutcomes<
    ContextIterator<'vertex, S, V>,
    S,
    V,
    Result<FieldValue, E>,
    TryPropertyWith<Vertex, R>,
>)
    requires
        contexts.ready(),
        forall|vertex: &Vertex| call_requires(resolver, (vertex,)),
    ensures
        outcomes == ContextOutcomes::<_, S, V, Result<FieldValue, E>, _>::fresh(
            contexts,
            TryPropertyWith::using(resolver),
        ),
        outcomes.ready(),
        outcomes.contexts() == contexts,
        outcomes.base() == contexts.log(),
        outcomes.resolve().resolver() == resolver,
        forall|
            poll: Pulled<S, DataContext<V>>,
            item: Option<(DataContext<V>, Result<FieldValue, E>)>,
        |
            #[trigger] resolves(outcomes.resolve(), poll, item) <==> is_outcome(
                |context: DataContext<V>, outcome: Result<FieldValue, E>|
                    is_returned::<V, Vertex, Result<FieldValue, E>, R>(
                        resolver,
                        Ok(FieldValue::Null),
                        context,
                        outcome,
                    ),
                poll,
                item,
            ),
        outcomes.polls().len() == 0,
        outcomes.log().len() == 0,
{
    ContextOutcomes::new(contexts, TryPropertyWith::new(resolver))
}

/// Resolves an edge of each context by a function from the vertex to its neighbors, each of which
/// becomes `Ok`. A context without an active vertex has no neighbors.
pub fn resolve_neighbors_with<
    'vertex,
    S: 'vertex,
    V: AsVertex<Vertex>,
    Vertex: 'vertex,
    E: 'vertex,
    R: FnMut(&Vertex) -> VertexIterator<'vertex, S, Vertex>,
>(contexts: ContextIterator<'vertex, S, V>, resolver: R) -> (outcomes: ContextOutcomes<
    ContextIterator<'vertex, S, V>,
    S,
    V,
    VertexIterator<'vertex, S, Result<Vertex, E>>,
    NeighborsWith<Vertex, R>,
>)
    requires
        contexts.ready(),
        forall|vertex: &Vertex| call_requires(resolver, (vertex,)),
    ensures
        outcomes == ContextOutcomes::<
            _,
            S,
            V,
            VertexIterator<'vertex, S, Result<Vertex, E>>,
            _,
        >::fresh(
            contexts,
            NeighborsWith::using(resolver),
        ),
        outcomes.ready(),
        outcomes.contexts() == contexts,
        outcomes.base() == contexts.log(),
        outcomes.resolve().resolver() == resolver,
        forall|
            poll: Pulled<S, DataContext<V>>,
            item: Option<(DataContext<V>, VertexIterator<'vertex, S, Result<Vertex, E>>)>,
        |
            #[trigger] resolves(outcomes.resolve(), poll, item) <==> is_outcome(
                |context: DataContext<V>, outcome: VertexIterator<'vertex, S, Result<Vertex, E>>|
                    are_returned_ok::<V, Vertex, E, S, R>(resolver, context, outcome),
                poll,
                item,
            ),
        outcomes.polls().len() == 0,
        outcomes.log().len() == 0,
{
    ContextOutcomes::new(contexts, NeighborsWith::new(resolver))
}

/// Resolves an edge of each context by a function from the vertex to its neighbors, each of which
/// may have failed. A context without an active vertex has no neighbors.
pub fn try_resolve_neighbors_with<
    'vertex,
    S: 'vertex,
    V: AsVertex<Vertex>,
    Vertex: 'vertex,
    E: 'vertex,
    R: FnMut(&Vertex) -> VertexIterator<'vertex, S, Result<Vertex, E>>,
>(contexts: ContextIterator<'vertex, S, V>, resolver: R) -> (outcomes: ContextOutcomes<
    ContextIterator<'vertex, S, V>,
    S,
    V,
    VertexIterator<'vertex, S, Result<Vertex, E>>,
    TryNeighborsWith<Vertex, R>,
>)
    requires
        contexts.ready(),
        forall|vertex: &Vertex| call_requires(resolver, (vertex,)),
    ensures
        outcomes == ContextOutcomes::<
            _,
            S,
            V,
            VertexIterator<'vertex, S, Result<Vertex, E>>,
            _,
        >::fresh(
            contexts,
            TryNeighborsWith::using(resolver),
        ),
        outcomes.ready(),
        outcomes.contexts() == contexts,
        outcomes.base() == contexts.log(),
        outcomes.resolve().resolver() == resolver,
        forall|
            poll: Pulled<S, DataContext<V>>,
            item: Option<(DataContext<V>, VertexIterator<'vertex, S, Result<Vertex, E>>)>,
        |
            #[trigger] resolves(outcomes.resolve(), poll, item) <==> is_outcome(
                |context: DataContext<V>, outcome: VertexIterator<'vertex, S, Result<Vertex, E>>|
                    is_returned::<V, Vertex, VertexIterator<'vertex, S, Result<Vertex, E>>, R>(
                        resolver,
                        neighbors_or_none(None),
                        context,
                        outcome,
                    ),
                poll,
                item,
            ),
        outcomes.polls().len() == 0,
        outcomes.log().len() == 0,
{
    ContextOutcomes::new(contexts, TryNeighborsWith::new(resolver))
}

/// Tests a coercion of each context by a function of the vertex. A context without an active vertex
/// cannot be coerced.
pub fn resolve_coercion_with<
    'vertex,
    S,
    V: AsVertex<Vertex>,
    Vertex,
    E,
    R: FnMut(&Vertex) -> bool,
>(contexts: ContextIterator<'vertex, S, V>, resolver: R) -> (outcomes: ContextOutcomes<
    ContextIterator<'vertex, S, V>,
    S,
    V,
    Result<bool, E>,
    CoercionWith<Vertex, R>,
>)
    requires
        contexts.ready(),
        forall|vertex: &Vertex| call_requires(resolver, (vertex,)),
    ensures
        outcomes == ContextOutcomes::<_, S, V, Result<bool, E>, _>::fresh(
            contexts,
            CoercionWith::using(resolver),
        ),
        outcomes.ready(),
        outcomes.contexts() == contexts,
        outcomes.base() == contexts.log(),
        outcomes.resolve().resolver() == resolver,
        forall|
            poll: Pulled<S, DataContext<V>>,
            item: Option<(DataContext<V>, Result<bool, E>)>,
        |
            #[trigger] resolves(outcomes.resolve(), poll, item) <==> is_outcome(
                |context: DataContext<V>, outcome: Result<bool, E>|
                    is_returned_ok::<V, Vertex, bool, E, R>(resolver, false, context, outcome),
                poll,
                item,
            ),
        outcomes.polls().len() == 0,
        outcomes.log().len() == 0,
{
    ContextOutcomes::new(contexts, CoercionWith::new(resolver))
}

/// Tests a coercion of each context by a fallible function of the vertex, whose error is the
/// outcome. A context without an active vertex cannot be coerced.
pub fn try_resolve_coercion_with<
    'vertex,
    S,
    V: AsVertex<Vertex>,
    Vertex,
    E,
    R: FnMut(&Vertex) -> Result<bool, E>,
>(contexts: ContextIterator<'vertex, S, V>, resolver: R) -> (outcomes: ContextOutcomes<
    ContextIterator<'vertex, S, V>,
    S,
    V,
    Result<bool, E>,
    TryCoercionWith<Vertex, R>,
>)
    requires
        contexts.ready(),
        forall|vertex: &Vertex| call_requires(resolver, (vertex,)),
    ensures
        outcomes == ContextOutcomes::<_, S, V, Result<bool, E>, _>::fresh(
            contexts,
            TryCoercionWith::using(resolver),
        ),
        outcomes.ready(),
        outcomes.contexts() == contexts,
        outcomes.base() == contexts.log(),
        outcomes.resolve().resolver() == resolver,
        forall|
            poll: Pulled<S, DataContext<V>>,
            item: Option<(DataContext<V>, Result<bool, E>)>,
        |
            #[trigger] resolves(outcomes.resolve(), poll, item) <==> is_outcome(
                |context: DataContext<V>, outcome: Result<bool, E>|
                    is_returned::<V, Vertex, Result<bool, E>, R>(
                        resolver,
                        Ok(false),
                        context,
                        outcome,
                    ),
                poll,
                item,
            ),
        outcomes.polls().len() == 0,
        outcomes.log().len() == 0,
{
    ContextOutcomes::new(contexts, TryCoercionWith::new(resolver))
}

} // verus!
