//! A synchronous adapter behind an asynchronous stream of contexts.
//!
//! The stream itself is awaited elsewhere. What stands here decides, after every item, whether the
//! adapter has more to say about the context at hand or the stream owes the next context.

use std::sync::Arc;

use vstd::prelude::*;

use crate::adapter::{
    Adapter, AsVertex, ContextIterator, ContextOutcomeIterator, DataContext, NeighborResolution,
    ResolveEdgeInfo, ResolveInfo,
};
use crate::helpers::{is_resolution, ContextOutcomes, ResolveContext};
use crate::ir::{EdgeParameters, FieldValue};
use crate::pull::{
    boxed, lemma_yielded_push, may_follow, yielded, Once, Pull, Pulled, VertexIterator,
};

verus! {

/// A call of a synchronous resolver on a single context.
pub trait ResolveOne<'vertex, S, V, O> {
    /// The resolver may give `outcomes` for the sequence of `context` alone.
    spec fn gives(
        &self,
        context: DataContext<V>,
        outcomes: ContextOutcomeIterator<'vertex, S, V, O>,
    ) -> bool;

    /// Calls the resolver on the sequence of `context` alone.
    fn resolve_one(&self, context: DataContext<V>) -> (outcomes: ContextOutcomeIterator<
        'vertex,
        S,
        V,
        O,
    >)
        ensures
            outcomes.ready(),
            self.gives(context, outcomes),
    ;
}

/// What a bridge does next.
pub enum Step<T> {
    /// It yields an item.
    Yield(T),
    /// It waits for the next context.
    NeedContext,
}

/// Every pull gave an item.
pub open spec fn all_gave<S, T>(pulls: Seq<Pulled<S, T>>) -> bool {
    forall|i: int| 0 <= i < pulls.len() ==> (#[trigger] pulls[i]).item is Some
}

/// The last pull, and no other, gave nothing.
pub open spec fn is_exhausting<S, T>(pulls: Seq<Pulled<S, T>>) -> bool {
    pulls.len() > 0 && pulls.last().item is None && all_gave(pulls.drop_last())
}

/// `pulls` may come of the outcomes that a resolver gave.
pub open spec fn comes_from<'vertex, S, V, O>(
    outcomes: ContextOutcomeIterator<'vertex, S, V, O>,
    pulls: Seq<Pulled<S, (DataContext<V>, O)>>,
) -> bool {
    may_follow(outcomes.behavior(), outcomes.log(), pulls)
}

/// The outcomes are one, and it is that of `context`.
pub open spec fn resolves_one<'vertex, S, V, O>(
    outcomes: ContextOutcomeIterator<'vertex, S, V, O>,
    context: DataContext<V>,
) -> bool {
    forall|pulls: Seq<Pulled<S, (DataContext<V>, O)>>| #[trigger]
        comes_from(outcomes, pulls) && is_exhausting(pulls) ==> yielded(pulls).len() == 1
            && yielded(pulls)[0].0 == context
}

/// The items of all rounds, round after round.
pub open spec fn all_yielded<S, T>(rounds: Seq<Seq<Pulled<S, T>>>) -> Seq<T>
    decreases rounds.len(),
{
    if rounds.len() == 0 {
        Seq::empty()
    } else {
        all_yielded(rounds.drop_last()) + yielded(rounds.last())
    }
}

/// The outcomes of a stream of contexts: each context is resolved, and its outcomes are yielded,
/// before the next one is asked for.
#[verifier::reject_recursive_types(S)]
#[verifier::reject_recursive_types(V)]
#[verifier::reject_recursive_types(O)]
pub struct Bridge<'vertex, S, V, O, P> {
    call: P,
    /// The outcomes of the latest context.
    outcomes: Option<ContextOutcomeIterator<'vertex, S, V, O>>,
    /// Those outcomes have come to their end.
    waiting: bool,
    start: Ghost<int>,
    contexts: Ghost<Seq<DataContext<V>>>,
    given: Ghost<Seq<ContextOutcomeIterator<'vertex, S, V, O>>>,
    rounds: Ghost<Seq<Seq<Pulled<S, (DataContext<V>, O)>>>>,
    items: Ghost<Seq<(DataContext<V>, O)>>,
}

impl<'vertex, S, V, O, P: ResolveOne<'vertex, S, V, O>> Bridge<'vertex, S, V, O, P> {
    /// The resolver.
    pub closed spec fn call(&self) -> P {
        self.call
    }

    /// The bridge waits for the next context.
    pub closed spec fn waiting(&self) -> bool {
        self.waiting
    }

    /// The outcomes of the latest context.
    pub closed spec fn outcomes(&self) -> Option<ContextOutcomeIterator<'vertex, S, V, O>> {
        self.outcomes
    }

    /// The pulls of the outcomes of the context at hand.
    pub closed spec fn round(&self) -> Seq<Pulled<S, (DataContext<V>, O)>> {
        if self.waiting {
            Seq::empty()
        } else {
            self.outcomes->0.log().skip(self.start@)
        }
    }

    /// The contexts that were supplied.
    pub closed spec fn contexts(&self) -> Seq<DataContext<V>> {
        self.contexts@
    }

    /// What the resolver gave for each context that was supplied.
    pub closed spec fn given(&self) -> Seq<ContextOutcomeIterator<'vertex, S, V, O>> {
        self.given@
    }

    /// The pulls of the outcomes of each context that the bridge is done with.
    pub closed spec fn rounds(&self) -> Seq<Seq<Pulled<S, (DataContext<V>, O)>>> {
        self.rounds@
    }

    /// The items that were yielded.
    pub closed spec fn items(&self) -> Seq<(DataContext<V>, O)> {
        self.items@
    }

    /// What the bridge keeps at all times.
    pub closed spec fn ready(&self) -> bool {
        &&& !self.waiting ==> {
            &&& self.outcomes matches Some(outcomes)
            &&& outcomes.ready()
            &&& outcomes.behavior() == self.given@.last().behavior()
            &&& 0 <= self.start@ <= outcomes.log().len()
            &&& outcomes.log().take(self.start@) == self.given@.last().log()
            &&& comes_from(self.given@.last(), self.round())
        }
        &&& self.contexts@.len() == self.rounds@.len() + (if self.waiting {
            0int
        } else {
            1
        })
        &&& self.given@.len() == self.contexts@.len()
        &&& forall|i: int|
            0 <= i < self.given@.len() ==> self.call.gives(
                self.contexts@[i],
                #[trigger] self.given@[i],
            )
        &&& forall|i: int|
            0 <= i < self.rounds@.len() ==> is_exhausting(#[trigger] self.rounds@[i])
                && comes_from(self.given@[i], self.rounds@[i])
        &&& all_gave(self.round())
        &&& self.items@ == all_yielded(self.rounds@) + yielded(self.round())
    }

    /// Makes a bridge that waits for its first context.
    pub fn new(call: P) -> (bridge: Self)
        ensures
            bridge.ready(),
            bridge.call() == call,
            bridge.waiting(),
            bridge.contexts().len() == 0,
            bridge.given().len() == 0,
            bridge.rounds().len() == 0,
            bridge.items().len() == 0,
    {
        Bridge {
            call,
            outcomes: None,
            waiting: true,
            start: Ghost(0),
            contexts: Ghost(Seq::empty()),
            given: Ghost(Seq::empty()),
            rounds: Ghost(Seq::empty()),
            items: Ghost(Seq::empty()),
        }
    }

    /// Hands the next context to the resolver.
    pub fn supply(&mut self, context: DataContext<V>)
        requires
            old(self).ready(),
            old(self).waiting(),
        ensures
            final(self).ready(),
            final(self).call() == old(self).call(),
            !final(self).waiting(),
            final(self).outcomes() matches Some(outcomes) && {
                &&& old(self).call().gives(context, outcomes)
                &&& final(self).given() == old(self).given().push(outcomes)
            },
            final(self).round().len() == 0,
            final(self).contexts() == old(self).contexts().push(context),
            final(self).rounds() == old(self).rounds(),
            final(self).items() == old(self).items(),
    {
        let ghost supplied = context;
        let outcomes = self.call.resolve_one(context);
        self.contexts = Ghost(self.contexts@.push(supplied));
        self.given = Ghost(self.given@.push(outcomes));
        self.start = Ghost(outcomes.log().len() as int);
        self.outcomes = Some(outcomes);
        self.waiting = false;
        proof {
            assert(self.given@.last().log() =~= self.outcomes->0.log().take(self.start@));
        }
    }

    /// Goes on with the context at hand, where there is one.
    pub fn poll(&mut self, state: &mut S) -> (step: Step<(DataContext<V>, O)>)
        requires
            old(self).ready(),
        ensures
            final(self).ready(),
            final(self).call() == old(self).call(),
            final(self).contexts() == old(self).contexts(),
            final(self).given() == old(self).given(),
            old(self).waiting() ==> {
                &&& step is NeedContext
                &&& *final(self) == *old(self)
                &&& *final(state) == *old(state)
            },
            !old(self).waiting() ==> {
                let pull = final(self).outcomes()->0.log().last();
                let round = old(self).round().push(pull);
                &&& final(self).outcomes() is Some
                &&& final(self).outcomes()->0.log() == old(self).outcomes()->0.log().push(pull)
                &&& pull.before == *old(state)
                &&& pull.after == *final(state)
                &&& match pull.item {
                    Some(item) => {
                        &&& step == Step::Yield(item)
                        &&& !final(self).waiting()
                        &&& final(self).round() == round
                        &&& final(self).rounds() == old(self).rounds()
                        &&& final(self).items() == old(self).items().push(item)
                    },
                    None => {
                        &&& step is NeedContext
                        &&& final(self).waiting()
                        &&& final(self).rounds() == old(self).rounds().push(round)
                        &&& final(self).items() == old(self).items()
                    },
                }
            },
    {
        if self.waiting {
            return Step::NeedContext;
        }
        let ghost round = self.round();
        match self.outcomes.take() {
            None => Step::NeedContext,
            Some(taken) => {
                let ghost before = taken.log();
                let mut outcomes = taken;
                let item = outcomes.next(state);
                let ghost pull = outcomes.log().last();
                let ghost longer = outcomes.log().skip(self.start@);
                proof {
                    let given = self.given@.last();
                    assert(outcomes.log().take(self.start@) =~= before.take(self.start@));
                    assert(given.log() + longer =~= outcomes.log());
                    assert(longer =~= round.push(pull));
                    lemma_yielded_push(round, pull);
                }
                self.outcomes = Some(outcomes);
                match item {
                    Some(item) => {
                        self.items = Ghost(self.items@.push(item));
                        Step::Yield(item)
                    },
                    None => {
                        self.waiting = true;
                        proof {
                            assert(self.rounds@.push(longer).drop_last() =~= self.rounds@);
                            assert(all_yielded(self.rounds@.push(longer)) + yielded(
                                Seq::<Pulled<S, (DataContext<V>, O)>>::empty(),
                            ) =~= self.items@);
                        }
                        self.rounds = Ghost(self.rounds@.push(longer));
                        Step::NeedContext
                    },
                }
            },
        }
    }

    /// What came out is what the resolver gave for one context after the other: every earlier
    /// context was asked until nothing was left, and only then was the next one supplied.
    pub proof fn law_one_context_at_a_time(&self)
        requires
            self.ready(),
        ensures
            self.items() == all_yielded(self.rounds()) + yielded(self.round()),
            self.waiting() ==> self.round().len() == 0 && self.items() == all_yielded(
                self.rounds(),
            ),
            self.rounds().len() <= self.contexts().len() <= self.rounds().len() + 1,
            self.contexts().len() == self.rounds().len() <==> self.waiting(),
            self.given().len() == self.contexts().len(),
            forall|i: int|
                0 <= i < self.given().len() ==> self.call().gives(
                    self.contexts()[i],
                    #[trigger] self.given()[i],
                ),
            forall|i: int|
                0 <= i < self.rounds().len() ==> is_exhausting(#[trigger] self.rounds()[i])
                    && comes_from(self.given()[i], self.rounds()[i]),
            !self.waiting() ==> all_gave(self.round()) && comes_from(
                self.given().last(),
                self.round(),
            ),
    {
    }
}

impl<'vertex, S, V, O, P: ResolveOne<'vertex, S, V, O>> Bridge<'vertex, S, V, O, P> {
    /// Where the resolver gives each context that was supplied the one outcome that it owes, one
    /// outcome for each context comes out, in the order of the contexts.
    pub proof fn law_pairing_is_kept(&self)
        requires
            self.ready(),
            self.waiting(),
            forall|i: int|
                0 <= i < self.contexts().len() ==> resolves_one(
                    self.given()[i],
                    #[trigger] self.contexts()[i],
                ),
        ensures
            self.items().map_values(|item: (DataContext<V>, O)| item.0) == self.contexts(),
    {
        assert forall|i: int| 0 <= i < self.rounds().len() implies {
            &&& yielded(#[trigger] self.rounds()[i]).len() == 1
            &&& yielded(self.rounds()[i])[0].0 == self.contexts()[i]
        } by {
            assert(resolves_one(self.given()[i], self.contexts()[i]));
        }
        lemma_one_item_each(self.rounds(), self.contexts());
    }
}

/// A resolver that resolves its contexts one at a time gives one outcome for a context that comes
/// alone.
pub proof fn law_a_context_alone_has_one_outcome<
    'vertex,
    S: 'vertex,
    V: 'vertex,
    O: 'vertex,
    P: ResolveContext<V, O> + 'vertex,
>(context: DataContext<V>, resolve: P)
    ensures
        resolves_one(
            boxed::<_, _, ContextOutcomes<ContextIterator<'vertex, S, V>, S, V, O, P>>(
                ContextOutcomes::fresh(boxed(Once::fresh(context)), resolve),
            ),
            context,
        ),
{
    let contexts: ContextIterator<'vertex, S, V> = boxed(Once::fresh(context));
    let outcomes = boxed::<_, _, ContextOutcomes<ContextIterator<'vertex, S, V>, S, V, O, P>>(
        ContextOutcomes::fresh(contexts, resolve),
    );
    Once::<S, DataContext<V>>::law_the_item_comes_once(context);
    ContextOutcomes::<_, S, V, O, P>::law_boxed(contexts, resolve);
    assert forall|pulls: Seq<Pulled<S, (DataContext<V>, O)>>| #[trigger]
        comes_from(outcomes, pulls) && is_exhausting(pulls) implies yielded(pulls).len() == 1
        && yielded(pulls)[0].0 == context by {
        let polls = choose|polls: Seq<Pulled<S, DataContext<V>>>| #[trigger]
            may_follow(contexts.behavior(), contexts.log(), polls) && is_resolution(
                resolve,
                pulls,
                polls,
            );
        assert(polls[0].item == Some(context));
        assert(pulls.len() > 2 ==> pulls.drop_last()[1].item is Some && polls[1].item is None);
        reveal_with_fuel(yielded, 3);
    }
}

/// Rounds of one item each yield as many items, round after round.
proof fn lemma_one_item_each<S, C, O>(rounds: Seq<Seq<Pulled<S, (C, O)>>>, contexts: Seq<C>)
    requires
        rounds.len() == contexts.len(),
        forall|i: int|
            0 <= i < rounds.len() ==> yielded(#[trigger] rounds[i]).len() == 1 && yielded(
                rounds[i],
            )[0].0 == contexts[i],
    ensures
        all_yielded(rounds).map_values(|item: (C, O)| item.0) == contexts,
    decreases rounds.len(),
{
    if rounds.len() > 0 {
        lemma_one_item_each(rounds.drop_last(), contexts.drop_last());
        assert(all_yielded(rounds).map_values(|item: (C, O)| item.0) =~= all_yielded(
            rounds.drop_last(),
        ).map_values(|item: (C, O)| item.0).push(contexts.last()));
    }
}

/// The resolution of a property by a synchronous adapter.
pub struct PropertyCall<A> {
    pub adapter: Arc<A>,
    pub vertex_type: Arc<str>,
    pub property_name: Arc<str>,
    pub resolve_info: ResolveInfo,
}

impl<'vertex, A: Adapter<'vertex>, S: 'vertex, V: AsVertex<A::Vertex> + 'vertex> ResolveOne<
    'vertex,
    S,
    V,
    Result<FieldValue, A::Error>,
> for PropertyCall<A> {
    open spec fn gives(
        &self,
        context: DataContext<V>,
        outcomes: ContextOutcomeIterator<'vertex, S, V, Result<FieldValue, A::Error>>,
    ) -> bool {
        call_ensures(
            A::resolve_property::<S, V>,
            (
                &*self.adapter,
                boxed(Once::fresh(context)),
                &self.vertex_type,
                &self.property_name,
                &self.resolve_info,
            ),
            outcomes,
        )
    }

    fn resolve_one(&self, context: DataContext<V>) -> (outcomes: ContextOutcomeIterator<
        'vertex,
        S,
        V,
        Result<FieldValue, A::Error>,
    >) {
        self.adapter.resolve_property(
            Once::new(context).boxed(),
            &self.vertex_type,
            &self.property_name,
            &self.resolve_info,
        )
    }
}

/// The resolution of an edge by a synchronous adapter.
pub struct NeighborsCall<A> {
    pub adapter: Arc<A>,
    pub vertex_type: Arc<str>,
    pub edge_name: Arc<str>,
    pub parameters: EdgeParameters,
    pub resolve_info: ResolveEdgeInfo,
}

impl<'vertex, A: Adapter<'vertex>, S: 'vertex, V: AsVertex<A::Vertex> + 'vertex> ResolveOne<
    'vertex,
    S,
    V,
    NeighborResolution<'vertex, S, A::Vertex, A::Error>,
> for NeighborsCall<A> {
    open spec fn gives(
        &self,
        context: DataContext<V>,
        outcomes: ContextOutcomeIterator<
            'vertex,
            S,
            V,
            NeighborResolution<'vertex, S, A::Vertex, A::Error>,
        >,
    ) -> bool {
        call_ensures(
            A::resolve_neighbors::<S, V>,
            (
                &*self.adapter,
                boxed(Once::fresh(context)),
                &self.vertex_type,
                &self.edge_name,
                &self.parameters,
                &self.resolve_info,
            ),
            outcomes,
        )
    }

    fn resolve_one(&self, context: DataContext<V>) -> (outcomes: ContextOutcomeIterator<
        'vertex,
        S,
        V,
        NeighborResolution<'vertex, S, A::Vertex, A::Error>,
    >) {
        self.adapter.resolve_neighbors(
            Once::new(context).boxed(),
            &self.vertex_type,
            &self.edge_name,
            &self.parameters,
            &self.resolve_info,
        )
    }
}

/// The test of a coercion by a synchronous adapter.
pub struct CoercionCall<A> {
    pub adapter: Arc<A>,
    pub vertex_type: Arc<str>,
    pub coerce_to_type: Arc<str>,
    pub resolve_info: ResolveInfo,
}

impl<'vertex, A: Adapter<'vertex>, S: 'vertex, V: AsVertex<A::Vertex> + 'vertex> ResolveOne<
    'vertex,
    S,
    V,
    Result<bool, A::Error>,
> for CoercionCall<A> {
    open spec fn gives(
        &self,
        context: DataContext<V>,
        outcomes: ContextOutcomeIterator<'vertex, S, V, Result<bool, A::Error>>,
    ) -> bool {
        call_ensures(
            A::resolve_coercion::<S, V>,
            (
                &*self.adapter,
                boxed(Once::fresh(context)),
                &self.vertex_type,
                &self.coerce_to_type,
                &self.resolve_info,
            ),
            outcomes,
        )
    }

    fn resolve_one(&self, context: DataContext<V>) -> (outcomes: ContextOutcomeIterator<
        'vertex,
        S,
        V,
        Result<bool, A::Error>,
    >) {
        self.adapter.resolve_coercion(
            Once::new(context).boxed(),
            &self.vertex_type,
            &self.coerce_to_type,
            &self.resolve_info,
        )
    }
}

/// A synchronous adapter for streams of contexts.
///
/// Each context goes to the adapter as a sequence of its own, and its outcomes come out before the
/// next context is taken from the stream.
pub struct SyncToAsyncAdapter<A> {
    inner: Arc<A>,
}

impl<A> SyncToAsyncAdapter<A> {
    /// The synchronous adapter.
    pub closed spec fn adapter(&self) -> Arc<A> {
        self.inner
    }

    /// Wraps a synchronous adapter.
    pub fn new(inner: Arc<A>) -> (bridged: Self)
        ensures
            bridged.adapter() == inner,
    {
        SyncToAsyncAdapter { inner }
    }

    /// Borrows the synchronous adapter.
    pub fn inner(&self) -> (inner: &Arc<A>)
        ensures
            *inner == self.adapter(),
    {
        &self.inner
    }
}

impl<A> Clone for SyncToAsyncAdapter<A> {
    fn clone(&self) -> (copy: Self)
        ensures
            copy.adapter() == self.adapter(),
    {
        SyncToAsyncAdapter { inner: Arc::clone(&self.inner) }
    }
}

impl<'vertex, A: Adapter<'vertex>> SyncToAsyncAdapter<A> {
    /// Resolves a starting edge into vertices, which become a stream as they are.
    pub fn resolve_starting_vertices<S: 'vertex>(
        &self,
        edge_name: &Arc<str>,
        parameters: &EdgeParameters,
        resolve_info: &ResolveInfo,
    ) -> (vertices: VertexIterator<'vertex, S, Result<A::Vertex, A::Error>>)
        ensures
            vertices.ready(),
            call_ensures(
                A::resolve_starting_vertices::<S>,
                (&*self.adapter(), edge_name, parameters, resolve_info),
                vertices,
            ),
    {
        self.inner.resolve_starting_vertices(edge_name, parameters, resolve_info)
    }

    /// Resolves a property of each context of a stream.
    pub fn resolve_property<S: 'vertex, V: AsVertex<A::Vertex> + 'vertex>(
        &self,
        vertex_type: &Arc<str>,
        property_name: &Arc<str>,
        resolve_info: &ResolveInfo,
    ) -> (bridge: Bridge<'vertex, S, V, Result<FieldValue, A::Error>, PropertyCall<A>>)
        ensures
            bridge.ready(),
            bridge.waiting(),
            bridge.contexts().len() == 0,
            bridge.rounds().len() == 0,
            bridge.items().len() == 0,
            bridge.call() == (PropertyCall {
                adapter: self.adapter(),
                vertex_type: *vertex_type,
                property_name: *property_name,
                resolve_info: *resolve_info,
            }),
            forall|
                context: DataContext<V>,
                outcomes: ContextOutcomeIterator<
                    'vertex,
                    S,
                    V,
                    Result<FieldValue, A::Error>,
                >,
            | #[trigger]
                bridge.call().gives(context, outcomes) <==> call_ensures(
                    A::resolve_property::<S, V>,
                    (
                        &*self.adapter(),
                        boxed(Once::fresh(context)),
                        vertex_type,
                        property_name,
                        resolve_info,
                    ),
                    outcomes,
                ),
    {
        Bridge::new(
            PropertyCall {
                adapter: Arc::clone(&self.inner),
                vertex_type: vertex_type.clone(),
                property_name: property_name.clone(),
                resolve_info: *resolve_info,
            },
        )
    }

    /// Resolves an edge of each context of a stream.
    pub fn resolve_neighbors<S: 'vertex, V: AsVertex<A::Vertex> + 'vertex>(
        &self,
        vertex_type: &Arc<str>,
        edge_name: &Arc<str>,
        parameters: &EdgeParameters,
        resolve_info: &ResolveEdgeInfo,
    ) -> (bridge: Bridge<
        'vertex,
        S,
        V,
        NeighborResolution<'vertex, S, A::Vertex, A::Error>,
        NeighborsCall<A>,
    >)
        ensures
            bridge.ready(),
            bridge.waiting(),
            bridge.contexts().len() == 0,
            bridge.rounds().len() == 0,
            bridge.items().len() == 0,
            bridge.call() == (NeighborsCall {
                adapter: self.adapter(),
                vertex_type: *vertex_type,
                edge_name: *edge_name,
                parameters: *parameters,
                resolve_info: *resolve_info,
            }),
            forall|
                context: DataContext<V>,
                outcomes: ContextOutcomeIterator<
                    'vertex,
                    S,
                    V,
                    NeighborResolution<'vertex, S, A::Vertex, A::Error>,
                >,
            | #[trigger]
                bridge.call().gives(context, outcomes) <==> call_ensures(
                    A::resolve_neighbors::<S, V>,
                    (
                        &*self.adapter(),
                        boxed(Once::fresh(context)),
                        vertex_type,
                        edge_name,
                        parameters,
                        resolve_info,
                    ),
                    outcomes,
                ),
    {
        Bridge::new(
            NeighborsCall {
                adapter: Arc::clone(&self.inner),
                vertex_type: vertex_type.clone(),
                edge_name: edge_name.clone(),
                parameters: parameters.clone(),
                resolve_info: *resolve_info,
            },
        )
    }

    /// Tests a coercion of each context of a stream.
    pub fn resolve_coercion<S: 'vertex, V: AsVertex<A::Vertex> + 'vertex>(
        &self,
        vertex_type: &Arc<str>,
        coerce_to_type: &Arc<str>,
        resolve_info: &ResolveInfo,
    ) -> (bridge: Bridge<'vertex, S, V, Result<bool, A::Error>, CoercionCall<A>>)
        ensures
            bridge.ready(),
            bridge.waiting(),
            bridge.contexts().len() == 0,
            bridge.rounds().len() == 0,
            bridge.items().len() == 0,
            bridge.call() == (CoercionCall {
                adapter: self.adapter(),
                vertex_type: *vertex_type,
                coerce_to_type: *coerce_to_type,
                resolve_info: *resolve_info,
            }),
            forall|
                context: DataContext<V>,
                outcomes: ContextOutcomeIterator<
                    'vertex,
                    S,
                    V,
                    Result<bool, A::Error>,
                >,
            | #[trigger]
                bridge.call().gives(context, outcomes) <==> call_ensures(
                    A::resolve_coercion::<S, V>,
                    (
                        &*self.adapter(),
                        boxed(Once::fresh(context)),
                        vertex_type,
                        coerce_to_type,
                        resolve_info,
                    ),
                    outcomes,
                ),
    {
        Bridge::new(
            CoercionCall {
                adapter: Arc::clone(&self.inner),
                vertex_type: vertex_type.clone(),
                coerce_to_type: coerce_to_type.clone(),
                resolve_info: *resolve_info,
            },
        )
    }
}

} // verus!
