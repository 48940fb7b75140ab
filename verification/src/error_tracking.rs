//! The bridge between fallible adapters and pipelines of plain items.

use std::fmt::Debug;
use std::marker::PhantomData;
use std::ops::Deref;
use std::sync::Arc;

use vstd::prelude::*;

use crate::adapter::{
    gives_ready_neighbors, Adapter, AsVertex, ContextIterator, ContextOutcomeIterator,
    NeighborResolution, ResolveEdgeInfo, ResolveInfo,
};
use crate::ir::{EdgeParameters, FieldValue};
use crate::pull::{
    boxed, empty_behavior, is_idle, lemma_one_more_poll, lemma_replays_idle, lemma_replays_poll,
    lemma_replays_yielded, may_follow, pulled, replays, replays_idle, yielded, Behavior, Empty,
    Pull, Pulled, VertexIterator,
};

verus! {

/// The first adapter error of a run, shared by all sequences of the run.
pub type ErrorSlot<E> = Option<E>;

/// The slot once `error` has been reported: an earlier error stays.
pub open spec fn first_error<E>(slot: ErrorSlot<E>, error: E) -> ErrorSlot<E> {
    match slot {
        Some(first) => Some(first),
        None => Some(error),
    }
}

/// Makes an empty slot.
pub fn new_error_slot<E>() -> (slot: ErrorSlot<E>)
    ensures
        slot is None,
{
    None
}

/// Records `error` where the slot is empty: only the first error is kept.
pub fn record_error<E>(slot: &mut ErrorSlot<E>, error: E)
    ensures
        *final(slot) == first_error(*old(slot), error),
        *old(slot) is Some ==> *final(slot) == *old(slot),
        *old(slot) is None ==> *final(slot) == Some(error),
{
    if slot.is_none() {
        *slot = Some(error);
    }
}

/// What a poll of a fallible sequence means for the sequence of its values: an error is recorded
/// and gives nothing.
pub open spec fn fused<T, E>(poll: Pulled<ErrorSlot<E>, Result<T, E>>) -> Pulled<ErrorSlot<E>, T> {
    match poll.item {
        Some(Ok(value)) => pulled(poll.before, Some(value), poll.after),
        Some(Err(error)) => pulled(poll.before, None, first_error(poll.after, error)),
        None => pulled(poll.before, None, poll.after),
    }
}

/// The values among the items of a fallible sequence.
pub open spec fn values<T, E>(items: Seq<Result<T, E>>) -> Seq<T>
    decreases items.len(),
{
    if items.len() == 0 {
        Seq::empty()
    } else {
        match items.last() {
            Ok(value) => values(items.drop_last()).push(value),
            Err(_) => values(items.drop_last()),
        }
    }
}

/// The poll gave an error.
pub open spec fn failed<S, T, E>(poll: Pulled<S, Result<T, E>>) -> bool {
    poll.item matches Some(Err(_))
}

/// When a fallible sequence is not polled any more: the slot holds an error, or its last poll
/// failed.
pub open spec fn stops_on<A, E>(failed: spec_fn(Pulled<ErrorSlot<E>, A>) -> bool) -> spec_fn(
    ErrorSlot<E>,
    Seq<Pulled<ErrorSlot<E>, A>>,
) -> bool {
    |slot: ErrorSlot<E>, polls: Seq<Pulled<ErrorSlot<E>, A>>|
        slot is Some || polls.len() > 0 && failed(polls.last())
}

/// `log` is what comes of `polls` of a fallible sequence: the polls, each under `outcome`, and idle
/// pulls once the sequence is not polled any more. Only the last poll may have failed, and every
/// pull against an error is idle.
pub open spec fn is_tracked<A, B, E>(
    log: Seq<Pulled<ErrorSlot<E>, B>>,
    polls: Seq<Pulled<ErrorSlot<E>, A>>,
    failed: spec_fn(Pulled<ErrorSlot<E>, A>) -> bool,
    outcome: spec_fn(Pulled<ErrorSlot<E>, A>) -> Pulled<ErrorSlot<E>, B>,
) -> bool {
    &&& replays(log, polls, stops_on(failed), outcome)
    &&& forall|i: int| 0 <= i < polls.len() - 1 ==> !failed(#[trigger] polls[i])
    &&& forall|i: int|
        0 <= i < log.len() && (#[trigger] log[i]).before is Some ==> is_idle(log[i])
}

/// A tracked sequence goes on with an idle pull.
proof fn lemma_tracked_idle<A, B, E>(
    log: Seq<Pulled<ErrorSlot<E>, B>>,
    polls: Seq<Pulled<ErrorSlot<E>, A>>,
    failed: spec_fn(Pulled<ErrorSlot<E>, A>) -> bool,
    outcome: spec_fn(Pulled<ErrorSlot<E>, A>) -> Pulled<ErrorSlot<E>, B>,
    pull: Pulled<ErrorSlot<E>, B>,
)
    requires
        is_tracked(log, polls, failed, outcome),
        stops_on(failed)(pull.before, polls),
        is_idle(pull),
    ensures
        is_tracked(log.push(pull), polls, failed, outcome),
{
    lemma_replays_idle(log, polls, stops_on(failed), outcome, pull);
}

/// A tracked sequence goes on with the outcome of one more poll.
proof fn lemma_tracked_poll<A, B, E>(
    log: Seq<Pulled<ErrorSlot<E>, B>>,
    polls: Seq<Pulled<ErrorSlot<E>, A>>,
    failed: spec_fn(Pulled<ErrorSlot<E>, A>) -> bool,
    outcome: spec_fn(Pulled<ErrorSlot<E>, A>) -> Pulled<ErrorSlot<E>, B>,
    poll: Pulled<ErrorSlot<E>, A>,
)
    requires
        is_tracked(log, polls, failed, outcome),
        !stops_on(failed)(outcome(poll).before, polls),
    ensures
        is_tracked(log.push(outcome(poll)), polls.push(poll), failed, outcome),
{
    lemma_replays_poll(log, polls, stops_on(failed), outcome, poll);
}

/// `log` is what comes of `polls` of a fallible sequence, each fused.
pub open spec fn is_fused<T, E>(
    log: Seq<Pulled<ErrorSlot<E>, T>>,
    polls: Seq<Pulled<ErrorSlot<E>, Result<T, E>>>,
) -> bool {
    is_tracked(log, polls, |poll| failed(poll), |poll| fused(poll))
}

/// The behavior of the values of a fallible sequence, given the behavior of that sequence and what
/// was behind it when it was fused.
pub open spec fn fused_behavior<T, E>(
    source: Behavior<ErrorSlot<E>, Result<T, E>>,
    base: Seq<Pulled<ErrorSlot<E>, Result<T, E>>>,
) -> Behavior<ErrorSlot<E>, T> {
    |log: Seq<Pulled<ErrorSlot<E>, T>>|
        exists|polls: Seq<Pulled<ErrorSlot<E>, Result<T, E>>>| #[trigger]
            may_follow(source, base, polls) && is_fused(log, polls)
}

/// The values of a fallible sequence, as far as its first error.
///
/// The first error is recorded in the slot and ends the sequence. So does an error that another
/// sequence of the run has recorded: the adapter is not asked for more.
#[verifier::reject_recursive_types(T)]
#[verifier::reject_recursive_types(E)]
pub struct FuseOnError<I, T, E> {
    inner: I,
    done: bool,
    start: Ghost<int>,
    log: Ghost<Seq<Pulled<ErrorSlot<E>, T>>>,
}

impl<I: Pull<ErrorSlot<E>, Result<T, E>>, T, E> FuseOnError<I, T, E> {
    /// The fallible sequence.
    pub closed spec fn inner(&self) -> I {
        self.inner
    }

    /// The fallible sequence gave an error.
    pub closed spec fn done(&self) -> bool {
        self.done
    }

    /// What was behind the fallible sequence when it was fused.
    pub closed spec fn base(&self) -> Seq<Pulled<ErrorSlot<E>, Result<T, E>>> {
        self.inner.log().take(self.start@)
    }

    /// The polls of the fallible sequence since it was fused.
    pub closed spec fn polls(&self) -> Seq<Pulled<ErrorSlot<E>, Result<T, E>>> {
        self.inner.log().skip(self.start@)
    }

    /// The values of `inner`, before their first pull.
    pub closed spec fn fresh(inner: I) -> Self {
        FuseOnError {
            inner,
            done: false,
            start: Ghost(inner.log().len() as int),
            log: Ghost(Seq::empty()),
        }
    }

    /// Fuses a fallible sequence.
    pub fn new(inner: I) -> (sequence: Self)
        ensures
            sequence == Self::fresh(inner),
            sequence.inner() == inner,
            sequence.base() == inner.log(),
            !sequence.done(),
            sequence.polls().len() == 0,
            sequence.log().len() == 0,
            inner.ready() ==> sequence.ready(),
    {
        FuseOnError {
            inner,
            done: false,
            start: Ghost(inner.log().len() as int),
            log: Ghost(Seq::empty()),
        }
    }

    /// What came out are the values of the fallible sequence, in order, and only its last poll may
    /// have failed: it is not polled after its first error.
    pub proof fn law_values_until_the_first_error(&self)
        requires
            self.ready(),
        ensures
            yielded(self.log()) == values(yielded(self.polls())),
            forall|i: int| 0 <= i < self.polls().len() - 1 ==> !failed(#[trigger] self.polls()[i]),
            self.done() <==> self.polls().len() > 0 && failed(self.polls().last()),
    {
        law_fused_logs_yield_the_values(self.log@, self.polls());
    }

    /// A pull against a slot that holds an error gives nothing and leaves the slot alone.
    pub proof fn law_idle_once_an_error_is_recorded(&self)
        requires
            self.ready(),
        ensures
            forall|i: int|
                0 <= i < self.log().len() && (#[trigger] self.log()[i]).before is Some ==> is_idle(
                    self.log()[i],
                ),
    {
    }

    /// The pulls are what comes of the polls of the fallible sequence.
    pub proof fn law_pulls_are_fused_polls(&self)
        requires
            self.ready(),
        ensures
            is_fused(self.log(), self.polls()),
    {
    }

    /// Boxed values behave as the fallible sequence does, fused.
    pub proof fn law_boxed<'vertex>(inner: I) where I: 'vertex, T: 'vertex, E: 'vertex
        ensures
            boxed::<_, _, Self>(Self::fresh(inner)).log().len() == 0,
            boxed::<_, _, Self>(Self::fresh(inner)).behavior() == fused_behavior(
                inner.behavior(),
                inner.log(),
            ),
            inner.ready() ==> boxed::<_, _, Self>(Self::fresh(inner)).ready(),
    {
        assert(Self::fresh(inner).base() =~= inner.log());
    }
}

/// What comes of the polls of a fallible sequence are the values among the items that it gave.
pub proof fn law_fused_logs_yield_the_values<T, E>(
    log: Seq<Pulled<ErrorSlot<E>, T>>,
    polls: Seq<Pulled<ErrorSlot<E>, Result<T, E>>>,
)
    requires
        is_fused(log, polls),
    ensures
        yielded(log) == values(yielded(polls)),
{
    lemma_fused_values(log, polls);
}

/// Fused polls yield the values among the polled items.
proof fn lemma_fused_values<T, E>(
    log: Seq<Pulled<ErrorSlot<E>, T>>,
    polls: Seq<Pulled<ErrorSlot<E>, Result<T, E>>>,
)
    requires
        replays(log, polls, stops_on(|poll| failed(poll)), |poll| fused(poll)),
    ensures
        yielded(log) == values(yielded(polls)),
    decreases log.len(),
{
    let stops = stops_on(|poll: Pulled<ErrorSlot<E>, Result<T, E>>| failed(poll));
    if log.len() > 0 {
        let earlier = log.drop_last();
        if replays_idle(log, polls, stops) && replays(earlier, polls, stops, |poll| fused(poll)) {
            lemma_fused_values(earlier, polls);
        } else {
            lemma_fused_values(earlier, polls.drop_last());
            if let Some(item) = polls.last().item {
                assert(yielded(polls).drop_last() =~= yielded(polls.drop_last()));
            }
        }
    }
}

impl<I: Pull<ErrorSlot<E>, Result<T, E>>, T, E> Pull<ErrorSlot<E>, T> for FuseOnError<I, T, E> {
    closed spec fn ready(&self) -> bool {
        &&& self.inner.ready()
        &&& 0 <= self.start@ <= self.inner.log().len()
        &&& may_follow(self.inner.behavior(), self.base(), self.polls())
        &&& self.done <==> self.polls().len() > 0 && failed(self.polls().last())
        &&& is_fused(self.log@, self.polls())
    }

    closed spec fn log(&self) -> Seq<Pulled<ErrorSlot<E>, T>> {
        self.log@
    }

    open spec fn behavior(&self) -> Behavior<ErrorSlot<E>, T> {
        fused_behavior(self.inner().behavior(), self.base())
    }

    fn next(&mut self, slot: &mut ErrorSlot<E>) -> (item: Option<T>)
        ensures
            final(self).base() == old(self).base(),
            final(self).inner().behavior() == old(self).inner().behavior(),
            may_follow(final(self).inner().behavior(), final(self).base(), final(self).polls()),
            old(self).done() || *old(slot) is Some ==> {
                &&& item is None
                &&& *final(slot) == *old(slot)
                &&& final(self).inner() == old(self).inner()
                &&& final(self).polls() == old(self).polls()
                &&& final(self).done() == old(self).done()
            },
            !old(self).done() && *old(slot) is None ==> {
                let poll = final(self).inner().log().last();
                &&& final(self).inner().log() == old(self).inner().log().push(poll)
                &&& (final(self).inner().behavior())(final(self).inner().log())
                &&& final(self).polls() == old(self).polls().push(poll)
                &&& poll.before == *old(slot)
                &&& pulled(*old(slot), item, *final(slot)) == fused(poll)
                &&& final(self).done() == failed(poll)
                &&& match poll.item {
                    Some(Ok(value)) => {
                        &&& item == Some(value)
                        &&& *final(slot) == poll.after
                        &&& !final(self).done()
                    },
                    Some(Err(error)) => {
                        &&& item is None
                        &&& *final(slot) == match poll.after {
                            Some(first) => Some(first),
                            None => Some(error),
                        }
                        &&& final(self).done()
                    },
                    None => {
                        &&& item is None
                        &&& *final(slot) == poll.after
                        &&& !final(self).done()
                    },
                }
            },
    {
        let ghost before = *slot;
        let ghost polled = self.inner.log();
        let ghost polls = self.polls();
        let ghost log = self.log@;
        if self.done || slot.is_some() {
            self.log = Ghost(log.push(pulled(before, None, before)));
            proof {
                lemma_tracked_idle(
                    log,
                    self.polls(),
                    |poll| failed(poll),
                    |poll| fused(poll),
                    pulled(before, None, before),
                );
            }
            return None;
        }
        let item = match self.inner.next(slot) {
            Some(Ok(value)) => Some(value),
            Some(Err(error)) => {
                record_error(slot, error);
                self.done = true;
                None
            },
            None => None,
        };
        self.log = Ghost(log.push(pulled(before, item, *slot)));
        proof {
            let poll = self.inner.log().last();
            lemma_one_more_poll(self.inner.behavior(), polled, self.start@, poll);
            lemma_tracked_poll(log, polls, |poll| failed(poll), |poll| fused(poll), poll);
        }
        item
    }
}

/// What a poll of fallible outcomes means for the pairs of context and plain outcome: an error is
/// recorded, and `substitute` takes its place.
pub open spec fn substituted<C, T, E>(
    poll: Pulled<ErrorSlot<E>, (C, Result<T, E>)>,
    substitute: T,
) -> Pulled<ErrorSlot<E>, (C, T)> {
    match poll.item {
        Some((context, Ok(value))) => pulled(poll.before, Some((context, value)), poll.after),
        Some((context, Err(error))) => pulled(
            poll.before,
            Some((context, substitute)),
            first_error(poll.after, error),
        ),
        None => pulled(poll.before, None, poll.after),
    }
}

/// The value of an outcome; `substitute` for an error.
pub open spec fn value_or<T, E>(outcome: Result<T, E>, substitute: T) -> T {
    match outcome {
        Ok(value) => value,
        Err(_) => substitute,
    }
}

/// The poll gave a context whose outcome is an error.
pub open spec fn failed_outcome<S, C, T, E>(poll: Pulled<S, (C, Result<T, E>)>) -> bool {
    poll.item matches Some((_, Err(_)))
}

/// `log` is what comes of `polls` of fallible outcomes, each with errors substituted.
pub open spec fn is_substituted<C, T, E>(
    log: Seq<Pulled<ErrorSlot<E>, (C, T)>>,
    polls: Seq<Pulled<ErrorSlot<E>, (C, Result<T, E>)>>,
    substitute: T,
) -> bool {
    is_tracked(log, polls, |poll| failed_outcome(poll), |poll| substituted(poll, substitute))
}

/// The behavior of the plain outcomes of fallible ones, given the behavior of those and what was
/// behind them when they were wrapped.
pub open spec fn substituted_behavior<C, T, E>(
    source: Behavior<ErrorSlot<E>, (C, Result<T, E>)>,
    base: Seq<Pulled<ErrorSlot<E>, (C, Result<T, E>)>>,
    substitute: T,
) -> Behavior<ErrorSlot<E>, (C, T)> {
    |log: Seq<Pulled<ErrorSlot<E>, (C, T)>>|
        exists|polls: Seq<Pulled<ErrorSlot<E>, (C, Result<T, E>)>>| #[trigger]
            may_follow(source, base, polls) && is_substituted(log, polls, substitute)
}

/// The plain outcomes of a fallible sequence of outcomes, as far as its first error.
///
/// The context whose outcome is the first error is still given, with a substitute for the outcome,
/// so that the error can be attached to it. Then the sequence ends, as it does once another
/// sequence of the run has recorded an error: the adapter is not asked for more.
#[verifier::reject_recursive_types(C)]
#[verifier::reject_recursive_types(T)]
#[verifier::reject_recursive_types(E)]
pub struct SubstituteOnError<I, C, T, E> {
    inner: I,
    /// The substitute, until it has been used.
    substitute: Option<T>,
    value: Ghost<T>,
    start: Ghost<int>,
    log: Ghost<Seq<Pulled<ErrorSlot<E>, (C, T)>>>,
}

impl<I: Pull<ErrorSlot<E>, (C, Result<T, E>)>, C, T, E> SubstituteOnError<I, C, T, E> {
    /// The fallible outcomes.
    pub closed spec fn inner(&self) -> I {
        self.inner
    }

    /// What stands for an error.
    pub closed spec fn substitute(&self) -> T {
        self.value@
    }

    /// An outcome was an error.
    pub closed spec fn done(&self) -> bool {
        self.substitute is None
    }

    /// What was behind the fallible outcomes when they were wrapped.
    pub closed spec fn base(&self) -> Seq<Pulled<ErrorSlot<E>, (C, Result<T, E>)>> {
        self.inner.log().take(self.start@)
    }

    /// The polls of the fallible outcomes since they were wrapped.
    pub closed spec fn polls(&self) -> Seq<Pulled<ErrorSlot<E>, (C, Result<T, E>)>> {
        self.inner.log().skip(self.start@)
    }

    /// The plain outcomes of `inner`, before their first pull.
    pub closed spec fn fresh(inner: I, substitute: T) -> Self {
        SubstituteOnError {
            inner,
            substitute: Some(substitute),
            value: Ghost(substitute),
            start: Ghost(inner.log().len() as int),
            log: Ghost(Seq::empty()),
        }
    }

    /// Substitutes `substitute` for the first error of `inner`.
    pub fn new(inner: I, substitute: T) -> (sequence: Self)
        ensures
            sequence == Self::fresh(inner, substitute),
            sequence.inner() == inner,
            sequence.base() == inner.log(),
            sequence.substitute() == substitute,
            !sequence.done(),
            sequence.polls().len() == 0,
            sequence.log().len() == 0,
            inner.ready() ==> sequence.ready(),
    {
        let ghost value = substitute;
        SubstituteOnError {
            inner,
            substitute: Some(substitute),
            value: Ghost(value),
            start: Ghost(inner.log().len() as int),
            log: Ghost(Seq::empty()),
        }
    }

    /// Every context that the fallible sequence gave keeps its place, with its value or the
    /// substitute, and only the last poll may have failed: the fallible sequence is not polled
    /// after its first error.
    pub proof fn law_contexts_keep_their_places(&self)
        requires
            self.ready(),
        ensures
            yielded(self.log()) == yielded(self.polls()).map_values(
                |pair: (C, Result<T, E>)| (pair.0, value_or(pair.1, self.substitute())),
            ),
            forall|i: int|
                0 <= i < self.polls().len() - 1 ==> !failed_outcome(#[trigger] self.polls()[i]),
            self.done() <==> self.polls().len() > 0 && failed_outcome(self.polls().last()),
    {
        lemma_replays_yielded(
            self.log@,
            self.polls(),
            stops_on(|poll| failed_outcome(poll)),
            |poll| substituted(poll, self.value@),
            |pair: (C, Result<T, E>)| (pair.0, value_or(pair.1, self.substitute())),
        );
    }

    /// A pull against a slot that holds an error gives nothing and leaves the slot alone.
    pub proof fn law_idle_once_an_error_is_recorded(&self)
        requires
            self.ready(),
        ensures
            forall|i: int|
                0 <= i < self.log().len() && (#[trigger] self.log()[i]).before is Some ==> is_idle(
                    self.log()[i],
                ),
    {
    }

    /// The pulls are what comes of the polls of the fallible sequence.
    pub proof fn law_pulls_are_substituted_polls(&self)
        requires
            self.ready(),
        ensures
            is_substituted(self.log(), self.polls(), self.substitute()),
    {
    }

    /// Boxed outcomes behave as the fallible ones do, with errors substituted.
    pub proof fn law_boxed<'vertex>(inner: I, substitute: T) where
        I: 'vertex,
        C: 'vertex,
        T: 'vertex,
        E: 'vertex,

        ensures
            boxed::<_, _, Self>(Self::fresh(inner, substitute)).log().len() == 0,
            boxed::<_, _, Self>(Self::fresh(inner, substitute)).behavior() == substituted_behavior(
                inner.behavior(),
                inner.log(),
                substitute,
            ),
            inner.ready() ==> boxed::<_, _, Self>(Self::fresh(inner, substitute)).ready(),
    {
        assert(Self::fresh(inner, substitute).base() =~= inner.log());
    }
}

impl<I: Pull<ErrorSlot<E>, (C, Result<T, E>)>, C, T, E> Pull<
    ErrorSlot<E>,
    (C, T),
> for SubstituteOnError<I, C, T, E> {
    closed spec fn ready(&self) -> bool {
        &&& self.inner.ready()
        &&& self.substitute matches Some(substitute) ==> substitute == self.value@
        &&& 0 <= self.start@ <= self.inner.log().len()
        &&& may_follow(self.inner.behavior(), self.base(), self.polls())
        &&& self.done() <==> self.polls().len() > 0 && failed_outcome(self.polls().last())
        &&& is_substituted(self.log@, self.polls(), self.value@)
    }

    closed spec fn log(&self) -> Seq<Pulled<ErrorSlot<E>, (C, T)>> {
        self.log@
    }

    open spec fn behavior(&self) -> Behavior<ErrorSlot<E>, (C, T)> {
        substituted_behavior(self.inner().behavior(), self.base(), self.substitute())
    }

    fn next(&mut self, slot: &mut ErrorSlot<E>) -> (item: Option<(C, T)>)
        ensures
            final(self).substitute() == old(self).substitute(),
            final(self).base() == old(self).base(),
            final(self).inner().behavior() == old(self).inner().behavior(),
            may_follow(final(self).inner().behavior(), final(self).base(), final(self).polls()),
            old(self).done() || *old(slot) is Some ==> {
                &&& item is None
                &&& *final(slot) == *old(slot)
                &&& final(self).inner() == old(self).inner()
                &&& final(self).polls() == old(self).polls()
                &&& final(self).done() == old(self).done()
            },
            !old(self).done() && *old(slot) is None ==> {
                let poll = final(self).inner().log().last();
                &&& final(self).inner().log() == old(self).inner().log().push(poll)
                &&& (final(self).inner().behavior())(final(self).inner().log())
                &&& final(self).polls() == old(self).polls().push(poll)
                &&& poll.before == *old(slot)
                &&& pulled(*old(slot), item, *final(slot)) == substituted(
                    poll,
                    old(self).substitute(),
                )
                &&& final(self).done() == failed_outcome(poll)
                &&& match poll.item {
                    Some((context, Ok(value))) => {
                        &&& item == Some((context, value))
                        &&& *final(slot) == poll.after
                        &&& !final(self).done()
                    },
                    Some((context, Err(error))) => {
                        &&& item == Some((context, old(self).substitute()))
                        &&& *final(slot) == match poll.after {
                            Some(first) => Some(first),
                            None => Some(error),
                        }
                        &&& final(self).done()
                    },
                    None => {
                        &&& item is None
                        &&& *final(slot) == poll.after
                        &&& !final(self).done()
                    },
                }
            },
    {
        let ghost before = *slot;
        let ghost polled = self.inner.log();
        let ghost polls = self.polls();
        let ghost log = self.log@;
        let ghost value = self.value@;
        if self.substitute.is_none() || slot.is_some() {
            self.log = Ghost(log.push(pulled(before, None, before)));
            proof {
                lemma_tracked_idle(
                    log,
                    self.polls(),
                    |poll| failed_outcome(poll),
                    |poll| substituted(poll, value),
                    pulled(before, None, before),
                );
            }
            return None;
        }
        let item = match self.inner.next(slot) {
            Some((context, Ok(value))) => Some((context, value)),
            Some((context, Err(error))) => {
                record_error(slot, error);
                match self.substitute.take() {
                    Some(substitute) => Some((context, substitute)),
                    None => None,
                }
            },
            None => None,
        };
        self.log = Ghost(log.push(pulled(before, item, *slot)));
        proof {
            let poll = self.inner.log().last();
            lemma_one_more_poll(self.inner.behavior(), polled, self.start@, poll);
            lemma_tracked_poll(
                log,
                polls,
                |poll| failed_outcome(poll),
                |poll| substituted(poll, value),
                poll,
            );
        }
        item
    }
}

/// The neighbors that stand for a resolution: those of an edge that failed are none.
pub open spec fn tracked_neighbors<'vertex, Vertex, E>(
    resolution: NeighborResolution<'vertex, ErrorSlot<E>, Vertex, E>,
) -> VertexIterator<'vertex, ErrorSlot<E>, Vertex> {
    match resolution {
        Ok(neighbors) => boxed(FuseOnError::fresh(neighbors)),
        Err(_) => boxed(Empty::<ErrorSlot<E>, Vertex>::fresh()),
    }
}

/// What a poll of edge resolutions means for the pairs of context and neighbors: an error of the
/// edge as a whole is recorded, and the neighbors are fused.
pub open spec fn resolved<'vertex, C, Vertex, E>(
    poll: Pulled<ErrorSlot<E>, (C, NeighborResolution<'vertex, ErrorSlot<E>, Vertex, E>)>,
) -> Pulled<ErrorSlot<E>, (C, VertexIterator<'vertex, ErrorSlot<E>, Vertex>)> {
    match poll.item {
        Some((context, resolution)) => pulled(
            poll.before,
            Some((context, tracked_neighbors(resolution))),
            match resolution {
                Ok(_) => poll.after,
                Err(error) => first_error(poll.after, error),
            },
        ),
        None => pulled(poll.before, None, poll.after),
    }
}

/// `log` is what comes of `polls` of edge resolutions, each resolved.
pub open spec fn is_resolved<'vertex, C, Vertex, E>(
    log: Seq<Pulled<ErrorSlot<E>, (C, VertexIterator<'vertex, ErrorSlot<E>, Vertex>)>>,
    polls: Seq<Pulled<ErrorSlot<E>, (C, NeighborResolution<'vertex, ErrorSlot<E>, Vertex, E>)>>,
) -> bool {
    is_tracked(log, polls, |poll| failed_outcome(poll), |poll| resolved(poll))
}

/// The behavior of contexts with neighbors, given the behavior of the edge resolutions and what was
/// behind them when they were wrapped.
pub open spec fn resolved_behavior<'vertex, C, Vertex, E>(
    source: Behavior<ErrorSlot<E>, (C, NeighborResolution<'vertex, ErrorSlot<E>, Vertex, E>)>,
    base: Seq<Pulled<ErrorSlot<E>, (C, NeighborResolution<'vertex, ErrorSlot<E>, Vertex, E>)>>,
) -> Behavior<ErrorSlot<E>, (C, VertexIterator<'vertex, ErrorSlot<E>, Vertex>)> {
    |log: Seq<Pulled<ErrorSlot<E>, (C, VertexIterator<'vertex, ErrorSlot<E>, Vertex>)>>|
        exists|
            polls: Seq<
                Pulled<ErrorSlot<E>, (C, NeighborResolution<'vertex, ErrorSlot<E>, Vertex, E>)>,
            >,
        | #[trigger]
            may_follow(source, base, polls) && is_resolved(log, polls)
}

/// The neighbors of a resolution behave as those that the adapter gave do, fused; an edge that
/// failed has none.
pub proof fn law_tracked_neighbors<'vertex, Vertex: 'vertex, E: 'vertex>(
    resolution: NeighborResolution<'vertex, ErrorSlot<E>, Vertex, E>,
)
    ensures
        tracked_neighbors(resolution).log().len() == 0,
        tracked_neighbors(resolution).behavior() == match resolution {
            Ok(neighbors) => fused_behavior(neighbors.behavior(), neighbors.log()),
            Err(_) => empty_behavior(),
        },
        (resolution matches Ok(neighbors) ==> neighbors.ready()) ==> tracked_neighbors(
            resolution,
        ).ready(),
{
    match resolution {
        Ok(neighbors) => {
            FuseOnError::law_boxed(neighbors);
        },
        Err(_) => {
            Empty::<ErrorSlot<E>, Vertex>::law_nothing_comes();
        },
    }
}

/// Sequences of this behavior give neighbors that can be pulled.
pub open spec fn gives_ready_sequences<'vertex, S, C, Vertex>(
    behavior: Behavior<S, (C, VertexIterator<'vertex, S, Vertex>)>,
) -> bool {
    forall|log: Seq<Pulled<S, (C, VertexIterator<'vertex, S, Vertex>)>>, i: int|
        #![trigger behavior(log), log[i]]
        behavior(log) && 0 <= i < log.len() ==> (log[i].item matches Some((_, neighbors))
            ==> neighbors.ready())
}

/// Neighbors that can be pulled stay such when they are fused.
pub proof fn law_resolved_neighbors_are_ready<'vertex, C, Vertex: 'vertex, E: 'vertex>(
    source: Behavior<ErrorSlot<E>, (C, NeighborResolution<'vertex, ErrorSlot<E>, Vertex, E>)>,
    base: Seq<Pulled<ErrorSlot<E>, (C, NeighborResolution<'vertex, ErrorSlot<E>, Vertex, E>)>>,
)
    requires
        gives_ready_neighbors(source),
    ensures
        gives_ready_sequences(resolved_behavior(source, base)),
{
    let behavior = resolved_behavior(source, base);
    assert forall|
        log: Seq<Pulled<ErrorSlot<E>, (C, VertexIterator<'vertex, ErrorSlot<E>, Vertex>)>>,
        i: int,
    |
        #![trigger behavior(log), log[i]]
        behavior(log) && 0 <= i < log.len() implies (log[i].item matches Some((_, neighbors))
        ==> neighbors.ready()) by {
        let polls = choose|
            polls: Seq<
                Pulled<ErrorSlot<E>, (C, NeighborResolution<'vertex, ErrorSlot<E>, Vertex, E>)>,
            >,
        | #[trigger]
            may_follow(source, base, polls) && is_resolved(log, polls);
        assert forall|j: int| 0 <= j < polls.len() implies ((#[trigger] polls[j]).item matches Some(
            (_, Ok(neighbors)),
        ) ==> neighbors.ready()) by {
            assert((base + polls)[base.len() + j] == polls[j]);
        }
        lemma_resolved_ready(log, polls, i);
    }
}

/// Each pull that gives neighbors gives those of a poll.
proof fn lemma_resolved_ready<'vertex, C, Vertex: 'vertex, E: 'vertex>(
    log: Seq<Pulled<ErrorSlot<E>, (C, VertexIterator<'vertex, ErrorSlot<E>, Vertex>)>>,
    polls: Seq<Pulled<ErrorSlot<E>, (C, NeighborResolution<'vertex, ErrorSlot<E>, Vertex, E>)>>,
    i: int,
)
    requires
        replays(log, polls, stops_on(|poll| failed_outcome(poll)), |poll| resolved(poll)),
        0 <= i < log.len(),
        forall|j: int|
            0 <= j < polls.len() ==> ((#[trigger] polls[j]).item matches Some((_, Ok(neighbors)))
                ==> neighbors.ready()),
    ensures
        log[i].item matches Some((_, neighbors)) ==> neighbors.ready(),
    decreases log.len(),
{
    let stops = stops_on(
        |poll: Pulled<ErrorSlot<E>, (C, NeighborResolution<'vertex, ErrorSlot<E>, Vertex, E>)>|
            failed_outcome(poll),
    );
    let earlier = log.drop_last();
    if replays_idle(log, polls, stops) && replays(earlier, polls, stops, |poll| resolved(poll)) {
        if i < earlier.len() {
            lemma_resolved_ready(earlier, polls, i);
        }
    } else {
        if i < earlier.len() {
            lemma_resolved_ready(earlier, polls.drop_last(), i);
        } else if let Some((_, resolution)) = polls[polls.len() - 1].item {
            law_tracked_neighbors(resolution);
        }
    }
}

/// The neighbors of each context, as far as the first edge that failed as a whole.
///
/// Every context keeps its place, also the one whose edge failed. Then the sequence ends, as it
/// does once another sequence of the run has recorded an error: the adapter is not asked for more.
#[verifier::reject_recursive_types(C)]
#[verifier::reject_recursive_types(Vertex)]
#[verifier::reject_recursive_types(E)]
pub struct FuseNeighbors<'vertex, I, C, Vertex, E> {
    inner: I,
    done: bool,
    start: Ghost<int>,
    log: Ghost<Seq<Pulled<ErrorSlot<E>, (C, VertexIterator<'vertex, ErrorSlot<E>, Vertex>)>>>,
}

impl<
    'vertex,
    I: Pull<ErrorSlot<E>, (C, NeighborResolution<'vertex, ErrorSlot<E>, Vertex, E>)>,
    C,
    Vertex: 'vertex,
    E: 'vertex,
> FuseNeighbors<'vertex, I, C, Vertex, E> {
    /// The edge resolutions.
    pub closed spec fn inner(&self) -> I {
        self.inner
    }

    /// An edge failed as a whole.
    pub closed spec fn done(&self) -> bool {
        self.done
    }

    /// What was behind the edge resolutions when they were wrapped.
    pub closed spec fn base(&self) -> Seq<
        Pulled<ErrorSlot<E>, (C, NeighborResolution<'vertex, ErrorSlot<E>, Vertex, E>)>,
    > {
        self.inner.log().take(self.start@)
    }

    /// The polls of the edge resolutions since they were wrapped.
    pub closed spec fn polls(&self) -> Seq<
        Pulled<ErrorSlot<E>, (C, NeighborResolution<'vertex, ErrorSlot<E>, Vertex, E>)>,
    > {
        self.inner.log().skip(self.start@)
    }

    /// The neighbors of `inner`, before their first pull.
    pub closed spec fn fresh(inner: I) -> Self {
        FuseNeighbors {
            inner,
            done: false,
            start: Ghost(inner.log().len() as int),
            log: Ghost(Seq::empty()),
        }
    }

    /// Fuses the neighbors of each context.
    pub fn new(inner: I) -> (sequence: Self)
        ensures
            sequence == Self::fresh(inner),
            sequence.inner() == inner,
            sequence.base() == inner.log(),
            !sequence.done(),
            sequence.polls().len() == 0,
            sequence.log().len() == 0,
            inner.ready() ==> sequence.ready(),
    {
        FuseNeighbors {
            inner,
            done: false,
            start: Ghost(inner.log().len() as int),
            log: Ghost(Seq::empty()),
        }
    }

    /// Every context that the edge resolutions gave keeps its place, with the neighbors of its
    /// resolution, and only the last resolution may have failed as a whole: the resolutions are
    /// not polled after that.
    pub proof fn law_contexts_keep_their_places(&self)
        requires
            self.ready(),
        ensures
            yielded(self.log()) == yielded(self.polls()).map_values(
                |pair: (C, NeighborResolution<'vertex, ErrorSlot<E>, Vertex, E>)|
                    (pair.0, tracked_neighbors(pair.1)),
            ),
            forall|i: int|
                0 <= i < self.polls().len() - 1 ==> !failed_outcome(#[trigger] self.polls()[i]),
            self.done() <==> self.polls().len() > 0 && failed_outcome(self.polls().last()),
    {
        lemma_replays_yielded(
            self.log@,
            self.polls(),
            stops_on(|poll| failed_outcome(poll)),
            |poll| resolved(poll),
            |pair: (C, NeighborResolution<'vertex, ErrorSlot<E>, Vertex, E>)|
                (pair.0, tracked_neighbors(pair.1)),
        );
    }

    /// A pull against a slot that holds an error gives nothing and leaves the slot alone.
    pub proof fn law_idle_once_an_error_is_recorded(&self)
        requires
            self.ready(),
        ensures
            forall|i: int|
                0 <= i < self.log().len() && (#[trigger] self.log()[i]).before is Some ==> is_idle(
                    self.log()[i],
                ),
    {
    }

    /// The pulls are what comes of the polls of the edge resolutions.
    pub proof fn law_pulls_are_resolved_polls(&self)
        requires
            self.ready(),
        ensures
            is_resolved(self.log(), self.polls()),
    {
    }

    /// Boxed contexts with neighbors behave as the edge resolutions do, each resolved.
    pub proof fn law_boxed(inner: I) where I: 'vertex, C: 'vertex
        ensures
            boxed::<_, _, Self>(Self::fresh(inner)).log().len() == 0,
            boxed::<_, _, Self>(Self::fresh(inner)).behavior() == resolved_behavior(
                inner.behavior(),
                inner.log(),
            ),
            inner.ready() ==> boxed::<_, _, Self>(Self::fresh(inner)).ready(),
    {
        assert(Self::fresh(inner).base() =~= inner.log());
    }
}

impl<
    'vertex,
    I: Pull<ErrorSlot<E>, (C, NeighborResolution<'vertex, ErrorSlot<E>, Vertex, E>)>,
    C,
    Vertex: 'vertex,
    E: 'vertex,
> Pull<
    ErrorSlot<E>,
    (C, VertexIterator<'vertex, ErrorSlot<E>, Vertex>),
> for FuseNeighbors<'vertex, I, C, Vertex, E> {
    closed spec fn ready(&self) -> bool {
        &&& self.inner.ready()
        &&& 0 <= self.start@ <= self.inner.log().len()
        &&& may_follow(self.inner.behavior(), self.base(), self.polls())
        &&& self.done <==> self.polls().len() > 0 && failed_outcome(self.polls().last())
        &&& is_resolved(self.log@, self.polls())
    }

    closed spec fn log(&self) -> Seq<
        Pulled<ErrorSlot<E>, (C, VertexIterator<'vertex, ErrorSlot<E>, Vertex>)>,
    > {
        self.log@
    }

    open spec fn behavior(&self) -> Behavior<
        ErrorSlot<E>,
        (C, VertexIterator<'vertex, ErrorSlot<E>, Vertex>),
    > {
        resolved_behavior(self.inner().behavior(), self.base())
    }

    fn next(&mut self, slot: &mut ErrorSlot<E>) -> (item: Option<
        (C, VertexIterator<'vertex, ErrorSlot<E>, Vertex>),
    >)
        ensures
            final(self).base() == old(self).base(),
            final(self).inner().behavior() == old(self).inner().behavior(),
            may_follow(final(self).inner().behavior(), final(self).base(), final(self).polls()),
            old(self).done() || *old(slot) is Some ==> {
                &&& item is None
                &&& *final(slot) == *old(slot)
                &&& final(self).inner() == old(self).inner()
                &&& final(self).polls() == old(self).polls()
                &&& final(self).done() == old(self).done()
            },
            !old(self).done() && *old(slot) is None ==> {
                let poll = final(self).inner().log().last();
                &&& final(self).inner().log() == old(self).inner().log().push(poll)
                &&& (final(self).inner().behavior())(final(self).inner().log())
                &&& final(self).polls() == old(self).polls().push(poll)
                &&& poll.before == *old(slot)
                &&& pulled(*old(slot), item, *final(slot)) == resolved(poll)
                &&& final(self).done() == failed_outcome(poll)
                &&& match poll.item {
                    Some((context, Ok(neighbors))) => {
                        &&& item == Some((context, boxed(FuseOnError::fresh(neighbors))))
                        &&& *final(slot) == poll.after
                        &&& !final(self).done()
                    },
                    Some((context, Err(error))) => {
                        &&& item == Some(
                            (context, boxed(Empty::<ErrorSlot<E>, Vertex>::fresh())),
                        )
                        &&& *final(slot) == match poll.after {
                            Some(first) => Some(first),
                            None => Some(error),
                        }
                        &&& final(self).done()
                    },
                    None => {
                        &&& item is None
                        &&& *final(slot) == poll.after
                        &&& !final(self).done()
                    },
                }
            },
    {
        let ghost before = *slot;
        let ghost polled = self.inner.log();
        let ghost polls = self.polls();
        let ghost log = self.log@;
        if self.done || slot.is_some() {
            self.log = Ghost(log.push(pulled(before, None, before)));
            proof {
                lemma_tracked_idle(
                    log,
                    self.polls(),
                    |poll| failed_outcome(poll),
                    |poll| resolved(poll),
                    pulled(before, None, before),
                );
            }
            return None;
        }
        let item = match self.inner.next(slot) {
            Some((context, Ok(neighbors))) => {
                let neighbors: VertexIterator<'vertex, ErrorSlot<E>, Vertex> = VertexIterator {
                    source: Box::new(FuseOnError::new(neighbors)),
                };
                Some((context, neighbors))
            },
            Some((context, Err(error))) => {
                record_error(slot, error);
                self.done = true;
                let none: Empty<ErrorSlot<E>, Vertex> = Empty::new();
                Some((context, none.boxed()))
            },
            None => None,
        };
        self.log = Ghost(log.push(pulled(before, item, *slot)));
        proof {
            let poll = self.inner.log().last();
            lemma_one_more_poll(self.inner.behavior(), polled, self.start@, poll);
            lemma_tracked_poll(
                log,
                polls,
                |poll| failed_outcome(poll),
                |poll| resolved(poll),
                poll,
            );
        }
        item
    }
}

/// The infallible mirror of [`Adapter`] that pipelines work with: its sequences give plain items,
/// and the first error of a run is in the slot that their pulls share.
pub trait RawAdapter<'vertex> {
    /// The type of the vertices.
    type Vertex: Clone + Debug + 'vertex;

    /// The error that may come to be in the slot.
    type Error: 'static;

    /// Resolves a starting edge into vertices.
    fn resolve_starting_vertices(
        &self,
        edge_name: &Arc<str>,
        parameters: &EdgeParameters,
        resolve_info: &ResolveInfo,
    ) -> (vertices: VertexIterator<'vertex, ErrorSlot<Self::Error>, Self::Vertex>)
        ensures
            vertices.ready(),
    ;

    /// Resolves a property of the active vertex of each context.
    fn resolve_property<V: AsVertex<Self::Vertex> + 'vertex>(
        &self,
        contexts: ContextIterator<'vertex, ErrorSlot<Self::Error>, V>,
        vertex_type: &Arc<str>,
        property_name: &Arc<str>,
        resolve_info: &ResolveInfo,
    ) -> (outcomes: ContextOutcomeIterator<'vertex, ErrorSlot<Self::Error>, V, FieldValue>)
        requires
            contexts.ready(),
        ensures
            outcomes.ready(),
    ;

    /// Resolves the neighbors of the active vertex of each context across an edge.
    fn resolve_neighbors<V: AsVertex<Self::Vertex> + 'vertex>(
        &self,
        contexts: ContextIterator<'vertex, ErrorSlot<Self::Error>, V>,
        vertex_type: &Arc<str>,
        edge_name: &Arc<str>,
        parameters: &EdgeParameters,
        resolve_info: &ResolveEdgeInfo,
    ) -> (outcomes: ContextOutcomeIterator<
        'vertex,
        ErrorSlot<Self::Error>,
        V,
        VertexIterator<'vertex, ErrorSlot<Self::Error>, Self::Vertex>,
    >)
        requires
            contexts.ready(),
        ensures
            outcomes.ready(),
            gives_ready_sequences(outcomes.behavior()),
    ;

    /// Tests whether the active vertex of each context is of a subtype.
    fn resolve_coercion<V: AsVertex<Self::Vertex> + 'vertex>(
        &self,
        contexts: ContextIterator<'vertex, ErrorSlot<Self::Error>, V>,
        vertex_type: &Arc<str>,
        coerce_to_type: &Arc<str>,
        resolve_info: &ResolveInfo,
    ) -> (outcomes: ContextOutcomeIterator<'vertex, ErrorSlot<Self::Error>, V, bool>)
        requires
            contexts.ready(),
        ensures
            outcomes.ready(),
    ;
}

/// A fallible [`Adapter`], shown to pipelines as an infallible [`RawAdapter`].
///
/// `Holder` is what leads to the adapter: an owned `Arc<A>`, or a borrowed `&A`. The slot is not
/// part of this: a run starts with that of [`new_error_slot`], every pull borrows it, and whoever
/// pulls the outermost sequence has it.
#[verifier::reject_recursive_types(A)]
#[verifier::reject_recursive_types(Holder)]
pub struct ErrorTrackingAdapter<
    'vertex,
    A: Adapter<'vertex>,
    Holder: Deref<Target = A> = Arc<A>,
> {
    inner: Holder,
    _marker: PhantomData<&'vertex ()>,
}

impl<'vertex, A: Adapter<'vertex>, Holder: Deref<Target = A>> ErrorTrackingAdapter<
    'vertex,
    A,
    Holder,
> {
    /// What leads to the adapter.
    pub closed spec fn holder(&self) -> Holder {
        self.inner
    }

    /// `adapter` is what the holder leads to.
    pub open spec fn wraps(&self, adapter: &A) -> bool {
        call_ensures(Holder::deref, (&self.holder(),), adapter)
    }

    /// Wraps a fallible adapter.
    pub fn new(inner: Holder) -> (adapter: Self)
        ensures
            adapter.holder() == inner,
    {
        ErrorTrackingAdapter { inner, _marker: PhantomData }
    }
}

impl<'vertex, A: Adapter<'vertex>, Holder: Deref<Target = A>> RawAdapter<
    'vertex,
> for ErrorTrackingAdapter<'vertex, A, Holder> {
    type Vertex = A::Vertex;

    type Error = A::Error;

    fn resolve_starting_vertices(
        &self,
        edge_name: &Arc<str>,
        parameters: &EdgeParameters,
        resolve_info: &ResolveInfo,
    ) -> (vertices: VertexIterator<'vertex, ErrorSlot<A::Error>, A::Vertex>)
        ensures
            exists|
                adapter: &A,
                fallible: VertexIterator<
                    'vertex,
                    ErrorSlot<A::Error>,
                    Result<A::Vertex, A::Error>,
                >,
            |
                {
                    &&& self.wraps(adapter)
                    &&& #[trigger] call_ensures(
                        A::resolve_starting_vertices::<ErrorSlot<A::Error>>,
                        (adapter, edge_name, parameters, resolve_info),
                        fallible,
                    )
                    &&& vertices.log().len() == 0
                    &&& vertices.behavior() == fused_behavior(fallible.behavior(), fallible.log())
                },
    {
        let adapter: &A = self.inner.deref();
        let fallible = adapter.resolve_starting_vertices(edge_name, parameters, resolve_info);
        VertexIterator { source: Box::new(FuseOnError::new(fallible)) }
    }

    fn resolve_property<V: AsVertex<A::Vertex> + 'vertex>(
        &self,
        contexts: ContextIterator<'vertex, ErrorSlot<A::Error>, V>,
        vertex_type: &Arc<str>,
        property_name: &Arc<str>,
        resolve_info: &ResolveInfo,
    ) -> (outcomes: ContextOutcomeIterator<'vertex, ErrorSlot<A::Error>, V, FieldValue>)
        ensures
            exists|
                adapter: &A,
                fallible: ContextOutcomeIterator<
                    'vertex,
                    ErrorSlot<A::Error>,
                    V,
                    Result<FieldValue, A::Error>,
                >,
            |
                {
                    &&& self.wraps(adapter)
                    &&& #[trigger] call_ensures(
                        A::resolve_property::<ErrorSlot<A::Error>, V>,
                        (adapter, contexts, vertex_type, property_name, resolve_info),
                        fallible,
                    )
                    &&& outcomes.log().len() == 0
                    &&& outcomes.behavior() == substituted_behavior(
                        fallible.behavior(),
                        fallible.log(),
                        FieldValue::Null,
                    )
                },
    {
        let adapter: &A = self.inner.deref();
        let fallible = adapter.resolve_property(
            contexts,
            vertex_type,
            property_name,
            resolve_info,
        );
        VertexIterator { source: Box::new(SubstituteOnError::new(fallible, FieldValue::Null)) }
    }

    fn resolve_neighbors<V: AsVertex<A::Vertex> + 'vertex>(
        &self,
        contexts: ContextIterator<'vertex, ErrorSlot<A::Error>, V>,
        vertex_type: &Arc<str>,
        edge_name: &Arc<str>,
        parameters: &EdgeParameters,
        resolve_info: &ResolveEdgeInfo,
    ) -> (outcomes: ContextOutcomeIterator<
        'vertex,
        ErrorSlot<A::Error>,
        V,
        VertexIterator<'vertex, ErrorSlot<A::Error>, A::Vertex>,
    >)
        ensures
            exists|
                adapter: &A,
                fallible: ContextOutcomeIterator<
                    'vertex,
                    ErrorSlot<A::Error>,
                    V,
                    NeighborResolution<'vertex, ErrorSlot<A::Error>, A::Vertex, A::Error>,
                >,
            |
                {
                    &&& self.wraps(adapter)
                    &&& #[trigger] call_ensures(
                        A::resolve_neighbors::<ErrorSlot<A::Error>, V>,
                        (adapter, contexts, vertex_type, edge_name, parameters, resolve_info),
                        fallible,
                    )
                    &&& outcomes.log().len() == 0
                    &&& outcomes.behavior() == resolved_behavior(
                        fallible.behavior(),
                        fallible.log(),
                    )
                },
    {
        let adapter: &A = self.inner.deref();
        let fallible = adapter.resolve_neighbors(
            contexts,
            vertex_type,
            edge_name,
            parameters,
            resolve_info,
        );
        proof {
            law_resolved_neighbors_are_ready(fallible.behavior(), fallible.log());
        }
        VertexIterator { source: Box::new(FuseNeighbors::new(fallible)) }
    }

    fn resolve_coercion<V: AsVertex<A::Vertex> + 'vertex>(
        &self,
        contexts: ContextIterator<'vertex, ErrorSlot<A::Error>, V>,
        vertex_type: &Arc<str>,
        coerce_to_type: &Arc<str>,
        resolve_info: &ResolveInfo,
    ) -> (outcomes: ContextOutcomeIterator<'vertex, ErrorSlot<A::Error>, V, bool>)
        ensures
            exists|
                adapter: &A,
                fallible: ContextOutcomeIterator<
                    'vertex,
                    ErrorSlot<A::Error>,
                    V,
                    Result<bool, A::Error>,
                >,
            |
                {
                    &&& self.wraps(adapter)
                    &&& #[trigger] call_ensures(
                        A::resolve_coercion::<ErrorSlot<A::Error>, V>,
                        (adapter, contexts, vertex_type, coerce_to_type, resolve_info),
                        fallible,
                    )
                    &&& outcomes.log().len() == 0
                    &&& outcomes.behavior() == substituted_behavior(
                        fallible.behavior(),
                        fallible.log(),
                        false,
                    )
                },
    {
        let adapter: &A = self.inner.deref();
        let fallible = adapter.resolve_coercion(
            contexts,
            vertex_type,
            coerce_to_type,
            resolve_info,
        );
        VertexIterator { source: Box::new(SubstituteOnError::new(fallible, false)) }
    }
}

} // verus!
