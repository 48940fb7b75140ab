//! Where the error of a run comes to light: the outermost sequences of a pipeline.

use vstd::prelude::*;

use crate::adapter::NeighborResolution;
use crate::error::ExecutionError;
use crate::error_tracking::{
    failed, failed_outcome, fused, fused_behavior, is_fused, is_resolved, is_substituted, resolved,
    resolved_behavior, stops_on, substituted, substituted_behavior, tracked_neighbors, ErrorSlot,
};
use crate::pull::{
    lemma_one_more_poll, may_follow, replays, replays_idle, Behavior, Pull, Pulled, VertexIterator,
};

verus! {

/// The result that stands for a poll of rows: nothing, or a row that succeeded.
pub open spec fn row<Item, E>(poll: Pulled<ErrorSlot<E>, Item>) -> Option<
    Result<Item, ExecutionError<E>>,
> {
    match poll.item {
        Some(item) => Some(Ok(item)),
        None => None,
    }
}

/// The result that stands for a poll of rows after which the slot may hold an error: the error goes
/// before the row.
pub open spec fn surfaced<Item, E>(poll: Pulled<ErrorSlot<E>, Item>) -> Option<
    Result<Item, ExecutionError<E>>,
> {
    match poll.after {
        Some(error) => Some(Err(ExecutionError::Adapter(error))),
        None => row(poll),
    }
}

/// The items among a run of results.
pub open spec fn somes<R>(results: Seq<Option<R>>) -> Seq<R>
    decreases results.len(),
{
    if results.len() == 0 {
        Seq::empty()
    } else {
        match results.last() {
            Some(result) => somes(results.drop_last()).push(result),
            None => somes(results.drop_last()),
        }
    }
}

/// Results from which on nothing came do not count.
proof fn lemma_somes_prefix<R>(results: Seq<Option<R>>, len: int)
    requires
        0 <= len <= results.len(),
        forall|j: int| len <= j < results.len() ==> (#[trigger] results[j]) is None,
    ensures
        somes(results) == somes(results.take(len)),
    decreases results.len(),
{
    if len < results.len() {
        lemma_somes_prefix(results.drop_last(), len);
        assert(results.drop_last().take(len) =~= results.take(len));
    } else {
        assert(results.take(len) =~= results);
    }
}

/// The results of a query, given its rows and the slot that the rows' pulls share.
///
/// Each row is a result, until an error is in the slot: then the row in the making is discarded,
/// the error is the last result, and the rows are not pulled again.
#[verifier::reject_recursive_types(Item)]
#[verifier::reject_recursive_types(E)]
pub struct SurfaceErrors<I, Item, E> {
    inner: I,
    slot: ErrorSlot<E>,
    done: bool,
    start: Ghost<int>,
    results: Ghost<Seq<Option<Result<Item, ExecutionError<E>>>>>,
}

/// Makes results of rows: `slot` is handed to every pull of `inner`.
pub fn surface_errors<I: Pull<ErrorSlot<E>, Item>, Item, E>(
    inner: I,
    slot: ErrorSlot<E>,
) -> (results: SurfaceErrors<I, Item, E>)
    requires
        inner.ready(),
    ensures
        results.ready(),
        results.inner() == inner,
        results.base() == inner.log(),
        results.slot() == slot,
        !results.done(),
        results.polls().len() == 0,
        results.results().len() == 0,
{
    SurfaceErrors {
        inner,
        slot,
        done: false,
        start: Ghost(inner.log().len() as int),
        results: Ghost(Seq::empty()),
    }
}

impl<I: Pull<ErrorSlot<E>, Item>, Item, E> SurfaceErrors<I, Item, E> {
    /// The rows.
    pub closed spec fn inner(&self) -> I {
        self.inner
    }

    /// The slot that the pulls of the rows share.
    pub closed spec fn slot(&self) -> ErrorSlot<E> {
        self.slot
    }

    /// The error has been given.
    pub closed spec fn done(&self) -> bool {
        self.done
    }

    /// What was behind the rows when they were made results of.
    pub closed spec fn base(&self) -> Seq<Pulled<ErrorSlot<E>, Item>> {
        self.inner.log().take(self.start@)
    }

    /// The polls of the rows so far.
    pub closed spec fn polls(&self) -> Seq<Pulled<ErrorSlot<E>, Item>> {
        self.inner.log().skip(self.start@)
    }

    /// What each call of [`next`](Self::next) has returned.
    pub closed spec fn results(&self) -> Seq<Option<Result<Item, ExecutionError<E>>>> {
        self.results@
    }

    /// The results can be pulled.
    pub closed spec fn ready(&self) -> bool {
        let polls = self.polls();
        let results = self.results@;
        &&& self.inner.ready()
        &&& 0 <= self.start@ <= self.inner.log().len()
        &&& may_follow(self.inner.behavior(), self.base(), polls)
        &&& self.slot is Some ==> !self.done && results.len() == 0 && polls.len() == 0
        &&& !self.done ==> results.len() == polls.len()
        &&& forall|i: int| 0 <= i < polls.len() ==> (#[trigger] polls[i]).before is None
        &&& forall|i: int|
            0 <= i < polls.len() - (if self.done { 1int } else { 0 }) ==> (
            #[trigger] polls[i]).after is None && results[i] == row(polls[i])
        &&& self.done ==> results.len() > 0 && results.len() >= polls.len()
        &&& self.done && polls.len() > 0 ==> polls.last().after is Some && results[polls.len() - 1]
            == Some(Err::<Item, _>(ExecutionError::Adapter(polls.last().after->0)))
        &&& self.done && polls.len() == 0 ==> (results[0] matches Some(Err(_)))
        &&& self.done ==> forall|j: int|
            polls.len() <= j < results.len() && 0 < j ==> (#[trigger] results[j]) is None
    }

    /// Borrows the slot that the pulls of the rows share: it shows an error that was recorded and
    /// not yet given.
    pub fn error_slot(&self) -> (slot: &ErrorSlot<E>)
        ensures
            *slot == self.slot(),
    {
        &self.slot
    }

    /// Pulls the next result.
    pub fn next(&mut self) -> (result: Option<Result<Item, ExecutionError<E>>>)
        requires
            old(self).ready(),
        ensures
            final(self).ready(),
            final(self).results() == old(self).results().push(result),
            final(self).base() == old(self).base(),
            final(self).inner().behavior() == old(self).inner().behavior(),
            may_follow(final(self).inner().behavior(), final(self).base(), final(self).polls()),
            old(self).done() ==> {
                &&& result is None
                &&& final(self).done()
                &&& final(self).inner() == old(self).inner()
                &&& final(self).polls() == old(self).polls()
                &&& final(self).slot() == old(self).slot()
            },
            !old(self).done() ==> (old(self).slot() matches Some(error) ==> {
                &&& result == Some(Err::<Item, _>(ExecutionError::Adapter(error)))
                &&& final(self).done()
                &&& final(self).inner() == old(self).inner()
                &&& final(self).polls() == old(self).polls()
                &&& final(self).slot() is None
            }),
            !old(self).done() && old(self).slot() is None ==> {
                let poll = final(self).inner().log().last();
                &&& final(self).inner().log() == old(self).inner().log().push(poll)
                &&& (final(self).inner().behavior())(final(self).inner().log())
                &&& final(self).polls() == old(self).polls().push(poll)
                &&& poll.before is None
                &&& result == match poll.after {
                    Some(error) => Some(Err(ExecutionError::Adapter(error))),
                    None => match poll.item {
                        Some(item) => Some(Ok(item)),
                        None => None,
                    },
                }
                &&& final(self).done() == poll.after is Some
                &&& final(self).slot() is None
            },
    {
        let ghost polled = self.inner.log();
        let ghost results = self.results@;
        if self.done {
            self.results = Ghost(results.push(None));
            return None;
        }
        // An error may be there before anything is pulled.
        if let Some(error) = self.slot.take() {
            self.done = true;
            let result = Some(Err(ExecutionError::Adapter(error)));
            self.results = Ghost(results.push(result));
            return result;
        }
        let item = self.inner.next(&mut self.slot);
        proof {
            let poll = self.inner.log().last();
            lemma_one_more_poll(self.inner.behavior(), polled, self.start@, poll);
        }
        // Making this row may have met an error: the row is then built on truncated data.
        if let Some(error) = self.slot.take() {
            self.done = true;
            let result = Some(Err(ExecutionError::Adapter(error)));
            self.results = Ghost(results.push(result));
            return result;
        }
        let result = match item {
            Some(item) => Some(Ok(item)),
            None => None,
        };
        self.results = Ghost(results.push(result));
        result
    }
}

impl<I: Pull<ErrorSlot<E>, Item>, Item, E> SurfaceErrors<I, Item, E> {
    /// Completed rows come first, then at most one error, and then nothing.
    pub proof fn law_fail_fast(&self)
        requires
            self.ready(),
        ensures
            forall|i: int, j: int|
                0 <= i < j < self.results().len() && (#[trigger] self.results()[i] matches Some(
                    Err(_),
                )) ==> (#[trigger] self.results()[j]) is None,
            self.done() <==> exists|i: int|
                0 <= i < self.results().len() && (#[trigger] self.results()[i] matches Some(
                    Err(_),
                )),
    {
        let last = if self.polls().len() > 0 {
            self.polls().len() - 1
        } else {
            0
        };
        assert forall|i: int|
            0 <= i < self.results().len() && (#[trigger] self.results()[i] matches Some(
                Err(_),
            )) implies self.done && i == last by {
            if i < self.polls().len() {
                assert(self.polls()[i].before is None);
            }
        }
    }

    /// Where results came without a poll of the rows, the first is the error that was there before
    /// anything was pulled, and nothing came afterwards.
    pub proof fn law_an_early_error_is_all(&self)
        requires
            self.ready(),
            self.polls().len() == 0,
            self.results().len() > 0,
        ensures
            self.done(),
            self.results()[0] matches Some(Err(_)),
            forall|j: int| 0 < j < self.results().len() ==> (#[trigger] self.results()[j]) is None,
    {
    }

    /// Each result stands for one poll of the rows, which go on as they may: an error that the poll
    /// left in the slot, or else the row. The rows are not polled after the error.
    pub proof fn law_results_stand_for_polls(&self)
        requires
            self.ready(),
            self.polls().len() > 0,
        ensures
            may_follow(self.inner().behavior(), self.base(), self.polls()),
            self.results().len() >= self.polls().len(),
            forall|i: int|
                0 <= i < self.results().len() ==> (#[trigger] self.results()[i]) == (if i
                    < self.polls().len() {
                    surfaced(self.polls()[i])
                } else {
                    None
                }),
            forall|i: int|
                0 <= i < self.polls().len() ==> (#[trigger] self.polls()[i]).before is None,
            forall|i: int|
                0 <= i < self.polls().len() - 1 ==> (#[trigger] self.polls()[i]).after is None,
    {
    }
}

/// Rows that replay the polls of a source give the results that stand for those polls.
proof fn lemma_surfaced_source<A, Item, E>(
    results: Seq<Option<Result<Item, ExecutionError<E>>>>,
    log: Seq<Pulled<ErrorSlot<E>, Item>>,
    polls: Seq<Pulled<ErrorSlot<E>, A>>,
    stops: spec_fn(ErrorSlot<E>, Seq<Pulled<ErrorSlot<E>, A>>) -> bool,
    outcome: spec_fn(Pulled<ErrorSlot<E>, A>) -> Pulled<ErrorSlot<E>, Item>,
    result: spec_fn(Pulled<ErrorSlot<E>, A>) -> Option<Result<Item, ExecutionError<E>>>,
)
    requires
        replays(log, polls, stops, outcome),
        results.len() == log.len(),
        forall|i: int| 0 <= i < log.len() ==> (#[trigger] results[i]) == surfaced(log[i]),
        forall|i: int| 0 <= i < log.len() ==> (#[trigger] log[i]).before is None,
        forall|poll: Pulled<ErrorSlot<E>, A>| surfaced(#[trigger] outcome(poll)) == result(poll),
    ensures
        somes(results) == somes(polls.map_values(result)),
    decreases log.len(),
{
    if log.len() > 0 {
        let shorter = results.drop_last();
        let earlier = log.drop_last();
        if replays_idle(log, polls, stops) && replays(earlier, polls, stops, outcome) {
            lemma_surfaced_source(shorter, earlier, polls, stops, outcome, result);
        } else {
            let fewer = polls.drop_last();
            lemma_surfaced_source(shorter, earlier, fewer, stops, outcome, result);
            assert(polls.map_values(result).drop_last() =~= fewer.map_values(result));
        }
    }
}

/// The result that stands for a poll of a fallible sequence: an error that the poll left in the
/// slot, or else the item.
pub open spec fn reported<T, E>(poll: Pulled<ErrorSlot<E>, Result<T, E>>) -> Option<
    Result<T, ExecutionError<E>>,
> {
    match (poll.after, poll.item) {
        (Some(error), _) => Some(Err(ExecutionError::Adapter(error))),
        (None, Some(Ok(value))) => Some(Ok(value)),
        (None, Some(Err(error))) => Some(Err(ExecutionError::Adapter(error))),
        (None, None) => None,
    }
}

/// Where the values of a fallible sequence are the rows, the results are what that sequence gave:
/// its values in order and, last, its first error. It is not polled after that.
pub proof fn law_items_reach_the_results<I: Pull<ErrorSlot<E>, T>, T, E>(
    results: &SurfaceErrors<I, T, E>,
    source: Behavior<ErrorSlot<E>, Result<T, E>>,
    base: Seq<Pulled<ErrorSlot<E>, Result<T, E>>>,
) -> (polls: Seq<Pulled<ErrorSlot<E>, Result<T, E>>>)
    requires
        results.ready(),
        results.polls().len() > 0,
        results.base().len() == 0,
        results.inner().behavior() == fused_behavior(source, base),
    ensures
        may_follow(source, base, polls),
        is_fused(results.polls(), polls),
        somes(results.results()) == somes(
            polls.map_values(|poll: Pulled<ErrorSlot<E>, Result<T, E>>| reported(poll)),
        ),
{
    let log = results.polls();
    let polls = choose|polls: Seq<Pulled<ErrorSlot<E>, Result<T, E>>>| #[trigger]
        may_follow(source, base, polls) && is_fused(log, polls);
    results.law_results_stand_for_polls();
    lemma_somes_prefix(results.results(), log.len() as int);
    lemma_surfaced_source(
        results.results().take(log.len() as int),
        log,
        polls,
        stops_on(|poll| failed(poll)),
        |poll| fused(poll),
        |poll: Pulled<ErrorSlot<E>, Result<T, E>>| reported(poll),
    );
    polls
}

/// The result that stands for a poll of contexts with fallible outcomes: an error that the poll
/// left in the slot, or else the outcome, with its context where it is a value.
pub open spec fn reported_outcome<C, T, E>(poll: Pulled<ErrorSlot<E>, (C, Result<T, E>)>) -> Option<
    Result<(C, T), ExecutionError<E>>,
> {
    match (poll.after, poll.item) {
        (Some(error), _) => Some(Err(ExecutionError::Adapter(error))),
        (None, Some((context, Ok(value)))) => Some(Ok((context, value))),
        (None, Some((_, Err(error)))) => Some(Err(ExecutionError::Adapter(error))),
        (None, None) => None,
    }
}

/// Where the plain outcomes of properties or coercions are the rows, the results are what the
/// adapter gave: the contexts with their values in order and, last, the first error in place of the
/// context that met it. The adapter is not polled after that.
pub proof fn law_outcomes_reach_the_results<I: Pull<ErrorSlot<E>, (C, T)>, C, T, E>(
    results: &SurfaceErrors<I, (C, T), E>,
    source: Behavior<ErrorSlot<E>, (C, Result<T, E>)>,
    base: Seq<Pulled<ErrorSlot<E>, (C, Result<T, E>)>>,
    substitute: T,
) -> (polls: Seq<Pulled<ErrorSlot<E>, (C, Result<T, E>)>>)
    requires
        results.ready(),
        results.polls().len() > 0,
        results.base().len() == 0,
        results.inner().behavior() == substituted_behavior(source, base, substitute),
    ensures
        may_follow(source, base, polls),
        is_substituted(results.polls(), polls, substitute),
        somes(results.results()) == somes(
            polls.map_values(
                |poll: Pulled<ErrorSlot<E>, (C, Result<T, E>)>| reported_outcome(poll),
            ),
        ),
{
    let log = results.polls();
    let polls = choose|polls: Seq<Pulled<ErrorSlot<E>, (C, Result<T, E>)>>| #[trigger]
        may_follow(source, base, polls) && is_substituted(log, polls, substitute);
    results.law_results_stand_for_polls();
    lemma_somes_prefix(results.results(), log.len() as int);
    lemma_surfaced_source(
        results.results().take(log.len() as int),
        log,
        polls,
        stops_on(|poll| failed_outcome(poll)),
        |poll| substituted(poll, substitute),
        |poll: Pulled<ErrorSlot<E>, (C, Result<T, E>)>| reported_outcome(poll),
    );
    polls
}

/// The result that stands for a poll of edge resolutions: an error that the poll left in the slot,
/// or else the error of the edge as a whole, or the context with its neighbors.
pub open spec fn reported_neighbors<'vertex, C, Vertex, E>(
    poll: Pulled<ErrorSlot<E>, (C, NeighborResolution<'vertex, ErrorSlot<E>, Vertex, E>)>,
) -> Option<Result<(C, VertexIterator<'vertex, ErrorSlot<E>, Vertex>), ExecutionError<E>>> {
    match (poll.after, poll.item) {
        (Some(error), _) => Some(Err(ExecutionError::Adapter(error))),
        (None, Some((_, Err(error)))) => Some(Err(ExecutionError::Adapter(error))),
        (None, Some((context, resolution))) => Some(Ok((context, tracked_neighbors(resolution)))),
        (None, None) => None,
    }
}

/// Where contexts with their neighbors are the rows, the results are what the adapter gave: the
/// contexts with their neighbors in order and, last, the first error that failed an edge as a
/// whole. The adapter is not polled after that.
pub proof fn law_edge_failures_reach_the_results<
    'vertex,
    I: Pull<ErrorSlot<E>, (C, VertexIterator<'vertex, ErrorSlot<E>, Vertex>)>,
    C,
    Vertex: 'vertex,
    E: 'vertex,
>(
    results: &SurfaceErrors<I, (C, VertexIterator<'vertex, ErrorSlot<E>, Vertex>), E>,
    source: Behavior<ErrorSlot<E>, (C, NeighborResolution<'vertex, ErrorSlot<E>, Vertex, E>)>,
    base: Seq<Pulled<ErrorSlot<E>, (C, NeighborResolution<'vertex, ErrorSlot<E>, Vertex, E>)>>,
) -> (polls: Seq<
    Pulled<ErrorSlot<E>, (C, NeighborResolution<'vertex, ErrorSlot<E>, Vertex, E>)>,
>)
    requires
        results.ready(),
        results.polls().len() > 0,
        results.base().len() == 0,
        results.inner().behavior() == resolved_behavior(source, base),
    ensures
        may_follow(source, base, polls),
        is_resolved(results.polls(), polls),
        somes(results.results()) == somes(
            polls.map_values(
                |
                    poll: Pulled<
                        ErrorSlot<E>,
                        (C, NeighborResolution<'vertex, ErrorSlot<E>, Vertex, E>),
                    >,
                | reported_neighbors(poll),
            ),
        ),
{
    let log = results.polls();
    let polls = choose|
        polls: Seq<
            Pulled<ErrorSlot<E>, (C, NeighborResolution<'vertex, ErrorSlot<E>, Vertex, E>)>,
        >,
    | #[trigger]
        may_follow(source, base, polls) && is_resolved(log, polls);
    results.law_results_stand_for_polls();
    lemma_somes_prefix(results.results(), log.len() as int);
    lemma_surfaced_source(
        results.results().take(log.len() as int),
        log,
        polls,
        stops_on(|poll| failed_outcome(poll)),
        |poll| resolved(poll),
        |poll: Pulled<ErrorSlot<E>, (C, NeighborResolution<'vertex, ErrorSlot<E>, Vertex, E>)>|
            reported_neighbors(poll),
    );
    polls
}

/// The pair that stands for a poll of pairs: an error in the slot becomes the context's outcome.
pub open spec fn attached<C, T, E>(poll: Pulled<ErrorSlot<E>, (C, T)>) -> Option<
    (C, Result<T, E>),
> {
    match poll.item {
        Some((context, value)) => match poll.after {
            Some(error) => Some((context, Err(error))),
            None => Some((context, Ok(value))),
        },
        None => None,
    }
}

/// The poll left a context to attach an error to, and the error.
pub open spec fn attaches<C, T, E>(poll: Pulled<ErrorSlot<E>, (C, T)>) -> bool {
    poll.item is Some && poll.after is Some
}

/// Pairs of context and outcome, given the pairs of context and plain value and the slot that
/// their pulls share.
///
/// Each plain value is an outcome, until an error is in the slot: then the error is the outcome of
/// the context at hand, and the last one.
#[verifier::reject_recursive_types(C)]
#[verifier::reject_recursive_types(T)]
#[verifier::reject_recursive_types(E)]
pub struct SurfaceErrorsPaired<I, C, T, E> {
    inner: I,
    slot: ErrorSlot<E>,
    done: bool,
    start: Ghost<int>,
    results: Ghost<Seq<Option<(C, Result<T, E>)>>>,
}

/// Makes outcomes of plain values: `slot` is handed to every pull of `inner`.
pub fn surface_errors_paired<I: Pull<ErrorSlot<E>, (C, T)>, C, T, E>(
    inner: I,
    slot: ErrorSlot<E>,
) -> (results: SurfaceErrorsPaired<I, C, T, E>)
    requires
        inner.ready(),
    ensures
        results.ready(),
        results.inner() == inner,
        results.base() == inner.log(),
        results.slot() == slot,
        !results.done(),
        results.polls().len() == 0,
        results.results().len() == 0,
{
    SurfaceErrorsPaired {
        inner,
        slot,
        done: false,
        start: Ghost(inner.log().len() as int),
        results: Ghost(Seq::empty()),
    }
}

impl<I: Pull<ErrorSlot<E>, (C, T)>, C, T, E> SurfaceErrorsPaired<I, C, T, E> {
    /// The pairs of context and plain value.
    pub closed spec fn inner(&self) -> I {
        self.inner
    }

    /// The slot that the pulls of the pairs share.
    pub closed spec fn slot(&self) -> ErrorSlot<E> {
        self.slot
    }

    /// The error has been given.
    pub closed spec fn done(&self) -> bool {
        self.done
    }

    /// What was behind the pairs when they were made outcomes of.
    pub closed spec fn base(&self) -> Seq<Pulled<ErrorSlot<E>, (C, T)>> {
        self.inner.log().take(self.start@)
    }

    /// The polls of the pairs so far.
    pub closed spec fn polls(&self) -> Seq<Pulled<ErrorSlot<E>, (C, T)>> {
        self.inner.log().skip(self.start@)
    }

    /// What each call of [`next`](Self::next) has returned.
    pub closed spec fn results(&self) -> Seq<Option<(C, Result<T, E>)>> {
        self.results@
    }

    /// The outcomes can be pulled.
    pub closed spec fn ready(&self) -> bool {
        let polls = self.polls();
        let results = self.results@;
        &&& self.inner.ready()
        &&& 0 <= self.start@ <= self.inner.log().len()
        &&& may_follow(self.inner.behavior(), self.base(), polls)
        &&& self.done <==> polls.len() > 0 && attaches(polls.last())
        &&& forall|i: int| 0 <= i < polls.len() - 1 ==> !attaches(#[trigger] polls[i])
        &&& forall|i: int, j: int|
            0 <= i < polls.len() && j == i + 1 && j < polls.len() ==> (#[trigger] polls[i]).after
                == (#[trigger] polls[j]).before
        &&& !self.done && polls.len() > 0 ==> self.slot == polls.last().after
        &&& results.len() >= polls.len()
        &&& !self.done ==> results.len() == polls.len()
        &&& forall|i: int|
            0 <= i < results.len() ==> (#[trigger] results[i]) == (if i < polls.len() {
                attached(polls[i])
            } else {
                None
            })
    }

    /// Borrows the slot that the pulls of the pairs share: it shows an error that was recorded and
    /// not yet given.
    pub fn error_slot(&self) -> (slot: &ErrorSlot<E>)
        ensures
            *slot == self.slot(),
    {
        &self.slot
    }

    /// Pulls the next pair.
    pub fn next(&mut self) -> (result: Option<(C, Result<T, E>)>)
        requires
            old(self).ready(),
        ensures
            final(self).ready(),
            final(self).results() == old(self).results().push(result),
            final(self).base() == old(self).base(),
            final(self).inner().behavior() == old(self).inner().behavior(),
            may_follow(final(self).inner().behavior(), final(self).base(), final(self).polls()),
            old(self).done() ==> {
                &&& result is None
                &&& final(self).done()
                &&& final(self).inner() == old(self).inner()
                &&& final(self).polls() == old(self).polls()
                &&& final(self).slot() == old(self).slot()
            },
            !old(self).done() ==> {
                let poll = final(self).inner().log().last();
                &&& final(self).inner().log() == old(self).inner().log().push(poll)
                &&& (final(self).inner().behavior())(final(self).inner().log())
                &&& final(self).polls() == old(self).polls().push(poll)
                &&& poll.before == old(self).slot()
                &&& result == attached(poll)
                &&& result == match poll.item {
                    Some((context, value)) => match poll.after {
                        Some(error) => Some((context, Err(error))),
                        None => Some((context, Ok(value))),
                    },
                    None => None,
                }
                &&& final(self).done() == (poll.item is Some && poll.after is Some)
                &&& final(self).slot() == if poll.item is Some {
                    None
                } else {
                    poll.after
                }
            },
    {
        let ghost polled = self.inner.log();
        let ghost results = self.results@;
        if self.done {
            self.results = Ghost(results.push(None));
            return None;
        }
        let pair = self.inner.next(&mut self.slot);
        proof {
            let poll = self.inner.log().last();
            lemma_one_more_poll(self.inner.behavior(), polled, self.start@, poll);
        }
        let result = match pair {
            Some((context, value)) => match self.slot.take() {
                Some(error) => {
                    self.done = true;
                    Some((context, Err(error)))
                },
                None => Some((context, Ok(value))),
            },
            None => None,
        };
        self.results = Ghost(results.push(result));
        result
    }
}

impl<I: Pull<ErrorSlot<E>, (C, T)>, C, T, E> SurfaceErrorsPaired<I, C, T, E> {
    /// Each result stands for one poll of the pairs, which go on as they may, the slot goes from
    /// one poll to the next, and only the last poll may have attached an error: the pairs are not
    /// polled after that.
    pub proof fn law_results_stand_for_polls(&self)
        requires
            self.ready(),
        ensures
            may_follow(self.inner().behavior(), self.base(), self.polls()),
            self.results().len() >= self.polls().len(),
            forall|i: int|
                0 <= i < self.results().len() ==> (#[trigger] self.results()[i]) == (if i
                    < self.polls().len() {
                    attached(self.polls()[i])
                } else {
                    None
                }),
            forall|i: int, j: int|
                0 <= i < self.polls().len() && j == i + 1 && j < self.polls().len() ==> (
                #[trigger] self.polls()[i]).after == (#[trigger] self.polls()[j]).before,
            forall|i: int|
                0 <= i < self.polls().len() - 1 ==> !attaches(#[trigger] self.polls()[i]),
            self.done() <==> self.polls().len() > 0 && attaches(self.polls().last()),
    {
    }
}

/// Pairs that replay fallible outcomes give the pairs that stand for the polls of those.
proof fn lemma_attached_source<C, T, E>(
    results: Seq<Option<(C, Result<T, E>)>>,
    log: Seq<Pulled<ErrorSlot<E>, (C, T)>>,
    polls: Seq<Pulled<ErrorSlot<E>, (C, Result<T, E>)>>,
    substitute: T,
)
    requires
        replays(
            log,
            polls,
            stops_on(|poll| failed_outcome(poll)),
            |poll| substituted(poll, substitute),
        ),
        results.len() == log.len(),
        forall|i: int| 0 <= i < log.len() ==> (#[trigger] results[i]) == attached(log[i]),
    ensures
        somes(results) == somes(
            polls.map_values(
                |poll: Pulled<ErrorSlot<E>, (C, Result<T, E>)>| reattached(poll),
            ),
        ),
    decreases log.len(),
{
    let stands = |poll: Pulled<ErrorSlot<E>, (C, Result<T, E>)>| reattached(poll);
    if log.len() > 0 {
        let shorter = results.drop_last();
        let earlier = log.drop_last();
        let stops = stops_on(
            |poll: Pulled<ErrorSlot<E>, (C, Result<T, E>)>| failed_outcome(poll),
        );
        let outcome = |poll| substituted(poll, substitute);
        if replays_idle(log, polls, stops) && replays(earlier, polls, stops, outcome) {
            lemma_attached_source(shorter, earlier, polls, substitute);
        } else {
            lemma_attached_source(shorter, earlier, polls.drop_last(), substitute);
            assert(polls.map_values(stands).drop_last() =~= polls.drop_last().map_values(stands));
        }
    }
}

/// The pair that stands for a poll of contexts with fallible outcomes: the context with an error
/// that the poll left in the slot, or else with the outcome.
pub open spec fn reattached<C, T, E>(poll: Pulled<ErrorSlot<E>, (C, Result<T, E>)>) -> Option<
    (C, Result<T, E>),
> {
    match (poll.item, poll.after) {
        (Some((context, _)), Some(error)) => Some((context, Err(error))),
        (Some(pair), None) => Some(pair),
        (None, _) => None,
    }
}

/// Surfacing undoes the substitution: the pairs that come out are the contexts with the outcomes
/// that the adapter gave, the first error included and last. The adapter is not polled after that.
pub proof fn law_paired_results_are_the_outcomes<I: Pull<ErrorSlot<E>, (C, T)>, C, T, E>(
    results: &SurfaceErrorsPaired<I, C, T, E>,
    source: Behavior<ErrorSlot<E>, (C, Result<T, E>)>,
    base: Seq<Pulled<ErrorSlot<E>, (C, Result<T, E>)>>,
    substitute: T,
) -> (polls: Seq<Pulled<ErrorSlot<E>, (C, Result<T, E>)>>)
    requires
        results.ready(),
        results.polls().len() > 0,
        results.base().len() == 0,
        results.inner().behavior() == substituted_behavior(source, base, substitute),
    ensures
        may_follow(source, base, polls),
        is_substituted(results.polls(), polls, substitute),
        somes(results.results()) == somes(
            polls.map_values(|poll: Pulled<ErrorSlot<E>, (C, Result<T, E>)>| reattached(poll)),
        ),
{
    let log = results.polls();
    let polls = choose|polls: Seq<Pulled<ErrorSlot<E>, (C, Result<T, E>)>>| #[trigger]
        may_follow(source, base, polls) && is_substituted(log, polls, substitute);
    results.law_results_stand_for_polls();
    lemma_somes_prefix(results.results(), log.len() as int);
    lemma_attached_source(results.results().take(log.len() as int), log, polls, substitute);
    polls
}

} // verus!
