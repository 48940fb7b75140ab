//! Lazy sequences that thread one execution state through every pull.
//!
//! A resolver pipeline is a chain of lazy sequences: pulling an item from the last of them pulls
//! from those before it. What such a chain shares while it runs, such as the
//! [`ErrorSlot`](crate::error_tracking::ErrorSlot), is a value of some type `S` that each pull
//! borrows and hands on.

use vstd::prelude::*;

verus! {

/// One pull: the state that went in, the item that came out, and the state afterwards.
pub struct Pulled<S, T> {
    pub before: S,
    pub item: Option<T>,
    pub after: S,
}

/// The pull that took `before` to `after` and gave `item`.
pub open spec fn pulled<S, T>(before: S, item: Option<T>, after: S) -> Pulled<S, T> {
    Pulled { before, item, after }
}

/// The pull gave nothing and left the state alone.
pub open spec fn is_idle<S, T>(pull: Pulled<S, T>) -> bool {
    pull.item is None && pull.after == pull.before
}

/// The items that a run of pulls gave, in order.
pub open spec fn yielded<S, T>(pulls: Seq<Pulled<S, T>>) -> Seq<T>
    decreases pulls.len(),
{
    if pulls.len() == 0 {
        Seq::empty()
    } else {
        match pulls.last().item {
            Some(item) => yielded(pulls.drop_last()).push(item),
            None => yielded(pulls.drop_last()),
        }
    }
}

/// One more pull gives the items so far, and its own item where it gave one.
pub proof fn lemma_yielded_push<S, T>(pulls: Seq<Pulled<S, T>>, pull: Pulled<S, T>)
    ensures
        yielded(pulls.push(pull)) == match pull.item {
            Some(item) => yielded(pulls).push(item),
            None => yielded(pulls),
        },
{
    assert(pulls.push(pull).drop_last() =~= pulls);
}

/// `log` is `polls`, pull by pull under `outcome`, with idle pulls in between: a pull is idle where
/// `stops` holds of its state and of the polls so far, and a poll where it does not.
pub open spec fn replays<S, A, B>(
    log: Seq<Pulled<S, B>>,
    polls: Seq<Pulled<S, A>>,
    stops: spec_fn(S, Seq<Pulled<S, A>>) -> bool,
    outcome: spec_fn(Pulled<S, A>) -> Pulled<S, B>,
) -> bool
    decreases log.len(),
{
    if log.len() == 0 {
        polls.len() == 0
    } else {
        ||| replays_idle(log, polls, stops) && replays(log.drop_last(), polls, stops, outcome)
        ||| replays_poll(log, polls, stops, outcome) && replays(
            log.drop_last(),
            polls.drop_last(),
            stops,
            outcome,
        )
    }
}

/// The last pull of `log` is idle, as it must be after `polls`.
pub open spec fn replays_idle<S, A, B>(
    log: Seq<Pulled<S, B>>,
    polls: Seq<Pulled<S, A>>,
    stops: spec_fn(S, Seq<Pulled<S, A>>) -> bool,
) -> bool {
    stops(log.last().before, polls) && is_idle(log.last())
}

/// The last pull of `log` is the outcome of the last of `polls`, as it must be after those before.
pub open spec fn replays_poll<S, A, B>(
    log: Seq<Pulled<S, B>>,
    polls: Seq<Pulled<S, A>>,
    stops: spec_fn(S, Seq<Pulled<S, A>>) -> bool,
    outcome: spec_fn(Pulled<S, A>) -> Pulled<S, B>,
) -> bool {
    &&& polls.len() > 0
    &&& !stops(log.last().before, polls.drop_last())
    &&& log.last() == outcome(polls.last())
}

/// A replay goes on with an idle pull.
pub proof fn lemma_replays_idle<S, A, B>(
    log: Seq<Pulled<S, B>>,
    polls: Seq<Pulled<S, A>>,
    stops: spec_fn(S, Seq<Pulled<S, A>>) -> bool,
    outcome: spec_fn(Pulled<S, A>) -> Pulled<S, B>,
    pull: Pulled<S, B>,
)
    requires
        replays(log, polls, stops, outcome),
        stops(pull.before, polls),
        is_idle(pull),
    ensures
        replays(log.push(pull), polls, stops, outcome),
{
    assert(log.push(pull).drop_last() =~= log);
}

/// A replay goes on with the outcome of one more poll.
pub proof fn lemma_replays_poll<S, A, B>(
    log: Seq<Pulled<S, B>>,
    polls: Seq<Pulled<S, A>>,
    stops: spec_fn(S, Seq<Pulled<S, A>>) -> bool,
    outcome: spec_fn(Pulled<S, A>) -> Pulled<S, B>,
    poll: Pulled<S, A>,
)
    requires
        replays(log, polls, stops, outcome),
        !stops(outcome(poll).before, polls),
    ensures
        replays(log.push(outcome(poll)), polls.push(poll), stops, outcome),
{
    assert(log.push(outcome(poll)).drop_last() =~= log);
    assert(polls.push(poll).drop_last() =~= polls);
}

/// A replay whose polls keep their items, each under `map`, yields what the polls yield, under
/// `map`.
pub proof fn lemma_replays_yielded<S, A, B>(
    log: Seq<Pulled<S, B>>,
    polls: Seq<Pulled<S, A>>,
    stops: spec_fn(S, Seq<Pulled<S, A>>) -> bool,
    outcome: spec_fn(Pulled<S, A>) -> Pulled<S, B>,
    map: spec_fn(A) -> B,
)
    requires
        replays(log, polls, stops, outcome),
        forall|poll: Pulled<S, A>|
            (#[trigger] outcome(poll)).item == match poll.item {
                Some(item) => Some(map(item)),
                None => None,
            },
    ensures
        yielded(log) == yielded(polls).map_values(map),
    decreases log.len(),
{
    if log.len() > 0 {
        let earlier = log.drop_last();
        if replays_idle(log, polls, stops) && replays(earlier, polls, stops, outcome) {
            lemma_replays_yielded(earlier, polls, stops, outcome, map);
        } else {
            lemma_replays_yielded(earlier, polls.drop_last(), stops, outcome, map);
        }
    }
}

/// The runs of pulls that a sequence may come to have behind it.
pub type Behavior<S, T> = spec_fn(Seq<Pulled<S, T>>) -> bool;

/// A sequence of this behavior, with `base` behind it, may go on with `polls`.
pub open spec fn may_follow<S, T>(
    behavior: Behavior<S, T>,
    base: Seq<Pulled<S, T>>,
    polls: Seq<Pulled<S, T>>,
) -> bool {
    polls.len() > 0 ==> behavior(base + polls)
}

/// The runs of items that a sequence may go on with, whatever the states are.
pub type Runs<T> = spec_fn(Seq<Option<T>>) -> bool;

/// The items of a run of pulls, one for each pull.
pub open spec fn items_of<S, T>(pulls: Seq<Pulled<S, T>>) -> Seq<Option<T>> {
    pulls.map_values(|pull: Pulled<S, T>| pull.item)
}

/// The runs of items that `sequence` may go on with.
pub open spec fn runs<'vertex, S, T>(sequence: VertexIterator<'vertex, S, T>) -> Runs<T> {
    |items: Seq<Option<T>>|
        exists|pulls: Seq<Pulled<S, T>>| #[trigger]
            may_follow(sequence.behavior(), sequence.log(), pulls) && items == items_of(pulls)
}

/// The runs of `first`, and those of `second`.
pub open spec fn either<T>(first: Runs<T>, second: Runs<T>) -> Runs<T> {
    |items: Seq<Option<T>>| first(items) || second(items)
}

/// Every one of `runs` is one of `allowed`.
pub open spec fn within<T>(runs: Runs<T>, allowed: Runs<T>) -> bool {
    forall|items: Seq<Option<T>>| #[trigger] runs(items) ==> allowed(items)
}

/// One more poll of a sequence leaves what was behind it at `start`, adds to what came after, and
/// the sequence may go on with that.
pub proof fn lemma_one_more_poll<S, T>(
    behavior: Behavior<S, T>,
    log: Seq<Pulled<S, T>>,
    start: int,
    poll: Pulled<S, T>,
)
    requires
        0 <= start <= log.len(),
        behavior(log.push(poll)),
    ensures
        log.push(poll).take(start) == log.take(start),
        log.push(poll).skip(start) == log.skip(start).push(poll),
        may_follow(behavior, log.push(poll).take(start), log.push(poll).skip(start)),
{
    assert(log.push(poll).take(start) + log.push(poll).skip(start) =~= log.push(poll));
}

/// A lazy sequence of items `T`, pulled one at a time against a shared state `S`.
///
/// Nothing is promised of what a sequence yields, nor that it ends: any data source may stand
/// behind it. What it did yield is its [`log`](Pull::log), and a sequence built on top of another
/// says by its [`behavior`](Pull::behavior) how its own items come about.
pub trait Pull<S, T> {
    /// The sequence can be pulled.
    spec fn ready(&self) -> bool;

    /// Every pull so far, the oldest first.
    spec fn log(&self) -> Seq<Pulled<S, T>>;

    /// The logs that the sequence may come to have.
    spec fn behavior(&self) -> Behavior<S, T>;

    /// Pulls the next item; `None` where there is none.
    fn next(&mut self, state: &mut S) -> (item: Option<T>)
        requires
            old(self).ready(),
        ensures
            final(self).ready(),
            final(self).log() == old(self).log().push(pulled(*old(state), item, *final(state))),
            final(self).behavior() == old(self).behavior(),
            (final(self).behavior())(final(self).log()),
    ;
}

/// A boxed lazy sequence, such as the vertices that an adapter finds along an edge.
#[verifier::reject_recursive_types(S)]
#[verifier::reject_recursive_types(T)]
pub struct VertexIterator<'vertex, S, T> {
    pub source: Box<dyn Pull<S, T> + 'vertex>,
}

/// The box around `sequence`.
pub open spec fn boxed<'vertex, S, T, P: Pull<S, T> + 'vertex>(sequence: P) -> VertexIterator<
    'vertex,
    S,
    T,
> {
    VertexIterator { source: Box::new(sequence) }
}

impl<'vertex, S, T> VertexIterator<'vertex, S, T> {
    /// Boxes a sequence.
    pub fn new<P: Pull<S, T> + 'vertex>(sequence: P) -> (iterator: Self)
        ensures
            iterator == boxed::<S, T, P>(sequence),
    {
        VertexIterator { source: Box::new(sequence) }
    }
}

impl<'vertex, S, T> Pull<S, T> for VertexIterator<'vertex, S, T> {
    open spec fn ready(&self) -> bool {
        self.source.ready()
    }

    open spec fn log(&self) -> Seq<Pulled<S, T>> {
        self.source.log()
    }

    open spec fn behavior(&self) -> Behavior<S, T> {
        self.source.behavior()
    }

    fn next(&mut self, state: &mut S) -> (item: Option<T>) {
        self.source.next(state)
    }
}

/// The behavior without items: every pull gives nothing and leaves the state alone.
pub open spec fn empty_behavior<S, T>() -> Behavior<S, T> {
    |log: Seq<Pulled<S, T>>| forall|i: int| 0 <= i < log.len() ==> is_idle(#[trigger] log[i])
}

/// The sequence without items.
pub struct Empty<S, T> {
    log: Ghost<Seq<Pulled<S, T>>>,
}

impl<S, T> Empty<S, T> {
    /// The empty sequence before its first pull.
    pub closed spec fn fresh() -> Self {
        Empty { log: Ghost(Seq::empty()) }
    }

    /// Makes an empty sequence.
    pub fn new() -> (sequence: Self)
        ensures
            sequence == Self::fresh(),
            sequence.ready(),
            sequence.log().len() == 0,
    {
        Empty { log: Ghost(Seq::empty()) }
    }

    /// Boxes the sequence.
    pub fn boxed<'vertex>(self) -> (iterator: VertexIterator<'vertex, S, T>) where
        S: 'vertex,
        T: 'vertex,

        ensures
            iterator == boxed::<S, T, Self>(self),
            iterator.ready() == self.ready(),
            iterator.log() == self.log(),
            iterator.behavior() == self.behavior(),
    {
        VertexIterator { source: Box::new(self) }
    }

    /// A boxed empty sequence has nothing to give.
    pub proof fn law_nothing_comes<'vertex>() where S: 'vertex, T: 'vertex
        ensures
            boxed::<S, T, Self>(Self::fresh()).ready(),
            boxed::<S, T, Self>(Self::fresh()).log().len() == 0,
            boxed::<S, T, Self>(Self::fresh()).behavior() == empty_behavior::<S, T>(),
    {
    }
}

impl<S, T> Pull<S, T> for Empty<S, T> {
    closed spec fn ready(&self) -> bool {
        empty_behavior::<S, T>()(self.log@)
    }

    closed spec fn log(&self) -> Seq<Pulled<S, T>> {
        self.log@
    }

    open spec fn behavior(&self) -> Behavior<S, T> {
        empty_behavior()
    }

    fn next(&mut self, state: &mut S) -> (item: Option<T>)
        ensures
            item is None,
            *final(state) == *old(state),
    {
        self.log = Ghost(self.log@.push(pulled(*state, None, *state)));
        None
    }
}

/// The behavior of a single item: the first pull gives it, later ones give nothing, and none
/// changes the state.
pub open spec fn once_behavior<S, T>(item: T) -> Behavior<S, T> {
    |log: Seq<Pulled<S, T>>|
        forall|i: int|
            0 <= i < log.len() ==> (#[trigger] log[i]).after == log[i].before && log[i].item == (
            if i == 0 {
                Some(item)
            } else {
                None
            })
}

/// The sequence of a single item.
#[verifier::reject_recursive_types(S)]
#[verifier::reject_recursive_types(T)]
pub struct Once<S, T> {
    item: Option<T>,
    value: Ghost<T>,
    log: Ghost<Seq<Pulled<S, T>>>,
}

impl<S, T> Once<S, T> {
    /// The item.
    pub closed spec fn value(&self) -> T {
        self.value@
    }

    /// The item that is still to come.
    pub closed spec fn pending(&self) -> Option<T> {
        self.item
    }

    /// The sequence of `item` before its first pull.
    pub closed spec fn fresh(item: T) -> Self {
        Once { item: Some(item), value: Ghost(item), log: Ghost(Seq::empty()) }
    }

    /// Makes the sequence of `item` alone.
    pub fn new(item: T) -> (sequence: Self)
        ensures
            sequence == Self::fresh(item),
            sequence.ready(),
            sequence.value() == item,
            sequence.pending() == Some(item),
            sequence.log().len() == 0,
    {
        let ghost value = item;
        Once { item: Some(item), value: Ghost(value), log: Ghost(Seq::empty()) }
    }

    /// Boxes the sequence.
    pub fn boxed<'vertex>(self) -> (iterator: VertexIterator<'vertex, S, T>) where
        S: 'vertex,
        T: 'vertex,

        ensures
            iterator == boxed::<S, T, Self>(self),
            iterator.ready() == self.ready(),
            iterator.log() == self.log(),
            iterator.behavior() == self.behavior(),
    {
        VertexIterator { source: Box::new(self) }
    }

    /// A boxed single item is there to give, once.
    pub proof fn law_the_item_comes_once<'vertex>(item: T) where S: 'vertex, T: 'vertex
        ensures
            boxed::<S, T, Self>(Self::fresh(item)).ready(),
            boxed::<S, T, Self>(Self::fresh(item)).log().len() == 0,
            boxed::<S, T, Self>(Self::fresh(item)).behavior() == once_behavior::<S, T>(item),
    {
    }
}

impl<S, T> Pull<S, T> for Once<S, T> {
    closed spec fn ready(&self) -> bool {
        &&& once_behavior::<S, T>(self.value@)(self.log@)
        &&& self.item == (if self.log@.len() == 0 {
            Some(self.value@)
        } else {
            None
        })
    }

    closed spec fn log(&self) -> Seq<Pulled<S, T>> {
        self.log@
    }

    open spec fn behavior(&self) -> Behavior<S, T> {
        once_behavior(self.value())
    }

    fn next(&mut self, state: &mut S) -> (item: Option<T>)
        ensures
            item == old(self).pending(),
            final(self).pending() is None,
            *final(state) == *old(state),
    {
        let item = self.item.take();
        self.log = Ghost(self.log@.push(pulled(*state, item, *state)));
        item
    }
}

/// The item of the pull is what `function` returns for the state before.
pub open spec fn is_call<S, T, F: FnMut(&mut S) -> Option<T>>(
    function: F,
    pull: Pulled<S, T>,
) -> bool {
    exists|lent: &mut S| #[trigger]
        call_ensures(function, (lent,), pull.item) && *lent == pull.before
}

/// The behavior of a function: every item is what the function returns.
pub open spec fn function_behavior<S, T, F: FnMut(&mut S) -> Option<T>>(function: F) -> Behavior<
    S,
    T,
> {
    |log: Seq<Pulled<S, T>>|
        forall|i: int| 0 <= i < log.len() ==> is_call(function, #[trigger] log[i])
}

/// A sequence that asks a function for each item.
#[verifier::reject_recursive_types(S)]
#[verifier::reject_recursive_types(T)]
#[verifier::reject_recursive_types(F)]
pub struct FromFn<S, T, F> {
    function: F,
    log: Ghost<Seq<Pulled<S, T>>>,
}

/// Makes the sequence of what `function` returns, pull by pull.
pub fn from_fn<S, T, F: FnMut(&mut S) -> Option<T>>(function: F) -> (sequence: FromFn<S, T, F>)
    ensures
        sequence.function() == function,
        sequence.log().len() == 0,
        sequence.behavior() == function_behavior::<S, T, F>(function),
        (forall|state: &mut S| call_requires(function, (state,))) ==> sequence.ready(),
{
    FromFn { function, log: Ghost(Seq::empty()) }
}

impl<S, T, F> FromFn<S, T, F> {
    /// The function that gives the items.
    pub closed spec fn function(&self) -> F {
        self.function
    }
}

impl<S, T, F: FnMut(&mut S) -> Option<T>> Pull<S, T> for FromFn<S, T, F> {
    closed spec fn ready(&self) -> bool {
        &&& forall|state: &mut S| call_requires(self.function, (state,))
        &&& function_behavior::<S, T, F>(self.function)(self.log@)
    }

    closed spec fn log(&self) -> Seq<Pulled<S, T>> {
        self.log@
    }

    open spec fn behavior(&self) -> Behavior<S, T> {
        function_behavior(self.function())
    }

    fn next(&mut self, state: &mut S) -> (item: Option<T>)
        ensures
            final(self).function() == old(self).function(),
            exists|lent: &mut S| #[trigger]
                call_ensures(old(self).function(), (lent,), item) && *lent == *old(state)
                    && *final(lent) == *final(state),
    {
        let ghost before = *state;
        let item = (self.function)(state);
        self.log = Ghost(self.log@.push(pulled(before, item, *state)));
        item
    }
}

/// What a poll of plain items means for the items wrapped in `Ok`.
pub open spec fn wrapped<S, T, E>(poll: Pulled<S, T>) -> Pulled<S, Result<T, E>> {
    match poll.item {
        Some(value) => pulled(poll.before, Some(Ok(value)), poll.after),
        None => pulled(poll.before, None, poll.after),
    }
}

/// The behavior of a sequence whose items are wrapped in `Ok`, given the behavior of the plain
/// items and what was behind them when they were wrapped.
pub open spec fn ok_behavior<S, T, E>(
    source: Behavior<S, T>,
    base: Seq<Pulled<S, T>>,
) -> Behavior<S, Result<T, E>> {
    |log: Seq<Pulled<S, Result<T, E>>>|
        exists|polls: Seq<Pulled<S, T>>| #[trigger]
            may_follow(source, base, polls) && log == polls.map_values(
                |poll: Pulled<S, T>| wrapped::<S, T, E>(poll),
            )
}

/// A sequence with every item wrapped in `Ok`.
#[verifier::reject_recursive_types(S)]
#[verifier::reject_recursive_types(T)]
#[verifier::reject_recursive_types(E)]
pub struct OkEach<I, S, T, E> {
    inner: I,
    start: Ghost<int>,
    log: Ghost<Seq<Pulled<S, Result<T, E>>>>,
}

impl<I: Pull<S, T>, S, T, E> OkEach<I, S, T, E> {
    /// The sequence whose items are wrapped.
    pub closed spec fn inner(&self) -> I {
        self.inner
    }

    /// What was behind the plain items when they were wrapped.
    pub closed spec fn base(&self) -> Seq<Pulled<S, T>> {
        self.inner.log().take(self.start@)
    }

    /// The polls of the plain items since they were wrapped.
    pub closed spec fn polls(&self) -> Seq<Pulled<S, T>> {
        self.inner.log().skip(self.start@)
    }

    /// The wrapping of `inner` before its first pull.
    pub closed spec fn fresh(inner: I) -> Self {
        OkEach { inner, start: Ghost(inner.log().len() as int), log: Ghost(Seq::empty()) }
    }

    /// Wraps the items of `inner`.
    pub fn new(inner: I) -> (sequence: Self)
        ensures
            sequence == Self::fresh(inner),
            sequence.inner() == inner,
            sequence.base() == inner.log(),
            sequence.polls().len() == 0,
            sequence.log().len() == 0,
            inner.ready() ==> sequence.ready(),
    {
        OkEach { inner, start: Ghost(inner.log().len() as int), log: Ghost(Seq::empty()) }
    }

    /// Every pull is one poll of the plain items, and the item of each is wrapped in `Ok`.
    pub proof fn law_every_item_is_ok(&self)
        requires
            self.ready(),
        ensures
            self.log() == self.polls().map_values(|poll: Pulled<S, T>| wrapped::<S, T, E>(poll)),
    {
    }

    /// A boxed wrapping behaves as the plain items do, with every item wrapped.
    pub proof fn law_boxed<'vertex>(inner: I) where
        I: 'vertex,
        S: 'vertex,
        T: 'vertex,
        E: 'vertex,

        ensures
            boxed::<_, _, Self>(Self::fresh(inner)).log().len() == 0,
            boxed::<_, _, Self>(Self::fresh(inner)).behavior() == ok_behavior::<S, T, E>(
                inner.behavior(),
                inner.log(),
            ),
            inner.ready() ==> boxed::<_, _, Self>(Self::fresh(inner)).ready(),
    {
        assert(Self::fresh(inner).base() =~= inner.log());
    }
}

impl<I: Pull<S, T>, S, T, E> Pull<S, Result<T, E>> for OkEach<I, S, T, E> {
    closed spec fn ready(&self) -> bool {
        &&& self.inner.ready()
        &&& 0 <= self.start@ <= self.inner.log().len()
        &&& may_follow(self.inner.behavior(), self.base(), self.polls())
        &&& self.log@ =~= self.polls().map_values(|poll: Pulled<S, T>| wrapped::<S, T, E>(poll))
    }

    closed spec fn log(&self) -> Seq<Pulled<S, Result<T, E>>> {
        self.log@
    }

    open spec fn behavior(&self) -> Behavior<S, Result<T, E>> {
        ok_behavior(self.inner().behavior(), self.base())
    }

    fn next(&mut self, state: &mut S) -> (item: Option<Result<T, E>>)
        ensures
            ({
                let poll = final(self).inner().log().last();
                &&& final(self).inner().log() == old(self).inner().log().push(poll)
                &&& (final(self).inner().behavior())(final(self).inner().log())
                &&& final(self).polls() == old(self).polls().push(poll)
                &&& pulled(*old(state), item, *final(state)) == wrapped::<S, T, E>(poll)
                &&& poll.before == *old(state)
                &&& poll.after == *final(state)
                &&& match poll.item {
                    Some(value) => item == Some(Ok::<T, E>(value)),
                    None => item is None,
                }
            }),
            final(self).base() == old(self).base(),
            final(self).inner().behavior() == old(self).inner().behavior(),
            may_follow(final(self).inner().behavior(), final(self).base(), final(self).polls()),
    {
        let ghost before = *state;
        let ghost polled = self.inner.log();
        let item = match self.inner.next(state) {
            Some(value) => Some(Ok(value)),
            None => None,
        };
        self.log = Ghost(self.log@.push(pulled(before, item, *state)));
        proof {
            let poll = self.inner.log().last();
            lemma_one_more_poll(self.inner.behavior(), polled, self.start@, poll);
            assert(self.log@ =~= self.polls().map_values(
                |poll: Pulled<S, T>| wrapped::<S, T, E>(poll),
            ));
        }
        item
    }
}

} // verus!
