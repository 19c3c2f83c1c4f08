//! The dispatch engine: ordered registries of collectors, strategies and
//! executors, and the rules that wire them together. Each event is handed to
//! every strategy in registration order, one invocation at a time, and the
//! actions a strategy emits are fanned out to every executor; an executor's
//! failure is local and never stops dispatch. The traits carry mathematical
//! models, so what a whole run emits is a function of the registered
//! components and the event sequence alone.

use vstd::prelude::*;

verus! {

/// A stateful decision unit: initialized once, then handed one event at a
/// time, each producing zero or more actions. The spec functions are the
/// implementor's model of itself; the engine's contracts are stated over
/// them.
pub trait Strategy<E, A>: Sized {
    /// Whether the one-time state load succeeds. The default leaves it
    /// unspecified; a verified implementation overrides it.
    open spec fn sync_ok(&self) -> bool {
        arbitrary()
    }

    /// The state after a successful one-time state load. The default leaves
    /// it unspecified; a verified implementation overrides it.
    open spec fn synced(&self) -> Self {
        arbitrary()
    }

    /// The state after processing one event. The default leaves it
    /// unspecified; a verified implementation overrides it.
    open spec fn next_state(&self, event: &E) -> Self {
        arbitrary()
    }

    /// The actions emitted for one event, in order. The default leaves them
    /// unspecified; a verified implementation overrides it.
    open spec fn actions(&self, event: &E) -> Seq<A> {
        arbitrary()
    }

    /// Load reference state once, before any event is processed; a failure
    /// is fatal to the run.
    fn sync_state(&mut self) -> (r: Result<(), String>)
        ensures
            r is Ok <==> old(self).sync_ok(),
            r is Ok ==> *final (self) == old(self).synced(),
    ;

    /// Process one event and emit the resulting actions. The engine never
    /// runs two invocations of the same strategy concurrently.
    fn process_event(&mut self, event: &E) -> (acts: Vec<A>)
        ensures
            *final (self) == old(self).next_state(event),
            acts@ == old(self).actions(event),
    ;
}

/// A side-effecting consumer of actions. A failed execution is reported, not
/// escalated: the engine logs and drops it. The spec function is the
/// implementor's model of the effect one action has on it.
pub trait Executor<A>: Sized {
    /// The state after executing one action. The default leaves it
    /// unspecified; a verified implementation overrides it.
    open spec fn post(&self, action: &A) -> Self {
        arbitrary()
    }

    /// Carry one action out.
    fn execute(&mut self, action: &A) -> (r: Result<(), String>)
        ensures
            *final (self) == old(self).post(action),
    ;
}

/// A total mapping from a collector's own event type onto the engine's
/// unified event type.
pub trait EventMapper<S>: Sized {
    /// The engine's unified event type.
    type Unified;

    /// What each source event maps to. The default leaves it unspecified; a
    /// verified implementation overrides it.
    open spec fn maps(&self, event: &S) -> Self::Unified {
        arbitrary()
    }

    /// Map one source event.
    fn map_event(&self, event: S) -> (r: Self::Unified)
        ensures
            r == self.maps(&event),
    ;
}

/// A partial mapping from the engine's unified action type onto an executor's
/// own action type: `None` marks the actions the executor does not own.
pub trait ActionMapper<A>: Sized {
    /// The wrapped executor's own action type.
    type Owned;

    /// What each engine action maps to, if this executor accepts it. The
    /// default leaves it unspecified; a verified implementation overrides it.
    open spec fn maps(&self, action: &A) -> Option<Self::Owned> {
        arbitrary()
    }

    /// Map one engine action.
    fn map_action(&self, action: &A) -> (r: Option<Self::Owned>)
        ensures
            r == self.maps(action),
    ;
}

/// Adapter wrapping a collector whose event type differs from the engine's:
/// the mapper turns each source event into a unified one before it reaches
/// the shared event channel.
pub struct CollectorMap<C, M> {
    /// The wrapped collector.
    pub collector: C,
    /// The mapping applied to each of its events.
    pub mapper: M,
}

impl<C, M> CollectorMap<C, M> {
    /// Wrap a collector with the mapping applied to its events.
    pub fn new(collector: C, mapper: M) -> (r: CollectorMap<C, M>)
        ensures
            r.collector == collector,
            r.mapper == mapper,
    {
        CollectorMap { collector, mapper }
    }

    /// Turn one source event into a unified event.
    pub fn apply<S>(&self, event: S) -> (r: M::Unified) where M: EventMapper<S>
        ensures
            r == self.mapper.maps(&event),
    {
        self.mapper.map_event(event)
    }
}

/// Adapter wrapping an executor whose action type differs from the engine's:
/// the mapper selects and converts the actions the executor owns, and every
/// other action passes by without invoking it.
#[verifier::ext_equal]
pub struct ExecutorMap<M, X> {
    /// The mapping that selects this executor's actions.
    pub mapper: M,
    /// The wrapped executor.
    pub executor: X,
}

impl<M, X> ExecutorMap<M, X> {
    /// Wrap an executor with the mapping that selects its actions.
    pub fn new(mapper: M, executor: X) -> (r: ExecutorMap<M, X>)
        ensures
            r.mapper == mapper,
            r.executor == executor,
    {
        ExecutorMap { mapper, executor }
    }
}

impl<A, M: ActionMapper<A>, X: Executor<M::Owned>> Executor<A> for ExecutorMap<M, X> {
    /// An accepted action advances the wrapped executor; a rejected one
    /// leaves it untouched.
    open spec fn post(&self, action: &A) -> Self {
        match self.mapper.maps(action) {
            Some(b) => ExecutorMap { mapper: self.mapper, executor: self.executor.post(&b) },
            None => *self,
        }
    }

    fn execute(&mut self, action: &A) -> (r: Result<(), String>) {
        match self.mapper.map_action(action) {
            Some(b) => self.executor.execute(&b),
            None => Ok(()),
        }
    }
}

/// Every executor wrapped by an [`ExecutorMap`] is invoked exactly for the
/// actions its mapper accepts: a rejected action leaves the wrapped executor
/// — and the whole adapter — unchanged, and an accepted action advances the
/// wrapped executor by the mapped action, and nothing else.
pub proof fn lemma_fan_out_filtering<A, M: ActionMapper<A>, X: Executor<M::Owned>>(
    em: ExecutorMap<M, X>,
    action: A,
)
    ensures
        em.mapper.maps(&action) is None ==> em.post(&action) == em,
        em.mapper.maps(&action) matches Some(b) ==> em.post(&action) == (ExecutorMap {
            mapper: em.mapper,
            executor: em.executor.post(&b),
        }),
{
}

/// The strategies after every one of them processed the same event once.
pub open spec fn advance_strategies<E, A, S: Strategy<E, A>>(ss: Seq<S>, event: &E) -> Seq<S> {
    ss.map_values(|s: S| s.next_state(event))
}

/// The actions all strategies emit for one event: each strategy's actions in
/// registration order, concatenated.
pub open spec fn actions_of<E, A, S: Strategy<E, A>>(ss: Seq<S>, event: &E) -> Seq<A>
    decreases ss.len(),
{
    if ss.len() == 0 {
        seq![]
    } else {
        ss[0].actions(event) + actions_of(ss.skip(1), event)
    }
}

/// The executors after every one of them executed the same action once.
pub open spec fn post_executors<A, X: Executor<A>>(xs: Seq<X>, action: &A) -> Seq<X> {
    xs.map_values(|x: X| x.post(action))
}

/// The executors after a sequence of actions was fanned out, one action at a
/// time, each to every executor.
pub open spec fn deliver_seq<A, X: Executor<A>>(xs: Seq<X>, acts: Seq<A>) -> Seq<X>
    decreases acts.len(),
{
    if acts.len() == 0 {
        xs
    } else {
        deliver_seq(post_executors(xs, &acts[0]), acts.skip(1))
    }
}

/// One executor's state after it alone executed a whole action sequence in
/// order.
pub open spec fn executor_after<A, X: Executor<A>>(x: X, acts: Seq<A>) -> X
    decreases acts.len(),
{
    if acts.len() == 0 {
        x
    } else {
        executor_after(x.post(&acts[0]), acts.skip(1))
    }
}

/// Fan-out reaches every executor: through a whole action sequence, every
/// registered executor executes every action in emission order, as if the
/// sequence had been handed to it alone.
pub proof fn lemma_fan_out_to_every_executor<A, X: Executor<A>>(xs: Seq<X>, acts: Seq<A>, k: int)
    requires
        0 <= k < xs.len(),
    ensures
        deliver_seq(xs, acts).len() == xs.len(),
        deliver_seq(xs, acts)[k] == executor_after(xs[k], acts),
    decreases acts.len(),
{
    if acts.len() > 0 {
        lemma_fan_out_to_every_executor(post_executors(xs, &acts[0]), acts.skip(1), k);
    }
}

/// The strategies after a whole event sequence, each event processed by every
/// strategy before the next event is dispatched.
pub open spec fn run_strategies<E, A, S: Strategy<E, A>>(ss: Seq<S>, events: Seq<E>) -> Seq<S>
    decreases events.len(),
{
    if events.len() == 0 {
        ss
    } else {
        run_strategies(advance_strategies(ss, &events[0]), events.skip(1))
    }
}

/// Every action a whole run emits, in order: for each event in turn, the
/// actions of all strategies as they stood when that event arrived.
pub open spec fn engine_actions<E, A, S: Strategy<E, A>>(ss: Seq<S>, events: Seq<E>) -> Seq<A>
    decreases events.len(),
{
    if events.len() == 0 {
        seq![]
    } else {
        actions_of(ss, &events[0]) + engine_actions(
            advance_strategies(ss, &events[0]),
            events.skip(1),
        )
    }
}

/// One strategy's state after it alone processed a whole event sequence in
/// order.
pub open spec fn strategy_after<E, A, S: Strategy<E, A>>(s: S, events: Seq<E>) -> S
    decreases events.len(),
{
    if events.len() == 0 {
        s
    } else {
        strategy_after(s.next_state(&events[0]), events.skip(1))
    }
}

/// Strict sequencing: through a whole run, every registered strategy sees
/// every event exactly once, in delivery order, with its state threaded from
/// one invocation to the next — as if it alone had folded the sequence.
pub proof fn lemma_strategies_sequential<E, A, S: Strategy<E, A>>(
    ss: Seq<S>,
    events: Seq<E>,
    k: int,
)
    requires
        0 <= k < ss.len(),
    ensures
        run_strategies(ss, events).len() == ss.len(),
        run_strategies(ss, events)[k] == strategy_after(ss[k], events),
    decreases events.len(),
{
    if events.len() > 0 {
        lemma_strategies_sequential(advance_strategies(ss, &events[0]), events.skip(1), k);
    }
}

/// The engine: ordered registries of collectors, strategies and executors,
/// built before the run starts and immutable thereafter.
pub struct Engine<E, A, C, S, X> {
    collectors: Vec<C>,
    strategies: Vec<S>,
    executors: Vec<X>,
    _bus: core::marker::PhantomData<(E, A)>,
}

impl<E, A, C, S: Strategy<E, A>, X: Executor<A>> Engine<E, A, C, S, X> {
    /// The registered collectors, in registration order.
    pub closed spec fn collectors(&self) -> Seq<C> {
        self.collectors@
    }

    /// The registered strategies, in registration order.
    pub closed spec fn strategies(&self) -> Seq<S> {
        self.strategies@
    }

    /// The registered executors, in registration order.
    pub closed spec fn executors(&self) -> Seq<X> {
        self.executors@
    }

    /// An engine with empty registries.
    pub fn new() -> (r: Engine<E, A, C, S, X>)
        ensures
            r.collectors() == Seq::<C>::empty(),
            r.strategies() == Seq::<S>::empty(),
            r.executors() == Seq::<X>::empty(),
    {
        let e = Engine {
            collectors: Vec::new(),
            strategies: Vec::new(),
            executors: Vec::new(),
            _bus: core::marker::PhantomData,
        };
        proof {
            assert(e.collectors() =~= Seq::<C>::empty());
            assert(e.strategies() =~= Seq::<S>::empty());
            assert(e.executors() =~= Seq::<X>::empty());
        }
        e
    }

    /// The registered executors, for reading their state back out.
    pub fn executor_list(&self) -> (r: &Vec<X>)
        ensures
            r@ == self.executors(),
    {
        &self.executors
    }

    /// Append one collector to the registry.
    pub fn add_collector(&mut self, collector: C)
        ensures
            final (self).collectors() == old(self).collectors().push(collector),
            final (self).strategies() == old(self).strategies(),
            final (self).executors() == old(self).executors(),
    {
        self.collectors.push(collector);
    }

    /// Append one strategy to the registry.
    pub fn add_strategy(&mut self, strategy: S)
        ensures
            final (self).strategies() == old(self).strategies().push(strategy),
            final (self).collectors() == old(self).collectors(),
            final (self).executors() == old(self).executors(),
    {
        self.strategies.push(strategy);
    }

    /// Append one executor to the registry.
    pub fn add_executor(&mut self, executor: X)
        ensures
            final (self).executors() == old(self).executors().push(executor),
            final (self).collectors() == old(self).collectors(),
            final (self).strategies() == old(self).strategies(),
    {
        self.executors.push(executor);
    }

    /// Initialize every strategy, in registration order, before any event is
    /// dispatched: each strategy's one-time state load runs to completion,
    /// and the first failure is fatal — it is returned at once, with the
    /// strategies before it synced and the ones after it untouched.
    pub fn init_strategies(&mut self) -> (r: Result<(), String>)
        ensures
            final (self).collectors() == old(self).collectors(),
            final (self).executors() == old(self).executors(),
            final (self).strategies().len() == old(self).strategies().len(),
            r is Ok ==> {
                &&& forall|i: int|
                    0 <= i < old(self).strategies().len() ==> (#[trigger] old(
                        self,
                    ).strategies()[i]).sync_ok()
                &&& final (self).strategies() == old(self).strategies().map_values(
                    |s: S| s.synced(),
                )
            },
            r is Err ==> exists|i: int|
                {
                    &&& 0 <= i < old(self).strategies().len()
                    &&& !(#[trigger] old(self).strategies()[i]).sync_ok()
                    &&& forall|j: int| 0 <= j < i ==> (#[trigger] old(self).strategies()[j]).sync_ok()
                    &&& forall|j: int| #![trigger final (self).strategies()[j]]
                        0 <= j < i ==> final (self).strategies()[j]
                            == old(self).strategies()[j].synced()
                    &&& forall|j: int| #![trigger final (self).strategies()[j]]
                        i < j < old(self).strategies().len() ==> final (self).strategies()[j]
                            == old(self).strategies()[j]
                },
    {
        let ghost ss0 = self.strategies@;
        let mut todo: Vec<S> = Vec::new();
        core::mem::swap(&mut self.strategies, &mut todo);
        let ghost mut i: int = 0;
        while todo.len() > 0
            invariant
                ss0 == old(self).strategies@,
                0 <= i <= ss0.len(),
                todo@ == ss0.skip(i),
                self.strategies@.len() == i,
                forall|j: int| 0 <= j < i ==> (#[trigger] ss0[j]).sync_ok(),
                forall|j: int| 0 <= j < i ==> (#[trigger] self.strategies@[j]) == ss0[j].synced(),
                self.collectors@ == old(self).collectors@,
                self.executors@ == old(self).executors@,
            decreases todo@.len(),
        {
            let mut s = todo.remove(0);
            let result = s.sync_state();
            self.strategies.push(s);
            match result {
                Ok(()) => {
                    proof {
                        assert(todo@ =~= ss0.skip(i + 1));
                        i = i + 1;
                    }
                },
                Err(message) => {
                    self.strategies.append(&mut todo);
                    proof {
                        assert(forall|j: int|
                            i < j < ss0.len() ==> (#[trigger] self.strategies@[j]) == ss0.skip(
                                i + 1,
                            )[j - i - 1]);
                    }
                    return Err(message);
                },
            }
        }
        proof {
            assert(ss0.skip(i) =~= Seq::<S>::empty());
            assert(self.strategies@ =~= ss0.map_values(|s: S| s.synced()));
        }
        Ok(())
    }

    /// Dispatch one event: every strategy processes it in registration order,
    /// and the actions they emit are returned concatenated, in that order.
    pub fn dispatch_event(&mut self, event: &E) -> (actions: Vec<A>)
        ensures
            final (self).strategies() == advance_strategies(old(self).strategies(), event),
            actions@ == actions_of(old(self).strategies(), event),
            final (self).collectors() == old(self).collectors(),
            final (self).executors() == old(self).executors(),
    {
        let ghost ss0 = self.strategies@;
        let ghost cs0 = self.collectors@;
        let ghost xs0 = self.executors@;
        let mut todo: Vec<S> = Vec::new();
        core::mem::swap(&mut self.strategies, &mut todo);
        let mut actions: Vec<A> = Vec::new();
        let ghost mut i: int = 0;
        while todo.len() > 0
            invariant
                0 <= i <= ss0.len(),
                todo@ == ss0.skip(i),
                self.strategies@ == advance_strategies(ss0.take(i), event),
                actions@ == actions_of(ss0.take(i), event),
                self.collectors@ == cs0,
                self.executors@ == xs0,
            decreases todo@.len(),
        {
            let mut s = todo.remove(0);
            let mut acts = s.process_event(event);
            self.strategies.push(s);
            actions.append(&mut acts);
            proof {
                lemma_actions_of_push(ss0.take(i), ss0[i], event);
                assert(ss0.take(i).push(ss0[i]) =~= ss0.take(i + 1));
                assert(advance_strategies(ss0.take(i), event).push(ss0[i].next_state(event))
                    =~= advance_strategies(ss0.take(i + 1), event));
                assert(todo@ =~= ss0.skip(i + 1));
                i = i + 1;
            }
        }
        proof {
            assert(ss0.take(i) =~= ss0);
        }
        actions
    }

    /// Fan one action out to every executor, in registration order; an
    /// executor's failure is dropped and does not keep the action from the
    /// executors after it.
    pub fn deliver_action(&mut self, action: &A)
        ensures
            final (self).executors() == post_executors(old(self).executors(), action),
            final (self).collectors() == old(self).collectors(),
            final (self).strategies() == old(self).strategies(),
    {
        let ghost xs0 = self.executors@;
        let ghost cs0 = self.collectors@;
        let ghost ss0 = self.strategies@;
        let mut todo: Vec<X> = Vec::new();
        core::mem::swap(&mut self.executors, &mut todo);
        let ghost mut i: int = 0;
        while todo.len() > 0
            invariant
                0 <= i <= xs0.len(),
                todo@ == xs0.skip(i),
                self.executors@ == post_executors(xs0.take(i), action),
                self.collectors@ == cs0,
                self.strategies@ == ss0,
            decreases todo@.len(),
        {
            let mut x = todo.remove(0);
            let _ = x.execute(action);
            self.executors.push(x);
            proof {
                assert(post_executors(xs0.take(i), action).push(xs0[i].post(action))
                    =~= post_executors(xs0.take(i + 1), action));
                assert(todo@ =~= xs0.skip(i + 1));
                i = i + 1;
            }
        }
        proof {
            assert(xs0.take(i) =~= xs0);
        }
    }

    /// Run one event through the whole engine: dispatch it to every strategy,
    /// then fan each emitted action out to every executor, in emission order.
    pub fn run_event(&mut self, event: &E) -> (actions: Vec<A>)
        ensures
            final (self).strategies() == advance_strategies(old(self).strategies(), event),
            actions@ == actions_of(old(self).strategies(), event),
            final (self).executors() == deliver_seq(
                old(self).executors(),
                actions_of(old(self).strategies(), event),
            ),
            final (self).collectors() == old(self).collectors(),
    {
        let actions = self.dispatch_event(event);
        let ghost xs0 = self.executors@;
        let ghost av = actions@;
        let ghost ss1 = self.strategies@;
        let ghost cs1 = self.collectors@;
        let mut k: usize = 0;
        while k < actions.len()
            invariant
                0 <= k <= av.len(),
                actions@ == av,
                self.executors@ == deliver_seq(xs0, av.take(k as int)),
                self.strategies@ == ss1,
                self.collectors@ == cs1,
            decreases av.len() - k,
        {
            self.deliver_action(&actions[k]);
            proof {
                lemma_deliver_seq_push(xs0, av.take(k as int), av[k as int]);
                assert(av.take(k as int).push(av[k as int]) =~= av.take(k as int + 1));
            }
            k += 1;
        }
        proof {
            assert(av.take(av.len() as int) =~= av);
        }
        actions
    }

    /// Run a whole event sequence through the engine, each event processed to
    /// completion — all strategies invoked, all emitted actions fanned out —
    /// before the next event is dispatched. Returns every emitted action, in
    /// order.
    pub fn run_events(&mut self, events: &Vec<E>) -> (actions: Vec<A>)
        ensures
            final (self).strategies() == run_strategies(old(self).strategies(), events@),
            actions@ == engine_actions(old(self).strategies(), events@),
            final (self).executors() == deliver_seq(
                old(self).executors(),
                engine_actions(old(self).strategies(), events@),
            ),
            final (self).collectors() == old(self).collectors(),
    {
        let ghost ss0 = self.strategies@;
        let ghost xs0 = self.executors@;
        let ghost cs0 = self.collectors@;
        let mut actions: Vec<A> = Vec::new();
        let mut k: usize = 0;
        while k < events.len()
            invariant
                0 <= k <= events@.len(),
                self.strategies@ == run_strategies(ss0, events@.take(k as int)),
                actions@ == engine_actions(ss0, events@.take(k as int)),
                self.executors@ == deliver_seq(xs0, engine_actions(ss0, events@.take(k as int))),
                self.collectors@ == cs0,
            decreases events@.len() - k,
        {
            let mut acts = self.run_event(&events[k]);
            actions.append(&mut acts);
            proof {
                lemma_run_step(ss0, xs0, events@.take(k as int), events@[k as int]);
                assert(events@.take(k as int).push(events@[k as int])
                    =~= events@.take(k as int + 1));
            }
            k += 1;
        }
        proof {
            assert(events@.take(events@.len() as int) =~= events@);
        }
        actions
    }
}

/// The actions of one more strategy are appended after those of the
/// strategies before it.
proof fn lemma_actions_of_push<E, A, S: Strategy<E, A>>(ss: Seq<S>, s: S, event: &E)
    ensures
        actions_of(ss.push(s), event) == actions_of(ss, event) + s.actions(event),
    decreases ss.len(),
{
    if ss.len() == 0 {
        assert(ss.push(s).skip(1) =~= Seq::<S>::empty());
        assert(actions_of(Seq::<S>::empty(), event) == Seq::<A>::empty());
        assert(ss.push(s)[0] == s);
        assert(actions_of(ss, event) == Seq::<A>::empty());
        assert(actions_of(ss.push(s), event) =~= actions_of(ss, event) + s.actions(event));
    } else {
        lemma_actions_of_push(ss.skip(1), s, event);
        assert(ss.push(s).skip(1) =~= ss.skip(1).push(s));
        assert(ss.push(s)[0] == ss[0]);
        assert(actions_of(ss.push(s), event) =~= actions_of(ss, event) + s.actions(event));
    }
}

/// Delivering one more action folds it onto the executors last.
proof fn lemma_deliver_seq_push<A, X: Executor<A>>(xs: Seq<X>, acts: Seq<A>, a: A)
    ensures
        deliver_seq(xs, acts.push(a)) == post_executors(deliver_seq(xs, acts), &a),
    decreases acts.len(),
{
    if acts.len() == 0 {
        assert(acts.push(a).skip(1) =~= Seq::<A>::empty());
        assert(acts.push(a)[0] == a);
        assert(deliver_seq(post_executors(xs, &a), Seq::<A>::empty()) == post_executors(xs, &a));
        assert(deliver_seq(xs, acts) == xs);
        assert(deliver_seq(xs, acts.push(a)) == post_executors(deliver_seq(xs, acts), &a));
    } else {
        lemma_deliver_seq_push(post_executors(xs, &acts[0]), acts.skip(1), a);
        assert(acts.push(a).skip(1) =~= acts.skip(1).push(a));
        assert(acts.push(a)[0] == acts[0]);
    }
}

/// Delivering a concatenation folds the first actions, then the rest.
proof fn lemma_deliver_seq_concat<A, X: Executor<A>>(xs: Seq<X>, a: Seq<A>, b: Seq<A>)
    ensures
        deliver_seq(xs, a + b) == deliver_seq(deliver_seq(xs, a), b),
    decreases a.len(),
{
    if a.len() == 0 {
        assert(a + b =~= b);
    } else {
        lemma_deliver_seq_concat(post_executors(xs, &a[0]), a.skip(1), b);
        assert((a + b).skip(1) =~= a.skip(1) + b);
        assert((a + b)[0] == a[0]);
    }
}

/// Appending one event to a run advances the strategies once more, appends
/// that event's actions, and folds them onto the executors.
proof fn lemma_run_step<E, A, S: Strategy<E, A>, X: Executor<A>>(
    ss: Seq<S>,
    xs: Seq<X>,
    events: Seq<E>,
    e: E,
)
    ensures
        run_strategies(ss, events.push(e)) == advance_strategies(
            run_strategies(ss, events),
            &e,
        ),
        engine_actions(ss, events.push(e)) == engine_actions(ss, events) + actions_of(
            run_strategies(ss, events),
            &e,
        ),
        deliver_seq(xs, engine_actions(ss, events.push(e))) == deliver_seq(
            deliver_seq(xs, engine_actions(ss, events)),
            actions_of(run_strategies(ss, events), &e),
        ),
    decreases events.len(),
{
    if events.len() == 0 {
        assert(events.push(e).skip(1) =~= Seq::<E>::empty());
        assert(events.push(e)[0] == e);
        assert(run_strategies(advance_strategies(ss, &e), Seq::<E>::empty())
            == advance_strategies(ss, &e));
        assert(engine_actions(advance_strategies(ss, &e), Seq::<E>::empty())
            == Seq::<A>::empty());
        assert(run_strategies(ss, events) == ss);
        assert(engine_actions(ss, events) == Seq::<A>::empty());
        assert(engine_actions(ss, events.push(e)) =~= engine_actions(ss, events) + actions_of(
            run_strategies(ss, events),
            &e,
        ));
        lemma_deliver_seq_concat(
            xs,
            engine_actions(ss, events),
            actions_of(run_strategies(ss, events), &e),
        );
    } else {
        lemma_run_step(advance_strategies(ss, &events[0]), xs, events.skip(1), e);
        assert(events.push(e).skip(1) =~= events.skip(1).push(e));
        assert(events.push(e)[0] == events[0]);
        assert(engine_actions(ss, events.push(e)) =~= engine_actions(ss, events) + actions_of(
            run_strategies(ss, events),
            &e,
        ));
        lemma_deliver_seq_concat(
            xs,
            engine_actions(ss, events),
            actions_of(run_strategies(ss, events), &e),
        );
    }
}

} // verus!
