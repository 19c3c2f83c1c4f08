use artemis_core::engine::{
    ActionMapper, CollectorMap, Engine, EventMapper, Executor, ExecutorMap, Strategy,
};

/// A strategy that counts the events it has seen and emits the count.
struct CounterStrategy {
    count: u64,
}

impl Strategy<u64, u64> for CounterStrategy {
    fn sync_state(&mut self) -> Result<(), String> {
        Ok(())
    }

    fn process_event(&mut self, _event: &u64) -> Vec<u64> {
        self.count += 1;
        vec![self.count]
    }
}

/// An executor that records every action it is given.
struct Recorder {
    got: Vec<u64>,
}

impl Executor<u64> for Recorder {
    fn execute(&mut self, action: &u64) -> Result<(), String> {
        self.got.push(*action);
        Ok(())
    }
}

#[test]
fn sequential_strategy_invocation() {
    // N events delivered through the engine yield actions 1..N in order:
    // each event is processed to completion before the next one.
    let mut engine: Engine<u64, u64, (), CounterStrategy, Recorder> = Engine::new();
    engine.add_strategy(CounterStrategy { count: 0 });
    engine.add_executor(Recorder { got: Vec::new() });
    let events = vec![100u64, 200, 300, 400, 500];
    let actions = engine.run_events(&events);
    assert_eq!(actions, vec![1, 2, 3, 4, 5]);
    assert_eq!(engine.executor_list()[0].got, vec![1, 2, 3, 4, 5]);
}

/// The strategy's unified action type for the fan-out test.
#[derive(Clone)]
enum TestAction {
    VariantA(u64),
    VariantB(u64),
}

/// Accepts only one of the two variants.
struct VariantFilter {
    want_a: bool,
}

impl ActionMapper<TestAction> for VariantFilter {
    type Owned = u64;

    fn map_action(&self, action: &TestAction) -> Option<u64> {
        match action {
            TestAction::VariantA(x) => {
                if self.want_a {
                    Some(*x)
                } else {
                    None
                }
            },
            TestAction::VariantB(x) => {
                if self.want_a {
                    None
                } else {
                    Some(*x)
                }
            },
        }
    }
}

/// A strategy of the unified types that never emits; only the executors are
/// exercised in the fan-out test.
struct SilentStrategy;

impl Strategy<TestAction, TestAction> for SilentStrategy {
    fn sync_state(&mut self) -> Result<(), String> {
        Ok(())
    }

    fn process_event(&mut self, _event: &TestAction) -> Vec<TestAction> {
        Vec::new()
    }
}

#[test]
fn fan_out_filtering() {
    // Two executors, one accepting only variant A and one only variant B: an
    // action of variant A reaches exactly the first one.
    let mut engine: Engine<
        TestAction,
        TestAction,
        (),
        SilentStrategy,
        ExecutorMap<VariantFilter, Recorder>,
    > = Engine::new();
    engine.add_executor(ExecutorMap::new(
        VariantFilter { want_a: true },
        Recorder { got: Vec::new() },
    ));
    engine.add_executor(ExecutorMap::new(
        VariantFilter { want_a: false },
        Recorder { got: Vec::new() },
    ));

    engine.deliver_action(&TestAction::VariantA(7));
    assert_eq!(engine.executor_list()[0].executor.got, vec![7]);
    assert_eq!(engine.executor_list()[1].executor.got, Vec::<u64>::new());

    engine.deliver_action(&TestAction::VariantB(9));
    assert_eq!(engine.executor_list()[0].executor.got, vec![7]);
    assert_eq!(engine.executor_list()[1].executor.got, vec![9]);
}

/// A failing executor must not keep later executors from the action.
struct FailingExecutor;

impl Executor<u64> for FailingExecutor {
    fn execute(&mut self, _action: &u64) -> Result<(), String> {
        Err(String::from("transport unreachable"))
    }
}

/// Either a failing executor or a recording one, under one type so both fit
/// one registry.
enum MixedExecutor {
    Failing(FailingExecutor),
    Recording(Recorder),
}

impl Executor<u64> for MixedExecutor {
    fn execute(&mut self, action: &u64) -> Result<(), String> {
        match self {
            MixedExecutor::Failing(f) => f.execute(action),
            MixedExecutor::Recording(r) => r.execute(action),
        }
    }
}

#[test]
fn executor_failure_is_local() {
    let mut engine: Engine<u64, u64, (), CounterStrategy, MixedExecutor> = Engine::new();
    engine.add_executor(MixedExecutor::Failing(FailingExecutor));
    engine.add_executor(MixedExecutor::Recording(Recorder { got: Vec::new() }));
    engine.add_strategy(CounterStrategy { count: 0 });
    engine.run_event(&42u64);
    match &engine.executor_list()[1] {
        MixedExecutor::Recording(r) => assert_eq!(r.got, vec![1]),
        _ => panic!("registry order changed"),
    }
}

/// Maps a source-specific event (a string) onto the unified event (its
/// length).
struct LengthMapper;

impl EventMapper<String> for LengthMapper {
    type Unified = u64;

    fn map_event(&self, event: String) -> u64 {
        event.len() as u64
    }
}

#[test]
fn collector_adapter_maps_events() {
    let adapter = CollectorMap::new((), LengthMapper);
    let unified = adapter.apply(String::from("abcd"));
    assert_eq!(unified, 4);
}

#[test]
fn strategies_dispatch_in_registration_order() {
    let mut engine: Engine<u64, u64, (), CounterStrategy, Recorder> = Engine::new();
    engine.add_strategy(CounterStrategy { count: 0 });
    engine.add_strategy(CounterStrategy { count: 10 });
    let actions = engine.dispatch_event(&1u64);
    assert_eq!(actions, vec![1, 11]);
    let actions = engine.dispatch_event(&2u64);
    assert_eq!(actions, vec![2, 12]);
}

/// A strategy whose one-time state load can fail.
struct FlakySync {
    load_works: bool,
    loaded: bool,
}

impl Strategy<u64, u64> for FlakySync {
    fn sync_state(&mut self) -> Result<(), String> {
        if self.load_works {
            self.loaded = true;
            Ok(())
        } else {
            Err(String::from("state load failed"))
        }
    }

    fn process_event(&mut self, _event: &u64) -> Vec<u64> {
        Vec::new()
    }
}

#[test]
fn initialization_failure_is_fatal() {
    let mut engine: Engine<u64, u64, (), FlakySync, Recorder> = Engine::new();
    engine.add_strategy(FlakySync { load_works: true, loaded: false });
    engine.add_strategy(FlakySync { load_works: false, loaded: false });
    engine.add_strategy(FlakySync { load_works: true, loaded: false });
    let result = engine.init_strategies();
    assert_eq!(result, Err(String::from("state load failed")));

    let mut engine: Engine<u64, u64, (), FlakySync, Recorder> = Engine::new();
    engine.add_strategy(FlakySync { load_works: true, loaded: false });
    assert_eq!(engine.init_strategies(), Ok(()));
}
