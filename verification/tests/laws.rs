#![allow(unused_variables, unused_mut)]
use nexus_rt::ctx_pipeline::CtxPipelineBuilder;
use nexus_rt::dag::{DagArmSeed, DagBuilder};
use nexus_rt::handler::Handler;
use nexus_rt::keys::KeySpace;
use nexus_rt::notify::{Events, LocalNotify, Token};
use nexus_rt::pipeline::PipelineBuilder;
use nexus_rt::reactor::{DeferredRemovals, IntoReactor, Reactor, ReactorNotify, ReactorSystem};
use nexus_rt::scheduler::SchedulerBuilder;
use nexus_rt::source_registry::SourceRegistry;
use nexus_rt::world::{With, World, WorldBuilder};

fn world_of(n: u64) -> World<With<u64, ()>> {
    WorldBuilder::new().register(n).build()
}

#[test]
fn keys_are_reused_last_vacated_first() {
    let mut keys = KeySpace::with_capacity(2);
    assert_eq!(keys.next_key(), 0);
    assert_eq!(keys.acquire(), 0);
    assert_eq!(keys.acquire(), 1);
    assert_eq!(keys.acquire(), 2);
    assert_eq!(keys.count(), 3);
    keys.release(0);
    keys.release(2);
    assert!(!keys.is_live(0));
    assert!(keys.is_live(1));
    assert!(!keys.is_live(7));
    assert_eq!(keys.count(), 1);
    assert_eq!(keys.next_key(), 2);
    assert_eq!(keys.acquire(), 2);
    assert_eq!(keys.acquire(), 0);
    assert_eq!(keys.next_key(), 3);
    assert_eq!(keys.acquire(), 3);
}

#[test]
fn marks_are_kept_once_and_in_order() {
    let mut notify = LocalNotify::with_capacity(2);
    let mut events = Events::with_capacity(2);
    notify.ensure_capacity(4);
    assert!(!notify.has_notified());
    for idx in [3, 1, 3, 4, 1] {
        notify.mark(Token::new(idx));
    }
    assert!(notify.has_notified());
    assert_eq!(notify.notified_count(), 3);
    notify.poll(&mut events);
    let polled: Vec<usize> = events.as_slice().iter().map(|t| t.index()).collect();
    assert_eq!(polled, vec![3, 1, 4]);
    assert_eq!(notify.notified_count(), 0);
    notify.mark(Token::new(1));
    notify.poll(&mut events);
    assert_eq!(events.len(), 1);
    notify.poll(&mut events);
    assert!(events.is_empty());
}

#[test]
fn tap_tee_and_inspect_hand_the_value_on() {
    let mut world = world_of(0);
    let reg = world.registry();
    let side = DagArmSeed::<u64>::new().then(|n: &mut u64, x: &u64| *n += 100 * *x, reg);
    let mut p = PipelineBuilder::<u64>::new()
        .then(|x: u64| x, reg)
        .tap(|n: &mut u64, x: &u64| *n += *x, reg)
        .tee(side)
        .then(|x: u64| if x > 0 { Some(x) } else { None }, reg)
        .inspect(|n: &mut u64, x: &u64| *n += 10 * *x, reg)
        .ok_or(7u8)
        .inspect_err(|n: &mut u64, e: &u8| *n += 1000, reg)
        .inspect(|n: &mut u64, x: &u64| *n += 1, reg);
    assert_eq!(p.run(&mut world, 2), Ok(2));
    assert_eq!(*world.resource::<u64, _>(), 2 + 200 + 20 + 1);
    assert_eq!(p.run(&mut world, 0), Err(7));
    assert_eq!(*world.resource::<u64, _>(), 223 + 1000);
}

#[test]
fn steps_behind_none_or_an_error_are_skipped() {
    let mut world = world_of(0);
    let reg = world.registry();
    let mut p = PipelineBuilder::<u64>::new()
        .then(|x: u64| if x < 10 { Some(x) } else { None }, reg)
        .map(
            |n: &mut u64, x: u64| {
                *n += 1;
                x
            },
            reg,
        )
        .and_then(
            |n: &mut u64, x: u64| {
                *n += 10;
                if x < 5 { Some(x) } else { None }
            },
            reg,
        )
        .filter(
            |n: &mut u64, x: &u64| {
                *n += 100;
                *x != 3
            },
            reg,
        );
    assert_eq!(p.run(&mut world, 20), None);
    assert_eq!(*world.resource::<u64, _>(), 0);
    assert_eq!(p.run(&mut world, 7), None);
    assert_eq!(*world.resource::<u64, _>(), 11);
    assert_eq!(p.run(&mut world, 3), None);
    assert_eq!(*world.resource::<u64, _>(), 122);
    assert_eq!(p.run(&mut world, 2), Some(2));

    let mut q = PipelineBuilder::<u64>::new()
        .then(|x: u64| if x < 10 { Ok(x) } else { Err(x) }, reg_of(&world))
        .map(|x: u64| x + 1, reg_of(&world))
        .and_then(|x: u64| if x < 5 { Ok(x) } else { Err(0) }, reg_of(&world))
        .catch(|n: &mut u64, e: u64| *n = e, reg_of(&world));
    assert_eq!(q.run(&mut world, 3), Some(4));
    assert_eq!(q.run(&mut world, 12), None);
    assert_eq!(*world.resource::<u64, _>(), 12);
    assert_eq!(q.run(&mut world, 6), None);
    assert_eq!(*world.resource::<u64, _>(), 0);
}

#[test]
fn recoveries_are_called_on_none_or_an_error_alone() {
    let mut world = world_of(0);
    let reg = world.registry();
    let mut p = PipelineBuilder::<u64>::new()
        .then(|x: u64| if x < 10 { Some(x) } else { None }, reg)
        .ok_or_else(
            |n: &mut u64| {
                *n += 1;
                *n
            },
            reg,
        )
        .map_err(
            |n: &mut u64, e: u64| {
                *n += 10;
                e + 1
            },
            reg,
        )
        .or_else(
            |n: &mut u64, e: u64| {
                *n += 100;
                if e > 2 { Ok(e) } else { Err(e) }
            },
            reg,
        )
        .unwrap_or_else(
            |n: &mut u64, e: u64| {
                *n += 1000;
                e * 7
            },
            reg,
        );
    assert_eq!(p.run(&mut world, 4), 4);
    assert_eq!(*world.resource::<u64, _>(), 0);
    assert_eq!(p.run(&mut world, 10), 14);
    assert_eq!(*world.resource::<u64, _>(), 1111);
    assert_eq!(p.run(&mut world, 10), 1113);
    assert_eq!(*world.resource::<u64, _>(), 1222);

    let mut q = PipelineBuilder::<u64>::new()
        .then(|x: u64| if x < 10 { Some(x) } else { None }, reg_of(&world))
        .unwrap_or_else(
            |n: &mut u64| {
                *n = 5;
                *n
            },
            reg_of(&world),
        );
    assert_eq!(q.run(&mut world, 9), 9);
    assert_eq!(*world.resource::<u64, _>(), 1222);
    assert_eq!(q.run(&mut world, 11), 5);
    assert_eq!(*world.resource::<u64, _>(), 5);
}

#[test]
fn graph_steps_behind_none_or_an_error_are_skipped() {
    let mut world = world_of(0);
    let reg = world.registry();
    let mut dag = DagBuilder::<u64>::new()
        .root(|x: u64| if x < 10 { Some(x) } else { None }, reg)
        .map(
            |n: &mut u64, x: &u64| {
                *n += 1;
                *x
            },
            reg,
        )
        .and_then(
            |n: &mut u64, x: &u64| {
                *n += 10;
                if *x < 5 { Some(*x) } else { None }
            },
            reg,
        )
        .ok_or(3u64)
        .map(
            |n: &mut u64, x: &u64| {
                *n += 100;
                *x
            },
            reg,
        )
        .and_then(
            |n: &mut u64, x: &u64| {
                *n += 1000;
                if *x > 0 { Ok(()) } else { Err(4u64) }
            },
            reg,
        )
        .catch(|n: &mut u64, e: &u64| *n += 10_000 * *e, reg)
        .build();
    dag.run(&mut world, 10);
    assert_eq!(*world.resource::<u64, _>(), 30_000);
    dag.run(&mut world, 7);
    assert_eq!(*world.resource::<u64, _>(), 60_011);
    dag.run(&mut world, 0);
    assert_eq!(*world.resource::<u64, _>(), 101_122);
    dag.run(&mut world, 2);
    assert_eq!(*world.resource::<u64, _>(), 102_233);
}

#[test]
fn reactors_have_names() {
    let world = world_of(0);
    let mut reactor = (|c: &mut u64| *c += 1).into_reactor(0u64, world.registry());
    assert_eq!(Reactor::<With<u64, ()>>::name(&reactor), "<unnamed>");
    reactor.name = "counter";
    assert_eq!(Reactor::<With<u64, ()>>::name(&reactor), "counter");
}

fn reg_of<R>(world: &World<R>) -> &nexus_rt::world::Registry<R> {
    world.registry()
}

#[test]
fn and_or_stop_early_and_xor_does_not() {
    fn yes(n: &mut u64) -> bool {
        *n += 1;
        true
    }
    let mut world = world_of(0);
    let reg = world.registry();
    let mut and = PipelineBuilder::<bool>::new().then(|x: bool| x, reg).and(yes, reg);
    let mut or = PipelineBuilder::<bool>::new().then(|x: bool| x, reg).or(yes, reg);
    let mut xor = PipelineBuilder::<bool>::new().then(|x: bool| x, reg).xor(yes, reg);
    assert!(!and.run(&mut world, false));
    assert!(or.run(&mut world, true));
    assert_eq!(*world.resource::<u64, _>(), 0);
    assert!(and.run(&mut world, true));
    assert!(or.run(&mut world, false));
    assert_eq!(*world.resource::<u64, _>(), 2);
    assert!(xor.run(&mut world, false));
    assert!(!xor.run(&mut world, true));
    assert_eq!(*world.resource::<u64, _>(), 4);
}

#[test]
fn route_calls_one_chain() {
    let mut world = world_of(0);
    let reg = world.registry();
    let small = PipelineBuilder::<u64>::new().then(
        |n: &mut u64, x: u64| {
            *n += 1;
            x
        },
        reg,
    );
    let large = PipelineBuilder::<u64>::new().then(
        |n: &mut u64, x: u64| {
            *n += 100;
            x * 2
        },
        reg,
    );
    let mut p = PipelineBuilder::<u64>::new().then(|x: u64| x, reg).route(|x: &u64| *x < 10, reg, small, large);
    assert_eq!(p.run(&mut world, 9), 9);
    assert_eq!(*world.resource::<u64, _>(), 1);
    assert_eq!(p.run(&mut world, 10), 20);
    assert_eq!(*world.resource::<u64, _>(), 101);
}

#[test]
fn dedup_drops_repetitions_only() {
    let mut world = world_of(0);
    let reg = world.registry();
    let mut p = PipelineBuilder::<u64>::new().then(|x: u64| x, reg).dedup();
    let out: Vec<Option<u64>> = [1, 1, 2, 2, 1].into_iter().map(|x| p.run(&mut world, x)).collect();
    assert_eq!(out, vec![Some(1), None, Some(2), None, Some(1)]);
}

#[test]
fn an_arm_that_stops_does_not_stop_its_siblings() {
    let mut world = world_of(0);
    let reg = world.registry();
    let mut dag = DagBuilder::<u64>::new()
        .root(|x: u64| x, reg)
        .fork()
        .arm(|a| a.then(|x: &u64| if *x > 5 { Some(*x) } else { None }, reg).map(|x: &u64| *x + 1, reg))
        .arm(|a| a.then(|x: &u64| *x * 10, reg))
        .merge(|l: &Option<u64>, r: &u64| l.unwrap_or(0) + *r, reg)
        .then(|n: &mut u64, x: &u64| *n = *x, reg)
        .build();
    dag.run(&mut world, 2);
    assert_eq!(*world.resource::<u64, _>(), 20);
    dag.run(&mut world, 6);
    assert_eq!(*world.resource::<u64, _>(), 67);
}

#[test]
fn a_batch_is_its_items_in_order() {
    let mut world: World<With<Vec<u64>, ()>> = WorldBuilder::new().register(Vec::<u64>::new()).build();
    let reg = world.registry();
    let push = |out: &mut Vec<u64>, x: u64| out.push(x);
    let mut batch = PipelineBuilder::<u64>::new()
        .then(|x: u64| if x % 2 == 1 { Some(x) } else { None }, reg)
        .map(push, reg)
        .build_batch(2);
    batch.run(&mut world);
    assert!(world.resource::<Vec<u64>, _>().is_empty());
    batch.input_mut().extend_from_slice(&[5, 4, 3, 1]);
    assert_eq!(batch.input(), &[5, 4, 3, 1]);
    batch.run(&mut world);
    assert!(batch.input().is_empty());
    batch.input_mut().push(7);
    batch.run(&mut world);
    assert_eq!(*world.resource::<Vec<u64>, _>(), vec![5, 3, 1, 7]);
}

#[test]
fn context_guard_and_inspection() {
    let mut world = world_of(0);
    let reg = world.registry();
    let mut p = CtxPipelineBuilder::<u64, u64>::new()
        .then(|_: &mut u64, x: u64| x, reg)
        .tap(|c: &mut u64, x: &u64| *c += *x, reg)
        .guard(|_: &mut u64, x: &u64| *x > 3, reg)
        .on_none(|c: &mut u64| *c += 1000, reg);
    let mut ctx = 0;
    assert_eq!(p.run(&mut ctx, &mut world, 4), Some(4));
    assert_eq!(p.run(&mut ctx, &mut world, 3), None);
    assert_eq!(ctx, 4 + 3 + 1000);
}

#[test]
fn a_stage_behind_one_that_does_not_fire_is_skipped() {
    fn quiet(n: &mut u64) -> bool {
        *n += 1;
        false
    }
    fn loud(n: &mut u64) -> bool {
        *n += 10;
        true
    }
    fn last(n: &mut u64) {
        *n += 100;
    }
    let mut builder = WorldBuilder::new().register(0u64);
    let reg = builder.registry();
    let mut stops = builder.install_driver(SchedulerBuilder::new().root((quiet, quiet), reg).then(loud, reg).then(last, reg));
    let reg = builder.registry();
    let mut goes = builder.install_driver(SchedulerBuilder::new().root((quiet, loud), reg).then(last, reg));
    let mut world = builder.build();
    assert_eq!(stops.len::<With<u64, ()>>(), 4);
    assert!(!stops.is_empty::<With<u64, ()>>());
    assert_eq!(stops.run(&mut world), 2);
    assert_eq!(*world.resource::<u64, _>(), 2);
    assert_eq!(goes.run(&mut world), 3);
    assert_eq!(*world.resource::<u64, _>(), 113);
    assert_eq!(world.current_sequence(), 0);
}

#[test]
fn a_run_counts_the_first_stage_at_least_and_all_stages_at_most() {
    fn below(n: &mut u64) -> bool {
        *n += 1;
        *n < 6
    }
    fn idle() -> bool {
        false
    }
    let mut builder = WorldBuilder::new().register(0u64);
    let reg = builder.registry();
    let mut scheduler = builder.install_driver(
        SchedulerBuilder::new().root((below, idle), reg).then(below, reg).then((below, idle, idle), reg).then(idle, reg),
    );
    let mut world = builder.build();
    assert_eq!(scheduler.len::<With<u64, ()>>(), 2 + 1 + 3 + 1);
    assert_eq!(scheduler.run(&mut world), 7);
    assert_eq!(*world.resource::<u64, _>(), 3);
    // The third stage does not fire any more, then the first.
    assert_eq!(scheduler.run(&mut world), 6);
    assert_eq!(*world.resource::<u64, _>(), 6);
    assert_eq!(scheduler.run(&mut world), 2);
    assert_eq!(*world.resource::<u64, _>(), 7);
    assert_eq!(scheduler.len::<With<u64, ()>>(), 7);
}

type Live = With<DeferredRemovals, With<ReactorNotify<Add>, With<u64, ()>>>;

/// Adds a number to the world's, and may ask to be removed.
struct Add {
    by: u64,
    once: Option<Token>,
}

impl Reactor<Live> for Add {
    fn run_pre(&self, _world: World<Live>) -> bool {
        true
    }

    fn run_post(&self, _world: World<Live>, _after: &Self, _world_after: World<Live>) -> bool {
        true
    }

    fn run(&mut self, world: &mut World<Live>) {
        *world.resource_mut::<u64, _>() += self.by;
        if let Some(token) = self.once {
            world.resource_mut::<DeferredRemovals, _>().deregister(token);
        }
    }
}

fn live() -> World<Live> {
    WorldBuilder::new().register(0u64).register(ReactorNotify::new(2, 2)).register(DeferredRemovals::default()).build()
}

#[test]
fn an_idle_dispatch_changes_nothing() {
    let mut world = live();
    let mut system = ReactorSystem::new(&world);
    let notify = world.resource_mut::<ReactorNotify<Add>, _>();
    let source = notify.register_source();
    notify.register_built(Add { by: 1, once: None }).subscribe(source);
    assert!(!system.dispatch(&mut world));
    assert_eq!(*world.resource::<u64, _>(), 0);
    assert_eq!(system.reactor_count(&world), 1);
    assert_eq!(world.resource::<ReactorNotify<Add>, _>().source_count(), 1);
    assert!(world.resource::<DeferredRemovals, _>().is_empty());
}

#[test]
fn a_dispatch_of_a_removed_reactor_runs_nothing() {
    let mut world = live();
    let mut system = ReactorSystem::new(&world);
    let notify = world.resource_mut::<ReactorNotify<Add>, _>();
    let source = notify.register_source();
    let token = notify.register_built(Add { by: 1, once: None }).subscribe(source).token();
    notify.mark(source);
    notify.remove_reactor(token);
    assert_eq!(notify.notified_count(), 1);
    assert!(!system.dispatch(&mut world));
    assert_eq!(*world.resource::<u64, _>(), 0);
    assert!(!world.resource::<ReactorNotify<Add>, _>().has_notified());
}

#[test]
fn a_dispatch_of_a_slot_never_filled_runs_nothing() {
    let mut world = live();
    let mut system = ReactorSystem::new(&world);
    let notify = world.resource_mut::<ReactorNotify<Add>, _>();
    let source = notify.register_source();
    let token = notify.create_reactor();
    notify.subscribe(token, source);
    notify.mark(source);
    assert!(notify.has_notified());
    assert!(!system.dispatch(&mut world));
    assert_eq!(*world.resource::<u64, _>(), 0);

    // One reactor that runs is enough.
    let notify = world.resource_mut::<ReactorNotify<Add>, _>();
    notify.register_built(Add { by: 5, once: None }).subscribe(source);
    notify.mark(source);
    assert_eq!(notify.notified_count(), 2);
    assert!(system.dispatch(&mut world));
    assert_eq!(*world.resource::<u64, _>(), 5);
}

#[test]
fn removals_wait_for_the_end_of_the_frame() {
    let mut world = live();
    let mut system = ReactorSystem::new(&world);
    let notify = world.resource_mut::<ReactorNotify<Add>, _>();
    let source = notify.register_source();
    let first = notify.create_reactor();
    let second = notify.create_reactor();
    // The first reactor asks for the removal of the second, which has its turn all the same.
    notify.insert_reactor(first, Add { by: 1, once: Some(second) }).subscribe(source);
    notify.insert_reactor(second, Add { by: 10, once: None }).subscribe(source);
    notify.mark(source);
    assert_eq!(notify.notified_count(), 2);
    assert!(system.dispatch(&mut world));
    assert_eq!(*world.resource::<u64, _>(), 11);
    assert_eq!(system.reactor_count(&world), 1);
    assert!(world.resource::<DeferredRemovals, _>().is_empty());
    world.resource_mut::<ReactorNotify<Add>, _>().mark(source);
    assert!(system.dispatch(&mut world));
    assert_eq!(*world.resource::<u64, _>(), 12);
}

#[test]
fn subscriptions_come_and_go() {
    let mut notify = ReactorNotify::<Add>::new(2, 2);
    let (a, b) = (notify.register_source(), notify.register_source());
    let token = notify.register_built(Add { by: 1, once: None }).token();
    notify.subscribe(token, a);
    notify.subscribe(token, a);
    notify.subscribe(token, b);
    notify.unsubscribe(token, a);
    notify.mark(a);
    assert!(!notify.has_notified());
    notify.mark(b);
    notify.mark(b);
    assert_eq!(notify.notified_count(), 1);
    let mut events = Events::with_capacity(1);
    notify.poll(&mut events);
    notify.remove_source(b);
    notify.mark(b);
    notify.subscribe(token, b);
    assert!(!notify.has_notified());
    assert_eq!(notify.source_count(), 1);
    assert_eq!(notify.register_source(), b);
    notify.mark(b);
    assert!(!notify.has_notified());
    notify.subscribe(token, b);
    notify.remove_reactor(token);
    notify.remove_reactor(token);
    notify.mark(b);
    assert!(!notify.has_notified());
    assert_eq!(notify.reactor_count(), 0);
    assert_eq!(notify.create_reactor(), token);
}

#[test]
fn keys_of_different_types_do_not_meet() {
    let mut sources = SourceRegistry::new().with_keys::<u64>().with_keys::<u32>();
    let mut notify = ReactorNotify::<Add>::new(2, 2);
    let (a, b) = (notify.register_source(), notify.register_source());
    sources.insert(1u64, a);
    sources.insert(1u32, b);
    assert_eq!(sources.get(&1u64), Some(a));
    assert_eq!(sources.get(&1u32), Some(b));
    assert_eq!(sources.remove(&1u64), Some(a));
    assert!(!sources.contains(&1u64));
    assert!(sources.contains(&1u32));
    assert_eq!(sources.get(&2u32), None);
}

#[test]
fn finished_pipelines_are_handlers() {
    let mut world = world_of(0);
    let reg = world.registry();
    let mut handlers: Vec<Box<dyn Handler<With<u64, ()>, u64>>> = vec![
        Box::new(PipelineBuilder::<u64>::new().then(|n: &mut u64, x: u64| *n += x, reg).build()),
        Box::new(DagBuilder::<u64>::new().root(|x: u64| x * 10, reg).then(|n: &mut u64, x: &u64| *n += *x, reg).build()),
    ];
    for handler in &mut handlers {
        handler.run(&mut world, 3);
    }
    assert_eq!(*world.resource::<u64, _>(), 33);
    assert_eq!(handlers[0].name(), "<unnamed>");
    assert_eq!(handlers[1].name(), "dag::Dag");
}
