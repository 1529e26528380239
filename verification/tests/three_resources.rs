use nexus_rt::ctx_dag::CtxDagBuilder;
use nexus_rt::ctx_pipeline::CtxPipelineBuilder;
use nexus_rt::ctx_step::CtxStep;
use nexus_rt::dag::DagBuilder;
use nexus_rt::handler::{no_event, Handler};
use nexus_rt::notify::Token;
use nexus_rt::pipeline::PipelineBuilder;
use nexus_rt::reactor::{DeferredRemovals, OneOf, Reactor, ReactorFn, ReactorNotify, ReactorSystem};
use nexus_rt::reactor_model::DataSource;
use nexus_rt::scheduler::SchedulerBuilder;
use nexus_rt::world::{Here, Registry, Res, ResMut, There, With, World, WorldBuilder};
use std::marker::PhantomData;

type Three = With<u16, With<u32, With<u64, ()>>>;

fn three() -> World<Three> {
    WorldBuilder::new().register(10u64).register(3u32).register(1u16).build()
}

fn held(world: &World<Three>) -> (u64, u32, u16) {
    (*world.resource::<u64, _>(), *world.resource::<u32, _>(), *world.resource::<u16, _>())
}

#[test]
fn world_hands_out_three_resources() {
    let mut world = three();
    {
        let (a, b, c): (&mut u32, &mut u16, &mut u64) = world.three_mut();
        *a += 1;
        *b += 2;
        *c += 3;
    }
    assert_eq!(held(&world), (13, 4, 3));
    {
        let (a, b, c): (&u64, &mut u32, &mut u16) = world.beside_both_mut();
        *b += *a as u32;
        *c += 1;
    }
    assert_eq!(held(&world), (13, 17, 4));
    {
        let (a, b, c): (&u16, &u32, &mut u64) = world.beside_two_mut();
        *c = *a as u64 + *b as u64;
    }
    assert_eq!(held(&world), (21, 17, 4));
}

#[test]
fn step_with_three_resources_of_each_kind() {
    fn rrr(a: &u64, b: &u32, c: &u16, x: u64) -> u64 {
        *a + *b as u64 + *c as u64 + x
    }
    fn rrm(a: &u64, b: &u32, c: &mut u16, x: u64) -> u64 {
        *c += 1;
        *a + *b as u64 + x
    }
    fn rmr(a: &u64, b: &mut u32, c: &u16, x: u64) -> u64 {
        *b += *c as u32;
        *a + x
    }
    fn rmm(a: &u64, b: &mut u32, c: &mut u16, x: u64) -> u64 {
        *b += 1;
        *c += 10;
        *a + x
    }
    fn mrr(a: &mut u64, b: &u32, c: &u16, x: u64) -> u64 {
        *a += *b as u64 + *c as u64;
        x
    }
    fn mrm(a: &mut u64, b: &u32, c: &mut u16, x: u64) -> u64 {
        *a += 1;
        *c += *b as u16;
        x
    }
    fn mmr(a: &mut u64, b: &mut u32, c: &u16, x: u64) -> u64 {
        *a += *c as u64;
        *b += 1;
        x
    }
    fn mmm(a: &mut u64, b: &mut u32, c: &mut u16, x: u64) -> u64 {
        *a += 1;
        *b += 1;
        *c += 1;
        x + 1
    }
    let mut world = three();
    let reg = world.registry();
    let mut p = PipelineBuilder::<u64>::new().then(rrr, reg).then(rrm, reg).then(rmr, reg).then(rmm, reg);
    // 10 + 3 + 1 + 1 = 15, then 28, then 38, then 48
    assert_eq!(p.run(&mut world, 1), 48);
    assert_eq!(held(&world), (10, 3 + 2 + 1, 1 + 1 + 10));
    let reg = world.registry();
    let mut q = PipelineBuilder::<u64>::new().then(mrr, reg).then(mrm, reg).then(mmr, reg).then(mmm, reg);
    assert_eq!(q.run(&mut world, 1), 2);
    // 10 + 18 = 28, then 29, then 47, then 48
    assert_eq!(held(&world), (48, 8, 19));
}

#[test]
fn other_steps_with_three_resources() {
    fn keep(a: &u64, b: &mut u32, c: &mut u16, x: &u64) -> bool {
        *b += 1;
        *c += 1;
        *x > *a
    }
    fn missing(a: &mut u64, b: &u32, c: &u16) -> u64 {
        *a += 100;
        *b as u64 + *c as u64
    }
    fn sum(a: &u64, b: &mut u32, c: &u16, acc: &mut u64, x: u64) -> u64 {
        *acc += x + *a;
        *b += *c as u32;
        *acc
    }
    fn weigh(a: &u64, b: &u32, c: &mut u16, x: u64, y: u64) -> u64 {
        *c += 1;
        *a * x + *b as u64 * y
    }
    let mut world = three();
    let reg = world.registry();
    let mut p = PipelineBuilder::<u64>::new()
        .then(|x: u64| x, reg)
        .guard(keep, reg)
        .unwrap_or_else(missing, reg);
    assert_eq!(p.run(&mut world, 11), 11);
    assert_eq!(held(&world), (10, 4, 2));
    assert_eq!(p.run(&mut world, 10), 5 + 3);
    assert_eq!(held(&world), (110, 5, 3));

    let mut world = three();
    let reg = world.registry();
    let mut p = PipelineBuilder::<u64>::new().scan(0u64, sum, reg);
    assert_eq!(p.run(&mut world, 1), 11);
    assert_eq!(p.run(&mut world, 2), 23);
    assert_eq!(held(&world), (10, 5, 1));

    let reg = world.registry();
    let mut p = PipelineBuilder::<(u64, u64)>::new().splat().then(weigh, reg);
    assert_eq!(p.run(&mut world, (2, 3)), 20 + 15);
    assert_eq!(held(&world), (10, 5, 2));

    fn tick(a: &mut u64, b: &u32, c: &u16) -> u64 {
        *a += *b as u64 + *c as u64;
        *a
    }
    let reg = world.registry();
    let mut p = PipelineBuilder::<()>::new().then(no_event(tick), reg);
    assert_eq!(p.run(&mut world, ()), 17);
    assert_eq!(held(&world), (17, 5, 2));
}

#[test]
fn merges_with_three_resources() {
    fn merge(a: &mut u64, b: &u32, c: &mut u16, l: &u64, r: &u64) {
        *a = *l * 100 + *r + *b as u64;
        *c += 1;
    }
    let mut world = three();
    let reg = world.registry();
    let mut dag = DagBuilder::<u64>::new()
        .root(|x: u64| x, reg)
        .fork()
        .arm(|a| a.then(|x: &u64| *x + 1, reg))
        .arm(|a| a.then(|x: &u64| *x + 2, reg))
        .merge(merge, reg)
        .build();
    dag.run(&mut world, 4);
    assert_eq!(held(&world), (509, 3, 2));

    fn ctx_merge(n: &mut u64, a: &mut u64, b: &mut u32, c: &u16, l: &u64, r: &u64) {
        *n += 1;
        *a = *l + *r;
        *b += *c as u32;
    }
    fn ctx_step(n: &mut u64, a: &u64, b: &u32, c: &mut u16, x: u64) -> u64 {
        *n += 10;
        *c += 1;
        *a + *b as u64 + x
    }
    let mut world = three();
    let reg = world.registry();
    let mut dag = CtxDagBuilder::<u64, u64>::new()
        .root(ctx_step, reg)
        .fork()
        .arm(|a| a.then(|_: &mut u64, x: &u64| *x, reg))
        .arm(|a| a.then(|_: &mut u64, x: &u64| *x + 1, reg))
        .merge(ctx_merge, reg)
        .build();
    let mut n = 0;
    dag.run(&mut n, &mut world, 7);
    assert_eq!(n, 11);
    assert_eq!(held(&world), (20 + 21, 5, 2));

    fn shown(n: &mut u64, a: &u64, b: &mut u32, c: &mut u16, x: &u64) -> bool {
        *n += 1;
        *b += 1;
        *c += 1;
        *x < *a
    }
    let mut world = three();
    let reg = world.registry();
    let mut p = CtxPipelineBuilder::<u64, u64>::new()
        .then(|_: &mut u64, x: u64| x, reg)
        .guard(shown, reg);
    assert_eq!(p.run(&mut n, &mut world, 9), Some(9));
    assert_eq!(p.run(&mut n, &mut world, 10), None);
    assert_eq!(n, 13);
    assert_eq!(held(&world), (10, 5, 3));
}

#[test]
fn systems_with_three_resources() {
    fn settle(a: &mut u64, b: &mut u32, c: &mut u16) -> bool {
        *a += 1;
        *b += 1;
        *c += 1;
        *c < 3
    }
    fn follow(a: &mut u64, b: &u32, c: &u16) {
        *a += 100 * (*b as u64 + *c as u64);
    }
    let mut builder = WorldBuilder::new().register(10u64).register(3u32).register(1u16);
    let schedule = SchedulerBuilder::new().root(settle, builder.registry()).then(follow, builder.registry());
    let mut scheduler = builder.install_driver(schedule);
    let mut world = builder.build();
    assert_eq!(scheduler.run(&mut world), 2);
    assert_eq!(held(&world), (11 + 600, 4, 2));
    assert_eq!(scheduler.run(&mut world), 1);
    assert_eq!(held(&world), (612, 5, 3));
}

/// The prices that an order is placed at.
struct Books {
    best_ask: u64,
}

/// The orders submitted: quantity and price.
struct Gateway {
    orders: Vec<(u64, u64)>,
}

struct Twap {
    token: Token,
    remaining: u64,
    slice: u64,
}

fn twap_step(ctx: &mut Twap, books: &Books, gateway: &mut Gateway, removals: &mut DeferredRemovals) {
    gateway.orders.push((ctx.slice, books.best_ask));
    ctx.remaining -= ctx.slice;
    if ctx.remaining == 0 {
        removals.deregister(ctx.token);
    }
}

fn log_step(ctx: &mut u64, gateway: &mut Gateway) {
    *ctx += 1;
    gateway.orders.push((0, *ctx));
}

type TwapStep = CtxStep<
    fn(&mut Twap, &Books, &mut Gateway, &mut DeferredRemovals),
    (Res<Books, There<There<There<Here>>>>, ResMut<Gateway, There<There<Here>>>, ResMut<DeferredRemovals, Here>),
    (),
>;
type LogStep = CtxStep<fn(&mut u64, &mut Gateway), ResMut<Gateway, There<There<Here>>>, ()>;

/// Reactors of two functions.
type Mixed = OneOf<ReactorFn<Twap, TwapStep>, ReactorFn<u64, LogStep>>;
type Desk = With<DeferredRemovals, With<ReactorNotify<Mixed>, With<Gateway, With<Books, ()>>>>;

#[test]
fn reactors_of_several_functions_share_a_world() {
    let mut world: World<Desk> = WorldBuilder::new()
        .register(Books { best_ask: 70 })
        .register(Gateway { orders: Vec::new() })
        .register(ReactorNotify::new(2, 2))
        .register(DeferredRemovals::default())
        .build();
    let registry: Registry<Desk> = Registry { marker: PhantomData };
    let mut system = ReactorSystem::new::<_, Mixed, _, _>(&world);
    let notify = world.resource_mut::<ReactorNotify<Mixed>, _>();
    let tick: DataSource = notify.register_source();
    notify
        .register(
            |token| Twap { token, remaining: 20, slice: 10 },
            twap_step as fn(&mut Twap, &Books, &mut Gateway, &mut DeferredRemovals),
            &registry,
        )
        .subscribe(tick);
    notify.register(|_| 5u64, log_step as fn(&mut u64, &mut Gateway), &registry).subscribe(tick);
    for expected in [2, 1, 1] {
        world.resource_mut::<ReactorNotify<Mixed>, _>().mark(tick);
        assert!(system.dispatch::<_, Mixed, _, _>(&mut world));
        assert_eq!(system.reactor_count::<_, Mixed, _>(&world), expected);
    }
    assert_eq!(
        world.resource::<Gateway, _>().orders,
        vec![(10, 70), (0, 6), (10, 70), (0, 7), (0, 8)]
    );
}

#[test]
fn one_of_runs_the_reactor_it_holds() {
    fn add(ctx: &mut u64, n: &mut u64) {
        *n += *ctx;
        *ctx += 1;
    }
    type Adds = ReactorFn<u64, CtxStep<fn(&mut u64, &mut u64), ResMut<u64, Here>, ()>>;
    type Own = OneOf<ReactorFn<u8, CtxStep<fn(&mut u8), (), ()>>, Adds>;

    let mut world: World<With<u64, ()>> = WorldBuilder::new().register(1u64).build();
    let mut first: Own = OneOf::First(ReactorFn {
        ctx: 3,
        step: CtxStep { f: (|c: &mut u8| *c *= 2) as fn(&mut u8), params: PhantomData },
        name: "doubles",
    });
    let mut second: Own =
        OneOf::Second(ReactorFn { ctx: 5, step: CtxStep { f: add, params: PhantomData }, name: "adds" });
    assert_eq!(Reactor::<With<u64, ()>>::name(&first), "doubles");
    assert_eq!(Reactor::<With<u64, ()>>::name(&second), "adds");
    first.run(&mut world);
    assert_eq!(*world.resource::<u64, _>(), 1);
    second.run(&mut world);
    second.run(&mut world);
    assert_eq!(*world.resource::<u64, _>(), 1 + 5 + 6);
    assert!(matches!(first, OneOf::First(ReactorFn { ctx: 6, .. })));
    assert!(matches!(second, OneOf::Second(ReactorFn { ctx: 7, .. })));
}
