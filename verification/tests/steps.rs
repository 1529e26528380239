#![allow(unused_variables, unused_mut)]
use nexus_rt::ctx_dag::CtxDagBuilder;
use nexus_rt::ctx_pipeline::{resolve_ctx_step, CtxPipelineBuilder};
use nexus_rt::ctx_step::CtxStepCall;
use nexus_rt::dag::DagBuilder;
use nexus_rt::handler::{no_event, Handler, IntoHandler};
use nexus_rt::pipeline::{
    resolve_producer, resolve_ref_scan_step, resolve_ref_step, resolve_scan_step, resolve_step, PipelineBuilder,
};
use nexus_rt::step::{ProducerCall, RefScanStepCall, RefStepCall, ScanStepCall, StepCall};
use nexus_rt::world::{With, World, WorldBuilder};

type Two = With<u32, With<u64, ()>>;

fn two() -> World<Two> {
    WorldBuilder::new().register(10u64).register(3u32).build()
}

#[test]
fn world_finds_resources_by_type() {
    let mut world = two();
    assert_eq!(*world.resource::<u64, _>(), 10);
    assert_eq!(*world.resource::<u32, _>(), 3);
    *world.resource_mut::<u64, _>() = 11;
    assert_eq!(*world.resource::<u64, _>(), 11);
    assert_eq!(*world.resource::<u32, _>(), 3);
    {
        let (a, b): (&mut u32, &mut u64) = world.both_mut();
        *a += 1;
        *b += 1;
    }
    {
        let (a, b): (&u64, &mut u32) = world.beside_mut();
        *b += *a as u32;
    }
    assert_eq!(*world.resource::<u64, _>(), 12);
    assert_eq!(*world.resource::<u32, _>(), 16);
    assert_eq!(world.current_sequence(), 0);
}

#[test]
fn step_with_two_resources_of_each_kind() {
    fn rr(a: &u64, b: &u32, x: u64) -> u64 {
        *a + *b as u64 + x
    }
    fn rm(a: &u64, b: &mut u32, x: u64) -> u64 {
        *b += 1;
        *a + x
    }
    fn mr(a: &mut u64, b: &u32, x: u64) -> u64 {
        *a += *b as u64;
        x
    }
    fn mm(a: &mut u64, b: &mut u32, x: u64) -> u64 {
        *a += x;
        *b += 2;
        x + 1
    }
    let mut world = two();
    let reg = world.registry();
    let mut p = PipelineBuilder::<u64>::new().then(rr, reg).then(rm, reg).then(mr, reg).then(mm, reg);
    // 10 + 3 + 1 = 14, then 24, then 24, then 25
    assert_eq!(p.run(&mut world, 1), 25);
    assert_eq!(*world.resource::<u64, _>(), 10 + 4 + 24);
    assert_eq!(*world.resource::<u32, _>(), 3 + 1 + 2);
}

#[test]
fn ref_steps_and_producers_with_resources() {
    fn above(a: &u64, b: &u32, x: &u64) -> bool {
        *x > *a + *b as u64
    }
    fn count(a: &mut u64, b: &mut u32) {
        *a += 1;
        *b += 1;
    }
    let mut world = two();
    let reg = world.registry();
    let mut p = PipelineBuilder::<u64>::new().then(|x: u64| x, reg).guard(above, reg).on_none(count, reg);
    assert_eq!(p.run(&mut world, 14), Some(14));
    assert_eq!(p.run(&mut world, 13), None);
    assert_eq!(*world.resource::<u64, _>(), 11);
    assert_eq!(*world.resource::<u32, _>(), 4);
}

#[test]
fn scan_with_resources() {
    fn sum(a: &u64, acc: &mut u64, x: u64) -> u64 {
        *acc += *a + x;
        *acc
    }
    fn sum_both(a: &u64, b: &mut u32, acc: &mut u64, x: u64) -> u64 {
        *b += 1;
        *acc += *a * x;
        *acc
    }
    let mut world = two();
    let reg = world.registry();
    let mut p = PipelineBuilder::<u64>::new().scan(0u64, sum, reg).scan(100u64, sum_both, reg);
    assert_eq!(p.run(&mut world, 1), 100 + 10 * 11);
    assert_eq!(p.run(&mut world, 2), 210 + 10 * 23);
    assert_eq!(*world.resource::<u32, _>(), 5);
}

#[test]
fn graph_scan_and_merge_with_resources() {
    fn track(a: &mut u64, acc: &mut u64, x: &u64) -> u64 {
        *a += 1;
        *acc += *x;
        *acc
    }
    fn merge(a: &u64, b: &mut u32, l: &u64, r: &u64) -> u64 {
        *b += 1;
        *a + *l + *r
    }
    let mut world = two();
    let reg = world.registry();
    let mut dag = DagBuilder::<u64>::new()
        .root(|x: u64| x, reg)
        .scan(0u64, track, reg)
        .fork()
        .arm(|a| a.then(|x: &u64| *x * 2, reg))
        .arm(|a| a.then(|x: &u64| *x * 3, reg))
        .merge(merge, reg)
        .then(|a: &mut u64, x: &u64| *a += *x, reg)
        .build();
    dag.run(&mut world, 4);
    // a = 11, then 11 + 8 + 12 = 31 is added
    assert_eq!(*world.resource::<u64, _>(), 42);
    assert_eq!(*world.resource::<u32, _>(), 4);
    dag.run(&mut world, 1);
    // a = 43, acc = 5, then 43 + 10 + 15 = 68 is added
    assert_eq!(*world.resource::<u64, _>(), 111);
    assert_eq!(Handler::<Two, u64>::name(&dag), "dag::Dag");
}

#[test]
fn splat_with_two_resources() {
    fn weigh(a: &u64, b: &u32, x: u64, y: u64, z: u64) -> u64 {
        *a * x + *b as u64 * y + z
    }
    let mut world = two();
    let reg = world.registry();
    let mut p = PipelineBuilder::<(u64, u64, u64)>::new().splat().then(weigh, reg);
    assert_eq!(p.run(&mut world, (2, 5, 7)), 20 + 15 + 7);
}

#[test]
fn context_steps_with_two_resources() {
    struct Ctx {
        calls: u64,
    }
    fn step(ctx: &mut Ctx, a: &u64, b: &mut u32, x: u64) -> u64 {
        ctx.calls += 1;
        *b += 1;
        *a + x
    }
    fn merge(ctx: &mut Ctx, a: &mut u64, b: &u32, l: &u64, r: &u64) {
        ctx.calls += 10;
        *a = *l + *r + *b as u64;
    }
    let mut world = two();
    let reg = world.registry();
    let mut dag = CtxDagBuilder::<Ctx, u64>::new()
        .root(step, reg)
        .fork()
        .arm(|a| a.then(|_: &mut Ctx, x: &u64| *x, reg))
        .arm(|a| a.then(|_: &mut Ctx, x: &u64| *x + 1, reg))
        .merge(merge, reg)
        .build();
    let mut ctx = Ctx { calls: 0 };
    dag.run(&mut ctx, &mut world, 5);
    assert_eq!(ctx.calls, 11);
    assert_eq!(*world.resource::<u64, _>(), 15 + 16 + 4);
}

#[test]
fn resolved_steps_are_called_outside_pipelines() {
    let mut world = two();
    let reg = world.registry();
    let mut step = resolve_step::<_, u64, u64, _, _>(|x: u64| x + 1, reg);
    let mut seen = resolve_ref_step::<_, u64, bool, _, _>(|x: &u64| *x == 2, reg);
    let mut made = resolve_producer::<_, u64, _, _>(|w: &mut World<Two>| *w.resource::<u64, _>(), reg);
    let mut scan = resolve_scan_step::<_, u64, u64, u64, _, _>(
        |acc: &mut u64, x: u64| {
            *acc += x;
            *acc
        },
        reg,
    );
    let mut ref_scan = resolve_ref_scan_step::<_, u64, u64, u64, _, _>(
        |acc: &mut u64, x: &u64| {
            *acc *= *x;
            *acc
        },
        reg,
    );
    let mut ctx_step = resolve_ctx_step::<_, u64, u64, u64, _, _>(
        |ctx: &mut u64, x: u64| {
            *ctx += 1;
            x + *ctx
        },
        reg,
    );
    assert_eq!(StepCall::call(&mut step, &mut world, 1), 2);
    assert!(RefStepCall::call(&mut seen, &mut world, &2));
    assert!(!RefStepCall::call(&mut seen, &mut world, &3));
    assert_eq!(ProducerCall::call(&mut made, &mut world), 10);
    let mut acc = 5;
    assert_eq!(ScanStepCall::call(&mut scan, &mut world, &mut acc, 2), 7);
    assert_eq!(RefScanStepCall::call(&mut ref_scan, &mut world, &mut acc, &3), 21);
    assert_eq!(acc, 21);
    let mut ctx = 0;
    assert_eq!(ctx_step.call(&mut ctx, &mut world, 4), 5);
    assert_eq!(ctx, 1);
}

#[test]
fn functions_as_handlers() {
    fn store(out: &mut u64, event: u32) {
        *out = event as u64;
    }
    fn reset(out: &mut u64) {
        *out = 0;
    }
    let mut world = two();
    let mut handler = store.into_handler(world.registry());
    let mut clear = no_event(reset).into_handler(world.registry());
    handler.run(&mut world, 77u32);
    assert_eq!(*world.resource::<u64, _>(), 77);
    assert_eq!(Handler::<Two, u32>::name(&handler), "<unnamed>");
    clear.run(&mut world, ());
    assert_eq!(*world.resource::<u64, _>(), 0);
}

#[test]
fn context_pipeline_without_input() {
    struct Ctx {
        left: u32,
    }
    fn tick(ctx: &mut Ctx, out: &mut u64) -> Option<u32> {
        *out += 1;
        ctx.left = ctx.left.checked_sub(1)?;
        Some(ctx.left)
    }
    let mut world = two();
    let reg = world.registry();
    let mut p = CtxPipelineBuilder::<Ctx, ()>::new().then(no_event(tick), reg).unwrap_or(99);
    let mut ctx = Ctx { left: 1 };
    assert_eq!(p.run(&mut ctx, &mut world, ()), 0);
    assert_eq!(p.run(&mut ctx, &mut world, ()), 99);
    assert_eq!(*world.resource::<u64, _>(), 12);
}
