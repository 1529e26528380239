#![allow(dead_code, unused_variables, unused_mut)]
use nexus_rt::dag::{resolve_arm, DagArmSeed};
use nexus_rt::handler::{no_event, Handler};
use nexus_rt::pipeline::{resolve_step, PipelineBuilder};
use nexus_rt::step::StepCall;
use nexus_rt::world::{With, World, WorldBuilder};

/// Hands an event to two steps.
struct Both<A, B>(A, B);

impl<R, A, B> Handler<R, u32> for Both<A, B>
where
    A: for<'a> StepCall<R, &'a u32, Out = ()>,
    B: for<'a> StepCall<R, &'a u32, Out = ()>,
{
    fn run_pre(&self, _world: World<R>, _event: u32) -> bool {
        true
    }

    fn run_post(&self, _world: World<R>, _event: u32, _after: &Self, _world_after: World<R>) -> bool {
        true
    }

    fn handle(&mut self, world: &mut World<R>, event: u32) {
        self.0.call(world, &event);
        self.1.call(world, &event);
    }

    fn run(&mut self, world: &mut World<R>, event: u32) {
        self.handle(world, event)
    }
}

// Core dispatch

#[test]
fn step_pure_transform() {
    let mut world = WorldBuilder::new().build();
    let r = world.registry();
    let mut p = PipelineBuilder::<u32>::new().then(|x: u32| x as u64 * 2, r);
    assert_eq!(p.run(&mut world, 5), 10u64);
}

#[test]
fn step_one_res() {
    let wb = WorldBuilder::new();
    let mut wb = wb.register::<u64>(10);
    let mut world = wb.build();

    fn multiply(factor: &u64, x: u32) -> u64 {
        *factor * x as u64
    }

    let r = world.registry();
    let mut p = PipelineBuilder::<u32>::new().then(multiply, r);
    assert_eq!(p.run(&mut world, 5), 50);
}

#[test]
fn step_one_res_mut() {
    let wb = WorldBuilder::new();
    let mut wb = wb.register::<u64>(0);
    let mut world = wb.build();

    fn accumulate(total: &mut u64, x: u32) {
        *total += x as u64;
    }

    let r = world.registry();
    let mut p = PipelineBuilder::<u32>::new().then(accumulate, r);
    p.run(&mut world, 10);
    p.run(&mut world, 5);
    assert_eq!(*world.resource::<u64, _>(), 15);
}

#[test]
fn step_two_params() {
    let wb = WorldBuilder::new();
    let mut wb = wb.register::<u64>(10);
    let mut wb = wb.register::<bool>(true);
    let mut world = wb.build();

    fn conditional(factor: &u64, flag: &bool, x: u32) -> u64 {
        if *flag { *factor * x as u64 } else { 0 }
    }

    let r = world.registry();
    let mut p = PipelineBuilder::<u32>::new().then(conditional, r);
    assert_eq!(p.run(&mut world, 5), 50);
}

#[test]
fn step_chain_two() {
    let wb = WorldBuilder::new();
    let mut wb = wb.register::<u64>(2);
    let mut world = wb.build();

    fn double(factor: &u64, x: u32) -> u64 {
        *factor * x as u64
    }

    let r = world.registry();
    let mut p = PipelineBuilder::<u32>::new()
        .then(double, r)
        .then(|val: u64| val + 1, r);
    assert_eq!(p.run(&mut world, 5), 11); // 2*5 + 1
}
// Option combinators

#[test]
fn option_map_on_some() {
    let wb = WorldBuilder::new();
    let mut wb = wb.register::<u64>(10);
    let mut world = wb.build();

    fn add_factor(factor: &u64, x: u32) -> u64 {
        *factor + x as u64
    }

    let r = world.registry();
    let mut p = PipelineBuilder::<u32>::new()
        .then(|x: u32| -> Option<u32> { Some(x) }, r)
        .map(add_factor, r);
    assert_eq!(p.run(&mut world, 5), Some(15));
}

#[test]
fn option_map_skips_none() {
    let wb = WorldBuilder::new();
    let mut wb = wb.register::<bool>(false);
    let mut world = wb.build();

    fn mark(flag: &mut bool, _x: u32) -> u32 {
        *flag = true;
        0
    }

    let r = world.registry();
    let mut p = PipelineBuilder::<u32>::new()
        .then(|_x: u32| -> Option<u32> { None }, r)
        .map(mark, r);
    assert_eq!(p.run(&mut world, 5), None);
    assert!(!*world.resource::<bool, _>());
}

#[test]
fn option_and_then_chains() {
    let wb = WorldBuilder::new();
    let mut wb = wb.register::<u64>(10);
    let mut world = wb.build();

    fn check(min: &u64, x: u32) -> Option<u64> {
        let val = x as u64;
        if val > *min { Some(val) } else { None }
    }

    let r = world.registry();
    let mut p = PipelineBuilder::<u32>::new()
        .then(|x: u32| Some(x), r)
        .and_then(check, r);
    assert_eq!(p.run(&mut world, 20), Some(20));
}

#[test]
fn option_and_then_short_circuits() {
    let wb = WorldBuilder::new();
    let mut wb = wb.register::<u64>(10);
    let mut world = wb.build();

    fn check(min: &u64, x: u32) -> Option<u64> {
        let val = x as u64;
        if val > *min { Some(val) } else { None }
    }

    let r = world.registry();
    let mut p = PipelineBuilder::<u32>::new()
        .then(|x: u32| Some(x), r)
        .and_then(check, r);
    assert_eq!(p.run(&mut world, 5), None);
}

#[test]
fn option_on_none_fires() {
    let wb = WorldBuilder::new();
    let mut wb = wb.register::<bool>(false);
    let mut world = wb.build();

    let r = world.registry();
    let mut p = PipelineBuilder::<u32>::new()
        .then(|_x: u32| -> Option<u32> { None }, r)
        .on_none(
            |w: &mut World<_>| {
                *w.resource_mut::<bool, _>() = true;
            },
            r,
        );
    p.run(&mut world, 0);
    assert!(*world.resource::<bool, _>());
}

#[test]
fn option_filter_keeps() {
    let mut world = WorldBuilder::new().build();
    let r = world.registry();
    let mut p = PipelineBuilder::<u32>::new()
        .then(|x: u32| Some(x), r)
        .filter(|x: &u32| *x > 3, r);
    assert_eq!(p.run(&mut world, 5), Some(5));
}

#[test]
fn option_filter_drops() {
    let mut world = WorldBuilder::new().build();
    let r = world.registry();
    let mut p = PipelineBuilder::<u32>::new()
        .then(|x: u32| Some(x), r)
        .filter(|x: &u32| *x > 10, r);
    assert_eq!(p.run(&mut world, 5), None);
}
// Result combinators

#[test]
fn result_map_on_ok() {
    let wb = WorldBuilder::new();
    let mut wb = wb.register::<u64>(10);
    let mut world = wb.build();

    fn add_factor(factor: &u64, x: u32) -> u64 {
        *factor + x as u64
    }

    let r = world.registry();
    let mut p = PipelineBuilder::<u32>::new()
        .then(|x: u32| -> Result<u32, String> { Ok(x) }, r)
        .map(add_factor, r);
    assert_eq!(p.run(&mut world, 5), Ok(15));
}

#[test]
fn result_map_skips_err() {
    let wb = WorldBuilder::new();
    let mut wb = wb.register::<bool>(false);
    let mut world = wb.build();

    fn mark(flag: &mut bool, _x: u32) -> u32 {
        *flag = true;
        0
    }

    let r = world.registry();
    let mut p = PipelineBuilder::<u32>::new()
        .then(|_x: u32| -> Result<u32, String> { Err("fail".into()) }, r)
        .map(mark, r);
    assert!(p.run(&mut world, 5).is_err());
    assert!(!*world.resource::<bool, _>());
}

#[test]
fn result_catch_handles_error() {
    let wb = WorldBuilder::new();
    let mut wb = wb.register::<String>(String::new());
    let mut world = wb.build();

    fn log_error(log: &mut String, err: String) {
        *log = err;
    }

    let r = world.registry();
    let mut p = PipelineBuilder::<u32>::new()
        .then(|_x: u32| -> Result<u32, String> { Err("caught".into()) }, r)
        .catch(log_error, r);
    assert_eq!(p.run(&mut world, 0), None);
    assert_eq!(world.resource::<String, _>().as_str(), "caught");
}

#[test]
fn result_catch_passes_ok() {
    let wb = WorldBuilder::new();
    let mut wb = wb.register::<String>(String::new());
    let mut world = wb.build();

    fn log_error(log: &mut String, err: String) {
        *log = err;
    }

    let r = world.registry();
    let mut p = PipelineBuilder::<u32>::new()
        .then(|x: u32| -> Result<u32, String> { Ok(x) }, r)
        .catch(log_error, r);
    assert_eq!(p.run(&mut world, 5), Some(5));
    assert!(world.resource::<String, _>().is_empty());
}
// Build + Handler

#[test]
fn build_produces_handler() {
    let wb = WorldBuilder::new();
    let mut wb = wb.register::<u64>(0);
    let mut world = wb.build();

    fn accumulate(total: &mut u64, x: u32) {
        *total += x as u64;
    }

    let r = world.registry();
    let mut pipeline = PipelineBuilder::<u32>::new().then(accumulate, r).build();

    pipeline.run(&mut world, 10);
    pipeline.run(&mut world, 5);
    assert_eq!(*world.resource::<u64, _>(), 15);
}

#[test]
fn run_returns_output() {
    let wb = WorldBuilder::new();
    let mut wb = wb.register::<u64>(3);
    let mut world = wb.build();

    fn multiply(factor: &u64, x: u32) -> u64 {
        *factor * x as u64
    }

    let r = world.registry();
    let mut p = PipelineBuilder::<u32>::new().then(multiply, r);
    let result: u64 = p.run(&mut world, 7);
    assert_eq!(result, 21);
}


// Integration

#[test]
fn local_in_step() {
    let wb = WorldBuilder::new();
    let mut wb = wb.register::<u64>(0);
    let mut world = wb.build();

    let mut count = 0u64;
    let count = move |w: &mut World<_>, _x: u32| {
        count += 1;
        *w.resource_mut::<u64, _>() = count;
    };

    let r = world.registry();
    let mut p = PipelineBuilder::<u32>::new().then(count, r);
    p.run(&mut world, 0);
    p.run(&mut world, 0);
    p.run(&mut world, 0);
    assert_eq!(*world.resource::<u64, _>(), 3);
}
// Option combinators (extended)

#[test]
fn option_unwrap_or_some() {
    let mut world = WorldBuilder::new().build();
    let r = world.registry();
    let mut p = PipelineBuilder::<u32>::new()
        .then(|x: u32| -> Option<u32> { Some(x) }, r)
        .unwrap_or(99);
    assert_eq!(p.run(&mut world, 5), 5);
}

#[test]
fn option_unwrap_or_none() {
    let mut world = WorldBuilder::new().build();
    let r = world.registry();
    let mut p = PipelineBuilder::<u32>::new()
        .then(|_x: u32| -> Option<u32> { None }, r)
        .unwrap_or(99);
    assert_eq!(p.run(&mut world, 5), 99);
}

#[test]
fn option_unwrap_or_else() {
    let mut world = WorldBuilder::new().build();
    let r = world.registry();
    let mut p = PipelineBuilder::<u32>::new()
        .then(|_x: u32| -> Option<u32> { None }, r)
        .unwrap_or_else(|| 42, r);
    assert_eq!(p.run(&mut world, 0), 42);
}

#[test]
fn option_ok_or() {
    let mut world = WorldBuilder::new().build();
    let r = world.registry();
    let mut p = PipelineBuilder::<u32>::new()
        .then(|_x: u32| -> Option<u32> { None }, r)
        .ok_or("missing");
    assert_eq!(p.run(&mut world, 0), Err("missing"));
}

#[test]
fn option_ok_or_some() {
    let mut world = WorldBuilder::new().build();
    let r = world.registry();
    let mut p = PipelineBuilder::<u32>::new()
        .then(|x: u32| -> Option<u32> { Some(x) }, r)
        .ok_or("missing");
    assert_eq!(p.run(&mut world, 7), Ok(7));
}

#[test]
fn option_ok_or_else() {
    let mut world = WorldBuilder::new().build();
    let r = world.registry();
    let mut p = PipelineBuilder::<u32>::new()
        .then(|_x: u32| -> Option<u32> { None }, r)
        .ok_or_else(|| "computed", r);
    assert_eq!(p.run(&mut world, 0), Err("computed"));
}

#[test]
fn option_inspect_passes_through() {
    let wb = WorldBuilder::new();
    let mut wb = wb.register::<u64>(0);
    let mut world = wb.build();
    let r = world.registry();
    let mut p = PipelineBuilder::<u32>::new()
        .then(|x: u32| -> Option<u32> { Some(x) }, r)
        .inspect(|_val: &u32| {}, r);
    // inspect should pass through the value unchanged.
    assert_eq!(p.run(&mut world, 10), Some(10));
}
// Result combinators (extended)

#[test]
fn result_map_err() {
    let mut world = WorldBuilder::new().build();
    let r = world.registry();
    let mut p = PipelineBuilder::<u32>::new()
        .then(|_x: u32| -> Result<u32, i32> { Err(-1) }, r)
        .map_err(|e: i32| e.to_string(), r);
    assert_eq!(p.run(&mut world, 0), Err("-1".to_string()));
}

#[test]
fn result_map_err_ok_passthrough() {
    let mut world = WorldBuilder::new().build();
    let r = world.registry();
    let mut p = PipelineBuilder::<u32>::new()
        .then(|x: u32| -> Result<u32, i32> { Ok(x) }, r)
        .map_err(|e: i32| e.to_string(), r);
    assert_eq!(p.run(&mut world, 5), Ok(5));
}

#[test]
fn result_or_else() {
    let mut world = WorldBuilder::new().build();
    let r = world.registry();
    let mut p = PipelineBuilder::<u32>::new()
        .then(|_x: u32| -> Result<u32, &str> { Err("fail") }, r)
        .or_else(|_e: &str| Ok::<u32, &str>(42), r);
    assert_eq!(p.run(&mut world, 0), Ok(42));
}

#[test]
fn result_inspect_passes_through() {
    let mut world = WorldBuilder::new().build();
    let r = world.registry();
    let mut p = PipelineBuilder::<u32>::new()
        .then(|x: u32| -> Result<u32, &str> { Ok(x) }, r)
        .inspect(|_val: &u32| {}, r);
    // inspect should pass through Ok unchanged.
    assert_eq!(p.run(&mut world, 7), Ok(7));
}

#[test]
fn result_inspect_err_passes_through() {
    let mut world = WorldBuilder::new().build();
    let r = world.registry();
    let mut p = PipelineBuilder::<u32>::new()
        .then(|_x: u32| -> Result<u32, &str> { Err("bad") }, r)
        .inspect_err(|_e: &&str| {}, r);
    // inspect_err should pass through Err unchanged.
    assert_eq!(p.run(&mut world, 0), Err("bad"));
}

#[test]
fn result_ok_converts() {
    let mut world = WorldBuilder::new().build();
    let r = world.registry();
    let mut p = PipelineBuilder::<u32>::new()
        .then(|x: u32| -> Result<u32, &str> { Ok(x) }, r)
        .ok();
    assert_eq!(p.run(&mut world, 5), Some(5));
}

#[test]
fn result_ok_drops_err() {
    let mut world = WorldBuilder::new().build();
    let r = world.registry();
    let mut p = PipelineBuilder::<u32>::new()
        .then(|_x: u32| -> Result<u32, &str> { Err("gone") }, r)
        .ok();
    assert_eq!(p.run(&mut world, 0), None);
}

#[test]
fn result_unwrap_or() {
    let mut world = WorldBuilder::new().build();
    let r = world.registry();
    let mut p = PipelineBuilder::<u32>::new()
        .then(|_x: u32| -> Result<u32, &str> { Err("x") }, r)
        .unwrap_or(99);
    assert_eq!(p.run(&mut world, 0), 99);
}

#[test]
fn result_unwrap_or_else() {
    let mut world = WorldBuilder::new().build();
    let r = world.registry();
    let mut p = PipelineBuilder::<u32>::new()
        .then(|_x: u32| -> Result<u32, i32> { Err(-5) }, r)
        .unwrap_or_else(|e: i32| e.unsigned_abs(), r);
    assert_eq!(p.run(&mut world, 0), 5);
}
// Batch pipeline

#[test]
fn batch_accumulates() {
    let wb = WorldBuilder::new();
    let mut wb = wb.register::<u64>(0);
    let mut world = wb.build();

    fn accumulate(sum: &mut u64, x: u32) {
        *sum += x as u64;
    }

    let r = world.registry();
    let mut batch = PipelineBuilder::<u32>::new()
        .then(accumulate, r)
        .build_batch(16);

    batch.input_mut().extend_from_slice(&[1, 2, 3, 4, 5]);
    batch.run(&mut world);

    assert_eq!(*world.resource::<u64, _>(), 15);
    assert!(batch.input().is_empty());
}

#[test]
fn batch_retains_allocation() {
    let mut world = WorldBuilder::new().build();
    let r = world.registry();
    let mut batch = PipelineBuilder::<u32>::new()
        .then(|_x: u32| {}, r)
        .build_batch(64);

    batch.input_mut().extend_from_slice(&[1, 2, 3]);
    batch.run(&mut world);

    assert!(batch.input().is_empty());
    assert!(batch.input_mut().capacity() >= 64);
}

#[test]
fn batch_empty_is_noop() {
    let wb = WorldBuilder::new();
    let mut wb = wb.register::<u64>(0);
    let mut world = wb.build();

    fn accumulate(sum: &mut u64, x: u32) {
        *sum += x as u64;
    }

    let r = world.registry();
    let mut batch = PipelineBuilder::<u32>::new()
        .then(accumulate, r)
        .build_batch(16);

    batch.run(&mut world);
    assert_eq!(*world.resource::<u64, _>(), 0);
}

#[test]
fn batch_catch_continues_on_error() {
    let wb = WorldBuilder::new();
    let mut wb = wb.register::<u64>(0);
    let mut wb = wb.register::<u32>(0);
    let mut world = wb.build();

    fn validate(x: u32) -> Result<u32, &'static str> {
        if x > 0 { Ok(x) } else { Err("zero") }
    }

    fn count_errors(errs: &mut u32, _err: &'static str) {
        *errs += 1;
    }

    fn accumulate(sum: &mut u64, x: u32) {
        *sum += x as u64;
    }

    let r = world.registry();
    let mut batch = PipelineBuilder::<u32>::new()
        .then(validate, r)
        .catch(count_errors, r)
        .map(accumulate, r)
        .build_batch(16);

    // Items: 1, 0 (error), 2, 0 (error), 3
    batch.input_mut().extend_from_slice(&[1, 0, 2, 0, 3]);
    batch.run(&mut world);

    assert_eq!(*world.resource::<u64, _>(), 6); // 1 + 2 + 3
    assert_eq!(*world.resource::<u32, _>(), 2); // 2 errors
}

#[test]
fn batch_filter_skips_items() {
    let wb = WorldBuilder::new();
    let mut wb = wb.register::<u64>(0);
    let mut world = wb.build();

    fn accumulate(sum: &mut u64, x: u32) {
        *sum += x as u64;
    }

    let r = world.registry();
    let mut batch = PipelineBuilder::<u32>::new()
        .then(
            |x: u32| -> Option<u32> { if x > 2 { Some(x) } else { None } },
            r,
        )
        .map(accumulate, r)
        .build_batch(16);

    batch.input_mut().extend_from_slice(&[1, 2, 3, 4, 5]);
    batch.run(&mut world);

    assert_eq!(*world.resource::<u64, _>(), 12); // 3 + 4 + 5
}

#[test]
fn batch_multiple_runs_accumulate() {
    let wb = WorldBuilder::new();
    let mut wb = wb.register::<u64>(0);
    let mut world = wb.build();

    fn accumulate(sum: &mut u64, x: u32) {
        *sum += x as u64;
    }

    let r = world.registry();
    let mut batch = PipelineBuilder::<u32>::new()
        .then(accumulate, r)
        .build_batch(16);

    batch.input_mut().extend_from_slice(&[1, 2, 3]);
    batch.run(&mut world);
    assert_eq!(*world.resource::<u64, _>(), 6);

    batch.input_mut().extend_from_slice(&[4, 5]);
    batch.run(&mut world);
    assert_eq!(*world.resource::<u64, _>(), 15);
}

#[test]
fn batch_with_world_access() {
    let wb = WorldBuilder::new();
    let mut wb = wb.register::<u64>(10); // multiplier
    let mut wb = wb.register::<Vec<u64>>(Vec::new());
    let mut world = wb.build();

    fn multiply_and_collect(factor: &u64, out: &mut Vec<u64>, x: u32) {
        out.push(x as u64 * *factor);
    }

    let r = world.registry();
    let mut batch = PipelineBuilder::<u32>::new()
        .then(multiply_and_collect, r)
        .build_batch(16);

    batch.input_mut().extend_from_slice(&[1, 2, 3]);
    batch.run(&mut world);

    assert_eq!(world.resource::<Vec<u64>, _>().as_slice(), &[10, 20, 30]);
}
// Cloned combinator

// Named functions for proper lifetime elision (&'a u32 → &'a u32).
// Closures get two independent lifetimes and fail to compile.
fn ref_identity(x: &u32) -> &u32 {
    x
}
fn ref_wrap_some(x: &u32) -> Option<&u32> {
    Some(x)
}
fn ref_wrap_none(_x: &u32) -> Option<&u32> {
    None
}
fn ref_wrap_ok(x: &u32) -> Result<&u32, String> {
    Ok(x)
}
fn ref_wrap_err(_x: &u32) -> Result<&u32, String> {
    Err("fail".into())
}

#[test]
fn cloned_bare() {
    let mut world = WorldBuilder::new().build();
    // val before p — val must outlive the pipeline's In = &u32
    let val = 42u32;
    let r = world.registry();
    let mut p = PipelineBuilder::<&u32>::new()
        .then(ref_identity, r)
        .cloned();
    assert_eq!(p.run(&mut world, &val), 42u32);
}

#[test]
fn cloned_option_some() {
    let mut world = WorldBuilder::new().build();
    let val = 42u32;
    let r = world.registry();
    let mut p = PipelineBuilder::<&u32>::new()
        .then(ref_wrap_some, r)
        .cloned();
    assert_eq!(p.run(&mut world, &val), Some(42u32));
}

#[test]
fn cloned_option_none() {
    let mut world = WorldBuilder::new().build();
    let val = 42u32;
    let r = world.registry();
    let mut p = PipelineBuilder::<&u32>::new()
        .then(ref_wrap_none, r)
        .cloned();
    assert_eq!(p.run(&mut world, &val), None);
}

#[test]
fn cloned_result_ok() {
    let mut world = WorldBuilder::new().build();
    let val = 42u32;
    let r = world.registry();
    let mut p = PipelineBuilder::<&u32>::new().then(ref_wrap_ok, r).cloned();
    assert_eq!(p.run(&mut world, &val), Ok(42u32));
}

#[test]
fn cloned_result_err() {
    let mut world = WorldBuilder::new().build();
    let val = 42u32;
    let r = world.registry();
    let mut p = PipelineBuilder::<&u32>::new()
        .then(ref_wrap_err, r)
        .cloned();
    assert_eq!(p.run(&mut world, &val), Err("fail".into()));
}
// Dispatch combinator

#[test]
fn dispatch_to_handler() {
    let wb = WorldBuilder::new();
    let mut wb = wb.register::<u64>(0);
    let mut world = wb.build();

    fn store(out: &mut u64, val: u32) {
        *out = val as u64;
    }

    let r = world.registry();
    let handler = PipelineBuilder::<u32>::new().then(store, r).build();

    let mut p = PipelineBuilder::<u32>::new()
        .then(|x: u32| x * 2, r)
        .dispatch(handler)
        .build();

    p.run(&mut world, 5);
    assert_eq!(*world.resource::<u64, _>(), 10);
}

#[test]
fn dispatch_to_fanout() {
    let wb = WorldBuilder::new();
    let mut wb = wb.register::<u64>(0);
    let mut wb = wb.register::<i64>(0);
    let mut world = wb.build();

    fn write_u64(sink: &mut u64, event: &u32) {
        *sink += *event as u64;
    }
    fn write_i64(sink: &mut i64, event: &u32) {
        *sink += *event as i64;
    }

    let h1 = resolve_arm::<_, u32, _, _, _>(write_u64, world.registry());
    let h2 = resolve_arm::<_, u32, _, _, _>(write_i64, world.registry());
    let fan = Both(h1, h2);

    let r = world.registry();
    let mut p = PipelineBuilder::<u32>::new()
        .then(|x: u32| x * 2, r)
        .dispatch(fan)
        .build();

    p.run(&mut world, 5);
    assert_eq!(*world.resource::<u64, _>(), 10);
    assert_eq!(*world.resource::<i64, _>(), 10);
}

#[test]
fn dispatch_to_broadcast() {
    let wb = WorldBuilder::new();
    let mut wb = wb.register::<u64>(0);
    let mut world = wb.build();

    fn write_u64(sink: &mut u64, event: &u32) {
        *sink += *event as u64;
    }

    let h1 = resolve_arm::<_, u32, _, _, _>(write_u64, world.registry());
    let h2 = resolve_arm::<_, u32, _, _, _>(write_u64, world.registry());
    let broadcast = Both(h1, h2);

    let r = world.registry();
    let mut p = PipelineBuilder::<u32>::new()
        .then(|x: u32| x + 1, r)
        .dispatch(broadcast)
        .build();

    p.run(&mut world, 4);
    assert_eq!(*world.resource::<u64, _>(), 10); // 5 + 5
}

#[test]
fn dispatch_build_produces_handler() {
    let wb = WorldBuilder::new();
    let mut wb = wb.register::<u64>(0);
    let mut world = wb.build();

    fn store(out: &mut u64, val: u32) {
        *out = val as u64;
    }

    let r = world.registry();
    let inner = PipelineBuilder::<u32>::new().then(store, r).build();

    let mut pipeline: Box<dyn Handler<With<u64, ()>, u32>> = Box::new(
        PipelineBuilder::<u32>::new()
            .then(|x: u32| x + 1, r)
            .dispatch(inner)
            .build(),
    );

    pipeline.run(&mut world, 9);
    assert_eq!(*world.resource::<u64, _>(), 10);
}

#[test]
fn pipeline_guard_keeps() {
    fn sink(out: &mut u64, val: Option<u64>) {
        *out = val.unwrap_or(0);
    }
    let wb = WorldBuilder::new();
    let mut wb = wb.register::<u64>(0);
    let mut world = wb.build();
    let reg = world.registry();

    let mut p = PipelineBuilder::<u32>::new()
        .then(|x: u32| x as u64, reg)
        .guard(|v: &u64| *v > 3, reg)
        .then(sink, reg);

    p.run(&mut world, 5u32);
    assert_eq!(*world.resource::<u64, _>(), 5);
}

#[test]
fn pipeline_guard_drops() {
    fn sink(out: &mut u64, val: Option<u64>) {
        *out = val.unwrap_or(999);
    }
    let wb = WorldBuilder::new();
    let mut wb = wb.register::<u64>(0);
    let mut world = wb.build();
    let reg = world.registry();

    let mut p = PipelineBuilder::<u32>::new()
        .then(|x: u32| x as u64, reg)
        .guard(|v: &u64| *v > 10, reg)
        .then(sink, reg);

    p.run(&mut world, 5u32);
    assert_eq!(*world.resource::<u64, _>(), 999);
}

#[test]
fn pipeline_tap_observes_without_changing() {
    fn sink(out: &mut u64, val: u64) {
        *out = val;
    }
    let wb = WorldBuilder::new();
    let mut wb = wb.register::<u64>(0);
    let mut wb = wb.register::<bool>(false);
    let mut world = wb.build();
    let reg = world.registry();

    let mut p = PipelineBuilder::<u32>::new()
        .then(|x: u32| x as u64 * 2, reg)
        .tap(
            |w: &mut World<_>, val: &u64| {
                *w.resource_mut::<bool, _>() = *val == 10;
            },
            reg,
        )
        .then(sink, reg);

    p.run(&mut world, 5u32);
    assert_eq!(*world.resource::<u64, _>(), 10); // value passed through
    assert!(*world.resource::<bool, _>()); // tap fired
}

#[test]
fn pipeline_route_true_arm() {
    fn sink(out: &mut u64, val: u64) {
        *out = val;
    }
    let wb = WorldBuilder::new();
    let mut wb = wb.register::<u64>(0);
    let mut world = wb.build();
    let reg = world.registry();

    let arm_t = PipelineBuilder::new().then(|x: u64| x * 2, reg);
    let arm_f = PipelineBuilder::new().then(|x: u64| x * 3, reg);

    let mut p = PipelineBuilder::<u32>::new()
        .then(|x: u32| x as u64, reg)
        .route(|v: &u64| *v > 3, reg, arm_t, arm_f)
        .then(sink, reg);

    p.run(&mut world, 5u32); // 5 > 3 → true arm → double → 10
    assert_eq!(*world.resource::<u64, _>(), 10);
}

#[test]
fn pipeline_route_false_arm() {
    fn sink(out: &mut u64, val: u64) {
        *out = val;
    }
    let wb = WorldBuilder::new();
    let mut wb = wb.register::<u64>(0);
    let mut world = wb.build();
    let reg = world.registry();

    let arm_t = PipelineBuilder::new().then(|x: u64| x * 2, reg);
    let arm_f = PipelineBuilder::new().then(|x: u64| x * 3, reg);

    let mut p = PipelineBuilder::<u32>::new()
        .then(|x: u32| x as u64, reg)
        .route(|v: &u64| *v > 10, reg, arm_t, arm_f)
        .then(sink, reg);

    p.run(&mut world, 5u32); // 5 <= 10 → false arm → triple → 15
    assert_eq!(*world.resource::<u64, _>(), 15);
}

#[test]
fn pipeline_route_nested() {
    fn sink(out: &mut u64, val: u64) {
        *out = val;
    }
    let wb = WorldBuilder::new();
    let mut wb = wb.register::<u64>(0);
    let mut world = wb.build();
    let reg = world.registry();

    // N-ary via nesting: <5 → +100, 5..10 → +200, >=10 → +300
    let inner_t = PipelineBuilder::new().then(|x: u64| x + 200, reg);
    let inner_f = PipelineBuilder::new().then(|x: u64| x + 300, reg);
    let outer_t = PipelineBuilder::new().then(|x: u64| x + 100, reg);
    let outer_f = PipelineBuilder::new().then(|x: u64| x, reg).route(
        |v: &u64| *v < 10,
        reg,
        inner_t,
        inner_f,
    );

    let mut p = PipelineBuilder::<u32>::new()
        .then(|x: u32| x as u64, reg)
        .route(|v: &u64| *v < 5, reg, outer_t, outer_f)
        .then(sink, reg);

    p.run(&mut world, 3u32); // 3 < 5 → +100 → 103
    assert_eq!(*world.resource::<u64, _>(), 103);

    p.run(&mut world, 7u32); // 7 >= 5, 7 < 10 → +200 → 207
    assert_eq!(*world.resource::<u64, _>(), 207);

    p.run(&mut world, 15u32); // 15 >= 5, 15 >= 10 → +300 → 315
    assert_eq!(*world.resource::<u64, _>(), 315);
}

#[test]
fn pipeline_tee_side_effect_chain() {

    fn log_step(counter: &mut u32, _val: &u64) {
        *counter += 1;
    }
    fn sink(out: &mut u64, val: u64) {
        *out = val;
    }
    let wb = WorldBuilder::new();
    let mut wb = wb.register::<u64>(0);
    let mut wb = wb.register::<u32>(0);
    let mut world = wb.build();
    let reg = world.registry();

    let side = DagArmSeed::new().then(log_step, reg);

    let mut p = PipelineBuilder::<u32>::new()
        .then(|x: u32| x as u64 * 2, reg)
        .tee(side)
        .then(sink, reg);

    p.run(&mut world, 5u32);
    assert_eq!(*world.resource::<u64, _>(), 10); // value passed through
    assert_eq!(*world.resource::<u32, _>(), 1); // side-effect fired

    p.run(&mut world, 7u32);
    assert_eq!(*world.resource::<u64, _>(), 14);
    assert_eq!(*world.resource::<u32, _>(), 2);
}

#[test]
fn pipeline_dedup_suppresses_unchanged() {
    fn sink(out: &mut u32, val: Option<u64>) {
        if val.is_some() {
            *out += 1;
        }
    }
    let wb = WorldBuilder::new();
    let mut wb = wb.register::<u32>(0);
    let mut world = wb.build();
    let reg = world.registry();

    let mut p = PipelineBuilder::<u32>::new()
        .then(|x: u32| x as u64 / 2, reg)
        .dedup()
        .then(sink, reg);

    p.run(&mut world, 4u32); // 2 — first, Some
    assert_eq!(*world.resource::<u32, _>(), 1);

    p.run(&mut world, 5u32); // 2 — same, None
    assert_eq!(*world.resource::<u32, _>(), 1);

    p.run(&mut world, 6u32); // 3 — changed, Some
    assert_eq!(*world.resource::<u32, _>(), 2);
}

#[test]
fn pipeline_not() {
    fn sink(out: &mut bool, val: bool) {
        *out = val;
    }
    let wb = WorldBuilder::new();
    let mut wb = wb.register::<bool>(false);
    let mut world = wb.build();
    let reg = world.registry();

    let mut p = PipelineBuilder::<u32>::new()
        .then(|x: u32| x > 5, reg)
        .not()
        .then(sink, reg);

    p.run(&mut world, 3u32); // 3 > 5 = false, not = true
    assert!(*world.resource::<bool, _>());

    p.run(&mut world, 10u32); // 10 > 5 = true, not = false
    assert!(!*world.resource::<bool, _>());
}

#[test]
fn pipeline_and() {
    fn sink(out: &mut bool, val: bool) {
        *out = val;
    }
    let wb = WorldBuilder::new();
    let mut wb = wb.register::<bool>(true);
    let mut world = wb.build();
    let reg = world.registry();

    let mut p = PipelineBuilder::<u32>::new()
        .then(|x: u32| x > 5, reg)
        .and(|w: &mut World<_>| *w.resource::<bool, _>(), reg)
        .then(sink, reg);

    p.run(&mut world, 10u32); // true && true = true
    assert!(*world.resource::<bool, _>());

    *world.resource_mut::<bool, _>() = false;
    p.run(&mut world, 10u32); // true && false = false
    assert!(!*world.resource::<bool, _>());
}

#[test]
fn pipeline_or() {
    fn sink(out: &mut bool, val: bool) {
        *out = val;
    }
    let wb = WorldBuilder::new();
    let mut wb = wb.register::<bool>(false);
    let mut world = wb.build();
    let reg = world.registry();

    let mut p = PipelineBuilder::<u32>::new()
        .then(|x: u32| x > 5, reg)
        .or(|w: &mut World<_>| *w.resource::<bool, _>(), reg)
        .then(sink, reg);

    p.run(&mut world, 3u32); // false || false = false
    assert!(!*world.resource::<bool, _>());

    *world.resource_mut::<bool, _>() = true;
    p.run(&mut world, 3u32); // false || true = true
    assert!(*world.resource::<bool, _>());
}

#[test]
fn pipeline_xor() {
    fn sink(out: &mut bool, val: bool) {
        *out = val;
    }
    let wb = WorldBuilder::new();
    let mut wb = wb.register::<bool>(true);
    let mut world = wb.build();
    let reg = world.registry();

    let mut p = PipelineBuilder::<u32>::new()
        .then(|x: u32| x > 5, reg)
        .xor(|w: &mut World<_>| *w.resource::<bool, _>(), reg)
        .then(sink, reg);

    p.run(&mut world, 10u32); // true ^ true = false
    assert!(!*world.resource::<bool, _>());
}
// Splat — tuple destructuring

#[test]
fn splat2_closure_on_start() {
    let mut world = WorldBuilder::new().build();
    let r = world.registry();
    let mut p = PipelineBuilder::<(u32, u64)>::new()
        .splat()
        .then(|a: u32, b: u64| a as u64 + b, r);
    assert_eq!(p.run(&mut world, (3, 7)), 10);
}

#[test]
fn splat2_named_fn_with_param() {
    let wb = WorldBuilder::new();
    let mut wb = wb.register::<u64>(100);
    let mut world = wb.build();

    fn process(base: &u64, a: u32, b: u32) -> u64 {
        *base + a as u64 + b as u64
    }

    let r = world.registry();
    let mut p = PipelineBuilder::<(u32, u32)>::new()
        .splat()
        .then(process, r);
    assert_eq!(p.run(&mut world, (3, 7)), 110);
}

#[test]
fn splat2_mid_chain() {
    let mut world = WorldBuilder::new().build();
    let r = world.registry();
    let mut p = PipelineBuilder::<u32>::new()
        .then(|x: u32| (x, x * 2), r)
        .splat()
        .then(|a: u32, b: u32| a as u64 + b as u64, r);
    assert_eq!(p.run(&mut world, 5), 15); // 5 + 10
}

#[test]
fn splat3_closure_on_start() {
    let mut world = WorldBuilder::new().build();
    let r = world.registry();
    let mut p = PipelineBuilder::<(u32, u32, u32)>::new()
        .splat()
        .then(|a: u32, b: u32, c: u32| a + b + c, r);
    assert_eq!(p.run(&mut world, (1, 2, 3)), 6);
}

#[test]
fn splat3_named_fn_with_param() {
    let wb = WorldBuilder::new();
    let mut wb = wb.register::<u64>(10);
    let mut world = wb.build();

    fn process(factor: &u64, a: u32, b: u32, c: u32) -> u64 {
        *factor * (a + b + c) as u64
    }

    let r = world.registry();
    let mut p = PipelineBuilder::<(u32, u32, u32)>::new()
        .splat()
        .then(process, r);
    assert_eq!(p.run(&mut world, (1, 2, 3)), 60);
}

#[test]
fn splat4_mid_chain() {
    let mut world = WorldBuilder::new().build();
    let r = world.registry();
    let mut p = PipelineBuilder::<u32>::new()
        .then(|x: u32| (x, x + 1, x + 2, x + 3), r)
        .splat()
        .then(|a: u32, b: u32, c: u32, d: u32| (a + b + c + d) as u64, r);
    assert_eq!(p.run(&mut world, 10), 46); // 10+11+12+13
}

#[test]
fn splat5_closure_on_start() {
    let mut world = WorldBuilder::new().build();
    let r = world.registry();
    let mut p = PipelineBuilder::<(u8, u8, u8, u8, u8)>::new().splat().then(
        |a: u8, b: u8, c: u8, d: u8, e: u8| {
            (a as u64) + (b as u64) + (c as u64) + (d as u64) + (e as u64)
        },
        r,
    );
    assert_eq!(p.run(&mut world, (1, 2, 3, 4, 5)), 15);
}

#[test]
fn splat_build_into_handler() {
    let wb = WorldBuilder::new();
    let mut wb = wb.register::<u64>(0);
    let mut world = wb.build();

    fn store(out: &mut u64, a: u32, b: u32) {
        *out = a as u64 + b as u64;
    }

    let r = world.registry();
    let mut pipeline = PipelineBuilder::<(u32, u32)>::new()
        .splat()
        .then(store, r)
        .build();

    pipeline.run(&mut world, (3, 7));
    assert_eq!(*world.resource::<u64, _>(), 10);
}

#[test]
fn splat_build_batch() {
    let wb = WorldBuilder::new();
    let mut wb = wb.register::<u64>(0);
    let mut world = wb.build();

    fn accumulate(sum: &mut u64, a: u32, b: u32) {
        *sum += a as u64 + b as u64;
    }

    let r = world.registry();
    let mut batch = PipelineBuilder::<(u32, u32)>::new()
        .splat()
        .then(accumulate, r)
        .build_batch(8);

    batch
        .input_mut()
        .extend_from_slice(&[(1, 2), (3, 4), (5, 6)]);
    batch.run(&mut world);
    assert_eq!(*world.resource::<u64, _>(), 21); // 3+7+11
}


#[test]
fn pipeline_then_branching() {
    fn double(x: u32) -> u64 {
        x as u64 * 2
    }
    fn sink(out: &mut u64, val: u64) {
        *out = val;
    }

    let wb = WorldBuilder::new();
    let mut wb = wb.register::<u64>(0);
    let mut world = wb.build();
    let reg = world.registry();

    let mut pipeline = PipelineBuilder::<u32>::new()
        .then(double, reg)
        .then(|val: u64| if val > 10 { val * 100 } else { val + 1 }, reg)
        .then(sink, reg)
        .build();

    pipeline.run(&mut world, 10u32); // 20 > 10 → 2000
    assert_eq!(*world.resource::<u64, _>(), 2000);

    pipeline.run(&mut world, 3u32); // 6 <= 10 → 7
    assert_eq!(*world.resource::<u64, _>(), 7);
}

#[test]
fn pipeline_then_3_way() {
    fn sink(out: &mut u64, val: u64) {
        *out = val;
    }

    let wb = WorldBuilder::new();
    let mut wb = wb.register::<u64>(0);
    let mut world = wb.build();
    let reg = world.registry();

    let mut pipeline = PipelineBuilder::<u32>::new()
        .then(
            |val: u32| match val % 3 {
                0 => val as u64 + 100,
                1 => val as u64 + 200,
                _ => val as u64 + 300,
            },
            reg,
        )
        .then(sink, reg)
        .build();

    pipeline.run(&mut world, 6u32); // 6 % 3 == 0 → 106
    assert_eq!(*world.resource::<u64, _>(), 106);

    pipeline.run(&mut world, 7u32); // 7 % 3 == 1 → 207
    assert_eq!(*world.resource::<u64, _>(), 207);

    pipeline.run(&mut world, 8u32); // 8 % 3 == 2 → 308
    assert_eq!(*world.resource::<u64, _>(), 308);
}

#[test]
fn pipeline_then_with_resolve_step() {
    fn add_offset(offset: &i64, val: u32) -> u64 {
        (*offset + val as i64) as u64
    }
    fn plain_double(val: u32) -> u64 {
        val as u64 * 2
    }
    fn sink(out: &mut u64, val: u64) {
        *out = val;
    }

    let wb = WorldBuilder::new();
    let mut wb = wb.register::<u64>(0);
    let mut wb = wb.register::<i64>(100);
    let mut world = wb.build();
    let reg = world.registry();

    let mut arm_offset = resolve_step::<_, u32, u64, _, _>(add_offset, reg);
    let mut arm_double = resolve_step::<_, u32, u64, _, _>(plain_double, reg);

    let mut pipeline = PipelineBuilder::<u32>::new()
        .then(
            move |world: &mut World<_>, val: u32| {
                if val > 10 {
                    arm_offset.call(world, val)
                } else {
                    arm_double.call(world, val)
                }
            },
            reg,
        )
        .then(sink, reg)
        .build();

    pipeline.run(&mut world, 20u32); // > 10 → offset → 100 + 20 = 120
    assert_eq!(*world.resource::<u64, _>(), 120);

    pipeline.run(&mut world, 5u32); // <= 10 → double → 10
    assert_eq!(*world.resource::<u64, _>(), 10);
}

#[test]
fn batch_pipeline_then_branching() {
    fn sink(out: &mut u64, val: u64) {
        *out += val;
    }

    let wb = WorldBuilder::new();
    let mut wb = wb.register::<u64>(0);
    let mut world = wb.build();
    let reg = world.registry();

    let mut batch = PipelineBuilder::<u32>::new()
        .then(
            |val: u32| {
                if val.is_multiple_of(2) {
                    val as u64 * 10
                } else {
                    val as u64
                }
            },
            reg,
        )
        .then(sink, reg)
        .build_batch(8);

    batch.input_mut().extend([1, 2, 3, 4]);
    batch.run(&mut world);

    // 1 → 1, 2 → 20, 3 → 3, 4 → 40 = 64
    assert_eq!(*world.resource::<u64, _>(), 64);
}

#[test]
fn guard_named_fn_with_param() {
    fn above_threshold(threshold: &u64, val: &u64) -> bool {
        *val > *threshold
    }
    fn sink(out: &mut i64, val: Option<u64>) {
        *out = val.map_or(-1, |v| v as i64);
    }
    let wb = WorldBuilder::new();
    let mut wb = wb.register::<u64>(5); // threshold
    let mut wb = wb.register::<i64>(0);
    let mut world = wb.build();
    let reg = world.registry();

    let mut p = PipelineBuilder::<u32>::new()
        .then(|x: u32| x as u64, reg)
        .guard(above_threshold, reg)
        .then(sink, reg);

    p.run(&mut world, 10u32); // 10 > 5 → Some(10)
    assert_eq!(*world.resource::<i64, _>(), 10);

    p.run(&mut world, 3u32); // 3 <= 5 → None → -1
    assert_eq!(*world.resource::<i64, _>(), -1);
}

#[test]
fn filter_named_fn_with_param() {
    fn is_allowed(allowed: &u64, val: &u64) -> bool {
        *val != *allowed
    }
    fn count(ctr: &mut i64, _val: u64) {
        *ctr += 1;
    }
    let wb = WorldBuilder::new();
    let mut wb = wb.register::<u64>(42); // blocked value
    let mut wb = wb.register::<i64>(0);
    let mut world = wb.build();
    let reg = world.registry();

    let mut p = PipelineBuilder::<u32>::new()
        .then(|x: u32| -> Option<u64> { Some(x as u64) }, reg)
        .filter(is_allowed, reg)
        .map(count, reg)
        .unwrap_or(());

    for v in [1u32, 42, 5, 42, 10] {
        p.run(&mut world, v);
    }
    assert_eq!(*world.resource::<i64, _>(), 3); // 42 filtered out twice
}

#[test]
fn inspect_named_fn_with_param() {
    fn log_value(log: &mut Vec<u64>, val: &u64) {
        log.push(*val);
    }
    let wb = WorldBuilder::new();
    let mut wb = wb.register::<Vec<u64>>(Vec::new());
    let mut world = wb.build();
    let reg = world.registry();

    let mut p = PipelineBuilder::<u32>::new()
        .then(|x: u32| -> Option<u64> { Some(x as u64) }, reg)
        .inspect(log_value, reg)
        .unwrap_or(0);

    for v in [1u32, 2, 3] {
        p.run(&mut world, v);
    }
    assert_eq!(world.resource::<Vec<u64>, _>().as_slice(), &[1, 2, 3]);
}

#[test]
fn tap_named_fn_with_param() {
    fn observe(log: &mut Vec<u64>, val: &u64) {
        log.push(*val);
    }
    fn sink(out: &mut u64, val: u64) {
        *out = val;
    }
    let wb = WorldBuilder::new();
    let mut wb = wb.register::<u64>(0);
    let mut wb = wb.register::<Vec<u64>>(Vec::new());
    let mut world = wb.build();
    let reg = world.registry();

    let mut p = PipelineBuilder::<u32>::new()
        .then(|x: u32| x as u64, reg)
        .tap(observe, reg)
        .then(sink, reg);

    p.run(&mut world, 7u32);
    assert_eq!(*world.resource::<u64, _>(), 7);
    assert_eq!(world.resource::<Vec<u64>, _>().as_slice(), &[7]);
}

#[test]
fn and_named_fn_with_param() {
    fn check_enabled(flag: &bool) -> bool {
        *flag
    }
    let wb = WorldBuilder::new();
    let mut wb = wb.register::<bool>(true);
    let mut world = wb.build();
    let reg = world.registry();

    let mut p = PipelineBuilder::<u32>::new()
        .then(|_x: u32| true, reg)
        .and(check_enabled, reg);

    assert!(p.run(&mut world, 0u32));

    *world.resource_mut::<bool, _>() = false;
    assert!(!p.run(&mut world, 0u32)); // short-circuit: true AND false
}

#[test]
fn or_named_fn_with_param() {
    fn check_enabled(flag: &bool) -> bool {
        *flag
    }
    let wb = WorldBuilder::new();
    let mut wb = wb.register::<bool>(true);
    let mut world = wb.build();
    let reg = world.registry();

    let mut p = PipelineBuilder::<u32>::new()
        .then(|_x: u32| false, reg)
        .or(check_enabled, reg);

    assert!(p.run(&mut world, 0u32)); // false OR true

    *world.resource_mut::<bool, _>() = false;
    assert!(!p.run(&mut world, 0u32)); // false OR false
}

#[test]
fn on_none_named_fn_with_param() {
    fn log_miss(ctr: &mut u64) {
        *ctr += 1;
    }
    let wb = WorldBuilder::new();
    let mut wb = wb.register::<u64>(0);
    let mut world = wb.build();
    let reg = world.registry();

    let mut p = PipelineBuilder::<u32>::new()
        .then(
            |x: u32| -> Option<u32> { if x > 5 { Some(x) } else { None } },
            reg,
        )
        .on_none(log_miss, reg)
        .unwrap_or(0);

    for v in [1u32, 10, 3, 20] {
        p.run(&mut world, v);
    }
    assert_eq!(*world.resource::<u64, _>(), 2); // 1 and 3 are None
}

#[test]
fn ok_or_else_named_fn_with_param() {
    fn make_error(msg: &String) -> String {
        (*msg).clone()
    }
    let wb = WorldBuilder::new();
    let mut wb = wb.register::<String>("not found".into());
    let mut world = wb.build();
    let reg = world.registry();

    let mut p = PipelineBuilder::<u32>::new()
        .then(
            |x: u32| -> Option<u32> { if x > 0 { Some(x) } else { None } },
            reg,
        )
        .ok_or_else(make_error, reg);

    let r: Result<u32, String> = p.run(&mut world, 5u32);
    assert_eq!(r, Ok(5));

    let r: Result<u32, String> = p.run(&mut world, 0u32);
    assert_eq!(r, Err("not found".into()));
}

#[test]
fn unwrap_or_else_option_named_fn_with_param() {
    fn fallback(default: &u64) -> u64 {
        *default
    }
    let wb = WorldBuilder::new();
    let mut wb = wb.register::<u64>(42);
    let mut world = wb.build();
    let reg = world.registry();

    let mut p = PipelineBuilder::<u32>::new()
        .then(
            |x: u32| -> Option<u64> { if x > 0 { Some(x as u64) } else { None } },
            reg,
        )
        .unwrap_or_else(fallback, reg);

    assert_eq!(p.run(&mut world, 5u32), 5);
    assert_eq!(p.run(&mut world, 0u32), 42);
}

#[test]
fn map_err_named_fn_with_param() {
    fn tag_error(prefix: &String, err: String) -> String {
        format!("{}: {err}", &*prefix)
    }
    fn sink(out: &mut String, val: Result<u32, String>) {
        match val {
            Ok(v) => *out = format!("ok:{v}"),
            Err(e) => *out = e,
        }
    }
    let wb = WorldBuilder::new();
    let mut wb = wb.register::<String>("ERR".into());
    let mut world = wb.build();
    let reg = world.registry();

    let mut p = PipelineBuilder::<u32>::new()
        .then(
            |x: u32| -> Result<u32, String> { if x > 0 { Ok(x) } else { Err("zero".into()) } },
            reg,
        )
        .map_err(tag_error, reg)
        .then(sink, reg);

    p.run(&mut world, 0u32);
    assert_eq!(world.resource::<String, _>().as_str(), "ERR: zero");

    p.run(&mut world, 5u32);
    assert_eq!(world.resource::<String, _>().as_str(), "ok:5");
}
// Scan combinator

#[test]
fn scan_arity0_closure_running_sum() {
    let mut world = WorldBuilder::new().build();
    let reg = world.registry();

    let mut p = PipelineBuilder::<u64>::new().then(|x: u64| x, reg).scan(
        0u64,
        |acc: &mut u64, val: u64| {
            *acc += val;
            Some(*acc)
        },
        reg,
    );

    assert_eq!(p.run(&mut world, 10), Some(10));
    assert_eq!(p.run(&mut world, 20), Some(30));
    assert_eq!(p.run(&mut world, 5), Some(35));
}

#[test]
fn scan_named_fn_with_param() {
    let wb = WorldBuilder::new();
    let mut wb = wb.register::<u64>(100);
    let mut world = wb.build();
    let reg = world.registry();

    fn threshold_scan(limit: &u64, acc: &mut u64, val: u64) -> Option<u64> {
        *acc += val;
        if *acc > *limit { Some(*acc) } else { None }
    }

    let mut p =
        PipelineBuilder::<u64>::new()
            .then(|x: u64| x, reg)
            .scan(0u64, threshold_scan, reg);

    assert_eq!(p.run(&mut world, 50), None);
    assert_eq!(p.run(&mut world, 30), None);
    assert_eq!(p.run(&mut world, 25), Some(105));
}

#[test]
fn scan_opaque_closure() {
    let wb = WorldBuilder::new();
    let mut wb = wb.register::<u64>(10);
    let mut world = wb.build();
    let reg = world.registry();

    let mut p = PipelineBuilder::<u64>::new().then(|x: u64| x, reg).scan(
        0u64,
        |world: &mut World<_>, acc: &mut u64, val: u64| {
            let factor = *world.resource::<u64, _>();
            *acc += val * factor;
            Some(*acc)
        },
        reg,
    );

    assert_eq!(p.run(&mut world, 1), Some(10));
    assert_eq!(p.run(&mut world, 2), Some(30));
}

#[test]
fn scan_suppression_returns_none() {
    let mut world = WorldBuilder::new().build();
    let reg = world.registry();

    let mut p = PipelineBuilder::<u64>::new().then(|x: u64| x, reg).scan(
        0u64,
        |acc: &mut u64, val: u64| -> Option<u64> {
            *acc += val;
            if *acc > 50 { Some(*acc) } else { None }
        },
        reg,
    );

    assert_eq!(p.run(&mut world, 20), None);
    assert_eq!(p.run(&mut world, 20), None);
    assert_eq!(p.run(&mut world, 20), Some(60));
}

#[test]
fn scan_on_pipeline_start() {
    let mut world = WorldBuilder::new().build();
    let reg = world.registry();

    let mut p = PipelineBuilder::<u64>::new().scan(
        0u64,
        |acc: &mut u64, val: u64| {
            *acc += val;
            *acc
        },
        reg,
    );

    assert_eq!(p.run(&mut world, 5), 5);
    assert_eq!(p.run(&mut world, 3), 8);
    assert_eq!(p.run(&mut world, 2), 10);
}

#[test]
fn scan_persistence_across_batch() {
    let wb = WorldBuilder::new();
    let mut wb = wb.register::<u64>(0);
    let mut world = wb.build();
    let reg = world.registry();

    fn store(out: &mut u64, val: u64) {
        *out = val;
    }

    let mut p = PipelineBuilder::<u64>::new()
        .then(|x: u64| x, reg)
        .scan(
            0u64,
            |acc: &mut u64, val: u64| {
                *acc += val;
                *acc
            },
            reg,
        )
        .then(store, reg)
        .build_batch(4);

    p.input_mut().extend([1, 2, 3]);
    p.run(&mut world);

    // Accumulator persists: 1, 3, 6
    assert_eq!(*world.resource::<u64, _>(), 6);

    p.input_mut().push(4);
    p.run(&mut world);
    // acc = 6 + 4 = 10
    assert_eq!(*world.resource::<u64, _>(), 10);
}
// Build — Option<()> terminal

#[test]
fn pipeline_build_option_unit_terminal() {
    let wb = WorldBuilder::new();
    let mut wb = wb.register::<u64>(0);
    let mut world = wb.build();
    let r = world.registry();

    fn check(x: u32) -> Option<u32> {
        if x > 5 { Some(x) } else { None }
    }
    fn store(out: &mut u64, val: u32) {
        *out += val as u64;
    }

    // .map(store) on Option<u32> produces Option<()> — build() must work
    let mut p = PipelineBuilder::<u32>::new()
        .then(check, r)
        .map(store, r)
        .build();

    p.run(&mut world, 3); // None, skipped
    assert_eq!(*world.resource::<u64, _>(), 0);
    p.run(&mut world, 7); // Some, stores
    assert_eq!(*world.resource::<u64, _>(), 7);
    p.run(&mut world, 10);
    assert_eq!(*world.resource::<u64, _>(), 17);
}

#[test]
fn build_option_unit_boxes_into_handler() {
    let wb = WorldBuilder::new();
    let mut wb = wb.register::<u64>(0);
    let mut world = wb.build();
    let r = world.registry();

    fn double(x: u32) -> Option<u64> {
        if x > 0 { Some(x as u64 * 2) } else { None }
    }
    fn store(out: &mut u64, val: u64) {
        *out += val;
    }

    let mut h: Box<dyn Handler<With<u64, ()>, u32>> = Box::new(
        PipelineBuilder::<u32>::new()
            .then(double, r)
            .map(store, r)
            .build(),
    );
    h.run(&mut world, 0); // None
    assert_eq!(*world.resource::<u64, _>(), 0);
    h.run(&mut world, 5); // 10
    assert_eq!(*world.resource::<u64, _>(), 10);
}
// Build — borrowed event type

#[test]
fn pipeline_build_borrowed_event_direct() {
    let wb = WorldBuilder::new();
    let mut wb = wb.register::<u64>(0);
    let mut world = wb.build();

    fn decode(msg: &[u8]) -> u64 {
        msg.len() as u64
    }
    fn store(out: &mut u64, val: u64) {
        *out = val;
    }

    // msg declared before p so it outlives the pipeline (drop order).
    // Matches real-world usage: pipeline lives long, events come and go.
    let msg = vec![1u8, 2, 3];
    let r = world.registry();
    let mut p = PipelineBuilder::<&[u8]>::new()
        .then(decode, r)
        .then(store, r)
        .build();

    p.run(&mut world, &msg);
    assert_eq!(*world.resource::<u64, _>(), 3);
}

#[test]
fn build_borrowed_event_option_unit() {
    let wb = WorldBuilder::new();
    let mut wb = wb.register::<u64>(0);
    let mut world = wb.build();

    fn decode(msg: &[u8]) -> Option<u64> {
        if msg.is_empty() {
            None
        } else {
            Some(msg.len() as u64)
        }
    }
    fn store(out: &mut u64, val: u64) {
        *out = val;
    }

    let empty = vec![];
    let data = vec![1u8, 2, 3];
    let r = world.registry();
    let mut p = PipelineBuilder::<&[u8]>::new()
        .then(decode, r)
        .map(store, r)
        .build();

    p.run(&mut world, &empty); // None
    assert_eq!(*world.resource::<u64, _>(), 0);
    p.run(&mut world, &data); // Some(3)
    assert_eq!(*world.resource::<u64, _>(), 3);
}
// NoEvent — pipeline steps with In = () that omit the input parameter

#[test]
fn no_event_step_arity_0() {
    let mut world = WorldBuilder::new().build();
    let r = world.registry();
    let mut p = PipelineBuilder::<()>::new().then(|| 42u64, r);
    assert_eq!(p.run(&mut world, ()), 42);
}

#[test]
fn no_event_step_arity_1() {

    let wb = WorldBuilder::new();
    let mut wb = wb.register::<u32>(10);
    let mut world = wb.build();

    fn read_config(config: &u32) -> u64 {
        *config as u64
    }

    let r = world.registry();
    let mut p = PipelineBuilder::<()>::new().then(no_event(read_config), r);
    assert_eq!(p.run(&mut world, ()), 10);
}

#[test]
fn no_event_step_chained() {

    let wb = WorldBuilder::new();
    let mut wb = wb.register::<u32>(5);
    let mut world = wb.build();

    fn read_val(val: &u32) -> u64 {
        *val as u64
    }

    let r = world.registry();
    let mut p = PipelineBuilder::<()>::new()
        .then(no_event(read_val), r)
        .then(|x: u64| x * 2, r);
    assert_eq!(p.run(&mut world, ()), 10);
}

#[test]
fn no_event_step_as_handler() {

    let wb = WorldBuilder::new();
    let mut wb = wb.register::<u64>(0);
    let mut world = wb.build();

    fn write_val(out: &mut u64) {
        *out += 1;
    }

    let r = world.registry();
    let mut p = PipelineBuilder::<()>::new()
        .then(no_event(write_val), r)
        .build();

    p.run(&mut world, ());
    p.run(&mut world, ());
    assert_eq!(*world.resource::<u64, _>(), 2);
}
