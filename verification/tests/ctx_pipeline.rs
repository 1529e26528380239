#![allow(dead_code, unused_variables, unused_mut)]
use nexus_rt::ctx_pipeline::CtxPipelineBuilder;
use nexus_rt::world::{World, WorldBuilder};

struct ReconnectCtx {
    retries: u32,
    last_result: Option<bool>,
}

#[test]
fn ctx_pipeline_three_steps_with_context_mutation() {
    let wb = WorldBuilder::new();
    let mut wb = wb.register::<u64>(10);
    let mut world = wb.build();
    let reg = world.registry();

    // Step 1: check retries (closure, arity 0)
    // Step 2: multiply by resource (named fn, arity 1)
    // Step 3: record result in context (closure, arity 0)

    fn multiply(ctx: &mut ReconnectCtx, factor: &u64, input: u32) -> u64 {
        ctx.retries += 1;
        *factor * input as u64
    }

    let mut pipeline = CtxPipelineBuilder::<ReconnectCtx, u32>::new()
        .then(
            |ctx: &mut ReconnectCtx, x: u32| {
                ctx.retries += 1;
                x
            },
            reg,
        )
        .then(multiply, reg)
        .then(
            |ctx: &mut ReconnectCtx, val: u64| {
                ctx.last_result = Some(val > 0);
            },
            reg,
        )
        .build();

    let mut ctx = ReconnectCtx {
        retries: 0,
        last_result: None,
    };

    pipeline.run(&mut ctx, &mut world, 5);

    // Closure incremented once, named fn incremented once
    assert_eq!(ctx.retries, 2);
    // 10 * 5 = 50, which is > 0
    assert_eq!(ctx.last_result, Some(true));
}

#[test]
fn ctx_pipeline_guard_and_map() {
    let mut world = WorldBuilder::new().build();
    let reg = world.registry();

    let mut pipeline = CtxPipelineBuilder::<ReconnectCtx, u32>::new()
        .then(|_ctx: &mut ReconnectCtx, x: u32| x, reg)
        .guard(|_ctx: &mut ReconnectCtx, x: &u32| *x > 10, reg)
        .map(
            |ctx: &mut ReconnectCtx, x: u32| {
                ctx.retries += 1;
                x * 2
            },
            reg,
        );

    let mut ctx = ReconnectCtx {
        retries: 0,
        last_result: None,
    };

    // x = 5, guard fails, map not called
    let result = pipeline.run(&mut ctx, &mut world, 5);
    assert_eq!(result, None);
    assert_eq!(ctx.retries, 0);

    // x = 20, guard passes, map called
    let result = pipeline.run(&mut ctx, &mut world, 20);
    assert_eq!(result, Some(40));
    assert_eq!(ctx.retries, 1);
}

#[test]
fn ctx_pipeline_and_then() {
    let mut world = WorldBuilder::new().build();
    let reg = world.registry();

    let mut pipeline = CtxPipelineBuilder::<ReconnectCtx, u32>::new()
        .then(|_ctx: &mut ReconnectCtx, x: u32| Some(x), reg)
        .and_then(
            |ctx: &mut ReconnectCtx, x: u32| {
                ctx.retries += 1;
                if x > 5 { Some(x * 2) } else { None }
            },
            reg,
        );

    let mut ctx = ReconnectCtx {
        retries: 0,
        last_result: None,
    };

    assert_eq!(pipeline.run(&mut ctx, &mut world, 3), None);
    assert_eq!(ctx.retries, 1);

    assert_eq!(pipeline.run(&mut ctx, &mut world, 10), Some(20));
    assert_eq!(ctx.retries, 2);
}

#[test]
fn ctx_pipeline_catch() {
    let mut world = WorldBuilder::new().build();
    let reg = world.registry();

    let mut pipeline = CtxPipelineBuilder::<ReconnectCtx, u32>::new()
        .then(
            |_ctx: &mut ReconnectCtx, x: u32| -> Result<u32, String> {
                if x > 0 {
                    Ok(x)
                } else {
                    Err("zero".to_string())
                }
            },
            reg,
        )
        .catch(
            |ctx: &mut ReconnectCtx, _err: String| {
                ctx.retries += 1;
            },
            reg,
        )
        .map(
            |ctx: &mut ReconnectCtx, val: u32| {
                ctx.last_result = Some(true);
                val
            },
            reg,
        );

    let mut ctx = ReconnectCtx {
        retries: 0,
        last_result: None,
    };

    // Error path
    let result = pipeline.run(&mut ctx, &mut world, 0);
    assert_eq!(result, None);
    assert_eq!(ctx.retries, 1);
    assert_eq!(ctx.last_result, None);

    // Ok path
    let result = pipeline.run(&mut ctx, &mut world, 42);
    assert_eq!(result, Some(42));
    assert_eq!(ctx.retries, 1);
    assert_eq!(ctx.last_result, Some(true));
}

#[test]
fn ctx_pipeline_with_res_mut() {
    let wb = WorldBuilder::new();
    let mut wb = wb.register::<u64>(0);
    let mut world = wb.build();
    let reg = world.registry();

    fn accumulate(ctx: &mut ReconnectCtx, total: &mut u64, val: u32) {
        *total += val as u64;
        ctx.retries += 1;
    }

    let mut pipeline = CtxPipelineBuilder::<ReconnectCtx, u32>::new()
        .then(accumulate, reg)
        .build();

    let mut ctx = ReconnectCtx {
        retries: 0,
        last_result: None,
    };

    pipeline.run(&mut ctx, &mut world, 10);
    pipeline.run(&mut ctx, &mut world, 5);

    assert_eq!(*world.resource::<u64, _>(), 15);
    assert_eq!(ctx.retries, 2);
}

#[test]
fn ctx_pipeline_build_with_option_unit() {
    let mut world = WorldBuilder::new().build();
    let reg = world.registry();

    // Pipeline that ends with Option<()> — should still build
    let mut pipeline = CtxPipelineBuilder::<ReconnectCtx, u32>::new()
        .then(
            |_ctx: &mut ReconnectCtx, x: u32| -> Option<u32> {
                if x > 0 { Some(x) } else { None }
            },
            reg,
        )
        .map(|_ctx: &mut ReconnectCtx, _x: u32| {}, reg)
        .build();

    let mut ctx = ReconnectCtx {
        retries: 0,
        last_result: None,
    };

    // Should not panic
    pipeline.run(&mut ctx, &mut world, 5);
    pipeline.run(&mut ctx, &mut world, 0);
}

#[test]
fn ctx_pipeline_tap() {
    let mut world = WorldBuilder::new().build();
    let reg = world.registry();

    let mut pipeline = CtxPipelineBuilder::<ReconnectCtx, u32>::new()
        .then(|_ctx: &mut ReconnectCtx, x: u32| x * 2, reg)
        .tap(
            |ctx: &mut ReconnectCtx, val: &u32| {
                ctx.retries = *val;
            },
            reg,
        )
        .then(
            |_ctx: &mut ReconnectCtx, x: u32| {
                // Value should pass through tap unchanged
                assert_eq!(x, 10);
            },
            reg,
        )
        .build();

    let mut ctx = ReconnectCtx {
        retries: 0,
        last_result: None,
    };

    pipeline.run(&mut ctx, &mut world, 5);
    assert_eq!(ctx.retries, 10);
}

#[test]
fn ctx_pipeline_result_map_and_map_err() {
    let mut world = WorldBuilder::new().build();
    let reg = world.registry();

    let mut pipeline = CtxPipelineBuilder::<ReconnectCtx, u32>::new()
        .then(
            |_ctx: &mut ReconnectCtx, x: u32| -> Result<u32, u32> {
                if x > 0 { Ok(x) } else { Err(x) }
            },
            reg,
        )
        .map(|_ctx: &mut ReconnectCtx, x: u32| x * 10, reg)
        .map_err(
            |ctx: &mut ReconnectCtx, e: u32| {
                ctx.retries += 1;
                format!("error: {e}")
            },
            reg,
        );

    let mut ctx = ReconnectCtx {
        retries: 0,
        last_result: None,
    };

    assert_eq!(pipeline.run(&mut ctx, &mut world, 5), Ok(50));
    assert_eq!(
        pipeline.run(&mut ctx, &mut world, 0),
        Err("error: 0".to_string())
    );
    assert_eq!(ctx.retries, 1);
}

#[test]
fn ctx_pipeline_inspect_err() {
    let mut world = WorldBuilder::new().build();
    let reg = world.registry();

    let mut pipeline = CtxPipelineBuilder::<ReconnectCtx, u32>::new()
        .then(
            |_ctx: &mut ReconnectCtx, x: u32| -> Result<u32, String> {
                if x > 0 { Ok(x) } else { Err("zero".into()) }
            },
            reg,
        )
        .inspect_err(
            |ctx: &mut ReconnectCtx, _e: &String| {
                ctx.retries += 1;
            },
            reg,
        );

    let mut ctx = ReconnectCtx {
        retries: 0,
        last_result: None,
    };

    let _ = pipeline.run(&mut ctx, &mut world, 0);
    assert_eq!(ctx.retries, 1);

    // Ok path — inspect_err not called
    let _ = pipeline.run(&mut ctx, &mut world, 5);
    assert_eq!(ctx.retries, 1);
}

#[test]
fn ctx_pipeline_filter() {
    let mut world = WorldBuilder::new().build();
    let reg = world.registry();

    let mut pipeline = CtxPipelineBuilder::<ReconnectCtx, u32>::new()
        .then(|_ctx: &mut ReconnectCtx, x: u32| Some(x), reg)
        .filter(|_ctx: &mut ReconnectCtx, x: &u32| *x > 10, reg);

    let mut ctx = ReconnectCtx {
        retries: 0,
        last_result: None,
    };

    assert_eq!(pipeline.run(&mut ctx, &mut world, 5), None);
    assert_eq!(pipeline.run(&mut ctx, &mut world, 20), Some(20));
}

#[test]
fn ctx_pipeline_ok_or() {
    let mut world = WorldBuilder::new().build();
    let reg = world.registry();

    let mut pipeline = CtxPipelineBuilder::<ReconnectCtx, u32>::new()
        .then(
            |_ctx: &mut ReconnectCtx, x: u32| {
                if x > 0 { Some(x) } else { None }
            },
            reg,
        )
        .ok_or("was zero");

    let mut ctx = ReconnectCtx {
        retries: 0,
        last_result: None,
    };

    assert_eq!(pipeline.run(&mut ctx, &mut world, 5), Ok(5));
    assert_eq!(pipeline.run(&mut ctx, &mut world, 0), Err("was zero"));
}

#[test]
fn ctx_pipeline_unwrap_or_option() {
    let mut world = WorldBuilder::new().build();
    let reg = world.registry();

    let mut pipeline = CtxPipelineBuilder::<ReconnectCtx, u32>::new()
        .then(
            |_ctx: &mut ReconnectCtx, x: u32| {
                if x > 0 { Some(x) } else { None }
            },
            reg,
        )
        .unwrap_or(99);

    let mut ctx = ReconnectCtx {
        retries: 0,
        last_result: None,
    };

    assert_eq!(pipeline.run(&mut ctx, &mut world, 5), 5);
    assert_eq!(pipeline.run(&mut ctx, &mut world, 0), 99);
}

#[test]
fn ctx_pipeline_unwrap_or_else_option() {
    let mut world = WorldBuilder::new().build();
    let reg = world.registry();

    let mut pipeline = CtxPipelineBuilder::<ReconnectCtx, u32>::new()
        .then(
            |_ctx: &mut ReconnectCtx, x: u32| {
                if x > 0 { Some(x) } else { None }
            },
            reg,
        )
        .unwrap_or_else(
            |ctx: &mut ReconnectCtx| {
                ctx.retries += 1;
                42
            },
            reg,
        );

    let mut ctx = ReconnectCtx {
        retries: 0,
        last_result: None,
    };

    assert_eq!(pipeline.run(&mut ctx, &mut world, 5), 5);
    assert_eq!(ctx.retries, 0);
    assert_eq!(pipeline.run(&mut ctx, &mut world, 0), 42);
    assert_eq!(ctx.retries, 1);
}

#[test]
fn ctx_pipeline_inspect_option() {
    let mut world = WorldBuilder::new().build();
    let reg = world.registry();

    let mut pipeline = CtxPipelineBuilder::<ReconnectCtx, u32>::new()
        .then(
            |_ctx: &mut ReconnectCtx, x: u32| {
                if x > 0 { Some(x) } else { None }
            },
            reg,
        )
        .inspect(
            |ctx: &mut ReconnectCtx, val: &u32| {
                ctx.retries = *val;
            },
            reg,
        );

    let mut ctx = ReconnectCtx {
        retries: 0,
        last_result: None,
    };

    // Some path — inspect fires
    let _ = pipeline.run(&mut ctx, &mut world, 7);
    assert_eq!(ctx.retries, 7);

    // None path — inspect skipped
    let _ = pipeline.run(&mut ctx, &mut world, 0);
    assert_eq!(ctx.retries, 7);
}

#[test]
fn ctx_pipeline_on_none() {
    let mut world = WorldBuilder::new().build();
    let reg = world.registry();

    let mut pipeline = CtxPipelineBuilder::<ReconnectCtx, u32>::new()
        .then(
            |_ctx: &mut ReconnectCtx, x: u32| {
                if x > 0 { Some(x) } else { None }
            },
            reg,
        )
        .on_none(
            |ctx: &mut ReconnectCtx| {
                ctx.retries += 1;
            },
            reg,
        );

    let mut ctx = ReconnectCtx {
        retries: 0,
        last_result: None,
    };

    // Some path — on_none not called
    let result = pipeline.run(&mut ctx, &mut world, 5);
    assert_eq!(result, Some(5));
    assert_eq!(ctx.retries, 0);

    // None path — on_none called
    let result = pipeline.run(&mut ctx, &mut world, 0);
    assert_eq!(result, None);
    assert_eq!(ctx.retries, 1);
}

#[test]
fn ctx_pipeline_ok_result() {
    let mut world = WorldBuilder::new().build();
    let reg = world.registry();

    let mut pipeline = CtxPipelineBuilder::<ReconnectCtx, u32>::new()
        .then(
            |_ctx: &mut ReconnectCtx, x: u32| -> Result<u32, String> {
                if x > 0 { Ok(x) } else { Err("zero".into()) }
            },
            reg,
        )
        .ok();

    let mut ctx = ReconnectCtx {
        retries: 0,
        last_result: None,
    };

    assert_eq!(pipeline.run(&mut ctx, &mut world, 5), Some(5));
    assert_eq!(pipeline.run(&mut ctx, &mut world, 0), None);
}

#[test]
fn ctx_pipeline_unwrap_or_result() {
    let mut world = WorldBuilder::new().build();
    let reg = world.registry();

    let mut pipeline = CtxPipelineBuilder::<ReconnectCtx, u32>::new()
        .then(
            |_ctx: &mut ReconnectCtx, x: u32| -> Result<u32, String> {
                if x > 0 { Ok(x) } else { Err("zero".into()) }
            },
            reg,
        )
        .unwrap_or(99);

    let mut ctx = ReconnectCtx {
        retries: 0,
        last_result: None,
    };

    assert_eq!(pipeline.run(&mut ctx, &mut world, 5), 5);
    assert_eq!(pipeline.run(&mut ctx, &mut world, 0), 99);
}

#[test]
fn ctx_pipeline_inspect_result() {
    let mut world = WorldBuilder::new().build();
    let reg = world.registry();

    let mut pipeline = CtxPipelineBuilder::<ReconnectCtx, u32>::new()
        .then(
            |_ctx: &mut ReconnectCtx, x: u32| -> Result<u32, String> {
                if x > 0 { Ok(x) } else { Err("zero".into()) }
            },
            reg,
        )
        .inspect(
            |ctx: &mut ReconnectCtx, val: &u32| {
                ctx.retries = *val;
            },
            reg,
        );

    let mut ctx = ReconnectCtx {
        retries: 0,
        last_result: None,
    };

    // Ok path — inspect fires
    let _ = pipeline.run(&mut ctx, &mut world, 7);
    assert_eq!(ctx.retries, 7);

    // Err path — inspect skipped
    let _ = pipeline.run(&mut ctx, &mut world, 0);
    assert_eq!(ctx.retries, 7);
}

#[test]
fn ctx_pipeline_opaque_step() {
    let wb = WorldBuilder::new();
    let mut wb = wb.register::<u64>(100);
    let mut world = wb.build();
    let reg = world.registry();

    // Opaque step: FnMut(&mut C, &mut World<_>, In) -> Out
    let mut pipeline = CtxPipelineBuilder::<ReconnectCtx, u32>::new()
        .then(
            |ctx: &mut ReconnectCtx, w: &mut World<_>, x: u32| {
                ctx.retries += 1;
                let scale = *w.resource::<u64, _>();
                u64::from(x) * scale
            },
            reg,
        )
        .then(
            |ctx: &mut ReconnectCtx, val: u64| {
                ctx.last_result = Some(val > 0);
            },
            reg,
        )
        .build();

    let mut ctx = ReconnectCtx {
        retries: 0,
        last_result: None,
    };

    pipeline.run(&mut ctx, &mut world, 5);
    assert_eq!(ctx.retries, 1);
    assert_eq!(ctx.last_result, Some(true));
}

#[test]
fn ctx_pipeline_opaque_guard() {
    let wb = WorldBuilder::new();
    let mut wb = wb.register::<u64>(10);
    let mut world = wb.build();
    let reg = world.registry();

    // Opaque ref step used as guard
    let mut pipeline = CtxPipelineBuilder::<ReconnectCtx, u32>::new()
        .then(|_ctx: &mut ReconnectCtx, x: u32| x, reg)
        .guard(
            |_ctx: &mut ReconnectCtx, w: &mut World<_>, x: &u32| {
                let threshold = *w.resource::<u64, _>();
                u64::from(*x) > threshold
            },
            reg,
        );

    let mut ctx = ReconnectCtx {
        retries: 0,
        last_result: None,
    };

    assert_eq!(pipeline.run(&mut ctx, &mut world, 5), None);
    assert_eq!(pipeline.run(&mut ctx, &mut world, 20), Some(20));
}

#[test]
fn ctx_pipeline_opaque_producer() {
    let wb = WorldBuilder::new();
    let mut wb = wb.register::<u64>(42);
    let mut world = wb.build();
    let reg = world.registry();

    // Opaque producer: FnMut(&mut C, &mut World<_>) -> Out
    let mut pipeline = CtxPipelineBuilder::<ReconnectCtx, u32>::new()
        .then(
            |_ctx: &mut ReconnectCtx, x: u32| {
                if x > 0 { Some(x) } else { None }
            },
            reg,
        )
        .unwrap_or_else(
            |ctx: &mut ReconnectCtx, w: &mut World<_>| {
                ctx.retries += 1;
                *w.resource::<u64, _>() as u32
            },
            reg,
        );

    let mut ctx = ReconnectCtx {
        retries: 0,
        last_result: None,
    };

    assert_eq!(pipeline.run(&mut ctx, &mut world, 5), 5);
    assert_eq!(ctx.retries, 0);
    assert_eq!(pipeline.run(&mut ctx, &mut world, 0), 42);
    assert_eq!(ctx.retries, 1);
}
