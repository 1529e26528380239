#![allow(dead_code, unused_variables, unused_mut)]
use nexus_rt::ctx_dag::CtxDagBuilder;
use nexus_rt::world::WorldBuilder;

struct TradingCtx {
    book_updates: u32,
    risk_checks: u32,
    submissions: u32,
}

#[test]
fn ctx_dag_fork_merge_two_arms() {
    let wb = WorldBuilder::new();
    let mut wb = wb.register::<u64>(0);
    let mut world = wb.build();
    let reg = world.registry();

    fn decode(ctx: &mut TradingCtx, raw: u32) -> u64 {
        ctx.book_updates += 1;
        raw as u64
    }

    fn arm_a(ctx: &mut TradingCtx, val: &u64) -> u64 {
        ctx.book_updates += 1;
        *val * 2
    }

    fn arm_b(ctx: &mut TradingCtx, val: &u64) -> u64 {
        ctx.risk_checks += 1;
        *val + 10
    }

    fn merge_fn(ctx: &mut TradingCtx, a: &u64, b: &u64) {
        ctx.submissions += 1;
        assert_eq!(*a, 10); // 5 * 2
        assert_eq!(*b, 15); // 5 + 10
    }

    let mut dag = CtxDagBuilder::<TradingCtx, u32>::new()
        .root(decode, reg)
        .fork()
        .arm(|seed| seed.then(arm_a, reg))
        .arm(|seed| seed.then(arm_b, reg))
        .merge(merge_fn, reg)
        .build();

    let mut ctx = TradingCtx {
        book_updates: 0,
        risk_checks: 0,
        submissions: 0,
    };

    dag.run(&mut ctx, &mut world, 5);

    assert_eq!(ctx.book_updates, 2); // decode + arm_a
    assert_eq!(ctx.risk_checks, 1);
    assert_eq!(ctx.submissions, 1);
}

#[test]
fn ctx_dag_linear_then() {
    let wb = WorldBuilder::new();
    let mut wb = wb.register::<u64>(0);
    let mut world = wb.build();
    let reg = world.registry();

    fn root(ctx: &mut TradingCtx, x: u32) -> u64 {
        ctx.book_updates += 1;
        x as u64 * 2
    }

    fn store(ctx: &mut TradingCtx, out: &mut u64, val: &u64) {
        ctx.submissions += 1;
        *out = *val;
    }

    let mut dag = CtxDagBuilder::<TradingCtx, u32>::new()
        .root(root, reg)
        .then(store, reg)
        .build();

    let mut ctx = TradingCtx {
        book_updates: 0,
        risk_checks: 0,
        submissions: 0,
    };

    dag.run(&mut ctx, &mut world, 5);

    assert_eq!(ctx.book_updates, 1);
    assert_eq!(ctx.submissions, 1);
    assert_eq!(*world.resource::<u64, _>(), 10);
}

#[test]
fn ctx_dag_fork_join() {
    let mut world = WorldBuilder::new().build();
    let reg = world.registry();

    fn root(_ctx: &mut TradingCtx, x: u32) -> u64 {
        x as u64
    }

    fn side_a(ctx: &mut TradingCtx, _val: &u64) {
        ctx.book_updates += 1;
    }

    fn side_b(ctx: &mut TradingCtx, _val: &u64) {
        ctx.risk_checks += 1;
    }

    let mut dag = CtxDagBuilder::<TradingCtx, u32>::new()
        .root(root, reg)
        .fork()
        .arm(|seed| seed.then(side_a, reg))
        .arm(|seed| seed.then(side_b, reg))
        .join()
        .build();

    let mut ctx = TradingCtx {
        book_updates: 0,
        risk_checks: 0,
        submissions: 0,
    };

    dag.run(&mut ctx, &mut world, 42);

    assert_eq!(ctx.book_updates, 1);
    assert_eq!(ctx.risk_checks, 1);
}

#[test]
fn ctx_dag_guard_before_fork() {
    let mut world = WorldBuilder::new().build();
    let reg = world.registry();

    fn root(_ctx: &mut TradingCtx, x: u32) -> u32 {
        x
    }

    let mut dag = CtxDagBuilder::<TradingCtx, u32>::new()
        .root(root, reg)
        .guard(|_ctx: &mut TradingCtx, x: &u32| *x > 10, reg)
        .map(
            |ctx: &mut TradingCtx, x: &u32| {
                ctx.submissions += 1;
                *x * 2
            },
            reg,
        )
        .unwrap_or(0u32)
        .then(
            |ctx: &mut TradingCtx, val: &u32| {
                ctx.book_updates = *val;
            },
            reg,
        )
        .build();

    let mut ctx = TradingCtx {
        book_updates: 0,
        risk_checks: 0,
        submissions: 0,
    };

    // x = 5, guard fails
    dag.run(&mut ctx, &mut world, 5);
    assert_eq!(ctx.book_updates, 0);
    assert_eq!(ctx.submissions, 0);

    // x = 20, guard passes
    dag.run(&mut ctx, &mut world, 20);
    assert_eq!(ctx.book_updates, 40);
    assert_eq!(ctx.submissions, 1);
}

#[test]
fn ctx_dag_three_arm_fork_merge() {
    let wb = WorldBuilder::new();
    let mut wb = wb.register::<u64>(0);
    let mut world = wb.build();
    let reg = world.registry();

    fn decode(ctx: &mut TradingCtx, raw: u32) -> u64 {
        ctx.book_updates += 1;
        raw as u64
    }

    fn arm_a(ctx: &mut TradingCtx, val: &u64) -> u64 {
        ctx.book_updates += 1;
        *val * 2
    }

    fn arm_b(ctx: &mut TradingCtx, val: &u64) -> u64 {
        ctx.risk_checks += 1;
        *val + 10
    }

    fn arm_c(ctx: &mut TradingCtx, val: &u64) -> u64 {
        ctx.submissions += 1;
        *val * 3
    }

    fn merge3(ctx: &mut TradingCtx, a: &u64, b: &u64, c: &u64) {
        ctx.submissions += 1;
        assert_eq!(*a, 10); // 5 * 2
        assert_eq!(*b, 15); // 5 + 10
        assert_eq!(*c, 15); // 5 * 3
    }

    let mut dag = CtxDagBuilder::<TradingCtx, u32>::new()
        .root(decode, reg)
        .fork()
        .arm(|seed| seed.then(arm_a, reg))
        .arm(|seed| seed.then(arm_b, reg))
        .arm(|seed| seed.then(arm_c, reg))
        .merge(merge3, reg)
        .build();

    let mut ctx = TradingCtx {
        book_updates: 0,
        risk_checks: 0,
        submissions: 0,
    };

    dag.run(&mut ctx, &mut world, 5);

    assert_eq!(ctx.book_updates, 2); // decode + arm_a
    assert_eq!(ctx.risk_checks, 1); // arm_b
    assert_eq!(ctx.submissions, 2); // arm_c + merge3
}

#[test]
fn ctx_dag_merge_with_param() {
    let wb = WorldBuilder::new();
    let mut wb = wb.register::<u64>(100);
    let mut world = wb.build();
    let reg = world.registry();

    fn decode(ctx: &mut TradingCtx, raw: u32) -> u64 {
        ctx.book_updates += 1;
        raw as u64
    }

    fn arm_a(_ctx: &mut TradingCtx, val: &u64) -> u64 {
        *val * 2
    }

    fn arm_b(_ctx: &mut TradingCtx, val: &u64) -> u64 {
        *val + 10
    }

    // Merge step that uses Res<u64> — exercises the unsafe Param::fetch path
    fn merge_with_res(ctx: &mut TradingCtx, scale: &u64, a: &u64, b: &u64) {
        ctx.submissions += 1;
        // scale=100, a=10 (5*2), b=15 (5+10)
        assert_eq!(*scale, 100);
        assert_eq!(*a + *b, 25);
    }

    let mut dag = CtxDagBuilder::<TradingCtx, u32>::new()
        .root(decode, reg)
        .fork()
        .arm(|seed| seed.then(arm_a, reg))
        .arm(|seed| seed.then(arm_b, reg))
        .merge(merge_with_res, reg)
        .build();

    let mut ctx = TradingCtx {
        book_updates: 0,
        risk_checks: 0,
        submissions: 0,
    };

    dag.run(&mut ctx, &mut world, 5);

    assert_eq!(ctx.book_updates, 1);
    assert_eq!(ctx.submissions, 1);
}
