#![allow(dead_code, unused_variables, unused_mut)]
use nexus_rt::dag::{resolve_arm, DagArmSeed, DagBuilder};
use nexus_rt::handler::{Handler, IntoHandler};
use nexus_rt::step::StepCall;
use nexus_rt::world::{With, World, WorldBuilder};

#[test]
fn dag_linear_2() {
    let wb = WorldBuilder::new();
    let mut wb = wb.register::<u64>(0);
    let mut world = wb.build();
    let reg = world.registry();

    fn root_mul2(x: u32) -> u64 {
        x as u64 * 2
    }
    fn store(out: &mut u64, val: &u64) {
        *out = *val;
    }

    let mut dag = DagBuilder::<u32>::new()
        .root(root_mul2, reg)
        .then(store, reg)
        .build();

    dag.run(&mut world, 5u32);
    assert_eq!(*world.resource::<u64, _>(), 10);
}

#[test]
fn dag_linear_3() {
    let wb = WorldBuilder::new();
    let mut wb = wb.register::<u64>(0);
    let mut world = wb.build();
    let reg = world.registry();

    fn root_mul2(x: u32) -> u64 {
        x as u64 * 2
    }
    fn add_one(val: &u64) -> u64 {
        *val + 1
    }
    fn store(out: &mut u64, val: &u64) {
        *out = *val;
    }

    let mut dag = DagBuilder::<u32>::new()
        .root(root_mul2, reg)
        .then(add_one, reg)
        .then(store, reg)
        .build();

    dag.run(&mut world, 5u32);
    assert_eq!(*world.resource::<u64, _>(), 11); // (5*2)+1
}

#[test]
fn dag_linear_5() {
    let wb = WorldBuilder::new();
    let mut wb = wb.register::<u64>(0);
    let mut world = wb.build();
    let reg = world.registry();

    fn root_id(x: u32) -> u64 {
        x as u64
    }
    fn add_one(val: &u64) -> u64 {
        *val + 1
    }
    fn store(out: &mut u64, val: &u64) {
        *out = *val;
    }

    let mut dag = DagBuilder::<u32>::new()
        .root(root_id, reg)
        .then(add_one, reg)
        .then(add_one, reg)
        .then(add_one, reg)
        .then(store, reg)
        .build();

    dag.run(&mut world, 0u32);
    assert_eq!(*world.resource::<u64, _>(), 3); // 0+1+1+1
}

#[test]
fn dag_diamond() {
    let wb = WorldBuilder::new();
    let mut wb = wb.register::<u64>(0);
    let mut world = wb.build();
    let reg = world.registry();

    fn root_mul2(x: u32) -> u32 {
        x.wrapping_mul(2)
    }
    fn add_one(val: &u32) -> u32 {
        val.wrapping_add(1)
    }
    fn mul3(val: &u32) -> u32 {
        val.wrapping_mul(3)
    }
    fn merge_add(a: &u32, b: &u32) -> u32 {
        a.wrapping_add(*b)
    }
    fn store(out: &mut u64, val: &u32) {
        *out = *val as u64;
    }

    let mut dag = DagBuilder::<u32>::new()
        .root(root_mul2, reg)
        .fork()
        .arm(|a| a.then(add_one, reg))
        .arm(|b| b.then(mul3, reg))
        .merge(merge_add, reg)
        .then(store, reg)
        .build();

    dag.run(&mut world, 5u32);
    // root: 10, arm_a: 11, arm_b: 30, merge: 41
    assert_eq!(*world.resource::<u64, _>(), 41);
}

#[test]
fn dag_fan_out_join() {
    let wb = WorldBuilder::new();
    let mut wb = wb.register::<u64>(0);
    let mut wb = wb.register::<i64>(0);
    let mut world = wb.build();
    let reg = world.registry();

    fn root_id(x: u32) -> u64 {
        x as u64
    }
    fn sink_u64(out: &mut u64, val: &u64) {
        *out = *val * 2;
    }
    fn sink_i64(out: &mut i64, val: &u64) {
        *out = *val as i64 * 3;
    }

    let mut dag = DagBuilder::<u32>::new()
        .root(root_id, reg)
        .fork()
        .arm(|a| a.then(sink_u64, reg))
        .arm(|b| b.then(sink_i64, reg))
        .join()
        .build();

    dag.run(&mut world, 5u32);
    assert_eq!(*world.resource::<u64, _>(), 10);
    assert_eq!(*world.resource::<i64, _>(), 15);
}

#[test]
fn dag_nested_fork() {
    let wb = WorldBuilder::new();
    let mut wb = wb.register::<u64>(0);
    let mut world = wb.build();
    let reg = world.registry();

    fn root_id(x: u32) -> u32 {
        x
    }
    fn add_10(val: &u32) -> u32 {
        val.wrapping_add(10)
    }
    fn mul2(val: &u32) -> u32 {
        val.wrapping_mul(2)
    }
    fn mul3(val: &u32) -> u32 {
        val.wrapping_mul(3)
    }
    fn inner_merge(a: &u32, b: &u32) -> u32 {
        a.wrapping_add(*b)
    }
    fn outer_merge(a: &u32, b: &u32) -> u32 {
        a.wrapping_add(*b)
    }
    fn store(out: &mut u64, val: &u32) {
        *out = *val as u64;
    }

    // root(5)=5 → fork
    //   arm_a: add_10(5)=15 → fork
    //     sub_c: mul2(15)=30
    //     sub_d: mul3(15)=45
    //     inner_merge(30,45)=75
    //   arm_b: mul3(5)=15
    // outer_merge(75,15)=90
    let mut dag = DagBuilder::<u32>::new()
        .root(root_id, reg)
        .fork()
        .arm(|a| {
            a.then(add_10, reg)
                .fork()
                .arm(|c| c.then(mul2, reg))
                .arm(|d| d.then(mul3, reg))
                .merge(inner_merge, reg)
        })
        .arm(|b| b.then(mul3, reg))
        .merge(outer_merge, reg)
        .then(store, reg)
        .build();

    dag.run(&mut world, 5u32);
    assert_eq!(*world.resource::<u64, _>(), 90);
}

#[test]
fn dag_complex_topology() {
    let wb = WorldBuilder::new();
    let mut wb = wb.register::<u64>(0);
    let mut world = wb.build();
    let reg = world.registry();

    fn root_mul2(x: u32) -> u32 {
        x.wrapping_mul(2)
    }
    fn add_one(val: &u32) -> u32 {
        val.wrapping_add(1)
    }
    fn add_then_mul2(val: &u32) -> u32 {
        val.wrapping_add(1).wrapping_mul(2)
    }
    fn mul3(val: &u32) -> u32 {
        val.wrapping_mul(3)
    }
    fn merge_add(a: &u32, b: &u32) -> u32 {
        a.wrapping_add(*b)
    }
    fn store(out: &mut u64, val: &u32) {
        *out = *val as u64;
    }

    // root(5)=10 → fork
    //   a: add_one(10)=11 → add_then_mul2(11)=24
    //   b: mul3(10)=30
    // merge(24, 30) = 54
    let mut dag = DagBuilder::<u32>::new()
        .root(root_mul2, reg)
        .fork()
        .arm(|a| a.then(add_one, reg).then(add_then_mul2, reg))
        .arm(|b| b.then(mul3, reg))
        .merge(merge_add, reg)
        .then(store, reg)
        .build();

    dag.run(&mut world, 5u32);
    assert_eq!(*world.resource::<u64, _>(), 54);
}

#[test]
fn dag_boxable() {
    let wb = WorldBuilder::new();
    let mut wb = wb.register::<u64>(0);
    let mut world = wb.build();
    let reg = world.registry();

    fn root_id(x: u32) -> u64 {
        x as u64
    }
    fn store(out: &mut u64, val: &u64) {
        *out = *val;
    }

    let mut boxed: Box<dyn Handler<With<u64, ()>, u32>> = Box::new(
        DagBuilder::<u32>::new()
            .root(root_id, reg)
            .then(store, reg)
            .build(),
    );
    boxed.run(&mut world, 77u32);
    assert_eq!(*world.resource::<u64, _>(), 77);
}

#[test]
fn dag_world_access() {
    let wb = WorldBuilder::new();
    let mut wb = wb.register::<u64>(10); // factor
    let mut wb = wb.register::<String>(String::new());
    let mut world = wb.build();
    let reg = world.registry();

    fn scale(factor: &u64, val: &u32) -> u64 {
        *factor * (*val as u64)
    }
    fn store(out: &mut String, val: &u64) {
        *out = val.to_string();
    }

    let mut dag = DagBuilder::<u32>::new()
        .root(|x: u32| x, reg)
        .then(scale, reg)
        .then(store, reg)
        .build();

    dag.run(&mut world, 7u32);
    assert_eq!(world.resource::<String, _>().as_str(), "70");
}

#[test]
fn dag_root_only() {
    let wb = WorldBuilder::new();
    let mut wb = wb.register::<u64>(0);
    let mut world = wb.build();
    let reg = world.registry();

    let mut dag = DagBuilder::<u32>::new()
        .root(
            |out: &mut u64, x: u32| {
                *out = x as u64;
            },
            reg,
        )
        .build();

    dag.run(&mut world, 42u32);
    assert_eq!(*world.resource::<u64, _>(), 42);
}

#[test]
fn dag_multiple_dispatches() {
    let wb = WorldBuilder::new();
    let mut wb = wb.register::<u64>(0);
    let mut world = wb.build();
    let reg = world.registry();

    fn root_id(x: u32) -> u64 {
        x as u64
    }
    fn store(out: &mut u64, val: &u64) {
        *out = *val;
    }

    let mut dag = DagBuilder::<u32>::new()
        .root(root_id, reg)
        .then(store, reg)
        .build();

    dag.run(&mut world, 1u32);
    assert_eq!(*world.resource::<u64, _>(), 1);
    dag.run(&mut world, 2u32);
    assert_eq!(*world.resource::<u64, _>(), 2);
    dag.run(&mut world, 3u32);
    assert_eq!(*world.resource::<u64, _>(), 3);
}

#[test]
fn dag_3way_merge() {
    let wb = WorldBuilder::new();
    let mut wb = wb.register::<String>(String::new());
    let mut world = wb.build();
    let reg = world.registry();

    fn root_id(x: u32) -> u64 {
        x as u64
    }
    fn mul1(val: &u64) -> u64 {
        *val
    }
    fn mul2(val: &u64) -> u64 {
        *val * 2
    }
    fn mul3(val: &u64) -> u64 {
        *val * 3
    }
    fn merge3_fmt(out: &mut String, a: &u64, b: &u64, c: &u64) {
        *out = format!("{},{},{}", a, b, c);
    }

    let mut dag = DagBuilder::<u32>::new()
        .root(root_id, reg)
        .fork()
        .arm(|a| a.then(mul1, reg))
        .arm(|b| b.then(mul2, reg))
        .arm(|c| c.then(mul3, reg))
        .merge(merge3_fmt, reg)
        .build();

    dag.run(&mut world, 10u32);
    assert_eq!(world.resource::<String, _>().as_str(), "10,20,30");
}

#[test]
fn dag_dispatch() {
    fn root(x: u32) -> u64 {
        x as u64 + 42
    }
    fn sink(out: &mut u64, event: u64) {
        *out = event;
    }
    let wb = WorldBuilder::new();
    let mut wb = wb.register::<u64>(0);
    let mut world = wb.build();
    let reg = world.registry();

    let mut dag = DagBuilder::<u32>::new()
        .root(root, reg)
        .dispatch(sink.into_handler(reg))
        .build();

    dag.run(&mut world, 0u32);
    assert_eq!(*world.resource::<u64, _>(), 42);
}

#[test]
fn dag_option_map() {
    fn root(_x: u32) -> Option<u64> {
        Some(10)
    }
    fn double(val: &u64) -> u64 {
        *val * 2
    }
    fn sink(out: &mut u64, val: &Option<u64>) {
        *out = val.unwrap_or(0);
    }
    let wb = WorldBuilder::new();
    let mut wb = wb.register::<u64>(0);
    let mut world = wb.build();
    let reg = world.registry();

    let mut dag = DagBuilder::<u32>::new()
        .root(root, reg)
        .map(double, reg)
        .then(sink, reg)
        .build();

    dag.run(&mut world, 0u32);
    assert_eq!(*world.resource::<u64, _>(), 20);
}

#[test]
fn dag_option_map_none() {
    fn root(_x: u32) -> Option<u64> {
        None
    }
    fn double(val: &u64) -> u64 {
        *val * 2
    }
    fn sink(out: &mut u64, val: &Option<u64>) {
        *out = val.unwrap_or(999);
    }
    let wb = WorldBuilder::new();
    let mut wb = wb.register::<u64>(0);
    let mut world = wb.build();
    let reg = world.registry();

    let mut dag = DagBuilder::<u32>::new()
        .root(root, reg)
        .map(double, reg)
        .then(sink, reg)
        .build();

    dag.run(&mut world, 0u32);
    assert_eq!(*world.resource::<u64, _>(), 999);
}

#[test]
fn dag_option_and_then() {
    fn root(_x: u32) -> Option<u64> {
        Some(5)
    }
    fn check(val: &u64) -> Option<u64> {
        if *val > 3 { Some(*val * 10) } else { None }
    }
    fn sink(out: &mut u64, val: &Option<u64>) {
        *out = val.unwrap_or(0);
    }
    let wb = WorldBuilder::new();
    let mut wb = wb.register::<u64>(0);
    let mut world = wb.build();
    let reg = world.registry();

    let mut dag = DagBuilder::<u32>::new()
        .root(root, reg)
        .and_then(check, reg)
        .then(sink, reg)
        .build();

    dag.run(&mut world, 0u32);
    assert_eq!(*world.resource::<u64, _>(), 50);
}

#[test]
fn dag_option_filter_keeps() {
    fn root(_x: u32) -> Option<u64> {
        Some(5)
    }
    fn sink(out: &mut u64, val: &Option<u64>) {
        *out = val.unwrap_or(0);
    }
    let wb = WorldBuilder::new();
    let mut wb = wb.register::<u64>(0);
    let mut world = wb.build();

    let mut dag = DagBuilder::<u32>::new()
        .root(root, world.registry())
        .filter(|v: &u64| *v > 3, world.registry())
        .then(sink, world.registry())
        .build();

    dag.run(&mut world, 0u32);
    assert_eq!(*world.resource::<u64, _>(), 5);
}

#[test]
fn dag_option_filter_drops() {
    fn root(_x: u32) -> Option<u64> {
        Some(5)
    }
    fn sink(out: &mut u64, val: &Option<u64>) {
        *out = val.unwrap_or(0);
    }
    let wb = WorldBuilder::new();
    let mut wb = wb.register::<u64>(0);
    let mut world = wb.build();

    let mut dag = DagBuilder::<u32>::new()
        .root(root, world.registry())
        .filter(|v: &u64| *v > 10, world.registry())
        .then(sink, world.registry())
        .build();

    dag.run(&mut world, 0u32);
    assert_eq!(*world.resource::<u64, _>(), 0);
}

#[test]
fn dag_option_on_none() {
    fn root(_x: u32) -> Option<u64> {
        None
    }
    fn sink(_val: &Option<u64>) {}
    let wb = WorldBuilder::new();
    let mut wb = wb.register::<bool>(false);
    let mut world = wb.build();
    let reg = world.registry();

    let mut dag = DagBuilder::<u32>::new()
        .root(root, reg)
        .on_none(
            |w: &mut World<_>| {
                *w.resource_mut::<bool, _>() = true;
            },
            reg,
        )
        .then(sink, reg)
        .build();

    dag.run(&mut world, 0u32);
    assert!(*world.resource::<bool, _>());
}

#[test]
fn dag_option_unwrap_or() {
    fn root(_x: u32) -> Option<u64> {
        None
    }
    fn sink(out: &mut u64, val: &u64) {
        *out = *val;
    }
    let wb = WorldBuilder::new();
    let mut wb = wb.register::<u64>(0);
    let mut world = wb.build();
    let reg = world.registry();

    let mut dag = DagBuilder::<u32>::new()
        .root(root, reg)
        .unwrap_or(42u64)
        .then(sink, reg)
        .build();

    dag.run(&mut world, 0u32);
    assert_eq!(*world.resource::<u64, _>(), 42);
}

#[test]
fn dag_option_ok_or() {
    fn root(_x: u32) -> Option<u64> {
        None
    }
    fn sink(out: &mut u64, val: &Result<u64, &str>) {
        *out = val.as_ref().map_or(999, |v| *v);
    }
    let wb = WorldBuilder::new();
    let mut wb = wb.register::<u64>(0);
    let mut world = wb.build();
    let reg = world.registry();

    let mut dag = DagBuilder::<u32>::new()
        .root(root, reg)
        .ok_or("missing")
        .then(sink, reg)
        .build();

    dag.run(&mut world, 0u32);
    assert_eq!(*world.resource::<u64, _>(), 999);
}

#[test]
fn dag_result_map() {
    fn root(_x: u32) -> Result<u64, &'static str> {
        Ok(10)
    }
    fn double(val: &u64) -> u64 {
        *val * 2
    }
    fn sink(out: &mut u64, val: &Result<u64, &str>) {
        *out = val.as_ref().copied().unwrap_or(0);
    }
    let wb = WorldBuilder::new();
    let mut wb = wb.register::<u64>(0);
    let mut world = wb.build();
    let reg = world.registry();

    let mut dag = DagBuilder::<u32>::new()
        .root(root, reg)
        .map(double, reg)
        .then(sink, reg)
        .build();

    dag.run(&mut world, 0u32);
    assert_eq!(*world.resource::<u64, _>(), 20);
}

#[test]
fn dag_result_and_then() {
    fn root(_x: u32) -> Result<u64, &'static str> {
        Ok(5)
    }
    fn check(val: &u64) -> Result<u64, &'static str> {
        if *val > 3 {
            Ok(*val * 10)
        } else {
            Err("too small")
        }
    }
    fn sink(out: &mut u64, val: &Result<u64, &str>) {
        *out = val.as_ref().copied().unwrap_or(0);
    }
    let wb = WorldBuilder::new();
    let mut wb = wb.register::<u64>(0);
    let mut world = wb.build();
    let reg = world.registry();

    let mut dag = DagBuilder::<u32>::new()
        .root(root, reg)
        .and_then(check, reg)
        .then(sink, reg)
        .build();

    dag.run(&mut world, 0u32);
    assert_eq!(*world.resource::<u64, _>(), 50);
}

#[test]
fn dag_result_catch() {
    fn root(_x: u32) -> Result<u64, String> {
        Err("oops".into())
    }
    fn handle_err(log: &mut String, err: &String) {
        *log = err.clone();
    }
    fn sink(out: &mut u64, val: &Option<u64>) {
        *out = val.unwrap_or(0);
    }
    let wb = WorldBuilder::new();
    let mut wb = wb.register::<u64>(0);
    let mut wb = wb.register::<String>(String::new());
    let mut world = wb.build();
    let reg = world.registry();

    let mut dag = DagBuilder::<u32>::new()
        .root(root, reg)
        .catch(handle_err, reg)
        .then(sink, reg)
        .build();

    dag.run(&mut world, 0u32);
    assert_eq!(*world.resource::<u64, _>(), 0);
    assert_eq!(world.resource::<String, _>().as_str(), "oops");
}

#[test]
fn dag_result_ok() {
    fn root(_x: u32) -> Result<u64, &'static str> {
        Err("fail")
    }
    fn sink(out: &mut u64, val: &Option<u64>) {
        *out = val.unwrap_or(0);
    }
    let wb = WorldBuilder::new();
    let mut wb = wb.register::<u64>(0);
    let mut world = wb.build();
    let reg = world.registry();

    let mut dag = DagBuilder::<u32>::new()
        .root(root, reg)
        .ok()
        .then(sink, reg)
        .build();

    dag.run(&mut world, 0u32);
    assert_eq!(*world.resource::<u64, _>(), 0);
}

#[test]
fn dag_result_unwrap_or_else() {
    fn root(_x: u32) -> Result<u64, &'static str> {
        Err("fail")
    }
    fn sink(out: &mut u64, val: &u64) {
        *out = *val;
    }
    let wb = WorldBuilder::new();
    let mut wb = wb.register::<u64>(0);
    let mut world = wb.build();
    let reg = world.registry();

    let mut dag = DagBuilder::<u32>::new()
        .root(root, reg)
        .unwrap_or_else(|_err: &str| 42u64, reg)
        .then(sink, reg)
        .build();

    dag.run(&mut world, 0u32);
    assert_eq!(*world.resource::<u64, _>(), 42);
}

#[test]
fn dag_result_map_err() {
    fn root(_x: u32) -> Result<u64, u32> {
        Err(5)
    }
    fn sink(out: &mut u64, val: &Result<u64, String>) {
        *out = match val {
            Ok(v) => *v,
            Err(e) => e.len() as u64,
        };
    }
    let wb = WorldBuilder::new();
    let mut wb = wb.register::<u64>(0);
    let mut world = wb.build();
    let reg = world.registry();

    let mut dag = DagBuilder::<u32>::new()
        .root(root, reg)
        .map_err(|e: u32| format!("err:{e}"), reg)
        .then(sink, reg)
        .build();

    dag.run(&mut world, 0u32);
    // "err:5".len() == 5
    assert_eq!(*world.resource::<u64, _>(), 5);
}

#[test]
fn dag_arm_combinators() {
    fn root(x: u32) -> u64 {
        x as u64 + 10
    }
    fn arm_step(val: &u64) -> Option<u64> {
        if *val > 5 { Some(*val * 3) } else { None }
    }
    fn double(val: &u64) -> u64 {
        *val * 2
    }
    fn merge_fn(a: &u64, b: &u64) -> String {
        format!("{a},{b}")
    }
    fn sink(out: &mut String, val: &String) {
        *out = val.clone();
    }
    let wb = WorldBuilder::new();
    let mut wb = wb.register::<String>(String::new());
    let mut world = wb.build();
    let reg = world.registry();

    // Arm 0: root → arm_step (Option) → unwrap_or(0)
    // Arm 1: root → double
    let mut dag = DagBuilder::<u32>::new()
        .root(root, reg)
        .fork()
        .arm(|a| a.then(arm_step, reg).unwrap_or(0u64))
        .arm(|b| b.then(double, reg))
        .merge(merge_fn, reg)
        .then(sink, reg)
        .build();

    dag.run(&mut world, 0u32);
    // root(0) = 10
    // arm0: 10 > 5 → Some(30) → unwrap → 30
    // arm1: 10 * 2 = 20
    assert_eq!(world.resource::<String, _>().as_str(), "30,20");
}

#[test]
fn dag_option_inspect() {
    fn root(_x: u32) -> Option<u64> {
        Some(42)
    }
    fn sink(out: &mut u64, val: &Option<u64>) {
        *out = val.unwrap_or(0);
    }
    let wb = WorldBuilder::new();
    let mut wb = wb.register::<u64>(0);
    let mut wb = wb.register::<bool>(false);
    let mut world = wb.build();
    let reg = world.registry();

    let mut dag = DagBuilder::<u32>::new()
        .root(root, reg)
        .inspect(
            |w: &mut World<_>, _val: &u64| {
                *w.resource_mut::<bool, _>() = true;
            },
            reg,
        )
        .then(sink, reg)
        .build();

    dag.run(&mut world, 0u32);
    assert_eq!(*world.resource::<u64, _>(), 42);
    assert!(*world.resource::<bool, _>());
}

#[test]
fn dag_guard_keeps() {
    fn root(x: u32) -> u64 {
        x as u64
    }
    fn sink(out: &mut u64, val: &Option<u64>) {
        *out = val.unwrap_or(0);
    }
    let wb = WorldBuilder::new();
    let mut wb = wb.register::<u64>(0);
    let mut world = wb.build();
    let reg = world.registry();

    let mut dag = DagBuilder::<u32>::new()
        .root(root, reg)
        .guard(|v: &u64| *v > 3, reg)
        .then(sink, reg)
        .build();

    dag.run(&mut world, 5u32);
    assert_eq!(*world.resource::<u64, _>(), 5);
}

#[test]
fn dag_guard_drops() {
    fn root(x: u32) -> u64 {
        x as u64
    }
    fn sink(out: &mut u64, val: &Option<u64>) {
        *out = val.unwrap_or(999);
    }
    let wb = WorldBuilder::new();
    let mut wb = wb.register::<u64>(0);
    let mut world = wb.build();
    let reg = world.registry();

    let mut dag = DagBuilder::<u32>::new()
        .root(root, reg)
        .guard(|v: &u64| *v > 10, reg)
        .then(sink, reg)
        .build();

    dag.run(&mut world, 5u32);
    assert_eq!(*world.resource::<u64, _>(), 999);
}

#[test]
fn dag_arm_guard() {
    fn root(x: u32) -> u64 {
        x as u64
    }
    fn double(val: &u64) -> u64 {
        *val * 2
    }
    fn merge_fn(a: &Option<u64>, b: &u64) -> String {
        format!("{:?},{}", a, b)
    }
    fn sink(out: &mut String, val: &String) {
        *out = val.clone();
    }
    let wb = WorldBuilder::new();
    let mut wb = wb.register::<String>(String::new());
    let mut world = wb.build();
    let reg = world.registry();

    // arm_a: guard drops (5 < 10), arm_b: runs normally
    let mut dag = DagBuilder::<u32>::new()
        .root(root, reg)
        .fork()
        .arm(|a| a.then(double, reg).guard(|v: &u64| *v > 100, reg))
        .arm(|b| b.then(double, reg))
        .merge(merge_fn, reg)
        .then(sink, reg)
        .build();

    dag.run(&mut world, 5u32);
    // arm_a: 10, guard fails → None. arm_b: 10.
    assert_eq!(world.resource::<String, _>().as_str(), "None,10");
}

#[test]
fn dag_tap_observes_without_changing() {
    fn root(x: u32) -> u64 {
        x as u64 * 2
    }
    fn sink(out: &mut u64, val: &u64) {
        *out = *val;
    }
    let wb = WorldBuilder::new();
    let mut wb = wb.register::<u64>(0);
    let mut wb = wb.register::<bool>(false);
    let mut world = wb.build();
    let reg = world.registry();

    let mut dag = DagBuilder::<u32>::new()
        .root(root, reg)
        .tap(
            |w: &mut World<_>, val: &u64| {
                // Side-effect: record that we observed the value.
                *w.resource_mut::<bool, _>() = *val == 10;
            },
            reg,
        )
        .then(sink, reg)
        .build();

    dag.run(&mut world, 5u32);
    assert_eq!(*world.resource::<u64, _>(), 10); // value passed through
    assert!(*world.resource::<bool, _>()); // tap fired
}

#[test]
fn dag_arm_tap() {
    fn root(x: u32) -> u64 {
        x as u64
    }
    fn double(val: &u64) -> u64 {
        *val * 2
    }
    fn merge_add(a: &u64, b: &u64) -> u64 {
        *a + *b
    }
    fn sink(out: &mut u64, val: &u64) {
        *out = *val;
    }
    let wb = WorldBuilder::new();
    let mut wb = wb.register::<u64>(0);
    let mut wb = wb.register::<bool>(false);
    let mut world = wb.build();
    let reg = world.registry();

    let mut dag = DagBuilder::<u32>::new()
        .root(root, reg)
        .fork()
        .arm(|a| {
            a.then(double, reg).tap(
                |w: &mut World<_>, _v: &u64| {
                    *w.resource_mut::<bool, _>() = true;
                },
                reg,
            )
        })
        .arm(|b| b.then(double, reg))
        .merge(merge_add, reg)
        .then(sink, reg)
        .build();

    dag.run(&mut world, 5u32);
    // arm_a: 10, arm_b: 10, merge: 20
    assert_eq!(*world.resource::<u64, _>(), 20);
    assert!(*world.resource::<bool, _>()); // tap in arm_a fired
}

#[test]
fn dag_route_true_arm() {
    fn root(x: u32) -> u64 {
        x as u64
    }
    fn double(val: &u64) -> u64 {
        *val * 2
    }
    fn triple(val: &u64) -> u64 {
        *val * 3
    }
    fn sink(out: &mut u64, val: &u64) {
        *out = *val;
    }
    let wb = WorldBuilder::new();
    let mut wb = wb.register::<u64>(0);
    let mut world = wb.build();
    let reg = world.registry();

    let arm_t = DagArmSeed::new().then(double, reg);
    let arm_f = DagArmSeed::new().then(triple, reg);

    let mut dag = DagBuilder::<u32>::new()
        .root(root, reg)
        .route(|v: &u64| *v > 3, reg, arm_t, arm_f)
        .then(sink, reg)
        .build();

    dag.run(&mut world, 5u32); // 5 > 3 → true arm → double → 10
    assert_eq!(*world.resource::<u64, _>(), 10);
}

#[test]
fn dag_route_false_arm() {
    fn root(x: u32) -> u64 {
        x as u64
    }
    fn double(val: &u64) -> u64 {
        *val * 2
    }
    fn triple(val: &u64) -> u64 {
        *val * 3
    }
    fn sink(out: &mut u64, val: &u64) {
        *out = *val;
    }
    let wb = WorldBuilder::new();
    let mut wb = wb.register::<u64>(0);
    let mut world = wb.build();
    let reg = world.registry();

    let arm_t = DagArmSeed::new().then(double, reg);
    let arm_f = DagArmSeed::new().then(triple, reg);

    let mut dag = DagBuilder::<u32>::new()
        .root(root, reg)
        .route(|v: &u64| *v > 10, reg, arm_t, arm_f)
        .then(sink, reg)
        .build();

    dag.run(&mut world, 5u32); // 5 <= 10 → false arm → triple → 15
    assert_eq!(*world.resource::<u64, _>(), 15);
}

#[test]
fn dag_route_nested() {
    fn root(x: u32) -> u64 {
        x as u64
    }
    fn pass(val: &u64) -> u64 {
        *val
    }
    fn add_100(val: &u64) -> u64 {
        *val + 100
    }
    fn add_200(val: &u64) -> u64 {
        *val + 200
    }
    fn add_300(val: &u64) -> u64 {
        *val + 300
    }
    fn sink(out: &mut u64, val: &u64) {
        *out = *val;
    }
    let wb = WorldBuilder::new();
    let mut wb = wb.register::<u64>(0);
    let mut world = wb.build();
    let reg = world.registry();

    // N-ary via nesting: <5 → +100, 5..10 → +200, >=10 → +300
    let inner_t = DagArmSeed::new().then(add_200, reg);
    let inner_f = DagArmSeed::new().then(add_300, reg);
    let outer_t = DagArmSeed::new().then(add_100, reg);
    let outer_f =
        DagArmSeed::new()
            .then(pass, reg)
            .route(|v: &u64| *v < 10, reg, inner_t, inner_f);

    let mut dag = DagBuilder::<u32>::new()
        .root(root, reg)
        .route(|v: &u64| *v < 5, reg, outer_t, outer_f)
        .then(sink, reg)
        .build();

    dag.run(&mut world, 3u32); // 3 < 5 → +100 → 103
    assert_eq!(*world.resource::<u64, _>(), 103);

    dag.run(&mut world, 7u32); // 7 >= 5, 7 < 10 → +200 → 207
    assert_eq!(*world.resource::<u64, _>(), 207);

    dag.run(&mut world, 15u32); // 15 >= 5, 15 >= 10 → +300 → 315
    assert_eq!(*world.resource::<u64, _>(), 315);
}

#[test]
fn dag_tee_side_effect_chain() {
    fn root(x: u32) -> u64 {
        x as u64 * 2
    }
    fn log_step(counter: &mut u32, _val: &u64) {
        *counter += 1;
    }
    fn sink(out: &mut u64, val: &u64) {
        *out = *val;
    }
    let wb = WorldBuilder::new();
    let mut wb = wb.register::<u64>(0);
    let mut wb = wb.register::<u32>(0);
    let mut world = wb.build();
    let reg = world.registry();

    let side = DagArmSeed::new().then(log_step, reg);

    let mut dag = DagBuilder::<u32>::new()
        .root(root, reg)
        .tee(side)
        .then(sink, reg)
        .build();

    dag.run(&mut world, 5u32);
    assert_eq!(*world.resource::<u64, _>(), 10); // value passed through
    assert_eq!(*world.resource::<u32, _>(), 1); // side-effect fired

    dag.run(&mut world, 7u32);
    assert_eq!(*world.resource::<u64, _>(), 14);
    assert_eq!(*world.resource::<u32, _>(), 2); // fired again
}

#[test]
fn dag_dedup_suppresses_unchanged() {
    fn root(x: u32) -> u64 {
        x as u64 / 2 // intentional integer division: 4→2, 5→2
    }
    fn sink(out: &mut u32, val: &Option<u64>) {
        if val.is_some() {
            *out += 1;
        }
    }
    let wb = WorldBuilder::new();
    let mut wb = wb.register::<u32>(0);
    let mut world = wb.build();
    let reg = world.registry();

    let mut dag = DagBuilder::<u32>::new()
        .root(root, reg)
        .dedup()
        .then(sink, reg)
        .build();

    dag.run(&mut world, 4u32); // 2 — first, Some
    assert_eq!(*world.resource::<u32, _>(), 1);

    dag.run(&mut world, 5u32); // 2 — same, None
    assert_eq!(*world.resource::<u32, _>(), 1);

    dag.run(&mut world, 6u32); // 3 — changed, Some
    assert_eq!(*world.resource::<u32, _>(), 2);
}

#[test]
fn dag_not() {
    fn root(x: u32) -> bool {
        x > 5
    }
    fn sink(out: &mut bool, val: &bool) {
        *out = *val;
    }
    let wb = WorldBuilder::new();
    let mut wb = wb.register::<bool>(false);
    let mut world = wb.build();
    let reg = world.registry();

    let mut dag = DagBuilder::<u32>::new()
        .root(root, reg)
        .not()
        .then(sink, reg)
        .build();

    dag.run(&mut world, 3u32); // 3 > 5 = false, not = true
    assert!(*world.resource::<bool, _>());

    dag.run(&mut world, 10u32); // 10 > 5 = true, not = false
    assert!(!*world.resource::<bool, _>());
}

#[test]
fn dag_and() {
    fn root(x: u32) -> bool {
        x > 5
    }
    fn sink(out: &mut bool, val: &bool) {
        *out = *val;
    }
    let wb = WorldBuilder::new();
    let mut wb = wb.register::<bool>(true); // "market open" flag
    let mut world = wb.build();
    let reg = world.registry();

    let mut dag = DagBuilder::<u32>::new()
        .root(root, reg)
        .and(|w: &mut World<_>| *w.resource::<bool, _>(), reg)
        .then(sink, reg)
        .build();

    dag.run(&mut world, 10u32); // true && true = true
    assert!(*world.resource::<bool, _>());

    *world.resource_mut::<bool, _>() = false; // close market
    dag.run(&mut world, 10u32); // true && false = false
    assert!(!*world.resource::<bool, _>());
}

#[test]
fn dag_or() {
    fn root(x: u32) -> bool {
        x > 5
    }
    fn sink(out: &mut bool, val: &bool) {
        *out = *val;
    }
    let wb = WorldBuilder::new();
    let mut wb = wb.register::<bool>(false);
    let mut world = wb.build();
    let reg = world.registry();

    let mut dag = DagBuilder::<u32>::new()
        .root(root, reg)
        .or(|w: &mut World<_>| *w.resource::<bool, _>(), reg)
        .then(sink, reg)
        .build();

    dag.run(&mut world, 3u32); // false || false = false
    assert!(!*world.resource::<bool, _>());

    *world.resource_mut::<bool, _>() = true;
    dag.run(&mut world, 3u32); // false || true = true
    assert!(*world.resource::<bool, _>());
}

#[test]
fn dag_xor() {
    fn root(x: u32) -> bool {
        x > 5
    }
    fn sink(out: &mut bool, val: &bool) {
        *out = *val;
    }
    let wb = WorldBuilder::new();
    let mut wb = wb.register::<bool>(true);
    let mut world = wb.build();
    let reg = world.registry();

    let mut dag = DagBuilder::<u32>::new()
        .root(root, reg)
        .xor(|w: &mut World<_>| *w.resource::<bool, _>(), reg)
        .then(sink, reg)
        .build();

    dag.run(&mut world, 10u32); // true ^ true = false
    assert!(!*world.resource::<bool, _>());
}
// Splat — tuple destructuring

#[test]
fn dag_splat2_on_chain() {
    let wb = WorldBuilder::new();
    let mut wb = wb.register::<u64>(0);
    let mut world = wb.build();
    let reg = world.registry();

    fn split(x: u32) -> (u32, u32) {
        (x, x * 2)
    }
    fn store(out: &mut u64, a: &u32, b: &u32) {
        *out = *a as u64 + *b as u64;
    }

    let mut dag = DagBuilder::<u32>::new()
        .root(split, reg)
        .splat()
        .then(store, reg)
        .build();

    dag.run(&mut world, 5u32);
    assert_eq!(*world.resource::<u64, _>(), 15); // 5 + 10
}

#[test]
fn dag_splat3_on_chain() {
    let wb = WorldBuilder::new();
    let mut wb = wb.register::<u64>(0);
    let mut world = wb.build();
    let reg = world.registry();

    fn split3(x: u32) -> (u32, u32, u32) {
        (x, x + 1, x + 2)
    }
    fn sum3(a: &u32, b: &u32, c: &u32) -> u64 {
        *a as u64 + *b as u64 + *c as u64
    }
    fn store(out: &mut u64, val: &u64) {
        *out = *val;
    }

    let mut dag = DagBuilder::<u32>::new()
        .root(split3, reg)
        .splat()
        .then(sum3, reg)
        .then(store, reg)
        .build();

    dag.run(&mut world, 10u32);
    assert_eq!(*world.resource::<u64, _>(), 33); // 10+11+12
}

#[test]
fn dag_splat2_with_param() {
    let wb = WorldBuilder::new();
    let mut wb = wb.register::<u64>(100);
    let mut world = wb.build();
    let reg = world.registry();

    fn split(x: u32) -> (u32, u32) {
        (x, x * 3)
    }
    fn add_base(base: &u64, a: &u32, b: &u32) -> u64 {
        *base + *a as u64 + *b as u64
    }
    fn store(out: &mut u64, val: &u64) {
        *out = *val;
    }

    let mut dag = DagBuilder::<u32>::new()
        .root(split, reg)
        .splat()
        .then(add_base, reg)
        .then(store, reg)
        .build();

    dag.run(&mut world, 5u32);
    assert_eq!(*world.resource::<u64, _>(), 120); // 100 + 5 + 15
}

#[test]
fn dag_splat_on_arm_start() {
    let wb = WorldBuilder::new();
    let mut wb = wb.register::<u64>(0);
    let mut world = wb.build();
    let reg = world.registry();

    fn split(x: u32) -> (u32, u32) {
        (x, x + 10)
    }
    fn sum2(a: &u32, b: &u32) -> u64 {
        *a as u64 + *b as u64
    }
    fn identity(x: &(u32, u32)) -> u64 {
        x.0 as u64 * x.1 as u64
    }
    fn merge_add(a: &u64, b: &u64) -> u64 {
        *a + *b
    }
    fn store(out: &mut u64, val: &u64) {
        *out = *val;
    }

    let mut dag = DagBuilder::<u32>::new()
        .root(split, reg)
        .fork()
        .arm(|a| a.splat().then(sum2, reg))
        .arm(|b| b.then(identity, reg))
        .merge(merge_add, reg)
        .then(store, reg)
        .build();

    dag.run(&mut world, 5u32);
    // arm_a: splat (5, 15) → sum2 = 20
    // arm_b: identity (5, 15) → 75
    // merge: 20 + 75 = 95
    assert_eq!(*world.resource::<u64, _>(), 95);
}

#[test]
fn dag_splat_on_arm() {
    let wb = WorldBuilder::new();
    let mut wb = wb.register::<u64>(0);
    let mut world = wb.build();
    let reg = world.registry();

    fn root_id(x: u32) -> u32 {
        x
    }
    fn make_pair(val: &u32) -> (u32, u32) {
        (*val, *val + 100)
    }
    fn sum2(a: &u32, b: &u32) -> u64 {
        *a as u64 + *b as u64
    }
    fn double(val: &u32) -> u64 {
        *val as u64 * 2
    }
    fn merge_add(a: &u64, b: &u64) -> u64 {
        *a + *b
    }
    fn store(out: &mut u64, val: &u64) {
        *out = *val;
    }

    let mut dag = DagBuilder::<u32>::new()
        .root(root_id, reg)
        .fork()
        .arm(|a| a.then(make_pair, reg).splat().then(sum2, reg))
        .arm(|b| b.then(double, reg))
        .merge(merge_add, reg)
        .then(store, reg)
        .build();

    dag.run(&mut world, 7u32);
    // arm_a: make_pair(7) = (7, 107), splat → sum2 = 114
    // arm_b: double(7) = 14
    // merge: 114 + 14 = 128
    assert_eq!(*world.resource::<u64, _>(), 128);
}

#[test]
fn dag_splat4_on_chain() {
    let wb = WorldBuilder::new();
    let mut wb = wb.register::<u64>(0);
    let mut world = wb.build();
    let reg = world.registry();

    fn split4(x: u32) -> (u32, u32, u32, u32) {
        (x, x + 1, x + 2, x + 3)
    }
    fn sum4(a: &u32, b: &u32, c: &u32, d: &u32) -> u64 {
        (*a + *b + *c + *d) as u64
    }
    fn store(out: &mut u64, val: &u64) {
        *out = *val;
    }

    let mut dag = DagBuilder::<u32>::new()
        .root(split4, reg)
        .splat()
        .then(sum4, reg)
        .then(store, reg)
        .build();

    dag.run(&mut world, 10u32);
    assert_eq!(*world.resource::<u64, _>(), 46); // 10+11+12+13
}

#[test]
fn dag_splat5_on_chain() {
    let wb = WorldBuilder::new();
    let mut wb = wb.register::<u64>(0);
    let mut world = wb.build();
    let reg = world.registry();

    fn split5(x: u32) -> (u8, u8, u8, u8, u8) {
        let x = x as u8;
        (x, x + 1, x + 2, x + 3, x + 4)
    }
        fn sum5(a: &u8, b: &u8, c: &u8, d: &u8, e: &u8) -> u64 {
        (*a as u64) + (*b as u64) + (*c as u64) + (*d as u64) + (*e as u64)
    }
    fn store(out: &mut u64, val: &u64) {
        *out = *val;
    }

    let mut dag = DagBuilder::<u32>::new()
        .root(split5, reg)
        .splat()
        .then(sum5, reg)
        .then(store, reg)
        .build();

    dag.run(&mut world, 1u32);
    assert_eq!(*world.resource::<u64, _>(), 15); // 1+2+3+4+5
}

#[test]
fn dag_splat_boxable() {
    let wb = WorldBuilder::new();
    let mut wb = wb.register::<u64>(0);
    let mut world = wb.build();
    let reg = world.registry();

    fn split(x: u32) -> (u32, u32) {
        (x, x * 2)
    }
    fn store(out: &mut u64, a: &u32, b: &u32) {
        *out = *a as u64 + *b as u64;
    }

    let dag = DagBuilder::<u32>::new()
        .root(split, reg)
        .splat()
        .then(store, reg)
        .build();

    let mut boxed: Box<dyn Handler<With<u64, ()>, u32>> = Box::new(dag);
    boxed.run(&mut world, 5u32);
    assert_eq!(*world.resource::<u64, _>(), 15);
}

#[test]
fn batch_dag_basic() {
    let wb = WorldBuilder::new();
    let mut wb = wb.register::<u64>(0);
    let mut world = wb.build();
    let reg = world.registry();

    fn double(x: u32) -> u64 {
        x as u64 * 2
    }
    fn store(out: &mut u64, val: &u64) {
        *out += *val;
    }

    let mut batch = DagBuilder::<u32>::new()
        .root(double, reg)
        .then(store, reg)
        .build_batch(8);

    batch.input_mut().extend([1, 2, 3]);
    batch.run(&mut world);

    assert_eq!(*world.resource::<u64, _>(), 12); // 2 + 4 + 6
    assert!(batch.input().is_empty());
}

#[test]
fn batch_dag_option_terminal() {
    let wb = WorldBuilder::new();
    let mut wb = wb.register::<u64>(0);
    let mut world = wb.build();
    let reg = world.registry();

    fn double(x: u32) -> u64 {
        x as u64 * 2
    }
    fn store(out: &mut u64, val: &u64) {
        *out += *val;
    }

    let mut batch = DagBuilder::<u32>::new()
        .root(double, reg)
        .guard(|val: &u64| *val > 5, reg)
        .map(store, reg)
        .unwrap_or(())
        .build_batch(8);

    batch.input_mut().extend([1, 2, 3, 4, 5]);
    batch.run(&mut world);

    // double: 2, 4, 6, 8, 10
    // guard keeps > 5: 6, 8, 10
    assert_eq!(*world.resource::<u64, _>(), 24); // 6 + 8 + 10
}

#[test]
fn batch_dag_buffer_reuse() {
    let wb = WorldBuilder::new();
    let mut wb = wb.register::<u64>(0);
    let mut world = wb.build();
    let reg = world.registry();

    fn double(x: u32) -> u64 {
        x as u64 * 2
    }
    fn store(out: &mut u64, val: &u64) {
        *out += *val;
    }

    let mut batch = DagBuilder::<u32>::new()
        .root(double, reg)
        .then(store, reg)
        .build_batch(8);

    batch.input_mut().extend([1, 2]);
    batch.run(&mut world);
    assert_eq!(*world.resource::<u64, _>(), 6); // 2 + 4
    assert!(batch.input().is_empty());

    batch.input_mut().extend([10, 20]);
    batch.run(&mut world);
    assert_eq!(*world.resource::<u64, _>(), 66); // 6 + 20 + 40
}

#[test]
fn batch_dag_retains_allocation() {
    let mut world = WorldBuilder::new().build();
    let reg = world.registry();

    fn noop(_x: u32) {}

    let mut batch = DagBuilder::<u32>::new().root(noop, reg).build_batch(64);

    batch.input_mut().extend([1, 2, 3]);
    batch.run(&mut world);

    assert!(batch.input().is_empty());
    assert!(batch.input_mut().capacity() >= 64);
}

#[test]
fn batch_dag_empty_is_noop() {
    let wb = WorldBuilder::new();
    let mut wb = wb.register::<u64>(0);
    let mut world = wb.build();
    let reg = world.registry();

    fn double(x: u32) -> u64 {
        x as u64 * 2
    }
    fn store(out: &mut u64, val: &u64) {
        *out += *val;
    }

    let mut batch = DagBuilder::<u32>::new()
        .root(double, reg)
        .then(store, reg)
        .build_batch(8);

    batch.run(&mut world);
    assert_eq!(*world.resource::<u64, _>(), 0);
}

#[test]
fn batch_dag_with_splat() {
    let wb = WorldBuilder::new();
    let mut wb = wb.register::<u64>(0);
    let mut world = wb.build();
    let reg = world.registry();

    fn split(x: u32) -> (u64, u64) {
        (x as u64, x as u64 * 10)
    }
    fn combine(a: &u64, b: &u64) -> u64 {
        *a + *b
    }
    fn store(out: &mut u64, val: &u64) {
        *out += *val;
    }

    let mut batch = DagBuilder::<u32>::new()
        .root(split, reg)
        .splat()
        .then(combine, reg)
        .then(store, reg)
        .build_batch(4);

    batch.input_mut().extend([1, 2]);
    batch.run(&mut world);

    // 1 → (1, 10) → 11, 2 → (2, 20) → 22
    assert_eq!(*world.resource::<u64, _>(), 33); // 11 + 22
}

#[test]
fn dag_then_conditional_basic() {
    fn root(x: u32) -> u64 {
        x as u64
    }
    fn sink(out: &mut u64, val: &u64) {
        *out = *val;
    }

    let wb = WorldBuilder::new();
    let mut wb = wb.register::<u64>(0);
    let mut world = wb.build();
    let reg = world.registry();

    let mut dag = DagBuilder::<u32>::new()
        .root(root, reg)
        .then(|val: &u64| if *val > 5 { *val * 10 } else { *val + 1 }, reg)
        .then(sink, reg)
        .build();

    dag.run(&mut world, 10u32); // 10 > 5 → 100
    assert_eq!(*world.resource::<u64, _>(), 100);

    dag.run(&mut world, 3u32); // 3 <= 5 → 4
    assert_eq!(*world.resource::<u64, _>(), 4);
}

#[test]
fn dag_then_conditional_3_way() {
    fn root(x: u32) -> u32 {
        x
    }
    fn sink(out: &mut u64, val: &u64) {
        *out = *val;
    }

    let wb = WorldBuilder::new();
    let mut wb = wb.register::<u64>(0);
    let mut world = wb.build();
    let reg = world.registry();

    let mut dag = DagBuilder::<u32>::new()
        .root(root, reg)
        .then(
            |val: &u32| match *val % 3 {
                0 => *val as u64 + 100,
                1 => *val as u64 + 200,
                _ => *val as u64 + 300,
            },
            reg,
        )
        .then(sink, reg)
        .build();

    dag.run(&mut world, 6u32); // 6 % 3 == 0 → 106
    assert_eq!(*world.resource::<u64, _>(), 106);

    dag.run(&mut world, 7u32); // 7 % 3 == 1 → 207
    assert_eq!(*world.resource::<u64, _>(), 207);

    dag.run(&mut world, 8u32); // 8 % 3 == 2 → 308
    assert_eq!(*world.resource::<u64, _>(), 308);
}

#[test]
fn dag_then_with_resolve_arm() {
    fn root(x: u32) -> u32 {
        x
    }
    fn double(val: &u32) -> u64 {
        *val as u64 * 2
    }
    fn triple(val: &u32) -> u64 {
        *val as u64 * 3
    }
    fn sink(out: &mut u64, val: &u64) {
        *out = *val;
    }

    let wb = WorldBuilder::new();
    let mut wb = wb.register::<u64>(0);
    let mut world = wb.build();
    let reg = world.registry();

    let mut arm_even = resolve_arm::<_, u32, u64, _, _>(double, reg);
    let mut arm_odd = resolve_arm::<_, u32, u64, _, _>(triple, reg);

    let mut dag = DagBuilder::<u32>::new()
        .root(root, reg)
        .then(
            move |world: &mut World<_>, val: &u32| {
                if (*val).is_multiple_of(2) {
                    arm_even.call(world, val)
                } else {
                    arm_odd.call(world, val)
                }
            },
            reg,
        )
        .then(sink, reg)
        .build();

    dag.run(&mut world, 4u32); // even → double → 8
    assert_eq!(*world.resource::<u64, _>(), 8);

    dag.run(&mut world, 5u32); // odd → triple → 15
    assert_eq!(*world.resource::<u64, _>(), 15);
}

#[test]
fn dag_resolve_arm_with_params() {
    fn root(x: u32) -> u32 {
        x
    }
    fn add_offset(offset: &i64, val: &u32) -> u64 {
        (*offset + *val as i64) as u64
    }
    fn plain_double(val: &u32) -> u64 {
        *val as u64 * 2
    }
    fn sink(out: &mut u64, val: &u64) {
        *out = *val;
    }

    let wb = WorldBuilder::new();
    let mut wb = wb.register::<u64>(0);
    let mut wb = wb.register::<i64>(100);
    let mut world = wb.build();
    let reg = world.registry();

    // Each arm resolves different params
    let mut arm_offset = resolve_arm::<_, u32, u64, _, _>(add_offset, reg);
    let mut arm_double = resolve_arm::<_, u32, u64, _, _>(plain_double, reg);

    let mut dag = DagBuilder::<u32>::new()
        .root(root, reg)
        .then(
            move |world: &mut World<_>, val: &u32| {
                if *val > 10 {
                    arm_offset.call(world, val)
                } else {
                    arm_double.call(world, val)
                }
            },
            reg,
        )
        .then(sink, reg)
        .build();

    dag.run(&mut world, 20u32); // > 10 → add_offset → 100 + 20 = 120
    assert_eq!(*world.resource::<u64, _>(), 120);

    dag.run(&mut world, 5u32); // <= 10 → double → 10
    assert_eq!(*world.resource::<u64, _>(), 10);
}

#[test]
fn dag_then_conditional_in_fork_arm() {
    fn root(x: u32) -> u32 {
        x
    }
    fn pass(val: &u32) -> u32 {
        *val
    }
    fn sink_u64(out: &mut u64, val: &u64) {
        *out = *val;
    }
    fn sink_i64(out: &mut i64, val: &u32) {
        *out = -(*val as i64);
    }

    let wb = WorldBuilder::new();
    let mut wb = wb.register::<u64>(0);
    let mut wb = wb.register::<i64>(0);
    let mut world = wb.build();
    let reg = world.registry();

    let mut dag = DagBuilder::<u32>::new()
        .root(root, reg)
        .fork()
        .arm(|a| {
            a.then(pass, reg)
                .then(
                    |val: &u32| {
                        if *val > 5 {
                            *val as u64 * 10
                        } else {
                            *val as u64
                        }
                    },
                    reg,
                )
                .then(sink_u64, reg)
        })
        .arm(|a| a.then(sink_i64, reg))
        .join()
        .build();

    dag.run(&mut world, 10u32); // arm0: 10 > 5 → 100, arm1: -10
    assert_eq!(*world.resource::<u64, _>(), 100);
    assert_eq!(*world.resource::<i64, _>(), -10);

    dag.run(&mut world, 3u32); // arm0: 3 <= 5 → 3, arm1: -3
    assert_eq!(*world.resource::<u64, _>(), 3);
    assert_eq!(*world.resource::<i64, _>(), -3);
}

#[test]
fn batch_dag_then_conditional() {
    fn root(x: u32) -> u32 {
        x
    }
    fn sink(out: &mut u64, val: &u64) {
        *out += *val;
    }

    let wb = WorldBuilder::new();
    let mut wb = wb.register::<u64>(0);
    let mut world = wb.build();
    let reg = world.registry();

    let mut batch = DagBuilder::<u32>::new()
        .root(root, reg)
        .then(
            |val: &u32| {
                if (*val).is_multiple_of(2) {
                    *val as u64 * 10
                } else {
                    *val as u64
                }
            },
            reg,
        )
        .then(sink, reg)
        .build_batch(8);

    batch.input_mut().extend([1, 2, 3, 4]);
    batch.run(&mut world);

    // 1 → 1, 2 → 20, 3 → 3, 4 → 40 = 64
    assert_eq!(*world.resource::<u64, _>(), 64);
}
// Scan combinator (DAG)

#[test]
fn dag_scan_arity0_closure() {
    let wb = WorldBuilder::new();
    let mut wb = wb.register::<u64>(0);
    let mut world = wb.build();
    let reg = world.registry();

    fn store(out: &mut u64, val: &u64) {
        *out = *val;
    }

    let mut dag = DagBuilder::<u64>::new()
        .root(|x: u64| x, reg)
        .scan(
            0u64,
            |acc: &mut u64, val: &u64| {
                *acc += val;
                *acc
            },
            reg,
        )
        .then(store, reg)
        .build();

    dag.run(&mut world, 10);
    assert_eq!(*world.resource::<u64, _>(), 10);
    dag.run(&mut world, 20);
    assert_eq!(*world.resource::<u64, _>(), 30);
    dag.run(&mut world, 5);
    assert_eq!(*world.resource::<u64, _>(), 35);
}

#[test]
fn dag_scan_named_fn_with_param() {
    let wb = WorldBuilder::new();
    let mut wb = wb.register::<u64>(100);
    let mut wb = wb.register::<String>(String::new());
    let mut world = wb.build();
    let reg = world.registry();

    fn threshold(limit: &u64, acc: &mut u64, val: &u64) -> Option<u64> {
        *acc += val;
        if *acc > *limit { Some(*acc) } else { None }
    }
    fn store_opt(out: &mut String, val: &Option<u64>) {
        *out = val
            .as_ref()
            .map_or_else(|| "below".into(), |v| format!("hit:{v}"));
    }

    let mut dag = DagBuilder::<u64>::new()
        .root(|x: u64| x, reg)
        .scan(0u64, threshold, reg)
        .then(store_opt, reg)
        .build();

    dag.run(&mut world, 50);
    assert_eq!(world.resource::<String, _>().as_str(), "below");
    dag.run(&mut world, 60);
    assert_eq!(world.resource::<String, _>().as_str(), "hit:110");
}

#[test]
fn dag_arm_scan() {
    let wb = WorldBuilder::new();
    let mut wb = wb.register::<u64>(0);
    let mut world = wb.build();
    let reg = world.registry();

    fn store(out: &mut u64, val: &u64) {
        *out = *val;
    }

    let scan_arm = DagArmSeed::<u64>::new()
        .then(|v: &u64| *v, reg)
        .scan(
            0u64,
            |acc: &mut u64, val: &u64| {
                *acc += val;
                *acc
            },
            reg,
        )
        .then(store, reg);

    let pass_arm = DagArmSeed::<u64>::new().then(|_: &u64| {}, reg);

    let mut dag = DagBuilder::<u64>::new()
        .root(|x: u64| x, reg)
        .fork()
        .arm(|_| scan_arm)
        .arm(|_| pass_arm)
        .merge(|(): &(), (): &()| {}, reg)
        .build();

    dag.run(&mut world, 10);
    assert_eq!(*world.resource::<u64, _>(), 10);
    dag.run(&mut world, 20);
    assert_eq!(*world.resource::<u64, _>(), 30);
}
// Build — Option<()> terminal

#[test]
fn dag_build_option_unit_terminal() {
    let wb = WorldBuilder::new();
    let mut wb = wb.register::<u64>(0);
    let mut world = wb.build();
    let reg = world.registry();

    // root takes by value (IntoStep), then .guard() produces Option
    fn check(x: u32) -> u64 {
        x as u64
    }
    fn store(out: &mut u64, val: &u64) {
        *out += *val;
    }

    // guard → Option<u64>, map(store) → Option<()>, build() should work
    let mut dag = DagBuilder::<u32>::new()
        .root(check, reg)
        .guard(|val: &u64| *val > 5, reg)
        .map(store, reg)
        .build();

    dag.run(&mut world, 3); // guard filters → None
    assert_eq!(*world.resource::<u64, _>(), 0);
    dag.run(&mut world, 7); // passes guard → stores 7
    assert_eq!(*world.resource::<u64, _>(), 7);
}
// Build — borrowed event type

#[test]
fn dag_build_borrowed_event_direct() {
    let wb = WorldBuilder::new();
    let mut wb = wb.register::<u64>(0);
    let mut world = wb.build();

    fn decode(msg: &[u8]) -> u64 {
        msg.len() as u64
    }
    fn store(out: &mut u64, val: &u64) {
        *out = *val;
    }

    // msg declared before dag so it outlives the DAG (drop order).
    let msg = vec![1u8, 2, 3];
    let reg = world.registry();
    let mut dag = DagBuilder::<&[u8]>::new()
        .root(decode, reg)
        .then(store, reg)
        .build();

    dag.run(&mut world, &msg);
    assert_eq!(*world.resource::<u64, _>(), 3);
}
