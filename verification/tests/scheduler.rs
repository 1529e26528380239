#![allow(dead_code, unused_variables, unused_mut)]
use nexus_rt::scheduler::SchedulerBuilder;
use nexus_rt::world::WorldBuilder;

fn increment(val: &mut u64) -> bool {
    *val += 1;
    true
}

fn set_flag(flag: &mut bool) -> bool {
    *flag = true;
    true
}

fn false_source() -> bool {
    false
}

fn should_not_run(val: &mut u64) -> bool {
    *val = 999;
    true
}

fn source(val: &mut u64) -> bool {
    *val += 1;
    *val <= 2
}

fn middle(val: &mut u64) -> bool {
    *val += 10;
    true
}

fn leaf(val: &mut u64) -> bool {
    *val += 100;
    true
}

fn double(val: &mut u64) -> bool {
    *val *= 2;
    true
}

#[test]
fn single_root_always_runs() {
    let builder = WorldBuilder::new();
    let mut builder = builder.register::<u64>(0);
    let reg = builder.registry();
    let mut scheduler = builder.install_driver(SchedulerBuilder::new().root(increment, reg));
    let mut world = builder.build();

    assert_eq!(scheduler.run(&mut world), 1);
    assert_eq!(*world.resource::<u64, _>(), 1);
}

#[test]
fn linear_chain_propagation() {
    let builder = WorldBuilder::new();
    let mut builder = builder.register::<u64>(0);
    let reg = builder.registry();
    let mut scheduler = builder.install_driver(
        SchedulerBuilder::new()
            .root(source, reg)
            .then(middle, reg)
            .then(leaf, reg),
    );
    let mut world = builder.build();

    assert_eq!(scheduler.run(&mut world), 3);
    assert_eq!(*world.resource::<u64, _>(), 111);
}

#[test]
fn propagation_stops_on_false() {
    let builder = WorldBuilder::new();
    let mut builder = builder.register::<u64>(0);
    let reg = builder.registry();
    let mut scheduler = builder.install_driver(
        SchedulerBuilder::new()
            .root(false_source, reg)
            .then(should_not_run, reg),
    );
    let mut world = builder.build();

    assert_eq!(scheduler.run(&mut world), 1);
    assert_eq!(*world.resource::<u64, _>(), 0);
}

#[test]
fn staged_diamond() {
    let builder = WorldBuilder::new();
    let mut builder = builder.register::<u64>(0);
    let mut builder = builder.register::<bool>(false);
    let reg = builder.registry();
    let mut scheduler = builder.install_driver(
        SchedulerBuilder::new()
            .root(increment, reg)
            .then((increment, set_flag), reg)
            .then(increment, reg),
    );
    let mut world = builder.build();

    assert_eq!(scheduler.run(&mut world), 4);
    assert!(*world.resource::<bool, _>());
    assert_eq!(*world.resource::<u64, _>(), 3);
}

#[test]
fn multiple_roots() {
    let builder = WorldBuilder::new();
    let mut builder = builder.register::<u64>(0);
    let reg = builder.registry();
    let mut scheduler = builder
        .install_driver(SchedulerBuilder::new().root((increment, increment, increment), reg));
    let mut world = builder.build();

    assert_eq!(scheduler.run(&mut world), 3);
    assert_eq!(*world.resource::<u64, _>(), 3);
}

#[test]
fn scheduler_does_not_bump_sequence() {
    let builder = WorldBuilder::new();
    let mut builder = builder.register::<u64>(0);
    let reg = builder.registry();
    let mut scheduler = builder.install_driver(SchedulerBuilder::new().root(increment, reg));
    let mut world = builder.build();

    let before = world.current_sequence();
    scheduler.run(&mut world);
    assert_eq!(world.current_sequence(), before);
}

#[test]
fn mutations_visible_downstream() {
    let builder = WorldBuilder::new();
    let mut builder = builder.register::<u64>(1);
    let reg = builder.registry();
    let mut scheduler =
        builder.install_driver(SchedulerBuilder::new().root(double, reg).then(double, reg));
    let mut world = builder.build();

    scheduler.run(&mut world);
    assert_eq!(*world.resource::<u64, _>(), 4);
}

#[test]
fn multi_system_stage_all_run() {
    let builder = WorldBuilder::new();
    let mut builder = builder.register::<u64>(0);
    let mut builder = builder.register::<bool>(false);
    let reg = builder.registry();
    let mut scheduler = builder
        .install_driver(SchedulerBuilder::new().root((increment, increment, set_flag), reg));
    let mut world = builder.build();

    assert_eq!(scheduler.run(&mut world), 3);
    assert_eq!(*world.resource::<u64, _>(), 2);
    assert!(*world.resource::<bool, _>());
}

#[test]
fn stage_propagation_any_semantics() {
    fn false_increment(val: &mut u64) -> bool {
        *val += 1;
        false
    }

    let builder = WorldBuilder::new();
    let mut builder = builder.register::<u64>(0);
    let reg = builder.registry();
    let mut scheduler = builder.install_driver(
        SchedulerBuilder::new()
            .root((false_increment, increment), reg)
            .then(increment, reg),
    );
    let mut world = builder.build();

    assert_eq!(scheduler.run(&mut world), 3);
    assert_eq!(*world.resource::<u64, _>(), 3);
}

#[test]
fn stage_propagation_all_false_stops() {
    fn false_increment(val: &mut u64) -> bool {
        *val += 1;
        false
    }

    let builder = WorldBuilder::new();
    let mut builder = builder.register::<u64>(0);
    let reg = builder.registry();
    let mut scheduler = builder.install_driver(
        SchedulerBuilder::new()
            .root((false_increment, false_increment), reg)
            .then(should_not_run, reg),
    );
    let mut world = builder.build();

    assert_eq!(scheduler.run(&mut world), 2);
    assert_eq!(*world.resource::<u64, _>(), 2);
}

#[test]
fn void_systems_in_stage() {
    fn void_increment(val: &mut u64) {
        *val += 1;
    }

    let builder = WorldBuilder::new();
    let mut builder = builder.register::<u64>(0);
    let reg = builder.registry();
    let mut scheduler = builder.install_driver(
        SchedulerBuilder::new()
            .root(void_increment, reg)
            .then(increment, reg),
    );
    let mut world = builder.build();

    assert_eq!(scheduler.run(&mut world), 2);
    assert_eq!(*world.resource::<u64, _>(), 2);
}

#[test]
fn mixed_bool_void_stage() {
    fn void_increment(val: &mut u64) {
        *val += 1;
    }

    fn false_increment(val: &mut u64) -> bool {
        *val += 1;
        false
    }

    let builder = WorldBuilder::new();
    let mut builder = builder.register::<u64>(0);
    let reg = builder.registry();
    let mut scheduler = builder.install_driver(
        SchedulerBuilder::new()
            .root((false_increment, void_increment), reg)
            .then(increment, reg),
    );
    let mut world = builder.build();

    assert_eq!(scheduler.run(&mut world), 3);
    assert_eq!(*world.resource::<u64, _>(), 3);
}

#[test]
fn scheduler_chain_is_send() {
    fn assert_send<T: Send>(_: &T) {}

    let builder = WorldBuilder::new();
    let mut builder = builder.register::<u64>(0);
    let mut builder = builder.register::<bool>(false);
    let reg = builder.registry();
    let scheduler = builder.install_driver(
        SchedulerBuilder::new()
            .root(increment, reg)
            .then((increment, set_flag), reg)
            .then(double, reg),
    );
    assert_send(&scheduler);
}

#[test]
fn three_stage_linear() {
    let builder = WorldBuilder::new();
    let mut builder = builder.register::<u64>(0);
    let mut builder = builder.register::<bool>(false);
    let reg = builder.registry();
    let mut scheduler = builder.install_driver(
        SchedulerBuilder::new()
            .root(increment, reg)
            .then((increment, set_flag), reg)
            .then(double, reg),
    );
    let mut world = builder.build();

    assert_eq!(scheduler.run(&mut world), 4);
    assert!(*world.resource::<bool, _>());
    // u64: 0 +1 (root) +1 (stage1) = 2, then *2 (stage2) = 4
    assert_eq!(*world.resource::<u64, _>(), 4);
}
