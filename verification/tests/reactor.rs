#![allow(dead_code, unused_variables, unused_mut)]
use nexus_rt::ctx_dag::CtxDagBuilder;
use nexus_rt::ctx_pipeline::CtxPipelineBuilder;
use nexus_rt::ctx_step::CtxStep;
use nexus_rt::handler::no_event;
use nexus_rt::notify::{Events, Token};
use nexus_rt::reactor::{DeferredRemovals, FromReactor, IntoReactor, PipelineReactor, Reactor, ReactorFn, ReactorNotify, ReactorSystem};
use nexus_rt::reactor_model::DataSource;
use nexus_rt::source_registry::{SourceMap, SourceRegistry};
use nexus_rt::world::{Here, Registry, There, With, World, WorldBuilder};
use std::collections::HashMap;
use std::marker::PhantomData;

type Resources<X> = With<DeferredRemovals, With<ReactorNotify<Any<X>>, X>>;

/// A reactor of any type.
struct Any<X>(Box<dyn FnMut(&mut World<Resources<X>>)>);

impl<X> Reactor<Resources<X>> for Any<X> {
    fn run_pre(&self, _world: World<Resources<X>>) -> bool {
        true
    }

    fn run_post(&self, _world: World<Resources<X>>, _after: &Self, _world_after: World<Resources<X>>) -> bool {
        true
    }

    fn run(&mut self, world: &mut World<Resources<X>>) {
        (self.0)(world)
    }
}

impl<X, T: Reactor<Resources<X>> + 'static> FromReactor<T, ()> for Any<X> {
    fn of(reactor: T) -> Self {
        Self::from_reactor(reactor)
    }

    fn from_reactor(mut reactor: T) -> Self {
        Any(Box::new(move |world| reactor.run(world)))
    }
}

fn notify_mut<X>(world: &mut World<Resources<X>>) -> &mut ReactorNotify<Any<X>> {
    world.resource_mut::<ReactorNotify<Any<X>>, There<Here>>()
}

fn registry_of<R>(_world: &World<R>) -> Registry<R> {
    Registry { marker: PhantomData }
}

type Dummy = ReactorFn<(), CtxStep<fn(&mut ()), (), ()>>;

fn dummy_reactor() -> Dummy {
    ReactorFn {
        ctx: (),
        step: CtxStep {
            f: (|(): &mut ()| {}) as fn(&mut ()),
            params: PhantomData,
        },
        name: "dummy",
    }
}

#[test]
fn reactor_fn_arity0() {
    let wb = WorldBuilder::new();
    let mut world = wb.build();
    let reg = &registry_of(&world);

    struct Ctx {
        count: u32,
    }

    fn step(ctx: &mut Ctx) {
        ctx.count += 1;
    }

    let mut reactor = step.into_reactor(Ctx { count: 0 }, reg);
    reactor.run(&mut world);
    assert_eq!(reactor.ctx.count, 1);
}

#[test]
fn reactor_fn_with_params() {
    let wb = WorldBuilder::new();
    let mut wb = wb.register::<u64>(10);
    let mut wb = wb.register::<u32>(0);
    let mut world = wb.build();
    let reg = &registry_of(&world);

    struct Ctx {
        multiplier: u64,
    }

    fn step(ctx: &mut Ctx, val: &u64, out: &mut u32) {
        *out = (*val * ctx.multiplier) as u32;
    }

    let mut reactor = step.into_reactor(Ctx { multiplier: 5 }, reg);
    reactor.run(&mut world);
    assert_eq!(*world.resource::<u32, _>(), 50);
}

#[test]
fn reactor_notify_mark_fans_out() {
    let mut notify = ReactorNotify::<Dummy>::new(4, 8);
    let mut events = Events::with_capacity(8);

    let src = notify.register_source();
    let a1 = notify.register_built(dummy_reactor()).token();
    let a2 = notify.register_built(dummy_reactor()).token();
    let _a3 = notify.register_built(dummy_reactor()).token();

    notify.subscribe(a1, src);
    notify.subscribe(a2, src);
    // _a3 not subscribed

    notify.mark(src);
    notify.poll(&mut events);

    assert_eq!(events.len(), 2);
    assert!(events.as_slice().contains(&a1));
    assert!(events.as_slice().contains(&a2));
}

#[test]
fn reactor_notify_dedup_across_sources() {
    let mut notify = ReactorNotify::<Dummy>::new(4, 8);
    let mut events = Events::with_capacity(8);

    let src1 = notify.register_source();
    let src2 = notify.register_source();
    let reactor = notify.register_built(dummy_reactor()).token();

    notify.subscribe(reactor, src1);
    notify.subscribe(reactor, src2);

    notify.mark(src1);
    notify.mark(src2);

    notify.poll(&mut events);
    assert_eq!(events.len(), 1);
    assert_eq!(events.as_slice()[0], reactor);
}

#[test]
fn reactor_notify_remove_reactor() {
    let mut notify = ReactorNotify::<ReactorFn<Ctx, CtxStep<fn(&mut Ctx), (), ()>>>::new(4, 8);
    let mut events = Events::with_capacity(8);

    let src = notify.register_source();

    struct Ctx;
    let token = notify
        .register_built(ReactorFn {
            ctx: Ctx,
            step: CtxStep {
                f: (|_: &mut Ctx| {}) as fn(&mut Ctx),
                params: PhantomData,
            },
            name: "test",
        })
        .token();
    notify.subscribe(token, src);

    notify.remove_reactor(token);
    notify.mark(src);
    notify.poll(&mut events);
    assert!(events.is_empty());
}

#[test]
fn reactor_system_dispatch() {
    let wb = WorldBuilder::new();
    let mut wb = wb.register::<u64>(0);
    let mut wb = wb.register(ReactorNotify::<Any<With<u64, ()>>>::new(4, 8));
    let mut wb = wb.register(DeferredRemovals::default());
    let mut world = wb.build();
    let reg = &registry_of(&world);

    let mut system = ReactorSystem::new(&world);

    struct Ctx {
        _reactor_id: Token,
        increment: u64,
    }

    fn step(ctx: &mut Ctx, val: &mut u64) {
        *val += ctx.increment;
    }

    let notify = notify_mut(&mut world);
    let src = notify.register_source();
    notify
        .register(
            |t| Ctx {
                _reactor_id: t,
                increment: 10,
            },
            step,
            reg,
        )
        .subscribe(src);
    notify
        .register(
            |t| Ctx {
                _reactor_id: t,
                increment: 5,
            },
            step,
            reg,
        )
        .subscribe(src);

    // Mark and dispatch
    notify_mut(&mut world).mark(src);
    let ran = system.dispatch(&mut world);

    assert!(ran);
    assert_eq!(*world.resource::<u64, _>(), 15); // 10 + 5
}

#[test]
fn reactor_system_deferred_removal() {
    let wb = WorldBuilder::new();
    let mut wb = wb.register::<u64>(0);
    let mut wb = wb.register(ReactorNotify::<Any<With<u64, ()>>>::new(4, 8));
    let mut wb = wb.register(DeferredRemovals::default());
    let mut world = wb.build();
    let reg = &registry_of(&world);

    let mut system = ReactorSystem::new(&world);

    struct Ctx {
        reactor_id: Token,
        runs: u64,
    }

    fn step(ctx: &mut Ctx, val: &mut u64, removals: &mut DeferredRemovals) {
        *val += 1;
        ctx.runs += 1;
        if ctx.runs >= 2 {
            removals.deregister(ctx.reactor_id);
        }
    }

    let notify = notify_mut(&mut world);
    let src = notify.register_source();
    notify
        .register(
            |t| Ctx {
                reactor_id: t,
                runs: 0,
            },
            step,
            reg,
        )
        .subscribe(src);

    assert_eq!(system.reactor_count(&world), 1);

    // Frame 1 — reactor runs, runs=1, no removal
    notify_mut(&mut world).mark(src);
    system.dispatch(&mut world);
    assert_eq!(*world.resource::<u64, _>(), 1);
    assert_eq!(system.reactor_count(&world), 1);

    // Frame 2 — reactor runs, runs=2, deregisters
    notify_mut(&mut world).mark(src);
    system.dispatch(&mut world);
    assert_eq!(*world.resource::<u64, _>(), 2);
    assert_eq!(system.reactor_count(&world), 0);

    // Frame 3 — no reactors, nothing runs
    notify_mut(&mut world).mark(src);
    let ran = system.dispatch(&mut world);
    assert!(!ran);
    assert_eq!(*world.resource::<u64, _>(), 2);
}

#[test]
fn reactor_system_only_subscribed_wake() {
    let wb = WorldBuilder::new();
    let mut wb = wb.register::<u64>(0);
    let mut wb = wb.register(ReactorNotify::<Any<With<u64, ()>>>::new(4, 8));
    let mut wb = wb.register(DeferredRemovals::default());
    let mut world = wb.build();
    let reg = &registry_of(&world);

    let mut system = ReactorSystem::new(&world);

    struct Ctx {
        _reactor_id: Token,
        value: u64,
    }

    fn step(ctx: &mut Ctx, out: &mut u64) {
        *out += ctx.value;
    }

    let notify = notify_mut(&mut world);
    let btc = notify.register_source();
    let eth = notify.register_source();

    notify
        .register(
            |t| Ctx {
                _reactor_id: t,
                value: 10,
            },
            step,
            reg,
        )
        .subscribe(btc);
    notify
        .register(
            |t| Ctx {
                _reactor_id: t,
                value: 100,
            },
            step,
            reg,
        )
        .subscribe(eth);

    // Only BTC fires — only reactor 1 runs
    notify_mut(&mut world).mark(btc);
    system.dispatch(&mut world);
    assert_eq!(*world.resource::<u64, _>(), 10);

    // ETH fires — reactor 2 runs
    notify_mut(&mut world).mark(eth);
    system.dispatch(&mut world);
    assert_eq!(*world.resource::<u64, _>(), 110);
}

#[test]
fn runtime_registration() {
    let wb = WorldBuilder::new();
    let mut wb = wb.register::<u64>(0);
    let mut wb = wb.register(ReactorNotify::<Any<With<u64, ()>>>::new(4, 8));
    let mut wb = wb.register(DeferredRemovals::default());
    let mut world = wb.build();

    let mut system = ReactorSystem::new(&world);

    struct Ctx {
        _reactor_id: Token,
        value: u64,
    }

    fn step(ctx: &mut Ctx, out: &mut u64) {
        *out += ctx.value;
    }

    // Register source and first reactor at setup
    let src = {
        let reg = &registry_of(&world);
        let notify = notify_mut(&mut world);
        let src = notify.register_source();
        notify
            .register(
                |t| Ctx {
                    _reactor_id: t,
                    value: 10,
                },
                step,
                reg,
            )
            .subscribe(src);
        src
    };

    // Frame 1 — one reactor
    notify_mut(&mut world).mark(src);
    system.dispatch(&mut world);
    assert_eq!(*world.resource::<u64, _>(), 10);

    // Runtime registration (simulates admin command handler)
    {
        let reg = &registry_of(&world);
        notify_mut(&mut world)
            .register(
                |t| Ctx {
                    _reactor_id: t,
                    value: 100,
                },
                step,
                reg,
            )
            .subscribe(src);
    }

    // Frame 2 — both reactors fire
    notify_mut(&mut world).mark(src);
    system.dispatch(&mut world);
    assert_eq!(*world.resource::<u64, _>(), 120); // 10 + 10 + 100
}

#[test]
fn register_after_remove_reuses_key() {
    let wb = WorldBuilder::new();
    let mut wb = wb.register::<u64>(0);
    let mut wb = wb.register(ReactorNotify::<Any<With<u64, ()>>>::new(4, 8));
    let mut wb = wb.register(DeferredRemovals::default());
    let mut world = wb.build();

    let mut system = ReactorSystem::new(&world);

    struct Ctx {
        reactor_id: Token,
        value: u64,
    }

    fn step(ctx: &mut Ctx, out: &mut u64, removals: &mut DeferredRemovals) {
        *out += ctx.value;
        if ctx.value == 10 {
            removals.deregister(ctx.reactor_id);
        }
    }

    let src = {
        let reg = &registry_of(&world);
        let notify = notify_mut(&mut world);
        let src = notify.register_source();
        notify
            .register(
                |t| Ctx {
                    reactor_id: t,
                    value: 10,
                },
                step,
                reg,
            )
            .subscribe(src);
        src
    };

    // Frame 1 — reactor runs and deregisters itself
    notify_mut(&mut world).mark(src);
    system.dispatch(&mut world);
    assert_eq!(*world.resource::<u64, _>(), 10);
    assert_eq!(system.reactor_count(&world), 0);

    // Register a NEW reactor — should reuse key 0
    {
        let reg = &registry_of(&world);
        let notify = notify_mut(&mut world);
        let token = notify
            .register(
                |t| Ctx {
                    reactor_id: t,
                    value: 100,
                },
                step,
                reg,
            )
            .token();
        notify.subscribe(token, src);
        assert_eq!(token.index(), 0); // slab reused key 0
    }

    // Frame 2 — new reactor runs correctly
    notify_mut(&mut world).mark(src);
    system.dispatch(&mut world);
    assert_eq!(*world.resource::<u64, _>(), 110); // 10 + 100
    assert_eq!(system.reactor_count(&world), 1); // still alive (value != 10)
}

#[test]
fn reactor_can_access_actor_notify() {
    // A reactor is out of its slot while it runs, and may look at the others.
    let wb = WorldBuilder::new();
    let mut wb = wb.register::<u64>(0);
    let mut wb = wb.register(ReactorNotify::<Any<With<u64, ()>>>::new(4, 8));
    let mut wb = wb.register(DeferredRemovals::default());
    let mut world = wb.build();

    let mut system = ReactorSystem::new(&world);

    struct Ctx {
        _reactor_id: Token,
    }

    fn step(_ctx: &mut Ctx, notify: &mut ReactorNotify<Any<With<u64, ()>>>, out: &mut u64) {
        *out = notify.reactor_count() as u64;
    }

    let src = {
        let reg = &registry_of(&world);
        let notify = notify_mut(&mut world);
        let src = notify.register_source();
        notify
            .register(|t| Ctx { _reactor_id: t }, step, reg)
            .subscribe(src);
        src
    };

    notify_mut(&mut world).mark(src);
    system.dispatch(&mut world);
    // The slot of the reactor that runs stays in use.
    assert_eq!(*world.resource::<u64, _>(), 1);
}

#[test]
fn multi_instrument_with_shared_source() {
    // Pattern: per-instrument market data sources + a shared "positions"
    // source. Quoting reactors subscribe to their instrument + positions.
    let wb = WorldBuilder::new();
    let mut wb = wb.register::<u64>(0);
    let mut wb = wb.register(ReactorNotify::<Any<With<u64, ()>>>::new(8, 16));
    let mut wb = wb.register(DeferredRemovals::default());
    let mut world = wb.build();
    let mut system = ReactorSystem::new(&world);

    struct Ctx {
        _reactor_id: Token,
        instrument: &'static str,
    }

    fn step(ctx: &mut Ctx, out: &mut u64) {
        // Each reactor increments by its instrument's "value"
        *out += match ctx.instrument {
            "BTC" => 100,
            "ETH" => 10,
            "SOL" => 1,
            _ => 0,
        };
    }

    let (btc_md, eth_md, sol_md, positions) = {
        let reg = &registry_of(&world);
        let notify = notify_mut(&mut world);

        // Per-instrument data sources
        let btc_md = notify.register_source();
        let eth_md = notify.register_source();
        let sol_md = notify.register_source();
        // Shared source
        let positions = notify.register_source();

        // BTC reactor: subscribes to btc_md + positions
        notify
            .register(
                |t| Ctx {
                    _reactor_id: t,
                    instrument: "BTC",
                },
                step,
                reg,
            )
            .subscribe(btc_md)
            .subscribe(positions);

        // ETH reactor: subscribes to eth_md + positions
        notify
            .register(
                |t| Ctx {
                    _reactor_id: t,
                    instrument: "ETH",
                },
                step,
                reg,
            )
            .subscribe(eth_md)
            .subscribe(positions);

        // SOL reactor: subscribes to sol_md + positions
        notify
            .register(
                |t| Ctx {
                    _reactor_id: t,
                    instrument: "SOL",
                },
                step,
                reg,
            )
            .subscribe(sol_md)
            .subscribe(positions);

        (btc_md, eth_md, sol_md, positions)
    };

    // Only BTC data changes — only BTC reactor wakes
    notify_mut(&mut world).mark(btc_md);
    system.dispatch(&mut world);
    assert_eq!(*world.resource::<u64, _>(), 100);

    // Position update — ALL reactors wake (shared source), deduped
    notify_mut(&mut world).mark(positions);
    system.dispatch(&mut world);
    assert_eq!(*world.resource::<u64, _>(), 211); // 100 + 100 + 10 + 1

    // BTC + ETH data change in same frame — both reactors wake once
    notify_mut(&mut world).mark(btc_md);
    notify_mut(&mut world).mark(eth_md);
    system.dispatch(&mut world);
    assert_eq!(*world.resource::<u64, _>(), 321); // 211 + 100 + 10

    // BTC data + position in same frame — BTC reactor wakes ONCE (dedup)
    notify_mut(&mut world).mark(btc_md);
    notify_mut(&mut world).mark(positions);
    system.dispatch(&mut world);
    // BTC: 100 (deduped, only once), ETH: 10, SOL: 1
    assert_eq!(*world.resource::<u64, _>(), 432); // 321 + 100 + 10 + 1

    // Nothing fires — no reactors wake
    let ran = system.dispatch(&mut world);
    assert!(!ran);
    assert_eq!(*world.resource::<u64, _>(), 432);

    // SOL data only — only SOL reactor
    notify_mut(&mut world).mark(sol_md);
    system.dispatch(&mut world);
    assert_eq!(*world.resource::<u64, _>(), 433);
}

#[test]
fn per_reactor_fill_routing() {
    // Pattern: each reactor gets its own DataSource for fill routing.
    // Wire protocol embeds the token index in the order client_id.
    // When a fill arrives, the handler marks the reactor's source directly.

    let wb = WorldBuilder::new();
    let mut wb = wb.register::<u64>(0);
    let mut wb = wb.register(ReactorNotify::<Any<With<u64, ()>>>::new(8, 16));
    let mut wb = wb.register(DeferredRemovals::default());
    let mut world = wb.build();
    let mut system = ReactorSystem::new(&world);

    struct Ctx {
        reactor_id: Token,
    }

    fn step(ctx: &mut Ctx, out: &mut u64) {
        *out += ctx.reactor_id.index() as u64 + 1;
    }

    // Routing table: token index → reactor's fill source
    let mut fill_sources: HashMap<usize, DataSource> = HashMap::new();

    {
        let reg = &registry_of(&world);
        let notify = notify_mut(&mut world);

        for _ in 0..3 {
            // Each reactor gets its own fill source
            let fill_src = notify.register_source();
            let token = notify
                .register(|t| Ctx { reactor_id: t }, step, reg)
                .subscribe(fill_src)
                .token();

            fill_sources.insert(token.index(), fill_src);
        }
    }

    // Simulate fill arriving for reactor 1 — look up its source by wire ID
    let wire_client_id: usize = 1;
    let fill_source = fill_sources[&wire_client_id];
    notify_mut(&mut world).mark(fill_source);
    system.dispatch(&mut world);
    // Only reactor 1 ran: token.index()=1, so += 2
    assert_eq!(*world.resource::<u64, _>(), 2);

    // Fill for reactor 0
    let fill_source = fill_sources[&0];
    notify_mut(&mut world).mark(fill_source);
    system.dispatch(&mut world);
    // Reactor 0: token.index()=0, += 1
    assert_eq!(*world.resource::<u64, _>(), 3);
}

#[test]
fn dynamic_source_registration() {
    // Pattern: data sources added at runtime when new instruments
    // come online. Reactors registered and subscribed dynamically.
    let wb = WorldBuilder::new();
    let mut wb = wb.register::<u64>(0);
    let mut wb = wb.register(ReactorNotify::<Any<With<u64, ()>>>::new(4, 8));
    let mut wb = wb.register(DeferredRemovals::default());
    let mut world = wb.build();
    let mut system = ReactorSystem::new(&world);

    struct Ctx {
        _reactor_id: Token,
        value: u64,
    }

    fn step(ctx: &mut Ctx, out: &mut u64) {
        *out += ctx.value;
    }

    // Start with just BTC
    let btc_md = {
        let reg = &registry_of(&world);
        let notify = notify_mut(&mut world);
        let btc_md = notify.register_source();
        notify
            .register(
                |t| Ctx {
                    _reactor_id: t,
                    value: 10,
                },
                step,
                reg,
            )
            .subscribe(btc_md);
        btc_md
    };

    notify_mut(&mut world).mark(btc_md);
    system.dispatch(&mut world);
    assert_eq!(*world.resource::<u64, _>(), 10);

    // Runtime: new instrument comes online — register source + reactor
    let eth_md = {
        let reg = &registry_of(&world);
        let notify = notify_mut(&mut world);
        let eth_md = notify.register_source();
        notify
            .register(
                |t| Ctx {
                    _reactor_id: t,
                    value: 100,
                },
                step,
                reg,
            )
            .subscribe(eth_md);
        eth_md
    };

    // Both instruments fire
    notify_mut(&mut world).mark(btc_md);
    notify_mut(&mut world).mark(eth_md);
    system.dispatch(&mut world);
    assert_eq!(*world.resource::<u64, _>(), 120); // 10 + 10 + 100
}

#[test]
fn remove_source_and_reuse_slot() {
    let wb = WorldBuilder::new();
    let mut wb = wb.register::<u64>(0);
    let mut wb = wb.register(ReactorNotify::<Any<With<u64, ()>>>::new(4, 8));
    let mut wb = wb.register(DeferredRemovals::default());
    let mut world = wb.build();
    let mut system = ReactorSystem::new(&world);

    struct Ctx {
        _reactor_id: Token,
        value: u64,
    }

    fn step(ctx: &mut Ctx, out: &mut u64) {
        *out += ctx.value;
    }

    // Register two sources
    let (src_a, src_b) = {
        let reg = &registry_of(&world);
        let notify = notify_mut(&mut world);
        let src_a = notify.register_source();
        let src_b = notify.register_source();
        notify
            .register(
                |t| Ctx {
                    _reactor_id: t,
                    value: 10,
                },
                step,
                reg,
            )
            .subscribe(src_a);
        notify
            .register(
                |t| Ctx {
                    _reactor_id: t,
                    value: 100,
                },
                step,
                reg,
            )
            .subscribe(src_b);
        (src_a, src_b)
    };

    // Remove source A
    notify_mut(&mut world).remove_source(src_a);

    // Marking removed source is a no-op
    notify_mut(&mut world).mark(src_a);
    let ran = system.dispatch(&mut world);
    assert!(!ran);

    // Source B still works
    notify_mut(&mut world).mark(src_b);
    system.dispatch(&mut world);
    assert_eq!(*world.resource::<u64, _>(), 100);

    // Register a new source — should reuse slot 0
    let src_c = notify_mut(&mut world).register_source();
    assert_eq!(src_c.0, src_a.0); // slab reused the slot

    // Subscribe reactor to new source and verify it works
    let reg = &registry_of(&world);
    let notify = notify_mut(&mut world);
    notify
        .register(
            |t| Ctx {
                _reactor_id: t,
                value: 1,
            },
            step,
            reg,
        )
        .subscribe(src_c);

    notify_mut(&mut world).mark(src_c);
    system.dispatch(&mut world);
    assert_eq!(*world.resource::<u64, _>(), 101); // 100 + 1
}

#[test]
fn source_registry_basic() {
    let mut registry = SourceRegistry::new().with_keys::<InstrumentId>();

    #[derive(Hash, Eq, PartialEq, Debug)]
    struct InstrumentId(u32);

    let src_a = DataSource(0);
    let src_b = DataSource(1);

    registry.insert(InstrumentId(1), src_a);
    registry.insert(InstrumentId(2), src_b);

    assert_eq!(registry.get(&InstrumentId(1)), Some(src_a));
    assert_eq!(registry.get(&InstrumentId(2)), Some(src_b));
    assert_eq!(registry.get(&InstrumentId(3)), None);
    assert!(registry.contains(&InstrumentId(1)));
    assert!(!registry.contains(&InstrumentId(3)));
}

#[test]
fn source_registry_multiple_key_types() {
    let mut registry = SourceRegistry::new()
        .with_keys::<InstrumentId>()
        .with_keys::<StrategyId>();

    #[derive(Hash, Eq, PartialEq)]
    struct InstrumentId(u32);

    #[derive(Hash, Eq, PartialEq)]
    struct StrategyId(u32);

    let src_a = DataSource(0);
    let src_b = DataSource(1);

    // Same registry, different key types
    registry.insert(InstrumentId(1), src_a);
    registry.insert(StrategyId(1), src_b);

    // Different type namespaces — same inner value (1), different results
    assert_eq!(registry.get(&InstrumentId(1)), Some(src_a));
    assert_eq!(registry.get(&StrategyId(1)), Some(src_b));
}

#[test]
fn source_registry_tuple_keys() {
    let mut registry = SourceRegistry::new().with_keys::<(&'static str, &'static str)>();

    let src = DataSource(42);
    registry.insert(("BTC", "Binance"), src);

    assert_eq!(registry.get(&("BTC", "Binance")), Some(src));
    assert_eq!(registry.get(&("ETH", "Binance")), None);
}

#[test]
fn source_registry_remove() {
    let mut registry = SourceRegistry::new().with_keys::<u64>();

    let src = DataSource(0);
    registry.insert(42u64, src);

    assert_eq!(registry.remove(&42u64), Some(src));
    assert_eq!(registry.get(&42u64), None);
    assert_eq!(registry.remove(&42u64), None); // already gone
}

#[test]
fn source_registry_integrated_with_reactor_system() {
    type Sources = SourceRegistry<With<SourceMap<Instrument>, ()>>;

    let wb = WorldBuilder::new();
    let mut wb = wb.register::<u64>(0);
    let mut wb = wb.register(SourceRegistry::new().with_keys::<Instrument>());
    let mut wb = wb.register(ReactorNotify::<Any<With<Sources, With<u64, ()>>>>::new(4, 8));
    let mut wb = wb.register(DeferredRemovals::default());
    let mut world = wb.build();
    let mut system = ReactorSystem::new(&world);

    #[derive(Hash, Eq, PartialEq, Clone, Copy)]
    struct Instrument(u32);
    const BTC: Instrument = Instrument(0);
    const ETH: Instrument = Instrument(1);

    struct Ctx {
        _reactor_id: Token,
        value: u64,
    }

    fn step(ctx: &mut Ctx, out: &mut u64) {
        *out += ctx.value;
    }

    // Setup: register sources and map to natural keys
    let btc_src = notify_mut(&mut world).register_source();
    let eth_src = notify_mut(&mut world).register_source();

    world.resource_mut::<Sources, _>().insert(BTC, btc_src);
    world.resource_mut::<Sources, _>().insert(ETH, eth_src);

    // Register reactors using natural key lookup
    {
        let reg = &registry_of(&world);
        let btc = world.resource::<Sources, _>().get(&BTC).unwrap();
        let notify = notify_mut(&mut world);
        notify
            .register(
                |t| Ctx {
                    _reactor_id: t,
                    value: 10,
                },
                step,
                reg,
            )
            .subscribe(btc);
    }

    // Mark via pre-resolved DataSource
    notify_mut(&mut world).mark(btc_src);
    system.dispatch(&mut world);
    assert_eq!(*world.resource::<u64, _>(), 10);

    // Delist BTC — remove from both registry and notify
    let removed = world.resource_mut::<Sources, _>().remove(&BTC);
    assert!(removed.is_some());
    notify_mut(&mut world).remove_source(removed.unwrap());

    // Marking BTC is now a no-op
    notify_mut(&mut world).mark(btc_src);
    let ran = system.dispatch(&mut world);
    assert!(!ran);
}

#[test]
fn source_registry_overwrite_key() {
    let mut registry = SourceRegistry::new().with_keys::<u32>();
    let src_a = DataSource(0);
    let src_b = DataSource(1);

    registry.insert(42u32, src_a);
    assert_eq!(registry.get(&42u32), Some(src_a));

    // Overwrite same key with different source
    registry.insert(42u32, src_b);
    assert_eq!(registry.get(&42u32), Some(src_b));
}

#[test]
fn source_registry_empty_get() {
    let registry = SourceRegistry::new().with_keys::<u32>();
    // No key type has ever been registered
    assert_eq!(registry.get(&42u32), None);
    assert!(!registry.contains(&42u32));
}

#[test]
fn source_registry_enum_keys() {
    #[derive(Hash, Eq, PartialEq)]
    enum Venue {
        Binance,
        Coinbase,
    }

    let mut registry = SourceRegistry::new().with_keys::<Venue>();
    let src = DataSource(0);
    registry.insert(Venue::Binance, src);

    assert_eq!(registry.get(&Venue::Binance), Some(src));
    assert_eq!(registry.get(&Venue::Coinbase), None);
}

#[test]
fn source_registry_composite_key() {
    // (Strategy, Instrument, Venue) triple as key
    #[derive(Hash, Eq, PartialEq)]
    struct StrategyId(u32);
    #[derive(Hash, Eq, PartialEq)]
    struct InstrumentId(u32);
    #[derive(Hash, Eq, PartialEq)]
    struct VenueId(u32);

    let mut registry = SourceRegistry::new().with_keys::<(StrategyId, InstrumentId, VenueId)>();
    let src = DataSource(5);
    registry.insert((StrategyId(1), InstrumentId(0), VenueId(2)), src);

    assert_eq!(
        registry.get(&(StrategyId(1), InstrumentId(0), VenueId(2))),
        Some(src)
    );
    // Different strategy
    assert_eq!(
        registry.get(&(StrategyId(2), InstrumentId(0), VenueId(2))),
        None
    );
}

#[test]
fn full_lifecycle_add_trade_remove() {
    // Simulates: add instrument → reactors trade → delist → cleanup
    type Sources = SourceRegistry<With<SourceMap<Instrument>, ()>>;

    let wb = WorldBuilder::new();
    let mut wb = wb.register::<u64>(0);
    let mut wb = wb.register(SourceRegistry::new().with_keys::<Instrument>());
    let mut wb = wb.register(ReactorNotify::<Any<With<Sources, With<u64, ()>>>>::new(4, 8));
    let mut wb = wb.register(DeferredRemovals::default());
    let mut world = wb.build();
    let mut system = ReactorSystem::new(&world);

    #[derive(Hash, Eq, PartialEq, Clone, Copy)]
    struct Instrument(u32);

    struct Ctx {
        _reactor_id: Token,
        value: u64,
    }

    fn step(ctx: &mut Ctx, out: &mut u64) {
        *out += ctx.value;
    }

    // Phase 1: Add BTC
    let btc_src = notify_mut(&mut world).register_source();
    world
        .resource_mut::<Sources, _>()
        .insert(Instrument(0), btc_src);

    {
        let reg = &registry_of(&world);
        let notify = notify_mut(&mut world);
        notify
            .register(
                |t| Ctx {
                    _reactor_id: t,
                    value: 10,
                },
                step,
                reg,
            )
            .subscribe(btc_src);
    }

    // Phase 2: Trade
    notify_mut(&mut world).mark(btc_src);
    system.dispatch(&mut world);
    assert_eq!(*world.resource::<u64, _>(), 10);

    // Phase 3: Add ETH dynamically
    let eth_src = notify_mut(&mut world).register_source();
    world
        .resource_mut::<Sources, _>()
        .insert(Instrument(1), eth_src);

    {
        let reg = &registry_of(&world);
        let notify = notify_mut(&mut world);
        notify
            .register(
                |t| Ctx {
                    _reactor_id: t,
                    value: 100,
                },
                step,
                reg,
            )
            .subscribe(eth_src);
    }

    // Both trade
    notify_mut(&mut world).mark(btc_src);
    notify_mut(&mut world).mark(eth_src);
    system.dispatch(&mut world);
    assert_eq!(*world.resource::<u64, _>(), 120);

    // Phase 4: Delist BTC
    let removed = world
        .resource_mut::<Sources, _>()
        .remove(&Instrument(0));
    notify_mut(&mut world).remove_source(removed.unwrap());

    // Only ETH remains
    notify_mut(&mut world).mark(eth_src);
    system.dispatch(&mut world);
    assert_eq!(*world.resource::<u64, _>(), 220);

    // Phase 5: Add SOL — reuses BTC's old slab slot
    let sol_src = notify_mut(&mut world).register_source();
    world
        .resource_mut::<Sources, _>()
        .insert(Instrument(2), sol_src);
    assert_eq!(sol_src.0, btc_src.0); // slab reused

    {
        let reg = &registry_of(&world);
        let notify = notify_mut(&mut world);
        notify
            .register(
                |t| Ctx {
                    _reactor_id: t,
                    value: 1000,
                },
                step,
                reg,
            )
            .subscribe(sol_src);
    }

    // SOL + ETH fire
    notify_mut(&mut world).mark(sol_src);
    notify_mut(&mut world).mark(eth_src);
    system.dispatch(&mut world);
    assert_eq!(*world.resource::<u64, _>(), 1320); // 220 + 1000 + 100
}

#[test]
fn multi_strategy_same_instrument() {
    // Two strategies on the same instrument with different data sources
    type Sources = SourceRegistry<With<SourceMap<StrategyInstrument>, ()>>;

    let wb = WorldBuilder::new();
    let mut wb = wb.register::<u64>(0);
    let mut wb = wb.register(SourceRegistry::new().with_keys::<StrategyInstrument>());
    let mut wb = wb.register(ReactorNotify::<Any<With<Sources, With<u64, ()>>>>::new(8, 16));
    let mut wb = wb.register(DeferredRemovals::default());
    let mut world = wb.build();
    let mut system = ReactorSystem::new(&world);

    #[derive(Hash, Eq, PartialEq, Clone, Copy)]
    struct StrategyInstrument(&'static str, &'static str);

    struct Ctx {
        _reactor_id: Token,
        value: u64,
    }

    fn step(ctx: &mut Ctx, out: &mut u64) {
        *out += ctx.value;
    }

    // Per-strategy+instrument sources
    let reg = &registry_of(&world);
    let notify = notify_mut(&mut world);

    let mm_btc = notify.register_source();
    let mm_eth = notify.register_source();
    let arb_btc = notify.register_source();

    // Market maker on BTC and ETH
    notify
        .register(
            |t| Ctx {
                _reactor_id: t,
                value: 1,
            },
            step,
            reg,
        )
        .subscribe(mm_btc);
    notify
        .register(
            |t| Ctx {
                _reactor_id: t,
                value: 2,
            },
            step,
            reg,
        )
        .subscribe(mm_eth);

    // Arb strategy on BTC
    notify
        .register(
            |t| Ctx {
                _reactor_id: t,
                value: 100,
            },
            step,
            reg,
        )
        .subscribe(arb_btc);

    // Map composite keys
    world
        .resource_mut::<Sources, _>()
        .insert(StrategyInstrument("MM", "BTC"), mm_btc);
    world
        .resource_mut::<Sources, _>()
        .insert(StrategyInstrument("MM", "ETH"), mm_eth);
    world
        .resource_mut::<Sources, _>()
        .insert(StrategyInstrument("ARB", "BTC"), arb_btc);

    // BTC data arrives — both MM-BTC and ARB-BTC should fire
    // But they're separate sources, so handler marks both:
    let mm_btc_src = world
        .resource::<Sources, _>()
        .get(&StrategyInstrument("MM", "BTC"))
        .unwrap();
    let arb_btc_src = world
        .resource::<Sources, _>()
        .get(&StrategyInstrument("ARB", "BTC"))
        .unwrap();

    notify_mut(&mut world).mark(mm_btc_src);
    notify_mut(&mut world).mark(arb_btc_src);
    system.dispatch(&mut world);
    assert_eq!(*world.resource::<u64, _>(), 101); // 1 + 100
}

#[test]
fn reactor_self_removal_with_registry_cleanup() {
    // Reactor deregisters itself AND the handler cleans up the source
    type Sources = SourceRegistry<With<SourceMap<&'static str>, ()>>;

    let wb = WorldBuilder::new();
    let mut wb = wb.register::<u64>(0);
    let mut wb = wb.register(SourceRegistry::new().with_keys::<&'static str>());
    let mut wb = wb.register(ReactorNotify::<Any<With<Sources, With<u64, ()>>>>::new(4, 8));
    let mut wb = wb.register(DeferredRemovals::default());
    let mut world = wb.build();
    let mut system = ReactorSystem::new(&world);

    struct Ctx {
        reactor_id: Token,
    }

    fn one_shot(ctx: &mut Ctx, out: &mut u64, removals: &mut DeferredRemovals) {
        *out += 1;
        removals.deregister(ctx.reactor_id);
    }

    let src = notify_mut(&mut world).register_source();
    world
        .resource_mut::<Sources, _>()
        .insert("one-shot", src);

    {
        let reg = &registry_of(&world);
        let notify = notify_mut(&mut world);
        notify
            .register(|t| Ctx { reactor_id: t }, one_shot, reg)
            .subscribe(src);
    }

    // Reactor runs once and removes itself
    notify_mut(&mut world).mark(src);
    system.dispatch(&mut world);
    assert_eq!(*world.resource::<u64, _>(), 1);
    assert_eq!(system.reactor_count(&world), 0);

    // Source still exists in registry but no reactors subscribe
    assert!(world.resource::<Sources, _>().contains(&"one-shot"));

    // Mark again — no reactors wake
    notify_mut(&mut world).mark(src);
    let ran = system.dispatch(&mut world);
    assert!(!ran);
}

#[test]
fn many_reactors_same_source() {
    // 50 reactors all subscribed to one source — all wake, deduped
    let wb = WorldBuilder::new();
    let mut wb = wb.register::<u64>(0);
    let mut wb = wb.register(ReactorNotify::<Any<With<u64, ()>>>::new(4, 64));
    let mut wb = wb.register(DeferredRemovals::default());
    let mut world = wb.build();
    let mut system = ReactorSystem::new(&world);

    struct Ctx {
        _reactor_id: Token,
    }

    fn step(_ctx: &mut Ctx, out: &mut u64) {
        *out += 1;
    }

    let src = notify_mut(&mut world).register_source();

    {
        let reg = &registry_of(&world);
        let notify = notify_mut(&mut world);
        for _ in 0..50 {
            notify
                .register(|t| Ctx { _reactor_id: t }, step, reg)
                .subscribe(src);
        }
    }

    assert_eq!(system.reactor_count(&world), 50);

    notify_mut(&mut world).mark(src);
    system.dispatch(&mut world);
    assert_eq!(*world.resource::<u64, _>(), 50); // all 50 ran exactly once
}

#[test]
fn reactor_subscribes_to_multiple_sources() {
    // One reactor subscribed to 5 different sources.
    // All 5 fire in one frame — reactor runs exactly once.
    let wb = WorldBuilder::new();
    let mut wb = wb.register::<u64>(0);
    let mut wb = wb.register(ReactorNotify::<Any<With<u64, ()>>>::new(8, 8));
    let mut wb = wb.register(DeferredRemovals::default());
    let mut world = wb.build();
    let mut system = ReactorSystem::new(&world);

    struct Ctx {
        _reactor_id: Token,
    }

    fn step(_ctx: &mut Ctx, out: &mut u64) {
        *out += 1;
    }

    let mut sources = Vec::new();
    let notify = notify_mut(&mut world);
    for _ in 0..5 {
        sources.push(notify.register_source());
    }

    {
        let reg = &registry_of(&world);
        let notify = notify_mut(&mut world);
        let mut registration = notify.register(|t| Ctx { _reactor_id: t }, step, reg);
        for &src in &sources {
            registration = registration.subscribe(src);
        }
    }

    // Mark all 5 sources
    for &src in &sources {
        notify_mut(&mut world).mark(src);
    }

    system.dispatch(&mut world);
    assert_eq!(*world.resource::<u64, _>(), 1); // ONE run despite 5 sources
}

#[test]
fn stale_data_source_is_noop() {
    // After removing a source, marking it must not panic
    let wb = WorldBuilder::new();
    let mut wb = wb.register(ReactorNotify::<Any<()>>::new(4, 4));
    let mut wb = wb.register(DeferredRemovals::default());
    let mut world = wb.build();
    let mut system = ReactorSystem::new(&world);

    let src = notify_mut(&mut world).register_source();
    notify_mut(&mut world).remove_source(src);

    // Must not panic
    notify_mut(&mut world).mark(src);
    let ran = system.dispatch(&mut world);
    assert!(!ran);
}

#[test]
fn double_remove_source_is_noop() {
    let mut notify = ReactorNotify::<Dummy>::new(4, 4);
    let src = notify.register_source();
    notify.remove_source(src);
    notify.remove_source(src); // must not panic
}

#[test]
fn pipeline_reactor_dispatch() {

    let wb = WorldBuilder::new();
    let mut wb = wb.register::<u64>(0);
    let mut wb = wb.register(ReactorNotify::<Any<With<u64, ()>>>::new(4, 8));
    let mut wb = wb.register(DeferredRemovals::default());
    let mut world = wb.build();
    let mut system = ReactorSystem::new(&world);

    struct Ctx {
        _reactor_id: Token,
        instrument: &'static str,
    }

    fn read_data(ctx: &mut Ctx, val: &u64, _input: ()) -> u64 {
        let _ = ctx.instrument;
        *val
    }

    fn double(_ctx: &mut Ctx, x: u64) -> u64 {
        x * 2
    }

    fn store(_ctx: &mut Ctx, out: &mut u64, x: u64) {
        *out = x;
    }

    let reg = &registry_of(&world);

    let pipeline = CtxPipelineBuilder::<Ctx, ()>::new()
        .then(read_data, reg)
        .then(double, reg)
        .then(store, reg)
        .build();

    let notify = notify_mut(&mut world);
    let src = notify.register_source();

    // Wrap pipeline in PipelineReactor
    let reactor = PipelineReactor::new(
        Ctx {
            _reactor_id: Token::new(0),
            instrument: "BTC",
        },
        pipeline,
    );
    notify.register_built(reactor).subscribe(src);

    // Set initial value and dispatch
    *world.resource_mut::<u64, _>() = 10;
    notify_mut(&mut world).mark(src);
    system.dispatch(&mut world);

    assert_eq!(*world.resource::<u64, _>(), 20); // 10 * 2
}

#[test]
fn dag_reactor_dispatch() {

    let wb = WorldBuilder::new();
    let mut wb = wb.register::<u64>(0);
    let mut wb = wb.register(ReactorNotify::<Any<With<u64, ()>>>::new(4, 8));
    let mut wb = wb.register(DeferredRemovals::default());
    let mut world = wb.build();
    let mut system = ReactorSystem::new(&world);

    struct Ctx {
        _reactor_id: Token,
    }

    fn root(ctx: &mut Ctx, val: &u64, _input: ()) -> u64 {
        let _ = ctx;
        *val
    }

    fn arm_double(_ctx: &mut Ctx, val: &u64) -> u64 {
        *val * 2
    }

    fn arm_add(_ctx: &mut Ctx, val: &u64) -> u64 {
        *val + 10
    }

    fn merge(_ctx: &mut Ctx, out: &mut u64, a: &u64, b: &u64) {
        *out = *a + *b;
    }

    let reg = &registry_of(&world);

    let dag = CtxDagBuilder::<Ctx, ()>::new()
        .root(root, reg)
        .fork()
        .arm(|seed| seed.then(arm_double, reg))
        .arm(|seed| seed.then(arm_add, reg))
        .merge(merge, reg)
        .build();

    let notify = notify_mut(&mut world);
    let src = notify.register_source();

    let reactor = PipelineReactor::new(
        Ctx {
            _reactor_id: Token::new(0),
        },
        dag,
    );
    notify.register_built(reactor).subscribe(src);

    *world.resource_mut::<u64, _>() = 5;
    notify_mut(&mut world).mark(src);
    system.dispatch(&mut world);

    // (5 * 2) + (5 + 10) = 10 + 15 = 25
    assert_eq!(*world.resource::<u64, _>(), 25);
}

#[test]
fn multiple_pipeline_reactors_different_bodies() {

    let wb = WorldBuilder::new();
    let mut wb = wb.register::<u64>(0);
    let mut wb = wb.register(ReactorNotify::<Any<With<u64, ()>>>::new(4, 8));
    let mut wb = wb.register(DeferredRemovals::default());
    let mut world = wb.build();
    let mut system = ReactorSystem::new(&world);

    struct Ctx {
        _reactor_id: Token,
        factor: u64,
    }

    fn multiply(ctx: &mut Ctx, val: &u64, _input: ()) -> u64 {
        *val * ctx.factor
    }

    fn accumulate(_ctx: &mut Ctx, out: &mut u64, val: u64) {
        *out += val;
    }

    let reg = &registry_of(&world);

    // Reactor A: multiply by 2
    let pipeline_a = CtxPipelineBuilder::<Ctx, ()>::new()
        .then(multiply, reg)
        .then(accumulate, reg)
        .build();

    // Reactor B: multiply by 10
    let pipeline_b = CtxPipelineBuilder::<Ctx, ()>::new()
        .then(multiply, reg)
        .then(accumulate, reg)
        .build();

    let notify = notify_mut(&mut world);
    let src = notify.register_source();

    notify
        .register_built(PipelineReactor::new(
            Ctx {
                _reactor_id: Token::new(0),
                factor: 2,
            },
            pipeline_a,
        ))
        .subscribe(src);

    notify
        .register_built(PipelineReactor::new(
            Ctx {
                _reactor_id: Token::new(1),
                factor: 10,
            },
            pipeline_b,
        ))
        .subscribe(src);

    *world.resource_mut::<u64, _>() = 5;
    notify_mut(&mut world).mark(src);
    system.dispatch(&mut world);

    // Reactor A reads 5, adds 5*2=10, so resource=15
    // Reactor B reads 15, adds 15*10=150, so resource=165
    // (Order depends on dispatch order — both subscribed to same source)
    // The value is order-dependent. Just verify both ran:
    let val = *world.resource::<u64, _>();
    assert!(val > 5, "both reactors should have run, got {val}");
}

#[test]
fn pipeline_reactor_with_guard() {

    let wb = WorldBuilder::new();
    let mut wb = wb.register::<u64>(0);
    let mut wb = wb.register(ReactorNotify::<Any<With<u64, ()>>>::new(4, 8));
    let mut wb = wb.register(DeferredRemovals::default());
    let mut world = wb.build();
    let mut system = ReactorSystem::new(&world);

    struct Ctx {
        _reactor_id: Token,
        threshold: u64,
    }

    fn read(_ctx: &mut Ctx, val: &u64, _input: ()) -> u64 {
        *val
    }

    fn above_threshold(ctx: &mut Ctx, val: &u64) -> bool {
        *val > ctx.threshold
    }

    fn write(_ctx: &mut Ctx, out: &mut u64, _val: u64) {
        *out = 999;
    }

    let reg = &registry_of(&world);

    let pipeline = CtxPipelineBuilder::<Ctx, ()>::new()
        .then(read, reg)
        .guard(above_threshold, reg)
        .map(write, reg)
        .build();

    let notify = notify_mut(&mut world);
    let src = notify.register_source();

    notify
        .register_built(PipelineReactor::new(
            Ctx {
                _reactor_id: Token::new(0),
                threshold: 10,
            },
            pipeline,
        ))
        .subscribe(src);

    // Value below threshold — guard blocks
    *world.resource_mut::<u64, _>() = 5;
    notify_mut(&mut world).mark(src);
    system.dispatch(&mut world);
    assert_eq!(*world.resource::<u64, _>(), 5); // unchanged

    // Value above threshold — guard passes
    *world.resource_mut::<u64, _>() = 20;
    notify_mut(&mut world).mark(src);
    system.dispatch(&mut world);
    assert_eq!(*world.resource::<u64, _>(), 999);
}

#[test]
fn two_phase_registration_safe_api() {
    // Demonstrates the safe API: create_reactor → into_reactor → insert
    // No unsafe, no registry borrow conflicts.
    let wb = WorldBuilder::new();
    let mut wb = wb.register::<u64>(0);
    let mut wb = wb.register(ReactorNotify::<Any<With<u64, ()>>>::new(4, 8));
    let mut wb = wb.register(DeferredRemovals::default());
    let mut world = wb.build();

    let mut system = ReactorSystem::new(&world);

    struct Ctx {
        reactor_id: Token,
        instrument: &'static str,
    }

    fn step(ctx: &mut Ctx, out: &mut u64) {
        let _ = ctx.instrument;
        *out += ctx.reactor_id.index() as u64 + 1;
    }

    // Phase 1: reserve slot
    let src = world.resource_mut::<ReactorNotify<Any<With<u64, ()>>>, _>().register_source();
    let token = world.resource_mut::<ReactorNotify<Any<With<u64, ()>>>, _>().create_reactor();

    // Phase 2: build reactor with token + registry (no borrow conflict)
    let reactor = step.into_reactor(
        Ctx {
            reactor_id: token,
            instrument: "BTC",
        },
        world.registry(),
    );

    // Phase 3: insert + subscribe
    world
        .resource_mut::<ReactorNotify<Any<With<u64, ()>>>, _>()
        .insert_reactor(token, reactor)
        .subscribe(src);

    // Verify dispatch
    world.resource_mut::<ReactorNotify<Any<With<u64, ()>>>, _>().mark(src);
    system.dispatch(&mut world);
    assert_eq!(*world.resource::<u64, _>(), 1); // token index 0 + 1

    // Second reactor — same pattern
    let token2 = world.resource_mut::<ReactorNotify<Any<With<u64, ()>>>, _>().create_reactor();
    let actor2 = step.into_reactor(
        Ctx {
            reactor_id: token2,
            instrument: "ETH",
        },
        world.registry(),
    );
    world
        .resource_mut::<ReactorNotify<Any<With<u64, ()>>>, _>()
        .insert_reactor(token2, actor2)
        .subscribe(src);

    // Both reactors fire
    world.resource_mut::<ReactorNotify<Any<With<u64, ()>>>, _>().mark(src);
    system.dispatch(&mut world);
    assert_eq!(*world.resource::<u64, _>(), 4); // 1 + (0+1) + (1+1)
}

#[test]
fn two_phase_with_pipeline_reactor() {

    let wb = WorldBuilder::new();
    let mut wb = wb.register::<u64>(0);
    let mut wb = wb.register(ReactorNotify::<Any<With<u64, ()>>>::new(4, 8));
    let mut wb = wb.register(DeferredRemovals::default());
    let mut world = wb.build();

    let mut system = ReactorSystem::new(&world);

    struct Ctx {
        _reactor_id: Token,
    }

    fn read(ctx: &mut Ctx, val: &u64) -> u64 {
        let _ = ctx;
        *val
    }

    fn double(_ctx: &mut Ctx, x: u64) -> u64 {
        x * 2
    }

    fn store(_ctx: &mut Ctx, out: &mut u64, x: u64) {
        *out = x;
    }

    // Phase 1: reserve + register source
    let src = world.resource_mut::<ReactorNotify<Any<With<u64, ()>>>, _>().register_source();
    let token = world.resource_mut::<ReactorNotify<Any<With<u64, ()>>>, _>().create_reactor();

    // Phase 2: build pipeline + wrap in PipelineReactor (needs registry)
    let reg = &registry_of(&world);
    let pipeline = CtxPipelineBuilder::<Ctx, ()>::new()
        .then(no_event(read), reg)
        .then(double, reg)
        .then(store, reg)
        .build();
    let reactor = PipelineReactor::new(Ctx { _reactor_id: token }, pipeline);

    // Phase 3: insert
    world
        .resource_mut::<ReactorNotify<Any<With<u64, ()>>>, _>()
        .insert_reactor(token, reactor)
        .subscribe(src);

    *world.resource_mut::<u64, _>() = 10;
    world.resource_mut::<ReactorNotify<Any<With<u64, ()>>>, _>().mark(src);
    system.dispatch(&mut world);
    assert_eq!(*world.resource::<u64, _>(), 20); // 10 * 2
}
