//! What steps that are handed a context promise.
//!
//! A law is stated for an arbitrary `promise` that the contract of the function gives: of the values
//! that it is called on, of those that it leaves behind its mutable references, and of its result.
//! The step then gives that promise of the resources that the world holds, with the function called
//! once, and leaves everything else as it is.
use crate::ctx_step::{
    CtxOpaqueProducer, CtxOpaqueRefStep, CtxOpaqueStep, CtxProducerCall, CtxRefStepCall, CtxStep,
    CtxStepCall,
};
use crate::effect::{
    effect_m, lemma_effect_m, effect_mm, lemma_effect_mm, effect_mmm, lemma_effect_mmm,
    effect_mmmm, lemma_effect_mmmm, effect_mmmmp, lemma_effect_mmmmp, effect_mmmp,
    lemma_effect_mmmp, effect_mmmpp, lemma_effect_mmmpp, effect_mmp, lemma_effect_mmp, effect_mmpm,
    lemma_effect_mmpm, effect_mmpmp, lemma_effect_mmpmp, effect_mmpp, lemma_effect_mmpp,
    effect_mmppp, lemma_effect_mmppp, effect_mp, lemma_effect_mp, effect_mpm, lemma_effect_mpm,
    effect_mpmm, lemma_effect_mpmm, effect_mpmmp, lemma_effect_mpmmp, effect_mpmp,
    lemma_effect_mpmp, effect_mpmpp, lemma_effect_mpmpp, effect_mpp, lemma_effect_mpp, effect_mppm,
    lemma_effect_mppm, effect_mppmp, lemma_effect_mppmp, effect_mppp, lemma_effect_mppp,
    effect_mpppp, lemma_effect_mpppp,
};
use crate::handler::NoEvent;
use crate::world::{Apart, Apart3, Res, ResMut, Resource, World};
use vstd::prelude::*;

verus! {

/// What a function of its input alone promises, its step promises of what the world holds.
pub proof fn lemma_ctx_step_unit<R, C, In, Out, F: FnMut(&mut C, In) -> Out>(
    step: CtxStep<F, (), Out>,
    promise: spec_fn((C, In), (C,), Out) -> bool,
    ctx: C,
    world: World<R>,
    input: In,
    after: CtxStep<F, (), Out>,
    ctx_after: C,
    world_after: World<R>,
    out: Out,
)
    requires
        forall|a0: &mut C, a1: In, o: Out|
            #[trigger] call_ensures(step.f, (a0, a1), o) ==> promise((*a0, a1), (*final(a0),), o),
    ensures
        (forall|a0: &mut C|
            *a0 == ctx
                ==> #[trigger] call_requires(step.f, (a0, input)))
                    ==> CtxStepCall::<R, C, In>::call_pre(&step, ctx, world, input),
        CtxStepCall::<R, C, In>::call_post(
            &step,
            ctx,
            world,
            input,
            after,
            ctx_after,
            world_after,
            out,
        )
            ==> {
            &&& after == step
            &&& world_after == world
            &&& promise((ctx, input), (ctx_after,), out)
        },
{
    if CtxStepCall::<R, C, In>::call_post(
        &step,
        ctx,
        world,
        input,
        after,
        ctx_after,
        world_after,
        out,
    ) {
        lemma_effect_mp(step.f, ctx, input, ctx_after, out);
    }
}

/// What a function of one resource promises, its step promises of what the world holds.
pub proof fn lemma_ctx_step_res<R, T, I, C, In, Out, F: FnMut(&mut C, &T, In) -> Out>(
    step: CtxStep<F, Res<T, I>, Out>,
    promise: spec_fn((C, T, In), (C,), Out) -> bool,
    ctx: C,
    world: World<R>,
    input: In,
    after: CtxStep<F, Res<T, I>, Out>,
    ctx_after: C,
    world_after: World<R>,
    out: Out,
) where R: Resource<T, I>
    requires
        forall|a0: &mut C, a1: &T, a2: In, o: Out|
            #[trigger] call_ensures(step.f, (a0, a1, a2), o)
                ==> promise((*a0, *a1, a2), (*final(a0),), o),
    ensures
        (forall|a0: &mut C|
            *a0 == ctx
                ==> #[trigger] call_requires(
                    step.f,
                    (a0, &world.held::<T, I>(), input),
                )) ==> CtxStepCall::<R, C, In>::call_pre(&step, ctx, world, input),
        CtxStepCall::<R, C, In>::call_post(
            &step,
            ctx,
            world,
            input,
            after,
            ctx_after,
            world_after,
            out,
        )
            ==> {
            &&& after == step
            &&& world_after == world
            &&& promise((ctx, world.held::<T, I>(), input), (ctx_after,), out)
        },
{
    if CtxStepCall::<R, C, In>::call_post(
        &step,
        ctx,
        world,
        input,
        after,
        ctx_after,
        world_after,
        out,
    ) {
        lemma_effect_mpp(step.f, ctx, &world.held::<T, I>(), input, ctx_after, out);
    }
}

/// What a function of one resource promises, its step promises of what the world holds.
pub proof fn lemma_ctx_step_resmut<R, T, I, C, In, Out, F: FnMut(&mut C, &mut T, In) -> Out>(
    step: CtxStep<F, ResMut<T, I>, Out>,
    promise: spec_fn((C, T, In), (C, T), Out) -> bool,
    ctx: C,
    world: World<R>,
    input: In,
    after: CtxStep<F, ResMut<T, I>, Out>,
    ctx_after: C,
    world_after: World<R>,
    out: Out,
) where R: Resource<T, I>
    requires
        forall|a0: &mut C, a1: &mut T, a2: In, o: Out|
            #[trigger] call_ensures(step.f, (a0, a1, a2), o)
                ==> promise((*a0, *a1, a2), (*final(a0), *final(a1)), o),
    ensures
        (forall|a0: &mut C, a1: &mut T|
            *a0 == ctx && *a1 == world.held::<T, I>()
                ==> #[trigger] call_requires(step.f, (a0, a1, input)))
                    ==> CtxStepCall::<R, C, In>::call_pre(&step, ctx, world, input),
        CtxStepCall::<R, C, In>::call_post(
            &step,
            ctx,
            world,
            input,
            after,
            ctx_after,
            world_after,
            out,
        )
            ==> {
            &&& after == step
            &&& exists|held: T|
                #[trigger] promise((ctx, world.held::<T, I>(), input), (ctx_after, held), out)
                    && world_after == world.holding::<T, I>(held)
        },
{
    if CtxStepCall::<R, C, In>::call_post(
        &step,
        ctx,
        world,
        input,
        after,
        ctx_after,
        world_after,
        out,
    ) {
        let held = choose|held: T|
            #[trigger] effect_mmp(step.f, ctx, world.held::<T, I>(), input, ctx_after, held, out)
                && world_after == world.holding::<T, I>(held);
        lemma_effect_mmp(step.f, ctx, world.held::<T, I>(), input, ctx_after, held, out);
        assert(promise((ctx, world.held::<T, I>(), input), (ctx_after, held), out));
    }
}

/// What a function of two resources promises, its step promises of what the world holds.
pub proof fn lemma_ctx_step_res_res<
    R,
    T,
    I,
    U,
    J,
    C,
    In,
    Out,
    F: FnMut(&mut C, &T, &U, In) -> Out,
>(
    step: CtxStep<F, (Res<T, I>, Res<U, J>), Out>,
    promise: spec_fn((C, T, U, In), (C,), Out) -> bool,
    ctx: C,
    world: World<R>,
    input: In,
    after: CtxStep<F, (Res<T, I>, Res<U, J>), Out>,
    ctx_after: C,
    world_after: World<R>,
    out: Out,
) where R: Resource<T, I> + Resource<U, J>
    requires
        forall|a0: &mut C, a1: &T, a2: &U, a3: In, o: Out|
            #[trigger] call_ensures(step.f, (a0, a1, a2, a3), o)
                ==> promise((*a0, *a1, *a2, a3), (*final(a0),), o),
    ensures
        (forall|a0: &mut C|
            *a0 == ctx
                ==> #[trigger] call_requires(
                    step.f,
                    (a0, &world.held::<T, I>(), &world.held::<U, J>(), input),
                )) ==> CtxStepCall::<R, C, In>::call_pre(&step, ctx, world, input),
        CtxStepCall::<R, C, In>::call_post(
            &step,
            ctx,
            world,
            input,
            after,
            ctx_after,
            world_after,
            out,
        )
            ==> {
            &&& after == step
            &&& world_after == world
            &&& promise((ctx, world.held::<T, I>(), world.held::<U, J>(), input), (ctx_after,), out)
        },
{
    if CtxStepCall::<R, C, In>::call_post(
        &step,
        ctx,
        world,
        input,
        after,
        ctx_after,
        world_after,
        out,
    ) {
        lemma_effect_mppp(
            step.f,
            ctx,
            &world.held::<T, I>(),
            &world.held::<U, J>(),
            input,
            ctx_after,
            out,
        );
    }
}

/// What a function of two resources promises, its step promises of what the world holds.
pub proof fn lemma_ctx_step_res_resmut<
    R,
    T,
    I,
    U,
    J,
    C,
    In,
    Out,
    F: FnMut(&mut C, &T, &mut U, In) -> Out,
>(
    step: CtxStep<F, (Res<T, I>, ResMut<U, J>), Out>,
    promise: spec_fn((C, T, U, In), (C, U), Out) -> bool,
    ctx: C,
    world: World<R>,
    input: In,
    after: CtxStep<F, (Res<T, I>, ResMut<U, J>), Out>,
    ctx_after: C,
    world_after: World<R>,
    out: Out,
) where R: Apart<T, I, U, J>
    requires
        forall|a0: &mut C, a1: &T, a2: &mut U, a3: In, o: Out|
            #[trigger] call_ensures(step.f, (a0, a1, a2, a3), o)
                ==> promise((*a0, *a1, *a2, a3), (*final(a0), *final(a2)), o),
    ensures
        (forall|a0: &mut C, a2: &mut U|
            *a0 == ctx && *a2 == world.held::<U, J>()
                ==> #[trigger] call_requires(
                    step.f,
                    (a0, &world.held::<T, I>(), a2, input),
                )) ==> CtxStepCall::<R, C, In>::call_pre(&step, ctx, world, input),
        CtxStepCall::<R, C, In>::call_post(
            &step,
            ctx,
            world,
            input,
            after,
            ctx_after,
            world_after,
            out,
        )
            ==> {
            &&& after == step
            &&& exists|held: U|
                #[trigger] promise(
                    (ctx, world.held::<T, I>(), world.held::<U, J>(), input),
                    (ctx_after, held),
                    out,
                )
                    && world_after == world.holding::<U, J>(held)
        },
{
    if CtxStepCall::<R, C, In>::call_post(
        &step,
        ctx,
        world,
        input,
        after,
        ctx_after,
        world_after,
        out,
    ) {
        let held = choose|held: U|
            #[trigger] effect_mpmp(
                step.f,
                ctx,
                &world.held::<T, I>(),
                world.held::<U, J>(),
                input,
                ctx_after,
                held,
                out,
            )
                && world_after == world.holding::<U, J>(held);
        lemma_effect_mpmp(
            step.f,
            ctx,
            &world.held::<T, I>(),
            world.held::<U, J>(),
            input,
            ctx_after,
            held,
            out,
        );
        assert(promise(
            (ctx, world.held::<T, I>(), world.held::<U, J>(), input),
            (ctx_after, held),
            out,
        ));
    }
}

/// What a function of two resources promises, its step promises of what the world holds.
pub proof fn lemma_ctx_step_resmut_res<
    R,
    T,
    I,
    U,
    J,
    C,
    In,
    Out,
    F: FnMut(&mut C, &mut T, &U, In) -> Out,
>(
    step: CtxStep<F, (ResMut<T, I>, Res<U, J>), Out>,
    promise: spec_fn((C, T, U, In), (C, T), Out) -> bool,
    ctx: C,
    world: World<R>,
    input: In,
    after: CtxStep<F, (ResMut<T, I>, Res<U, J>), Out>,
    ctx_after: C,
    world_after: World<R>,
    out: Out,
) where R: Apart<U, J, T, I>
    requires
        forall|a0: &mut C, a1: &mut T, a2: &U, a3: In, o: Out|
            #[trigger] call_ensures(step.f, (a0, a1, a2, a3), o)
                ==> promise((*a0, *a1, *a2, a3), (*final(a0), *final(a1)), o),
    ensures
        (forall|a0: &mut C, a1: &mut T|
            *a0 == ctx && *a1 == world.held::<T, I>()
                ==> #[trigger] call_requires(
                    step.f,
                    (a0, a1, &world.held::<U, J>(), input),
                )) ==> CtxStepCall::<R, C, In>::call_pre(&step, ctx, world, input),
        CtxStepCall::<R, C, In>::call_post(
            &step,
            ctx,
            world,
            input,
            after,
            ctx_after,
            world_after,
            out,
        )
            ==> {
            &&& after == step
            &&& exists|held: T|
                #[trigger] promise(
                    (ctx, world.held::<T, I>(), world.held::<U, J>(), input),
                    (ctx_after, held),
                    out,
                )
                    && world_after == world.holding::<T, I>(held)
        },
{
    if CtxStepCall::<R, C, In>::call_post(
        &step,
        ctx,
        world,
        input,
        after,
        ctx_after,
        world_after,
        out,
    ) {
        let held = choose|held: T|
            #[trigger] effect_mmpp(
                step.f,
                ctx,
                world.held::<T, I>(),
                &world.held::<U, J>(),
                input,
                ctx_after,
                held,
                out,
            )
                && world_after == world.holding::<T, I>(held);
        lemma_effect_mmpp(
            step.f,
            ctx,
            world.held::<T, I>(),
            &world.held::<U, J>(),
            input,
            ctx_after,
            held,
            out,
        );
        assert(promise(
            (ctx, world.held::<T, I>(), world.held::<U, J>(), input),
            (ctx_after, held),
            out,
        ));
    }
}

/// What a function of two resources promises, its step promises of what the world holds.
pub proof fn lemma_ctx_step_resmut_resmut<
    R,
    T,
    I,
    U,
    J,
    C,
    In,
    Out,
    F: FnMut(&mut C, &mut T, &mut U, In) -> Out,
>(
    step: CtxStep<F, (ResMut<T, I>, ResMut<U, J>), Out>,
    promise: spec_fn((C, T, U, In), (C, T, U), Out) -> bool,
    ctx: C,
    world: World<R>,
    input: In,
    after: CtxStep<F, (ResMut<T, I>, ResMut<U, J>), Out>,
    ctx_after: C,
    world_after: World<R>,
    out: Out,
) where R: Apart<T, I, U, J>
    requires
        forall|a0: &mut C, a1: &mut T, a2: &mut U, a3: In, o: Out|
            #[trigger] call_ensures(step.f, (a0, a1, a2, a3), o)
                ==> promise((*a0, *a1, *a2, a3), (*final(a0), *final(a1), *final(a2)), o),
    ensures
        (forall|a0: &mut C, a1: &mut T, a2: &mut U|
            *a0 == ctx && *a1 == world.held::<T, I>() && *a2 == world.held::<U, J>()
                ==> #[trigger] call_requires(step.f, (a0, a1, a2, input)))
                    ==> CtxStepCall::<R, C, In>::call_pre(&step, ctx, world, input),
        CtxStepCall::<R, C, In>::call_post(
            &step,
            ctx,
            world,
            input,
            after,
            ctx_after,
            world_after,
            out,
        )
            ==> {
            &&& after == step
            &&& exists|held: T, other: U|
                #[trigger] promise(
                    (ctx, world.held::<T, I>(), world.held::<U, J>(), input),
                    (ctx_after, held, other),
                    out,
                )
                    && world_after == world.holding::<T, I>(held).holding::<U, J>(other)
        },
{
    if CtxStepCall::<R, C, In>::call_post(
        &step,
        ctx,
        world,
        input,
        after,
        ctx_after,
        world_after,
        out,
    ) {
        let (held, other) = choose|held: T, other: U|
            #[trigger] effect_mmmp(
                step.f,
                ctx,
                world.held::<T, I>(),
                world.held::<U, J>(),
                input,
                ctx_after,
                held,
                other,
                out,
            )
                && world_after == world.holding::<T, I>(held).holding::<U, J>(other);
        lemma_effect_mmmp(
            step.f,
            ctx,
            world.held::<T, I>(),
            world.held::<U, J>(),
            input,
            ctx_after,
            held,
            other,
            out,
        );
        assert(promise(
            (ctx, world.held::<T, I>(), world.held::<U, J>(), input),
            (ctx_after, held, other),
            out,
        ));
    }
}

/// What a function of the whole world promises, its step promises of what the world holds.
pub proof fn lemma_ctx_step_opaque<R, C, In, Out, F: FnMut(&mut C, &mut World<R>, In) -> Out>(
    step: CtxOpaqueStep<F, Out>,
    promise: spec_fn((C, World<R>, In), (C, World<R>), Out) -> bool,
    ctx: C,
    world: World<R>,
    input: In,
    after: CtxOpaqueStep<F, Out>,
    ctx_after: C,
    world_after: World<R>,
    out: Out,
)
    requires
        forall|a0: &mut C, a1: &mut World<R>, a2: In, o: Out|
            #[trigger] call_ensures(step.f, (a0, a1, a2), o)
                ==> promise((*a0, *a1, a2), (*final(a0), *final(a1)), o),
    ensures
        (forall|a0: &mut C, a1: &mut World<R>|
            *a0 == ctx && *a1 == world
                ==> #[trigger] call_requires(step.f, (a0, a1, input)))
                    ==> CtxStepCall::<R, C, In>::call_pre(&step, ctx, world, input),
        CtxStepCall::<R, C, In>::call_post(
            &step,
            ctx,
            world,
            input,
            after,
            ctx_after,
            world_after,
            out,
        )
            ==> {
            &&& after == step
            &&& promise((ctx, world, input), (ctx_after, world_after), out)
        },
{
    if CtxStepCall::<R, C, In>::call_post(
        &step,
        ctx,
        world,
        input,
        after,
        ctx_after,
        world_after,
        out,
    ) {
        lemma_effect_mmp(step.f, ctx, world, input, ctx_after, world_after, out);
    }
}

/// What a function of its input alone promises, its step promises of what the world holds.
pub proof fn lemma_ctx_step_unit_without_event<R, C, Out, F: FnMut(&mut C) -> Out>(
    step: CtxStep<NoEvent<F>, (), Out>,
    promise: spec_fn((C,), (C,), Out) -> bool,
    ctx: C,
    world: World<R>,
    input: (),
    after: CtxStep<NoEvent<F>, (), Out>,
    ctx_after: C,
    world_after: World<R>,
    out: Out,
)
    requires
        forall|a0: &mut C, o: Out|
            #[trigger] call_ensures(step.f.0, (a0,), o) ==> promise((*a0,), (*final(a0),), o),
    ensures
        (forall|a0: &mut C|
            *a0 == ctx
                ==> #[trigger] call_requires(step.f.0, (a0,)))
                    ==> CtxStepCall::<R, C, ()>::call_pre(&step, ctx, world, input),
        CtxStepCall::<R, C, ()>::call_post(
            &step,
            ctx,
            world,
            input,
            after,
            ctx_after,
            world_after,
            out,
        )
            ==> {
            &&& after == step
            &&& world_after == world
            &&& promise((ctx,), (ctx_after,), out)
        },
{
    if CtxStepCall::<R, C, ()>::call_post(
        &step,
        ctx,
        world,
        input,
        after,
        ctx_after,
        world_after,
        out,
    ) {
        lemma_effect_m(step.f.0, ctx, ctx_after, out);
    }
}

/// What a function of one resource promises, its step promises of what the world holds.
pub proof fn lemma_ctx_step_res_without_event<R, T, I, C, Out, F: FnMut(&mut C, &T) -> Out>(
    step: CtxStep<NoEvent<F>, Res<T, I>, Out>,
    promise: spec_fn((C, T), (C,), Out) -> bool,
    ctx: C,
    world: World<R>,
    input: (),
    after: CtxStep<NoEvent<F>, Res<T, I>, Out>,
    ctx_after: C,
    world_after: World<R>,
    out: Out,
) where R: Resource<T, I>
    requires
        forall|a0: &mut C, a1: &T, o: Out|
            #[trigger] call_ensures(step.f.0, (a0, a1), o)
                ==> promise((*a0, *a1), (*final(a0),), o),
    ensures
        (forall|a0: &mut C|
            *a0 == ctx
                ==> #[trigger] call_requires(step.f.0, (a0, &world.held::<T, I>())))
                    ==> CtxStepCall::<R, C, ()>::call_pre(&step, ctx, world, input),
        CtxStepCall::<R, C, ()>::call_post(
            &step,
            ctx,
            world,
            input,
            after,
            ctx_after,
            world_after,
            out,
        )
            ==> {
            &&& after == step
            &&& world_after == world
            &&& promise((ctx, world.held::<T, I>()), (ctx_after,), out)
        },
{
    if CtxStepCall::<R, C, ()>::call_post(
        &step,
        ctx,
        world,
        input,
        after,
        ctx_after,
        world_after,
        out,
    ) {
        lemma_effect_mp(step.f.0, ctx, &world.held::<T, I>(), ctx_after, out);
    }
}

/// What a function of one resource promises, its step promises of what the world holds.
pub proof fn lemma_ctx_step_resmut_without_event<R, T, I, C, Out, F: FnMut(&mut C, &mut T) -> Out>(
    step: CtxStep<NoEvent<F>, ResMut<T, I>, Out>,
    promise: spec_fn((C, T), (C, T), Out) -> bool,
    ctx: C,
    world: World<R>,
    input: (),
    after: CtxStep<NoEvent<F>, ResMut<T, I>, Out>,
    ctx_after: C,
    world_after: World<R>,
    out: Out,
) where R: Resource<T, I>
    requires
        forall|a0: &mut C, a1: &mut T, o: Out|
            #[trigger] call_ensures(step.f.0, (a0, a1), o)
                ==> promise((*a0, *a1), (*final(a0), *final(a1)), o),
    ensures
        (forall|a0: &mut C, a1: &mut T|
            *a0 == ctx && *a1 == world.held::<T, I>()
                ==> #[trigger] call_requires(step.f.0, (a0, a1)))
                    ==> CtxStepCall::<R, C, ()>::call_pre(&step, ctx, world, input),
        CtxStepCall::<R, C, ()>::call_post(
            &step,
            ctx,
            world,
            input,
            after,
            ctx_after,
            world_after,
            out,
        )
            ==> {
            &&& after == step
            &&& exists|held: T|
                #[trigger] promise((ctx, world.held::<T, I>()), (ctx_after, held), out)
                    && world_after == world.holding::<T, I>(held)
        },
{
    if CtxStepCall::<R, C, ()>::call_post(
        &step,
        ctx,
        world,
        input,
        after,
        ctx_after,
        world_after,
        out,
    ) {
        let held = choose|held: T|
            #[trigger] effect_mm(step.f.0, ctx, world.held::<T, I>(), ctx_after, held, out)
                && world_after == world.holding::<T, I>(held);
        lemma_effect_mm(step.f.0, ctx, world.held::<T, I>(), ctx_after, held, out);
        assert(promise((ctx, world.held::<T, I>()), (ctx_after, held), out));
    }
}

/// What a function of two resources promises, its step promises of what the world holds.
pub proof fn lemma_ctx_step_res_res_without_event<
    R,
    T,
    I,
    U,
    J,
    C,
    Out,
    F: FnMut(&mut C, &T, &U) -> Out,
>(
    step: CtxStep<NoEvent<F>, (Res<T, I>, Res<U, J>), Out>,
    promise: spec_fn((C, T, U), (C,), Out) -> bool,
    ctx: C,
    world: World<R>,
    input: (),
    after: CtxStep<NoEvent<F>, (Res<T, I>, Res<U, J>), Out>,
    ctx_after: C,
    world_after: World<R>,
    out: Out,
) where R: Resource<T, I> + Resource<U, J>
    requires
        forall|a0: &mut C, a1: &T, a2: &U, o: Out|
            #[trigger] call_ensures(step.f.0, (a0, a1, a2), o)
                ==> promise((*a0, *a1, *a2), (*final(a0),), o),
    ensures
        (forall|a0: &mut C|
            *a0 == ctx
                ==> #[trigger] call_requires(
                    step.f.0,
                    (a0, &world.held::<T, I>(), &world.held::<U, J>()),
                )) ==> CtxStepCall::<R, C, ()>::call_pre(&step, ctx, world, input),
        CtxStepCall::<R, C, ()>::call_post(
            &step,
            ctx,
            world,
            input,
            after,
            ctx_after,
            world_after,
            out,
        )
            ==> {
            &&& after == step
            &&& world_after == world
            &&& promise((ctx, world.held::<T, I>(), world.held::<U, J>()), (ctx_after,), out)
        },
{
    if CtxStepCall::<R, C, ()>::call_post(
        &step,
        ctx,
        world,
        input,
        after,
        ctx_after,
        world_after,
        out,
    ) {
        lemma_effect_mpp(
            step.f.0,
            ctx,
            &world.held::<T, I>(),
            &world.held::<U, J>(),
            ctx_after,
            out,
        );
    }
}

/// What a function of two resources promises, its step promises of what the world holds.
pub proof fn lemma_ctx_step_res_resmut_without_event<
    R,
    T,
    I,
    U,
    J,
    C,
    Out,
    F: FnMut(&mut C, &T, &mut U) -> Out,
>(
    step: CtxStep<NoEvent<F>, (Res<T, I>, ResMut<U, J>), Out>,
    promise: spec_fn((C, T, U), (C, U), Out) -> bool,
    ctx: C,
    world: World<R>,
    input: (),
    after: CtxStep<NoEvent<F>, (Res<T, I>, ResMut<U, J>), Out>,
    ctx_after: C,
    world_after: World<R>,
    out: Out,
) where R: Apart<T, I, U, J>
    requires
        forall|a0: &mut C, a1: &T, a2: &mut U, o: Out|
            #[trigger] call_ensures(step.f.0, (a0, a1, a2), o)
                ==> promise((*a0, *a1, *a2), (*final(a0), *final(a2)), o),
    ensures
        (forall|a0: &mut C, a2: &mut U|
            *a0 == ctx && *a2 == world.held::<U, J>()
                ==> #[trigger] call_requires(
                    step.f.0,
                    (a0, &world.held::<T, I>(), a2),
                )) ==> CtxStepCall::<R, C, ()>::call_pre(&step, ctx, world, input),
        CtxStepCall::<R, C, ()>::call_post(
            &step,
            ctx,
            world,
            input,
            after,
            ctx_after,
            world_after,
            out,
        )
            ==> {
            &&& after == step
            &&& exists|held: U|
                #[trigger] promise(
                    (ctx, world.held::<T, I>(), world.held::<U, J>()),
                    (ctx_after, held),
                    out,
                )
                    && world_after == world.holding::<U, J>(held)
        },
{
    if CtxStepCall::<R, C, ()>::call_post(
        &step,
        ctx,
        world,
        input,
        after,
        ctx_after,
        world_after,
        out,
    ) {
        let held = choose|held: U|
            #[trigger] effect_mpm(
                step.f.0,
                ctx,
                &world.held::<T, I>(),
                world.held::<U, J>(),
                ctx_after,
                held,
                out,
            )
                && world_after == world.holding::<U, J>(held);
        lemma_effect_mpm(
            step.f.0,
            ctx,
            &world.held::<T, I>(),
            world.held::<U, J>(),
            ctx_after,
            held,
            out,
        );
        assert(promise((ctx, world.held::<T, I>(), world.held::<U, J>()), (ctx_after, held), out));
    }
}

/// What a function of two resources promises, its step promises of what the world holds.
pub proof fn lemma_ctx_step_resmut_res_without_event<
    R,
    T,
    I,
    U,
    J,
    C,
    Out,
    F: FnMut(&mut C, &mut T, &U) -> Out,
>(
    step: CtxStep<NoEvent<F>, (ResMut<T, I>, Res<U, J>), Out>,
    promise: spec_fn((C, T, U), (C, T), Out) -> bool,
    ctx: C,
    world: World<R>,
    input: (),
    after: CtxStep<NoEvent<F>, (ResMut<T, I>, Res<U, J>), Out>,
    ctx_after: C,
    world_after: World<R>,
    out: Out,
) where R: Apart<U, J, T, I>
    requires
        forall|a0: &mut C, a1: &mut T, a2: &U, o: Out|
            #[trigger] call_ensures(step.f.0, (a0, a1, a2), o)
                ==> promise((*a0, *a1, *a2), (*final(a0), *final(a1)), o),
    ensures
        (forall|a0: &mut C, a1: &mut T|
            *a0 == ctx && *a1 == world.held::<T, I>()
                ==> #[trigger] call_requires(
                    step.f.0,
                    (a0, a1, &world.held::<U, J>()),
                )) ==> CtxStepCall::<R, C, ()>::call_pre(&step, ctx, world, input),
        CtxStepCall::<R, C, ()>::call_post(
            &step,
            ctx,
            world,
            input,
            after,
            ctx_after,
            world_after,
            out,
        )
            ==> {
            &&& after == step
            &&& exists|held: T|
                #[trigger] promise(
                    (ctx, world.held::<T, I>(), world.held::<U, J>()),
                    (ctx_after, held),
                    out,
                )
                    && world_after == world.holding::<T, I>(held)
        },
{
    if CtxStepCall::<R, C, ()>::call_post(
        &step,
        ctx,
        world,
        input,
        after,
        ctx_after,
        world_after,
        out,
    ) {
        let held = choose|held: T|
            #[trigger] effect_mmp(
                step.f.0,
                ctx,
                world.held::<T, I>(),
                &world.held::<U, J>(),
                ctx_after,
                held,
                out,
            )
                && world_after == world.holding::<T, I>(held);
        lemma_effect_mmp(
            step.f.0,
            ctx,
            world.held::<T, I>(),
            &world.held::<U, J>(),
            ctx_after,
            held,
            out,
        );
        assert(promise((ctx, world.held::<T, I>(), world.held::<U, J>()), (ctx_after, held), out));
    }
}

/// What a function of two resources promises, its step promises of what the world holds.
pub proof fn lemma_ctx_step_resmut_resmut_without_event<
    R,
    T,
    I,
    U,
    J,
    C,
    Out,
    F: FnMut(&mut C, &mut T, &mut U) -> Out,
>(
    step: CtxStep<NoEvent<F>, (ResMut<T, I>, ResMut<U, J>), Out>,
    promise: spec_fn((C, T, U), (C, T, U), Out) -> bool,
    ctx: C,
    world: World<R>,
    input: (),
    after: CtxStep<NoEvent<F>, (ResMut<T, I>, ResMut<U, J>), Out>,
    ctx_after: C,
    world_after: World<R>,
    out: Out,
) where R: Apart<T, I, U, J>
    requires
        forall|a0: &mut C, a1: &mut T, a2: &mut U, o: Out|
            #[trigger] call_ensures(step.f.0, (a0, a1, a2), o)
                ==> promise((*a0, *a1, *a2), (*final(a0), *final(a1), *final(a2)), o),
    ensures
        (forall|a0: &mut C, a1: &mut T, a2: &mut U|
            *a0 == ctx && *a1 == world.held::<T, I>() && *a2 == world.held::<U, J>()
                ==> #[trigger] call_requires(step.f.0, (a0, a1, a2)))
                    ==> CtxStepCall::<R, C, ()>::call_pre(&step, ctx, world, input),
        CtxStepCall::<R, C, ()>::call_post(
            &step,
            ctx,
            world,
            input,
            after,
            ctx_after,
            world_after,
            out,
        )
            ==> {
            &&& after == step
            &&& exists|held: T, other: U|
                #[trigger] promise(
                    (ctx, world.held::<T, I>(), world.held::<U, J>()),
                    (ctx_after, held, other),
                    out,
                )
                    && world_after == world.holding::<T, I>(held).holding::<U, J>(other)
        },
{
    if CtxStepCall::<R, C, ()>::call_post(
        &step,
        ctx,
        world,
        input,
        after,
        ctx_after,
        world_after,
        out,
    ) {
        let (held, other) = choose|held: T, other: U|
            #[trigger] effect_mmm(
                step.f.0,
                ctx,
                world.held::<T, I>(),
                world.held::<U, J>(),
                ctx_after,
                held,
                other,
                out,
            )
                && world_after == world.holding::<T, I>(held).holding::<U, J>(other);
        lemma_effect_mmm(
            step.f.0,
            ctx,
            world.held::<T, I>(),
            world.held::<U, J>(),
            ctx_after,
            held,
            other,
            out,
        );
        assert(promise(
            (ctx, world.held::<T, I>(), world.held::<U, J>()),
            (ctx_after, held, other),
            out,
        ));
    }
}

/// What a function of three resources promises, its step promises of what the world holds.
pub proof fn lemma_ctx_step_res_res_res<
    R,
    T,
    I,
    U,
    J,
    V,
    K,
    C,
    In,
    Out,
    F: FnMut(&mut C, &T, &U, &V, In) -> Out,
>(
    step: CtxStep<F, (Res<T, I>, Res<U, J>, Res<V, K>), Out>,
    promise: spec_fn((C, T, U, V, In), (C,), Out) -> bool,
    ctx: C,
    world: World<R>,
    input: In,
    after: CtxStep<F, (Res<T, I>, Res<U, J>, Res<V, K>), Out>,
    ctx_after: C,
    world_after: World<R>,
    out: Out,
) where R: Resource<T, I> + Resource<U, J> + Resource<V, K>
    requires
        forall|a0: &mut C, a1: &T, a2: &U, a3: &V, a4: In, o: Out|
            #[trigger] call_ensures(step.f, (a0, a1, a2, a3, a4), o)
                ==> promise((*a0, *a1, *a2, *a3, a4), (*final(a0),), o),
    ensures
        (forall|a0: &mut C|
            *a0 == ctx
                ==> #[trigger] call_requires(
                    step.f,
                    (
                        a0,
                        &world.held::<T, I>(),
                        &world.held::<U, J>(),
                        &world.held::<V, K>(),
                        input,
                    ),
                )) ==> CtxStepCall::<R, C, In>::call_pre(&step, ctx, world, input),
        CtxStepCall::<R, C, In>::call_post(
            &step,
            ctx,
            world,
            input,
            after,
            ctx_after,
            world_after,
            out,
        )
            ==> {
            &&& after == step
            &&& world_after == world
            &&& promise(
                (ctx, world.held::<T, I>(), world.held::<U, J>(), world.held::<V, K>(), input),
                (ctx_after,),
                out,
            )
        },
{
    if CtxStepCall::<R, C, In>::call_post(
        &step,
        ctx,
        world,
        input,
        after,
        ctx_after,
        world_after,
        out,
    ) {
        lemma_effect_mpppp(
            step.f,
            ctx,
            &world.held::<T, I>(),
            &world.held::<U, J>(),
            &world.held::<V, K>(),
            input,
            ctx_after,
            out,
        );
    }
}

/// What a function of three resources promises, its step promises of what the world holds.
pub proof fn lemma_ctx_step_res_res_resmut<
    R,
    T,
    I,
    U,
    J,
    V,
    K,
    C,
    In,
    Out,
    F: FnMut(&mut C, &T, &U, &mut V, In) -> Out,
>(
    step: CtxStep<F, (Res<T, I>, Res<U, J>, ResMut<V, K>), Out>,
    promise: spec_fn((C, T, U, V, In), (C, V), Out) -> bool,
    ctx: C,
    world: World<R>,
    input: In,
    after: CtxStep<F, (Res<T, I>, Res<U, J>, ResMut<V, K>), Out>,
    ctx_after: C,
    world_after: World<R>,
    out: Out,
) where R: Apart3<T, I, U, J, V, K>
    requires
        forall|a0: &mut C, a1: &T, a2: &U, a3: &mut V, a4: In, o: Out|
            #[trigger] call_ensures(step.f, (a0, a1, a2, a3, a4), o)
                ==> promise((*a0, *a1, *a2, *a3, a4), (*final(a0), *final(a3)), o),
    ensures
        (forall|a0: &mut C, a3: &mut V|
            *a0 == ctx && *a3 == world.held::<V, K>()
                ==> #[trigger] call_requires(
                    step.f,
                    (a0, &world.held::<T, I>(), &world.held::<U, J>(), a3, input),
                )) ==> CtxStepCall::<R, C, In>::call_pre(&step, ctx, world, input),
        CtxStepCall::<R, C, In>::call_post(
            &step,
            ctx,
            world,
            input,
            after,
            ctx_after,
            world_after,
            out,
        )
            ==> {
            &&& after == step
            &&& exists|held: V|
                #[trigger] promise(
                    (ctx, world.held::<T, I>(), world.held::<U, J>(), world.held::<V, K>(), input),
                    (ctx_after, held),
                    out,
                )
                    && world_after == world.holding::<V, K>(held)
        },
{
    if CtxStepCall::<R, C, In>::call_post(
        &step,
        ctx,
        world,
        input,
        after,
        ctx_after,
        world_after,
        out,
    ) {
        let held = choose|held: V|
            #[trigger] effect_mppmp(
                step.f,
                ctx,
                &world.held::<T, I>(),
                &world.held::<U, J>(),
                world.held::<V, K>(),
                input,
                ctx_after,
                held,
                out,
            )
                && world_after == world.holding::<V, K>(held);
        lemma_effect_mppmp(
            step.f,
            ctx,
            &world.held::<T, I>(),
            &world.held::<U, J>(),
            world.held::<V, K>(),
            input,
            ctx_after,
            held,
            out,
        );
        assert(promise(
            (ctx, world.held::<T, I>(), world.held::<U, J>(), world.held::<V, K>(), input),
            (ctx_after, held),
            out,
        ));
    }
}

/// What a function of three resources promises, its step promises of what the world holds.
pub proof fn lemma_ctx_step_res_resmut_res<
    R,
    T,
    I,
    U,
    J,
    V,
    K,
    C,
    In,
    Out,
    F: FnMut(&mut C, &T, &mut U, &V, In) -> Out,
>(
    step: CtxStep<F, (Res<T, I>, ResMut<U, J>, Res<V, K>), Out>,
    promise: spec_fn((C, T, U, V, In), (C, U), Out) -> bool,
    ctx: C,
    world: World<R>,
    input: In,
    after: CtxStep<F, (Res<T, I>, ResMut<U, J>, Res<V, K>), Out>,
    ctx_after: C,
    world_after: World<R>,
    out: Out,
) where R: Apart3<T, I, V, K, U, J>
    requires
        forall|a0: &mut C, a1: &T, a2: &mut U, a3: &V, a4: In, o: Out|
            #[trigger] call_ensures(step.f, (a0, a1, a2, a3, a4), o)
                ==> promise((*a0, *a1, *a2, *a3, a4), (*final(a0), *final(a2)), o),
    ensures
        (forall|a0: &mut C, a2: &mut U|
            *a0 == ctx && *a2 == world.held::<U, J>()
                ==> #[trigger] call_requires(
                    step.f,
                    (a0, &world.held::<T, I>(), a2, &world.held::<V, K>(), input),
                )) ==> CtxStepCall::<R, C, In>::call_pre(&step, ctx, world, input),
        CtxStepCall::<R, C, In>::call_post(
            &step,
            ctx,
            world,
            input,
            after,
            ctx_after,
            world_after,
            out,
        )
            ==> {
            &&& after == step
            &&& exists|held: U|
                #[trigger] promise(
                    (ctx, world.held::<T, I>(), world.held::<U, J>(), world.held::<V, K>(), input),
                    (ctx_after, held),
                    out,
                )
                    && world_after == world.holding::<U, J>(held)
        },
{
    if CtxStepCall::<R, C, In>::call_post(
        &step,
        ctx,
        world,
        input,
        after,
        ctx_after,
        world_after,
        out,
    ) {
        let held = choose|held: U|
            #[trigger] effect_mpmpp(
                step.f,
                ctx,
                &world.held::<T, I>(),
                world.held::<U, J>(),
                &world.held::<V, K>(),
                input,
                ctx_after,
                held,
                out,
            )
                && world_after == world.holding::<U, J>(held);
        lemma_effect_mpmpp(
            step.f,
            ctx,
            &world.held::<T, I>(),
            world.held::<U, J>(),
            &world.held::<V, K>(),
            input,
            ctx_after,
            held,
            out,
        );
        assert(promise(
            (ctx, world.held::<T, I>(), world.held::<U, J>(), world.held::<V, K>(), input),
            (ctx_after, held),
            out,
        ));
    }
}

/// What a function of three resources promises, its step promises of what the world holds.
pub proof fn lemma_ctx_step_res_resmut_resmut<
    R,
    T,
    I,
    U,
    J,
    V,
    K,
    C,
    In,
    Out,
    F: FnMut(&mut C, &T, &mut U, &mut V, In) -> Out,
>(
    step: CtxStep<F, (Res<T, I>, ResMut<U, J>, ResMut<V, K>), Out>,
    promise: spec_fn((C, T, U, V, In), (C, U, V), Out) -> bool,
    ctx: C,
    world: World<R>,
    input: In,
    after: CtxStep<F, (Res<T, I>, ResMut<U, J>, ResMut<V, K>), Out>,
    ctx_after: C,
    world_after: World<R>,
    out: Out,
) where R: Apart3<T, I, U, J, V, K>
    requires
        forall|a0: &mut C, a1: &T, a2: &mut U, a3: &mut V, a4: In, o: Out|
            #[trigger] call_ensures(step.f, (a0, a1, a2, a3, a4), o)
                ==> promise((*a0, *a1, *a2, *a3, a4), (*final(a0), *final(a2), *final(a3)), o),
    ensures
        (forall|a0: &mut C, a2: &mut U, a3: &mut V|
            *a0 == ctx && *a2 == world.held::<U, J>() && *a3 == world.held::<V, K>()
                ==> #[trigger] call_requires(
                    step.f,
                    (a0, &world.held::<T, I>(), a2, a3, input),
                )) ==> CtxStepCall::<R, C, In>::call_pre(&step, ctx, world, input),
        CtxStepCall::<R, C, In>::call_post(
            &step,
            ctx,
            world,
            input,
            after,
            ctx_after,
            world_after,
            out,
        )
            ==> {
            &&& after == step
            &&& exists|held: U, other: V|
                #[trigger] promise(
                    (ctx, world.held::<T, I>(), world.held::<U, J>(), world.held::<V, K>(), input),
                    (ctx_after, held, other),
                    out,
                )
                    && world_after == world.holding::<U, J>(held).holding::<V, K>(other)
        },
{
    if CtxStepCall::<R, C, In>::call_post(
        &step,
        ctx,
        world,
        input,
        after,
        ctx_after,
        world_after,
        out,
    ) {
        let (held, other) = choose|held: U, other: V|
            #[trigger] effect_mpmmp(
                step.f,
                ctx,
                &world.held::<T, I>(),
                world.held::<U, J>(),
                world.held::<V, K>(),
                input,
                ctx_after,
                held,
                other,
                out,
            )
                && world_after == world.holding::<U, J>(held).holding::<V, K>(other);
        lemma_effect_mpmmp(
            step.f,
            ctx,
            &world.held::<T, I>(),
            world.held::<U, J>(),
            world.held::<V, K>(),
            input,
            ctx_after,
            held,
            other,
            out,
        );
        assert(promise(
            (ctx, world.held::<T, I>(), world.held::<U, J>(), world.held::<V, K>(), input),
            (ctx_after, held, other),
            out,
        ));
    }
}

/// What a function of three resources promises, its step promises of what the world holds.
pub proof fn lemma_ctx_step_resmut_res_res<
    R,
    T,
    I,
    U,
    J,
    V,
    K,
    C,
    In,
    Out,
    F: FnMut(&mut C, &mut T, &U, &V, In) -> Out,
>(
    step: CtxStep<F, (ResMut<T, I>, Res<U, J>, Res<V, K>), Out>,
    promise: spec_fn((C, T, U, V, In), (C, T), Out) -> bool,
    ctx: C,
    world: World<R>,
    input: In,
    after: CtxStep<F, (ResMut<T, I>, Res<U, J>, Res<V, K>), Out>,
    ctx_after: C,
    world_after: World<R>,
    out: Out,
) where R: Apart3<U, J, V, K, T, I>
    requires
        forall|a0: &mut C, a1: &mut T, a2: &U, a3: &V, a4: In, o: Out|
            #[trigger] call_ensures(step.f, (a0, a1, a2, a3, a4), o)
                ==> promise((*a0, *a1, *a2, *a3, a4), (*final(a0), *final(a1)), o),
    ensures
        (forall|a0: &mut C, a1: &mut T|
            *a0 == ctx && *a1 == world.held::<T, I>()
                ==> #[trigger] call_requires(
                    step.f,
                    (a0, a1, &world.held::<U, J>(), &world.held::<V, K>(), input),
                )) ==> CtxStepCall::<R, C, In>::call_pre(&step, ctx, world, input),
        CtxStepCall::<R, C, In>::call_post(
            &step,
            ctx,
            world,
            input,
            after,
            ctx_after,
            world_after,
            out,
        )
            ==> {
            &&& after == step
            &&& exists|held: T|
                #[trigger] promise(
                    (ctx, world.held::<T, I>(), world.held::<U, J>(), world.held::<V, K>(), input),
                    (ctx_after, held),
                    out,
                )
                    && world_after == world.holding::<T, I>(held)
        },
{
    if CtxStepCall::<R, C, In>::call_post(
        &step,
        ctx,
        world,
        input,
        after,
        ctx_after,
        world_after,
        out,
    ) {
        let held = choose|held: T|
            #[trigger] effect_mmppp(
                step.f,
                ctx,
                world.held::<T, I>(),
                &world.held::<U, J>(),
                &world.held::<V, K>(),
                input,
                ctx_after,
                held,
                out,
            )
                && world_after == world.holding::<T, I>(held);
        lemma_effect_mmppp(
            step.f,
            ctx,
            world.held::<T, I>(),
            &world.held::<U, J>(),
            &world.held::<V, K>(),
            input,
            ctx_after,
            held,
            out,
        );
        assert(promise(
            (ctx, world.held::<T, I>(), world.held::<U, J>(), world.held::<V, K>(), input),
            (ctx_after, held),
            out,
        ));
    }
}

/// What a function of three resources promises, its step promises of what the world holds.
pub proof fn lemma_ctx_step_resmut_res_resmut<
    R,
    T,
    I,
    U,
    J,
    V,
    K,
    C,
    In,
    Out,
    F: FnMut(&mut C, &mut T, &U, &mut V, In) -> Out,
>(
    step: CtxStep<F, (ResMut<T, I>, Res<U, J>, ResMut<V, K>), Out>,
    promise: spec_fn((C, T, U, V, In), (C, T, V), Out) -> bool,
    ctx: C,
    world: World<R>,
    input: In,
    after: CtxStep<F, (ResMut<T, I>, Res<U, J>, ResMut<V, K>), Out>,
    ctx_after: C,
    world_after: World<R>,
    out: Out,
) where R: Apart3<U, J, T, I, V, K>
    requires
        forall|a0: &mut C, a1: &mut T, a2: &U, a3: &mut V, a4: In, o: Out|
            #[trigger] call_ensures(step.f, (a0, a1, a2, a3, a4), o)
                ==> promise((*a0, *a1, *a2, *a3, a4), (*final(a0), *final(a1), *final(a3)), o),
    ensures
        (forall|a0: &mut C, a1: &mut T, a3: &mut V|
            *a0 == ctx && *a1 == world.held::<T, I>() && *a3 == world.held::<V, K>()
                ==> #[trigger] call_requires(
                    step.f,
                    (a0, a1, &world.held::<U, J>(), a3, input),
                )) ==> CtxStepCall::<R, C, In>::call_pre(&step, ctx, world, input),
        CtxStepCall::<R, C, In>::call_post(
            &step,
            ctx,
            world,
            input,
            after,
            ctx_after,
            world_after,
            out,
        )
            ==> {
            &&& after == step
            &&& exists|held: T, other: V|
                #[trigger] promise(
                    (ctx, world.held::<T, I>(), world.held::<U, J>(), world.held::<V, K>(), input),
                    (ctx_after, held, other),
                    out,
                )
                    && world_after == world.holding::<T, I>(held).holding::<V, K>(other)
        },
{
    if CtxStepCall::<R, C, In>::call_post(
        &step,
        ctx,
        world,
        input,
        after,
        ctx_after,
        world_after,
        out,
    ) {
        let (held, other) = choose|held: T, other: V|
            #[trigger] effect_mmpmp(
                step.f,
                ctx,
                world.held::<T, I>(),
                &world.held::<U, J>(),
                world.held::<V, K>(),
                input,
                ctx_after,
                held,
                other,
                out,
            )
                && world_after == world.holding::<T, I>(held).holding::<V, K>(other);
        lemma_effect_mmpmp(
            step.f,
            ctx,
            world.held::<T, I>(),
            &world.held::<U, J>(),
            world.held::<V, K>(),
            input,
            ctx_after,
            held,
            other,
            out,
        );
        assert(promise(
            (ctx, world.held::<T, I>(), world.held::<U, J>(), world.held::<V, K>(), input),
            (ctx_after, held, other),
            out,
        ));
    }
}

/// What a function of three resources promises, its step promises of what the world holds.
pub proof fn lemma_ctx_step_resmut_resmut_res<
    R,
    T,
    I,
    U,
    J,
    V,
    K,
    C,
    In,
    Out,
    F: FnMut(&mut C, &mut T, &mut U, &V, In) -> Out,
>(
    step: CtxStep<F, (ResMut<T, I>, ResMut<U, J>, Res<V, K>), Out>,
    promise: spec_fn((C, T, U, V, In), (C, T, U), Out) -> bool,
    ctx: C,
    world: World<R>,
    input: In,
    after: CtxStep<F, (ResMut<T, I>, ResMut<U, J>, Res<V, K>), Out>,
    ctx_after: C,
    world_after: World<R>,
    out: Out,
) where R: Apart3<V, K, T, I, U, J>
    requires
        forall|a0: &mut C, a1: &mut T, a2: &mut U, a3: &V, a4: In, o: Out|
            #[trigger] call_ensures(step.f, (a0, a1, a2, a3, a4), o)
                ==> promise((*a0, *a1, *a2, *a3, a4), (*final(a0), *final(a1), *final(a2)), o),
    ensures
        (forall|a0: &mut C, a1: &mut T, a2: &mut U|
            *a0 == ctx && *a1 == world.held::<T, I>() && *a2 == world.held::<U, J>()
                ==> #[trigger] call_requires(
                    step.f,
                    (a0, a1, a2, &world.held::<V, K>(), input),
                )) ==> CtxStepCall::<R, C, In>::call_pre(&step, ctx, world, input),
        CtxStepCall::<R, C, In>::call_post(
            &step,
            ctx,
            world,
            input,
            after,
            ctx_after,
            world_after,
            out,
        )
            ==> {
            &&& after == step
            &&& exists|held: T, other: U|
                #[trigger] promise(
                    (ctx, world.held::<T, I>(), world.held::<U, J>(), world.held::<V, K>(), input),
                    (ctx_after, held, other),
                    out,
                )
                    && world_after == world.holding::<T, I>(held).holding::<U, J>(other)
        },
{
    if CtxStepCall::<R, C, In>::call_post(
        &step,
        ctx,
        world,
        input,
        after,
        ctx_after,
        world_after,
        out,
    ) {
        let (held, other) = choose|held: T, other: U|
            #[trigger] effect_mmmpp(
                step.f,
                ctx,
                world.held::<T, I>(),
                world.held::<U, J>(),
                &world.held::<V, K>(),
                input,
                ctx_after,
                held,
                other,
                out,
            )
                && world_after == world.holding::<T, I>(held).holding::<U, J>(other);
        lemma_effect_mmmpp(
            step.f,
            ctx,
            world.held::<T, I>(),
            world.held::<U, J>(),
            &world.held::<V, K>(),
            input,
            ctx_after,
            held,
            other,
            out,
        );
        assert(promise(
            (ctx, world.held::<T, I>(), world.held::<U, J>(), world.held::<V, K>(), input),
            (ctx_after, held, other),
            out,
        ));
    }
}

/// What a function of three resources promises, its step promises of what the world holds.
pub proof fn lemma_ctx_step_resmut_resmut_resmut<
    R,
    T,
    I,
    U,
    J,
    V,
    K,
    C,
    In,
    Out,
    F: FnMut(&mut C, &mut T, &mut U, &mut V, In) -> Out,
>(
    step: CtxStep<F, (ResMut<T, I>, ResMut<U, J>, ResMut<V, K>), Out>,
    promise: spec_fn((C, T, U, V, In), (C, T, U, V), Out) -> bool,
    ctx: C,
    world: World<R>,
    input: In,
    after: CtxStep<F, (ResMut<T, I>, ResMut<U, J>, ResMut<V, K>), Out>,
    ctx_after: C,
    world_after: World<R>,
    out: Out,
) where R: Apart3<T, I, U, J, V, K>
    requires
        forall|a0: &mut C, a1: &mut T, a2: &mut U, a3: &mut V, a4: In, o: Out|
            #[trigger] call_ensures(step.f, (a0, a1, a2, a3, a4), o)
                ==> promise(
                    (*a0, *a1, *a2, *a3, a4),
                    (*final(a0), *final(a1), *final(a2), *final(a3)),
                    o,
                ),
    ensures
        (forall|a0: &mut C, a1: &mut T, a2: &mut U, a3: &mut V|
            *a0 == ctx
                && *a1 == world.held::<T, I>()
                && *a2 == world.held::<U, J>()
                && *a3 == world.held::<V, K>()
                ==> #[trigger] call_requires(step.f, (a0, a1, a2, a3, input)))
                    ==> CtxStepCall::<R, C, In>::call_pre(&step, ctx, world, input),
        CtxStepCall::<R, C, In>::call_post(
            &step,
            ctx,
            world,
            input,
            after,
            ctx_after,
            world_after,
            out,
        )
            ==> {
            &&& after == step
            &&& exists|held: T, other: U, last: V|
                #[trigger] promise(
                    (ctx, world.held::<T, I>(), world.held::<U, J>(), world.held::<V, K>(), input),
                    (ctx_after, held, other, last),
                    out,
                )
                    && world_after == world.holding::<T, I>(held).holding::<U, J>(other).holding::<V, K>(last)
        },
{
    if CtxStepCall::<R, C, In>::call_post(
        &step,
        ctx,
        world,
        input,
        after,
        ctx_after,
        world_after,
        out,
    ) {
        let (held, other, last) = choose|held: T, other: U, last: V|
            #[trigger] effect_mmmmp(
                step.f,
                ctx,
                world.held::<T, I>(),
                world.held::<U, J>(),
                world.held::<V, K>(),
                input,
                ctx_after,
                held,
                other,
                last,
                out,
            )
                && world_after == world.holding::<T, I>(held).holding::<U, J>(other).holding::<V, K>(last);
        lemma_effect_mmmmp(
            step.f,
            ctx,
            world.held::<T, I>(),
            world.held::<U, J>(),
            world.held::<V, K>(),
            input,
            ctx_after,
            held,
            other,
            last,
            out,
        );
        assert(promise(
            (ctx, world.held::<T, I>(), world.held::<U, J>(), world.held::<V, K>(), input),
            (ctx_after, held, other, last),
            out,
        ));
    }
}

/// What a function of three resources promises, its step promises of what the world holds.
pub proof fn lemma_ctx_step_res_res_res_without_event<
    R,
    T,
    I,
    U,
    J,
    V,
    K,
    C,
    Out,
    F: FnMut(&mut C, &T, &U, &V) -> Out,
>(
    step: CtxStep<NoEvent<F>, (Res<T, I>, Res<U, J>, Res<V, K>), Out>,
    promise: spec_fn((C, T, U, V), (C,), Out) -> bool,
    ctx: C,
    world: World<R>,
    input: (),
    after: CtxStep<NoEvent<F>, (Res<T, I>, Res<U, J>, Res<V, K>), Out>,
    ctx_after: C,
    world_after: World<R>,
    out: Out,
) where R: Resource<T, I> + Resource<U, J> + Resource<V, K>
    requires
        forall|a0: &mut C, a1: &T, a2: &U, a3: &V, o: Out|
            #[trigger] call_ensures(step.f.0, (a0, a1, a2, a3), o)
                ==> promise((*a0, *a1, *a2, *a3), (*final(a0),), o),
    ensures
        (forall|a0: &mut C|
            *a0 == ctx
                ==> #[trigger] call_requires(
                    step.f.0,
                    (a0, &world.held::<T, I>(), &world.held::<U, J>(), &world.held::<V, K>()),
                )) ==> CtxStepCall::<R, C, ()>::call_pre(&step, ctx, world, input),
        CtxStepCall::<R, C, ()>::call_post(
            &step,
            ctx,
            world,
            input,
            after,
            ctx_after,
            world_after,
            out,
        )
            ==> {
            &&& after == step
            &&& world_after == world
            &&& promise(
                (ctx, world.held::<T, I>(), world.held::<U, J>(), world.held::<V, K>()),
                (ctx_after,),
                out,
            )
        },
{
    if CtxStepCall::<R, C, ()>::call_post(
        &step,
        ctx,
        world,
        input,
        after,
        ctx_after,
        world_after,
        out,
    ) {
        lemma_effect_mppp(
            step.f.0,
            ctx,
            &world.held::<T, I>(),
            &world.held::<U, J>(),
            &world.held::<V, K>(),
            ctx_after,
            out,
        );
    }
}

/// What a function of three resources promises, its step promises of what the world holds.
pub proof fn lemma_ctx_step_res_res_resmut_without_event<
    R,
    T,
    I,
    U,
    J,
    V,
    K,
    C,
    Out,
    F: FnMut(&mut C, &T, &U, &mut V) -> Out,
>(
    step: CtxStep<NoEvent<F>, (Res<T, I>, Res<U, J>, ResMut<V, K>), Out>,
    promise: spec_fn((C, T, U, V), (C, V), Out) -> bool,
    ctx: C,
    world: World<R>,
    input: (),
    after: CtxStep<NoEvent<F>, (Res<T, I>, Res<U, J>, ResMut<V, K>), Out>,
    ctx_after: C,
    world_after: World<R>,
    out: Out,
) where R: Apart3<T, I, U, J, V, K>
    requires
        forall|a0: &mut C, a1: &T, a2: &U, a3: &mut V, o: Out|
            #[trigger] call_ensures(step.f.0, (a0, a1, a2, a3), o)
                ==> promise((*a0, *a1, *a2, *a3), (*final(a0), *final(a3)), o),
    ensures
        (forall|a0: &mut C, a3: &mut V|
            *a0 == ctx && *a3 == world.held::<V, K>()
                ==> #[trigger] call_requires(
                    step.f.0,
                    (a0, &world.held::<T, I>(), &world.held::<U, J>(), a3),
                )) ==> CtxStepCall::<R, C, ()>::call_pre(&step, ctx, world, input),
        CtxStepCall::<R, C, ()>::call_post(
            &step,
            ctx,
            world,
            input,
            after,
            ctx_after,
            world_after,
            out,
        )
            ==> {
            &&& after == step
            &&& exists|held: V|
                #[trigger] promise(
                    (ctx, world.held::<T, I>(), world.held::<U, J>(), world.held::<V, K>()),
                    (ctx_after, held),
                    out,
                )
                    && world_after == world.holding::<V, K>(held)
        },
{
    if CtxStepCall::<R, C, ()>::call_post(
        &step,
        ctx,
        world,
        input,
        after,
        ctx_after,
        world_after,
        out,
    ) {
        let held = choose|held: V|
            #[trigger] effect_mppm(
                step.f.0,
                ctx,
                &world.held::<T, I>(),
                &world.held::<U, J>(),
                world.held::<V, K>(),
                ctx_after,
                held,
                out,
            )
                && world_after == world.holding::<V, K>(held);
        lemma_effect_mppm(
            step.f.0,
            ctx,
            &world.held::<T, I>(),
            &world.held::<U, J>(),
            world.held::<V, K>(),
            ctx_after,
            held,
            out,
        );
        assert(promise(
            (ctx, world.held::<T, I>(), world.held::<U, J>(), world.held::<V, K>()),
            (ctx_after, held),
            out,
        ));
    }
}

/// What a function of three resources promises, its step promises of what the world holds.
pub proof fn lemma_ctx_step_res_resmut_res_without_event<
    R,
    T,
    I,
    U,
    J,
    V,
    K,
    C,
    Out,
    F: FnMut(&mut C, &T, &mut U, &V) -> Out,
>(
    step: CtxStep<NoEvent<F>, (Res<T, I>, ResMut<U, J>, Res<V, K>), Out>,
    promise: spec_fn((C, T, U, V), (C, U), Out) -> bool,
    ctx: C,
    world: World<R>,
    input: (),
    after: CtxStep<NoEvent<F>, (Res<T, I>, ResMut<U, J>, Res<V, K>), Out>,
    ctx_after: C,
    world_after: World<R>,
    out: Out,
) where R: Apart3<T, I, V, K, U, J>
    requires
        forall|a0: &mut C, a1: &T, a2: &mut U, a3: &V, o: Out|
            #[trigger] call_ensures(step.f.0, (a0, a1, a2, a3), o)
                ==> promise((*a0, *a1, *a2, *a3), (*final(a0), *final(a2)), o),
    ensures
        (forall|a0: &mut C, a2: &mut U|
            *a0 == ctx && *a2 == world.held::<U, J>()
                ==> #[trigger] call_requires(
                    step.f.0,
                    (a0, &world.held::<T, I>(), a2, &world.held::<V, K>()),
                )) ==> CtxStepCall::<R, C, ()>::call_pre(&step, ctx, world, input),
        CtxStepCall::<R, C, ()>::call_post(
            &step,
            ctx,
            world,
            input,
            after,
            ctx_after,
            world_after,
            out,
        )
            ==> {
            &&& after == step
            &&& exists|held: U|
                #[trigger] promise(
                    (ctx, world.held::<T, I>(), world.held::<U, J>(), world.held::<V, K>()),
                    (ctx_after, held),
                    out,
                )
                    && world_after == world.holding::<U, J>(held)
        },
{
    if CtxStepCall::<R, C, ()>::call_post(
        &step,
        ctx,
        world,
        input,
        after,
        ctx_after,
        world_after,
        out,
    ) {
        let held = choose|held: U|
            #[trigger] effect_mpmp(
                step.f.0,
                ctx,
                &world.held::<T, I>(),
                world.held::<U, J>(),
                &world.held::<V, K>(),
                ctx_after,
                held,
                out,
            )
                && world_after == world.holding::<U, J>(held);
        lemma_effect_mpmp(
            step.f.0,
            ctx,
            &world.held::<T, I>(),
            world.held::<U, J>(),
            &world.held::<V, K>(),
            ctx_after,
            held,
            out,
        );
        assert(promise(
            (ctx, world.held::<T, I>(), world.held::<U, J>(), world.held::<V, K>()),
            (ctx_after, held),
            out,
        ));
    }
}

/// What a function of three resources promises, its step promises of what the world holds.
pub proof fn lemma_ctx_step_res_resmut_resmut_without_event<
    R,
    T,
    I,
    U,
    J,
    V,
    K,
    C,
    Out,
    F: FnMut(&mut C, &T, &mut U, &mut V) -> Out,
>(
    step: CtxStep<NoEvent<F>, (Res<T, I>, ResMut<U, J>, ResMut<V, K>), Out>,
    promise: spec_fn((C, T, U, V), (C, U, V), Out) -> bool,
    ctx: C,
    world: World<R>,
    input: (),
    after: CtxStep<NoEvent<F>, (Res<T, I>, ResMut<U, J>, ResMut<V, K>), Out>,
    ctx_after: C,
    world_after: World<R>,
    out: Out,
) where R: Apart3<T, I, U, J, V, K>
    requires
        forall|a0: &mut C, a1: &T, a2: &mut U, a3: &mut V, o: Out|
            #[trigger] call_ensures(step.f.0, (a0, a1, a2, a3), o)
                ==> promise((*a0, *a1, *a2, *a3), (*final(a0), *final(a2), *final(a3)), o),
    ensures
        (forall|a0: &mut C, a2: &mut U, a3: &mut V|
            *a0 == ctx && *a2 == world.held::<U, J>() && *a3 == world.held::<V, K>()
                ==> #[trigger] call_requires(
                    step.f.0,
                    (a0, &world.held::<T, I>(), a2, a3),
                )) ==> CtxStepCall::<R, C, ()>::call_pre(&step, ctx, world, input),
        CtxStepCall::<R, C, ()>::call_post(
            &step,
            ctx,
            world,
            input,
            after,
            ctx_after,
            world_after,
            out,
        )
            ==> {
            &&& after == step
            &&& exists|held: U, other: V|
                #[trigger] promise(
                    (ctx, world.held::<T, I>(), world.held::<U, J>(), world.held::<V, K>()),
                    (ctx_after, held, other),
                    out,
                )
                    && world_after == world.holding::<U, J>(held).holding::<V, K>(other)
        },
{
    if CtxStepCall::<R, C, ()>::call_post(
        &step,
        ctx,
        world,
        input,
        after,
        ctx_after,
        world_after,
        out,
    ) {
        let (held, other) = choose|held: U, other: V|
            #[trigger] effect_mpmm(
                step.f.0,
                ctx,
                &world.held::<T, I>(),
                world.held::<U, J>(),
                world.held::<V, K>(),
                ctx_after,
                held,
                other,
                out,
            )
                && world_after == world.holding::<U, J>(held).holding::<V, K>(other);
        lemma_effect_mpmm(
            step.f.0,
            ctx,
            &world.held::<T, I>(),
            world.held::<U, J>(),
            world.held::<V, K>(),
            ctx_after,
            held,
            other,
            out,
        );
        assert(promise(
            (ctx, world.held::<T, I>(), world.held::<U, J>(), world.held::<V, K>()),
            (ctx_after, held, other),
            out,
        ));
    }
}

/// What a function of three resources promises, its step promises of what the world holds.
pub proof fn lemma_ctx_step_resmut_res_res_without_event<
    R,
    T,
    I,
    U,
    J,
    V,
    K,
    C,
    Out,
    F: FnMut(&mut C, &mut T, &U, &V) -> Out,
>(
    step: CtxStep<NoEvent<F>, (ResMut<T, I>, Res<U, J>, Res<V, K>), Out>,
    promise: spec_fn((C, T, U, V), (C, T), Out) -> bool,
    ctx: C,
    world: World<R>,
    input: (),
    after: CtxStep<NoEvent<F>, (ResMut<T, I>, Res<U, J>, Res<V, K>), Out>,
    ctx_after: C,
    world_after: World<R>,
    out: Out,
) where R: Apart3<U, J, V, K, T, I>
    requires
        forall|a0: &mut C, a1: &mut T, a2: &U, a3: &V, o: Out|
            #[trigger] call_ensures(step.f.0, (a0, a1, a2, a3), o)
                ==> promise((*a0, *a1, *a2, *a3), (*final(a0), *final(a1)), o),
    ensures
        (forall|a0: &mut C, a1: &mut T|
            *a0 == ctx && *a1 == world.held::<T, I>()
                ==> #[trigger] call_requires(
                    step.f.0,
                    (a0, a1, &world.held::<U, J>(), &world.held::<V, K>()),
                )) ==> CtxStepCall::<R, C, ()>::call_pre(&step, ctx, world, input),
        CtxStepCall::<R, C, ()>::call_post(
            &step,
            ctx,
            world,
            input,
            after,
            ctx_after,
            world_after,
            out,
        )
            ==> {
            &&& after == step
            &&& exists|held: T|
                #[trigger] promise(
                    (ctx, world.held::<T, I>(), world.held::<U, J>(), world.held::<V, K>()),
                    (ctx_after, held),
                    out,
                )
                    && world_after == world.holding::<T, I>(held)
        },
{
    if CtxStepCall::<R, C, ()>::call_post(
        &step,
        ctx,
        world,
        input,
        after,
        ctx_after,
        world_after,
        out,
    ) {
        let held = choose|held: T|
            #[trigger] effect_mmpp(
                step.f.0,
                ctx,
                world.held::<T, I>(),
                &world.held::<U, J>(),
                &world.held::<V, K>(),
                ctx_after,
                held,
                out,
            )
                && world_after == world.holding::<T, I>(held);
        lemma_effect_mmpp(
            step.f.0,
            ctx,
            world.held::<T, I>(),
            &world.held::<U, J>(),
            &world.held::<V, K>(),
            ctx_after,
            held,
            out,
        );
        assert(promise(
            (ctx, world.held::<T, I>(), world.held::<U, J>(), world.held::<V, K>()),
            (ctx_after, held),
            out,
        ));
    }
}

/// What a function of three resources promises, its step promises of what the world holds.
pub proof fn lemma_ctx_step_resmut_res_resmut_without_event<
    R,
    T,
    I,
    U,
    J,
    V,
    K,
    C,
    Out,
    F: FnMut(&mut C, &mut T, &U, &mut V) -> Out,
>(
    step: CtxStep<NoEvent<F>, (ResMut<T, I>, Res<U, J>, ResMut<V, K>), Out>,
    promise: spec_fn((C, T, U, V), (C, T, V), Out) -> bool,
    ctx: C,
    world: World<R>,
    input: (),
    after: CtxStep<NoEvent<F>, (ResMut<T, I>, Res<U, J>, ResMut<V, K>), Out>,
    ctx_after: C,
    world_after: World<R>,
    out: Out,
) where R: Apart3<U, J, T, I, V, K>
    requires
        forall|a0: &mut C, a1: &mut T, a2: &U, a3: &mut V, o: Out|
            #[trigger] call_ensures(step.f.0, (a0, a1, a2, a3), o)
                ==> promise((*a0, *a1, *a2, *a3), (*final(a0), *final(a1), *final(a3)), o),
    ensures
        (forall|a0: &mut C, a1: &mut T, a3: &mut V|
            *a0 == ctx && *a1 == world.held::<T, I>() && *a3 == world.held::<V, K>()
                ==> #[trigger] call_requires(
                    step.f.0,
                    (a0, a1, &world.held::<U, J>(), a3),
                )) ==> CtxStepCall::<R, C, ()>::call_pre(&step, ctx, world, input),
        CtxStepCall::<R, C, ()>::call_post(
            &step,
            ctx,
            world,
            input,
            after,
            ctx_after,
            world_after,
            out,
        )
            ==> {
            &&& after == step
            &&& exists|held: T, other: V|
                #[trigger] promise(
                    (ctx, world.held::<T, I>(), world.held::<U, J>(), world.held::<V, K>()),
                    (ctx_after, held, other),
                    out,
                )
                    && world_after == world.holding::<T, I>(held).holding::<V, K>(other)
        },
{
    if CtxStepCall::<R, C, ()>::call_post(
        &step,
        ctx,
        world,
        input,
        after,
        ctx_after,
        world_after,
        out,
    ) {
        let (held, other) = choose|held: T, other: V|
            #[trigger] effect_mmpm(
                step.f.0,
                ctx,
                world.held::<T, I>(),
                &world.held::<U, J>(),
                world.held::<V, K>(),
                ctx_after,
                held,
                other,
                out,
            )
                && world_after == world.holding::<T, I>(held).holding::<V, K>(other);
        lemma_effect_mmpm(
            step.f.0,
            ctx,
            world.held::<T, I>(),
            &world.held::<U, J>(),
            world.held::<V, K>(),
            ctx_after,
            held,
            other,
            out,
        );
        assert(promise(
            (ctx, world.held::<T, I>(), world.held::<U, J>(), world.held::<V, K>()),
            (ctx_after, held, other),
            out,
        ));
    }
}

/// What a function of three resources promises, its step promises of what the world holds.
pub proof fn lemma_ctx_step_resmut_resmut_res_without_event<
    R,
    T,
    I,
    U,
    J,
    V,
    K,
    C,
    Out,
    F: FnMut(&mut C, &mut T, &mut U, &V) -> Out,
>(
    step: CtxStep<NoEvent<F>, (ResMut<T, I>, ResMut<U, J>, Res<V, K>), Out>,
    promise: spec_fn((C, T, U, V), (C, T, U), Out) -> bool,
    ctx: C,
    world: World<R>,
    input: (),
    after: CtxStep<NoEvent<F>, (ResMut<T, I>, ResMut<U, J>, Res<V, K>), Out>,
    ctx_after: C,
    world_after: World<R>,
    out: Out,
) where R: Apart3<V, K, T, I, U, J>
    requires
        forall|a0: &mut C, a1: &mut T, a2: &mut U, a3: &V, o: Out|
            #[trigger] call_ensures(step.f.0, (a0, a1, a2, a3), o)
                ==> promise((*a0, *a1, *a2, *a3), (*final(a0), *final(a1), *final(a2)), o),
    ensures
        (forall|a0: &mut C, a1: &mut T, a2: &mut U|
            *a0 == ctx && *a1 == world.held::<T, I>() && *a2 == world.held::<U, J>()
                ==> #[trigger] call_requires(
                    step.f.0,
                    (a0, a1, a2, &world.held::<V, K>()),
                )) ==> CtxStepCall::<R, C, ()>::call_pre(&step, ctx, world, input),
        CtxStepCall::<R, C, ()>::call_post(
            &step,
            ctx,
            world,
            input,
            after,
            ctx_after,
            world_after,
            out,
        )
            ==> {
            &&& after == step
            &&& exists|held: T, other: U|
                #[trigger] promise(
                    (ctx, world.held::<T, I>(), world.held::<U, J>(), world.held::<V, K>()),
                    (ctx_after, held, other),
                    out,
                )
                    && world_after == world.holding::<T, I>(held).holding::<U, J>(other)
        },
{
    if CtxStepCall::<R, C, ()>::call_post(
        &step,
        ctx,
        world,
        input,
        after,
        ctx_after,
        world_after,
        out,
    ) {
        let (held, other) = choose|held: T, other: U|
            #[trigger] effect_mmmp(
                step.f.0,
                ctx,
                world.held::<T, I>(),
                world.held::<U, J>(),
                &world.held::<V, K>(),
                ctx_after,
                held,
                other,
                out,
            )
                && world_after == world.holding::<T, I>(held).holding::<U, J>(other);
        lemma_effect_mmmp(
            step.f.0,
            ctx,
            world.held::<T, I>(),
            world.held::<U, J>(),
            &world.held::<V, K>(),
            ctx_after,
            held,
            other,
            out,
        );
        assert(promise(
            (ctx, world.held::<T, I>(), world.held::<U, J>(), world.held::<V, K>()),
            (ctx_after, held, other),
            out,
        ));
    }
}

/// What a function of three resources promises, its step promises of what the world holds.
pub proof fn lemma_ctx_step_resmut_resmut_resmut_without_event<
    R,
    T,
    I,
    U,
    J,
    V,
    K,
    C,
    Out,
    F: FnMut(&mut C, &mut T, &mut U, &mut V) -> Out,
>(
    step: CtxStep<NoEvent<F>, (ResMut<T, I>, ResMut<U, J>, ResMut<V, K>), Out>,
    promise: spec_fn((C, T, U, V), (C, T, U, V), Out) -> bool,
    ctx: C,
    world: World<R>,
    input: (),
    after: CtxStep<NoEvent<F>, (ResMut<T, I>, ResMut<U, J>, ResMut<V, K>), Out>,
    ctx_after: C,
    world_after: World<R>,
    out: Out,
) where R: Apart3<T, I, U, J, V, K>
    requires
        forall|a0: &mut C, a1: &mut T, a2: &mut U, a3: &mut V, o: Out|
            #[trigger] call_ensures(step.f.0, (a0, a1, a2, a3), o)
                ==> promise(
                    (*a0, *a1, *a2, *a3),
                    (*final(a0), *final(a1), *final(a2), *final(a3)),
                    o,
                ),
    ensures
        (forall|a0: &mut C, a1: &mut T, a2: &mut U, a3: &mut V|
            *a0 == ctx
                && *a1 == world.held::<T, I>()
                && *a2 == world.held::<U, J>()
                && *a3 == world.held::<V, K>()
                ==> #[trigger] call_requires(step.f.0, (a0, a1, a2, a3)))
                    ==> CtxStepCall::<R, C, ()>::call_pre(&step, ctx, world, input),
        CtxStepCall::<R, C, ()>::call_post(
            &step,
            ctx,
            world,
            input,
            after,
            ctx_after,
            world_after,
            out,
        )
            ==> {
            &&& after == step
            &&& exists|held: T, other: U, last: V|
                #[trigger] promise(
                    (ctx, world.held::<T, I>(), world.held::<U, J>(), world.held::<V, K>()),
                    (ctx_after, held, other, last),
                    out,
                )
                    && world_after == world.holding::<T, I>(held).holding::<U, J>(other).holding::<V, K>(last)
        },
{
    if CtxStepCall::<R, C, ()>::call_post(
        &step,
        ctx,
        world,
        input,
        after,
        ctx_after,
        world_after,
        out,
    ) {
        let (held, other, last) = choose|held: T, other: U, last: V|
            #[trigger] effect_mmmm(
                step.f.0,
                ctx,
                world.held::<T, I>(),
                world.held::<U, J>(),
                world.held::<V, K>(),
                ctx_after,
                held,
                other,
                last,
                out,
            )
                && world_after == world.holding::<T, I>(held).holding::<U, J>(other).holding::<V, K>(last);
        lemma_effect_mmmm(
            step.f.0,
            ctx,
            world.held::<T, I>(),
            world.held::<U, J>(),
            world.held::<V, K>(),
            ctx_after,
            held,
            other,
            last,
            out,
        );
        assert(promise(
            (ctx, world.held::<T, I>(), world.held::<U, J>(), world.held::<V, K>()),
            (ctx_after, held, other, last),
            out,
        ));
    }
}

/// What a function of its input alone promises, its step promises of what the world holds.
pub proof fn lemma_ctx_ref_step_unit<R, C, In, Out, F: FnMut(&mut C, &In) -> Out>(
    step: CtxStep<F, (), Out>,
    promise: spec_fn((C, In), (C,), Out) -> bool,
    ctx: C,
    world: World<R>,
    input: &In,
    after: CtxStep<F, (), Out>,
    ctx_after: C,
    world_after: World<R>,
    out: Out,
)
    requires
        forall|a0: &mut C, a1: &In, o: Out|
            #[trigger] call_ensures(step.f, (a0, a1), o) ==> promise((*a0, *a1), (*final(a0),), o),
    ensures
        (forall|a0: &mut C|
            *a0 == ctx
                ==> #[trigger] call_requires(step.f, (a0, input)))
                    ==> CtxRefStepCall::<R, C, In>::call_pre(&step, ctx, world, input),
        CtxRefStepCall::<R, C, In>::call_post(
            &step,
            ctx,
            world,
            input,
            after,
            ctx_after,
            world_after,
            out,
        )
            ==> {
            &&& after == step
            &&& world_after == world
            &&& promise((ctx, *input), (ctx_after,), out)
        },
{
    if CtxRefStepCall::<R, C, In>::call_post(
        &step,
        ctx,
        world,
        input,
        after,
        ctx_after,
        world_after,
        out,
    ) {
        lemma_effect_mp(step.f, ctx, input, ctx_after, out);
    }
}

/// What a function of one resource promises, its step promises of what the world holds.
pub proof fn lemma_ctx_ref_step_res<R, T, I, C, In, Out, F: FnMut(&mut C, &T, &In) -> Out>(
    step: CtxStep<F, Res<T, I>, Out>,
    promise: spec_fn((C, T, In), (C,), Out) -> bool,
    ctx: C,
    world: World<R>,
    input: &In,
    after: CtxStep<F, Res<T, I>, Out>,
    ctx_after: C,
    world_after: World<R>,
    out: Out,
) where R: Resource<T, I>
    requires
        forall|a0: &mut C, a1: &T, a2: &In, o: Out|
            #[trigger] call_ensures(step.f, (a0, a1, a2), o)
                ==> promise((*a0, *a1, *a2), (*final(a0),), o),
    ensures
        (forall|a0: &mut C|
            *a0 == ctx
                ==> #[trigger] call_requires(
                    step.f,
                    (a0, &world.held::<T, I>(), input),
                )) ==> CtxRefStepCall::<R, C, In>::call_pre(&step, ctx, world, input),
        CtxRefStepCall::<R, C, In>::call_post(
            &step,
            ctx,
            world,
            input,
            after,
            ctx_after,
            world_after,
            out,
        )
            ==> {
            &&& after == step
            &&& world_after == world
            &&& promise((ctx, world.held::<T, I>(), *input), (ctx_after,), out)
        },
{
    if CtxRefStepCall::<R, C, In>::call_post(
        &step,
        ctx,
        world,
        input,
        after,
        ctx_after,
        world_after,
        out,
    ) {
        lemma_effect_mpp(step.f, ctx, &world.held::<T, I>(), input, ctx_after, out);
    }
}

/// What a function of one resource promises, its step promises of what the world holds.
pub proof fn lemma_ctx_ref_step_resmut<R, T, I, C, In, Out, F: FnMut(&mut C, &mut T, &In) -> Out>(
    step: CtxStep<F, ResMut<T, I>, Out>,
    promise: spec_fn((C, T, In), (C, T), Out) -> bool,
    ctx: C,
    world: World<R>,
    input: &In,
    after: CtxStep<F, ResMut<T, I>, Out>,
    ctx_after: C,
    world_after: World<R>,
    out: Out,
) where R: Resource<T, I>
    requires
        forall|a0: &mut C, a1: &mut T, a2: &In, o: Out|
            #[trigger] call_ensures(step.f, (a0, a1, a2), o)
                ==> promise((*a0, *a1, *a2), (*final(a0), *final(a1)), o),
    ensures
        (forall|a0: &mut C, a1: &mut T|
            *a0 == ctx && *a1 == world.held::<T, I>()
                ==> #[trigger] call_requires(step.f, (a0, a1, input)))
                    ==> CtxRefStepCall::<R, C, In>::call_pre(&step, ctx, world, input),
        CtxRefStepCall::<R, C, In>::call_post(
            &step,
            ctx,
            world,
            input,
            after,
            ctx_after,
            world_after,
            out,
        )
            ==> {
            &&& after == step
            &&& exists|held: T|
                #[trigger] promise((ctx, world.held::<T, I>(), *input), (ctx_after, held), out)
                    && world_after == world.holding::<T, I>(held)
        },
{
    if CtxRefStepCall::<R, C, In>::call_post(
        &step,
        ctx,
        world,
        input,
        after,
        ctx_after,
        world_after,
        out,
    ) {
        let held = choose|held: T|
            #[trigger] effect_mmp(step.f, ctx, world.held::<T, I>(), input, ctx_after, held, out)
                && world_after == world.holding::<T, I>(held);
        lemma_effect_mmp(step.f, ctx, world.held::<T, I>(), input, ctx_after, held, out);
        assert(promise((ctx, world.held::<T, I>(), *input), (ctx_after, held), out));
    }
}

/// What a function of two resources promises, its step promises of what the world holds.
pub proof fn lemma_ctx_ref_step_res_res<
    R,
    T,
    I,
    U,
    J,
    C,
    In,
    Out,
    F: FnMut(&mut C, &T, &U, &In) -> Out,
>(
    step: CtxStep<F, (Res<T, I>, Res<U, J>), Out>,
    promise: spec_fn((C, T, U, In), (C,), Out) -> bool,
    ctx: C,
    world: World<R>,
    input: &In,
    after: CtxStep<F, (Res<T, I>, Res<U, J>), Out>,
    ctx_after: C,
    world_after: World<R>,
    out: Out,
) where R: Resource<T, I> + Resource<U, J>
    requires
        forall|a0: &mut C, a1: &T, a2: &U, a3: &In, o: Out|
            #[trigger] call_ensures(step.f, (a0, a1, a2, a3), o)
                ==> promise((*a0, *a1, *a2, *a3), (*final(a0),), o),
    ensures
        (forall|a0: &mut C|
            *a0 == ctx
                ==> #[trigger] call_requires(
                    step.f,
                    (a0, &world.held::<T, I>(), &world.held::<U, J>(), input),
                )) ==> CtxRefStepCall::<R, C, In>::call_pre(&step, ctx, world, input),
        CtxRefStepCall::<R, C, In>::call_post(
            &step,
            ctx,
            world,
            input,
            after,
            ctx_after,
            world_after,
            out,
        )
            ==> {
            &&& after == step
            &&& world_after == world
            &&& promise(
                (ctx, world.held::<T, I>(), world.held::<U, J>(), *input),
                (ctx_after,),
                out,
            )
        },
{
    if CtxRefStepCall::<R, C, In>::call_post(
        &step,
        ctx,
        world,
        input,
        after,
        ctx_after,
        world_after,
        out,
    ) {
        lemma_effect_mppp(
            step.f,
            ctx,
            &world.held::<T, I>(),
            &world.held::<U, J>(),
            input,
            ctx_after,
            out,
        );
    }
}

/// What a function of two resources promises, its step promises of what the world holds.
pub proof fn lemma_ctx_ref_step_res_resmut<
    R,
    T,
    I,
    U,
    J,
    C,
    In,
    Out,
    F: FnMut(&mut C, &T, &mut U, &In) -> Out,
>(
    step: CtxStep<F, (Res<T, I>, ResMut<U, J>), Out>,
    promise: spec_fn((C, T, U, In), (C, U), Out) -> bool,
    ctx: C,
    world: World<R>,
    input: &In,
    after: CtxStep<F, (Res<T, I>, ResMut<U, J>), Out>,
    ctx_after: C,
    world_after: World<R>,
    out: Out,
) where R: Apart<T, I, U, J>
    requires
        forall|a0: &mut C, a1: &T, a2: &mut U, a3: &In, o: Out|
            #[trigger] call_ensures(step.f, (a0, a1, a2, a3), o)
                ==> promise((*a0, *a1, *a2, *a3), (*final(a0), *final(a2)), o),
    ensures
        (forall|a0: &mut C, a2: &mut U|
            *a0 == ctx && *a2 == world.held::<U, J>()
                ==> #[trigger] call_requires(
                    step.f,
                    (a0, &world.held::<T, I>(), a2, input),
                )) ==> CtxRefStepCall::<R, C, In>::call_pre(&step, ctx, world, input),
        CtxRefStepCall::<R, C, In>::call_post(
            &step,
            ctx,
            world,
            input,
            after,
            ctx_after,
            world_after,
            out,
        )
            ==> {
            &&& after == step
            &&& exists|held: U|
                #[trigger] promise(
                    (ctx, world.held::<T, I>(), world.held::<U, J>(), *input),
                    (ctx_after, held),
                    out,
                )
                    && world_after == world.holding::<U, J>(held)
        },
{
    if CtxRefStepCall::<R, C, In>::call_post(
        &step,
        ctx,
        world,
        input,
        after,
        ctx_after,
        world_after,
        out,
    ) {
        let held = choose|held: U|
            #[trigger] effect_mpmp(
                step.f,
                ctx,
                &world.held::<T, I>(),
                world.held::<U, J>(),
                input,
                ctx_after,
                held,
                out,
            )
                && world_after == world.holding::<U, J>(held);
        lemma_effect_mpmp(
            step.f,
            ctx,
            &world.held::<T, I>(),
            world.held::<U, J>(),
            input,
            ctx_after,
            held,
            out,
        );
        assert(promise(
            (ctx, world.held::<T, I>(), world.held::<U, J>(), *input),
            (ctx_after, held),
            out,
        ));
    }
}

/// What a function of two resources promises, its step promises of what the world holds.
pub proof fn lemma_ctx_ref_step_resmut_res<
    R,
    T,
    I,
    U,
    J,
    C,
    In,
    Out,
    F: FnMut(&mut C, &mut T, &U, &In) -> Out,
>(
    step: CtxStep<F, (ResMut<T, I>, Res<U, J>), Out>,
    promise: spec_fn((C, T, U, In), (C, T), Out) -> bool,
    ctx: C,
    world: World<R>,
    input: &In,
    after: CtxStep<F, (ResMut<T, I>, Res<U, J>), Out>,
    ctx_after: C,
    world_after: World<R>,
    out: Out,
) where R: Apart<U, J, T, I>
    requires
        forall|a0: &mut C, a1: &mut T, a2: &U, a3: &In, o: Out|
            #[trigger] call_ensures(step.f, (a0, a1, a2, a3), o)
                ==> promise((*a0, *a1, *a2, *a3), (*final(a0), *final(a1)), o),
    ensures
        (forall|a0: &mut C, a1: &mut T|
            *a0 == ctx && *a1 == world.held::<T, I>()
                ==> #[trigger] call_requires(
                    step.f,
                    (a0, a1, &world.held::<U, J>(), input),
                )) ==> CtxRefStepCall::<R, C, In>::call_pre(&step, ctx, world, input),
        CtxRefStepCall::<R, C, In>::call_post(
            &step,
            ctx,
            world,
            input,
            after,
            ctx_after,
            world_after,
            out,
        )
            ==> {
            &&& after == step
            &&& exists|held: T|
                #[trigger] promise(
                    (ctx, world.held::<T, I>(), world.held::<U, J>(), *input),
                    (ctx_after, held),
                    out,
                )
                    && world_after == world.holding::<T, I>(held)
        },
{
    if CtxRefStepCall::<R, C, In>::call_post(
        &step,
        ctx,
        world,
        input,
        after,
        ctx_after,
        world_after,
        out,
    ) {
        let held = choose|held: T|
            #[trigger] effect_mmpp(
                step.f,
                ctx,
                world.held::<T, I>(),
                &world.held::<U, J>(),
                input,
                ctx_after,
                held,
                out,
            )
                && world_after == world.holding::<T, I>(held);
        lemma_effect_mmpp(
            step.f,
            ctx,
            world.held::<T, I>(),
            &world.held::<U, J>(),
            input,
            ctx_after,
            held,
            out,
        );
        assert(promise(
            (ctx, world.held::<T, I>(), world.held::<U, J>(), *input),
            (ctx_after, held),
            out,
        ));
    }
}

/// What a function of two resources promises, its step promises of what the world holds.
pub proof fn lemma_ctx_ref_step_resmut_resmut<
    R,
    T,
    I,
    U,
    J,
    C,
    In,
    Out,
    F: FnMut(&mut C, &mut T, &mut U, &In) -> Out,
>(
    step: CtxStep<F, (ResMut<T, I>, ResMut<U, J>), Out>,
    promise: spec_fn((C, T, U, In), (C, T, U), Out) -> bool,
    ctx: C,
    world: World<R>,
    input: &In,
    after: CtxStep<F, (ResMut<T, I>, ResMut<U, J>), Out>,
    ctx_after: C,
    world_after: World<R>,
    out: Out,
) where R: Apart<T, I, U, J>
    requires
        forall|a0: &mut C, a1: &mut T, a2: &mut U, a3: &In, o: Out|
            #[trigger] call_ensures(step.f, (a0, a1, a2, a3), o)
                ==> promise((*a0, *a1, *a2, *a3), (*final(a0), *final(a1), *final(a2)), o),
    ensures
        (forall|a0: &mut C, a1: &mut T, a2: &mut U|
            *a0 == ctx && *a1 == world.held::<T, I>() && *a2 == world.held::<U, J>()
                ==> #[trigger] call_requires(step.f, (a0, a1, a2, input)))
                    ==> CtxRefStepCall::<R, C, In>::call_pre(&step, ctx, world, input),
        CtxRefStepCall::<R, C, In>::call_post(
            &step,
            ctx,
            world,
            input,
            after,
            ctx_after,
            world_after,
            out,
        )
            ==> {
            &&& after == step
            &&& exists|held: T, other: U|
                #[trigger] promise(
                    (ctx, world.held::<T, I>(), world.held::<U, J>(), *input),
                    (ctx_after, held, other),
                    out,
                )
                    && world_after == world.holding::<T, I>(held).holding::<U, J>(other)
        },
{
    if CtxRefStepCall::<R, C, In>::call_post(
        &step,
        ctx,
        world,
        input,
        after,
        ctx_after,
        world_after,
        out,
    ) {
        let (held, other) = choose|held: T, other: U|
            #[trigger] effect_mmmp(
                step.f,
                ctx,
                world.held::<T, I>(),
                world.held::<U, J>(),
                input,
                ctx_after,
                held,
                other,
                out,
            )
                && world_after == world.holding::<T, I>(held).holding::<U, J>(other);
        lemma_effect_mmmp(
            step.f,
            ctx,
            world.held::<T, I>(),
            world.held::<U, J>(),
            input,
            ctx_after,
            held,
            other,
            out,
        );
        assert(promise(
            (ctx, world.held::<T, I>(), world.held::<U, J>(), *input),
            (ctx_after, held, other),
            out,
        ));
    }
}

/// What a function of the whole world promises, its step promises of what the world holds.
pub proof fn lemma_ctx_ref_step_opaque<R, C, In, Out, F: FnMut(&mut C, &mut World<R>, &In) -> Out>(
    step: CtxOpaqueRefStep<F, Out>,
    promise: spec_fn((C, World<R>, In), (C, World<R>), Out) -> bool,
    ctx: C,
    world: World<R>,
    input: &In,
    after: CtxOpaqueRefStep<F, Out>,
    ctx_after: C,
    world_after: World<R>,
    out: Out,
)
    requires
        forall|a0: &mut C, a1: &mut World<R>, a2: &In, o: Out|
            #[trigger] call_ensures(step.f, (a0, a1, a2), o)
                ==> promise((*a0, *a1, *a2), (*final(a0), *final(a1)), o),
    ensures
        (forall|a0: &mut C, a1: &mut World<R>|
            *a0 == ctx && *a1 == world
                ==> #[trigger] call_requires(step.f, (a0, a1, input)))
                    ==> CtxRefStepCall::<R, C, In>::call_pre(&step, ctx, world, input),
        CtxRefStepCall::<R, C, In>::call_post(
            &step,
            ctx,
            world,
            input,
            after,
            ctx_after,
            world_after,
            out,
        )
            ==> {
            &&& after == step
            &&& promise((ctx, world, *input), (ctx_after, world_after), out)
        },
{
    if CtxRefStepCall::<R, C, In>::call_post(
        &step,
        ctx,
        world,
        input,
        after,
        ctx_after,
        world_after,
        out,
    ) {
        lemma_effect_mmp(step.f, ctx, world, input, ctx_after, world_after, out);
    }
}

/// What a function of three resources promises, its step promises of what the world holds.
pub proof fn lemma_ctx_ref_step_res_res_res<
    R,
    T,
    I,
    U,
    J,
    V,
    K,
    C,
    In,
    Out,
    F: FnMut(&mut C, &T, &U, &V, &In) -> Out,
>(
    step: CtxStep<F, (Res<T, I>, Res<U, J>, Res<V, K>), Out>,
    promise: spec_fn((C, T, U, V, In), (C,), Out) -> bool,
    ctx: C,
    world: World<R>,
    input: &In,
    after: CtxStep<F, (Res<T, I>, Res<U, J>, Res<V, K>), Out>,
    ctx_after: C,
    world_after: World<R>,
    out: Out,
) where R: Resource<T, I> + Resource<U, J> + Resource<V, K>
    requires
        forall|a0: &mut C, a1: &T, a2: &U, a3: &V, a4: &In, o: Out|
            #[trigger] call_ensures(step.f, (a0, a1, a2, a3, a4), o)
                ==> promise((*a0, *a1, *a2, *a3, *a4), (*final(a0),), o),
    ensures
        (forall|a0: &mut C|
            *a0 == ctx
                ==> #[trigger] call_requires(
                    step.f,
                    (
                        a0,
                        &world.held::<T, I>(),
                        &world.held::<U, J>(),
                        &world.held::<V, K>(),
                        input,
                    ),
                )) ==> CtxRefStepCall::<R, C, In>::call_pre(&step, ctx, world, input),
        CtxRefStepCall::<R, C, In>::call_post(
            &step,
            ctx,
            world,
            input,
            after,
            ctx_after,
            world_after,
            out,
        )
            ==> {
            &&& after == step
            &&& world_after == world
            &&& promise(
                (ctx, world.held::<T, I>(), world.held::<U, J>(), world.held::<V, K>(), *input),
                (ctx_after,),
                out,
            )
        },
{
    if CtxRefStepCall::<R, C, In>::call_post(
        &step,
        ctx,
        world,
        input,
        after,
        ctx_after,
        world_after,
        out,
    ) {
        lemma_effect_mpppp(
            step.f,
            ctx,
            &world.held::<T, I>(),
            &world.held::<U, J>(),
            &world.held::<V, K>(),
            input,
            ctx_after,
            out,
        );
    }
}

/// What a function of three resources promises, its step promises of what the world holds.
pub proof fn lemma_ctx_ref_step_res_res_resmut<
    R,
    T,
    I,
    U,
    J,
    V,
    K,
    C,
    In,
    Out,
    F: FnMut(&mut C, &T, &U, &mut V, &In) -> Out,
>(
    step: CtxStep<F, (Res<T, I>, Res<U, J>, ResMut<V, K>), Out>,
    promise: spec_fn((C, T, U, V, In), (C, V), Out) -> bool,
    ctx: C,
    world: World<R>,
    input: &In,
    after: CtxStep<F, (Res<T, I>, Res<U, J>, ResMut<V, K>), Out>,
    ctx_after: C,
    world_after: World<R>,
    out: Out,
) where R: Apart3<T, I, U, J, V, K>
    requires
        forall|a0: &mut C, a1: &T, a2: &U, a3: &mut V, a4: &In, o: Out|
            #[trigger] call_ensures(step.f, (a0, a1, a2, a3, a4), o)
                ==> promise((*a0, *a1, *a2, *a3, *a4), (*final(a0), *final(a3)), o),
    ensures
        (forall|a0: &mut C, a3: &mut V|
            *a0 == ctx && *a3 == world.held::<V, K>()
                ==> #[trigger] call_requires(
                    step.f,
                    (a0, &world.held::<T, I>(), &world.held::<U, J>(), a3, input),
                )) ==> CtxRefStepCall::<R, C, In>::call_pre(&step, ctx, world, input),
        CtxRefStepCall::<R, C, In>::call_post(
            &step,
            ctx,
            world,
            input,
            after,
            ctx_after,
            world_after,
            out,
        )
            ==> {
            &&& after == step
            &&& exists|held: V|
                #[trigger] promise(
                    (ctx, world.held::<T, I>(), world.held::<U, J>(), world.held::<V, K>(), *input),
                    (ctx_after, held),
                    out,
                )
                    && world_after == world.holding::<V, K>(held)
        },
{
    if CtxRefStepCall::<R, C, In>::call_post(
        &step,
        ctx,
        world,
        input,
        after,
        ctx_after,
        world_after,
        out,
    ) {
        let held = choose|held: V|
            #[trigger] effect_mppmp(
                step.f,
                ctx,
                &world.held::<T, I>(),
                &world.held::<U, J>(),
                world.held::<V, K>(),
                input,
                ctx_after,
                held,
                out,
            )
                && world_after == world.holding::<V, K>(held);
        lemma_effect_mppmp(
            step.f,
            ctx,
            &world.held::<T, I>(),
            &world.held::<U, J>(),
            world.held::<V, K>(),
            input,
            ctx_after,
            held,
            out,
        );
        assert(promise(
            (ctx, world.held::<T, I>(), world.held::<U, J>(), world.held::<V, K>(), *input),
            (ctx_after, held),
            out,
        ));
    }
}

/// What a function of three resources promises, its step promises of what the world holds.
pub proof fn lemma_ctx_ref_step_res_resmut_res<
    R,
    T,
    I,
    U,
    J,
    V,
    K,
    C,
    In,
    Out,
    F: FnMut(&mut C, &T, &mut U, &V, &In) -> Out,
>(
    step: CtxStep<F, (Res<T, I>, ResMut<U, J>, Res<V, K>), Out>,
    promise: spec_fn((C, T, U, V, In), (C, U), Out) -> bool,
    ctx: C,
    world: World<R>,
    input: &In,
    after: CtxStep<F, (Res<T, I>, ResMut<U, J>, Res<V, K>), Out>,
    ctx_after: C,
    world_after: World<R>,
    out: Out,
) where R: Apart3<T, I, V, K, U, J>
    requires
        forall|a0: &mut C, a1: &T, a2: &mut U, a3: &V, a4: &In, o: Out|
            #[trigger] call_ensures(step.f, (a0, a1, a2, a3, a4), o)
                ==> promise((*a0, *a1, *a2, *a3, *a4), (*final(a0), *final(a2)), o),
    ensures
        (forall|a0: &mut C, a2: &mut U|
            *a0 == ctx && *a2 == world.held::<U, J>()
                ==> #[trigger] call_requires(
                    step.f,
                    (a0, &world.held::<T, I>(), a2, &world.held::<V, K>(), input),
                )) ==> CtxRefStepCall::<R, C, In>::call_pre(&step, ctx, world, input),
        CtxRefStepCall::<R, C, In>::call_post(
            &step,
            ctx,
            world,
            input,
            after,
            ctx_after,
            world_after,
            out,
        )
            ==> {
            &&& after == step
            &&& exists|held: U|
                #[trigger] promise(
                    (ctx, world.held::<T, I>(), world.held::<U, J>(), world.held::<V, K>(), *input),
                    (ctx_after, held),
                    out,
                )
                    && world_after == world.holding::<U, J>(held)
        },
{
    if CtxRefStepCall::<R, C, In>::call_post(
        &step,
        ctx,
        world,
        input,
        after,
        ctx_after,
        world_after,
        out,
    ) {
        let held = choose|held: U|
            #[trigger] effect_mpmpp(
                step.f,
                ctx,
                &world.held::<T, I>(),
                world.held::<U, J>(),
                &world.held::<V, K>(),
                input,
                ctx_after,
                held,
                out,
            )
                && world_after == world.holding::<U, J>(held);
        lemma_effect_mpmpp(
            step.f,
            ctx,
            &world.held::<T, I>(),
            world.held::<U, J>(),
            &world.held::<V, K>(),
            input,
            ctx_after,
            held,
            out,
        );
        assert(promise(
            (ctx, world.held::<T, I>(), world.held::<U, J>(), world.held::<V, K>(), *input),
            (ctx_after, held),
            out,
        ));
    }
}

/// What a function of three resources promises, its step promises of what the world holds.
pub proof fn lemma_ctx_ref_step_res_resmut_resmut<
    R,
    T,
    I,
    U,
    J,
    V,
    K,
    C,
    In,
    Out,
    F: FnMut(&mut C, &T, &mut U, &mut V, &In) -> Out,
>(
    step: CtxStep<F, (Res<T, I>, ResMut<U, J>, ResMut<V, K>), Out>,
    promise: spec_fn((C, T, U, V, In), (C, U, V), Out) -> bool,
    ctx: C,
    world: World<R>,
    input: &In,
    after: CtxStep<F, (Res<T, I>, ResMut<U, J>, ResMut<V, K>), Out>,
    ctx_after: C,
    world_after: World<R>,
    out: Out,
) where R: Apart3<T, I, U, J, V, K>
    requires
        forall|a0: &mut C, a1: &T, a2: &mut U, a3: &mut V, a4: &In, o: Out|
            #[trigger] call_ensures(step.f, (a0, a1, a2, a3, a4), o)
                ==> promise((*a0, *a1, *a2, *a3, *a4), (*final(a0), *final(a2), *final(a3)), o),
    ensures
        (forall|a0: &mut C, a2: &mut U, a3: &mut V|
            *a0 == ctx && *a2 == world.held::<U, J>() && *a3 == world.held::<V, K>()
                ==> #[trigger] call_requires(
                    step.f,
                    (a0, &world.held::<T, I>(), a2, a3, input),
                )) ==> CtxRefStepCall::<R, C, In>::call_pre(&step, ctx, world, input),
        CtxRefStepCall::<R, C, In>::call_post(
            &step,
            ctx,
            world,
            input,
            after,
            ctx_after,
            world_after,
            out,
        )
            ==> {
            &&& after == step
            &&& exists|held: U, other: V|
                #[trigger] promise(
                    (ctx, world.held::<T, I>(), world.held::<U, J>(), world.held::<V, K>(), *input),
                    (ctx_after, held, other),
                    out,
                )
                    && world_after == world.holding::<U, J>(held).holding::<V, K>(other)
        },
{
    if CtxRefStepCall::<R, C, In>::call_post(
        &step,
        ctx,
        world,
        input,
        after,
        ctx_after,
        world_after,
        out,
    ) {
        let (held, other) = choose|held: U, other: V|
            #[trigger] effect_mpmmp(
                step.f,
                ctx,
                &world.held::<T, I>(),
                world.held::<U, J>(),
                world.held::<V, K>(),
                input,
                ctx_after,
                held,
                other,
                out,
            )
                && world_after == world.holding::<U, J>(held).holding::<V, K>(other);
        lemma_effect_mpmmp(
            step.f,
            ctx,
            &world.held::<T, I>(),
            world.held::<U, J>(),
            world.held::<V, K>(),
            input,
            ctx_after,
            held,
            other,
            out,
        );
        assert(promise(
            (ctx, world.held::<T, I>(), world.held::<U, J>(), world.held::<V, K>(), *input),
            (ctx_after, held, other),
            out,
        ));
    }
}

/// What a function of three resources promises, its step promises of what the world holds.
pub proof fn lemma_ctx_ref_step_resmut_res_res<
    R,
    T,
    I,
    U,
    J,
    V,
    K,
    C,
    In,
    Out,
    F: FnMut(&mut C, &mut T, &U, &V, &In) -> Out,
>(
    step: CtxStep<F, (ResMut<T, I>, Res<U, J>, Res<V, K>), Out>,
    promise: spec_fn((C, T, U, V, In), (C, T), Out) -> bool,
    ctx: C,
    world: World<R>,
    input: &In,
    after: CtxStep<F, (ResMut<T, I>, Res<U, J>, Res<V, K>), Out>,
    ctx_after: C,
    world_after: World<R>,
    out: Out,
) where R: Apart3<U, J, V, K, T, I>
    requires
        forall|a0: &mut C, a1: &mut T, a2: &U, a3: &V, a4: &In, o: Out|
            #[trigger] call_ensures(step.f, (a0, a1, a2, a3, a4), o)
                ==> promise((*a0, *a1, *a2, *a3, *a4), (*final(a0), *final(a1)), o),
    ensures
        (forall|a0: &mut C, a1: &mut T|
            *a0 == ctx && *a1 == world.held::<T, I>()
                ==> #[trigger] call_requires(
                    step.f,
                    (a0, a1, &world.held::<U, J>(), &world.held::<V, K>(), input),
                )) ==> CtxRefStepCall::<R, C, In>::call_pre(&step, ctx, world, input),
        CtxRefStepCall::<R, C, In>::call_post(
            &step,
            ctx,
            world,
            input,
            after,
            ctx_after,
            world_after,
            out,
        )
            ==> {
            &&& after == step
            &&& exists|held: T|
                #[trigger] promise(
                    (ctx, world.held::<T, I>(), world.held::<U, J>(), world.held::<V, K>(), *input),
                    (ctx_after, held),
                    out,
                )
                    && world_after == world.holding::<T, I>(held)
        },
{
    if CtxRefStepCall::<R, C, In>::call_post(
        &step,
        ctx,
        world,
        input,
        after,
        ctx_after,
        world_after,
        out,
    ) {
        let held = choose|held: T|
            #[trigger] effect_mmppp(
                step.f,
                ctx,
                world.held::<T, I>(),
                &world.held::<U, J>(),
                &world.held::<V, K>(),
                input,
                ctx_after,
                held,
                out,
            )
                && world_after == world.holding::<T, I>(held);
        lemma_effect_mmppp(
            step.f,
            ctx,
            world.held::<T, I>(),
            &world.held::<U, J>(),
            &world.held::<V, K>(),
            input,
            ctx_after,
            held,
            out,
        );
        assert(promise(
            (ctx, world.held::<T, I>(), world.held::<U, J>(), world.held::<V, K>(), *input),
            (ctx_after, held),
            out,
        ));
    }
}

/// What a function of three resources promises, its step promises of what the world holds.
pub proof fn lemma_ctx_ref_step_resmut_res_resmut<
    R,
    T,
    I,
    U,
    J,
    V,
    K,
    C,
    In,
    Out,
    F: FnMut(&mut C, &mut T, &U, &mut V, &In) -> Out,
>(
    step: CtxStep<F, (ResMut<T, I>, Res<U, J>, ResMut<V, K>), Out>,
    promise: spec_fn((C, T, U, V, In), (C, T, V), Out) -> bool,
    ctx: C,
    world: World<R>,
    input: &In,
    after: CtxStep<F, (ResMut<T, I>, Res<U, J>, ResMut<V, K>), Out>,
    ctx_after: C,
    world_after: World<R>,
    out: Out,
) where R: Apart3<U, J, T, I, V, K>
    requires
        forall|a0: &mut C, a1: &mut T, a2: &U, a3: &mut V, a4: &In, o: Out|
            #[trigger] call_ensures(step.f, (a0, a1, a2, a3, a4), o)
                ==> promise((*a0, *a1, *a2, *a3, *a4), (*final(a0), *final(a1), *final(a3)), o),
    ensures
        (forall|a0: &mut C, a1: &mut T, a3: &mut V|
            *a0 == ctx && *a1 == world.held::<T, I>() && *a3 == world.held::<V, K>()
                ==> #[trigger] call_requires(
                    step.f,
                    (a0, a1, &world.held::<U, J>(), a3, input),
                )) ==> CtxRefStepCall::<R, C, In>::call_pre(&step, ctx, world, input),
        CtxRefStepCall::<R, C, In>::call_post(
            &step,
            ctx,
            world,
            input,
            after,
            ctx_after,
            world_after,
            out,
        )
            ==> {
            &&& after == step
            &&& exists|held: T, other: V|
                #[trigger] promise(
                    (ctx, world.held::<T, I>(), world.held::<U, J>(), world.held::<V, K>(), *input),
                    (ctx_after, held, other),
                    out,
                )
                    && world_after == world.holding::<T, I>(held).holding::<V, K>(other)
        },
{
    if CtxRefStepCall::<R, C, In>::call_post(
        &step,
        ctx,
        world,
        input,
        after,
        ctx_after,
        world_after,
        out,
    ) {
        let (held, other) = choose|held: T, other: V|
            #[trigger] effect_mmpmp(
                step.f,
                ctx,
                world.held::<T, I>(),
                &world.held::<U, J>(),
                world.held::<V, K>(),
                input,
                ctx_after,
                held,
                other,
                out,
            )
                && world_after == world.holding::<T, I>(held).holding::<V, K>(other);
        lemma_effect_mmpmp(
            step.f,
            ctx,
            world.held::<T, I>(),
            &world.held::<U, J>(),
            world.held::<V, K>(),
            input,
            ctx_after,
            held,
            other,
            out,
        );
        assert(promise(
            (ctx, world.held::<T, I>(), world.held::<U, J>(), world.held::<V, K>(), *input),
            (ctx_after, held, other),
            out,
        ));
    }
}

/// What a function of three resources promises, its step promises of what the world holds.
pub proof fn lemma_ctx_ref_step_resmut_resmut_res<
    R,
    T,
    I,
    U,
    J,
    V,
    K,
    C,
    In,
    Out,
    F: FnMut(&mut C, &mut T, &mut U, &V, &In) -> Out,
>(
    step: CtxStep<F, (ResMut<T, I>, ResMut<U, J>, Res<V, K>), Out>,
    promise: spec_fn((C, T, U, V, In), (C, T, U), Out) -> bool,
    ctx: C,
    world: World<R>,
    input: &In,
    after: CtxStep<F, (ResMut<T, I>, ResMut<U, J>, Res<V, K>), Out>,
    ctx_after: C,
    world_after: World<R>,
    out: Out,
) where R: Apart3<V, K, T, I, U, J>
    requires
        forall|a0: &mut C, a1: &mut T, a2: &mut U, a3: &V, a4: &In, o: Out|
            #[trigger] call_ensures(step.f, (a0, a1, a2, a3, a4), o)
                ==> promise((*a0, *a1, *a2, *a3, *a4), (*final(a0), *final(a1), *final(a2)), o),
    ensures
        (forall|a0: &mut C, a1: &mut T, a2: &mut U|
            *a0 == ctx && *a1 == world.held::<T, I>() && *a2 == world.held::<U, J>()
                ==> #[trigger] call_requires(
                    step.f,
                    (a0, a1, a2, &world.held::<V, K>(), input),
                )) ==> CtxRefStepCall::<R, C, In>::call_pre(&step, ctx, world, input),
        CtxRefStepCall::<R, C, In>::call_post(
            &step,
            ctx,
            world,
            input,
            after,
            ctx_after,
            world_after,
            out,
        )
            ==> {
            &&& after == step
            &&& exists|held: T, other: U|
                #[trigger] promise(
                    (ctx, world.held::<T, I>(), world.held::<U, J>(), world.held::<V, K>(), *input),
                    (ctx_after, held, other),
                    out,
                )
                    && world_after == world.holding::<T, I>(held).holding::<U, J>(other)
        },
{
    if CtxRefStepCall::<R, C, In>::call_post(
        &step,
        ctx,
        world,
        input,
        after,
        ctx_after,
        world_after,
        out,
    ) {
        let (held, other) = choose|held: T, other: U|
            #[trigger] effect_mmmpp(
                step.f,
                ctx,
                world.held::<T, I>(),
                world.held::<U, J>(),
                &world.held::<V, K>(),
                input,
                ctx_after,
                held,
                other,
                out,
            )
                && world_after == world.holding::<T, I>(held).holding::<U, J>(other);
        lemma_effect_mmmpp(
            step.f,
            ctx,
            world.held::<T, I>(),
            world.held::<U, J>(),
            &world.held::<V, K>(),
            input,
            ctx_after,
            held,
            other,
            out,
        );
        assert(promise(
            (ctx, world.held::<T, I>(), world.held::<U, J>(), world.held::<V, K>(), *input),
            (ctx_after, held, other),
            out,
        ));
    }
}

/// What a function of three resources promises, its step promises of what the world holds.
pub proof fn lemma_ctx_ref_step_resmut_resmut_resmut<
    R,
    T,
    I,
    U,
    J,
    V,
    K,
    C,
    In,
    Out,
    F: FnMut(&mut C, &mut T, &mut U, &mut V, &In) -> Out,
>(
    step: CtxStep<F, (ResMut<T, I>, ResMut<U, J>, ResMut<V, K>), Out>,
    promise: spec_fn((C, T, U, V, In), (C, T, U, V), Out) -> bool,
    ctx: C,
    world: World<R>,
    input: &In,
    after: CtxStep<F, (ResMut<T, I>, ResMut<U, J>, ResMut<V, K>), Out>,
    ctx_after: C,
    world_after: World<R>,
    out: Out,
) where R: Apart3<T, I, U, J, V, K>
    requires
        forall|a0: &mut C, a1: &mut T, a2: &mut U, a3: &mut V, a4: &In, o: Out|
            #[trigger] call_ensures(step.f, (a0, a1, a2, a3, a4), o)
                ==> promise(
                    (*a0, *a1, *a2, *a3, *a4),
                    (*final(a0), *final(a1), *final(a2), *final(a3)),
                    o,
                ),
    ensures
        (forall|a0: &mut C, a1: &mut T, a2: &mut U, a3: &mut V|
            *a0 == ctx
                && *a1 == world.held::<T, I>()
                && *a2 == world.held::<U, J>()
                && *a3 == world.held::<V, K>()
                ==> #[trigger] call_requires(step.f, (a0, a1, a2, a3, input)))
                    ==> CtxRefStepCall::<R, C, In>::call_pre(&step, ctx, world, input),
        CtxRefStepCall::<R, C, In>::call_post(
            &step,
            ctx,
            world,
            input,
            after,
            ctx_after,
            world_after,
            out,
        )
            ==> {
            &&& after == step
            &&& exists|held: T, other: U, last: V|
                #[trigger] promise(
                    (ctx, world.held::<T, I>(), world.held::<U, J>(), world.held::<V, K>(), *input),
                    (ctx_after, held, other, last),
                    out,
                )
                    && world_after == world.holding::<T, I>(held).holding::<U, J>(other).holding::<V, K>(last)
        },
{
    if CtxRefStepCall::<R, C, In>::call_post(
        &step,
        ctx,
        world,
        input,
        after,
        ctx_after,
        world_after,
        out,
    ) {
        let (held, other, last) = choose|held: T, other: U, last: V|
            #[trigger] effect_mmmmp(
                step.f,
                ctx,
                world.held::<T, I>(),
                world.held::<U, J>(),
                world.held::<V, K>(),
                input,
                ctx_after,
                held,
                other,
                last,
                out,
            )
                && world_after == world.holding::<T, I>(held).holding::<U, J>(other).holding::<V, K>(last);
        lemma_effect_mmmmp(
            step.f,
            ctx,
            world.held::<T, I>(),
            world.held::<U, J>(),
            world.held::<V, K>(),
            input,
            ctx_after,
            held,
            other,
            last,
            out,
        );
        assert(promise(
            (ctx, world.held::<T, I>(), world.held::<U, J>(), world.held::<V, K>(), *input),
            (ctx_after, held, other, last),
            out,
        ));
    }
}

/// What a function of its input alone promises, its step promises of what the world holds.
pub proof fn lemma_ctx_producer_unit<R, C, Out, F: FnMut(&mut C) -> Out>(
    step: CtxStep<F, (), Out>,
    promise: spec_fn((C,), (C,), Out) -> bool,
    ctx: C,
    world: World<R>,
    after: CtxStep<F, (), Out>,
    ctx_after: C,
    world_after: World<R>,
    out: Out,
)
    requires
        forall|a0: &mut C, o: Out|
            #[trigger] call_ensures(step.f, (a0,), o) ==> promise((*a0,), (*final(a0),), o),
    ensures
        (forall|a0: &mut C|
            *a0 == ctx
                ==> #[trigger] call_requires(step.f, (a0,)))
                    ==> CtxProducerCall::<R, C>::call_pre(&step, ctx, world),
        CtxProducerCall::<R, C>::call_post(&step, ctx, world, after, ctx_after, world_after, out)
            ==> {
            &&& after == step
            &&& world_after == world
            &&& promise((ctx,), (ctx_after,), out)
        },
{
    if CtxProducerCall::<R, C>::call_post(&step, ctx, world, after, ctx_after, world_after, out) {
        lemma_effect_m(step.f, ctx, ctx_after, out);
    }
}

/// What a function of one resource promises, its step promises of what the world holds.
pub proof fn lemma_ctx_producer_res<R, T, I, C, Out, F: FnMut(&mut C, &T) -> Out>(
    step: CtxStep<F, Res<T, I>, Out>,
    promise: spec_fn((C, T), (C,), Out) -> bool,
    ctx: C,
    world: World<R>,
    after: CtxStep<F, Res<T, I>, Out>,
    ctx_after: C,
    world_after: World<R>,
    out: Out,
) where R: Resource<T, I>
    requires
        forall|a0: &mut C, a1: &T, o: Out|
            #[trigger] call_ensures(step.f, (a0, a1), o) ==> promise((*a0, *a1), (*final(a0),), o),
    ensures
        (forall|a0: &mut C|
            *a0 == ctx
                ==> #[trigger] call_requires(step.f, (a0, &world.held::<T, I>())))
                    ==> CtxProducerCall::<R, C>::call_pre(&step, ctx, world),
        CtxProducerCall::<R, C>::call_post(&step, ctx, world, after, ctx_after, world_after, out)
            ==> {
            &&& after == step
            &&& world_after == world
            &&& promise((ctx, world.held::<T, I>()), (ctx_after,), out)
        },
{
    if CtxProducerCall::<R, C>::call_post(&step, ctx, world, after, ctx_after, world_after, out) {
        lemma_effect_mp(step.f, ctx, &world.held::<T, I>(), ctx_after, out);
    }
}

/// What a function of one resource promises, its step promises of what the world holds.
pub proof fn lemma_ctx_producer_resmut<R, T, I, C, Out, F: FnMut(&mut C, &mut T) -> Out>(
    step: CtxStep<F, ResMut<T, I>, Out>,
    promise: spec_fn((C, T), (C, T), Out) -> bool,
    ctx: C,
    world: World<R>,
    after: CtxStep<F, ResMut<T, I>, Out>,
    ctx_after: C,
    world_after: World<R>,
    out: Out,
) where R: Resource<T, I>
    requires
        forall|a0: &mut C, a1: &mut T, o: Out|
            #[trigger] call_ensures(step.f, (a0, a1), o)
                ==> promise((*a0, *a1), (*final(a0), *final(a1)), o),
    ensures
        (forall|a0: &mut C, a1: &mut T|
            *a0 == ctx && *a1 == world.held::<T, I>()
                ==> #[trigger] call_requires(step.f, (a0, a1)))
                    ==> CtxProducerCall::<R, C>::call_pre(&step, ctx, world),
        CtxProducerCall::<R, C>::call_post(&step, ctx, world, after, ctx_after, world_after, out)
            ==> {
            &&& after == step
            &&& exists|held: T|
                #[trigger] promise((ctx, world.held::<T, I>()), (ctx_after, held), out)
                    && world_after == world.holding::<T, I>(held)
        },
{
    if CtxProducerCall::<R, C>::call_post(&step, ctx, world, after, ctx_after, world_after, out) {
        let held = choose|held: T|
            #[trigger] effect_mm(step.f, ctx, world.held::<T, I>(), ctx_after, held, out)
                && world_after == world.holding::<T, I>(held);
        lemma_effect_mm(step.f, ctx, world.held::<T, I>(), ctx_after, held, out);
        assert(promise((ctx, world.held::<T, I>()), (ctx_after, held), out));
    }
}

/// What a function of two resources promises, its step promises of what the world holds.
pub proof fn lemma_ctx_producer_res_res<R, T, I, U, J, C, Out, F: FnMut(&mut C, &T, &U) -> Out>(
    step: CtxStep<F, (Res<T, I>, Res<U, J>), Out>,
    promise: spec_fn((C, T, U), (C,), Out) -> bool,
    ctx: C,
    world: World<R>,
    after: CtxStep<F, (Res<T, I>, Res<U, J>), Out>,
    ctx_after: C,
    world_after: World<R>,
    out: Out,
) where R: Resource<T, I> + Resource<U, J>
    requires
        forall|a0: &mut C, a1: &T, a2: &U, o: Out|
            #[trigger] call_ensures(step.f, (a0, a1, a2), o)
                ==> promise((*a0, *a1, *a2), (*final(a0),), o),
    ensures
        (forall|a0: &mut C|
            *a0 == ctx
                ==> #[trigger] call_requires(
                    step.f,
                    (a0, &world.held::<T, I>(), &world.held::<U, J>()),
                )) ==> CtxProducerCall::<R, C>::call_pre(&step, ctx, world),
        CtxProducerCall::<R, C>::call_post(&step, ctx, world, after, ctx_after, world_after, out)
            ==> {
            &&& after == step
            &&& world_after == world
            &&& promise((ctx, world.held::<T, I>(), world.held::<U, J>()), (ctx_after,), out)
        },
{
    if CtxProducerCall::<R, C>::call_post(&step, ctx, world, after, ctx_after, world_after, out) {
        lemma_effect_mpp(step.f, ctx, &world.held::<T, I>(), &world.held::<U, J>(), ctx_after, out);
    }
}

/// What a function of two resources promises, its step promises of what the world holds.
pub proof fn lemma_ctx_producer_res_resmut<
    R,
    T,
    I,
    U,
    J,
    C,
    Out,
    F: FnMut(&mut C, &T, &mut U) -> Out,
>(
    step: CtxStep<F, (Res<T, I>, ResMut<U, J>), Out>,
    promise: spec_fn((C, T, U), (C, U), Out) -> bool,
    ctx: C,
    world: World<R>,
    after: CtxStep<F, (Res<T, I>, ResMut<U, J>), Out>,
    ctx_after: C,
    world_after: World<R>,
    out: Out,
) where R: Apart<T, I, U, J>
    requires
        forall|a0: &mut C, a1: &T, a2: &mut U, o: Out|
            #[trigger] call_ensures(step.f, (a0, a1, a2), o)
                ==> promise((*a0, *a1, *a2), (*final(a0), *final(a2)), o),
    ensures
        (forall|a0: &mut C, a2: &mut U|
            *a0 == ctx && *a2 == world.held::<U, J>()
                ==> #[trigger] call_requires(step.f, (a0, &world.held::<T, I>(), a2)))
                    ==> CtxProducerCall::<R, C>::call_pre(&step, ctx, world),
        CtxProducerCall::<R, C>::call_post(&step, ctx, world, after, ctx_after, world_after, out)
            ==> {
            &&& after == step
            &&& exists|held: U|
                #[trigger] promise(
                    (ctx, world.held::<T, I>(), world.held::<U, J>()),
                    (ctx_after, held),
                    out,
                )
                    && world_after == world.holding::<U, J>(held)
        },
{
    if CtxProducerCall::<R, C>::call_post(&step, ctx, world, after, ctx_after, world_after, out) {
        let held = choose|held: U|
            #[trigger] effect_mpm(
                step.f,
                ctx,
                &world.held::<T, I>(),
                world.held::<U, J>(),
                ctx_after,
                held,
                out,
            )
                && world_after == world.holding::<U, J>(held);
        lemma_effect_mpm(
            step.f,
            ctx,
            &world.held::<T, I>(),
            world.held::<U, J>(),
            ctx_after,
            held,
            out,
        );
        assert(promise((ctx, world.held::<T, I>(), world.held::<U, J>()), (ctx_after, held), out));
    }
}

/// What a function of two resources promises, its step promises of what the world holds.
pub proof fn lemma_ctx_producer_resmut_res<
    R,
    T,
    I,
    U,
    J,
    C,
    Out,
    F: FnMut(&mut C, &mut T, &U) -> Out,
>(
    step: CtxStep<F, (ResMut<T, I>, Res<U, J>), Out>,
    promise: spec_fn((C, T, U), (C, T), Out) -> bool,
    ctx: C,
    world: World<R>,
    after: CtxStep<F, (ResMut<T, I>, Res<U, J>), Out>,
    ctx_after: C,
    world_after: World<R>,
    out: Out,
) where R: Apart<U, J, T, I>
    requires
        forall|a0: &mut C, a1: &mut T, a2: &U, o: Out|
            #[trigger] call_ensures(step.f, (a0, a1, a2), o)
                ==> promise((*a0, *a1, *a2), (*final(a0), *final(a1)), o),
    ensures
        (forall|a0: &mut C, a1: &mut T|
            *a0 == ctx && *a1 == world.held::<T, I>()
                ==> #[trigger] call_requires(step.f, (a0, a1, &world.held::<U, J>())))
                    ==> CtxProducerCall::<R, C>::call_pre(&step, ctx, world),
        CtxProducerCall::<R, C>::call_post(&step, ctx, world, after, ctx_after, world_after, out)
            ==> {
            &&& after == step
            &&& exists|held: T|
                #[trigger] promise(
                    (ctx, world.held::<T, I>(), world.held::<U, J>()),
                    (ctx_after, held),
                    out,
                )
                    && world_after == world.holding::<T, I>(held)
        },
{
    if CtxProducerCall::<R, C>::call_post(&step, ctx, world, after, ctx_after, world_after, out) {
        let held = choose|held: T|
            #[trigger] effect_mmp(
                step.f,
                ctx,
                world.held::<T, I>(),
                &world.held::<U, J>(),
                ctx_after,
                held,
                out,
            )
                && world_after == world.holding::<T, I>(held);
        lemma_effect_mmp(
            step.f,
            ctx,
            world.held::<T, I>(),
            &world.held::<U, J>(),
            ctx_after,
            held,
            out,
        );
        assert(promise((ctx, world.held::<T, I>(), world.held::<U, J>()), (ctx_after, held), out));
    }
}

/// What a function of two resources promises, its step promises of what the world holds.
pub proof fn lemma_ctx_producer_resmut_resmut<
    R,
    T,
    I,
    U,
    J,
    C,
    Out,
    F: FnMut(&mut C, &mut T, &mut U) -> Out,
>(
    step: CtxStep<F, (ResMut<T, I>, ResMut<U, J>), Out>,
    promise: spec_fn((C, T, U), (C, T, U), Out) -> bool,
    ctx: C,
    world: World<R>,
    after: CtxStep<F, (ResMut<T, I>, ResMut<U, J>), Out>,
    ctx_after: C,
    world_after: World<R>,
    out: Out,
) where R: Apart<T, I, U, J>
    requires
        forall|a0: &mut C, a1: &mut T, a2: &mut U, o: Out|
            #[trigger] call_ensures(step.f, (a0, a1, a2), o)
                ==> promise((*a0, *a1, *a2), (*final(a0), *final(a1), *final(a2)), o),
    ensures
        (forall|a0: &mut C, a1: &mut T, a2: &mut U|
            *a0 == ctx && *a1 == world.held::<T, I>() && *a2 == world.held::<U, J>()
                ==> #[trigger] call_requires(step.f, (a0, a1, a2)))
                    ==> CtxProducerCall::<R, C>::call_pre(&step, ctx, world),
        CtxProducerCall::<R, C>::call_post(&step, ctx, world, after, ctx_after, world_after, out)
            ==> {
            &&& after == step
            &&& exists|held: T, other: U|
                #[trigger] promise(
                    (ctx, world.held::<T, I>(), world.held::<U, J>()),
                    (ctx_after, held, other),
                    out,
                )
                    && world_after == world.holding::<T, I>(held).holding::<U, J>(other)
        },
{
    if CtxProducerCall::<R, C>::call_post(&step, ctx, world, after, ctx_after, world_after, out) {
        let (held, other) = choose|held: T, other: U|
            #[trigger] effect_mmm(
                step.f,
                ctx,
                world.held::<T, I>(),
                world.held::<U, J>(),
                ctx_after,
                held,
                other,
                out,
            )
                && world_after == world.holding::<T, I>(held).holding::<U, J>(other);
        lemma_effect_mmm(
            step.f,
            ctx,
            world.held::<T, I>(),
            world.held::<U, J>(),
            ctx_after,
            held,
            other,
            out,
        );
        assert(promise(
            (ctx, world.held::<T, I>(), world.held::<U, J>()),
            (ctx_after, held, other),
            out,
        ));
    }
}

/// What a function of the whole world promises, its step promises of what the world holds.
pub proof fn lemma_ctx_producer_opaque<R, C, Out, F: FnMut(&mut C, &mut World<R>) -> Out>(
    step: CtxOpaqueProducer<F, Out>,
    promise: spec_fn((C, World<R>), (C, World<R>), Out) -> bool,
    ctx: C,
    world: World<R>,
    after: CtxOpaqueProducer<F, Out>,
    ctx_after: C,
    world_after: World<R>,
    out: Out,
)
    requires
        forall|a0: &mut C, a1: &mut World<R>, o: Out|
            #[trigger] call_ensures(step.f, (a0, a1), o)
                ==> promise((*a0, *a1), (*final(a0), *final(a1)), o),
    ensures
        (forall|a0: &mut C, a1: &mut World<R>|
            *a0 == ctx && *a1 == world
                ==> #[trigger] call_requires(step.f, (a0, a1)))
                    ==> CtxProducerCall::<R, C>::call_pre(&step, ctx, world),
        CtxProducerCall::<R, C>::call_post(&step, ctx, world, after, ctx_after, world_after, out)
            ==> {
            &&& after == step
            &&& promise((ctx, world), (ctx_after, world_after), out)
        },
{
    if CtxProducerCall::<R, C>::call_post(&step, ctx, world, after, ctx_after, world_after, out) {
        lemma_effect_mm(step.f, ctx, world, ctx_after, world_after, out);
    }
}

/// What a function of three resources promises, its step promises of what the world holds.
pub proof fn lemma_ctx_producer_res_res_res<
    R,
    T,
    I,
    U,
    J,
    V,
    K,
    C,
    Out,
    F: FnMut(&mut C, &T, &U, &V) -> Out,
>(
    step: CtxStep<F, (Res<T, I>, Res<U, J>, Res<V, K>), Out>,
    promise: spec_fn((C, T, U, V), (C,), Out) -> bool,
    ctx: C,
    world: World<R>,
    after: CtxStep<F, (Res<T, I>, Res<U, J>, Res<V, K>), Out>,
    ctx_after: C,
    world_after: World<R>,
    out: Out,
) where R: Resource<T, I> + Resource<U, J> + Resource<V, K>
    requires
        forall|a0: &mut C, a1: &T, a2: &U, a3: &V, o: Out|
            #[trigger] call_ensures(step.f, (a0, a1, a2, a3), o)
                ==> promise((*a0, *a1, *a2, *a3), (*final(a0),), o),
    ensures
        (forall|a0: &mut C|
            *a0 == ctx
                ==> #[trigger] call_requires(
                    step.f,
                    (a0, &world.held::<T, I>(), &world.held::<U, J>(), &world.held::<V, K>()),
                )) ==> CtxProducerCall::<R, C>::call_pre(&step, ctx, world),
        CtxProducerCall::<R, C>::call_post(&step, ctx, world, after, ctx_after, world_after, out)
            ==> {
            &&& after == step
            &&& world_after == world
            &&& promise(
                (ctx, world.held::<T, I>(), world.held::<U, J>(), world.held::<V, K>()),
                (ctx_after,),
                out,
            )
        },
{
    if CtxProducerCall::<R, C>::call_post(&step, ctx, world, after, ctx_after, world_after, out) {
        lemma_effect_mppp(
            step.f,
            ctx,
            &world.held::<T, I>(),
            &world.held::<U, J>(),
            &world.held::<V, K>(),
            ctx_after,
            out,
        );
    }
}

/// What a function of three resources promises, its step promises of what the world holds.
pub proof fn lemma_ctx_producer_res_res_resmut<
    R,
    T,
    I,
    U,
    J,
    V,
    K,
    C,
    Out,
    F: FnMut(&mut C, &T, &U, &mut V) -> Out,
>(
    step: CtxStep<F, (Res<T, I>, Res<U, J>, ResMut<V, K>), Out>,
    promise: spec_fn((C, T, U, V), (C, V), Out) -> bool,
    ctx: C,
    world: World<R>,
    after: CtxStep<F, (Res<T, I>, Res<U, J>, ResMut<V, K>), Out>,
    ctx_after: C,
    world_after: World<R>,
    out: Out,
) where R: Apart3<T, I, U, J, V, K>
    requires
        forall|a0: &mut C, a1: &T, a2: &U, a3: &mut V, o: Out|
            #[trigger] call_ensures(step.f, (a0, a1, a2, a3), o)
                ==> promise((*a0, *a1, *a2, *a3), (*final(a0), *final(a3)), o),
    ensures
        (forall|a0: &mut C, a3: &mut V|
            *a0 == ctx && *a3 == world.held::<V, K>()
                ==> #[trigger] call_requires(
                    step.f,
                    (a0, &world.held::<T, I>(), &world.held::<U, J>(), a3),
                )) ==> CtxProducerCall::<R, C>::call_pre(&step, ctx, world),
        CtxProducerCall::<R, C>::call_post(&step, ctx, world, after, ctx_after, world_after, out)
            ==> {
            &&& after == step
            &&& exists|held: V|
                #[trigger] promise(
                    (ctx, world.held::<T, I>(), world.held::<U, J>(), world.held::<V, K>()),
                    (ctx_after, held),
                    out,
                )
                    && world_after == world.holding::<V, K>(held)
        },
{
    if CtxProducerCall::<R, C>::call_post(&step, ctx, world, after, ctx_after, world_after, out) {
        let held = choose|held: V|
            #[trigger] effect_mppm(
                step.f,
                ctx,
                &world.held::<T, I>(),
                &world.held::<U, J>(),
                world.held::<V, K>(),
                ctx_after,
                held,
                out,
            )
                && world_after == world.holding::<V, K>(held);
        lemma_effect_mppm(
            step.f,
            ctx,
            &world.held::<T, I>(),
            &world.held::<U, J>(),
            world.held::<V, K>(),
            ctx_after,
            held,
            out,
        );
        assert(promise(
            (ctx, world.held::<T, I>(), world.held::<U, J>(), world.held::<V, K>()),
            (ctx_after, held),
            out,
        ));
    }
}

/// What a function of three resources promises, its step promises of what the world holds.
pub proof fn lemma_ctx_producer_res_resmut_res<
    R,
    T,
    I,
    U,
    J,
    V,
    K,
    C,
    Out,
    F: FnMut(&mut C, &T, &mut U, &V) -> Out,
>(
    step: CtxStep<F, (Res<T, I>, ResMut<U, J>, Res<V, K>), Out>,
    promise: spec_fn((C, T, U, V), (C, U), Out) -> bool,
    ctx: C,
    world: World<R>,
    after: CtxStep<F, (Res<T, I>, ResMut<U, J>, Res<V, K>), Out>,
    ctx_after: C,
    world_after: World<R>,
    out: Out,
) where R: Apart3<T, I, V, K, U, J>
    requires
        forall|a0: &mut C, a1: &T, a2: &mut U, a3: &V, o: Out|
            #[trigger] call_ensures(step.f, (a0, a1, a2, a3), o)
                ==> promise((*a0, *a1, *a2, *a3), (*final(a0), *final(a2)), o),
    ensures
        (forall|a0: &mut C, a2: &mut U|
            *a0 == ctx && *a2 == world.held::<U, J>()
                ==> #[trigger] call_requires(
                    step.f,
                    (a0, &world.held::<T, I>(), a2, &world.held::<V, K>()),
                )) ==> CtxProducerCall::<R, C>::call_pre(&step, ctx, world),
        CtxProducerCall::<R, C>::call_post(&step, ctx, world, after, ctx_after, world_after, out)
            ==> {
            &&& after == step
            &&& exists|held: U|
                #[trigger] promise(
                    (ctx, world.held::<T, I>(), world.held::<U, J>(), world.held::<V, K>()),
                    (ctx_after, held),
                    out,
                )
                    && world_after == world.holding::<U, J>(held)
        },
{
    if CtxProducerCall::<R, C>::call_post(&step, ctx, world, after, ctx_after, world_after, out) {
        let held = choose|held: U|
            #[trigger] effect_mpmp(
                step.f,
                ctx,
                &world.held::<T, I>(),
                world.held::<U, J>(),
                &world.held::<V, K>(),
                ctx_after,
                held,
                out,
            )
                && world_after == world.holding::<U, J>(held);
        lemma_effect_mpmp(
            step.f,
            ctx,
            &world.held::<T, I>(),
            world.held::<U, J>(),
            &world.held::<V, K>(),
            ctx_after,
            held,
            out,
        );
        assert(promise(
            (ctx, world.held::<T, I>(), world.held::<U, J>(), world.held::<V, K>()),
            (ctx_after, held),
            out,
        ));
    }
}

/// What a function of three resources promises, its step promises of what the world holds.
pub proof fn lemma_ctx_producer_res_resmut_resmut<
    R,
    T,
    I,
    U,
    J,
    V,
    K,
    C,
    Out,
    F: FnMut(&mut C, &T, &mut U, &mut V) -> Out,
>(
    step: CtxStep<F, (Res<T, I>, ResMut<U, J>, ResMut<V, K>), Out>,
    promise: spec_fn((C, T, U, V), (C, U, V), Out) -> bool,
    ctx: C,
    world: World<R>,
    after: CtxStep<F, (Res<T, I>, ResMut<U, J>, ResMut<V, K>), Out>,
    ctx_after: C,
    world_after: World<R>,
    out: Out,
) where R: Apart3<T, I, U, J, V, K>
    requires
        forall|a0: &mut C, a1: &T, a2: &mut U, a3: &mut V, o: Out|
            #[trigger] call_ensures(step.f, (a0, a1, a2, a3), o)
                ==> promise((*a0, *a1, *a2, *a3), (*final(a0), *final(a2), *final(a3)), o),
    ensures
        (forall|a0: &mut C, a2: &mut U, a3: &mut V|
            *a0 == ctx && *a2 == world.held::<U, J>() && *a3 == world.held::<V, K>()
                ==> #[trigger] call_requires(
                    step.f,
                    (a0, &world.held::<T, I>(), a2, a3),
                )) ==> CtxProducerCall::<R, C>::call_pre(&step, ctx, world),
        CtxProducerCall::<R, C>::call_post(&step, ctx, world, after, ctx_after, world_after, out)
            ==> {
            &&& after == step
            &&& exists|held: U, other: V|
                #[trigger] promise(
                    (ctx, world.held::<T, I>(), world.held::<U, J>(), world.held::<V, K>()),
                    (ctx_after, held, other),
                    out,
                )
                    && world_after == world.holding::<U, J>(held).holding::<V, K>(other)
        },
{
    if CtxProducerCall::<R, C>::call_post(&step, ctx, world, after, ctx_after, world_after, out) {
        let (held, other) = choose|held: U, other: V|
            #[trigger] effect_mpmm(
                step.f,
                ctx,
                &world.held::<T, I>(),
                world.held::<U, J>(),
                world.held::<V, K>(),
                ctx_after,
                held,
                other,
                out,
            )
                && world_after == world.holding::<U, J>(held).holding::<V, K>(other);
        lemma_effect_mpmm(
            step.f,
            ctx,
            &world.held::<T, I>(),
            world.held::<U, J>(),
            world.held::<V, K>(),
            ctx_after,
            held,
            other,
            out,
        );
        assert(promise(
            (ctx, world.held::<T, I>(), world.held::<U, J>(), world.held::<V, K>()),
            (ctx_after, held, other),
            out,
        ));
    }
}

/// What a function of three resources promises, its step promises of what the world holds.
pub proof fn lemma_ctx_producer_resmut_res_res<
    R,
    T,
    I,
    U,
    J,
    V,
    K,
    C,
    Out,
    F: FnMut(&mut C, &mut T, &U, &V) -> Out,
>(
    step: CtxStep<F, (ResMut<T, I>, Res<U, J>, Res<V, K>), Out>,
    promise: spec_fn((C, T, U, V), (C, T), Out) -> bool,
    ctx: C,
    world: World<R>,
    after: CtxStep<F, (ResMut<T, I>, Res<U, J>, Res<V, K>), Out>,
    ctx_after: C,
    world_after: World<R>,
    out: Out,
) where R: Apart3<U, J, V, K, T, I>
    requires
        forall|a0: &mut C, a1: &mut T, a2: &U, a3: &V, o: Out|
            #[trigger] call_ensures(step.f, (a0, a1, a2, a3), o)
                ==> promise((*a0, *a1, *a2, *a3), (*final(a0), *final(a1)), o),
    ensures
        (forall|a0: &mut C, a1: &mut T|
            *a0 == ctx && *a1 == world.held::<T, I>()
                ==> #[trigger] call_requires(
                    step.f,
                    (a0, a1, &world.held::<U, J>(), &world.held::<V, K>()),
                )) ==> CtxProducerCall::<R, C>::call_pre(&step, ctx, world),
        CtxProducerCall::<R, C>::call_post(&step, ctx, world, after, ctx_after, world_after, out)
            ==> {
            &&& after == step
            &&& exists|held: T|
                #[trigger] promise(
                    (ctx, world.held::<T, I>(), world.held::<U, J>(), world.held::<V, K>()),
                    (ctx_after, held),
                    out,
                )
                    && world_after == world.holding::<T, I>(held)
        },
{
    if CtxProducerCall::<R, C>::call_post(&step, ctx, world, after, ctx_after, world_after, out) {
        let held = choose|held: T|
            #[trigger] effect_mmpp(
                step.f,
                ctx,
                world.held::<T, I>(),
                &world.held::<U, J>(),
                &world.held::<V, K>(),
                ctx_after,
                held,
                out,
            )
                && world_after == world.holding::<T, I>(held);
        lemma_effect_mmpp(
            step.f,
            ctx,
            world.held::<T, I>(),
            &world.held::<U, J>(),
            &world.held::<V, K>(),
            ctx_after,
            held,
            out,
        );
        assert(promise(
            (ctx, world.held::<T, I>(), world.held::<U, J>(), world.held::<V, K>()),
            (ctx_after, held),
            out,
        ));
    }
}

/// What a function of three resources promises, its step promises of what the world holds.
pub proof fn lemma_ctx_producer_resmut_res_resmut<
    R,
    T,
    I,
    U,
    J,
    V,
    K,
    C,
    Out,
    F: FnMut(&mut C, &mut T, &U, &mut V) -> Out,
>(
    step: CtxStep<F, (ResMut<T, I>, Res<U, J>, ResMut<V, K>), Out>,
    promise: spec_fn((C, T, U, V), (C, T, V), Out) -> bool,
    ctx: C,
    world: World<R>,
    after: CtxStep<F, (ResMut<T, I>, Res<U, J>, ResMut<V, K>), Out>,
    ctx_after: C,
    world_after: World<R>,
    out: Out,
) where R: Apart3<U, J, T, I, V, K>
    requires
        forall|a0: &mut C, a1: &mut T, a2: &U, a3: &mut V, o: Out|
            #[trigger] call_ensures(step.f, (a0, a1, a2, a3), o)
                ==> promise((*a0, *a1, *a2, *a3), (*final(a0), *final(a1), *final(a3)), o),
    ensures
        (forall|a0: &mut C, a1: &mut T, a3: &mut V|
            *a0 == ctx && *a1 == world.held::<T, I>() && *a3 == world.held::<V, K>()
                ==> #[trigger] call_requires(
                    step.f,
                    (a0, a1, &world.held::<U, J>(), a3),
                )) ==> CtxProducerCall::<R, C>::call_pre(&step, ctx, world),
        CtxProducerCall::<R, C>::call_post(&step, ctx, world, after, ctx_after, world_after, out)
            ==> {
            &&& after == step
            &&& exists|held: T, other: V|
                #[trigger] promise(
                    (ctx, world.held::<T, I>(), world.held::<U, J>(), world.held::<V, K>()),
                    (ctx_after, held, other),
                    out,
                )
                    && world_after == world.holding::<T, I>(held).holding::<V, K>(other)
        },
{
    if CtxProducerCall::<R, C>::call_post(&step, ctx, world, after, ctx_after, world_after, out) {
        let (held, other) = choose|held: T, other: V|
            #[trigger] effect_mmpm(
                step.f,
                ctx,
                world.held::<T, I>(),
                &world.held::<U, J>(),
                world.held::<V, K>(),
                ctx_after,
                held,
                other,
                out,
            )
                && world_after == world.holding::<T, I>(held).holding::<V, K>(other);
        lemma_effect_mmpm(
            step.f,
            ctx,
            world.held::<T, I>(),
            &world.held::<U, J>(),
            world.held::<V, K>(),
            ctx_after,
            held,
            other,
            out,
        );
        assert(promise(
            (ctx, world.held::<T, I>(), world.held::<U, J>(), world.held::<V, K>()),
            (ctx_after, held, other),
            out,
        ));
    }
}

/// What a function of three resources promises, its step promises of what the world holds.
pub proof fn lemma_ctx_producer_resmut_resmut_res<
    R,
    T,
    I,
    U,
    J,
    V,
    K,
    C,
    Out,
    F: FnMut(&mut C, &mut T, &mut U, &V) -> Out,
>(
    step: CtxStep<F, (ResMut<T, I>, ResMut<U, J>, Res<V, K>), Out>,
    promise: spec_fn((C, T, U, V), (C, T, U), Out) -> bool,
    ctx: C,
    world: World<R>,
    after: CtxStep<F, (ResMut<T, I>, ResMut<U, J>, Res<V, K>), Out>,
    ctx_after: C,
    world_after: World<R>,
    out: Out,
) where R: Apart3<V, K, T, I, U, J>
    requires
        forall|a0: &mut C, a1: &mut T, a2: &mut U, a3: &V, o: Out|
            #[trigger] call_ensures(step.f, (a0, a1, a2, a3), o)
                ==> promise((*a0, *a1, *a2, *a3), (*final(a0), *final(a1), *final(a2)), o),
    ensures
        (forall|a0: &mut C, a1: &mut T, a2: &mut U|
            *a0 == ctx && *a1 == world.held::<T, I>() && *a2 == world.held::<U, J>()
                ==> #[trigger] call_requires(
                    step.f,
                    (a0, a1, a2, &world.held::<V, K>()),
                )) ==> CtxProducerCall::<R, C>::call_pre(&step, ctx, world),
        CtxProducerCall::<R, C>::call_post(&step, ctx, world, after, ctx_after, world_after, out)
            ==> {
            &&& after == step
            &&& exists|held: T, other: U|
                #[trigger] promise(
                    (ctx, world.held::<T, I>(), world.held::<U, J>(), world.held::<V, K>()),
                    (ctx_after, held, other),
                    out,
                )
                    && world_after == world.holding::<T, I>(held).holding::<U, J>(other)
        },
{
    if CtxProducerCall::<R, C>::call_post(&step, ctx, world, after, ctx_after, world_after, out) {
        let (held, other) = choose|held: T, other: U|
            #[trigger] effect_mmmp(
                step.f,
                ctx,
                world.held::<T, I>(),
                world.held::<U, J>(),
                &world.held::<V, K>(),
                ctx_after,
                held,
                other,
                out,
            )
                && world_after == world.holding::<T, I>(held).holding::<U, J>(other);
        lemma_effect_mmmp(
            step.f,
            ctx,
            world.held::<T, I>(),
            world.held::<U, J>(),
            &world.held::<V, K>(),
            ctx_after,
            held,
            other,
            out,
        );
        assert(promise(
            (ctx, world.held::<T, I>(), world.held::<U, J>(), world.held::<V, K>()),
            (ctx_after, held, other),
            out,
        ));
    }
}

/// What a function of three resources promises, its step promises of what the world holds.
pub proof fn lemma_ctx_producer_resmut_resmut_resmut<
    R,
    T,
    I,
    U,
    J,
    V,
    K,
    C,
    Out,
    F: FnMut(&mut C, &mut T, &mut U, &mut V) -> Out,
>(
    step: CtxStep<F, (ResMut<T, I>, ResMut<U, J>, ResMut<V, K>), Out>,
    promise: spec_fn((C, T, U, V), (C, T, U, V), Out) -> bool,
    ctx: C,
    world: World<R>,
    after: CtxStep<F, (ResMut<T, I>, ResMut<U, J>, ResMut<V, K>), Out>,
    ctx_after: C,
    world_after: World<R>,
    out: Out,
) where R: Apart3<T, I, U, J, V, K>
    requires
        forall|a0: &mut C, a1: &mut T, a2: &mut U, a3: &mut V, o: Out|
            #[trigger] call_ensures(step.f, (a0, a1, a2, a3), o)
                ==> promise(
                    (*a0, *a1, *a2, *a3),
                    (*final(a0), *final(a1), *final(a2), *final(a3)),
                    o,
                ),
    ensures
        (forall|a0: &mut C, a1: &mut T, a2: &mut U, a3: &mut V|
            *a0 == ctx
                && *a1 == world.held::<T, I>()
                && *a2 == world.held::<U, J>()
                && *a3 == world.held::<V, K>()
                ==> #[trigger] call_requires(step.f, (a0, a1, a2, a3)))
                    ==> CtxProducerCall::<R, C>::call_pre(&step, ctx, world),
        CtxProducerCall::<R, C>::call_post(&step, ctx, world, after, ctx_after, world_after, out)
            ==> {
            &&& after == step
            &&& exists|held: T, other: U, last: V|
                #[trigger] promise(
                    (ctx, world.held::<T, I>(), world.held::<U, J>(), world.held::<V, K>()),
                    (ctx_after, held, other, last),
                    out,
                )
                    && world_after == world.holding::<T, I>(held).holding::<U, J>(other).holding::<V, K>(last)
        },
{
    if CtxProducerCall::<R, C>::call_post(&step, ctx, world, after, ctx_after, world_after, out) {
        let (held, other, last) = choose|held: T, other: U, last: V|
            #[trigger] effect_mmmm(
                step.f,
                ctx,
                world.held::<T, I>(),
                world.held::<U, J>(),
                world.held::<V, K>(),
                ctx_after,
                held,
                other,
                last,
                out,
            )
                && world_after == world.holding::<T, I>(held).holding::<U, J>(other).holding::<V, K>(last);
        lemma_effect_mmmm(
            step.f,
            ctx,
            world.held::<T, I>(),
            world.held::<U, J>(),
            world.held::<V, K>(),
            ctx_after,
            held,
            other,
            last,
            out,
        );
        assert(promise(
            (ctx, world.held::<T, I>(), world.held::<U, J>(), world.held::<V, K>()),
            (ctx_after, held, other, last),
            out,
        ));
    }
}

} // verus!
