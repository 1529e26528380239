//! What merge steps that are handed a context promise.
//!
//! A law is stated for an arbitrary `promise` that the contract of the function gives: of the values
//! that it is called on, of those that it leaves behind its mutable references, and of its result.
//! The step then gives that promise of the resources that the world holds, with the function called
//! once, and leaves everything else as it is.
use crate::ctx_merge::{CtxMergeStep, CtxMergeStepCall};
use crate::effect::{
    effect_mmmmpp, lemma_effect_mmmmpp, effect_mmmmppp, lemma_effect_mmmmppp, effect_mmmmpppp,
    lemma_effect_mmmmpppp, effect_mmmpp, lemma_effect_mmmpp, effect_mmmppp, lemma_effect_mmmppp,
    effect_mmmpppp, lemma_effect_mmmpppp, effect_mmmppppp, lemma_effect_mmmppppp, effect_mmpmpp,
    lemma_effect_mmpmpp, effect_mmpmppp, lemma_effect_mmpmppp, effect_mmpmpppp,
    lemma_effect_mmpmpppp, effect_mmpp, lemma_effect_mmpp, effect_mmppp, lemma_effect_mmppp,
    effect_mmpppp, lemma_effect_mmpppp, effect_mmppppp, lemma_effect_mmppppp, effect_mmpppppp,
    lemma_effect_mmpppppp, effect_mpmmpp, lemma_effect_mpmmpp, effect_mpmmppp,
    lemma_effect_mpmmppp, effect_mpmmpppp, lemma_effect_mpmmpppp, effect_mpmpp, lemma_effect_mpmpp,
    effect_mpmppp, lemma_effect_mpmppp, effect_mpmpppp, lemma_effect_mpmpppp, effect_mpmppppp,
    lemma_effect_mpmppppp, effect_mpp, lemma_effect_mpp, effect_mppmpp, lemma_effect_mppmpp,
    effect_mppmppp, lemma_effect_mppmppp, effect_mppmpppp, lemma_effect_mppmpppp, effect_mppp,
    lemma_effect_mppp, effect_mpppp, lemma_effect_mpppp, effect_mppppp, lemma_effect_mppppp,
    effect_mpppppp, lemma_effect_mpppppp, effect_mppppppp, lemma_effect_mppppppp,
};
use crate::world::{Apart, Apart3, Res, ResMut, Resource, World};
use vstd::prelude::*;

verus! {

/// What a function of its input alone promises, its step promises of what the world holds.
pub proof fn lemma_ctx_merge2_unit<R, C, A, B, Out, F: FnMut(&mut C, &A, &B) -> Out>(
    step: CtxMergeStep<F, ()>,
    promise: spec_fn((C, A, B), (C,), Out) -> bool,
    ctx: C,
    world: World<R>,
    inputs: (&A, &B),
    after: CtxMergeStep<F, ()>,
    ctx_after: C,
    world_after: World<R>,
    out: Out,
)
    requires
        forall|a0: &mut C, a1: &A, a2: &B, o: Out|
            #[trigger] call_ensures(step.f, (a0, a1, a2), o)
                ==> promise((*a0, *a1, *a2), (*final(a0),), o),
    ensures
        (forall|a0: &mut C|
            *a0 == ctx
                ==> #[trigger] call_requires(step.f, (a0, inputs.0, inputs.1)))
                    ==> CtxMergeStepCall::<R, C, (&A, &B), Out>::call_pre(&step, ctx, world, inputs),
        CtxMergeStepCall::<R, C, (&A, &B), Out>::call_post(
            &step,
            ctx,
            world,
            inputs,
            after,
            ctx_after,
            world_after,
            out,
        )
            ==> {
            &&& after == step
            &&& world_after == world
            &&& promise((ctx, *inputs.0, *inputs.1), (ctx_after,), out)
        },
{
    if CtxMergeStepCall::<R, C, (&A, &B), Out>::call_post(
        &step,
        ctx,
        world,
        inputs,
        after,
        ctx_after,
        world_after,
        out,
    ) {
        lemma_effect_mpp(step.f, ctx, inputs.0, inputs.1, ctx_after, out);
    }
}

/// What a function of one resource promises, its step promises of what the world holds.
pub proof fn lemma_ctx_merge2_res<R, T, I, C, A, B, Out, F: FnMut(&mut C, &T, &A, &B) -> Out>(
    step: CtxMergeStep<F, Res<T, I>>,
    promise: spec_fn((C, T, A, B), (C,), Out) -> bool,
    ctx: C,
    world: World<R>,
    inputs: (&A, &B),
    after: CtxMergeStep<F, Res<T, I>>,
    ctx_after: C,
    world_after: World<R>,
    out: Out,
) where R: Resource<T, I>
    requires
        forall|a0: &mut C, a1: &T, a2: &A, a3: &B, o: Out|
            #[trigger] call_ensures(step.f, (a0, a1, a2, a3), o)
                ==> promise((*a0, *a1, *a2, *a3), (*final(a0),), o),
    ensures
        (forall|a0: &mut C|
            *a0 == ctx
                ==> #[trigger] call_requires(
                    step.f,
                    (a0, &world.held::<T, I>(), inputs.0, inputs.1),
                )) ==> CtxMergeStepCall::<R, C, (&A, &B), Out>::call_pre(&step, ctx, world, inputs),
        CtxMergeStepCall::<R, C, (&A, &B), Out>::call_post(
            &step,
            ctx,
            world,
            inputs,
            after,
            ctx_after,
            world_after,
            out,
        )
            ==> {
            &&& after == step
            &&& world_after == world
            &&& promise((ctx, world.held::<T, I>(), *inputs.0, *inputs.1), (ctx_after,), out)
        },
{
    if CtxMergeStepCall::<R, C, (&A, &B), Out>::call_post(
        &step,
        ctx,
        world,
        inputs,
        after,
        ctx_after,
        world_after,
        out,
    ) {
        lemma_effect_mppp(step.f, ctx, &world.held::<T, I>(), inputs.0, inputs.1, ctx_after, out);
    }
}

/// What a function of one resource promises, its step promises of what the world holds.
pub proof fn lemma_ctx_merge2_resmut<
    R,
    T,
    I,
    C,
    A,
    B,
    Out,
    F: FnMut(&mut C, &mut T, &A, &B) -> Out,
>(
    step: CtxMergeStep<F, ResMut<T, I>>,
    promise: spec_fn((C, T, A, B), (C, T), Out) -> bool,
    ctx: C,
    world: World<R>,
    inputs: (&A, &B),
    after: CtxMergeStep<F, ResMut<T, I>>,
    ctx_after: C,
    world_after: World<R>,
    out: Out,
) where R: Resource<T, I>
    requires
        forall|a0: &mut C, a1: &mut T, a2: &A, a3: &B, o: Out|
            #[trigger] call_ensures(step.f, (a0, a1, a2, a3), o)
                ==> promise((*a0, *a1, *a2, *a3), (*final(a0), *final(a1)), o),
    ensures
        (forall|a0: &mut C, a1: &mut T|
            *a0 == ctx && *a1 == world.held::<T, I>()
                ==> #[trigger] call_requires(step.f, (a0, a1, inputs.0, inputs.1)))
                    ==> CtxMergeStepCall::<R, C, (&A, &B), Out>::call_pre(&step, ctx, world, inputs),
        CtxMergeStepCall::<R, C, (&A, &B), Out>::call_post(
            &step,
            ctx,
            world,
            inputs,
            after,
            ctx_after,
            world_after,
            out,
        )
            ==> {
            &&& after == step
            &&& exists|held: T|
                #[trigger] promise(
                    (ctx, world.held::<T, I>(), *inputs.0, *inputs.1),
                    (ctx_after, held),
                    out,
                )
                    && world_after == world.holding::<T, I>(held)
        },
{
    if CtxMergeStepCall::<R, C, (&A, &B), Out>::call_post(
        &step,
        ctx,
        world,
        inputs,
        after,
        ctx_after,
        world_after,
        out,
    ) {
        let held = choose|held: T|
            #[trigger] effect_mmpp(
                step.f,
                ctx,
                world.held::<T, I>(),
                inputs.0,
                inputs.1,
                ctx_after,
                held,
                out,
            )
                && world_after == world.holding::<T, I>(held);
        lemma_effect_mmpp(
            step.f,
            ctx,
            world.held::<T, I>(),
            inputs.0,
            inputs.1,
            ctx_after,
            held,
            out,
        );
        assert(promise((ctx, world.held::<T, I>(), *inputs.0, *inputs.1), (ctx_after, held), out));
    }
}

/// What a function of two resources promises, its step promises of what the world holds.
pub proof fn lemma_ctx_merge2_res_res<
    R,
    T,
    I,
    U,
    J,
    C,
    A,
    B,
    Out,
    F: FnMut(&mut C, &T, &U, &A, &B) -> Out,
>(
    step: CtxMergeStep<F, (Res<T, I>, Res<U, J>)>,
    promise: spec_fn((C, T, U, A, B), (C,), Out) -> bool,
    ctx: C,
    world: World<R>,
    inputs: (&A, &B),
    after: CtxMergeStep<F, (Res<T, I>, Res<U, J>)>,
    ctx_after: C,
    world_after: World<R>,
    out: Out,
) where R: Resource<T, I> + Resource<U, J>
    requires
        forall|a0: &mut C, a1: &T, a2: &U, a3: &A, a4: &B, o: Out|
            #[trigger] call_ensures(step.f, (a0, a1, a2, a3, a4), o)
                ==> promise((*a0, *a1, *a2, *a3, *a4), (*final(a0),), o),
    ensures
        (forall|a0: &mut C|
            *a0 == ctx
                ==> #[trigger] call_requires(
                    step.f,
                    (a0, &world.held::<T, I>(), &world.held::<U, J>(), inputs.0, inputs.1),
                )) ==> CtxMergeStepCall::<R, C, (&A, &B), Out>::call_pre(&step, ctx, world, inputs),
        CtxMergeStepCall::<R, C, (&A, &B), Out>::call_post(
            &step,
            ctx,
            world,
            inputs,
            after,
            ctx_after,
            world_after,
            out,
        )
            ==> {
            &&& after == step
            &&& world_after == world
            &&& promise(
                (ctx, world.held::<T, I>(), world.held::<U, J>(), *inputs.0, *inputs.1),
                (ctx_after,),
                out,
            )
        },
{
    if CtxMergeStepCall::<R, C, (&A, &B), Out>::call_post(
        &step,
        ctx,
        world,
        inputs,
        after,
        ctx_after,
        world_after,
        out,
    ) {
        lemma_effect_mpppp(
            step.f,
            ctx,
            &world.held::<T, I>(),
            &world.held::<U, J>(),
            inputs.0,
            inputs.1,
            ctx_after,
            out,
        );
    }
}

/// What a function of two resources promises, its step promises of what the world holds.
pub proof fn lemma_ctx_merge2_res_resmut<
    R,
    T,
    I,
    U,
    J,
    C,
    A,
    B,
    Out,
    F: FnMut(&mut C, &T, &mut U, &A, &B) -> Out,
>(
    step: CtxMergeStep<F, (Res<T, I>, ResMut<U, J>)>,
    promise: spec_fn((C, T, U, A, B), (C, U), Out) -> bool,
    ctx: C,
    world: World<R>,
    inputs: (&A, &B),
    after: CtxMergeStep<F, (Res<T, I>, ResMut<U, J>)>,
    ctx_after: C,
    world_after: World<R>,
    out: Out,
) where R: Apart<T, I, U, J>
    requires
        forall|a0: &mut C, a1: &T, a2: &mut U, a3: &A, a4: &B, o: Out|
            #[trigger] call_ensures(step.f, (a0, a1, a2, a3, a4), o)
                ==> promise((*a0, *a1, *a2, *a3, *a4), (*final(a0), *final(a2)), o),
    ensures
        (forall|a0: &mut C, a2: &mut U|
            *a0 == ctx && *a2 == world.held::<U, J>()
                ==> #[trigger] call_requires(
                    step.f,
                    (a0, &world.held::<T, I>(), a2, inputs.0, inputs.1),
                )) ==> CtxMergeStepCall::<R, C, (&A, &B), Out>::call_pre(&step, ctx, world, inputs),
        CtxMergeStepCall::<R, C, (&A, &B), Out>::call_post(
            &step,
            ctx,
            world,
            inputs,
            after,
            ctx_after,
            world_after,
            out,
        )
            ==> {
            &&& after == step
            &&& exists|held: U|
                #[trigger] promise(
                    (ctx, world.held::<T, I>(), world.held::<U, J>(), *inputs.0, *inputs.1),
                    (ctx_after, held),
                    out,
                )
                    && world_after == world.holding::<U, J>(held)
        },
{
    if CtxMergeStepCall::<R, C, (&A, &B), Out>::call_post(
        &step,
        ctx,
        world,
        inputs,
        after,
        ctx_after,
        world_after,
        out,
    ) {
        let held = choose|held: U|
            #[trigger] effect_mpmpp(
                step.f,
                ctx,
                &world.held::<T, I>(),
                world.held::<U, J>(),
                inputs.0,
                inputs.1,
                ctx_after,
                held,
                out,
            )
                && world_after == world.holding::<U, J>(held);
        lemma_effect_mpmpp(
            step.f,
            ctx,
            &world.held::<T, I>(),
            world.held::<U, J>(),
            inputs.0,
            inputs.1,
            ctx_after,
            held,
            out,
        );
        assert(promise(
            (ctx, world.held::<T, I>(), world.held::<U, J>(), *inputs.0, *inputs.1),
            (ctx_after, held),
            out,
        ));
    }
}

/// What a function of two resources promises, its step promises of what the world holds.
pub proof fn lemma_ctx_merge2_resmut_res<
    R,
    T,
    I,
    U,
    J,
    C,
    A,
    B,
    Out,
    F: FnMut(&mut C, &mut T, &U, &A, &B) -> Out,
>(
    step: CtxMergeStep<F, (ResMut<T, I>, Res<U, J>)>,
    promise: spec_fn((C, T, U, A, B), (C, T), Out) -> bool,
    ctx: C,
    world: World<R>,
    inputs: (&A, &B),
    after: CtxMergeStep<F, (ResMut<T, I>, Res<U, J>)>,
    ctx_after: C,
    world_after: World<R>,
    out: Out,
) where R: Apart<U, J, T, I>
    requires
        forall|a0: &mut C, a1: &mut T, a2: &U, a3: &A, a4: &B, o: Out|
            #[trigger] call_ensures(step.f, (a0, a1, a2, a3, a4), o)
                ==> promise((*a0, *a1, *a2, *a3, *a4), (*final(a0), *final(a1)), o),
    ensures
        (forall|a0: &mut C, a1: &mut T|
            *a0 == ctx && *a1 == world.held::<T, I>()
                ==> #[trigger] call_requires(
                    step.f,
                    (a0, a1, &world.held::<U, J>(), inputs.0, inputs.1),
                )) ==> CtxMergeStepCall::<R, C, (&A, &B), Out>::call_pre(&step, ctx, world, inputs),
        CtxMergeStepCall::<R, C, (&A, &B), Out>::call_post(
            &step,
            ctx,
            world,
            inputs,
            after,
            ctx_after,
            world_after,
            out,
        )
            ==> {
            &&& after == step
            &&& exists|held: T|
                #[trigger] promise(
                    (ctx, world.held::<T, I>(), world.held::<U, J>(), *inputs.0, *inputs.1),
                    (ctx_after, held),
                    out,
                )
                    && world_after == world.holding::<T, I>(held)
        },
{
    if CtxMergeStepCall::<R, C, (&A, &B), Out>::call_post(
        &step,
        ctx,
        world,
        inputs,
        after,
        ctx_after,
        world_after,
        out,
    ) {
        let held = choose|held: T|
            #[trigger] effect_mmppp(
                step.f,
                ctx,
                world.held::<T, I>(),
                &world.held::<U, J>(),
                inputs.0,
                inputs.1,
                ctx_after,
                held,
                out,
            )
                && world_after == world.holding::<T, I>(held);
        lemma_effect_mmppp(
            step.f,
            ctx,
            world.held::<T, I>(),
            &world.held::<U, J>(),
            inputs.0,
            inputs.1,
            ctx_after,
            held,
            out,
        );
        assert(promise(
            (ctx, world.held::<T, I>(), world.held::<U, J>(), *inputs.0, *inputs.1),
            (ctx_after, held),
            out,
        ));
    }
}

/// What a function of two resources promises, its step promises of what the world holds.
pub proof fn lemma_ctx_merge2_resmut_resmut<
    R,
    T,
    I,
    U,
    J,
    C,
    A,
    B,
    Out,
    F: FnMut(&mut C, &mut T, &mut U, &A, &B) -> Out,
>(
    step: CtxMergeStep<F, (ResMut<T, I>, ResMut<U, J>)>,
    promise: spec_fn((C, T, U, A, B), (C, T, U), Out) -> bool,
    ctx: C,
    world: World<R>,
    inputs: (&A, &B),
    after: CtxMergeStep<F, (ResMut<T, I>, ResMut<U, J>)>,
    ctx_after: C,
    world_after: World<R>,
    out: Out,
) where R: Apart<T, I, U, J>
    requires
        forall|a0: &mut C, a1: &mut T, a2: &mut U, a3: &A, a4: &B, o: Out|
            #[trigger] call_ensures(step.f, (a0, a1, a2, a3, a4), o)
                ==> promise((*a0, *a1, *a2, *a3, *a4), (*final(a0), *final(a1), *final(a2)), o),
    ensures
        (forall|a0: &mut C, a1: &mut T, a2: &mut U|
            *a0 == ctx && *a1 == world.held::<T, I>() && *a2 == world.held::<U, J>()
                ==> #[trigger] call_requires(
                    step.f,
                    (a0, a1, a2, inputs.0, inputs.1),
                )) ==> CtxMergeStepCall::<R, C, (&A, &B), Out>::call_pre(&step, ctx, world, inputs),
        CtxMergeStepCall::<R, C, (&A, &B), Out>::call_post(
            &step,
            ctx,
            world,
            inputs,
            after,
            ctx_after,
            world_after,
            out,
        )
            ==> {
            &&& after == step
            &&& exists|held: T, other: U|
                #[trigger] promise(
                    (ctx, world.held::<T, I>(), world.held::<U, J>(), *inputs.0, *inputs.1),
                    (ctx_after, held, other),
                    out,
                )
                    && world_after == world.holding::<T, I>(held).holding::<U, J>(other)
        },
{
    if CtxMergeStepCall::<R, C, (&A, &B), Out>::call_post(
        &step,
        ctx,
        world,
        inputs,
        after,
        ctx_after,
        world_after,
        out,
    ) {
        let (held, other) = choose|held: T, other: U|
            #[trigger] effect_mmmpp(
                step.f,
                ctx,
                world.held::<T, I>(),
                world.held::<U, J>(),
                inputs.0,
                inputs.1,
                ctx_after,
                held,
                other,
                out,
            )
                && world_after == world.holding::<T, I>(held).holding::<U, J>(other);
        lemma_effect_mmmpp(
            step.f,
            ctx,
            world.held::<T, I>(),
            world.held::<U, J>(),
            inputs.0,
            inputs.1,
            ctx_after,
            held,
            other,
            out,
        );
        assert(promise(
            (ctx, world.held::<T, I>(), world.held::<U, J>(), *inputs.0, *inputs.1),
            (ctx_after, held, other),
            out,
        ));
    }
}

/// What a function of three resources promises, its step promises of what the world holds.
pub proof fn lemma_ctx_merge2_res_res_res<
    R,
    T,
    I,
    U,
    J,
    V,
    K,
    C,
    A,
    B,
    Out,
    F: FnMut(&mut C, &T, &U, &V, &A, &B) -> Out,
>(
    step: CtxMergeStep<F, (Res<T, I>, Res<U, J>, Res<V, K>)>,
    promise: spec_fn((C, T, U, V, A, B), (C,), Out) -> bool,
    ctx: C,
    world: World<R>,
    inputs: (&A, &B),
    after: CtxMergeStep<F, (Res<T, I>, Res<U, J>, Res<V, K>)>,
    ctx_after: C,
    world_after: World<R>,
    out: Out,
) where R: Resource<T, I> + Resource<U, J> + Resource<V, K>
    requires
        forall|a0: &mut C, a1: &T, a2: &U, a3: &V, a4: &A, a5: &B, o: Out|
            #[trigger] call_ensures(step.f, (a0, a1, a2, a3, a4, a5), o)
                ==> promise((*a0, *a1, *a2, *a3, *a4, *a5), (*final(a0),), o),
    ensures
        (forall|a0: &mut C|
            *a0 == ctx
                ==> #[trigger] call_requires(
                    step.f,
                    (
                        a0,
                        &world.held::<T, I>(),
                        &world.held::<U, J>(),
                        &world.held::<V, K>(),
                        inputs.0,
                        inputs.1,
                    ),
                )) ==> CtxMergeStepCall::<R, C, (&A, &B), Out>::call_pre(&step, ctx, world, inputs),
        CtxMergeStepCall::<R, C, (&A, &B), Out>::call_post(
            &step,
            ctx,
            world,
            inputs,
            after,
            ctx_after,
            world_after,
            out,
        )
            ==> {
            &&& after == step
            &&& world_after == world
            &&& promise(
                (
                    ctx,
                    world.held::<T, I>(),
                    world.held::<U, J>(),
                    world.held::<V, K>(),
                    *inputs.0,
                    *inputs.1,
                ),
                (ctx_after,),
                out,
            )
        },
{
    if CtxMergeStepCall::<R, C, (&A, &B), Out>::call_post(
        &step,
        ctx,
        world,
        inputs,
        after,
        ctx_after,
        world_after,
        out,
    ) {
        lemma_effect_mppppp(
            step.f,
            ctx,
            &world.held::<T, I>(),
            &world.held::<U, J>(),
            &world.held::<V, K>(),
            inputs.0,
            inputs.1,
            ctx_after,
            out,
        );
    }
}

/// What a function of three resources promises, its step promises of what the world holds.
pub proof fn lemma_ctx_merge2_res_res_resmut<
    R,
    T,
    I,
    U,
    J,
    V,
    K,
    C,
    A,
    B,
    Out,
    F: FnMut(&mut C, &T, &U, &mut V, &A, &B) -> Out,
>(
    step: CtxMergeStep<F, (Res<T, I>, Res<U, J>, ResMut<V, K>)>,
    promise: spec_fn((C, T, U, V, A, B), (C, V), Out) -> bool,
    ctx: C,
    world: World<R>,
    inputs: (&A, &B),
    after: CtxMergeStep<F, (Res<T, I>, Res<U, J>, ResMut<V, K>)>,
    ctx_after: C,
    world_after: World<R>,
    out: Out,
) where R: Apart3<T, I, U, J, V, K>
    requires
        forall|a0: &mut C, a1: &T, a2: &U, a3: &mut V, a4: &A, a5: &B, o: Out|
            #[trigger] call_ensures(step.f, (a0, a1, a2, a3, a4, a5), o)
                ==> promise((*a0, *a1, *a2, *a3, *a4, *a5), (*final(a0), *final(a3)), o),
    ensures
        (forall|a0: &mut C, a3: &mut V|
            *a0 == ctx && *a3 == world.held::<V, K>()
                ==> #[trigger] call_requires(
                    step.f,
                    (a0, &world.held::<T, I>(), &world.held::<U, J>(), a3, inputs.0, inputs.1),
                )) ==> CtxMergeStepCall::<R, C, (&A, &B), Out>::call_pre(&step, ctx, world, inputs),
        CtxMergeStepCall::<R, C, (&A, &B), Out>::call_post(
            &step,
            ctx,
            world,
            inputs,
            after,
            ctx_after,
            world_after,
            out,
        )
            ==> {
            &&& after == step
            &&& exists|held: V|
                #[trigger] promise(
                    (
                        ctx,
                        world.held::<T, I>(),
                        world.held::<U, J>(),
                        world.held::<V, K>(),
                        *inputs.0,
                        *inputs.1,
                    ),
                    (ctx_after, held),
                    out,
                )
                    && world_after == world.holding::<V, K>(held)
        },
{
    if CtxMergeStepCall::<R, C, (&A, &B), Out>::call_post(
        &step,
        ctx,
        world,
        inputs,
        after,
        ctx_after,
        world_after,
        out,
    ) {
        let held = choose|held: V|
            #[trigger] effect_mppmpp(
                step.f,
                ctx,
                &world.held::<T, I>(),
                &world.held::<U, J>(),
                world.held::<V, K>(),
                inputs.0,
                inputs.1,
                ctx_after,
                held,
                out,
            )
                && world_after == world.holding::<V, K>(held);
        lemma_effect_mppmpp(
            step.f,
            ctx,
            &world.held::<T, I>(),
            &world.held::<U, J>(),
            world.held::<V, K>(),
            inputs.0,
            inputs.1,
            ctx_after,
            held,
            out,
        );
        assert(promise(
            (
                ctx,
                world.held::<T, I>(),
                world.held::<U, J>(),
                world.held::<V, K>(),
                *inputs.0,
                *inputs.1,
            ),
            (ctx_after, held),
            out,
        ));
    }
}

/// What a function of three resources promises, its step promises of what the world holds.
pub proof fn lemma_ctx_merge2_res_resmut_res<
    R,
    T,
    I,
    U,
    J,
    V,
    K,
    C,
    A,
    B,
    Out,
    F: FnMut(&mut C, &T, &mut U, &V, &A, &B) -> Out,
>(
    step: CtxMergeStep<F, (Res<T, I>, ResMut<U, J>, Res<V, K>)>,
    promise: spec_fn((C, T, U, V, A, B), (C, U), Out) -> bool,
    ctx: C,
    world: World<R>,
    inputs: (&A, &B),
    after: CtxMergeStep<F, (Res<T, I>, ResMut<U, J>, Res<V, K>)>,
    ctx_after: C,
    world_after: World<R>,
    out: Out,
) where R: Apart3<T, I, V, K, U, J>
    requires
        forall|a0: &mut C, a1: &T, a2: &mut U, a3: &V, a4: &A, a5: &B, o: Out|
            #[trigger] call_ensures(step.f, (a0, a1, a2, a3, a4, a5), o)
                ==> promise((*a0, *a1, *a2, *a3, *a4, *a5), (*final(a0), *final(a2)), o),
    ensures
        (forall|a0: &mut C, a2: &mut U|
            *a0 == ctx && *a2 == world.held::<U, J>()
                ==> #[trigger] call_requires(
                    step.f,
                    (a0, &world.held::<T, I>(), a2, &world.held::<V, K>(), inputs.0, inputs.1),
                )) ==> CtxMergeStepCall::<R, C, (&A, &B), Out>::call_pre(&step, ctx, world, inputs),
        CtxMergeStepCall::<R, C, (&A, &B), Out>::call_post(
            &step,
            ctx,
            world,
            inputs,
            after,
            ctx_after,
            world_after,
            out,
        )
            ==> {
            &&& after == step
            &&& exists|held: U|
                #[trigger] promise(
                    (
                        ctx,
                        world.held::<T, I>(),
                        world.held::<U, J>(),
                        world.held::<V, K>(),
                        *inputs.0,
                        *inputs.1,
                    ),
                    (ctx_after, held),
                    out,
                )
                    && world_after == world.holding::<U, J>(held)
        },
{
    if CtxMergeStepCall::<R, C, (&A, &B), Out>::call_post(
        &step,
        ctx,
        world,
        inputs,
        after,
        ctx_after,
        world_after,
        out,
    ) {
        let held = choose|held: U|
            #[trigger] effect_mpmppp(
                step.f,
                ctx,
                &world.held::<T, I>(),
                world.held::<U, J>(),
                &world.held::<V, K>(),
                inputs.0,
                inputs.1,
                ctx_after,
                held,
                out,
            )
                && world_after == world.holding::<U, J>(held);
        lemma_effect_mpmppp(
            step.f,
            ctx,
            &world.held::<T, I>(),
            world.held::<U, J>(),
            &world.held::<V, K>(),
            inputs.0,
            inputs.1,
            ctx_after,
            held,
            out,
        );
        assert(promise(
            (
                ctx,
                world.held::<T, I>(),
                world.held::<U, J>(),
                world.held::<V, K>(),
                *inputs.0,
                *inputs.1,
            ),
            (ctx_after, held),
            out,
        ));
    }
}

/// What a function of three resources promises, its step promises of what the world holds.
pub proof fn lemma_ctx_merge2_res_resmut_resmut<
    R,
    T,
    I,
    U,
    J,
    V,
    K,
    C,
    A,
    B,
    Out,
    F: FnMut(&mut C, &T, &mut U, &mut V, &A, &B) -> Out,
>(
    step: CtxMergeStep<F, (Res<T, I>, ResMut<U, J>, ResMut<V, K>)>,
    promise: spec_fn((C, T, U, V, A, B), (C, U, V), Out) -> bool,
    ctx: C,
    world: World<R>,
    inputs: (&A, &B),
    after: CtxMergeStep<F, (Res<T, I>, ResMut<U, J>, ResMut<V, K>)>,
    ctx_after: C,
    world_after: World<R>,
    out: Out,
) where R: Apart3<T, I, U, J, V, K>
    requires
        forall|a0: &mut C, a1: &T, a2: &mut U, a3: &mut V, a4: &A, a5: &B, o: Out|
            #[trigger] call_ensures(step.f, (a0, a1, a2, a3, a4, a5), o)
                ==> promise(
                    (*a0, *a1, *a2, *a3, *a4, *a5),
                    (*final(a0), *final(a2), *final(a3)),
                    o,
                ),
    ensures
        (forall|a0: &mut C, a2: &mut U, a3: &mut V|
            *a0 == ctx && *a2 == world.held::<U, J>() && *a3 == world.held::<V, K>()
                ==> #[trigger] call_requires(
                    step.f,
                    (a0, &world.held::<T, I>(), a2, a3, inputs.0, inputs.1),
                )) ==> CtxMergeStepCall::<R, C, (&A, &B), Out>::call_pre(&step, ctx, world, inputs),
        CtxMergeStepCall::<R, C, (&A, &B), Out>::call_post(
            &step,
            ctx,
            world,
            inputs,
            after,
            ctx_after,
            world_after,
            out,
        )
            ==> {
            &&& after == step
            &&& exists|held: U, other: V|
                #[trigger] promise(
                    (
                        ctx,
                        world.held::<T, I>(),
                        world.held::<U, J>(),
                        world.held::<V, K>(),
                        *inputs.0,
                        *inputs.1,
                    ),
                    (ctx_after, held, other),
                    out,
                )
                    && world_after == world.holding::<U, J>(held).holding::<V, K>(other)
        },
{
    if CtxMergeStepCall::<R, C, (&A, &B), Out>::call_post(
        &step,
        ctx,
        world,
        inputs,
        after,
        ctx_after,
        world_after,
        out,
    ) {
        let (held, other) = choose|held: U, other: V|
            #[trigger] effect_mpmmpp(
                step.f,
                ctx,
                &world.held::<T, I>(),
                world.held::<U, J>(),
                world.held::<V, K>(),
                inputs.0,
                inputs.1,
                ctx_after,
                held,
                other,
                out,
            )
                && world_after == world.holding::<U, J>(held).holding::<V, K>(other);
        lemma_effect_mpmmpp(
            step.f,
            ctx,
            &world.held::<T, I>(),
            world.held::<U, J>(),
            world.held::<V, K>(),
            inputs.0,
            inputs.1,
            ctx_after,
            held,
            other,
            out,
        );
        assert(promise(
            (
                ctx,
                world.held::<T, I>(),
                world.held::<U, J>(),
                world.held::<V, K>(),
                *inputs.0,
                *inputs.1,
            ),
            (ctx_after, held, other),
            out,
        ));
    }
}

/// What a function of three resources promises, its step promises of what the world holds.
pub proof fn lemma_ctx_merge2_resmut_res_res<
    R,
    T,
    I,
    U,
    J,
    V,
    K,
    C,
    A,
    B,
    Out,
    F: FnMut(&mut C, &mut T, &U, &V, &A, &B) -> Out,
>(
    step: CtxMergeStep<F, (ResMut<T, I>, Res<U, J>, Res<V, K>)>,
    promise: spec_fn((C, T, U, V, A, B), (C, T), Out) -> bool,
    ctx: C,
    world: World<R>,
    inputs: (&A, &B),
    after: CtxMergeStep<F, (ResMut<T, I>, Res<U, J>, Res<V, K>)>,
    ctx_after: C,
    world_after: World<R>,
    out: Out,
) where R: Apart3<U, J, V, K, T, I>
    requires
        forall|a0: &mut C, a1: &mut T, a2: &U, a3: &V, a4: &A, a5: &B, o: Out|
            #[trigger] call_ensures(step.f, (a0, a1, a2, a3, a4, a5), o)
                ==> promise((*a0, *a1, *a2, *a3, *a4, *a5), (*final(a0), *final(a1)), o),
    ensures
        (forall|a0: &mut C, a1: &mut T|
            *a0 == ctx && *a1 == world.held::<T, I>()
                ==> #[trigger] call_requires(
                    step.f,
                    (a0, a1, &world.held::<U, J>(), &world.held::<V, K>(), inputs.0, inputs.1),
                )) ==> CtxMergeStepCall::<R, C, (&A, &B), Out>::call_pre(&step, ctx, world, inputs),
        CtxMergeStepCall::<R, C, (&A, &B), Out>::call_post(
            &step,
            ctx,
            world,
            inputs,
            after,
            ctx_after,
            world_after,
            out,
        )
            ==> {
            &&& after == step
            &&& exists|held: T|
                #[trigger] promise(
                    (
                        ctx,
                        world.held::<T, I>(),
                        world.held::<U, J>(),
                        world.held::<V, K>(),
                        *inputs.0,
                        *inputs.1,
                    ),
                    (ctx_after, held),
                    out,
                )
                    && world_after == world.holding::<T, I>(held)
        },
{
    if CtxMergeStepCall::<R, C, (&A, &B), Out>::call_post(
        &step,
        ctx,
        world,
        inputs,
        after,
        ctx_after,
        world_after,
        out,
    ) {
        let held = choose|held: T|
            #[trigger] effect_mmpppp(
                step.f,
                ctx,
                world.held::<T, I>(),
                &world.held::<U, J>(),
                &world.held::<V, K>(),
                inputs.0,
                inputs.1,
                ctx_after,
                held,
                out,
            )
                && world_after == world.holding::<T, I>(held);
        lemma_effect_mmpppp(
            step.f,
            ctx,
            world.held::<T, I>(),
            &world.held::<U, J>(),
            &world.held::<V, K>(),
            inputs.0,
            inputs.1,
            ctx_after,
            held,
            out,
        );
        assert(promise(
            (
                ctx,
                world.held::<T, I>(),
                world.held::<U, J>(),
                world.held::<V, K>(),
                *inputs.0,
                *inputs.1,
            ),
            (ctx_after, held),
            out,
        ));
    }
}

/// What a function of three resources promises, its step promises of what the world holds.
pub proof fn lemma_ctx_merge2_resmut_res_resmut<
    R,
    T,
    I,
    U,
    J,
    V,
    K,
    C,
    A,
    B,
    Out,
    F: FnMut(&mut C, &mut T, &U, &mut V, &A, &B) -> Out,
>(
    step: CtxMergeStep<F, (ResMut<T, I>, Res<U, J>, ResMut<V, K>)>,
    promise: spec_fn((C, T, U, V, A, B), (C, T, V), Out) -> bool,
    ctx: C,
    world: World<R>,
    inputs: (&A, &B),
    after: CtxMergeStep<F, (ResMut<T, I>, Res<U, J>, ResMut<V, K>)>,
    ctx_after: C,
    world_after: World<R>,
    out: Out,
) where R: Apart3<U, J, T, I, V, K>
    requires
        forall|a0: &mut C, a1: &mut T, a2: &U, a3: &mut V, a4: &A, a5: &B, o: Out|
            #[trigger] call_ensures(step.f, (a0, a1, a2, a3, a4, a5), o)
                ==> promise(
                    (*a0, *a1, *a2, *a3, *a4, *a5),
                    (*final(a0), *final(a1), *final(a3)),
                    o,
                ),
    ensures
        (forall|a0: &mut C, a1: &mut T, a3: &mut V|
            *a0 == ctx && *a1 == world.held::<T, I>() && *a3 == world.held::<V, K>()
                ==> #[trigger] call_requires(
                    step.f,
                    (a0, a1, &world.held::<U, J>(), a3, inputs.0, inputs.1),
                )) ==> CtxMergeStepCall::<R, C, (&A, &B), Out>::call_pre(&step, ctx, world, inputs),
        CtxMergeStepCall::<R, C, (&A, &B), Out>::call_post(
            &step,
            ctx,
            world,
            inputs,
            after,
            ctx_after,
            world_after,
            out,
        )
            ==> {
            &&& after == step
            &&& exists|held: T, other: V|
                #[trigger] promise(
                    (
                        ctx,
                        world.held::<T, I>(),
                        world.held::<U, J>(),
                        world.held::<V, K>(),
                        *inputs.0,
                        *inputs.1,
                    ),
                    (ctx_after, held, other),
                    out,
                )
                    && world_after == world.holding::<T, I>(held).holding::<V, K>(other)
        },
{
    if CtxMergeStepCall::<R, C, (&A, &B), Out>::call_post(
        &step,
        ctx,
        world,
        inputs,
        after,
        ctx_after,
        world_after,
        out,
    ) {
        let (held, other) = choose|held: T, other: V|
            #[trigger] effect_mmpmpp(
                step.f,
                ctx,
                world.held::<T, I>(),
                &world.held::<U, J>(),
                world.held::<V, K>(),
                inputs.0,
                inputs.1,
                ctx_after,
                held,
                other,
                out,
            )
                && world_after == world.holding::<T, I>(held).holding::<V, K>(other);
        lemma_effect_mmpmpp(
            step.f,
            ctx,
            world.held::<T, I>(),
            &world.held::<U, J>(),
            world.held::<V, K>(),
            inputs.0,
            inputs.1,
            ctx_after,
            held,
            other,
            out,
        );
        assert(promise(
            (
                ctx,
                world.held::<T, I>(),
                world.held::<U, J>(),
                world.held::<V, K>(),
                *inputs.0,
                *inputs.1,
            ),
            (ctx_after, held, other),
            out,
        ));
    }
}

/// What a function of three resources promises, its step promises of what the world holds.
pub proof fn lemma_ctx_merge2_resmut_resmut_res<
    R,
    T,
    I,
    U,
    J,
    V,
    K,
    C,
    A,
    B,
    Out,
    F: FnMut(&mut C, &mut T, &mut U, &V, &A, &B) -> Out,
>(
    step: CtxMergeStep<F, (ResMut<T, I>, ResMut<U, J>, Res<V, K>)>,
    promise: spec_fn((C, T, U, V, A, B), (C, T, U), Out) -> bool,
    ctx: C,
    world: World<R>,
    inputs: (&A, &B),
    after: CtxMergeStep<F, (ResMut<T, I>, ResMut<U, J>, Res<V, K>)>,
    ctx_after: C,
    world_after: World<R>,
    out: Out,
) where R: Apart3<V, K, T, I, U, J>
    requires
        forall|a0: &mut C, a1: &mut T, a2: &mut U, a3: &V, a4: &A, a5: &B, o: Out|
            #[trigger] call_ensures(step.f, (a0, a1, a2, a3, a4, a5), o)
                ==> promise(
                    (*a0, *a1, *a2, *a3, *a4, *a5),
                    (*final(a0), *final(a1), *final(a2)),
                    o,
                ),
    ensures
        (forall|a0: &mut C, a1: &mut T, a2: &mut U|
            *a0 == ctx && *a1 == world.held::<T, I>() && *a2 == world.held::<U, J>()
                ==> #[trigger] call_requires(
                    step.f,
                    (a0, a1, a2, &world.held::<V, K>(), inputs.0, inputs.1),
                )) ==> CtxMergeStepCall::<R, C, (&A, &B), Out>::call_pre(&step, ctx, world, inputs),
        CtxMergeStepCall::<R, C, (&A, &B), Out>::call_post(
            &step,
            ctx,
            world,
            inputs,
            after,
            ctx_after,
            world_after,
            out,
        )
            ==> {
            &&& after == step
            &&& exists|held: T, other: U|
                #[trigger] promise(
                    (
                        ctx,
                        world.held::<T, I>(),
                        world.held::<U, J>(),
                        world.held::<V, K>(),
                        *inputs.0,
                        *inputs.1,
                    ),
                    (ctx_after, held, other),
                    out,
                )
                    && world_after == world.holding::<T, I>(held).holding::<U, J>(other)
        },
{
    if CtxMergeStepCall::<R, C, (&A, &B), Out>::call_post(
        &step,
        ctx,
        world,
        inputs,
        after,
        ctx_after,
        world_after,
        out,
    ) {
        let (held, other) = choose|held: T, other: U|
            #[trigger] effect_mmmppp(
                step.f,
                ctx,
                world.held::<T, I>(),
                world.held::<U, J>(),
                &world.held::<V, K>(),
                inputs.0,
                inputs.1,
                ctx_after,
                held,
                other,
                out,
            )
                && world_after == world.holding::<T, I>(held).holding::<U, J>(other);
        lemma_effect_mmmppp(
            step.f,
            ctx,
            world.held::<T, I>(),
            world.held::<U, J>(),
            &world.held::<V, K>(),
            inputs.0,
            inputs.1,
            ctx_after,
            held,
            other,
            out,
        );
        assert(promise(
            (
                ctx,
                world.held::<T, I>(),
                world.held::<U, J>(),
                world.held::<V, K>(),
                *inputs.0,
                *inputs.1,
            ),
            (ctx_after, held, other),
            out,
        ));
    }
}

/// What a function of three resources promises, its step promises of what the world holds.
pub proof fn lemma_ctx_merge2_resmut_resmut_resmut<
    R,
    T,
    I,
    U,
    J,
    V,
    K,
    C,
    A,
    B,
    Out,
    F: FnMut(&mut C, &mut T, &mut U, &mut V, &A, &B) -> Out,
>(
    step: CtxMergeStep<F, (ResMut<T, I>, ResMut<U, J>, ResMut<V, K>)>,
    promise: spec_fn((C, T, U, V, A, B), (C, T, U, V), Out) -> bool,
    ctx: C,
    world: World<R>,
    inputs: (&A, &B),
    after: CtxMergeStep<F, (ResMut<T, I>, ResMut<U, J>, ResMut<V, K>)>,
    ctx_after: C,
    world_after: World<R>,
    out: Out,
) where R: Apart3<T, I, U, J, V, K>
    requires
        forall|a0: &mut C, a1: &mut T, a2: &mut U, a3: &mut V, a4: &A, a5: &B, o: Out|
            #[trigger] call_ensures(step.f, (a0, a1, a2, a3, a4, a5), o)
                ==> promise(
                    (*a0, *a1, *a2, *a3, *a4, *a5),
                    (*final(a0), *final(a1), *final(a2), *final(a3)),
                    o,
                ),
    ensures
        (forall|a0: &mut C, a1: &mut T, a2: &mut U, a3: &mut V|
            *a0 == ctx
                && *a1 == world.held::<T, I>()
                && *a2 == world.held::<U, J>()
                && *a3 == world.held::<V, K>()
                ==> #[trigger] call_requires(
                    step.f,
                    (a0, a1, a2, a3, inputs.0, inputs.1),
                )) ==> CtxMergeStepCall::<R, C, (&A, &B), Out>::call_pre(&step, ctx, world, inputs),
        CtxMergeStepCall::<R, C, (&A, &B), Out>::call_post(
            &step,
            ctx,
            world,
            inputs,
            after,
            ctx_after,
            world_after,
            out,
        )
            ==> {
            &&& after == step
            &&& exists|held: T, other: U, last: V|
                #[trigger] promise(
                    (
                        ctx,
                        world.held::<T, I>(),
                        world.held::<U, J>(),
                        world.held::<V, K>(),
                        *inputs.0,
                        *inputs.1,
                    ),
                    (ctx_after, held, other, last),
                    out,
                )
                    && world_after == world.holding::<T, I>(held).holding::<U, J>(other).holding::<V, K>(last)
        },
{
    if CtxMergeStepCall::<R, C, (&A, &B), Out>::call_post(
        &step,
        ctx,
        world,
        inputs,
        after,
        ctx_after,
        world_after,
        out,
    ) {
        let (held, other, last) = choose|held: T, other: U, last: V|
            #[trigger] effect_mmmmpp(
                step.f,
                ctx,
                world.held::<T, I>(),
                world.held::<U, J>(),
                world.held::<V, K>(),
                inputs.0,
                inputs.1,
                ctx_after,
                held,
                other,
                last,
                out,
            )
                && world_after == world.holding::<T, I>(held).holding::<U, J>(other).holding::<V, K>(last);
        lemma_effect_mmmmpp(
            step.f,
            ctx,
            world.held::<T, I>(),
            world.held::<U, J>(),
            world.held::<V, K>(),
            inputs.0,
            inputs.1,
            ctx_after,
            held,
            other,
            last,
            out,
        );
        assert(promise(
            (
                ctx,
                world.held::<T, I>(),
                world.held::<U, J>(),
                world.held::<V, K>(),
                *inputs.0,
                *inputs.1,
            ),
            (ctx_after, held, other, last),
            out,
        ));
    }
}

/// What a function of its input alone promises, its step promises of what the world holds.
pub proof fn lemma_ctx_merge3_unit<R, C, A, B, D, Out, F: FnMut(&mut C, &A, &B, &D) -> Out>(
    step: CtxMergeStep<F, ()>,
    promise: spec_fn((C, A, B, D), (C,), Out) -> bool,
    ctx: C,
    world: World<R>,
    inputs: (&A, &B, &D),
    after: CtxMergeStep<F, ()>,
    ctx_after: C,
    world_after: World<R>,
    out: Out,
)
    requires
        forall|a0: &mut C, a1: &A, a2: &B, a3: &D, o: Out|
            #[trigger] call_ensures(step.f, (a0, a1, a2, a3), o)
                ==> promise((*a0, *a1, *a2, *a3), (*final(a0),), o),
    ensures
        (forall|a0: &mut C|
            *a0 == ctx
                ==> #[trigger] call_requires(
                    step.f,
                    (a0, inputs.0, inputs.1, inputs.2),
                )) ==> CtxMergeStepCall::<R, C, (&A, &B, &D), Out>::call_pre(&step, ctx, world, inputs),
        CtxMergeStepCall::<R, C, (&A, &B, &D), Out>::call_post(
            &step,
            ctx,
            world,
            inputs,
            after,
            ctx_after,
            world_after,
            out,
        )
            ==> {
            &&& after == step
            &&& world_after == world
            &&& promise((ctx, *inputs.0, *inputs.1, *inputs.2), (ctx_after,), out)
        },
{
    if CtxMergeStepCall::<R, C, (&A, &B, &D), Out>::call_post(
        &step,
        ctx,
        world,
        inputs,
        after,
        ctx_after,
        world_after,
        out,
    ) {
        lemma_effect_mppp(step.f, ctx, inputs.0, inputs.1, inputs.2, ctx_after, out);
    }
}

/// What a function of one resource promises, its step promises of what the world holds.
pub proof fn lemma_ctx_merge3_res<
    R,
    T,
    I,
    C,
    A,
    B,
    D,
    Out,
    F: FnMut(&mut C, &T, &A, &B, &D) -> Out,
>(
    step: CtxMergeStep<F, Res<T, I>>,
    promise: spec_fn((C, T, A, B, D), (C,), Out) -> bool,
    ctx: C,
    world: World<R>,
    inputs: (&A, &B, &D),
    after: CtxMergeStep<F, Res<T, I>>,
    ctx_after: C,
    world_after: World<R>,
    out: Out,
) where R: Resource<T, I>
    requires
        forall|a0: &mut C, a1: &T, a2: &A, a3: &B, a4: &D, o: Out|
            #[trigger] call_ensures(step.f, (a0, a1, a2, a3, a4), o)
                ==> promise((*a0, *a1, *a2, *a3, *a4), (*final(a0),), o),
    ensures
        (forall|a0: &mut C|
            *a0 == ctx
                ==> #[trigger] call_requires(
                    step.f,
                    (a0, &world.held::<T, I>(), inputs.0, inputs.1, inputs.2),
                )) ==> CtxMergeStepCall::<R, C, (&A, &B, &D), Out>::call_pre(&step, ctx, world, inputs),
        CtxMergeStepCall::<R, C, (&A, &B, &D), Out>::call_post(
            &step,
            ctx,
            world,
            inputs,
            after,
            ctx_after,
            world_after,
            out,
        )
            ==> {
            &&& after == step
            &&& world_after == world
            &&& promise(
                (ctx, world.held::<T, I>(), *inputs.0, *inputs.1, *inputs.2),
                (ctx_after,),
                out,
            )
        },
{
    if CtxMergeStepCall::<R, C, (&A, &B, &D), Out>::call_post(
        &step,
        ctx,
        world,
        inputs,
        after,
        ctx_after,
        world_after,
        out,
    ) {
        lemma_effect_mpppp(
            step.f,
            ctx,
            &world.held::<T, I>(),
            inputs.0,
            inputs.1,
            inputs.2,
            ctx_after,
            out,
        );
    }
}

/// What a function of one resource promises, its step promises of what the world holds.
pub proof fn lemma_ctx_merge3_resmut<
    R,
    T,
    I,
    C,
    A,
    B,
    D,
    Out,
    F: FnMut(&mut C, &mut T, &A, &B, &D) -> Out,
>(
    step: CtxMergeStep<F, ResMut<T, I>>,
    promise: spec_fn((C, T, A, B, D), (C, T), Out) -> bool,
    ctx: C,
    world: World<R>,
    inputs: (&A, &B, &D),
    after: CtxMergeStep<F, ResMut<T, I>>,
    ctx_after: C,
    world_after: World<R>,
    out: Out,
) where R: Resource<T, I>
    requires
        forall|a0: &mut C, a1: &mut T, a2: &A, a3: &B, a4: &D, o: Out|
            #[trigger] call_ensures(step.f, (a0, a1, a2, a3, a4), o)
                ==> promise((*a0, *a1, *a2, *a3, *a4), (*final(a0), *final(a1)), o),
    ensures
        (forall|a0: &mut C, a1: &mut T|
            *a0 == ctx && *a1 == world.held::<T, I>()
                ==> #[trigger] call_requires(
                    step.f,
                    (a0, a1, inputs.0, inputs.1, inputs.2),
                )) ==> CtxMergeStepCall::<R, C, (&A, &B, &D), Out>::call_pre(&step, ctx, world, inputs),
        CtxMergeStepCall::<R, C, (&A, &B, &D), Out>::call_post(
            &step,
            ctx,
            world,
            inputs,
            after,
            ctx_after,
            world_after,
            out,
        )
            ==> {
            &&& after == step
            &&& exists|held: T|
                #[trigger] promise(
                    (ctx, world.held::<T, I>(), *inputs.0, *inputs.1, *inputs.2),
                    (ctx_after, held),
                    out,
                )
                    && world_after == world.holding::<T, I>(held)
        },
{
    if CtxMergeStepCall::<R, C, (&A, &B, &D), Out>::call_post(
        &step,
        ctx,
        world,
        inputs,
        after,
        ctx_after,
        world_after,
        out,
    ) {
        let held = choose|held: T|
            #[trigger] effect_mmppp(
                step.f,
                ctx,
                world.held::<T, I>(),
                inputs.0,
                inputs.1,
                inputs.2,
                ctx_after,
                held,
                out,
            )
                && world_after == world.holding::<T, I>(held);
        lemma_effect_mmppp(
            step.f,
            ctx,
            world.held::<T, I>(),
            inputs.0,
            inputs.1,
            inputs.2,
            ctx_after,
            held,
            out,
        );
        assert(promise(
            (ctx, world.held::<T, I>(), *inputs.0, *inputs.1, *inputs.2),
            (ctx_after, held),
            out,
        ));
    }
}

/// What a function of two resources promises, its step promises of what the world holds.
pub proof fn lemma_ctx_merge3_res_res<
    R,
    T,
    I,
    U,
    J,
    C,
    A,
    B,
    D,
    Out,
    F: FnMut(&mut C, &T, &U, &A, &B, &D) -> Out,
>(
    step: CtxMergeStep<F, (Res<T, I>, Res<U, J>)>,
    promise: spec_fn((C, T, U, A, B, D), (C,), Out) -> bool,
    ctx: C,
    world: World<R>,
    inputs: (&A, &B, &D),
    after: CtxMergeStep<F, (Res<T, I>, Res<U, J>)>,
    ctx_after: C,
    world_after: World<R>,
    out: Out,
) where R: Resource<T, I> + Resource<U, J>
    requires
        forall|a0: &mut C, a1: &T, a2: &U, a3: &A, a4: &B, a5: &D, o: Out|
            #[trigger] call_ensures(step.f, (a0, a1, a2, a3, a4, a5), o)
                ==> promise((*a0, *a1, *a2, *a3, *a4, *a5), (*final(a0),), o),
    ensures
        (forall|a0: &mut C|
            *a0 == ctx
                ==> #[trigger] call_requires(
                    step.f,
                    (
                        a0,
                        &world.held::<T, I>(),
                        &world.held::<U, J>(),
                        inputs.0,
                        inputs.1,
                        inputs.2,
                    ),
                )) ==> CtxMergeStepCall::<R, C, (&A, &B, &D), Out>::call_pre(&step, ctx, world, inputs),
        CtxMergeStepCall::<R, C, (&A, &B, &D), Out>::call_post(
            &step,
            ctx,
            world,
            inputs,
            after,
            ctx_after,
            world_after,
            out,
        )
            ==> {
            &&& after == step
            &&& world_after == world
            &&& promise(
                (ctx, world.held::<T, I>(), world.held::<U, J>(), *inputs.0, *inputs.1, *inputs.2),
                (ctx_after,),
                out,
            )
        },
{
    if CtxMergeStepCall::<R, C, (&A, &B, &D), Out>::call_post(
        &step,
        ctx,
        world,
        inputs,
        after,
        ctx_after,
        world_after,
        out,
    ) {
        lemma_effect_mppppp(
            step.f,
            ctx,
            &world.held::<T, I>(),
            &world.held::<U, J>(),
            inputs.0,
            inputs.1,
            inputs.2,
            ctx_after,
            out,
        );
    }
}

/// What a function of two resources promises, its step promises of what the world holds.
pub proof fn lemma_ctx_merge3_res_resmut<
    R,
    T,
    I,
    U,
    J,
    C,
    A,
    B,
    D,
    Out,
    F: FnMut(&mut C, &T, &mut U, &A, &B, &D) -> Out,
>(
    step: CtxMergeStep<F, (Res<T, I>, ResMut<U, J>)>,
    promise: spec_fn((C, T, U, A, B, D), (C, U), Out) -> bool,
    ctx: C,
    world: World<R>,
    inputs: (&A, &B, &D),
    after: CtxMergeStep<F, (Res<T, I>, ResMut<U, J>)>,
    ctx_after: C,
    world_after: World<R>,
    out: Out,
) where R: Apart<T, I, U, J>
    requires
        forall|a0: &mut C, a1: &T, a2: &mut U, a3: &A, a4: &B, a5: &D, o: Out|
            #[trigger] call_ensures(step.f, (a0, a1, a2, a3, a4, a5), o)
                ==> promise((*a0, *a1, *a2, *a3, *a4, *a5), (*final(a0), *final(a2)), o),
    ensures
        (forall|a0: &mut C, a2: &mut U|
            *a0 == ctx && *a2 == world.held::<U, J>()
                ==> #[trigger] call_requires(
                    step.f,
                    (a0, &world.held::<T, I>(), a2, inputs.0, inputs.1, inputs.2),
                )) ==> CtxMergeStepCall::<R, C, (&A, &B, &D), Out>::call_pre(&step, ctx, world, inputs),
        CtxMergeStepCall::<R, C, (&A, &B, &D), Out>::call_post(
            &step,
            ctx,
            world,
            inputs,
            after,
            ctx_after,
            world_after,
            out,
        )
            ==> {
            &&& after == step
            &&& exists|held: U|
                #[trigger] promise(
                    (
                        ctx,
                        world.held::<T, I>(),
                        world.held::<U, J>(),
                        *inputs.0,
                        *inputs.1,
                        *inputs.2,
                    ),
                    (ctx_after, held),
                    out,
                )
                    && world_after == world.holding::<U, J>(held)
        },
{
    if CtxMergeStepCall::<R, C, (&A, &B, &D), Out>::call_post(
        &step,
        ctx,
        world,
        inputs,
        after,
        ctx_after,
        world_after,
        out,
    ) {
        let held = choose|held: U|
            #[trigger] effect_mpmppp(
                step.f,
                ctx,
                &world.held::<T, I>(),
                world.held::<U, J>(),
                inputs.0,
                inputs.1,
                inputs.2,
                ctx_after,
                held,
                out,
            )
                && world_after == world.holding::<U, J>(held);
        lemma_effect_mpmppp(
            step.f,
            ctx,
            &world.held::<T, I>(),
            world.held::<U, J>(),
            inputs.0,
            inputs.1,
            inputs.2,
            ctx_after,
            held,
            out,
        );
        assert(promise(
            (ctx, world.held::<T, I>(), world.held::<U, J>(), *inputs.0, *inputs.1, *inputs.2),
            (ctx_after, held),
            out,
        ));
    }
}

/// What a function of two resources promises, its step promises of what the world holds.
pub proof fn lemma_ctx_merge3_resmut_res<
    R,
    T,
    I,
    U,
    J,
    C,
    A,
    B,
    D,
    Out,
    F: FnMut(&mut C, &mut T, &U, &A, &B, &D) -> Out,
>(
    step: CtxMergeStep<F, (ResMut<T, I>, Res<U, J>)>,
    promise: spec_fn((C, T, U, A, B, D), (C, T), Out) -> bool,
    ctx: C,
    world: World<R>,
    inputs: (&A, &B, &D),
    after: CtxMergeStep<F, (ResMut<T, I>, Res<U, J>)>,
    ctx_after: C,
    world_after: World<R>,
    out: Out,
) where R: Apart<U, J, T, I>
    requires
        forall|a0: &mut C, a1: &mut T, a2: &U, a3: &A, a4: &B, a5: &D, o: Out|
            #[trigger] call_ensures(step.f, (a0, a1, a2, a3, a4, a5), o)
                ==> promise((*a0, *a1, *a2, *a3, *a4, *a5), (*final(a0), *final(a1)), o),
    ensures
        (forall|a0: &mut C, a1: &mut T|
            *a0 == ctx && *a1 == world.held::<T, I>()
                ==> #[trigger] call_requires(
                    step.f,
                    (a0, a1, &world.held::<U, J>(), inputs.0, inputs.1, inputs.2),
                )) ==> CtxMergeStepCall::<R, C, (&A, &B, &D), Out>::call_pre(&step, ctx, world, inputs),
        CtxMergeStepCall::<R, C, (&A, &B, &D), Out>::call_post(
            &step,
            ctx,
            world,
            inputs,
            after,
            ctx_after,
            world_after,
            out,
        )
            ==> {
            &&& after == step
            &&& exists|held: T|
                #[trigger] promise(
                    (
                        ctx,
                        world.held::<T, I>(),
                        world.held::<U, J>(),
                        *inputs.0,
                        *inputs.1,
                        *inputs.2,
                    ),
                    (ctx_after, held),
                    out,
                )
                    && world_after == world.holding::<T, I>(held)
        },
{
    if CtxMergeStepCall::<R, C, (&A, &B, &D), Out>::call_post(
        &step,
        ctx,
        world,
        inputs,
        after,
        ctx_after,
        world_after,
        out,
    ) {
        let held = choose|held: T|
            #[trigger] effect_mmpppp(
                step.f,
                ctx,
                world.held::<T, I>(),
                &world.held::<U, J>(),
                inputs.0,
                inputs.1,
                inputs.2,
                ctx_after,
                held,
                out,
            )
                && world_after == world.holding::<T, I>(held);
        lemma_effect_mmpppp(
            step.f,
            ctx,
            world.held::<T, I>(),
            &world.held::<U, J>(),
            inputs.0,
            inputs.1,
            inputs.2,
            ctx_after,
            held,
            out,
        );
        assert(promise(
            (ctx, world.held::<T, I>(), world.held::<U, J>(), *inputs.0, *inputs.1, *inputs.2),
            (ctx_after, held),
            out,
        ));
    }
}

/// What a function of two resources promises, its step promises of what the world holds.
pub proof fn lemma_ctx_merge3_resmut_resmut<
    R,
    T,
    I,
    U,
    J,
    C,
    A,
    B,
    D,
    Out,
    F: FnMut(&mut C, &mut T, &mut U, &A, &B, &D) -> Out,
>(
    step: CtxMergeStep<F, (ResMut<T, I>, ResMut<U, J>)>,
    promise: spec_fn((C, T, U, A, B, D), (C, T, U), Out) -> bool,
    ctx: C,
    world: World<R>,
    inputs: (&A, &B, &D),
    after: CtxMergeStep<F, (ResMut<T, I>, ResMut<U, J>)>,
    ctx_after: C,
    world_after: World<R>,
    out: Out,
) where R: Apart<T, I, U, J>
    requires
        forall|a0: &mut C, a1: &mut T, a2: &mut U, a3: &A, a4: &B, a5: &D, o: Out|
            #[trigger] call_ensures(step.f, (a0, a1, a2, a3, a4, a5), o)
                ==> promise(
                    (*a0, *a1, *a2, *a3, *a4, *a5),
                    (*final(a0), *final(a1), *final(a2)),
                    o,
                ),
    ensures
        (forall|a0: &mut C, a1: &mut T, a2: &mut U|
            *a0 == ctx && *a1 == world.held::<T, I>() && *a2 == world.held::<U, J>()
                ==> #[trigger] call_requires(
                    step.f,
                    (a0, a1, a2, inputs.0, inputs.1, inputs.2),
                )) ==> CtxMergeStepCall::<R, C, (&A, &B, &D), Out>::call_pre(&step, ctx, world, inputs),
        CtxMergeStepCall::<R, C, (&A, &B, &D), Out>::call_post(
            &step,
            ctx,
            world,
            inputs,
            after,
            ctx_after,
            world_after,
            out,
        )
            ==> {
            &&& after == step
            &&& exists|held: T, other: U|
                #[trigger] promise(
                    (
                        ctx,
                        world.held::<T, I>(),
                        world.held::<U, J>(),
                        *inputs.0,
                        *inputs.1,
                        *inputs.2,
                    ),
                    (ctx_after, held, other),
                    out,
                )
                    && world_after == world.holding::<T, I>(held).holding::<U, J>(other)
        },
{
    if CtxMergeStepCall::<R, C, (&A, &B, &D), Out>::call_post(
        &step,
        ctx,
        world,
        inputs,
        after,
        ctx_after,
        world_after,
        out,
    ) {
        let (held, other) = choose|held: T, other: U|
            #[trigger] effect_mmmppp(
                step.f,
                ctx,
                world.held::<T, I>(),
                world.held::<U, J>(),
                inputs.0,
                inputs.1,
                inputs.2,
                ctx_after,
                held,
                other,
                out,
            )
                && world_after == world.holding::<T, I>(held).holding::<U, J>(other);
        lemma_effect_mmmppp(
            step.f,
            ctx,
            world.held::<T, I>(),
            world.held::<U, J>(),
            inputs.0,
            inputs.1,
            inputs.2,
            ctx_after,
            held,
            other,
            out,
        );
        assert(promise(
            (ctx, world.held::<T, I>(), world.held::<U, J>(), *inputs.0, *inputs.1, *inputs.2),
            (ctx_after, held, other),
            out,
        ));
    }
}

/// What a function of three resources promises, its step promises of what the world holds.
pub proof fn lemma_ctx_merge3_res_res_res<
    R,
    T,
    I,
    U,
    J,
    V,
    K,
    C,
    A,
    B,
    D,
    Out,
    F: FnMut(&mut C, &T, &U, &V, &A, &B, &D) -> Out,
>(
    step: CtxMergeStep<F, (Res<T, I>, Res<U, J>, Res<V, K>)>,
    promise: spec_fn((C, T, U, V, A, B, D), (C,), Out) -> bool,
    ctx: C,
    world: World<R>,
    inputs: (&A, &B, &D),
    after: CtxMergeStep<F, (Res<T, I>, Res<U, J>, Res<V, K>)>,
    ctx_after: C,
    world_after: World<R>,
    out: Out,
) where R: Resource<T, I> + Resource<U, J> + Resource<V, K>
    requires
        forall|a0: &mut C, a1: &T, a2: &U, a3: &V, a4: &A, a5: &B, a6: &D, o: Out|
            #[trigger] call_ensures(step.f, (a0, a1, a2, a3, a4, a5, a6), o)
                ==> promise((*a0, *a1, *a2, *a3, *a4, *a5, *a6), (*final(a0),), o),
    ensures
        (forall|a0: &mut C|
            *a0 == ctx
                ==> #[trigger] call_requires(
                    step.f,
                    (
                        a0,
                        &world.held::<T, I>(),
                        &world.held::<U, J>(),
                        &world.held::<V, K>(),
                        inputs.0,
                        inputs.1,
                        inputs.2,
                    ),
                )) ==> CtxMergeStepCall::<R, C, (&A, &B, &D), Out>::call_pre(&step, ctx, world, inputs),
        CtxMergeStepCall::<R, C, (&A, &B, &D), Out>::call_post(
            &step,
            ctx,
            world,
            inputs,
            after,
            ctx_after,
            world_after,
            out,
        )
            ==> {
            &&& after == step
            &&& world_after == world
            &&& promise(
                (
                    ctx,
                    world.held::<T, I>(),
                    world.held::<U, J>(),
                    world.held::<V, K>(),
                    *inputs.0,
                    *inputs.1,
                    *inputs.2,
                ),
                (ctx_after,),
                out,
            )
        },
{
    if CtxMergeStepCall::<R, C, (&A, &B, &D), Out>::call_post(
        &step,
        ctx,
        world,
        inputs,
        after,
        ctx_after,
        world_after,
        out,
    ) {
        lemma_effect_mpppppp(
            step.f,
            ctx,
            &world.held::<T, I>(),
            &world.held::<U, J>(),
            &world.held::<V, K>(),
            inputs.0,
            inputs.1,
            inputs.2,
            ctx_after,
            out,
        );
    }
}

/// What a function of three resources promises, its step promises of what the world holds.
pub proof fn lemma_ctx_merge3_res_res_resmut<
    R,
    T,
    I,
    U,
    J,
    V,
    K,
    C,
    A,
    B,
    D,
    Out,
    F: FnMut(&mut C, &T, &U, &mut V, &A, &B, &D) -> Out,
>(
    step: CtxMergeStep<F, (Res<T, I>, Res<U, J>, ResMut<V, K>)>,
    promise: spec_fn((C, T, U, V, A, B, D), (C, V), Out) -> bool,
    ctx: C,
    world: World<R>,
    inputs: (&A, &B, &D),
    after: CtxMergeStep<F, (Res<T, I>, Res<U, J>, ResMut<V, K>)>,
    ctx_after: C,
    world_after: World<R>,
    out: Out,
) where R: Apart3<T, I, U, J, V, K>
    requires
        forall|a0: &mut C, a1: &T, a2: &U, a3: &mut V, a4: &A, a5: &B, a6: &D, o: Out|
            #[trigger] call_ensures(step.f, (a0, a1, a2, a3, a4, a5, a6), o)
                ==> promise((*a0, *a1, *a2, *a3, *a4, *a5, *a6), (*final(a0), *final(a3)), o),
    ensures
        (forall|a0: &mut C, a3: &mut V|
            *a0 == ctx && *a3 == world.held::<V, K>()
                ==> #[trigger] call_requires(
                    step.f,
                    (
                        a0,
                        &world.held::<T, I>(),
                        &world.held::<U, J>(),
                        a3,
                        inputs.0,
                        inputs.1,
                        inputs.2,
                    ),
                )) ==> CtxMergeStepCall::<R, C, (&A, &B, &D), Out>::call_pre(&step, ctx, world, inputs),
        CtxMergeStepCall::<R, C, (&A, &B, &D), Out>::call_post(
            &step,
            ctx,
            world,
            inputs,
            after,
            ctx_after,
            world_after,
            out,
        )
            ==> {
            &&& after == step
            &&& exists|held: V|
                #[trigger] promise(
                    (
                        ctx,
                        world.held::<T, I>(),
                        world.held::<U, J>(),
                        world.held::<V, K>(),
                        *inputs.0,
                        *inputs.1,
                        *inputs.2,
                    ),
                    (ctx_after, held),
                    out,
                )
                    && world_after == world.holding::<V, K>(held)
        },
{
    if CtxMergeStepCall::<R, C, (&A, &B, &D), Out>::call_post(
        &step,
        ctx,
        world,
        inputs,
        after,
        ctx_after,
        world_after,
        out,
    ) {
        let held = choose|held: V|
            #[trigger] effect_mppmppp(
                step.f,
                ctx,
                &world.held::<T, I>(),
                &world.held::<U, J>(),
                world.held::<V, K>(),
                inputs.0,
                inputs.1,
                inputs.2,
                ctx_after,
                held,
                out,
            )
                && world_after == world.holding::<V, K>(held);
        lemma_effect_mppmppp(
            step.f,
            ctx,
            &world.held::<T, I>(),
            &world.held::<U, J>(),
            world.held::<V, K>(),
            inputs.0,
            inputs.1,
            inputs.2,
            ctx_after,
            held,
            out,
        );
        assert(promise(
            (
                ctx,
                world.held::<T, I>(),
                world.held::<U, J>(),
                world.held::<V, K>(),
                *inputs.0,
                *inputs.1,
                *inputs.2,
            ),
            (ctx_after, held),
            out,
        ));
    }
}

/// What a function of three resources promises, its step promises of what the world holds.
pub proof fn lemma_ctx_merge3_res_resmut_res<
    R,
    T,
    I,
    U,
    J,
    V,
    K,
    C,
    A,
    B,
    D,
    Out,
    F: FnMut(&mut C, &T, &mut U, &V, &A, &B, &D) -> Out,
>(
    step: CtxMergeStep<F, (Res<T, I>, ResMut<U, J>, Res<V, K>)>,
    promise: spec_fn((C, T, U, V, A, B, D), (C, U), Out) -> bool,
    ctx: C,
    world: World<R>,
    inputs: (&A, &B, &D),
    after: CtxMergeStep<F, (Res<T, I>, ResMut<U, J>, Res<V, K>)>,
    ctx_after: C,
    world_after: World<R>,
    out: Out,
) where R: Apart3<T, I, V, K, U, J>
    requires
        forall|a0: &mut C, a1: &T, a2: &mut U, a3: &V, a4: &A, a5: &B, a6: &D, o: Out|
            #[trigger] call_ensures(step.f, (a0, a1, a2, a3, a4, a5, a6), o)
                ==> promise((*a0, *a1, *a2, *a3, *a4, *a5, *a6), (*final(a0), *final(a2)), o),
    ensures
        (forall|a0: &mut C, a2: &mut U|
            *a0 == ctx && *a2 == world.held::<U, J>()
                ==> #[trigger] call_requires(
                    step.f,
                    (
                        a0,
                        &world.held::<T, I>(),
                        a2,
                        &world.held::<V, K>(),
                        inputs.0,
                        inputs.1,
                        inputs.2,
                    ),
                )) ==> CtxMergeStepCall::<R, C, (&A, &B, &D), Out>::call_pre(&step, ctx, world, inputs),
        CtxMergeStepCall::<R, C, (&A, &B, &D), Out>::call_post(
            &step,
            ctx,
            world,
            inputs,
            after,
            ctx_after,
            world_after,
            out,
        )
            ==> {
            &&& after == step
            &&& exists|held: U|
                #[trigger] promise(
                    (
                        ctx,
                        world.held::<T, I>(),
                        world.held::<U, J>(),
                        world.held::<V, K>(),
                        *inputs.0,
                        *inputs.1,
                        *inputs.2,
                    ),
                    (ctx_after, held),
                    out,
                )
                    && world_after == world.holding::<U, J>(held)
        },
{
    if CtxMergeStepCall::<R, C, (&A, &B, &D), Out>::call_post(
        &step,
        ctx,
        world,
        inputs,
        after,
        ctx_after,
        world_after,
        out,
    ) {
        let held = choose|held: U|
            #[trigger] effect_mpmpppp(
                step.f,
                ctx,
                &world.held::<T, I>(),
                world.held::<U, J>(),
                &world.held::<V, K>(),
                inputs.0,
                inputs.1,
                inputs.2,
                ctx_after,
                held,
                out,
            )
                && world_after == world.holding::<U, J>(held);
        lemma_effect_mpmpppp(
            step.f,
            ctx,
            &world.held::<T, I>(),
            world.held::<U, J>(),
            &world.held::<V, K>(),
            inputs.0,
            inputs.1,
            inputs.2,
            ctx_after,
            held,
            out,
        );
        assert(promise(
            (
                ctx,
                world.held::<T, I>(),
                world.held::<U, J>(),
                world.held::<V, K>(),
                *inputs.0,
                *inputs.1,
                *inputs.2,
            ),
            (ctx_after, held),
            out,
        ));
    }
}

/// What a function of three resources promises, its step promises of what the world holds.
pub proof fn lemma_ctx_merge3_res_resmut_resmut<
    R,
    T,
    I,
    U,
    J,
    V,
    K,
    C,
    A,
    B,
    D,
    Out,
    F: FnMut(&mut C, &T, &mut U, &mut V, &A, &B, &D) -> Out,
>(
    step: CtxMergeStep<F, (Res<T, I>, ResMut<U, J>, ResMut<V, K>)>,
    promise: spec_fn((C, T, U, V, A, B, D), (C, U, V), Out) -> bool,
    ctx: C,
    world: World<R>,
    inputs: (&A, &B, &D),
    after: CtxMergeStep<F, (Res<T, I>, ResMut<U, J>, ResMut<V, K>)>,
    ctx_after: C,
    world_after: World<R>,
    out: Out,
) where R: Apart3<T, I, U, J, V, K>
    requires
        forall|a0: &mut C, a1: &T, a2: &mut U, a3: &mut V, a4: &A, a5: &B, a6: &D, o: Out|
            #[trigger] call_ensures(step.f, (a0, a1, a2, a3, a4, a5, a6), o)
                ==> promise(
                    (*a0, *a1, *a2, *a3, *a4, *a5, *a6),
                    (*final(a0), *final(a2), *final(a3)),
                    o,
                ),
    ensures
        (forall|a0: &mut C, a2: &mut U, a3: &mut V|
            *a0 == ctx && *a2 == world.held::<U, J>() && *a3 == world.held::<V, K>()
                ==> #[trigger] call_requires(
                    step.f,
                    (a0, &world.held::<T, I>(), a2, a3, inputs.0, inputs.1, inputs.2),
                )) ==> CtxMergeStepCall::<R, C, (&A, &B, &D), Out>::call_pre(&step, ctx, world, inputs),
        CtxMergeStepCall::<R, C, (&A, &B, &D), Out>::call_post(
            &step,
            ctx,
            world,
            inputs,
            after,
            ctx_after,
            world_after,
            out,
        )
            ==> {
            &&& after == step
            &&& exists|held: U, other: V|
                #[trigger] promise(
                    (
                        ctx,
                        world.held::<T, I>(),
                        world.held::<U, J>(),
                        world.held::<V, K>(),
                        *inputs.0,
                        *inputs.1,
                        *inputs.2,
                    ),
                    (ctx_after, held, other),
                    out,
                )
                    && world_after == world.holding::<U, J>(held).holding::<V, K>(other)
        },
{
    if CtxMergeStepCall::<R, C, (&A, &B, &D), Out>::call_post(
        &step,
        ctx,
        world,
        inputs,
        after,
        ctx_after,
        world_after,
        out,
    ) {
        let (held, other) = choose|held: U, other: V|
            #[trigger] effect_mpmmppp(
                step.f,
                ctx,
                &world.held::<T, I>(),
                world.held::<U, J>(),
                world.held::<V, K>(),
                inputs.0,
                inputs.1,
                inputs.2,
                ctx_after,
                held,
                other,
                out,
            )
                && world_after == world.holding::<U, J>(held).holding::<V, K>(other);
        lemma_effect_mpmmppp(
            step.f,
            ctx,
            &world.held::<T, I>(),
            world.held::<U, J>(),
            world.held::<V, K>(),
            inputs.0,
            inputs.1,
            inputs.2,
            ctx_after,
            held,
            other,
            out,
        );
        assert(promise(
            (
                ctx,
                world.held::<T, I>(),
                world.held::<U, J>(),
                world.held::<V, K>(),
                *inputs.0,
                *inputs.1,
                *inputs.2,
            ),
            (ctx_after, held, other),
            out,
        ));
    }
}

/// What a function of three resources promises, its step promises of what the world holds.
pub proof fn lemma_ctx_merge3_resmut_res_res<
    R,
    T,
    I,
    U,
    J,
    V,
    K,
    C,
    A,
    B,
    D,
    Out,
    F: FnMut(&mut C, &mut T, &U, &V, &A, &B, &D) -> Out,
>(
    step: CtxMergeStep<F, (ResMut<T, I>, Res<U, J>, Res<V, K>)>,
    promise: spec_fn((C, T, U, V, A, B, D), (C, T), Out) -> bool,
    ctx: C,
    world: World<R>,
    inputs: (&A, &B, &D),
    after: CtxMergeStep<F, (ResMut<T, I>, Res<U, J>, Res<V, K>)>,
    ctx_after: C,
    world_after: World<R>,
    out: Out,
) where R: Apart3<U, J, V, K, T, I>
    requires
        forall|a0: &mut C, a1: &mut T, a2: &U, a3: &V, a4: &A, a5: &B, a6: &D, o: Out|
            #[trigger] call_ensures(step.f, (a0, a1, a2, a3, a4, a5, a6), o)
                ==> promise((*a0, *a1, *a2, *a3, *a4, *a5, *a6), (*final(a0), *final(a1)), o),
    ensures
        (forall|a0: &mut C, a1: &mut T|
            *a0 == ctx && *a1 == world.held::<T, I>()
                ==> #[trigger] call_requires(
                    step.f,
                    (
                        a0,
                        a1,
                        &world.held::<U, J>(),
                        &world.held::<V, K>(),
                        inputs.0,
                        inputs.1,
                        inputs.2,
                    ),
                )) ==> CtxMergeStepCall::<R, C, (&A, &B, &D), Out>::call_pre(&step, ctx, world, inputs),
        CtxMergeStepCall::<R, C, (&A, &B, &D), Out>::call_post(
            &step,
            ctx,
            world,
            inputs,
            after,
            ctx_after,
            world_after,
            out,
        )
            ==> {
            &&& after == step
            &&& exists|held: T|
                #[trigger] promise(
                    (
                        ctx,
                        world.held::<T, I>(),
                        world.held::<U, J>(),
                        world.held::<V, K>(),
                        *inputs.0,
                        *inputs.1,
                        *inputs.2,
                    ),
                    (ctx_after, held),
                    out,
                )
                    && world_after == world.holding::<T, I>(held)
        },
{
    if CtxMergeStepCall::<R, C, (&A, &B, &D), Out>::call_post(
        &step,
        ctx,
        world,
        inputs,
        after,
        ctx_after,
        world_after,
        out,
    ) {
        let held = choose|held: T|
            #[trigger] effect_mmppppp(
                step.f,
                ctx,
                world.held::<T, I>(),
                &world.held::<U, J>(),
                &world.held::<V, K>(),
                inputs.0,
                inputs.1,
                inputs.2,
                ctx_after,
                held,
                out,
            )
                && world_after == world.holding::<T, I>(held);
        lemma_effect_mmppppp(
            step.f,
            ctx,
            world.held::<T, I>(),
            &world.held::<U, J>(),
            &world.held::<V, K>(),
            inputs.0,
            inputs.1,
            inputs.2,
            ctx_after,
            held,
            out,
        );
        assert(promise(
            (
                ctx,
                world.held::<T, I>(),
                world.held::<U, J>(),
                world.held::<V, K>(),
                *inputs.0,
                *inputs.1,
                *inputs.2,
            ),
            (ctx_after, held),
            out,
        ));
    }
}

/// What a function of three resources promises, its step promises of what the world holds.
pub proof fn lemma_ctx_merge3_resmut_res_resmut<
    R,
    T,
    I,
    U,
    J,
    V,
    K,
    C,
    A,
    B,
    D,
    Out,
    F: FnMut(&mut C, &mut T, &U, &mut V, &A, &B, &D) -> Out,
>(
    step: CtxMergeStep<F, (ResMut<T, I>, Res<U, J>, ResMut<V, K>)>,
    promise: spec_fn((C, T, U, V, A, B, D), (C, T, V), Out) -> bool,
    ctx: C,
    world: World<R>,
    inputs: (&A, &B, &D),
    after: CtxMergeStep<F, (ResMut<T, I>, Res<U, J>, ResMut<V, K>)>,
    ctx_after: C,
    world_after: World<R>,
    out: Out,
) where R: Apart3<U, J, T, I, V, K>
    requires
        forall|a0: &mut C, a1: &mut T, a2: &U, a3: &mut V, a4: &A, a5: &B, a6: &D, o: Out|
            #[trigger] call_ensures(step.f, (a0, a1, a2, a3, a4, a5, a6), o)
                ==> promise(
                    (*a0, *a1, *a2, *a3, *a4, *a5, *a6),
                    (*final(a0), *final(a1), *final(a3)),
                    o,
                ),
    ensures
        (forall|a0: &mut C, a1: &mut T, a3: &mut V|
            *a0 == ctx && *a1 == world.held::<T, I>() && *a3 == world.held::<V, K>()
                ==> #[trigger] call_requires(
                    step.f,
                    (a0, a1, &world.held::<U, J>(), a3, inputs.0, inputs.1, inputs.2),
                )) ==> CtxMergeStepCall::<R, C, (&A, &B, &D), Out>::call_pre(&step, ctx, world, inputs),
        CtxMergeStepCall::<R, C, (&A, &B, &D), Out>::call_post(
            &step,
            ctx,
            world,
            inputs,
            after,
            ctx_after,
            world_after,
            out,
        )
            ==> {
            &&& after == step
            &&& exists|held: T, other: V|
                #[trigger] promise(
                    (
                        ctx,
                        world.held::<T, I>(),
                        world.held::<U, J>(),
                        world.held::<V, K>(),
                        *inputs.0,
                        *inputs.1,
                        *inputs.2,
                    ),
                    (ctx_after, held, other),
                    out,
                )
                    && world_after == world.holding::<T, I>(held).holding::<V, K>(other)
        },
{
    if CtxMergeStepCall::<R, C, (&A, &B, &D), Out>::call_post(
        &step,
        ctx,
        world,
        inputs,
        after,
        ctx_after,
        world_after,
        out,
    ) {
        let (held, other) = choose|held: T, other: V|
            #[trigger] effect_mmpmppp(
                step.f,
                ctx,
                world.held::<T, I>(),
                &world.held::<U, J>(),
                world.held::<V, K>(),
                inputs.0,
                inputs.1,
                inputs.2,
                ctx_after,
                held,
                other,
                out,
            )
                && world_after == world.holding::<T, I>(held).holding::<V, K>(other);
        lemma_effect_mmpmppp(
            step.f,
            ctx,
            world.held::<T, I>(),
            &world.held::<U, J>(),
            world.held::<V, K>(),
            inputs.0,
            inputs.1,
            inputs.2,
            ctx_after,
            held,
            other,
            out,
        );
        assert(promise(
            (
                ctx,
                world.held::<T, I>(),
                world.held::<U, J>(),
                world.held::<V, K>(),
                *inputs.0,
                *inputs.1,
                *inputs.2,
            ),
            (ctx_after, held, other),
            out,
        ));
    }
}

/// What a function of three resources promises, its step promises of what the world holds.
pub proof fn lemma_ctx_merge3_resmut_resmut_res<
    R,
    T,
    I,
    U,
    J,
    V,
    K,
    C,
    A,
    B,
    D,
    Out,
    F: FnMut(&mut C, &mut T, &mut U, &V, &A, &B, &D) -> Out,
>(
    step: CtxMergeStep<F, (ResMut<T, I>, ResMut<U, J>, Res<V, K>)>,
    promise: spec_fn((C, T, U, V, A, B, D), (C, T, U), Out) -> bool,
    ctx: C,
    world: World<R>,
    inputs: (&A, &B, &D),
    after: CtxMergeStep<F, (ResMut<T, I>, ResMut<U, J>, Res<V, K>)>,
    ctx_after: C,
    world_after: World<R>,
    out: Out,
) where R: Apart3<V, K, T, I, U, J>
    requires
        forall|a0: &mut C, a1: &mut T, a2: &mut U, a3: &V, a4: &A, a5: &B, a6: &D, o: Out|
            #[trigger] call_ensures(step.f, (a0, a1, a2, a3, a4, a5, a6), o)
                ==> promise(
                    (*a0, *a1, *a2, *a3, *a4, *a5, *a6),
                    (*final(a0), *final(a1), *final(a2)),
                    o,
                ),
    ensures
        (forall|a0: &mut C, a1: &mut T, a2: &mut U|
            *a0 == ctx && *a1 == world.held::<T, I>() && *a2 == world.held::<U, J>()
                ==> #[trigger] call_requires(
                    step.f,
                    (a0, a1, a2, &world.held::<V, K>(), inputs.0, inputs.1, inputs.2),
                )) ==> CtxMergeStepCall::<R, C, (&A, &B, &D), Out>::call_pre(&step, ctx, world, inputs),
        CtxMergeStepCall::<R, C, (&A, &B, &D), Out>::call_post(
            &step,
            ctx,
            world,
            inputs,
            after,
            ctx_after,
            world_after,
            out,
        )
            ==> {
            &&& after == step
            &&& exists|held: T, other: U|
                #[trigger] promise(
                    (
                        ctx,
                        world.held::<T, I>(),
                        world.held::<U, J>(),
                        world.held::<V, K>(),
                        *inputs.0,
                        *inputs.1,
                        *inputs.2,
                    ),
                    (ctx_after, held, other),
                    out,
                )
                    && world_after == world.holding::<T, I>(held).holding::<U, J>(other)
        },
{
    if CtxMergeStepCall::<R, C, (&A, &B, &D), Out>::call_post(
        &step,
        ctx,
        world,
        inputs,
        after,
        ctx_after,
        world_after,
        out,
    ) {
        let (held, other) = choose|held: T, other: U|
            #[trigger] effect_mmmpppp(
                step.f,
                ctx,
                world.held::<T, I>(),
                world.held::<U, J>(),
                &world.held::<V, K>(),
                inputs.0,
                inputs.1,
                inputs.2,
                ctx_after,
                held,
                other,
                out,
            )
                && world_after == world.holding::<T, I>(held).holding::<U, J>(other);
        lemma_effect_mmmpppp(
            step.f,
            ctx,
            world.held::<T, I>(),
            world.held::<U, J>(),
            &world.held::<V, K>(),
            inputs.0,
            inputs.1,
            inputs.2,
            ctx_after,
            held,
            other,
            out,
        );
        assert(promise(
            (
                ctx,
                world.held::<T, I>(),
                world.held::<U, J>(),
                world.held::<V, K>(),
                *inputs.0,
                *inputs.1,
                *inputs.2,
            ),
            (ctx_after, held, other),
            out,
        ));
    }
}

/// What a function of three resources promises, its step promises of what the world holds.
pub proof fn lemma_ctx_merge3_resmut_resmut_resmut<
    R,
    T,
    I,
    U,
    J,
    V,
    K,
    C,
    A,
    B,
    D,
    Out,
    F: FnMut(&mut C, &mut T, &mut U, &mut V, &A, &B, &D) -> Out,
>(
    step: CtxMergeStep<F, (ResMut<T, I>, ResMut<U, J>, ResMut<V, K>)>,
    promise: spec_fn((C, T, U, V, A, B, D), (C, T, U, V), Out) -> bool,
    ctx: C,
    world: World<R>,
    inputs: (&A, &B, &D),
    after: CtxMergeStep<F, (ResMut<T, I>, ResMut<U, J>, ResMut<V, K>)>,
    ctx_after: C,
    world_after: World<R>,
    out: Out,
) where R: Apart3<T, I, U, J, V, K>
    requires
        forall|a0: &mut C, a1: &mut T, a2: &mut U, a3: &mut V, a4: &A, a5: &B, a6: &D, o: Out|
            #[trigger] call_ensures(step.f, (a0, a1, a2, a3, a4, a5, a6), o)
                ==> promise(
                    (*a0, *a1, *a2, *a3, *a4, *a5, *a6),
                    (*final(a0), *final(a1), *final(a2), *final(a3)),
                    o,
                ),
    ensures
        (forall|a0: &mut C, a1: &mut T, a2: &mut U, a3: &mut V|
            *a0 == ctx
                && *a1 == world.held::<T, I>()
                && *a2 == world.held::<U, J>()
                && *a3 == world.held::<V, K>()
                ==> #[trigger] call_requires(
                    step.f,
                    (a0, a1, a2, a3, inputs.0, inputs.1, inputs.2),
                )) ==> CtxMergeStepCall::<R, C, (&A, &B, &D), Out>::call_pre(&step, ctx, world, inputs),
        CtxMergeStepCall::<R, C, (&A, &B, &D), Out>::call_post(
            &step,
            ctx,
            world,
            inputs,
            after,
            ctx_after,
            world_after,
            out,
        )
            ==> {
            &&& after == step
            &&& exists|held: T, other: U, last: V|
                #[trigger] promise(
                    (
                        ctx,
                        world.held::<T, I>(),
                        world.held::<U, J>(),
                        world.held::<V, K>(),
                        *inputs.0,
                        *inputs.1,
                        *inputs.2,
                    ),
                    (ctx_after, held, other, last),
                    out,
                )
                    && world_after == world.holding::<T, I>(held).holding::<U, J>(other).holding::<V, K>(last)
        },
{
    if CtxMergeStepCall::<R, C, (&A, &B, &D), Out>::call_post(
        &step,
        ctx,
        world,
        inputs,
        after,
        ctx_after,
        world_after,
        out,
    ) {
        let (held, other, last) = choose|held: T, other: U, last: V|
            #[trigger] effect_mmmmppp(
                step.f,
                ctx,
                world.held::<T, I>(),
                world.held::<U, J>(),
                world.held::<V, K>(),
                inputs.0,
                inputs.1,
                inputs.2,
                ctx_after,
                held,
                other,
                last,
                out,
            )
                && world_after == world.holding::<T, I>(held).holding::<U, J>(other).holding::<V, K>(last);
        lemma_effect_mmmmppp(
            step.f,
            ctx,
            world.held::<T, I>(),
            world.held::<U, J>(),
            world.held::<V, K>(),
            inputs.0,
            inputs.1,
            inputs.2,
            ctx_after,
            held,
            other,
            last,
            out,
        );
        assert(promise(
            (
                ctx,
                world.held::<T, I>(),
                world.held::<U, J>(),
                world.held::<V, K>(),
                *inputs.0,
                *inputs.1,
                *inputs.2,
            ),
            (ctx_after, held, other, last),
            out,
        ));
    }
}

/// What a function of its input alone promises, its step promises of what the world holds.
pub proof fn lemma_ctx_merge4_unit<R, C, A, B, D, E, Out, F: FnMut(&mut C, &A, &B, &D, &E) -> Out>(
    step: CtxMergeStep<F, ()>,
    promise: spec_fn((C, A, B, D, E), (C,), Out) -> bool,
    ctx: C,
    world: World<R>,
    inputs: (&A, &B, &D, &E),
    after: CtxMergeStep<F, ()>,
    ctx_after: C,
    world_after: World<R>,
    out: Out,
)
    requires
        forall|a0: &mut C, a1: &A, a2: &B, a3: &D, a4: &E, o: Out|
            #[trigger] call_ensures(step.f, (a0, a1, a2, a3, a4), o)
                ==> promise((*a0, *a1, *a2, *a3, *a4), (*final(a0),), o),
    ensures
        (forall|a0: &mut C|
            *a0 == ctx
                ==> #[trigger] call_requires(
                    step.f,
                    (a0, inputs.0, inputs.1, inputs.2, inputs.3),
                )) ==> CtxMergeStepCall::<R, C, (&A, &B, &D, &E), Out>::call_pre(&step, ctx, world, inputs),
        CtxMergeStepCall::<R, C, (&A, &B, &D, &E), Out>::call_post(
            &step,
            ctx,
            world,
            inputs,
            after,
            ctx_after,
            world_after,
            out,
        )
            ==> {
            &&& after == step
            &&& world_after == world
            &&& promise((ctx, *inputs.0, *inputs.1, *inputs.2, *inputs.3), (ctx_after,), out)
        },
{
    if CtxMergeStepCall::<R, C, (&A, &B, &D, &E), Out>::call_post(
        &step,
        ctx,
        world,
        inputs,
        after,
        ctx_after,
        world_after,
        out,
    ) {
        lemma_effect_mpppp(step.f, ctx, inputs.0, inputs.1, inputs.2, inputs.3, ctx_after, out);
    }
}

/// What a function of one resource promises, its step promises of what the world holds.
pub proof fn lemma_ctx_merge4_res<
    R,
    T,
    I,
    C,
    A,
    B,
    D,
    E,
    Out,
    F: FnMut(&mut C, &T, &A, &B, &D, &E) -> Out,
>(
    step: CtxMergeStep<F, Res<T, I>>,
    promise: spec_fn((C, T, A, B, D, E), (C,), Out) -> bool,
    ctx: C,
    world: World<R>,
    inputs: (&A, &B, &D, &E),
    after: CtxMergeStep<F, Res<T, I>>,
    ctx_after: C,
    world_after: World<R>,
    out: Out,
) where R: Resource<T, I>
    requires
        forall|a0: &mut C, a1: &T, a2: &A, a3: &B, a4: &D, a5: &E, o: Out|
            #[trigger] call_ensures(step.f, (a0, a1, a2, a3, a4, a5), o)
                ==> promise((*a0, *a1, *a2, *a3, *a4, *a5), (*final(a0),), o),
    ensures
        (forall|a0: &mut C|
            *a0 == ctx
                ==> #[trigger] call_requires(
                    step.f,
                    (a0, &world.held::<T, I>(), inputs.0, inputs.1, inputs.2, inputs.3),
                )) ==> CtxMergeStepCall::<R, C, (&A, &B, &D, &E), Out>::call_pre(&step, ctx, world, inputs),
        CtxMergeStepCall::<R, C, (&A, &B, &D, &E), Out>::call_post(
            &step,
            ctx,
            world,
            inputs,
            after,
            ctx_after,
            world_after,
            out,
        )
            ==> {
            &&& after == step
            &&& world_after == world
            &&& promise(
                (ctx, world.held::<T, I>(), *inputs.0, *inputs.1, *inputs.2, *inputs.3),
                (ctx_after,),
                out,
            )
        },
{
    if CtxMergeStepCall::<R, C, (&A, &B, &D, &E), Out>::call_post(
        &step,
        ctx,
        world,
        inputs,
        after,
        ctx_after,
        world_after,
        out,
    ) {
        lemma_effect_mppppp(
            step.f,
            ctx,
            &world.held::<T, I>(),
            inputs.0,
            inputs.1,
            inputs.2,
            inputs.3,
            ctx_after,
            out,
        );
    }
}

/// What a function of one resource promises, its step promises of what the world holds.
pub proof fn lemma_ctx_merge4_resmut<
    R,
    T,
    I,
    C,
    A,
    B,
    D,
    E,
    Out,
    F: FnMut(&mut C, &mut T, &A, &B, &D, &E) -> Out,
>(
    step: CtxMergeStep<F, ResMut<T, I>>,
    promise: spec_fn((C, T, A, B, D, E), (C, T), Out) -> bool,
    ctx: C,
    world: World<R>,
    inputs: (&A, &B, &D, &E),
    after: CtxMergeStep<F, ResMut<T, I>>,
    ctx_after: C,
    world_after: World<R>,
    out: Out,
) where R: Resource<T, I>
    requires
        forall|a0: &mut C, a1: &mut T, a2: &A, a3: &B, a4: &D, a5: &E, o: Out|
            #[trigger] call_ensures(step.f, (a0, a1, a2, a3, a4, a5), o)
                ==> promise((*a0, *a1, *a2, *a3, *a4, *a5), (*final(a0), *final(a1)), o),
    ensures
        (forall|a0: &mut C, a1: &mut T|
            *a0 == ctx && *a1 == world.held::<T, I>()
                ==> #[trigger] call_requires(
                    step.f,
                    (a0, a1, inputs.0, inputs.1, inputs.2, inputs.3),
                )) ==> CtxMergeStepCall::<R, C, (&A, &B, &D, &E), Out>::call_pre(&step, ctx, world, inputs),
        CtxMergeStepCall::<R, C, (&A, &B, &D, &E), Out>::call_post(
            &step,
            ctx,
            world,
            inputs,
            after,
            ctx_after,
            world_after,
            out,
        )
            ==> {
            &&& after == step
            &&& exists|held: T|
                #[trigger] promise(
                    (ctx, world.held::<T, I>(), *inputs.0, *inputs.1, *inputs.2, *inputs.3),
                    (ctx_after, held),
                    out,
                )
                    && world_after == world.holding::<T, I>(held)
        },
{
    if CtxMergeStepCall::<R, C, (&A, &B, &D, &E), Out>::call_post(
        &step,
        ctx,
        world,
        inputs,
        after,
        ctx_after,
        world_after,
        out,
    ) {
        let held = choose|held: T|
            #[trigger] effect_mmpppp(
                step.f,
                ctx,
                world.held::<T, I>(),
                inputs.0,
                inputs.1,
                inputs.2,
                inputs.3,
                ctx_after,
                held,
                out,
            )
                && world_after == world.holding::<T, I>(held);
        lemma_effect_mmpppp(
            step.f,
            ctx,
            world.held::<T, I>(),
            inputs.0,
            inputs.1,
            inputs.2,
            inputs.3,
            ctx_after,
            held,
            out,
        );
        assert(promise(
            (ctx, world.held::<T, I>(), *inputs.0, *inputs.1, *inputs.2, *inputs.3),
            (ctx_after, held),
            out,
        ));
    }
}

/// What a function of two resources promises, its step promises of what the world holds.
pub proof fn lemma_ctx_merge4_res_res<
    R,
    T,
    I,
    U,
    J,
    C,
    A,
    B,
    D,
    E,
    Out,
    F: FnMut(&mut C, &T, &U, &A, &B, &D, &E) -> Out,
>(
    step: CtxMergeStep<F, (Res<T, I>, Res<U, J>)>,
    promise: spec_fn((C, T, U, A, B, D, E), (C,), Out) -> bool,
    ctx: C,
    world: World<R>,
    inputs: (&A, &B, &D, &E),
    after: CtxMergeStep<F, (Res<T, I>, Res<U, J>)>,
    ctx_after: C,
    world_after: World<R>,
    out: Out,
) where R: Resource<T, I> + Resource<U, J>
    requires
        forall|a0: &mut C, a1: &T, a2: &U, a3: &A, a4: &B, a5: &D, a6: &E, o: Out|
            #[trigger] call_ensures(step.f, (a0, a1, a2, a3, a4, a5, a6), o)
                ==> promise((*a0, *a1, *a2, *a3, *a4, *a5, *a6), (*final(a0),), o),
    ensures
        (forall|a0: &mut C|
            *a0 == ctx
                ==> #[trigger] call_requires(
                    step.f,
                    (
                        a0,
                        &world.held::<T, I>(),
                        &world.held::<U, J>(),
                        inputs.0,
                        inputs.1,
                        inputs.2,
                        inputs.3,
                    ),
                )) ==> CtxMergeStepCall::<R, C, (&A, &B, &D, &E), Out>::call_pre(&step, ctx, world, inputs),
        CtxMergeStepCall::<R, C, (&A, &B, &D, &E), Out>::call_post(
            &step,
            ctx,
            world,
            inputs,
            after,
            ctx_after,
            world_after,
            out,
        )
            ==> {
            &&& after == step
            &&& world_after == world
            &&& promise(
                (
                    ctx,
                    world.held::<T, I>(),
                    world.held::<U, J>(),
                    *inputs.0,
                    *inputs.1,
                    *inputs.2,
                    *inputs.3,
                ),
                (ctx_after,),
                out,
            )
        },
{
    if CtxMergeStepCall::<R, C, (&A, &B, &D, &E), Out>::call_post(
        &step,
        ctx,
        world,
        inputs,
        after,
        ctx_after,
        world_after,
        out,
    ) {
        lemma_effect_mpppppp(
            step.f,
            ctx,
            &world.held::<T, I>(),
            &world.held::<U, J>(),
            inputs.0,
            inputs.1,
            inputs.2,
            inputs.3,
            ctx_after,
            out,
        );
    }
}

/// What a function of two resources promises, its step promises of what the world holds.
pub proof fn lemma_ctx_merge4_res_resmut<
    R,
    T,
    I,
    U,
    J,
    C,
    A,
    B,
    D,
    E,
    Out,
    F: FnMut(&mut C, &T, &mut U, &A, &B, &D, &E) -> Out,
>(
    step: CtxMergeStep<F, (Res<T, I>, ResMut<U, J>)>,
    promise: spec_fn((C, T, U, A, B, D, E), (C, U), Out) -> bool,
    ctx: C,
    world: World<R>,
    inputs: (&A, &B, &D, &E),
    after: CtxMergeStep<F, (Res<T, I>, ResMut<U, J>)>,
    ctx_after: C,
    world_after: World<R>,
    out: Out,
) where R: Apart<T, I, U, J>
    requires
        forall|a0: &mut C, a1: &T, a2: &mut U, a3: &A, a4: &B, a5: &D, a6: &E, o: Out|
            #[trigger] call_ensures(step.f, (a0, a1, a2, a3, a4, a5, a6), o)
                ==> promise((*a0, *a1, *a2, *a3, *a4, *a5, *a6), (*final(a0), *final(a2)), o),
    ensures
        (forall|a0: &mut C, a2: &mut U|
            *a0 == ctx && *a2 == world.held::<U, J>()
                ==> #[trigger] call_requires(
                    step.f,
                    (a0, &world.held::<T, I>(), a2, inputs.0, inputs.1, inputs.2, inputs.3),
                )) ==> CtxMergeStepCall::<R, C, (&A, &B, &D, &E), Out>::call_pre(&step, ctx, world, inputs),
        CtxMergeStepCall::<R, C, (&A, &B, &D, &E), Out>::call_post(
            &step,
            ctx,
            world,
            inputs,
            after,
            ctx_after,
            world_after,
            out,
        )
            ==> {
            &&& after == step
            &&& exists|held: U|
                #[trigger] promise(
                    (
                        ctx,
                        world.held::<T, I>(),
                        world.held::<U, J>(),
                        *inputs.0,
                        *inputs.1,
                        *inputs.2,
                        *inputs.3,
                    ),
                    (ctx_after, held),
                    out,
                )
                    && world_after == world.holding::<U, J>(held)
        },
{
    if CtxMergeStepCall::<R, C, (&A, &B, &D, &E), Out>::call_post(
        &step,
        ctx,
        world,
        inputs,
        after,
        ctx_after,
        world_after,
        out,
    ) {
        let held = choose|held: U|
            #[trigger] effect_mpmpppp(
                step.f,
                ctx,
                &world.held::<T, I>(),
                world.held::<U, J>(),
                inputs.0,
                inputs.1,
                inputs.2,
                inputs.3,
                ctx_after,
                held,
                out,
            )
                && world_after == world.holding::<U, J>(held);
        lemma_effect_mpmpppp(
            step.f,
            ctx,
            &world.held::<T, I>(),
            world.held::<U, J>(),
            inputs.0,
            inputs.1,
            inputs.2,
            inputs.3,
            ctx_after,
            held,
            out,
        );
        assert(promise(
            (
                ctx,
                world.held::<T, I>(),
                world.held::<U, J>(),
                *inputs.0,
                *inputs.1,
                *inputs.2,
                *inputs.3,
            ),
            (ctx_after, held),
            out,
        ));
    }
}

/// What a function of two resources promises, its step promises of what the world holds.
pub proof fn lemma_ctx_merge4_resmut_res<
    R,
    T,
    I,
    U,
    J,
    C,
    A,
    B,
    D,
    E,
    Out,
    F: FnMut(&mut C, &mut T, &U, &A, &B, &D, &E) -> Out,
>(
    step: CtxMergeStep<F, (ResMut<T, I>, Res<U, J>)>,
    promise: spec_fn((C, T, U, A, B, D, E), (C, T), Out) -> bool,
    ctx: C,
    world: World<R>,
    inputs: (&A, &B, &D, &E),
    after: CtxMergeStep<F, (ResMut<T, I>, Res<U, J>)>,
    ctx_after: C,
    world_after: World<R>,
    out: Out,
) where R: Apart<U, J, T, I>
    requires
        forall|a0: &mut C, a1: &mut T, a2: &U, a3: &A, a4: &B, a5: &D, a6: &E, o: Out|
            #[trigger] call_ensures(step.f, (a0, a1, a2, a3, a4, a5, a6), o)
                ==> promise((*a0, *a1, *a2, *a3, *a4, *a5, *a6), (*final(a0), *final(a1)), o),
    ensures
        (forall|a0: &mut C, a1: &mut T|
            *a0 == ctx && *a1 == world.held::<T, I>()
                ==> #[trigger] call_requires(
                    step.f,
                    (a0, a1, &world.held::<U, J>(), inputs.0, inputs.1, inputs.2, inputs.3),
                )) ==> CtxMergeStepCall::<R, C, (&A, &B, &D, &E), Out>::call_pre(&step, ctx, world, inputs),
        CtxMergeStepCall::<R, C, (&A, &B, &D, &E), Out>::call_post(
            &step,
            ctx,
            world,
            inputs,
            after,
            ctx_after,
            world_after,
            out,
        )
            ==> {
            &&& after == step
            &&& exists|held: T|
                #[trigger] promise(
                    (
                        ctx,
                        world.held::<T, I>(),
                        world.held::<U, J>(),
                        *inputs.0,
                        *inputs.1,
                        *inputs.2,
                        *inputs.3,
                    ),
                    (ctx_after, held),
                    out,
                )
                    && world_after == world.holding::<T, I>(held)
        },
{
    if CtxMergeStepCall::<R, C, (&A, &B, &D, &E), Out>::call_post(
        &step,
        ctx,
        world,
        inputs,
        after,
        ctx_after,
        world_after,
        out,
    ) {
        let held = choose|held: T|
            #[trigger] effect_mmppppp(
                step.f,
                ctx,
                world.held::<T, I>(),
                &world.held::<U, J>(),
                inputs.0,
                inputs.1,
                inputs.2,
                inputs.3,
                ctx_after,
                held,
                out,
            )
                && world_after == world.holding::<T, I>(held);
        lemma_effect_mmppppp(
            step.f,
            ctx,
            world.held::<T, I>(),
            &world.held::<U, J>(),
            inputs.0,
            inputs.1,
            inputs.2,
            inputs.3,
            ctx_after,
            held,
            out,
        );
        assert(promise(
            (
                ctx,
                world.held::<T, I>(),
                world.held::<U, J>(),
                *inputs.0,
                *inputs.1,
                *inputs.2,
                *inputs.3,
            ),
            (ctx_after, held),
            out,
        ));
    }
}

/// What a function of two resources promises, its step promises of what the world holds.
pub proof fn lemma_ctx_merge4_resmut_resmut<
    R,
    T,
    I,
    U,
    J,
    C,
    A,
    B,
    D,
    E,
    Out,
    F: FnMut(&mut C, &mut T, &mut U, &A, &B, &D, &E) -> Out,
>(
    step: CtxMergeStep<F, (ResMut<T, I>, ResMut<U, J>)>,
    promise: spec_fn((C, T, U, A, B, D, E), (C, T, U), Out) -> bool,
    ctx: C,
    world: World<R>,
    inputs: (&A, &B, &D, &E),
    after: CtxMergeStep<F, (ResMut<T, I>, ResMut<U, J>)>,
    ctx_after: C,
    world_after: World<R>,
    out: Out,
) where R: Apart<T, I, U, J>
    requires
        forall|a0: &mut C, a1: &mut T, a2: &mut U, a3: &A, a4: &B, a5: &D, a6: &E, o: Out|
            #[trigger] call_ensures(step.f, (a0, a1, a2, a3, a4, a5, a6), o)
                ==> promise(
                    (*a0, *a1, *a2, *a3, *a4, *a5, *a6),
                    (*final(a0), *final(a1), *final(a2)),
                    o,
                ),
    ensures
        (forall|a0: &mut C, a1: &mut T, a2: &mut U|
            *a0 == ctx && *a1 == world.held::<T, I>() && *a2 == world.held::<U, J>()
                ==> #[trigger] call_requires(
                    step.f,
                    (a0, a1, a2, inputs.0, inputs.1, inputs.2, inputs.3),
                )) ==> CtxMergeStepCall::<R, C, (&A, &B, &D, &E), Out>::call_pre(&step, ctx, world, inputs),
        CtxMergeStepCall::<R, C, (&A, &B, &D, &E), Out>::call_post(
            &step,
            ctx,
            world,
            inputs,
            after,
            ctx_after,
            world_after,
            out,
        )
            ==> {
            &&& after == step
            &&& exists|held: T, other: U|
                #[trigger] promise(
                    (
                        ctx,
                        world.held::<T, I>(),
                        world.held::<U, J>(),
                        *inputs.0,
                        *inputs.1,
                        *inputs.2,
                        *inputs.3,
                    ),
                    (ctx_after, held, other),
                    out,
                )
                    && world_after == world.holding::<T, I>(held).holding::<U, J>(other)
        },
{
    if CtxMergeStepCall::<R, C, (&A, &B, &D, &E), Out>::call_post(
        &step,
        ctx,
        world,
        inputs,
        after,
        ctx_after,
        world_after,
        out,
    ) {
        let (held, other) = choose|held: T, other: U|
            #[trigger] effect_mmmpppp(
                step.f,
                ctx,
                world.held::<T, I>(),
                world.held::<U, J>(),
                inputs.0,
                inputs.1,
                inputs.2,
                inputs.3,
                ctx_after,
                held,
                other,
                out,
            )
                && world_after == world.holding::<T, I>(held).holding::<U, J>(other);
        lemma_effect_mmmpppp(
            step.f,
            ctx,
            world.held::<T, I>(),
            world.held::<U, J>(),
            inputs.0,
            inputs.1,
            inputs.2,
            inputs.3,
            ctx_after,
            held,
            other,
            out,
        );
        assert(promise(
            (
                ctx,
                world.held::<T, I>(),
                world.held::<U, J>(),
                *inputs.0,
                *inputs.1,
                *inputs.2,
                *inputs.3,
            ),
            (ctx_after, held, other),
            out,
        ));
    }
}

/// What a function of three resources promises, its step promises of what the world holds.
pub proof fn lemma_ctx_merge4_res_res_res<
    R,
    T,
    I,
    U,
    J,
    V,
    K,
    C,
    A,
    B,
    D,
    E,
    Out,
    F: FnMut(&mut C, &T, &U, &V, &A, &B, &D, &E) -> Out,
>(
    step: CtxMergeStep<F, (Res<T, I>, Res<U, J>, Res<V, K>)>,
    promise: spec_fn((C, T, U, V, A, B, D, E), (C,), Out) -> bool,
    ctx: C,
    world: World<R>,
    inputs: (&A, &B, &D, &E),
    after: CtxMergeStep<F, (Res<T, I>, Res<U, J>, Res<V, K>)>,
    ctx_after: C,
    world_after: World<R>,
    out: Out,
) where R: Resource<T, I> + Resource<U, J> + Resource<V, K>
    requires
        forall|a0: &mut C, a1: &T, a2: &U, a3: &V, a4: &A, a5: &B, a6: &D, a7: &E, o: Out|
            #[trigger] call_ensures(step.f, (a0, a1, a2, a3, a4, a5, a6, a7), o)
                ==> promise((*a0, *a1, *a2, *a3, *a4, *a5, *a6, *a7), (*final(a0),), o),
    ensures
        (forall|a0: &mut C|
            *a0 == ctx
                ==> #[trigger] call_requires(
                    step.f,
                    (
                        a0,
                        &world.held::<T, I>(),
                        &world.held::<U, J>(),
                        &world.held::<V, K>(),
                        inputs.0,
                        inputs.1,
                        inputs.2,
                        inputs.3,
                    ),
                )) ==> CtxMergeStepCall::<R, C, (&A, &B, &D, &E), Out>::call_pre(&step, ctx, world, inputs),
        CtxMergeStepCall::<R, C, (&A, &B, &D, &E), Out>::call_post(
            &step,
            ctx,
            world,
            inputs,
            after,
            ctx_after,
            world_after,
            out,
        )
            ==> {
            &&& after == step
            &&& world_after == world
            &&& promise(
                (
                    ctx,
                    world.held::<T, I>(),
                    world.held::<U, J>(),
                    world.held::<V, K>(),
                    *inputs.0,
                    *inputs.1,
                    *inputs.2,
                    *inputs.3,
                ),
                (ctx_after,),
                out,
            )
        },
{
    if CtxMergeStepCall::<R, C, (&A, &B, &D, &E), Out>::call_post(
        &step,
        ctx,
        world,
        inputs,
        after,
        ctx_after,
        world_after,
        out,
    ) {
        lemma_effect_mppppppp(
            step.f,
            ctx,
            &world.held::<T, I>(),
            &world.held::<U, J>(),
            &world.held::<V, K>(),
            inputs.0,
            inputs.1,
            inputs.2,
            inputs.3,
            ctx_after,
            out,
        );
    }
}

/// What a function of three resources promises, its step promises of what the world holds.
pub proof fn lemma_ctx_merge4_res_res_resmut<
    R,
    T,
    I,
    U,
    J,
    V,
    K,
    C,
    A,
    B,
    D,
    E,
    Out,
    F: FnMut(&mut C, &T, &U, &mut V, &A, &B, &D, &E) -> Out,
>(
    step: CtxMergeStep<F, (Res<T, I>, Res<U, J>, ResMut<V, K>)>,
    promise: spec_fn((C, T, U, V, A, B, D, E), (C, V), Out) -> bool,
    ctx: C,
    world: World<R>,
    inputs: (&A, &B, &D, &E),
    after: CtxMergeStep<F, (Res<T, I>, Res<U, J>, ResMut<V, K>)>,
    ctx_after: C,
    world_after: World<R>,
    out: Out,
) where R: Apart3<T, I, U, J, V, K>
    requires
        forall|a0: &mut C, a1: &T, a2: &U, a3: &mut V, a4: &A, a5: &B, a6: &D, a7: &E, o: Out|
            #[trigger] call_ensures(step.f, (a0, a1, a2, a3, a4, a5, a6, a7), o)
                ==> promise((*a0, *a1, *a2, *a3, *a4, *a5, *a6, *a7), (*final(a0), *final(a3)), o),
    ensures
        (forall|a0: &mut C, a3: &mut V|
            *a0 == ctx && *a3 == world.held::<V, K>()
                ==> #[trigger] call_requires(
                    step.f,
                    (
                        a0,
                        &world.held::<T, I>(),
                        &world.held::<U, J>(),
                        a3,
                        inputs.0,
                        inputs.1,
                        inputs.2,
                        inputs.3,
                    ),
                )) ==> CtxMergeStepCall::<R, C, (&A, &B, &D, &E), Out>::call_pre(&step, ctx, world, inputs),
        CtxMergeStepCall::<R, C, (&A, &B, &D, &E), Out>::call_post(
            &step,
            ctx,
            world,
            inputs,
            after,
            ctx_after,
            world_after,
            out,
        )
            ==> {
            &&& after == step
            &&& exists|held: V|
                #[trigger] promise(
                    (
                        ctx,
                        world.held::<T, I>(),
                        world.held::<U, J>(),
                        world.held::<V, K>(),
                        *inputs.0,
                        *inputs.1,
                        *inputs.2,
                        *inputs.3,
                    ),
                    (ctx_after, held),
                    out,
                )
                    && world_after == world.holding::<V, K>(held)
        },
{
    if CtxMergeStepCall::<R, C, (&A, &B, &D, &E), Out>::call_post(
        &step,
        ctx,
        world,
        inputs,
        after,
        ctx_after,
        world_after,
        out,
    ) {
        let held = choose|held: V|
            #[trigger] effect_mppmpppp(
                step.f,
                ctx,
                &world.held::<T, I>(),
                &world.held::<U, J>(),
                world.held::<V, K>(),
                inputs.0,
                inputs.1,
                inputs.2,
                inputs.3,
                ctx_after,
                held,
                out,
            )
                && world_after == world.holding::<V, K>(held);
        lemma_effect_mppmpppp(
            step.f,
            ctx,
            &world.held::<T, I>(),
            &world.held::<U, J>(),
            world.held::<V, K>(),
            inputs.0,
            inputs.1,
            inputs.2,
            inputs.3,
            ctx_after,
            held,
            out,
        );
        assert(promise(
            (
                ctx,
                world.held::<T, I>(),
                world.held::<U, J>(),
                world.held::<V, K>(),
                *inputs.0,
                *inputs.1,
                *inputs.2,
                *inputs.3,
            ),
            (ctx_after, held),
            out,
        ));
    }
}

/// What a function of three resources promises, its step promises of what the world holds.
pub proof fn lemma_ctx_merge4_res_resmut_res<
    R,
    T,
    I,
    U,
    J,
    V,
    K,
    C,
    A,
    B,
    D,
    E,
    Out,
    F: FnMut(&mut C, &T, &mut U, &V, &A, &B, &D, &E) -> Out,
>(
    step: CtxMergeStep<F, (Res<T, I>, ResMut<U, J>, Res<V, K>)>,
    promise: spec_fn((C, T, U, V, A, B, D, E), (C, U), Out) -> bool,
    ctx: C,
    world: World<R>,
    inputs: (&A, &B, &D, &E),
    after: CtxMergeStep<F, (Res<T, I>, ResMut<U, J>, Res<V, K>)>,
    ctx_after: C,
    world_after: World<R>,
    out: Out,
) where R: Apart3<T, I, V, K, U, J>
    requires
        forall|a0: &mut C, a1: &T, a2: &mut U, a3: &V, a4: &A, a5: &B, a6: &D, a7: &E, o: Out|
            #[trigger] call_ensures(step.f, (a0, a1, a2, a3, a4, a5, a6, a7), o)
                ==> promise((*a0, *a1, *a2, *a3, *a4, *a5, *a6, *a7), (*final(a0), *final(a2)), o),
    ensures
        (forall|a0: &mut C, a2: &mut U|
            *a0 == ctx && *a2 == world.held::<U, J>()
                ==> #[trigger] call_requires(
                    step.f,
                    (
                        a0,
                        &world.held::<T, I>(),
                        a2,
                        &world.held::<V, K>(),
                        inputs.0,
                        inputs.1,
                        inputs.2,
                        inputs.3,
                    ),
                )) ==> CtxMergeStepCall::<R, C, (&A, &B, &D, &E), Out>::call_pre(&step, ctx, world, inputs),
        CtxMergeStepCall::<R, C, (&A, &B, &D, &E), Out>::call_post(
            &step,
            ctx,
            world,
            inputs,
            after,
            ctx_after,
            world_after,
            out,
        )
            ==> {
            &&& after == step
            &&& exists|held: U|
                #[trigger] promise(
                    (
                        ctx,
                        world.held::<T, I>(),
                        world.held::<U, J>(),
                        world.held::<V, K>(),
                        *inputs.0,
                        *inputs.1,
                        *inputs.2,
                        *inputs.3,
                    ),
                    (ctx_after, held),
                    out,
                )
                    && world_after == world.holding::<U, J>(held)
        },
{
    if CtxMergeStepCall::<R, C, (&A, &B, &D, &E), Out>::call_post(
        &step,
        ctx,
        world,
        inputs,
        after,
        ctx_after,
        world_after,
        out,
    ) {
        let held = choose|held: U|
            #[trigger] effect_mpmppppp(
                step.f,
                ctx,
                &world.held::<T, I>(),
                world.held::<U, J>(),
                &world.held::<V, K>(),
                inputs.0,
                inputs.1,
                inputs.2,
                inputs.3,
                ctx_after,
                held,
                out,
            )
                && world_after == world.holding::<U, J>(held);
        lemma_effect_mpmppppp(
            step.f,
            ctx,
            &world.held::<T, I>(),
            world.held::<U, J>(),
            &world.held::<V, K>(),
            inputs.0,
            inputs.1,
            inputs.2,
            inputs.3,
            ctx_after,
            held,
            out,
        );
        assert(promise(
            (
                ctx,
                world.held::<T, I>(),
                world.held::<U, J>(),
                world.held::<V, K>(),
                *inputs.0,
                *inputs.1,
                *inputs.2,
                *inputs.3,
            ),
            (ctx_after, held),
            out,
        ));
    }
}

/// What a function of three resources promises, its step promises of what the world holds.
pub proof fn lemma_ctx_merge4_res_resmut_resmut<
    R,
    T,
    I,
    U,
    J,
    V,
    K,
    C,
    A,
    B,
    D,
    E,
    Out,
    F: FnMut(&mut C, &T, &mut U, &mut V, &A, &B, &D, &E) -> Out,
>(
    step: CtxMergeStep<F, (Res<T, I>, ResMut<U, J>, ResMut<V, K>)>,
    promise: spec_fn((C, T, U, V, A, B, D, E), (C, U, V), Out) -> bool,
    ctx: C,
    world: World<R>,
    inputs: (&A, &B, &D, &E),
    after: CtxMergeStep<F, (Res<T, I>, ResMut<U, J>, ResMut<V, K>)>,
    ctx_after: C,
    world_after: World<R>,
    out: Out,
) where R: Apart3<T, I, U, J, V, K>
    requires
        forall|a0: &mut C, a1: &T, a2: &mut U, a3: &mut V, a4: &A, a5: &B, a6: &D, a7: &E, o: Out|
            #[trigger] call_ensures(step.f, (a0, a1, a2, a3, a4, a5, a6, a7), o)
                ==> promise(
                    (*a0, *a1, *a2, *a3, *a4, *a5, *a6, *a7),
                    (*final(a0), *final(a2), *final(a3)),
                    o,
                ),
    ensures
        (forall|a0: &mut C, a2: &mut U, a3: &mut V|
            *a0 == ctx && *a2 == world.held::<U, J>() && *a3 == world.held::<V, K>()
                ==> #[trigger] call_requires(
                    step.f,
                    (a0, &world.held::<T, I>(), a2, a3, inputs.0, inputs.1, inputs.2, inputs.3),
                )) ==> CtxMergeStepCall::<R, C, (&A, &B, &D, &E), Out>::call_pre(&step, ctx, world, inputs),
        CtxMergeStepCall::<R, C, (&A, &B, &D, &E), Out>::call_post(
            &step,
            ctx,
            world,
            inputs,
            after,
            ctx_after,
            world_after,
            out,
        )
            ==> {
            &&& after == step
            &&& exists|held: U, other: V|
                #[trigger] promise(
                    (
                        ctx,
                        world.held::<T, I>(),
                        world.held::<U, J>(),
                        world.held::<V, K>(),
                        *inputs.0,
                        *inputs.1,
                        *inputs.2,
                        *inputs.3,
                    ),
                    (ctx_after, held, other),
                    out,
                )
                    && world_after == world.holding::<U, J>(held).holding::<V, K>(other)
        },
{
    if CtxMergeStepCall::<R, C, (&A, &B, &D, &E), Out>::call_post(
        &step,
        ctx,
        world,
        inputs,
        after,
        ctx_after,
        world_after,
        out,
    ) {
        let (held, other) = choose|held: U, other: V|
            #[trigger] effect_mpmmpppp(
                step.f,
                ctx,
                &world.held::<T, I>(),
                world.held::<U, J>(),
                world.held::<V, K>(),
                inputs.0,
                inputs.1,
                inputs.2,
                inputs.3,
                ctx_after,
                held,
                other,
                out,
            )
                && world_after == world.holding::<U, J>(held).holding::<V, K>(other);
        lemma_effect_mpmmpppp(
            step.f,
            ctx,
            &world.held::<T, I>(),
            world.held::<U, J>(),
            world.held::<V, K>(),
            inputs.0,
            inputs.1,
            inputs.2,
            inputs.3,
            ctx_after,
            held,
            other,
            out,
        );
        assert(promise(
            (
                ctx,
                world.held::<T, I>(),
                world.held::<U, J>(),
                world.held::<V, K>(),
                *inputs.0,
                *inputs.1,
                *inputs.2,
                *inputs.3,
            ),
            (ctx_after, held, other),
            out,
        ));
    }
}

/// What a function of three resources promises, its step promises of what the world holds.
pub proof fn lemma_ctx_merge4_resmut_res_res<
    R,
    T,
    I,
    U,
    J,
    V,
    K,
    C,
    A,
    B,
    D,
    E,
    Out,
    F: FnMut(&mut C, &mut T, &U, &V, &A, &B, &D, &E) -> Out,
>(
    step: CtxMergeStep<F, (ResMut<T, I>, Res<U, J>, Res<V, K>)>,
    promise: spec_fn((C, T, U, V, A, B, D, E), (C, T), Out) -> bool,
    ctx: C,
    world: World<R>,
    inputs: (&A, &B, &D, &E),
    after: CtxMergeStep<F, (ResMut<T, I>, Res<U, J>, Res<V, K>)>,
    ctx_after: C,
    world_after: World<R>,
    out: Out,
) where R: Apart3<U, J, V, K, T, I>
    requires
        forall|a0: &mut C, a1: &mut T, a2: &U, a3: &V, a4: &A, a5: &B, a6: &D, a7: &E, o: Out|
            #[trigger] call_ensures(step.f, (a0, a1, a2, a3, a4, a5, a6, a7), o)
                ==> promise((*a0, *a1, *a2, *a3, *a4, *a5, *a6, *a7), (*final(a0), *final(a1)), o),
    ensures
        (forall|a0: &mut C, a1: &mut T|
            *a0 == ctx && *a1 == world.held::<T, I>()
                ==> #[trigger] call_requires(
                    step.f,
                    (
                        a0,
                        a1,
                        &world.held::<U, J>(),
                        &world.held::<V, K>(),
                        inputs.0,
                        inputs.1,
                        inputs.2,
                        inputs.3,
                    ),
                )) ==> CtxMergeStepCall::<R, C, (&A, &B, &D, &E), Out>::call_pre(&step, ctx, world, inputs),
        CtxMergeStepCall::<R, C, (&A, &B, &D, &E), Out>::call_post(
            &step,
            ctx,
            world,
            inputs,
            after,
            ctx_after,
            world_after,
            out,
        )
            ==> {
            &&& after == step
            &&& exists|held: T|
                #[trigger] promise(
                    (
                        ctx,
                        world.held::<T, I>(),
                        world.held::<U, J>(),
                        world.held::<V, K>(),
                        *inputs.0,
                        *inputs.1,
                        *inputs.2,
                        *inputs.3,
                    ),
                    (ctx_after, held),
                    out,
                )
                    && world_after == world.holding::<T, I>(held)
        },
{
    if CtxMergeStepCall::<R, C, (&A, &B, &D, &E), Out>::call_post(
        &step,
        ctx,
        world,
        inputs,
        after,
        ctx_after,
        world_after,
        out,
    ) {
        let held = choose|held: T|
            #[trigger] effect_mmpppppp(
                step.f,
                ctx,
                world.held::<T, I>(),
                &world.held::<U, J>(),
                &world.held::<V, K>(),
                inputs.0,
                inputs.1,
                inputs.2,
                inputs.3,
                ctx_after,
                held,
                out,
            )
                && world_after == world.holding::<T, I>(held);
        lemma_effect_mmpppppp(
            step.f,
            ctx,
            world.held::<T, I>(),
            &world.held::<U, J>(),
            &world.held::<V, K>(),
            inputs.0,
            inputs.1,
            inputs.2,
            inputs.3,
            ctx_after,
            held,
            out,
        );
        assert(promise(
            (
                ctx,
                world.held::<T, I>(),
                world.held::<U, J>(),
                world.held::<V, K>(),
                *inputs.0,
                *inputs.1,
                *inputs.2,
                *inputs.3,
            ),
            (ctx_after, held),
            out,
        ));
    }
}

/// What a function of three resources promises, its step promises of what the world holds.
pub proof fn lemma_ctx_merge4_resmut_res_resmut<
    R,
    T,
    I,
    U,
    J,
    V,
    K,
    C,
    A,
    B,
    D,
    E,
    Out,
    F: FnMut(&mut C, &mut T, &U, &mut V, &A, &B, &D, &E) -> Out,
>(
    step: CtxMergeStep<F, (ResMut<T, I>, Res<U, J>, ResMut<V, K>)>,
    promise: spec_fn((C, T, U, V, A, B, D, E), (C, T, V), Out) -> bool,
    ctx: C,
    world: World<R>,
    inputs: (&A, &B, &D, &E),
    after: CtxMergeStep<F, (ResMut<T, I>, Res<U, J>, ResMut<V, K>)>,
    ctx_after: C,
    world_after: World<R>,
    out: Out,
) where R: Apart3<U, J, T, I, V, K>
    requires
        forall|a0: &mut C, a1: &mut T, a2: &U, a3: &mut V, a4: &A, a5: &B, a6: &D, a7: &E, o: Out|
            #[trigger] call_ensures(step.f, (a0, a1, a2, a3, a4, a5, a6, a7), o)
                ==> promise(
                    (*a0, *a1, *a2, *a3, *a4, *a5, *a6, *a7),
                    (*final(a0), *final(a1), *final(a3)),
                    o,
                ),
    ensures
        (forall|a0: &mut C, a1: &mut T, a3: &mut V|
            *a0 == ctx && *a1 == world.held::<T, I>() && *a3 == world.held::<V, K>()
                ==> #[trigger] call_requires(
                    step.f,
                    (a0, a1, &world.held::<U, J>(), a3, inputs.0, inputs.1, inputs.2, inputs.3),
                )) ==> CtxMergeStepCall::<R, C, (&A, &B, &D, &E), Out>::call_pre(&step, ctx, world, inputs),
        CtxMergeStepCall::<R, C, (&A, &B, &D, &E), Out>::call_post(
            &step,
            ctx,
            world,
            inputs,
            after,
            ctx_after,
            world_after,
            out,
        )
            ==> {
            &&& after == step
            &&& exists|held: T, other: V|
                #[trigger] promise(
                    (
                        ctx,
                        world.held::<T, I>(),
                        world.held::<U, J>(),
                        world.held::<V, K>(),
                        *inputs.0,
                        *inputs.1,
                        *inputs.2,
                        *inputs.3,
                    ),
                    (ctx_after, held, other),
                    out,
                )
                    && world_after == world.holding::<T, I>(held).holding::<V, K>(other)
        },
{
    if CtxMergeStepCall::<R, C, (&A, &B, &D, &E), Out>::call_post(
        &step,
        ctx,
        world,
        inputs,
        after,
        ctx_after,
        world_after,
        out,
    ) {
        let (held, other) = choose|held: T, other: V|
            #[trigger] effect_mmpmpppp(
                step.f,
                ctx,
                world.held::<T, I>(),
                &world.held::<U, J>(),
                world.held::<V, K>(),
                inputs.0,
                inputs.1,
                inputs.2,
                inputs.3,
                ctx_after,
                held,
                other,
                out,
            )
                && world_after == world.holding::<T, I>(held).holding::<V, K>(other);
        lemma_effect_mmpmpppp(
            step.f,
            ctx,
            world.held::<T, I>(),
            &world.held::<U, J>(),
            world.held::<V, K>(),
            inputs.0,
            inputs.1,
            inputs.2,
            inputs.3,
            ctx_after,
            held,
            other,
            out,
        );
        assert(promise(
            (
                ctx,
                world.held::<T, I>(),
                world.held::<U, J>(),
                world.held::<V, K>(),
                *inputs.0,
                *inputs.1,
                *inputs.2,
                *inputs.3,
            ),
            (ctx_after, held, other),
            out,
        ));
    }
}

/// What a function of three resources promises, its step promises of what the world holds.
pub proof fn lemma_ctx_merge4_resmut_resmut_res<
    R,
    T,
    I,
    U,
    J,
    V,
    K,
    C,
    A,
    B,
    D,
    E,
    Out,
    F: FnMut(&mut C, &mut T, &mut U, &V, &A, &B, &D, &E) -> Out,
>(
    step: CtxMergeStep<F, (ResMut<T, I>, ResMut<U, J>, Res<V, K>)>,
    promise: spec_fn((C, T, U, V, A, B, D, E), (C, T, U), Out) -> bool,
    ctx: C,
    world: World<R>,
    inputs: (&A, &B, &D, &E),
    after: CtxMergeStep<F, (ResMut<T, I>, ResMut<U, J>, Res<V, K>)>,
    ctx_after: C,
    world_after: World<R>,
    out: Out,
) where R: Apart3<V, K, T, I, U, J>
    requires
        forall|a0: &mut C, a1: &mut T, a2: &mut U, a3: &V, a4: &A, a5: &B, a6: &D, a7: &E, o: Out|
            #[trigger] call_ensures(step.f, (a0, a1, a2, a3, a4, a5, a6, a7), o)
                ==> promise(
                    (*a0, *a1, *a2, *a3, *a4, *a5, *a6, *a7),
                    (*final(a0), *final(a1), *final(a2)),
                    o,
                ),
    ensures
        (forall|a0: &mut C, a1: &mut T, a2: &mut U|
            *a0 == ctx && *a1 == world.held::<T, I>() && *a2 == world.held::<U, J>()
                ==> #[trigger] call_requires(
                    step.f,
                    (a0, a1, a2, &world.held::<V, K>(), inputs.0, inputs.1, inputs.2, inputs.3),
                )) ==> CtxMergeStepCall::<R, C, (&A, &B, &D, &E), Out>::call_pre(&step, ctx, world, inputs),
        CtxMergeStepCall::<R, C, (&A, &B, &D, &E), Out>::call_post(
            &step,
            ctx,
            world,
            inputs,
            after,
            ctx_after,
            world_after,
            out,
        )
            ==> {
            &&& after == step
            &&& exists|held: T, other: U|
                #[trigger] promise(
                    (
                        ctx,
                        world.held::<T, I>(),
                        world.held::<U, J>(),
                        world.held::<V, K>(),
                        *inputs.0,
                        *inputs.1,
                        *inputs.2,
                        *inputs.3,
                    ),
                    (ctx_after, held, other),
                    out,
                )
                    && world_after == world.holding::<T, I>(held).holding::<U, J>(other)
        },
{
    if CtxMergeStepCall::<R, C, (&A, &B, &D, &E), Out>::call_post(
        &step,
        ctx,
        world,
        inputs,
        after,
        ctx_after,
        world_after,
        out,
    ) {
        let (held, other) = choose|held: T, other: U|
            #[trigger] effect_mmmppppp(
                step.f,
                ctx,
                world.held::<T, I>(),
                world.held::<U, J>(),
                &world.held::<V, K>(),
                inputs.0,
                inputs.1,
                inputs.2,
                inputs.3,
                ctx_after,
                held,
                other,
                out,
            )
                && world_after == world.holding::<T, I>(held).holding::<U, J>(other);
        lemma_effect_mmmppppp(
            step.f,
            ctx,
            world.held::<T, I>(),
            world.held::<U, J>(),
            &world.held::<V, K>(),
            inputs.0,
            inputs.1,
            inputs.2,
            inputs.3,
            ctx_after,
            held,
            other,
            out,
        );
        assert(promise(
            (
                ctx,
                world.held::<T, I>(),
                world.held::<U, J>(),
                world.held::<V, K>(),
                *inputs.0,
                *inputs.1,
                *inputs.2,
                *inputs.3,
            ),
            (ctx_after, held, other),
            out,
        ));
    }
}

/// What a function of three resources promises, its step promises of what the world holds.
pub proof fn lemma_ctx_merge4_resmut_resmut_resmut<
    R,
    T,
    I,
    U,
    J,
    V,
    K,
    C,
    A,
    B,
    D,
    E,
    Out,
    F: FnMut(&mut C, &mut T, &mut U, &mut V, &A, &B, &D, &E) -> Out,
>(
    step: CtxMergeStep<F, (ResMut<T, I>, ResMut<U, J>, ResMut<V, K>)>,
    promise: spec_fn((C, T, U, V, A, B, D, E), (C, T, U, V), Out) -> bool,
    ctx: C,
    world: World<R>,
    inputs: (&A, &B, &D, &E),
    after: CtxMergeStep<F, (ResMut<T, I>, ResMut<U, J>, ResMut<V, K>)>,
    ctx_after: C,
    world_after: World<R>,
    out: Out,
) where R: Apart3<T, I, U, J, V, K>
    requires
        forall|
            a0: &mut C,
            a1: &mut T,
            a2: &mut U,
            a3: &mut V,
            a4: &A,
            a5: &B,
            a6: &D,
            a7: &E,
            o: Out,
        |
            #[trigger] call_ensures(step.f, (a0, a1, a2, a3, a4, a5, a6, a7), o)
                ==> promise(
                    (*a0, *a1, *a2, *a3, *a4, *a5, *a6, *a7),
                    (*final(a0), *final(a1), *final(a2), *final(a3)),
                    o,
                ),
    ensures
        (forall|a0: &mut C, a1: &mut T, a2: &mut U, a3: &mut V|
            *a0 == ctx
                && *a1 == world.held::<T, I>()
                && *a2 == world.held::<U, J>()
                && *a3 == world.held::<V, K>()
                ==> #[trigger] call_requires(
                    step.f,
                    (a0, a1, a2, a3, inputs.0, inputs.1, inputs.2, inputs.3),
                )) ==> CtxMergeStepCall::<R, C, (&A, &B, &D, &E), Out>::call_pre(&step, ctx, world, inputs),
        CtxMergeStepCall::<R, C, (&A, &B, &D, &E), Out>::call_post(
            &step,
            ctx,
            world,
            inputs,
            after,
            ctx_after,
            world_after,
            out,
        )
            ==> {
            &&& after == step
            &&& exists|held: T, other: U, last: V|
                #[trigger] promise(
                    (
                        ctx,
                        world.held::<T, I>(),
                        world.held::<U, J>(),
                        world.held::<V, K>(),
                        *inputs.0,
                        *inputs.1,
                        *inputs.2,
                        *inputs.3,
                    ),
                    (ctx_after, held, other, last),
                    out,
                )
                    && world_after == world.holding::<T, I>(held).holding::<U, J>(other).holding::<V, K>(last)
        },
{
    if CtxMergeStepCall::<R, C, (&A, &B, &D, &E), Out>::call_post(
        &step,
        ctx,
        world,
        inputs,
        after,
        ctx_after,
        world_after,
        out,
    ) {
        let (held, other, last) = choose|held: T, other: U, last: V|
            #[trigger] effect_mmmmpppp(
                step.f,
                ctx,
                world.held::<T, I>(),
                world.held::<U, J>(),
                world.held::<V, K>(),
                inputs.0,
                inputs.1,
                inputs.2,
                inputs.3,
                ctx_after,
                held,
                other,
                last,
                out,
            )
                && world_after == world.holding::<T, I>(held).holding::<U, J>(other).holding::<V, K>(last);
        lemma_effect_mmmmpppp(
            step.f,
            ctx,
            world.held::<T, I>(),
            world.held::<U, J>(),
            world.held::<V, K>(),
            inputs.0,
            inputs.1,
            inputs.2,
            inputs.3,
            ctx_after,
            held,
            other,
            last,
            out,
        );
        assert(promise(
            (
                ctx,
                world.held::<T, I>(),
                world.held::<U, J>(),
                world.held::<V, K>(),
                *inputs.0,
                *inputs.1,
                *inputs.2,
                *inputs.3,
            ),
            (ctx_after, held, other, last),
            out,
        ));
    }
}

} // verus!
