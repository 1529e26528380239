//! What merge steps promise.
//!
//! A law is stated for an arbitrary `promise` that the contract of the function gives: of the values
//! that it is called on, of those that it leaves behind its mutable references, and of its result.
//! The step then gives that promise of the resources that the world holds, with the function called
//! once, and leaves everything else as it is.
use crate::effect::{
    effect_mmmpp, lemma_effect_mmmpp, effect_mmmppp, lemma_effect_mmmppp, effect_mmmpppp,
    lemma_effect_mmmpppp, effect_mmmppppp, lemma_effect_mmmppppp, effect_mmpp, lemma_effect_mmpp,
    effect_mmppp, lemma_effect_mmppp, effect_mmpppp, lemma_effect_mmpppp, effect_mmppppp,
    lemma_effect_mmppppp, effect_mmpppppp, lemma_effect_mmpppppp, effect_mpmpp, lemma_effect_mpmpp,
    effect_mpmppp, lemma_effect_mpmppp, effect_mpmpppp, lemma_effect_mpmpppp, effect_mpmppppp,
    lemma_effect_mpmppppp, effect_mpp, lemma_effect_mpp, effect_mppp, lemma_effect_mppp,
    effect_mpppp, lemma_effect_mpppp, effect_mppppp, lemma_effect_mppppp, effect_mpppppp,
    lemma_effect_mpppppp, effect_mppppppp, lemma_effect_mppppppp, effect_pmmpp, lemma_effect_pmmpp,
    effect_pmmppp, lemma_effect_pmmppp, effect_pmmpppp, lemma_effect_pmmpppp, effect_pmmppppp,
    lemma_effect_pmmppppp, effect_pmpp, lemma_effect_pmpp, effect_pmppp, lemma_effect_pmppp,
    effect_pmpppp, lemma_effect_pmpppp, effect_pmppppp, lemma_effect_pmppppp, effect_pmpppppp,
    lemma_effect_pmpppppp, effect_ppmpp, lemma_effect_ppmpp, effect_ppmppp, lemma_effect_ppmppp,
    effect_ppmpppp, lemma_effect_ppmpppp, effect_ppmppppp, lemma_effect_ppmppppp,
};
use crate::merge::{MergeStep, MergeStepCall};
use crate::world::{Apart, Apart3, Res, ResMut, Resource, World};
use vstd::prelude::*;

verus! {

/// What a function of its input alone promises, its step promises of what the world holds.
pub proof fn lemma_merge2_unit<R, A, B, Out, F: FnMut(&A, &B) -> Out>(
    step: MergeStep<F, ()>,
    promise: spec_fn((A, B), (), Out) -> bool,
    world: World<R>,
    inputs: (&A, &B),
    after: MergeStep<F, ()>,
    world_after: World<R>,
    out: Out,
)
    requires
        forall|a0: &A, a1: &B, o: Out|
            #[trigger] call_ensures(step.f, (a0, a1), o) ==> promise((*a0, *a1), (), o),
    ensures
        call_requires(step.f, (inputs.0, inputs.1))
            ==> MergeStepCall::<R, (&A, &B), Out>::call_pre(&step, world, inputs),
        MergeStepCall::<R, (&A, &B), Out>::call_post(&step, world, inputs, after, world_after, out)
            ==> {
            &&& after == step
            &&& world_after == world
            &&& promise((*inputs.0, *inputs.1), (), out)
        },
{
}

/// What a function of one resource promises, its step promises of what the world holds.
pub proof fn lemma_merge2_res<R, T, I, A, B, Out, F: FnMut(&T, &A, &B) -> Out>(
    step: MergeStep<F, Res<T, I>>,
    promise: spec_fn((T, A, B), (), Out) -> bool,
    world: World<R>,
    inputs: (&A, &B),
    after: MergeStep<F, Res<T, I>>,
    world_after: World<R>,
    out: Out,
) where R: Resource<T, I>
    requires
        forall|a0: &T, a1: &A, a2: &B, o: Out|
            #[trigger] call_ensures(step.f, (a0, a1, a2), o) ==> promise((*a0, *a1, *a2), (), o),
    ensures
        call_requires(step.f, (&world.held::<T, I>(), inputs.0, inputs.1))
            ==> MergeStepCall::<R, (&A, &B), Out>::call_pre(&step, world, inputs),
        MergeStepCall::<R, (&A, &B), Out>::call_post(&step, world, inputs, after, world_after, out)
            ==> {
            &&& after == step
            &&& world_after == world
            &&& promise((world.held::<T, I>(), *inputs.0, *inputs.1), (), out)
        },
{
}

/// What a function of one resource promises, its step promises of what the world holds.
pub proof fn lemma_merge2_resmut<R, T, I, A, B, Out, F: FnMut(&mut T, &A, &B) -> Out>(
    step: MergeStep<F, ResMut<T, I>>,
    promise: spec_fn((T, A, B), (T,), Out) -> bool,
    world: World<R>,
    inputs: (&A, &B),
    after: MergeStep<F, ResMut<T, I>>,
    world_after: World<R>,
    out: Out,
) where R: Resource<T, I>
    requires
        forall|a0: &mut T, a1: &A, a2: &B, o: Out|
            #[trigger] call_ensures(step.f, (a0, a1, a2), o)
                ==> promise((*a0, *a1, *a2), (*final(a0),), o),
    ensures
        (forall|a0: &mut T|
            *a0 == world.held::<T, I>()
                ==> #[trigger] call_requires(step.f, (a0, inputs.0, inputs.1)))
                    ==> MergeStepCall::<R, (&A, &B), Out>::call_pre(&step, world, inputs),
        MergeStepCall::<R, (&A, &B), Out>::call_post(&step, world, inputs, after, world_after, out)
            ==> {
            &&& after == step
            &&& exists|held: T|
                #[trigger] promise((world.held::<T, I>(), *inputs.0, *inputs.1), (held,), out)
                    && world_after == world.holding::<T, I>(held)
        },
{
    if MergeStepCall::<R, (&A, &B), Out>::call_post(&step, world, inputs, after, world_after, out) {
        let held = choose|held: T|
            #[trigger] effect_mpp(step.f, world.held::<T, I>(), inputs.0, inputs.1, held, out)
                && world_after == world.holding::<T, I>(held);
        lemma_effect_mpp(step.f, world.held::<T, I>(), inputs.0, inputs.1, held, out);
        assert(promise((world.held::<T, I>(), *inputs.0, *inputs.1), (held,), out));
    }
}

/// What a function of two resources promises, its step promises of what the world holds.
pub proof fn lemma_merge2_res_res<R, T, I, U, J, A, B, Out, F: FnMut(&T, &U, &A, &B) -> Out>(
    step: MergeStep<F, (Res<T, I>, Res<U, J>)>,
    promise: spec_fn((T, U, A, B), (), Out) -> bool,
    world: World<R>,
    inputs: (&A, &B),
    after: MergeStep<F, (Res<T, I>, Res<U, J>)>,
    world_after: World<R>,
    out: Out,
) where R: Resource<T, I> + Resource<U, J>
    requires
        forall|a0: &T, a1: &U, a2: &A, a3: &B, o: Out|
            #[trigger] call_ensures(step.f, (a0, a1, a2, a3), o)
                ==> promise((*a0, *a1, *a2, *a3), (), o),
    ensures
        call_requires(step.f, (&world.held::<T, I>(), &world.held::<U, J>(), inputs.0, inputs.1))
            ==> MergeStepCall::<R, (&A, &B), Out>::call_pre(&step, world, inputs),
        MergeStepCall::<R, (&A, &B), Out>::call_post(&step, world, inputs, after, world_after, out)
            ==> {
            &&& after == step
            &&& world_after == world
            &&& promise((world.held::<T, I>(), world.held::<U, J>(), *inputs.0, *inputs.1), (), out)
        },
{
}

/// What a function of two resources promises, its step promises of what the world holds.
pub proof fn lemma_merge2_res_resmut<
    R,
    T,
    I,
    U,
    J,
    A,
    B,
    Out,
    F: FnMut(&T, &mut U, &A, &B) -> Out,
>(
    step: MergeStep<F, (Res<T, I>, ResMut<U, J>)>,
    promise: spec_fn((T, U, A, B), (U,), Out) -> bool,
    world: World<R>,
    inputs: (&A, &B),
    after: MergeStep<F, (Res<T, I>, ResMut<U, J>)>,
    world_after: World<R>,
    out: Out,
) where R: Apart<T, I, U, J>
    requires
        forall|a0: &T, a1: &mut U, a2: &A, a3: &B, o: Out|
            #[trigger] call_ensures(step.f, (a0, a1, a2, a3), o)
                ==> promise((*a0, *a1, *a2, *a3), (*final(a1),), o),
    ensures
        (forall|a1: &mut U|
            *a1 == world.held::<U, J>()
                ==> #[trigger] call_requires(
                    step.f,
                    (&world.held::<T, I>(), a1, inputs.0, inputs.1),
                )) ==> MergeStepCall::<R, (&A, &B), Out>::call_pre(&step, world, inputs),
        MergeStepCall::<R, (&A, &B), Out>::call_post(&step, world, inputs, after, world_after, out)
            ==> {
            &&& after == step
            &&& exists|held: U|
                #[trigger] promise(
                    (world.held::<T, I>(), world.held::<U, J>(), *inputs.0, *inputs.1),
                    (held,),
                    out,
                )
                    && world_after == world.holding::<U, J>(held)
        },
{
    if MergeStepCall::<R, (&A, &B), Out>::call_post(&step, world, inputs, after, world_after, out) {
        let held = choose|held: U|
            #[trigger] effect_pmpp(
                step.f,
                &world.held::<T, I>(),
                world.held::<U, J>(),
                inputs.0,
                inputs.1,
                held,
                out,
            )
                && world_after == world.holding::<U, J>(held);
        lemma_effect_pmpp(
            step.f,
            &world.held::<T, I>(),
            world.held::<U, J>(),
            inputs.0,
            inputs.1,
            held,
            out,
        );
        assert(promise(
            (world.held::<T, I>(), world.held::<U, J>(), *inputs.0, *inputs.1),
            (held,),
            out,
        ));
    }
}

/// What a function of two resources promises, its step promises of what the world holds.
pub proof fn lemma_merge2_resmut_res<
    R,
    T,
    I,
    U,
    J,
    A,
    B,
    Out,
    F: FnMut(&mut T, &U, &A, &B) -> Out,
>(
    step: MergeStep<F, (ResMut<T, I>, Res<U, J>)>,
    promise: spec_fn((T, U, A, B), (T,), Out) -> bool,
    world: World<R>,
    inputs: (&A, &B),
    after: MergeStep<F, (ResMut<T, I>, Res<U, J>)>,
    world_after: World<R>,
    out: Out,
) where R: Apart<U, J, T, I>
    requires
        forall|a0: &mut T, a1: &U, a2: &A, a3: &B, o: Out|
            #[trigger] call_ensures(step.f, (a0, a1, a2, a3), o)
                ==> promise((*a0, *a1, *a2, *a3), (*final(a0),), o),
    ensures
        (forall|a0: &mut T|
            *a0 == world.held::<T, I>()
                ==> #[trigger] call_requires(
                    step.f,
                    (a0, &world.held::<U, J>(), inputs.0, inputs.1),
                )) ==> MergeStepCall::<R, (&A, &B), Out>::call_pre(&step, world, inputs),
        MergeStepCall::<R, (&A, &B), Out>::call_post(&step, world, inputs, after, world_after, out)
            ==> {
            &&& after == step
            &&& exists|held: T|
                #[trigger] promise(
                    (world.held::<T, I>(), world.held::<U, J>(), *inputs.0, *inputs.1),
                    (held,),
                    out,
                )
                    && world_after == world.holding::<T, I>(held)
        },
{
    if MergeStepCall::<R, (&A, &B), Out>::call_post(&step, world, inputs, after, world_after, out) {
        let held = choose|held: T|
            #[trigger] effect_mppp(
                step.f,
                world.held::<T, I>(),
                &world.held::<U, J>(),
                inputs.0,
                inputs.1,
                held,
                out,
            )
                && world_after == world.holding::<T, I>(held);
        lemma_effect_mppp(
            step.f,
            world.held::<T, I>(),
            &world.held::<U, J>(),
            inputs.0,
            inputs.1,
            held,
            out,
        );
        assert(promise(
            (world.held::<T, I>(), world.held::<U, J>(), *inputs.0, *inputs.1),
            (held,),
            out,
        ));
    }
}

/// What a function of two resources promises, its step promises of what the world holds.
pub proof fn lemma_merge2_resmut_resmut<
    R,
    T,
    I,
    U,
    J,
    A,
    B,
    Out,
    F: FnMut(&mut T, &mut U, &A, &B) -> Out,
>(
    step: MergeStep<F, (ResMut<T, I>, ResMut<U, J>)>,
    promise: spec_fn((T, U, A, B), (T, U), Out) -> bool,
    world: World<R>,
    inputs: (&A, &B),
    after: MergeStep<F, (ResMut<T, I>, ResMut<U, J>)>,
    world_after: World<R>,
    out: Out,
) where R: Apart<T, I, U, J>
    requires
        forall|a0: &mut T, a1: &mut U, a2: &A, a3: &B, o: Out|
            #[trigger] call_ensures(step.f, (a0, a1, a2, a3), o)
                ==> promise((*a0, *a1, *a2, *a3), (*final(a0), *final(a1)), o),
    ensures
        (forall|a0: &mut T, a1: &mut U|
            *a0 == world.held::<T, I>() && *a1 == world.held::<U, J>()
                ==> #[trigger] call_requires(step.f, (a0, a1, inputs.0, inputs.1)))
                    ==> MergeStepCall::<R, (&A, &B), Out>::call_pre(&step, world, inputs),
        MergeStepCall::<R, (&A, &B), Out>::call_post(&step, world, inputs, after, world_after, out)
            ==> {
            &&& after == step
            &&& exists|held: T, other: U|
                #[trigger] promise(
                    (world.held::<T, I>(), world.held::<U, J>(), *inputs.0, *inputs.1),
                    (held, other),
                    out,
                )
                    && world_after == world.holding::<T, I>(held).holding::<U, J>(other)
        },
{
    if MergeStepCall::<R, (&A, &B), Out>::call_post(&step, world, inputs, after, world_after, out) {
        let (held, other) = choose|held: T, other: U|
            #[trigger] effect_mmpp(
                step.f,
                world.held::<T, I>(),
                world.held::<U, J>(),
                inputs.0,
                inputs.1,
                held,
                other,
                out,
            )
                && world_after == world.holding::<T, I>(held).holding::<U, J>(other);
        lemma_effect_mmpp(
            step.f,
            world.held::<T, I>(),
            world.held::<U, J>(),
            inputs.0,
            inputs.1,
            held,
            other,
            out,
        );
        assert(promise(
            (world.held::<T, I>(), world.held::<U, J>(), *inputs.0, *inputs.1),
            (held, other),
            out,
        ));
    }
}

/// What a function of three resources promises, its step promises of what the world holds.
pub proof fn lemma_merge2_res_res_res<
    R,
    T,
    I,
    U,
    J,
    V,
    K,
    A,
    B,
    Out,
    F: FnMut(&T, &U, &V, &A, &B) -> Out,
>(
    step: MergeStep<F, (Res<T, I>, Res<U, J>, Res<V, K>)>,
    promise: spec_fn((T, U, V, A, B), (), Out) -> bool,
    world: World<R>,
    inputs: (&A, &B),
    after: MergeStep<F, (Res<T, I>, Res<U, J>, Res<V, K>)>,
    world_after: World<R>,
    out: Out,
) where R: Resource<T, I> + Resource<U, J> + Resource<V, K>
    requires
        forall|a0: &T, a1: &U, a2: &V, a3: &A, a4: &B, o: Out|
            #[trigger] call_ensures(step.f, (a0, a1, a2, a3, a4), o)
                ==> promise((*a0, *a1, *a2, *a3, *a4), (), o),
    ensures
        call_requires(
            step.f,
            (
                &world.held::<T, I>(),
                &world.held::<U, J>(),
                &world.held::<V, K>(),
                inputs.0,
                inputs.1,
            ),
        )
            ==> MergeStepCall::<R, (&A, &B), Out>::call_pre(&step, world, inputs),
        MergeStepCall::<R, (&A, &B), Out>::call_post(&step, world, inputs, after, world_after, out)
            ==> {
            &&& after == step
            &&& world_after == world
            &&& promise(
                (
                    world.held::<T, I>(),
                    world.held::<U, J>(),
                    world.held::<V, K>(),
                    *inputs.0,
                    *inputs.1,
                ),
                (),
                out,
            )
        },
{
}

/// What a function of three resources promises, its step promises of what the world holds.
pub proof fn lemma_merge2_res_res_resmut<
    R,
    T,
    I,
    U,
    J,
    V,
    K,
    A,
    B,
    Out,
    F: FnMut(&T, &U, &mut V, &A, &B) -> Out,
>(
    step: MergeStep<F, (Res<T, I>, Res<U, J>, ResMut<V, K>)>,
    promise: spec_fn((T, U, V, A, B), (V,), Out) -> bool,
    world: World<R>,
    inputs: (&A, &B),
    after: MergeStep<F, (Res<T, I>, Res<U, J>, ResMut<V, K>)>,
    world_after: World<R>,
    out: Out,
) where R: Apart3<T, I, U, J, V, K>
    requires
        forall|a0: &T, a1: &U, a2: &mut V, a3: &A, a4: &B, o: Out|
            #[trigger] call_ensures(step.f, (a0, a1, a2, a3, a4), o)
                ==> promise((*a0, *a1, *a2, *a3, *a4), (*final(a2),), o),
    ensures
        (forall|a2: &mut V|
            *a2 == world.held::<V, K>()
                ==> #[trigger] call_requires(
                    step.f,
                    (&world.held::<T, I>(), &world.held::<U, J>(), a2, inputs.0, inputs.1),
                )) ==> MergeStepCall::<R, (&A, &B), Out>::call_pre(&step, world, inputs),
        MergeStepCall::<R, (&A, &B), Out>::call_post(&step, world, inputs, after, world_after, out)
            ==> {
            &&& after == step
            &&& exists|held: V|
                #[trigger] promise(
                    (
                        world.held::<T, I>(),
                        world.held::<U, J>(),
                        world.held::<V, K>(),
                        *inputs.0,
                        *inputs.1,
                    ),
                    (held,),
                    out,
                )
                    && world_after == world.holding::<V, K>(held)
        },
{
    if MergeStepCall::<R, (&A, &B), Out>::call_post(&step, world, inputs, after, world_after, out) {
        let held = choose|held: V|
            #[trigger] effect_ppmpp(
                step.f,
                &world.held::<T, I>(),
                &world.held::<U, J>(),
                world.held::<V, K>(),
                inputs.0,
                inputs.1,
                held,
                out,
            )
                && world_after == world.holding::<V, K>(held);
        lemma_effect_ppmpp(
            step.f,
            &world.held::<T, I>(),
            &world.held::<U, J>(),
            world.held::<V, K>(),
            inputs.0,
            inputs.1,
            held,
            out,
        );
        assert(promise(
            (
                world.held::<T, I>(),
                world.held::<U, J>(),
                world.held::<V, K>(),
                *inputs.0,
                *inputs.1,
            ),
            (held,),
            out,
        ));
    }
}

/// What a function of three resources promises, its step promises of what the world holds.
pub proof fn lemma_merge2_res_resmut_res<
    R,
    T,
    I,
    U,
    J,
    V,
    K,
    A,
    B,
    Out,
    F: FnMut(&T, &mut U, &V, &A, &B) -> Out,
>(
    step: MergeStep<F, (Res<T, I>, ResMut<U, J>, Res<V, K>)>,
    promise: spec_fn((T, U, V, A, B), (U,), Out) -> bool,
    world: World<R>,
    inputs: (&A, &B),
    after: MergeStep<F, (Res<T, I>, ResMut<U, J>, Res<V, K>)>,
    world_after: World<R>,
    out: Out,
) where R: Apart3<T, I, V, K, U, J>
    requires
        forall|a0: &T, a1: &mut U, a2: &V, a3: &A, a4: &B, o: Out|
            #[trigger] call_ensures(step.f, (a0, a1, a2, a3, a4), o)
                ==> promise((*a0, *a1, *a2, *a3, *a4), (*final(a1),), o),
    ensures
        (forall|a1: &mut U|
            *a1 == world.held::<U, J>()
                ==> #[trigger] call_requires(
                    step.f,
                    (&world.held::<T, I>(), a1, &world.held::<V, K>(), inputs.0, inputs.1),
                )) ==> MergeStepCall::<R, (&A, &B), Out>::call_pre(&step, world, inputs),
        MergeStepCall::<R, (&A, &B), Out>::call_post(&step, world, inputs, after, world_after, out)
            ==> {
            &&& after == step
            &&& exists|held: U|
                #[trigger] promise(
                    (
                        world.held::<T, I>(),
                        world.held::<U, J>(),
                        world.held::<V, K>(),
                        *inputs.0,
                        *inputs.1,
                    ),
                    (held,),
                    out,
                )
                    && world_after == world.holding::<U, J>(held)
        },
{
    if MergeStepCall::<R, (&A, &B), Out>::call_post(&step, world, inputs, after, world_after, out) {
        let held = choose|held: U|
            #[trigger] effect_pmppp(
                step.f,
                &world.held::<T, I>(),
                world.held::<U, J>(),
                &world.held::<V, K>(),
                inputs.0,
                inputs.1,
                held,
                out,
            )
                && world_after == world.holding::<U, J>(held);
        lemma_effect_pmppp(
            step.f,
            &world.held::<T, I>(),
            world.held::<U, J>(),
            &world.held::<V, K>(),
            inputs.0,
            inputs.1,
            held,
            out,
        );
        assert(promise(
            (
                world.held::<T, I>(),
                world.held::<U, J>(),
                world.held::<V, K>(),
                *inputs.0,
                *inputs.1,
            ),
            (held,),
            out,
        ));
    }
}

/// What a function of three resources promises, its step promises of what the world holds.
pub proof fn lemma_merge2_res_resmut_resmut<
    R,
    T,
    I,
    U,
    J,
    V,
    K,
    A,
    B,
    Out,
    F: FnMut(&T, &mut U, &mut V, &A, &B) -> Out,
>(
    step: MergeStep<F, (Res<T, I>, ResMut<U, J>, ResMut<V, K>)>,
    promise: spec_fn((T, U, V, A, B), (U, V), Out) -> bool,
    world: World<R>,
    inputs: (&A, &B),
    after: MergeStep<F, (Res<T, I>, ResMut<U, J>, ResMut<V, K>)>,
    world_after: World<R>,
    out: Out,
) where R: Apart3<T, I, U, J, V, K>
    requires
        forall|a0: &T, a1: &mut U, a2: &mut V, a3: &A, a4: &B, o: Out|
            #[trigger] call_ensures(step.f, (a0, a1, a2, a3, a4), o)
                ==> promise((*a0, *a1, *a2, *a3, *a4), (*final(a1), *final(a2)), o),
    ensures
        (forall|a1: &mut U, a2: &mut V|
            *a1 == world.held::<U, J>() && *a2 == world.held::<V, K>()
                ==> #[trigger] call_requires(
                    step.f,
                    (&world.held::<T, I>(), a1, a2, inputs.0, inputs.1),
                )) ==> MergeStepCall::<R, (&A, &B), Out>::call_pre(&step, world, inputs),
        MergeStepCall::<R, (&A, &B), Out>::call_post(&step, world, inputs, after, world_after, out)
            ==> {
            &&& after == step
            &&& exists|held: U, other: V|
                #[trigger] promise(
                    (
                        world.held::<T, I>(),
                        world.held::<U, J>(),
                        world.held::<V, K>(),
                        *inputs.0,
                        *inputs.1,
                    ),
                    (held, other),
                    out,
                )
                    && world_after == world.holding::<U, J>(held).holding::<V, K>(other)
        },
{
    if MergeStepCall::<R, (&A, &B), Out>::call_post(&step, world, inputs, after, world_after, out) {
        let (held, other) = choose|held: U, other: V|
            #[trigger] effect_pmmpp(
                step.f,
                &world.held::<T, I>(),
                world.held::<U, J>(),
                world.held::<V, K>(),
                inputs.0,
                inputs.1,
                held,
                other,
                out,
            )
                && world_after == world.holding::<U, J>(held).holding::<V, K>(other);
        lemma_effect_pmmpp(
            step.f,
            &world.held::<T, I>(),
            world.held::<U, J>(),
            world.held::<V, K>(),
            inputs.0,
            inputs.1,
            held,
            other,
            out,
        );
        assert(promise(
            (
                world.held::<T, I>(),
                world.held::<U, J>(),
                world.held::<V, K>(),
                *inputs.0,
                *inputs.1,
            ),
            (held, other),
            out,
        ));
    }
}

/// What a function of three resources promises, its step promises of what the world holds.
pub proof fn lemma_merge2_resmut_res_res<
    R,
    T,
    I,
    U,
    J,
    V,
    K,
    A,
    B,
    Out,
    F: FnMut(&mut T, &U, &V, &A, &B) -> Out,
>(
    step: MergeStep<F, (ResMut<T, I>, Res<U, J>, Res<V, K>)>,
    promise: spec_fn((T, U, V, A, B), (T,), Out) -> bool,
    world: World<R>,
    inputs: (&A, &B),
    after: MergeStep<F, (ResMut<T, I>, Res<U, J>, Res<V, K>)>,
    world_after: World<R>,
    out: Out,
) where R: Apart3<U, J, V, K, T, I>
    requires
        forall|a0: &mut T, a1: &U, a2: &V, a3: &A, a4: &B, o: Out|
            #[trigger] call_ensures(step.f, (a0, a1, a2, a3, a4), o)
                ==> promise((*a0, *a1, *a2, *a3, *a4), (*final(a0),), o),
    ensures
        (forall|a0: &mut T|
            *a0 == world.held::<T, I>()
                ==> #[trigger] call_requires(
                    step.f,
                    (a0, &world.held::<U, J>(), &world.held::<V, K>(), inputs.0, inputs.1),
                )) ==> MergeStepCall::<R, (&A, &B), Out>::call_pre(&step, world, inputs),
        MergeStepCall::<R, (&A, &B), Out>::call_post(&step, world, inputs, after, world_after, out)
            ==> {
            &&& after == step
            &&& exists|held: T|
                #[trigger] promise(
                    (
                        world.held::<T, I>(),
                        world.held::<U, J>(),
                        world.held::<V, K>(),
                        *inputs.0,
                        *inputs.1,
                    ),
                    (held,),
                    out,
                )
                    && world_after == world.holding::<T, I>(held)
        },
{
    if MergeStepCall::<R, (&A, &B), Out>::call_post(&step, world, inputs, after, world_after, out) {
        let held = choose|held: T|
            #[trigger] effect_mpppp(
                step.f,
                world.held::<T, I>(),
                &world.held::<U, J>(),
                &world.held::<V, K>(),
                inputs.0,
                inputs.1,
                held,
                out,
            )
                && world_after == world.holding::<T, I>(held);
        lemma_effect_mpppp(
            step.f,
            world.held::<T, I>(),
            &world.held::<U, J>(),
            &world.held::<V, K>(),
            inputs.0,
            inputs.1,
            held,
            out,
        );
        assert(promise(
            (
                world.held::<T, I>(),
                world.held::<U, J>(),
                world.held::<V, K>(),
                *inputs.0,
                *inputs.1,
            ),
            (held,),
            out,
        ));
    }
}

/// What a function of three resources promises, its step promises of what the world holds.
pub proof fn lemma_merge2_resmut_res_resmut<
    R,
    T,
    I,
    U,
    J,
    V,
    K,
    A,
    B,
    Out,
    F: FnMut(&mut T, &U, &mut V, &A, &B) -> Out,
>(
    step: MergeStep<F, (ResMut<T, I>, Res<U, J>, ResMut<V, K>)>,
    promise: spec_fn((T, U, V, A, B), (T, V), Out) -> bool,
    world: World<R>,
    inputs: (&A, &B),
    after: MergeStep<F, (ResMut<T, I>, Res<U, J>, ResMut<V, K>)>,
    world_after: World<R>,
    out: Out,
) where R: Apart3<U, J, T, I, V, K>
    requires
        forall|a0: &mut T, a1: &U, a2: &mut V, a3: &A, a4: &B, o: Out|
            #[trigger] call_ensures(step.f, (a0, a1, a2, a3, a4), o)
                ==> promise((*a0, *a1, *a2, *a3, *a4), (*final(a0), *final(a2)), o),
    ensures
        (forall|a0: &mut T, a2: &mut V|
            *a0 == world.held::<T, I>() && *a2 == world.held::<V, K>()
                ==> #[trigger] call_requires(
                    step.f,
                    (a0, &world.held::<U, J>(), a2, inputs.0, inputs.1),
                )) ==> MergeStepCall::<R, (&A, &B), Out>::call_pre(&step, world, inputs),
        MergeStepCall::<R, (&A, &B), Out>::call_post(&step, world, inputs, after, world_after, out)
            ==> {
            &&& after == step
            &&& exists|held: T, other: V|
                #[trigger] promise(
                    (
                        world.held::<T, I>(),
                        world.held::<U, J>(),
                        world.held::<V, K>(),
                        *inputs.0,
                        *inputs.1,
                    ),
                    (held, other),
                    out,
                )
                    && world_after == world.holding::<T, I>(held).holding::<V, K>(other)
        },
{
    if MergeStepCall::<R, (&A, &B), Out>::call_post(&step, world, inputs, after, world_after, out) {
        let (held, other) = choose|held: T, other: V|
            #[trigger] effect_mpmpp(
                step.f,
                world.held::<T, I>(),
                &world.held::<U, J>(),
                world.held::<V, K>(),
                inputs.0,
                inputs.1,
                held,
                other,
                out,
            )
                && world_after == world.holding::<T, I>(held).holding::<V, K>(other);
        lemma_effect_mpmpp(
            step.f,
            world.held::<T, I>(),
            &world.held::<U, J>(),
            world.held::<V, K>(),
            inputs.0,
            inputs.1,
            held,
            other,
            out,
        );
        assert(promise(
            (
                world.held::<T, I>(),
                world.held::<U, J>(),
                world.held::<V, K>(),
                *inputs.0,
                *inputs.1,
            ),
            (held, other),
            out,
        ));
    }
}

/// What a function of three resources promises, its step promises of what the world holds.
pub proof fn lemma_merge2_resmut_resmut_res<
    R,
    T,
    I,
    U,
    J,
    V,
    K,
    A,
    B,
    Out,
    F: FnMut(&mut T, &mut U, &V, &A, &B) -> Out,
>(
    step: MergeStep<F, (ResMut<T, I>, ResMut<U, J>, Res<V, K>)>,
    promise: spec_fn((T, U, V, A, B), (T, U), Out) -> bool,
    world: World<R>,
    inputs: (&A, &B),
    after: MergeStep<F, (ResMut<T, I>, ResMut<U, J>, Res<V, K>)>,
    world_after: World<R>,
    out: Out,
) where R: Apart3<V, K, T, I, U, J>
    requires
        forall|a0: &mut T, a1: &mut U, a2: &V, a3: &A, a4: &B, o: Out|
            #[trigger] call_ensures(step.f, (a0, a1, a2, a3, a4), o)
                ==> promise((*a0, *a1, *a2, *a3, *a4), (*final(a0), *final(a1)), o),
    ensures
        (forall|a0: &mut T, a1: &mut U|
            *a0 == world.held::<T, I>() && *a1 == world.held::<U, J>()
                ==> #[trigger] call_requires(
                    step.f,
                    (a0, a1, &world.held::<V, K>(), inputs.0, inputs.1),
                )) ==> MergeStepCall::<R, (&A, &B), Out>::call_pre(&step, world, inputs),
        MergeStepCall::<R, (&A, &B), Out>::call_post(&step, world, inputs, after, world_after, out)
            ==> {
            &&& after == step
            &&& exists|held: T, other: U|
                #[trigger] promise(
                    (
                        world.held::<T, I>(),
                        world.held::<U, J>(),
                        world.held::<V, K>(),
                        *inputs.0,
                        *inputs.1,
                    ),
                    (held, other),
                    out,
                )
                    && world_after == world.holding::<T, I>(held).holding::<U, J>(other)
        },
{
    if MergeStepCall::<R, (&A, &B), Out>::call_post(&step, world, inputs, after, world_after, out) {
        let (held, other) = choose|held: T, other: U|
            #[trigger] effect_mmppp(
                step.f,
                world.held::<T, I>(),
                world.held::<U, J>(),
                &world.held::<V, K>(),
                inputs.0,
                inputs.1,
                held,
                other,
                out,
            )
                && world_after == world.holding::<T, I>(held).holding::<U, J>(other);
        lemma_effect_mmppp(
            step.f,
            world.held::<T, I>(),
            world.held::<U, J>(),
            &world.held::<V, K>(),
            inputs.0,
            inputs.1,
            held,
            other,
            out,
        );
        assert(promise(
            (
                world.held::<T, I>(),
                world.held::<U, J>(),
                world.held::<V, K>(),
                *inputs.0,
                *inputs.1,
            ),
            (held, other),
            out,
        ));
    }
}

/// What a function of three resources promises, its step promises of what the world holds.
pub proof fn lemma_merge2_resmut_resmut_resmut<
    R,
    T,
    I,
    U,
    J,
    V,
    K,
    A,
    B,
    Out,
    F: FnMut(&mut T, &mut U, &mut V, &A, &B) -> Out,
>(
    step: MergeStep<F, (ResMut<T, I>, ResMut<U, J>, ResMut<V, K>)>,
    promise: spec_fn((T, U, V, A, B), (T, U, V), Out) -> bool,
    world: World<R>,
    inputs: (&A, &B),
    after: MergeStep<F, (ResMut<T, I>, ResMut<U, J>, ResMut<V, K>)>,
    world_after: World<R>,
    out: Out,
) where R: Apart3<T, I, U, J, V, K>
    requires
        forall|a0: &mut T, a1: &mut U, a2: &mut V, a3: &A, a4: &B, o: Out|
            #[trigger] call_ensures(step.f, (a0, a1, a2, a3, a4), o)
                ==> promise((*a0, *a1, *a2, *a3, *a4), (*final(a0), *final(a1), *final(a2)), o),
    ensures
        (forall|a0: &mut T, a1: &mut U, a2: &mut V|
            *a0 == world.held::<T, I>()
                && *a1 == world.held::<U, J>()
                && *a2 == world.held::<V, K>()
                ==> #[trigger] call_requires(
                    step.f,
                    (a0, a1, a2, inputs.0, inputs.1),
                )) ==> MergeStepCall::<R, (&A, &B), Out>::call_pre(&step, world, inputs),
        MergeStepCall::<R, (&A, &B), Out>::call_post(&step, world, inputs, after, world_after, out)
            ==> {
            &&& after == step
            &&& exists|held: T, other: U, last: V|
                #[trigger] promise(
                    (
                        world.held::<T, I>(),
                        world.held::<U, J>(),
                        world.held::<V, K>(),
                        *inputs.0,
                        *inputs.1,
                    ),
                    (held, other, last),
                    out,
                )
                    && world_after == world.holding::<T, I>(held).holding::<U, J>(other).holding::<V, K>(last)
        },
{
    if MergeStepCall::<R, (&A, &B), Out>::call_post(&step, world, inputs, after, world_after, out) {
        let (held, other, last) = choose|held: T, other: U, last: V|
            #[trigger] effect_mmmpp(
                step.f,
                world.held::<T, I>(),
                world.held::<U, J>(),
                world.held::<V, K>(),
                inputs.0,
                inputs.1,
                held,
                other,
                last,
                out,
            )
                && world_after == world.holding::<T, I>(held).holding::<U, J>(other).holding::<V, K>(last);
        lemma_effect_mmmpp(
            step.f,
            world.held::<T, I>(),
            world.held::<U, J>(),
            world.held::<V, K>(),
            inputs.0,
            inputs.1,
            held,
            other,
            last,
            out,
        );
        assert(promise(
            (
                world.held::<T, I>(),
                world.held::<U, J>(),
                world.held::<V, K>(),
                *inputs.0,
                *inputs.1,
            ),
            (held, other, last),
            out,
        ));
    }
}

/// What a function of its input alone promises, its step promises of what the world holds.
pub proof fn lemma_merge3_unit<R, A, B, D, Out, F: FnMut(&A, &B, &D) -> Out>(
    step: MergeStep<F, ()>,
    promise: spec_fn((A, B, D), (), Out) -> bool,
    world: World<R>,
    inputs: (&A, &B, &D),
    after: MergeStep<F, ()>,
    world_after: World<R>,
    out: Out,
)
    requires
        forall|a0: &A, a1: &B, a2: &D, o: Out|
            #[trigger] call_ensures(step.f, (a0, a1, a2), o) ==> promise((*a0, *a1, *a2), (), o),
    ensures
        call_requires(step.f, (inputs.0, inputs.1, inputs.2))
            ==> MergeStepCall::<R, (&A, &B, &D), Out>::call_pre(&step, world, inputs),
        MergeStepCall::<R, (&A, &B, &D), Out>::call_post(
            &step,
            world,
            inputs,
            after,
            world_after,
            out,
        )
            ==> {
            &&& after == step
            &&& world_after == world
            &&& promise((*inputs.0, *inputs.1, *inputs.2), (), out)
        },
{
}

/// What a function of one resource promises, its step promises of what the world holds.
pub proof fn lemma_merge3_res<R, T, I, A, B, D, Out, F: FnMut(&T, &A, &B, &D) -> Out>(
    step: MergeStep<F, Res<T, I>>,
    promise: spec_fn((T, A, B, D), (), Out) -> bool,
    world: World<R>,
    inputs: (&A, &B, &D),
    after: MergeStep<F, Res<T, I>>,
    world_after: World<R>,
    out: Out,
) where R: Resource<T, I>
    requires
        forall|a0: &T, a1: &A, a2: &B, a3: &D, o: Out|
            #[trigger] call_ensures(step.f, (a0, a1, a2, a3), o)
                ==> promise((*a0, *a1, *a2, *a3), (), o),
    ensures
        call_requires(step.f, (&world.held::<T, I>(), inputs.0, inputs.1, inputs.2))
            ==> MergeStepCall::<R, (&A, &B, &D), Out>::call_pre(&step, world, inputs),
        MergeStepCall::<R, (&A, &B, &D), Out>::call_post(
            &step,
            world,
            inputs,
            after,
            world_after,
            out,
        )
            ==> {
            &&& after == step
            &&& world_after == world
            &&& promise((world.held::<T, I>(), *inputs.0, *inputs.1, *inputs.2), (), out)
        },
{
}

/// What a function of one resource promises, its step promises of what the world holds.
pub proof fn lemma_merge3_resmut<R, T, I, A, B, D, Out, F: FnMut(&mut T, &A, &B, &D) -> Out>(
    step: MergeStep<F, ResMut<T, I>>,
    promise: spec_fn((T, A, B, D), (T,), Out) -> bool,
    world: World<R>,
    inputs: (&A, &B, &D),
    after: MergeStep<F, ResMut<T, I>>,
    world_after: World<R>,
    out: Out,
) where R: Resource<T, I>
    requires
        forall|a0: &mut T, a1: &A, a2: &B, a3: &D, o: Out|
            #[trigger] call_ensures(step.f, (a0, a1, a2, a3), o)
                ==> promise((*a0, *a1, *a2, *a3), (*final(a0),), o),
    ensures
        (forall|a0: &mut T|
            *a0 == world.held::<T, I>()
                ==> #[trigger] call_requires(
                    step.f,
                    (a0, inputs.0, inputs.1, inputs.2),
                )) ==> MergeStepCall::<R, (&A, &B, &D), Out>::call_pre(&step, world, inputs),
        MergeStepCall::<R, (&A, &B, &D), Out>::call_post(
            &step,
            world,
            inputs,
            after,
            world_after,
            out,
        )
            ==> {
            &&& after == step
            &&& exists|held: T|
                #[trigger] promise(
                    (world.held::<T, I>(), *inputs.0, *inputs.1, *inputs.2),
                    (held,),
                    out,
                )
                    && world_after == world.holding::<T, I>(held)
        },
{
    if MergeStepCall::<R, (&A, &B, &D), Out>::call_post(
        &step,
        world,
        inputs,
        after,
        world_after,
        out,
    ) {
        let held = choose|held: T|
            #[trigger] effect_mppp(
                step.f,
                world.held::<T, I>(),
                inputs.0,
                inputs.1,
                inputs.2,
                held,
                out,
            )
                && world_after == world.holding::<T, I>(held);
        lemma_effect_mppp(step.f, world.held::<T, I>(), inputs.0, inputs.1, inputs.2, held, out);
        assert(promise((world.held::<T, I>(), *inputs.0, *inputs.1, *inputs.2), (held,), out));
    }
}

/// What a function of two resources promises, its step promises of what the world holds.
pub proof fn lemma_merge3_res_res<
    R,
    T,
    I,
    U,
    J,
    A,
    B,
    D,
    Out,
    F: FnMut(&T, &U, &A, &B, &D) -> Out,
>(
    step: MergeStep<F, (Res<T, I>, Res<U, J>)>,
    promise: spec_fn((T, U, A, B, D), (), Out) -> bool,
    world: World<R>,
    inputs: (&A, &B, &D),
    after: MergeStep<F, (Res<T, I>, Res<U, J>)>,
    world_after: World<R>,
    out: Out,
) where R: Resource<T, I> + Resource<U, J>
    requires
        forall|a0: &T, a1: &U, a2: &A, a3: &B, a4: &D, o: Out|
            #[trigger] call_ensures(step.f, (a0, a1, a2, a3, a4), o)
                ==> promise((*a0, *a1, *a2, *a3, *a4), (), o),
    ensures
        call_requires(
            step.f,
            (&world.held::<T, I>(), &world.held::<U, J>(), inputs.0, inputs.1, inputs.2),
        )
            ==> MergeStepCall::<R, (&A, &B, &D), Out>::call_pre(&step, world, inputs),
        MergeStepCall::<R, (&A, &B, &D), Out>::call_post(
            &step,
            world,
            inputs,
            after,
            world_after,
            out,
        )
            ==> {
            &&& after == step
            &&& world_after == world
            &&& promise(
                (world.held::<T, I>(), world.held::<U, J>(), *inputs.0, *inputs.1, *inputs.2),
                (),
                out,
            )
        },
{
}

/// What a function of two resources promises, its step promises of what the world holds.
pub proof fn lemma_merge3_res_resmut<
    R,
    T,
    I,
    U,
    J,
    A,
    B,
    D,
    Out,
    F: FnMut(&T, &mut U, &A, &B, &D) -> Out,
>(
    step: MergeStep<F, (Res<T, I>, ResMut<U, J>)>,
    promise: spec_fn((T, U, A, B, D), (U,), Out) -> bool,
    world: World<R>,
    inputs: (&A, &B, &D),
    after: MergeStep<F, (Res<T, I>, ResMut<U, J>)>,
    world_after: World<R>,
    out: Out,
) where R: Apart<T, I, U, J>
    requires
        forall|a0: &T, a1: &mut U, a2: &A, a3: &B, a4: &D, o: Out|
            #[trigger] call_ensures(step.f, (a0, a1, a2, a3, a4), o)
                ==> promise((*a0, *a1, *a2, *a3, *a4), (*final(a1),), o),
    ensures
        (forall|a1: &mut U|
            *a1 == world.held::<U, J>()
                ==> #[trigger] call_requires(
                    step.f,
                    (&world.held::<T, I>(), a1, inputs.0, inputs.1, inputs.2),
                )) ==> MergeStepCall::<R, (&A, &B, &D), Out>::call_pre(&step, world, inputs),
        MergeStepCall::<R, (&A, &B, &D), Out>::call_post(
            &step,
            world,
            inputs,
            after,
            world_after,
            out,
        )
            ==> {
            &&& after == step
            &&& exists|held: U|
                #[trigger] promise(
                    (world.held::<T, I>(), world.held::<U, J>(), *inputs.0, *inputs.1, *inputs.2),
                    (held,),
                    out,
                )
                    && world_after == world.holding::<U, J>(held)
        },
{
    if MergeStepCall::<R, (&A, &B, &D), Out>::call_post(
        &step,
        world,
        inputs,
        after,
        world_after,
        out,
    ) {
        let held = choose|held: U|
            #[trigger] effect_pmppp(
                step.f,
                &world.held::<T, I>(),
                world.held::<U, J>(),
                inputs.0,
                inputs.1,
                inputs.2,
                held,
                out,
            )
                && world_after == world.holding::<U, J>(held);
        lemma_effect_pmppp(
            step.f,
            &world.held::<T, I>(),
            world.held::<U, J>(),
            inputs.0,
            inputs.1,
            inputs.2,
            held,
            out,
        );
        assert(promise(
            (world.held::<T, I>(), world.held::<U, J>(), *inputs.0, *inputs.1, *inputs.2),
            (held,),
            out,
        ));
    }
}

/// What a function of two resources promises, its step promises of what the world holds.
pub proof fn lemma_merge3_resmut_res<
    R,
    T,
    I,
    U,
    J,
    A,
    B,
    D,
    Out,
    F: FnMut(&mut T, &U, &A, &B, &D) -> Out,
>(
    step: MergeStep<F, (ResMut<T, I>, Res<U, J>)>,
    promise: spec_fn((T, U, A, B, D), (T,), Out) -> bool,
    world: World<R>,
    inputs: (&A, &B, &D),
    after: MergeStep<F, (ResMut<T, I>, Res<U, J>)>,
    world_after: World<R>,
    out: Out,
) where R: Apart<U, J, T, I>
    requires
        forall|a0: &mut T, a1: &U, a2: &A, a3: &B, a4: &D, o: Out|
            #[trigger] call_ensures(step.f, (a0, a1, a2, a3, a4), o)
                ==> promise((*a0, *a1, *a2, *a3, *a4), (*final(a0),), o),
    ensures
        (forall|a0: &mut T|
            *a0 == world.held::<T, I>()
                ==> #[trigger] call_requires(
                    step.f,
                    (a0, &world.held::<U, J>(), inputs.0, inputs.1, inputs.2),
                )) ==> MergeStepCall::<R, (&A, &B, &D), Out>::call_pre(&step, world, inputs),
        MergeStepCall::<R, (&A, &B, &D), Out>::call_post(
            &step,
            world,
            inputs,
            after,
            world_after,
            out,
        )
            ==> {
            &&& after == step
            &&& exists|held: T|
                #[trigger] promise(
                    (world.held::<T, I>(), world.held::<U, J>(), *inputs.0, *inputs.1, *inputs.2),
                    (held,),
                    out,
                )
                    && world_after == world.holding::<T, I>(held)
        },
{
    if MergeStepCall::<R, (&A, &B, &D), Out>::call_post(
        &step,
        world,
        inputs,
        after,
        world_after,
        out,
    ) {
        let held = choose|held: T|
            #[trigger] effect_mpppp(
                step.f,
                world.held::<T, I>(),
                &world.held::<U, J>(),
                inputs.0,
                inputs.1,
                inputs.2,
                held,
                out,
            )
                && world_after == world.holding::<T, I>(held);
        lemma_effect_mpppp(
            step.f,
            world.held::<T, I>(),
            &world.held::<U, J>(),
            inputs.0,
            inputs.1,
            inputs.2,
            held,
            out,
        );
        assert(promise(
            (world.held::<T, I>(), world.held::<U, J>(), *inputs.0, *inputs.1, *inputs.2),
            (held,),
            out,
        ));
    }
}

/// What a function of two resources promises, its step promises of what the world holds.
pub proof fn lemma_merge3_resmut_resmut<
    R,
    T,
    I,
    U,
    J,
    A,
    B,
    D,
    Out,
    F: FnMut(&mut T, &mut U, &A, &B, &D) -> Out,
>(
    step: MergeStep<F, (ResMut<T, I>, ResMut<U, J>)>,
    promise: spec_fn((T, U, A, B, D), (T, U), Out) -> bool,
    world: World<R>,
    inputs: (&A, &B, &D),
    after: MergeStep<F, (ResMut<T, I>, ResMut<U, J>)>,
    world_after: World<R>,
    out: Out,
) where R: Apart<T, I, U, J>
    requires
        forall|a0: &mut T, a1: &mut U, a2: &A, a3: &B, a4: &D, o: Out|
            #[trigger] call_ensures(step.f, (a0, a1, a2, a3, a4), o)
                ==> promise((*a0, *a1, *a2, *a3, *a4), (*final(a0), *final(a1)), o),
    ensures
        (forall|a0: &mut T, a1: &mut U|
            *a0 == world.held::<T, I>() && *a1 == world.held::<U, J>()
                ==> #[trigger] call_requires(
                    step.f,
                    (a0, a1, inputs.0, inputs.1, inputs.2),
                )) ==> MergeStepCall::<R, (&A, &B, &D), Out>::call_pre(&step, world, inputs),
        MergeStepCall::<R, (&A, &B, &D), Out>::call_post(
            &step,
            world,
            inputs,
            after,
            world_after,
            out,
        )
            ==> {
            &&& after == step
            &&& exists|held: T, other: U|
                #[trigger] promise(
                    (world.held::<T, I>(), world.held::<U, J>(), *inputs.0, *inputs.1, *inputs.2),
                    (held, other),
                    out,
                )
                    && world_after == world.holding::<T, I>(held).holding::<U, J>(other)
        },
{
    if MergeStepCall::<R, (&A, &B, &D), Out>::call_post(
        &step,
        world,
        inputs,
        after,
        world_after,
        out,
    ) {
        let (held, other) = choose|held: T, other: U|
            #[trigger] effect_mmppp(
                step.f,
                world.held::<T, I>(),
                world.held::<U, J>(),
                inputs.0,
                inputs.1,
                inputs.2,
                held,
                other,
                out,
            )
                && world_after == world.holding::<T, I>(held).holding::<U, J>(other);
        lemma_effect_mmppp(
            step.f,
            world.held::<T, I>(),
            world.held::<U, J>(),
            inputs.0,
            inputs.1,
            inputs.2,
            held,
            other,
            out,
        );
        assert(promise(
            (world.held::<T, I>(), world.held::<U, J>(), *inputs.0, *inputs.1, *inputs.2),
            (held, other),
            out,
        ));
    }
}

/// What a function of three resources promises, its step promises of what the world holds.
pub proof fn lemma_merge3_res_res_res<
    R,
    T,
    I,
    U,
    J,
    V,
    K,
    A,
    B,
    D,
    Out,
    F: FnMut(&T, &U, &V, &A, &B, &D) -> Out,
>(
    step: MergeStep<F, (Res<T, I>, Res<U, J>, Res<V, K>)>,
    promise: spec_fn((T, U, V, A, B, D), (), Out) -> bool,
    world: World<R>,
    inputs: (&A, &B, &D),
    after: MergeStep<F, (Res<T, I>, Res<U, J>, Res<V, K>)>,
    world_after: World<R>,
    out: Out,
) where R: Resource<T, I> + Resource<U, J> + Resource<V, K>
    requires
        forall|a0: &T, a1: &U, a2: &V, a3: &A, a4: &B, a5: &D, o: Out|
            #[trigger] call_ensures(step.f, (a0, a1, a2, a3, a4, a5), o)
                ==> promise((*a0, *a1, *a2, *a3, *a4, *a5), (), o),
    ensures
        call_requires(
            step.f,
            (
                &world.held::<T, I>(),
                &world.held::<U, J>(),
                &world.held::<V, K>(),
                inputs.0,
                inputs.1,
                inputs.2,
            ),
        )
            ==> MergeStepCall::<R, (&A, &B, &D), Out>::call_pre(&step, world, inputs),
        MergeStepCall::<R, (&A, &B, &D), Out>::call_post(
            &step,
            world,
            inputs,
            after,
            world_after,
            out,
        )
            ==> {
            &&& after == step
            &&& world_after == world
            &&& promise(
                (
                    world.held::<T, I>(),
                    world.held::<U, J>(),
                    world.held::<V, K>(),
                    *inputs.0,
                    *inputs.1,
                    *inputs.2,
                ),
                (),
                out,
            )
        },
{
}

/// What a function of three resources promises, its step promises of what the world holds.
pub proof fn lemma_merge3_res_res_resmut<
    R,
    T,
    I,
    U,
    J,
    V,
    K,
    A,
    B,
    D,
    Out,
    F: FnMut(&T, &U, &mut V, &A, &B, &D) -> Out,
>(
    step: MergeStep<F, (Res<T, I>, Res<U, J>, ResMut<V, K>)>,
    promise: spec_fn((T, U, V, A, B, D), (V,), Out) -> bool,
    world: World<R>,
    inputs: (&A, &B, &D),
    after: MergeStep<F, (Res<T, I>, Res<U, J>, ResMut<V, K>)>,
    world_after: World<R>,
    out: Out,
) where R: Apart3<T, I, U, J, V, K>
    requires
        forall|a0: &T, a1: &U, a2: &mut V, a3: &A, a4: &B, a5: &D, o: Out|
            #[trigger] call_ensures(step.f, (a0, a1, a2, a3, a4, a5), o)
                ==> promise((*a0, *a1, *a2, *a3, *a4, *a5), (*final(a2),), o),
    ensures
        (forall|a2: &mut V|
            *a2 == world.held::<V, K>()
                ==> #[trigger] call_requires(
                    step.f,
                    (
                        &world.held::<T, I>(),
                        &world.held::<U, J>(),
                        a2,
                        inputs.0,
                        inputs.1,
                        inputs.2,
                    ),
                )) ==> MergeStepCall::<R, (&A, &B, &D), Out>::call_pre(&step, world, inputs),
        MergeStepCall::<R, (&A, &B, &D), Out>::call_post(
            &step,
            world,
            inputs,
            after,
            world_after,
            out,
        )
            ==> {
            &&& after == step
            &&& exists|held: V|
                #[trigger] promise(
                    (
                        world.held::<T, I>(),
                        world.held::<U, J>(),
                        world.held::<V, K>(),
                        *inputs.0,
                        *inputs.1,
                        *inputs.2,
                    ),
                    (held,),
                    out,
                )
                    && world_after == world.holding::<V, K>(held)
        },
{
    if MergeStepCall::<R, (&A, &B, &D), Out>::call_post(
        &step,
        world,
        inputs,
        after,
        world_after,
        out,
    ) {
        let held = choose|held: V|
            #[trigger] effect_ppmppp(
                step.f,
                &world.held::<T, I>(),
                &world.held::<U, J>(),
                world.held::<V, K>(),
                inputs.0,
                inputs.1,
                inputs.2,
                held,
                out,
            )
                && world_after == world.holding::<V, K>(held);
        lemma_effect_ppmppp(
            step.f,
            &world.held::<T, I>(),
            &world.held::<U, J>(),
            world.held::<V, K>(),
            inputs.0,
            inputs.1,
            inputs.2,
            held,
            out,
        );
        assert(promise(
            (
                world.held::<T, I>(),
                world.held::<U, J>(),
                world.held::<V, K>(),
                *inputs.0,
                *inputs.1,
                *inputs.2,
            ),
            (held,),
            out,
        ));
    }
}

/// What a function of three resources promises, its step promises of what the world holds.
pub proof fn lemma_merge3_res_resmut_res<
    R,
    T,
    I,
    U,
    J,
    V,
    K,
    A,
    B,
    D,
    Out,
    F: FnMut(&T, &mut U, &V, &A, &B, &D) -> Out,
>(
    step: MergeStep<F, (Res<T, I>, ResMut<U, J>, Res<V, K>)>,
    promise: spec_fn((T, U, V, A, B, D), (U,), Out) -> bool,
    world: World<R>,
    inputs: (&A, &B, &D),
    after: MergeStep<F, (Res<T, I>, ResMut<U, J>, Res<V, K>)>,
    world_after: World<R>,
    out: Out,
) where R: Apart3<T, I, V, K, U, J>
    requires
        forall|a0: &T, a1: &mut U, a2: &V, a3: &A, a4: &B, a5: &D, o: Out|
            #[trigger] call_ensures(step.f, (a0, a1, a2, a3, a4, a5), o)
                ==> promise((*a0, *a1, *a2, *a3, *a4, *a5), (*final(a1),), o),
    ensures
        (forall|a1: &mut U|
            *a1 == world.held::<U, J>()
                ==> #[trigger] call_requires(
                    step.f,
                    (
                        &world.held::<T, I>(),
                        a1,
                        &world.held::<V, K>(),
                        inputs.0,
                        inputs.1,
                        inputs.2,
                    ),
                )) ==> MergeStepCall::<R, (&A, &B, &D), Out>::call_pre(&step, world, inputs),
        MergeStepCall::<R, (&A, &B, &D), Out>::call_post(
            &step,
            world,
            inputs,
            after,
            world_after,
            out,
        )
            ==> {
            &&& after == step
            &&& exists|held: U|
                #[trigger] promise(
                    (
                        world.held::<T, I>(),
                        world.held::<U, J>(),
                        world.held::<V, K>(),
                        *inputs.0,
                        *inputs.1,
                        *inputs.2,
                    ),
                    (held,),
                    out,
                )
                    && world_after == world.holding::<U, J>(held)
        },
{
    if MergeStepCall::<R, (&A, &B, &D), Out>::call_post(
        &step,
        world,
        inputs,
        after,
        world_after,
        out,
    ) {
        let held = choose|held: U|
            #[trigger] effect_pmpppp(
                step.f,
                &world.held::<T, I>(),
                world.held::<U, J>(),
                &world.held::<V, K>(),
                inputs.0,
                inputs.1,
                inputs.2,
                held,
                out,
            )
                && world_after == world.holding::<U, J>(held);
        lemma_effect_pmpppp(
            step.f,
            &world.held::<T, I>(),
            world.held::<U, J>(),
            &world.held::<V, K>(),
            inputs.0,
            inputs.1,
            inputs.2,
            held,
            out,
        );
        assert(promise(
            (
                world.held::<T, I>(),
                world.held::<U, J>(),
                world.held::<V, K>(),
                *inputs.0,
                *inputs.1,
                *inputs.2,
            ),
            (held,),
            out,
        ));
    }
}

/// What a function of three resources promises, its step promises of what the world holds.
pub proof fn lemma_merge3_res_resmut_resmut<
    R,
    T,
    I,
    U,
    J,
    V,
    K,
    A,
    B,
    D,
    Out,
    F: FnMut(&T, &mut U, &mut V, &A, &B, &D) -> Out,
>(
    step: MergeStep<F, (Res<T, I>, ResMut<U, J>, ResMut<V, K>)>,
    promise: spec_fn((T, U, V, A, B, D), (U, V), Out) -> bool,
    world: World<R>,
    inputs: (&A, &B, &D),
    after: MergeStep<F, (Res<T, I>, ResMut<U, J>, ResMut<V, K>)>,
    world_after: World<R>,
    out: Out,
) where R: Apart3<T, I, U, J, V, K>
    requires
        forall|a0: &T, a1: &mut U, a2: &mut V, a3: &A, a4: &B, a5: &D, o: Out|
            #[trigger] call_ensures(step.f, (a0, a1, a2, a3, a4, a5), o)
                ==> promise((*a0, *a1, *a2, *a3, *a4, *a5), (*final(a1), *final(a2)), o),
    ensures
        (forall|a1: &mut U, a2: &mut V|
            *a1 == world.held::<U, J>() && *a2 == world.held::<V, K>()
                ==> #[trigger] call_requires(
                    step.f,
                    (&world.held::<T, I>(), a1, a2, inputs.0, inputs.1, inputs.2),
                )) ==> MergeStepCall::<R, (&A, &B, &D), Out>::call_pre(&step, world, inputs),
        MergeStepCall::<R, (&A, &B, &D), Out>::call_post(
            &step,
            world,
            inputs,
            after,
            world_after,
            out,
        )
            ==> {
            &&& after == step
            &&& exists|held: U, other: V|
                #[trigger] promise(
                    (
                        world.held::<T, I>(),
                        world.held::<U, J>(),
                        world.held::<V, K>(),
                        *inputs.0,
                        *inputs.1,
                        *inputs.2,
                    ),
                    (held, other),
                    out,
                )
                    && world_after == world.holding::<U, J>(held).holding::<V, K>(other)
        },
{
    if MergeStepCall::<R, (&A, &B, &D), Out>::call_post(
        &step,
        world,
        inputs,
        after,
        world_after,
        out,
    ) {
        let (held, other) = choose|held: U, other: V|
            #[trigger] effect_pmmppp(
                step.f,
                &world.held::<T, I>(),
                world.held::<U, J>(),
                world.held::<V, K>(),
                inputs.0,
                inputs.1,
                inputs.2,
                held,
                other,
                out,
            )
                && world_after == world.holding::<U, J>(held).holding::<V, K>(other);
        lemma_effect_pmmppp(
            step.f,
            &world.held::<T, I>(),
            world.held::<U, J>(),
            world.held::<V, K>(),
            inputs.0,
            inputs.1,
            inputs.2,
            held,
            other,
            out,
        );
        assert(promise(
            (
                world.held::<T, I>(),
                world.held::<U, J>(),
                world.held::<V, K>(),
                *inputs.0,
                *inputs.1,
                *inputs.2,
            ),
            (held, other),
            out,
        ));
    }
}

/// What a function of three resources promises, its step promises of what the world holds.
pub proof fn lemma_merge3_resmut_res_res<
    R,
    T,
    I,
    U,
    J,
    V,
    K,
    A,
    B,
    D,
    Out,
    F: FnMut(&mut T, &U, &V, &A, &B, &D) -> Out,
>(
    step: MergeStep<F, (ResMut<T, I>, Res<U, J>, Res<V, K>)>,
    promise: spec_fn((T, U, V, A, B, D), (T,), Out) -> bool,
    world: World<R>,
    inputs: (&A, &B, &D),
    after: MergeStep<F, (ResMut<T, I>, Res<U, J>, Res<V, K>)>,
    world_after: World<R>,
    out: Out,
) where R: Apart3<U, J, V, K, T, I>
    requires
        forall|a0: &mut T, a1: &U, a2: &V, a3: &A, a4: &B, a5: &D, o: Out|
            #[trigger] call_ensures(step.f, (a0, a1, a2, a3, a4, a5), o)
                ==> promise((*a0, *a1, *a2, *a3, *a4, *a5), (*final(a0),), o),
    ensures
        (forall|a0: &mut T|
            *a0 == world.held::<T, I>()
                ==> #[trigger] call_requires(
                    step.f,
                    (
                        a0,
                        &world.held::<U, J>(),
                        &world.held::<V, K>(),
                        inputs.0,
                        inputs.1,
                        inputs.2,
                    ),
                )) ==> MergeStepCall::<R, (&A, &B, &D), Out>::call_pre(&step, world, inputs),
        MergeStepCall::<R, (&A, &B, &D), Out>::call_post(
            &step,
            world,
            inputs,
            after,
            world_after,
            out,
        )
            ==> {
            &&& after == step
            &&& exists|held: T|
                #[trigger] promise(
                    (
                        world.held::<T, I>(),
                        world.held::<U, J>(),
                        world.held::<V, K>(),
                        *inputs.0,
                        *inputs.1,
                        *inputs.2,
                    ),
                    (held,),
                    out,
                )
                    && world_after == world.holding::<T, I>(held)
        },
{
    if MergeStepCall::<R, (&A, &B, &D), Out>::call_post(
        &step,
        world,
        inputs,
        after,
        world_after,
        out,
    ) {
        let held = choose|held: T|
            #[trigger] effect_mppppp(
                step.f,
                world.held::<T, I>(),
                &world.held::<U, J>(),
                &world.held::<V, K>(),
                inputs.0,
                inputs.1,
                inputs.2,
                held,
                out,
            )
                && world_after == world.holding::<T, I>(held);
        lemma_effect_mppppp(
            step.f,
            world.held::<T, I>(),
            &world.held::<U, J>(),
            &world.held::<V, K>(),
            inputs.0,
            inputs.1,
            inputs.2,
            held,
            out,
        );
        assert(promise(
            (
                world.held::<T, I>(),
                world.held::<U, J>(),
                world.held::<V, K>(),
                *inputs.0,
                *inputs.1,
                *inputs.2,
            ),
            (held,),
            out,
        ));
    }
}

/// What a function of three resources promises, its step promises of what the world holds.
pub proof fn lemma_merge3_resmut_res_resmut<
    R,
    T,
    I,
    U,
    J,
    V,
    K,
    A,
    B,
    D,
    Out,
    F: FnMut(&mut T, &U, &mut V, &A, &B, &D) -> Out,
>(
    step: MergeStep<F, (ResMut<T, I>, Res<U, J>, ResMut<V, K>)>,
    promise: spec_fn((T, U, V, A, B, D), (T, V), Out) -> bool,
    world: World<R>,
    inputs: (&A, &B, &D),
    after: MergeStep<F, (ResMut<T, I>, Res<U, J>, ResMut<V, K>)>,
    world_after: World<R>,
    out: Out,
) where R: Apart3<U, J, T, I, V, K>
    requires
        forall|a0: &mut T, a1: &U, a2: &mut V, a3: &A, a4: &B, a5: &D, o: Out|
            #[trigger] call_ensures(step.f, (a0, a1, a2, a3, a4, a5), o)
                ==> promise((*a0, *a1, *a2, *a3, *a4, *a5), (*final(a0), *final(a2)), o),
    ensures
        (forall|a0: &mut T, a2: &mut V|
            *a0 == world.held::<T, I>() && *a2 == world.held::<V, K>()
                ==> #[trigger] call_requires(
                    step.f,
                    (a0, &world.held::<U, J>(), a2, inputs.0, inputs.1, inputs.2),
                )) ==> MergeStepCall::<R, (&A, &B, &D), Out>::call_pre(&step, world, inputs),
        MergeStepCall::<R, (&A, &B, &D), Out>::call_post(
            &step,
            world,
            inputs,
            after,
            world_after,
            out,
        )
            ==> {
            &&& after == step
            &&& exists|held: T, other: V|
                #[trigger] promise(
                    (
                        world.held::<T, I>(),
                        world.held::<U, J>(),
                        world.held::<V, K>(),
                        *inputs.0,
                        *inputs.1,
                        *inputs.2,
                    ),
                    (held, other),
                    out,
                )
                    && world_after == world.holding::<T, I>(held).holding::<V, K>(other)
        },
{
    if MergeStepCall::<R, (&A, &B, &D), Out>::call_post(
        &step,
        world,
        inputs,
        after,
        world_after,
        out,
    ) {
        let (held, other) = choose|held: T, other: V|
            #[trigger] effect_mpmppp(
                step.f,
                world.held::<T, I>(),
                &world.held::<U, J>(),
                world.held::<V, K>(),
                inputs.0,
                inputs.1,
                inputs.2,
                held,
                other,
                out,
            )
                && world_after == world.holding::<T, I>(held).holding::<V, K>(other);
        lemma_effect_mpmppp(
            step.f,
            world.held::<T, I>(),
            &world.held::<U, J>(),
            world.held::<V, K>(),
            inputs.0,
            inputs.1,
            inputs.2,
            held,
            other,
            out,
        );
        assert(promise(
            (
                world.held::<T, I>(),
                world.held::<U, J>(),
                world.held::<V, K>(),
                *inputs.0,
                *inputs.1,
                *inputs.2,
            ),
            (held, other),
            out,
        ));
    }
}

/// What a function of three resources promises, its step promises of what the world holds.
pub proof fn lemma_merge3_resmut_resmut_res<
    R,
    T,
    I,
    U,
    J,
    V,
    K,
    A,
    B,
    D,
    Out,
    F: FnMut(&mut T, &mut U, &V, &A, &B, &D) -> Out,
>(
    step: MergeStep<F, (ResMut<T, I>, ResMut<U, J>, Res<V, K>)>,
    promise: spec_fn((T, U, V, A, B, D), (T, U), Out) -> bool,
    world: World<R>,
    inputs: (&A, &B, &D),
    after: MergeStep<F, (ResMut<T, I>, ResMut<U, J>, Res<V, K>)>,
    world_after: World<R>,
    out: Out,
) where R: Apart3<V, K, T, I, U, J>
    requires
        forall|a0: &mut T, a1: &mut U, a2: &V, a3: &A, a4: &B, a5: &D, o: Out|
            #[trigger] call_ensures(step.f, (a0, a1, a2, a3, a4, a5), o)
                ==> promise((*a0, *a1, *a2, *a3, *a4, *a5), (*final(a0), *final(a1)), o),
    ensures
        (forall|a0: &mut T, a1: &mut U|
            *a0 == world.held::<T, I>() && *a1 == world.held::<U, J>()
                ==> #[trigger] call_requires(
                    step.f,
                    (a0, a1, &world.held::<V, K>(), inputs.0, inputs.1, inputs.2),
                )) ==> MergeStepCall::<R, (&A, &B, &D), Out>::call_pre(&step, world, inputs),
        MergeStepCall::<R, (&A, &B, &D), Out>::call_post(
            &step,
            world,
            inputs,
            after,
            world_after,
            out,
        )
            ==> {
            &&& after == step
            &&& exists|held: T, other: U|
                #[trigger] promise(
                    (
                        world.held::<T, I>(),
                        world.held::<U, J>(),
                        world.held::<V, K>(),
                        *inputs.0,
                        *inputs.1,
                        *inputs.2,
                    ),
                    (held, other),
                    out,
                )
                    && world_after == world.holding::<T, I>(held).holding::<U, J>(other)
        },
{
    if MergeStepCall::<R, (&A, &B, &D), Out>::call_post(
        &step,
        world,
        inputs,
        after,
        world_after,
        out,
    ) {
        let (held, other) = choose|held: T, other: U|
            #[trigger] effect_mmpppp(
                step.f,
                world.held::<T, I>(),
                world.held::<U, J>(),
                &world.held::<V, K>(),
                inputs.0,
                inputs.1,
                inputs.2,
                held,
                other,
                out,
            )
                && world_after == world.holding::<T, I>(held).holding::<U, J>(other);
        lemma_effect_mmpppp(
            step.f,
            world.held::<T, I>(),
            world.held::<U, J>(),
            &world.held::<V, K>(),
            inputs.0,
            inputs.1,
            inputs.2,
            held,
            other,
            out,
        );
        assert(promise(
            (
                world.held::<T, I>(),
                world.held::<U, J>(),
                world.held::<V, K>(),
                *inputs.0,
                *inputs.1,
                *inputs.2,
            ),
            (held, other),
            out,
        ));
    }
}

/// What a function of three resources promises, its step promises of what the world holds.
pub proof fn lemma_merge3_resmut_resmut_resmut<
    R,
    T,
    I,
    U,
    J,
    V,
    K,
    A,
    B,
    D,
    Out,
    F: FnMut(&mut T, &mut U, &mut V, &A, &B, &D) -> Out,
>(
    step: MergeStep<F, (ResMut<T, I>, ResMut<U, J>, ResMut<V, K>)>,
    promise: spec_fn((T, U, V, A, B, D), (T, U, V), Out) -> bool,
    world: World<R>,
    inputs: (&A, &B, &D),
    after: MergeStep<F, (ResMut<T, I>, ResMut<U, J>, ResMut<V, K>)>,
    world_after: World<R>,
    out: Out,
) where R: Apart3<T, I, U, J, V, K>
    requires
        forall|a0: &mut T, a1: &mut U, a2: &mut V, a3: &A, a4: &B, a5: &D, o: Out|
            #[trigger] call_ensures(step.f, (a0, a1, a2, a3, a4, a5), o)
                ==> promise(
                    (*a0, *a1, *a2, *a3, *a4, *a5),
                    (*final(a0), *final(a1), *final(a2)),
                    o,
                ),
    ensures
        (forall|a0: &mut T, a1: &mut U, a2: &mut V|
            *a0 == world.held::<T, I>()
                && *a1 == world.held::<U, J>()
                && *a2 == world.held::<V, K>()
                ==> #[trigger] call_requires(
                    step.f,
                    (a0, a1, a2, inputs.0, inputs.1, inputs.2),
                )) ==> MergeStepCall::<R, (&A, &B, &D), Out>::call_pre(&step, world, inputs),
        MergeStepCall::<R, (&A, &B, &D), Out>::call_post(
            &step,
            world,
            inputs,
            after,
            world_after,
            out,
        )
            ==> {
            &&& after == step
            &&& exists|held: T, other: U, last: V|
                #[trigger] promise(
                    (
                        world.held::<T, I>(),
                        world.held::<U, J>(),
                        world.held::<V, K>(),
                        *inputs.0,
                        *inputs.1,
                        *inputs.2,
                    ),
                    (held, other, last),
                    out,
                )
                    && world_after == world.holding::<T, I>(held).holding::<U, J>(other).holding::<V, K>(last)
        },
{
    if MergeStepCall::<R, (&A, &B, &D), Out>::call_post(
        &step,
        world,
        inputs,
        after,
        world_after,
        out,
    ) {
        let (held, other, last) = choose|held: T, other: U, last: V|
            #[trigger] effect_mmmppp(
                step.f,
                world.held::<T, I>(),
                world.held::<U, J>(),
                world.held::<V, K>(),
                inputs.0,
                inputs.1,
                inputs.2,
                held,
                other,
                last,
                out,
            )
                && world_after == world.holding::<T, I>(held).holding::<U, J>(other).holding::<V, K>(last);
        lemma_effect_mmmppp(
            step.f,
            world.held::<T, I>(),
            world.held::<U, J>(),
            world.held::<V, K>(),
            inputs.0,
            inputs.1,
            inputs.2,
            held,
            other,
            last,
            out,
        );
        assert(promise(
            (
                world.held::<T, I>(),
                world.held::<U, J>(),
                world.held::<V, K>(),
                *inputs.0,
                *inputs.1,
                *inputs.2,
            ),
            (held, other, last),
            out,
        ));
    }
}

/// What a function of its input alone promises, its step promises of what the world holds.
pub proof fn lemma_merge4_unit<R, A, B, D, E, Out, F: FnMut(&A, &B, &D, &E) -> Out>(
    step: MergeStep<F, ()>,
    promise: spec_fn((A, B, D, E), (), Out) -> bool,
    world: World<R>,
    inputs: (&A, &B, &D, &E),
    after: MergeStep<F, ()>,
    world_after: World<R>,
    out: Out,
)
    requires
        forall|a0: &A, a1: &B, a2: &D, a3: &E, o: Out|
            #[trigger] call_ensures(step.f, (a0, a1, a2, a3), o)
                ==> promise((*a0, *a1, *a2, *a3), (), o),
    ensures
        call_requires(step.f, (inputs.0, inputs.1, inputs.2, inputs.3))
            ==> MergeStepCall::<R, (&A, &B, &D, &E), Out>::call_pre(&step, world, inputs),
        MergeStepCall::<R, (&A, &B, &D, &E), Out>::call_post(
            &step,
            world,
            inputs,
            after,
            world_after,
            out,
        )
            ==> {
            &&& after == step
            &&& world_after == world
            &&& promise((*inputs.0, *inputs.1, *inputs.2, *inputs.3), (), out)
        },
{
}

/// What a function of one resource promises, its step promises of what the world holds.
pub proof fn lemma_merge4_res<R, T, I, A, B, D, E, Out, F: FnMut(&T, &A, &B, &D, &E) -> Out>(
    step: MergeStep<F, Res<T, I>>,
    promise: spec_fn((T, A, B, D, E), (), Out) -> bool,
    world: World<R>,
    inputs: (&A, &B, &D, &E),
    after: MergeStep<F, Res<T, I>>,
    world_after: World<R>,
    out: Out,
) where R: Resource<T, I>
    requires
        forall|a0: &T, a1: &A, a2: &B, a3: &D, a4: &E, o: Out|
            #[trigger] call_ensures(step.f, (a0, a1, a2, a3, a4), o)
                ==> promise((*a0, *a1, *a2, *a3, *a4), (), o),
    ensures
        call_requires(step.f, (&world.held::<T, I>(), inputs.0, inputs.1, inputs.2, inputs.3))
            ==> MergeStepCall::<R, (&A, &B, &D, &E), Out>::call_pre(&step, world, inputs),
        MergeStepCall::<R, (&A, &B, &D, &E), Out>::call_post(
            &step,
            world,
            inputs,
            after,
            world_after,
            out,
        )
            ==> {
            &&& after == step
            &&& world_after == world
            &&& promise((world.held::<T, I>(), *inputs.0, *inputs.1, *inputs.2, *inputs.3), (), out)
        },
{
}

/// What a function of one resource promises, its step promises of what the world holds.
pub proof fn lemma_merge4_resmut<
    R,
    T,
    I,
    A,
    B,
    D,
    E,
    Out,
    F: FnMut(&mut T, &A, &B, &D, &E) -> Out,
>(
    step: MergeStep<F, ResMut<T, I>>,
    promise: spec_fn((T, A, B, D, E), (T,), Out) -> bool,
    world: World<R>,
    inputs: (&A, &B, &D, &E),
    after: MergeStep<F, ResMut<T, I>>,
    world_after: World<R>,
    out: Out,
) where R: Resource<T, I>
    requires
        forall|a0: &mut T, a1: &A, a2: &B, a3: &D, a4: &E, o: Out|
            #[trigger] call_ensures(step.f, (a0, a1, a2, a3, a4), o)
                ==> promise((*a0, *a1, *a2, *a3, *a4), (*final(a0),), o),
    ensures
        (forall|a0: &mut T|
            *a0 == world.held::<T, I>()
                ==> #[trigger] call_requires(
                    step.f,
                    (a0, inputs.0, inputs.1, inputs.2, inputs.3),
                )) ==> MergeStepCall::<R, (&A, &B, &D, &E), Out>::call_pre(&step, world, inputs),
        MergeStepCall::<R, (&A, &B, &D, &E), Out>::call_post(
            &step,
            world,
            inputs,
            after,
            world_after,
            out,
        )
            ==> {
            &&& after == step
            &&& exists|held: T|
                #[trigger] promise(
                    (world.held::<T, I>(), *inputs.0, *inputs.1, *inputs.2, *inputs.3),
                    (held,),
                    out,
                )
                    && world_after == world.holding::<T, I>(held)
        },
{
    if MergeStepCall::<R, (&A, &B, &D, &E), Out>::call_post(
        &step,
        world,
        inputs,
        after,
        world_after,
        out,
    ) {
        let held = choose|held: T|
            #[trigger] effect_mpppp(
                step.f,
                world.held::<T, I>(),
                inputs.0,
                inputs.1,
                inputs.2,
                inputs.3,
                held,
                out,
            )
                && world_after == world.holding::<T, I>(held);
        lemma_effect_mpppp(
            step.f,
            world.held::<T, I>(),
            inputs.0,
            inputs.1,
            inputs.2,
            inputs.3,
            held,
            out,
        );
        assert(promise(
            (world.held::<T, I>(), *inputs.0, *inputs.1, *inputs.2, *inputs.3),
            (held,),
            out,
        ));
    }
}

/// What a function of two resources promises, its step promises of what the world holds.
pub proof fn lemma_merge4_res_res<
    R,
    T,
    I,
    U,
    J,
    A,
    B,
    D,
    E,
    Out,
    F: FnMut(&T, &U, &A, &B, &D, &E) -> Out,
>(
    step: MergeStep<F, (Res<T, I>, Res<U, J>)>,
    promise: spec_fn((T, U, A, B, D, E), (), Out) -> bool,
    world: World<R>,
    inputs: (&A, &B, &D, &E),
    after: MergeStep<F, (Res<T, I>, Res<U, J>)>,
    world_after: World<R>,
    out: Out,
) where R: Resource<T, I> + Resource<U, J>
    requires
        forall|a0: &T, a1: &U, a2: &A, a3: &B, a4: &D, a5: &E, o: Out|
            #[trigger] call_ensures(step.f, (a0, a1, a2, a3, a4, a5), o)
                ==> promise((*a0, *a1, *a2, *a3, *a4, *a5), (), o),
    ensures
        call_requires(
            step.f,
            (&world.held::<T, I>(), &world.held::<U, J>(), inputs.0, inputs.1, inputs.2, inputs.3),
        )
            ==> MergeStepCall::<R, (&A, &B, &D, &E), Out>::call_pre(&step, world, inputs),
        MergeStepCall::<R, (&A, &B, &D, &E), Out>::call_post(
            &step,
            world,
            inputs,
            after,
            world_after,
            out,
        )
            ==> {
            &&& after == step
            &&& world_after == world
            &&& promise(
                (
                    world.held::<T, I>(),
                    world.held::<U, J>(),
                    *inputs.0,
                    *inputs.1,
                    *inputs.2,
                    *inputs.3,
                ),
                (),
                out,
            )
        },
{
}

/// What a function of two resources promises, its step promises of what the world holds.
pub proof fn lemma_merge4_res_resmut<
    R,
    T,
    I,
    U,
    J,
    A,
    B,
    D,
    E,
    Out,
    F: FnMut(&T, &mut U, &A, &B, &D, &E) -> Out,
>(
    step: MergeStep<F, (Res<T, I>, ResMut<U, J>)>,
    promise: spec_fn((T, U, A, B, D, E), (U,), Out) -> bool,
    world: World<R>,
    inputs: (&A, &B, &D, &E),
    after: MergeStep<F, (Res<T, I>, ResMut<U, J>)>,
    world_after: World<R>,
    out: Out,
) where R: Apart<T, I, U, J>
    requires
        forall|a0: &T, a1: &mut U, a2: &A, a3: &B, a4: &D, a5: &E, o: Out|
            #[trigger] call_ensures(step.f, (a0, a1, a2, a3, a4, a5), o)
                ==> promise((*a0, *a1, *a2, *a3, *a4, *a5), (*final(a1),), o),
    ensures
        (forall|a1: &mut U|
            *a1 == world.held::<U, J>()
                ==> #[trigger] call_requires(
                    step.f,
                    (&world.held::<T, I>(), a1, inputs.0, inputs.1, inputs.2, inputs.3),
                )) ==> MergeStepCall::<R, (&A, &B, &D, &E), Out>::call_pre(&step, world, inputs),
        MergeStepCall::<R, (&A, &B, &D, &E), Out>::call_post(
            &step,
            world,
            inputs,
            after,
            world_after,
            out,
        )
            ==> {
            &&& after == step
            &&& exists|held: U|
                #[trigger] promise(
                    (
                        world.held::<T, I>(),
                        world.held::<U, J>(),
                        *inputs.0,
                        *inputs.1,
                        *inputs.2,
                        *inputs.3,
                    ),
                    (held,),
                    out,
                )
                    && world_after == world.holding::<U, J>(held)
        },
{
    if MergeStepCall::<R, (&A, &B, &D, &E), Out>::call_post(
        &step,
        world,
        inputs,
        after,
        world_after,
        out,
    ) {
        let held = choose|held: U|
            #[trigger] effect_pmpppp(
                step.f,
                &world.held::<T, I>(),
                world.held::<U, J>(),
                inputs.0,
                inputs.1,
                inputs.2,
                inputs.3,
                held,
                out,
            )
                && world_after == world.holding::<U, J>(held);
        lemma_effect_pmpppp(
            step.f,
            &world.held::<T, I>(),
            world.held::<U, J>(),
            inputs.0,
            inputs.1,
            inputs.2,
            inputs.3,
            held,
            out,
        );
        assert(promise(
            (
                world.held::<T, I>(),
                world.held::<U, J>(),
                *inputs.0,
                *inputs.1,
                *inputs.2,
                *inputs.3,
            ),
            (held,),
            out,
        ));
    }
}

/// What a function of two resources promises, its step promises of what the world holds.
pub proof fn lemma_merge4_resmut_res<
    R,
    T,
    I,
    U,
    J,
    A,
    B,
    D,
    E,
    Out,
    F: FnMut(&mut T, &U, &A, &B, &D, &E) -> Out,
>(
    step: MergeStep<F, (ResMut<T, I>, Res<U, J>)>,
    promise: spec_fn((T, U, A, B, D, E), (T,), Out) -> bool,
    world: World<R>,
    inputs: (&A, &B, &D, &E),
    after: MergeStep<F, (ResMut<T, I>, Res<U, J>)>,
    world_after: World<R>,
    out: Out,
) where R: Apart<U, J, T, I>
    requires
        forall|a0: &mut T, a1: &U, a2: &A, a3: &B, a4: &D, a5: &E, o: Out|
            #[trigger] call_ensures(step.f, (a0, a1, a2, a3, a4, a5), o)
                ==> promise((*a0, *a1, *a2, *a3, *a4, *a5), (*final(a0),), o),
    ensures
        (forall|a0: &mut T|
            *a0 == world.held::<T, I>()
                ==> #[trigger] call_requires(
                    step.f,
                    (a0, &world.held::<U, J>(), inputs.0, inputs.1, inputs.2, inputs.3),
                )) ==> MergeStepCall::<R, (&A, &B, &D, &E), Out>::call_pre(&step, world, inputs),
        MergeStepCall::<R, (&A, &B, &D, &E), Out>::call_post(
            &step,
            world,
            inputs,
            after,
            world_after,
            out,
        )
            ==> {
            &&& after == step
            &&& exists|held: T|
                #[trigger] promise(
                    (
                        world.held::<T, I>(),
                        world.held::<U, J>(),
                        *inputs.0,
                        *inputs.1,
                        *inputs.2,
                        *inputs.3,
                    ),
                    (held,),
                    out,
                )
                    && world_after == world.holding::<T, I>(held)
        },
{
    if MergeStepCall::<R, (&A, &B, &D, &E), Out>::call_post(
        &step,
        world,
        inputs,
        after,
        world_after,
        out,
    ) {
        let held = choose|held: T|
            #[trigger] effect_mppppp(
                step.f,
                world.held::<T, I>(),
                &world.held::<U, J>(),
                inputs.0,
                inputs.1,
                inputs.2,
                inputs.3,
                held,
                out,
            )
                && world_after == world.holding::<T, I>(held);
        lemma_effect_mppppp(
            step.f,
            world.held::<T, I>(),
            &world.held::<U, J>(),
            inputs.0,
            inputs.1,
            inputs.2,
            inputs.3,
            held,
            out,
        );
        assert(promise(
            (
                world.held::<T, I>(),
                world.held::<U, J>(),
                *inputs.0,
                *inputs.1,
                *inputs.2,
                *inputs.3,
            ),
            (held,),
            out,
        ));
    }
}

/// What a function of two resources promises, its step promises of what the world holds.
pub proof fn lemma_merge4_resmut_resmut<
    R,
    T,
    I,
    U,
    J,
    A,
    B,
    D,
    E,
    Out,
    F: FnMut(&mut T, &mut U, &A, &B, &D, &E) -> Out,
>(
    step: MergeStep<F, (ResMut<T, I>, ResMut<U, J>)>,
    promise: spec_fn((T, U, A, B, D, E), (T, U), Out) -> bool,
    world: World<R>,
    inputs: (&A, &B, &D, &E),
    after: MergeStep<F, (ResMut<T, I>, ResMut<U, J>)>,
    world_after: World<R>,
    out: Out,
) where R: Apart<T, I, U, J>
    requires
        forall|a0: &mut T, a1: &mut U, a2: &A, a3: &B, a4: &D, a5: &E, o: Out|
            #[trigger] call_ensures(step.f, (a0, a1, a2, a3, a4, a5), o)
                ==> promise((*a0, *a1, *a2, *a3, *a4, *a5), (*final(a0), *final(a1)), o),
    ensures
        (forall|a0: &mut T, a1: &mut U|
            *a0 == world.held::<T, I>() && *a1 == world.held::<U, J>()
                ==> #[trigger] call_requires(
                    step.f,
                    (a0, a1, inputs.0, inputs.1, inputs.2, inputs.3),
                )) ==> MergeStepCall::<R, (&A, &B, &D, &E), Out>::call_pre(&step, world, inputs),
        MergeStepCall::<R, (&A, &B, &D, &E), Out>::call_post(
            &step,
            world,
            inputs,
            after,
            world_after,
            out,
        )
            ==> {
            &&& after == step
            &&& exists|held: T, other: U|
                #[trigger] promise(
                    (
                        world.held::<T, I>(),
                        world.held::<U, J>(),
                        *inputs.0,
                        *inputs.1,
                        *inputs.2,
                        *inputs.3,
                    ),
                    (held, other),
                    out,
                )
                    && world_after == world.holding::<T, I>(held).holding::<U, J>(other)
        },
{
    if MergeStepCall::<R, (&A, &B, &D, &E), Out>::call_post(
        &step,
        world,
        inputs,
        after,
        world_after,
        out,
    ) {
        let (held, other) = choose|held: T, other: U|
            #[trigger] effect_mmpppp(
                step.f,
                world.held::<T, I>(),
                world.held::<U, J>(),
                inputs.0,
                inputs.1,
                inputs.2,
                inputs.3,
                held,
                other,
                out,
            )
                && world_after == world.holding::<T, I>(held).holding::<U, J>(other);
        lemma_effect_mmpppp(
            step.f,
            world.held::<T, I>(),
            world.held::<U, J>(),
            inputs.0,
            inputs.1,
            inputs.2,
            inputs.3,
            held,
            other,
            out,
        );
        assert(promise(
            (
                world.held::<T, I>(),
                world.held::<U, J>(),
                *inputs.0,
                *inputs.1,
                *inputs.2,
                *inputs.3,
            ),
            (held, other),
            out,
        ));
    }
}

/// What a function of three resources promises, its step promises of what the world holds.
pub proof fn lemma_merge4_res_res_res<
    R,
    T,
    I,
    U,
    J,
    V,
    K,
    A,
    B,
    D,
    E,
    Out,
    F: FnMut(&T, &U, &V, &A, &B, &D, &E) -> Out,
>(
    step: MergeStep<F, (Res<T, I>, Res<U, J>, Res<V, K>)>,
    promise: spec_fn((T, U, V, A, B, D, E), (), Out) -> bool,
    world: World<R>,
    inputs: (&A, &B, &D, &E),
    after: MergeStep<F, (Res<T, I>, Res<U, J>, Res<V, K>)>,
    world_after: World<R>,
    out: Out,
) where R: Resource<T, I> + Resource<U, J> + Resource<V, K>
    requires
        forall|a0: &T, a1: &U, a2: &V, a3: &A, a4: &B, a5: &D, a6: &E, o: Out|
            #[trigger] call_ensures(step.f, (a0, a1, a2, a3, a4, a5, a6), o)
                ==> promise((*a0, *a1, *a2, *a3, *a4, *a5, *a6), (), o),
    ensures
        call_requires(
            step.f,
            (
                &world.held::<T, I>(),
                &world.held::<U, J>(),
                &world.held::<V, K>(),
                inputs.0,
                inputs.1,
                inputs.2,
                inputs.3,
            ),
        )
            ==> MergeStepCall::<R, (&A, &B, &D, &E), Out>::call_pre(&step, world, inputs),
        MergeStepCall::<R, (&A, &B, &D, &E), Out>::call_post(
            &step,
            world,
            inputs,
            after,
            world_after,
            out,
        )
            ==> {
            &&& after == step
            &&& world_after == world
            &&& promise(
                (
                    world.held::<T, I>(),
                    world.held::<U, J>(),
                    world.held::<V, K>(),
                    *inputs.0,
                    *inputs.1,
                    *inputs.2,
                    *inputs.3,
                ),
                (),
                out,
            )
        },
{
}

/// What a function of three resources promises, its step promises of what the world holds.
pub proof fn lemma_merge4_res_res_resmut<
    R,
    T,
    I,
    U,
    J,
    V,
    K,
    A,
    B,
    D,
    E,
    Out,
    F: FnMut(&T, &U, &mut V, &A, &B, &D, &E) -> Out,
>(
    step: MergeStep<F, (Res<T, I>, Res<U, J>, ResMut<V, K>)>,
    promise: spec_fn((T, U, V, A, B, D, E), (V,), Out) -> bool,
    world: World<R>,
    inputs: (&A, &B, &D, &E),
    after: MergeStep<F, (Res<T, I>, Res<U, J>, ResMut<V, K>)>,
    world_after: World<R>,
    out: Out,
) where R: Apart3<T, I, U, J, V, K>
    requires
        forall|a0: &T, a1: &U, a2: &mut V, a3: &A, a4: &B, a5: &D, a6: &E, o: Out|
            #[trigger] call_ensures(step.f, (a0, a1, a2, a3, a4, a5, a6), o)
                ==> promise((*a0, *a1, *a2, *a3, *a4, *a5, *a6), (*final(a2),), o),
    ensures
        (forall|a2: &mut V|
            *a2 == world.held::<V, K>()
                ==> #[trigger] call_requires(
                    step.f,
                    (
                        &world.held::<T, I>(),
                        &world.held::<U, J>(),
                        a2,
                        inputs.0,
                        inputs.1,
                        inputs.2,
                        inputs.3,
                    ),
                )) ==> MergeStepCall::<R, (&A, &B, &D, &E), Out>::call_pre(&step, world, inputs),
        MergeStepCall::<R, (&A, &B, &D, &E), Out>::call_post(
            &step,
            world,
            inputs,
            after,
            world_after,
            out,
        )
            ==> {
            &&& after == step
            &&& exists|held: V|
                #[trigger] promise(
                    (
                        world.held::<T, I>(),
                        world.held::<U, J>(),
                        world.held::<V, K>(),
                        *inputs.0,
                        *inputs.1,
                        *inputs.2,
                        *inputs.3,
                    ),
                    (held,),
                    out,
                )
                    && world_after == world.holding::<V, K>(held)
        },
{
    if MergeStepCall::<R, (&A, &B, &D, &E), Out>::call_post(
        &step,
        world,
        inputs,
        after,
        world_after,
        out,
    ) {
        let held = choose|held: V|
            #[trigger] effect_ppmpppp(
                step.f,
                &world.held::<T, I>(),
                &world.held::<U, J>(),
                world.held::<V, K>(),
                inputs.0,
                inputs.1,
                inputs.2,
                inputs.3,
                held,
                out,
            )
                && world_after == world.holding::<V, K>(held);
        lemma_effect_ppmpppp(
            step.f,
            &world.held::<T, I>(),
            &world.held::<U, J>(),
            world.held::<V, K>(),
            inputs.0,
            inputs.1,
            inputs.2,
            inputs.3,
            held,
            out,
        );
        assert(promise(
            (
                world.held::<T, I>(),
                world.held::<U, J>(),
                world.held::<V, K>(),
                *inputs.0,
                *inputs.1,
                *inputs.2,
                *inputs.3,
            ),
            (held,),
            out,
        ));
    }
}

/// What a function of three resources promises, its step promises of what the world holds.
pub proof fn lemma_merge4_res_resmut_res<
    R,
    T,
    I,
    U,
    J,
    V,
    K,
    A,
    B,
    D,
    E,
    Out,
    F: FnMut(&T, &mut U, &V, &A, &B, &D, &E) -> Out,
>(
    step: MergeStep<F, (Res<T, I>, ResMut<U, J>, Res<V, K>)>,
    promise: spec_fn((T, U, V, A, B, D, E), (U,), Out) -> bool,
    world: World<R>,
    inputs: (&A, &B, &D, &E),
    after: MergeStep<F, (Res<T, I>, ResMut<U, J>, Res<V, K>)>,
    world_after: World<R>,
    out: Out,
) where R: Apart3<T, I, V, K, U, J>
    requires
        forall|a0: &T, a1: &mut U, a2: &V, a3: &A, a4: &B, a5: &D, a6: &E, o: Out|
            #[trigger] call_ensures(step.f, (a0, a1, a2, a3, a4, a5, a6), o)
                ==> promise((*a0, *a1, *a2, *a3, *a4, *a5, *a6), (*final(a1),), o),
    ensures
        (forall|a1: &mut U|
            *a1 == world.held::<U, J>()
                ==> #[trigger] call_requires(
                    step.f,
                    (
                        &world.held::<T, I>(),
                        a1,
                        &world.held::<V, K>(),
                        inputs.0,
                        inputs.1,
                        inputs.2,
                        inputs.3,
                    ),
                )) ==> MergeStepCall::<R, (&A, &B, &D, &E), Out>::call_pre(&step, world, inputs),
        MergeStepCall::<R, (&A, &B, &D, &E), Out>::call_post(
            &step,
            world,
            inputs,
            after,
            world_after,
            out,
        )
            ==> {
            &&& after == step
            &&& exists|held: U|
                #[trigger] promise(
                    (
                        world.held::<T, I>(),
                        world.held::<U, J>(),
                        world.held::<V, K>(),
                        *inputs.0,
                        *inputs.1,
                        *inputs.2,
                        *inputs.3,
                    ),
                    (held,),
                    out,
                )
                    && world_after == world.holding::<U, J>(held)
        },
{
    if MergeStepCall::<R, (&A, &B, &D, &E), Out>::call_post(
        &step,
        world,
        inputs,
        after,
        world_after,
        out,
    ) {
        let held = choose|held: U|
            #[trigger] effect_pmppppp(
                step.f,
                &world.held::<T, I>(),
                world.held::<U, J>(),
                &world.held::<V, K>(),
                inputs.0,
                inputs.1,
                inputs.2,
                inputs.3,
                held,
                out,
            )
                && world_after == world.holding::<U, J>(held);
        lemma_effect_pmppppp(
            step.f,
            &world.held::<T, I>(),
            world.held::<U, J>(),
            &world.held::<V, K>(),
            inputs.0,
            inputs.1,
            inputs.2,
            inputs.3,
            held,
            out,
        );
        assert(promise(
            (
                world.held::<T, I>(),
                world.held::<U, J>(),
                world.held::<V, K>(),
                *inputs.0,
                *inputs.1,
                *inputs.2,
                *inputs.3,
            ),
            (held,),
            out,
        ));
    }
}

/// What a function of three resources promises, its step promises of what the world holds.
pub proof fn lemma_merge4_res_resmut_resmut<
    R,
    T,
    I,
    U,
    J,
    V,
    K,
    A,
    B,
    D,
    E,
    Out,
    F: FnMut(&T, &mut U, &mut V, &A, &B, &D, &E) -> Out,
>(
    step: MergeStep<F, (Res<T, I>, ResMut<U, J>, ResMut<V, K>)>,
    promise: spec_fn((T, U, V, A, B, D, E), (U, V), Out) -> bool,
    world: World<R>,
    inputs: (&A, &B, &D, &E),
    after: MergeStep<F, (Res<T, I>, ResMut<U, J>, ResMut<V, K>)>,
    world_after: World<R>,
    out: Out,
) where R: Apart3<T, I, U, J, V, K>
    requires
        forall|a0: &T, a1: &mut U, a2: &mut V, a3: &A, a4: &B, a5: &D, a6: &E, o: Out|
            #[trigger] call_ensures(step.f, (a0, a1, a2, a3, a4, a5, a6), o)
                ==> promise((*a0, *a1, *a2, *a3, *a4, *a5, *a6), (*final(a1), *final(a2)), o),
    ensures
        (forall|a1: &mut U, a2: &mut V|
            *a1 == world.held::<U, J>() && *a2 == world.held::<V, K>()
                ==> #[trigger] call_requires(
                    step.f,
                    (&world.held::<T, I>(), a1, a2, inputs.0, inputs.1, inputs.2, inputs.3),
                )) ==> MergeStepCall::<R, (&A, &B, &D, &E), Out>::call_pre(&step, world, inputs),
        MergeStepCall::<R, (&A, &B, &D, &E), Out>::call_post(
            &step,
            world,
            inputs,
            after,
            world_after,
            out,
        )
            ==> {
            &&& after == step
            &&& exists|held: U, other: V|
                #[trigger] promise(
                    (
                        world.held::<T, I>(),
                        world.held::<U, J>(),
                        world.held::<V, K>(),
                        *inputs.0,
                        *inputs.1,
                        *inputs.2,
                        *inputs.3,
                    ),
                    (held, other),
                    out,
                )
                    && world_after == world.holding::<U, J>(held).holding::<V, K>(other)
        },
{
    if MergeStepCall::<R, (&A, &B, &D, &E), Out>::call_post(
        &step,
        world,
        inputs,
        after,
        world_after,
        out,
    ) {
        let (held, other) = choose|held: U, other: V|
            #[trigger] effect_pmmpppp(
                step.f,
                &world.held::<T, I>(),
                world.held::<U, J>(),
                world.held::<V, K>(),
                inputs.0,
                inputs.1,
                inputs.2,
                inputs.3,
                held,
                other,
                out,
            )
                && world_after == world.holding::<U, J>(held).holding::<V, K>(other);
        lemma_effect_pmmpppp(
            step.f,
            &world.held::<T, I>(),
            world.held::<U, J>(),
            world.held::<V, K>(),
            inputs.0,
            inputs.1,
            inputs.2,
            inputs.3,
            held,
            other,
            out,
        );
        assert(promise(
            (
                world.held::<T, I>(),
                world.held::<U, J>(),
                world.held::<V, K>(),
                *inputs.0,
                *inputs.1,
                *inputs.2,
                *inputs.3,
            ),
            (held, other),
            out,
        ));
    }
}

/// What a function of three resources promises, its step promises of what the world holds.
pub proof fn lemma_merge4_resmut_res_res<
    R,
    T,
    I,
    U,
    J,
    V,
    K,
    A,
    B,
    D,
    E,
    Out,
    F: FnMut(&mut T, &U, &V, &A, &B, &D, &E) -> Out,
>(
    step: MergeStep<F, (ResMut<T, I>, Res<U, J>, Res<V, K>)>,
    promise: spec_fn((T, U, V, A, B, D, E), (T,), Out) -> bool,
    world: World<R>,
    inputs: (&A, &B, &D, &E),
    after: MergeStep<F, (ResMut<T, I>, Res<U, J>, Res<V, K>)>,
    world_after: World<R>,
    out: Out,
) where R: Apart3<U, J, V, K, T, I>
    requires
        forall|a0: &mut T, a1: &U, a2: &V, a3: &A, a4: &B, a5: &D, a6: &E, o: Out|
            #[trigger] call_ensures(step.f, (a0, a1, a2, a3, a4, a5, a6), o)
                ==> promise((*a0, *a1, *a2, *a3, *a4, *a5, *a6), (*final(a0),), o),
    ensures
        (forall|a0: &mut T|
            *a0 == world.held::<T, I>()
                ==> #[trigger] call_requires(
                    step.f,
                    (
                        a0,
                        &world.held::<U, J>(),
                        &world.held::<V, K>(),
                        inputs.0,
                        inputs.1,
                        inputs.2,
                        inputs.3,
                    ),
                )) ==> MergeStepCall::<R, (&A, &B, &D, &E), Out>::call_pre(&step, world, inputs),
        MergeStepCall::<R, (&A, &B, &D, &E), Out>::call_post(
            &step,
            world,
            inputs,
            after,
            world_after,
            out,
        )
            ==> {
            &&& after == step
            &&& exists|held: T|
                #[trigger] promise(
                    (
                        world.held::<T, I>(),
                        world.held::<U, J>(),
                        world.held::<V, K>(),
                        *inputs.0,
                        *inputs.1,
                        *inputs.2,
                        *inputs.3,
                    ),
                    (held,),
                    out,
                )
                    && world_after == world.holding::<T, I>(held)
        },
{
    if MergeStepCall::<R, (&A, &B, &D, &E), Out>::call_post(
        &step,
        world,
        inputs,
        after,
        world_after,
        out,
    ) {
        let held = choose|held: T|
            #[trigger] effect_mpppppp(
                step.f,
                world.held::<T, I>(),
                &world.held::<U, J>(),
                &world.held::<V, K>(),
                inputs.0,
                inputs.1,
                inputs.2,
                inputs.3,
                held,
                out,
            )
                && world_after == world.holding::<T, I>(held);
        lemma_effect_mpppppp(
            step.f,
            world.held::<T, I>(),
            &world.held::<U, J>(),
            &world.held::<V, K>(),
            inputs.0,
            inputs.1,
            inputs.2,
            inputs.3,
            held,
            out,
        );
        assert(promise(
            (
                world.held::<T, I>(),
                world.held::<U, J>(),
                world.held::<V, K>(),
                *inputs.0,
                *inputs.1,
                *inputs.2,
                *inputs.3,
            ),
            (held,),
            out,
        ));
    }
}

/// What a function of three resources promises, its step promises of what the world holds.
pub proof fn lemma_merge4_resmut_res_resmut<
    R,
    T,
    I,
    U,
    J,
    V,
    K,
    A,
    B,
    D,
    E,
    Out,
    F: FnMut(&mut T, &U, &mut V, &A, &B, &D, &E) -> Out,
>(
    step: MergeStep<F, (ResMut<T, I>, Res<U, J>, ResMut<V, K>)>,
    promise: spec_fn((T, U, V, A, B, D, E), (T, V), Out) -> bool,
    world: World<R>,
    inputs: (&A, &B, &D, &E),
    after: MergeStep<F, (ResMut<T, I>, Res<U, J>, ResMut<V, K>)>,
    world_after: World<R>,
    out: Out,
) where R: Apart3<U, J, T, I, V, K>
    requires
        forall|a0: &mut T, a1: &U, a2: &mut V, a3: &A, a4: &B, a5: &D, a6: &E, o: Out|
            #[trigger] call_ensures(step.f, (a0, a1, a2, a3, a4, a5, a6), o)
                ==> promise((*a0, *a1, *a2, *a3, *a4, *a5, *a6), (*final(a0), *final(a2)), o),
    ensures
        (forall|a0: &mut T, a2: &mut V|
            *a0 == world.held::<T, I>() && *a2 == world.held::<V, K>()
                ==> #[trigger] call_requires(
                    step.f,
                    (a0, &world.held::<U, J>(), a2, inputs.0, inputs.1, inputs.2, inputs.3),
                )) ==> MergeStepCall::<R, (&A, &B, &D, &E), Out>::call_pre(&step, world, inputs),
        MergeStepCall::<R, (&A, &B, &D, &E), Out>::call_post(
            &step,
            world,
            inputs,
            after,
            world_after,
            out,
        )
            ==> {
            &&& after == step
            &&& exists|held: T, other: V|
                #[trigger] promise(
                    (
                        world.held::<T, I>(),
                        world.held::<U, J>(),
                        world.held::<V, K>(),
                        *inputs.0,
                        *inputs.1,
                        *inputs.2,
                        *inputs.3,
                    ),
                    (held, other),
                    out,
                )
                    && world_after == world.holding::<T, I>(held).holding::<V, K>(other)
        },
{
    if MergeStepCall::<R, (&A, &B, &D, &E), Out>::call_post(
        &step,
        world,
        inputs,
        after,
        world_after,
        out,
    ) {
        let (held, other) = choose|held: T, other: V|
            #[trigger] effect_mpmpppp(
                step.f,
                world.held::<T, I>(),
                &world.held::<U, J>(),
                world.held::<V, K>(),
                inputs.0,
                inputs.1,
                inputs.2,
                inputs.3,
                held,
                other,
                out,
            )
                && world_after == world.holding::<T, I>(held).holding::<V, K>(other);
        lemma_effect_mpmpppp(
            step.f,
            world.held::<T, I>(),
            &world.held::<U, J>(),
            world.held::<V, K>(),
            inputs.0,
            inputs.1,
            inputs.2,
            inputs.3,
            held,
            other,
            out,
        );
        assert(promise(
            (
                world.held::<T, I>(),
                world.held::<U, J>(),
                world.held::<V, K>(),
                *inputs.0,
                *inputs.1,
                *inputs.2,
                *inputs.3,
            ),
            (held, other),
            out,
        ));
    }
}

/// What a function of three resources promises, its step promises of what the world holds.
pub proof fn lemma_merge4_resmut_resmut_res<
    R,
    T,
    I,
    U,
    J,
    V,
    K,
    A,
    B,
    D,
    E,
    Out,
    F: FnMut(&mut T, &mut U, &V, &A, &B, &D, &E) -> Out,
>(
    step: MergeStep<F, (ResMut<T, I>, ResMut<U, J>, Res<V, K>)>,
    promise: spec_fn((T, U, V, A, B, D, E), (T, U), Out) -> bool,
    world: World<R>,
    inputs: (&A, &B, &D, &E),
    after: MergeStep<F, (ResMut<T, I>, ResMut<U, J>, Res<V, K>)>,
    world_after: World<R>,
    out: Out,
) where R: Apart3<V, K, T, I, U, J>
    requires
        forall|a0: &mut T, a1: &mut U, a2: &V, a3: &A, a4: &B, a5: &D, a6: &E, o: Out|
            #[trigger] call_ensures(step.f, (a0, a1, a2, a3, a4, a5, a6), o)
                ==> promise((*a0, *a1, *a2, *a3, *a4, *a5, *a6), (*final(a0), *final(a1)), o),
    ensures
        (forall|a0: &mut T, a1: &mut U|
            *a0 == world.held::<T, I>() && *a1 == world.held::<U, J>()
                ==> #[trigger] call_requires(
                    step.f,
                    (a0, a1, &world.held::<V, K>(), inputs.0, inputs.1, inputs.2, inputs.3),
                )) ==> MergeStepCall::<R, (&A, &B, &D, &E), Out>::call_pre(&step, world, inputs),
        MergeStepCall::<R, (&A, &B, &D, &E), Out>::call_post(
            &step,
            world,
            inputs,
            after,
            world_after,
            out,
        )
            ==> {
            &&& after == step
            &&& exists|held: T, other: U|
                #[trigger] promise(
                    (
                        world.held::<T, I>(),
                        world.held::<U, J>(),
                        world.held::<V, K>(),
                        *inputs.0,
                        *inputs.1,
                        *inputs.2,
                        *inputs.3,
                    ),
                    (held, other),
                    out,
                )
                    && world_after == world.holding::<T, I>(held).holding::<U, J>(other)
        },
{
    if MergeStepCall::<R, (&A, &B, &D, &E), Out>::call_post(
        &step,
        world,
        inputs,
        after,
        world_after,
        out,
    ) {
        let (held, other) = choose|held: T, other: U|
            #[trigger] effect_mmppppp(
                step.f,
                world.held::<T, I>(),
                world.held::<U, J>(),
                &world.held::<V, K>(),
                inputs.0,
                inputs.1,
                inputs.2,
                inputs.3,
                held,
                other,
                out,
            )
                && world_after == world.holding::<T, I>(held).holding::<U, J>(other);
        lemma_effect_mmppppp(
            step.f,
            world.held::<T, I>(),
            world.held::<U, J>(),
            &world.held::<V, K>(),
            inputs.0,
            inputs.1,
            inputs.2,
            inputs.3,
            held,
            other,
            out,
        );
        assert(promise(
            (
                world.held::<T, I>(),
                world.held::<U, J>(),
                world.held::<V, K>(),
                *inputs.0,
                *inputs.1,
                *inputs.2,
                *inputs.3,
            ),
            (held, other),
            out,
        ));
    }
}

/// What a function of three resources promises, its step promises of what the world holds.
pub proof fn lemma_merge4_resmut_resmut_resmut<
    R,
    T,
    I,
    U,
    J,
    V,
    K,
    A,
    B,
    D,
    E,
    Out,
    F: FnMut(&mut T, &mut U, &mut V, &A, &B, &D, &E) -> Out,
>(
    step: MergeStep<F, (ResMut<T, I>, ResMut<U, J>, ResMut<V, K>)>,
    promise: spec_fn((T, U, V, A, B, D, E), (T, U, V), Out) -> bool,
    world: World<R>,
    inputs: (&A, &B, &D, &E),
    after: MergeStep<F, (ResMut<T, I>, ResMut<U, J>, ResMut<V, K>)>,
    world_after: World<R>,
    out: Out,
) where R: Apart3<T, I, U, J, V, K>
    requires
        forall|a0: &mut T, a1: &mut U, a2: &mut V, a3: &A, a4: &B, a5: &D, a6: &E, o: Out|
            #[trigger] call_ensures(step.f, (a0, a1, a2, a3, a4, a5, a6), o)
                ==> promise(
                    (*a0, *a1, *a2, *a3, *a4, *a5, *a6),
                    (*final(a0), *final(a1), *final(a2)),
                    o,
                ),
    ensures
        (forall|a0: &mut T, a1: &mut U, a2: &mut V|
            *a0 == world.held::<T, I>()
                && *a1 == world.held::<U, J>()
                && *a2 == world.held::<V, K>()
                ==> #[trigger] call_requires(
                    step.f,
                    (a0, a1, a2, inputs.0, inputs.1, inputs.2, inputs.3),
                )) ==> MergeStepCall::<R, (&A, &B, &D, &E), Out>::call_pre(&step, world, inputs),
        MergeStepCall::<R, (&A, &B, &D, &E), Out>::call_post(
            &step,
            world,
            inputs,
            after,
            world_after,
            out,
        )
            ==> {
            &&& after == step
            &&& exists|held: T, other: U, last: V|
                #[trigger] promise(
                    (
                        world.held::<T, I>(),
                        world.held::<U, J>(),
                        world.held::<V, K>(),
                        *inputs.0,
                        *inputs.1,
                        *inputs.2,
                        *inputs.3,
                    ),
                    (held, other, last),
                    out,
                )
                    && world_after == world.holding::<T, I>(held).holding::<U, J>(other).holding::<V, K>(last)
        },
{
    if MergeStepCall::<R, (&A, &B, &D, &E), Out>::call_post(
        &step,
        world,
        inputs,
        after,
        world_after,
        out,
    ) {
        let (held, other, last) = choose|held: T, other: U, last: V|
            #[trigger] effect_mmmpppp(
                step.f,
                world.held::<T, I>(),
                world.held::<U, J>(),
                world.held::<V, K>(),
                inputs.0,
                inputs.1,
                inputs.2,
                inputs.3,
                held,
                other,
                last,
                out,
            )
                && world_after == world.holding::<T, I>(held).holding::<U, J>(other).holding::<V, K>(last);
        lemma_effect_mmmpppp(
            step.f,
            world.held::<T, I>(),
            world.held::<U, J>(),
            world.held::<V, K>(),
            inputs.0,
            inputs.1,
            inputs.2,
            inputs.3,
            held,
            other,
            last,
            out,
        );
        assert(promise(
            (
                world.held::<T, I>(),
                world.held::<U, J>(),
                world.held::<V, K>(),
                *inputs.0,
                *inputs.1,
                *inputs.2,
                *inputs.3,
            ),
            (held, other, last),
            out,
        ));
    }
}

/// What a function of its input alone promises, its step promises of what the world holds.
pub proof fn lemma_merge5_unit<R, A, B, D, E, G, Out, F: FnMut(&A, &B, &D, &E, &G) -> Out>(
    step: MergeStep<F, ()>,
    promise: spec_fn((A, B, D, E, G), (), Out) -> bool,
    world: World<R>,
    inputs: (&A, &B, &D, &E, &G),
    after: MergeStep<F, ()>,
    world_after: World<R>,
    out: Out,
)
    requires
        forall|a0: &A, a1: &B, a2: &D, a3: &E, a4: &G, o: Out|
            #[trigger] call_ensures(step.f, (a0, a1, a2, a3, a4), o)
                ==> promise((*a0, *a1, *a2, *a3, *a4), (), o),
    ensures
        call_requires(step.f, (inputs.0, inputs.1, inputs.2, inputs.3, inputs.4))
            ==> MergeStepCall::<R, (&A, &B, &D, &E, &G), Out>::call_pre(&step, world, inputs),
        MergeStepCall::<R, (&A, &B, &D, &E, &G), Out>::call_post(
            &step,
            world,
            inputs,
            after,
            world_after,
            out,
        )
            ==> {
            &&& after == step
            &&& world_after == world
            &&& promise((*inputs.0, *inputs.1, *inputs.2, *inputs.3, *inputs.4), (), out)
        },
{
}

/// What a function of one resource promises, its step promises of what the world holds.
pub proof fn lemma_merge5_res<
    R,
    T,
    I,
    A,
    B,
    D,
    E,
    G,
    Out,
    F: FnMut(&T, &A, &B, &D, &E, &G) -> Out,
>(
    step: MergeStep<F, Res<T, I>>,
    promise: spec_fn((T, A, B, D, E, G), (), Out) -> bool,
    world: World<R>,
    inputs: (&A, &B, &D, &E, &G),
    after: MergeStep<F, Res<T, I>>,
    world_after: World<R>,
    out: Out,
) where R: Resource<T, I>
    requires
        forall|a0: &T, a1: &A, a2: &B, a3: &D, a4: &E, a5: &G, o: Out|
            #[trigger] call_ensures(step.f, (a0, a1, a2, a3, a4, a5), o)
                ==> promise((*a0, *a1, *a2, *a3, *a4, *a5), (), o),
    ensures
        call_requires(
            step.f,
            (&world.held::<T, I>(), inputs.0, inputs.1, inputs.2, inputs.3, inputs.4),
        )
            ==> MergeStepCall::<R, (&A, &B, &D, &E, &G), Out>::call_pre(&step, world, inputs),
        MergeStepCall::<R, (&A, &B, &D, &E, &G), Out>::call_post(
            &step,
            world,
            inputs,
            after,
            world_after,
            out,
        )
            ==> {
            &&& after == step
            &&& world_after == world
            &&& promise(
                (world.held::<T, I>(), *inputs.0, *inputs.1, *inputs.2, *inputs.3, *inputs.4),
                (),
                out,
            )
        },
{
}

/// What a function of one resource promises, its step promises of what the world holds.
pub proof fn lemma_merge5_resmut<
    R,
    T,
    I,
    A,
    B,
    D,
    E,
    G,
    Out,
    F: FnMut(&mut T, &A, &B, &D, &E, &G) -> Out,
>(
    step: MergeStep<F, ResMut<T, I>>,
    promise: spec_fn((T, A, B, D, E, G), (T,), Out) -> bool,
    world: World<R>,
    inputs: (&A, &B, &D, &E, &G),
    after: MergeStep<F, ResMut<T, I>>,
    world_after: World<R>,
    out: Out,
) where R: Resource<T, I>
    requires
        forall|a0: &mut T, a1: &A, a2: &B, a3: &D, a4: &E, a5: &G, o: Out|
            #[trigger] call_ensures(step.f, (a0, a1, a2, a3, a4, a5), o)
                ==> promise((*a0, *a1, *a2, *a3, *a4, *a5), (*final(a0),), o),
    ensures
        (forall|a0: &mut T|
            *a0 == world.held::<T, I>()
                ==> #[trigger] call_requires(
                    step.f,
                    (a0, inputs.0, inputs.1, inputs.2, inputs.3, inputs.4),
                )) ==> MergeStepCall::<R, (&A, &B, &D, &E, &G), Out>::call_pre(&step, world, inputs),
        MergeStepCall::<R, (&A, &B, &D, &E, &G), Out>::call_post(
            &step,
            world,
            inputs,
            after,
            world_after,
            out,
        )
            ==> {
            &&& after == step
            &&& exists|held: T|
                #[trigger] promise(
                    (world.held::<T, I>(), *inputs.0, *inputs.1, *inputs.2, *inputs.3, *inputs.4),
                    (held,),
                    out,
                )
                    && world_after == world.holding::<T, I>(held)
        },
{
    if MergeStepCall::<R, (&A, &B, &D, &E, &G), Out>::call_post(
        &step,
        world,
        inputs,
        after,
        world_after,
        out,
    ) {
        let held = choose|held: T|
            #[trigger] effect_mppppp(
                step.f,
                world.held::<T, I>(),
                inputs.0,
                inputs.1,
                inputs.2,
                inputs.3,
                inputs.4,
                held,
                out,
            )
                && world_after == world.holding::<T, I>(held);
        lemma_effect_mppppp(
            step.f,
            world.held::<T, I>(),
            inputs.0,
            inputs.1,
            inputs.2,
            inputs.3,
            inputs.4,
            held,
            out,
        );
        assert(promise(
            (world.held::<T, I>(), *inputs.0, *inputs.1, *inputs.2, *inputs.3, *inputs.4),
            (held,),
            out,
        ));
    }
}

/// What a function of two resources promises, its step promises of what the world holds.
pub proof fn lemma_merge5_res_res<
    R,
    T,
    I,
    U,
    J,
    A,
    B,
    D,
    E,
    G,
    Out,
    F: FnMut(&T, &U, &A, &B, &D, &E, &G) -> Out,
>(
    step: MergeStep<F, (Res<T, I>, Res<U, J>)>,
    promise: spec_fn((T, U, A, B, D, E, G), (), Out) -> bool,
    world: World<R>,
    inputs: (&A, &B, &D, &E, &G),
    after: MergeStep<F, (Res<T, I>, Res<U, J>)>,
    world_after: World<R>,
    out: Out,
) where R: Resource<T, I> + Resource<U, J>
    requires
        forall|a0: &T, a1: &U, a2: &A, a3: &B, a4: &D, a5: &E, a6: &G, o: Out|
            #[trigger] call_ensures(step.f, (a0, a1, a2, a3, a4, a5, a6), o)
                ==> promise((*a0, *a1, *a2, *a3, *a4, *a5, *a6), (), o),
    ensures
        call_requires(
            step.f,
            (
                &world.held::<T, I>(),
                &world.held::<U, J>(),
                inputs.0,
                inputs.1,
                inputs.2,
                inputs.3,
                inputs.4,
            ),
        )
            ==> MergeStepCall::<R, (&A, &B, &D, &E, &G), Out>::call_pre(&step, world, inputs),
        MergeStepCall::<R, (&A, &B, &D, &E, &G), Out>::call_post(
            &step,
            world,
            inputs,
            after,
            world_after,
            out,
        )
            ==> {
            &&& after == step
            &&& world_after == world
            &&& promise(
                (
                    world.held::<T, I>(),
                    world.held::<U, J>(),
                    *inputs.0,
                    *inputs.1,
                    *inputs.2,
                    *inputs.3,
                    *inputs.4,
                ),
                (),
                out,
            )
        },
{
}

/// What a function of two resources promises, its step promises of what the world holds.
pub proof fn lemma_merge5_res_resmut<
    R,
    T,
    I,
    U,
    J,
    A,
    B,
    D,
    E,
    G,
    Out,
    F: FnMut(&T, &mut U, &A, &B, &D, &E, &G) -> Out,
>(
    step: MergeStep<F, (Res<T, I>, ResMut<U, J>)>,
    promise: spec_fn((T, U, A, B, D, E, G), (U,), Out) -> bool,
    world: World<R>,
    inputs: (&A, &B, &D, &E, &G),
    after: MergeStep<F, (Res<T, I>, ResMut<U, J>)>,
    world_after: World<R>,
    out: Out,
) where R: Apart<T, I, U, J>
    requires
        forall|a0: &T, a1: &mut U, a2: &A, a3: &B, a4: &D, a5: &E, a6: &G, o: Out|
            #[trigger] call_ensures(step.f, (a0, a1, a2, a3, a4, a5, a6), o)
                ==> promise((*a0, *a1, *a2, *a3, *a4, *a5, *a6), (*final(a1),), o),
    ensures
        (forall|a1: &mut U|
            *a1 == world.held::<U, J>()
                ==> #[trigger] call_requires(
                    step.f,
                    (&world.held::<T, I>(), a1, inputs.0, inputs.1, inputs.2, inputs.3, inputs.4),
                )) ==> MergeStepCall::<R, (&A, &B, &D, &E, &G), Out>::call_pre(&step, world, inputs),
        MergeStepCall::<R, (&A, &B, &D, &E, &G), Out>::call_post(
            &step,
            world,
            inputs,
            after,
            world_after,
            out,
        )
            ==> {
            &&& after == step
            &&& exists|held: U|
                #[trigger] promise(
                    (
                        world.held::<T, I>(),
                        world.held::<U, J>(),
                        *inputs.0,
                        *inputs.1,
                        *inputs.2,
                        *inputs.3,
                        *inputs.4,
                    ),
                    (held,),
                    out,
                )
                    && world_after == world.holding::<U, J>(held)
        },
{
    if MergeStepCall::<R, (&A, &B, &D, &E, &G), Out>::call_post(
        &step,
        world,
        inputs,
        after,
        world_after,
        out,
    ) {
        let held = choose|held: U|
            #[trigger] effect_pmppppp(
                step.f,
                &world.held::<T, I>(),
                world.held::<U, J>(),
                inputs.0,
                inputs.1,
                inputs.2,
                inputs.3,
                inputs.4,
                held,
                out,
            )
                && world_after == world.holding::<U, J>(held);
        lemma_effect_pmppppp(
            step.f,
            &world.held::<T, I>(),
            world.held::<U, J>(),
            inputs.0,
            inputs.1,
            inputs.2,
            inputs.3,
            inputs.4,
            held,
            out,
        );
        assert(promise(
            (
                world.held::<T, I>(),
                world.held::<U, J>(),
                *inputs.0,
                *inputs.1,
                *inputs.2,
                *inputs.3,
                *inputs.4,
            ),
            (held,),
            out,
        ));
    }
}

/// What a function of two resources promises, its step promises of what the world holds.
pub proof fn lemma_merge5_resmut_res<
    R,
    T,
    I,
    U,
    J,
    A,
    B,
    D,
    E,
    G,
    Out,
    F: FnMut(&mut T, &U, &A, &B, &D, &E, &G) -> Out,
>(
    step: MergeStep<F, (ResMut<T, I>, Res<U, J>)>,
    promise: spec_fn((T, U, A, B, D, E, G), (T,), Out) -> bool,
    world: World<R>,
    inputs: (&A, &B, &D, &E, &G),
    after: MergeStep<F, (ResMut<T, I>, Res<U, J>)>,
    world_after: World<R>,
    out: Out,
) where R: Apart<U, J, T, I>
    requires
        forall|a0: &mut T, a1: &U, a2: &A, a3: &B, a4: &D, a5: &E, a6: &G, o: Out|
            #[trigger] call_ensures(step.f, (a0, a1, a2, a3, a4, a5, a6), o)
                ==> promise((*a0, *a1, *a2, *a3, *a4, *a5, *a6), (*final(a0),), o),
    ensures
        (forall|a0: &mut T|
            *a0 == world.held::<T, I>()
                ==> #[trigger] call_requires(
                    step.f,
                    (a0, &world.held::<U, J>(), inputs.0, inputs.1, inputs.2, inputs.3, inputs.4),
                )) ==> MergeStepCall::<R, (&A, &B, &D, &E, &G), Out>::call_pre(&step, world, inputs),
        MergeStepCall::<R, (&A, &B, &D, &E, &G), Out>::call_post(
            &step,
            world,
            inputs,
            after,
            world_after,
            out,
        )
            ==> {
            &&& after == step
            &&& exists|held: T|
                #[trigger] promise(
                    (
                        world.held::<T, I>(),
                        world.held::<U, J>(),
                        *inputs.0,
                        *inputs.1,
                        *inputs.2,
                        *inputs.3,
                        *inputs.4,
                    ),
                    (held,),
                    out,
                )
                    && world_after == world.holding::<T, I>(held)
        },
{
    if MergeStepCall::<R, (&A, &B, &D, &E, &G), Out>::call_post(
        &step,
        world,
        inputs,
        after,
        world_after,
        out,
    ) {
        let held = choose|held: T|
            #[trigger] effect_mpppppp(
                step.f,
                world.held::<T, I>(),
                &world.held::<U, J>(),
                inputs.0,
                inputs.1,
                inputs.2,
                inputs.3,
                inputs.4,
                held,
                out,
            )
                && world_after == world.holding::<T, I>(held);
        lemma_effect_mpppppp(
            step.f,
            world.held::<T, I>(),
            &world.held::<U, J>(),
            inputs.0,
            inputs.1,
            inputs.2,
            inputs.3,
            inputs.4,
            held,
            out,
        );
        assert(promise(
            (
                world.held::<T, I>(),
                world.held::<U, J>(),
                *inputs.0,
                *inputs.1,
                *inputs.2,
                *inputs.3,
                *inputs.4,
            ),
            (held,),
            out,
        ));
    }
}

/// What a function of two resources promises, its step promises of what the world holds.
pub proof fn lemma_merge5_resmut_resmut<
    R,
    T,
    I,
    U,
    J,
    A,
    B,
    D,
    E,
    G,
    Out,
    F: FnMut(&mut T, &mut U, &A, &B, &D, &E, &G) -> Out,
>(
    step: MergeStep<F, (ResMut<T, I>, ResMut<U, J>)>,
    promise: spec_fn((T, U, A, B, D, E, G), (T, U), Out) -> bool,
    world: World<R>,
    inputs: (&A, &B, &D, &E, &G),
    after: MergeStep<F, (ResMut<T, I>, ResMut<U, J>)>,
    world_after: World<R>,
    out: Out,
) where R: Apart<T, I, U, J>
    requires
        forall|a0: &mut T, a1: &mut U, a2: &A, a3: &B, a4: &D, a5: &E, a6: &G, o: Out|
            #[trigger] call_ensures(step.f, (a0, a1, a2, a3, a4, a5, a6), o)
                ==> promise((*a0, *a1, *a2, *a3, *a4, *a5, *a6), (*final(a0), *final(a1)), o),
    ensures
        (forall|a0: &mut T, a1: &mut U|
            *a0 == world.held::<T, I>() && *a1 == world.held::<U, J>()
                ==> #[trigger] call_requires(
                    step.f,
                    (a0, a1, inputs.0, inputs.1, inputs.2, inputs.3, inputs.4),
                )) ==> MergeStepCall::<R, (&A, &B, &D, &E, &G), Out>::call_pre(&step, world, inputs),
        MergeStepCall::<R, (&A, &B, &D, &E, &G), Out>::call_post(
            &step,
            world,
            inputs,
            after,
            world_after,
            out,
        )
            ==> {
            &&& after == step
            &&& exists|held: T, other: U|
                #[trigger] promise(
                    (
                        world.held::<T, I>(),
                        world.held::<U, J>(),
                        *inputs.0,
                        *inputs.1,
                        *inputs.2,
                        *inputs.3,
                        *inputs.4,
                    ),
                    (held, other),
                    out,
                )
                    && world_after == world.holding::<T, I>(held).holding::<U, J>(other)
        },
{
    if MergeStepCall::<R, (&A, &B, &D, &E, &G), Out>::call_post(
        &step,
        world,
        inputs,
        after,
        world_after,
        out,
    ) {
        let (held, other) = choose|held: T, other: U|
            #[trigger] effect_mmppppp(
                step.f,
                world.held::<T, I>(),
                world.held::<U, J>(),
                inputs.0,
                inputs.1,
                inputs.2,
                inputs.3,
                inputs.4,
                held,
                other,
                out,
            )
                && world_after == world.holding::<T, I>(held).holding::<U, J>(other);
        lemma_effect_mmppppp(
            step.f,
            world.held::<T, I>(),
            world.held::<U, J>(),
            inputs.0,
            inputs.1,
            inputs.2,
            inputs.3,
            inputs.4,
            held,
            other,
            out,
        );
        assert(promise(
            (
                world.held::<T, I>(),
                world.held::<U, J>(),
                *inputs.0,
                *inputs.1,
                *inputs.2,
                *inputs.3,
                *inputs.4,
            ),
            (held, other),
            out,
        ));
    }
}

/// What a function of three resources promises, its step promises of what the world holds.
pub proof fn lemma_merge5_res_res_res<
    R,
    T,
    I,
    U,
    J,
    V,
    K,
    A,
    B,
    D,
    E,
    G,
    Out,
    F: FnMut(&T, &U, &V, &A, &B, &D, &E, &G) -> Out,
>(
    step: MergeStep<F, (Res<T, I>, Res<U, J>, Res<V, K>)>,
    promise: spec_fn((T, U, V, A, B, D, E, G), (), Out) -> bool,
    world: World<R>,
    inputs: (&A, &B, &D, &E, &G),
    after: MergeStep<F, (Res<T, I>, Res<U, J>, Res<V, K>)>,
    world_after: World<R>,
    out: Out,
) where R: Resource<T, I> + Resource<U, J> + Resource<V, K>
    requires
        forall|a0: &T, a1: &U, a2: &V, a3: &A, a4: &B, a5: &D, a6: &E, a7: &G, o: Out|
            #[trigger] call_ensures(step.f, (a0, a1, a2, a3, a4, a5, a6, a7), o)
                ==> promise((*a0, *a1, *a2, *a3, *a4, *a5, *a6, *a7), (), o),
    ensures
        call_requires(
            step.f,
            (
                &world.held::<T, I>(),
                &world.held::<U, J>(),
                &world.held::<V, K>(),
                inputs.0,
                inputs.1,
                inputs.2,
                inputs.3,
                inputs.4,
            ),
        )
            ==> MergeStepCall::<R, (&A, &B, &D, &E, &G), Out>::call_pre(&step, world, inputs),
        MergeStepCall::<R, (&A, &B, &D, &E, &G), Out>::call_post(
            &step,
            world,
            inputs,
            after,
            world_after,
            out,
        )
            ==> {
            &&& after == step
            &&& world_after == world
            &&& promise(
                (
                    world.held::<T, I>(),
                    world.held::<U, J>(),
                    world.held::<V, K>(),
                    *inputs.0,
                    *inputs.1,
                    *inputs.2,
                    *inputs.3,
                    *inputs.4,
                ),
                (),
                out,
            )
        },
{
}

/// What a function of three resources promises, its step promises of what the world holds.
pub proof fn lemma_merge5_res_res_resmut<
    R,
    T,
    I,
    U,
    J,
    V,
    K,
    A,
    B,
    D,
    E,
    G,
    Out,
    F: FnMut(&T, &U, &mut V, &A, &B, &D, &E, &G) -> Out,
>(
    step: MergeStep<F, (Res<T, I>, Res<U, J>, ResMut<V, K>)>,
    promise: spec_fn((T, U, V, A, B, D, E, G), (V,), Out) -> bool,
    world: World<R>,
    inputs: (&A, &B, &D, &E, &G),
    after: MergeStep<F, (Res<T, I>, Res<U, J>, ResMut<V, K>)>,
    world_after: World<R>,
    out: Out,
) where R: Apart3<T, I, U, J, V, K>
    requires
        forall|a0: &T, a1: &U, a2: &mut V, a3: &A, a4: &B, a5: &D, a6: &E, a7: &G, o: Out|
            #[trigger] call_ensures(step.f, (a0, a1, a2, a3, a4, a5, a6, a7), o)
                ==> promise((*a0, *a1, *a2, *a3, *a4, *a5, *a6, *a7), (*final(a2),), o),
    ensures
        (forall|a2: &mut V|
            *a2 == world.held::<V, K>()
                ==> #[trigger] call_requires(
                    step.f,
                    (
                        &world.held::<T, I>(),
                        &world.held::<U, J>(),
                        a2,
                        inputs.0,
                        inputs.1,
                        inputs.2,
                        inputs.3,
                        inputs.4,
                    ),
                )) ==> MergeStepCall::<R, (&A, &B, &D, &E, &G), Out>::call_pre(&step, world, inputs),
        MergeStepCall::<R, (&A, &B, &D, &E, &G), Out>::call_post(
            &step,
            world,
            inputs,
            after,
            world_after,
            out,
        )
            ==> {
            &&& after == step
            &&& exists|held: V|
                #[trigger] promise(
                    (
                        world.held::<T, I>(),
                        world.held::<U, J>(),
                        world.held::<V, K>(),
                        *inputs.0,
                        *inputs.1,
                        *inputs.2,
                        *inputs.3,
                        *inputs.4,
                    ),
                    (held,),
                    out,
                )
                    && world_after == world.holding::<V, K>(held)
        },
{
    if MergeStepCall::<R, (&A, &B, &D, &E, &G), Out>::call_post(
        &step,
        world,
        inputs,
        after,
        world_after,
        out,
    ) {
        let held = choose|held: V|
            #[trigger] effect_ppmppppp(
                step.f,
                &world.held::<T, I>(),
                &world.held::<U, J>(),
                world.held::<V, K>(),
                inputs.0,
                inputs.1,
                inputs.2,
                inputs.3,
                inputs.4,
                held,
                out,
            )
                && world_after == world.holding::<V, K>(held);
        lemma_effect_ppmppppp(
            step.f,
            &world.held::<T, I>(),
            &world.held::<U, J>(),
            world.held::<V, K>(),
            inputs.0,
            inputs.1,
            inputs.2,
            inputs.3,
            inputs.4,
            held,
            out,
        );
        assert(promise(
            (
                world.held::<T, I>(),
                world.held::<U, J>(),
                world.held::<V, K>(),
                *inputs.0,
                *inputs.1,
                *inputs.2,
                *inputs.3,
                *inputs.4,
            ),
            (held,),
            out,
        ));
    }
}

/// What a function of three resources promises, its step promises of what the world holds.
pub proof fn lemma_merge5_res_resmut_res<
    R,
    T,
    I,
    U,
    J,
    V,
    K,
    A,
    B,
    D,
    E,
    G,
    Out,
    F: FnMut(&T, &mut U, &V, &A, &B, &D, &E, &G) -> Out,
>(
    step: MergeStep<F, (Res<T, I>, ResMut<U, J>, Res<V, K>)>,
    promise: spec_fn((T, U, V, A, B, D, E, G), (U,), Out) -> bool,
    world: World<R>,
    inputs: (&A, &B, &D, &E, &G),
    after: MergeStep<F, (Res<T, I>, ResMut<U, J>, Res<V, K>)>,
    world_after: World<R>,
    out: Out,
) where R: Apart3<T, I, V, K, U, J>
    requires
        forall|a0: &T, a1: &mut U, a2: &V, a3: &A, a4: &B, a5: &D, a6: &E, a7: &G, o: Out|
            #[trigger] call_ensures(step.f, (a0, a1, a2, a3, a4, a5, a6, a7), o)
                ==> promise((*a0, *a1, *a2, *a3, *a4, *a5, *a6, *a7), (*final(a1),), o),
    ensures
        (forall|a1: &mut U|
            *a1 == world.held::<U, J>()
                ==> #[trigger] call_requires(
                    step.f,
                    (
                        &world.held::<T, I>(),
                        a1,
                        &world.held::<V, K>(),
                        inputs.0,
                        inputs.1,
                        inputs.2,
                        inputs.3,
                        inputs.4,
                    ),
                )) ==> MergeStepCall::<R, (&A, &B, &D, &E, &G), Out>::call_pre(&step, world, inputs),
        MergeStepCall::<R, (&A, &B, &D, &E, &G), Out>::call_post(
            &step,
            world,
            inputs,
            after,
            world_after,
            out,
        )
            ==> {
            &&& after == step
            &&& exists|held: U|
                #[trigger] promise(
                    (
                        world.held::<T, I>(),
                        world.held::<U, J>(),
                        world.held::<V, K>(),
                        *inputs.0,
                        *inputs.1,
                        *inputs.2,
                        *inputs.3,
                        *inputs.4,
                    ),
                    (held,),
                    out,
                )
                    && world_after == world.holding::<U, J>(held)
        },
{
    if MergeStepCall::<R, (&A, &B, &D, &E, &G), Out>::call_post(
        &step,
        world,
        inputs,
        after,
        world_after,
        out,
    ) {
        let held = choose|held: U|
            #[trigger] effect_pmpppppp(
                step.f,
                &world.held::<T, I>(),
                world.held::<U, J>(),
                &world.held::<V, K>(),
                inputs.0,
                inputs.1,
                inputs.2,
                inputs.3,
                inputs.4,
                held,
                out,
            )
                && world_after == world.holding::<U, J>(held);
        lemma_effect_pmpppppp(
            step.f,
            &world.held::<T, I>(),
            world.held::<U, J>(),
            &world.held::<V, K>(),
            inputs.0,
            inputs.1,
            inputs.2,
            inputs.3,
            inputs.4,
            held,
            out,
        );
        assert(promise(
            (
                world.held::<T, I>(),
                world.held::<U, J>(),
                world.held::<V, K>(),
                *inputs.0,
                *inputs.1,
                *inputs.2,
                *inputs.3,
                *inputs.4,
            ),
            (held,),
            out,
        ));
    }
}

/// What a function of three resources promises, its step promises of what the world holds.
pub proof fn lemma_merge5_res_resmut_resmut<
    R,
    T,
    I,
    U,
    J,
    V,
    K,
    A,
    B,
    D,
    E,
    G,
    Out,
    F: FnMut(&T, &mut U, &mut V, &A, &B, &D, &E, &G) -> Out,
>(
    step: MergeStep<F, (Res<T, I>, ResMut<U, J>, ResMut<V, K>)>,
    promise: spec_fn((T, U, V, A, B, D, E, G), (U, V), Out) -> bool,
    world: World<R>,
    inputs: (&A, &B, &D, &E, &G),
    after: MergeStep<F, (Res<T, I>, ResMut<U, J>, ResMut<V, K>)>,
    world_after: World<R>,
    out: Out,
) where R: Apart3<T, I, U, J, V, K>
    requires
        forall|a0: &T, a1: &mut U, a2: &mut V, a3: &A, a4: &B, a5: &D, a6: &E, a7: &G, o: Out|
            #[trigger] call_ensures(step.f, (a0, a1, a2, a3, a4, a5, a6, a7), o)
                ==> promise((*a0, *a1, *a2, *a3, *a4, *a5, *a6, *a7), (*final(a1), *final(a2)), o),
    ensures
        (forall|a1: &mut U, a2: &mut V|
            *a1 == world.held::<U, J>() && *a2 == world.held::<V, K>()
                ==> #[trigger] call_requires(
                    step.f,
                    (
                        &world.held::<T, I>(),
                        a1,
                        a2,
                        inputs.0,
                        inputs.1,
                        inputs.2,
                        inputs.3,
                        inputs.4,
                    ),
                )) ==> MergeStepCall::<R, (&A, &B, &D, &E, &G), Out>::call_pre(&step, world, inputs),
        MergeStepCall::<R, (&A, &B, &D, &E, &G), Out>::call_post(
            &step,
            world,
            inputs,
            after,
            world_after,
            out,
        )
            ==> {
            &&& after == step
            &&& exists|held: U, other: V|
                #[trigger] promise(
                    (
                        world.held::<T, I>(),
                        world.held::<U, J>(),
                        world.held::<V, K>(),
                        *inputs.0,
                        *inputs.1,
                        *inputs.2,
                        *inputs.3,
                        *inputs.4,
                    ),
                    (held, other),
                    out,
                )
                    && world_after == world.holding::<U, J>(held).holding::<V, K>(other)
        },
{
    if MergeStepCall::<R, (&A, &B, &D, &E, &G), Out>::call_post(
        &step,
        world,
        inputs,
        after,
        world_after,
        out,
    ) {
        let (held, other) = choose|held: U, other: V|
            #[trigger] effect_pmmppppp(
                step.f,
                &world.held::<T, I>(),
                world.held::<U, J>(),
                world.held::<V, K>(),
                inputs.0,
                inputs.1,
                inputs.2,
                inputs.3,
                inputs.4,
                held,
                other,
                out,
            )
                && world_after == world.holding::<U, J>(held).holding::<V, K>(other);
        lemma_effect_pmmppppp(
            step.f,
            &world.held::<T, I>(),
            world.held::<U, J>(),
            world.held::<V, K>(),
            inputs.0,
            inputs.1,
            inputs.2,
            inputs.3,
            inputs.4,
            held,
            other,
            out,
        );
        assert(promise(
            (
                world.held::<T, I>(),
                world.held::<U, J>(),
                world.held::<V, K>(),
                *inputs.0,
                *inputs.1,
                *inputs.2,
                *inputs.3,
                *inputs.4,
            ),
            (held, other),
            out,
        ));
    }
}

/// What a function of three resources promises, its step promises of what the world holds.
pub proof fn lemma_merge5_resmut_res_res<
    R,
    T,
    I,
    U,
    J,
    V,
    K,
    A,
    B,
    D,
    E,
    G,
    Out,
    F: FnMut(&mut T, &U, &V, &A, &B, &D, &E, &G) -> Out,
>(
    step: MergeStep<F, (ResMut<T, I>, Res<U, J>, Res<V, K>)>,
    promise: spec_fn((T, U, V, A, B, D, E, G), (T,), Out) -> bool,
    world: World<R>,
    inputs: (&A, &B, &D, &E, &G),
    after: MergeStep<F, (ResMut<T, I>, Res<U, J>, Res<V, K>)>,
    world_after: World<R>,
    out: Out,
) where R: Apart3<U, J, V, K, T, I>
    requires
        forall|a0: &mut T, a1: &U, a2: &V, a3: &A, a4: &B, a5: &D, a6: &E, a7: &G, o: Out|
            #[trigger] call_ensures(step.f, (a0, a1, a2, a3, a4, a5, a6, a7), o)
                ==> promise((*a0, *a1, *a2, *a3, *a4, *a5, *a6, *a7), (*final(a0),), o),
    ensures
        (forall|a0: &mut T|
            *a0 == world.held::<T, I>()
                ==> #[trigger] call_requires(
                    step.f,
                    (
                        a0,
                        &world.held::<U, J>(),
                        &world.held::<V, K>(),
                        inputs.0,
                        inputs.1,
                        inputs.2,
                        inputs.3,
                        inputs.4,
                    ),
                )) ==> MergeStepCall::<R, (&A, &B, &D, &E, &G), Out>::call_pre(&step, world, inputs),
        MergeStepCall::<R, (&A, &B, &D, &E, &G), Out>::call_post(
            &step,
            world,
            inputs,
            after,
            world_after,
            out,
        )
            ==> {
            &&& after == step
            &&& exists|held: T|
                #[trigger] promise(
                    (
                        world.held::<T, I>(),
                        world.held::<U, J>(),
                        world.held::<V, K>(),
                        *inputs.0,
                        *inputs.1,
                        *inputs.2,
                        *inputs.3,
                        *inputs.4,
                    ),
                    (held,),
                    out,
                )
                    && world_after == world.holding::<T, I>(held)
        },
{
    if MergeStepCall::<R, (&A, &B, &D, &E, &G), Out>::call_post(
        &step,
        world,
        inputs,
        after,
        world_after,
        out,
    ) {
        let held = choose|held: T|
            #[trigger] effect_mppppppp(
                step.f,
                world.held::<T, I>(),
                &world.held::<U, J>(),
                &world.held::<V, K>(),
                inputs.0,
                inputs.1,
                inputs.2,
                inputs.3,
                inputs.4,
                held,
                out,
            )
                && world_after == world.holding::<T, I>(held);
        lemma_effect_mppppppp(
            step.f,
            world.held::<T, I>(),
            &world.held::<U, J>(),
            &world.held::<V, K>(),
            inputs.0,
            inputs.1,
            inputs.2,
            inputs.3,
            inputs.4,
            held,
            out,
        );
        assert(promise(
            (
                world.held::<T, I>(),
                world.held::<U, J>(),
                world.held::<V, K>(),
                *inputs.0,
                *inputs.1,
                *inputs.2,
                *inputs.3,
                *inputs.4,
            ),
            (held,),
            out,
        ));
    }
}

/// What a function of three resources promises, its step promises of what the world holds.
pub proof fn lemma_merge5_resmut_res_resmut<
    R,
    T,
    I,
    U,
    J,
    V,
    K,
    A,
    B,
    D,
    E,
    G,
    Out,
    F: FnMut(&mut T, &U, &mut V, &A, &B, &D, &E, &G) -> Out,
>(
    step: MergeStep<F, (ResMut<T, I>, Res<U, J>, ResMut<V, K>)>,
    promise: spec_fn((T, U, V, A, B, D, E, G), (T, V), Out) -> bool,
    world: World<R>,
    inputs: (&A, &B, &D, &E, &G),
    after: MergeStep<F, (ResMut<T, I>, Res<U, J>, ResMut<V, K>)>,
    world_after: World<R>,
    out: Out,
) where R: Apart3<U, J, T, I, V, K>
    requires
        forall|a0: &mut T, a1: &U, a2: &mut V, a3: &A, a4: &B, a5: &D, a6: &E, a7: &G, o: Out|
            #[trigger] call_ensures(step.f, (a0, a1, a2, a3, a4, a5, a6, a7), o)
                ==> promise((*a0, *a1, *a2, *a3, *a4, *a5, *a6, *a7), (*final(a0), *final(a2)), o),
    ensures
        (forall|a0: &mut T, a2: &mut V|
            *a0 == world.held::<T, I>() && *a2 == world.held::<V, K>()
                ==> #[trigger] call_requires(
                    step.f,
                    (
                        a0,
                        &world.held::<U, J>(),
                        a2,
                        inputs.0,
                        inputs.1,
                        inputs.2,
                        inputs.3,
                        inputs.4,
                    ),
                )) ==> MergeStepCall::<R, (&A, &B, &D, &E, &G), Out>::call_pre(&step, world, inputs),
        MergeStepCall::<R, (&A, &B, &D, &E, &G), Out>::call_post(
            &step,
            world,
            inputs,
            after,
            world_after,
            out,
        )
            ==> {
            &&& after == step
            &&& exists|held: T, other: V|
                #[trigger] promise(
                    (
                        world.held::<T, I>(),
                        world.held::<U, J>(),
                        world.held::<V, K>(),
                        *inputs.0,
                        *inputs.1,
                        *inputs.2,
                        *inputs.3,
                        *inputs.4,
                    ),
                    (held, other),
                    out,
                )
                    && world_after == world.holding::<T, I>(held).holding::<V, K>(other)
        },
{
    if MergeStepCall::<R, (&A, &B, &D, &E, &G), Out>::call_post(
        &step,
        world,
        inputs,
        after,
        world_after,
        out,
    ) {
        let (held, other) = choose|held: T, other: V|
            #[trigger] effect_mpmppppp(
                step.f,
                world.held::<T, I>(),
                &world.held::<U, J>(),
                world.held::<V, K>(),
                inputs.0,
                inputs.1,
                inputs.2,
                inputs.3,
                inputs.4,
                held,
                other,
                out,
            )
                && world_after == world.holding::<T, I>(held).holding::<V, K>(other);
        lemma_effect_mpmppppp(
            step.f,
            world.held::<T, I>(),
            &world.held::<U, J>(),
            world.held::<V, K>(),
            inputs.0,
            inputs.1,
            inputs.2,
            inputs.3,
            inputs.4,
            held,
            other,
            out,
        );
        assert(promise(
            (
                world.held::<T, I>(),
                world.held::<U, J>(),
                world.held::<V, K>(),
                *inputs.0,
                *inputs.1,
                *inputs.2,
                *inputs.3,
                *inputs.4,
            ),
            (held, other),
            out,
        ));
    }
}

/// What a function of three resources promises, its step promises of what the world holds.
pub proof fn lemma_merge5_resmut_resmut_res<
    R,
    T,
    I,
    U,
    J,
    V,
    K,
    A,
    B,
    D,
    E,
    G,
    Out,
    F: FnMut(&mut T, &mut U, &V, &A, &B, &D, &E, &G) -> Out,
>(
    step: MergeStep<F, (ResMut<T, I>, ResMut<U, J>, Res<V, K>)>,
    promise: spec_fn((T, U, V, A, B, D, E, G), (T, U), Out) -> bool,
    world: World<R>,
    inputs: (&A, &B, &D, &E, &G),
    after: MergeStep<F, (ResMut<T, I>, ResMut<U, J>, Res<V, K>)>,
    world_after: World<R>,
    out: Out,
) where R: Apart3<V, K, T, I, U, J>
    requires
        forall|a0: &mut T, a1: &mut U, a2: &V, a3: &A, a4: &B, a5: &D, a6: &E, a7: &G, o: Out|
            #[trigger] call_ensures(step.f, (a0, a1, a2, a3, a4, a5, a6, a7), o)
                ==> promise((*a0, *a1, *a2, *a3, *a4, *a5, *a6, *a7), (*final(a0), *final(a1)), o),
    ensures
        (forall|a0: &mut T, a1: &mut U|
            *a0 == world.held::<T, I>() && *a1 == world.held::<U, J>()
                ==> #[trigger] call_requires(
                    step.f,
                    (
                        a0,
                        a1,
                        &world.held::<V, K>(),
                        inputs.0,
                        inputs.1,
                        inputs.2,
                        inputs.3,
                        inputs.4,
                    ),
                )) ==> MergeStepCall::<R, (&A, &B, &D, &E, &G), Out>::call_pre(&step, world, inputs),
        MergeStepCall::<R, (&A, &B, &D, &E, &G), Out>::call_post(
            &step,
            world,
            inputs,
            after,
            world_after,
            out,
        )
            ==> {
            &&& after == step
            &&& exists|held: T, other: U|
                #[trigger] promise(
                    (
                        world.held::<T, I>(),
                        world.held::<U, J>(),
                        world.held::<V, K>(),
                        *inputs.0,
                        *inputs.1,
                        *inputs.2,
                        *inputs.3,
                        *inputs.4,
                    ),
                    (held, other),
                    out,
                )
                    && world_after == world.holding::<T, I>(held).holding::<U, J>(other)
        },
{
    if MergeStepCall::<R, (&A, &B, &D, &E, &G), Out>::call_post(
        &step,
        world,
        inputs,
        after,
        world_after,
        out,
    ) {
        let (held, other) = choose|held: T, other: U|
            #[trigger] effect_mmpppppp(
                step.f,
                world.held::<T, I>(),
                world.held::<U, J>(),
                &world.held::<V, K>(),
                inputs.0,
                inputs.1,
                inputs.2,
                inputs.3,
                inputs.4,
                held,
                other,
                out,
            )
                && world_after == world.holding::<T, I>(held).holding::<U, J>(other);
        lemma_effect_mmpppppp(
            step.f,
            world.held::<T, I>(),
            world.held::<U, J>(),
            &world.held::<V, K>(),
            inputs.0,
            inputs.1,
            inputs.2,
            inputs.3,
            inputs.4,
            held,
            other,
            out,
        );
        assert(promise(
            (
                world.held::<T, I>(),
                world.held::<U, J>(),
                world.held::<V, K>(),
                *inputs.0,
                *inputs.1,
                *inputs.2,
                *inputs.3,
                *inputs.4,
            ),
            (held, other),
            out,
        ));
    }
}

/// What a function of three resources promises, its step promises of what the world holds.
pub proof fn lemma_merge5_resmut_resmut_resmut<
    R,
    T,
    I,
    U,
    J,
    V,
    K,
    A,
    B,
    D,
    E,
    G,
    Out,
    F: FnMut(&mut T, &mut U, &mut V, &A, &B, &D, &E, &G) -> Out,
>(
    step: MergeStep<F, (ResMut<T, I>, ResMut<U, J>, ResMut<V, K>)>,
    promise: spec_fn((T, U, V, A, B, D, E, G), (T, U, V), Out) -> bool,
    world: World<R>,
    inputs: (&A, &B, &D, &E, &G),
    after: MergeStep<F, (ResMut<T, I>, ResMut<U, J>, ResMut<V, K>)>,
    world_after: World<R>,
    out: Out,
) where R: Apart3<T, I, U, J, V, K>
    requires
        forall|a0: &mut T, a1: &mut U, a2: &mut V, a3: &A, a4: &B, a5: &D, a6: &E, a7: &G, o: Out|
            #[trigger] call_ensures(step.f, (a0, a1, a2, a3, a4, a5, a6, a7), o)
                ==> promise(
                    (*a0, *a1, *a2, *a3, *a4, *a5, *a6, *a7),
                    (*final(a0), *final(a1), *final(a2)),
                    o,
                ),
    ensures
        (forall|a0: &mut T, a1: &mut U, a2: &mut V|
            *a0 == world.held::<T, I>()
                && *a1 == world.held::<U, J>()
                && *a2 == world.held::<V, K>()
                ==> #[trigger] call_requires(
                    step.f,
                    (a0, a1, a2, inputs.0, inputs.1, inputs.2, inputs.3, inputs.4),
                )) ==> MergeStepCall::<R, (&A, &B, &D, &E, &G), Out>::call_pre(&step, world, inputs),
        MergeStepCall::<R, (&A, &B, &D, &E, &G), Out>::call_post(
            &step,
            world,
            inputs,
            after,
            world_after,
            out,
        )
            ==> {
            &&& after == step
            &&& exists|held: T, other: U, last: V|
                #[trigger] promise(
                    (
                        world.held::<T, I>(),
                        world.held::<U, J>(),
                        world.held::<V, K>(),
                        *inputs.0,
                        *inputs.1,
                        *inputs.2,
                        *inputs.3,
                        *inputs.4,
                    ),
                    (held, other, last),
                    out,
                )
                    && world_after == world.holding::<T, I>(held).holding::<U, J>(other).holding::<V, K>(last)
        },
{
    if MergeStepCall::<R, (&A, &B, &D, &E, &G), Out>::call_post(
        &step,
        world,
        inputs,
        after,
        world_after,
        out,
    ) {
        let (held, other, last) = choose|held: T, other: U, last: V|
            #[trigger] effect_mmmppppp(
                step.f,
                world.held::<T, I>(),
                world.held::<U, J>(),
                world.held::<V, K>(),
                inputs.0,
                inputs.1,
                inputs.2,
                inputs.3,
                inputs.4,
                held,
                other,
                last,
                out,
            )
                && world_after == world.holding::<T, I>(held).holding::<U, J>(other).holding::<V, K>(last);
        lemma_effect_mmmppppp(
            step.f,
            world.held::<T, I>(),
            world.held::<U, J>(),
            world.held::<V, K>(),
            inputs.0,
            inputs.1,
            inputs.2,
            inputs.3,
            inputs.4,
            held,
            other,
            last,
            out,
        );
        assert(promise(
            (
                world.held::<T, I>(),
                world.held::<U, J>(),
                world.held::<V, K>(),
                *inputs.0,
                *inputs.1,
                *inputs.2,
                *inputs.3,
                *inputs.4,
            ),
            (held, other, last),
            out,
        ));
    }
}

} // verus!
