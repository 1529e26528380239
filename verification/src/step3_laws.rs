//! What the steps of functions of three resources promise.
//!
//! A law is stated for an arbitrary `promise` that the contract of the function gives: of the values
//! that it is called on, of those that it leaves behind its mutable references, and of its result.
//! The step then gives that promise of the resources that the world holds, with the function called
//! once, and leaves everything else as it is.
use crate::effect::{
    effect_mmm, lemma_effect_mmm, effect_mmmm, lemma_effect_mmmm, effect_mmmmp, lemma_effect_mmmmp,
    effect_mmmp, lemma_effect_mmmp, effect_mmp, lemma_effect_mmp, effect_mmpm, lemma_effect_mmpm,
    effect_mmpmp, lemma_effect_mmpmp, effect_mmpp, lemma_effect_mmpp, effect_mpm, lemma_effect_mpm,
    effect_mpmm, lemma_effect_mpmm, effect_mpmmp, lemma_effect_mpmmp, effect_mpmp,
    lemma_effect_mpmp, effect_mpp, lemma_effect_mpp, effect_mppm, lemma_effect_mppm, effect_mppmp,
    lemma_effect_mppmp, effect_mppp, lemma_effect_mppp, effect_pmm, lemma_effect_pmm, effect_pmmm,
    lemma_effect_pmmm, effect_pmmmp, lemma_effect_pmmmp, effect_pmmp, lemma_effect_pmmp,
    effect_pmp, lemma_effect_pmp, effect_pmpm, lemma_effect_pmpm, effect_pmpmp, lemma_effect_pmpmp,
    effect_pmpp, lemma_effect_pmpp, effect_ppm, lemma_effect_ppm, effect_ppmm, lemma_effect_ppmm,
    effect_ppmmp, lemma_effect_ppmmp, effect_ppmp, lemma_effect_ppmp, effect_pppm,
    lemma_effect_pppm, effect_pppmp, lemma_effect_pppmp,
};
use crate::handler::NoEvent;
use crate::step::{ProducerCall, RefScanStepCall, RefStepCall, ScanStepCall, Step, StepCall};
use crate::world::{Apart3, Res, ResMut, Resource, World};
use vstd::prelude::*;

verus! {

/// What a function of three resources promises, its step promises of what the world holds.
pub proof fn lemma_step_res_res_res<R, T, I, U, J, V, K, In, Out, F: FnMut(&T, &U, &V, In) -> Out>(
    step: Step<F, (Res<T, I>, Res<U, J>, Res<V, K>), Out>,
    promise: spec_fn((T, U, V, In), (), Out) -> bool,
    world: World<R>,
    input: In,
    after: Step<F, (Res<T, I>, Res<U, J>, Res<V, K>), Out>,
    world_after: World<R>,
    out: Out,
) where R: Resource<T, I> + Resource<U, J> + Resource<V, K>
    requires
        forall|a0: &T, a1: &U, a2: &V, a3: In, o: Out|
            #[trigger] call_ensures(step.f, (a0, a1, a2, a3), o)
                ==> promise((*a0, *a1, *a2, a3), (), o),
    ensures
        call_requires(
            step.f,
            (&world.held::<T, I>(), &world.held::<U, J>(), &world.held::<V, K>(), input),
        )
            ==> StepCall::<R, In>::call_pre(&step, world, input),
        StepCall::<R, In>::call_post(&step, world, input, after, world_after, out) ==> {
            &&& after == step
            &&& world_after == world
            &&& promise(
                (world.held::<T, I>(), world.held::<U, J>(), world.held::<V, K>(), input),
                (),
                out,
            )
        },
{
}

/// What a function of three resources promises, its step promises of what the world holds.
pub proof fn lemma_step_res_res_resmut<
    R,
    T,
    I,
    U,
    J,
    V,
    K,
    In,
    Out,
    F: FnMut(&T, &U, &mut V, In) -> Out,
>(
    step: Step<F, (Res<T, I>, Res<U, J>, ResMut<V, K>), Out>,
    promise: spec_fn((T, U, V, In), (V,), Out) -> bool,
    world: World<R>,
    input: In,
    after: Step<F, (Res<T, I>, Res<U, J>, ResMut<V, K>), Out>,
    world_after: World<R>,
    out: Out,
) where R: Apart3<T, I, U, J, V, K>
    requires
        forall|a0: &T, a1: &U, a2: &mut V, a3: In, o: Out|
            #[trigger] call_ensures(step.f, (a0, a1, a2, a3), o)
                ==> promise((*a0, *a1, *a2, a3), (*final(a2),), o),
    ensures
        (forall|a2: &mut V|
            *a2 == world.held::<V, K>()
                ==> #[trigger] call_requires(
                    step.f,
                    (&world.held::<T, I>(), &world.held::<U, J>(), a2, input),
                )) ==> StepCall::<R, In>::call_pre(&step, world, input),
        StepCall::<R, In>::call_post(&step, world, input, after, world_after, out) ==> {
            &&& after == step
            &&& exists|held: V|
                #[trigger] promise(
                    (world.held::<T, I>(), world.held::<U, J>(), world.held::<V, K>(), input),
                    (held,),
                    out,
                )
                    && world_after == world.holding::<V, K>(held)
        },
{
    if StepCall::<R, In>::call_post(&step, world, input, after, world_after, out) {
        let held = choose|held: V|
            #[trigger] effect_ppmp(
                step.f,
                &world.held::<T, I>(),
                &world.held::<U, J>(),
                world.held::<V, K>(),
                input,
                held,
                out,
            )
                && world_after == world.holding::<V, K>(held);
        lemma_effect_ppmp(
            step.f,
            &world.held::<T, I>(),
            &world.held::<U, J>(),
            world.held::<V, K>(),
            input,
            held,
            out,
        );
        assert(promise(
            (world.held::<T, I>(), world.held::<U, J>(), world.held::<V, K>(), input),
            (held,),
            out,
        ));
    }
}

/// What a function of three resources promises, its step promises of what the world holds.
pub proof fn lemma_step_res_resmut_res<
    R,
    T,
    I,
    U,
    J,
    V,
    K,
    In,
    Out,
    F: FnMut(&T, &mut U, &V, In) -> Out,
>(
    step: Step<F, (Res<T, I>, ResMut<U, J>, Res<V, K>), Out>,
    promise: spec_fn((T, U, V, In), (U,), Out) -> bool,
    world: World<R>,
    input: In,
    after: Step<F, (Res<T, I>, ResMut<U, J>, Res<V, K>), Out>,
    world_after: World<R>,
    out: Out,
) where R: Apart3<T, I, V, K, U, J>
    requires
        forall|a0: &T, a1: &mut U, a2: &V, a3: In, o: Out|
            #[trigger] call_ensures(step.f, (a0, a1, a2, a3), o)
                ==> promise((*a0, *a1, *a2, a3), (*final(a1),), o),
    ensures
        (forall|a1: &mut U|
            *a1 == world.held::<U, J>()
                ==> #[trigger] call_requires(
                    step.f,
                    (&world.held::<T, I>(), a1, &world.held::<V, K>(), input),
                )) ==> StepCall::<R, In>::call_pre(&step, world, input),
        StepCall::<R, In>::call_post(&step, world, input, after, world_after, out) ==> {
            &&& after == step
            &&& exists|held: U|
                #[trigger] promise(
                    (world.held::<T, I>(), world.held::<U, J>(), world.held::<V, K>(), input),
                    (held,),
                    out,
                )
                    && world_after == world.holding::<U, J>(held)
        },
{
    if StepCall::<R, In>::call_post(&step, world, input, after, world_after, out) {
        let held = choose|held: U|
            #[trigger] effect_pmpp(
                step.f,
                &world.held::<T, I>(),
                world.held::<U, J>(),
                &world.held::<V, K>(),
                input,
                held,
                out,
            )
                && world_after == world.holding::<U, J>(held);
        lemma_effect_pmpp(
            step.f,
            &world.held::<T, I>(),
            world.held::<U, J>(),
            &world.held::<V, K>(),
            input,
            held,
            out,
        );
        assert(promise(
            (world.held::<T, I>(), world.held::<U, J>(), world.held::<V, K>(), input),
            (held,),
            out,
        ));
    }
}

/// What a function of three resources promises, its step promises of what the world holds.
pub proof fn lemma_step_res_resmut_resmut<
    R,
    T,
    I,
    U,
    J,
    V,
    K,
    In,
    Out,
    F: FnMut(&T, &mut U, &mut V, In) -> Out,
>(
    step: Step<F, (Res<T, I>, ResMut<U, J>, ResMut<V, K>), Out>,
    promise: spec_fn((T, U, V, In), (U, V), Out) -> bool,
    world: World<R>,
    input: In,
    after: Step<F, (Res<T, I>, ResMut<U, J>, ResMut<V, K>), Out>,
    world_after: World<R>,
    out: Out,
) where R: Apart3<T, I, U, J, V, K>
    requires
        forall|a0: &T, a1: &mut U, a2: &mut V, a3: In, o: Out|
            #[trigger] call_ensures(step.f, (a0, a1, a2, a3), o)
                ==> promise((*a0, *a1, *a2, a3), (*final(a1), *final(a2)), o),
    ensures
        (forall|a1: &mut U, a2: &mut V|
            *a1 == world.held::<U, J>() && *a2 == world.held::<V, K>()
                ==> #[trigger] call_requires(
                    step.f,
                    (&world.held::<T, I>(), a1, a2, input),
                )) ==> StepCall::<R, In>::call_pre(&step, world, input),
        StepCall::<R, In>::call_post(&step, world, input, after, world_after, out) ==> {
            &&& after == step
            &&& exists|held: U, other: V|
                #[trigger] promise(
                    (world.held::<T, I>(), world.held::<U, J>(), world.held::<V, K>(), input),
                    (held, other),
                    out,
                )
                    && world_after == world.holding::<U, J>(held).holding::<V, K>(other)
        },
{
    if StepCall::<R, In>::call_post(&step, world, input, after, world_after, out) {
        let (held, other) = choose|held: U, other: V|
            #[trigger] effect_pmmp(
                step.f,
                &world.held::<T, I>(),
                world.held::<U, J>(),
                world.held::<V, K>(),
                input,
                held,
                other,
                out,
            )
                && world_after == world.holding::<U, J>(held).holding::<V, K>(other);
        lemma_effect_pmmp(
            step.f,
            &world.held::<T, I>(),
            world.held::<U, J>(),
            world.held::<V, K>(),
            input,
            held,
            other,
            out,
        );
        assert(promise(
            (world.held::<T, I>(), world.held::<U, J>(), world.held::<V, K>(), input),
            (held, other),
            out,
        ));
    }
}

/// What a function of three resources promises, its step promises of what the world holds.
pub proof fn lemma_step_resmut_res_res<
    R,
    T,
    I,
    U,
    J,
    V,
    K,
    In,
    Out,
    F: FnMut(&mut T, &U, &V, In) -> Out,
>(
    step: Step<F, (ResMut<T, I>, Res<U, J>, Res<V, K>), Out>,
    promise: spec_fn((T, U, V, In), (T,), Out) -> bool,
    world: World<R>,
    input: In,
    after: Step<F, (ResMut<T, I>, Res<U, J>, Res<V, K>), Out>,
    world_after: World<R>,
    out: Out,
) where R: Apart3<U, J, V, K, T, I>
    requires
        forall|a0: &mut T, a1: &U, a2: &V, a3: In, o: Out|
            #[trigger] call_ensures(step.f, (a0, a1, a2, a3), o)
                ==> promise((*a0, *a1, *a2, a3), (*final(a0),), o),
    ensures
        (forall|a0: &mut T|
            *a0 == world.held::<T, I>()
                ==> #[trigger] call_requires(
                    step.f,
                    (a0, &world.held::<U, J>(), &world.held::<V, K>(), input),
                )) ==> StepCall::<R, In>::call_pre(&step, world, input),
        StepCall::<R, In>::call_post(&step, world, input, after, world_after, out) ==> {
            &&& after == step
            &&& exists|held: T|
                #[trigger] promise(
                    (world.held::<T, I>(), world.held::<U, J>(), world.held::<V, K>(), input),
                    (held,),
                    out,
                )
                    && world_after == world.holding::<T, I>(held)
        },
{
    if StepCall::<R, In>::call_post(&step, world, input, after, world_after, out) {
        let held = choose|held: T|
            #[trigger] effect_mppp(
                step.f,
                world.held::<T, I>(),
                &world.held::<U, J>(),
                &world.held::<V, K>(),
                input,
                held,
                out,
            )
                && world_after == world.holding::<T, I>(held);
        lemma_effect_mppp(
            step.f,
            world.held::<T, I>(),
            &world.held::<U, J>(),
            &world.held::<V, K>(),
            input,
            held,
            out,
        );
        assert(promise(
            (world.held::<T, I>(), world.held::<U, J>(), world.held::<V, K>(), input),
            (held,),
            out,
        ));
    }
}

/// What a function of three resources promises, its step promises of what the world holds.
pub proof fn lemma_step_resmut_res_resmut<
    R,
    T,
    I,
    U,
    J,
    V,
    K,
    In,
    Out,
    F: FnMut(&mut T, &U, &mut V, In) -> Out,
>(
    step: Step<F, (ResMut<T, I>, Res<U, J>, ResMut<V, K>), Out>,
    promise: spec_fn((T, U, V, In), (T, V), Out) -> bool,
    world: World<R>,
    input: In,
    after: Step<F, (ResMut<T, I>, Res<U, J>, ResMut<V, K>), Out>,
    world_after: World<R>,
    out: Out,
) where R: Apart3<U, J, T, I, V, K>
    requires
        forall|a0: &mut T, a1: &U, a2: &mut V, a3: In, o: Out|
            #[trigger] call_ensures(step.f, (a0, a1, a2, a3), o)
                ==> promise((*a0, *a1, *a2, a3), (*final(a0), *final(a2)), o),
    ensures
        (forall|a0: &mut T, a2: &mut V|
            *a0 == world.held::<T, I>() && *a2 == world.held::<V, K>()
                ==> #[trigger] call_requires(
                    step.f,
                    (a0, &world.held::<U, J>(), a2, input),
                )) ==> StepCall::<R, In>::call_pre(&step, world, input),
        StepCall::<R, In>::call_post(&step, world, input, after, world_after, out) ==> {
            &&& after == step
            &&& exists|held: T, other: V|
                #[trigger] promise(
                    (world.held::<T, I>(), world.held::<U, J>(), world.held::<V, K>(), input),
                    (held, other),
                    out,
                )
                    && world_after == world.holding::<T, I>(held).holding::<V, K>(other)
        },
{
    if StepCall::<R, In>::call_post(&step, world, input, after, world_after, out) {
        let (held, other) = choose|held: T, other: V|
            #[trigger] effect_mpmp(
                step.f,
                world.held::<T, I>(),
                &world.held::<U, J>(),
                world.held::<V, K>(),
                input,
                held,
                other,
                out,
            )
                && world_after == world.holding::<T, I>(held).holding::<V, K>(other);
        lemma_effect_mpmp(
            step.f,
            world.held::<T, I>(),
            &world.held::<U, J>(),
            world.held::<V, K>(),
            input,
            held,
            other,
            out,
        );
        assert(promise(
            (world.held::<T, I>(), world.held::<U, J>(), world.held::<V, K>(), input),
            (held, other),
            out,
        ));
    }
}

/// What a function of three resources promises, its step promises of what the world holds.
pub proof fn lemma_step_resmut_resmut_res<
    R,
    T,
    I,
    U,
    J,
    V,
    K,
    In,
    Out,
    F: FnMut(&mut T, &mut U, &V, In) -> Out,
>(
    step: Step<F, (ResMut<T, I>, ResMut<U, J>, Res<V, K>), Out>,
    promise: spec_fn((T, U, V, In), (T, U), Out) -> bool,
    world: World<R>,
    input: In,
    after: Step<F, (ResMut<T, I>, ResMut<U, J>, Res<V, K>), Out>,
    world_after: World<R>,
    out: Out,
) where R: Apart3<V, K, T, I, U, J>
    requires
        forall|a0: &mut T, a1: &mut U, a2: &V, a3: In, o: Out|
            #[trigger] call_ensures(step.f, (a0, a1, a2, a3), o)
                ==> promise((*a0, *a1, *a2, a3), (*final(a0), *final(a1)), o),
    ensures
        (forall|a0: &mut T, a1: &mut U|
            *a0 == world.held::<T, I>() && *a1 == world.held::<U, J>()
                ==> #[trigger] call_requires(
                    step.f,
                    (a0, a1, &world.held::<V, K>(), input),
                )) ==> StepCall::<R, In>::call_pre(&step, world, input),
        StepCall::<R, In>::call_post(&step, world, input, after, world_after, out) ==> {
            &&& after == step
            &&& exists|held: T, other: U|
                #[trigger] promise(
                    (world.held::<T, I>(), world.held::<U, J>(), world.held::<V, K>(), input),
                    (held, other),
                    out,
                )
                    && world_after == world.holding::<T, I>(held).holding::<U, J>(other)
        },
{
    if StepCall::<R, In>::call_post(&step, world, input, after, world_after, out) {
        let (held, other) = choose|held: T, other: U|
            #[trigger] effect_mmpp(
                step.f,
                world.held::<T, I>(),
                world.held::<U, J>(),
                &world.held::<V, K>(),
                input,
                held,
                other,
                out,
            )
                && world_after == world.holding::<T, I>(held).holding::<U, J>(other);
        lemma_effect_mmpp(
            step.f,
            world.held::<T, I>(),
            world.held::<U, J>(),
            &world.held::<V, K>(),
            input,
            held,
            other,
            out,
        );
        assert(promise(
            (world.held::<T, I>(), world.held::<U, J>(), world.held::<V, K>(), input),
            (held, other),
            out,
        ));
    }
}

/// What a function of three resources promises, its step promises of what the world holds.
pub proof fn lemma_step_resmut_resmut_resmut<
    R,
    T,
    I,
    U,
    J,
    V,
    K,
    In,
    Out,
    F: FnMut(&mut T, &mut U, &mut V, In) -> Out,
>(
    step: Step<F, (ResMut<T, I>, ResMut<U, J>, ResMut<V, K>), Out>,
    promise: spec_fn((T, U, V, In), (T, U, V), Out) -> bool,
    world: World<R>,
    input: In,
    after: Step<F, (ResMut<T, I>, ResMut<U, J>, ResMut<V, K>), Out>,
    world_after: World<R>,
    out: Out,
) where R: Apart3<T, I, U, J, V, K>
    requires
        forall|a0: &mut T, a1: &mut U, a2: &mut V, a3: In, o: Out|
            #[trigger] call_ensures(step.f, (a0, a1, a2, a3), o)
                ==> promise((*a0, *a1, *a2, a3), (*final(a0), *final(a1), *final(a2)), o),
    ensures
        (forall|a0: &mut T, a1: &mut U, a2: &mut V|
            *a0 == world.held::<T, I>()
                && *a1 == world.held::<U, J>()
                && *a2 == world.held::<V, K>()
                ==> #[trigger] call_requires(step.f, (a0, a1, a2, input)))
                    ==> StepCall::<R, In>::call_pre(&step, world, input),
        StepCall::<R, In>::call_post(&step, world, input, after, world_after, out) ==> {
            &&& after == step
            &&& exists|held: T, other: U, last: V|
                #[trigger] promise(
                    (world.held::<T, I>(), world.held::<U, J>(), world.held::<V, K>(), input),
                    (held, other, last),
                    out,
                )
                    && world_after == world.holding::<T, I>(held).holding::<U, J>(other).holding::<V, K>(last)
        },
{
    if StepCall::<R, In>::call_post(&step, world, input, after, world_after, out) {
        let (held, other, last) = choose|held: T, other: U, last: V|
            #[trigger] effect_mmmp(
                step.f,
                world.held::<T, I>(),
                world.held::<U, J>(),
                world.held::<V, K>(),
                input,
                held,
                other,
                last,
                out,
            )
                && world_after == world.holding::<T, I>(held).holding::<U, J>(other).holding::<V, K>(last);
        lemma_effect_mmmp(
            step.f,
            world.held::<T, I>(),
            world.held::<U, J>(),
            world.held::<V, K>(),
            input,
            held,
            other,
            last,
            out,
        );
        assert(promise(
            (world.held::<T, I>(), world.held::<U, J>(), world.held::<V, K>(), input),
            (held, other, last),
            out,
        ));
    }
}

/// What a function of three resources promises, its step promises of what the world holds.
pub proof fn lemma_step_res_res_res_without_event<
    R,
    T,
    I,
    U,
    J,
    V,
    K,
    Out,
    F: FnMut(&T, &U, &V) -> Out,
>(
    step: Step<NoEvent<F>, (Res<T, I>, Res<U, J>, Res<V, K>), Out>,
    promise: spec_fn((T, U, V), (), Out) -> bool,
    world: World<R>,
    input: (),
    after: Step<NoEvent<F>, (Res<T, I>, Res<U, J>, Res<V, K>), Out>,
    world_after: World<R>,
    out: Out,
) where R: Resource<T, I> + Resource<U, J> + Resource<V, K>
    requires
        forall|a0: &T, a1: &U, a2: &V, o: Out|
            #[trigger] call_ensures(step.f.0, (a0, a1, a2), o) ==> promise((*a0, *a1, *a2), (), o),
    ensures
        call_requires(
            step.f.0,
            (&world.held::<T, I>(), &world.held::<U, J>(), &world.held::<V, K>()),
        )
            ==> StepCall::<R, ()>::call_pre(&step, world, input),
        StepCall::<R, ()>::call_post(&step, world, input, after, world_after, out) ==> {
            &&& after == step
            &&& world_after == world
            &&& promise((world.held::<T, I>(), world.held::<U, J>(), world.held::<V, K>()), (), out)
        },
{
}

/// What a function of three resources promises, its step promises of what the world holds.
pub proof fn lemma_step_res_res_resmut_without_event<
    R,
    T,
    I,
    U,
    J,
    V,
    K,
    Out,
    F: FnMut(&T, &U, &mut V) -> Out,
>(
    step: Step<NoEvent<F>, (Res<T, I>, Res<U, J>, ResMut<V, K>), Out>,
    promise: spec_fn((T, U, V), (V,), Out) -> bool,
    world: World<R>,
    input: (),
    after: Step<NoEvent<F>, (Res<T, I>, Res<U, J>, ResMut<V, K>), Out>,
    world_after: World<R>,
    out: Out,
) where R: Apart3<T, I, U, J, V, K>
    requires
        forall|a0: &T, a1: &U, a2: &mut V, o: Out|
            #[trigger] call_ensures(step.f.0, (a0, a1, a2), o)
                ==> promise((*a0, *a1, *a2), (*final(a2),), o),
    ensures
        (forall|a2: &mut V|
            *a2 == world.held::<V, K>()
                ==> #[trigger] call_requires(
                    step.f.0,
                    (&world.held::<T, I>(), &world.held::<U, J>(), a2),
                )) ==> StepCall::<R, ()>::call_pre(&step, world, input),
        StepCall::<R, ()>::call_post(&step, world, input, after, world_after, out) ==> {
            &&& after == step
            &&& exists|held: V|
                #[trigger] promise(
                    (world.held::<T, I>(), world.held::<U, J>(), world.held::<V, K>()),
                    (held,),
                    out,
                )
                    && world_after == world.holding::<V, K>(held)
        },
{
    if StepCall::<R, ()>::call_post(&step, world, input, after, world_after, out) {
        let held = choose|held: V|
            #[trigger] effect_ppm(
                step.f.0,
                &world.held::<T, I>(),
                &world.held::<U, J>(),
                world.held::<V, K>(),
                held,
                out,
            )
                && world_after == world.holding::<V, K>(held);
        lemma_effect_ppm(
            step.f.0,
            &world.held::<T, I>(),
            &world.held::<U, J>(),
            world.held::<V, K>(),
            held,
            out,
        );
        assert(promise(
            (world.held::<T, I>(), world.held::<U, J>(), world.held::<V, K>()),
            (held,),
            out,
        ));
    }
}

/// What a function of three resources promises, its step promises of what the world holds.
pub proof fn lemma_step_res_resmut_res_without_event<
    R,
    T,
    I,
    U,
    J,
    V,
    K,
    Out,
    F: FnMut(&T, &mut U, &V) -> Out,
>(
    step: Step<NoEvent<F>, (Res<T, I>, ResMut<U, J>, Res<V, K>), Out>,
    promise: spec_fn((T, U, V), (U,), Out) -> bool,
    world: World<R>,
    input: (),
    after: Step<NoEvent<F>, (Res<T, I>, ResMut<U, J>, Res<V, K>), Out>,
    world_after: World<R>,
    out: Out,
) where R: Apart3<T, I, V, K, U, J>
    requires
        forall|a0: &T, a1: &mut U, a2: &V, o: Out|
            #[trigger] call_ensures(step.f.0, (a0, a1, a2), o)
                ==> promise((*a0, *a1, *a2), (*final(a1),), o),
    ensures
        (forall|a1: &mut U|
            *a1 == world.held::<U, J>()
                ==> #[trigger] call_requires(
                    step.f.0,
                    (&world.held::<T, I>(), a1, &world.held::<V, K>()),
                )) ==> StepCall::<R, ()>::call_pre(&step, world, input),
        StepCall::<R, ()>::call_post(&step, world, input, after, world_after, out) ==> {
            &&& after == step
            &&& exists|held: U|
                #[trigger] promise(
                    (world.held::<T, I>(), world.held::<U, J>(), world.held::<V, K>()),
                    (held,),
                    out,
                )
                    && world_after == world.holding::<U, J>(held)
        },
{
    if StepCall::<R, ()>::call_post(&step, world, input, after, world_after, out) {
        let held = choose|held: U|
            #[trigger] effect_pmp(
                step.f.0,
                &world.held::<T, I>(),
                world.held::<U, J>(),
                &world.held::<V, K>(),
                held,
                out,
            )
                && world_after == world.holding::<U, J>(held);
        lemma_effect_pmp(
            step.f.0,
            &world.held::<T, I>(),
            world.held::<U, J>(),
            &world.held::<V, K>(),
            held,
            out,
        );
        assert(promise(
            (world.held::<T, I>(), world.held::<U, J>(), world.held::<V, K>()),
            (held,),
            out,
        ));
    }
}

/// What a function of three resources promises, its step promises of what the world holds.
pub proof fn lemma_step_res_resmut_resmut_without_event<
    R,
    T,
    I,
    U,
    J,
    V,
    K,
    Out,
    F: FnMut(&T, &mut U, &mut V) -> Out,
>(
    step: Step<NoEvent<F>, (Res<T, I>, ResMut<U, J>, ResMut<V, K>), Out>,
    promise: spec_fn((T, U, V), (U, V), Out) -> bool,
    world: World<R>,
    input: (),
    after: Step<NoEvent<F>, (Res<T, I>, ResMut<U, J>, ResMut<V, K>), Out>,
    world_after: World<R>,
    out: Out,
) where R: Apart3<T, I, U, J, V, K>
    requires
        forall|a0: &T, a1: &mut U, a2: &mut V, o: Out|
            #[trigger] call_ensures(step.f.0, (a0, a1, a2), o)
                ==> promise((*a0, *a1, *a2), (*final(a1), *final(a2)), o),
    ensures
        (forall|a1: &mut U, a2: &mut V|
            *a1 == world.held::<U, J>() && *a2 == world.held::<V, K>()
                ==> #[trigger] call_requires(
                    step.f.0,
                    (&world.held::<T, I>(), a1, a2),
                )) ==> StepCall::<R, ()>::call_pre(&step, world, input),
        StepCall::<R, ()>::call_post(&step, world, input, after, world_after, out) ==> {
            &&& after == step
            &&& exists|held: U, other: V|
                #[trigger] promise(
                    (world.held::<T, I>(), world.held::<U, J>(), world.held::<V, K>()),
                    (held, other),
                    out,
                )
                    && world_after == world.holding::<U, J>(held).holding::<V, K>(other)
        },
{
    if StepCall::<R, ()>::call_post(&step, world, input, after, world_after, out) {
        let (held, other) = choose|held: U, other: V|
            #[trigger] effect_pmm(
                step.f.0,
                &world.held::<T, I>(),
                world.held::<U, J>(),
                world.held::<V, K>(),
                held,
                other,
                out,
            )
                && world_after == world.holding::<U, J>(held).holding::<V, K>(other);
        lemma_effect_pmm(
            step.f.0,
            &world.held::<T, I>(),
            world.held::<U, J>(),
            world.held::<V, K>(),
            held,
            other,
            out,
        );
        assert(promise(
            (world.held::<T, I>(), world.held::<U, J>(), world.held::<V, K>()),
            (held, other),
            out,
        ));
    }
}

/// What a function of three resources promises, its step promises of what the world holds.
pub proof fn lemma_step_resmut_res_res_without_event<
    R,
    T,
    I,
    U,
    J,
    V,
    K,
    Out,
    F: FnMut(&mut T, &U, &V) -> Out,
>(
    step: Step<NoEvent<F>, (ResMut<T, I>, Res<U, J>, Res<V, K>), Out>,
    promise: spec_fn((T, U, V), (T,), Out) -> bool,
    world: World<R>,
    input: (),
    after: Step<NoEvent<F>, (ResMut<T, I>, Res<U, J>, Res<V, K>), Out>,
    world_after: World<R>,
    out: Out,
) where R: Apart3<U, J, V, K, T, I>
    requires
        forall|a0: &mut T, a1: &U, a2: &V, o: Out|
            #[trigger] call_ensures(step.f.0, (a0, a1, a2), o)
                ==> promise((*a0, *a1, *a2), (*final(a0),), o),
    ensures
        (forall|a0: &mut T|
            *a0 == world.held::<T, I>()
                ==> #[trigger] call_requires(
                    step.f.0,
                    (a0, &world.held::<U, J>(), &world.held::<V, K>()),
                )) ==> StepCall::<R, ()>::call_pre(&step, world, input),
        StepCall::<R, ()>::call_post(&step, world, input, after, world_after, out) ==> {
            &&& after == step
            &&& exists|held: T|
                #[trigger] promise(
                    (world.held::<T, I>(), world.held::<U, J>(), world.held::<V, K>()),
                    (held,),
                    out,
                )
                    && world_after == world.holding::<T, I>(held)
        },
{
    if StepCall::<R, ()>::call_post(&step, world, input, after, world_after, out) {
        let held = choose|held: T|
            #[trigger] effect_mpp(
                step.f.0,
                world.held::<T, I>(),
                &world.held::<U, J>(),
                &world.held::<V, K>(),
                held,
                out,
            )
                && world_after == world.holding::<T, I>(held);
        lemma_effect_mpp(
            step.f.0,
            world.held::<T, I>(),
            &world.held::<U, J>(),
            &world.held::<V, K>(),
            held,
            out,
        );
        assert(promise(
            (world.held::<T, I>(), world.held::<U, J>(), world.held::<V, K>()),
            (held,),
            out,
        ));
    }
}

/// What a function of three resources promises, its step promises of what the world holds.
pub proof fn lemma_step_resmut_res_resmut_without_event<
    R,
    T,
    I,
    U,
    J,
    V,
    K,
    Out,
    F: FnMut(&mut T, &U, &mut V) -> Out,
>(
    step: Step<NoEvent<F>, (ResMut<T, I>, Res<U, J>, ResMut<V, K>), Out>,
    promise: spec_fn((T, U, V), (T, V), Out) -> bool,
    world: World<R>,
    input: (),
    after: Step<NoEvent<F>, (ResMut<T, I>, Res<U, J>, ResMut<V, K>), Out>,
    world_after: World<R>,
    out: Out,
) where R: Apart3<U, J, T, I, V, K>
    requires
        forall|a0: &mut T, a1: &U, a2: &mut V, o: Out|
            #[trigger] call_ensures(step.f.0, (a0, a1, a2), o)
                ==> promise((*a0, *a1, *a2), (*final(a0), *final(a2)), o),
    ensures
        (forall|a0: &mut T, a2: &mut V|
            *a0 == world.held::<T, I>() && *a2 == world.held::<V, K>()
                ==> #[trigger] call_requires(
                    step.f.0,
                    (a0, &world.held::<U, J>(), a2),
                )) ==> StepCall::<R, ()>::call_pre(&step, world, input),
        StepCall::<R, ()>::call_post(&step, world, input, after, world_after, out) ==> {
            &&& after == step
            &&& exists|held: T, other: V|
                #[trigger] promise(
                    (world.held::<T, I>(), world.held::<U, J>(), world.held::<V, K>()),
                    (held, other),
                    out,
                )
                    && world_after == world.holding::<T, I>(held).holding::<V, K>(other)
        },
{
    if StepCall::<R, ()>::call_post(&step, world, input, after, world_after, out) {
        let (held, other) = choose|held: T, other: V|
            #[trigger] effect_mpm(
                step.f.0,
                world.held::<T, I>(),
                &world.held::<U, J>(),
                world.held::<V, K>(),
                held,
                other,
                out,
            )
                && world_after == world.holding::<T, I>(held).holding::<V, K>(other);
        lemma_effect_mpm(
            step.f.0,
            world.held::<T, I>(),
            &world.held::<U, J>(),
            world.held::<V, K>(),
            held,
            other,
            out,
        );
        assert(promise(
            (world.held::<T, I>(), world.held::<U, J>(), world.held::<V, K>()),
            (held, other),
            out,
        ));
    }
}

/// What a function of three resources promises, its step promises of what the world holds.
pub proof fn lemma_step_resmut_resmut_res_without_event<
    R,
    T,
    I,
    U,
    J,
    V,
    K,
    Out,
    F: FnMut(&mut T, &mut U, &V) -> Out,
>(
    step: Step<NoEvent<F>, (ResMut<T, I>, ResMut<U, J>, Res<V, K>), Out>,
    promise: spec_fn((T, U, V), (T, U), Out) -> bool,
    world: World<R>,
    input: (),
    after: Step<NoEvent<F>, (ResMut<T, I>, ResMut<U, J>, Res<V, K>), Out>,
    world_after: World<R>,
    out: Out,
) where R: Apart3<V, K, T, I, U, J>
    requires
        forall|a0: &mut T, a1: &mut U, a2: &V, o: Out|
            #[trigger] call_ensures(step.f.0, (a0, a1, a2), o)
                ==> promise((*a0, *a1, *a2), (*final(a0), *final(a1)), o),
    ensures
        (forall|a0: &mut T, a1: &mut U|
            *a0 == world.held::<T, I>() && *a1 == world.held::<U, J>()
                ==> #[trigger] call_requires(
                    step.f.0,
                    (a0, a1, &world.held::<V, K>()),
                )) ==> StepCall::<R, ()>::call_pre(&step, world, input),
        StepCall::<R, ()>::call_post(&step, world, input, after, world_after, out) ==> {
            &&& after == step
            &&& exists|held: T, other: U|
                #[trigger] promise(
                    (world.held::<T, I>(), world.held::<U, J>(), world.held::<V, K>()),
                    (held, other),
                    out,
                )
                    && world_after == world.holding::<T, I>(held).holding::<U, J>(other)
        },
{
    if StepCall::<R, ()>::call_post(&step, world, input, after, world_after, out) {
        let (held, other) = choose|held: T, other: U|
            #[trigger] effect_mmp(
                step.f.0,
                world.held::<T, I>(),
                world.held::<U, J>(),
                &world.held::<V, K>(),
                held,
                other,
                out,
            )
                && world_after == world.holding::<T, I>(held).holding::<U, J>(other);
        lemma_effect_mmp(
            step.f.0,
            world.held::<T, I>(),
            world.held::<U, J>(),
            &world.held::<V, K>(),
            held,
            other,
            out,
        );
        assert(promise(
            (world.held::<T, I>(), world.held::<U, J>(), world.held::<V, K>()),
            (held, other),
            out,
        ));
    }
}

/// What a function of three resources promises, its step promises of what the world holds.
pub proof fn lemma_step_resmut_resmut_resmut_without_event<
    R,
    T,
    I,
    U,
    J,
    V,
    K,
    Out,
    F: FnMut(&mut T, &mut U, &mut V) -> Out,
>(
    step: Step<NoEvent<F>, (ResMut<T, I>, ResMut<U, J>, ResMut<V, K>), Out>,
    promise: spec_fn((T, U, V), (T, U, V), Out) -> bool,
    world: World<R>,
    input: (),
    after: Step<NoEvent<F>, (ResMut<T, I>, ResMut<U, J>, ResMut<V, K>), Out>,
    world_after: World<R>,
    out: Out,
) where R: Apart3<T, I, U, J, V, K>
    requires
        forall|a0: &mut T, a1: &mut U, a2: &mut V, o: Out|
            #[trigger] call_ensures(step.f.0, (a0, a1, a2), o)
                ==> promise((*a0, *a1, *a2), (*final(a0), *final(a1), *final(a2)), o),
    ensures
        (forall|a0: &mut T, a1: &mut U, a2: &mut V|
            *a0 == world.held::<T, I>()
                && *a1 == world.held::<U, J>()
                && *a2 == world.held::<V, K>()
                ==> #[trigger] call_requires(step.f.0, (a0, a1, a2)))
                    ==> StepCall::<R, ()>::call_pre(&step, world, input),
        StepCall::<R, ()>::call_post(&step, world, input, after, world_after, out) ==> {
            &&& after == step
            &&& exists|held: T, other: U, last: V|
                #[trigger] promise(
                    (world.held::<T, I>(), world.held::<U, J>(), world.held::<V, K>()),
                    (held, other, last),
                    out,
                )
                    && world_after == world.holding::<T, I>(held).holding::<U, J>(other).holding::<V, K>(last)
        },
{
    if StepCall::<R, ()>::call_post(&step, world, input, after, world_after, out) {
        let (held, other, last) = choose|held: T, other: U, last: V|
            #[trigger] effect_mmm(
                step.f.0,
                world.held::<T, I>(),
                world.held::<U, J>(),
                world.held::<V, K>(),
                held,
                other,
                last,
                out,
            )
                && world_after == world.holding::<T, I>(held).holding::<U, J>(other).holding::<V, K>(last);
        lemma_effect_mmm(
            step.f.0,
            world.held::<T, I>(),
            world.held::<U, J>(),
            world.held::<V, K>(),
            held,
            other,
            last,
            out,
        );
        assert(promise(
            (world.held::<T, I>(), world.held::<U, J>(), world.held::<V, K>()),
            (held, other, last),
            out,
        ));
    }
}

/// What a function of three resources promises, its step promises of what the world holds.
pub proof fn lemma_ref_step_res_res_res<
    R,
    T,
    I,
    U,
    J,
    V,
    K,
    In,
    Out,
    F: FnMut(&T, &U, &V, &In) -> Out,
>(
    step: Step<F, (Res<T, I>, Res<U, J>, Res<V, K>), Out>,
    promise: spec_fn((T, U, V, In), (), Out) -> bool,
    world: World<R>,
    input: &In,
    after: Step<F, (Res<T, I>, Res<U, J>, Res<V, K>), Out>,
    world_after: World<R>,
    out: Out,
) where R: Resource<T, I> + Resource<U, J> + Resource<V, K>
    requires
        forall|a0: &T, a1: &U, a2: &V, a3: &In, o: Out|
            #[trigger] call_ensures(step.f, (a0, a1, a2, a3), o)
                ==> promise((*a0, *a1, *a2, *a3), (), o),
    ensures
        call_requires(
            step.f,
            (&world.held::<T, I>(), &world.held::<U, J>(), &world.held::<V, K>(), input),
        )
            ==> RefStepCall::<R, In>::call_pre(&step, world, input),
        RefStepCall::<R, In>::call_post(&step, world, input, after, world_after, out) ==> {
            &&& after == step
            &&& world_after == world
            &&& promise(
                (world.held::<T, I>(), world.held::<U, J>(), world.held::<V, K>(), *input),
                (),
                out,
            )
        },
{
}

/// What a function of three resources promises, its step promises of what the world holds.
pub proof fn lemma_ref_step_res_res_resmut<
    R,
    T,
    I,
    U,
    J,
    V,
    K,
    In,
    Out,
    F: FnMut(&T, &U, &mut V, &In) -> Out,
>(
    step: Step<F, (Res<T, I>, Res<U, J>, ResMut<V, K>), Out>,
    promise: spec_fn((T, U, V, In), (V,), Out) -> bool,
    world: World<R>,
    input: &In,
    after: Step<F, (Res<T, I>, Res<U, J>, ResMut<V, K>), Out>,
    world_after: World<R>,
    out: Out,
) where R: Apart3<T, I, U, J, V, K>
    requires
        forall|a0: &T, a1: &U, a2: &mut V, a3: &In, o: Out|
            #[trigger] call_ensures(step.f, (a0, a1, a2, a3), o)
                ==> promise((*a0, *a1, *a2, *a3), (*final(a2),), o),
    ensures
        (forall|a2: &mut V|
            *a2 == world.held::<V, K>()
                ==> #[trigger] call_requires(
                    step.f,
                    (&world.held::<T, I>(), &world.held::<U, J>(), a2, input),
                )) ==> RefStepCall::<R, In>::call_pre(&step, world, input),
        RefStepCall::<R, In>::call_post(&step, world, input, after, world_after, out) ==> {
            &&& after == step
            &&& exists|held: V|
                #[trigger] promise(
                    (world.held::<T, I>(), world.held::<U, J>(), world.held::<V, K>(), *input),
                    (held,),
                    out,
                )
                    && world_after == world.holding::<V, K>(held)
        },
{
    if RefStepCall::<R, In>::call_post(&step, world, input, after, world_after, out) {
        let held = choose|held: V|
            #[trigger] effect_ppmp(
                step.f,
                &world.held::<T, I>(),
                &world.held::<U, J>(),
                world.held::<V, K>(),
                input,
                held,
                out,
            )
                && world_after == world.holding::<V, K>(held);
        lemma_effect_ppmp(
            step.f,
            &world.held::<T, I>(),
            &world.held::<U, J>(),
            world.held::<V, K>(),
            input,
            held,
            out,
        );
        assert(promise(
            (world.held::<T, I>(), world.held::<U, J>(), world.held::<V, K>(), *input),
            (held,),
            out,
        ));
    }
}

/// What a function of three resources promises, its step promises of what the world holds.
pub proof fn lemma_ref_step_res_resmut_res<
    R,
    T,
    I,
    U,
    J,
    V,
    K,
    In,
    Out,
    F: FnMut(&T, &mut U, &V, &In) -> Out,
>(
    step: Step<F, (Res<T, I>, ResMut<U, J>, Res<V, K>), Out>,
    promise: spec_fn((T, U, V, In), (U,), Out) -> bool,
    world: World<R>,
    input: &In,
    after: Step<F, (Res<T, I>, ResMut<U, J>, Res<V, K>), Out>,
    world_after: World<R>,
    out: Out,
) where R: Apart3<T, I, V, K, U, J>
    requires
        forall|a0: &T, a1: &mut U, a2: &V, a3: &In, o: Out|
            #[trigger] call_ensures(step.f, (a0, a1, a2, a3), o)
                ==> promise((*a0, *a1, *a2, *a3), (*final(a1),), o),
    ensures
        (forall|a1: &mut U|
            *a1 == world.held::<U, J>()
                ==> #[trigger] call_requires(
                    step.f,
                    (&world.held::<T, I>(), a1, &world.held::<V, K>(), input),
                )) ==> RefStepCall::<R, In>::call_pre(&step, world, input),
        RefStepCall::<R, In>::call_post(&step, world, input, after, world_after, out) ==> {
            &&& after == step
            &&& exists|held: U|
                #[trigger] promise(
                    (world.held::<T, I>(), world.held::<U, J>(), world.held::<V, K>(), *input),
                    (held,),
                    out,
                )
                    && world_after == world.holding::<U, J>(held)
        },
{
    if RefStepCall::<R, In>::call_post(&step, world, input, after, world_after, out) {
        let held = choose|held: U|
            #[trigger] effect_pmpp(
                step.f,
                &world.held::<T, I>(),
                world.held::<U, J>(),
                &world.held::<V, K>(),
                input,
                held,
                out,
            )
                && world_after == world.holding::<U, J>(held);
        lemma_effect_pmpp(
            step.f,
            &world.held::<T, I>(),
            world.held::<U, J>(),
            &world.held::<V, K>(),
            input,
            held,
            out,
        );
        assert(promise(
            (world.held::<T, I>(), world.held::<U, J>(), world.held::<V, K>(), *input),
            (held,),
            out,
        ));
    }
}

/// What a function of three resources promises, its step promises of what the world holds.
pub proof fn lemma_ref_step_res_resmut_resmut<
    R,
    T,
    I,
    U,
    J,
    V,
    K,
    In,
    Out,
    F: FnMut(&T, &mut U, &mut V, &In) -> Out,
>(
    step: Step<F, (Res<T, I>, ResMut<U, J>, ResMut<V, K>), Out>,
    promise: spec_fn((T, U, V, In), (U, V), Out) -> bool,
    world: World<R>,
    input: &In,
    after: Step<F, (Res<T, I>, ResMut<U, J>, ResMut<V, K>), Out>,
    world_after: World<R>,
    out: Out,
) where R: Apart3<T, I, U, J, V, K>
    requires
        forall|a0: &T, a1: &mut U, a2: &mut V, a3: &In, o: Out|
            #[trigger] call_ensures(step.f, (a0, a1, a2, a3), o)
                ==> promise((*a0, *a1, *a2, *a3), (*final(a1), *final(a2)), o),
    ensures
        (forall|a1: &mut U, a2: &mut V|
            *a1 == world.held::<U, J>() && *a2 == world.held::<V, K>()
                ==> #[trigger] call_requires(
                    step.f,
                    (&world.held::<T, I>(), a1, a2, input),
                )) ==> RefStepCall::<R, In>::call_pre(&step, world, input),
        RefStepCall::<R, In>::call_post(&step, world, input, after, world_after, out) ==> {
            &&& after == step
            &&& exists|held: U, other: V|
                #[trigger] promise(
                    (world.held::<T, I>(), world.held::<U, J>(), world.held::<V, K>(), *input),
                    (held, other),
                    out,
                )
                    && world_after == world.holding::<U, J>(held).holding::<V, K>(other)
        },
{
    if RefStepCall::<R, In>::call_post(&step, world, input, after, world_after, out) {
        let (held, other) = choose|held: U, other: V|
            #[trigger] effect_pmmp(
                step.f,
                &world.held::<T, I>(),
                world.held::<U, J>(),
                world.held::<V, K>(),
                input,
                held,
                other,
                out,
            )
                && world_after == world.holding::<U, J>(held).holding::<V, K>(other);
        lemma_effect_pmmp(
            step.f,
            &world.held::<T, I>(),
            world.held::<U, J>(),
            world.held::<V, K>(),
            input,
            held,
            other,
            out,
        );
        assert(promise(
            (world.held::<T, I>(), world.held::<U, J>(), world.held::<V, K>(), *input),
            (held, other),
            out,
        ));
    }
}

/// What a function of three resources promises, its step promises of what the world holds.
pub proof fn lemma_ref_step_resmut_res_res<
    R,
    T,
    I,
    U,
    J,
    V,
    K,
    In,
    Out,
    F: FnMut(&mut T, &U, &V, &In) -> Out,
>(
    step: Step<F, (ResMut<T, I>, Res<U, J>, Res<V, K>), Out>,
    promise: spec_fn((T, U, V, In), (T,), Out) -> bool,
    world: World<R>,
    input: &In,
    after: Step<F, (ResMut<T, I>, Res<U, J>, Res<V, K>), Out>,
    world_after: World<R>,
    out: Out,
) where R: Apart3<U, J, V, K, T, I>
    requires
        forall|a0: &mut T, a1: &U, a2: &V, a3: &In, o: Out|
            #[trigger] call_ensures(step.f, (a0, a1, a2, a3), o)
                ==> promise((*a0, *a1, *a2, *a3), (*final(a0),), o),
    ensures
        (forall|a0: &mut T|
            *a0 == world.held::<T, I>()
                ==> #[trigger] call_requires(
                    step.f,
                    (a0, &world.held::<U, J>(), &world.held::<V, K>(), input),
                )) ==> RefStepCall::<R, In>::call_pre(&step, world, input),
        RefStepCall::<R, In>::call_post(&step, world, input, after, world_after, out) ==> {
            &&& after == step
            &&& exists|held: T|
                #[trigger] promise(
                    (world.held::<T, I>(), world.held::<U, J>(), world.held::<V, K>(), *input),
                    (held,),
                    out,
                )
                    && world_after == world.holding::<T, I>(held)
        },
{
    if RefStepCall::<R, In>::call_post(&step, world, input, after, world_after, out) {
        let held = choose|held: T|
            #[trigger] effect_mppp(
                step.f,
                world.held::<T, I>(),
                &world.held::<U, J>(),
                &world.held::<V, K>(),
                input,
                held,
                out,
            )
                && world_after == world.holding::<T, I>(held);
        lemma_effect_mppp(
            step.f,
            world.held::<T, I>(),
            &world.held::<U, J>(),
            &world.held::<V, K>(),
            input,
            held,
            out,
        );
        assert(promise(
            (world.held::<T, I>(), world.held::<U, J>(), world.held::<V, K>(), *input),
            (held,),
            out,
        ));
    }
}

/// What a function of three resources promises, its step promises of what the world holds.
pub proof fn lemma_ref_step_resmut_res_resmut<
    R,
    T,
    I,
    U,
    J,
    V,
    K,
    In,
    Out,
    F: FnMut(&mut T, &U, &mut V, &In) -> Out,
>(
    step: Step<F, (ResMut<T, I>, Res<U, J>, ResMut<V, K>), Out>,
    promise: spec_fn((T, U, V, In), (T, V), Out) -> bool,
    world: World<R>,
    input: &In,
    after: Step<F, (ResMut<T, I>, Res<U, J>, ResMut<V, K>), Out>,
    world_after: World<R>,
    out: Out,
) where R: Apart3<U, J, T, I, V, K>
    requires
        forall|a0: &mut T, a1: &U, a2: &mut V, a3: &In, o: Out|
            #[trigger] call_ensures(step.f, (a0, a1, a2, a3), o)
                ==> promise((*a0, *a1, *a2, *a3), (*final(a0), *final(a2)), o),
    ensures
        (forall|a0: &mut T, a2: &mut V|
            *a0 == world.held::<T, I>() && *a2 == world.held::<V, K>()
                ==> #[trigger] call_requires(
                    step.f,
                    (a0, &world.held::<U, J>(), a2, input),
                )) ==> RefStepCall::<R, In>::call_pre(&step, world, input),
        RefStepCall::<R, In>::call_post(&step, world, input, after, world_after, out) ==> {
            &&& after == step
            &&& exists|held: T, other: V|
                #[trigger] promise(
                    (world.held::<T, I>(), world.held::<U, J>(), world.held::<V, K>(), *input),
                    (held, other),
                    out,
                )
                    && world_after == world.holding::<T, I>(held).holding::<V, K>(other)
        },
{
    if RefStepCall::<R, In>::call_post(&step, world, input, after, world_after, out) {
        let (held, other) = choose|held: T, other: V|
            #[trigger] effect_mpmp(
                step.f,
                world.held::<T, I>(),
                &world.held::<U, J>(),
                world.held::<V, K>(),
                input,
                held,
                other,
                out,
            )
                && world_after == world.holding::<T, I>(held).holding::<V, K>(other);
        lemma_effect_mpmp(
            step.f,
            world.held::<T, I>(),
            &world.held::<U, J>(),
            world.held::<V, K>(),
            input,
            held,
            other,
            out,
        );
        assert(promise(
            (world.held::<T, I>(), world.held::<U, J>(), world.held::<V, K>(), *input),
            (held, other),
            out,
        ));
    }
}

/// What a function of three resources promises, its step promises of what the world holds.
pub proof fn lemma_ref_step_resmut_resmut_res<
    R,
    T,
    I,
    U,
    J,
    V,
    K,
    In,
    Out,
    F: FnMut(&mut T, &mut U, &V, &In) -> Out,
>(
    step: Step<F, (ResMut<T, I>, ResMut<U, J>, Res<V, K>), Out>,
    promise: spec_fn((T, U, V, In), (T, U), Out) -> bool,
    world: World<R>,
    input: &In,
    after: Step<F, (ResMut<T, I>, ResMut<U, J>, Res<V, K>), Out>,
    world_after: World<R>,
    out: Out,
) where R: Apart3<V, K, T, I, U, J>
    requires
        forall|a0: &mut T, a1: &mut U, a2: &V, a3: &In, o: Out|
            #[trigger] call_ensures(step.f, (a0, a1, a2, a3), o)
                ==> promise((*a0, *a1, *a2, *a3), (*final(a0), *final(a1)), o),
    ensures
        (forall|a0: &mut T, a1: &mut U|
            *a0 == world.held::<T, I>() && *a1 == world.held::<U, J>()
                ==> #[trigger] call_requires(
                    step.f,
                    (a0, a1, &world.held::<V, K>(), input),
                )) ==> RefStepCall::<R, In>::call_pre(&step, world, input),
        RefStepCall::<R, In>::call_post(&step, world, input, after, world_after, out) ==> {
            &&& after == step
            &&& exists|held: T, other: U|
                #[trigger] promise(
                    (world.held::<T, I>(), world.held::<U, J>(), world.held::<V, K>(), *input),
                    (held, other),
                    out,
                )
                    && world_after == world.holding::<T, I>(held).holding::<U, J>(other)
        },
{
    if RefStepCall::<R, In>::call_post(&step, world, input, after, world_after, out) {
        let (held, other) = choose|held: T, other: U|
            #[trigger] effect_mmpp(
                step.f,
                world.held::<T, I>(),
                world.held::<U, J>(),
                &world.held::<V, K>(),
                input,
                held,
                other,
                out,
            )
                && world_after == world.holding::<T, I>(held).holding::<U, J>(other);
        lemma_effect_mmpp(
            step.f,
            world.held::<T, I>(),
            world.held::<U, J>(),
            &world.held::<V, K>(),
            input,
            held,
            other,
            out,
        );
        assert(promise(
            (world.held::<T, I>(), world.held::<U, J>(), world.held::<V, K>(), *input),
            (held, other),
            out,
        ));
    }
}

/// What a function of three resources promises, its step promises of what the world holds.
pub proof fn lemma_ref_step_resmut_resmut_resmut<
    R,
    T,
    I,
    U,
    J,
    V,
    K,
    In,
    Out,
    F: FnMut(&mut T, &mut U, &mut V, &In) -> Out,
>(
    step: Step<F, (ResMut<T, I>, ResMut<U, J>, ResMut<V, K>), Out>,
    promise: spec_fn((T, U, V, In), (T, U, V), Out) -> bool,
    world: World<R>,
    input: &In,
    after: Step<F, (ResMut<T, I>, ResMut<U, J>, ResMut<V, K>), Out>,
    world_after: World<R>,
    out: Out,
) where R: Apart3<T, I, U, J, V, K>
    requires
        forall|a0: &mut T, a1: &mut U, a2: &mut V, a3: &In, o: Out|
            #[trigger] call_ensures(step.f, (a0, a1, a2, a3), o)
                ==> promise((*a0, *a1, *a2, *a3), (*final(a0), *final(a1), *final(a2)), o),
    ensures
        (forall|a0: &mut T, a1: &mut U, a2: &mut V|
            *a0 == world.held::<T, I>()
                && *a1 == world.held::<U, J>()
                && *a2 == world.held::<V, K>()
                ==> #[trigger] call_requires(step.f, (a0, a1, a2, input)))
                    ==> RefStepCall::<R, In>::call_pre(&step, world, input),
        RefStepCall::<R, In>::call_post(&step, world, input, after, world_after, out) ==> {
            &&& after == step
            &&& exists|held: T, other: U, last: V|
                #[trigger] promise(
                    (world.held::<T, I>(), world.held::<U, J>(), world.held::<V, K>(), *input),
                    (held, other, last),
                    out,
                )
                    && world_after == world.holding::<T, I>(held).holding::<U, J>(other).holding::<V, K>(last)
        },
{
    if RefStepCall::<R, In>::call_post(&step, world, input, after, world_after, out) {
        let (held, other, last) = choose|held: T, other: U, last: V|
            #[trigger] effect_mmmp(
                step.f,
                world.held::<T, I>(),
                world.held::<U, J>(),
                world.held::<V, K>(),
                input,
                held,
                other,
                last,
                out,
            )
                && world_after == world.holding::<T, I>(held).holding::<U, J>(other).holding::<V, K>(last);
        lemma_effect_mmmp(
            step.f,
            world.held::<T, I>(),
            world.held::<U, J>(),
            world.held::<V, K>(),
            input,
            held,
            other,
            last,
            out,
        );
        assert(promise(
            (world.held::<T, I>(), world.held::<U, J>(), world.held::<V, K>(), *input),
            (held, other, last),
            out,
        ));
    }
}

/// What a function of three resources promises, its step promises of what the world holds.
pub proof fn lemma_ref_step_res_res_res_without_event<
    R,
    T,
    I,
    U,
    J,
    V,
    K,
    Out,
    F: FnMut(&T, &U, &V) -> Out,
>(
    step: Step<NoEvent<F>, (Res<T, I>, Res<U, J>, Res<V, K>), Out>,
    promise: spec_fn((T, U, V), (), Out) -> bool,
    world: World<R>,
    input: &(),
    after: Step<NoEvent<F>, (Res<T, I>, Res<U, J>, Res<V, K>), Out>,
    world_after: World<R>,
    out: Out,
) where R: Resource<T, I> + Resource<U, J> + Resource<V, K>
    requires
        forall|a0: &T, a1: &U, a2: &V, o: Out|
            #[trigger] call_ensures(step.f.0, (a0, a1, a2), o) ==> promise((*a0, *a1, *a2), (), o),
    ensures
        call_requires(
            step.f.0,
            (&world.held::<T, I>(), &world.held::<U, J>(), &world.held::<V, K>()),
        )
            ==> RefStepCall::<R, ()>::call_pre(&step, world, input),
        RefStepCall::<R, ()>::call_post(&step, world, input, after, world_after, out) ==> {
            &&& after == step
            &&& world_after == world
            &&& promise((world.held::<T, I>(), world.held::<U, J>(), world.held::<V, K>()), (), out)
        },
{
}

/// What a function of three resources promises, its step promises of what the world holds.
pub proof fn lemma_ref_step_res_res_resmut_without_event<
    R,
    T,
    I,
    U,
    J,
    V,
    K,
    Out,
    F: FnMut(&T, &U, &mut V) -> Out,
>(
    step: Step<NoEvent<F>, (Res<T, I>, Res<U, J>, ResMut<V, K>), Out>,
    promise: spec_fn((T, U, V), (V,), Out) -> bool,
    world: World<R>,
    input: &(),
    after: Step<NoEvent<F>, (Res<T, I>, Res<U, J>, ResMut<V, K>), Out>,
    world_after: World<R>,
    out: Out,
) where R: Apart3<T, I, U, J, V, K>
    requires
        forall|a0: &T, a1: &U, a2: &mut V, o: Out|
            #[trigger] call_ensures(step.f.0, (a0, a1, a2), o)
                ==> promise((*a0, *a1, *a2), (*final(a2),), o),
    ensures
        (forall|a2: &mut V|
            *a2 == world.held::<V, K>()
                ==> #[trigger] call_requires(
                    step.f.0,
                    (&world.held::<T, I>(), &world.held::<U, J>(), a2),
                )) ==> RefStepCall::<R, ()>::call_pre(&step, world, input),
        RefStepCall::<R, ()>::call_post(&step, world, input, after, world_after, out) ==> {
            &&& after == step
            &&& exists|held: V|
                #[trigger] promise(
                    (world.held::<T, I>(), world.held::<U, J>(), world.held::<V, K>()),
                    (held,),
                    out,
                )
                    && world_after == world.holding::<V, K>(held)
        },
{
    if RefStepCall::<R, ()>::call_post(&step, world, input, after, world_after, out) {
        let held = choose|held: V|
            #[trigger] effect_ppm(
                step.f.0,
                &world.held::<T, I>(),
                &world.held::<U, J>(),
                world.held::<V, K>(),
                held,
                out,
            )
                && world_after == world.holding::<V, K>(held);
        lemma_effect_ppm(
            step.f.0,
            &world.held::<T, I>(),
            &world.held::<U, J>(),
            world.held::<V, K>(),
            held,
            out,
        );
        assert(promise(
            (world.held::<T, I>(), world.held::<U, J>(), world.held::<V, K>()),
            (held,),
            out,
        ));
    }
}

/// What a function of three resources promises, its step promises of what the world holds.
pub proof fn lemma_ref_step_res_resmut_res_without_event<
    R,
    T,
    I,
    U,
    J,
    V,
    K,
    Out,
    F: FnMut(&T, &mut U, &V) -> Out,
>(
    step: Step<NoEvent<F>, (Res<T, I>, ResMut<U, J>, Res<V, K>), Out>,
    promise: spec_fn((T, U, V), (U,), Out) -> bool,
    world: World<R>,
    input: &(),
    after: Step<NoEvent<F>, (Res<T, I>, ResMut<U, J>, Res<V, K>), Out>,
    world_after: World<R>,
    out: Out,
) where R: Apart3<T, I, V, K, U, J>
    requires
        forall|a0: &T, a1: &mut U, a2: &V, o: Out|
            #[trigger] call_ensures(step.f.0, (a0, a1, a2), o)
                ==> promise((*a0, *a1, *a2), (*final(a1),), o),
    ensures
        (forall|a1: &mut U|
            *a1 == world.held::<U, J>()
                ==> #[trigger] call_requires(
                    step.f.0,
                    (&world.held::<T, I>(), a1, &world.held::<V, K>()),
                )) ==> RefStepCall::<R, ()>::call_pre(&step, world, input),
        RefStepCall::<R, ()>::call_post(&step, world, input, after, world_after, out) ==> {
            &&& after == step
            &&& exists|held: U|
                #[trigger] promise(
                    (world.held::<T, I>(), world.held::<U, J>(), world.held::<V, K>()),
                    (held,),
                    out,
                )
                    && world_after == world.holding::<U, J>(held)
        },
{
    if RefStepCall::<R, ()>::call_post(&step, world, input, after, world_after, out) {
        let held = choose|held: U|
            #[trigger] effect_pmp(
                step.f.0,
                &world.held::<T, I>(),
                world.held::<U, J>(),
                &world.held::<V, K>(),
                held,
                out,
            )
                && world_after == world.holding::<U, J>(held);
        lemma_effect_pmp(
            step.f.0,
            &world.held::<T, I>(),
            world.held::<U, J>(),
            &world.held::<V, K>(),
            held,
            out,
        );
        assert(promise(
            (world.held::<T, I>(), world.held::<U, J>(), world.held::<V, K>()),
            (held,),
            out,
        ));
    }
}

/// What a function of three resources promises, its step promises of what the world holds.
pub proof fn lemma_ref_step_res_resmut_resmut_without_event<
    R,
    T,
    I,
    U,
    J,
    V,
    K,
    Out,
    F: FnMut(&T, &mut U, &mut V) -> Out,
>(
    step: Step<NoEvent<F>, (Res<T, I>, ResMut<U, J>, ResMut<V, K>), Out>,
    promise: spec_fn((T, U, V), (U, V), Out) -> bool,
    world: World<R>,
    input: &(),
    after: Step<NoEvent<F>, (Res<T, I>, ResMut<U, J>, ResMut<V, K>), Out>,
    world_after: World<R>,
    out: Out,
) where R: Apart3<T, I, U, J, V, K>
    requires
        forall|a0: &T, a1: &mut U, a2: &mut V, o: Out|
            #[trigger] call_ensures(step.f.0, (a0, a1, a2), o)
                ==> promise((*a0, *a1, *a2), (*final(a1), *final(a2)), o),
    ensures
        (forall|a1: &mut U, a2: &mut V|
            *a1 == world.held::<U, J>() && *a2 == world.held::<V, K>()
                ==> #[trigger] call_requires(
                    step.f.0,
                    (&world.held::<T, I>(), a1, a2),
                )) ==> RefStepCall::<R, ()>::call_pre(&step, world, input),
        RefStepCall::<R, ()>::call_post(&step, world, input, after, world_after, out) ==> {
            &&& after == step
            &&& exists|held: U, other: V|
                #[trigger] promise(
                    (world.held::<T, I>(), world.held::<U, J>(), world.held::<V, K>()),
                    (held, other),
                    out,
                )
                    && world_after == world.holding::<U, J>(held).holding::<V, K>(other)
        },
{
    if RefStepCall::<R, ()>::call_post(&step, world, input, after, world_after, out) {
        let (held, other) = choose|held: U, other: V|
            #[trigger] effect_pmm(
                step.f.0,
                &world.held::<T, I>(),
                world.held::<U, J>(),
                world.held::<V, K>(),
                held,
                other,
                out,
            )
                && world_after == world.holding::<U, J>(held).holding::<V, K>(other);
        lemma_effect_pmm(
            step.f.0,
            &world.held::<T, I>(),
            world.held::<U, J>(),
            world.held::<V, K>(),
            held,
            other,
            out,
        );
        assert(promise(
            (world.held::<T, I>(), world.held::<U, J>(), world.held::<V, K>()),
            (held, other),
            out,
        ));
    }
}

/// What a function of three resources promises, its step promises of what the world holds.
pub proof fn lemma_ref_step_resmut_res_res_without_event<
    R,
    T,
    I,
    U,
    J,
    V,
    K,
    Out,
    F: FnMut(&mut T, &U, &V) -> Out,
>(
    step: Step<NoEvent<F>, (ResMut<T, I>, Res<U, J>, Res<V, K>), Out>,
    promise: spec_fn((T, U, V), (T,), Out) -> bool,
    world: World<R>,
    input: &(),
    after: Step<NoEvent<F>, (ResMut<T, I>, Res<U, J>, Res<V, K>), Out>,
    world_after: World<R>,
    out: Out,
) where R: Apart3<U, J, V, K, T, I>
    requires
        forall|a0: &mut T, a1: &U, a2: &V, o: Out|
            #[trigger] call_ensures(step.f.0, (a0, a1, a2), o)
                ==> promise((*a0, *a1, *a2), (*final(a0),), o),
    ensures
        (forall|a0: &mut T|
            *a0 == world.held::<T, I>()
                ==> #[trigger] call_requires(
                    step.f.0,
                    (a0, &world.held::<U, J>(), &world.held::<V, K>()),
                )) ==> RefStepCall::<R, ()>::call_pre(&step, world, input),
        RefStepCall::<R, ()>::call_post(&step, world, input, after, world_after, out) ==> {
            &&& after == step
            &&& exists|held: T|
                #[trigger] promise(
                    (world.held::<T, I>(), world.held::<U, J>(), world.held::<V, K>()),
                    (held,),
                    out,
                )
                    && world_after == world.holding::<T, I>(held)
        },
{
    if RefStepCall::<R, ()>::call_post(&step, world, input, after, world_after, out) {
        let held = choose|held: T|
            #[trigger] effect_mpp(
                step.f.0,
                world.held::<T, I>(),
                &world.held::<U, J>(),
                &world.held::<V, K>(),
                held,
                out,
            )
                && world_after == world.holding::<T, I>(held);
        lemma_effect_mpp(
            step.f.0,
            world.held::<T, I>(),
            &world.held::<U, J>(),
            &world.held::<V, K>(),
            held,
            out,
        );
        assert(promise(
            (world.held::<T, I>(), world.held::<U, J>(), world.held::<V, K>()),
            (held,),
            out,
        ));
    }
}

/// What a function of three resources promises, its step promises of what the world holds.
pub proof fn lemma_ref_step_resmut_res_resmut_without_event<
    R,
    T,
    I,
    U,
    J,
    V,
    K,
    Out,
    F: FnMut(&mut T, &U, &mut V) -> Out,
>(
    step: Step<NoEvent<F>, (ResMut<T, I>, Res<U, J>, ResMut<V, K>), Out>,
    promise: spec_fn((T, U, V), (T, V), Out) -> bool,
    world: World<R>,
    input: &(),
    after: Step<NoEvent<F>, (ResMut<T, I>, Res<U, J>, ResMut<V, K>), Out>,
    world_after: World<R>,
    out: Out,
) where R: Apart3<U, J, T, I, V, K>
    requires
        forall|a0: &mut T, a1: &U, a2: &mut V, o: Out|
            #[trigger] call_ensures(step.f.0, (a0, a1, a2), o)
                ==> promise((*a0, *a1, *a2), (*final(a0), *final(a2)), o),
    ensures
        (forall|a0: &mut T, a2: &mut V|
            *a0 == world.held::<T, I>() && *a2 == world.held::<V, K>()
                ==> #[trigger] call_requires(
                    step.f.0,
                    (a0, &world.held::<U, J>(), a2),
                )) ==> RefStepCall::<R, ()>::call_pre(&step, world, input),
        RefStepCall::<R, ()>::call_post(&step, world, input, after, world_after, out) ==> {
            &&& after == step
            &&& exists|held: T, other: V|
                #[trigger] promise(
                    (world.held::<T, I>(), world.held::<U, J>(), world.held::<V, K>()),
                    (held, other),
                    out,
                )
                    && world_after == world.holding::<T, I>(held).holding::<V, K>(other)
        },
{
    if RefStepCall::<R, ()>::call_post(&step, world, input, after, world_after, out) {
        let (held, other) = choose|held: T, other: V|
            #[trigger] effect_mpm(
                step.f.0,
                world.held::<T, I>(),
                &world.held::<U, J>(),
                world.held::<V, K>(),
                held,
                other,
                out,
            )
                && world_after == world.holding::<T, I>(held).holding::<V, K>(other);
        lemma_effect_mpm(
            step.f.0,
            world.held::<T, I>(),
            &world.held::<U, J>(),
            world.held::<V, K>(),
            held,
            other,
            out,
        );
        assert(promise(
            (world.held::<T, I>(), world.held::<U, J>(), world.held::<V, K>()),
            (held, other),
            out,
        ));
    }
}

/// What a function of three resources promises, its step promises of what the world holds.
pub proof fn lemma_ref_step_resmut_resmut_res_without_event<
    R,
    T,
    I,
    U,
    J,
    V,
    K,
    Out,
    F: FnMut(&mut T, &mut U, &V) -> Out,
>(
    step: Step<NoEvent<F>, (ResMut<T, I>, ResMut<U, J>, Res<V, K>), Out>,
    promise: spec_fn((T, U, V), (T, U), Out) -> bool,
    world: World<R>,
    input: &(),
    after: Step<NoEvent<F>, (ResMut<T, I>, ResMut<U, J>, Res<V, K>), Out>,
    world_after: World<R>,
    out: Out,
) where R: Apart3<V, K, T, I, U, J>
    requires
        forall|a0: &mut T, a1: &mut U, a2: &V, o: Out|
            #[trigger] call_ensures(step.f.0, (a0, a1, a2), o)
                ==> promise((*a0, *a1, *a2), (*final(a0), *final(a1)), o),
    ensures
        (forall|a0: &mut T, a1: &mut U|
            *a0 == world.held::<T, I>() && *a1 == world.held::<U, J>()
                ==> #[trigger] call_requires(
                    step.f.0,
                    (a0, a1, &world.held::<V, K>()),
                )) ==> RefStepCall::<R, ()>::call_pre(&step, world, input),
        RefStepCall::<R, ()>::call_post(&step, world, input, after, world_after, out) ==> {
            &&& after == step
            &&& exists|held: T, other: U|
                #[trigger] promise(
                    (world.held::<T, I>(), world.held::<U, J>(), world.held::<V, K>()),
                    (held, other),
                    out,
                )
                    && world_after == world.holding::<T, I>(held).holding::<U, J>(other)
        },
{
    if RefStepCall::<R, ()>::call_post(&step, world, input, after, world_after, out) {
        let (held, other) = choose|held: T, other: U|
            #[trigger] effect_mmp(
                step.f.0,
                world.held::<T, I>(),
                world.held::<U, J>(),
                &world.held::<V, K>(),
                held,
                other,
                out,
            )
                && world_after == world.holding::<T, I>(held).holding::<U, J>(other);
        lemma_effect_mmp(
            step.f.0,
            world.held::<T, I>(),
            world.held::<U, J>(),
            &world.held::<V, K>(),
            held,
            other,
            out,
        );
        assert(promise(
            (world.held::<T, I>(), world.held::<U, J>(), world.held::<V, K>()),
            (held, other),
            out,
        ));
    }
}

/// What a function of three resources promises, its step promises of what the world holds.
pub proof fn lemma_ref_step_resmut_resmut_resmut_without_event<
    R,
    T,
    I,
    U,
    J,
    V,
    K,
    Out,
    F: FnMut(&mut T, &mut U, &mut V) -> Out,
>(
    step: Step<NoEvent<F>, (ResMut<T, I>, ResMut<U, J>, ResMut<V, K>), Out>,
    promise: spec_fn((T, U, V), (T, U, V), Out) -> bool,
    world: World<R>,
    input: &(),
    after: Step<NoEvent<F>, (ResMut<T, I>, ResMut<U, J>, ResMut<V, K>), Out>,
    world_after: World<R>,
    out: Out,
) where R: Apart3<T, I, U, J, V, K>
    requires
        forall|a0: &mut T, a1: &mut U, a2: &mut V, o: Out|
            #[trigger] call_ensures(step.f.0, (a0, a1, a2), o)
                ==> promise((*a0, *a1, *a2), (*final(a0), *final(a1), *final(a2)), o),
    ensures
        (forall|a0: &mut T, a1: &mut U, a2: &mut V|
            *a0 == world.held::<T, I>()
                && *a1 == world.held::<U, J>()
                && *a2 == world.held::<V, K>()
                ==> #[trigger] call_requires(step.f.0, (a0, a1, a2)))
                    ==> RefStepCall::<R, ()>::call_pre(&step, world, input),
        RefStepCall::<R, ()>::call_post(&step, world, input, after, world_after, out) ==> {
            &&& after == step
            &&& exists|held: T, other: U, last: V|
                #[trigger] promise(
                    (world.held::<T, I>(), world.held::<U, J>(), world.held::<V, K>()),
                    (held, other, last),
                    out,
                )
                    && world_after == world.holding::<T, I>(held).holding::<U, J>(other).holding::<V, K>(last)
        },
{
    if RefStepCall::<R, ()>::call_post(&step, world, input, after, world_after, out) {
        let (held, other, last) = choose|held: T, other: U, last: V|
            #[trigger] effect_mmm(
                step.f.0,
                world.held::<T, I>(),
                world.held::<U, J>(),
                world.held::<V, K>(),
                held,
                other,
                last,
                out,
            )
                && world_after == world.holding::<T, I>(held).holding::<U, J>(other).holding::<V, K>(last);
        lemma_effect_mmm(
            step.f.0,
            world.held::<T, I>(),
            world.held::<U, J>(),
            world.held::<V, K>(),
            held,
            other,
            last,
            out,
        );
        assert(promise(
            (world.held::<T, I>(), world.held::<U, J>(), world.held::<V, K>()),
            (held, other, last),
            out,
        ));
    }
}

/// What a function of three resources promises, its step promises of what the world holds.
pub proof fn lemma_producer_res_res_res<R, T, I, U, J, V, K, Out, F: FnMut(&T, &U, &V) -> Out>(
    step: Step<F, (Res<T, I>, Res<U, J>, Res<V, K>), Out>,
    promise: spec_fn((T, U, V), (), Out) -> bool,
    world: World<R>,
    after: Step<F, (Res<T, I>, Res<U, J>, Res<V, K>), Out>,
    world_after: World<R>,
    out: Out,
) where R: Resource<T, I> + Resource<U, J> + Resource<V, K>
    requires
        forall|a0: &T, a1: &U, a2: &V, o: Out|
            #[trigger] call_ensures(step.f, (a0, a1, a2), o) ==> promise((*a0, *a1, *a2), (), o),
    ensures
        call_requires(step.f, (&world.held::<T, I>(), &world.held::<U, J>(), &world.held::<V, K>()))
            ==> ProducerCall::<R>::call_pre(&step, world),
        ProducerCall::<R>::call_post(&step, world, after, world_after, out) ==> {
            &&& after == step
            &&& world_after == world
            &&& promise((world.held::<T, I>(), world.held::<U, J>(), world.held::<V, K>()), (), out)
        },
{
}

/// What a function of three resources promises, its step promises of what the world holds.
pub proof fn lemma_producer_res_res_resmut<
    R,
    T,
    I,
    U,
    J,
    V,
    K,
    Out,
    F: FnMut(&T, &U, &mut V) -> Out,
>(
    step: Step<F, (Res<T, I>, Res<U, J>, ResMut<V, K>), Out>,
    promise: spec_fn((T, U, V), (V,), Out) -> bool,
    world: World<R>,
    after: Step<F, (Res<T, I>, Res<U, J>, ResMut<V, K>), Out>,
    world_after: World<R>,
    out: Out,
) where R: Apart3<T, I, U, J, V, K>
    requires
        forall|a0: &T, a1: &U, a2: &mut V, o: Out|
            #[trigger] call_ensures(step.f, (a0, a1, a2), o)
                ==> promise((*a0, *a1, *a2), (*final(a2),), o),
    ensures
        (forall|a2: &mut V|
            *a2 == world.held::<V, K>()
                ==> #[trigger] call_requires(
                    step.f,
                    (&world.held::<T, I>(), &world.held::<U, J>(), a2),
                )) ==> ProducerCall::<R>::call_pre(&step, world),
        ProducerCall::<R>::call_post(&step, world, after, world_after, out) ==> {
            &&& after == step
            &&& exists|held: V|
                #[trigger] promise(
                    (world.held::<T, I>(), world.held::<U, J>(), world.held::<V, K>()),
                    (held,),
                    out,
                )
                    && world_after == world.holding::<V, K>(held)
        },
{
    if ProducerCall::<R>::call_post(&step, world, after, world_after, out) {
        let held = choose|held: V|
            #[trigger] effect_ppm(
                step.f,
                &world.held::<T, I>(),
                &world.held::<U, J>(),
                world.held::<V, K>(),
                held,
                out,
            )
                && world_after == world.holding::<V, K>(held);
        lemma_effect_ppm(
            step.f,
            &world.held::<T, I>(),
            &world.held::<U, J>(),
            world.held::<V, K>(),
            held,
            out,
        );
        assert(promise(
            (world.held::<T, I>(), world.held::<U, J>(), world.held::<V, K>()),
            (held,),
            out,
        ));
    }
}

/// What a function of three resources promises, its step promises of what the world holds.
pub proof fn lemma_producer_res_resmut_res<
    R,
    T,
    I,
    U,
    J,
    V,
    K,
    Out,
    F: FnMut(&T, &mut U, &V) -> Out,
>(
    step: Step<F, (Res<T, I>, ResMut<U, J>, Res<V, K>), Out>,
    promise: spec_fn((T, U, V), (U,), Out) -> bool,
    world: World<R>,
    after: Step<F, (Res<T, I>, ResMut<U, J>, Res<V, K>), Out>,
    world_after: World<R>,
    out: Out,
) where R: Apart3<T, I, V, K, U, J>
    requires
        forall|a0: &T, a1: &mut U, a2: &V, o: Out|
            #[trigger] call_ensures(step.f, (a0, a1, a2), o)
                ==> promise((*a0, *a1, *a2), (*final(a1),), o),
    ensures
        (forall|a1: &mut U|
            *a1 == world.held::<U, J>()
                ==> #[trigger] call_requires(
                    step.f,
                    (&world.held::<T, I>(), a1, &world.held::<V, K>()),
                )) ==> ProducerCall::<R>::call_pre(&step, world),
        ProducerCall::<R>::call_post(&step, world, after, world_after, out) ==> {
            &&& after == step
            &&& exists|held: U|
                #[trigger] promise(
                    (world.held::<T, I>(), world.held::<U, J>(), world.held::<V, K>()),
                    (held,),
                    out,
                )
                    && world_after == world.holding::<U, J>(held)
        },
{
    if ProducerCall::<R>::call_post(&step, world, after, world_after, out) {
        let held = choose|held: U|
            #[trigger] effect_pmp(
                step.f,
                &world.held::<T, I>(),
                world.held::<U, J>(),
                &world.held::<V, K>(),
                held,
                out,
            )
                && world_after == world.holding::<U, J>(held);
        lemma_effect_pmp(
            step.f,
            &world.held::<T, I>(),
            world.held::<U, J>(),
            &world.held::<V, K>(),
            held,
            out,
        );
        assert(promise(
            (world.held::<T, I>(), world.held::<U, J>(), world.held::<V, K>()),
            (held,),
            out,
        ));
    }
}

/// What a function of three resources promises, its step promises of what the world holds.
pub proof fn lemma_producer_res_resmut_resmut<
    R,
    T,
    I,
    U,
    J,
    V,
    K,
    Out,
    F: FnMut(&T, &mut U, &mut V) -> Out,
>(
    step: Step<F, (Res<T, I>, ResMut<U, J>, ResMut<V, K>), Out>,
    promise: spec_fn((T, U, V), (U, V), Out) -> bool,
    world: World<R>,
    after: Step<F, (Res<T, I>, ResMut<U, J>, ResMut<V, K>), Out>,
    world_after: World<R>,
    out: Out,
) where R: Apart3<T, I, U, J, V, K>
    requires
        forall|a0: &T, a1: &mut U, a2: &mut V, o: Out|
            #[trigger] call_ensures(step.f, (a0, a1, a2), o)
                ==> promise((*a0, *a1, *a2), (*final(a1), *final(a2)), o),
    ensures
        (forall|a1: &mut U, a2: &mut V|
            *a1 == world.held::<U, J>() && *a2 == world.held::<V, K>()
                ==> #[trigger] call_requires(step.f, (&world.held::<T, I>(), a1, a2)))
                    ==> ProducerCall::<R>::call_pre(&step, world),
        ProducerCall::<R>::call_post(&step, world, after, world_after, out) ==> {
            &&& after == step
            &&& exists|held: U, other: V|
                #[trigger] promise(
                    (world.held::<T, I>(), world.held::<U, J>(), world.held::<V, K>()),
                    (held, other),
                    out,
                )
                    && world_after == world.holding::<U, J>(held).holding::<V, K>(other)
        },
{
    if ProducerCall::<R>::call_post(&step, world, after, world_after, out) {
        let (held, other) = choose|held: U, other: V|
            #[trigger] effect_pmm(
                step.f,
                &world.held::<T, I>(),
                world.held::<U, J>(),
                world.held::<V, K>(),
                held,
                other,
                out,
            )
                && world_after == world.holding::<U, J>(held).holding::<V, K>(other);
        lemma_effect_pmm(
            step.f,
            &world.held::<T, I>(),
            world.held::<U, J>(),
            world.held::<V, K>(),
            held,
            other,
            out,
        );
        assert(promise(
            (world.held::<T, I>(), world.held::<U, J>(), world.held::<V, K>()),
            (held, other),
            out,
        ));
    }
}

/// What a function of three resources promises, its step promises of what the world holds.
pub proof fn lemma_producer_resmut_res_res<
    R,
    T,
    I,
    U,
    J,
    V,
    K,
    Out,
    F: FnMut(&mut T, &U, &V) -> Out,
>(
    step: Step<F, (ResMut<T, I>, Res<U, J>, Res<V, K>), Out>,
    promise: spec_fn((T, U, V), (T,), Out) -> bool,
    world: World<R>,
    after: Step<F, (ResMut<T, I>, Res<U, J>, Res<V, K>), Out>,
    world_after: World<R>,
    out: Out,
) where R: Apart3<U, J, V, K, T, I>
    requires
        forall|a0: &mut T, a1: &U, a2: &V, o: Out|
            #[trigger] call_ensures(step.f, (a0, a1, a2), o)
                ==> promise((*a0, *a1, *a2), (*final(a0),), o),
    ensures
        (forall|a0: &mut T|
            *a0 == world.held::<T, I>()
                ==> #[trigger] call_requires(
                    step.f,
                    (a0, &world.held::<U, J>(), &world.held::<V, K>()),
                )) ==> ProducerCall::<R>::call_pre(&step, world),
        ProducerCall::<R>::call_post(&step, world, after, world_after, out) ==> {
            &&& after == step
            &&& exists|held: T|
                #[trigger] promise(
                    (world.held::<T, I>(), world.held::<U, J>(), world.held::<V, K>()),
                    (held,),
                    out,
                )
                    && world_after == world.holding::<T, I>(held)
        },
{
    if ProducerCall::<R>::call_post(&step, world, after, world_after, out) {
        let held = choose|held: T|
            #[trigger] effect_mpp(
                step.f,
                world.held::<T, I>(),
                &world.held::<U, J>(),
                &world.held::<V, K>(),
                held,
                out,
            )
                && world_after == world.holding::<T, I>(held);
        lemma_effect_mpp(
            step.f,
            world.held::<T, I>(),
            &world.held::<U, J>(),
            &world.held::<V, K>(),
            held,
            out,
        );
        assert(promise(
            (world.held::<T, I>(), world.held::<U, J>(), world.held::<V, K>()),
            (held,),
            out,
        ));
    }
}

/// What a function of three resources promises, its step promises of what the world holds.
pub proof fn lemma_producer_resmut_res_resmut<
    R,
    T,
    I,
    U,
    J,
    V,
    K,
    Out,
    F: FnMut(&mut T, &U, &mut V) -> Out,
>(
    step: Step<F, (ResMut<T, I>, Res<U, J>, ResMut<V, K>), Out>,
    promise: spec_fn((T, U, V), (T, V), Out) -> bool,
    world: World<R>,
    after: Step<F, (ResMut<T, I>, Res<U, J>, ResMut<V, K>), Out>,
    world_after: World<R>,
    out: Out,
) where R: Apart3<U, J, T, I, V, K>
    requires
        forall|a0: &mut T, a1: &U, a2: &mut V, o: Out|
            #[trigger] call_ensures(step.f, (a0, a1, a2), o)
                ==> promise((*a0, *a1, *a2), (*final(a0), *final(a2)), o),
    ensures
        (forall|a0: &mut T, a2: &mut V|
            *a0 == world.held::<T, I>() && *a2 == world.held::<V, K>()
                ==> #[trigger] call_requires(step.f, (a0, &world.held::<U, J>(), a2)))
                    ==> ProducerCall::<R>::call_pre(&step, world),
        ProducerCall::<R>::call_post(&step, world, after, world_after, out) ==> {
            &&& after == step
            &&& exists|held: T, other: V|
                #[trigger] promise(
                    (world.held::<T, I>(), world.held::<U, J>(), world.held::<V, K>()),
                    (held, other),
                    out,
                )
                    && world_after == world.holding::<T, I>(held).holding::<V, K>(other)
        },
{
    if ProducerCall::<R>::call_post(&step, world, after, world_after, out) {
        let (held, other) = choose|held: T, other: V|
            #[trigger] effect_mpm(
                step.f,
                world.held::<T, I>(),
                &world.held::<U, J>(),
                world.held::<V, K>(),
                held,
                other,
                out,
            )
                && world_after == world.holding::<T, I>(held).holding::<V, K>(other);
        lemma_effect_mpm(
            step.f,
            world.held::<T, I>(),
            &world.held::<U, J>(),
            world.held::<V, K>(),
            held,
            other,
            out,
        );
        assert(promise(
            (world.held::<T, I>(), world.held::<U, J>(), world.held::<V, K>()),
            (held, other),
            out,
        ));
    }
}

/// What a function of three resources promises, its step promises of what the world holds.
pub proof fn lemma_producer_resmut_resmut_res<
    R,
    T,
    I,
    U,
    J,
    V,
    K,
    Out,
    F: FnMut(&mut T, &mut U, &V) -> Out,
>(
    step: Step<F, (ResMut<T, I>, ResMut<U, J>, Res<V, K>), Out>,
    promise: spec_fn((T, U, V), (T, U), Out) -> bool,
    world: World<R>,
    after: Step<F, (ResMut<T, I>, ResMut<U, J>, Res<V, K>), Out>,
    world_after: World<R>,
    out: Out,
) where R: Apart3<V, K, T, I, U, J>
    requires
        forall|a0: &mut T, a1: &mut U, a2: &V, o: Out|
            #[trigger] call_ensures(step.f, (a0, a1, a2), o)
                ==> promise((*a0, *a1, *a2), (*final(a0), *final(a1)), o),
    ensures
        (forall|a0: &mut T, a1: &mut U|
            *a0 == world.held::<T, I>() && *a1 == world.held::<U, J>()
                ==> #[trigger] call_requires(step.f, (a0, a1, &world.held::<V, K>())))
                    ==> ProducerCall::<R>::call_pre(&step, world),
        ProducerCall::<R>::call_post(&step, world, after, world_after, out) ==> {
            &&& after == step
            &&& exists|held: T, other: U|
                #[trigger] promise(
                    (world.held::<T, I>(), world.held::<U, J>(), world.held::<V, K>()),
                    (held, other),
                    out,
                )
                    && world_after == world.holding::<T, I>(held).holding::<U, J>(other)
        },
{
    if ProducerCall::<R>::call_post(&step, world, after, world_after, out) {
        let (held, other) = choose|held: T, other: U|
            #[trigger] effect_mmp(
                step.f,
                world.held::<T, I>(),
                world.held::<U, J>(),
                &world.held::<V, K>(),
                held,
                other,
                out,
            )
                && world_after == world.holding::<T, I>(held).holding::<U, J>(other);
        lemma_effect_mmp(
            step.f,
            world.held::<T, I>(),
            world.held::<U, J>(),
            &world.held::<V, K>(),
            held,
            other,
            out,
        );
        assert(promise(
            (world.held::<T, I>(), world.held::<U, J>(), world.held::<V, K>()),
            (held, other),
            out,
        ));
    }
}

/// What a function of three resources promises, its step promises of what the world holds.
pub proof fn lemma_producer_resmut_resmut_resmut<
    R,
    T,
    I,
    U,
    J,
    V,
    K,
    Out,
    F: FnMut(&mut T, &mut U, &mut V) -> Out,
>(
    step: Step<F, (ResMut<T, I>, ResMut<U, J>, ResMut<V, K>), Out>,
    promise: spec_fn((T, U, V), (T, U, V), Out) -> bool,
    world: World<R>,
    after: Step<F, (ResMut<T, I>, ResMut<U, J>, ResMut<V, K>), Out>,
    world_after: World<R>,
    out: Out,
) where R: Apart3<T, I, U, J, V, K>
    requires
        forall|a0: &mut T, a1: &mut U, a2: &mut V, o: Out|
            #[trigger] call_ensures(step.f, (a0, a1, a2), o)
                ==> promise((*a0, *a1, *a2), (*final(a0), *final(a1), *final(a2)), o),
    ensures
        (forall|a0: &mut T, a1: &mut U, a2: &mut V|
            *a0 == world.held::<T, I>()
                && *a1 == world.held::<U, J>()
                && *a2 == world.held::<V, K>()
                ==> #[trigger] call_requires(step.f, (a0, a1, a2)))
                    ==> ProducerCall::<R>::call_pre(&step, world),
        ProducerCall::<R>::call_post(&step, world, after, world_after, out) ==> {
            &&& after == step
            &&& exists|held: T, other: U, last: V|
                #[trigger] promise(
                    (world.held::<T, I>(), world.held::<U, J>(), world.held::<V, K>()),
                    (held, other, last),
                    out,
                )
                    && world_after == world.holding::<T, I>(held).holding::<U, J>(other).holding::<V, K>(last)
        },
{
    if ProducerCall::<R>::call_post(&step, world, after, world_after, out) {
        let (held, other, last) = choose|held: T, other: U, last: V|
            #[trigger] effect_mmm(
                step.f,
                world.held::<T, I>(),
                world.held::<U, J>(),
                world.held::<V, K>(),
                held,
                other,
                last,
                out,
            )
                && world_after == world.holding::<T, I>(held).holding::<U, J>(other).holding::<V, K>(last);
        lemma_effect_mmm(
            step.f,
            world.held::<T, I>(),
            world.held::<U, J>(),
            world.held::<V, K>(),
            held,
            other,
            last,
            out,
        );
        assert(promise(
            (world.held::<T, I>(), world.held::<U, J>(), world.held::<V, K>()),
            (held, other, last),
            out,
        ));
    }
}

/// What a function of three resources promises, its step promises of what the world holds.
pub proof fn lemma_scan_step_res_res_res<
    R,
    T,
    I,
    U,
    J,
    V,
    K,
    Acc,
    In,
    Out,
    F: FnMut(&T, &U, &V, &mut Acc, In) -> Out,
>(
    step: Step<F, (Res<T, I>, Res<U, J>, Res<V, K>), Out>,
    promise: spec_fn((T, U, V, Acc, In), (Acc,), Out) -> bool,
    world: World<R>,
    acc: Acc,
    input: In,
    after: Step<F, (Res<T, I>, Res<U, J>, Res<V, K>), Out>,
    world_after: World<R>,
    acc_after: Acc,
    out: Out,
) where R: Resource<T, I> + Resource<U, J> + Resource<V, K>
    requires
        forall|a0: &T, a1: &U, a2: &V, a3: &mut Acc, a4: In, o: Out|
            #[trigger] call_ensures(step.f, (a0, a1, a2, a3, a4), o)
                ==> promise((*a0, *a1, *a2, *a3, a4), (*final(a3),), o),
    ensures
        (forall|a3: &mut Acc|
            *a3 == acc
                ==> #[trigger] call_requires(
                    step.f,
                    (
                        &world.held::<T, I>(),
                        &world.held::<U, J>(),
                        &world.held::<V, K>(),
                        a3,
                        input,
                    ),
                )) ==> ScanStepCall::<R, Acc, In>::call_pre(&step, world, acc, input),
        ScanStepCall::<R, Acc, In>::call_post(
            &step,
            world,
            acc,
            input,
            after,
            world_after,
            acc_after,
            out,
        )
            ==> {
            &&& after == step
            &&& world_after == world
            &&& promise(
                (world.held::<T, I>(), world.held::<U, J>(), world.held::<V, K>(), acc, input),
                (acc_after,),
                out,
            )
        },
{
    if ScanStepCall::<R, Acc, In>::call_post(
        &step,
        world,
        acc,
        input,
        after,
        world_after,
        acc_after,
        out,
    ) {
        lemma_effect_pppmp(
            step.f,
            &world.held::<T, I>(),
            &world.held::<U, J>(),
            &world.held::<V, K>(),
            acc,
            input,
            acc_after,
            out,
        );
    }
}

/// What a function of three resources promises, its step promises of what the world holds.
pub proof fn lemma_scan_step_res_res_resmut<
    R,
    T,
    I,
    U,
    J,
    V,
    K,
    Acc,
    In,
    Out,
    F: FnMut(&T, &U, &mut V, &mut Acc, In) -> Out,
>(
    step: Step<F, (Res<T, I>, Res<U, J>, ResMut<V, K>), Out>,
    promise: spec_fn((T, U, V, Acc, In), (V, Acc), Out) -> bool,
    world: World<R>,
    acc: Acc,
    input: In,
    after: Step<F, (Res<T, I>, Res<U, J>, ResMut<V, K>), Out>,
    world_after: World<R>,
    acc_after: Acc,
    out: Out,
) where R: Apart3<T, I, U, J, V, K>
    requires
        forall|a0: &T, a1: &U, a2: &mut V, a3: &mut Acc, a4: In, o: Out|
            #[trigger] call_ensures(step.f, (a0, a1, a2, a3, a4), o)
                ==> promise((*a0, *a1, *a2, *a3, a4), (*final(a2), *final(a3)), o),
    ensures
        (forall|a2: &mut V, a3: &mut Acc|
            *a2 == world.held::<V, K>() && *a3 == acc
                ==> #[trigger] call_requires(
                    step.f,
                    (&world.held::<T, I>(), &world.held::<U, J>(), a2, a3, input),
                )) ==> ScanStepCall::<R, Acc, In>::call_pre(&step, world, acc, input),
        ScanStepCall::<R, Acc, In>::call_post(
            &step,
            world,
            acc,
            input,
            after,
            world_after,
            acc_after,
            out,
        )
            ==> {
            &&& after == step
            &&& exists|held: V|
                #[trigger] promise(
                    (world.held::<T, I>(), world.held::<U, J>(), world.held::<V, K>(), acc, input),
                    (held, acc_after),
                    out,
                )
                    && world_after == world.holding::<V, K>(held)
        },
{
    if ScanStepCall::<R, Acc, In>::call_post(
        &step,
        world,
        acc,
        input,
        after,
        world_after,
        acc_after,
        out,
    ) {
        let held = choose|held: V|
            #[trigger] effect_ppmmp(
                step.f,
                &world.held::<T, I>(),
                &world.held::<U, J>(),
                world.held::<V, K>(),
                acc,
                input,
                held,
                acc_after,
                out,
            )
                && world_after == world.holding::<V, K>(held);
        lemma_effect_ppmmp(
            step.f,
            &world.held::<T, I>(),
            &world.held::<U, J>(),
            world.held::<V, K>(),
            acc,
            input,
            held,
            acc_after,
            out,
        );
        assert(promise(
            (world.held::<T, I>(), world.held::<U, J>(), world.held::<V, K>(), acc, input),
            (held, acc_after),
            out,
        ));
    }
}

/// What a function of three resources promises, its step promises of what the world holds.
pub proof fn lemma_scan_step_res_resmut_res<
    R,
    T,
    I,
    U,
    J,
    V,
    K,
    Acc,
    In,
    Out,
    F: FnMut(&T, &mut U, &V, &mut Acc, In) -> Out,
>(
    step: Step<F, (Res<T, I>, ResMut<U, J>, Res<V, K>), Out>,
    promise: spec_fn((T, U, V, Acc, In), (U, Acc), Out) -> bool,
    world: World<R>,
    acc: Acc,
    input: In,
    after: Step<F, (Res<T, I>, ResMut<U, J>, Res<V, K>), Out>,
    world_after: World<R>,
    acc_after: Acc,
    out: Out,
) where R: Apart3<T, I, V, K, U, J>
    requires
        forall|a0: &T, a1: &mut U, a2: &V, a3: &mut Acc, a4: In, o: Out|
            #[trigger] call_ensures(step.f, (a0, a1, a2, a3, a4), o)
                ==> promise((*a0, *a1, *a2, *a3, a4), (*final(a1), *final(a3)), o),
    ensures
        (forall|a1: &mut U, a3: &mut Acc|
            *a1 == world.held::<U, J>() && *a3 == acc
                ==> #[trigger] call_requires(
                    step.f,
                    (&world.held::<T, I>(), a1, &world.held::<V, K>(), a3, input),
                )) ==> ScanStepCall::<R, Acc, In>::call_pre(&step, world, acc, input),
        ScanStepCall::<R, Acc, In>::call_post(
            &step,
            world,
            acc,
            input,
            after,
            world_after,
            acc_after,
            out,
        )
            ==> {
            &&& after == step
            &&& exists|held: U|
                #[trigger] promise(
                    (world.held::<T, I>(), world.held::<U, J>(), world.held::<V, K>(), acc, input),
                    (held, acc_after),
                    out,
                )
                    && world_after == world.holding::<U, J>(held)
        },
{
    if ScanStepCall::<R, Acc, In>::call_post(
        &step,
        world,
        acc,
        input,
        after,
        world_after,
        acc_after,
        out,
    ) {
        let held = choose|held: U|
            #[trigger] effect_pmpmp(
                step.f,
                &world.held::<T, I>(),
                world.held::<U, J>(),
                &world.held::<V, K>(),
                acc,
                input,
                held,
                acc_after,
                out,
            )
                && world_after == world.holding::<U, J>(held);
        lemma_effect_pmpmp(
            step.f,
            &world.held::<T, I>(),
            world.held::<U, J>(),
            &world.held::<V, K>(),
            acc,
            input,
            held,
            acc_after,
            out,
        );
        assert(promise(
            (world.held::<T, I>(), world.held::<U, J>(), world.held::<V, K>(), acc, input),
            (held, acc_after),
            out,
        ));
    }
}

/// What a function of three resources promises, its step promises of what the world holds.
pub proof fn lemma_scan_step_res_resmut_resmut<
    R,
    T,
    I,
    U,
    J,
    V,
    K,
    Acc,
    In,
    Out,
    F: FnMut(&T, &mut U, &mut V, &mut Acc, In) -> Out,
>(
    step: Step<F, (Res<T, I>, ResMut<U, J>, ResMut<V, K>), Out>,
    promise: spec_fn((T, U, V, Acc, In), (U, V, Acc), Out) -> bool,
    world: World<R>,
    acc: Acc,
    input: In,
    after: Step<F, (Res<T, I>, ResMut<U, J>, ResMut<V, K>), Out>,
    world_after: World<R>,
    acc_after: Acc,
    out: Out,
) where R: Apart3<T, I, U, J, V, K>
    requires
        forall|a0: &T, a1: &mut U, a2: &mut V, a3: &mut Acc, a4: In, o: Out|
            #[trigger] call_ensures(step.f, (a0, a1, a2, a3, a4), o)
                ==> promise((*a0, *a1, *a2, *a3, a4), (*final(a1), *final(a2), *final(a3)), o),
    ensures
        (forall|a1: &mut U, a2: &mut V, a3: &mut Acc|
            *a1 == world.held::<U, J>() && *a2 == world.held::<V, K>() && *a3 == acc
                ==> #[trigger] call_requires(
                    step.f,
                    (&world.held::<T, I>(), a1, a2, a3, input),
                )) ==> ScanStepCall::<R, Acc, In>::call_pre(&step, world, acc, input),
        ScanStepCall::<R, Acc, In>::call_post(
            &step,
            world,
            acc,
            input,
            after,
            world_after,
            acc_after,
            out,
        )
            ==> {
            &&& after == step
            &&& exists|held: U, other: V|
                #[trigger] promise(
                    (world.held::<T, I>(), world.held::<U, J>(), world.held::<V, K>(), acc, input),
                    (held, other, acc_after),
                    out,
                )
                    && world_after == world.holding::<U, J>(held).holding::<V, K>(other)
        },
{
    if ScanStepCall::<R, Acc, In>::call_post(
        &step,
        world,
        acc,
        input,
        after,
        world_after,
        acc_after,
        out,
    ) {
        let (held, other) = choose|held: U, other: V|
            #[trigger] effect_pmmmp(
                step.f,
                &world.held::<T, I>(),
                world.held::<U, J>(),
                world.held::<V, K>(),
                acc,
                input,
                held,
                other,
                acc_after,
                out,
            )
                && world_after == world.holding::<U, J>(held).holding::<V, K>(other);
        lemma_effect_pmmmp(
            step.f,
            &world.held::<T, I>(),
            world.held::<U, J>(),
            world.held::<V, K>(),
            acc,
            input,
            held,
            other,
            acc_after,
            out,
        );
        assert(promise(
            (world.held::<T, I>(), world.held::<U, J>(), world.held::<V, K>(), acc, input),
            (held, other, acc_after),
            out,
        ));
    }
}

/// What a function of three resources promises, its step promises of what the world holds.
pub proof fn lemma_scan_step_resmut_res_res<
    R,
    T,
    I,
    U,
    J,
    V,
    K,
    Acc,
    In,
    Out,
    F: FnMut(&mut T, &U, &V, &mut Acc, In) -> Out,
>(
    step: Step<F, (ResMut<T, I>, Res<U, J>, Res<V, K>), Out>,
    promise: spec_fn((T, U, V, Acc, In), (T, Acc), Out) -> bool,
    world: World<R>,
    acc: Acc,
    input: In,
    after: Step<F, (ResMut<T, I>, Res<U, J>, Res<V, K>), Out>,
    world_after: World<R>,
    acc_after: Acc,
    out: Out,
) where R: Apart3<U, J, V, K, T, I>
    requires
        forall|a0: &mut T, a1: &U, a2: &V, a3: &mut Acc, a4: In, o: Out|
            #[trigger] call_ensures(step.f, (a0, a1, a2, a3, a4), o)
                ==> promise((*a0, *a1, *a2, *a3, a4), (*final(a0), *final(a3)), o),
    ensures
        (forall|a0: &mut T, a3: &mut Acc|
            *a0 == world.held::<T, I>() && *a3 == acc
                ==> #[trigger] call_requires(
                    step.f,
                    (a0, &world.held::<U, J>(), &world.held::<V, K>(), a3, input),
                )) ==> ScanStepCall::<R, Acc, In>::call_pre(&step, world, acc, input),
        ScanStepCall::<R, Acc, In>::call_post(
            &step,
            world,
            acc,
            input,
            after,
            world_after,
            acc_after,
            out,
        )
            ==> {
            &&& after == step
            &&& exists|held: T|
                #[trigger] promise(
                    (world.held::<T, I>(), world.held::<U, J>(), world.held::<V, K>(), acc, input),
                    (held, acc_after),
                    out,
                )
                    && world_after == world.holding::<T, I>(held)
        },
{
    if ScanStepCall::<R, Acc, In>::call_post(
        &step,
        world,
        acc,
        input,
        after,
        world_after,
        acc_after,
        out,
    ) {
        let held = choose|held: T|
            #[trigger] effect_mppmp(
                step.f,
                world.held::<T, I>(),
                &world.held::<U, J>(),
                &world.held::<V, K>(),
                acc,
                input,
                held,
                acc_after,
                out,
            )
                && world_after == world.holding::<T, I>(held);
        lemma_effect_mppmp(
            step.f,
            world.held::<T, I>(),
            &world.held::<U, J>(),
            &world.held::<V, K>(),
            acc,
            input,
            held,
            acc_after,
            out,
        );
        assert(promise(
            (world.held::<T, I>(), world.held::<U, J>(), world.held::<V, K>(), acc, input),
            (held, acc_after),
            out,
        ));
    }
}

/// What a function of three resources promises, its step promises of what the world holds.
pub proof fn lemma_scan_step_resmut_res_resmut<
    R,
    T,
    I,
    U,
    J,
    V,
    K,
    Acc,
    In,
    Out,
    F: FnMut(&mut T, &U, &mut V, &mut Acc, In) -> Out,
>(
    step: Step<F, (ResMut<T, I>, Res<U, J>, ResMut<V, K>), Out>,
    promise: spec_fn((T, U, V, Acc, In), (T, V, Acc), Out) -> bool,
    world: World<R>,
    acc: Acc,
    input: In,
    after: Step<F, (ResMut<T, I>, Res<U, J>, ResMut<V, K>), Out>,
    world_after: World<R>,
    acc_after: Acc,
    out: Out,
) where R: Apart3<U, J, T, I, V, K>
    requires
        forall|a0: &mut T, a1: &U, a2: &mut V, a3: &mut Acc, a4: In, o: Out|
            #[trigger] call_ensures(step.f, (a0, a1, a2, a3, a4), o)
                ==> promise((*a0, *a1, *a2, *a3, a4), (*final(a0), *final(a2), *final(a3)), o),
    ensures
        (forall|a0: &mut T, a2: &mut V, a3: &mut Acc|
            *a0 == world.held::<T, I>() && *a2 == world.held::<V, K>() && *a3 == acc
                ==> #[trigger] call_requires(
                    step.f,
                    (a0, &world.held::<U, J>(), a2, a3, input),
                )) ==> ScanStepCall::<R, Acc, In>::call_pre(&step, world, acc, input),
        ScanStepCall::<R, Acc, In>::call_post(
            &step,
            world,
            acc,
            input,
            after,
            world_after,
            acc_after,
            out,
        )
            ==> {
            &&& after == step
            &&& exists|held: T, other: V|
                #[trigger] promise(
                    (world.held::<T, I>(), world.held::<U, J>(), world.held::<V, K>(), acc, input),
                    (held, other, acc_after),
                    out,
                )
                    && world_after == world.holding::<T, I>(held).holding::<V, K>(other)
        },
{
    if ScanStepCall::<R, Acc, In>::call_post(
        &step,
        world,
        acc,
        input,
        after,
        world_after,
        acc_after,
        out,
    ) {
        let (held, other) = choose|held: T, other: V|
            #[trigger] effect_mpmmp(
                step.f,
                world.held::<T, I>(),
                &world.held::<U, J>(),
                world.held::<V, K>(),
                acc,
                input,
                held,
                other,
                acc_after,
                out,
            )
                && world_after == world.holding::<T, I>(held).holding::<V, K>(other);
        lemma_effect_mpmmp(
            step.f,
            world.held::<T, I>(),
            &world.held::<U, J>(),
            world.held::<V, K>(),
            acc,
            input,
            held,
            other,
            acc_after,
            out,
        );
        assert(promise(
            (world.held::<T, I>(), world.held::<U, J>(), world.held::<V, K>(), acc, input),
            (held, other, acc_after),
            out,
        ));
    }
}

/// What a function of three resources promises, its step promises of what the world holds.
pub proof fn lemma_scan_step_resmut_resmut_res<
    R,
    T,
    I,
    U,
    J,
    V,
    K,
    Acc,
    In,
    Out,
    F: FnMut(&mut T, &mut U, &V, &mut Acc, In) -> Out,
>(
    step: Step<F, (ResMut<T, I>, ResMut<U, J>, Res<V, K>), Out>,
    promise: spec_fn((T, U, V, Acc, In), (T, U, Acc), Out) -> bool,
    world: World<R>,
    acc: Acc,
    input: In,
    after: Step<F, (ResMut<T, I>, ResMut<U, J>, Res<V, K>), Out>,
    world_after: World<R>,
    acc_after: Acc,
    out: Out,
) where R: Apart3<V, K, T, I, U, J>
    requires
        forall|a0: &mut T, a1: &mut U, a2: &V, a3: &mut Acc, a4: In, o: Out|
            #[trigger] call_ensures(step.f, (a0, a1, a2, a3, a4), o)
                ==> promise((*a0, *a1, *a2, *a3, a4), (*final(a0), *final(a1), *final(a3)), o),
    ensures
        (forall|a0: &mut T, a1: &mut U, a3: &mut Acc|
            *a0 == world.held::<T, I>() && *a1 == world.held::<U, J>() && *a3 == acc
                ==> #[trigger] call_requires(
                    step.f,
                    (a0, a1, &world.held::<V, K>(), a3, input),
                )) ==> ScanStepCall::<R, Acc, In>::call_pre(&step, world, acc, input),
        ScanStepCall::<R, Acc, In>::call_post(
            &step,
            world,
            acc,
            input,
            after,
            world_after,
            acc_after,
            out,
        )
            ==> {
            &&& after == step
            &&& exists|held: T, other: U|
                #[trigger] promise(
                    (world.held::<T, I>(), world.held::<U, J>(), world.held::<V, K>(), acc, input),
                    (held, other, acc_after),
                    out,
                )
                    && world_after == world.holding::<T, I>(held).holding::<U, J>(other)
        },
{
    if ScanStepCall::<R, Acc, In>::call_post(
        &step,
        world,
        acc,
        input,
        after,
        world_after,
        acc_after,
        out,
    ) {
        let (held, other) = choose|held: T, other: U|
            #[trigger] effect_mmpmp(
                step.f,
                world.held::<T, I>(),
                world.held::<U, J>(),
                &world.held::<V, K>(),
                acc,
                input,
                held,
                other,
                acc_after,
                out,
            )
                && world_after == world.holding::<T, I>(held).holding::<U, J>(other);
        lemma_effect_mmpmp(
            step.f,
            world.held::<T, I>(),
            world.held::<U, J>(),
            &world.held::<V, K>(),
            acc,
            input,
            held,
            other,
            acc_after,
            out,
        );
        assert(promise(
            (world.held::<T, I>(), world.held::<U, J>(), world.held::<V, K>(), acc, input),
            (held, other, acc_after),
            out,
        ));
    }
}

/// What a function of three resources promises, its step promises of what the world holds.
pub proof fn lemma_scan_step_resmut_resmut_resmut<
    R,
    T,
    I,
    U,
    J,
    V,
    K,
    Acc,
    In,
    Out,
    F: FnMut(&mut T, &mut U, &mut V, &mut Acc, In) -> Out,
>(
    step: Step<F, (ResMut<T, I>, ResMut<U, J>, ResMut<V, K>), Out>,
    promise: spec_fn((T, U, V, Acc, In), (T, U, V, Acc), Out) -> bool,
    world: World<R>,
    acc: Acc,
    input: In,
    after: Step<F, (ResMut<T, I>, ResMut<U, J>, ResMut<V, K>), Out>,
    world_after: World<R>,
    acc_after: Acc,
    out: Out,
) where R: Apart3<T, I, U, J, V, K>
    requires
        forall|a0: &mut T, a1: &mut U, a2: &mut V, a3: &mut Acc, a4: In, o: Out|
            #[trigger] call_ensures(step.f, (a0, a1, a2, a3, a4), o)
                ==> promise(
                    (*a0, *a1, *a2, *a3, a4),
                    (*final(a0), *final(a1), *final(a2), *final(a3)),
                    o,
                ),
    ensures
        (forall|a0: &mut T, a1: &mut U, a2: &mut V, a3: &mut Acc|
            *a0 == world.held::<T, I>()
                && *a1 == world.held::<U, J>()
                && *a2 == world.held::<V, K>()
                && *a3 == acc
                ==> #[trigger] call_requires(step.f, (a0, a1, a2, a3, input)))
                    ==> ScanStepCall::<R, Acc, In>::call_pre(&step, world, acc, input),
        ScanStepCall::<R, Acc, In>::call_post(
            &step,
            world,
            acc,
            input,
            after,
            world_after,
            acc_after,
            out,
        )
            ==> {
            &&& after == step
            &&& exists|held: T, other: U, last: V|
                #[trigger] promise(
                    (world.held::<T, I>(), world.held::<U, J>(), world.held::<V, K>(), acc, input),
                    (held, other, last, acc_after),
                    out,
                )
                    && world_after == world.holding::<T, I>(held).holding::<U, J>(other).holding::<V, K>(last)
        },
{
    if ScanStepCall::<R, Acc, In>::call_post(
        &step,
        world,
        acc,
        input,
        after,
        world_after,
        acc_after,
        out,
    ) {
        let (held, other, last) = choose|held: T, other: U, last: V|
            #[trigger] effect_mmmmp(
                step.f,
                world.held::<T, I>(),
                world.held::<U, J>(),
                world.held::<V, K>(),
                acc,
                input,
                held,
                other,
                last,
                acc_after,
                out,
            )
                && world_after == world.holding::<T, I>(held).holding::<U, J>(other).holding::<V, K>(last);
        lemma_effect_mmmmp(
            step.f,
            world.held::<T, I>(),
            world.held::<U, J>(),
            world.held::<V, K>(),
            acc,
            input,
            held,
            other,
            last,
            acc_after,
            out,
        );
        assert(promise(
            (world.held::<T, I>(), world.held::<U, J>(), world.held::<V, K>(), acc, input),
            (held, other, last, acc_after),
            out,
        ));
    }
}

/// What a function of three resources promises, its step promises of what the world holds.
pub proof fn lemma_scan_step_res_res_res_without_event<
    R,
    T,
    I,
    U,
    J,
    V,
    K,
    Acc,
    Out,
    F: FnMut(&T, &U, &V, &mut Acc) -> Out,
>(
    step: Step<NoEvent<F>, (Res<T, I>, Res<U, J>, Res<V, K>), Out>,
    promise: spec_fn((T, U, V, Acc), (Acc,), Out) -> bool,
    world: World<R>,
    acc: Acc,
    input: (),
    after: Step<NoEvent<F>, (Res<T, I>, Res<U, J>, Res<V, K>), Out>,
    world_after: World<R>,
    acc_after: Acc,
    out: Out,
) where R: Resource<T, I> + Resource<U, J> + Resource<V, K>
    requires
        forall|a0: &T, a1: &U, a2: &V, a3: &mut Acc, o: Out|
            #[trigger] call_ensures(step.f.0, (a0, a1, a2, a3), o)
                ==> promise((*a0, *a1, *a2, *a3), (*final(a3),), o),
    ensures
        (forall|a3: &mut Acc|
            *a3 == acc
                ==> #[trigger] call_requires(
                    step.f.0,
                    (&world.held::<T, I>(), &world.held::<U, J>(), &world.held::<V, K>(), a3),
                )) ==> ScanStepCall::<R, Acc, ()>::call_pre(&step, world, acc, input),
        ScanStepCall::<R, Acc, ()>::call_post(
            &step,
            world,
            acc,
            input,
            after,
            world_after,
            acc_after,
            out,
        )
            ==> {
            &&& after == step
            &&& world_after == world
            &&& promise(
                (world.held::<T, I>(), world.held::<U, J>(), world.held::<V, K>(), acc),
                (acc_after,),
                out,
            )
        },
{
    if ScanStepCall::<R, Acc, ()>::call_post(
        &step,
        world,
        acc,
        input,
        after,
        world_after,
        acc_after,
        out,
    ) {
        lemma_effect_pppm(
            step.f.0,
            &world.held::<T, I>(),
            &world.held::<U, J>(),
            &world.held::<V, K>(),
            acc,
            acc_after,
            out,
        );
    }
}

/// What a function of three resources promises, its step promises of what the world holds.
pub proof fn lemma_scan_step_res_res_resmut_without_event<
    R,
    T,
    I,
    U,
    J,
    V,
    K,
    Acc,
    Out,
    F: FnMut(&T, &U, &mut V, &mut Acc) -> Out,
>(
    step: Step<NoEvent<F>, (Res<T, I>, Res<U, J>, ResMut<V, K>), Out>,
    promise: spec_fn((T, U, V, Acc), (V, Acc), Out) -> bool,
    world: World<R>,
    acc: Acc,
    input: (),
    after: Step<NoEvent<F>, (Res<T, I>, Res<U, J>, ResMut<V, K>), Out>,
    world_after: World<R>,
    acc_after: Acc,
    out: Out,
) where R: Apart3<T, I, U, J, V, K>
    requires
        forall|a0: &T, a1: &U, a2: &mut V, a3: &mut Acc, o: Out|
            #[trigger] call_ensures(step.f.0, (a0, a1, a2, a3), o)
                ==> promise((*a0, *a1, *a2, *a3), (*final(a2), *final(a3)), o),
    ensures
        (forall|a2: &mut V, a3: &mut Acc|
            *a2 == world.held::<V, K>() && *a3 == acc
                ==> #[trigger] call_requires(
                    step.f.0,
                    (&world.held::<T, I>(), &world.held::<U, J>(), a2, a3),
                )) ==> ScanStepCall::<R, Acc, ()>::call_pre(&step, world, acc, input),
        ScanStepCall::<R, Acc, ()>::call_post(
            &step,
            world,
            acc,
            input,
            after,
            world_after,
            acc_after,
            out,
        )
            ==> {
            &&& after == step
            &&& exists|held: V|
                #[trigger] promise(
                    (world.held::<T, I>(), world.held::<U, J>(), world.held::<V, K>(), acc),
                    (held, acc_after),
                    out,
                )
                    && world_after == world.holding::<V, K>(held)
        },
{
    if ScanStepCall::<R, Acc, ()>::call_post(
        &step,
        world,
        acc,
        input,
        after,
        world_after,
        acc_after,
        out,
    ) {
        let held = choose|held: V|
            #[trigger] effect_ppmm(
                step.f.0,
                &world.held::<T, I>(),
                &world.held::<U, J>(),
                world.held::<V, K>(),
                acc,
                held,
                acc_after,
                out,
            )
                && world_after == world.holding::<V, K>(held);
        lemma_effect_ppmm(
            step.f.0,
            &world.held::<T, I>(),
            &world.held::<U, J>(),
            world.held::<V, K>(),
            acc,
            held,
            acc_after,
            out,
        );
        assert(promise(
            (world.held::<T, I>(), world.held::<U, J>(), world.held::<V, K>(), acc),
            (held, acc_after),
            out,
        ));
    }
}

/// What a function of three resources promises, its step promises of what the world holds.
pub proof fn lemma_scan_step_res_resmut_res_without_event<
    R,
    T,
    I,
    U,
    J,
    V,
    K,
    Acc,
    Out,
    F: FnMut(&T, &mut U, &V, &mut Acc) -> Out,
>(
    step: Step<NoEvent<F>, (Res<T, I>, ResMut<U, J>, Res<V, K>), Out>,
    promise: spec_fn((T, U, V, Acc), (U, Acc), Out) -> bool,
    world: World<R>,
    acc: Acc,
    input: (),
    after: Step<NoEvent<F>, (Res<T, I>, ResMut<U, J>, Res<V, K>), Out>,
    world_after: World<R>,
    acc_after: Acc,
    out: Out,
) where R: Apart3<T, I, V, K, U, J>
    requires
        forall|a0: &T, a1: &mut U, a2: &V, a3: &mut Acc, o: Out|
            #[trigger] call_ensures(step.f.0, (a0, a1, a2, a3), o)
                ==> promise((*a0, *a1, *a2, *a3), (*final(a1), *final(a3)), o),
    ensures
        (forall|a1: &mut U, a3: &mut Acc|
            *a1 == world.held::<U, J>() && *a3 == acc
                ==> #[trigger] call_requires(
                    step.f.0,
                    (&world.held::<T, I>(), a1, &world.held::<V, K>(), a3),
                )) ==> ScanStepCall::<R, Acc, ()>::call_pre(&step, world, acc, input),
        ScanStepCall::<R, Acc, ()>::call_post(
            &step,
            world,
            acc,
            input,
            after,
            world_after,
            acc_after,
            out,
        )
            ==> {
            &&& after == step
            &&& exists|held: U|
                #[trigger] promise(
                    (world.held::<T, I>(), world.held::<U, J>(), world.held::<V, K>(), acc),
                    (held, acc_after),
                    out,
                )
                    && world_after == world.holding::<U, J>(held)
        },
{
    if ScanStepCall::<R, Acc, ()>::call_post(
        &step,
        world,
        acc,
        input,
        after,
        world_after,
        acc_after,
        out,
    ) {
        let held = choose|held: U|
            #[trigger] effect_pmpm(
                step.f.0,
                &world.held::<T, I>(),
                world.held::<U, J>(),
                &world.held::<V, K>(),
                acc,
                held,
                acc_after,
                out,
            )
                && world_after == world.holding::<U, J>(held);
        lemma_effect_pmpm(
            step.f.0,
            &world.held::<T, I>(),
            world.held::<U, J>(),
            &world.held::<V, K>(),
            acc,
            held,
            acc_after,
            out,
        );
        assert(promise(
            (world.held::<T, I>(), world.held::<U, J>(), world.held::<V, K>(), acc),
            (held, acc_after),
            out,
        ));
    }
}

/// What a function of three resources promises, its step promises of what the world holds.
pub proof fn lemma_scan_step_res_resmut_resmut_without_event<
    R,
    T,
    I,
    U,
    J,
    V,
    K,
    Acc,
    Out,
    F: FnMut(&T, &mut U, &mut V, &mut Acc) -> Out,
>(
    step: Step<NoEvent<F>, (Res<T, I>, ResMut<U, J>, ResMut<V, K>), Out>,
    promise: spec_fn((T, U, V, Acc), (U, V, Acc), Out) -> bool,
    world: World<R>,
    acc: Acc,
    input: (),
    after: Step<NoEvent<F>, (Res<T, I>, ResMut<U, J>, ResMut<V, K>), Out>,
    world_after: World<R>,
    acc_after: Acc,
    out: Out,
) where R: Apart3<T, I, U, J, V, K>
    requires
        forall|a0: &T, a1: &mut U, a2: &mut V, a3: &mut Acc, o: Out|
            #[trigger] call_ensures(step.f.0, (a0, a1, a2, a3), o)
                ==> promise((*a0, *a1, *a2, *a3), (*final(a1), *final(a2), *final(a3)), o),
    ensures
        (forall|a1: &mut U, a2: &mut V, a3: &mut Acc|
            *a1 == world.held::<U, J>() && *a2 == world.held::<V, K>() && *a3 == acc
                ==> #[trigger] call_requires(
                    step.f.0,
                    (&world.held::<T, I>(), a1, a2, a3),
                )) ==> ScanStepCall::<R, Acc, ()>::call_pre(&step, world, acc, input),
        ScanStepCall::<R, Acc, ()>::call_post(
            &step,
            world,
            acc,
            input,
            after,
            world_after,
            acc_after,
            out,
        )
            ==> {
            &&& after == step
            &&& exists|held: U, other: V|
                #[trigger] promise(
                    (world.held::<T, I>(), world.held::<U, J>(), world.held::<V, K>(), acc),
                    (held, other, acc_after),
                    out,
                )
                    && world_after == world.holding::<U, J>(held).holding::<V, K>(other)
        },
{
    if ScanStepCall::<R, Acc, ()>::call_post(
        &step,
        world,
        acc,
        input,
        after,
        world_after,
        acc_after,
        out,
    ) {
        let (held, other) = choose|held: U, other: V|
            #[trigger] effect_pmmm(
                step.f.0,
                &world.held::<T, I>(),
                world.held::<U, J>(),
                world.held::<V, K>(),
                acc,
                held,
                other,
                acc_after,
                out,
            )
                && world_after == world.holding::<U, J>(held).holding::<V, K>(other);
        lemma_effect_pmmm(
            step.f.0,
            &world.held::<T, I>(),
            world.held::<U, J>(),
            world.held::<V, K>(),
            acc,
            held,
            other,
            acc_after,
            out,
        );
        assert(promise(
            (world.held::<T, I>(), world.held::<U, J>(), world.held::<V, K>(), acc),
            (held, other, acc_after),
            out,
        ));
    }
}

/// What a function of three resources promises, its step promises of what the world holds.
pub proof fn lemma_scan_step_resmut_res_res_without_event<
    R,
    T,
    I,
    U,
    J,
    V,
    K,
    Acc,
    Out,
    F: FnMut(&mut T, &U, &V, &mut Acc) -> Out,
>(
    step: Step<NoEvent<F>, (ResMut<T, I>, Res<U, J>, Res<V, K>), Out>,
    promise: spec_fn((T, U, V, Acc), (T, Acc), Out) -> bool,
    world: World<R>,
    acc: Acc,
    input: (),
    after: Step<NoEvent<F>, (ResMut<T, I>, Res<U, J>, Res<V, K>), Out>,
    world_after: World<R>,
    acc_after: Acc,
    out: Out,
) where R: Apart3<U, J, V, K, T, I>
    requires
        forall|a0: &mut T, a1: &U, a2: &V, a3: &mut Acc, o: Out|
            #[trigger] call_ensures(step.f.0, (a0, a1, a2, a3), o)
                ==> promise((*a0, *a1, *a2, *a3), (*final(a0), *final(a3)), o),
    ensures
        (forall|a0: &mut T, a3: &mut Acc|
            *a0 == world.held::<T, I>() && *a3 == acc
                ==> #[trigger] call_requires(
                    step.f.0,
                    (a0, &world.held::<U, J>(), &world.held::<V, K>(), a3),
                )) ==> ScanStepCall::<R, Acc, ()>::call_pre(&step, world, acc, input),
        ScanStepCall::<R, Acc, ()>::call_post(
            &step,
            world,
            acc,
            input,
            after,
            world_after,
            acc_after,
            out,
        )
            ==> {
            &&& after == step
            &&& exists|held: T|
                #[trigger] promise(
                    (world.held::<T, I>(), world.held::<U, J>(), world.held::<V, K>(), acc),
                    (held, acc_after),
                    out,
                )
                    && world_after == world.holding::<T, I>(held)
        },
{
    if ScanStepCall::<R, Acc, ()>::call_post(
        &step,
        world,
        acc,
        input,
        after,
        world_after,
        acc_after,
        out,
    ) {
        let held = choose|held: T|
            #[trigger] effect_mppm(
                step.f.0,
                world.held::<T, I>(),
                &world.held::<U, J>(),
                &world.held::<V, K>(),
                acc,
                held,
                acc_after,
                out,
            )
                && world_after == world.holding::<T, I>(held);
        lemma_effect_mppm(
            step.f.0,
            world.held::<T, I>(),
            &world.held::<U, J>(),
            &world.held::<V, K>(),
            acc,
            held,
            acc_after,
            out,
        );
        assert(promise(
            (world.held::<T, I>(), world.held::<U, J>(), world.held::<V, K>(), acc),
            (held, acc_after),
            out,
        ));
    }
}

/// What a function of three resources promises, its step promises of what the world holds.
pub proof fn lemma_scan_step_resmut_res_resmut_without_event<
    R,
    T,
    I,
    U,
    J,
    V,
    K,
    Acc,
    Out,
    F: FnMut(&mut T, &U, &mut V, &mut Acc) -> Out,
>(
    step: Step<NoEvent<F>, (ResMut<T, I>, Res<U, J>, ResMut<V, K>), Out>,
    promise: spec_fn((T, U, V, Acc), (T, V, Acc), Out) -> bool,
    world: World<R>,
    acc: Acc,
    input: (),
    after: Step<NoEvent<F>, (ResMut<T, I>, Res<U, J>, ResMut<V, K>), Out>,
    world_after: World<R>,
    acc_after: Acc,
    out: Out,
) where R: Apart3<U, J, T, I, V, K>
    requires
        forall|a0: &mut T, a1: &U, a2: &mut V, a3: &mut Acc, o: Out|
            #[trigger] call_ensures(step.f.0, (a0, a1, a2, a3), o)
                ==> promise((*a0, *a1, *a2, *a3), (*final(a0), *final(a2), *final(a3)), o),
    ensures
        (forall|a0: &mut T, a2: &mut V, a3: &mut Acc|
            *a0 == world.held::<T, I>() && *a2 == world.held::<V, K>() && *a3 == acc
                ==> #[trigger] call_requires(
                    step.f.0,
                    (a0, &world.held::<U, J>(), a2, a3),
                )) ==> ScanStepCall::<R, Acc, ()>::call_pre(&step, world, acc, input),
        ScanStepCall::<R, Acc, ()>::call_post(
            &step,
            world,
            acc,
            input,
            after,
            world_after,
            acc_after,
            out,
        )
            ==> {
            &&& after == step
            &&& exists|held: T, other: V|
                #[trigger] promise(
                    (world.held::<T, I>(), world.held::<U, J>(), world.held::<V, K>(), acc),
                    (held, other, acc_after),
                    out,
                )
                    && world_after == world.holding::<T, I>(held).holding::<V, K>(other)
        },
{
    if ScanStepCall::<R, Acc, ()>::call_post(
        &step,
        world,
        acc,
        input,
        after,
        world_after,
        acc_after,
        out,
    ) {
        let (held, other) = choose|held: T, other: V|
            #[trigger] effect_mpmm(
                step.f.0,
                world.held::<T, I>(),
                &world.held::<U, J>(),
                world.held::<V, K>(),
                acc,
                held,
                other,
                acc_after,
                out,
            )
                && world_after == world.holding::<T, I>(held).holding::<V, K>(other);
        lemma_effect_mpmm(
            step.f.0,
            world.held::<T, I>(),
            &world.held::<U, J>(),
            world.held::<V, K>(),
            acc,
            held,
            other,
            acc_after,
            out,
        );
        assert(promise(
            (world.held::<T, I>(), world.held::<U, J>(), world.held::<V, K>(), acc),
            (held, other, acc_after),
            out,
        ));
    }
}

/// What a function of three resources promises, its step promises of what the world holds.
pub proof fn lemma_scan_step_resmut_resmut_res_without_event<
    R,
    T,
    I,
    U,
    J,
    V,
    K,
    Acc,
    Out,
    F: FnMut(&mut T, &mut U, &V, &mut Acc) -> Out,
>(
    step: Step<NoEvent<F>, (ResMut<T, I>, ResMut<U, J>, Res<V, K>), Out>,
    promise: spec_fn((T, U, V, Acc), (T, U, Acc), Out) -> bool,
    world: World<R>,
    acc: Acc,
    input: (),
    after: Step<NoEvent<F>, (ResMut<T, I>, ResMut<U, J>, Res<V, K>), Out>,
    world_after: World<R>,
    acc_after: Acc,
    out: Out,
) where R: Apart3<V, K, T, I, U, J>
    requires
        forall|a0: &mut T, a1: &mut U, a2: &V, a3: &mut Acc, o: Out|
            #[trigger] call_ensures(step.f.0, (a0, a1, a2, a3), o)
                ==> promise((*a0, *a1, *a2, *a3), (*final(a0), *final(a1), *final(a3)), o),
    ensures
        (forall|a0: &mut T, a1: &mut U, a3: &mut Acc|
            *a0 == world.held::<T, I>() && *a1 == world.held::<U, J>() && *a3 == acc
                ==> #[trigger] call_requires(
                    step.f.0,
                    (a0, a1, &world.held::<V, K>(), a3),
                )) ==> ScanStepCall::<R, Acc, ()>::call_pre(&step, world, acc, input),
        ScanStepCall::<R, Acc, ()>::call_post(
            &step,
            world,
            acc,
            input,
            after,
            world_after,
            acc_after,
            out,
        )
            ==> {
            &&& after == step
            &&& exists|held: T, other: U|
                #[trigger] promise(
                    (world.held::<T, I>(), world.held::<U, J>(), world.held::<V, K>(), acc),
                    (held, other, acc_after),
                    out,
                )
                    && world_after == world.holding::<T, I>(held).holding::<U, J>(other)
        },
{
    if ScanStepCall::<R, Acc, ()>::call_post(
        &step,
        world,
        acc,
        input,
        after,
        world_after,
        acc_after,
        out,
    ) {
        let (held, other) = choose|held: T, other: U|
            #[trigger] effect_mmpm(
                step.f.0,
                world.held::<T, I>(),
                world.held::<U, J>(),
                &world.held::<V, K>(),
                acc,
                held,
                other,
                acc_after,
                out,
            )
                && world_after == world.holding::<T, I>(held).holding::<U, J>(other);
        lemma_effect_mmpm(
            step.f.0,
            world.held::<T, I>(),
            world.held::<U, J>(),
            &world.held::<V, K>(),
            acc,
            held,
            other,
            acc_after,
            out,
        );
        assert(promise(
            (world.held::<T, I>(), world.held::<U, J>(), world.held::<V, K>(), acc),
            (held, other, acc_after),
            out,
        ));
    }
}

/// What a function of three resources promises, its step promises of what the world holds.
pub proof fn lemma_scan_step_resmut_resmut_resmut_without_event<
    R,
    T,
    I,
    U,
    J,
    V,
    K,
    Acc,
    Out,
    F: FnMut(&mut T, &mut U, &mut V, &mut Acc) -> Out,
>(
    step: Step<NoEvent<F>, (ResMut<T, I>, ResMut<U, J>, ResMut<V, K>), Out>,
    promise: spec_fn((T, U, V, Acc), (T, U, V, Acc), Out) -> bool,
    world: World<R>,
    acc: Acc,
    input: (),
    after: Step<NoEvent<F>, (ResMut<T, I>, ResMut<U, J>, ResMut<V, K>), Out>,
    world_after: World<R>,
    acc_after: Acc,
    out: Out,
) where R: Apart3<T, I, U, J, V, K>
    requires
        forall|a0: &mut T, a1: &mut U, a2: &mut V, a3: &mut Acc, o: Out|
            #[trigger] call_ensures(step.f.0, (a0, a1, a2, a3), o)
                ==> promise(
                    (*a0, *a1, *a2, *a3),
                    (*final(a0), *final(a1), *final(a2), *final(a3)),
                    o,
                ),
    ensures
        (forall|a0: &mut T, a1: &mut U, a2: &mut V, a3: &mut Acc|
            *a0 == world.held::<T, I>()
                && *a1 == world.held::<U, J>()
                && *a2 == world.held::<V, K>()
                && *a3 == acc
                ==> #[trigger] call_requires(step.f.0, (a0, a1, a2, a3)))
                    ==> ScanStepCall::<R, Acc, ()>::call_pre(&step, world, acc, input),
        ScanStepCall::<R, Acc, ()>::call_post(
            &step,
            world,
            acc,
            input,
            after,
            world_after,
            acc_after,
            out,
        )
            ==> {
            &&& after == step
            &&& exists|held: T, other: U, last: V|
                #[trigger] promise(
                    (world.held::<T, I>(), world.held::<U, J>(), world.held::<V, K>(), acc),
                    (held, other, last, acc_after),
                    out,
                )
                    && world_after == world.holding::<T, I>(held).holding::<U, J>(other).holding::<V, K>(last)
        },
{
    if ScanStepCall::<R, Acc, ()>::call_post(
        &step,
        world,
        acc,
        input,
        after,
        world_after,
        acc_after,
        out,
    ) {
        let (held, other, last) = choose|held: T, other: U, last: V|
            #[trigger] effect_mmmm(
                step.f.0,
                world.held::<T, I>(),
                world.held::<U, J>(),
                world.held::<V, K>(),
                acc,
                held,
                other,
                last,
                acc_after,
                out,
            )
                && world_after == world.holding::<T, I>(held).holding::<U, J>(other).holding::<V, K>(last);
        lemma_effect_mmmm(
            step.f.0,
            world.held::<T, I>(),
            world.held::<U, J>(),
            world.held::<V, K>(),
            acc,
            held,
            other,
            last,
            acc_after,
            out,
        );
        assert(promise(
            (world.held::<T, I>(), world.held::<U, J>(), world.held::<V, K>(), acc),
            (held, other, last, acc_after),
            out,
        ));
    }
}

/// What a function of three resources promises, its step promises of what the world holds.
pub proof fn lemma_ref_scan_step_res_res_res<
    R,
    T,
    I,
    U,
    J,
    V,
    K,
    Acc,
    In,
    Out,
    F: FnMut(&T, &U, &V, &mut Acc, &In) -> Out,
>(
    step: Step<F, (Res<T, I>, Res<U, J>, Res<V, K>), Out>,
    promise: spec_fn((T, U, V, Acc, In), (Acc,), Out) -> bool,
    world: World<R>,
    acc: Acc,
    input: &In,
    after: Step<F, (Res<T, I>, Res<U, J>, Res<V, K>), Out>,
    world_after: World<R>,
    acc_after: Acc,
    out: Out,
) where R: Resource<T, I> + Resource<U, J> + Resource<V, K>
    requires
        forall|a0: &T, a1: &U, a2: &V, a3: &mut Acc, a4: &In, o: Out|
            #[trigger] call_ensures(step.f, (a0, a1, a2, a3, a4), o)
                ==> promise((*a0, *a1, *a2, *a3, *a4), (*final(a3),), o),
    ensures
        (forall|a3: &mut Acc|
            *a3 == acc
                ==> #[trigger] call_requires(
                    step.f,
                    (
                        &world.held::<T, I>(),
                        &world.held::<U, J>(),
                        &world.held::<V, K>(),
                        a3,
                        input,
                    ),
                )) ==> RefScanStepCall::<R, Acc, In>::call_pre(&step, world, acc, input),
        RefScanStepCall::<R, Acc, In>::call_post(
            &step,
            world,
            acc,
            input,
            after,
            world_after,
            acc_after,
            out,
        )
            ==> {
            &&& after == step
            &&& world_after == world
            &&& promise(
                (world.held::<T, I>(), world.held::<U, J>(), world.held::<V, K>(), acc, *input),
                (acc_after,),
                out,
            )
        },
{
    if RefScanStepCall::<R, Acc, In>::call_post(
        &step,
        world,
        acc,
        input,
        after,
        world_after,
        acc_after,
        out,
    ) {
        lemma_effect_pppmp(
            step.f,
            &world.held::<T, I>(),
            &world.held::<U, J>(),
            &world.held::<V, K>(),
            acc,
            input,
            acc_after,
            out,
        );
    }
}

/// What a function of three resources promises, its step promises of what the world holds.
pub proof fn lemma_ref_scan_step_res_res_resmut<
    R,
    T,
    I,
    U,
    J,
    V,
    K,
    Acc,
    In,
    Out,
    F: FnMut(&T, &U, &mut V, &mut Acc, &In) -> Out,
>(
    step: Step<F, (Res<T, I>, Res<U, J>, ResMut<V, K>), Out>,
    promise: spec_fn((T, U, V, Acc, In), (V, Acc), Out) -> bool,
    world: World<R>,
    acc: Acc,
    input: &In,
    after: Step<F, (Res<T, I>, Res<U, J>, ResMut<V, K>), Out>,
    world_after: World<R>,
    acc_after: Acc,
    out: Out,
) where R: Apart3<T, I, U, J, V, K>
    requires
        forall|a0: &T, a1: &U, a2: &mut V, a3: &mut Acc, a4: &In, o: Out|
            #[trigger] call_ensures(step.f, (a0, a1, a2, a3, a4), o)
                ==> promise((*a0, *a1, *a2, *a3, *a4), (*final(a2), *final(a3)), o),
    ensures
        (forall|a2: &mut V, a3: &mut Acc|
            *a2 == world.held::<V, K>() && *a3 == acc
                ==> #[trigger] call_requires(
                    step.f,
                    (&world.held::<T, I>(), &world.held::<U, J>(), a2, a3, input),
                )) ==> RefScanStepCall::<R, Acc, In>::call_pre(&step, world, acc, input),
        RefScanStepCall::<R, Acc, In>::call_post(
            &step,
            world,
            acc,
            input,
            after,
            world_after,
            acc_after,
            out,
        )
            ==> {
            &&& after == step
            &&& exists|held: V|
                #[trigger] promise(
                    (world.held::<T, I>(), world.held::<U, J>(), world.held::<V, K>(), acc, *input),
                    (held, acc_after),
                    out,
                )
                    && world_after == world.holding::<V, K>(held)
        },
{
    if RefScanStepCall::<R, Acc, In>::call_post(
        &step,
        world,
        acc,
        input,
        after,
        world_after,
        acc_after,
        out,
    ) {
        let held = choose|held: V|
            #[trigger] effect_ppmmp(
                step.f,
                &world.held::<T, I>(),
                &world.held::<U, J>(),
                world.held::<V, K>(),
                acc,
                input,
                held,
                acc_after,
                out,
            )
                && world_after == world.holding::<V, K>(held);
        lemma_effect_ppmmp(
            step.f,
            &world.held::<T, I>(),
            &world.held::<U, J>(),
            world.held::<V, K>(),
            acc,
            input,
            held,
            acc_after,
            out,
        );
        assert(promise(
            (world.held::<T, I>(), world.held::<U, J>(), world.held::<V, K>(), acc, *input),
            (held, acc_after),
            out,
        ));
    }
}

/// What a function of three resources promises, its step promises of what the world holds.
pub proof fn lemma_ref_scan_step_res_resmut_res<
    R,
    T,
    I,
    U,
    J,
    V,
    K,
    Acc,
    In,
    Out,
    F: FnMut(&T, &mut U, &V, &mut Acc, &In) -> Out,
>(
    step: Step<F, (Res<T, I>, ResMut<U, J>, Res<V, K>), Out>,
    promise: spec_fn((T, U, V, Acc, In), (U, Acc), Out) -> bool,
    world: World<R>,
    acc: Acc,
    input: &In,
    after: Step<F, (Res<T, I>, ResMut<U, J>, Res<V, K>), Out>,
    world_after: World<R>,
    acc_after: Acc,
    out: Out,
) where R: Apart3<T, I, V, K, U, J>
    requires
        forall|a0: &T, a1: &mut U, a2: &V, a3: &mut Acc, a4: &In, o: Out|
            #[trigger] call_ensures(step.f, (a0, a1, a2, a3, a4), o)
                ==> promise((*a0, *a1, *a2, *a3, *a4), (*final(a1), *final(a3)), o),
    ensures
        (forall|a1: &mut U, a3: &mut Acc|
            *a1 == world.held::<U, J>() && *a3 == acc
                ==> #[trigger] call_requires(
                    step.f,
                    (&world.held::<T, I>(), a1, &world.held::<V, K>(), a3, input),
                )) ==> RefScanStepCall::<R, Acc, In>::call_pre(&step, world, acc, input),
        RefScanStepCall::<R, Acc, In>::call_post(
            &step,
            world,
            acc,
            input,
            after,
            world_after,
            acc_after,
            out,
        )
            ==> {
            &&& after == step
            &&& exists|held: U|
                #[trigger] promise(
                    (world.held::<T, I>(), world.held::<U, J>(), world.held::<V, K>(), acc, *input),
                    (held, acc_after),
                    out,
                )
                    && world_after == world.holding::<U, J>(held)
        },
{
    if RefScanStepCall::<R, Acc, In>::call_post(
        &step,
        world,
        acc,
        input,
        after,
        world_after,
        acc_after,
        out,
    ) {
        let held = choose|held: U|
            #[trigger] effect_pmpmp(
                step.f,
                &world.held::<T, I>(),
                world.held::<U, J>(),
                &world.held::<V, K>(),
                acc,
                input,
                held,
                acc_after,
                out,
            )
                && world_after == world.holding::<U, J>(held);
        lemma_effect_pmpmp(
            step.f,
            &world.held::<T, I>(),
            world.held::<U, J>(),
            &world.held::<V, K>(),
            acc,
            input,
            held,
            acc_after,
            out,
        );
        assert(promise(
            (world.held::<T, I>(), world.held::<U, J>(), world.held::<V, K>(), acc, *input),
            (held, acc_after),
            out,
        ));
    }
}

/// What a function of three resources promises, its step promises of what the world holds.
pub proof fn lemma_ref_scan_step_res_resmut_resmut<
    R,
    T,
    I,
    U,
    J,
    V,
    K,
    Acc,
    In,
    Out,
    F: FnMut(&T, &mut U, &mut V, &mut Acc, &In) -> Out,
>(
    step: Step<F, (Res<T, I>, ResMut<U, J>, ResMut<V, K>), Out>,
    promise: spec_fn((T, U, V, Acc, In), (U, V, Acc), Out) -> bool,
    world: World<R>,
    acc: Acc,
    input: &In,
    after: Step<F, (Res<T, I>, ResMut<U, J>, ResMut<V, K>), Out>,
    world_after: World<R>,
    acc_after: Acc,
    out: Out,
) where R: Apart3<T, I, U, J, V, K>
    requires
        forall|a0: &T, a1: &mut U, a2: &mut V, a3: &mut Acc, a4: &In, o: Out|
            #[trigger] call_ensures(step.f, (a0, a1, a2, a3, a4), o)
                ==> promise((*a0, *a1, *a2, *a3, *a4), (*final(a1), *final(a2), *final(a3)), o),
    ensures
        (forall|a1: &mut U, a2: &mut V, a3: &mut Acc|
            *a1 == world.held::<U, J>() && *a2 == world.held::<V, K>() && *a3 == acc
                ==> #[trigger] call_requires(
                    step.f,
                    (&world.held::<T, I>(), a1, a2, a3, input),
                )) ==> RefScanStepCall::<R, Acc, In>::call_pre(&step, world, acc, input),
        RefScanStepCall::<R, Acc, In>::call_post(
            &step,
            world,
            acc,
            input,
            after,
            world_after,
            acc_after,
            out,
        )
            ==> {
            &&& after == step
            &&& exists|held: U, other: V|
                #[trigger] promise(
                    (world.held::<T, I>(), world.held::<U, J>(), world.held::<V, K>(), acc, *input),
                    (held, other, acc_after),
                    out,
                )
                    && world_after == world.holding::<U, J>(held).holding::<V, K>(other)
        },
{
    if RefScanStepCall::<R, Acc, In>::call_post(
        &step,
        world,
        acc,
        input,
        after,
        world_after,
        acc_after,
        out,
    ) {
        let (held, other) = choose|held: U, other: V|
            #[trigger] effect_pmmmp(
                step.f,
                &world.held::<T, I>(),
                world.held::<U, J>(),
                world.held::<V, K>(),
                acc,
                input,
                held,
                other,
                acc_after,
                out,
            )
                && world_after == world.holding::<U, J>(held).holding::<V, K>(other);
        lemma_effect_pmmmp(
            step.f,
            &world.held::<T, I>(),
            world.held::<U, J>(),
            world.held::<V, K>(),
            acc,
            input,
            held,
            other,
            acc_after,
            out,
        );
        assert(promise(
            (world.held::<T, I>(), world.held::<U, J>(), world.held::<V, K>(), acc, *input),
            (held, other, acc_after),
            out,
        ));
    }
}

/// What a function of three resources promises, its step promises of what the world holds.
pub proof fn lemma_ref_scan_step_resmut_res_res<
    R,
    T,
    I,
    U,
    J,
    V,
    K,
    Acc,
    In,
    Out,
    F: FnMut(&mut T, &U, &V, &mut Acc, &In) -> Out,
>(
    step: Step<F, (ResMut<T, I>, Res<U, J>, Res<V, K>), Out>,
    promise: spec_fn((T, U, V, Acc, In), (T, Acc), Out) -> bool,
    world: World<R>,
    acc: Acc,
    input: &In,
    after: Step<F, (ResMut<T, I>, Res<U, J>, Res<V, K>), Out>,
    world_after: World<R>,
    acc_after: Acc,
    out: Out,
) where R: Apart3<U, J, V, K, T, I>
    requires
        forall|a0: &mut T, a1: &U, a2: &V, a3: &mut Acc, a4: &In, o: Out|
            #[trigger] call_ensures(step.f, (a0, a1, a2, a3, a4), o)
                ==> promise((*a0, *a1, *a2, *a3, *a4), (*final(a0), *final(a3)), o),
    ensures
        (forall|a0: &mut T, a3: &mut Acc|
            *a0 == world.held::<T, I>() && *a3 == acc
                ==> #[trigger] call_requires(
                    step.f,
                    (a0, &world.held::<U, J>(), &world.held::<V, K>(), a3, input),
                )) ==> RefScanStepCall::<R, Acc, In>::call_pre(&step, world, acc, input),
        RefScanStepCall::<R, Acc, In>::call_post(
            &step,
            world,
            acc,
            input,
            after,
            world_after,
            acc_after,
            out,
        )
            ==> {
            &&& after == step
            &&& exists|held: T|
                #[trigger] promise(
                    (world.held::<T, I>(), world.held::<U, J>(), world.held::<V, K>(), acc, *input),
                    (held, acc_after),
                    out,
                )
                    && world_after == world.holding::<T, I>(held)
        },
{
    if RefScanStepCall::<R, Acc, In>::call_post(
        &step,
        world,
        acc,
        input,
        after,
        world_after,
        acc_after,
        out,
    ) {
        let held = choose|held: T|
            #[trigger] effect_mppmp(
                step.f,
                world.held::<T, I>(),
                &world.held::<U, J>(),
                &world.held::<V, K>(),
                acc,
                input,
                held,
                acc_after,
                out,
            )
                && world_after == world.holding::<T, I>(held);
        lemma_effect_mppmp(
            step.f,
            world.held::<T, I>(),
            &world.held::<U, J>(),
            &world.held::<V, K>(),
            acc,
            input,
            held,
            acc_after,
            out,
        );
        assert(promise(
            (world.held::<T, I>(), world.held::<U, J>(), world.held::<V, K>(), acc, *input),
            (held, acc_after),
            out,
        ));
    }
}

/// What a function of three resources promises, its step promises of what the world holds.
pub proof fn lemma_ref_scan_step_resmut_res_resmut<
    R,
    T,
    I,
    U,
    J,
    V,
    K,
    Acc,
    In,
    Out,
    F: FnMut(&mut T, &U, &mut V, &mut Acc, &In) -> Out,
>(
    step: Step<F, (ResMut<T, I>, Res<U, J>, ResMut<V, K>), Out>,
    promise: spec_fn((T, U, V, Acc, In), (T, V, Acc), Out) -> bool,
    world: World<R>,
    acc: Acc,
    input: &In,
    after: Step<F, (ResMut<T, I>, Res<U, J>, ResMut<V, K>), Out>,
    world_after: World<R>,
    acc_after: Acc,
    out: Out,
) where R: Apart3<U, J, T, I, V, K>
    requires
        forall|a0: &mut T, a1: &U, a2: &mut V, a3: &mut Acc, a4: &In, o: Out|
            #[trigger] call_ensures(step.f, (a0, a1, a2, a3, a4), o)
                ==> promise((*a0, *a1, *a2, *a3, *a4), (*final(a0), *final(a2), *final(a3)), o),
    ensures
        (forall|a0: &mut T, a2: &mut V, a3: &mut Acc|
            *a0 == world.held::<T, I>() && *a2 == world.held::<V, K>() && *a3 == acc
                ==> #[trigger] call_requires(
                    step.f,
                    (a0, &world.held::<U, J>(), a2, a3, input),
                )) ==> RefScanStepCall::<R, Acc, In>::call_pre(&step, world, acc, input),
        RefScanStepCall::<R, Acc, In>::call_post(
            &step,
            world,
            acc,
            input,
            after,
            world_after,
            acc_after,
            out,
        )
            ==> {
            &&& after == step
            &&& exists|held: T, other: V|
                #[trigger] promise(
                    (world.held::<T, I>(), world.held::<U, J>(), world.held::<V, K>(), acc, *input),
                    (held, other, acc_after),
                    out,
                )
                    && world_after == world.holding::<T, I>(held).holding::<V, K>(other)
        },
{
    if RefScanStepCall::<R, Acc, In>::call_post(
        &step,
        world,
        acc,
        input,
        after,
        world_after,
        acc_after,
        out,
    ) {
        let (held, other) = choose|held: T, other: V|
            #[trigger] effect_mpmmp(
                step.f,
                world.held::<T, I>(),
                &world.held::<U, J>(),
                world.held::<V, K>(),
                acc,
                input,
                held,
                other,
                acc_after,
                out,
            )
                && world_after == world.holding::<T, I>(held).holding::<V, K>(other);
        lemma_effect_mpmmp(
            step.f,
            world.held::<T, I>(),
            &world.held::<U, J>(),
            world.held::<V, K>(),
            acc,
            input,
            held,
            other,
            acc_after,
            out,
        );
        assert(promise(
            (world.held::<T, I>(), world.held::<U, J>(), world.held::<V, K>(), acc, *input),
            (held, other, acc_after),
            out,
        ));
    }
}

/// What a function of three resources promises, its step promises of what the world holds.
pub proof fn lemma_ref_scan_step_resmut_resmut_res<
    R,
    T,
    I,
    U,
    J,
    V,
    K,
    Acc,
    In,
    Out,
    F: FnMut(&mut T, &mut U, &V, &mut Acc, &In) -> Out,
>(
    step: Step<F, (ResMut<T, I>, ResMut<U, J>, Res<V, K>), Out>,
    promise: spec_fn((T, U, V, Acc, In), (T, U, Acc), Out) -> bool,
    world: World<R>,
    acc: Acc,
    input: &In,
    after: Step<F, (ResMut<T, I>, ResMut<U, J>, Res<V, K>), Out>,
    world_after: World<R>,
    acc_after: Acc,
    out: Out,
) where R: Apart3<V, K, T, I, U, J>
    requires
        forall|a0: &mut T, a1: &mut U, a2: &V, a3: &mut Acc, a4: &In, o: Out|
            #[trigger] call_ensures(step.f, (a0, a1, a2, a3, a4), o)
                ==> promise((*a0, *a1, *a2, *a3, *a4), (*final(a0), *final(a1), *final(a3)), o),
    ensures
        (forall|a0: &mut T, a1: &mut U, a3: &mut Acc|
            *a0 == world.held::<T, I>() && *a1 == world.held::<U, J>() && *a3 == acc
                ==> #[trigger] call_requires(
                    step.f,
                    (a0, a1, &world.held::<V, K>(), a3, input),
                )) ==> RefScanStepCall::<R, Acc, In>::call_pre(&step, world, acc, input),
        RefScanStepCall::<R, Acc, In>::call_post(
            &step,
            world,
            acc,
            input,
            after,
            world_after,
            acc_after,
            out,
        )
            ==> {
            &&& after == step
            &&& exists|held: T, other: U|
                #[trigger] promise(
                    (world.held::<T, I>(), world.held::<U, J>(), world.held::<V, K>(), acc, *input),
                    (held, other, acc_after),
                    out,
                )
                    && world_after == world.holding::<T, I>(held).holding::<U, J>(other)
        },
{
    if RefScanStepCall::<R, Acc, In>::call_post(
        &step,
        world,
        acc,
        input,
        after,
        world_after,
        acc_after,
        out,
    ) {
        let (held, other) = choose|held: T, other: U|
            #[trigger] effect_mmpmp(
                step.f,
                world.held::<T, I>(),
                world.held::<U, J>(),
                &world.held::<V, K>(),
                acc,
                input,
                held,
                other,
                acc_after,
                out,
            )
                && world_after == world.holding::<T, I>(held).holding::<U, J>(other);
        lemma_effect_mmpmp(
            step.f,
            world.held::<T, I>(),
            world.held::<U, J>(),
            &world.held::<V, K>(),
            acc,
            input,
            held,
            other,
            acc_after,
            out,
        );
        assert(promise(
            (world.held::<T, I>(), world.held::<U, J>(), world.held::<V, K>(), acc, *input),
            (held, other, acc_after),
            out,
        ));
    }
}

/// What a function of three resources promises, its step promises of what the world holds.
pub proof fn lemma_ref_scan_step_resmut_resmut_resmut<
    R,
    T,
    I,
    U,
    J,
    V,
    K,
    Acc,
    In,
    Out,
    F: FnMut(&mut T, &mut U, &mut V, &mut Acc, &In) -> Out,
>(
    step: Step<F, (ResMut<T, I>, ResMut<U, J>, ResMut<V, K>), Out>,
    promise: spec_fn((T, U, V, Acc, In), (T, U, V, Acc), Out) -> bool,
    world: World<R>,
    acc: Acc,
    input: &In,
    after: Step<F, (ResMut<T, I>, ResMut<U, J>, ResMut<V, K>), Out>,
    world_after: World<R>,
    acc_after: Acc,
    out: Out,
) where R: Apart3<T, I, U, J, V, K>
    requires
        forall|a0: &mut T, a1: &mut U, a2: &mut V, a3: &mut Acc, a4: &In, o: Out|
            #[trigger] call_ensures(step.f, (a0, a1, a2, a3, a4), o)
                ==> promise(
                    (*a0, *a1, *a2, *a3, *a4),
                    (*final(a0), *final(a1), *final(a2), *final(a3)),
                    o,
                ),
    ensures
        (forall|a0: &mut T, a1: &mut U, a2: &mut V, a3: &mut Acc|
            *a0 == world.held::<T, I>()
                && *a1 == world.held::<U, J>()
                && *a2 == world.held::<V, K>()
                && *a3 == acc
                ==> #[trigger] call_requires(step.f, (a0, a1, a2, a3, input)))
                    ==> RefScanStepCall::<R, Acc, In>::call_pre(&step, world, acc, input),
        RefScanStepCall::<R, Acc, In>::call_post(
            &step,
            world,
            acc,
            input,
            after,
            world_after,
            acc_after,
            out,
        )
            ==> {
            &&& after == step
            &&& exists|held: T, other: U, last: V|
                #[trigger] promise(
                    (world.held::<T, I>(), world.held::<U, J>(), world.held::<V, K>(), acc, *input),
                    (held, other, last, acc_after),
                    out,
                )
                    && world_after == world.holding::<T, I>(held).holding::<U, J>(other).holding::<V, K>(last)
        },
{
    if RefScanStepCall::<R, Acc, In>::call_post(
        &step,
        world,
        acc,
        input,
        after,
        world_after,
        acc_after,
        out,
    ) {
        let (held, other, last) = choose|held: T, other: U, last: V|
            #[trigger] effect_mmmmp(
                step.f,
                world.held::<T, I>(),
                world.held::<U, J>(),
                world.held::<V, K>(),
                acc,
                input,
                held,
                other,
                last,
                acc_after,
                out,
            )
                && world_after == world.holding::<T, I>(held).holding::<U, J>(other).holding::<V, K>(last);
        lemma_effect_mmmmp(
            step.f,
            world.held::<T, I>(),
            world.held::<U, J>(),
            world.held::<V, K>(),
            acc,
            input,
            held,
            other,
            last,
            acc_after,
            out,
        );
        assert(promise(
            (world.held::<T, I>(), world.held::<U, J>(), world.held::<V, K>(), acc, *input),
            (held, other, last, acc_after),
            out,
        ));
    }
}

/// What a function of three resources promises, its step promises of what the world holds.
pub proof fn lemma_ref_scan_step_res_res_res_without_event<
    R,
    T,
    I,
    U,
    J,
    V,
    K,
    Acc,
    Out,
    F: FnMut(&T, &U, &V, &mut Acc) -> Out,
>(
    step: Step<NoEvent<F>, (Res<T, I>, Res<U, J>, Res<V, K>), Out>,
    promise: spec_fn((T, U, V, Acc), (Acc,), Out) -> bool,
    world: World<R>,
    acc: Acc,
    input: &(),
    after: Step<NoEvent<F>, (Res<T, I>, Res<U, J>, Res<V, K>), Out>,
    world_after: World<R>,
    acc_after: Acc,
    out: Out,
) where R: Resource<T, I> + Resource<U, J> + Resource<V, K>
    requires
        forall|a0: &T, a1: &U, a2: &V, a3: &mut Acc, o: Out|
            #[trigger] call_ensures(step.f.0, (a0, a1, a2, a3), o)
                ==> promise((*a0, *a1, *a2, *a3), (*final(a3),), o),
    ensures
        (forall|a3: &mut Acc|
            *a3 == acc
                ==> #[trigger] call_requires(
                    step.f.0,
                    (&world.held::<T, I>(), &world.held::<U, J>(), &world.held::<V, K>(), a3),
                )) ==> RefScanStepCall::<R, Acc, ()>::call_pre(&step, world, acc, input),
        RefScanStepCall::<R, Acc, ()>::call_post(
            &step,
            world,
            acc,
            input,
            after,
            world_after,
            acc_after,
            out,
        )
            ==> {
            &&& after == step
            &&& world_after == world
            &&& promise(
                (world.held::<T, I>(), world.held::<U, J>(), world.held::<V, K>(), acc),
                (acc_after,),
                out,
            )
        },
{
    if RefScanStepCall::<R, Acc, ()>::call_post(
        &step,
        world,
        acc,
        input,
        after,
        world_after,
        acc_after,
        out,
    ) {
        lemma_effect_pppm(
            step.f.0,
            &world.held::<T, I>(),
            &world.held::<U, J>(),
            &world.held::<V, K>(),
            acc,
            acc_after,
            out,
        );
    }
}

/// What a function of three resources promises, its step promises of what the world holds.
pub proof fn lemma_ref_scan_step_res_res_resmut_without_event<
    R,
    T,
    I,
    U,
    J,
    V,
    K,
    Acc,
    Out,
    F: FnMut(&T, &U, &mut V, &mut Acc) -> Out,
>(
    step: Step<NoEvent<F>, (Res<T, I>, Res<U, J>, ResMut<V, K>), Out>,
    promise: spec_fn((T, U, V, Acc), (V, Acc), Out) -> bool,
    world: World<R>,
    acc: Acc,
    input: &(),
    after: Step<NoEvent<F>, (Res<T, I>, Res<U, J>, ResMut<V, K>), Out>,
    world_after: World<R>,
    acc_after: Acc,
    out: Out,
) where R: Apart3<T, I, U, J, V, K>
    requires
        forall|a0: &T, a1: &U, a2: &mut V, a3: &mut Acc, o: Out|
            #[trigger] call_ensures(step.f.0, (a0, a1, a2, a3), o)
                ==> promise((*a0, *a1, *a2, *a3), (*final(a2), *final(a3)), o),
    ensures
        (forall|a2: &mut V, a3: &mut Acc|
            *a2 == world.held::<V, K>() && *a3 == acc
                ==> #[trigger] call_requires(
                    step.f.0,
                    (&world.held::<T, I>(), &world.held::<U, J>(), a2, a3),
                )) ==> RefScanStepCall::<R, Acc, ()>::call_pre(&step, world, acc, input),
        RefScanStepCall::<R, Acc, ()>::call_post(
            &step,
            world,
            acc,
            input,
            after,
            world_after,
            acc_after,
            out,
        )
            ==> {
            &&& after == step
            &&& exists|held: V|
                #[trigger] promise(
                    (world.held::<T, I>(), world.held::<U, J>(), world.held::<V, K>(), acc),
                    (held, acc_after),
                    out,
                )
                    && world_after == world.holding::<V, K>(held)
        },
{
    if RefScanStepCall::<R, Acc, ()>::call_post(
        &step,
        world,
        acc,
        input,
        after,
        world_after,
        acc_after,
        out,
    ) {
        let held = choose|held: V|
            #[trigger] effect_ppmm(
                step.f.0,
                &world.held::<T, I>(),
                &world.held::<U, J>(),
                world.held::<V, K>(),
                acc,
                held,
                acc_after,
                out,
            )
                && world_after == world.holding::<V, K>(held);
        lemma_effect_ppmm(
            step.f.0,
            &world.held::<T, I>(),
            &world.held::<U, J>(),
            world.held::<V, K>(),
            acc,
            held,
            acc_after,
            out,
        );
        assert(promise(
            (world.held::<T, I>(), world.held::<U, J>(), world.held::<V, K>(), acc),
            (held, acc_after),
            out,
        ));
    }
}

/// What a function of three resources promises, its step promises of what the world holds.
pub proof fn lemma_ref_scan_step_res_resmut_res_without_event<
    R,
    T,
    I,
    U,
    J,
    V,
    K,
    Acc,
    Out,
    F: FnMut(&T, &mut U, &V, &mut Acc) -> Out,
>(
    step: Step<NoEvent<F>, (Res<T, I>, ResMut<U, J>, Res<V, K>), Out>,
    promise: spec_fn((T, U, V, Acc), (U, Acc), Out) -> bool,
    world: World<R>,
    acc: Acc,
    input: &(),
    after: Step<NoEvent<F>, (Res<T, I>, ResMut<U, J>, Res<V, K>), Out>,
    world_after: World<R>,
    acc_after: Acc,
    out: Out,
) where R: Apart3<T, I, V, K, U, J>
    requires
        forall|a0: &T, a1: &mut U, a2: &V, a3: &mut Acc, o: Out|
            #[trigger] call_ensures(step.f.0, (a0, a1, a2, a3), o)
                ==> promise((*a0, *a1, *a2, *a3), (*final(a1), *final(a3)), o),
    ensures
        (forall|a1: &mut U, a3: &mut Acc|
            *a1 == world.held::<U, J>() && *a3 == acc
                ==> #[trigger] call_requires(
                    step.f.0,
                    (&world.held::<T, I>(), a1, &world.held::<V, K>(), a3),
                )) ==> RefScanStepCall::<R, Acc, ()>::call_pre(&step, world, acc, input),
        RefScanStepCall::<R, Acc, ()>::call_post(
            &step,
            world,
            acc,
            input,
            after,
            world_after,
            acc_after,
            out,
        )
            ==> {
            &&& after == step
            &&& exists|held: U|
                #[trigger] promise(
                    (world.held::<T, I>(), world.held::<U, J>(), world.held::<V, K>(), acc),
                    (held, acc_after),
                    out,
                )
                    && world_after == world.holding::<U, J>(held)
        },
{
    if RefScanStepCall::<R, Acc, ()>::call_post(
        &step,
        world,
        acc,
        input,
        after,
        world_after,
        acc_after,
        out,
    ) {
        let held = choose|held: U|
            #[trigger] effect_pmpm(
                step.f.0,
                &world.held::<T, I>(),
                world.held::<U, J>(),
                &world.held::<V, K>(),
                acc,
                held,
                acc_after,
                out,
            )
                && world_after == world.holding::<U, J>(held);
        lemma_effect_pmpm(
            step.f.0,
            &world.held::<T, I>(),
            world.held::<U, J>(),
            &world.held::<V, K>(),
            acc,
            held,
            acc_after,
            out,
        );
        assert(promise(
            (world.held::<T, I>(), world.held::<U, J>(), world.held::<V, K>(), acc),
            (held, acc_after),
            out,
        ));
    }
}

/// What a function of three resources promises, its step promises of what the world holds.
pub proof fn lemma_ref_scan_step_res_resmut_resmut_without_event<
    R,
    T,
    I,
    U,
    J,
    V,
    K,
    Acc,
    Out,
    F: FnMut(&T, &mut U, &mut V, &mut Acc) -> Out,
>(
    step: Step<NoEvent<F>, (Res<T, I>, ResMut<U, J>, ResMut<V, K>), Out>,
    promise: spec_fn((T, U, V, Acc), (U, V, Acc), Out) -> bool,
    world: World<R>,
    acc: Acc,
    input: &(),
    after: Step<NoEvent<F>, (Res<T, I>, ResMut<U, J>, ResMut<V, K>), Out>,
    world_after: World<R>,
    acc_after: Acc,
    out: Out,
) where R: Apart3<T, I, U, J, V, K>
    requires
        forall|a0: &T, a1: &mut U, a2: &mut V, a3: &mut Acc, o: Out|
            #[trigger] call_ensures(step.f.0, (a0, a1, a2, a3), o)
                ==> promise((*a0, *a1, *a2, *a3), (*final(a1), *final(a2), *final(a3)), o),
    ensures
        (forall|a1: &mut U, a2: &mut V, a3: &mut Acc|
            *a1 == world.held::<U, J>() && *a2 == world.held::<V, K>() && *a3 == acc
                ==> #[trigger] call_requires(
                    step.f.0,
                    (&world.held::<T, I>(), a1, a2, a3),
                )) ==> RefScanStepCall::<R, Acc, ()>::call_pre(&step, world, acc, input),
        RefScanStepCall::<R, Acc, ()>::call_post(
            &step,
            world,
            acc,
            input,
            after,
            world_after,
            acc_after,
            out,
        )
            ==> {
            &&& after == step
            &&& exists|held: U, other: V|
                #[trigger] promise(
                    (world.held::<T, I>(), world.held::<U, J>(), world.held::<V, K>(), acc),
                    (held, other, acc_after),
                    out,
                )
                    && world_after == world.holding::<U, J>(held).holding::<V, K>(other)
        },
{
    if RefScanStepCall::<R, Acc, ()>::call_post(
        &step,
        world,
        acc,
        input,
        after,
        world_after,
        acc_after,
        out,
    ) {
        let (held, other) = choose|held: U, other: V|
            #[trigger] effect_pmmm(
                step.f.0,
                &world.held::<T, I>(),
                world.held::<U, J>(),
                world.held::<V, K>(),
                acc,
                held,
                other,
                acc_after,
                out,
            )
                && world_after == world.holding::<U, J>(held).holding::<V, K>(other);
        lemma_effect_pmmm(
            step.f.0,
            &world.held::<T, I>(),
            world.held::<U, J>(),
            world.held::<V, K>(),
            acc,
            held,
            other,
            acc_after,
            out,
        );
        assert(promise(
            (world.held::<T, I>(), world.held::<U, J>(), world.held::<V, K>(), acc),
            (held, other, acc_after),
            out,
        ));
    }
}

/// What a function of three resources promises, its step promises of what the world holds.
pub proof fn lemma_ref_scan_step_resmut_res_res_without_event<
    R,
    T,
    I,
    U,
    J,
    V,
    K,
    Acc,
    Out,
    F: FnMut(&mut T, &U, &V, &mut Acc) -> Out,
>(
    step: Step<NoEvent<F>, (ResMut<T, I>, Res<U, J>, Res<V, K>), Out>,
    promise: spec_fn((T, U, V, Acc), (T, Acc), Out) -> bool,
    world: World<R>,
    acc: Acc,
    input: &(),
    after: Step<NoEvent<F>, (ResMut<T, I>, Res<U, J>, Res<V, K>), Out>,
    world_after: World<R>,
    acc_after: Acc,
    out: Out,
) where R: Apart3<U, J, V, K, T, I>
    requires
        forall|a0: &mut T, a1: &U, a2: &V, a3: &mut Acc, o: Out|
            #[trigger] call_ensures(step.f.0, (a0, a1, a2, a3), o)
                ==> promise((*a0, *a1, *a2, *a3), (*final(a0), *final(a3)), o),
    ensures
        (forall|a0: &mut T, a3: &mut Acc|
            *a0 == world.held::<T, I>() && *a3 == acc
                ==> #[trigger] call_requires(
                    step.f.0,
                    (a0, &world.held::<U, J>(), &world.held::<V, K>(), a3),
                )) ==> RefScanStepCall::<R, Acc, ()>::call_pre(&step, world, acc, input),
        RefScanStepCall::<R, Acc, ()>::call_post(
            &step,
            world,
            acc,
            input,
            after,
            world_after,
            acc_after,
            out,
        )
            ==> {
            &&& after == step
            &&& exists|held: T|
                #[trigger] promise(
                    (world.held::<T, I>(), world.held::<U, J>(), world.held::<V, K>(), acc),
                    (held, acc_after),
                    out,
                )
                    && world_after == world.holding::<T, I>(held)
        },
{
    if RefScanStepCall::<R, Acc, ()>::call_post(
        &step,
        world,
        acc,
        input,
        after,
        world_after,
        acc_after,
        out,
    ) {
        let held = choose|held: T|
            #[trigger] effect_mppm(
                step.f.0,
                world.held::<T, I>(),
                &world.held::<U, J>(),
                &world.held::<V, K>(),
                acc,
                held,
                acc_after,
                out,
            )
                && world_after == world.holding::<T, I>(held);
        lemma_effect_mppm(
            step.f.0,
            world.held::<T, I>(),
            &world.held::<U, J>(),
            &world.held::<V, K>(),
            acc,
            held,
            acc_after,
            out,
        );
        assert(promise(
            (world.held::<T, I>(), world.held::<U, J>(), world.held::<V, K>(), acc),
            (held, acc_after),
            out,
        ));
    }
}

/// What a function of three resources promises, its step promises of what the world holds.
pub proof fn lemma_ref_scan_step_resmut_res_resmut_without_event<
    R,
    T,
    I,
    U,
    J,
    V,
    K,
    Acc,
    Out,
    F: FnMut(&mut T, &U, &mut V, &mut Acc) -> Out,
>(
    step: Step<NoEvent<F>, (ResMut<T, I>, Res<U, J>, ResMut<V, K>), Out>,
    promise: spec_fn((T, U, V, Acc), (T, V, Acc), Out) -> bool,
    world: World<R>,
    acc: Acc,
    input: &(),
    after: Step<NoEvent<F>, (ResMut<T, I>, Res<U, J>, ResMut<V, K>), Out>,
    world_after: World<R>,
    acc_after: Acc,
    out: Out,
) where R: Apart3<U, J, T, I, V, K>
    requires
        forall|a0: &mut T, a1: &U, a2: &mut V, a3: &mut Acc, o: Out|
            #[trigger] call_ensures(step.f.0, (a0, a1, a2, a3), o)
                ==> promise((*a0, *a1, *a2, *a3), (*final(a0), *final(a2), *final(a3)), o),
    ensures
        (forall|a0: &mut T, a2: &mut V, a3: &mut Acc|
            *a0 == world.held::<T, I>() && *a2 == world.held::<V, K>() && *a3 == acc
                ==> #[trigger] call_requires(
                    step.f.0,
                    (a0, &world.held::<U, J>(), a2, a3),
                )) ==> RefScanStepCall::<R, Acc, ()>::call_pre(&step, world, acc, input),
        RefScanStepCall::<R, Acc, ()>::call_post(
            &step,
            world,
            acc,
            input,
            after,
            world_after,
            acc_after,
            out,
        )
            ==> {
            &&& after == step
            &&& exists|held: T, other: V|
                #[trigger] promise(
                    (world.held::<T, I>(), world.held::<U, J>(), world.held::<V, K>(), acc),
                    (held, other, acc_after),
                    out,
                )
                    && world_after == world.holding::<T, I>(held).holding::<V, K>(other)
        },
{
    if RefScanStepCall::<R, Acc, ()>::call_post(
        &step,
        world,
        acc,
        input,
        after,
        world_after,
        acc_after,
        out,
    ) {
        let (held, other) = choose|held: T, other: V|
            #[trigger] effect_mpmm(
                step.f.0,
                world.held::<T, I>(),
                &world.held::<U, J>(),
                world.held::<V, K>(),
                acc,
                held,
                other,
                acc_after,
                out,
            )
                && world_after == world.holding::<T, I>(held).holding::<V, K>(other);
        lemma_effect_mpmm(
            step.f.0,
            world.held::<T, I>(),
            &world.held::<U, J>(),
            world.held::<V, K>(),
            acc,
            held,
            other,
            acc_after,
            out,
        );
        assert(promise(
            (world.held::<T, I>(), world.held::<U, J>(), world.held::<V, K>(), acc),
            (held, other, acc_after),
            out,
        ));
    }
}

/// What a function of three resources promises, its step promises of what the world holds.
pub proof fn lemma_ref_scan_step_resmut_resmut_res_without_event<
    R,
    T,
    I,
    U,
    J,
    V,
    K,
    Acc,
    Out,
    F: FnMut(&mut T, &mut U, &V, &mut Acc) -> Out,
>(
    step: Step<NoEvent<F>, (ResMut<T, I>, ResMut<U, J>, Res<V, K>), Out>,
    promise: spec_fn((T, U, V, Acc), (T, U, Acc), Out) -> bool,
    world: World<R>,
    acc: Acc,
    input: &(),
    after: Step<NoEvent<F>, (ResMut<T, I>, ResMut<U, J>, Res<V, K>), Out>,
    world_after: World<R>,
    acc_after: Acc,
    out: Out,
) where R: Apart3<V, K, T, I, U, J>
    requires
        forall|a0: &mut T, a1: &mut U, a2: &V, a3: &mut Acc, o: Out|
            #[trigger] call_ensures(step.f.0, (a0, a1, a2, a3), o)
                ==> promise((*a0, *a1, *a2, *a3), (*final(a0), *final(a1), *final(a3)), o),
    ensures
        (forall|a0: &mut T, a1: &mut U, a3: &mut Acc|
            *a0 == world.held::<T, I>() && *a1 == world.held::<U, J>() && *a3 == acc
                ==> #[trigger] call_requires(
                    step.f.0,
                    (a0, a1, &world.held::<V, K>(), a3),
                )) ==> RefScanStepCall::<R, Acc, ()>::call_pre(&step, world, acc, input),
        RefScanStepCall::<R, Acc, ()>::call_post(
            &step,
            world,
            acc,
            input,
            after,
            world_after,
            acc_after,
            out,
        )
            ==> {
            &&& after == step
            &&& exists|held: T, other: U|
                #[trigger] promise(
                    (world.held::<T, I>(), world.held::<U, J>(), world.held::<V, K>(), acc),
                    (held, other, acc_after),
                    out,
                )
                    && world_after == world.holding::<T, I>(held).holding::<U, J>(other)
        },
{
    if RefScanStepCall::<R, Acc, ()>::call_post(
        &step,
        world,
        acc,
        input,
        after,
        world_after,
        acc_after,
        out,
    ) {
        let (held, other) = choose|held: T, other: U|
            #[trigger] effect_mmpm(
                step.f.0,
                world.held::<T, I>(),
                world.held::<U, J>(),
                &world.held::<V, K>(),
                acc,
                held,
                other,
                acc_after,
                out,
            )
                && world_after == world.holding::<T, I>(held).holding::<U, J>(other);
        lemma_effect_mmpm(
            step.f.0,
            world.held::<T, I>(),
            world.held::<U, J>(),
            &world.held::<V, K>(),
            acc,
            held,
            other,
            acc_after,
            out,
        );
        assert(promise(
            (world.held::<T, I>(), world.held::<U, J>(), world.held::<V, K>(), acc),
            (held, other, acc_after),
            out,
        ));
    }
}

/// What a function of three resources promises, its step promises of what the world holds.
pub proof fn lemma_ref_scan_step_resmut_resmut_resmut_without_event<
    R,
    T,
    I,
    U,
    J,
    V,
    K,
    Acc,
    Out,
    F: FnMut(&mut T, &mut U, &mut V, &mut Acc) -> Out,
>(
    step: Step<NoEvent<F>, (ResMut<T, I>, ResMut<U, J>, ResMut<V, K>), Out>,
    promise: spec_fn((T, U, V, Acc), (T, U, V, Acc), Out) -> bool,
    world: World<R>,
    acc: Acc,
    input: &(),
    after: Step<NoEvent<F>, (ResMut<T, I>, ResMut<U, J>, ResMut<V, K>), Out>,
    world_after: World<R>,
    acc_after: Acc,
    out: Out,
) where R: Apart3<T, I, U, J, V, K>
    requires
        forall|a0: &mut T, a1: &mut U, a2: &mut V, a3: &mut Acc, o: Out|
            #[trigger] call_ensures(step.f.0, (a0, a1, a2, a3), o)
                ==> promise(
                    (*a0, *a1, *a2, *a3),
                    (*final(a0), *final(a1), *final(a2), *final(a3)),
                    o,
                ),
    ensures
        (forall|a0: &mut T, a1: &mut U, a2: &mut V, a3: &mut Acc|
            *a0 == world.held::<T, I>()
                && *a1 == world.held::<U, J>()
                && *a2 == world.held::<V, K>()
                && *a3 == acc
                ==> #[trigger] call_requires(step.f.0, (a0, a1, a2, a3)))
                    ==> RefScanStepCall::<R, Acc, ()>::call_pre(&step, world, acc, input),
        RefScanStepCall::<R, Acc, ()>::call_post(
            &step,
            world,
            acc,
            input,
            after,
            world_after,
            acc_after,
            out,
        )
            ==> {
            &&& after == step
            &&& exists|held: T, other: U, last: V|
                #[trigger] promise(
                    (world.held::<T, I>(), world.held::<U, J>(), world.held::<V, K>(), acc),
                    (held, other, last, acc_after),
                    out,
                )
                    && world_after == world.holding::<T, I>(held).holding::<U, J>(other).holding::<V, K>(last)
        },
{
    if RefScanStepCall::<R, Acc, ()>::call_post(
        &step,
        world,
        acc,
        input,
        after,
        world_after,
        acc_after,
        out,
    ) {
        let (held, other, last) = choose|held: T, other: U, last: V|
            #[trigger] effect_mmmm(
                step.f.0,
                world.held::<T, I>(),
                world.held::<U, J>(),
                world.held::<V, K>(),
                acc,
                held,
                other,
                last,
                acc_after,
                out,
            )
                && world_after == world.holding::<T, I>(held).holding::<U, J>(other).holding::<V, K>(last);
        lemma_effect_mmmm(
            step.f.0,
            world.held::<T, I>(),
            world.held::<U, J>(),
            world.held::<V, K>(),
            acc,
            held,
            other,
            last,
            acc_after,
            out,
        );
        assert(promise(
            (world.held::<T, I>(), world.held::<U, J>(), world.held::<V, K>(), acc),
            (held, other, last, acc_after),
            out,
        ));
    }
}

} // verus!
