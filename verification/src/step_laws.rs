//! What the steps of a pipeline promise.
//!
//! A law is stated for an arbitrary `promise` that the contract of the function gives: of the values
//! that it is called on, of those that it leaves behind its mutable references, and of its result.
//! The step then gives that promise of the resources that the world holds, with the function called
//! once, and leaves everything else as it is.
use crate::effect::{
    effect_m, lemma_effect_m, effect_mm, lemma_effect_mm, effect_mmm, lemma_effect_mmm,
    effect_mmmp, lemma_effect_mmmp, effect_mmp, lemma_effect_mmp, effect_mp, lemma_effect_mp,
    effect_mpm, lemma_effect_mpm, effect_mpmp, lemma_effect_mpmp, effect_mpp, lemma_effect_mpp,
    effect_pm, lemma_effect_pm, effect_pmm, lemma_effect_pmm, effect_pmmp, lemma_effect_pmmp,
    effect_pmp, lemma_effect_pmp, effect_ppm, lemma_effect_ppm, effect_ppmp, lemma_effect_ppmp,
};
use crate::handler::NoEvent;
use crate::step::{
    OpaqueProducer, OpaqueRefScanStep, OpaqueRefStep, OpaqueScanStep, OpaqueStep, ProducerCall,
    RefScanStepCall, RefStepCall, ScanStepCall, Step, StepCall,
};
use crate::world::{Apart, Res, ResMut, Resource, World};
use vstd::prelude::*;

verus! {

/// What a function of its input alone promises, its step promises of what the world holds.
pub proof fn lemma_step_unit<R, In, Out, F: FnMut(In) -> Out>(
    step: Step<F, (), Out>,
    promise: spec_fn((In,), (), Out) -> bool,
    world: World<R>,
    input: In,
    after: Step<F, (), Out>,
    world_after: World<R>,
    out: Out,
)
    requires
        forall|a0: In, o: Out|
            #[trigger] call_ensures(step.f, (a0,), o) ==> promise((a0,), (), o),
    ensures
        call_requires(step.f, (input,)) ==> StepCall::<R, In>::call_pre(&step, world, input),
        StepCall::<R, In>::call_post(&step, world, input, after, world_after, out) ==> {
            &&& after == step
            &&& world_after == world
            &&& promise((input,), (), out)
        },
{
}

/// What a function of one resource promises, its step promises of what the world holds.
pub proof fn lemma_step_res<R, T, I, In, Out, F: FnMut(&T, In) -> Out>(
    step: Step<F, Res<T, I>, Out>,
    promise: spec_fn((T, In), (), Out) -> bool,
    world: World<R>,
    input: In,
    after: Step<F, Res<T, I>, Out>,
    world_after: World<R>,
    out: Out,
) where R: Resource<T, I>
    requires
        forall|a0: &T, a1: In, o: Out|
            #[trigger] call_ensures(step.f, (a0, a1), o) ==> promise((*a0, a1), (), o),
    ensures
        call_requires(step.f, (&world.held::<T, I>(), input))
            ==> StepCall::<R, In>::call_pre(&step, world, input),
        StepCall::<R, In>::call_post(&step, world, input, after, world_after, out) ==> {
            &&& after == step
            &&& world_after == world
            &&& promise((world.held::<T, I>(), input), (), out)
        },
{
}

/// What a function of one resource promises, its step promises of what the world holds.
pub proof fn lemma_step_resmut<R, T, I, In, Out, F: FnMut(&mut T, In) -> Out>(
    step: Step<F, ResMut<T, I>, Out>,
    promise: spec_fn((T, In), (T,), Out) -> bool,
    world: World<R>,
    input: In,
    after: Step<F, ResMut<T, I>, Out>,
    world_after: World<R>,
    out: Out,
) where R: Resource<T, I>
    requires
        forall|a0: &mut T, a1: In, o: Out|
            #[trigger] call_ensures(step.f, (a0, a1), o) ==> promise((*a0, a1), (*final(a0),), o),
    ensures
        (forall|a0: &mut T|
            *a0 == world.held::<T, I>()
                ==> #[trigger] call_requires(step.f, (a0, input)))
                    ==> StepCall::<R, In>::call_pre(&step, world, input),
        StepCall::<R, In>::call_post(&step, world, input, after, world_after, out) ==> {
            &&& after == step
            &&& exists|held: T|
                #[trigger] promise((world.held::<T, I>(), input), (held,), out)
                    && world_after == world.holding::<T, I>(held)
        },
{
    if StepCall::<R, In>::call_post(&step, world, input, after, world_after, out) {
        let held = choose|held: T|
            #[trigger] effect_mp(step.f, world.held::<T, I>(), input, held, out)
                && world_after == world.holding::<T, I>(held);
        lemma_effect_mp(step.f, world.held::<T, I>(), input, held, out);
        assert(promise((world.held::<T, I>(), input), (held,), out));
    }
}

/// What a function of two resources promises, its step promises of what the world holds.
pub proof fn lemma_step_res_res<R, T, I, U, J, In, Out, F: FnMut(&T, &U, In) -> Out>(
    step: Step<F, (Res<T, I>, Res<U, J>), Out>,
    promise: spec_fn((T, U, In), (), Out) -> bool,
    world: World<R>,
    input: In,
    after: Step<F, (Res<T, I>, Res<U, J>), Out>,
    world_after: World<R>,
    out: Out,
) where R: Resource<T, I> + Resource<U, J>
    requires
        forall|a0: &T, a1: &U, a2: In, o: Out|
            #[trigger] call_ensures(step.f, (a0, a1, a2), o) ==> promise((*a0, *a1, a2), (), o),
    ensures
        call_requires(step.f, (&world.held::<T, I>(), &world.held::<U, J>(), input))
            ==> StepCall::<R, In>::call_pre(&step, world, input),
        StepCall::<R, In>::call_post(&step, world, input, after, world_after, out) ==> {
            &&& after == step
            &&& world_after == world
            &&& promise((world.held::<T, I>(), world.held::<U, J>(), input), (), out)
        },
{
}

/// What a function of two resources promises, its step promises of what the world holds.
pub proof fn lemma_step_res_resmut<R, T, I, U, J, In, Out, F: FnMut(&T, &mut U, In) -> Out>(
    step: Step<F, (Res<T, I>, ResMut<U, J>), Out>,
    promise: spec_fn((T, U, In), (U,), Out) -> bool,
    world: World<R>,
    input: In,
    after: Step<F, (Res<T, I>, ResMut<U, J>), Out>,
    world_after: World<R>,
    out: Out,
) where R: Apart<T, I, U, J>
    requires
        forall|a0: &T, a1: &mut U, a2: In, o: Out|
            #[trigger] call_ensures(step.f, (a0, a1, a2), o)
                ==> promise((*a0, *a1, a2), (*final(a1),), o),
    ensures
        (forall|a1: &mut U|
            *a1 == world.held::<U, J>()
                ==> #[trigger] call_requires(
                    step.f,
                    (&world.held::<T, I>(), a1, input),
                )) ==> StepCall::<R, In>::call_pre(&step, world, input),
        StepCall::<R, In>::call_post(&step, world, input, after, world_after, out) ==> {
            &&& after == step
            &&& exists|held: U|
                #[trigger] promise(
                    (world.held::<T, I>(), world.held::<U, J>(), input),
                    (held,),
                    out,
                )
                    && world_after == world.holding::<U, J>(held)
        },
{
    if StepCall::<R, In>::call_post(&step, world, input, after, world_after, out) {
        let held = choose|held: U|
            #[trigger] effect_pmp(
                step.f,
                &world.held::<T, I>(),
                world.held::<U, J>(),
                input,
                held,
                out,
            )
                && world_after == world.holding::<U, J>(held);
        lemma_effect_pmp(step.f, &world.held::<T, I>(), world.held::<U, J>(), input, held, out);
        assert(promise((world.held::<T, I>(), world.held::<U, J>(), input), (held,), out));
    }
}

/// What a function of two resources promises, its step promises of what the world holds.
pub proof fn lemma_step_resmut_res<R, T, I, U, J, In, Out, F: FnMut(&mut T, &U, In) -> Out>(
    step: Step<F, (ResMut<T, I>, Res<U, J>), Out>,
    promise: spec_fn((T, U, In), (T,), Out) -> bool,
    world: World<R>,
    input: In,
    after: Step<F, (ResMut<T, I>, Res<U, J>), Out>,
    world_after: World<R>,
    out: Out,
) where R: Apart<U, J, T, I>
    requires
        forall|a0: &mut T, a1: &U, a2: In, o: Out|
            #[trigger] call_ensures(step.f, (a0, a1, a2), o)
                ==> promise((*a0, *a1, a2), (*final(a0),), o),
    ensures
        (forall|a0: &mut T|
            *a0 == world.held::<T, I>()
                ==> #[trigger] call_requires(
                    step.f,
                    (a0, &world.held::<U, J>(), input),
                )) ==> StepCall::<R, In>::call_pre(&step, world, input),
        StepCall::<R, In>::call_post(&step, world, input, after, world_after, out) ==> {
            &&& after == step
            &&& exists|held: T|
                #[trigger] promise(
                    (world.held::<T, I>(), world.held::<U, J>(), input),
                    (held,),
                    out,
                )
                    && world_after == world.holding::<T, I>(held)
        },
{
    if StepCall::<R, In>::call_post(&step, world, input, after, world_after, out) {
        let held = choose|held: T|
            #[trigger] effect_mpp(
                step.f,
                world.held::<T, I>(),
                &world.held::<U, J>(),
                input,
                held,
                out,
            )
                && world_after == world.holding::<T, I>(held);
        lemma_effect_mpp(step.f, world.held::<T, I>(), &world.held::<U, J>(), input, held, out);
        assert(promise((world.held::<T, I>(), world.held::<U, J>(), input), (held,), out));
    }
}

/// What a function of two resources promises, its step promises of what the world holds.
pub proof fn lemma_step_resmut_resmut<R, T, I, U, J, In, Out, F: FnMut(&mut T, &mut U, In) -> Out>(
    step: Step<F, (ResMut<T, I>, ResMut<U, J>), Out>,
    promise: spec_fn((T, U, In), (T, U), Out) -> bool,
    world: World<R>,
    input: In,
    after: Step<F, (ResMut<T, I>, ResMut<U, J>), Out>,
    world_after: World<R>,
    out: Out,
) where R: Apart<T, I, U, J>
    requires
        forall|a0: &mut T, a1: &mut U, a2: In, o: Out|
            #[trigger] call_ensures(step.f, (a0, a1, a2), o)
                ==> promise((*a0, *a1, a2), (*final(a0), *final(a1)), o),
    ensures
        (forall|a0: &mut T, a1: &mut U|
            *a0 == world.held::<T, I>() && *a1 == world.held::<U, J>()
                ==> #[trigger] call_requires(step.f, (a0, a1, input)))
                    ==> StepCall::<R, In>::call_pre(&step, world, input),
        StepCall::<R, In>::call_post(&step, world, input, after, world_after, out) ==> {
            &&& after == step
            &&& exists|held: T, other: U|
                #[trigger] promise(
                    (world.held::<T, I>(), world.held::<U, J>(), input),
                    (held, other),
                    out,
                )
                    && world_after == world.holding::<T, I>(held).holding::<U, J>(other)
        },
{
    if StepCall::<R, In>::call_post(&step, world, input, after, world_after, out) {
        let (held, other) = choose|held: T, other: U|
            #[trigger] effect_mmp(
                step.f,
                world.held::<T, I>(),
                world.held::<U, J>(),
                input,
                held,
                other,
                out,
            )
                && world_after == world.holding::<T, I>(held).holding::<U, J>(other);
        lemma_effect_mmp(
            step.f,
            world.held::<T, I>(),
            world.held::<U, J>(),
            input,
            held,
            other,
            out,
        );
        assert(promise((world.held::<T, I>(), world.held::<U, J>(), input), (held, other), out));
    }
}

/// What a function of the whole world promises, its step promises of what the world holds.
pub proof fn lemma_step_opaque<R, In, Out, F: FnMut(&mut World<R>, In) -> Out>(
    step: OpaqueStep<F, Out>,
    promise: spec_fn((World<R>, In), (World<R>,), Out) -> bool,
    world: World<R>,
    input: In,
    after: OpaqueStep<F, Out>,
    world_after: World<R>,
    out: Out,
)
    requires
        forall|a0: &mut World<R>, a1: In, o: Out|
            #[trigger] call_ensures(step.f, (a0, a1), o) ==> promise((*a0, a1), (*final(a0),), o),
    ensures
        (forall|a0: &mut World<R>|
            *a0 == world
                ==> #[trigger] call_requires(step.f, (a0, input)))
                    ==> StepCall::<R, In>::call_pre(&step, world, input),
        StepCall::<R, In>::call_post(&step, world, input, after, world_after, out) ==> {
            &&& after == step
            &&& promise((world, input), (world_after,), out)
        },
{
    if StepCall::<R, In>::call_post(&step, world, input, after, world_after, out) {
        lemma_effect_mp(step.f, world, input, world_after, out);
    }
}

/// What a function of its input alone promises, its step promises of what the world holds.
pub proof fn lemma_step_unit_without_event<R, Out, F: FnMut() -> Out>(
    step: Step<NoEvent<F>, (), Out>,
    promise: spec_fn((), (), Out) -> bool,
    world: World<R>,
    input: (),
    after: Step<NoEvent<F>, (), Out>,
    world_after: World<R>,
    out: Out,
)
    requires
        forall|o: Out|
            #[trigger] call_ensures(step.f.0, (), o) ==> promise((), (), o),
    ensures
        call_requires(step.f.0, ()) ==> StepCall::<R, ()>::call_pre(&step, world, input),
        StepCall::<R, ()>::call_post(&step, world, input, after, world_after, out) ==> {
            &&& after == step
            &&& world_after == world
            &&& promise((), (), out)
        },
{
}

/// What a function of one resource promises, its step promises of what the world holds.
pub proof fn lemma_step_res_without_event<R, T, I, Out, F: FnMut(&T) -> Out>(
    step: Step<NoEvent<F>, Res<T, I>, Out>,
    promise: spec_fn((T,), (), Out) -> bool,
    world: World<R>,
    input: (),
    after: Step<NoEvent<F>, Res<T, I>, Out>,
    world_after: World<R>,
    out: Out,
) where R: Resource<T, I>
    requires
        forall|a0: &T, o: Out|
            #[trigger] call_ensures(step.f.0, (a0,), o) ==> promise((*a0,), (), o),
    ensures
        call_requires(step.f.0, (&world.held::<T, I>(),))
            ==> StepCall::<R, ()>::call_pre(&step, world, input),
        StepCall::<R, ()>::call_post(&step, world, input, after, world_after, out) ==> {
            &&& after == step
            &&& world_after == world
            &&& promise((world.held::<T, I>(),), (), out)
        },
{
}

/// What a function of one resource promises, its step promises of what the world holds.
pub proof fn lemma_step_resmut_without_event<R, T, I, Out, F: FnMut(&mut T) -> Out>(
    step: Step<NoEvent<F>, ResMut<T, I>, Out>,
    promise: spec_fn((T,), (T,), Out) -> bool,
    world: World<R>,
    input: (),
    after: Step<NoEvent<F>, ResMut<T, I>, Out>,
    world_after: World<R>,
    out: Out,
) where R: Resource<T, I>
    requires
        forall|a0: &mut T, o: Out|
            #[trigger] call_ensures(step.f.0, (a0,), o) ==> promise((*a0,), (*final(a0),), o),
    ensures
        (forall|a0: &mut T|
            *a0 == world.held::<T, I>()
                ==> #[trigger] call_requires(step.f.0, (a0,)))
                    ==> StepCall::<R, ()>::call_pre(&step, world, input),
        StepCall::<R, ()>::call_post(&step, world, input, after, world_after, out) ==> {
            &&& after == step
            &&& exists|held: T|
                #[trigger] promise((world.held::<T, I>(),), (held,), out)
                    && world_after == world.holding::<T, I>(held)
        },
{
    if StepCall::<R, ()>::call_post(&step, world, input, after, world_after, out) {
        let held = choose|held: T|
            #[trigger] effect_m(step.f.0, world.held::<T, I>(), held, out)
                && world_after == world.holding::<T, I>(held);
        lemma_effect_m(step.f.0, world.held::<T, I>(), held, out);
        assert(promise((world.held::<T, I>(),), (held,), out));
    }
}

/// What a function of two resources promises, its step promises of what the world holds.
pub proof fn lemma_step_res_res_without_event<R, T, I, U, J, Out, F: FnMut(&T, &U) -> Out>(
    step: Step<NoEvent<F>, (Res<T, I>, Res<U, J>), Out>,
    promise: spec_fn((T, U), (), Out) -> bool,
    world: World<R>,
    input: (),
    after: Step<NoEvent<F>, (Res<T, I>, Res<U, J>), Out>,
    world_after: World<R>,
    out: Out,
) where R: Resource<T, I> + Resource<U, J>
    requires
        forall|a0: &T, a1: &U, o: Out|
            #[trigger] call_ensures(step.f.0, (a0, a1), o) ==> promise((*a0, *a1), (), o),
    ensures
        call_requires(step.f.0, (&world.held::<T, I>(), &world.held::<U, J>()))
            ==> StepCall::<R, ()>::call_pre(&step, world, input),
        StepCall::<R, ()>::call_post(&step, world, input, after, world_after, out) ==> {
            &&& after == step
            &&& world_after == world
            &&& promise((world.held::<T, I>(), world.held::<U, J>()), (), out)
        },
{
}

/// What a function of two resources promises, its step promises of what the world holds.
pub proof fn lemma_step_res_resmut_without_event<R, T, I, U, J, Out, F: FnMut(&T, &mut U) -> Out>(
    step: Step<NoEvent<F>, (Res<T, I>, ResMut<U, J>), Out>,
    promise: spec_fn((T, U), (U,), Out) -> bool,
    world: World<R>,
    input: (),
    after: Step<NoEvent<F>, (Res<T, I>, ResMut<U, J>), Out>,
    world_after: World<R>,
    out: Out,
) where R: Apart<T, I, U, J>
    requires
        forall|a0: &T, a1: &mut U, o: Out|
            #[trigger] call_ensures(step.f.0, (a0, a1), o)
                ==> promise((*a0, *a1), (*final(a1),), o),
    ensures
        (forall|a1: &mut U|
            *a1 == world.held::<U, J>()
                ==> #[trigger] call_requires(step.f.0, (&world.held::<T, I>(), a1)))
                    ==> StepCall::<R, ()>::call_pre(&step, world, input),
        StepCall::<R, ()>::call_post(&step, world, input, after, world_after, out) ==> {
            &&& after == step
            &&& exists|held: U|
                #[trigger] promise((world.held::<T, I>(), world.held::<U, J>()), (held,), out)
                    && world_after == world.holding::<U, J>(held)
        },
{
    if StepCall::<R, ()>::call_post(&step, world, input, after, world_after, out) {
        let held = choose|held: U|
            #[trigger] effect_pm(step.f.0, &world.held::<T, I>(), world.held::<U, J>(), held, out)
                && world_after == world.holding::<U, J>(held);
        lemma_effect_pm(step.f.0, &world.held::<T, I>(), world.held::<U, J>(), held, out);
        assert(promise((world.held::<T, I>(), world.held::<U, J>()), (held,), out));
    }
}

/// What a function of two resources promises, its step promises of what the world holds.
pub proof fn lemma_step_resmut_res_without_event<R, T, I, U, J, Out, F: FnMut(&mut T, &U) -> Out>(
    step: Step<NoEvent<F>, (ResMut<T, I>, Res<U, J>), Out>,
    promise: spec_fn((T, U), (T,), Out) -> bool,
    world: World<R>,
    input: (),
    after: Step<NoEvent<F>, (ResMut<T, I>, Res<U, J>), Out>,
    world_after: World<R>,
    out: Out,
) where R: Apart<U, J, T, I>
    requires
        forall|a0: &mut T, a1: &U, o: Out|
            #[trigger] call_ensures(step.f.0, (a0, a1), o)
                ==> promise((*a0, *a1), (*final(a0),), o),
    ensures
        (forall|a0: &mut T|
            *a0 == world.held::<T, I>()
                ==> #[trigger] call_requires(step.f.0, (a0, &world.held::<U, J>())))
                    ==> StepCall::<R, ()>::call_pre(&step, world, input),
        StepCall::<R, ()>::call_post(&step, world, input, after, world_after, out) ==> {
            &&& after == step
            &&& exists|held: T|
                #[trigger] promise((world.held::<T, I>(), world.held::<U, J>()), (held,), out)
                    && world_after == world.holding::<T, I>(held)
        },
{
    if StepCall::<R, ()>::call_post(&step, world, input, after, world_after, out) {
        let held = choose|held: T|
            #[trigger] effect_mp(step.f.0, world.held::<T, I>(), &world.held::<U, J>(), held, out)
                && world_after == world.holding::<T, I>(held);
        lemma_effect_mp(step.f.0, world.held::<T, I>(), &world.held::<U, J>(), held, out);
        assert(promise((world.held::<T, I>(), world.held::<U, J>()), (held,), out));
    }
}

/// What a function of two resources promises, its step promises of what the world holds.
pub proof fn lemma_step_resmut_resmut_without_event<
    R,
    T,
    I,
    U,
    J,
    Out,
    F: FnMut(&mut T, &mut U) -> Out,
>(
    step: Step<NoEvent<F>, (ResMut<T, I>, ResMut<U, J>), Out>,
    promise: spec_fn((T, U), (T, U), Out) -> bool,
    world: World<R>,
    input: (),
    after: Step<NoEvent<F>, (ResMut<T, I>, ResMut<U, J>), Out>,
    world_after: World<R>,
    out: Out,
) where R: Apart<T, I, U, J>
    requires
        forall|a0: &mut T, a1: &mut U, o: Out|
            #[trigger] call_ensures(step.f.0, (a0, a1), o)
                ==> promise((*a0, *a1), (*final(a0), *final(a1)), o),
    ensures
        (forall|a0: &mut T, a1: &mut U|
            *a0 == world.held::<T, I>() && *a1 == world.held::<U, J>()
                ==> #[trigger] call_requires(step.f.0, (a0, a1)))
                    ==> StepCall::<R, ()>::call_pre(&step, world, input),
        StepCall::<R, ()>::call_post(&step, world, input, after, world_after, out) ==> {
            &&& after == step
            &&& exists|held: T, other: U|
                #[trigger] promise((world.held::<T, I>(), world.held::<U, J>()), (held, other), out)
                    && world_after == world.holding::<T, I>(held).holding::<U, J>(other)
        },
{
    if StepCall::<R, ()>::call_post(&step, world, input, after, world_after, out) {
        let (held, other) = choose|held: T, other: U|
            #[trigger] effect_mm(
                step.f.0,
                world.held::<T, I>(),
                world.held::<U, J>(),
                held,
                other,
                out,
            )
                && world_after == world.holding::<T, I>(held).holding::<U, J>(other);
        lemma_effect_mm(step.f.0, world.held::<T, I>(), world.held::<U, J>(), held, other, out);
        assert(promise((world.held::<T, I>(), world.held::<U, J>()), (held, other), out));
    }
}

/// What a function of its input alone promises, its step promises of what the world holds.
pub proof fn lemma_ref_step_unit<R, In, Out, F: FnMut(&In) -> Out>(
    step: Step<F, (), Out>,
    promise: spec_fn((In,), (), Out) -> bool,
    world: World<R>,
    input: &In,
    after: Step<F, (), Out>,
    world_after: World<R>,
    out: Out,
)
    requires
        forall|a0: &In, o: Out|
            #[trigger] call_ensures(step.f, (a0,), o) ==> promise((*a0,), (), o),
    ensures
        call_requires(step.f, (input,)) ==> RefStepCall::<R, In>::call_pre(&step, world, input),
        RefStepCall::<R, In>::call_post(&step, world, input, after, world_after, out) ==> {
            &&& after == step
            &&& world_after == world
            &&& promise((*input,), (), out)
        },
{
}

/// What a function of one resource promises, its step promises of what the world holds.
pub proof fn lemma_ref_step_res<R, T, I, In, Out, F: FnMut(&T, &In) -> Out>(
    step: Step<F, Res<T, I>, Out>,
    promise: spec_fn((T, In), (), Out) -> bool,
    world: World<R>,
    input: &In,
    after: Step<F, Res<T, I>, Out>,
    world_after: World<R>,
    out: Out,
) where R: Resource<T, I>
    requires
        forall|a0: &T, a1: &In, o: Out|
            #[trigger] call_ensures(step.f, (a0, a1), o) ==> promise((*a0, *a1), (), o),
    ensures
        call_requires(step.f, (&world.held::<T, I>(), input))
            ==> RefStepCall::<R, In>::call_pre(&step, world, input),
        RefStepCall::<R, In>::call_post(&step, world, input, after, world_after, out) ==> {
            &&& after == step
            &&& world_after == world
            &&& promise((world.held::<T, I>(), *input), (), out)
        },
{
}

/// What a function of one resource promises, its step promises of what the world holds.
pub proof fn lemma_ref_step_resmut<R, T, I, In, Out, F: FnMut(&mut T, &In) -> Out>(
    step: Step<F, ResMut<T, I>, Out>,
    promise: spec_fn((T, In), (T,), Out) -> bool,
    world: World<R>,
    input: &In,
    after: Step<F, ResMut<T, I>, Out>,
    world_after: World<R>,
    out: Out,
) where R: Resource<T, I>
    requires
        forall|a0: &mut T, a1: &In, o: Out|
            #[trigger] call_ensures(step.f, (a0, a1), o) ==> promise((*a0, *a1), (*final(a0),), o),
    ensures
        (forall|a0: &mut T|
            *a0 == world.held::<T, I>()
                ==> #[trigger] call_requires(step.f, (a0, input)))
                    ==> RefStepCall::<R, In>::call_pre(&step, world, input),
        RefStepCall::<R, In>::call_post(&step, world, input, after, world_after, out) ==> {
            &&& after == step
            &&& exists|held: T|
                #[trigger] promise((world.held::<T, I>(), *input), (held,), out)
                    && world_after == world.holding::<T, I>(held)
        },
{
    if RefStepCall::<R, In>::call_post(&step, world, input, after, world_after, out) {
        let held = choose|held: T|
            #[trigger] effect_mp(step.f, world.held::<T, I>(), input, held, out)
                && world_after == world.holding::<T, I>(held);
        lemma_effect_mp(step.f, world.held::<T, I>(), input, held, out);
        assert(promise((world.held::<T, I>(), *input), (held,), out));
    }
}

/// What a function of two resources promises, its step promises of what the world holds.
pub proof fn lemma_ref_step_res_res<R, T, I, U, J, In, Out, F: FnMut(&T, &U, &In) -> Out>(
    step: Step<F, (Res<T, I>, Res<U, J>), Out>,
    promise: spec_fn((T, U, In), (), Out) -> bool,
    world: World<R>,
    input: &In,
    after: Step<F, (Res<T, I>, Res<U, J>), Out>,
    world_after: World<R>,
    out: Out,
) where R: Resource<T, I> + Resource<U, J>
    requires
        forall|a0: &T, a1: &U, a2: &In, o: Out|
            #[trigger] call_ensures(step.f, (a0, a1, a2), o) ==> promise((*a0, *a1, *a2), (), o),
    ensures
        call_requires(step.f, (&world.held::<T, I>(), &world.held::<U, J>(), input))
            ==> RefStepCall::<R, In>::call_pre(&step, world, input),
        RefStepCall::<R, In>::call_post(&step, world, input, after, world_after, out) ==> {
            &&& after == step
            &&& world_after == world
            &&& promise((world.held::<T, I>(), world.held::<U, J>(), *input), (), out)
        },
{
}

/// What a function of two resources promises, its step promises of what the world holds.
pub proof fn lemma_ref_step_res_resmut<R, T, I, U, J, In, Out, F: FnMut(&T, &mut U, &In) -> Out>(
    step: Step<F, (Res<T, I>, ResMut<U, J>), Out>,
    promise: spec_fn((T, U, In), (U,), Out) -> bool,
    world: World<R>,
    input: &In,
    after: Step<F, (Res<T, I>, ResMut<U, J>), Out>,
    world_after: World<R>,
    out: Out,
) where R: Apart<T, I, U, J>
    requires
        forall|a0: &T, a1: &mut U, a2: &In, o: Out|
            #[trigger] call_ensures(step.f, (a0, a1, a2), o)
                ==> promise((*a0, *a1, *a2), (*final(a1),), o),
    ensures
        (forall|a1: &mut U|
            *a1 == world.held::<U, J>()
                ==> #[trigger] call_requires(
                    step.f,
                    (&world.held::<T, I>(), a1, input),
                )) ==> RefStepCall::<R, In>::call_pre(&step, world, input),
        RefStepCall::<R, In>::call_post(&step, world, input, after, world_after, out) ==> {
            &&& after == step
            &&& exists|held: U|
                #[trigger] promise(
                    (world.held::<T, I>(), world.held::<U, J>(), *input),
                    (held,),
                    out,
                )
                    && world_after == world.holding::<U, J>(held)
        },
{
    if RefStepCall::<R, In>::call_post(&step, world, input, after, world_after, out) {
        let held = choose|held: U|
            #[trigger] effect_pmp(
                step.f,
                &world.held::<T, I>(),
                world.held::<U, J>(),
                input,
                held,
                out,
            )
                && world_after == world.holding::<U, J>(held);
        lemma_effect_pmp(step.f, &world.held::<T, I>(), world.held::<U, J>(), input, held, out);
        assert(promise((world.held::<T, I>(), world.held::<U, J>(), *input), (held,), out));
    }
}

/// What a function of two resources promises, its step promises of what the world holds.
pub proof fn lemma_ref_step_resmut_res<R, T, I, U, J, In, Out, F: FnMut(&mut T, &U, &In) -> Out>(
    step: Step<F, (ResMut<T, I>, Res<U, J>), Out>,
    promise: spec_fn((T, U, In), (T,), Out) -> bool,
    world: World<R>,
    input: &In,
    after: Step<F, (ResMut<T, I>, Res<U, J>), Out>,
    world_after: World<R>,
    out: Out,
) where R: Apart<U, J, T, I>
    requires
        forall|a0: &mut T, a1: &U, a2: &In, o: Out|
            #[trigger] call_ensures(step.f, (a0, a1, a2), o)
                ==> promise((*a0, *a1, *a2), (*final(a0),), o),
    ensures
        (forall|a0: &mut T|
            *a0 == world.held::<T, I>()
                ==> #[trigger] call_requires(
                    step.f,
                    (a0, &world.held::<U, J>(), input),
                )) ==> RefStepCall::<R, In>::call_pre(&step, world, input),
        RefStepCall::<R, In>::call_post(&step, world, input, after, world_after, out) ==> {
            &&& after == step
            &&& exists|held: T|
                #[trigger] promise(
                    (world.held::<T, I>(), world.held::<U, J>(), *input),
                    (held,),
                    out,
                )
                    && world_after == world.holding::<T, I>(held)
        },
{
    if RefStepCall::<R, In>::call_post(&step, world, input, after, world_after, out) {
        let held = choose|held: T|
            #[trigger] effect_mpp(
                step.f,
                world.held::<T, I>(),
                &world.held::<U, J>(),
                input,
                held,
                out,
            )
                && world_after == world.holding::<T, I>(held);
        lemma_effect_mpp(step.f, world.held::<T, I>(), &world.held::<U, J>(), input, held, out);
        assert(promise((world.held::<T, I>(), world.held::<U, J>(), *input), (held,), out));
    }
}

/// What a function of two resources promises, its step promises of what the world holds.
pub proof fn lemma_ref_step_resmut_resmut<
    R,
    T,
    I,
    U,
    J,
    In,
    Out,
    F: FnMut(&mut T, &mut U, &In) -> Out,
>(
    step: Step<F, (ResMut<T, I>, ResMut<U, J>), Out>,
    promise: spec_fn((T, U, In), (T, U), Out) -> bool,
    world: World<R>,
    input: &In,
    after: Step<F, (ResMut<T, I>, ResMut<U, J>), Out>,
    world_after: World<R>,
    out: Out,
) where R: Apart<T, I, U, J>
    requires
        forall|a0: &mut T, a1: &mut U, a2: &In, o: Out|
            #[trigger] call_ensures(step.f, (a0, a1, a2), o)
                ==> promise((*a0, *a1, *a2), (*final(a0), *final(a1)), o),
    ensures
        (forall|a0: &mut T, a1: &mut U|
            *a0 == world.held::<T, I>() && *a1 == world.held::<U, J>()
                ==> #[trigger] call_requires(step.f, (a0, a1, input)))
                    ==> RefStepCall::<R, In>::call_pre(&step, world, input),
        RefStepCall::<R, In>::call_post(&step, world, input, after, world_after, out) ==> {
            &&& after == step
            &&& exists|held: T, other: U|
                #[trigger] promise(
                    (world.held::<T, I>(), world.held::<U, J>(), *input),
                    (held, other),
                    out,
                )
                    && world_after == world.holding::<T, I>(held).holding::<U, J>(other)
        },
{
    if RefStepCall::<R, In>::call_post(&step, world, input, after, world_after, out) {
        let (held, other) = choose|held: T, other: U|
            #[trigger] effect_mmp(
                step.f,
                world.held::<T, I>(),
                world.held::<U, J>(),
                input,
                held,
                other,
                out,
            )
                && world_after == world.holding::<T, I>(held).holding::<U, J>(other);
        lemma_effect_mmp(
            step.f,
            world.held::<T, I>(),
            world.held::<U, J>(),
            input,
            held,
            other,
            out,
        );
        assert(promise((world.held::<T, I>(), world.held::<U, J>(), *input), (held, other), out));
    }
}

/// What a function of the whole world promises, its step promises of what the world holds.
pub proof fn lemma_ref_step_opaque<R, In, Out, F: FnMut(&mut World<R>, &In) -> Out>(
    step: OpaqueRefStep<F, Out>,
    promise: spec_fn((World<R>, In), (World<R>,), Out) -> bool,
    world: World<R>,
    input: &In,
    after: OpaqueRefStep<F, Out>,
    world_after: World<R>,
    out: Out,
)
    requires
        forall|a0: &mut World<R>, a1: &In, o: Out|
            #[trigger] call_ensures(step.f, (a0, a1), o) ==> promise((*a0, *a1), (*final(a0),), o),
    ensures
        (forall|a0: &mut World<R>|
            *a0 == world
                ==> #[trigger] call_requires(step.f, (a0, input)))
                    ==> RefStepCall::<R, In>::call_pre(&step, world, input),
        RefStepCall::<R, In>::call_post(&step, world, input, after, world_after, out) ==> {
            &&& after == step
            &&& promise((world, *input), (world_after,), out)
        },
{
    if RefStepCall::<R, In>::call_post(&step, world, input, after, world_after, out) {
        lemma_effect_mp(step.f, world, input, world_after, out);
    }
}

/// What a function of its input alone promises, its step promises of what the world holds.
pub proof fn lemma_ref_step_unit_without_event<R, Out, F: FnMut() -> Out>(
    step: Step<NoEvent<F>, (), Out>,
    promise: spec_fn((), (), Out) -> bool,
    world: World<R>,
    input: &(),
    after: Step<NoEvent<F>, (), Out>,
    world_after: World<R>,
    out: Out,
)
    requires
        forall|o: Out|
            #[trigger] call_ensures(step.f.0, (), o) ==> promise((), (), o),
    ensures
        call_requires(step.f.0, ()) ==> RefStepCall::<R, ()>::call_pre(&step, world, input),
        RefStepCall::<R, ()>::call_post(&step, world, input, after, world_after, out) ==> {
            &&& after == step
            &&& world_after == world
            &&& promise((), (), out)
        },
{
}

/// What a function of one resource promises, its step promises of what the world holds.
pub proof fn lemma_ref_step_res_without_event<R, T, I, Out, F: FnMut(&T) -> Out>(
    step: Step<NoEvent<F>, Res<T, I>, Out>,
    promise: spec_fn((T,), (), Out) -> bool,
    world: World<R>,
    input: &(),
    after: Step<NoEvent<F>, Res<T, I>, Out>,
    world_after: World<R>,
    out: Out,
) where R: Resource<T, I>
    requires
        forall|a0: &T, o: Out|
            #[trigger] call_ensures(step.f.0, (a0,), o) ==> promise((*a0,), (), o),
    ensures
        call_requires(step.f.0, (&world.held::<T, I>(),))
            ==> RefStepCall::<R, ()>::call_pre(&step, world, input),
        RefStepCall::<R, ()>::call_post(&step, world, input, after, world_after, out) ==> {
            &&& after == step
            &&& world_after == world
            &&& promise((world.held::<T, I>(),), (), out)
        },
{
}

/// What a function of one resource promises, its step promises of what the world holds.
pub proof fn lemma_ref_step_resmut_without_event<R, T, I, Out, F: FnMut(&mut T) -> Out>(
    step: Step<NoEvent<F>, ResMut<T, I>, Out>,
    promise: spec_fn((T,), (T,), Out) -> bool,
    world: World<R>,
    input: &(),
    after: Step<NoEvent<F>, ResMut<T, I>, Out>,
    world_after: World<R>,
    out: Out,
) where R: Resource<T, I>
    requires
        forall|a0: &mut T, o: Out|
            #[trigger] call_ensures(step.f.0, (a0,), o) ==> promise((*a0,), (*final(a0),), o),
    ensures
        (forall|a0: &mut T|
            *a0 == world.held::<T, I>()
                ==> #[trigger] call_requires(step.f.0, (a0,)))
                    ==> RefStepCall::<R, ()>::call_pre(&step, world, input),
        RefStepCall::<R, ()>::call_post(&step, world, input, after, world_after, out) ==> {
            &&& after == step
            &&& exists|held: T|
                #[trigger] promise((world.held::<T, I>(),), (held,), out)
                    && world_after == world.holding::<T, I>(held)
        },
{
    if RefStepCall::<R, ()>::call_post(&step, world, input, after, world_after, out) {
        let held = choose|held: T|
            #[trigger] effect_m(step.f.0, world.held::<T, I>(), held, out)
                && world_after == world.holding::<T, I>(held);
        lemma_effect_m(step.f.0, world.held::<T, I>(), held, out);
        assert(promise((world.held::<T, I>(),), (held,), out));
    }
}

/// What a function of two resources promises, its step promises of what the world holds.
pub proof fn lemma_ref_step_res_res_without_event<R, T, I, U, J, Out, F: FnMut(&T, &U) -> Out>(
    step: Step<NoEvent<F>, (Res<T, I>, Res<U, J>), Out>,
    promise: spec_fn((T, U), (), Out) -> bool,
    world: World<R>,
    input: &(),
    after: Step<NoEvent<F>, (Res<T, I>, Res<U, J>), Out>,
    world_after: World<R>,
    out: Out,
) where R: Resource<T, I> + Resource<U, J>
    requires
        forall|a0: &T, a1: &U, o: Out|
            #[trigger] call_ensures(step.f.0, (a0, a1), o) ==> promise((*a0, *a1), (), o),
    ensures
        call_requires(step.f.0, (&world.held::<T, I>(), &world.held::<U, J>()))
            ==> RefStepCall::<R, ()>::call_pre(&step, world, input),
        RefStepCall::<R, ()>::call_post(&step, world, input, after, world_after, out) ==> {
            &&& after == step
            &&& world_after == world
            &&& promise((world.held::<T, I>(), world.held::<U, J>()), (), out)
        },
{
}

/// What a function of two resources promises, its step promises of what the world holds.
pub proof fn lemma_ref_step_res_resmut_without_event<
    R,
    T,
    I,
    U,
    J,
    Out,
    F: FnMut(&T, &mut U) -> Out,
>(
    step: Step<NoEvent<F>, (Res<T, I>, ResMut<U, J>), Out>,
    promise: spec_fn((T, U), (U,), Out) -> bool,
    world: World<R>,
    input: &(),
    after: Step<NoEvent<F>, (Res<T, I>, ResMut<U, J>), Out>,
    world_after: World<R>,
    out: Out,
) where R: Apart<T, I, U, J>
    requires
        forall|a0: &T, a1: &mut U, o: Out|
            #[trigger] call_ensures(step.f.0, (a0, a1), o)
                ==> promise((*a0, *a1), (*final(a1),), o),
    ensures
        (forall|a1: &mut U|
            *a1 == world.held::<U, J>()
                ==> #[trigger] call_requires(step.f.0, (&world.held::<T, I>(), a1)))
                    ==> RefStepCall::<R, ()>::call_pre(&step, world, input),
        RefStepCall::<R, ()>::call_post(&step, world, input, after, world_after, out) ==> {
            &&& after == step
            &&& exists|held: U|
                #[trigger] promise((world.held::<T, I>(), world.held::<U, J>()), (held,), out)
                    && world_after == world.holding::<U, J>(held)
        },
{
    if RefStepCall::<R, ()>::call_post(&step, world, input, after, world_after, out) {
        let held = choose|held: U|
            #[trigger] effect_pm(step.f.0, &world.held::<T, I>(), world.held::<U, J>(), held, out)
                && world_after == world.holding::<U, J>(held);
        lemma_effect_pm(step.f.0, &world.held::<T, I>(), world.held::<U, J>(), held, out);
        assert(promise((world.held::<T, I>(), world.held::<U, J>()), (held,), out));
    }
}

/// What a function of two resources promises, its step promises of what the world holds.
pub proof fn lemma_ref_step_resmut_res_without_event<
    R,
    T,
    I,
    U,
    J,
    Out,
    F: FnMut(&mut T, &U) -> Out,
>(
    step: Step<NoEvent<F>, (ResMut<T, I>, Res<U, J>), Out>,
    promise: spec_fn((T, U), (T,), Out) -> bool,
    world: World<R>,
    input: &(),
    after: Step<NoEvent<F>, (ResMut<T, I>, Res<U, J>), Out>,
    world_after: World<R>,
    out: Out,
) where R: Apart<U, J, T, I>
    requires
        forall|a0: &mut T, a1: &U, o: Out|
            #[trigger] call_ensures(step.f.0, (a0, a1), o)
                ==> promise((*a0, *a1), (*final(a0),), o),
    ensures
        (forall|a0: &mut T|
            *a0 == world.held::<T, I>()
                ==> #[trigger] call_requires(step.f.0, (a0, &world.held::<U, J>())))
                    ==> RefStepCall::<R, ()>::call_pre(&step, world, input),
        RefStepCall::<R, ()>::call_post(&step, world, input, after, world_after, out) ==> {
            &&& after == step
            &&& exists|held: T|
                #[trigger] promise((world.held::<T, I>(), world.held::<U, J>()), (held,), out)
                    && world_after == world.holding::<T, I>(held)
        },
{
    if RefStepCall::<R, ()>::call_post(&step, world, input, after, world_after, out) {
        let held = choose|held: T|
            #[trigger] effect_mp(step.f.0, world.held::<T, I>(), &world.held::<U, J>(), held, out)
                && world_after == world.holding::<T, I>(held);
        lemma_effect_mp(step.f.0, world.held::<T, I>(), &world.held::<U, J>(), held, out);
        assert(promise((world.held::<T, I>(), world.held::<U, J>()), (held,), out));
    }
}

/// What a function of two resources promises, its step promises of what the world holds.
pub proof fn lemma_ref_step_resmut_resmut_without_event<
    R,
    T,
    I,
    U,
    J,
    Out,
    F: FnMut(&mut T, &mut U) -> Out,
>(
    step: Step<NoEvent<F>, (ResMut<T, I>, ResMut<U, J>), Out>,
    promise: spec_fn((T, U), (T, U), Out) -> bool,
    world: World<R>,
    input: &(),
    after: Step<NoEvent<F>, (ResMut<T, I>, ResMut<U, J>), Out>,
    world_after: World<R>,
    out: Out,
) where R: Apart<T, I, U, J>
    requires
        forall|a0: &mut T, a1: &mut U, o: Out|
            #[trigger] call_ensures(step.f.0, (a0, a1), o)
                ==> promise((*a0, *a1), (*final(a0), *final(a1)), o),
    ensures
        (forall|a0: &mut T, a1: &mut U|
            *a0 == world.held::<T, I>() && *a1 == world.held::<U, J>()
                ==> #[trigger] call_requires(step.f.0, (a0, a1)))
                    ==> RefStepCall::<R, ()>::call_pre(&step, world, input),
        RefStepCall::<R, ()>::call_post(&step, world, input, after, world_after, out) ==> {
            &&& after == step
            &&& exists|held: T, other: U|
                #[trigger] promise((world.held::<T, I>(), world.held::<U, J>()), (held, other), out)
                    && world_after == world.holding::<T, I>(held).holding::<U, J>(other)
        },
{
    if RefStepCall::<R, ()>::call_post(&step, world, input, after, world_after, out) {
        let (held, other) = choose|held: T, other: U|
            #[trigger] effect_mm(
                step.f.0,
                world.held::<T, I>(),
                world.held::<U, J>(),
                held,
                other,
                out,
            )
                && world_after == world.holding::<T, I>(held).holding::<U, J>(other);
        lemma_effect_mm(step.f.0, world.held::<T, I>(), world.held::<U, J>(), held, other, out);
        assert(promise((world.held::<T, I>(), world.held::<U, J>()), (held, other), out));
    }
}

/// What a function of its input alone promises, its step promises of what the world holds.
pub proof fn lemma_producer_unit<R, Out, F: FnMut() -> Out>(
    step: Step<F, (), Out>,
    promise: spec_fn((), (), Out) -> bool,
    world: World<R>,
    after: Step<F, (), Out>,
    world_after: World<R>,
    out: Out,
)
    requires
        forall|o: Out|
            #[trigger] call_ensures(step.f, (), o) ==> promise((), (), o),
    ensures
        call_requires(step.f, ()) ==> ProducerCall::<R>::call_pre(&step, world),
        ProducerCall::<R>::call_post(&step, world, after, world_after, out) ==> {
            &&& after == step
            &&& world_after == world
            &&& promise((), (), out)
        },
{
}

/// What a function of one resource promises, its step promises of what the world holds.
pub proof fn lemma_producer_res<R, T, I, Out, F: FnMut(&T) -> Out>(
    step: Step<F, Res<T, I>, Out>,
    promise: spec_fn((T,), (), Out) -> bool,
    world: World<R>,
    after: Step<F, Res<T, I>, Out>,
    world_after: World<R>,
    out: Out,
) where R: Resource<T, I>
    requires
        forall|a0: &T, o: Out|
            #[trigger] call_ensures(step.f, (a0,), o) ==> promise((*a0,), (), o),
    ensures
        call_requires(step.f, (&world.held::<T, I>(),))
            ==> ProducerCall::<R>::call_pre(&step, world),
        ProducerCall::<R>::call_post(&step, world, after, world_after, out) ==> {
            &&& after == step
            &&& world_after == world
            &&& promise((world.held::<T, I>(),), (), out)
        },
{
}

/// What a function of one resource promises, its step promises of what the world holds.
pub proof fn lemma_producer_resmut<R, T, I, Out, F: FnMut(&mut T) -> Out>(
    step: Step<F, ResMut<T, I>, Out>,
    promise: spec_fn((T,), (T,), Out) -> bool,
    world: World<R>,
    after: Step<F, ResMut<T, I>, Out>,
    world_after: World<R>,
    out: Out,
) where R: Resource<T, I>
    requires
        forall|a0: &mut T, o: Out|
            #[trigger] call_ensures(step.f, (a0,), o) ==> promise((*a0,), (*final(a0),), o),
    ensures
        (forall|a0: &mut T|
            *a0 == world.held::<T, I>()
                ==> #[trigger] call_requires(step.f, (a0,)))
                    ==> ProducerCall::<R>::call_pre(&step, world),
        ProducerCall::<R>::call_post(&step, world, after, world_after, out) ==> {
            &&& after == step
            &&& exists|held: T|
                #[trigger] promise((world.held::<T, I>(),), (held,), out)
                    && world_after == world.holding::<T, I>(held)
        },
{
    if ProducerCall::<R>::call_post(&step, world, after, world_after, out) {
        let held = choose|held: T|
            #[trigger] effect_m(step.f, world.held::<T, I>(), held, out)
                && world_after == world.holding::<T, I>(held);
        lemma_effect_m(step.f, world.held::<T, I>(), held, out);
        assert(promise((world.held::<T, I>(),), (held,), out));
    }
}

/// What a function of two resources promises, its step promises of what the world holds.
pub proof fn lemma_producer_res_res<R, T, I, U, J, Out, F: FnMut(&T, &U) -> Out>(
    step: Step<F, (Res<T, I>, Res<U, J>), Out>,
    promise: spec_fn((T, U), (), Out) -> bool,
    world: World<R>,
    after: Step<F, (Res<T, I>, Res<U, J>), Out>,
    world_after: World<R>,
    out: Out,
) where R: Resource<T, I> + Resource<U, J>
    requires
        forall|a0: &T, a1: &U, o: Out|
            #[trigger] call_ensures(step.f, (a0, a1), o) ==> promise((*a0, *a1), (), o),
    ensures
        call_requires(step.f, (&world.held::<T, I>(), &world.held::<U, J>()))
            ==> ProducerCall::<R>::call_pre(&step, world),
        ProducerCall::<R>::call_post(&step, world, after, world_after, out) ==> {
            &&& after == step
            &&& world_after == world
            &&& promise((world.held::<T, I>(), world.held::<U, J>()), (), out)
        },
{
}

/// What a function of two resources promises, its step promises of what the world holds.
pub proof fn lemma_producer_res_resmut<R, T, I, U, J, Out, F: FnMut(&T, &mut U) -> Out>(
    step: Step<F, (Res<T, I>, ResMut<U, J>), Out>,
    promise: spec_fn((T, U), (U,), Out) -> bool,
    world: World<R>,
    after: Step<F, (Res<T, I>, ResMut<U, J>), Out>,
    world_after: World<R>,
    out: Out,
) where R: Apart<T, I, U, J>
    requires
        forall|a0: &T, a1: &mut U, o: Out|
            #[trigger] call_ensures(step.f, (a0, a1), o) ==> promise((*a0, *a1), (*final(a1),), o),
    ensures
        (forall|a1: &mut U|
            *a1 == world.held::<U, J>()
                ==> #[trigger] call_requires(step.f, (&world.held::<T, I>(), a1)))
                    ==> ProducerCall::<R>::call_pre(&step, world),
        ProducerCall::<R>::call_post(&step, world, after, world_after, out) ==> {
            &&& after == step
            &&& exists|held: U|
                #[trigger] promise((world.held::<T, I>(), world.held::<U, J>()), (held,), out)
                    && world_after == world.holding::<U, J>(held)
        },
{
    if ProducerCall::<R>::call_post(&step, world, after, world_after, out) {
        let held = choose|held: U|
            #[trigger] effect_pm(step.f, &world.held::<T, I>(), world.held::<U, J>(), held, out)
                && world_after == world.holding::<U, J>(held);
        lemma_effect_pm(step.f, &world.held::<T, I>(), world.held::<U, J>(), held, out);
        assert(promise((world.held::<T, I>(), world.held::<U, J>()), (held,), out));
    }
}

/// What a function of two resources promises, its step promises of what the world holds.
pub proof fn lemma_producer_resmut_res<R, T, I, U, J, Out, F: FnMut(&mut T, &U) -> Out>(
    step: Step<F, (ResMut<T, I>, Res<U, J>), Out>,
    promise: spec_fn((T, U), (T,), Out) -> bool,
    world: World<R>,
    after: Step<F, (ResMut<T, I>, Res<U, J>), Out>,
    world_after: World<R>,
    out: Out,
) where R: Apart<U, J, T, I>
    requires
        forall|a0: &mut T, a1: &U, o: Out|
            #[trigger] call_ensures(step.f, (a0, a1), o) ==> promise((*a0, *a1), (*final(a0),), o),
    ensures
        (forall|a0: &mut T|
            *a0 == world.held::<T, I>()
                ==> #[trigger] call_requires(step.f, (a0, &world.held::<U, J>())))
                    ==> ProducerCall::<R>::call_pre(&step, world),
        ProducerCall::<R>::call_post(&step, world, after, world_after, out) ==> {
            &&& after == step
            &&& exists|held: T|
                #[trigger] promise((world.held::<T, I>(), world.held::<U, J>()), (held,), out)
                    && world_after == world.holding::<T, I>(held)
        },
{
    if ProducerCall::<R>::call_post(&step, world, after, world_after, out) {
        let held = choose|held: T|
            #[trigger] effect_mp(step.f, world.held::<T, I>(), &world.held::<U, J>(), held, out)
                && world_after == world.holding::<T, I>(held);
        lemma_effect_mp(step.f, world.held::<T, I>(), &world.held::<U, J>(), held, out);
        assert(promise((world.held::<T, I>(), world.held::<U, J>()), (held,), out));
    }
}

/// What a function of two resources promises, its step promises of what the world holds.
pub proof fn lemma_producer_resmut_resmut<R, T, I, U, J, Out, F: FnMut(&mut T, &mut U) -> Out>(
    step: Step<F, (ResMut<T, I>, ResMut<U, J>), Out>,
    promise: spec_fn((T, U), (T, U), Out) -> bool,
    world: World<R>,
    after: Step<F, (ResMut<T, I>, ResMut<U, J>), Out>,
    world_after: World<R>,
    out: Out,
) where R: Apart<T, I, U, J>
    requires
        forall|a0: &mut T, a1: &mut U, o: Out|
            #[trigger] call_ensures(step.f, (a0, a1), o)
                ==> promise((*a0, *a1), (*final(a0), *final(a1)), o),
    ensures
        (forall|a0: &mut T, a1: &mut U|
            *a0 == world.held::<T, I>() && *a1 == world.held::<U, J>()
                ==> #[trigger] call_requires(step.f, (a0, a1)))
                    ==> ProducerCall::<R>::call_pre(&step, world),
        ProducerCall::<R>::call_post(&step, world, after, world_after, out) ==> {
            &&& after == step
            &&& exists|held: T, other: U|
                #[trigger] promise((world.held::<T, I>(), world.held::<U, J>()), (held, other), out)
                    && world_after == world.holding::<T, I>(held).holding::<U, J>(other)
        },
{
    if ProducerCall::<R>::call_post(&step, world, after, world_after, out) {
        let (held, other) = choose|held: T, other: U|
            #[trigger] effect_mm(
                step.f,
                world.held::<T, I>(),
                world.held::<U, J>(),
                held,
                other,
                out,
            )
                && world_after == world.holding::<T, I>(held).holding::<U, J>(other);
        lemma_effect_mm(step.f, world.held::<T, I>(), world.held::<U, J>(), held, other, out);
        assert(promise((world.held::<T, I>(), world.held::<U, J>()), (held, other), out));
    }
}

/// What a function of the whole world promises, its step promises of what the world holds.
pub proof fn lemma_producer_opaque<R, Out, F: FnMut(&mut World<R>) -> Out>(
    step: OpaqueProducer<F, Out>,
    promise: spec_fn((World<R>,), (World<R>,), Out) -> bool,
    world: World<R>,
    after: OpaqueProducer<F, Out>,
    world_after: World<R>,
    out: Out,
)
    requires
        forall|a0: &mut World<R>, o: Out|
            #[trigger] call_ensures(step.f, (a0,), o) ==> promise((*a0,), (*final(a0),), o),
    ensures
        (forall|a0: &mut World<R>|
            *a0 == world
                ==> #[trigger] call_requires(step.f, (a0,)))
                    ==> ProducerCall::<R>::call_pre(&step, world),
        ProducerCall::<R>::call_post(&step, world, after, world_after, out) ==> {
            &&& after == step
            &&& promise((world,), (world_after,), out)
        },
{
    if ProducerCall::<R>::call_post(&step, world, after, world_after, out) {
        lemma_effect_m(step.f, world, world_after, out);
    }
}

/// What a function of its input alone promises, its step promises of what the world holds.
pub proof fn lemma_scan_step_unit<R, Acc, In, Out, F: FnMut(&mut Acc, In) -> Out>(
    step: Step<F, (), Out>,
    promise: spec_fn((Acc, In), (Acc,), Out) -> bool,
    world: World<R>,
    acc: Acc,
    input: In,
    after: Step<F, (), Out>,
    world_after: World<R>,
    acc_after: Acc,
    out: Out,
)
    requires
        forall|a0: &mut Acc, a1: In, o: Out|
            #[trigger] call_ensures(step.f, (a0, a1), o) ==> promise((*a0, a1), (*final(a0),), o),
    ensures
        (forall|a0: &mut Acc|
            *a0 == acc
                ==> #[trigger] call_requires(step.f, (a0, input)))
                    ==> ScanStepCall::<R, Acc, In>::call_pre(&step, world, acc, input),
        ScanStepCall::<R, Acc, In>::call_post(
            &step,
            world,
            acc,
            input,
            after,
            world_after,
            acc_after,
            out,
        )
            ==> {
            &&& after == step
            &&& world_after == world
            &&& promise((acc, input), (acc_after,), out)
        },
{
    if ScanStepCall::<R, Acc, In>::call_post(
        &step,
        world,
        acc,
        input,
        after,
        world_after,
        acc_after,
        out,
    ) {
        lemma_effect_mp(step.f, acc, input, acc_after, out);
    }
}

/// What a function of one resource promises, its step promises of what the world holds.
pub proof fn lemma_scan_step_res<R, T, I, Acc, In, Out, F: FnMut(&T, &mut Acc, In) -> Out>(
    step: Step<F, Res<T, I>, Out>,
    promise: spec_fn((T, Acc, In), (Acc,), Out) -> bool,
    world: World<R>,
    acc: Acc,
    input: In,
    after: Step<F, Res<T, I>, Out>,
    world_after: World<R>,
    acc_after: Acc,
    out: Out,
) where R: Resource<T, I>
    requires
        forall|a0: &T, a1: &mut Acc, a2: In, o: Out|
            #[trigger] call_ensures(step.f, (a0, a1, a2), o)
                ==> promise((*a0, *a1, a2), (*final(a1),), o),
    ensures
        (forall|a1: &mut Acc|
            *a1 == acc
                ==> #[trigger] call_requires(
                    step.f,
                    (&world.held::<T, I>(), a1, input),
                )) ==> ScanStepCall::<R, Acc, In>::call_pre(&step, world, acc, input),
        ScanStepCall::<R, Acc, In>::call_post(
            &step,
            world,
            acc,
            input,
            after,
            world_after,
            acc_after,
            out,
        )
            ==> {
            &&& after == step
            &&& world_after == world
            &&& promise((world.held::<T, I>(), acc, input), (acc_after,), out)
        },
{
    if ScanStepCall::<R, Acc, In>::call_post(
        &step,
        world,
        acc,
        input,
        after,
        world_after,
        acc_after,
        out,
    ) {
        lemma_effect_pmp(step.f, &world.held::<T, I>(), acc, input, acc_after, out);
    }
}

/// What a function of one resource promises, its step promises of what the world holds.
pub proof fn lemma_scan_step_resmut<R, T, I, Acc, In, Out, F: FnMut(&mut T, &mut Acc, In) -> Out>(
    step: Step<F, ResMut<T, I>, Out>,
    promise: spec_fn((T, Acc, In), (T, Acc), Out) -> bool,
    world: World<R>,
    acc: Acc,
    input: In,
    after: Step<F, ResMut<T, I>, Out>,
    world_after: World<R>,
    acc_after: Acc,
    out: Out,
) where R: Resource<T, I>
    requires
        forall|a0: &mut T, a1: &mut Acc, a2: In, o: Out|
            #[trigger] call_ensures(step.f, (a0, a1, a2), o)
                ==> promise((*a0, *a1, a2), (*final(a0), *final(a1)), o),
    ensures
        (forall|a0: &mut T, a1: &mut Acc|
            *a0 == world.held::<T, I>() && *a1 == acc
                ==> #[trigger] call_requires(step.f, (a0, a1, input)))
                    ==> ScanStepCall::<R, Acc, In>::call_pre(&step, world, acc, input),
        ScanStepCall::<R, Acc, In>::call_post(
            &step,
            world,
            acc,
            input,
            after,
            world_after,
            acc_after,
            out,
        )
            ==> {
            &&& after == step
            &&& exists|held: T|
                #[trigger] promise((world.held::<T, I>(), acc, input), (held, acc_after), out)
                    && world_after == world.holding::<T, I>(held)
        },
{
    if ScanStepCall::<R, Acc, In>::call_post(
        &step,
        world,
        acc,
        input,
        after,
        world_after,
        acc_after,
        out,
    ) {
        let held = choose|held: T|
            #[trigger] effect_mmp(step.f, world.held::<T, I>(), acc, input, held, acc_after, out)
                && world_after == world.holding::<T, I>(held);
        lemma_effect_mmp(step.f, world.held::<T, I>(), acc, input, held, acc_after, out);
        assert(promise((world.held::<T, I>(), acc, input), (held, acc_after), out));
    }
}

/// What a function of two resources promises, its step promises of what the world holds.
pub proof fn lemma_scan_step_res_res<
    R,
    T,
    I,
    U,
    J,
    Acc,
    In,
    Out,
    F: FnMut(&T, &U, &mut Acc, In) -> Out,
>(
    step: Step<F, (Res<T, I>, Res<U, J>), Out>,
    promise: spec_fn((T, U, Acc, In), (Acc,), Out) -> bool,
    world: World<R>,
    acc: Acc,
    input: In,
    after: Step<F, (Res<T, I>, Res<U, J>), Out>,
    world_after: World<R>,
    acc_after: Acc,
    out: Out,
) where R: Resource<T, I> + Resource<U, J>
    requires
        forall|a0: &T, a1: &U, a2: &mut Acc, a3: In, o: Out|
            #[trigger] call_ensures(step.f, (a0, a1, a2, a3), o)
                ==> promise((*a0, *a1, *a2, a3), (*final(a2),), o),
    ensures
        (forall|a2: &mut Acc|
            *a2 == acc
                ==> #[trigger] call_requires(
                    step.f,
                    (&world.held::<T, I>(), &world.held::<U, J>(), a2, input),
                )) ==> ScanStepCall::<R, Acc, In>::call_pre(&step, world, acc, input),
        ScanStepCall::<R, Acc, In>::call_post(
            &step,
            world,
            acc,
            input,
            after,
            world_after,
            acc_after,
            out,
        )
            ==> {
            &&& after == step
            &&& world_after == world
            &&& promise((world.held::<T, I>(), world.held::<U, J>(), acc, input), (acc_after,), out)
        },
{
    if ScanStepCall::<R, Acc, In>::call_post(
        &step,
        world,
        acc,
        input,
        after,
        world_after,
        acc_after,
        out,
    ) {
        lemma_effect_ppmp(
            step.f,
            &world.held::<T, I>(),
            &world.held::<U, J>(),
            acc,
            input,
            acc_after,
            out,
        );
    }
}

/// What a function of two resources promises, its step promises of what the world holds.
pub proof fn lemma_scan_step_res_resmut<
    R,
    T,
    I,
    U,
    J,
    Acc,
    In,
    Out,
    F: FnMut(&T, &mut U, &mut Acc, In) -> Out,
>(
    step: Step<F, (Res<T, I>, ResMut<U, J>), Out>,
    promise: spec_fn((T, U, Acc, In), (U, Acc), Out) -> bool,
    world: World<R>,
    acc: Acc,
    input: In,
    after: Step<F, (Res<T, I>, ResMut<U, J>), Out>,
    world_after: World<R>,
    acc_after: Acc,
    out: Out,
) where R: Apart<T, I, U, J>
    requires
        forall|a0: &T, a1: &mut U, a2: &mut Acc, a3: In, o: Out|
            #[trigger] call_ensures(step.f, (a0, a1, a2, a3), o)
                ==> promise((*a0, *a1, *a2, a3), (*final(a1), *final(a2)), o),
    ensures
        (forall|a1: &mut U, a2: &mut Acc|
            *a1 == world.held::<U, J>() && *a2 == acc
                ==> #[trigger] call_requires(
                    step.f,
                    (&world.held::<T, I>(), a1, a2, input),
                )) ==> ScanStepCall::<R, Acc, In>::call_pre(&step, world, acc, input),
        ScanStepCall::<R, Acc, In>::call_post(
            &step,
            world,
            acc,
            input,
            after,
            world_after,
            acc_after,
            out,
        )
            ==> {
            &&& after == step
            &&& exists|held: U|
                #[trigger] promise(
                    (world.held::<T, I>(), world.held::<U, J>(), acc, input),
                    (held, acc_after),
                    out,
                )
                    && world_after == world.holding::<U, J>(held)
        },
{
    if ScanStepCall::<R, Acc, In>::call_post(
        &step,
        world,
        acc,
        input,
        after,
        world_after,
        acc_after,
        out,
    ) {
        let held = choose|held: U|
            #[trigger] effect_pmmp(
                step.f,
                &world.held::<T, I>(),
                world.held::<U, J>(),
                acc,
                input,
                held,
                acc_after,
                out,
            )
                && world_after == world.holding::<U, J>(held);
        lemma_effect_pmmp(
            step.f,
            &world.held::<T, I>(),
            world.held::<U, J>(),
            acc,
            input,
            held,
            acc_after,
            out,
        );
        assert(promise(
            (world.held::<T, I>(), world.held::<U, J>(), acc, input),
            (held, acc_after),
            out,
        ));
    }
}

/// What a function of two resources promises, its step promises of what the world holds.
pub proof fn lemma_scan_step_resmut_res<
    R,
    T,
    I,
    U,
    J,
    Acc,
    In,
    Out,
    F: FnMut(&mut T, &U, &mut Acc, In) -> Out,
>(
    step: Step<F, (ResMut<T, I>, Res<U, J>), Out>,
    promise: spec_fn((T, U, Acc, In), (T, Acc), Out) -> bool,
    world: World<R>,
    acc: Acc,
    input: In,
    after: Step<F, (ResMut<T, I>, Res<U, J>), Out>,
    world_after: World<R>,
    acc_after: Acc,
    out: Out,
) where R: Apart<U, J, T, I>
    requires
        forall|a0: &mut T, a1: &U, a2: &mut Acc, a3: In, o: Out|
            #[trigger] call_ensures(step.f, (a0, a1, a2, a3), o)
                ==> promise((*a0, *a1, *a2, a3), (*final(a0), *final(a2)), o),
    ensures
        (forall|a0: &mut T, a2: &mut Acc|
            *a0 == world.held::<T, I>() && *a2 == acc
                ==> #[trigger] call_requires(
                    step.f,
                    (a0, &world.held::<U, J>(), a2, input),
                )) ==> ScanStepCall::<R, Acc, In>::call_pre(&step, world, acc, input),
        ScanStepCall::<R, Acc, In>::call_post(
            &step,
            world,
            acc,
            input,
            after,
            world_after,
            acc_after,
            out,
        )
            ==> {
            &&& after == step
            &&& exists|held: T|
                #[trigger] promise(
                    (world.held::<T, I>(), world.held::<U, J>(), acc, input),
                    (held, acc_after),
                    out,
                )
                    && world_after == world.holding::<T, I>(held)
        },
{
    if ScanStepCall::<R, Acc, In>::call_post(
        &step,
        world,
        acc,
        input,
        after,
        world_after,
        acc_after,
        out,
    ) {
        let held = choose|held: T|
            #[trigger] effect_mpmp(
                step.f,
                world.held::<T, I>(),
                &world.held::<U, J>(),
                acc,
                input,
                held,
                acc_after,
                out,
            )
                && world_after == world.holding::<T, I>(held);
        lemma_effect_mpmp(
            step.f,
            world.held::<T, I>(),
            &world.held::<U, J>(),
            acc,
            input,
            held,
            acc_after,
            out,
        );
        assert(promise(
            (world.held::<T, I>(), world.held::<U, J>(), acc, input),
            (held, acc_after),
            out,
        ));
    }
}

/// What a function of two resources promises, its step promises of what the world holds.
pub proof fn lemma_scan_step_resmut_resmut<
    R,
    T,
    I,
    U,
    J,
    Acc,
    In,
    Out,
    F: FnMut(&mut T, &mut U, &mut Acc, In) -> Out,
>(
    step: Step<F, (ResMut<T, I>, ResMut<U, J>), Out>,
    promise: spec_fn((T, U, Acc, In), (T, U, Acc), Out) -> bool,
    world: World<R>,
    acc: Acc,
    input: In,
    after: Step<F, (ResMut<T, I>, ResMut<U, J>), Out>,
    world_after: World<R>,
    acc_after: Acc,
    out: Out,
) where R: Apart<T, I, U, J>
    requires
        forall|a0: &mut T, a1: &mut U, a2: &mut Acc, a3: In, o: Out|
            #[trigger] call_ensures(step.f, (a0, a1, a2, a3), o)
                ==> promise((*a0, *a1, *a2, a3), (*final(a0), *final(a1), *final(a2)), o),
    ensures
        (forall|a0: &mut T, a1: &mut U, a2: &mut Acc|
            *a0 == world.held::<T, I>() && *a1 == world.held::<U, J>() && *a2 == acc
                ==> #[trigger] call_requires(step.f, (a0, a1, a2, input)))
                    ==> ScanStepCall::<R, Acc, In>::call_pre(&step, world, acc, input),
        ScanStepCall::<R, Acc, In>::call_post(
            &step,
            world,
            acc,
            input,
            after,
            world_after,
            acc_after,
            out,
        )
            ==> {
            &&& after == step
            &&& exists|held: T, other: U|
                #[trigger] promise(
                    (world.held::<T, I>(), world.held::<U, J>(), acc, input),
                    (held, other, acc_after),
                    out,
                )
                    && world_after == world.holding::<T, I>(held).holding::<U, J>(other)
        },
{
    if ScanStepCall::<R, Acc, In>::call_post(
        &step,
        world,
        acc,
        input,
        after,
        world_after,
        acc_after,
        out,
    ) {
        let (held, other) = choose|held: T, other: U|
            #[trigger] effect_mmmp(
                step.f,
                world.held::<T, I>(),
                world.held::<U, J>(),
                acc,
                input,
                held,
                other,
                acc_after,
                out,
            )
                && world_after == world.holding::<T, I>(held).holding::<U, J>(other);
        lemma_effect_mmmp(
            step.f,
            world.held::<T, I>(),
            world.held::<U, J>(),
            acc,
            input,
            held,
            other,
            acc_after,
            out,
        );
        assert(promise(
            (world.held::<T, I>(), world.held::<U, J>(), acc, input),
            (held, other, acc_after),
            out,
        ));
    }
}

/// What a function of the whole world promises, its step promises of what the world holds.
pub proof fn lemma_scan_step_opaque<R, Acc, In, Out, F: FnMut(&mut World<R>, &mut Acc, In) -> Out>(
    step: OpaqueScanStep<F, Out>,
    promise: spec_fn((World<R>, Acc, In), (World<R>, Acc), Out) -> bool,
    world: World<R>,
    acc: Acc,
    input: In,
    after: OpaqueScanStep<F, Out>,
    world_after: World<R>,
    acc_after: Acc,
    out: Out,
)
    requires
        forall|a0: &mut World<R>, a1: &mut Acc, a2: In, o: Out|
            #[trigger] call_ensures(step.f, (a0, a1, a2), o)
                ==> promise((*a0, *a1, a2), (*final(a0), *final(a1)), o),
    ensures
        (forall|a0: &mut World<R>, a1: &mut Acc|
            *a0 == world && *a1 == acc
                ==> #[trigger] call_requires(step.f, (a0, a1, input)))
                    ==> ScanStepCall::<R, Acc, In>::call_pre(&step, world, acc, input),
        ScanStepCall::<R, Acc, In>::call_post(
            &step,
            world,
            acc,
            input,
            after,
            world_after,
            acc_after,
            out,
        )
            ==> {
            &&& after == step
            &&& promise((world, acc, input), (world_after, acc_after), out)
        },
{
    if ScanStepCall::<R, Acc, In>::call_post(
        &step,
        world,
        acc,
        input,
        after,
        world_after,
        acc_after,
        out,
    ) {
        lemma_effect_mmp(step.f, world, acc, input, world_after, acc_after, out);
    }
}

/// What a function of its input alone promises, its step promises of what the world holds.
pub proof fn lemma_scan_step_unit_without_event<R, Acc, Out, F: FnMut(&mut Acc) -> Out>(
    step: Step<NoEvent<F>, (), Out>,
    promise: spec_fn((Acc,), (Acc,), Out) -> bool,
    world: World<R>,
    acc: Acc,
    input: (),
    after: Step<NoEvent<F>, (), Out>,
    world_after: World<R>,
    acc_after: Acc,
    out: Out,
)
    requires
        forall|a0: &mut Acc, o: Out|
            #[trigger] call_ensures(step.f.0, (a0,), o) ==> promise((*a0,), (*final(a0),), o),
    ensures
        (forall|a0: &mut Acc|
            *a0 == acc
                ==> #[trigger] call_requires(step.f.0, (a0,)))
                    ==> ScanStepCall::<R, Acc, ()>::call_pre(&step, world, acc, input),
        ScanStepCall::<R, Acc, ()>::call_post(
            &step,
            world,
            acc,
            input,
            after,
            world_after,
            acc_after,
            out,
        )
            ==> {
            &&& after == step
            &&& world_after == world
            &&& promise((acc,), (acc_after,), out)
        },
{
    if ScanStepCall::<R, Acc, ()>::call_post(
        &step,
        world,
        acc,
        input,
        after,
        world_after,
        acc_after,
        out,
    ) {
        lemma_effect_m(step.f.0, acc, acc_after, out);
    }
}

/// What a function of one resource promises, its step promises of what the world holds.
pub proof fn lemma_scan_step_res_without_event<R, T, I, Acc, Out, F: FnMut(&T, &mut Acc) -> Out>(
    step: Step<NoEvent<F>, Res<T, I>, Out>,
    promise: spec_fn((T, Acc), (Acc,), Out) -> bool,
    world: World<R>,
    acc: Acc,
    input: (),
    after: Step<NoEvent<F>, Res<T, I>, Out>,
    world_after: World<R>,
    acc_after: Acc,
    out: Out,
) where R: Resource<T, I>
    requires
        forall|a0: &T, a1: &mut Acc, o: Out|
            #[trigger] call_ensures(step.f.0, (a0, a1), o)
                ==> promise((*a0, *a1), (*final(a1),), o),
    ensures
        (forall|a1: &mut Acc|
            *a1 == acc
                ==> #[trigger] call_requires(step.f.0, (&world.held::<T, I>(), a1)))
                    ==> ScanStepCall::<R, Acc, ()>::call_pre(&step, world, acc, input),
        ScanStepCall::<R, Acc, ()>::call_post(
            &step,
            world,
            acc,
            input,
            after,
            world_after,
            acc_after,
            out,
        )
            ==> {
            &&& after == step
            &&& world_after == world
            &&& promise((world.held::<T, I>(), acc), (acc_after,), out)
        },
{
    if ScanStepCall::<R, Acc, ()>::call_post(
        &step,
        world,
        acc,
        input,
        after,
        world_after,
        acc_after,
        out,
    ) {
        lemma_effect_pm(step.f.0, &world.held::<T, I>(), acc, acc_after, out);
    }
}

/// What a function of one resource promises, its step promises of what the world holds.
pub proof fn lemma_scan_step_resmut_without_event<
    R,
    T,
    I,
    Acc,
    Out,
    F: FnMut(&mut T, &mut Acc) -> Out,
>(
    step: Step<NoEvent<F>, ResMut<T, I>, Out>,
    promise: spec_fn((T, Acc), (T, Acc), Out) -> bool,
    world: World<R>,
    acc: Acc,
    input: (),
    after: Step<NoEvent<F>, ResMut<T, I>, Out>,
    world_after: World<R>,
    acc_after: Acc,
    out: Out,
) where R: Resource<T, I>
    requires
        forall|a0: &mut T, a1: &mut Acc, o: Out|
            #[trigger] call_ensures(step.f.0, (a0, a1), o)
                ==> promise((*a0, *a1), (*final(a0), *final(a1)), o),
    ensures
        (forall|a0: &mut T, a1: &mut Acc|
            *a0 == world.held::<T, I>() && *a1 == acc
                ==> #[trigger] call_requires(step.f.0, (a0, a1)))
                    ==> ScanStepCall::<R, Acc, ()>::call_pre(&step, world, acc, input),
        ScanStepCall::<R, Acc, ()>::call_post(
            &step,
            world,
            acc,
            input,
            after,
            world_after,
            acc_after,
            out,
        )
            ==> {
            &&& after == step
            &&& exists|held: T|
                #[trigger] promise((world.held::<T, I>(), acc), (held, acc_after), out)
                    && world_after == world.holding::<T, I>(held)
        },
{
    if ScanStepCall::<R, Acc, ()>::call_post(
        &step,
        world,
        acc,
        input,
        after,
        world_after,
        acc_after,
        out,
    ) {
        let held = choose|held: T|
            #[trigger] effect_mm(step.f.0, world.held::<T, I>(), acc, held, acc_after, out)
                && world_after == world.holding::<T, I>(held);
        lemma_effect_mm(step.f.0, world.held::<T, I>(), acc, held, acc_after, out);
        assert(promise((world.held::<T, I>(), acc), (held, acc_after), out));
    }
}

/// What a function of two resources promises, its step promises of what the world holds.
pub proof fn lemma_scan_step_res_res_without_event<
    R,
    T,
    I,
    U,
    J,
    Acc,
    Out,
    F: FnMut(&T, &U, &mut Acc) -> Out,
>(
    step: Step<NoEvent<F>, (Res<T, I>, Res<U, J>), Out>,
    promise: spec_fn((T, U, Acc), (Acc,), Out) -> bool,
    world: World<R>,
    acc: Acc,
    input: (),
    after: Step<NoEvent<F>, (Res<T, I>, Res<U, J>), Out>,
    world_after: World<R>,
    acc_after: Acc,
    out: Out,
) where R: Resource<T, I> + Resource<U, J>
    requires
        forall|a0: &T, a1: &U, a2: &mut Acc, o: Out|
            #[trigger] call_ensures(step.f.0, (a0, a1, a2), o)
                ==> promise((*a0, *a1, *a2), (*final(a2),), o),
    ensures
        (forall|a2: &mut Acc|
            *a2 == acc
                ==> #[trigger] call_requires(
                    step.f.0,
                    (&world.held::<T, I>(), &world.held::<U, J>(), a2),
                )) ==> ScanStepCall::<R, Acc, ()>::call_pre(&step, world, acc, input),
        ScanStepCall::<R, Acc, ()>::call_post(
            &step,
            world,
            acc,
            input,
            after,
            world_after,
            acc_after,
            out,
        )
            ==> {
            &&& after == step
            &&& world_after == world
            &&& promise((world.held::<T, I>(), world.held::<U, J>(), acc), (acc_after,), out)
        },
{
    if ScanStepCall::<R, Acc, ()>::call_post(
        &step,
        world,
        acc,
        input,
        after,
        world_after,
        acc_after,
        out,
    ) {
        lemma_effect_ppm(
            step.f.0,
            &world.held::<T, I>(),
            &world.held::<U, J>(),
            acc,
            acc_after,
            out,
        );
    }
}

/// What a function of two resources promises, its step promises of what the world holds.
pub proof fn lemma_scan_step_res_resmut_without_event<
    R,
    T,
    I,
    U,
    J,
    Acc,
    Out,
    F: FnMut(&T, &mut U, &mut Acc) -> Out,
>(
    step: Step<NoEvent<F>, (Res<T, I>, ResMut<U, J>), Out>,
    promise: spec_fn((T, U, Acc), (U, Acc), Out) -> bool,
    world: World<R>,
    acc: Acc,
    input: (),
    after: Step<NoEvent<F>, (Res<T, I>, ResMut<U, J>), Out>,
    world_after: World<R>,
    acc_after: Acc,
    out: Out,
) where R: Apart<T, I, U, J>
    requires
        forall|a0: &T, a1: &mut U, a2: &mut Acc, o: Out|
            #[trigger] call_ensures(step.f.0, (a0, a1, a2), o)
                ==> promise((*a0, *a1, *a2), (*final(a1), *final(a2)), o),
    ensures
        (forall|a1: &mut U, a2: &mut Acc|
            *a1 == world.held::<U, J>() && *a2 == acc
                ==> #[trigger] call_requires(
                    step.f.0,
                    (&world.held::<T, I>(), a1, a2),
                )) ==> ScanStepCall::<R, Acc, ()>::call_pre(&step, world, acc, input),
        ScanStepCall::<R, Acc, ()>::call_post(
            &step,
            world,
            acc,
            input,
            after,
            world_after,
            acc_after,
            out,
        )
            ==> {
            &&& after == step
            &&& exists|held: U|
                #[trigger] promise(
                    (world.held::<T, I>(), world.held::<U, J>(), acc),
                    (held, acc_after),
                    out,
                )
                    && world_after == world.holding::<U, J>(held)
        },
{
    if ScanStepCall::<R, Acc, ()>::call_post(
        &step,
        world,
        acc,
        input,
        after,
        world_after,
        acc_after,
        out,
    ) {
        let held = choose|held: U|
            #[trigger] effect_pmm(
                step.f.0,
                &world.held::<T, I>(),
                world.held::<U, J>(),
                acc,
                held,
                acc_after,
                out,
            )
                && world_after == world.holding::<U, J>(held);
        lemma_effect_pmm(
            step.f.0,
            &world.held::<T, I>(),
            world.held::<U, J>(),
            acc,
            held,
            acc_after,
            out,
        );
        assert(promise((world.held::<T, I>(), world.held::<U, J>(), acc), (held, acc_after), out));
    }
}

/// What a function of two resources promises, its step promises of what the world holds.
pub proof fn lemma_scan_step_resmut_res_without_event<
    R,
    T,
    I,
    U,
    J,
    Acc,
    Out,
    F: FnMut(&mut T, &U, &mut Acc) -> Out,
>(
    step: Step<NoEvent<F>, (ResMut<T, I>, Res<U, J>), Out>,
    promise: spec_fn((T, U, Acc), (T, Acc), Out) -> bool,
    world: World<R>,
    acc: Acc,
    input: (),
    after: Step<NoEvent<F>, (ResMut<T, I>, Res<U, J>), Out>,
    world_after: World<R>,
    acc_after: Acc,
    out: Out,
) where R: Apart<U, J, T, I>
    requires
        forall|a0: &mut T, a1: &U, a2: &mut Acc, o: Out|
            #[trigger] call_ensures(step.f.0, (a0, a1, a2), o)
                ==> promise((*a0, *a1, *a2), (*final(a0), *final(a2)), o),
    ensures
        (forall|a0: &mut T, a2: &mut Acc|
            *a0 == world.held::<T, I>() && *a2 == acc
                ==> #[trigger] call_requires(
                    step.f.0,
                    (a0, &world.held::<U, J>(), a2),
                )) ==> ScanStepCall::<R, Acc, ()>::call_pre(&step, world, acc, input),
        ScanStepCall::<R, Acc, ()>::call_post(
            &step,
            world,
            acc,
            input,
            after,
            world_after,
            acc_after,
            out,
        )
            ==> {
            &&& after == step
            &&& exists|held: T|
                #[trigger] promise(
                    (world.held::<T, I>(), world.held::<U, J>(), acc),
                    (held, acc_after),
                    out,
                )
                    && world_after == world.holding::<T, I>(held)
        },
{
    if ScanStepCall::<R, Acc, ()>::call_post(
        &step,
        world,
        acc,
        input,
        after,
        world_after,
        acc_after,
        out,
    ) {
        let held = choose|held: T|
            #[trigger] effect_mpm(
                step.f.0,
                world.held::<T, I>(),
                &world.held::<U, J>(),
                acc,
                held,
                acc_after,
                out,
            )
                && world_after == world.holding::<T, I>(held);
        lemma_effect_mpm(
            step.f.0,
            world.held::<T, I>(),
            &world.held::<U, J>(),
            acc,
            held,
            acc_after,
            out,
        );
        assert(promise((world.held::<T, I>(), world.held::<U, J>(), acc), (held, acc_after), out));
    }
}

/// What a function of two resources promises, its step promises of what the world holds.
pub proof fn lemma_scan_step_resmut_resmut_without_event<
    R,
    T,
    I,
    U,
    J,
    Acc,
    Out,
    F: FnMut(&mut T, &mut U, &mut Acc) -> Out,
>(
    step: Step<NoEvent<F>, (ResMut<T, I>, ResMut<U, J>), Out>,
    promise: spec_fn((T, U, Acc), (T, U, Acc), Out) -> bool,
    world: World<R>,
    acc: Acc,
    input: (),
    after: Step<NoEvent<F>, (ResMut<T, I>, ResMut<U, J>), Out>,
    world_after: World<R>,
    acc_after: Acc,
    out: Out,
) where R: Apart<T, I, U, J>
    requires
        forall|a0: &mut T, a1: &mut U, a2: &mut Acc, o: Out|
            #[trigger] call_ensures(step.f.0, (a0, a1, a2), o)
                ==> promise((*a0, *a1, *a2), (*final(a0), *final(a1), *final(a2)), o),
    ensures
        (forall|a0: &mut T, a1: &mut U, a2: &mut Acc|
            *a0 == world.held::<T, I>() && *a1 == world.held::<U, J>() && *a2 == acc
                ==> #[trigger] call_requires(step.f.0, (a0, a1, a2)))
                    ==> ScanStepCall::<R, Acc, ()>::call_pre(&step, world, acc, input),
        ScanStepCall::<R, Acc, ()>::call_post(
            &step,
            world,
            acc,
            input,
            after,
            world_after,
            acc_after,
            out,
        )
            ==> {
            &&& after == step
            &&& exists|held: T, other: U|
                #[trigger] promise(
                    (world.held::<T, I>(), world.held::<U, J>(), acc),
                    (held, other, acc_after),
                    out,
                )
                    && world_after == world.holding::<T, I>(held).holding::<U, J>(other)
        },
{
    if ScanStepCall::<R, Acc, ()>::call_post(
        &step,
        world,
        acc,
        input,
        after,
        world_after,
        acc_after,
        out,
    ) {
        let (held, other) = choose|held: T, other: U|
            #[trigger] effect_mmm(
                step.f.0,
                world.held::<T, I>(),
                world.held::<U, J>(),
                acc,
                held,
                other,
                acc_after,
                out,
            )
                && world_after == world.holding::<T, I>(held).holding::<U, J>(other);
        lemma_effect_mmm(
            step.f.0,
            world.held::<T, I>(),
            world.held::<U, J>(),
            acc,
            held,
            other,
            acc_after,
            out,
        );
        assert(promise(
            (world.held::<T, I>(), world.held::<U, J>(), acc),
            (held, other, acc_after),
            out,
        ));
    }
}

/// What a function of its input alone promises, its step promises of what the world holds.
pub proof fn lemma_ref_scan_step_unit<R, Acc, In, Out, F: FnMut(&mut Acc, &In) -> Out>(
    step: Step<F, (), Out>,
    promise: spec_fn((Acc, In), (Acc,), Out) -> bool,
    world: World<R>,
    acc: Acc,
    input: &In,
    after: Step<F, (), Out>,
    world_after: World<R>,
    acc_after: Acc,
    out: Out,
)
    requires
        forall|a0: &mut Acc, a1: &In, o: Out|
            #[trigger] call_ensures(step.f, (a0, a1), o) ==> promise((*a0, *a1), (*final(a0),), o),
    ensures
        (forall|a0: &mut Acc|
            *a0 == acc
                ==> #[trigger] call_requires(step.f, (a0, input)))
                    ==> RefScanStepCall::<R, Acc, In>::call_pre(&step, world, acc, input),
        RefScanStepCall::<R, Acc, In>::call_post(
            &step,
            world,
            acc,
            input,
            after,
            world_after,
            acc_after,
            out,
        )
            ==> {
            &&& after == step
            &&& world_after == world
            &&& promise((acc, *input), (acc_after,), out)
        },
{
    if RefScanStepCall::<R, Acc, In>::call_post(
        &step,
        world,
        acc,
        input,
        after,
        world_after,
        acc_after,
        out,
    ) {
        lemma_effect_mp(step.f, acc, input, acc_after, out);
    }
}

/// What a function of one resource promises, its step promises of what the world holds.
pub proof fn lemma_ref_scan_step_res<R, T, I, Acc, In, Out, F: FnMut(&T, &mut Acc, &In) -> Out>(
    step: Step<F, Res<T, I>, Out>,
    promise: spec_fn((T, Acc, In), (Acc,), Out) -> bool,
    world: World<R>,
    acc: Acc,
    input: &In,
    after: Step<F, Res<T, I>, Out>,
    world_after: World<R>,
    acc_after: Acc,
    out: Out,
) where R: Resource<T, I>
    requires
        forall|a0: &T, a1: &mut Acc, a2: &In, o: Out|
            #[trigger] call_ensures(step.f, (a0, a1, a2), o)
                ==> promise((*a0, *a1, *a2), (*final(a1),), o),
    ensures
        (forall|a1: &mut Acc|
            *a1 == acc
                ==> #[trigger] call_requires(
                    step.f,
                    (&world.held::<T, I>(), a1, input),
                )) ==> RefScanStepCall::<R, Acc, In>::call_pre(&step, world, acc, input),
        RefScanStepCall::<R, Acc, In>::call_post(
            &step,
            world,
            acc,
            input,
            after,
            world_after,
            acc_after,
            out,
        )
            ==> {
            &&& after == step
            &&& world_after == world
            &&& promise((world.held::<T, I>(), acc, *input), (acc_after,), out)
        },
{
    if RefScanStepCall::<R, Acc, In>::call_post(
        &step,
        world,
        acc,
        input,
        after,
        world_after,
        acc_after,
        out,
    ) {
        lemma_effect_pmp(step.f, &world.held::<T, I>(), acc, input, acc_after, out);
    }
}

/// What a function of one resource promises, its step promises of what the world holds.
pub proof fn lemma_ref_scan_step_resmut<
    R,
    T,
    I,
    Acc,
    In,
    Out,
    F: FnMut(&mut T, &mut Acc, &In) -> Out,
>(
    step: Step<F, ResMut<T, I>, Out>,
    promise: spec_fn((T, Acc, In), (T, Acc), Out) -> bool,
    world: World<R>,
    acc: Acc,
    input: &In,
    after: Step<F, ResMut<T, I>, Out>,
    world_after: World<R>,
    acc_after: Acc,
    out: Out,
) where R: Resource<T, I>
    requires
        forall|a0: &mut T, a1: &mut Acc, a2: &In, o: Out|
            #[trigger] call_ensures(step.f, (a0, a1, a2), o)
                ==> promise((*a0, *a1, *a2), (*final(a0), *final(a1)), o),
    ensures
        (forall|a0: &mut T, a1: &mut Acc|
            *a0 == world.held::<T, I>() && *a1 == acc
                ==> #[trigger] call_requires(step.f, (a0, a1, input)))
                    ==> RefScanStepCall::<R, Acc, In>::call_pre(&step, world, acc, input),
        RefScanStepCall::<R, Acc, In>::call_post(
            &step,
            world,
            acc,
            input,
            after,
            world_after,
            acc_after,
            out,
        )
            ==> {
            &&& after == step
            &&& exists|held: T|
                #[trigger] promise((world.held::<T, I>(), acc, *input), (held, acc_after), out)
                    && world_after == world.holding::<T, I>(held)
        },
{
    if RefScanStepCall::<R, Acc, In>::call_post(
        &step,
        world,
        acc,
        input,
        after,
        world_after,
        acc_after,
        out,
    ) {
        let held = choose|held: T|
            #[trigger] effect_mmp(step.f, world.held::<T, I>(), acc, input, held, acc_after, out)
                && world_after == world.holding::<T, I>(held);
        lemma_effect_mmp(step.f, world.held::<T, I>(), acc, input, held, acc_after, out);
        assert(promise((world.held::<T, I>(), acc, *input), (held, acc_after), out));
    }
}

/// What a function of two resources promises, its step promises of what the world holds.
pub proof fn lemma_ref_scan_step_res_res<
    R,
    T,
    I,
    U,
    J,
    Acc,
    In,
    Out,
    F: FnMut(&T, &U, &mut Acc, &In) -> Out,
>(
    step: Step<F, (Res<T, I>, Res<U, J>), Out>,
    promise: spec_fn((T, U, Acc, In), (Acc,), Out) -> bool,
    world: World<R>,
    acc: Acc,
    input: &In,
    after: Step<F, (Res<T, I>, Res<U, J>), Out>,
    world_after: World<R>,
    acc_after: Acc,
    out: Out,
) where R: Resource<T, I> + Resource<U, J>
    requires
        forall|a0: &T, a1: &U, a2: &mut Acc, a3: &In, o: Out|
            #[trigger] call_ensures(step.f, (a0, a1, a2, a3), o)
                ==> promise((*a0, *a1, *a2, *a3), (*final(a2),), o),
    ensures
        (forall|a2: &mut Acc|
            *a2 == acc
                ==> #[trigger] call_requires(
                    step.f,
                    (&world.held::<T, I>(), &world.held::<U, J>(), a2, input),
                )) ==> RefScanStepCall::<R, Acc, In>::call_pre(&step, world, acc, input),
        RefScanStepCall::<R, Acc, In>::call_post(
            &step,
            world,
            acc,
            input,
            after,
            world_after,
            acc_after,
            out,
        )
            ==> {
            &&& after == step
            &&& world_after == world
            &&& promise(
                (world.held::<T, I>(), world.held::<U, J>(), acc, *input),
                (acc_after,),
                out,
            )
        },
{
    if RefScanStepCall::<R, Acc, In>::call_post(
        &step,
        world,
        acc,
        input,
        after,
        world_after,
        acc_after,
        out,
    ) {
        lemma_effect_ppmp(
            step.f,
            &world.held::<T, I>(),
            &world.held::<U, J>(),
            acc,
            input,
            acc_after,
            out,
        );
    }
}

/// What a function of two resources promises, its step promises of what the world holds.
pub proof fn lemma_ref_scan_step_res_resmut<
    R,
    T,
    I,
    U,
    J,
    Acc,
    In,
    Out,
    F: FnMut(&T, &mut U, &mut Acc, &In) -> Out,
>(
    step: Step<F, (Res<T, I>, ResMut<U, J>), Out>,
    promise: spec_fn((T, U, Acc, In), (U, Acc), Out) -> bool,
    world: World<R>,
    acc: Acc,
    input: &In,
    after: Step<F, (Res<T, I>, ResMut<U, J>), Out>,
    world_after: World<R>,
    acc_after: Acc,
    out: Out,
) where R: Apart<T, I, U, J>
    requires
        forall|a0: &T, a1: &mut U, a2: &mut Acc, a3: &In, o: Out|
            #[trigger] call_ensures(step.f, (a0, a1, a2, a3), o)
                ==> promise((*a0, *a1, *a2, *a3), (*final(a1), *final(a2)), o),
    ensures
        (forall|a1: &mut U, a2: &mut Acc|
            *a1 == world.held::<U, J>() && *a2 == acc
                ==> #[trigger] call_requires(
                    step.f,
                    (&world.held::<T, I>(), a1, a2, input),
                )) ==> RefScanStepCall::<R, Acc, In>::call_pre(&step, world, acc, input),
        RefScanStepCall::<R, Acc, In>::call_post(
            &step,
            world,
            acc,
            input,
            after,
            world_after,
            acc_after,
            out,
        )
            ==> {
            &&& after == step
            &&& exists|held: U|
                #[trigger] promise(
                    (world.held::<T, I>(), world.held::<U, J>(), acc, *input),
                    (held, acc_after),
                    out,
                )
                    && world_after == world.holding::<U, J>(held)
        },
{
    if RefScanStepCall::<R, Acc, In>::call_post(
        &step,
        world,
        acc,
        input,
        after,
        world_after,
        acc_after,
        out,
    ) {
        let held = choose|held: U|
            #[trigger] effect_pmmp(
                step.f,
                &world.held::<T, I>(),
                world.held::<U, J>(),
                acc,
                input,
                held,
                acc_after,
                out,
            )
                && world_after == world.holding::<U, J>(held);
        lemma_effect_pmmp(
            step.f,
            &world.held::<T, I>(),
            world.held::<U, J>(),
            acc,
            input,
            held,
            acc_after,
            out,
        );
        assert(promise(
            (world.held::<T, I>(), world.held::<U, J>(), acc, *input),
            (held, acc_after),
            out,
        ));
    }
}

/// What a function of two resources promises, its step promises of what the world holds.
pub proof fn lemma_ref_scan_step_resmut_res<
    R,
    T,
    I,
    U,
    J,
    Acc,
    In,
    Out,
    F: FnMut(&mut T, &U, &mut Acc, &In) -> Out,
>(
    step: Step<F, (ResMut<T, I>, Res<U, J>), Out>,
    promise: spec_fn((T, U, Acc, In), (T, Acc), Out) -> bool,
    world: World<R>,
    acc: Acc,
    input: &In,
    after: Step<F, (ResMut<T, I>, Res<U, J>), Out>,
    world_after: World<R>,
    acc_after: Acc,
    out: Out,
) where R: Apart<U, J, T, I>
    requires
        forall|a0: &mut T, a1: &U, a2: &mut Acc, a3: &In, o: Out|
            #[trigger] call_ensures(step.f, (a0, a1, a2, a3), o)
                ==> promise((*a0, *a1, *a2, *a3), (*final(a0), *final(a2)), o),
    ensures
        (forall|a0: &mut T, a2: &mut Acc|
            *a0 == world.held::<T, I>() && *a2 == acc
                ==> #[trigger] call_requires(
                    step.f,
                    (a0, &world.held::<U, J>(), a2, input),
                )) ==> RefScanStepCall::<R, Acc, In>::call_pre(&step, world, acc, input),
        RefScanStepCall::<R, Acc, In>::call_post(
            &step,
            world,
            acc,
            input,
            after,
            world_after,
            acc_after,
            out,
        )
            ==> {
            &&& after == step
            &&& exists|held: T|
                #[trigger] promise(
                    (world.held::<T, I>(), world.held::<U, J>(), acc, *input),
                    (held, acc_after),
                    out,
                )
                    && world_after == world.holding::<T, I>(held)
        },
{
    if RefScanStepCall::<R, Acc, In>::call_post(
        &step,
        world,
        acc,
        input,
        after,
        world_after,
        acc_after,
        out,
    ) {
        let held = choose|held: T|
            #[trigger] effect_mpmp(
                step.f,
                world.held::<T, I>(),
                &world.held::<U, J>(),
                acc,
                input,
                held,
                acc_after,
                out,
            )
                && world_after == world.holding::<T, I>(held);
        lemma_effect_mpmp(
            step.f,
            world.held::<T, I>(),
            &world.held::<U, J>(),
            acc,
            input,
            held,
            acc_after,
            out,
        );
        assert(promise(
            (world.held::<T, I>(), world.held::<U, J>(), acc, *input),
            (held, acc_after),
            out,
        ));
    }
}

/// What a function of two resources promises, its step promises of what the world holds.
pub proof fn lemma_ref_scan_step_resmut_resmut<
    R,
    T,
    I,
    U,
    J,
    Acc,
    In,
    Out,
    F: FnMut(&mut T, &mut U, &mut Acc, &In) -> Out,
>(
    step: Step<F, (ResMut<T, I>, ResMut<U, J>), Out>,
    promise: spec_fn((T, U, Acc, In), (T, U, Acc), Out) -> bool,
    world: World<R>,
    acc: Acc,
    input: &In,
    after: Step<F, (ResMut<T, I>, ResMut<U, J>), Out>,
    world_after: World<R>,
    acc_after: Acc,
    out: Out,
) where R: Apart<T, I, U, J>
    requires
        forall|a0: &mut T, a1: &mut U, a2: &mut Acc, a3: &In, o: Out|
            #[trigger] call_ensures(step.f, (a0, a1, a2, a3), o)
                ==> promise((*a0, *a1, *a2, *a3), (*final(a0), *final(a1), *final(a2)), o),
    ensures
        (forall|a0: &mut T, a1: &mut U, a2: &mut Acc|
            *a0 == world.held::<T, I>() && *a1 == world.held::<U, J>() && *a2 == acc
                ==> #[trigger] call_requires(step.f, (a0, a1, a2, input)))
                    ==> RefScanStepCall::<R, Acc, In>::call_pre(&step, world, acc, input),
        RefScanStepCall::<R, Acc, In>::call_post(
            &step,
            world,
            acc,
            input,
            after,
            world_after,
            acc_after,
            out,
        )
            ==> {
            &&& after == step
            &&& exists|held: T, other: U|
                #[trigger] promise(
                    (world.held::<T, I>(), world.held::<U, J>(), acc, *input),
                    (held, other, acc_after),
                    out,
                )
                    && world_after == world.holding::<T, I>(held).holding::<U, J>(other)
        },
{
    if RefScanStepCall::<R, Acc, In>::call_post(
        &step,
        world,
        acc,
        input,
        after,
        world_after,
        acc_after,
        out,
    ) {
        let (held, other) = choose|held: T, other: U|
            #[trigger] effect_mmmp(
                step.f,
                world.held::<T, I>(),
                world.held::<U, J>(),
                acc,
                input,
                held,
                other,
                acc_after,
                out,
            )
                && world_after == world.holding::<T, I>(held).holding::<U, J>(other);
        lemma_effect_mmmp(
            step.f,
            world.held::<T, I>(),
            world.held::<U, J>(),
            acc,
            input,
            held,
            other,
            acc_after,
            out,
        );
        assert(promise(
            (world.held::<T, I>(), world.held::<U, J>(), acc, *input),
            (held, other, acc_after),
            out,
        ));
    }
}

/// What a function of the whole world promises, its step promises of what the world holds.
pub proof fn lemma_ref_scan_step_opaque<
    R,
    Acc,
    In,
    Out,
    F: FnMut(&mut World<R>, &mut Acc, &In) -> Out,
>(
    step: OpaqueRefScanStep<F, Out>,
    promise: spec_fn((World<R>, Acc, In), (World<R>, Acc), Out) -> bool,
    world: World<R>,
    acc: Acc,
    input: &In,
    after: OpaqueRefScanStep<F, Out>,
    world_after: World<R>,
    acc_after: Acc,
    out: Out,
)
    requires
        forall|a0: &mut World<R>, a1: &mut Acc, a2: &In, o: Out|
            #[trigger] call_ensures(step.f, (a0, a1, a2), o)
                ==> promise((*a0, *a1, *a2), (*final(a0), *final(a1)), o),
    ensures
        (forall|a0: &mut World<R>, a1: &mut Acc|
            *a0 == world && *a1 == acc
                ==> #[trigger] call_requires(step.f, (a0, a1, input)))
                    ==> RefScanStepCall::<R, Acc, In>::call_pre(&step, world, acc, input),
        RefScanStepCall::<R, Acc, In>::call_post(
            &step,
            world,
            acc,
            input,
            after,
            world_after,
            acc_after,
            out,
        )
            ==> {
            &&& after == step
            &&& promise((world, acc, *input), (world_after, acc_after), out)
        },
{
    if RefScanStepCall::<R, Acc, In>::call_post(
        &step,
        world,
        acc,
        input,
        after,
        world_after,
        acc_after,
        out,
    ) {
        lemma_effect_mmp(step.f, world, acc, input, world_after, acc_after, out);
    }
}

/// What a function of its input alone promises, its step promises of what the world holds.
pub proof fn lemma_ref_scan_step_unit_without_event<R, Acc, Out, F: FnMut(&mut Acc) -> Out>(
    step: Step<NoEvent<F>, (), Out>,
    promise: spec_fn((Acc,), (Acc,), Out) -> bool,
    world: World<R>,
    acc: Acc,
    input: &(),
    after: Step<NoEvent<F>, (), Out>,
    world_after: World<R>,
    acc_after: Acc,
    out: Out,
)
    requires
        forall|a0: &mut Acc, o: Out|
            #[trigger] call_ensures(step.f.0, (a0,), o) ==> promise((*a0,), (*final(a0),), o),
    ensures
        (forall|a0: &mut Acc|
            *a0 == acc
                ==> #[trigger] call_requires(step.f.0, (a0,)))
                    ==> RefScanStepCall::<R, Acc, ()>::call_pre(&step, world, acc, input),
        RefScanStepCall::<R, Acc, ()>::call_post(
            &step,
            world,
            acc,
            input,
            after,
            world_after,
            acc_after,
            out,
        )
            ==> {
            &&& after == step
            &&& world_after == world
            &&& promise((acc,), (acc_after,), out)
        },
{
    if RefScanStepCall::<R, Acc, ()>::call_post(
        &step,
        world,
        acc,
        input,
        after,
        world_after,
        acc_after,
        out,
    ) {
        lemma_effect_m(step.f.0, acc, acc_after, out);
    }
}

/// What a function of one resource promises, its step promises of what the world holds.
pub proof fn lemma_ref_scan_step_res_without_event<
    R,
    T,
    I,
    Acc,
    Out,
    F: FnMut(&T, &mut Acc) -> Out,
>(
    step: Step<NoEvent<F>, Res<T, I>, Out>,
    promise: spec_fn((T, Acc), (Acc,), Out) -> bool,
    world: World<R>,
    acc: Acc,
    input: &(),
    after: Step<NoEvent<F>, Res<T, I>, Out>,
    world_after: World<R>,
    acc_after: Acc,
    out: Out,
) where R: Resource<T, I>
    requires
        forall|a0: &T, a1: &mut Acc, o: Out|
            #[trigger] call_ensures(step.f.0, (a0, a1), o)
                ==> promise((*a0, *a1), (*final(a1),), o),
    ensures
        (forall|a1: &mut Acc|
            *a1 == acc
                ==> #[trigger] call_requires(step.f.0, (&world.held::<T, I>(), a1)))
                    ==> RefScanStepCall::<R, Acc, ()>::call_pre(&step, world, acc, input),
        RefScanStepCall::<R, Acc, ()>::call_post(
            &step,
            world,
            acc,
            input,
            after,
            world_after,
            acc_after,
            out,
        )
            ==> {
            &&& after == step
            &&& world_after == world
            &&& promise((world.held::<T, I>(), acc), (acc_after,), out)
        },
{
    if RefScanStepCall::<R, Acc, ()>::call_post(
        &step,
        world,
        acc,
        input,
        after,
        world_after,
        acc_after,
        out,
    ) {
        lemma_effect_pm(step.f.0, &world.held::<T, I>(), acc, acc_after, out);
    }
}

/// What a function of one resource promises, its step promises of what the world holds.
pub proof fn lemma_ref_scan_step_resmut_without_event<
    R,
    T,
    I,
    Acc,
    Out,
    F: FnMut(&mut T, &mut Acc) -> Out,
>(
    step: Step<NoEvent<F>, ResMut<T, I>, Out>,
    promise: spec_fn((T, Acc), (T, Acc), Out) -> bool,
    world: World<R>,
    acc: Acc,
    input: &(),
    after: Step<NoEvent<F>, ResMut<T, I>, Out>,
    world_after: World<R>,
    acc_after: Acc,
    out: Out,
) where R: Resource<T, I>
    requires
        forall|a0: &mut T, a1: &mut Acc, o: Out|
            #[trigger] call_ensures(step.f.0, (a0, a1), o)
                ==> promise((*a0, *a1), (*final(a0), *final(a1)), o),
    ensures
        (forall|a0: &mut T, a1: &mut Acc|
            *a0 == world.held::<T, I>() && *a1 == acc
                ==> #[trigger] call_requires(step.f.0, (a0, a1)))
                    ==> RefScanStepCall::<R, Acc, ()>::call_pre(&step, world, acc, input),
        RefScanStepCall::<R, Acc, ()>::call_post(
            &step,
            world,
            acc,
            input,
            after,
            world_after,
            acc_after,
            out,
        )
            ==> {
            &&& after == step
            &&& exists|held: T|
                #[trigger] promise((world.held::<T, I>(), acc), (held, acc_after), out)
                    && world_after == world.holding::<T, I>(held)
        },
{
    if RefScanStepCall::<R, Acc, ()>::call_post(
        &step,
        world,
        acc,
        input,
        after,
        world_after,
        acc_after,
        out,
    ) {
        let held = choose|held: T|
            #[trigger] effect_mm(step.f.0, world.held::<T, I>(), acc, held, acc_after, out)
                && world_after == world.holding::<T, I>(held);
        lemma_effect_mm(step.f.0, world.held::<T, I>(), acc, held, acc_after, out);
        assert(promise((world.held::<T, I>(), acc), (held, acc_after), out));
    }
}

/// What a function of two resources promises, its step promises of what the world holds.
pub proof fn lemma_ref_scan_step_res_res_without_event<
    R,
    T,
    I,
    U,
    J,
    Acc,
    Out,
    F: FnMut(&T, &U, &mut Acc) -> Out,
>(
    step: Step<NoEvent<F>, (Res<T, I>, Res<U, J>), Out>,
    promise: spec_fn((T, U, Acc), (Acc,), Out) -> bool,
    world: World<R>,
    acc: Acc,
    input: &(),
    after: Step<NoEvent<F>, (Res<T, I>, Res<U, J>), Out>,
    world_after: World<R>,
    acc_after: Acc,
    out: Out,
) where R: Resource<T, I> + Resource<U, J>
    requires
        forall|a0: &T, a1: &U, a2: &mut Acc, o: Out|
            #[trigger] call_ensures(step.f.0, (a0, a1, a2), o)
                ==> promise((*a0, *a1, *a2), (*final(a2),), o),
    ensures
        (forall|a2: &mut Acc|
            *a2 == acc
                ==> #[trigger] call_requires(
                    step.f.0,
                    (&world.held::<T, I>(), &world.held::<U, J>(), a2),
                )) ==> RefScanStepCall::<R, Acc, ()>::call_pre(&step, world, acc, input),
        RefScanStepCall::<R, Acc, ()>::call_post(
            &step,
            world,
            acc,
            input,
            after,
            world_after,
            acc_after,
            out,
        )
            ==> {
            &&& after == step
            &&& world_after == world
            &&& promise((world.held::<T, I>(), world.held::<U, J>(), acc), (acc_after,), out)
        },
{
    if RefScanStepCall::<R, Acc, ()>::call_post(
        &step,
        world,
        acc,
        input,
        after,
        world_after,
        acc_after,
        out,
    ) {
        lemma_effect_ppm(
            step.f.0,
            &world.held::<T, I>(),
            &world.held::<U, J>(),
            acc,
            acc_after,
            out,
        );
    }
}

/// What a function of two resources promises, its step promises of what the world holds.
pub proof fn lemma_ref_scan_step_res_resmut_without_event<
    R,
    T,
    I,
    U,
    J,
    Acc,
    Out,
    F: FnMut(&T, &mut U, &mut Acc) -> Out,
>(
    step: Step<NoEvent<F>, (Res<T, I>, ResMut<U, J>), Out>,
    promise: spec_fn((T, U, Acc), (U, Acc), Out) -> bool,
    world: World<R>,
    acc: Acc,
    input: &(),
    after: Step<NoEvent<F>, (Res<T, I>, ResMut<U, J>), Out>,
    world_after: World<R>,
    acc_after: Acc,
    out: Out,
) where R: Apart<T, I, U, J>
    requires
        forall|a0: &T, a1: &mut U, a2: &mut Acc, o: Out|
            #[trigger] call_ensures(step.f.0, (a0, a1, a2), o)
                ==> promise((*a0, *a1, *a2), (*final(a1), *final(a2)), o),
    ensures
        (forall|a1: &mut U, a2: &mut Acc|
            *a1 == world.held::<U, J>() && *a2 == acc
                ==> #[trigger] call_requires(
                    step.f.0,
                    (&world.held::<T, I>(), a1, a2),
                )) ==> RefScanStepCall::<R, Acc, ()>::call_pre(&step, world, acc, input),
        RefScanStepCall::<R, Acc, ()>::call_post(
            &step,
            world,
            acc,
            input,
            after,
            world_after,
            acc_after,
            out,
        )
            ==> {
            &&& after == step
            &&& exists|held: U|
                #[trigger] promise(
                    (world.held::<T, I>(), world.held::<U, J>(), acc),
                    (held, acc_after),
                    out,
                )
                    && world_after == world.holding::<U, J>(held)
        },
{
    if RefScanStepCall::<R, Acc, ()>::call_post(
        &step,
        world,
        acc,
        input,
        after,
        world_after,
        acc_after,
        out,
    ) {
        let held = choose|held: U|
            #[trigger] effect_pmm(
                step.f.0,
                &world.held::<T, I>(),
                world.held::<U, J>(),
                acc,
                held,
                acc_after,
                out,
            )
                && world_after == world.holding::<U, J>(held);
        lemma_effect_pmm(
            step.f.0,
            &world.held::<T, I>(),
            world.held::<U, J>(),
            acc,
            held,
            acc_after,
            out,
        );
        assert(promise((world.held::<T, I>(), world.held::<U, J>(), acc), (held, acc_after), out));
    }
}

/// What a function of two resources promises, its step promises of what the world holds.
pub proof fn lemma_ref_scan_step_resmut_res_without_event<
    R,
    T,
    I,
    U,
    J,
    Acc,
    Out,
    F: FnMut(&mut T, &U, &mut Acc) -> Out,
>(
    step: Step<NoEvent<F>, (ResMut<T, I>, Res<U, J>), Out>,
    promise: spec_fn((T, U, Acc), (T, Acc), Out) -> bool,
    world: World<R>,
    acc: Acc,
    input: &(),
    after: Step<NoEvent<F>, (ResMut<T, I>, Res<U, J>), Out>,
    world_after: World<R>,
    acc_after: Acc,
    out: Out,
) where R: Apart<U, J, T, I>
    requires
        forall|a0: &mut T, a1: &U, a2: &mut Acc, o: Out|
            #[trigger] call_ensures(step.f.0, (a0, a1, a2), o)
                ==> promise((*a0, *a1, *a2), (*final(a0), *final(a2)), o),
    ensures
        (forall|a0: &mut T, a2: &mut Acc|
            *a0 == world.held::<T, I>() && *a2 == acc
                ==> #[trigger] call_requires(
                    step.f.0,
                    (a0, &world.held::<U, J>(), a2),
                )) ==> RefScanStepCall::<R, Acc, ()>::call_pre(&step, world, acc, input),
        RefScanStepCall::<R, Acc, ()>::call_post(
            &step,
            world,
            acc,
            input,
            after,
            world_after,
            acc_after,
            out,
        )
            ==> {
            &&& after == step
            &&& exists|held: T|
                #[trigger] promise(
                    (world.held::<T, I>(), world.held::<U, J>(), acc),
                    (held, acc_after),
                    out,
                )
                    && world_after == world.holding::<T, I>(held)
        },
{
    if RefScanStepCall::<R, Acc, ()>::call_post(
        &step,
        world,
        acc,
        input,
        after,
        world_after,
        acc_after,
        out,
    ) {
        let held = choose|held: T|
            #[trigger] effect_mpm(
                step.f.0,
                world.held::<T, I>(),
                &world.held::<U, J>(),
                acc,
                held,
                acc_after,
                out,
            )
                && world_after == world.holding::<T, I>(held);
        lemma_effect_mpm(
            step.f.0,
            world.held::<T, I>(),
            &world.held::<U, J>(),
            acc,
            held,
            acc_after,
            out,
        );
        assert(promise((world.held::<T, I>(), world.held::<U, J>(), acc), (held, acc_after), out));
    }
}

/// What a function of two resources promises, its step promises of what the world holds.
pub proof fn lemma_ref_scan_step_resmut_resmut_without_event<
    R,
    T,
    I,
    U,
    J,
    Acc,
    Out,
    F: FnMut(&mut T, &mut U, &mut Acc) -> Out,
>(
    step: Step<NoEvent<F>, (ResMut<T, I>, ResMut<U, J>), Out>,
    promise: spec_fn((T, U, Acc), (T, U, Acc), Out) -> bool,
    world: World<R>,
    acc: Acc,
    input: &(),
    after: Step<NoEvent<F>, (ResMut<T, I>, ResMut<U, J>), Out>,
    world_after: World<R>,
    acc_after: Acc,
    out: Out,
) where R: Apart<T, I, U, J>
    requires
        forall|a0: &mut T, a1: &mut U, a2: &mut Acc, o: Out|
            #[trigger] call_ensures(step.f.0, (a0, a1, a2), o)
                ==> promise((*a0, *a1, *a2), (*final(a0), *final(a1), *final(a2)), o),
    ensures
        (forall|a0: &mut T, a1: &mut U, a2: &mut Acc|
            *a0 == world.held::<T, I>() && *a1 == world.held::<U, J>() && *a2 == acc
                ==> #[trigger] call_requires(step.f.0, (a0, a1, a2)))
                    ==> RefScanStepCall::<R, Acc, ()>::call_pre(&step, world, acc, input),
        RefScanStepCall::<R, Acc, ()>::call_post(
            &step,
            world,
            acc,
            input,
            after,
            world_after,
            acc_after,
            out,
        )
            ==> {
            &&& after == step
            &&& exists|held: T, other: U|
                #[trigger] promise(
                    (world.held::<T, I>(), world.held::<U, J>(), acc),
                    (held, other, acc_after),
                    out,
                )
                    && world_after == world.holding::<T, I>(held).holding::<U, J>(other)
        },
{
    if RefScanStepCall::<R, Acc, ()>::call_post(
        &step,
        world,
        acc,
        input,
        after,
        world_after,
        acc_after,
        out,
    ) {
        let (held, other) = choose|held: T, other: U|
            #[trigger] effect_mmm(
                step.f.0,
                world.held::<T, I>(),
                world.held::<U, J>(),
                acc,
                held,
                other,
                acc_after,
                out,
            )
                && world_after == world.holding::<T, I>(held).holding::<U, J>(other);
        lemma_effect_mmm(
            step.f.0,
            world.held::<T, I>(),
            world.held::<U, J>(),
            acc,
            held,
            other,
            acc_after,
            out,
        );
        assert(promise(
            (world.held::<T, I>(), world.held::<U, J>(), acc),
            (held, other, acc_after),
            out,
        ));
    }
}

} // verus!
