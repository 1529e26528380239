//! What steps on the parts of a tuple promise.
//!
//! A law is stated for an arbitrary `promise` that the contract of the function gives: of the values
//! that it is called on, of those that it leaves behind its mutable references, and of its result.
//! The step then gives that promise of the resources that the world holds, with the function called
//! once, and leaves everything else as it is.
use crate::effect::{
    effect_mmmpp, lemma_effect_mmmpp, effect_mmmppp, lemma_effect_mmmppp, effect_mmmpppp,
    lemma_effect_mmmpppp, effect_mmmppppp, lemma_effect_mmmppppp, effect_mmpp, lemma_effect_mmpp,
    effect_mmppp, lemma_effect_mmppp, effect_mmpppp, lemma_effect_mmpppp, effect_mmppppp,
    lemma_effect_mmppppp, effect_mmpppppp, lemma_effect_mmpppppp, effect_mpmpp, lemma_effect_mpmpp,
    effect_mpmppp, lemma_effect_mpmppp, effect_mpmpppp, lemma_effect_mpmpppp, effect_mpmppppp,
    lemma_effect_mpmppppp, effect_mpp, lemma_effect_mpp, effect_mppp, lemma_effect_mppp,
    effect_mpppp, lemma_effect_mpppp, effect_mppppp, lemma_effect_mppppp, effect_mpppppp,
    lemma_effect_mpppppp, effect_mppppppp, lemma_effect_mppppppp, effect_pmmpp, lemma_effect_pmmpp,
    effect_pmmppp, lemma_effect_pmmppp, effect_pmmpppp, lemma_effect_pmmpppp, effect_pmmppppp,
    lemma_effect_pmmppppp, effect_pmpp, lemma_effect_pmpp, effect_pmppp, lemma_effect_pmppp,
    effect_pmpppp, lemma_effect_pmpppp, effect_pmppppp, lemma_effect_pmppppp, effect_pmpppppp,
    lemma_effect_pmpppppp, effect_ppmpp, lemma_effect_ppmpp, effect_ppmppp, lemma_effect_ppmppp,
    effect_ppmpppp, lemma_effect_ppmpppp, effect_ppmppppp, lemma_effect_ppmppppp,
};
use crate::splat::{SplatCall2, SplatCall3, SplatCall4, SplatCall5};
use crate::step::Step;
use crate::world::{Apart, Apart3, Res, ResMut, Resource, World};
use vstd::prelude::*;

verus! {

/// What a function of its input alone promises, its step promises of what the world holds.
pub proof fn lemma_splat2_unit<R, A, B, Out, F: FnMut(A, B) -> Out>(
    step: Step<F, (), Out>,
    promise: spec_fn((A, B), (), Out) -> bool,
    world: World<R>,
    a: A,
    b: B,
    after: Step<F, (), Out>,
    world_after: World<R>,
    out: Out,
)
    requires
        forall|a0: A, a1: B, o: Out|
            #[trigger] call_ensures(step.f, (a0, a1), o) ==> promise((a0, a1), (), o),
    ensures
        call_requires(step.f, (a, b)) ==> SplatCall2::<R, A, B>::call_splat_pre(&step, world, a, b),
        SplatCall2::<R, A, B>::call_splat_post(&step, world, a, b, after, world_after, out) ==> {
            &&& after == step
            &&& world_after == world
            &&& promise((a, b), (), out)
        },
{
}

/// What a function of one resource promises, its step promises of what the world holds.
pub proof fn lemma_splat2_res<R, T, I, A, B, Out, F: FnMut(&T, A, B) -> Out>(
    step: Step<F, Res<T, I>, Out>,
    promise: spec_fn((T, A, B), (), Out) -> bool,
    world: World<R>,
    a: A,
    b: B,
    after: Step<F, Res<T, I>, Out>,
    world_after: World<R>,
    out: Out,
) where R: Resource<T, I>
    requires
        forall|a0: &T, a1: A, a2: B, o: Out|
            #[trigger] call_ensures(step.f, (a0, a1, a2), o) ==> promise((*a0, a1, a2), (), o),
    ensures
        call_requires(step.f, (&world.held::<T, I>(), a, b))
            ==> SplatCall2::<R, A, B>::call_splat_pre(&step, world, a, b),
        SplatCall2::<R, A, B>::call_splat_post(&step, world, a, b, after, world_after, out) ==> {
            &&& after == step
            &&& world_after == world
            &&& promise((world.held::<T, I>(), a, b), (), out)
        },
{
}

/// What a function of one resource promises, its step promises of what the world holds.
pub proof fn lemma_splat2_resmut<R, T, I, A, B, Out, F: FnMut(&mut T, A, B) -> Out>(
    step: Step<F, ResMut<T, I>, Out>,
    promise: spec_fn((T, A, B), (T,), Out) -> bool,
    world: World<R>,
    a: A,
    b: B,
    after: Step<F, ResMut<T, I>, Out>,
    world_after: World<R>,
    out: Out,
) where R: Resource<T, I>
    requires
        forall|a0: &mut T, a1: A, a2: B, o: Out|
            #[trigger] call_ensures(step.f, (a0, a1, a2), o)
                ==> promise((*a0, a1, a2), (*final(a0),), o),
    ensures
        (forall|a0: &mut T|
            *a0 == world.held::<T, I>()
                ==> #[trigger] call_requires(step.f, (a0, a, b)))
                    ==> SplatCall2::<R, A, B>::call_splat_pre(&step, world, a, b),
        SplatCall2::<R, A, B>::call_splat_post(&step, world, a, b, after, world_after, out) ==> {
            &&& after == step
            &&& exists|held: T|
                #[trigger] promise((world.held::<T, I>(), a, b), (held,), out)
                    && world_after == world.holding::<T, I>(held)
        },
{
    if SplatCall2::<R, A, B>::call_splat_post(&step, world, a, b, after, world_after, out) {
        let held = choose|held: T|
            #[trigger] effect_mpp(step.f, world.held::<T, I>(), a, b, held, out)
                && world_after == world.holding::<T, I>(held);
        lemma_effect_mpp(step.f, world.held::<T, I>(), a, b, held, out);
        assert(promise((world.held::<T, I>(), a, b), (held,), out));
    }
}

/// What a function of two resources promises, its step promises of what the world holds.
pub proof fn lemma_splat2_res_res<R, T, I, U, J, A, B, Out, F: FnMut(&T, &U, A, B) -> Out>(
    step: Step<F, (Res<T, I>, Res<U, J>), Out>,
    promise: spec_fn((T, U, A, B), (), Out) -> bool,
    world: World<R>,
    a: A,
    b: B,
    after: Step<F, (Res<T, I>, Res<U, J>), Out>,
    world_after: World<R>,
    out: Out,
) where R: Resource<T, I> + Resource<U, J>
    requires
        forall|a0: &T, a1: &U, a2: A, a3: B, o: Out|
            #[trigger] call_ensures(step.f, (a0, a1, a2, a3), o)
                ==> promise((*a0, *a1, a2, a3), (), o),
    ensures
        call_requires(step.f, (&world.held::<T, I>(), &world.held::<U, J>(), a, b))
            ==> SplatCall2::<R, A, B>::call_splat_pre(&step, world, a, b),
        SplatCall2::<R, A, B>::call_splat_post(&step, world, a, b, after, world_after, out) ==> {
            &&& after == step
            &&& world_after == world
            &&& promise((world.held::<T, I>(), world.held::<U, J>(), a, b), (), out)
        },
{
}

/// What a function of two resources promises, its step promises of what the world holds.
pub proof fn lemma_splat2_res_resmut<R, T, I, U, J, A, B, Out, F: FnMut(&T, &mut U, A, B) -> Out>(
    step: Step<F, (Res<T, I>, ResMut<U, J>), Out>,
    promise: spec_fn((T, U, A, B), (U,), Out) -> bool,
    world: World<R>,
    a: A,
    b: B,
    after: Step<F, (Res<T, I>, ResMut<U, J>), Out>,
    world_after: World<R>,
    out: Out,
) where R: Apart<T, I, U, J>
    requires
        forall|a0: &T, a1: &mut U, a2: A, a3: B, o: Out|
            #[trigger] call_ensures(step.f, (a0, a1, a2, a3), o)
                ==> promise((*a0, *a1, a2, a3), (*final(a1),), o),
    ensures
        (forall|a1: &mut U|
            *a1 == world.held::<U, J>()
                ==> #[trigger] call_requires(
                    step.f,
                    (&world.held::<T, I>(), a1, a, b),
                )) ==> SplatCall2::<R, A, B>::call_splat_pre(&step, world, a, b),
        SplatCall2::<R, A, B>::call_splat_post(&step, world, a, b, after, world_after, out) ==> {
            &&& after == step
            &&& exists|held: U|
                #[trigger] promise((world.held::<T, I>(), world.held::<U, J>(), a, b), (held,), out)
                    && world_after == world.holding::<U, J>(held)
        },
{
    if SplatCall2::<R, A, B>::call_splat_post(&step, world, a, b, after, world_after, out) {
        let held = choose|held: U|
            #[trigger] effect_pmpp(
                step.f,
                &world.held::<T, I>(),
                world.held::<U, J>(),
                a,
                b,
                held,
                out,
            )
                && world_after == world.holding::<U, J>(held);
        lemma_effect_pmpp(step.f, &world.held::<T, I>(), world.held::<U, J>(), a, b, held, out);
        assert(promise((world.held::<T, I>(), world.held::<U, J>(), a, b), (held,), out));
    }
}

/// What a function of two resources promises, its step promises of what the world holds.
pub proof fn lemma_splat2_resmut_res<R, T, I, U, J, A, B, Out, F: FnMut(&mut T, &U, A, B) -> Out>(
    step: Step<F, (ResMut<T, I>, Res<U, J>), Out>,
    promise: spec_fn((T, U, A, B), (T,), Out) -> bool,
    world: World<R>,
    a: A,
    b: B,
    after: Step<F, (ResMut<T, I>, Res<U, J>), Out>,
    world_after: World<R>,
    out: Out,
) where R: Apart<U, J, T, I>
    requires
        forall|a0: &mut T, a1: &U, a2: A, a3: B, o: Out|
            #[trigger] call_ensures(step.f, (a0, a1, a2, a3), o)
                ==> promise((*a0, *a1, a2, a3), (*final(a0),), o),
    ensures
        (forall|a0: &mut T|
            *a0 == world.held::<T, I>()
                ==> #[trigger] call_requires(
                    step.f,
                    (a0, &world.held::<U, J>(), a, b),
                )) ==> SplatCall2::<R, A, B>::call_splat_pre(&step, world, a, b),
        SplatCall2::<R, A, B>::call_splat_post(&step, world, a, b, after, world_after, out) ==> {
            &&& after == step
            &&& exists|held: T|
                #[trigger] promise((world.held::<T, I>(), world.held::<U, J>(), a, b), (held,), out)
                    && world_after == world.holding::<T, I>(held)
        },
{
    if SplatCall2::<R, A, B>::call_splat_post(&step, world, a, b, after, world_after, out) {
        let held = choose|held: T|
            #[trigger] effect_mppp(
                step.f,
                world.held::<T, I>(),
                &world.held::<U, J>(),
                a,
                b,
                held,
                out,
            )
                && world_after == world.holding::<T, I>(held);
        lemma_effect_mppp(step.f, world.held::<T, I>(), &world.held::<U, J>(), a, b, held, out);
        assert(promise((world.held::<T, I>(), world.held::<U, J>(), a, b), (held,), out));
    }
}

/// What a function of two resources promises, its step promises of what the world holds.
pub proof fn lemma_splat2_resmut_resmut<
    R,
    T,
    I,
    U,
    J,
    A,
    B,
    Out,
    F: FnMut(&mut T, &mut U, A, B) -> Out,
>(
    step: Step<F, (ResMut<T, I>, ResMut<U, J>), Out>,
    promise: spec_fn((T, U, A, B), (T, U), Out) -> bool,
    world: World<R>,
    a: A,
    b: B,
    after: Step<F, (ResMut<T, I>, ResMut<U, J>), Out>,
    world_after: World<R>,
    out: Out,
) where R: Apart<T, I, U, J>
    requires
        forall|a0: &mut T, a1: &mut U, a2: A, a3: B, o: Out|
            #[trigger] call_ensures(step.f, (a0, a1, a2, a3), o)
                ==> promise((*a0, *a1, a2, a3), (*final(a0), *final(a1)), o),
    ensures
        (forall|a0: &mut T, a1: &mut U|
            *a0 == world.held::<T, I>() && *a1 == world.held::<U, J>()
                ==> #[trigger] call_requires(step.f, (a0, a1, a, b)))
                    ==> SplatCall2::<R, A, B>::call_splat_pre(&step, world, a, b),
        SplatCall2::<R, A, B>::call_splat_post(&step, world, a, b, after, world_after, out) ==> {
            &&& after == step
            &&& exists|held: T, other: U|
                #[trigger] promise(
                    (world.held::<T, I>(), world.held::<U, J>(), a, b),
                    (held, other),
                    out,
                )
                    && world_after == world.holding::<T, I>(held).holding::<U, J>(other)
        },
{
    if SplatCall2::<R, A, B>::call_splat_post(&step, world, a, b, after, world_after, out) {
        let (held, other) = choose|held: T, other: U|
            #[trigger] effect_mmpp(
                step.f,
                world.held::<T, I>(),
                world.held::<U, J>(),
                a,
                b,
                held,
                other,
                out,
            )
                && world_after == world.holding::<T, I>(held).holding::<U, J>(other);
        lemma_effect_mmpp(
            step.f,
            world.held::<T, I>(),
            world.held::<U, J>(),
            a,
            b,
            held,
            other,
            out,
        );
        assert(promise((world.held::<T, I>(), world.held::<U, J>(), a, b), (held, other), out));
    }
}

/// What a function of three resources promises, its step promises of what the world holds.
pub proof fn lemma_splat2_res_res_res<
    R,
    T,
    I,
    U,
    J,
    V,
    K,
    A,
    B,
    Out,
    F: FnMut(&T, &U, &V, A, B) -> Out,
>(
    step: Step<F, (Res<T, I>, Res<U, J>, Res<V, K>), Out>,
    promise: spec_fn((T, U, V, A, B), (), Out) -> bool,
    world: World<R>,
    a: A,
    b: B,
    after: Step<F, (Res<T, I>, Res<U, J>, Res<V, K>), Out>,
    world_after: World<R>,
    out: Out,
) where R: Resource<T, I> + Resource<U, J> + Resource<V, K>
    requires
        forall|a0: &T, a1: &U, a2: &V, a3: A, a4: B, o: Out|
            #[trigger] call_ensures(step.f, (a0, a1, a2, a3, a4), o)
                ==> promise((*a0, *a1, *a2, a3, a4), (), o),
    ensures
        call_requires(
            step.f,
            (&world.held::<T, I>(), &world.held::<U, J>(), &world.held::<V, K>(), a, b),
        )
            ==> SplatCall2::<R, A, B>::call_splat_pre(&step, world, a, b),
        SplatCall2::<R, A, B>::call_splat_post(&step, world, a, b, after, world_after, out) ==> {
            &&& after == step
            &&& world_after == world
            &&& promise(
                (world.held::<T, I>(), world.held::<U, J>(), world.held::<V, K>(), a, b),
                (),
                out,
            )
        },
{
}

/// What a function of three resources promises, its step promises of what the world holds.
pub proof fn lemma_splat2_res_res_resmut<
    R,
    T,
    I,
    U,
    J,
    V,
    K,
    A,
    B,
    Out,
    F: FnMut(&T, &U, &mut V, A, B) -> Out,
>(
    step: Step<F, (Res<T, I>, Res<U, J>, ResMut<V, K>), Out>,
    promise: spec_fn((T, U, V, A, B), (V,), Out) -> bool,
    world: World<R>,
    a: A,
    b: B,
    after: Step<F, (Res<T, I>, Res<U, J>, ResMut<V, K>), Out>,
    world_after: World<R>,
    out: Out,
) where R: Apart3<T, I, U, J, V, K>
    requires
        forall|a0: &T, a1: &U, a2: &mut V, a3: A, a4: B, o: Out|
            #[trigger] call_ensures(step.f, (a0, a1, a2, a3, a4), o)
                ==> promise((*a0, *a1, *a2, a3, a4), (*final(a2),), o),
    ensures
        (forall|a2: &mut V|
            *a2 == world.held::<V, K>()
                ==> #[trigger] call_requires(
                    step.f,
                    (&world.held::<T, I>(), &world.held::<U, J>(), a2, a, b),
                )) ==> SplatCall2::<R, A, B>::call_splat_pre(&step, world, a, b),
        SplatCall2::<R, A, B>::call_splat_post(&step, world, a, b, after, world_after, out) ==> {
            &&& after == step
            &&& exists|held: V|
                #[trigger] promise(
                    (world.held::<T, I>(), world.held::<U, J>(), world.held::<V, K>(), a, b),
                    (held,),
                    out,
                )
                    && world_after == world.holding::<V, K>(held)
        },
{
    if SplatCall2::<R, A, B>::call_splat_post(&step, world, a, b, after, world_after, out) {
        let held = choose|held: V|
            #[trigger] effect_ppmpp(
                step.f,
                &world.held::<T, I>(),
                &world.held::<U, J>(),
                world.held::<V, K>(),
                a,
                b,
                held,
                out,
            )
                && world_after == world.holding::<V, K>(held);
        lemma_effect_ppmpp(
            step.f,
            &world.held::<T, I>(),
            &world.held::<U, J>(),
            world.held::<V, K>(),
            a,
            b,
            held,
            out,
        );
        assert(promise(
            (world.held::<T, I>(), world.held::<U, J>(), world.held::<V, K>(), a, b),
            (held,),
            out,
        ));
    }
}

/// What a function of three resources promises, its step promises of what the world holds.
pub proof fn lemma_splat2_res_resmut_res<
    R,
    T,
    I,
    U,
    J,
    V,
    K,
    A,
    B,
    Out,
    F: FnMut(&T, &mut U, &V, A, B) -> Out,
>(
    step: Step<F, (Res<T, I>, ResMut<U, J>, Res<V, K>), Out>,
    promise: spec_fn((T, U, V, A, B), (U,), Out) -> bool,
    world: World<R>,
    a: A,
    b: B,
    after: Step<F, (Res<T, I>, ResMut<U, J>, Res<V, K>), Out>,
    world_after: World<R>,
    out: Out,
) where R: Apart3<T, I, V, K, U, J>
    requires
        forall|a0: &T, a1: &mut U, a2: &V, a3: A, a4: B, o: Out|
            #[trigger] call_ensures(step.f, (a0, a1, a2, a3, a4), o)
                ==> promise((*a0, *a1, *a2, a3, a4), (*final(a1),), o),
    ensures
        (forall|a1: &mut U|
            *a1 == world.held::<U, J>()
                ==> #[trigger] call_requires(
                    step.f,
                    (&world.held::<T, I>(), a1, &world.held::<V, K>(), a, b),
                )) ==> SplatCall2::<R, A, B>::call_splat_pre(&step, world, a, b),
        SplatCall2::<R, A, B>::call_splat_post(&step, world, a, b, after, world_after, out) ==> {
            &&& after == step
            &&& exists|held: U|
                #[trigger] promise(
                    (world.held::<T, I>(), world.held::<U, J>(), world.held::<V, K>(), a, b),
                    (held,),
                    out,
                )
                    && world_after == world.holding::<U, J>(held)
        },
{
    if SplatCall2::<R, A, B>::call_splat_post(&step, world, a, b, after, world_after, out) {
        let held = choose|held: U|
            #[trigger] effect_pmppp(
                step.f,
                &world.held::<T, I>(),
                world.held::<U, J>(),
                &world.held::<V, K>(),
                a,
                b,
                held,
                out,
            )
                && world_after == world.holding::<U, J>(held);
        lemma_effect_pmppp(
            step.f,
            &world.held::<T, I>(),
            world.held::<U, J>(),
            &world.held::<V, K>(),
            a,
            b,
            held,
            out,
        );
        assert(promise(
            (world.held::<T, I>(), world.held::<U, J>(), world.held::<V, K>(), a, b),
            (held,),
            out,
        ));
    }
}

/// What a function of three resources promises, its step promises of what the world holds.
pub proof fn lemma_splat2_res_resmut_resmut<
    R,
    T,
    I,
    U,
    J,
    V,
    K,
    A,
    B,
    Out,
    F: FnMut(&T, &mut U, &mut V, A, B) -> Out,
>(
    step: Step<F, (Res<T, I>, ResMut<U, J>, ResMut<V, K>), Out>,
    promise: spec_fn((T, U, V, A, B), (U, V), Out) -> bool,
    world: World<R>,
    a: A,
    b: B,
    after: Step<F, (Res<T, I>, ResMut<U, J>, ResMut<V, K>), Out>,
    world_after: World<R>,
    out: Out,
) where R: Apart3<T, I, U, J, V, K>
    requires
        forall|a0: &T, a1: &mut U, a2: &mut V, a3: A, a4: B, o: Out|
            #[trigger] call_ensures(step.f, (a0, a1, a2, a3, a4), o)
                ==> promise((*a0, *a1, *a2, a3, a4), (*final(a1), *final(a2)), o),
    ensures
        (forall|a1: &mut U, a2: &mut V|
            *a1 == world.held::<U, J>() && *a2 == world.held::<V, K>()
                ==> #[trigger] call_requires(
                    step.f,
                    (&world.held::<T, I>(), a1, a2, a, b),
                )) ==> SplatCall2::<R, A, B>::call_splat_pre(&step, world, a, b),
        SplatCall2::<R, A, B>::call_splat_post(&step, world, a, b, after, world_after, out) ==> {
            &&& after == step
            &&& exists|held: U, other: V|
                #[trigger] promise(
                    (world.held::<T, I>(), world.held::<U, J>(), world.held::<V, K>(), a, b),
                    (held, other),
                    out,
                )
                    && world_after == world.holding::<U, J>(held).holding::<V, K>(other)
        },
{
    if SplatCall2::<R, A, B>::call_splat_post(&step, world, a, b, after, world_after, out) {
        let (held, other) = choose|held: U, other: V|
            #[trigger] effect_pmmpp(
                step.f,
                &world.held::<T, I>(),
                world.held::<U, J>(),
                world.held::<V, K>(),
                a,
                b,
                held,
                other,
                out,
            )
                && world_after == world.holding::<U, J>(held).holding::<V, K>(other);
        lemma_effect_pmmpp(
            step.f,
            &world.held::<T, I>(),
            world.held::<U, J>(),
            world.held::<V, K>(),
            a,
            b,
            held,
            other,
            out,
        );
        assert(promise(
            (world.held::<T, I>(), world.held::<U, J>(), world.held::<V, K>(), a, b),
            (held, other),
            out,
        ));
    }
}

/// What a function of three resources promises, its step promises of what the world holds.
pub proof fn lemma_splat2_resmut_res_res<
    R,
    T,
    I,
    U,
    J,
    V,
    K,
    A,
    B,
    Out,
    F: FnMut(&mut T, &U, &V, A, B) -> Out,
>(
    step: Step<F, (ResMut<T, I>, Res<U, J>, Res<V, K>), Out>,
    promise: spec_fn((T, U, V, A, B), (T,), Out) -> bool,
    world: World<R>,
    a: A,
    b: B,
    after: Step<F, (ResMut<T, I>, Res<U, J>, Res<V, K>), Out>,
    world_after: World<R>,
    out: Out,
) where R: Apart3<U, J, V, K, T, I>
    requires
        forall|a0: &mut T, a1: &U, a2: &V, a3: A, a4: B, o: Out|
            #[trigger] call_ensures(step.f, (a0, a1, a2, a3, a4), o)
                ==> promise((*a0, *a1, *a2, a3, a4), (*final(a0),), o),
    ensures
        (forall|a0: &mut T|
            *a0 == world.held::<T, I>()
                ==> #[trigger] call_requires(
                    step.f,
                    (a0, &world.held::<U, J>(), &world.held::<V, K>(), a, b),
                )) ==> SplatCall2::<R, A, B>::call_splat_pre(&step, world, a, b),
        SplatCall2::<R, A, B>::call_splat_post(&step, world, a, b, after, world_after, out) ==> {
            &&& after == step
            &&& exists|held: T|
                #[trigger] promise(
                    (world.held::<T, I>(), world.held::<U, J>(), world.held::<V, K>(), a, b),
                    (held,),
                    out,
                )
                    && world_after == world.holding::<T, I>(held)
        },
{
    if SplatCall2::<R, A, B>::call_splat_post(&step, world, a, b, after, world_after, out) {
        let held = choose|held: T|
            #[trigger] effect_mpppp(
                step.f,
                world.held::<T, I>(),
                &world.held::<U, J>(),
                &world.held::<V, K>(),
                a,
                b,
                held,
                out,
            )
                && world_after == world.holding::<T, I>(held);
        lemma_effect_mpppp(
            step.f,
            world.held::<T, I>(),
            &world.held::<U, J>(),
            &world.held::<V, K>(),
            a,
            b,
            held,
            out,
        );
        assert(promise(
            (world.held::<T, I>(), world.held::<U, J>(), world.held::<V, K>(), a, b),
            (held,),
            out,
        ));
    }
}

/// What a function of three resources promises, its step promises of what the world holds.
pub proof fn lemma_splat2_resmut_res_resmut<
    R,
    T,
    I,
    U,
    J,
    V,
    K,
    A,
    B,
    Out,
    F: FnMut(&mut T, &U, &mut V, A, B) -> Out,
>(
    step: Step<F, (ResMut<T, I>, Res<U, J>, ResMut<V, K>), Out>,
    promise: spec_fn((T, U, V, A, B), (T, V), Out) -> bool,
    world: World<R>,
    a: A,
    b: B,
    after: Step<F, (ResMut<T, I>, Res<U, J>, ResMut<V, K>), Out>,
    world_after: World<R>,
    out: Out,
) where R: Apart3<U, J, T, I, V, K>
    requires
        forall|a0: &mut T, a1: &U, a2: &mut V, a3: A, a4: B, o: Out|
            #[trigger] call_ensures(step.f, (a0, a1, a2, a3, a4), o)
                ==> promise((*a0, *a1, *a2, a3, a4), (*final(a0), *final(a2)), o),
    ensures
        (forall|a0: &mut T, a2: &mut V|
            *a0 == world.held::<T, I>() && *a2 == world.held::<V, K>()
                ==> #[trigger] call_requires(
                    step.f,
                    (a0, &world.held::<U, J>(), a2, a, b),
                )) ==> SplatCall2::<R, A, B>::call_splat_pre(&step, world, a, b),
        SplatCall2::<R, A, B>::call_splat_post(&step, world, a, b, after, world_after, out) ==> {
            &&& after == step
            &&& exists|held: T, other: V|
                #[trigger] promise(
                    (world.held::<T, I>(), world.held::<U, J>(), world.held::<V, K>(), a, b),
                    (held, other),
                    out,
                )
                    && world_after == world.holding::<T, I>(held).holding::<V, K>(other)
        },
{
    if SplatCall2::<R, A, B>::call_splat_post(&step, world, a, b, after, world_after, out) {
        let (held, other) = choose|held: T, other: V|
            #[trigger] effect_mpmpp(
                step.f,
                world.held::<T, I>(),
                &world.held::<U, J>(),
                world.held::<V, K>(),
                a,
                b,
                held,
                other,
                out,
            )
                && world_after == world.holding::<T, I>(held).holding::<V, K>(other);
        lemma_effect_mpmpp(
            step.f,
            world.held::<T, I>(),
            &world.held::<U, J>(),
            world.held::<V, K>(),
            a,
            b,
            held,
            other,
            out,
        );
        assert(promise(
            (world.held::<T, I>(), world.held::<U, J>(), world.held::<V, K>(), a, b),
            (held, other),
            out,
        ));
    }
}

/// What a function of three resources promises, its step promises of what the world holds.
pub proof fn lemma_splat2_resmut_resmut_res<
    R,
    T,
    I,
    U,
    J,
    V,
    K,
    A,
    B,
    Out,
    F: FnMut(&mut T, &mut U, &V, A, B) -> Out,
>(
    step: Step<F, (ResMut<T, I>, ResMut<U, J>, Res<V, K>), Out>,
    promise: spec_fn((T, U, V, A, B), (T, U), Out) -> bool,
    world: World<R>,
    a: A,
    b: B,
    after: Step<F, (ResMut<T, I>, ResMut<U, J>, Res<V, K>), Out>,
    world_after: World<R>,
    out: Out,
) where R: Apart3<V, K, T, I, U, J>
    requires
        forall|a0: &mut T, a1: &mut U, a2: &V, a3: A, a4: B, o: Out|
            #[trigger] call_ensures(step.f, (a0, a1, a2, a3, a4), o)
                ==> promise((*a0, *a1, *a2, a3, a4), (*final(a0), *final(a1)), o),
    ensures
        (forall|a0: &mut T, a1: &mut U|
            *a0 == world.held::<T, I>() && *a1 == world.held::<U, J>()
                ==> #[trigger] call_requires(
                    step.f,
                    (a0, a1, &world.held::<V, K>(), a, b),
                )) ==> SplatCall2::<R, A, B>::call_splat_pre(&step, world, a, b),
        SplatCall2::<R, A, B>::call_splat_post(&step, world, a, b, after, world_after, out) ==> {
            &&& after == step
            &&& exists|held: T, other: U|
                #[trigger] promise(
                    (world.held::<T, I>(), world.held::<U, J>(), world.held::<V, K>(), a, b),
                    (held, other),
                    out,
                )
                    && world_after == world.holding::<T, I>(held).holding::<U, J>(other)
        },
{
    if SplatCall2::<R, A, B>::call_splat_post(&step, world, a, b, after, world_after, out) {
        let (held, other) = choose|held: T, other: U|
            #[trigger] effect_mmppp(
                step.f,
                world.held::<T, I>(),
                world.held::<U, J>(),
                &world.held::<V, K>(),
                a,
                b,
                held,
                other,
                out,
            )
                && world_after == world.holding::<T, I>(held).holding::<U, J>(other);
        lemma_effect_mmppp(
            step.f,
            world.held::<T, I>(),
            world.held::<U, J>(),
            &world.held::<V, K>(),
            a,
            b,
            held,
            other,
            out,
        );
        assert(promise(
            (world.held::<T, I>(), world.held::<U, J>(), world.held::<V, K>(), a, b),
            (held, other),
            out,
        ));
    }
}

/// What a function of three resources promises, its step promises of what the world holds.
pub proof fn lemma_splat2_resmut_resmut_resmut<
    R,
    T,
    I,
    U,
    J,
    V,
    K,
    A,
    B,
    Out,
    F: FnMut(&mut T, &mut U, &mut V, A, B) -> Out,
>(
    step: Step<F, (ResMut<T, I>, ResMut<U, J>, ResMut<V, K>), Out>,
    promise: spec_fn((T, U, V, A, B), (T, U, V), Out) -> bool,
    world: World<R>,
    a: A,
    b: B,
    after: Step<F, (ResMut<T, I>, ResMut<U, J>, ResMut<V, K>), Out>,
    world_after: World<R>,
    out: Out,
) where R: Apart3<T, I, U, J, V, K>
    requires
        forall|a0: &mut T, a1: &mut U, a2: &mut V, a3: A, a4: B, o: Out|
            #[trigger] call_ensures(step.f, (a0, a1, a2, a3, a4), o)
                ==> promise((*a0, *a1, *a2, a3, a4), (*final(a0), *final(a1), *final(a2)), o),
    ensures
        (forall|a0: &mut T, a1: &mut U, a2: &mut V|
            *a0 == world.held::<T, I>()
                && *a1 == world.held::<U, J>()
                && *a2 == world.held::<V, K>()
                ==> #[trigger] call_requires(step.f, (a0, a1, a2, a, b)))
                    ==> SplatCall2::<R, A, B>::call_splat_pre(&step, world, a, b),
        SplatCall2::<R, A, B>::call_splat_post(&step, world, a, b, after, world_after, out) ==> {
            &&& after == step
            &&& exists|held: T, other: U, last: V|
                #[trigger] promise(
                    (world.held::<T, I>(), world.held::<U, J>(), world.held::<V, K>(), a, b),
                    (held, other, last),
                    out,
                )
                    && world_after == world.holding::<T, I>(held).holding::<U, J>(other).holding::<V, K>(last)
        },
{
    if SplatCall2::<R, A, B>::call_splat_post(&step, world, a, b, after, world_after, out) {
        let (held, other, last) = choose|held: T, other: U, last: V|
            #[trigger] effect_mmmpp(
                step.f,
                world.held::<T, I>(),
                world.held::<U, J>(),
                world.held::<V, K>(),
                a,
                b,
                held,
                other,
                last,
                out,
            )
                && world_after == world.holding::<T, I>(held).holding::<U, J>(other).holding::<V, K>(last);
        lemma_effect_mmmpp(
            step.f,
            world.held::<T, I>(),
            world.held::<U, J>(),
            world.held::<V, K>(),
            a,
            b,
            held,
            other,
            last,
            out,
        );
        assert(promise(
            (world.held::<T, I>(), world.held::<U, J>(), world.held::<V, K>(), a, b),
            (held, other, last),
            out,
        ));
    }
}

/// What a function of its input alone promises, its step promises of what the world holds.
pub proof fn lemma_splat3_unit<R, A, B, C, Out, F: FnMut(A, B, C) -> Out>(
    step: Step<F, (), Out>,
    promise: spec_fn((A, B, C), (), Out) -> bool,
    world: World<R>,
    a: A,
    b: B,
    c: C,
    after: Step<F, (), Out>,
    world_after: World<R>,
    out: Out,
)
    requires
        forall|a0: A, a1: B, a2: C, o: Out|
            #[trigger] call_ensures(step.f, (a0, a1, a2), o) ==> promise((a0, a1, a2), (), o),
    ensures
        call_requires(step.f, (a, b, c))
            ==> SplatCall3::<R, A, B, C>::call_splat_pre(&step, world, a, b, c),
        SplatCall3::<R, A, B, C>::call_splat_post(&step, world, a, b, c, after, world_after, out)
            ==> {
            &&& after == step
            &&& world_after == world
            &&& promise((a, b, c), (), out)
        },
{
}

/// What a function of one resource promises, its step promises of what the world holds.
pub proof fn lemma_splat3_res<R, T, I, A, B, C, Out, F: FnMut(&T, A, B, C) -> Out>(
    step: Step<F, Res<T, I>, Out>,
    promise: spec_fn((T, A, B, C), (), Out) -> bool,
    world: World<R>,
    a: A,
    b: B,
    c: C,
    after: Step<F, Res<T, I>, Out>,
    world_after: World<R>,
    out: Out,
) where R: Resource<T, I>
    requires
        forall|a0: &T, a1: A, a2: B, a3: C, o: Out|
            #[trigger] call_ensures(step.f, (a0, a1, a2, a3), o)
                ==> promise((*a0, a1, a2, a3), (), o),
    ensures
        call_requires(step.f, (&world.held::<T, I>(), a, b, c))
            ==> SplatCall3::<R, A, B, C>::call_splat_pre(&step, world, a, b, c),
        SplatCall3::<R, A, B, C>::call_splat_post(&step, world, a, b, c, after, world_after, out)
            ==> {
            &&& after == step
            &&& world_after == world
            &&& promise((world.held::<T, I>(), a, b, c), (), out)
        },
{
}

/// What a function of one resource promises, its step promises of what the world holds.
pub proof fn lemma_splat3_resmut<R, T, I, A, B, C, Out, F: FnMut(&mut T, A, B, C) -> Out>(
    step: Step<F, ResMut<T, I>, Out>,
    promise: spec_fn((T, A, B, C), (T,), Out) -> bool,
    world: World<R>,
    a: A,
    b: B,
    c: C,
    after: Step<F, ResMut<T, I>, Out>,
    world_after: World<R>,
    out: Out,
) where R: Resource<T, I>
    requires
        forall|a0: &mut T, a1: A, a2: B, a3: C, o: Out|
            #[trigger] call_ensures(step.f, (a0, a1, a2, a3), o)
                ==> promise((*a0, a1, a2, a3), (*final(a0),), o),
    ensures
        (forall|a0: &mut T|
            *a0 == world.held::<T, I>()
                ==> #[trigger] call_requires(step.f, (a0, a, b, c)))
                    ==> SplatCall3::<R, A, B, C>::call_splat_pre(&step, world, a, b, c),
        SplatCall3::<R, A, B, C>::call_splat_post(&step, world, a, b, c, after, world_after, out)
            ==> {
            &&& after == step
            &&& exists|held: T|
                #[trigger] promise((world.held::<T, I>(), a, b, c), (held,), out)
                    && world_after == world.holding::<T, I>(held)
        },
{
    if SplatCall3::<R, A, B, C>::call_splat_post(&step, world, a, b, c, after, world_after, out) {
        let held = choose|held: T|
            #[trigger] effect_mppp(step.f, world.held::<T, I>(), a, b, c, held, out)
                && world_after == world.holding::<T, I>(held);
        lemma_effect_mppp(step.f, world.held::<T, I>(), a, b, c, held, out);
        assert(promise((world.held::<T, I>(), a, b, c), (held,), out));
    }
}

/// What a function of two resources promises, its step promises of what the world holds.
pub proof fn lemma_splat3_res_res<R, T, I, U, J, A, B, C, Out, F: FnMut(&T, &U, A, B, C) -> Out>(
    step: Step<F, (Res<T, I>, Res<U, J>), Out>,
    promise: spec_fn((T, U, A, B, C), (), Out) -> bool,
    world: World<R>,
    a: A,
    b: B,
    c: C,
    after: Step<F, (Res<T, I>, Res<U, J>), Out>,
    world_after: World<R>,
    out: Out,
) where R: Resource<T, I> + Resource<U, J>
    requires
        forall|a0: &T, a1: &U, a2: A, a3: B, a4: C, o: Out|
            #[trigger] call_ensures(step.f, (a0, a1, a2, a3, a4), o)
                ==> promise((*a0, *a1, a2, a3, a4), (), o),
    ensures
        call_requires(step.f, (&world.held::<T, I>(), &world.held::<U, J>(), a, b, c))
            ==> SplatCall3::<R, A, B, C>::call_splat_pre(&step, world, a, b, c),
        SplatCall3::<R, A, B, C>::call_splat_post(&step, world, a, b, c, after, world_after, out)
            ==> {
            &&& after == step
            &&& world_after == world
            &&& promise((world.held::<T, I>(), world.held::<U, J>(), a, b, c), (), out)
        },
{
}

/// What a function of two resources promises, its step promises of what the world holds.
pub proof fn lemma_splat3_res_resmut<
    R,
    T,
    I,
    U,
    J,
    A,
    B,
    C,
    Out,
    F: FnMut(&T, &mut U, A, B, C) -> Out,
>(
    step: Step<F, (Res<T, I>, ResMut<U, J>), Out>,
    promise: spec_fn((T, U, A, B, C), (U,), Out) -> bool,
    world: World<R>,
    a: A,
    b: B,
    c: C,
    after: Step<F, (Res<T, I>, ResMut<U, J>), Out>,
    world_after: World<R>,
    out: Out,
) where R: Apart<T, I, U, J>
    requires
        forall|a0: &T, a1: &mut U, a2: A, a3: B, a4: C, o: Out|
            #[trigger] call_ensures(step.f, (a0, a1, a2, a3, a4), o)
                ==> promise((*a0, *a1, a2, a3, a4), (*final(a1),), o),
    ensures
        (forall|a1: &mut U|
            *a1 == world.held::<U, J>()
                ==> #[trigger] call_requires(
                    step.f,
                    (&world.held::<T, I>(), a1, a, b, c),
                )) ==> SplatCall3::<R, A, B, C>::call_splat_pre(&step, world, a, b, c),
        SplatCall3::<R, A, B, C>::call_splat_post(&step, world, a, b, c, after, world_after, out)
            ==> {
            &&& after == step
            &&& exists|held: U|
                #[trigger] promise(
                    (world.held::<T, I>(), world.held::<U, J>(), a, b, c),
                    (held,),
                    out,
                )
                    && world_after == world.holding::<U, J>(held)
        },
{
    if SplatCall3::<R, A, B, C>::call_splat_post(&step, world, a, b, c, after, world_after, out) {
        let held = choose|held: U|
            #[trigger] effect_pmppp(
                step.f,
                &world.held::<T, I>(),
                world.held::<U, J>(),
                a,
                b,
                c,
                held,
                out,
            )
                && world_after == world.holding::<U, J>(held);
        lemma_effect_pmppp(step.f, &world.held::<T, I>(), world.held::<U, J>(), a, b, c, held, out);
        assert(promise((world.held::<T, I>(), world.held::<U, J>(), a, b, c), (held,), out));
    }
}

/// What a function of two resources promises, its step promises of what the world holds.
pub proof fn lemma_splat3_resmut_res<
    R,
    T,
    I,
    U,
    J,
    A,
    B,
    C,
    Out,
    F: FnMut(&mut T, &U, A, B, C) -> Out,
>(
    step: Step<F, (ResMut<T, I>, Res<U, J>), Out>,
    promise: spec_fn((T, U, A, B, C), (T,), Out) -> bool,
    world: World<R>,
    a: A,
    b: B,
    c: C,
    after: Step<F, (ResMut<T, I>, Res<U, J>), Out>,
    world_after: World<R>,
    out: Out,
) where R: Apart<U, J, T, I>
    requires
        forall|a0: &mut T, a1: &U, a2: A, a3: B, a4: C, o: Out|
            #[trigger] call_ensures(step.f, (a0, a1, a2, a3, a4), o)
                ==> promise((*a0, *a1, a2, a3, a4), (*final(a0),), o),
    ensures
        (forall|a0: &mut T|
            *a0 == world.held::<T, I>()
                ==> #[trigger] call_requires(
                    step.f,
                    (a0, &world.held::<U, J>(), a, b, c),
                )) ==> SplatCall3::<R, A, B, C>::call_splat_pre(&step, world, a, b, c),
        SplatCall3::<R, A, B, C>::call_splat_post(&step, world, a, b, c, after, world_after, out)
            ==> {
            &&& after == step
            &&& exists|held: T|
                #[trigger] promise(
                    (world.held::<T, I>(), world.held::<U, J>(), a, b, c),
                    (held,),
                    out,
                )
                    && world_after == world.holding::<T, I>(held)
        },
{
    if SplatCall3::<R, A, B, C>::call_splat_post(&step, world, a, b, c, after, world_after, out) {
        let held = choose|held: T|
            #[trigger] effect_mpppp(
                step.f,
                world.held::<T, I>(),
                &world.held::<U, J>(),
                a,
                b,
                c,
                held,
                out,
            )
                && world_after == world.holding::<T, I>(held);
        lemma_effect_mpppp(step.f, world.held::<T, I>(), &world.held::<U, J>(), a, b, c, held, out);
        assert(promise((world.held::<T, I>(), world.held::<U, J>(), a, b, c), (held,), out));
    }
}

/// What a function of two resources promises, its step promises of what the world holds.
pub proof fn lemma_splat3_resmut_resmut<
    R,
    T,
    I,
    U,
    J,
    A,
    B,
    C,
    Out,
    F: FnMut(&mut T, &mut U, A, B, C) -> Out,
>(
    step: Step<F, (ResMut<T, I>, ResMut<U, J>), Out>,
    promise: spec_fn((T, U, A, B, C), (T, U), Out) -> bool,
    world: World<R>,
    a: A,
    b: B,
    c: C,
    after: Step<F, (ResMut<T, I>, ResMut<U, J>), Out>,
    world_after: World<R>,
    out: Out,
) where R: Apart<T, I, U, J>
    requires
        forall|a0: &mut T, a1: &mut U, a2: A, a3: B, a4: C, o: Out|
            #[trigger] call_ensures(step.f, (a0, a1, a2, a3, a4), o)
                ==> promise((*a0, *a1, a2, a3, a4), (*final(a0), *final(a1)), o),
    ensures
        (forall|a0: &mut T, a1: &mut U|
            *a0 == world.held::<T, I>() && *a1 == world.held::<U, J>()
                ==> #[trigger] call_requires(step.f, (a0, a1, a, b, c)))
                    ==> SplatCall3::<R, A, B, C>::call_splat_pre(&step, world, a, b, c),
        SplatCall3::<R, A, B, C>::call_splat_post(&step, world, a, b, c, after, world_after, out)
            ==> {
            &&& after == step
            &&& exists|held: T, other: U|
                #[trigger] promise(
                    (world.held::<T, I>(), world.held::<U, J>(), a, b, c),
                    (held, other),
                    out,
                )
                    && world_after == world.holding::<T, I>(held).holding::<U, J>(other)
        },
{
    if SplatCall3::<R, A, B, C>::call_splat_post(&step, world, a, b, c, after, world_after, out) {
        let (held, other) = choose|held: T, other: U|
            #[trigger] effect_mmppp(
                step.f,
                world.held::<T, I>(),
                world.held::<U, J>(),
                a,
                b,
                c,
                held,
                other,
                out,
            )
                && world_after == world.holding::<T, I>(held).holding::<U, J>(other);
        lemma_effect_mmppp(
            step.f,
            world.held::<T, I>(),
            world.held::<U, J>(),
            a,
            b,
            c,
            held,
            other,
            out,
        );
        assert(promise((world.held::<T, I>(), world.held::<U, J>(), a, b, c), (held, other), out));
    }
}

/// What a function of three resources promises, its step promises of what the world holds.
pub proof fn lemma_splat3_res_res_res<
    R,
    T,
    I,
    U,
    J,
    V,
    K,
    A,
    B,
    C,
    Out,
    F: FnMut(&T, &U, &V, A, B, C) -> Out,
>(
    step: Step<F, (Res<T, I>, Res<U, J>, Res<V, K>), Out>,
    promise: spec_fn((T, U, V, A, B, C), (), Out) -> bool,
    world: World<R>,
    a: A,
    b: B,
    c: C,
    after: Step<F, (Res<T, I>, Res<U, J>, Res<V, K>), Out>,
    world_after: World<R>,
    out: Out,
) where R: Resource<T, I> + Resource<U, J> + Resource<V, K>
    requires
        forall|a0: &T, a1: &U, a2: &V, a3: A, a4: B, a5: C, o: Out|
            #[trigger] call_ensures(step.f, (a0, a1, a2, a3, a4, a5), o)
                ==> promise((*a0, *a1, *a2, a3, a4, a5), (), o),
    ensures
        call_requires(
            step.f,
            (&world.held::<T, I>(), &world.held::<U, J>(), &world.held::<V, K>(), a, b, c),
        )
            ==> SplatCall3::<R, A, B, C>::call_splat_pre(&step, world, a, b, c),
        SplatCall3::<R, A, B, C>::call_splat_post(&step, world, a, b, c, after, world_after, out)
            ==> {
            &&& after == step
            &&& world_after == world
            &&& promise(
                (world.held::<T, I>(), world.held::<U, J>(), world.held::<V, K>(), a, b, c),
                (),
                out,
            )
        },
{
}

/// What a function of three resources promises, its step promises of what the world holds.
pub proof fn lemma_splat3_res_res_resmut<
    R,
    T,
    I,
    U,
    J,
    V,
    K,
    A,
    B,
    C,
    Out,
    F: FnMut(&T, &U, &mut V, A, B, C) -> Out,
>(
    step: Step<F, (Res<T, I>, Res<U, J>, ResMut<V, K>), Out>,
    promise: spec_fn((T, U, V, A, B, C), (V,), Out) -> bool,
    world: World<R>,
    a: A,
    b: B,
    c: C,
    after: Step<F, (Res<T, I>, Res<U, J>, ResMut<V, K>), Out>,
    world_after: World<R>,
    out: Out,
) where R: Apart3<T, I, U, J, V, K>
    requires
        forall|a0: &T, a1: &U, a2: &mut V, a3: A, a4: B, a5: C, o: Out|
            #[trigger] call_ensures(step.f, (a0, a1, a2, a3, a4, a5), o)
                ==> promise((*a0, *a1, *a2, a3, a4, a5), (*final(a2),), o),
    ensures
        (forall|a2: &mut V|
            *a2 == world.held::<V, K>()
                ==> #[trigger] call_requires(
                    step.f,
                    (&world.held::<T, I>(), &world.held::<U, J>(), a2, a, b, c),
                )) ==> SplatCall3::<R, A, B, C>::call_splat_pre(&step, world, a, b, c),
        SplatCall3::<R, A, B, C>::call_splat_post(&step, world, a, b, c, after, world_after, out)
            ==> {
            &&& after == step
            &&& exists|held: V|
                #[trigger] promise(
                    (world.held::<T, I>(), world.held::<U, J>(), world.held::<V, K>(), a, b, c),
                    (held,),
                    out,
                )
                    && world_after == world.holding::<V, K>(held)
        },
{
    if SplatCall3::<R, A, B, C>::call_splat_post(&step, world, a, b, c, after, world_after, out) {
        let held = choose|held: V|
            #[trigger] effect_ppmppp(
                step.f,
                &world.held::<T, I>(),
                &world.held::<U, J>(),
                world.held::<V, K>(),
                a,
                b,
                c,
                held,
                out,
            )
                && world_after == world.holding::<V, K>(held);
        lemma_effect_ppmppp(
            step.f,
            &world.held::<T, I>(),
            &world.held::<U, J>(),
            world.held::<V, K>(),
            a,
            b,
            c,
            held,
            out,
        );
        assert(promise(
            (world.held::<T, I>(), world.held::<U, J>(), world.held::<V, K>(), a, b, c),
            (held,),
            out,
        ));
    }
}

/// What a function of three resources promises, its step promises of what the world holds.
pub proof fn lemma_splat3_res_resmut_res<
    R,
    T,
    I,
    U,
    J,
    V,
    K,
    A,
    B,
    C,
    Out,
    F: FnMut(&T, &mut U, &V, A, B, C) -> Out,
>(
    step: Step<F, (Res<T, I>, ResMut<U, J>, Res<V, K>), Out>,
    promise: spec_fn((T, U, V, A, B, C), (U,), Out) -> bool,
    world: World<R>,
    a: A,
    b: B,
    c: C,
    after: Step<F, (Res<T, I>, ResMut<U, J>, Res<V, K>), Out>,
    world_after: World<R>,
    out: Out,
) where R: Apart3<T, I, V, K, U, J>
    requires
        forall|a0: &T, a1: &mut U, a2: &V, a3: A, a4: B, a5: C, o: Out|
            #[trigger] call_ensures(step.f, (a0, a1, a2, a3, a4, a5), o)
                ==> promise((*a0, *a1, *a2, a3, a4, a5), (*final(a1),), o),
    ensures
        (forall|a1: &mut U|
            *a1 == world.held::<U, J>()
                ==> #[trigger] call_requires(
                    step.f,
                    (&world.held::<T, I>(), a1, &world.held::<V, K>(), a, b, c),
                )) ==> SplatCall3::<R, A, B, C>::call_splat_pre(&step, world, a, b, c),
        SplatCall3::<R, A, B, C>::call_splat_post(&step, world, a, b, c, after, world_after, out)
            ==> {
            &&& after == step
            &&& exists|held: U|
                #[trigger] promise(
                    (world.held::<T, I>(), world.held::<U, J>(), world.held::<V, K>(), a, b, c),
                    (held,),
                    out,
                )
                    && world_after == world.holding::<U, J>(held)
        },
{
    if SplatCall3::<R, A, B, C>::call_splat_post(&step, world, a, b, c, after, world_after, out) {
        let held = choose|held: U|
            #[trigger] effect_pmpppp(
                step.f,
                &world.held::<T, I>(),
                world.held::<U, J>(),
                &world.held::<V, K>(),
                a,
                b,
                c,
                held,
                out,
            )
                && world_after == world.holding::<U, J>(held);
        lemma_effect_pmpppp(
            step.f,
            &world.held::<T, I>(),
            world.held::<U, J>(),
            &world.held::<V, K>(),
            a,
            b,
            c,
            held,
            out,
        );
        assert(promise(
            (world.held::<T, I>(), world.held::<U, J>(), world.held::<V, K>(), a, b, c),
            (held,),
            out,
        ));
    }
}

/// What a function of three resources promises, its step promises of what the world holds.
pub proof fn lemma_splat3_res_resmut_resmut<
    R,
    T,
    I,
    U,
    J,
    V,
    K,
    A,
    B,
    C,
    Out,
    F: FnMut(&T, &mut U, &mut V, A, B, C) -> Out,
>(
    step: Step<F, (Res<T, I>, ResMut<U, J>, ResMut<V, K>), Out>,
    promise: spec_fn((T, U, V, A, B, C), (U, V), Out) -> bool,
    world: World<R>,
    a: A,
    b: B,
    c: C,
    after: Step<F, (Res<T, I>, ResMut<U, J>, ResMut<V, K>), Out>,
    world_after: World<R>,
    out: Out,
) where R: Apart3<T, I, U, J, V, K>
    requires
        forall|a0: &T, a1: &mut U, a2: &mut V, a3: A, a4: B, a5: C, o: Out|
            #[trigger] call_ensures(step.f, (a0, a1, a2, a3, a4, a5), o)
                ==> promise((*a0, *a1, *a2, a3, a4, a5), (*final(a1), *final(a2)), o),
    ensures
        (forall|a1: &mut U, a2: &mut V|
            *a1 == world.held::<U, J>() && *a2 == world.held::<V, K>()
                ==> #[trigger] call_requires(
                    step.f,
                    (&world.held::<T, I>(), a1, a2, a, b, c),
                )) ==> SplatCall3::<R, A, B, C>::call_splat_pre(&step, world, a, b, c),
        SplatCall3::<R, A, B, C>::call_splat_post(&step, world, a, b, c, after, world_after, out)
            ==> {
            &&& after == step
            &&& exists|held: U, other: V|
                #[trigger] promise(
                    (world.held::<T, I>(), world.held::<U, J>(), world.held::<V, K>(), a, b, c),
                    (held, other),
                    out,
                )
                    && world_after == world.holding::<U, J>(held).holding::<V, K>(other)
        },
{
    if SplatCall3::<R, A, B, C>::call_splat_post(&step, world, a, b, c, after, world_after, out) {
        let (held, other) = choose|held: U, other: V|
            #[trigger] effect_pmmppp(
                step.f,
                &world.held::<T, I>(),
                world.held::<U, J>(),
                world.held::<V, K>(),
                a,
                b,
                c,
                held,
                other,
                out,
            )
                && world_after == world.holding::<U, J>(held).holding::<V, K>(other);
        lemma_effect_pmmppp(
            step.f,
            &world.held::<T, I>(),
            world.held::<U, J>(),
            world.held::<V, K>(),
            a,
            b,
            c,
            held,
            other,
            out,
        );
        assert(promise(
            (world.held::<T, I>(), world.held::<U, J>(), world.held::<V, K>(), a, b, c),
            (held, other),
            out,
        ));
    }
}

/// What a function of three resources promises, its step promises of what the world holds.
pub proof fn lemma_splat3_resmut_res_res<
    R,
    T,
    I,
    U,
    J,
    V,
    K,
    A,
    B,
    C,
    Out,
    F: FnMut(&mut T, &U, &V, A, B, C) -> Out,
>(
    step: Step<F, (ResMut<T, I>, Res<U, J>, Res<V, K>), Out>,
    promise: spec_fn((T, U, V, A, B, C), (T,), Out) -> bool,
    world: World<R>,
    a: A,
    b: B,
    c: C,
    after: Step<F, (ResMut<T, I>, Res<U, J>, Res<V, K>), Out>,
    world_after: World<R>,
    out: Out,
) where R: Apart3<U, J, V, K, T, I>
    requires
        forall|a0: &mut T, a1: &U, a2: &V, a3: A, a4: B, a5: C, o: Out|
            #[trigger] call_ensures(step.f, (a0, a1, a2, a3, a4, a5), o)
                ==> promise((*a0, *a1, *a2, a3, a4, a5), (*final(a0),), o),
    ensures
        (forall|a0: &mut T|
            *a0 == world.held::<T, I>()
                ==> #[trigger] call_requires(
                    step.f,
                    (a0, &world.held::<U, J>(), &world.held::<V, K>(), a, b, c),
                )) ==> SplatCall3::<R, A, B, C>::call_splat_pre(&step, world, a, b, c),
        SplatCall3::<R, A, B, C>::call_splat_post(&step, world, a, b, c, after, world_after, out)
            ==> {
            &&& after == step
            &&& exists|held: T|
                #[trigger] promise(
                    (world.held::<T, I>(), world.held::<U, J>(), world.held::<V, K>(), a, b, c),
                    (held,),
                    out,
                )
                    && world_after == world.holding::<T, I>(held)
        },
{
    if SplatCall3::<R, A, B, C>::call_splat_post(&step, world, a, b, c, after, world_after, out) {
        let held = choose|held: T|
            #[trigger] effect_mppppp(
                step.f,
                world.held::<T, I>(),
                &world.held::<U, J>(),
                &world.held::<V, K>(),
                a,
                b,
                c,
                held,
                out,
            )
                && world_after == world.holding::<T, I>(held);
        lemma_effect_mppppp(
            step.f,
            world.held::<T, I>(),
            &world.held::<U, J>(),
            &world.held::<V, K>(),
            a,
            b,
            c,
            held,
            out,
        );
        assert(promise(
            (world.held::<T, I>(), world.held::<U, J>(), world.held::<V, K>(), a, b, c),
            (held,),
            out,
        ));
    }
}

/// What a function of three resources promises, its step promises of what the world holds.
pub proof fn lemma_splat3_resmut_res_resmut<
    R,
    T,
    I,
    U,
    J,
    V,
    K,
    A,
    B,
    C,
    Out,
    F: FnMut(&mut T, &U, &mut V, A, B, C) -> Out,
>(
    step: Step<F, (ResMut<T, I>, Res<U, J>, ResMut<V, K>), Out>,
    promise: spec_fn((T, U, V, A, B, C), (T, V), Out) -> bool,
    world: World<R>,
    a: A,
    b: B,
    c: C,
    after: Step<F, (ResMut<T, I>, Res<U, J>, ResMut<V, K>), Out>,
    world_after: World<R>,
    out: Out,
) where R: Apart3<U, J, T, I, V, K>
    requires
        forall|a0: &mut T, a1: &U, a2: &mut V, a3: A, a4: B, a5: C, o: Out|
            #[trigger] call_ensures(step.f, (a0, a1, a2, a3, a4, a5), o)
                ==> promise((*a0, *a1, *a2, a3, a4, a5), (*final(a0), *final(a2)), o),
    ensures
        (forall|a0: &mut T, a2: &mut V|
            *a0 == world.held::<T, I>() && *a2 == world.held::<V, K>()
                ==> #[trigger] call_requires(
                    step.f,
                    (a0, &world.held::<U, J>(), a2, a, b, c),
                )) ==> SplatCall3::<R, A, B, C>::call_splat_pre(&step, world, a, b, c),
        SplatCall3::<R, A, B, C>::call_splat_post(&step, world, a, b, c, after, world_after, out)
            ==> {
            &&& after == step
            &&& exists|held: T, other: V|
                #[trigger] promise(
                    (world.held::<T, I>(), world.held::<U, J>(), world.held::<V, K>(), a, b, c),
                    (held, other),
                    out,
                )
                    && world_after == world.holding::<T, I>(held).holding::<V, K>(other)
        },
{
    if SplatCall3::<R, A, B, C>::call_splat_post(&step, world, a, b, c, after, world_after, out) {
        let (held, other) = choose|held: T, other: V|
            #[trigger] effect_mpmppp(
                step.f,
                world.held::<T, I>(),
                &world.held::<U, J>(),
                world.held::<V, K>(),
                a,
                b,
                c,
                held,
                other,
                out,
            )
                && world_after == world.holding::<T, I>(held).holding::<V, K>(other);
        lemma_effect_mpmppp(
            step.f,
            world.held::<T, I>(),
            &world.held::<U, J>(),
            world.held::<V, K>(),
            a,
            b,
            c,
            held,
            other,
            out,
        );
        assert(promise(
            (world.held::<T, I>(), world.held::<U, J>(), world.held::<V, K>(), a, b, c),
            (held, other),
            out,
        ));
    }
}

/// What a function of three resources promises, its step promises of what the world holds.
pub proof fn lemma_splat3_resmut_resmut_res<
    R,
    T,
    I,
    U,
    J,
    V,
    K,
    A,
    B,
    C,
    Out,
    F: FnMut(&mut T, &mut U, &V, A, B, C) -> Out,
>(
    step: Step<F, (ResMut<T, I>, ResMut<U, J>, Res<V, K>), Out>,
    promise: spec_fn((T, U, V, A, B, C), (T, U), Out) -> bool,
    world: World<R>,
    a: A,
    b: B,
    c: C,
    after: Step<F, (ResMut<T, I>, ResMut<U, J>, Res<V, K>), Out>,
    world_after: World<R>,
    out: Out,
) where R: Apart3<V, K, T, I, U, J>
    requires
        forall|a0: &mut T, a1: &mut U, a2: &V, a3: A, a4: B, a5: C, o: Out|
            #[trigger] call_ensures(step.f, (a0, a1, a2, a3, a4, a5), o)
                ==> promise((*a0, *a1, *a2, a3, a4, a5), (*final(a0), *final(a1)), o),
    ensures
        (forall|a0: &mut T, a1: &mut U|
            *a0 == world.held::<T, I>() && *a1 == world.held::<U, J>()
                ==> #[trigger] call_requires(
                    step.f,
                    (a0, a1, &world.held::<V, K>(), a, b, c),
                )) ==> SplatCall3::<R, A, B, C>::call_splat_pre(&step, world, a, b, c),
        SplatCall3::<R, A, B, C>::call_splat_post(&step, world, a, b, c, after, world_after, out)
            ==> {
            &&& after == step
            &&& exists|held: T, other: U|
                #[trigger] promise(
                    (world.held::<T, I>(), world.held::<U, J>(), world.held::<V, K>(), a, b, c),
                    (held, other),
                    out,
                )
                    && world_after == world.holding::<T, I>(held).holding::<U, J>(other)
        },
{
    if SplatCall3::<R, A, B, C>::call_splat_post(&step, world, a, b, c, after, world_after, out) {
        let (held, other) = choose|held: T, other: U|
            #[trigger] effect_mmpppp(
                step.f,
                world.held::<T, I>(),
                world.held::<U, J>(),
                &world.held::<V, K>(),
                a,
                b,
                c,
                held,
                other,
                out,
            )
                && world_after == world.holding::<T, I>(held).holding::<U, J>(other);
        lemma_effect_mmpppp(
            step.f,
            world.held::<T, I>(),
            world.held::<U, J>(),
            &world.held::<V, K>(),
            a,
            b,
            c,
            held,
            other,
            out,
        );
        assert(promise(
            (world.held::<T, I>(), world.held::<U, J>(), world.held::<V, K>(), a, b, c),
            (held, other),
            out,
        ));
    }
}

/// What a function of three resources promises, its step promises of what the world holds.
pub proof fn lemma_splat3_resmut_resmut_resmut<
    R,
    T,
    I,
    U,
    J,
    V,
    K,
    A,
    B,
    C,
    Out,
    F: FnMut(&mut T, &mut U, &mut V, A, B, C) -> Out,
>(
    step: Step<F, (ResMut<T, I>, ResMut<U, J>, ResMut<V, K>), Out>,
    promise: spec_fn((T, U, V, A, B, C), (T, U, V), Out) -> bool,
    world: World<R>,
    a: A,
    b: B,
    c: C,
    after: Step<F, (ResMut<T, I>, ResMut<U, J>, ResMut<V, K>), Out>,
    world_after: World<R>,
    out: Out,
) where R: Apart3<T, I, U, J, V, K>
    requires
        forall|a0: &mut T, a1: &mut U, a2: &mut V, a3: A, a4: B, a5: C, o: Out|
            #[trigger] call_ensures(step.f, (a0, a1, a2, a3, a4, a5), o)
                ==> promise((*a0, *a1, *a2, a3, a4, a5), (*final(a0), *final(a1), *final(a2)), o),
    ensures
        (forall|a0: &mut T, a1: &mut U, a2: &mut V|
            *a0 == world.held::<T, I>()
                && *a1 == world.held::<U, J>()
                && *a2 == world.held::<V, K>()
                ==> #[trigger] call_requires(step.f, (a0, a1, a2, a, b, c)))
                    ==> SplatCall3::<R, A, B, C>::call_splat_pre(&step, world, a, b, c),
        SplatCall3::<R, A, B, C>::call_splat_post(&step, world, a, b, c, after, world_after, out)
            ==> {
            &&& after == step
            &&& exists|held: T, other: U, last: V|
                #[trigger] promise(
                    (world.held::<T, I>(), world.held::<U, J>(), world.held::<V, K>(), a, b, c),
                    (held, other, last),
                    out,
                )
                    && world_after == world.holding::<T, I>(held).holding::<U, J>(other).holding::<V, K>(last)
        },
{
    if SplatCall3::<R, A, B, C>::call_splat_post(&step, world, a, b, c, after, world_after, out) {
        let (held, other, last) = choose|held: T, other: U, last: V|
            #[trigger] effect_mmmppp(
                step.f,
                world.held::<T, I>(),
                world.held::<U, J>(),
                world.held::<V, K>(),
                a,
                b,
                c,
                held,
                other,
                last,
                out,
            )
                && world_after == world.holding::<T, I>(held).holding::<U, J>(other).holding::<V, K>(last);
        lemma_effect_mmmppp(
            step.f,
            world.held::<T, I>(),
            world.held::<U, J>(),
            world.held::<V, K>(),
            a,
            b,
            c,
            held,
            other,
            last,
            out,
        );
        assert(promise(
            (world.held::<T, I>(), world.held::<U, J>(), world.held::<V, K>(), a, b, c),
            (held, other, last),
            out,
        ));
    }
}

/// What a function of its input alone promises, its step promises of what the world holds.
pub proof fn lemma_splat4_unit<R, A, B, C, D, Out, F: FnMut(A, B, C, D) -> Out>(
    step: Step<F, (), Out>,
    promise: spec_fn((A, B, C, D), (), Out) -> bool,
    world: World<R>,
    a: A,
    b: B,
    c: C,
    d: D,
    after: Step<F, (), Out>,
    world_after: World<R>,
    out: Out,
)
    requires
        forall|a0: A, a1: B, a2: C, a3: D, o: Out|
            #[trigger] call_ensures(step.f, (a0, a1, a2, a3), o)
                ==> promise((a0, a1, a2, a3), (), o),
    ensures
        call_requires(step.f, (a, b, c, d))
            ==> SplatCall4::<R, A, B, C, D>::call_splat_pre(&step, world, a, b, c, d),
        SplatCall4::<R, A, B, C, D>::call_splat_post(
            &step,
            world,
            a,
            b,
            c,
            d,
            after,
            world_after,
            out,
        )
            ==> {
            &&& after == step
            &&& world_after == world
            &&& promise((a, b, c, d), (), out)
        },
{
}

/// What a function of one resource promises, its step promises of what the world holds.
pub proof fn lemma_splat4_res<R, T, I, A, B, C, D, Out, F: FnMut(&T, A, B, C, D) -> Out>(
    step: Step<F, Res<T, I>, Out>,
    promise: spec_fn((T, A, B, C, D), (), Out) -> bool,
    world: World<R>,
    a: A,
    b: B,
    c: C,
    d: D,
    after: Step<F, Res<T, I>, Out>,
    world_after: World<R>,
    out: Out,
) where R: Resource<T, I>
    requires
        forall|a0: &T, a1: A, a2: B, a3: C, a4: D, o: Out|
            #[trigger] call_ensures(step.f, (a0, a1, a2, a3, a4), o)
                ==> promise((*a0, a1, a2, a3, a4), (), o),
    ensures
        call_requires(step.f, (&world.held::<T, I>(), a, b, c, d))
            ==> SplatCall4::<R, A, B, C, D>::call_splat_pre(&step, world, a, b, c, d),
        SplatCall4::<R, A, B, C, D>::call_splat_post(
            &step,
            world,
            a,
            b,
            c,
            d,
            after,
            world_after,
            out,
        )
            ==> {
            &&& after == step
            &&& world_after == world
            &&& promise((world.held::<T, I>(), a, b, c, d), (), out)
        },
{
}

/// What a function of one resource promises, its step promises of what the world holds.
pub proof fn lemma_splat4_resmut<R, T, I, A, B, C, D, Out, F: FnMut(&mut T, A, B, C, D) -> Out>(
    step: Step<F, ResMut<T, I>, Out>,
    promise: spec_fn((T, A, B, C, D), (T,), Out) -> bool,
    world: World<R>,
    a: A,
    b: B,
    c: C,
    d: D,
    after: Step<F, ResMut<T, I>, Out>,
    world_after: World<R>,
    out: Out,
) where R: Resource<T, I>
    requires
        forall|a0: &mut T, a1: A, a2: B, a3: C, a4: D, o: Out|
            #[trigger] call_ensures(step.f, (a0, a1, a2, a3, a4), o)
                ==> promise((*a0, a1, a2, a3, a4), (*final(a0),), o),
    ensures
        (forall|a0: &mut T|
            *a0 == world.held::<T, I>()
                ==> #[trigger] call_requires(step.f, (a0, a, b, c, d)))
                    ==> SplatCall4::<R, A, B, C, D>::call_splat_pre(&step, world, a, b, c, d),
        SplatCall4::<R, A, B, C, D>::call_splat_post(
            &step,
            world,
            a,
            b,
            c,
            d,
            after,
            world_after,
            out,
        )
            ==> {
            &&& after == step
            &&& exists|held: T|
                #[trigger] promise((world.held::<T, I>(), a, b, c, d), (held,), out)
                    && world_after == world.holding::<T, I>(held)
        },
{
    if SplatCall4::<R, A, B, C, D>::call_splat_post(
        &step,
        world,
        a,
        b,
        c,
        d,
        after,
        world_after,
        out,
    ) {
        let held = choose|held: T|
            #[trigger] effect_mpppp(step.f, world.held::<T, I>(), a, b, c, d, held, out)
                && world_after == world.holding::<T, I>(held);
        lemma_effect_mpppp(step.f, world.held::<T, I>(), a, b, c, d, held, out);
        assert(promise((world.held::<T, I>(), a, b, c, d), (held,), out));
    }
}

/// What a function of two resources promises, its step promises of what the world holds.
pub proof fn lemma_splat4_res_res<
    R,
    T,
    I,
    U,
    J,
    A,
    B,
    C,
    D,
    Out,
    F: FnMut(&T, &U, A, B, C, D) -> Out,
>(
    step: Step<F, (Res<T, I>, Res<U, J>), Out>,
    promise: spec_fn((T, U, A, B, C, D), (), Out) -> bool,
    world: World<R>,
    a: A,
    b: B,
    c: C,
    d: D,
    after: Step<F, (Res<T, I>, Res<U, J>), Out>,
    world_after: World<R>,
    out: Out,
) where R: Resource<T, I> + Resource<U, J>
    requires
        forall|a0: &T, a1: &U, a2: A, a3: B, a4: C, a5: D, o: Out|
            #[trigger] call_ensures(step.f, (a0, a1, a2, a3, a4, a5), o)
                ==> promise((*a0, *a1, a2, a3, a4, a5), (), o),
    ensures
        call_requires(step.f, (&world.held::<T, I>(), &world.held::<U, J>(), a, b, c, d))
            ==> SplatCall4::<R, A, B, C, D>::call_splat_pre(&step, world, a, b, c, d),
        SplatCall4::<R, A, B, C, D>::call_splat_post(
            &step,
            world,
            a,
            b,
            c,
            d,
            after,
            world_after,
            out,
        )
            ==> {
            &&& after == step
            &&& world_after == world
            &&& promise((world.held::<T, I>(), world.held::<U, J>(), a, b, c, d), (), out)
        },
{
}

/// What a function of two resources promises, its step promises of what the world holds.
pub proof fn lemma_splat4_res_resmut<
    R,
    T,
    I,
    U,
    J,
    A,
    B,
    C,
    D,
    Out,
    F: FnMut(&T, &mut U, A, B, C, D) -> Out,
>(
    step: Step<F, (Res<T, I>, ResMut<U, J>), Out>,
    promise: spec_fn((T, U, A, B, C, D), (U,), Out) -> bool,
    world: World<R>,
    a: A,
    b: B,
    c: C,
    d: D,
    after: Step<F, (Res<T, I>, ResMut<U, J>), Out>,
    world_after: World<R>,
    out: Out,
) where R: Apart<T, I, U, J>
    requires
        forall|a0: &T, a1: &mut U, a2: A, a3: B, a4: C, a5: D, o: Out|
            #[trigger] call_ensures(step.f, (a0, a1, a2, a3, a4, a5), o)
                ==> promise((*a0, *a1, a2, a3, a4, a5), (*final(a1),), o),
    ensures
        (forall|a1: &mut U|
            *a1 == world.held::<U, J>()
                ==> #[trigger] call_requires(
                    step.f,
                    (&world.held::<T, I>(), a1, a, b, c, d),
                )) ==> SplatCall4::<R, A, B, C, D>::call_splat_pre(&step, world, a, b, c, d),
        SplatCall4::<R, A, B, C, D>::call_splat_post(
            &step,
            world,
            a,
            b,
            c,
            d,
            after,
            world_after,
            out,
        )
            ==> {
            &&& after == step
            &&& exists|held: U|
                #[trigger] promise(
                    (world.held::<T, I>(), world.held::<U, J>(), a, b, c, d),
                    (held,),
                    out,
                )
                    && world_after == world.holding::<U, J>(held)
        },
{
    if SplatCall4::<R, A, B, C, D>::call_splat_post(
        &step,
        world,
        a,
        b,
        c,
        d,
        after,
        world_after,
        out,
    ) {
        let held = choose|held: U|
            #[trigger] effect_pmpppp(
                step.f,
                &world.held::<T, I>(),
                world.held::<U, J>(),
                a,
                b,
                c,
                d,
                held,
                out,
            )
                && world_after == world.holding::<U, J>(held);
        lemma_effect_pmpppp(
            step.f,
            &world.held::<T, I>(),
            world.held::<U, J>(),
            a,
            b,
            c,
            d,
            held,
            out,
        );
        assert(promise((world.held::<T, I>(), world.held::<U, J>(), a, b, c, d), (held,), out));
    }
}

/// What a function of two resources promises, its step promises of what the world holds.
pub proof fn lemma_splat4_resmut_res<
    R,
    T,
    I,
    U,
    J,
    A,
    B,
    C,
    D,
    Out,
    F: FnMut(&mut T, &U, A, B, C, D) -> Out,
>(
    step: Step<F, (ResMut<T, I>, Res<U, J>), Out>,
    promise: spec_fn((T, U, A, B, C, D), (T,), Out) -> bool,
    world: World<R>,
    a: A,
    b: B,
    c: C,
    d: D,
    after: Step<F, (ResMut<T, I>, Res<U, J>), Out>,
    world_after: World<R>,
    out: Out,
) where R: Apart<U, J, T, I>
    requires
        forall|a0: &mut T, a1: &U, a2: A, a3: B, a4: C, a5: D, o: Out|
            #[trigger] call_ensures(step.f, (a0, a1, a2, a3, a4, a5), o)
                ==> promise((*a0, *a1, a2, a3, a4, a5), (*final(a0),), o),
    ensures
        (forall|a0: &mut T|
            *a0 == world.held::<T, I>()
                ==> #[trigger] call_requires(
                    step.f,
                    (a0, &world.held::<U, J>(), a, b, c, d),
                )) ==> SplatCall4::<R, A, B, C, D>::call_splat_pre(&step, world, a, b, c, d),
        SplatCall4::<R, A, B, C, D>::call_splat_post(
            &step,
            world,
            a,
            b,
            c,
            d,
            after,
            world_after,
            out,
        )
            ==> {
            &&& after == step
            &&& exists|held: T|
                #[trigger] promise(
                    (world.held::<T, I>(), world.held::<U, J>(), a, b, c, d),
                    (held,),
                    out,
                )
                    && world_after == world.holding::<T, I>(held)
        },
{
    if SplatCall4::<R, A, B, C, D>::call_splat_post(
        &step,
        world,
        a,
        b,
        c,
        d,
        after,
        world_after,
        out,
    ) {
        let held = choose|held: T|
            #[trigger] effect_mppppp(
                step.f,
                world.held::<T, I>(),
                &world.held::<U, J>(),
                a,
                b,
                c,
                d,
                held,
                out,
            )
                && world_after == world.holding::<T, I>(held);
        lemma_effect_mppppp(
            step.f,
            world.held::<T, I>(),
            &world.held::<U, J>(),
            a,
            b,
            c,
            d,
            held,
            out,
        );
        assert(promise((world.held::<T, I>(), world.held::<U, J>(), a, b, c, d), (held,), out));
    }
}

/// What a function of two resources promises, its step promises of what the world holds.
pub proof fn lemma_splat4_resmut_resmut<
    R,
    T,
    I,
    U,
    J,
    A,
    B,
    C,
    D,
    Out,
    F: FnMut(&mut T, &mut U, A, B, C, D) -> Out,
>(
    step: Step<F, (ResMut<T, I>, ResMut<U, J>), Out>,
    promise: spec_fn((T, U, A, B, C, D), (T, U), Out) -> bool,
    world: World<R>,
    a: A,
    b: B,
    c: C,
    d: D,
    after: Step<F, (ResMut<T, I>, ResMut<U, J>), Out>,
    world_after: World<R>,
    out: Out,
) where R: Apart<T, I, U, J>
    requires
        forall|a0: &mut T, a1: &mut U, a2: A, a3: B, a4: C, a5: D, o: Out|
            #[trigger] call_ensures(step.f, (a0, a1, a2, a3, a4, a5), o)
                ==> promise((*a0, *a1, a2, a3, a4, a5), (*final(a0), *final(a1)), o),
    ensures
        (forall|a0: &mut T, a1: &mut U|
            *a0 == world.held::<T, I>() && *a1 == world.held::<U, J>()
                ==> #[trigger] call_requires(step.f, (a0, a1, a, b, c, d)))
                    ==> SplatCall4::<R, A, B, C, D>::call_splat_pre(&step, world, a, b, c, d),
        SplatCall4::<R, A, B, C, D>::call_splat_post(
            &step,
            world,
            a,
            b,
            c,
            d,
            after,
            world_after,
            out,
        )
            ==> {
            &&& after == step
            &&& exists|held: T, other: U|
                #[trigger] promise(
                    (world.held::<T, I>(), world.held::<U, J>(), a, b, c, d),
                    (held, other),
                    out,
                )
                    && world_after == world.holding::<T, I>(held).holding::<U, J>(other)
        },
{
    if SplatCall4::<R, A, B, C, D>::call_splat_post(
        &step,
        world,
        a,
        b,
        c,
        d,
        after,
        world_after,
        out,
    ) {
        let (held, other) = choose|held: T, other: U|
            #[trigger] effect_mmpppp(
                step.f,
                world.held::<T, I>(),
                world.held::<U, J>(),
                a,
                b,
                c,
                d,
                held,
                other,
                out,
            )
                && world_after == world.holding::<T, I>(held).holding::<U, J>(other);
        lemma_effect_mmpppp(
            step.f,
            world.held::<T, I>(),
            world.held::<U, J>(),
            a,
            b,
            c,
            d,
            held,
            other,
            out,
        );
        assert(promise(
            (world.held::<T, I>(), world.held::<U, J>(), a, b, c, d),
            (held, other),
            out,
        ));
    }
}

/// What a function of three resources promises, its step promises of what the world holds.
pub proof fn lemma_splat4_res_res_res<
    R,
    T,
    I,
    U,
    J,
    V,
    K,
    A,
    B,
    C,
    D,
    Out,
    F: FnMut(&T, &U, &V, A, B, C, D) -> Out,
>(
    step: Step<F, (Res<T, I>, Res<U, J>, Res<V, K>), Out>,
    promise: spec_fn((T, U, V, A, B, C, D), (), Out) -> bool,
    world: World<R>,
    a: A,
    b: B,
    c: C,
    d: D,
    after: Step<F, (Res<T, I>, Res<U, J>, Res<V, K>), Out>,
    world_after: World<R>,
    out: Out,
) where R: Resource<T, I> + Resource<U, J> + Resource<V, K>
    requires
        forall|a0: &T, a1: &U, a2: &V, a3: A, a4: B, a5: C, a6: D, o: Out|
            #[trigger] call_ensures(step.f, (a0, a1, a2, a3, a4, a5, a6), o)
                ==> promise((*a0, *a1, *a2, a3, a4, a5, a6), (), o),
    ensures
        call_requires(
            step.f,
            (&world.held::<T, I>(), &world.held::<U, J>(), &world.held::<V, K>(), a, b, c, d),
        )
            ==> SplatCall4::<R, A, B, C, D>::call_splat_pre(&step, world, a, b, c, d),
        SplatCall4::<R, A, B, C, D>::call_splat_post(
            &step,
            world,
            a,
            b,
            c,
            d,
            after,
            world_after,
            out,
        )
            ==> {
            &&& after == step
            &&& world_after == world
            &&& promise(
                (world.held::<T, I>(), world.held::<U, J>(), world.held::<V, K>(), a, b, c, d),
                (),
                out,
            )
        },
{
}

/// What a function of three resources promises, its step promises of what the world holds.
pub proof fn lemma_splat4_res_res_resmut<
    R,
    T,
    I,
    U,
    J,
    V,
    K,
    A,
    B,
    C,
    D,
    Out,
    F: FnMut(&T, &U, &mut V, A, B, C, D) -> Out,
>(
    step: Step<F, (Res<T, I>, Res<U, J>, ResMut<V, K>), Out>,
    promise: spec_fn((T, U, V, A, B, C, D), (V,), Out) -> bool,
    world: World<R>,
    a: A,
    b: B,
    c: C,
    d: D,
    after: Step<F, (Res<T, I>, Res<U, J>, ResMut<V, K>), Out>,
    world_after: World<R>,
    out: Out,
) where R: Apart3<T, I, U, J, V, K>
    requires
        forall|a0: &T, a1: &U, a2: &mut V, a3: A, a4: B, a5: C, a6: D, o: Out|
            #[trigger] call_ensures(step.f, (a0, a1, a2, a3, a4, a5, a6), o)
                ==> promise((*a0, *a1, *a2, a3, a4, a5, a6), (*final(a2),), o),
    ensures
        (forall|a2: &mut V|
            *a2 == world.held::<V, K>()
                ==> #[trigger] call_requires(
                    step.f,
                    (&world.held::<T, I>(), &world.held::<U, J>(), a2, a, b, c, d),
                )) ==> SplatCall4::<R, A, B, C, D>::call_splat_pre(&step, world, a, b, c, d),
        SplatCall4::<R, A, B, C, D>::call_splat_post(
            &step,
            world,
            a,
            b,
            c,
            d,
            after,
            world_after,
            out,
        )
            ==> {
            &&& after == step
            &&& exists|held: V|
                #[trigger] promise(
                    (world.held::<T, I>(), world.held::<U, J>(), world.held::<V, K>(), a, b, c, d),
                    (held,),
                    out,
                )
                    && world_after == world.holding::<V, K>(held)
        },
{
    if SplatCall4::<R, A, B, C, D>::call_splat_post(
        &step,
        world,
        a,
        b,
        c,
        d,
        after,
        world_after,
        out,
    ) {
        let held = choose|held: V|
            #[trigger] effect_ppmpppp(
                step.f,
                &world.held::<T, I>(),
                &world.held::<U, J>(),
                world.held::<V, K>(),
                a,
                b,
                c,
                d,
                held,
                out,
            )
                && world_after == world.holding::<V, K>(held);
        lemma_effect_ppmpppp(
            step.f,
            &world.held::<T, I>(),
            &world.held::<U, J>(),
            world.held::<V, K>(),
            a,
            b,
            c,
            d,
            held,
            out,
        );
        assert(promise(
            (world.held::<T, I>(), world.held::<U, J>(), world.held::<V, K>(), a, b, c, d),
            (held,),
            out,
        ));
    }
}

/// What a function of three resources promises, its step promises of what the world holds.
pub proof fn lemma_splat4_res_resmut_res<
    R,
    T,
    I,
    U,
    J,
    V,
    K,
    A,
    B,
    C,
    D,
    Out,
    F: FnMut(&T, &mut U, &V, A, B, C, D) -> Out,
>(
    step: Step<F, (Res<T, I>, ResMut<U, J>, Res<V, K>), Out>,
    promise: spec_fn((T, U, V, A, B, C, D), (U,), Out) -> bool,
    world: World<R>,
    a: A,
    b: B,
    c: C,
    d: D,
    after: Step<F, (Res<T, I>, ResMut<U, J>, Res<V, K>), Out>,
    world_after: World<R>,
    out: Out,
) where R: Apart3<T, I, V, K, U, J>
    requires
        forall|a0: &T, a1: &mut U, a2: &V, a3: A, a4: B, a5: C, a6: D, o: Out|
            #[trigger] call_ensures(step.f, (a0, a1, a2, a3, a4, a5, a6), o)
                ==> promise((*a0, *a1, *a2, a3, a4, a5, a6), (*final(a1),), o),
    ensures
        (forall|a1: &mut U|
            *a1 == world.held::<U, J>()
                ==> #[trigger] call_requires(
                    step.f,
                    (&world.held::<T, I>(), a1, &world.held::<V, K>(), a, b, c, d),
                )) ==> SplatCall4::<R, A, B, C, D>::call_splat_pre(&step, world, a, b, c, d),
        SplatCall4::<R, A, B, C, D>::call_splat_post(
            &step,
            world,
            a,
            b,
            c,
            d,
            after,
            world_after,
            out,
        )
            ==> {
            &&& after == step
            &&& exists|held: U|
                #[trigger] promise(
                    (world.held::<T, I>(), world.held::<U, J>(), world.held::<V, K>(), a, b, c, d),
                    (held,),
                    out,
                )
                    && world_after == world.holding::<U, J>(held)
        },
{
    if SplatCall4::<R, A, B, C, D>::call_splat_post(
        &step,
        world,
        a,
        b,
        c,
        d,
        after,
        world_after,
        out,
    ) {
        let held = choose|held: U|
            #[trigger] effect_pmppppp(
                step.f,
                &world.held::<T, I>(),
                world.held::<U, J>(),
                &world.held::<V, K>(),
                a,
                b,
                c,
                d,
                held,
                out,
            )
                && world_after == world.holding::<U, J>(held);
        lemma_effect_pmppppp(
            step.f,
            &world.held::<T, I>(),
            world.held::<U, J>(),
            &world.held::<V, K>(),
            a,
            b,
            c,
            d,
            held,
            out,
        );
        assert(promise(
            (world.held::<T, I>(), world.held::<U, J>(), world.held::<V, K>(), a, b, c, d),
            (held,),
            out,
        ));
    }
}

/// What a function of three resources promises, its step promises of what the world holds.
pub proof fn lemma_splat4_res_resmut_resmut<
    R,
    T,
    I,
    U,
    J,
    V,
    K,
    A,
    B,
    C,
    D,
    Out,
    F: FnMut(&T, &mut U, &mut V, A, B, C, D) -> Out,
>(
    step: Step<F, (Res<T, I>, ResMut<U, J>, ResMut<V, K>), Out>,
    promise: spec_fn((T, U, V, A, B, C, D), (U, V), Out) -> bool,
    world: World<R>,
    a: A,
    b: B,
    c: C,
    d: D,
    after: Step<F, (Res<T, I>, ResMut<U, J>, ResMut<V, K>), Out>,
    world_after: World<R>,
    out: Out,
) where R: Apart3<T, I, U, J, V, K>
    requires
        forall|a0: &T, a1: &mut U, a2: &mut V, a3: A, a4: B, a5: C, a6: D, o: Out|
            #[trigger] call_ensures(step.f, (a0, a1, a2, a3, a4, a5, a6), o)
                ==> promise((*a0, *a1, *a2, a3, a4, a5, a6), (*final(a1), *final(a2)), o),
    ensures
        (forall|a1: &mut U, a2: &mut V|
            *a1 == world.held::<U, J>() && *a2 == world.held::<V, K>()
                ==> #[trigger] call_requires(
                    step.f,
                    (&world.held::<T, I>(), a1, a2, a, b, c, d),
                )) ==> SplatCall4::<R, A, B, C, D>::call_splat_pre(&step, world, a, b, c, d),
        SplatCall4::<R, A, B, C, D>::call_splat_post(
            &step,
            world,
            a,
            b,
            c,
            d,
            after,
            world_after,
            out,
        )
            ==> {
            &&& after == step
            &&& exists|held: U, other: V|
                #[trigger] promise(
                    (world.held::<T, I>(), world.held::<U, J>(), world.held::<V, K>(), a, b, c, d),
                    (held, other),
                    out,
                )
                    && world_after == world.holding::<U, J>(held).holding::<V, K>(other)
        },
{
    if SplatCall4::<R, A, B, C, D>::call_splat_post(
        &step,
        world,
        a,
        b,
        c,
        d,
        after,
        world_after,
        out,
    ) {
        let (held, other) = choose|held: U, other: V|
            #[trigger] effect_pmmpppp(
                step.f,
                &world.held::<T, I>(),
                world.held::<U, J>(),
                world.held::<V, K>(),
                a,
                b,
                c,
                d,
                held,
                other,
                out,
            )
                && world_after == world.holding::<U, J>(held).holding::<V, K>(other);
        lemma_effect_pmmpppp(
            step.f,
            &world.held::<T, I>(),
            world.held::<U, J>(),
            world.held::<V, K>(),
            a,
            b,
            c,
            d,
            held,
            other,
            out,
        );
        assert(promise(
            (world.held::<T, I>(), world.held::<U, J>(), world.held::<V, K>(), a, b, c, d),
            (held, other),
            out,
        ));
    }
}

/// What a function of three resources promises, its step promises of what the world holds.
pub proof fn lemma_splat4_resmut_res_res<
    R,
    T,
    I,
    U,
    J,
    V,
    K,
    A,
    B,
    C,
    D,
    Out,
    F: FnMut(&mut T, &U, &V, A, B, C, D) -> Out,
>(
    step: Step<F, (ResMut<T, I>, Res<U, J>, Res<V, K>), Out>,
    promise: spec_fn((T, U, V, A, B, C, D), (T,), Out) -> bool,
    world: World<R>,
    a: A,
    b: B,
    c: C,
    d: D,
    after: Step<F, (ResMut<T, I>, Res<U, J>, Res<V, K>), Out>,
    world_after: World<R>,
    out: Out,
) where R: Apart3<U, J, V, K, T, I>
    requires
        forall|a0: &mut T, a1: &U, a2: &V, a3: A, a4: B, a5: C, a6: D, o: Out|
            #[trigger] call_ensures(step.f, (a0, a1, a2, a3, a4, a5, a6), o)
                ==> promise((*a0, *a1, *a2, a3, a4, a5, a6), (*final(a0),), o),
    ensures
        (forall|a0: &mut T|
            *a0 == world.held::<T, I>()
                ==> #[trigger] call_requires(
                    step.f,
                    (a0, &world.held::<U, J>(), &world.held::<V, K>(), a, b, c, d),
                )) ==> SplatCall4::<R, A, B, C, D>::call_splat_pre(&step, world, a, b, c, d),
        SplatCall4::<R, A, B, C, D>::call_splat_post(
            &step,
            world,
            a,
            b,
            c,
            d,
            after,
            world_after,
            out,
        )
            ==> {
            &&& after == step
            &&& exists|held: T|
                #[trigger] promise(
                    (world.held::<T, I>(), world.held::<U, J>(), world.held::<V, K>(), a, b, c, d),
                    (held,),
                    out,
                )
                    && world_after == world.holding::<T, I>(held)
        },
{
    if SplatCall4::<R, A, B, C, D>::call_splat_post(
        &step,
        world,
        a,
        b,
        c,
        d,
        after,
        world_after,
        out,
    ) {
        let held = choose|held: T|
            #[trigger] effect_mpppppp(
                step.f,
                world.held::<T, I>(),
                &world.held::<U, J>(),
                &world.held::<V, K>(),
                a,
                b,
                c,
                d,
                held,
                out,
            )
                && world_after == world.holding::<T, I>(held);
        lemma_effect_mpppppp(
            step.f,
            world.held::<T, I>(),
            &world.held::<U, J>(),
            &world.held::<V, K>(),
            a,
            b,
            c,
            d,
            held,
            out,
        );
        assert(promise(
            (world.held::<T, I>(), world.held::<U, J>(), world.held::<V, K>(), a, b, c, d),
            (held,),
            out,
        ));
    }
}

/// What a function of three resources promises, its step promises of what the world holds.
pub proof fn lemma_splat4_resmut_res_resmut<
    R,
    T,
    I,
    U,
    J,
    V,
    K,
    A,
    B,
    C,
    D,
    Out,
    F: FnMut(&mut T, &U, &mut V, A, B, C, D) -> Out,
>(
    step: Step<F, (ResMut<T, I>, Res<U, J>, ResMut<V, K>), Out>,
    promise: spec_fn((T, U, V, A, B, C, D), (T, V), Out) -> bool,
    world: World<R>,
    a: A,
    b: B,
    c: C,
    d: D,
    after: Step<F, (ResMut<T, I>, Res<U, J>, ResMut<V, K>), Out>,
    world_after: World<R>,
    out: Out,
) where R: Apart3<U, J, T, I, V, K>
    requires
        forall|a0: &mut T, a1: &U, a2: &mut V, a3: A, a4: B, a5: C, a6: D, o: Out|
            #[trigger] call_ensures(step.f, (a0, a1, a2, a3, a4, a5, a6), o)
                ==> promise((*a0, *a1, *a2, a3, a4, a5, a6), (*final(a0), *final(a2)), o),
    ensures
        (forall|a0: &mut T, a2: &mut V|
            *a0 == world.held::<T, I>() && *a2 == world.held::<V, K>()
                ==> #[trigger] call_requires(
                    step.f,
                    (a0, &world.held::<U, J>(), a2, a, b, c, d),
                )) ==> SplatCall4::<R, A, B, C, D>::call_splat_pre(&step, world, a, b, c, d),
        SplatCall4::<R, A, B, C, D>::call_splat_post(
            &step,
            world,
            a,
            b,
            c,
            d,
            after,
            world_after,
            out,
        )
            ==> {
            &&& after == step
            &&& exists|held: T, other: V|
                #[trigger] promise(
                    (world.held::<T, I>(), world.held::<U, J>(), world.held::<V, K>(), a, b, c, d),
                    (held, other),
                    out,
                )
                    && world_after == world.holding::<T, I>(held).holding::<V, K>(other)
        },
{
    if SplatCall4::<R, A, B, C, D>::call_splat_post(
        &step,
        world,
        a,
        b,
        c,
        d,
        after,
        world_after,
        out,
    ) {
        let (held, other) = choose|held: T, other: V|
            #[trigger] effect_mpmpppp(
                step.f,
                world.held::<T, I>(),
                &world.held::<U, J>(),
                world.held::<V, K>(),
                a,
                b,
                c,
                d,
                held,
                other,
                out,
            )
                && world_after == world.holding::<T, I>(held).holding::<V, K>(other);
        lemma_effect_mpmpppp(
            step.f,
            world.held::<T, I>(),
            &world.held::<U, J>(),
            world.held::<V, K>(),
            a,
            b,
            c,
            d,
            held,
            other,
            out,
        );
        assert(promise(
            (world.held::<T, I>(), world.held::<U, J>(), world.held::<V, K>(), a, b, c, d),
            (held, other),
            out,
        ));
    }
}

/// What a function of three resources promises, its step promises of what the world holds.
pub proof fn lemma_splat4_resmut_resmut_res<
    R,
    T,
    I,
    U,
    J,
    V,
    K,
    A,
    B,
    C,
    D,
    Out,
    F: FnMut(&mut T, &mut U, &V, A, B, C, D) -> Out,
>(
    step: Step<F, (ResMut<T, I>, ResMut<U, J>, Res<V, K>), Out>,
    promise: spec_fn((T, U, V, A, B, C, D), (T, U), Out) -> bool,
    world: World<R>,
    a: A,
    b: B,
    c: C,
    d: D,
    after: Step<F, (ResMut<T, I>, ResMut<U, J>, Res<V, K>), Out>,
    world_after: World<R>,
    out: Out,
) where R: Apart3<V, K, T, I, U, J>
    requires
        forall|a0: &mut T, a1: &mut U, a2: &V, a3: A, a4: B, a5: C, a6: D, o: Out|
            #[trigger] call_ensures(step.f, (a0, a1, a2, a3, a4, a5, a6), o)
                ==> promise((*a0, *a1, *a2, a3, a4, a5, a6), (*final(a0), *final(a1)), o),
    ensures
        (forall|a0: &mut T, a1: &mut U|
            *a0 == world.held::<T, I>() && *a1 == world.held::<U, J>()
                ==> #[trigger] call_requires(
                    step.f,
                    (a0, a1, &world.held::<V, K>(), a, b, c, d),
                )) ==> SplatCall4::<R, A, B, C, D>::call_splat_pre(&step, world, a, b, c, d),
        SplatCall4::<R, A, B, C, D>::call_splat_post(
            &step,
            world,
            a,
            b,
            c,
            d,
            after,
            world_after,
            out,
        )
            ==> {
            &&& after == step
            &&& exists|held: T, other: U|
                #[trigger] promise(
                    (world.held::<T, I>(), world.held::<U, J>(), world.held::<V, K>(), a, b, c, d),
                    (held, other),
                    out,
                )
                    && world_after == world.holding::<T, I>(held).holding::<U, J>(other)
        },
{
    if SplatCall4::<R, A, B, C, D>::call_splat_post(
        &step,
        world,
        a,
        b,
        c,
        d,
        after,
        world_after,
        out,
    ) {
        let (held, other) = choose|held: T, other: U|
            #[trigger] effect_mmppppp(
                step.f,
                world.held::<T, I>(),
                world.held::<U, J>(),
                &world.held::<V, K>(),
                a,
                b,
                c,
                d,
                held,
                other,
                out,
            )
                && world_after == world.holding::<T, I>(held).holding::<U, J>(other);
        lemma_effect_mmppppp(
            step.f,
            world.held::<T, I>(),
            world.held::<U, J>(),
            &world.held::<V, K>(),
            a,
            b,
            c,
            d,
            held,
            other,
            out,
        );
        assert(promise(
            (world.held::<T, I>(), world.held::<U, J>(), world.held::<V, K>(), a, b, c, d),
            (held, other),
            out,
        ));
    }
}

/// What a function of three resources promises, its step promises of what the world holds.
pub proof fn lemma_splat4_resmut_resmut_resmut<
    R,
    T,
    I,
    U,
    J,
    V,
    K,
    A,
    B,
    C,
    D,
    Out,
    F: FnMut(&mut T, &mut U, &mut V, A, B, C, D) -> Out,
>(
    step: Step<F, (ResMut<T, I>, ResMut<U, J>, ResMut<V, K>), Out>,
    promise: spec_fn((T, U, V, A, B, C, D), (T, U, V), Out) -> bool,
    world: World<R>,
    a: A,
    b: B,
    c: C,
    d: D,
    after: Step<F, (ResMut<T, I>, ResMut<U, J>, ResMut<V, K>), Out>,
    world_after: World<R>,
    out: Out,
) where R: Apart3<T, I, U, J, V, K>
    requires
        forall|a0: &mut T, a1: &mut U, a2: &mut V, a3: A, a4: B, a5: C, a6: D, o: Out|
            #[trigger] call_ensures(step.f, (a0, a1, a2, a3, a4, a5, a6), o)
                ==> promise(
                    (*a0, *a1, *a2, a3, a4, a5, a6),
                    (*final(a0), *final(a1), *final(a2)),
                    o,
                ),
    ensures
        (forall|a0: &mut T, a1: &mut U, a2: &mut V|
            *a0 == world.held::<T, I>()
                && *a1 == world.held::<U, J>()
                && *a2 == world.held::<V, K>()
                ==> #[trigger] call_requires(step.f, (a0, a1, a2, a, b, c, d)))
                    ==> SplatCall4::<R, A, B, C, D>::call_splat_pre(&step, world, a, b, c, d),
        SplatCall4::<R, A, B, C, D>::call_splat_post(
            &step,
            world,
            a,
            b,
            c,
            d,
            after,
            world_after,
            out,
        )
            ==> {
            &&& after == step
            &&& exists|held: T, other: U, last: V|
                #[trigger] promise(
                    (world.held::<T, I>(), world.held::<U, J>(), world.held::<V, K>(), a, b, c, d),
                    (held, other, last),
                    out,
                )
                    && world_after == world.holding::<T, I>(held).holding::<U, J>(other).holding::<V, K>(last)
        },
{
    if SplatCall4::<R, A, B, C, D>::call_splat_post(
        &step,
        world,
        a,
        b,
        c,
        d,
        after,
        world_after,
        out,
    ) {
        let (held, other, last) = choose|held: T, other: U, last: V|
            #[trigger] effect_mmmpppp(
                step.f,
                world.held::<T, I>(),
                world.held::<U, J>(),
                world.held::<V, K>(),
                a,
                b,
                c,
                d,
                held,
                other,
                last,
                out,
            )
                && world_after == world.holding::<T, I>(held).holding::<U, J>(other).holding::<V, K>(last);
        lemma_effect_mmmpppp(
            step.f,
            world.held::<T, I>(),
            world.held::<U, J>(),
            world.held::<V, K>(),
            a,
            b,
            c,
            d,
            held,
            other,
            last,
            out,
        );
        assert(promise(
            (world.held::<T, I>(), world.held::<U, J>(), world.held::<V, K>(), a, b, c, d),
            (held, other, last),
            out,
        ));
    }
}

/// What a function of its input alone promises, its step promises of what the world holds.
pub proof fn lemma_splat5_unit<R, A, B, C, D, E, Out, F: FnMut(A, B, C, D, E) -> Out>(
    step: Step<F, (), Out>,
    promise: spec_fn((A, B, C, D, E), (), Out) -> bool,
    world: World<R>,
    a: A,
    b: B,
    c: C,
    d: D,
    e: E,
    after: Step<F, (), Out>,
    world_after: World<R>,
    out: Out,
)
    requires
        forall|a0: A, a1: B, a2: C, a3: D, a4: E, o: Out|
            #[trigger] call_ensures(step.f, (a0, a1, a2, a3, a4), o)
                ==> promise((a0, a1, a2, a3, a4), (), o),
    ensures
        call_requires(step.f, (a, b, c, d, e))
            ==> SplatCall5::<R, A, B, C, D, E>::call_splat_pre(&step, world, a, b, c, d, e),
        SplatCall5::<R, A, B, C, D, E>::call_splat_post(
            &step,
            world,
            a,
            b,
            c,
            d,
            e,
            after,
            world_after,
            out,
        )
            ==> {
            &&& after == step
            &&& world_after == world
            &&& promise((a, b, c, d, e), (), out)
        },
{
}

/// What a function of one resource promises, its step promises of what the world holds.
pub proof fn lemma_splat5_res<R, T, I, A, B, C, D, E, Out, F: FnMut(&T, A, B, C, D, E) -> Out>(
    step: Step<F, Res<T, I>, Out>,
    promise: spec_fn((T, A, B, C, D, E), (), Out) -> bool,
    world: World<R>,
    a: A,
    b: B,
    c: C,
    d: D,
    e: E,
    after: Step<F, Res<T, I>, Out>,
    world_after: World<R>,
    out: Out,
) where R: Resource<T, I>
    requires
        forall|a0: &T, a1: A, a2: B, a3: C, a4: D, a5: E, o: Out|
            #[trigger] call_ensures(step.f, (a0, a1, a2, a3, a4, a5), o)
                ==> promise((*a0, a1, a2, a3, a4, a5), (), o),
    ensures
        call_requires(step.f, (&world.held::<T, I>(), a, b, c, d, e))
            ==> SplatCall5::<R, A, B, C, D, E>::call_splat_pre(&step, world, a, b, c, d, e),
        SplatCall5::<R, A, B, C, D, E>::call_splat_post(
            &step,
            world,
            a,
            b,
            c,
            d,
            e,
            after,
            world_after,
            out,
        )
            ==> {
            &&& after == step
            &&& world_after == world
            &&& promise((world.held::<T, I>(), a, b, c, d, e), (), out)
        },
{
}

/// What a function of one resource promises, its step promises of what the world holds.
pub proof fn lemma_splat5_resmut<
    R,
    T,
    I,
    A,
    B,
    C,
    D,
    E,
    Out,
    F: FnMut(&mut T, A, B, C, D, E) -> Out,
>(
    step: Step<F, ResMut<T, I>, Out>,
    promise: spec_fn((T, A, B, C, D, E), (T,), Out) -> bool,
    world: World<R>,
    a: A,
    b: B,
    c: C,
    d: D,
    e: E,
    after: Step<F, ResMut<T, I>, Out>,
    world_after: World<R>,
    out: Out,
) where R: Resource<T, I>
    requires
        forall|a0: &mut T, a1: A, a2: B, a3: C, a4: D, a5: E, o: Out|
            #[trigger] call_ensures(step.f, (a0, a1, a2, a3, a4, a5), o)
                ==> promise((*a0, a1, a2, a3, a4, a5), (*final(a0),), o),
    ensures
        (forall|a0: &mut T|
            *a0 == world.held::<T, I>()
                ==> #[trigger] call_requires(step.f, (a0, a, b, c, d, e)))
                    ==> SplatCall5::<R, A, B, C, D, E>::call_splat_pre(&step, world, a, b, c, d, e),
        SplatCall5::<R, A, B, C, D, E>::call_splat_post(
            &step,
            world,
            a,
            b,
            c,
            d,
            e,
            after,
            world_after,
            out,
        )
            ==> {
            &&& after == step
            &&& exists|held: T|
                #[trigger] promise((world.held::<T, I>(), a, b, c, d, e), (held,), out)
                    && world_after == world.holding::<T, I>(held)
        },
{
    if SplatCall5::<R, A, B, C, D, E>::call_splat_post(
        &step,
        world,
        a,
        b,
        c,
        d,
        e,
        after,
        world_after,
        out,
    ) {
        let held = choose|held: T|
            #[trigger] effect_mppppp(step.f, world.held::<T, I>(), a, b, c, d, e, held, out)
                && world_after == world.holding::<T, I>(held);
        lemma_effect_mppppp(step.f, world.held::<T, I>(), a, b, c, d, e, held, out);
        assert(promise((world.held::<T, I>(), a, b, c, d, e), (held,), out));
    }
}

/// What a function of two resources promises, its step promises of what the world holds.
pub proof fn lemma_splat5_res_res<
    R,
    T,
    I,
    U,
    J,
    A,
    B,
    C,
    D,
    E,
    Out,
    F: FnMut(&T, &U, A, B, C, D, E) -> Out,
>(
    step: Step<F, (Res<T, I>, Res<U, J>), Out>,
    promise: spec_fn((T, U, A, B, C, D, E), (), Out) -> bool,
    world: World<R>,
    a: A,
    b: B,
    c: C,
    d: D,
    e: E,
    after: Step<F, (Res<T, I>, Res<U, J>), Out>,
    world_after: World<R>,
    out: Out,
) where R: Resource<T, I> + Resource<U, J>
    requires
        forall|a0: &T, a1: &U, a2: A, a3: B, a4: C, a5: D, a6: E, o: Out|
            #[trigger] call_ensures(step.f, (a0, a1, a2, a3, a4, a5, a6), o)
                ==> promise((*a0, *a1, a2, a3, a4, a5, a6), (), o),
    ensures
        call_requires(step.f, (&world.held::<T, I>(), &world.held::<U, J>(), a, b, c, d, e))
            ==> SplatCall5::<R, A, B, C, D, E>::call_splat_pre(&step, world, a, b, c, d, e),
        SplatCall5::<R, A, B, C, D, E>::call_splat_post(
            &step,
            world,
            a,
            b,
            c,
            d,
            e,
            after,
            world_after,
            out,
        )
            ==> {
            &&& after == step
            &&& world_after == world
            &&& promise((world.held::<T, I>(), world.held::<U, J>(), a, b, c, d, e), (), out)
        },
{
}

/// What a function of two resources promises, its step promises of what the world holds.
pub proof fn lemma_splat5_res_resmut<
    R,
    T,
    I,
    U,
    J,
    A,
    B,
    C,
    D,
    E,
    Out,
    F: FnMut(&T, &mut U, A, B, C, D, E) -> Out,
>(
    step: Step<F, (Res<T, I>, ResMut<U, J>), Out>,
    promise: spec_fn((T, U, A, B, C, D, E), (U,), Out) -> bool,
    world: World<R>,
    a: A,
    b: B,
    c: C,
    d: D,
    e: E,
    after: Step<F, (Res<T, I>, ResMut<U, J>), Out>,
    world_after: World<R>,
    out: Out,
) where R: Apart<T, I, U, J>
    requires
        forall|a0: &T, a1: &mut U, a2: A, a3: B, a4: C, a5: D, a6: E, o: Out|
            #[trigger] call_ensures(step.f, (a0, a1, a2, a3, a4, a5, a6), o)
                ==> promise((*a0, *a1, a2, a3, a4, a5, a6), (*final(a1),), o),
    ensures
        (forall|a1: &mut U|
            *a1 == world.held::<U, J>()
                ==> #[trigger] call_requires(
                    step.f,
                    (&world.held::<T, I>(), a1, a, b, c, d, e),
                )) ==> SplatCall5::<R, A, B, C, D, E>::call_splat_pre(&step, world, a, b, c, d, e),
        SplatCall5::<R, A, B, C, D, E>::call_splat_post(
            &step,
            world,
            a,
            b,
            c,
            d,
            e,
            after,
            world_after,
            out,
        )
            ==> {
            &&& after == step
            &&& exists|held: U|
                #[trigger] promise(
                    (world.held::<T, I>(), world.held::<U, J>(), a, b, c, d, e),
                    (held,),
                    out,
                )
                    && world_after == world.holding::<U, J>(held)
        },
{
    if SplatCall5::<R, A, B, C, D, E>::call_splat_post(
        &step,
        world,
        a,
        b,
        c,
        d,
        e,
        after,
        world_after,
        out,
    ) {
        let held = choose|held: U|
            #[trigger] effect_pmppppp(
                step.f,
                &world.held::<T, I>(),
                world.held::<U, J>(),
                a,
                b,
                c,
                d,
                e,
                held,
                out,
            )
                && world_after == world.holding::<U, J>(held);
        lemma_effect_pmppppp(
            step.f,
            &world.held::<T, I>(),
            world.held::<U, J>(),
            a,
            b,
            c,
            d,
            e,
            held,
            out,
        );
        assert(promise((world.held::<T, I>(), world.held::<U, J>(), a, b, c, d, e), (held,), out));
    }
}

/// What a function of two resources promises, its step promises of what the world holds.
pub proof fn lemma_splat5_resmut_res<
    R,
    T,
    I,
    U,
    J,
    A,
    B,
    C,
    D,
    E,
    Out,
    F: FnMut(&mut T, &U, A, B, C, D, E) -> Out,
>(
    step: Step<F, (ResMut<T, I>, Res<U, J>), Out>,
    promise: spec_fn((T, U, A, B, C, D, E), (T,), Out) -> bool,
    world: World<R>,
    a: A,
    b: B,
    c: C,
    d: D,
    e: E,
    after: Step<F, (ResMut<T, I>, Res<U, J>), Out>,
    world_after: World<R>,
    out: Out,
) where R: Apart<U, J, T, I>
    requires
        forall|a0: &mut T, a1: &U, a2: A, a3: B, a4: C, a5: D, a6: E, o: Out|
            #[trigger] call_ensures(step.f, (a0, a1, a2, a3, a4, a5, a6), o)
                ==> promise((*a0, *a1, a2, a3, a4, a5, a6), (*final(a0),), o),
    ensures
        (forall|a0: &mut T|
            *a0 == world.held::<T, I>()
                ==> #[trigger] call_requires(
                    step.f,
                    (a0, &world.held::<U, J>(), a, b, c, d, e),
                )) ==> SplatCall5::<R, A, B, C, D, E>::call_splat_pre(&step, world, a, b, c, d, e),
        SplatCall5::<R, A, B, C, D, E>::call_splat_post(
            &step,
            world,
            a,
            b,
            c,
            d,
            e,
            after,
            world_after,
            out,
        )
            ==> {
            &&& after == step
            &&& exists|held: T|
                #[trigger] promise(
                    (world.held::<T, I>(), world.held::<U, J>(), a, b, c, d, e),
                    (held,),
                    out,
                )
                    && world_after == world.holding::<T, I>(held)
        },
{
    if SplatCall5::<R, A, B, C, D, E>::call_splat_post(
        &step,
        world,
        a,
        b,
        c,
        d,
        e,
        after,
        world_after,
        out,
    ) {
        let held = choose|held: T|
            #[trigger] effect_mpppppp(
                step.f,
                world.held::<T, I>(),
                &world.held::<U, J>(),
                a,
                b,
                c,
                d,
                e,
                held,
                out,
            )
                && world_after == world.holding::<T, I>(held);
        lemma_effect_mpppppp(
            step.f,
            world.held::<T, I>(),
            &world.held::<U, J>(),
            a,
            b,
            c,
            d,
            e,
            held,
            out,
        );
        assert(promise((world.held::<T, I>(), world.held::<U, J>(), a, b, c, d, e), (held,), out));
    }
}

/// What a function of two resources promises, its step promises of what the world holds.
pub proof fn lemma_splat5_resmut_resmut<
    R,
    T,
    I,
    U,
    J,
    A,
    B,
    C,
    D,
    E,
    Out,
    F: FnMut(&mut T, &mut U, A, B, C, D, E) -> Out,
>(
    step: Step<F, (ResMut<T, I>, ResMut<U, J>), Out>,
    promise: spec_fn((T, U, A, B, C, D, E), (T, U), Out) -> bool,
    world: World<R>,
    a: A,
    b: B,
    c: C,
    d: D,
    e: E,
    after: Step<F, (ResMut<T, I>, ResMut<U, J>), Out>,
    world_after: World<R>,
    out: Out,
) where R: Apart<T, I, U, J>
    requires
        forall|a0: &mut T, a1: &mut U, a2: A, a3: B, a4: C, a5: D, a6: E, o: Out|
            #[trigger] call_ensures(step.f, (a0, a1, a2, a3, a4, a5, a6), o)
                ==> promise((*a0, *a1, a2, a3, a4, a5, a6), (*final(a0), *final(a1)), o),
    ensures
        (forall|a0: &mut T, a1: &mut U|
            *a0 == world.held::<T, I>() && *a1 == world.held::<U, J>()
                ==> #[trigger] call_requires(step.f, (a0, a1, a, b, c, d, e)))
                    ==> SplatCall5::<R, A, B, C, D, E>::call_splat_pre(&step, world, a, b, c, d, e),
        SplatCall5::<R, A, B, C, D, E>::call_splat_post(
            &step,
            world,
            a,
            b,
            c,
            d,
            e,
            after,
            world_after,
            out,
        )
            ==> {
            &&& after == step
            &&& exists|held: T, other: U|
                #[trigger] promise(
                    (world.held::<T, I>(), world.held::<U, J>(), a, b, c, d, e),
                    (held, other),
                    out,
                )
                    && world_after == world.holding::<T, I>(held).holding::<U, J>(other)
        },
{
    if SplatCall5::<R, A, B, C, D, E>::call_splat_post(
        &step,
        world,
        a,
        b,
        c,
        d,
        e,
        after,
        world_after,
        out,
    ) {
        let (held, other) = choose|held: T, other: U|
            #[trigger] effect_mmppppp(
                step.f,
                world.held::<T, I>(),
                world.held::<U, J>(),
                a,
                b,
                c,
                d,
                e,
                held,
                other,
                out,
            )
                && world_after == world.holding::<T, I>(held).holding::<U, J>(other);
        lemma_effect_mmppppp(
            step.f,
            world.held::<T, I>(),
            world.held::<U, J>(),
            a,
            b,
            c,
            d,
            e,
            held,
            other,
            out,
        );
        assert(promise(
            (world.held::<T, I>(), world.held::<U, J>(), a, b, c, d, e),
            (held, other),
            out,
        ));
    }
}

/// What a function of three resources promises, its step promises of what the world holds.
pub proof fn lemma_splat5_res_res_res<
    R,
    T,
    I,
    U,
    J,
    V,
    K,
    A,
    B,
    C,
    D,
    E,
    Out,
    F: FnMut(&T, &U, &V, A, B, C, D, E) -> Out,
>(
    step: Step<F, (Res<T, I>, Res<U, J>, Res<V, K>), Out>,
    promise: spec_fn((T, U, V, A, B, C, D, E), (), Out) -> bool,
    world: World<R>,
    a: A,
    b: B,
    c: C,
    d: D,
    e: E,
    after: Step<F, (Res<T, I>, Res<U, J>, Res<V, K>), Out>,
    world_after: World<R>,
    out: Out,
) where R: Resource<T, I> + Resource<U, J> + Resource<V, K>
    requires
        forall|a0: &T, a1: &U, a2: &V, a3: A, a4: B, a5: C, a6: D, a7: E, o: Out|
            #[trigger] call_ensures(step.f, (a0, a1, a2, a3, a4, a5, a6, a7), o)
                ==> promise((*a0, *a1, *a2, a3, a4, a5, a6, a7), (), o),
    ensures
        call_requires(
            step.f,
            (&world.held::<T, I>(), &world.held::<U, J>(), &world.held::<V, K>(), a, b, c, d, e),
        )
            ==> SplatCall5::<R, A, B, C, D, E>::call_splat_pre(&step, world, a, b, c, d, e),
        SplatCall5::<R, A, B, C, D, E>::call_splat_post(
            &step,
            world,
            a,
            b,
            c,
            d,
            e,
            after,
            world_after,
            out,
        )
            ==> {
            &&& after == step
            &&& world_after == world
            &&& promise(
                (world.held::<T, I>(), world.held::<U, J>(), world.held::<V, K>(), a, b, c, d, e),
                (),
                out,
            )
        },
{
}

/// What a function of three resources promises, its step promises of what the world holds.
pub proof fn lemma_splat5_res_res_resmut<
    R,
    T,
    I,
    U,
    J,
    V,
    K,
    A,
    B,
    C,
    D,
    E,
    Out,
    F: FnMut(&T, &U, &mut V, A, B, C, D, E) -> Out,
>(
    step: Step<F, (Res<T, I>, Res<U, J>, ResMut<V, K>), Out>,
    promise: spec_fn((T, U, V, A, B, C, D, E), (V,), Out) -> bool,
    world: World<R>,
    a: A,
    b: B,
    c: C,
    d: D,
    e: E,
    after: Step<F, (Res<T, I>, Res<U, J>, ResMut<V, K>), Out>,
    world_after: World<R>,
    out: Out,
) where R: Apart3<T, I, U, J, V, K>
    requires
        forall|a0: &T, a1: &U, a2: &mut V, a3: A, a4: B, a5: C, a6: D, a7: E, o: Out|
            #[trigger] call_ensures(step.f, (a0, a1, a2, a3, a4, a5, a6, a7), o)
                ==> promise((*a0, *a1, *a2, a3, a4, a5, a6, a7), (*final(a2),), o),
    ensures
        (forall|a2: &mut V|
            *a2 == world.held::<V, K>()
                ==> #[trigger] call_requires(
                    step.f,
                    (&world.held::<T, I>(), &world.held::<U, J>(), a2, a, b, c, d, e),
                )) ==> SplatCall5::<R, A, B, C, D, E>::call_splat_pre(&step, world, a, b, c, d, e),
        SplatCall5::<R, A, B, C, D, E>::call_splat_post(
            &step,
            world,
            a,
            b,
            c,
            d,
            e,
            after,
            world_after,
            out,
        )
            ==> {
            &&& after == step
            &&& exists|held: V|
                #[trigger] promise(
                    (
                        world.held::<T, I>(),
                        world.held::<U, J>(),
                        world.held::<V, K>(),
                        a,
                        b,
                        c,
                        d,
                        e,
                    ),
                    (held,),
                    out,
                )
                    && world_after == world.holding::<V, K>(held)
        },
{
    if SplatCall5::<R, A, B, C, D, E>::call_splat_post(
        &step,
        world,
        a,
        b,
        c,
        d,
        e,
        after,
        world_after,
        out,
    ) {
        let held = choose|held: V|
            #[trigger] effect_ppmppppp(
                step.f,
                &world.held::<T, I>(),
                &world.held::<U, J>(),
                world.held::<V, K>(),
                a,
                b,
                c,
                d,
                e,
                held,
                out,
            )
                && world_after == world.holding::<V, K>(held);
        lemma_effect_ppmppppp(
            step.f,
            &world.held::<T, I>(),
            &world.held::<U, J>(),
            world.held::<V, K>(),
            a,
            b,
            c,
            d,
            e,
            held,
            out,
        );
        assert(promise(
            (world.held::<T, I>(), world.held::<U, J>(), world.held::<V, K>(), a, b, c, d, e),
            (held,),
            out,
        ));
    }
}

/// What a function of three resources promises, its step promises of what the world holds.
pub proof fn lemma_splat5_res_resmut_res<
    R,
    T,
    I,
    U,
    J,
    V,
    K,
    A,
    B,
    C,
    D,
    E,
    Out,
    F: FnMut(&T, &mut U, &V, A, B, C, D, E) -> Out,
>(
    step: Step<F, (Res<T, I>, ResMut<U, J>, Res<V, K>), Out>,
    promise: spec_fn((T, U, V, A, B, C, D, E), (U,), Out) -> bool,
    world: World<R>,
    a: A,
    b: B,
    c: C,
    d: D,
    e: E,
    after: Step<F, (Res<T, I>, ResMut<U, J>, Res<V, K>), Out>,
    world_after: World<R>,
    out: Out,
) where R: Apart3<T, I, V, K, U, J>
    requires
        forall|a0: &T, a1: &mut U, a2: &V, a3: A, a4: B, a5: C, a6: D, a7: E, o: Out|
            #[trigger] call_ensures(step.f, (a0, a1, a2, a3, a4, a5, a6, a7), o)
                ==> promise((*a0, *a1, *a2, a3, a4, a5, a6, a7), (*final(a1),), o),
    ensures
        (forall|a1: &mut U|
            *a1 == world.held::<U, J>()
                ==> #[trigger] call_requires(
                    step.f,
                    (&world.held::<T, I>(), a1, &world.held::<V, K>(), a, b, c, d, e),
                )) ==> SplatCall5::<R, A, B, C, D, E>::call_splat_pre(&step, world, a, b, c, d, e),
        SplatCall5::<R, A, B, C, D, E>::call_splat_post(
            &step,
            world,
            a,
            b,
            c,
            d,
            e,
            after,
            world_after,
            out,
        )
            ==> {
            &&& after == step
            &&& exists|held: U|
                #[trigger] promise(
                    (
                        world.held::<T, I>(),
                        world.held::<U, J>(),
                        world.held::<V, K>(),
                        a,
                        b,
                        c,
                        d,
                        e,
                    ),
                    (held,),
                    out,
                )
                    && world_after == world.holding::<U, J>(held)
        },
{
    if SplatCall5::<R, A, B, C, D, E>::call_splat_post(
        &step,
        world,
        a,
        b,
        c,
        d,
        e,
        after,
        world_after,
        out,
    ) {
        let held = choose|held: U|
            #[trigger] effect_pmpppppp(
                step.f,
                &world.held::<T, I>(),
                world.held::<U, J>(),
                &world.held::<V, K>(),
                a,
                b,
                c,
                d,
                e,
                held,
                out,
            )
                && world_after == world.holding::<U, J>(held);
        lemma_effect_pmpppppp(
            step.f,
            &world.held::<T, I>(),
            world.held::<U, J>(),
            &world.held::<V, K>(),
            a,
            b,
            c,
            d,
            e,
            held,
            out,
        );
        assert(promise(
            (world.held::<T, I>(), world.held::<U, J>(), world.held::<V, K>(), a, b, c, d, e),
            (held,),
            out,
        ));
    }
}

/// What a function of three resources promises, its step promises of what the world holds.
pub proof fn lemma_splat5_res_resmut_resmut<
    R,
    T,
    I,
    U,
    J,
    V,
    K,
    A,
    B,
    C,
    D,
    E,
    Out,
    F: FnMut(&T, &mut U, &mut V, A, B, C, D, E) -> Out,
>(
    step: Step<F, (Res<T, I>, ResMut<U, J>, ResMut<V, K>), Out>,
    promise: spec_fn((T, U, V, A, B, C, D, E), (U, V), Out) -> bool,
    world: World<R>,
    a: A,
    b: B,
    c: C,
    d: D,
    e: E,
    after: Step<F, (Res<T, I>, ResMut<U, J>, ResMut<V, K>), Out>,
    world_after: World<R>,
    out: Out,
) where R: Apart3<T, I, U, J, V, K>
    requires
        forall|a0: &T, a1: &mut U, a2: &mut V, a3: A, a4: B, a5: C, a6: D, a7: E, o: Out|
            #[trigger] call_ensures(step.f, (a0, a1, a2, a3, a4, a5, a6, a7), o)
                ==> promise((*a0, *a1, *a2, a3, a4, a5, a6, a7), (*final(a1), *final(a2)), o),
    ensures
        (forall|a1: &mut U, a2: &mut V|
            *a1 == world.held::<U, J>() && *a2 == world.held::<V, K>()
                ==> #[trigger] call_requires(
                    step.f,
                    (&world.held::<T, I>(), a1, a2, a, b, c, d, e),
                )) ==> SplatCall5::<R, A, B, C, D, E>::call_splat_pre(&step, world, a, b, c, d, e),
        SplatCall5::<R, A, B, C, D, E>::call_splat_post(
            &step,
            world,
            a,
            b,
            c,
            d,
            e,
            after,
            world_after,
            out,
        )
            ==> {
            &&& after == step
            &&& exists|held: U, other: V|
                #[trigger] promise(
                    (
                        world.held::<T, I>(),
                        world.held::<U, J>(),
                        world.held::<V, K>(),
                        a,
                        b,
                        c,
                        d,
                        e,
                    ),
                    (held, other),
                    out,
                )
                    && world_after == world.holding::<U, J>(held).holding::<V, K>(other)
        },
{
    if SplatCall5::<R, A, B, C, D, E>::call_splat_post(
        &step,
        world,
        a,
        b,
        c,
        d,
        e,
        after,
        world_after,
        out,
    ) {
        let (held, other) = choose|held: U, other: V|
            #[trigger] effect_pmmppppp(
                step.f,
                &world.held::<T, I>(),
                world.held::<U, J>(),
                world.held::<V, K>(),
                a,
                b,
                c,
                d,
                e,
                held,
                other,
                out,
            )
                && world_after == world.holding::<U, J>(held).holding::<V, K>(other);
        lemma_effect_pmmppppp(
            step.f,
            &world.held::<T, I>(),
            world.held::<U, J>(),
            world.held::<V, K>(),
            a,
            b,
            c,
            d,
            e,
            held,
            other,
            out,
        );
        assert(promise(
            (world.held::<T, I>(), world.held::<U, J>(), world.held::<V, K>(), a, b, c, d, e),
            (held, other),
            out,
        ));
    }
}

/// What a function of three resources promises, its step promises of what the world holds.
pub proof fn lemma_splat5_resmut_res_res<
    R,
    T,
    I,
    U,
    J,
    V,
    K,
    A,
    B,
    C,
    D,
    E,
    Out,
    F: FnMut(&mut T, &U, &V, A, B, C, D, E) -> Out,
>(
    step: Step<F, (ResMut<T, I>, Res<U, J>, Res<V, K>), Out>,
    promise: spec_fn((T, U, V, A, B, C, D, E), (T,), Out) -> bool,
    world: World<R>,
    a: A,
    b: B,
    c: C,
    d: D,
    e: E,
    after: Step<F, (ResMut<T, I>, Res<U, J>, Res<V, K>), Out>,
    world_after: World<R>,
    out: Out,
) where R: Apart3<U, J, V, K, T, I>
    requires
        forall|a0: &mut T, a1: &U, a2: &V, a3: A, a4: B, a5: C, a6: D, a7: E, o: Out|
            #[trigger] call_ensures(step.f, (a0, a1, a2, a3, a4, a5, a6, a7), o)
                ==> promise((*a0, *a1, *a2, a3, a4, a5, a6, a7), (*final(a0),), o),
    ensures
        (forall|a0: &mut T|
            *a0 == world.held::<T, I>()
                ==> #[trigger] call_requires(
                    step.f,
                    (a0, &world.held::<U, J>(), &world.held::<V, K>(), a, b, c, d, e),
                )) ==> SplatCall5::<R, A, B, C, D, E>::call_splat_pre(&step, world, a, b, c, d, e),
        SplatCall5::<R, A, B, C, D, E>::call_splat_post(
            &step,
            world,
            a,
            b,
            c,
            d,
            e,
            after,
            world_after,
            out,
        )
            ==> {
            &&& after == step
            &&& exists|held: T|
                #[trigger] promise(
                    (
                        world.held::<T, I>(),
                        world.held::<U, J>(),
                        world.held::<V, K>(),
                        a,
                        b,
                        c,
                        d,
                        e,
                    ),
                    (held,),
                    out,
                )
                    && world_after == world.holding::<T, I>(held)
        },
{
    if SplatCall5::<R, A, B, C, D, E>::call_splat_post(
        &step,
        world,
        a,
        b,
        c,
        d,
        e,
        after,
        world_after,
        out,
    ) {
        let held = choose|held: T|
            #[trigger] effect_mppppppp(
                step.f,
                world.held::<T, I>(),
                &world.held::<U, J>(),
                &world.held::<V, K>(),
                a,
                b,
                c,
                d,
                e,
                held,
                out,
            )
                && world_after == world.holding::<T, I>(held);
        lemma_effect_mppppppp(
            step.f,
            world.held::<T, I>(),
            &world.held::<U, J>(),
            &world.held::<V, K>(),
            a,
            b,
            c,
            d,
            e,
            held,
            out,
        );
        assert(promise(
            (world.held::<T, I>(), world.held::<U, J>(), world.held::<V, K>(), a, b, c, d, e),
            (held,),
            out,
        ));
    }
}

/// What a function of three resources promises, its step promises of what the world holds.
pub proof fn lemma_splat5_resmut_res_resmut<
    R,
    T,
    I,
    U,
    J,
    V,
    K,
    A,
    B,
    C,
    D,
    E,
    Out,
    F: FnMut(&mut T, &U, &mut V, A, B, C, D, E) -> Out,
>(
    step: Step<F, (ResMut<T, I>, Res<U, J>, ResMut<V, K>), Out>,
    promise: spec_fn((T, U, V, A, B, C, D, E), (T, V), Out) -> bool,
    world: World<R>,
    a: A,
    b: B,
    c: C,
    d: D,
    e: E,
    after: Step<F, (ResMut<T, I>, Res<U, J>, ResMut<V, K>), Out>,
    world_after: World<R>,
    out: Out,
) where R: Apart3<U, J, T, I, V, K>
    requires
        forall|a0: &mut T, a1: &U, a2: &mut V, a3: A, a4: B, a5: C, a6: D, a7: E, o: Out|
            #[trigger] call_ensures(step.f, (a0, a1, a2, a3, a4, a5, a6, a7), o)
                ==> promise((*a0, *a1, *a2, a3, a4, a5, a6, a7), (*final(a0), *final(a2)), o),
    ensures
        (forall|a0: &mut T, a2: &mut V|
            *a0 == world.held::<T, I>() && *a2 == world.held::<V, K>()
                ==> #[trigger] call_requires(
                    step.f,
                    (a0, &world.held::<U, J>(), a2, a, b, c, d, e),
                )) ==> SplatCall5::<R, A, B, C, D, E>::call_splat_pre(&step, world, a, b, c, d, e),
        SplatCall5::<R, A, B, C, D, E>::call_splat_post(
            &step,
            world,
            a,
            b,
            c,
            d,
            e,
            after,
            world_after,
            out,
        )
            ==> {
            &&& after == step
            &&& exists|held: T, other: V|
                #[trigger] promise(
                    (
                        world.held::<T, I>(),
                        world.held::<U, J>(),
                        world.held::<V, K>(),
                        a,
                        b,
                        c,
                        d,
                        e,
                    ),
                    (held, other),
                    out,
                )
                    && world_after == world.holding::<T, I>(held).holding::<V, K>(other)
        },
{
    if SplatCall5::<R, A, B, C, D, E>::call_splat_post(
        &step,
        world,
        a,
        b,
        c,
        d,
        e,
        after,
        world_after,
        out,
    ) {
        let (held, other) = choose|held: T, other: V|
            #[trigger] effect_mpmppppp(
                step.f,
                world.held::<T, I>(),
                &world.held::<U, J>(),
                world.held::<V, K>(),
                a,
                b,
                c,
                d,
                e,
                held,
                other,
                out,
            )
                && world_after == world.holding::<T, I>(held).holding::<V, K>(other);
        lemma_effect_mpmppppp(
            step.f,
            world.held::<T, I>(),
            &world.held::<U, J>(),
            world.held::<V, K>(),
            a,
            b,
            c,
            d,
            e,
            held,
            other,
            out,
        );
        assert(promise(
            (world.held::<T, I>(), world.held::<U, J>(), world.held::<V, K>(), a, b, c, d, e),
            (held, other),
            out,
        ));
    }
}

/// What a function of three resources promises, its step promises of what the world holds.
pub proof fn lemma_splat5_resmut_resmut_res<
    R,
    T,
    I,
    U,
    J,
    V,
    K,
    A,
    B,
    C,
    D,
    E,
    Out,
    F: FnMut(&mut T, &mut U, &V, A, B, C, D, E) -> Out,
>(
    step: Step<F, (ResMut<T, I>, ResMut<U, J>, Res<V, K>), Out>,
    promise: spec_fn((T, U, V, A, B, C, D, E), (T, U), Out) -> bool,
    world: World<R>,
    a: A,
    b: B,
    c: C,
    d: D,
    e: E,
    after: Step<F, (ResMut<T, I>, ResMut<U, J>, Res<V, K>), Out>,
    world_after: World<R>,
    out: Out,
) where R: Apart3<V, K, T, I, U, J>
    requires
        forall|a0: &mut T, a1: &mut U, a2: &V, a3: A, a4: B, a5: C, a6: D, a7: E, o: Out|
            #[trigger] call_ensures(step.f, (a0, a1, a2, a3, a4, a5, a6, a7), o)
                ==> promise((*a0, *a1, *a2, a3, a4, a5, a6, a7), (*final(a0), *final(a1)), o),
    ensures
        (forall|a0: &mut T, a1: &mut U|
            *a0 == world.held::<T, I>() && *a1 == world.held::<U, J>()
                ==> #[trigger] call_requires(
                    step.f,
                    (a0, a1, &world.held::<V, K>(), a, b, c, d, e),
                )) ==> SplatCall5::<R, A, B, C, D, E>::call_splat_pre(&step, world, a, b, c, d, e),
        SplatCall5::<R, A, B, C, D, E>::call_splat_post(
            &step,
            world,
            a,
            b,
            c,
            d,
            e,
            after,
            world_after,
            out,
        )
            ==> {
            &&& after == step
            &&& exists|held: T, other: U|
                #[trigger] promise(
                    (
                        world.held::<T, I>(),
                        world.held::<U, J>(),
                        world.held::<V, K>(),
                        a,
                        b,
                        c,
                        d,
                        e,
                    ),
                    (held, other),
                    out,
                )
                    && world_after == world.holding::<T, I>(held).holding::<U, J>(other)
        },
{
    if SplatCall5::<R, A, B, C, D, E>::call_splat_post(
        &step,
        world,
        a,
        b,
        c,
        d,
        e,
        after,
        world_after,
        out,
    ) {
        let (held, other) = choose|held: T, other: U|
            #[trigger] effect_mmpppppp(
                step.f,
                world.held::<T, I>(),
                world.held::<U, J>(),
                &world.held::<V, K>(),
                a,
                b,
                c,
                d,
                e,
                held,
                other,
                out,
            )
                && world_after == world.holding::<T, I>(held).holding::<U, J>(other);
        lemma_effect_mmpppppp(
            step.f,
            world.held::<T, I>(),
            world.held::<U, J>(),
            &world.held::<V, K>(),
            a,
            b,
            c,
            d,
            e,
            held,
            other,
            out,
        );
        assert(promise(
            (world.held::<T, I>(), world.held::<U, J>(), world.held::<V, K>(), a, b, c, d, e),
            (held, other),
            out,
        ));
    }
}

/// What a function of three resources promises, its step promises of what the world holds.
pub proof fn lemma_splat5_resmut_resmut_resmut<
    R,
    T,
    I,
    U,
    J,
    V,
    K,
    A,
    B,
    C,
    D,
    E,
    Out,
    F: FnMut(&mut T, &mut U, &mut V, A, B, C, D, E) -> Out,
>(
    step: Step<F, (ResMut<T, I>, ResMut<U, J>, ResMut<V, K>), Out>,
    promise: spec_fn((T, U, V, A, B, C, D, E), (T, U, V), Out) -> bool,
    world: World<R>,
    a: A,
    b: B,
    c: C,
    d: D,
    e: E,
    after: Step<F, (ResMut<T, I>, ResMut<U, J>, ResMut<V, K>), Out>,
    world_after: World<R>,
    out: Out,
) where R: Apart3<T, I, U, J, V, K>
    requires
        forall|a0: &mut T, a1: &mut U, a2: &mut V, a3: A, a4: B, a5: C, a6: D, a7: E, o: Out|
            #[trigger] call_ensures(step.f, (a0, a1, a2, a3, a4, a5, a6, a7), o)
                ==> promise(
                    (*a0, *a1, *a2, a3, a4, a5, a6, a7),
                    (*final(a0), *final(a1), *final(a2)),
                    o,
                ),
    ensures
        (forall|a0: &mut T, a1: &mut U, a2: &mut V|
            *a0 == world.held::<T, I>()
                && *a1 == world.held::<U, J>()
                && *a2 == world.held::<V, K>()
                ==> #[trigger] call_requires(step.f, (a0, a1, a2, a, b, c, d, e)))
                    ==> SplatCall5::<R, A, B, C, D, E>::call_splat_pre(&step, world, a, b, c, d, e),
        SplatCall5::<R, A, B, C, D, E>::call_splat_post(
            &step,
            world,
            a,
            b,
            c,
            d,
            e,
            after,
            world_after,
            out,
        )
            ==> {
            &&& after == step
            &&& exists|held: T, other: U, last: V|
                #[trigger] promise(
                    (
                        world.held::<T, I>(),
                        world.held::<U, J>(),
                        world.held::<V, K>(),
                        a,
                        b,
                        c,
                        d,
                        e,
                    ),
                    (held, other, last),
                    out,
                )
                    && world_after == world.holding::<T, I>(held).holding::<U, J>(other).holding::<V, K>(last)
        },
{
    if SplatCall5::<R, A, B, C, D, E>::call_splat_post(
        &step,
        world,
        a,
        b,
        c,
        d,
        e,
        after,
        world_after,
        out,
    ) {
        let (held, other, last) = choose|held: T, other: U, last: V|
            #[trigger] effect_mmmppppp(
                step.f,
                world.held::<T, I>(),
                world.held::<U, J>(),
                world.held::<V, K>(),
                a,
                b,
                c,
                d,
                e,
                held,
                other,
                last,
                out,
            )
                && world_after == world.holding::<T, I>(held).holding::<U, J>(other).holding::<V, K>(last);
        lemma_effect_mmmppppp(
            step.f,
            world.held::<T, I>(),
            world.held::<U, J>(),
            world.held::<V, K>(),
            a,
            b,
            c,
            d,
            e,
            held,
            other,
            last,
            out,
        );
        assert(promise(
            (world.held::<T, I>(), world.held::<U, J>(), world.held::<V, K>(), a, b, c, d, e),
            (held, other, last),
            out,
        ));
    }
}

} // verus!
