//! Functions of three resources that are shown the results of several arms.
use crate::effect::{
    effect_mmmpp, effect_mmmpp_fact, effect_mmmppp, effect_mmmppp_fact, effect_mmmpppp,
    effect_mmmpppp_fact, effect_mmmppppp, effect_mmmppppp_fact, effect_mmppp, effect_mmppp_fact,
    effect_mmpppp, effect_mmpppp_fact, effect_mmppppp, effect_mmppppp_fact, effect_mmpppppp,
    effect_mmpppppp_fact, effect_mpmpp, effect_mpmpp_fact, effect_mpmppp, effect_mpmppp_fact,
    effect_mpmpppp, effect_mpmpppp_fact, effect_mpmppppp, effect_mpmppppp_fact, effect_mpppp,
    effect_mpppp_fact, effect_mppppp, effect_mppppp_fact, effect_mpppppp, effect_mpppppp_fact,
    effect_mppppppp, effect_mppppppp_fact, effect_pmmpp, effect_pmmpp_fact, effect_pmmppp,
    effect_pmmppp_fact, effect_pmmpppp, effect_pmmpppp_fact, effect_pmmppppp, effect_pmmppppp_fact,
    effect_pmppp, effect_pmppp_fact, effect_pmpppp, effect_pmpppp_fact, effect_pmppppp,
    effect_pmppppp_fact, effect_pmpppppp, effect_pmpppppp_fact, effect_ppmpp, effect_ppmpp_fact,
    effect_ppmppp, effect_ppmppp_fact, effect_ppmpppp, effect_ppmpppp_fact, effect_ppmppppp,
    effect_ppmppppp_fact, record,
};
use crate::merge::{IntoMergeStep, MergeStep, MergeStepCall};
use crate::world::{Apart3, Registry, Res, ResMut, Resource, World};
use std::marker::PhantomData;
use vstd::prelude::*;

verus! {

impl<
    R,
    T,
    I,
    U,
    J,
    V,
    K,
    A,
    B,
    Out,
    F: FnMut(&T, &U, &V, &A, &B) -> Out,
> MergeStepCall<R, (&A, &B), Out> for MergeStep<F, (Res<T, I>, Res<U, J>, Res<V, K>)> where
    R: Resource<T, I> + Resource<U, J> + Resource<V, K>,
{
    open spec fn call_pre(&self, world: World<R>, inputs: (&A, &B)) -> bool {
        call_requires(
            self.f,
            (
                &world.held::<T, I>(),
                &world.held::<U, J>(),
                &world.held::<V, K>(),
                inputs.0,
                inputs.1,
            ),
        )
    }

    open spec fn call_post(
        &self,
        world: World<R>,
        inputs: (&A, &B),
        after: Self,
        world_after: World<R>,
        out: Out,
    ) -> bool {
        &&& after == *self
        &&& world_after == world
        &&& call_ensures(
            self.f,
            (
                &world.held::<T, I>(),
                &world.held::<U, J>(),
                &world.held::<V, K>(),
                inputs.0,
                inputs.1,
            ),
            out,
        )
    }

    fn call(&mut self, world: &mut World<R>, inputs: (&A, &B)) -> (out: Out) {
        broadcast use vstd::function::group_function_axioms;

        (self.f)(
            world.resource::<T, I>(),
            world.resource::<U, J>(),
            world.resource::<V, K>(),
            inputs.0,
            inputs.1,
        )
    }
}

impl<
    R,
    T,
    I,
    U,
    J,
    V,
    K,
    A,
    B,
    Out,
    F: FnMut(&T, &U, &V, &A, &B) -> Out,
> IntoMergeStep<R, (&A, &B), Out, (Res<T, I>, Res<U, J>, Res<V, K>)> for F where
    R: Resource<T, I> + Resource<U, J> + Resource<V, K>,
{
    type Step = MergeStep<F, (Res<T, I>, Res<U, J>, Res<V, K>)>;

    open spec fn resolved(self) -> MergeStep<F, (Res<T, I>, Res<U, J>, Res<V, K>)> {
        MergeStep { f: self, params: PhantomData }
    }

    fn into_merge_step(
        self,
        registry: &Registry<R>,
    ) -> (step: MergeStep<F, (Res<T, I>, Res<U, J>, Res<V, K>)>) {
        MergeStep { f: self, params: PhantomData }
    }
}

impl<
    R,
    T,
    I,
    U,
    J,
    V,
    K,
    A,
    B,
    Out,
    F: FnMut(&T, &U, &mut V, &A, &B) -> Out,
> MergeStepCall<R, (&A, &B), Out> for MergeStep<F, (Res<T, I>, Res<U, J>, ResMut<V, K>)> where
    R: Apart3<T, I, U, J, V, K>,
{
    open spec fn call_pre(&self, world: World<R>, inputs: (&A, &B)) -> bool {
        forall|r2: &mut V| *r2 == world.held::<V, K>()
            ==> #[trigger] call_requires(
                self.f,
                (&world.held::<T, I>(), &world.held::<U, J>(), r2, inputs.0, inputs.1),
            )
    }

    open spec fn call_post(
        &self,
        world: World<R>,
        inputs: (&A, &B),
        after: Self,
        world_after: World<R>,
        out: Out,
    ) -> bool {
        &&& after == *self
        &&& exists|held: V|
            #[trigger] effect_ppmpp(
                self.f,
                &world.held::<T, I>(),
                &world.held::<U, J>(),
                world.held::<V, K>(),
                inputs.0,
                inputs.1,
                held,
                out,
            )
                && world_after == world.holding::<V, K>(held)
    }

    fn call(&mut self, world: &mut World<R>, inputs: (&A, &B)) -> (out: Out) {
        broadcast use vstd::function::group_function_axioms;

        let (first, second, third) = world.beside_two_mut::<T, I, U, J, V, K>();
        let out = (self.f)(first, second, &mut *third, inputs.0, inputs.1);
        record(
            effect_ppmpp_fact::<&T, &U, V, &A, &B, Out, F>,
            Ghost((
                old(self).f,
                &old(world).held::<T, I>(),
                &old(world).held::<U, J>(),
                old(world).held::<V, K>(),
                inputs.0,
                inputs.1,
                *third,
                out,
            )),
        );
        assert(effect_ppmpp(
            old(self).f,
            &old(world).held::<T, I>(),
            &old(world).held::<U, J>(),
            old(world).held::<V, K>(),
            inputs.0,
            inputs.1,
            *third,
            out,
        ));
        out
    }
}

impl<
    R,
    T,
    I,
    U,
    J,
    V,
    K,
    A,
    B,
    Out,
    F: FnMut(&T, &U, &mut V, &A, &B) -> Out,
> IntoMergeStep<R, (&A, &B), Out, (Res<T, I>, Res<U, J>, ResMut<V, K>)> for F where
    R: Apart3<T, I, U, J, V, K>,
{
    type Step = MergeStep<F, (Res<T, I>, Res<U, J>, ResMut<V, K>)>;

    open spec fn resolved(self) -> MergeStep<F, (Res<T, I>, Res<U, J>, ResMut<V, K>)> {
        MergeStep { f: self, params: PhantomData }
    }

    fn into_merge_step(
        self,
        registry: &Registry<R>,
    ) -> (step: MergeStep<F, (Res<T, I>, Res<U, J>, ResMut<V, K>)>) {
        MergeStep { f: self, params: PhantomData }
    }
}

impl<
    R,
    T,
    I,
    U,
    J,
    V,
    K,
    A,
    B,
    Out,
    F: FnMut(&T, &mut U, &V, &A, &B) -> Out,
> MergeStepCall<R, (&A, &B), Out> for MergeStep<F, (Res<T, I>, ResMut<U, J>, Res<V, K>)> where
    R: Apart3<T, I, V, K, U, J>,
{
    open spec fn call_pre(&self, world: World<R>, inputs: (&A, &B)) -> bool {
        forall|r1: &mut U| *r1 == world.held::<U, J>()
            ==> #[trigger] call_requires(
                self.f,
                (&world.held::<T, I>(), r1, &world.held::<V, K>(), inputs.0, inputs.1),
            )
    }

    open spec fn call_post(
        &self,
        world: World<R>,
        inputs: (&A, &B),
        after: Self,
        world_after: World<R>,
        out: Out,
    ) -> bool {
        &&& after == *self
        &&& exists|held: U|
            #[trigger] effect_pmppp(
                self.f,
                &world.held::<T, I>(),
                world.held::<U, J>(),
                &world.held::<V, K>(),
                inputs.0,
                inputs.1,
                held,
                out,
            )
                && world_after == world.holding::<U, J>(held)
    }

    fn call(&mut self, world: &mut World<R>, inputs: (&A, &B)) -> (out: Out) {
        broadcast use vstd::function::group_function_axioms;

        let (first, third, second) = world.beside_two_mut::<T, I, V, K, U, J>();
        let out = (self.f)(first, &mut *second, third, inputs.0, inputs.1);
        record(
            effect_pmppp_fact::<&T, U, &V, &A, &B, Out, F>,
            Ghost((
                old(self).f,
                &old(world).held::<T, I>(),
                old(world).held::<U, J>(),
                &old(world).held::<V, K>(),
                inputs.0,
                inputs.1,
                *second,
                out,
            )),
        );
        assert(effect_pmppp(
            old(self).f,
            &old(world).held::<T, I>(),
            old(world).held::<U, J>(),
            &old(world).held::<V, K>(),
            inputs.0,
            inputs.1,
            *second,
            out,
        ));
        out
    }
}

impl<
    R,
    T,
    I,
    U,
    J,
    V,
    K,
    A,
    B,
    Out,
    F: FnMut(&T, &mut U, &V, &A, &B) -> Out,
> IntoMergeStep<R, (&A, &B), Out, (Res<T, I>, ResMut<U, J>, Res<V, K>)> for F where
    R: Apart3<T, I, V, K, U, J>,
{
    type Step = MergeStep<F, (Res<T, I>, ResMut<U, J>, Res<V, K>)>;

    open spec fn resolved(self) -> MergeStep<F, (Res<T, I>, ResMut<U, J>, Res<V, K>)> {
        MergeStep { f: self, params: PhantomData }
    }

    fn into_merge_step(
        self,
        registry: &Registry<R>,
    ) -> (step: MergeStep<F, (Res<T, I>, ResMut<U, J>, Res<V, K>)>) {
        MergeStep { f: self, params: PhantomData }
    }
}

impl<
    R,
    T,
    I,
    U,
    J,
    V,
    K,
    A,
    B,
    Out,
    F: FnMut(&T, &mut U, &mut V, &A, &B) -> Out,
> MergeStepCall<R, (&A, &B), Out> for MergeStep<F, (Res<T, I>, ResMut<U, J>, ResMut<V, K>)> where
    R: Apart3<T, I, U, J, V, K>,
{
    open spec fn call_pre(&self, world: World<R>, inputs: (&A, &B)) -> bool {
        forall|r1: &mut U, r2: &mut V| *r1 == world.held::<U, J>() && *r2 == world.held::<V, K>()
            ==> #[trigger] call_requires(
                self.f,
                (&world.held::<T, I>(), r1, r2, inputs.0, inputs.1),
            )
    }

    open spec fn call_post(
        &self,
        world: World<R>,
        inputs: (&A, &B),
        after: Self,
        world_after: World<R>,
        out: Out,
    ) -> bool {
        &&& after == *self
        &&& exists|held: U, other: V|
            #[trigger] effect_pmmpp(
                self.f,
                &world.held::<T, I>(),
                world.held::<U, J>(),
                world.held::<V, K>(),
                inputs.0,
                inputs.1,
                held,
                other,
                out,
            )
                && world_after == world.holding::<U, J>(held).holding::<V, K>(other)
    }

    fn call(&mut self, world: &mut World<R>, inputs: (&A, &B)) -> (out: Out) {
        broadcast use vstd::function::group_function_axioms;

        let (first, second, third) = world.beside_both_mut::<T, I, U, J, V, K>();
        let out = (self.f)(first, &mut *second, &mut *third, inputs.0, inputs.1);
        record(
            effect_pmmpp_fact::<&T, U, V, &A, &B, Out, F>,
            Ghost((
                old(self).f,
                &old(world).held::<T, I>(),
                old(world).held::<U, J>(),
                old(world).held::<V, K>(),
                inputs.0,
                inputs.1,
                *second,
                *third,
                out,
            )),
        );
        assert(effect_pmmpp(
            old(self).f,
            &old(world).held::<T, I>(),
            old(world).held::<U, J>(),
            old(world).held::<V, K>(),
            inputs.0,
            inputs.1,
            *second,
            *third,
            out,
        ));
        out
    }
}

impl<
    R,
    T,
    I,
    U,
    J,
    V,
    K,
    A,
    B,
    Out,
    F: FnMut(&T, &mut U, &mut V, &A, &B) -> Out,
> IntoMergeStep<R, (&A, &B), Out, (Res<T, I>, ResMut<U, J>, ResMut<V, K>)> for F where
    R: Apart3<T, I, U, J, V, K>,
{
    type Step = MergeStep<F, (Res<T, I>, ResMut<U, J>, ResMut<V, K>)>;

    open spec fn resolved(self) -> MergeStep<F, (Res<T, I>, ResMut<U, J>, ResMut<V, K>)> {
        MergeStep { f: self, params: PhantomData }
    }

    fn into_merge_step(
        self,
        registry: &Registry<R>,
    ) -> (step: MergeStep<F, (Res<T, I>, ResMut<U, J>, ResMut<V, K>)>) {
        MergeStep { f: self, params: PhantomData }
    }
}

impl<
    R,
    T,
    I,
    U,
    J,
    V,
    K,
    A,
    B,
    Out,
    F: FnMut(&mut T, &U, &V, &A, &B) -> Out,
> MergeStepCall<R, (&A, &B), Out> for MergeStep<F, (ResMut<T, I>, Res<U, J>, Res<V, K>)> where
    R: Apart3<U, J, V, K, T, I>,
{
    open spec fn call_pre(&self, world: World<R>, inputs: (&A, &B)) -> bool {
        forall|r0: &mut T| *r0 == world.held::<T, I>()
            ==> #[trigger] call_requires(
                self.f,
                (r0, &world.held::<U, J>(), &world.held::<V, K>(), inputs.0, inputs.1),
            )
    }

    open spec fn call_post(
        &self,
        world: World<R>,
        inputs: (&A, &B),
        after: Self,
        world_after: World<R>,
        out: Out,
    ) -> bool {
        &&& after == *self
        &&& exists|held: T|
            #[trigger] effect_mpppp(
                self.f,
                world.held::<T, I>(),
                &world.held::<U, J>(),
                &world.held::<V, K>(),
                inputs.0,
                inputs.1,
                held,
                out,
            )
                && world_after == world.holding::<T, I>(held)
    }

    fn call(&mut self, world: &mut World<R>, inputs: (&A, &B)) -> (out: Out) {
        broadcast use vstd::function::group_function_axioms;

        let (second, third, first) = world.beside_two_mut::<U, J, V, K, T, I>();
        let out = (self.f)(&mut *first, second, third, inputs.0, inputs.1);
        record(
            effect_mpppp_fact::<T, &U, &V, &A, &B, Out, F>,
            Ghost((
                old(self).f,
                old(world).held::<T, I>(),
                &old(world).held::<U, J>(),
                &old(world).held::<V, K>(),
                inputs.0,
                inputs.1,
                *first,
                out,
            )),
        );
        assert(effect_mpppp(
            old(self).f,
            old(world).held::<T, I>(),
            &old(world).held::<U, J>(),
            &old(world).held::<V, K>(),
            inputs.0,
            inputs.1,
            *first,
            out,
        ));
        out
    }
}

impl<
    R,
    T,
    I,
    U,
    J,
    V,
    K,
    A,
    B,
    Out,
    F: FnMut(&mut T, &U, &V, &A, &B) -> Out,
> IntoMergeStep<R, (&A, &B), Out, (ResMut<T, I>, Res<U, J>, Res<V, K>)> for F where
    R: Apart3<U, J, V, K, T, I>,
{
    type Step = MergeStep<F, (ResMut<T, I>, Res<U, J>, Res<V, K>)>;

    open spec fn resolved(self) -> MergeStep<F, (ResMut<T, I>, Res<U, J>, Res<V, K>)> {
        MergeStep { f: self, params: PhantomData }
    }

    fn into_merge_step(
        self,
        registry: &Registry<R>,
    ) -> (step: MergeStep<F, (ResMut<T, I>, Res<U, J>, Res<V, K>)>) {
        MergeStep { f: self, params: PhantomData }
    }
}

impl<
    R,
    T,
    I,
    U,
    J,
    V,
    K,
    A,
    B,
    Out,
    F: FnMut(&mut T, &U, &mut V, &A, &B) -> Out,
> MergeStepCall<R, (&A, &B), Out> for MergeStep<F, (ResMut<T, I>, Res<U, J>, ResMut<V, K>)> where
    R: Apart3<U, J, T, I, V, K>,
{
    open spec fn call_pre(&self, world: World<R>, inputs: (&A, &B)) -> bool {
        forall|r0: &mut T, r2: &mut V| *r0 == world.held::<T, I>() && *r2 == world.held::<V, K>()
            ==> #[trigger] call_requires(
                self.f,
                (r0, &world.held::<U, J>(), r2, inputs.0, inputs.1),
            )
    }

    open spec fn call_post(
        &self,
        world: World<R>,
        inputs: (&A, &B),
        after: Self,
        world_after: World<R>,
        out: Out,
    ) -> bool {
        &&& after == *self
        &&& exists|held: T, other: V|
            #[trigger] effect_mpmpp(
                self.f,
                world.held::<T, I>(),
                &world.held::<U, J>(),
                world.held::<V, K>(),
                inputs.0,
                inputs.1,
                held,
                other,
                out,
            )
                && world_after == world.holding::<T, I>(held).holding::<V, K>(other)
    }

    fn call(&mut self, world: &mut World<R>, inputs: (&A, &B)) -> (out: Out) {
        broadcast use vstd::function::group_function_axioms;

        let (second, first, third) = world.beside_both_mut::<U, J, T, I, V, K>();
        let out = (self.f)(&mut *first, second, &mut *third, inputs.0, inputs.1);
        record(
            effect_mpmpp_fact::<T, &U, V, &A, &B, Out, F>,
            Ghost((
                old(self).f,
                old(world).held::<T, I>(),
                &old(world).held::<U, J>(),
                old(world).held::<V, K>(),
                inputs.0,
                inputs.1,
                *first,
                *third,
                out,
            )),
        );
        assert(effect_mpmpp(
            old(self).f,
            old(world).held::<T, I>(),
            &old(world).held::<U, J>(),
            old(world).held::<V, K>(),
            inputs.0,
            inputs.1,
            *first,
            *third,
            out,
        ));
        out
    }
}

impl<
    R,
    T,
    I,
    U,
    J,
    V,
    K,
    A,
    B,
    Out,
    F: FnMut(&mut T, &U, &mut V, &A, &B) -> Out,
> IntoMergeStep<R, (&A, &B), Out, (ResMut<T, I>, Res<U, J>, ResMut<V, K>)> for F where
    R: Apart3<U, J, T, I, V, K>,
{
    type Step = MergeStep<F, (ResMut<T, I>, Res<U, J>, ResMut<V, K>)>;

    open spec fn resolved(self) -> MergeStep<F, (ResMut<T, I>, Res<U, J>, ResMut<V, K>)> {
        MergeStep { f: self, params: PhantomData }
    }

    fn into_merge_step(
        self,
        registry: &Registry<R>,
    ) -> (step: MergeStep<F, (ResMut<T, I>, Res<U, J>, ResMut<V, K>)>) {
        MergeStep { f: self, params: PhantomData }
    }
}

impl<
    R,
    T,
    I,
    U,
    J,
    V,
    K,
    A,
    B,
    Out,
    F: FnMut(&mut T, &mut U, &V, &A, &B) -> Out,
> MergeStepCall<R, (&A, &B), Out> for MergeStep<F, (ResMut<T, I>, ResMut<U, J>, Res<V, K>)> where
    R: Apart3<V, K, T, I, U, J>,
{
    open spec fn call_pre(&self, world: World<R>, inputs: (&A, &B)) -> bool {
        forall|r0: &mut T, r1: &mut U| *r0 == world.held::<T, I>() && *r1 == world.held::<U, J>()
            ==> #[trigger] call_requires(
                self.f,
                (r0, r1, &world.held::<V, K>(), inputs.0, inputs.1),
            )
    }

    open spec fn call_post(
        &self,
        world: World<R>,
        inputs: (&A, &B),
        after: Self,
        world_after: World<R>,
        out: Out,
    ) -> bool {
        &&& after == *self
        &&& exists|held: T, other: U|
            #[trigger] effect_mmppp(
                self.f,
                world.held::<T, I>(),
                world.held::<U, J>(),
                &world.held::<V, K>(),
                inputs.0,
                inputs.1,
                held,
                other,
                out,
            )
                && world_after == world.holding::<T, I>(held).holding::<U, J>(other)
    }

    fn call(&mut self, world: &mut World<R>, inputs: (&A, &B)) -> (out: Out) {
        broadcast use vstd::function::group_function_axioms;

        let (third, first, second) = world.beside_both_mut::<V, K, T, I, U, J>();
        let out = (self.f)(&mut *first, &mut *second, third, inputs.0, inputs.1);
        record(
            effect_mmppp_fact::<T, U, &V, &A, &B, Out, F>,
            Ghost((
                old(self).f,
                old(world).held::<T, I>(),
                old(world).held::<U, J>(),
                &old(world).held::<V, K>(),
                inputs.0,
                inputs.1,
                *first,
                *second,
                out,
            )),
        );
        assert(effect_mmppp(
            old(self).f,
            old(world).held::<T, I>(),
            old(world).held::<U, J>(),
            &old(world).held::<V, K>(),
            inputs.0,
            inputs.1,
            *first,
            *second,
            out,
        ));
        out
    }
}

impl<
    R,
    T,
    I,
    U,
    J,
    V,
    K,
    A,
    B,
    Out,
    F: FnMut(&mut T, &mut U, &V, &A, &B) -> Out,
> IntoMergeStep<R, (&A, &B), Out, (ResMut<T, I>, ResMut<U, J>, Res<V, K>)> for F where
    R: Apart3<V, K, T, I, U, J>,
{
    type Step = MergeStep<F, (ResMut<T, I>, ResMut<U, J>, Res<V, K>)>;

    open spec fn resolved(self) -> MergeStep<F, (ResMut<T, I>, ResMut<U, J>, Res<V, K>)> {
        MergeStep { f: self, params: PhantomData }
    }

    fn into_merge_step(
        self,
        registry: &Registry<R>,
    ) -> (step: MergeStep<F, (ResMut<T, I>, ResMut<U, J>, Res<V, K>)>) {
        MergeStep { f: self, params: PhantomData }
    }
}

impl<
    R,
    T,
    I,
    U,
    J,
    V,
    K,
    A,
    B,
    Out,
    F: FnMut(&mut T, &mut U, &mut V, &A, &B) -> Out,
> MergeStepCall<R, (&A, &B), Out> for MergeStep<F, (ResMut<T, I>, ResMut<U, J>, ResMut<V, K>)> where
    R: Apart3<T, I, U, J, V, K>,
{
    open spec fn call_pre(&self, world: World<R>, inputs: (&A, &B)) -> bool {
        forall|r0: &mut T, r1: &mut U, r2: &mut V| *r0 == world.held::<T, I>()
            && *r1 == world.held::<U, J>()
            && *r2 == world.held::<V, K>()
            ==> #[trigger] call_requires(self.f, (r0, r1, r2, inputs.0, inputs.1))
    }

    open spec fn call_post(
        &self,
        world: World<R>,
        inputs: (&A, &B),
        after: Self,
        world_after: World<R>,
        out: Out,
    ) -> bool {
        &&& after == *self
        &&& exists|held: T, other: U, last: V|
            #[trigger] effect_mmmpp(
                self.f,
                world.held::<T, I>(),
                world.held::<U, J>(),
                world.held::<V, K>(),
                inputs.0,
                inputs.1,
                held,
                other,
                last,
                out,
            )
                && world_after == world.holding::<T, I>(held).holding::<U, J>(other).holding::<V, K>(last)
    }

    fn call(&mut self, world: &mut World<R>, inputs: (&A, &B)) -> (out: Out) {
        broadcast use vstd::function::group_function_axioms;

        let (first, second, third) = world.three_mut::<T, I, U, J, V, K>();
        let out = (self.f)(&mut *first, &mut *second, &mut *third, inputs.0, inputs.1);
        record(
            effect_mmmpp_fact::<T, U, V, &A, &B, Out, F>,
            Ghost((
                old(self).f,
                old(world).held::<T, I>(),
                old(world).held::<U, J>(),
                old(world).held::<V, K>(),
                inputs.0,
                inputs.1,
                *first,
                *second,
                *third,
                out,
            )),
        );
        assert(effect_mmmpp(
            old(self).f,
            old(world).held::<T, I>(),
            old(world).held::<U, J>(),
            old(world).held::<V, K>(),
            inputs.0,
            inputs.1,
            *first,
            *second,
            *third,
            out,
        ));
        out
    }
}

impl<
    R,
    T,
    I,
    U,
    J,
    V,
    K,
    A,
    B,
    Out,
    F: FnMut(&mut T, &mut U, &mut V, &A, &B) -> Out,
> IntoMergeStep<R, (&A, &B), Out, (ResMut<T, I>, ResMut<U, J>, ResMut<V, K>)> for F where
    R: Apart3<T, I, U, J, V, K>,
{
    type Step = MergeStep<F, (ResMut<T, I>, ResMut<U, J>, ResMut<V, K>)>;

    open spec fn resolved(self) -> MergeStep<F, (ResMut<T, I>, ResMut<U, J>, ResMut<V, K>)> {
        MergeStep { f: self, params: PhantomData }
    }

    fn into_merge_step(
        self,
        registry: &Registry<R>,
    ) -> (step: MergeStep<F, (ResMut<T, I>, ResMut<U, J>, ResMut<V, K>)>) {
        MergeStep { f: self, params: PhantomData }
    }
}

impl<
    R,
    T,
    I,
    U,
    J,
    V,
    K,
    A,
    B,
    D,
    Out,
    F: FnMut(&T, &U, &V, &A, &B, &D) -> Out,
> MergeStepCall<R, (&A, &B, &D), Out> for MergeStep<F, (Res<T, I>, Res<U, J>, Res<V, K>)> where
    R: Resource<T, I> + Resource<U, J> + Resource<V, K>,
{
    open spec fn call_pre(&self, world: World<R>, inputs: (&A, &B, &D)) -> bool {
        call_requires(
            self.f,
            (
                &world.held::<T, I>(),
                &world.held::<U, J>(),
                &world.held::<V, K>(),
                inputs.0,
                inputs.1,
                inputs.2,
            ),
        )
    }

    open spec fn call_post(
        &self,
        world: World<R>,
        inputs: (&A, &B, &D),
        after: Self,
        world_after: World<R>,
        out: Out,
    ) -> bool {
        &&& after == *self
        &&& world_after == world
        &&& call_ensures(
            self.f,
            (
                &world.held::<T, I>(),
                &world.held::<U, J>(),
                &world.held::<V, K>(),
                inputs.0,
                inputs.1,
                inputs.2,
            ),
            out,
        )
    }

    fn call(&mut self, world: &mut World<R>, inputs: (&A, &B, &D)) -> (out: Out) {
        broadcast use vstd::function::group_function_axioms;

        (self.f)(
            world.resource::<T, I>(),
            world.resource::<U, J>(),
            world.resource::<V, K>(),
            inputs.0,
            inputs.1,
            inputs.2,
        )
    }
}

impl<
    R,
    T,
    I,
    U,
    J,
    V,
    K,
    A,
    B,
    D,
    Out,
    F: FnMut(&T, &U, &V, &A, &B, &D) -> Out,
> IntoMergeStep<R, (&A, &B, &D), Out, (Res<T, I>, Res<U, J>, Res<V, K>)> for F where
    R: Resource<T, I> + Resource<U, J> + Resource<V, K>,
{
    type Step = MergeStep<F, (Res<T, I>, Res<U, J>, Res<V, K>)>;

    open spec fn resolved(self) -> MergeStep<F, (Res<T, I>, Res<U, J>, Res<V, K>)> {
        MergeStep { f: self, params: PhantomData }
    }

    fn into_merge_step(
        self,
        registry: &Registry<R>,
    ) -> (step: MergeStep<F, (Res<T, I>, Res<U, J>, Res<V, K>)>) {
        MergeStep { f: self, params: PhantomData }
    }
}

impl<
    R,
    T,
    I,
    U,
    J,
    V,
    K,
    A,
    B,
    D,
    Out,
    F: FnMut(&T, &U, &mut V, &A, &B, &D) -> Out,
> MergeStepCall<R, (&A, &B, &D), Out> for MergeStep<F, (Res<T, I>, Res<U, J>, ResMut<V, K>)> where
    R: Apart3<T, I, U, J, V, K>,
{
    open spec fn call_pre(&self, world: World<R>, inputs: (&A, &B, &D)) -> bool {
        forall|r2: &mut V| *r2 == world.held::<V, K>()
            ==> #[trigger] call_requires(
                self.f,
                (&world.held::<T, I>(), &world.held::<U, J>(), r2, inputs.0, inputs.1, inputs.2),
            )
    }

    open spec fn call_post(
        &self,
        world: World<R>,
        inputs: (&A, &B, &D),
        after: Self,
        world_after: World<R>,
        out: Out,
    ) -> bool {
        &&& after == *self
        &&& exists|held: V|
            #[trigger] effect_ppmppp(
                self.f,
                &world.held::<T, I>(),
                &world.held::<U, J>(),
                world.held::<V, K>(),
                inputs.0,
                inputs.1,
                inputs.2,
                held,
                out,
            )
                && world_after == world.holding::<V, K>(held)
    }

    fn call(&mut self, world: &mut World<R>, inputs: (&A, &B, &D)) -> (out: Out) {
        broadcast use vstd::function::group_function_axioms;

        let (first, second, third) = world.beside_two_mut::<T, I, U, J, V, K>();
        let out = (self.f)(first, second, &mut *third, inputs.0, inputs.1, inputs.2);
        record(
            effect_ppmppp_fact::<&T, &U, V, &A, &B, &D, Out, F>,
            Ghost((
                old(self).f,
                &old(world).held::<T, I>(),
                &old(world).held::<U, J>(),
                old(world).held::<V, K>(),
                inputs.0,
                inputs.1,
                inputs.2,
                *third,
                out,
            )),
        );
        assert(effect_ppmppp(
            old(self).f,
            &old(world).held::<T, I>(),
            &old(world).held::<U, J>(),
            old(world).held::<V, K>(),
            inputs.0,
            inputs.1,
            inputs.2,
            *third,
            out,
        ));
        out
    }
}

impl<
    R,
    T,
    I,
    U,
    J,
    V,
    K,
    A,
    B,
    D,
    Out,
    F: FnMut(&T, &U, &mut V, &A, &B, &D) -> Out,
> IntoMergeStep<R, (&A, &B, &D), Out, (Res<T, I>, Res<U, J>, ResMut<V, K>)> for F where
    R: Apart3<T, I, U, J, V, K>,
{
    type Step = MergeStep<F, (Res<T, I>, Res<U, J>, ResMut<V, K>)>;

    open spec fn resolved(self) -> MergeStep<F, (Res<T, I>, Res<U, J>, ResMut<V, K>)> {
        MergeStep { f: self, params: PhantomData }
    }

    fn into_merge_step(
        self,
        registry: &Registry<R>,
    ) -> (step: MergeStep<F, (Res<T, I>, Res<U, J>, ResMut<V, K>)>) {
        MergeStep { f: self, params: PhantomData }
    }
}

impl<
    R,
    T,
    I,
    U,
    J,
    V,
    K,
    A,
    B,
    D,
    Out,
    F: FnMut(&T, &mut U, &V, &A, &B, &D) -> Out,
> MergeStepCall<R, (&A, &B, &D), Out> for MergeStep<F, (Res<T, I>, ResMut<U, J>, Res<V, K>)> where
    R: Apart3<T, I, V, K, U, J>,
{
    open spec fn call_pre(&self, world: World<R>, inputs: (&A, &B, &D)) -> bool {
        forall|r1: &mut U| *r1 == world.held::<U, J>()
            ==> #[trigger] call_requires(
                self.f,
                (&world.held::<T, I>(), r1, &world.held::<V, K>(), inputs.0, inputs.1, inputs.2),
            )
    }

    open spec fn call_post(
        &self,
        world: World<R>,
        inputs: (&A, &B, &D),
        after: Self,
        world_after: World<R>,
        out: Out,
    ) -> bool {
        &&& after == *self
        &&& exists|held: U|
            #[trigger] effect_pmpppp(
                self.f,
                &world.held::<T, I>(),
                world.held::<U, J>(),
                &world.held::<V, K>(),
                inputs.0,
                inputs.1,
                inputs.2,
                held,
                out,
            )
                && world_after == world.holding::<U, J>(held)
    }

    fn call(&mut self, world: &mut World<R>, inputs: (&A, &B, &D)) -> (out: Out) {
        broadcast use vstd::function::group_function_axioms;

        let (first, third, second) = world.beside_two_mut::<T, I, V, K, U, J>();
        let out = (self.f)(first, &mut *second, third, inputs.0, inputs.1, inputs.2);
        record(
            effect_pmpppp_fact::<&T, U, &V, &A, &B, &D, Out, F>,
            Ghost((
                old(self).f,
                &old(world).held::<T, I>(),
                old(world).held::<U, J>(),
                &old(world).held::<V, K>(),
                inputs.0,
                inputs.1,
                inputs.2,
                *second,
                out,
            )),
        );
        assert(effect_pmpppp(
            old(self).f,
            &old(world).held::<T, I>(),
            old(world).held::<U, J>(),
            &old(world).held::<V, K>(),
            inputs.0,
            inputs.1,
            inputs.2,
            *second,
            out,
        ));
        out
    }
}

impl<
    R,
    T,
    I,
    U,
    J,
    V,
    K,
    A,
    B,
    D,
    Out,
    F: FnMut(&T, &mut U, &V, &A, &B, &D) -> Out,
> IntoMergeStep<R, (&A, &B, &D), Out, (Res<T, I>, ResMut<U, J>, Res<V, K>)> for F where
    R: Apart3<T, I, V, K, U, J>,
{
    type Step = MergeStep<F, (Res<T, I>, ResMut<U, J>, Res<V, K>)>;

    open spec fn resolved(self) -> MergeStep<F, (Res<T, I>, ResMut<U, J>, Res<V, K>)> {
        MergeStep { f: self, params: PhantomData }
    }

    fn into_merge_step(
        self,
        registry: &Registry<R>,
    ) -> (step: MergeStep<F, (Res<T, I>, ResMut<U, J>, Res<V, K>)>) {
        MergeStep { f: self, params: PhantomData }
    }
}

impl<
    R,
    T,
    I,
    U,
    J,
    V,
    K,
    A,
    B,
    D,
    Out,
    F: FnMut(&T, &mut U, &mut V, &A, &B, &D) -> Out,
> MergeStepCall<R, (&A, &B, &D), Out> for MergeStep<
    F,
    (Res<T, I>, ResMut<U, J>, ResMut<V, K>),
> where
    R: Apart3<T, I, U, J, V, K>,
{
    open spec fn call_pre(&self, world: World<R>, inputs: (&A, &B, &D)) -> bool {
        forall|r1: &mut U, r2: &mut V| *r1 == world.held::<U, J>() && *r2 == world.held::<V, K>()
            ==> #[trigger] call_requires(
                self.f,
                (&world.held::<T, I>(), r1, r2, inputs.0, inputs.1, inputs.2),
            )
    }

    open spec fn call_post(
        &self,
        world: World<R>,
        inputs: (&A, &B, &D),
        after: Self,
        world_after: World<R>,
        out: Out,
    ) -> bool {
        &&& after == *self
        &&& exists|held: U, other: V|
            #[trigger] effect_pmmppp(
                self.f,
                &world.held::<T, I>(),
                world.held::<U, J>(),
                world.held::<V, K>(),
                inputs.0,
                inputs.1,
                inputs.2,
                held,
                other,
                out,
            )
                && world_after == world.holding::<U, J>(held).holding::<V, K>(other)
    }

    fn call(&mut self, world: &mut World<R>, inputs: (&A, &B, &D)) -> (out: Out) {
        broadcast use vstd::function::group_function_axioms;

        let (first, second, third) = world.beside_both_mut::<T, I, U, J, V, K>();
        let out = (self.f)(first, &mut *second, &mut *third, inputs.0, inputs.1, inputs.2);
        record(
            effect_pmmppp_fact::<&T, U, V, &A, &B, &D, Out, F>,
            Ghost((
                old(self).f,
                &old(world).held::<T, I>(),
                old(world).held::<U, J>(),
                old(world).held::<V, K>(),
                inputs.0,
                inputs.1,
                inputs.2,
                *second,
                *third,
                out,
            )),
        );
        assert(effect_pmmppp(
            old(self).f,
            &old(world).held::<T, I>(),
            old(world).held::<U, J>(),
            old(world).held::<V, K>(),
            inputs.0,
            inputs.1,
            inputs.2,
            *second,
            *third,
            out,
        ));
        out
    }
}

impl<
    R,
    T,
    I,
    U,
    J,
    V,
    K,
    A,
    B,
    D,
    Out,
    F: FnMut(&T, &mut U, &mut V, &A, &B, &D) -> Out,
> IntoMergeStep<R, (&A, &B, &D), Out, (Res<T, I>, ResMut<U, J>, ResMut<V, K>)> for F where
    R: Apart3<T, I, U, J, V, K>,
{
    type Step = MergeStep<F, (Res<T, I>, ResMut<U, J>, ResMut<V, K>)>;

    open spec fn resolved(self) -> MergeStep<F, (Res<T, I>, ResMut<U, J>, ResMut<V, K>)> {
        MergeStep { f: self, params: PhantomData }
    }

    fn into_merge_step(
        self,
        registry: &Registry<R>,
    ) -> (step: MergeStep<F, (Res<T, I>, ResMut<U, J>, ResMut<V, K>)>) {
        MergeStep { f: self, params: PhantomData }
    }
}

impl<
    R,
    T,
    I,
    U,
    J,
    V,
    K,
    A,
    B,
    D,
    Out,
    F: FnMut(&mut T, &U, &V, &A, &B, &D) -> Out,
> MergeStepCall<R, (&A, &B, &D), Out> for MergeStep<F, (ResMut<T, I>, Res<U, J>, Res<V, K>)> where
    R: Apart3<U, J, V, K, T, I>,
{
    open spec fn call_pre(&self, world: World<R>, inputs: (&A, &B, &D)) -> bool {
        forall|r0: &mut T| *r0 == world.held::<T, I>()
            ==> #[trigger] call_requires(
                self.f,
                (r0, &world.held::<U, J>(), &world.held::<V, K>(), inputs.0, inputs.1, inputs.2),
            )
    }

    open spec fn call_post(
        &self,
        world: World<R>,
        inputs: (&A, &B, &D),
        after: Self,
        world_after: World<R>,
        out: Out,
    ) -> bool {
        &&& after == *self
        &&& exists|held: T|
            #[trigger] effect_mppppp(
                self.f,
                world.held::<T, I>(),
                &world.held::<U, J>(),
                &world.held::<V, K>(),
                inputs.0,
                inputs.1,
                inputs.2,
                held,
                out,
            )
                && world_after == world.holding::<T, I>(held)
    }

    fn call(&mut self, world: &mut World<R>, inputs: (&A, &B, &D)) -> (out: Out) {
        broadcast use vstd::function::group_function_axioms;

        let (second, third, first) = world.beside_two_mut::<U, J, V, K, T, I>();
        let out = (self.f)(&mut *first, second, third, inputs.0, inputs.1, inputs.2);
        record(
            effect_mppppp_fact::<T, &U, &V, &A, &B, &D, Out, F>,
            Ghost((
                old(self).f,
                old(world).held::<T, I>(),
                &old(world).held::<U, J>(),
                &old(world).held::<V, K>(),
                inputs.0,
                inputs.1,
                inputs.2,
                *first,
                out,
            )),
        );
        assert(effect_mppppp(
            old(self).f,
            old(world).held::<T, I>(),
            &old(world).held::<U, J>(),
            &old(world).held::<V, K>(),
            inputs.0,
            inputs.1,
            inputs.2,
            *first,
            out,
        ));
        out
    }
}

impl<
    R,
    T,
    I,
    U,
    J,
    V,
    K,
    A,
    B,
    D,
    Out,
    F: FnMut(&mut T, &U, &V, &A, &B, &D) -> Out,
> IntoMergeStep<R, (&A, &B, &D), Out, (ResMut<T, I>, Res<U, J>, Res<V, K>)> for F where
    R: Apart3<U, J, V, K, T, I>,
{
    type Step = MergeStep<F, (ResMut<T, I>, Res<U, J>, Res<V, K>)>;

    open spec fn resolved(self) -> MergeStep<F, (ResMut<T, I>, Res<U, J>, Res<V, K>)> {
        MergeStep { f: self, params: PhantomData }
    }

    fn into_merge_step(
        self,
        registry: &Registry<R>,
    ) -> (step: MergeStep<F, (ResMut<T, I>, Res<U, J>, Res<V, K>)>) {
        MergeStep { f: self, params: PhantomData }
    }
}

impl<
    R,
    T,
    I,
    U,
    J,
    V,
    K,
    A,
    B,
    D,
    Out,
    F: FnMut(&mut T, &U, &mut V, &A, &B, &D) -> Out,
> MergeStepCall<R, (&A, &B, &D), Out> for MergeStep<
    F,
    (ResMut<T, I>, Res<U, J>, ResMut<V, K>),
> where
    R: Apart3<U, J, T, I, V, K>,
{
    open spec fn call_pre(&self, world: World<R>, inputs: (&A, &B, &D)) -> bool {
        forall|r0: &mut T, r2: &mut V| *r0 == world.held::<T, I>() && *r2 == world.held::<V, K>()
            ==> #[trigger] call_requires(
                self.f,
                (r0, &world.held::<U, J>(), r2, inputs.0, inputs.1, inputs.2),
            )
    }

    open spec fn call_post(
        &self,
        world: World<R>,
        inputs: (&A, &B, &D),
        after: Self,
        world_after: World<R>,
        out: Out,
    ) -> bool {
        &&& after == *self
        &&& exists|held: T, other: V|
            #[trigger] effect_mpmppp(
                self.f,
                world.held::<T, I>(),
                &world.held::<U, J>(),
                world.held::<V, K>(),
                inputs.0,
                inputs.1,
                inputs.2,
                held,
                other,
                out,
            )
                && world_after == world.holding::<T, I>(held).holding::<V, K>(other)
    }

    fn call(&mut self, world: &mut World<R>, inputs: (&A, &B, &D)) -> (out: Out) {
        broadcast use vstd::function::group_function_axioms;

        let (second, first, third) = world.beside_both_mut::<U, J, T, I, V, K>();
        let out = (self.f)(&mut *first, second, &mut *third, inputs.0, inputs.1, inputs.2);
        record(
            effect_mpmppp_fact::<T, &U, V, &A, &B, &D, Out, F>,
            Ghost((
                old(self).f,
                old(world).held::<T, I>(),
                &old(world).held::<U, J>(),
                old(world).held::<V, K>(),
                inputs.0,
                inputs.1,
                inputs.2,
                *first,
                *third,
                out,
            )),
        );
        assert(effect_mpmppp(
            old(self).f,
            old(world).held::<T, I>(),
            &old(world).held::<U, J>(),
            old(world).held::<V, K>(),
            inputs.0,
            inputs.1,
            inputs.2,
            *first,
            *third,
            out,
        ));
        out
    }
}

impl<
    R,
    T,
    I,
    U,
    J,
    V,
    K,
    A,
    B,
    D,
    Out,
    F: FnMut(&mut T, &U, &mut V, &A, &B, &D) -> Out,
> IntoMergeStep<R, (&A, &B, &D), Out, (ResMut<T, I>, Res<U, J>, ResMut<V, K>)> for F where
    R: Apart3<U, J, T, I, V, K>,
{
    type Step = MergeStep<F, (ResMut<T, I>, Res<U, J>, ResMut<V, K>)>;

    open spec fn resolved(self) -> MergeStep<F, (ResMut<T, I>, Res<U, J>, ResMut<V, K>)> {
        MergeStep { f: self, params: PhantomData }
    }

    fn into_merge_step(
        self,
        registry: &Registry<R>,
    ) -> (step: MergeStep<F, (ResMut<T, I>, Res<U, J>, ResMut<V, K>)>) {
        MergeStep { f: self, params: PhantomData }
    }
}

impl<
    R,
    T,
    I,
    U,
    J,
    V,
    K,
    A,
    B,
    D,
    Out,
    F: FnMut(&mut T, &mut U, &V, &A, &B, &D) -> Out,
> MergeStepCall<R, (&A, &B, &D), Out> for MergeStep<
    F,
    (ResMut<T, I>, ResMut<U, J>, Res<V, K>),
> where
    R: Apart3<V, K, T, I, U, J>,
{
    open spec fn call_pre(&self, world: World<R>, inputs: (&A, &B, &D)) -> bool {
        forall|r0: &mut T, r1: &mut U| *r0 == world.held::<T, I>() && *r1 == world.held::<U, J>()
            ==> #[trigger] call_requires(
                self.f,
                (r0, r1, &world.held::<V, K>(), inputs.0, inputs.1, inputs.2),
            )
    }

    open spec fn call_post(
        &self,
        world: World<R>,
        inputs: (&A, &B, &D),
        after: Self,
        world_after: World<R>,
        out: Out,
    ) -> bool {
        &&& after == *self
        &&& exists|held: T, other: U|
            #[trigger] effect_mmpppp(
                self.f,
                world.held::<T, I>(),
                world.held::<U, J>(),
                &world.held::<V, K>(),
                inputs.0,
                inputs.1,
                inputs.2,
                held,
                other,
                out,
            )
                && world_after == world.holding::<T, I>(held).holding::<U, J>(other)
    }

    fn call(&mut self, world: &mut World<R>, inputs: (&A, &B, &D)) -> (out: Out) {
        broadcast use vstd::function::group_function_axioms;

        let (third, first, second) = world.beside_both_mut::<V, K, T, I, U, J>();
        let out = (self.f)(&mut *first, &mut *second, third, inputs.0, inputs.1, inputs.2);
        record(
            effect_mmpppp_fact::<T, U, &V, &A, &B, &D, Out, F>,
            Ghost((
                old(self).f,
                old(world).held::<T, I>(),
                old(world).held::<U, J>(),
                &old(world).held::<V, K>(),
                inputs.0,
                inputs.1,
                inputs.2,
                *first,
                *second,
                out,
            )),
        );
        assert(effect_mmpppp(
            old(self).f,
            old(world).held::<T, I>(),
            old(world).held::<U, J>(),
            &old(world).held::<V, K>(),
            inputs.0,
            inputs.1,
            inputs.2,
            *first,
            *second,
            out,
        ));
        out
    }
}

impl<
    R,
    T,
    I,
    U,
    J,
    V,
    K,
    A,
    B,
    D,
    Out,
    F: FnMut(&mut T, &mut U, &V, &A, &B, &D) -> Out,
> IntoMergeStep<R, (&A, &B, &D), Out, (ResMut<T, I>, ResMut<U, J>, Res<V, K>)> for F where
    R: Apart3<V, K, T, I, U, J>,
{
    type Step = MergeStep<F, (ResMut<T, I>, ResMut<U, J>, Res<V, K>)>;

    open spec fn resolved(self) -> MergeStep<F, (ResMut<T, I>, ResMut<U, J>, Res<V, K>)> {
        MergeStep { f: self, params: PhantomData }
    }

    fn into_merge_step(
        self,
        registry: &Registry<R>,
    ) -> (step: MergeStep<F, (ResMut<T, I>, ResMut<U, J>, Res<V, K>)>) {
        MergeStep { f: self, params: PhantomData }
    }
}

impl<
    R,
    T,
    I,
    U,
    J,
    V,
    K,
    A,
    B,
    D,
    Out,
    F: FnMut(&mut T, &mut U, &mut V, &A, &B, &D) -> Out,
> MergeStepCall<R, (&A, &B, &D), Out> for MergeStep<
    F,
    (ResMut<T, I>, ResMut<U, J>, ResMut<V, K>),
> where
    R: Apart3<T, I, U, J, V, K>,
{
    open spec fn call_pre(&self, world: World<R>, inputs: (&A, &B, &D)) -> bool {
        forall|r0: &mut T, r1: &mut U, r2: &mut V| *r0 == world.held::<T, I>()
            && *r1 == world.held::<U, J>()
            && *r2 == world.held::<V, K>()
            ==> #[trigger] call_requires(self.f, (r0, r1, r2, inputs.0, inputs.1, inputs.2))
    }

    open spec fn call_post(
        &self,
        world: World<R>,
        inputs: (&A, &B, &D),
        after: Self,
        world_after: World<R>,
        out: Out,
    ) -> bool {
        &&& after == *self
        &&& exists|held: T, other: U, last: V|
            #[trigger] effect_mmmppp(
                self.f,
                world.held::<T, I>(),
                world.held::<U, J>(),
                world.held::<V, K>(),
                inputs.0,
                inputs.1,
                inputs.2,
                held,
                other,
                last,
                out,
            )
                && world_after == world.holding::<T, I>(held).holding::<U, J>(other).holding::<V, K>(last)
    }

    fn call(&mut self, world: &mut World<R>, inputs: (&A, &B, &D)) -> (out: Out) {
        broadcast use vstd::function::group_function_axioms;

        let (first, second, third) = world.three_mut::<T, I, U, J, V, K>();
        let out = (self.f)(&mut *first, &mut *second, &mut *third, inputs.0, inputs.1, inputs.2);
        record(
            effect_mmmppp_fact::<T, U, V, &A, &B, &D, Out, F>,
            Ghost((
                old(self).f,
                old(world).held::<T, I>(),
                old(world).held::<U, J>(),
                old(world).held::<V, K>(),
                inputs.0,
                inputs.1,
                inputs.2,
                *first,
                *second,
                *third,
                out,
            )),
        );
        assert(effect_mmmppp(
            old(self).f,
            old(world).held::<T, I>(),
            old(world).held::<U, J>(),
            old(world).held::<V, K>(),
            inputs.0,
            inputs.1,
            inputs.2,
            *first,
            *second,
            *third,
            out,
        ));
        out
    }
}

impl<
    R,
    T,
    I,
    U,
    J,
    V,
    K,
    A,
    B,
    D,
    Out,
    F: FnMut(&mut T, &mut U, &mut V, &A, &B, &D) -> Out,
> IntoMergeStep<R, (&A, &B, &D), Out, (ResMut<T, I>, ResMut<U, J>, ResMut<V, K>)> for F where
    R: Apart3<T, I, U, J, V, K>,
{
    type Step = MergeStep<F, (ResMut<T, I>, ResMut<U, J>, ResMut<V, K>)>;

    open spec fn resolved(self) -> MergeStep<F, (ResMut<T, I>, ResMut<U, J>, ResMut<V, K>)> {
        MergeStep { f: self, params: PhantomData }
    }

    fn into_merge_step(
        self,
        registry: &Registry<R>,
    ) -> (step: MergeStep<F, (ResMut<T, I>, ResMut<U, J>, ResMut<V, K>)>) {
        MergeStep { f: self, params: PhantomData }
    }
}

impl<
    R,
    T,
    I,
    U,
    J,
    V,
    K,
    A,
    B,
    D,
    E,
    Out,
    F: FnMut(&T, &U, &V, &A, &B, &D, &E) -> Out,
> MergeStepCall<R, (&A, &B, &D, &E), Out> for MergeStep<F, (Res<T, I>, Res<U, J>, Res<V, K>)> where
    R: Resource<T, I> + Resource<U, J> + Resource<V, K>,
{
    open spec fn call_pre(&self, world: World<R>, inputs: (&A, &B, &D, &E)) -> bool {
        call_requires(
            self.f,
            (
                &world.held::<T, I>(),
                &world.held::<U, J>(),
                &world.held::<V, K>(),
                inputs.0,
                inputs.1,
                inputs.2,
                inputs.3,
            ),
        )
    }

    open spec fn call_post(
        &self,
        world: World<R>,
        inputs: (&A, &B, &D, &E),
        after: Self,
        world_after: World<R>,
        out: Out,
    ) -> bool {
        &&& after == *self
        &&& world_after == world
        &&& call_ensures(
            self.f,
            (
                &world.held::<T, I>(),
                &world.held::<U, J>(),
                &world.held::<V, K>(),
                inputs.0,
                inputs.1,
                inputs.2,
                inputs.3,
            ),
            out,
        )
    }

    fn call(&mut self, world: &mut World<R>, inputs: (&A, &B, &D, &E)) -> (out: Out) {
        broadcast use vstd::function::group_function_axioms;

        (self.f)(
            world.resource::<T, I>(),
            world.resource::<U, J>(),
            world.resource::<V, K>(),
            inputs.0,
            inputs.1,
            inputs.2,
            inputs.3,
        )
    }
}

impl<
    R,
    T,
    I,
    U,
    J,
    V,
    K,
    A,
    B,
    D,
    E,
    Out,
    F: FnMut(&T, &U, &V, &A, &B, &D, &E) -> Out,
> IntoMergeStep<R, (&A, &B, &D, &E), Out, (Res<T, I>, Res<U, J>, Res<V, K>)> for F where
    R: Resource<T, I> + Resource<U, J> + Resource<V, K>,
{
    type Step = MergeStep<F, (Res<T, I>, Res<U, J>, Res<V, K>)>;

    open spec fn resolved(self) -> MergeStep<F, (Res<T, I>, Res<U, J>, Res<V, K>)> {
        MergeStep { f: self, params: PhantomData }
    }

    fn into_merge_step(
        self,
        registry: &Registry<R>,
    ) -> (step: MergeStep<F, (Res<T, I>, Res<U, J>, Res<V, K>)>) {
        MergeStep { f: self, params: PhantomData }
    }
}

impl<
    R,
    T,
    I,
    U,
    J,
    V,
    K,
    A,
    B,
    D,
    E,
    Out,
    F: FnMut(&T, &U, &mut V, &A, &B, &D, &E) -> Out,
> MergeStepCall<R, (&A, &B, &D, &E), Out> for MergeStep<F, (Res<T, I>, Res<U, J>, ResMut<V, K>)> where
    R: Apart3<T, I, U, J, V, K>,
{
    open spec fn call_pre(&self, world: World<R>, inputs: (&A, &B, &D, &E)) -> bool {
        forall|r2: &mut V| *r2 == world.held::<V, K>()
            ==> #[trigger] call_requires(
                self.f,
                (
                    &world.held::<T, I>(),
                    &world.held::<U, J>(),
                    r2,
                    inputs.0,
                    inputs.1,
                    inputs.2,
                    inputs.3,
                ),
            )
    }

    open spec fn call_post(
        &self,
        world: World<R>,
        inputs: (&A, &B, &D, &E),
        after: Self,
        world_after: World<R>,
        out: Out,
    ) -> bool {
        &&& after == *self
        &&& exists|held: V|
            #[trigger] effect_ppmpppp(
                self.f,
                &world.held::<T, I>(),
                &world.held::<U, J>(),
                world.held::<V, K>(),
                inputs.0,
                inputs.1,
                inputs.2,
                inputs.3,
                held,
                out,
            )
                && world_after == world.holding::<V, K>(held)
    }

    fn call(&mut self, world: &mut World<R>, inputs: (&A, &B, &D, &E)) -> (out: Out) {
        broadcast use vstd::function::group_function_axioms;

        let (first, second, third) = world.beside_two_mut::<T, I, U, J, V, K>();
        let out = (self.f)(first, second, &mut *third, inputs.0, inputs.1, inputs.2, inputs.3);
        record(
            effect_ppmpppp_fact::<&T, &U, V, &A, &B, &D, &E, Out, F>,
            Ghost((
                old(self).f,
                &old(world).held::<T, I>(),
                &old(world).held::<U, J>(),
                old(world).held::<V, K>(),
                inputs.0,
                inputs.1,
                inputs.2,
                inputs.3,
                *third,
                out,
            )),
        );
        assert(effect_ppmpppp(
            old(self).f,
            &old(world).held::<T, I>(),
            &old(world).held::<U, J>(),
            old(world).held::<V, K>(),
            inputs.0,
            inputs.1,
            inputs.2,
            inputs.3,
            *third,
            out,
        ));
        out
    }
}

impl<
    R,
    T,
    I,
    U,
    J,
    V,
    K,
    A,
    B,
    D,
    E,
    Out,
    F: FnMut(&T, &U, &mut V, &A, &B, &D, &E) -> Out,
> IntoMergeStep<R, (&A, &B, &D, &E), Out, (Res<T, I>, Res<U, J>, ResMut<V, K>)> for F where
    R: Apart3<T, I, U, J, V, K>,
{
    type Step = MergeStep<F, (Res<T, I>, Res<U, J>, ResMut<V, K>)>;

    open spec fn resolved(self) -> MergeStep<F, (Res<T, I>, Res<U, J>, ResMut<V, K>)> {
        MergeStep { f: self, params: PhantomData }
    }

    fn into_merge_step(
        self,
        registry: &Registry<R>,
    ) -> (step: MergeStep<F, (Res<T, I>, Res<U, J>, ResMut<V, K>)>) {
        MergeStep { f: self, params: PhantomData }
    }
}

impl<
    R,
    T,
    I,
    U,
    J,
    V,
    K,
    A,
    B,
    D,
    E,
    Out,
    F: FnMut(&T, &mut U, &V, &A, &B, &D, &E) -> Out,
> MergeStepCall<R, (&A, &B, &D, &E), Out> for MergeStep<F, (Res<T, I>, ResMut<U, J>, Res<V, K>)> where
    R: Apart3<T, I, V, K, U, J>,
{
    open spec fn call_pre(&self, world: World<R>, inputs: (&A, &B, &D, &E)) -> bool {
        forall|r1: &mut U| *r1 == world.held::<U, J>()
            ==> #[trigger] call_requires(
                self.f,
                (
                    &world.held::<T, I>(),
                    r1,
                    &world.held::<V, K>(),
                    inputs.0,
                    inputs.1,
                    inputs.2,
                    inputs.3,
                ),
            )
    }

    open spec fn call_post(
        &self,
        world: World<R>,
        inputs: (&A, &B, &D, &E),
        after: Self,
        world_after: World<R>,
        out: Out,
    ) -> bool {
        &&& after == *self
        &&& exists|held: U|
            #[trigger] effect_pmppppp(
                self.f,
                &world.held::<T, I>(),
                world.held::<U, J>(),
                &world.held::<V, K>(),
                inputs.0,
                inputs.1,
                inputs.2,
                inputs.3,
                held,
                out,
            )
                && world_after == world.holding::<U, J>(held)
    }

    fn call(&mut self, world: &mut World<R>, inputs: (&A, &B, &D, &E)) -> (out: Out) {
        broadcast use vstd::function::group_function_axioms;

        let (first, third, second) = world.beside_two_mut::<T, I, V, K, U, J>();
        let out = (self.f)(first, &mut *second, third, inputs.0, inputs.1, inputs.2, inputs.3);
        record(
            effect_pmppppp_fact::<&T, U, &V, &A, &B, &D, &E, Out, F>,
            Ghost((
                old(self).f,
                &old(world).held::<T, I>(),
                old(world).held::<U, J>(),
                &old(world).held::<V, K>(),
                inputs.0,
                inputs.1,
                inputs.2,
                inputs.3,
                *second,
                out,
            )),
        );
        assert(effect_pmppppp(
            old(self).f,
            &old(world).held::<T, I>(),
            old(world).held::<U, J>(),
            &old(world).held::<V, K>(),
            inputs.0,
            inputs.1,
            inputs.2,
            inputs.3,
            *second,
            out,
        ));
        out
    }
}

impl<
    R,
    T,
    I,
    U,
    J,
    V,
    K,
    A,
    B,
    D,
    E,
    Out,
    F: FnMut(&T, &mut U, &V, &A, &B, &D, &E) -> Out,
> IntoMergeStep<R, (&A, &B, &D, &E), Out, (Res<T, I>, ResMut<U, J>, Res<V, K>)> for F where
    R: Apart3<T, I, V, K, U, J>,
{
    type Step = MergeStep<F, (Res<T, I>, ResMut<U, J>, Res<V, K>)>;

    open spec fn resolved(self) -> MergeStep<F, (Res<T, I>, ResMut<U, J>, Res<V, K>)> {
        MergeStep { f: self, params: PhantomData }
    }

    fn into_merge_step(
        self,
        registry: &Registry<R>,
    ) -> (step: MergeStep<F, (Res<T, I>, ResMut<U, J>, Res<V, K>)>) {
        MergeStep { f: self, params: PhantomData }
    }
}

impl<
    R,
    T,
    I,
    U,
    J,
    V,
    K,
    A,
    B,
    D,
    E,
    Out,
    F: FnMut(&T, &mut U, &mut V, &A, &B, &D, &E) -> Out,
> MergeStepCall<R, (&A, &B, &D, &E), Out> for MergeStep<
    F,
    (Res<T, I>, ResMut<U, J>, ResMut<V, K>),
> where
    R: Apart3<T, I, U, J, V, K>,
{
    open spec fn call_pre(&self, world: World<R>, inputs: (&A, &B, &D, &E)) -> bool {
        forall|r1: &mut U, r2: &mut V| *r1 == world.held::<U, J>() && *r2 == world.held::<V, K>()
            ==> #[trigger] call_requires(
                self.f,
                (&world.held::<T, I>(), r1, r2, inputs.0, inputs.1, inputs.2, inputs.3),
            )
    }

    open spec fn call_post(
        &self,
        world: World<R>,
        inputs: (&A, &B, &D, &E),
        after: Self,
        world_after: World<R>,
        out: Out,
    ) -> bool {
        &&& after == *self
        &&& exists|held: U, other: V|
            #[trigger] effect_pmmpppp(
                self.f,
                &world.held::<T, I>(),
                world.held::<U, J>(),
                world.held::<V, K>(),
                inputs.0,
                inputs.1,
                inputs.2,
                inputs.3,
                held,
                other,
                out,
            )
                && world_after == world.holding::<U, J>(held).holding::<V, K>(other)
    }

    fn call(&mut self, world: &mut World<R>, inputs: (&A, &B, &D, &E)) -> (out: Out) {
        broadcast use vstd::function::group_function_axioms;

        let (first, second, third) = world.beside_both_mut::<T, I, U, J, V, K>();
        let out = (self.f)(
            first,
            &mut *second,
            &mut *third,
            inputs.0,
            inputs.1,
            inputs.2,
            inputs.3,
        );
        record(
            effect_pmmpppp_fact::<&T, U, V, &A, &B, &D, &E, Out, F>,
            Ghost((
                old(self).f,
                &old(world).held::<T, I>(),
                old(world).held::<U, J>(),
                old(world).held::<V, K>(),
                inputs.0,
                inputs.1,
                inputs.2,
                inputs.3,
                *second,
                *third,
                out,
            )),
        );
        assert(effect_pmmpppp(
            old(self).f,
            &old(world).held::<T, I>(),
            old(world).held::<U, J>(),
            old(world).held::<V, K>(),
            inputs.0,
            inputs.1,
            inputs.2,
            inputs.3,
            *second,
            *third,
            out,
        ));
        out
    }
}

impl<
    R,
    T,
    I,
    U,
    J,
    V,
    K,
    A,
    B,
    D,
    E,
    Out,
    F: FnMut(&T, &mut U, &mut V, &A, &B, &D, &E) -> Out,
> IntoMergeStep<R, (&A, &B, &D, &E), Out, (Res<T, I>, ResMut<U, J>, ResMut<V, K>)> for F where
    R: Apart3<T, I, U, J, V, K>,
{
    type Step = MergeStep<F, (Res<T, I>, ResMut<U, J>, ResMut<V, K>)>;

    open spec fn resolved(self) -> MergeStep<F, (Res<T, I>, ResMut<U, J>, ResMut<V, K>)> {
        MergeStep { f: self, params: PhantomData }
    }

    fn into_merge_step(
        self,
        registry: &Registry<R>,
    ) -> (step: MergeStep<F, (Res<T, I>, ResMut<U, J>, ResMut<V, K>)>) {
        MergeStep { f: self, params: PhantomData }
    }
}

impl<
    R,
    T,
    I,
    U,
    J,
    V,
    K,
    A,
    B,
    D,
    E,
    Out,
    F: FnMut(&mut T, &U, &V, &A, &B, &D, &E) -> Out,
> MergeStepCall<R, (&A, &B, &D, &E), Out> for MergeStep<F, (ResMut<T, I>, Res<U, J>, Res<V, K>)> where
    R: Apart3<U, J, V, K, T, I>,
{
    open spec fn call_pre(&self, world: World<R>, inputs: (&A, &B, &D, &E)) -> bool {
        forall|r0: &mut T| *r0 == world.held::<T, I>()
            ==> #[trigger] call_requires(
                self.f,
                (
                    r0,
                    &world.held::<U, J>(),
                    &world.held::<V, K>(),
                    inputs.0,
                    inputs.1,
                    inputs.2,
                    inputs.3,
                ),
            )
    }

    open spec fn call_post(
        &self,
        world: World<R>,
        inputs: (&A, &B, &D, &E),
        after: Self,
        world_after: World<R>,
        out: Out,
    ) -> bool {
        &&& after == *self
        &&& exists|held: T|
            #[trigger] effect_mpppppp(
                self.f,
                world.held::<T, I>(),
                &world.held::<U, J>(),
                &world.held::<V, K>(),
                inputs.0,
                inputs.1,
                inputs.2,
                inputs.3,
                held,
                out,
            )
                && world_after == world.holding::<T, I>(held)
    }

    fn call(&mut self, world: &mut World<R>, inputs: (&A, &B, &D, &E)) -> (out: Out) {
        broadcast use vstd::function::group_function_axioms;

        let (second, third, first) = world.beside_two_mut::<U, J, V, K, T, I>();
        let out = (self.f)(&mut *first, second, third, inputs.0, inputs.1, inputs.2, inputs.3);
        record(
            effect_mpppppp_fact::<T, &U, &V, &A, &B, &D, &E, Out, F>,
            Ghost((
                old(self).f,
                old(world).held::<T, I>(),
                &old(world).held::<U, J>(),
                &old(world).held::<V, K>(),
                inputs.0,
                inputs.1,
                inputs.2,
                inputs.3,
                *first,
                out,
            )),
        );
        assert(effect_mpppppp(
            old(self).f,
            old(world).held::<T, I>(),
            &old(world).held::<U, J>(),
            &old(world).held::<V, K>(),
            inputs.0,
            inputs.1,
            inputs.2,
            inputs.3,
            *first,
            out,
        ));
        out
    }
}

impl<
    R,
    T,
    I,
    U,
    J,
    V,
    K,
    A,
    B,
    D,
    E,
    Out,
    F: FnMut(&mut T, &U, &V, &A, &B, &D, &E) -> Out,
> IntoMergeStep<R, (&A, &B, &D, &E), Out, (ResMut<T, I>, Res<U, J>, Res<V, K>)> for F where
    R: Apart3<U, J, V, K, T, I>,
{
    type Step = MergeStep<F, (ResMut<T, I>, Res<U, J>, Res<V, K>)>;

    open spec fn resolved(self) -> MergeStep<F, (ResMut<T, I>, Res<U, J>, Res<V, K>)> {
        MergeStep { f: self, params: PhantomData }
    }

    fn into_merge_step(
        self,
        registry: &Registry<R>,
    ) -> (step: MergeStep<F, (ResMut<T, I>, Res<U, J>, Res<V, K>)>) {
        MergeStep { f: self, params: PhantomData }
    }
}

impl<
    R,
    T,
    I,
    U,
    J,
    V,
    K,
    A,
    B,
    D,
    E,
    Out,
    F: FnMut(&mut T, &U, &mut V, &A, &B, &D, &E) -> Out,
> MergeStepCall<R, (&A, &B, &D, &E), Out> for MergeStep<
    F,
    (ResMut<T, I>, Res<U, J>, ResMut<V, K>),
> where
    R: Apart3<U, J, T, I, V, K>,
{
    open spec fn call_pre(&self, world: World<R>, inputs: (&A, &B, &D, &E)) -> bool {
        forall|r0: &mut T, r2: &mut V| *r0 == world.held::<T, I>() && *r2 == world.held::<V, K>()
            ==> #[trigger] call_requires(
                self.f,
                (r0, &world.held::<U, J>(), r2, inputs.0, inputs.1, inputs.2, inputs.3),
            )
    }

    open spec fn call_post(
        &self,
        world: World<R>,
        inputs: (&A, &B, &D, &E),
        after: Self,
        world_after: World<R>,
        out: Out,
    ) -> bool {
        &&& after == *self
        &&& exists|held: T, other: V|
            #[trigger] effect_mpmpppp(
                self.f,
                world.held::<T, I>(),
                &world.held::<U, J>(),
                world.held::<V, K>(),
                inputs.0,
                inputs.1,
                inputs.2,
                inputs.3,
                held,
                other,
                out,
            )
                && world_after == world.holding::<T, I>(held).holding::<V, K>(other)
    }

    fn call(&mut self, world: &mut World<R>, inputs: (&A, &B, &D, &E)) -> (out: Out) {
        broadcast use vstd::function::group_function_axioms;

        let (second, first, third) = world.beside_both_mut::<U, J, T, I, V, K>();
        let out = (self.f)(
            &mut *first,
            second,
            &mut *third,
            inputs.0,
            inputs.1,
            inputs.2,
            inputs.3,
        );
        record(
            effect_mpmpppp_fact::<T, &U, V, &A, &B, &D, &E, Out, F>,
            Ghost((
                old(self).f,
                old(world).held::<T, I>(),
                &old(world).held::<U, J>(),
                old(world).held::<V, K>(),
                inputs.0,
                inputs.1,
                inputs.2,
                inputs.3,
                *first,
                *third,
                out,
            )),
        );
        assert(effect_mpmpppp(
            old(self).f,
            old(world).held::<T, I>(),
            &old(world).held::<U, J>(),
            old(world).held::<V, K>(),
            inputs.0,
            inputs.1,
            inputs.2,
            inputs.3,
            *first,
            *third,
            out,
        ));
        out
    }
}

impl<
    R,
    T,
    I,
    U,
    J,
    V,
    K,
    A,
    B,
    D,
    E,
    Out,
    F: FnMut(&mut T, &U, &mut V, &A, &B, &D, &E) -> Out,
> IntoMergeStep<R, (&A, &B, &D, &E), Out, (ResMut<T, I>, Res<U, J>, ResMut<V, K>)> for F where
    R: Apart3<U, J, T, I, V, K>,
{
    type Step = MergeStep<F, (ResMut<T, I>, Res<U, J>, ResMut<V, K>)>;

    open spec fn resolved(self) -> MergeStep<F, (ResMut<T, I>, Res<U, J>, ResMut<V, K>)> {
        MergeStep { f: self, params: PhantomData }
    }

    fn into_merge_step(
        self,
        registry: &Registry<R>,
    ) -> (step: MergeStep<F, (ResMut<T, I>, Res<U, J>, ResMut<V, K>)>) {
        MergeStep { f: self, params: PhantomData }
    }
}

impl<
    R,
    T,
    I,
    U,
    J,
    V,
    K,
    A,
    B,
    D,
    E,
    Out,
    F: FnMut(&mut T, &mut U, &V, &A, &B, &D, &E) -> Out,
> MergeStepCall<R, (&A, &B, &D, &E), Out> for MergeStep<
    F,
    (ResMut<T, I>, ResMut<U, J>, Res<V, K>),
> where
    R: Apart3<V, K, T, I, U, J>,
{
    open spec fn call_pre(&self, world: World<R>, inputs: (&A, &B, &D, &E)) -> bool {
        forall|r0: &mut T, r1: &mut U| *r0 == world.held::<T, I>() && *r1 == world.held::<U, J>()
            ==> #[trigger] call_requires(
                self.f,
                (r0, r1, &world.held::<V, K>(), inputs.0, inputs.1, inputs.2, inputs.3),
            )
    }

    open spec fn call_post(
        &self,
        world: World<R>,
        inputs: (&A, &B, &D, &E),
        after: Self,
        world_after: World<R>,
        out: Out,
    ) -> bool {
        &&& after == *self
        &&& exists|held: T, other: U|
            #[trigger] effect_mmppppp(
                self.f,
                world.held::<T, I>(),
                world.held::<U, J>(),
                &world.held::<V, K>(),
                inputs.0,
                inputs.1,
                inputs.2,
                inputs.3,
                held,
                other,
                out,
            )
                && world_after == world.holding::<T, I>(held).holding::<U, J>(other)
    }

    fn call(&mut self, world: &mut World<R>, inputs: (&A, &B, &D, &E)) -> (out: Out) {
        broadcast use vstd::function::group_function_axioms;

        let (third, first, second) = world.beside_both_mut::<V, K, T, I, U, J>();
        let out = (self.f)(
            &mut *first,
            &mut *second,
            third,
            inputs.0,
            inputs.1,
            inputs.2,
            inputs.3,
        );
        record(
            effect_mmppppp_fact::<T, U, &V, &A, &B, &D, &E, Out, F>,
            Ghost((
                old(self).f,
                old(world).held::<T, I>(),
                old(world).held::<U, J>(),
                &old(world).held::<V, K>(),
                inputs.0,
                inputs.1,
                inputs.2,
                inputs.3,
                *first,
                *second,
                out,
            )),
        );
        assert(effect_mmppppp(
            old(self).f,
            old(world).held::<T, I>(),
            old(world).held::<U, J>(),
            &old(world).held::<V, K>(),
            inputs.0,
            inputs.1,
            inputs.2,
            inputs.3,
            *first,
            *second,
            out,
        ));
        out
    }
}

impl<
    R,
    T,
    I,
    U,
    J,
    V,
    K,
    A,
    B,
    D,
    E,
    Out,
    F: FnMut(&mut T, &mut U, &V, &A, &B, &D, &E) -> Out,
> IntoMergeStep<R, (&A, &B, &D, &E), Out, (ResMut<T, I>, ResMut<U, J>, Res<V, K>)> for F where
    R: Apart3<V, K, T, I, U, J>,
{
    type Step = MergeStep<F, (ResMut<T, I>, ResMut<U, J>, Res<V, K>)>;

    open spec fn resolved(self) -> MergeStep<F, (ResMut<T, I>, ResMut<U, J>, Res<V, K>)> {
        MergeStep { f: self, params: PhantomData }
    }

    fn into_merge_step(
        self,
        registry: &Registry<R>,
    ) -> (step: MergeStep<F, (ResMut<T, I>, ResMut<U, J>, Res<V, K>)>) {
        MergeStep { f: self, params: PhantomData }
    }
}

impl<
    R,
    T,
    I,
    U,
    J,
    V,
    K,
    A,
    B,
    D,
    E,
    Out,
    F: FnMut(&mut T, &mut U, &mut V, &A, &B, &D, &E) -> Out,
> MergeStepCall<R, (&A, &B, &D, &E), Out> for MergeStep<
    F,
    (ResMut<T, I>, ResMut<U, J>, ResMut<V, K>),
> where
    R: Apart3<T, I, U, J, V, K>,
{
    open spec fn call_pre(&self, world: World<R>, inputs: (&A, &B, &D, &E)) -> bool {
        forall|r0: &mut T, r1: &mut U, r2: &mut V| *r0 == world.held::<T, I>()
            && *r1 == world.held::<U, J>()
            && *r2 == world.held::<V, K>()
            ==> #[trigger] call_requires(
                self.f,
                (r0, r1, r2, inputs.0, inputs.1, inputs.2, inputs.3),
            )
    }

    open spec fn call_post(
        &self,
        world: World<R>,
        inputs: (&A, &B, &D, &E),
        after: Self,
        world_after: World<R>,
        out: Out,
    ) -> bool {
        &&& after == *self
        &&& exists|held: T, other: U, last: V|
            #[trigger] effect_mmmpppp(
                self.f,
                world.held::<T, I>(),
                world.held::<U, J>(),
                world.held::<V, K>(),
                inputs.0,
                inputs.1,
                inputs.2,
                inputs.3,
                held,
                other,
                last,
                out,
            )
                && world_after == world.holding::<T, I>(held).holding::<U, J>(other).holding::<V, K>(last)
    }

    fn call(&mut self, world: &mut World<R>, inputs: (&A, &B, &D, &E)) -> (out: Out) {
        broadcast use vstd::function::group_function_axioms;

        let (first, second, third) = world.three_mut::<T, I, U, J, V, K>();
        let out = (self.f)(
            &mut *first,
            &mut *second,
            &mut *third,
            inputs.0,
            inputs.1,
            inputs.2,
            inputs.3,
        );
        record(
            effect_mmmpppp_fact::<T, U, V, &A, &B, &D, &E, Out, F>,
            Ghost((
                old(self).f,
                old(world).held::<T, I>(),
                old(world).held::<U, J>(),
                old(world).held::<V, K>(),
                inputs.0,
                inputs.1,
                inputs.2,
                inputs.3,
                *first,
                *second,
                *third,
                out,
            )),
        );
        assert(effect_mmmpppp(
            old(self).f,
            old(world).held::<T, I>(),
            old(world).held::<U, J>(),
            old(world).held::<V, K>(),
            inputs.0,
            inputs.1,
            inputs.2,
            inputs.3,
            *first,
            *second,
            *third,
            out,
        ));
        out
    }
}

impl<
    R,
    T,
    I,
    U,
    J,
    V,
    K,
    A,
    B,
    D,
    E,
    Out,
    F: FnMut(&mut T, &mut U, &mut V, &A, &B, &D, &E) -> Out,
> IntoMergeStep<R, (&A, &B, &D, &E), Out, (ResMut<T, I>, ResMut<U, J>, ResMut<V, K>)> for F where
    R: Apart3<T, I, U, J, V, K>,
{
    type Step = MergeStep<F, (ResMut<T, I>, ResMut<U, J>, ResMut<V, K>)>;

    open spec fn resolved(self) -> MergeStep<F, (ResMut<T, I>, ResMut<U, J>, ResMut<V, K>)> {
        MergeStep { f: self, params: PhantomData }
    }

    fn into_merge_step(
        self,
        registry: &Registry<R>,
    ) -> (step: MergeStep<F, (ResMut<T, I>, ResMut<U, J>, ResMut<V, K>)>) {
        MergeStep { f: self, params: PhantomData }
    }
}

impl<
    R,
    T,
    I,
    U,
    J,
    V,
    K,
    A,
    B,
    D,
    E,
    G,
    Out,
    F: FnMut(&T, &U, &V, &A, &B, &D, &E, &G) -> Out,
> MergeStepCall<R, (&A, &B, &D, &E, &G), Out> for MergeStep<F, (Res<T, I>, Res<U, J>, Res<V, K>)> where
    R: Resource<T, I> + Resource<U, J> + Resource<V, K>,
{
    open spec fn call_pre(&self, world: World<R>, inputs: (&A, &B, &D, &E, &G)) -> bool {
        call_requires(
            self.f,
            (
                &world.held::<T, I>(),
                &world.held::<U, J>(),
                &world.held::<V, K>(),
                inputs.0,
                inputs.1,
                inputs.2,
                inputs.3,
                inputs.4,
            ),
        )
    }

    open spec fn call_post(
        &self,
        world: World<R>,
        inputs: (&A, &B, &D, &E, &G),
        after: Self,
        world_after: World<R>,
        out: Out,
    ) -> bool {
        &&& after == *self
        &&& world_after == world
        &&& call_ensures(
            self.f,
            (
                &world.held::<T, I>(),
                &world.held::<U, J>(),
                &world.held::<V, K>(),
                inputs.0,
                inputs.1,
                inputs.2,
                inputs.3,
                inputs.4,
            ),
            out,
        )
    }

    fn call(&mut self, world: &mut World<R>, inputs: (&A, &B, &D, &E, &G)) -> (out: Out) {
        broadcast use vstd::function::group_function_axioms;

        (self.f)(
            world.resource::<T, I>(),
            world.resource::<U, J>(),
            world.resource::<V, K>(),
            inputs.0,
            inputs.1,
            inputs.2,
            inputs.3,
            inputs.4,
        )
    }
}

impl<
    R,
    T,
    I,
    U,
    J,
    V,
    K,
    A,
    B,
    D,
    E,
    G,
    Out,
    F: FnMut(&T, &U, &V, &A, &B, &D, &E, &G) -> Out,
> IntoMergeStep<R, (&A, &B, &D, &E, &G), Out, (Res<T, I>, Res<U, J>, Res<V, K>)> for F where
    R: Resource<T, I> + Resource<U, J> + Resource<V, K>,
{
    type Step = MergeStep<F, (Res<T, I>, Res<U, J>, Res<V, K>)>;

    open spec fn resolved(self) -> MergeStep<F, (Res<T, I>, Res<U, J>, Res<V, K>)> {
        MergeStep { f: self, params: PhantomData }
    }

    fn into_merge_step(
        self,
        registry: &Registry<R>,
    ) -> (step: MergeStep<F, (Res<T, I>, Res<U, J>, Res<V, K>)>) {
        MergeStep { f: self, params: PhantomData }
    }
}

impl<
    R,
    T,
    I,
    U,
    J,
    V,
    K,
    A,
    B,
    D,
    E,
    G,
    Out,
    F: FnMut(&T, &U, &mut V, &A, &B, &D, &E, &G) -> Out,
> MergeStepCall<R, (&A, &B, &D, &E, &G), Out> for MergeStep<F, (Res<T, I>, Res<U, J>, ResMut<V, K>)> where
    R: Apart3<T, I, U, J, V, K>,
{
    open spec fn call_pre(&self, world: World<R>, inputs: (&A, &B, &D, &E, &G)) -> bool {
        forall|r2: &mut V| *r2 == world.held::<V, K>()
            ==> #[trigger] call_requires(
                self.f,
                (
                    &world.held::<T, I>(),
                    &world.held::<U, J>(),
                    r2,
                    inputs.0,
                    inputs.1,
                    inputs.2,
                    inputs.3,
                    inputs.4,
                ),
            )
    }

    open spec fn call_post(
        &self,
        world: World<R>,
        inputs: (&A, &B, &D, &E, &G),
        after: Self,
        world_after: World<R>,
        out: Out,
    ) -> bool {
        &&& after == *self
        &&& exists|held: V|
            #[trigger] effect_ppmppppp(
                self.f,
                &world.held::<T, I>(),
                &world.held::<U, J>(),
                world.held::<V, K>(),
                inputs.0,
                inputs.1,
                inputs.2,
                inputs.3,
                inputs.4,
                held,
                out,
            )
                && world_after == world.holding::<V, K>(held)
    }

    fn call(&mut self, world: &mut World<R>, inputs: (&A, &B, &D, &E, &G)) -> (out: Out) {
        broadcast use vstd::function::group_function_axioms;

        let (first, second, third) = world.beside_two_mut::<T, I, U, J, V, K>();
        let out = (self.f)(
            first,
            second,
            &mut *third,
            inputs.0,
            inputs.1,
            inputs.2,
            inputs.3,
            inputs.4,
        );
        record(
            effect_ppmppppp_fact::<&T, &U, V, &A, &B, &D, &E, &G, Out, F>,
            Ghost((
                old(self).f,
                &old(world).held::<T, I>(),
                &old(world).held::<U, J>(),
                old(world).held::<V, K>(),
                inputs.0,
                inputs.1,
                inputs.2,
                inputs.3,
                inputs.4,
                *third,
                out,
            )),
        );
        assert(effect_ppmppppp(
            old(self).f,
            &old(world).held::<T, I>(),
            &old(world).held::<U, J>(),
            old(world).held::<V, K>(),
            inputs.0,
            inputs.1,
            inputs.2,
            inputs.3,
            inputs.4,
            *third,
            out,
        ));
        out
    }
}

impl<
    R,
    T,
    I,
    U,
    J,
    V,
    K,
    A,
    B,
    D,
    E,
    G,
    Out,
    F: FnMut(&T, &U, &mut V, &A, &B, &D, &E, &G) -> Out,
> IntoMergeStep<R, (&A, &B, &D, &E, &G), Out, (Res<T, I>, Res<U, J>, ResMut<V, K>)> for F where
    R: Apart3<T, I, U, J, V, K>,
{
    type Step = MergeStep<F, (Res<T, I>, Res<U, J>, ResMut<V, K>)>;

    open spec fn resolved(self) -> MergeStep<F, (Res<T, I>, Res<U, J>, ResMut<V, K>)> {
        MergeStep { f: self, params: PhantomData }
    }

    fn into_merge_step(
        self,
        registry: &Registry<R>,
    ) -> (step: MergeStep<F, (Res<T, I>, Res<U, J>, ResMut<V, K>)>) {
        MergeStep { f: self, params: PhantomData }
    }
}

impl<
    R,
    T,
    I,
    U,
    J,
    V,
    K,
    A,
    B,
    D,
    E,
    G,
    Out,
    F: FnMut(&T, &mut U, &V, &A, &B, &D, &E, &G) -> Out,
> MergeStepCall<R, (&A, &B, &D, &E, &G), Out> for MergeStep<F, (Res<T, I>, ResMut<U, J>, Res<V, K>)> where
    R: Apart3<T, I, V, K, U, J>,
{
    open spec fn call_pre(&self, world: World<R>, inputs: (&A, &B, &D, &E, &G)) -> bool {
        forall|r1: &mut U| *r1 == world.held::<U, J>()
            ==> #[trigger] call_requires(
                self.f,
                (
                    &world.held::<T, I>(),
                    r1,
                    &world.held::<V, K>(),
                    inputs.0,
                    inputs.1,
                    inputs.2,
                    inputs.3,
                    inputs.4,
                ),
            )
    }

    open spec fn call_post(
        &self,
        world: World<R>,
        inputs: (&A, &B, &D, &E, &G),
        after: Self,
        world_after: World<R>,
        out: Out,
    ) -> bool {
        &&& after == *self
        &&& exists|held: U|
            #[trigger] effect_pmpppppp(
                self.f,
                &world.held::<T, I>(),
                world.held::<U, J>(),
                &world.held::<V, K>(),
                inputs.0,
                inputs.1,
                inputs.2,
                inputs.3,
                inputs.4,
                held,
                out,
            )
                && world_after == world.holding::<U, J>(held)
    }

    fn call(&mut self, world: &mut World<R>, inputs: (&A, &B, &D, &E, &G)) -> (out: Out) {
        broadcast use vstd::function::group_function_axioms;

        let (first, third, second) = world.beside_two_mut::<T, I, V, K, U, J>();
        let out = (self.f)(
            first,
            &mut *second,
            third,
            inputs.0,
            inputs.1,
            inputs.2,
            inputs.3,
            inputs.4,
        );
        record(
            effect_pmpppppp_fact::<&T, U, &V, &A, &B, &D, &E, &G, Out, F>,
            Ghost((
                old(self).f,
                &old(world).held::<T, I>(),
                old(world).held::<U, J>(),
                &old(world).held::<V, K>(),
                inputs.0,
                inputs.1,
                inputs.2,
                inputs.3,
                inputs.4,
                *second,
                out,
            )),
        );
        assert(effect_pmpppppp(
            old(self).f,
            &old(world).held::<T, I>(),
            old(world).held::<U, J>(),
            &old(world).held::<V, K>(),
            inputs.0,
            inputs.1,
            inputs.2,
            inputs.3,
            inputs.4,
            *second,
            out,
        ));
        out
    }
}

impl<
    R,
    T,
    I,
    U,
    J,
    V,
    K,
    A,
    B,
    D,
    E,
    G,
    Out,
    F: FnMut(&T, &mut U, &V, &A, &B, &D, &E, &G) -> Out,
> IntoMergeStep<R, (&A, &B, &D, &E, &G), Out, (Res<T, I>, ResMut<U, J>, Res<V, K>)> for F where
    R: Apart3<T, I, V, K, U, J>,
{
    type Step = MergeStep<F, (Res<T, I>, ResMut<U, J>, Res<V, K>)>;

    open spec fn resolved(self) -> MergeStep<F, (Res<T, I>, ResMut<U, J>, Res<V, K>)> {
        MergeStep { f: self, params: PhantomData }
    }

    fn into_merge_step(
        self,
        registry: &Registry<R>,
    ) -> (step: MergeStep<F, (Res<T, I>, ResMut<U, J>, Res<V, K>)>) {
        MergeStep { f: self, params: PhantomData }
    }
}

impl<
    R,
    T,
    I,
    U,
    J,
    V,
    K,
    A,
    B,
    D,
    E,
    G,
    Out,
    F: FnMut(&T, &mut U, &mut V, &A, &B, &D, &E, &G) -> Out,
> MergeStepCall<R, (&A, &B, &D, &E, &G), Out> for MergeStep<
    F,
    (Res<T, I>, ResMut<U, J>, ResMut<V, K>),
> where
    R: Apart3<T, I, U, J, V, K>,
{
    open spec fn call_pre(&self, world: World<R>, inputs: (&A, &B, &D, &E, &G)) -> bool {
        forall|r1: &mut U, r2: &mut V| *r1 == world.held::<U, J>() && *r2 == world.held::<V, K>()
            ==> #[trigger] call_requires(
                self.f,
                (&world.held::<T, I>(), r1, r2, inputs.0, inputs.1, inputs.2, inputs.3, inputs.4),
            )
    }

    open spec fn call_post(
        &self,
        world: World<R>,
        inputs: (&A, &B, &D, &E, &G),
        after: Self,
        world_after: World<R>,
        out: Out,
    ) -> bool {
        &&& after == *self
        &&& exists|held: U, other: V|
            #[trigger] effect_pmmppppp(
                self.f,
                &world.held::<T, I>(),
                world.held::<U, J>(),
                world.held::<V, K>(),
                inputs.0,
                inputs.1,
                inputs.2,
                inputs.3,
                inputs.4,
                held,
                other,
                out,
            )
                && world_after == world.holding::<U, J>(held).holding::<V, K>(other)
    }

    fn call(&mut self, world: &mut World<R>, inputs: (&A, &B, &D, &E, &G)) -> (out: Out) {
        broadcast use vstd::function::group_function_axioms;

        let (first, second, third) = world.beside_both_mut::<T, I, U, J, V, K>();
        let out = (self.f)(
            first,
            &mut *second,
            &mut *third,
            inputs.0,
            inputs.1,
            inputs.2,
            inputs.3,
            inputs.4,
        );
        record(
            effect_pmmppppp_fact::<&T, U, V, &A, &B, &D, &E, &G, Out, F>,
            Ghost((
                old(self).f,
                &old(world).held::<T, I>(),
                old(world).held::<U, J>(),
                old(world).held::<V, K>(),
                inputs.0,
                inputs.1,
                inputs.2,
                inputs.3,
                inputs.4,
                *second,
                *third,
                out,
            )),
        );
        assert(effect_pmmppppp(
            old(self).f,
            &old(world).held::<T, I>(),
            old(world).held::<U, J>(),
            old(world).held::<V, K>(),
            inputs.0,
            inputs.1,
            inputs.2,
            inputs.3,
            inputs.4,
            *second,
            *third,
            out,
        ));
        out
    }
}

impl<
    R,
    T,
    I,
    U,
    J,
    V,
    K,
    A,
    B,
    D,
    E,
    G,
    Out,
    F: FnMut(&T, &mut U, &mut V, &A, &B, &D, &E, &G) -> Out,
> IntoMergeStep<R, (&A, &B, &D, &E, &G), Out, (Res<T, I>, ResMut<U, J>, ResMut<V, K>)> for F where
    R: Apart3<T, I, U, J, V, K>,
{
    type Step = MergeStep<F, (Res<T, I>, ResMut<U, J>, ResMut<V, K>)>;

    open spec fn resolved(self) -> MergeStep<F, (Res<T, I>, ResMut<U, J>, ResMut<V, K>)> {
        MergeStep { f: self, params: PhantomData }
    }

    fn into_merge_step(
        self,
        registry: &Registry<R>,
    ) -> (step: MergeStep<F, (Res<T, I>, ResMut<U, J>, ResMut<V, K>)>) {
        MergeStep { f: self, params: PhantomData }
    }
}

impl<
    R,
    T,
    I,
    U,
    J,
    V,
    K,
    A,
    B,
    D,
    E,
    G,
    Out,
    F: FnMut(&mut T, &U, &V, &A, &B, &D, &E, &G) -> Out,
> MergeStepCall<R, (&A, &B, &D, &E, &G), Out> for MergeStep<F, (ResMut<T, I>, Res<U, J>, Res<V, K>)> where
    R: Apart3<U, J, V, K, T, I>,
{
    open spec fn call_pre(&self, world: World<R>, inputs: (&A, &B, &D, &E, &G)) -> bool {
        forall|r0: &mut T| *r0 == world.held::<T, I>()
            ==> #[trigger] call_requires(
                self.f,
                (
                    r0,
                    &world.held::<U, J>(),
                    &world.held::<V, K>(),
                    inputs.0,
                    inputs.1,
                    inputs.2,
                    inputs.3,
                    inputs.4,
                ),
            )
    }

    open spec fn call_post(
        &self,
        world: World<R>,
        inputs: (&A, &B, &D, &E, &G),
        after: Self,
        world_after: World<R>,
        out: Out,
    ) -> bool {
        &&& after == *self
        &&& exists|held: T|
            #[trigger] effect_mppppppp(
                self.f,
                world.held::<T, I>(),
                &world.held::<U, J>(),
                &world.held::<V, K>(),
                inputs.0,
                inputs.1,
                inputs.2,
                inputs.3,
                inputs.4,
                held,
                out,
            )
                && world_after == world.holding::<T, I>(held)
    }

    fn call(&mut self, world: &mut World<R>, inputs: (&A, &B, &D, &E, &G)) -> (out: Out) {
        broadcast use vstd::function::group_function_axioms;

        let (second, third, first) = world.beside_two_mut::<U, J, V, K, T, I>();
        let out = (self.f)(
            &mut *first,
            second,
            third,
            inputs.0,
            inputs.1,
            inputs.2,
            inputs.3,
            inputs.4,
        );
        record(
            effect_mppppppp_fact::<T, &U, &V, &A, &B, &D, &E, &G, Out, F>,
            Ghost((
                old(self).f,
                old(world).held::<T, I>(),
                &old(world).held::<U, J>(),
                &old(world).held::<V, K>(),
                inputs.0,
                inputs.1,
                inputs.2,
                inputs.3,
                inputs.4,
                *first,
                out,
            )),
        );
        assert(effect_mppppppp(
            old(self).f,
            old(world).held::<T, I>(),
            &old(world).held::<U, J>(),
            &old(world).held::<V, K>(),
            inputs.0,
            inputs.1,
            inputs.2,
            inputs.3,
            inputs.4,
            *first,
            out,
        ));
        out
    }
}

impl<
    R,
    T,
    I,
    U,
    J,
    V,
    K,
    A,
    B,
    D,
    E,
    G,
    Out,
    F: FnMut(&mut T, &U, &V, &A, &B, &D, &E, &G) -> Out,
> IntoMergeStep<R, (&A, &B, &D, &E, &G), Out, (ResMut<T, I>, Res<U, J>, Res<V, K>)> for F where
    R: Apart3<U, J, V, K, T, I>,
{
    type Step = MergeStep<F, (ResMut<T, I>, Res<U, J>, Res<V, K>)>;

    open spec fn resolved(self) -> MergeStep<F, (ResMut<T, I>, Res<U, J>, Res<V, K>)> {
        MergeStep { f: self, params: PhantomData }
    }

    fn into_merge_step(
        self,
        registry: &Registry<R>,
    ) -> (step: MergeStep<F, (ResMut<T, I>, Res<U, J>, Res<V, K>)>) {
        MergeStep { f: self, params: PhantomData }
    }
}

impl<
    R,
    T,
    I,
    U,
    J,
    V,
    K,
    A,
    B,
    D,
    E,
    G,
    Out,
    F: FnMut(&mut T, &U, &mut V, &A, &B, &D, &E, &G) -> Out,
> MergeStepCall<R, (&A, &B, &D, &E, &G), Out> for MergeStep<
    F,
    (ResMut<T, I>, Res<U, J>, ResMut<V, K>),
> where
    R: Apart3<U, J, T, I, V, K>,
{
    open spec fn call_pre(&self, world: World<R>, inputs: (&A, &B, &D, &E, &G)) -> bool {
        forall|r0: &mut T, r2: &mut V| *r0 == world.held::<T, I>() && *r2 == world.held::<V, K>()
            ==> #[trigger] call_requires(
                self.f,
                (r0, &world.held::<U, J>(), r2, inputs.0, inputs.1, inputs.2, inputs.3, inputs.4),
            )
    }

    open spec fn call_post(
        &self,
        world: World<R>,
        inputs: (&A, &B, &D, &E, &G),
        after: Self,
        world_after: World<R>,
        out: Out,
    ) -> bool {
        &&& after == *self
        &&& exists|held: T, other: V|
            #[trigger] effect_mpmppppp(
                self.f,
                world.held::<T, I>(),
                &world.held::<U, J>(),
                world.held::<V, K>(),
                inputs.0,
                inputs.1,
                inputs.2,
                inputs.3,
                inputs.4,
                held,
                other,
                out,
            )
                && world_after == world.holding::<T, I>(held).holding::<V, K>(other)
    }

    fn call(&mut self, world: &mut World<R>, inputs: (&A, &B, &D, &E, &G)) -> (out: Out) {
        broadcast use vstd::function::group_function_axioms;

        let (second, first, third) = world.beside_both_mut::<U, J, T, I, V, K>();
        let out = (self.f)(
            &mut *first,
            second,
            &mut *third,
            inputs.0,
            inputs.1,
            inputs.2,
            inputs.3,
            inputs.4,
        );
        record(
            effect_mpmppppp_fact::<T, &U, V, &A, &B, &D, &E, &G, Out, F>,
            Ghost((
                old(self).f,
                old(world).held::<T, I>(),
                &old(world).held::<U, J>(),
                old(world).held::<V, K>(),
                inputs.0,
                inputs.1,
                inputs.2,
                inputs.3,
                inputs.4,
                *first,
                *third,
                out,
            )),
        );
        assert(effect_mpmppppp(
            old(self).f,
            old(world).held::<T, I>(),
            &old(world).held::<U, J>(),
            old(world).held::<V, K>(),
            inputs.0,
            inputs.1,
            inputs.2,
            inputs.3,
            inputs.4,
            *first,
            *third,
            out,
        ));
        out
    }
}

impl<
    R,
    T,
    I,
    U,
    J,
    V,
    K,
    A,
    B,
    D,
    E,
    G,
    Out,
    F: FnMut(&mut T, &U, &mut V, &A, &B, &D, &E, &G) -> Out,
> IntoMergeStep<R, (&A, &B, &D, &E, &G), Out, (ResMut<T, I>, Res<U, J>, ResMut<V, K>)> for F where
    R: Apart3<U, J, T, I, V, K>,
{
    type Step = MergeStep<F, (ResMut<T, I>, Res<U, J>, ResMut<V, K>)>;

    open spec fn resolved(self) -> MergeStep<F, (ResMut<T, I>, Res<U, J>, ResMut<V, K>)> {
        MergeStep { f: self, params: PhantomData }
    }

    fn into_merge_step(
        self,
        registry: &Registry<R>,
    ) -> (step: MergeStep<F, (ResMut<T, I>, Res<U, J>, ResMut<V, K>)>) {
        MergeStep { f: self, params: PhantomData }
    }
}

impl<
    R,
    T,
    I,
    U,
    J,
    V,
    K,
    A,
    B,
    D,
    E,
    G,
    Out,
    F: FnMut(&mut T, &mut U, &V, &A, &B, &D, &E, &G) -> Out,
> MergeStepCall<R, (&A, &B, &D, &E, &G), Out> for MergeStep<
    F,
    (ResMut<T, I>, ResMut<U, J>, Res<V, K>),
> where
    R: Apart3<V, K, T, I, U, J>,
{
    open spec fn call_pre(&self, world: World<R>, inputs: (&A, &B, &D, &E, &G)) -> bool {
        forall|r0: &mut T, r1: &mut U| *r0 == world.held::<T, I>() && *r1 == world.held::<U, J>()
            ==> #[trigger] call_requires(
                self.f,
                (r0, r1, &world.held::<V, K>(), inputs.0, inputs.1, inputs.2, inputs.3, inputs.4),
            )
    }

    open spec fn call_post(
        &self,
        world: World<R>,
        inputs: (&A, &B, &D, &E, &G),
        after: Self,
        world_after: World<R>,
        out: Out,
    ) -> bool {
        &&& after == *self
        &&& exists|held: T, other: U|
            #[trigger] effect_mmpppppp(
                self.f,
                world.held::<T, I>(),
                world.held::<U, J>(),
                &world.held::<V, K>(),
                inputs.0,
                inputs.1,
                inputs.2,
                inputs.3,
                inputs.4,
                held,
                other,
                out,
            )
                && world_after == world.holding::<T, I>(held).holding::<U, J>(other)
    }

    fn call(&mut self, world: &mut World<R>, inputs: (&A, &B, &D, &E, &G)) -> (out: Out) {
        broadcast use vstd::function::group_function_axioms;

        let (third, first, second) = world.beside_both_mut::<V, K, T, I, U, J>();
        let out = (self.f)(
            &mut *first,
            &mut *second,
            third,
            inputs.0,
            inputs.1,
            inputs.2,
            inputs.3,
            inputs.4,
        );
        record(
            effect_mmpppppp_fact::<T, U, &V, &A, &B, &D, &E, &G, Out, F>,
            Ghost((
                old(self).f,
                old(world).held::<T, I>(),
                old(world).held::<U, J>(),
                &old(world).held::<V, K>(),
                inputs.0,
                inputs.1,
                inputs.2,
                inputs.3,
                inputs.4,
                *first,
                *second,
                out,
            )),
        );
        assert(effect_mmpppppp(
            old(self).f,
            old(world).held::<T, I>(),
            old(world).held::<U, J>(),
            &old(world).held::<V, K>(),
            inputs.0,
            inputs.1,
            inputs.2,
            inputs.3,
            inputs.4,
            *first,
            *second,
            out,
        ));
        out
    }
}

impl<
    R,
    T,
    I,
    U,
    J,
    V,
    K,
    A,
    B,
    D,
    E,
    G,
    Out,
    F: FnMut(&mut T, &mut U, &V, &A, &B, &D, &E, &G) -> Out,
> IntoMergeStep<R, (&A, &B, &D, &E, &G), Out, (ResMut<T, I>, ResMut<U, J>, Res<V, K>)> for F where
    R: Apart3<V, K, T, I, U, J>,
{
    type Step = MergeStep<F, (ResMut<T, I>, ResMut<U, J>, Res<V, K>)>;

    open spec fn resolved(self) -> MergeStep<F, (ResMut<T, I>, ResMut<U, J>, Res<V, K>)> {
        MergeStep { f: self, params: PhantomData }
    }

    fn into_merge_step(
        self,
        registry: &Registry<R>,
    ) -> (step: MergeStep<F, (ResMut<T, I>, ResMut<U, J>, Res<V, K>)>) {
        MergeStep { f: self, params: PhantomData }
    }
}

impl<
    R,
    T,
    I,
    U,
    J,
    V,
    K,
    A,
    B,
    D,
    E,
    G,
    Out,
    F: FnMut(&mut T, &mut U, &mut V, &A, &B, &D, &E, &G) -> Out,
> MergeStepCall<R, (&A, &B, &D, &E, &G), Out> for MergeStep<
    F,
    (ResMut<T, I>, ResMut<U, J>, ResMut<V, K>),
> where
    R: Apart3<T, I, U, J, V, K>,
{
    open spec fn call_pre(&self, world: World<R>, inputs: (&A, &B, &D, &E, &G)) -> bool {
        forall|r0: &mut T, r1: &mut U, r2: &mut V| *r0 == world.held::<T, I>()
            && *r1 == world.held::<U, J>()
            && *r2 == world.held::<V, K>()
            ==> #[trigger] call_requires(
                self.f,
                (r0, r1, r2, inputs.0, inputs.1, inputs.2, inputs.3, inputs.4),
            )
    }

    open spec fn call_post(
        &self,
        world: World<R>,
        inputs: (&A, &B, &D, &E, &G),
        after: Self,
        world_after: World<R>,
        out: Out,
    ) -> bool {
        &&& after == *self
        &&& exists|held: T, other: U, last: V|
            #[trigger] effect_mmmppppp(
                self.f,
                world.held::<T, I>(),
                world.held::<U, J>(),
                world.held::<V, K>(),
                inputs.0,
                inputs.1,
                inputs.2,
                inputs.3,
                inputs.4,
                held,
                other,
                last,
                out,
            )
                && world_after == world.holding::<T, I>(held).holding::<U, J>(other).holding::<V, K>(last)
    }

    fn call(&mut self, world: &mut World<R>, inputs: (&A, &B, &D, &E, &G)) -> (out: Out) {
        broadcast use vstd::function::group_function_axioms;

        let (first, second, third) = world.three_mut::<T, I, U, J, V, K>();
        let out = (self.f)(
            &mut *first,
            &mut *second,
            &mut *third,
            inputs.0,
            inputs.1,
            inputs.2,
            inputs.3,
            inputs.4,
        );
        record(
            effect_mmmppppp_fact::<T, U, V, &A, &B, &D, &E, &G, Out, F>,
            Ghost((
                old(self).f,
                old(world).held::<T, I>(),
                old(world).held::<U, J>(),
                old(world).held::<V, K>(),
                inputs.0,
                inputs.1,
                inputs.2,
                inputs.3,
                inputs.4,
                *first,
                *second,
                *third,
                out,
            )),
        );
        assert(effect_mmmppppp(
            old(self).f,
            old(world).held::<T, I>(),
            old(world).held::<U, J>(),
            old(world).held::<V, K>(),
            inputs.0,
            inputs.1,
            inputs.2,
            inputs.3,
            inputs.4,
            *first,
            *second,
            *third,
            out,
        ));
        out
    }
}

impl<
    R,
    T,
    I,
    U,
    J,
    V,
    K,
    A,
    B,
    D,
    E,
    G,
    Out,
    F: FnMut(&mut T, &mut U, &mut V, &A, &B, &D, &E, &G) -> Out,
> IntoMergeStep<
    R,
    (&A, &B, &D, &E, &G),
    Out,
    (ResMut<T, I>, ResMut<U, J>, ResMut<V, K>),
> for F where
    R: Apart3<T, I, U, J, V, K>,
{
    type Step = MergeStep<F, (ResMut<T, I>, ResMut<U, J>, ResMut<V, K>)>;

    open spec fn resolved(self) -> MergeStep<F, (ResMut<T, I>, ResMut<U, J>, ResMut<V, K>)> {
        MergeStep { f: self, params: PhantomData }
    }

    fn into_merge_step(
        self,
        registry: &Registry<R>,
    ) -> (step: MergeStep<F, (ResMut<T, I>, ResMut<U, J>, ResMut<V, K>)>) {
        MergeStep { f: self, params: PhantomData }
    }
}

} // verus!
