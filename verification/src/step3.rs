//! Functions of three resources as steps of a pipeline.
use crate::effect::{
    effect_mmm, effect_mmm_fact, effect_mmmm, effect_mmmm_fact, effect_mmmmp, effect_mmmmp_fact,
    effect_mmmp, effect_mmmp_fact, effect_mmp, effect_mmp_fact, effect_mmpm, effect_mmpm_fact,
    effect_mmpmp, effect_mmpmp_fact, effect_mmpp, effect_mmpp_fact, effect_mpm, effect_mpm_fact,
    effect_mpmm, effect_mpmm_fact, effect_mpmmp, effect_mpmmp_fact, effect_mpmp, effect_mpmp_fact,
    effect_mpp, effect_mpp_fact, effect_mppm, effect_mppm_fact, effect_mppmp, effect_mppmp_fact,
    effect_mppp, effect_mppp_fact, effect_pmm, effect_pmm_fact, effect_pmmm, effect_pmmm_fact,
    effect_pmmmp, effect_pmmmp_fact, effect_pmmp, effect_pmmp_fact, effect_pmp, effect_pmp_fact,
    effect_pmpm, effect_pmpm_fact, effect_pmpmp, effect_pmpmp_fact, effect_pmpp, effect_pmpp_fact,
    effect_ppm, effect_ppm_fact, effect_ppmm, effect_ppmm_fact, effect_ppmmp, effect_ppmmp_fact,
    effect_ppmp, effect_ppmp_fact, effect_pppm, effect_pppm_fact, effect_pppmp, effect_pppmp_fact,
    record,
};
use crate::handler::NoEvent;
use crate::step::{
    IntoProducer, IntoRefScanStep, IntoRefStep, IntoScanStep, IntoStep, ProducerCall,
    RefScanStepCall, RefStepCall, ScanStepCall, Step, StepCall,
};
use crate::world::{Apart3, Registry, Res, ResMut, Resource, World};
use std::marker::PhantomData;
use vstd::prelude::*;

verus! {

impl<
    R,
    T,
    I,
    U,
    J,
    V,
    K,
    In,
    Out,
    F: FnMut(&T, &U, &V, In) -> Out,
> StepCall<R, In> for Step<F, (Res<T, I>, Res<U, J>, Res<V, K>), Out> where
    R: Resource<T, I> + Resource<U, J> + Resource<V, K>,
{
    type Out = Out;

    open spec fn call_pre(&self, world: World<R>, input: In) -> bool {
        call_requires(
            self.f,
            (&world.held::<T, I>(), &world.held::<U, J>(), &world.held::<V, K>(), input),
        )
    }

    open spec fn call_post(
        &self,
        world: World<R>,
        input: In,
        after: Self,
        world_after: World<R>,
        out: Out,
    ) -> bool {
        &&& after == *self
        &&& world_after == world
        &&& call_ensures(
            self.f,
            (&world.held::<T, I>(), &world.held::<U, J>(), &world.held::<V, K>(), input),
            out,
        )
    }

    fn call(&mut self, world: &mut World<R>, input: In) -> (out: Out) {
        broadcast use vstd::function::group_function_axioms;

        (self.f)(
            world.resource::<T, I>(),
            world.resource::<U, J>(),
            world.resource::<V, K>(),
            input,
        )
    }
}

impl<
    R,
    T,
    I,
    U,
    J,
    V,
    K,
    In,
    Out,
    F: FnMut(&T, &U, &V, In) -> Out,
> IntoStep<R, In, Out, (Res<T, I>, Res<U, J>, Res<V, K>)> for F where
    R: Resource<T, I> + Resource<U, J> + Resource<V, K>,
{
    type Step = Step<F, (Res<T, I>, Res<U, J>, Res<V, K>), Out>;

    open spec fn resolved(self) -> Step<F, (Res<T, I>, Res<U, J>, Res<V, K>), Out> {
        Step { f: self, params: PhantomData }
    }

    fn into_step(
        self,
        registry: &Registry<R>,
    ) -> (step: Step<F, (Res<T, I>, Res<U, J>, Res<V, K>), Out>) {
        Step { f: self, params: PhantomData }
    }
}

impl<
    R,
    T,
    I,
    U,
    J,
    V,
    K,
    In,
    Out,
    F: FnMut(&T, &U, &mut V, In) -> Out,
> StepCall<R, In> for Step<F, (Res<T, I>, Res<U, J>, ResMut<V, K>), Out> where
    R: Apart3<T, I, U, J, V, K>,
{
    type Out = Out;

    open spec fn call_pre(&self, world: World<R>, input: In) -> bool {
        forall|r2: &mut V| *r2 == world.held::<V, K>()
            ==> #[trigger] call_requires(
                self.f,
                (&world.held::<T, I>(), &world.held::<U, J>(), r2, input),
            )
    }

    open spec fn call_post(
        &self,
        world: World<R>,
        input: In,
        after: Self,
        world_after: World<R>,
        out: Out,
    ) -> bool {
        &&& after == *self
        &&& exists|held: V|
            #[trigger] effect_ppmp(
                self.f,
                &world.held::<T, I>(),
                &world.held::<U, J>(),
                world.held::<V, K>(),
                input,
                held,
                out,
            )
                && world_after == world.holding::<V, K>(held)
    }

    fn call(&mut self, world: &mut World<R>, input: In) -> (out: Out) {
        broadcast use vstd::function::group_function_axioms;

        let ghost input_given = input;
        let (first, second, third) = world.beside_two_mut::<T, I, U, J, V, K>();
        let out = (self.f)(first, second, &mut *third, input);
        record(
            effect_ppmp_fact::<&T, &U, V, In, Out, F>,
            Ghost((
                old(self).f,
                &old(world).held::<T, I>(),
                &old(world).held::<U, J>(),
                old(world).held::<V, K>(),
                input_given,
                *third,
                out,
            )),
        );
        assert(effect_ppmp(
            old(self).f,
            &old(world).held::<T, I>(),
            &old(world).held::<U, J>(),
            old(world).held::<V, K>(),
            input_given,
            *third,
            out,
        ));
        out
    }
}

impl<
    R,
    T,
    I,
    U,
    J,
    V,
    K,
    In,
    Out,
    F: FnMut(&T, &U, &mut V, In) -> Out,
> IntoStep<R, In, Out, (Res<T, I>, Res<U, J>, ResMut<V, K>)> for F where
    R: Apart3<T, I, U, J, V, K>,
{
    type Step = Step<F, (Res<T, I>, Res<U, J>, ResMut<V, K>), Out>;

    open spec fn resolved(self) -> Step<F, (Res<T, I>, Res<U, J>, ResMut<V, K>), Out> {
        Step { f: self, params: PhantomData }
    }

    fn into_step(
        self,
        registry: &Registry<R>,
    ) -> (step: Step<F, (Res<T, I>, Res<U, J>, ResMut<V, K>), Out>) {
        Step { f: self, params: PhantomData }
    }
}

impl<
    R,
    T,
    I,
    U,
    J,
    V,
    K,
    In,
    Out,
    F: FnMut(&T, &mut U, &V, In) -> Out,
> StepCall<R, In> for Step<F, (Res<T, I>, ResMut<U, J>, Res<V, K>), Out> where
    R: Apart3<T, I, V, K, U, J>,
{
    type Out = Out;

    open spec fn call_pre(&self, world: World<R>, input: In) -> bool {
        forall|r1: &mut U| *r1 == world.held::<U, J>()
            ==> #[trigger] call_requires(
                self.f,
                (&world.held::<T, I>(), r1, &world.held::<V, K>(), input),
            )
    }

    open spec fn call_post(
        &self,
        world: World<R>,
        input: In,
        after: Self,
        world_after: World<R>,
        out: Out,
    ) -> bool {
        &&& after == *self
        &&& exists|held: U|
            #[trigger] effect_pmpp(
                self.f,
                &world.held::<T, I>(),
                world.held::<U, J>(),
                &world.held::<V, K>(),
                input,
                held,
                out,
            )
                && world_after == world.holding::<U, J>(held)
    }

    fn call(&mut self, world: &mut World<R>, input: In) -> (out: Out) {
        broadcast use vstd::function::group_function_axioms;

        let ghost input_given = input;
        let (first, third, second) = world.beside_two_mut::<T, I, V, K, U, J>();
        let out = (self.f)(first, &mut *second, third, input);
        record(
            effect_pmpp_fact::<&T, U, &V, In, Out, F>,
            Ghost((
                old(self).f,
                &old(world).held::<T, I>(),
                old(world).held::<U, J>(),
                &old(world).held::<V, K>(),
                input_given,
                *second,
                out,
            )),
        );
        assert(effect_pmpp(
            old(self).f,
            &old(world).held::<T, I>(),
            old(world).held::<U, J>(),
            &old(world).held::<V, K>(),
            input_given,
            *second,
            out,
        ));
        out
    }
}

impl<
    R,
    T,
    I,
    U,
    J,
    V,
    K,
    In,
    Out,
    F: FnMut(&T, &mut U, &V, In) -> Out,
> IntoStep<R, In, Out, (Res<T, I>, ResMut<U, J>, Res<V, K>)> for F where
    R: Apart3<T, I, V, K, U, J>,
{
    type Step = Step<F, (Res<T, I>, ResMut<U, J>, Res<V, K>), Out>;

    open spec fn resolved(self) -> Step<F, (Res<T, I>, ResMut<U, J>, Res<V, K>), Out> {
        Step { f: self, params: PhantomData }
    }

    fn into_step(
        self,
        registry: &Registry<R>,
    ) -> (step: Step<F, (Res<T, I>, ResMut<U, J>, Res<V, K>), Out>) {
        Step { f: self, params: PhantomData }
    }
}

impl<
    R,
    T,
    I,
    U,
    J,
    V,
    K,
    In,
    Out,
    F: FnMut(&T, &mut U, &mut V, In) -> Out,
> StepCall<R, In> for Step<F, (Res<T, I>, ResMut<U, J>, ResMut<V, K>), Out> where
    R: Apart3<T, I, U, J, V, K>,
{
    type Out = Out;

    open spec fn call_pre(&self, world: World<R>, input: In) -> bool {
        forall|r1: &mut U, r2: &mut V| *r1 == world.held::<U, J>() && *r2 == world.held::<V, K>()
            ==> #[trigger] call_requires(self.f, (&world.held::<T, I>(), r1, r2, input))
    }

    open spec fn call_post(
        &self,
        world: World<R>,
        input: In,
        after: Self,
        world_after: World<R>,
        out: Out,
    ) -> bool {
        &&& after == *self
        &&& exists|held: U, other: V|
            #[trigger] effect_pmmp(
                self.f,
                &world.held::<T, I>(),
                world.held::<U, J>(),
                world.held::<V, K>(),
                input,
                held,
                other,
                out,
            )
                && world_after == world.holding::<U, J>(held).holding::<V, K>(other)
    }

    fn call(&mut self, world: &mut World<R>, input: In) -> (out: Out) {
        broadcast use vstd::function::group_function_axioms;

        let ghost input_given = input;
        let (first, second, third) = world.beside_both_mut::<T, I, U, J, V, K>();
        let out = (self.f)(first, &mut *second, &mut *third, input);
        record(
            effect_pmmp_fact::<&T, U, V, In, Out, F>,
            Ghost((
                old(self).f,
                &old(world).held::<T, I>(),
                old(world).held::<U, J>(),
                old(world).held::<V, K>(),
                input_given,
                *second,
                *third,
                out,
            )),
        );
        assert(effect_pmmp(
            old(self).f,
            &old(world).held::<T, I>(),
            old(world).held::<U, J>(),
            old(world).held::<V, K>(),
            input_given,
            *second,
            *third,
            out,
        ));
        out
    }
}

impl<
    R,
    T,
    I,
    U,
    J,
    V,
    K,
    In,
    Out,
    F: FnMut(&T, &mut U, &mut V, In) -> Out,
> IntoStep<R, In, Out, (Res<T, I>, ResMut<U, J>, ResMut<V, K>)> for F where
    R: Apart3<T, I, U, J, V, K>,
{
    type Step = Step<F, (Res<T, I>, ResMut<U, J>, ResMut<V, K>), Out>;

    open spec fn resolved(self) -> Step<F, (Res<T, I>, ResMut<U, J>, ResMut<V, K>), Out> {
        Step { f: self, params: PhantomData }
    }

    fn into_step(
        self,
        registry: &Registry<R>,
    ) -> (step: Step<F, (Res<T, I>, ResMut<U, J>, ResMut<V, K>), Out>) {
        Step { f: self, params: PhantomData }
    }
}

impl<
    R,
    T,
    I,
    U,
    J,
    V,
    K,
    In,
    Out,
    F: FnMut(&mut T, &U, &V, In) -> Out,
> StepCall<R, In> for Step<F, (ResMut<T, I>, Res<U, J>, Res<V, K>), Out> where
    R: Apart3<U, J, V, K, T, I>,
{
    type Out = Out;

    open spec fn call_pre(&self, world: World<R>, input: In) -> bool {
        forall|r0: &mut T| *r0 == world.held::<T, I>()
            ==> #[trigger] call_requires(
                self.f,
                (r0, &world.held::<U, J>(), &world.held::<V, K>(), input),
            )
    }

    open spec fn call_post(
        &self,
        world: World<R>,
        input: In,
        after: Self,
        world_after: World<R>,
        out: Out,
    ) -> bool {
        &&& after == *self
        &&& exists|held: T|
            #[trigger] effect_mppp(
                self.f,
                world.held::<T, I>(),
                &world.held::<U, J>(),
                &world.held::<V, K>(),
                input,
                held,
                out,
            )
                && world_after == world.holding::<T, I>(held)
    }

    fn call(&mut self, world: &mut World<R>, input: In) -> (out: Out) {
        broadcast use vstd::function::group_function_axioms;

        let ghost input_given = input;
        let (second, third, first) = world.beside_two_mut::<U, J, V, K, T, I>();
        let out = (self.f)(&mut *first, second, third, input);
        record(
            effect_mppp_fact::<T, &U, &V, In, Out, F>,
            Ghost((
                old(self).f,
                old(world).held::<T, I>(),
                &old(world).held::<U, J>(),
                &old(world).held::<V, K>(),
                input_given,
                *first,
                out,
            )),
        );
        assert(effect_mppp(
            old(self).f,
            old(world).held::<T, I>(),
            &old(world).held::<U, J>(),
            &old(world).held::<V, K>(),
            input_given,
            *first,
            out,
        ));
        out
    }
}

impl<
    R,
    T,
    I,
    U,
    J,
    V,
    K,
    In,
    Out,
    F: FnMut(&mut T, &U, &V, In) -> Out,
> IntoStep<R, In, Out, (ResMut<T, I>, Res<U, J>, Res<V, K>)> for F where
    R: Apart3<U, J, V, K, T, I>,
{
    type Step = Step<F, (ResMut<T, I>, Res<U, J>, Res<V, K>), Out>;

    open spec fn resolved(self) -> Step<F, (ResMut<T, I>, Res<U, J>, Res<V, K>), Out> {
        Step { f: self, params: PhantomData }
    }

    fn into_step(
        self,
        registry: &Registry<R>,
    ) -> (step: Step<F, (ResMut<T, I>, Res<U, J>, Res<V, K>), Out>) {
        Step { f: self, params: PhantomData }
    }
}

impl<
    R,
    T,
    I,
    U,
    J,
    V,
    K,
    In,
    Out,
    F: FnMut(&mut T, &U, &mut V, In) -> Out,
> StepCall<R, In> for Step<F, (ResMut<T, I>, Res<U, J>, ResMut<V, K>), Out> where
    R: Apart3<U, J, T, I, V, K>,
{
    type Out = Out;

    open spec fn call_pre(&self, world: World<R>, input: In) -> bool {
        forall|r0: &mut T, r2: &mut V| *r0 == world.held::<T, I>() && *r2 == world.held::<V, K>()
            ==> #[trigger] call_requires(self.f, (r0, &world.held::<U, J>(), r2, input))
    }

    open spec fn call_post(
        &self,
        world: World<R>,
        input: In,
        after: Self,
        world_after: World<R>,
        out: Out,
    ) -> bool {
        &&& after == *self
        &&& exists|held: T, other: V|
            #[trigger] effect_mpmp(
                self.f,
                world.held::<T, I>(),
                &world.held::<U, J>(),
                world.held::<V, K>(),
                input,
                held,
                other,
                out,
            )
                && world_after == world.holding::<T, I>(held).holding::<V, K>(other)
    }

    fn call(&mut self, world: &mut World<R>, input: In) -> (out: Out) {
        broadcast use vstd::function::group_function_axioms;

        let ghost input_given = input;
        let (second, first, third) = world.beside_both_mut::<U, J, T, I, V, K>();
        let out = (self.f)(&mut *first, second, &mut *third, input);
        record(
            effect_mpmp_fact::<T, &U, V, In, Out, F>,
            Ghost((
                old(self).f,
                old(world).held::<T, I>(),
                &old(world).held::<U, J>(),
                old(world).held::<V, K>(),
                input_given,
                *first,
                *third,
                out,
            )),
        );
        assert(effect_mpmp(
            old(self).f,
            old(world).held::<T, I>(),
            &old(world).held::<U, J>(),
            old(world).held::<V, K>(),
            input_given,
            *first,
            *third,
            out,
        ));
        out
    }
}

impl<
    R,
    T,
    I,
    U,
    J,
    V,
    K,
    In,
    Out,
    F: FnMut(&mut T, &U, &mut V, In) -> Out,
> IntoStep<R, In, Out, (ResMut<T, I>, Res<U, J>, ResMut<V, K>)> for F where
    R: Apart3<U, J, T, I, V, K>,
{
    type Step = Step<F, (ResMut<T, I>, Res<U, J>, ResMut<V, K>), Out>;

    open spec fn resolved(self) -> Step<F, (ResMut<T, I>, Res<U, J>, ResMut<V, K>), Out> {
        Step { f: self, params: PhantomData }
    }

    fn into_step(
        self,
        registry: &Registry<R>,
    ) -> (step: Step<F, (ResMut<T, I>, Res<U, J>, ResMut<V, K>), Out>) {
        Step { f: self, params: PhantomData }
    }
}

impl<
    R,
    T,
    I,
    U,
    J,
    V,
    K,
    In,
    Out,
    F: FnMut(&mut T, &mut U, &V, In) -> Out,
> StepCall<R, In> for Step<F, (ResMut<T, I>, ResMut<U, J>, Res<V, K>), Out> where
    R: Apart3<V, K, T, I, U, J>,
{
    type Out = Out;

    open spec fn call_pre(&self, world: World<R>, input: In) -> bool {
        forall|r0: &mut T, r1: &mut U| *r0 == world.held::<T, I>() && *r1 == world.held::<U, J>()
            ==> #[trigger] call_requires(self.f, (r0, r1, &world.held::<V, K>(), input))
    }

    open spec fn call_post(
        &self,
        world: World<R>,
        input: In,
        after: Self,
        world_after: World<R>,
        out: Out,
    ) -> bool {
        &&& after == *self
        &&& exists|held: T, other: U|
            #[trigger] effect_mmpp(
                self.f,
                world.held::<T, I>(),
                world.held::<U, J>(),
                &world.held::<V, K>(),
                input,
                held,
                other,
                out,
            )
                && world_after == world.holding::<T, I>(held).holding::<U, J>(other)
    }

    fn call(&mut self, world: &mut World<R>, input: In) -> (out: Out) {
        broadcast use vstd::function::group_function_axioms;

        let ghost input_given = input;
        let (third, first, second) = world.beside_both_mut::<V, K, T, I, U, J>();
        let out = (self.f)(&mut *first, &mut *second, third, input);
        record(
            effect_mmpp_fact::<T, U, &V, In, Out, F>,
            Ghost((
                old(self).f,
                old(world).held::<T, I>(),
                old(world).held::<U, J>(),
                &old(world).held::<V, K>(),
                input_given,
                *first,
                *second,
                out,
            )),
        );
        assert(effect_mmpp(
            old(self).f,
            old(world).held::<T, I>(),
            old(world).held::<U, J>(),
            &old(world).held::<V, K>(),
            input_given,
            *first,
            *second,
            out,
        ));
        out
    }
}

impl<
    R,
    T,
    I,
    U,
    J,
    V,
    K,
    In,
    Out,
    F: FnMut(&mut T, &mut U, &V, In) -> Out,
> IntoStep<R, In, Out, (ResMut<T, I>, ResMut<U, J>, Res<V, K>)> for F where
    R: Apart3<V, K, T, I, U, J>,
{
    type Step = Step<F, (ResMut<T, I>, ResMut<U, J>, Res<V, K>), Out>;

    open spec fn resolved(self) -> Step<F, (ResMut<T, I>, ResMut<U, J>, Res<V, K>), Out> {
        Step { f: self, params: PhantomData }
    }

    fn into_step(
        self,
        registry: &Registry<R>,
    ) -> (step: Step<F, (ResMut<T, I>, ResMut<U, J>, Res<V, K>), Out>) {
        Step { f: self, params: PhantomData }
    }
}

impl<
    R,
    T,
    I,
    U,
    J,
    V,
    K,
    In,
    Out,
    F: FnMut(&mut T, &mut U, &mut V, In) -> Out,
> StepCall<R, In> for Step<F, (ResMut<T, I>, ResMut<U, J>, ResMut<V, K>), Out> where
    R: Apart3<T, I, U, J, V, K>,
{
    type Out = Out;

    open spec fn call_pre(&self, world: World<R>, input: In) -> bool {
        forall|r0: &mut T, r1: &mut U, r2: &mut V| *r0 == world.held::<T, I>()
            && *r1 == world.held::<U, J>()
            && *r2 == world.held::<V, K>()
            ==> #[trigger] call_requires(self.f, (r0, r1, r2, input))
    }

    open spec fn call_post(
        &self,
        world: World<R>,
        input: In,
        after: Self,
        world_after: World<R>,
        out: Out,
    ) -> bool {
        &&& after == *self
        &&& exists|held: T, other: U, last: V|
            #[trigger] effect_mmmp(
                self.f,
                world.held::<T, I>(),
                world.held::<U, J>(),
                world.held::<V, K>(),
                input,
                held,
                other,
                last,
                out,
            )
                && world_after == world.holding::<T, I>(held).holding::<U, J>(other).holding::<V, K>(last)
    }

    fn call(&mut self, world: &mut World<R>, input: In) -> (out: Out) {
        broadcast use vstd::function::group_function_axioms;

        let ghost input_given = input;
        let (first, second, third) = world.three_mut::<T, I, U, J, V, K>();
        let out = (self.f)(&mut *first, &mut *second, &mut *third, input);
        record(
            effect_mmmp_fact::<T, U, V, In, Out, F>,
            Ghost((
                old(self).f,
                old(world).held::<T, I>(),
                old(world).held::<U, J>(),
                old(world).held::<V, K>(),
                input_given,
                *first,
                *second,
                *third,
                out,
            )),
        );
        assert(effect_mmmp(
            old(self).f,
            old(world).held::<T, I>(),
            old(world).held::<U, J>(),
            old(world).held::<V, K>(),
            input_given,
            *first,
            *second,
            *third,
            out,
        ));
        out
    }
}

impl<
    R,
    T,
    I,
    U,
    J,
    V,
    K,
    In,
    Out,
    F: FnMut(&mut T, &mut U, &mut V, In) -> Out,
> IntoStep<R, In, Out, (ResMut<T, I>, ResMut<U, J>, ResMut<V, K>)> for F where
    R: Apart3<T, I, U, J, V, K>,
{
    type Step = Step<F, (ResMut<T, I>, ResMut<U, J>, ResMut<V, K>), Out>;

    open spec fn resolved(self) -> Step<F, (ResMut<T, I>, ResMut<U, J>, ResMut<V, K>), Out> {
        Step { f: self, params: PhantomData }
    }

    fn into_step(
        self,
        registry: &Registry<R>,
    ) -> (step: Step<F, (ResMut<T, I>, ResMut<U, J>, ResMut<V, K>), Out>) {
        Step { f: self, params: PhantomData }
    }
}

impl<
    R,
    T,
    I,
    U,
    J,
    V,
    K,
    Out,
    F: FnMut(&T, &U, &V) -> Out,
> StepCall<R, ()> for Step<NoEvent<F>, (Res<T, I>, Res<U, J>, Res<V, K>), Out> where
    R: Resource<T, I> + Resource<U, J> + Resource<V, K>,
{
    type Out = Out;

    open spec fn call_pre(&self, world: World<R>, input: ()) -> bool {
        call_requires(
            self.f.0,
            (&world.held::<T, I>(), &world.held::<U, J>(), &world.held::<V, K>()),
        )
    }

    open spec fn call_post(
        &self,
        world: World<R>,
        input: (),
        after: Self,
        world_after: World<R>,
        out: Out,
    ) -> bool {
        &&& after == *self
        &&& world_after == world
        &&& call_ensures(
            self.f.0,
            (&world.held::<T, I>(), &world.held::<U, J>(), &world.held::<V, K>()),
            out,
        )
    }

    fn call(&mut self, world: &mut World<R>, input: ()) -> (out: Out) {
        broadcast use vstd::function::group_function_axioms;

        (self.f.0)(world.resource::<T, I>(), world.resource::<U, J>(), world.resource::<V, K>())
    }
}

impl<
    R,
    T,
    I,
    U,
    J,
    V,
    K,
    Out,
    F: FnMut(&T, &U, &V) -> Out,
> IntoStep<R, (), Out, (Res<T, I>, Res<U, J>, Res<V, K>)> for NoEvent<F> where
    R: Resource<T, I> + Resource<U, J> + Resource<V, K>,
{
    type Step = Step<NoEvent<F>, (Res<T, I>, Res<U, J>, Res<V, K>), Out>;

    open spec fn resolved(self) -> Step<NoEvent<F>, (Res<T, I>, Res<U, J>, Res<V, K>), Out> {
        Step { f: self, params: PhantomData }
    }

    fn into_step(
        self,
        registry: &Registry<R>,
    ) -> (step: Step<NoEvent<F>, (Res<T, I>, Res<U, J>, Res<V, K>), Out>) {
        Step { f: self, params: PhantomData }
    }
}

impl<
    R,
    T,
    I,
    U,
    J,
    V,
    K,
    Out,
    F: FnMut(&T, &U, &mut V) -> Out,
> StepCall<R, ()> for Step<NoEvent<F>, (Res<T, I>, Res<U, J>, ResMut<V, K>), Out> where
    R: Apart3<T, I, U, J, V, K>,
{
    type Out = Out;

    open spec fn call_pre(&self, world: World<R>, input: ()) -> bool {
        forall|r2: &mut V| *r2 == world.held::<V, K>()
            ==> #[trigger] call_requires(
                self.f.0,
                (&world.held::<T, I>(), &world.held::<U, J>(), r2),
            )
    }

    open spec fn call_post(
        &self,
        world: World<R>,
        input: (),
        after: Self,
        world_after: World<R>,
        out: Out,
    ) -> bool {
        &&& after == *self
        &&& exists|held: V|
            #[trigger] effect_ppm(
                self.f.0,
                &world.held::<T, I>(),
                &world.held::<U, J>(),
                world.held::<V, K>(),
                held,
                out,
            )
                && world_after == world.holding::<V, K>(held)
    }

    fn call(&mut self, world: &mut World<R>, input: ()) -> (out: Out) {
        broadcast use vstd::function::group_function_axioms;

        let (first, second, third) = world.beside_two_mut::<T, I, U, J, V, K>();
        let out = (self.f.0)(first, second, &mut *third);
        record(
            effect_ppm_fact::<&T, &U, V, Out, F>,
            Ghost((
                old(self).f.0,
                &old(world).held::<T, I>(),
                &old(world).held::<U, J>(),
                old(world).held::<V, K>(),
                *third,
                out,
            )),
        );
        assert(effect_ppm(
            old(self).f.0,
            &old(world).held::<T, I>(),
            &old(world).held::<U, J>(),
            old(world).held::<V, K>(),
            *third,
            out,
        ));
        out
    }
}

impl<
    R,
    T,
    I,
    U,
    J,
    V,
    K,
    Out,
    F: FnMut(&T, &U, &mut V) -> Out,
> IntoStep<R, (), Out, (Res<T, I>, Res<U, J>, ResMut<V, K>)> for NoEvent<F> where
    R: Apart3<T, I, U, J, V, K>,
{
    type Step = Step<NoEvent<F>, (Res<T, I>, Res<U, J>, ResMut<V, K>), Out>;

    open spec fn resolved(self) -> Step<NoEvent<F>, (Res<T, I>, Res<U, J>, ResMut<V, K>), Out> {
        Step { f: self, params: PhantomData }
    }

    fn into_step(
        self,
        registry: &Registry<R>,
    ) -> (step: Step<NoEvent<F>, (Res<T, I>, Res<U, J>, ResMut<V, K>), Out>) {
        Step { f: self, params: PhantomData }
    }
}

impl<
    R,
    T,
    I,
    U,
    J,
    V,
    K,
    Out,
    F: FnMut(&T, &mut U, &V) -> Out,
> StepCall<R, ()> for Step<NoEvent<F>, (Res<T, I>, ResMut<U, J>, Res<V, K>), Out> where
    R: Apart3<T, I, V, K, U, J>,
{
    type Out = Out;

    open spec fn call_pre(&self, world: World<R>, input: ()) -> bool {
        forall|r1: &mut U| *r1 == world.held::<U, J>()
            ==> #[trigger] call_requires(
                self.f.0,
                (&world.held::<T, I>(), r1, &world.held::<V, K>()),
            )
    }

    open spec fn call_post(
        &self,
        world: World<R>,
        input: (),
        after: Self,
        world_after: World<R>,
        out: Out,
    ) -> bool {
        &&& after == *self
        &&& exists|held: U|
            #[trigger] effect_pmp(
                self.f.0,
                &world.held::<T, I>(),
                world.held::<U, J>(),
                &world.held::<V, K>(),
                held,
                out,
            )
                && world_after == world.holding::<U, J>(held)
    }

    fn call(&mut self, world: &mut World<R>, input: ()) -> (out: Out) {
        broadcast use vstd::function::group_function_axioms;

        let (first, third, second) = world.beside_two_mut::<T, I, V, K, U, J>();
        let out = (self.f.0)(first, &mut *second, third);
        record(
            effect_pmp_fact::<&T, U, &V, Out, F>,
            Ghost((
                old(self).f.0,
                &old(world).held::<T, I>(),
                old(world).held::<U, J>(),
                &old(world).held::<V, K>(),
                *second,
                out,
            )),
        );
        assert(effect_pmp(
            old(self).f.0,
            &old(world).held::<T, I>(),
            old(world).held::<U, J>(),
            &old(world).held::<V, K>(),
            *second,
            out,
        ));
        out
    }
}

impl<
    R,
    T,
    I,
    U,
    J,
    V,
    K,
    Out,
    F: FnMut(&T, &mut U, &V) -> Out,
> IntoStep<R, (), Out, (Res<T, I>, ResMut<U, J>, Res<V, K>)> for NoEvent<F> where
    R: Apart3<T, I, V, K, U, J>,
{
    type Step = Step<NoEvent<F>, (Res<T, I>, ResMut<U, J>, Res<V, K>), Out>;

    open spec fn resolved(self) -> Step<NoEvent<F>, (Res<T, I>, ResMut<U, J>, Res<V, K>), Out> {
        Step { f: self, params: PhantomData }
    }

    fn into_step(
        self,
        registry: &Registry<R>,
    ) -> (step: Step<NoEvent<F>, (Res<T, I>, ResMut<U, J>, Res<V, K>), Out>) {
        Step { f: self, params: PhantomData }
    }
}

impl<
    R,
    T,
    I,
    U,
    J,
    V,
    K,
    Out,
    F: FnMut(&T, &mut U, &mut V) -> Out,
> StepCall<R, ()> for Step<NoEvent<F>, (Res<T, I>, ResMut<U, J>, ResMut<V, K>), Out> where
    R: Apart3<T, I, U, J, V, K>,
{
    type Out = Out;

    open spec fn call_pre(&self, world: World<R>, input: ()) -> bool {
        forall|r1: &mut U, r2: &mut V| *r1 == world.held::<U, J>() && *r2 == world.held::<V, K>()
            ==> #[trigger] call_requires(self.f.0, (&world.held::<T, I>(), r1, r2))
    }

    open spec fn call_post(
        &self,
        world: World<R>,
        input: (),
        after: Self,
        world_after: World<R>,
        out: Out,
    ) -> bool {
        &&& after == *self
        &&& exists|held: U, other: V|
            #[trigger] effect_pmm(
                self.f.0,
                &world.held::<T, I>(),
                world.held::<U, J>(),
                world.held::<V, K>(),
                held,
                other,
                out,
            )
                && world_after == world.holding::<U, J>(held).holding::<V, K>(other)
    }

    fn call(&mut self, world: &mut World<R>, input: ()) -> (out: Out) {
        broadcast use vstd::function::group_function_axioms;

        let (first, second, third) = world.beside_both_mut::<T, I, U, J, V, K>();
        let out = (self.f.0)(first, &mut *second, &mut *third);
        record(
            effect_pmm_fact::<&T, U, V, Out, F>,
            Ghost((
                old(self).f.0,
                &old(world).held::<T, I>(),
                old(world).held::<U, J>(),
                old(world).held::<V, K>(),
                *second,
                *third,
                out,
            )),
        );
        assert(effect_pmm(
            old(self).f.0,
            &old(world).held::<T, I>(),
            old(world).held::<U, J>(),
            old(world).held::<V, K>(),
            *second,
            *third,
            out,
        ));
        out
    }
}

impl<
    R,
    T,
    I,
    U,
    J,
    V,
    K,
    Out,
    F: FnMut(&T, &mut U, &mut V) -> Out,
> IntoStep<R, (), Out, (Res<T, I>, ResMut<U, J>, ResMut<V, K>)> for NoEvent<F> where
    R: Apart3<T, I, U, J, V, K>,
{
    type Step = Step<NoEvent<F>, (Res<T, I>, ResMut<U, J>, ResMut<V, K>), Out>;

    open spec fn resolved(self) -> Step<NoEvent<F>, (Res<T, I>, ResMut<U, J>, ResMut<V, K>), Out> {
        Step { f: self, params: PhantomData }
    }

    fn into_step(
        self,
        registry: &Registry<R>,
    ) -> (step: Step<NoEvent<F>, (Res<T, I>, ResMut<U, J>, ResMut<V, K>), Out>) {
        Step { f: self, params: PhantomData }
    }
}

impl<
    R,
    T,
    I,
    U,
    J,
    V,
    K,
    Out,
    F: FnMut(&mut T, &U, &V) -> Out,
> StepCall<R, ()> for Step<NoEvent<F>, (ResMut<T, I>, Res<U, J>, Res<V, K>), Out> where
    R: Apart3<U, J, V, K, T, I>,
{
    type Out = Out;

    open spec fn call_pre(&self, world: World<R>, input: ()) -> bool {
        forall|r0: &mut T| *r0 == world.held::<T, I>()
            ==> #[trigger] call_requires(
                self.f.0,
                (r0, &world.held::<U, J>(), &world.held::<V, K>()),
            )
    }

    open spec fn call_post(
        &self,
        world: World<R>,
        input: (),
        after: Self,
        world_after: World<R>,
        out: Out,
    ) -> bool {
        &&& after == *self
        &&& exists|held: T|
            #[trigger] effect_mpp(
                self.f.0,
                world.held::<T, I>(),
                &world.held::<U, J>(),
                &world.held::<V, K>(),
                held,
                out,
            )
                && world_after == world.holding::<T, I>(held)
    }

    fn call(&mut self, world: &mut World<R>, input: ()) -> (out: Out) {
        broadcast use vstd::function::group_function_axioms;

        let (second, third, first) = world.beside_two_mut::<U, J, V, K, T, I>();
        let out = (self.f.0)(&mut *first, second, third);
        record(
            effect_mpp_fact::<T, &U, &V, Out, F>,
            Ghost((
                old(self).f.0,
                old(world).held::<T, I>(),
                &old(world).held::<U, J>(),
                &old(world).held::<V, K>(),
                *first,
                out,
            )),
        );
        assert(effect_mpp(
            old(self).f.0,
            old(world).held::<T, I>(),
            &old(world).held::<U, J>(),
            &old(world).held::<V, K>(),
            *first,
            out,
        ));
        out
    }
}

impl<
    R,
    T,
    I,
    U,
    J,
    V,
    K,
    Out,
    F: FnMut(&mut T, &U, &V) -> Out,
> IntoStep<R, (), Out, (ResMut<T, I>, Res<U, J>, Res<V, K>)> for NoEvent<F> where
    R: Apart3<U, J, V, K, T, I>,
{
    type Step = Step<NoEvent<F>, (ResMut<T, I>, Res<U, J>, Res<V, K>), Out>;

    open spec fn resolved(self) -> Step<NoEvent<F>, (ResMut<T, I>, Res<U, J>, Res<V, K>), Out> {
        Step { f: self, params: PhantomData }
    }

    fn into_step(
        self,
        registry: &Registry<R>,
    ) -> (step: Step<NoEvent<F>, (ResMut<T, I>, Res<U, J>, Res<V, K>), Out>) {
        Step { f: self, params: PhantomData }
    }
}

impl<
    R,
    T,
    I,
    U,
    J,
    V,
    K,
    Out,
    F: FnMut(&mut T, &U, &mut V) -> Out,
> StepCall<R, ()> for Step<NoEvent<F>, (ResMut<T, I>, Res<U, J>, ResMut<V, K>), Out> where
    R: Apart3<U, J, T, I, V, K>,
{
    type Out = Out;

    open spec fn call_pre(&self, world: World<R>, input: ()) -> bool {
        forall|r0: &mut T, r2: &mut V| *r0 == world.held::<T, I>() && *r2 == world.held::<V, K>()
            ==> #[trigger] call_requires(self.f.0, (r0, &world.held::<U, J>(), r2))
    }

    open spec fn call_post(
        &self,
        world: World<R>,
        input: (),
        after: Self,
        world_after: World<R>,
        out: Out,
    ) -> bool {
        &&& after == *self
        &&& exists|held: T, other: V|
            #[trigger] effect_mpm(
                self.f.0,
                world.held::<T, I>(),
                &world.held::<U, J>(),
                world.held::<V, K>(),
                held,
                other,
                out,
            )
                && world_after == world.holding::<T, I>(held).holding::<V, K>(other)
    }

    fn call(&mut self, world: &mut World<R>, input: ()) -> (out: Out) {
        broadcast use vstd::function::group_function_axioms;

        let (second, first, third) = world.beside_both_mut::<U, J, T, I, V, K>();
        let out = (self.f.0)(&mut *first, second, &mut *third);
        record(
            effect_mpm_fact::<T, &U, V, Out, F>,
            Ghost((
                old(self).f.0,
                old(world).held::<T, I>(),
                &old(world).held::<U, J>(),
                old(world).held::<V, K>(),
                *first,
                *third,
                out,
            )),
        );
        assert(effect_mpm(
            old(self).f.0,
            old(world).held::<T, I>(),
            &old(world).held::<U, J>(),
            old(world).held::<V, K>(),
            *first,
            *third,
            out,
        ));
        out
    }
}

impl<
    R,
    T,
    I,
    U,
    J,
    V,
    K,
    Out,
    F: FnMut(&mut T, &U, &mut V) -> Out,
> IntoStep<R, (), Out, (ResMut<T, I>, Res<U, J>, ResMut<V, K>)> for NoEvent<F> where
    R: Apart3<U, J, T, I, V, K>,
{
    type Step = Step<NoEvent<F>, (ResMut<T, I>, Res<U, J>, ResMut<V, K>), Out>;

    open spec fn resolved(self) -> Step<NoEvent<F>, (ResMut<T, I>, Res<U, J>, ResMut<V, K>), Out> {
        Step { f: self, params: PhantomData }
    }

    fn into_step(
        self,
        registry: &Registry<R>,
    ) -> (step: Step<NoEvent<F>, (ResMut<T, I>, Res<U, J>, ResMut<V, K>), Out>) {
        Step { f: self, params: PhantomData }
    }
}

impl<
    R,
    T,
    I,
    U,
    J,
    V,
    K,
    Out,
    F: FnMut(&mut T, &mut U, &V) -> Out,
> StepCall<R, ()> for Step<NoEvent<F>, (ResMut<T, I>, ResMut<U, J>, Res<V, K>), Out> where
    R: Apart3<V, K, T, I, U, J>,
{
    type Out = Out;

    open spec fn call_pre(&self, world: World<R>, input: ()) -> bool {
        forall|r0: &mut T, r1: &mut U| *r0 == world.held::<T, I>() && *r1 == world.held::<U, J>()
            ==> #[trigger] call_requires(self.f.0, (r0, r1, &world.held::<V, K>()))
    }

    open spec fn call_post(
        &self,
        world: World<R>,
        input: (),
        after: Self,
        world_after: World<R>,
        out: Out,
    ) -> bool {
        &&& after == *self
        &&& exists|held: T, other: U|
            #[trigger] effect_mmp(
                self.f.0,
                world.held::<T, I>(),
                world.held::<U, J>(),
                &world.held::<V, K>(),
                held,
                other,
                out,
            )
                && world_after == world.holding::<T, I>(held).holding::<U, J>(other)
    }

    fn call(&mut self, world: &mut World<R>, input: ()) -> (out: Out) {
        broadcast use vstd::function::group_function_axioms;

        let (third, first, second) = world.beside_both_mut::<V, K, T, I, U, J>();
        let out = (self.f.0)(&mut *first, &mut *second, third);
        record(
            effect_mmp_fact::<T, U, &V, Out, F>,
            Ghost((
                old(self).f.0,
                old(world).held::<T, I>(),
                old(world).held::<U, J>(),
                &old(world).held::<V, K>(),
                *first,
                *second,
                out,
            )),
        );
        assert(effect_mmp(
            old(self).f.0,
            old(world).held::<T, I>(),
            old(world).held::<U, J>(),
            &old(world).held::<V, K>(),
            *first,
            *second,
            out,
        ));
        out
    }
}

impl<
    R,
    T,
    I,
    U,
    J,
    V,
    K,
    Out,
    F: FnMut(&mut T, &mut U, &V) -> Out,
> IntoStep<R, (), Out, (ResMut<T, I>, ResMut<U, J>, Res<V, K>)> for NoEvent<F> where
    R: Apart3<V, K, T, I, U, J>,
{
    type Step = Step<NoEvent<F>, (ResMut<T, I>, ResMut<U, J>, Res<V, K>), Out>;

    open spec fn resolved(self) -> Step<NoEvent<F>, (ResMut<T, I>, ResMut<U, J>, Res<V, K>), Out> {
        Step { f: self, params: PhantomData }
    }

    fn into_step(
        self,
        registry: &Registry<R>,
    ) -> (step: Step<NoEvent<F>, (ResMut<T, I>, ResMut<U, J>, Res<V, K>), Out>) {
        Step { f: self, params: PhantomData }
    }
}

impl<
    R,
    T,
    I,
    U,
    J,
    V,
    K,
    Out,
    F: FnMut(&mut T, &mut U, &mut V) -> Out,
> StepCall<R, ()> for Step<NoEvent<F>, (ResMut<T, I>, ResMut<U, J>, ResMut<V, K>), Out> where
    R: Apart3<T, I, U, J, V, K>,
{
    type Out = Out;

    open spec fn call_pre(&self, world: World<R>, input: ()) -> bool {
        forall|r0: &mut T, r1: &mut U, r2: &mut V| *r0 == world.held::<T, I>()
            && *r1 == world.held::<U, J>()
            && *r2 == world.held::<V, K>()
            ==> #[trigger] call_requires(self.f.0, (r0, r1, r2))
    }

    open spec fn call_post(
        &self,
        world: World<R>,
        input: (),
        after: Self,
        world_after: World<R>,
        out: Out,
    ) -> bool {
        &&& after == *self
        &&& exists|held: T, other: U, last: V|
            #[trigger] effect_mmm(
                self.f.0,
                world.held::<T, I>(),
                world.held::<U, J>(),
                world.held::<V, K>(),
                held,
                other,
                last,
                out,
            )
                && world_after == world.holding::<T, I>(held).holding::<U, J>(other).holding::<V, K>(last)
    }

    fn call(&mut self, world: &mut World<R>, input: ()) -> (out: Out) {
        broadcast use vstd::function::group_function_axioms;

        let (first, second, third) = world.three_mut::<T, I, U, J, V, K>();
        let out = (self.f.0)(&mut *first, &mut *second, &mut *third);
        record(
            effect_mmm_fact::<T, U, V, Out, F>,
            Ghost((
                old(self).f.0,
                old(world).held::<T, I>(),
                old(world).held::<U, J>(),
                old(world).held::<V, K>(),
                *first,
                *second,
                *third,
                out,
            )),
        );
        assert(effect_mmm(
            old(self).f.0,
            old(world).held::<T, I>(),
            old(world).held::<U, J>(),
            old(world).held::<V, K>(),
            *first,
            *second,
            *third,
            out,
        ));
        out
    }
}

impl<
    R,
    T,
    I,
    U,
    J,
    V,
    K,
    Out,
    F: FnMut(&mut T, &mut U, &mut V) -> Out,
> IntoStep<R, (), Out, (ResMut<T, I>, ResMut<U, J>, ResMut<V, K>)> for NoEvent<F> where
    R: Apart3<T, I, U, J, V, K>,
{
    type Step = Step<NoEvent<F>, (ResMut<T, I>, ResMut<U, J>, ResMut<V, K>), Out>;

    open spec fn resolved(
        self,
    ) -> Step<NoEvent<F>, (ResMut<T, I>, ResMut<U, J>, ResMut<V, K>), Out> {
        Step { f: self, params: PhantomData }
    }

    fn into_step(
        self,
        registry: &Registry<R>,
    ) -> (step: Step<NoEvent<F>, (ResMut<T, I>, ResMut<U, J>, ResMut<V, K>), Out>) {
        Step { f: self, params: PhantomData }
    }
}

impl<
    R,
    T,
    I,
    U,
    J,
    V,
    K,
    In,
    Out,
    F: FnMut(&T, &U, &V, &In) -> Out,
> RefStepCall<R, In> for Step<F, (Res<T, I>, Res<U, J>, Res<V, K>), Out> where
    R: Resource<T, I> + Resource<U, J> + Resource<V, K>,
{
    type Out = Out;

    open spec fn call_pre(&self, world: World<R>, input: &In) -> bool {
        call_requires(
            self.f,
            (&world.held::<T, I>(), &world.held::<U, J>(), &world.held::<V, K>(), input),
        )
    }

    open spec fn call_post(
        &self,
        world: World<R>,
        input: &In,
        after: Self,
        world_after: World<R>,
        out: Out,
    ) -> bool {
        &&& after == *self
        &&& world_after == world
        &&& call_ensures(
            self.f,
            (&world.held::<T, I>(), &world.held::<U, J>(), &world.held::<V, K>(), input),
            out,
        )
    }

    fn call(&mut self, world: &mut World<R>, input: &In) -> (out: Out) {
        broadcast use vstd::function::group_function_axioms;

        (self.f)(
            world.resource::<T, I>(),
            world.resource::<U, J>(),
            world.resource::<V, K>(),
            input,
        )
    }
}

impl<
    R,
    T,
    I,
    U,
    J,
    V,
    K,
    In,
    Out,
    F: FnMut(&T, &U, &V, &In) -> Out,
> IntoRefStep<R, In, Out, (Res<T, I>, Res<U, J>, Res<V, K>)> for F where
    R: Resource<T, I> + Resource<U, J> + Resource<V, K>,
{
    type Step = Step<F, (Res<T, I>, Res<U, J>, Res<V, K>), Out>;

    open spec fn resolved(self) -> Step<F, (Res<T, I>, Res<U, J>, Res<V, K>), Out> {
        Step { f: self, params: PhantomData }
    }

    fn into_ref_step(
        self,
        registry: &Registry<R>,
    ) -> (step: Step<F, (Res<T, I>, Res<U, J>, Res<V, K>), Out>) {
        Step { f: self, params: PhantomData }
    }
}

impl<
    R,
    T,
    I,
    U,
    J,
    V,
    K,
    In,
    Out,
    F: FnMut(&T, &U, &mut V, &In) -> Out,
> RefStepCall<R, In> for Step<F, (Res<T, I>, Res<U, J>, ResMut<V, K>), Out> where
    R: Apart3<T, I, U, J, V, K>,
{
    type Out = Out;

    open spec fn call_pre(&self, world: World<R>, input: &In) -> bool {
        forall|r2: &mut V| *r2 == world.held::<V, K>()
            ==> #[trigger] call_requires(
                self.f,
                (&world.held::<T, I>(), &world.held::<U, J>(), r2, input),
            )
    }

    open spec fn call_post(
        &self,
        world: World<R>,
        input: &In,
        after: Self,
        world_after: World<R>,
        out: Out,
    ) -> bool {
        &&& after == *self
        &&& exists|held: V|
            #[trigger] effect_ppmp(
                self.f,
                &world.held::<T, I>(),
                &world.held::<U, J>(),
                world.held::<V, K>(),
                input,
                held,
                out,
            )
                && world_after == world.holding::<V, K>(held)
    }

    fn call(&mut self, world: &mut World<R>, input: &In) -> (out: Out) {
        broadcast use vstd::function::group_function_axioms;

        let ghost input_given = input;
        let (first, second, third) = world.beside_two_mut::<T, I, U, J, V, K>();
        let out = (self.f)(first, second, &mut *third, input);
        record(
            effect_ppmp_fact::<&T, &U, V, &In, Out, F>,
            Ghost((
                old(self).f,
                &old(world).held::<T, I>(),
                &old(world).held::<U, J>(),
                old(world).held::<V, K>(),
                input_given,
                *third,
                out,
            )),
        );
        assert(effect_ppmp(
            old(self).f,
            &old(world).held::<T, I>(),
            &old(world).held::<U, J>(),
            old(world).held::<V, K>(),
            input_given,
            *third,
            out,
        ));
        out
    }
}

impl<
    R,
    T,
    I,
    U,
    J,
    V,
    K,
    In,
    Out,
    F: FnMut(&T, &U, &mut V, &In) -> Out,
> IntoRefStep<R, In, Out, (Res<T, I>, Res<U, J>, ResMut<V, K>)> for F where
    R: Apart3<T, I, U, J, V, K>,
{
    type Step = Step<F, (Res<T, I>, Res<U, J>, ResMut<V, K>), Out>;

    open spec fn resolved(self) -> Step<F, (Res<T, I>, Res<U, J>, ResMut<V, K>), Out> {
        Step { f: self, params: PhantomData }
    }

    fn into_ref_step(
        self,
        registry: &Registry<R>,
    ) -> (step: Step<F, (Res<T, I>, Res<U, J>, ResMut<V, K>), Out>) {
        Step { f: self, params: PhantomData }
    }
}

impl<
    R,
    T,
    I,
    U,
    J,
    V,
    K,
    In,
    Out,
    F: FnMut(&T, &mut U, &V, &In) -> Out,
> RefStepCall<R, In> for Step<F, (Res<T, I>, ResMut<U, J>, Res<V, K>), Out> where
    R: Apart3<T, I, V, K, U, J>,
{
    type Out = Out;

    open spec fn call_pre(&self, world: World<R>, input: &In) -> bool {
        forall|r1: &mut U| *r1 == world.held::<U, J>()
            ==> #[trigger] call_requires(
                self.f,
                (&world.held::<T, I>(), r1, &world.held::<V, K>(), input),
            )
    }

    open spec fn call_post(
        &self,
        world: World<R>,
        input: &In,
        after: Self,
        world_after: World<R>,
        out: Out,
    ) -> bool {
        &&& after == *self
        &&& exists|held: U|
            #[trigger] effect_pmpp(
                self.f,
                &world.held::<T, I>(),
                world.held::<U, J>(),
                &world.held::<V, K>(),
                input,
                held,
                out,
            )
                && world_after == world.holding::<U, J>(held)
    }

    fn call(&mut self, world: &mut World<R>, input: &In) -> (out: Out) {
        broadcast use vstd::function::group_function_axioms;

        let ghost input_given = input;
        let (first, third, second) = world.beside_two_mut::<T, I, V, K, U, J>();
        let out = (self.f)(first, &mut *second, third, input);
        record(
            effect_pmpp_fact::<&T, U, &V, &In, Out, F>,
            Ghost((
                old(self).f,
                &old(world).held::<T, I>(),
                old(world).held::<U, J>(),
                &old(world).held::<V, K>(),
                input_given,
                *second,
                out,
            )),
        );
        assert(effect_pmpp(
            old(self).f,
            &old(world).held::<T, I>(),
            old(world).held::<U, J>(),
            &old(world).held::<V, K>(),
            input_given,
            *second,
            out,
        ));
        out
    }
}

impl<
    R,
    T,
    I,
    U,
    J,
    V,
    K,
    In,
    Out,
    F: FnMut(&T, &mut U, &V, &In) -> Out,
> IntoRefStep<R, In, Out, (Res<T, I>, ResMut<U, J>, Res<V, K>)> for F where
    R: Apart3<T, I, V, K, U, J>,
{
    type Step = Step<F, (Res<T, I>, ResMut<U, J>, Res<V, K>), Out>;

    open spec fn resolved(self) -> Step<F, (Res<T, I>, ResMut<U, J>, Res<V, K>), Out> {
        Step { f: self, params: PhantomData }
    }

    fn into_ref_step(
        self,
        registry: &Registry<R>,
    ) -> (step: Step<F, (Res<T, I>, ResMut<U, J>, Res<V, K>), Out>) {
        Step { f: self, params: PhantomData }
    }
}

impl<
    R,
    T,
    I,
    U,
    J,
    V,
    K,
    In,
    Out,
    F: FnMut(&T, &mut U, &mut V, &In) -> Out,
> RefStepCall<R, In> for Step<F, (Res<T, I>, ResMut<U, J>, ResMut<V, K>), Out> where
    R: Apart3<T, I, U, J, V, K>,
{
    type Out = Out;

    open spec fn call_pre(&self, world: World<R>, input: &In) -> bool {
        forall|r1: &mut U, r2: &mut V| *r1 == world.held::<U, J>() && *r2 == world.held::<V, K>()
            ==> #[trigger] call_requires(self.f, (&world.held::<T, I>(), r1, r2, input))
    }

    open spec fn call_post(
        &self,
        world: World<R>,
        input: &In,
        after: Self,
        world_after: World<R>,
        out: Out,
    ) -> bool {
        &&& after == *self
        &&& exists|held: U, other: V|
            #[trigger] effect_pmmp(
                self.f,
                &world.held::<T, I>(),
                world.held::<U, J>(),
                world.held::<V, K>(),
                input,
                held,
                other,
                out,
            )
                && world_after == world.holding::<U, J>(held).holding::<V, K>(other)
    }

    fn call(&mut self, world: &mut World<R>, input: &In) -> (out: Out) {
        broadcast use vstd::function::group_function_axioms;

        let ghost input_given = input;
        let (first, second, third) = world.beside_both_mut::<T, I, U, J, V, K>();
        let out = (self.f)(first, &mut *second, &mut *third, input);
        record(
            effect_pmmp_fact::<&T, U, V, &In, Out, F>,
            Ghost((
                old(self).f,
                &old(world).held::<T, I>(),
                old(world).held::<U, J>(),
                old(world).held::<V, K>(),
                input_given,
                *second,
                *third,
                out,
            )),
        );
        assert(effect_pmmp(
            old(self).f,
            &old(world).held::<T, I>(),
            old(world).held::<U, J>(),
            old(world).held::<V, K>(),
            input_given,
            *second,
            *third,
            out,
        ));
        out
    }
}

impl<
    R,
    T,
    I,
    U,
    J,
    V,
    K,
    In,
    Out,
    F: FnMut(&T, &mut U, &mut V, &In) -> Out,
> IntoRefStep<R, In, Out, (Res<T, I>, ResMut<U, J>, ResMut<V, K>)> for F where
    R: Apart3<T, I, U, J, V, K>,
{
    type Step = Step<F, (Res<T, I>, ResMut<U, J>, ResMut<V, K>), Out>;

    open spec fn resolved(self) -> Step<F, (Res<T, I>, ResMut<U, J>, ResMut<V, K>), Out> {
        Step { f: self, params: PhantomData }
    }

    fn into_ref_step(
        self,
        registry: &Registry<R>,
    ) -> (step: Step<F, (Res<T, I>, ResMut<U, J>, ResMut<V, K>), Out>) {
        Step { f: self, params: PhantomData }
    }
}

impl<
    R,
    T,
    I,
    U,
    J,
    V,
    K,
    In,
    Out,
    F: FnMut(&mut T, &U, &V, &In) -> Out,
> RefStepCall<R, In> for Step<F, (ResMut<T, I>, Res<U, J>, Res<V, K>), Out> where
    R: Apart3<U, J, V, K, T, I>,
{
    type Out = Out;

    open spec fn call_pre(&self, world: World<R>, input: &In) -> bool {
        forall|r0: &mut T| *r0 == world.held::<T, I>()
            ==> #[trigger] call_requires(
                self.f,
                (r0, &world.held::<U, J>(), &world.held::<V, K>(), input),
            )
    }

    open spec fn call_post(
        &self,
        world: World<R>,
        input: &In,
        after: Self,
        world_after: World<R>,
        out: Out,
    ) -> bool {
        &&& after == *self
        &&& exists|held: T|
            #[trigger] effect_mppp(
                self.f,
                world.held::<T, I>(),
                &world.held::<U, J>(),
                &world.held::<V, K>(),
                input,
                held,
                out,
            )
                && world_after == world.holding::<T, I>(held)
    }

    fn call(&mut self, world: &mut World<R>, input: &In) -> (out: Out) {
        broadcast use vstd::function::group_function_axioms;

        let ghost input_given = input;
        let (second, third, first) = world.beside_two_mut::<U, J, V, K, T, I>();
        let out = (self.f)(&mut *first, second, third, input);
        record(
            effect_mppp_fact::<T, &U, &V, &In, Out, F>,
            Ghost((
                old(self).f,
                old(world).held::<T, I>(),
                &old(world).held::<U, J>(),
                &old(world).held::<V, K>(),
                input_given,
                *first,
                out,
            )),
        );
        assert(effect_mppp(
            old(self).f,
            old(world).held::<T, I>(),
            &old(world).held::<U, J>(),
            &old(world).held::<V, K>(),
            input_given,
            *first,
            out,
        ));
        out
    }
}

impl<
    R,
    T,
    I,
    U,
    J,
    V,
    K,
    In,
    Out,
    F: FnMut(&mut T, &U, &V, &In) -> Out,
> IntoRefStep<R, In, Out, (ResMut<T, I>, Res<U, J>, Res<V, K>)> for F where
    R: Apart3<U, J, V, K, T, I>,
{
    type Step = Step<F, (ResMut<T, I>, Res<U, J>, Res<V, K>), Out>;

    open spec fn resolved(self) -> Step<F, (ResMut<T, I>, Res<U, J>, Res<V, K>), Out> {
        Step { f: self, params: PhantomData }
    }

    fn into_ref_step(
        self,
        registry: &Registry<R>,
    ) -> (step: Step<F, (ResMut<T, I>, Res<U, J>, Res<V, K>), Out>) {
        Step { f: self, params: PhantomData }
    }
}

impl<
    R,
    T,
    I,
    U,
    J,
    V,
    K,
    In,
    Out,
    F: FnMut(&mut T, &U, &mut V, &In) -> Out,
> RefStepCall<R, In> for Step<F, (ResMut<T, I>, Res<U, J>, ResMut<V, K>), Out> where
    R: Apart3<U, J, T, I, V, K>,
{
    type Out = Out;

    open spec fn call_pre(&self, world: World<R>, input: &In) -> bool {
        forall|r0: &mut T, r2: &mut V| *r0 == world.held::<T, I>() && *r2 == world.held::<V, K>()
            ==> #[trigger] call_requires(self.f, (r0, &world.held::<U, J>(), r2, input))
    }

    open spec fn call_post(
        &self,
        world: World<R>,
        input: &In,
        after: Self,
        world_after: World<R>,
        out: Out,
    ) -> bool {
        &&& after == *self
        &&& exists|held: T, other: V|
            #[trigger] effect_mpmp(
                self.f,
                world.held::<T, I>(),
                &world.held::<U, J>(),
                world.held::<V, K>(),
                input,
                held,
                other,
                out,
            )
                && world_after == world.holding::<T, I>(held).holding::<V, K>(other)
    }

    fn call(&mut self, world: &mut World<R>, input: &In) -> (out: Out) {
        broadcast use vstd::function::group_function_axioms;

        let ghost input_given = input;
        let (second, first, third) = world.beside_both_mut::<U, J, T, I, V, K>();
        let out = (self.f)(&mut *first, second, &mut *third, input);
        record(
            effect_mpmp_fact::<T, &U, V, &In, Out, F>,
            Ghost((
                old(self).f,
                old(world).held::<T, I>(),
                &old(world).held::<U, J>(),
                old(world).held::<V, K>(),
                input_given,
                *first,
                *third,
                out,
            )),
        );
        assert(effect_mpmp(
            old(self).f,
            old(world).held::<T, I>(),
            &old(world).held::<U, J>(),
            old(world).held::<V, K>(),
            input_given,
            *first,
            *third,
            out,
        ));
        out
    }
}

impl<
    R,
    T,
    I,
    U,
    J,
    V,
    K,
    In,
    Out,
    F: FnMut(&mut T, &U, &mut V, &In) -> Out,
> IntoRefStep<R, In, Out, (ResMut<T, I>, Res<U, J>, ResMut<V, K>)> for F where
    R: Apart3<U, J, T, I, V, K>,
{
    type Step = Step<F, (ResMut<T, I>, Res<U, J>, ResMut<V, K>), Out>;

    open spec fn resolved(self) -> Step<F, (ResMut<T, I>, Res<U, J>, ResMut<V, K>), Out> {
        Step { f: self, params: PhantomData }
    }

    fn into_ref_step(
        self,
        registry: &Registry<R>,
    ) -> (step: Step<F, (ResMut<T, I>, Res<U, J>, ResMut<V, K>), Out>) {
        Step { f: self, params: PhantomData }
    }
}

impl<
    R,
    T,
    I,
    U,
    J,
    V,
    K,
    In,
    Out,
    F: FnMut(&mut T, &mut U, &V, &In) -> Out,
> RefStepCall<R, In> for Step<F, (ResMut<T, I>, ResMut<U, J>, Res<V, K>), Out> where
    R: Apart3<V, K, T, I, U, J>,
{
    type Out = Out;

    open spec fn call_pre(&self, world: World<R>, input: &In) -> bool {
        forall|r0: &mut T, r1: &mut U| *r0 == world.held::<T, I>() && *r1 == world.held::<U, J>()
            ==> #[trigger] call_requires(self.f, (r0, r1, &world.held::<V, K>(), input))
    }

    open spec fn call_post(
        &self,
        world: World<R>,
        input: &In,
        after: Self,
        world_after: World<R>,
        out: Out,
    ) -> bool {
        &&& after == *self
        &&& exists|held: T, other: U|
            #[trigger] effect_mmpp(
                self.f,
                world.held::<T, I>(),
                world.held::<U, J>(),
                &world.held::<V, K>(),
                input,
                held,
                other,
                out,
            )
                && world_after == world.holding::<T, I>(held).holding::<U, J>(other)
    }

    fn call(&mut self, world: &mut World<R>, input: &In) -> (out: Out) {
        broadcast use vstd::function::group_function_axioms;

        let ghost input_given = input;
        let (third, first, second) = world.beside_both_mut::<V, K, T, I, U, J>();
        let out = (self.f)(&mut *first, &mut *second, third, input);
        record(
            effect_mmpp_fact::<T, U, &V, &In, Out, F>,
            Ghost((
                old(self).f,
                old(world).held::<T, I>(),
                old(world).held::<U, J>(),
                &old(world).held::<V, K>(),
                input_given,
                *first,
                *second,
                out,
            )),
        );
        assert(effect_mmpp(
            old(self).f,
            old(world).held::<T, I>(),
            old(world).held::<U, J>(),
            &old(world).held::<V, K>(),
            input_given,
            *first,
            *second,
            out,
        ));
        out
    }
}

impl<
    R,
    T,
    I,
    U,
    J,
    V,
    K,
    In,
    Out,
    F: FnMut(&mut T, &mut U, &V, &In) -> Out,
> IntoRefStep<R, In, Out, (ResMut<T, I>, ResMut<U, J>, Res<V, K>)> for F where
    R: Apart3<V, K, T, I, U, J>,
{
    type Step = Step<F, (ResMut<T, I>, ResMut<U, J>, Res<V, K>), Out>;

    open spec fn resolved(self) -> Step<F, (ResMut<T, I>, ResMut<U, J>, Res<V, K>), Out> {
        Step { f: self, params: PhantomData }
    }

    fn into_ref_step(
        self,
        registry: &Registry<R>,
    ) -> (step: Step<F, (ResMut<T, I>, ResMut<U, J>, Res<V, K>), Out>) {
        Step { f: self, params: PhantomData }
    }
}

impl<
    R,
    T,
    I,
    U,
    J,
    V,
    K,
    In,
    Out,
    F: FnMut(&mut T, &mut U, &mut V, &In) -> Out,
> RefStepCall<R, In> for Step<F, (ResMut<T, I>, ResMut<U, J>, ResMut<V, K>), Out> where
    R: Apart3<T, I, U, J, V, K>,
{
    type Out = Out;

    open spec fn call_pre(&self, world: World<R>, input: &In) -> bool {
        forall|r0: &mut T, r1: &mut U, r2: &mut V| *r0 == world.held::<T, I>()
            && *r1 == world.held::<U, J>()
            && *r2 == world.held::<V, K>()
            ==> #[trigger] call_requires(self.f, (r0, r1, r2, input))
    }

    open spec fn call_post(
        &self,
        world: World<R>,
        input: &In,
        after: Self,
        world_after: World<R>,
        out: Out,
    ) -> bool {
        &&& after == *self
        &&& exists|held: T, other: U, last: V|
            #[trigger] effect_mmmp(
                self.f,
                world.held::<T, I>(),
                world.held::<U, J>(),
                world.held::<V, K>(),
                input,
                held,
                other,
                last,
                out,
            )
                && world_after == world.holding::<T, I>(held).holding::<U, J>(other).holding::<V, K>(last)
    }

    fn call(&mut self, world: &mut World<R>, input: &In) -> (out: Out) {
        broadcast use vstd::function::group_function_axioms;

        let ghost input_given = input;
        let (first, second, third) = world.three_mut::<T, I, U, J, V, K>();
        let out = (self.f)(&mut *first, &mut *second, &mut *third, input);
        record(
            effect_mmmp_fact::<T, U, V, &In, Out, F>,
            Ghost((
                old(self).f,
                old(world).held::<T, I>(),
                old(world).held::<U, J>(),
                old(world).held::<V, K>(),
                input_given,
                *first,
                *second,
                *third,
                out,
            )),
        );
        assert(effect_mmmp(
            old(self).f,
            old(world).held::<T, I>(),
            old(world).held::<U, J>(),
            old(world).held::<V, K>(),
            input_given,
            *first,
            *second,
            *third,
            out,
        ));
        out
    }
}

impl<
    R,
    T,
    I,
    U,
    J,
    V,
    K,
    In,
    Out,
    F: FnMut(&mut T, &mut U, &mut V, &In) -> Out,
> IntoRefStep<R, In, Out, (ResMut<T, I>, ResMut<U, J>, ResMut<V, K>)> for F where
    R: Apart3<T, I, U, J, V, K>,
{
    type Step = Step<F, (ResMut<T, I>, ResMut<U, J>, ResMut<V, K>), Out>;

    open spec fn resolved(self) -> Step<F, (ResMut<T, I>, ResMut<U, J>, ResMut<V, K>), Out> {
        Step { f: self, params: PhantomData }
    }

    fn into_ref_step(
        self,
        registry: &Registry<R>,
    ) -> (step: Step<F, (ResMut<T, I>, ResMut<U, J>, ResMut<V, K>), Out>) {
        Step { f: self, params: PhantomData }
    }
}

impl<
    R,
    T,
    I,
    U,
    J,
    V,
    K,
    Out,
    F: FnMut(&T, &U, &V) -> Out,
> RefStepCall<R, ()> for Step<NoEvent<F>, (Res<T, I>, Res<U, J>, Res<V, K>), Out> where
    R: Resource<T, I> + Resource<U, J> + Resource<V, K>,
{
    type Out = Out;

    open spec fn call_pre(&self, world: World<R>, input: &()) -> bool {
        call_requires(
            self.f.0,
            (&world.held::<T, I>(), &world.held::<U, J>(), &world.held::<V, K>()),
        )
    }

    open spec fn call_post(
        &self,
        world: World<R>,
        input: &(),
        after: Self,
        world_after: World<R>,
        out: Out,
    ) -> bool {
        &&& after == *self
        &&& world_after == world
        &&& call_ensures(
            self.f.0,
            (&world.held::<T, I>(), &world.held::<U, J>(), &world.held::<V, K>()),
            out,
        )
    }

    fn call(&mut self, world: &mut World<R>, input: &()) -> (out: Out) {
        broadcast use vstd::function::group_function_axioms;

        (self.f.0)(world.resource::<T, I>(), world.resource::<U, J>(), world.resource::<V, K>())
    }
}

impl<
    R,
    T,
    I,
    U,
    J,
    V,
    K,
    Out,
    F: FnMut(&T, &U, &V) -> Out,
> IntoRefStep<R, (), Out, (Res<T, I>, Res<U, J>, Res<V, K>)> for NoEvent<F> where
    R: Resource<T, I> + Resource<U, J> + Resource<V, K>,
{
    type Step = Step<NoEvent<F>, (Res<T, I>, Res<U, J>, Res<V, K>), Out>;

    open spec fn resolved(self) -> Step<NoEvent<F>, (Res<T, I>, Res<U, J>, Res<V, K>), Out> {
        Step { f: self, params: PhantomData }
    }

    fn into_ref_step(
        self,
        registry: &Registry<R>,
    ) -> (step: Step<NoEvent<F>, (Res<T, I>, Res<U, J>, Res<V, K>), Out>) {
        Step { f: self, params: PhantomData }
    }
}

impl<
    R,
    T,
    I,
    U,
    J,
    V,
    K,
    Out,
    F: FnMut(&T, &U, &mut V) -> Out,
> RefStepCall<R, ()> for Step<NoEvent<F>, (Res<T, I>, Res<U, J>, ResMut<V, K>), Out> where
    R: Apart3<T, I, U, J, V, K>,
{
    type Out = Out;

    open spec fn call_pre(&self, world: World<R>, input: &()) -> bool {
        forall|r2: &mut V| *r2 == world.held::<V, K>()
            ==> #[trigger] call_requires(
                self.f.0,
                (&world.held::<T, I>(), &world.held::<U, J>(), r2),
            )
    }

    open spec fn call_post(
        &self,
        world: World<R>,
        input: &(),
        after: Self,
        world_after: World<R>,
        out: Out,
    ) -> bool {
        &&& after == *self
        &&& exists|held: V|
            #[trigger] effect_ppm(
                self.f.0,
                &world.held::<T, I>(),
                &world.held::<U, J>(),
                world.held::<V, K>(),
                held,
                out,
            )
                && world_after == world.holding::<V, K>(held)
    }

    fn call(&mut self, world: &mut World<R>, input: &()) -> (out: Out) {
        broadcast use vstd::function::group_function_axioms;

        let (first, second, third) = world.beside_two_mut::<T, I, U, J, V, K>();
        let out = (self.f.0)(first, second, &mut *third);
        record(
            effect_ppm_fact::<&T, &U, V, Out, F>,
            Ghost((
                old(self).f.0,
                &old(world).held::<T, I>(),
                &old(world).held::<U, J>(),
                old(world).held::<V, K>(),
                *third,
                out,
            )),
        );
        assert(effect_ppm(
            old(self).f.0,
            &old(world).held::<T, I>(),
            &old(world).held::<U, J>(),
            old(world).held::<V, K>(),
            *third,
            out,
        ));
        out
    }
}

impl<
    R,
    T,
    I,
    U,
    J,
    V,
    K,
    Out,
    F: FnMut(&T, &U, &mut V) -> Out,
> IntoRefStep<R, (), Out, (Res<T, I>, Res<U, J>, ResMut<V, K>)> for NoEvent<F> where
    R: Apart3<T, I, U, J, V, K>,
{
    type Step = Step<NoEvent<F>, (Res<T, I>, Res<U, J>, ResMut<V, K>), Out>;

    open spec fn resolved(self) -> Step<NoEvent<F>, (Res<T, I>, Res<U, J>, ResMut<V, K>), Out> {
        Step { f: self, params: PhantomData }
    }

    fn into_ref_step(
        self,
        registry: &Registry<R>,
    ) -> (step: Step<NoEvent<F>, (Res<T, I>, Res<U, J>, ResMut<V, K>), Out>) {
        Step { f: self, params: PhantomData }
    }
}

impl<
    R,
    T,
    I,
    U,
    J,
    V,
    K,
    Out,
    F: FnMut(&T, &mut U, &V) -> Out,
> RefStepCall<R, ()> for Step<NoEvent<F>, (Res<T, I>, ResMut<U, J>, Res<V, K>), Out> where
    R: Apart3<T, I, V, K, U, J>,
{
    type Out = Out;

    open spec fn call_pre(&self, world: World<R>, input: &()) -> bool {
        forall|r1: &mut U| *r1 == world.held::<U, J>()
            ==> #[trigger] call_requires(
                self.f.0,
                (&world.held::<T, I>(), r1, &world.held::<V, K>()),
            )
    }

    open spec fn call_post(
        &self,
        world: World<R>,
        input: &(),
        after: Self,
        world_after: World<R>,
        out: Out,
    ) -> bool {
        &&& after == *self
        &&& exists|held: U|
            #[trigger] effect_pmp(
                self.f.0,
                &world.held::<T, I>(),
                world.held::<U, J>(),
                &world.held::<V, K>(),
                held,
                out,
            )
                && world_after == world.holding::<U, J>(held)
    }

    fn call(&mut self, world: &mut World<R>, input: &()) -> (out: Out) {
        broadcast use vstd::function::group_function_axioms;

        let (first, third, second) = world.beside_two_mut::<T, I, V, K, U, J>();
        let out = (self.f.0)(first, &mut *second, third);
        record(
            effect_pmp_fact::<&T, U, &V, Out, F>,
            Ghost((
                old(self).f.0,
                &old(world).held::<T, I>(),
                old(world).held::<U, J>(),
                &old(world).held::<V, K>(),
                *second,
                out,
            )),
        );
        assert(effect_pmp(
            old(self).f.0,
            &old(world).held::<T, I>(),
            old(world).held::<U, J>(),
            &old(world).held::<V, K>(),
            *second,
            out,
        ));
        out
    }
}

impl<
    R,
    T,
    I,
    U,
    J,
    V,
    K,
    Out,
    F: FnMut(&T, &mut U, &V) -> Out,
> IntoRefStep<R, (), Out, (Res<T, I>, ResMut<U, J>, Res<V, K>)> for NoEvent<F> where
    R: Apart3<T, I, V, K, U, J>,
{
    type Step = Step<NoEvent<F>, (Res<T, I>, ResMut<U, J>, Res<V, K>), Out>;

    open spec fn resolved(self) -> Step<NoEvent<F>, (Res<T, I>, ResMut<U, J>, Res<V, K>), Out> {
        Step { f: self, params: PhantomData }
    }

    fn into_ref_step(
        self,
        registry: &Registry<R>,
    ) -> (step: Step<NoEvent<F>, (Res<T, I>, ResMut<U, J>, Res<V, K>), Out>) {
        Step { f: self, params: PhantomData }
    }
}

impl<
    R,
    T,
    I,
    U,
    J,
    V,
    K,
    Out,
    F: FnMut(&T, &mut U, &mut V) -> Out,
> RefStepCall<R, ()> for Step<NoEvent<F>, (Res<T, I>, ResMut<U, J>, ResMut<V, K>), Out> where
    R: Apart3<T, I, U, J, V, K>,
{
    type Out = Out;

    open spec fn call_pre(&self, world: World<R>, input: &()) -> bool {
        forall|r1: &mut U, r2: &mut V| *r1 == world.held::<U, J>() && *r2 == world.held::<V, K>()
            ==> #[trigger] call_requires(self.f.0, (&world.held::<T, I>(), r1, r2))
    }

    open spec fn call_post(
        &self,
        world: World<R>,
        input: &(),
        after: Self,
        world_after: World<R>,
        out: Out,
    ) -> bool {
        &&& after == *self
        &&& exists|held: U, other: V|
            #[trigger] effect_pmm(
                self.f.0,
                &world.held::<T, I>(),
                world.held::<U, J>(),
                world.held::<V, K>(),
                held,
                other,
                out,
            )
                && world_after == world.holding::<U, J>(held).holding::<V, K>(other)
    }

    fn call(&mut self, world: &mut World<R>, input: &()) -> (out: Out) {
        broadcast use vstd::function::group_function_axioms;

        let (first, second, third) = world.beside_both_mut::<T, I, U, J, V, K>();
        let out = (self.f.0)(first, &mut *second, &mut *third);
        record(
            effect_pmm_fact::<&T, U, V, Out, F>,
            Ghost((
                old(self).f.0,
                &old(world).held::<T, I>(),
                old(world).held::<U, J>(),
                old(world).held::<V, K>(),
                *second,
                *third,
                out,
            )),
        );
        assert(effect_pmm(
            old(self).f.0,
            &old(world).held::<T, I>(),
            old(world).held::<U, J>(),
            old(world).held::<V, K>(),
            *second,
            *third,
            out,
        ));
        out
    }
}

impl<
    R,
    T,
    I,
    U,
    J,
    V,
    K,
    Out,
    F: FnMut(&T, &mut U, &mut V) -> Out,
> IntoRefStep<R, (), Out, (Res<T, I>, ResMut<U, J>, ResMut<V, K>)> for NoEvent<F> where
    R: Apart3<T, I, U, J, V, K>,
{
    type Step = Step<NoEvent<F>, (Res<T, I>, ResMut<U, J>, ResMut<V, K>), Out>;

    open spec fn resolved(self) -> Step<NoEvent<F>, (Res<T, I>, ResMut<U, J>, ResMut<V, K>), Out> {
        Step { f: self, params: PhantomData }
    }

    fn into_ref_step(
        self,
        registry: &Registry<R>,
    ) -> (step: Step<NoEvent<F>, (Res<T, I>, ResMut<U, J>, ResMut<V, K>), Out>) {
        Step { f: self, params: PhantomData }
    }
}

impl<
    R,
    T,
    I,
    U,
    J,
    V,
    K,
    Out,
    F: FnMut(&mut T, &U, &V) -> Out,
> RefStepCall<R, ()> for Step<NoEvent<F>, (ResMut<T, I>, Res<U, J>, Res<V, K>), Out> where
    R: Apart3<U, J, V, K, T, I>,
{
    type Out = Out;

    open spec fn call_pre(&self, world: World<R>, input: &()) -> bool {
        forall|r0: &mut T| *r0 == world.held::<T, I>()
            ==> #[trigger] call_requires(
                self.f.0,
                (r0, &world.held::<U, J>(), &world.held::<V, K>()),
            )
    }

    open spec fn call_post(
        &self,
        world: World<R>,
        input: &(),
        after: Self,
        world_after: World<R>,
        out: Out,
    ) -> bool {
        &&& after == *self
        &&& exists|held: T|
            #[trigger] effect_mpp(
                self.f.0,
                world.held::<T, I>(),
                &world.held::<U, J>(),
                &world.held::<V, K>(),
                held,
                out,
            )
                && world_after == world.holding::<T, I>(held)
    }

    fn call(&mut self, world: &mut World<R>, input: &()) -> (out: Out) {
        broadcast use vstd::function::group_function_axioms;

        let (second, third, first) = world.beside_two_mut::<U, J, V, K, T, I>();
        let out = (self.f.0)(&mut *first, second, third);
        record(
            effect_mpp_fact::<T, &U, &V, Out, F>,
            Ghost((
                old(self).f.0,
                old(world).held::<T, I>(),
                &old(world).held::<U, J>(),
                &old(world).held::<V, K>(),
                *first,
                out,
            )),
        );
        assert(effect_mpp(
            old(self).f.0,
            old(world).held::<T, I>(),
            &old(world).held::<U, J>(),
            &old(world).held::<V, K>(),
            *first,
            out,
        ));
        out
    }
}

impl<
    R,
    T,
    I,
    U,
    J,
    V,
    K,
    Out,
    F: FnMut(&mut T, &U, &V) -> Out,
> IntoRefStep<R, (), Out, (ResMut<T, I>, Res<U, J>, Res<V, K>)> for NoEvent<F> where
    R: Apart3<U, J, V, K, T, I>,
{
    type Step = Step<NoEvent<F>, (ResMut<T, I>, Res<U, J>, Res<V, K>), Out>;

    open spec fn resolved(self) -> Step<NoEvent<F>, (ResMut<T, I>, Res<U, J>, Res<V, K>), Out> {
        Step { f: self, params: PhantomData }
    }

    fn into_ref_step(
        self,
        registry: &Registry<R>,
    ) -> (step: Step<NoEvent<F>, (ResMut<T, I>, Res<U, J>, Res<V, K>), Out>) {
        Step { f: self, params: PhantomData }
    }
}

impl<
    R,
    T,
    I,
    U,
    J,
    V,
    K,
    Out,
    F: FnMut(&mut T, &U, &mut V) -> Out,
> RefStepCall<R, ()> for Step<NoEvent<F>, (ResMut<T, I>, Res<U, J>, ResMut<V, K>), Out> where
    R: Apart3<U, J, T, I, V, K>,
{
    type Out = Out;

    open spec fn call_pre(&self, world: World<R>, input: &()) -> bool {
        forall|r0: &mut T, r2: &mut V| *r0 == world.held::<T, I>() && *r2 == world.held::<V, K>()
            ==> #[trigger] call_requires(self.f.0, (r0, &world.held::<U, J>(), r2))
    }

    open spec fn call_post(
        &self,
        world: World<R>,
        input: &(),
        after: Self,
        world_after: World<R>,
        out: Out,
    ) -> bool {
        &&& after == *self
        &&& exists|held: T, other: V|
            #[trigger] effect_mpm(
                self.f.0,
                world.held::<T, I>(),
                &world.held::<U, J>(),
                world.held::<V, K>(),
                held,
                other,
                out,
            )
                && world_after == world.holding::<T, I>(held).holding::<V, K>(other)
    }

    fn call(&mut self, world: &mut World<R>, input: &()) -> (out: Out) {
        broadcast use vstd::function::group_function_axioms;

        let (second, first, third) = world.beside_both_mut::<U, J, T, I, V, K>();
        let out = (self.f.0)(&mut *first, second, &mut *third);
        record(
            effect_mpm_fact::<T, &U, V, Out, F>,
            Ghost((
                old(self).f.0,
                old(world).held::<T, I>(),
                &old(world).held::<U, J>(),
                old(world).held::<V, K>(),
                *first,
                *third,
                out,
            )),
        );
        assert(effect_mpm(
            old(self).f.0,
            old(world).held::<T, I>(),
            &old(world).held::<U, J>(),
            old(world).held::<V, K>(),
            *first,
            *third,
            out,
        ));
        out
    }
}

impl<
    R,
    T,
    I,
    U,
    J,
    V,
    K,
    Out,
    F: FnMut(&mut T, &U, &mut V) -> Out,
> IntoRefStep<R, (), Out, (ResMut<T, I>, Res<U, J>, ResMut<V, K>)> for NoEvent<F> where
    R: Apart3<U, J, T, I, V, K>,
{
    type Step = Step<NoEvent<F>, (ResMut<T, I>, Res<U, J>, ResMut<V, K>), Out>;

    open spec fn resolved(self) -> Step<NoEvent<F>, (ResMut<T, I>, Res<U, J>, ResMut<V, K>), Out> {
        Step { f: self, params: PhantomData }
    }

    fn into_ref_step(
        self,
        registry: &Registry<R>,
    ) -> (step: Step<NoEvent<F>, (ResMut<T, I>, Res<U, J>, ResMut<V, K>), Out>) {
        Step { f: self, params: PhantomData }
    }
}

impl<
    R,
    T,
    I,
    U,
    J,
    V,
    K,
    Out,
    F: FnMut(&mut T, &mut U, &V) -> Out,
> RefStepCall<R, ()> for Step<NoEvent<F>, (ResMut<T, I>, ResMut<U, J>, Res<V, K>), Out> where
    R: Apart3<V, K, T, I, U, J>,
{
    type Out = Out;

    open spec fn call_pre(&self, world: World<R>, input: &()) -> bool {
        forall|r0: &mut T, r1: &mut U| *r0 == world.held::<T, I>() && *r1 == world.held::<U, J>()
            ==> #[trigger] call_requires(self.f.0, (r0, r1, &world.held::<V, K>()))
    }

    open spec fn call_post(
        &self,
        world: World<R>,
        input: &(),
        after: Self,
        world_after: World<R>,
        out: Out,
    ) -> bool {
        &&& after == *self
        &&& exists|held: T, other: U|
            #[trigger] effect_mmp(
                self.f.0,
                world.held::<T, I>(),
                world.held::<U, J>(),
                &world.held::<V, K>(),
                held,
                other,
                out,
            )
                && world_after == world.holding::<T, I>(held).holding::<U, J>(other)
    }

    fn call(&mut self, world: &mut World<R>, input: &()) -> (out: Out) {
        broadcast use vstd::function::group_function_axioms;

        let (third, first, second) = world.beside_both_mut::<V, K, T, I, U, J>();
        let out = (self.f.0)(&mut *first, &mut *second, third);
        record(
            effect_mmp_fact::<T, U, &V, Out, F>,
            Ghost((
                old(self).f.0,
                old(world).held::<T, I>(),
                old(world).held::<U, J>(),
                &old(world).held::<V, K>(),
                *first,
                *second,
                out,
            )),
        );
        assert(effect_mmp(
            old(self).f.0,
            old(world).held::<T, I>(),
            old(world).held::<U, J>(),
            &old(world).held::<V, K>(),
            *first,
            *second,
            out,
        ));
        out
    }
}

impl<
    R,
    T,
    I,
    U,
    J,
    V,
    K,
    Out,
    F: FnMut(&mut T, &mut U, &V) -> Out,
> IntoRefStep<R, (), Out, (ResMut<T, I>, ResMut<U, J>, Res<V, K>)> for NoEvent<F> where
    R: Apart3<V, K, T, I, U, J>,
{
    type Step = Step<NoEvent<F>, (ResMut<T, I>, ResMut<U, J>, Res<V, K>), Out>;

    open spec fn resolved(self) -> Step<NoEvent<F>, (ResMut<T, I>, ResMut<U, J>, Res<V, K>), Out> {
        Step { f: self, params: PhantomData }
    }

    fn into_ref_step(
        self,
        registry: &Registry<R>,
    ) -> (step: Step<NoEvent<F>, (ResMut<T, I>, ResMut<U, J>, Res<V, K>), Out>) {
        Step { f: self, params: PhantomData }
    }
}

impl<
    R,
    T,
    I,
    U,
    J,
    V,
    K,
    Out,
    F: FnMut(&mut T, &mut U, &mut V) -> Out,
> RefStepCall<R, ()> for Step<NoEvent<F>, (ResMut<T, I>, ResMut<U, J>, ResMut<V, K>), Out> where
    R: Apart3<T, I, U, J, V, K>,
{
    type Out = Out;

    open spec fn call_pre(&self, world: World<R>, input: &()) -> bool {
        forall|r0: &mut T, r1: &mut U, r2: &mut V| *r0 == world.held::<T, I>()
            && *r1 == world.held::<U, J>()
            && *r2 == world.held::<V, K>()
            ==> #[trigger] call_requires(self.f.0, (r0, r1, r2))
    }

    open spec fn call_post(
        &self,
        world: World<R>,
        input: &(),
        after: Self,
        world_after: World<R>,
        out: Out,
    ) -> bool {
        &&& after == *self
        &&& exists|held: T, other: U, last: V|
            #[trigger] effect_mmm(
                self.f.0,
                world.held::<T, I>(),
                world.held::<U, J>(),
                world.held::<V, K>(),
                held,
                other,
                last,
                out,
            )
                && world_after == world.holding::<T, I>(held).holding::<U, J>(other).holding::<V, K>(last)
    }

    fn call(&mut self, world: &mut World<R>, input: &()) -> (out: Out) {
        broadcast use vstd::function::group_function_axioms;

        let (first, second, third) = world.three_mut::<T, I, U, J, V, K>();
        let out = (self.f.0)(&mut *first, &mut *second, &mut *third);
        record(
            effect_mmm_fact::<T, U, V, Out, F>,
            Ghost((
                old(self).f.0,
                old(world).held::<T, I>(),
                old(world).held::<U, J>(),
                old(world).held::<V, K>(),
                *first,
                *second,
                *third,
                out,
            )),
        );
        assert(effect_mmm(
            old(self).f.0,
            old(world).held::<T, I>(),
            old(world).held::<U, J>(),
            old(world).held::<V, K>(),
            *first,
            *second,
            *third,
            out,
        ));
        out
    }
}

impl<
    R,
    T,
    I,
    U,
    J,
    V,
    K,
    Out,
    F: FnMut(&mut T, &mut U, &mut V) -> Out,
> IntoRefStep<R, (), Out, (ResMut<T, I>, ResMut<U, J>, ResMut<V, K>)> for NoEvent<F> where
    R: Apart3<T, I, U, J, V, K>,
{
    type Step = Step<NoEvent<F>, (ResMut<T, I>, ResMut<U, J>, ResMut<V, K>), Out>;

    open spec fn resolved(
        self,
    ) -> Step<NoEvent<F>, (ResMut<T, I>, ResMut<U, J>, ResMut<V, K>), Out> {
        Step { f: self, params: PhantomData }
    }

    fn into_ref_step(
        self,
        registry: &Registry<R>,
    ) -> (step: Step<NoEvent<F>, (ResMut<T, I>, ResMut<U, J>, ResMut<V, K>), Out>) {
        Step { f: self, params: PhantomData }
    }
}

impl<
    R,
    T,
    I,
    U,
    J,
    V,
    K,
    Out,
    F: FnMut(&T, &U, &V) -> Out,
> ProducerCall<R> for Step<F, (Res<T, I>, Res<U, J>, Res<V, K>), Out> where
    R: Resource<T, I> + Resource<U, J> + Resource<V, K>,
{
    type Out = Out;

    open spec fn call_pre(&self, world: World<R>) -> bool {
        call_requires(self.f, (&world.held::<T, I>(), &world.held::<U, J>(), &world.held::<V, K>()))
    }

    open spec fn call_post(
        &self,
        world: World<R>,
        after: Self,
        world_after: World<R>,
        out: Out,
    ) -> bool {
        &&& after == *self
        &&& world_after == world
        &&& call_ensures(
            self.f,
            (&world.held::<T, I>(), &world.held::<U, J>(), &world.held::<V, K>()),
            out,
        )
    }

    fn call(&mut self, world: &mut World<R>) -> (out: Out) {
        broadcast use vstd::function::group_function_axioms;

        (self.f)(world.resource::<T, I>(), world.resource::<U, J>(), world.resource::<V, K>())
    }
}

impl<
    R,
    T,
    I,
    U,
    J,
    V,
    K,
    Out,
    F: FnMut(&T, &U, &V) -> Out,
> IntoProducer<R, Out, (Res<T, I>, Res<U, J>, Res<V, K>)> for F where
    R: Resource<T, I> + Resource<U, J> + Resource<V, K>,
{
    type Step = Step<F, (Res<T, I>, Res<U, J>, Res<V, K>), Out>;

    open spec fn resolved(self) -> Step<F, (Res<T, I>, Res<U, J>, Res<V, K>), Out> {
        Step { f: self, params: PhantomData }
    }

    fn into_producer(
        self,
        registry: &Registry<R>,
    ) -> (step: Step<F, (Res<T, I>, Res<U, J>, Res<V, K>), Out>) {
        Step { f: self, params: PhantomData }
    }
}

impl<
    R,
    T,
    I,
    U,
    J,
    V,
    K,
    Out,
    F: FnMut(&T, &U, &mut V) -> Out,
> ProducerCall<R> for Step<F, (Res<T, I>, Res<U, J>, ResMut<V, K>), Out> where
    R: Apart3<T, I, U, J, V, K>,
{
    type Out = Out;

    open spec fn call_pre(&self, world: World<R>) -> bool {
        forall|r2: &mut V| *r2 == world.held::<V, K>()
            ==> #[trigger] call_requires(self.f, (&world.held::<T, I>(), &world.held::<U, J>(), r2))
    }

    open spec fn call_post(
        &self,
        world: World<R>,
        after: Self,
        world_after: World<R>,
        out: Out,
    ) -> bool {
        &&& after == *self
        &&& exists|held: V|
            #[trigger] effect_ppm(
                self.f,
                &world.held::<T, I>(),
                &world.held::<U, J>(),
                world.held::<V, K>(),
                held,
                out,
            )
                && world_after == world.holding::<V, K>(held)
    }

    fn call(&mut self, world: &mut World<R>) -> (out: Out) {
        broadcast use vstd::function::group_function_axioms;

        let (first, second, third) = world.beside_two_mut::<T, I, U, J, V, K>();
        let out = (self.f)(first, second, &mut *third);
        record(
            effect_ppm_fact::<&T, &U, V, Out, F>,
            Ghost((
                old(self).f,
                &old(world).held::<T, I>(),
                &old(world).held::<U, J>(),
                old(world).held::<V, K>(),
                *third,
                out,
            )),
        );
        assert(effect_ppm(
            old(self).f,
            &old(world).held::<T, I>(),
            &old(world).held::<U, J>(),
            old(world).held::<V, K>(),
            *third,
            out,
        ));
        out
    }
}

impl<
    R,
    T,
    I,
    U,
    J,
    V,
    K,
    Out,
    F: FnMut(&T, &U, &mut V) -> Out,
> IntoProducer<R, Out, (Res<T, I>, Res<U, J>, ResMut<V, K>)> for F where
    R: Apart3<T, I, U, J, V, K>,
{
    type Step = Step<F, (Res<T, I>, Res<U, J>, ResMut<V, K>), Out>;

    open spec fn resolved(self) -> Step<F, (Res<T, I>, Res<U, J>, ResMut<V, K>), Out> {
        Step { f: self, params: PhantomData }
    }

    fn into_producer(
        self,
        registry: &Registry<R>,
    ) -> (step: Step<F, (Res<T, I>, Res<U, J>, ResMut<V, K>), Out>) {
        Step { f: self, params: PhantomData }
    }
}

impl<
    R,
    T,
    I,
    U,
    J,
    V,
    K,
    Out,
    F: FnMut(&T, &mut U, &V) -> Out,
> ProducerCall<R> for Step<F, (Res<T, I>, ResMut<U, J>, Res<V, K>), Out> where
    R: Apart3<T, I, V, K, U, J>,
{
    type Out = Out;

    open spec fn call_pre(&self, world: World<R>) -> bool {
        forall|r1: &mut U| *r1 == world.held::<U, J>()
            ==> #[trigger] call_requires(self.f, (&world.held::<T, I>(), r1, &world.held::<V, K>()))
    }

    open spec fn call_post(
        &self,
        world: World<R>,
        after: Self,
        world_after: World<R>,
        out: Out,
    ) -> bool {
        &&& after == *self
        &&& exists|held: U|
            #[trigger] effect_pmp(
                self.f,
                &world.held::<T, I>(),
                world.held::<U, J>(),
                &world.held::<V, K>(),
                held,
                out,
            )
                && world_after == world.holding::<U, J>(held)
    }

    fn call(&mut self, world: &mut World<R>) -> (out: Out) {
        broadcast use vstd::function::group_function_axioms;

        let (first, third, second) = world.beside_two_mut::<T, I, V, K, U, J>();
        let out = (self.f)(first, &mut *second, third);
        record(
            effect_pmp_fact::<&T, U, &V, Out, F>,
            Ghost((
                old(self).f,
                &old(world).held::<T, I>(),
                old(world).held::<U, J>(),
                &old(world).held::<V, K>(),
                *second,
                out,
            )),
        );
        assert(effect_pmp(
            old(self).f,
            &old(world).held::<T, I>(),
            old(world).held::<U, J>(),
            &old(world).held::<V, K>(),
            *second,
            out,
        ));
        out
    }
}

impl<
    R,
    T,
    I,
    U,
    J,
    V,
    K,
    Out,
    F: FnMut(&T, &mut U, &V) -> Out,
> IntoProducer<R, Out, (Res<T, I>, ResMut<U, J>, Res<V, K>)> for F where
    R: Apart3<T, I, V, K, U, J>,
{
    type Step = Step<F, (Res<T, I>, ResMut<U, J>, Res<V, K>), Out>;

    open spec fn resolved(self) -> Step<F, (Res<T, I>, ResMut<U, J>, Res<V, K>), Out> {
        Step { f: self, params: PhantomData }
    }

    fn into_producer(
        self,
        registry: &Registry<R>,
    ) -> (step: Step<F, (Res<T, I>, ResMut<U, J>, Res<V, K>), Out>) {
        Step { f: self, params: PhantomData }
    }
}

impl<
    R,
    T,
    I,
    U,
    J,
    V,
    K,
    Out,
    F: FnMut(&T, &mut U, &mut V) -> Out,
> ProducerCall<R> for Step<F, (Res<T, I>, ResMut<U, J>, ResMut<V, K>), Out> where
    R: Apart3<T, I, U, J, V, K>,
{
    type Out = Out;

    open spec fn call_pre(&self, world: World<R>) -> bool {
        forall|r1: &mut U, r2: &mut V| *r1 == world.held::<U, J>() && *r2 == world.held::<V, K>()
            ==> #[trigger] call_requires(self.f, (&world.held::<T, I>(), r1, r2))
    }

    open spec fn call_post(
        &self,
        world: World<R>,
        after: Self,
        world_after: World<R>,
        out: Out,
    ) -> bool {
        &&& after == *self
        &&& exists|held: U, other: V|
            #[trigger] effect_pmm(
                self.f,
                &world.held::<T, I>(),
                world.held::<U, J>(),
                world.held::<V, K>(),
                held,
                other,
                out,
            )
                && world_after == world.holding::<U, J>(held).holding::<V, K>(other)
    }

    fn call(&mut self, world: &mut World<R>) -> (out: Out) {
        broadcast use vstd::function::group_function_axioms;

        let (first, second, third) = world.beside_both_mut::<T, I, U, J, V, K>();
        let out = (self.f)(first, &mut *second, &mut *third);
        record(
            effect_pmm_fact::<&T, U, V, Out, F>,
            Ghost((
                old(self).f,
                &old(world).held::<T, I>(),
                old(world).held::<U, J>(),
                old(world).held::<V, K>(),
                *second,
                *third,
                out,
            )),
        );
        assert(effect_pmm(
            old(self).f,
            &old(world).held::<T, I>(),
            old(world).held::<U, J>(),
            old(world).held::<V, K>(),
            *second,
            *third,
            out,
        ));
        out
    }
}

impl<
    R,
    T,
    I,
    U,
    J,
    V,
    K,
    Out,
    F: FnMut(&T, &mut U, &mut V) -> Out,
> IntoProducer<R, Out, (Res<T, I>, ResMut<U, J>, ResMut<V, K>)> for F where
    R: Apart3<T, I, U, J, V, K>,
{
    type Step = Step<F, (Res<T, I>, ResMut<U, J>, ResMut<V, K>), Out>;

    open spec fn resolved(self) -> Step<F, (Res<T, I>, ResMut<U, J>, ResMut<V, K>), Out> {
        Step { f: self, params: PhantomData }
    }

    fn into_producer(
        self,
        registry: &Registry<R>,
    ) -> (step: Step<F, (Res<T, I>, ResMut<U, J>, ResMut<V, K>), Out>) {
        Step { f: self, params: PhantomData }
    }
}

impl<
    R,
    T,
    I,
    U,
    J,
    V,
    K,
    Out,
    F: FnMut(&mut T, &U, &V) -> Out,
> ProducerCall<R> for Step<F, (ResMut<T, I>, Res<U, J>, Res<V, K>), Out> where
    R: Apart3<U, J, V, K, T, I>,
{
    type Out = Out;

    open spec fn call_pre(&self, world: World<R>) -> bool {
        forall|r0: &mut T| *r0 == world.held::<T, I>()
            ==> #[trigger] call_requires(self.f, (r0, &world.held::<U, J>(), &world.held::<V, K>()))
    }

    open spec fn call_post(
        &self,
        world: World<R>,
        after: Self,
        world_after: World<R>,
        out: Out,
    ) -> bool {
        &&& after == *self
        &&& exists|held: T|
            #[trigger] effect_mpp(
                self.f,
                world.held::<T, I>(),
                &world.held::<U, J>(),
                &world.held::<V, K>(),
                held,
                out,
            )
                && world_after == world.holding::<T, I>(held)
    }

    fn call(&mut self, world: &mut World<R>) -> (out: Out) {
        broadcast use vstd::function::group_function_axioms;

        let (second, third, first) = world.beside_two_mut::<U, J, V, K, T, I>();
        let out = (self.f)(&mut *first, second, third);
        record(
            effect_mpp_fact::<T, &U, &V, Out, F>,
            Ghost((
                old(self).f,
                old(world).held::<T, I>(),
                &old(world).held::<U, J>(),
                &old(world).held::<V, K>(),
                *first,
                out,
            )),
        );
        assert(effect_mpp(
            old(self).f,
            old(world).held::<T, I>(),
            &old(world).held::<U, J>(),
            &old(world).held::<V, K>(),
            *first,
            out,
        ));
        out
    }
}

impl<
    R,
    T,
    I,
    U,
    J,
    V,
    K,
    Out,
    F: FnMut(&mut T, &U, &V) -> Out,
> IntoProducer<R, Out, (ResMut<T, I>, Res<U, J>, Res<V, K>)> for F where
    R: Apart3<U, J, V, K, T, I>,
{
    type Step = Step<F, (ResMut<T, I>, Res<U, J>, Res<V, K>), Out>;

    open spec fn resolved(self) -> Step<F, (ResMut<T, I>, Res<U, J>, Res<V, K>), Out> {
        Step { f: self, params: PhantomData }
    }

    fn into_producer(
        self,
        registry: &Registry<R>,
    ) -> (step: Step<F, (ResMut<T, I>, Res<U, J>, Res<V, K>), Out>) {
        Step { f: self, params: PhantomData }
    }
}

impl<
    R,
    T,
    I,
    U,
    J,
    V,
    K,
    Out,
    F: FnMut(&mut T, &U, &mut V) -> Out,
> ProducerCall<R> for Step<F, (ResMut<T, I>, Res<U, J>, ResMut<V, K>), Out> where
    R: Apart3<U, J, T, I, V, K>,
{
    type Out = Out;

    open spec fn call_pre(&self, world: World<R>) -> bool {
        forall|r0: &mut T, r2: &mut V| *r0 == world.held::<T, I>() && *r2 == world.held::<V, K>()
            ==> #[trigger] call_requires(self.f, (r0, &world.held::<U, J>(), r2))
    }

    open spec fn call_post(
        &self,
        world: World<R>,
        after: Self,
        world_after: World<R>,
        out: Out,
    ) -> bool {
        &&& after == *self
        &&& exists|held: T, other: V|
            #[trigger] effect_mpm(
                self.f,
                world.held::<T, I>(),
                &world.held::<U, J>(),
                world.held::<V, K>(),
                held,
                other,
                out,
            )
                && world_after == world.holding::<T, I>(held).holding::<V, K>(other)
    }

    fn call(&mut self, world: &mut World<R>) -> (out: Out) {
        broadcast use vstd::function::group_function_axioms;

        let (second, first, third) = world.beside_both_mut::<U, J, T, I, V, K>();
        let out = (self.f)(&mut *first, second, &mut *third);
        record(
            effect_mpm_fact::<T, &U, V, Out, F>,
            Ghost((
                old(self).f,
                old(world).held::<T, I>(),
                &old(world).held::<U, J>(),
                old(world).held::<V, K>(),
                *first,
                *third,
                out,
            )),
        );
        assert(effect_mpm(
            old(self).f,
            old(world).held::<T, I>(),
            &old(world).held::<U, J>(),
            old(world).held::<V, K>(),
            *first,
            *third,
            out,
        ));
        out
    }
}

impl<
    R,
    T,
    I,
    U,
    J,
    V,
    K,
    Out,
    F: FnMut(&mut T, &U, &mut V) -> Out,
> IntoProducer<R, Out, (ResMut<T, I>, Res<U, J>, ResMut<V, K>)> for F where
    R: Apart3<U, J, T, I, V, K>,
{
    type Step = Step<F, (ResMut<T, I>, Res<U, J>, ResMut<V, K>), Out>;

    open spec fn resolved(self) -> Step<F, (ResMut<T, I>, Res<U, J>, ResMut<V, K>), Out> {
        Step { f: self, params: PhantomData }
    }

    fn into_producer(
        self,
        registry: &Registry<R>,
    ) -> (step: Step<F, (ResMut<T, I>, Res<U, J>, ResMut<V, K>), Out>) {
        Step { f: self, params: PhantomData }
    }
}

impl<
    R,
    T,
    I,
    U,
    J,
    V,
    K,
    Out,
    F: FnMut(&mut T, &mut U, &V) -> Out,
> ProducerCall<R> for Step<F, (ResMut<T, I>, ResMut<U, J>, Res<V, K>), Out> where
    R: Apart3<V, K, T, I, U, J>,
{
    type Out = Out;

    open spec fn call_pre(&self, world: World<R>) -> bool {
        forall|r0: &mut T, r1: &mut U| *r0 == world.held::<T, I>() && *r1 == world.held::<U, J>()
            ==> #[trigger] call_requires(self.f, (r0, r1, &world.held::<V, K>()))
    }

    open spec fn call_post(
        &self,
        world: World<R>,
        after: Self,
        world_after: World<R>,
        out: Out,
    ) -> bool {
        &&& after == *self
        &&& exists|held: T, other: U|
            #[trigger] effect_mmp(
                self.f,
                world.held::<T, I>(),
                world.held::<U, J>(),
                &world.held::<V, K>(),
                held,
                other,
                out,
            )
                && world_after == world.holding::<T, I>(held).holding::<U, J>(other)
    }

    fn call(&mut self, world: &mut World<R>) -> (out: Out) {
        broadcast use vstd::function::group_function_axioms;

        let (third, first, second) = world.beside_both_mut::<V, K, T, I, U, J>();
        let out = (self.f)(&mut *first, &mut *second, third);
        record(
            effect_mmp_fact::<T, U, &V, Out, F>,
            Ghost((
                old(self).f,
                old(world).held::<T, I>(),
                old(world).held::<U, J>(),
                &old(world).held::<V, K>(),
                *first,
                *second,
                out,
            )),
        );
        assert(effect_mmp(
            old(self).f,
            old(world).held::<T, I>(),
            old(world).held::<U, J>(),
            &old(world).held::<V, K>(),
            *first,
            *second,
            out,
        ));
        out
    }
}

impl<
    R,
    T,
    I,
    U,
    J,
    V,
    K,
    Out,
    F: FnMut(&mut T, &mut U, &V) -> Out,
> IntoProducer<R, Out, (ResMut<T, I>, ResMut<U, J>, Res<V, K>)> for F where
    R: Apart3<V, K, T, I, U, J>,
{
    type Step = Step<F, (ResMut<T, I>, ResMut<U, J>, Res<V, K>), Out>;

    open spec fn resolved(self) -> Step<F, (ResMut<T, I>, ResMut<U, J>, Res<V, K>), Out> {
        Step { f: self, params: PhantomData }
    }

    fn into_producer(
        self,
        registry: &Registry<R>,
    ) -> (step: Step<F, (ResMut<T, I>, ResMut<U, J>, Res<V, K>), Out>) {
        Step { f: self, params: PhantomData }
    }
}

impl<
    R,
    T,
    I,
    U,
    J,
    V,
    K,
    Out,
    F: FnMut(&mut T, &mut U, &mut V) -> Out,
> ProducerCall<R> for Step<F, (ResMut<T, I>, ResMut<U, J>, ResMut<V, K>), Out> where
    R: Apart3<T, I, U, J, V, K>,
{
    type Out = Out;

    open spec fn call_pre(&self, world: World<R>) -> bool {
        forall|r0: &mut T, r1: &mut U, r2: &mut V| *r0 == world.held::<T, I>()
            && *r1 == world.held::<U, J>()
            && *r2 == world.held::<V, K>()
            ==> #[trigger] call_requires(self.f, (r0, r1, r2))
    }

    open spec fn call_post(
        &self,
        world: World<R>,
        after: Self,
        world_after: World<R>,
        out: Out,
    ) -> bool {
        &&& after == *self
        &&& exists|held: T, other: U, last: V|
            #[trigger] effect_mmm(
                self.f,
                world.held::<T, I>(),
                world.held::<U, J>(),
                world.held::<V, K>(),
                held,
                other,
                last,
                out,
            )
                && world_after == world.holding::<T, I>(held).holding::<U, J>(other).holding::<V, K>(last)
    }

    fn call(&mut self, world: &mut World<R>) -> (out: Out) {
        broadcast use vstd::function::group_function_axioms;

        let (first, second, third) = world.three_mut::<T, I, U, J, V, K>();
        let out = (self.f)(&mut *first, &mut *second, &mut *third);
        record(
            effect_mmm_fact::<T, U, V, Out, F>,
            Ghost((
                old(self).f,
                old(world).held::<T, I>(),
                old(world).held::<U, J>(),
                old(world).held::<V, K>(),
                *first,
                *second,
                *third,
                out,
            )),
        );
        assert(effect_mmm(
            old(self).f,
            old(world).held::<T, I>(),
            old(world).held::<U, J>(),
            old(world).held::<V, K>(),
            *first,
            *second,
            *third,
            out,
        ));
        out
    }
}

impl<
    R,
    T,
    I,
    U,
    J,
    V,
    K,
    Out,
    F: FnMut(&mut T, &mut U, &mut V) -> Out,
> IntoProducer<R, Out, (ResMut<T, I>, ResMut<U, J>, ResMut<V, K>)> for F where
    R: Apart3<T, I, U, J, V, K>,
{
    type Step = Step<F, (ResMut<T, I>, ResMut<U, J>, ResMut<V, K>), Out>;

    open spec fn resolved(self) -> Step<F, (ResMut<T, I>, ResMut<U, J>, ResMut<V, K>), Out> {
        Step { f: self, params: PhantomData }
    }

    fn into_producer(
        self,
        registry: &Registry<R>,
    ) -> (step: Step<F, (ResMut<T, I>, ResMut<U, J>, ResMut<V, K>), Out>) {
        Step { f: self, params: PhantomData }
    }
}

impl<
    R,
    T,
    I,
    U,
    J,
    V,
    K,
    Acc,
    In,
    Out,
    F: FnMut(&T, &U, &V, &mut Acc, In) -> Out,
> ScanStepCall<R, Acc, In> for Step<F, (Res<T, I>, Res<U, J>, Res<V, K>), Out> where
    R: Resource<T, I> + Resource<U, J> + Resource<V, K>,
{
    type Out = Out;

    open spec fn call_pre(&self, world: World<R>, acc: Acc, input: In) -> bool {
        forall|r3: &mut Acc| *r3 == acc
            ==> #[trigger] call_requires(
                self.f,
                (&world.held::<T, I>(), &world.held::<U, J>(), &world.held::<V, K>(), r3, input),
            )
    }

    open spec fn call_post(
        &self,
        world: World<R>,
        acc: Acc,
        input: In,
        after: Self,
        world_after: World<R>,
        acc_after: Acc,
        out: Out,
    ) -> bool {
        &&& after == *self
        &&& world_after == world
        &&& effect_pppmp(
            self.f,
            &world.held::<T, I>(),
            &world.held::<U, J>(),
            &world.held::<V, K>(),
            acc,
            input,
            acc_after,
            out,
        )
    }

    fn call(&mut self, world: &mut World<R>, acc: &mut Acc, input: In) -> (out: Out) {
        broadcast use vstd::function::group_function_axioms;

        let ghost input_given = input;
        let out = (self.f)(
            world.resource::<T, I>(),
            world.resource::<U, J>(),
            world.resource::<V, K>(),
            acc,
            input,
        );
        record(
            effect_pppmp_fact::<&T, &U, &V, Acc, In, Out, F>,
            Ghost((
                old(self).f,
                &old(world).held::<T, I>(),
                &old(world).held::<U, J>(),
                &old(world).held::<V, K>(),
                *old(acc),
                input_given,
                *acc,
                out,
            )),
        );
        out
    }
}

impl<
    R,
    T,
    I,
    U,
    J,
    V,
    K,
    Acc,
    In,
    Out,
    F: FnMut(&T, &U, &V, &mut Acc, In) -> Out,
> IntoScanStep<R, Acc, In, Out, (Res<T, I>, Res<U, J>, Res<V, K>)> for F where
    R: Resource<T, I> + Resource<U, J> + Resource<V, K>,
{
    type Step = Step<F, (Res<T, I>, Res<U, J>, Res<V, K>), Out>;

    open spec fn resolved(self) -> Step<F, (Res<T, I>, Res<U, J>, Res<V, K>), Out> {
        Step { f: self, params: PhantomData }
    }

    fn into_scan_step(
        self,
        registry: &Registry<R>,
    ) -> (step: Step<F, (Res<T, I>, Res<U, J>, Res<V, K>), Out>) {
        Step { f: self, params: PhantomData }
    }
}

impl<
    R,
    T,
    I,
    U,
    J,
    V,
    K,
    Acc,
    In,
    Out,
    F: FnMut(&T, &U, &mut V, &mut Acc, In) -> Out,
> ScanStepCall<R, Acc, In> for Step<F, (Res<T, I>, Res<U, J>, ResMut<V, K>), Out> where
    R: Apart3<T, I, U, J, V, K>,
{
    type Out = Out;

    open spec fn call_pre(&self, world: World<R>, acc: Acc, input: In) -> bool {
        forall|r2: &mut V, r3: &mut Acc| *r2 == world.held::<V, K>() && *r3 == acc
            ==> #[trigger] call_requires(
                self.f,
                (&world.held::<T, I>(), &world.held::<U, J>(), r2, r3, input),
            )
    }

    open spec fn call_post(
        &self,
        world: World<R>,
        acc: Acc,
        input: In,
        after: Self,
        world_after: World<R>,
        acc_after: Acc,
        out: Out,
    ) -> bool {
        &&& after == *self
        &&& exists|held: V|
            #[trigger] effect_ppmmp(
                self.f,
                &world.held::<T, I>(),
                &world.held::<U, J>(),
                world.held::<V, K>(),
                acc,
                input,
                held,
                acc_after,
                out,
            )
                && world_after == world.holding::<V, K>(held)
    }

    fn call(&mut self, world: &mut World<R>, acc: &mut Acc, input: In) -> (out: Out) {
        broadcast use vstd::function::group_function_axioms;

        let ghost input_given = input;
        let (first, second, third) = world.beside_two_mut::<T, I, U, J, V, K>();
        let out = (self.f)(first, second, &mut *third, acc, input);
        record(
            effect_ppmmp_fact::<&T, &U, V, Acc, In, Out, F>,
            Ghost((
                old(self).f,
                &old(world).held::<T, I>(),
                &old(world).held::<U, J>(),
                old(world).held::<V, K>(),
                *old(acc),
                input_given,
                *third,
                *acc,
                out,
            )),
        );
        assert(effect_ppmmp(
            old(self).f,
            &old(world).held::<T, I>(),
            &old(world).held::<U, J>(),
            old(world).held::<V, K>(),
            *old(acc),
            input_given,
            *third,
            *acc,
            out,
        ));
        out
    }
}

impl<
    R,
    T,
    I,
    U,
    J,
    V,
    K,
    Acc,
    In,
    Out,
    F: FnMut(&T, &U, &mut V, &mut Acc, In) -> Out,
> IntoScanStep<R, Acc, In, Out, (Res<T, I>, Res<U, J>, ResMut<V, K>)> for F where
    R: Apart3<T, I, U, J, V, K>,
{
    type Step = Step<F, (Res<T, I>, Res<U, J>, ResMut<V, K>), Out>;

    open spec fn resolved(self) -> Step<F, (Res<T, I>, Res<U, J>, ResMut<V, K>), Out> {
        Step { f: self, params: PhantomData }
    }

    fn into_scan_step(
        self,
        registry: &Registry<R>,
    ) -> (step: Step<F, (Res<T, I>, Res<U, J>, ResMut<V, K>), Out>) {
        Step { f: self, params: PhantomData }
    }
}

impl<
    R,
    T,
    I,
    U,
    J,
    V,
    K,
    Acc,
    In,
    Out,
    F: FnMut(&T, &mut U, &V, &mut Acc, In) -> Out,
> ScanStepCall<R, Acc, In> for Step<F, (Res<T, I>, ResMut<U, J>, Res<V, K>), Out> where
    R: Apart3<T, I, V, K, U, J>,
{
    type Out = Out;

    open spec fn call_pre(&self, world: World<R>, acc: Acc, input: In) -> bool {
        forall|r1: &mut U, r3: &mut Acc| *r1 == world.held::<U, J>() && *r3 == acc
            ==> #[trigger] call_requires(
                self.f,
                (&world.held::<T, I>(), r1, &world.held::<V, K>(), r3, input),
            )
    }

    open spec fn call_post(
        &self,
        world: World<R>,
        acc: Acc,
        input: In,
        after: Self,
        world_after: World<R>,
        acc_after: Acc,
        out: Out,
    ) -> bool {
        &&& after == *self
        &&& exists|held: U|
            #[trigger] effect_pmpmp(
                self.f,
                &world.held::<T, I>(),
                world.held::<U, J>(),
                &world.held::<V, K>(),
                acc,
                input,
                held,
                acc_after,
                out,
            )
                && world_after == world.holding::<U, J>(held)
    }

    fn call(&mut self, world: &mut World<R>, acc: &mut Acc, input: In) -> (out: Out) {
        broadcast use vstd::function::group_function_axioms;

        let ghost input_given = input;
        let (first, third, second) = world.beside_two_mut::<T, I, V, K, U, J>();
        let out = (self.f)(first, &mut *second, third, acc, input);
        record(
            effect_pmpmp_fact::<&T, U, &V, Acc, In, Out, F>,
            Ghost((
                old(self).f,
                &old(world).held::<T, I>(),
                old(world).held::<U, J>(),
                &old(world).held::<V, K>(),
                *old(acc),
                input_given,
                *second,
                *acc,
                out,
            )),
        );
        assert(effect_pmpmp(
            old(self).f,
            &old(world).held::<T, I>(),
            old(world).held::<U, J>(),
            &old(world).held::<V, K>(),
            *old(acc),
            input_given,
            *second,
            *acc,
            out,
        ));
        out
    }
}

impl<
    R,
    T,
    I,
    U,
    J,
    V,
    K,
    Acc,
    In,
    Out,
    F: FnMut(&T, &mut U, &V, &mut Acc, In) -> Out,
> IntoScanStep<R, Acc, In, Out, (Res<T, I>, ResMut<U, J>, Res<V, K>)> for F where
    R: Apart3<T, I, V, K, U, J>,
{
    type Step = Step<F, (Res<T, I>, ResMut<U, J>, Res<V, K>), Out>;

    open spec fn resolved(self) -> Step<F, (Res<T, I>, ResMut<U, J>, Res<V, K>), Out> {
        Step { f: self, params: PhantomData }
    }

    fn into_scan_step(
        self,
        registry: &Registry<R>,
    ) -> (step: Step<F, (Res<T, I>, ResMut<U, J>, Res<V, K>), Out>) {
        Step { f: self, params: PhantomData }
    }
}

impl<
    R,
    T,
    I,
    U,
    J,
    V,
    K,
    Acc,
    In,
    Out,
    F: FnMut(&T, &mut U, &mut V, &mut Acc, In) -> Out,
> ScanStepCall<R, Acc, In> for Step<F, (Res<T, I>, ResMut<U, J>, ResMut<V, K>), Out> where
    R: Apart3<T, I, U, J, V, K>,
{
    type Out = Out;

    open spec fn call_pre(&self, world: World<R>, acc: Acc, input: In) -> bool {
        forall|r1: &mut U, r2: &mut V, r3: &mut Acc| *r1 == world.held::<U, J>()
            && *r2 == world.held::<V, K>()
            && *r3 == acc
            ==> #[trigger] call_requires(self.f, (&world.held::<T, I>(), r1, r2, r3, input))
    }

    open spec fn call_post(
        &self,
        world: World<R>,
        acc: Acc,
        input: In,
        after: Self,
        world_after: World<R>,
        acc_after: Acc,
        out: Out,
    ) -> bool {
        &&& after == *self
        &&& exists|held: U, other: V|
            #[trigger] effect_pmmmp(
                self.f,
                &world.held::<T, I>(),
                world.held::<U, J>(),
                world.held::<V, K>(),
                acc,
                input,
                held,
                other,
                acc_after,
                out,
            )
                && world_after == world.holding::<U, J>(held).holding::<V, K>(other)
    }

    fn call(&mut self, world: &mut World<R>, acc: &mut Acc, input: In) -> (out: Out) {
        broadcast use vstd::function::group_function_axioms;

        let ghost input_given = input;
        let (first, second, third) = world.beside_both_mut::<T, I, U, J, V, K>();
        let out = (self.f)(first, &mut *second, &mut *third, acc, input);
        record(
            effect_pmmmp_fact::<&T, U, V, Acc, In, Out, F>,
            Ghost((
                old(self).f,
                &old(world).held::<T, I>(),
                old(world).held::<U, J>(),
                old(world).held::<V, K>(),
                *old(acc),
                input_given,
                *second,
                *third,
                *acc,
                out,
            )),
        );
        assert(effect_pmmmp(
            old(self).f,
            &old(world).held::<T, I>(),
            old(world).held::<U, J>(),
            old(world).held::<V, K>(),
            *old(acc),
            input_given,
            *second,
            *third,
            *acc,
            out,
        ));
        out
    }
}

impl<
    R,
    T,
    I,
    U,
    J,
    V,
    K,
    Acc,
    In,
    Out,
    F: FnMut(&T, &mut U, &mut V, &mut Acc, In) -> Out,
> IntoScanStep<R, Acc, In, Out, (Res<T, I>, ResMut<U, J>, ResMut<V, K>)> for F where
    R: Apart3<T, I, U, J, V, K>,
{
    type Step = Step<F, (Res<T, I>, ResMut<U, J>, ResMut<V, K>), Out>;

    open spec fn resolved(self) -> Step<F, (Res<T, I>, ResMut<U, J>, ResMut<V, K>), Out> {
        Step { f: self, params: PhantomData }
    }

    fn into_scan_step(
        self,
        registry: &Registry<R>,
    ) -> (step: Step<F, (Res<T, I>, ResMut<U, J>, ResMut<V, K>), Out>) {
        Step { f: self, params: PhantomData }
    }
}

impl<
    R,
    T,
    I,
    U,
    J,
    V,
    K,
    Acc,
    In,
    Out,
    F: FnMut(&mut T, &U, &V, &mut Acc, In) -> Out,
> ScanStepCall<R, Acc, In> for Step<F, (ResMut<T, I>, Res<U, J>, Res<V, K>), Out> where
    R: Apart3<U, J, V, K, T, I>,
{
    type Out = Out;

    open spec fn call_pre(&self, world: World<R>, acc: Acc, input: In) -> bool {
        forall|r0: &mut T, r3: &mut Acc| *r0 == world.held::<T, I>() && *r3 == acc
            ==> #[trigger] call_requires(
                self.f,
                (r0, &world.held::<U, J>(), &world.held::<V, K>(), r3, input),
            )
    }

    open spec fn call_post(
        &self,
        world: World<R>,
        acc: Acc,
        input: In,
        after: Self,
        world_after: World<R>,
        acc_after: Acc,
        out: Out,
    ) -> bool {
        &&& after == *self
        &&& exists|held: T|
            #[trigger] effect_mppmp(
                self.f,
                world.held::<T, I>(),
                &world.held::<U, J>(),
                &world.held::<V, K>(),
                acc,
                input,
                held,
                acc_after,
                out,
            )
                && world_after == world.holding::<T, I>(held)
    }

    fn call(&mut self, world: &mut World<R>, acc: &mut Acc, input: In) -> (out: Out) {
        broadcast use vstd::function::group_function_axioms;

        let ghost input_given = input;
        let (second, third, first) = world.beside_two_mut::<U, J, V, K, T, I>();
        let out = (self.f)(&mut *first, second, third, acc, input);
        record(
            effect_mppmp_fact::<T, &U, &V, Acc, In, Out, F>,
            Ghost((
                old(self).f,
                old(world).held::<T, I>(),
                &old(world).held::<U, J>(),
                &old(world).held::<V, K>(),
                *old(acc),
                input_given,
                *first,
                *acc,
                out,
            )),
        );
        assert(effect_mppmp(
            old(self).f,
            old(world).held::<T, I>(),
            &old(world).held::<U, J>(),
            &old(world).held::<V, K>(),
            *old(acc),
            input_given,
            *first,
            *acc,
            out,
        ));
        out
    }
}

impl<
    R,
    T,
    I,
    U,
    J,
    V,
    K,
    Acc,
    In,
    Out,
    F: FnMut(&mut T, &U, &V, &mut Acc, In) -> Out,
> IntoScanStep<R, Acc, In, Out, (ResMut<T, I>, Res<U, J>, Res<V, K>)> for F where
    R: Apart3<U, J, V, K, T, I>,
{
    type Step = Step<F, (ResMut<T, I>, Res<U, J>, Res<V, K>), Out>;

    open spec fn resolved(self) -> Step<F, (ResMut<T, I>, Res<U, J>, Res<V, K>), Out> {
        Step { f: self, params: PhantomData }
    }

    fn into_scan_step(
        self,
        registry: &Registry<R>,
    ) -> (step: Step<F, (ResMut<T, I>, Res<U, J>, Res<V, K>), Out>) {
        Step { f: self, params: PhantomData }
    }
}

impl<
    R,
    T,
    I,
    U,
    J,
    V,
    K,
    Acc,
    In,
    Out,
    F: FnMut(&mut T, &U, &mut V, &mut Acc, In) -> Out,
> ScanStepCall<R, Acc, In> for Step<F, (ResMut<T, I>, Res<U, J>, ResMut<V, K>), Out> where
    R: Apart3<U, J, T, I, V, K>,
{
    type Out = Out;

    open spec fn call_pre(&self, world: World<R>, acc: Acc, input: In) -> bool {
        forall|r0: &mut T, r2: &mut V, r3: &mut Acc| *r0 == world.held::<T, I>()
            && *r2 == world.held::<V, K>()
            && *r3 == acc
            ==> #[trigger] call_requires(self.f, (r0, &world.held::<U, J>(), r2, r3, input))
    }

    open spec fn call_post(
        &self,
        world: World<R>,
        acc: Acc,
        input: In,
        after: Self,
        world_after: World<R>,
        acc_after: Acc,
        out: Out,
    ) -> bool {
        &&& after == *self
        &&& exists|held: T, other: V|
            #[trigger] effect_mpmmp(
                self.f,
                world.held::<T, I>(),
                &world.held::<U, J>(),
                world.held::<V, K>(),
                acc,
                input,
                held,
                other,
                acc_after,
                out,
            )
                && world_after == world.holding::<T, I>(held).holding::<V, K>(other)
    }

    fn call(&mut self, world: &mut World<R>, acc: &mut Acc, input: In) -> (out: Out) {
        broadcast use vstd::function::group_function_axioms;

        let ghost input_given = input;
        let (second, first, third) = world.beside_both_mut::<U, J, T, I, V, K>();
        let out = (self.f)(&mut *first, second, &mut *third, acc, input);
        record(
            effect_mpmmp_fact::<T, &U, V, Acc, In, Out, F>,
            Ghost((
                old(self).f,
                old(world).held::<T, I>(),
                &old(world).held::<U, J>(),
                old(world).held::<V, K>(),
                *old(acc),
                input_given,
                *first,
                *third,
                *acc,
                out,
            )),
        );
        assert(effect_mpmmp(
            old(self).f,
            old(world).held::<T, I>(),
            &old(world).held::<U, J>(),
            old(world).held::<V, K>(),
            *old(acc),
            input_given,
            *first,
            *third,
            *acc,
            out,
        ));
        out
    }
}

impl<
    R,
    T,
    I,
    U,
    J,
    V,
    K,
    Acc,
    In,
    Out,
    F: FnMut(&mut T, &U, &mut V, &mut Acc, In) -> Out,
> IntoScanStep<R, Acc, In, Out, (ResMut<T, I>, Res<U, J>, ResMut<V, K>)> for F where
    R: Apart3<U, J, T, I, V, K>,
{
    type Step = Step<F, (ResMut<T, I>, Res<U, J>, ResMut<V, K>), Out>;

    open spec fn resolved(self) -> Step<F, (ResMut<T, I>, Res<U, J>, ResMut<V, K>), Out> {
        Step { f: self, params: PhantomData }
    }

    fn into_scan_step(
        self,
        registry: &Registry<R>,
    ) -> (step: Step<F, (ResMut<T, I>, Res<U, J>, ResMut<V, K>), Out>) {
        Step { f: self, params: PhantomData }
    }
}

impl<
    R,
    T,
    I,
    U,
    J,
    V,
    K,
    Acc,
    In,
    Out,
    F: FnMut(&mut T, &mut U, &V, &mut Acc, In) -> Out,
> ScanStepCall<R, Acc, In> for Step<F, (ResMut<T, I>, ResMut<U, J>, Res<V, K>), Out> where
    R: Apart3<V, K, T, I, U, J>,
{
    type Out = Out;

    open spec fn call_pre(&self, world: World<R>, acc: Acc, input: In) -> bool {
        forall|r0: &mut T, r1: &mut U, r3: &mut Acc| *r0 == world.held::<T, I>()
            && *r1 == world.held::<U, J>()
            && *r3 == acc
            ==> #[trigger] call_requires(self.f, (r0, r1, &world.held::<V, K>(), r3, input))
    }

    open spec fn call_post(
        &self,
        world: World<R>,
        acc: Acc,
        input: In,
        after: Self,
        world_after: World<R>,
        acc_after: Acc,
        out: Out,
    ) -> bool {
        &&& after == *self
        &&& exists|held: T, other: U|
            #[trigger] effect_mmpmp(
                self.f,
                world.held::<T, I>(),
                world.held::<U, J>(),
                &world.held::<V, K>(),
                acc,
                input,
                held,
                other,
                acc_after,
                out,
            )
                && world_after == world.holding::<T, I>(held).holding::<U, J>(other)
    }

    fn call(&mut self, world: &mut World<R>, acc: &mut Acc, input: In) -> (out: Out) {
        broadcast use vstd::function::group_function_axioms;

        let ghost input_given = input;
        let (third, first, second) = world.beside_both_mut::<V, K, T, I, U, J>();
        let out = (self.f)(&mut *first, &mut *second, third, acc, input);
        record(
            effect_mmpmp_fact::<T, U, &V, Acc, In, Out, F>,
            Ghost((
                old(self).f,
                old(world).held::<T, I>(),
                old(world).held::<U, J>(),
                &old(world).held::<V, K>(),
                *old(acc),
                input_given,
                *first,
                *second,
                *acc,
                out,
            )),
        );
        assert(effect_mmpmp(
            old(self).f,
            old(world).held::<T, I>(),
            old(world).held::<U, J>(),
            &old(world).held::<V, K>(),
            *old(acc),
            input_given,
            *first,
            *second,
            *acc,
            out,
        ));
        out
    }
}

impl<
    R,
    T,
    I,
    U,
    J,
    V,
    K,
    Acc,
    In,
    Out,
    F: FnMut(&mut T, &mut U, &V, &mut Acc, In) -> Out,
> IntoScanStep<R, Acc, In, Out, (ResMut<T, I>, ResMut<U, J>, Res<V, K>)> for F where
    R: Apart3<V, K, T, I, U, J>,
{
    type Step = Step<F, (ResMut<T, I>, ResMut<U, J>, Res<V, K>), Out>;

    open spec fn resolved(self) -> Step<F, (ResMut<T, I>, ResMut<U, J>, Res<V, K>), Out> {
        Step { f: self, params: PhantomData }
    }

    fn into_scan_step(
        self,
        registry: &Registry<R>,
    ) -> (step: Step<F, (ResMut<T, I>, ResMut<U, J>, Res<V, K>), Out>) {
        Step { f: self, params: PhantomData }
    }
}

impl<
    R,
    T,
    I,
    U,
    J,
    V,
    K,
    Acc,
    In,
    Out,
    F: FnMut(&mut T, &mut U, &mut V, &mut Acc, In) -> Out,
> ScanStepCall<R, Acc, In> for Step<F, (ResMut<T, I>, ResMut<U, J>, ResMut<V, K>), Out> where
    R: Apart3<T, I, U, J, V, K>,
{
    type Out = Out;

    open spec fn call_pre(&self, world: World<R>, acc: Acc, input: In) -> bool {
        forall|r0: &mut T, r1: &mut U, r2: &mut V, r3: &mut Acc| *r0 == world.held::<T, I>()
            && *r1 == world.held::<U, J>()
            && *r2 == world.held::<V, K>()
            && *r3 == acc
            ==> #[trigger] call_requires(self.f, (r0, r1, r2, r3, input))
    }

    open spec fn call_post(
        &self,
        world: World<R>,
        acc: Acc,
        input: In,
        after: Self,
        world_after: World<R>,
        acc_after: Acc,
        out: Out,
    ) -> bool {
        &&& after == *self
        &&& exists|held: T, other: U, last: V|
            #[trigger] effect_mmmmp(
                self.f,
                world.held::<T, I>(),
                world.held::<U, J>(),
                world.held::<V, K>(),
                acc,
                input,
                held,
                other,
                last,
                acc_after,
                out,
            )
                && world_after == world.holding::<T, I>(held).holding::<U, J>(other).holding::<V, K>(last)
    }

    fn call(&mut self, world: &mut World<R>, acc: &mut Acc, input: In) -> (out: Out) {
        broadcast use vstd::function::group_function_axioms;

        let ghost input_given = input;
        let (first, second, third) = world.three_mut::<T, I, U, J, V, K>();
        let out = (self.f)(&mut *first, &mut *second, &mut *third, acc, input);
        record(
            effect_mmmmp_fact::<T, U, V, Acc, In, Out, F>,
            Ghost((
                old(self).f,
                old(world).held::<T, I>(),
                old(world).held::<U, J>(),
                old(world).held::<V, K>(),
                *old(acc),
                input_given,
                *first,
                *second,
                *third,
                *acc,
                out,
            )),
        );
        assert(effect_mmmmp(
            old(self).f,
            old(world).held::<T, I>(),
            old(world).held::<U, J>(),
            old(world).held::<V, K>(),
            *old(acc),
            input_given,
            *first,
            *second,
            *third,
            *acc,
            out,
        ));
        out
    }
}

impl<
    R,
    T,
    I,
    U,
    J,
    V,
    K,
    Acc,
    In,
    Out,
    F: FnMut(&mut T, &mut U, &mut V, &mut Acc, In) -> Out,
> IntoScanStep<R, Acc, In, Out, (ResMut<T, I>, ResMut<U, J>, ResMut<V, K>)> for F where
    R: Apart3<T, I, U, J, V, K>,
{
    type Step = Step<F, (ResMut<T, I>, ResMut<U, J>, ResMut<V, K>), Out>;

    open spec fn resolved(self) -> Step<F, (ResMut<T, I>, ResMut<U, J>, ResMut<V, K>), Out> {
        Step { f: self, params: PhantomData }
    }

    fn into_scan_step(
        self,
        registry: &Registry<R>,
    ) -> (step: Step<F, (ResMut<T, I>, ResMut<U, J>, ResMut<V, K>), Out>) {
        Step { f: self, params: PhantomData }
    }
}

impl<
    R,
    T,
    I,
    U,
    J,
    V,
    K,
    Acc,
    Out,
    F: FnMut(&T, &U, &V, &mut Acc) -> Out,
> ScanStepCall<R, Acc, ()> for Step<NoEvent<F>, (Res<T, I>, Res<U, J>, Res<V, K>), Out> where
    R: Resource<T, I> + Resource<U, J> + Resource<V, K>,
{
    type Out = Out;

    open spec fn call_pre(&self, world: World<R>, acc: Acc, input: ()) -> bool {
        forall|r3: &mut Acc| *r3 == acc
            ==> #[trigger] call_requires(
                self.f.0,
                (&world.held::<T, I>(), &world.held::<U, J>(), &world.held::<V, K>(), r3),
            )
    }

    open spec fn call_post(
        &self,
        world: World<R>,
        acc: Acc,
        input: (),
        after: Self,
        world_after: World<R>,
        acc_after: Acc,
        out: Out,
    ) -> bool {
        &&& after == *self
        &&& world_after == world
        &&& effect_pppm(
            self.f.0,
            &world.held::<T, I>(),
            &world.held::<U, J>(),
            &world.held::<V, K>(),
            acc,
            acc_after,
            out,
        )
    }

    fn call(&mut self, world: &mut World<R>, acc: &mut Acc, input: ()) -> (out: Out) {
        broadcast use vstd::function::group_function_axioms;

        let out = (self.f.0)(world.resource::<T, I>(), world.resource::<U, J>(), world.resource::<V, K>(), acc);
        record(
            effect_pppm_fact::<&T, &U, &V, Acc, Out, F>,
            Ghost((
                old(self).f.0,
                &old(world).held::<T, I>(),
                &old(world).held::<U, J>(),
                &old(world).held::<V, K>(),
                *old(acc),
                *acc,
                out,
            )),
        );
        out
    }
}

impl<
    R,
    T,
    I,
    U,
    J,
    V,
    K,
    Acc,
    Out,
    F: FnMut(&T, &U, &V, &mut Acc) -> Out,
> IntoScanStep<R, Acc, (), Out, (Res<T, I>, Res<U, J>, Res<V, K>)> for NoEvent<F> where
    R: Resource<T, I> + Resource<U, J> + Resource<V, K>,
{
    type Step = Step<NoEvent<F>, (Res<T, I>, Res<U, J>, Res<V, K>), Out>;

    open spec fn resolved(self) -> Step<NoEvent<F>, (Res<T, I>, Res<U, J>, Res<V, K>), Out> {
        Step { f: self, params: PhantomData }
    }

    fn into_scan_step(
        self,
        registry: &Registry<R>,
    ) -> (step: Step<NoEvent<F>, (Res<T, I>, Res<U, J>, Res<V, K>), Out>) {
        Step { f: self, params: PhantomData }
    }
}

impl<
    R,
    T,
    I,
    U,
    J,
    V,
    K,
    Acc,
    Out,
    F: FnMut(&T, &U, &mut V, &mut Acc) -> Out,
> ScanStepCall<R, Acc, ()> for Step<NoEvent<F>, (Res<T, I>, Res<U, J>, ResMut<V, K>), Out> where
    R: Apart3<T, I, U, J, V, K>,
{
    type Out = Out;

    open spec fn call_pre(&self, world: World<R>, acc: Acc, input: ()) -> bool {
        forall|r2: &mut V, r3: &mut Acc| *r2 == world.held::<V, K>() && *r3 == acc
            ==> #[trigger] call_requires(
                self.f.0,
                (&world.held::<T, I>(), &world.held::<U, J>(), r2, r3),
            )
    }

    open spec fn call_post(
        &self,
        world: World<R>,
        acc: Acc,
        input: (),
        after: Self,
        world_after: World<R>,
        acc_after: Acc,
        out: Out,
    ) -> bool {
        &&& after == *self
        &&& exists|held: V|
            #[trigger] effect_ppmm(
                self.f.0,
                &world.held::<T, I>(),
                &world.held::<U, J>(),
                world.held::<V, K>(),
                acc,
                held,
                acc_after,
                out,
            )
                && world_after == world.holding::<V, K>(held)
    }

    fn call(&mut self, world: &mut World<R>, acc: &mut Acc, input: ()) -> (out: Out) {
        broadcast use vstd::function::group_function_axioms;

        let (first, second, third) = world.beside_two_mut::<T, I, U, J, V, K>();
        let out = (self.f.0)(first, second, &mut *third, acc);
        record(
            effect_ppmm_fact::<&T, &U, V, Acc, Out, F>,
            Ghost((
                old(self).f.0,
                &old(world).held::<T, I>(),
                &old(world).held::<U, J>(),
                old(world).held::<V, K>(),
                *old(acc),
                *third,
                *acc,
                out,
            )),
        );
        assert(effect_ppmm(
            old(self).f.0,
            &old(world).held::<T, I>(),
            &old(world).held::<U, J>(),
            old(world).held::<V, K>(),
            *old(acc),
            *third,
            *acc,
            out,
        ));
        out
    }
}

impl<
    R,
    T,
    I,
    U,
    J,
    V,
    K,
    Acc,
    Out,
    F: FnMut(&T, &U, &mut V, &mut Acc) -> Out,
> IntoScanStep<R, Acc, (), Out, (Res<T, I>, Res<U, J>, ResMut<V, K>)> for NoEvent<F> where
    R: Apart3<T, I, U, J, V, K>,
{
    type Step = Step<NoEvent<F>, (Res<T, I>, Res<U, J>, ResMut<V, K>), Out>;

    open spec fn resolved(self) -> Step<NoEvent<F>, (Res<T, I>, Res<U, J>, ResMut<V, K>), Out> {
        Step { f: self, params: PhantomData }
    }

    fn into_scan_step(
        self,
        registry: &Registry<R>,
    ) -> (step: Step<NoEvent<F>, (Res<T, I>, Res<U, J>, ResMut<V, K>), Out>) {
        Step { f: self, params: PhantomData }
    }
}

impl<
    R,
    T,
    I,
    U,
    J,
    V,
    K,
    Acc,
    Out,
    F: FnMut(&T, &mut U, &V, &mut Acc) -> Out,
> ScanStepCall<R, Acc, ()> for Step<NoEvent<F>, (Res<T, I>, ResMut<U, J>, Res<V, K>), Out> where
    R: Apart3<T, I, V, K, U, J>,
{
    type Out = Out;

    open spec fn call_pre(&self, world: World<R>, acc: Acc, input: ()) -> bool {
        forall|r1: &mut U, r3: &mut Acc| *r1 == world.held::<U, J>() && *r3 == acc
            ==> #[trigger] call_requires(
                self.f.0,
                (&world.held::<T, I>(), r1, &world.held::<V, K>(), r3),
            )
    }

    open spec fn call_post(
        &self,
        world: World<R>,
        acc: Acc,
        input: (),
        after: Self,
        world_after: World<R>,
        acc_after: Acc,
        out: Out,
    ) -> bool {
        &&& after == *self
        &&& exists|held: U|
            #[trigger] effect_pmpm(
                self.f.0,
                &world.held::<T, I>(),
                world.held::<U, J>(),
                &world.held::<V, K>(),
                acc,
                held,
                acc_after,
                out,
            )
                && world_after == world.holding::<U, J>(held)
    }

    fn call(&mut self, world: &mut World<R>, acc: &mut Acc, input: ()) -> (out: Out) {
        broadcast use vstd::function::group_function_axioms;

        let (first, third, second) = world.beside_two_mut::<T, I, V, K, U, J>();
        let out = (self.f.0)(first, &mut *second, third, acc);
        record(
            effect_pmpm_fact::<&T, U, &V, Acc, Out, F>,
            Ghost((
                old(self).f.0,
                &old(world).held::<T, I>(),
                old(world).held::<U, J>(),
                &old(world).held::<V, K>(),
                *old(acc),
                *second,
                *acc,
                out,
            )),
        );
        assert(effect_pmpm(
            old(self).f.0,
            &old(world).held::<T, I>(),
            old(world).held::<U, J>(),
            &old(world).held::<V, K>(),
            *old(acc),
            *second,
            *acc,
            out,
        ));
        out
    }
}

impl<
    R,
    T,
    I,
    U,
    J,
    V,
    K,
    Acc,
    Out,
    F: FnMut(&T, &mut U, &V, &mut Acc) -> Out,
> IntoScanStep<R, Acc, (), Out, (Res<T, I>, ResMut<U, J>, Res<V, K>)> for NoEvent<F> where
    R: Apart3<T, I, V, K, U, J>,
{
    type Step = Step<NoEvent<F>, (Res<T, I>, ResMut<U, J>, Res<V, K>), Out>;

    open spec fn resolved(self) -> Step<NoEvent<F>, (Res<T, I>, ResMut<U, J>, Res<V, K>), Out> {
        Step { f: self, params: PhantomData }
    }

    fn into_scan_step(
        self,
        registry: &Registry<R>,
    ) -> (step: Step<NoEvent<F>, (Res<T, I>, ResMut<U, J>, Res<V, K>), Out>) {
        Step { f: self, params: PhantomData }
    }
}

impl<
    R,
    T,
    I,
    U,
    J,
    V,
    K,
    Acc,
    Out,
    F: FnMut(&T, &mut U, &mut V, &mut Acc) -> Out,
> ScanStepCall<R, Acc, ()> for Step<NoEvent<F>, (Res<T, I>, ResMut<U, J>, ResMut<V, K>), Out> where
    R: Apart3<T, I, U, J, V, K>,
{
    type Out = Out;

    open spec fn call_pre(&self, world: World<R>, acc: Acc, input: ()) -> bool {
        forall|r1: &mut U, r2: &mut V, r3: &mut Acc| *r1 == world.held::<U, J>()
            && *r2 == world.held::<V, K>()
            && *r3 == acc
            ==> #[trigger] call_requires(self.f.0, (&world.held::<T, I>(), r1, r2, r3))
    }

    open spec fn call_post(
        &self,
        world: World<R>,
        acc: Acc,
        input: (),
        after: Self,
        world_after: World<R>,
        acc_after: Acc,
        out: Out,
    ) -> bool {
        &&& after == *self
        &&& exists|held: U, other: V|
            #[trigger] effect_pmmm(
                self.f.0,
                &world.held::<T, I>(),
                world.held::<U, J>(),
                world.held::<V, K>(),
                acc,
                held,
                other,
                acc_after,
                out,
            )
                && world_after == world.holding::<U, J>(held).holding::<V, K>(other)
    }

    fn call(&mut self, world: &mut World<R>, acc: &mut Acc, input: ()) -> (out: Out) {
        broadcast use vstd::function::group_function_axioms;

        let (first, second, third) = world.beside_both_mut::<T, I, U, J, V, K>();
        let out = (self.f.0)(first, &mut *second, &mut *third, acc);
        record(
            effect_pmmm_fact::<&T, U, V, Acc, Out, F>,
            Ghost((
                old(self).f.0,
                &old(world).held::<T, I>(),
                old(world).held::<U, J>(),
                old(world).held::<V, K>(),
                *old(acc),
                *second,
                *third,
                *acc,
                out,
            )),
        );
        assert(effect_pmmm(
            old(self).f.0,
            &old(world).held::<T, I>(),
            old(world).held::<U, J>(),
            old(world).held::<V, K>(),
            *old(acc),
            *second,
            *third,
            *acc,
            out,
        ));
        out
    }
}

impl<
    R,
    T,
    I,
    U,
    J,
    V,
    K,
    Acc,
    Out,
    F: FnMut(&T, &mut U, &mut V, &mut Acc) -> Out,
> IntoScanStep<R, Acc, (), Out, (Res<T, I>, ResMut<U, J>, ResMut<V, K>)> for NoEvent<F> where
    R: Apart3<T, I, U, J, V, K>,
{
    type Step = Step<NoEvent<F>, (Res<T, I>, ResMut<U, J>, ResMut<V, K>), Out>;

    open spec fn resolved(self) -> Step<NoEvent<F>, (Res<T, I>, ResMut<U, J>, ResMut<V, K>), Out> {
        Step { f: self, params: PhantomData }
    }

    fn into_scan_step(
        self,
        registry: &Registry<R>,
    ) -> (step: Step<NoEvent<F>, (Res<T, I>, ResMut<U, J>, ResMut<V, K>), Out>) {
        Step { f: self, params: PhantomData }
    }
}

impl<
    R,
    T,
    I,
    U,
    J,
    V,
    K,
    Acc,
    Out,
    F: FnMut(&mut T, &U, &V, &mut Acc) -> Out,
> ScanStepCall<R, Acc, ()> for Step<NoEvent<F>, (ResMut<T, I>, Res<U, J>, Res<V, K>), Out> where
    R: Apart3<U, J, V, K, T, I>,
{
    type Out = Out;

    open spec fn call_pre(&self, world: World<R>, acc: Acc, input: ()) -> bool {
        forall|r0: &mut T, r3: &mut Acc| *r0 == world.held::<T, I>() && *r3 == acc
            ==> #[trigger] call_requires(
                self.f.0,
                (r0, &world.held::<U, J>(), &world.held::<V, K>(), r3),
            )
    }

    open spec fn call_post(
        &self,
        world: World<R>,
        acc: Acc,
        input: (),
        after: Self,
        world_after: World<R>,
        acc_after: Acc,
        out: Out,
    ) -> bool {
        &&& after == *self
        &&& exists|held: T|
            #[trigger] effect_mppm(
                self.f.0,
                world.held::<T, I>(),
                &world.held::<U, J>(),
                &world.held::<V, K>(),
                acc,
                held,
                acc_after,
                out,
            )
                && world_after == world.holding::<T, I>(held)
    }

    fn call(&mut self, world: &mut World<R>, acc: &mut Acc, input: ()) -> (out: Out) {
        broadcast use vstd::function::group_function_axioms;

        let (second, third, first) = world.beside_two_mut::<U, J, V, K, T, I>();
        let out = (self.f.0)(&mut *first, second, third, acc);
        record(
            effect_mppm_fact::<T, &U, &V, Acc, Out, F>,
            Ghost((
                old(self).f.0,
                old(world).held::<T, I>(),
                &old(world).held::<U, J>(),
                &old(world).held::<V, K>(),
                *old(acc),
                *first,
                *acc,
                out,
            )),
        );
        assert(effect_mppm(
            old(self).f.0,
            old(world).held::<T, I>(),
            &old(world).held::<U, J>(),
            &old(world).held::<V, K>(),
            *old(acc),
            *first,
            *acc,
            out,
        ));
        out
    }
}

impl<
    R,
    T,
    I,
    U,
    J,
    V,
    K,
    Acc,
    Out,
    F: FnMut(&mut T, &U, &V, &mut Acc) -> Out,
> IntoScanStep<R, Acc, (), Out, (ResMut<T, I>, Res<U, J>, Res<V, K>)> for NoEvent<F> where
    R: Apart3<U, J, V, K, T, I>,
{
    type Step = Step<NoEvent<F>, (ResMut<T, I>, Res<U, J>, Res<V, K>), Out>;

    open spec fn resolved(self) -> Step<NoEvent<F>, (ResMut<T, I>, Res<U, J>, Res<V, K>), Out> {
        Step { f: self, params: PhantomData }
    }

    fn into_scan_step(
        self,
        registry: &Registry<R>,
    ) -> (step: Step<NoEvent<F>, (ResMut<T, I>, Res<U, J>, Res<V, K>), Out>) {
        Step { f: self, params: PhantomData }
    }
}

impl<
    R,
    T,
    I,
    U,
    J,
    V,
    K,
    Acc,
    Out,
    F: FnMut(&mut T, &U, &mut V, &mut Acc) -> Out,
> ScanStepCall<R, Acc, ()> for Step<NoEvent<F>, (ResMut<T, I>, Res<U, J>, ResMut<V, K>), Out> where
    R: Apart3<U, J, T, I, V, K>,
{
    type Out = Out;

    open spec fn call_pre(&self, world: World<R>, acc: Acc, input: ()) -> bool {
        forall|r0: &mut T, r2: &mut V, r3: &mut Acc| *r0 == world.held::<T, I>()
            && *r2 == world.held::<V, K>()
            && *r3 == acc
            ==> #[trigger] call_requires(self.f.0, (r0, &world.held::<U, J>(), r2, r3))
    }

    open spec fn call_post(
        &self,
        world: World<R>,
        acc: Acc,
        input: (),
        after: Self,
        world_after: World<R>,
        acc_after: Acc,
        out: Out,
    ) -> bool {
        &&& after == *self
        &&& exists|held: T, other: V|
            #[trigger] effect_mpmm(
                self.f.0,
                world.held::<T, I>(),
                &world.held::<U, J>(),
                world.held::<V, K>(),
                acc,
                held,
                other,
                acc_after,
                out,
            )
                && world_after == world.holding::<T, I>(held).holding::<V, K>(other)
    }

    fn call(&mut self, world: &mut World<R>, acc: &mut Acc, input: ()) -> (out: Out) {
        broadcast use vstd::function::group_function_axioms;

        let (second, first, third) = world.beside_both_mut::<U, J, T, I, V, K>();
        let out = (self.f.0)(&mut *first, second, &mut *third, acc);
        record(
            effect_mpmm_fact::<T, &U, V, Acc, Out, F>,
            Ghost((
                old(self).f.0,
                old(world).held::<T, I>(),
                &old(world).held::<U, J>(),
                old(world).held::<V, K>(),
                *old(acc),
                *first,
                *third,
                *acc,
                out,
            )),
        );
        assert(effect_mpmm(
            old(self).f.0,
            old(world).held::<T, I>(),
            &old(world).held::<U, J>(),
            old(world).held::<V, K>(),
            *old(acc),
            *first,
            *third,
            *acc,
            out,
        ));
        out
    }
}

impl<
    R,
    T,
    I,
    U,
    J,
    V,
    K,
    Acc,
    Out,
    F: FnMut(&mut T, &U, &mut V, &mut Acc) -> Out,
> IntoScanStep<R, Acc, (), Out, (ResMut<T, I>, Res<U, J>, ResMut<V, K>)> for NoEvent<F> where
    R: Apart3<U, J, T, I, V, K>,
{
    type Step = Step<NoEvent<F>, (ResMut<T, I>, Res<U, J>, ResMut<V, K>), Out>;

    open spec fn resolved(self) -> Step<NoEvent<F>, (ResMut<T, I>, Res<U, J>, ResMut<V, K>), Out> {
        Step { f: self, params: PhantomData }
    }

    fn into_scan_step(
        self,
        registry: &Registry<R>,
    ) -> (step: Step<NoEvent<F>, (ResMut<T, I>, Res<U, J>, ResMut<V, K>), Out>) {
        Step { f: self, params: PhantomData }
    }
}

impl<
    R,
    T,
    I,
    U,
    J,
    V,
    K,
    Acc,
    Out,
    F: FnMut(&mut T, &mut U, &V, &mut Acc) -> Out,
> ScanStepCall<R, Acc, ()> for Step<NoEvent<F>, (ResMut<T, I>, ResMut<U, J>, Res<V, K>), Out> where
    R: Apart3<V, K, T, I, U, J>,
{
    type Out = Out;

    open spec fn call_pre(&self, world: World<R>, acc: Acc, input: ()) -> bool {
        forall|r0: &mut T, r1: &mut U, r3: &mut Acc| *r0 == world.held::<T, I>()
            && *r1 == world.held::<U, J>()
            && *r3 == acc
            ==> #[trigger] call_requires(self.f.0, (r0, r1, &world.held::<V, K>(), r3))
    }

    open spec fn call_post(
        &self,
        world: World<R>,
        acc: Acc,
        input: (),
        after: Self,
        world_after: World<R>,
        acc_after: Acc,
        out: Out,
    ) -> bool {
        &&& after == *self
        &&& exists|held: T, other: U|
            #[trigger] effect_mmpm(
                self.f.0,
                world.held::<T, I>(),
                world.held::<U, J>(),
                &world.held::<V, K>(),
                acc,
                held,
                other,
                acc_after,
                out,
            )
                && world_after == world.holding::<T, I>(held).holding::<U, J>(other)
    }

    fn call(&mut self, world: &mut World<R>, acc: &mut Acc, input: ()) -> (out: Out) {
        broadcast use vstd::function::group_function_axioms;

        let (third, first, second) = world.beside_both_mut::<V, K, T, I, U, J>();
        let out = (self.f.0)(&mut *first, &mut *second, third, acc);
        record(
            effect_mmpm_fact::<T, U, &V, Acc, Out, F>,
            Ghost((
                old(self).f.0,
                old(world).held::<T, I>(),
                old(world).held::<U, J>(),
                &old(world).held::<V, K>(),
                *old(acc),
                *first,
                *second,
                *acc,
                out,
            )),
        );
        assert(effect_mmpm(
            old(self).f.0,
            old(world).held::<T, I>(),
            old(world).held::<U, J>(),
            &old(world).held::<V, K>(),
            *old(acc),
            *first,
            *second,
            *acc,
            out,
        ));
        out
    }
}

impl<
    R,
    T,
    I,
    U,
    J,
    V,
    K,
    Acc,
    Out,
    F: FnMut(&mut T, &mut U, &V, &mut Acc) -> Out,
> IntoScanStep<R, Acc, (), Out, (ResMut<T, I>, ResMut<U, J>, Res<V, K>)> for NoEvent<F> where
    R: Apart3<V, K, T, I, U, J>,
{
    type Step = Step<NoEvent<F>, (ResMut<T, I>, ResMut<U, J>, Res<V, K>), Out>;

    open spec fn resolved(self) -> Step<NoEvent<F>, (ResMut<T, I>, ResMut<U, J>, Res<V, K>), Out> {
        Step { f: self, params: PhantomData }
    }

    fn into_scan_step(
        self,
        registry: &Registry<R>,
    ) -> (step: Step<NoEvent<F>, (ResMut<T, I>, ResMut<U, J>, Res<V, K>), Out>) {
        Step { f: self, params: PhantomData }
    }
}

impl<
    R,
    T,
    I,
    U,
    J,
    V,
    K,
    Acc,
    Out,
    F: FnMut(&mut T, &mut U, &mut V, &mut Acc) -> Out,
> ScanStepCall<R, Acc, ()> for Step<
    NoEvent<F>,
    (ResMut<T, I>, ResMut<U, J>, ResMut<V, K>),
    Out,
> where
    R: Apart3<T, I, U, J, V, K>,
{
    type Out = Out;

    open spec fn call_pre(&self, world: World<R>, acc: Acc, input: ()) -> bool {
        forall|r0: &mut T, r1: &mut U, r2: &mut V, r3: &mut Acc| *r0 == world.held::<T, I>()
            && *r1 == world.held::<U, J>()
            && *r2 == world.held::<V, K>()
            && *r3 == acc
            ==> #[trigger] call_requires(self.f.0, (r0, r1, r2, r3))
    }

    open spec fn call_post(
        &self,
        world: World<R>,
        acc: Acc,
        input: (),
        after: Self,
        world_after: World<R>,
        acc_after: Acc,
        out: Out,
    ) -> bool {
        &&& after == *self
        &&& exists|held: T, other: U, last: V|
            #[trigger] effect_mmmm(
                self.f.0,
                world.held::<T, I>(),
                world.held::<U, J>(),
                world.held::<V, K>(),
                acc,
                held,
                other,
                last,
                acc_after,
                out,
            )
                && world_after == world.holding::<T, I>(held).holding::<U, J>(other).holding::<V, K>(last)
    }

    fn call(&mut self, world: &mut World<R>, acc: &mut Acc, input: ()) -> (out: Out) {
        broadcast use vstd::function::group_function_axioms;

        let (first, second, third) = world.three_mut::<T, I, U, J, V, K>();
        let out = (self.f.0)(&mut *first, &mut *second, &mut *third, acc);
        record(
            effect_mmmm_fact::<T, U, V, Acc, Out, F>,
            Ghost((
                old(self).f.0,
                old(world).held::<T, I>(),
                old(world).held::<U, J>(),
                old(world).held::<V, K>(),
                *old(acc),
                *first,
                *second,
                *third,
                *acc,
                out,
            )),
        );
        assert(effect_mmmm(
            old(self).f.0,
            old(world).held::<T, I>(),
            old(world).held::<U, J>(),
            old(world).held::<V, K>(),
            *old(acc),
            *first,
            *second,
            *third,
            *acc,
            out,
        ));
        out
    }
}

impl<
    R,
    T,
    I,
    U,
    J,
    V,
    K,
    Acc,
    Out,
    F: FnMut(&mut T, &mut U, &mut V, &mut Acc) -> Out,
> IntoScanStep<R, Acc, (), Out, (ResMut<T, I>, ResMut<U, J>, ResMut<V, K>)> for NoEvent<F> where
    R: Apart3<T, I, U, J, V, K>,
{
    type Step = Step<NoEvent<F>, (ResMut<T, I>, ResMut<U, J>, ResMut<V, K>), Out>;

    open spec fn resolved(
        self,
    ) -> Step<NoEvent<F>, (ResMut<T, I>, ResMut<U, J>, ResMut<V, K>), Out> {
        Step { f: self, params: PhantomData }
    }

    fn into_scan_step(
        self,
        registry: &Registry<R>,
    ) -> (step: Step<NoEvent<F>, (ResMut<T, I>, ResMut<U, J>, ResMut<V, K>), Out>) {
        Step { f: self, params: PhantomData }
    }
}

impl<
    R,
    T,
    I,
    U,
    J,
    V,
    K,
    Acc,
    In,
    Out,
    F: FnMut(&T, &U, &V, &mut Acc, &In) -> Out,
> RefScanStepCall<R, Acc, In> for Step<F, (Res<T, I>, Res<U, J>, Res<V, K>), Out> where
    R: Resource<T, I> + Resource<U, J> + Resource<V, K>,
{
    type Out = Out;

    open spec fn call_pre(&self, world: World<R>, acc: Acc, input: &In) -> bool {
        forall|r3: &mut Acc| *r3 == acc
            ==> #[trigger] call_requires(
                self.f,
                (&world.held::<T, I>(), &world.held::<U, J>(), &world.held::<V, K>(), r3, input),
            )
    }

    open spec fn call_post(
        &self,
        world: World<R>,
        acc: Acc,
        input: &In,
        after: Self,
        world_after: World<R>,
        acc_after: Acc,
        out: Out,
    ) -> bool {
        &&& after == *self
        &&& world_after == world
        &&& effect_pppmp(
            self.f,
            &world.held::<T, I>(),
            &world.held::<U, J>(),
            &world.held::<V, K>(),
            acc,
            input,
            acc_after,
            out,
        )
    }

    fn call(&mut self, world: &mut World<R>, acc: &mut Acc, input: &In) -> (out: Out) {
        broadcast use vstd::function::group_function_axioms;

        let ghost input_given = input;
        let out = (self.f)(
            world.resource::<T, I>(),
            world.resource::<U, J>(),
            world.resource::<V, K>(),
            acc,
            input,
        );
        record(
            effect_pppmp_fact::<&T, &U, &V, Acc, &In, Out, F>,
            Ghost((
                old(self).f,
                &old(world).held::<T, I>(),
                &old(world).held::<U, J>(),
                &old(world).held::<V, K>(),
                *old(acc),
                input_given,
                *acc,
                out,
            )),
        );
        out
    }
}

impl<
    R,
    T,
    I,
    U,
    J,
    V,
    K,
    Acc,
    In,
    Out,
    F: FnMut(&T, &U, &V, &mut Acc, &In) -> Out,
> IntoRefScanStep<R, Acc, In, Out, (Res<T, I>, Res<U, J>, Res<V, K>)> for F where
    R: Resource<T, I> + Resource<U, J> + Resource<V, K>,
{
    type Step = Step<F, (Res<T, I>, Res<U, J>, Res<V, K>), Out>;

    open spec fn resolved(self) -> Step<F, (Res<T, I>, Res<U, J>, Res<V, K>), Out> {
        Step { f: self, params: PhantomData }
    }

    fn into_ref_scan_step(
        self,
        registry: &Registry<R>,
    ) -> (step: Step<F, (Res<T, I>, Res<U, J>, Res<V, K>), Out>) {
        Step { f: self, params: PhantomData }
    }
}

impl<
    R,
    T,
    I,
    U,
    J,
    V,
    K,
    Acc,
    In,
    Out,
    F: FnMut(&T, &U, &mut V, &mut Acc, &In) -> Out,
> RefScanStepCall<R, Acc, In> for Step<F, (Res<T, I>, Res<U, J>, ResMut<V, K>), Out> where
    R: Apart3<T, I, U, J, V, K>,
{
    type Out = Out;

    open spec fn call_pre(&self, world: World<R>, acc: Acc, input: &In) -> bool {
        forall|r2: &mut V, r3: &mut Acc| *r2 == world.held::<V, K>() && *r3 == acc
            ==> #[trigger] call_requires(
                self.f,
                (&world.held::<T, I>(), &world.held::<U, J>(), r2, r3, input),
            )
    }

    open spec fn call_post(
        &self,
        world: World<R>,
        acc: Acc,
        input: &In,
        after: Self,
        world_after: World<R>,
        acc_after: Acc,
        out: Out,
    ) -> bool {
        &&& after == *self
        &&& exists|held: V|
            #[trigger] effect_ppmmp(
                self.f,
                &world.held::<T, I>(),
                &world.held::<U, J>(),
                world.held::<V, K>(),
                acc,
                input,
                held,
                acc_after,
                out,
            )
                && world_after == world.holding::<V, K>(held)
    }

    fn call(&mut self, world: &mut World<R>, acc: &mut Acc, input: &In) -> (out: Out) {
        broadcast use vstd::function::group_function_axioms;

        let ghost input_given = input;
        let (first, second, third) = world.beside_two_mut::<T, I, U, J, V, K>();
        let out = (self.f)(first, second, &mut *third, acc, input);
        record(
            effect_ppmmp_fact::<&T, &U, V, Acc, &In, Out, F>,
            Ghost((
                old(self).f,
                &old(world).held::<T, I>(),
                &old(world).held::<U, J>(),
                old(world).held::<V, K>(),
                *old(acc),
                input_given,
                *third,
                *acc,
                out,
            )),
        );
        assert(effect_ppmmp(
            old(self).f,
            &old(world).held::<T, I>(),
            &old(world).held::<U, J>(),
            old(world).held::<V, K>(),
            *old(acc),
            input_given,
            *third,
            *acc,
            out,
        ));
        out
    }
}

impl<
    R,
    T,
    I,
    U,
    J,
    V,
    K,
    Acc,
    In,
    Out,
    F: FnMut(&T, &U, &mut V, &mut Acc, &In) -> Out,
> IntoRefScanStep<R, Acc, In, Out, (Res<T, I>, Res<U, J>, ResMut<V, K>)> for F where
    R: Apart3<T, I, U, J, V, K>,
{
    type Step = Step<F, (Res<T, I>, Res<U, J>, ResMut<V, K>), Out>;

    open spec fn resolved(self) -> Step<F, (Res<T, I>, Res<U, J>, ResMut<V, K>), Out> {
        Step { f: self, params: PhantomData }
    }

    fn into_ref_scan_step(
        self,
        registry: &Registry<R>,
    ) -> (step: Step<F, (Res<T, I>, Res<U, J>, ResMut<V, K>), Out>) {
        Step { f: self, params: PhantomData }
    }
}

impl<
    R,
    T,
    I,
    U,
    J,
    V,
    K,
    Acc,
    In,
    Out,
    F: FnMut(&T, &mut U, &V, &mut Acc, &In) -> Out,
> RefScanStepCall<R, Acc, In> for Step<F, (Res<T, I>, ResMut<U, J>, Res<V, K>), Out> where
    R: Apart3<T, I, V, K, U, J>,
{
    type Out = Out;

    open spec fn call_pre(&self, world: World<R>, acc: Acc, input: &In) -> bool {
        forall|r1: &mut U, r3: &mut Acc| *r1 == world.held::<U, J>() && *r3 == acc
            ==> #[trigger] call_requires(
                self.f,
                (&world.held::<T, I>(), r1, &world.held::<V, K>(), r3, input),
            )
    }

    open spec fn call_post(
        &self,
        world: World<R>,
        acc: Acc,
        input: &In,
        after: Self,
        world_after: World<R>,
        acc_after: Acc,
        out: Out,
    ) -> bool {
        &&& after == *self
        &&& exists|held: U|
            #[trigger] effect_pmpmp(
                self.f,
                &world.held::<T, I>(),
                world.held::<U, J>(),
                &world.held::<V, K>(),
                acc,
                input,
                held,
                acc_after,
                out,
            )
                && world_after == world.holding::<U, J>(held)
    }

    fn call(&mut self, world: &mut World<R>, acc: &mut Acc, input: &In) -> (out: Out) {
        broadcast use vstd::function::group_function_axioms;

        let ghost input_given = input;
        let (first, third, second) = world.beside_two_mut::<T, I, V, K, U, J>();
        let out = (self.f)(first, &mut *second, third, acc, input);
        record(
            effect_pmpmp_fact::<&T, U, &V, Acc, &In, Out, F>,
            Ghost((
                old(self).f,
                &old(world).held::<T, I>(),
                old(world).held::<U, J>(),
                &old(world).held::<V, K>(),
                *old(acc),
                input_given,
                *second,
                *acc,
                out,
            )),
        );
        assert(effect_pmpmp(
            old(self).f,
            &old(world).held::<T, I>(),
            old(world).held::<U, J>(),
            &old(world).held::<V, K>(),
            *old(acc),
            input_given,
            *second,
            *acc,
            out,
        ));
        out
    }
}

impl<
    R,
    T,
    I,
    U,
    J,
    V,
    K,
    Acc,
    In,
    Out,
    F: FnMut(&T, &mut U, &V, &mut Acc, &In) -> Out,
> IntoRefScanStep<R, Acc, In, Out, (Res<T, I>, ResMut<U, J>, Res<V, K>)> for F where
    R: Apart3<T, I, V, K, U, J>,
{
    type Step = Step<F, (Res<T, I>, ResMut<U, J>, Res<V, K>), Out>;

    open spec fn resolved(self) -> Step<F, (Res<T, I>, ResMut<U, J>, Res<V, K>), Out> {
        Step { f: self, params: PhantomData }
    }

    fn into_ref_scan_step(
        self,
        registry: &Registry<R>,
    ) -> (step: Step<F, (Res<T, I>, ResMut<U, J>, Res<V, K>), Out>) {
        Step { f: self, params: PhantomData }
    }
}

impl<
    R,
    T,
    I,
    U,
    J,
    V,
    K,
    Acc,
    In,
    Out,
    F: FnMut(&T, &mut U, &mut V, &mut Acc, &In) -> Out,
> RefScanStepCall<R, Acc, In> for Step<F, (Res<T, I>, ResMut<U, J>, ResMut<V, K>), Out> where
    R: Apart3<T, I, U, J, V, K>,
{
    type Out = Out;

    open spec fn call_pre(&self, world: World<R>, acc: Acc, input: &In) -> bool {
        forall|r1: &mut U, r2: &mut V, r3: &mut Acc| *r1 == world.held::<U, J>()
            && *r2 == world.held::<V, K>()
            && *r3 == acc
            ==> #[trigger] call_requires(self.f, (&world.held::<T, I>(), r1, r2, r3, input))
    }

    open spec fn call_post(
        &self,
        world: World<R>,
        acc: Acc,
        input: &In,
        after: Self,
        world_after: World<R>,
        acc_after: Acc,
        out: Out,
    ) -> bool {
        &&& after == *self
        &&& exists|held: U, other: V|
            #[trigger] effect_pmmmp(
                self.f,
                &world.held::<T, I>(),
                world.held::<U, J>(),
                world.held::<V, K>(),
                acc,
                input,
                held,
                other,
                acc_after,
                out,
            )
                && world_after == world.holding::<U, J>(held).holding::<V, K>(other)
    }

    fn call(&mut self, world: &mut World<R>, acc: &mut Acc, input: &In) -> (out: Out) {
        broadcast use vstd::function::group_function_axioms;

        let ghost input_given = input;
        let (first, second, third) = world.beside_both_mut::<T, I, U, J, V, K>();
        let out = (self.f)(first, &mut *second, &mut *third, acc, input);
        record(
            effect_pmmmp_fact::<&T, U, V, Acc, &In, Out, F>,
            Ghost((
                old(self).f,
                &old(world).held::<T, I>(),
                old(world).held::<U, J>(),
                old(world).held::<V, K>(),
                *old(acc),
                input_given,
                *second,
                *third,
                *acc,
                out,
            )),
        );
        assert(effect_pmmmp(
            old(self).f,
            &old(world).held::<T, I>(),
            old(world).held::<U, J>(),
            old(world).held::<V, K>(),
            *old(acc),
            input_given,
            *second,
            *third,
            *acc,
            out,
        ));
        out
    }
}

impl<
    R,
    T,
    I,
    U,
    J,
    V,
    K,
    Acc,
    In,
    Out,
    F: FnMut(&T, &mut U, &mut V, &mut Acc, &In) -> Out,
> IntoRefScanStep<R, Acc, In, Out, (Res<T, I>, ResMut<U, J>, ResMut<V, K>)> for F where
    R: Apart3<T, I, U, J, V, K>,
{
    type Step = Step<F, (Res<T, I>, ResMut<U, J>, ResMut<V, K>), Out>;

    open spec fn resolved(self) -> Step<F, (Res<T, I>, ResMut<U, J>, ResMut<V, K>), Out> {
        Step { f: self, params: PhantomData }
    }

    fn into_ref_scan_step(
        self,
        registry: &Registry<R>,
    ) -> (step: Step<F, (Res<T, I>, ResMut<U, J>, ResMut<V, K>), Out>) {
        Step { f: self, params: PhantomData }
    }
}

impl<
    R,
    T,
    I,
    U,
    J,
    V,
    K,
    Acc,
    In,
    Out,
    F: FnMut(&mut T, &U, &V, &mut Acc, &In) -> Out,
> RefScanStepCall<R, Acc, In> for Step<F, (ResMut<T, I>, Res<U, J>, Res<V, K>), Out> where
    R: Apart3<U, J, V, K, T, I>,
{
    type Out = Out;

    open spec fn call_pre(&self, world: World<R>, acc: Acc, input: &In) -> bool {
        forall|r0: &mut T, r3: &mut Acc| *r0 == world.held::<T, I>() && *r3 == acc
            ==> #[trigger] call_requires(
                self.f,
                (r0, &world.held::<U, J>(), &world.held::<V, K>(), r3, input),
            )
    }

    open spec fn call_post(
        &self,
        world: World<R>,
        acc: Acc,
        input: &In,
        after: Self,
        world_after: World<R>,
        acc_after: Acc,
        out: Out,
    ) -> bool {
        &&& after == *self
        &&& exists|held: T|
            #[trigger] effect_mppmp(
                self.f,
                world.held::<T, I>(),
                &world.held::<U, J>(),
                &world.held::<V, K>(),
                acc,
                input,
                held,
                acc_after,
                out,
            )
                && world_after == world.holding::<T, I>(held)
    }

    fn call(&mut self, world: &mut World<R>, acc: &mut Acc, input: &In) -> (out: Out) {
        broadcast use vstd::function::group_function_axioms;

        let ghost input_given = input;
        let (second, third, first) = world.beside_two_mut::<U, J, V, K, T, I>();
        let out = (self.f)(&mut *first, second, third, acc, input);
        record(
            effect_mppmp_fact::<T, &U, &V, Acc, &In, Out, F>,
            Ghost((
                old(self).f,
                old(world).held::<T, I>(),
                &old(world).held::<U, J>(),
                &old(world).held::<V, K>(),
                *old(acc),
                input_given,
                *first,
                *acc,
                out,
            )),
        );
        assert(effect_mppmp(
            old(self).f,
            old(world).held::<T, I>(),
            &old(world).held::<U, J>(),
            &old(world).held::<V, K>(),
            *old(acc),
            input_given,
            *first,
            *acc,
            out,
        ));
        out
    }
}

impl<
    R,
    T,
    I,
    U,
    J,
    V,
    K,
    Acc,
    In,
    Out,
    F: FnMut(&mut T, &U, &V, &mut Acc, &In) -> Out,
> IntoRefScanStep<R, Acc, In, Out, (ResMut<T, I>, Res<U, J>, Res<V, K>)> for F where
    R: Apart3<U, J, V, K, T, I>,
{
    type Step = Step<F, (ResMut<T, I>, Res<U, J>, Res<V, K>), Out>;

    open spec fn resolved(self) -> Step<F, (ResMut<T, I>, Res<U, J>, Res<V, K>), Out> {
        Step { f: self, params: PhantomData }
    }

    fn into_ref_scan_step(
        self,
        registry: &Registry<R>,
    ) -> (step: Step<F, (ResMut<T, I>, Res<U, J>, Res<V, K>), Out>) {
        Step { f: self, params: PhantomData }
    }
}

impl<
    R,
    T,
    I,
    U,
    J,
    V,
    K,
    Acc,
    In,
    Out,
    F: FnMut(&mut T, &U, &mut V, &mut Acc, &In) -> Out,
> RefScanStepCall<R, Acc, In> for Step<F, (ResMut<T, I>, Res<U, J>, ResMut<V, K>), Out> where
    R: Apart3<U, J, T, I, V, K>,
{
    type Out = Out;

    open spec fn call_pre(&self, world: World<R>, acc: Acc, input: &In) -> bool {
        forall|r0: &mut T, r2: &mut V, r3: &mut Acc| *r0 == world.held::<T, I>()
            && *r2 == world.held::<V, K>()
            && *r3 == acc
            ==> #[trigger] call_requires(self.f, (r0, &world.held::<U, J>(), r2, r3, input))
    }

    open spec fn call_post(
        &self,
        world: World<R>,
        acc: Acc,
        input: &In,
        after: Self,
        world_after: World<R>,
        acc_after: Acc,
        out: Out,
    ) -> bool {
        &&& after == *self
        &&& exists|held: T, other: V|
            #[trigger] effect_mpmmp(
                self.f,
                world.held::<T, I>(),
                &world.held::<U, J>(),
                world.held::<V, K>(),
                acc,
                input,
                held,
                other,
                acc_after,
                out,
            )
                && world_after == world.holding::<T, I>(held).holding::<V, K>(other)
    }

    fn call(&mut self, world: &mut World<R>, acc: &mut Acc, input: &In) -> (out: Out) {
        broadcast use vstd::function::group_function_axioms;

        let ghost input_given = input;
        let (second, first, third) = world.beside_both_mut::<U, J, T, I, V, K>();
        let out = (self.f)(&mut *first, second, &mut *third, acc, input);
        record(
            effect_mpmmp_fact::<T, &U, V, Acc, &In, Out, F>,
            Ghost((
                old(self).f,
                old(world).held::<T, I>(),
                &old(world).held::<U, J>(),
                old(world).held::<V, K>(),
                *old(acc),
                input_given,
                *first,
                *third,
                *acc,
                out,
            )),
        );
        assert(effect_mpmmp(
            old(self).f,
            old(world).held::<T, I>(),
            &old(world).held::<U, J>(),
            old(world).held::<V, K>(),
            *old(acc),
            input_given,
            *first,
            *third,
            *acc,
            out,
        ));
        out
    }
}

impl<
    R,
    T,
    I,
    U,
    J,
    V,
    K,
    Acc,
    In,
    Out,
    F: FnMut(&mut T, &U, &mut V, &mut Acc, &In) -> Out,
> IntoRefScanStep<R, Acc, In, Out, (ResMut<T, I>, Res<U, J>, ResMut<V, K>)> for F where
    R: Apart3<U, J, T, I, V, K>,
{
    type Step = Step<F, (ResMut<T, I>, Res<U, J>, ResMut<V, K>), Out>;

    open spec fn resolved(self) -> Step<F, (ResMut<T, I>, Res<U, J>, ResMut<V, K>), Out> {
        Step { f: self, params: PhantomData }
    }

    fn into_ref_scan_step(
        self,
        registry: &Registry<R>,
    ) -> (step: Step<F, (ResMut<T, I>, Res<U, J>, ResMut<V, K>), Out>) {
        Step { f: self, params: PhantomData }
    }
}

impl<
    R,
    T,
    I,
    U,
    J,
    V,
    K,
    Acc,
    In,
    Out,
    F: FnMut(&mut T, &mut U, &V, &mut Acc, &In) -> Out,
> RefScanStepCall<R, Acc, In> for Step<F, (ResMut<T, I>, ResMut<U, J>, Res<V, K>), Out> where
    R: Apart3<V, K, T, I, U, J>,
{
    type Out = Out;

    open spec fn call_pre(&self, world: World<R>, acc: Acc, input: &In) -> bool {
        forall|r0: &mut T, r1: &mut U, r3: &mut Acc| *r0 == world.held::<T, I>()
            && *r1 == world.held::<U, J>()
            && *r3 == acc
            ==> #[trigger] call_requires(self.f, (r0, r1, &world.held::<V, K>(), r3, input))
    }

    open spec fn call_post(
        &self,
        world: World<R>,
        acc: Acc,
        input: &In,
        after: Self,
        world_after: World<R>,
        acc_after: Acc,
        out: Out,
    ) -> bool {
        &&& after == *self
        &&& exists|held: T, other: U|
            #[trigger] effect_mmpmp(
                self.f,
                world.held::<T, I>(),
                world.held::<U, J>(),
                &world.held::<V, K>(),
                acc,
                input,
                held,
                other,
                acc_after,
                out,
            )
                && world_after == world.holding::<T, I>(held).holding::<U, J>(other)
    }

    fn call(&mut self, world: &mut World<R>, acc: &mut Acc, input: &In) -> (out: Out) {
        broadcast use vstd::function::group_function_axioms;

        let ghost input_given = input;
        let (third, first, second) = world.beside_both_mut::<V, K, T, I, U, J>();
        let out = (self.f)(&mut *first, &mut *second, third, acc, input);
        record(
            effect_mmpmp_fact::<T, U, &V, Acc, &In, Out, F>,
            Ghost((
                old(self).f,
                old(world).held::<T, I>(),
                old(world).held::<U, J>(),
                &old(world).held::<V, K>(),
                *old(acc),
                input_given,
                *first,
                *second,
                *acc,
                out,
            )),
        );
        assert(effect_mmpmp(
            old(self).f,
            old(world).held::<T, I>(),
            old(world).held::<U, J>(),
            &old(world).held::<V, K>(),
            *old(acc),
            input_given,
            *first,
            *second,
            *acc,
            out,
        ));
        out
    }
}

impl<
    R,
    T,
    I,
    U,
    J,
    V,
    K,
    Acc,
    In,
    Out,
    F: FnMut(&mut T, &mut U, &V, &mut Acc, &In) -> Out,
> IntoRefScanStep<R, Acc, In, Out, (ResMut<T, I>, ResMut<U, J>, Res<V, K>)> for F where
    R: Apart3<V, K, T, I, U, J>,
{
    type Step = Step<F, (ResMut<T, I>, ResMut<U, J>, Res<V, K>), Out>;

    open spec fn resolved(self) -> Step<F, (ResMut<T, I>, ResMut<U, J>, Res<V, K>), Out> {
        Step { f: self, params: PhantomData }
    }

    fn into_ref_scan_step(
        self,
        registry: &Registry<R>,
    ) -> (step: Step<F, (ResMut<T, I>, ResMut<U, J>, Res<V, K>), Out>) {
        Step { f: self, params: PhantomData }
    }
}

impl<
    R,
    T,
    I,
    U,
    J,
    V,
    K,
    Acc,
    In,
    Out,
    F: FnMut(&mut T, &mut U, &mut V, &mut Acc, &In) -> Out,
> RefScanStepCall<R, Acc, In> for Step<F, (ResMut<T, I>, ResMut<U, J>, ResMut<V, K>), Out> where
    R: Apart3<T, I, U, J, V, K>,
{
    type Out = Out;

    open spec fn call_pre(&self, world: World<R>, acc: Acc, input: &In) -> bool {
        forall|r0: &mut T, r1: &mut U, r2: &mut V, r3: &mut Acc| *r0 == world.held::<T, I>()
            && *r1 == world.held::<U, J>()
            && *r2 == world.held::<V, K>()
            && *r3 == acc
            ==> #[trigger] call_requires(self.f, (r0, r1, r2, r3, input))
    }

    open spec fn call_post(
        &self,
        world: World<R>,
        acc: Acc,
        input: &In,
        after: Self,
        world_after: World<R>,
        acc_after: Acc,
        out: Out,
    ) -> bool {
        &&& after == *self
        &&& exists|held: T, other: U, last: V|
            #[trigger] effect_mmmmp(
                self.f,
                world.held::<T, I>(),
                world.held::<U, J>(),
                world.held::<V, K>(),
                acc,
                input,
                held,
                other,
                last,
                acc_after,
                out,
            )
                && world_after == world.holding::<T, I>(held).holding::<U, J>(other).holding::<V, K>(last)
    }

    fn call(&mut self, world: &mut World<R>, acc: &mut Acc, input: &In) -> (out: Out) {
        broadcast use vstd::function::group_function_axioms;

        let ghost input_given = input;
        let (first, second, third) = world.three_mut::<T, I, U, J, V, K>();
        let out = (self.f)(&mut *first, &mut *second, &mut *third, acc, input);
        record(
            effect_mmmmp_fact::<T, U, V, Acc, &In, Out, F>,
            Ghost((
                old(self).f,
                old(world).held::<T, I>(),
                old(world).held::<U, J>(),
                old(world).held::<V, K>(),
                *old(acc),
                input_given,
                *first,
                *second,
                *third,
                *acc,
                out,
            )),
        );
        assert(effect_mmmmp(
            old(self).f,
            old(world).held::<T, I>(),
            old(world).held::<U, J>(),
            old(world).held::<V, K>(),
            *old(acc),
            input_given,
            *first,
            *second,
            *third,
            *acc,
            out,
        ));
        out
    }
}

impl<
    R,
    T,
    I,
    U,
    J,
    V,
    K,
    Acc,
    In,
    Out,
    F: FnMut(&mut T, &mut U, &mut V, &mut Acc, &In) -> Out,
> IntoRefScanStep<R, Acc, In, Out, (ResMut<T, I>, ResMut<U, J>, ResMut<V, K>)> for F where
    R: Apart3<T, I, U, J, V, K>,
{
    type Step = Step<F, (ResMut<T, I>, ResMut<U, J>, ResMut<V, K>), Out>;

    open spec fn resolved(self) -> Step<F, (ResMut<T, I>, ResMut<U, J>, ResMut<V, K>), Out> {
        Step { f: self, params: PhantomData }
    }

    fn into_ref_scan_step(
        self,
        registry: &Registry<R>,
    ) -> (step: Step<F, (ResMut<T, I>, ResMut<U, J>, ResMut<V, K>), Out>) {
        Step { f: self, params: PhantomData }
    }
}

impl<
    R,
    T,
    I,
    U,
    J,
    V,
    K,
    Acc,
    Out,
    F: FnMut(&T, &U, &V, &mut Acc) -> Out,
> RefScanStepCall<R, Acc, ()> for Step<NoEvent<F>, (Res<T, I>, Res<U, J>, Res<V, K>), Out> where
    R: Resource<T, I> + Resource<U, J> + Resource<V, K>,
{
    type Out = Out;

    open spec fn call_pre(&self, world: World<R>, acc: Acc, input: &()) -> bool {
        forall|r3: &mut Acc| *r3 == acc
            ==> #[trigger] call_requires(
                self.f.0,
                (&world.held::<T, I>(), &world.held::<U, J>(), &world.held::<V, K>(), r3),
            )
    }

    open spec fn call_post(
        &self,
        world: World<R>,
        acc: Acc,
        input: &(),
        after: Self,
        world_after: World<R>,
        acc_after: Acc,
        out: Out,
    ) -> bool {
        &&& after == *self
        &&& world_after == world
        &&& effect_pppm(
            self.f.0,
            &world.held::<T, I>(),
            &world.held::<U, J>(),
            &world.held::<V, K>(),
            acc,
            acc_after,
            out,
        )
    }

    fn call(&mut self, world: &mut World<R>, acc: &mut Acc, input: &()) -> (out: Out) {
        broadcast use vstd::function::group_function_axioms;

        let out = (self.f.0)(world.resource::<T, I>(), world.resource::<U, J>(), world.resource::<V, K>(), acc);
        record(
            effect_pppm_fact::<&T, &U, &V, Acc, Out, F>,
            Ghost((
                old(self).f.0,
                &old(world).held::<T, I>(),
                &old(world).held::<U, J>(),
                &old(world).held::<V, K>(),
                *old(acc),
                *acc,
                out,
            )),
        );
        out
    }
}

impl<
    R,
    T,
    I,
    U,
    J,
    V,
    K,
    Acc,
    Out,
    F: FnMut(&T, &U, &V, &mut Acc) -> Out,
> IntoRefScanStep<R, Acc, (), Out, (Res<T, I>, Res<U, J>, Res<V, K>)> for NoEvent<F> where
    R: Resource<T, I> + Resource<U, J> + Resource<V, K>,
{
    type Step = Step<NoEvent<F>, (Res<T, I>, Res<U, J>, Res<V, K>), Out>;

    open spec fn resolved(self) -> Step<NoEvent<F>, (Res<T, I>, Res<U, J>, Res<V, K>), Out> {
        Step { f: self, params: PhantomData }
    }

    fn into_ref_scan_step(
        self,
        registry: &Registry<R>,
    ) -> (step: Step<NoEvent<F>, (Res<T, I>, Res<U, J>, Res<V, K>), Out>) {
        Step { f: self, params: PhantomData }
    }
}

impl<
    R,
    T,
    I,
    U,
    J,
    V,
    K,
    Acc,
    Out,
    F: FnMut(&T, &U, &mut V, &mut Acc) -> Out,
> RefScanStepCall<R, Acc, ()> for Step<NoEvent<F>, (Res<T, I>, Res<U, J>, ResMut<V, K>), Out> where
    R: Apart3<T, I, U, J, V, K>,
{
    type Out = Out;

    open spec fn call_pre(&self, world: World<R>, acc: Acc, input: &()) -> bool {
        forall|r2: &mut V, r3: &mut Acc| *r2 == world.held::<V, K>() && *r3 == acc
            ==> #[trigger] call_requires(
                self.f.0,
                (&world.held::<T, I>(), &world.held::<U, J>(), r2, r3),
            )
    }

    open spec fn call_post(
        &self,
        world: World<R>,
        acc: Acc,
        input: &(),
        after: Self,
        world_after: World<R>,
        acc_after: Acc,
        out: Out,
    ) -> bool {
        &&& after == *self
        &&& exists|held: V|
            #[trigger] effect_ppmm(
                self.f.0,
                &world.held::<T, I>(),
                &world.held::<U, J>(),
                world.held::<V, K>(),
                acc,
                held,
                acc_after,
                out,
            )
                && world_after == world.holding::<V, K>(held)
    }

    fn call(&mut self, world: &mut World<R>, acc: &mut Acc, input: &()) -> (out: Out) {
        broadcast use vstd::function::group_function_axioms;

        let (first, second, third) = world.beside_two_mut::<T, I, U, J, V, K>();
        let out = (self.f.0)(first, second, &mut *third, acc);
        record(
            effect_ppmm_fact::<&T, &U, V, Acc, Out, F>,
            Ghost((
                old(self).f.0,
                &old(world).held::<T, I>(),
                &old(world).held::<U, J>(),
                old(world).held::<V, K>(),
                *old(acc),
                *third,
                *acc,
                out,
            )),
        );
        assert(effect_ppmm(
            old(self).f.0,
            &old(world).held::<T, I>(),
            &old(world).held::<U, J>(),
            old(world).held::<V, K>(),
            *old(acc),
            *third,
            *acc,
            out,
        ));
        out
    }
}

impl<
    R,
    T,
    I,
    U,
    J,
    V,
    K,
    Acc,
    Out,
    F: FnMut(&T, &U, &mut V, &mut Acc) -> Out,
> IntoRefScanStep<R, Acc, (), Out, (Res<T, I>, Res<U, J>, ResMut<V, K>)> for NoEvent<F> where
    R: Apart3<T, I, U, J, V, K>,
{
    type Step = Step<NoEvent<F>, (Res<T, I>, Res<U, J>, ResMut<V, K>), Out>;

    open spec fn resolved(self) -> Step<NoEvent<F>, (Res<T, I>, Res<U, J>, ResMut<V, K>), Out> {
        Step { f: self, params: PhantomData }
    }

    fn into_ref_scan_step(
        self,
        registry: &Registry<R>,
    ) -> (step: Step<NoEvent<F>, (Res<T, I>, Res<U, J>, ResMut<V, K>), Out>) {
        Step { f: self, params: PhantomData }
    }
}

impl<
    R,
    T,
    I,
    U,
    J,
    V,
    K,
    Acc,
    Out,
    F: FnMut(&T, &mut U, &V, &mut Acc) -> Out,
> RefScanStepCall<R, Acc, ()> for Step<NoEvent<F>, (Res<T, I>, ResMut<U, J>, Res<V, K>), Out> where
    R: Apart3<T, I, V, K, U, J>,
{
    type Out = Out;

    open spec fn call_pre(&self, world: World<R>, acc: Acc, input: &()) -> bool {
        forall|r1: &mut U, r3: &mut Acc| *r1 == world.held::<U, J>() && *r3 == acc
            ==> #[trigger] call_requires(
                self.f.0,
                (&world.held::<T, I>(), r1, &world.held::<V, K>(), r3),
            )
    }

    open spec fn call_post(
        &self,
        world: World<R>,
        acc: Acc,
        input: &(),
        after: Self,
        world_after: World<R>,
        acc_after: Acc,
        out: Out,
    ) -> bool {
        &&& after == *self
        &&& exists|held: U|
            #[trigger] effect_pmpm(
                self.f.0,
                &world.held::<T, I>(),
                world.held::<U, J>(),
                &world.held::<V, K>(),
                acc,
                held,
                acc_after,
                out,
            )
                && world_after == world.holding::<U, J>(held)
    }

    fn call(&mut self, world: &mut World<R>, acc: &mut Acc, input: &()) -> (out: Out) {
        broadcast use vstd::function::group_function_axioms;

        let (first, third, second) = world.beside_two_mut::<T, I, V, K, U, J>();
        let out = (self.f.0)(first, &mut *second, third, acc);
        record(
            effect_pmpm_fact::<&T, U, &V, Acc, Out, F>,
            Ghost((
                old(self).f.0,
                &old(world).held::<T, I>(),
                old(world).held::<U, J>(),
                &old(world).held::<V, K>(),
                *old(acc),
                *second,
                *acc,
                out,
            )),
        );
        assert(effect_pmpm(
            old(self).f.0,
            &old(world).held::<T, I>(),
            old(world).held::<U, J>(),
            &old(world).held::<V, K>(),
            *old(acc),
            *second,
            *acc,
            out,
        ));
        out
    }
}

impl<
    R,
    T,
    I,
    U,
    J,
    V,
    K,
    Acc,
    Out,
    F: FnMut(&T, &mut U, &V, &mut Acc) -> Out,
> IntoRefScanStep<R, Acc, (), Out, (Res<T, I>, ResMut<U, J>, Res<V, K>)> for NoEvent<F> where
    R: Apart3<T, I, V, K, U, J>,
{
    type Step = Step<NoEvent<F>, (Res<T, I>, ResMut<U, J>, Res<V, K>), Out>;

    open spec fn resolved(self) -> Step<NoEvent<F>, (Res<T, I>, ResMut<U, J>, Res<V, K>), Out> {
        Step { f: self, params: PhantomData }
    }

    fn into_ref_scan_step(
        self,
        registry: &Registry<R>,
    ) -> (step: Step<NoEvent<F>, (Res<T, I>, ResMut<U, J>, Res<V, K>), Out>) {
        Step { f: self, params: PhantomData }
    }
}

impl<
    R,
    T,
    I,
    U,
    J,
    V,
    K,
    Acc,
    Out,
    F: FnMut(&T, &mut U, &mut V, &mut Acc) -> Out,
> RefScanStepCall<R, Acc, ()> for Step<
    NoEvent<F>,
    (Res<T, I>, ResMut<U, J>, ResMut<V, K>),
    Out,
> where
    R: Apart3<T, I, U, J, V, K>,
{
    type Out = Out;

    open spec fn call_pre(&self, world: World<R>, acc: Acc, input: &()) -> bool {
        forall|r1: &mut U, r2: &mut V, r3: &mut Acc| *r1 == world.held::<U, J>()
            && *r2 == world.held::<V, K>()
            && *r3 == acc
            ==> #[trigger] call_requires(self.f.0, (&world.held::<T, I>(), r1, r2, r3))
    }

    open spec fn call_post(
        &self,
        world: World<R>,
        acc: Acc,
        input: &(),
        after: Self,
        world_after: World<R>,
        acc_after: Acc,
        out: Out,
    ) -> bool {
        &&& after == *self
        &&& exists|held: U, other: V|
            #[trigger] effect_pmmm(
                self.f.0,
                &world.held::<T, I>(),
                world.held::<U, J>(),
                world.held::<V, K>(),
                acc,
                held,
                other,
                acc_after,
                out,
            )
                && world_after == world.holding::<U, J>(held).holding::<V, K>(other)
    }

    fn call(&mut self, world: &mut World<R>, acc: &mut Acc, input: &()) -> (out: Out) {
        broadcast use vstd::function::group_function_axioms;

        let (first, second, third) = world.beside_both_mut::<T, I, U, J, V, K>();
        let out = (self.f.0)(first, &mut *second, &mut *third, acc);
        record(
            effect_pmmm_fact::<&T, U, V, Acc, Out, F>,
            Ghost((
                old(self).f.0,
                &old(world).held::<T, I>(),
                old(world).held::<U, J>(),
                old(world).held::<V, K>(),
                *old(acc),
                *second,
                *third,
                *acc,
                out,
            )),
        );
        assert(effect_pmmm(
            old(self).f.0,
            &old(world).held::<T, I>(),
            old(world).held::<U, J>(),
            old(world).held::<V, K>(),
            *old(acc),
            *second,
            *third,
            *acc,
            out,
        ));
        out
    }
}

impl<
    R,
    T,
    I,
    U,
    J,
    V,
    K,
    Acc,
    Out,
    F: FnMut(&T, &mut U, &mut V, &mut Acc) -> Out,
> IntoRefScanStep<R, Acc, (), Out, (Res<T, I>, ResMut<U, J>, ResMut<V, K>)> for NoEvent<F> where
    R: Apart3<T, I, U, J, V, K>,
{
    type Step = Step<NoEvent<F>, (Res<T, I>, ResMut<U, J>, ResMut<V, K>), Out>;

    open spec fn resolved(self) -> Step<NoEvent<F>, (Res<T, I>, ResMut<U, J>, ResMut<V, K>), Out> {
        Step { f: self, params: PhantomData }
    }

    fn into_ref_scan_step(
        self,
        registry: &Registry<R>,
    ) -> (step: Step<NoEvent<F>, (Res<T, I>, ResMut<U, J>, ResMut<V, K>), Out>) {
        Step { f: self, params: PhantomData }
    }
}

impl<
    R,
    T,
    I,
    U,
    J,
    V,
    K,
    Acc,
    Out,
    F: FnMut(&mut T, &U, &V, &mut Acc) -> Out,
> RefScanStepCall<R, Acc, ()> for Step<NoEvent<F>, (ResMut<T, I>, Res<U, J>, Res<V, K>), Out> where
    R: Apart3<U, J, V, K, T, I>,
{
    type Out = Out;

    open spec fn call_pre(&self, world: World<R>, acc: Acc, input: &()) -> bool {
        forall|r0: &mut T, r3: &mut Acc| *r0 == world.held::<T, I>() && *r3 == acc
            ==> #[trigger] call_requires(
                self.f.0,
                (r0, &world.held::<U, J>(), &world.held::<V, K>(), r3),
            )
    }

    open spec fn call_post(
        &self,
        world: World<R>,
        acc: Acc,
        input: &(),
        after: Self,
        world_after: World<R>,
        acc_after: Acc,
        out: Out,
    ) -> bool {
        &&& after == *self
        &&& exists|held: T|
            #[trigger] effect_mppm(
                self.f.0,
                world.held::<T, I>(),
                &world.held::<U, J>(),
                &world.held::<V, K>(),
                acc,
                held,
                acc_after,
                out,
            )
                && world_after == world.holding::<T, I>(held)
    }

    fn call(&mut self, world: &mut World<R>, acc: &mut Acc, input: &()) -> (out: Out) {
        broadcast use vstd::function::group_function_axioms;

        let (second, third, first) = world.beside_two_mut::<U, J, V, K, T, I>();
        let out = (self.f.0)(&mut *first, second, third, acc);
        record(
            effect_mppm_fact::<T, &U, &V, Acc, Out, F>,
            Ghost((
                old(self).f.0,
                old(world).held::<T, I>(),
                &old(world).held::<U, J>(),
                &old(world).held::<V, K>(),
                *old(acc),
                *first,
                *acc,
                out,
            )),
        );
        assert(effect_mppm(
            old(self).f.0,
            old(world).held::<T, I>(),
            &old(world).held::<U, J>(),
            &old(world).held::<V, K>(),
            *old(acc),
            *first,
            *acc,
            out,
        ));
        out
    }
}

impl<
    R,
    T,
    I,
    U,
    J,
    V,
    K,
    Acc,
    Out,
    F: FnMut(&mut T, &U, &V, &mut Acc) -> Out,
> IntoRefScanStep<R, Acc, (), Out, (ResMut<T, I>, Res<U, J>, Res<V, K>)> for NoEvent<F> where
    R: Apart3<U, J, V, K, T, I>,
{
    type Step = Step<NoEvent<F>, (ResMut<T, I>, Res<U, J>, Res<V, K>), Out>;

    open spec fn resolved(self) -> Step<NoEvent<F>, (ResMut<T, I>, Res<U, J>, Res<V, K>), Out> {
        Step { f: self, params: PhantomData }
    }

    fn into_ref_scan_step(
        self,
        registry: &Registry<R>,
    ) -> (step: Step<NoEvent<F>, (ResMut<T, I>, Res<U, J>, Res<V, K>), Out>) {
        Step { f: self, params: PhantomData }
    }
}

impl<
    R,
    T,
    I,
    U,
    J,
    V,
    K,
    Acc,
    Out,
    F: FnMut(&mut T, &U, &mut V, &mut Acc) -> Out,
> RefScanStepCall<R, Acc, ()> for Step<
    NoEvent<F>,
    (ResMut<T, I>, Res<U, J>, ResMut<V, K>),
    Out,
> where
    R: Apart3<U, J, T, I, V, K>,
{
    type Out = Out;

    open spec fn call_pre(&self, world: World<R>, acc: Acc, input: &()) -> bool {
        forall|r0: &mut T, r2: &mut V, r3: &mut Acc| *r0 == world.held::<T, I>()
            && *r2 == world.held::<V, K>()
            && *r3 == acc
            ==> #[trigger] call_requires(self.f.0, (r0, &world.held::<U, J>(), r2, r3))
    }

    open spec fn call_post(
        &self,
        world: World<R>,
        acc: Acc,
        input: &(),
        after: Self,
        world_after: World<R>,
        acc_after: Acc,
        out: Out,
    ) -> bool {
        &&& after == *self
        &&& exists|held: T, other: V|
            #[trigger] effect_mpmm(
                self.f.0,
                world.held::<T, I>(),
                &world.held::<U, J>(),
                world.held::<V, K>(),
                acc,
                held,
                other,
                acc_after,
                out,
            )
                && world_after == world.holding::<T, I>(held).holding::<V, K>(other)
    }

    fn call(&mut self, world: &mut World<R>, acc: &mut Acc, input: &()) -> (out: Out) {
        broadcast use vstd::function::group_function_axioms;

        let (second, first, third) = world.beside_both_mut::<U, J, T, I, V, K>();
        let out = (self.f.0)(&mut *first, second, &mut *third, acc);
        record(
            effect_mpmm_fact::<T, &U, V, Acc, Out, F>,
            Ghost((
                old(self).f.0,
                old(world).held::<T, I>(),
                &old(world).held::<U, J>(),
                old(world).held::<V, K>(),
                *old(acc),
                *first,
                *third,
                *acc,
                out,
            )),
        );
        assert(effect_mpmm(
            old(self).f.0,
            old(world).held::<T, I>(),
            &old(world).held::<U, J>(),
            old(world).held::<V, K>(),
            *old(acc),
            *first,
            *third,
            *acc,
            out,
        ));
        out
    }
}

impl<
    R,
    T,
    I,
    U,
    J,
    V,
    K,
    Acc,
    Out,
    F: FnMut(&mut T, &U, &mut V, &mut Acc) -> Out,
> IntoRefScanStep<R, Acc, (), Out, (ResMut<T, I>, Res<U, J>, ResMut<V, K>)> for NoEvent<F> where
    R: Apart3<U, J, T, I, V, K>,
{
    type Step = Step<NoEvent<F>, (ResMut<T, I>, Res<U, J>, ResMut<V, K>), Out>;

    open spec fn resolved(self) -> Step<NoEvent<F>, (ResMut<T, I>, Res<U, J>, ResMut<V, K>), Out> {
        Step { f: self, params: PhantomData }
    }

    fn into_ref_scan_step(
        self,
        registry: &Registry<R>,
    ) -> (step: Step<NoEvent<F>, (ResMut<T, I>, Res<U, J>, ResMut<V, K>), Out>) {
        Step { f: self, params: PhantomData }
    }
}

impl<
    R,
    T,
    I,
    U,
    J,
    V,
    K,
    Acc,
    Out,
    F: FnMut(&mut T, &mut U, &V, &mut Acc) -> Out,
> RefScanStepCall<R, Acc, ()> for Step<
    NoEvent<F>,
    (ResMut<T, I>, ResMut<U, J>, Res<V, K>),
    Out,
> where
    R: Apart3<V, K, T, I, U, J>,
{
    type Out = Out;

    open spec fn call_pre(&self, world: World<R>, acc: Acc, input: &()) -> bool {
        forall|r0: &mut T, r1: &mut U, r3: &mut Acc| *r0 == world.held::<T, I>()
            && *r1 == world.held::<U, J>()
            && *r3 == acc
            ==> #[trigger] call_requires(self.f.0, (r0, r1, &world.held::<V, K>(), r3))
    }

    open spec fn call_post(
        &self,
        world: World<R>,
        acc: Acc,
        input: &(),
        after: Self,
        world_after: World<R>,
        acc_after: Acc,
        out: Out,
    ) -> bool {
        &&& after == *self
        &&& exists|held: T, other: U|
            #[trigger] effect_mmpm(
                self.f.0,
                world.held::<T, I>(),
                world.held::<U, J>(),
                &world.held::<V, K>(),
                acc,
                held,
                other,
                acc_after,
                out,
            )
                && world_after == world.holding::<T, I>(held).holding::<U, J>(other)
    }

    fn call(&mut self, world: &mut World<R>, acc: &mut Acc, input: &()) -> (out: Out) {
        broadcast use vstd::function::group_function_axioms;

        let (third, first, second) = world.beside_both_mut::<V, K, T, I, U, J>();
        let out = (self.f.0)(&mut *first, &mut *second, third, acc);
        record(
            effect_mmpm_fact::<T, U, &V, Acc, Out, F>,
            Ghost((
                old(self).f.0,
                old(world).held::<T, I>(),
                old(world).held::<U, J>(),
                &old(world).held::<V, K>(),
                *old(acc),
                *first,
                *second,
                *acc,
                out,
            )),
        );
        assert(effect_mmpm(
            old(self).f.0,
            old(world).held::<T, I>(),
            old(world).held::<U, J>(),
            &old(world).held::<V, K>(),
            *old(acc),
            *first,
            *second,
            *acc,
            out,
        ));
        out
    }
}

impl<
    R,
    T,
    I,
    U,
    J,
    V,
    K,
    Acc,
    Out,
    F: FnMut(&mut T, &mut U, &V, &mut Acc) -> Out,
> IntoRefScanStep<R, Acc, (), Out, (ResMut<T, I>, ResMut<U, J>, Res<V, K>)> for NoEvent<F> where
    R: Apart3<V, K, T, I, U, J>,
{
    type Step = Step<NoEvent<F>, (ResMut<T, I>, ResMut<U, J>, Res<V, K>), Out>;

    open spec fn resolved(self) -> Step<NoEvent<F>, (ResMut<T, I>, ResMut<U, J>, Res<V, K>), Out> {
        Step { f: self, params: PhantomData }
    }

    fn into_ref_scan_step(
        self,
        registry: &Registry<R>,
    ) -> (step: Step<NoEvent<F>, (ResMut<T, I>, ResMut<U, J>, Res<V, K>), Out>) {
        Step { f: self, params: PhantomData }
    }
}

impl<
    R,
    T,
    I,
    U,
    J,
    V,
    K,
    Acc,
    Out,
    F: FnMut(&mut T, &mut U, &mut V, &mut Acc) -> Out,
> RefScanStepCall<R, Acc, ()> for Step<
    NoEvent<F>,
    (ResMut<T, I>, ResMut<U, J>, ResMut<V, K>),
    Out,
> where
    R: Apart3<T, I, U, J, V, K>,
{
    type Out = Out;

    open spec fn call_pre(&self, world: World<R>, acc: Acc, input: &()) -> bool {
        forall|r0: &mut T, r1: &mut U, r2: &mut V, r3: &mut Acc| *r0 == world.held::<T, I>()
            && *r1 == world.held::<U, J>()
            && *r2 == world.held::<V, K>()
            && *r3 == acc
            ==> #[trigger] call_requires(self.f.0, (r0, r1, r2, r3))
    }

    open spec fn call_post(
        &self,
        world: World<R>,
        acc: Acc,
        input: &(),
        after: Self,
        world_after: World<R>,
        acc_after: Acc,
        out: Out,
    ) -> bool {
        &&& after == *self
        &&& exists|held: T, other: U, last: V|
            #[trigger] effect_mmmm(
                self.f.0,
                world.held::<T, I>(),
                world.held::<U, J>(),
                world.held::<V, K>(),
                acc,
                held,
                other,
                last,
                acc_after,
                out,
            )
                && world_after == world.holding::<T, I>(held).holding::<U, J>(other).holding::<V, K>(last)
    }

    fn call(&mut self, world: &mut World<R>, acc: &mut Acc, input: &()) -> (out: Out) {
        broadcast use vstd::function::group_function_axioms;

        let (first, second, third) = world.three_mut::<T, I, U, J, V, K>();
        let out = (self.f.0)(&mut *first, &mut *second, &mut *third, acc);
        record(
            effect_mmmm_fact::<T, U, V, Acc, Out, F>,
            Ghost((
                old(self).f.0,
                old(world).held::<T, I>(),
                old(world).held::<U, J>(),
                old(world).held::<V, K>(),
                *old(acc),
                *first,
                *second,
                *third,
                *acc,
                out,
            )),
        );
        assert(effect_mmmm(
            old(self).f.0,
            old(world).held::<T, I>(),
            old(world).held::<U, J>(),
            old(world).held::<V, K>(),
            *old(acc),
            *first,
            *second,
            *third,
            *acc,
            out,
        ));
        out
    }
}

impl<
    R,
    T,
    I,
    U,
    J,
    V,
    K,
    Acc,
    Out,
    F: FnMut(&mut T, &mut U, &mut V, &mut Acc) -> Out,
> IntoRefScanStep<R, Acc, (), Out, (ResMut<T, I>, ResMut<U, J>, ResMut<V, K>)> for NoEvent<F> where
    R: Apart3<T, I, U, J, V, K>,
{
    type Step = Step<NoEvent<F>, (ResMut<T, I>, ResMut<U, J>, ResMut<V, K>), Out>;

    open spec fn resolved(
        self,
    ) -> Step<NoEvent<F>, (ResMut<T, I>, ResMut<U, J>, ResMut<V, K>), Out> {
        Step { f: self, params: PhantomData }
    }

    fn into_ref_scan_step(
        self,
        registry: &Registry<R>,
    ) -> (step: Step<NoEvent<F>, (ResMut<T, I>, ResMut<U, J>, ResMut<V, K>), Out>) {
        Step { f: self, params: PhantomData }
    }
}

} // verus!
