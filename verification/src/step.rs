//! Functions as steps of a pipeline.
//!
//! A step is a function of its input alone, a function that also takes up to three resources,
//! or a function that takes the whole world. Those of three resources are in `step3`.
use crate::effect::{
    effect_m, effect_m_fact, effect_mm, effect_mm_fact, effect_mmm, effect_mmm_fact, effect_mmmp,
    effect_mmmp_fact, effect_mmp, effect_mmp_fact, effect_mp, effect_mp_fact, effect_mpm,
    effect_mpm_fact, effect_mpmp, effect_mpmp_fact, effect_mpp, effect_mpp_fact, effect_pm,
    effect_pm_fact, effect_pmm, effect_pmm_fact, effect_pmmp, effect_pmmp_fact, effect_pmp,
    effect_pmp_fact, effect_ppm, effect_ppm_fact, effect_ppmp, effect_ppmp_fact, record,
};
use crate::handler::{NoEvent, Opaque};
use crate::world::{Apart, Registry, Res, ResMut, Resource, World};
use std::marker::PhantomData;
use vstd::prelude::*;

verus! {

/// A function that gives an `Out`, with the mark of its shape.
pub struct Step<F, Params, Out> {
    pub f: F,
    pub params: PhantomData<(Params, Out)>,
}

/// A step that consumes its input.
pub trait StepCall<R, In>: Sized {
    /// What the step produces.
    type Out;

    /// When the step may be called.
    spec fn call_pre(&self, world: World<R>, input: In) -> bool;

    /// What a call may lead to: the step itself, the state it was handed, and its result.
    spec fn call_post(
        &self,
        world: World<R>,
        input: In,
        after: Self,
        world_after: World<R>,
        out: Self::Out,
    ) -> bool;

    fn call(&mut self, world: &mut World<R>, input: In) -> (out: Self::Out)
        requires
            old(self).call_pre(*old(world), input),
        ensures
            old(self).call_post(*old(world), input, *final(self), *final(world), out),
    ;
}

/// Turns a function into a [`StepCall`]. `Params` tells the shapes of function apart.
pub trait IntoStep<R, In, Out, Params>: Sized {
    type Step: StepCall<R, In, Out = Out>;

    /// The step that the function stands for.
    spec fn resolved(self) -> Self::Step;

    fn into_step(self, registry: &Registry<R>) -> (step: Self::Step)
        ensures
            step == self.resolved(),
    ;
}

/// A function that is handed the whole world and gives an `Out`.
pub struct OpaqueStep<F, Out> {
    pub f: F,
    pub params: PhantomData<Out>,
}

impl<R, In, Out, F: FnMut(In) -> Out> StepCall<R, In> for Step<F, (), Out> {
    type Out = Out;

    open spec fn call_pre(&self, world: World<R>, input: In) -> bool {
        call_requires(self.f, (input,))
    }

    open spec fn call_post(
        &self,
        world: World<R>,
        input: In,
        after: Self,
        world_after: World<R>,
        out: Out,
    ) -> bool {
        &&& after == *self
        &&& world_after == world
        &&& call_ensures(self.f, (input,), out)
    }

    fn call(&mut self, world: &mut World<R>, input: In) -> (out: Out) {
        broadcast use vstd::function::group_function_axioms;

        (self.f)(input)
    }
}

impl<R, In, Out, F: FnMut(In) -> Out> IntoStep<R, In, Out, ()> for F {
    type Step = Step<F, (), Out>;

    open spec fn resolved(self) -> Step<F, (), Out> {
        Step { f: self, params: PhantomData }
    }

    fn into_step(self, registry: &Registry<R>) -> (step: Step<F, (), Out>) {
        Step { f: self, params: PhantomData }
    }
}

impl<R, T, I, In, Out, F: FnMut(&T, In) -> Out> StepCall<R, In> for Step<F, Res<T, I>, Out> where
    R: Resource<T, I>,
{
    type Out = Out;

    open spec fn call_pre(&self, world: World<R>, input: In) -> bool {
        call_requires(self.f, (&world.held::<T, I>(), input))
    }

    open spec fn call_post(
        &self,
        world: World<R>,
        input: In,
        after: Self,
        world_after: World<R>,
        out: Out,
    ) -> bool {
        &&& after == *self
        &&& world_after == world
        &&& call_ensures(self.f, (&world.held::<T, I>(), input), out)
    }

    fn call(&mut self, world: &mut World<R>, input: In) -> (out: Out) {
        broadcast use vstd::function::group_function_axioms;

        (self.f)(world.resource::<T, I>(), input)
    }
}

impl<R, T, I, In, Out, F: FnMut(&T, In) -> Out> IntoStep<R, In, Out, Res<T, I>> for F where
    R: Resource<T, I>,
{
    type Step = Step<F, Res<T, I>, Out>;

    open spec fn resolved(self) -> Step<F, Res<T, I>, Out> {
        Step { f: self, params: PhantomData }
    }

    fn into_step(self, registry: &Registry<R>) -> (step: Step<F, Res<T, I>, Out>) {
        Step { f: self, params: PhantomData }
    }
}

impl<
    R,
    T,
    I,
    In,
    Out,
    F: FnMut(&mut T, In) -> Out,
> StepCall<R, In> for Step<F, ResMut<T, I>, Out> where
    R: Resource<T, I>,
{
    type Out = Out;

    open spec fn call_pre(&self, world: World<R>, input: In) -> bool {
        forall|r0: &mut T| *r0 == world.held::<T, I>()
            ==> #[trigger] call_requires(self.f, (r0, input))
    }

    open spec fn call_post(
        &self,
        world: World<R>,
        input: In,
        after: Self,
        world_after: World<R>,
        out: Out,
    ) -> bool {
        &&& after == *self
        &&& exists|held: T|
            #[trigger] effect_mp(self.f, world.held::<T, I>(), input, held, out)
                && world_after == world.holding::<T, I>(held)
    }

    fn call(&mut self, world: &mut World<R>, input: In) -> (out: Out) {
        broadcast use vstd::function::group_function_axioms;

        let ghost input_given = input;
        let cell: &mut T = world.resource_mut::<T, I>();
        let out = (self.f)(&mut *cell, input);
        record(
            effect_mp_fact::<T, In, Out, F>,
            Ghost((old(self).f, old(world).held::<T, I>(), input_given, *cell, out)),
        );
        assert(effect_mp(old(self).f, old(world).held::<T, I>(), input_given, *cell, out));
        out
    }
}

impl<R, T, I, In, Out, F: FnMut(&mut T, In) -> Out> IntoStep<R, In, Out, ResMut<T, I>> for F where
    R: Resource<T, I>,
{
    type Step = Step<F, ResMut<T, I>, Out>;

    open spec fn resolved(self) -> Step<F, ResMut<T, I>, Out> {
        Step { f: self, params: PhantomData }
    }

    fn into_step(self, registry: &Registry<R>) -> (step: Step<F, ResMut<T, I>, Out>) {
        Step { f: self, params: PhantomData }
    }
}

impl<
    R,
    T,
    I,
    U,
    J,
    In,
    Out,
    F: FnMut(&T, &U, In) -> Out,
> StepCall<R, In> for Step<F, (Res<T, I>, Res<U, J>), Out> where
    R: Resource<T, I> + Resource<U, J>,
{
    type Out = Out;

    open spec fn call_pre(&self, world: World<R>, input: In) -> bool {
        call_requires(self.f, (&world.held::<T, I>(), &world.held::<U, J>(), input))
    }

    open spec fn call_post(
        &self,
        world: World<R>,
        input: In,
        after: Self,
        world_after: World<R>,
        out: Out,
    ) -> bool {
        &&& after == *self
        &&& world_after == world
        &&& call_ensures(self.f, (&world.held::<T, I>(), &world.held::<U, J>(), input), out)
    }

    fn call(&mut self, world: &mut World<R>, input: In) -> (out: Out) {
        broadcast use vstd::function::group_function_axioms;

        (self.f)(world.resource::<T, I>(), world.resource::<U, J>(), input)
    }
}

impl<
    R,
    T,
    I,
    U,
    J,
    In,
    Out,
    F: FnMut(&T, &U, In) -> Out,
> IntoStep<R, In, Out, (Res<T, I>, Res<U, J>)> for F where
    R: Resource<T, I> + Resource<U, J>,
{
    type Step = Step<F, (Res<T, I>, Res<U, J>), Out>;

    open spec fn resolved(self) -> Step<F, (Res<T, I>, Res<U, J>), Out> {
        Step { f: self, params: PhantomData }
    }

    fn into_step(self, registry: &Registry<R>) -> (step: Step<F, (Res<T, I>, Res<U, J>), Out>) {
        Step { f: self, params: PhantomData }
    }
}

impl<
    R,
    T,
    I,
    U,
    J,
    In,
    Out,
    F: FnMut(&T, &mut U, In) -> Out,
> StepCall<R, In> for Step<F, (Res<T, I>, ResMut<U, J>), Out> where
    R: Apart<T, I, U, J>,
{
    type Out = Out;

    open spec fn call_pre(&self, world: World<R>, input: In) -> bool {
        forall|r1: &mut U| *r1 == world.held::<U, J>()
            ==> #[trigger] call_requires(self.f, (&world.held::<T, I>(), r1, input))
    }

    open spec fn call_post(
        &self,
        world: World<R>,
        input: In,
        after: Self,
        world_after: World<R>,
        out: Out,
    ) -> bool {
        &&& after == *self
        &&& exists|held: U|
            #[trigger] effect_pmp(
                self.f,
                &world.held::<T, I>(),
                world.held::<U, J>(),
                input,
                held,
                out,
            )
                && world_after == world.holding::<U, J>(held)
    }

    fn call(&mut self, world: &mut World<R>, input: In) -> (out: Out) {
        broadcast use vstd::function::group_function_axioms;

        let ghost input_given = input;
        let (first, second): (&T, &mut U) = world.beside_mut::<T, I, U, J>();
        let out = (self.f)(first, &mut *second, input);
        record(
            effect_pmp_fact::<&T, U, In, Out, F>,
            Ghost((
                old(self).f,
                &old(world).held::<T, I>(),
                old(world).held::<U, J>(),
                input_given,
                *second,
                out,
            )),
        );
        assert(effect_pmp(
            old(self).f,
            &old(world).held::<T, I>(),
            old(world).held::<U, J>(),
            input_given,
            *second,
            out,
        ));
        out
    }
}

impl<
    R,
    T,
    I,
    U,
    J,
    In,
    Out,
    F: FnMut(&T, &mut U, In) -> Out,
> IntoStep<R, In, Out, (Res<T, I>, ResMut<U, J>)> for F where
    R: Apart<T, I, U, J>,
{
    type Step = Step<F, (Res<T, I>, ResMut<U, J>), Out>;

    open spec fn resolved(self) -> Step<F, (Res<T, I>, ResMut<U, J>), Out> {
        Step { f: self, params: PhantomData }
    }

    fn into_step(self, registry: &Registry<R>) -> (step: Step<F, (Res<T, I>, ResMut<U, J>), Out>) {
        Step { f: self, params: PhantomData }
    }
}

impl<
    R,
    T,
    I,
    U,
    J,
    In,
    Out,
    F: FnMut(&mut T, &U, In) -> Out,
> StepCall<R, In> for Step<F, (ResMut<T, I>, Res<U, J>), Out> where
    R: Apart<U, J, T, I>,
{
    type Out = Out;

    open spec fn call_pre(&self, world: World<R>, input: In) -> bool {
        forall|r0: &mut T| *r0 == world.held::<T, I>()
            ==> #[trigger] call_requires(self.f, (r0, &world.held::<U, J>(), input))
    }

    open spec fn call_post(
        &self,
        world: World<R>,
        input: In,
        after: Self,
        world_after: World<R>,
        out: Out,
    ) -> bool {
        &&& after == *self
        &&& exists|held: T|
            #[trigger] effect_mpp(
                self.f,
                world.held::<T, I>(),
                &world.held::<U, J>(),
                input,
                held,
                out,
            )
                && world_after == world.holding::<T, I>(held)
    }

    fn call(&mut self, world: &mut World<R>, input: In) -> (out: Out) {
        broadcast use vstd::function::group_function_axioms;

        let ghost input_given = input;
        let (second, first): (&U, &mut T) = world.beside_mut::<U, J, T, I>();
        let out = (self.f)(&mut *first, second, input);
        record(
            effect_mpp_fact::<T, &U, In, Out, F>,
            Ghost((
                old(self).f,
                old(world).held::<T, I>(),
                &old(world).held::<U, J>(),
                input_given,
                *first,
                out,
            )),
        );
        assert(effect_mpp(
            old(self).f,
            old(world).held::<T, I>(),
            &old(world).held::<U, J>(),
            input_given,
            *first,
            out,
        ));
        out
    }
}

impl<
    R,
    T,
    I,
    U,
    J,
    In,
    Out,
    F: FnMut(&mut T, &U, In) -> Out,
> IntoStep<R, In, Out, (ResMut<T, I>, Res<U, J>)> for F where
    R: Apart<U, J, T, I>,
{
    type Step = Step<F, (ResMut<T, I>, Res<U, J>), Out>;

    open spec fn resolved(self) -> Step<F, (ResMut<T, I>, Res<U, J>), Out> {
        Step { f: self, params: PhantomData }
    }

    fn into_step(self, registry: &Registry<R>) -> (step: Step<F, (ResMut<T, I>, Res<U, J>), Out>) {
        Step { f: self, params: PhantomData }
    }
}

impl<
    R,
    T,
    I,
    U,
    J,
    In,
    Out,
    F: FnMut(&mut T, &mut U, In) -> Out,
> StepCall<R, In> for Step<F, (ResMut<T, I>, ResMut<U, J>), Out> where
    R: Apart<T, I, U, J>,
{
    type Out = Out;

    open spec fn call_pre(&self, world: World<R>, input: In) -> bool {
        forall|r0: &mut T, r1: &mut U| *r0 == world.held::<T, I>() && *r1 == world.held::<U, J>()
            ==> #[trigger] call_requires(self.f, (r0, r1, input))
    }

    open spec fn call_post(
        &self,
        world: World<R>,
        input: In,
        after: Self,
        world_after: World<R>,
        out: Out,
    ) -> bool {
        &&& after == *self
        &&& exists|held: T, other: U|
            #[trigger] effect_mmp(
                self.f,
                world.held::<T, I>(),
                world.held::<U, J>(),
                input,
                held,
                other,
                out,
            )
                && world_after == world.holding::<T, I>(held).holding::<U, J>(other)
    }

    fn call(&mut self, world: &mut World<R>, input: In) -> (out: Out) {
        broadcast use vstd::function::group_function_axioms;

        let ghost input_given = input;
        let (first, second): (&mut T, &mut U) = world.both_mut::<T, I, U, J>();
        let out = (self.f)(&mut *first, &mut *second, input);
        record(
            effect_mmp_fact::<T, U, In, Out, F>,
            Ghost((
                old(self).f,
                old(world).held::<T, I>(),
                old(world).held::<U, J>(),
                input_given,
                *first,
                *second,
                out,
            )),
        );
        assert(effect_mmp(
            old(self).f,
            old(world).held::<T, I>(),
            old(world).held::<U, J>(),
            input_given,
            *first,
            *second,
            out,
        ));
        out
    }
}

impl<
    R,
    T,
    I,
    U,
    J,
    In,
    Out,
    F: FnMut(&mut T, &mut U, In) -> Out,
> IntoStep<R, In, Out, (ResMut<T, I>, ResMut<U, J>)> for F where
    R: Apart<T, I, U, J>,
{
    type Step = Step<F, (ResMut<T, I>, ResMut<U, J>), Out>;

    open spec fn resolved(self) -> Step<F, (ResMut<T, I>, ResMut<U, J>), Out> {
        Step { f: self, params: PhantomData }
    }

    fn into_step(
        self,
        registry: &Registry<R>,
    ) -> (step: Step<F, (ResMut<T, I>, ResMut<U, J>), Out>) {
        Step { f: self, params: PhantomData }
    }
}

impl<R, In, Out, F: FnMut(&mut World<R>, In) -> Out> StepCall<R, In> for OpaqueStep<F, Out> {
    type Out = Out;

    open spec fn call_pre(&self, world: World<R>, input: In) -> bool {
        forall|r0: &mut World<R>| *r0 == world ==> #[trigger] call_requires(self.f, (r0, input))
    }

    open spec fn call_post(
        &self,
        world: World<R>,
        input: In,
        after: Self,
        world_after: World<R>,
        out: Out,
    ) -> bool {
        &&& after == *self
        &&& effect_mp(self.f, world, input, world_after, out)
    }

    fn call(&mut self, world: &mut World<R>, input: In) -> (out: Out) {
        broadcast use vstd::function::group_function_axioms;

        let ghost input_given = input;
        let out = (self.f)(world, input);
        record(
            effect_mp_fact::<World<R>, In, Out, F>,
            Ghost((old(self).f, *old(world), input_given, *world, out)),
        );
        out
    }
}

impl<R, In, Out, F: FnMut(&mut World<R>, In) -> Out> IntoStep<R, In, Out, Opaque> for F {
    type Step = OpaqueStep<F, Out>;

    open spec fn resolved(self) -> OpaqueStep<F, Out> {
        OpaqueStep { f: self, params: PhantomData }
    }

    fn into_step(self, registry: &Registry<R>) -> (step: OpaqueStep<F, Out>) {
        OpaqueStep { f: self, params: PhantomData }
    }
}

impl<R, Out, F: FnMut() -> Out> StepCall<R, ()> for Step<NoEvent<F>, (), Out> {
    type Out = Out;

    open spec fn call_pre(&self, world: World<R>, input: ()) -> bool {
        call_requires(self.f.0, ())
    }

    open spec fn call_post(
        &self,
        world: World<R>,
        input: (),
        after: Self,
        world_after: World<R>,
        out: Out,
    ) -> bool {
        &&& after == *self
        &&& world_after == world
        &&& call_ensures(self.f.0, (), out)
    }

    fn call(&mut self, world: &mut World<R>, input: ()) -> (out: Out) {
        broadcast use vstd::function::group_function_axioms;

        (self.f.0)()
    }
}

impl<R, Out, F: FnMut() -> Out> IntoStep<R, (), Out, NoEvent<F>> for F {
    type Step = Step<NoEvent<F>, (), Out>;

    open spec fn resolved(self) -> Step<NoEvent<F>, (), Out> {
        Step { f: NoEvent(self), params: PhantomData }
    }

    fn into_step(self, registry: &Registry<R>) -> (step: Step<NoEvent<F>, (), Out>) {
        Step { f: NoEvent(self), params: PhantomData }
    }
}

impl<R, T, I, Out, F: FnMut(&T) -> Out> StepCall<R, ()> for Step<NoEvent<F>, Res<T, I>, Out> where
    R: Resource<T, I>,
{
    type Out = Out;

    open spec fn call_pre(&self, world: World<R>, input: ()) -> bool {
        call_requires(self.f.0, (&world.held::<T, I>(),))
    }

    open spec fn call_post(
        &self,
        world: World<R>,
        input: (),
        after: Self,
        world_after: World<R>,
        out: Out,
    ) -> bool {
        &&& after == *self
        &&& world_after == world
        &&& call_ensures(self.f.0, (&world.held::<T, I>(),), out)
    }

    fn call(&mut self, world: &mut World<R>, input: ()) -> (out: Out) {
        broadcast use vstd::function::group_function_axioms;

        (self.f.0)(world.resource::<T, I>())
    }
}

impl<R, T, I, Out, F: FnMut(&T) -> Out> IntoStep<R, (), Out, Res<T, I>> for NoEvent<F> where
    R: Resource<T, I>,
{
    type Step = Step<NoEvent<F>, Res<T, I>, Out>;

    open spec fn resolved(self) -> Step<NoEvent<F>, Res<T, I>, Out> {
        Step { f: self, params: PhantomData }
    }

    fn into_step(self, registry: &Registry<R>) -> (step: Step<NoEvent<F>, Res<T, I>, Out>) {
        Step { f: self, params: PhantomData }
    }
}

impl<
    R,
    T,
    I,
    Out,
    F: FnMut(&mut T) -> Out,
> StepCall<R, ()> for Step<NoEvent<F>, ResMut<T, I>, Out> where
    R: Resource<T, I>,
{
    type Out = Out;

    open spec fn call_pre(&self, world: World<R>, input: ()) -> bool {
        forall|r0: &mut T| *r0 == world.held::<T, I>() ==> #[trigger] call_requires(self.f.0, (r0,))
    }

    open spec fn call_post(
        &self,
        world: World<R>,
        input: (),
        after: Self,
        world_after: World<R>,
        out: Out,
    ) -> bool {
        &&& after == *self
        &&& exists|held: T|
            #[trigger] effect_m(self.f.0, world.held::<T, I>(), held, out)
                && world_after == world.holding::<T, I>(held)
    }

    fn call(&mut self, world: &mut World<R>, input: ()) -> (out: Out) {
        broadcast use vstd::function::group_function_axioms;

        let cell: &mut T = world.resource_mut::<T, I>();
        let out = (self.f.0)(&mut *cell);
        record(
            effect_m_fact::<T, Out, F>,
            Ghost((old(self).f.0, old(world).held::<T, I>(), *cell, out)),
        );
        assert(effect_m(old(self).f.0, old(world).held::<T, I>(), *cell, out));
        out
    }
}

impl<R, T, I, Out, F: FnMut(&mut T) -> Out> IntoStep<R, (), Out, ResMut<T, I>> for NoEvent<F> where
    R: Resource<T, I>,
{
    type Step = Step<NoEvent<F>, ResMut<T, I>, Out>;

    open spec fn resolved(self) -> Step<NoEvent<F>, ResMut<T, I>, Out> {
        Step { f: self, params: PhantomData }
    }

    fn into_step(self, registry: &Registry<R>) -> (step: Step<NoEvent<F>, ResMut<T, I>, Out>) {
        Step { f: self, params: PhantomData }
    }
}

impl<
    R,
    T,
    I,
    U,
    J,
    Out,
    F: FnMut(&T, &U) -> Out,
> StepCall<R, ()> for Step<NoEvent<F>, (Res<T, I>, Res<U, J>), Out> where
    R: Resource<T, I> + Resource<U, J>,
{
    type Out = Out;

    open spec fn call_pre(&self, world: World<R>, input: ()) -> bool {
        call_requires(self.f.0, (&world.held::<T, I>(), &world.held::<U, J>()))
    }

    open spec fn call_post(
        &self,
        world: World<R>,
        input: (),
        after: Self,
        world_after: World<R>,
        out: Out,
    ) -> bool {
        &&& after == *self
        &&& world_after == world
        &&& call_ensures(self.f.0, (&world.held::<T, I>(), &world.held::<U, J>()), out)
    }

    fn call(&mut self, world: &mut World<R>, input: ()) -> (out: Out) {
        broadcast use vstd::function::group_function_axioms;

        (self.f.0)(world.resource::<T, I>(), world.resource::<U, J>())
    }
}

impl<
    R,
    T,
    I,
    U,
    J,
    Out,
    F: FnMut(&T, &U) -> Out,
> IntoStep<R, (), Out, (Res<T, I>, Res<U, J>)> for NoEvent<F> where
    R: Resource<T, I> + Resource<U, J>,
{
    type Step = Step<NoEvent<F>, (Res<T, I>, Res<U, J>), Out>;

    open spec fn resolved(self) -> Step<NoEvent<F>, (Res<T, I>, Res<U, J>), Out> {
        Step { f: self, params: PhantomData }
    }

    fn into_step(
        self,
        registry: &Registry<R>,
    ) -> (step: Step<NoEvent<F>, (Res<T, I>, Res<U, J>), Out>) {
        Step { f: self, params: PhantomData }
    }
}

impl<
    R,
    T,
    I,
    U,
    J,
    Out,
    F: FnMut(&T, &mut U) -> Out,
> StepCall<R, ()> for Step<NoEvent<F>, (Res<T, I>, ResMut<U, J>), Out> where
    R: Apart<T, I, U, J>,
{
    type Out = Out;

    open spec fn call_pre(&self, world: World<R>, input: ()) -> bool {
        forall|r1: &mut U| *r1 == world.held::<U, J>()
            ==> #[trigger] call_requires(self.f.0, (&world.held::<T, I>(), r1))
    }

    open spec fn call_post(
        &self,
        world: World<R>,
        input: (),
        after: Self,
        world_after: World<R>,
        out: Out,
    ) -> bool {
        &&& after == *self
        &&& exists|held: U|
            #[trigger] effect_pm(self.f.0, &world.held::<T, I>(), world.held::<U, J>(), held, out)
                && world_after == world.holding::<U, J>(held)
    }

    fn call(&mut self, world: &mut World<R>, input: ()) -> (out: Out) {
        broadcast use vstd::function::group_function_axioms;

        let (first, second): (&T, &mut U) = world.beside_mut::<T, I, U, J>();
        let out = (self.f.0)(first, &mut *second);
        record(
            effect_pm_fact::<&T, U, Out, F>,
            Ghost((
                old(self).f.0,
                &old(world).held::<T, I>(),
                old(world).held::<U, J>(),
                *second,
                out,
            )),
        );
        assert(effect_pm(
            old(self).f.0,
            &old(world).held::<T, I>(),
            old(world).held::<U, J>(),
            *second,
            out,
        ));
        out
    }
}

impl<
    R,
    T,
    I,
    U,
    J,
    Out,
    F: FnMut(&T, &mut U) -> Out,
> IntoStep<R, (), Out, (Res<T, I>, ResMut<U, J>)> for NoEvent<F> where
    R: Apart<T, I, U, J>,
{
    type Step = Step<NoEvent<F>, (Res<T, I>, ResMut<U, J>), Out>;

    open spec fn resolved(self) -> Step<NoEvent<F>, (Res<T, I>, ResMut<U, J>), Out> {
        Step { f: self, params: PhantomData }
    }

    fn into_step(
        self,
        registry: &Registry<R>,
    ) -> (step: Step<NoEvent<F>, (Res<T, I>, ResMut<U, J>), Out>) {
        Step { f: self, params: PhantomData }
    }
}

impl<
    R,
    T,
    I,
    U,
    J,
    Out,
    F: FnMut(&mut T, &U) -> Out,
> StepCall<R, ()> for Step<NoEvent<F>, (ResMut<T, I>, Res<U, J>), Out> where
    R: Apart<U, J, T, I>,
{
    type Out = Out;

    open spec fn call_pre(&self, world: World<R>, input: ()) -> bool {
        forall|r0: &mut T| *r0 == world.held::<T, I>()
            ==> #[trigger] call_requires(self.f.0, (r0, &world.held::<U, J>()))
    }

    open spec fn call_post(
        &self,
        world: World<R>,
        input: (),
        after: Self,
        world_after: World<R>,
        out: Out,
    ) -> bool {
        &&& after == *self
        &&& exists|held: T|
            #[trigger] effect_mp(self.f.0, world.held::<T, I>(), &world.held::<U, J>(), held, out)
                && world_after == world.holding::<T, I>(held)
    }

    fn call(&mut self, world: &mut World<R>, input: ()) -> (out: Out) {
        broadcast use vstd::function::group_function_axioms;

        let (second, first): (&U, &mut T) = world.beside_mut::<U, J, T, I>();
        let out = (self.f.0)(&mut *first, second);
        record(
            effect_mp_fact::<T, &U, Out, F>,
            Ghost((
                old(self).f.0,
                old(world).held::<T, I>(),
                &old(world).held::<U, J>(),
                *first,
                out,
            )),
        );
        assert(effect_mp(
            old(self).f.0,
            old(world).held::<T, I>(),
            &old(world).held::<U, J>(),
            *first,
            out,
        ));
        out
    }
}

impl<
    R,
    T,
    I,
    U,
    J,
    Out,
    F: FnMut(&mut T, &U) -> Out,
> IntoStep<R, (), Out, (ResMut<T, I>, Res<U, J>)> for NoEvent<F> where
    R: Apart<U, J, T, I>,
{
    type Step = Step<NoEvent<F>, (ResMut<T, I>, Res<U, J>), Out>;

    open spec fn resolved(self) -> Step<NoEvent<F>, (ResMut<T, I>, Res<U, J>), Out> {
        Step { f: self, params: PhantomData }
    }

    fn into_step(
        self,
        registry: &Registry<R>,
    ) -> (step: Step<NoEvent<F>, (ResMut<T, I>, Res<U, J>), Out>) {
        Step { f: self, params: PhantomData }
    }
}

impl<
    R,
    T,
    I,
    U,
    J,
    Out,
    F: FnMut(&mut T, &mut U) -> Out,
> StepCall<R, ()> for Step<NoEvent<F>, (ResMut<T, I>, ResMut<U, J>), Out> where
    R: Apart<T, I, U, J>,
{
    type Out = Out;

    open spec fn call_pre(&self, world: World<R>, input: ()) -> bool {
        forall|r0: &mut T, r1: &mut U| *r0 == world.held::<T, I>() && *r1 == world.held::<U, J>()
            ==> #[trigger] call_requires(self.f.0, (r0, r1))
    }

    open spec fn call_post(
        &self,
        world: World<R>,
        input: (),
        after: Self,
        world_after: World<R>,
        out: Out,
    ) -> bool {
        &&& after == *self
        &&& exists|held: T, other: U|
            #[trigger] effect_mm(
                self.f.0,
                world.held::<T, I>(),
                world.held::<U, J>(),
                held,
                other,
                out,
            )
                && world_after == world.holding::<T, I>(held).holding::<U, J>(other)
    }

    fn call(&mut self, world: &mut World<R>, input: ()) -> (out: Out) {
        broadcast use vstd::function::group_function_axioms;

        let (first, second): (&mut T, &mut U) = world.both_mut::<T, I, U, J>();
        let out = (self.f.0)(&mut *first, &mut *second);
        record(
            effect_mm_fact::<T, U, Out, F>,
            Ghost((
                old(self).f.0,
                old(world).held::<T, I>(),
                old(world).held::<U, J>(),
                *first,
                *second,
                out,
            )),
        );
        assert(effect_mm(
            old(self).f.0,
            old(world).held::<T, I>(),
            old(world).held::<U, J>(),
            *first,
            *second,
            out,
        ));
        out
    }
}

impl<
    R,
    T,
    I,
    U,
    J,
    Out,
    F: FnMut(&mut T, &mut U) -> Out,
> IntoStep<R, (), Out, (ResMut<T, I>, ResMut<U, J>)> for NoEvent<F> where
    R: Apart<T, I, U, J>,
{
    type Step = Step<NoEvent<F>, (ResMut<T, I>, ResMut<U, J>), Out>;

    open spec fn resolved(self) -> Step<NoEvent<F>, (ResMut<T, I>, ResMut<U, J>), Out> {
        Step { f: self, params: PhantomData }
    }

    fn into_step(
        self,
        registry: &Registry<R>,
    ) -> (step: Step<NoEvent<F>, (ResMut<T, I>, ResMut<U, J>), Out>) {
        Step { f: self, params: PhantomData }
    }
}

/// A step that looks at its input and leaves it where it is.
pub trait RefStepCall<R, In>: Sized {
    /// What the step produces.
    type Out;

    /// When the step may be called.
    spec fn call_pre(&self, world: World<R>, input: &In) -> bool;

    /// What a call may lead to: the step itself, the state it was handed, and its result.
    spec fn call_post(
        &self,
        world: World<R>,
        input: &In,
        after: Self,
        world_after: World<R>,
        out: Self::Out,
    ) -> bool;

    fn call(&mut self, world: &mut World<R>, input: &In) -> (out: Self::Out)
        requires
            old(self).call_pre(*old(world), input),
        ensures
            old(self).call_post(*old(world), input, *final(self), *final(world), out),
    ;
}

/// Turns a function into a [`RefStepCall`]. `Params` tells the shapes of function apart.
pub trait IntoRefStep<R, In, Out, Params>: Sized {
    type Step: RefStepCall<R, In, Out = Out>;

    /// The step that the function stands for.
    spec fn resolved(self) -> Self::Step;

    fn into_ref_step(self, registry: &Registry<R>) -> (step: Self::Step)
        ensures
            step == self.resolved(),
    ;
}

/// A function that is handed the whole world and gives an `Out`.
pub struct OpaqueRefStep<F, Out> {
    pub f: F,
    pub params: PhantomData<Out>,
}

impl<R, In, Out, F: FnMut(&In) -> Out> RefStepCall<R, In> for Step<F, (), Out> {
    type Out = Out;

    open spec fn call_pre(&self, world: World<R>, input: &In) -> bool {
        call_requires(self.f, (input,))
    }

    open spec fn call_post(
        &self,
        world: World<R>,
        input: &In,
        after: Self,
        world_after: World<R>,
        out: Out,
    ) -> bool {
        &&& after == *self
        &&& world_after == world
        &&& call_ensures(self.f, (input,), out)
    }

    fn call(&mut self, world: &mut World<R>, input: &In) -> (out: Out) {
        broadcast use vstd::function::group_function_axioms;

        (self.f)(input)
    }
}

impl<R, In, Out, F: FnMut(&In) -> Out> IntoRefStep<R, In, Out, ()> for F {
    type Step = Step<F, (), Out>;

    open spec fn resolved(self) -> Step<F, (), Out> {
        Step { f: self, params: PhantomData }
    }

    fn into_ref_step(self, registry: &Registry<R>) -> (step: Step<F, (), Out>) {
        Step { f: self, params: PhantomData }
    }
}

impl<
    R,
    T,
    I,
    In,
    Out,
    F: FnMut(&T, &In) -> Out,
> RefStepCall<R, In> for Step<F, Res<T, I>, Out> where
    R: Resource<T, I>,
{
    type Out = Out;

    open spec fn call_pre(&self, world: World<R>, input: &In) -> bool {
        call_requires(self.f, (&world.held::<T, I>(), input))
    }

    open spec fn call_post(
        &self,
        world: World<R>,
        input: &In,
        after: Self,
        world_after: World<R>,
        out: Out,
    ) -> bool {
        &&& after == *self
        &&& world_after == world
        &&& call_ensures(self.f, (&world.held::<T, I>(), input), out)
    }

    fn call(&mut self, world: &mut World<R>, input: &In) -> (out: Out) {
        broadcast use vstd::function::group_function_axioms;

        (self.f)(world.resource::<T, I>(), input)
    }
}

impl<R, T, I, In, Out, F: FnMut(&T, &In) -> Out> IntoRefStep<R, In, Out, Res<T, I>> for F where
    R: Resource<T, I>,
{
    type Step = Step<F, Res<T, I>, Out>;

    open spec fn resolved(self) -> Step<F, Res<T, I>, Out> {
        Step { f: self, params: PhantomData }
    }

    fn into_ref_step(self, registry: &Registry<R>) -> (step: Step<F, Res<T, I>, Out>) {
        Step { f: self, params: PhantomData }
    }
}

impl<
    R,
    T,
    I,
    In,
    Out,
    F: FnMut(&mut T, &In) -> Out,
> RefStepCall<R, In> for Step<F, ResMut<T, I>, Out> where
    R: Resource<T, I>,
{
    type Out = Out;

    open spec fn call_pre(&self, world: World<R>, input: &In) -> bool {
        forall|r0: &mut T| *r0 == world.held::<T, I>()
            ==> #[trigger] call_requires(self.f, (r0, input))
    }

    open spec fn call_post(
        &self,
        world: World<R>,
        input: &In,
        after: Self,
        world_after: World<R>,
        out: Out,
    ) -> bool {
        &&& after == *self
        &&& exists|held: T|
            #[trigger] effect_mp(self.f, world.held::<T, I>(), input, held, out)
                && world_after == world.holding::<T, I>(held)
    }

    fn call(&mut self, world: &mut World<R>, input: &In) -> (out: Out) {
        broadcast use vstd::function::group_function_axioms;

        let ghost input_given = input;
        let cell: &mut T = world.resource_mut::<T, I>();
        let out = (self.f)(&mut *cell, input);
        record(
            effect_mp_fact::<T, &In, Out, F>,
            Ghost((old(self).f, old(world).held::<T, I>(), input_given, *cell, out)),
        );
        assert(effect_mp(old(self).f, old(world).held::<T, I>(), input_given, *cell, out));
        out
    }
}

impl<
    R,
    T,
    I,
    In,
    Out,
    F: FnMut(&mut T, &In) -> Out,
> IntoRefStep<R, In, Out, ResMut<T, I>> for F where
    R: Resource<T, I>,
{
    type Step = Step<F, ResMut<T, I>, Out>;

    open spec fn resolved(self) -> Step<F, ResMut<T, I>, Out> {
        Step { f: self, params: PhantomData }
    }

    fn into_ref_step(self, registry: &Registry<R>) -> (step: Step<F, ResMut<T, I>, Out>) {
        Step { f: self, params: PhantomData }
    }
}

impl<
    R,
    T,
    I,
    U,
    J,
    In,
    Out,
    F: FnMut(&T, &U, &In) -> Out,
> RefStepCall<R, In> for Step<F, (Res<T, I>, Res<U, J>), Out> where
    R: Resource<T, I> + Resource<U, J>,
{
    type Out = Out;

    open spec fn call_pre(&self, world: World<R>, input: &In) -> bool {
        call_requires(self.f, (&world.held::<T, I>(), &world.held::<U, J>(), input))
    }

    open spec fn call_post(
        &self,
        world: World<R>,
        input: &In,
        after: Self,
        world_after: World<R>,
        out: Out,
    ) -> bool {
        &&& after == *self
        &&& world_after == world
        &&& call_ensures(self.f, (&world.held::<T, I>(), &world.held::<U, J>(), input), out)
    }

    fn call(&mut self, world: &mut World<R>, input: &In) -> (out: Out) {
        broadcast use vstd::function::group_function_axioms;

        (self.f)(world.resource::<T, I>(), world.resource::<U, J>(), input)
    }
}

impl<
    R,
    T,
    I,
    U,
    J,
    In,
    Out,
    F: FnMut(&T, &U, &In) -> Out,
> IntoRefStep<R, In, Out, (Res<T, I>, Res<U, J>)> for F where
    R: Resource<T, I> + Resource<U, J>,
{
    type Step = Step<F, (Res<T, I>, Res<U, J>), Out>;

    open spec fn resolved(self) -> Step<F, (Res<T, I>, Res<U, J>), Out> {
        Step { f: self, params: PhantomData }
    }

    fn into_ref_step(self, registry: &Registry<R>) -> (step: Step<F, (Res<T, I>, Res<U, J>), Out>) {
        Step { f: self, params: PhantomData }
    }
}

impl<
    R,
    T,
    I,
    U,
    J,
    In,
    Out,
    F: FnMut(&T, &mut U, &In) -> Out,
> RefStepCall<R, In> for Step<F, (Res<T, I>, ResMut<U, J>), Out> where
    R: Apart<T, I, U, J>,
{
    type Out = Out;

    open spec fn call_pre(&self, world: World<R>, input: &In) -> bool {
        forall|r1: &mut U| *r1 == world.held::<U, J>()
            ==> #[trigger] call_requires(self.f, (&world.held::<T, I>(), r1, input))
    }

    open spec fn call_post(
        &self,
        world: World<R>,
        input: &In,
        after: Self,
        world_after: World<R>,
        out: Out,
    ) -> bool {
        &&& after == *self
        &&& exists|held: U|
            #[trigger] effect_pmp(
                self.f,
                &world.held::<T, I>(),
                world.held::<U, J>(),
                input,
                held,
                out,
            )
                && world_after == world.holding::<U, J>(held)
    }

    fn call(&mut self, world: &mut World<R>, input: &In) -> (out: Out) {
        broadcast use vstd::function::group_function_axioms;

        let ghost input_given = input;
        let (first, second): (&T, &mut U) = world.beside_mut::<T, I, U, J>();
        let out = (self.f)(first, &mut *second, input);
        record(
            effect_pmp_fact::<&T, U, &In, Out, F>,
            Ghost((
                old(self).f,
                &old(world).held::<T, I>(),
                old(world).held::<U, J>(),
                input_given,
                *second,
                out,
            )),
        );
        assert(effect_pmp(
            old(self).f,
            &old(world).held::<T, I>(),
            old(world).held::<U, J>(),
            input_given,
            *second,
            out,
        ));
        out
    }
}

impl<
    R,
    T,
    I,
    U,
    J,
    In,
    Out,
    F: FnMut(&T, &mut U, &In) -> Out,
> IntoRefStep<R, In, Out, (Res<T, I>, ResMut<U, J>)> for F where
    R: Apart<T, I, U, J>,
{
    type Step = Step<F, (Res<T, I>, ResMut<U, J>), Out>;

    open spec fn resolved(self) -> Step<F, (Res<T, I>, ResMut<U, J>), Out> {
        Step { f: self, params: PhantomData }
    }

    fn into_ref_step(
        self,
        registry: &Registry<R>,
    ) -> (step: Step<F, (Res<T, I>, ResMut<U, J>), Out>) {
        Step { f: self, params: PhantomData }
    }
}

impl<
    R,
    T,
    I,
    U,
    J,
    In,
    Out,
    F: FnMut(&mut T, &U, &In) -> Out,
> RefStepCall<R, In> for Step<F, (ResMut<T, I>, Res<U, J>), Out> where
    R: Apart<U, J, T, I>,
{
    type Out = Out;

    open spec fn call_pre(&self, world: World<R>, input: &In) -> bool {
        forall|r0: &mut T| *r0 == world.held::<T, I>()
            ==> #[trigger] call_requires(self.f, (r0, &world.held::<U, J>(), input))
    }

    open spec fn call_post(
        &self,
        world: World<R>,
        input: &In,
        after: Self,
        world_after: World<R>,
        out: Out,
    ) -> bool {
        &&& after == *self
        &&& exists|held: T|
            #[trigger] effect_mpp(
                self.f,
                world.held::<T, I>(),
                &world.held::<U, J>(),
                input,
                held,
                out,
            )
                && world_after == world.holding::<T, I>(held)
    }

    fn call(&mut self, world: &mut World<R>, input: &In) -> (out: Out) {
        broadcast use vstd::function::group_function_axioms;

        let ghost input_given = input;
        let (second, first): (&U, &mut T) = world.beside_mut::<U, J, T, I>();
        let out = (self.f)(&mut *first, second, input);
        record(
            effect_mpp_fact::<T, &U, &In, Out, F>,
            Ghost((
                old(self).f,
                old(world).held::<T, I>(),
                &old(world).held::<U, J>(),
                input_given,
                *first,
                out,
            )),
        );
        assert(effect_mpp(
            old(self).f,
            old(world).held::<T, I>(),
            &old(world).held::<U, J>(),
            input_given,
            *first,
            out,
        ));
        out
    }
}

impl<
    R,
    T,
    I,
    U,
    J,
    In,
    Out,
    F: FnMut(&mut T, &U, &In) -> Out,
> IntoRefStep<R, In, Out, (ResMut<T, I>, Res<U, J>)> for F where
    R: Apart<U, J, T, I>,
{
    type Step = Step<F, (ResMut<T, I>, Res<U, J>), Out>;

    open spec fn resolved(self) -> Step<F, (ResMut<T, I>, Res<U, J>), Out> {
        Step { f: self, params: PhantomData }
    }

    fn into_ref_step(
        self,
        registry: &Registry<R>,
    ) -> (step: Step<F, (ResMut<T, I>, Res<U, J>), Out>) {
        Step { f: self, params: PhantomData }
    }
}

impl<
    R,
    T,
    I,
    U,
    J,
    In,
    Out,
    F: FnMut(&mut T, &mut U, &In) -> Out,
> RefStepCall<R, In> for Step<F, (ResMut<T, I>, ResMut<U, J>), Out> where
    R: Apart<T, I, U, J>,
{
    type Out = Out;

    open spec fn call_pre(&self, world: World<R>, input: &In) -> bool {
        forall|r0: &mut T, r1: &mut U| *r0 == world.held::<T, I>() && *r1 == world.held::<U, J>()
            ==> #[trigger] call_requires(self.f, (r0, r1, input))
    }

    open spec fn call_post(
        &self,
        world: World<R>,
        input: &In,
        after: Self,
        world_after: World<R>,
        out: Out,
    ) -> bool {
        &&& after == *self
        &&& exists|held: T, other: U|
            #[trigger] effect_mmp(
                self.f,
                world.held::<T, I>(),
                world.held::<U, J>(),
                input,
                held,
                other,
                out,
            )
                && world_after == world.holding::<T, I>(held).holding::<U, J>(other)
    }

    fn call(&mut self, world: &mut World<R>, input: &In) -> (out: Out) {
        broadcast use vstd::function::group_function_axioms;

        let ghost input_given = input;
        let (first, second): (&mut T, &mut U) = world.both_mut::<T, I, U, J>();
        let out = (self.f)(&mut *first, &mut *second, input);
        record(
            effect_mmp_fact::<T, U, &In, Out, F>,
            Ghost((
                old(self).f,
                old(world).held::<T, I>(),
                old(world).held::<U, J>(),
                input_given,
                *first,
                *second,
                out,
            )),
        );
        assert(effect_mmp(
            old(self).f,
            old(world).held::<T, I>(),
            old(world).held::<U, J>(),
            input_given,
            *first,
            *second,
            out,
        ));
        out
    }
}

impl<
    R,
    T,
    I,
    U,
    J,
    In,
    Out,
    F: FnMut(&mut T, &mut U, &In) -> Out,
> IntoRefStep<R, In, Out, (ResMut<T, I>, ResMut<U, J>)> for F where
    R: Apart<T, I, U, J>,
{
    type Step = Step<F, (ResMut<T, I>, ResMut<U, J>), Out>;

    open spec fn resolved(self) -> Step<F, (ResMut<T, I>, ResMut<U, J>), Out> {
        Step { f: self, params: PhantomData }
    }

    fn into_ref_step(
        self,
        registry: &Registry<R>,
    ) -> (step: Step<F, (ResMut<T, I>, ResMut<U, J>), Out>) {
        Step { f: self, params: PhantomData }
    }
}

impl<R, In, Out, F: FnMut(&mut World<R>, &In) -> Out> RefStepCall<R, In> for OpaqueRefStep<F, Out> {
    type Out = Out;

    open spec fn call_pre(&self, world: World<R>, input: &In) -> bool {
        forall|r0: &mut World<R>| *r0 == world ==> #[trigger] call_requires(self.f, (r0, input))
    }

    open spec fn call_post(
        &self,
        world: World<R>,
        input: &In,
        after: Self,
        world_after: World<R>,
        out: Out,
    ) -> bool {
        &&& after == *self
        &&& effect_mp(self.f, world, input, world_after, out)
    }

    fn call(&mut self, world: &mut World<R>, input: &In) -> (out: Out) {
        broadcast use vstd::function::group_function_axioms;

        let ghost input_given = input;
        let out = (self.f)(world, input);
        record(
            effect_mp_fact::<World<R>, &In, Out, F>,
            Ghost((old(self).f, *old(world), input_given, *world, out)),
        );
        out
    }
}

impl<R, In, Out, F: FnMut(&mut World<R>, &In) -> Out> IntoRefStep<R, In, Out, Opaque> for F {
    type Step = OpaqueRefStep<F, Out>;

    open spec fn resolved(self) -> OpaqueRefStep<F, Out> {
        OpaqueRefStep { f: self, params: PhantomData }
    }

    fn into_ref_step(self, registry: &Registry<R>) -> (step: OpaqueRefStep<F, Out>) {
        OpaqueRefStep { f: self, params: PhantomData }
    }
}

impl<R, Out, F: FnMut() -> Out> RefStepCall<R, ()> for Step<NoEvent<F>, (), Out> {
    type Out = Out;

    open spec fn call_pre(&self, world: World<R>, input: &()) -> bool {
        call_requires(self.f.0, ())
    }

    open spec fn call_post(
        &self,
        world: World<R>,
        input: &(),
        after: Self,
        world_after: World<R>,
        out: Out,
    ) -> bool {
        &&& after == *self
        &&& world_after == world
        &&& call_ensures(self.f.0, (), out)
    }

    fn call(&mut self, world: &mut World<R>, input: &()) -> (out: Out) {
        broadcast use vstd::function::group_function_axioms;

        (self.f.0)()
    }
}

impl<R, Out, F: FnMut() -> Out> IntoRefStep<R, (), Out, NoEvent<F>> for F {
    type Step = Step<NoEvent<F>, (), Out>;

    open spec fn resolved(self) -> Step<NoEvent<F>, (), Out> {
        Step { f: NoEvent(self), params: PhantomData }
    }

    fn into_ref_step(self, registry: &Registry<R>) -> (step: Step<NoEvent<F>, (), Out>) {
        Step { f: NoEvent(self), params: PhantomData }
    }
}

impl<
    R,
    T,
    I,
    Out,
    F: FnMut(&T) -> Out,
> RefStepCall<R, ()> for Step<NoEvent<F>, Res<T, I>, Out> where
    R: Resource<T, I>,
{
    type Out = Out;

    open spec fn call_pre(&self, world: World<R>, input: &()) -> bool {
        call_requires(self.f.0, (&world.held::<T, I>(),))
    }

    open spec fn call_post(
        &self,
        world: World<R>,
        input: &(),
        after: Self,
        world_after: World<R>,
        out: Out,
    ) -> bool {
        &&& after == *self
        &&& world_after == world
        &&& call_ensures(self.f.0, (&world.held::<T, I>(),), out)
    }

    fn call(&mut self, world: &mut World<R>, input: &()) -> (out: Out) {
        broadcast use vstd::function::group_function_axioms;

        (self.f.0)(world.resource::<T, I>())
    }
}

impl<R, T, I, Out, F: FnMut(&T) -> Out> IntoRefStep<R, (), Out, Res<T, I>> for NoEvent<F> where
    R: Resource<T, I>,
{
    type Step = Step<NoEvent<F>, Res<T, I>, Out>;

    open spec fn resolved(self) -> Step<NoEvent<F>, Res<T, I>, Out> {
        Step { f: self, params: PhantomData }
    }

    fn into_ref_step(self, registry: &Registry<R>) -> (step: Step<NoEvent<F>, Res<T, I>, Out>) {
        Step { f: self, params: PhantomData }
    }
}

impl<
    R,
    T,
    I,
    Out,
    F: FnMut(&mut T) -> Out,
> RefStepCall<R, ()> for Step<NoEvent<F>, ResMut<T, I>, Out> where
    R: Resource<T, I>,
{
    type Out = Out;

    open spec fn call_pre(&self, world: World<R>, input: &()) -> bool {
        forall|r0: &mut T| *r0 == world.held::<T, I>() ==> #[trigger] call_requires(self.f.0, (r0,))
    }

    open spec fn call_post(
        &self,
        world: World<R>,
        input: &(),
        after: Self,
        world_after: World<R>,
        out: Out,
    ) -> bool {
        &&& after == *self
        &&& exists|held: T|
            #[trigger] effect_m(self.f.0, world.held::<T, I>(), held, out)
                && world_after == world.holding::<T, I>(held)
    }

    fn call(&mut self, world: &mut World<R>, input: &()) -> (out: Out) {
        broadcast use vstd::function::group_function_axioms;

        let cell: &mut T = world.resource_mut::<T, I>();
        let out = (self.f.0)(&mut *cell);
        record(
            effect_m_fact::<T, Out, F>,
            Ghost((old(self).f.0, old(world).held::<T, I>(), *cell, out)),
        );
        assert(effect_m(old(self).f.0, old(world).held::<T, I>(), *cell, out));
        out
    }
}

impl<
    R,
    T,
    I,
    Out,
    F: FnMut(&mut T) -> Out,
> IntoRefStep<R, (), Out, ResMut<T, I>> for NoEvent<F> where
    R: Resource<T, I>,
{
    type Step = Step<NoEvent<F>, ResMut<T, I>, Out>;

    open spec fn resolved(self) -> Step<NoEvent<F>, ResMut<T, I>, Out> {
        Step { f: self, params: PhantomData }
    }

    fn into_ref_step(self, registry: &Registry<R>) -> (step: Step<NoEvent<F>, ResMut<T, I>, Out>) {
        Step { f: self, params: PhantomData }
    }
}

impl<
    R,
    T,
    I,
    U,
    J,
    Out,
    F: FnMut(&T, &U) -> Out,
> RefStepCall<R, ()> for Step<NoEvent<F>, (Res<T, I>, Res<U, J>), Out> where
    R: Resource<T, I> + Resource<U, J>,
{
    type Out = Out;

    open spec fn call_pre(&self, world: World<R>, input: &()) -> bool {
        call_requires(self.f.0, (&world.held::<T, I>(), &world.held::<U, J>()))
    }

    open spec fn call_post(
        &self,
        world: World<R>,
        input: &(),
        after: Self,
        world_after: World<R>,
        out: Out,
    ) -> bool {
        &&& after == *self
        &&& world_after == world
        &&& call_ensures(self.f.0, (&world.held::<T, I>(), &world.held::<U, J>()), out)
    }

    fn call(&mut self, world: &mut World<R>, input: &()) -> (out: Out) {
        broadcast use vstd::function::group_function_axioms;

        (self.f.0)(world.resource::<T, I>(), world.resource::<U, J>())
    }
}

impl<
    R,
    T,
    I,
    U,
    J,
    Out,
    F: FnMut(&T, &U) -> Out,
> IntoRefStep<R, (), Out, (Res<T, I>, Res<U, J>)> for NoEvent<F> where
    R: Resource<T, I> + Resource<U, J>,
{
    type Step = Step<NoEvent<F>, (Res<T, I>, Res<U, J>), Out>;

    open spec fn resolved(self) -> Step<NoEvent<F>, (Res<T, I>, Res<U, J>), Out> {
        Step { f: self, params: PhantomData }
    }

    fn into_ref_step(
        self,
        registry: &Registry<R>,
    ) -> (step: Step<NoEvent<F>, (Res<T, I>, Res<U, J>), Out>) {
        Step { f: self, params: PhantomData }
    }
}

impl<
    R,
    T,
    I,
    U,
    J,
    Out,
    F: FnMut(&T, &mut U) -> Out,
> RefStepCall<R, ()> for Step<NoEvent<F>, (Res<T, I>, ResMut<U, J>), Out> where
    R: Apart<T, I, U, J>,
{
    type Out = Out;

    open spec fn call_pre(&self, world: World<R>, input: &()) -> bool {
        forall|r1: &mut U| *r1 == world.held::<U, J>()
            ==> #[trigger] call_requires(self.f.0, (&world.held::<T, I>(), r1))
    }

    open spec fn call_post(
        &self,
        world: World<R>,
        input: &(),
        after: Self,
        world_after: World<R>,
        out: Out,
    ) -> bool {
        &&& after == *self
        &&& exists|held: U|
            #[trigger] effect_pm(self.f.0, &world.held::<T, I>(), world.held::<U, J>(), held, out)
                && world_after == world.holding::<U, J>(held)
    }

    fn call(&mut self, world: &mut World<R>, input: &()) -> (out: Out) {
        broadcast use vstd::function::group_function_axioms;

        let (first, second): (&T, &mut U) = world.beside_mut::<T, I, U, J>();
        let out = (self.f.0)(first, &mut *second);
        record(
            effect_pm_fact::<&T, U, Out, F>,
            Ghost((
                old(self).f.0,
                &old(world).held::<T, I>(),
                old(world).held::<U, J>(),
                *second,
                out,
            )),
        );
        assert(effect_pm(
            old(self).f.0,
            &old(world).held::<T, I>(),
            old(world).held::<U, J>(),
            *second,
            out,
        ));
        out
    }
}

impl<
    R,
    T,
    I,
    U,
    J,
    Out,
    F: FnMut(&T, &mut U) -> Out,
> IntoRefStep<R, (), Out, (Res<T, I>, ResMut<U, J>)> for NoEvent<F> where
    R: Apart<T, I, U, J>,
{
    type Step = Step<NoEvent<F>, (Res<T, I>, ResMut<U, J>), Out>;

    open spec fn resolved(self) -> Step<NoEvent<F>, (Res<T, I>, ResMut<U, J>), Out> {
        Step { f: self, params: PhantomData }
    }

    fn into_ref_step(
        self,
        registry: &Registry<R>,
    ) -> (step: Step<NoEvent<F>, (Res<T, I>, ResMut<U, J>), Out>) {
        Step { f: self, params: PhantomData }
    }
}

impl<
    R,
    T,
    I,
    U,
    J,
    Out,
    F: FnMut(&mut T, &U) -> Out,
> RefStepCall<R, ()> for Step<NoEvent<F>, (ResMut<T, I>, Res<U, J>), Out> where
    R: Apart<U, J, T, I>,
{
    type Out = Out;

    open spec fn call_pre(&self, world: World<R>, input: &()) -> bool {
        forall|r0: &mut T| *r0 == world.held::<T, I>()
            ==> #[trigger] call_requires(self.f.0, (r0, &world.held::<U, J>()))
    }

    open spec fn call_post(
        &self,
        world: World<R>,
        input: &(),
        after: Self,
        world_after: World<R>,
        out: Out,
    ) -> bool {
        &&& after == *self
        &&& exists|held: T|
            #[trigger] effect_mp(self.f.0, world.held::<T, I>(), &world.held::<U, J>(), held, out)
                && world_after == world.holding::<T, I>(held)
    }

    fn call(&mut self, world: &mut World<R>, input: &()) -> (out: Out) {
        broadcast use vstd::function::group_function_axioms;

        let (second, first): (&U, &mut T) = world.beside_mut::<U, J, T, I>();
        let out = (self.f.0)(&mut *first, second);
        record(
            effect_mp_fact::<T, &U, Out, F>,
            Ghost((
                old(self).f.0,
                old(world).held::<T, I>(),
                &old(world).held::<U, J>(),
                *first,
                out,
            )),
        );
        assert(effect_mp(
            old(self).f.0,
            old(world).held::<T, I>(),
            &old(world).held::<U, J>(),
            *first,
            out,
        ));
        out
    }
}

impl<
    R,
    T,
    I,
    U,
    J,
    Out,
    F: FnMut(&mut T, &U) -> Out,
> IntoRefStep<R, (), Out, (ResMut<T, I>, Res<U, J>)> for NoEvent<F> where
    R: Apart<U, J, T, I>,
{
    type Step = Step<NoEvent<F>, (ResMut<T, I>, Res<U, J>), Out>;

    open spec fn resolved(self) -> Step<NoEvent<F>, (ResMut<T, I>, Res<U, J>), Out> {
        Step { f: self, params: PhantomData }
    }

    fn into_ref_step(
        self,
        registry: &Registry<R>,
    ) -> (step: Step<NoEvent<F>, (ResMut<T, I>, Res<U, J>), Out>) {
        Step { f: self, params: PhantomData }
    }
}

impl<
    R,
    T,
    I,
    U,
    J,
    Out,
    F: FnMut(&mut T, &mut U) -> Out,
> RefStepCall<R, ()> for Step<NoEvent<F>, (ResMut<T, I>, ResMut<U, J>), Out> where
    R: Apart<T, I, U, J>,
{
    type Out = Out;

    open spec fn call_pre(&self, world: World<R>, input: &()) -> bool {
        forall|r0: &mut T, r1: &mut U| *r0 == world.held::<T, I>() && *r1 == world.held::<U, J>()
            ==> #[trigger] call_requires(self.f.0, (r0, r1))
    }

    open spec fn call_post(
        &self,
        world: World<R>,
        input: &(),
        after: Self,
        world_after: World<R>,
        out: Out,
    ) -> bool {
        &&& after == *self
        &&& exists|held: T, other: U|
            #[trigger] effect_mm(
                self.f.0,
                world.held::<T, I>(),
                world.held::<U, J>(),
                held,
                other,
                out,
            )
                && world_after == world.holding::<T, I>(held).holding::<U, J>(other)
    }

    fn call(&mut self, world: &mut World<R>, input: &()) -> (out: Out) {
        broadcast use vstd::function::group_function_axioms;

        let (first, second): (&mut T, &mut U) = world.both_mut::<T, I, U, J>();
        let out = (self.f.0)(&mut *first, &mut *second);
        record(
            effect_mm_fact::<T, U, Out, F>,
            Ghost((
                old(self).f.0,
                old(world).held::<T, I>(),
                old(world).held::<U, J>(),
                *first,
                *second,
                out,
            )),
        );
        assert(effect_mm(
            old(self).f.0,
            old(world).held::<T, I>(),
            old(world).held::<U, J>(),
            *first,
            *second,
            out,
        ));
        out
    }
}

impl<
    R,
    T,
    I,
    U,
    J,
    Out,
    F: FnMut(&mut T, &mut U) -> Out,
> IntoRefStep<R, (), Out, (ResMut<T, I>, ResMut<U, J>)> for NoEvent<F> where
    R: Apart<T, I, U, J>,
{
    type Step = Step<NoEvent<F>, (ResMut<T, I>, ResMut<U, J>), Out>;

    open spec fn resolved(self) -> Step<NoEvent<F>, (ResMut<T, I>, ResMut<U, J>), Out> {
        Step { f: self, params: PhantomData }
    }

    fn into_ref_step(
        self,
        registry: &Registry<R>,
    ) -> (step: Step<NoEvent<F>, (ResMut<T, I>, ResMut<U, J>), Out>) {
        Step { f: self, params: PhantomData }
    }
}

/// A step without input.
pub trait ProducerCall<R>: Sized {
    /// What the step produces.
    type Out;

    /// When the step may be called.
    spec fn call_pre(&self, world: World<R>) -> bool;

    /// What a call may lead to: the step itself, the state it was handed, and its result.
    spec fn call_post(
        &self,
        world: World<R>,
        after: Self,
        world_after: World<R>,
        out: Self::Out,
    ) -> bool;

    fn call(&mut self, world: &mut World<R>) -> (out: Self::Out)
        requires
            old(self).call_pre(*old(world)),
        ensures
            old(self).call_post(*old(world), *final(self), *final(world), out),
    ;
}

/// Turns a function into a [`ProducerCall`]. `Params` tells the shapes of function apart.
pub trait IntoProducer<R, Out, Params>: Sized {
    type Step: ProducerCall<R, Out = Out>;

    /// The step that the function stands for.
    spec fn resolved(self) -> Self::Step;

    fn into_producer(self, registry: &Registry<R>) -> (step: Self::Step)
        ensures
            step == self.resolved(),
    ;
}

/// A function that is handed the whole world and gives an `Out`.
pub struct OpaqueProducer<F, Out> {
    pub f: F,
    pub params: PhantomData<Out>,
}

impl<R, Out, F: FnMut() -> Out> ProducerCall<R> for Step<F, (), Out> {
    type Out = Out;

    open spec fn call_pre(&self, world: World<R>) -> bool {
        call_requires(self.f, ())
    }

    open spec fn call_post(
        &self,
        world: World<R>,
        after: Self,
        world_after: World<R>,
        out: Out,
    ) -> bool {
        &&& after == *self
        &&& world_after == world
        &&& call_ensures(self.f, (), out)
    }

    fn call(&mut self, world: &mut World<R>) -> (out: Out) {
        broadcast use vstd::function::group_function_axioms;

        (self.f)()
    }
}

impl<R, Out, F: FnMut() -> Out> IntoProducer<R, Out, ()> for F {
    type Step = Step<F, (), Out>;

    open spec fn resolved(self) -> Step<F, (), Out> {
        Step { f: self, params: PhantomData }
    }

    fn into_producer(self, registry: &Registry<R>) -> (step: Step<F, (), Out>) {
        Step { f: self, params: PhantomData }
    }
}

impl<R, T, I, Out, F: FnMut(&T) -> Out> ProducerCall<R> for Step<F, Res<T, I>, Out> where
    R: Resource<T, I>,
{
    type Out = Out;

    open spec fn call_pre(&self, world: World<R>) -> bool {
        call_requires(self.f, (&world.held::<T, I>(),))
    }

    open spec fn call_post(
        &self,
        world: World<R>,
        after: Self,
        world_after: World<R>,
        out: Out,
    ) -> bool {
        &&& after == *self
        &&& world_after == world
        &&& call_ensures(self.f, (&world.held::<T, I>(),), out)
    }

    fn call(&mut self, world: &mut World<R>) -> (out: Out) {
        broadcast use vstd::function::group_function_axioms;

        (self.f)(world.resource::<T, I>())
    }
}

impl<R, T, I, Out, F: FnMut(&T) -> Out> IntoProducer<R, Out, Res<T, I>> for F where
    R: Resource<T, I>,
{
    type Step = Step<F, Res<T, I>, Out>;

    open spec fn resolved(self) -> Step<F, Res<T, I>, Out> {
        Step { f: self, params: PhantomData }
    }

    fn into_producer(self, registry: &Registry<R>) -> (step: Step<F, Res<T, I>, Out>) {
        Step { f: self, params: PhantomData }
    }
}

impl<R, T, I, Out, F: FnMut(&mut T) -> Out> ProducerCall<R> for Step<F, ResMut<T, I>, Out> where
    R: Resource<T, I>,
{
    type Out = Out;

    open spec fn call_pre(&self, world: World<R>) -> bool {
        forall|r0: &mut T| *r0 == world.held::<T, I>() ==> #[trigger] call_requires(self.f, (r0,))
    }

    open spec fn call_post(
        &self,
        world: World<R>,
        after: Self,
        world_after: World<R>,
        out: Out,
    ) -> bool {
        &&& after == *self
        &&& exists|held: T|
            #[trigger] effect_m(self.f, world.held::<T, I>(), held, out)
                && world_after == world.holding::<T, I>(held)
    }

    fn call(&mut self, world: &mut World<R>) -> (out: Out) {
        broadcast use vstd::function::group_function_axioms;

        let cell: &mut T = world.resource_mut::<T, I>();
        let out = (self.f)(&mut *cell);
        record(
            effect_m_fact::<T, Out, F>,
            Ghost((old(self).f, old(world).held::<T, I>(), *cell, out)),
        );
        assert(effect_m(old(self).f, old(world).held::<T, I>(), *cell, out));
        out
    }
}

impl<R, T, I, Out, F: FnMut(&mut T) -> Out> IntoProducer<R, Out, ResMut<T, I>> for F where
    R: Resource<T, I>,
{
    type Step = Step<F, ResMut<T, I>, Out>;

    open spec fn resolved(self) -> Step<F, ResMut<T, I>, Out> {
        Step { f: self, params: PhantomData }
    }

    fn into_producer(self, registry: &Registry<R>) -> (step: Step<F, ResMut<T, I>, Out>) {
        Step { f: self, params: PhantomData }
    }
}

impl<
    R,
    T,
    I,
    U,
    J,
    Out,
    F: FnMut(&T, &U) -> Out,
> ProducerCall<R> for Step<F, (Res<T, I>, Res<U, J>), Out> where
    R: Resource<T, I> + Resource<U, J>,
{
    type Out = Out;

    open spec fn call_pre(&self, world: World<R>) -> bool {
        call_requires(self.f, (&world.held::<T, I>(), &world.held::<U, J>()))
    }

    open spec fn call_post(
        &self,
        world: World<R>,
        after: Self,
        world_after: World<R>,
        out: Out,
    ) -> bool {
        &&& after == *self
        &&& world_after == world
        &&& call_ensures(self.f, (&world.held::<T, I>(), &world.held::<U, J>()), out)
    }

    fn call(&mut self, world: &mut World<R>) -> (out: Out) {
        broadcast use vstd::function::group_function_axioms;

        (self.f)(world.resource::<T, I>(), world.resource::<U, J>())
    }
}

impl<
    R,
    T,
    I,
    U,
    J,
    Out,
    F: FnMut(&T, &U) -> Out,
> IntoProducer<R, Out, (Res<T, I>, Res<U, J>)> for F where
    R: Resource<T, I> + Resource<U, J>,
{
    type Step = Step<F, (Res<T, I>, Res<U, J>), Out>;

    open spec fn resolved(self) -> Step<F, (Res<T, I>, Res<U, J>), Out> {
        Step { f: self, params: PhantomData }
    }

    fn into_producer(self, registry: &Registry<R>) -> (step: Step<F, (Res<T, I>, Res<U, J>), Out>) {
        Step { f: self, params: PhantomData }
    }
}

impl<
    R,
    T,
    I,
    U,
    J,
    Out,
    F: FnMut(&T, &mut U) -> Out,
> ProducerCall<R> for Step<F, (Res<T, I>, ResMut<U, J>), Out> where
    R: Apart<T, I, U, J>,
{
    type Out = Out;

    open spec fn call_pre(&self, world: World<R>) -> bool {
        forall|r1: &mut U| *r1 == world.held::<U, J>()
            ==> #[trigger] call_requires(self.f, (&world.held::<T, I>(), r1))
    }

    open spec fn call_post(
        &self,
        world: World<R>,
        after: Self,
        world_after: World<R>,
        out: Out,
    ) -> bool {
        &&& after == *self
        &&& exists|held: U|
            #[trigger] effect_pm(self.f, &world.held::<T, I>(), world.held::<U, J>(), held, out)
                && world_after == world.holding::<U, J>(held)
    }

    fn call(&mut self, world: &mut World<R>) -> (out: Out) {
        broadcast use vstd::function::group_function_axioms;

        let (first, second): (&T, &mut U) = world.beside_mut::<T, I, U, J>();
        let out = (self.f)(first, &mut *second);
        record(
            effect_pm_fact::<&T, U, Out, F>,
            Ghost((
                old(self).f,
                &old(world).held::<T, I>(),
                old(world).held::<U, J>(),
                *second,
                out,
            )),
        );
        assert(effect_pm(
            old(self).f,
            &old(world).held::<T, I>(),
            old(world).held::<U, J>(),
            *second,
            out,
        ));
        out
    }
}

impl<
    R,
    T,
    I,
    U,
    J,
    Out,
    F: FnMut(&T, &mut U) -> Out,
> IntoProducer<R, Out, (Res<T, I>, ResMut<U, J>)> for F where
    R: Apart<T, I, U, J>,
{
    type Step = Step<F, (Res<T, I>, ResMut<U, J>), Out>;

    open spec fn resolved(self) -> Step<F, (Res<T, I>, ResMut<U, J>), Out> {
        Step { f: self, params: PhantomData }
    }

    fn into_producer(
        self,
        registry: &Registry<R>,
    ) -> (step: Step<F, (Res<T, I>, ResMut<U, J>), Out>) {
        Step { f: self, params: PhantomData }
    }
}

impl<
    R,
    T,
    I,
    U,
    J,
    Out,
    F: FnMut(&mut T, &U) -> Out,
> ProducerCall<R> for Step<F, (ResMut<T, I>, Res<U, J>), Out> where
    R: Apart<U, J, T, I>,
{
    type Out = Out;

    open spec fn call_pre(&self, world: World<R>) -> bool {
        forall|r0: &mut T| *r0 == world.held::<T, I>()
            ==> #[trigger] call_requires(self.f, (r0, &world.held::<U, J>()))
    }

    open spec fn call_post(
        &self,
        world: World<R>,
        after: Self,
        world_after: World<R>,
        out: Out,
    ) -> bool {
        &&& after == *self
        &&& exists|held: T|
            #[trigger] effect_mp(self.f, world.held::<T, I>(), &world.held::<U, J>(), held, out)
                && world_after == world.holding::<T, I>(held)
    }

    fn call(&mut self, world: &mut World<R>) -> (out: Out) {
        broadcast use vstd::function::group_function_axioms;

        let (second, first): (&U, &mut T) = world.beside_mut::<U, J, T, I>();
        let out = (self.f)(&mut *first, second);
        record(
            effect_mp_fact::<T, &U, Out, F>,
            Ghost((
                old(self).f,
                old(world).held::<T, I>(),
                &old(world).held::<U, J>(),
                *first,
                out,
            )),
        );
        assert(effect_mp(
            old(self).f,
            old(world).held::<T, I>(),
            &old(world).held::<U, J>(),
            *first,
            out,
        ));
        out
    }
}

impl<
    R,
    T,
    I,
    U,
    J,
    Out,
    F: FnMut(&mut T, &U) -> Out,
> IntoProducer<R, Out, (ResMut<T, I>, Res<U, J>)> for F where
    R: Apart<U, J, T, I>,
{
    type Step = Step<F, (ResMut<T, I>, Res<U, J>), Out>;

    open spec fn resolved(self) -> Step<F, (ResMut<T, I>, Res<U, J>), Out> {
        Step { f: self, params: PhantomData }
    }

    fn into_producer(
        self,
        registry: &Registry<R>,
    ) -> (step: Step<F, (ResMut<T, I>, Res<U, J>), Out>) {
        Step { f: self, params: PhantomData }
    }
}

impl<
    R,
    T,
    I,
    U,
    J,
    Out,
    F: FnMut(&mut T, &mut U) -> Out,
> ProducerCall<R> for Step<F, (ResMut<T, I>, ResMut<U, J>), Out> where
    R: Apart<T, I, U, J>,
{
    type Out = Out;

    open spec fn call_pre(&self, world: World<R>) -> bool {
        forall|r0: &mut T, r1: &mut U| *r0 == world.held::<T, I>() && *r1 == world.held::<U, J>()
            ==> #[trigger] call_requires(self.f, (r0, r1))
    }

    open spec fn call_post(
        &self,
        world: World<R>,
        after: Self,
        world_after: World<R>,
        out: Out,
    ) -> bool {
        &&& after == *self
        &&& exists|held: T, other: U|
            #[trigger] effect_mm(
                self.f,
                world.held::<T, I>(),
                world.held::<U, J>(),
                held,
                other,
                out,
            )
                && world_after == world.holding::<T, I>(held).holding::<U, J>(other)
    }

    fn call(&mut self, world: &mut World<R>) -> (out: Out) {
        broadcast use vstd::function::group_function_axioms;

        let (first, second): (&mut T, &mut U) = world.both_mut::<T, I, U, J>();
        let out = (self.f)(&mut *first, &mut *second);
        record(
            effect_mm_fact::<T, U, Out, F>,
            Ghost((
                old(self).f,
                old(world).held::<T, I>(),
                old(world).held::<U, J>(),
                *first,
                *second,
                out,
            )),
        );
        assert(effect_mm(
            old(self).f,
            old(world).held::<T, I>(),
            old(world).held::<U, J>(),
            *first,
            *second,
            out,
        ));
        out
    }
}

impl<
    R,
    T,
    I,
    U,
    J,
    Out,
    F: FnMut(&mut T, &mut U) -> Out,
> IntoProducer<R, Out, (ResMut<T, I>, ResMut<U, J>)> for F where
    R: Apart<T, I, U, J>,
{
    type Step = Step<F, (ResMut<T, I>, ResMut<U, J>), Out>;

    open spec fn resolved(self) -> Step<F, (ResMut<T, I>, ResMut<U, J>), Out> {
        Step { f: self, params: PhantomData }
    }

    fn into_producer(
        self,
        registry: &Registry<R>,
    ) -> (step: Step<F, (ResMut<T, I>, ResMut<U, J>), Out>) {
        Step { f: self, params: PhantomData }
    }
}

impl<R, Out, F: FnMut(&mut World<R>) -> Out> ProducerCall<R> for OpaqueProducer<F, Out> {
    type Out = Out;

    open spec fn call_pre(&self, world: World<R>) -> bool {
        forall|r0: &mut World<R>| *r0 == world ==> #[trigger] call_requires(self.f, (r0,))
    }

    open spec fn call_post(
        &self,
        world: World<R>,
        after: Self,
        world_after: World<R>,
        out: Out,
    ) -> bool {
        &&& after == *self
        &&& effect_m(self.f, world, world_after, out)
    }

    fn call(&mut self, world: &mut World<R>) -> (out: Out) {
        broadcast use vstd::function::group_function_axioms;

        let out = (self.f)(world);
        record(
            effect_m_fact::<World<R>, Out, F>,
            Ghost((old(self).f, *old(world), *world, out)),
        );
        out
    }
}

impl<R, Out, F: FnMut(&mut World<R>) -> Out> IntoProducer<R, Out, Opaque> for F {
    type Step = OpaqueProducer<F, Out>;

    open spec fn resolved(self) -> OpaqueProducer<F, Out> {
        OpaqueProducer { f: self, params: PhantomData }
    }

    fn into_producer(self, registry: &Registry<R>) -> (step: OpaqueProducer<F, Out>) {
        OpaqueProducer { f: self, params: PhantomData }
    }
}

/// A step with an accumulator that persists from one call to the next.
pub trait ScanStepCall<R, Acc, In>: Sized {
    /// What the step produces.
    type Out;

    /// When the step may be called.
    spec fn call_pre(&self, world: World<R>, acc: Acc, input: In) -> bool;

    /// What a call may lead to: the step itself, the state it was handed, and its result.
    spec fn call_post(
        &self,
        world: World<R>,
        acc: Acc,
        input: In,
        after: Self,
        world_after: World<R>,
        acc_after: Acc,
        out: Self::Out,
    ) -> bool;

    fn call(&mut self, world: &mut World<R>, acc: &mut Acc, input: In) -> (out: Self::Out)
        requires
            old(self).call_pre(*old(world), *old(acc), input),
        ensures
            old(self).call_post(
                *old(world),
                *old(acc),
                input,
                *final(self),
                *final(world),
                *final(acc),
                out,
            ),
    ;
}

/// Turns a function into a [`ScanStepCall`]. `Params` tells the shapes of function apart.
pub trait IntoScanStep<R, Acc, In, Out, Params>: Sized {
    type Step: ScanStepCall<R, Acc, In, Out = Out>;

    /// The step that the function stands for.
    spec fn resolved(self) -> Self::Step;

    fn into_scan_step(self, registry: &Registry<R>) -> (step: Self::Step)
        ensures
            step == self.resolved(),
    ;
}

/// A function that is handed the whole world and gives an `Out`.
pub struct OpaqueScanStep<F, Out> {
    pub f: F,
    pub params: PhantomData<Out>,
}

impl<R, Acc, In, Out, F: FnMut(&mut Acc, In) -> Out> ScanStepCall<R, Acc, In> for Step<F, (), Out> {
    type Out = Out;

    open spec fn call_pre(&self, world: World<R>, acc: Acc, input: In) -> bool {
        forall|r0: &mut Acc| *r0 == acc ==> #[trigger] call_requires(self.f, (r0, input))
    }

    open spec fn call_post(
        &self,
        world: World<R>,
        acc: Acc,
        input: In,
        after: Self,
        world_after: World<R>,
        acc_after: Acc,
        out: Out,
    ) -> bool {
        &&& after == *self
        &&& world_after == world
        &&& effect_mp(self.f, acc, input, acc_after, out)
    }

    fn call(&mut self, world: &mut World<R>, acc: &mut Acc, input: In) -> (out: Out) {
        broadcast use vstd::function::group_function_axioms;

        let ghost input_given = input;
        let out = (self.f)(acc, input);
        record(
            effect_mp_fact::<Acc, In, Out, F>,
            Ghost((old(self).f, *old(acc), input_given, *acc, out)),
        );
        out
    }
}

impl<R, Acc, In, Out, F: FnMut(&mut Acc, In) -> Out> IntoScanStep<R, Acc, In, Out, ()> for F {
    type Step = Step<F, (), Out>;

    open spec fn resolved(self) -> Step<F, (), Out> {
        Step { f: self, params: PhantomData }
    }

    fn into_scan_step(self, registry: &Registry<R>) -> (step: Step<F, (), Out>) {
        Step { f: self, params: PhantomData }
    }
}

impl<
    R,
    T,
    I,
    Acc,
    In,
    Out,
    F: FnMut(&T, &mut Acc, In) -> Out,
> ScanStepCall<R, Acc, In> for Step<F, Res<T, I>, Out> where
    R: Resource<T, I>,
{
    type Out = Out;

    open spec fn call_pre(&self, world: World<R>, acc: Acc, input: In) -> bool {
        forall|r1: &mut Acc| *r1 == acc
            ==> #[trigger] call_requires(self.f, (&world.held::<T, I>(), r1, input))
    }

    open spec fn call_post(
        &self,
        world: World<R>,
        acc: Acc,
        input: In,
        after: Self,
        world_after: World<R>,
        acc_after: Acc,
        out: Out,
    ) -> bool {
        &&& after == *self
        &&& world_after == world
        &&& effect_pmp(self.f, &world.held::<T, I>(), acc, input, acc_after, out)
    }

    fn call(&mut self, world: &mut World<R>, acc: &mut Acc, input: In) -> (out: Out) {
        broadcast use vstd::function::group_function_axioms;

        let ghost input_given = input;
        let out = (self.f)(world.resource::<T, I>(), acc, input);
        record(
            effect_pmp_fact::<&T, Acc, In, Out, F>,
            Ghost((old(self).f, &old(world).held::<T, I>(), *old(acc), input_given, *acc, out)),
        );
        out
    }
}

impl<
    R,
    T,
    I,
    Acc,
    In,
    Out,
    F: FnMut(&T, &mut Acc, In) -> Out,
> IntoScanStep<R, Acc, In, Out, Res<T, I>> for F where
    R: Resource<T, I>,
{
    type Step = Step<F, Res<T, I>, Out>;

    open spec fn resolved(self) -> Step<F, Res<T, I>, Out> {
        Step { f: self, params: PhantomData }
    }

    fn into_scan_step(self, registry: &Registry<R>) -> (step: Step<F, Res<T, I>, Out>) {
        Step { f: self, params: PhantomData }
    }
}

impl<
    R,
    T,
    I,
    Acc,
    In,
    Out,
    F: FnMut(&mut T, &mut Acc, In) -> Out,
> ScanStepCall<R, Acc, In> for Step<F, ResMut<T, I>, Out> where
    R: Resource<T, I>,
{
    type Out = Out;

    open spec fn call_pre(&self, world: World<R>, acc: Acc, input: In) -> bool {
        forall|r0: &mut T, r1: &mut Acc| *r0 == world.held::<T, I>() && *r1 == acc
            ==> #[trigger] call_requires(self.f, (r0, r1, input))
    }

    open spec fn call_post(
        &self,
        world: World<R>,
        acc: Acc,
        input: In,
        after: Self,
        world_after: World<R>,
        acc_after: Acc,
        out: Out,
    ) -> bool {
        &&& after == *self
        &&& exists|held: T|
            #[trigger] effect_mmp(self.f, world.held::<T, I>(), acc, input, held, acc_after, out)
                && world_after == world.holding::<T, I>(held)
    }

    fn call(&mut self, world: &mut World<R>, acc: &mut Acc, input: In) -> (out: Out) {
        broadcast use vstd::function::group_function_axioms;

        let ghost input_given = input;
        let cell: &mut T = world.resource_mut::<T, I>();
        let out = (self.f)(&mut *cell, acc, input);
        record(
            effect_mmp_fact::<T, Acc, In, Out, F>,
            Ghost((
                old(self).f,
                old(world).held::<T, I>(),
                *old(acc),
                input_given,
                *cell,
                *acc,
                out,
            )),
        );
        assert(effect_mmp(
            old(self).f,
            old(world).held::<T, I>(),
            *old(acc),
            input_given,
            *cell,
            *acc,
            out,
        ));
        out
    }
}

impl<
    R,
    T,
    I,
    Acc,
    In,
    Out,
    F: FnMut(&mut T, &mut Acc, In) -> Out,
> IntoScanStep<R, Acc, In, Out, ResMut<T, I>> for F where
    R: Resource<T, I>,
{
    type Step = Step<F, ResMut<T, I>, Out>;

    open spec fn resolved(self) -> Step<F, ResMut<T, I>, Out> {
        Step { f: self, params: PhantomData }
    }

    fn into_scan_step(self, registry: &Registry<R>) -> (step: Step<F, ResMut<T, I>, Out>) {
        Step { f: self, params: PhantomData }
    }
}

impl<
    R,
    T,
    I,
    U,
    J,
    Acc,
    In,
    Out,
    F: FnMut(&T, &U, &mut Acc, In) -> Out,
> ScanStepCall<R, Acc, In> for Step<F, (Res<T, I>, Res<U, J>), Out> where
    R: Resource<T, I> + Resource<U, J>,
{
    type Out = Out;

    open spec fn call_pre(&self, world: World<R>, acc: Acc, input: In) -> bool {
        forall|r2: &mut Acc| *r2 == acc
            ==> #[trigger] call_requires(
                self.f,
                (&world.held::<T, I>(), &world.held::<U, J>(), r2, input),
            )
    }

    open spec fn call_post(
        &self,
        world: World<R>,
        acc: Acc,
        input: In,
        after: Self,
        world_after: World<R>,
        acc_after: Acc,
        out: Out,
    ) -> bool {
        &&& after == *self
        &&& world_after == world
        &&& effect_ppmp(
            self.f,
            &world.held::<T, I>(),
            &world.held::<U, J>(),
            acc,
            input,
            acc_after,
            out,
        )
    }

    fn call(&mut self, world: &mut World<R>, acc: &mut Acc, input: In) -> (out: Out) {
        broadcast use vstd::function::group_function_axioms;

        let ghost input_given = input;
        let out = (self.f)(world.resource::<T, I>(), world.resource::<U, J>(), acc, input);
        record(
            effect_ppmp_fact::<&T, &U, Acc, In, Out, F>,
            Ghost((
                old(self).f,
                &old(world).held::<T, I>(),
                &old(world).held::<U, J>(),
                *old(acc),
                input_given,
                *acc,
                out,
            )),
        );
        out
    }
}

impl<
    R,
    T,
    I,
    U,
    J,
    Acc,
    In,
    Out,
    F: FnMut(&T, &U, &mut Acc, In) -> Out,
> IntoScanStep<R, Acc, In, Out, (Res<T, I>, Res<U, J>)> for F where
    R: Resource<T, I> + Resource<U, J>,
{
    type Step = Step<F, (Res<T, I>, Res<U, J>), Out>;

    open spec fn resolved(self) -> Step<F, (Res<T, I>, Res<U, J>), Out> {
        Step { f: self, params: PhantomData }
    }

    fn into_scan_step(
        self,
        registry: &Registry<R>,
    ) -> (step: Step<F, (Res<T, I>, Res<U, J>), Out>) {
        Step { f: self, params: PhantomData }
    }
}

impl<
    R,
    T,
    I,
    U,
    J,
    Acc,
    In,
    Out,
    F: FnMut(&T, &mut U, &mut Acc, In) -> Out,
> ScanStepCall<R, Acc, In> for Step<F, (Res<T, I>, ResMut<U, J>), Out> where
    R: Apart<T, I, U, J>,
{
    type Out = Out;

    open spec fn call_pre(&self, world: World<R>, acc: Acc, input: In) -> bool {
        forall|r1: &mut U, r2: &mut Acc| *r1 == world.held::<U, J>() && *r2 == acc
            ==> #[trigger] call_requires(self.f, (&world.held::<T, I>(), r1, r2, input))
    }

    open spec fn call_post(
        &self,
        world: World<R>,
        acc: Acc,
        input: In,
        after: Self,
        world_after: World<R>,
        acc_after: Acc,
        out: Out,
    ) -> bool {
        &&& after == *self
        &&& exists|held: U|
            #[trigger] effect_pmmp(
                self.f,
                &world.held::<T, I>(),
                world.held::<U, J>(),
                acc,
                input,
                held,
                acc_after,
                out,
            )
                && world_after == world.holding::<U, J>(held)
    }

    fn call(&mut self, world: &mut World<R>, acc: &mut Acc, input: In) -> (out: Out) {
        broadcast use vstd::function::group_function_axioms;

        let ghost input_given = input;
        let (first, second): (&T, &mut U) = world.beside_mut::<T, I, U, J>();
        let out = (self.f)(first, &mut *second, acc, input);
        record(
            effect_pmmp_fact::<&T, U, Acc, In, Out, F>,
            Ghost((
                old(self).f,
                &old(world).held::<T, I>(),
                old(world).held::<U, J>(),
                *old(acc),
                input_given,
                *second,
                *acc,
                out,
            )),
        );
        assert(effect_pmmp(
            old(self).f,
            &old(world).held::<T, I>(),
            old(world).held::<U, J>(),
            *old(acc),
            input_given,
            *second,
            *acc,
            out,
        ));
        out
    }
}

impl<
    R,
    T,
    I,
    U,
    J,
    Acc,
    In,
    Out,
    F: FnMut(&T, &mut U, &mut Acc, In) -> Out,
> IntoScanStep<R, Acc, In, Out, (Res<T, I>, ResMut<U, J>)> for F where
    R: Apart<T, I, U, J>,
{
    type Step = Step<F, (Res<T, I>, ResMut<U, J>), Out>;

    open spec fn resolved(self) -> Step<F, (Res<T, I>, ResMut<U, J>), Out> {
        Step { f: self, params: PhantomData }
    }

    fn into_scan_step(
        self,
        registry: &Registry<R>,
    ) -> (step: Step<F, (Res<T, I>, ResMut<U, J>), Out>) {
        Step { f: self, params: PhantomData }
    }
}

impl<
    R,
    T,
    I,
    U,
    J,
    Acc,
    In,
    Out,
    F: FnMut(&mut T, &U, &mut Acc, In) -> Out,
> ScanStepCall<R, Acc, In> for Step<F, (ResMut<T, I>, Res<U, J>), Out> where
    R: Apart<U, J, T, I>,
{
    type Out = Out;

    open spec fn call_pre(&self, world: World<R>, acc: Acc, input: In) -> bool {
        forall|r0: &mut T, r2: &mut Acc| *r0 == world.held::<T, I>() && *r2 == acc
            ==> #[trigger] call_requires(self.f, (r0, &world.held::<U, J>(), r2, input))
    }

    open spec fn call_post(
        &self,
        world: World<R>,
        acc: Acc,
        input: In,
        after: Self,
        world_after: World<R>,
        acc_after: Acc,
        out: Out,
    ) -> bool {
        &&& after == *self
        &&& exists|held: T|
            #[trigger] effect_mpmp(
                self.f,
                world.held::<T, I>(),
                &world.held::<U, J>(),
                acc,
                input,
                held,
                acc_after,
                out,
            )
                && world_after == world.holding::<T, I>(held)
    }

    fn call(&mut self, world: &mut World<R>, acc: &mut Acc, input: In) -> (out: Out) {
        broadcast use vstd::function::group_function_axioms;

        let ghost input_given = input;
        let (second, first): (&U, &mut T) = world.beside_mut::<U, J, T, I>();
        let out = (self.f)(&mut *first, second, acc, input);
        record(
            effect_mpmp_fact::<T, &U, Acc, In, Out, F>,
            Ghost((
                old(self).f,
                old(world).held::<T, I>(),
                &old(world).held::<U, J>(),
                *old(acc),
                input_given,
                *first,
                *acc,
                out,
            )),
        );
        assert(effect_mpmp(
            old(self).f,
            old(world).held::<T, I>(),
            &old(world).held::<U, J>(),
            *old(acc),
            input_given,
            *first,
            *acc,
            out,
        ));
        out
    }
}

impl<
    R,
    T,
    I,
    U,
    J,
    Acc,
    In,
    Out,
    F: FnMut(&mut T, &U, &mut Acc, In) -> Out,
> IntoScanStep<R, Acc, In, Out, (ResMut<T, I>, Res<U, J>)> for F where
    R: Apart<U, J, T, I>,
{
    type Step = Step<F, (ResMut<T, I>, Res<U, J>), Out>;

    open spec fn resolved(self) -> Step<F, (ResMut<T, I>, Res<U, J>), Out> {
        Step { f: self, params: PhantomData }
    }

    fn into_scan_step(
        self,
        registry: &Registry<R>,
    ) -> (step: Step<F, (ResMut<T, I>, Res<U, J>), Out>) {
        Step { f: self, params: PhantomData }
    }
}

impl<
    R,
    T,
    I,
    U,
    J,
    Acc,
    In,
    Out,
    F: FnMut(&mut T, &mut U, &mut Acc, In) -> Out,
> ScanStepCall<R, Acc, In> for Step<F, (ResMut<T, I>, ResMut<U, J>), Out> where
    R: Apart<T, I, U, J>,
{
    type Out = Out;

    open spec fn call_pre(&self, world: World<R>, acc: Acc, input: In) -> bool {
        forall|r0: &mut T, r1: &mut U, r2: &mut Acc| *r0 == world.held::<T, I>()
            && *r1 == world.held::<U, J>()
            && *r2 == acc
            ==> #[trigger] call_requires(self.f, (r0, r1, r2, input))
    }

    open spec fn call_post(
        &self,
        world: World<R>,
        acc: Acc,
        input: In,
        after: Self,
        world_after: World<R>,
        acc_after: Acc,
        out: Out,
    ) -> bool {
        &&& after == *self
        &&& exists|held: T, other: U|
            #[trigger] effect_mmmp(
                self.f,
                world.held::<T, I>(),
                world.held::<U, J>(),
                acc,
                input,
                held,
                other,
                acc_after,
                out,
            )
                && world_after == world.holding::<T, I>(held).holding::<U, J>(other)
    }

    fn call(&mut self, world: &mut World<R>, acc: &mut Acc, input: In) -> (out: Out) {
        broadcast use vstd::function::group_function_axioms;

        let ghost input_given = input;
        let (first, second): (&mut T, &mut U) = world.both_mut::<T, I, U, J>();
        let out = (self.f)(&mut *first, &mut *second, acc, input);
        record(
            effect_mmmp_fact::<T, U, Acc, In, Out, F>,
            Ghost((
                old(self).f,
                old(world).held::<T, I>(),
                old(world).held::<U, J>(),
                *old(acc),
                input_given,
                *first,
                *second,
                *acc,
                out,
            )),
        );
        assert(effect_mmmp(
            old(self).f,
            old(world).held::<T, I>(),
            old(world).held::<U, J>(),
            *old(acc),
            input_given,
            *first,
            *second,
            *acc,
            out,
        ));
        out
    }
}

impl<
    R,
    T,
    I,
    U,
    J,
    Acc,
    In,
    Out,
    F: FnMut(&mut T, &mut U, &mut Acc, In) -> Out,
> IntoScanStep<R, Acc, In, Out, (ResMut<T, I>, ResMut<U, J>)> for F where
    R: Apart<T, I, U, J>,
{
    type Step = Step<F, (ResMut<T, I>, ResMut<U, J>), Out>;

    open spec fn resolved(self) -> Step<F, (ResMut<T, I>, ResMut<U, J>), Out> {
        Step { f: self, params: PhantomData }
    }

    fn into_scan_step(
        self,
        registry: &Registry<R>,
    ) -> (step: Step<F, (ResMut<T, I>, ResMut<U, J>), Out>) {
        Step { f: self, params: PhantomData }
    }
}

impl<
    R,
    Acc,
    In,
    Out,
    F: FnMut(&mut World<R>, &mut Acc, In) -> Out,
> ScanStepCall<R, Acc, In> for OpaqueScanStep<F, Out> {
    type Out = Out;

    open spec fn call_pre(&self, world: World<R>, acc: Acc, input: In) -> bool {
        forall|r0: &mut World<R>, r1: &mut Acc| *r0 == world && *r1 == acc
            ==> #[trigger] call_requires(self.f, (r0, r1, input))
    }

    open spec fn call_post(
        &self,
        world: World<R>,
        acc: Acc,
        input: In,
        after: Self,
        world_after: World<R>,
        acc_after: Acc,
        out: Out,
    ) -> bool {
        &&& after == *self
        &&& effect_mmp(self.f, world, acc, input, world_after, acc_after, out)
    }

    fn call(&mut self, world: &mut World<R>, acc: &mut Acc, input: In) -> (out: Out) {
        broadcast use vstd::function::group_function_axioms;

        let ghost input_given = input;
        let out = (self.f)(world, acc, input);
        record(
            effect_mmp_fact::<World<R>, Acc, In, Out, F>,
            Ghost((old(self).f, *old(world), *old(acc), input_given, *world, *acc, out)),
        );
        out
    }
}

impl<
    R,
    Acc,
    In,
    Out,
    F: FnMut(&mut World<R>, &mut Acc, In) -> Out,
> IntoScanStep<R, Acc, In, Out, Opaque> for F {
    type Step = OpaqueScanStep<F, Out>;

    open spec fn resolved(self) -> OpaqueScanStep<F, Out> {
        OpaqueScanStep { f: self, params: PhantomData }
    }

    fn into_scan_step(self, registry: &Registry<R>) -> (step: OpaqueScanStep<F, Out>) {
        OpaqueScanStep { f: self, params: PhantomData }
    }
}

impl<
    R,
    Acc,
    Out,
    F: FnMut(&mut Acc) -> Out,
> ScanStepCall<R, Acc, ()> for Step<NoEvent<F>, (), Out> {
    type Out = Out;

    open spec fn call_pre(&self, world: World<R>, acc: Acc, input: ()) -> bool {
        forall|r0: &mut Acc| *r0 == acc ==> #[trigger] call_requires(self.f.0, (r0,))
    }

    open spec fn call_post(
        &self,
        world: World<R>,
        acc: Acc,
        input: (),
        after: Self,
        world_after: World<R>,
        acc_after: Acc,
        out: Out,
    ) -> bool {
        &&& after == *self
        &&& world_after == world
        &&& effect_m(self.f.0, acc, acc_after, out)
    }

    fn call(&mut self, world: &mut World<R>, acc: &mut Acc, input: ()) -> (out: Out) {
        broadcast use vstd::function::group_function_axioms;

        let out = (self.f.0)(acc);
        record(
            effect_m_fact::<Acc, Out, F>,
            Ghost((old(self).f.0, *old(acc), *acc, out)),
        );
        out
    }
}

impl<R, Acc, Out, F: FnMut(&mut Acc) -> Out> IntoScanStep<R, Acc, (), Out, NoEvent<F>> for F {
    type Step = Step<NoEvent<F>, (), Out>;

    open spec fn resolved(self) -> Step<NoEvent<F>, (), Out> {
        Step { f: NoEvent(self), params: PhantomData }
    }

    fn into_scan_step(self, registry: &Registry<R>) -> (step: Step<NoEvent<F>, (), Out>) {
        Step { f: NoEvent(self), params: PhantomData }
    }
}

impl<
    R,
    T,
    I,
    Acc,
    Out,
    F: FnMut(&T, &mut Acc) -> Out,
> ScanStepCall<R, Acc, ()> for Step<NoEvent<F>, Res<T, I>, Out> where
    R: Resource<T, I>,
{
    type Out = Out;

    open spec fn call_pre(&self, world: World<R>, acc: Acc, input: ()) -> bool {
        forall|r1: &mut Acc| *r1 == acc
            ==> #[trigger] call_requires(self.f.0, (&world.held::<T, I>(), r1))
    }

    open spec fn call_post(
        &self,
        world: World<R>,
        acc: Acc,
        input: (),
        after: Self,
        world_after: World<R>,
        acc_after: Acc,
        out: Out,
    ) -> bool {
        &&& after == *self
        &&& world_after == world
        &&& effect_pm(self.f.0, &world.held::<T, I>(), acc, acc_after, out)
    }

    fn call(&mut self, world: &mut World<R>, acc: &mut Acc, input: ()) -> (out: Out) {
        broadcast use vstd::function::group_function_axioms;

        let out = (self.f.0)(world.resource::<T, I>(), acc);
        record(
            effect_pm_fact::<&T, Acc, Out, F>,
            Ghost((old(self).f.0, &old(world).held::<T, I>(), *old(acc), *acc, out)),
        );
        out
    }
}

impl<
    R,
    T,
    I,
    Acc,
    Out,
    F: FnMut(&T, &mut Acc) -> Out,
> IntoScanStep<R, Acc, (), Out, Res<T, I>> for NoEvent<F> where
    R: Resource<T, I>,
{
    type Step = Step<NoEvent<F>, Res<T, I>, Out>;

    open spec fn resolved(self) -> Step<NoEvent<F>, Res<T, I>, Out> {
        Step { f: self, params: PhantomData }
    }

    fn into_scan_step(self, registry: &Registry<R>) -> (step: Step<NoEvent<F>, Res<T, I>, Out>) {
        Step { f: self, params: PhantomData }
    }
}

impl<
    R,
    T,
    I,
    Acc,
    Out,
    F: FnMut(&mut T, &mut Acc) -> Out,
> ScanStepCall<R, Acc, ()> for Step<NoEvent<F>, ResMut<T, I>, Out> where
    R: Resource<T, I>,
{
    type Out = Out;

    open spec fn call_pre(&self, world: World<R>, acc: Acc, input: ()) -> bool {
        forall|r0: &mut T, r1: &mut Acc| *r0 == world.held::<T, I>() && *r1 == acc
            ==> #[trigger] call_requires(self.f.0, (r0, r1))
    }

    open spec fn call_post(
        &self,
        world: World<R>,
        acc: Acc,
        input: (),
        after: Self,
        world_after: World<R>,
        acc_after: Acc,
        out: Out,
    ) -> bool {
        &&& after == *self
        &&& exists|held: T|
            #[trigger] effect_mm(self.f.0, world.held::<T, I>(), acc, held, acc_after, out)
                && world_after == world.holding::<T, I>(held)
    }

    fn call(&mut self, world: &mut World<R>, acc: &mut Acc, input: ()) -> (out: Out) {
        broadcast use vstd::function::group_function_axioms;

        let cell: &mut T = world.resource_mut::<T, I>();
        let out = (self.f.0)(&mut *cell, acc);
        record(
            effect_mm_fact::<T, Acc, Out, F>,
            Ghost((old(self).f.0, old(world).held::<T, I>(), *old(acc), *cell, *acc, out)),
        );
        assert(effect_mm(old(self).f.0, old(world).held::<T, I>(), *old(acc), *cell, *acc, out));
        out
    }
}

impl<
    R,
    T,
    I,
    Acc,
    Out,
    F: FnMut(&mut T, &mut Acc) -> Out,
> IntoScanStep<R, Acc, (), Out, ResMut<T, I>> for NoEvent<F> where
    R: Resource<T, I>,
{
    type Step = Step<NoEvent<F>, ResMut<T, I>, Out>;

    open spec fn resolved(self) -> Step<NoEvent<F>, ResMut<T, I>, Out> {
        Step { f: self, params: PhantomData }
    }

    fn into_scan_step(self, registry: &Registry<R>) -> (step: Step<NoEvent<F>, ResMut<T, I>, Out>) {
        Step { f: self, params: PhantomData }
    }
}

impl<
    R,
    T,
    I,
    U,
    J,
    Acc,
    Out,
    F: FnMut(&T, &U, &mut Acc) -> Out,
> ScanStepCall<R, Acc, ()> for Step<NoEvent<F>, (Res<T, I>, Res<U, J>), Out> where
    R: Resource<T, I> + Resource<U, J>,
{
    type Out = Out;

    open spec fn call_pre(&self, world: World<R>, acc: Acc, input: ()) -> bool {
        forall|r2: &mut Acc| *r2 == acc
            ==> #[trigger] call_requires(
                self.f.0,
                (&world.held::<T, I>(), &world.held::<U, J>(), r2),
            )
    }

    open spec fn call_post(
        &self,
        world: World<R>,
        acc: Acc,
        input: (),
        after: Self,
        world_after: World<R>,
        acc_after: Acc,
        out: Out,
    ) -> bool {
        &&& after == *self
        &&& world_after == world
        &&& effect_ppm(self.f.0, &world.held::<T, I>(), &world.held::<U, J>(), acc, acc_after, out)
    }

    fn call(&mut self, world: &mut World<R>, acc: &mut Acc, input: ()) -> (out: Out) {
        broadcast use vstd::function::group_function_axioms;

        let out = (self.f.0)(world.resource::<T, I>(), world.resource::<U, J>(), acc);
        record(
            effect_ppm_fact::<&T, &U, Acc, Out, F>,
            Ghost((
                old(self).f.0,
                &old(world).held::<T, I>(),
                &old(world).held::<U, J>(),
                *old(acc),
                *acc,
                out,
            )),
        );
        out
    }
}

impl<
    R,
    T,
    I,
    U,
    J,
    Acc,
    Out,
    F: FnMut(&T, &U, &mut Acc) -> Out,
> IntoScanStep<R, Acc, (), Out, (Res<T, I>, Res<U, J>)> for NoEvent<F> where
    R: Resource<T, I> + Resource<U, J>,
{
    type Step = Step<NoEvent<F>, (Res<T, I>, Res<U, J>), Out>;

    open spec fn resolved(self) -> Step<NoEvent<F>, (Res<T, I>, Res<U, J>), Out> {
        Step { f: self, params: PhantomData }
    }

    fn into_scan_step(
        self,
        registry: &Registry<R>,
    ) -> (step: Step<NoEvent<F>, (Res<T, I>, Res<U, J>), Out>) {
        Step { f: self, params: PhantomData }
    }
}

impl<
    R,
    T,
    I,
    U,
    J,
    Acc,
    Out,
    F: FnMut(&T, &mut U, &mut Acc) -> Out,
> ScanStepCall<R, Acc, ()> for Step<NoEvent<F>, (Res<T, I>, ResMut<U, J>), Out> where
    R: Apart<T, I, U, J>,
{
    type Out = Out;

    open spec fn call_pre(&self, world: World<R>, acc: Acc, input: ()) -> bool {
        forall|r1: &mut U, r2: &mut Acc| *r1 == world.held::<U, J>() && *r2 == acc
            ==> #[trigger] call_requires(self.f.0, (&world.held::<T, I>(), r1, r2))
    }

    open spec fn call_post(
        &self,
        world: World<R>,
        acc: Acc,
        input: (),
        after: Self,
        world_after: World<R>,
        acc_after: Acc,
        out: Out,
    ) -> bool {
        &&& after == *self
        &&& exists|held: U|
            #[trigger] effect_pmm(
                self.f.0,
                &world.held::<T, I>(),
                world.held::<U, J>(),
                acc,
                held,
                acc_after,
                out,
            )
                && world_after == world.holding::<U, J>(held)
    }

    fn call(&mut self, world: &mut World<R>, acc: &mut Acc, input: ()) -> (out: Out) {
        broadcast use vstd::function::group_function_axioms;

        let (first, second): (&T, &mut U) = world.beside_mut::<T, I, U, J>();
        let out = (self.f.0)(first, &mut *second, acc);
        record(
            effect_pmm_fact::<&T, U, Acc, Out, F>,
            Ghost((
                old(self).f.0,
                &old(world).held::<T, I>(),
                old(world).held::<U, J>(),
                *old(acc),
                *second,
                *acc,
                out,
            )),
        );
        assert(effect_pmm(
            old(self).f.0,
            &old(world).held::<T, I>(),
            old(world).held::<U, J>(),
            *old(acc),
            *second,
            *acc,
            out,
        ));
        out
    }
}

impl<
    R,
    T,
    I,
    U,
    J,
    Acc,
    Out,
    F: FnMut(&T, &mut U, &mut Acc) -> Out,
> IntoScanStep<R, Acc, (), Out, (Res<T, I>, ResMut<U, J>)> for NoEvent<F> where
    R: Apart<T, I, U, J>,
{
    type Step = Step<NoEvent<F>, (Res<T, I>, ResMut<U, J>), Out>;

    open spec fn resolved(self) -> Step<NoEvent<F>, (Res<T, I>, ResMut<U, J>), Out> {
        Step { f: self, params: PhantomData }
    }

    fn into_scan_step(
        self,
        registry: &Registry<R>,
    ) -> (step: Step<NoEvent<F>, (Res<T, I>, ResMut<U, J>), Out>) {
        Step { f: self, params: PhantomData }
    }
}

impl<
    R,
    T,
    I,
    U,
    J,
    Acc,
    Out,
    F: FnMut(&mut T, &U, &mut Acc) -> Out,
> ScanStepCall<R, Acc, ()> for Step<NoEvent<F>, (ResMut<T, I>, Res<U, J>), Out> where
    R: Apart<U, J, T, I>,
{
    type Out = Out;

    open spec fn call_pre(&self, world: World<R>, acc: Acc, input: ()) -> bool {
        forall|r0: &mut T, r2: &mut Acc| *r0 == world.held::<T, I>() && *r2 == acc
            ==> #[trigger] call_requires(self.f.0, (r0, &world.held::<U, J>(), r2))
    }

    open spec fn call_post(
        &self,
        world: World<R>,
        acc: Acc,
        input: (),
        after: Self,
        world_after: World<R>,
        acc_after: Acc,
        out: Out,
    ) -> bool {
        &&& after == *self
        &&& exists|held: T|
            #[trigger] effect_mpm(
                self.f.0,
                world.held::<T, I>(),
                &world.held::<U, J>(),
                acc,
                held,
                acc_after,
                out,
            )
                && world_after == world.holding::<T, I>(held)
    }

    fn call(&mut self, world: &mut World<R>, acc: &mut Acc, input: ()) -> (out: Out) {
        broadcast use vstd::function::group_function_axioms;

        let (second, first): (&U, &mut T) = world.beside_mut::<U, J, T, I>();
        let out = (self.f.0)(&mut *first, second, acc);
        record(
            effect_mpm_fact::<T, &U, Acc, Out, F>,
            Ghost((
                old(self).f.0,
                old(world).held::<T, I>(),
                &old(world).held::<U, J>(),
                *old(acc),
                *first,
                *acc,
                out,
            )),
        );
        assert(effect_mpm(
            old(self).f.0,
            old(world).held::<T, I>(),
            &old(world).held::<U, J>(),
            *old(acc),
            *first,
            *acc,
            out,
        ));
        out
    }
}

impl<
    R,
    T,
    I,
    U,
    J,
    Acc,
    Out,
    F: FnMut(&mut T, &U, &mut Acc) -> Out,
> IntoScanStep<R, Acc, (), Out, (ResMut<T, I>, Res<U, J>)> for NoEvent<F> where
    R: Apart<U, J, T, I>,
{
    type Step = Step<NoEvent<F>, (ResMut<T, I>, Res<U, J>), Out>;

    open spec fn resolved(self) -> Step<NoEvent<F>, (ResMut<T, I>, Res<U, J>), Out> {
        Step { f: self, params: PhantomData }
    }

    fn into_scan_step(
        self,
        registry: &Registry<R>,
    ) -> (step: Step<NoEvent<F>, (ResMut<T, I>, Res<U, J>), Out>) {
        Step { f: self, params: PhantomData }
    }
}

impl<
    R,
    T,
    I,
    U,
    J,
    Acc,
    Out,
    F: FnMut(&mut T, &mut U, &mut Acc) -> Out,
> ScanStepCall<R, Acc, ()> for Step<NoEvent<F>, (ResMut<T, I>, ResMut<U, J>), Out> where
    R: Apart<T, I, U, J>,
{
    type Out = Out;

    open spec fn call_pre(&self, world: World<R>, acc: Acc, input: ()) -> bool {
        forall|r0: &mut T, r1: &mut U, r2: &mut Acc| *r0 == world.held::<T, I>()
            && *r1 == world.held::<U, J>()
            && *r2 == acc
            ==> #[trigger] call_requires(self.f.0, (r0, r1, r2))
    }

    open spec fn call_post(
        &self,
        world: World<R>,
        acc: Acc,
        input: (),
        after: Self,
        world_after: World<R>,
        acc_after: Acc,
        out: Out,
    ) -> bool {
        &&& after == *self
        &&& exists|held: T, other: U|
            #[trigger] effect_mmm(
                self.f.0,
                world.held::<T, I>(),
                world.held::<U, J>(),
                acc,
                held,
                other,
                acc_after,
                out,
            )
                && world_after == world.holding::<T, I>(held).holding::<U, J>(other)
    }

    fn call(&mut self, world: &mut World<R>, acc: &mut Acc, input: ()) -> (out: Out) {
        broadcast use vstd::function::group_function_axioms;

        let (first, second): (&mut T, &mut U) = world.both_mut::<T, I, U, J>();
        let out = (self.f.0)(&mut *first, &mut *second, acc);
        record(
            effect_mmm_fact::<T, U, Acc, Out, F>,
            Ghost((
                old(self).f.0,
                old(world).held::<T, I>(),
                old(world).held::<U, J>(),
                *old(acc),
                *first,
                *second,
                *acc,
                out,
            )),
        );
        assert(effect_mmm(
            old(self).f.0,
            old(world).held::<T, I>(),
            old(world).held::<U, J>(),
            *old(acc),
            *first,
            *second,
            *acc,
            out,
        ));
        out
    }
}

impl<
    R,
    T,
    I,
    U,
    J,
    Acc,
    Out,
    F: FnMut(&mut T, &mut U, &mut Acc) -> Out,
> IntoScanStep<R, Acc, (), Out, (ResMut<T, I>, ResMut<U, J>)> for NoEvent<F> where
    R: Apart<T, I, U, J>,
{
    type Step = Step<NoEvent<F>, (ResMut<T, I>, ResMut<U, J>), Out>;

    open spec fn resolved(self) -> Step<NoEvent<F>, (ResMut<T, I>, ResMut<U, J>), Out> {
        Step { f: self, params: PhantomData }
    }

    fn into_scan_step(
        self,
        registry: &Registry<R>,
    ) -> (step: Step<NoEvent<F>, (ResMut<T, I>, ResMut<U, J>), Out>) {
        Step { f: self, params: PhantomData }
    }
}

/// A step with an accumulator that looks at its input and leaves it where it is.
pub trait RefScanStepCall<R, Acc, In>: Sized {
    /// What the step produces.
    type Out;

    /// When the step may be called.
    spec fn call_pre(&self, world: World<R>, acc: Acc, input: &In) -> bool;

    /// What a call may lead to: the step itself, the state it was handed, and its result.
    spec fn call_post(
        &self,
        world: World<R>,
        acc: Acc,
        input: &In,
        after: Self,
        world_after: World<R>,
        acc_after: Acc,
        out: Self::Out,
    ) -> bool;

    fn call(&mut self, world: &mut World<R>, acc: &mut Acc, input: &In) -> (out: Self::Out)
        requires
            old(self).call_pre(*old(world), *old(acc), input),
        ensures
            old(self).call_post(
                *old(world),
                *old(acc),
                input,
                *final(self),
                *final(world),
                *final(acc),
                out,
            ),
    ;
}

/// Turns a function into a [`RefScanStepCall`]. `Params` tells the shapes of function apart.
pub trait IntoRefScanStep<R, Acc, In, Out, Params>: Sized {
    type Step: RefScanStepCall<R, Acc, In, Out = Out>;

    /// The step that the function stands for.
    spec fn resolved(self) -> Self::Step;

    fn into_ref_scan_step(self, registry: &Registry<R>) -> (step: Self::Step)
        ensures
            step == self.resolved(),
    ;
}

/// A function that is handed the whole world and gives an `Out`.
pub struct OpaqueRefScanStep<F, Out> {
    pub f: F,
    pub params: PhantomData<Out>,
}

impl<
    R,
    Acc,
    In,
    Out,
    F: FnMut(&mut Acc, &In) -> Out,
> RefScanStepCall<R, Acc, In> for Step<F, (), Out> {
    type Out = Out;

    open spec fn call_pre(&self, world: World<R>, acc: Acc, input: &In) -> bool {
        forall|r0: &mut Acc| *r0 == acc ==> #[trigger] call_requires(self.f, (r0, input))
    }

    open spec fn call_post(
        &self,
        world: World<R>,
        acc: Acc,
        input: &In,
        after: Self,
        world_after: World<R>,
        acc_after: Acc,
        out: Out,
    ) -> bool {
        &&& after == *self
        &&& world_after == world
        &&& effect_mp(self.f, acc, input, acc_after, out)
    }

    fn call(&mut self, world: &mut World<R>, acc: &mut Acc, input: &In) -> (out: Out) {
        broadcast use vstd::function::group_function_axioms;

        let ghost input_given = input;
        let out = (self.f)(acc, input);
        record(
            effect_mp_fact::<Acc, &In, Out, F>,
            Ghost((old(self).f, *old(acc), input_given, *acc, out)),
        );
        out
    }
}

impl<R, Acc, In, Out, F: FnMut(&mut Acc, &In) -> Out> IntoRefScanStep<R, Acc, In, Out, ()> for F {
    type Step = Step<F, (), Out>;

    open spec fn resolved(self) -> Step<F, (), Out> {
        Step { f: self, params: PhantomData }
    }

    fn into_ref_scan_step(self, registry: &Registry<R>) -> (step: Step<F, (), Out>) {
        Step { f: self, params: PhantomData }
    }
}

impl<
    R,
    T,
    I,
    Acc,
    In,
    Out,
    F: FnMut(&T, &mut Acc, &In) -> Out,
> RefScanStepCall<R, Acc, In> for Step<F, Res<T, I>, Out> where
    R: Resource<T, I>,
{
    type Out = Out;

    open spec fn call_pre(&self, world: World<R>, acc: Acc, input: &In) -> bool {
        forall|r1: &mut Acc| *r1 == acc
            ==> #[trigger] call_requires(self.f, (&world.held::<T, I>(), r1, input))
    }

    open spec fn call_post(
        &self,
        world: World<R>,
        acc: Acc,
        input: &In,
        after: Self,
        world_after: World<R>,
        acc_after: Acc,
        out: Out,
    ) -> bool {
        &&& after == *self
        &&& world_after == world
        &&& effect_pmp(self.f, &world.held::<T, I>(), acc, input, acc_after, out)
    }

    fn call(&mut self, world: &mut World<R>, acc: &mut Acc, input: &In) -> (out: Out) {
        broadcast use vstd::function::group_function_axioms;

        let ghost input_given = input;
        let out = (self.f)(world.resource::<T, I>(), acc, input);
        record(
            effect_pmp_fact::<&T, Acc, &In, Out, F>,
            Ghost((old(self).f, &old(world).held::<T, I>(), *old(acc), input_given, *acc, out)),
        );
        out
    }
}

impl<
    R,
    T,
    I,
    Acc,
    In,
    Out,
    F: FnMut(&T, &mut Acc, &In) -> Out,
> IntoRefScanStep<R, Acc, In, Out, Res<T, I>> for F where
    R: Resource<T, I>,
{
    type Step = Step<F, Res<T, I>, Out>;

    open spec fn resolved(self) -> Step<F, Res<T, I>, Out> {
        Step { f: self, params: PhantomData }
    }

    fn into_ref_scan_step(self, registry: &Registry<R>) -> (step: Step<F, Res<T, I>, Out>) {
        Step { f: self, params: PhantomData }
    }
}

impl<
    R,
    T,
    I,
    Acc,
    In,
    Out,
    F: FnMut(&mut T, &mut Acc, &In) -> Out,
> RefScanStepCall<R, Acc, In> for Step<F, ResMut<T, I>, Out> where
    R: Resource<T, I>,
{
    type Out = Out;

    open spec fn call_pre(&self, world: World<R>, acc: Acc, input: &In) -> bool {
        forall|r0: &mut T, r1: &mut Acc| *r0 == world.held::<T, I>() && *r1 == acc
            ==> #[trigger] call_requires(self.f, (r0, r1, input))
    }

    open spec fn call_post(
        &self,
        world: World<R>,
        acc: Acc,
        input: &In,
        after: Self,
        world_after: World<R>,
        acc_after: Acc,
        out: Out,
    ) -> bool {
        &&& after == *self
        &&& exists|held: T|
            #[trigger] effect_mmp(self.f, world.held::<T, I>(), acc, input, held, acc_after, out)
                && world_after == world.holding::<T, I>(held)
    }

    fn call(&mut self, world: &mut World<R>, acc: &mut Acc, input: &In) -> (out: Out) {
        broadcast use vstd::function::group_function_axioms;

        let ghost input_given = input;
        let cell: &mut T = world.resource_mut::<T, I>();
        let out = (self.f)(&mut *cell, acc, input);
        record(
            effect_mmp_fact::<T, Acc, &In, Out, F>,
            Ghost((
                old(self).f,
                old(world).held::<T, I>(),
                *old(acc),
                input_given,
                *cell,
                *acc,
                out,
            )),
        );
        assert(effect_mmp(
            old(self).f,
            old(world).held::<T, I>(),
            *old(acc),
            input_given,
            *cell,
            *acc,
            out,
        ));
        out
    }
}

impl<
    R,
    T,
    I,
    Acc,
    In,
    Out,
    F: FnMut(&mut T, &mut Acc, &In) -> Out,
> IntoRefScanStep<R, Acc, In, Out, ResMut<T, I>> for F where
    R: Resource<T, I>,
{
    type Step = Step<F, ResMut<T, I>, Out>;

    open spec fn resolved(self) -> Step<F, ResMut<T, I>, Out> {
        Step { f: self, params: PhantomData }
    }

    fn into_ref_scan_step(self, registry: &Registry<R>) -> (step: Step<F, ResMut<T, I>, Out>) {
        Step { f: self, params: PhantomData }
    }
}

impl<
    R,
    T,
    I,
    U,
    J,
    Acc,
    In,
    Out,
    F: FnMut(&T, &U, &mut Acc, &In) -> Out,
> RefScanStepCall<R, Acc, In> for Step<F, (Res<T, I>, Res<U, J>), Out> where
    R: Resource<T, I> + Resource<U, J>,
{
    type Out = Out;

    open spec fn call_pre(&self, world: World<R>, acc: Acc, input: &In) -> bool {
        forall|r2: &mut Acc| *r2 == acc
            ==> #[trigger] call_requires(
                self.f,
                (&world.held::<T, I>(), &world.held::<U, J>(), r2, input),
            )
    }

    open spec fn call_post(
        &self,
        world: World<R>,
        acc: Acc,
        input: &In,
        after: Self,
        world_after: World<R>,
        acc_after: Acc,
        out: Out,
    ) -> bool {
        &&& after == *self
        &&& world_after == world
        &&& effect_ppmp(
            self.f,
            &world.held::<T, I>(),
            &world.held::<U, J>(),
            acc,
            input,
            acc_after,
            out,
        )
    }

    fn call(&mut self, world: &mut World<R>, acc: &mut Acc, input: &In) -> (out: Out) {
        broadcast use vstd::function::group_function_axioms;

        let ghost input_given = input;
        let out = (self.f)(world.resource::<T, I>(), world.resource::<U, J>(), acc, input);
        record(
            effect_ppmp_fact::<&T, &U, Acc, &In, Out, F>,
            Ghost((
                old(self).f,
                &old(world).held::<T, I>(),
                &old(world).held::<U, J>(),
                *old(acc),
                input_given,
                *acc,
                out,
            )),
        );
        out
    }
}

impl<
    R,
    T,
    I,
    U,
    J,
    Acc,
    In,
    Out,
    F: FnMut(&T, &U, &mut Acc, &In) -> Out,
> IntoRefScanStep<R, Acc, In, Out, (Res<T, I>, Res<U, J>)> for F where
    R: Resource<T, I> + Resource<U, J>,
{
    type Step = Step<F, (Res<T, I>, Res<U, J>), Out>;

    open spec fn resolved(self) -> Step<F, (Res<T, I>, Res<U, J>), Out> {
        Step { f: self, params: PhantomData }
    }

    fn into_ref_scan_step(
        self,
        registry: &Registry<R>,
    ) -> (step: Step<F, (Res<T, I>, Res<U, J>), Out>) {
        Step { f: self, params: PhantomData }
    }
}

impl<
    R,
    T,
    I,
    U,
    J,
    Acc,
    In,
    Out,
    F: FnMut(&T, &mut U, &mut Acc, &In) -> Out,
> RefScanStepCall<R, Acc, In> for Step<F, (Res<T, I>, ResMut<U, J>), Out> where
    R: Apart<T, I, U, J>,
{
    type Out = Out;

    open spec fn call_pre(&self, world: World<R>, acc: Acc, input: &In) -> bool {
        forall|r1: &mut U, r2: &mut Acc| *r1 == world.held::<U, J>() && *r2 == acc
            ==> #[trigger] call_requires(self.f, (&world.held::<T, I>(), r1, r2, input))
    }

    open spec fn call_post(
        &self,
        world: World<R>,
        acc: Acc,
        input: &In,
        after: Self,
        world_after: World<R>,
        acc_after: Acc,
        out: Out,
    ) -> bool {
        &&& after == *self
        &&& exists|held: U|
            #[trigger] effect_pmmp(
                self.f,
                &world.held::<T, I>(),
                world.held::<U, J>(),
                acc,
                input,
                held,
                acc_after,
                out,
            )
                && world_after == world.holding::<U, J>(held)
    }

    fn call(&mut self, world: &mut World<R>, acc: &mut Acc, input: &In) -> (out: Out) {
        broadcast use vstd::function::group_function_axioms;

        let ghost input_given = input;
        let (first, second): (&T, &mut U) = world.beside_mut::<T, I, U, J>();
        let out = (self.f)(first, &mut *second, acc, input);
        record(
            effect_pmmp_fact::<&T, U, Acc, &In, Out, F>,
            Ghost((
                old(self).f,
                &old(world).held::<T, I>(),
                old(world).held::<U, J>(),
                *old(acc),
                input_given,
                *second,
                *acc,
                out,
            )),
        );
        assert(effect_pmmp(
            old(self).f,
            &old(world).held::<T, I>(),
            old(world).held::<U, J>(),
            *old(acc),
            input_given,
            *second,
            *acc,
            out,
        ));
        out
    }
}

impl<
    R,
    T,
    I,
    U,
    J,
    Acc,
    In,
    Out,
    F: FnMut(&T, &mut U, &mut Acc, &In) -> Out,
> IntoRefScanStep<R, Acc, In, Out, (Res<T, I>, ResMut<U, J>)> for F where
    R: Apart<T, I, U, J>,
{
    type Step = Step<F, (Res<T, I>, ResMut<U, J>), Out>;

    open spec fn resolved(self) -> Step<F, (Res<T, I>, ResMut<U, J>), Out> {
        Step { f: self, params: PhantomData }
    }

    fn into_ref_scan_step(
        self,
        registry: &Registry<R>,
    ) -> (step: Step<F, (Res<T, I>, ResMut<U, J>), Out>) {
        Step { f: self, params: PhantomData }
    }
}

impl<
    R,
    T,
    I,
    U,
    J,
    Acc,
    In,
    Out,
    F: FnMut(&mut T, &U, &mut Acc, &In) -> Out,
> RefScanStepCall<R, Acc, In> for Step<F, (ResMut<T, I>, Res<U, J>), Out> where
    R: Apart<U, J, T, I>,
{
    type Out = Out;

    open spec fn call_pre(&self, world: World<R>, acc: Acc, input: &In) -> bool {
        forall|r0: &mut T, r2: &mut Acc| *r0 == world.held::<T, I>() && *r2 == acc
            ==> #[trigger] call_requires(self.f, (r0, &world.held::<U, J>(), r2, input))
    }

    open spec fn call_post(
        &self,
        world: World<R>,
        acc: Acc,
        input: &In,
        after: Self,
        world_after: World<R>,
        acc_after: Acc,
        out: Out,
    ) -> bool {
        &&& after == *self
        &&& exists|held: T|
            #[trigger] effect_mpmp(
                self.f,
                world.held::<T, I>(),
                &world.held::<U, J>(),
                acc,
                input,
                held,
                acc_after,
                out,
            )
                && world_after == world.holding::<T, I>(held)
    }

    fn call(&mut self, world: &mut World<R>, acc: &mut Acc, input: &In) -> (out: Out) {
        broadcast use vstd::function::group_function_axioms;

        let ghost input_given = input;
        let (second, first): (&U, &mut T) = world.beside_mut::<U, J, T, I>();
        let out = (self.f)(&mut *first, second, acc, input);
        record(
            effect_mpmp_fact::<T, &U, Acc, &In, Out, F>,
            Ghost((
                old(self).f,
                old(world).held::<T, I>(),
                &old(world).held::<U, J>(),
                *old(acc),
                input_given,
                *first,
                *acc,
                out,
            )),
        );
        assert(effect_mpmp(
            old(self).f,
            old(world).held::<T, I>(),
            &old(world).held::<U, J>(),
            *old(acc),
            input_given,
            *first,
            *acc,
            out,
        ));
        out
    }
}

impl<
    R,
    T,
    I,
    U,
    J,
    Acc,
    In,
    Out,
    F: FnMut(&mut T, &U, &mut Acc, &In) -> Out,
> IntoRefScanStep<R, Acc, In, Out, (ResMut<T, I>, Res<U, J>)> for F where
    R: Apart<U, J, T, I>,
{
    type Step = Step<F, (ResMut<T, I>, Res<U, J>), Out>;

    open spec fn resolved(self) -> Step<F, (ResMut<T, I>, Res<U, J>), Out> {
        Step { f: self, params: PhantomData }
    }

    fn into_ref_scan_step(
        self,
        registry: &Registry<R>,
    ) -> (step: Step<F, (ResMut<T, I>, Res<U, J>), Out>) {
        Step { f: self, params: PhantomData }
    }
}

impl<
    R,
    T,
    I,
    U,
    J,
    Acc,
    In,
    Out,
    F: FnMut(&mut T, &mut U, &mut Acc, &In) -> Out,
> RefScanStepCall<R, Acc, In> for Step<F, (ResMut<T, I>, ResMut<U, J>), Out> where
    R: Apart<T, I, U, J>,
{
    type Out = Out;

    open spec fn call_pre(&self, world: World<R>, acc: Acc, input: &In) -> bool {
        forall|r0: &mut T, r1: &mut U, r2: &mut Acc| *r0 == world.held::<T, I>()
            && *r1 == world.held::<U, J>()
            && *r2 == acc
            ==> #[trigger] call_requires(self.f, (r0, r1, r2, input))
    }

    open spec fn call_post(
        &self,
        world: World<R>,
        acc: Acc,
        input: &In,
        after: Self,
        world_after: World<R>,
        acc_after: Acc,
        out: Out,
    ) -> bool {
        &&& after == *self
        &&& exists|held: T, other: U|
            #[trigger] effect_mmmp(
                self.f,
                world.held::<T, I>(),
                world.held::<U, J>(),
                acc,
                input,
                held,
                other,
                acc_after,
                out,
            )
                && world_after == world.holding::<T, I>(held).holding::<U, J>(other)
    }

    fn call(&mut self, world: &mut World<R>, acc: &mut Acc, input: &In) -> (out: Out) {
        broadcast use vstd::function::group_function_axioms;

        let ghost input_given = input;
        let (first, second): (&mut T, &mut U) = world.both_mut::<T, I, U, J>();
        let out = (self.f)(&mut *first, &mut *second, acc, input);
        record(
            effect_mmmp_fact::<T, U, Acc, &In, Out, F>,
            Ghost((
                old(self).f,
                old(world).held::<T, I>(),
                old(world).held::<U, J>(),
                *old(acc),
                input_given,
                *first,
                *second,
                *acc,
                out,
            )),
        );
        assert(effect_mmmp(
            old(self).f,
            old(world).held::<T, I>(),
            old(world).held::<U, J>(),
            *old(acc),
            input_given,
            *first,
            *second,
            *acc,
            out,
        ));
        out
    }
}

impl<
    R,
    T,
    I,
    U,
    J,
    Acc,
    In,
    Out,
    F: FnMut(&mut T, &mut U, &mut Acc, &In) -> Out,
> IntoRefScanStep<R, Acc, In, Out, (ResMut<T, I>, ResMut<U, J>)> for F where
    R: Apart<T, I, U, J>,
{
    type Step = Step<F, (ResMut<T, I>, ResMut<U, J>), Out>;

    open spec fn resolved(self) -> Step<F, (ResMut<T, I>, ResMut<U, J>), Out> {
        Step { f: self, params: PhantomData }
    }

    fn into_ref_scan_step(
        self,
        registry: &Registry<R>,
    ) -> (step: Step<F, (ResMut<T, I>, ResMut<U, J>), Out>) {
        Step { f: self, params: PhantomData }
    }
}

impl<
    R,
    Acc,
    In,
    Out,
    F: FnMut(&mut World<R>, &mut Acc, &In) -> Out,
> RefScanStepCall<R, Acc, In> for OpaqueRefScanStep<F, Out> {
    type Out = Out;

    open spec fn call_pre(&self, world: World<R>, acc: Acc, input: &In) -> bool {
        forall|r0: &mut World<R>, r1: &mut Acc| *r0 == world && *r1 == acc
            ==> #[trigger] call_requires(self.f, (r0, r1, input))
    }

    open spec fn call_post(
        &self,
        world: World<R>,
        acc: Acc,
        input: &In,
        after: Self,
        world_after: World<R>,
        acc_after: Acc,
        out: Out,
    ) -> bool {
        &&& after == *self
        &&& effect_mmp(self.f, world, acc, input, world_after, acc_after, out)
    }

    fn call(&mut self, world: &mut World<R>, acc: &mut Acc, input: &In) -> (out: Out) {
        broadcast use vstd::function::group_function_axioms;

        let ghost input_given = input;
        let out = (self.f)(world, acc, input);
        record(
            effect_mmp_fact::<World<R>, Acc, &In, Out, F>,
            Ghost((old(self).f, *old(world), *old(acc), input_given, *world, *acc, out)),
        );
        out
    }
}

impl<
    R,
    Acc,
    In,
    Out,
    F: FnMut(&mut World<R>, &mut Acc, &In) -> Out,
> IntoRefScanStep<R, Acc, In, Out, Opaque> for F {
    type Step = OpaqueRefScanStep<F, Out>;

    open spec fn resolved(self) -> OpaqueRefScanStep<F, Out> {
        OpaqueRefScanStep { f: self, params: PhantomData }
    }

    fn into_ref_scan_step(self, registry: &Registry<R>) -> (step: OpaqueRefScanStep<F, Out>) {
        OpaqueRefScanStep { f: self, params: PhantomData }
    }
}

impl<
    R,
    Acc,
    Out,
    F: FnMut(&mut Acc) -> Out,
> RefScanStepCall<R, Acc, ()> for Step<NoEvent<F>, (), Out> {
    type Out = Out;

    open spec fn call_pre(&self, world: World<R>, acc: Acc, input: &()) -> bool {
        forall|r0: &mut Acc| *r0 == acc ==> #[trigger] call_requires(self.f.0, (r0,))
    }

    open spec fn call_post(
        &self,
        world: World<R>,
        acc: Acc,
        input: &(),
        after: Self,
        world_after: World<R>,
        acc_after: Acc,
        out: Out,
    ) -> bool {
        &&& after == *self
        &&& world_after == world
        &&& effect_m(self.f.0, acc, acc_after, out)
    }

    fn call(&mut self, world: &mut World<R>, acc: &mut Acc, input: &()) -> (out: Out) {
        broadcast use vstd::function::group_function_axioms;

        let out = (self.f.0)(acc);
        record(
            effect_m_fact::<Acc, Out, F>,
            Ghost((old(self).f.0, *old(acc), *acc, out)),
        );
        out
    }
}

impl<R, Acc, Out, F: FnMut(&mut Acc) -> Out> IntoRefScanStep<R, Acc, (), Out, NoEvent<F>> for F {
    type Step = Step<NoEvent<F>, (), Out>;

    open spec fn resolved(self) -> Step<NoEvent<F>, (), Out> {
        Step { f: NoEvent(self), params: PhantomData }
    }

    fn into_ref_scan_step(self, registry: &Registry<R>) -> (step: Step<NoEvent<F>, (), Out>) {
        Step { f: NoEvent(self), params: PhantomData }
    }
}

impl<
    R,
    T,
    I,
    Acc,
    Out,
    F: FnMut(&T, &mut Acc) -> Out,
> RefScanStepCall<R, Acc, ()> for Step<NoEvent<F>, Res<T, I>, Out> where
    R: Resource<T, I>,
{
    type Out = Out;

    open spec fn call_pre(&self, world: World<R>, acc: Acc, input: &()) -> bool {
        forall|r1: &mut Acc| *r1 == acc
            ==> #[trigger] call_requires(self.f.0, (&world.held::<T, I>(), r1))
    }

    open spec fn call_post(
        &self,
        world: World<R>,
        acc: Acc,
        input: &(),
        after: Self,
        world_after: World<R>,
        acc_after: Acc,
        out: Out,
    ) -> bool {
        &&& after == *self
        &&& world_after == world
        &&& effect_pm(self.f.0, &world.held::<T, I>(), acc, acc_after, out)
    }

    fn call(&mut self, world: &mut World<R>, acc: &mut Acc, input: &()) -> (out: Out) {
        broadcast use vstd::function::group_function_axioms;

        let out = (self.f.0)(world.resource::<T, I>(), acc);
        record(
            effect_pm_fact::<&T, Acc, Out, F>,
            Ghost((old(self).f.0, &old(world).held::<T, I>(), *old(acc), *acc, out)),
        );
        out
    }
}

impl<
    R,
    T,
    I,
    Acc,
    Out,
    F: FnMut(&T, &mut Acc) -> Out,
> IntoRefScanStep<R, Acc, (), Out, Res<T, I>> for NoEvent<F> where
    R: Resource<T, I>,
{
    type Step = Step<NoEvent<F>, Res<T, I>, Out>;

    open spec fn resolved(self) -> Step<NoEvent<F>, Res<T, I>, Out> {
        Step { f: self, params: PhantomData }
    }

    fn into_ref_scan_step(
        self,
        registry: &Registry<R>,
    ) -> (step: Step<NoEvent<F>, Res<T, I>, Out>) {
        Step { f: self, params: PhantomData }
    }
}

impl<
    R,
    T,
    I,
    Acc,
    Out,
    F: FnMut(&mut T, &mut Acc) -> Out,
> RefScanStepCall<R, Acc, ()> for Step<NoEvent<F>, ResMut<T, I>, Out> where
    R: Resource<T, I>,
{
    type Out = Out;

    open spec fn call_pre(&self, world: World<R>, acc: Acc, input: &()) -> bool {
        forall|r0: &mut T, r1: &mut Acc| *r0 == world.held::<T, I>() && *r1 == acc
            ==> #[trigger] call_requires(self.f.0, (r0, r1))
    }

    open spec fn call_post(
        &self,
        world: World<R>,
        acc: Acc,
        input: &(),
        after: Self,
        world_after: World<R>,
        acc_after: Acc,
        out: Out,
    ) -> bool {
        &&& after == *self
        &&& exists|held: T|
            #[trigger] effect_mm(self.f.0, world.held::<T, I>(), acc, held, acc_after, out)
                && world_after == world.holding::<T, I>(held)
    }

    fn call(&mut self, world: &mut World<R>, acc: &mut Acc, input: &()) -> (out: Out) {
        broadcast use vstd::function::group_function_axioms;

        let cell: &mut T = world.resource_mut::<T, I>();
        let out = (self.f.0)(&mut *cell, acc);
        record(
            effect_mm_fact::<T, Acc, Out, F>,
            Ghost((old(self).f.0, old(world).held::<T, I>(), *old(acc), *cell, *acc, out)),
        );
        assert(effect_mm(old(self).f.0, old(world).held::<T, I>(), *old(acc), *cell, *acc, out));
        out
    }
}

impl<
    R,
    T,
    I,
    Acc,
    Out,
    F: FnMut(&mut T, &mut Acc) -> Out,
> IntoRefScanStep<R, Acc, (), Out, ResMut<T, I>> for NoEvent<F> where
    R: Resource<T, I>,
{
    type Step = Step<NoEvent<F>, ResMut<T, I>, Out>;

    open spec fn resolved(self) -> Step<NoEvent<F>, ResMut<T, I>, Out> {
        Step { f: self, params: PhantomData }
    }

    fn into_ref_scan_step(
        self,
        registry: &Registry<R>,
    ) -> (step: Step<NoEvent<F>, ResMut<T, I>, Out>) {
        Step { f: self, params: PhantomData }
    }
}

impl<
    R,
    T,
    I,
    U,
    J,
    Acc,
    Out,
    F: FnMut(&T, &U, &mut Acc) -> Out,
> RefScanStepCall<R, Acc, ()> for Step<NoEvent<F>, (Res<T, I>, Res<U, J>), Out> where
    R: Resource<T, I> + Resource<U, J>,
{
    type Out = Out;

    open spec fn call_pre(&self, world: World<R>, acc: Acc, input: &()) -> bool {
        forall|r2: &mut Acc| *r2 == acc
            ==> #[trigger] call_requires(
                self.f.0,
                (&world.held::<T, I>(), &world.held::<U, J>(), r2),
            )
    }

    open spec fn call_post(
        &self,
        world: World<R>,
        acc: Acc,
        input: &(),
        after: Self,
        world_after: World<R>,
        acc_after: Acc,
        out: Out,
    ) -> bool {
        &&& after == *self
        &&& world_after == world
        &&& effect_ppm(self.f.0, &world.held::<T, I>(), &world.held::<U, J>(), acc, acc_after, out)
    }

    fn call(&mut self, world: &mut World<R>, acc: &mut Acc, input: &()) -> (out: Out) {
        broadcast use vstd::function::group_function_axioms;

        let out = (self.f.0)(world.resource::<T, I>(), world.resource::<U, J>(), acc);
        record(
            effect_ppm_fact::<&T, &U, Acc, Out, F>,
            Ghost((
                old(self).f.0,
                &old(world).held::<T, I>(),
                &old(world).held::<U, J>(),
                *old(acc),
                *acc,
                out,
            )),
        );
        out
    }
}

impl<
    R,
    T,
    I,
    U,
    J,
    Acc,
    Out,
    F: FnMut(&T, &U, &mut Acc) -> Out,
> IntoRefScanStep<R, Acc, (), Out, (Res<T, I>, Res<U, J>)> for NoEvent<F> where
    R: Resource<T, I> + Resource<U, J>,
{
    type Step = Step<NoEvent<F>, (Res<T, I>, Res<U, J>), Out>;

    open spec fn resolved(self) -> Step<NoEvent<F>, (Res<T, I>, Res<U, J>), Out> {
        Step { f: self, params: PhantomData }
    }

    fn into_ref_scan_step(
        self,
        registry: &Registry<R>,
    ) -> (step: Step<NoEvent<F>, (Res<T, I>, Res<U, J>), Out>) {
        Step { f: self, params: PhantomData }
    }
}

impl<
    R,
    T,
    I,
    U,
    J,
    Acc,
    Out,
    F: FnMut(&T, &mut U, &mut Acc) -> Out,
> RefScanStepCall<R, Acc, ()> for Step<NoEvent<F>, (Res<T, I>, ResMut<U, J>), Out> where
    R: Apart<T, I, U, J>,
{
    type Out = Out;

    open spec fn call_pre(&self, world: World<R>, acc: Acc, input: &()) -> bool {
        forall|r1: &mut U, r2: &mut Acc| *r1 == world.held::<U, J>() && *r2 == acc
            ==> #[trigger] call_requires(self.f.0, (&world.held::<T, I>(), r1, r2))
    }

    open spec fn call_post(
        &self,
        world: World<R>,
        acc: Acc,
        input: &(),
        after: Self,
        world_after: World<R>,
        acc_after: Acc,
        out: Out,
    ) -> bool {
        &&& after == *self
        &&& exists|held: U|
            #[trigger] effect_pmm(
                self.f.0,
                &world.held::<T, I>(),
                world.held::<U, J>(),
                acc,
                held,
                acc_after,
                out,
            )
                && world_after == world.holding::<U, J>(held)
    }

    fn call(&mut self, world: &mut World<R>, acc: &mut Acc, input: &()) -> (out: Out) {
        broadcast use vstd::function::group_function_axioms;

        let (first, second): (&T, &mut U) = world.beside_mut::<T, I, U, J>();
        let out = (self.f.0)(first, &mut *second, acc);
        record(
            effect_pmm_fact::<&T, U, Acc, Out, F>,
            Ghost((
                old(self).f.0,
                &old(world).held::<T, I>(),
                old(world).held::<U, J>(),
                *old(acc),
                *second,
                *acc,
                out,
            )),
        );
        assert(effect_pmm(
            old(self).f.0,
            &old(world).held::<T, I>(),
            old(world).held::<U, J>(),
            *old(acc),
            *second,
            *acc,
            out,
        ));
        out
    }
}

impl<
    R,
    T,
    I,
    U,
    J,
    Acc,
    Out,
    F: FnMut(&T, &mut U, &mut Acc) -> Out,
> IntoRefScanStep<R, Acc, (), Out, (Res<T, I>, ResMut<U, J>)> for NoEvent<F> where
    R: Apart<T, I, U, J>,
{
    type Step = Step<NoEvent<F>, (Res<T, I>, ResMut<U, J>), Out>;

    open spec fn resolved(self) -> Step<NoEvent<F>, (Res<T, I>, ResMut<U, J>), Out> {
        Step { f: self, params: PhantomData }
    }

    fn into_ref_scan_step(
        self,
        registry: &Registry<R>,
    ) -> (step: Step<NoEvent<F>, (Res<T, I>, ResMut<U, J>), Out>) {
        Step { f: self, params: PhantomData }
    }
}

impl<
    R,
    T,
    I,
    U,
    J,
    Acc,
    Out,
    F: FnMut(&mut T, &U, &mut Acc) -> Out,
> RefScanStepCall<R, Acc, ()> for Step<NoEvent<F>, (ResMut<T, I>, Res<U, J>), Out> where
    R: Apart<U, J, T, I>,
{
    type Out = Out;

    open spec fn call_pre(&self, world: World<R>, acc: Acc, input: &()) -> bool {
        forall|r0: &mut T, r2: &mut Acc| *r0 == world.held::<T, I>() && *r2 == acc
            ==> #[trigger] call_requires(self.f.0, (r0, &world.held::<U, J>(), r2))
    }

    open spec fn call_post(
        &self,
        world: World<R>,
        acc: Acc,
        input: &(),
        after: Self,
        world_after: World<R>,
        acc_after: Acc,
        out: Out,
    ) -> bool {
        &&& after == *self
        &&& exists|held: T|
            #[trigger] effect_mpm(
                self.f.0,
                world.held::<T, I>(),
                &world.held::<U, J>(),
                acc,
                held,
                acc_after,
                out,
            )
                && world_after == world.holding::<T, I>(held)
    }

    fn call(&mut self, world: &mut World<R>, acc: &mut Acc, input: &()) -> (out: Out) {
        broadcast use vstd::function::group_function_axioms;

        let (second, first): (&U, &mut T) = world.beside_mut::<U, J, T, I>();
        let out = (self.f.0)(&mut *first, second, acc);
        record(
            effect_mpm_fact::<T, &U, Acc, Out, F>,
            Ghost((
                old(self).f.0,
                old(world).held::<T, I>(),
                &old(world).held::<U, J>(),
                *old(acc),
                *first,
                *acc,
                out,
            )),
        );
        assert(effect_mpm(
            old(self).f.0,
            old(world).held::<T, I>(),
            &old(world).held::<U, J>(),
            *old(acc),
            *first,
            *acc,
            out,
        ));
        out
    }
}

impl<
    R,
    T,
    I,
    U,
    J,
    Acc,
    Out,
    F: FnMut(&mut T, &U, &mut Acc) -> Out,
> IntoRefScanStep<R, Acc, (), Out, (ResMut<T, I>, Res<U, J>)> for NoEvent<F> where
    R: Apart<U, J, T, I>,
{
    type Step = Step<NoEvent<F>, (ResMut<T, I>, Res<U, J>), Out>;

    open spec fn resolved(self) -> Step<NoEvent<F>, (ResMut<T, I>, Res<U, J>), Out> {
        Step { f: self, params: PhantomData }
    }

    fn into_ref_scan_step(
        self,
        registry: &Registry<R>,
    ) -> (step: Step<NoEvent<F>, (ResMut<T, I>, Res<U, J>), Out>) {
        Step { f: self, params: PhantomData }
    }
}

impl<
    R,
    T,
    I,
    U,
    J,
    Acc,
    Out,
    F: FnMut(&mut T, &mut U, &mut Acc) -> Out,
> RefScanStepCall<R, Acc, ()> for Step<NoEvent<F>, (ResMut<T, I>, ResMut<U, J>), Out> where
    R: Apart<T, I, U, J>,
{
    type Out = Out;

    open spec fn call_pre(&self, world: World<R>, acc: Acc, input: &()) -> bool {
        forall|r0: &mut T, r1: &mut U, r2: &mut Acc| *r0 == world.held::<T, I>()
            && *r1 == world.held::<U, J>()
            && *r2 == acc
            ==> #[trigger] call_requires(self.f.0, (r0, r1, r2))
    }

    open spec fn call_post(
        &self,
        world: World<R>,
        acc: Acc,
        input: &(),
        after: Self,
        world_after: World<R>,
        acc_after: Acc,
        out: Out,
    ) -> bool {
        &&& after == *self
        &&& exists|held: T, other: U|
            #[trigger] effect_mmm(
                self.f.0,
                world.held::<T, I>(),
                world.held::<U, J>(),
                acc,
                held,
                other,
                acc_after,
                out,
            )
                && world_after == world.holding::<T, I>(held).holding::<U, J>(other)
    }

    fn call(&mut self, world: &mut World<R>, acc: &mut Acc, input: &()) -> (out: Out) {
        broadcast use vstd::function::group_function_axioms;

        let (first, second): (&mut T, &mut U) = world.both_mut::<T, I, U, J>();
        let out = (self.f.0)(&mut *first, &mut *second, acc);
        record(
            effect_mmm_fact::<T, U, Acc, Out, F>,
            Ghost((
                old(self).f.0,
                old(world).held::<T, I>(),
                old(world).held::<U, J>(),
                *old(acc),
                *first,
                *second,
                *acc,
                out,
            )),
        );
        assert(effect_mmm(
            old(self).f.0,
            old(world).held::<T, I>(),
            old(world).held::<U, J>(),
            *old(acc),
            *first,
            *second,
            *acc,
            out,
        ));
        out
    }
}

impl<
    R,
    T,
    I,
    U,
    J,
    Acc,
    Out,
    F: FnMut(&mut T, &mut U, &mut Acc) -> Out,
> IntoRefScanStep<R, Acc, (), Out, (ResMut<T, I>, ResMut<U, J>)> for NoEvent<F> where
    R: Apart<T, I, U, J>,
{
    type Step = Step<NoEvent<F>, (ResMut<T, I>, ResMut<U, J>), Out>;

    open spec fn resolved(self) -> Step<NoEvent<F>, (ResMut<T, I>, ResMut<U, J>), Out> {
        Step { f: self, params: PhantomData }
    }

    fn into_ref_scan_step(
        self,
        registry: &Registry<R>,
    ) -> (step: Step<NoEvent<F>, (ResMut<T, I>, ResMut<U, J>), Out>) {
        Step { f: self, params: PhantomData }
    }
}

} // verus!
