//! Steps that take the parts of a tuple as arguments of their own.
use crate::effect::{
    effect_mmpp, effect_mmpp_fact, effect_mmppp, effect_mmppp_fact, effect_mmpppp,
    effect_mmpppp_fact, effect_mmppppp, effect_mmppppp_fact, effect_mpp, effect_mpp_fact,
    effect_mppp, effect_mppp_fact, effect_mpppp, effect_mpppp_fact, effect_mppppp,
    effect_mppppp_fact, effect_mpppppp, effect_mpppppp_fact, effect_pmpp, effect_pmpp_fact,
    effect_pmppp, effect_pmppp_fact, effect_pmpppp, effect_pmpppp_fact, effect_pmppppp,
    effect_pmppppp_fact, record,
};
use crate::node::{ChainCall, IdentityNode};
use crate::pipeline::{PipelineBuilder, PipelineChain};
use crate::step::Step;
use crate::world::{Apart, Registry, Res, ResMut, Resource, World};
use std::marker::PhantomData;
use vstd::prelude::*;

verus! {

/// A step that takes the parts of a 2-tuple as arguments of their own.
pub trait SplatCall2<R, A, B>: Sized {
    /// What the step produces.
    type Out;

    /// When the step may be called.
    spec fn call_splat_pre(&self, world: World<R>, a: A, b: B) -> bool;

    /// What a call may lead to: the step itself, the state it was handed, and its result.
    spec fn call_splat_post(
        &self,
        world: World<R>,
        a: A,
        b: B,
        after: Self,
        world_after: World<R>,
        out: Self::Out,
    ) -> bool;

    fn call_splat(&mut self, world: &mut World<R>, a: A, b: B) -> (out: Self::Out)
        requires
            old(self).call_splat_pre(*old(world), a, b),
        ensures
            old(self).call_splat_post(*old(world), a, b, *final(self), *final(world), out),
    ;
}

/// Turns a function into a [`SplatCall2`]. `Params` tells the shapes of function apart.
pub trait IntoSplatStep2<R, A, B, Out, Params>: Sized {
    type Step: SplatCall2<R, A, B, Out = Out>;

    /// The step that the function stands for.
    spec fn resolved(self) -> Self::Step;

    fn into_splat_step(self, registry: &Registry<R>) -> (step: Self::Step)
        ensures
            step == self.resolved(),
    ;
}

impl<R, A, B, Out, F: FnMut(A, B) -> Out> SplatCall2<R, A, B> for Step<F, (), Out> {
    type Out = Out;

    open spec fn call_splat_pre(&self, world: World<R>, a: A, b: B) -> bool {
        call_requires(self.f, (a, b))
    }

    open spec fn call_splat_post(
        &self,
        world: World<R>,
        a: A,
        b: B,
        after: Self,
        world_after: World<R>,
        out: Out,
    ) -> bool {
        &&& after == *self
        &&& world_after == world
        &&& call_ensures(self.f, (a, b), out)
    }

    fn call_splat(&mut self, world: &mut World<R>, a: A, b: B) -> (out: Out) {
        broadcast use vstd::function::group_function_axioms;

        (self.f)(a, b)
    }
}

impl<R, A, B, Out, F: FnMut(A, B) -> Out> IntoSplatStep2<R, A, B, Out, ()> for F {
    type Step = Step<F, (), Out>;

    open spec fn resolved(self) -> Step<F, (), Out> {
        Step { f: self, params: PhantomData }
    }

    fn into_splat_step(self, registry: &Registry<R>) -> (step: Step<F, (), Out>) {
        Step { f: self, params: PhantomData }
    }
}

impl<
    R,
    T,
    I,
    A,
    B,
    Out,
    F: FnMut(&T, A, B) -> Out,
> SplatCall2<R, A, B> for Step<F, Res<T, I>, Out> where
    R: Resource<T, I>,
{
    type Out = Out;

    open spec fn call_splat_pre(&self, world: World<R>, a: A, b: B) -> bool {
        call_requires(self.f, (&world.held::<T, I>(), a, b))
    }

    open spec fn call_splat_post(
        &self,
        world: World<R>,
        a: A,
        b: B,
        after: Self,
        world_after: World<R>,
        out: Out,
    ) -> bool {
        &&& after == *self
        &&& world_after == world
        &&& call_ensures(self.f, (&world.held::<T, I>(), a, b), out)
    }

    fn call_splat(&mut self, world: &mut World<R>, a: A, b: B) -> (out: Out) {
        broadcast use vstd::function::group_function_axioms;

        (self.f)(world.resource::<T, I>(), a, b)
    }
}

impl<
    R,
    T,
    I,
    A,
    B,
    Out,
    F: FnMut(&T, A, B) -> Out,
> IntoSplatStep2<R, A, B, Out, Res<T, I>> for F where
    R: Resource<T, I>,
{
    type Step = Step<F, Res<T, I>, Out>;

    open spec fn resolved(self) -> Step<F, Res<T, I>, Out> {
        Step { f: self, params: PhantomData }
    }

    fn into_splat_step(self, registry: &Registry<R>) -> (step: Step<F, Res<T, I>, Out>) {
        Step { f: self, params: PhantomData }
    }
}

impl<
    R,
    T,
    I,
    A,
    B,
    Out,
    F: FnMut(&mut T, A, B) -> Out,
> SplatCall2<R, A, B> for Step<F, ResMut<T, I>, Out> where
    R: Resource<T, I>,
{
    type Out = Out;

    open spec fn call_splat_pre(&self, world: World<R>, a: A, b: B) -> bool {
        forall|r0: &mut T| *r0 == world.held::<T, I>()
            ==> #[trigger] call_requires(self.f, (r0, a, b))
    }

    open spec fn call_splat_post(
        &self,
        world: World<R>,
        a: A,
        b: B,
        after: Self,
        world_after: World<R>,
        out: Out,
    ) -> bool {
        &&& after == *self
        &&& exists|held: T|
            #[trigger] effect_mpp(self.f, world.held::<T, I>(), a, b, held, out)
                && world_after == world.holding::<T, I>(held)
    }

    fn call_splat(&mut self, world: &mut World<R>, a: A, b: B) -> (out: Out) {
        broadcast use vstd::function::group_function_axioms;

        let ghost a_given = a;
        let ghost b_given = b;
        let cell: &mut T = world.resource_mut::<T, I>();
        let out = (self.f)(&mut *cell, a, b);
        record(
            effect_mpp_fact::<T, A, B, Out, F>,
            Ghost((old(self).f, old(world).held::<T, I>(), a_given, b_given, *cell, out)),
        );
        assert(effect_mpp(old(self).f, old(world).held::<T, I>(), a_given, b_given, *cell, out));
        out
    }
}

impl<
    R,
    T,
    I,
    A,
    B,
    Out,
    F: FnMut(&mut T, A, B) -> Out,
> IntoSplatStep2<R, A, B, Out, ResMut<T, I>> for F where
    R: Resource<T, I>,
{
    type Step = Step<F, ResMut<T, I>, Out>;

    open spec fn resolved(self) -> Step<F, ResMut<T, I>, Out> {
        Step { f: self, params: PhantomData }
    }

    fn into_splat_step(self, registry: &Registry<R>) -> (step: Step<F, ResMut<T, I>, Out>) {
        Step { f: self, params: PhantomData }
    }
}

impl<
    R,
    T,
    I,
    U,
    J,
    A,
    B,
    Out,
    F: FnMut(&T, &U, A, B) -> Out,
> SplatCall2<R, A, B> for Step<F, (Res<T, I>, Res<U, J>), Out> where
    R: Resource<T, I> + Resource<U, J>,
{
    type Out = Out;

    open spec fn call_splat_pre(&self, world: World<R>, a: A, b: B) -> bool {
        call_requires(self.f, (&world.held::<T, I>(), &world.held::<U, J>(), a, b))
    }

    open spec fn call_splat_post(
        &self,
        world: World<R>,
        a: A,
        b: B,
        after: Self,
        world_after: World<R>,
        out: Out,
    ) -> bool {
        &&& after == *self
        &&& world_after == world
        &&& call_ensures(self.f, (&world.held::<T, I>(), &world.held::<U, J>(), a, b), out)
    }

    fn call_splat(&mut self, world: &mut World<R>, a: A, b: B) -> (out: Out) {
        broadcast use vstd::function::group_function_axioms;

        (self.f)(world.resource::<T, I>(), world.resource::<U, J>(), a, b)
    }
}

impl<
    R,
    T,
    I,
    U,
    J,
    A,
    B,
    Out,
    F: FnMut(&T, &U, A, B) -> Out,
> IntoSplatStep2<R, A, B, Out, (Res<T, I>, Res<U, J>)> for F where
    R: Resource<T, I> + Resource<U, J>,
{
    type Step = Step<F, (Res<T, I>, Res<U, J>), Out>;

    open spec fn resolved(self) -> Step<F, (Res<T, I>, Res<U, J>), Out> {
        Step { f: self, params: PhantomData }
    }

    fn into_splat_step(
        self,
        registry: &Registry<R>,
    ) -> (step: Step<F, (Res<T, I>, Res<U, J>), Out>) {
        Step { f: self, params: PhantomData }
    }
}

impl<
    R,
    T,
    I,
    U,
    J,
    A,
    B,
    Out,
    F: FnMut(&T, &mut U, A, B) -> Out,
> SplatCall2<R, A, B> for Step<F, (Res<T, I>, ResMut<U, J>), Out> where
    R: Apart<T, I, U, J>,
{
    type Out = Out;

    open spec fn call_splat_pre(&self, world: World<R>, a: A, b: B) -> bool {
        forall|r1: &mut U| *r1 == world.held::<U, J>()
            ==> #[trigger] call_requires(self.f, (&world.held::<T, I>(), r1, a, b))
    }

    open spec fn call_splat_post(
        &self,
        world: World<R>,
        a: A,
        b: B,
        after: Self,
        world_after: World<R>,
        out: Out,
    ) -> bool {
        &&& after == *self
        &&& exists|held: U|
            #[trigger] effect_pmpp(
                self.f,
                &world.held::<T, I>(),
                world.held::<U, J>(),
                a,
                b,
                held,
                out,
            )
                && world_after == world.holding::<U, J>(held)
    }

    fn call_splat(&mut self, world: &mut World<R>, a: A, b: B) -> (out: Out) {
        broadcast use vstd::function::group_function_axioms;

        let ghost a_given = a;
        let ghost b_given = b;
        let (first, second): (&T, &mut U) = world.beside_mut::<T, I, U, J>();
        let out = (self.f)(first, &mut *second, a, b);
        record(
            effect_pmpp_fact::<&T, U, A, B, Out, F>,
            Ghost((
                old(self).f,
                &old(world).held::<T, I>(),
                old(world).held::<U, J>(),
                a_given,
                b_given,
                *second,
                out,
            )),
        );
        assert(effect_pmpp(
            old(self).f,
            &old(world).held::<T, I>(),
            old(world).held::<U, J>(),
            a_given,
            b_given,
            *second,
            out,
        ));
        out
    }
}

impl<
    R,
    T,
    I,
    U,
    J,
    A,
    B,
    Out,
    F: FnMut(&T, &mut U, A, B) -> Out,
> IntoSplatStep2<R, A, B, Out, (Res<T, I>, ResMut<U, J>)> for F where
    R: Apart<T, I, U, J>,
{
    type Step = Step<F, (Res<T, I>, ResMut<U, J>), Out>;

    open spec fn resolved(self) -> Step<F, (Res<T, I>, ResMut<U, J>), Out> {
        Step { f: self, params: PhantomData }
    }

    fn into_splat_step(
        self,
        registry: &Registry<R>,
    ) -> (step: Step<F, (Res<T, I>, ResMut<U, J>), Out>) {
        Step { f: self, params: PhantomData }
    }
}

impl<
    R,
    T,
    I,
    U,
    J,
    A,
    B,
    Out,
    F: FnMut(&mut T, &U, A, B) -> Out,
> SplatCall2<R, A, B> for Step<F, (ResMut<T, I>, Res<U, J>), Out> where
    R: Apart<U, J, T, I>,
{
    type Out = Out;

    open spec fn call_splat_pre(&self, world: World<R>, a: A, b: B) -> bool {
        forall|r0: &mut T| *r0 == world.held::<T, I>()
            ==> #[trigger] call_requires(self.f, (r0, &world.held::<U, J>(), a, b))
    }

    open spec fn call_splat_post(
        &self,
        world: World<R>,
        a: A,
        b: B,
        after: Self,
        world_after: World<R>,
        out: Out,
    ) -> bool {
        &&& after == *self
        &&& exists|held: T|
            #[trigger] effect_mppp(
                self.f,
                world.held::<T, I>(),
                &world.held::<U, J>(),
                a,
                b,
                held,
                out,
            )
                && world_after == world.holding::<T, I>(held)
    }

    fn call_splat(&mut self, world: &mut World<R>, a: A, b: B) -> (out: Out) {
        broadcast use vstd::function::group_function_axioms;

        let ghost a_given = a;
        let ghost b_given = b;
        let (second, first): (&U, &mut T) = world.beside_mut::<U, J, T, I>();
        let out = (self.f)(&mut *first, second, a, b);
        record(
            effect_mppp_fact::<T, &U, A, B, Out, F>,
            Ghost((
                old(self).f,
                old(world).held::<T, I>(),
                &old(world).held::<U, J>(),
                a_given,
                b_given,
                *first,
                out,
            )),
        );
        assert(effect_mppp(
            old(self).f,
            old(world).held::<T, I>(),
            &old(world).held::<U, J>(),
            a_given,
            b_given,
            *first,
            out,
        ));
        out
    }
}

impl<
    R,
    T,
    I,
    U,
    J,
    A,
    B,
    Out,
    F: FnMut(&mut T, &U, A, B) -> Out,
> IntoSplatStep2<R, A, B, Out, (ResMut<T, I>, Res<U, J>)> for F where
    R: Apart<U, J, T, I>,
{
    type Step = Step<F, (ResMut<T, I>, Res<U, J>), Out>;

    open spec fn resolved(self) -> Step<F, (ResMut<T, I>, Res<U, J>), Out> {
        Step { f: self, params: PhantomData }
    }

    fn into_splat_step(
        self,
        registry: &Registry<R>,
    ) -> (step: Step<F, (ResMut<T, I>, Res<U, J>), Out>) {
        Step { f: self, params: PhantomData }
    }
}

impl<
    R,
    T,
    I,
    U,
    J,
    A,
    B,
    Out,
    F: FnMut(&mut T, &mut U, A, B) -> Out,
> SplatCall2<R, A, B> for Step<F, (ResMut<T, I>, ResMut<U, J>), Out> where
    R: Apart<T, I, U, J>,
{
    type Out = Out;

    open spec fn call_splat_pre(&self, world: World<R>, a: A, b: B) -> bool {
        forall|r0: &mut T, r1: &mut U| *r0 == world.held::<T, I>() && *r1 == world.held::<U, J>()
            ==> #[trigger] call_requires(self.f, (r0, r1, a, b))
    }

    open spec fn call_splat_post(
        &self,
        world: World<R>,
        a: A,
        b: B,
        after: Self,
        world_after: World<R>,
        out: Out,
    ) -> bool {
        &&& after == *self
        &&& exists|held: T, other: U|
            #[trigger] effect_mmpp(
                self.f,
                world.held::<T, I>(),
                world.held::<U, J>(),
                a,
                b,
                held,
                other,
                out,
            )
                && world_after == world.holding::<T, I>(held).holding::<U, J>(other)
    }

    fn call_splat(&mut self, world: &mut World<R>, a: A, b: B) -> (out: Out) {
        broadcast use vstd::function::group_function_axioms;

        let ghost a_given = a;
        let ghost b_given = b;
        let (first, second): (&mut T, &mut U) = world.both_mut::<T, I, U, J>();
        let out = (self.f)(&mut *first, &mut *second, a, b);
        record(
            effect_mmpp_fact::<T, U, A, B, Out, F>,
            Ghost((
                old(self).f,
                old(world).held::<T, I>(),
                old(world).held::<U, J>(),
                a_given,
                b_given,
                *first,
                *second,
                out,
            )),
        );
        assert(effect_mmpp(
            old(self).f,
            old(world).held::<T, I>(),
            old(world).held::<U, J>(),
            a_given,
            b_given,
            *first,
            *second,
            out,
        ));
        out
    }
}

impl<
    R,
    T,
    I,
    U,
    J,
    A,
    B,
    Out,
    F: FnMut(&mut T, &mut U, A, B) -> Out,
> IntoSplatStep2<R, A, B, Out, (ResMut<T, I>, ResMut<U, J>)> for F where
    R: Apart<T, I, U, J>,
{
    type Step = Step<F, (ResMut<T, I>, ResMut<U, J>), Out>;

    open spec fn resolved(self) -> Step<F, (ResMut<T, I>, ResMut<U, J>), Out> {
        Step { f: self, params: PhantomData }
    }

    fn into_splat_step(
        self,
        registry: &Registry<R>,
    ) -> (step: Step<F, (ResMut<T, I>, ResMut<U, J>), Out>) {
        Step { f: self, params: PhantomData }
    }
}

/// A step that takes the parts of a 3-tuple as arguments of their own.
pub trait SplatCall3<R, A, B, C>: Sized {
    /// What the step produces.
    type Out;

    /// When the step may be called.
    spec fn call_splat_pre(&self, world: World<R>, a: A, b: B, c: C) -> bool;

    /// What a call may lead to: the step itself, the state it was handed, and its result.
    spec fn call_splat_post(
        &self,
        world: World<R>,
        a: A,
        b: B,
        c: C,
        after: Self,
        world_after: World<R>,
        out: Self::Out,
    ) -> bool;

    fn call_splat(&mut self, world: &mut World<R>, a: A, b: B, c: C) -> (out: Self::Out)
        requires
            old(self).call_splat_pre(*old(world), a, b, c),
        ensures
            old(self).call_splat_post(*old(world), a, b, c, *final(self), *final(world), out),
    ;
}

/// Turns a function into a [`SplatCall3`]. `Params` tells the shapes of function apart.
pub trait IntoSplatStep3<R, A, B, C, Out, Params>: Sized {
    type Step: SplatCall3<R, A, B, C, Out = Out>;

    /// The step that the function stands for.
    spec fn resolved(self) -> Self::Step;

    fn into_splat_step(self, registry: &Registry<R>) -> (step: Self::Step)
        ensures
            step == self.resolved(),
    ;
}

impl<R, A, B, C, Out, F: FnMut(A, B, C) -> Out> SplatCall3<R, A, B, C> for Step<F, (), Out> {
    type Out = Out;

    open spec fn call_splat_pre(&self, world: World<R>, a: A, b: B, c: C) -> bool {
        call_requires(self.f, (a, b, c))
    }

    open spec fn call_splat_post(
        &self,
        world: World<R>,
        a: A,
        b: B,
        c: C,
        after: Self,
        world_after: World<R>,
        out: Out,
    ) -> bool {
        &&& after == *self
        &&& world_after == world
        &&& call_ensures(self.f, (a, b, c), out)
    }

    fn call_splat(&mut self, world: &mut World<R>, a: A, b: B, c: C) -> (out: Out) {
        broadcast use vstd::function::group_function_axioms;

        (self.f)(a, b, c)
    }
}

impl<R, A, B, C, Out, F: FnMut(A, B, C) -> Out> IntoSplatStep3<R, A, B, C, Out, ()> for F {
    type Step = Step<F, (), Out>;

    open spec fn resolved(self) -> Step<F, (), Out> {
        Step { f: self, params: PhantomData }
    }

    fn into_splat_step(self, registry: &Registry<R>) -> (step: Step<F, (), Out>) {
        Step { f: self, params: PhantomData }
    }
}

impl<
    R,
    T,
    I,
    A,
    B,
    C,
    Out,
    F: FnMut(&T, A, B, C) -> Out,
> SplatCall3<R, A, B, C> for Step<F, Res<T, I>, Out> where
    R: Resource<T, I>,
{
    type Out = Out;

    open spec fn call_splat_pre(&self, world: World<R>, a: A, b: B, c: C) -> bool {
        call_requires(self.f, (&world.held::<T, I>(), a, b, c))
    }

    open spec fn call_splat_post(
        &self,
        world: World<R>,
        a: A,
        b: B,
        c: C,
        after: Self,
        world_after: World<R>,
        out: Out,
    ) -> bool {
        &&& after == *self
        &&& world_after == world
        &&& call_ensures(self.f, (&world.held::<T, I>(), a, b, c), out)
    }

    fn call_splat(&mut self, world: &mut World<R>, a: A, b: B, c: C) -> (out: Out) {
        broadcast use vstd::function::group_function_axioms;

        (self.f)(world.resource::<T, I>(), a, b, c)
    }
}

impl<
    R,
    T,
    I,
    A,
    B,
    C,
    Out,
    F: FnMut(&T, A, B, C) -> Out,
> IntoSplatStep3<R, A, B, C, Out, Res<T, I>> for F where
    R: Resource<T, I>,
{
    type Step = Step<F, Res<T, I>, Out>;

    open spec fn resolved(self) -> Step<F, Res<T, I>, Out> {
        Step { f: self, params: PhantomData }
    }

    fn into_splat_step(self, registry: &Registry<R>) -> (step: Step<F, Res<T, I>, Out>) {
        Step { f: self, params: PhantomData }
    }
}

impl<
    R,
    T,
    I,
    A,
    B,
    C,
    Out,
    F: FnMut(&mut T, A, B, C) -> Out,
> SplatCall3<R, A, B, C> for Step<F, ResMut<T, I>, Out> where
    R: Resource<T, I>,
{
    type Out = Out;

    open spec fn call_splat_pre(&self, world: World<R>, a: A, b: B, c: C) -> bool {
        forall|r0: &mut T| *r0 == world.held::<T, I>()
            ==> #[trigger] call_requires(self.f, (r0, a, b, c))
    }

    open spec fn call_splat_post(
        &self,
        world: World<R>,
        a: A,
        b: B,
        c: C,
        after: Self,
        world_after: World<R>,
        out: Out,
    ) -> bool {
        &&& after == *self
        &&& exists|held: T|
            #[trigger] effect_mppp(self.f, world.held::<T, I>(), a, b, c, held, out)
                && world_after == world.holding::<T, I>(held)
    }

    fn call_splat(&mut self, world: &mut World<R>, a: A, b: B, c: C) -> (out: Out) {
        broadcast use vstd::function::group_function_axioms;

        let ghost a_given = a;
        let ghost b_given = b;
        let ghost c_given = c;
        let cell: &mut T = world.resource_mut::<T, I>();
        let out = (self.f)(&mut *cell, a, b, c);
        record(
            effect_mppp_fact::<T, A, B, C, Out, F>,
            Ghost((old(self).f, old(world).held::<T, I>(), a_given, b_given, c_given, *cell, out)),
        );
        assert(effect_mppp(
            old(self).f,
            old(world).held::<T, I>(),
            a_given,
            b_given,
            c_given,
            *cell,
            out,
        ));
        out
    }
}

impl<
    R,
    T,
    I,
    A,
    B,
    C,
    Out,
    F: FnMut(&mut T, A, B, C) -> Out,
> IntoSplatStep3<R, A, B, C, Out, ResMut<T, I>> for F where
    R: Resource<T, I>,
{
    type Step = Step<F, ResMut<T, I>, Out>;

    open spec fn resolved(self) -> Step<F, ResMut<T, I>, Out> {
        Step { f: self, params: PhantomData }
    }

    fn into_splat_step(self, registry: &Registry<R>) -> (step: Step<F, ResMut<T, I>, Out>) {
        Step { f: self, params: PhantomData }
    }
}

impl<
    R,
    T,
    I,
    U,
    J,
    A,
    B,
    C,
    Out,
    F: FnMut(&T, &U, A, B, C) -> Out,
> SplatCall3<R, A, B, C> for Step<F, (Res<T, I>, Res<U, J>), Out> where
    R: Resource<T, I> + Resource<U, J>,
{
    type Out = Out;

    open spec fn call_splat_pre(&self, world: World<R>, a: A, b: B, c: C) -> bool {
        call_requires(self.f, (&world.held::<T, I>(), &world.held::<U, J>(), a, b, c))
    }

    open spec fn call_splat_post(
        &self,
        world: World<R>,
        a: A,
        b: B,
        c: C,
        after: Self,
        world_after: World<R>,
        out: Out,
    ) -> bool {
        &&& after == *self
        &&& world_after == world
        &&& call_ensures(self.f, (&world.held::<T, I>(), &world.held::<U, J>(), a, b, c), out)
    }

    fn call_splat(&mut self, world: &mut World<R>, a: A, b: B, c: C) -> (out: Out) {
        broadcast use vstd::function::group_function_axioms;

        (self.f)(world.resource::<T, I>(), world.resource::<U, J>(), a, b, c)
    }
}

impl<
    R,
    T,
    I,
    U,
    J,
    A,
    B,
    C,
    Out,
    F: FnMut(&T, &U, A, B, C) -> Out,
> IntoSplatStep3<R, A, B, C, Out, (Res<T, I>, Res<U, J>)> for F where
    R: Resource<T, I> + Resource<U, J>,
{
    type Step = Step<F, (Res<T, I>, Res<U, J>), Out>;

    open spec fn resolved(self) -> Step<F, (Res<T, I>, Res<U, J>), Out> {
        Step { f: self, params: PhantomData }
    }

    fn into_splat_step(
        self,
        registry: &Registry<R>,
    ) -> (step: Step<F, (Res<T, I>, Res<U, J>), Out>) {
        Step { f: self, params: PhantomData }
    }
}

impl<
    R,
    T,
    I,
    U,
    J,
    A,
    B,
    C,
    Out,
    F: FnMut(&T, &mut U, A, B, C) -> Out,
> SplatCall3<R, A, B, C> for Step<F, (Res<T, I>, ResMut<U, J>), Out> where
    R: Apart<T, I, U, J>,
{
    type Out = Out;

    open spec fn call_splat_pre(&self, world: World<R>, a: A, b: B, c: C) -> bool {
        forall|r1: &mut U| *r1 == world.held::<U, J>()
            ==> #[trigger] call_requires(self.f, (&world.held::<T, I>(), r1, a, b, c))
    }

    open spec fn call_splat_post(
        &self,
        world: World<R>,
        a: A,
        b: B,
        c: C,
        after: Self,
        world_after: World<R>,
        out: Out,
    ) -> bool {
        &&& after == *self
        &&& exists|held: U|
            #[trigger] effect_pmppp(
                self.f,
                &world.held::<T, I>(),
                world.held::<U, J>(),
                a,
                b,
                c,
                held,
                out,
            )
                && world_after == world.holding::<U, J>(held)
    }

    fn call_splat(&mut self, world: &mut World<R>, a: A, b: B, c: C) -> (out: Out) {
        broadcast use vstd::function::group_function_axioms;

        let ghost a_given = a;
        let ghost b_given = b;
        let ghost c_given = c;
        let (first, second): (&T, &mut U) = world.beside_mut::<T, I, U, J>();
        let out = (self.f)(first, &mut *second, a, b, c);
        record(
            effect_pmppp_fact::<&T, U, A, B, C, Out, F>,
            Ghost((
                old(self).f,
                &old(world).held::<T, I>(),
                old(world).held::<U, J>(),
                a_given,
                b_given,
                c_given,
                *second,
                out,
            )),
        );
        assert(effect_pmppp(
            old(self).f,
            &old(world).held::<T, I>(),
            old(world).held::<U, J>(),
            a_given,
            b_given,
            c_given,
            *second,
            out,
        ));
        out
    }
}

impl<
    R,
    T,
    I,
    U,
    J,
    A,
    B,
    C,
    Out,
    F: FnMut(&T, &mut U, A, B, C) -> Out,
> IntoSplatStep3<R, A, B, C, Out, (Res<T, I>, ResMut<U, J>)> for F where
    R: Apart<T, I, U, J>,
{
    type Step = Step<F, (Res<T, I>, ResMut<U, J>), Out>;

    open spec fn resolved(self) -> Step<F, (Res<T, I>, ResMut<U, J>), Out> {
        Step { f: self, params: PhantomData }
    }

    fn into_splat_step(
        self,
        registry: &Registry<R>,
    ) -> (step: Step<F, (Res<T, I>, ResMut<U, J>), Out>) {
        Step { f: self, params: PhantomData }
    }
}

impl<
    R,
    T,
    I,
    U,
    J,
    A,
    B,
    C,
    Out,
    F: FnMut(&mut T, &U, A, B, C) -> Out,
> SplatCall3<R, A, B, C> for Step<F, (ResMut<T, I>, Res<U, J>), Out> where
    R: Apart<U, J, T, I>,
{
    type Out = Out;

    open spec fn call_splat_pre(&self, world: World<R>, a: A, b: B, c: C) -> bool {
        forall|r0: &mut T| *r0 == world.held::<T, I>()
            ==> #[trigger] call_requires(self.f, (r0, &world.held::<U, J>(), a, b, c))
    }

    open spec fn call_splat_post(
        &self,
        world: World<R>,
        a: A,
        b: B,
        c: C,
        after: Self,
        world_after: World<R>,
        out: Out,
    ) -> bool {
        &&& after == *self
        &&& exists|held: T|
            #[trigger] effect_mpppp(
                self.f,
                world.held::<T, I>(),
                &world.held::<U, J>(),
                a,
                b,
                c,
                held,
                out,
            )
                && world_after == world.holding::<T, I>(held)
    }

    fn call_splat(&mut self, world: &mut World<R>, a: A, b: B, c: C) -> (out: Out) {
        broadcast use vstd::function::group_function_axioms;

        let ghost a_given = a;
        let ghost b_given = b;
        let ghost c_given = c;
        let (second, first): (&U, &mut T) = world.beside_mut::<U, J, T, I>();
        let out = (self.f)(&mut *first, second, a, b, c);
        record(
            effect_mpppp_fact::<T, &U, A, B, C, Out, F>,
            Ghost((
                old(self).f,
                old(world).held::<T, I>(),
                &old(world).held::<U, J>(),
                a_given,
                b_given,
                c_given,
                *first,
                out,
            )),
        );
        assert(effect_mpppp(
            old(self).f,
            old(world).held::<T, I>(),
            &old(world).held::<U, J>(),
            a_given,
            b_given,
            c_given,
            *first,
            out,
        ));
        out
    }
}

impl<
    R,
    T,
    I,
    U,
    J,
    A,
    B,
    C,
    Out,
    F: FnMut(&mut T, &U, A, B, C) -> Out,
> IntoSplatStep3<R, A, B, C, Out, (ResMut<T, I>, Res<U, J>)> for F where
    R: Apart<U, J, T, I>,
{
    type Step = Step<F, (ResMut<T, I>, Res<U, J>), Out>;

    open spec fn resolved(self) -> Step<F, (ResMut<T, I>, Res<U, J>), Out> {
        Step { f: self, params: PhantomData }
    }

    fn into_splat_step(
        self,
        registry: &Registry<R>,
    ) -> (step: Step<F, (ResMut<T, I>, Res<U, J>), Out>) {
        Step { f: self, params: PhantomData }
    }
}

impl<
    R,
    T,
    I,
    U,
    J,
    A,
    B,
    C,
    Out,
    F: FnMut(&mut T, &mut U, A, B, C) -> Out,
> SplatCall3<R, A, B, C> for Step<F, (ResMut<T, I>, ResMut<U, J>), Out> where
    R: Apart<T, I, U, J>,
{
    type Out = Out;

    open spec fn call_splat_pre(&self, world: World<R>, a: A, b: B, c: C) -> bool {
        forall|r0: &mut T, r1: &mut U| *r0 == world.held::<T, I>() && *r1 == world.held::<U, J>()
            ==> #[trigger] call_requires(self.f, (r0, r1, a, b, c))
    }

    open spec fn call_splat_post(
        &self,
        world: World<R>,
        a: A,
        b: B,
        c: C,
        after: Self,
        world_after: World<R>,
        out: Out,
    ) -> bool {
        &&& after == *self
        &&& exists|held: T, other: U|
            #[trigger] effect_mmppp(
                self.f,
                world.held::<T, I>(),
                world.held::<U, J>(),
                a,
                b,
                c,
                held,
                other,
                out,
            )
                && world_after == world.holding::<T, I>(held).holding::<U, J>(other)
    }

    fn call_splat(&mut self, world: &mut World<R>, a: A, b: B, c: C) -> (out: Out) {
        broadcast use vstd::function::group_function_axioms;

        let ghost a_given = a;
        let ghost b_given = b;
        let ghost c_given = c;
        let (first, second): (&mut T, &mut U) = world.both_mut::<T, I, U, J>();
        let out = (self.f)(&mut *first, &mut *second, a, b, c);
        record(
            effect_mmppp_fact::<T, U, A, B, C, Out, F>,
            Ghost((
                old(self).f,
                old(world).held::<T, I>(),
                old(world).held::<U, J>(),
                a_given,
                b_given,
                c_given,
                *first,
                *second,
                out,
            )),
        );
        assert(effect_mmppp(
            old(self).f,
            old(world).held::<T, I>(),
            old(world).held::<U, J>(),
            a_given,
            b_given,
            c_given,
            *first,
            *second,
            out,
        ));
        out
    }
}

impl<
    R,
    T,
    I,
    U,
    J,
    A,
    B,
    C,
    Out,
    F: FnMut(&mut T, &mut U, A, B, C) -> Out,
> IntoSplatStep3<R, A, B, C, Out, (ResMut<T, I>, ResMut<U, J>)> for F where
    R: Apart<T, I, U, J>,
{
    type Step = Step<F, (ResMut<T, I>, ResMut<U, J>), Out>;

    open spec fn resolved(self) -> Step<F, (ResMut<T, I>, ResMut<U, J>), Out> {
        Step { f: self, params: PhantomData }
    }

    fn into_splat_step(
        self,
        registry: &Registry<R>,
    ) -> (step: Step<F, (ResMut<T, I>, ResMut<U, J>), Out>) {
        Step { f: self, params: PhantomData }
    }
}

/// A step that takes the parts of a 4-tuple as arguments of their own.
pub trait SplatCall4<R, A, B, C, D>: Sized {
    /// What the step produces.
    type Out;

    /// When the step may be called.
    spec fn call_splat_pre(&self, world: World<R>, a: A, b: B, c: C, d: D) -> bool;

    /// What a call may lead to: the step itself, the state it was handed, and its result.
    spec fn call_splat_post(
        &self,
        world: World<R>,
        a: A,
        b: B,
        c: C,
        d: D,
        after: Self,
        world_after: World<R>,
        out: Self::Out,
    ) -> bool;

    fn call_splat(&mut self, world: &mut World<R>, a: A, b: B, c: C, d: D) -> (out: Self::Out)
        requires
            old(self).call_splat_pre(*old(world), a, b, c, d),
        ensures
            old(self).call_splat_post(*old(world), a, b, c, d, *final(self), *final(world), out),
    ;
}

/// Turns a function into a [`SplatCall4`]. `Params` tells the shapes of function apart.
pub trait IntoSplatStep4<R, A, B, C, D, Out, Params>: Sized {
    type Step: SplatCall4<R, A, B, C, D, Out = Out>;

    /// The step that the function stands for.
    spec fn resolved(self) -> Self::Step;

    fn into_splat_step(self, registry: &Registry<R>) -> (step: Self::Step)
        ensures
            step == self.resolved(),
    ;
}

impl<
    R,
    A,
    B,
    C,
    D,
    Out,
    F: FnMut(A, B, C, D) -> Out,
> SplatCall4<R, A, B, C, D> for Step<F, (), Out> {
    type Out = Out;

    open spec fn call_splat_pre(&self, world: World<R>, a: A, b: B, c: C, d: D) -> bool {
        call_requires(self.f, (a, b, c, d))
    }

    open spec fn call_splat_post(
        &self,
        world: World<R>,
        a: A,
        b: B,
        c: C,
        d: D,
        after: Self,
        world_after: World<R>,
        out: Out,
    ) -> bool {
        &&& after == *self
        &&& world_after == world
        &&& call_ensures(self.f, (a, b, c, d), out)
    }

    fn call_splat(&mut self, world: &mut World<R>, a: A, b: B, c: C, d: D) -> (out: Out) {
        broadcast use vstd::function::group_function_axioms;

        (self.f)(a, b, c, d)
    }
}

impl<R, A, B, C, D, Out, F: FnMut(A, B, C, D) -> Out> IntoSplatStep4<R, A, B, C, D, Out, ()> for F {
    type Step = Step<F, (), Out>;

    open spec fn resolved(self) -> Step<F, (), Out> {
        Step { f: self, params: PhantomData }
    }

    fn into_splat_step(self, registry: &Registry<R>) -> (step: Step<F, (), Out>) {
        Step { f: self, params: PhantomData }
    }
}

impl<
    R,
    T,
    I,
    A,
    B,
    C,
    D,
    Out,
    F: FnMut(&T, A, B, C, D) -> Out,
> SplatCall4<R, A, B, C, D> for Step<F, Res<T, I>, Out> where
    R: Resource<T, I>,
{
    type Out = Out;

    open spec fn call_splat_pre(&self, world: World<R>, a: A, b: B, c: C, d: D) -> bool {
        call_requires(self.f, (&world.held::<T, I>(), a, b, c, d))
    }

    open spec fn call_splat_post(
        &self,
        world: World<R>,
        a: A,
        b: B,
        c: C,
        d: D,
        after: Self,
        world_after: World<R>,
        out: Out,
    ) -> bool {
        &&& after == *self
        &&& world_after == world
        &&& call_ensures(self.f, (&world.held::<T, I>(), a, b, c, d), out)
    }

    fn call_splat(&mut self, world: &mut World<R>, a: A, b: B, c: C, d: D) -> (out: Out) {
        broadcast use vstd::function::group_function_axioms;

        (self.f)(world.resource::<T, I>(), a, b, c, d)
    }
}

impl<
    R,
    T,
    I,
    A,
    B,
    C,
    D,
    Out,
    F: FnMut(&T, A, B, C, D) -> Out,
> IntoSplatStep4<R, A, B, C, D, Out, Res<T, I>> for F where
    R: Resource<T, I>,
{
    type Step = Step<F, Res<T, I>, Out>;

    open spec fn resolved(self) -> Step<F, Res<T, I>, Out> {
        Step { f: self, params: PhantomData }
    }

    fn into_splat_step(self, registry: &Registry<R>) -> (step: Step<F, Res<T, I>, Out>) {
        Step { f: self, params: PhantomData }
    }
}

impl<
    R,
    T,
    I,
    A,
    B,
    C,
    D,
    Out,
    F: FnMut(&mut T, A, B, C, D) -> Out,
> SplatCall4<R, A, B, C, D> for Step<F, ResMut<T, I>, Out> where
    R: Resource<T, I>,
{
    type Out = Out;

    open spec fn call_splat_pre(&self, world: World<R>, a: A, b: B, c: C, d: D) -> bool {
        forall|r0: &mut T| *r0 == world.held::<T, I>()
            ==> #[trigger] call_requires(self.f, (r0, a, b, c, d))
    }

    open spec fn call_splat_post(
        &self,
        world: World<R>,
        a: A,
        b: B,
        c: C,
        d: D,
        after: Self,
        world_after: World<R>,
        out: Out,
    ) -> bool {
        &&& after == *self
        &&& exists|held: T|
            #[trigger] effect_mpppp(self.f, world.held::<T, I>(), a, b, c, d, held, out)
                && world_after == world.holding::<T, I>(held)
    }

    fn call_splat(&mut self, world: &mut World<R>, a: A, b: B, c: C, d: D) -> (out: Out) {
        broadcast use vstd::function::group_function_axioms;

        let ghost a_given = a;
        let ghost b_given = b;
        let ghost c_given = c;
        let ghost d_given = d;
        let cell: &mut T = world.resource_mut::<T, I>();
        let out = (self.f)(&mut *cell, a, b, c, d);
        record(
            effect_mpppp_fact::<T, A, B, C, D, Out, F>,
            Ghost((
                old(self).f,
                old(world).held::<T, I>(),
                a_given,
                b_given,
                c_given,
                d_given,
                *cell,
                out,
            )),
        );
        assert(effect_mpppp(
            old(self).f,
            old(world).held::<T, I>(),
            a_given,
            b_given,
            c_given,
            d_given,
            *cell,
            out,
        ));
        out
    }
}

impl<
    R,
    T,
    I,
    A,
    B,
    C,
    D,
    Out,
    F: FnMut(&mut T, A, B, C, D) -> Out,
> IntoSplatStep4<R, A, B, C, D, Out, ResMut<T, I>> for F where
    R: Resource<T, I>,
{
    type Step = Step<F, ResMut<T, I>, Out>;

    open spec fn resolved(self) -> Step<F, ResMut<T, I>, Out> {
        Step { f: self, params: PhantomData }
    }

    fn into_splat_step(self, registry: &Registry<R>) -> (step: Step<F, ResMut<T, I>, Out>) {
        Step { f: self, params: PhantomData }
    }
}

impl<
    R,
    T,
    I,
    U,
    J,
    A,
    B,
    C,
    D,
    Out,
    F: FnMut(&T, &U, A, B, C, D) -> Out,
> SplatCall4<R, A, B, C, D> for Step<F, (Res<T, I>, Res<U, J>), Out> where
    R: Resource<T, I> + Resource<U, J>,
{
    type Out = Out;

    open spec fn call_splat_pre(&self, world: World<R>, a: A, b: B, c: C, d: D) -> bool {
        call_requires(self.f, (&world.held::<T, I>(), &world.held::<U, J>(), a, b, c, d))
    }

    open spec fn call_splat_post(
        &self,
        world: World<R>,
        a: A,
        b: B,
        c: C,
        d: D,
        after: Self,
        world_after: World<R>,
        out: Out,
    ) -> bool {
        &&& after == *self
        &&& world_after == world
        &&& call_ensures(self.f, (&world.held::<T, I>(), &world.held::<U, J>(), a, b, c, d), out)
    }

    fn call_splat(&mut self, world: &mut World<R>, a: A, b: B, c: C, d: D) -> (out: Out) {
        broadcast use vstd::function::group_function_axioms;

        (self.f)(world.resource::<T, I>(), world.resource::<U, J>(), a, b, c, d)
    }
}

impl<
    R,
    T,
    I,
    U,
    J,
    A,
    B,
    C,
    D,
    Out,
    F: FnMut(&T, &U, A, B, C, D) -> Out,
> IntoSplatStep4<R, A, B, C, D, Out, (Res<T, I>, Res<U, J>)> for F where
    R: Resource<T, I> + Resource<U, J>,
{
    type Step = Step<F, (Res<T, I>, Res<U, J>), Out>;

    open spec fn resolved(self) -> Step<F, (Res<T, I>, Res<U, J>), Out> {
        Step { f: self, params: PhantomData }
    }

    fn into_splat_step(
        self,
        registry: &Registry<R>,
    ) -> (step: Step<F, (Res<T, I>, Res<U, J>), Out>) {
        Step { f: self, params: PhantomData }
    }
}

impl<
    R,
    T,
    I,
    U,
    J,
    A,
    B,
    C,
    D,
    Out,
    F: FnMut(&T, &mut U, A, B, C, D) -> Out,
> SplatCall4<R, A, B, C, D> for Step<F, (Res<T, I>, ResMut<U, J>), Out> where
    R: Apart<T, I, U, J>,
{
    type Out = Out;

    open spec fn call_splat_pre(&self, world: World<R>, a: A, b: B, c: C, d: D) -> bool {
        forall|r1: &mut U| *r1 == world.held::<U, J>()
            ==> #[trigger] call_requires(self.f, (&world.held::<T, I>(), r1, a, b, c, d))
    }

    open spec fn call_splat_post(
        &self,
        world: World<R>,
        a: A,
        b: B,
        c: C,
        d: D,
        after: Self,
        world_after: World<R>,
        out: Out,
    ) -> bool {
        &&& after == *self
        &&& exists|held: U|
            #[trigger] effect_pmpppp(
                self.f,
                &world.held::<T, I>(),
                world.held::<U, J>(),
                a,
                b,
                c,
                d,
                held,
                out,
            )
                && world_after == world.holding::<U, J>(held)
    }

    fn call_splat(&mut self, world: &mut World<R>, a: A, b: B, c: C, d: D) -> (out: Out) {
        broadcast use vstd::function::group_function_axioms;

        let ghost a_given = a;
        let ghost b_given = b;
        let ghost c_given = c;
        let ghost d_given = d;
        let (first, second): (&T, &mut U) = world.beside_mut::<T, I, U, J>();
        let out = (self.f)(first, &mut *second, a, b, c, d);
        record(
            effect_pmpppp_fact::<&T, U, A, B, C, D, Out, F>,
            Ghost((
                old(self).f,
                &old(world).held::<T, I>(),
                old(world).held::<U, J>(),
                a_given,
                b_given,
                c_given,
                d_given,
                *second,
                out,
            )),
        );
        assert(effect_pmpppp(
            old(self).f,
            &old(world).held::<T, I>(),
            old(world).held::<U, J>(),
            a_given,
            b_given,
            c_given,
            d_given,
            *second,
            out,
        ));
        out
    }
}

impl<
    R,
    T,
    I,
    U,
    J,
    A,
    B,
    C,
    D,
    Out,
    F: FnMut(&T, &mut U, A, B, C, D) -> Out,
> IntoSplatStep4<R, A, B, C, D, Out, (Res<T, I>, ResMut<U, J>)> for F where
    R: Apart<T, I, U, J>,
{
    type Step = Step<F, (Res<T, I>, ResMut<U, J>), Out>;

    open spec fn resolved(self) -> Step<F, (Res<T, I>, ResMut<U, J>), Out> {
        Step { f: self, params: PhantomData }
    }

    fn into_splat_step(
        self,
        registry: &Registry<R>,
    ) -> (step: Step<F, (Res<T, I>, ResMut<U, J>), Out>) {
        Step { f: self, params: PhantomData }
    }
}

impl<
    R,
    T,
    I,
    U,
    J,
    A,
    B,
    C,
    D,
    Out,
    F: FnMut(&mut T, &U, A, B, C, D) -> Out,
> SplatCall4<R, A, B, C, D> for Step<F, (ResMut<T, I>, Res<U, J>), Out> where
    R: Apart<U, J, T, I>,
{
    type Out = Out;

    open spec fn call_splat_pre(&self, world: World<R>, a: A, b: B, c: C, d: D) -> bool {
        forall|r0: &mut T| *r0 == world.held::<T, I>()
            ==> #[trigger] call_requires(self.f, (r0, &world.held::<U, J>(), a, b, c, d))
    }

    open spec fn call_splat_post(
        &self,
        world: World<R>,
        a: A,
        b: B,
        c: C,
        d: D,
        after: Self,
        world_after: World<R>,
        out: Out,
    ) -> bool {
        &&& after == *self
        &&& exists|held: T|
            #[trigger] effect_mppppp(
                self.f,
                world.held::<T, I>(),
                &world.held::<U, J>(),
                a,
                b,
                c,
                d,
                held,
                out,
            )
                && world_after == world.holding::<T, I>(held)
    }

    fn call_splat(&mut self, world: &mut World<R>, a: A, b: B, c: C, d: D) -> (out: Out) {
        broadcast use vstd::function::group_function_axioms;

        let ghost a_given = a;
        let ghost b_given = b;
        let ghost c_given = c;
        let ghost d_given = d;
        let (second, first): (&U, &mut T) = world.beside_mut::<U, J, T, I>();
        let out = (self.f)(&mut *first, second, a, b, c, d);
        record(
            effect_mppppp_fact::<T, &U, A, B, C, D, Out, F>,
            Ghost((
                old(self).f,
                old(world).held::<T, I>(),
                &old(world).held::<U, J>(),
                a_given,
                b_given,
                c_given,
                d_given,
                *first,
                out,
            )),
        );
        assert(effect_mppppp(
            old(self).f,
            old(world).held::<T, I>(),
            &old(world).held::<U, J>(),
            a_given,
            b_given,
            c_given,
            d_given,
            *first,
            out,
        ));
        out
    }
}

impl<
    R,
    T,
    I,
    U,
    J,
    A,
    B,
    C,
    D,
    Out,
    F: FnMut(&mut T, &U, A, B, C, D) -> Out,
> IntoSplatStep4<R, A, B, C, D, Out, (ResMut<T, I>, Res<U, J>)> for F where
    R: Apart<U, J, T, I>,
{
    type Step = Step<F, (ResMut<T, I>, Res<U, J>), Out>;

    open spec fn resolved(self) -> Step<F, (ResMut<T, I>, Res<U, J>), Out> {
        Step { f: self, params: PhantomData }
    }

    fn into_splat_step(
        self,
        registry: &Registry<R>,
    ) -> (step: Step<F, (ResMut<T, I>, Res<U, J>), Out>) {
        Step { f: self, params: PhantomData }
    }
}

impl<
    R,
    T,
    I,
    U,
    J,
    A,
    B,
    C,
    D,
    Out,
    F: FnMut(&mut T, &mut U, A, B, C, D) -> Out,
> SplatCall4<R, A, B, C, D> for Step<F, (ResMut<T, I>, ResMut<U, J>), Out> where
    R: Apart<T, I, U, J>,
{
    type Out = Out;

    open spec fn call_splat_pre(&self, world: World<R>, a: A, b: B, c: C, d: D) -> bool {
        forall|r0: &mut T, r1: &mut U| *r0 == world.held::<T, I>() && *r1 == world.held::<U, J>()
            ==> #[trigger] call_requires(self.f, (r0, r1, a, b, c, d))
    }

    open spec fn call_splat_post(
        &self,
        world: World<R>,
        a: A,
        b: B,
        c: C,
        d: D,
        after: Self,
        world_after: World<R>,
        out: Out,
    ) -> bool {
        &&& after == *self
        &&& exists|held: T, other: U|
            #[trigger] effect_mmpppp(
                self.f,
                world.held::<T, I>(),
                world.held::<U, J>(),
                a,
                b,
                c,
                d,
                held,
                other,
                out,
            )
                && world_after == world.holding::<T, I>(held).holding::<U, J>(other)
    }

    fn call_splat(&mut self, world: &mut World<R>, a: A, b: B, c: C, d: D) -> (out: Out) {
        broadcast use vstd::function::group_function_axioms;

        let ghost a_given = a;
        let ghost b_given = b;
        let ghost c_given = c;
        let ghost d_given = d;
        let (first, second): (&mut T, &mut U) = world.both_mut::<T, I, U, J>();
        let out = (self.f)(&mut *first, &mut *second, a, b, c, d);
        record(
            effect_mmpppp_fact::<T, U, A, B, C, D, Out, F>,
            Ghost((
                old(self).f,
                old(world).held::<T, I>(),
                old(world).held::<U, J>(),
                a_given,
                b_given,
                c_given,
                d_given,
                *first,
                *second,
                out,
            )),
        );
        assert(effect_mmpppp(
            old(self).f,
            old(world).held::<T, I>(),
            old(world).held::<U, J>(),
            a_given,
            b_given,
            c_given,
            d_given,
            *first,
            *second,
            out,
        ));
        out
    }
}

impl<
    R,
    T,
    I,
    U,
    J,
    A,
    B,
    C,
    D,
    Out,
    F: FnMut(&mut T, &mut U, A, B, C, D) -> Out,
> IntoSplatStep4<R, A, B, C, D, Out, (ResMut<T, I>, ResMut<U, J>)> for F where
    R: Apart<T, I, U, J>,
{
    type Step = Step<F, (ResMut<T, I>, ResMut<U, J>), Out>;

    open spec fn resolved(self) -> Step<F, (ResMut<T, I>, ResMut<U, J>), Out> {
        Step { f: self, params: PhantomData }
    }

    fn into_splat_step(
        self,
        registry: &Registry<R>,
    ) -> (step: Step<F, (ResMut<T, I>, ResMut<U, J>), Out>) {
        Step { f: self, params: PhantomData }
    }
}

/// A step that takes the parts of a 5-tuple as arguments of their own.
pub trait SplatCall5<R, A, B, C, D, E>: Sized {
    /// What the step produces.
    type Out;

    /// When the step may be called.
    spec fn call_splat_pre(&self, world: World<R>, a: A, b: B, c: C, d: D, e: E) -> bool;

    /// What a call may lead to: the step itself, the state it was handed, and its result.
    spec fn call_splat_post(
        &self,
        world: World<R>,
        a: A,
        b: B,
        c: C,
        d: D,
        e: E,
        after: Self,
        world_after: World<R>,
        out: Self::Out,
    ) -> bool;

    fn call_splat(&mut self, world: &mut World<R>, a: A, b: B, c: C, d: D, e: E) -> (out: Self::Out)
        requires
            old(self).call_splat_pre(*old(world), a, b, c, d, e),
        ensures
            old(self).call_splat_post(*old(world), a, b, c, d, e, *final(self), *final(world), out),
    ;
}

/// Turns a function into a [`SplatCall5`]. `Params` tells the shapes of function apart.
pub trait IntoSplatStep5<R, A, B, C, D, E, Out, Params>: Sized {
    type Step: SplatCall5<R, A, B, C, D, E, Out = Out>;

    /// The step that the function stands for.
    spec fn resolved(self) -> Self::Step;

    fn into_splat_step(self, registry: &Registry<R>) -> (step: Self::Step)
        ensures
            step == self.resolved(),
    ;
}

impl<
    R,
    A,
    B,
    C,
    D,
    E,
    Out,
    F: FnMut(A, B, C, D, E) -> Out,
> SplatCall5<R, A, B, C, D, E> for Step<F, (), Out> {
    type Out = Out;

    open spec fn call_splat_pre(&self, world: World<R>, a: A, b: B, c: C, d: D, e: E) -> bool {
        call_requires(self.f, (a, b, c, d, e))
    }

    open spec fn call_splat_post(
        &self,
        world: World<R>,
        a: A,
        b: B,
        c: C,
        d: D,
        e: E,
        after: Self,
        world_after: World<R>,
        out: Out,
    ) -> bool {
        &&& after == *self
        &&& world_after == world
        &&& call_ensures(self.f, (a, b, c, d, e), out)
    }

    fn call_splat(&mut self, world: &mut World<R>, a: A, b: B, c: C, d: D, e: E) -> (out: Out) {
        broadcast use vstd::function::group_function_axioms;

        (self.f)(a, b, c, d, e)
    }
}

impl<
    R,
    A,
    B,
    C,
    D,
    E,
    Out,
    F: FnMut(A, B, C, D, E) -> Out,
> IntoSplatStep5<R, A, B, C, D, E, Out, ()> for F {
    type Step = Step<F, (), Out>;

    open spec fn resolved(self) -> Step<F, (), Out> {
        Step { f: self, params: PhantomData }
    }

    fn into_splat_step(self, registry: &Registry<R>) -> (step: Step<F, (), Out>) {
        Step { f: self, params: PhantomData }
    }
}

impl<
    R,
    T,
    I,
    A,
    B,
    C,
    D,
    E,
    Out,
    F: FnMut(&T, A, B, C, D, E) -> Out,
> SplatCall5<R, A, B, C, D, E> for Step<F, Res<T, I>, Out> where
    R: Resource<T, I>,
{
    type Out = Out;

    open spec fn call_splat_pre(&self, world: World<R>, a: A, b: B, c: C, d: D, e: E) -> bool {
        call_requires(self.f, (&world.held::<T, I>(), a, b, c, d, e))
    }

    open spec fn call_splat_post(
        &self,
        world: World<R>,
        a: A,
        b: B,
        c: C,
        d: D,
        e: E,
        after: Self,
        world_after: World<R>,
        out: Out,
    ) -> bool {
        &&& after == *self
        &&& world_after == world
        &&& call_ensures(self.f, (&world.held::<T, I>(), a, b, c, d, e), out)
    }

    fn call_splat(&mut self, world: &mut World<R>, a: A, b: B, c: C, d: D, e: E) -> (out: Out) {
        broadcast use vstd::function::group_function_axioms;

        (self.f)(world.resource::<T, I>(), a, b, c, d, e)
    }
}

impl<
    R,
    T,
    I,
    A,
    B,
    C,
    D,
    E,
    Out,
    F: FnMut(&T, A, B, C, D, E) -> Out,
> IntoSplatStep5<R, A, B, C, D, E, Out, Res<T, I>> for F where
    R: Resource<T, I>,
{
    type Step = Step<F, Res<T, I>, Out>;

    open spec fn resolved(self) -> Step<F, Res<T, I>, Out> {
        Step { f: self, params: PhantomData }
    }

    fn into_splat_step(self, registry: &Registry<R>) -> (step: Step<F, Res<T, I>, Out>) {
        Step { f: self, params: PhantomData }
    }
}

impl<
    R,
    T,
    I,
    A,
    B,
    C,
    D,
    E,
    Out,
    F: FnMut(&mut T, A, B, C, D, E) -> Out,
> SplatCall5<R, A, B, C, D, E> for Step<F, ResMut<T, I>, Out> where
    R: Resource<T, I>,
{
    type Out = Out;

    open spec fn call_splat_pre(&self, world: World<R>, a: A, b: B, c: C, d: D, e: E) -> bool {
        forall|r0: &mut T| *r0 == world.held::<T, I>()
            ==> #[trigger] call_requires(self.f, (r0, a, b, c, d, e))
    }

    open spec fn call_splat_post(
        &self,
        world: World<R>,
        a: A,
        b: B,
        c: C,
        d: D,
        e: E,
        after: Self,
        world_after: World<R>,
        out: Out,
    ) -> bool {
        &&& after == *self
        &&& exists|held: T|
            #[trigger] effect_mppppp(self.f, world.held::<T, I>(), a, b, c, d, e, held, out)
                && world_after == world.holding::<T, I>(held)
    }

    fn call_splat(&mut self, world: &mut World<R>, a: A, b: B, c: C, d: D, e: E) -> (out: Out) {
        broadcast use vstd::function::group_function_axioms;

        let ghost a_given = a;
        let ghost b_given = b;
        let ghost c_given = c;
        let ghost d_given = d;
        let ghost e_given = e;
        let cell: &mut T = world.resource_mut::<T, I>();
        let out = (self.f)(&mut *cell, a, b, c, d, e);
        record(
            effect_mppppp_fact::<T, A, B, C, D, E, Out, F>,
            Ghost((
                old(self).f,
                old(world).held::<T, I>(),
                a_given,
                b_given,
                c_given,
                d_given,
                e_given,
                *cell,
                out,
            )),
        );
        assert(effect_mppppp(
            old(self).f,
            old(world).held::<T, I>(),
            a_given,
            b_given,
            c_given,
            d_given,
            e_given,
            *cell,
            out,
        ));
        out
    }
}

impl<
    R,
    T,
    I,
    A,
    B,
    C,
    D,
    E,
    Out,
    F: FnMut(&mut T, A, B, C, D, E) -> Out,
> IntoSplatStep5<R, A, B, C, D, E, Out, ResMut<T, I>> for F where
    R: Resource<T, I>,
{
    type Step = Step<F, ResMut<T, I>, Out>;

    open spec fn resolved(self) -> Step<F, ResMut<T, I>, Out> {
        Step { f: self, params: PhantomData }
    }

    fn into_splat_step(self, registry: &Registry<R>) -> (step: Step<F, ResMut<T, I>, Out>) {
        Step { f: self, params: PhantomData }
    }
}

impl<
    R,
    T,
    I,
    U,
    J,
    A,
    B,
    C,
    D,
    E,
    Out,
    F: FnMut(&T, &U, A, B, C, D, E) -> Out,
> SplatCall5<R, A, B, C, D, E> for Step<F, (Res<T, I>, Res<U, J>), Out> where
    R: Resource<T, I> + Resource<U, J>,
{
    type Out = Out;

    open spec fn call_splat_pre(&self, world: World<R>, a: A, b: B, c: C, d: D, e: E) -> bool {
        call_requires(self.f, (&world.held::<T, I>(), &world.held::<U, J>(), a, b, c, d, e))
    }

    open spec fn call_splat_post(
        &self,
        world: World<R>,
        a: A,
        b: B,
        c: C,
        d: D,
        e: E,
        after: Self,
        world_after: World<R>,
        out: Out,
    ) -> bool {
        &&& after == *self
        &&& world_after == world
        &&& call_ensures(self.f, (&world.held::<T, I>(), &world.held::<U, J>(), a, b, c, d, e), out)
    }

    fn call_splat(&mut self, world: &mut World<R>, a: A, b: B, c: C, d: D, e: E) -> (out: Out) {
        broadcast use vstd::function::group_function_axioms;

        (self.f)(world.resource::<T, I>(), world.resource::<U, J>(), a, b, c, d, e)
    }
}

impl<
    R,
    T,
    I,
    U,
    J,
    A,
    B,
    C,
    D,
    E,
    Out,
    F: FnMut(&T, &U, A, B, C, D, E) -> Out,
> IntoSplatStep5<R, A, B, C, D, E, Out, (Res<T, I>, Res<U, J>)> for F where
    R: Resource<T, I> + Resource<U, J>,
{
    type Step = Step<F, (Res<T, I>, Res<U, J>), Out>;

    open spec fn resolved(self) -> Step<F, (Res<T, I>, Res<U, J>), Out> {
        Step { f: self, params: PhantomData }
    }

    fn into_splat_step(
        self,
        registry: &Registry<R>,
    ) -> (step: Step<F, (Res<T, I>, Res<U, J>), Out>) {
        Step { f: self, params: PhantomData }
    }
}

impl<
    R,
    T,
    I,
    U,
    J,
    A,
    B,
    C,
    D,
    E,
    Out,
    F: FnMut(&T, &mut U, A, B, C, D, E) -> Out,
> SplatCall5<R, A, B, C, D, E> for Step<F, (Res<T, I>, ResMut<U, J>), Out> where
    R: Apart<T, I, U, J>,
{
    type Out = Out;

    open spec fn call_splat_pre(&self, world: World<R>, a: A, b: B, c: C, d: D, e: E) -> bool {
        forall|r1: &mut U| *r1 == world.held::<U, J>()
            ==> #[trigger] call_requires(self.f, (&world.held::<T, I>(), r1, a, b, c, d, e))
    }

    open spec fn call_splat_post(
        &self,
        world: World<R>,
        a: A,
        b: B,
        c: C,
        d: D,
        e: E,
        after: Self,
        world_after: World<R>,
        out: Out,
    ) -> bool {
        &&& after == *self
        &&& exists|held: U|
            #[trigger] effect_pmppppp(
                self.f,
                &world.held::<T, I>(),
                world.held::<U, J>(),
                a,
                b,
                c,
                d,
                e,
                held,
                out,
            )
                && world_after == world.holding::<U, J>(held)
    }

    fn call_splat(&mut self, world: &mut World<R>, a: A, b: B, c: C, d: D, e: E) -> (out: Out) {
        broadcast use vstd::function::group_function_axioms;

        let ghost a_given = a;
        let ghost b_given = b;
        let ghost c_given = c;
        let ghost d_given = d;
        let ghost e_given = e;
        let (first, second): (&T, &mut U) = world.beside_mut::<T, I, U, J>();
        let out = (self.f)(first, &mut *second, a, b, c, d, e);
        record(
            effect_pmppppp_fact::<&T, U, A, B, C, D, E, Out, F>,
            Ghost((
                old(self).f,
                &old(world).held::<T, I>(),
                old(world).held::<U, J>(),
                a_given,
                b_given,
                c_given,
                d_given,
                e_given,
                *second,
                out,
            )),
        );
        assert(effect_pmppppp(
            old(self).f,
            &old(world).held::<T, I>(),
            old(world).held::<U, J>(),
            a_given,
            b_given,
            c_given,
            d_given,
            e_given,
            *second,
            out,
        ));
        out
    }
}

impl<
    R,
    T,
    I,
    U,
    J,
    A,
    B,
    C,
    D,
    E,
    Out,
    F: FnMut(&T, &mut U, A, B, C, D, E) -> Out,
> IntoSplatStep5<R, A, B, C, D, E, Out, (Res<T, I>, ResMut<U, J>)> for F where
    R: Apart<T, I, U, J>,
{
    type Step = Step<F, (Res<T, I>, ResMut<U, J>), Out>;

    open spec fn resolved(self) -> Step<F, (Res<T, I>, ResMut<U, J>), Out> {
        Step { f: self, params: PhantomData }
    }

    fn into_splat_step(
        self,
        registry: &Registry<R>,
    ) -> (step: Step<F, (Res<T, I>, ResMut<U, J>), Out>) {
        Step { f: self, params: PhantomData }
    }
}

impl<
    R,
    T,
    I,
    U,
    J,
    A,
    B,
    C,
    D,
    E,
    Out,
    F: FnMut(&mut T, &U, A, B, C, D, E) -> Out,
> SplatCall5<R, A, B, C, D, E> for Step<F, (ResMut<T, I>, Res<U, J>), Out> where
    R: Apart<U, J, T, I>,
{
    type Out = Out;

    open spec fn call_splat_pre(&self, world: World<R>, a: A, b: B, c: C, d: D, e: E) -> bool {
        forall|r0: &mut T| *r0 == world.held::<T, I>()
            ==> #[trigger] call_requires(self.f, (r0, &world.held::<U, J>(), a, b, c, d, e))
    }

    open spec fn call_splat_post(
        &self,
        world: World<R>,
        a: A,
        b: B,
        c: C,
        d: D,
        e: E,
        after: Self,
        world_after: World<R>,
        out: Out,
    ) -> bool {
        &&& after == *self
        &&& exists|held: T|
            #[trigger] effect_mpppppp(
                self.f,
                world.held::<T, I>(),
                &world.held::<U, J>(),
                a,
                b,
                c,
                d,
                e,
                held,
                out,
            )
                && world_after == world.holding::<T, I>(held)
    }

    fn call_splat(&mut self, world: &mut World<R>, a: A, b: B, c: C, d: D, e: E) -> (out: Out) {
        broadcast use vstd::function::group_function_axioms;

        let ghost a_given = a;
        let ghost b_given = b;
        let ghost c_given = c;
        let ghost d_given = d;
        let ghost e_given = e;
        let (second, first): (&U, &mut T) = world.beside_mut::<U, J, T, I>();
        let out = (self.f)(&mut *first, second, a, b, c, d, e);
        record(
            effect_mpppppp_fact::<T, &U, A, B, C, D, E, Out, F>,
            Ghost((
                old(self).f,
                old(world).held::<T, I>(),
                &old(world).held::<U, J>(),
                a_given,
                b_given,
                c_given,
                d_given,
                e_given,
                *first,
                out,
            )),
        );
        assert(effect_mpppppp(
            old(self).f,
            old(world).held::<T, I>(),
            &old(world).held::<U, J>(),
            a_given,
            b_given,
            c_given,
            d_given,
            e_given,
            *first,
            out,
        ));
        out
    }
}

impl<
    R,
    T,
    I,
    U,
    J,
    A,
    B,
    C,
    D,
    E,
    Out,
    F: FnMut(&mut T, &U, A, B, C, D, E) -> Out,
> IntoSplatStep5<R, A, B, C, D, E, Out, (ResMut<T, I>, Res<U, J>)> for F where
    R: Apart<U, J, T, I>,
{
    type Step = Step<F, (ResMut<T, I>, Res<U, J>), Out>;

    open spec fn resolved(self) -> Step<F, (ResMut<T, I>, Res<U, J>), Out> {
        Step { f: self, params: PhantomData }
    }

    fn into_splat_step(
        self,
        registry: &Registry<R>,
    ) -> (step: Step<F, (ResMut<T, I>, Res<U, J>), Out>) {
        Step { f: self, params: PhantomData }
    }
}

impl<
    R,
    T,
    I,
    U,
    J,
    A,
    B,
    C,
    D,
    E,
    Out,
    F: FnMut(&mut T, &mut U, A, B, C, D, E) -> Out,
> SplatCall5<R, A, B, C, D, E> for Step<F, (ResMut<T, I>, ResMut<U, J>), Out> where
    R: Apart<T, I, U, J>,
{
    type Out = Out;

    open spec fn call_splat_pre(&self, world: World<R>, a: A, b: B, c: C, d: D, e: E) -> bool {
        forall|r0: &mut T, r1: &mut U| *r0 == world.held::<T, I>() && *r1 == world.held::<U, J>()
            ==> #[trigger] call_requires(self.f, (r0, r1, a, b, c, d, e))
    }

    open spec fn call_splat_post(
        &self,
        world: World<R>,
        a: A,
        b: B,
        c: C,
        d: D,
        e: E,
        after: Self,
        world_after: World<R>,
        out: Out,
    ) -> bool {
        &&& after == *self
        &&& exists|held: T, other: U|
            #[trigger] effect_mmppppp(
                self.f,
                world.held::<T, I>(),
                world.held::<U, J>(),
                a,
                b,
                c,
                d,
                e,
                held,
                other,
                out,
            )
                && world_after == world.holding::<T, I>(held).holding::<U, J>(other)
    }

    fn call_splat(&mut self, world: &mut World<R>, a: A, b: B, c: C, d: D, e: E) -> (out: Out) {
        broadcast use vstd::function::group_function_axioms;

        let ghost a_given = a;
        let ghost b_given = b;
        let ghost c_given = c;
        let ghost d_given = d;
        let ghost e_given = e;
        let (first, second): (&mut T, &mut U) = world.both_mut::<T, I, U, J>();
        let out = (self.f)(&mut *first, &mut *second, a, b, c, d, e);
        record(
            effect_mmppppp_fact::<T, U, A, B, C, D, E, Out, F>,
            Ghost((
                old(self).f,
                old(world).held::<T, I>(),
                old(world).held::<U, J>(),
                a_given,
                b_given,
                c_given,
                d_given,
                e_given,
                *first,
                *second,
                out,
            )),
        );
        assert(effect_mmppppp(
            old(self).f,
            old(world).held::<T, I>(),
            old(world).held::<U, J>(),
            a_given,
            b_given,
            c_given,
            d_given,
            e_given,
            *first,
            *second,
            out,
        ));
        out
    }
}

impl<
    R,
    T,
    I,
    U,
    J,
    A,
    B,
    C,
    D,
    E,
    Out,
    F: FnMut(&mut T, &mut U, A, B, C, D, E) -> Out,
> IntoSplatStep5<R, A, B, C, D, E, Out, (ResMut<T, I>, ResMut<U, J>)> for F where
    R: Apart<T, I, U, J>,
{
    type Step = Step<F, (ResMut<T, I>, ResMut<U, J>), Out>;

    open spec fn resolved(self) -> Step<F, (ResMut<T, I>, ResMut<U, J>), Out> {
        Step { f: self, params: PhantomData }
    }

    fn into_splat_step(
        self,
        registry: &Registry<R>,
    ) -> (step: Step<F, (ResMut<T, I>, ResMut<U, J>), Out>) {
        Step { f: self, params: PhantomData }
    }
}

/// Hands the parts of a 2-tuple to a step as arguments of their own.
pub struct SplatThenNode2<Prev, S, A, B> {
    pub prev: Prev,
    pub step: S,
    pub marker: PhantomData<(A, B)>,
}

impl<
    R,
    In,
    A,
    B,
    U,
    Prev: ChainCall<R, In, Out = (A, B)>,
    S: SplatCall2<R, A, B, Out = U>,
> ChainCall<R, In> for SplatThenNode2<Prev, S, A, B> {
    type Out = U;

    open spec fn call_pre(&self, world: World<R>, input: In) -> bool {
        &&& self.prev.call_pre(world, input)
        &&& forall|prev: Prev, world_mid: World<R>, mid: (A, B)|
            #[trigger] self.prev.call_post(world, input, prev, world_mid, mid)
                ==> self.step.call_splat_pre(world_mid, mid.0, mid.1)
    }

    open spec fn call_post(
        &self,
        world: World<R>,
        input: In,
        after: Self,
        world_after: World<R>,
        out: U,
    ) -> bool {
        exists|world_mid: World<R>, mid: (A, B)|
            #[trigger] self.prev.call_post(world, input, after.prev, world_mid, mid)
                && self.step.call_splat_post(world_mid, mid.0, mid.1, after.step, world_after, out)
    }

    fn call(&mut self, world: &mut World<R>, input: In) -> (out: U) {
        let mid = self.prev.call(world, input);
        let ghost world_mid = *world;
        let out = self.step.call_splat(world, mid.0, mid.1);
        assert(old(self).prev.call_post(*old(world), input, self.prev, world_mid, mid));
        out
    }
}

/// Starts a pipeline on a 2-tuple with a step that takes its parts.
#[must_use]
pub struct SplatStart2<A, B> {
    pub marker: PhantomData<(A, B)>,
}

impl<A, B> SplatStart2<A, B> {
    pub fn then<R, Out, Params, S: IntoSplatStep2<R, A, B, Out, Params>>(
        self,
        f: S,
        registry: &Registry<R>,
    ) -> (next: PipelineChain<(A, B), Out, SplatThenNode2<IdentityNode, S::Step, A, B>>)
        ensures
            next.chain.prev == (IdentityNode {}),
            next.chain.step == f.resolved(),
    {
        PipelineChain {
            chain: SplatThenNode2 {
                prev: IdentityNode {},
                step: f.into_splat_step(registry),
                marker: PhantomData,
            },
            marker: PhantomData,
        }
    }
}

impl<A, B> PipelineBuilder<(A, B)> {
    /// Takes the input apart for the first step.
    pub fn splat(self) -> (start: SplatStart2<A, B>) {
        SplatStart2 { marker: PhantomData }
    }
}

/// A chain whose 2-tuple is taken apart for the next step.
#[must_use]
pub struct SplatBuilder2<In, A, B, Chain> {
    pub chain: Chain,
    pub marker: PhantomData<(In, A, B)>,
}

impl<In, A, B, Chain> SplatBuilder2<In, A, B, Chain> {
    pub fn then<R, Out, Params, S: IntoSplatStep2<R, A, B, Out, Params>>(
        self,
        f: S,
        registry: &Registry<R>,
    ) -> (next: PipelineChain<In, Out, SplatThenNode2<Chain, S::Step, A, B>>)
        ensures
            next.chain.prev == self.chain,
            next.chain.step == f.resolved(),
    {
        PipelineChain {
            chain: SplatThenNode2 {
                prev: self.chain,
                step: f.into_splat_step(registry),
                marker: PhantomData,
            },
            marker: PhantomData,
        }
    }
}

impl<In, A, B, Chain> PipelineChain<In, (A, B), Chain> {
    /// Takes the value apart for the next step.
    pub fn splat(self) -> (next: SplatBuilder2<In, A, B, Chain>)
        ensures
            next.chain == self.chain,
    {
        SplatBuilder2 { chain: self.chain, marker: PhantomData }
    }
}

/// Hands the parts of a 3-tuple to a step as arguments of their own.
pub struct SplatThenNode3<Prev, S, A, B, C> {
    pub prev: Prev,
    pub step: S,
    pub marker: PhantomData<(A, B, C)>,
}

impl<
    R,
    In,
    A,
    B,
    C,
    U,
    Prev: ChainCall<R, In, Out = (A, B, C)>,
    S: SplatCall3<R, A, B, C, Out = U>,
> ChainCall<R, In> for SplatThenNode3<Prev, S, A, B, C> {
    type Out = U;

    open spec fn call_pre(&self, world: World<R>, input: In) -> bool {
        &&& self.prev.call_pre(world, input)
        &&& forall|prev: Prev, world_mid: World<R>, mid: (A, B, C)|
            #[trigger] self.prev.call_post(world, input, prev, world_mid, mid)
                ==> self.step.call_splat_pre(world_mid, mid.0, mid.1, mid.2)
    }

    open spec fn call_post(
        &self,
        world: World<R>,
        input: In,
        after: Self,
        world_after: World<R>,
        out: U,
    ) -> bool {
        exists|world_mid: World<R>, mid: (A, B, C)|
            #[trigger] self.prev.call_post(world, input, after.prev, world_mid, mid)
                && self.step.call_splat_post(
                    world_mid,
                    mid.0,
                    mid.1,
                    mid.2,
                    after.step,
                    world_after,
                    out,
                )
    }

    fn call(&mut self, world: &mut World<R>, input: In) -> (out: U) {
        let mid = self.prev.call(world, input);
        let ghost world_mid = *world;
        let out = self.step.call_splat(world, mid.0, mid.1, mid.2);
        assert(old(self).prev.call_post(*old(world), input, self.prev, world_mid, mid));
        out
    }
}

/// Starts a pipeline on a 3-tuple with a step that takes its parts.
#[must_use]
pub struct SplatStart3<A, B, C> {
    pub marker: PhantomData<(A, B, C)>,
}

impl<A, B, C> SplatStart3<A, B, C> {
    pub fn then<R, Out, Params, S: IntoSplatStep3<R, A, B, C, Out, Params>>(
        self,
        f: S,
        registry: &Registry<R>,
    ) -> (next: PipelineChain<(A, B, C), Out, SplatThenNode3<IdentityNode, S::Step, A, B, C>>)
        ensures
            next.chain.prev == (IdentityNode {}),
            next.chain.step == f.resolved(),
    {
        PipelineChain {
            chain: SplatThenNode3 {
                prev: IdentityNode {},
                step: f.into_splat_step(registry),
                marker: PhantomData,
            },
            marker: PhantomData,
        }
    }
}

impl<A, B, C> PipelineBuilder<(A, B, C)> {
    /// Takes the input apart for the first step.
    pub fn splat(self) -> (start: SplatStart3<A, B, C>) {
        SplatStart3 { marker: PhantomData }
    }
}

/// A chain whose 3-tuple is taken apart for the next step.
#[must_use]
pub struct SplatBuilder3<In, A, B, C, Chain> {
    pub chain: Chain,
    pub marker: PhantomData<(In, A, B, C)>,
}

impl<In, A, B, C, Chain> SplatBuilder3<In, A, B, C, Chain> {
    pub fn then<R, Out, Params, S: IntoSplatStep3<R, A, B, C, Out, Params>>(
        self,
        f: S,
        registry: &Registry<R>,
    ) -> (next: PipelineChain<In, Out, SplatThenNode3<Chain, S::Step, A, B, C>>)
        ensures
            next.chain.prev == self.chain,
            next.chain.step == f.resolved(),
    {
        PipelineChain {
            chain: SplatThenNode3 {
                prev: self.chain,
                step: f.into_splat_step(registry),
                marker: PhantomData,
            },
            marker: PhantomData,
        }
    }
}

impl<In, A, B, C, Chain> PipelineChain<In, (A, B, C), Chain> {
    /// Takes the value apart for the next step.
    pub fn splat(self) -> (next: SplatBuilder3<In, A, B, C, Chain>)
        ensures
            next.chain == self.chain,
    {
        SplatBuilder3 { chain: self.chain, marker: PhantomData }
    }
}

/// Hands the parts of a 4-tuple to a step as arguments of their own.
pub struct SplatThenNode4<Prev, S, A, B, C, D> {
    pub prev: Prev,
    pub step: S,
    pub marker: PhantomData<(A, B, C, D)>,
}

impl<
    R,
    In,
    A,
    B,
    C,
    D,
    U,
    Prev: ChainCall<R, In, Out = (A, B, C, D)>,
    S: SplatCall4<R, A, B, C, D, Out = U>,
> ChainCall<R, In> for SplatThenNode4<Prev, S, A, B, C, D> {
    type Out = U;

    open spec fn call_pre(&self, world: World<R>, input: In) -> bool {
        &&& self.prev.call_pre(world, input)
        &&& forall|prev: Prev, world_mid: World<R>, mid: (A, B, C, D)|
            #[trigger] self.prev.call_post(world, input, prev, world_mid, mid)
                ==> self.step.call_splat_pre(world_mid, mid.0, mid.1, mid.2, mid.3)
    }

    open spec fn call_post(
        &self,
        world: World<R>,
        input: In,
        after: Self,
        world_after: World<R>,
        out: U,
    ) -> bool {
        exists|world_mid: World<R>, mid: (A, B, C, D)|
            #[trigger] self.prev.call_post(world, input, after.prev, world_mid, mid)
                && self.step.call_splat_post(
                    world_mid,
                    mid.0,
                    mid.1,
                    mid.2,
                    mid.3,
                    after.step,
                    world_after,
                    out,
                )
    }

    fn call(&mut self, world: &mut World<R>, input: In) -> (out: U) {
        let mid = self.prev.call(world, input);
        let ghost world_mid = *world;
        let out = self.step.call_splat(world, mid.0, mid.1, mid.2, mid.3);
        assert(old(self).prev.call_post(*old(world), input, self.prev, world_mid, mid));
        out
    }
}

/// Starts a pipeline on a 4-tuple with a step that takes its parts.
#[must_use]
pub struct SplatStart4<A, B, C, D> {
    pub marker: PhantomData<(A, B, C, D)>,
}

impl<A, B, C, D> SplatStart4<A, B, C, D> {
    pub fn then<R, Out, Params, S: IntoSplatStep4<R, A, B, C, D, Out, Params>>(
        self,
        f: S,
        registry: &Registry<R>,
    ) -> (next: PipelineChain<(A, B, C, D), Out, SplatThenNode4<IdentityNode, S::Step, A, B, C, D>>)
        ensures
            next.chain.prev == (IdentityNode {}),
            next.chain.step == f.resolved(),
    {
        PipelineChain {
            chain: SplatThenNode4 {
                prev: IdentityNode {},
                step: f.into_splat_step(registry),
                marker: PhantomData,
            },
            marker: PhantomData,
        }
    }
}

impl<A, B, C, D> PipelineBuilder<(A, B, C, D)> {
    /// Takes the input apart for the first step.
    pub fn splat(self) -> (start: SplatStart4<A, B, C, D>) {
        SplatStart4 { marker: PhantomData }
    }
}

/// A chain whose 4-tuple is taken apart for the next step.
#[must_use]
pub struct SplatBuilder4<In, A, B, C, D, Chain> {
    pub chain: Chain,
    pub marker: PhantomData<(In, A, B, C, D)>,
}

impl<In, A, B, C, D, Chain> SplatBuilder4<In, A, B, C, D, Chain> {
    pub fn then<R, Out, Params, S: IntoSplatStep4<R, A, B, C, D, Out, Params>>(
        self,
        f: S,
        registry: &Registry<R>,
    ) -> (next: PipelineChain<In, Out, SplatThenNode4<Chain, S::Step, A, B, C, D>>)
        ensures
            next.chain.prev == self.chain,
            next.chain.step == f.resolved(),
    {
        PipelineChain {
            chain: SplatThenNode4 {
                prev: self.chain,
                step: f.into_splat_step(registry),
                marker: PhantomData,
            },
            marker: PhantomData,
        }
    }
}

impl<In, A, B, C, D, Chain> PipelineChain<In, (A, B, C, D), Chain> {
    /// Takes the value apart for the next step.
    pub fn splat(self) -> (next: SplatBuilder4<In, A, B, C, D, Chain>)
        ensures
            next.chain == self.chain,
    {
        SplatBuilder4 { chain: self.chain, marker: PhantomData }
    }
}

/// Hands the parts of a 5-tuple to a step as arguments of their own.
pub struct SplatThenNode5<Prev, S, A, B, C, D, E> {
    pub prev: Prev,
    pub step: S,
    pub marker: PhantomData<(A, B, C, D, E)>,
}

impl<
    R,
    In,
    A,
    B,
    C,
    D,
    E,
    U,
    Prev: ChainCall<R, In, Out = (A, B, C, D, E)>,
    S: SplatCall5<R, A, B, C, D, E, Out = U>,
> ChainCall<R, In> for SplatThenNode5<Prev, S, A, B, C, D, E> {
    type Out = U;

    open spec fn call_pre(&self, world: World<R>, input: In) -> bool {
        &&& self.prev.call_pre(world, input)
        &&& forall|prev: Prev, world_mid: World<R>, mid: (A, B, C, D, E)|
            #[trigger] self.prev.call_post(world, input, prev, world_mid, mid)
                ==> self.step.call_splat_pre(world_mid, mid.0, mid.1, mid.2, mid.3, mid.4)
    }

    open spec fn call_post(
        &self,
        world: World<R>,
        input: In,
        after: Self,
        world_after: World<R>,
        out: U,
    ) -> bool {
        exists|world_mid: World<R>, mid: (A, B, C, D, E)|
            #[trigger] self.prev.call_post(world, input, after.prev, world_mid, mid)
                && self.step.call_splat_post(
                    world_mid,
                    mid.0,
                    mid.1,
                    mid.2,
                    mid.3,
                    mid.4,
                    after.step,
                    world_after,
                    out,
                )
    }

    fn call(&mut self, world: &mut World<R>, input: In) -> (out: U) {
        let mid = self.prev.call(world, input);
        let ghost world_mid = *world;
        let out = self.step.call_splat(world, mid.0, mid.1, mid.2, mid.3, mid.4);
        assert(old(self).prev.call_post(*old(world), input, self.prev, world_mid, mid));
        out
    }
}

/// Starts a pipeline on a 5-tuple with a step that takes its parts.
#[must_use]
pub struct SplatStart5<A, B, C, D, E> {
    pub marker: PhantomData<(A, B, C, D, E)>,
}

impl<A, B, C, D, E> SplatStart5<A, B, C, D, E> {
    pub fn then<R, Out, Params, S: IntoSplatStep5<R, A, B, C, D, E, Out, Params>>(
        self,
        f: S,
        registry: &Registry<R>,
    ) -> (next: PipelineChain<
        (A, B, C, D, E),
        Out,
        SplatThenNode5<IdentityNode, S::Step, A, B, C, D, E>,
    >)
        ensures
            next.chain.prev == (IdentityNode {}),
            next.chain.step == f.resolved(),
    {
        PipelineChain {
            chain: SplatThenNode5 {
                prev: IdentityNode {},
                step: f.into_splat_step(registry),
                marker: PhantomData,
            },
            marker: PhantomData,
        }
    }
}

impl<A, B, C, D, E> PipelineBuilder<(A, B, C, D, E)> {
    /// Takes the input apart for the first step.
    pub fn splat(self) -> (start: SplatStart5<A, B, C, D, E>) {
        SplatStart5 { marker: PhantomData }
    }
}

/// A chain whose 5-tuple is taken apart for the next step.
#[must_use]
pub struct SplatBuilder5<In, A, B, C, D, E, Chain> {
    pub chain: Chain,
    pub marker: PhantomData<(In, A, B, C, D, E)>,
}

impl<In, A, B, C, D, E, Chain> SplatBuilder5<In, A, B, C, D, E, Chain> {
    pub fn then<R, Out, Params, S: IntoSplatStep5<R, A, B, C, D, E, Out, Params>>(
        self,
        f: S,
        registry: &Registry<R>,
    ) -> (next: PipelineChain<In, Out, SplatThenNode5<Chain, S::Step, A, B, C, D, E>>)
        ensures
            next.chain.prev == self.chain,
            next.chain.step == f.resolved(),
    {
        PipelineChain {
            chain: SplatThenNode5 {
                prev: self.chain,
                step: f.into_splat_step(registry),
                marker: PhantomData,
            },
            marker: PhantomData,
        }
    }
}

impl<In, A, B, C, D, E, Chain> PipelineChain<In, (A, B, C, D, E), Chain> {
    /// Takes the value apart for the next step.
    pub fn splat(self) -> (next: SplatBuilder5<In, A, B, C, D, E, Chain>)
        ensures
            next.chain == self.chain,
    {
        SplatBuilder5 { chain: self.chain, marker: PhantomData }
    }
}

} // verus!
