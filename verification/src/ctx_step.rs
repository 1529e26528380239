//! Functions as steps that are handed a context besides the world.
use crate::effect::{
    effect_m, effect_m_fact, effect_mm, effect_mm_fact, effect_mmm, effect_mmm_fact, effect_mmmp,
    effect_mmmp_fact, effect_mmp, effect_mmp_fact, effect_mmpp, effect_mmpp_fact, effect_mp,
    effect_mp_fact, effect_mpm, effect_mpm_fact, effect_mpmp, effect_mpmp_fact, effect_mpp,
    effect_mpp_fact, effect_mppp, effect_mppp_fact, record,
};
use crate::handler::{NoEvent, Opaque};
use crate::world::{Apart, Registry, Res, ResMut, Resource, World};
use std::marker::PhantomData;
use vstd::prelude::*;

verus! {

/// A function that is handed the context and gives an `Out`, with the mark of its shape.
pub struct CtxStep<F, Params, Out> {
    pub f: F,
    pub params: PhantomData<(Params, Out)>,
}

/// A step that consumes its input and is handed the context.
pub trait CtxStepCall<R, C, In>: Sized {
    /// What the step produces.
    type Out;

    /// When the step may be called.
    spec fn call_pre(&self, ctx: C, world: World<R>, input: In) -> bool;

    /// What a call may lead to: the step itself, the state it was handed, and its result.
    spec fn call_post(
        &self,
        ctx: C,
        world: World<R>,
        input: In,
        after: Self,
        ctx_after: C,
        world_after: World<R>,
        out: Self::Out,
    ) -> bool;

    fn call(&mut self, ctx: &mut C, world: &mut World<R>, input: In) -> (out: Self::Out)
        requires
            old(self).call_pre(*old(ctx), *old(world), input),
        ensures
            old(self).call_post(
                *old(ctx),
                *old(world),
                input,
                *final(self),
                *final(ctx),
                *final(world),
                out,
            ),
    ;
}

/// Turns a function into a [`CtxStepCall`]. `Params` tells the shapes of function apart.
pub trait IntoCtxStep<R, C, In, Out, Params>: Sized {
    type Step: CtxStepCall<R, C, In, Out = Out>;

    /// The step that the function stands for.
    spec fn resolved(self) -> Self::Step;

    fn into_ctx_step(self, registry: &Registry<R>) -> (step: Self::Step)
        ensures
            step == self.resolved(),
    ;
}

/// A function that is handed the whole world and gives an `Out`.
pub struct CtxOpaqueStep<F, Out> {
    pub f: F,
    pub params: PhantomData<Out>,
}

impl<R, C, In, Out, F: FnMut(&mut C, In) -> Out> CtxStepCall<R, C, In> for CtxStep<F, (), Out> {
    type Out = Out;

    open spec fn call_pre(&self, ctx: C, world: World<R>, input: In) -> bool {
        forall|r0: &mut C| *r0 == ctx ==> #[trigger] call_requires(self.f, (r0, input))
    }

    open spec fn call_post(
        &self,
        ctx: C,
        world: World<R>,
        input: In,
        after: Self,
        ctx_after: C,
        world_after: World<R>,
        out: Out,
    ) -> bool {
        &&& after == *self
        &&& world_after == world
        &&& effect_mp(self.f, ctx, input, ctx_after, out)
    }

    fn call(&mut self, ctx: &mut C, world: &mut World<R>, input: In) -> (out: Out) {
        broadcast use vstd::function::group_function_axioms;

        let ghost input_given = input;
        let out = (self.f)(ctx, input);
        record(
            effect_mp_fact::<C, In, Out, F>,
            Ghost((old(self).f, *old(ctx), input_given, *ctx, out)),
        );
        out
    }
}

impl<R, C, In, Out, F: FnMut(&mut C, In) -> Out> IntoCtxStep<R, C, In, Out, ()> for F {
    type Step = CtxStep<F, (), Out>;

    open spec fn resolved(self) -> CtxStep<F, (), Out> {
        CtxStep { f: self, params: PhantomData }
    }

    fn into_ctx_step(self, registry: &Registry<R>) -> (step: CtxStep<F, (), Out>) {
        CtxStep { f: self, params: PhantomData }
    }
}

impl<
    R,
    T,
    I,
    C,
    In,
    Out,
    F: FnMut(&mut C, &T, In) -> Out,
> CtxStepCall<R, C, In> for CtxStep<F, Res<T, I>, Out> where
    R: Resource<T, I>,
{
    type Out = Out;

    open spec fn call_pre(&self, ctx: C, world: World<R>, input: In) -> bool {
        forall|r0: &mut C| *r0 == ctx
            ==> #[trigger] call_requires(self.f, (r0, &world.held::<T, I>(), input))
    }

    open spec fn call_post(
        &self,
        ctx: C,
        world: World<R>,
        input: In,
        after: Self,
        ctx_after: C,
        world_after: World<R>,
        out: Out,
    ) -> bool {
        &&& after == *self
        &&& world_after == world
        &&& effect_mpp(self.f, ctx, &world.held::<T, I>(), input, ctx_after, out)
    }

    fn call(&mut self, ctx: &mut C, world: &mut World<R>, input: In) -> (out: Out) {
        broadcast use vstd::function::group_function_axioms;

        let ghost input_given = input;
        let out = (self.f)(ctx, world.resource::<T, I>(), input);
        record(
            effect_mpp_fact::<C, &T, In, Out, F>,
            Ghost((old(self).f, *old(ctx), &old(world).held::<T, I>(), input_given, *ctx, out)),
        );
        out
    }
}

impl<
    R,
    T,
    I,
    C,
    In,
    Out,
    F: FnMut(&mut C, &T, In) -> Out,
> IntoCtxStep<R, C, In, Out, Res<T, I>> for F where
    R: Resource<T, I>,
{
    type Step = CtxStep<F, Res<T, I>, Out>;

    open spec fn resolved(self) -> CtxStep<F, Res<T, I>, Out> {
        CtxStep { f: self, params: PhantomData }
    }

    fn into_ctx_step(self, registry: &Registry<R>) -> (step: CtxStep<F, Res<T, I>, Out>) {
        CtxStep { f: self, params: PhantomData }
    }
}

impl<
    R,
    T,
    I,
    C,
    In,
    Out,
    F: FnMut(&mut C, &mut T, In) -> Out,
> CtxStepCall<R, C, In> for CtxStep<F, ResMut<T, I>, Out> where
    R: Resource<T, I>,
{
    type Out = Out;

    open spec fn call_pre(&self, ctx: C, world: World<R>, input: In) -> bool {
        forall|r0: &mut C, r1: &mut T| *r0 == ctx && *r1 == world.held::<T, I>()
            ==> #[trigger] call_requires(self.f, (r0, r1, input))
    }

    open spec fn call_post(
        &self,
        ctx: C,
        world: World<R>,
        input: In,
        after: Self,
        ctx_after: C,
        world_after: World<R>,
        out: Out,
    ) -> bool {
        &&& after == *self
        &&& exists|held: T|
            #[trigger] effect_mmp(self.f, ctx, world.held::<T, I>(), input, ctx_after, held, out)
                && world_after == world.holding::<T, I>(held)
    }

    fn call(&mut self, ctx: &mut C, world: &mut World<R>, input: In) -> (out: Out) {
        broadcast use vstd::function::group_function_axioms;

        let ghost input_given = input;
        let cell: &mut T = world.resource_mut::<T, I>();
        let out = (self.f)(ctx, &mut *cell, input);
        record(
            effect_mmp_fact::<C, T, In, Out, F>,
            Ghost((
                old(self).f,
                *old(ctx),
                old(world).held::<T, I>(),
                input_given,
                *ctx,
                *cell,
                out,
            )),
        );
        assert(effect_mmp(
            old(self).f,
            *old(ctx),
            old(world).held::<T, I>(),
            input_given,
            *ctx,
            *cell,
            out,
        ));
        out
    }
}

impl<
    R,
    T,
    I,
    C,
    In,
    Out,
    F: FnMut(&mut C, &mut T, In) -> Out,
> IntoCtxStep<R, C, In, Out, ResMut<T, I>> for F where
    R: Resource<T, I>,
{
    type Step = CtxStep<F, ResMut<T, I>, Out>;

    open spec fn resolved(self) -> CtxStep<F, ResMut<T, I>, Out> {
        CtxStep { f: self, params: PhantomData }
    }

    fn into_ctx_step(self, registry: &Registry<R>) -> (step: CtxStep<F, ResMut<T, I>, Out>) {
        CtxStep { f: self, params: PhantomData }
    }
}

impl<
    R,
    T,
    I,
    U,
    J,
    C,
    In,
    Out,
    F: FnMut(&mut C, &T, &U, In) -> Out,
> CtxStepCall<R, C, In> for CtxStep<F, (Res<T, I>, Res<U, J>), Out> where
    R: Resource<T, I> + Resource<U, J>,
{
    type Out = Out;

    open spec fn call_pre(&self, ctx: C, world: World<R>, input: In) -> bool {
        forall|r0: &mut C| *r0 == ctx
            ==> #[trigger] call_requires(
                self.f,
                (r0, &world.held::<T, I>(), &world.held::<U, J>(), input),
            )
    }

    open spec fn call_post(
        &self,
        ctx: C,
        world: World<R>,
        input: In,
        after: Self,
        ctx_after: C,
        world_after: World<R>,
        out: Out,
    ) -> bool {
        &&& after == *self
        &&& world_after == world
        &&& effect_mppp(
            self.f,
            ctx,
            &world.held::<T, I>(),
            &world.held::<U, J>(),
            input,
            ctx_after,
            out,
        )
    }

    fn call(&mut self, ctx: &mut C, world: &mut World<R>, input: In) -> (out: Out) {
        broadcast use vstd::function::group_function_axioms;

        let ghost input_given = input;
        let out = (self.f)(ctx, world.resource::<T, I>(), world.resource::<U, J>(), input);
        record(
            effect_mppp_fact::<C, &T, &U, In, Out, F>,
            Ghost((
                old(self).f,
                *old(ctx),
                &old(world).held::<T, I>(),
                &old(world).held::<U, J>(),
                input_given,
                *ctx,
                out,
            )),
        );
        out
    }
}

impl<
    R,
    T,
    I,
    U,
    J,
    C,
    In,
    Out,
    F: FnMut(&mut C, &T, &U, In) -> Out,
> IntoCtxStep<R, C, In, Out, (Res<T, I>, Res<U, J>)> for F where
    R: Resource<T, I> + Resource<U, J>,
{
    type Step = CtxStep<F, (Res<T, I>, Res<U, J>), Out>;

    open spec fn resolved(self) -> CtxStep<F, (Res<T, I>, Res<U, J>), Out> {
        CtxStep { f: self, params: PhantomData }
    }

    fn into_ctx_step(
        self,
        registry: &Registry<R>,
    ) -> (step: CtxStep<F, (Res<T, I>, Res<U, J>), Out>) {
        CtxStep { f: self, params: PhantomData }
    }
}

impl<
    R,
    T,
    I,
    U,
    J,
    C,
    In,
    Out,
    F: FnMut(&mut C, &T, &mut U, In) -> Out,
> CtxStepCall<R, C, In> for CtxStep<F, (Res<T, I>, ResMut<U, J>), Out> where
    R: Apart<T, I, U, J>,
{
    type Out = Out;

    open spec fn call_pre(&self, ctx: C, world: World<R>, input: In) -> bool {
        forall|r0: &mut C, r2: &mut U| *r0 == ctx && *r2 == world.held::<U, J>()
            ==> #[trigger] call_requires(self.f, (r0, &world.held::<T, I>(), r2, input))
    }

    open spec fn call_post(
        &self,
        ctx: C,
        world: World<R>,
        input: In,
        after: Self,
        ctx_after: C,
        world_after: World<R>,
        out: Out,
    ) -> bool {
        &&& after == *self
        &&& exists|held: U|
            #[trigger] effect_mpmp(
                self.f,
                ctx,
                &world.held::<T, I>(),
                world.held::<U, J>(),
                input,
                ctx_after,
                held,
                out,
            )
                && world_after == world.holding::<U, J>(held)
    }

    fn call(&mut self, ctx: &mut C, world: &mut World<R>, input: In) -> (out: Out) {
        broadcast use vstd::function::group_function_axioms;

        let ghost input_given = input;
        let (first, second): (&T, &mut U) = world.beside_mut::<T, I, U, J>();
        let out = (self.f)(ctx, first, &mut *second, input);
        record(
            effect_mpmp_fact::<C, &T, U, In, Out, F>,
            Ghost((
                old(self).f,
                *old(ctx),
                &old(world).held::<T, I>(),
                old(world).held::<U, J>(),
                input_given,
                *ctx,
                *second,
                out,
            )),
        );
        assert(effect_mpmp(
            old(self).f,
            *old(ctx),
            &old(world).held::<T, I>(),
            old(world).held::<U, J>(),
            input_given,
            *ctx,
            *second,
            out,
        ));
        out
    }
}

impl<
    R,
    T,
    I,
    U,
    J,
    C,
    In,
    Out,
    F: FnMut(&mut C, &T, &mut U, In) -> Out,
> IntoCtxStep<R, C, In, Out, (Res<T, I>, ResMut<U, J>)> for F where
    R: Apart<T, I, U, J>,
{
    type Step = CtxStep<F, (Res<T, I>, ResMut<U, J>), Out>;

    open spec fn resolved(self) -> CtxStep<F, (Res<T, I>, ResMut<U, J>), Out> {
        CtxStep { f: self, params: PhantomData }
    }

    fn into_ctx_step(
        self,
        registry: &Registry<R>,
    ) -> (step: CtxStep<F, (Res<T, I>, ResMut<U, J>), Out>) {
        CtxStep { f: self, params: PhantomData }
    }
}

impl<
    R,
    T,
    I,
    U,
    J,
    C,
    In,
    Out,
    F: FnMut(&mut C, &mut T, &U, In) -> Out,
> CtxStepCall<R, C, In> for CtxStep<F, (ResMut<T, I>, Res<U, J>), Out> where
    R: Apart<U, J, T, I>,
{
    type Out = Out;

    open spec fn call_pre(&self, ctx: C, world: World<R>, input: In) -> bool {
        forall|r0: &mut C, r1: &mut T| *r0 == ctx && *r1 == world.held::<T, I>()
            ==> #[trigger] call_requires(self.f, (r0, r1, &world.held::<U, J>(), input))
    }

    open spec fn call_post(
        &self,
        ctx: C,
        world: World<R>,
        input: In,
        after: Self,
        ctx_after: C,
        world_after: World<R>,
        out: Out,
    ) -> bool {
        &&& after == *self
        &&& exists|held: T|
            #[trigger] effect_mmpp(
                self.f,
                ctx,
                world.held::<T, I>(),
                &world.held::<U, J>(),
                input,
                ctx_after,
                held,
                out,
            )
                && world_after == world.holding::<T, I>(held)
    }

    fn call(&mut self, ctx: &mut C, world: &mut World<R>, input: In) -> (out: Out) {
        broadcast use vstd::function::group_function_axioms;

        let ghost input_given = input;
        let (second, first): (&U, &mut T) = world.beside_mut::<U, J, T, I>();
        let out = (self.f)(ctx, &mut *first, second, input);
        record(
            effect_mmpp_fact::<C, T, &U, In, Out, F>,
            Ghost((
                old(self).f,
                *old(ctx),
                old(world).held::<T, I>(),
                &old(world).held::<U, J>(),
                input_given,
                *ctx,
                *first,
                out,
            )),
        );
        assert(effect_mmpp(
            old(self).f,
            *old(ctx),
            old(world).held::<T, I>(),
            &old(world).held::<U, J>(),
            input_given,
            *ctx,
            *first,
            out,
        ));
        out
    }
}

impl<
    R,
    T,
    I,
    U,
    J,
    C,
    In,
    Out,
    F: FnMut(&mut C, &mut T, &U, In) -> Out,
> IntoCtxStep<R, C, In, Out, (ResMut<T, I>, Res<U, J>)> for F where
    R: Apart<U, J, T, I>,
{
    type Step = CtxStep<F, (ResMut<T, I>, Res<U, J>), Out>;

    open spec fn resolved(self) -> CtxStep<F, (ResMut<T, I>, Res<U, J>), Out> {
        CtxStep { f: self, params: PhantomData }
    }

    fn into_ctx_step(
        self,
        registry: &Registry<R>,
    ) -> (step: CtxStep<F, (ResMut<T, I>, Res<U, J>), Out>) {
        CtxStep { f: self, params: PhantomData }
    }
}

impl<
    R,
    T,
    I,
    U,
    J,
    C,
    In,
    Out,
    F: FnMut(&mut C, &mut T, &mut U, In) -> Out,
> CtxStepCall<R, C, In> for CtxStep<F, (ResMut<T, I>, ResMut<U, J>), Out> where
    R: Apart<T, I, U, J>,
{
    type Out = Out;

    open spec fn call_pre(&self, ctx: C, world: World<R>, input: In) -> bool {
        forall|r0: &mut C, r1: &mut T, r2: &mut U| *r0 == ctx
            && *r1 == world.held::<T, I>()
            && *r2 == world.held::<U, J>()
            ==> #[trigger] call_requires(self.f, (r0, r1, r2, input))
    }

    open spec fn call_post(
        &self,
        ctx: C,
        world: World<R>,
        input: In,
        after: Self,
        ctx_after: C,
        world_after: World<R>,
        out: Out,
    ) -> bool {
        &&& after == *self
        &&& exists|held: T, other: U|
            #[trigger] effect_mmmp(
                self.f,
                ctx,
                world.held::<T, I>(),
                world.held::<U, J>(),
                input,
                ctx_after,
                held,
                other,
                out,
            )
                && world_after == world.holding::<T, I>(held).holding::<U, J>(other)
    }

    fn call(&mut self, ctx: &mut C, world: &mut World<R>, input: In) -> (out: Out) {
        broadcast use vstd::function::group_function_axioms;

        let ghost input_given = input;
        let (first, second): (&mut T, &mut U) = world.both_mut::<T, I, U, J>();
        let out = (self.f)(ctx, &mut *first, &mut *second, input);
        record(
            effect_mmmp_fact::<C, T, U, In, Out, F>,
            Ghost((
                old(self).f,
                *old(ctx),
                old(world).held::<T, I>(),
                old(world).held::<U, J>(),
                input_given,
                *ctx,
                *first,
                *second,
                out,
            )),
        );
        assert(effect_mmmp(
            old(self).f,
            *old(ctx),
            old(world).held::<T, I>(),
            old(world).held::<U, J>(),
            input_given,
            *ctx,
            *first,
            *second,
            out,
        ));
        out
    }
}

impl<
    R,
    T,
    I,
    U,
    J,
    C,
    In,
    Out,
    F: FnMut(&mut C, &mut T, &mut U, In) -> Out,
> IntoCtxStep<R, C, In, Out, (ResMut<T, I>, ResMut<U, J>)> for F where
    R: Apart<T, I, U, J>,
{
    type Step = CtxStep<F, (ResMut<T, I>, ResMut<U, J>), Out>;

    open spec fn resolved(self) -> CtxStep<F, (ResMut<T, I>, ResMut<U, J>), Out> {
        CtxStep { f: self, params: PhantomData }
    }

    fn into_ctx_step(
        self,
        registry: &Registry<R>,
    ) -> (step: CtxStep<F, (ResMut<T, I>, ResMut<U, J>), Out>) {
        CtxStep { f: self, params: PhantomData }
    }
}

impl<
    R,
    C,
    In,
    Out,
    F: FnMut(&mut C, &mut World<R>, In) -> Out,
> CtxStepCall<R, C, In> for CtxOpaqueStep<F, Out> {
    type Out = Out;

    open spec fn call_pre(&self, ctx: C, world: World<R>, input: In) -> bool {
        forall|r0: &mut C, r1: &mut World<R>| *r0 == ctx && *r1 == world
            ==> #[trigger] call_requires(self.f, (r0, r1, input))
    }

    open spec fn call_post(
        &self,
        ctx: C,
        world: World<R>,
        input: In,
        after: Self,
        ctx_after: C,
        world_after: World<R>,
        out: Out,
    ) -> bool {
        &&& after == *self
        &&& effect_mmp(self.f, ctx, world, input, ctx_after, world_after, out)
    }

    fn call(&mut self, ctx: &mut C, world: &mut World<R>, input: In) -> (out: Out) {
        broadcast use vstd::function::group_function_axioms;

        let ghost input_given = input;
        let out = (self.f)(ctx, world, input);
        record(
            effect_mmp_fact::<C, World<R>, In, Out, F>,
            Ghost((old(self).f, *old(ctx), *old(world), input_given, *ctx, *world, out)),
        );
        out
    }
}

impl<
    R,
    C,
    In,
    Out,
    F: FnMut(&mut C, &mut World<R>, In) -> Out,
> IntoCtxStep<R, C, In, Out, Opaque> for F {
    type Step = CtxOpaqueStep<F, Out>;

    open spec fn resolved(self) -> CtxOpaqueStep<F, Out> {
        CtxOpaqueStep { f: self, params: PhantomData }
    }

    fn into_ctx_step(self, registry: &Registry<R>) -> (step: CtxOpaqueStep<F, Out>) {
        CtxOpaqueStep { f: self, params: PhantomData }
    }
}

impl<R, C, Out, F: FnMut(&mut C) -> Out> CtxStepCall<R, C, ()> for CtxStep<NoEvent<F>, (), Out> {
    type Out = Out;

    open spec fn call_pre(&self, ctx: C, world: World<R>, input: ()) -> bool {
        forall|r0: &mut C| *r0 == ctx ==> #[trigger] call_requires(self.f.0, (r0,))
    }

    open spec fn call_post(
        &self,
        ctx: C,
        world: World<R>,
        input: (),
        after: Self,
        ctx_after: C,
        world_after: World<R>,
        out: Out,
    ) -> bool {
        &&& after == *self
        &&& world_after == world
        &&& effect_m(self.f.0, ctx, ctx_after, out)
    }

    fn call(&mut self, ctx: &mut C, world: &mut World<R>, input: ()) -> (out: Out) {
        broadcast use vstd::function::group_function_axioms;

        let out = (self.f.0)(ctx);
        record(
            effect_m_fact::<C, Out, F>,
            Ghost((old(self).f.0, *old(ctx), *ctx, out)),
        );
        out
    }
}

impl<R, C, Out, F: FnMut(&mut C) -> Out> IntoCtxStep<R, C, (), Out, NoEvent<F>> for F {
    type Step = CtxStep<NoEvent<F>, (), Out>;

    open spec fn resolved(self) -> CtxStep<NoEvent<F>, (), Out> {
        CtxStep { f: NoEvent(self), params: PhantomData }
    }

    fn into_ctx_step(self, registry: &Registry<R>) -> (step: CtxStep<NoEvent<F>, (), Out>) {
        CtxStep { f: NoEvent(self), params: PhantomData }
    }
}

impl<
    R,
    T,
    I,
    C,
    Out,
    F: FnMut(&mut C, &T) -> Out,
> CtxStepCall<R, C, ()> for CtxStep<NoEvent<F>, Res<T, I>, Out> where
    R: Resource<T, I>,
{
    type Out = Out;

    open spec fn call_pre(&self, ctx: C, world: World<R>, input: ()) -> bool {
        forall|r0: &mut C| *r0 == ctx
            ==> #[trigger] call_requires(self.f.0, (r0, &world.held::<T, I>()))
    }

    open spec fn call_post(
        &self,
        ctx: C,
        world: World<R>,
        input: (),
        after: Self,
        ctx_after: C,
        world_after: World<R>,
        out: Out,
    ) -> bool {
        &&& after == *self
        &&& world_after == world
        &&& effect_mp(self.f.0, ctx, &world.held::<T, I>(), ctx_after, out)
    }

    fn call(&mut self, ctx: &mut C, world: &mut World<R>, input: ()) -> (out: Out) {
        broadcast use vstd::function::group_function_axioms;

        let out = (self.f.0)(ctx, world.resource::<T, I>());
        record(
            effect_mp_fact::<C, &T, Out, F>,
            Ghost((old(self).f.0, *old(ctx), &old(world).held::<T, I>(), *ctx, out)),
        );
        out
    }
}

impl<
    R,
    T,
    I,
    C,
    Out,
    F: FnMut(&mut C, &T) -> Out,
> IntoCtxStep<R, C, (), Out, Res<T, I>> for NoEvent<F> where
    R: Resource<T, I>,
{
    type Step = CtxStep<NoEvent<F>, Res<T, I>, Out>;

    open spec fn resolved(self) -> CtxStep<NoEvent<F>, Res<T, I>, Out> {
        CtxStep { f: self, params: PhantomData }
    }

    fn into_ctx_step(self, registry: &Registry<R>) -> (step: CtxStep<NoEvent<F>, Res<T, I>, Out>) {
        CtxStep { f: self, params: PhantomData }
    }
}

impl<
    R,
    T,
    I,
    C,
    Out,
    F: FnMut(&mut C, &mut T) -> Out,
> CtxStepCall<R, C, ()> for CtxStep<NoEvent<F>, ResMut<T, I>, Out> where
    R: Resource<T, I>,
{
    type Out = Out;

    open spec fn call_pre(&self, ctx: C, world: World<R>, input: ()) -> bool {
        forall|r0: &mut C, r1: &mut T| *r0 == ctx && *r1 == world.held::<T, I>()
            ==> #[trigger] call_requires(self.f.0, (r0, r1))
    }

    open spec fn call_post(
        &self,
        ctx: C,
        world: World<R>,
        input: (),
        after: Self,
        ctx_after: C,
        world_after: World<R>,
        out: Out,
    ) -> bool {
        &&& after == *self
        &&& exists|held: T|
            #[trigger] effect_mm(self.f.0, ctx, world.held::<T, I>(), ctx_after, held, out)
                && world_after == world.holding::<T, I>(held)
    }

    fn call(&mut self, ctx: &mut C, world: &mut World<R>, input: ()) -> (out: Out) {
        broadcast use vstd::function::group_function_axioms;

        let cell: &mut T = world.resource_mut::<T, I>();
        let out = (self.f.0)(ctx, &mut *cell);
        record(
            effect_mm_fact::<C, T, Out, F>,
            Ghost((old(self).f.0, *old(ctx), old(world).held::<T, I>(), *ctx, *cell, out)),
        );
        assert(effect_mm(old(self).f.0, *old(ctx), old(world).held::<T, I>(), *ctx, *cell, out));
        out
    }
}

impl<
    R,
    T,
    I,
    C,
    Out,
    F: FnMut(&mut C, &mut T) -> Out,
> IntoCtxStep<R, C, (), Out, ResMut<T, I>> for NoEvent<F> where
    R: Resource<T, I>,
{
    type Step = CtxStep<NoEvent<F>, ResMut<T, I>, Out>;

    open spec fn resolved(self) -> CtxStep<NoEvent<F>, ResMut<T, I>, Out> {
        CtxStep { f: self, params: PhantomData }
    }

    fn into_ctx_step(
        self,
        registry: &Registry<R>,
    ) -> (step: CtxStep<NoEvent<F>, ResMut<T, I>, Out>) {
        CtxStep { f: self, params: PhantomData }
    }
}

impl<
    R,
    T,
    I,
    U,
    J,
    C,
    Out,
    F: FnMut(&mut C, &T, &U) -> Out,
> CtxStepCall<R, C, ()> for CtxStep<NoEvent<F>, (Res<T, I>, Res<U, J>), Out> where
    R: Resource<T, I> + Resource<U, J>,
{
    type Out = Out;

    open spec fn call_pre(&self, ctx: C, world: World<R>, input: ()) -> bool {
        forall|r0: &mut C| *r0 == ctx
            ==> #[trigger] call_requires(
                self.f.0,
                (r0, &world.held::<T, I>(), &world.held::<U, J>()),
            )
    }

    open spec fn call_post(
        &self,
        ctx: C,
        world: World<R>,
        input: (),
        after: Self,
        ctx_after: C,
        world_after: World<R>,
        out: Out,
    ) -> bool {
        &&& after == *self
        &&& world_after == world
        &&& effect_mpp(self.f.0, ctx, &world.held::<T, I>(), &world.held::<U, J>(), ctx_after, out)
    }

    fn call(&mut self, ctx: &mut C, world: &mut World<R>, input: ()) -> (out: Out) {
        broadcast use vstd::function::group_function_axioms;

        let out = (self.f.0)(ctx, world.resource::<T, I>(), world.resource::<U, J>());
        record(
            effect_mpp_fact::<C, &T, &U, Out, F>,
            Ghost((
                old(self).f.0,
                *old(ctx),
                &old(world).held::<T, I>(),
                &old(world).held::<U, J>(),
                *ctx,
                out,
            )),
        );
        out
    }
}

impl<
    R,
    T,
    I,
    U,
    J,
    C,
    Out,
    F: FnMut(&mut C, &T, &U) -> Out,
> IntoCtxStep<R, C, (), Out, (Res<T, I>, Res<U, J>)> for NoEvent<F> where
    R: Resource<T, I> + Resource<U, J>,
{
    type Step = CtxStep<NoEvent<F>, (Res<T, I>, Res<U, J>), Out>;

    open spec fn resolved(self) -> CtxStep<NoEvent<F>, (Res<T, I>, Res<U, J>), Out> {
        CtxStep { f: self, params: PhantomData }
    }

    fn into_ctx_step(
        self,
        registry: &Registry<R>,
    ) -> (step: CtxStep<NoEvent<F>, (Res<T, I>, Res<U, J>), Out>) {
        CtxStep { f: self, params: PhantomData }
    }
}

impl<
    R,
    T,
    I,
    U,
    J,
    C,
    Out,
    F: FnMut(&mut C, &T, &mut U) -> Out,
> CtxStepCall<R, C, ()> for CtxStep<NoEvent<F>, (Res<T, I>, ResMut<U, J>), Out> where
    R: Apart<T, I, U, J>,
{
    type Out = Out;

    open spec fn call_pre(&self, ctx: C, world: World<R>, input: ()) -> bool {
        forall|r0: &mut C, r2: &mut U| *r0 == ctx && *r2 == world.held::<U, J>()
            ==> #[trigger] call_requires(self.f.0, (r0, &world.held::<T, I>(), r2))
    }

    open spec fn call_post(
        &self,
        ctx: C,
        world: World<R>,
        input: (),
        after: Self,
        ctx_after: C,
        world_after: World<R>,
        out: Out,
    ) -> bool {
        &&& after == *self
        &&& exists|held: U|
            #[trigger] effect_mpm(
                self.f.0,
                ctx,
                &world.held::<T, I>(),
                world.held::<U, J>(),
                ctx_after,
                held,
                out,
            )
                && world_after == world.holding::<U, J>(held)
    }

    fn call(&mut self, ctx: &mut C, world: &mut World<R>, input: ()) -> (out: Out) {
        broadcast use vstd::function::group_function_axioms;

        let (first, second): (&T, &mut U) = world.beside_mut::<T, I, U, J>();
        let out = (self.f.0)(ctx, first, &mut *second);
        record(
            effect_mpm_fact::<C, &T, U, Out, F>,
            Ghost((
                old(self).f.0,
                *old(ctx),
                &old(world).held::<T, I>(),
                old(world).held::<U, J>(),
                *ctx,
                *second,
                out,
            )),
        );
        assert(effect_mpm(
            old(self).f.0,
            *old(ctx),
            &old(world).held::<T, I>(),
            old(world).held::<U, J>(),
            *ctx,
            *second,
            out,
        ));
        out
    }
}

impl<
    R,
    T,
    I,
    U,
    J,
    C,
    Out,
    F: FnMut(&mut C, &T, &mut U) -> Out,
> IntoCtxStep<R, C, (), Out, (Res<T, I>, ResMut<U, J>)> for NoEvent<F> where
    R: Apart<T, I, U, J>,
{
    type Step = CtxStep<NoEvent<F>, (Res<T, I>, ResMut<U, J>), Out>;

    open spec fn resolved(self) -> CtxStep<NoEvent<F>, (Res<T, I>, ResMut<U, J>), Out> {
        CtxStep { f: self, params: PhantomData }
    }

    fn into_ctx_step(
        self,
        registry: &Registry<R>,
    ) -> (step: CtxStep<NoEvent<F>, (Res<T, I>, ResMut<U, J>), Out>) {
        CtxStep { f: self, params: PhantomData }
    }
}

impl<
    R,
    T,
    I,
    U,
    J,
    C,
    Out,
    F: FnMut(&mut C, &mut T, &U) -> Out,
> CtxStepCall<R, C, ()> for CtxStep<NoEvent<F>, (ResMut<T, I>, Res<U, J>), Out> where
    R: Apart<U, J, T, I>,
{
    type Out = Out;

    open spec fn call_pre(&self, ctx: C, world: World<R>, input: ()) -> bool {
        forall|r0: &mut C, r1: &mut T| *r0 == ctx && *r1 == world.held::<T, I>()
            ==> #[trigger] call_requires(self.f.0, (r0, r1, &world.held::<U, J>()))
    }

    open spec fn call_post(
        &self,
        ctx: C,
        world: World<R>,
        input: (),
        after: Self,
        ctx_after: C,
        world_after: World<R>,
        out: Out,
    ) -> bool {
        &&& after == *self
        &&& exists|held: T|
            #[trigger] effect_mmp(
                self.f.0,
                ctx,
                world.held::<T, I>(),
                &world.held::<U, J>(),
                ctx_after,
                held,
                out,
            )
                && world_after == world.holding::<T, I>(held)
    }

    fn call(&mut self, ctx: &mut C, world: &mut World<R>, input: ()) -> (out: Out) {
        broadcast use vstd::function::group_function_axioms;

        let (second, first): (&U, &mut T) = world.beside_mut::<U, J, T, I>();
        let out = (self.f.0)(ctx, &mut *first, second);
        record(
            effect_mmp_fact::<C, T, &U, Out, F>,
            Ghost((
                old(self).f.0,
                *old(ctx),
                old(world).held::<T, I>(),
                &old(world).held::<U, J>(),
                *ctx,
                *first,
                out,
            )),
        );
        assert(effect_mmp(
            old(self).f.0,
            *old(ctx),
            old(world).held::<T, I>(),
            &old(world).held::<U, J>(),
            *ctx,
            *first,
            out,
        ));
        out
    }
}

impl<
    R,
    T,
    I,
    U,
    J,
    C,
    Out,
    F: FnMut(&mut C, &mut T, &U) -> Out,
> IntoCtxStep<R, C, (), Out, (ResMut<T, I>, Res<U, J>)> for NoEvent<F> where
    R: Apart<U, J, T, I>,
{
    type Step = CtxStep<NoEvent<F>, (ResMut<T, I>, Res<U, J>), Out>;

    open spec fn resolved(self) -> CtxStep<NoEvent<F>, (ResMut<T, I>, Res<U, J>), Out> {
        CtxStep { f: self, params: PhantomData }
    }

    fn into_ctx_step(
        self,
        registry: &Registry<R>,
    ) -> (step: CtxStep<NoEvent<F>, (ResMut<T, I>, Res<U, J>), Out>) {
        CtxStep { f: self, params: PhantomData }
    }
}

impl<
    R,
    T,
    I,
    U,
    J,
    C,
    Out,
    F: FnMut(&mut C, &mut T, &mut U) -> Out,
> CtxStepCall<R, C, ()> for CtxStep<NoEvent<F>, (ResMut<T, I>, ResMut<U, J>), Out> where
    R: Apart<T, I, U, J>,
{
    type Out = Out;

    open spec fn call_pre(&self, ctx: C, world: World<R>, input: ()) -> bool {
        forall|r0: &mut C, r1: &mut T, r2: &mut U| *r0 == ctx
            && *r1 == world.held::<T, I>()
            && *r2 == world.held::<U, J>()
            ==> #[trigger] call_requires(self.f.0, (r0, r1, r2))
    }

    open spec fn call_post(
        &self,
        ctx: C,
        world: World<R>,
        input: (),
        after: Self,
        ctx_after: C,
        world_after: World<R>,
        out: Out,
    ) -> bool {
        &&& after == *self
        &&& exists|held: T, other: U|
            #[trigger] effect_mmm(
                self.f.0,
                ctx,
                world.held::<T, I>(),
                world.held::<U, J>(),
                ctx_after,
                held,
                other,
                out,
            )
                && world_after == world.holding::<T, I>(held).holding::<U, J>(other)
    }

    fn call(&mut self, ctx: &mut C, world: &mut World<R>, input: ()) -> (out: Out) {
        broadcast use vstd::function::group_function_axioms;

        let (first, second): (&mut T, &mut U) = world.both_mut::<T, I, U, J>();
        let out = (self.f.0)(ctx, &mut *first, &mut *second);
        record(
            effect_mmm_fact::<C, T, U, Out, F>,
            Ghost((
                old(self).f.0,
                *old(ctx),
                old(world).held::<T, I>(),
                old(world).held::<U, J>(),
                *ctx,
                *first,
                *second,
                out,
            )),
        );
        assert(effect_mmm(
            old(self).f.0,
            *old(ctx),
            old(world).held::<T, I>(),
            old(world).held::<U, J>(),
            *ctx,
            *first,
            *second,
            out,
        ));
        out
    }
}

impl<
    R,
    T,
    I,
    U,
    J,
    C,
    Out,
    F: FnMut(&mut C, &mut T, &mut U) -> Out,
> IntoCtxStep<R, C, (), Out, (ResMut<T, I>, ResMut<U, J>)> for NoEvent<F> where
    R: Apart<T, I, U, J>,
{
    type Step = CtxStep<NoEvent<F>, (ResMut<T, I>, ResMut<U, J>), Out>;

    open spec fn resolved(self) -> CtxStep<NoEvent<F>, (ResMut<T, I>, ResMut<U, J>), Out> {
        CtxStep { f: self, params: PhantomData }
    }

    fn into_ctx_step(
        self,
        registry: &Registry<R>,
    ) -> (step: CtxStep<NoEvent<F>, (ResMut<T, I>, ResMut<U, J>), Out>) {
        CtxStep { f: self, params: PhantomData }
    }
}

/// A step that is handed the context, looks at its input and leaves it where it is.
pub trait CtxRefStepCall<R, C, In>: Sized {
    /// What the step produces.
    type Out;

    /// When the step may be called.
    spec fn call_pre(&self, ctx: C, world: World<R>, input: &In) -> bool;

    /// What a call may lead to: the step itself, the state it was handed, and its result.
    spec fn call_post(
        &self,
        ctx: C,
        world: World<R>,
        input: &In,
        after: Self,
        ctx_after: C,
        world_after: World<R>,
        out: Self::Out,
    ) -> bool;

    fn call(&mut self, ctx: &mut C, world: &mut World<R>, input: &In) -> (out: Self::Out)
        requires
            old(self).call_pre(*old(ctx), *old(world), input),
        ensures
            old(self).call_post(
                *old(ctx),
                *old(world),
                input,
                *final(self),
                *final(ctx),
                *final(world),
                out,
            ),
    ;
}

/// Turns a function into a [`CtxRefStepCall`]. `Params` tells the shapes of function apart.
pub trait IntoCtxRefStep<R, C, In, Out, Params>: Sized {
    type Step: CtxRefStepCall<R, C, In, Out = Out>;

    /// The step that the function stands for.
    spec fn resolved(self) -> Self::Step;

    fn into_ctx_ref_step(self, registry: &Registry<R>) -> (step: Self::Step)
        ensures
            step == self.resolved(),
    ;
}

/// A function that is handed the whole world and gives an `Out`.
pub struct CtxOpaqueRefStep<F, Out> {
    pub f: F,
    pub params: PhantomData<Out>,
}

impl<R, C, In, Out, F: FnMut(&mut C, &In) -> Out> CtxRefStepCall<R, C, In> for CtxStep<F, (), Out> {
    type Out = Out;

    open spec fn call_pre(&self, ctx: C, world: World<R>, input: &In) -> bool {
        forall|r0: &mut C| *r0 == ctx ==> #[trigger] call_requires(self.f, (r0, input))
    }

    open spec fn call_post(
        &self,
        ctx: C,
        world: World<R>,
        input: &In,
        after: Self,
        ctx_after: C,
        world_after: World<R>,
        out: Out,
    ) -> bool {
        &&& after == *self
        &&& world_after == world
        &&& effect_mp(self.f, ctx, input, ctx_after, out)
    }

    fn call(&mut self, ctx: &mut C, world: &mut World<R>, input: &In) -> (out: Out) {
        broadcast use vstd::function::group_function_axioms;

        let ghost input_given = input;
        let out = (self.f)(ctx, input);
        record(
            effect_mp_fact::<C, &In, Out, F>,
            Ghost((old(self).f, *old(ctx), input_given, *ctx, out)),
        );
        out
    }
}

impl<R, C, In, Out, F: FnMut(&mut C, &In) -> Out> IntoCtxRefStep<R, C, In, Out, ()> for F {
    type Step = CtxStep<F, (), Out>;

    open spec fn resolved(self) -> CtxStep<F, (), Out> {
        CtxStep { f: self, params: PhantomData }
    }

    fn into_ctx_ref_step(self, registry: &Registry<R>) -> (step: CtxStep<F, (), Out>) {
        CtxStep { f: self, params: PhantomData }
    }
}

impl<
    R,
    T,
    I,
    C,
    In,
    Out,
    F: FnMut(&mut C, &T, &In) -> Out,
> CtxRefStepCall<R, C, In> for CtxStep<F, Res<T, I>, Out> where
    R: Resource<T, I>,
{
    type Out = Out;

    open spec fn call_pre(&self, ctx: C, world: World<R>, input: &In) -> bool {
        forall|r0: &mut C| *r0 == ctx
            ==> #[trigger] call_requires(self.f, (r0, &world.held::<T, I>(), input))
    }

    open spec fn call_post(
        &self,
        ctx: C,
        world: World<R>,
        input: &In,
        after: Self,
        ctx_after: C,
        world_after: World<R>,
        out: Out,
    ) -> bool {
        &&& after == *self
        &&& world_after == world
        &&& effect_mpp(self.f, ctx, &world.held::<T, I>(), input, ctx_after, out)
    }

    fn call(&mut self, ctx: &mut C, world: &mut World<R>, input: &In) -> (out: Out) {
        broadcast use vstd::function::group_function_axioms;

        let ghost input_given = input;
        let out = (self.f)(ctx, world.resource::<T, I>(), input);
        record(
            effect_mpp_fact::<C, &T, &In, Out, F>,
            Ghost((old(self).f, *old(ctx), &old(world).held::<T, I>(), input_given, *ctx, out)),
        );
        out
    }
}

impl<
    R,
    T,
    I,
    C,
    In,
    Out,
    F: FnMut(&mut C, &T, &In) -> Out,
> IntoCtxRefStep<R, C, In, Out, Res<T, I>> for F where
    R: Resource<T, I>,
{
    type Step = CtxStep<F, Res<T, I>, Out>;

    open spec fn resolved(self) -> CtxStep<F, Res<T, I>, Out> {
        CtxStep { f: self, params: PhantomData }
    }

    fn into_ctx_ref_step(self, registry: &Registry<R>) -> (step: CtxStep<F, Res<T, I>, Out>) {
        CtxStep { f: self, params: PhantomData }
    }
}

impl<
    R,
    T,
    I,
    C,
    In,
    Out,
    F: FnMut(&mut C, &mut T, &In) -> Out,
> CtxRefStepCall<R, C, In> for CtxStep<F, ResMut<T, I>, Out> where
    R: Resource<T, I>,
{
    type Out = Out;

    open spec fn call_pre(&self, ctx: C, world: World<R>, input: &In) -> bool {
        forall|r0: &mut C, r1: &mut T| *r0 == ctx && *r1 == world.held::<T, I>()
            ==> #[trigger] call_requires(self.f, (r0, r1, input))
    }

    open spec fn call_post(
        &self,
        ctx: C,
        world: World<R>,
        input: &In,
        after: Self,
        ctx_after: C,
        world_after: World<R>,
        out: Out,
    ) -> bool {
        &&& after == *self
        &&& exists|held: T|
            #[trigger] effect_mmp(self.f, ctx, world.held::<T, I>(), input, ctx_after, held, out)
                && world_after == world.holding::<T, I>(held)
    }

    fn call(&mut self, ctx: &mut C, world: &mut World<R>, input: &In) -> (out: Out) {
        broadcast use vstd::function::group_function_axioms;

        let ghost input_given = input;
        let cell: &mut T = world.resource_mut::<T, I>();
        let out = (self.f)(ctx, &mut *cell, input);
        record(
            effect_mmp_fact::<C, T, &In, Out, F>,
            Ghost((
                old(self).f,
                *old(ctx),
                old(world).held::<T, I>(),
                input_given,
                *ctx,
                *cell,
                out,
            )),
        );
        assert(effect_mmp(
            old(self).f,
            *old(ctx),
            old(world).held::<T, I>(),
            input_given,
            *ctx,
            *cell,
            out,
        ));
        out
    }
}

impl<
    R,
    T,
    I,
    C,
    In,
    Out,
    F: FnMut(&mut C, &mut T, &In) -> Out,
> IntoCtxRefStep<R, C, In, Out, ResMut<T, I>> for F where
    R: Resource<T, I>,
{
    type Step = CtxStep<F, ResMut<T, I>, Out>;

    open spec fn resolved(self) -> CtxStep<F, ResMut<T, I>, Out> {
        CtxStep { f: self, params: PhantomData }
    }

    fn into_ctx_ref_step(self, registry: &Registry<R>) -> (step: CtxStep<F, ResMut<T, I>, Out>) {
        CtxStep { f: self, params: PhantomData }
    }
}

impl<
    R,
    T,
    I,
    U,
    J,
    C,
    In,
    Out,
    F: FnMut(&mut C, &T, &U, &In) -> Out,
> CtxRefStepCall<R, C, In> for CtxStep<F, (Res<T, I>, Res<U, J>), Out> where
    R: Resource<T, I> + Resource<U, J>,
{
    type Out = Out;

    open spec fn call_pre(&self, ctx: C, world: World<R>, input: &In) -> bool {
        forall|r0: &mut C| *r0 == ctx
            ==> #[trigger] call_requires(
                self.f,
                (r0, &world.held::<T, I>(), &world.held::<U, J>(), input),
            )
    }

    open spec fn call_post(
        &self,
        ctx: C,
        world: World<R>,
        input: &In,
        after: Self,
        ctx_after: C,
        world_after: World<R>,
        out: Out,
    ) -> bool {
        &&& after == *self
        &&& world_after == world
        &&& effect_mppp(
            self.f,
            ctx,
            &world.held::<T, I>(),
            &world.held::<U, J>(),
            input,
            ctx_after,
            out,
        )
    }

    fn call(&mut self, ctx: &mut C, world: &mut World<R>, input: &In) -> (out: Out) {
        broadcast use vstd::function::group_function_axioms;

        let ghost input_given = input;
        let out = (self.f)(ctx, world.resource::<T, I>(), world.resource::<U, J>(), input);
        record(
            effect_mppp_fact::<C, &T, &U, &In, Out, F>,
            Ghost((
                old(self).f,
                *old(ctx),
                &old(world).held::<T, I>(),
                &old(world).held::<U, J>(),
                input_given,
                *ctx,
                out,
            )),
        );
        out
    }
}

impl<
    R,
    T,
    I,
    U,
    J,
    C,
    In,
    Out,
    F: FnMut(&mut C, &T, &U, &In) -> Out,
> IntoCtxRefStep<R, C, In, Out, (Res<T, I>, Res<U, J>)> for F where
    R: Resource<T, I> + Resource<U, J>,
{
    type Step = CtxStep<F, (Res<T, I>, Res<U, J>), Out>;

    open spec fn resolved(self) -> CtxStep<F, (Res<T, I>, Res<U, J>), Out> {
        CtxStep { f: self, params: PhantomData }
    }

    fn into_ctx_ref_step(
        self,
        registry: &Registry<R>,
    ) -> (step: CtxStep<F, (Res<T, I>, Res<U, J>), Out>) {
        CtxStep { f: self, params: PhantomData }
    }
}

impl<
    R,
    T,
    I,
    U,
    J,
    C,
    In,
    Out,
    F: FnMut(&mut C, &T, &mut U, &In) -> Out,
> CtxRefStepCall<R, C, In> for CtxStep<F, (Res<T, I>, ResMut<U, J>), Out> where
    R: Apart<T, I, U, J>,
{
    type Out = Out;

    open spec fn call_pre(&self, ctx: C, world: World<R>, input: &In) -> bool {
        forall|r0: &mut C, r2: &mut U| *r0 == ctx && *r2 == world.held::<U, J>()
            ==> #[trigger] call_requires(self.f, (r0, &world.held::<T, I>(), r2, input))
    }

    open spec fn call_post(
        &self,
        ctx: C,
        world: World<R>,
        input: &In,
        after: Self,
        ctx_after: C,
        world_after: World<R>,
        out: Out,
    ) -> bool {
        &&& after == *self
        &&& exists|held: U|
            #[trigger] effect_mpmp(
                self.f,
                ctx,
                &world.held::<T, I>(),
                world.held::<U, J>(),
                input,
                ctx_after,
                held,
                out,
            )
                && world_after == world.holding::<U, J>(held)
    }

    fn call(&mut self, ctx: &mut C, world: &mut World<R>, input: &In) -> (out: Out) {
        broadcast use vstd::function::group_function_axioms;

        let ghost input_given = input;
        let (first, second): (&T, &mut U) = world.beside_mut::<T, I, U, J>();
        let out = (self.f)(ctx, first, &mut *second, input);
        record(
            effect_mpmp_fact::<C, &T, U, &In, Out, F>,
            Ghost((
                old(self).f,
                *old(ctx),
                &old(world).held::<T, I>(),
                old(world).held::<U, J>(),
                input_given,
                *ctx,
                *second,
                out,
            )),
        );
        assert(effect_mpmp(
            old(self).f,
            *old(ctx),
            &old(world).held::<T, I>(),
            old(world).held::<U, J>(),
            input_given,
            *ctx,
            *second,
            out,
        ));
        out
    }
}

impl<
    R,
    T,
    I,
    U,
    J,
    C,
    In,
    Out,
    F: FnMut(&mut C, &T, &mut U, &In) -> Out,
> IntoCtxRefStep<R, C, In, Out, (Res<T, I>, ResMut<U, J>)> for F where
    R: Apart<T, I, U, J>,
{
    type Step = CtxStep<F, (Res<T, I>, ResMut<U, J>), Out>;

    open spec fn resolved(self) -> CtxStep<F, (Res<T, I>, ResMut<U, J>), Out> {
        CtxStep { f: self, params: PhantomData }
    }

    fn into_ctx_ref_step(
        self,
        registry: &Registry<R>,
    ) -> (step: CtxStep<F, (Res<T, I>, ResMut<U, J>), Out>) {
        CtxStep { f: self, params: PhantomData }
    }
}

impl<
    R,
    T,
    I,
    U,
    J,
    C,
    In,
    Out,
    F: FnMut(&mut C, &mut T, &U, &In) -> Out,
> CtxRefStepCall<R, C, In> for CtxStep<F, (ResMut<T, I>, Res<U, J>), Out> where
    R: Apart<U, J, T, I>,
{
    type Out = Out;

    open spec fn call_pre(&self, ctx: C, world: World<R>, input: &In) -> bool {
        forall|r0: &mut C, r1: &mut T| *r0 == ctx && *r1 == world.held::<T, I>()
            ==> #[trigger] call_requires(self.f, (r0, r1, &world.held::<U, J>(), input))
    }

    open spec fn call_post(
        &self,
        ctx: C,
        world: World<R>,
        input: &In,
        after: Self,
        ctx_after: C,
        world_after: World<R>,
        out: Out,
    ) -> bool {
        &&& after == *self
        &&& exists|held: T|
            #[trigger] effect_mmpp(
                self.f,
                ctx,
                world.held::<T, I>(),
                &world.held::<U, J>(),
                input,
                ctx_after,
                held,
                out,
            )
                && world_after == world.holding::<T, I>(held)
    }

    fn call(&mut self, ctx: &mut C, world: &mut World<R>, input: &In) -> (out: Out) {
        broadcast use vstd::function::group_function_axioms;

        let ghost input_given = input;
        let (second, first): (&U, &mut T) = world.beside_mut::<U, J, T, I>();
        let out = (self.f)(ctx, &mut *first, second, input);
        record(
            effect_mmpp_fact::<C, T, &U, &In, Out, F>,
            Ghost((
                old(self).f,
                *old(ctx),
                old(world).held::<T, I>(),
                &old(world).held::<U, J>(),
                input_given,
                *ctx,
                *first,
                out,
            )),
        );
        assert(effect_mmpp(
            old(self).f,
            *old(ctx),
            old(world).held::<T, I>(),
            &old(world).held::<U, J>(),
            input_given,
            *ctx,
            *first,
            out,
        ));
        out
    }
}

impl<
    R,
    T,
    I,
    U,
    J,
    C,
    In,
    Out,
    F: FnMut(&mut C, &mut T, &U, &In) -> Out,
> IntoCtxRefStep<R, C, In, Out, (ResMut<T, I>, Res<U, J>)> for F where
    R: Apart<U, J, T, I>,
{
    type Step = CtxStep<F, (ResMut<T, I>, Res<U, J>), Out>;

    open spec fn resolved(self) -> CtxStep<F, (ResMut<T, I>, Res<U, J>), Out> {
        CtxStep { f: self, params: PhantomData }
    }

    fn into_ctx_ref_step(
        self,
        registry: &Registry<R>,
    ) -> (step: CtxStep<F, (ResMut<T, I>, Res<U, J>), Out>) {
        CtxStep { f: self, params: PhantomData }
    }
}

impl<
    R,
    T,
    I,
    U,
    J,
    C,
    In,
    Out,
    F: FnMut(&mut C, &mut T, &mut U, &In) -> Out,
> CtxRefStepCall<R, C, In> for CtxStep<F, (ResMut<T, I>, ResMut<U, J>), Out> where
    R: Apart<T, I, U, J>,
{
    type Out = Out;

    open spec fn call_pre(&self, ctx: C, world: World<R>, input: &In) -> bool {
        forall|r0: &mut C, r1: &mut T, r2: &mut U| *r0 == ctx
            && *r1 == world.held::<T, I>()
            && *r2 == world.held::<U, J>()
            ==> #[trigger] call_requires(self.f, (r0, r1, r2, input))
    }

    open spec fn call_post(
        &self,
        ctx: C,
        world: World<R>,
        input: &In,
        after: Self,
        ctx_after: C,
        world_after: World<R>,
        out: Out,
    ) -> bool {
        &&& after == *self
        &&& exists|held: T, other: U|
            #[trigger] effect_mmmp(
                self.f,
                ctx,
                world.held::<T, I>(),
                world.held::<U, J>(),
                input,
                ctx_after,
                held,
                other,
                out,
            )
                && world_after == world.holding::<T, I>(held).holding::<U, J>(other)
    }

    fn call(&mut self, ctx: &mut C, world: &mut World<R>, input: &In) -> (out: Out) {
        broadcast use vstd::function::group_function_axioms;

        let ghost input_given = input;
        let (first, second): (&mut T, &mut U) = world.both_mut::<T, I, U, J>();
        let out = (self.f)(ctx, &mut *first, &mut *second, input);
        record(
            effect_mmmp_fact::<C, T, U, &In, Out, F>,
            Ghost((
                old(self).f,
                *old(ctx),
                old(world).held::<T, I>(),
                old(world).held::<U, J>(),
                input_given,
                *ctx,
                *first,
                *second,
                out,
            )),
        );
        assert(effect_mmmp(
            old(self).f,
            *old(ctx),
            old(world).held::<T, I>(),
            old(world).held::<U, J>(),
            input_given,
            *ctx,
            *first,
            *second,
            out,
        ));
        out
    }
}

impl<
    R,
    T,
    I,
    U,
    J,
    C,
    In,
    Out,
    F: FnMut(&mut C, &mut T, &mut U, &In) -> Out,
> IntoCtxRefStep<R, C, In, Out, (ResMut<T, I>, ResMut<U, J>)> for F where
    R: Apart<T, I, U, J>,
{
    type Step = CtxStep<F, (ResMut<T, I>, ResMut<U, J>), Out>;

    open spec fn resolved(self) -> CtxStep<F, (ResMut<T, I>, ResMut<U, J>), Out> {
        CtxStep { f: self, params: PhantomData }
    }

    fn into_ctx_ref_step(
        self,
        registry: &Registry<R>,
    ) -> (step: CtxStep<F, (ResMut<T, I>, ResMut<U, J>), Out>) {
        CtxStep { f: self, params: PhantomData }
    }
}

impl<
    R,
    C,
    In,
    Out,
    F: FnMut(&mut C, &mut World<R>, &In) -> Out,
> CtxRefStepCall<R, C, In> for CtxOpaqueRefStep<F, Out> {
    type Out = Out;

    open spec fn call_pre(&self, ctx: C, world: World<R>, input: &In) -> bool {
        forall|r0: &mut C, r1: &mut World<R>| *r0 == ctx && *r1 == world
            ==> #[trigger] call_requires(self.f, (r0, r1, input))
    }

    open spec fn call_post(
        &self,
        ctx: C,
        world: World<R>,
        input: &In,
        after: Self,
        ctx_after: C,
        world_after: World<R>,
        out: Out,
    ) -> bool {
        &&& after == *self
        &&& effect_mmp(self.f, ctx, world, input, ctx_after, world_after, out)
    }

    fn call(&mut self, ctx: &mut C, world: &mut World<R>, input: &In) -> (out: Out) {
        broadcast use vstd::function::group_function_axioms;

        let ghost input_given = input;
        let out = (self.f)(ctx, world, input);
        record(
            effect_mmp_fact::<C, World<R>, &In, Out, F>,
            Ghost((old(self).f, *old(ctx), *old(world), input_given, *ctx, *world, out)),
        );
        out
    }
}

impl<
    R,
    C,
    In,
    Out,
    F: FnMut(&mut C, &mut World<R>, &In) -> Out,
> IntoCtxRefStep<R, C, In, Out, Opaque> for F {
    type Step = CtxOpaqueRefStep<F, Out>;

    open spec fn resolved(self) -> CtxOpaqueRefStep<F, Out> {
        CtxOpaqueRefStep { f: self, params: PhantomData }
    }

    fn into_ctx_ref_step(self, registry: &Registry<R>) -> (step: CtxOpaqueRefStep<F, Out>) {
        CtxOpaqueRefStep { f: self, params: PhantomData }
    }
}

/// A step without input that is handed the context.
pub trait CtxProducerCall<R, C>: Sized {
    /// What the step produces.
    type Out;

    /// When the step may be called.
    spec fn call_pre(&self, ctx: C, world: World<R>) -> bool;

    /// What a call may lead to: the step itself, the state it was handed, and its result.
    spec fn call_post(
        &self,
        ctx: C,
        world: World<R>,
        after: Self,
        ctx_after: C,
        world_after: World<R>,
        out: Self::Out,
    ) -> bool;

    fn call(&mut self, ctx: &mut C, world: &mut World<R>) -> (out: Self::Out)
        requires
            old(self).call_pre(*old(ctx), *old(world)),
        ensures
            old(self).call_post(
                *old(ctx),
                *old(world),
                *final(self),
                *final(ctx),
                *final(world),
                out,
            ),
    ;
}

/// Turns a function into a [`CtxProducerCall`]. `Params` tells the shapes of function apart.
pub trait IntoCtxProducer<R, C, Out, Params>: Sized {
    type Step: CtxProducerCall<R, C, Out = Out>;

    /// The step that the function stands for.
    spec fn resolved(self) -> Self::Step;

    fn into_ctx_producer(self, registry: &Registry<R>) -> (step: Self::Step)
        ensures
            step == self.resolved(),
    ;
}

/// A function that is handed the whole world and gives an `Out`.
pub struct CtxOpaqueProducer<F, Out> {
    pub f: F,
    pub params: PhantomData<Out>,
}

impl<R, C, Out, F: FnMut(&mut C) -> Out> CtxProducerCall<R, C> for CtxStep<F, (), Out> {
    type Out = Out;

    open spec fn call_pre(&self, ctx: C, world: World<R>) -> bool {
        forall|r0: &mut C| *r0 == ctx ==> #[trigger] call_requires(self.f, (r0,))
    }

    open spec fn call_post(
        &self,
        ctx: C,
        world: World<R>,
        after: Self,
        ctx_after: C,
        world_after: World<R>,
        out: Out,
    ) -> bool {
        &&& after == *self
        &&& world_after == world
        &&& effect_m(self.f, ctx, ctx_after, out)
    }

    fn call(&mut self, ctx: &mut C, world: &mut World<R>) -> (out: Out) {
        broadcast use vstd::function::group_function_axioms;

        let out = (self.f)(ctx);
        record(
            effect_m_fact::<C, Out, F>,
            Ghost((old(self).f, *old(ctx), *ctx, out)),
        );
        out
    }
}

impl<R, C, Out, F: FnMut(&mut C) -> Out> IntoCtxProducer<R, C, Out, ()> for F {
    type Step = CtxStep<F, (), Out>;

    open spec fn resolved(self) -> CtxStep<F, (), Out> {
        CtxStep { f: self, params: PhantomData }
    }

    fn into_ctx_producer(self, registry: &Registry<R>) -> (step: CtxStep<F, (), Out>) {
        CtxStep { f: self, params: PhantomData }
    }
}

impl<
    R,
    T,
    I,
    C,
    Out,
    F: FnMut(&mut C, &T) -> Out,
> CtxProducerCall<R, C> for CtxStep<F, Res<T, I>, Out> where
    R: Resource<T, I>,
{
    type Out = Out;

    open spec fn call_pre(&self, ctx: C, world: World<R>) -> bool {
        forall|r0: &mut C| *r0 == ctx
            ==> #[trigger] call_requires(self.f, (r0, &world.held::<T, I>()))
    }

    open spec fn call_post(
        &self,
        ctx: C,
        world: World<R>,
        after: Self,
        ctx_after: C,
        world_after: World<R>,
        out: Out,
    ) -> bool {
        &&& after == *self
        &&& world_after == world
        &&& effect_mp(self.f, ctx, &world.held::<T, I>(), ctx_after, out)
    }

    fn call(&mut self, ctx: &mut C, world: &mut World<R>) -> (out: Out) {
        broadcast use vstd::function::group_function_axioms;

        let out = (self.f)(ctx, world.resource::<T, I>());
        record(
            effect_mp_fact::<C, &T, Out, F>,
            Ghost((old(self).f, *old(ctx), &old(world).held::<T, I>(), *ctx, out)),
        );
        out
    }
}

impl<R, T, I, C, Out, F: FnMut(&mut C, &T) -> Out> IntoCtxProducer<R, C, Out, Res<T, I>> for F where
    R: Resource<T, I>,
{
    type Step = CtxStep<F, Res<T, I>, Out>;

    open spec fn resolved(self) -> CtxStep<F, Res<T, I>, Out> {
        CtxStep { f: self, params: PhantomData }
    }

    fn into_ctx_producer(self, registry: &Registry<R>) -> (step: CtxStep<F, Res<T, I>, Out>) {
        CtxStep { f: self, params: PhantomData }
    }
}

impl<
    R,
    T,
    I,
    C,
    Out,
    F: FnMut(&mut C, &mut T) -> Out,
> CtxProducerCall<R, C> for CtxStep<F, ResMut<T, I>, Out> where
    R: Resource<T, I>,
{
    type Out = Out;

    open spec fn call_pre(&self, ctx: C, world: World<R>) -> bool {
        forall|r0: &mut C, r1: &mut T| *r0 == ctx && *r1 == world.held::<T, I>()
            ==> #[trigger] call_requires(self.f, (r0, r1))
    }

    open spec fn call_post(
        &self,
        ctx: C,
        world: World<R>,
        after: Self,
        ctx_after: C,
        world_after: World<R>,
        out: Out,
    ) -> bool {
        &&& after == *self
        &&& exists|held: T|
            #[trigger] effect_mm(self.f, ctx, world.held::<T, I>(), ctx_after, held, out)
                && world_after == world.holding::<T, I>(held)
    }

    fn call(&mut self, ctx: &mut C, world: &mut World<R>) -> (out: Out) {
        broadcast use vstd::function::group_function_axioms;

        let cell: &mut T = world.resource_mut::<T, I>();
        let out = (self.f)(ctx, &mut *cell);
        record(
            effect_mm_fact::<C, T, Out, F>,
            Ghost((old(self).f, *old(ctx), old(world).held::<T, I>(), *ctx, *cell, out)),
        );
        assert(effect_mm(old(self).f, *old(ctx), old(world).held::<T, I>(), *ctx, *cell, out));
        out
    }
}

impl<
    R,
    T,
    I,
    C,
    Out,
    F: FnMut(&mut C, &mut T) -> Out,
> IntoCtxProducer<R, C, Out, ResMut<T, I>> for F where
    R: Resource<T, I>,
{
    type Step = CtxStep<F, ResMut<T, I>, Out>;

    open spec fn resolved(self) -> CtxStep<F, ResMut<T, I>, Out> {
        CtxStep { f: self, params: PhantomData }
    }

    fn into_ctx_producer(self, registry: &Registry<R>) -> (step: CtxStep<F, ResMut<T, I>, Out>) {
        CtxStep { f: self, params: PhantomData }
    }
}

impl<
    R,
    T,
    I,
    U,
    J,
    C,
    Out,
    F: FnMut(&mut C, &T, &U) -> Out,
> CtxProducerCall<R, C> for CtxStep<F, (Res<T, I>, Res<U, J>), Out> where
    R: Resource<T, I> + Resource<U, J>,
{
    type Out = Out;

    open spec fn call_pre(&self, ctx: C, world: World<R>) -> bool {
        forall|r0: &mut C| *r0 == ctx
            ==> #[trigger] call_requires(self.f, (r0, &world.held::<T, I>(), &world.held::<U, J>()))
    }

    open spec fn call_post(
        &self,
        ctx: C,
        world: World<R>,
        after: Self,
        ctx_after: C,
        world_after: World<R>,
        out: Out,
    ) -> bool {
        &&& after == *self
        &&& world_after == world
        &&& effect_mpp(self.f, ctx, &world.held::<T, I>(), &world.held::<U, J>(), ctx_after, out)
    }

    fn call(&mut self, ctx: &mut C, world: &mut World<R>) -> (out: Out) {
        broadcast use vstd::function::group_function_axioms;

        let out = (self.f)(ctx, world.resource::<T, I>(), world.resource::<U, J>());
        record(
            effect_mpp_fact::<C, &T, &U, Out, F>,
            Ghost((
                old(self).f,
                *old(ctx),
                &old(world).held::<T, I>(),
                &old(world).held::<U, J>(),
                *ctx,
                out,
            )),
        );
        out
    }
}

impl<
    R,
    T,
    I,
    U,
    J,
    C,
    Out,
    F: FnMut(&mut C, &T, &U) -> Out,
> IntoCtxProducer<R, C, Out, (Res<T, I>, Res<U, J>)> for F where
    R: Resource<T, I> + Resource<U, J>,
{
    type Step = CtxStep<F, (Res<T, I>, Res<U, J>), Out>;

    open spec fn resolved(self) -> CtxStep<F, (Res<T, I>, Res<U, J>), Out> {
        CtxStep { f: self, params: PhantomData }
    }

    fn into_ctx_producer(
        self,
        registry: &Registry<R>,
    ) -> (step: CtxStep<F, (Res<T, I>, Res<U, J>), Out>) {
        CtxStep { f: self, params: PhantomData }
    }
}

impl<
    R,
    T,
    I,
    U,
    J,
    C,
    Out,
    F: FnMut(&mut C, &T, &mut U) -> Out,
> CtxProducerCall<R, C> for CtxStep<F, (Res<T, I>, ResMut<U, J>), Out> where
    R: Apart<T, I, U, J>,
{
    type Out = Out;

    open spec fn call_pre(&self, ctx: C, world: World<R>) -> bool {
        forall|r0: &mut C, r2: &mut U| *r0 == ctx && *r2 == world.held::<U, J>()
            ==> #[trigger] call_requires(self.f, (r0, &world.held::<T, I>(), r2))
    }

    open spec fn call_post(
        &self,
        ctx: C,
        world: World<R>,
        after: Self,
        ctx_after: C,
        world_after: World<R>,
        out: Out,
    ) -> bool {
        &&& after == *self
        &&& exists|held: U|
            #[trigger] effect_mpm(
                self.f,
                ctx,
                &world.held::<T, I>(),
                world.held::<U, J>(),
                ctx_after,
                held,
                out,
            )
                && world_after == world.holding::<U, J>(held)
    }

    fn call(&mut self, ctx: &mut C, world: &mut World<R>) -> (out: Out) {
        broadcast use vstd::function::group_function_axioms;

        let (first, second): (&T, &mut U) = world.beside_mut::<T, I, U, J>();
        let out = (self.f)(ctx, first, &mut *second);
        record(
            effect_mpm_fact::<C, &T, U, Out, F>,
            Ghost((
                old(self).f,
                *old(ctx),
                &old(world).held::<T, I>(),
                old(world).held::<U, J>(),
                *ctx,
                *second,
                out,
            )),
        );
        assert(effect_mpm(
            old(self).f,
            *old(ctx),
            &old(world).held::<T, I>(),
            old(world).held::<U, J>(),
            *ctx,
            *second,
            out,
        ));
        out
    }
}

impl<
    R,
    T,
    I,
    U,
    J,
    C,
    Out,
    F: FnMut(&mut C, &T, &mut U) -> Out,
> IntoCtxProducer<R, C, Out, (Res<T, I>, ResMut<U, J>)> for F where
    R: Apart<T, I, U, J>,
{
    type Step = CtxStep<F, (Res<T, I>, ResMut<U, J>), Out>;

    open spec fn resolved(self) -> CtxStep<F, (Res<T, I>, ResMut<U, J>), Out> {
        CtxStep { f: self, params: PhantomData }
    }

    fn into_ctx_producer(
        self,
        registry: &Registry<R>,
    ) -> (step: CtxStep<F, (Res<T, I>, ResMut<U, J>), Out>) {
        CtxStep { f: self, params: PhantomData }
    }
}

impl<
    R,
    T,
    I,
    U,
    J,
    C,
    Out,
    F: FnMut(&mut C, &mut T, &U) -> Out,
> CtxProducerCall<R, C> for CtxStep<F, (ResMut<T, I>, Res<U, J>), Out> where
    R: Apart<U, J, T, I>,
{
    type Out = Out;

    open spec fn call_pre(&self, ctx: C, world: World<R>) -> bool {
        forall|r0: &mut C, r1: &mut T| *r0 == ctx && *r1 == world.held::<T, I>()
            ==> #[trigger] call_requires(self.f, (r0, r1, &world.held::<U, J>()))
    }

    open spec fn call_post(
        &self,
        ctx: C,
        world: World<R>,
        after: Self,
        ctx_after: C,
        world_after: World<R>,
        out: Out,
    ) -> bool {
        &&& after == *self
        &&& exists|held: T|
            #[trigger] effect_mmp(
                self.f,
                ctx,
                world.held::<T, I>(),
                &world.held::<U, J>(),
                ctx_after,
                held,
                out,
            )
                && world_after == world.holding::<T, I>(held)
    }

    fn call(&mut self, ctx: &mut C, world: &mut World<R>) -> (out: Out) {
        broadcast use vstd::function::group_function_axioms;

        let (second, first): (&U, &mut T) = world.beside_mut::<U, J, T, I>();
        let out = (self.f)(ctx, &mut *first, second);
        record(
            effect_mmp_fact::<C, T, &U, Out, F>,
            Ghost((
                old(self).f,
                *old(ctx),
                old(world).held::<T, I>(),
                &old(world).held::<U, J>(),
                *ctx,
                *first,
                out,
            )),
        );
        assert(effect_mmp(
            old(self).f,
            *old(ctx),
            old(world).held::<T, I>(),
            &old(world).held::<U, J>(),
            *ctx,
            *first,
            out,
        ));
        out
    }
}

impl<
    R,
    T,
    I,
    U,
    J,
    C,
    Out,
    F: FnMut(&mut C, &mut T, &U) -> Out,
> IntoCtxProducer<R, C, Out, (ResMut<T, I>, Res<U, J>)> for F where
    R: Apart<U, J, T, I>,
{
    type Step = CtxStep<F, (ResMut<T, I>, Res<U, J>), Out>;

    open spec fn resolved(self) -> CtxStep<F, (ResMut<T, I>, Res<U, J>), Out> {
        CtxStep { f: self, params: PhantomData }
    }

    fn into_ctx_producer(
        self,
        registry: &Registry<R>,
    ) -> (step: CtxStep<F, (ResMut<T, I>, Res<U, J>), Out>) {
        CtxStep { f: self, params: PhantomData }
    }
}

impl<
    R,
    T,
    I,
    U,
    J,
    C,
    Out,
    F: FnMut(&mut C, &mut T, &mut U) -> Out,
> CtxProducerCall<R, C> for CtxStep<F, (ResMut<T, I>, ResMut<U, J>), Out> where
    R: Apart<T, I, U, J>,
{
    type Out = Out;

    open spec fn call_pre(&self, ctx: C, world: World<R>) -> bool {
        forall|r0: &mut C, r1: &mut T, r2: &mut U| *r0 == ctx
            && *r1 == world.held::<T, I>()
            && *r2 == world.held::<U, J>()
            ==> #[trigger] call_requires(self.f, (r0, r1, r2))
    }

    open spec fn call_post(
        &self,
        ctx: C,
        world: World<R>,
        after: Self,
        ctx_after: C,
        world_after: World<R>,
        out: Out,
    ) -> bool {
        &&& after == *self
        &&& exists|held: T, other: U|
            #[trigger] effect_mmm(
                self.f,
                ctx,
                world.held::<T, I>(),
                world.held::<U, J>(),
                ctx_after,
                held,
                other,
                out,
            )
                && world_after == world.holding::<T, I>(held).holding::<U, J>(other)
    }

    fn call(&mut self, ctx: &mut C, world: &mut World<R>) -> (out: Out) {
        broadcast use vstd::function::group_function_axioms;

        let (first, second): (&mut T, &mut U) = world.both_mut::<T, I, U, J>();
        let out = (self.f)(ctx, &mut *first, &mut *second);
        record(
            effect_mmm_fact::<C, T, U, Out, F>,
            Ghost((
                old(self).f,
                *old(ctx),
                old(world).held::<T, I>(),
                old(world).held::<U, J>(),
                *ctx,
                *first,
                *second,
                out,
            )),
        );
        assert(effect_mmm(
            old(self).f,
            *old(ctx),
            old(world).held::<T, I>(),
            old(world).held::<U, J>(),
            *ctx,
            *first,
            *second,
            out,
        ));
        out
    }
}

impl<
    R,
    T,
    I,
    U,
    J,
    C,
    Out,
    F: FnMut(&mut C, &mut T, &mut U) -> Out,
> IntoCtxProducer<R, C, Out, (ResMut<T, I>, ResMut<U, J>)> for F where
    R: Apart<T, I, U, J>,
{
    type Step = CtxStep<F, (ResMut<T, I>, ResMut<U, J>), Out>;

    open spec fn resolved(self) -> CtxStep<F, (ResMut<T, I>, ResMut<U, J>), Out> {
        CtxStep { f: self, params: PhantomData }
    }

    fn into_ctx_producer(
        self,
        registry: &Registry<R>,
    ) -> (step: CtxStep<F, (ResMut<T, I>, ResMut<U, J>), Out>) {
        CtxStep { f: self, params: PhantomData }
    }
}

impl<
    R,
    C,
    Out,
    F: FnMut(&mut C, &mut World<R>) -> Out,
> CtxProducerCall<R, C> for CtxOpaqueProducer<F, Out> {
    type Out = Out;

    open spec fn call_pre(&self, ctx: C, world: World<R>) -> bool {
        forall|r0: &mut C, r1: &mut World<R>| *r0 == ctx && *r1 == world
            ==> #[trigger] call_requires(self.f, (r0, r1))
    }

    open spec fn call_post(
        &self,
        ctx: C,
        world: World<R>,
        after: Self,
        ctx_after: C,
        world_after: World<R>,
        out: Out,
    ) -> bool {
        &&& after == *self
        &&& effect_mm(self.f, ctx, world, ctx_after, world_after, out)
    }

    fn call(&mut self, ctx: &mut C, world: &mut World<R>) -> (out: Out) {
        broadcast use vstd::function::group_function_axioms;

        let out = (self.f)(ctx, world);
        record(
            effect_mm_fact::<C, World<R>, Out, F>,
            Ghost((old(self).f, *old(ctx), *old(world), *ctx, *world, out)),
        );
        out
    }
}

impl<R, C, Out, F: FnMut(&mut C, &mut World<R>) -> Out> IntoCtxProducer<R, C, Out, Opaque> for F {
    type Step = CtxOpaqueProducer<F, Out>;

    open spec fn resolved(self) -> CtxOpaqueProducer<F, Out> {
        CtxOpaqueProducer { f: self, params: PhantomData }
    }

    fn into_ctx_producer(self, registry: &Registry<R>) -> (step: CtxOpaqueProducer<F, Out>) {
        CtxOpaqueProducer { f: self, params: PhantomData }
    }
}

} // verus!
