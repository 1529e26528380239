//! Merge steps that are handed a context, and the nodes that run the arms.
use crate::ctx_node::CtxChainCall;
use crate::effect::{
    effect_mmmpp, effect_mmmpp_fact, effect_mmmppp, effect_mmmppp_fact, effect_mmmpppp,
    effect_mmmpppp_fact, effect_mmpp, effect_mmpp_fact, effect_mmppp, effect_mmppp_fact,
    effect_mmpppp, effect_mmpppp_fact, effect_mmppppp, effect_mmppppp_fact, effect_mpmpp,
    effect_mpmpp_fact, effect_mpmppp, effect_mpmppp_fact, effect_mpmpppp, effect_mpmpppp_fact,
    effect_mpp, effect_mpp_fact, effect_mppp, effect_mppp_fact, effect_mpppp, effect_mpppp_fact,
    effect_mppppp, effect_mppppp_fact, effect_mpppppp, effect_mpppppp_fact, record,
};
use crate::world::{Apart, Registry, Res, ResMut, Resource, World};
use std::marker::PhantomData;
use vstd::prelude::*;

verus! {

/// A step that is handed the context and shown the results of several arms.
pub trait CtxMergeStepCall<R, C, Inputs, Out>: Sized {
    /// When the step may be called.
    spec fn call_pre(&self, ctx: C, world: World<R>, inputs: Inputs) -> bool;

    /// What a call may lead to: the step itself, the state it was handed, and its result.
    spec fn call_post(
        &self,
        ctx: C,
        world: World<R>,
        inputs: Inputs,
        after: Self,
        ctx_after: C,
        world_after: World<R>,
        out: Out,
    ) -> bool;

    fn call(&mut self, ctx: &mut C, world: &mut World<R>, inputs: Inputs) -> (out: Out)
        requires
            old(self).call_pre(*old(ctx), *old(world), inputs),
        ensures
            old(self).call_post(
                *old(ctx),
                *old(world),
                inputs,
                *final(self),
                *final(ctx),
                *final(world),
                out,
            ),
    ;
}

/// Turns a function into a [`CtxMergeStepCall`]. `Params` tells the shapes of function apart.
pub trait IntoCtxMergeStep<R, C, Inputs, Out, Params>: Sized {
    type Step: CtxMergeStepCall<R, C, Inputs, Out>;

    /// The step that the function stands for.
    spec fn resolved(self) -> Self::Step;

    fn into_ctx_merge_step(self, registry: &Registry<R>) -> (step: Self::Step)
        ensures
            step == self.resolved(),
    ;
}

/// A function of the context and of several arms' results, with the mark of its shape.
pub struct CtxMergeStep<F, Params> {
    pub f: F,
    pub params: PhantomData<Params>,
}


impl<
    R,
    C,
    A,
    B,
    Out,
    F: FnMut(&mut C, &A, &B) -> Out,
> CtxMergeStepCall<R, C, (&A, &B), Out> for CtxMergeStep<F, ()> {
    open spec fn call_pre(&self, ctx: C, world: World<R>, inputs: (&A, &B)) -> bool {
        forall|r0: &mut C| *r0 == ctx ==> #[trigger] call_requires(self.f, (r0, inputs.0, inputs.1))
    }

    open spec fn call_post(
        &self,
        ctx: C,
        world: World<R>,
        inputs: (&A, &B),
        after: Self,
        ctx_after: C,
        world_after: World<R>,
        out: Out,
    ) -> bool {
        &&& after == *self
        &&& world_after == world
        &&& effect_mpp(self.f, ctx, inputs.0, inputs.1, ctx_after, out)
    }

    fn call(&mut self, ctx: &mut C, world: &mut World<R>, inputs: (&A, &B)) -> (out: Out) {
        broadcast use vstd::function::group_function_axioms;

        let out = (self.f)(ctx, inputs.0, inputs.1);
        record(
            effect_mpp_fact::<C, &A, &B, Out, F>,
            Ghost((old(self).f, *old(ctx), inputs.0, inputs.1, *ctx, out)),
        );
        out
    }
}

impl<
    R,
    C,
    A,
    B,
    Out,
    F: FnMut(&mut C, &A, &B) -> Out,
> IntoCtxMergeStep<R, C, (&A, &B), Out, ()> for F {
    type Step = CtxMergeStep<F, ()>;

    open spec fn resolved(self) -> CtxMergeStep<F, ()> {
        CtxMergeStep { f: self, params: PhantomData }
    }

    fn into_ctx_merge_step(self, registry: &Registry<R>) -> (step: CtxMergeStep<F, ()>) {
        CtxMergeStep { f: self, params: PhantomData }
    }
}

impl<
    R,
    T,
    I,
    C,
    A,
    B,
    Out,
    F: FnMut(&mut C, &T, &A, &B) -> Out,
> CtxMergeStepCall<R, C, (&A, &B), Out> for CtxMergeStep<F, Res<T, I>> where
    R: Resource<T, I>,
{
    open spec fn call_pre(&self, ctx: C, world: World<R>, inputs: (&A, &B)) -> bool {
        forall|r0: &mut C| *r0 == ctx
            ==> #[trigger] call_requires(self.f, (r0, &world.held::<T, I>(), inputs.0, inputs.1))
    }

    open spec fn call_post(
        &self,
        ctx: C,
        world: World<R>,
        inputs: (&A, &B),
        after: Self,
        ctx_after: C,
        world_after: World<R>,
        out: Out,
    ) -> bool {
        &&& after == *self
        &&& world_after == world
        &&& effect_mppp(self.f, ctx, &world.held::<T, I>(), inputs.0, inputs.1, ctx_after, out)
    }

    fn call(&mut self, ctx: &mut C, world: &mut World<R>, inputs: (&A, &B)) -> (out: Out) {
        broadcast use vstd::function::group_function_axioms;

        let out = (self.f)(ctx, world.resource::<T, I>(), inputs.0, inputs.1);
        record(
            effect_mppp_fact::<C, &T, &A, &B, Out, F>,
            Ghost((
                old(self).f,
                *old(ctx),
                &old(world).held::<T, I>(),
                inputs.0,
                inputs.1,
                *ctx,
                out,
            )),
        );
        out
    }
}

impl<
    R,
    T,
    I,
    C,
    A,
    B,
    Out,
    F: FnMut(&mut C, &T, &A, &B) -> Out,
> IntoCtxMergeStep<R, C, (&A, &B), Out, Res<T, I>> for F where
    R: Resource<T, I>,
{
    type Step = CtxMergeStep<F, Res<T, I>>;

    open spec fn resolved(self) -> CtxMergeStep<F, Res<T, I>> {
        CtxMergeStep { f: self, params: PhantomData }
    }

    fn into_ctx_merge_step(self, registry: &Registry<R>) -> (step: CtxMergeStep<F, Res<T, I>>) {
        CtxMergeStep { f: self, params: PhantomData }
    }
}

impl<
    R,
    T,
    I,
    C,
    A,
    B,
    Out,
    F: FnMut(&mut C, &mut T, &A, &B) -> Out,
> CtxMergeStepCall<R, C, (&A, &B), Out> for CtxMergeStep<F, ResMut<T, I>> where
    R: Resource<T, I>,
{
    open spec fn call_pre(&self, ctx: C, world: World<R>, inputs: (&A, &B)) -> bool {
        forall|r0: &mut C, r1: &mut T| *r0 == ctx && *r1 == world.held::<T, I>()
            ==> #[trigger] call_requires(self.f, (r0, r1, inputs.0, inputs.1))
    }

    open spec fn call_post(
        &self,
        ctx: C,
        world: World<R>,
        inputs: (&A, &B),
        after: Self,
        ctx_after: C,
        world_after: World<R>,
        out: Out,
    ) -> bool {
        &&& after == *self
        &&& exists|held: T|
            #[trigger] effect_mmpp(
                self.f,
                ctx,
                world.held::<T, I>(),
                inputs.0,
                inputs.1,
                ctx_after,
                held,
                out,
            )
                && world_after == world.holding::<T, I>(held)
    }

    fn call(&mut self, ctx: &mut C, world: &mut World<R>, inputs: (&A, &B)) -> (out: Out) {
        broadcast use vstd::function::group_function_axioms;

        let cell: &mut T = world.resource_mut::<T, I>();
        let out = (self.f)(ctx, &mut *cell, inputs.0, inputs.1);
        record(
            effect_mmpp_fact::<C, T, &A, &B, Out, F>,
            Ghost((
                old(self).f,
                *old(ctx),
                old(world).held::<T, I>(),
                inputs.0,
                inputs.1,
                *ctx,
                *cell,
                out,
            )),
        );
        assert(effect_mmpp(
            old(self).f,
            *old(ctx),
            old(world).held::<T, I>(),
            inputs.0,
            inputs.1,
            *ctx,
            *cell,
            out,
        ));
        out
    }
}

impl<
    R,
    T,
    I,
    C,
    A,
    B,
    Out,
    F: FnMut(&mut C, &mut T, &A, &B) -> Out,
> IntoCtxMergeStep<R, C, (&A, &B), Out, ResMut<T, I>> for F where
    R: Resource<T, I>,
{
    type Step = CtxMergeStep<F, ResMut<T, I>>;

    open spec fn resolved(self) -> CtxMergeStep<F, ResMut<T, I>> {
        CtxMergeStep { f: self, params: PhantomData }
    }

    fn into_ctx_merge_step(self, registry: &Registry<R>) -> (step: CtxMergeStep<F, ResMut<T, I>>) {
        CtxMergeStep { f: self, params: PhantomData }
    }
}

impl<
    R,
    T,
    I,
    U,
    J,
    C,
    A,
    B,
    Out,
    F: FnMut(&mut C, &T, &U, &A, &B) -> Out,
> CtxMergeStepCall<R, C, (&A, &B), Out> for CtxMergeStep<F, (Res<T, I>, Res<U, J>)> where
    R: Resource<T, I> + Resource<U, J>,
{
    open spec fn call_pre(&self, ctx: C, world: World<R>, inputs: (&A, &B)) -> bool {
        forall|r0: &mut C| *r0 == ctx
            ==> #[trigger] call_requires(
                self.f,
                (r0, &world.held::<T, I>(), &world.held::<U, J>(), inputs.0, inputs.1),
            )
    }

    open spec fn call_post(
        &self,
        ctx: C,
        world: World<R>,
        inputs: (&A, &B),
        after: Self,
        ctx_after: C,
        world_after: World<R>,
        out: Out,
    ) -> bool {
        &&& after == *self
        &&& world_after == world
        &&& effect_mpppp(
            self.f,
            ctx,
            &world.held::<T, I>(),
            &world.held::<U, J>(),
            inputs.0,
            inputs.1,
            ctx_after,
            out,
        )
    }

    fn call(&mut self, ctx: &mut C, world: &mut World<R>, inputs: (&A, &B)) -> (out: Out) {
        broadcast use vstd::function::group_function_axioms;

        let out = (self.f)(
            ctx,
            world.resource::<T, I>(),
            world.resource::<U, J>(),
            inputs.0,
            inputs.1,
        );
        record(
            effect_mpppp_fact::<C, &T, &U, &A, &B, Out, F>,
            Ghost((
                old(self).f,
                *old(ctx),
                &old(world).held::<T, I>(),
                &old(world).held::<U, J>(),
                inputs.0,
                inputs.1,
                *ctx,
                out,
            )),
        );
        out
    }
}

impl<
    R,
    T,
    I,
    U,
    J,
    C,
    A,
    B,
    Out,
    F: FnMut(&mut C, &T, &U, &A, &B) -> Out,
> IntoCtxMergeStep<R, C, (&A, &B), Out, (Res<T, I>, Res<U, J>)> for F where
    R: Resource<T, I> + Resource<U, J>,
{
    type Step = CtxMergeStep<F, (Res<T, I>, Res<U, J>)>;

    open spec fn resolved(self) -> CtxMergeStep<F, (Res<T, I>, Res<U, J>)> {
        CtxMergeStep { f: self, params: PhantomData }
    }

    fn into_ctx_merge_step(
        self,
        registry: &Registry<R>,
    ) -> (step: CtxMergeStep<F, (Res<T, I>, Res<U, J>)>) {
        CtxMergeStep { f: self, params: PhantomData }
    }
}

impl<
    R,
    T,
    I,
    U,
    J,
    C,
    A,
    B,
    Out,
    F: FnMut(&mut C, &T, &mut U, &A, &B) -> Out,
> CtxMergeStepCall<R, C, (&A, &B), Out> for CtxMergeStep<F, (Res<T, I>, ResMut<U, J>)> where
    R: Apart<T, I, U, J>,
{
    open spec fn call_pre(&self, ctx: C, world: World<R>, inputs: (&A, &B)) -> bool {
        forall|r0: &mut C, r2: &mut U| *r0 == ctx && *r2 == world.held::<U, J>()
            ==> #[trigger] call_requires(
                self.f,
                (r0, &world.held::<T, I>(), r2, inputs.0, inputs.1),
            )
    }

    open spec fn call_post(
        &self,
        ctx: C,
        world: World<R>,
        inputs: (&A, &B),
        after: Self,
        ctx_after: C,
        world_after: World<R>,
        out: Out,
    ) -> bool {
        &&& after == *self
        &&& exists|held: U|
            #[trigger] effect_mpmpp(
                self.f,
                ctx,
                &world.held::<T, I>(),
                world.held::<U, J>(),
                inputs.0,
                inputs.1,
                ctx_after,
                held,
                out,
            )
                && world_after == world.holding::<U, J>(held)
    }

    fn call(&mut self, ctx: &mut C, world: &mut World<R>, inputs: (&A, &B)) -> (out: Out) {
        broadcast use vstd::function::group_function_axioms;

        let (first, second): (&T, &mut U) = world.beside_mut::<T, I, U, J>();
        let out = (self.f)(ctx, first, &mut *second, inputs.0, inputs.1);
        record(
            effect_mpmpp_fact::<C, &T, U, &A, &B, Out, F>,
            Ghost((
                old(self).f,
                *old(ctx),
                &old(world).held::<T, I>(),
                old(world).held::<U, J>(),
                inputs.0,
                inputs.1,
                *ctx,
                *second,
                out,
            )),
        );
        assert(effect_mpmpp(
            old(self).f,
            *old(ctx),
            &old(world).held::<T, I>(),
            old(world).held::<U, J>(),
            inputs.0,
            inputs.1,
            *ctx,
            *second,
            out,
        ));
        out
    }
}

impl<
    R,
    T,
    I,
    U,
    J,
    C,
    A,
    B,
    Out,
    F: FnMut(&mut C, &T, &mut U, &A, &B) -> Out,
> IntoCtxMergeStep<R, C, (&A, &B), Out, (Res<T, I>, ResMut<U, J>)> for F where
    R: Apart<T, I, U, J>,
{
    type Step = CtxMergeStep<F, (Res<T, I>, ResMut<U, J>)>;

    open spec fn resolved(self) -> CtxMergeStep<F, (Res<T, I>, ResMut<U, J>)> {
        CtxMergeStep { f: self, params: PhantomData }
    }

    fn into_ctx_merge_step(
        self,
        registry: &Registry<R>,
    ) -> (step: CtxMergeStep<F, (Res<T, I>, ResMut<U, J>)>) {
        CtxMergeStep { f: self, params: PhantomData }
    }
}

impl<
    R,
    T,
    I,
    U,
    J,
    C,
    A,
    B,
    Out,
    F: FnMut(&mut C, &mut T, &U, &A, &B) -> Out,
> CtxMergeStepCall<R, C, (&A, &B), Out> for CtxMergeStep<F, (ResMut<T, I>, Res<U, J>)> where
    R: Apart<U, J, T, I>,
{
    open spec fn call_pre(&self, ctx: C, world: World<R>, inputs: (&A, &B)) -> bool {
        forall|r0: &mut C, r1: &mut T| *r0 == ctx && *r1 == world.held::<T, I>()
            ==> #[trigger] call_requires(
                self.f,
                (r0, r1, &world.held::<U, J>(), inputs.0, inputs.1),
            )
    }

    open spec fn call_post(
        &self,
        ctx: C,
        world: World<R>,
        inputs: (&A, &B),
        after: Self,
        ctx_after: C,
        world_after: World<R>,
        out: Out,
    ) -> bool {
        &&& after == *self
        &&& exists|held: T|
            #[trigger] effect_mmppp(
                self.f,
                ctx,
                world.held::<T, I>(),
                &world.held::<U, J>(),
                inputs.0,
                inputs.1,
                ctx_after,
                held,
                out,
            )
                && world_after == world.holding::<T, I>(held)
    }

    fn call(&mut self, ctx: &mut C, world: &mut World<R>, inputs: (&A, &B)) -> (out: Out) {
        broadcast use vstd::function::group_function_axioms;

        let (second, first): (&U, &mut T) = world.beside_mut::<U, J, T, I>();
        let out = (self.f)(ctx, &mut *first, second, inputs.0, inputs.1);
        record(
            effect_mmppp_fact::<C, T, &U, &A, &B, Out, F>,
            Ghost((
                old(self).f,
                *old(ctx),
                old(world).held::<T, I>(),
                &old(world).held::<U, J>(),
                inputs.0,
                inputs.1,
                *ctx,
                *first,
                out,
            )),
        );
        assert(effect_mmppp(
            old(self).f,
            *old(ctx),
            old(world).held::<T, I>(),
            &old(world).held::<U, J>(),
            inputs.0,
            inputs.1,
            *ctx,
            *first,
            out,
        ));
        out
    }
}

impl<
    R,
    T,
    I,
    U,
    J,
    C,
    A,
    B,
    Out,
    F: FnMut(&mut C, &mut T, &U, &A, &B) -> Out,
> IntoCtxMergeStep<R, C, (&A, &B), Out, (ResMut<T, I>, Res<U, J>)> for F where
    R: Apart<U, J, T, I>,
{
    type Step = CtxMergeStep<F, (ResMut<T, I>, Res<U, J>)>;

    open spec fn resolved(self) -> CtxMergeStep<F, (ResMut<T, I>, Res<U, J>)> {
        CtxMergeStep { f: self, params: PhantomData }
    }

    fn into_ctx_merge_step(
        self,
        registry: &Registry<R>,
    ) -> (step: CtxMergeStep<F, (ResMut<T, I>, Res<U, J>)>) {
        CtxMergeStep { f: self, params: PhantomData }
    }
}

impl<
    R,
    T,
    I,
    U,
    J,
    C,
    A,
    B,
    Out,
    F: FnMut(&mut C, &mut T, &mut U, &A, &B) -> Out,
> CtxMergeStepCall<R, C, (&A, &B), Out> for CtxMergeStep<F, (ResMut<T, I>, ResMut<U, J>)> where
    R: Apart<T, I, U, J>,
{
    open spec fn call_pre(&self, ctx: C, world: World<R>, inputs: (&A, &B)) -> bool {
        forall|r0: &mut C, r1: &mut T, r2: &mut U| *r0 == ctx
            && *r1 == world.held::<T, I>()
            && *r2 == world.held::<U, J>()
            ==> #[trigger] call_requires(self.f, (r0, r1, r2, inputs.0, inputs.1))
    }

    open spec fn call_post(
        &self,
        ctx: C,
        world: World<R>,
        inputs: (&A, &B),
        after: Self,
        ctx_after: C,
        world_after: World<R>,
        out: Out,
    ) -> bool {
        &&& after == *self
        &&& exists|held: T, other: U|
            #[trigger] effect_mmmpp(
                self.f,
                ctx,
                world.held::<T, I>(),
                world.held::<U, J>(),
                inputs.0,
                inputs.1,
                ctx_after,
                held,
                other,
                out,
            )
                && world_after == world.holding::<T, I>(held).holding::<U, J>(other)
    }

    fn call(&mut self, ctx: &mut C, world: &mut World<R>, inputs: (&A, &B)) -> (out: Out) {
        broadcast use vstd::function::group_function_axioms;

        let (first, second): (&mut T, &mut U) = world.both_mut::<T, I, U, J>();
        let out = (self.f)(ctx, &mut *first, &mut *second, inputs.0, inputs.1);
        record(
            effect_mmmpp_fact::<C, T, U, &A, &B, Out, F>,
            Ghost((
                old(self).f,
                *old(ctx),
                old(world).held::<T, I>(),
                old(world).held::<U, J>(),
                inputs.0,
                inputs.1,
                *ctx,
                *first,
                *second,
                out,
            )),
        );
        assert(effect_mmmpp(
            old(self).f,
            *old(ctx),
            old(world).held::<T, I>(),
            old(world).held::<U, J>(),
            inputs.0,
            inputs.1,
            *ctx,
            *first,
            *second,
            out,
        ));
        out
    }
}

impl<
    R,
    T,
    I,
    U,
    J,
    C,
    A,
    B,
    Out,
    F: FnMut(&mut C, &mut T, &mut U, &A, &B) -> Out,
> IntoCtxMergeStep<R, C, (&A, &B), Out, (ResMut<T, I>, ResMut<U, J>)> for F where
    R: Apart<T, I, U, J>,
{
    type Step = CtxMergeStep<F, (ResMut<T, I>, ResMut<U, J>)>;

    open spec fn resolved(self) -> CtxMergeStep<F, (ResMut<T, I>, ResMut<U, J>)> {
        CtxMergeStep { f: self, params: PhantomData }
    }

    fn into_ctx_merge_step(
        self,
        registry: &Registry<R>,
    ) -> (step: CtxMergeStep<F, (ResMut<T, I>, ResMut<U, J>)>) {
        CtxMergeStep { f: self, params: PhantomData }
    }
}

impl<
    R,
    C,
    A,
    B,
    D,
    Out,
    F: FnMut(&mut C, &A, &B, &D) -> Out,
> CtxMergeStepCall<R, C, (&A, &B, &D), Out> for CtxMergeStep<F, ()> {
    open spec fn call_pre(&self, ctx: C, world: World<R>, inputs: (&A, &B, &D)) -> bool {
        forall|r0: &mut C| *r0 == ctx
            ==> #[trigger] call_requires(self.f, (r0, inputs.0, inputs.1, inputs.2))
    }

    open spec fn call_post(
        &self,
        ctx: C,
        world: World<R>,
        inputs: (&A, &B, &D),
        after: Self,
        ctx_after: C,
        world_after: World<R>,
        out: Out,
    ) -> bool {
        &&& after == *self
        &&& world_after == world
        &&& effect_mppp(self.f, ctx, inputs.0, inputs.1, inputs.2, ctx_after, out)
    }

    fn call(&mut self, ctx: &mut C, world: &mut World<R>, inputs: (&A, &B, &D)) -> (out: Out) {
        broadcast use vstd::function::group_function_axioms;

        let out = (self.f)(ctx, inputs.0, inputs.1, inputs.2);
        record(
            effect_mppp_fact::<C, &A, &B, &D, Out, F>,
            Ghost((old(self).f, *old(ctx), inputs.0, inputs.1, inputs.2, *ctx, out)),
        );
        out
    }
}

impl<
    R,
    C,
    A,
    B,
    D,
    Out,
    F: FnMut(&mut C, &A, &B, &D) -> Out,
> IntoCtxMergeStep<R, C, (&A, &B, &D), Out, ()> for F {
    type Step = CtxMergeStep<F, ()>;

    open spec fn resolved(self) -> CtxMergeStep<F, ()> {
        CtxMergeStep { f: self, params: PhantomData }
    }

    fn into_ctx_merge_step(self, registry: &Registry<R>) -> (step: CtxMergeStep<F, ()>) {
        CtxMergeStep { f: self, params: PhantomData }
    }
}

impl<
    R,
    T,
    I,
    C,
    A,
    B,
    D,
    Out,
    F: FnMut(&mut C, &T, &A, &B, &D) -> Out,
> CtxMergeStepCall<R, C, (&A, &B, &D), Out> for CtxMergeStep<F, Res<T, I>> where
    R: Resource<T, I>,
{
    open spec fn call_pre(&self, ctx: C, world: World<R>, inputs: (&A, &B, &D)) -> bool {
        forall|r0: &mut C| *r0 == ctx
            ==> #[trigger] call_requires(
                self.f,
                (r0, &world.held::<T, I>(), inputs.0, inputs.1, inputs.2),
            )
    }

    open spec fn call_post(
        &self,
        ctx: C,
        world: World<R>,
        inputs: (&A, &B, &D),
        after: Self,
        ctx_after: C,
        world_after: World<R>,
        out: Out,
    ) -> bool {
        &&& after == *self
        &&& world_after == world
        &&& effect_mpppp(
            self.f,
            ctx,
            &world.held::<T, I>(),
            inputs.0,
            inputs.1,
            inputs.2,
            ctx_after,
            out,
        )
    }

    fn call(&mut self, ctx: &mut C, world: &mut World<R>, inputs: (&A, &B, &D)) -> (out: Out) {
        broadcast use vstd::function::group_function_axioms;

        let out = (self.f)(ctx, world.resource::<T, I>(), inputs.0, inputs.1, inputs.2);
        record(
            effect_mpppp_fact::<C, &T, &A, &B, &D, Out, F>,
            Ghost((
                old(self).f,
                *old(ctx),
                &old(world).held::<T, I>(),
                inputs.0,
                inputs.1,
                inputs.2,
                *ctx,
                out,
            )),
        );
        out
    }
}

impl<
    R,
    T,
    I,
    C,
    A,
    B,
    D,
    Out,
    F: FnMut(&mut C, &T, &A, &B, &D) -> Out,
> IntoCtxMergeStep<R, C, (&A, &B, &D), Out, Res<T, I>> for F where
    R: Resource<T, I>,
{
    type Step = CtxMergeStep<F, Res<T, I>>;

    open spec fn resolved(self) -> CtxMergeStep<F, Res<T, I>> {
        CtxMergeStep { f: self, params: PhantomData }
    }

    fn into_ctx_merge_step(self, registry: &Registry<R>) -> (step: CtxMergeStep<F, Res<T, I>>) {
        CtxMergeStep { f: self, params: PhantomData }
    }
}

impl<
    R,
    T,
    I,
    C,
    A,
    B,
    D,
    Out,
    F: FnMut(&mut C, &mut T, &A, &B, &D) -> Out,
> CtxMergeStepCall<R, C, (&A, &B, &D), Out> for CtxMergeStep<F, ResMut<T, I>> where
    R: Resource<T, I>,
{
    open spec fn call_pre(&self, ctx: C, world: World<R>, inputs: (&A, &B, &D)) -> bool {
        forall|r0: &mut C, r1: &mut T| *r0 == ctx && *r1 == world.held::<T, I>()
            ==> #[trigger] call_requires(self.f, (r0, r1, inputs.0, inputs.1, inputs.2))
    }

    open spec fn call_post(
        &self,
        ctx: C,
        world: World<R>,
        inputs: (&A, &B, &D),
        after: Self,
        ctx_after: C,
        world_after: World<R>,
        out: Out,
    ) -> bool {
        &&& after == *self
        &&& exists|held: T|
            #[trigger] effect_mmppp(
                self.f,
                ctx,
                world.held::<T, I>(),
                inputs.0,
                inputs.1,
                inputs.2,
                ctx_after,
                held,
                out,
            )
                && world_after == world.holding::<T, I>(held)
    }

    fn call(&mut self, ctx: &mut C, world: &mut World<R>, inputs: (&A, &B, &D)) -> (out: Out) {
        broadcast use vstd::function::group_function_axioms;

        let cell: &mut T = world.resource_mut::<T, I>();
        let out = (self.f)(ctx, &mut *cell, inputs.0, inputs.1, inputs.2);
        record(
            effect_mmppp_fact::<C, T, &A, &B, &D, Out, F>,
            Ghost((
                old(self).f,
                *old(ctx),
                old(world).held::<T, I>(),
                inputs.0,
                inputs.1,
                inputs.2,
                *ctx,
                *cell,
                out,
            )),
        );
        assert(effect_mmppp(
            old(self).f,
            *old(ctx),
            old(world).held::<T, I>(),
            inputs.0,
            inputs.1,
            inputs.2,
            *ctx,
            *cell,
            out,
        ));
        out
    }
}

impl<
    R,
    T,
    I,
    C,
    A,
    B,
    D,
    Out,
    F: FnMut(&mut C, &mut T, &A, &B, &D) -> Out,
> IntoCtxMergeStep<R, C, (&A, &B, &D), Out, ResMut<T, I>> for F where
    R: Resource<T, I>,
{
    type Step = CtxMergeStep<F, ResMut<T, I>>;

    open spec fn resolved(self) -> CtxMergeStep<F, ResMut<T, I>> {
        CtxMergeStep { f: self, params: PhantomData }
    }

    fn into_ctx_merge_step(self, registry: &Registry<R>) -> (step: CtxMergeStep<F, ResMut<T, I>>) {
        CtxMergeStep { f: self, params: PhantomData }
    }
}

impl<
    R,
    T,
    I,
    U,
    J,
    C,
    A,
    B,
    D,
    Out,
    F: FnMut(&mut C, &T, &U, &A, &B, &D) -> Out,
> CtxMergeStepCall<R, C, (&A, &B, &D), Out> for CtxMergeStep<F, (Res<T, I>, Res<U, J>)> where
    R: Resource<T, I> + Resource<U, J>,
{
    open spec fn call_pre(&self, ctx: C, world: World<R>, inputs: (&A, &B, &D)) -> bool {
        forall|r0: &mut C| *r0 == ctx
            ==> #[trigger] call_requires(
                self.f,
                (r0, &world.held::<T, I>(), &world.held::<U, J>(), inputs.0, inputs.1, inputs.2),
            )
    }

    open spec fn call_post(
        &self,
        ctx: C,
        world: World<R>,
        inputs: (&A, &B, &D),
        after: Self,
        ctx_after: C,
        world_after: World<R>,
        out: Out,
    ) -> bool {
        &&& after == *self
        &&& world_after == world
        &&& effect_mppppp(
            self.f,
            ctx,
            &world.held::<T, I>(),
            &world.held::<U, J>(),
            inputs.0,
            inputs.1,
            inputs.2,
            ctx_after,
            out,
        )
    }

    fn call(&mut self, ctx: &mut C, world: &mut World<R>, inputs: (&A, &B, &D)) -> (out: Out) {
        broadcast use vstd::function::group_function_axioms;

        let out = (self.f)(
            ctx,
            world.resource::<T, I>(),
            world.resource::<U, J>(),
            inputs.0,
            inputs.1,
            inputs.2,
        );
        record(
            effect_mppppp_fact::<C, &T, &U, &A, &B, &D, Out, F>,
            Ghost((
                old(self).f,
                *old(ctx),
                &old(world).held::<T, I>(),
                &old(world).held::<U, J>(),
                inputs.0,
                inputs.1,
                inputs.2,
                *ctx,
                out,
            )),
        );
        out
    }
}

impl<
    R,
    T,
    I,
    U,
    J,
    C,
    A,
    B,
    D,
    Out,
    F: FnMut(&mut C, &T, &U, &A, &B, &D) -> Out,
> IntoCtxMergeStep<R, C, (&A, &B, &D), Out, (Res<T, I>, Res<U, J>)> for F where
    R: Resource<T, I> + Resource<U, J>,
{
    type Step = CtxMergeStep<F, (Res<T, I>, Res<U, J>)>;

    open spec fn resolved(self) -> CtxMergeStep<F, (Res<T, I>, Res<U, J>)> {
        CtxMergeStep { f: self, params: PhantomData }
    }

    fn into_ctx_merge_step(
        self,
        registry: &Registry<R>,
    ) -> (step: CtxMergeStep<F, (Res<T, I>, Res<U, J>)>) {
        CtxMergeStep { f: self, params: PhantomData }
    }
}

impl<
    R,
    T,
    I,
    U,
    J,
    C,
    A,
    B,
    D,
    Out,
    F: FnMut(&mut C, &T, &mut U, &A, &B, &D) -> Out,
> CtxMergeStepCall<R, C, (&A, &B, &D), Out> for CtxMergeStep<F, (Res<T, I>, ResMut<U, J>)> where
    R: Apart<T, I, U, J>,
{
    open spec fn call_pre(&self, ctx: C, world: World<R>, inputs: (&A, &B, &D)) -> bool {
        forall|r0: &mut C, r2: &mut U| *r0 == ctx && *r2 == world.held::<U, J>()
            ==> #[trigger] call_requires(
                self.f,
                (r0, &world.held::<T, I>(), r2, inputs.0, inputs.1, inputs.2),
            )
    }

    open spec fn call_post(
        &self,
        ctx: C,
        world: World<R>,
        inputs: (&A, &B, &D),
        after: Self,
        ctx_after: C,
        world_after: World<R>,
        out: Out,
    ) -> bool {
        &&& after == *self
        &&& exists|held: U|
            #[trigger] effect_mpmppp(
                self.f,
                ctx,
                &world.held::<T, I>(),
                world.held::<U, J>(),
                inputs.0,
                inputs.1,
                inputs.2,
                ctx_after,
                held,
                out,
            )
                && world_after == world.holding::<U, J>(held)
    }

    fn call(&mut self, ctx: &mut C, world: &mut World<R>, inputs: (&A, &B, &D)) -> (out: Out) {
        broadcast use vstd::function::group_function_axioms;

        let (first, second): (&T, &mut U) = world.beside_mut::<T, I, U, J>();
        let out = (self.f)(ctx, first, &mut *second, inputs.0, inputs.1, inputs.2);
        record(
            effect_mpmppp_fact::<C, &T, U, &A, &B, &D, Out, F>,
            Ghost((
                old(self).f,
                *old(ctx),
                &old(world).held::<T, I>(),
                old(world).held::<U, J>(),
                inputs.0,
                inputs.1,
                inputs.2,
                *ctx,
                *second,
                out,
            )),
        );
        assert(effect_mpmppp(
            old(self).f,
            *old(ctx),
            &old(world).held::<T, I>(),
            old(world).held::<U, J>(),
            inputs.0,
            inputs.1,
            inputs.2,
            *ctx,
            *second,
            out,
        ));
        out
    }
}

impl<
    R,
    T,
    I,
    U,
    J,
    C,
    A,
    B,
    D,
    Out,
    F: FnMut(&mut C, &T, &mut U, &A, &B, &D) -> Out,
> IntoCtxMergeStep<R, C, (&A, &B, &D), Out, (Res<T, I>, ResMut<U, J>)> for F where
    R: Apart<T, I, U, J>,
{
    type Step = CtxMergeStep<F, (Res<T, I>, ResMut<U, J>)>;

    open spec fn resolved(self) -> CtxMergeStep<F, (Res<T, I>, ResMut<U, J>)> {
        CtxMergeStep { f: self, params: PhantomData }
    }

    fn into_ctx_merge_step(
        self,
        registry: &Registry<R>,
    ) -> (step: CtxMergeStep<F, (Res<T, I>, ResMut<U, J>)>) {
        CtxMergeStep { f: self, params: PhantomData }
    }
}

impl<
    R,
    T,
    I,
    U,
    J,
    C,
    A,
    B,
    D,
    Out,
    F: FnMut(&mut C, &mut T, &U, &A, &B, &D) -> Out,
> CtxMergeStepCall<R, C, (&A, &B, &D), Out> for CtxMergeStep<F, (ResMut<T, I>, Res<U, J>)> where
    R: Apart<U, J, T, I>,
{
    open spec fn call_pre(&self, ctx: C, world: World<R>, inputs: (&A, &B, &D)) -> bool {
        forall|r0: &mut C, r1: &mut T| *r0 == ctx && *r1 == world.held::<T, I>()
            ==> #[trigger] call_requires(
                self.f,
                (r0, r1, &world.held::<U, J>(), inputs.0, inputs.1, inputs.2),
            )
    }

    open spec fn call_post(
        &self,
        ctx: C,
        world: World<R>,
        inputs: (&A, &B, &D),
        after: Self,
        ctx_after: C,
        world_after: World<R>,
        out: Out,
    ) -> bool {
        &&& after == *self
        &&& exists|held: T|
            #[trigger] effect_mmpppp(
                self.f,
                ctx,
                world.held::<T, I>(),
                &world.held::<U, J>(),
                inputs.0,
                inputs.1,
                inputs.2,
                ctx_after,
                held,
                out,
            )
                && world_after == world.holding::<T, I>(held)
    }

    fn call(&mut self, ctx: &mut C, world: &mut World<R>, inputs: (&A, &B, &D)) -> (out: Out) {
        broadcast use vstd::function::group_function_axioms;

        let (second, first): (&U, &mut T) = world.beside_mut::<U, J, T, I>();
        let out = (self.f)(ctx, &mut *first, second, inputs.0, inputs.1, inputs.2);
        record(
            effect_mmpppp_fact::<C, T, &U, &A, &B, &D, Out, F>,
            Ghost((
                old(self).f,
                *old(ctx),
                old(world).held::<T, I>(),
                &old(world).held::<U, J>(),
                inputs.0,
                inputs.1,
                inputs.2,
                *ctx,
                *first,
                out,
            )),
        );
        assert(effect_mmpppp(
            old(self).f,
            *old(ctx),
            old(world).held::<T, I>(),
            &old(world).held::<U, J>(),
            inputs.0,
            inputs.1,
            inputs.2,
            *ctx,
            *first,
            out,
        ));
        out
    }
}

impl<
    R,
    T,
    I,
    U,
    J,
    C,
    A,
    B,
    D,
    Out,
    F: FnMut(&mut C, &mut T, &U, &A, &B, &D) -> Out,
> IntoCtxMergeStep<R, C, (&A, &B, &D), Out, (ResMut<T, I>, Res<U, J>)> for F where
    R: Apart<U, J, T, I>,
{
    type Step = CtxMergeStep<F, (ResMut<T, I>, Res<U, J>)>;

    open spec fn resolved(self) -> CtxMergeStep<F, (ResMut<T, I>, Res<U, J>)> {
        CtxMergeStep { f: self, params: PhantomData }
    }

    fn into_ctx_merge_step(
        self,
        registry: &Registry<R>,
    ) -> (step: CtxMergeStep<F, (ResMut<T, I>, Res<U, J>)>) {
        CtxMergeStep { f: self, params: PhantomData }
    }
}

impl<
    R,
    T,
    I,
    U,
    J,
    C,
    A,
    B,
    D,
    Out,
    F: FnMut(&mut C, &mut T, &mut U, &A, &B, &D) -> Out,
> CtxMergeStepCall<R, C, (&A, &B, &D), Out> for CtxMergeStep<F, (ResMut<T, I>, ResMut<U, J>)> where
    R: Apart<T, I, U, J>,
{
    open spec fn call_pre(&self, ctx: C, world: World<R>, inputs: (&A, &B, &D)) -> bool {
        forall|r0: &mut C, r1: &mut T, r2: &mut U| *r0 == ctx
            && *r1 == world.held::<T, I>()
            && *r2 == world.held::<U, J>()
            ==> #[trigger] call_requires(self.f, (r0, r1, r2, inputs.0, inputs.1, inputs.2))
    }

    open spec fn call_post(
        &self,
        ctx: C,
        world: World<R>,
        inputs: (&A, &B, &D),
        after: Self,
        ctx_after: C,
        world_after: World<R>,
        out: Out,
    ) -> bool {
        &&& after == *self
        &&& exists|held: T, other: U|
            #[trigger] effect_mmmppp(
                self.f,
                ctx,
                world.held::<T, I>(),
                world.held::<U, J>(),
                inputs.0,
                inputs.1,
                inputs.2,
                ctx_after,
                held,
                other,
                out,
            )
                && world_after == world.holding::<T, I>(held).holding::<U, J>(other)
    }

    fn call(&mut self, ctx: &mut C, world: &mut World<R>, inputs: (&A, &B, &D)) -> (out: Out) {
        broadcast use vstd::function::group_function_axioms;

        let (first, second): (&mut T, &mut U) = world.both_mut::<T, I, U, J>();
        let out = (self.f)(ctx, &mut *first, &mut *second, inputs.0, inputs.1, inputs.2);
        record(
            effect_mmmppp_fact::<C, T, U, &A, &B, &D, Out, F>,
            Ghost((
                old(self).f,
                *old(ctx),
                old(world).held::<T, I>(),
                old(world).held::<U, J>(),
                inputs.0,
                inputs.1,
                inputs.2,
                *ctx,
                *first,
                *second,
                out,
            )),
        );
        assert(effect_mmmppp(
            old(self).f,
            *old(ctx),
            old(world).held::<T, I>(),
            old(world).held::<U, J>(),
            inputs.0,
            inputs.1,
            inputs.2,
            *ctx,
            *first,
            *second,
            out,
        ));
        out
    }
}

impl<
    R,
    T,
    I,
    U,
    J,
    C,
    A,
    B,
    D,
    Out,
    F: FnMut(&mut C, &mut T, &mut U, &A, &B, &D) -> Out,
> IntoCtxMergeStep<R, C, (&A, &B, &D), Out, (ResMut<T, I>, ResMut<U, J>)> for F where
    R: Apart<T, I, U, J>,
{
    type Step = CtxMergeStep<F, (ResMut<T, I>, ResMut<U, J>)>;

    open spec fn resolved(self) -> CtxMergeStep<F, (ResMut<T, I>, ResMut<U, J>)> {
        CtxMergeStep { f: self, params: PhantomData }
    }

    fn into_ctx_merge_step(
        self,
        registry: &Registry<R>,
    ) -> (step: CtxMergeStep<F, (ResMut<T, I>, ResMut<U, J>)>) {
        CtxMergeStep { f: self, params: PhantomData }
    }
}

impl<
    R,
    C,
    A,
    B,
    D,
    E,
    Out,
    F: FnMut(&mut C, &A, &B, &D, &E) -> Out,
> CtxMergeStepCall<R, C, (&A, &B, &D, &E), Out> for CtxMergeStep<F, ()> {
    open spec fn call_pre(&self, ctx: C, world: World<R>, inputs: (&A, &B, &D, &E)) -> bool {
        forall|r0: &mut C| *r0 == ctx
            ==> #[trigger] call_requires(self.f, (r0, inputs.0, inputs.1, inputs.2, inputs.3))
    }

    open spec fn call_post(
        &self,
        ctx: C,
        world: World<R>,
        inputs: (&A, &B, &D, &E),
        after: Self,
        ctx_after: C,
        world_after: World<R>,
        out: Out,
    ) -> bool {
        &&& after == *self
        &&& world_after == world
        &&& effect_mpppp(self.f, ctx, inputs.0, inputs.1, inputs.2, inputs.3, ctx_after, out)
    }

    fn call(&mut self, ctx: &mut C, world: &mut World<R>, inputs: (&A, &B, &D, &E)) -> (out: Out) {
        broadcast use vstd::function::group_function_axioms;

        let out = (self.f)(ctx, inputs.0, inputs.1, inputs.2, inputs.3);
        record(
            effect_mpppp_fact::<C, &A, &B, &D, &E, Out, F>,
            Ghost((old(self).f, *old(ctx), inputs.0, inputs.1, inputs.2, inputs.3, *ctx, out)),
        );
        out
    }
}

impl<
    R,
    C,
    A,
    B,
    D,
    E,
    Out,
    F: FnMut(&mut C, &A, &B, &D, &E) -> Out,
> IntoCtxMergeStep<R, C, (&A, &B, &D, &E), Out, ()> for F {
    type Step = CtxMergeStep<F, ()>;

    open spec fn resolved(self) -> CtxMergeStep<F, ()> {
        CtxMergeStep { f: self, params: PhantomData }
    }

    fn into_ctx_merge_step(self, registry: &Registry<R>) -> (step: CtxMergeStep<F, ()>) {
        CtxMergeStep { f: self, params: PhantomData }
    }
}

impl<
    R,
    T,
    I,
    C,
    A,
    B,
    D,
    E,
    Out,
    F: FnMut(&mut C, &T, &A, &B, &D, &E) -> Out,
> CtxMergeStepCall<R, C, (&A, &B, &D, &E), Out> for CtxMergeStep<F, Res<T, I>> where
    R: Resource<T, I>,
{
    open spec fn call_pre(&self, ctx: C, world: World<R>, inputs: (&A, &B, &D, &E)) -> bool {
        forall|r0: &mut C| *r0 == ctx
            ==> #[trigger] call_requires(
                self.f,
                (r0, &world.held::<T, I>(), inputs.0, inputs.1, inputs.2, inputs.3),
            )
    }

    open spec fn call_post(
        &self,
        ctx: C,
        world: World<R>,
        inputs: (&A, &B, &D, &E),
        after: Self,
        ctx_after: C,
        world_after: World<R>,
        out: Out,
    ) -> bool {
        &&& after == *self
        &&& world_after == world
        &&& effect_mppppp(
            self.f,
            ctx,
            &world.held::<T, I>(),
            inputs.0,
            inputs.1,
            inputs.2,
            inputs.3,
            ctx_after,
            out,
        )
    }

    fn call(&mut self, ctx: &mut C, world: &mut World<R>, inputs: (&A, &B, &D, &E)) -> (out: Out) {
        broadcast use vstd::function::group_function_axioms;

        let out = (self.f)(ctx, world.resource::<T, I>(), inputs.0, inputs.1, inputs.2, inputs.3);
        record(
            effect_mppppp_fact::<C, &T, &A, &B, &D, &E, Out, F>,
            Ghost((
                old(self).f,
                *old(ctx),
                &old(world).held::<T, I>(),
                inputs.0,
                inputs.1,
                inputs.2,
                inputs.3,
                *ctx,
                out,
            )),
        );
        out
    }
}

impl<
    R,
    T,
    I,
    C,
    A,
    B,
    D,
    E,
    Out,
    F: FnMut(&mut C, &T, &A, &B, &D, &E) -> Out,
> IntoCtxMergeStep<R, C, (&A, &B, &D, &E), Out, Res<T, I>> for F where
    R: Resource<T, I>,
{
    type Step = CtxMergeStep<F, Res<T, I>>;

    open spec fn resolved(self) -> CtxMergeStep<F, Res<T, I>> {
        CtxMergeStep { f: self, params: PhantomData }
    }

    fn into_ctx_merge_step(self, registry: &Registry<R>) -> (step: CtxMergeStep<F, Res<T, I>>) {
        CtxMergeStep { f: self, params: PhantomData }
    }
}

impl<
    R,
    T,
    I,
    C,
    A,
    B,
    D,
    E,
    Out,
    F: FnMut(&mut C, &mut T, &A, &B, &D, &E) -> Out,
> CtxMergeStepCall<R, C, (&A, &B, &D, &E), Out> for CtxMergeStep<F, ResMut<T, I>> where
    R: Resource<T, I>,
{
    open spec fn call_pre(&self, ctx: C, world: World<R>, inputs: (&A, &B, &D, &E)) -> bool {
        forall|r0: &mut C, r1: &mut T| *r0 == ctx && *r1 == world.held::<T, I>()
            ==> #[trigger] call_requires(self.f, (r0, r1, inputs.0, inputs.1, inputs.2, inputs.3))
    }

    open spec fn call_post(
        &self,
        ctx: C,
        world: World<R>,
        inputs: (&A, &B, &D, &E),
        after: Self,
        ctx_after: C,
        world_after: World<R>,
        out: Out,
    ) -> bool {
        &&& after == *self
        &&& exists|held: T|
            #[trigger] effect_mmpppp(
                self.f,
                ctx,
                world.held::<T, I>(),
                inputs.0,
                inputs.1,
                inputs.2,
                inputs.3,
                ctx_after,
                held,
                out,
            )
                && world_after == world.holding::<T, I>(held)
    }

    fn call(&mut self, ctx: &mut C, world: &mut World<R>, inputs: (&A, &B, &D, &E)) -> (out: Out) {
        broadcast use vstd::function::group_function_axioms;

        let cell: &mut T = world.resource_mut::<T, I>();
        let out = (self.f)(ctx, &mut *cell, inputs.0, inputs.1, inputs.2, inputs.3);
        record(
            effect_mmpppp_fact::<C, T, &A, &B, &D, &E, Out, F>,
            Ghost((
                old(self).f,
                *old(ctx),
                old(world).held::<T, I>(),
                inputs.0,
                inputs.1,
                inputs.2,
                inputs.3,
                *ctx,
                *cell,
                out,
            )),
        );
        assert(effect_mmpppp(
            old(self).f,
            *old(ctx),
            old(world).held::<T, I>(),
            inputs.0,
            inputs.1,
            inputs.2,
            inputs.3,
            *ctx,
            *cell,
            out,
        ));
        out
    }
}

impl<
    R,
    T,
    I,
    C,
    A,
    B,
    D,
    E,
    Out,
    F: FnMut(&mut C, &mut T, &A, &B, &D, &E) -> Out,
> IntoCtxMergeStep<R, C, (&A, &B, &D, &E), Out, ResMut<T, I>> for F where
    R: Resource<T, I>,
{
    type Step = CtxMergeStep<F, ResMut<T, I>>;

    open spec fn resolved(self) -> CtxMergeStep<F, ResMut<T, I>> {
        CtxMergeStep { f: self, params: PhantomData }
    }

    fn into_ctx_merge_step(self, registry: &Registry<R>) -> (step: CtxMergeStep<F, ResMut<T, I>>) {
        CtxMergeStep { f: self, params: PhantomData }
    }
}

impl<
    R,
    T,
    I,
    U,
    J,
    C,
    A,
    B,
    D,
    E,
    Out,
    F: FnMut(&mut C, &T, &U, &A, &B, &D, &E) -> Out,
> CtxMergeStepCall<R, C, (&A, &B, &D, &E), Out> for CtxMergeStep<F, (Res<T, I>, Res<U, J>)> where
    R: Resource<T, I> + Resource<U, J>,
{
    open spec fn call_pre(&self, ctx: C, world: World<R>, inputs: (&A, &B, &D, &E)) -> bool {
        forall|r0: &mut C| *r0 == ctx
            ==> #[trigger] call_requires(
                self.f,
                (
                    r0,
                    &world.held::<T, I>(),
                    &world.held::<U, J>(),
                    inputs.0,
                    inputs.1,
                    inputs.2,
                    inputs.3,
                ),
            )
    }

    open spec fn call_post(
        &self,
        ctx: C,
        world: World<R>,
        inputs: (&A, &B, &D, &E),
        after: Self,
        ctx_after: C,
        world_after: World<R>,
        out: Out,
    ) -> bool {
        &&& after == *self
        &&& world_after == world
        &&& effect_mpppppp(
            self.f,
            ctx,
            &world.held::<T, I>(),
            &world.held::<U, J>(),
            inputs.0,
            inputs.1,
            inputs.2,
            inputs.3,
            ctx_after,
            out,
        )
    }

    fn call(&mut self, ctx: &mut C, world: &mut World<R>, inputs: (&A, &B, &D, &E)) -> (out: Out) {
        broadcast use vstd::function::group_function_axioms;

        let out = (self.f)(
            ctx,
            world.resource::<T, I>(),
            world.resource::<U, J>(),
            inputs.0,
            inputs.1,
            inputs.2,
            inputs.3,
        );
        record(
            effect_mpppppp_fact::<C, &T, &U, &A, &B, &D, &E, Out, F>,
            Ghost((
                old(self).f,
                *old(ctx),
                &old(world).held::<T, I>(),
                &old(world).held::<U, J>(),
                inputs.0,
                inputs.1,
                inputs.2,
                inputs.3,
                *ctx,
                out,
            )),
        );
        out
    }
}

impl<
    R,
    T,
    I,
    U,
    J,
    C,
    A,
    B,
    D,
    E,
    Out,
    F: FnMut(&mut C, &T, &U, &A, &B, &D, &E) -> Out,
> IntoCtxMergeStep<R, C, (&A, &B, &D, &E), Out, (Res<T, I>, Res<U, J>)> for F where
    R: Resource<T, I> + Resource<U, J>,
{
    type Step = CtxMergeStep<F, (Res<T, I>, Res<U, J>)>;

    open spec fn resolved(self) -> CtxMergeStep<F, (Res<T, I>, Res<U, J>)> {
        CtxMergeStep { f: self, params: PhantomData }
    }

    fn into_ctx_merge_step(
        self,
        registry: &Registry<R>,
    ) -> (step: CtxMergeStep<F, (Res<T, I>, Res<U, J>)>) {
        CtxMergeStep { f: self, params: PhantomData }
    }
}

impl<
    R,
    T,
    I,
    U,
    J,
    C,
    A,
    B,
    D,
    E,
    Out,
    F: FnMut(&mut C, &T, &mut U, &A, &B, &D, &E) -> Out,
> CtxMergeStepCall<R, C, (&A, &B, &D, &E), Out> for CtxMergeStep<F, (Res<T, I>, ResMut<U, J>)> where
    R: Apart<T, I, U, J>,
{
    open spec fn call_pre(&self, ctx: C, world: World<R>, inputs: (&A, &B, &D, &E)) -> bool {
        forall|r0: &mut C, r2: &mut U| *r0 == ctx && *r2 == world.held::<U, J>()
            ==> #[trigger] call_requires(
                self.f,
                (r0, &world.held::<T, I>(), r2, inputs.0, inputs.1, inputs.2, inputs.3),
            )
    }

    open spec fn call_post(
        &self,
        ctx: C,
        world: World<R>,
        inputs: (&A, &B, &D, &E),
        after: Self,
        ctx_after: C,
        world_after: World<R>,
        out: Out,
    ) -> bool {
        &&& after == *self
        &&& exists|held: U|
            #[trigger] effect_mpmpppp(
                self.f,
                ctx,
                &world.held::<T, I>(),
                world.held::<U, J>(),
                inputs.0,
                inputs.1,
                inputs.2,
                inputs.3,
                ctx_after,
                held,
                out,
            )
                && world_after == world.holding::<U, J>(held)
    }

    fn call(&mut self, ctx: &mut C, world: &mut World<R>, inputs: (&A, &B, &D, &E)) -> (out: Out) {
        broadcast use vstd::function::group_function_axioms;

        let (first, second): (&T, &mut U) = world.beside_mut::<T, I, U, J>();
        let out = (self.f)(ctx, first, &mut *second, inputs.0, inputs.1, inputs.2, inputs.3);
        record(
            effect_mpmpppp_fact::<C, &T, U, &A, &B, &D, &E, Out, F>,
            Ghost((
                old(self).f,
                *old(ctx),
                &old(world).held::<T, I>(),
                old(world).held::<U, J>(),
                inputs.0,
                inputs.1,
                inputs.2,
                inputs.3,
                *ctx,
                *second,
                out,
            )),
        );
        assert(effect_mpmpppp(
            old(self).f,
            *old(ctx),
            &old(world).held::<T, I>(),
            old(world).held::<U, J>(),
            inputs.0,
            inputs.1,
            inputs.2,
            inputs.3,
            *ctx,
            *second,
            out,
        ));
        out
    }
}

impl<
    R,
    T,
    I,
    U,
    J,
    C,
    A,
    B,
    D,
    E,
    Out,
    F: FnMut(&mut C, &T, &mut U, &A, &B, &D, &E) -> Out,
> IntoCtxMergeStep<R, C, (&A, &B, &D, &E), Out, (Res<T, I>, ResMut<U, J>)> for F where
    R: Apart<T, I, U, J>,
{
    type Step = CtxMergeStep<F, (Res<T, I>, ResMut<U, J>)>;

    open spec fn resolved(self) -> CtxMergeStep<F, (Res<T, I>, ResMut<U, J>)> {
        CtxMergeStep { f: self, params: PhantomData }
    }

    fn into_ctx_merge_step(
        self,
        registry: &Registry<R>,
    ) -> (step: CtxMergeStep<F, (Res<T, I>, ResMut<U, J>)>) {
        CtxMergeStep { f: self, params: PhantomData }
    }
}

impl<
    R,
    T,
    I,
    U,
    J,
    C,
    A,
    B,
    D,
    E,
    Out,
    F: FnMut(&mut C, &mut T, &U, &A, &B, &D, &E) -> Out,
> CtxMergeStepCall<R, C, (&A, &B, &D, &E), Out> for CtxMergeStep<F, (ResMut<T, I>, Res<U, J>)> where
    R: Apart<U, J, T, I>,
{
    open spec fn call_pre(&self, ctx: C, world: World<R>, inputs: (&A, &B, &D, &E)) -> bool {
        forall|r0: &mut C, r1: &mut T| *r0 == ctx && *r1 == world.held::<T, I>()
            ==> #[trigger] call_requires(
                self.f,
                (r0, r1, &world.held::<U, J>(), inputs.0, inputs.1, inputs.2, inputs.3),
            )
    }

    open spec fn call_post(
        &self,
        ctx: C,
        world: World<R>,
        inputs: (&A, &B, &D, &E),
        after: Self,
        ctx_after: C,
        world_after: World<R>,
        out: Out,
    ) -> bool {
        &&& after == *self
        &&& exists|held: T|
            #[trigger] effect_mmppppp(
                self.f,
                ctx,
                world.held::<T, I>(),
                &world.held::<U, J>(),
                inputs.0,
                inputs.1,
                inputs.2,
                inputs.3,
                ctx_after,
                held,
                out,
            )
                && world_after == world.holding::<T, I>(held)
    }

    fn call(&mut self, ctx: &mut C, world: &mut World<R>, inputs: (&A, &B, &D, &E)) -> (out: Out) {
        broadcast use vstd::function::group_function_axioms;

        let (second, first): (&U, &mut T) = world.beside_mut::<U, J, T, I>();
        let out = (self.f)(ctx, &mut *first, second, inputs.0, inputs.1, inputs.2, inputs.3);
        record(
            effect_mmppppp_fact::<C, T, &U, &A, &B, &D, &E, Out, F>,
            Ghost((
                old(self).f,
                *old(ctx),
                old(world).held::<T, I>(),
                &old(world).held::<U, J>(),
                inputs.0,
                inputs.1,
                inputs.2,
                inputs.3,
                *ctx,
                *first,
                out,
            )),
        );
        assert(effect_mmppppp(
            old(self).f,
            *old(ctx),
            old(world).held::<T, I>(),
            &old(world).held::<U, J>(),
            inputs.0,
            inputs.1,
            inputs.2,
            inputs.3,
            *ctx,
            *first,
            out,
        ));
        out
    }
}

impl<
    R,
    T,
    I,
    U,
    J,
    C,
    A,
    B,
    D,
    E,
    Out,
    F: FnMut(&mut C, &mut T, &U, &A, &B, &D, &E) -> Out,
> IntoCtxMergeStep<R, C, (&A, &B, &D, &E), Out, (ResMut<T, I>, Res<U, J>)> for F where
    R: Apart<U, J, T, I>,
{
    type Step = CtxMergeStep<F, (ResMut<T, I>, Res<U, J>)>;

    open spec fn resolved(self) -> CtxMergeStep<F, (ResMut<T, I>, Res<U, J>)> {
        CtxMergeStep { f: self, params: PhantomData }
    }

    fn into_ctx_merge_step(
        self,
        registry: &Registry<R>,
    ) -> (step: CtxMergeStep<F, (ResMut<T, I>, Res<U, J>)>) {
        CtxMergeStep { f: self, params: PhantomData }
    }
}

impl<
    R,
    T,
    I,
    U,
    J,
    C,
    A,
    B,
    D,
    E,
    Out,
    F: FnMut(&mut C, &mut T, &mut U, &A, &B, &D, &E) -> Out,
> CtxMergeStepCall<R, C, (&A, &B, &D, &E), Out> for CtxMergeStep<F, (ResMut<T, I>, ResMut<U, J>)> where
    R: Apart<T, I, U, J>,
{
    open spec fn call_pre(&self, ctx: C, world: World<R>, inputs: (&A, &B, &D, &E)) -> bool {
        forall|r0: &mut C, r1: &mut T, r2: &mut U| *r0 == ctx
            && *r1 == world.held::<T, I>()
            && *r2 == world.held::<U, J>()
            ==> #[trigger] call_requires(
                self.f,
                (r0, r1, r2, inputs.0, inputs.1, inputs.2, inputs.3),
            )
    }

    open spec fn call_post(
        &self,
        ctx: C,
        world: World<R>,
        inputs: (&A, &B, &D, &E),
        after: Self,
        ctx_after: C,
        world_after: World<R>,
        out: Out,
    ) -> bool {
        &&& after == *self
        &&& exists|held: T, other: U|
            #[trigger] effect_mmmpppp(
                self.f,
                ctx,
                world.held::<T, I>(),
                world.held::<U, J>(),
                inputs.0,
                inputs.1,
                inputs.2,
                inputs.3,
                ctx_after,
                held,
                other,
                out,
            )
                && world_after == world.holding::<T, I>(held).holding::<U, J>(other)
    }

    fn call(&mut self, ctx: &mut C, world: &mut World<R>, inputs: (&A, &B, &D, &E)) -> (out: Out) {
        broadcast use vstd::function::group_function_axioms;

        let (first, second): (&mut T, &mut U) = world.both_mut::<T, I, U, J>();
        let out = (self.f)(ctx, &mut *first, &mut *second, inputs.0, inputs.1, inputs.2, inputs.3);
        record(
            effect_mmmpppp_fact::<C, T, U, &A, &B, &D, &E, Out, F>,
            Ghost((
                old(self).f,
                *old(ctx),
                old(world).held::<T, I>(),
                old(world).held::<U, J>(),
                inputs.0,
                inputs.1,
                inputs.2,
                inputs.3,
                *ctx,
                *first,
                *second,
                out,
            )),
        );
        assert(effect_mmmpppp(
            old(self).f,
            *old(ctx),
            old(world).held::<T, I>(),
            old(world).held::<U, J>(),
            inputs.0,
            inputs.1,
            inputs.2,
            inputs.3,
            *ctx,
            *first,
            *second,
            out,
        ));
        out
    }
}

impl<
    R,
    T,
    I,
    U,
    J,
    C,
    A,
    B,
    D,
    E,
    Out,
    F: FnMut(&mut C, &mut T, &mut U, &A, &B, &D, &E) -> Out,
> IntoCtxMergeStep<R, C, (&A, &B, &D, &E), Out, (ResMut<T, I>, ResMut<U, J>)> for F where
    R: Apart<T, I, U, J>,
{
    type Step = CtxMergeStep<F, (ResMut<T, I>, ResMut<U, J>)>;

    open spec fn resolved(self) -> CtxMergeStep<F, (ResMut<T, I>, ResMut<U, J>)> {
        CtxMergeStep { f: self, params: PhantomData }
    }

    fn into_ctx_merge_step(
        self,
        registry: &Registry<R>,
    ) -> (step: CtxMergeStep<F, (ResMut<T, I>, ResMut<U, J>)>) {
        CtxMergeStep { f: self, params: PhantomData }
    }
}

/// Shows the value to two arms, one after the other, and their results to a merge step.
pub struct CtxMergeNode2<Chain, C0, C1, MS, ForkOut, A0, A1, MOut> {
    pub chain: Chain,
    pub arm0: C0,
    pub arm1: C1,
    pub merge: MS,
    pub marker: PhantomData<(ForkOut, A0, A1, MOut)>,
}

impl<
    R,
    C,
    In,
    Chain,
    C0,
    C1,
    MS,
    ForkOut,
    A0,
    A1,
    MOut,
> CtxChainCall<R, C, In> for CtxMergeNode2<Chain, C0, C1, MS, ForkOut, A0, A1, MOut> where
    Chain: CtxChainCall<R, C, In, Out = ForkOut>,
    C0: for<'a> CtxChainCall<R, C, &'a ForkOut, Out = A0>,
    C1: for<'a> CtxChainCall<R, C, &'a ForkOut, Out = A1>,
    MS: for<'x> CtxMergeStepCall<R, C, (&'x A0, &'x A1), MOut>,
{
    type Out = MOut;

    open spec fn call_pre(&self, ctx: C, world: World<R>, input: In) -> bool {
        &&& self.chain.call_pre(ctx, world, input)
        &&& forall|chain: Chain, ctx1: C, world1: World<R>, forked: ForkOut|
            #[trigger] self.chain.call_post(ctx, world, input, chain, ctx1, world1, forked) ==> {
                &&& self.arm0.call_pre(ctx1, world1, &forked)
                &&& forall|arm: C0, ctx2: C, world2: World<R>, o0: A0|
                    #[trigger] self.arm0.call_post(ctx1, world1, &forked, arm, ctx2, world2, o0)
                        ==> {
                        &&& self.arm1.call_pre(ctx2, world2, &forked)
                        &&& forall|arm: C1, ctx3: C, world3: World<R>, o1: A1|
                            #[trigger] self.arm1.call_post(
                                ctx2,
                                world2,
                                &forked,
                                arm,
                                ctx3,
                                world3,
                                o1,
                            )
                                ==> {
                                self.merge.call_pre(ctx3, world3, (&o0, &o1))
                            }
                    }
            }
    }

    open spec fn call_post(
        &self,
        ctx: C,
        world: World<R>,
        input: In,
        after: Self,
        ctx_after: C,
        world_after: World<R>,
        out: MOut,
    ) -> bool {
        exists|
            ctx1: C,
            world1: World<R>,
            forked: ForkOut,
            ctx2: C,
            world2: World<R>,
            o0: A0,
            ctx3: C,
            world3: World<R>,
            o1: A1,
        |
            #[trigger] self.chain.call_post(ctx, world, input, after.chain, ctx1, world1, forked)
                && #[trigger] self.arm0.call_post(
                    ctx1,
                    world1,
                    &forked,
                    after.arm0,
                    ctx2,
                    world2,
                    o0,
                )
                && #[trigger] self.arm1.call_post(
                    ctx2,
                    world2,
                    &forked,
                    after.arm1,
                    ctx3,
                    world3,
                    o1,
                )
                && self.merge.call_post(
                    ctx3,
                    world3,
                    (&o0, &o1),
                    after.merge,
                    ctx_after,
                    world_after,
                    out,
                )
    }

    fn call(&mut self, ctx: &mut C, world: &mut World<R>, input: In) -> (out: MOut) {
        let forked = self.chain.call(ctx, world, input);
        let ghost ctx1 = *ctx;
        let ghost world1 = *world;
        let o0 = self.arm0.call(ctx, world, &forked);
        let ghost ctx2 = *ctx;
        let ghost world2 = *world;
        let o1 = self.arm1.call(ctx, world, &forked);
        let ghost ctx3 = *ctx;
        let ghost world3 = *world;
        let out = self.merge.call(ctx, world, (&o0, &o1));
        assert(old(self).chain.call_post(
            *old(ctx),
            *old(world),
            input,
            self.chain,
            ctx1,
            world1,
            forked,
        ));
        assert(old(self).arm0.call_post(ctx1, world1, &forked, self.arm0, ctx2, world2, o0));
        assert(old(self).arm1.call_post(ctx2, world2, &forked, self.arm1, ctx3, world3, o1));
        out
    }
}

/// Shows the value to three arms, one after the other, and their results to a merge step.
pub struct CtxMergeNode3<Chain, C0, C1, C2, MS, ForkOut, A0, A1, A2, MOut> {
    pub chain: Chain,
    pub arm0: C0,
    pub arm1: C1,
    pub arm2: C2,
    pub merge: MS,
    pub marker: PhantomData<(ForkOut, A0, A1, A2, MOut)>,
}

impl<
    R,
    C,
    In,
    Chain,
    C0,
    C1,
    C2,
    MS,
    ForkOut,
    A0,
    A1,
    A2,
    MOut,
> CtxChainCall<R, C, In> for CtxMergeNode3<Chain, C0, C1, C2, MS, ForkOut, A0, A1, A2, MOut> where
    Chain: CtxChainCall<R, C, In, Out = ForkOut>,
    C0: for<'a> CtxChainCall<R, C, &'a ForkOut, Out = A0>,
    C1: for<'a> CtxChainCall<R, C, &'a ForkOut, Out = A1>,
    C2: for<'a> CtxChainCall<R, C, &'a ForkOut, Out = A2>,
    MS: for<'x> CtxMergeStepCall<R, C, (&'x A0, &'x A1, &'x A2), MOut>,
{
    type Out = MOut;

    open spec fn call_pre(&self, ctx: C, world: World<R>, input: In) -> bool {
        &&& self.chain.call_pre(ctx, world, input)
        &&& forall|chain: Chain, ctx1: C, world1: World<R>, forked: ForkOut|
            #[trigger] self.chain.call_post(ctx, world, input, chain, ctx1, world1, forked) ==> {
                &&& self.arm0.call_pre(ctx1, world1, &forked)
                &&& forall|arm: C0, ctx2: C, world2: World<R>, o0: A0|
                    #[trigger] self.arm0.call_post(ctx1, world1, &forked, arm, ctx2, world2, o0)
                        ==> {
                        &&& self.arm1.call_pre(ctx2, world2, &forked)
                        &&& forall|arm: C1, ctx3: C, world3: World<R>, o1: A1|
                            #[trigger] self.arm1.call_post(
                                ctx2,
                                world2,
                                &forked,
                                arm,
                                ctx3,
                                world3,
                                o1,
                            )
                                ==> {
                                &&& self.arm2.call_pre(ctx3, world3, &forked)
                                &&& forall|arm: C2, ctx4: C, world4: World<R>, o2: A2|
                                    #[trigger] self.arm2.call_post(
                                        ctx3,
                                        world3,
                                        &forked,
                                        arm,
                                        ctx4,
                                        world4,
                                        o2,
                                    )
                                        ==> {
                                        self.merge.call_pre(ctx4, world4, (&o0, &o1, &o2))
                                    }
                            }
                    }
            }
    }

    open spec fn call_post(
        &self,
        ctx: C,
        world: World<R>,
        input: In,
        after: Self,
        ctx_after: C,
        world_after: World<R>,
        out: MOut,
    ) -> bool {
        exists|
            ctx1: C,
            world1: World<R>,
            forked: ForkOut,
            ctx2: C,
            world2: World<R>,
            o0: A0,
            ctx3: C,
            world3: World<R>,
            o1: A1,
            ctx4: C,
            world4: World<R>,
            o2: A2,
        |
            #[trigger] self.chain.call_post(ctx, world, input, after.chain, ctx1, world1, forked)
                && #[trigger] self.arm0.call_post(
                    ctx1,
                    world1,
                    &forked,
                    after.arm0,
                    ctx2,
                    world2,
                    o0,
                )
                && #[trigger] self.arm1.call_post(
                    ctx2,
                    world2,
                    &forked,
                    after.arm1,
                    ctx3,
                    world3,
                    o1,
                )
                && #[trigger] self.arm2.call_post(
                    ctx3,
                    world3,
                    &forked,
                    after.arm2,
                    ctx4,
                    world4,
                    o2,
                )
                && self.merge.call_post(
                    ctx4,
                    world4,
                    (&o0, &o1, &o2),
                    after.merge,
                    ctx_after,
                    world_after,
                    out,
                )
    }

    fn call(&mut self, ctx: &mut C, world: &mut World<R>, input: In) -> (out: MOut) {
        let forked = self.chain.call(ctx, world, input);
        let ghost ctx1 = *ctx;
        let ghost world1 = *world;
        let o0 = self.arm0.call(ctx, world, &forked);
        let ghost ctx2 = *ctx;
        let ghost world2 = *world;
        let o1 = self.arm1.call(ctx, world, &forked);
        let ghost ctx3 = *ctx;
        let ghost world3 = *world;
        let o2 = self.arm2.call(ctx, world, &forked);
        let ghost ctx4 = *ctx;
        let ghost world4 = *world;
        let out = self.merge.call(ctx, world, (&o0, &o1, &o2));
        assert(old(self).chain.call_post(
            *old(ctx),
            *old(world),
            input,
            self.chain,
            ctx1,
            world1,
            forked,
        ));
        assert(old(self).arm0.call_post(ctx1, world1, &forked, self.arm0, ctx2, world2, o0));
        assert(old(self).arm1.call_post(ctx2, world2, &forked, self.arm1, ctx3, world3, o1));
        assert(old(self).arm2.call_post(ctx3, world3, &forked, self.arm2, ctx4, world4, o2));
        out
    }
}

/// Shows the value to four arms, one after the other, and their results to a merge step.
pub struct CtxMergeNode4<Chain, C0, C1, C2, C3, MS, ForkOut, A0, A1, A2, A3, MOut> {
    pub chain: Chain,
    pub arm0: C0,
    pub arm1: C1,
    pub arm2: C2,
    pub arm3: C3,
    pub merge: MS,
    pub marker: PhantomData<(ForkOut, A0, A1, A2, A3, MOut)>,
}

impl<
    R,
    C,
    In,
    Chain,
    C0,
    C1,
    C2,
    C3,
    MS,
    ForkOut,
    A0,
    A1,
    A2,
    A3,
    MOut,
> CtxChainCall<R, C, In> for CtxMergeNode4<
    Chain,
    C0,
    C1,
    C2,
    C3,
    MS,
    ForkOut,
    A0,
    A1,
    A2,
    A3,
    MOut,
> where
    Chain: CtxChainCall<R, C, In, Out = ForkOut>,
    C0: for<'a> CtxChainCall<R, C, &'a ForkOut, Out = A0>,
    C1: for<'a> CtxChainCall<R, C, &'a ForkOut, Out = A1>,
    C2: for<'a> CtxChainCall<R, C, &'a ForkOut, Out = A2>,
    C3: for<'a> CtxChainCall<R, C, &'a ForkOut, Out = A3>,
    MS: for<'x> CtxMergeStepCall<R, C, (&'x A0, &'x A1, &'x A2, &'x A3), MOut>,
{
    type Out = MOut;

    open spec fn call_pre(&self, ctx: C, world: World<R>, input: In) -> bool {
        &&& self.chain.call_pre(ctx, world, input)
        &&& forall|chain: Chain, ctx1: C, world1: World<R>, forked: ForkOut|
            #[trigger] self.chain.call_post(ctx, world, input, chain, ctx1, world1, forked) ==> {
                &&& self.arm0.call_pre(ctx1, world1, &forked)
                &&& forall|arm: C0, ctx2: C, world2: World<R>, o0: A0|
                    #[trigger] self.arm0.call_post(ctx1, world1, &forked, arm, ctx2, world2, o0)
                        ==> {
                        &&& self.arm1.call_pre(ctx2, world2, &forked)
                        &&& forall|arm: C1, ctx3: C, world3: World<R>, o1: A1|
                            #[trigger] self.arm1.call_post(
                                ctx2,
                                world2,
                                &forked,
                                arm,
                                ctx3,
                                world3,
                                o1,
                            )
                                ==> {
                                &&& self.arm2.call_pre(ctx3, world3, &forked)
                                &&& forall|arm: C2, ctx4: C, world4: World<R>, o2: A2|
                                    #[trigger] self.arm2.call_post(
                                        ctx3,
                                        world3,
                                        &forked,
                                        arm,
                                        ctx4,
                                        world4,
                                        o2,
                                    )
                                        ==> {
                                        &&& self.arm3.call_pre(ctx4, world4, &forked)
                                        &&& forall|arm: C3, ctx5: C, world5: World<R>, o3: A3|
                                            #[trigger] self.arm3.call_post(
                                                ctx4,
                                                world4,
                                                &forked,
                                                arm,
                                                ctx5,
                                                world5,
                                                o3,
                                            )
                                                ==> {
                                                self.merge.call_pre(ctx5, world5, (&o0, &o1, &o2, &o3))
                                            }
                                    }
                            }
                    }
            }
    }

    open spec fn call_post(
        &self,
        ctx: C,
        world: World<R>,
        input: In,
        after: Self,
        ctx_after: C,
        world_after: World<R>,
        out: MOut,
    ) -> bool {
        exists|
            ctx1: C,
            world1: World<R>,
            forked: ForkOut,
            ctx2: C,
            world2: World<R>,
            o0: A0,
            ctx3: C,
            world3: World<R>,
            o1: A1,
            ctx4: C,
            world4: World<R>,
            o2: A2,
            ctx5: C,
            world5: World<R>,
            o3: A3,
        |
            #[trigger] self.chain.call_post(ctx, world, input, after.chain, ctx1, world1, forked)
                && #[trigger] self.arm0.call_post(
                    ctx1,
                    world1,
                    &forked,
                    after.arm0,
                    ctx2,
                    world2,
                    o0,
                )
                && #[trigger] self.arm1.call_post(
                    ctx2,
                    world2,
                    &forked,
                    after.arm1,
                    ctx3,
                    world3,
                    o1,
                )
                && #[trigger] self.arm2.call_post(
                    ctx3,
                    world3,
                    &forked,
                    after.arm2,
                    ctx4,
                    world4,
                    o2,
                )
                && #[trigger] self.arm3.call_post(
                    ctx4,
                    world4,
                    &forked,
                    after.arm3,
                    ctx5,
                    world5,
                    o3,
                )
                && self.merge.call_post(
                    ctx5,
                    world5,
                    (&o0, &o1, &o2, &o3),
                    after.merge,
                    ctx_after,
                    world_after,
                    out,
                )
    }

    fn call(&mut self, ctx: &mut C, world: &mut World<R>, input: In) -> (out: MOut) {
        let forked = self.chain.call(ctx, world, input);
        let ghost ctx1 = *ctx;
        let ghost world1 = *world;
        let o0 = self.arm0.call(ctx, world, &forked);
        let ghost ctx2 = *ctx;
        let ghost world2 = *world;
        let o1 = self.arm1.call(ctx, world, &forked);
        let ghost ctx3 = *ctx;
        let ghost world3 = *world;
        let o2 = self.arm2.call(ctx, world, &forked);
        let ghost ctx4 = *ctx;
        let ghost world4 = *world;
        let o3 = self.arm3.call(ctx, world, &forked);
        let ghost ctx5 = *ctx;
        let ghost world5 = *world;
        let out = self.merge.call(ctx, world, (&o0, &o1, &o2, &o3));
        assert(old(self).chain.call_post(
            *old(ctx),
            *old(world),
            input,
            self.chain,
            ctx1,
            world1,
            forked,
        ));
        assert(old(self).arm0.call_post(ctx1, world1, &forked, self.arm0, ctx2, world2, o0));
        assert(old(self).arm1.call_post(ctx2, world2, &forked, self.arm1, ctx3, world3, o1));
        assert(old(self).arm2.call_post(ctx3, world3, &forked, self.arm2, ctx4, world4, o2));
        assert(old(self).arm3.call_post(ctx4, world4, &forked, self.arm3, ctx5, world5, o3));
        out
    }
}

/// Shows the value to two arms, one after the other.
pub struct CtxJoinNode2<Chain, C0, C1, ForkOut> {
    pub chain: Chain,
    pub arm0: C0,
    pub arm1: C1,
    pub marker: PhantomData<ForkOut>,
}

impl<
    R,
    C,
    In,
    Chain,
    C0,
    C1,
    ForkOut,
> CtxChainCall<R, C, In> for CtxJoinNode2<Chain, C0, C1, ForkOut> where
    Chain: CtxChainCall<R, C, In, Out = ForkOut>,
    C0: for<'a> CtxChainCall<R, C, &'a ForkOut, Out = ()>,
    C1: for<'a> CtxChainCall<R, C, &'a ForkOut, Out = ()>,
{
    type Out = ();

    open spec fn call_pre(&self, ctx: C, world: World<R>, input: In) -> bool {
        &&& self.chain.call_pre(ctx, world, input)
        &&& forall|chain: Chain, ctx1: C, world1: World<R>, forked: ForkOut|
            #[trigger] self.chain.call_post(ctx, world, input, chain, ctx1, world1, forked) ==> {
                &&& self.arm0.call_pre(ctx1, world1, &forked)
                &&& forall|arm: C0, ctx2: C, world2: World<R>, o0: ()|
                    #[trigger] self.arm0.call_post(ctx1, world1, &forked, arm, ctx2, world2, o0)
                        ==> {
                        self.arm1.call_pre(ctx2, world2, &forked)
                    }
            }
    }

    open spec fn call_post(
        &self,
        ctx: C,
        world: World<R>,
        input: In,
        after: Self,
        ctx_after: C,
        world_after: World<R>,
        out: (),
    ) -> bool {
        exists|ctx1: C, world1: World<R>, forked: ForkOut, ctx2: C, world2: World<R>|
            #[trigger] self.chain.call_post(ctx, world, input, after.chain, ctx1, world1, forked)
                && #[trigger] self.arm0.call_post(
                    ctx1,
                    world1,
                    &forked,
                    after.arm0,
                    ctx2,
                    world2,
                    (),
                )
                && self.arm1.call_post(
                    ctx2,
                    world2,
                    &forked,
                    after.arm1,
                    ctx_after,
                    world_after,
                    (),
                )
    }

    fn call(&mut self, ctx: &mut C, world: &mut World<R>, input: In) -> (out: ()) {
        let forked = self.chain.call(ctx, world, input);
        let ghost ctx1 = *ctx;
        let ghost world1 = *world;
        self.arm0.call(ctx, world, &forked);
        let ghost ctx2 = *ctx;
        let ghost world2 = *world;
        self.arm1.call(ctx, world, &forked);
        assert(old(self).chain.call_post(
            *old(ctx),
            *old(world),
            input,
            self.chain,
            ctx1,
            world1,
            forked,
        ));
        assert(old(self).arm0.call_post(ctx1, world1, &forked, self.arm0, ctx2, world2, ()));
        assert(old(self).arm1.call_post(ctx2, world2, &forked, self.arm1, *ctx, *world, ()));
    }
}

/// Shows the value to three arms, one after the other.
pub struct CtxJoinNode3<Chain, C0, C1, C2, ForkOut> {
    pub chain: Chain,
    pub arm0: C0,
    pub arm1: C1,
    pub arm2: C2,
    pub marker: PhantomData<ForkOut>,
}

impl<
    R,
    C,
    In,
    Chain,
    C0,
    C1,
    C2,
    ForkOut,
> CtxChainCall<R, C, In> for CtxJoinNode3<Chain, C0, C1, C2, ForkOut> where
    Chain: CtxChainCall<R, C, In, Out = ForkOut>,
    C0: for<'a> CtxChainCall<R, C, &'a ForkOut, Out = ()>,
    C1: for<'a> CtxChainCall<R, C, &'a ForkOut, Out = ()>,
    C2: for<'a> CtxChainCall<R, C, &'a ForkOut, Out = ()>,
{
    type Out = ();

    open spec fn call_pre(&self, ctx: C, world: World<R>, input: In) -> bool {
        &&& self.chain.call_pre(ctx, world, input)
        &&& forall|chain: Chain, ctx1: C, world1: World<R>, forked: ForkOut|
            #[trigger] self.chain.call_post(ctx, world, input, chain, ctx1, world1, forked) ==> {
                &&& self.arm0.call_pre(ctx1, world1, &forked)
                &&& forall|arm: C0, ctx2: C, world2: World<R>, o0: ()|
                    #[trigger] self.arm0.call_post(ctx1, world1, &forked, arm, ctx2, world2, o0)
                        ==> {
                        &&& self.arm1.call_pre(ctx2, world2, &forked)
                        &&& forall|arm: C1, ctx3: C, world3: World<R>, o1: ()|
                            #[trigger] self.arm1.call_post(
                                ctx2,
                                world2,
                                &forked,
                                arm,
                                ctx3,
                                world3,
                                o1,
                            )
                                ==> {
                                self.arm2.call_pre(ctx3, world3, &forked)
                            }
                    }
            }
    }

    open spec fn call_post(
        &self,
        ctx: C,
        world: World<R>,
        input: In,
        after: Self,
        ctx_after: C,
        world_after: World<R>,
        out: (),
    ) -> bool {
        exists|
            ctx1: C,
            world1: World<R>,
            forked: ForkOut,
            ctx2: C,
            world2: World<R>,
            ctx3: C,
            world3: World<R>,
        |
            #[trigger] self.chain.call_post(ctx, world, input, after.chain, ctx1, world1, forked)
                && #[trigger] self.arm0.call_post(
                    ctx1,
                    world1,
                    &forked,
                    after.arm0,
                    ctx2,
                    world2,
                    (),
                )
                && #[trigger] self.arm1.call_post(
                    ctx2,
                    world2,
                    &forked,
                    after.arm1,
                    ctx3,
                    world3,
                    (),
                )
                && self.arm2.call_post(
                    ctx3,
                    world3,
                    &forked,
                    after.arm2,
                    ctx_after,
                    world_after,
                    (),
                )
    }

    fn call(&mut self, ctx: &mut C, world: &mut World<R>, input: In) -> (out: ()) {
        let forked = self.chain.call(ctx, world, input);
        let ghost ctx1 = *ctx;
        let ghost world1 = *world;
        self.arm0.call(ctx, world, &forked);
        let ghost ctx2 = *ctx;
        let ghost world2 = *world;
        self.arm1.call(ctx, world, &forked);
        let ghost ctx3 = *ctx;
        let ghost world3 = *world;
        self.arm2.call(ctx, world, &forked);
        assert(old(self).chain.call_post(
            *old(ctx),
            *old(world),
            input,
            self.chain,
            ctx1,
            world1,
            forked,
        ));
        assert(old(self).arm0.call_post(ctx1, world1, &forked, self.arm0, ctx2, world2, ()));
        assert(old(self).arm1.call_post(ctx2, world2, &forked, self.arm1, ctx3, world3, ()));
        assert(old(self).arm2.call_post(ctx3, world3, &forked, self.arm2, *ctx, *world, ()));
    }
}

/// Shows the value to four arms, one after the other.
pub struct CtxJoinNode4<Chain, C0, C1, C2, C3, ForkOut> {
    pub chain: Chain,
    pub arm0: C0,
    pub arm1: C1,
    pub arm2: C2,
    pub arm3: C3,
    pub marker: PhantomData<ForkOut>,
}

impl<
    R,
    C,
    In,
    Chain,
    C0,
    C1,
    C2,
    C3,
    ForkOut,
> CtxChainCall<R, C, In> for CtxJoinNode4<Chain, C0, C1, C2, C3, ForkOut> where
    Chain: CtxChainCall<R, C, In, Out = ForkOut>,
    C0: for<'a> CtxChainCall<R, C, &'a ForkOut, Out = ()>,
    C1: for<'a> CtxChainCall<R, C, &'a ForkOut, Out = ()>,
    C2: for<'a> CtxChainCall<R, C, &'a ForkOut, Out = ()>,
    C3: for<'a> CtxChainCall<R, C, &'a ForkOut, Out = ()>,
{
    type Out = ();

    open spec fn call_pre(&self, ctx: C, world: World<R>, input: In) -> bool {
        &&& self.chain.call_pre(ctx, world, input)
        &&& forall|chain: Chain, ctx1: C, world1: World<R>, forked: ForkOut|
            #[trigger] self.chain.call_post(ctx, world, input, chain, ctx1, world1, forked) ==> {
                &&& self.arm0.call_pre(ctx1, world1, &forked)
                &&& forall|arm: C0, ctx2: C, world2: World<R>, o0: ()|
                    #[trigger] self.arm0.call_post(ctx1, world1, &forked, arm, ctx2, world2, o0)
                        ==> {
                        &&& self.arm1.call_pre(ctx2, world2, &forked)
                        &&& forall|arm: C1, ctx3: C, world3: World<R>, o1: ()|
                            #[trigger] self.arm1.call_post(
                                ctx2,
                                world2,
                                &forked,
                                arm,
                                ctx3,
                                world3,
                                o1,
                            )
                                ==> {
                                &&& self.arm2.call_pre(ctx3, world3, &forked)
                                &&& forall|arm: C2, ctx4: C, world4: World<R>, o2: ()|
                                    #[trigger] self.arm2.call_post(
                                        ctx3,
                                        world3,
                                        &forked,
                                        arm,
                                        ctx4,
                                        world4,
                                        o2,
                                    )
                                        ==> {
                                        self.arm3.call_pre(ctx4, world4, &forked)
                                    }
                            }
                    }
            }
    }

    open spec fn call_post(
        &self,
        ctx: C,
        world: World<R>,
        input: In,
        after: Self,
        ctx_after: C,
        world_after: World<R>,
        out: (),
    ) -> bool {
        exists|
            ctx1: C,
            world1: World<R>,
            forked: ForkOut,
            ctx2: C,
            world2: World<R>,
            ctx3: C,
            world3: World<R>,
            ctx4: C,
            world4: World<R>,
        |
            #[trigger] self.chain.call_post(ctx, world, input, after.chain, ctx1, world1, forked)
                && #[trigger] self.arm0.call_post(
                    ctx1,
                    world1,
                    &forked,
                    after.arm0,
                    ctx2,
                    world2,
                    (),
                )
                && #[trigger] self.arm1.call_post(
                    ctx2,
                    world2,
                    &forked,
                    after.arm1,
                    ctx3,
                    world3,
                    (),
                )
                && #[trigger] self.arm2.call_post(
                    ctx3,
                    world3,
                    &forked,
                    after.arm2,
                    ctx4,
                    world4,
                    (),
                )
                && self.arm3.call_post(
                    ctx4,
                    world4,
                    &forked,
                    after.arm3,
                    ctx_after,
                    world_after,
                    (),
                )
    }

    fn call(&mut self, ctx: &mut C, world: &mut World<R>, input: In) -> (out: ()) {
        let forked = self.chain.call(ctx, world, input);
        let ghost ctx1 = *ctx;
        let ghost world1 = *world;
        self.arm0.call(ctx, world, &forked);
        let ghost ctx2 = *ctx;
        let ghost world2 = *world;
        self.arm1.call(ctx, world, &forked);
        let ghost ctx3 = *ctx;
        let ghost world3 = *world;
        self.arm2.call(ctx, world, &forked);
        let ghost ctx4 = *ctx;
        let ghost world4 = *world;
        self.arm3.call(ctx, world, &forked);
        assert(old(self).chain.call_post(
            *old(ctx),
            *old(world),
            input,
            self.chain,
            ctx1,
            world1,
            forked,
        ));
        assert(old(self).arm0.call_post(ctx1, world1, &forked, self.arm0, ctx2, world2, ()));
        assert(old(self).arm1.call_post(ctx2, world2, &forked, self.arm1, ctx3, world3, ()));
        assert(old(self).arm2.call_post(ctx3, world3, &forked, self.arm2, ctx4, world4, ()));
        assert(old(self).arm3.call_post(ctx4, world4, &forked, self.arm3, *ctx, *world, ()));
    }
}

/// Each of the two arms is shown the value at the fork, whatever the arms before it gave, and the
/// merge step is shown what each of them gave: an arm that gives `None` or an error keeps no
/// other from being called.
pub proof fn lemma_ctx_arms_of_merge2<
    R,
    C,
    In,
    ForkOut,
    A0,
    A1,
    MOut,
    Chain: CtxChainCall<R, C, In, Out = ForkOut>,
    C0: for<'a> CtxChainCall<R, C, &'a ForkOut, Out = A0>,
    C1: for<'a> CtxChainCall<R, C, &'a ForkOut, Out = A1>,
    MS: for<'x> CtxMergeStepCall<R, C, (&'x A0, &'x A1), MOut>,
>(
    node: CtxMergeNode2<Chain, C0, C1, MS, ForkOut, A0, A1, MOut>,
    ctx: C,
    world: World<R>,
    input: In,
    after: CtxMergeNode2<Chain, C0, C1, MS, ForkOut, A0, A1, MOut>,
    ctx_after: C,
    world_after: World<R>,
    out: MOut,
)
    requires
        node.call_post(ctx, world, input, after, ctx_after, world_after, out),
    ensures
        exists|
            ctx1: C,
            world1: World<R>,
            forked: ForkOut,
            ctx2: C,
            world2: World<R>,
            o0: A0,
            ctx3: C,
            world3: World<R>,
            o1: A1,
        |
            #[trigger] node.chain.call_post(ctx, world, input, after.chain, ctx1, world1, forked)
                && #[trigger] node.arm0.call_post(
                    ctx1,
                    world1,
                    &forked,
                    after.arm0,
                    ctx2,
                    world2,
                    o0,
                )
                && #[trigger] node.arm1.call_post(
                    ctx2,
                    world2,
                    &forked,
                    after.arm1,
                    ctx3,
                    world3,
                    o1,
                )
                && node.merge.call_post(
                    ctx3,
                    world3,
                    (&o0, &o1),
                    after.merge,
                    ctx_after,
                    world_after,
                    out,
                ),
{
}

/// Each of the two arms is shown the value at the fork, one after the other.
pub proof fn lemma_ctx_arms_of_join2<
    R,
    C,
    In,
    ForkOut,
    Chain: CtxChainCall<R, C, In, Out = ForkOut>,
    C0: for<'a> CtxChainCall<R, C, &'a ForkOut, Out = ()>,
    C1: for<'a> CtxChainCall<R, C, &'a ForkOut, Out = ()>,
>(
    node: CtxJoinNode2<Chain, C0, C1, ForkOut>,
    ctx: C,
    world: World<R>,
    input: In,
    after: CtxJoinNode2<Chain, C0, C1, ForkOut>,
    ctx_after: C,
    world_after: World<R>,
)
    requires
        node.call_post(ctx, world, input, after, ctx_after, world_after, ()),
    ensures
        exists|ctx1: C, world1: World<R>, forked: ForkOut, ctx2: C, world2: World<R>|
            #[trigger] node.chain.call_post(ctx, world, input, after.chain, ctx1, world1, forked)
                && #[trigger] node.arm0.call_post(
                    ctx1,
                    world1,
                    &forked,
                    after.arm0,
                    ctx2,
                    world2,
                    (),
                )
                && node.arm1.call_post(
                    ctx2,
                    world2,
                    &forked,
                    after.arm1,
                    ctx_after,
                    world_after,
                    (),
                ),
{
}

/// Each of the three arms is shown the value at the fork, whatever the arms before it gave, and the
/// merge step is shown what each of them gave: an arm that gives `None` or an error keeps no
/// other from being called.
pub proof fn lemma_ctx_arms_of_merge3<
    R,
    C,
    In,
    ForkOut,
    A0,
    A1,
    A2,
    MOut,
    Chain: CtxChainCall<R, C, In, Out = ForkOut>,
    C0: for<'a> CtxChainCall<R, C, &'a ForkOut, Out = A0>,
    C1: for<'a> CtxChainCall<R, C, &'a ForkOut, Out = A1>,
    C2: for<'a> CtxChainCall<R, C, &'a ForkOut, Out = A2>,
    MS: for<'x> CtxMergeStepCall<R, C, (&'x A0, &'x A1, &'x A2), MOut>,
>(
    node: CtxMergeNode3<Chain, C0, C1, C2, MS, ForkOut, A0, A1, A2, MOut>,
    ctx: C,
    world: World<R>,
    input: In,
    after: CtxMergeNode3<Chain, C0, C1, C2, MS, ForkOut, A0, A1, A2, MOut>,
    ctx_after: C,
    world_after: World<R>,
    out: MOut,
)
    requires
        node.call_post(ctx, world, input, after, ctx_after, world_after, out),
    ensures
        exists|
            ctx1: C,
            world1: World<R>,
            forked: ForkOut,
            ctx2: C,
            world2: World<R>,
            o0: A0,
            ctx3: C,
            world3: World<R>,
            o1: A1,
            ctx4: C,
            world4: World<R>,
            o2: A2,
        |
            #[trigger] node.chain.call_post(ctx, world, input, after.chain, ctx1, world1, forked)
                && #[trigger] node.arm0.call_post(
                    ctx1,
                    world1,
                    &forked,
                    after.arm0,
                    ctx2,
                    world2,
                    o0,
                )
                && #[trigger] node.arm1.call_post(
                    ctx2,
                    world2,
                    &forked,
                    after.arm1,
                    ctx3,
                    world3,
                    o1,
                )
                && #[trigger] node.arm2.call_post(
                    ctx3,
                    world3,
                    &forked,
                    after.arm2,
                    ctx4,
                    world4,
                    o2,
                )
                && node.merge.call_post(
                    ctx4,
                    world4,
                    (&o0, &o1, &o2),
                    after.merge,
                    ctx_after,
                    world_after,
                    out,
                ),
{
}

/// Each of the three arms is shown the value at the fork, one after the other.
pub proof fn lemma_ctx_arms_of_join3<
    R,
    C,
    In,
    ForkOut,
    Chain: CtxChainCall<R, C, In, Out = ForkOut>,
    C0: for<'a> CtxChainCall<R, C, &'a ForkOut, Out = ()>,
    C1: for<'a> CtxChainCall<R, C, &'a ForkOut, Out = ()>,
    C2: for<'a> CtxChainCall<R, C, &'a ForkOut, Out = ()>,
>(
    node: CtxJoinNode3<Chain, C0, C1, C2, ForkOut>,
    ctx: C,
    world: World<R>,
    input: In,
    after: CtxJoinNode3<Chain, C0, C1, C2, ForkOut>,
    ctx_after: C,
    world_after: World<R>,
)
    requires
        node.call_post(ctx, world, input, after, ctx_after, world_after, ()),
    ensures
        exists|
            ctx1: C,
            world1: World<R>,
            forked: ForkOut,
            ctx2: C,
            world2: World<R>,
            ctx3: C,
            world3: World<R>,
        |
            #[trigger] node.chain.call_post(ctx, world, input, after.chain, ctx1, world1, forked)
                && #[trigger] node.arm0.call_post(
                    ctx1,
                    world1,
                    &forked,
                    after.arm0,
                    ctx2,
                    world2,
                    (),
                )
                && #[trigger] node.arm1.call_post(
                    ctx2,
                    world2,
                    &forked,
                    after.arm1,
                    ctx3,
                    world3,
                    (),
                )
                && node.arm2.call_post(
                    ctx3,
                    world3,
                    &forked,
                    after.arm2,
                    ctx_after,
                    world_after,
                    (),
                ),
{
}

/// Each of the four arms is shown the value at the fork, whatever the arms before it gave, and the
/// merge step is shown what each of them gave: an arm that gives `None` or an error keeps no
/// other from being called.
pub proof fn lemma_ctx_arms_of_merge4<
    R,
    C,
    In,
    ForkOut,
    A0,
    A1,
    A2,
    A3,
    MOut,
    Chain: CtxChainCall<R, C, In, Out = ForkOut>,
    C0: for<'a> CtxChainCall<R, C, &'a ForkOut, Out = A0>,
    C1: for<'a> CtxChainCall<R, C, &'a ForkOut, Out = A1>,
    C2: for<'a> CtxChainCall<R, C, &'a ForkOut, Out = A2>,
    C3: for<'a> CtxChainCall<R, C, &'a ForkOut, Out = A3>,
    MS: for<'x> CtxMergeStepCall<R, C, (&'x A0, &'x A1, &'x A2, &'x A3), MOut>,
>(
    node: CtxMergeNode4<Chain, C0, C1, C2, C3, MS, ForkOut, A0, A1, A2, A3, MOut>,
    ctx: C,
    world: World<R>,
    input: In,
    after: CtxMergeNode4<Chain, C0, C1, C2, C3, MS, ForkOut, A0, A1, A2, A3, MOut>,
    ctx_after: C,
    world_after: World<R>,
    out: MOut,
)
    requires
        node.call_post(ctx, world, input, after, ctx_after, world_after, out),
    ensures
        exists|
            ctx1: C,
            world1: World<R>,
            forked: ForkOut,
            ctx2: C,
            world2: World<R>,
            o0: A0,
            ctx3: C,
            world3: World<R>,
            o1: A1,
            ctx4: C,
            world4: World<R>,
            o2: A2,
            ctx5: C,
            world5: World<R>,
            o3: A3,
        |
            #[trigger] node.chain.call_post(ctx, world, input, after.chain, ctx1, world1, forked)
                && #[trigger] node.arm0.call_post(
                    ctx1,
                    world1,
                    &forked,
                    after.arm0,
                    ctx2,
                    world2,
                    o0,
                )
                && #[trigger] node.arm1.call_post(
                    ctx2,
                    world2,
                    &forked,
                    after.arm1,
                    ctx3,
                    world3,
                    o1,
                )
                && #[trigger] node.arm2.call_post(
                    ctx3,
                    world3,
                    &forked,
                    after.arm2,
                    ctx4,
                    world4,
                    o2,
                )
                && #[trigger] node.arm3.call_post(
                    ctx4,
                    world4,
                    &forked,
                    after.arm3,
                    ctx5,
                    world5,
                    o3,
                )
                && node.merge.call_post(
                    ctx5,
                    world5,
                    (&o0, &o1, &o2, &o3),
                    after.merge,
                    ctx_after,
                    world_after,
                    out,
                ),
{
}

/// Each of the four arms is shown the value at the fork, one after the other.
pub proof fn lemma_ctx_arms_of_join4<
    R,
    C,
    In,
    ForkOut,
    Chain: CtxChainCall<R, C, In, Out = ForkOut>,
    C0: for<'a> CtxChainCall<R, C, &'a ForkOut, Out = ()>,
    C1: for<'a> CtxChainCall<R, C, &'a ForkOut, Out = ()>,
    C2: for<'a> CtxChainCall<R, C, &'a ForkOut, Out = ()>,
    C3: for<'a> CtxChainCall<R, C, &'a ForkOut, Out = ()>,
>(
    node: CtxJoinNode4<Chain, C0, C1, C2, C3, ForkOut>,
    ctx: C,
    world: World<R>,
    input: In,
    after: CtxJoinNode4<Chain, C0, C1, C2, C3, ForkOut>,
    ctx_after: C,
    world_after: World<R>,
)
    requires
        node.call_post(ctx, world, input, after, ctx_after, world_after, ()),
    ensures
        exists|
            ctx1: C,
            world1: World<R>,
            forked: ForkOut,
            ctx2: C,
            world2: World<R>,
            ctx3: C,
            world3: World<R>,
            ctx4: C,
            world4: World<R>,
        |
            #[trigger] node.chain.call_post(ctx, world, input, after.chain, ctx1, world1, forked)
                && #[trigger] node.arm0.call_post(
                    ctx1,
                    world1,
                    &forked,
                    after.arm0,
                    ctx2,
                    world2,
                    (),
                )
                && #[trigger] node.arm1.call_post(
                    ctx2,
                    world2,
                    &forked,
                    after.arm1,
                    ctx3,
                    world3,
                    (),
                )
                && #[trigger] node.arm2.call_post(
                    ctx3,
                    world3,
                    &forked,
                    after.arm2,
                    ctx4,
                    world4,
                    (),
                )
                && node.arm3.call_post(
                    ctx4,
                    world4,
                    &forked,
                    after.arm3,
                    ctx_after,
                    world_after,
                    (),
                ),
{
}

} // verus!
