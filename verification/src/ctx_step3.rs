//! Functions of three resources as steps that are handed a context.
use crate::ctx_step::{
    CtxProducerCall, CtxRefStepCall, CtxStep, CtxStepCall, IntoCtxProducer, IntoCtxRefStep,
    IntoCtxStep,
};
use crate::effect::{
    effect_mmmm, effect_mmmm_fact, effect_mmmmp, effect_mmmmp_fact, effect_mmmp, effect_mmmp_fact,
    effect_mmmpp, effect_mmmpp_fact, effect_mmpm, effect_mmpm_fact, effect_mmpmp,
    effect_mmpmp_fact, effect_mmpp, effect_mmpp_fact, effect_mmppp, effect_mmppp_fact, effect_mpmm,
    effect_mpmm_fact, effect_mpmmp, effect_mpmmp_fact, effect_mpmp, effect_mpmp_fact, effect_mpmpp,
    effect_mpmpp_fact, effect_mppm, effect_mppm_fact, effect_mppmp, effect_mppmp_fact, effect_mppp,
    effect_mppp_fact, effect_mpppp, effect_mpppp_fact, record,
};
use crate::handler::NoEvent;
use crate::world::{Apart3, Registry, Res, ResMut, Resource, World};
use std::marker::PhantomData;
use vstd::prelude::*;

verus! {

impl<
    R,
    T,
    I,
    U,
    J,
    V,
    K,
    C,
    In,
    Out,
    F: FnMut(&mut C, &T, &U, &V, In) -> Out,
> CtxStepCall<R, C, In> for CtxStep<F, (Res<T, I>, Res<U, J>, Res<V, K>), Out> where
    R: Resource<T, I> + Resource<U, J> + Resource<V, K>,
{
    type Out = Out;

    open spec fn call_pre(&self, ctx: C, world: World<R>, input: In) -> bool {
        forall|r0: &mut C| *r0 == ctx
            ==> #[trigger] call_requires(
                self.f,
                (r0, &world.held::<T, I>(), &world.held::<U, J>(), &world.held::<V, K>(), input),
            )
    }

    open spec fn call_post(
        &self,
        ctx: C,
        world: World<R>,
        input: In,
        after: Self,
        ctx_after: C,
        world_after: World<R>,
        out: Out,
    ) -> bool {
        &&& after == *self
        &&& world_after == world
        &&& effect_mpppp(
            self.f,
            ctx,
            &world.held::<T, I>(),
            &world.held::<U, J>(),
            &world.held::<V, K>(),
            input,
            ctx_after,
            out,
        )
    }

    fn call(&mut self, ctx: &mut C, world: &mut World<R>, input: In) -> (out: Out) {
        broadcast use vstd::function::group_function_axioms;

        let ghost input_given = input;
        let out = (self.f)(
            ctx,
            world.resource::<T, I>(),
            world.resource::<U, J>(),
            world.resource::<V, K>(),
            input,
        );
        record(
            effect_mpppp_fact::<C, &T, &U, &V, In, Out, F>,
            Ghost((
                old(self).f,
                *old(ctx),
                &old(world).held::<T, I>(),
                &old(world).held::<U, J>(),
                &old(world).held::<V, K>(),
                input_given,
                *ctx,
                out,
            )),
        );
        out
    }
}

impl<
    R,
    T,
    I,
    U,
    J,
    V,
    K,
    C,
    In,
    Out,
    F: FnMut(&mut C, &T, &U, &V, In) -> Out,
> IntoCtxStep<R, C, In, Out, (Res<T, I>, Res<U, J>, Res<V, K>)> for F where
    R: Resource<T, I> + Resource<U, J> + Resource<V, K>,
{
    type Step = CtxStep<F, (Res<T, I>, Res<U, J>, Res<V, K>), Out>;

    open spec fn resolved(self) -> CtxStep<F, (Res<T, I>, Res<U, J>, Res<V, K>), Out> {
        CtxStep { f: self, params: PhantomData }
    }

    fn into_ctx_step(
        self,
        registry: &Registry<R>,
    ) -> (step: CtxStep<F, (Res<T, I>, Res<U, J>, Res<V, K>), Out>) {
        CtxStep { f: self, params: PhantomData }
    }
}

impl<
    R,
    T,
    I,
    U,
    J,
    V,
    K,
    C,
    In,
    Out,
    F: FnMut(&mut C, &T, &U, &mut V, In) -> Out,
> CtxStepCall<R, C, In> for CtxStep<F, (Res<T, I>, Res<U, J>, ResMut<V, K>), Out> where
    R: Apart3<T, I, U, J, V, K>,
{
    type Out = Out;

    open spec fn call_pre(&self, ctx: C, world: World<R>, input: In) -> bool {
        forall|r0: &mut C, r3: &mut V| *r0 == ctx && *r3 == world.held::<V, K>()
            ==> #[trigger] call_requires(
                self.f,
                (r0, &world.held::<T, I>(), &world.held::<U, J>(), r3, input),
            )
    }

    open spec fn call_post(
        &self,
        ctx: C,
        world: World<R>,
        input: In,
        after: Self,
        ctx_after: C,
        world_after: World<R>,
        out: Out,
    ) -> bool {
        &&& after == *self
        &&& exists|held: V|
            #[trigger] effect_mppmp(
                self.f,
                ctx,
                &world.held::<T, I>(),
                &world.held::<U, J>(),
                world.held::<V, K>(),
                input,
                ctx_after,
                held,
                out,
            )
                && world_after == world.holding::<V, K>(held)
    }

    fn call(&mut self, ctx: &mut C, world: &mut World<R>, input: In) -> (out: Out) {
        broadcast use vstd::function::group_function_axioms;

        let ghost input_given = input;
        let (first, second, third) = world.beside_two_mut::<T, I, U, J, V, K>();
        let out = (self.f)(ctx, first, second, &mut *third, input);
        record(
            effect_mppmp_fact::<C, &T, &U, V, In, Out, F>,
            Ghost((
                old(self).f,
                *old(ctx),
                &old(world).held::<T, I>(),
                &old(world).held::<U, J>(),
                old(world).held::<V, K>(),
                input_given,
                *ctx,
                *third,
                out,
            )),
        );
        assert(effect_mppmp(
            old(self).f,
            *old(ctx),
            &old(world).held::<T, I>(),
            &old(world).held::<U, J>(),
            old(world).held::<V, K>(),
            input_given,
            *ctx,
            *third,
            out,
        ));
        out
    }
}

impl<
    R,
    T,
    I,
    U,
    J,
    V,
    K,
    C,
    In,
    Out,
    F: FnMut(&mut C, &T, &U, &mut V, In) -> Out,
> IntoCtxStep<R, C, In, Out, (Res<T, I>, Res<U, J>, ResMut<V, K>)> for F where
    R: Apart3<T, I, U, J, V, K>,
{
    type Step = CtxStep<F, (Res<T, I>, Res<U, J>, ResMut<V, K>), Out>;

    open spec fn resolved(self) -> CtxStep<F, (Res<T, I>, Res<U, J>, ResMut<V, K>), Out> {
        CtxStep { f: self, params: PhantomData }
    }

    fn into_ctx_step(
        self,
        registry: &Registry<R>,
    ) -> (step: CtxStep<F, (Res<T, I>, Res<U, J>, ResMut<V, K>), Out>) {
        CtxStep { f: self, params: PhantomData }
    }
}

impl<
    R,
    T,
    I,
    U,
    J,
    V,
    K,
    C,
    In,
    Out,
    F: FnMut(&mut C, &T, &mut U, &V, In) -> Out,
> CtxStepCall<R, C, In> for CtxStep<F, (Res<T, I>, ResMut<U, J>, Res<V, K>), Out> where
    R: Apart3<T, I, V, K, U, J>,
{
    type Out = Out;

    open spec fn call_pre(&self, ctx: C, world: World<R>, input: In) -> bool {
        forall|r0: &mut C, r2: &mut U| *r0 == ctx && *r2 == world.held::<U, J>()
            ==> #[trigger] call_requires(
                self.f,
                (r0, &world.held::<T, I>(), r2, &world.held::<V, K>(), input),
            )
    }

    open spec fn call_post(
        &self,
        ctx: C,
        world: World<R>,
        input: In,
        after: Self,
        ctx_after: C,
        world_after: World<R>,
        out: Out,
    ) -> bool {
        &&& after == *self
        &&& exists|held: U|
            #[trigger] effect_mpmpp(
                self.f,
                ctx,
                &world.held::<T, I>(),
                world.held::<U, J>(),
                &world.held::<V, K>(),
                input,
                ctx_after,
                held,
                out,
            )
                && world_after == world.holding::<U, J>(held)
    }

    fn call(&mut self, ctx: &mut C, world: &mut World<R>, input: In) -> (out: Out) {
        broadcast use vstd::function::group_function_axioms;

        let ghost input_given = input;
        let (first, third, second) = world.beside_two_mut::<T, I, V, K, U, J>();
        let out = (self.f)(ctx, first, &mut *second, third, input);
        record(
            effect_mpmpp_fact::<C, &T, U, &V, In, Out, F>,
            Ghost((
                old(self).f,
                *old(ctx),
                &old(world).held::<T, I>(),
                old(world).held::<U, J>(),
                &old(world).held::<V, K>(),
                input_given,
                *ctx,
                *second,
                out,
            )),
        );
        assert(effect_mpmpp(
            old(self).f,
            *old(ctx),
            &old(world).held::<T, I>(),
            old(world).held::<U, J>(),
            &old(world).held::<V, K>(),
            input_given,
            *ctx,
            *second,
            out,
        ));
        out
    }
}

impl<
    R,
    T,
    I,
    U,
    J,
    V,
    K,
    C,
    In,
    Out,
    F: FnMut(&mut C, &T, &mut U, &V, In) -> Out,
> IntoCtxStep<R, C, In, Out, (Res<T, I>, ResMut<U, J>, Res<V, K>)> for F where
    R: Apart3<T, I, V, K, U, J>,
{
    type Step = CtxStep<F, (Res<T, I>, ResMut<U, J>, Res<V, K>), Out>;

    open spec fn resolved(self) -> CtxStep<F, (Res<T, I>, ResMut<U, J>, Res<V, K>), Out> {
        CtxStep { f: self, params: PhantomData }
    }

    fn into_ctx_step(
        self,
        registry: &Registry<R>,
    ) -> (step: CtxStep<F, (Res<T, I>, ResMut<U, J>, Res<V, K>), Out>) {
        CtxStep { f: self, params: PhantomData }
    }
}

impl<
    R,
    T,
    I,
    U,
    J,
    V,
    K,
    C,
    In,
    Out,
    F: FnMut(&mut C, &T, &mut U, &mut V, In) -> Out,
> CtxStepCall<R, C, In> for CtxStep<F, (Res<T, I>, ResMut<U, J>, ResMut<V, K>), Out> where
    R: Apart3<T, I, U, J, V, K>,
{
    type Out = Out;

    open spec fn call_pre(&self, ctx: C, world: World<R>, input: In) -> bool {
        forall|r0: &mut C, r2: &mut U, r3: &mut V| *r0 == ctx
            && *r2 == world.held::<U, J>()
            && *r3 == world.held::<V, K>()
            ==> #[trigger] call_requires(self.f, (r0, &world.held::<T, I>(), r2, r3, input))
    }

    open spec fn call_post(
        &self,
        ctx: C,
        world: World<R>,
        input: In,
        after: Self,
        ctx_after: C,
        world_after: World<R>,
        out: Out,
    ) -> bool {
        &&& after == *self
        &&& exists|held: U, other: V|
            #[trigger] effect_mpmmp(
                self.f,
                ctx,
                &world.held::<T, I>(),
                world.held::<U, J>(),
                world.held::<V, K>(),
                input,
                ctx_after,
                held,
                other,
                out,
            )
                && world_after == world.holding::<U, J>(held).holding::<V, K>(other)
    }

    fn call(&mut self, ctx: &mut C, world: &mut World<R>, input: In) -> (out: Out) {
        broadcast use vstd::function::group_function_axioms;

        let ghost input_given = input;
        let (first, second, third) = world.beside_both_mut::<T, I, U, J, V, K>();
        let out = (self.f)(ctx, first, &mut *second, &mut *third, input);
        record(
            effect_mpmmp_fact::<C, &T, U, V, In, Out, F>,
            Ghost((
                old(self).f,
                *old(ctx),
                &old(world).held::<T, I>(),
                old(world).held::<U, J>(),
                old(world).held::<V, K>(),
                input_given,
                *ctx,
                *second,
                *third,
                out,
            )),
        );
        assert(effect_mpmmp(
            old(self).f,
            *old(ctx),
            &old(world).held::<T, I>(),
            old(world).held::<U, J>(),
            old(world).held::<V, K>(),
            input_given,
            *ctx,
            *second,
            *third,
            out,
        ));
        out
    }
}

impl<
    R,
    T,
    I,
    U,
    J,
    V,
    K,
    C,
    In,
    Out,
    F: FnMut(&mut C, &T, &mut U, &mut V, In) -> Out,
> IntoCtxStep<R, C, In, Out, (Res<T, I>, ResMut<U, J>, ResMut<V, K>)> for F where
    R: Apart3<T, I, U, J, V, K>,
{
    type Step = CtxStep<F, (Res<T, I>, ResMut<U, J>, ResMut<V, K>), Out>;

    open spec fn resolved(self) -> CtxStep<F, (Res<T, I>, ResMut<U, J>, ResMut<V, K>), Out> {
        CtxStep { f: self, params: PhantomData }
    }

    fn into_ctx_step(
        self,
        registry: &Registry<R>,
    ) -> (step: CtxStep<F, (Res<T, I>, ResMut<U, J>, ResMut<V, K>), Out>) {
        CtxStep { f: self, params: PhantomData }
    }
}

impl<
    R,
    T,
    I,
    U,
    J,
    V,
    K,
    C,
    In,
    Out,
    F: FnMut(&mut C, &mut T, &U, &V, In) -> Out,
> CtxStepCall<R, C, In> for CtxStep<F, (ResMut<T, I>, Res<U, J>, Res<V, K>), Out> where
    R: Apart3<U, J, V, K, T, I>,
{
    type Out = Out;

    open spec fn call_pre(&self, ctx: C, world: World<R>, input: In) -> bool {
        forall|r0: &mut C, r1: &mut T| *r0 == ctx && *r1 == world.held::<T, I>()
            ==> #[trigger] call_requires(
                self.f,
                (r0, r1, &world.held::<U, J>(), &world.held::<V, K>(), input),
            )
    }

    open spec fn call_post(
        &self,
        ctx: C,
        world: World<R>,
        input: In,
        after: Self,
        ctx_after: C,
        world_after: World<R>,
        out: Out,
    ) -> bool {
        &&& after == *self
        &&& exists|held: T|
            #[trigger] effect_mmppp(
                self.f,
                ctx,
                world.held::<T, I>(),
                &world.held::<U, J>(),
                &world.held::<V, K>(),
                input,
                ctx_after,
                held,
                out,
            )
                && world_after == world.holding::<T, I>(held)
    }

    fn call(&mut self, ctx: &mut C, world: &mut World<R>, input: In) -> (out: Out) {
        broadcast use vstd::function::group_function_axioms;

        let ghost input_given = input;
        let (second, third, first) = world.beside_two_mut::<U, J, V, K, T, I>();
        let out = (self.f)(ctx, &mut *first, second, third, input);
        record(
            effect_mmppp_fact::<C, T, &U, &V, In, Out, F>,
            Ghost((
                old(self).f,
                *old(ctx),
                old(world).held::<T, I>(),
                &old(world).held::<U, J>(),
                &old(world).held::<V, K>(),
                input_given,
                *ctx,
                *first,
                out,
            )),
        );
        assert(effect_mmppp(
            old(self).f,
            *old(ctx),
            old(world).held::<T, I>(),
            &old(world).held::<U, J>(),
            &old(world).held::<V, K>(),
            input_given,
            *ctx,
            *first,
            out,
        ));
        out
    }
}

impl<
    R,
    T,
    I,
    U,
    J,
    V,
    K,
    C,
    In,
    Out,
    F: FnMut(&mut C, &mut T, &U, &V, In) -> Out,
> IntoCtxStep<R, C, In, Out, (ResMut<T, I>, Res<U, J>, Res<V, K>)> for F where
    R: Apart3<U, J, V, K, T, I>,
{
    type Step = CtxStep<F, (ResMut<T, I>, Res<U, J>, Res<V, K>), Out>;

    open spec fn resolved(self) -> CtxStep<F, (ResMut<T, I>, Res<U, J>, Res<V, K>), Out> {
        CtxStep { f: self, params: PhantomData }
    }

    fn into_ctx_step(
        self,
        registry: &Registry<R>,
    ) -> (step: CtxStep<F, (ResMut<T, I>, Res<U, J>, Res<V, K>), Out>) {
        CtxStep { f: self, params: PhantomData }
    }
}

impl<
    R,
    T,
    I,
    U,
    J,
    V,
    K,
    C,
    In,
    Out,
    F: FnMut(&mut C, &mut T, &U, &mut V, In) -> Out,
> CtxStepCall<R, C, In> for CtxStep<F, (ResMut<T, I>, Res<U, J>, ResMut<V, K>), Out> where
    R: Apart3<U, J, T, I, V, K>,
{
    type Out = Out;

    open spec fn call_pre(&self, ctx: C, world: World<R>, input: In) -> bool {
        forall|r0: &mut C, r1: &mut T, r3: &mut V| *r0 == ctx
            && *r1 == world.held::<T, I>()
            && *r3 == world.held::<V, K>()
            ==> #[trigger] call_requires(self.f, (r0, r1, &world.held::<U, J>(), r3, input))
    }

    open spec fn call_post(
        &self,
        ctx: C,
        world: World<R>,
        input: In,
        after: Self,
        ctx_after: C,
        world_after: World<R>,
        out: Out,
    ) -> bool {
        &&& after == *self
        &&& exists|held: T, other: V|
            #[trigger] effect_mmpmp(
                self.f,
                ctx,
                world.held::<T, I>(),
                &world.held::<U, J>(),
                world.held::<V, K>(),
                input,
                ctx_after,
                held,
                other,
                out,
            )
                && world_after == world.holding::<T, I>(held).holding::<V, K>(other)
    }

    fn call(&mut self, ctx: &mut C, world: &mut World<R>, input: In) -> (out: Out) {
        broadcast use vstd::function::group_function_axioms;

        let ghost input_given = input;
        let (second, first, third) = world.beside_both_mut::<U, J, T, I, V, K>();
        let out = (self.f)(ctx, &mut *first, second, &mut *third, input);
        record(
            effect_mmpmp_fact::<C, T, &U, V, In, Out, F>,
            Ghost((
                old(self).f,
                *old(ctx),
                old(world).held::<T, I>(),
                &old(world).held::<U, J>(),
                old(world).held::<V, K>(),
                input_given,
                *ctx,
                *first,
                *third,
                out,
            )),
        );
        assert(effect_mmpmp(
            old(self).f,
            *old(ctx),
            old(world).held::<T, I>(),
            &old(world).held::<U, J>(),
            old(world).held::<V, K>(),
            input_given,
            *ctx,
            *first,
            *third,
            out,
        ));
        out
    }
}

impl<
    R,
    T,
    I,
    U,
    J,
    V,
    K,
    C,
    In,
    Out,
    F: FnMut(&mut C, &mut T, &U, &mut V, In) -> Out,
> IntoCtxStep<R, C, In, Out, (ResMut<T, I>, Res<U, J>, ResMut<V, K>)> for F where
    R: Apart3<U, J, T, I, V, K>,
{
    type Step = CtxStep<F, (ResMut<T, I>, Res<U, J>, ResMut<V, K>), Out>;

    open spec fn resolved(self) -> CtxStep<F, (ResMut<T, I>, Res<U, J>, ResMut<V, K>), Out> {
        CtxStep { f: self, params: PhantomData }
    }

    fn into_ctx_step(
        self,
        registry: &Registry<R>,
    ) -> (step: CtxStep<F, (ResMut<T, I>, Res<U, J>, ResMut<V, K>), Out>) {
        CtxStep { f: self, params: PhantomData }
    }
}

impl<
    R,
    T,
    I,
    U,
    J,
    V,
    K,
    C,
    In,
    Out,
    F: FnMut(&mut C, &mut T, &mut U, &V, In) -> Out,
> CtxStepCall<R, C, In> for CtxStep<F, (ResMut<T, I>, ResMut<U, J>, Res<V, K>), Out> where
    R: Apart3<V, K, T, I, U, J>,
{
    type Out = Out;

    open spec fn call_pre(&self, ctx: C, world: World<R>, input: In) -> bool {
        forall|r0: &mut C, r1: &mut T, r2: &mut U| *r0 == ctx
            && *r1 == world.held::<T, I>()
            && *r2 == world.held::<U, J>()
            ==> #[trigger] call_requires(self.f, (r0, r1, r2, &world.held::<V, K>(), input))
    }

    open spec fn call_post(
        &self,
        ctx: C,
        world: World<R>,
        input: In,
        after: Self,
        ctx_after: C,
        world_after: World<R>,
        out: Out,
    ) -> bool {
        &&& after == *self
        &&& exists|held: T, other: U|
            #[trigger] effect_mmmpp(
                self.f,
                ctx,
                world.held::<T, I>(),
                world.held::<U, J>(),
                &world.held::<V, K>(),
                input,
                ctx_after,
                held,
                other,
                out,
            )
                && world_after == world.holding::<T, I>(held).holding::<U, J>(other)
    }

    fn call(&mut self, ctx: &mut C, world: &mut World<R>, input: In) -> (out: Out) {
        broadcast use vstd::function::group_function_axioms;

        let ghost input_given = input;
        let (third, first, second) = world.beside_both_mut::<V, K, T, I, U, J>();
        let out = (self.f)(ctx, &mut *first, &mut *second, third, input);
        record(
            effect_mmmpp_fact::<C, T, U, &V, In, Out, F>,
            Ghost((
                old(self).f,
                *old(ctx),
                old(world).held::<T, I>(),
                old(world).held::<U, J>(),
                &old(world).held::<V, K>(),
                input_given,
                *ctx,
                *first,
                *second,
                out,
            )),
        );
        assert(effect_mmmpp(
            old(self).f,
            *old(ctx),
            old(world).held::<T, I>(),
            old(world).held::<U, J>(),
            &old(world).held::<V, K>(),
            input_given,
            *ctx,
            *first,
            *second,
            out,
        ));
        out
    }
}

impl<
    R,
    T,
    I,
    U,
    J,
    V,
    K,
    C,
    In,
    Out,
    F: FnMut(&mut C, &mut T, &mut U, &V, In) -> Out,
> IntoCtxStep<R, C, In, Out, (ResMut<T, I>, ResMut<U, J>, Res<V, K>)> for F where
    R: Apart3<V, K, T, I, U, J>,
{
    type Step = CtxStep<F, (ResMut<T, I>, ResMut<U, J>, Res<V, K>), Out>;

    open spec fn resolved(self) -> CtxStep<F, (ResMut<T, I>, ResMut<U, J>, Res<V, K>), Out> {
        CtxStep { f: self, params: PhantomData }
    }

    fn into_ctx_step(
        self,
        registry: &Registry<R>,
    ) -> (step: CtxStep<F, (ResMut<T, I>, ResMut<U, J>, Res<V, K>), Out>) {
        CtxStep { f: self, params: PhantomData }
    }
}

impl<
    R,
    T,
    I,
    U,
    J,
    V,
    K,
    C,
    In,
    Out,
    F: FnMut(&mut C, &mut T, &mut U, &mut V, In) -> Out,
> CtxStepCall<R, C, In> for CtxStep<F, (ResMut<T, I>, ResMut<U, J>, ResMut<V, K>), Out> where
    R: Apart3<T, I, U, J, V, K>,
{
    type Out = Out;

    open spec fn call_pre(&self, ctx: C, world: World<R>, input: In) -> bool {
        forall|r0: &mut C, r1: &mut T, r2: &mut U, r3: &mut V| *r0 == ctx
            && *r1 == world.held::<T, I>()
            && *r2 == world.held::<U, J>()
            && *r3 == world.held::<V, K>()
            ==> #[trigger] call_requires(self.f, (r0, r1, r2, r3, input))
    }

    open spec fn call_post(
        &self,
        ctx: C,
        world: World<R>,
        input: In,
        after: Self,
        ctx_after: C,
        world_after: World<R>,
        out: Out,
    ) -> bool {
        &&& after == *self
        &&& exists|held: T, other: U, last: V|
            #[trigger] effect_mmmmp(
                self.f,
                ctx,
                world.held::<T, I>(),
                world.held::<U, J>(),
                world.held::<V, K>(),
                input,
                ctx_after,
                held,
                other,
                last,
                out,
            )
                && world_after == world.holding::<T, I>(held).holding::<U, J>(other).holding::<V, K>(last)
    }

    fn call(&mut self, ctx: &mut C, world: &mut World<R>, input: In) -> (out: Out) {
        broadcast use vstd::function::group_function_axioms;

        let ghost input_given = input;
        let (first, second, third) = world.three_mut::<T, I, U, J, V, K>();
        let out = (self.f)(ctx, &mut *first, &mut *second, &mut *third, input);
        record(
            effect_mmmmp_fact::<C, T, U, V, In, Out, F>,
            Ghost((
                old(self).f,
                *old(ctx),
                old(world).held::<T, I>(),
                old(world).held::<U, J>(),
                old(world).held::<V, K>(),
                input_given,
                *ctx,
                *first,
                *second,
                *third,
                out,
            )),
        );
        assert(effect_mmmmp(
            old(self).f,
            *old(ctx),
            old(world).held::<T, I>(),
            old(world).held::<U, J>(),
            old(world).held::<V, K>(),
            input_given,
            *ctx,
            *first,
            *second,
            *third,
            out,
        ));
        out
    }
}

impl<
    R,
    T,
    I,
    U,
    J,
    V,
    K,
    C,
    In,
    Out,
    F: FnMut(&mut C, &mut T, &mut U, &mut V, In) -> Out,
> IntoCtxStep<R, C, In, Out, (ResMut<T, I>, ResMut<U, J>, ResMut<V, K>)> for F where
    R: Apart3<T, I, U, J, V, K>,
{
    type Step = CtxStep<F, (ResMut<T, I>, ResMut<U, J>, ResMut<V, K>), Out>;

    open spec fn resolved(self) -> CtxStep<F, (ResMut<T, I>, ResMut<U, J>, ResMut<V, K>), Out> {
        CtxStep { f: self, params: PhantomData }
    }

    fn into_ctx_step(
        self,
        registry: &Registry<R>,
    ) -> (step: CtxStep<F, (ResMut<T, I>, ResMut<U, J>, ResMut<V, K>), Out>) {
        CtxStep { f: self, params: PhantomData }
    }
}

impl<
    R,
    T,
    I,
    U,
    J,
    V,
    K,
    C,
    Out,
    F: FnMut(&mut C, &T, &U, &V) -> Out,
> CtxStepCall<R, C, ()> for CtxStep<NoEvent<F>, (Res<T, I>, Res<U, J>, Res<V, K>), Out> where
    R: Resource<T, I> + Resource<U, J> + Resource<V, K>,
{
    type Out = Out;

    open spec fn call_pre(&self, ctx: C, world: World<R>, input: ()) -> bool {
        forall|r0: &mut C| *r0 == ctx
            ==> #[trigger] call_requires(
                self.f.0,
                (r0, &world.held::<T, I>(), &world.held::<U, J>(), &world.held::<V, K>()),
            )
    }

    open spec fn call_post(
        &self,
        ctx: C,
        world: World<R>,
        input: (),
        after: Self,
        ctx_after: C,
        world_after: World<R>,
        out: Out,
    ) -> bool {
        &&& after == *self
        &&& world_after == world
        &&& effect_mppp(
            self.f.0,
            ctx,
            &world.held::<T, I>(),
            &world.held::<U, J>(),
            &world.held::<V, K>(),
            ctx_after,
            out,
        )
    }

    fn call(&mut self, ctx: &mut C, world: &mut World<R>, input: ()) -> (out: Out) {
        broadcast use vstd::function::group_function_axioms;

        let out = (self.f.0)(ctx, world.resource::<T, I>(), world.resource::<U, J>(), world.resource::<V, K>());
        record(
            effect_mppp_fact::<C, &T, &U, &V, Out, F>,
            Ghost((
                old(self).f.0,
                *old(ctx),
                &old(world).held::<T, I>(),
                &old(world).held::<U, J>(),
                &old(world).held::<V, K>(),
                *ctx,
                out,
            )),
        );
        out
    }
}

impl<
    R,
    T,
    I,
    U,
    J,
    V,
    K,
    C,
    Out,
    F: FnMut(&mut C, &T, &U, &V) -> Out,
> IntoCtxStep<R, C, (), Out, (Res<T, I>, Res<U, J>, Res<V, K>)> for NoEvent<F> where
    R: Resource<T, I> + Resource<U, J> + Resource<V, K>,
{
    type Step = CtxStep<NoEvent<F>, (Res<T, I>, Res<U, J>, Res<V, K>), Out>;

    open spec fn resolved(self) -> CtxStep<NoEvent<F>, (Res<T, I>, Res<U, J>, Res<V, K>), Out> {
        CtxStep { f: self, params: PhantomData }
    }

    fn into_ctx_step(
        self,
        registry: &Registry<R>,
    ) -> (step: CtxStep<NoEvent<F>, (Res<T, I>, Res<U, J>, Res<V, K>), Out>) {
        CtxStep { f: self, params: PhantomData }
    }
}

impl<
    R,
    T,
    I,
    U,
    J,
    V,
    K,
    C,
    Out,
    F: FnMut(&mut C, &T, &U, &mut V) -> Out,
> CtxStepCall<R, C, ()> for CtxStep<NoEvent<F>, (Res<T, I>, Res<U, J>, ResMut<V, K>), Out> where
    R: Apart3<T, I, U, J, V, K>,
{
    type Out = Out;

    open spec fn call_pre(&self, ctx: C, world: World<R>, input: ()) -> bool {
        forall|r0: &mut C, r3: &mut V| *r0 == ctx && *r3 == world.held::<V, K>()
            ==> #[trigger] call_requires(
                self.f.0,
                (r0, &world.held::<T, I>(), &world.held::<U, J>(), r3),
            )
    }

    open spec fn call_post(
        &self,
        ctx: C,
        world: World<R>,
        input: (),
        after: Self,
        ctx_after: C,
        world_after: World<R>,
        out: Out,
    ) -> bool {
        &&& after == *self
        &&& exists|held: V|
            #[trigger] effect_mppm(
                self.f.0,
                ctx,
                &world.held::<T, I>(),
                &world.held::<U, J>(),
                world.held::<V, K>(),
                ctx_after,
                held,
                out,
            )
                && world_after == world.holding::<V, K>(held)
    }

    fn call(&mut self, ctx: &mut C, world: &mut World<R>, input: ()) -> (out: Out) {
        broadcast use vstd::function::group_function_axioms;

        let (first, second, third) = world.beside_two_mut::<T, I, U, J, V, K>();
        let out = (self.f.0)(ctx, first, second, &mut *third);
        record(
            effect_mppm_fact::<C, &T, &U, V, Out, F>,
            Ghost((
                old(self).f.0,
                *old(ctx),
                &old(world).held::<T, I>(),
                &old(world).held::<U, J>(),
                old(world).held::<V, K>(),
                *ctx,
                *third,
                out,
            )),
        );
        assert(effect_mppm(
            old(self).f.0,
            *old(ctx),
            &old(world).held::<T, I>(),
            &old(world).held::<U, J>(),
            old(world).held::<V, K>(),
            *ctx,
            *third,
            out,
        ));
        out
    }
}

impl<
    R,
    T,
    I,
    U,
    J,
    V,
    K,
    C,
    Out,
    F: FnMut(&mut C, &T, &U, &mut V) -> Out,
> IntoCtxStep<R, C, (), Out, (Res<T, I>, Res<U, J>, ResMut<V, K>)> for NoEvent<F> where
    R: Apart3<T, I, U, J, V, K>,
{
    type Step = CtxStep<NoEvent<F>, (Res<T, I>, Res<U, J>, ResMut<V, K>), Out>;

    open spec fn resolved(self) -> CtxStep<NoEvent<F>, (Res<T, I>, Res<U, J>, ResMut<V, K>), Out> {
        CtxStep { f: self, params: PhantomData }
    }

    fn into_ctx_step(
        self,
        registry: &Registry<R>,
    ) -> (step: CtxStep<NoEvent<F>, (Res<T, I>, Res<U, J>, ResMut<V, K>), Out>) {
        CtxStep { f: self, params: PhantomData }
    }
}

impl<
    R,
    T,
    I,
    U,
    J,
    V,
    K,
    C,
    Out,
    F: FnMut(&mut C, &T, &mut U, &V) -> Out,
> CtxStepCall<R, C, ()> for CtxStep<NoEvent<F>, (Res<T, I>, ResMut<U, J>, Res<V, K>), Out> where
    R: Apart3<T, I, V, K, U, J>,
{
    type Out = Out;

    open spec fn call_pre(&self, ctx: C, world: World<R>, input: ()) -> bool {
        forall|r0: &mut C, r2: &mut U| *r0 == ctx && *r2 == world.held::<U, J>()
            ==> #[trigger] call_requires(
                self.f.0,
                (r0, &world.held::<T, I>(), r2, &world.held::<V, K>()),
            )
    }

    open spec fn call_post(
        &self,
        ctx: C,
        world: World<R>,
        input: (),
        after: Self,
        ctx_after: C,
        world_after: World<R>,
        out: Out,
    ) -> bool {
        &&& after == *self
        &&& exists|held: U|
            #[trigger] effect_mpmp(
                self.f.0,
                ctx,
                &world.held::<T, I>(),
                world.held::<U, J>(),
                &world.held::<V, K>(),
                ctx_after,
                held,
                out,
            )
                && world_after == world.holding::<U, J>(held)
    }

    fn call(&mut self, ctx: &mut C, world: &mut World<R>, input: ()) -> (out: Out) {
        broadcast use vstd::function::group_function_axioms;

        let (first, third, second) = world.beside_two_mut::<T, I, V, K, U, J>();
        let out = (self.f.0)(ctx, first, &mut *second, third);
        record(
            effect_mpmp_fact::<C, &T, U, &V, Out, F>,
            Ghost((
                old(self).f.0,
                *old(ctx),
                &old(world).held::<T, I>(),
                old(world).held::<U, J>(),
                &old(world).held::<V, K>(),
                *ctx,
                *second,
                out,
            )),
        );
        assert(effect_mpmp(
            old(self).f.0,
            *old(ctx),
            &old(world).held::<T, I>(),
            old(world).held::<U, J>(),
            &old(world).held::<V, K>(),
            *ctx,
            *second,
            out,
        ));
        out
    }
}

impl<
    R,
    T,
    I,
    U,
    J,
    V,
    K,
    C,
    Out,
    F: FnMut(&mut C, &T, &mut U, &V) -> Out,
> IntoCtxStep<R, C, (), Out, (Res<T, I>, ResMut<U, J>, Res<V, K>)> for NoEvent<F> where
    R: Apart3<T, I, V, K, U, J>,
{
    type Step = CtxStep<NoEvent<F>, (Res<T, I>, ResMut<U, J>, Res<V, K>), Out>;

    open spec fn resolved(self) -> CtxStep<NoEvent<F>, (Res<T, I>, ResMut<U, J>, Res<V, K>), Out> {
        CtxStep { f: self, params: PhantomData }
    }

    fn into_ctx_step(
        self,
        registry: &Registry<R>,
    ) -> (step: CtxStep<NoEvent<F>, (Res<T, I>, ResMut<U, J>, Res<V, K>), Out>) {
        CtxStep { f: self, params: PhantomData }
    }
}

impl<
    R,
    T,
    I,
    U,
    J,
    V,
    K,
    C,
    Out,
    F: FnMut(&mut C, &T, &mut U, &mut V) -> Out,
> CtxStepCall<R, C, ()> for CtxStep<NoEvent<F>, (Res<T, I>, ResMut<U, J>, ResMut<V, K>), Out> where
    R: Apart3<T, I, U, J, V, K>,
{
    type Out = Out;

    open spec fn call_pre(&self, ctx: C, world: World<R>, input: ()) -> bool {
        forall|r0: &mut C, r2: &mut U, r3: &mut V| *r0 == ctx
            && *r2 == world.held::<U, J>()
            && *r3 == world.held::<V, K>()
            ==> #[trigger] call_requires(self.f.0, (r0, &world.held::<T, I>(), r2, r3))
    }

    open spec fn call_post(
        &self,
        ctx: C,
        world: World<R>,
        input: (),
        after: Self,
        ctx_after: C,
        world_after: World<R>,
        out: Out,
    ) -> bool {
        &&& after == *self
        &&& exists|held: U, other: V|
            #[trigger] effect_mpmm(
                self.f.0,
                ctx,
                &world.held::<T, I>(),
                world.held::<U, J>(),
                world.held::<V, K>(),
                ctx_after,
                held,
                other,
                out,
            )
                && world_after == world.holding::<U, J>(held).holding::<V, K>(other)
    }

    fn call(&mut self, ctx: &mut C, world: &mut World<R>, input: ()) -> (out: Out) {
        broadcast use vstd::function::group_function_axioms;

        let (first, second, third) = world.beside_both_mut::<T, I, U, J, V, K>();
        let out = (self.f.0)(ctx, first, &mut *second, &mut *third);
        record(
            effect_mpmm_fact::<C, &T, U, V, Out, F>,
            Ghost((
                old(self).f.0,
                *old(ctx),
                &old(world).held::<T, I>(),
                old(world).held::<U, J>(),
                old(world).held::<V, K>(),
                *ctx,
                *second,
                *third,
                out,
            )),
        );
        assert(effect_mpmm(
            old(self).f.0,
            *old(ctx),
            &old(world).held::<T, I>(),
            old(world).held::<U, J>(),
            old(world).held::<V, K>(),
            *ctx,
            *second,
            *third,
            out,
        ));
        out
    }
}

impl<
    R,
    T,
    I,
    U,
    J,
    V,
    K,
    C,
    Out,
    F: FnMut(&mut C, &T, &mut U, &mut V) -> Out,
> IntoCtxStep<R, C, (), Out, (Res<T, I>, ResMut<U, J>, ResMut<V, K>)> for NoEvent<F> where
    R: Apart3<T, I, U, J, V, K>,
{
    type Step = CtxStep<NoEvent<F>, (Res<T, I>, ResMut<U, J>, ResMut<V, K>), Out>;

    open spec fn resolved(
        self,
    ) -> CtxStep<NoEvent<F>, (Res<T, I>, ResMut<U, J>, ResMut<V, K>), Out> {
        CtxStep { f: self, params: PhantomData }
    }

    fn into_ctx_step(
        self,
        registry: &Registry<R>,
    ) -> (step: CtxStep<NoEvent<F>, (Res<T, I>, ResMut<U, J>, ResMut<V, K>), Out>) {
        CtxStep { f: self, params: PhantomData }
    }
}

impl<
    R,
    T,
    I,
    U,
    J,
    V,
    K,
    C,
    Out,
    F: FnMut(&mut C, &mut T, &U, &V) -> Out,
> CtxStepCall<R, C, ()> for CtxStep<NoEvent<F>, (ResMut<T, I>, Res<U, J>, Res<V, K>), Out> where
    R: Apart3<U, J, V, K, T, I>,
{
    type Out = Out;

    open spec fn call_pre(&self, ctx: C, world: World<R>, input: ()) -> bool {
        forall|r0: &mut C, r1: &mut T| *r0 == ctx && *r1 == world.held::<T, I>()
            ==> #[trigger] call_requires(
                self.f.0,
                (r0, r1, &world.held::<U, J>(), &world.held::<V, K>()),
            )
    }

    open spec fn call_post(
        &self,
        ctx: C,
        world: World<R>,
        input: (),
        after: Self,
        ctx_after: C,
        world_after: World<R>,
        out: Out,
    ) -> bool {
        &&& after == *self
        &&& exists|held: T|
            #[trigger] effect_mmpp(
                self.f.0,
                ctx,
                world.held::<T, I>(),
                &world.held::<U, J>(),
                &world.held::<V, K>(),
                ctx_after,
                held,
                out,
            )
                && world_after == world.holding::<T, I>(held)
    }

    fn call(&mut self, ctx: &mut C, world: &mut World<R>, input: ()) -> (out: Out) {
        broadcast use vstd::function::group_function_axioms;

        let (second, third, first) = world.beside_two_mut::<U, J, V, K, T, I>();
        let out = (self.f.0)(ctx, &mut *first, second, third);
        record(
            effect_mmpp_fact::<C, T, &U, &V, Out, F>,
            Ghost((
                old(self).f.0,
                *old(ctx),
                old(world).held::<T, I>(),
                &old(world).held::<U, J>(),
                &old(world).held::<V, K>(),
                *ctx,
                *first,
                out,
            )),
        );
        assert(effect_mmpp(
            old(self).f.0,
            *old(ctx),
            old(world).held::<T, I>(),
            &old(world).held::<U, J>(),
            &old(world).held::<V, K>(),
            *ctx,
            *first,
            out,
        ));
        out
    }
}

impl<
    R,
    T,
    I,
    U,
    J,
    V,
    K,
    C,
    Out,
    F: FnMut(&mut C, &mut T, &U, &V) -> Out,
> IntoCtxStep<R, C, (), Out, (ResMut<T, I>, Res<U, J>, Res<V, K>)> for NoEvent<F> where
    R: Apart3<U, J, V, K, T, I>,
{
    type Step = CtxStep<NoEvent<F>, (ResMut<T, I>, Res<U, J>, Res<V, K>), Out>;

    open spec fn resolved(self) -> CtxStep<NoEvent<F>, (ResMut<T, I>, Res<U, J>, Res<V, K>), Out> {
        CtxStep { f: self, params: PhantomData }
    }

    fn into_ctx_step(
        self,
        registry: &Registry<R>,
    ) -> (step: CtxStep<NoEvent<F>, (ResMut<T, I>, Res<U, J>, Res<V, K>), Out>) {
        CtxStep { f: self, params: PhantomData }
    }
}

impl<
    R,
    T,
    I,
    U,
    J,
    V,
    K,
    C,
    Out,
    F: FnMut(&mut C, &mut T, &U, &mut V) -> Out,
> CtxStepCall<R, C, ()> for CtxStep<NoEvent<F>, (ResMut<T, I>, Res<U, J>, ResMut<V, K>), Out> where
    R: Apart3<U, J, T, I, V, K>,
{
    type Out = Out;

    open spec fn call_pre(&self, ctx: C, world: World<R>, input: ()) -> bool {
        forall|r0: &mut C, r1: &mut T, r3: &mut V| *r0 == ctx
            && *r1 == world.held::<T, I>()
            && *r3 == world.held::<V, K>()
            ==> #[trigger] call_requires(self.f.0, (r0, r1, &world.held::<U, J>(), r3))
    }

    open spec fn call_post(
        &self,
        ctx: C,
        world: World<R>,
        input: (),
        after: Self,
        ctx_after: C,
        world_after: World<R>,
        out: Out,
    ) -> bool {
        &&& after == *self
        &&& exists|held: T, other: V|
            #[trigger] effect_mmpm(
                self.f.0,
                ctx,
                world.held::<T, I>(),
                &world.held::<U, J>(),
                world.held::<V, K>(),
                ctx_after,
                held,
                other,
                out,
            )
                && world_after == world.holding::<T, I>(held).holding::<V, K>(other)
    }

    fn call(&mut self, ctx: &mut C, world: &mut World<R>, input: ()) -> (out: Out) {
        broadcast use vstd::function::group_function_axioms;

        let (second, first, third) = world.beside_both_mut::<U, J, T, I, V, K>();
        let out = (self.f.0)(ctx, &mut *first, second, &mut *third);
        record(
            effect_mmpm_fact::<C, T, &U, V, Out, F>,
            Ghost((
                old(self).f.0,
                *old(ctx),
                old(world).held::<T, I>(),
                &old(world).held::<U, J>(),
                old(world).held::<V, K>(),
                *ctx,
                *first,
                *third,
                out,
            )),
        );
        assert(effect_mmpm(
            old(self).f.0,
            *old(ctx),
            old(world).held::<T, I>(),
            &old(world).held::<U, J>(),
            old(world).held::<V, K>(),
            *ctx,
            *first,
            *third,
            out,
        ));
        out
    }
}

impl<
    R,
    T,
    I,
    U,
    J,
    V,
    K,
    C,
    Out,
    F: FnMut(&mut C, &mut T, &U, &mut V) -> Out,
> IntoCtxStep<R, C, (), Out, (ResMut<T, I>, Res<U, J>, ResMut<V, K>)> for NoEvent<F> where
    R: Apart3<U, J, T, I, V, K>,
{
    type Step = CtxStep<NoEvent<F>, (ResMut<T, I>, Res<U, J>, ResMut<V, K>), Out>;

    open spec fn resolved(
        self,
    ) -> CtxStep<NoEvent<F>, (ResMut<T, I>, Res<U, J>, ResMut<V, K>), Out> {
        CtxStep { f: self, params: PhantomData }
    }

    fn into_ctx_step(
        self,
        registry: &Registry<R>,
    ) -> (step: CtxStep<NoEvent<F>, (ResMut<T, I>, Res<U, J>, ResMut<V, K>), Out>) {
        CtxStep { f: self, params: PhantomData }
    }
}

impl<
    R,
    T,
    I,
    U,
    J,
    V,
    K,
    C,
    Out,
    F: FnMut(&mut C, &mut T, &mut U, &V) -> Out,
> CtxStepCall<R, C, ()> for CtxStep<NoEvent<F>, (ResMut<T, I>, ResMut<U, J>, Res<V, K>), Out> where
    R: Apart3<V, K, T, I, U, J>,
{
    type Out = Out;

    open spec fn call_pre(&self, ctx: C, world: World<R>, input: ()) -> bool {
        forall|r0: &mut C, r1: &mut T, r2: &mut U| *r0 == ctx
            && *r1 == world.held::<T, I>()
            && *r2 == world.held::<U, J>()
            ==> #[trigger] call_requires(self.f.0, (r0, r1, r2, &world.held::<V, K>()))
    }

    open spec fn call_post(
        &self,
        ctx: C,
        world: World<R>,
        input: (),
        after: Self,
        ctx_after: C,
        world_after: World<R>,
        out: Out,
    ) -> bool {
        &&& after == *self
        &&& exists|held: T, other: U|
            #[trigger] effect_mmmp(
                self.f.0,
                ctx,
                world.held::<T, I>(),
                world.held::<U, J>(),
                &world.held::<V, K>(),
                ctx_after,
                held,
                other,
                out,
            )
                && world_after == world.holding::<T, I>(held).holding::<U, J>(other)
    }

    fn call(&mut self, ctx: &mut C, world: &mut World<R>, input: ()) -> (out: Out) {
        broadcast use vstd::function::group_function_axioms;

        let (third, first, second) = world.beside_both_mut::<V, K, T, I, U, J>();
        let out = (self.f.0)(ctx, &mut *first, &mut *second, third);
        record(
            effect_mmmp_fact::<C, T, U, &V, Out, F>,
            Ghost((
                old(self).f.0,
                *old(ctx),
                old(world).held::<T, I>(),
                old(world).held::<U, J>(),
                &old(world).held::<V, K>(),
                *ctx,
                *first,
                *second,
                out,
            )),
        );
        assert(effect_mmmp(
            old(self).f.0,
            *old(ctx),
            old(world).held::<T, I>(),
            old(world).held::<U, J>(),
            &old(world).held::<V, K>(),
            *ctx,
            *first,
            *second,
            out,
        ));
        out
    }
}

impl<
    R,
    T,
    I,
    U,
    J,
    V,
    K,
    C,
    Out,
    F: FnMut(&mut C, &mut T, &mut U, &V) -> Out,
> IntoCtxStep<R, C, (), Out, (ResMut<T, I>, ResMut<U, J>, Res<V, K>)> for NoEvent<F> where
    R: Apart3<V, K, T, I, U, J>,
{
    type Step = CtxStep<NoEvent<F>, (ResMut<T, I>, ResMut<U, J>, Res<V, K>), Out>;

    open spec fn resolved(
        self,
    ) -> CtxStep<NoEvent<F>, (ResMut<T, I>, ResMut<U, J>, Res<V, K>), Out> {
        CtxStep { f: self, params: PhantomData }
    }

    fn into_ctx_step(
        self,
        registry: &Registry<R>,
    ) -> (step: CtxStep<NoEvent<F>, (ResMut<T, I>, ResMut<U, J>, Res<V, K>), Out>) {
        CtxStep { f: self, params: PhantomData }
    }
}

impl<
    R,
    T,
    I,
    U,
    J,
    V,
    K,
    C,
    Out,
    F: FnMut(&mut C, &mut T, &mut U, &mut V) -> Out,
> CtxStepCall<R, C, ()> for CtxStep<
    NoEvent<F>,
    (ResMut<T, I>, ResMut<U, J>, ResMut<V, K>),
    Out,
> where
    R: Apart3<T, I, U, J, V, K>,
{
    type Out = Out;

    open spec fn call_pre(&self, ctx: C, world: World<R>, input: ()) -> bool {
        forall|r0: &mut C, r1: &mut T, r2: &mut U, r3: &mut V| *r0 == ctx
            && *r1 == world.held::<T, I>()
            && *r2 == world.held::<U, J>()
            && *r3 == world.held::<V, K>()
            ==> #[trigger] call_requires(self.f.0, (r0, r1, r2, r3))
    }

    open spec fn call_post(
        &self,
        ctx: C,
        world: World<R>,
        input: (),
        after: Self,
        ctx_after: C,
        world_after: World<R>,
        out: Out,
    ) -> bool {
        &&& after == *self
        &&& exists|held: T, other: U, last: V|
            #[trigger] effect_mmmm(
                self.f.0,
                ctx,
                world.held::<T, I>(),
                world.held::<U, J>(),
                world.held::<V, K>(),
                ctx_after,
                held,
                other,
                last,
                out,
            )
                && world_after == world.holding::<T, I>(held).holding::<U, J>(other).holding::<V, K>(last)
    }

    fn call(&mut self, ctx: &mut C, world: &mut World<R>, input: ()) -> (out: Out) {
        broadcast use vstd::function::group_function_axioms;

        let (first, second, third) = world.three_mut::<T, I, U, J, V, K>();
        let out = (self.f.0)(ctx, &mut *first, &mut *second, &mut *third);
        record(
            effect_mmmm_fact::<C, T, U, V, Out, F>,
            Ghost((
                old(self).f.0,
                *old(ctx),
                old(world).held::<T, I>(),
                old(world).held::<U, J>(),
                old(world).held::<V, K>(),
                *ctx,
                *first,
                *second,
                *third,
                out,
            )),
        );
        assert(effect_mmmm(
            old(self).f.0,
            *old(ctx),
            old(world).held::<T, I>(),
            old(world).held::<U, J>(),
            old(world).held::<V, K>(),
            *ctx,
            *first,
            *second,
            *third,
            out,
        ));
        out
    }
}

impl<
    R,
    T,
    I,
    U,
    J,
    V,
    K,
    C,
    Out,
    F: FnMut(&mut C, &mut T, &mut U, &mut V) -> Out,
> IntoCtxStep<R, C, (), Out, (ResMut<T, I>, ResMut<U, J>, ResMut<V, K>)> for NoEvent<F> where
    R: Apart3<T, I, U, J, V, K>,
{
    type Step = CtxStep<NoEvent<F>, (ResMut<T, I>, ResMut<U, J>, ResMut<V, K>), Out>;

    open spec fn resolved(
        self,
    ) -> CtxStep<NoEvent<F>, (ResMut<T, I>, ResMut<U, J>, ResMut<V, K>), Out> {
        CtxStep { f: self, params: PhantomData }
    }

    fn into_ctx_step(
        self,
        registry: &Registry<R>,
    ) -> (step: CtxStep<NoEvent<F>, (ResMut<T, I>, ResMut<U, J>, ResMut<V, K>), Out>) {
        CtxStep { f: self, params: PhantomData }
    }
}

impl<
    R,
    T,
    I,
    U,
    J,
    V,
    K,
    C,
    In,
    Out,
    F: FnMut(&mut C, &T, &U, &V, &In) -> Out,
> CtxRefStepCall<R, C, In> for CtxStep<F, (Res<T, I>, Res<U, J>, Res<V, K>), Out> where
    R: Resource<T, I> + Resource<U, J> + Resource<V, K>,
{
    type Out = Out;

    open spec fn call_pre(&self, ctx: C, world: World<R>, input: &In) -> bool {
        forall|r0: &mut C| *r0 == ctx
            ==> #[trigger] call_requires(
                self.f,
                (r0, &world.held::<T, I>(), &world.held::<U, J>(), &world.held::<V, K>(), input),
            )
    }

    open spec fn call_post(
        &self,
        ctx: C,
        world: World<R>,
        input: &In,
        after: Self,
        ctx_after: C,
        world_after: World<R>,
        out: Out,
    ) -> bool {
        &&& after == *self
        &&& world_after == world
        &&& effect_mpppp(
            self.f,
            ctx,
            &world.held::<T, I>(),
            &world.held::<U, J>(),
            &world.held::<V, K>(),
            input,
            ctx_after,
            out,
        )
    }

    fn call(&mut self, ctx: &mut C, world: &mut World<R>, input: &In) -> (out: Out) {
        broadcast use vstd::function::group_function_axioms;

        let ghost input_given = input;
        let out = (self.f)(
            ctx,
            world.resource::<T, I>(),
            world.resource::<U, J>(),
            world.resource::<V, K>(),
            input,
        );
        record(
            effect_mpppp_fact::<C, &T, &U, &V, &In, Out, F>,
            Ghost((
                old(self).f,
                *old(ctx),
                &old(world).held::<T, I>(),
                &old(world).held::<U, J>(),
                &old(world).held::<V, K>(),
                input_given,
                *ctx,
                out,
            )),
        );
        out
    }
}

impl<
    R,
    T,
    I,
    U,
    J,
    V,
    K,
    C,
    In,
    Out,
    F: FnMut(&mut C, &T, &U, &V, &In) -> Out,
> IntoCtxRefStep<R, C, In, Out, (Res<T, I>, Res<U, J>, Res<V, K>)> for F where
    R: Resource<T, I> + Resource<U, J> + Resource<V, K>,
{
    type Step = CtxStep<F, (Res<T, I>, Res<U, J>, Res<V, K>), Out>;

    open spec fn resolved(self) -> CtxStep<F, (Res<T, I>, Res<U, J>, Res<V, K>), Out> {
        CtxStep { f: self, params: PhantomData }
    }

    fn into_ctx_ref_step(
        self,
        registry: &Registry<R>,
    ) -> (step: CtxStep<F, (Res<T, I>, Res<U, J>, Res<V, K>), Out>) {
        CtxStep { f: self, params: PhantomData }
    }
}

impl<
    R,
    T,
    I,
    U,
    J,
    V,
    K,
    C,
    In,
    Out,
    F: FnMut(&mut C, &T, &U, &mut V, &In) -> Out,
> CtxRefStepCall<R, C, In> for CtxStep<F, (Res<T, I>, Res<U, J>, ResMut<V, K>), Out> where
    R: Apart3<T, I, U, J, V, K>,
{
    type Out = Out;

    open spec fn call_pre(&self, ctx: C, world: World<R>, input: &In) -> bool {
        forall|r0: &mut C, r3: &mut V| *r0 == ctx && *r3 == world.held::<V, K>()
            ==> #[trigger] call_requires(
                self.f,
                (r0, &world.held::<T, I>(), &world.held::<U, J>(), r3, input),
            )
    }

    open spec fn call_post(
        &self,
        ctx: C,
        world: World<R>,
        input: &In,
        after: Self,
        ctx_after: C,
        world_after: World<R>,
        out: Out,
    ) -> bool {
        &&& after == *self
        &&& exists|held: V|
            #[trigger] effect_mppmp(
                self.f,
                ctx,
                &world.held::<T, I>(),
                &world.held::<U, J>(),
                world.held::<V, K>(),
                input,
                ctx_after,
                held,
                out,
            )
                && world_after == world.holding::<V, K>(held)
    }

    fn call(&mut self, ctx: &mut C, world: &mut World<R>, input: &In) -> (out: Out) {
        broadcast use vstd::function::group_function_axioms;

        let ghost input_given = input;
        let (first, second, third) = world.beside_two_mut::<T, I, U, J, V, K>();
        let out = (self.f)(ctx, first, second, &mut *third, input);
        record(
            effect_mppmp_fact::<C, &T, &U, V, &In, Out, F>,
            Ghost((
                old(self).f,
                *old(ctx),
                &old(world).held::<T, I>(),
                &old(world).held::<U, J>(),
                old(world).held::<V, K>(),
                input_given,
                *ctx,
                *third,
                out,
            )),
        );
        assert(effect_mppmp(
            old(self).f,
            *old(ctx),
            &old(world).held::<T, I>(),
            &old(world).held::<U, J>(),
            old(world).held::<V, K>(),
            input_given,
            *ctx,
            *third,
            out,
        ));
        out
    }
}

impl<
    R,
    T,
    I,
    U,
    J,
    V,
    K,
    C,
    In,
    Out,
    F: FnMut(&mut C, &T, &U, &mut V, &In) -> Out,
> IntoCtxRefStep<R, C, In, Out, (Res<T, I>, Res<U, J>, ResMut<V, K>)> for F where
    R: Apart3<T, I, U, J, V, K>,
{
    type Step = CtxStep<F, (Res<T, I>, Res<U, J>, ResMut<V, K>), Out>;

    open spec fn resolved(self) -> CtxStep<F, (Res<T, I>, Res<U, J>, ResMut<V, K>), Out> {
        CtxStep { f: self, params: PhantomData }
    }

    fn into_ctx_ref_step(
        self,
        registry: &Registry<R>,
    ) -> (step: CtxStep<F, (Res<T, I>, Res<U, J>, ResMut<V, K>), Out>) {
        CtxStep { f: self, params: PhantomData }
    }
}

impl<
    R,
    T,
    I,
    U,
    J,
    V,
    K,
    C,
    In,
    Out,
    F: FnMut(&mut C, &T, &mut U, &V, &In) -> Out,
> CtxRefStepCall<R, C, In> for CtxStep<F, (Res<T, I>, ResMut<U, J>, Res<V, K>), Out> where
    R: Apart3<T, I, V, K, U, J>,
{
    type Out = Out;

    open spec fn call_pre(&self, ctx: C, world: World<R>, input: &In) -> bool {
        forall|r0: &mut C, r2: &mut U| *r0 == ctx && *r2 == world.held::<U, J>()
            ==> #[trigger] call_requires(
                self.f,
                (r0, &world.held::<T, I>(), r2, &world.held::<V, K>(), input),
            )
    }

    open spec fn call_post(
        &self,
        ctx: C,
        world: World<R>,
        input: &In,
        after: Self,
        ctx_after: C,
        world_after: World<R>,
        out: Out,
    ) -> bool {
        &&& after == *self
        &&& exists|held: U|
            #[trigger] effect_mpmpp(
                self.f,
                ctx,
                &world.held::<T, I>(),
                world.held::<U, J>(),
                &world.held::<V, K>(),
                input,
                ctx_after,
                held,
                out,
            )
                && world_after == world.holding::<U, J>(held)
    }

    fn call(&mut self, ctx: &mut C, world: &mut World<R>, input: &In) -> (out: Out) {
        broadcast use vstd::function::group_function_axioms;

        let ghost input_given = input;
        let (first, third, second) = world.beside_two_mut::<T, I, V, K, U, J>();
        let out = (self.f)(ctx, first, &mut *second, third, input);
        record(
            effect_mpmpp_fact::<C, &T, U, &V, &In, Out, F>,
            Ghost((
                old(self).f,
                *old(ctx),
                &old(world).held::<T, I>(),
                old(world).held::<U, J>(),
                &old(world).held::<V, K>(),
                input_given,
                *ctx,
                *second,
                out,
            )),
        );
        assert(effect_mpmpp(
            old(self).f,
            *old(ctx),
            &old(world).held::<T, I>(),
            old(world).held::<U, J>(),
            &old(world).held::<V, K>(),
            input_given,
            *ctx,
            *second,
            out,
        ));
        out
    }
}

impl<
    R,
    T,
    I,
    U,
    J,
    V,
    K,
    C,
    In,
    Out,
    F: FnMut(&mut C, &T, &mut U, &V, &In) -> Out,
> IntoCtxRefStep<R, C, In, Out, (Res<T, I>, ResMut<U, J>, Res<V, K>)> for F where
    R: Apart3<T, I, V, K, U, J>,
{
    type Step = CtxStep<F, (Res<T, I>, ResMut<U, J>, Res<V, K>), Out>;

    open spec fn resolved(self) -> CtxStep<F, (Res<T, I>, ResMut<U, J>, Res<V, K>), Out> {
        CtxStep { f: self, params: PhantomData }
    }

    fn into_ctx_ref_step(
        self,
        registry: &Registry<R>,
    ) -> (step: CtxStep<F, (Res<T, I>, ResMut<U, J>, Res<V, K>), Out>) {
        CtxStep { f: self, params: PhantomData }
    }
}

impl<
    R,
    T,
    I,
    U,
    J,
    V,
    K,
    C,
    In,
    Out,
    F: FnMut(&mut C, &T, &mut U, &mut V, &In) -> Out,
> CtxRefStepCall<R, C, In> for CtxStep<F, (Res<T, I>, ResMut<U, J>, ResMut<V, K>), Out> where
    R: Apart3<T, I, U, J, V, K>,
{
    type Out = Out;

    open spec fn call_pre(&self, ctx: C, world: World<R>, input: &In) -> bool {
        forall|r0: &mut C, r2: &mut U, r3: &mut V| *r0 == ctx
            && *r2 == world.held::<U, J>()
            && *r3 == world.held::<V, K>()
            ==> #[trigger] call_requires(self.f, (r0, &world.held::<T, I>(), r2, r3, input))
    }

    open spec fn call_post(
        &self,
        ctx: C,
        world: World<R>,
        input: &In,
        after: Self,
        ctx_after: C,
        world_after: World<R>,
        out: Out,
    ) -> bool {
        &&& after == *self
        &&& exists|held: U, other: V|
            #[trigger] effect_mpmmp(
                self.f,
                ctx,
                &world.held::<T, I>(),
                world.held::<U, J>(),
                world.held::<V, K>(),
                input,
                ctx_after,
                held,
                other,
                out,
            )
                && world_after == world.holding::<U, J>(held).holding::<V, K>(other)
    }

    fn call(&mut self, ctx: &mut C, world: &mut World<R>, input: &In) -> (out: Out) {
        broadcast use vstd::function::group_function_axioms;

        let ghost input_given = input;
        let (first, second, third) = world.beside_both_mut::<T, I, U, J, V, K>();
        let out = (self.f)(ctx, first, &mut *second, &mut *third, input);
        record(
            effect_mpmmp_fact::<C, &T, U, V, &In, Out, F>,
            Ghost((
                old(self).f,
                *old(ctx),
                &old(world).held::<T, I>(),
                old(world).held::<U, J>(),
                old(world).held::<V, K>(),
                input_given,
                *ctx,
                *second,
                *third,
                out,
            )),
        );
        assert(effect_mpmmp(
            old(self).f,
            *old(ctx),
            &old(world).held::<T, I>(),
            old(world).held::<U, J>(),
            old(world).held::<V, K>(),
            input_given,
            *ctx,
            *second,
            *third,
            out,
        ));
        out
    }
}

impl<
    R,
    T,
    I,
    U,
    J,
    V,
    K,
    C,
    In,
    Out,
    F: FnMut(&mut C, &T, &mut U, &mut V, &In) -> Out,
> IntoCtxRefStep<R, C, In, Out, (Res<T, I>, ResMut<U, J>, ResMut<V, K>)> for F where
    R: Apart3<T, I, U, J, V, K>,
{
    type Step = CtxStep<F, (Res<T, I>, ResMut<U, J>, ResMut<V, K>), Out>;

    open spec fn resolved(self) -> CtxStep<F, (Res<T, I>, ResMut<U, J>, ResMut<V, K>), Out> {
        CtxStep { f: self, params: PhantomData }
    }

    fn into_ctx_ref_step(
        self,
        registry: &Registry<R>,
    ) -> (step: CtxStep<F, (Res<T, I>, ResMut<U, J>, ResMut<V, K>), Out>) {
        CtxStep { f: self, params: PhantomData }
    }
}

impl<
    R,
    T,
    I,
    U,
    J,
    V,
    K,
    C,
    In,
    Out,
    F: FnMut(&mut C, &mut T, &U, &V, &In) -> Out,
> CtxRefStepCall<R, C, In> for CtxStep<F, (ResMut<T, I>, Res<U, J>, Res<V, K>), Out> where
    R: Apart3<U, J, V, K, T, I>,
{
    type Out = Out;

    open spec fn call_pre(&self, ctx: C, world: World<R>, input: &In) -> bool {
        forall|r0: &mut C, r1: &mut T| *r0 == ctx && *r1 == world.held::<T, I>()
            ==> #[trigger] call_requires(
                self.f,
                (r0, r1, &world.held::<U, J>(), &world.held::<V, K>(), input),
            )
    }

    open spec fn call_post(
        &self,
        ctx: C,
        world: World<R>,
        input: &In,
        after: Self,
        ctx_after: C,
        world_after: World<R>,
        out: Out,
    ) -> bool {
        &&& after == *self
        &&& exists|held: T|
            #[trigger] effect_mmppp(
                self.f,
                ctx,
                world.held::<T, I>(),
                &world.held::<U, J>(),
                &world.held::<V, K>(),
                input,
                ctx_after,
                held,
                out,
            )
                && world_after == world.holding::<T, I>(held)
    }

    fn call(&mut self, ctx: &mut C, world: &mut World<R>, input: &In) -> (out: Out) {
        broadcast use vstd::function::group_function_axioms;

        let ghost input_given = input;
        let (second, third, first) = world.beside_two_mut::<U, J, V, K, T, I>();
        let out = (self.f)(ctx, &mut *first, second, third, input);
        record(
            effect_mmppp_fact::<C, T, &U, &V, &In, Out, F>,
            Ghost((
                old(self).f,
                *old(ctx),
                old(world).held::<T, I>(),
                &old(world).held::<U, J>(),
                &old(world).held::<V, K>(),
                input_given,
                *ctx,
                *first,
                out,
            )),
        );
        assert(effect_mmppp(
            old(self).f,
            *old(ctx),
            old(world).held::<T, I>(),
            &old(world).held::<U, J>(),
            &old(world).held::<V, K>(),
            input_given,
            *ctx,
            *first,
            out,
        ));
        out
    }
}

impl<
    R,
    T,
    I,
    U,
    J,
    V,
    K,
    C,
    In,
    Out,
    F: FnMut(&mut C, &mut T, &U, &V, &In) -> Out,
> IntoCtxRefStep<R, C, In, Out, (ResMut<T, I>, Res<U, J>, Res<V, K>)> for F where
    R: Apart3<U, J, V, K, T, I>,
{
    type Step = CtxStep<F, (ResMut<T, I>, Res<U, J>, Res<V, K>), Out>;

    open spec fn resolved(self) -> CtxStep<F, (ResMut<T, I>, Res<U, J>, Res<V, K>), Out> {
        CtxStep { f: self, params: PhantomData }
    }

    fn into_ctx_ref_step(
        self,
        registry: &Registry<R>,
    ) -> (step: CtxStep<F, (ResMut<T, I>, Res<U, J>, Res<V, K>), Out>) {
        CtxStep { f: self, params: PhantomData }
    }
}

impl<
    R,
    T,
    I,
    U,
    J,
    V,
    K,
    C,
    In,
    Out,
    F: FnMut(&mut C, &mut T, &U, &mut V, &In) -> Out,
> CtxRefStepCall<R, C, In> for CtxStep<F, (ResMut<T, I>, Res<U, J>, ResMut<V, K>), Out> where
    R: Apart3<U, J, T, I, V, K>,
{
    type Out = Out;

    open spec fn call_pre(&self, ctx: C, world: World<R>, input: &In) -> bool {
        forall|r0: &mut C, r1: &mut T, r3: &mut V| *r0 == ctx
            && *r1 == world.held::<T, I>()
            && *r3 == world.held::<V, K>()
            ==> #[trigger] call_requires(self.f, (r0, r1, &world.held::<U, J>(), r3, input))
    }

    open spec fn call_post(
        &self,
        ctx: C,
        world: World<R>,
        input: &In,
        after: Self,
        ctx_after: C,
        world_after: World<R>,
        out: Out,
    ) -> bool {
        &&& after == *self
        &&& exists|held: T, other: V|
            #[trigger] effect_mmpmp(
                self.f,
                ctx,
                world.held::<T, I>(),
                &world.held::<U, J>(),
                world.held::<V, K>(),
                input,
                ctx_after,
                held,
                other,
                out,
            )
                && world_after == world.holding::<T, I>(held).holding::<V, K>(other)
    }

    fn call(&mut self, ctx: &mut C, world: &mut World<R>, input: &In) -> (out: Out) {
        broadcast use vstd::function::group_function_axioms;

        let ghost input_given = input;
        let (second, first, third) = world.beside_both_mut::<U, J, T, I, V, K>();
        let out = (self.f)(ctx, &mut *first, second, &mut *third, input);
        record(
            effect_mmpmp_fact::<C, T, &U, V, &In, Out, F>,
            Ghost((
                old(self).f,
                *old(ctx),
                old(world).held::<T, I>(),
                &old(world).held::<U, J>(),
                old(world).held::<V, K>(),
                input_given,
                *ctx,
                *first,
                *third,
                out,
            )),
        );
        assert(effect_mmpmp(
            old(self).f,
            *old(ctx),
            old(world).held::<T, I>(),
            &old(world).held::<U, J>(),
            old(world).held::<V, K>(),
            input_given,
            *ctx,
            *first,
            *third,
            out,
        ));
        out
    }
}

impl<
    R,
    T,
    I,
    U,
    J,
    V,
    K,
    C,
    In,
    Out,
    F: FnMut(&mut C, &mut T, &U, &mut V, &In) -> Out,
> IntoCtxRefStep<R, C, In, Out, (ResMut<T, I>, Res<U, J>, ResMut<V, K>)> for F where
    R: Apart3<U, J, T, I, V, K>,
{
    type Step = CtxStep<F, (ResMut<T, I>, Res<U, J>, ResMut<V, K>), Out>;

    open spec fn resolved(self) -> CtxStep<F, (ResMut<T, I>, Res<U, J>, ResMut<V, K>), Out> {
        CtxStep { f: self, params: PhantomData }
    }

    fn into_ctx_ref_step(
        self,
        registry: &Registry<R>,
    ) -> (step: CtxStep<F, (ResMut<T, I>, Res<U, J>, ResMut<V, K>), Out>) {
        CtxStep { f: self, params: PhantomData }
    }
}

impl<
    R,
    T,
    I,
    U,
    J,
    V,
    K,
    C,
    In,
    Out,
    F: FnMut(&mut C, &mut T, &mut U, &V, &In) -> Out,
> CtxRefStepCall<R, C, In> for CtxStep<F, (ResMut<T, I>, ResMut<U, J>, Res<V, K>), Out> where
    R: Apart3<V, K, T, I, U, J>,
{
    type Out = Out;

    open spec fn call_pre(&self, ctx: C, world: World<R>, input: &In) -> bool {
        forall|r0: &mut C, r1: &mut T, r2: &mut U| *r0 == ctx
            && *r1 == world.held::<T, I>()
            && *r2 == world.held::<U, J>()
            ==> #[trigger] call_requires(self.f, (r0, r1, r2, &world.held::<V, K>(), input))
    }

    open spec fn call_post(
        &self,
        ctx: C,
        world: World<R>,
        input: &In,
        after: Self,
        ctx_after: C,
        world_after: World<R>,
        out: Out,
    ) -> bool {
        &&& after == *self
        &&& exists|held: T, other: U|
            #[trigger] effect_mmmpp(
                self.f,
                ctx,
                world.held::<T, I>(),
                world.held::<U, J>(),
                &world.held::<V, K>(),
                input,
                ctx_after,
                held,
                other,
                out,
            )
                && world_after == world.holding::<T, I>(held).holding::<U, J>(other)
    }

    fn call(&mut self, ctx: &mut C, world: &mut World<R>, input: &In) -> (out: Out) {
        broadcast use vstd::function::group_function_axioms;

        let ghost input_given = input;
        let (third, first, second) = world.beside_both_mut::<V, K, T, I, U, J>();
        let out = (self.f)(ctx, &mut *first, &mut *second, third, input);
        record(
            effect_mmmpp_fact::<C, T, U, &V, &In, Out, F>,
            Ghost((
                old(self).f,
                *old(ctx),
                old(world).held::<T, I>(),
                old(world).held::<U, J>(),
                &old(world).held::<V, K>(),
                input_given,
                *ctx,
                *first,
                *second,
                out,
            )),
        );
        assert(effect_mmmpp(
            old(self).f,
            *old(ctx),
            old(world).held::<T, I>(),
            old(world).held::<U, J>(),
            &old(world).held::<V, K>(),
            input_given,
            *ctx,
            *first,
            *second,
            out,
        ));
        out
    }
}

impl<
    R,
    T,
    I,
    U,
    J,
    V,
    K,
    C,
    In,
    Out,
    F: FnMut(&mut C, &mut T, &mut U, &V, &In) -> Out,
> IntoCtxRefStep<R, C, In, Out, (ResMut<T, I>, ResMut<U, J>, Res<V, K>)> for F where
    R: Apart3<V, K, T, I, U, J>,
{
    type Step = CtxStep<F, (ResMut<T, I>, ResMut<U, J>, Res<V, K>), Out>;

    open spec fn resolved(self) -> CtxStep<F, (ResMut<T, I>, ResMut<U, J>, Res<V, K>), Out> {
        CtxStep { f: self, params: PhantomData }
    }

    fn into_ctx_ref_step(
        self,
        registry: &Registry<R>,
    ) -> (step: CtxStep<F, (ResMut<T, I>, ResMut<U, J>, Res<V, K>), Out>) {
        CtxStep { f: self, params: PhantomData }
    }
}

impl<
    R,
    T,
    I,
    U,
    J,
    V,
    K,
    C,
    In,
    Out,
    F: FnMut(&mut C, &mut T, &mut U, &mut V, &In) -> Out,
> CtxRefStepCall<R, C, In> for CtxStep<F, (ResMut<T, I>, ResMut<U, J>, ResMut<V, K>), Out> where
    R: Apart3<T, I, U, J, V, K>,
{
    type Out = Out;

    open spec fn call_pre(&self, ctx: C, world: World<R>, input: &In) -> bool {
        forall|r0: &mut C, r1: &mut T, r2: &mut U, r3: &mut V| *r0 == ctx
            && *r1 == world.held::<T, I>()
            && *r2 == world.held::<U, J>()
            && *r3 == world.held::<V, K>()
            ==> #[trigger] call_requires(self.f, (r0, r1, r2, r3, input))
    }

    open spec fn call_post(
        &self,
        ctx: C,
        world: World<R>,
        input: &In,
        after: Self,
        ctx_after: C,
        world_after: World<R>,
        out: Out,
    ) -> bool {
        &&& after == *self
        &&& exists|held: T, other: U, last: V|
            #[trigger] effect_mmmmp(
                self.f,
                ctx,
                world.held::<T, I>(),
                world.held::<U, J>(),
                world.held::<V, K>(),
                input,
                ctx_after,
                held,
                other,
                last,
                out,
            )
                && world_after == world.holding::<T, I>(held).holding::<U, J>(other).holding::<V, K>(last)
    }

    fn call(&mut self, ctx: &mut C, world: &mut World<R>, input: &In) -> (out: Out) {
        broadcast use vstd::function::group_function_axioms;

        let ghost input_given = input;
        let (first, second, third) = world.three_mut::<T, I, U, J, V, K>();
        let out = (self.f)(ctx, &mut *first, &mut *second, &mut *third, input);
        record(
            effect_mmmmp_fact::<C, T, U, V, &In, Out, F>,
            Ghost((
                old(self).f,
                *old(ctx),
                old(world).held::<T, I>(),
                old(world).held::<U, J>(),
                old(world).held::<V, K>(),
                input_given,
                *ctx,
                *first,
                *second,
                *third,
                out,
            )),
        );
        assert(effect_mmmmp(
            old(self).f,
            *old(ctx),
            old(world).held::<T, I>(),
            old(world).held::<U, J>(),
            old(world).held::<V, K>(),
            input_given,
            *ctx,
            *first,
            *second,
            *third,
            out,
        ));
        out
    }
}

impl<
    R,
    T,
    I,
    U,
    J,
    V,
    K,
    C,
    In,
    Out,
    F: FnMut(&mut C, &mut T, &mut U, &mut V, &In) -> Out,
> IntoCtxRefStep<R, C, In, Out, (ResMut<T, I>, ResMut<U, J>, ResMut<V, K>)> for F where
    R: Apart3<T, I, U, J, V, K>,
{
    type Step = CtxStep<F, (ResMut<T, I>, ResMut<U, J>, ResMut<V, K>), Out>;

    open spec fn resolved(self) -> CtxStep<F, (ResMut<T, I>, ResMut<U, J>, ResMut<V, K>), Out> {
        CtxStep { f: self, params: PhantomData }
    }

    fn into_ctx_ref_step(
        self,
        registry: &Registry<R>,
    ) -> (step: CtxStep<F, (ResMut<T, I>, ResMut<U, J>, ResMut<V, K>), Out>) {
        CtxStep { f: self, params: PhantomData }
    }
}

impl<
    R,
    T,
    I,
    U,
    J,
    V,
    K,
    C,
    Out,
    F: FnMut(&mut C, &T, &U, &V) -> Out,
> CtxProducerCall<R, C> for CtxStep<F, (Res<T, I>, Res<U, J>, Res<V, K>), Out> where
    R: Resource<T, I> + Resource<U, J> + Resource<V, K>,
{
    type Out = Out;

    open spec fn call_pre(&self, ctx: C, world: World<R>) -> bool {
        forall|r0: &mut C| *r0 == ctx
            ==> #[trigger] call_requires(
                self.f,
                (r0, &world.held::<T, I>(), &world.held::<U, J>(), &world.held::<V, K>()),
            )
    }

    open spec fn call_post(
        &self,
        ctx: C,
        world: World<R>,
        after: Self,
        ctx_after: C,
        world_after: World<R>,
        out: Out,
    ) -> bool {
        &&& after == *self
        &&& world_after == world
        &&& effect_mppp(
            self.f,
            ctx,
            &world.held::<T, I>(),
            &world.held::<U, J>(),
            &world.held::<V, K>(),
            ctx_after,
            out,
        )
    }

    fn call(&mut self, ctx: &mut C, world: &mut World<R>) -> (out: Out) {
        broadcast use vstd::function::group_function_axioms;

        let out = (self.f)(
            ctx,
            world.resource::<T, I>(),
            world.resource::<U, J>(),
            world.resource::<V, K>(),
        );
        record(
            effect_mppp_fact::<C, &T, &U, &V, Out, F>,
            Ghost((
                old(self).f,
                *old(ctx),
                &old(world).held::<T, I>(),
                &old(world).held::<U, J>(),
                &old(world).held::<V, K>(),
                *ctx,
                out,
            )),
        );
        out
    }
}

impl<
    R,
    T,
    I,
    U,
    J,
    V,
    K,
    C,
    Out,
    F: FnMut(&mut C, &T, &U, &V) -> Out,
> IntoCtxProducer<R, C, Out, (Res<T, I>, Res<U, J>, Res<V, K>)> for F where
    R: Resource<T, I> + Resource<U, J> + Resource<V, K>,
{
    type Step = CtxStep<F, (Res<T, I>, Res<U, J>, Res<V, K>), Out>;

    open spec fn resolved(self) -> CtxStep<F, (Res<T, I>, Res<U, J>, Res<V, K>), Out> {
        CtxStep { f: self, params: PhantomData }
    }

    fn into_ctx_producer(
        self,
        registry: &Registry<R>,
    ) -> (step: CtxStep<F, (Res<T, I>, Res<U, J>, Res<V, K>), Out>) {
        CtxStep { f: self, params: PhantomData }
    }
}

impl<
    R,
    T,
    I,
    U,
    J,
    V,
    K,
    C,
    Out,
    F: FnMut(&mut C, &T, &U, &mut V) -> Out,
> CtxProducerCall<R, C> for CtxStep<F, (Res<T, I>, Res<U, J>, ResMut<V, K>), Out> where
    R: Apart3<T, I, U, J, V, K>,
{
    type Out = Out;

    open spec fn call_pre(&self, ctx: C, world: World<R>) -> bool {
        forall|r0: &mut C, r3: &mut V| *r0 == ctx && *r3 == world.held::<V, K>()
            ==> #[trigger] call_requires(
                self.f,
                (r0, &world.held::<T, I>(), &world.held::<U, J>(), r3),
            )
    }

    open spec fn call_post(
        &self,
        ctx: C,
        world: World<R>,
        after: Self,
        ctx_after: C,
        world_after: World<R>,
        out: Out,
    ) -> bool {
        &&& after == *self
        &&& exists|held: V|
            #[trigger] effect_mppm(
                self.f,
                ctx,
                &world.held::<T, I>(),
                &world.held::<U, J>(),
                world.held::<V, K>(),
                ctx_after,
                held,
                out,
            )
                && world_after == world.holding::<V, K>(held)
    }

    fn call(&mut self, ctx: &mut C, world: &mut World<R>) -> (out: Out) {
        broadcast use vstd::function::group_function_axioms;

        let (first, second, third) = world.beside_two_mut::<T, I, U, J, V, K>();
        let out = (self.f)(ctx, first, second, &mut *third);
        record(
            effect_mppm_fact::<C, &T, &U, V, Out, F>,
            Ghost((
                old(self).f,
                *old(ctx),
                &old(world).held::<T, I>(),
                &old(world).held::<U, J>(),
                old(world).held::<V, K>(),
                *ctx,
                *third,
                out,
            )),
        );
        assert(effect_mppm(
            old(self).f,
            *old(ctx),
            &old(world).held::<T, I>(),
            &old(world).held::<U, J>(),
            old(world).held::<V, K>(),
            *ctx,
            *third,
            out,
        ));
        out
    }
}

impl<
    R,
    T,
    I,
    U,
    J,
    V,
    K,
    C,
    Out,
    F: FnMut(&mut C, &T, &U, &mut V) -> Out,
> IntoCtxProducer<R, C, Out, (Res<T, I>, Res<U, J>, ResMut<V, K>)> for F where
    R: Apart3<T, I, U, J, V, K>,
{
    type Step = CtxStep<F, (Res<T, I>, Res<U, J>, ResMut<V, K>), Out>;

    open spec fn resolved(self) -> CtxStep<F, (Res<T, I>, Res<U, J>, ResMut<V, K>), Out> {
        CtxStep { f: self, params: PhantomData }
    }

    fn into_ctx_producer(
        self,
        registry: &Registry<R>,
    ) -> (step: CtxStep<F, (Res<T, I>, Res<U, J>, ResMut<V, K>), Out>) {
        CtxStep { f: self, params: PhantomData }
    }
}

impl<
    R,
    T,
    I,
    U,
    J,
    V,
    K,
    C,
    Out,
    F: FnMut(&mut C, &T, &mut U, &V) -> Out,
> CtxProducerCall<R, C> for CtxStep<F, (Res<T, I>, ResMut<U, J>, Res<V, K>), Out> where
    R: Apart3<T, I, V, K, U, J>,
{
    type Out = Out;

    open spec fn call_pre(&self, ctx: C, world: World<R>) -> bool {
        forall|r0: &mut C, r2: &mut U| *r0 == ctx && *r2 == world.held::<U, J>()
            ==> #[trigger] call_requires(
                self.f,
                (r0, &world.held::<T, I>(), r2, &world.held::<V, K>()),
            )
    }

    open spec fn call_post(
        &self,
        ctx: C,
        world: World<R>,
        after: Self,
        ctx_after: C,
        world_after: World<R>,
        out: Out,
    ) -> bool {
        &&& after == *self
        &&& exists|held: U|
            #[trigger] effect_mpmp(
                self.f,
                ctx,
                &world.held::<T, I>(),
                world.held::<U, J>(),
                &world.held::<V, K>(),
                ctx_after,
                held,
                out,
            )
                && world_after == world.holding::<U, J>(held)
    }

    fn call(&mut self, ctx: &mut C, world: &mut World<R>) -> (out: Out) {
        broadcast use vstd::function::group_function_axioms;

        let (first, third, second) = world.beside_two_mut::<T, I, V, K, U, J>();
        let out = (self.f)(ctx, first, &mut *second, third);
        record(
            effect_mpmp_fact::<C, &T, U, &V, Out, F>,
            Ghost((
                old(self).f,
                *old(ctx),
                &old(world).held::<T, I>(),
                old(world).held::<U, J>(),
                &old(world).held::<V, K>(),
                *ctx,
                *second,
                out,
            )),
        );
        assert(effect_mpmp(
            old(self).f,
            *old(ctx),
            &old(world).held::<T, I>(),
            old(world).held::<U, J>(),
            &old(world).held::<V, K>(),
            *ctx,
            *second,
            out,
        ));
        out
    }
}

impl<
    R,
    T,
    I,
    U,
    J,
    V,
    K,
    C,
    Out,
    F: FnMut(&mut C, &T, &mut U, &V) -> Out,
> IntoCtxProducer<R, C, Out, (Res<T, I>, ResMut<U, J>, Res<V, K>)> for F where
    R: Apart3<T, I, V, K, U, J>,
{
    type Step = CtxStep<F, (Res<T, I>, ResMut<U, J>, Res<V, K>), Out>;

    open spec fn resolved(self) -> CtxStep<F, (Res<T, I>, ResMut<U, J>, Res<V, K>), Out> {
        CtxStep { f: self, params: PhantomData }
    }

    fn into_ctx_producer(
        self,
        registry: &Registry<R>,
    ) -> (step: CtxStep<F, (Res<T, I>, ResMut<U, J>, Res<V, K>), Out>) {
        CtxStep { f: self, params: PhantomData }
    }
}

impl<
    R,
    T,
    I,
    U,
    J,
    V,
    K,
    C,
    Out,
    F: FnMut(&mut C, &T, &mut U, &mut V) -> Out,
> CtxProducerCall<R, C> for CtxStep<F, (Res<T, I>, ResMut<U, J>, ResMut<V, K>), Out> where
    R: Apart3<T, I, U, J, V, K>,
{
    type Out = Out;

    open spec fn call_pre(&self, ctx: C, world: World<R>) -> bool {
        forall|r0: &mut C, r2: &mut U, r3: &mut V| *r0 == ctx
            && *r2 == world.held::<U, J>()
            && *r3 == world.held::<V, K>()
            ==> #[trigger] call_requires(self.f, (r0, &world.held::<T, I>(), r2, r3))
    }

    open spec fn call_post(
        &self,
        ctx: C,
        world: World<R>,
        after: Self,
        ctx_after: C,
        world_after: World<R>,
        out: Out,
    ) -> bool {
        &&& after == *self
        &&& exists|held: U, other: V|
            #[trigger] effect_mpmm(
                self.f,
                ctx,
                &world.held::<T, I>(),
                world.held::<U, J>(),
                world.held::<V, K>(),
                ctx_after,
                held,
                other,
                out,
            )
                && world_after == world.holding::<U, J>(held).holding::<V, K>(other)
    }

    fn call(&mut self, ctx: &mut C, world: &mut World<R>) -> (out: Out) {
        broadcast use vstd::function::group_function_axioms;

        let (first, second, third) = world.beside_both_mut::<T, I, U, J, V, K>();
        let out = (self.f)(ctx, first, &mut *second, &mut *third);
        record(
            effect_mpmm_fact::<C, &T, U, V, Out, F>,
            Ghost((
                old(self).f,
                *old(ctx),
                &old(world).held::<T, I>(),
                old(world).held::<U, J>(),
                old(world).held::<V, K>(),
                *ctx,
                *second,
                *third,
                out,
            )),
        );
        assert(effect_mpmm(
            old(self).f,
            *old(ctx),
            &old(world).held::<T, I>(),
            old(world).held::<U, J>(),
            old(world).held::<V, K>(),
            *ctx,
            *second,
            *third,
            out,
        ));
        out
    }
}

impl<
    R,
    T,
    I,
    U,
    J,
    V,
    K,
    C,
    Out,
    F: FnMut(&mut C, &T, &mut U, &mut V) -> Out,
> IntoCtxProducer<R, C, Out, (Res<T, I>, ResMut<U, J>, ResMut<V, K>)> for F where
    R: Apart3<T, I, U, J, V, K>,
{
    type Step = CtxStep<F, (Res<T, I>, ResMut<U, J>, ResMut<V, K>), Out>;

    open spec fn resolved(self) -> CtxStep<F, (Res<T, I>, ResMut<U, J>, ResMut<V, K>), Out> {
        CtxStep { f: self, params: PhantomData }
    }

    fn into_ctx_producer(
        self,
        registry: &Registry<R>,
    ) -> (step: CtxStep<F, (Res<T, I>, ResMut<U, J>, ResMut<V, K>), Out>) {
        CtxStep { f: self, params: PhantomData }
    }
}

impl<
    R,
    T,
    I,
    U,
    J,
    V,
    K,
    C,
    Out,
    F: FnMut(&mut C, &mut T, &U, &V) -> Out,
> CtxProducerCall<R, C> for CtxStep<F, (ResMut<T, I>, Res<U, J>, Res<V, K>), Out> where
    R: Apart3<U, J, V, K, T, I>,
{
    type Out = Out;

    open spec fn call_pre(&self, ctx: C, world: World<R>) -> bool {
        forall|r0: &mut C, r1: &mut T| *r0 == ctx && *r1 == world.held::<T, I>()
            ==> #[trigger] call_requires(
                self.f,
                (r0, r1, &world.held::<U, J>(), &world.held::<V, K>()),
            )
    }

    open spec fn call_post(
        &self,
        ctx: C,
        world: World<R>,
        after: Self,
        ctx_after: C,
        world_after: World<R>,
        out: Out,
    ) -> bool {
        &&& after == *self
        &&& exists|held: T|
            #[trigger] effect_mmpp(
                self.f,
                ctx,
                world.held::<T, I>(),
                &world.held::<U, J>(),
                &world.held::<V, K>(),
                ctx_after,
                held,
                out,
            )
                && world_after == world.holding::<T, I>(held)
    }

    fn call(&mut self, ctx: &mut C, world: &mut World<R>) -> (out: Out) {
        broadcast use vstd::function::group_function_axioms;

        let (second, third, first) = world.beside_two_mut::<U, J, V, K, T, I>();
        let out = (self.f)(ctx, &mut *first, second, third);
        record(
            effect_mmpp_fact::<C, T, &U, &V, Out, F>,
            Ghost((
                old(self).f,
                *old(ctx),
                old(world).held::<T, I>(),
                &old(world).held::<U, J>(),
                &old(world).held::<V, K>(),
                *ctx,
                *first,
                out,
            )),
        );
        assert(effect_mmpp(
            old(self).f,
            *old(ctx),
            old(world).held::<T, I>(),
            &old(world).held::<U, J>(),
            &old(world).held::<V, K>(),
            *ctx,
            *first,
            out,
        ));
        out
    }
}

impl<
    R,
    T,
    I,
    U,
    J,
    V,
    K,
    C,
    Out,
    F: FnMut(&mut C, &mut T, &U, &V) -> Out,
> IntoCtxProducer<R, C, Out, (ResMut<T, I>, Res<U, J>, Res<V, K>)> for F where
    R: Apart3<U, J, V, K, T, I>,
{
    type Step = CtxStep<F, (ResMut<T, I>, Res<U, J>, Res<V, K>), Out>;

    open spec fn resolved(self) -> CtxStep<F, (ResMut<T, I>, Res<U, J>, Res<V, K>), Out> {
        CtxStep { f: self, params: PhantomData }
    }

    fn into_ctx_producer(
        self,
        registry: &Registry<R>,
    ) -> (step: CtxStep<F, (ResMut<T, I>, Res<U, J>, Res<V, K>), Out>) {
        CtxStep { f: self, params: PhantomData }
    }
}

impl<
    R,
    T,
    I,
    U,
    J,
    V,
    K,
    C,
    Out,
    F: FnMut(&mut C, &mut T, &U, &mut V) -> Out,
> CtxProducerCall<R, C> for CtxStep<F, (ResMut<T, I>, Res<U, J>, ResMut<V, K>), Out> where
    R: Apart3<U, J, T, I, V, K>,
{
    type Out = Out;

    open spec fn call_pre(&self, ctx: C, world: World<R>) -> bool {
        forall|r0: &mut C, r1: &mut T, r3: &mut V| *r0 == ctx
            && *r1 == world.held::<T, I>()
            && *r3 == world.held::<V, K>()
            ==> #[trigger] call_requires(self.f, (r0, r1, &world.held::<U, J>(), r3))
    }

    open spec fn call_post(
        &self,
        ctx: C,
        world: World<R>,
        after: Self,
        ctx_after: C,
        world_after: World<R>,
        out: Out,
    ) -> bool {
        &&& after == *self
        &&& exists|held: T, other: V|
            #[trigger] effect_mmpm(
                self.f,
                ctx,
                world.held::<T, I>(),
                &world.held::<U, J>(),
                world.held::<V, K>(),
                ctx_after,
                held,
                other,
                out,
            )
                && world_after == world.holding::<T, I>(held).holding::<V, K>(other)
    }

    fn call(&mut self, ctx: &mut C, world: &mut World<R>) -> (out: Out) {
        broadcast use vstd::function::group_function_axioms;

        let (second, first, third) = world.beside_both_mut::<U, J, T, I, V, K>();
        let out = (self.f)(ctx, &mut *first, second, &mut *third);
        record(
            effect_mmpm_fact::<C, T, &U, V, Out, F>,
            Ghost((
                old(self).f,
                *old(ctx),
                old(world).held::<T, I>(),
                &old(world).held::<U, J>(),
                old(world).held::<V, K>(),
                *ctx,
                *first,
                *third,
                out,
            )),
        );
        assert(effect_mmpm(
            old(self).f,
            *old(ctx),
            old(world).held::<T, I>(),
            &old(world).held::<U, J>(),
            old(world).held::<V, K>(),
            *ctx,
            *first,
            *third,
            out,
        ));
        out
    }
}

impl<
    R,
    T,
    I,
    U,
    J,
    V,
    K,
    C,
    Out,
    F: FnMut(&mut C, &mut T, &U, &mut V) -> Out,
> IntoCtxProducer<R, C, Out, (ResMut<T, I>, Res<U, J>, ResMut<V, K>)> for F where
    R: Apart3<U, J, T, I, V, K>,
{
    type Step = CtxStep<F, (ResMut<T, I>, Res<U, J>, ResMut<V, K>), Out>;

    open spec fn resolved(self) -> CtxStep<F, (ResMut<T, I>, Res<U, J>, ResMut<V, K>), Out> {
        CtxStep { f: self, params: PhantomData }
    }

    fn into_ctx_producer(
        self,
        registry: &Registry<R>,
    ) -> (step: CtxStep<F, (ResMut<T, I>, Res<U, J>, ResMut<V, K>), Out>) {
        CtxStep { f: self, params: PhantomData }
    }
}

impl<
    R,
    T,
    I,
    U,
    J,
    V,
    K,
    C,
    Out,
    F: FnMut(&mut C, &mut T, &mut U, &V) -> Out,
> CtxProducerCall<R, C> for CtxStep<F, (ResMut<T, I>, ResMut<U, J>, Res<V, K>), Out> where
    R: Apart3<V, K, T, I, U, J>,
{
    type Out = Out;

    open spec fn call_pre(&self, ctx: C, world: World<R>) -> bool {
        forall|r0: &mut C, r1: &mut T, r2: &mut U| *r0 == ctx
            && *r1 == world.held::<T, I>()
            && *r2 == world.held::<U, J>()
            ==> #[trigger] call_requires(self.f, (r0, r1, r2, &world.held::<V, K>()))
    }

    open spec fn call_post(
        &self,
        ctx: C,
        world: World<R>,
        after: Self,
        ctx_after: C,
        world_after: World<R>,
        out: Out,
    ) -> bool {
        &&& after == *self
        &&& exists|held: T, other: U|
            #[trigger] effect_mmmp(
                self.f,
                ctx,
                world.held::<T, I>(),
                world.held::<U, J>(),
                &world.held::<V, K>(),
                ctx_after,
                held,
                other,
                out,
            )
                && world_after == world.holding::<T, I>(held).holding::<U, J>(other)
    }

    fn call(&mut self, ctx: &mut C, world: &mut World<R>) -> (out: Out) {
        broadcast use vstd::function::group_function_axioms;

        let (third, first, second) = world.beside_both_mut::<V, K, T, I, U, J>();
        let out = (self.f)(ctx, &mut *first, &mut *second, third);
        record(
            effect_mmmp_fact::<C, T, U, &V, Out, F>,
            Ghost((
                old(self).f,
                *old(ctx),
                old(world).held::<T, I>(),
                old(world).held::<U, J>(),
                &old(world).held::<V, K>(),
                *ctx,
                *first,
                *second,
                out,
            )),
        );
        assert(effect_mmmp(
            old(self).f,
            *old(ctx),
            old(world).held::<T, I>(),
            old(world).held::<U, J>(),
            &old(world).held::<V, K>(),
            *ctx,
            *first,
            *second,
            out,
        ));
        out
    }
}

impl<
    R,
    T,
    I,
    U,
    J,
    V,
    K,
    C,
    Out,
    F: FnMut(&mut C, &mut T, &mut U, &V) -> Out,
> IntoCtxProducer<R, C, Out, (ResMut<T, I>, ResMut<U, J>, Res<V, K>)> for F where
    R: Apart3<V, K, T, I, U, J>,
{
    type Step = CtxStep<F, (ResMut<T, I>, ResMut<U, J>, Res<V, K>), Out>;

    open spec fn resolved(self) -> CtxStep<F, (ResMut<T, I>, ResMut<U, J>, Res<V, K>), Out> {
        CtxStep { f: self, params: PhantomData }
    }

    fn into_ctx_producer(
        self,
        registry: &Registry<R>,
    ) -> (step: CtxStep<F, (ResMut<T, I>, ResMut<U, J>, Res<V, K>), Out>) {
        CtxStep { f: self, params: PhantomData }
    }
}

impl<
    R,
    T,
    I,
    U,
    J,
    V,
    K,
    C,
    Out,
    F: FnMut(&mut C, &mut T, &mut U, &mut V) -> Out,
> CtxProducerCall<R, C> for CtxStep<F, (ResMut<T, I>, ResMut<U, J>, ResMut<V, K>), Out> where
    R: Apart3<T, I, U, J, V, K>,
{
    type Out = Out;

    open spec fn call_pre(&self, ctx: C, world: World<R>) -> bool {
        forall|r0: &mut C, r1: &mut T, r2: &mut U, r3: &mut V| *r0 == ctx
            && *r1 == world.held::<T, I>()
            && *r2 == world.held::<U, J>()
            && *r3 == world.held::<V, K>()
            ==> #[trigger] call_requires(self.f, (r0, r1, r2, r3))
    }

    open spec fn call_post(
        &self,
        ctx: C,
        world: World<R>,
        after: Self,
        ctx_after: C,
        world_after: World<R>,
        out: Out,
    ) -> bool {
        &&& after == *self
        &&& exists|held: T, other: U, last: V|
            #[trigger] effect_mmmm(
                self.f,
                ctx,
                world.held::<T, I>(),
                world.held::<U, J>(),
                world.held::<V, K>(),
                ctx_after,
                held,
                other,
                last,
                out,
            )
                && world_after == world.holding::<T, I>(held).holding::<U, J>(other).holding::<V, K>(last)
    }

    fn call(&mut self, ctx: &mut C, world: &mut World<R>) -> (out: Out) {
        broadcast use vstd::function::group_function_axioms;

        let (first, second, third) = world.three_mut::<T, I, U, J, V, K>();
        let out = (self.f)(ctx, &mut *first, &mut *second, &mut *third);
        record(
            effect_mmmm_fact::<C, T, U, V, Out, F>,
            Ghost((
                old(self).f,
                *old(ctx),
                old(world).held::<T, I>(),
                old(world).held::<U, J>(),
                old(world).held::<V, K>(),
                *ctx,
                *first,
                *second,
                *third,
                out,
            )),
        );
        assert(effect_mmmm(
            old(self).f,
            *old(ctx),
            old(world).held::<T, I>(),
            old(world).held::<U, J>(),
            old(world).held::<V, K>(),
            *ctx,
            *first,
            *second,
            *third,
            out,
        ));
        out
    }
}

impl<
    R,
    T,
    I,
    U,
    J,
    V,
    K,
    C,
    Out,
    F: FnMut(&mut C, &mut T, &mut U, &mut V) -> Out,
> IntoCtxProducer<R, C, Out, (ResMut<T, I>, ResMut<U, J>, ResMut<V, K>)> for F where
    R: Apart3<T, I, U, J, V, K>,
{
    type Step = CtxStep<F, (ResMut<T, I>, ResMut<U, J>, ResMut<V, K>), Out>;

    open spec fn resolved(self) -> CtxStep<F, (ResMut<T, I>, ResMut<U, J>, ResMut<V, K>), Out> {
        CtxStep { f: self, params: PhantomData }
    }

    fn into_ctx_producer(
        self,
        registry: &Registry<R>,
    ) -> (step: CtxStep<F, (ResMut<T, I>, ResMut<U, J>, ResMut<V, K>), Out>) {
        CtxStep { f: self, params: PhantomData }
    }
}

} // verus!
