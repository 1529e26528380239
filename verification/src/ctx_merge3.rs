//! Functions of three resources that are handed a context and shown the results of several arms.
use crate::ctx_merge::{CtxMergeStep, CtxMergeStepCall, IntoCtxMergeStep};
use crate::effect::{
    effect_mmmmpp, effect_mmmmpp_fact, effect_mmmmppp, effect_mmmmppp_fact, effect_mmmmpppp,
    effect_mmmmpppp_fact, effect_mmmppp, effect_mmmppp_fact, effect_mmmpppp, effect_mmmpppp_fact,
    effect_mmmppppp, effect_mmmppppp_fact, effect_mmpmpp, effect_mmpmpp_fact, effect_mmpmppp,
    effect_mmpmppp_fact, effect_mmpmpppp, effect_mmpmpppp_fact, effect_mmpppp, effect_mmpppp_fact,
    effect_mmppppp, effect_mmppppp_fact, effect_mmpppppp, effect_mmpppppp_fact, effect_mpmmpp,
    effect_mpmmpp_fact, effect_mpmmppp, effect_mpmmppp_fact, effect_mpmmpppp, effect_mpmmpppp_fact,
    effect_mpmppp, effect_mpmppp_fact, effect_mpmpppp, effect_mpmpppp_fact, effect_mpmppppp,
    effect_mpmppppp_fact, effect_mppmpp, effect_mppmpp_fact, effect_mppmppp, effect_mppmppp_fact,
    effect_mppmpppp, effect_mppmpppp_fact, effect_mppppp, effect_mppppp_fact, effect_mpppppp,
    effect_mpppppp_fact, effect_mppppppp, effect_mppppppp_fact, record,
};
use crate::world::{Apart3, Registry, Res, ResMut, Resource, World};
use std::marker::PhantomData;
use vstd::prelude::*;

verus! {

impl<
    R,
    T,
    I,
    U,
    J,
    V,
    K,
    C,
    A,
    B,
    Out,
    F: FnMut(&mut C, &T, &U, &V, &A, &B) -> Out,
> CtxMergeStepCall<R, C, (&A, &B), Out> for CtxMergeStep<F, (Res<T, I>, Res<U, J>, Res<V, K>)> where
    R: Resource<T, I> + Resource<U, J> + Resource<V, K>,
{
    open spec fn call_pre(&self, ctx: C, world: World<R>, inputs: (&A, &B)) -> bool {
        forall|r0: &mut C| *r0 == ctx
            ==> #[trigger] call_requires(
                self.f,
                (
                    r0,
                    &world.held::<T, I>(),
                    &world.held::<U, J>(),
                    &world.held::<V, K>(),
                    inputs.0,
                    inputs.1,
                ),
            )
    }

    open spec fn call_post(
        &self,
        ctx: C,
        world: World<R>,
        inputs: (&A, &B),
        after: Self,
        ctx_after: C,
        world_after: World<R>,
        out: Out,
    ) -> bool {
        &&& after == *self
        &&& world_after == world
        &&& effect_mppppp(
            self.f,
            ctx,
            &world.held::<T, I>(),
            &world.held::<U, J>(),
            &world.held::<V, K>(),
            inputs.0,
            inputs.1,
            ctx_after,
            out,
        )
    }

    fn call(&mut self, ctx: &mut C, world: &mut World<R>, inputs: (&A, &B)) -> (out: Out) {
        broadcast use vstd::function::group_function_axioms;

        let out = (self.f)(
            ctx,
            world.resource::<T, I>(),
            world.resource::<U, J>(),
            world.resource::<V, K>(),
            inputs.0,
            inputs.1,
        );
        record(
            effect_mppppp_fact::<C, &T, &U, &V, &A, &B, Out, F>,
            Ghost((
                old(self).f,
                *old(ctx),
                &old(world).held::<T, I>(),
                &old(world).held::<U, J>(),
                &old(world).held::<V, K>(),
                inputs.0,
                inputs.1,
                *ctx,
                out,
            )),
        );
        out
    }
}

impl<
    R,
    T,
    I,
    U,
    J,
    V,
    K,
    C,
    A,
    B,
    Out,
    F: FnMut(&mut C, &T, &U, &V, &A, &B) -> Out,
> IntoCtxMergeStep<R, C, (&A, &B), Out, (Res<T, I>, Res<U, J>, Res<V, K>)> for F where
    R: Resource<T, I> + Resource<U, J> + Resource<V, K>,
{
    type Step = CtxMergeStep<F, (Res<T, I>, Res<U, J>, Res<V, K>)>;

    open spec fn resolved(self) -> CtxMergeStep<F, (Res<T, I>, Res<U, J>, Res<V, K>)> {
        CtxMergeStep { f: self, params: PhantomData }
    }

    fn into_ctx_merge_step(
        self,
        registry: &Registry<R>,
    ) -> (step: CtxMergeStep<F, (Res<T, I>, Res<U, J>, Res<V, K>)>) {
        CtxMergeStep { f: self, params: PhantomData }
    }
}

impl<
    R,
    T,
    I,
    U,
    J,
    V,
    K,
    C,
    A,
    B,
    Out,
    F: FnMut(&mut C, &T, &U, &mut V, &A, &B) -> Out,
> CtxMergeStepCall<R, C, (&A, &B), Out> for CtxMergeStep<F, (Res<T, I>, Res<U, J>, ResMut<V, K>)> where
    R: Apart3<T, I, U, J, V, K>,
{
    open spec fn call_pre(&self, ctx: C, world: World<R>, inputs: (&A, &B)) -> bool {
        forall|r0: &mut C, r3: &mut V| *r0 == ctx && *r3 == world.held::<V, K>()
            ==> #[trigger] call_requires(
                self.f,
                (r0, &world.held::<T, I>(), &world.held::<U, J>(), r3, inputs.0, inputs.1),
            )
    }

    open spec fn call_post(
        &self,
        ctx: C,
        world: World<R>,
        inputs: (&A, &B),
        after: Self,
        ctx_after: C,
        world_after: World<R>,
        out: Out,
    ) -> bool {
        &&& after == *self
        &&& exists|held: V|
            #[trigger] effect_mppmpp(
                self.f,
                ctx,
                &world.held::<T, I>(),
                &world.held::<U, J>(),
                world.held::<V, K>(),
                inputs.0,
                inputs.1,
                ctx_after,
                held,
                out,
            )
                && world_after == world.holding::<V, K>(held)
    }

    fn call(&mut self, ctx: &mut C, world: &mut World<R>, inputs: (&A, &B)) -> (out: Out) {
        broadcast use vstd::function::group_function_axioms;

        let (first, second, third) = world.beside_two_mut::<T, I, U, J, V, K>();
        let out = (self.f)(ctx, first, second, &mut *third, inputs.0, inputs.1);
        record(
            effect_mppmpp_fact::<C, &T, &U, V, &A, &B, Out, F>,
            Ghost((
                old(self).f,
                *old(ctx),
                &old(world).held::<T, I>(),
                &old(world).held::<U, J>(),
                old(world).held::<V, K>(),
                inputs.0,
                inputs.1,
                *ctx,
                *third,
                out,
            )),
        );
        assert(effect_mppmpp(
            old(self).f,
            *old(ctx),
            &old(world).held::<T, I>(),
            &old(world).held::<U, J>(),
            old(world).held::<V, K>(),
            inputs.0,
            inputs.1,
            *ctx,
            *third,
            out,
        ));
        out
    }
}

impl<
    R,
    T,
    I,
    U,
    J,
    V,
    K,
    C,
    A,
    B,
    Out,
    F: FnMut(&mut C, &T, &U, &mut V, &A, &B) -> Out,
> IntoCtxMergeStep<R, C, (&A, &B), Out, (Res<T, I>, Res<U, J>, ResMut<V, K>)> for F where
    R: Apart3<T, I, U, J, V, K>,
{
    type Step = CtxMergeStep<F, (Res<T, I>, Res<U, J>, ResMut<V, K>)>;

    open spec fn resolved(self) -> CtxMergeStep<F, (Res<T, I>, Res<U, J>, ResMut<V, K>)> {
        CtxMergeStep { f: self, params: PhantomData }
    }

    fn into_ctx_merge_step(
        self,
        registry: &Registry<R>,
    ) -> (step: CtxMergeStep<F, (Res<T, I>, Res<U, J>, ResMut<V, K>)>) {
        CtxMergeStep { f: self, params: PhantomData }
    }
}

impl<
    R,
    T,
    I,
    U,
    J,
    V,
    K,
    C,
    A,
    B,
    Out,
    F: FnMut(&mut C, &T, &mut U, &V, &A, &B) -> Out,
> CtxMergeStepCall<R, C, (&A, &B), Out> for CtxMergeStep<F, (Res<T, I>, ResMut<U, J>, Res<V, K>)> where
    R: Apart3<T, I, V, K, U, J>,
{
    open spec fn call_pre(&self, ctx: C, world: World<R>, inputs: (&A, &B)) -> bool {
        forall|r0: &mut C, r2: &mut U| *r0 == ctx && *r2 == world.held::<U, J>()
            ==> #[trigger] call_requires(
                self.f,
                (r0, &world.held::<T, I>(), r2, &world.held::<V, K>(), inputs.0, inputs.1),
            )
    }

    open spec fn call_post(
        &self,
        ctx: C,
        world: World<R>,
        inputs: (&A, &B),
        after: Self,
        ctx_after: C,
        world_after: World<R>,
        out: Out,
    ) -> bool {
        &&& after == *self
        &&& exists|held: U|
            #[trigger] effect_mpmppp(
                self.f,
                ctx,
                &world.held::<T, I>(),
                world.held::<U, J>(),
                &world.held::<V, K>(),
                inputs.0,
                inputs.1,
                ctx_after,
                held,
                out,
            )
                && world_after == world.holding::<U, J>(held)
    }

    fn call(&mut self, ctx: &mut C, world: &mut World<R>, inputs: (&A, &B)) -> (out: Out) {
        broadcast use vstd::function::group_function_axioms;

        let (first, third, second) = world.beside_two_mut::<T, I, V, K, U, J>();
        let out = (self.f)(ctx, first, &mut *second, third, inputs.0, inputs.1);
        record(
            effect_mpmppp_fact::<C, &T, U, &V, &A, &B, Out, F>,
            Ghost((
                old(self).f,
                *old(ctx),
                &old(world).held::<T, I>(),
                old(world).held::<U, J>(),
                &old(world).held::<V, K>(),
                inputs.0,
                inputs.1,
                *ctx,
                *second,
                out,
            )),
        );
        assert(effect_mpmppp(
            old(self).f,
            *old(ctx),
            &old(world).held::<T, I>(),
            old(world).held::<U, J>(),
            &old(world).held::<V, K>(),
            inputs.0,
            inputs.1,
            *ctx,
            *second,
            out,
        ));
        out
    }
}

impl<
    R,
    T,
    I,
    U,
    J,
    V,
    K,
    C,
    A,
    B,
    Out,
    F: FnMut(&mut C, &T, &mut U, &V, &A, &B) -> Out,
> IntoCtxMergeStep<R, C, (&A, &B), Out, (Res<T, I>, ResMut<U, J>, Res<V, K>)> for F where
    R: Apart3<T, I, V, K, U, J>,
{
    type Step = CtxMergeStep<F, (Res<T, I>, ResMut<U, J>, Res<V, K>)>;

    open spec fn resolved(self) -> CtxMergeStep<F, (Res<T, I>, ResMut<U, J>, Res<V, K>)> {
        CtxMergeStep { f: self, params: PhantomData }
    }

    fn into_ctx_merge_step(
        self,
        registry: &Registry<R>,
    ) -> (step: CtxMergeStep<F, (Res<T, I>, ResMut<U, J>, Res<V, K>)>) {
        CtxMergeStep { f: self, params: PhantomData }
    }
}

impl<
    R,
    T,
    I,
    U,
    J,
    V,
    K,
    C,
    A,
    B,
    Out,
    F: FnMut(&mut C, &T, &mut U, &mut V, &A, &B) -> Out,
> CtxMergeStepCall<R, C, (&A, &B), Out> for CtxMergeStep<
    F,
    (Res<T, I>, ResMut<U, J>, ResMut<V, K>),
> where
    R: Apart3<T, I, U, J, V, K>,
{
    open spec fn call_pre(&self, ctx: C, world: World<R>, inputs: (&A, &B)) -> bool {
        forall|r0: &mut C, r2: &mut U, r3: &mut V| *r0 == ctx
            && *r2 == world.held::<U, J>()
            && *r3 == world.held::<V, K>()
            ==> #[trigger] call_requires(
                self.f,
                (r0, &world.held::<T, I>(), r2, r3, inputs.0, inputs.1),
            )
    }

    open spec fn call_post(
        &self,
        ctx: C,
        world: World<R>,
        inputs: (&A, &B),
        after: Self,
        ctx_after: C,
        world_after: World<R>,
        out: Out,
    ) -> bool {
        &&& after == *self
        &&& exists|held: U, other: V|
            #[trigger] effect_mpmmpp(
                self.f,
                ctx,
                &world.held::<T, I>(),
                world.held::<U, J>(),
                world.held::<V, K>(),
                inputs.0,
                inputs.1,
                ctx_after,
                held,
                other,
                out,
            )
                && world_after == world.holding::<U, J>(held).holding::<V, K>(other)
    }

    fn call(&mut self, ctx: &mut C, world: &mut World<R>, inputs: (&A, &B)) -> (out: Out) {
        broadcast use vstd::function::group_function_axioms;

        let (first, second, third) = world.beside_both_mut::<T, I, U, J, V, K>();
        let out = (self.f)(ctx, first, &mut *second, &mut *third, inputs.0, inputs.1);
        record(
            effect_mpmmpp_fact::<C, &T, U, V, &A, &B, Out, F>,
            Ghost((
                old(self).f,
                *old(ctx),
                &old(world).held::<T, I>(),
                old(world).held::<U, J>(),
                old(world).held::<V, K>(),
                inputs.0,
                inputs.1,
                *ctx,
                *second,
                *third,
                out,
            )),
        );
        assert(effect_mpmmpp(
            old(self).f,
            *old(ctx),
            &old(world).held::<T, I>(),
            old(world).held::<U, J>(),
            old(world).held::<V, K>(),
            inputs.0,
            inputs.1,
            *ctx,
            *second,
            *third,
            out,
        ));
        out
    }
}

impl<
    R,
    T,
    I,
    U,
    J,
    V,
    K,
    C,
    A,
    B,
    Out,
    F: FnMut(&mut C, &T, &mut U, &mut V, &A, &B) -> Out,
> IntoCtxMergeStep<R, C, (&A, &B), Out, (Res<T, I>, ResMut<U, J>, ResMut<V, K>)> for F where
    R: Apart3<T, I, U, J, V, K>,
{
    type Step = CtxMergeStep<F, (Res<T, I>, ResMut<U, J>, ResMut<V, K>)>;

    open spec fn resolved(self) -> CtxMergeStep<F, (Res<T, I>, ResMut<U, J>, ResMut<V, K>)> {
        CtxMergeStep { f: self, params: PhantomData }
    }

    fn into_ctx_merge_step(
        self,
        registry: &Registry<R>,
    ) -> (step: CtxMergeStep<F, (Res<T, I>, ResMut<U, J>, ResMut<V, K>)>) {
        CtxMergeStep { f: self, params: PhantomData }
    }
}

impl<
    R,
    T,
    I,
    U,
    J,
    V,
    K,
    C,
    A,
    B,
    Out,
    F: FnMut(&mut C, &mut T, &U, &V, &A, &B) -> Out,
> CtxMergeStepCall<R, C, (&A, &B), Out> for CtxMergeStep<F, (ResMut<T, I>, Res<U, J>, Res<V, K>)> where
    R: Apart3<U, J, V, K, T, I>,
{
    open spec fn call_pre(&self, ctx: C, world: World<R>, inputs: (&A, &B)) -> bool {
        forall|r0: &mut C, r1: &mut T| *r0 == ctx && *r1 == world.held::<T, I>()
            ==> #[trigger] call_requires(
                self.f,
                (r0, r1, &world.held::<U, J>(), &world.held::<V, K>(), inputs.0, inputs.1),
            )
    }

    open spec fn call_post(
        &self,
        ctx: C,
        world: World<R>,
        inputs: (&A, &B),
        after: Self,
        ctx_after: C,
        world_after: World<R>,
        out: Out,
    ) -> bool {
        &&& after == *self
        &&& exists|held: T|
            #[trigger] effect_mmpppp(
                self.f,
                ctx,
                world.held::<T, I>(),
                &world.held::<U, J>(),
                &world.held::<V, K>(),
                inputs.0,
                inputs.1,
                ctx_after,
                held,
                out,
            )
                && world_after == world.holding::<T, I>(held)
    }

    fn call(&mut self, ctx: &mut C, world: &mut World<R>, inputs: (&A, &B)) -> (out: Out) {
        broadcast use vstd::function::group_function_axioms;

        let (second, third, first) = world.beside_two_mut::<U, J, V, K, T, I>();
        let out = (self.f)(ctx, &mut *first, second, third, inputs.0, inputs.1);
        record(
            effect_mmpppp_fact::<C, T, &U, &V, &A, &B, Out, F>,
            Ghost((
                old(self).f,
                *old(ctx),
                old(world).held::<T, I>(),
                &old(world).held::<U, J>(),
                &old(world).held::<V, K>(),
                inputs.0,
                inputs.1,
                *ctx,
                *first,
                out,
            )),
        );
        assert(effect_mmpppp(
            old(self).f,
            *old(ctx),
            old(world).held::<T, I>(),
            &old(world).held::<U, J>(),
            &old(world).held::<V, K>(),
            inputs.0,
            inputs.1,
            *ctx,
            *first,
            out,
        ));
        out
    }
}

impl<
    R,
    T,
    I,
    U,
    J,
    V,
    K,
    C,
    A,
    B,
    Out,
    F: FnMut(&mut C, &mut T, &U, &V, &A, &B) -> Out,
> IntoCtxMergeStep<R, C, (&A, &B), Out, (ResMut<T, I>, Res<U, J>, Res<V, K>)> for F where
    R: Apart3<U, J, V, K, T, I>,
{
    type Step = CtxMergeStep<F, (ResMut<T, I>, Res<U, J>, Res<V, K>)>;

    open spec fn resolved(self) -> CtxMergeStep<F, (ResMut<T, I>, Res<U, J>, Res<V, K>)> {
        CtxMergeStep { f: self, params: PhantomData }
    }

    fn into_ctx_merge_step(
        self,
        registry: &Registry<R>,
    ) -> (step: CtxMergeStep<F, (ResMut<T, I>, Res<U, J>, Res<V, K>)>) {
        CtxMergeStep { f: self, params: PhantomData }
    }
}

impl<
    R,
    T,
    I,
    U,
    J,
    V,
    K,
    C,
    A,
    B,
    Out,
    F: FnMut(&mut C, &mut T, &U, &mut V, &A, &B) -> Out,
> CtxMergeStepCall<R, C, (&A, &B), Out> for CtxMergeStep<
    F,
    (ResMut<T, I>, Res<U, J>, ResMut<V, K>),
> where
    R: Apart3<U, J, T, I, V, K>,
{
    open spec fn call_pre(&self, ctx: C, world: World<R>, inputs: (&A, &B)) -> bool {
        forall|r0: &mut C, r1: &mut T, r3: &mut V| *r0 == ctx
            && *r1 == world.held::<T, I>()
            && *r3 == world.held::<V, K>()
            ==> #[trigger] call_requires(
                self.f,
                (r0, r1, &world.held::<U, J>(), r3, inputs.0, inputs.1),
            )
    }

    open spec fn call_post(
        &self,
        ctx: C,
        world: World<R>,
        inputs: (&A, &B),
        after: Self,
        ctx_after: C,
        world_after: World<R>,
        out: Out,
    ) -> bool {
        &&& after == *self
        &&& exists|held: T, other: V|
            #[trigger] effect_mmpmpp(
                self.f,
                ctx,
                world.held::<T, I>(),
                &world.held::<U, J>(),
                world.held::<V, K>(),
                inputs.0,
                inputs.1,
                ctx_after,
                held,
                other,
                out,
            )
                && world_after == world.holding::<T, I>(held).holding::<V, K>(other)
    }

    fn call(&mut self, ctx: &mut C, world: &mut World<R>, inputs: (&A, &B)) -> (out: Out) {
        broadcast use vstd::function::group_function_axioms;

        let (second, first, third) = world.beside_both_mut::<U, J, T, I, V, K>();
        let out = (self.f)(ctx, &mut *first, second, &mut *third, inputs.0, inputs.1);
        record(
            effect_mmpmpp_fact::<C, T, &U, V, &A, &B, Out, F>,
            Ghost((
                old(self).f,
                *old(ctx),
                old(world).held::<T, I>(),
                &old(world).held::<U, J>(),
                old(world).held::<V, K>(),
                inputs.0,
                inputs.1,
                *ctx,
                *first,
                *third,
                out,
            )),
        );
        assert(effect_mmpmpp(
            old(self).f,
            *old(ctx),
            old(world).held::<T, I>(),
            &old(world).held::<U, J>(),
            old(world).held::<V, K>(),
            inputs.0,
            inputs.1,
            *ctx,
            *first,
            *third,
            out,
        ));
        out
    }
}

impl<
    R,
    T,
    I,
    U,
    J,
    V,
    K,
    C,
    A,
    B,
    Out,
    F: FnMut(&mut C, &mut T, &U, &mut V, &A, &B) -> Out,
> IntoCtxMergeStep<R, C, (&A, &B), Out, (ResMut<T, I>, Res<U, J>, ResMut<V, K>)> for F where
    R: Apart3<U, J, T, I, V, K>,
{
    type Step = CtxMergeStep<F, (ResMut<T, I>, Res<U, J>, ResMut<V, K>)>;

    open spec fn resolved(self) -> CtxMergeStep<F, (ResMut<T, I>, Res<U, J>, ResMut<V, K>)> {
        CtxMergeStep { f: self, params: PhantomData }
    }

    fn into_ctx_merge_step(
        self,
        registry: &Registry<R>,
    ) -> (step: CtxMergeStep<F, (ResMut<T, I>, Res<U, J>, ResMut<V, K>)>) {
        CtxMergeStep { f: self, params: PhantomData }
    }
}

impl<
    R,
    T,
    I,
    U,
    J,
    V,
    K,
    C,
    A,
    B,
    Out,
    F: FnMut(&mut C, &mut T, &mut U, &V, &A, &B) -> Out,
> CtxMergeStepCall<R, C, (&A, &B), Out> for CtxMergeStep<
    F,
    (ResMut<T, I>, ResMut<U, J>, Res<V, K>),
> where
    R: Apart3<V, K, T, I, U, J>,
{
    open spec fn call_pre(&self, ctx: C, world: World<R>, inputs: (&A, &B)) -> bool {
        forall|r0: &mut C, r1: &mut T, r2: &mut U| *r0 == ctx
            && *r1 == world.held::<T, I>()
            && *r2 == world.held::<U, J>()
            ==> #[trigger] call_requires(
                self.f,
                (r0, r1, r2, &world.held::<V, K>(), inputs.0, inputs.1),
            )
    }

    open spec fn call_post(
        &self,
        ctx: C,
        world: World<R>,
        inputs: (&A, &B),
        after: Self,
        ctx_after: C,
        world_after: World<R>,
        out: Out,
    ) -> bool {
        &&& after == *self
        &&& exists|held: T, other: U|
            #[trigger] effect_mmmppp(
                self.f,
                ctx,
                world.held::<T, I>(),
                world.held::<U, J>(),
                &world.held::<V, K>(),
                inputs.0,
                inputs.1,
                ctx_after,
                held,
                other,
                out,
            )
                && world_after == world.holding::<T, I>(held).holding::<U, J>(other)
    }

    fn call(&mut self, ctx: &mut C, world: &mut World<R>, inputs: (&A, &B)) -> (out: Out) {
        broadcast use vstd::function::group_function_axioms;

        let (third, first, second) = world.beside_both_mut::<V, K, T, I, U, J>();
        let out = (self.f)(ctx, &mut *first, &mut *second, third, inputs.0, inputs.1);
        record(
            effect_mmmppp_fact::<C, T, U, &V, &A, &B, Out, F>,
            Ghost((
                old(self).f,
                *old(ctx),
                old(world).held::<T, I>(),
                old(world).held::<U, J>(),
                &old(world).held::<V, K>(),
                inputs.0,
                inputs.1,
                *ctx,
                *first,
                *second,
                out,
            )),
        );
        assert(effect_mmmppp(
            old(self).f,
            *old(ctx),
            old(world).held::<T, I>(),
            old(world).held::<U, J>(),
            &old(world).held::<V, K>(),
            inputs.0,
            inputs.1,
            *ctx,
            *first,
            *second,
            out,
        ));
        out
    }
}

impl<
    R,
    T,
    I,
    U,
    J,
    V,
    K,
    C,
    A,
    B,
    Out,
    F: FnMut(&mut C, &mut T, &mut U, &V, &A, &B) -> Out,
> IntoCtxMergeStep<R, C, (&A, &B), Out, (ResMut<T, I>, ResMut<U, J>, Res<V, K>)> for F where
    R: Apart3<V, K, T, I, U, J>,
{
    type Step = CtxMergeStep<F, (ResMut<T, I>, ResMut<U, J>, Res<V, K>)>;

    open spec fn resolved(self) -> CtxMergeStep<F, (ResMut<T, I>, ResMut<U, J>, Res<V, K>)> {
        CtxMergeStep { f: self, params: PhantomData }
    }

    fn into_ctx_merge_step(
        self,
        registry: &Registry<R>,
    ) -> (step: CtxMergeStep<F, (ResMut<T, I>, ResMut<U, J>, Res<V, K>)>) {
        CtxMergeStep { f: self, params: PhantomData }
    }
}

impl<
    R,
    T,
    I,
    U,
    J,
    V,
    K,
    C,
    A,
    B,
    Out,
    F: FnMut(&mut C, &mut T, &mut U, &mut V, &A, &B) -> Out,
> CtxMergeStepCall<R, C, (&A, &B), Out> for CtxMergeStep<
    F,
    (ResMut<T, I>, ResMut<U, J>, ResMut<V, K>),
> where
    R: Apart3<T, I, U, J, V, K>,
{
    open spec fn call_pre(&self, ctx: C, world: World<R>, inputs: (&A, &B)) -> bool {
        forall|r0: &mut C, r1: &mut T, r2: &mut U, r3: &mut V| *r0 == ctx
            && *r1 == world.held::<T, I>()
            && *r2 == world.held::<U, J>()
            && *r3 == world.held::<V, K>()
            ==> #[trigger] call_requires(self.f, (r0, r1, r2, r3, inputs.0, inputs.1))
    }

    open spec fn call_post(
        &self,
        ctx: C,
        world: World<R>,
        inputs: (&A, &B),
        after: Self,
        ctx_after: C,
        world_after: World<R>,
        out: Out,
    ) -> bool {
        &&& after == *self
        &&& exists|held: T, other: U, last: V|
            #[trigger] effect_mmmmpp(
                self.f,
                ctx,
                world.held::<T, I>(),
                world.held::<U, J>(),
                world.held::<V, K>(),
                inputs.0,
                inputs.1,
                ctx_after,
                held,
                other,
                last,
                out,
            )
                && world_after == world.holding::<T, I>(held).holding::<U, J>(other).holding::<V, K>(last)
    }

    fn call(&mut self, ctx: &mut C, world: &mut World<R>, inputs: (&A, &B)) -> (out: Out) {
        broadcast use vstd::function::group_function_axioms;

        let (first, second, third) = world.three_mut::<T, I, U, J, V, K>();
        let out = (self.f)(ctx, &mut *first, &mut *second, &mut *third, inputs.0, inputs.1);
        record(
            effect_mmmmpp_fact::<C, T, U, V, &A, &B, Out, F>,
            Ghost((
                old(self).f,
                *old(ctx),
                old(world).held::<T, I>(),
                old(world).held::<U, J>(),
                old(world).held::<V, K>(),
                inputs.0,
                inputs.1,
                *ctx,
                *first,
                *second,
                *third,
                out,
            )),
        );
        assert(effect_mmmmpp(
            old(self).f,
            *old(ctx),
            old(world).held::<T, I>(),
            old(world).held::<U, J>(),
            old(world).held::<V, K>(),
            inputs.0,
            inputs.1,
            *ctx,
            *first,
            *second,
            *third,
            out,
        ));
        out
    }
}

impl<
    R,
    T,
    I,
    U,
    J,
    V,
    K,
    C,
    A,
    B,
    Out,
    F: FnMut(&mut C, &mut T, &mut U, &mut V, &A, &B) -> Out,
> IntoCtxMergeStep<R, C, (&A, &B), Out, (ResMut<T, I>, ResMut<U, J>, ResMut<V, K>)> for F where
    R: Apart3<T, I, U, J, V, K>,
{
    type Step = CtxMergeStep<F, (ResMut<T, I>, ResMut<U, J>, ResMut<V, K>)>;

    open spec fn resolved(self) -> CtxMergeStep<F, (ResMut<T, I>, ResMut<U, J>, ResMut<V, K>)> {
        CtxMergeStep { f: self, params: PhantomData }
    }

    fn into_ctx_merge_step(
        self,
        registry: &Registry<R>,
    ) -> (step: CtxMergeStep<F, (ResMut<T, I>, ResMut<U, J>, ResMut<V, K>)>) {
        CtxMergeStep { f: self, params: PhantomData }
    }
}

impl<
    R,
    T,
    I,
    U,
    J,
    V,
    K,
    C,
    A,
    B,
    D,
    Out,
    F: FnMut(&mut C, &T, &U, &V, &A, &B, &D) -> Out,
> CtxMergeStepCall<R, C, (&A, &B, &D), Out> for CtxMergeStep<F, (Res<T, I>, Res<U, J>, Res<V, K>)> where
    R: Resource<T, I> + Resource<U, J> + Resource<V, K>,
{
    open spec fn call_pre(&self, ctx: C, world: World<R>, inputs: (&A, &B, &D)) -> bool {
        forall|r0: &mut C| *r0 == ctx
            ==> #[trigger] call_requires(
                self.f,
                (
                    r0,
                    &world.held::<T, I>(),
                    &world.held::<U, J>(),
                    &world.held::<V, K>(),
                    inputs.0,
                    inputs.1,
                    inputs.2,
                ),
            )
    }

    open spec fn call_post(
        &self,
        ctx: C,
        world: World<R>,
        inputs: (&A, &B, &D),
        after: Self,
        ctx_after: C,
        world_after: World<R>,
        out: Out,
    ) -> bool {
        &&& after == *self
        &&& world_after == world
        &&& effect_mpppppp(
            self.f,
            ctx,
            &world.held::<T, I>(),
            &world.held::<U, J>(),
            &world.held::<V, K>(),
            inputs.0,
            inputs.1,
            inputs.2,
            ctx_after,
            out,
        )
    }

    fn call(&mut self, ctx: &mut C, world: &mut World<R>, inputs: (&A, &B, &D)) -> (out: Out) {
        broadcast use vstd::function::group_function_axioms;

        let out = (self.f)(
            ctx,
            world.resource::<T, I>(),
            world.resource::<U, J>(),
            world.resource::<V, K>(),
            inputs.0,
            inputs.1,
            inputs.2,
        );
        record(
            effect_mpppppp_fact::<C, &T, &U, &V, &A, &B, &D, Out, F>,
            Ghost((
                old(self).f,
                *old(ctx),
                &old(world).held::<T, I>(),
                &old(world).held::<U, J>(),
                &old(world).held::<V, K>(),
                inputs.0,
                inputs.1,
                inputs.2,
                *ctx,
                out,
            )),
        );
        out
    }
}

impl<
    R,
    T,
    I,
    U,
    J,
    V,
    K,
    C,
    A,
    B,
    D,
    Out,
    F: FnMut(&mut C, &T, &U, &V, &A, &B, &D) -> Out,
> IntoCtxMergeStep<R, C, (&A, &B, &D), Out, (Res<T, I>, Res<U, J>, Res<V, K>)> for F where
    R: Resource<T, I> + Resource<U, J> + Resource<V, K>,
{
    type Step = CtxMergeStep<F, (Res<T, I>, Res<U, J>, Res<V, K>)>;

    open spec fn resolved(self) -> CtxMergeStep<F, (Res<T, I>, Res<U, J>, Res<V, K>)> {
        CtxMergeStep { f: self, params: PhantomData }
    }

    fn into_ctx_merge_step(
        self,
        registry: &Registry<R>,
    ) -> (step: CtxMergeStep<F, (Res<T, I>, Res<U, J>, Res<V, K>)>) {
        CtxMergeStep { f: self, params: PhantomData }
    }
}

impl<
    R,
    T,
    I,
    U,
    J,
    V,
    K,
    C,
    A,
    B,
    D,
    Out,
    F: FnMut(&mut C, &T, &U, &mut V, &A, &B, &D) -> Out,
> CtxMergeStepCall<R, C, (&A, &B, &D), Out> for CtxMergeStep<F, (Res<T, I>, Res<U, J>, ResMut<V, K>)> where
    R: Apart3<T, I, U, J, V, K>,
{
    open spec fn call_pre(&self, ctx: C, world: World<R>, inputs: (&A, &B, &D)) -> bool {
        forall|r0: &mut C, r3: &mut V| *r0 == ctx && *r3 == world.held::<V, K>()
            ==> #[trigger] call_requires(
                self.f,
                (
                    r0,
                    &world.held::<T, I>(),
                    &world.held::<U, J>(),
                    r3,
                    inputs.0,
                    inputs.1,
                    inputs.2,
                ),
            )
    }

    open spec fn call_post(
        &self,
        ctx: C,
        world: World<R>,
        inputs: (&A, &B, &D),
        after: Self,
        ctx_after: C,
        world_after: World<R>,
        out: Out,
    ) -> bool {
        &&& after == *self
        &&& exists|held: V|
            #[trigger] effect_mppmppp(
                self.f,
                ctx,
                &world.held::<T, I>(),
                &world.held::<U, J>(),
                world.held::<V, K>(),
                inputs.0,
                inputs.1,
                inputs.2,
                ctx_after,
                held,
                out,
            )
                && world_after == world.holding::<V, K>(held)
    }

    fn call(&mut self, ctx: &mut C, world: &mut World<R>, inputs: (&A, &B, &D)) -> (out: Out) {
        broadcast use vstd::function::group_function_axioms;

        let (first, second, third) = world.beside_two_mut::<T, I, U, J, V, K>();
        let out = (self.f)(ctx, first, second, &mut *third, inputs.0, inputs.1, inputs.2);
        record(
            effect_mppmppp_fact::<C, &T, &U, V, &A, &B, &D, Out, F>,
            Ghost((
                old(self).f,
                *old(ctx),
                &old(world).held::<T, I>(),
                &old(world).held::<U, J>(),
                old(world).held::<V, K>(),
                inputs.0,
                inputs.1,
                inputs.2,
                *ctx,
                *third,
                out,
            )),
        );
        assert(effect_mppmppp(
            old(self).f,
            *old(ctx),
            &old(world).held::<T, I>(),
            &old(world).held::<U, J>(),
            old(world).held::<V, K>(),
            inputs.0,
            inputs.1,
            inputs.2,
            *ctx,
            *third,
            out,
        ));
        out
    }
}

impl<
    R,
    T,
    I,
    U,
    J,
    V,
    K,
    C,
    A,
    B,
    D,
    Out,
    F: FnMut(&mut C, &T, &U, &mut V, &A, &B, &D) -> Out,
> IntoCtxMergeStep<R, C, (&A, &B, &D), Out, (Res<T, I>, Res<U, J>, ResMut<V, K>)> for F where
    R: Apart3<T, I, U, J, V, K>,
{
    type Step = CtxMergeStep<F, (Res<T, I>, Res<U, J>, ResMut<V, K>)>;

    open spec fn resolved(self) -> CtxMergeStep<F, (Res<T, I>, Res<U, J>, ResMut<V, K>)> {
        CtxMergeStep { f: self, params: PhantomData }
    }

    fn into_ctx_merge_step(
        self,
        registry: &Registry<R>,
    ) -> (step: CtxMergeStep<F, (Res<T, I>, Res<U, J>, ResMut<V, K>)>) {
        CtxMergeStep { f: self, params: PhantomData }
    }
}

impl<
    R,
    T,
    I,
    U,
    J,
    V,
    K,
    C,
    A,
    B,
    D,
    Out,
    F: FnMut(&mut C, &T, &mut U, &V, &A, &B, &D) -> Out,
> CtxMergeStepCall<R, C, (&A, &B, &D), Out> for CtxMergeStep<F, (Res<T, I>, ResMut<U, J>, Res<V, K>)> where
    R: Apart3<T, I, V, K, U, J>,
{
    open spec fn call_pre(&self, ctx: C, world: World<R>, inputs: (&A, &B, &D)) -> bool {
        forall|r0: &mut C, r2: &mut U| *r0 == ctx && *r2 == world.held::<U, J>()
            ==> #[trigger] call_requires(
                self.f,
                (
                    r0,
                    &world.held::<T, I>(),
                    r2,
                    &world.held::<V, K>(),
                    inputs.0,
                    inputs.1,
                    inputs.2,
                ),
            )
    }

    open spec fn call_post(
        &self,
        ctx: C,
        world: World<R>,
        inputs: (&A, &B, &D),
        after: Self,
        ctx_after: C,
        world_after: World<R>,
        out: Out,
    ) -> bool {
        &&& after == *self
        &&& exists|held: U|
            #[trigger] effect_mpmpppp(
                self.f,
                ctx,
                &world.held::<T, I>(),
                world.held::<U, J>(),
                &world.held::<V, K>(),
                inputs.0,
                inputs.1,
                inputs.2,
                ctx_after,
                held,
                out,
            )
                && world_after == world.holding::<U, J>(held)
    }

    fn call(&mut self, ctx: &mut C, world: &mut World<R>, inputs: (&A, &B, &D)) -> (out: Out) {
        broadcast use vstd::function::group_function_axioms;

        let (first, third, second) = world.beside_two_mut::<T, I, V, K, U, J>();
        let out = (self.f)(ctx, first, &mut *second, third, inputs.0, inputs.1, inputs.2);
        record(
            effect_mpmpppp_fact::<C, &T, U, &V, &A, &B, &D, Out, F>,
            Ghost((
                old(self).f,
                *old(ctx),
                &old(world).held::<T, I>(),
                old(world).held::<U, J>(),
                &old(world).held::<V, K>(),
                inputs.0,
                inputs.1,
                inputs.2,
                *ctx,
                *second,
                out,
            )),
        );
        assert(effect_mpmpppp(
            old(self).f,
            *old(ctx),
            &old(world).held::<T, I>(),
            old(world).held::<U, J>(),
            &old(world).held::<V, K>(),
            inputs.0,
            inputs.1,
            inputs.2,
            *ctx,
            *second,
            out,
        ));
        out
    }
}

impl<
    R,
    T,
    I,
    U,
    J,
    V,
    K,
    C,
    A,
    B,
    D,
    Out,
    F: FnMut(&mut C, &T, &mut U, &V, &A, &B, &D) -> Out,
> IntoCtxMergeStep<R, C, (&A, &B, &D), Out, (Res<T, I>, ResMut<U, J>, Res<V, K>)> for F where
    R: Apart3<T, I, V, K, U, J>,
{
    type Step = CtxMergeStep<F, (Res<T, I>, ResMut<U, J>, Res<V, K>)>;

    open spec fn resolved(self) -> CtxMergeStep<F, (Res<T, I>, ResMut<U, J>, Res<V, K>)> {
        CtxMergeStep { f: self, params: PhantomData }
    }

    fn into_ctx_merge_step(
        self,
        registry: &Registry<R>,
    ) -> (step: CtxMergeStep<F, (Res<T, I>, ResMut<U, J>, Res<V, K>)>) {
        CtxMergeStep { f: self, params: PhantomData }
    }
}

impl<
    R,
    T,
    I,
    U,
    J,
    V,
    K,
    C,
    A,
    B,
    D,
    Out,
    F: FnMut(&mut C, &T, &mut U, &mut V, &A, &B, &D) -> Out,
> CtxMergeStepCall<R, C, (&A, &B, &D), Out> for CtxMergeStep<
    F,
    (Res<T, I>, ResMut<U, J>, ResMut<V, K>),
> where
    R: Apart3<T, I, U, J, V, K>,
{
    open spec fn call_pre(&self, ctx: C, world: World<R>, inputs: (&A, &B, &D)) -> bool {
        forall|r0: &mut C, r2: &mut U, r3: &mut V| *r0 == ctx
            && *r2 == world.held::<U, J>()
            && *r3 == world.held::<V, K>()
            ==> #[trigger] call_requires(
                self.f,
                (r0, &world.held::<T, I>(), r2, r3, inputs.0, inputs.1, inputs.2),
            )
    }

    open spec fn call_post(
        &self,
        ctx: C,
        world: World<R>,
        inputs: (&A, &B, &D),
        after: Self,
        ctx_after: C,
        world_after: World<R>,
        out: Out,
    ) -> bool {
        &&& after == *self
        &&& exists|held: U, other: V|
            #[trigger] effect_mpmmppp(
                self.f,
                ctx,
                &world.held::<T, I>(),
                world.held::<U, J>(),
                world.held::<V, K>(),
                inputs.0,
                inputs.1,
                inputs.2,
                ctx_after,
                held,
                other,
                out,
            )
                && world_after == world.holding::<U, J>(held).holding::<V, K>(other)
    }

    fn call(&mut self, ctx: &mut C, world: &mut World<R>, inputs: (&A, &B, &D)) -> (out: Out) {
        broadcast use vstd::function::group_function_axioms;

        let (first, second, third) = world.beside_both_mut::<T, I, U, J, V, K>();
        let out = (self.f)(ctx, first, &mut *second, &mut *third, inputs.0, inputs.1, inputs.2);
        record(
            effect_mpmmppp_fact::<C, &T, U, V, &A, &B, &D, Out, F>,
            Ghost((
                old(self).f,
                *old(ctx),
                &old(world).held::<T, I>(),
                old(world).held::<U, J>(),
                old(world).held::<V, K>(),
                inputs.0,
                inputs.1,
                inputs.2,
                *ctx,
                *second,
                *third,
                out,
            )),
        );
        assert(effect_mpmmppp(
            old(self).f,
            *old(ctx),
            &old(world).held::<T, I>(),
            old(world).held::<U, J>(),
            old(world).held::<V, K>(),
            inputs.0,
            inputs.1,
            inputs.2,
            *ctx,
            *second,
            *third,
            out,
        ));
        out
    }
}

impl<
    R,
    T,
    I,
    U,
    J,
    V,
    K,
    C,
    A,
    B,
    D,
    Out,
    F: FnMut(&mut C, &T, &mut U, &mut V, &A, &B, &D) -> Out,
> IntoCtxMergeStep<R, C, (&A, &B, &D), Out, (Res<T, I>, ResMut<U, J>, ResMut<V, K>)> for F where
    R: Apart3<T, I, U, J, V, K>,
{
    type Step = CtxMergeStep<F, (Res<T, I>, ResMut<U, J>, ResMut<V, K>)>;

    open spec fn resolved(self) -> CtxMergeStep<F, (Res<T, I>, ResMut<U, J>, ResMut<V, K>)> {
        CtxMergeStep { f: self, params: PhantomData }
    }

    fn into_ctx_merge_step(
        self,
        registry: &Registry<R>,
    ) -> (step: CtxMergeStep<F, (Res<T, I>, ResMut<U, J>, ResMut<V, K>)>) {
        CtxMergeStep { f: self, params: PhantomData }
    }
}

impl<
    R,
    T,
    I,
    U,
    J,
    V,
    K,
    C,
    A,
    B,
    D,
    Out,
    F: FnMut(&mut C, &mut T, &U, &V, &A, &B, &D) -> Out,
> CtxMergeStepCall<R, C, (&A, &B, &D), Out> for CtxMergeStep<F, (ResMut<T, I>, Res<U, J>, Res<V, K>)> where
    R: Apart3<U, J, V, K, T, I>,
{
    open spec fn call_pre(&self, ctx: C, world: World<R>, inputs: (&A, &B, &D)) -> bool {
        forall|r0: &mut C, r1: &mut T| *r0 == ctx && *r1 == world.held::<T, I>()
            ==> #[trigger] call_requires(
                self.f,
                (
                    r0,
                    r1,
                    &world.held::<U, J>(),
                    &world.held::<V, K>(),
                    inputs.0,
                    inputs.1,
                    inputs.2,
                ),
            )
    }

    open spec fn call_post(
        &self,
        ctx: C,
        world: World<R>,
        inputs: (&A, &B, &D),
        after: Self,
        ctx_after: C,
        world_after: World<R>,
        out: Out,
    ) -> bool {
        &&& after == *self
        &&& exists|held: T|
            #[trigger] effect_mmppppp(
                self.f,
                ctx,
                world.held::<T, I>(),
                &world.held::<U, J>(),
                &world.held::<V, K>(),
                inputs.0,
                inputs.1,
                inputs.2,
                ctx_after,
                held,
                out,
            )
                && world_after == world.holding::<T, I>(held)
    }

    fn call(&mut self, ctx: &mut C, world: &mut World<R>, inputs: (&A, &B, &D)) -> (out: Out) {
        broadcast use vstd::function::group_function_axioms;

        let (second, third, first) = world.beside_two_mut::<U, J, V, K, T, I>();
        let out = (self.f)(ctx, &mut *first, second, third, inputs.0, inputs.1, inputs.2);
        record(
            effect_mmppppp_fact::<C, T, &U, &V, &A, &B, &D, Out, F>,
            Ghost((
                old(self).f,
                *old(ctx),
                old(world).held::<T, I>(),
                &old(world).held::<U, J>(),
                &old(world).held::<V, K>(),
                inputs.0,
                inputs.1,
                inputs.2,
                *ctx,
                *first,
                out,
            )),
        );
        assert(effect_mmppppp(
            old(self).f,
            *old(ctx),
            old(world).held::<T, I>(),
            &old(world).held::<U, J>(),
            &old(world).held::<V, K>(),
            inputs.0,
            inputs.1,
            inputs.2,
            *ctx,
            *first,
            out,
        ));
        out
    }
}

impl<
    R,
    T,
    I,
    U,
    J,
    V,
    K,
    C,
    A,
    B,
    D,
    Out,
    F: FnMut(&mut C, &mut T, &U, &V, &A, &B, &D) -> Out,
> IntoCtxMergeStep<R, C, (&A, &B, &D), Out, (ResMut<T, I>, Res<U, J>, Res<V, K>)> for F where
    R: Apart3<U, J, V, K, T, I>,
{
    type Step = CtxMergeStep<F, (ResMut<T, I>, Res<U, J>, Res<V, K>)>;

    open spec fn resolved(self) -> CtxMergeStep<F, (ResMut<T, I>, Res<U, J>, Res<V, K>)> {
        CtxMergeStep { f: self, params: PhantomData }
    }

    fn into_ctx_merge_step(
        self,
        registry: &Registry<R>,
    ) -> (step: CtxMergeStep<F, (ResMut<T, I>, Res<U, J>, Res<V, K>)>) {
        CtxMergeStep { f: self, params: PhantomData }
    }
}

impl<
    R,
    T,
    I,
    U,
    J,
    V,
    K,
    C,
    A,
    B,
    D,
    Out,
    F: FnMut(&mut C, &mut T, &U, &mut V, &A, &B, &D) -> Out,
> CtxMergeStepCall<R, C, (&A, &B, &D), Out> for CtxMergeStep<
    F,
    (ResMut<T, I>, Res<U, J>, ResMut<V, K>),
> where
    R: Apart3<U, J, T, I, V, K>,
{
    open spec fn call_pre(&self, ctx: C, world: World<R>, inputs: (&A, &B, &D)) -> bool {
        forall|r0: &mut C, r1: &mut T, r3: &mut V| *r0 == ctx
            && *r1 == world.held::<T, I>()
            && *r3 == world.held::<V, K>()
            ==> #[trigger] call_requires(
                self.f,
                (r0, r1, &world.held::<U, J>(), r3, inputs.0, inputs.1, inputs.2),
            )
    }

    open spec fn call_post(
        &self,
        ctx: C,
        world: World<R>,
        inputs: (&A, &B, &D),
        after: Self,
        ctx_after: C,
        world_after: World<R>,
        out: Out,
    ) -> bool {
        &&& after == *self
        &&& exists|held: T, other: V|
            #[trigger] effect_mmpmppp(
                self.f,
                ctx,
                world.held::<T, I>(),
                &world.held::<U, J>(),
                world.held::<V, K>(),
                inputs.0,
                inputs.1,
                inputs.2,
                ctx_after,
                held,
                other,
                out,
            )
                && world_after == world.holding::<T, I>(held).holding::<V, K>(other)
    }

    fn call(&mut self, ctx: &mut C, world: &mut World<R>, inputs: (&A, &B, &D)) -> (out: Out) {
        broadcast use vstd::function::group_function_axioms;

        let (second, first, third) = world.beside_both_mut::<U, J, T, I, V, K>();
        let out = (self.f)(ctx, &mut *first, second, &mut *third, inputs.0, inputs.1, inputs.2);
        record(
            effect_mmpmppp_fact::<C, T, &U, V, &A, &B, &D, Out, F>,
            Ghost((
                old(self).f,
                *old(ctx),
                old(world).held::<T, I>(),
                &old(world).held::<U, J>(),
                old(world).held::<V, K>(),
                inputs.0,
                inputs.1,
                inputs.2,
                *ctx,
                *first,
                *third,
                out,
            )),
        );
        assert(effect_mmpmppp(
            old(self).f,
            *old(ctx),
            old(world).held::<T, I>(),
            &old(world).held::<U, J>(),
            old(world).held::<V, K>(),
            inputs.0,
            inputs.1,
            inputs.2,
            *ctx,
            *first,
            *third,
            out,
        ));
        out
    }
}

impl<
    R,
    T,
    I,
    U,
    J,
    V,
    K,
    C,
    A,
    B,
    D,
    Out,
    F: FnMut(&mut C, &mut T, &U, &mut V, &A, &B, &D) -> Out,
> IntoCtxMergeStep<R, C, (&A, &B, &D), Out, (ResMut<T, I>, Res<U, J>, ResMut<V, K>)> for F where
    R: Apart3<U, J, T, I, V, K>,
{
    type Step = CtxMergeStep<F, (ResMut<T, I>, Res<U, J>, ResMut<V, K>)>;

    open spec fn resolved(self) -> CtxMergeStep<F, (ResMut<T, I>, Res<U, J>, ResMut<V, K>)> {
        CtxMergeStep { f: self, params: PhantomData }
    }

    fn into_ctx_merge_step(
        self,
        registry: &Registry<R>,
    ) -> (step: CtxMergeStep<F, (ResMut<T, I>, Res<U, J>, ResMut<V, K>)>) {
        CtxMergeStep { f: self, params: PhantomData }
    }
}

impl<
    R,
    T,
    I,
    U,
    J,
    V,
    K,
    C,
    A,
    B,
    D,
    Out,
    F: FnMut(&mut C, &mut T, &mut U, &V, &A, &B, &D) -> Out,
> CtxMergeStepCall<R, C, (&A, &B, &D), Out> for CtxMergeStep<
    F,
    (ResMut<T, I>, ResMut<U, J>, Res<V, K>),
> where
    R: Apart3<V, K, T, I, U, J>,
{
    open spec fn call_pre(&self, ctx: C, world: World<R>, inputs: (&A, &B, &D)) -> bool {
        forall|r0: &mut C, r1: &mut T, r2: &mut U| *r0 == ctx
            && *r1 == world.held::<T, I>()
            && *r2 == world.held::<U, J>()
            ==> #[trigger] call_requires(
                self.f,
                (r0, r1, r2, &world.held::<V, K>(), inputs.0, inputs.1, inputs.2),
            )
    }

    open spec fn call_post(
        &self,
        ctx: C,
        world: World<R>,
        inputs: (&A, &B, &D),
        after: Self,
        ctx_after: C,
        world_after: World<R>,
        out: Out,
    ) -> bool {
        &&& after == *self
        &&& exists|held: T, other: U|
            #[trigger] effect_mmmpppp(
                self.f,
                ctx,
                world.held::<T, I>(),
                world.held::<U, J>(),
                &world.held::<V, K>(),
                inputs.0,
                inputs.1,
                inputs.2,
                ctx_after,
                held,
                other,
                out,
            )
                && world_after == world.holding::<T, I>(held).holding::<U, J>(other)
    }

    fn call(&mut self, ctx: &mut C, world: &mut World<R>, inputs: (&A, &B, &D)) -> (out: Out) {
        broadcast use vstd::function::group_function_axioms;

        let (third, first, second) = world.beside_both_mut::<V, K, T, I, U, J>();
        let out = (self.f)(ctx, &mut *first, &mut *second, third, inputs.0, inputs.1, inputs.2);
        record(
            effect_mmmpppp_fact::<C, T, U, &V, &A, &B, &D, Out, F>,
            Ghost((
                old(self).f,
                *old(ctx),
                old(world).held::<T, I>(),
                old(world).held::<U, J>(),
                &old(world).held::<V, K>(),
                inputs.0,
                inputs.1,
                inputs.2,
                *ctx,
                *first,
                *second,
                out,
            )),
        );
        assert(effect_mmmpppp(
            old(self).f,
            *old(ctx),
            old(world).held::<T, I>(),
            old(world).held::<U, J>(),
            &old(world).held::<V, K>(),
            inputs.0,
            inputs.1,
            inputs.2,
            *ctx,
            *first,
            *second,
            out,
        ));
        out
    }
}

impl<
    R,
    T,
    I,
    U,
    J,
    V,
    K,
    C,
    A,
    B,
    D,
    Out,
    F: FnMut(&mut C, &mut T, &mut U, &V, &A, &B, &D) -> Out,
> IntoCtxMergeStep<R, C, (&A, &B, &D), Out, (ResMut<T, I>, ResMut<U, J>, Res<V, K>)> for F where
    R: Apart3<V, K, T, I, U, J>,
{
    type Step = CtxMergeStep<F, (ResMut<T, I>, ResMut<U, J>, Res<V, K>)>;

    open spec fn resolved(self) -> CtxMergeStep<F, (ResMut<T, I>, ResMut<U, J>, Res<V, K>)> {
        CtxMergeStep { f: self, params: PhantomData }
    }

    fn into_ctx_merge_step(
        self,
        registry: &Registry<R>,
    ) -> (step: CtxMergeStep<F, (ResMut<T, I>, ResMut<U, J>, Res<V, K>)>) {
        CtxMergeStep { f: self, params: PhantomData }
    }
}

impl<
    R,
    T,
    I,
    U,
    J,
    V,
    K,
    C,
    A,
    B,
    D,
    Out,
    F: FnMut(&mut C, &mut T, &mut U, &mut V, &A, &B, &D) -> Out,
> CtxMergeStepCall<R, C, (&A, &B, &D), Out> for CtxMergeStep<
    F,
    (ResMut<T, I>, ResMut<U, J>, ResMut<V, K>),
> where
    R: Apart3<T, I, U, J, V, K>,
{
    open spec fn call_pre(&self, ctx: C, world: World<R>, inputs: (&A, &B, &D)) -> bool {
        forall|r0: &mut C, r1: &mut T, r2: &mut U, r3: &mut V| *r0 == ctx
            && *r1 == world.held::<T, I>()
            && *r2 == world.held::<U, J>()
            && *r3 == world.held::<V, K>()
            ==> #[trigger] call_requires(self.f, (r0, r1, r2, r3, inputs.0, inputs.1, inputs.2))
    }

    open spec fn call_post(
        &self,
        ctx: C,
        world: World<R>,
        inputs: (&A, &B, &D),
        after: Self,
        ctx_after: C,
        world_after: World<R>,
        out: Out,
    ) -> bool {
        &&& after == *self
        &&& exists|held: T, other: U, last: V|
            #[trigger] effect_mmmmppp(
                self.f,
                ctx,
                world.held::<T, I>(),
                world.held::<U, J>(),
                world.held::<V, K>(),
                inputs.0,
                inputs.1,
                inputs.2,
                ctx_after,
                held,
                other,
                last,
                out,
            )
                && world_after == world.holding::<T, I>(held).holding::<U, J>(other).holding::<V, K>(last)
    }

    fn call(&mut self, ctx: &mut C, world: &mut World<R>, inputs: (&A, &B, &D)) -> (out: Out) {
        broadcast use vstd::function::group_function_axioms;

        let (first, second, third) = world.three_mut::<T, I, U, J, V, K>();
        let out = (self.f)(
            ctx,
            &mut *first,
            &mut *second,
            &mut *third,
            inputs.0,
            inputs.1,
            inputs.2,
        );
        record(
            effect_mmmmppp_fact::<C, T, U, V, &A, &B, &D, Out, F>,
            Ghost((
                old(self).f,
                *old(ctx),
                old(world).held::<T, I>(),
                old(world).held::<U, J>(),
                old(world).held::<V, K>(),
                inputs.0,
                inputs.1,
                inputs.2,
                *ctx,
                *first,
                *second,
                *third,
                out,
            )),
        );
        assert(effect_mmmmppp(
            old(self).f,
            *old(ctx),
            old(world).held::<T, I>(),
            old(world).held::<U, J>(),
            old(world).held::<V, K>(),
            inputs.0,
            inputs.1,
            inputs.2,
            *ctx,
            *first,
            *second,
            *third,
            out,
        ));
        out
    }
}

impl<
    R,
    T,
    I,
    U,
    J,
    V,
    K,
    C,
    A,
    B,
    D,
    Out,
    F: FnMut(&mut C, &mut T, &mut U, &mut V, &A, &B, &D) -> Out,
> IntoCtxMergeStep<R, C, (&A, &B, &D), Out, (ResMut<T, I>, ResMut<U, J>, ResMut<V, K>)> for F where
    R: Apart3<T, I, U, J, V, K>,
{
    type Step = CtxMergeStep<F, (ResMut<T, I>, ResMut<U, J>, ResMut<V, K>)>;

    open spec fn resolved(self) -> CtxMergeStep<F, (ResMut<T, I>, ResMut<U, J>, ResMut<V, K>)> {
        CtxMergeStep { f: self, params: PhantomData }
    }

    fn into_ctx_merge_step(
        self,
        registry: &Registry<R>,
    ) -> (step: CtxMergeStep<F, (ResMut<T, I>, ResMut<U, J>, ResMut<V, K>)>) {
        CtxMergeStep { f: self, params: PhantomData }
    }
}

impl<
    R,
    T,
    I,
    U,
    J,
    V,
    K,
    C,
    A,
    B,
    D,
    E,
    Out,
    F: FnMut(&mut C, &T, &U, &V, &A, &B, &D, &E) -> Out,
> CtxMergeStepCall<R, C, (&A, &B, &D, &E), Out> for CtxMergeStep<F, (Res<T, I>, Res<U, J>, Res<V, K>)> where
    R: Resource<T, I> + Resource<U, J> + Resource<V, K>,
{
    open spec fn call_pre(&self, ctx: C, world: World<R>, inputs: (&A, &B, &D, &E)) -> bool {
        forall|r0: &mut C| *r0 == ctx
            ==> #[trigger] call_requires(
                self.f,
                (
                    r0,
                    &world.held::<T, I>(),
                    &world.held::<U, J>(),
                    &world.held::<V, K>(),
                    inputs.0,
                    inputs.1,
                    inputs.2,
                    inputs.3,
                ),
            )
    }

    open spec fn call_post(
        &self,
        ctx: C,
        world: World<R>,
        inputs: (&A, &B, &D, &E),
        after: Self,
        ctx_after: C,
        world_after: World<R>,
        out: Out,
    ) -> bool {
        &&& after == *self
        &&& world_after == world
        &&& effect_mppppppp(
            self.f,
            ctx,
            &world.held::<T, I>(),
            &world.held::<U, J>(),
            &world.held::<V, K>(),
            inputs.0,
            inputs.1,
            inputs.2,
            inputs.3,
            ctx_after,
            out,
        )
    }

    fn call(&mut self, ctx: &mut C, world: &mut World<R>, inputs: (&A, &B, &D, &E)) -> (out: Out) {
        broadcast use vstd::function::group_function_axioms;

        let out = (self.f)(
            ctx,
            world.resource::<T, I>(),
            world.resource::<U, J>(),
            world.resource::<V, K>(),
            inputs.0,
            inputs.1,
            inputs.2,
            inputs.3,
        );
        record(
            effect_mppppppp_fact::<C, &T, &U, &V, &A, &B, &D, &E, Out, F>,
            Ghost((
                old(self).f,
                *old(ctx),
                &old(world).held::<T, I>(),
                &old(world).held::<U, J>(),
                &old(world).held::<V, K>(),
                inputs.0,
                inputs.1,
                inputs.2,
                inputs.3,
                *ctx,
                out,
            )),
        );
        out
    }
}

impl<
    R,
    T,
    I,
    U,
    J,
    V,
    K,
    C,
    A,
    B,
    D,
    E,
    Out,
    F: FnMut(&mut C, &T, &U, &V, &A, &B, &D, &E) -> Out,
> IntoCtxMergeStep<R, C, (&A, &B, &D, &E), Out, (Res<T, I>, Res<U, J>, Res<V, K>)> for F where
    R: Resource<T, I> + Resource<U, J> + Resource<V, K>,
{
    type Step = CtxMergeStep<F, (Res<T, I>, Res<U, J>, Res<V, K>)>;

    open spec fn resolved(self) -> CtxMergeStep<F, (Res<T, I>, Res<U, J>, Res<V, K>)> {
        CtxMergeStep { f: self, params: PhantomData }
    }

    fn into_ctx_merge_step(
        self,
        registry: &Registry<R>,
    ) -> (step: CtxMergeStep<F, (Res<T, I>, Res<U, J>, Res<V, K>)>) {
        CtxMergeStep { f: self, params: PhantomData }
    }
}

impl<
    R,
    T,
    I,
    U,
    J,
    V,
    K,
    C,
    A,
    B,
    D,
    E,
    Out,
    F: FnMut(&mut C, &T, &U, &mut V, &A, &B, &D, &E) -> Out,
> CtxMergeStepCall<R, C, (&A, &B, &D, &E), Out> for CtxMergeStep<F, (Res<T, I>, Res<U, J>, ResMut<V, K>)> where
    R: Apart3<T, I, U, J, V, K>,
{
    open spec fn call_pre(&self, ctx: C, world: World<R>, inputs: (&A, &B, &D, &E)) -> bool {
        forall|r0: &mut C, r3: &mut V| *r0 == ctx && *r3 == world.held::<V, K>()
            ==> #[trigger] call_requires(
                self.f,
                (
                    r0,
                    &world.held::<T, I>(),
                    &world.held::<U, J>(),
                    r3,
                    inputs.0,
                    inputs.1,
                    inputs.2,
                    inputs.3,
                ),
            )
    }

    open spec fn call_post(
        &self,
        ctx: C,
        world: World<R>,
        inputs: (&A, &B, &D, &E),
        after: Self,
        ctx_after: C,
        world_after: World<R>,
        out: Out,
    ) -> bool {
        &&& after == *self
        &&& exists|held: V|
            #[trigger] effect_mppmpppp(
                self.f,
                ctx,
                &world.held::<T, I>(),
                &world.held::<U, J>(),
                world.held::<V, K>(),
                inputs.0,
                inputs.1,
                inputs.2,
                inputs.3,
                ctx_after,
                held,
                out,
            )
                && world_after == world.holding::<V, K>(held)
    }

    fn call(&mut self, ctx: &mut C, world: &mut World<R>, inputs: (&A, &B, &D, &E)) -> (out: Out) {
        broadcast use vstd::function::group_function_axioms;

        let (first, second, third) = world.beside_two_mut::<T, I, U, J, V, K>();
        let out = (self.f)(ctx, first, second, &mut *third, inputs.0, inputs.1, inputs.2, inputs.3);
        record(
            effect_mppmpppp_fact::<C, &T, &U, V, &A, &B, &D, &E, Out, F>,
            Ghost((
                old(self).f,
                *old(ctx),
                &old(world).held::<T, I>(),
                &old(world).held::<U, J>(),
                old(world).held::<V, K>(),
                inputs.0,
                inputs.1,
                inputs.2,
                inputs.3,
                *ctx,
                *third,
                out,
            )),
        );
        assert(effect_mppmpppp(
            old(self).f,
            *old(ctx),
            &old(world).held::<T, I>(),
            &old(world).held::<U, J>(),
            old(world).held::<V, K>(),
            inputs.0,
            inputs.1,
            inputs.2,
            inputs.3,
            *ctx,
            *third,
            out,
        ));
        out
    }
}

impl<
    R,
    T,
    I,
    U,
    J,
    V,
    K,
    C,
    A,
    B,
    D,
    E,
    Out,
    F: FnMut(&mut C, &T, &U, &mut V, &A, &B, &D, &E) -> Out,
> IntoCtxMergeStep<R, C, (&A, &B, &D, &E), Out, (Res<T, I>, Res<U, J>, ResMut<V, K>)> for F where
    R: Apart3<T, I, U, J, V, K>,
{
    type Step = CtxMergeStep<F, (Res<T, I>, Res<U, J>, ResMut<V, K>)>;

    open spec fn resolved(self) -> CtxMergeStep<F, (Res<T, I>, Res<U, J>, ResMut<V, K>)> {
        CtxMergeStep { f: self, params: PhantomData }
    }

    fn into_ctx_merge_step(
        self,
        registry: &Registry<R>,
    ) -> (step: CtxMergeStep<F, (Res<T, I>, Res<U, J>, ResMut<V, K>)>) {
        CtxMergeStep { f: self, params: PhantomData }
    }
}

impl<
    R,
    T,
    I,
    U,
    J,
    V,
    K,
    C,
    A,
    B,
    D,
    E,
    Out,
    F: FnMut(&mut C, &T, &mut U, &V, &A, &B, &D, &E) -> Out,
> CtxMergeStepCall<R, C, (&A, &B, &D, &E), Out> for CtxMergeStep<F, (Res<T, I>, ResMut<U, J>, Res<V, K>)> where
    R: Apart3<T, I, V, K, U, J>,
{
    open spec fn call_pre(&self, ctx: C, world: World<R>, inputs: (&A, &B, &D, &E)) -> bool {
        forall|r0: &mut C, r2: &mut U| *r0 == ctx && *r2 == world.held::<U, J>()
            ==> #[trigger] call_requires(
                self.f,
                (
                    r0,
                    &world.held::<T, I>(),
                    r2,
                    &world.held::<V, K>(),
                    inputs.0,
                    inputs.1,
                    inputs.2,
                    inputs.3,
                ),
            )
    }

    open spec fn call_post(
        &self,
        ctx: C,
        world: World<R>,
        inputs: (&A, &B, &D, &E),
        after: Self,
        ctx_after: C,
        world_after: World<R>,
        out: Out,
    ) -> bool {
        &&& after == *self
        &&& exists|held: U|
            #[trigger] effect_mpmppppp(
                self.f,
                ctx,
                &world.held::<T, I>(),
                world.held::<U, J>(),
                &world.held::<V, K>(),
                inputs.0,
                inputs.1,
                inputs.2,
                inputs.3,
                ctx_after,
                held,
                out,
            )
                && world_after == world.holding::<U, J>(held)
    }

    fn call(&mut self, ctx: &mut C, world: &mut World<R>, inputs: (&A, &B, &D, &E)) -> (out: Out) {
        broadcast use vstd::function::group_function_axioms;

        let (first, third, second) = world.beside_two_mut::<T, I, V, K, U, J>();
        let out = (self.f)(ctx, first, &mut *second, third, inputs.0, inputs.1, inputs.2, inputs.3);
        record(
            effect_mpmppppp_fact::<C, &T, U, &V, &A, &B, &D, &E, Out, F>,
            Ghost((
                old(self).f,
                *old(ctx),
                &old(world).held::<T, I>(),
                old(world).held::<U, J>(),
                &old(world).held::<V, K>(),
                inputs.0,
                inputs.1,
                inputs.2,
                inputs.3,
                *ctx,
                *second,
                out,
            )),
        );
        assert(effect_mpmppppp(
            old(self).f,
            *old(ctx),
            &old(world).held::<T, I>(),
            old(world).held::<U, J>(),
            &old(world).held::<V, K>(),
            inputs.0,
            inputs.1,
            inputs.2,
            inputs.3,
            *ctx,
            *second,
            out,
        ));
        out
    }
}

impl<
    R,
    T,
    I,
    U,
    J,
    V,
    K,
    C,
    A,
    B,
    D,
    E,
    Out,
    F: FnMut(&mut C, &T, &mut U, &V, &A, &B, &D, &E) -> Out,
> IntoCtxMergeStep<R, C, (&A, &B, &D, &E), Out, (Res<T, I>, ResMut<U, J>, Res<V, K>)> for F where
    R: Apart3<T, I, V, K, U, J>,
{
    type Step = CtxMergeStep<F, (Res<T, I>, ResMut<U, J>, Res<V, K>)>;

    open spec fn resolved(self) -> CtxMergeStep<F, (Res<T, I>, ResMut<U, J>, Res<V, K>)> {
        CtxMergeStep { f: self, params: PhantomData }
    }

    fn into_ctx_merge_step(
        self,
        registry: &Registry<R>,
    ) -> (step: CtxMergeStep<F, (Res<T, I>, ResMut<U, J>, Res<V, K>)>) {
        CtxMergeStep { f: self, params: PhantomData }
    }
}

impl<
    R,
    T,
    I,
    U,
    J,
    V,
    K,
    C,
    A,
    B,
    D,
    E,
    Out,
    F: FnMut(&mut C, &T, &mut U, &mut V, &A, &B, &D, &E) -> Out,
> CtxMergeStepCall<R, C, (&A, &B, &D, &E), Out> for CtxMergeStep<
    F,
    (Res<T, I>, ResMut<U, J>, ResMut<V, K>),
> where
    R: Apart3<T, I, U, J, V, K>,
{
    open spec fn call_pre(&self, ctx: C, world: World<R>, inputs: (&A, &B, &D, &E)) -> bool {
        forall|r0: &mut C, r2: &mut U, r3: &mut V| *r0 == ctx
            && *r2 == world.held::<U, J>()
            && *r3 == world.held::<V, K>()
            ==> #[trigger] call_requires(
                self.f,
                (r0, &world.held::<T, I>(), r2, r3, inputs.0, inputs.1, inputs.2, inputs.3),
            )
    }

    open spec fn call_post(
        &self,
        ctx: C,
        world: World<R>,
        inputs: (&A, &B, &D, &E),
        after: Self,
        ctx_after: C,
        world_after: World<R>,
        out: Out,
    ) -> bool {
        &&& after == *self
        &&& exists|held: U, other: V|
            #[trigger] effect_mpmmpppp(
                self.f,
                ctx,
                &world.held::<T, I>(),
                world.held::<U, J>(),
                world.held::<V, K>(),
                inputs.0,
                inputs.1,
                inputs.2,
                inputs.3,
                ctx_after,
                held,
                other,
                out,
            )
                && world_after == world.holding::<U, J>(held).holding::<V, K>(other)
    }

    fn call(&mut self, ctx: &mut C, world: &mut World<R>, inputs: (&A, &B, &D, &E)) -> (out: Out) {
        broadcast use vstd::function::group_function_axioms;

        let (first, second, third) = world.beside_both_mut::<T, I, U, J, V, K>();
        let out = (self.f)(
            ctx,
            first,
            &mut *second,
            &mut *third,
            inputs.0,
            inputs.1,
            inputs.2,
            inputs.3,
        );
        record(
            effect_mpmmpppp_fact::<C, &T, U, V, &A, &B, &D, &E, Out, F>,
            Ghost((
                old(self).f,
                *old(ctx),
                &old(world).held::<T, I>(),
                old(world).held::<U, J>(),
                old(world).held::<V, K>(),
                inputs.0,
                inputs.1,
                inputs.2,
                inputs.3,
                *ctx,
                *second,
                *third,
                out,
            )),
        );
        assert(effect_mpmmpppp(
            old(self).f,
            *old(ctx),
            &old(world).held::<T, I>(),
            old(world).held::<U, J>(),
            old(world).held::<V, K>(),
            inputs.0,
            inputs.1,
            inputs.2,
            inputs.3,
            *ctx,
            *second,
            *third,
            out,
        ));
        out
    }
}

impl<
    R,
    T,
    I,
    U,
    J,
    V,
    K,
    C,
    A,
    B,
    D,
    E,
    Out,
    F: FnMut(&mut C, &T, &mut U, &mut V, &A, &B, &D, &E) -> Out,
> IntoCtxMergeStep<R, C, (&A, &B, &D, &E), Out, (Res<T, I>, ResMut<U, J>, ResMut<V, K>)> for F where
    R: Apart3<T, I, U, J, V, K>,
{
    type Step = CtxMergeStep<F, (Res<T, I>, ResMut<U, J>, ResMut<V, K>)>;

    open spec fn resolved(self) -> CtxMergeStep<F, (Res<T, I>, ResMut<U, J>, ResMut<V, K>)> {
        CtxMergeStep { f: self, params: PhantomData }
    }

    fn into_ctx_merge_step(
        self,
        registry: &Registry<R>,
    ) -> (step: CtxMergeStep<F, (Res<T, I>, ResMut<U, J>, ResMut<V, K>)>) {
        CtxMergeStep { f: self, params: PhantomData }
    }
}

impl<
    R,
    T,
    I,
    U,
    J,
    V,
    K,
    C,
    A,
    B,
    D,
    E,
    Out,
    F: FnMut(&mut C, &mut T, &U, &V, &A, &B, &D, &E) -> Out,
> CtxMergeStepCall<R, C, (&A, &B, &D, &E), Out> for CtxMergeStep<F, (ResMut<T, I>, Res<U, J>, Res<V, K>)> where
    R: Apart3<U, J, V, K, T, I>,
{
    open spec fn call_pre(&self, ctx: C, world: World<R>, inputs: (&A, &B, &D, &E)) -> bool {
        forall|r0: &mut C, r1: &mut T| *r0 == ctx && *r1 == world.held::<T, I>()
            ==> #[trigger] call_requires(
                self.f,
                (
                    r0,
                    r1,
                    &world.held::<U, J>(),
                    &world.held::<V, K>(),
                    inputs.0,
                    inputs.1,
                    inputs.2,
                    inputs.3,
                ),
            )
    }

    open spec fn call_post(
        &self,
        ctx: C,
        world: World<R>,
        inputs: (&A, &B, &D, &E),
        after: Self,
        ctx_after: C,
        world_after: World<R>,
        out: Out,
    ) -> bool {
        &&& after == *self
        &&& exists|held: T|
            #[trigger] effect_mmpppppp(
                self.f,
                ctx,
                world.held::<T, I>(),
                &world.held::<U, J>(),
                &world.held::<V, K>(),
                inputs.0,
                inputs.1,
                inputs.2,
                inputs.3,
                ctx_after,
                held,
                out,
            )
                && world_after == world.holding::<T, I>(held)
    }

    fn call(&mut self, ctx: &mut C, world: &mut World<R>, inputs: (&A, &B, &D, &E)) -> (out: Out) {
        broadcast use vstd::function::group_function_axioms;

        let (second, third, first) = world.beside_two_mut::<U, J, V, K, T, I>();
        let out = (self.f)(ctx, &mut *first, second, third, inputs.0, inputs.1, inputs.2, inputs.3);
        record(
            effect_mmpppppp_fact::<C, T, &U, &V, &A, &B, &D, &E, Out, F>,
            Ghost((
                old(self).f,
                *old(ctx),
                old(world).held::<T, I>(),
                &old(world).held::<U, J>(),
                &old(world).held::<V, K>(),
                inputs.0,
                inputs.1,
                inputs.2,
                inputs.3,
                *ctx,
                *first,
                out,
            )),
        );
        assert(effect_mmpppppp(
            old(self).f,
            *old(ctx),
            old(world).held::<T, I>(),
            &old(world).held::<U, J>(),
            &old(world).held::<V, K>(),
            inputs.0,
            inputs.1,
            inputs.2,
            inputs.3,
            *ctx,
            *first,
            out,
        ));
        out
    }
}

impl<
    R,
    T,
    I,
    U,
    J,
    V,
    K,
    C,
    A,
    B,
    D,
    E,
    Out,
    F: FnMut(&mut C, &mut T, &U, &V, &A, &B, &D, &E) -> Out,
> IntoCtxMergeStep<R, C, (&A, &B, &D, &E), Out, (ResMut<T, I>, Res<U, J>, Res<V, K>)> for F where
    R: Apart3<U, J, V, K, T, I>,
{
    type Step = CtxMergeStep<F, (ResMut<T, I>, Res<U, J>, Res<V, K>)>;

    open spec fn resolved(self) -> CtxMergeStep<F, (ResMut<T, I>, Res<U, J>, Res<V, K>)> {
        CtxMergeStep { f: self, params: PhantomData }
    }

    fn into_ctx_merge_step(
        self,
        registry: &Registry<R>,
    ) -> (step: CtxMergeStep<F, (ResMut<T, I>, Res<U, J>, Res<V, K>)>) {
        CtxMergeStep { f: self, params: PhantomData }
    }
}

impl<
    R,
    T,
    I,
    U,
    J,
    V,
    K,
    C,
    A,
    B,
    D,
    E,
    Out,
    F: FnMut(&mut C, &mut T, &U, &mut V, &A, &B, &D, &E) -> Out,
> CtxMergeStepCall<R, C, (&A, &B, &D, &E), Out> for CtxMergeStep<
    F,
    (ResMut<T, I>, Res<U, J>, ResMut<V, K>),
> where
    R: Apart3<U, J, T, I, V, K>,
{
    open spec fn call_pre(&self, ctx: C, world: World<R>, inputs: (&A, &B, &D, &E)) -> bool {
        forall|r0: &mut C, r1: &mut T, r3: &mut V| *r0 == ctx
            && *r1 == world.held::<T, I>()
            && *r3 == world.held::<V, K>()
            ==> #[trigger] call_requires(
                self.f,
                (r0, r1, &world.held::<U, J>(), r3, inputs.0, inputs.1, inputs.2, inputs.3),
            )
    }

    open spec fn call_post(
        &self,
        ctx: C,
        world: World<R>,
        inputs: (&A, &B, &D, &E),
        after: Self,
        ctx_after: C,
        world_after: World<R>,
        out: Out,
    ) -> bool {
        &&& after == *self
        &&& exists|held: T, other: V|
            #[trigger] effect_mmpmpppp(
                self.f,
                ctx,
                world.held::<T, I>(),
                &world.held::<U, J>(),
                world.held::<V, K>(),
                inputs.0,
                inputs.1,
                inputs.2,
                inputs.3,
                ctx_after,
                held,
                other,
                out,
            )
                && world_after == world.holding::<T, I>(held).holding::<V, K>(other)
    }

    fn call(&mut self, ctx: &mut C, world: &mut World<R>, inputs: (&A, &B, &D, &E)) -> (out: Out) {
        broadcast use vstd::function::group_function_axioms;

        let (second, first, third) = world.beside_both_mut::<U, J, T, I, V, K>();
        let out = (self.f)(
            ctx,
            &mut *first,
            second,
            &mut *third,
            inputs.0,
            inputs.1,
            inputs.2,
            inputs.3,
        );
        record(
            effect_mmpmpppp_fact::<C, T, &U, V, &A, &B, &D, &E, Out, F>,
            Ghost((
                old(self).f,
                *old(ctx),
                old(world).held::<T, I>(),
                &old(world).held::<U, J>(),
                old(world).held::<V, K>(),
                inputs.0,
                inputs.1,
                inputs.2,
                inputs.3,
                *ctx,
                *first,
                *third,
                out,
            )),
        );
        assert(effect_mmpmpppp(
            old(self).f,
            *old(ctx),
            old(world).held::<T, I>(),
            &old(world).held::<U, J>(),
            old(world).held::<V, K>(),
            inputs.0,
            inputs.1,
            inputs.2,
            inputs.3,
            *ctx,
            *first,
            *third,
            out,
        ));
        out
    }
}

impl<
    R,
    T,
    I,
    U,
    J,
    V,
    K,
    C,
    A,
    B,
    D,
    E,
    Out,
    F: FnMut(&mut C, &mut T, &U, &mut V, &A, &B, &D, &E) -> Out,
> IntoCtxMergeStep<R, C, (&A, &B, &D, &E), Out, (ResMut<T, I>, Res<U, J>, ResMut<V, K>)> for F where
    R: Apart3<U, J, T, I, V, K>,
{
    type Step = CtxMergeStep<F, (ResMut<T, I>, Res<U, J>, ResMut<V, K>)>;

    open spec fn resolved(self) -> CtxMergeStep<F, (ResMut<T, I>, Res<U, J>, ResMut<V, K>)> {
        CtxMergeStep { f: self, params: PhantomData }
    }

    fn into_ctx_merge_step(
        self,
        registry: &Registry<R>,
    ) -> (step: CtxMergeStep<F, (ResMut<T, I>, Res<U, J>, ResMut<V, K>)>) {
        CtxMergeStep { f: self, params: PhantomData }
    }
}

impl<
    R,
    T,
    I,
    U,
    J,
    V,
    K,
    C,
    A,
    B,
    D,
    E,
    Out,
    F: FnMut(&mut C, &mut T, &mut U, &V, &A, &B, &D, &E) -> Out,
> CtxMergeStepCall<R, C, (&A, &B, &D, &E), Out> for CtxMergeStep<
    F,
    (ResMut<T, I>, ResMut<U, J>, Res<V, K>),
> where
    R: Apart3<V, K, T, I, U, J>,
{
    open spec fn call_pre(&self, ctx: C, world: World<R>, inputs: (&A, &B, &D, &E)) -> bool {
        forall|r0: &mut C, r1: &mut T, r2: &mut U| *r0 == ctx
            && *r1 == world.held::<T, I>()
            && *r2 == world.held::<U, J>()
            ==> #[trigger] call_requires(
                self.f,
                (r0, r1, r2, &world.held::<V, K>(), inputs.0, inputs.1, inputs.2, inputs.3),
            )
    }

    open spec fn call_post(
        &self,
        ctx: C,
        world: World<R>,
        inputs: (&A, &B, &D, &E),
        after: Self,
        ctx_after: C,
        world_after: World<R>,
        out: Out,
    ) -> bool {
        &&& after == *self
        &&& exists|held: T, other: U|
            #[trigger] effect_mmmppppp(
                self.f,
                ctx,
                world.held::<T, I>(),
                world.held::<U, J>(),
                &world.held::<V, K>(),
                inputs.0,
                inputs.1,
                inputs.2,
                inputs.3,
                ctx_after,
                held,
                other,
                out,
            )
                && world_after == world.holding::<T, I>(held).holding::<U, J>(other)
    }

    fn call(&mut self, ctx: &mut C, world: &mut World<R>, inputs: (&A, &B, &D, &E)) -> (out: Out) {
        broadcast use vstd::function::group_function_axioms;

        let (third, first, second) = world.beside_both_mut::<V, K, T, I, U, J>();
        let out = (self.f)(
            ctx,
            &mut *first,
            &mut *second,
            third,
            inputs.0,
            inputs.1,
            inputs.2,
            inputs.3,
        );
        record(
            effect_mmmppppp_fact::<C, T, U, &V, &A, &B, &D, &E, Out, F>,
            Ghost((
                old(self).f,
                *old(ctx),
                old(world).held::<T, I>(),
                old(world).held::<U, J>(),
                &old(world).held::<V, K>(),
                inputs.0,
                inputs.1,
                inputs.2,
                inputs.3,
                *ctx,
                *first,
                *second,
                out,
            )),
        );
        assert(effect_mmmppppp(
            old(self).f,
            *old(ctx),
            old(world).held::<T, I>(),
            old(world).held::<U, J>(),
            &old(world).held::<V, K>(),
            inputs.0,
            inputs.1,
            inputs.2,
            inputs.3,
            *ctx,
            *first,
            *second,
            out,
        ));
        out
    }
}

impl<
    R,
    T,
    I,
    U,
    J,
    V,
    K,
    C,
    A,
    B,
    D,
    E,
    Out,
    F: FnMut(&mut C, &mut T, &mut U, &V, &A, &B, &D, &E) -> Out,
> IntoCtxMergeStep<R, C, (&A, &B, &D, &E), Out, (ResMut<T, I>, ResMut<U, J>, Res<V, K>)> for F where
    R: Apart3<V, K, T, I, U, J>,
{
    type Step = CtxMergeStep<F, (ResMut<T, I>, ResMut<U, J>, Res<V, K>)>;

    open spec fn resolved(self) -> CtxMergeStep<F, (ResMut<T, I>, ResMut<U, J>, Res<V, K>)> {
        CtxMergeStep { f: self, params: PhantomData }
    }

    fn into_ctx_merge_step(
        self,
        registry: &Registry<R>,
    ) -> (step: CtxMergeStep<F, (ResMut<T, I>, ResMut<U, J>, Res<V, K>)>) {
        CtxMergeStep { f: self, params: PhantomData }
    }
}

impl<
    R,
    T,
    I,
    U,
    J,
    V,
    K,
    C,
    A,
    B,
    D,
    E,
    Out,
    F: FnMut(&mut C, &mut T, &mut U, &mut V, &A, &B, &D, &E) -> Out,
> CtxMergeStepCall<R, C, (&A, &B, &D, &E), Out> for CtxMergeStep<
    F,
    (ResMut<T, I>, ResMut<U, J>, ResMut<V, K>),
> where
    R: Apart3<T, I, U, J, V, K>,
{
    open spec fn call_pre(&self, ctx: C, world: World<R>, inputs: (&A, &B, &D, &E)) -> bool {
        forall|r0: &mut C, r1: &mut T, r2: &mut U, r3: &mut V| *r0 == ctx
            && *r1 == world.held::<T, I>()
            && *r2 == world.held::<U, J>()
            && *r3 == world.held::<V, K>()
            ==> #[trigger] call_requires(
                self.f,
                (r0, r1, r2, r3, inputs.0, inputs.1, inputs.2, inputs.3),
            )
    }

    open spec fn call_post(
        &self,
        ctx: C,
        world: World<R>,
        inputs: (&A, &B, &D, &E),
        after: Self,
        ctx_after: C,
        world_after: World<R>,
        out: Out,
    ) -> bool {
        &&& after == *self
        &&& exists|held: T, other: U, last: V|
            #[trigger] effect_mmmmpppp(
                self.f,
                ctx,
                world.held::<T, I>(),
                world.held::<U, J>(),
                world.held::<V, K>(),
                inputs.0,
                inputs.1,
                inputs.2,
                inputs.3,
                ctx_after,
                held,
                other,
                last,
                out,
            )
                && world_after == world.holding::<T, I>(held).holding::<U, J>(other).holding::<V, K>(last)
    }

    fn call(&mut self, ctx: &mut C, world: &mut World<R>, inputs: (&A, &B, &D, &E)) -> (out: Out) {
        broadcast use vstd::function::group_function_axioms;

        let (first, second, third) = world.three_mut::<T, I, U, J, V, K>();
        let out = (self.f)(
            ctx,
            &mut *first,
            &mut *second,
            &mut *third,
            inputs.0,
            inputs.1,
            inputs.2,
            inputs.3,
        );
        record(
            effect_mmmmpppp_fact::<C, T, U, V, &A, &B, &D, &E, Out, F>,
            Ghost((
                old(self).f,
                *old(ctx),
                old(world).held::<T, I>(),
                old(world).held::<U, J>(),
                old(world).held::<V, K>(),
                inputs.0,
                inputs.1,
                inputs.2,
                inputs.3,
                *ctx,
                *first,
                *second,
                *third,
                out,
            )),
        );
        assert(effect_mmmmpppp(
            old(self).f,
            *old(ctx),
            old(world).held::<T, I>(),
            old(world).held::<U, J>(),
            old(world).held::<V, K>(),
            inputs.0,
            inputs.1,
            inputs.2,
            inputs.3,
            *ctx,
            *first,
            *second,
            *third,
            out,
        ));
        out
    }
}

impl<
    R,
    T,
    I,
    U,
    J,
    V,
    K,
    C,
    A,
    B,
    D,
    E,
    Out,
    F: FnMut(&mut C, &mut T, &mut U, &mut V, &A, &B, &D, &E) -> Out,
> IntoCtxMergeStep<
    R,
    C,
    (&A, &B, &D, &E),
    Out,
    (ResMut<T, I>, ResMut<U, J>, ResMut<V, K>),
> for F where
    R: Apart3<T, I, U, J, V, K>,
{
    type Step = CtxMergeStep<F, (ResMut<T, I>, ResMut<U, J>, ResMut<V, K>)>;

    open spec fn resolved(self) -> CtxMergeStep<F, (ResMut<T, I>, ResMut<U, J>, ResMut<V, K>)> {
        CtxMergeStep { f: self, params: PhantomData }
    }

    fn into_ctx_merge_step(
        self,
        registry: &Registry<R>,
    ) -> (step: CtxMergeStep<F, (ResMut<T, I>, ResMut<U, J>, ResMut<V, K>)>) {
        CtxMergeStep { f: self, params: PhantomData }
    }
}

} // verus!
