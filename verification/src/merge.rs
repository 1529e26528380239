//! Steps that are shown the results of several arms, and the nodes that run the arms.
use crate::effect::{
    effect_mmpp, effect_mmpp_fact, effect_mmppp, effect_mmppp_fact, effect_mmpppp,
    effect_mmpppp_fact, effect_mmppppp, effect_mmppppp_fact, effect_mpp, effect_mpp_fact,
    effect_mppp, effect_mppp_fact, effect_mpppp, effect_mpppp_fact, effect_mppppp,
    effect_mppppp_fact, effect_mpppppp, effect_mpppppp_fact, effect_pmpp, effect_pmpp_fact,
    effect_pmppp, effect_pmppp_fact, effect_pmpppp, effect_pmpppp_fact, effect_pmppppp,
    effect_pmppppp_fact, record,
};
use crate::node::ChainCall;
use crate::world::{Apart, Registry, Res, ResMut, Resource, World};
use std::marker::PhantomData;
use vstd::prelude::*;

verus! {

/// A step that is shown the results of several arms.
pub trait MergeStepCall<R, Inputs, Out>: Sized {
    /// When the step may be called.
    spec fn call_pre(&self, world: World<R>, inputs: Inputs) -> bool;

    /// What a call may lead to: the step itself, the state it was handed, and its result.
    spec fn call_post(
        &self,
        world: World<R>,
        inputs: Inputs,
        after: Self,
        world_after: World<R>,
        out: Out,
    ) -> bool;

    fn call(&mut self, world: &mut World<R>, inputs: Inputs) -> (out: Out)
        requires
            old(self).call_pre(*old(world), inputs),
        ensures
            old(self).call_post(*old(world), inputs, *final(self), *final(world), out),
    ;
}

/// Turns a function into a [`MergeStepCall`]. `Params` tells the shapes of function apart.
pub trait IntoMergeStep<R, Inputs, Out, Params>: Sized {
    type Step: MergeStepCall<R, Inputs, Out>;

    /// The step that the function stands for.
    spec fn resolved(self) -> Self::Step;

    fn into_merge_step(self, registry: &Registry<R>) -> (step: Self::Step)
        ensures
            step == self.resolved(),
    ;
}

/// A function of several arms' results, with the mark of its shape.
pub struct MergeStep<F, Params> {
    pub f: F,
    pub params: PhantomData<Params>,
}


impl<R, A, B, Out, F: FnMut(&A, &B) -> Out> MergeStepCall<R, (&A, &B), Out> for MergeStep<F, ()> {
    open spec fn call_pre(&self, world: World<R>, inputs: (&A, &B)) -> bool {
        call_requires(self.f, (inputs.0, inputs.1))
    }

    open spec fn call_post(
        &self,
        world: World<R>,
        inputs: (&A, &B),
        after: Self,
        world_after: World<R>,
        out: Out,
    ) -> bool {
        &&& after == *self
        &&& world_after == world
        &&& call_ensures(self.f, (inputs.0, inputs.1), out)
    }

    fn call(&mut self, world: &mut World<R>, inputs: (&A, &B)) -> (out: Out) {
        broadcast use vstd::function::group_function_axioms;

        (self.f)(inputs.0, inputs.1)
    }
}

impl<R, A, B, Out, F: FnMut(&A, &B) -> Out> IntoMergeStep<R, (&A, &B), Out, ()> for F {
    type Step = MergeStep<F, ()>;

    open spec fn resolved(self) -> MergeStep<F, ()> {
        MergeStep { f: self, params: PhantomData }
    }

    fn into_merge_step(self, registry: &Registry<R>) -> (step: MergeStep<F, ()>) {
        MergeStep { f: self, params: PhantomData }
    }
}

impl<
    R,
    T,
    I,
    A,
    B,
    Out,
    F: FnMut(&T, &A, &B) -> Out,
> MergeStepCall<R, (&A, &B), Out> for MergeStep<F, Res<T, I>> where
    R: Resource<T, I>,
{
    open spec fn call_pre(&self, world: World<R>, inputs: (&A, &B)) -> bool {
        call_requires(self.f, (&world.held::<T, I>(), inputs.0, inputs.1))
    }

    open spec fn call_post(
        &self,
        world: World<R>,
        inputs: (&A, &B),
        after: Self,
        world_after: World<R>,
        out: Out,
    ) -> bool {
        &&& after == *self
        &&& world_after == world
        &&& call_ensures(self.f, (&world.held::<T, I>(), inputs.0, inputs.1), out)
    }

    fn call(&mut self, world: &mut World<R>, inputs: (&A, &B)) -> (out: Out) {
        broadcast use vstd::function::group_function_axioms;

        (self.f)(world.resource::<T, I>(), inputs.0, inputs.1)
    }
}

impl<
    R,
    T,
    I,
    A,
    B,
    Out,
    F: FnMut(&T, &A, &B) -> Out,
> IntoMergeStep<R, (&A, &B), Out, Res<T, I>> for F where
    R: Resource<T, I>,
{
    type Step = MergeStep<F, Res<T, I>>;

    open spec fn resolved(self) -> MergeStep<F, Res<T, I>> {
        MergeStep { f: self, params: PhantomData }
    }

    fn into_merge_step(self, registry: &Registry<R>) -> (step: MergeStep<F, Res<T, I>>) {
        MergeStep { f: self, params: PhantomData }
    }
}

impl<
    R,
    T,
    I,
    A,
    B,
    Out,
    F: FnMut(&mut T, &A, &B) -> Out,
> MergeStepCall<R, (&A, &B), Out> for MergeStep<F, ResMut<T, I>> where
    R: Resource<T, I>,
{
    open spec fn call_pre(&self, world: World<R>, inputs: (&A, &B)) -> bool {
        forall|r0: &mut T| *r0 == world.held::<T, I>()
            ==> #[trigger] call_requires(self.f, (r0, inputs.0, inputs.1))
    }

    open spec fn call_post(
        &self,
        world: World<R>,
        inputs: (&A, &B),
        after: Self,
        world_after: World<R>,
        out: Out,
    ) -> bool {
        &&& after == *self
        &&& exists|held: T|
            #[trigger] effect_mpp(self.f, world.held::<T, I>(), inputs.0, inputs.1, held, out)
                && world_after == world.holding::<T, I>(held)
    }

    fn call(&mut self, world: &mut World<R>, inputs: (&A, &B)) -> (out: Out) {
        broadcast use vstd::function::group_function_axioms;

        let cell: &mut T = world.resource_mut::<T, I>();
        let out = (self.f)(&mut *cell, inputs.0, inputs.1);
        record(
            effect_mpp_fact::<T, &A, &B, Out, F>,
            Ghost((old(self).f, old(world).held::<T, I>(), inputs.0, inputs.1, *cell, out)),
        );
        assert(effect_mpp(old(self).f, old(world).held::<T, I>(), inputs.0, inputs.1, *cell, out));
        out
    }
}

impl<
    R,
    T,
    I,
    A,
    B,
    Out,
    F: FnMut(&mut T, &A, &B) -> Out,
> IntoMergeStep<R, (&A, &B), Out, ResMut<T, I>> for F where
    R: Resource<T, I>,
{
    type Step = MergeStep<F, ResMut<T, I>>;

    open spec fn resolved(self) -> MergeStep<F, ResMut<T, I>> {
        MergeStep { f: self, params: PhantomData }
    }

    fn into_merge_step(self, registry: &Registry<R>) -> (step: MergeStep<F, ResMut<T, I>>) {
        MergeStep { f: self, params: PhantomData }
    }
}

impl<
    R,
    T,
    I,
    U,
    J,
    A,
    B,
    Out,
    F: FnMut(&T, &U, &A, &B) -> Out,
> MergeStepCall<R, (&A, &B), Out> for MergeStep<F, (Res<T, I>, Res<U, J>)> where
    R: Resource<T, I> + Resource<U, J>,
{
    open spec fn call_pre(&self, world: World<R>, inputs: (&A, &B)) -> bool {
        call_requires(self.f, (&world.held::<T, I>(), &world.held::<U, J>(), inputs.0, inputs.1))
    }

    open spec fn call_post(
        &self,
        world: World<R>,
        inputs: (&A, &B),
        after: Self,
        world_after: World<R>,
        out: Out,
    ) -> bool {
        &&& after == *self
        &&& world_after == world
        &&& call_ensures(
            self.f,
            (&world.held::<T, I>(), &world.held::<U, J>(), inputs.0, inputs.1),
            out,
        )
    }

    fn call(&mut self, world: &mut World<R>, inputs: (&A, &B)) -> (out: Out) {
        broadcast use vstd::function::group_function_axioms;

        (self.f)(world.resource::<T, I>(), world.resource::<U, J>(), inputs.0, inputs.1)
    }
}

impl<
    R,
    T,
    I,
    U,
    J,
    A,
    B,
    Out,
    F: FnMut(&T, &U, &A, &B) -> Out,
> IntoMergeStep<R, (&A, &B), Out, (Res<T, I>, Res<U, J>)> for F where
    R: Resource<T, I> + Resource<U, J>,
{
    type Step = MergeStep<F, (Res<T, I>, Res<U, J>)>;

    open spec fn resolved(self) -> MergeStep<F, (Res<T, I>, Res<U, J>)> {
        MergeStep { f: self, params: PhantomData }
    }

    fn into_merge_step(
        self,
        registry: &Registry<R>,
    ) -> (step: MergeStep<F, (Res<T, I>, Res<U, J>)>) {
        MergeStep { f: self, params: PhantomData }
    }
}

impl<
    R,
    T,
    I,
    U,
    J,
    A,
    B,
    Out,
    F: FnMut(&T, &mut U, &A, &B) -> Out,
> MergeStepCall<R, (&A, &B), Out> for MergeStep<F, (Res<T, I>, ResMut<U, J>)> where
    R: Apart<T, I, U, J>,
{
    open spec fn call_pre(&self, world: World<R>, inputs: (&A, &B)) -> bool {
        forall|r1: &mut U| *r1 == world.held::<U, J>()
            ==> #[trigger] call_requires(self.f, (&world.held::<T, I>(), r1, inputs.0, inputs.1))
    }

    open spec fn call_post(
        &self,
        world: World<R>,
        inputs: (&A, &B),
        after: Self,
        world_after: World<R>,
        out: Out,
    ) -> bool {
        &&& after == *self
        &&& exists|held: U|
            #[trigger] effect_pmpp(
                self.f,
                &world.held::<T, I>(),
                world.held::<U, J>(),
                inputs.0,
                inputs.1,
                held,
                out,
            )
                && world_after == world.holding::<U, J>(held)
    }

    fn call(&mut self, world: &mut World<R>, inputs: (&A, &B)) -> (out: Out) {
        broadcast use vstd::function::group_function_axioms;

        let (first, second): (&T, &mut U) = world.beside_mut::<T, I, U, J>();
        let out = (self.f)(first, &mut *second, inputs.0, inputs.1);
        record(
            effect_pmpp_fact::<&T, U, &A, &B, Out, F>,
            Ghost((
                old(self).f,
                &old(world).held::<T, I>(),
                old(world).held::<U, J>(),
                inputs.0,
                inputs.1,
                *second,
                out,
            )),
        );
        assert(effect_pmpp(
            old(self).f,
            &old(world).held::<T, I>(),
            old(world).held::<U, J>(),
            inputs.0,
            inputs.1,
            *second,
            out,
        ));
        out
    }
}

impl<
    R,
    T,
    I,
    U,
    J,
    A,
    B,
    Out,
    F: FnMut(&T, &mut U, &A, &B) -> Out,
> IntoMergeStep<R, (&A, &B), Out, (Res<T, I>, ResMut<U, J>)> for F where
    R: Apart<T, I, U, J>,
{
    type Step = MergeStep<F, (Res<T, I>, ResMut<U, J>)>;

    open spec fn resolved(self) -> MergeStep<F, (Res<T, I>, ResMut<U, J>)> {
        MergeStep { f: self, params: PhantomData }
    }

    fn into_merge_step(
        self,
        registry: &Registry<R>,
    ) -> (step: MergeStep<F, (Res<T, I>, ResMut<U, J>)>) {
        MergeStep { f: self, params: PhantomData }
    }
}

impl<
    R,
    T,
    I,
    U,
    J,
    A,
    B,
    Out,
    F: FnMut(&mut T, &U, &A, &B) -> Out,
> MergeStepCall<R, (&A, &B), Out> for MergeStep<F, (ResMut<T, I>, Res<U, J>)> where
    R: Apart<U, J, T, I>,
{
    open spec fn call_pre(&self, world: World<R>, inputs: (&A, &B)) -> bool {
        forall|r0: &mut T| *r0 == world.held::<T, I>()
            ==> #[trigger] call_requires(self.f, (r0, &world.held::<U, J>(), inputs.0, inputs.1))
    }

    open spec fn call_post(
        &self,
        world: World<R>,
        inputs: (&A, &B),
        after: Self,
        world_after: World<R>,
        out: Out,
    ) -> bool {
        &&& after == *self
        &&& exists|held: T|
            #[trigger] effect_mppp(
                self.f,
                world.held::<T, I>(),
                &world.held::<U, J>(),
                inputs.0,
                inputs.1,
                held,
                out,
            )
                && world_after == world.holding::<T, I>(held)
    }

    fn call(&mut self, world: &mut World<R>, inputs: (&A, &B)) -> (out: Out) {
        broadcast use vstd::function::group_function_axioms;

        let (second, first): (&U, &mut T) = world.beside_mut::<U, J, T, I>();
        let out = (self.f)(&mut *first, second, inputs.0, inputs.1);
        record(
            effect_mppp_fact::<T, &U, &A, &B, Out, F>,
            Ghost((
                old(self).f,
                old(world).held::<T, I>(),
                &old(world).held::<U, J>(),
                inputs.0,
                inputs.1,
                *first,
                out,
            )),
        );
        assert(effect_mppp(
            old(self).f,
            old(world).held::<T, I>(),
            &old(world).held::<U, J>(),
            inputs.0,
            inputs.1,
            *first,
            out,
        ));
        out
    }
}

impl<
    R,
    T,
    I,
    U,
    J,
    A,
    B,
    Out,
    F: FnMut(&mut T, &U, &A, &B) -> Out,
> IntoMergeStep<R, (&A, &B), Out, (ResMut<T, I>, Res<U, J>)> for F where
    R: Apart<U, J, T, I>,
{
    type Step = MergeStep<F, (ResMut<T, I>, Res<U, J>)>;

    open spec fn resolved(self) -> MergeStep<F, (ResMut<T, I>, Res<U, J>)> {
        MergeStep { f: self, params: PhantomData }
    }

    fn into_merge_step(
        self,
        registry: &Registry<R>,
    ) -> (step: MergeStep<F, (ResMut<T, I>, Res<U, J>)>) {
        MergeStep { f: self, params: PhantomData }
    }
}

impl<
    R,
    T,
    I,
    U,
    J,
    A,
    B,
    Out,
    F: FnMut(&mut T, &mut U, &A, &B) -> Out,
> MergeStepCall<R, (&A, &B), Out> for MergeStep<F, (ResMut<T, I>, ResMut<U, J>)> where
    R: Apart<T, I, U, J>,
{
    open spec fn call_pre(&self, world: World<R>, inputs: (&A, &B)) -> bool {
        forall|r0: &mut T, r1: &mut U| *r0 == world.held::<T, I>() && *r1 == world.held::<U, J>()
            ==> #[trigger] call_requires(self.f, (r0, r1, inputs.0, inputs.1))
    }

    open spec fn call_post(
        &self,
        world: World<R>,
        inputs: (&A, &B),
        after: Self,
        world_after: World<R>,
        out: Out,
    ) -> bool {
        &&& after == *self
        &&& exists|held: T, other: U|
            #[trigger] effect_mmpp(
                self.f,
                world.held::<T, I>(),
                world.held::<U, J>(),
                inputs.0,
                inputs.1,
                held,
                other,
                out,
            )
                && world_after == world.holding::<T, I>(held).holding::<U, J>(other)
    }

    fn call(&mut self, world: &mut World<R>, inputs: (&A, &B)) -> (out: Out) {
        broadcast use vstd::function::group_function_axioms;

        let (first, second): (&mut T, &mut U) = world.both_mut::<T, I, U, J>();
        let out = (self.f)(&mut *first, &mut *second, inputs.0, inputs.1);
        record(
            effect_mmpp_fact::<T, U, &A, &B, Out, F>,
            Ghost((
                old(self).f,
                old(world).held::<T, I>(),
                old(world).held::<U, J>(),
                inputs.0,
                inputs.1,
                *first,
                *second,
                out,
            )),
        );
        assert(effect_mmpp(
            old(self).f,
            old(world).held::<T, I>(),
            old(world).held::<U, J>(),
            inputs.0,
            inputs.1,
            *first,
            *second,
            out,
        ));
        out
    }
}

impl<
    R,
    T,
    I,
    U,
    J,
    A,
    B,
    Out,
    F: FnMut(&mut T, &mut U, &A, &B) -> Out,
> IntoMergeStep<R, (&A, &B), Out, (ResMut<T, I>, ResMut<U, J>)> for F where
    R: Apart<T, I, U, J>,
{
    type Step = MergeStep<F, (ResMut<T, I>, ResMut<U, J>)>;

    open spec fn resolved(self) -> MergeStep<F, (ResMut<T, I>, ResMut<U, J>)> {
        MergeStep { f: self, params: PhantomData }
    }

    fn into_merge_step(
        self,
        registry: &Registry<R>,
    ) -> (step: MergeStep<F, (ResMut<T, I>, ResMut<U, J>)>) {
        MergeStep { f: self, params: PhantomData }
    }
}

impl<
    R,
    A,
    B,
    D,
    Out,
    F: FnMut(&A, &B, &D) -> Out,
> MergeStepCall<R, (&A, &B, &D), Out> for MergeStep<F, ()> {
    open spec fn call_pre(&self, world: World<R>, inputs: (&A, &B, &D)) -> bool {
        call_requires(self.f, (inputs.0, inputs.1, inputs.2))
    }

    open spec fn call_post(
        &self,
        world: World<R>,
        inputs: (&A, &B, &D),
        after: Self,
        world_after: World<R>,
        out: Out,
    ) -> bool {
        &&& after == *self
        &&& world_after == world
        &&& call_ensures(self.f, (inputs.0, inputs.1, inputs.2), out)
    }

    fn call(&mut self, world: &mut World<R>, inputs: (&A, &B, &D)) -> (out: Out) {
        broadcast use vstd::function::group_function_axioms;

        (self.f)(inputs.0, inputs.1, inputs.2)
    }
}

impl<R, A, B, D, Out, F: FnMut(&A, &B, &D) -> Out> IntoMergeStep<R, (&A, &B, &D), Out, ()> for F {
    type Step = MergeStep<F, ()>;

    open spec fn resolved(self) -> MergeStep<F, ()> {
        MergeStep { f: self, params: PhantomData }
    }

    fn into_merge_step(self, registry: &Registry<R>) -> (step: MergeStep<F, ()>) {
        MergeStep { f: self, params: PhantomData }
    }
}

impl<
    R,
    T,
    I,
    A,
    B,
    D,
    Out,
    F: FnMut(&T, &A, &B, &D) -> Out,
> MergeStepCall<R, (&A, &B, &D), Out> for MergeStep<F, Res<T, I>> where
    R: Resource<T, I>,
{
    open spec fn call_pre(&self, world: World<R>, inputs: (&A, &B, &D)) -> bool {
        call_requires(self.f, (&world.held::<T, I>(), inputs.0, inputs.1, inputs.2))
    }

    open spec fn call_post(
        &self,
        world: World<R>,
        inputs: (&A, &B, &D),
        after: Self,
        world_after: World<R>,
        out: Out,
    ) -> bool {
        &&& after == *self
        &&& world_after == world
        &&& call_ensures(self.f, (&world.held::<T, I>(), inputs.0, inputs.1, inputs.2), out)
    }

    fn call(&mut self, world: &mut World<R>, inputs: (&A, &B, &D)) -> (out: Out) {
        broadcast use vstd::function::group_function_axioms;

        (self.f)(world.resource::<T, I>(), inputs.0, inputs.1, inputs.2)
    }
}

impl<
    R,
    T,
    I,
    A,
    B,
    D,
    Out,
    F: FnMut(&T, &A, &B, &D) -> Out,
> IntoMergeStep<R, (&A, &B, &D), Out, Res<T, I>> for F where
    R: Resource<T, I>,
{
    type Step = MergeStep<F, Res<T, I>>;

    open spec fn resolved(self) -> MergeStep<F, Res<T, I>> {
        MergeStep { f: self, params: PhantomData }
    }

    fn into_merge_step(self, registry: &Registry<R>) -> (step: MergeStep<F, Res<T, I>>) {
        MergeStep { f: self, params: PhantomData }
    }
}

impl<
    R,
    T,
    I,
    A,
    B,
    D,
    Out,
    F: FnMut(&mut T, &A, &B, &D) -> Out,
> MergeStepCall<R, (&A, &B, &D), Out> for MergeStep<F, ResMut<T, I>> where
    R: Resource<T, I>,
{
    open spec fn call_pre(&self, world: World<R>, inputs: (&A, &B, &D)) -> bool {
        forall|r0: &mut T| *r0 == world.held::<T, I>()
            ==> #[trigger] call_requires(self.f, (r0, inputs.0, inputs.1, inputs.2))
    }

    open spec fn call_post(
        &self,
        world: World<R>,
        inputs: (&A, &B, &D),
        after: Self,
        world_after: World<R>,
        out: Out,
    ) -> bool {
        &&& after == *self
        &&& exists|held: T|
            #[trigger] effect_mppp(
                self.f,
                world.held::<T, I>(),
                inputs.0,
                inputs.1,
                inputs.2,
                held,
                out,
            )
                && world_after == world.holding::<T, I>(held)
    }

    fn call(&mut self, world: &mut World<R>, inputs: (&A, &B, &D)) -> (out: Out) {
        broadcast use vstd::function::group_function_axioms;

        let cell: &mut T = world.resource_mut::<T, I>();
        let out = (self.f)(&mut *cell, inputs.0, inputs.1, inputs.2);
        record(
            effect_mppp_fact::<T, &A, &B, &D, Out, F>,
            Ghost((
                old(self).f,
                old(world).held::<T, I>(),
                inputs.0,
                inputs.1,
                inputs.2,
                *cell,
                out,
            )),
        );
        assert(effect_mppp(
            old(self).f,
            old(world).held::<T, I>(),
            inputs.0,
            inputs.1,
            inputs.2,
            *cell,
            out,
        ));
        out
    }
}

impl<
    R,
    T,
    I,
    A,
    B,
    D,
    Out,
    F: FnMut(&mut T, &A, &B, &D) -> Out,
> IntoMergeStep<R, (&A, &B, &D), Out, ResMut<T, I>> for F where
    R: Resource<T, I>,
{
    type Step = MergeStep<F, ResMut<T, I>>;

    open spec fn resolved(self) -> MergeStep<F, ResMut<T, I>> {
        MergeStep { f: self, params: PhantomData }
    }

    fn into_merge_step(self, registry: &Registry<R>) -> (step: MergeStep<F, ResMut<T, I>>) {
        MergeStep { f: self, params: PhantomData }
    }
}

impl<
    R,
    T,
    I,
    U,
    J,
    A,
    B,
    D,
    Out,
    F: FnMut(&T, &U, &A, &B, &D) -> Out,
> MergeStepCall<R, (&A, &B, &D), Out> for MergeStep<F, (Res<T, I>, Res<U, J>)> where
    R: Resource<T, I> + Resource<U, J>,
{
    open spec fn call_pre(&self, world: World<R>, inputs: (&A, &B, &D)) -> bool {
        call_requires(
            self.f,
            (&world.held::<T, I>(), &world.held::<U, J>(), inputs.0, inputs.1, inputs.2),
        )
    }

    open spec fn call_post(
        &self,
        world: World<R>,
        inputs: (&A, &B, &D),
        after: Self,
        world_after: World<R>,
        out: Out,
    ) -> bool {
        &&& after == *self
        &&& world_after == world
        &&& call_ensures(
            self.f,
            (&world.held::<T, I>(), &world.held::<U, J>(), inputs.0, inputs.1, inputs.2),
            out,
        )
    }

    fn call(&mut self, world: &mut World<R>, inputs: (&A, &B, &D)) -> (out: Out) {
        broadcast use vstd::function::group_function_axioms;

        (self.f)(world.resource::<T, I>(), world.resource::<U, J>(), inputs.0, inputs.1, inputs.2)
    }
}

impl<
    R,
    T,
    I,
    U,
    J,
    A,
    B,
    D,
    Out,
    F: FnMut(&T, &U, &A, &B, &D) -> Out,
> IntoMergeStep<R, (&A, &B, &D), Out, (Res<T, I>, Res<U, J>)> for F where
    R: Resource<T, I> + Resource<U, J>,
{
    type Step = MergeStep<F, (Res<T, I>, Res<U, J>)>;

    open spec fn resolved(self) -> MergeStep<F, (Res<T, I>, Res<U, J>)> {
        MergeStep { f: self, params: PhantomData }
    }

    fn into_merge_step(
        self,
        registry: &Registry<R>,
    ) -> (step: MergeStep<F, (Res<T, I>, Res<U, J>)>) {
        MergeStep { f: self, params: PhantomData }
    }
}

impl<
    R,
    T,
    I,
    U,
    J,
    A,
    B,
    D,
    Out,
    F: FnMut(&T, &mut U, &A, &B, &D) -> Out,
> MergeStepCall<R, (&A, &B, &D), Out> for MergeStep<F, (Res<T, I>, ResMut<U, J>)> where
    R: Apart<T, I, U, J>,
{
    open spec fn call_pre(&self, world: World<R>, inputs: (&A, &B, &D)) -> bool {
        forall|r1: &mut U| *r1 == world.held::<U, J>()
            ==> #[trigger] call_requires(
                self.f,
                (&world.held::<T, I>(), r1, inputs.0, inputs.1, inputs.2),
            )
    }

    open spec fn call_post(
        &self,
        world: World<R>,
        inputs: (&A, &B, &D),
        after: Self,
        world_after: World<R>,
        out: Out,
    ) -> bool {
        &&& after == *self
        &&& exists|held: U|
            #[trigger] effect_pmppp(
                self.f,
                &world.held::<T, I>(),
                world.held::<U, J>(),
                inputs.0,
                inputs.1,
                inputs.2,
                held,
                out,
            )
                && world_after == world.holding::<U, J>(held)
    }

    fn call(&mut self, world: &mut World<R>, inputs: (&A, &B, &D)) -> (out: Out) {
        broadcast use vstd::function::group_function_axioms;

        let (first, second): (&T, &mut U) = world.beside_mut::<T, I, U, J>();
        let out = (self.f)(first, &mut *second, inputs.0, inputs.1, inputs.2);
        record(
            effect_pmppp_fact::<&T, U, &A, &B, &D, Out, F>,
            Ghost((
                old(self).f,
                &old(world).held::<T, I>(),
                old(world).held::<U, J>(),
                inputs.0,
                inputs.1,
                inputs.2,
                *second,
                out,
            )),
        );
        assert(effect_pmppp(
            old(self).f,
            &old(world).held::<T, I>(),
            old(world).held::<U, J>(),
            inputs.0,
            inputs.1,
            inputs.2,
            *second,
            out,
        ));
        out
    }
}

impl<
    R,
    T,
    I,
    U,
    J,
    A,
    B,
    D,
    Out,
    F: FnMut(&T, &mut U, &A, &B, &D) -> Out,
> IntoMergeStep<R, (&A, &B, &D), Out, (Res<T, I>, ResMut<U, J>)> for F where
    R: Apart<T, I, U, J>,
{
    type Step = MergeStep<F, (Res<T, I>, ResMut<U, J>)>;

    open spec fn resolved(self) -> MergeStep<F, (Res<T, I>, ResMut<U, J>)> {
        MergeStep { f: self, params: PhantomData }
    }

    fn into_merge_step(
        self,
        registry: &Registry<R>,
    ) -> (step: MergeStep<F, (Res<T, I>, ResMut<U, J>)>) {
        MergeStep { f: self, params: PhantomData }
    }
}

impl<
    R,
    T,
    I,
    U,
    J,
    A,
    B,
    D,
    Out,
    F: FnMut(&mut T, &U, &A, &B, &D) -> Out,
> MergeStepCall<R, (&A, &B, &D), Out> for MergeStep<F, (ResMut<T, I>, Res<U, J>)> where
    R: Apart<U, J, T, I>,
{
    open spec fn call_pre(&self, world: World<R>, inputs: (&A, &B, &D)) -> bool {
        forall|r0: &mut T| *r0 == world.held::<T, I>()
            ==> #[trigger] call_requires(
                self.f,
                (r0, &world.held::<U, J>(), inputs.0, inputs.1, inputs.2),
            )
    }

    open spec fn call_post(
        &self,
        world: World<R>,
        inputs: (&A, &B, &D),
        after: Self,
        world_after: World<R>,
        out: Out,
    ) -> bool {
        &&& after == *self
        &&& exists|held: T|
            #[trigger] effect_mpppp(
                self.f,
                world.held::<T, I>(),
                &world.held::<U, J>(),
                inputs.0,
                inputs.1,
                inputs.2,
                held,
                out,
            )
                && world_after == world.holding::<T, I>(held)
    }

    fn call(&mut self, world: &mut World<R>, inputs: (&A, &B, &D)) -> (out: Out) {
        broadcast use vstd::function::group_function_axioms;

        let (second, first): (&U, &mut T) = world.beside_mut::<U, J, T, I>();
        let out = (self.f)(&mut *first, second, inputs.0, inputs.1, inputs.2);
        record(
            effect_mpppp_fact::<T, &U, &A, &B, &D, Out, F>,
            Ghost((
                old(self).f,
                old(world).held::<T, I>(),
                &old(world).held::<U, J>(),
                inputs.0,
                inputs.1,
                inputs.2,
                *first,
                out,
            )),
        );
        assert(effect_mpppp(
            old(self).f,
            old(world).held::<T, I>(),
            &old(world).held::<U, J>(),
            inputs.0,
            inputs.1,
            inputs.2,
            *first,
            out,
        ));
        out
    }
}

impl<
    R,
    T,
    I,
    U,
    J,
    A,
    B,
    D,
    Out,
    F: FnMut(&mut T, &U, &A, &B, &D) -> Out,
> IntoMergeStep<R, (&A, &B, &D), Out, (ResMut<T, I>, Res<U, J>)> for F where
    R: Apart<U, J, T, I>,
{
    type Step = MergeStep<F, (ResMut<T, I>, Res<U, J>)>;

    open spec fn resolved(self) -> MergeStep<F, (ResMut<T, I>, Res<U, J>)> {
        MergeStep { f: self, params: PhantomData }
    }

    fn into_merge_step(
        self,
        registry: &Registry<R>,
    ) -> (step: MergeStep<F, (ResMut<T, I>, Res<U, J>)>) {
        MergeStep { f: self, params: PhantomData }
    }
}

impl<
    R,
    T,
    I,
    U,
    J,
    A,
    B,
    D,
    Out,
    F: FnMut(&mut T, &mut U, &A, &B, &D) -> Out,
> MergeStepCall<R, (&A, &B, &D), Out> for MergeStep<F, (ResMut<T, I>, ResMut<U, J>)> where
    R: Apart<T, I, U, J>,
{
    open spec fn call_pre(&self, world: World<R>, inputs: (&A, &B, &D)) -> bool {
        forall|r0: &mut T, r1: &mut U| *r0 == world.held::<T, I>() && *r1 == world.held::<U, J>()
            ==> #[trigger] call_requires(self.f, (r0, r1, inputs.0, inputs.1, inputs.2))
    }

    open spec fn call_post(
        &self,
        world: World<R>,
        inputs: (&A, &B, &D),
        after: Self,
        world_after: World<R>,
        out: Out,
    ) -> bool {
        &&& after == *self
        &&& exists|held: T, other: U|
            #[trigger] effect_mmppp(
                self.f,
                world.held::<T, I>(),
                world.held::<U, J>(),
                inputs.0,
                inputs.1,
                inputs.2,
                held,
                other,
                out,
            )
                && world_after == world.holding::<T, I>(held).holding::<U, J>(other)
    }

    fn call(&mut self, world: &mut World<R>, inputs: (&A, &B, &D)) -> (out: Out) {
        broadcast use vstd::function::group_function_axioms;

        let (first, second): (&mut T, &mut U) = world.both_mut::<T, I, U, J>();
        let out = (self.f)(&mut *first, &mut *second, inputs.0, inputs.1, inputs.2);
        record(
            effect_mmppp_fact::<T, U, &A, &B, &D, Out, F>,
            Ghost((
                old(self).f,
                old(world).held::<T, I>(),
                old(world).held::<U, J>(),
                inputs.0,
                inputs.1,
                inputs.2,
                *first,
                *second,
                out,
            )),
        );
        assert(effect_mmppp(
            old(self).f,
            old(world).held::<T, I>(),
            old(world).held::<U, J>(),
            inputs.0,
            inputs.1,
            inputs.2,
            *first,
            *second,
            out,
        ));
        out
    }
}

impl<
    R,
    T,
    I,
    U,
    J,
    A,
    B,
    D,
    Out,
    F: FnMut(&mut T, &mut U, &A, &B, &D) -> Out,
> IntoMergeStep<R, (&A, &B, &D), Out, (ResMut<T, I>, ResMut<U, J>)> for F where
    R: Apart<T, I, U, J>,
{
    type Step = MergeStep<F, (ResMut<T, I>, ResMut<U, J>)>;

    open spec fn resolved(self) -> MergeStep<F, (ResMut<T, I>, ResMut<U, J>)> {
        MergeStep { f: self, params: PhantomData }
    }

    fn into_merge_step(
        self,
        registry: &Registry<R>,
    ) -> (step: MergeStep<F, (ResMut<T, I>, ResMut<U, J>)>) {
        MergeStep { f: self, params: PhantomData }
    }
}

impl<
    R,
    A,
    B,
    D,
    E,
    Out,
    F: FnMut(&A, &B, &D, &E) -> Out,
> MergeStepCall<R, (&A, &B, &D, &E), Out> for MergeStep<F, ()> {
    open spec fn call_pre(&self, world: World<R>, inputs: (&A, &B, &D, &E)) -> bool {
        call_requires(self.f, (inputs.0, inputs.1, inputs.2, inputs.3))
    }

    open spec fn call_post(
        &self,
        world: World<R>,
        inputs: (&A, &B, &D, &E),
        after: Self,
        world_after: World<R>,
        out: Out,
    ) -> bool {
        &&& after == *self
        &&& world_after == world
        &&& call_ensures(self.f, (inputs.0, inputs.1, inputs.2, inputs.3), out)
    }

    fn call(&mut self, world: &mut World<R>, inputs: (&A, &B, &D, &E)) -> (out: Out) {
        broadcast use vstd::function::group_function_axioms;

        (self.f)(inputs.0, inputs.1, inputs.2, inputs.3)
    }
}

impl<
    R,
    A,
    B,
    D,
    E,
    Out,
    F: FnMut(&A, &B, &D, &E) -> Out,
> IntoMergeStep<R, (&A, &B, &D, &E), Out, ()> for F {
    type Step = MergeStep<F, ()>;

    open spec fn resolved(self) -> MergeStep<F, ()> {
        MergeStep { f: self, params: PhantomData }
    }

    fn into_merge_step(self, registry: &Registry<R>) -> (step: MergeStep<F, ()>) {
        MergeStep { f: self, params: PhantomData }
    }
}

impl<
    R,
    T,
    I,
    A,
    B,
    D,
    E,
    Out,
    F: FnMut(&T, &A, &B, &D, &E) -> Out,
> MergeStepCall<R, (&A, &B, &D, &E), Out> for MergeStep<F, Res<T, I>> where
    R: Resource<T, I>,
{
    open spec fn call_pre(&self, world: World<R>, inputs: (&A, &B, &D, &E)) -> bool {
        call_requires(self.f, (&world.held::<T, I>(), inputs.0, inputs.1, inputs.2, inputs.3))
    }

    open spec fn call_post(
        &self,
        world: World<R>,
        inputs: (&A, &B, &D, &E),
        after: Self,
        world_after: World<R>,
        out: Out,
    ) -> bool {
        &&& after == *self
        &&& world_after == world
        &&& call_ensures(
            self.f,
            (&world.held::<T, I>(), inputs.0, inputs.1, inputs.2, inputs.3),
            out,
        )
    }

    fn call(&mut self, world: &mut World<R>, inputs: (&A, &B, &D, &E)) -> (out: Out) {
        broadcast use vstd::function::group_function_axioms;

        (self.f)(world.resource::<T, I>(), inputs.0, inputs.1, inputs.2, inputs.3)
    }
}

impl<
    R,
    T,
    I,
    A,
    B,
    D,
    E,
    Out,
    F: FnMut(&T, &A, &B, &D, &E) -> Out,
> IntoMergeStep<R, (&A, &B, &D, &E), Out, Res<T, I>> for F where
    R: Resource<T, I>,
{
    type Step = MergeStep<F, Res<T, I>>;

    open spec fn resolved(self) -> MergeStep<F, Res<T, I>> {
        MergeStep { f: self, params: PhantomData }
    }

    fn into_merge_step(self, registry: &Registry<R>) -> (step: MergeStep<F, Res<T, I>>) {
        MergeStep { f: self, params: PhantomData }
    }
}

impl<
    R,
    T,
    I,
    A,
    B,
    D,
    E,
    Out,
    F: FnMut(&mut T, &A, &B, &D, &E) -> Out,
> MergeStepCall<R, (&A, &B, &D, &E), Out> for MergeStep<F, ResMut<T, I>> where
    R: Resource<T, I>,
{
    open spec fn call_pre(&self, world: World<R>, inputs: (&A, &B, &D, &E)) -> bool {
        forall|r0: &mut T| *r0 == world.held::<T, I>()
            ==> #[trigger] call_requires(self.f, (r0, inputs.0, inputs.1, inputs.2, inputs.3))
    }

    open spec fn call_post(
        &self,
        world: World<R>,
        inputs: (&A, &B, &D, &E),
        after: Self,
        world_after: World<R>,
        out: Out,
    ) -> bool {
        &&& after == *self
        &&& exists|held: T|
            #[trigger] effect_mpppp(
                self.f,
                world.held::<T, I>(),
                inputs.0,
                inputs.1,
                inputs.2,
                inputs.3,
                held,
                out,
            )
                && world_after == world.holding::<T, I>(held)
    }

    fn call(&mut self, world: &mut World<R>, inputs: (&A, &B, &D, &E)) -> (out: Out) {
        broadcast use vstd::function::group_function_axioms;

        let cell: &mut T = world.resource_mut::<T, I>();
        let out = (self.f)(&mut *cell, inputs.0, inputs.1, inputs.2, inputs.3);
        record(
            effect_mpppp_fact::<T, &A, &B, &D, &E, Out, F>,
            Ghost((
                old(self).f,
                old(world).held::<T, I>(),
                inputs.0,
                inputs.1,
                inputs.2,
                inputs.3,
                *cell,
                out,
            )),
        );
        assert(effect_mpppp(
            old(self).f,
            old(world).held::<T, I>(),
            inputs.0,
            inputs.1,
            inputs.2,
            inputs.3,
            *cell,
            out,
        ));
        out
    }
}

impl<
    R,
    T,
    I,
    A,
    B,
    D,
    E,
    Out,
    F: FnMut(&mut T, &A, &B, &D, &E) -> Out,
> IntoMergeStep<R, (&A, &B, &D, &E), Out, ResMut<T, I>> for F where
    R: Resource<T, I>,
{
    type Step = MergeStep<F, ResMut<T, I>>;

    open spec fn resolved(self) -> MergeStep<F, ResMut<T, I>> {
        MergeStep { f: self, params: PhantomData }
    }

    fn into_merge_step(self, registry: &Registry<R>) -> (step: MergeStep<F, ResMut<T, I>>) {
        MergeStep { f: self, params: PhantomData }
    }
}

impl<
    R,
    T,
    I,
    U,
    J,
    A,
    B,
    D,
    E,
    Out,
    F: FnMut(&T, &U, &A, &B, &D, &E) -> Out,
> MergeStepCall<R, (&A, &B, &D, &E), Out> for MergeStep<F, (Res<T, I>, Res<U, J>)> where
    R: Resource<T, I> + Resource<U, J>,
{
    open spec fn call_pre(&self, world: World<R>, inputs: (&A, &B, &D, &E)) -> bool {
        call_requires(
            self.f,
            (&world.held::<T, I>(), &world.held::<U, J>(), inputs.0, inputs.1, inputs.2, inputs.3),
        )
    }

    open spec fn call_post(
        &self,
        world: World<R>,
        inputs: (&A, &B, &D, &E),
        after: Self,
        world_after: World<R>,
        out: Out,
    ) -> bool {
        &&& after == *self
        &&& world_after == world
        &&& call_ensures(
            self.f,
            (&world.held::<T, I>(), &world.held::<U, J>(), inputs.0, inputs.1, inputs.2, inputs.3),
            out,
        )
    }

    fn call(&mut self, world: &mut World<R>, inputs: (&A, &B, &D, &E)) -> (out: Out) {
        broadcast use vstd::function::group_function_axioms;

        (self.f)(
            world.resource::<T, I>(),
            world.resource::<U, J>(),
            inputs.0,
            inputs.1,
            inputs.2,
            inputs.3,
        )
    }
}

impl<
    R,
    T,
    I,
    U,
    J,
    A,
    B,
    D,
    E,
    Out,
    F: FnMut(&T, &U, &A, &B, &D, &E) -> Out,
> IntoMergeStep<R, (&A, &B, &D, &E), Out, (Res<T, I>, Res<U, J>)> for F where
    R: Resource<T, I> + Resource<U, J>,
{
    type Step = MergeStep<F, (Res<T, I>, Res<U, J>)>;

    open spec fn resolved(self) -> MergeStep<F, (Res<T, I>, Res<U, J>)> {
        MergeStep { f: self, params: PhantomData }
    }

    fn into_merge_step(
        self,
        registry: &Registry<R>,
    ) -> (step: MergeStep<F, (Res<T, I>, Res<U, J>)>) {
        MergeStep { f: self, params: PhantomData }
    }
}

impl<
    R,
    T,
    I,
    U,
    J,
    A,
    B,
    D,
    E,
    Out,
    F: FnMut(&T, &mut U, &A, &B, &D, &E) -> Out,
> MergeStepCall<R, (&A, &B, &D, &E), Out> for MergeStep<F, (Res<T, I>, ResMut<U, J>)> where
    R: Apart<T, I, U, J>,
{
    open spec fn call_pre(&self, world: World<R>, inputs: (&A, &B, &D, &E)) -> bool {
        forall|r1: &mut U| *r1 == world.held::<U, J>()
            ==> #[trigger] call_requires(
                self.f,
                (&world.held::<T, I>(), r1, inputs.0, inputs.1, inputs.2, inputs.3),
            )
    }

    open spec fn call_post(
        &self,
        world: World<R>,
        inputs: (&A, &B, &D, &E),
        after: Self,
        world_after: World<R>,
        out: Out,
    ) -> bool {
        &&& after == *self
        &&& exists|held: U|
            #[trigger] effect_pmpppp(
                self.f,
                &world.held::<T, I>(),
                world.held::<U, J>(),
                inputs.0,
                inputs.1,
                inputs.2,
                inputs.3,
                held,
                out,
            )
                && world_after == world.holding::<U, J>(held)
    }

    fn call(&mut self, world: &mut World<R>, inputs: (&A, &B, &D, &E)) -> (out: Out) {
        broadcast use vstd::function::group_function_axioms;

        let (first, second): (&T, &mut U) = world.beside_mut::<T, I, U, J>();
        let out = (self.f)(first, &mut *second, inputs.0, inputs.1, inputs.2, inputs.3);
        record(
            effect_pmpppp_fact::<&T, U, &A, &B, &D, &E, Out, F>,
            Ghost((
                old(self).f,
                &old(world).held::<T, I>(),
                old(world).held::<U, J>(),
                inputs.0,
                inputs.1,
                inputs.2,
                inputs.3,
                *second,
                out,
            )),
        );
        assert(effect_pmpppp(
            old(self).f,
            &old(world).held::<T, I>(),
            old(world).held::<U, J>(),
            inputs.0,
            inputs.1,
            inputs.2,
            inputs.3,
            *second,
            out,
        ));
        out
    }
}

impl<
    R,
    T,
    I,
    U,
    J,
    A,
    B,
    D,
    E,
    Out,
    F: FnMut(&T, &mut U, &A, &B, &D, &E) -> Out,
> IntoMergeStep<R, (&A, &B, &D, &E), Out, (Res<T, I>, ResMut<U, J>)> for F where
    R: Apart<T, I, U, J>,
{
    type Step = MergeStep<F, (Res<T, I>, ResMut<U, J>)>;

    open spec fn resolved(self) -> MergeStep<F, (Res<T, I>, ResMut<U, J>)> {
        MergeStep { f: self, params: PhantomData }
    }

    fn into_merge_step(
        self,
        registry: &Registry<R>,
    ) -> (step: MergeStep<F, (Res<T, I>, ResMut<U, J>)>) {
        MergeStep { f: self, params: PhantomData }
    }
}

impl<
    R,
    T,
    I,
    U,
    J,
    A,
    B,
    D,
    E,
    Out,
    F: FnMut(&mut T, &U, &A, &B, &D, &E) -> Out,
> MergeStepCall<R, (&A, &B, &D, &E), Out> for MergeStep<F, (ResMut<T, I>, Res<U, J>)> where
    R: Apart<U, J, T, I>,
{
    open spec fn call_pre(&self, world: World<R>, inputs: (&A, &B, &D, &E)) -> bool {
        forall|r0: &mut T| *r0 == world.held::<T, I>()
            ==> #[trigger] call_requires(
                self.f,
                (r0, &world.held::<U, J>(), inputs.0, inputs.1, inputs.2, inputs.3),
            )
    }

    open spec fn call_post(
        &self,
        world: World<R>,
        inputs: (&A, &B, &D, &E),
        after: Self,
        world_after: World<R>,
        out: Out,
    ) -> bool {
        &&& after == *self
        &&& exists|held: T|
            #[trigger] effect_mppppp(
                self.f,
                world.held::<T, I>(),
                &world.held::<U, J>(),
                inputs.0,
                inputs.1,
                inputs.2,
                inputs.3,
                held,
                out,
            )
                && world_after == world.holding::<T, I>(held)
    }

    fn call(&mut self, world: &mut World<R>, inputs: (&A, &B, &D, &E)) -> (out: Out) {
        broadcast use vstd::function::group_function_axioms;

        let (second, first): (&U, &mut T) = world.beside_mut::<U, J, T, I>();
        let out = (self.f)(&mut *first, second, inputs.0, inputs.1, inputs.2, inputs.3);
        record(
            effect_mppppp_fact::<T, &U, &A, &B, &D, &E, Out, F>,
            Ghost((
                old(self).f,
                old(world).held::<T, I>(),
                &old(world).held::<U, J>(),
                inputs.0,
                inputs.1,
                inputs.2,
                inputs.3,
                *first,
                out,
            )),
        );
        assert(effect_mppppp(
            old(self).f,
            old(world).held::<T, I>(),
            &old(world).held::<U, J>(),
            inputs.0,
            inputs.1,
            inputs.2,
            inputs.3,
            *first,
            out,
        ));
        out
    }
}

impl<
    R,
    T,
    I,
    U,
    J,
    A,
    B,
    D,
    E,
    Out,
    F: FnMut(&mut T, &U, &A, &B, &D, &E) -> Out,
> IntoMergeStep<R, (&A, &B, &D, &E), Out, (ResMut<T, I>, Res<U, J>)> for F where
    R: Apart<U, J, T, I>,
{
    type Step = MergeStep<F, (ResMut<T, I>, Res<U, J>)>;

    open spec fn resolved(self) -> MergeStep<F, (ResMut<T, I>, Res<U, J>)> {
        MergeStep { f: self, params: PhantomData }
    }

    fn into_merge_step(
        self,
        registry: &Registry<R>,
    ) -> (step: MergeStep<F, (ResMut<T, I>, Res<U, J>)>) {
        MergeStep { f: self, params: PhantomData }
    }
}

impl<
    R,
    T,
    I,
    U,
    J,
    A,
    B,
    D,
    E,
    Out,
    F: FnMut(&mut T, &mut U, &A, &B, &D, &E) -> Out,
> MergeStepCall<R, (&A, &B, &D, &E), Out> for MergeStep<F, (ResMut<T, I>, ResMut<U, J>)> where
    R: Apart<T, I, U, J>,
{
    open spec fn call_pre(&self, world: World<R>, inputs: (&A, &B, &D, &E)) -> bool {
        forall|r0: &mut T, r1: &mut U| *r0 == world.held::<T, I>() && *r1 == world.held::<U, J>()
            ==> #[trigger] call_requires(self.f, (r0, r1, inputs.0, inputs.1, inputs.2, inputs.3))
    }

    open spec fn call_post(
        &self,
        world: World<R>,
        inputs: (&A, &B, &D, &E),
        after: Self,
        world_after: World<R>,
        out: Out,
    ) -> bool {
        &&& after == *self
        &&& exists|held: T, other: U|
            #[trigger] effect_mmpppp(
                self.f,
                world.held::<T, I>(),
                world.held::<U, J>(),
                inputs.0,
                inputs.1,
                inputs.2,
                inputs.3,
                held,
                other,
                out,
            )
                && world_after == world.holding::<T, I>(held).holding::<U, J>(other)
    }

    fn call(&mut self, world: &mut World<R>, inputs: (&A, &B, &D, &E)) -> (out: Out) {
        broadcast use vstd::function::group_function_axioms;

        let (first, second): (&mut T, &mut U) = world.both_mut::<T, I, U, J>();
        let out = (self.f)(&mut *first, &mut *second, inputs.0, inputs.1, inputs.2, inputs.3);
        record(
            effect_mmpppp_fact::<T, U, &A, &B, &D, &E, Out, F>,
            Ghost((
                old(self).f,
                old(world).held::<T, I>(),
                old(world).held::<U, J>(),
                inputs.0,
                inputs.1,
                inputs.2,
                inputs.3,
                *first,
                *second,
                out,
            )),
        );
        assert(effect_mmpppp(
            old(self).f,
            old(world).held::<T, I>(),
            old(world).held::<U, J>(),
            inputs.0,
            inputs.1,
            inputs.2,
            inputs.3,
            *first,
            *second,
            out,
        ));
        out
    }
}

impl<
    R,
    T,
    I,
    U,
    J,
    A,
    B,
    D,
    E,
    Out,
    F: FnMut(&mut T, &mut U, &A, &B, &D, &E) -> Out,
> IntoMergeStep<R, (&A, &B, &D, &E), Out, (ResMut<T, I>, ResMut<U, J>)> for F where
    R: Apart<T, I, U, J>,
{
    type Step = MergeStep<F, (ResMut<T, I>, ResMut<U, J>)>;

    open spec fn resolved(self) -> MergeStep<F, (ResMut<T, I>, ResMut<U, J>)> {
        MergeStep { f: self, params: PhantomData }
    }

    fn into_merge_step(
        self,
        registry: &Registry<R>,
    ) -> (step: MergeStep<F, (ResMut<T, I>, ResMut<U, J>)>) {
        MergeStep { f: self, params: PhantomData }
    }
}

impl<
    R,
    A,
    B,
    D,
    E,
    G,
    Out,
    F: FnMut(&A, &B, &D, &E, &G) -> Out,
> MergeStepCall<R, (&A, &B, &D, &E, &G), Out> for MergeStep<F, ()> {
    open spec fn call_pre(&self, world: World<R>, inputs: (&A, &B, &D, &E, &G)) -> bool {
        call_requires(self.f, (inputs.0, inputs.1, inputs.2, inputs.3, inputs.4))
    }

    open spec fn call_post(
        &self,
        world: World<R>,
        inputs: (&A, &B, &D, &E, &G),
        after: Self,
        world_after: World<R>,
        out: Out,
    ) -> bool {
        &&& after == *self
        &&& world_after == world
        &&& call_ensures(self.f, (inputs.0, inputs.1, inputs.2, inputs.3, inputs.4), out)
    }

    fn call(&mut self, world: &mut World<R>, inputs: (&A, &B, &D, &E, &G)) -> (out: Out) {
        broadcast use vstd::function::group_function_axioms;

        (self.f)(inputs.0, inputs.1, inputs.2, inputs.3, inputs.4)
    }
}

impl<
    R,
    A,
    B,
    D,
    E,
    G,
    Out,
    F: FnMut(&A, &B, &D, &E, &G) -> Out,
> IntoMergeStep<R, (&A, &B, &D, &E, &G), Out, ()> for F {
    type Step = MergeStep<F, ()>;

    open spec fn resolved(self) -> MergeStep<F, ()> {
        MergeStep { f: self, params: PhantomData }
    }

    fn into_merge_step(self, registry: &Registry<R>) -> (step: MergeStep<F, ()>) {
        MergeStep { f: self, params: PhantomData }
    }
}

impl<
    R,
    T,
    I,
    A,
    B,
    D,
    E,
    G,
    Out,
    F: FnMut(&T, &A, &B, &D, &E, &G) -> Out,
> MergeStepCall<R, (&A, &B, &D, &E, &G), Out> for MergeStep<F, Res<T, I>> where
    R: Resource<T, I>,
{
    open spec fn call_pre(&self, world: World<R>, inputs: (&A, &B, &D, &E, &G)) -> bool {
        call_requires(
            self.f,
            (&world.held::<T, I>(), inputs.0, inputs.1, inputs.2, inputs.3, inputs.4),
        )
    }

    open spec fn call_post(
        &self,
        world: World<R>,
        inputs: (&A, &B, &D, &E, &G),
        after: Self,
        world_after: World<R>,
        out: Out,
    ) -> bool {
        &&& after == *self
        &&& world_after == world
        &&& call_ensures(
            self.f,
            (&world.held::<T, I>(), inputs.0, inputs.1, inputs.2, inputs.3, inputs.4),
            out,
        )
    }

    fn call(&mut self, world: &mut World<R>, inputs: (&A, &B, &D, &E, &G)) -> (out: Out) {
        broadcast use vstd::function::group_function_axioms;

        (self.f)(world.resource::<T, I>(), inputs.0, inputs.1, inputs.2, inputs.3, inputs.4)
    }
}

impl<
    R,
    T,
    I,
    A,
    B,
    D,
    E,
    G,
    Out,
    F: FnMut(&T, &A, &B, &D, &E, &G) -> Out,
> IntoMergeStep<R, (&A, &B, &D, &E, &G), Out, Res<T, I>> for F where
    R: Resource<T, I>,
{
    type Step = MergeStep<F, Res<T, I>>;

    open spec fn resolved(self) -> MergeStep<F, Res<T, I>> {
        MergeStep { f: self, params: PhantomData }
    }

    fn into_merge_step(self, registry: &Registry<R>) -> (step: MergeStep<F, Res<T, I>>) {
        MergeStep { f: self, params: PhantomData }
    }
}

impl<
    R,
    T,
    I,
    A,
    B,
    D,
    E,
    G,
    Out,
    F: FnMut(&mut T, &A, &B, &D, &E, &G) -> Out,
> MergeStepCall<R, (&A, &B, &D, &E, &G), Out> for MergeStep<F, ResMut<T, I>> where
    R: Resource<T, I>,
{
    open spec fn call_pre(&self, world: World<R>, inputs: (&A, &B, &D, &E, &G)) -> bool {
        forall|r0: &mut T| *r0 == world.held::<T, I>()
            ==> #[trigger] call_requires(
                self.f,
                (r0, inputs.0, inputs.1, inputs.2, inputs.3, inputs.4),
            )
    }

    open spec fn call_post(
        &self,
        world: World<R>,
        inputs: (&A, &B, &D, &E, &G),
        after: Self,
        world_after: World<R>,
        out: Out,
    ) -> bool {
        &&& after == *self
        &&& exists|held: T|
            #[trigger] effect_mppppp(
                self.f,
                world.held::<T, I>(),
                inputs.0,
                inputs.1,
                inputs.2,
                inputs.3,
                inputs.4,
                held,
                out,
            )
                && world_after == world.holding::<T, I>(held)
    }

    fn call(&mut self, world: &mut World<R>, inputs: (&A, &B, &D, &E, &G)) -> (out: Out) {
        broadcast use vstd::function::group_function_axioms;

        let cell: &mut T = world.resource_mut::<T, I>();
        let out = (self.f)(&mut *cell, inputs.0, inputs.1, inputs.2, inputs.3, inputs.4);
        record(
            effect_mppppp_fact::<T, &A, &B, &D, &E, &G, Out, F>,
            Ghost((
                old(self).f,
                old(world).held::<T, I>(),
                inputs.0,
                inputs.1,
                inputs.2,
                inputs.3,
                inputs.4,
                *cell,
                out,
            )),
        );
        assert(effect_mppppp(
            old(self).f,
            old(world).held::<T, I>(),
            inputs.0,
            inputs.1,
            inputs.2,
            inputs.3,
            inputs.4,
            *cell,
            out,
        ));
        out
    }
}

impl<
    R,
    T,
    I,
    A,
    B,
    D,
    E,
    G,
    Out,
    F: FnMut(&mut T, &A, &B, &D, &E, &G) -> Out,
> IntoMergeStep<R, (&A, &B, &D, &E, &G), Out, ResMut<T, I>> for F where
    R: Resource<T, I>,
{
    type Step = MergeStep<F, ResMut<T, I>>;

    open spec fn resolved(self) -> MergeStep<F, ResMut<T, I>> {
        MergeStep { f: self, params: PhantomData }
    }

    fn into_merge_step(self, registry: &Registry<R>) -> (step: MergeStep<F, ResMut<T, I>>) {
        MergeStep { f: self, params: PhantomData }
    }
}

impl<
    R,
    T,
    I,
    U,
    J,
    A,
    B,
    D,
    E,
    G,
    Out,
    F: FnMut(&T, &U, &A, &B, &D, &E, &G) -> Out,
> MergeStepCall<R, (&A, &B, &D, &E, &G), Out> for MergeStep<F, (Res<T, I>, Res<U, J>)> where
    R: Resource<T, I> + Resource<U, J>,
{
    open spec fn call_pre(&self, world: World<R>, inputs: (&A, &B, &D, &E, &G)) -> bool {
        call_requires(
            self.f,
            (
                &world.held::<T, I>(),
                &world.held::<U, J>(),
                inputs.0,
                inputs.1,
                inputs.2,
                inputs.3,
                inputs.4,
            ),
        )
    }

    open spec fn call_post(
        &self,
        world: World<R>,
        inputs: (&A, &B, &D, &E, &G),
        after: Self,
        world_after: World<R>,
        out: Out,
    ) -> bool {
        &&& after == *self
        &&& world_after == world
        &&& call_ensures(
            self.f,
            (
                &world.held::<T, I>(),
                &world.held::<U, J>(),
                inputs.0,
                inputs.1,
                inputs.2,
                inputs.3,
                inputs.4,
            ),
            out,
        )
    }

    fn call(&mut self, world: &mut World<R>, inputs: (&A, &B, &D, &E, &G)) -> (out: Out) {
        broadcast use vstd::function::group_function_axioms;

        (self.f)(
            world.resource::<T, I>(),
            world.resource::<U, J>(),
            inputs.0,
            inputs.1,
            inputs.2,
            inputs.3,
            inputs.4,
        )
    }
}

impl<
    R,
    T,
    I,
    U,
    J,
    A,
    B,
    D,
    E,
    G,
    Out,
    F: FnMut(&T, &U, &A, &B, &D, &E, &G) -> Out,
> IntoMergeStep<R, (&A, &B, &D, &E, &G), Out, (Res<T, I>, Res<U, J>)> for F where
    R: Resource<T, I> + Resource<U, J>,
{
    type Step = MergeStep<F, (Res<T, I>, Res<U, J>)>;

    open spec fn resolved(self) -> MergeStep<F, (Res<T, I>, Res<U, J>)> {
        MergeStep { f: self, params: PhantomData }
    }

    fn into_merge_step(
        self,
        registry: &Registry<R>,
    ) -> (step: MergeStep<F, (Res<T, I>, Res<U, J>)>) {
        MergeStep { f: self, params: PhantomData }
    }
}

impl<
    R,
    T,
    I,
    U,
    J,
    A,
    B,
    D,
    E,
    G,
    Out,
    F: FnMut(&T, &mut U, &A, &B, &D, &E, &G) -> Out,
> MergeStepCall<R, (&A, &B, &D, &E, &G), Out> for MergeStep<F, (Res<T, I>, ResMut<U, J>)> where
    R: Apart<T, I, U, J>,
{
    open spec fn call_pre(&self, world: World<R>, inputs: (&A, &B, &D, &E, &G)) -> bool {
        forall|r1: &mut U| *r1 == world.held::<U, J>()
            ==> #[trigger] call_requires(
                self.f,
                (&world.held::<T, I>(), r1, inputs.0, inputs.1, inputs.2, inputs.3, inputs.4),
            )
    }

    open spec fn call_post(
        &self,
        world: World<R>,
        inputs: (&A, &B, &D, &E, &G),
        after: Self,
        world_after: World<R>,
        out: Out,
    ) -> bool {
        &&& after == *self
        &&& exists|held: U|
            #[trigger] effect_pmppppp(
                self.f,
                &world.held::<T, I>(),
                world.held::<U, J>(),
                inputs.0,
                inputs.1,
                inputs.2,
                inputs.3,
                inputs.4,
                held,
                out,
            )
                && world_after == world.holding::<U, J>(held)
    }

    fn call(&mut self, world: &mut World<R>, inputs: (&A, &B, &D, &E, &G)) -> (out: Out) {
        broadcast use vstd::function::group_function_axioms;

        let (first, second): (&T, &mut U) = world.beside_mut::<T, I, U, J>();
        let out = (self.f)(first, &mut *second, inputs.0, inputs.1, inputs.2, inputs.3, inputs.4);
        record(
            effect_pmppppp_fact::<&T, U, &A, &B, &D, &E, &G, Out, F>,
            Ghost((
                old(self).f,
                &old(world).held::<T, I>(),
                old(world).held::<U, J>(),
                inputs.0,
                inputs.1,
                inputs.2,
                inputs.3,
                inputs.4,
                *second,
                out,
            )),
        );
        assert(effect_pmppppp(
            old(self).f,
            &old(world).held::<T, I>(),
            old(world).held::<U, J>(),
            inputs.0,
            inputs.1,
            inputs.2,
            inputs.3,
            inputs.4,
            *second,
            out,
        ));
        out
    }
}

impl<
    R,
    T,
    I,
    U,
    J,
    A,
    B,
    D,
    E,
    G,
    Out,
    F: FnMut(&T, &mut U, &A, &B, &D, &E, &G) -> Out,
> IntoMergeStep<R, (&A, &B, &D, &E, &G), Out, (Res<T, I>, ResMut<U, J>)> for F where
    R: Apart<T, I, U, J>,
{
    type Step = MergeStep<F, (Res<T, I>, ResMut<U, J>)>;

    open spec fn resolved(self) -> MergeStep<F, (Res<T, I>, ResMut<U, J>)> {
        MergeStep { f: self, params: PhantomData }
    }

    fn into_merge_step(
        self,
        registry: &Registry<R>,
    ) -> (step: MergeStep<F, (Res<T, I>, ResMut<U, J>)>) {
        MergeStep { f: self, params: PhantomData }
    }
}

impl<
    R,
    T,
    I,
    U,
    J,
    A,
    B,
    D,
    E,
    G,
    Out,
    F: FnMut(&mut T, &U, &A, &B, &D, &E, &G) -> Out,
> MergeStepCall<R, (&A, &B, &D, &E, &G), Out> for MergeStep<F, (ResMut<T, I>, Res<U, J>)> where
    R: Apart<U, J, T, I>,
{
    open spec fn call_pre(&self, world: World<R>, inputs: (&A, &B, &D, &E, &G)) -> bool {
        forall|r0: &mut T| *r0 == world.held::<T, I>()
            ==> #[trigger] call_requires(
                self.f,
                (r0, &world.held::<U, J>(), inputs.0, inputs.1, inputs.2, inputs.3, inputs.4),
            )
    }

    open spec fn call_post(
        &self,
        world: World<R>,
        inputs: (&A, &B, &D, &E, &G),
        after: Self,
        world_after: World<R>,
        out: Out,
    ) -> bool {
        &&& after == *self
        &&& exists|held: T|
            #[trigger] effect_mpppppp(
                self.f,
                world.held::<T, I>(),
                &world.held::<U, J>(),
                inputs.0,
                inputs.1,
                inputs.2,
                inputs.3,
                inputs.4,
                held,
                out,
            )
                && world_after == world.holding::<T, I>(held)
    }

    fn call(&mut self, world: &mut World<R>, inputs: (&A, &B, &D, &E, &G)) -> (out: Out) {
        broadcast use vstd::function::group_function_axioms;

        let (second, first): (&U, &mut T) = world.beside_mut::<U, J, T, I>();
        let out = (self.f)(&mut *first, second, inputs.0, inputs.1, inputs.2, inputs.3, inputs.4);
        record(
            effect_mpppppp_fact::<T, &U, &A, &B, &D, &E, &G, Out, F>,
            Ghost((
                old(self).f,
                old(world).held::<T, I>(),
                &old(world).held::<U, J>(),
                inputs.0,
                inputs.1,
                inputs.2,
                inputs.3,
                inputs.4,
                *first,
                out,
            )),
        );
        assert(effect_mpppppp(
            old(self).f,
            old(world).held::<T, I>(),
            &old(world).held::<U, J>(),
            inputs.0,
            inputs.1,
            inputs.2,
            inputs.3,
            inputs.4,
            *first,
            out,
        ));
        out
    }
}

impl<
    R,
    T,
    I,
    U,
    J,
    A,
    B,
    D,
    E,
    G,
    Out,
    F: FnMut(&mut T, &U, &A, &B, &D, &E, &G) -> Out,
> IntoMergeStep<R, (&A, &B, &D, &E, &G), Out, (ResMut<T, I>, Res<U, J>)> for F where
    R: Apart<U, J, T, I>,
{
    type Step = MergeStep<F, (ResMut<T, I>, Res<U, J>)>;

    open spec fn resolved(self) -> MergeStep<F, (ResMut<T, I>, Res<U, J>)> {
        MergeStep { f: self, params: PhantomData }
    }

    fn into_merge_step(
        self,
        registry: &Registry<R>,
    ) -> (step: MergeStep<F, (ResMut<T, I>, Res<U, J>)>) {
        MergeStep { f: self, params: PhantomData }
    }
}

impl<
    R,
    T,
    I,
    U,
    J,
    A,
    B,
    D,
    E,
    G,
    Out,
    F: FnMut(&mut T, &mut U, &A, &B, &D, &E, &G) -> Out,
> MergeStepCall<R, (&A, &B, &D, &E, &G), Out> for MergeStep<F, (ResMut<T, I>, ResMut<U, J>)> where
    R: Apart<T, I, U, J>,
{
    open spec fn call_pre(&self, world: World<R>, inputs: (&A, &B, &D, &E, &G)) -> bool {
        forall|r0: &mut T, r1: &mut U| *r0 == world.held::<T, I>() && *r1 == world.held::<U, J>()
            ==> #[trigger] call_requires(
                self.f,
                (r0, r1, inputs.0, inputs.1, inputs.2, inputs.3, inputs.4),
            )
    }

    open spec fn call_post(
        &self,
        world: World<R>,
        inputs: (&A, &B, &D, &E, &G),
        after: Self,
        world_after: World<R>,
        out: Out,
    ) -> bool {
        &&& after == *self
        &&& exists|held: T, other: U|
            #[trigger] effect_mmppppp(
                self.f,
                world.held::<T, I>(),
                world.held::<U, J>(),
                inputs.0,
                inputs.1,
                inputs.2,
                inputs.3,
                inputs.4,
                held,
                other,
                out,
            )
                && world_after == world.holding::<T, I>(held).holding::<U, J>(other)
    }

    fn call(&mut self, world: &mut World<R>, inputs: (&A, &B, &D, &E, &G)) -> (out: Out) {
        broadcast use vstd::function::group_function_axioms;

        let (first, second): (&mut T, &mut U) = world.both_mut::<T, I, U, J>();
        let out = (self.f)(
            &mut *first,
            &mut *second,
            inputs.0,
            inputs.1,
            inputs.2,
            inputs.3,
            inputs.4,
        );
        record(
            effect_mmppppp_fact::<T, U, &A, &B, &D, &E, &G, Out, F>,
            Ghost((
                old(self).f,
                old(world).held::<T, I>(),
                old(world).held::<U, J>(),
                inputs.0,
                inputs.1,
                inputs.2,
                inputs.3,
                inputs.4,
                *first,
                *second,
                out,
            )),
        );
        assert(effect_mmppppp(
            old(self).f,
            old(world).held::<T, I>(),
            old(world).held::<U, J>(),
            inputs.0,
            inputs.1,
            inputs.2,
            inputs.3,
            inputs.4,
            *first,
            *second,
            out,
        ));
        out
    }
}

impl<
    R,
    T,
    I,
    U,
    J,
    A,
    B,
    D,
    E,
    G,
    Out,
    F: FnMut(&mut T, &mut U, &A, &B, &D, &E, &G) -> Out,
> IntoMergeStep<R, (&A, &B, &D, &E, &G), Out, (ResMut<T, I>, ResMut<U, J>)> for F where
    R: Apart<T, I, U, J>,
{
    type Step = MergeStep<F, (ResMut<T, I>, ResMut<U, J>)>;

    open spec fn resolved(self) -> MergeStep<F, (ResMut<T, I>, ResMut<U, J>)> {
        MergeStep { f: self, params: PhantomData }
    }

    fn into_merge_step(
        self,
        registry: &Registry<R>,
    ) -> (step: MergeStep<F, (ResMut<T, I>, ResMut<U, J>)>) {
        MergeStep { f: self, params: PhantomData }
    }
}

/// Shows the value to two arms, one after the other, and their results to a merge step.
pub struct MergeNode2<Chain, C0, C1, MS, ForkOut, A0, A1, MOut> {
    pub chain: Chain,
    pub arm0: C0,
    pub arm1: C1,
    pub merge: MS,
    pub marker: PhantomData<(ForkOut, A0, A1, MOut)>,
}

impl<
    R,
    In,
    Chain,
    C0,
    C1,
    MS,
    ForkOut,
    A0,
    A1,
    MOut,
> ChainCall<R, In> for MergeNode2<Chain, C0, C1, MS, ForkOut, A0, A1, MOut> where
    Chain: ChainCall<R, In, Out = ForkOut>,
    C0: for<'a> ChainCall<R, &'a ForkOut, Out = A0>,
    C1: for<'a> ChainCall<R, &'a ForkOut, Out = A1>,
    MS: for<'x> MergeStepCall<R, (&'x A0, &'x A1), MOut>,
{
    type Out = MOut;

    open spec fn call_pre(&self, world: World<R>, input: In) -> bool {
        &&& self.chain.call_pre(world, input)
        &&& forall|chain: Chain, world1: World<R>, forked: ForkOut|
            #[trigger] self.chain.call_post(world, input, chain, world1, forked) ==> {
                &&& self.arm0.call_pre(world1, &forked)
                &&& forall|arm: C0, world2: World<R>, o0: A0|
                    #[trigger] self.arm0.call_post(world1, &forked, arm, world2, o0) ==> {
                        &&& self.arm1.call_pre(world2, &forked)
                        &&& forall|arm: C1, world3: World<R>, o1: A1|
                            #[trigger] self.arm1.call_post(world2, &forked, arm, world3, o1) ==> {
                                self.merge.call_pre(world3, (&o0, &o1))
                            }
                    }
            }
    }

    open spec fn call_post(
        &self,
        world: World<R>,
        input: In,
        after: Self,
        world_after: World<R>,
        out: MOut,
    ) -> bool {
        exists|
            world1: World<R>,
            forked: ForkOut,
            world2: World<R>,
            o0: A0,
            world3: World<R>,
            o1: A1,
        |
            #[trigger] self.chain.call_post(world, input, after.chain, world1, forked)
                && #[trigger] self.arm0.call_post(world1, &forked, after.arm0, world2, o0)
                && #[trigger] self.arm1.call_post(world2, &forked, after.arm1, world3, o1)
                && self.merge.call_post(world3, (&o0, &o1), after.merge, world_after, out)
    }

    fn call(&mut self, world: &mut World<R>, input: In) -> (out: MOut) {
        let forked = self.chain.call(world, input);
        let ghost world1 = *world;
        let o0 = self.arm0.call(world, &forked);
        let ghost world2 = *world;
        let o1 = self.arm1.call(world, &forked);
        let ghost world3 = *world;
        let out = self.merge.call(world, (&o0, &o1));
        assert(old(self).chain.call_post(*old(world), input, self.chain, world1, forked));
        assert(old(self).arm0.call_post(world1, &forked, self.arm0, world2, o0));
        assert(old(self).arm1.call_post(world2, &forked, self.arm1, world3, o1));
        out
    }
}

/// Shows the value to three arms, one after the other, and their results to a merge step.
pub struct MergeNode3<Chain, C0, C1, C2, MS, ForkOut, A0, A1, A2, MOut> {
    pub chain: Chain,
    pub arm0: C0,
    pub arm1: C1,
    pub arm2: C2,
    pub merge: MS,
    pub marker: PhantomData<(ForkOut, A0, A1, A2, MOut)>,
}

impl<
    R,
    In,
    Chain,
    C0,
    C1,
    C2,
    MS,
    ForkOut,
    A0,
    A1,
    A2,
    MOut,
> ChainCall<R, In> for MergeNode3<Chain, C0, C1, C2, MS, ForkOut, A0, A1, A2, MOut> where
    Chain: ChainCall<R, In, Out = ForkOut>,
    C0: for<'a> ChainCall<R, &'a ForkOut, Out = A0>,
    C1: for<'a> ChainCall<R, &'a ForkOut, Out = A1>,
    C2: for<'a> ChainCall<R, &'a ForkOut, Out = A2>,
    MS: for<'x> MergeStepCall<R, (&'x A0, &'x A1, &'x A2), MOut>,
{
    type Out = MOut;

    open spec fn call_pre(&self, world: World<R>, input: In) -> bool {
        &&& self.chain.call_pre(world, input)
        &&& forall|chain: Chain, world1: World<R>, forked: ForkOut|
            #[trigger] self.chain.call_post(world, input, chain, world1, forked) ==> {
                &&& self.arm0.call_pre(world1, &forked)
                &&& forall|arm: C0, world2: World<R>, o0: A0|
                    #[trigger] self.arm0.call_post(world1, &forked, arm, world2, o0) ==> {
                        &&& self.arm1.call_pre(world2, &forked)
                        &&& forall|arm: C1, world3: World<R>, o1: A1|
                            #[trigger] self.arm1.call_post(world2, &forked, arm, world3, o1) ==> {
                                &&& self.arm2.call_pre(world3, &forked)
                                &&& forall|arm: C2, world4: World<R>, o2: A2|
                                    #[trigger] self.arm2.call_post(world3, &forked, arm, world4, o2)
                                        ==> {
                                        self.merge.call_pre(world4, (&o0, &o1, &o2))
                                    }
                            }
                    }
            }
    }

    open spec fn call_post(
        &self,
        world: World<R>,
        input: In,
        after: Self,
        world_after: World<R>,
        out: MOut,
    ) -> bool {
        exists|
            world1: World<R>,
            forked: ForkOut,
            world2: World<R>,
            o0: A0,
            world3: World<R>,
            o1: A1,
            world4: World<R>,
            o2: A2,
        |
            #[trigger] self.chain.call_post(world, input, after.chain, world1, forked)
                && #[trigger] self.arm0.call_post(world1, &forked, after.arm0, world2, o0)
                && #[trigger] self.arm1.call_post(world2, &forked, after.arm1, world3, o1)
                && #[trigger] self.arm2.call_post(world3, &forked, after.arm2, world4, o2)
                && self.merge.call_post(world4, (&o0, &o1, &o2), after.merge, world_after, out)
    }

    fn call(&mut self, world: &mut World<R>, input: In) -> (out: MOut) {
        let forked = self.chain.call(world, input);
        let ghost world1 = *world;
        let o0 = self.arm0.call(world, &forked);
        let ghost world2 = *world;
        let o1 = self.arm1.call(world, &forked);
        let ghost world3 = *world;
        let o2 = self.arm2.call(world, &forked);
        let ghost world4 = *world;
        let out = self.merge.call(world, (&o0, &o1, &o2));
        assert(old(self).chain.call_post(*old(world), input, self.chain, world1, forked));
        assert(old(self).arm0.call_post(world1, &forked, self.arm0, world2, o0));
        assert(old(self).arm1.call_post(world2, &forked, self.arm1, world3, o1));
        assert(old(self).arm2.call_post(world3, &forked, self.arm2, world4, o2));
        out
    }
}

/// Shows the value to four arms, one after the other, and their results to a merge step.
pub struct MergeNode4<Chain, C0, C1, C2, C3, MS, ForkOut, A0, A1, A2, A3, MOut> {
    pub chain: Chain,
    pub arm0: C0,
    pub arm1: C1,
    pub arm2: C2,
    pub arm3: C3,
    pub merge: MS,
    pub marker: PhantomData<(ForkOut, A0, A1, A2, A3, MOut)>,
}

impl<
    R,
    In,
    Chain,
    C0,
    C1,
    C2,
    C3,
    MS,
    ForkOut,
    A0,
    A1,
    A2,
    A3,
    MOut,
> ChainCall<R, In> for MergeNode4<Chain, C0, C1, C2, C3, MS, ForkOut, A0, A1, A2, A3, MOut> where
    Chain: ChainCall<R, In, Out = ForkOut>,
    C0: for<'a> ChainCall<R, &'a ForkOut, Out = A0>,
    C1: for<'a> ChainCall<R, &'a ForkOut, Out = A1>,
    C2: for<'a> ChainCall<R, &'a ForkOut, Out = A2>,
    C3: for<'a> ChainCall<R, &'a ForkOut, Out = A3>,
    MS: for<'x> MergeStepCall<R, (&'x A0, &'x A1, &'x A2, &'x A3), MOut>,
{
    type Out = MOut;

    open spec fn call_pre(&self, world: World<R>, input: In) -> bool {
        &&& self.chain.call_pre(world, input)
        &&& forall|chain: Chain, world1: World<R>, forked: ForkOut|
            #[trigger] self.chain.call_post(world, input, chain, world1, forked) ==> {
                &&& self.arm0.call_pre(world1, &forked)
                &&& forall|arm: C0, world2: World<R>, o0: A0|
                    #[trigger] self.arm0.call_post(world1, &forked, arm, world2, o0) ==> {
                        &&& self.arm1.call_pre(world2, &forked)
                        &&& forall|arm: C1, world3: World<R>, o1: A1|
                            #[trigger] self.arm1.call_post(world2, &forked, arm, world3, o1) ==> {
                                &&& self.arm2.call_pre(world3, &forked)
                                &&& forall|arm: C2, world4: World<R>, o2: A2|
                                    #[trigger] self.arm2.call_post(world3, &forked, arm, world4, o2)
                                        ==> {
                                        &&& self.arm3.call_pre(world4, &forked)
                                        &&& forall|arm: C3, world5: World<R>, o3: A3|
                                            #[trigger] self.arm3.call_post(world4, &forked, arm, world5, o3)
                                                ==> {
                                                self.merge.call_pre(world5, (&o0, &o1, &o2, &o3))
                                            }
                                    }
                            }
                    }
            }
    }

    open spec fn call_post(
        &self,
        world: World<R>,
        input: In,
        after: Self,
        world_after: World<R>,
        out: MOut,
    ) -> bool {
        exists|
            world1: World<R>,
            forked: ForkOut,
            world2: World<R>,
            o0: A0,
            world3: World<R>,
            o1: A1,
            world4: World<R>,
            o2: A2,
            world5: World<R>,
            o3: A3,
        |
            #[trigger] self.chain.call_post(world, input, after.chain, world1, forked)
                && #[trigger] self.arm0.call_post(world1, &forked, after.arm0, world2, o0)
                && #[trigger] self.arm1.call_post(world2, &forked, after.arm1, world3, o1)
                && #[trigger] self.arm2.call_post(world3, &forked, after.arm2, world4, o2)
                && #[trigger] self.arm3.call_post(world4, &forked, after.arm3, world5, o3)
                && self.merge.call_post(world5, (&o0, &o1, &o2, &o3), after.merge, world_after, out)
    }

    fn call(&mut self, world: &mut World<R>, input: In) -> (out: MOut) {
        let forked = self.chain.call(world, input);
        let ghost world1 = *world;
        let o0 = self.arm0.call(world, &forked);
        let ghost world2 = *world;
        let o1 = self.arm1.call(world, &forked);
        let ghost world3 = *world;
        let o2 = self.arm2.call(world, &forked);
        let ghost world4 = *world;
        let o3 = self.arm3.call(world, &forked);
        let ghost world5 = *world;
        let out = self.merge.call(world, (&o0, &o1, &o2, &o3));
        assert(old(self).chain.call_post(*old(world), input, self.chain, world1, forked));
        assert(old(self).arm0.call_post(world1, &forked, self.arm0, world2, o0));
        assert(old(self).arm1.call_post(world2, &forked, self.arm1, world3, o1));
        assert(old(self).arm2.call_post(world3, &forked, self.arm2, world4, o2));
        assert(old(self).arm3.call_post(world4, &forked, self.arm3, world5, o3));
        out
    }
}

/// Shows the value to two arms, one after the other.
pub struct JoinNode2<Chain, C0, C1, ForkOut> {
    pub chain: Chain,
    pub arm0: C0,
    pub arm1: C1,
    pub marker: PhantomData<ForkOut>,
}

impl<R, In, Chain, C0, C1, ForkOut> ChainCall<R, In> for JoinNode2<Chain, C0, C1, ForkOut> where
    Chain: ChainCall<R, In, Out = ForkOut>,
    C0: for<'a> ChainCall<R, &'a ForkOut, Out = ()>,
    C1: for<'a> ChainCall<R, &'a ForkOut, Out = ()>,
{
    type Out = ();

    open spec fn call_pre(&self, world: World<R>, input: In) -> bool {
        &&& self.chain.call_pre(world, input)
        &&& forall|chain: Chain, world1: World<R>, forked: ForkOut|
            #[trigger] self.chain.call_post(world, input, chain, world1, forked) ==> {
                &&& self.arm0.call_pre(world1, &forked)
                &&& forall|arm: C0, world2: World<R>, o0: ()|
                    #[trigger] self.arm0.call_post(world1, &forked, arm, world2, o0) ==> {
                        self.arm1.call_pre(world2, &forked)
                    }
            }
    }

    open spec fn call_post(
        &self,
        world: World<R>,
        input: In,
        after: Self,
        world_after: World<R>,
        out: (),
    ) -> bool {
        exists|world1: World<R>, forked: ForkOut, world2: World<R>|
            #[trigger] self.chain.call_post(world, input, after.chain, world1, forked)
                && #[trigger] self.arm0.call_post(world1, &forked, after.arm0, world2, ())
                && self.arm1.call_post(world2, &forked, after.arm1, world_after, ())
    }

    fn call(&mut self, world: &mut World<R>, input: In) -> (out: ()) {
        let forked = self.chain.call(world, input);
        let ghost world1 = *world;
        self.arm0.call(world, &forked);
        let ghost world2 = *world;
        self.arm1.call(world, &forked);
        assert(old(self).chain.call_post(*old(world), input, self.chain, world1, forked));
        assert(old(self).arm0.call_post(world1, &forked, self.arm0, world2, ()));
        assert(old(self).arm1.call_post(world2, &forked, self.arm1, *world, ()));
    }
}

/// Shows the value to three arms, one after the other.
pub struct JoinNode3<Chain, C0, C1, C2, ForkOut> {
    pub chain: Chain,
    pub arm0: C0,
    pub arm1: C1,
    pub arm2: C2,
    pub marker: PhantomData<ForkOut>,
}

impl<
    R,
    In,
    Chain,
    C0,
    C1,
    C2,
    ForkOut,
> ChainCall<R, In> for JoinNode3<Chain, C0, C1, C2, ForkOut> where
    Chain: ChainCall<R, In, Out = ForkOut>,
    C0: for<'a> ChainCall<R, &'a ForkOut, Out = ()>,
    C1: for<'a> ChainCall<R, &'a ForkOut, Out = ()>,
    C2: for<'a> ChainCall<R, &'a ForkOut, Out = ()>,
{
    type Out = ();

    open spec fn call_pre(&self, world: World<R>, input: In) -> bool {
        &&& self.chain.call_pre(world, input)
        &&& forall|chain: Chain, world1: World<R>, forked: ForkOut|
            #[trigger] self.chain.call_post(world, input, chain, world1, forked) ==> {
                &&& self.arm0.call_pre(world1, &forked)
                &&& forall|arm: C0, world2: World<R>, o0: ()|
                    #[trigger] self.arm0.call_post(world1, &forked, arm, world2, o0) ==> {
                        &&& self.arm1.call_pre(world2, &forked)
                        &&& forall|arm: C1, world3: World<R>, o1: ()|
                            #[trigger] self.arm1.call_post(world2, &forked, arm, world3, o1) ==> {
                                self.arm2.call_pre(world3, &forked)
                            }
                    }
            }
    }

    open spec fn call_post(
        &self,
        world: World<R>,
        input: In,
        after: Self,
        world_after: World<R>,
        out: (),
    ) -> bool {
        exists|world1: World<R>, forked: ForkOut, world2: World<R>, world3: World<R>|
            #[trigger] self.chain.call_post(world, input, after.chain, world1, forked)
                && #[trigger] self.arm0.call_post(world1, &forked, after.arm0, world2, ())
                && #[trigger] self.arm1.call_post(world2, &forked, after.arm1, world3, ())
                && self.arm2.call_post(world3, &forked, after.arm2, world_after, ())
    }

    fn call(&mut self, world: &mut World<R>, input: In) -> (out: ()) {
        let forked = self.chain.call(world, input);
        let ghost world1 = *world;
        self.arm0.call(world, &forked);
        let ghost world2 = *world;
        self.arm1.call(world, &forked);
        let ghost world3 = *world;
        self.arm2.call(world, &forked);
        assert(old(self).chain.call_post(*old(world), input, self.chain, world1, forked));
        assert(old(self).arm0.call_post(world1, &forked, self.arm0, world2, ()));
        assert(old(self).arm1.call_post(world2, &forked, self.arm1, world3, ()));
        assert(old(self).arm2.call_post(world3, &forked, self.arm2, *world, ()));
    }
}

/// Shows the value to four arms, one after the other.
pub struct JoinNode4<Chain, C0, C1, C2, C3, ForkOut> {
    pub chain: Chain,
    pub arm0: C0,
    pub arm1: C1,
    pub arm2: C2,
    pub arm3: C3,
    pub marker: PhantomData<ForkOut>,
}

impl<
    R,
    In,
    Chain,
    C0,
    C1,
    C2,
    C3,
    ForkOut,
> ChainCall<R, In> for JoinNode4<Chain, C0, C1, C2, C3, ForkOut> where
    Chain: ChainCall<R, In, Out = ForkOut>,
    C0: for<'a> ChainCall<R, &'a ForkOut, Out = ()>,
    C1: for<'a> ChainCall<R, &'a ForkOut, Out = ()>,
    C2: for<'a> ChainCall<R, &'a ForkOut, Out = ()>,
    C3: for<'a> ChainCall<R, &'a ForkOut, Out = ()>,
{
    type Out = ();

    open spec fn call_pre(&self, world: World<R>, input: In) -> bool {
        &&& self.chain.call_pre(world, input)
        &&& forall|chain: Chain, world1: World<R>, forked: ForkOut|
            #[trigger] self.chain.call_post(world, input, chain, world1, forked) ==> {
                &&& self.arm0.call_pre(world1, &forked)
                &&& forall|arm: C0, world2: World<R>, o0: ()|
                    #[trigger] self.arm0.call_post(world1, &forked, arm, world2, o0) ==> {
                        &&& self.arm1.call_pre(world2, &forked)
                        &&& forall|arm: C1, world3: World<R>, o1: ()|
                            #[trigger] self.arm1.call_post(world2, &forked, arm, world3, o1) ==> {
                                &&& self.arm2.call_pre(world3, &forked)
                                &&& forall|arm: C2, world4: World<R>, o2: ()|
                                    #[trigger] self.arm2.call_post(world3, &forked, arm, world4, o2)
                                        ==> {
                                        self.arm3.call_pre(world4, &forked)
                                    }
                            }
                    }
            }
    }

    open spec fn call_post(
        &self,
        world: World<R>,
        input: In,
        after: Self,
        world_after: World<R>,
        out: (),
    ) -> bool {
        exists|
            world1: World<R>,
            forked: ForkOut,
            world2: World<R>,
            world3: World<R>,
            world4: World<R>,
        |
            #[trigger] self.chain.call_post(world, input, after.chain, world1, forked)
                && #[trigger] self.arm0.call_post(world1, &forked, after.arm0, world2, ())
                && #[trigger] self.arm1.call_post(world2, &forked, after.arm1, world3, ())
                && #[trigger] self.arm2.call_post(world3, &forked, after.arm2, world4, ())
                && self.arm3.call_post(world4, &forked, after.arm3, world_after, ())
    }

    fn call(&mut self, world: &mut World<R>, input: In) -> (out: ()) {
        let forked = self.chain.call(world, input);
        let ghost world1 = *world;
        self.arm0.call(world, &forked);
        let ghost world2 = *world;
        self.arm1.call(world, &forked);
        let ghost world3 = *world;
        self.arm2.call(world, &forked);
        let ghost world4 = *world;
        self.arm3.call(world, &forked);
        assert(old(self).chain.call_post(*old(world), input, self.chain, world1, forked));
        assert(old(self).arm0.call_post(world1, &forked, self.arm0, world2, ()));
        assert(old(self).arm1.call_post(world2, &forked, self.arm1, world3, ()));
        assert(old(self).arm2.call_post(world3, &forked, self.arm2, world4, ()));
        assert(old(self).arm3.call_post(world4, &forked, self.arm3, *world, ()));
    }
}

/// Each of the two arms is shown the value at the fork, whatever the arms before it gave, and the
/// merge step is shown what each of them gave: an arm that gives `None` or an error keeps no
/// other from being called.
pub proof fn lemma_arms_of_merge2<
    R,
    In,
    ForkOut,
    A0,
    A1,
    MOut,
    Chain: ChainCall<R, In, Out = ForkOut>,
    C0: for<'a> ChainCall<R, &'a ForkOut, Out = A0>,
    C1: for<'a> ChainCall<R, &'a ForkOut, Out = A1>,
    MS: for<'x> MergeStepCall<R, (&'x A0, &'x A1), MOut>,
>(
    node: MergeNode2<Chain, C0, C1, MS, ForkOut, A0, A1, MOut>,
    world: World<R>,
    input: In,
    after: MergeNode2<Chain, C0, C1, MS, ForkOut, A0, A1, MOut>,
    world_after: World<R>,
    out: MOut,
)
    requires
        node.call_post(world, input, after, world_after, out),
    ensures
        exists|
            world1: World<R>,
            forked: ForkOut,
            world2: World<R>,
            o0: A0,
            world3: World<R>,
            o1: A1,
        |
            #[trigger] node.chain.call_post(world, input, after.chain, world1, forked)
                && #[trigger] node.arm0.call_post(world1, &forked, after.arm0, world2, o0)
                && #[trigger] node.arm1.call_post(world2, &forked, after.arm1, world3, o1)
                && node.merge.call_post(world3, (&o0, &o1), after.merge, world_after, out),
{
}

/// Each of the two arms is shown the value at the fork, one after the other.
pub proof fn lemma_arms_of_join2<
    R,
    In,
    ForkOut,
    Chain: ChainCall<R, In, Out = ForkOut>,
    C0: for<'a> ChainCall<R, &'a ForkOut, Out = ()>,
    C1: for<'a> ChainCall<R, &'a ForkOut, Out = ()>,
>(
    node: JoinNode2<Chain, C0, C1, ForkOut>,
    world: World<R>,
    input: In,
    after: JoinNode2<Chain, C0, C1, ForkOut>,
    world_after: World<R>,
)
    requires
        node.call_post(world, input, after, world_after, ()),
    ensures
        exists|world1: World<R>, forked: ForkOut, world2: World<R>|
            #[trigger] node.chain.call_post(world, input, after.chain, world1, forked)
                && #[trigger] node.arm0.call_post(world1, &forked, after.arm0, world2, ())
                && node.arm1.call_post(world2, &forked, after.arm1, world_after, ()),
{
}

/// Each of the three arms is shown the value at the fork, whatever the arms before it gave, and the
/// merge step is shown what each of them gave: an arm that gives `None` or an error keeps no
/// other from being called.
pub proof fn lemma_arms_of_merge3<
    R,
    In,
    ForkOut,
    A0,
    A1,
    A2,
    MOut,
    Chain: ChainCall<R, In, Out = ForkOut>,
    C0: for<'a> ChainCall<R, &'a ForkOut, Out = A0>,
    C1: for<'a> ChainCall<R, &'a ForkOut, Out = A1>,
    C2: for<'a> ChainCall<R, &'a ForkOut, Out = A2>,
    MS: for<'x> MergeStepCall<R, (&'x A0, &'x A1, &'x A2), MOut>,
>(
    node: MergeNode3<Chain, C0, C1, C2, MS, ForkOut, A0, A1, A2, MOut>,
    world: World<R>,
    input: In,
    after: MergeNode3<Chain, C0, C1, C2, MS, ForkOut, A0, A1, A2, MOut>,
    world_after: World<R>,
    out: MOut,
)
    requires
        node.call_post(world, input, after, world_after, out),
    ensures
        exists|
            world1: World<R>,
            forked: ForkOut,
            world2: World<R>,
            o0: A0,
            world3: World<R>,
            o1: A1,
            world4: World<R>,
            o2: A2,
        |
            #[trigger] node.chain.call_post(world, input, after.chain, world1, forked)
                && #[trigger] node.arm0.call_post(world1, &forked, after.arm0, world2, o0)
                && #[trigger] node.arm1.call_post(world2, &forked, after.arm1, world3, o1)
                && #[trigger] node.arm2.call_post(world3, &forked, after.arm2, world4, o2)
                && node.merge.call_post(world4, (&o0, &o1, &o2), after.merge, world_after, out),
{
}

/// Each of the three arms is shown the value at the fork, one after the other.
pub proof fn lemma_arms_of_join3<
    R,
    In,
    ForkOut,
    Chain: ChainCall<R, In, Out = ForkOut>,
    C0: for<'a> ChainCall<R, &'a ForkOut, Out = ()>,
    C1: for<'a> ChainCall<R, &'a ForkOut, Out = ()>,
    C2: for<'a> ChainCall<R, &'a ForkOut, Out = ()>,
>(
    node: JoinNode3<Chain, C0, C1, C2, ForkOut>,
    world: World<R>,
    input: In,
    after: JoinNode3<Chain, C0, C1, C2, ForkOut>,
    world_after: World<R>,
)
    requires
        node.call_post(world, input, after, world_after, ()),
    ensures
        exists|world1: World<R>, forked: ForkOut, world2: World<R>, world3: World<R>|
            #[trigger] node.chain.call_post(world, input, after.chain, world1, forked)
                && #[trigger] node.arm0.call_post(world1, &forked, after.arm0, world2, ())
                && #[trigger] node.arm1.call_post(world2, &forked, after.arm1, world3, ())
                && node.arm2.call_post(world3, &forked, after.arm2, world_after, ()),
{
}

/// Each of the four arms is shown the value at the fork, whatever the arms before it gave, and the
/// merge step is shown what each of them gave: an arm that gives `None` or an error keeps no
/// other from being called.
pub proof fn lemma_arms_of_merge4<
    R,
    In,
    ForkOut,
    A0,
    A1,
    A2,
    A3,
    MOut,
    Chain: ChainCall<R, In, Out = ForkOut>,
    C0: for<'a> ChainCall<R, &'a ForkOut, Out = A0>,
    C1: for<'a> ChainCall<R, &'a ForkOut, Out = A1>,
    C2: for<'a> ChainCall<R, &'a ForkOut, Out = A2>,
    C3: for<'a> ChainCall<R, &'a ForkOut, Out = A3>,
    MS: for<'x> MergeStepCall<R, (&'x A0, &'x A1, &'x A2, &'x A3), MOut>,
>(
    node: MergeNode4<Chain, C0, C1, C2, C3, MS, ForkOut, A0, A1, A2, A3, MOut>,
    world: World<R>,
    input: In,
    after: MergeNode4<Chain, C0, C1, C2, C3, MS, ForkOut, A0, A1, A2, A3, MOut>,
    world_after: World<R>,
    out: MOut,
)
    requires
        node.call_post(world, input, after, world_after, out),
    ensures
        exists|
            world1: World<R>,
            forked: ForkOut,
            world2: World<R>,
            o0: A0,
            world3: World<R>,
            o1: A1,
            world4: World<R>,
            o2: A2,
            world5: World<R>,
            o3: A3,
        |
            #[trigger] node.chain.call_post(world, input, after.chain, world1, forked)
                && #[trigger] node.arm0.call_post(world1, &forked, after.arm0, world2, o0)
                && #[trigger] node.arm1.call_post(world2, &forked, after.arm1, world3, o1)
                && #[trigger] node.arm2.call_post(world3, &forked, after.arm2, world4, o2)
                && #[trigger] node.arm3.call_post(world4, &forked, after.arm3, world5, o3)
                && node.merge.call_post(
                    world5,
                    (&o0, &o1, &o2, &o3),
                    after.merge,
                    world_after,
                    out,
                ),
{
}

/// Each of the four arms is shown the value at the fork, one after the other.
pub proof fn lemma_arms_of_join4<
    R,
    In,
    ForkOut,
    Chain: ChainCall<R, In, Out = ForkOut>,
    C0: for<'a> ChainCall<R, &'a ForkOut, Out = ()>,
    C1: for<'a> ChainCall<R, &'a ForkOut, Out = ()>,
    C2: for<'a> ChainCall<R, &'a ForkOut, Out = ()>,
    C3: for<'a> ChainCall<R, &'a ForkOut, Out = ()>,
>(
    node: JoinNode4<Chain, C0, C1, C2, C3, ForkOut>,
    world: World<R>,
    input: In,
    after: JoinNode4<Chain, C0, C1, C2, C3, ForkOut>,
    world_after: World<R>,
)
    requires
        node.call_post(world, input, after, world_after, ()),
    ensures
        exists|
            world1: World<R>,
            forked: ForkOut,
            world2: World<R>,
            world3: World<R>,
            world4: World<R>,
        |
            #[trigger] node.chain.call_post(world, input, after.chain, world1, forked)
                && #[trigger] node.arm0.call_post(world1, &forked, after.arm0, world2, ())
                && #[trigger] node.arm1.call_post(world2, &forked, after.arm1, world3, ())
                && #[trigger] node.arm2.call_post(world3, &forked, after.arm2, world4, ())
                && node.arm3.call_post(world4, &forked, after.arm3, world_after, ()),
{
}

} // verus!
