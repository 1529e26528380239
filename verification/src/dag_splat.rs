//! Graph steps that are shown the parts of a tuple.
use crate::dag::{DagArm, DagArmSeed, DagChain};
use crate::merge::{IntoMergeStep, MergeStepCall};
use crate::node::ChainCall;
use crate::world::{Registry, World};
use std::marker::PhantomData;
use vstd::prelude::*;

verus! {

/// Shows the parts of a 2-tuple to a step.
pub struct SplatThenNode2<Chain, MS, T0, T1, NewOut> {
    pub chain: Chain,
    pub merge: MS,
    pub marker: PhantomData<(T0, T1, NewOut)>,
}

impl<
    R,
    In,
    Chain,
    MS,
    T0,
    T1,
    NewOut,
> ChainCall<R, In> for SplatThenNode2<Chain, MS, T0, T1, NewOut> where
    Chain: ChainCall<R, In, Out = (T0, T1)>,
    MS: for<'x> MergeStepCall<R, (&'x T0, &'x T1), NewOut>,
{
    type Out = NewOut;

    open spec fn call_pre(&self, world: World<R>, input: In) -> bool {
        &&& self.chain.call_pre(world, input)
        &&& forall|chain: Chain, world_mid: World<R>, mid: (T0, T1)|
            #[trigger] self.chain.call_post(world, input, chain, world_mid, mid)
                ==> self.merge.call_pre(world_mid, (&mid.0, &mid.1))
    }

    open spec fn call_post(
        &self,
        world: World<R>,
        input: In,
        after: Self,
        world_after: World<R>,
        out: NewOut,
    ) -> bool {
        exists|world_mid: World<R>, mid: (T0, T1)|
            #[trigger] self.chain.call_post(world, input, after.chain, world_mid, mid)
                && self.merge.call_post(world_mid, (&mid.0, &mid.1), after.merge, world_after, out)
    }

    fn call(&mut self, world: &mut World<R>, input: In) -> (out: NewOut) {
        let mid = self.chain.call(world, input);
        let ghost world_mid = *world;
        let out = self.merge.call(world, (&mid.0, &mid.1));
        assert(old(self).chain.call_post(*old(world), input, self.chain, world_mid, mid));
        out
    }
}

/// The start of an arm that is shown the parts of a 2-tuple.
pub struct SplatArmStartNode2<MS, T0, T1, Out> {
    pub merge: MS,
    pub marker: PhantomData<(T0, T1, Out)>,
}

impl<
    'inp,
    R,
    T0,
    T1,
    MS,
    Out,
> ChainCall<R, &'inp (T0, T1)> for SplatArmStartNode2<MS, T0, T1, Out> where
    MS: for<'x> MergeStepCall<R, (&'x T0, &'x T1), Out>,
{
    type Out = Out;

    open spec fn call_pre(&self, world: World<R>, input: &'inp (T0, T1)) -> bool {
        self.merge.call_pre(world, (&input.0, &input.1))
    }

    open spec fn call_post(
        &self,
        world: World<R>,
        input: &'inp (T0, T1),
        after: Self,
        world_after: World<R>,
        out: Out,
    ) -> bool {
        self.merge.call_post(world, (&input.0, &input.1), after.merge, world_after, out)
    }

    fn call(&mut self, world: &mut World<R>, input: &'inp (T0, T1)) -> (out: Out) {
        self.merge.call(world, (&input.0, &input.1))
    }
}

/// A chain whose 2-tuple is taken apart for the next step.
#[must_use]
pub struct DagSplatChain2<In, T0, T1, Chain> {
    pub chain: Chain,
    pub marker: PhantomData<(In, T0, T1)>,
}

impl<In, T0: 'static, T1: 'static, Chain> DagSplatChain2<In, T0, T1, Chain> {
    pub fn then<
        R,
        NewOut,
        Params,
        S: IntoMergeStep<R, (&'static T0, &'static T1), NewOut, Params>,
    >(
        self,
        f: S,
        registry: &Registry<R>,
    ) -> (next: DagChain<In, NewOut, SplatThenNode2<Chain, S::Step, T0, T1, NewOut>>) where
        S::Step: for<'x> MergeStepCall<R, (&'x T0, &'x T1), NewOut>,
        ensures
            next.chain.chain == self.chain,
            next.chain.merge == f.resolved(),
    {
        DagChain {
            chain: SplatThenNode2 {
                chain: self.chain,
                merge: f.into_merge_step(registry),
                marker: PhantomData,
            },
            marker: PhantomData,
        }
    }
}

impl<In, T0, T1, Chain> DagChain<In, (T0, T1), Chain> {
    /// Takes the value apart for the next step.
    pub fn splat(self) -> (next: DagSplatChain2<In, T0, T1, Chain>)
        ensures
            next.chain == self.chain,
    {
        DagSplatChain2 { chain: self.chain, marker: PhantomData }
    }
}

/// An arm whose 2-tuple is taken apart for the next step.
#[must_use]
pub struct DagSplatArm2<In, T0, T1, Chain> {
    pub chain: Chain,
    pub marker: PhantomData<(In, T0, T1)>,
}

impl<In, T0: 'static, T1: 'static, Chain> DagSplatArm2<In, T0, T1, Chain> {
    pub fn then<
        R,
        NewOut,
        Params,
        S: IntoMergeStep<R, (&'static T0, &'static T1), NewOut, Params>,
    >(
        self,
        f: S,
        registry: &Registry<R>,
    ) -> (next: DagArm<In, NewOut, SplatThenNode2<Chain, S::Step, T0, T1, NewOut>>) where
        S::Step: for<'x> MergeStepCall<R, (&'x T0, &'x T1), NewOut>,
        ensures
            next.chain.chain == self.chain,
            next.chain.merge == f.resolved(),
    {
        DagArm {
            chain: SplatThenNode2 {
                chain: self.chain,
                merge: f.into_merge_step(registry),
                marker: PhantomData,
            },
            marker: PhantomData,
        }
    }
}

impl<In, T0, T1, Chain> DagArm<In, (T0, T1), Chain> {
    /// Takes the value apart for the next step.
    pub fn splat(self) -> (next: DagSplatArm2<In, T0, T1, Chain>)
        ensures
            next.chain == self.chain,
    {
        DagSplatArm2 { chain: self.chain, marker: PhantomData }
    }
}

/// The start of an arm whose 2-tuple is taken apart for the first step.
#[must_use]
pub struct DagSplatArmStart2<T0, T1> {
    pub marker: PhantomData<(T0, T1)>,
}

impl<T0: 'static, T1: 'static> DagSplatArmStart2<T0, T1> {
    pub fn then<
        R,
        NewOut,
        Params,
        S: IntoMergeStep<R, (&'static T0, &'static T1), NewOut, Params>,
    >(
        self,
        f: S,
        registry: &Registry<R>,
    ) -> (next: DagArm<(T0, T1), NewOut, SplatArmStartNode2<S::Step, T0, T1, NewOut>>) where
        S::Step: for<'x> MergeStepCall<R, (&'x T0, &'x T1), NewOut>,
        ensures
            next.chain.merge == f.resolved(),
    {
        DagArm {
            chain: SplatArmStartNode2 { merge: f.into_merge_step(registry), marker: PhantomData },
            marker: PhantomData,
        }
    }
}

impl<T0: 'static, T1: 'static> DagArmSeed<(T0, T1)> {
    /// Takes the value apart for the first step.
    pub fn splat(self) -> (start: DagSplatArmStart2<T0, T1>) {
        DagSplatArmStart2 { marker: PhantomData }
    }
}

/// Shows the parts of a 3-tuple to a step.
pub struct SplatThenNode3<Chain, MS, T0, T1, T2, NewOut> {
    pub chain: Chain,
    pub merge: MS,
    pub marker: PhantomData<(T0, T1, T2, NewOut)>,
}

impl<
    R,
    In,
    Chain,
    MS,
    T0,
    T1,
    T2,
    NewOut,
> ChainCall<R, In> for SplatThenNode3<Chain, MS, T0, T1, T2, NewOut> where
    Chain: ChainCall<R, In, Out = (T0, T1, T2)>,
    MS: for<'x> MergeStepCall<R, (&'x T0, &'x T1, &'x T2), NewOut>,
{
    type Out = NewOut;

    open spec fn call_pre(&self, world: World<R>, input: In) -> bool {
        &&& self.chain.call_pre(world, input)
        &&& forall|chain: Chain, world_mid: World<R>, mid: (T0, T1, T2)|
            #[trigger] self.chain.call_post(world, input, chain, world_mid, mid)
                ==> self.merge.call_pre(world_mid, (&mid.0, &mid.1, &mid.2))
    }

    open spec fn call_post(
        &self,
        world: World<R>,
        input: In,
        after: Self,
        world_after: World<R>,
        out: NewOut,
    ) -> bool {
        exists|world_mid: World<R>, mid: (T0, T1, T2)|
            #[trigger] self.chain.call_post(world, input, after.chain, world_mid, mid)
                && self.merge.call_post(
                    world_mid,
                    (&mid.0, &mid.1, &mid.2),
                    after.merge,
                    world_after,
                    out,
                )
    }

    fn call(&mut self, world: &mut World<R>, input: In) -> (out: NewOut) {
        let mid = self.chain.call(world, input);
        let ghost world_mid = *world;
        let out = self.merge.call(world, (&mid.0, &mid.1, &mid.2));
        assert(old(self).chain.call_post(*old(world), input, self.chain, world_mid, mid));
        out
    }
}

/// The start of an arm that is shown the parts of a 3-tuple.
pub struct SplatArmStartNode3<MS, T0, T1, T2, Out> {
    pub merge: MS,
    pub marker: PhantomData<(T0, T1, T2, Out)>,
}

impl<
    'inp,
    R,
    T0,
    T1,
    T2,
    MS,
    Out,
> ChainCall<R, &'inp (T0, T1, T2)> for SplatArmStartNode3<MS, T0, T1, T2, Out> where
    MS: for<'x> MergeStepCall<R, (&'x T0, &'x T1, &'x T2), Out>,
{
    type Out = Out;

    open spec fn call_pre(&self, world: World<R>, input: &'inp (T0, T1, T2)) -> bool {
        self.merge.call_pre(world, (&input.0, &input.1, &input.2))
    }

    open spec fn call_post(
        &self,
        world: World<R>,
        input: &'inp (T0, T1, T2),
        after: Self,
        world_after: World<R>,
        out: Out,
    ) -> bool {
        self.merge.call_post(world, (&input.0, &input.1, &input.2), after.merge, world_after, out)
    }

    fn call(&mut self, world: &mut World<R>, input: &'inp (T0, T1, T2)) -> (out: Out) {
        self.merge.call(world, (&input.0, &input.1, &input.2))
    }
}

/// A chain whose 3-tuple is taken apart for the next step.
#[must_use]
pub struct DagSplatChain3<In, T0, T1, T2, Chain> {
    pub chain: Chain,
    pub marker: PhantomData<(In, T0, T1, T2)>,
}

impl<In, T0: 'static, T1: 'static, T2: 'static, Chain> DagSplatChain3<In, T0, T1, T2, Chain> {
    pub fn then<
        R,
        NewOut,
        Params,
        S: IntoMergeStep<R, (&'static T0, &'static T1, &'static T2), NewOut, Params>,
    >(
        self,
        f: S,
        registry: &Registry<R>,
    ) -> (next: DagChain<In, NewOut, SplatThenNode3<Chain, S::Step, T0, T1, T2, NewOut>>) where
        S::Step: for<'x> MergeStepCall<R, (&'x T0, &'x T1, &'x T2), NewOut>,
        ensures
            next.chain.chain == self.chain,
            next.chain.merge == f.resolved(),
    {
        DagChain {
            chain: SplatThenNode3 {
                chain: self.chain,
                merge: f.into_merge_step(registry),
                marker: PhantomData,
            },
            marker: PhantomData,
        }
    }
}

impl<In, T0, T1, T2, Chain> DagChain<In, (T0, T1, T2), Chain> {
    /// Takes the value apart for the next step.
    pub fn splat(self) -> (next: DagSplatChain3<In, T0, T1, T2, Chain>)
        ensures
            next.chain == self.chain,
    {
        DagSplatChain3 { chain: self.chain, marker: PhantomData }
    }
}

/// An arm whose 3-tuple is taken apart for the next step.
#[must_use]
pub struct DagSplatArm3<In, T0, T1, T2, Chain> {
    pub chain: Chain,
    pub marker: PhantomData<(In, T0, T1, T2)>,
}

impl<In, T0: 'static, T1: 'static, T2: 'static, Chain> DagSplatArm3<In, T0, T1, T2, Chain> {
    pub fn then<
        R,
        NewOut,
        Params,
        S: IntoMergeStep<R, (&'static T0, &'static T1, &'static T2), NewOut, Params>,
    >(
        self,
        f: S,
        registry: &Registry<R>,
    ) -> (next: DagArm<In, NewOut, SplatThenNode3<Chain, S::Step, T0, T1, T2, NewOut>>) where
        S::Step: for<'x> MergeStepCall<R, (&'x T0, &'x T1, &'x T2), NewOut>,
        ensures
            next.chain.chain == self.chain,
            next.chain.merge == f.resolved(),
    {
        DagArm {
            chain: SplatThenNode3 {
                chain: self.chain,
                merge: f.into_merge_step(registry),
                marker: PhantomData,
            },
            marker: PhantomData,
        }
    }
}

impl<In, T0, T1, T2, Chain> DagArm<In, (T0, T1, T2), Chain> {
    /// Takes the value apart for the next step.
    pub fn splat(self) -> (next: DagSplatArm3<In, T0, T1, T2, Chain>)
        ensures
            next.chain == self.chain,
    {
        DagSplatArm3 { chain: self.chain, marker: PhantomData }
    }
}

/// The start of an arm whose 3-tuple is taken apart for the first step.
#[must_use]
pub struct DagSplatArmStart3<T0, T1, T2> {
    pub marker: PhantomData<(T0, T1, T2)>,
}

impl<T0: 'static, T1: 'static, T2: 'static> DagSplatArmStart3<T0, T1, T2> {
    pub fn then<
        R,
        NewOut,
        Params,
        S: IntoMergeStep<R, (&'static T0, &'static T1, &'static T2), NewOut, Params>,
    >(
        self,
        f: S,
        registry: &Registry<R>,
    ) -> (next: DagArm<(T0, T1, T2), NewOut, SplatArmStartNode3<S::Step, T0, T1, T2, NewOut>>) where
        S::Step: for<'x> MergeStepCall<R, (&'x T0, &'x T1, &'x T2), NewOut>,
        ensures
            next.chain.merge == f.resolved(),
    {
        DagArm {
            chain: SplatArmStartNode3 { merge: f.into_merge_step(registry), marker: PhantomData },
            marker: PhantomData,
        }
    }
}

impl<T0: 'static, T1: 'static, T2: 'static> DagArmSeed<(T0, T1, T2)> {
    /// Takes the value apart for the first step.
    pub fn splat(self) -> (start: DagSplatArmStart3<T0, T1, T2>) {
        DagSplatArmStart3 { marker: PhantomData }
    }
}

/// Shows the parts of a 4-tuple to a step.
pub struct SplatThenNode4<Chain, MS, T0, T1, T2, T3, NewOut> {
    pub chain: Chain,
    pub merge: MS,
    pub marker: PhantomData<(T0, T1, T2, T3, NewOut)>,
}

impl<
    R,
    In,
    Chain,
    MS,
    T0,
    T1,
    T2,
    T3,
    NewOut,
> ChainCall<R, In> for SplatThenNode4<Chain, MS, T0, T1, T2, T3, NewOut> where
    Chain: ChainCall<R, In, Out = (T0, T1, T2, T3)>,
    MS: for<'x> MergeStepCall<R, (&'x T0, &'x T1, &'x T2, &'x T3), NewOut>,
{
    type Out = NewOut;

    open spec fn call_pre(&self, world: World<R>, input: In) -> bool {
        &&& self.chain.call_pre(world, input)
        &&& forall|chain: Chain, world_mid: World<R>, mid: (T0, T1, T2, T3)|
            #[trigger] self.chain.call_post(world, input, chain, world_mid, mid)
                ==> self.merge.call_pre(world_mid, (&mid.0, &mid.1, &mid.2, &mid.3))
    }

    open spec fn call_post(
        &self,
        world: World<R>,
        input: In,
        after: Self,
        world_after: World<R>,
        out: NewOut,
    ) -> bool {
        exists|world_mid: World<R>, mid: (T0, T1, T2, T3)|
            #[trigger] self.chain.call_post(world, input, after.chain, world_mid, mid)
                && self.merge.call_post(
                    world_mid,
                    (&mid.0, &mid.1, &mid.2, &mid.3),
                    after.merge,
                    world_after,
                    out,
                )
    }

    fn call(&mut self, world: &mut World<R>, input: In) -> (out: NewOut) {
        let mid = self.chain.call(world, input);
        let ghost world_mid = *world;
        let out = self.merge.call(world, (&mid.0, &mid.1, &mid.2, &mid.3));
        assert(old(self).chain.call_post(*old(world), input, self.chain, world_mid, mid));
        out
    }
}

/// The start of an arm that is shown the parts of a 4-tuple.
pub struct SplatArmStartNode4<MS, T0, T1, T2, T3, Out> {
    pub merge: MS,
    pub marker: PhantomData<(T0, T1, T2, T3, Out)>,
}

impl<
    'inp,
    R,
    T0,
    T1,
    T2,
    T3,
    MS,
    Out,
> ChainCall<R, &'inp (T0, T1, T2, T3)> for SplatArmStartNode4<MS, T0, T1, T2, T3, Out> where
    MS: for<'x> MergeStepCall<R, (&'x T0, &'x T1, &'x T2, &'x T3), Out>,
{
    type Out = Out;

    open spec fn call_pre(&self, world: World<R>, input: &'inp (T0, T1, T2, T3)) -> bool {
        self.merge.call_pre(world, (&input.0, &input.1, &input.2, &input.3))
    }

    open spec fn call_post(
        &self,
        world: World<R>,
        input: &'inp (T0, T1, T2, T3),
        after: Self,
        world_after: World<R>,
        out: Out,
    ) -> bool {
        self.merge.call_post(
            world,
            (&input.0, &input.1, &input.2, &input.3),
            after.merge,
            world_after,
            out,
        )
    }

    fn call(&mut self, world: &mut World<R>, input: &'inp (T0, T1, T2, T3)) -> (out: Out) {
        self.merge.call(world, (&input.0, &input.1, &input.2, &input.3))
    }
}

/// A chain whose 4-tuple is taken apart for the next step.
#[must_use]
pub struct DagSplatChain4<In, T0, T1, T2, T3, Chain> {
    pub chain: Chain,
    pub marker: PhantomData<(In, T0, T1, T2, T3)>,
}

impl<
    In,
    T0: 'static,
    T1: 'static,
    T2: 'static,
    T3: 'static,
    Chain,
> DagSplatChain4<In, T0, T1, T2, T3, Chain> {
    pub fn then<
        R,
        NewOut,
        Params,
        S: IntoMergeStep<R, (&'static T0, &'static T1, &'static T2, &'static T3), NewOut, Params>,
    >(
        self,
        f: S,
        registry: &Registry<R>,
    ) -> (next: DagChain<In, NewOut, SplatThenNode4<Chain, S::Step, T0, T1, T2, T3, NewOut>>) where
        S::Step: for<'x> MergeStepCall<R, (&'x T0, &'x T1, &'x T2, &'x T3), NewOut>,
        ensures
            next.chain.chain == self.chain,
            next.chain.merge == f.resolved(),
    {
        DagChain {
            chain: SplatThenNode4 {
                chain: self.chain,
                merge: f.into_merge_step(registry),
                marker: PhantomData,
            },
            marker: PhantomData,
        }
    }
}

impl<In, T0, T1, T2, T3, Chain> DagChain<In, (T0, T1, T2, T3), Chain> {
    /// Takes the value apart for the next step.
    pub fn splat(self) -> (next: DagSplatChain4<In, T0, T1, T2, T3, Chain>)
        ensures
            next.chain == self.chain,
    {
        DagSplatChain4 { chain: self.chain, marker: PhantomData }
    }
}

/// An arm whose 4-tuple is taken apart for the next step.
#[must_use]
pub struct DagSplatArm4<In, T0, T1, T2, T3, Chain> {
    pub chain: Chain,
    pub marker: PhantomData<(In, T0, T1, T2, T3)>,
}

impl<
    In,
    T0: 'static,
    T1: 'static,
    T2: 'static,
    T3: 'static,
    Chain,
> DagSplatArm4<In, T0, T1, T2, T3, Chain> {
    pub fn then<
        R,
        NewOut,
        Params,
        S: IntoMergeStep<R, (&'static T0, &'static T1, &'static T2, &'static T3), NewOut, Params>,
    >(
        self,
        f: S,
        registry: &Registry<R>,
    ) -> (next: DagArm<In, NewOut, SplatThenNode4<Chain, S::Step, T0, T1, T2, T3, NewOut>>) where
        S::Step: for<'x> MergeStepCall<R, (&'x T0, &'x T1, &'x T2, &'x T3), NewOut>,
        ensures
            next.chain.chain == self.chain,
            next.chain.merge == f.resolved(),
    {
        DagArm {
            chain: SplatThenNode4 {
                chain: self.chain,
                merge: f.into_merge_step(registry),
                marker: PhantomData,
            },
            marker: PhantomData,
        }
    }
}

impl<In, T0, T1, T2, T3, Chain> DagArm<In, (T0, T1, T2, T3), Chain> {
    /// Takes the value apart for the next step.
    pub fn splat(self) -> (next: DagSplatArm4<In, T0, T1, T2, T3, Chain>)
        ensures
            next.chain == self.chain,
    {
        DagSplatArm4 { chain: self.chain, marker: PhantomData }
    }
}

/// The start of an arm whose 4-tuple is taken apart for the first step.
#[must_use]
pub struct DagSplatArmStart4<T0, T1, T2, T3> {
    pub marker: PhantomData<(T0, T1, T2, T3)>,
}

impl<T0: 'static, T1: 'static, T2: 'static, T3: 'static> DagSplatArmStart4<T0, T1, T2, T3> {
    pub fn then<
        R,
        NewOut,
        Params,
        S: IntoMergeStep<R, (&'static T0, &'static T1, &'static T2, &'static T3), NewOut, Params>,
    >(
        self,
        f: S,
        registry: &Registry<R>,
    ) -> (next: DagArm<
        (T0, T1, T2, T3),
        NewOut,
        SplatArmStartNode4<S::Step, T0, T1, T2, T3, NewOut>,
    >) where
        S::Step: for<'x> MergeStepCall<R, (&'x T0, &'x T1, &'x T2, &'x T3), NewOut>,
        ensures
            next.chain.merge == f.resolved(),
    {
        DagArm {
            chain: SplatArmStartNode4 { merge: f.into_merge_step(registry), marker: PhantomData },
            marker: PhantomData,
        }
    }
}

impl<T0: 'static, T1: 'static, T2: 'static, T3: 'static> DagArmSeed<(T0, T1, T2, T3)> {
    /// Takes the value apart for the first step.
    pub fn splat(self) -> (start: DagSplatArmStart4<T0, T1, T2, T3>) {
        DagSplatArmStart4 { marker: PhantomData }
    }
}

/// Shows the parts of a 5-tuple to a step.
pub struct SplatThenNode5<Chain, MS, T0, T1, T2, T3, T4, NewOut> {
    pub chain: Chain,
    pub merge: MS,
    pub marker: PhantomData<(T0, T1, T2, T3, T4, NewOut)>,
}

impl<
    R,
    In,
    Chain,
    MS,
    T0,
    T1,
    T2,
    T3,
    T4,
    NewOut,
> ChainCall<R, In> for SplatThenNode5<Chain, MS, T0, T1, T2, T3, T4, NewOut> where
    Chain: ChainCall<R, In, Out = (T0, T1, T2, T3, T4)>,
    MS: for<'x> MergeStepCall<R, (&'x T0, &'x T1, &'x T2, &'x T3, &'x T4), NewOut>,
{
    type Out = NewOut;

    open spec fn call_pre(&self, world: World<R>, input: In) -> bool {
        &&& self.chain.call_pre(world, input)
        &&& forall|chain: Chain, world_mid: World<R>, mid: (T0, T1, T2, T3, T4)|
            #[trigger] self.chain.call_post(world, input, chain, world_mid, mid)
                ==> self.merge.call_pre(world_mid, (&mid.0, &mid.1, &mid.2, &mid.3, &mid.4))
    }

    open spec fn call_post(
        &self,
        world: World<R>,
        input: In,
        after: Self,
        world_after: World<R>,
        out: NewOut,
    ) -> bool {
        exists|world_mid: World<R>, mid: (T0, T1, T2, T3, T4)|
            #[trigger] self.chain.call_post(world, input, after.chain, world_mid, mid)
                && self.merge.call_post(
                    world_mid,
                    (&mid.0, &mid.1, &mid.2, &mid.3, &mid.4),
                    after.merge,
                    world_after,
                    out,
                )
    }

    fn call(&mut self, world: &mut World<R>, input: In) -> (out: NewOut) {
        let mid = self.chain.call(world, input);
        let ghost world_mid = *world;
        let out = self.merge.call(world, (&mid.0, &mid.1, &mid.2, &mid.3, &mid.4));
        assert(old(self).chain.call_post(*old(world), input, self.chain, world_mid, mid));
        out
    }
}

/// The start of an arm that is shown the parts of a 5-tuple.
pub struct SplatArmStartNode5<MS, T0, T1, T2, T3, T4, Out> {
    pub merge: MS,
    pub marker: PhantomData<(T0, T1, T2, T3, T4, Out)>,
}

impl<
    'inp,
    R,
    T0,
    T1,
    T2,
    T3,
    T4,
    MS,
    Out,
> ChainCall<R, &'inp (T0, T1, T2, T3, T4)> for SplatArmStartNode5<MS, T0, T1, T2, T3, T4, Out> where
    MS: for<'x> MergeStepCall<R, (&'x T0, &'x T1, &'x T2, &'x T3, &'x T4), Out>,
{
    type Out = Out;

    open spec fn call_pre(&self, world: World<R>, input: &'inp (T0, T1, T2, T3, T4)) -> bool {
        self.merge.call_pre(world, (&input.0, &input.1, &input.2, &input.3, &input.4))
    }

    open spec fn call_post(
        &self,
        world: World<R>,
        input: &'inp (T0, T1, T2, T3, T4),
        after: Self,
        world_after: World<R>,
        out: Out,
    ) -> bool {
        self.merge.call_post(
            world,
            (&input.0, &input.1, &input.2, &input.3, &input.4),
            after.merge,
            world_after,
            out,
        )
    }

    fn call(&mut self, world: &mut World<R>, input: &'inp (T0, T1, T2, T3, T4)) -> (out: Out) {
        self.merge.call(world, (&input.0, &input.1, &input.2, &input.3, &input.4))
    }
}

/// A chain whose 5-tuple is taken apart for the next step.
#[must_use]
pub struct DagSplatChain5<In, T0, T1, T2, T3, T4, Chain> {
    pub chain: Chain,
    pub marker: PhantomData<(In, T0, T1, T2, T3, T4)>,
}

impl<
    In,
    T0: 'static,
    T1: 'static,
    T2: 'static,
    T3: 'static,
    T4: 'static,
    Chain,
> DagSplatChain5<In, T0, T1, T2, T3, T4, Chain> {
    pub fn then<
        R,
        NewOut,
        Params,
        S: IntoMergeStep<
            R,
            (&'static T0, &'static T1, &'static T2, &'static T3, &'static T4),
            NewOut,
            Params,
        >,
    >(
        self,
        f: S,
        registry: &Registry<R>,
    ) -> (next: DagChain<
        In,
        NewOut,
        SplatThenNode5<Chain, S::Step, T0, T1, T2, T3, T4, NewOut>,
    >) where
        S::Step: for<'x> MergeStepCall<R, (&'x T0, &'x T1, &'x T2, &'x T3, &'x T4), NewOut>,
        ensures
            next.chain.chain == self.chain,
            next.chain.merge == f.resolved(),
    {
        DagChain {
            chain: SplatThenNode5 {
                chain: self.chain,
                merge: f.into_merge_step(registry),
                marker: PhantomData,
            },
            marker: PhantomData,
        }
    }
}

impl<In, T0, T1, T2, T3, T4, Chain> DagChain<In, (T0, T1, T2, T3, T4), Chain> {
    /// Takes the value apart for the next step.
    pub fn splat(self) -> (next: DagSplatChain5<In, T0, T1, T2, T3, T4, Chain>)
        ensures
            next.chain == self.chain,
    {
        DagSplatChain5 { chain: self.chain, marker: PhantomData }
    }
}

/// An arm whose 5-tuple is taken apart for the next step.
#[must_use]
pub struct DagSplatArm5<In, T0, T1, T2, T3, T4, Chain> {
    pub chain: Chain,
    pub marker: PhantomData<(In, T0, T1, T2, T3, T4)>,
}

impl<
    In,
    T0: 'static,
    T1: 'static,
    T2: 'static,
    T3: 'static,
    T4: 'static,
    Chain,
> DagSplatArm5<In, T0, T1, T2, T3, T4, Chain> {
    pub fn then<
        R,
        NewOut,
        Params,
        S: IntoMergeStep<
            R,
            (&'static T0, &'static T1, &'static T2, &'static T3, &'static T4),
            NewOut,
            Params,
        >,
    >(
        self,
        f: S,
        registry: &Registry<R>,
    ) -> (next: DagArm<
        In,
        NewOut,
        SplatThenNode5<Chain, S::Step, T0, T1, T2, T3, T4, NewOut>,
    >) where
        S::Step: for<'x> MergeStepCall<R, (&'x T0, &'x T1, &'x T2, &'x T3, &'x T4), NewOut>,
        ensures
            next.chain.chain == self.chain,
            next.chain.merge == f.resolved(),
    {
        DagArm {
            chain: SplatThenNode5 {
                chain: self.chain,
                merge: f.into_merge_step(registry),
                marker: PhantomData,
            },
            marker: PhantomData,
        }
    }
}

impl<In, T0, T1, T2, T3, T4, Chain> DagArm<In, (T0, T1, T2, T3, T4), Chain> {
    /// Takes the value apart for the next step.
    pub fn splat(self) -> (next: DagSplatArm5<In, T0, T1, T2, T3, T4, Chain>)
        ensures
            next.chain == self.chain,
    {
        DagSplatArm5 { chain: self.chain, marker: PhantomData }
    }
}

/// The start of an arm whose 5-tuple is taken apart for the first step.
#[must_use]
pub struct DagSplatArmStart5<T0, T1, T2, T3, T4> {
    pub marker: PhantomData<(T0, T1, T2, T3, T4)>,
}

impl<
    T0: 'static,
    T1: 'static,
    T2: 'static,
    T3: 'static,
    T4: 'static,
> DagSplatArmStart5<T0, T1, T2, T3, T4> {
    pub fn then<
        R,
        NewOut,
        Params,
        S: IntoMergeStep<
            R,
            (&'static T0, &'static T1, &'static T2, &'static T3, &'static T4),
            NewOut,
            Params,
        >,
    >(
        self,
        f: S,
        registry: &Registry<R>,
    ) -> (next: DagArm<
        (T0, T1, T2, T3, T4),
        NewOut,
        SplatArmStartNode5<S::Step, T0, T1, T2, T3, T4, NewOut>,
    >) where
        S::Step: for<'x> MergeStepCall<R, (&'x T0, &'x T1, &'x T2, &'x T3, &'x T4), NewOut>,
        ensures
            next.chain.merge == f.resolved(),
    {
        DagArm {
            chain: SplatArmStartNode5 { merge: f.into_merge_step(registry), marker: PhantomData },
            marker: PhantomData,
        }
    }
}

impl<
    T0: 'static,
    T1: 'static,
    T2: 'static,
    T3: 'static,
    T4: 'static,
> DagArmSeed<(T0, T1, T2, T3, T4)> {
    /// Takes the value apart for the first step.
    pub fn splat(self) -> (start: DagSplatArmStart5<T0, T1, T2, T3, T4>) {
        DagSplatArmStart5 { marker: PhantomData }
    }
}

} // verus!
