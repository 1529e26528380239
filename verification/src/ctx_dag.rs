//! Data flow graphs whose steps are handed a context besides the world.
use crate::ctx_merge::{
    CtxJoinNode2, CtxJoinNode3, CtxJoinNode4, CtxMergeNode2, CtxMergeNode3, CtxMergeNode4,
    CtxMergeStepCall, IntoCtxMergeStep,
};
use crate::ctx_node::{
    CtxChainCall, CtxDagAndThenOptionNode, CtxDagAndThenResultNode, CtxDagCatchNode,
    CtxDagMapOptionNode, CtxDagMapResultNode, CtxDagThenNode, CtxDiscardOptionNode, CtxFilterNode,
    CtxGuardNode, CtxIdentityNode, CtxInspectErrNode, CtxInspectOptionNode, CtxInspectResultNode,
    CtxMapErrNode, CtxOkNode, CtxOkOrNode, CtxOnNoneNode, CtxTapNode, CtxThenNode,
    CtxUnwrapOrElseOptionNode, CtxUnwrapOrOptionNode, CtxUnwrapOrResultNode,
};
use crate::ctx_step::{CtxStepCall, IntoCtxProducer, IntoCtxRefStep, IntoCtxStep};
use crate::world::{Registry, World};
use std::marker::PhantomData;
use vstd::prelude::*;

verus! {

/// The start of a graph with a context.
#[must_use]
pub struct CtxDagBuilder<C, In> {
    pub marker: PhantomData<(C, In)>,
}

impl<C, In> CtxDagBuilder<C, In> {
    pub fn new() -> (builder: Self) {
        CtxDagBuilder { marker: PhantomData }
    }

    /// Adds the first step, which consumes the input.
    pub fn root<R, Out, Params, S: IntoCtxStep<R, C, In, Out, Params>>(
        self,
        f: S,
        registry: &Registry<R>,
    ) -> (next: CtxDagChain<C, In, Out, CtxThenNode<CtxIdentityNode, S::Step>>)
        ensures
            next.chain.prev == (CtxIdentityNode {}),
            next.chain.step == f.resolved(),
    {
        CtxDagChain {
            chain: CtxThenNode {
                prev: CtxIdentityNode {},
                step: f.into_ctx_step(registry),
            },
            marker: PhantomData,
        }
    }
}

impl<C, In> Default for CtxDagBuilder<C, In> {
    fn default() -> (builder: Self) {
        CtxDagBuilder { marker: PhantomData }
    }
}

/// The main chain of a graph with a context, under construction.
#[must_use]
pub struct CtxDagChain<C, In, Out, Chain> {
    pub chain: Chain,
    pub marker: PhantomData<(C, In, Out)>,
}

/// An arm of a graph with a context, under construction.
#[must_use]
pub struct CtxDagArm<C, In, Out, Chain> {
    pub chain: Chain,
    pub marker: PhantomData<(C, In, Out)>,
}

/// The start of an arm: it is shown the value at the fork.
#[must_use]
pub struct CtxDagArmSeed<C, In> {
    pub marker: PhantomData<(C, In)>,
}

impl<C, In> CtxDagArmSeed<C, In> {
    pub fn new() -> (seed: Self) {
        CtxDagArmSeed { marker: PhantomData }
    }
}

impl<C, In: 'static> CtxDagArmSeed<C, In> {
    /// Adds the arm's first step.
    pub fn then<R, Out, Params, S: IntoCtxStep<R, C, &'static In, Out, Params>>(
        self,
        f: S,
        registry: &Registry<R>,
    ) -> (next: CtxDagArm<C, In, Out, CtxThenNode<CtxIdentityNode, S::Step>>) where
        S::Step: for<'a> CtxStepCall<R, C, &'a In, Out = Out>,
        ensures
            next.chain.prev == (CtxIdentityNode {}),
            next.chain.step == f.resolved(),
    {
        CtxDagArm {
            chain: CtxThenNode {
                prev: CtxIdentityNode {},
                step: f.into_ctx_step(registry),
            },
            marker: PhantomData,
        }
    }
}

impl<C, In> Default for CtxDagArmSeed<C, In> {
    fn default() -> (seed: Self) {
        CtxDagArmSeed { marker: PhantomData }
    }
}

/// A fork on the main chain, with the arms added so far.
#[must_use]
pub struct CtxDagChainFork<C, In, ForkOut, Chain, Arms> {
    pub chain: Chain,
    pub arms: Arms,
    pub marker: PhantomData<(C, In, ForkOut)>,
}

/// A fork within an arm, with the arms added so far.
#[must_use]
pub struct CtxDagArmFork<C, In, ForkOut, Chain, Arms> {
    pub chain: Chain,
    pub arms: Arms,
    pub marker: PhantomData<(C, In, ForkOut)>,
}

impl<C, In, Out, Chain> CtxDagChain<C, In, Out, Chain> {
    /// Forks: the arms added next are shown the value, one after the other.
    pub fn fork(self) -> (next: CtxDagChainFork<C, In, Out, Chain, ()>)
        ensures
            next.chain == self.chain,
    {
        CtxDagChainFork { chain: self.chain, arms: (), marker: PhantomData }
    }
}

impl<C, In, Out, Chain> CtxDagArm<C, In, Out, Chain> {
    /// Forks: the arms added next are shown the value, one after the other.
    pub fn fork(self) -> (next: CtxDagArmFork<C, In, Out, Chain, ()>)
        ensures
            next.chain == self.chain,
    {
        CtxDagArmFork { chain: self.chain, arms: (), marker: PhantomData }
    }
}

impl<C, In, ForkOut, Chain> CtxDagChainFork<C, In, ForkOut, Chain, ()> {
    /// Adds the first arm.
    pub fn arm<AOut, ACh>(
        self,
        f: impl FnOnce(CtxDagArmSeed<C, ForkOut>) -> CtxDagArm<C, ForkOut, AOut, ACh>,
    ) -> (next: CtxDagChainFork<C, In, ForkOut, Chain, (CtxDagArm<C, ForkOut, AOut, ACh>,)>)
        requires
            forall|seed: CtxDagArmSeed<C, ForkOut>| call_requires(f, (seed,)),
        ensures
            next.chain == self.chain,
            exists|seed: CtxDagArmSeed<C, ForkOut>| call_ensures(f, (seed,), next.arms.0),
    {
        let seed = CtxDagArmSeed { marker: PhantomData };
        let ghost given = seed;
        let arm = f(seed);
        let next = CtxDagChainFork { chain: self.chain, arms: (arm,), marker: PhantomData };
        assert(call_ensures(f, (given,), next.arms.0));
        next
    }
}

impl<
    C,
    In,
    ForkOut,
    Chain,
    A0,
    K0,
> CtxDagChainFork<C, In, ForkOut, Chain, (CtxDagArm<C, ForkOut, A0, K0>,)> {
    /// Adds the second arm.
    pub fn arm<AOut, ACh>(
        self,
        f: impl FnOnce(CtxDagArmSeed<C, ForkOut>) -> CtxDagArm<C, ForkOut, AOut, ACh>,
    ) -> (next: CtxDagChainFork<
        C,
        In,
        ForkOut,
        Chain,
        (CtxDagArm<C, ForkOut, A0, K0>, CtxDagArm<C, ForkOut, AOut, ACh>),
    >)
        requires
            forall|seed: CtxDagArmSeed<C, ForkOut>| call_requires(f, (seed,)),
        ensures
            next.chain == self.chain,
            next.arms.0 == self.arms.0,
            exists|seed: CtxDagArmSeed<C, ForkOut>| call_ensures(f, (seed,), next.arms.1),
    {
        let seed = CtxDagArmSeed { marker: PhantomData };
        let ghost given = seed;
        let arm = f(seed);
        let (a0,) = self.arms;
        let next = CtxDagChainFork { chain: self.chain, arms: (a0, arm), marker: PhantomData };
        assert(call_ensures(f, (given,), next.arms.1));
        next
    }
}

impl<
    C,
    In,
    ForkOut,
    Chain,
    A0,
    K0,
    A1,
    K1,
> CtxDagChainFork<
    C,
    In,
    ForkOut,
    Chain,
    (CtxDagArm<C, ForkOut, A0, K0>, CtxDagArm<C, ForkOut, A1, K1>),
> {
    /// Adds the third arm.
    pub fn arm<AOut, ACh>(
        self,
        f: impl FnOnce(CtxDagArmSeed<C, ForkOut>) -> CtxDagArm<C, ForkOut, AOut, ACh>,
    ) -> (next: CtxDagChainFork<
        C,
        In,
        ForkOut,
        Chain,
        (
            CtxDagArm<C, ForkOut, A0, K0>,
            CtxDagArm<C, ForkOut, A1, K1>,
            CtxDagArm<C, ForkOut, AOut, ACh>,
        ),
    >)
        requires
            forall|seed: CtxDagArmSeed<C, ForkOut>| call_requires(f, (seed,)),
        ensures
            next.chain == self.chain,
            next.arms.0 == self.arms.0,
            next.arms.1 == self.arms.1,
            exists|seed: CtxDagArmSeed<C, ForkOut>| call_ensures(f, (seed,), next.arms.2),
    {
        let seed = CtxDagArmSeed { marker: PhantomData };
        let ghost given = seed;
        let arm = f(seed);
        let (a0, a1) = self.arms;
        let next = CtxDagChainFork { chain: self.chain, arms: (a0, a1, arm), marker: PhantomData };
        assert(call_ensures(f, (given,), next.arms.2));
        next
    }
}

impl<
    C,
    In,
    ForkOut,
    Chain,
    A0,
    K0,
    A1,
    K1,
    A2,
    K2,
> CtxDagChainFork<
    C,
    In,
    ForkOut,
    Chain,
    (CtxDagArm<C, ForkOut, A0, K0>, CtxDagArm<C, ForkOut, A1, K1>, CtxDagArm<C, ForkOut, A2, K2>),
> {
    /// Adds the fourth arm.
    pub fn arm<AOut, ACh>(
        self,
        f: impl FnOnce(CtxDagArmSeed<C, ForkOut>) -> CtxDagArm<C, ForkOut, AOut, ACh>,
    ) -> (next: CtxDagChainFork<
        C,
        In,
        ForkOut,
        Chain,
        (
            CtxDagArm<C, ForkOut, A0, K0>,
            CtxDagArm<C, ForkOut, A1, K1>,
            CtxDagArm<C, ForkOut, A2, K2>,
            CtxDagArm<C, ForkOut, AOut, ACh>,
        ),
    >)
        requires
            forall|seed: CtxDagArmSeed<C, ForkOut>| call_requires(f, (seed,)),
        ensures
            next.chain == self.chain,
            next.arms.0 == self.arms.0,
            next.arms.1 == self.arms.1,
            next.arms.2 == self.arms.2,
            exists|seed: CtxDagArmSeed<C, ForkOut>| call_ensures(f, (seed,), next.arms.3),
    {
        let seed = CtxDagArmSeed { marker: PhantomData };
        let ghost given = seed;
        let arm = f(seed);
        let (a0, a1, a2) = self.arms;
        let next = CtxDagChainFork { chain: self.chain, arms: (a0, a1, a2, arm), marker: PhantomData };
        assert(call_ensures(f, (given,), next.arms.3));
        next
    }
}

impl<
    C,
    In,
    ForkOut: 'static,
    Chain,
    A0: 'static,
    K0,
    A1: 'static,
    K1,
> CtxDagChainFork<
    C,
    In,
    ForkOut,
    Chain,
    (CtxDagArm<C, ForkOut, A0, K0>, CtxDagArm<C, ForkOut, A1, K1>),
> {
    /// Merges the two arms with a step that is shown their results.
    pub fn merge<
        R,
        MOut,
        Params,
        S: IntoCtxMergeStep<R, C, (&'static A0, &'static A1), MOut, Params>,
    >(
        self,
        f: S,
        registry: &Registry<R>,
    ) -> (next: CtxDagChain<
        C,
        In,
        MOut,
        CtxMergeNode2<Chain, K0, K1, S::Step, ForkOut, A0, A1, MOut>,
    >) where
        S::Step: for<'x> CtxMergeStepCall<R, C, (&'x A0, &'x A1), MOut>,
        ensures
            next.chain.chain == self.chain,
            next.chain.arm0 == self.arms.0.chain,
            next.chain.arm1 == self.arms.1.chain,
            next.chain.merge == f.resolved(),
    {
        let (a0, a1) = self.arms;
        CtxDagChain {
            chain: CtxMergeNode2 {
                chain: self.chain,
                arm0: a0.chain,
                arm1: a1.chain,
                merge: f.into_ctx_merge_step(registry),
                marker: PhantomData,
            },
            marker: PhantomData,
        }
    }
}

impl<
    C,
    In,
    ForkOut,
    Chain,
    K0,
    K1,
> CtxDagChainFork<
    C,
    In,
    ForkOut,
    Chain,
    (CtxDagArm<C, ForkOut, (), K0>, CtxDagArm<C, ForkOut, (), K1>),
> {
    /// Joins the two arms, none of which gives a value.
    pub fn join(self) -> (next: CtxDagChain<C, In, (), CtxJoinNode2<Chain, K0, K1, ForkOut>>)
        ensures
            next.chain.chain == self.chain,
            next.chain.arm0 == self.arms.0.chain,
            next.chain.arm1 == self.arms.1.chain,
    {
        let (a0, a1) = self.arms;
        CtxDagChain {
            chain: CtxJoinNode2 {
                chain: self.chain,
                arm0: a0.chain,
                arm1: a1.chain,
                marker: PhantomData,
            },
            marker: PhantomData,
        }
    }
}

impl<
    C,
    In,
    ForkOut: 'static,
    Chain,
    A0: 'static,
    K0,
    A1: 'static,
    K1,
    A2: 'static,
    K2,
> CtxDagChainFork<
    C,
    In,
    ForkOut,
    Chain,
    (CtxDagArm<C, ForkOut, A0, K0>, CtxDagArm<C, ForkOut, A1, K1>, CtxDagArm<C, ForkOut, A2, K2>),
> {
    /// Merges the three arms with a step that is shown their results.
    pub fn merge<
        R,
        MOut,
        Params,
        S: IntoCtxMergeStep<R, C, (&'static A0, &'static A1, &'static A2), MOut, Params>,
    >(
        self,
        f: S,
        registry: &Registry<R>,
    ) -> (next: CtxDagChain<
        C,
        In,
        MOut,
        CtxMergeNode3<Chain, K0, K1, K2, S::Step, ForkOut, A0, A1, A2, MOut>,
    >) where
        S::Step: for<'x> CtxMergeStepCall<R, C, (&'x A0, &'x A1, &'x A2), MOut>,
        ensures
            next.chain.chain == self.chain,
            next.chain.arm0 == self.arms.0.chain,
            next.chain.arm1 == self.arms.1.chain,
            next.chain.arm2 == self.arms.2.chain,
            next.chain.merge == f.resolved(),
    {
        let (a0, a1, a2) = self.arms;
        CtxDagChain {
            chain: CtxMergeNode3 {
                chain: self.chain,
                arm0: a0.chain,
                arm1: a1.chain,
                arm2: a2.chain,
                merge: f.into_ctx_merge_step(registry),
                marker: PhantomData,
            },
            marker: PhantomData,
        }
    }
}

impl<
    C,
    In,
    ForkOut,
    Chain,
    K0,
    K1,
    K2,
> CtxDagChainFork<
    C,
    In,
    ForkOut,
    Chain,
    (CtxDagArm<C, ForkOut, (), K0>, CtxDagArm<C, ForkOut, (), K1>, CtxDagArm<C, ForkOut, (), K2>),
> {
    /// Joins the three arms, none of which gives a value.
    pub fn join(self) -> (next: CtxDagChain<C, In, (), CtxJoinNode3<Chain, K0, K1, K2, ForkOut>>)
        ensures
            next.chain.chain == self.chain,
            next.chain.arm0 == self.arms.0.chain,
            next.chain.arm1 == self.arms.1.chain,
            next.chain.arm2 == self.arms.2.chain,
    {
        let (a0, a1, a2) = self.arms;
        CtxDagChain {
            chain: CtxJoinNode3 {
                chain: self.chain,
                arm0: a0.chain,
                arm1: a1.chain,
                arm2: a2.chain,
                marker: PhantomData,
            },
            marker: PhantomData,
        }
    }
}

impl<
    C,
    In,
    ForkOut: 'static,
    Chain,
    A0: 'static,
    K0,
    A1: 'static,
    K1,
    A2: 'static,
    K2,
    A3: 'static,
    K3,
> CtxDagChainFork<
    C,
    In,
    ForkOut,
    Chain,
    (
        CtxDagArm<C, ForkOut, A0, K0>,
        CtxDagArm<C, ForkOut, A1, K1>,
        CtxDagArm<C, ForkOut, A2, K2>,
        CtxDagArm<C, ForkOut, A3, K3>,
    ),
> {
    /// Merges the four arms with a step that is shown their results.
    pub fn merge<
        R,
        MOut,
        Params,
        S: IntoCtxMergeStep<
            R,
            C,
            (&'static A0, &'static A1, &'static A2, &'static A3),
            MOut,
            Params,
        >,
    >(
        self,
        f: S,
        registry: &Registry<R>,
    ) -> (next: CtxDagChain<
        C,
        In,
        MOut,
        CtxMergeNode4<Chain, K0, K1, K2, K3, S::Step, ForkOut, A0, A1, A2, A3, MOut>,
    >) where
        S::Step: for<'x> CtxMergeStepCall<R, C, (&'x A0, &'x A1, &'x A2, &'x A3), MOut>,
        ensures
            next.chain.chain == self.chain,
            next.chain.arm0 == self.arms.0.chain,
            next.chain.arm1 == self.arms.1.chain,
            next.chain.arm2 == self.arms.2.chain,
            next.chain.arm3 == self.arms.3.chain,
            next.chain.merge == f.resolved(),
    {
        let (a0, a1, a2, a3) = self.arms;
        CtxDagChain {
            chain: CtxMergeNode4 {
                chain: self.chain,
                arm0: a0.chain,
                arm1: a1.chain,
                arm2: a2.chain,
                arm3: a3.chain,
                merge: f.into_ctx_merge_step(registry),
                marker: PhantomData,
            },
            marker: PhantomData,
        }
    }
}

impl<
    C,
    In,
    ForkOut,
    Chain,
    K0,
    K1,
    K2,
    K3,
> CtxDagChainFork<
    C,
    In,
    ForkOut,
    Chain,
    (
        CtxDagArm<C, ForkOut, (), K0>,
        CtxDagArm<C, ForkOut, (), K1>,
        CtxDagArm<C, ForkOut, (), K2>,
        CtxDagArm<C, ForkOut, (), K3>,
    ),
> {
    /// Joins the four arms, none of which gives a value.
    pub fn join(
        self,
    ) -> (next: CtxDagChain<C, In, (), CtxJoinNode4<Chain, K0, K1, K2, K3, ForkOut>>)
        ensures
            next.chain.chain == self.chain,
            next.chain.arm0 == self.arms.0.chain,
            next.chain.arm1 == self.arms.1.chain,
            next.chain.arm2 == self.arms.2.chain,
            next.chain.arm3 == self.arms.3.chain,
    {
        let (a0, a1, a2, a3) = self.arms;
        CtxDagChain {
            chain: CtxJoinNode4 {
                chain: self.chain,
                arm0: a0.chain,
                arm1: a1.chain,
                arm2: a2.chain,
                arm3: a3.chain,
                marker: PhantomData,
            },
            marker: PhantomData,
        }
    }
}

impl<C, In, ForkOut, Chain> CtxDagArmFork<C, In, ForkOut, Chain, ()> {
    /// Adds the first arm.
    pub fn arm<AOut, ACh>(
        self,
        f: impl FnOnce(CtxDagArmSeed<C, ForkOut>) -> CtxDagArm<C, ForkOut, AOut, ACh>,
    ) -> (next: CtxDagArmFork<C, In, ForkOut, Chain, (CtxDagArm<C, ForkOut, AOut, ACh>,)>)
        requires
            forall|seed: CtxDagArmSeed<C, ForkOut>| call_requires(f, (seed,)),
        ensures
            next.chain == self.chain,
            exists|seed: CtxDagArmSeed<C, ForkOut>| call_ensures(f, (seed,), next.arms.0),
    {
        let seed = CtxDagArmSeed { marker: PhantomData };
        let ghost given = seed;
        let arm = f(seed);
        let next = CtxDagArmFork { chain: self.chain, arms: (arm,), marker: PhantomData };
        assert(call_ensures(f, (given,), next.arms.0));
        next
    }
}

impl<
    C,
    In,
    ForkOut,
    Chain,
    A0,
    K0,
> CtxDagArmFork<C, In, ForkOut, Chain, (CtxDagArm<C, ForkOut, A0, K0>,)> {
    /// Adds the second arm.
    pub fn arm<AOut, ACh>(
        self,
        f: impl FnOnce(CtxDagArmSeed<C, ForkOut>) -> CtxDagArm<C, ForkOut, AOut, ACh>,
    ) -> (next: CtxDagArmFork<
        C,
        In,
        ForkOut,
        Chain,
        (CtxDagArm<C, ForkOut, A0, K0>, CtxDagArm<C, ForkOut, AOut, ACh>),
    >)
        requires
            forall|seed: CtxDagArmSeed<C, ForkOut>| call_requires(f, (seed,)),
        ensures
            next.chain == self.chain,
            next.arms.0 == self.arms.0,
            exists|seed: CtxDagArmSeed<C, ForkOut>| call_ensures(f, (seed,), next.arms.1),
    {
        let seed = CtxDagArmSeed { marker: PhantomData };
        let ghost given = seed;
        let arm = f(seed);
        let (a0,) = self.arms;
        let next = CtxDagArmFork { chain: self.chain, arms: (a0, arm), marker: PhantomData };
        assert(call_ensures(f, (given,), next.arms.1));
        next
    }
}

impl<
    C,
    In,
    ForkOut,
    Chain,
    A0,
    K0,
    A1,
    K1,
> CtxDagArmFork<
    C,
    In,
    ForkOut,
    Chain,
    (CtxDagArm<C, ForkOut, A0, K0>, CtxDagArm<C, ForkOut, A1, K1>),
> {
    /// Adds the third arm.
    pub fn arm<AOut, ACh>(
        self,
        f: impl FnOnce(CtxDagArmSeed<C, ForkOut>) -> CtxDagArm<C, ForkOut, AOut, ACh>,
    ) -> (next: CtxDagArmFork<
        C,
        In,
        ForkOut,
        Chain,
        (
            CtxDagArm<C, ForkOut, A0, K0>,
            CtxDagArm<C, ForkOut, A1, K1>,
            CtxDagArm<C, ForkOut, AOut, ACh>,
        ),
    >)
        requires
            forall|seed: CtxDagArmSeed<C, ForkOut>| call_requires(f, (seed,)),
        ensures
            next.chain == self.chain,
            next.arms.0 == self.arms.0,
            next.arms.1 == self.arms.1,
            exists|seed: CtxDagArmSeed<C, ForkOut>| call_ensures(f, (seed,), next.arms.2),
    {
        let seed = CtxDagArmSeed { marker: PhantomData };
        let ghost given = seed;
        let arm = f(seed);
        let (a0, a1) = self.arms;
        let next = CtxDagArmFork { chain: self.chain, arms: (a0, a1, arm), marker: PhantomData };
        assert(call_ensures(f, (given,), next.arms.2));
        next
    }
}

impl<
    C,
    In,
    ForkOut,
    Chain,
    A0,
    K0,
    A1,
    K1,
    A2,
    K2,
> CtxDagArmFork<
    C,
    In,
    ForkOut,
    Chain,
    (CtxDagArm<C, ForkOut, A0, K0>, CtxDagArm<C, ForkOut, A1, K1>, CtxDagArm<C, ForkOut, A2, K2>),
> {
    /// Adds the fourth arm.
    pub fn arm<AOut, ACh>(
        self,
        f: impl FnOnce(CtxDagArmSeed<C, ForkOut>) -> CtxDagArm<C, ForkOut, AOut, ACh>,
    ) -> (next: CtxDagArmFork<
        C,
        In,
        ForkOut,
        Chain,
        (
            CtxDagArm<C, ForkOut, A0, K0>,
            CtxDagArm<C, ForkOut, A1, K1>,
            CtxDagArm<C, ForkOut, A2, K2>,
            CtxDagArm<C, ForkOut, AOut, ACh>,
        ),
    >)
        requires
            forall|seed: CtxDagArmSeed<C, ForkOut>| call_requires(f, (seed,)),
        ensures
            next.chain == self.chain,
            next.arms.0 == self.arms.0,
            next.arms.1 == self.arms.1,
            next.arms.2 == self.arms.2,
            exists|seed: CtxDagArmSeed<C, ForkOut>| call_ensures(f, (seed,), next.arms.3),
    {
        let seed = CtxDagArmSeed { marker: PhantomData };
        let ghost given = seed;
        let arm = f(seed);
        let (a0, a1, a2) = self.arms;
        let next = CtxDagArmFork { chain: self.chain, arms: (a0, a1, a2, arm), marker: PhantomData };
        assert(call_ensures(f, (given,), next.arms.3));
        next
    }
}

impl<
    C,
    In,
    ForkOut: 'static,
    Chain,
    A0: 'static,
    K0,
    A1: 'static,
    K1,
> CtxDagArmFork<
    C,
    In,
    ForkOut,
    Chain,
    (CtxDagArm<C, ForkOut, A0, K0>, CtxDagArm<C, ForkOut, A1, K1>),
> {
    /// Merges the two arms with a step that is shown their results.
    pub fn merge<
        R,
        MOut,
        Params,
        S: IntoCtxMergeStep<R, C, (&'static A0, &'static A1), MOut, Params>,
    >(
        self,
        f: S,
        registry: &Registry<R>,
    ) -> (next: CtxDagArm<
        C,
        In,
        MOut,
        CtxMergeNode2<Chain, K0, K1, S::Step, ForkOut, A0, A1, MOut>,
    >) where
        S::Step: for<'x> CtxMergeStepCall<R, C, (&'x A0, &'x A1), MOut>,
        ensures
            next.chain.chain == self.chain,
            next.chain.arm0 == self.arms.0.chain,
            next.chain.arm1 == self.arms.1.chain,
            next.chain.merge == f.resolved(),
    {
        let (a0, a1) = self.arms;
        CtxDagArm {
            chain: CtxMergeNode2 {
                chain: self.chain,
                arm0: a0.chain,
                arm1: a1.chain,
                merge: f.into_ctx_merge_step(registry),
                marker: PhantomData,
            },
            marker: PhantomData,
        }
    }
}

impl<
    C,
    In,
    ForkOut,
    Chain,
    K0,
    K1,
> CtxDagArmFork<
    C,
    In,
    ForkOut,
    Chain,
    (CtxDagArm<C, ForkOut, (), K0>, CtxDagArm<C, ForkOut, (), K1>),
> {
    /// Joins the two arms, none of which gives a value.
    pub fn join(self) -> (next: CtxDagArm<C, In, (), CtxJoinNode2<Chain, K0, K1, ForkOut>>)
        ensures
            next.chain.chain == self.chain,
            next.chain.arm0 == self.arms.0.chain,
            next.chain.arm1 == self.arms.1.chain,
    {
        let (a0, a1) = self.arms;
        CtxDagArm {
            chain: CtxJoinNode2 {
                chain: self.chain,
                arm0: a0.chain,
                arm1: a1.chain,
                marker: PhantomData,
            },
            marker: PhantomData,
        }
    }
}

impl<
    C,
    In,
    ForkOut: 'static,
    Chain,
    A0: 'static,
    K0,
    A1: 'static,
    K1,
    A2: 'static,
    K2,
> CtxDagArmFork<
    C,
    In,
    ForkOut,
    Chain,
    (CtxDagArm<C, ForkOut, A0, K0>, CtxDagArm<C, ForkOut, A1, K1>, CtxDagArm<C, ForkOut, A2, K2>),
> {
    /// Merges the three arms with a step that is shown their results.
    pub fn merge<
        R,
        MOut,
        Params,
        S: IntoCtxMergeStep<R, C, (&'static A0, &'static A1, &'static A2), MOut, Params>,
    >(
        self,
        f: S,
        registry: &Registry<R>,
    ) -> (next: CtxDagArm<
        C,
        In,
        MOut,
        CtxMergeNode3<Chain, K0, K1, K2, S::Step, ForkOut, A0, A1, A2, MOut>,
    >) where
        S::Step: for<'x> CtxMergeStepCall<R, C, (&'x A0, &'x A1, &'x A2), MOut>,
        ensures
            next.chain.chain == self.chain,
            next.chain.arm0 == self.arms.0.chain,
            next.chain.arm1 == self.arms.1.chain,
            next.chain.arm2 == self.arms.2.chain,
            next.chain.merge == f.resolved(),
    {
        let (a0, a1, a2) = self.arms;
        CtxDagArm {
            chain: CtxMergeNode3 {
                chain: self.chain,
                arm0: a0.chain,
                arm1: a1.chain,
                arm2: a2.chain,
                merge: f.into_ctx_merge_step(registry),
                marker: PhantomData,
            },
            marker: PhantomData,
        }
    }
}

impl<
    C,
    In,
    ForkOut,
    Chain,
    K0,
    K1,
    K2,
> CtxDagArmFork<
    C,
    In,
    ForkOut,
    Chain,
    (CtxDagArm<C, ForkOut, (), K0>, CtxDagArm<C, ForkOut, (), K1>, CtxDagArm<C, ForkOut, (), K2>),
> {
    /// Joins the three arms, none of which gives a value.
    pub fn join(self) -> (next: CtxDagArm<C, In, (), CtxJoinNode3<Chain, K0, K1, K2, ForkOut>>)
        ensures
            next.chain.chain == self.chain,
            next.chain.arm0 == self.arms.0.chain,
            next.chain.arm1 == self.arms.1.chain,
            next.chain.arm2 == self.arms.2.chain,
    {
        let (a0, a1, a2) = self.arms;
        CtxDagArm {
            chain: CtxJoinNode3 {
                chain: self.chain,
                arm0: a0.chain,
                arm1: a1.chain,
                arm2: a2.chain,
                marker: PhantomData,
            },
            marker: PhantomData,
        }
    }
}

impl<
    C,
    In,
    ForkOut: 'static,
    Chain,
    A0: 'static,
    K0,
    A1: 'static,
    K1,
    A2: 'static,
    K2,
    A3: 'static,
    K3,
> CtxDagArmFork<
    C,
    In,
    ForkOut,
    Chain,
    (
        CtxDagArm<C, ForkOut, A0, K0>,
        CtxDagArm<C, ForkOut, A1, K1>,
        CtxDagArm<C, ForkOut, A2, K2>,
        CtxDagArm<C, ForkOut, A3, K3>,
    ),
> {
    /// Merges the four arms with a step that is shown their results.
    pub fn merge<
        R,
        MOut,
        Params,
        S: IntoCtxMergeStep<
            R,
            C,
            (&'static A0, &'static A1, &'static A2, &'static A3),
            MOut,
            Params,
        >,
    >(
        self,
        f: S,
        registry: &Registry<R>,
    ) -> (next: CtxDagArm<
        C,
        In,
        MOut,
        CtxMergeNode4<Chain, K0, K1, K2, K3, S::Step, ForkOut, A0, A1, A2, A3, MOut>,
    >) where
        S::Step: for<'x> CtxMergeStepCall<R, C, (&'x A0, &'x A1, &'x A2, &'x A3), MOut>,
        ensures
            next.chain.chain == self.chain,
            next.chain.arm0 == self.arms.0.chain,
            next.chain.arm1 == self.arms.1.chain,
            next.chain.arm2 == self.arms.2.chain,
            next.chain.arm3 == self.arms.3.chain,
            next.chain.merge == f.resolved(),
    {
        let (a0, a1, a2, a3) = self.arms;
        CtxDagArm {
            chain: CtxMergeNode4 {
                chain: self.chain,
                arm0: a0.chain,
                arm1: a1.chain,
                arm2: a2.chain,
                arm3: a3.chain,
                merge: f.into_ctx_merge_step(registry),
                marker: PhantomData,
            },
            marker: PhantomData,
        }
    }
}

impl<
    C,
    In,
    ForkOut,
    Chain,
    K0,
    K1,
    K2,
    K3,
> CtxDagArmFork<
    C,
    In,
    ForkOut,
    Chain,
    (
        CtxDagArm<C, ForkOut, (), K0>,
        CtxDagArm<C, ForkOut, (), K1>,
        CtxDagArm<C, ForkOut, (), K2>,
        CtxDagArm<C, ForkOut, (), K3>,
    ),
> {
    /// Joins the four arms, none of which gives a value.
    pub fn join(self) -> (next: CtxDagArm<C, In, (), CtxJoinNode4<Chain, K0, K1, K2, K3, ForkOut>>)
        ensures
            next.chain.chain == self.chain,
            next.chain.arm0 == self.arms.0.chain,
            next.chain.arm1 == self.arms.1.chain,
            next.chain.arm2 == self.arms.2.chain,
            next.chain.arm3 == self.arms.3.chain,
    {
        let (a0, a1, a2, a3) = self.arms;
        CtxDagArm {
            chain: CtxJoinNode4 {
                chain: self.chain,
                arm0: a0.chain,
                arm1: a1.chain,
                arm2: a2.chain,
                arm3: a3.chain,
                marker: PhantomData,
            },
            marker: PhantomData,
        }
    }
}

impl<C, In, Out: 'static, Chain> CtxDagChain<C, In, Out, Chain> {
    /// Appends a step, which is shown the value and gives the next one.
    pub fn then<R, NewOut, Params, S: IntoCtxStep<R, C, &'static Out, NewOut, Params>>(
        self,
        f: S,
        registry: &Registry<R>,
    ) -> (next: CtxDagChain<C, In, NewOut, CtxDagThenNode<Chain, S::Step, NewOut>>) where
        S::Step: for<'a> CtxStepCall<R, C, &'a Out, Out = NewOut>,
        ensures
            next.chain.prev == self.chain,
            next.chain.step == f.resolved(),
    {
        CtxDagChain {
            chain: CtxDagThenNode {
                prev: self.chain,
                step: f.into_ctx_step(registry),
                marker: PhantomData,
            },
            marker: PhantomData,
        }
    }

    /// Keeps the value if a predicate holds of it.
    pub fn guard<R, Params, S: IntoCtxRefStep<R, C, Out, bool, Params>>(
        self,
        f: S,
        registry: &Registry<R>,
    ) -> (next: CtxDagChain<C, In, Option<Out>, CtxGuardNode<Chain, S::Step>>)
        ensures
            next.chain.prev == self.chain,
            next.chain.step == f.resolved(),
    {
        CtxDagChain {
            chain: CtxGuardNode {
                prev: self.chain,
                step: f.into_ctx_ref_step(registry),
            },
            marker: PhantomData,
        }
    }

    /// Shows the value to a step and hands it on.
    pub fn tap<R, Params, S: IntoCtxRefStep<R, C, Out, (), Params>>(
        self,
        f: S,
        registry: &Registry<R>,
    ) -> (next: CtxDagChain<C, In, Out, CtxTapNode<Chain, S::Step>>)
        ensures
            next.chain.prev == self.chain,
            next.chain.step == f.resolved(),
    {
        CtxDagChain {
            chain: CtxTapNode {
                prev: self.chain,
                step: f.into_ctx_ref_step(registry),
            },
            marker: PhantomData,
        }
    }
}

impl<C, In, T: 'static, Chain> CtxDagChain<C, In, Option<T>, Chain> {
    /// Shows the value inside `Some` to a step.
    pub fn map<R, U, Params, S: IntoCtxStep<R, C, &'static T, U, Params>>(
        self,
        f: S,
        registry: &Registry<R>,
    ) -> (next: CtxDagChain<C, In, Option<U>, CtxDagMapOptionNode<Chain, S::Step, T, U>>) where
        S::Step: for<'a> CtxStepCall<R, C, &'a T, Out = U>,
        ensures
            next.chain.prev == self.chain,
            next.chain.step == f.resolved(),
    {
        CtxDagChain {
            chain: CtxDagMapOptionNode {
                prev: self.chain,
                step: f.into_ctx_step(registry),
                marker: PhantomData,
            },
            marker: PhantomData,
        }
    }

    /// Shows the value inside `Some` to a step that may itself give `None`.
    pub fn and_then<R, U, Params, S: IntoCtxStep<R, C, &'static T, Option<U>, Params>>(
        self,
        f: S,
        registry: &Registry<R>,
    ) -> (next: CtxDagChain<C, In, Option<U>, CtxDagAndThenOptionNode<Chain, S::Step, T, U>>) where
        S::Step: for<'a> CtxStepCall<R, C, &'a T, Out = Option<U>>,
        ensures
            next.chain.prev == self.chain,
            next.chain.step == f.resolved(),
    {
        CtxDagChain {
            chain: CtxDagAndThenOptionNode {
                prev: self.chain,
                step: f.into_ctx_step(registry),
                marker: PhantomData,
            },
            marker: PhantomData,
        }
    }

    /// Calls a producer on `None`.
    pub fn on_none<R, Params, S: IntoCtxProducer<R, C, (), Params>>(
        self,
        f: S,
        registry: &Registry<R>,
    ) -> (next: CtxDagChain<C, In, Option<T>, CtxOnNoneNode<Chain, S::Step, T>>)
        ensures
            next.chain.prev == self.chain,
            next.chain.producer == f.resolved(),
    {
        CtxDagChain {
            chain: CtxOnNoneNode {
                prev: self.chain,
                producer: f.into_ctx_producer(registry),
                marker: PhantomData,
            },
            marker: PhantomData,
        }
    }

    /// Keeps the value inside `Some` if a predicate holds of it.
    pub fn filter<R, Params, S: IntoCtxRefStep<R, C, T, bool, Params>>(
        self,
        f: S,
        registry: &Registry<R>,
    ) -> (next: CtxDagChain<C, In, Option<T>, CtxFilterNode<Chain, S::Step, T>>)
        ensures
            next.chain.prev == self.chain,
            next.chain.step == f.resolved(),
    {
        CtxDagChain {
            chain: CtxFilterNode {
                prev: self.chain,
                step: f.into_ctx_ref_step(registry),
                marker: PhantomData,
            },
            marker: PhantomData,
        }
    }

    /// Shows the value inside `Some` to a step.
    pub fn inspect<R, Params, S: IntoCtxRefStep<R, C, T, (), Params>>(
        self,
        f: S,
        registry: &Registry<R>,
    ) -> (next: CtxDagChain<C, In, Option<T>, CtxInspectOptionNode<Chain, S::Step, T>>)
        ensures
            next.chain.prev == self.chain,
            next.chain.step == f.resolved(),
    {
        CtxDagChain {
            chain: CtxInspectOptionNode {
                prev: self.chain,
                step: f.into_ctx_ref_step(registry),
                marker: PhantomData,
            },
            marker: PhantomData,
        }
    }

    /// Turns `None` into an error.
    pub fn ok_or<E: Clone>(
        self,
        err: E,
    ) -> (next: CtxDagChain<C, In, Result<T, E>, CtxOkOrNode<Chain, E, T>>)
        ensures
            next.chain.prev == self.chain,
            next.chain.err == err,
    {
        CtxDagChain {
            chain: CtxOkOrNode {
                prev: self.chain,
                err,
                marker: PhantomData,
            },
            marker: PhantomData,
        }
    }

    /// Replaces `None` by a default.
    pub fn unwrap_or(
        self,
        default: T,
    ) -> (next: CtxDagChain<C, In, T, CtxUnwrapOrOptionNode<Chain, T>>) where T: Clone
        ensures
            next.chain.prev == self.chain,
            next.chain.default == default,
    {
        CtxDagChain {
            chain: CtxUnwrapOrOptionNode {
                prev: self.chain,
                default,
            },
            marker: PhantomData,
        }
    }

    /// Replaces `None` by what a producer makes.
    pub fn unwrap_or_else<R, Params, S: IntoCtxProducer<R, C, T, Params>>(
        self,
        f: S,
        registry: &Registry<R>,
    ) -> (next: CtxDagChain<C, In, T, CtxUnwrapOrElseOptionNode<Chain, S::Step, T>>)
        ensures
            next.chain.prev == self.chain,
            next.chain.producer == f.resolved(),
    {
        CtxDagChain {
            chain: CtxUnwrapOrElseOptionNode {
                prev: self.chain,
                producer: f.into_ctx_producer(registry),
                marker: PhantomData,
            },
            marker: PhantomData,
        }
    }
}

impl<C, In, T: 'static, E: 'static, Chain> CtxDagChain<C, In, Result<T, E>, Chain> {
    /// Shows the value inside `Ok` to a step.
    pub fn map<R, U, Params, S: IntoCtxStep<R, C, &'static T, U, Params>>(
        self,
        f: S,
        registry: &Registry<R>,
    ) -> (next: CtxDagChain<
        C,
        In,
        Result<U, E>,
        CtxDagMapResultNode<Chain, S::Step, T, E, U>,
    >) where
        S::Step: for<'a> CtxStepCall<R, C, &'a T, Out = U>,
        ensures
            next.chain.prev == self.chain,
            next.chain.step == f.resolved(),
    {
        CtxDagChain {
            chain: CtxDagMapResultNode {
                prev: self.chain,
                step: f.into_ctx_step(registry),
                marker: PhantomData,
            },
            marker: PhantomData,
        }
    }

    /// Shows the value inside `Ok` to a step that may itself fail.
    pub fn and_then<R, U, Params, S: IntoCtxStep<R, C, &'static T, Result<U, E>, Params>>(
        self,
        f: S,
        registry: &Registry<R>,
    ) -> (next: CtxDagChain<
        C,
        In,
        Result<U, E>,
        CtxDagAndThenResultNode<Chain, S::Step, T, E, U>,
    >) where
        S::Step: for<'a> CtxStepCall<R, C, &'a T, Out = Result<U, E>>,
        ensures
            next.chain.prev == self.chain,
            next.chain.step == f.resolved(),
    {
        CtxDagChain {
            chain: CtxDagAndThenResultNode {
                prev: self.chain,
                step: f.into_ctx_step(registry),
                marker: PhantomData,
            },
            marker: PhantomData,
        }
    }

    /// Shows the error to a step and drops it.
    pub fn catch<R, Params, S: IntoCtxStep<R, C, &'static E, (), Params>>(
        self,
        f: S,
        registry: &Registry<R>,
    ) -> (next: CtxDagChain<C, In, Option<T>, CtxDagCatchNode<Chain, S::Step, T, E>>) where
        S::Step: for<'a> CtxStepCall<R, C, &'a E, Out = ()>,
        ensures
            next.chain.prev == self.chain,
            next.chain.step == f.resolved(),
    {
        CtxDagChain {
            chain: CtxDagCatchNode {
                prev: self.chain,
                step: f.into_ctx_step(registry),
                marker: PhantomData,
            },
            marker: PhantomData,
        }
    }

    /// Hands the error to a step that gives another.
    pub fn map_err<R, E2, Params, S: IntoCtxStep<R, C, E, E2, Params>>(
        self,
        f: S,
        registry: &Registry<R>,
    ) -> (next: CtxDagChain<C, In, Result<T, E2>, CtxMapErrNode<Chain, S::Step, T, E>>)
        ensures
            next.chain.prev == self.chain,
            next.chain.step == f.resolved(),
    {
        CtxDagChain {
            chain: CtxMapErrNode {
                prev: self.chain,
                step: f.into_ctx_step(registry),
                marker: PhantomData,
            },
            marker: PhantomData,
        }
    }

    /// Shows the value inside `Ok` to a step.
    pub fn inspect<R, Params, S: IntoCtxRefStep<R, C, T, (), Params>>(
        self,
        f: S,
        registry: &Registry<R>,
    ) -> (next: CtxDagChain<C, In, Result<T, E>, CtxInspectResultNode<Chain, S::Step, T, E>>)
        ensures
            next.chain.prev == self.chain,
            next.chain.step == f.resolved(),
    {
        CtxDagChain {
            chain: CtxInspectResultNode {
                prev: self.chain,
                step: f.into_ctx_ref_step(registry),
                marker: PhantomData,
            },
            marker: PhantomData,
        }
    }

    /// Shows the error to a step.
    pub fn inspect_err<R, Params, S: IntoCtxRefStep<R, C, E, (), Params>>(
        self,
        f: S,
        registry: &Registry<R>,
    ) -> (next: CtxDagChain<C, In, Result<T, E>, CtxInspectErrNode<Chain, S::Step, T, E>>)
        ensures
            next.chain.prev == self.chain,
            next.chain.step == f.resolved(),
    {
        CtxDagChain {
            chain: CtxInspectErrNode {
                prev: self.chain,
                step: f.into_ctx_ref_step(registry),
                marker: PhantomData,
            },
            marker: PhantomData,
        }
    }

    /// Drops the error.
    pub fn ok(self) -> (next: CtxDagChain<C, In, Option<T>, CtxOkNode<Chain, T, E>>)
        ensures
            next.chain.prev == self.chain,
    {
        CtxDagChain {
            chain: CtxOkNode {
                prev: self.chain,
                marker: PhantomData,
            },
            marker: PhantomData,
        }
    }

    /// Replaces an error by a default.
    pub fn unwrap_or(
        self,
        default: T,
    ) -> (next: CtxDagChain<C, In, T, CtxUnwrapOrResultNode<Chain, T, E>>) where T: Clone
        ensures
            next.chain.prev == self.chain,
            next.chain.default == default,
    {
        CtxDagChain {
            chain: CtxUnwrapOrResultNode {
                prev: self.chain,
                default,
                marker: PhantomData,
            },
            marker: PhantomData,
        }
    }
}

impl<C, In, Out: 'static, Chain> CtxDagArm<C, In, Out, Chain> {
    /// Appends a step, which is shown the value and gives the next one.
    pub fn then<R, NewOut, Params, S: IntoCtxStep<R, C, &'static Out, NewOut, Params>>(
        self,
        f: S,
        registry: &Registry<R>,
    ) -> (next: CtxDagArm<C, In, NewOut, CtxDagThenNode<Chain, S::Step, NewOut>>) where
        S::Step: for<'a> CtxStepCall<R, C, &'a Out, Out = NewOut>,
        ensures
            next.chain.prev == self.chain,
            next.chain.step == f.resolved(),
    {
        CtxDagArm {
            chain: CtxDagThenNode {
                prev: self.chain,
                step: f.into_ctx_step(registry),
                marker: PhantomData,
            },
            marker: PhantomData,
        }
    }

    /// Keeps the value if a predicate holds of it.
    pub fn guard<R, Params, S: IntoCtxRefStep<R, C, Out, bool, Params>>(
        self,
        f: S,
        registry: &Registry<R>,
    ) -> (next: CtxDagArm<C, In, Option<Out>, CtxGuardNode<Chain, S::Step>>)
        ensures
            next.chain.prev == self.chain,
            next.chain.step == f.resolved(),
    {
        CtxDagArm {
            chain: CtxGuardNode {
                prev: self.chain,
                step: f.into_ctx_ref_step(registry),
            },
            marker: PhantomData,
        }
    }

    /// Shows the value to a step and hands it on.
    pub fn tap<R, Params, S: IntoCtxRefStep<R, C, Out, (), Params>>(
        self,
        f: S,
        registry: &Registry<R>,
    ) -> (next: CtxDagArm<C, In, Out, CtxTapNode<Chain, S::Step>>)
        ensures
            next.chain.prev == self.chain,
            next.chain.step == f.resolved(),
    {
        CtxDagArm {
            chain: CtxTapNode {
                prev: self.chain,
                step: f.into_ctx_ref_step(registry),
            },
            marker: PhantomData,
        }
    }
}

impl<C, In, T: 'static, Chain> CtxDagArm<C, In, Option<T>, Chain> {
    /// Shows the value inside `Some` to a step.
    pub fn map<R, U, Params, S: IntoCtxStep<R, C, &'static T, U, Params>>(
        self,
        f: S,
        registry: &Registry<R>,
    ) -> (next: CtxDagArm<C, In, Option<U>, CtxDagMapOptionNode<Chain, S::Step, T, U>>) where
        S::Step: for<'a> CtxStepCall<R, C, &'a T, Out = U>,
        ensures
            next.chain.prev == self.chain,
            next.chain.step == f.resolved(),
    {
        CtxDagArm {
            chain: CtxDagMapOptionNode {
                prev: self.chain,
                step: f.into_ctx_step(registry),
                marker: PhantomData,
            },
            marker: PhantomData,
        }
    }

    /// Shows the value inside `Some` to a step that may itself give `None`.
    pub fn and_then<R, U, Params, S: IntoCtxStep<R, C, &'static T, Option<U>, Params>>(
        self,
        f: S,
        registry: &Registry<R>,
    ) -> (next: CtxDagArm<C, In, Option<U>, CtxDagAndThenOptionNode<Chain, S::Step, T, U>>) where
        S::Step: for<'a> CtxStepCall<R, C, &'a T, Out = Option<U>>,
        ensures
            next.chain.prev == self.chain,
            next.chain.step == f.resolved(),
    {
        CtxDagArm {
            chain: CtxDagAndThenOptionNode {
                prev: self.chain,
                step: f.into_ctx_step(registry),
                marker: PhantomData,
            },
            marker: PhantomData,
        }
    }

    /// Calls a producer on `None`.
    pub fn on_none<R, Params, S: IntoCtxProducer<R, C, (), Params>>(
        self,
        f: S,
        registry: &Registry<R>,
    ) -> (next: CtxDagArm<C, In, Option<T>, CtxOnNoneNode<Chain, S::Step, T>>)
        ensures
            next.chain.prev == self.chain,
            next.chain.producer == f.resolved(),
    {
        CtxDagArm {
            chain: CtxOnNoneNode {
                prev: self.chain,
                producer: f.into_ctx_producer(registry),
                marker: PhantomData,
            },
            marker: PhantomData,
        }
    }

    /// Keeps the value inside `Some` if a predicate holds of it.
    pub fn filter<R, Params, S: IntoCtxRefStep<R, C, T, bool, Params>>(
        self,
        f: S,
        registry: &Registry<R>,
    ) -> (next: CtxDagArm<C, In, Option<T>, CtxFilterNode<Chain, S::Step, T>>)
        ensures
            next.chain.prev == self.chain,
            next.chain.step == f.resolved(),
    {
        CtxDagArm {
            chain: CtxFilterNode {
                prev: self.chain,
                step: f.into_ctx_ref_step(registry),
                marker: PhantomData,
            },
            marker: PhantomData,
        }
    }

    /// Shows the value inside `Some` to a step.
    pub fn inspect<R, Params, S: IntoCtxRefStep<R, C, T, (), Params>>(
        self,
        f: S,
        registry: &Registry<R>,
    ) -> (next: CtxDagArm<C, In, Option<T>, CtxInspectOptionNode<Chain, S::Step, T>>)
        ensures
            next.chain.prev == self.chain,
            next.chain.step == f.resolved(),
    {
        CtxDagArm {
            chain: CtxInspectOptionNode {
                prev: self.chain,
                step: f.into_ctx_ref_step(registry),
                marker: PhantomData,
            },
            marker: PhantomData,
        }
    }

    /// Turns `None` into an error.
    pub fn ok_or<E: Clone>(
        self,
        err: E,
    ) -> (next: CtxDagArm<C, In, Result<T, E>, CtxOkOrNode<Chain, E, T>>)
        ensures
            next.chain.prev == self.chain,
            next.chain.err == err,
    {
        CtxDagArm {
            chain: CtxOkOrNode {
                prev: self.chain,
                err,
                marker: PhantomData,
            },
            marker: PhantomData,
        }
    }

    /// Replaces `None` by a default.
    pub fn unwrap_or(
        self,
        default: T,
    ) -> (next: CtxDagArm<C, In, T, CtxUnwrapOrOptionNode<Chain, T>>) where T: Clone
        ensures
            next.chain.prev == self.chain,
            next.chain.default == default,
    {
        CtxDagArm {
            chain: CtxUnwrapOrOptionNode {
                prev: self.chain,
                default,
            },
            marker: PhantomData,
        }
    }

    /// Replaces `None` by what a producer makes.
    pub fn unwrap_or_else<R, Params, S: IntoCtxProducer<R, C, T, Params>>(
        self,
        f: S,
        registry: &Registry<R>,
    ) -> (next: CtxDagArm<C, In, T, CtxUnwrapOrElseOptionNode<Chain, S::Step, T>>)
        ensures
            next.chain.prev == self.chain,
            next.chain.producer == f.resolved(),
    {
        CtxDagArm {
            chain: CtxUnwrapOrElseOptionNode {
                prev: self.chain,
                producer: f.into_ctx_producer(registry),
                marker: PhantomData,
            },
            marker: PhantomData,
        }
    }
}

impl<C, In, T: 'static, E: 'static, Chain> CtxDagArm<C, In, Result<T, E>, Chain> {
    /// Shows the value inside `Ok` to a step.
    pub fn map<R, U, Params, S: IntoCtxStep<R, C, &'static T, U, Params>>(
        self,
        f: S,
        registry: &Registry<R>,
    ) -> (next: CtxDagArm<C, In, Result<U, E>, CtxDagMapResultNode<Chain, S::Step, T, E, U>>) where
        S::Step: for<'a> CtxStepCall<R, C, &'a T, Out = U>,
        ensures
            next.chain.prev == self.chain,
            next.chain.step == f.resolved(),
    {
        CtxDagArm {
            chain: CtxDagMapResultNode {
                prev: self.chain,
                step: f.into_ctx_step(registry),
                marker: PhantomData,
            },
            marker: PhantomData,
        }
    }

    /// Shows the value inside `Ok` to a step that may itself fail.
    pub fn and_then<R, U, Params, S: IntoCtxStep<R, C, &'static T, Result<U, E>, Params>>(
        self,
        f: S,
        registry: &Registry<R>,
    ) -> (next: CtxDagArm<
        C,
        In,
        Result<U, E>,
        CtxDagAndThenResultNode<Chain, S::Step, T, E, U>,
    >) where
        S::Step: for<'a> CtxStepCall<R, C, &'a T, Out = Result<U, E>>,
        ensures
            next.chain.prev == self.chain,
            next.chain.step == f.resolved(),
    {
        CtxDagArm {
            chain: CtxDagAndThenResultNode {
                prev: self.chain,
                step: f.into_ctx_step(registry),
                marker: PhantomData,
            },
            marker: PhantomData,
        }
    }

    /// Shows the error to a step and drops it.
    pub fn catch<R, Params, S: IntoCtxStep<R, C, &'static E, (), Params>>(
        self,
        f: S,
        registry: &Registry<R>,
    ) -> (next: CtxDagArm<C, In, Option<T>, CtxDagCatchNode<Chain, S::Step, T, E>>) where
        S::Step: for<'a> CtxStepCall<R, C, &'a E, Out = ()>,
        ensures
            next.chain.prev == self.chain,
            next.chain.step == f.resolved(),
    {
        CtxDagArm {
            chain: CtxDagCatchNode {
                prev: self.chain,
                step: f.into_ctx_step(registry),
                marker: PhantomData,
            },
            marker: PhantomData,
        }
    }

    /// Hands the error to a step that gives another.
    pub fn map_err<R, E2, Params, S: IntoCtxStep<R, C, E, E2, Params>>(
        self,
        f: S,
        registry: &Registry<R>,
    ) -> (next: CtxDagArm<C, In, Result<T, E2>, CtxMapErrNode<Chain, S::Step, T, E>>)
        ensures
            next.chain.prev == self.chain,
            next.chain.step == f.resolved(),
    {
        CtxDagArm {
            chain: CtxMapErrNode {
                prev: self.chain,
                step: f.into_ctx_step(registry),
                marker: PhantomData,
            },
            marker: PhantomData,
        }
    }

    /// Shows the value inside `Ok` to a step.
    pub fn inspect<R, Params, S: IntoCtxRefStep<R, C, T, (), Params>>(
        self,
        f: S,
        registry: &Registry<R>,
    ) -> (next: CtxDagArm<C, In, Result<T, E>, CtxInspectResultNode<Chain, S::Step, T, E>>)
        ensures
            next.chain.prev == self.chain,
            next.chain.step == f.resolved(),
    {
        CtxDagArm {
            chain: CtxInspectResultNode {
                prev: self.chain,
                step: f.into_ctx_ref_step(registry),
                marker: PhantomData,
            },
            marker: PhantomData,
        }
    }

    /// Shows the error to a step.
    pub fn inspect_err<R, Params, S: IntoCtxRefStep<R, C, E, (), Params>>(
        self,
        f: S,
        registry: &Registry<R>,
    ) -> (next: CtxDagArm<C, In, Result<T, E>, CtxInspectErrNode<Chain, S::Step, T, E>>)
        ensures
            next.chain.prev == self.chain,
            next.chain.step == f.resolved(),
    {
        CtxDagArm {
            chain: CtxInspectErrNode {
                prev: self.chain,
                step: f.into_ctx_ref_step(registry),
                marker: PhantomData,
            },
            marker: PhantomData,
        }
    }

    /// Drops the error.
    pub fn ok(self) -> (next: CtxDagArm<C, In, Option<T>, CtxOkNode<Chain, T, E>>)
        ensures
            next.chain.prev == self.chain,
    {
        CtxDagArm {
            chain: CtxOkNode {
                prev: self.chain,
                marker: PhantomData,
            },
            marker: PhantomData,
        }
    }

    /// Replaces an error by a default.
    pub fn unwrap_or(
        self,
        default: T,
    ) -> (next: CtxDagArm<C, In, T, CtxUnwrapOrResultNode<Chain, T, E>>) where T: Clone
        ensures
            next.chain.prev == self.chain,
            next.chain.default == default,
    {
        CtxDagArm {
            chain: CtxUnwrapOrResultNode {
                prev: self.chain,
                default,
                marker: PhantomData,
            },
            marker: PhantomData,
        }
    }
}

impl<C, In, Chain> CtxDagChain<C, In, (), Chain> {
    /// Finishes the graph.
    #[must_use]
    pub fn build(self) -> (dag: CtxDag<C, In, Chain>)
        ensures
            dag.chain == self.chain,
    {
        CtxDag { chain: self.chain, marker: PhantomData }
    }
}

impl<C, In, Chain> CtxDagChain<C, In, Option<()>, Chain> {
    /// Finishes the graph; whether it stopped early is dropped.
    #[must_use]
    pub fn build(self) -> (dag: CtxDag<C, In, CtxDiscardOptionNode<Chain>>)
        ensures
            dag.chain.prev == self.chain,
    {
        CtxDag { chain: CtxDiscardOptionNode { prev: self.chain }, marker: PhantomData }
    }
}

/// A finished graph: a step of its own.
pub struct CtxDag<C, In, Chain> {
    pub chain: Chain,
    pub marker: PhantomData<(C, In)>,
}

impl<
    R,
    C,
    In,
    Chain: CtxChainCall<R, C, In, Out = ()>,
> CtxStepCall<R, C, In> for CtxDag<C, In, Chain> {
    type Out = ();

    open spec fn call_pre(&self, ctx: C, world: World<R>, input: In) -> bool {
        self.chain.call_pre(ctx, world, input)
    }

    open spec fn call_post(
        &self,
        ctx: C,
        world: World<R>,
        input: In,
        after: Self,
        ctx_after: C,
        world_after: World<R>,
        out: (),
    ) -> bool {
        self.chain.call_post(ctx, world, input, after.chain, ctx_after, world_after, ())
    }

    fn call(&mut self, ctx: &mut C, world: &mut World<R>, input: In) -> (out: ()) {
        self.chain.call(ctx, world, input)
    }
}

impl<C, In, Chain> CtxDag<C, In, Chain> {
    /// Runs the graph on one input.
    pub fn run<R>(
        &mut self,
        ctx: &mut C,
        world: &mut World<R>,
        input: In,
    ) where Chain: CtxChainCall<R, C, In, Out = ()>
        requires
            old(self).chain.call_pre(*old(ctx), *old(world), input),
        ensures
            old(self).chain.call_post(
                *old(ctx),
                *old(world),
                input,
                final(self).chain,
                *final(ctx),
                *final(world),
                (),
            ),
    {
        self.chain.call(ctx, world, input)
    }
}


} // verus!
