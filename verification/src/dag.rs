//! Data flow graphs: chains that fork into arms, each of which is shown the value at the fork.
use crate::batch::{batch_post, batch_pre, run_batch};
use crate::handler::Handler;
use crate::merge::{
    IntoMergeStep, JoinNode2, JoinNode3, JoinNode4, MergeNode2, MergeNode3, MergeNode4,
    MergeStepCall,
};
use crate::node::{
    AndBoolNode, ChainCall, ClonedNode, ClonedOptionNode, ClonedResultNode, DagAndThenOptionNode,
    DagAndThenResultNode, DagCatchNode, DagMapOptionNode, DagMapResultNode, DagRouteNode,
    DagThenNode, DedupNode, DiscardOptionNode, DispatchNode, FilterNode, GuardNode, IdentityNode,
    InspectErrNode, InspectOptionNode, InspectResultNode, MapErrNode, NotNode, OkOrElseNode,
    OkOrNode, OkResultNode, OnNoneNode, OrBoolNode, OrElseNode, RefScanNode, TapNode, TeeNode,
    ThenNode, UnwrapOrElseOptionNode, UnwrapOrElseResultNode, UnwrapOrOptionNode,
    UnwrapOrResultNode, XorBoolNode,
};
use crate::pipeline::PipelineOutput;
use crate::step::{IntoProducer, IntoRefScanStep, IntoRefStep, IntoStep, StepCall};
use crate::world::{Registry, World};
use std::marker::PhantomData;
use vstd::prelude::*;

verus! {

/// The start of a graph.
#[must_use]
pub struct DagBuilder<In> {
    pub marker: PhantomData<In>,
}

impl<In> DagBuilder<In> {
    pub fn new() -> (builder: Self) {
        DagBuilder { marker: PhantomData }
    }

    /// Adds the first step, which consumes the input.
    pub fn root<R, Out, Params, S: IntoStep<R, In, Out, Params>>(
        self,
        f: S,
        registry: &Registry<R>,
    ) -> (next: DagChain<In, Out, ThenNode<IdentityNode, S::Step>>)
        ensures
            next.chain.prev == (IdentityNode {}),
            next.chain.step == f.resolved(),
    {
        DagChain {
            chain: ThenNode {
                prev: IdentityNode {},
                step: f.into_step(registry),
            },
            marker: PhantomData,
        }
    }
}

impl<In> Default for DagBuilder<In> {
    fn default() -> (builder: Self) {
        DagBuilder { marker: PhantomData }
    }
}

/// The main chain of a graph under construction.
#[must_use]
pub struct DagChain<In, Out, Chain> {
    pub chain: Chain,
    pub marker: PhantomData<(In, Out)>,
}

/// An arm under construction.
#[must_use]
pub struct DagArm<In, Out, Chain> {
    pub chain: Chain,
    pub marker: PhantomData<(In, Out)>,
}

/// The start of an arm: it is shown the value at the fork.
#[must_use]
pub struct DagArmSeed<In> {
    pub marker: PhantomData<In>,
}

impl<In> DagArmSeed<In> {
    pub fn new() -> (seed: Self) {
        DagArmSeed { marker: PhantomData }
    }
}

impl<In: 'static> DagArmSeed<In> {
    /// Adds the arm's first step.
    pub fn then<R, Out, Params, S: IntoStep<R, &'static In, Out, Params>>(
        self,
        f: S,
        registry: &Registry<R>,
    ) -> (next: DagArm<In, Out, ThenNode<IdentityNode, S::Step>>) where
        S::Step: for<'a> StepCall<R, &'a In, Out = Out>,
        ensures
            next.chain.prev == (IdentityNode {}),
            next.chain.step == f.resolved(),
    {
        DagArm {
            chain: ThenNode {
                prev: IdentityNode {},
                step: f.into_step(registry),
            },
            marker: PhantomData,
        }
    }
}

impl<In> Default for DagArmSeed<In> {
    fn default() -> (seed: Self) {
        DagArmSeed { marker: PhantomData }
    }
}

/// A fork on the main chain, with the arms added so far.
#[must_use]
pub struct DagChainFork<In, ForkOut, Chain, Arms> {
    pub chain: Chain,
    pub arms: Arms,
    pub marker: PhantomData<(In, ForkOut)>,
}

/// A fork within an arm, with the arms added so far.
#[must_use]
pub struct DagArmFork<In, ForkOut, Chain, Arms> {
    pub chain: Chain,
    pub arms: Arms,
    pub marker: PhantomData<(In, ForkOut)>,
}

impl<In, Out, Chain> DagChain<In, Out, Chain> {
    /// Forks: the arms added next are shown the value, one after the other.
    pub fn fork(self) -> (next: DagChainFork<In, Out, Chain, ()>)
        ensures
            next.chain == self.chain,
    {
        DagChainFork { chain: self.chain, arms: (), marker: PhantomData }
    }
}

impl<In, Out, Chain> DagArm<In, Out, Chain> {
    /// Forks: the arms added next are shown the value, one after the other.
    pub fn fork(self) -> (next: DagArmFork<In, Out, Chain, ()>)
        ensures
            next.chain == self.chain,
    {
        DagArmFork { chain: self.chain, arms: (), marker: PhantomData }
    }
}

impl<In, ForkOut, Chain> DagChainFork<In, ForkOut, Chain, ()> {
    /// Adds the first arm.
    pub fn arm<AOut, ACh>(
        self,
        f: impl FnOnce(DagArmSeed<ForkOut>) -> DagArm<ForkOut, AOut, ACh>,
    ) -> (next: DagChainFork<In, ForkOut, Chain, (DagArm<ForkOut, AOut, ACh>,)>)
        requires
            forall|seed: DagArmSeed<ForkOut>| call_requires(f, (seed,)),
        ensures
            next.chain == self.chain,
            exists|seed: DagArmSeed<ForkOut>| call_ensures(f, (seed,), next.arms.0),
    {
        let seed = DagArmSeed { marker: PhantomData };
        let ghost given = seed;
        let arm = f(seed);
        let next = DagChainFork { chain: self.chain, arms: (arm,), marker: PhantomData };
        assert(call_ensures(f, (given,), next.arms.0));
        next
    }
}

impl<In, ForkOut, Chain, A0, K0> DagChainFork<In, ForkOut, Chain, (DagArm<ForkOut, A0, K0>,)> {
    /// Adds the second arm.
    pub fn arm<AOut, ACh>(
        self,
        f: impl FnOnce(DagArmSeed<ForkOut>) -> DagArm<ForkOut, AOut, ACh>,
    ) -> (next: DagChainFork<
        In,
        ForkOut,
        Chain,
        (DagArm<ForkOut, A0, K0>, DagArm<ForkOut, AOut, ACh>),
    >)
        requires
            forall|seed: DagArmSeed<ForkOut>| call_requires(f, (seed,)),
        ensures
            next.chain == self.chain,
            next.arms.0 == self.arms.0,
            exists|seed: DagArmSeed<ForkOut>| call_ensures(f, (seed,), next.arms.1),
    {
        let seed = DagArmSeed { marker: PhantomData };
        let ghost given = seed;
        let arm = f(seed);
        let (a0,) = self.arms;
        let next = DagChainFork { chain: self.chain, arms: (a0, arm), marker: PhantomData };
        assert(call_ensures(f, (given,), next.arms.1));
        next
    }
}

impl<
    In,
    ForkOut,
    Chain,
    A0,
    K0,
    A1,
    K1,
> DagChainFork<In, ForkOut, Chain, (DagArm<ForkOut, A0, K0>, DagArm<ForkOut, A1, K1>)> {
    /// Adds the third arm.
    pub fn arm<AOut, ACh>(
        self,
        f: impl FnOnce(DagArmSeed<ForkOut>) -> DagArm<ForkOut, AOut, ACh>,
    ) -> (next: DagChainFork<
        In,
        ForkOut,
        Chain,
        (DagArm<ForkOut, A0, K0>, DagArm<ForkOut, A1, K1>, DagArm<ForkOut, AOut, ACh>),
    >)
        requires
            forall|seed: DagArmSeed<ForkOut>| call_requires(f, (seed,)),
        ensures
            next.chain == self.chain,
            next.arms.0 == self.arms.0,
            next.arms.1 == self.arms.1,
            exists|seed: DagArmSeed<ForkOut>| call_ensures(f, (seed,), next.arms.2),
    {
        let seed = DagArmSeed { marker: PhantomData };
        let ghost given = seed;
        let arm = f(seed);
        let (a0, a1) = self.arms;
        let next = DagChainFork { chain: self.chain, arms: (a0, a1, arm), marker: PhantomData };
        assert(call_ensures(f, (given,), next.arms.2));
        next
    }
}

impl<
    In,
    ForkOut,
    Chain,
    A0,
    K0,
    A1,
    K1,
    A2,
    K2,
> DagChainFork<
    In,
    ForkOut,
    Chain,
    (DagArm<ForkOut, A0, K0>, DagArm<ForkOut, A1, K1>, DagArm<ForkOut, A2, K2>),
> {
    /// Adds the fourth arm.
    pub fn arm<AOut, ACh>(
        self,
        f: impl FnOnce(DagArmSeed<ForkOut>) -> DagArm<ForkOut, AOut, ACh>,
    ) -> (next: DagChainFork<
        In,
        ForkOut,
        Chain,
        (
            DagArm<ForkOut, A0, K0>,
            DagArm<ForkOut, A1, K1>,
            DagArm<ForkOut, A2, K2>,
            DagArm<ForkOut, AOut, ACh>,
        ),
    >)
        requires
            forall|seed: DagArmSeed<ForkOut>| call_requires(f, (seed,)),
        ensures
            next.chain == self.chain,
            next.arms.0 == self.arms.0,
            next.arms.1 == self.arms.1,
            next.arms.2 == self.arms.2,
            exists|seed: DagArmSeed<ForkOut>| call_ensures(f, (seed,), next.arms.3),
    {
        let seed = DagArmSeed { marker: PhantomData };
        let ghost given = seed;
        let arm = f(seed);
        let (a0, a1, a2) = self.arms;
        let next = DagChainFork { chain: self.chain, arms: (a0, a1, a2, arm), marker: PhantomData };
        assert(call_ensures(f, (given,), next.arms.3));
        next
    }
}

impl<
    In,
    ForkOut: 'static,
    Chain,
    A0: 'static,
    K0,
    A1: 'static,
    K1,
> DagChainFork<In, ForkOut, Chain, (DagArm<ForkOut, A0, K0>, DagArm<ForkOut, A1, K1>)> {
    /// Merges the two arms with a step that is shown their results.
    pub fn merge<R, MOut, Params, S: IntoMergeStep<R, (&'static A0, &'static A1), MOut, Params>>(
        self,
        f: S,
        registry: &Registry<R>,
    ) -> (next: DagChain<In, MOut, MergeNode2<Chain, K0, K1, S::Step, ForkOut, A0, A1, MOut>>) where
        S::Step: for<'x> MergeStepCall<R, (&'x A0, &'x A1), MOut>,
        ensures
            next.chain.chain == self.chain,
            next.chain.arm0 == self.arms.0.chain,
            next.chain.arm1 == self.arms.1.chain,
            next.chain.merge == f.resolved(),
    {
        let (a0, a1) = self.arms;
        DagChain {
            chain: MergeNode2 {
                chain: self.chain,
                arm0: a0.chain,
                arm1: a1.chain,
                merge: f.into_merge_step(registry),
                marker: PhantomData,
            },
            marker: PhantomData,
        }
    }
}

impl<
    In,
    ForkOut,
    Chain,
    K0,
    K1,
> DagChainFork<In, ForkOut, Chain, (DagArm<ForkOut, (), K0>, DagArm<ForkOut, (), K1>)> {
    /// Joins the two arms, none of which gives a value.
    pub fn join(self) -> (next: DagChain<In, (), JoinNode2<Chain, K0, K1, ForkOut>>)
        ensures
            next.chain.chain == self.chain,
            next.chain.arm0 == self.arms.0.chain,
            next.chain.arm1 == self.arms.1.chain,
    {
        let (a0, a1) = self.arms;
        DagChain {
            chain: JoinNode2 {
                chain: self.chain,
                arm0: a0.chain,
                arm1: a1.chain,
                marker: PhantomData,
            },
            marker: PhantomData,
        }
    }
}

impl<
    In,
    ForkOut: 'static,
    Chain,
    A0: 'static,
    K0,
    A1: 'static,
    K1,
    A2: 'static,
    K2,
> DagChainFork<
    In,
    ForkOut,
    Chain,
    (DagArm<ForkOut, A0, K0>, DagArm<ForkOut, A1, K1>, DagArm<ForkOut, A2, K2>),
> {
    /// Merges the three arms with a step that is shown their results.
    pub fn merge<
        R,
        MOut,
        Params,
        S: IntoMergeStep<R, (&'static A0, &'static A1, &'static A2), MOut, Params>,
    >(
        self,
        f: S,
        registry: &Registry<R>,
    ) -> (next: DagChain<
        In,
        MOut,
        MergeNode3<Chain, K0, K1, K2, S::Step, ForkOut, A0, A1, A2, MOut>,
    >) where
        S::Step: for<'x> MergeStepCall<R, (&'x A0, &'x A1, &'x A2), MOut>,
        ensures
            next.chain.chain == self.chain,
            next.chain.arm0 == self.arms.0.chain,
            next.chain.arm1 == self.arms.1.chain,
            next.chain.arm2 == self.arms.2.chain,
            next.chain.merge == f.resolved(),
    {
        let (a0, a1, a2) = self.arms;
        DagChain {
            chain: MergeNode3 {
                chain: self.chain,
                arm0: a0.chain,
                arm1: a1.chain,
                arm2: a2.chain,
                merge: f.into_merge_step(registry),
                marker: PhantomData,
            },
            marker: PhantomData,
        }
    }
}

impl<
    In,
    ForkOut,
    Chain,
    K0,
    K1,
    K2,
> DagChainFork<
    In,
    ForkOut,
    Chain,
    (DagArm<ForkOut, (), K0>, DagArm<ForkOut, (), K1>, DagArm<ForkOut, (), K2>),
> {
    /// Joins the three arms, none of which gives a value.
    pub fn join(self) -> (next: DagChain<In, (), JoinNode3<Chain, K0, K1, K2, ForkOut>>)
        ensures
            next.chain.chain == self.chain,
            next.chain.arm0 == self.arms.0.chain,
            next.chain.arm1 == self.arms.1.chain,
            next.chain.arm2 == self.arms.2.chain,
    {
        let (a0, a1, a2) = self.arms;
        DagChain {
            chain: JoinNode3 {
                chain: self.chain,
                arm0: a0.chain,
                arm1: a1.chain,
                arm2: a2.chain,
                marker: PhantomData,
            },
            marker: PhantomData,
        }
    }
}

impl<
    In,
    ForkOut: 'static,
    Chain,
    A0: 'static,
    K0,
    A1: 'static,
    K1,
    A2: 'static,
    K2,
    A3: 'static,
    K3,
> DagChainFork<
    In,
    ForkOut,
    Chain,
    (
        DagArm<ForkOut, A0, K0>,
        DagArm<ForkOut, A1, K1>,
        DagArm<ForkOut, A2, K2>,
        DagArm<ForkOut, A3, K3>,
    ),
> {
    /// Merges the four arms with a step that is shown their results.
    pub fn merge<
        R,
        MOut,
        Params,
        S: IntoMergeStep<R, (&'static A0, &'static A1, &'static A2, &'static A3), MOut, Params>,
    >(
        self,
        f: S,
        registry: &Registry<R>,
    ) -> (next: DagChain<
        In,
        MOut,
        MergeNode4<Chain, K0, K1, K2, K3, S::Step, ForkOut, A0, A1, A2, A3, MOut>,
    >) where
        S::Step: for<'x> MergeStepCall<R, (&'x A0, &'x A1, &'x A2, &'x A3), MOut>,
        ensures
            next.chain.chain == self.chain,
            next.chain.arm0 == self.arms.0.chain,
            next.chain.arm1 == self.arms.1.chain,
            next.chain.arm2 == self.arms.2.chain,
            next.chain.arm3 == self.arms.3.chain,
            next.chain.merge == f.resolved(),
    {
        let (a0, a1, a2, a3) = self.arms;
        DagChain {
            chain: MergeNode4 {
                chain: self.chain,
                arm0: a0.chain,
                arm1: a1.chain,
                arm2: a2.chain,
                arm3: a3.chain,
                merge: f.into_merge_step(registry),
                marker: PhantomData,
            },
            marker: PhantomData,
        }
    }
}

impl<
    In,
    ForkOut,
    Chain,
    K0,
    K1,
    K2,
    K3,
> DagChainFork<
    In,
    ForkOut,
    Chain,
    (
        DagArm<ForkOut, (), K0>,
        DagArm<ForkOut, (), K1>,
        DagArm<ForkOut, (), K2>,
        DagArm<ForkOut, (), K3>,
    ),
> {
    /// Joins the four arms, none of which gives a value.
    pub fn join(self) -> (next: DagChain<In, (), JoinNode4<Chain, K0, K1, K2, K3, ForkOut>>)
        ensures
            next.chain.chain == self.chain,
            next.chain.arm0 == self.arms.0.chain,
            next.chain.arm1 == self.arms.1.chain,
            next.chain.arm2 == self.arms.2.chain,
            next.chain.arm3 == self.arms.3.chain,
    {
        let (a0, a1, a2, a3) = self.arms;
        DagChain {
            chain: JoinNode4 {
                chain: self.chain,
                arm0: a0.chain,
                arm1: a1.chain,
                arm2: a2.chain,
                arm3: a3.chain,
                marker: PhantomData,
            },
            marker: PhantomData,
        }
    }
}

impl<In, ForkOut, Chain> DagArmFork<In, ForkOut, Chain, ()> {
    /// Adds the first arm.
    pub fn arm<AOut, ACh>(
        self,
        f: impl FnOnce(DagArmSeed<ForkOut>) -> DagArm<ForkOut, AOut, ACh>,
    ) -> (next: DagArmFork<In, ForkOut, Chain, (DagArm<ForkOut, AOut, ACh>,)>)
        requires
            forall|seed: DagArmSeed<ForkOut>| call_requires(f, (seed,)),
        ensures
            next.chain == self.chain,
            exists|seed: DagArmSeed<ForkOut>| call_ensures(f, (seed,), next.arms.0),
    {
        let seed = DagArmSeed { marker: PhantomData };
        let ghost given = seed;
        let arm = f(seed);
        let next = DagArmFork { chain: self.chain, arms: (arm,), marker: PhantomData };
        assert(call_ensures(f, (given,), next.arms.0));
        next
    }
}

impl<In, ForkOut, Chain, A0, K0> DagArmFork<In, ForkOut, Chain, (DagArm<ForkOut, A0, K0>,)> {
    /// Adds the second arm.
    pub fn arm<AOut, ACh>(
        self,
        f: impl FnOnce(DagArmSeed<ForkOut>) -> DagArm<ForkOut, AOut, ACh>,
    ) -> (next: DagArmFork<
        In,
        ForkOut,
        Chain,
        (DagArm<ForkOut, A0, K0>, DagArm<ForkOut, AOut, ACh>),
    >)
        requires
            forall|seed: DagArmSeed<ForkOut>| call_requires(f, (seed,)),
        ensures
            next.chain == self.chain,
            next.arms.0 == self.arms.0,
            exists|seed: DagArmSeed<ForkOut>| call_ensures(f, (seed,), next.arms.1),
    {
        let seed = DagArmSeed { marker: PhantomData };
        let ghost given = seed;
        let arm = f(seed);
        let (a0,) = self.arms;
        let next = DagArmFork { chain: self.chain, arms: (a0, arm), marker: PhantomData };
        assert(call_ensures(f, (given,), next.arms.1));
        next
    }
}

impl<
    In,
    ForkOut,
    Chain,
    A0,
    K0,
    A1,
    K1,
> DagArmFork<In, ForkOut, Chain, (DagArm<ForkOut, A0, K0>, DagArm<ForkOut, A1, K1>)> {
    /// Adds the third arm.
    pub fn arm<AOut, ACh>(
        self,
        f: impl FnOnce(DagArmSeed<ForkOut>) -> DagArm<ForkOut, AOut, ACh>,
    ) -> (next: DagArmFork<
        In,
        ForkOut,
        Chain,
        (DagArm<ForkOut, A0, K0>, DagArm<ForkOut, A1, K1>, DagArm<ForkOut, AOut, ACh>),
    >)
        requires
            forall|seed: DagArmSeed<ForkOut>| call_requires(f, (seed,)),
        ensures
            next.chain == self.chain,
            next.arms.0 == self.arms.0,
            next.arms.1 == self.arms.1,
            exists|seed: DagArmSeed<ForkOut>| call_ensures(f, (seed,), next.arms.2),
    {
        let seed = DagArmSeed { marker: PhantomData };
        let ghost given = seed;
        let arm = f(seed);
        let (a0, a1) = self.arms;
        let next = DagArmFork { chain: self.chain, arms: (a0, a1, arm), marker: PhantomData };
        assert(call_ensures(f, (given,), next.arms.2));
        next
    }
}

impl<
    In,
    ForkOut,
    Chain,
    A0,
    K0,
    A1,
    K1,
    A2,
    K2,
> DagArmFork<
    In,
    ForkOut,
    Chain,
    (DagArm<ForkOut, A0, K0>, DagArm<ForkOut, A1, K1>, DagArm<ForkOut, A2, K2>),
> {
    /// Adds the fourth arm.
    pub fn arm<AOut, ACh>(
        self,
        f: impl FnOnce(DagArmSeed<ForkOut>) -> DagArm<ForkOut, AOut, ACh>,
    ) -> (next: DagArmFork<
        In,
        ForkOut,
        Chain,
        (
            DagArm<ForkOut, A0, K0>,
            DagArm<ForkOut, A1, K1>,
            DagArm<ForkOut, A2, K2>,
            DagArm<ForkOut, AOut, ACh>,
        ),
    >)
        requires
            forall|seed: DagArmSeed<ForkOut>| call_requires(f, (seed,)),
        ensures
            next.chain == self.chain,
            next.arms.0 == self.arms.0,
            next.arms.1 == self.arms.1,
            next.arms.2 == self.arms.2,
            exists|seed: DagArmSeed<ForkOut>| call_ensures(f, (seed,), next.arms.3),
    {
        let seed = DagArmSeed { marker: PhantomData };
        let ghost given = seed;
        let arm = f(seed);
        let (a0, a1, a2) = self.arms;
        let next = DagArmFork { chain: self.chain, arms: (a0, a1, a2, arm), marker: PhantomData };
        assert(call_ensures(f, (given,), next.arms.3));
        next
    }
}

impl<
    In,
    ForkOut: 'static,
    Chain,
    A0: 'static,
    K0,
    A1: 'static,
    K1,
> DagArmFork<In, ForkOut, Chain, (DagArm<ForkOut, A0, K0>, DagArm<ForkOut, A1, K1>)> {
    /// Merges the two arms with a step that is shown their results.
    pub fn merge<R, MOut, Params, S: IntoMergeStep<R, (&'static A0, &'static A1), MOut, Params>>(
        self,
        f: S,
        registry: &Registry<R>,
    ) -> (next: DagArm<In, MOut, MergeNode2<Chain, K0, K1, S::Step, ForkOut, A0, A1, MOut>>) where
        S::Step: for<'x> MergeStepCall<R, (&'x A0, &'x A1), MOut>,
        ensures
            next.chain.chain == self.chain,
            next.chain.arm0 == self.arms.0.chain,
            next.chain.arm1 == self.arms.1.chain,
            next.chain.merge == f.resolved(),
    {
        let (a0, a1) = self.arms;
        DagArm {
            chain: MergeNode2 {
                chain: self.chain,
                arm0: a0.chain,
                arm1: a1.chain,
                merge: f.into_merge_step(registry),
                marker: PhantomData,
            },
            marker: PhantomData,
        }
    }
}

impl<
    In,
    ForkOut,
    Chain,
    K0,
    K1,
> DagArmFork<In, ForkOut, Chain, (DagArm<ForkOut, (), K0>, DagArm<ForkOut, (), K1>)> {
    /// Joins the two arms, none of which gives a value.
    pub fn join(self) -> (next: DagArm<In, (), JoinNode2<Chain, K0, K1, ForkOut>>)
        ensures
            next.chain.chain == self.chain,
            next.chain.arm0 == self.arms.0.chain,
            next.chain.arm1 == self.arms.1.chain,
    {
        let (a0, a1) = self.arms;
        DagArm {
            chain: JoinNode2 {
                chain: self.chain,
                arm0: a0.chain,
                arm1: a1.chain,
                marker: PhantomData,
            },
            marker: PhantomData,
        }
    }
}

impl<
    In,
    ForkOut: 'static,
    Chain,
    A0: 'static,
    K0,
    A1: 'static,
    K1,
    A2: 'static,
    K2,
> DagArmFork<
    In,
    ForkOut,
    Chain,
    (DagArm<ForkOut, A0, K0>, DagArm<ForkOut, A1, K1>, DagArm<ForkOut, A2, K2>),
> {
    /// Merges the three arms with a step that is shown their results.
    pub fn merge<
        R,
        MOut,
        Params,
        S: IntoMergeStep<R, (&'static A0, &'static A1, &'static A2), MOut, Params>,
    >(
        self,
        f: S,
        registry: &Registry<R>,
    ) -> (next: DagArm<
        In,
        MOut,
        MergeNode3<Chain, K0, K1, K2, S::Step, ForkOut, A0, A1, A2, MOut>,
    >) where
        S::Step: for<'x> MergeStepCall<R, (&'x A0, &'x A1, &'x A2), MOut>,
        ensures
            next.chain.chain == self.chain,
            next.chain.arm0 == self.arms.0.chain,
            next.chain.arm1 == self.arms.1.chain,
            next.chain.arm2 == self.arms.2.chain,
            next.chain.merge == f.resolved(),
    {
        let (a0, a1, a2) = self.arms;
        DagArm {
            chain: MergeNode3 {
                chain: self.chain,
                arm0: a0.chain,
                arm1: a1.chain,
                arm2: a2.chain,
                merge: f.into_merge_step(registry),
                marker: PhantomData,
            },
            marker: PhantomData,
        }
    }
}

impl<
    In,
    ForkOut,
    Chain,
    K0,
    K1,
    K2,
> DagArmFork<
    In,
    ForkOut,
    Chain,
    (DagArm<ForkOut, (), K0>, DagArm<ForkOut, (), K1>, DagArm<ForkOut, (), K2>),
> {
    /// Joins the three arms, none of which gives a value.
    pub fn join(self) -> (next: DagArm<In, (), JoinNode3<Chain, K0, K1, K2, ForkOut>>)
        ensures
            next.chain.chain == self.chain,
            next.chain.arm0 == self.arms.0.chain,
            next.chain.arm1 == self.arms.1.chain,
            next.chain.arm2 == self.arms.2.chain,
    {
        let (a0, a1, a2) = self.arms;
        DagArm {
            chain: JoinNode3 {
                chain: self.chain,
                arm0: a0.chain,
                arm1: a1.chain,
                arm2: a2.chain,
                marker: PhantomData,
            },
            marker: PhantomData,
        }
    }
}

impl<
    In,
    ForkOut: 'static,
    Chain,
    A0: 'static,
    K0,
    A1: 'static,
    K1,
    A2: 'static,
    K2,
    A3: 'static,
    K3,
> DagArmFork<
    In,
    ForkOut,
    Chain,
    (
        DagArm<ForkOut, A0, K0>,
        DagArm<ForkOut, A1, K1>,
        DagArm<ForkOut, A2, K2>,
        DagArm<ForkOut, A3, K3>,
    ),
> {
    /// Merges the four arms with a step that is shown their results.
    pub fn merge<
        R,
        MOut,
        Params,
        S: IntoMergeStep<R, (&'static A0, &'static A1, &'static A2, &'static A3), MOut, Params>,
    >(
        self,
        f: S,
        registry: &Registry<R>,
    ) -> (next: DagArm<
        In,
        MOut,
        MergeNode4<Chain, K0, K1, K2, K3, S::Step, ForkOut, A0, A1, A2, A3, MOut>,
    >) where
        S::Step: for<'x> MergeStepCall<R, (&'x A0, &'x A1, &'x A2, &'x A3), MOut>,
        ensures
            next.chain.chain == self.chain,
            next.chain.arm0 == self.arms.0.chain,
            next.chain.arm1 == self.arms.1.chain,
            next.chain.arm2 == self.arms.2.chain,
            next.chain.arm3 == self.arms.3.chain,
            next.chain.merge == f.resolved(),
    {
        let (a0, a1, a2, a3) = self.arms;
        DagArm {
            chain: MergeNode4 {
                chain: self.chain,
                arm0: a0.chain,
                arm1: a1.chain,
                arm2: a2.chain,
                arm3: a3.chain,
                merge: f.into_merge_step(registry),
                marker: PhantomData,
            },
            marker: PhantomData,
        }
    }
}

impl<
    In,
    ForkOut,
    Chain,
    K0,
    K1,
    K2,
    K3,
> DagArmFork<
    In,
    ForkOut,
    Chain,
    (
        DagArm<ForkOut, (), K0>,
        DagArm<ForkOut, (), K1>,
        DagArm<ForkOut, (), K2>,
        DagArm<ForkOut, (), K3>,
    ),
> {
    /// Joins the four arms, none of which gives a value.
    pub fn join(self) -> (next: DagArm<In, (), JoinNode4<Chain, K0, K1, K2, K3, ForkOut>>)
        ensures
            next.chain.chain == self.chain,
            next.chain.arm0 == self.arms.0.chain,
            next.chain.arm1 == self.arms.1.chain,
            next.chain.arm2 == self.arms.2.chain,
            next.chain.arm3 == self.arms.3.chain,
    {
        let (a0, a1, a2, a3) = self.arms;
        DagArm {
            chain: JoinNode4 {
                chain: self.chain,
                arm0: a0.chain,
                arm1: a1.chain,
                arm2: a2.chain,
                arm3: a3.chain,
                marker: PhantomData,
            },
            marker: PhantomData,
        }
    }
}

impl<In, Out: 'static, Chain> DagChain<In, Out, Chain> {
    /// Appends a step, which is shown the value and gives the next one.
    pub fn then<R, NewOut, Params, S: IntoStep<R, &'static Out, NewOut, Params>>(
        self,
        f: S,
        registry: &Registry<R>,
    ) -> (next: DagChain<In, NewOut, DagThenNode<Chain, S::Step, NewOut>>) where
        S::Step: for<'a> StepCall<R, &'a Out, Out = NewOut>,
        ensures
            next.chain.prev == self.chain,
            next.chain.step == f.resolved(),
    {
        DagChain {
            chain: DagThenNode {
                prev: self.chain,
                step: f.into_step(registry),
                marker: PhantomData,
            },
            marker: PhantomData,
        }
    }

    /// Hands the value to a handler.
    pub fn dispatch<H>(self, handler: H) -> (next: DagChain<In, (), DispatchNode<Chain, H>>)
        ensures
            next.chain.prev == self.chain,
            next.chain.handler == handler,
    {
        DagChain {
            chain: DispatchNode {
                prev: self.chain,
                handler,
            },
            marker: PhantomData,
        }
    }

    /// Keeps the value if a predicate holds of it.
    pub fn guard<R, Params, S: IntoRefStep<R, Out, bool, Params>>(
        self,
        f: S,
        registry: &Registry<R>,
    ) -> (next: DagChain<In, Option<Out>, GuardNode<Chain, S::Step>>)
        ensures
            next.chain.prev == self.chain,
            next.chain.step == f.resolved(),
    {
        DagChain {
            chain: GuardNode {
                prev: self.chain,
                step: f.into_ref_step(registry),
            },
            marker: PhantomData,
        }
    }

    /// Shows the value to a step and hands it on.
    pub fn tap<R, Params, S: IntoRefStep<R, Out, (), Params>>(
        self,
        f: S,
        registry: &Registry<R>,
    ) -> (next: DagChain<In, Out, TapNode<Chain, S::Step>>)
        ensures
            next.chain.prev == self.chain,
            next.chain.step == f.resolved(),
    {
        DagChain {
            chain: TapNode {
                prev: self.chain,
                step: f.into_ref_step(registry),
            },
            marker: PhantomData,
        }
    }

    /// Shows the value to one of two arms, as a predicate decides.
    pub fn route<R, NewOut, C0, C1, Params, Pred: IntoRefStep<R, Out, bool, Params>>(
        self,
        pred: Pred,
        registry: &Registry<R>,
        on_true: DagArm<Out, NewOut, C0>,
        on_false: DagArm<Out, NewOut, C1>,
    ) -> (next: DagChain<In, NewOut, DagRouteNode<Chain, Pred::Step, C0, C1, NewOut>>) where
        C0: for<'a> ChainCall<R, &'a Out, Out = NewOut>,
        C1: for<'a> ChainCall<R, &'a Out, Out = NewOut>,
        ensures
            next.chain.prev == self.chain,
            next.chain.pred == pred.resolved(),
            next.chain.on_true == on_true.chain,
            next.chain.on_false == on_false.chain,
    {
        DagChain {
            chain: DagRouteNode {
                prev: self.chain,
                pred: pred.into_ref_step(registry),
                on_true: on_true.chain,
                on_false: on_false.chain,
                marker: PhantomData,
            },
            marker: PhantomData,
        }
    }

    /// Shows the value to a side chain and hands it on.
    pub fn tee<C>(self, side: DagArm<Out, (), C>) -> (next: DagChain<In, Out, TeeNode<Chain, C>>)
        ensures
            next.chain.prev == self.chain,
            next.chain.side == side.chain,
    {
        DagChain {
            chain: TeeNode {
                prev: self.chain,
                side: side.chain,
            },
            marker: PhantomData,
        }
    }

    /// Shows the value to a step with an accumulator that starts at `initial`.
    pub fn scan<R, Acc, NewOut, Params, S: IntoRefScanStep<R, Acc, Out, NewOut, Params>>(
        self,
        initial: Acc,
        f: S,
        registry: &Registry<R>,
    ) -> (next: DagChain<In, NewOut, RefScanNode<Chain, S::Step, Acc>>)
        ensures
            next.chain.prev == self.chain,
            next.chain.step == f.resolved(),
            next.chain.acc == initial,
    {
        DagChain {
            chain: RefScanNode {
                prev: self.chain,
                step: f.into_ref_scan_step(registry),
                acc: initial,
            },
            marker: PhantomData,
        }
    }
}

impl<In, Out: PartialEq + Clone, Chain> DagChain<In, Out, Chain> {
    /// Drops a value that equals the one before it.
    pub fn dedup(self) -> (next: DagChain<In, Option<Out>, DedupNode<Chain, Out>>)
        ensures
            next.chain.prev == self.chain,
            next.chain.last == None::<Out>,
    {
        DagChain {
            chain: DedupNode {
                prev: self.chain,
                last: None,
            },
            marker: PhantomData,
        }
    }
}

impl<In, Chain> DagChain<In, bool, Chain> {
    /// Negates the value.
    pub fn not(self) -> (next: DagChain<In, bool, NotNode<Chain>>)
        ensures
            next.chain.prev == self.chain,
    {
        DagChain {
            chain: NotNode {
                prev: self.chain,

            },
            marker: PhantomData,
        }
    }

    /// Conjunction with a producer, which is called only where the value is true.
    pub fn and<R, Params, S: IntoProducer<R, bool, Params>>(
        self,
        f: S,
        registry: &Registry<R>,
    ) -> (next: DagChain<In, bool, AndBoolNode<Chain, S::Step>>)
        ensures
            next.chain.prev == self.chain,
            next.chain.producer == f.resolved(),
    {
        DagChain {
            chain: AndBoolNode {
                prev: self.chain,
                producer: f.into_producer(registry),
            },
            marker: PhantomData,
        }
    }

    /// Disjunction with a producer, which is called only where the value is false.
    pub fn or<R, Params, S: IntoProducer<R, bool, Params>>(
        self,
        f: S,
        registry: &Registry<R>,
    ) -> (next: DagChain<In, bool, OrBoolNode<Chain, S::Step>>)
        ensures
            next.chain.prev == self.chain,
            next.chain.producer == f.resolved(),
    {
        DagChain {
            chain: OrBoolNode {
                prev: self.chain,
                producer: f.into_producer(registry),
            },
            marker: PhantomData,
        }
    }

    /// Exclusive disjunction with a producer, which is always called.
    pub fn xor<R, Params, S: IntoProducer<R, bool, Params>>(
        self,
        f: S,
        registry: &Registry<R>,
    ) -> (next: DagChain<In, bool, XorBoolNode<Chain, S::Step>>)
        ensures
            next.chain.prev == self.chain,
            next.chain.producer == f.resolved(),
    {
        DagChain {
            chain: XorBoolNode {
                prev: self.chain,
                producer: f.into_producer(registry),
            },
            marker: PhantomData,
        }
    }
}

impl<'a, In, T: Clone, Chain> DagChain<In, &'a T, Chain> {
    /// Clones the value behind the reference.
    pub fn cloned(self) -> (next: DagChain<In, T, ClonedNode<Chain>>)
        ensures
            next.chain.prev == self.chain,
    {
        DagChain {
            chain: ClonedNode {
                prev: self.chain,

            },
            marker: PhantomData,
        }
    }
}

impl<'a, In, T: Clone, Chain> DagChain<In, Option<&'a T>, Chain> {
    /// Clones the value behind the reference.
    pub fn cloned(self) -> (next: DagChain<In, Option<T>, ClonedOptionNode<Chain, T>>)
        ensures
            next.chain.prev == self.chain,
    {
        DagChain {
            chain: ClonedOptionNode {
                prev: self.chain,
                marker: PhantomData,
            },
            marker: PhantomData,
        }
    }
}

impl<'a, In, T: Clone, E, Chain> DagChain<In, Result<&'a T, E>, Chain> {
    /// Clones the value behind the reference.
    pub fn cloned(self) -> (next: DagChain<In, Result<T, E>, ClonedResultNode<Chain, T, E>>)
        ensures
            next.chain.prev == self.chain,
    {
        DagChain {
            chain: ClonedResultNode {
                prev: self.chain,
                marker: PhantomData,
            },
            marker: PhantomData,
        }
    }
}

impl<In, T: 'static, Chain> DagChain<In, Option<T>, Chain> {
    /// Shows the value inside `Some` to a step.
    pub fn map<R, U, Params, S: IntoStep<R, &'static T, U, Params>>(
        self,
        f: S,
        registry: &Registry<R>,
    ) -> (next: DagChain<In, Option<U>, DagMapOptionNode<Chain, S::Step, T, U>>) where
        S::Step: for<'a> StepCall<R, &'a T, Out = U>,
        ensures
            next.chain.prev == self.chain,
            next.chain.step == f.resolved(),
    {
        DagChain {
            chain: DagMapOptionNode {
                prev: self.chain,
                step: f.into_step(registry),
                marker: PhantomData,
            },
            marker: PhantomData,
        }
    }

    /// Shows the value inside `Some` to a step that may itself give `None`.
    pub fn and_then<R, U, Params, S: IntoStep<R, &'static T, Option<U>, Params>>(
        self,
        f: S,
        registry: &Registry<R>,
    ) -> (next: DagChain<In, Option<U>, DagAndThenOptionNode<Chain, S::Step, T, U>>) where
        S::Step: for<'a> StepCall<R, &'a T, Out = Option<U>>,
        ensures
            next.chain.prev == self.chain,
            next.chain.step == f.resolved(),
    {
        DagChain {
            chain: DagAndThenOptionNode {
                prev: self.chain,
                step: f.into_step(registry),
                marker: PhantomData,
            },
            marker: PhantomData,
        }
    }

    /// Calls a producer on `None`.
    pub fn on_none<R, Params, S: IntoProducer<R, (), Params>>(
        self,
        f: S,
        registry: &Registry<R>,
    ) -> (next: DagChain<In, Option<T>, OnNoneNode<Chain, S::Step, T>>)
        ensures
            next.chain.prev == self.chain,
            next.chain.producer == f.resolved(),
    {
        DagChain {
            chain: OnNoneNode {
                prev: self.chain,
                producer: f.into_producer(registry),
                marker: PhantomData,
            },
            marker: PhantomData,
        }
    }

    /// Keeps the value inside `Some` if a predicate holds of it.
    pub fn filter<R, Params, S: IntoRefStep<R, T, bool, Params>>(
        self,
        f: S,
        registry: &Registry<R>,
    ) -> (next: DagChain<In, Option<T>, FilterNode<Chain, S::Step, T>>)
        ensures
            next.chain.prev == self.chain,
            next.chain.step == f.resolved(),
    {
        DagChain {
            chain: FilterNode {
                prev: self.chain,
                step: f.into_ref_step(registry),
                marker: PhantomData,
            },
            marker: PhantomData,
        }
    }

    /// Shows the value inside `Some` to a step.
    pub fn inspect<R, Params, S: IntoRefStep<R, T, (), Params>>(
        self,
        f: S,
        registry: &Registry<R>,
    ) -> (next: DagChain<In, Option<T>, InspectOptionNode<Chain, S::Step, T>>)
        ensures
            next.chain.prev == self.chain,
            next.chain.step == f.resolved(),
    {
        DagChain {
            chain: InspectOptionNode {
                prev: self.chain,
                step: f.into_ref_step(registry),
                marker: PhantomData,
            },
            marker: PhantomData,
        }
    }

    /// Turns `None` into an error.
    pub fn ok_or<E: Clone>(
        self,
        err: E,
    ) -> (next: DagChain<In, Result<T, E>, OkOrNode<Chain, E, T>>)
        ensures
            next.chain.prev == self.chain,
            next.chain.err == err,
    {
        DagChain {
            chain: OkOrNode {
                prev: self.chain,
                err,
                marker: PhantomData,
            },
            marker: PhantomData,
        }
    }

    /// Turns `None` into an error that a producer makes.
    pub fn ok_or_else<R, E, Params, S: IntoProducer<R, E, Params>>(
        self,
        f: S,
        registry: &Registry<R>,
    ) -> (next: DagChain<In, Result<T, E>, OkOrElseNode<Chain, S::Step, T>>)
        ensures
            next.chain.prev == self.chain,
            next.chain.producer == f.resolved(),
    {
        DagChain {
            chain: OkOrElseNode {
                prev: self.chain,
                producer: f.into_producer(registry),
                marker: PhantomData,
            },
            marker: PhantomData,
        }
    }

    /// Replaces `None` by a default.
    pub fn unwrap_or(
        self,
        default: T,
    ) -> (next: DagChain<In, T, UnwrapOrOptionNode<Chain, T>>) where T: Clone
        ensures
            next.chain.prev == self.chain,
            next.chain.default == default,
    {
        DagChain {
            chain: UnwrapOrOptionNode {
                prev: self.chain,
                default,
            },
            marker: PhantomData,
        }
    }

    /// Replaces `None` by what a producer makes.
    pub fn unwrap_or_else<R, Params, S: IntoProducer<R, T, Params>>(
        self,
        f: S,
        registry: &Registry<R>,
    ) -> (next: DagChain<In, T, UnwrapOrElseOptionNode<Chain, S::Step, T>>)
        ensures
            next.chain.prev == self.chain,
            next.chain.producer == f.resolved(),
    {
        DagChain {
            chain: UnwrapOrElseOptionNode {
                prev: self.chain,
                producer: f.into_producer(registry),
                marker: PhantomData,
            },
            marker: PhantomData,
        }
    }
}

impl<In, T: 'static, E: 'static, Chain> DagChain<In, Result<T, E>, Chain> {
    /// Shows the value inside `Ok` to a step.
    pub fn map<R, U, Params, S: IntoStep<R, &'static T, U, Params>>(
        self,
        f: S,
        registry: &Registry<R>,
    ) -> (next: DagChain<In, Result<U, E>, DagMapResultNode<Chain, S::Step, T, E, U>>) where
        S::Step: for<'a> StepCall<R, &'a T, Out = U>,
        ensures
            next.chain.prev == self.chain,
            next.chain.step == f.resolved(),
    {
        DagChain {
            chain: DagMapResultNode {
                prev: self.chain,
                step: f.into_step(registry),
                marker: PhantomData,
            },
            marker: PhantomData,
        }
    }

    /// Shows the value inside `Ok` to a step that may itself fail.
    pub fn and_then<R, U, Params, S: IntoStep<R, &'static T, Result<U, E>, Params>>(
        self,
        f: S,
        registry: &Registry<R>,
    ) -> (next: DagChain<In, Result<U, E>, DagAndThenResultNode<Chain, S::Step, T, E, U>>) where
        S::Step: for<'a> StepCall<R, &'a T, Out = Result<U, E>>,
        ensures
            next.chain.prev == self.chain,
            next.chain.step == f.resolved(),
    {
        DagChain {
            chain: DagAndThenResultNode {
                prev: self.chain,
                step: f.into_step(registry),
                marker: PhantomData,
            },
            marker: PhantomData,
        }
    }

    /// Shows the error to a step and drops it.
    pub fn catch<R, Params, S: IntoStep<R, &'static E, (), Params>>(
        self,
        f: S,
        registry: &Registry<R>,
    ) -> (next: DagChain<In, Option<T>, DagCatchNode<Chain, S::Step, T, E>>) where
        S::Step: for<'a> StepCall<R, &'a E, Out = ()>,
        ensures
            next.chain.prev == self.chain,
            next.chain.step == f.resolved(),
    {
        DagChain {
            chain: DagCatchNode {
                prev: self.chain,
                step: f.into_step(registry),
                marker: PhantomData,
            },
            marker: PhantomData,
        }
    }

    /// Hands the error to a step that gives another.
    pub fn map_err<R, E2, Params, S: IntoStep<R, E, E2, Params>>(
        self,
        f: S,
        registry: &Registry<R>,
    ) -> (next: DagChain<In, Result<T, E2>, MapErrNode<Chain, S::Step, T, E>>)
        ensures
            next.chain.prev == self.chain,
            next.chain.step == f.resolved(),
    {
        DagChain {
            chain: MapErrNode {
                prev: self.chain,
                step: f.into_step(registry),
                marker: PhantomData,
            },
            marker: PhantomData,
        }
    }

    /// Hands the error to a step that may recover.
    pub fn or_else<R, E2, Params, S: IntoStep<R, E, Result<T, E2>, Params>>(
        self,
        f: S,
        registry: &Registry<R>,
    ) -> (next: DagChain<In, Result<T, E2>, OrElseNode<Chain, S::Step, T, E, E2>>)
        ensures
            next.chain.prev == self.chain,
            next.chain.step == f.resolved(),
    {
        DagChain {
            chain: OrElseNode {
                prev: self.chain,
                step: f.into_step(registry),
                marker: PhantomData,
            },
            marker: PhantomData,
        }
    }

    /// Shows the value inside `Ok` to a step.
    pub fn inspect<R, Params, S: IntoRefStep<R, T, (), Params>>(
        self,
        f: S,
        registry: &Registry<R>,
    ) -> (next: DagChain<In, Result<T, E>, InspectResultNode<Chain, S::Step, T, E>>)
        ensures
            next.chain.prev == self.chain,
            next.chain.step == f.resolved(),
    {
        DagChain {
            chain: InspectResultNode {
                prev: self.chain,
                step: f.into_ref_step(registry),
                marker: PhantomData,
            },
            marker: PhantomData,
        }
    }

    /// Shows the error to a step.
    pub fn inspect_err<R, Params, S: IntoRefStep<R, E, (), Params>>(
        self,
        f: S,
        registry: &Registry<R>,
    ) -> (next: DagChain<In, Result<T, E>, InspectErrNode<Chain, S::Step, T, E>>)
        ensures
            next.chain.prev == self.chain,
            next.chain.step == f.resolved(),
    {
        DagChain {
            chain: InspectErrNode {
                prev: self.chain,
                step: f.into_ref_step(registry),
                marker: PhantomData,
            },
            marker: PhantomData,
        }
    }

    /// Drops the error.
    pub fn ok(self) -> (next: DagChain<In, Option<T>, OkResultNode<Chain, T, E>>)
        ensures
            next.chain.prev == self.chain,
    {
        DagChain {
            chain: OkResultNode {
                prev: self.chain,
                marker: PhantomData,
            },
            marker: PhantomData,
        }
    }

    /// Replaces an error by a default.
    pub fn unwrap_or(
        self,
        default: T,
    ) -> (next: DagChain<In, T, UnwrapOrResultNode<Chain, T, E>>) where T: Clone
        ensures
            next.chain.prev == self.chain,
            next.chain.default == default,
    {
        DagChain {
            chain: UnwrapOrResultNode {
                prev: self.chain,
                default,
                marker: PhantomData,
            },
            marker: PhantomData,
        }
    }

    /// Replaces an error by what a step makes of it.
    pub fn unwrap_or_else<R, Params, S: IntoStep<R, E, T, Params>>(
        self,
        f: S,
        registry: &Registry<R>,
    ) -> (next: DagChain<In, T, UnwrapOrElseResultNode<Chain, S::Step, T, E>>)
        ensures
            next.chain.prev == self.chain,
            next.chain.step == f.resolved(),
    {
        DagChain {
            chain: UnwrapOrElseResultNode {
                prev: self.chain,
                step: f.into_step(registry),
                marker: PhantomData,
            },
            marker: PhantomData,
        }
    }
}

impl<In, Out: 'static, Chain> DagArm<In, Out, Chain> {
    /// Appends a step, which is shown the value and gives the next one.
    pub fn then<R, NewOut, Params, S: IntoStep<R, &'static Out, NewOut, Params>>(
        self,
        f: S,
        registry: &Registry<R>,
    ) -> (next: DagArm<In, NewOut, DagThenNode<Chain, S::Step, NewOut>>) where
        S::Step: for<'a> StepCall<R, &'a Out, Out = NewOut>,
        ensures
            next.chain.prev == self.chain,
            next.chain.step == f.resolved(),
    {
        DagArm {
            chain: DagThenNode {
                prev: self.chain,
                step: f.into_step(registry),
                marker: PhantomData,
            },
            marker: PhantomData,
        }
    }

    /// Hands the value to a handler.
    pub fn dispatch<H>(self, handler: H) -> (next: DagArm<In, (), DispatchNode<Chain, H>>)
        ensures
            next.chain.prev == self.chain,
            next.chain.handler == handler,
    {
        DagArm {
            chain: DispatchNode {
                prev: self.chain,
                handler,
            },
            marker: PhantomData,
        }
    }

    /// Keeps the value if a predicate holds of it.
    pub fn guard<R, Params, S: IntoRefStep<R, Out, bool, Params>>(
        self,
        f: S,
        registry: &Registry<R>,
    ) -> (next: DagArm<In, Option<Out>, GuardNode<Chain, S::Step>>)
        ensures
            next.chain.prev == self.chain,
            next.chain.step == f.resolved(),
    {
        DagArm {
            chain: GuardNode {
                prev: self.chain,
                step: f.into_ref_step(registry),
            },
            marker: PhantomData,
        }
    }

    /// Shows the value to a step and hands it on.
    pub fn tap<R, Params, S: IntoRefStep<R, Out, (), Params>>(
        self,
        f: S,
        registry: &Registry<R>,
    ) -> (next: DagArm<In, Out, TapNode<Chain, S::Step>>)
        ensures
            next.chain.prev == self.chain,
            next.chain.step == f.resolved(),
    {
        DagArm {
            chain: TapNode {
                prev: self.chain,
                step: f.into_ref_step(registry),
            },
            marker: PhantomData,
        }
    }

    /// Shows the value to one of two arms, as a predicate decides.
    pub fn route<R, NewOut, C0, C1, Params, Pred: IntoRefStep<R, Out, bool, Params>>(
        self,
        pred: Pred,
        registry: &Registry<R>,
        on_true: DagArm<Out, NewOut, C0>,
        on_false: DagArm<Out, NewOut, C1>,
    ) -> (next: DagArm<In, NewOut, DagRouteNode<Chain, Pred::Step, C0, C1, NewOut>>) where
        C0: for<'a> ChainCall<R, &'a Out, Out = NewOut>,
        C1: for<'a> ChainCall<R, &'a Out, Out = NewOut>,
        ensures
            next.chain.prev == self.chain,
            next.chain.pred == pred.resolved(),
            next.chain.on_true == on_true.chain,
            next.chain.on_false == on_false.chain,
    {
        DagArm {
            chain: DagRouteNode {
                prev: self.chain,
                pred: pred.into_ref_step(registry),
                on_true: on_true.chain,
                on_false: on_false.chain,
                marker: PhantomData,
            },
            marker: PhantomData,
        }
    }

    /// Shows the value to a side chain and hands it on.
    pub fn tee<C>(self, side: DagArm<Out, (), C>) -> (next: DagArm<In, Out, TeeNode<Chain, C>>)
        ensures
            next.chain.prev == self.chain,
            next.chain.side == side.chain,
    {
        DagArm {
            chain: TeeNode {
                prev: self.chain,
                side: side.chain,
            },
            marker: PhantomData,
        }
    }

    /// Shows the value to a step with an accumulator that starts at `initial`.
    pub fn scan<R, Acc, NewOut, Params, S: IntoRefScanStep<R, Acc, Out, NewOut, Params>>(
        self,
        initial: Acc,
        f: S,
        registry: &Registry<R>,
    ) -> (next: DagArm<In, NewOut, RefScanNode<Chain, S::Step, Acc>>)
        ensures
            next.chain.prev == self.chain,
            next.chain.step == f.resolved(),
            next.chain.acc == initial,
    {
        DagArm {
            chain: RefScanNode {
                prev: self.chain,
                step: f.into_ref_scan_step(registry),
                acc: initial,
            },
            marker: PhantomData,
        }
    }
}

impl<In, Out: PartialEq + Clone, Chain> DagArm<In, Out, Chain> {
    /// Drops a value that equals the one before it.
    pub fn dedup(self) -> (next: DagArm<In, Option<Out>, DedupNode<Chain, Out>>)
        ensures
            next.chain.prev == self.chain,
            next.chain.last == None::<Out>,
    {
        DagArm {
            chain: DedupNode {
                prev: self.chain,
                last: None,
            },
            marker: PhantomData,
        }
    }
}

impl<In, Chain> DagArm<In, bool, Chain> {
    /// Negates the value.
    pub fn not(self) -> (next: DagArm<In, bool, NotNode<Chain>>)
        ensures
            next.chain.prev == self.chain,
    {
        DagArm {
            chain: NotNode {
                prev: self.chain,

            },
            marker: PhantomData,
        }
    }

    /// Conjunction with a producer, which is called only where the value is true.
    pub fn and<R, Params, S: IntoProducer<R, bool, Params>>(
        self,
        f: S,
        registry: &Registry<R>,
    ) -> (next: DagArm<In, bool, AndBoolNode<Chain, S::Step>>)
        ensures
            next.chain.prev == self.chain,
            next.chain.producer == f.resolved(),
    {
        DagArm {
            chain: AndBoolNode {
                prev: self.chain,
                producer: f.into_producer(registry),
            },
            marker: PhantomData,
        }
    }

    /// Disjunction with a producer, which is called only where the value is false.
    pub fn or<R, Params, S: IntoProducer<R, bool, Params>>(
        self,
        f: S,
        registry: &Registry<R>,
    ) -> (next: DagArm<In, bool, OrBoolNode<Chain, S::Step>>)
        ensures
            next.chain.prev == self.chain,
            next.chain.producer == f.resolved(),
    {
        DagArm {
            chain: OrBoolNode {
                prev: self.chain,
                producer: f.into_producer(registry),
            },
            marker: PhantomData,
        }
    }

    /// Exclusive disjunction with a producer, which is always called.
    pub fn xor<R, Params, S: IntoProducer<R, bool, Params>>(
        self,
        f: S,
        registry: &Registry<R>,
    ) -> (next: DagArm<In, bool, XorBoolNode<Chain, S::Step>>)
        ensures
            next.chain.prev == self.chain,
            next.chain.producer == f.resolved(),
    {
        DagArm {
            chain: XorBoolNode {
                prev: self.chain,
                producer: f.into_producer(registry),
            },
            marker: PhantomData,
        }
    }
}

impl<'a, In, T: Clone, Chain> DagArm<In, &'a T, Chain> {
    /// Clones the value behind the reference.
    pub fn cloned(self) -> (next: DagArm<In, T, ClonedNode<Chain>>)
        ensures
            next.chain.prev == self.chain,
    {
        DagArm {
            chain: ClonedNode {
                prev: self.chain,

            },
            marker: PhantomData,
        }
    }
}

impl<'a, In, T: Clone, Chain> DagArm<In, Option<&'a T>, Chain> {
    /// Clones the value behind the reference.
    pub fn cloned(self) -> (next: DagArm<In, Option<T>, ClonedOptionNode<Chain, T>>)
        ensures
            next.chain.prev == self.chain,
    {
        DagArm {
            chain: ClonedOptionNode {
                prev: self.chain,
                marker: PhantomData,
            },
            marker: PhantomData,
        }
    }
}

impl<'a, In, T: Clone, E, Chain> DagArm<In, Result<&'a T, E>, Chain> {
    /// Clones the value behind the reference.
    pub fn cloned(self) -> (next: DagArm<In, Result<T, E>, ClonedResultNode<Chain, T, E>>)
        ensures
            next.chain.prev == self.chain,
    {
        DagArm {
            chain: ClonedResultNode {
                prev: self.chain,
                marker: PhantomData,
            },
            marker: PhantomData,
        }
    }
}

impl<In, T: 'static, Chain> DagArm<In, Option<T>, Chain> {
    /// Shows the value inside `Some` to a step.
    pub fn map<R, U, Params, S: IntoStep<R, &'static T, U, Params>>(
        self,
        f: S,
        registry: &Registry<R>,
    ) -> (next: DagArm<In, Option<U>, DagMapOptionNode<Chain, S::Step, T, U>>) where
        S::Step: for<'a> StepCall<R, &'a T, Out = U>,
        ensures
            next.chain.prev == self.chain,
            next.chain.step == f.resolved(),
    {
        DagArm {
            chain: DagMapOptionNode {
                prev: self.chain,
                step: f.into_step(registry),
                marker: PhantomData,
            },
            marker: PhantomData,
        }
    }

    /// Shows the value inside `Some` to a step that may itself give `None`.
    pub fn and_then<R, U, Params, S: IntoStep<R, &'static T, Option<U>, Params>>(
        self,
        f: S,
        registry: &Registry<R>,
    ) -> (next: DagArm<In, Option<U>, DagAndThenOptionNode<Chain, S::Step, T, U>>) where
        S::Step: for<'a> StepCall<R, &'a T, Out = Option<U>>,
        ensures
            next.chain.prev == self.chain,
            next.chain.step == f.resolved(),
    {
        DagArm {
            chain: DagAndThenOptionNode {
                prev: self.chain,
                step: f.into_step(registry),
                marker: PhantomData,
            },
            marker: PhantomData,
        }
    }

    /// Calls a producer on `None`.
    pub fn on_none<R, Params, S: IntoProducer<R, (), Params>>(
        self,
        f: S,
        registry: &Registry<R>,
    ) -> (next: DagArm<In, Option<T>, OnNoneNode<Chain, S::Step, T>>)
        ensures
            next.chain.prev == self.chain,
            next.chain.producer == f.resolved(),
    {
        DagArm {
            chain: OnNoneNode {
                prev: self.chain,
                producer: f.into_producer(registry),
                marker: PhantomData,
            },
            marker: PhantomData,
        }
    }

    /// Keeps the value inside `Some` if a predicate holds of it.
    pub fn filter<R, Params, S: IntoRefStep<R, T, bool, Params>>(
        self,
        f: S,
        registry: &Registry<R>,
    ) -> (next: DagArm<In, Option<T>, FilterNode<Chain, S::Step, T>>)
        ensures
            next.chain.prev == self.chain,
            next.chain.step == f.resolved(),
    {
        DagArm {
            chain: FilterNode {
                prev: self.chain,
                step: f.into_ref_step(registry),
                marker: PhantomData,
            },
            marker: PhantomData,
        }
    }

    /// Shows the value inside `Some` to a step.
    pub fn inspect<R, Params, S: IntoRefStep<R, T, (), Params>>(
        self,
        f: S,
        registry: &Registry<R>,
    ) -> (next: DagArm<In, Option<T>, InspectOptionNode<Chain, S::Step, T>>)
        ensures
            next.chain.prev == self.chain,
            next.chain.step == f.resolved(),
    {
        DagArm {
            chain: InspectOptionNode {
                prev: self.chain,
                step: f.into_ref_step(registry),
                marker: PhantomData,
            },
            marker: PhantomData,
        }
    }

    /// Turns `None` into an error.
    pub fn ok_or<E: Clone>(self, err: E) -> (next: DagArm<In, Result<T, E>, OkOrNode<Chain, E, T>>)
        ensures
            next.chain.prev == self.chain,
            next.chain.err == err,
    {
        DagArm {
            chain: OkOrNode {
                prev: self.chain,
                err,
                marker: PhantomData,
            },
            marker: PhantomData,
        }
    }

    /// Turns `None` into an error that a producer makes.
    pub fn ok_or_else<R, E, Params, S: IntoProducer<R, E, Params>>(
        self,
        f: S,
        registry: &Registry<R>,
    ) -> (next: DagArm<In, Result<T, E>, OkOrElseNode<Chain, S::Step, T>>)
        ensures
            next.chain.prev == self.chain,
            next.chain.producer == f.resolved(),
    {
        DagArm {
            chain: OkOrElseNode {
                prev: self.chain,
                producer: f.into_producer(registry),
                marker: PhantomData,
            },
            marker: PhantomData,
        }
    }

    /// Replaces `None` by a default.
    pub fn unwrap_or(
        self,
        default: T,
    ) -> (next: DagArm<In, T, UnwrapOrOptionNode<Chain, T>>) where T: Clone
        ensures
            next.chain.prev == self.chain,
            next.chain.default == default,
    {
        DagArm {
            chain: UnwrapOrOptionNode {
                prev: self.chain,
                default,
            },
            marker: PhantomData,
        }
    }

    /// Replaces `None` by what a producer makes.
    pub fn unwrap_or_else<R, Params, S: IntoProducer<R, T, Params>>(
        self,
        f: S,
        registry: &Registry<R>,
    ) -> (next: DagArm<In, T, UnwrapOrElseOptionNode<Chain, S::Step, T>>)
        ensures
            next.chain.prev == self.chain,
            next.chain.producer == f.resolved(),
    {
        DagArm {
            chain: UnwrapOrElseOptionNode {
                prev: self.chain,
                producer: f.into_producer(registry),
                marker: PhantomData,
            },
            marker: PhantomData,
        }
    }
}

impl<In, T: 'static, E: 'static, Chain> DagArm<In, Result<T, E>, Chain> {
    /// Shows the value inside `Ok` to a step.
    pub fn map<R, U, Params, S: IntoStep<R, &'static T, U, Params>>(
        self,
        f: S,
        registry: &Registry<R>,
    ) -> (next: DagArm<In, Result<U, E>, DagMapResultNode<Chain, S::Step, T, E, U>>) where
        S::Step: for<'a> StepCall<R, &'a T, Out = U>,
        ensures
            next.chain.prev == self.chain,
            next.chain.step == f.resolved(),
    {
        DagArm {
            chain: DagMapResultNode {
                prev: self.chain,
                step: f.into_step(registry),
                marker: PhantomData,
            },
            marker: PhantomData,
        }
    }

    /// Shows the value inside `Ok` to a step that may itself fail.
    pub fn and_then<R, U, Params, S: IntoStep<R, &'static T, Result<U, E>, Params>>(
        self,
        f: S,
        registry: &Registry<R>,
    ) -> (next: DagArm<In, Result<U, E>, DagAndThenResultNode<Chain, S::Step, T, E, U>>) where
        S::Step: for<'a> StepCall<R, &'a T, Out = Result<U, E>>,
        ensures
            next.chain.prev == self.chain,
            next.chain.step == f.resolved(),
    {
        DagArm {
            chain: DagAndThenResultNode {
                prev: self.chain,
                step: f.into_step(registry),
                marker: PhantomData,
            },
            marker: PhantomData,
        }
    }

    /// Shows the error to a step and drops it.
    pub fn catch<R, Params, S: IntoStep<R, &'static E, (), Params>>(
        self,
        f: S,
        registry: &Registry<R>,
    ) -> (next: DagArm<In, Option<T>, DagCatchNode<Chain, S::Step, T, E>>) where
        S::Step: for<'a> StepCall<R, &'a E, Out = ()>,
        ensures
            next.chain.prev == self.chain,
            next.chain.step == f.resolved(),
    {
        DagArm {
            chain: DagCatchNode {
                prev: self.chain,
                step: f.into_step(registry),
                marker: PhantomData,
            },
            marker: PhantomData,
        }
    }

    /// Hands the error to a step that gives another.
    pub fn map_err<R, E2, Params, S: IntoStep<R, E, E2, Params>>(
        self,
        f: S,
        registry: &Registry<R>,
    ) -> (next: DagArm<In, Result<T, E2>, MapErrNode<Chain, S::Step, T, E>>)
        ensures
            next.chain.prev == self.chain,
            next.chain.step == f.resolved(),
    {
        DagArm {
            chain: MapErrNode {
                prev: self.chain,
                step: f.into_step(registry),
                marker: PhantomData,
            },
            marker: PhantomData,
        }
    }

    /// Hands the error to a step that may recover.
    pub fn or_else<R, E2, Params, S: IntoStep<R, E, Result<T, E2>, Params>>(
        self,
        f: S,
        registry: &Registry<R>,
    ) -> (next: DagArm<In, Result<T, E2>, OrElseNode<Chain, S::Step, T, E, E2>>)
        ensures
            next.chain.prev == self.chain,
            next.chain.step == f.resolved(),
    {
        DagArm {
            chain: OrElseNode {
                prev: self.chain,
                step: f.into_step(registry),
                marker: PhantomData,
            },
            marker: PhantomData,
        }
    }

    /// Shows the value inside `Ok` to a step.
    pub fn inspect<R, Params, S: IntoRefStep<R, T, (), Params>>(
        self,
        f: S,
        registry: &Registry<R>,
    ) -> (next: DagArm<In, Result<T, E>, InspectResultNode<Chain, S::Step, T, E>>)
        ensures
            next.chain.prev == self.chain,
            next.chain.step == f.resolved(),
    {
        DagArm {
            chain: InspectResultNode {
                prev: self.chain,
                step: f.into_ref_step(registry),
                marker: PhantomData,
            },
            marker: PhantomData,
        }
    }

    /// Shows the error to a step.
    pub fn inspect_err<R, Params, S: IntoRefStep<R, E, (), Params>>(
        self,
        f: S,
        registry: &Registry<R>,
    ) -> (next: DagArm<In, Result<T, E>, InspectErrNode<Chain, S::Step, T, E>>)
        ensures
            next.chain.prev == self.chain,
            next.chain.step == f.resolved(),
    {
        DagArm {
            chain: InspectErrNode {
                prev: self.chain,
                step: f.into_ref_step(registry),
                marker: PhantomData,
            },
            marker: PhantomData,
        }
    }

    /// Drops the error.
    pub fn ok(self) -> (next: DagArm<In, Option<T>, OkResultNode<Chain, T, E>>)
        ensures
            next.chain.prev == self.chain,
    {
        DagArm {
            chain: OkResultNode {
                prev: self.chain,
                marker: PhantomData,
            },
            marker: PhantomData,
        }
    }

    /// Replaces an error by a default.
    pub fn unwrap_or(
        self,
        default: T,
    ) -> (next: DagArm<In, T, UnwrapOrResultNode<Chain, T, E>>) where T: Clone
        ensures
            next.chain.prev == self.chain,
            next.chain.default == default,
    {
        DagArm {
            chain: UnwrapOrResultNode {
                prev: self.chain,
                default,
                marker: PhantomData,
            },
            marker: PhantomData,
        }
    }

    /// Replaces an error by what a step makes of it.
    pub fn unwrap_or_else<R, Params, S: IntoStep<R, E, T, Params>>(
        self,
        f: S,
        registry: &Registry<R>,
    ) -> (next: DagArm<In, T, UnwrapOrElseResultNode<Chain, S::Step, T, E>>)
        ensures
            next.chain.prev == self.chain,
            next.chain.step == f.resolved(),
    {
        DagArm {
            chain: UnwrapOrElseResultNode {
                prev: self.chain,
                step: f.into_step(registry),
                marker: PhantomData,
            },
            marker: PhantomData,
        }
    }
}

impl<In, Chain> DagChain<In, (), Chain> {
    /// Finishes the graph.
    #[must_use]
    pub fn build(self) -> (dag: Dag<Chain>)
        ensures
            dag.chain == self.chain,
    {
        Dag { chain: self.chain }
    }
}

impl<In, Chain> DagChain<In, Option<()>, Chain> {
    /// Finishes the graph; whether it stopped early is dropped.
    #[must_use]
    pub fn build(self) -> (dag: Dag<DiscardOptionNode<Chain>>)
        ensures
            dag.chain.prev == self.chain,
    {
        Dag { chain: DiscardOptionNode { prev: self.chain } }
    }
}

impl<In, Out: PipelineOutput, Chain> DagChain<In, Out, Chain> {
    /// Finishes the graph, with a buffer of inputs.
    #[must_use]
    pub fn build_batch(self, capacity: usize) -> (batch: BatchDag<In, Chain>)
        ensures
            batch.input@ == Seq::<In>::empty(),
            batch.chain == self.chain,
    {
        BatchDag { input: Vec::with_capacity(capacity), chain: self.chain }
    }
}

/// A finished graph: a handler of its inputs.
pub struct Dag<Chain> {
    pub chain: Chain,
}

impl<R, E, Chain: ChainCall<R, E, Out = ()>> Handler<R, E> for Dag<Chain> {
    open spec fn run_pre(&self, world: World<R>, event: E) -> bool {
        self.chain.call_pre(world, event)
    }

    open spec fn run_post(
        &self,
        world: World<R>,
        event: E,
        after: &Self,
        world_after: World<R>,
    ) -> bool {
        self.chain.call_post(world, event, after.chain, world_after, ())
    }

    fn handle(&mut self, world: &mut World<R>, event: E) {
        self.chain.call(world, event)
    }

    fn run(&mut self, world: &mut World<R>, event: E)
        ensures
            old(self).run_post(*old(world), event, &*final(self), *final(world)),
    {
        self.chain.call(world, event)
    }

    fn name(&self) -> (name: &'static str)
        ensures
            name@ == "dag::Dag"@,
    {
        "dag::Dag"
    }
}

/// A finished graph with a buffer of inputs.
pub struct BatchDag<In, F> {
    pub input: Vec<In>,
    pub chain: F,
}

impl<In, F> BatchDag<In, F> {
    /// The buffer, to be filled.
    pub fn input_mut(&mut self) -> (input: &mut Vec<In>)
        ensures
            *input == old(self).input,
            final(self).input == *final(input),
            final(self).chain == old(self).chain,
    {
        &mut self.input
    }

    /// The inputs in the buffer.
    pub fn input(&self) -> (input: &[In])
        ensures
            input@ == self.input@,
    {
        self.input.as_slice()
    }

    /// Hands the buffered inputs to the graph, in order, and empties the buffer.
    pub fn run<R>(&mut self, world: &mut World<R>) where F: ChainCall<R, In>, F::Out: PipelineOutput
        requires
            batch_pre(old(self).chain, *old(world), old(self).input@),
        ensures
            final(self).input@ == Seq::<In>::empty(),
            batch_post(
                old(self).chain,
                *old(world),
                old(self).input@,
                final(self).chain,
                *final(world),
            ),
    {
        run_batch(&mut self.chain, &mut self.input, world)
    }
}

/// Resolves an arm's step for calls outside a graph.
pub fn resolve_arm<R, In: 'static, Out, Params, S: IntoStep<R, &'static In, Out, Params>>(
    f: S,
    registry: &Registry<R>,
) -> (step: S::Step) where S::Step: for<'a> StepCall<R, &'a In, Out = Out>
    ensures
        step == f.resolved(),
{
    f.into_step(registry)
}

} // verus!
