//! Pipelines: chains of steps that hand one value on.
use crate::batch::{batch_post, batch_pre, run_batch};
use crate::dag::DagArm;
use crate::handler::Handler;
use crate::node::{
    AndBoolNode, AndThenNode, AndThenResultNode, CatchNode, ChainCall, ClonedNode,
    ClonedOptionNode, ClonedResultNode, DedupNode, DiscardOptionNode, DispatchNode, FilterNode,
    GuardNode, IdentityNode, InspectErrNode, InspectOptionNode, InspectResultNode, MapErrNode,
    MapOptionNode, MapResultNode, NotNode, OkOrElseNode, OkOrNode, OkResultNode, OnNoneNode,
    OrBoolNode, OrElseNode, RouteNode, ScanNode, TapNode, TeeNode, ThenNode,
    UnwrapOrElseOptionNode, UnwrapOrElseResultNode, UnwrapOrOptionNode, UnwrapOrResultNode,
    XorBoolNode,
};
use crate::step::{IntoProducer, IntoRefScanStep, IntoRefStep, IntoScanStep, IntoStep};
use crate::world::{Registry, World};
use std::marker::PhantomData;
use vstd::prelude::*;

verus! {

/// The start of a pipeline.
#[must_use]
pub struct PipelineBuilder<In> {
    pub marker: PhantomData<In>,
}

impl<In> PipelineBuilder<In> {
    pub fn new() -> (builder: Self) {
        PipelineBuilder { marker: PhantomData }
    }

    /// Adds the first step, which consumes the input.
    pub fn then<R, Out, Params, S: IntoStep<R, In, Out, Params>>(
        self,
        f: S,
        registry: &Registry<R>,
    ) -> (next: PipelineChain<In, Out, ThenNode<IdentityNode, S::Step>>)
        ensures
            next.chain.prev == (IdentityNode {}),
            next.chain.step == f.resolved(),
    {
        PipelineChain {
            chain: ThenNode {
                prev: IdentityNode {},
                step: f.into_step(registry),
            },
            marker: PhantomData,
        }
    }

    /// Adds the first step, which has an accumulator that starts at `initial`.
    pub fn scan<R, Acc, Out, Params, S: IntoScanStep<R, Acc, In, Out, Params>>(
        self,
        initial: Acc,
        f: S,
        registry: &Registry<R>,
    ) -> (next: PipelineChain<In, Out, ScanNode<IdentityNode, S::Step, Acc>>)
        ensures
            next.chain.prev == (IdentityNode {}),
            next.chain.step == f.resolved(),
            next.chain.acc == initial,
    {
        PipelineChain {
            chain: ScanNode {
                prev: IdentityNode {},
                step: f.into_scan_step(registry),
                acc: initial,
            },
            marker: PhantomData,
        }
    }
}

impl<In> Default for PipelineBuilder<In> {
    fn default() -> (builder: Self) {
        PipelineBuilder { marker: PhantomData }
    }
}

/// A pipeline under construction: its last node gives an `Out`.
#[must_use]
pub struct PipelineChain<In, Out, Chain> {
    pub chain: Chain,
    pub marker: PhantomData<(In, Out)>,
}

impl<In, Out, Chain> PipelineChain<In, Out, Chain> {
    /// Appends a step.
    pub fn then<R, NewOut, Params, S: IntoStep<R, Out, NewOut, Params>>(
        self,
        f: S,
        registry: &Registry<R>,
    ) -> (next: PipelineChain<In, NewOut, ThenNode<Chain, S::Step>>)
        ensures
            next.chain.prev == self.chain,
            next.chain.step == f.resolved(),
    {
        PipelineChain {
            chain: ThenNode {
                prev: self.chain,
                step: f.into_step(registry),
            },
            marker: PhantomData,
        }
    }

    /// Runs the chain on one input.
    pub fn run<R>(
        &mut self,
        world: &mut World<R>,
        input: In,
    ) -> (out: Out) where Chain: ChainCall<R, In, Out = Out>
        requires
            old(self).chain.call_pre(*old(world), input),
        ensures
            old(self).chain.call_post(*old(world), input, final(self).chain, *final(world), out),
    {
        self.chain.call(world, input)
    }

    /// Hands the value to a handler.
    pub fn dispatch<H>(self, handler: H) -> (next: PipelineChain<In, (), DispatchNode<Chain, H>>)
        ensures
            next.chain.prev == self.chain,
            next.chain.handler == handler,
    {
        PipelineChain {
            chain: DispatchNode {
                prev: self.chain,
                handler,
            },
            marker: PhantomData,
        }
    }

    /// Keeps the value if a predicate holds of it.
    pub fn guard<R, Params, S: IntoRefStep<R, Out, bool, Params>>(
        self,
        f: S,
        registry: &Registry<R>,
    ) -> (next: PipelineChain<In, Option<Out>, GuardNode<Chain, S::Step>>)
        ensures
            next.chain.prev == self.chain,
            next.chain.step == f.resolved(),
    {
        PipelineChain {
            chain: GuardNode {
                prev: self.chain,
                step: f.into_ref_step(registry),
            },
            marker: PhantomData,
        }
    }

    /// Shows the value to a step and hands it on.
    pub fn tap<R, Params, S: IntoRefStep<R, Out, (), Params>>(
        self,
        f: S,
        registry: &Registry<R>,
    ) -> (next: PipelineChain<In, Out, TapNode<Chain, S::Step>>)
        ensures
            next.chain.prev == self.chain,
            next.chain.step == f.resolved(),
    {
        PipelineChain {
            chain: TapNode {
                prev: self.chain,
                step: f.into_ref_step(registry),
            },
            marker: PhantomData,
        }
    }

    /// Hands the value to one of two chains, as a predicate decides.
    pub fn route<R, NewOut, C0, C1, Params, Pred: IntoRefStep<R, Out, bool, Params>>(
        self,
        pred: Pred,
        registry: &Registry<R>,
        on_true: PipelineChain<Out, NewOut, C0>,
        on_false: PipelineChain<Out, NewOut, C1>,
    ) -> (next: PipelineChain<In, NewOut, RouteNode<Chain, Pred::Step, C0, C1>>) where
        C0: ChainCall<R, Out, Out = NewOut>,
        C1: ChainCall<R, Out, Out = NewOut>,
        ensures
            next.chain.prev == self.chain,
            next.chain.pred == pred.resolved(),
            next.chain.on_true == on_true.chain,
            next.chain.on_false == on_false.chain,
    {
        PipelineChain {
            chain: RouteNode {
                prev: self.chain,
                pred: pred.into_ref_step(registry),
                on_true: on_true.chain,
                on_false: on_false.chain,
            },
            marker: PhantomData,
        }
    }

    /// Shows the value to a side chain and hands it on.
    pub fn tee<C>(
        self,
        side: DagArm<Out, (), C>,
    ) -> (next: PipelineChain<In, Out, TeeNode<Chain, C>>)
        ensures
            next.chain.prev == self.chain,
            next.chain.side == side.chain,
    {
        PipelineChain {
            chain: TeeNode {
                prev: self.chain,
                side: side.chain,
            },
            marker: PhantomData,
        }
    }

    /// Hands the value to a step with an accumulator that starts at `initial`.
    pub fn scan<R, Acc, NewOut, Params, S: IntoScanStep<R, Acc, Out, NewOut, Params>>(
        self,
        initial: Acc,
        f: S,
        registry: &Registry<R>,
    ) -> (next: PipelineChain<In, NewOut, ScanNode<Chain, S::Step, Acc>>)
        ensures
            next.chain.prev == self.chain,
            next.chain.step == f.resolved(),
            next.chain.acc == initial,
    {
        PipelineChain {
            chain: ScanNode {
                prev: self.chain,
                step: f.into_scan_step(registry),
                acc: initial,
            },
            marker: PhantomData,
        }
    }
}

impl<In, Out: PartialEq + Clone, Chain> PipelineChain<In, Out, Chain> {
    /// Drops a value that equals the one before it.
    pub fn dedup(self) -> (next: PipelineChain<In, Option<Out>, DedupNode<Chain, Out>>)
        ensures
            next.chain.prev == self.chain,
            next.chain.last == None::<Out>,
    {
        PipelineChain {
            chain: DedupNode {
                prev: self.chain,
                last: None,
            },
            marker: PhantomData,
        }
    }
}

impl<In, Chain> PipelineChain<In, bool, Chain> {
    /// Negates the value.
    pub fn not(self) -> (next: PipelineChain<In, bool, NotNode<Chain>>)
        ensures
            next.chain.prev == self.chain,
    {
        PipelineChain {
            chain: NotNode {
                prev: self.chain,

            },
            marker: PhantomData,
        }
    }

    /// Conjunction with a producer, which is called only where the value is true.
    pub fn and<R, Params, S: IntoProducer<R, bool, Params>>(
        self,
        f: S,
        registry: &Registry<R>,
    ) -> (next: PipelineChain<In, bool, AndBoolNode<Chain, S::Step>>)
        ensures
            next.chain.prev == self.chain,
            next.chain.producer == f.resolved(),
    {
        PipelineChain {
            chain: AndBoolNode {
                prev: self.chain,
                producer: f.into_producer(registry),
            },
            marker: PhantomData,
        }
    }

    /// Disjunction with a producer, which is called only where the value is false.
    pub fn or<R, Params, S: IntoProducer<R, bool, Params>>(
        self,
        f: S,
        registry: &Registry<R>,
    ) -> (next: PipelineChain<In, bool, OrBoolNode<Chain, S::Step>>)
        ensures
            next.chain.prev == self.chain,
            next.chain.producer == f.resolved(),
    {
        PipelineChain {
            chain: OrBoolNode {
                prev: self.chain,
                producer: f.into_producer(registry),
            },
            marker: PhantomData,
        }
    }

    /// Exclusive disjunction with a producer, which is always called.
    pub fn xor<R, Params, S: IntoProducer<R, bool, Params>>(
        self,
        f: S,
        registry: &Registry<R>,
    ) -> (next: PipelineChain<In, bool, XorBoolNode<Chain, S::Step>>)
        ensures
            next.chain.prev == self.chain,
            next.chain.producer == f.resolved(),
    {
        PipelineChain {
            chain: XorBoolNode {
                prev: self.chain,
                producer: f.into_producer(registry),
            },
            marker: PhantomData,
        }
    }
}

impl<'a, In, T: Clone, Chain> PipelineChain<In, &'a T, Chain> {
    /// Clones the value behind the reference.
    pub fn cloned(self) -> (next: PipelineChain<In, T, ClonedNode<Chain>>)
        ensures
            next.chain.prev == self.chain,
    {
        PipelineChain {
            chain: ClonedNode {
                prev: self.chain,

            },
            marker: PhantomData,
        }
    }
}

impl<'a, In, T: Clone, Chain> PipelineChain<In, Option<&'a T>, Chain> {
    /// Clones the value behind the reference.
    pub fn cloned(self) -> (next: PipelineChain<In, Option<T>, ClonedOptionNode<Chain, T>>)
        ensures
            next.chain.prev == self.chain,
    {
        PipelineChain {
            chain: ClonedOptionNode {
                prev: self.chain,
                marker: PhantomData,
            },
            marker: PhantomData,
        }
    }
}

impl<'a, In, T: Clone, E, Chain> PipelineChain<In, Result<&'a T, E>, Chain> {
    /// Clones the value behind the reference.
    pub fn cloned(self) -> (next: PipelineChain<In, Result<T, E>, ClonedResultNode<Chain, T, E>>)
        ensures
            next.chain.prev == self.chain,
    {
        PipelineChain {
            chain: ClonedResultNode {
                prev: self.chain,
                marker: PhantomData,
            },
            marker: PhantomData,
        }
    }
}

impl<In, T, Chain> PipelineChain<In, Option<T>, Chain> {
    /// Hands the value inside `Some` to a step.
    pub fn map<R, U, Params, S: IntoStep<R, T, U, Params>>(
        self,
        f: S,
        registry: &Registry<R>,
    ) -> (next: PipelineChain<In, Option<U>, MapOptionNode<Chain, S::Step, T>>)
        ensures
            next.chain.prev == self.chain,
            next.chain.step == f.resolved(),
    {
        PipelineChain {
            chain: MapOptionNode {
                prev: self.chain,
                step: f.into_step(registry),
                marker: PhantomData,
            },
            marker: PhantomData,
        }
    }

    /// Hands the value inside `Some` to a step that may itself give `None`.
    pub fn and_then<R, U, Params, S: IntoStep<R, T, Option<U>, Params>>(
        self,
        f: S,
        registry: &Registry<R>,
    ) -> (next: PipelineChain<In, Option<U>, AndThenNode<Chain, S::Step, T, U>>)
        ensures
            next.chain.prev == self.chain,
            next.chain.step == f.resolved(),
    {
        PipelineChain {
            chain: AndThenNode {
                prev: self.chain,
                step: f.into_step(registry),
                marker: PhantomData,
            },
            marker: PhantomData,
        }
    }

    /// Calls a producer on `None`.
    pub fn on_none<R, Params, S: IntoProducer<R, (), Params>>(
        self,
        f: S,
        registry: &Registry<R>,
    ) -> (next: PipelineChain<In, Option<T>, OnNoneNode<Chain, S::Step, T>>)
        ensures
            next.chain.prev == self.chain,
            next.chain.producer == f.resolved(),
    {
        PipelineChain {
            chain: OnNoneNode {
                prev: self.chain,
                producer: f.into_producer(registry),
                marker: PhantomData,
            },
            marker: PhantomData,
        }
    }

    /// Keeps the value inside `Some` if a predicate holds of it.
    pub fn filter<R, Params, S: IntoRefStep<R, T, bool, Params>>(
        self,
        f: S,
        registry: &Registry<R>,
    ) -> (next: PipelineChain<In, Option<T>, FilterNode<Chain, S::Step, T>>)
        ensures
            next.chain.prev == self.chain,
            next.chain.step == f.resolved(),
    {
        PipelineChain {
            chain: FilterNode {
                prev: self.chain,
                step: f.into_ref_step(registry),
                marker: PhantomData,
            },
            marker: PhantomData,
        }
    }

    /// Shows the value inside `Some` to a step.
    pub fn inspect<R, Params, S: IntoRefStep<R, T, (), Params>>(
        self,
        f: S,
        registry: &Registry<R>,
    ) -> (next: PipelineChain<In, Option<T>, InspectOptionNode<Chain, S::Step, T>>)
        ensures
            next.chain.prev == self.chain,
            next.chain.step == f.resolved(),
    {
        PipelineChain {
            chain: InspectOptionNode {
                prev: self.chain,
                step: f.into_ref_step(registry),
                marker: PhantomData,
            },
            marker: PhantomData,
        }
    }

    /// Turns `None` into an error.
    pub fn ok_or<E: Clone>(
        self,
        err: E,
    ) -> (next: PipelineChain<In, Result<T, E>, OkOrNode<Chain, E, T>>)
        ensures
            next.chain.prev == self.chain,
            next.chain.err == err,
    {
        PipelineChain {
            chain: OkOrNode {
                prev: self.chain,
                err,
                marker: PhantomData,
            },
            marker: PhantomData,
        }
    }

    /// Turns `None` into an error that a producer makes.
    pub fn ok_or_else<R, E, Params, S: IntoProducer<R, E, Params>>(
        self,
        f: S,
        registry: &Registry<R>,
    ) -> (next: PipelineChain<In, Result<T, E>, OkOrElseNode<Chain, S::Step, T>>)
        ensures
            next.chain.prev == self.chain,
            next.chain.producer == f.resolved(),
    {
        PipelineChain {
            chain: OkOrElseNode {
                prev: self.chain,
                producer: f.into_producer(registry),
                marker: PhantomData,
            },
            marker: PhantomData,
        }
    }

    /// Replaces `None` by a default.
    pub fn unwrap_or(
        self,
        default: T,
    ) -> (next: PipelineChain<In, T, UnwrapOrOptionNode<Chain, T>>) where T: Clone
        ensures
            next.chain.prev == self.chain,
            next.chain.default == default,
    {
        PipelineChain {
            chain: UnwrapOrOptionNode {
                prev: self.chain,
                default,
            },
            marker: PhantomData,
        }
    }

    /// Replaces `None` by what a producer makes.
    pub fn unwrap_or_else<R, Params, S: IntoProducer<R, T, Params>>(
        self,
        f: S,
        registry: &Registry<R>,
    ) -> (next: PipelineChain<In, T, UnwrapOrElseOptionNode<Chain, S::Step, T>>)
        ensures
            next.chain.prev == self.chain,
            next.chain.producer == f.resolved(),
    {
        PipelineChain {
            chain: UnwrapOrElseOptionNode {
                prev: self.chain,
                producer: f.into_producer(registry),
                marker: PhantomData,
            },
            marker: PhantomData,
        }
    }
}

impl<In, T, E, Chain> PipelineChain<In, Result<T, E>, Chain> {
    /// Hands the value inside `Ok` to a step.
    pub fn map<R, U, Params, S: IntoStep<R, T, U, Params>>(
        self,
        f: S,
        registry: &Registry<R>,
    ) -> (next: PipelineChain<In, Result<U, E>, MapResultNode<Chain, S::Step, T, E>>)
        ensures
            next.chain.prev == self.chain,
            next.chain.step == f.resolved(),
    {
        PipelineChain {
            chain: MapResultNode {
                prev: self.chain,
                step: f.into_step(registry),
                marker: PhantomData,
            },
            marker: PhantomData,
        }
    }

    /// Hands the value inside `Ok` to a step that may itself fail.
    pub fn and_then<R, U, Params, S: IntoStep<R, T, Result<U, E>, Params>>(
        self,
        f: S,
        registry: &Registry<R>,
    ) -> (next: PipelineChain<In, Result<U, E>, AndThenResultNode<Chain, S::Step, T, E, U>>)
        ensures
            next.chain.prev == self.chain,
            next.chain.step == f.resolved(),
    {
        PipelineChain {
            chain: AndThenResultNode {
                prev: self.chain,
                step: f.into_step(registry),
                marker: PhantomData,
            },
            marker: PhantomData,
        }
    }

    /// Hands the error to a step and drops it.
    pub fn catch<R, Params, S: IntoStep<R, E, (), Params>>(
        self,
        f: S,
        registry: &Registry<R>,
    ) -> (next: PipelineChain<In, Option<T>, CatchNode<Chain, S::Step, T, E>>)
        ensures
            next.chain.prev == self.chain,
            next.chain.step == f.resolved(),
    {
        PipelineChain {
            chain: CatchNode {
                prev: self.chain,
                step: f.into_step(registry),
                marker: PhantomData,
            },
            marker: PhantomData,
        }
    }

    /// Hands the error to a step that gives another.
    pub fn map_err<R, E2, Params, S: IntoStep<R, E, E2, Params>>(
        self,
        f: S,
        registry: &Registry<R>,
    ) -> (next: PipelineChain<In, Result<T, E2>, MapErrNode<Chain, S::Step, T, E>>)
        ensures
            next.chain.prev == self.chain,
            next.chain.step == f.resolved(),
    {
        PipelineChain {
            chain: MapErrNode {
                prev: self.chain,
                step: f.into_step(registry),
                marker: PhantomData,
            },
            marker: PhantomData,
        }
    }

    /// Hands the error to a step that may recover.
    pub fn or_else<R, E2, Params, S: IntoStep<R, E, Result<T, E2>, Params>>(
        self,
        f: S,
        registry: &Registry<R>,
    ) -> (next: PipelineChain<In, Result<T, E2>, OrElseNode<Chain, S::Step, T, E, E2>>)
        ensures
            next.chain.prev == self.chain,
            next.chain.step == f.resolved(),
    {
        PipelineChain {
            chain: OrElseNode {
                prev: self.chain,
                step: f.into_step(registry),
                marker: PhantomData,
            },
            marker: PhantomData,
        }
    }

    /// Shows the value inside `Ok` to a step.
    pub fn inspect<R, Params, S: IntoRefStep<R, T, (), Params>>(
        self,
        f: S,
        registry: &Registry<R>,
    ) -> (next: PipelineChain<In, Result<T, E>, InspectResultNode<Chain, S::Step, T, E>>)
        ensures
            next.chain.prev == self.chain,
            next.chain.step == f.resolved(),
    {
        PipelineChain {
            chain: InspectResultNode {
                prev: self.chain,
                step: f.into_ref_step(registry),
                marker: PhantomData,
            },
            marker: PhantomData,
        }
    }

    /// Shows the error to a step.
    pub fn inspect_err<R, Params, S: IntoRefStep<R, E, (), Params>>(
        self,
        f: S,
        registry: &Registry<R>,
    ) -> (next: PipelineChain<In, Result<T, E>, InspectErrNode<Chain, S::Step, T, E>>)
        ensures
            next.chain.prev == self.chain,
            next.chain.step == f.resolved(),
    {
        PipelineChain {
            chain: InspectErrNode {
                prev: self.chain,
                step: f.into_ref_step(registry),
                marker: PhantomData,
            },
            marker: PhantomData,
        }
    }

    /// Drops the error.
    pub fn ok(self) -> (next: PipelineChain<In, Option<T>, OkResultNode<Chain, T, E>>)
        ensures
            next.chain.prev == self.chain,
    {
        PipelineChain {
            chain: OkResultNode {
                prev: self.chain,
                marker: PhantomData,
            },
            marker: PhantomData,
        }
    }

    /// Replaces an error by a default.
    pub fn unwrap_or(
        self,
        default: T,
    ) -> (next: PipelineChain<In, T, UnwrapOrResultNode<Chain, T, E>>) where T: Clone
        ensures
            next.chain.prev == self.chain,
            next.chain.default == default,
    {
        PipelineChain {
            chain: UnwrapOrResultNode {
                prev: self.chain,
                default,
                marker: PhantomData,
            },
            marker: PhantomData,
        }
    }

    /// Replaces an error by what a step makes of it.
    pub fn unwrap_or_else<R, Params, S: IntoStep<R, E, T, Params>>(
        self,
        f: S,
        registry: &Registry<R>,
    ) -> (next: PipelineChain<In, T, UnwrapOrElseResultNode<Chain, S::Step, T, E>>)
        ensures
            next.chain.prev == self.chain,
            next.chain.step == f.resolved(),
    {
        PipelineChain {
            chain: UnwrapOrElseResultNode {
                prev: self.chain,
                step: f.into_step(registry),
                marker: PhantomData,
            },
            marker: PhantomData,
        }
    }
}

impl<In, Chain> PipelineChain<In, (), Chain> {
    /// Finishes the pipeline.
    #[must_use]
    pub fn build(self) -> (pipeline: Pipeline<Chain>)
        ensures
            pipeline.chain == self.chain,
    {
        Pipeline { chain: self.chain }
    }
}

impl<In, Chain> PipelineChain<In, Option<()>, Chain> {
    /// Finishes the pipeline; whether it stopped early is dropped.
    #[must_use]
    pub fn build(self) -> (pipeline: Pipeline<DiscardOptionNode<Chain>>)
        ensures
            pipeline.chain.prev == self.chain,
    {
        Pipeline { chain: DiscardOptionNode { prev: self.chain } }
    }
}

/// Closes [`PipelineOutput`] to other types.
pub trait Sealed {
}

impl Sealed for () {
}

impl Sealed for Option<()> {
}

/// What a finished pipeline may end in.
pub trait PipelineOutput: Sealed {
}

impl PipelineOutput for () {
}

impl PipelineOutput for Option<()> {
}

impl<In, Out: PipelineOutput, Chain> PipelineChain<In, Out, Chain> {
    /// Finishes the pipeline, with a buffer of inputs.
    #[must_use]
    pub fn build_batch(self, capacity: usize) -> (batch: BatchPipeline<In, Chain>)
        ensures
            batch.input@ == Seq::<In>::empty(),
            batch.chain == self.chain,
    {
        BatchPipeline { input: Vec::with_capacity(capacity), chain: self.chain }
    }
}

/// A finished pipeline: a handler of its inputs.
pub struct Pipeline<F> {
    pub chain: F,
}

impl<R, E, F: ChainCall<R, E, Out = ()>> Handler<R, E> for Pipeline<F> {
    open spec fn run_pre(&self, world: World<R>, event: E) -> bool {
        self.chain.call_pre(world, event)
    }

    open spec fn run_post(
        &self,
        world: World<R>,
        event: E,
        after: &Self,
        world_after: World<R>,
    ) -> bool {
        self.chain.call_post(world, event, after.chain, world_after, ())
    }

    fn handle(&mut self, world: &mut World<R>, event: E) {
        self.chain.call(world, event)
    }

    fn run(&mut self, world: &mut World<R>, event: E)
        ensures
            old(self).run_post(*old(world), event, &*final(self), *final(world)),
    {
        self.chain.call(world, event)
    }
}

/// A finished pipeline with a buffer of inputs.
pub struct BatchPipeline<In, F> {
    pub input: Vec<In>,
    pub chain: F,
}

impl<In, F> BatchPipeline<In, F> {
    /// The buffer, to be filled.
    pub fn input_mut(&mut self) -> (input: &mut Vec<In>)
        ensures
            *input == old(self).input,
            final(self).input == *final(input),
            final(self).chain == old(self).chain,
    {
        &mut self.input
    }

    /// The inputs in the buffer.
    pub fn input(&self) -> (input: &[In])
        ensures
            input@ == self.input@,
    {
        self.input.as_slice()
    }

    /// Hands the buffered inputs to the pipeline, in order, and empties the buffer. An input on
    /// which the pipeline stops early does not hold up the next.
    pub fn run<R>(&mut self, world: &mut World<R>) where F: ChainCall<R, In>, F::Out: PipelineOutput
        requires
            batch_pre(old(self).chain, *old(world), old(self).input@),
        ensures
            final(self).input@ == Seq::<In>::empty(),
            batch_post(
                old(self).chain,
                *old(world),
                old(self).input@,
                final(self).chain,
                *final(world),
            ),
    {
        run_batch(&mut self.chain, &mut self.input, world)
    }
}

/// Resolves a step for calls outside a pipeline.
pub fn resolve_step<R, In, Out, Params, S: IntoStep<R, In, Out, Params>>(
    f: S,
    registry: &Registry<R>,
) -> (step: S::Step)
    ensures
        step == f.resolved(),
{
    f.into_step(registry)
}

/// Resolves a step that looks at its input, for calls outside a pipeline.
pub fn resolve_ref_step<R, In, Out, Params, S: IntoRefStep<R, In, Out, Params>>(
    f: S,
    registry: &Registry<R>,
) -> (step: S::Step)
    ensures
        step == f.resolved(),
{
    f.into_ref_step(registry)
}

/// Resolves a step without input, for calls outside a pipeline.
pub fn resolve_producer<R, Out, Params, S: IntoProducer<R, Out, Params>>(
    f: S,
    registry: &Registry<R>,
) -> (step: S::Step)
    ensures
        step == f.resolved(),
{
    f.into_producer(registry)
}

/// Resolves a step with an accumulator, for calls outside a pipeline.
pub fn resolve_scan_step<R, Acc, In, Out, Params, S: IntoScanStep<R, Acc, In, Out, Params>>(
    f: S,
    registry: &Registry<R>,
) -> (step: S::Step)
    ensures
        step == f.resolved(),
{
    f.into_scan_step(registry)
}

/// Resolves a step with an accumulator that looks at its input, for calls outside a pipeline.
pub fn resolve_ref_scan_step<R, Acc, In, Out, Params, S: IntoRefScanStep<R, Acc, In, Out, Params>>(
    f: S,
    registry: &Registry<R>,
) -> (step: S::Step)
    ensures
        step == f.resolved(),
{
    f.into_ref_scan_step(registry)
}

} // verus!
