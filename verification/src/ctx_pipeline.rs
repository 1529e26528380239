//! Pipelines whose steps are handed a context besides the world.
use crate::ctx_node::{
    CtxAndThenNode, CtxAndThenResultNode, CtxCatchNode, CtxChainCall, CtxDiscardOptionNode,
    CtxFilterNode, CtxGuardNode, CtxIdentityNode, CtxInspectErrNode, CtxInspectOptionNode,
    CtxInspectResultNode, CtxMapErrNode, CtxMapOptionNode, CtxMapResultNode, CtxOkNode,
    CtxOkOrNode, CtxOnNoneNode, CtxTapNode, CtxThenNode, CtxUnwrapOrElseOptionNode,
    CtxUnwrapOrOptionNode, CtxUnwrapOrResultNode,
};
use crate::ctx_step::{CtxStepCall, IntoCtxProducer, IntoCtxRefStep, IntoCtxStep};
use crate::world::{Registry, World};
use std::marker::PhantomData;
use vstd::prelude::*;

verus! {

/// The start of a pipeline with a context.
#[must_use]
pub struct CtxPipelineBuilder<C, In> {
    pub marker: PhantomData<(C, In)>,
}

impl<C, In> CtxPipelineBuilder<C, In> {
    pub fn new() -> (builder: Self) {
        CtxPipelineBuilder { marker: PhantomData }
    }

    /// Adds the first step, which consumes the input.
    pub fn then<R, Out, Params, S: IntoCtxStep<R, C, In, Out, Params>>(
        self,
        f: S,
        registry: &Registry<R>,
    ) -> (next: CtxPipelineChain<C, In, Out, CtxThenNode<CtxIdentityNode, S::Step>>)
        ensures
            next.chain.prev == (CtxIdentityNode {}),
            next.chain.step == f.resolved(),
    {
        CtxPipelineChain {
            chain: CtxThenNode {
                prev: CtxIdentityNode {},
                step: f.into_ctx_step(registry),
            },
            marker: PhantomData,
        }
    }
}

impl<C, In> Default for CtxPipelineBuilder<C, In> {
    fn default() -> (builder: Self) {
        CtxPipelineBuilder { marker: PhantomData }
    }
}

/// A pipeline with a context, under construction.
#[must_use]
pub struct CtxPipelineChain<C, In, Out, Chain> {
    pub chain: Chain,
    pub marker: PhantomData<(C, In, Out)>,
}

impl<C, In, Out, Chain> CtxPipelineChain<C, In, Out, Chain> {
    /// Appends a step.
    pub fn then<R, NewOut, Params, S: IntoCtxStep<R, C, Out, NewOut, Params>>(
        self,
        f: S,
        registry: &Registry<R>,
    ) -> (next: CtxPipelineChain<C, In, NewOut, CtxThenNode<Chain, S::Step>>)
        ensures
            next.chain.prev == self.chain,
            next.chain.step == f.resolved(),
    {
        CtxPipelineChain {
            chain: CtxThenNode {
                prev: self.chain,
                step: f.into_ctx_step(registry),
            },
            marker: PhantomData,
        }
    }

    /// Runs the chain on one input.
    pub fn run<R>(
        &mut self,
        ctx: &mut C,
        world: &mut World<R>,
        input: In,
    ) -> (out: Out) where Chain: CtxChainCall<R, C, In, Out = Out>
        requires
            old(self).chain.call_pre(*old(ctx), *old(world), input),
        ensures
            old(self).chain.call_post(
                *old(ctx),
                *old(world),
                input,
                final(self).chain,
                *final(ctx),
                *final(world),
                out,
            ),
    {
        self.chain.call(ctx, world, input)
    }

    /// Keeps the value if a predicate holds of it.
    pub fn guard<R, Params, S: IntoCtxRefStep<R, C, Out, bool, Params>>(
        self,
        f: S,
        registry: &Registry<R>,
    ) -> (next: CtxPipelineChain<C, In, Option<Out>, CtxGuardNode<Chain, S::Step>>)
        ensures
            next.chain.prev == self.chain,
            next.chain.step == f.resolved(),
    {
        CtxPipelineChain {
            chain: CtxGuardNode {
                prev: self.chain,
                step: f.into_ctx_ref_step(registry),
            },
            marker: PhantomData,
        }
    }

    /// Shows the value to a step and hands it on.
    pub fn tap<R, Params, S: IntoCtxRefStep<R, C, Out, (), Params>>(
        self,
        f: S,
        registry: &Registry<R>,
    ) -> (next: CtxPipelineChain<C, In, Out, CtxTapNode<Chain, S::Step>>)
        ensures
            next.chain.prev == self.chain,
            next.chain.step == f.resolved(),
    {
        CtxPipelineChain {
            chain: CtxTapNode {
                prev: self.chain,
                step: f.into_ctx_ref_step(registry),
            },
            marker: PhantomData,
        }
    }
}

impl<C, In, T, Chain> CtxPipelineChain<C, In, Option<T>, Chain> {
    /// Hands the value inside `Some` to a step.
    pub fn map<R, U, Params, S: IntoCtxStep<R, C, T, U, Params>>(
        self,
        f: S,
        registry: &Registry<R>,
    ) -> (next: CtxPipelineChain<C, In, Option<U>, CtxMapOptionNode<Chain, S::Step, T>>)
        ensures
            next.chain.prev == self.chain,
            next.chain.step == f.resolved(),
    {
        CtxPipelineChain {
            chain: CtxMapOptionNode {
                prev: self.chain,
                step: f.into_ctx_step(registry),
                marker: PhantomData,
            },
            marker: PhantomData,
        }
    }

    /// Hands the value inside `Some` to a step that may itself give `None`.
    pub fn and_then<R, U, Params, S: IntoCtxStep<R, C, T, Option<U>, Params>>(
        self,
        f: S,
        registry: &Registry<R>,
    ) -> (next: CtxPipelineChain<C, In, Option<U>, CtxAndThenNode<Chain, S::Step, T, U>>)
        ensures
            next.chain.prev == self.chain,
            next.chain.step == f.resolved(),
    {
        CtxPipelineChain {
            chain: CtxAndThenNode {
                prev: self.chain,
                step: f.into_ctx_step(registry),
                marker: PhantomData,
            },
            marker: PhantomData,
        }
    }

    /// Calls a producer on `None`.
    pub fn on_none<R, Params, S: IntoCtxProducer<R, C, (), Params>>(
        self,
        f: S,
        registry: &Registry<R>,
    ) -> (next: CtxPipelineChain<C, In, Option<T>, CtxOnNoneNode<Chain, S::Step, T>>)
        ensures
            next.chain.prev == self.chain,
            next.chain.producer == f.resolved(),
    {
        CtxPipelineChain {
            chain: CtxOnNoneNode {
                prev: self.chain,
                producer: f.into_ctx_producer(registry),
                marker: PhantomData,
            },
            marker: PhantomData,
        }
    }

    /// Keeps the value inside `Some` if a predicate holds of it.
    pub fn filter<R, Params, S: IntoCtxRefStep<R, C, T, bool, Params>>(
        self,
        f: S,
        registry: &Registry<R>,
    ) -> (next: CtxPipelineChain<C, In, Option<T>, CtxFilterNode<Chain, S::Step, T>>)
        ensures
            next.chain.prev == self.chain,
            next.chain.step == f.resolved(),
    {
        CtxPipelineChain {
            chain: CtxFilterNode {
                prev: self.chain,
                step: f.into_ctx_ref_step(registry),
                marker: PhantomData,
            },
            marker: PhantomData,
        }
    }

    /// Shows the value inside `Some` to a step.
    pub fn inspect<R, Params, S: IntoCtxRefStep<R, C, T, (), Params>>(
        self,
        f: S,
        registry: &Registry<R>,
    ) -> (next: CtxPipelineChain<C, In, Option<T>, CtxInspectOptionNode<Chain, S::Step, T>>)
        ensures
            next.chain.prev == self.chain,
            next.chain.step == f.resolved(),
    {
        CtxPipelineChain {
            chain: CtxInspectOptionNode {
                prev: self.chain,
                step: f.into_ctx_ref_step(registry),
                marker: PhantomData,
            },
            marker: PhantomData,
        }
    }

    /// Turns `None` into an error.
    pub fn ok_or<E: Clone>(
        self,
        err: E,
    ) -> (next: CtxPipelineChain<C, In, Result<T, E>, CtxOkOrNode<Chain, E, T>>)
        ensures
            next.chain.prev == self.chain,
            next.chain.err == err,
    {
        CtxPipelineChain {
            chain: CtxOkOrNode {
                prev: self.chain,
                err,
                marker: PhantomData,
            },
            marker: PhantomData,
        }
    }

    /// Replaces `None` by a default.
    pub fn unwrap_or(
        self,
        default: T,
    ) -> (next: CtxPipelineChain<C, In, T, CtxUnwrapOrOptionNode<Chain, T>>) where T: Clone
        ensures
            next.chain.prev == self.chain,
            next.chain.default == default,
    {
        CtxPipelineChain {
            chain: CtxUnwrapOrOptionNode {
                prev: self.chain,
                default,
            },
            marker: PhantomData,
        }
    }

    /// Replaces `None` by what a producer makes.
    pub fn unwrap_or_else<R, Params, S: IntoCtxProducer<R, C, T, Params>>(
        self,
        f: S,
        registry: &Registry<R>,
    ) -> (next: CtxPipelineChain<C, In, T, CtxUnwrapOrElseOptionNode<Chain, S::Step, T>>)
        ensures
            next.chain.prev == self.chain,
            next.chain.producer == f.resolved(),
    {
        CtxPipelineChain {
            chain: CtxUnwrapOrElseOptionNode {
                prev: self.chain,
                producer: f.into_ctx_producer(registry),
                marker: PhantomData,
            },
            marker: PhantomData,
        }
    }
}

impl<C, In, T, E, Chain> CtxPipelineChain<C, In, Result<T, E>, Chain> {
    /// Hands the value inside `Ok` to a step.
    pub fn map<R, U, Params, S: IntoCtxStep<R, C, T, U, Params>>(
        self,
        f: S,
        registry: &Registry<R>,
    ) -> (next: CtxPipelineChain<C, In, Result<U, E>, CtxMapResultNode<Chain, S::Step, T, E>>)
        ensures
            next.chain.prev == self.chain,
            next.chain.step == f.resolved(),
    {
        CtxPipelineChain {
            chain: CtxMapResultNode {
                prev: self.chain,
                step: f.into_ctx_step(registry),
                marker: PhantomData,
            },
            marker: PhantomData,
        }
    }

    /// Hands the value inside `Ok` to a step that may itself fail.
    pub fn and_then<R, U, Params, S: IntoCtxStep<R, C, T, Result<U, E>, Params>>(
        self,
        f: S,
        registry: &Registry<R>,
    ) -> (next: CtxPipelineChain<
        C,
        In,
        Result<U, E>,
        CtxAndThenResultNode<Chain, S::Step, T, E, U>,
    >)
        ensures
            next.chain.prev == self.chain,
            next.chain.step == f.resolved(),
    {
        CtxPipelineChain {
            chain: CtxAndThenResultNode {
                prev: self.chain,
                step: f.into_ctx_step(registry),
                marker: PhantomData,
            },
            marker: PhantomData,
        }
    }

    /// Hands the error to a step and drops it.
    pub fn catch<R, Params, S: IntoCtxStep<R, C, E, (), Params>>(
        self,
        f: S,
        registry: &Registry<R>,
    ) -> (next: CtxPipelineChain<C, In, Option<T>, CtxCatchNode<Chain, S::Step, T, E>>)
        ensures
            next.chain.prev == self.chain,
            next.chain.step == f.resolved(),
    {
        CtxPipelineChain {
            chain: CtxCatchNode {
                prev: self.chain,
                step: f.into_ctx_step(registry),
                marker: PhantomData,
            },
            marker: PhantomData,
        }
    }

    /// Hands the error to a step that gives another.
    pub fn map_err<R, E2, Params, S: IntoCtxStep<R, C, E, E2, Params>>(
        self,
        f: S,
        registry: &Registry<R>,
    ) -> (next: CtxPipelineChain<C, In, Result<T, E2>, CtxMapErrNode<Chain, S::Step, T, E>>)
        ensures
            next.chain.prev == self.chain,
            next.chain.step == f.resolved(),
    {
        CtxPipelineChain {
            chain: CtxMapErrNode {
                prev: self.chain,
                step: f.into_ctx_step(registry),
                marker: PhantomData,
            },
            marker: PhantomData,
        }
    }

    /// Shows the value inside `Ok` to a step.
    pub fn inspect<R, Params, S: IntoCtxRefStep<R, C, T, (), Params>>(
        self,
        f: S,
        registry: &Registry<R>,
    ) -> (next: CtxPipelineChain<C, In, Result<T, E>, CtxInspectResultNode<Chain, S::Step, T, E>>)
        ensures
            next.chain.prev == self.chain,
            next.chain.step == f.resolved(),
    {
        CtxPipelineChain {
            chain: CtxInspectResultNode {
                prev: self.chain,
                step: f.into_ctx_ref_step(registry),
                marker: PhantomData,
            },
            marker: PhantomData,
        }
    }

    /// Shows the error to a step.
    pub fn inspect_err<R, Params, S: IntoCtxRefStep<R, C, E, (), Params>>(
        self,
        f: S,
        registry: &Registry<R>,
    ) -> (next: CtxPipelineChain<C, In, Result<T, E>, CtxInspectErrNode<Chain, S::Step, T, E>>)
        ensures
            next.chain.prev == self.chain,
            next.chain.step == f.resolved(),
    {
        CtxPipelineChain {
            chain: CtxInspectErrNode {
                prev: self.chain,
                step: f.into_ctx_ref_step(registry),
                marker: PhantomData,
            },
            marker: PhantomData,
        }
    }

    /// Drops the error.
    pub fn ok(self) -> (next: CtxPipelineChain<C, In, Option<T>, CtxOkNode<Chain, T, E>>)
        ensures
            next.chain.prev == self.chain,
    {
        CtxPipelineChain {
            chain: CtxOkNode {
                prev: self.chain,
                marker: PhantomData,
            },
            marker: PhantomData,
        }
    }

    /// Replaces an error by a default.
    pub fn unwrap_or(
        self,
        default: T,
    ) -> (next: CtxPipelineChain<C, In, T, CtxUnwrapOrResultNode<Chain, T, E>>) where T: Clone
        ensures
            next.chain.prev == self.chain,
            next.chain.default == default,
    {
        CtxPipelineChain {
            chain: CtxUnwrapOrResultNode {
                prev: self.chain,
                default,
                marker: PhantomData,
            },
            marker: PhantomData,
        }
    }
}

impl<C, In, Chain> CtxPipelineChain<C, In, (), Chain> {
    /// Finishes the pipeline.
    #[must_use]
    pub fn build(self) -> (pipeline: CtxPipeline<C, In, Chain>)
        ensures
            pipeline.chain == self.chain,
    {
        CtxPipeline { chain: self.chain, marker: PhantomData }
    }
}

impl<C, In, Chain> CtxPipelineChain<C, In, Option<()>, Chain> {
    /// Finishes the pipeline; whether it stopped early is dropped.
    #[must_use]
    pub fn build(self) -> (pipeline: CtxPipeline<C, In, CtxDiscardOptionNode<Chain>>)
        ensures
            pipeline.chain.prev == self.chain,
    {
        CtxPipeline { chain: CtxDiscardOptionNode { prev: self.chain }, marker: PhantomData }
    }
}

/// A finished pipeline: a step of its own.
pub struct CtxPipeline<C, In, Chain> {
    pub chain: Chain,
    pub marker: PhantomData<(C, In)>,
}

impl<
    R,
    C,
    In,
    Chain: CtxChainCall<R, C, In, Out = ()>,
> CtxStepCall<R, C, In> for CtxPipeline<C, In, Chain> {
    type Out = ();

    open spec fn call_pre(&self, ctx: C, world: World<R>, input: In) -> bool {
        self.chain.call_pre(ctx, world, input)
    }

    open spec fn call_post(
        &self,
        ctx: C,
        world: World<R>,
        input: In,
        after: Self,
        ctx_after: C,
        world_after: World<R>,
        out: (),
    ) -> bool {
        self.chain.call_post(ctx, world, input, after.chain, ctx_after, world_after, ())
    }

    fn call(&mut self, ctx: &mut C, world: &mut World<R>, input: In) -> (out: ()) {
        self.chain.call(ctx, world, input)
    }
}

impl<C, In, Chain> CtxPipeline<C, In, Chain> {
    /// Runs the pipeline on one input.
    pub fn run<R>(
        &mut self,
        ctx: &mut C,
        world: &mut World<R>,
        input: In,
    ) where Chain: CtxChainCall<R, C, In, Out = ()>
        requires
            old(self).chain.call_pre(*old(ctx), *old(world), input),
        ensures
            old(self).chain.call_post(
                *old(ctx),
                *old(world),
                input,
                final(self).chain,
                *final(ctx),
                *final(world),
                (),
            ),
    {
        self.chain.call(ctx, world, input)
    }
}

/// Resolves a step for calls outside a pipeline.
pub fn resolve_ctx_step<R, C, In, Out, Params, S: IntoCtxStep<R, C, In, Out, Params>>(
    f: S,
    registry: &Registry<R>,
) -> (step: S::Step)
    ensures
        step == f.resolved(),
{
    f.into_ctx_step(registry)
}

} // verus!
