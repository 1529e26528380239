//! What each node of a chain with a context makes of what the chain before it gives, and when it
//! may be called.
use crate::ctx_dag::CtxDag;
use crate::ctx_merge::{
    CtxJoinNode2, CtxJoinNode3, CtxJoinNode4, CtxMergeNode2, CtxMergeNode3, CtxMergeNode4,
    CtxMergeStepCall,
};
use crate::ctx_node::{
    CtxAndThenNode, CtxAndThenResultNode, CtxCatchNode, CtxChainCall, CtxDagAndThenOptionNode,
    CtxDagAndThenResultNode, CtxDagCatchNode, CtxDagMapOptionNode, CtxDagMapResultNode,
    CtxDagThenNode, CtxDiscardOptionNode, CtxFilterNode, CtxGuardNode, CtxIdentityNode,
    CtxInspectErrNode, CtxInspectOptionNode, CtxInspectResultNode, CtxMapErrNode, CtxMapOptionNode,
    CtxMapResultNode, CtxOkNode, CtxOkOrNode, CtxOnNoneNode, CtxTapNode, CtxThenNode,
    CtxUnwrapOrElseOptionNode, CtxUnwrapOrOptionNode, CtxUnwrapOrResultNode,
};
use crate::ctx_pipeline::CtxPipeline;
use crate::ctx_step::{CtxProducerCall, CtxRefStepCall, CtxStepCall};
use crate::world::World;
use vstd::prelude::*;

verus! {

/// The step is handed what the chain before it gives, once, and its result is handed on.
pub proof fn lemma_ctx_then<R, C, In, T, U, Prev, S>(
    node: CtxThenNode<Prev, S>,
    ctx: C,
    world: World<R>,
    input: In,
    after: CtxThenNode<Prev, S>,
    ctx_after: C,
    world_after: World<R>,
    out: U,
) where
    Prev: CtxChainCall<R, C, In, Out = T>,
    S: CtxStepCall<R, C, T, Out = U>,
    requires
        node.call_post(ctx, world, input, after, ctx_after, world_after, out),
    ensures
        exists|ctx_mid: C, world_mid: World<R>, mid: T|
            #[trigger] node.prev.call_post(ctx, world, input, after.prev, ctx_mid, world_mid, mid)
                && node.step.call_post(
                    ctx_mid,
                    world_mid,
                    mid,
                    after.step,
                    ctx_after,
                    world_after,
                    out,
                ),
{
}

/// May be called where the chain before it may be, and whatever that gives may be handed on.
pub proof fn lemma_ctx_then_ready<R, C, In, T, U, Prev, S>(
    node: CtxThenNode<Prev, S>,
    ctx: C,
    world: World<R>,
    input: In,
) where
    Prev: CtxChainCall<R, C, In, Out = T>,
    S: CtxStepCall<R, C, T, Out = U>,
    requires
        node.prev.call_pre(ctx, world, input),
        forall|prev: Prev, ctx_mid: C, world_mid: World<R>, mid: T|
            #[trigger] node.prev.call_post(ctx, world, input, prev, ctx_mid, world_mid, mid)
                ==> node.step.call_pre(ctx_mid, world_mid, mid),
    ensures
        node.call_pre(ctx, world, input),
{
}

/// May be called where the chain before it may be, and whatever that gives may be handed on.
pub proof fn lemma_ctx_tap_ready<R, C, In, T, Prev, S>(
    node: CtxTapNode<Prev, S>,
    ctx: C,
    world: World<R>,
    input: In,
) where
    Prev: CtxChainCall<R, C, In, Out = T>,
    S: CtxRefStepCall<R, C, T, Out = ()>,
    requires
        node.prev.call_pre(ctx, world, input),
        forall|prev: Prev, ctx_mid: C, world_mid: World<R>, mid: T|
            #[trigger] node.prev.call_post(ctx, world, input, prev, ctx_mid, world_mid, mid)
                ==> node.step.call_pre(ctx_mid, world_mid, &mid),
    ensures
        node.call_pre(ctx, world, input),
{
}

/// May be called where the chain before it may be, and whatever that gives may be handed on.
pub proof fn lemma_ctx_guard_ready<R, C, In, T, Prev, S>(
    node: CtxGuardNode<Prev, S>,
    ctx: C,
    world: World<R>,
    input: In,
) where
    Prev: CtxChainCall<R, C, In, Out = T>,
    S: CtxRefStepCall<R, C, T, Out = bool>,
    requires
        node.prev.call_pre(ctx, world, input),
        forall|prev: Prev, ctx_mid: C, world_mid: World<R>, mid: T|
            #[trigger] node.prev.call_post(ctx, world, input, prev, ctx_mid, world_mid, mid)
                ==> node.step.call_pre(ctx_mid, world_mid, &mid),
    ensures
        node.call_pre(ctx, world, input),
{
}

/// Where the chain before it gives a value, the step is called once, and `Some` of its result is
/// the result.
pub proof fn lemma_ctx_map_option_some<R, C, In, T, U, Prev, S>(
    node: CtxMapOptionNode<Prev, S, T>,
    ctx: C,
    world: World<R>,
    input: In,
    after: CtxMapOptionNode<Prev, S, T>,
    ctx_after: C,
    world_after: World<R>,
    out: Option<U>,
) where
    Prev: CtxChainCall<R, C, In, Out = Option<T>>,
    S: CtxStepCall<R, C, T, Out = U>,
    requires
        node.call_post(ctx, world, input, after, ctx_after, world_after, out),
        forall|prev: Prev, ctx_mid: C, world_mid: World<R>|
            !#[trigger] node.prev.call_post(ctx, world, input, prev, ctx_mid, world_mid, None::<T>),
    ensures
        exists|ctx_mid: C, world_mid: World<R>, val: T|
            #[trigger] node.prev.call_post(
                ctx,
                world,
                input,
                after.prev,
                ctx_mid,
                world_mid,
                Some(val),
            )
                && exists|res: U|
                #[trigger] node.step.call_post(
                    ctx_mid,
                    world_mid,
                    val,
                    after.step,
                    ctx_after,
                    world_after,
                    res,
                )
                    && out == Some(res),
{
    assert forall|ctx_mid: C, world_mid: World<R>, mid: Option<T>|
        #[trigger] node.prev.call_post(ctx, world, input, after.prev, ctx_mid, world_mid, mid)
            implies mid == Some(mid->0) by {
        if mid is None {
            assert(mid == None::<T>);
        }
    }
}

/// May be called where the chain before it may be, and whatever that gives may be handed on.
pub proof fn lemma_ctx_map_option_ready<R, C, In, T, U, Prev, S>(
    node: CtxMapOptionNode<Prev, S, T>,
    ctx: C,
    world: World<R>,
    input: In,
) where
    Prev: CtxChainCall<R, C, In, Out = Option<T>>,
    S: CtxStepCall<R, C, T, Out = U>,
    requires
        node.prev.call_pre(ctx, world, input),
        forall|prev: Prev, ctx_mid: C, world_mid: World<R>, mid: Option<T>|
            #[trigger] node.prev.call_post(ctx, world, input, prev, ctx_mid, world_mid, mid)
                ==> match mid {
            Some(val) => node.step.call_pre(ctx_mid, world_mid, val),
            None => true,
        },
    ensures
        node.call_pre(ctx, world, input),
{
}

/// May be called where the chain before it may be, and whatever that gives may be handed on.
pub proof fn lemma_ctx_filter_ready<R, C, In, T, Prev, S>(
    node: CtxFilterNode<Prev, S, T>,
    ctx: C,
    world: World<R>,
    input: In,
) where
    Prev: CtxChainCall<R, C, In, Out = Option<T>>,
    S: CtxRefStepCall<R, C, T, Out = bool>,
    requires
        node.prev.call_pre(ctx, world, input),
        forall|prev: Prev, ctx_mid: C, world_mid: World<R>, mid: Option<T>|
            #[trigger] node.prev.call_post(ctx, world, input, prev, ctx_mid, world_mid, mid)
                ==> match mid {
            Some(val) => node.step.call_pre(ctx_mid, world_mid, &val),
            None => true,
        },
    ensures
        node.call_pre(ctx, world, input),
{
}

/// Where the chain before it gives a value, the step is called once, and the value is handed on
/// as it is.
pub proof fn lemma_ctx_inspect_option_some<R, C, In, T, Prev, S>(
    node: CtxInspectOptionNode<Prev, S, T>,
    ctx: C,
    world: World<R>,
    input: In,
    after: CtxInspectOptionNode<Prev, S, T>,
    ctx_after: C,
    world_after: World<R>,
    out: Option<T>,
) where
    Prev: CtxChainCall<R, C, In, Out = Option<T>>,
    S: CtxRefStepCall<R, C, T, Out = ()>,
    requires
        node.call_post(ctx, world, input, after, ctx_after, world_after, out),
        forall|prev: Prev, ctx_mid: C, world_mid: World<R>|
            !#[trigger] node.prev.call_post(ctx, world, input, prev, ctx_mid, world_mid, None::<T>),
    ensures
        exists|ctx_mid: C, world_mid: World<R>, val: T|
            #[trigger] node.prev.call_post(
                ctx,
                world,
                input,
                after.prev,
                ctx_mid,
                world_mid,
                Some(val),
            )
                && node.step.call_post(
                    ctx_mid,
                    world_mid,
                    &val,
                    after.step,
                    ctx_after,
                    world_after,
                    (),
                )
                && out == Some(val),
{
    assert forall|ctx_mid: C, world_mid: World<R>, mid: Option<T>|
        #[trigger] node.prev.call_post(ctx, world, input, after.prev, ctx_mid, world_mid, mid)
            implies mid == Some(mid->0) by {
        if mid is None {
            assert(mid == None::<T>);
        }
    }
}

/// Where the chain before it gives `None`, nothing is called, and `None` is the result.
pub proof fn lemma_ctx_inspect_option_none<R, C, In, T, Prev, S>(
    node: CtxInspectOptionNode<Prev, S, T>,
    ctx: C,
    world: World<R>,
    input: In,
    after: CtxInspectOptionNode<Prev, S, T>,
    ctx_after: C,
    world_after: World<R>,
    out: Option<T>,
) where
    Prev: CtxChainCall<R, C, In, Out = Option<T>>,
    S: CtxRefStepCall<R, C, T, Out = ()>,
    requires
        node.call_post(ctx, world, input, after, ctx_after, world_after, out),
        forall|prev: Prev, ctx_mid: C, world_mid: World<R>, val: T|
            !#[trigger] node.prev.call_post(ctx, world, input, prev, ctx_mid, world_mid, Some(val)),
    ensures
        exists|ctx_mid: C, world_mid: World<R>|
            #[trigger] node.prev.call_post(
                ctx,
                world,
                input,
                after.prev,
                ctx_mid,
                world_mid,
                None::<T>,
            )
                && after.step == node.step
                && ctx_after == ctx_mid
                && world_after == world_mid
                && out == None::<T>,
{
    assert forall|ctx_mid: C, world_mid: World<R>, mid: Option<T>|
        #[trigger] node.prev.call_post(ctx, world, input, after.prev, ctx_mid, world_mid, mid)
            implies mid == None::<T> by {
        if mid is Some {
            assert(mid == Some(mid->0));
        }
    }
}

/// May be called where the chain before it may be, and whatever that gives may be handed on.
pub proof fn lemma_ctx_inspect_option_ready<R, C, In, T, Prev, S>(
    node: CtxInspectOptionNode<Prev, S, T>,
    ctx: C,
    world: World<R>,
    input: In,
) where
    Prev: CtxChainCall<R, C, In, Out = Option<T>>,
    S: CtxRefStepCall<R, C, T, Out = ()>,
    requires
        node.prev.call_pre(ctx, world, input),
        forall|prev: Prev, ctx_mid: C, world_mid: World<R>, mid: Option<T>|
            #[trigger] node.prev.call_post(ctx, world, input, prev, ctx_mid, world_mid, mid)
                ==> match mid {
            Some(val) => node.step.call_pre(ctx_mid, world_mid, &val),
            None => true,
        },
    ensures
        node.call_pre(ctx, world, input),
{
}

/// Where the chain before it gives a value, the step is called once, and its result is the result.
pub proof fn lemma_ctx_and_then_some<R, C, In, T, U, Prev, S>(
    node: CtxAndThenNode<Prev, S, T, U>,
    ctx: C,
    world: World<R>,
    input: In,
    after: CtxAndThenNode<Prev, S, T, U>,
    ctx_after: C,
    world_after: World<R>,
    out: Option<U>,
) where
    Prev: CtxChainCall<R, C, In, Out = Option<T>>,
    S: CtxStepCall<R, C, T, Out = Option<U>>,
    requires
        node.call_post(ctx, world, input, after, ctx_after, world_after, out),
        forall|prev: Prev, ctx_mid: C, world_mid: World<R>|
            !#[trigger] node.prev.call_post(ctx, world, input, prev, ctx_mid, world_mid, None::<T>),
    ensures
        exists|ctx_mid: C, world_mid: World<R>, val: T|
            #[trigger] node.prev.call_post(
                ctx,
                world,
                input,
                after.prev,
                ctx_mid,
                world_mid,
                Some(val),
            )
                && node.step.call_post(
                    ctx_mid,
                    world_mid,
                    val,
                    after.step,
                    ctx_after,
                    world_after,
                    out,
                ),
{
    assert forall|ctx_mid: C, world_mid: World<R>, mid: Option<T>|
        #[trigger] node.prev.call_post(ctx, world, input, after.prev, ctx_mid, world_mid, mid)
            implies mid == Some(mid->0) by {
        if mid is None {
            assert(mid == None::<T>);
        }
    }
}

/// May be called where the chain before it may be, and whatever that gives may be handed on.
pub proof fn lemma_ctx_and_then_ready<R, C, In, T, U, Prev, S>(
    node: CtxAndThenNode<Prev, S, T, U>,
    ctx: C,
    world: World<R>,
    input: In,
) where
    Prev: CtxChainCall<R, C, In, Out = Option<T>>,
    S: CtxStepCall<R, C, T, Out = Option<U>>,
    requires
        node.prev.call_pre(ctx, world, input),
        forall|prev: Prev, ctx_mid: C, world_mid: World<R>, mid: Option<T>|
            #[trigger] node.prev.call_post(ctx, world, input, prev, ctx_mid, world_mid, mid)
                ==> match mid {
            Some(val) => node.step.call_pre(ctx_mid, world_mid, val),
            None => true,
        },
    ensures
        node.call_pre(ctx, world, input),
{
}

/// Where the chain before it gives a value, nothing is called, and the value is handed on.
pub proof fn lemma_ctx_on_none_some<R, C, In, T, Prev, S>(
    node: CtxOnNoneNode<Prev, S, T>,
    ctx: C,
    world: World<R>,
    input: In,
    after: CtxOnNoneNode<Prev, S, T>,
    ctx_after: C,
    world_after: World<R>,
    out: Option<T>,
) where
    Prev: CtxChainCall<R, C, In, Out = Option<T>>,
    S: CtxProducerCall<R, C, Out = ()>,
    requires
        node.call_post(ctx, world, input, after, ctx_after, world_after, out),
        forall|prev: Prev, ctx_mid: C, world_mid: World<R>|
            !#[trigger] node.prev.call_post(ctx, world, input, prev, ctx_mid, world_mid, None::<T>),
    ensures
        exists|ctx_mid: C, world_mid: World<R>, val: T|
            #[trigger] node.prev.call_post(
                ctx,
                world,
                input,
                after.prev,
                ctx_mid,
                world_mid,
                Some(val),
            )
                && after.producer == node.producer
                && ctx_after == ctx_mid
                && world_after == world_mid
                && out == Some(val),
{
    assert forall|ctx_mid: C, world_mid: World<R>, mid: Option<T>|
        #[trigger] node.prev.call_post(ctx, world, input, after.prev, ctx_mid, world_mid, mid)
            implies mid == Some(mid->0) by {
        if mid is None {
            assert(mid == None::<T>);
        }
    }
}

/// Where the chain before it gives `None`, the producer is called once, and the value is handed
/// on as it is.
pub proof fn lemma_ctx_on_none_none<R, C, In, T, Prev, S>(
    node: CtxOnNoneNode<Prev, S, T>,
    ctx: C,
    world: World<R>,
    input: In,
    after: CtxOnNoneNode<Prev, S, T>,
    ctx_after: C,
    world_after: World<R>,
    out: Option<T>,
) where
    Prev: CtxChainCall<R, C, In, Out = Option<T>>,
    S: CtxProducerCall<R, C, Out = ()>,
    requires
        node.call_post(ctx, world, input, after, ctx_after, world_after, out),
        forall|prev: Prev, ctx_mid: C, world_mid: World<R>, val: T|
            !#[trigger] node.prev.call_post(ctx, world, input, prev, ctx_mid, world_mid, Some(val)),
    ensures
        exists|ctx_mid: C, world_mid: World<R>|
            #[trigger] node.prev.call_post(
                ctx,
                world,
                input,
                after.prev,
                ctx_mid,
                world_mid,
                None::<T>,
            )
                && node.producer.call_post(
                    ctx_mid,
                    world_mid,
                    after.producer,
                    ctx_after,
                    world_after,
                    (),
                )
                && out == None::<T>,
{
    assert forall|ctx_mid: C, world_mid: World<R>, mid: Option<T>|
        #[trigger] node.prev.call_post(ctx, world, input, after.prev, ctx_mid, world_mid, mid)
            implies mid == None::<T> by {
        if mid is Some {
            assert(mid == Some(mid->0));
        }
    }
}

/// May be called where the chain before it may be, and whatever that gives may be handed on.
pub proof fn lemma_ctx_on_none_ready<R, C, In, T, Prev, S>(
    node: CtxOnNoneNode<Prev, S, T>,
    ctx: C,
    world: World<R>,
    input: In,
) where
    Prev: CtxChainCall<R, C, In, Out = Option<T>>,
    S: CtxProducerCall<R, C, Out = ()>,
    requires
        node.prev.call_pre(ctx, world, input),
        forall|prev: Prev, ctx_mid: C, world_mid: World<R>, mid: Option<T>|
            #[trigger] node.prev.call_post(ctx, world, input, prev, ctx_mid, world_mid, mid)
                ==> match mid {
            Some(val) => true,
            None => node.producer.call_pre(ctx_mid, world_mid),
        },
    ensures
        node.call_pre(ctx, world, input),
{
}

/// Where the chain before it gives a value, nothing is called, and the value is handed on.
pub proof fn lemma_ctx_ok_or_some<R, C, In, T, E: Clone, Prev>(
    node: CtxOkOrNode<Prev, E, T>,
    ctx: C,
    world: World<R>,
    input: In,
    after: CtxOkOrNode<Prev, E, T>,
    ctx_after: C,
    world_after: World<R>,
    out: Result<T, E>,
) where
    Prev: CtxChainCall<R, C, In, Out = Option<T>>,
    requires
        node.call_post(ctx, world, input, after, ctx_after, world_after, out),
        forall|prev: Prev, ctx_mid: C, world_mid: World<R>|
            !#[trigger] node.prev.call_post(ctx, world, input, prev, ctx_mid, world_mid, None::<T>),
    ensures
        exists|ctx_mid: C, world_mid: World<R>, val: T|
            #[trigger] node.prev.call_post(
                ctx,
                world,
                input,
                after.prev,
                ctx_mid,
                world_mid,
                Some(val),
            )
                && after.err == node.err
                && ctx_after == ctx_mid
                && world_after == world_mid
                && out == Ok::<T, E>(val),
{
    assert forall|ctx_mid: C, world_mid: World<R>, mid: Option<T>|
        #[trigger] node.prev.call_post(ctx, world, input, after.prev, ctx_mid, world_mid, mid)
            implies mid == Some(mid->0) by {
        if mid is None {
            assert(mid == None::<T>);
        }
    }
}

/// Where the chain before it gives `None`, nothing is called, and a clone of the error kept for
/// it is the result.
pub proof fn lemma_ctx_ok_or_none<R, C, In, T, E: Clone, Prev>(
    node: CtxOkOrNode<Prev, E, T>,
    ctx: C,
    world: World<R>,
    input: In,
    after: CtxOkOrNode<Prev, E, T>,
    ctx_after: C,
    world_after: World<R>,
    out: Result<T, E>,
) where
    Prev: CtxChainCall<R, C, In, Out = Option<T>>,
    requires
        node.call_post(ctx, world, input, after, ctx_after, world_after, out),
        forall|prev: Prev, ctx_mid: C, world_mid: World<R>, val: T|
            !#[trigger] node.prev.call_post(ctx, world, input, prev, ctx_mid, world_mid, Some(val)),
    ensures
        exists|ctx_mid: C, world_mid: World<R>|
            #[trigger] node.prev.call_post(
                ctx,
                world,
                input,
                after.prev,
                ctx_mid,
                world_mid,
                None::<T>,
            )
                && after.err == node.err
                && ctx_after == ctx_mid
                && world_after == world_mid
                && out is Err
                && cloned(node.err, out->Err_0),
{
    assert forall|ctx_mid: C, world_mid: World<R>, mid: Option<T>|
        #[trigger] node.prev.call_post(ctx, world, input, after.prev, ctx_mid, world_mid, mid)
            implies mid == None::<T> by {
        if mid is Some {
            assert(mid == Some(mid->0));
        }
    }
}

/// May be called where the chain before it may be.
pub proof fn lemma_ctx_ok_or_ready<R, C, In, T, E: Clone, Prev>(
    node: CtxOkOrNode<Prev, E, T>,
    ctx: C,
    world: World<R>,
    input: In,
) where
    Prev: CtxChainCall<R, C, In, Out = Option<T>>,
    requires
        node.prev.call_pre(ctx, world, input),
    ensures
        node.call_pre(ctx, world, input),
{
}

/// Where the chain before it gives a value, nothing is called, and the value is handed on.
pub proof fn lemma_ctx_unwrap_or_option_some<R, C, In, T: Clone, Prev>(
    node: CtxUnwrapOrOptionNode<Prev, T>,
    ctx: C,
    world: World<R>,
    input: In,
    after: CtxUnwrapOrOptionNode<Prev, T>,
    ctx_after: C,
    world_after: World<R>,
    out: T,
) where
    Prev: CtxChainCall<R, C, In, Out = Option<T>>,
    requires
        node.call_post(ctx, world, input, after, ctx_after, world_after, out),
        forall|prev: Prev, ctx_mid: C, world_mid: World<R>|
            !#[trigger] node.prev.call_post(ctx, world, input, prev, ctx_mid, world_mid, None::<T>),
    ensures
        exists|ctx_mid: C, world_mid: World<R>, val: T|
            #[trigger] node.prev.call_post(
                ctx,
                world,
                input,
                after.prev,
                ctx_mid,
                world_mid,
                Some(val),
            )
                && after.default == node.default
                && ctx_after == ctx_mid
                && world_after == world_mid
                && out == val,
{
    assert forall|ctx_mid: C, world_mid: World<R>, mid: Option<T>|
        #[trigger] node.prev.call_post(ctx, world, input, after.prev, ctx_mid, world_mid, mid)
            implies mid == Some(mid->0) by {
        if mid is None {
            assert(mid == None::<T>);
        }
    }
}

/// Where the chain before it gives `None`, nothing is called, and a clone of the default is the
/// result.
pub proof fn lemma_ctx_unwrap_or_option_none<R, C, In, T: Clone, Prev>(
    node: CtxUnwrapOrOptionNode<Prev, T>,
    ctx: C,
    world: World<R>,
    input: In,
    after: CtxUnwrapOrOptionNode<Prev, T>,
    ctx_after: C,
    world_after: World<R>,
    out: T,
) where
    Prev: CtxChainCall<R, C, In, Out = Option<T>>,
    requires
        node.call_post(ctx, world, input, after, ctx_after, world_after, out),
        forall|prev: Prev, ctx_mid: C, world_mid: World<R>, val: T|
            !#[trigger] node.prev.call_post(ctx, world, input, prev, ctx_mid, world_mid, Some(val)),
    ensures
        exists|ctx_mid: C, world_mid: World<R>|
            #[trigger] node.prev.call_post(
                ctx,
                world,
                input,
                after.prev,
                ctx_mid,
                world_mid,
                None::<T>,
            )
                && after.default == node.default
                && ctx_after == ctx_mid
                && world_after == world_mid
                && cloned(node.default, out),
{
    assert forall|ctx_mid: C, world_mid: World<R>, mid: Option<T>|
        #[trigger] node.prev.call_post(ctx, world, input, after.prev, ctx_mid, world_mid, mid)
            implies mid == None::<T> by {
        if mid is Some {
            assert(mid == Some(mid->0));
        }
    }
}

/// May be called where the chain before it may be.
pub proof fn lemma_ctx_unwrap_or_option_ready<R, C, In, T: Clone, Prev>(
    node: CtxUnwrapOrOptionNode<Prev, T>,
    ctx: C,
    world: World<R>,
    input: In,
) where
    Prev: CtxChainCall<R, C, In, Out = Option<T>>,
    requires
        node.prev.call_pre(ctx, world, input),
    ensures
        node.call_pre(ctx, world, input),
{
}

/// Where the chain before it gives `None`, the producer is called once, and its result is the
/// result.
pub proof fn lemma_ctx_unwrap_or_else_option_none<R, C, In, T, Prev, S>(
    node: CtxUnwrapOrElseOptionNode<Prev, S, T>,
    ctx: C,
    world: World<R>,
    input: In,
    after: CtxUnwrapOrElseOptionNode<Prev, S, T>,
    ctx_after: C,
    world_after: World<R>,
    out: T,
) where
    Prev: CtxChainCall<R, C, In, Out = Option<T>>,
    S: CtxProducerCall<R, C, Out = T>,
    requires
        node.call_post(ctx, world, input, after, ctx_after, world_after, out),
        forall|prev: Prev, ctx_mid: C, world_mid: World<R>, val: T|
            !#[trigger] node.prev.call_post(ctx, world, input, prev, ctx_mid, world_mid, Some(val)),
    ensures
        exists|ctx_mid: C, world_mid: World<R>|
            #[trigger] node.prev.call_post(
                ctx,
                world,
                input,
                after.prev,
                ctx_mid,
                world_mid,
                None::<T>,
            )
                && node.producer.call_post(
                    ctx_mid,
                    world_mid,
                    after.producer,
                    ctx_after,
                    world_after,
                    out,
                ),
{
    assert forall|ctx_mid: C, world_mid: World<R>, mid: Option<T>|
        #[trigger] node.prev.call_post(ctx, world, input, after.prev, ctx_mid, world_mid, mid)
            implies mid == None::<T> by {
        if mid is Some {
            assert(mid == Some(mid->0));
        }
    }
}

/// May be called where the chain before it may be, and whatever that gives may be handed on.
pub proof fn lemma_ctx_unwrap_or_else_option_ready<R, C, In, T, Prev, S>(
    node: CtxUnwrapOrElseOptionNode<Prev, S, T>,
    ctx: C,
    world: World<R>,
    input: In,
) where
    Prev: CtxChainCall<R, C, In, Out = Option<T>>,
    S: CtxProducerCall<R, C, Out = T>,
    requires
        node.prev.call_pre(ctx, world, input),
        forall|prev: Prev, ctx_mid: C, world_mid: World<R>, mid: Option<T>|
            #[trigger] node.prev.call_post(ctx, world, input, prev, ctx_mid, world_mid, mid)
                ==> match mid {
            Some(val) => true,
            None => node.producer.call_pre(ctx_mid, world_mid),
        },
    ensures
        node.call_pre(ctx, world, input),
{
}

/// Where the chain before it gives a value, the step is called once, and `Ok` of its result is
/// the result.
pub proof fn lemma_ctx_map_result_ok<R, C, In, T, U, E, Prev, S>(
    node: CtxMapResultNode<Prev, S, T, E>,
    ctx: C,
    world: World<R>,
    input: In,
    after: CtxMapResultNode<Prev, S, T, E>,
    ctx_after: C,
    world_after: World<R>,
    out: Result<U, E>,
) where
    Prev: CtxChainCall<R, C, In, Out = Result<T, E>>,
    S: CtxStepCall<R, C, T, Out = U>,
    requires
        node.call_post(ctx, world, input, after, ctx_after, world_after, out),
        forall|prev: Prev, ctx_mid: C, world_mid: World<R>, e: E|
            !#[trigger] node.prev.call_post(
                ctx,
                world,
                input,
                prev,
                ctx_mid,
                world_mid,
                Err::<T, E>(e),
            ),
    ensures
        exists|ctx_mid: C, world_mid: World<R>, val: T|
            #[trigger] node.prev.call_post(
                ctx,
                world,
                input,
                after.prev,
                ctx_mid,
                world_mid,
                Ok::<T, E>(val),
            )
                && exists|res: U|
                #[trigger] node.step.call_post(
                    ctx_mid,
                    world_mid,
                    val,
                    after.step,
                    ctx_after,
                    world_after,
                    res,
                )
                    && out == Ok::<U, E>(res),
{
    assert forall|ctx_mid: C, world_mid: World<R>, mid: Result<T, E>|
        #[trigger] node.prev.call_post(ctx, world, input, after.prev, ctx_mid, world_mid, mid)
            implies mid == Ok::<T, E>(mid->Ok_0) by {
        if mid is Err {
            assert(mid == Err::<T, E>(mid->Err_0));
        }
    }
}

/// May be called where the chain before it may be, and whatever that gives may be handed on.
pub proof fn lemma_ctx_map_result_ready<R, C, In, T, U, E, Prev, S>(
    node: CtxMapResultNode<Prev, S, T, E>,
    ctx: C,
    world: World<R>,
    input: In,
) where
    Prev: CtxChainCall<R, C, In, Out = Result<T, E>>,
    S: CtxStepCall<R, C, T, Out = U>,
    requires
        node.prev.call_pre(ctx, world, input),
        forall|prev: Prev, ctx_mid: C, world_mid: World<R>, mid: Result<T, E>|
            #[trigger] node.prev.call_post(ctx, world, input, prev, ctx_mid, world_mid, mid)
                ==> match mid {
            Ok(val) => node.step.call_pre(ctx_mid, world_mid, val),
            Err(e) => true,
        },
    ensures
        node.call_pre(ctx, world, input),
{
}

/// Where the chain before it gives a value, the step is called once, and its result is the result.
pub proof fn lemma_ctx_and_then_result_ok<R, C, In, T, U, E, Prev, S>(
    node: CtxAndThenResultNode<Prev, S, T, E, U>,
    ctx: C,
    world: World<R>,
    input: In,
    after: CtxAndThenResultNode<Prev, S, T, E, U>,
    ctx_after: C,
    world_after: World<R>,
    out: Result<U, E>,
) where
    Prev: CtxChainCall<R, C, In, Out = Result<T, E>>,
    S: CtxStepCall<R, C, T, Out = Result<U, E>>,
    requires
        node.call_post(ctx, world, input, after, ctx_after, world_after, out),
        forall|prev: Prev, ctx_mid: C, world_mid: World<R>, e: E|
            !#[trigger] node.prev.call_post(
                ctx,
                world,
                input,
                prev,
                ctx_mid,
                world_mid,
                Err::<T, E>(e),
            ),
    ensures
        exists|ctx_mid: C, world_mid: World<R>, val: T|
            #[trigger] node.prev.call_post(
                ctx,
                world,
                input,
                after.prev,
                ctx_mid,
                world_mid,
                Ok::<T, E>(val),
            )
                && node.step.call_post(
                    ctx_mid,
                    world_mid,
                    val,
                    after.step,
                    ctx_after,
                    world_after,
                    out,
                ),
{
    assert forall|ctx_mid: C, world_mid: World<R>, mid: Result<T, E>|
        #[trigger] node.prev.call_post(ctx, world, input, after.prev, ctx_mid, world_mid, mid)
            implies mid == Ok::<T, E>(mid->Ok_0) by {
        if mid is Err {
            assert(mid == Err::<T, E>(mid->Err_0));
        }
    }
}

/// May be called where the chain before it may be, and whatever that gives may be handed on.
pub proof fn lemma_ctx_and_then_result_ready<R, C, In, T, U, E, Prev, S>(
    node: CtxAndThenResultNode<Prev, S, T, E, U>,
    ctx: C,
    world: World<R>,
    input: In,
) where
    Prev: CtxChainCall<R, C, In, Out = Result<T, E>>,
    S: CtxStepCall<R, C, T, Out = Result<U, E>>,
    requires
        node.prev.call_pre(ctx, world, input),
        forall|prev: Prev, ctx_mid: C, world_mid: World<R>, mid: Result<T, E>|
            #[trigger] node.prev.call_post(ctx, world, input, prev, ctx_mid, world_mid, mid)
                ==> match mid {
            Ok(val) => node.step.call_pre(ctx_mid, world_mid, val),
            Err(e) => true,
        },
    ensures
        node.call_pre(ctx, world, input),
{
}

/// May be called where the chain before it may be, and whatever that gives may be handed on.
pub proof fn lemma_ctx_catch_ready<R, C, In, T, E, Prev, S>(
    node: CtxCatchNode<Prev, S, T, E>,
    ctx: C,
    world: World<R>,
    input: In,
) where
    Prev: CtxChainCall<R, C, In, Out = Result<T, E>>,
    S: CtxStepCall<R, C, E, Out = ()>,
    requires
        node.prev.call_pre(ctx, world, input),
        forall|prev: Prev, ctx_mid: C, world_mid: World<R>, mid: Result<T, E>|
            #[trigger] node.prev.call_post(ctx, world, input, prev, ctx_mid, world_mid, mid)
                ==> match mid {
            Ok(val) => true,
            Err(e) => node.step.call_pre(ctx_mid, world_mid, e),
        },
    ensures
        node.call_pre(ctx, world, input),
{
}

/// Where the chain before it gives an error, the step is called once, and its result is the error.
pub proof fn lemma_ctx_map_err_err<R, C, In, T, E, E2, Prev, S>(
    node: CtxMapErrNode<Prev, S, T, E>,
    ctx: C,
    world: World<R>,
    input: In,
    after: CtxMapErrNode<Prev, S, T, E>,
    ctx_after: C,
    world_after: World<R>,
    out: Result<T, E2>,
) where
    Prev: CtxChainCall<R, C, In, Out = Result<T, E>>,
    S: CtxStepCall<R, C, E, Out = E2>,
    requires
        node.call_post(ctx, world, input, after, ctx_after, world_after, out),
        forall|prev: Prev, ctx_mid: C, world_mid: World<R>, val: T|
            !#[trigger] node.prev.call_post(
                ctx,
                world,
                input,
                prev,
                ctx_mid,
                world_mid,
                Ok::<T, E>(val),
            ),
    ensures
        exists|ctx_mid: C, world_mid: World<R>, e: E|
            #[trigger] node.prev.call_post(
                ctx,
                world,
                input,
                after.prev,
                ctx_mid,
                world_mid,
                Err::<T, E>(e),
            )
                && exists|res: E2|
                #[trigger] node.step.call_post(
                    ctx_mid,
                    world_mid,
                    e,
                    after.step,
                    ctx_after,
                    world_after,
                    res,
                )
                    && out == Err::<T, E2>(res),
{
    assert forall|ctx_mid: C, world_mid: World<R>, mid: Result<T, E>|
        #[trigger] node.prev.call_post(ctx, world, input, after.prev, ctx_mid, world_mid, mid)
            implies mid == Err::<T, E>(mid->Err_0) by {
        if mid is Ok {
            assert(mid == Ok::<T, E>(mid->Ok_0));
        }
    }
}

/// May be called where the chain before it may be, and whatever that gives may be handed on.
pub proof fn lemma_ctx_map_err_ready<R, C, In, T, E, E2, Prev, S>(
    node: CtxMapErrNode<Prev, S, T, E>,
    ctx: C,
    world: World<R>,
    input: In,
) where
    Prev: CtxChainCall<R, C, In, Out = Result<T, E>>,
    S: CtxStepCall<R, C, E, Out = E2>,
    requires
        node.prev.call_pre(ctx, world, input),
        forall|prev: Prev, ctx_mid: C, world_mid: World<R>, mid: Result<T, E>|
            #[trigger] node.prev.call_post(ctx, world, input, prev, ctx_mid, world_mid, mid)
                ==> match mid {
            Ok(val) => true,
            Err(e) => node.step.call_pre(ctx_mid, world_mid, e),
        },
    ensures
        node.call_pre(ctx, world, input),
{
}

/// Where the chain before it gives a value, the step is called once, and the value is handed on
/// as it is.
pub proof fn lemma_ctx_inspect_result_ok<R, C, In, T, E, Prev, S>(
    node: CtxInspectResultNode<Prev, S, T, E>,
    ctx: C,
    world: World<R>,
    input: In,
    after: CtxInspectResultNode<Prev, S, T, E>,
    ctx_after: C,
    world_after: World<R>,
    out: Result<T, E>,
) where
    Prev: CtxChainCall<R, C, In, Out = Result<T, E>>,
    S: CtxRefStepCall<R, C, T, Out = ()>,
    requires
        node.call_post(ctx, world, input, after, ctx_after, world_after, out),
        forall|prev: Prev, ctx_mid: C, world_mid: World<R>, e: E|
            !#[trigger] node.prev.call_post(
                ctx,
                world,
                input,
                prev,
                ctx_mid,
                world_mid,
                Err::<T, E>(e),
            ),
    ensures
        exists|ctx_mid: C, world_mid: World<R>, val: T|
            #[trigger] node.prev.call_post(
                ctx,
                world,
                input,
                after.prev,
                ctx_mid,
                world_mid,
                Ok::<T, E>(val),
            )
                && node.step.call_post(
                    ctx_mid,
                    world_mid,
                    &val,
                    after.step,
                    ctx_after,
                    world_after,
                    (),
                )
                && out == Ok::<T, E>(val),
{
    assert forall|ctx_mid: C, world_mid: World<R>, mid: Result<T, E>|
        #[trigger] node.prev.call_post(ctx, world, input, after.prev, ctx_mid, world_mid, mid)
            implies mid == Ok::<T, E>(mid->Ok_0) by {
        if mid is Err {
            assert(mid == Err::<T, E>(mid->Err_0));
        }
    }
}

/// Where the chain before it gives an error, nothing is called, and the error is handed on.
pub proof fn lemma_ctx_inspect_result_err<R, C, In, T, E, Prev, S>(
    node: CtxInspectResultNode<Prev, S, T, E>,
    ctx: C,
    world: World<R>,
    input: In,
    after: CtxInspectResultNode<Prev, S, T, E>,
    ctx_after: C,
    world_after: World<R>,
    out: Result<T, E>,
) where
    Prev: CtxChainCall<R, C, In, Out = Result<T, E>>,
    S: CtxRefStepCall<R, C, T, Out = ()>,
    requires
        node.call_post(ctx, world, input, after, ctx_after, world_after, out),
        forall|prev: Prev, ctx_mid: C, world_mid: World<R>, val: T|
            !#[trigger] node.prev.call_post(
                ctx,
                world,
                input,
                prev,
                ctx_mid,
                world_mid,
                Ok::<T, E>(val),
            ),
    ensures
        exists|ctx_mid: C, world_mid: World<R>, e: E|
            #[trigger] node.prev.call_post(
                ctx,
                world,
                input,
                after.prev,
                ctx_mid,
                world_mid,
                Err::<T, E>(e),
            )
                && after.step == node.step
                && ctx_after == ctx_mid
                && world_after == world_mid
                && out == Err::<T, E>(e),
{
    assert forall|ctx_mid: C, world_mid: World<R>, mid: Result<T, E>|
        #[trigger] node.prev.call_post(ctx, world, input, after.prev, ctx_mid, world_mid, mid)
            implies mid == Err::<T, E>(mid->Err_0) by {
        if mid is Ok {
            assert(mid == Ok::<T, E>(mid->Ok_0));
        }
    }
}

/// May be called where the chain before it may be, and whatever that gives may be handed on.
pub proof fn lemma_ctx_inspect_result_ready<R, C, In, T, E, Prev, S>(
    node: CtxInspectResultNode<Prev, S, T, E>,
    ctx: C,
    world: World<R>,
    input: In,
) where
    Prev: CtxChainCall<R, C, In, Out = Result<T, E>>,
    S: CtxRefStepCall<R, C, T, Out = ()>,
    requires
        node.prev.call_pre(ctx, world, input),
        forall|prev: Prev, ctx_mid: C, world_mid: World<R>, mid: Result<T, E>|
            #[trigger] node.prev.call_post(ctx, world, input, prev, ctx_mid, world_mid, mid)
                ==> match mid {
            Ok(val) => node.step.call_pre(ctx_mid, world_mid, &val),
            Err(e) => true,
        },
    ensures
        node.call_pre(ctx, world, input),
{
}

/// Where the chain before it gives a value, nothing is called, and the value is handed on.
pub proof fn lemma_ctx_inspect_err_ok<R, C, In, T, E, Prev, S>(
    node: CtxInspectErrNode<Prev, S, T, E>,
    ctx: C,
    world: World<R>,
    input: In,
    after: CtxInspectErrNode<Prev, S, T, E>,
    ctx_after: C,
    world_after: World<R>,
    out: Result<T, E>,
) where
    Prev: CtxChainCall<R, C, In, Out = Result<T, E>>,
    S: CtxRefStepCall<R, C, E, Out = ()>,
    requires
        node.call_post(ctx, world, input, after, ctx_after, world_after, out),
        forall|prev: Prev, ctx_mid: C, world_mid: World<R>, e: E|
            !#[trigger] node.prev.call_post(
                ctx,
                world,
                input,
                prev,
                ctx_mid,
                world_mid,
                Err::<T, E>(e),
            ),
    ensures
        exists|ctx_mid: C, world_mid: World<R>, val: T|
            #[trigger] node.prev.call_post(
                ctx,
                world,
                input,
                after.prev,
                ctx_mid,
                world_mid,
                Ok::<T, E>(val),
            )
                && after.step == node.step
                && ctx_after == ctx_mid
                && world_after == world_mid
                && out == Ok::<T, E>(val),
{
    assert forall|ctx_mid: C, world_mid: World<R>, mid: Result<T, E>|
        #[trigger] node.prev.call_post(ctx, world, input, after.prev, ctx_mid, world_mid, mid)
            implies mid == Ok::<T, E>(mid->Ok_0) by {
        if mid is Err {
            assert(mid == Err::<T, E>(mid->Err_0));
        }
    }
}

/// Where the chain before it gives an error, the step is called once, and the value is handed on
/// as it is.
pub proof fn lemma_ctx_inspect_err_err<R, C, In, T, E, Prev, S>(
    node: CtxInspectErrNode<Prev, S, T, E>,
    ctx: C,
    world: World<R>,
    input: In,
    after: CtxInspectErrNode<Prev, S, T, E>,
    ctx_after: C,
    world_after: World<R>,
    out: Result<T, E>,
) where
    Prev: CtxChainCall<R, C, In, Out = Result<T, E>>,
    S: CtxRefStepCall<R, C, E, Out = ()>,
    requires
        node.call_post(ctx, world, input, after, ctx_after, world_after, out),
        forall|prev: Prev, ctx_mid: C, world_mid: World<R>, val: T|
            !#[trigger] node.prev.call_post(
                ctx,
                world,
                input,
                prev,
                ctx_mid,
                world_mid,
                Ok::<T, E>(val),
            ),
    ensures
        exists|ctx_mid: C, world_mid: World<R>, e: E|
            #[trigger] node.prev.call_post(
                ctx,
                world,
                input,
                after.prev,
                ctx_mid,
                world_mid,
                Err::<T, E>(e),
            )
                && node.step.call_post(
                    ctx_mid,
                    world_mid,
                    &e,
                    after.step,
                    ctx_after,
                    world_after,
                    (),
                )
                && out == Err::<T, E>(e),
{
    assert forall|ctx_mid: C, world_mid: World<R>, mid: Result<T, E>|
        #[trigger] node.prev.call_post(ctx, world, input, after.prev, ctx_mid, world_mid, mid)
            implies mid == Err::<T, E>(mid->Err_0) by {
        if mid is Ok {
            assert(mid == Ok::<T, E>(mid->Ok_0));
        }
    }
}

/// May be called where the chain before it may be, and whatever that gives may be handed on.
pub proof fn lemma_ctx_inspect_err_ready<R, C, In, T, E, Prev, S>(
    node: CtxInspectErrNode<Prev, S, T, E>,
    ctx: C,
    world: World<R>,
    input: In,
) where
    Prev: CtxChainCall<R, C, In, Out = Result<T, E>>,
    S: CtxRefStepCall<R, C, E, Out = ()>,
    requires
        node.prev.call_pre(ctx, world, input),
        forall|prev: Prev, ctx_mid: C, world_mid: World<R>, mid: Result<T, E>|
            #[trigger] node.prev.call_post(ctx, world, input, prev, ctx_mid, world_mid, mid)
                ==> match mid {
            Ok(val) => true,
            Err(e) => node.step.call_pre(ctx_mid, world_mid, &e),
        },
    ensures
        node.call_pre(ctx, world, input),
{
}

/// Where the chain before it gives a value, nothing is called, and the value is handed on.
pub proof fn lemma_ctx_ok_ok<R, C, In, T, E, Prev>(
    node: CtxOkNode<Prev, T, E>,
    ctx: C,
    world: World<R>,
    input: In,
    after: CtxOkNode<Prev, T, E>,
    ctx_after: C,
    world_after: World<R>,
    out: Option<T>,
) where
    Prev: CtxChainCall<R, C, In, Out = Result<T, E>>,
    requires
        node.call_post(ctx, world, input, after, ctx_after, world_after, out),
        forall|prev: Prev, ctx_mid: C, world_mid: World<R>, e: E|
            !#[trigger] node.prev.call_post(
                ctx,
                world,
                input,
                prev,
                ctx_mid,
                world_mid,
                Err::<T, E>(e),
            ),
    ensures
        exists|ctx_mid: C, world_mid: World<R>, val: T|
            #[trigger] node.prev.call_post(
                ctx,
                world,
                input,
                after.prev,
                ctx_mid,
                world_mid,
                Ok::<T, E>(val),
            )
                && ctx_after == ctx_mid
                && world_after == world_mid
                && out == Some(val),
{
    assert forall|ctx_mid: C, world_mid: World<R>, mid: Result<T, E>|
        #[trigger] node.prev.call_post(ctx, world, input, after.prev, ctx_mid, world_mid, mid)
            implies mid == Ok::<T, E>(mid->Ok_0) by {
        if mid is Err {
            assert(mid == Err::<T, E>(mid->Err_0));
        }
    }
}

/// Where the chain before it gives an error, nothing is called, and `None` is the result.
pub proof fn lemma_ctx_ok_err<R, C, In, T, E, Prev>(
    node: CtxOkNode<Prev, T, E>,
    ctx: C,
    world: World<R>,
    input: In,
    after: CtxOkNode<Prev, T, E>,
    ctx_after: C,
    world_after: World<R>,
    out: Option<T>,
) where
    Prev: CtxChainCall<R, C, In, Out = Result<T, E>>,
    requires
        node.call_post(ctx, world, input, after, ctx_after, world_after, out),
        forall|prev: Prev, ctx_mid: C, world_mid: World<R>, val: T|
            !#[trigger] node.prev.call_post(
                ctx,
                world,
                input,
                prev,
                ctx_mid,
                world_mid,
                Ok::<T, E>(val),
            ),
    ensures
        exists|ctx_mid: C, world_mid: World<R>, e: E|
            #[trigger] node.prev.call_post(
                ctx,
                world,
                input,
                after.prev,
                ctx_mid,
                world_mid,
                Err::<T, E>(e),
            )
                && ctx_after == ctx_mid
                && world_after == world_mid
                && out == None::<T>,
{
    assert forall|ctx_mid: C, world_mid: World<R>, mid: Result<T, E>|
        #[trigger] node.prev.call_post(ctx, world, input, after.prev, ctx_mid, world_mid, mid)
            implies mid == Err::<T, E>(mid->Err_0) by {
        if mid is Ok {
            assert(mid == Ok::<T, E>(mid->Ok_0));
        }
    }
}

/// May be called where the chain before it may be.
pub proof fn lemma_ctx_ok_ready<R, C, In, T, E, Prev>(
    node: CtxOkNode<Prev, T, E>,
    ctx: C,
    world: World<R>,
    input: In,
) where
    Prev: CtxChainCall<R, C, In, Out = Result<T, E>>,
    requires
        node.prev.call_pre(ctx, world, input),
    ensures
        node.call_pre(ctx, world, input),
{
}

/// Where the chain before it gives a value, nothing is called, and the value is handed on.
pub proof fn lemma_ctx_unwrap_or_result_ok<R, C, In, T: Clone, E, Prev>(
    node: CtxUnwrapOrResultNode<Prev, T, E>,
    ctx: C,
    world: World<R>,
    input: In,
    after: CtxUnwrapOrResultNode<Prev, T, E>,
    ctx_after: C,
    world_after: World<R>,
    out: T,
) where
    Prev: CtxChainCall<R, C, In, Out = Result<T, E>>,
    requires
        node.call_post(ctx, world, input, after, ctx_after, world_after, out),
        forall|prev: Prev, ctx_mid: C, world_mid: World<R>, e: E|
            !#[trigger] node.prev.call_post(
                ctx,
                world,
                input,
                prev,
                ctx_mid,
                world_mid,
                Err::<T, E>(e),
            ),
    ensures
        exists|ctx_mid: C, world_mid: World<R>, val: T|
            #[trigger] node.prev.call_post(
                ctx,
                world,
                input,
                after.prev,
                ctx_mid,
                world_mid,
                Ok::<T, E>(val),
            )
                && after.default == node.default
                && ctx_after == ctx_mid
                && world_after == world_mid
                && out == val,
{
    assert forall|ctx_mid: C, world_mid: World<R>, mid: Result<T, E>|
        #[trigger] node.prev.call_post(ctx, world, input, after.prev, ctx_mid, world_mid, mid)
            implies mid == Ok::<T, E>(mid->Ok_0) by {
        if mid is Err {
            assert(mid == Err::<T, E>(mid->Err_0));
        }
    }
}

/// Where the chain before it gives an error, nothing is called, and a clone of the default is the
/// result.
pub proof fn lemma_ctx_unwrap_or_result_err<R, C, In, T: Clone, E, Prev>(
    node: CtxUnwrapOrResultNode<Prev, T, E>,
    ctx: C,
    world: World<R>,
    input: In,
    after: CtxUnwrapOrResultNode<Prev, T, E>,
    ctx_after: C,
    world_after: World<R>,
    out: T,
) where
    Prev: CtxChainCall<R, C, In, Out = Result<T, E>>,
    requires
        node.call_post(ctx, world, input, after, ctx_after, world_after, out),
        forall|prev: Prev, ctx_mid: C, world_mid: World<R>, val: T|
            !#[trigger] node.prev.call_post(
                ctx,
                world,
                input,
                prev,
                ctx_mid,
                world_mid,
                Ok::<T, E>(val),
            ),
    ensures
        exists|ctx_mid: C, world_mid: World<R>, e: E|
            #[trigger] node.prev.call_post(
                ctx,
                world,
                input,
                after.prev,
                ctx_mid,
                world_mid,
                Err::<T, E>(e),
            )
                && after.default == node.default
                && ctx_after == ctx_mid
                && world_after == world_mid
                && cloned(node.default, out),
{
    assert forall|ctx_mid: C, world_mid: World<R>, mid: Result<T, E>|
        #[trigger] node.prev.call_post(ctx, world, input, after.prev, ctx_mid, world_mid, mid)
            implies mid == Err::<T, E>(mid->Err_0) by {
        if mid is Ok {
            assert(mid == Ok::<T, E>(mid->Ok_0));
        }
    }
}

/// May be called where the chain before it may be.
pub proof fn lemma_ctx_unwrap_or_result_ready<R, C, In, T: Clone, E, Prev>(
    node: CtxUnwrapOrResultNode<Prev, T, E>,
    ctx: C,
    world: World<R>,
    input: In,
) where
    Prev: CtxChainCall<R, C, In, Out = Result<T, E>>,
    requires
        node.prev.call_pre(ctx, world, input),
    ensures
        node.call_pre(ctx, world, input),
{
}

/// Where the chain before it gives a value, nothing is called.
pub proof fn lemma_ctx_discard_option_some<R, C, In, Prev>(
    node: CtxDiscardOptionNode<Prev>,
    ctx: C,
    world: World<R>,
    input: In,
    after: CtxDiscardOptionNode<Prev>,
    ctx_after: C,
    world_after: World<R>,
    out: (),
) where
    Prev: CtxChainCall<R, C, In, Out = Option<()>>,
    requires
        node.call_post(ctx, world, input, after, ctx_after, world_after, out),
        forall|prev: Prev, ctx_mid: C, world_mid: World<R>|
            !#[trigger] node.prev.call_post(
                ctx,
                world,
                input,
                prev,
                ctx_mid,
                world_mid,
                None::<()>,
            ),
    ensures
        exists|ctx_mid: C, world_mid: World<R>, val: ()|
            #[trigger] node.prev.call_post(
                ctx,
                world,
                input,
                after.prev,
                ctx_mid,
                world_mid,
                Some(val),
            )
                && ctx_after == ctx_mid
                && world_after == world_mid
                && out == (),
{
    assert forall|ctx_mid: C, world_mid: World<R>, mid: Option<()>|
        #[trigger] node.prev.call_post(ctx, world, input, after.prev, ctx_mid, world_mid, mid)
            implies mid == Some(mid->0) by {
        if mid is None {
            assert(mid == None::<()>);
        }
    }
}

/// Where the chain before it gives `None`, nothing is called.
pub proof fn lemma_ctx_discard_option_none<R, C, In, Prev>(
    node: CtxDiscardOptionNode<Prev>,
    ctx: C,
    world: World<R>,
    input: In,
    after: CtxDiscardOptionNode<Prev>,
    ctx_after: C,
    world_after: World<R>,
    out: (),
) where
    Prev: CtxChainCall<R, C, In, Out = Option<()>>,
    requires
        node.call_post(ctx, world, input, after, ctx_after, world_after, out),
        forall|prev: Prev, ctx_mid: C, world_mid: World<R>, val: ()|
            !#[trigger] node.prev.call_post(ctx, world, input, prev, ctx_mid, world_mid, Some(val)),
    ensures
        exists|ctx_mid: C, world_mid: World<R>|
            #[trigger] node.prev.call_post(
                ctx,
                world,
                input,
                after.prev,
                ctx_mid,
                world_mid,
                None::<()>,
            )
                && ctx_after == ctx_mid
                && world_after == world_mid
                && out == (),
{
    assert forall|ctx_mid: C, world_mid: World<R>, mid: Option<()>|
        #[trigger] node.prev.call_post(ctx, world, input, after.prev, ctx_mid, world_mid, mid)
            implies mid == None::<()> by {
        if mid is Some {
            assert(mid == Some(mid->0));
        }
    }
}

/// May be called where the chain before it may be.
pub proof fn lemma_ctx_discard_option_ready<R, C, In, Prev>(
    node: CtxDiscardOptionNode<Prev>,
    ctx: C,
    world: World<R>,
    input: In,
) where
    Prev: CtxChainCall<R, C, In, Out = Option<()>>,
    requires
        node.prev.call_pre(ctx, world, input),
    ensures
        node.call_pre(ctx, world, input),
{
}

/// The step is shown what the chain before it gives, once, and its result is handed on.
pub proof fn lemma_ctx_dag_then<R, C, In, T, Prev, S, NewOut>(
    node: CtxDagThenNode<Prev, S, NewOut>,
    ctx: C,
    world: World<R>,
    input: In,
    after: CtxDagThenNode<Prev, S, NewOut>,
    ctx_after: C,
    world_after: World<R>,
    out: NewOut,
) where
    Prev: CtxChainCall<R, C, In, Out = T>,
    S: for<'a> CtxStepCall<R, C, &'a T, Out = NewOut>,
    requires
        node.call_post(ctx, world, input, after, ctx_after, world_after, out),
    ensures
        exists|ctx_mid: C, world_mid: World<R>, mid: T|
            #[trigger] node.prev.call_post(ctx, world, input, after.prev, ctx_mid, world_mid, mid)
                && node.step.call_post(
                    ctx_mid,
                    world_mid,
                    &mid,
                    after.step,
                    ctx_after,
                    world_after,
                    out,
                ),
{
}

/// May be called where the chain before it may be, and whatever that gives may be handed on.
pub proof fn lemma_ctx_dag_then_ready<R, C, In, T, Prev, S, NewOut>(
    node: CtxDagThenNode<Prev, S, NewOut>,
    ctx: C,
    world: World<R>,
    input: In,
) where
    Prev: CtxChainCall<R, C, In, Out = T>,
    S: for<'a> CtxStepCall<R, C, &'a T, Out = NewOut>,
    requires
        node.prev.call_pre(ctx, world, input),
        forall|prev: Prev, ctx_mid: C, world_mid: World<R>, mid: T|
            #[trigger] node.prev.call_post(ctx, world, input, prev, ctx_mid, world_mid, mid)
                ==> node.step.call_pre(ctx_mid, world_mid, &mid),
    ensures
        node.call_pre(ctx, world, input),
{
}

/// Where the chain before it gives a value, the step is called once, and `Some` of its result is
/// the result.
pub proof fn lemma_ctx_dag_map_option_some<R, C, In, T, U, Prev, S>(
    node: CtxDagMapOptionNode<Prev, S, T, U>,
    ctx: C,
    world: World<R>,
    input: In,
    after: CtxDagMapOptionNode<Prev, S, T, U>,
    ctx_after: C,
    world_after: World<R>,
    out: Option<U>,
) where
    Prev: CtxChainCall<R, C, In, Out = Option<T>>,
    S: for<'a> CtxStepCall<R, C, &'a T, Out = U>,
    requires
        node.call_post(ctx, world, input, after, ctx_after, world_after, out),
        forall|prev: Prev, ctx_mid: C, world_mid: World<R>|
            !#[trigger] node.prev.call_post(ctx, world, input, prev, ctx_mid, world_mid, None::<T>),
    ensures
        exists|ctx_mid: C, world_mid: World<R>, val: T|
            #[trigger] node.prev.call_post(
                ctx,
                world,
                input,
                after.prev,
                ctx_mid,
                world_mid,
                Some(val),
            )
                && exists|res: U|
                #[trigger] node.step.call_post(
                    ctx_mid,
                    world_mid,
                    &val,
                    after.step,
                    ctx_after,
                    world_after,
                    res,
                )
                    && out == Some(res),
{
    assert forall|ctx_mid: C, world_mid: World<R>, mid: Option<T>|
        #[trigger] node.prev.call_post(ctx, world, input, after.prev, ctx_mid, world_mid, mid)
            implies mid == Some(mid->0) by {
        if mid is None {
            assert(mid == None::<T>);
        }
    }
}

/// May be called where the chain before it may be, and whatever that gives may be handed on.
pub proof fn lemma_ctx_dag_map_option_ready<R, C, In, T, U, Prev, S>(
    node: CtxDagMapOptionNode<Prev, S, T, U>,
    ctx: C,
    world: World<R>,
    input: In,
) where
    Prev: CtxChainCall<R, C, In, Out = Option<T>>,
    S: for<'a> CtxStepCall<R, C, &'a T, Out = U>,
    requires
        node.prev.call_pre(ctx, world, input),
        forall|prev: Prev, ctx_mid: C, world_mid: World<R>, mid: Option<T>|
            #[trigger] node.prev.call_post(ctx, world, input, prev, ctx_mid, world_mid, mid)
                ==> match mid {
            Some(val) => node.step.call_pre(ctx_mid, world_mid, &val),
            None => true,
        },
    ensures
        node.call_pre(ctx, world, input),
{
}

/// Where the chain before it gives a value, the step is called once, and its result is the result.
pub proof fn lemma_ctx_dag_and_then_option_some<R, C, In, T, U, Prev, S>(
    node: CtxDagAndThenOptionNode<Prev, S, T, U>,
    ctx: C,
    world: World<R>,
    input: In,
    after: CtxDagAndThenOptionNode<Prev, S, T, U>,
    ctx_after: C,
    world_after: World<R>,
    out: Option<U>,
) where
    Prev: CtxChainCall<R, C, In, Out = Option<T>>,
    S: for<'a> CtxStepCall<R, C, &'a T, Out = Option<U>>,
    requires
        node.call_post(ctx, world, input, after, ctx_after, world_after, out),
        forall|prev: Prev, ctx_mid: C, world_mid: World<R>|
            !#[trigger] node.prev.call_post(ctx, world, input, prev, ctx_mid, world_mid, None::<T>),
    ensures
        exists|ctx_mid: C, world_mid: World<R>, val: T|
            #[trigger] node.prev.call_post(
                ctx,
                world,
                input,
                after.prev,
                ctx_mid,
                world_mid,
                Some(val),
            )
                && node.step.call_post(
                    ctx_mid,
                    world_mid,
                    &val,
                    after.step,
                    ctx_after,
                    world_after,
                    out,
                ),
{
    assert forall|ctx_mid: C, world_mid: World<R>, mid: Option<T>|
        #[trigger] node.prev.call_post(ctx, world, input, after.prev, ctx_mid, world_mid, mid)
            implies mid == Some(mid->0) by {
        if mid is None {
            assert(mid == None::<T>);
        }
    }
}

/// May be called where the chain before it may be, and whatever that gives may be handed on.
pub proof fn lemma_ctx_dag_and_then_option_ready<R, C, In, T, U, Prev, S>(
    node: CtxDagAndThenOptionNode<Prev, S, T, U>,
    ctx: C,
    world: World<R>,
    input: In,
) where
    Prev: CtxChainCall<R, C, In, Out = Option<T>>,
    S: for<'a> CtxStepCall<R, C, &'a T, Out = Option<U>>,
    requires
        node.prev.call_pre(ctx, world, input),
        forall|prev: Prev, ctx_mid: C, world_mid: World<R>, mid: Option<T>|
            #[trigger] node.prev.call_post(ctx, world, input, prev, ctx_mid, world_mid, mid)
                ==> match mid {
            Some(val) => node.step.call_pre(ctx_mid, world_mid, &val),
            None => true,
        },
    ensures
        node.call_pre(ctx, world, input),
{
}

/// Where the chain before it gives a value, the step is called once, and `Ok` of its result is
/// the result.
pub proof fn lemma_ctx_dag_map_result_ok<R, C, In, T, E, U, Prev, S>(
    node: CtxDagMapResultNode<Prev, S, T, E, U>,
    ctx: C,
    world: World<R>,
    input: In,
    after: CtxDagMapResultNode<Prev, S, T, E, U>,
    ctx_after: C,
    world_after: World<R>,
    out: Result<U, E>,
) where
    Prev: CtxChainCall<R, C, In, Out = Result<T, E>>,
    S: for<'a> CtxStepCall<R, C, &'a T, Out = U>,
    requires
        node.call_post(ctx, world, input, after, ctx_after, world_after, out),
        forall|prev: Prev, ctx_mid: C, world_mid: World<R>, e: E|
            !#[trigger] node.prev.call_post(
                ctx,
                world,
                input,
                prev,
                ctx_mid,
                world_mid,
                Err::<T, E>(e),
            ),
    ensures
        exists|ctx_mid: C, world_mid: World<R>, val: T|
            #[trigger] node.prev.call_post(
                ctx,
                world,
                input,
                after.prev,
                ctx_mid,
                world_mid,
                Ok::<T, E>(val),
            )
                && exists|res: U|
                #[trigger] node.step.call_post(
                    ctx_mid,
                    world_mid,
                    &val,
                    after.step,
                    ctx_after,
                    world_after,
                    res,
                )
                    && out == Ok::<U, E>(res),
{
    assert forall|ctx_mid: C, world_mid: World<R>, mid: Result<T, E>|
        #[trigger] node.prev.call_post(ctx, world, input, after.prev, ctx_mid, world_mid, mid)
            implies mid == Ok::<T, E>(mid->Ok_0) by {
        if mid is Err {
            assert(mid == Err::<T, E>(mid->Err_0));
        }
    }
}

/// May be called where the chain before it may be, and whatever that gives may be handed on.
pub proof fn lemma_ctx_dag_map_result_ready<R, C, In, T, E, U, Prev, S>(
    node: CtxDagMapResultNode<Prev, S, T, E, U>,
    ctx: C,
    world: World<R>,
    input: In,
) where
    Prev: CtxChainCall<R, C, In, Out = Result<T, E>>,
    S: for<'a> CtxStepCall<R, C, &'a T, Out = U>,
    requires
        node.prev.call_pre(ctx, world, input),
        forall|prev: Prev, ctx_mid: C, world_mid: World<R>, mid: Result<T, E>|
            #[trigger] node.prev.call_post(ctx, world, input, prev, ctx_mid, world_mid, mid)
                ==> match mid {
            Ok(val) => node.step.call_pre(ctx_mid, world_mid, &val),
            Err(e) => true,
        },
    ensures
        node.call_pre(ctx, world, input),
{
}

/// Where the chain before it gives a value, the step is called once, and its result is the result.
pub proof fn lemma_ctx_dag_and_then_result_ok<R, C, In, T, E, U, Prev, S>(
    node: CtxDagAndThenResultNode<Prev, S, T, E, U>,
    ctx: C,
    world: World<R>,
    input: In,
    after: CtxDagAndThenResultNode<Prev, S, T, E, U>,
    ctx_after: C,
    world_after: World<R>,
    out: Result<U, E>,
) where
    Prev: CtxChainCall<R, C, In, Out = Result<T, E>>,
    S: for<'a> CtxStepCall<R, C, &'a T, Out = Result<U, E>>,
    requires
        node.call_post(ctx, world, input, after, ctx_after, world_after, out),
        forall|prev: Prev, ctx_mid: C, world_mid: World<R>, e: E|
            !#[trigger] node.prev.call_post(
                ctx,
                world,
                input,
                prev,
                ctx_mid,
                world_mid,
                Err::<T, E>(e),
            ),
    ensures
        exists|ctx_mid: C, world_mid: World<R>, val: T|
            #[trigger] node.prev.call_post(
                ctx,
                world,
                input,
                after.prev,
                ctx_mid,
                world_mid,
                Ok::<T, E>(val),
            )
                && node.step.call_post(
                    ctx_mid,
                    world_mid,
                    &val,
                    after.step,
                    ctx_after,
                    world_after,
                    out,
                ),
{
    assert forall|ctx_mid: C, world_mid: World<R>, mid: Result<T, E>|
        #[trigger] node.prev.call_post(ctx, world, input, after.prev, ctx_mid, world_mid, mid)
            implies mid == Ok::<T, E>(mid->Ok_0) by {
        if mid is Err {
            assert(mid == Err::<T, E>(mid->Err_0));
        }
    }
}

/// May be called where the chain before it may be, and whatever that gives may be handed on.
pub proof fn lemma_ctx_dag_and_then_result_ready<R, C, In, T, E, U, Prev, S>(
    node: CtxDagAndThenResultNode<Prev, S, T, E, U>,
    ctx: C,
    world: World<R>,
    input: In,
) where
    Prev: CtxChainCall<R, C, In, Out = Result<T, E>>,
    S: for<'a> CtxStepCall<R, C, &'a T, Out = Result<U, E>>,
    requires
        node.prev.call_pre(ctx, world, input),
        forall|prev: Prev, ctx_mid: C, world_mid: World<R>, mid: Result<T, E>|
            #[trigger] node.prev.call_post(ctx, world, input, prev, ctx_mid, world_mid, mid)
                ==> match mid {
            Ok(val) => node.step.call_pre(ctx_mid, world_mid, &val),
            Err(e) => true,
        },
    ensures
        node.call_pre(ctx, world, input),
{
}

/// May be called where the chain before it may be, and whatever that gives may be handed on.
pub proof fn lemma_ctx_dag_catch_ready<R, C, In, T, E, Prev, S>(
    node: CtxDagCatchNode<Prev, S, T, E>,
    ctx: C,
    world: World<R>,
    input: In,
) where
    Prev: CtxChainCall<R, C, In, Out = Result<T, E>>,
    S: for<'a> CtxStepCall<R, C, &'a E, Out = ()>,
    requires
        node.prev.call_pre(ctx, world, input),
        forall|prev: Prev, ctx_mid: C, world_mid: World<R>, mid: Result<T, E>|
            #[trigger] node.prev.call_post(ctx, world, input, prev, ctx_mid, world_mid, mid)
                ==> match mid {
            Ok(val) => true,
            Err(e) => node.step.call_pre(ctx_mid, world_mid, &e),
        },
    ensures
        node.call_pre(ctx, world, input),
{
}

/// The start of a chain hands its input on and changes nothing.
pub proof fn lemma_ctx_identity<R, C, In>(
    node: CtxIdentityNode,
    ctx: C,
    world: World<R>,
    input: In,
    after: CtxIdentityNode,
    ctx_after: C,
    world_after: World<R>,
    out: In,
)
    requires
        node.call_post(ctx, world, input, after, ctx_after, world_after, out),
    ensures
        out == input,
        ctx_after == ctx,
        world_after == world,
{
}

/// The start of a chain may always be called.
pub proof fn lemma_ctx_identity_ready<R, C, In>(
    node: CtxIdentityNode,
    ctx: C,
    world: World<R>,
    input: In,
)
    ensures
        node.call_pre(ctx, world, input),
{
}

/// A finished pipeline does what its chain does, once.
pub proof fn lemma_ctx_pipeline_calls<R, C, In, Chain: CtxChainCall<R, C, In, Out = ()>>(
    node: CtxPipeline<C, In, Chain>,
    ctx: C,
    world: World<R>,
    input: In,
    after: CtxPipeline<C, In, Chain>,
    ctx_after: C,
    world_after: World<R>,
)
    ensures
        node.call_pre(ctx, world, input) <==> node.chain.call_pre(ctx, world, input),
        node.call_post(
            ctx,
            world,
            input,
            after,
            ctx_after,
            world_after,
            (),
        ) <==> node.chain.call_post(ctx, world, input, after.chain, ctx_after, world_after, ()),
{
}

/// A finished graph does what its chain does, once.
pub proof fn lemma_ctx_dag_calls<R, C, In, Chain: CtxChainCall<R, C, In, Out = ()>>(
    node: CtxDag<C, In, Chain>,
    ctx: C,
    world: World<R>,
    input: In,
    after: CtxDag<C, In, Chain>,
    ctx_after: C,
    world_after: World<R>,
)
    ensures
        node.call_pre(ctx, world, input) <==> node.chain.call_pre(ctx, world, input),
        node.call_post(
            ctx,
            world,
            input,
            after,
            ctx_after,
            world_after,
            (),
        ) <==> node.chain.call_post(ctx, world, input, after.chain, ctx_after, world_after, ()),
{
}

/// May be called where the chain before the fork may be, if the arms and the merge step may always be.
pub proof fn lemma_ctx_merge2_ready<
    R,
    C,
    In,
    ForkOut,
    A0,
    A1,
    MOut,
    Chain: CtxChainCall<R, C, In, Out = ForkOut>,
    C0: for<'a> CtxChainCall<R, C, &'a ForkOut, Out = A0>,
    C1: for<'a> CtxChainCall<R, C, &'a ForkOut, Out = A1>,
    MS: for<'x> CtxMergeStepCall<R, C, (&'x A0, &'x A1), MOut>,
>(
    node: CtxMergeNode2<Chain, C0, C1, MS, ForkOut, A0, A1, MOut>,
    ctx: C,
    world: World<R>,
    input: In,
)
    requires
        node.chain.call_pre(ctx, world, input),
        forall|ctx_any: C, world_any: World<R>, forked: ForkOut| #[trigger] node.arm0.call_pre(ctx_any, world_any, &forked),
        forall|ctx_any: C, world_any: World<R>, forked: ForkOut| #[trigger] node.arm1.call_pre(ctx_any, world_any, &forked),
        forall|ctx_any: C, world_any: World<R>, o0: A0, o1: A1| #[trigger] node.merge.call_pre(ctx_any, world_any, (&o0, &o1)),
    ensures
        node.call_pre(ctx, world, input),
{
}

/// May be called where the chain before the fork may be, if the arms may always be.
pub proof fn lemma_ctx_join2_ready<
    R,
    C,
    In,
    ForkOut,
    Chain: CtxChainCall<R, C, In, Out = ForkOut>,
    C0: for<'a> CtxChainCall<R, C, &'a ForkOut, Out = ()>,
    C1: for<'a> CtxChainCall<R, C, &'a ForkOut, Out = ()>,
>(
    node: CtxJoinNode2<Chain, C0, C1, ForkOut>,
    ctx: C,
    world: World<R>,
    input: In,
)
    requires
        node.chain.call_pre(ctx, world, input),
        forall|ctx_any: C, world_any: World<R>, forked: ForkOut| #[trigger] node.arm0.call_pre(ctx_any, world_any, &forked),
        forall|ctx_any: C, world_any: World<R>, forked: ForkOut| #[trigger] node.arm1.call_pre(ctx_any, world_any, &forked),
    ensures
        node.call_pre(ctx, world, input),
{
}

/// May be called where the chain before the fork may be, if the arms and the merge step may always be.
pub proof fn lemma_ctx_merge3_ready<
    R,
    C,
    In,
    ForkOut,
    A0,
    A1,
    A2,
    MOut,
    Chain: CtxChainCall<R, C, In, Out = ForkOut>,
    C0: for<'a> CtxChainCall<R, C, &'a ForkOut, Out = A0>,
    C1: for<'a> CtxChainCall<R, C, &'a ForkOut, Out = A1>,
    C2: for<'a> CtxChainCall<R, C, &'a ForkOut, Out = A2>,
    MS: for<'x> CtxMergeStepCall<R, C, (&'x A0, &'x A1, &'x A2), MOut>,
>(
    node: CtxMergeNode3<Chain, C0, C1, C2, MS, ForkOut, A0, A1, A2, MOut>,
    ctx: C,
    world: World<R>,
    input: In,
)
    requires
        node.chain.call_pre(ctx, world, input),
        forall|ctx_any: C, world_any: World<R>, forked: ForkOut| #[trigger] node.arm0.call_pre(ctx_any, world_any, &forked),
        forall|ctx_any: C, world_any: World<R>, forked: ForkOut| #[trigger] node.arm1.call_pre(ctx_any, world_any, &forked),
        forall|ctx_any: C, world_any: World<R>, forked: ForkOut| #[trigger] node.arm2.call_pre(ctx_any, world_any, &forked),
        forall|ctx_any: C, world_any: World<R>, o0: A0, o1: A1, o2: A2| #[trigger] node.merge.call_pre(ctx_any, world_any, (&o0, &o1, &o2)),
    ensures
        node.call_pre(ctx, world, input),
{
}

/// May be called where the chain before the fork may be, if the arms may always be.
pub proof fn lemma_ctx_join3_ready<
    R,
    C,
    In,
    ForkOut,
    Chain: CtxChainCall<R, C, In, Out = ForkOut>,
    C0: for<'a> CtxChainCall<R, C, &'a ForkOut, Out = ()>,
    C1: for<'a> CtxChainCall<R, C, &'a ForkOut, Out = ()>,
    C2: for<'a> CtxChainCall<R, C, &'a ForkOut, Out = ()>,
>(
    node: CtxJoinNode3<Chain, C0, C1, C2, ForkOut>,
    ctx: C,
    world: World<R>,
    input: In,
)
    requires
        node.chain.call_pre(ctx, world, input),
        forall|ctx_any: C, world_any: World<R>, forked: ForkOut| #[trigger] node.arm0.call_pre(ctx_any, world_any, &forked),
        forall|ctx_any: C, world_any: World<R>, forked: ForkOut| #[trigger] node.arm1.call_pre(ctx_any, world_any, &forked),
        forall|ctx_any: C, world_any: World<R>, forked: ForkOut| #[trigger] node.arm2.call_pre(ctx_any, world_any, &forked),
    ensures
        node.call_pre(ctx, world, input),
{
}

/// May be called where the chain before the fork may be, if the arms and the merge step may always be.
pub proof fn lemma_ctx_merge4_ready<
    R,
    C,
    In,
    ForkOut,
    A0,
    A1,
    A2,
    A3,
    MOut,
    Chain: CtxChainCall<R, C, In, Out = ForkOut>,
    C0: for<'a> CtxChainCall<R, C, &'a ForkOut, Out = A0>,
    C1: for<'a> CtxChainCall<R, C, &'a ForkOut, Out = A1>,
    C2: for<'a> CtxChainCall<R, C, &'a ForkOut, Out = A2>,
    C3: for<'a> CtxChainCall<R, C, &'a ForkOut, Out = A3>,
    MS: for<'x> CtxMergeStepCall<R, C, (&'x A0, &'x A1, &'x A2, &'x A3), MOut>,
>(
    node: CtxMergeNode4<Chain, C0, C1, C2, C3, MS, ForkOut, A0, A1, A2, A3, MOut>,
    ctx: C,
    world: World<R>,
    input: In,
)
    requires
        node.chain.call_pre(ctx, world, input),
        forall|ctx_any: C, world_any: World<R>, forked: ForkOut| #[trigger] node.arm0.call_pre(ctx_any, world_any, &forked),
        forall|ctx_any: C, world_any: World<R>, forked: ForkOut| #[trigger] node.arm1.call_pre(ctx_any, world_any, &forked),
        forall|ctx_any: C, world_any: World<R>, forked: ForkOut| #[trigger] node.arm2.call_pre(ctx_any, world_any, &forked),
        forall|ctx_any: C, world_any: World<R>, forked: ForkOut| #[trigger] node.arm3.call_pre(ctx_any, world_any, &forked),
        forall|
            ctx_any: C,
            world_any: World<R>,
            o0: A0,
            o1: A1,
            o2: A2,
            o3: A3,
        | #[trigger] node.merge.call_pre(ctx_any, world_any, (&o0, &o1, &o2, &o3)),
    ensures
        node.call_pre(ctx, world, input),
{
}

/// May be called where the chain before the fork may be, if the arms may always be.
pub proof fn lemma_ctx_join4_ready<
    R,
    C,
    In,
    ForkOut,
    Chain: CtxChainCall<R, C, In, Out = ForkOut>,
    C0: for<'a> CtxChainCall<R, C, &'a ForkOut, Out = ()>,
    C1: for<'a> CtxChainCall<R, C, &'a ForkOut, Out = ()>,
    C2: for<'a> CtxChainCall<R, C, &'a ForkOut, Out = ()>,
    C3: for<'a> CtxChainCall<R, C, &'a ForkOut, Out = ()>,
>(
    node: CtxJoinNode4<Chain, C0, C1, C2, C3, ForkOut>,
    ctx: C,
    world: World<R>,
    input: In,
)
    requires
        node.chain.call_pre(ctx, world, input),
        forall|ctx_any: C, world_any: World<R>, forked: ForkOut| #[trigger] node.arm0.call_pre(ctx_any, world_any, &forked),
        forall|ctx_any: C, world_any: World<R>, forked: ForkOut| #[trigger] node.arm1.call_pre(ctx_any, world_any, &forked),
        forall|ctx_any: C, world_any: World<R>, forked: ForkOut| #[trigger] node.arm2.call_pre(ctx_any, world_any, &forked),
        forall|ctx_any: C, world_any: World<R>, forked: ForkOut| #[trigger] node.arm3.call_pre(ctx_any, world_any, &forked),
    ensures
        node.call_pre(ctx, world, input),
{
}

} // verus!
