//! What each node of a chain makes of what the chain before it gives, and when it may be called.
use crate::dag::Dag;
use crate::dag_splat::{
    SplatArmStartNode2, SplatArmStartNode3, SplatArmStartNode4, SplatArmStartNode5,
};
use crate::dag_splat;
use crate::handler::{FnHandler, Handler};
use crate::merge::{
    JoinNode2, JoinNode3, JoinNode4, MergeNode2, MergeNode3, MergeNode4, MergeStepCall,
};
use crate::node::{
    AndBoolNode, AndThenNode, AndThenResultNode, Borrowed, CatchNode, ChainCall, ClonedNode,
    ClonedOptionNode, ClonedResultNode, DagAndThenOptionNode, DagAndThenResultNode, DagCatchNode,
    DagMapOptionNode, DagMapResultNode, DagRouteNode, DagThenNode, DedupNode, DiscardOptionNode,
    DispatchNode, FilterNode, GuardNode, IdentityNode, InspectErrNode, InspectOptionNode,
    InspectResultNode, MapErrNode, MapOptionNode, MapResultNode, NotNode, OkOrElseNode, OkOrNode,
    OkResultNode, OnNoneNode, OrBoolNode, OrElseNode, RefScanNode, RouteNode, ScanNode, TapNode,
    TeeNode, ThenNode, UnwrapOrElseOptionNode, UnwrapOrElseResultNode, UnwrapOrOptionNode,
    UnwrapOrResultNode, XorBoolNode,
};
use crate::pipeline::Pipeline;
use crate::splat::{
    SplatCall2, SplatCall3, SplatCall4, SplatCall5, SplatThenNode2, SplatThenNode3, SplatThenNode4,
    SplatThenNode5,
};
use crate::step::{ProducerCall, RefScanStepCall, RefStepCall, ScanStepCall, StepCall};
use crate::world::World;
use vstd::prelude::*;
use vstd::std_specs::cmp::PartialEqSpec;

verus! {

/// The step is handed what the chain before it gives, once, and its result is handed on.
pub proof fn lemma_then<R, In, T, U, Prev, S>(
    node: ThenNode<Prev, S>,
    world: World<R>,
    input: In,
    after: ThenNode<Prev, S>,
    world_after: World<R>,
    out: U,
) where
    Prev: ChainCall<R, In, Out = T>,
    S: StepCall<R, T, Out = U>,
    requires
        node.call_post(world, input, after, world_after, out),
    ensures
        exists|world_mid: World<R>, mid: T|
            #[trigger] node.prev.call_post(world, input, after.prev, world_mid, mid)
                && node.step.call_post(world_mid, mid, after.step, world_after, out),
{
}

/// May be called where the chain before it may be, and whatever that gives may be handed on.
pub proof fn lemma_then_ready<R, In, T, U, Prev, S>(
    node: ThenNode<Prev, S>,
    world: World<R>,
    input: In,
) where
    Prev: ChainCall<R, In, Out = T>,
    S: StepCall<R, T, Out = U>,
    requires
        node.prev.call_pre(world, input),
        forall|prev: Prev, world_mid: World<R>, mid: T|
            #[trigger] node.prev.call_post(world, input, prev, world_mid, mid)
                ==> node.step.call_pre(world_mid, mid),
    ensures
        node.call_pre(world, input),
{
}

/// May be called where the chain before it may be, and whatever that gives may be handed on.
pub proof fn lemma_tap_ready<R, In, T, Prev, S>(
    node: TapNode<Prev, S>,
    world: World<R>,
    input: In,
) where
    Prev: ChainCall<R, In, Out = T>,
    S: RefStepCall<R, T, Out = ()>,
    requires
        node.prev.call_pre(world, input),
        forall|prev: Prev, world_mid: World<R>, mid: T|
            #[trigger] node.prev.call_post(world, input, prev, world_mid, mid)
                ==> node.step.call_pre(world_mid, &mid),
    ensures
        node.call_pre(world, input),
{
}

/// May be called where the chain before it may be, and whatever that gives may be handed on.
pub proof fn lemma_guard_ready<R, In, T, Prev, S>(
    node: GuardNode<Prev, S>,
    world: World<R>,
    input: In,
) where
    Prev: ChainCall<R, In, Out = T>,
    S: RefStepCall<R, T, Out = bool>,
    requires
        node.prev.call_pre(world, input),
        forall|prev: Prev, world_mid: World<R>, mid: T|
            #[trigger] node.prev.call_post(world, input, prev, world_mid, mid)
                ==> node.step.call_pre(world_mid, &mid),
    ensures
        node.call_pre(world, input),
{
}

/// Where the chain before it gives a value, the step is called once, and `Some` of its result is
/// the result.
pub proof fn lemma_map_option_some<R, In, T, U, Prev, S>(
    node: MapOptionNode<Prev, S, T>,
    world: World<R>,
    input: In,
    after: MapOptionNode<Prev, S, T>,
    world_after: World<R>,
    out: Option<U>,
) where
    Prev: ChainCall<R, In, Out = Option<T>>,
    S: StepCall<R, T, Out = U>,
    requires
        node.call_post(world, input, after, world_after, out),
        forall|prev: Prev, world_mid: World<R>|
            !#[trigger] node.prev.call_post(world, input, prev, world_mid, None::<T>),
    ensures
        exists|world_mid: World<R>, val: T|
            #[trigger] node.prev.call_post(world, input, after.prev, world_mid, Some(val))
                && exists|res: U|
                #[trigger] node.step.call_post(world_mid, val, after.step, world_after, res)
                    && out == Some(res),
{
    assert forall|world_mid: World<R>, mid: Option<T>|
        #[trigger] node.prev.call_post(world, input, after.prev, world_mid, mid)
            implies mid == Some(mid->0) by {
        if mid is None {
            assert(mid == None::<T>);
        }
    }
}

/// May be called where the chain before it may be, and whatever that gives may be handed on.
pub proof fn lemma_map_option_ready<R, In, T, U, Prev, S>(
    node: MapOptionNode<Prev, S, T>,
    world: World<R>,
    input: In,
) where
    Prev: ChainCall<R, In, Out = Option<T>>,
    S: StepCall<R, T, Out = U>,
    requires
        node.prev.call_pre(world, input),
        forall|prev: Prev, world_mid: World<R>, mid: Option<T>|
            #[trigger] node.prev.call_post(world, input, prev, world_mid, mid) ==> match mid {
            Some(val) => node.step.call_pre(world_mid, val),
            None => true,
        },
    ensures
        node.call_pre(world, input),
{
}

/// May be called where the chain before it may be, and whatever that gives may be handed on.
pub proof fn lemma_filter_ready<R, In, T, Prev, S>(
    node: FilterNode<Prev, S, T>,
    world: World<R>,
    input: In,
) where
    Prev: ChainCall<R, In, Out = Option<T>>,
    S: RefStepCall<R, T, Out = bool>,
    requires
        node.prev.call_pre(world, input),
        forall|prev: Prev, world_mid: World<R>, mid: Option<T>|
            #[trigger] node.prev.call_post(world, input, prev, world_mid, mid) ==> match mid {
            Some(val) => node.step.call_pre(world_mid, &val),
            None => true,
        },
    ensures
        node.call_pre(world, input),
{
}

/// Where the chain before it gives a value, the step is called once, and the value is handed on
/// as it is.
pub proof fn lemma_inspect_option_some<R, In, T, Prev, S>(
    node: InspectOptionNode<Prev, S, T>,
    world: World<R>,
    input: In,
    after: InspectOptionNode<Prev, S, T>,
    world_after: World<R>,
    out: Option<T>,
) where
    Prev: ChainCall<R, In, Out = Option<T>>,
    S: RefStepCall<R, T, Out = ()>,
    requires
        node.call_post(world, input, after, world_after, out),
        forall|prev: Prev, world_mid: World<R>|
            !#[trigger] node.prev.call_post(world, input, prev, world_mid, None::<T>),
    ensures
        exists|world_mid: World<R>, val: T|
            #[trigger] node.prev.call_post(world, input, after.prev, world_mid, Some(val))
                && node.step.call_post(world_mid, &val, after.step, world_after, ())
                && out == Some(val),
{
    assert forall|world_mid: World<R>, mid: Option<T>|
        #[trigger] node.prev.call_post(world, input, after.prev, world_mid, mid)
            implies mid == Some(mid->0) by {
        if mid is None {
            assert(mid == None::<T>);
        }
    }
}

/// Where the chain before it gives `None`, nothing is called, and `None` is the result.
pub proof fn lemma_inspect_option_none<R, In, T, Prev, S>(
    node: InspectOptionNode<Prev, S, T>,
    world: World<R>,
    input: In,
    after: InspectOptionNode<Prev, S, T>,
    world_after: World<R>,
    out: Option<T>,
) where
    Prev: ChainCall<R, In, Out = Option<T>>,
    S: RefStepCall<R, T, Out = ()>,
    requires
        node.call_post(world, input, after, world_after, out),
        forall|prev: Prev, world_mid: World<R>, val: T|
            !#[trigger] node.prev.call_post(world, input, prev, world_mid, Some(val)),
    ensures
        exists|world_mid: World<R>|
            #[trigger] node.prev.call_post(world, input, after.prev, world_mid, None::<T>)
                && after.step == node.step
                && world_after == world_mid
                && out == None::<T>,
{
    assert forall|world_mid: World<R>, mid: Option<T>|
        #[trigger] node.prev.call_post(world, input, after.prev, world_mid, mid)
            implies mid == None::<T> by {
        if mid is Some {
            assert(mid == Some(mid->0));
        }
    }
}

/// May be called where the chain before it may be, and whatever that gives may be handed on.
pub proof fn lemma_inspect_option_ready<R, In, T, Prev, S>(
    node: InspectOptionNode<Prev, S, T>,
    world: World<R>,
    input: In,
) where
    Prev: ChainCall<R, In, Out = Option<T>>,
    S: RefStepCall<R, T, Out = ()>,
    requires
        node.prev.call_pre(world, input),
        forall|prev: Prev, world_mid: World<R>, mid: Option<T>|
            #[trigger] node.prev.call_post(world, input, prev, world_mid, mid) ==> match mid {
            Some(val) => node.step.call_pre(world_mid, &val),
            None => true,
        },
    ensures
        node.call_pre(world, input),
{
}

/// Where the chain before it gives a value, the step is called once, and its result is the result.
pub proof fn lemma_and_then_some<R, In, T, U, Prev, S>(
    node: AndThenNode<Prev, S, T, U>,
    world: World<R>,
    input: In,
    after: AndThenNode<Prev, S, T, U>,
    world_after: World<R>,
    out: Option<U>,
) where
    Prev: ChainCall<R, In, Out = Option<T>>,
    S: StepCall<R, T, Out = Option<U>>,
    requires
        node.call_post(world, input, after, world_after, out),
        forall|prev: Prev, world_mid: World<R>|
            !#[trigger] node.prev.call_post(world, input, prev, world_mid, None::<T>),
    ensures
        exists|world_mid: World<R>, val: T|
            #[trigger] node.prev.call_post(world, input, after.prev, world_mid, Some(val))
                && node.step.call_post(world_mid, val, after.step, world_after, out),
{
    assert forall|world_mid: World<R>, mid: Option<T>|
        #[trigger] node.prev.call_post(world, input, after.prev, world_mid, mid)
            implies mid == Some(mid->0) by {
        if mid is None {
            assert(mid == None::<T>);
        }
    }
}

/// May be called where the chain before it may be, and whatever that gives may be handed on.
pub proof fn lemma_and_then_ready<R, In, T, U, Prev, S>(
    node: AndThenNode<Prev, S, T, U>,
    world: World<R>,
    input: In,
) where
    Prev: ChainCall<R, In, Out = Option<T>>,
    S: StepCall<R, T, Out = Option<U>>,
    requires
        node.prev.call_pre(world, input),
        forall|prev: Prev, world_mid: World<R>, mid: Option<T>|
            #[trigger] node.prev.call_post(world, input, prev, world_mid, mid) ==> match mid {
            Some(val) => node.step.call_pre(world_mid, val),
            None => true,
        },
    ensures
        node.call_pre(world, input),
{
}

/// Where the chain before it gives a value, nothing is called, and the value is handed on.
pub proof fn lemma_on_none_some<R, In, T, Prev, S>(
    node: OnNoneNode<Prev, S, T>,
    world: World<R>,
    input: In,
    after: OnNoneNode<Prev, S, T>,
    world_after: World<R>,
    out: Option<T>,
) where
    Prev: ChainCall<R, In, Out = Option<T>>,
    S: ProducerCall<R, Out = ()>,
    requires
        node.call_post(world, input, after, world_after, out),
        forall|prev: Prev, world_mid: World<R>|
            !#[trigger] node.prev.call_post(world, input, prev, world_mid, None::<T>),
    ensures
        exists|world_mid: World<R>, val: T|
            #[trigger] node.prev.call_post(world, input, after.prev, world_mid, Some(val))
                && after.producer == node.producer
                && world_after == world_mid
                && out == Some(val),
{
    assert forall|world_mid: World<R>, mid: Option<T>|
        #[trigger] node.prev.call_post(world, input, after.prev, world_mid, mid)
            implies mid == Some(mid->0) by {
        if mid is None {
            assert(mid == None::<T>);
        }
    }
}

/// Where the chain before it gives `None`, the producer is called once, and the value is handed
/// on as it is.
pub proof fn lemma_on_none_none<R, In, T, Prev, S>(
    node: OnNoneNode<Prev, S, T>,
    world: World<R>,
    input: In,
    after: OnNoneNode<Prev, S, T>,
    world_after: World<R>,
    out: Option<T>,
) where
    Prev: ChainCall<R, In, Out = Option<T>>,
    S: ProducerCall<R, Out = ()>,
    requires
        node.call_post(world, input, after, world_after, out),
        forall|prev: Prev, world_mid: World<R>, val: T|
            !#[trigger] node.prev.call_post(world, input, prev, world_mid, Some(val)),
    ensures
        exists|world_mid: World<R>|
            #[trigger] node.prev.call_post(world, input, after.prev, world_mid, None::<T>)
                && node.producer.call_post(world_mid, after.producer, world_after, ())
                && out == None::<T>,
{
    assert forall|world_mid: World<R>, mid: Option<T>|
        #[trigger] node.prev.call_post(world, input, after.prev, world_mid, mid)
            implies mid == None::<T> by {
        if mid is Some {
            assert(mid == Some(mid->0));
        }
    }
}

/// May be called where the chain before it may be, and whatever that gives may be handed on.
pub proof fn lemma_on_none_ready<R, In, T, Prev, S>(
    node: OnNoneNode<Prev, S, T>,
    world: World<R>,
    input: In,
) where
    Prev: ChainCall<R, In, Out = Option<T>>,
    S: ProducerCall<R, Out = ()>,
    requires
        node.prev.call_pre(world, input),
        forall|prev: Prev, world_mid: World<R>, mid: Option<T>|
            #[trigger] node.prev.call_post(world, input, prev, world_mid, mid) ==> match mid {
            Some(val) => true,
            None => node.producer.call_pre(world_mid),
        },
    ensures
        node.call_pre(world, input),
{
}

/// Where the chain before it gives a value, nothing is called, and the value is handed on.
pub proof fn lemma_ok_or_some<R, In, T, E: Clone, Prev>(
    node: OkOrNode<Prev, E, T>,
    world: World<R>,
    input: In,
    after: OkOrNode<Prev, E, T>,
    world_after: World<R>,
    out: Result<T, E>,
) where
    Prev: ChainCall<R, In, Out = Option<T>>,
    requires
        node.call_post(world, input, after, world_after, out),
        forall|prev: Prev, world_mid: World<R>|
            !#[trigger] node.prev.call_post(world, input, prev, world_mid, None::<T>),
    ensures
        exists|world_mid: World<R>, val: T|
            #[trigger] node.prev.call_post(world, input, after.prev, world_mid, Some(val))
                && after.err == node.err
                && world_after == world_mid
                && out == Ok::<T, E>(val),
{
    assert forall|world_mid: World<R>, mid: Option<T>|
        #[trigger] node.prev.call_post(world, input, after.prev, world_mid, mid)
            implies mid == Some(mid->0) by {
        if mid is None {
            assert(mid == None::<T>);
        }
    }
}

/// Where the chain before it gives `None`, nothing is called, and a clone of the error kept for
/// it is the result.
pub proof fn lemma_ok_or_none<R, In, T, E: Clone, Prev>(
    node: OkOrNode<Prev, E, T>,
    world: World<R>,
    input: In,
    after: OkOrNode<Prev, E, T>,
    world_after: World<R>,
    out: Result<T, E>,
) where
    Prev: ChainCall<R, In, Out = Option<T>>,
    requires
        node.call_post(world, input, after, world_after, out),
        forall|prev: Prev, world_mid: World<R>, val: T|
            !#[trigger] node.prev.call_post(world, input, prev, world_mid, Some(val)),
    ensures
        exists|world_mid: World<R>|
            #[trigger] node.prev.call_post(world, input, after.prev, world_mid, None::<T>)
                && after.err == node.err
                && world_after == world_mid
                && out is Err
                && cloned(node.err, out->Err_0),
{
    assert forall|world_mid: World<R>, mid: Option<T>|
        #[trigger] node.prev.call_post(world, input, after.prev, world_mid, mid)
            implies mid == None::<T> by {
        if mid is Some {
            assert(mid == Some(mid->0));
        }
    }
}

/// May be called where the chain before it may be.
pub proof fn lemma_ok_or_ready<R, In, T, E: Clone, Prev>(
    node: OkOrNode<Prev, E, T>,
    world: World<R>,
    input: In,
) where
    Prev: ChainCall<R, In, Out = Option<T>>,
    requires
        node.prev.call_pre(world, input),
    ensures
        node.call_pre(world, input),
{
}

/// Where the chain before it gives `None`, the producer is called once, and its result is the
/// error.
pub proof fn lemma_ok_or_else_none<R, In, T, E, Prev, S>(
    node: OkOrElseNode<Prev, S, T>,
    world: World<R>,
    input: In,
    after: OkOrElseNode<Prev, S, T>,
    world_after: World<R>,
    out: Result<T, E>,
) where
    Prev: ChainCall<R, In, Out = Option<T>>,
    S: ProducerCall<R, Out = E>,
    requires
        node.call_post(world, input, after, world_after, out),
        forall|prev: Prev, world_mid: World<R>, val: T|
            !#[trigger] node.prev.call_post(world, input, prev, world_mid, Some(val)),
    ensures
        exists|world_mid: World<R>|
            #[trigger] node.prev.call_post(world, input, after.prev, world_mid, None::<T>)
                && exists|res: E|
                #[trigger] node.producer.call_post(world_mid, after.producer, world_after, res)
                    && out == Err::<T, E>(res),
{
    assert forall|world_mid: World<R>, mid: Option<T>|
        #[trigger] node.prev.call_post(world, input, after.prev, world_mid, mid)
            implies mid == None::<T> by {
        if mid is Some {
            assert(mid == Some(mid->0));
        }
    }
}

/// May be called where the chain before it may be, and whatever that gives may be handed on.
pub proof fn lemma_ok_or_else_ready<R, In, T, E, Prev, S>(
    node: OkOrElseNode<Prev, S, T>,
    world: World<R>,
    input: In,
) where
    Prev: ChainCall<R, In, Out = Option<T>>,
    S: ProducerCall<R, Out = E>,
    requires
        node.prev.call_pre(world, input),
        forall|prev: Prev, world_mid: World<R>, mid: Option<T>|
            #[trigger] node.prev.call_post(world, input, prev, world_mid, mid) ==> match mid {
            Some(val) => true,
            None => node.producer.call_pre(world_mid),
        },
    ensures
        node.call_pre(world, input),
{
}

/// Where the chain before it gives a value, nothing is called, and the value is handed on.
pub proof fn lemma_unwrap_or_option_some<R, In, T: Clone, Prev>(
    node: UnwrapOrOptionNode<Prev, T>,
    world: World<R>,
    input: In,
    after: UnwrapOrOptionNode<Prev, T>,
    world_after: World<R>,
    out: T,
) where
    Prev: ChainCall<R, In, Out = Option<T>>,
    requires
        node.call_post(world, input, after, world_after, out),
        forall|prev: Prev, world_mid: World<R>|
            !#[trigger] node.prev.call_post(world, input, prev, world_mid, None::<T>),
    ensures
        exists|world_mid: World<R>, val: T|
            #[trigger] node.prev.call_post(world, input, after.prev, world_mid, Some(val))
                && after.default == node.default
                && world_after == world_mid
                && out == val,
{
    assert forall|world_mid: World<R>, mid: Option<T>|
        #[trigger] node.prev.call_post(world, input, after.prev, world_mid, mid)
            implies mid == Some(mid->0) by {
        if mid is None {
            assert(mid == None::<T>);
        }
    }
}

/// Where the chain before it gives `None`, nothing is called, and a clone of the default is the
/// result.
pub proof fn lemma_unwrap_or_option_none<R, In, T: Clone, Prev>(
    node: UnwrapOrOptionNode<Prev, T>,
    world: World<R>,
    input: In,
    after: UnwrapOrOptionNode<Prev, T>,
    world_after: World<R>,
    out: T,
) where
    Prev: ChainCall<R, In, Out = Option<T>>,
    requires
        node.call_post(world, input, after, world_after, out),
        forall|prev: Prev, world_mid: World<R>, val: T|
            !#[trigger] node.prev.call_post(world, input, prev, world_mid, Some(val)),
    ensures
        exists|world_mid: World<R>|
            #[trigger] node.prev.call_post(world, input, after.prev, world_mid, None::<T>)
                && after.default == node.default
                && world_after == world_mid
                && cloned(node.default, out),
{
    assert forall|world_mid: World<R>, mid: Option<T>|
        #[trigger] node.prev.call_post(world, input, after.prev, world_mid, mid)
            implies mid == None::<T> by {
        if mid is Some {
            assert(mid == Some(mid->0));
        }
    }
}

/// May be called where the chain before it may be.
pub proof fn lemma_unwrap_or_option_ready<R, In, T: Clone, Prev>(
    node: UnwrapOrOptionNode<Prev, T>,
    world: World<R>,
    input: In,
) where
    Prev: ChainCall<R, In, Out = Option<T>>,
    requires
        node.prev.call_pre(world, input),
    ensures
        node.call_pre(world, input),
{
}

/// Where the chain before it gives `None`, the producer is called once, and its result is the
/// result.
pub proof fn lemma_unwrap_or_else_option_none<R, In, T, Prev, S>(
    node: UnwrapOrElseOptionNode<Prev, S, T>,
    world: World<R>,
    input: In,
    after: UnwrapOrElseOptionNode<Prev, S, T>,
    world_after: World<R>,
    out: T,
) where
    Prev: ChainCall<R, In, Out = Option<T>>,
    S: ProducerCall<R, Out = T>,
    requires
        node.call_post(world, input, after, world_after, out),
        forall|prev: Prev, world_mid: World<R>, val: T|
            !#[trigger] node.prev.call_post(world, input, prev, world_mid, Some(val)),
    ensures
        exists|world_mid: World<R>|
            #[trigger] node.prev.call_post(world, input, after.prev, world_mid, None::<T>)
                && node.producer.call_post(world_mid, after.producer, world_after, out),
{
    assert forall|world_mid: World<R>, mid: Option<T>|
        #[trigger] node.prev.call_post(world, input, after.prev, world_mid, mid)
            implies mid == None::<T> by {
        if mid is Some {
            assert(mid == Some(mid->0));
        }
    }
}

/// May be called where the chain before it may be, and whatever that gives may be handed on.
pub proof fn lemma_unwrap_or_else_option_ready<R, In, T, Prev, S>(
    node: UnwrapOrElseOptionNode<Prev, S, T>,
    world: World<R>,
    input: In,
) where
    Prev: ChainCall<R, In, Out = Option<T>>,
    S: ProducerCall<R, Out = T>,
    requires
        node.prev.call_pre(world, input),
        forall|prev: Prev, world_mid: World<R>, mid: Option<T>|
            #[trigger] node.prev.call_post(world, input, prev, world_mid, mid) ==> match mid {
            Some(val) => true,
            None => node.producer.call_pre(world_mid),
        },
    ensures
        node.call_pre(world, input),
{
}

/// Where the chain before it gives a value, the step is called once, and `Ok` of its result is
/// the result.
pub proof fn lemma_map_result_ok<R, In, T, U, E, Prev, S>(
    node: MapResultNode<Prev, S, T, E>,
    world: World<R>,
    input: In,
    after: MapResultNode<Prev, S, T, E>,
    world_after: World<R>,
    out: Result<U, E>,
) where
    Prev: ChainCall<R, In, Out = Result<T, E>>,
    S: StepCall<R, T, Out = U>,
    requires
        node.call_post(world, input, after, world_after, out),
        forall|prev: Prev, world_mid: World<R>, e: E|
            !#[trigger] node.prev.call_post(world, input, prev, world_mid, Err::<T, E>(e)),
    ensures
        exists|world_mid: World<R>, val: T|
            #[trigger] node.prev.call_post(world, input, after.prev, world_mid, Ok::<T, E>(val))
                && exists|res: U|
                #[trigger] node.step.call_post(world_mid, val, after.step, world_after, res)
                    && out == Ok::<U, E>(res),
{
    assert forall|world_mid: World<R>, mid: Result<T, E>|
        #[trigger] node.prev.call_post(world, input, after.prev, world_mid, mid)
            implies mid == Ok::<T, E>(mid->Ok_0) by {
        if mid is Err {
            assert(mid == Err::<T, E>(mid->Err_0));
        }
    }
}

/// May be called where the chain before it may be, and whatever that gives may be handed on.
pub proof fn lemma_map_result_ready<R, In, T, U, E, Prev, S>(
    node: MapResultNode<Prev, S, T, E>,
    world: World<R>,
    input: In,
) where
    Prev: ChainCall<R, In, Out = Result<T, E>>,
    S: StepCall<R, T, Out = U>,
    requires
        node.prev.call_pre(world, input),
        forall|prev: Prev, world_mid: World<R>, mid: Result<T, E>|
            #[trigger] node.prev.call_post(world, input, prev, world_mid, mid) ==> match mid {
            Ok(val) => node.step.call_pre(world_mid, val),
            Err(e) => true,
        },
    ensures
        node.call_pre(world, input),
{
}

/// Where the chain before it gives a value, the step is called once, and its result is the result.
pub proof fn lemma_and_then_result_ok<R, In, T, U, E, Prev, S>(
    node: AndThenResultNode<Prev, S, T, E, U>,
    world: World<R>,
    input: In,
    after: AndThenResultNode<Prev, S, T, E, U>,
    world_after: World<R>,
    out: Result<U, E>,
) where
    Prev: ChainCall<R, In, Out = Result<T, E>>,
    S: StepCall<R, T, Out = Result<U, E>>,
    requires
        node.call_post(world, input, after, world_after, out),
        forall|prev: Prev, world_mid: World<R>, e: E|
            !#[trigger] node.prev.call_post(world, input, prev, world_mid, Err::<T, E>(e)),
    ensures
        exists|world_mid: World<R>, val: T|
            #[trigger] node.prev.call_post(world, input, after.prev, world_mid, Ok::<T, E>(val))
                && node.step.call_post(world_mid, val, after.step, world_after, out),
{
    assert forall|world_mid: World<R>, mid: Result<T, E>|
        #[trigger] node.prev.call_post(world, input, after.prev, world_mid, mid)
            implies mid == Ok::<T, E>(mid->Ok_0) by {
        if mid is Err {
            assert(mid == Err::<T, E>(mid->Err_0));
        }
    }
}

/// May be called where the chain before it may be, and whatever that gives may be handed on.
pub proof fn lemma_and_then_result_ready<R, In, T, U, E, Prev, S>(
    node: AndThenResultNode<Prev, S, T, E, U>,
    world: World<R>,
    input: In,
) where
    Prev: ChainCall<R, In, Out = Result<T, E>>,
    S: StepCall<R, T, Out = Result<U, E>>,
    requires
        node.prev.call_pre(world, input),
        forall|prev: Prev, world_mid: World<R>, mid: Result<T, E>|
            #[trigger] node.prev.call_post(world, input, prev, world_mid, mid) ==> match mid {
            Ok(val) => node.step.call_pre(world_mid, val),
            Err(e) => true,
        },
    ensures
        node.call_pre(world, input),
{
}

/// May be called where the chain before it may be, and whatever that gives may be handed on.
pub proof fn lemma_catch_ready<R, In, T, E, Prev, S>(
    node: CatchNode<Prev, S, T, E>,
    world: World<R>,
    input: In,
) where
    Prev: ChainCall<R, In, Out = Result<T, E>>,
    S: StepCall<R, E, Out = ()>,
    requires
        node.prev.call_pre(world, input),
        forall|prev: Prev, world_mid: World<R>, mid: Result<T, E>|
            #[trigger] node.prev.call_post(world, input, prev, world_mid, mid) ==> match mid {
            Ok(val) => true,
            Err(e) => node.step.call_pre(world_mid, e),
        },
    ensures
        node.call_pre(world, input),
{
}

/// Where the chain before it gives an error, the step is called once, and its result is the error.
pub proof fn lemma_map_err_err<R, In, T, E, E2, Prev, S>(
    node: MapErrNode<Prev, S, T, E>,
    world: World<R>,
    input: In,
    after: MapErrNode<Prev, S, T, E>,
    world_after: World<R>,
    out: Result<T, E2>,
) where
    Prev: ChainCall<R, In, Out = Result<T, E>>,
    S: StepCall<R, E, Out = E2>,
    requires
        node.call_post(world, input, after, world_after, out),
        forall|prev: Prev, world_mid: World<R>, val: T|
            !#[trigger] node.prev.call_post(world, input, prev, world_mid, Ok::<T, E>(val)),
    ensures
        exists|world_mid: World<R>, e: E|
            #[trigger] node.prev.call_post(world, input, after.prev, world_mid, Err::<T, E>(e))
                && exists|res: E2|
                #[trigger] node.step.call_post(world_mid, e, after.step, world_after, res)
                    && out == Err::<T, E2>(res),
{
    assert forall|world_mid: World<R>, mid: Result<T, E>|
        #[trigger] node.prev.call_post(world, input, after.prev, world_mid, mid)
            implies mid == Err::<T, E>(mid->Err_0) by {
        if mid is Ok {
            assert(mid == Ok::<T, E>(mid->Ok_0));
        }
    }
}

/// May be called where the chain before it may be, and whatever that gives may be handed on.
pub proof fn lemma_map_err_ready<R, In, T, E, E2, Prev, S>(
    node: MapErrNode<Prev, S, T, E>,
    world: World<R>,
    input: In,
) where
    Prev: ChainCall<R, In, Out = Result<T, E>>,
    S: StepCall<R, E, Out = E2>,
    requires
        node.prev.call_pre(world, input),
        forall|prev: Prev, world_mid: World<R>, mid: Result<T, E>|
            #[trigger] node.prev.call_post(world, input, prev, world_mid, mid) ==> match mid {
            Ok(val) => true,
            Err(e) => node.step.call_pre(world_mid, e),
        },
    ensures
        node.call_pre(world, input),
{
}

/// Where the chain before it gives an error, the step is called once, and its result is the
/// result.
pub proof fn lemma_or_else_err<R, In, T, E, E2, Prev, S>(
    node: OrElseNode<Prev, S, T, E, E2>,
    world: World<R>,
    input: In,
    after: OrElseNode<Prev, S, T, E, E2>,
    world_after: World<R>,
    out: Result<T, E2>,
) where
    Prev: ChainCall<R, In, Out = Result<T, E>>,
    S: StepCall<R, E, Out = Result<T, E2>>,
    requires
        node.call_post(world, input, after, world_after, out),
        forall|prev: Prev, world_mid: World<R>, val: T|
            !#[trigger] node.prev.call_post(world, input, prev, world_mid, Ok::<T, E>(val)),
    ensures
        exists|world_mid: World<R>, e: E|
            #[trigger] node.prev.call_post(world, input, after.prev, world_mid, Err::<T, E>(e))
                && node.step.call_post(world_mid, e, after.step, world_after, out),
{
    assert forall|world_mid: World<R>, mid: Result<T, E>|
        #[trigger] node.prev.call_post(world, input, after.prev, world_mid, mid)
            implies mid == Err::<T, E>(mid->Err_0) by {
        if mid is Ok {
            assert(mid == Ok::<T, E>(mid->Ok_0));
        }
    }
}

/// May be called where the chain before it may be, and whatever that gives may be handed on.
pub proof fn lemma_or_else_ready<R, In, T, E, E2, Prev, S>(
    node: OrElseNode<Prev, S, T, E, E2>,
    world: World<R>,
    input: In,
) where
    Prev: ChainCall<R, In, Out = Result<T, E>>,
    S: StepCall<R, E, Out = Result<T, E2>>,
    requires
        node.prev.call_pre(world, input),
        forall|prev: Prev, world_mid: World<R>, mid: Result<T, E>|
            #[trigger] node.prev.call_post(world, input, prev, world_mid, mid) ==> match mid {
            Ok(val) => true,
            Err(e) => node.step.call_pre(world_mid, e),
        },
    ensures
        node.call_pre(world, input),
{
}

/// Where the chain before it gives a value, the step is called once, and the value is handed on
/// as it is.
pub proof fn lemma_inspect_result_ok<R, In, T, E, Prev, S>(
    node: InspectResultNode<Prev, S, T, E>,
    world: World<R>,
    input: In,
    after: InspectResultNode<Prev, S, T, E>,
    world_after: World<R>,
    out: Result<T, E>,
) where
    Prev: ChainCall<R, In, Out = Result<T, E>>,
    S: RefStepCall<R, T, Out = ()>,
    requires
        node.call_post(world, input, after, world_after, out),
        forall|prev: Prev, world_mid: World<R>, e: E|
            !#[trigger] node.prev.call_post(world, input, prev, world_mid, Err::<T, E>(e)),
    ensures
        exists|world_mid: World<R>, val: T|
            #[trigger] node.prev.call_post(world, input, after.prev, world_mid, Ok::<T, E>(val))
                && node.step.call_post(world_mid, &val, after.step, world_after, ())
                && out == Ok::<T, E>(val),
{
    assert forall|world_mid: World<R>, mid: Result<T, E>|
        #[trigger] node.prev.call_post(world, input, after.prev, world_mid, mid)
            implies mid == Ok::<T, E>(mid->Ok_0) by {
        if mid is Err {
            assert(mid == Err::<T, E>(mid->Err_0));
        }
    }
}

/// Where the chain before it gives an error, nothing is called, and the error is handed on.
pub proof fn lemma_inspect_result_err<R, In, T, E, Prev, S>(
    node: InspectResultNode<Prev, S, T, E>,
    world: World<R>,
    input: In,
    after: InspectResultNode<Prev, S, T, E>,
    world_after: World<R>,
    out: Result<T, E>,
) where
    Prev: ChainCall<R, In, Out = Result<T, E>>,
    S: RefStepCall<R, T, Out = ()>,
    requires
        node.call_post(world, input, after, world_after, out),
        forall|prev: Prev, world_mid: World<R>, val: T|
            !#[trigger] node.prev.call_post(world, input, prev, world_mid, Ok::<T, E>(val)),
    ensures
        exists|world_mid: World<R>, e: E|
            #[trigger] node.prev.call_post(world, input, after.prev, world_mid, Err::<T, E>(e))
                && after.step == node.step
                && world_after == world_mid
                && out == Err::<T, E>(e),
{
    assert forall|world_mid: World<R>, mid: Result<T, E>|
        #[trigger] node.prev.call_post(world, input, after.prev, world_mid, mid)
            implies mid == Err::<T, E>(mid->Err_0) by {
        if mid is Ok {
            assert(mid == Ok::<T, E>(mid->Ok_0));
        }
    }
}

/// May be called where the chain before it may be, and whatever that gives may be handed on.
pub proof fn lemma_inspect_result_ready<R, In, T, E, Prev, S>(
    node: InspectResultNode<Prev, S, T, E>,
    world: World<R>,
    input: In,
) where
    Prev: ChainCall<R, In, Out = Result<T, E>>,
    S: RefStepCall<R, T, Out = ()>,
    requires
        node.prev.call_pre(world, input),
        forall|prev: Prev, world_mid: World<R>, mid: Result<T, E>|
            #[trigger] node.prev.call_post(world, input, prev, world_mid, mid) ==> match mid {
            Ok(val) => node.step.call_pre(world_mid, &val),
            Err(e) => true,
        },
    ensures
        node.call_pre(world, input),
{
}

/// Where the chain before it gives a value, nothing is called, and the value is handed on.
pub proof fn lemma_inspect_err_ok<R, In, T, E, Prev, S>(
    node: InspectErrNode<Prev, S, T, E>,
    world: World<R>,
    input: In,
    after: InspectErrNode<Prev, S, T, E>,
    world_after: World<R>,
    out: Result<T, E>,
) where
    Prev: ChainCall<R, In, Out = Result<T, E>>,
    S: RefStepCall<R, E, Out = ()>,
    requires
        node.call_post(world, input, after, world_after, out),
        forall|prev: Prev, world_mid: World<R>, e: E|
            !#[trigger] node.prev.call_post(world, input, prev, world_mid, Err::<T, E>(e)),
    ensures
        exists|world_mid: World<R>, val: T|
            #[trigger] node.prev.call_post(world, input, after.prev, world_mid, Ok::<T, E>(val))
                && after.step == node.step
                && world_after == world_mid
                && out == Ok::<T, E>(val),
{
    assert forall|world_mid: World<R>, mid: Result<T, E>|
        #[trigger] node.prev.call_post(world, input, after.prev, world_mid, mid)
            implies mid == Ok::<T, E>(mid->Ok_0) by {
        if mid is Err {
            assert(mid == Err::<T, E>(mid->Err_0));
        }
    }
}

/// Where the chain before it gives an error, the step is called once, and the value is handed on
/// as it is.
pub proof fn lemma_inspect_err_err<R, In, T, E, Prev, S>(
    node: InspectErrNode<Prev, S, T, E>,
    world: World<R>,
    input: In,
    after: InspectErrNode<Prev, S, T, E>,
    world_after: World<R>,
    out: Result<T, E>,
) where
    Prev: ChainCall<R, In, Out = Result<T, E>>,
    S: RefStepCall<R, E, Out = ()>,
    requires
        node.call_post(world, input, after, world_after, out),
        forall|prev: Prev, world_mid: World<R>, val: T|
            !#[trigger] node.prev.call_post(world, input, prev, world_mid, Ok::<T, E>(val)),
    ensures
        exists|world_mid: World<R>, e: E|
            #[trigger] node.prev.call_post(world, input, after.prev, world_mid, Err::<T, E>(e))
                && node.step.call_post(world_mid, &e, after.step, world_after, ())
                && out == Err::<T, E>(e),
{
    assert forall|world_mid: World<R>, mid: Result<T, E>|
        #[trigger] node.prev.call_post(world, input, after.prev, world_mid, mid)
            implies mid == Err::<T, E>(mid->Err_0) by {
        if mid is Ok {
            assert(mid == Ok::<T, E>(mid->Ok_0));
        }
    }
}

/// May be called where the chain before it may be, and whatever that gives may be handed on.
pub proof fn lemma_inspect_err_ready<R, In, T, E, Prev, S>(
    node: InspectErrNode<Prev, S, T, E>,
    world: World<R>,
    input: In,
) where
    Prev: ChainCall<R, In, Out = Result<T, E>>,
    S: RefStepCall<R, E, Out = ()>,
    requires
        node.prev.call_pre(world, input),
        forall|prev: Prev, world_mid: World<R>, mid: Result<T, E>|
            #[trigger] node.prev.call_post(world, input, prev, world_mid, mid) ==> match mid {
            Ok(val) => true,
            Err(e) => node.step.call_pre(world_mid, &e),
        },
    ensures
        node.call_pre(world, input),
{
}

/// Where the chain before it gives a value, nothing is called, and the value is handed on.
pub proof fn lemma_ok_result_ok<R, In, T, E, Prev>(
    node: OkResultNode<Prev, T, E>,
    world: World<R>,
    input: In,
    after: OkResultNode<Prev, T, E>,
    world_after: World<R>,
    out: Option<T>,
) where
    Prev: ChainCall<R, In, Out = Result<T, E>>,
    requires
        node.call_post(world, input, after, world_after, out),
        forall|prev: Prev, world_mid: World<R>, e: E|
            !#[trigger] node.prev.call_post(world, input, prev, world_mid, Err::<T, E>(e)),
    ensures
        exists|world_mid: World<R>, val: T|
            #[trigger] node.prev.call_post(world, input, after.prev, world_mid, Ok::<T, E>(val))
                && world_after == world_mid
                && out == Some(val),
{
    assert forall|world_mid: World<R>, mid: Result<T, E>|
        #[trigger] node.prev.call_post(world, input, after.prev, world_mid, mid)
            implies mid == Ok::<T, E>(mid->Ok_0) by {
        if mid is Err {
            assert(mid == Err::<T, E>(mid->Err_0));
        }
    }
}

/// Where the chain before it gives an error, nothing is called, and `None` is the result.
pub proof fn lemma_ok_result_err<R, In, T, E, Prev>(
    node: OkResultNode<Prev, T, E>,
    world: World<R>,
    input: In,
    after: OkResultNode<Prev, T, E>,
    world_after: World<R>,
    out: Option<T>,
) where
    Prev: ChainCall<R, In, Out = Result<T, E>>,
    requires
        node.call_post(world, input, after, world_after, out),
        forall|prev: Prev, world_mid: World<R>, val: T|
            !#[trigger] node.prev.call_post(world, input, prev, world_mid, Ok::<T, E>(val)),
    ensures
        exists|world_mid: World<R>, e: E|
            #[trigger] node.prev.call_post(world, input, after.prev, world_mid, Err::<T, E>(e))
                && world_after == world_mid
                && out == None::<T>,
{
    assert forall|world_mid: World<R>, mid: Result<T, E>|
        #[trigger] node.prev.call_post(world, input, after.prev, world_mid, mid)
            implies mid == Err::<T, E>(mid->Err_0) by {
        if mid is Ok {
            assert(mid == Ok::<T, E>(mid->Ok_0));
        }
    }
}

/// May be called where the chain before it may be.
pub proof fn lemma_ok_result_ready<R, In, T, E, Prev>(
    node: OkResultNode<Prev, T, E>,
    world: World<R>,
    input: In,
) where
    Prev: ChainCall<R, In, Out = Result<T, E>>,
    requires
        node.prev.call_pre(world, input),
    ensures
        node.call_pre(world, input),
{
}

/// Where the chain before it gives a value, nothing is called, and the value is handed on.
pub proof fn lemma_unwrap_or_result_ok<R, In, T: Clone, E, Prev>(
    node: UnwrapOrResultNode<Prev, T, E>,
    world: World<R>,
    input: In,
    after: UnwrapOrResultNode<Prev, T, E>,
    world_after: World<R>,
    out: T,
) where
    Prev: ChainCall<R, In, Out = Result<T, E>>,
    requires
        node.call_post(world, input, after, world_after, out),
        forall|prev: Prev, world_mid: World<R>, e: E|
            !#[trigger] node.prev.call_post(world, input, prev, world_mid, Err::<T, E>(e)),
    ensures
        exists|world_mid: World<R>, val: T|
            #[trigger] node.prev.call_post(world, input, after.prev, world_mid, Ok::<T, E>(val))
                && after.default == node.default
                && world_after == world_mid
                && out == val,
{
    assert forall|world_mid: World<R>, mid: Result<T, E>|
        #[trigger] node.prev.call_post(world, input, after.prev, world_mid, mid)
            implies mid == Ok::<T, E>(mid->Ok_0) by {
        if mid is Err {
            assert(mid == Err::<T, E>(mid->Err_0));
        }
    }
}

/// Where the chain before it gives an error, nothing is called, and a clone of the default is the
/// result.
pub proof fn lemma_unwrap_or_result_err<R, In, T: Clone, E, Prev>(
    node: UnwrapOrResultNode<Prev, T, E>,
    world: World<R>,
    input: In,
    after: UnwrapOrResultNode<Prev, T, E>,
    world_after: World<R>,
    out: T,
) where
    Prev: ChainCall<R, In, Out = Result<T, E>>,
    requires
        node.call_post(world, input, after, world_after, out),
        forall|prev: Prev, world_mid: World<R>, val: T|
            !#[trigger] node.prev.call_post(world, input, prev, world_mid, Ok::<T, E>(val)),
    ensures
        exists|world_mid: World<R>, e: E|
            #[trigger] node.prev.call_post(world, input, after.prev, world_mid, Err::<T, E>(e))
                && after.default == node.default
                && world_after == world_mid
                && cloned(node.default, out),
{
    assert forall|world_mid: World<R>, mid: Result<T, E>|
        #[trigger] node.prev.call_post(world, input, after.prev, world_mid, mid)
            implies mid == Err::<T, E>(mid->Err_0) by {
        if mid is Ok {
            assert(mid == Ok::<T, E>(mid->Ok_0));
        }
    }
}

/// May be called where the chain before it may be.
pub proof fn lemma_unwrap_or_result_ready<R, In, T: Clone, E, Prev>(
    node: UnwrapOrResultNode<Prev, T, E>,
    world: World<R>,
    input: In,
) where
    Prev: ChainCall<R, In, Out = Result<T, E>>,
    requires
        node.prev.call_pre(world, input),
    ensures
        node.call_pre(world, input),
{
}

/// Where the chain before it gives an error, the step is called once, and its result is the
/// result.
pub proof fn lemma_unwrap_or_else_result_err<R, In, T, E, Prev, S>(
    node: UnwrapOrElseResultNode<Prev, S, T, E>,
    world: World<R>,
    input: In,
    after: UnwrapOrElseResultNode<Prev, S, T, E>,
    world_after: World<R>,
    out: T,
) where
    Prev: ChainCall<R, In, Out = Result<T, E>>,
    S: StepCall<R, E, Out = T>,
    requires
        node.call_post(world, input, after, world_after, out),
        forall|prev: Prev, world_mid: World<R>, val: T|
            !#[trigger] node.prev.call_post(world, input, prev, world_mid, Ok::<T, E>(val)),
    ensures
        exists|world_mid: World<R>, e: E|
            #[trigger] node.prev.call_post(world, input, after.prev, world_mid, Err::<T, E>(e))
                && node.step.call_post(world_mid, e, after.step, world_after, out),
{
    assert forall|world_mid: World<R>, mid: Result<T, E>|
        #[trigger] node.prev.call_post(world, input, after.prev, world_mid, mid)
            implies mid == Err::<T, E>(mid->Err_0) by {
        if mid is Ok {
            assert(mid == Ok::<T, E>(mid->Ok_0));
        }
    }
}

/// May be called where the chain before it may be, and whatever that gives may be handed on.
pub proof fn lemma_unwrap_or_else_result_ready<R, In, T, E, Prev, S>(
    node: UnwrapOrElseResultNode<Prev, S, T, E>,
    world: World<R>,
    input: In,
) where
    Prev: ChainCall<R, In, Out = Result<T, E>>,
    S: StepCall<R, E, Out = T>,
    requires
        node.prev.call_pre(world, input),
        forall|prev: Prev, world_mid: World<R>, mid: Result<T, E>|
            #[trigger] node.prev.call_post(world, input, prev, world_mid, mid) ==> match mid {
            Ok(val) => true,
            Err(e) => node.step.call_pre(world_mid, e),
        },
    ensures
        node.call_pre(world, input),
{
}

/// Where the chain before it gives a value, nothing is called.
pub proof fn lemma_discard_option_some<R, In, Prev>(
    node: DiscardOptionNode<Prev>,
    world: World<R>,
    input: In,
    after: DiscardOptionNode<Prev>,
    world_after: World<R>,
    out: (),
) where
    Prev: ChainCall<R, In, Out = Option<()>>,
    requires
        node.call_post(world, input, after, world_after, out),
        forall|prev: Prev, world_mid: World<R>|
            !#[trigger] node.prev.call_post(world, input, prev, world_mid, None::<()>),
    ensures
        exists|world_mid: World<R>, val: ()|
            #[trigger] node.prev.call_post(world, input, after.prev, world_mid, Some(val))
                && world_after == world_mid
                && out == (),
{
    assert forall|world_mid: World<R>, mid: Option<()>|
        #[trigger] node.prev.call_post(world, input, after.prev, world_mid, mid)
            implies mid == Some(mid->0) by {
        if mid is None {
            assert(mid == None::<()>);
        }
    }
}

/// Where the chain before it gives `None`, nothing is called.
pub proof fn lemma_discard_option_none<R, In, Prev>(
    node: DiscardOptionNode<Prev>,
    world: World<R>,
    input: In,
    after: DiscardOptionNode<Prev>,
    world_after: World<R>,
    out: (),
) where
    Prev: ChainCall<R, In, Out = Option<()>>,
    requires
        node.call_post(world, input, after, world_after, out),
        forall|prev: Prev, world_mid: World<R>, val: ()|
            !#[trigger] node.prev.call_post(world, input, prev, world_mid, Some(val)),
    ensures
        exists|world_mid: World<R>|
            #[trigger] node.prev.call_post(world, input, after.prev, world_mid, None::<()>)
                && world_after == world_mid
                && out == (),
{
    assert forall|world_mid: World<R>, mid: Option<()>|
        #[trigger] node.prev.call_post(world, input, after.prev, world_mid, mid)
            implies mid == None::<()> by {
        if mid is Some {
            assert(mid == Some(mid->0));
        }
    }
}

/// May be called where the chain before it may be.
pub proof fn lemma_discard_option_ready<R, In, Prev>(
    node: DiscardOptionNode<Prev>,
    world: World<R>,
    input: In,
) where
    Prev: ChainCall<R, In, Out = Option<()>>,
    requires
        node.prev.call_pre(world, input),
    ensures
        node.call_pre(world, input),
{
}

/// The step is shown what the chain before it gives, once, and its result is handed on.
pub proof fn lemma_dag_then<R, In, T, Prev, S, NewOut>(
    node: DagThenNode<Prev, S, NewOut>,
    world: World<R>,
    input: In,
    after: DagThenNode<Prev, S, NewOut>,
    world_after: World<R>,
    out: NewOut,
) where
    Prev: ChainCall<R, In, Out = T>,
    S: for<'a> StepCall<R, &'a T, Out = NewOut>,
    requires
        node.call_post(world, input, after, world_after, out),
    ensures
        exists|world_mid: World<R>, mid: T|
            #[trigger] node.prev.call_post(world, input, after.prev, world_mid, mid)
                && node.step.call_post(world_mid, &mid, after.step, world_after, out),
{
}

/// May be called where the chain before it may be, and whatever that gives may be handed on.
pub proof fn lemma_dag_then_ready<R, In, T, Prev, S, NewOut>(
    node: DagThenNode<Prev, S, NewOut>,
    world: World<R>,
    input: In,
) where
    Prev: ChainCall<R, In, Out = T>,
    S: for<'a> StepCall<R, &'a T, Out = NewOut>,
    requires
        node.prev.call_pre(world, input),
        forall|prev: Prev, world_mid: World<R>, mid: T|
            #[trigger] node.prev.call_post(world, input, prev, world_mid, mid)
                ==> node.step.call_pre(world_mid, &mid),
    ensures
        node.call_pre(world, input),
{
}

/// Where the chain before it gives a value, the step is called once, and `Some` of its result is
/// the result.
pub proof fn lemma_dag_map_option_some<R, In, T, U, Prev, S>(
    node: DagMapOptionNode<Prev, S, T, U>,
    world: World<R>,
    input: In,
    after: DagMapOptionNode<Prev, S, T, U>,
    world_after: World<R>,
    out: Option<U>,
) where
    Prev: ChainCall<R, In, Out = Option<T>>,
    S: for<'a> StepCall<R, &'a T, Out = U>,
    requires
        node.call_post(world, input, after, world_after, out),
        forall|prev: Prev, world_mid: World<R>|
            !#[trigger] node.prev.call_post(world, input, prev, world_mid, None::<T>),
    ensures
        exists|world_mid: World<R>, val: T|
            #[trigger] node.prev.call_post(world, input, after.prev, world_mid, Some(val))
                && exists|res: U|
                #[trigger] node.step.call_post(world_mid, &val, after.step, world_after, res)
                    && out == Some(res),
{
    assert forall|world_mid: World<R>, mid: Option<T>|
        #[trigger] node.prev.call_post(world, input, after.prev, world_mid, mid)
            implies mid == Some(mid->0) by {
        if mid is None {
            assert(mid == None::<T>);
        }
    }
}

/// May be called where the chain before it may be, and whatever that gives may be handed on.
pub proof fn lemma_dag_map_option_ready<R, In, T, U, Prev, S>(
    node: DagMapOptionNode<Prev, S, T, U>,
    world: World<R>,
    input: In,
) where
    Prev: ChainCall<R, In, Out = Option<T>>,
    S: for<'a> StepCall<R, &'a T, Out = U>,
    requires
        node.prev.call_pre(world, input),
        forall|prev: Prev, world_mid: World<R>, mid: Option<T>|
            #[trigger] node.prev.call_post(world, input, prev, world_mid, mid) ==> match mid {
            Some(val) => node.step.call_pre(world_mid, &val),
            None => true,
        },
    ensures
        node.call_pre(world, input),
{
}

/// Where the chain before it gives a value, the step is called once, and its result is the result.
pub proof fn lemma_dag_and_then_option_some<R, In, T, U, Prev, S>(
    node: DagAndThenOptionNode<Prev, S, T, U>,
    world: World<R>,
    input: In,
    after: DagAndThenOptionNode<Prev, S, T, U>,
    world_after: World<R>,
    out: Option<U>,
) where
    Prev: ChainCall<R, In, Out = Option<T>>,
    S: for<'a> StepCall<R, &'a T, Out = Option<U>>,
    requires
        node.call_post(world, input, after, world_after, out),
        forall|prev: Prev, world_mid: World<R>|
            !#[trigger] node.prev.call_post(world, input, prev, world_mid, None::<T>),
    ensures
        exists|world_mid: World<R>, val: T|
            #[trigger] node.prev.call_post(world, input, after.prev, world_mid, Some(val))
                && node.step.call_post(world_mid, &val, after.step, world_after, out),
{
    assert forall|world_mid: World<R>, mid: Option<T>|
        #[trigger] node.prev.call_post(world, input, after.prev, world_mid, mid)
            implies mid == Some(mid->0) by {
        if mid is None {
            assert(mid == None::<T>);
        }
    }
}

/// May be called where the chain before it may be, and whatever that gives may be handed on.
pub proof fn lemma_dag_and_then_option_ready<R, In, T, U, Prev, S>(
    node: DagAndThenOptionNode<Prev, S, T, U>,
    world: World<R>,
    input: In,
) where
    Prev: ChainCall<R, In, Out = Option<T>>,
    S: for<'a> StepCall<R, &'a T, Out = Option<U>>,
    requires
        node.prev.call_pre(world, input),
        forall|prev: Prev, world_mid: World<R>, mid: Option<T>|
            #[trigger] node.prev.call_post(world, input, prev, world_mid, mid) ==> match mid {
            Some(val) => node.step.call_pre(world_mid, &val),
            None => true,
        },
    ensures
        node.call_pre(world, input),
{
}

/// Where the chain before it gives a value, the step is called once, and `Ok` of its result is
/// the result.
pub proof fn lemma_dag_map_result_ok<R, In, T, E, U, Prev, S>(
    node: DagMapResultNode<Prev, S, T, E, U>,
    world: World<R>,
    input: In,
    after: DagMapResultNode<Prev, S, T, E, U>,
    world_after: World<R>,
    out: Result<U, E>,
) where
    Prev: ChainCall<R, In, Out = Result<T, E>>,
    S: for<'a> StepCall<R, &'a T, Out = U>,
    requires
        node.call_post(world, input, after, world_after, out),
        forall|prev: Prev, world_mid: World<R>, e: E|
            !#[trigger] node.prev.call_post(world, input, prev, world_mid, Err::<T, E>(e)),
    ensures
        exists|world_mid: World<R>, val: T|
            #[trigger] node.prev.call_post(world, input, after.prev, world_mid, Ok::<T, E>(val))
                && exists|res: U|
                #[trigger] node.step.call_post(world_mid, &val, after.step, world_after, res)
                    && out == Ok::<U, E>(res),
{
    assert forall|world_mid: World<R>, mid: Result<T, E>|
        #[trigger] node.prev.call_post(world, input, after.prev, world_mid, mid)
            implies mid == Ok::<T, E>(mid->Ok_0) by {
        if mid is Err {
            assert(mid == Err::<T, E>(mid->Err_0));
        }
    }
}

/// May be called where the chain before it may be, and whatever that gives may be handed on.
pub proof fn lemma_dag_map_result_ready<R, In, T, E, U, Prev, S>(
    node: DagMapResultNode<Prev, S, T, E, U>,
    world: World<R>,
    input: In,
) where
    Prev: ChainCall<R, In, Out = Result<T, E>>,
    S: for<'a> StepCall<R, &'a T, Out = U>,
    requires
        node.prev.call_pre(world, input),
        forall|prev: Prev, world_mid: World<R>, mid: Result<T, E>|
            #[trigger] node.prev.call_post(world, input, prev, world_mid, mid) ==> match mid {
            Ok(val) => node.step.call_pre(world_mid, &val),
            Err(e) => true,
        },
    ensures
        node.call_pre(world, input),
{
}

/// Where the chain before it gives a value, the step is called once, and its result is the result.
pub proof fn lemma_dag_and_then_result_ok<R, In, T, E, U, Prev, S>(
    node: DagAndThenResultNode<Prev, S, T, E, U>,
    world: World<R>,
    input: In,
    after: DagAndThenResultNode<Prev, S, T, E, U>,
    world_after: World<R>,
    out: Result<U, E>,
) where
    Prev: ChainCall<R, In, Out = Result<T, E>>,
    S: for<'a> StepCall<R, &'a T, Out = Result<U, E>>,
    requires
        node.call_post(world, input, after, world_after, out),
        forall|prev: Prev, world_mid: World<R>, e: E|
            !#[trigger] node.prev.call_post(world, input, prev, world_mid, Err::<T, E>(e)),
    ensures
        exists|world_mid: World<R>, val: T|
            #[trigger] node.prev.call_post(world, input, after.prev, world_mid, Ok::<T, E>(val))
                && node.step.call_post(world_mid, &val, after.step, world_after, out),
{
    assert forall|world_mid: World<R>, mid: Result<T, E>|
        #[trigger] node.prev.call_post(world, input, after.prev, world_mid, mid)
            implies mid == Ok::<T, E>(mid->Ok_0) by {
        if mid is Err {
            assert(mid == Err::<T, E>(mid->Err_0));
        }
    }
}

/// May be called where the chain before it may be, and whatever that gives may be handed on.
pub proof fn lemma_dag_and_then_result_ready<R, In, T, E, U, Prev, S>(
    node: DagAndThenResultNode<Prev, S, T, E, U>,
    world: World<R>,
    input: In,
) where
    Prev: ChainCall<R, In, Out = Result<T, E>>,
    S: for<'a> StepCall<R, &'a T, Out = Result<U, E>>,
    requires
        node.prev.call_pre(world, input),
        forall|prev: Prev, world_mid: World<R>, mid: Result<T, E>|
            #[trigger] node.prev.call_post(world, input, prev, world_mid, mid) ==> match mid {
            Ok(val) => node.step.call_pre(world_mid, &val),
            Err(e) => true,
        },
    ensures
        node.call_pre(world, input),
{
}

/// May be called where the chain before it may be, and whatever that gives may be handed on.
pub proof fn lemma_dag_catch_ready<R, In, T, E, Prev, S>(
    node: DagCatchNode<Prev, S, T, E>,
    world: World<R>,
    input: In,
) where
    Prev: ChainCall<R, In, Out = Result<T, E>>,
    S: for<'a> StepCall<R, &'a E, Out = ()>,
    requires
        node.prev.call_pre(world, input),
        forall|prev: Prev, world_mid: World<R>, mid: Result<T, E>|
            #[trigger] node.prev.call_post(world, input, prev, world_mid, mid) ==> match mid {
            Ok(val) => true,
            Err(e) => node.step.call_pre(world_mid, &e),
        },
    ensures
        node.call_pre(world, input),
{
}

/// What the chain before it gives is negated, and nothing else happens.
pub proof fn lemma_not<R, In, Prev>(
    node: NotNode<Prev>,
    world: World<R>,
    input: In,
    after: NotNode<Prev>,
    world_after: World<R>,
    out: bool,
) where
    Prev: ChainCall<R, In, Out = bool>,
    requires
        node.call_post(world, input, after, world_after, out),
    ensures
        exists|world_mid: World<R>, mid: bool|
            #[trigger] node.prev.call_post(world, input, after.prev, world_mid, mid)
                && world_after == world_mid
                && out == !mid,
{
}

/// May be called where the chain before it may be.
pub proof fn lemma_not_ready<R, In, Prev>(
    node: NotNode<Prev>,
    world: World<R>,
    input: In,
) where
    Prev: ChainCall<R, In, Out = bool>,
    requires
        node.prev.call_pre(world, input),
    ensures
        node.call_pre(world, input),
{
}

/// Where the chain before it gives `true`, the producer is called once, and its result is the
/// result.
pub proof fn lemma_and_bool_true<R, In, Prev, S>(
    node: AndBoolNode<Prev, S>,
    world: World<R>,
    input: In,
    after: AndBoolNode<Prev, S>,
    world_after: World<R>,
    out: bool,
) where
    Prev: ChainCall<R, In, Out = bool>,
    S: ProducerCall<R, Out = bool>,
    requires
        node.call_post(world, input, after, world_after, out),
        forall|prev: Prev, world_mid: World<R>|
            !#[trigger] node.prev.call_post(world, input, prev, world_mid, false),
    ensures
        exists|world_mid: World<R>|
            #[trigger] node.prev.call_post(world, input, after.prev, world_mid, true)
                && node.producer.call_post(world_mid, after.producer, world_after, out),
{
}

/// May be called where the chain before it may be, and whatever that gives may be handed on.
pub proof fn lemma_and_bool_ready<R, In, Prev, S>(
    node: AndBoolNode<Prev, S>,
    world: World<R>,
    input: In,
) where
    Prev: ChainCall<R, In, Out = bool>,
    S: ProducerCall<R, Out = bool>,
    requires
        node.prev.call_pre(world, input),
        forall|prev: Prev, world_mid: World<R>, mid: bool|
            #[trigger] node.prev.call_post(world, input, prev, world_mid, mid) ==> match mid {
            true => node.producer.call_pre(world_mid),
            false => true,
        },
    ensures
        node.call_pre(world, input),
{
}

/// Where the chain before it gives `false`, the producer is called once, and its result is the
/// result.
pub proof fn lemma_or_bool_false<R, In, Prev, S>(
    node: OrBoolNode<Prev, S>,
    world: World<R>,
    input: In,
    after: OrBoolNode<Prev, S>,
    world_after: World<R>,
    out: bool,
) where
    Prev: ChainCall<R, In, Out = bool>,
    S: ProducerCall<R, Out = bool>,
    requires
        node.call_post(world, input, after, world_after, out),
        forall|prev: Prev, world_mid: World<R>|
            !#[trigger] node.prev.call_post(world, input, prev, world_mid, true),
    ensures
        exists|world_mid: World<R>|
            #[trigger] node.prev.call_post(world, input, after.prev, world_mid, false)
                && node.producer.call_post(world_mid, after.producer, world_after, out),
{
}

/// May be called where the chain before it may be, and whatever that gives may be handed on.
pub proof fn lemma_or_bool_ready<R, In, Prev, S>(
    node: OrBoolNode<Prev, S>,
    world: World<R>,
    input: In,
) where
    Prev: ChainCall<R, In, Out = bool>,
    S: ProducerCall<R, Out = bool>,
    requires
        node.prev.call_pre(world, input),
        forall|prev: Prev, world_mid: World<R>, mid: bool|
            #[trigger] node.prev.call_post(world, input, prev, world_mid, mid) ==> match mid {
            true => true,
            false => node.producer.call_pre(world_mid),
        },
    ensures
        node.call_pre(world, input),
{
}

/// May be called where the chain before it may be, and whatever that gives may be handed on.
pub proof fn lemma_xor_bool_ready<R, In, Prev, S>(
    node: XorBoolNode<Prev, S>,
    world: World<R>,
    input: In,
) where
    Prev: ChainCall<R, In, Out = bool>,
    S: ProducerCall<R, Out = bool>,
    requires
        node.prev.call_pre(world, input),
        forall|prev: Prev, world_mid: World<R>, mid: bool|
            #[trigger] node.prev.call_post(world, input, prev, world_mid, mid)
                ==> node.producer.call_pre(world_mid),
    ensures
        node.call_pre(world, input),
{
}

/// Where the chain before it gives a value, nothing is called, and a clone of the value is the
/// result.
pub proof fn lemma_cloned_option_some<'a, R, In, T: Clone + 'a, Prev>(
    node: ClonedOptionNode<Prev, T>,
    world: World<R>,
    input: In,
    after: ClonedOptionNode<Prev, T>,
    world_after: World<R>,
    out: Option<T>,
) where
    Prev: ChainCall<R, In, Out = Option<&'a T>>,
    requires
        node.call_post(world, input, after, world_after, out),
        forall|prev: Prev, world_mid: World<R>|
            !#[trigger] node.prev.call_post(world, input, prev, world_mid, None::<&'a T>),
    ensures
        exists|world_mid: World<R>, r: &'a T|
            #[trigger] node.prev.call_post(world, input, after.prev, world_mid, Some(r))
                && world_after == world_mid
                && out is Some
                && cloned(*r, out->0),
{
    assert forall|world_mid: World<R>, mid: Option<&'a T>|
        #[trigger] node.prev.call_post(world, input, after.prev, world_mid, mid)
            implies mid == Some(mid->0) by {
        if mid is None {
            assert(mid == None::<&'a T>);
        }
    }
}

/// Where the chain before it gives `None`, nothing is called, and `None` is the result.
pub proof fn lemma_cloned_option_none<'a, R, In, T: Clone + 'a, Prev>(
    node: ClonedOptionNode<Prev, T>,
    world: World<R>,
    input: In,
    after: ClonedOptionNode<Prev, T>,
    world_after: World<R>,
    out: Option<T>,
) where
    Prev: ChainCall<R, In, Out = Option<&'a T>>,
    requires
        node.call_post(world, input, after, world_after, out),
        forall|prev: Prev, world_mid: World<R>, r: &'a T|
            !#[trigger] node.prev.call_post(world, input, prev, world_mid, Some(r)),
    ensures
        exists|world_mid: World<R>|
            #[trigger] node.prev.call_post(world, input, after.prev, world_mid, None::<&'a T>)
                && world_after == world_mid
                && out == None::<T>,
{
    assert forall|world_mid: World<R>, mid: Option<&'a T>|
        #[trigger] node.prev.call_post(world, input, after.prev, world_mid, mid)
            implies mid == None::<&'a T> by {
        if mid is Some {
            assert(mid == Some(mid->0));
        }
    }
}

/// May be called where the chain before it may be.
pub proof fn lemma_cloned_option_ready<'a, R, In, T: Clone + 'a, Prev>(
    node: ClonedOptionNode<Prev, T>,
    world: World<R>,
    input: In,
) where
    Prev: ChainCall<R, In, Out = Option<&'a T>>,
    requires
        node.prev.call_pre(world, input),
    ensures
        node.call_pre(world, input),
{
}

/// Where the chain before it gives a value, nothing is called, and a clone of the value is the
/// result.
pub proof fn lemma_cloned_result_ok<'a, R, In, T: Clone + 'a, E, Prev>(
    node: ClonedResultNode<Prev, T, E>,
    world: World<R>,
    input: In,
    after: ClonedResultNode<Prev, T, E>,
    world_after: World<R>,
    out: Result<T, E>,
) where
    Prev: ChainCall<R, In, Out = Result<&'a T, E>>,
    requires
        node.call_post(world, input, after, world_after, out),
        forall|prev: Prev, world_mid: World<R>, e: E|
            !#[trigger] node.prev.call_post(world, input, prev, world_mid, Err::<&'a T, E>(e)),
    ensures
        exists|world_mid: World<R>, r: &'a T|
            #[trigger] node.prev.call_post(world, input, after.prev, world_mid, Ok::<&'a T, E>(r))
                && world_after == world_mid
                && out is Ok
                && cloned(*r, out->Ok_0),
{
    assert forall|world_mid: World<R>, mid: Result<&'a T, E>|
        #[trigger] node.prev.call_post(world, input, after.prev, world_mid, mid)
            implies mid == Ok::<&'a T, E>(mid->Ok_0) by {
        if mid is Err {
            assert(mid == Err::<&'a T, E>(mid->Err_0));
        }
    }
}

/// Where the chain before it gives an error, nothing is called, and the error is handed on.
pub proof fn lemma_cloned_result_err<'a, R, In, T: Clone + 'a, E, Prev>(
    node: ClonedResultNode<Prev, T, E>,
    world: World<R>,
    input: In,
    after: ClonedResultNode<Prev, T, E>,
    world_after: World<R>,
    out: Result<T, E>,
) where
    Prev: ChainCall<R, In, Out = Result<&'a T, E>>,
    requires
        node.call_post(world, input, after, world_after, out),
        forall|prev: Prev, world_mid: World<R>, r: &'a T|
            !#[trigger] node.prev.call_post(world, input, prev, world_mid, Ok::<&'a T, E>(r)),
    ensures
        exists|world_mid: World<R>, e: E|
            #[trigger] node.prev.call_post(world, input, after.prev, world_mid, Err::<&'a T, E>(e))
                && world_after == world_mid
                && out == Err::<T, E>(e),
{
    assert forall|world_mid: World<R>, mid: Result<&'a T, E>|
        #[trigger] node.prev.call_post(world, input, after.prev, world_mid, mid)
            implies mid == Err::<&'a T, E>(mid->Err_0) by {
        if mid is Ok {
            assert(mid == Ok::<&'a T, E>(mid->Ok_0));
        }
    }
}

/// May be called where the chain before it may be.
pub proof fn lemma_cloned_result_ready<'a, R, In, T: Clone + 'a, E, Prev>(
    node: ClonedResultNode<Prev, T, E>,
    world: World<R>,
    input: In,
) where
    Prev: ChainCall<R, In, Out = Result<&'a T, E>>,
    requires
        node.prev.call_pre(world, input),
    ensures
        node.call_pre(world, input),
{
}

/// The handler handles what the chain before it gives, once.
pub proof fn lemma_dispatch<R, In, T, Prev, H>(
    node: DispatchNode<Prev, H>,
    world: World<R>,
    input: In,
    after: DispatchNode<Prev, H>,
    world_after: World<R>,
    out: (),
) where
    Prev: ChainCall<R, In, Out = T>,
    H: Handler<R, T>,
    requires
        node.call_post(world, input, after, world_after, out),
    ensures
        exists|world_mid: World<R>, mid: T|
            #[trigger] node.prev.call_post(world, input, after.prev, world_mid, mid)
                && node.handler.run_post(world_mid, mid, &after.handler, world_after),
{
}

/// May be called where the chain before it may be, and whatever that gives may be handed on.
pub proof fn lemma_dispatch_ready<R, In, T, Prev, H>(
    node: DispatchNode<Prev, H>,
    world: World<R>,
    input: In,
) where
    Prev: ChainCall<R, In, Out = T>,
    H: Handler<R, T>,
    requires
        node.prev.call_pre(world, input),
        forall|prev: Prev, world_mid: World<R>, mid: T|
            #[trigger] node.prev.call_post(world, input, prev, world_mid, mid)
                ==> node.handler.run_pre(world_mid, mid),
    ensures
        node.call_pre(world, input),
{
}

/// May be called where the chain before it may be, and whatever that gives may be handed on.
pub proof fn lemma_tee_ready<R, In, T, Prev, C>(
    node: TeeNode<Prev, C>,
    world: World<R>,
    input: In,
) where
    Prev: ChainCall<R, In, Out = T>,
    C: for<'a> ChainCall<R, &'a T, Out = ()>,
    requires
        node.prev.call_pre(world, input),
        forall|prev: Prev, world_mid: World<R>, mid: T|
            #[trigger] node.prev.call_post(world, input, prev, world_mid, mid)
                ==> node.side.call_pre(world_mid, &mid),
    ensures
        node.call_pre(world, input),
{
}

/// The start of a chain hands its input on and changes nothing.
pub proof fn lemma_identity<R, In>(
    node: IdentityNode,
    world: World<R>,
    input: In,
    after: IdentityNode,
    world_after: World<R>,
    out: In,
)
    requires
        node.call_post(world, input, after, world_after, out),
    ensures
        out == input,
        world_after == world,
{
}

/// The start of a chain may always be called.
pub proof fn lemma_identity_ready<R, In>(
    node: IdentityNode,
    world: World<R>,
    input: In,
)
    ensures
        node.call_pre(world, input),
{
}

/// A finished pipeline hands an event to its chain, once.
pub proof fn lemma_pipeline_handles<R, E, Chain: ChainCall<R, E, Out = ()>>(
    node: Pipeline<Chain>,
    world: World<R>,
    event: E,
    after: Pipeline<Chain>,
    world_after: World<R>,
)
    ensures
        node.run_pre(world, event) <==> node.chain.call_pre(world, event),
        node.run_post(world, event, &after, world_after) <==> node.chain.call_post(
            world,
            event,
            after.chain,
            world_after,
            (),
        ),
{
}

/// A finished graph hands an event to its chain, once.
pub proof fn lemma_dag_handles<R, E, Chain: ChainCall<R, E, Out = ()>>(
    node: Dag<Chain>,
    world: World<R>,
    event: E,
    after: Dag<Chain>,
    world_after: World<R>,
)
    ensures
        node.run_pre(world, event) <==> node.chain.call_pre(world, event),
        node.run_post(world, event, &after, world_after) <==> node.chain.call_post(
            world,
            event,
            after.chain,
            world_after,
            (),
        ),
{
}

/// A function that is used as a handler is handed an event, once.
pub proof fn lemma_fn_handles<R, E, S: StepCall<R, E, Out = ()>>(
    node: FnHandler<S>,
    world: World<R>,
    event: E,
    after: FnHandler<S>,
    world_after: World<R>,
)
    ensures
        node.run_pre(world, event) <==> node.step.call_pre(world, event),
        node.run_post(world, event, &after, world_after) <==> node.step.call_post(
            world,
            event,
            after.step,
            world_after,
            (),
        ),
{
}

/// The first value is handed on. A value is handed on as it is, and kept for the next comparison,
/// or dropped, where it equals the one kept.
pub proof fn lemma_dedup_node<R, In, T: PartialEq + Clone, Prev: ChainCall<R, In, Out = T>>(
    node: DedupNode<Prev, T>,
    world: World<R>,
    input: In,
    after: DedupNode<Prev, T>,
    world_after: World<R>,
    out: Option<T>,
)
    requires
        node.call_post(world, input, after, world_after, out),
    ensures
        exists|val: T|
            #[trigger] node.prev.call_post(world, input, after.prev, world_after, val)
                && match out {
                Some(v) => v == val && after.last is Some && cloned(val, after.last->0),
                None => node.last is Some && after.last == node.last,
            } && (T::obeys_eq_spec()
                ==> (out is None <==> node.last is Some && node.last->0.eq_spec(&val))),
        node.last is None ==> out is Some,
{
}

/// May be called where the chain before it may be.
pub proof fn lemma_dedup_node_ready<R, In, T: PartialEq + Clone, Prev: ChainCall<R, In, Out = T>>(
    node: DedupNode<Prev, T>,
    world: World<R>,
    input: In,
)
    requires
        node.prev.call_pre(world, input),
    ensures
        node.call_pre(world, input),
{
}

/// The step is called once, on the accumulator as the last call left it and on what the chain before
/// it gives. What it makes of the accumulator is kept for the next call.
pub proof fn lemma_scan<
    R,
    In,
    T,
    U,
    Acc,
    Prev: ChainCall<R, In, Out = T>,
    S: ScanStepCall<R, Acc, T, Out = U>,
>(
    node: ScanNode<Prev, S, Acc>,
    world: World<R>,
    input: In,
    after: ScanNode<Prev, S, Acc>,
    world_after: World<R>,
    out: U,
)
    requires
        node.call_post(world, input, after, world_after, out),
    ensures
        exists|world_mid: World<R>, mid: T|
            #[trigger] node.prev.call_post(world, input, after.prev, world_mid, mid)
                && node.step.call_post(
                    world_mid,
                    node.acc,
                    mid,
                    after.step,
                    world_after,
                    after.acc,
                    out,
                ),
{
}

/// May be called where the chain before it may be, and whatever that gives may be handed on.
pub proof fn lemma_scan_ready<
    R,
    In,
    T,
    U,
    Acc,
    Prev: ChainCall<R, In, Out = T>,
    S: ScanStepCall<R, Acc, T, Out = U>,
>(
    node: ScanNode<Prev, S, Acc>,
    world: World<R>,
    input: In,
)
    requires
        node.prev.call_pre(world, input),
        forall|prev: Prev, world_mid: World<R>, mid: T|
            #[trigger] node.prev.call_post(world, input, prev, world_mid, mid)
                ==> node.step.call_pre(world_mid, node.acc, mid),
    ensures
        node.call_pre(world, input),
{
}

/// The step is called once, on the accumulator as the last call left it and on what the chain before
/// it gives. What it makes of the accumulator is kept for the next call.
pub proof fn lemma_ref_scan<
    R,
    In,
    T,
    U,
    Acc,
    Prev: ChainCall<R, In, Out = T>,
    S: RefScanStepCall<R, Acc, T, Out = U>,
>(
    node: RefScanNode<Prev, S, Acc>,
    world: World<R>,
    input: In,
    after: RefScanNode<Prev, S, Acc>,
    world_after: World<R>,
    out: U,
)
    requires
        node.call_post(world, input, after, world_after, out),
    ensures
        exists|world_mid: World<R>, mid: T|
            #[trigger] node.prev.call_post(world, input, after.prev, world_mid, mid)
                && node.step.call_post(
                    world_mid,
                    node.acc,
                    &mid,
                    after.step,
                    world_after,
                    after.acc,
                    out,
                ),
{
}

/// May be called where the chain before it may be, and whatever that gives may be handed on.
pub proof fn lemma_ref_scan_ready<
    R,
    In,
    T,
    U,
    Acc,
    Prev: ChainCall<R, In, Out = T>,
    S: RefScanStepCall<R, Acc, T, Out = U>,
>(
    node: RefScanNode<Prev, S, Acc>,
    world: World<R>,
    input: In,
)
    requires
        node.prev.call_pre(world, input),
        forall|prev: Prev, world_mid: World<R>, mid: T|
            #[trigger] node.prev.call_post(world, input, prev, world_mid, mid)
                ==> node.step.call_pre(world_mid, node.acc, &mid),
    ensures
        node.call_pre(world, input),
{
}

/// May be called where the chain before it may be, the predicate on whatever that gives, and each
/// side where the predicate decides for it.
pub proof fn lemma_route_ready<
    R,
    In,
    T,
    U,
    Prev: ChainCall<R, In, Out = T>,
    P: RefStepCall<R, T, Out = bool>,
    C0: ChainCall<R, T, Out = U>,
    C1: ChainCall<R, T, Out = U>,
>(
    node: RouteNode<Prev, P, C0, C1>,
    world: World<R>,
    input: In,
)
    requires
        node.prev.call_pre(world, input),
        forall|prev: Prev, world_mid: World<R>, mid: T|
            #[trigger] node.prev.call_post(world, input, prev, world_mid, mid)
                ==> node.pred.call_pre(world_mid, &mid),
        forall|prev: Prev, world_mid: World<R>, mid: T, pred: P, world_arm: World<R>, side: bool|
            #[trigger] node.prev.call_post(world, input, prev, world_mid, mid)
                && #[trigger] node.pred.call_post(world_mid, &mid, pred, world_arm, side)
                ==> if side {
                node.on_true.call_pre(world_arm, mid)
            } else {
                node.on_false.call_pre(world_arm, mid)
            },
    ensures
        node.call_pre(world, input),
{
}

/// May be called where the chain before it may be, the predicate on whatever that gives, and each
/// side where the predicate decides for it.
pub proof fn lemma_dag_route_ready<
    R,
    In,
    T,
    U,
    Prev: ChainCall<R, In, Out = T>,
    P: RefStepCall<R, T, Out = bool>,
    C0: for<'a> ChainCall<R, &'a T, Out = U>,
    C1: for<'a> ChainCall<R, &'a T, Out = U>,
>(
    node: DagRouteNode<Prev, P, C0, C1, U>,
    world: World<R>,
    input: In,
)
    requires
        node.prev.call_pre(world, input),
        forall|prev: Prev, world_mid: World<R>, mid: T|
            #[trigger] node.prev.call_post(world, input, prev, world_mid, mid)
                ==> node.pred.call_pre(world_mid, &mid),
        forall|prev: Prev, world_mid: World<R>, mid: T, pred: P, world_arm: World<R>, side: bool|
            #[trigger] node.prev.call_post(world, input, prev, world_mid, mid)
                && #[trigger] node.pred.call_post(world_mid, &mid, pred, world_arm, side)
                ==> if side {
                node.on_true.call_pre(world_arm, &mid)
            } else {
                node.on_false.call_pre(world_arm, &mid)
            },
    ensures
        node.call_pre(world, input),
{
}

/// The value behind the reference is cloned, and nothing else happens.
pub proof fn lemma_cloned<R, In, T: Clone, Prev: ChainCall<R, In>>(
    node: ClonedNode<Prev>,
    world: World<R>,
    input: In,
    after: ClonedNode<Prev>,
    world_after: World<R>,
    out: T,
) where
    Prev::Out: Borrowed<Owned = T>,
    requires
        node.call_post(world, input, after, world_after, out),
    ensures
        exists|mid: Prev::Out|
            #[trigger] node.prev.call_post(world, input, after.prev, world_after, mid)
                && cloned(mid.referent(), out),
{
}

/// May be called where the chain before it may be.
pub proof fn lemma_cloned_ready<R, In, T: Clone, Prev: ChainCall<R, In>>(
    node: ClonedNode<Prev>,
    world: World<R>,
    input: In,
) where
    Prev::Out: Borrowed<Owned = T>,
    requires
        node.prev.call_pre(world, input),
    ensures
        node.call_pre(world, input),
{
}

/// What is behind a reference is what it refers to.
pub proof fn lemma_referent<'a, T>(
    r: &'a T,
)
    ensures
        r.referent() == *r,
{
}

/// The step is handed the parts of the tuple, in order, once.
pub proof fn lemma_splat2<
    R,
    In,
    A,
    B,
    U,
    Prev: ChainCall<R, In, Out = (A, B)>,
    S: SplatCall2<R, A, B, Out = U>,
>(
    node: SplatThenNode2<Prev, S, A, B>,
    world: World<R>,
    input: In,
    after: SplatThenNode2<Prev, S, A, B>,
    world_after: World<R>,
    out: U,
)
    requires
        node.call_post(world, input, after, world_after, out),
    ensures
        exists|world_mid: World<R>, mid: (A, B)|
            #[trigger] node.prev.call_post(world, input, after.prev, world_mid, mid)
                && node.step.call_splat_post(world_mid, mid.0, mid.1, after.step, world_after, out),
{
}

/// May be called where the chain before it may be, and the step on the parts of whatever that gives.
pub proof fn lemma_splat2_ready<
    R,
    In,
    A,
    B,
    U,
    Prev: ChainCall<R, In, Out = (A, B)>,
    S: SplatCall2<R, A, B, Out = U>,
>(
    node: SplatThenNode2<Prev, S, A, B>,
    world: World<R>,
    input: In,
)
    requires
        node.prev.call_pre(world, input),
        forall|prev: Prev, world_mid: World<R>, mid: (A, B)|
            #[trigger] node.prev.call_post(world, input, prev, world_mid, mid)
                ==> node.step.call_splat_pre(world_mid, mid.0, mid.1),
    ensures
        node.call_pre(world, input),
{
}

/// The step is shown the parts of the tuple, in order, once.
pub proof fn lemma_dag_splat2<
    R,
    In,
    T0,
    T1,
    NewOut,
    Chain: ChainCall<R, In, Out = (T0, T1)>,
    MS: for<'x> MergeStepCall<R, (&'x T0, &'x T1), NewOut>,
>(
    node: dag_splat::SplatThenNode2<Chain, MS, T0, T1, NewOut>,
    world: World<R>,
    input: In,
    after: dag_splat::SplatThenNode2<Chain, MS, T0, T1, NewOut>,
    world_after: World<R>,
    out: NewOut,
)
    requires
        node.call_post(world, input, after, world_after, out),
    ensures
        exists|world_mid: World<R>, mid: (T0, T1)|
            #[trigger] node.chain.call_post(world, input, after.chain, world_mid, mid)
                && node.merge.call_post(world_mid, (&mid.0, &mid.1), after.merge, world_after, out),
{
}

/// May be called where the chain before it may be, and the step on the parts of whatever that gives.
pub proof fn lemma_dag_splat2_ready<
    R,
    In,
    T0,
    T1,
    NewOut,
    Chain: ChainCall<R, In, Out = (T0, T1)>,
    MS: for<'x> MergeStepCall<R, (&'x T0, &'x T1), NewOut>,
>(
    node: dag_splat::SplatThenNode2<Chain, MS, T0, T1, NewOut>,
    world: World<R>,
    input: In,
)
    requires
        node.chain.call_pre(world, input),
        forall|chain: Chain, world_mid: World<R>, mid: (T0, T1)|
            #[trigger] node.chain.call_post(world, input, chain, world_mid, mid)
                ==> node.merge.call_pre(world_mid, (&mid.0, &mid.1)),
    ensures
        node.call_pre(world, input),
{
}

/// The step at the start of an arm is shown the parts of the tuple, in order, once.
pub proof fn lemma_splat_arm2<
    'inp,
    R,
    T0,
    T1,
    NewOut,
    MS: for<'x> MergeStepCall<R, (&'x T0, &'x T1), NewOut>,
>(
    node: SplatArmStartNode2<MS, T0, T1, NewOut>,
    world: World<R>,
    input: &'inp (T0, T1),
    after: SplatArmStartNode2<MS, T0, T1, NewOut>,
    world_after: World<R>,
    out: NewOut,
)
    ensures
        node.call_pre(world, input) <==> node.merge.call_pre(world, (&input.0, &input.1)),
        node.call_post(world, input, after, world_after, out) <==> node.merge.call_post(
            world,
            (&input.0, &input.1),
            after.merge,
            world_after,
            out,
        ),
{
}

/// The step is handed the parts of the tuple, in order, once.
pub proof fn lemma_splat3<
    R,
    In,
    A,
    B,
    C,
    U,
    Prev: ChainCall<R, In, Out = (A, B, C)>,
    S: SplatCall3<R, A, B, C, Out = U>,
>(
    node: SplatThenNode3<Prev, S, A, B, C>,
    world: World<R>,
    input: In,
    after: SplatThenNode3<Prev, S, A, B, C>,
    world_after: World<R>,
    out: U,
)
    requires
        node.call_post(world, input, after, world_after, out),
    ensures
        exists|world_mid: World<R>, mid: (A, B, C)|
            #[trigger] node.prev.call_post(world, input, after.prev, world_mid, mid)
                && node.step.call_splat_post(
                    world_mid,
                    mid.0,
                    mid.1,
                    mid.2,
                    after.step,
                    world_after,
                    out,
                ),
{
}

/// May be called where the chain before it may be, and the step on the parts of whatever that gives.
pub proof fn lemma_splat3_ready<
    R,
    In,
    A,
    B,
    C,
    U,
    Prev: ChainCall<R, In, Out = (A, B, C)>,
    S: SplatCall3<R, A, B, C, Out = U>,
>(
    node: SplatThenNode3<Prev, S, A, B, C>,
    world: World<R>,
    input: In,
)
    requires
        node.prev.call_pre(world, input),
        forall|prev: Prev, world_mid: World<R>, mid: (A, B, C)|
            #[trigger] node.prev.call_post(world, input, prev, world_mid, mid)
                ==> node.step.call_splat_pre(world_mid, mid.0, mid.1, mid.2),
    ensures
        node.call_pre(world, input),
{
}

/// The step is shown the parts of the tuple, in order, once.
pub proof fn lemma_dag_splat3<
    R,
    In,
    T0,
    T1,
    T2,
    NewOut,
    Chain: ChainCall<R, In, Out = (T0, T1, T2)>,
    MS: for<'x> MergeStepCall<R, (&'x T0, &'x T1, &'x T2), NewOut>,
>(
    node: dag_splat::SplatThenNode3<Chain, MS, T0, T1, T2, NewOut>,
    world: World<R>,
    input: In,
    after: dag_splat::SplatThenNode3<Chain, MS, T0, T1, T2, NewOut>,
    world_after: World<R>,
    out: NewOut,
)
    requires
        node.call_post(world, input, after, world_after, out),
    ensures
        exists|world_mid: World<R>, mid: (T0, T1, T2)|
            #[trigger] node.chain.call_post(world, input, after.chain, world_mid, mid)
                && node.merge.call_post(
                    world_mid,
                    (&mid.0, &mid.1, &mid.2),
                    after.merge,
                    world_after,
                    out,
                ),
{
}

/// May be called where the chain before it may be, and the step on the parts of whatever that gives.
pub proof fn lemma_dag_splat3_ready<
    R,
    In,
    T0,
    T1,
    T2,
    NewOut,
    Chain: ChainCall<R, In, Out = (T0, T1, T2)>,
    MS: for<'x> MergeStepCall<R, (&'x T0, &'x T1, &'x T2), NewOut>,
>(
    node: dag_splat::SplatThenNode3<Chain, MS, T0, T1, T2, NewOut>,
    world: World<R>,
    input: In,
)
    requires
        node.chain.call_pre(world, input),
        forall|chain: Chain, world_mid: World<R>, mid: (T0, T1, T2)|
            #[trigger] node.chain.call_post(world, input, chain, world_mid, mid)
                ==> node.merge.call_pre(world_mid, (&mid.0, &mid.1, &mid.2)),
    ensures
        node.call_pre(world, input),
{
}

/// The step at the start of an arm is shown the parts of the tuple, in order, once.
pub proof fn lemma_splat_arm3<
    'inp,
    R,
    T0,
    T1,
    T2,
    NewOut,
    MS: for<'x> MergeStepCall<R, (&'x T0, &'x T1, &'x T2), NewOut>,
>(
    node: SplatArmStartNode3<MS, T0, T1, T2, NewOut>,
    world: World<R>,
    input: &'inp (T0, T1, T2),
    after: SplatArmStartNode3<MS, T0, T1, T2, NewOut>,
    world_after: World<R>,
    out: NewOut,
)
    ensures
        node.call_pre(world, input) <==> node.merge.call_pre(world, (&input.0, &input.1, &input.2)),
        node.call_post(world, input, after, world_after, out) <==> node.merge.call_post(
            world,
            (&input.0, &input.1, &input.2),
            after.merge,
            world_after,
            out,
        ),
{
}

/// The step is handed the parts of the tuple, in order, once.
pub proof fn lemma_splat4<
    R,
    In,
    A,
    B,
    C,
    D,
    U,
    Prev: ChainCall<R, In, Out = (A, B, C, D)>,
    S: SplatCall4<R, A, B, C, D, Out = U>,
>(
    node: SplatThenNode4<Prev, S, A, B, C, D>,
    world: World<R>,
    input: In,
    after: SplatThenNode4<Prev, S, A, B, C, D>,
    world_after: World<R>,
    out: U,
)
    requires
        node.call_post(world, input, after, world_after, out),
    ensures
        exists|world_mid: World<R>, mid: (A, B, C, D)|
            #[trigger] node.prev.call_post(world, input, after.prev, world_mid, mid)
                && node.step.call_splat_post(
                    world_mid,
                    mid.0,
                    mid.1,
                    mid.2,
                    mid.3,
                    after.step,
                    world_after,
                    out,
                ),
{
}

/// May be called where the chain before it may be, and the step on the parts of whatever that gives.
pub proof fn lemma_splat4_ready<
    R,
    In,
    A,
    B,
    C,
    D,
    U,
    Prev: ChainCall<R, In, Out = (A, B, C, D)>,
    S: SplatCall4<R, A, B, C, D, Out = U>,
>(
    node: SplatThenNode4<Prev, S, A, B, C, D>,
    world: World<R>,
    input: In,
)
    requires
        node.prev.call_pre(world, input),
        forall|prev: Prev, world_mid: World<R>, mid: (A, B, C, D)|
            #[trigger] node.prev.call_post(world, input, prev, world_mid, mid)
                ==> node.step.call_splat_pre(world_mid, mid.0, mid.1, mid.2, mid.3),
    ensures
        node.call_pre(world, input),
{
}

/// The step is shown the parts of the tuple, in order, once.
pub proof fn lemma_dag_splat4<
    R,
    In,
    T0,
    T1,
    T2,
    T3,
    NewOut,
    Chain: ChainCall<R, In, Out = (T0, T1, T2, T3)>,
    MS: for<'x> MergeStepCall<R, (&'x T0, &'x T1, &'x T2, &'x T3), NewOut>,
>(
    node: dag_splat::SplatThenNode4<Chain, MS, T0, T1, T2, T3, NewOut>,
    world: World<R>,
    input: In,
    after: dag_splat::SplatThenNode4<Chain, MS, T0, T1, T2, T3, NewOut>,
    world_after: World<R>,
    out: NewOut,
)
    requires
        node.call_post(world, input, after, world_after, out),
    ensures
        exists|world_mid: World<R>, mid: (T0, T1, T2, T3)|
            #[trigger] node.chain.call_post(world, input, after.chain, world_mid, mid)
                && node.merge.call_post(
                    world_mid,
                    (&mid.0, &mid.1, &mid.2, &mid.3),
                    after.merge,
                    world_after,
                    out,
                ),
{
}

/// May be called where the chain before it may be, and the step on the parts of whatever that gives.
pub proof fn lemma_dag_splat4_ready<
    R,
    In,
    T0,
    T1,
    T2,
    T3,
    NewOut,
    Chain: ChainCall<R, In, Out = (T0, T1, T2, T3)>,
    MS: for<'x> MergeStepCall<R, (&'x T0, &'x T1, &'x T2, &'x T3), NewOut>,
>(
    node: dag_splat::SplatThenNode4<Chain, MS, T0, T1, T2, T3, NewOut>,
    world: World<R>,
    input: In,
)
    requires
        node.chain.call_pre(world, input),
        forall|chain: Chain, world_mid: World<R>, mid: (T0, T1, T2, T3)|
            #[trigger] node.chain.call_post(world, input, chain, world_mid, mid)
                ==> node.merge.call_pre(world_mid, (&mid.0, &mid.1, &mid.2, &mid.3)),
    ensures
        node.call_pre(world, input),
{
}

/// The step at the start of an arm is shown the parts of the tuple, in order, once.
pub proof fn lemma_splat_arm4<
    'inp,
    R,
    T0,
    T1,
    T2,
    T3,
    NewOut,
    MS: for<'x> MergeStepCall<R, (&'x T0, &'x T1, &'x T2, &'x T3), NewOut>,
>(
    node: SplatArmStartNode4<MS, T0, T1, T2, T3, NewOut>,
    world: World<R>,
    input: &'inp (T0, T1, T2, T3),
    after: SplatArmStartNode4<MS, T0, T1, T2, T3, NewOut>,
    world_after: World<R>,
    out: NewOut,
)
    ensures
        node.call_pre(world, input) <==> node.merge.call_pre(
            world,
            (&input.0, &input.1, &input.2, &input.3),
        ),
        node.call_post(world, input, after, world_after, out) <==> node.merge.call_post(
            world,
            (&input.0, &input.1, &input.2, &input.3),
            after.merge,
            world_after,
            out,
        ),
{
}

/// The step is handed the parts of the tuple, in order, once.
pub proof fn lemma_splat5<
    R,
    In,
    A,
    B,
    C,
    D,
    E,
    U,
    Prev: ChainCall<R, In, Out = (A, B, C, D, E)>,
    S: SplatCall5<R, A, B, C, D, E, Out = U>,
>(
    node: SplatThenNode5<Prev, S, A, B, C, D, E>,
    world: World<R>,
    input: In,
    after: SplatThenNode5<Prev, S, A, B, C, D, E>,
    world_after: World<R>,
    out: U,
)
    requires
        node.call_post(world, input, after, world_after, out),
    ensures
        exists|world_mid: World<R>, mid: (A, B, C, D, E)|
            #[trigger] node.prev.call_post(world, input, after.prev, world_mid, mid)
                && node.step.call_splat_post(
                    world_mid,
                    mid.0,
                    mid.1,
                    mid.2,
                    mid.3,
                    mid.4,
                    after.step,
                    world_after,
                    out,
                ),
{
}

/// May be called where the chain before it may be, and the step on the parts of whatever that gives.
pub proof fn lemma_splat5_ready<
    R,
    In,
    A,
    B,
    C,
    D,
    E,
    U,
    Prev: ChainCall<R, In, Out = (A, B, C, D, E)>,
    S: SplatCall5<R, A, B, C, D, E, Out = U>,
>(
    node: SplatThenNode5<Prev, S, A, B, C, D, E>,
    world: World<R>,
    input: In,
)
    requires
        node.prev.call_pre(world, input),
        forall|prev: Prev, world_mid: World<R>, mid: (A, B, C, D, E)|
            #[trigger] node.prev.call_post(world, input, prev, world_mid, mid)
                ==> node.step.call_splat_pre(world_mid, mid.0, mid.1, mid.2, mid.3, mid.4),
    ensures
        node.call_pre(world, input),
{
}

/// The step is shown the parts of the tuple, in order, once.
pub proof fn lemma_dag_splat5<
    R,
    In,
    T0,
    T1,
    T2,
    T3,
    T4,
    NewOut,
    Chain: ChainCall<R, In, Out = (T0, T1, T2, T3, T4)>,
    MS: for<'x> MergeStepCall<R, (&'x T0, &'x T1, &'x T2, &'x T3, &'x T4), NewOut>,
>(
    node: dag_splat::SplatThenNode5<Chain, MS, T0, T1, T2, T3, T4, NewOut>,
    world: World<R>,
    input: In,
    after: dag_splat::SplatThenNode5<Chain, MS, T0, T1, T2, T3, T4, NewOut>,
    world_after: World<R>,
    out: NewOut,
)
    requires
        node.call_post(world, input, after, world_after, out),
    ensures
        exists|world_mid: World<R>, mid: (T0, T1, T2, T3, T4)|
            #[trigger] node.chain.call_post(world, input, after.chain, world_mid, mid)
                && node.merge.call_post(
                    world_mid,
                    (&mid.0, &mid.1, &mid.2, &mid.3, &mid.4),
                    after.merge,
                    world_after,
                    out,
                ),
{
}

/// May be called where the chain before it may be, and the step on the parts of whatever that gives.
pub proof fn lemma_dag_splat5_ready<
    R,
    In,
    T0,
    T1,
    T2,
    T3,
    T4,
    NewOut,
    Chain: ChainCall<R, In, Out = (T0, T1, T2, T3, T4)>,
    MS: for<'x> MergeStepCall<R, (&'x T0, &'x T1, &'x T2, &'x T3, &'x T4), NewOut>,
>(
    node: dag_splat::SplatThenNode5<Chain, MS, T0, T1, T2, T3, T4, NewOut>,
    world: World<R>,
    input: In,
)
    requires
        node.chain.call_pre(world, input),
        forall|chain: Chain, world_mid: World<R>, mid: (T0, T1, T2, T3, T4)|
            #[trigger] node.chain.call_post(world, input, chain, world_mid, mid)
                ==> node.merge.call_pre(world_mid, (&mid.0, &mid.1, &mid.2, &mid.3, &mid.4)),
    ensures
        node.call_pre(world, input),
{
}

/// The step at the start of an arm is shown the parts of the tuple, in order, once.
pub proof fn lemma_splat_arm5<
    'inp,
    R,
    T0,
    T1,
    T2,
    T3,
    T4,
    NewOut,
    MS: for<'x> MergeStepCall<R, (&'x T0, &'x T1, &'x T2, &'x T3, &'x T4), NewOut>,
>(
    node: SplatArmStartNode5<MS, T0, T1, T2, T3, T4, NewOut>,
    world: World<R>,
    input: &'inp (T0, T1, T2, T3, T4),
    after: SplatArmStartNode5<MS, T0, T1, T2, T3, T4, NewOut>,
    world_after: World<R>,
    out: NewOut,
)
    ensures
        node.call_pre(world, input) <==> node.merge.call_pre(
            world,
            (&input.0, &input.1, &input.2, &input.3, &input.4),
        ),
        node.call_post(world, input, after, world_after, out) <==> node.merge.call_post(
            world,
            (&input.0, &input.1, &input.2, &input.3, &input.4),
            after.merge,
            world_after,
            out,
        ),
{
}

/// May be called where the chain before the fork may be, if the arms and the merge step may always be.
pub proof fn lemma_merge2_ready<
    R,
    In,
    ForkOut,
    A0,
    A1,
    MOut,
    Chain: ChainCall<R, In, Out = ForkOut>,
    C0: for<'a> ChainCall<R, &'a ForkOut, Out = A0>,
    C1: for<'a> ChainCall<R, &'a ForkOut, Out = A1>,
    MS: for<'x> MergeStepCall<R, (&'x A0, &'x A1), MOut>,
>(
    node: MergeNode2<Chain, C0, C1, MS, ForkOut, A0, A1, MOut>,
    world: World<R>,
    input: In,
)
    requires
        node.chain.call_pre(world, input),
        forall|world_any: World<R>, forked: ForkOut| #[trigger] node.arm0.call_pre(world_any, &forked),
        forall|world_any: World<R>, forked: ForkOut| #[trigger] node.arm1.call_pre(world_any, &forked),
        forall|world_any: World<R>, o0: A0, o1: A1| #[trigger] node.merge.call_pre(world_any, (&o0, &o1)),
    ensures
        node.call_pre(world, input),
{
}

/// May be called where the chain before the fork may be, if the arms may always be.
pub proof fn lemma_join2_ready<
    R,
    In,
    ForkOut,
    Chain: ChainCall<R, In, Out = ForkOut>,
    C0: for<'a> ChainCall<R, &'a ForkOut, Out = ()>,
    C1: for<'a> ChainCall<R, &'a ForkOut, Out = ()>,
>(
    node: JoinNode2<Chain, C0, C1, ForkOut>,
    world: World<R>,
    input: In,
)
    requires
        node.chain.call_pre(world, input),
        forall|world_any: World<R>, forked: ForkOut| #[trigger] node.arm0.call_pre(world_any, &forked),
        forall|world_any: World<R>, forked: ForkOut| #[trigger] node.arm1.call_pre(world_any, &forked),
    ensures
        node.call_pre(world, input),
{
}

/// May be called where the chain before the fork may be, if the arms and the merge step may always be.
pub proof fn lemma_merge3_ready<
    R,
    In,
    ForkOut,
    A0,
    A1,
    A2,
    MOut,
    Chain: ChainCall<R, In, Out = ForkOut>,
    C0: for<'a> ChainCall<R, &'a ForkOut, Out = A0>,
    C1: for<'a> ChainCall<R, &'a ForkOut, Out = A1>,
    C2: for<'a> ChainCall<R, &'a ForkOut, Out = A2>,
    MS: for<'x> MergeStepCall<R, (&'x A0, &'x A1, &'x A2), MOut>,
>(
    node: MergeNode3<Chain, C0, C1, C2, MS, ForkOut, A0, A1, A2, MOut>,
    world: World<R>,
    input: In,
)
    requires
        node.chain.call_pre(world, input),
        forall|world_any: World<R>, forked: ForkOut| #[trigger] node.arm0.call_pre(world_any, &forked),
        forall|world_any: World<R>, forked: ForkOut| #[trigger] node.arm1.call_pre(world_any, &forked),
        forall|world_any: World<R>, forked: ForkOut| #[trigger] node.arm2.call_pre(world_any, &forked),
        forall|world_any: World<R>, o0: A0, o1: A1, o2: A2| #[trigger] node.merge.call_pre(world_any, (&o0, &o1, &o2)),
    ensures
        node.call_pre(world, input),
{
}

/// May be called where the chain before the fork may be, if the arms may always be.
pub proof fn lemma_join3_ready<
    R,
    In,
    ForkOut,
    Chain: ChainCall<R, In, Out = ForkOut>,
    C0: for<'a> ChainCall<R, &'a ForkOut, Out = ()>,
    C1: for<'a> ChainCall<R, &'a ForkOut, Out = ()>,
    C2: for<'a> ChainCall<R, &'a ForkOut, Out = ()>,
>(
    node: JoinNode3<Chain, C0, C1, C2, ForkOut>,
    world: World<R>,
    input: In,
)
    requires
        node.chain.call_pre(world, input),
        forall|world_any: World<R>, forked: ForkOut| #[trigger] node.arm0.call_pre(world_any, &forked),
        forall|world_any: World<R>, forked: ForkOut| #[trigger] node.arm1.call_pre(world_any, &forked),
        forall|world_any: World<R>, forked: ForkOut| #[trigger] node.arm2.call_pre(world_any, &forked),
    ensures
        node.call_pre(world, input),
{
}

/// May be called where the chain before the fork may be, if the arms and the merge step may always be.
pub proof fn lemma_merge4_ready<
    R,
    In,
    ForkOut,
    A0,
    A1,
    A2,
    A3,
    MOut,
    Chain: ChainCall<R, In, Out = ForkOut>,
    C0: for<'a> ChainCall<R, &'a ForkOut, Out = A0>,
    C1: for<'a> ChainCall<R, &'a ForkOut, Out = A1>,
    C2: for<'a> ChainCall<R, &'a ForkOut, Out = A2>,
    C3: for<'a> ChainCall<R, &'a ForkOut, Out = A3>,
    MS: for<'x> MergeStepCall<R, (&'x A0, &'x A1, &'x A2, &'x A3), MOut>,
>(
    node: MergeNode4<Chain, C0, C1, C2, C3, MS, ForkOut, A0, A1, A2, A3, MOut>,
    world: World<R>,
    input: In,
)
    requires
        node.chain.call_pre(world, input),
        forall|world_any: World<R>, forked: ForkOut| #[trigger] node.arm0.call_pre(world_any, &forked),
        forall|world_any: World<R>, forked: ForkOut| #[trigger] node.arm1.call_pre(world_any, &forked),
        forall|world_any: World<R>, forked: ForkOut| #[trigger] node.arm2.call_pre(world_any, &forked),
        forall|world_any: World<R>, forked: ForkOut| #[trigger] node.arm3.call_pre(world_any, &forked),
        forall|world_any: World<R>, o0: A0, o1: A1, o2: A2, o3: A3| #[trigger] node.merge.call_pre(world_any, (&o0, &o1, &o2, &o3)),
    ensures
        node.call_pre(world, input),
{
}

/// May be called where the chain before the fork may be, if the arms may always be.
pub proof fn lemma_join4_ready<
    R,
    In,
    ForkOut,
    Chain: ChainCall<R, In, Out = ForkOut>,
    C0: for<'a> ChainCall<R, &'a ForkOut, Out = ()>,
    C1: for<'a> ChainCall<R, &'a ForkOut, Out = ()>,
    C2: for<'a> ChainCall<R, &'a ForkOut, Out = ()>,
    C3: for<'a> ChainCall<R, &'a ForkOut, Out = ()>,
>(
    node: JoinNode4<Chain, C0, C1, C2, C3, ForkOut>,
    world: World<R>,
    input: In,
)
    requires
        node.chain.call_pre(world, input),
        forall|world_any: World<R>, forked: ForkOut| #[trigger] node.arm0.call_pre(world_any, &forked),
        forall|world_any: World<R>, forked: ForkOut| #[trigger] node.arm1.call_pre(world_any, &forked),
        forall|world_any: World<R>, forked: ForkOut| #[trigger] node.arm2.call_pre(world_any, &forked),
        forall|world_any: World<R>, forked: ForkOut| #[trigger] node.arm3.call_pre(world_any, &forked),
    ensures
        node.call_pre(world, input),
{
}

} // verus!
