//! The nodes that chains with a context are made of.
use crate::ctx_step::{CtxProducerCall, CtxRefStepCall, CtxStepCall};
use crate::world::World;
use std::marker::PhantomData;
use vstd::prelude::*;

verus! {

/// A chain of nodes that is handed a context.
pub trait CtxChainCall<R, C, In>: Sized {
    type Out;

    /// When the chain may be called.
    spec fn call_pre(&self, ctx: C, world: World<R>, input: In) -> bool;

    /// What a call may lead to: the chain itself, the state it was handed, and its result.
    spec fn call_post(
        &self,
        ctx: C,
        world: World<R>,
        input: In,
        after: Self,
        ctx_after: C,
        world_after: World<R>,
        out: Self::Out,
    ) -> bool;

    fn call(&mut self, ctx: &mut C, world: &mut World<R>, input: In) -> (out: Self::Out)
        requires
            old(self).call_pre(*old(ctx), *old(world), input),
        ensures
            old(self).call_post(
                *old(ctx),
                *old(world),
                input,
                *final(self),
                *final(ctx),
                *final(world),
                out,
            ),
    ;
}

/// The start of a chain: hands its input on.
pub struct CtxIdentityNode {}

impl<R, C, In> CtxChainCall<R, C, In> for CtxIdentityNode {
    type Out = In;

    open spec fn call_pre(&self, ctx: C, world: World<R>, input: In) -> bool {
        true
    }

    open spec fn call_post(
        &self,
        ctx: C,
        world: World<R>,
        input: In,
        after: Self,
        ctx_after: C,
        world_after: World<R>,
        out: In,
    ) -> bool {
        ctx_after == ctx && world_after == world && out == input
    }

    fn call(&mut self, ctx: &mut C, world: &mut World<R>, input: In) -> (out: In) {
        input
    }
}

/// Hands the value to a step.
pub struct CtxThenNode<Prev, S> {
    pub prev: Prev,
    pub step: S,
}

impl<R, C, In, T, U, Prev, S> CtxChainCall<R, C, In> for CtxThenNode<Prev, S> where
    Prev: CtxChainCall<R, C, In, Out = T>,
    S: CtxStepCall<R, C, T, Out = U>,
{
    type Out = U;

    open spec fn call_pre(&self, ctx: C, world: World<R>, input: In) -> bool {
        &&& self.prev.call_pre(ctx, world, input)
        &&& forall|prev: Prev, ctx_mid: C, world_mid: World<R>, mid: T|
            #[trigger] self.prev.call_post(ctx, world, input, prev, ctx_mid, world_mid, mid)
                ==> self.step.call_pre(ctx_mid, world_mid, mid)
    }

    open spec fn call_post(
        &self,
        ctx: C,
        world: World<R>,
        input: In,
        after: Self,
        ctx_after: C,
        world_after: World<R>,
        out: U,
    ) -> bool {
        exists|ctx_mid: C, world_mid: World<R>, mid: T|
            #[trigger] self.prev.call_post(ctx, world, input, after.prev, ctx_mid, world_mid, mid)
                && self.step.call_post(
                    ctx_mid,
                    world_mid,
                    mid,
                    after.step,
                    ctx_after,
                    world_after,
                    out,
                )
    }

    fn call(&mut self, ctx: &mut C, world: &mut World<R>, input: In) -> (out: U) {
        let mid = self.prev.call(ctx, world, input);
        let ghost ctx_mid = *ctx;
        let ghost world_mid = *world;
        let out = self.step.call(ctx, world, mid);
        assert(old(self).prev.call_post(
            *old(ctx),
            *old(world),
            input,
            self.prev,
            ctx_mid,
            world_mid,
            mid,
        ));
        out
    }
}

/// Shows the value to a step and hands it on.
pub struct CtxTapNode<Prev, S> {
    pub prev: Prev,
    pub step: S,
}

impl<R, C, In, T, Prev, S> CtxChainCall<R, C, In> for CtxTapNode<Prev, S> where
    Prev: CtxChainCall<R, C, In, Out = T>,
    S: CtxRefStepCall<R, C, T, Out = ()>,
{
    type Out = T;

    open spec fn call_pre(&self, ctx: C, world: World<R>, input: In) -> bool {
        &&& self.prev.call_pre(ctx, world, input)
        &&& forall|prev: Prev, ctx_mid: C, world_mid: World<R>, mid: T|
            #[trigger] self.prev.call_post(ctx, world, input, prev, ctx_mid, world_mid, mid)
                ==> self.step.call_pre(ctx_mid, world_mid, &mid)
    }

    open spec fn call_post(
        &self,
        ctx: C,
        world: World<R>,
        input: In,
        after: Self,
        ctx_after: C,
        world_after: World<R>,
        out: T,
    ) -> bool {
        exists|ctx_mid: C, world_mid: World<R>, mid: T|
            #[trigger] self.prev.call_post(ctx, world, input, after.prev, ctx_mid, world_mid, mid)
                && (self.step.call_post(
                    ctx_mid,
                    world_mid,
                    &mid,
                    after.step,
                    ctx_after,
                    world_after,
                    (),
                ) && out == mid)
    }

    fn call(&mut self, ctx: &mut C, world: &mut World<R>, input: In) -> (out: T) {
        let mid = self.prev.call(ctx, world, input);
        let ghost ctx_mid = *ctx;
        let ghost world_mid = *world;
        let out = {
            self.step.call(ctx, world, &mid);
            mid
        };
        assert(old(self).prev.call_post(
            *old(ctx),
            *old(world),
            input,
            self.prev,
            ctx_mid,
            world_mid,
            mid,
        ));
        out
    }
}

/// Keeps the value if a predicate holds of it.
pub struct CtxGuardNode<Prev, S> {
    pub prev: Prev,
    pub step: S,
}

impl<R, C, In, T, Prev, S> CtxChainCall<R, C, In> for CtxGuardNode<Prev, S> where
    Prev: CtxChainCall<R, C, In, Out = T>,
    S: CtxRefStepCall<R, C, T, Out = bool>,
{
    type Out = Option<T>;

    open spec fn call_pre(&self, ctx: C, world: World<R>, input: In) -> bool {
        &&& self.prev.call_pre(ctx, world, input)
        &&& forall|prev: Prev, ctx_mid: C, world_mid: World<R>, mid: T|
            #[trigger] self.prev.call_post(ctx, world, input, prev, ctx_mid, world_mid, mid)
                ==> self.step.call_pre(ctx_mid, world_mid, &mid)
    }

    open spec fn call_post(
        &self,
        ctx: C,
        world: World<R>,
        input: In,
        after: Self,
        ctx_after: C,
        world_after: World<R>,
        out: Option<T>,
    ) -> bool {
        exists|ctx_mid: C, world_mid: World<R>, mid: T|
            #[trigger] self.prev.call_post(ctx, world, input, after.prev, ctx_mid, world_mid, mid)
                && exists|res: bool|
                    #[trigger] self.step.call_post(
                        ctx_mid,
                        world_mid,
                        &mid,
                        after.step,
                        ctx_after,
                        world_after,
                        res,
                    )
                        && out == (if res { Some(mid) } else { None::<T> })
    }

    fn call(&mut self, ctx: &mut C, world: &mut World<R>, input: In) -> (out: Option<T>) {
        let mid = self.prev.call(ctx, world, input);
        let ghost ctx_mid = *ctx;
        let ghost world_mid = *world;
        let out = {
            let res = self.step.call(ctx, world, &mid);
            assert(old(self).step.call_post(
                ctx_mid,
                world_mid,
                &mid,
                self.step,
                *ctx,
                *world,
                res,
            ));
            if res {
                Some(mid)
            } else {
                None
            }
        };
        assert(old(self).prev.call_post(
            *old(ctx),
            *old(world),
            input,
            self.prev,
            ctx_mid,
            world_mid,
            mid,
        ));
        out
    }
}

/// Hands the value inside `Some` to a step.
pub struct CtxMapOptionNode<Prev, S, T> {
    pub prev: Prev,
    pub step: S,
    pub marker: PhantomData<T>,
}

impl<R, C, In, T, U, Prev, S> CtxChainCall<R, C, In> for CtxMapOptionNode<Prev, S, T> where
    Prev: CtxChainCall<R, C, In, Out = Option<T>>,
    S: CtxStepCall<R, C, T, Out = U>,
{
    type Out = Option<U>;

    open spec fn call_pre(&self, ctx: C, world: World<R>, input: In) -> bool {
        &&& self.prev.call_pre(ctx, world, input)
        &&& forall|prev: Prev, ctx_mid: C, world_mid: World<R>, mid: Option<T>|
            #[trigger] self.prev.call_post(ctx, world, input, prev, ctx_mid, world_mid, mid)
                ==> match mid {
            Some(val) => self.step.call_pre(ctx_mid, world_mid, val),
            None => true,
        }
    }

    open spec fn call_post(
        &self,
        ctx: C,
        world: World<R>,
        input: In,
        after: Self,
        ctx_after: C,
        world_after: World<R>,
        out: Option<U>,
    ) -> bool {
        exists|ctx_mid: C, world_mid: World<R>, mid: Option<T>|
            #[trigger] self.prev.call_post(ctx, world, input, after.prev, ctx_mid, world_mid, mid)
                && match mid {
            Some(val) => exists|res: U|
                #[trigger] self.step.call_post(
                    ctx_mid,
                    world_mid,
                    val,
                    after.step,
                    ctx_after,
                    world_after,
                    res,
                )
                    && out == Some(res),
            None => after.step == self.step
                && ctx_after == ctx_mid
                && world_after == world_mid
                && out == None::<U>,
        }
    }

    fn call(&mut self, ctx: &mut C, world: &mut World<R>, input: In) -> (out: Option<U>) {
        let mid = self.prev.call(ctx, world, input);
        let ghost ctx_mid = *ctx;
        let ghost world_mid = *world;
        let out = match mid {
            Some(val) => {
                let res = self.step.call(ctx, world, val);
                assert(old(self).step.call_post(
                    ctx_mid,
                    world_mid,
                    val,
                    self.step,
                    *ctx,
                    *world,
                    res,
                ));
                Some(res)
            },
            None => None,
        };
        assert(old(self).prev.call_post(
            *old(ctx),
            *old(world),
            input,
            self.prev,
            ctx_mid,
            world_mid,
            mid,
        ));
        out
    }
}

/// Hands the value inside `Some` to a step that may itself give `None`.
pub struct CtxAndThenNode<Prev, S, T, U> {
    pub prev: Prev,
    pub step: S,
    pub marker: PhantomData<(T, U)>,
}

impl<R, C, In, T, U, Prev, S> CtxChainCall<R, C, In> for CtxAndThenNode<Prev, S, T, U> where
    Prev: CtxChainCall<R, C, In, Out = Option<T>>,
    S: CtxStepCall<R, C, T, Out = Option<U>>,
{
    type Out = Option<U>;

    open spec fn call_pre(&self, ctx: C, world: World<R>, input: In) -> bool {
        &&& self.prev.call_pre(ctx, world, input)
        &&& forall|prev: Prev, ctx_mid: C, world_mid: World<R>, mid: Option<T>|
            #[trigger] self.prev.call_post(ctx, world, input, prev, ctx_mid, world_mid, mid)
                ==> match mid {
            Some(val) => self.step.call_pre(ctx_mid, world_mid, val),
            None => true,
        }
    }

    open spec fn call_post(
        &self,
        ctx: C,
        world: World<R>,
        input: In,
        after: Self,
        ctx_after: C,
        world_after: World<R>,
        out: Option<U>,
    ) -> bool {
        exists|ctx_mid: C, world_mid: World<R>, mid: Option<T>|
            #[trigger] self.prev.call_post(ctx, world, input, after.prev, ctx_mid, world_mid, mid)
                && match mid {
            Some(val) => self.step.call_post(
                ctx_mid,
                world_mid,
                val,
                after.step,
                ctx_after,
                world_after,
                out,
            ),
            None => after.step == self.step
                && ctx_after == ctx_mid
                && world_after == world_mid
                && out == None::<U>,
        }
    }

    fn call(&mut self, ctx: &mut C, world: &mut World<R>, input: In) -> (out: Option<U>) {
        let mid = self.prev.call(ctx, world, input);
        let ghost ctx_mid = *ctx;
        let ghost world_mid = *world;
        let out = match mid {
            Some(val) => self.step.call(ctx, world, val),
            None => None,
        };
        assert(old(self).prev.call_post(
            *old(ctx),
            *old(world),
            input,
            self.prev,
            ctx_mid,
            world_mid,
            mid,
        ));
        out
    }
}

/// Keeps the value inside `Some` if a predicate holds of it.
pub struct CtxFilterNode<Prev, S, T> {
    pub prev: Prev,
    pub step: S,
    pub marker: PhantomData<T>,
}

impl<R, C, In, T, Prev, S> CtxChainCall<R, C, In> for CtxFilterNode<Prev, S, T> where
    Prev: CtxChainCall<R, C, In, Out = Option<T>>,
    S: CtxRefStepCall<R, C, T, Out = bool>,
{
    type Out = Option<T>;

    open spec fn call_pre(&self, ctx: C, world: World<R>, input: In) -> bool {
        &&& self.prev.call_pre(ctx, world, input)
        &&& forall|prev: Prev, ctx_mid: C, world_mid: World<R>, mid: Option<T>|
            #[trigger] self.prev.call_post(ctx, world, input, prev, ctx_mid, world_mid, mid)
                ==> match mid {
            Some(val) => self.step.call_pre(ctx_mid, world_mid, &val),
            None => true,
        }
    }

    open spec fn call_post(
        &self,
        ctx: C,
        world: World<R>,
        input: In,
        after: Self,
        ctx_after: C,
        world_after: World<R>,
        out: Option<T>,
    ) -> bool {
        exists|ctx_mid: C, world_mid: World<R>, mid: Option<T>|
            #[trigger] self.prev.call_post(ctx, world, input, after.prev, ctx_mid, world_mid, mid)
                && match mid {
            Some(val) => exists|res: bool|
                #[trigger] self.step.call_post(
                    ctx_mid,
                    world_mid,
                    &val,
                    after.step,
                    ctx_after,
                    world_after,
                    res,
                )
                    && out == (if res { Some(val) } else { None::<T> }),
            None => after.step == self.step
                && ctx_after == ctx_mid
                && world_after == world_mid
                && out == None::<T>,
        }
    }

    fn call(&mut self, ctx: &mut C, world: &mut World<R>, input: In) -> (out: Option<T>) {
        let mid = self.prev.call(ctx, world, input);
        let ghost ctx_mid = *ctx;
        let ghost world_mid = *world;
        let out = match mid {
            Some(val) => {
                let res = self.step.call(ctx, world, &val);
                assert(old(self).step.call_post(
                    ctx_mid,
                    world_mid,
                    &val,
                    self.step,
                    *ctx,
                    *world,
                    res,
                ));
                if res { Some(val) } else { None }
            },
            None => None,
        };
        assert(old(self).prev.call_post(
            *old(ctx),
            *old(world),
            input,
            self.prev,
            ctx_mid,
            world_mid,
            mid,
        ));
        out
    }
}

/// Shows the value inside `Some` to a step.
pub struct CtxInspectOptionNode<Prev, S, T> {
    pub prev: Prev,
    pub step: S,
    pub marker: PhantomData<T>,
}

impl<R, C, In, T, Prev, S> CtxChainCall<R, C, In> for CtxInspectOptionNode<Prev, S, T> where
    Prev: CtxChainCall<R, C, In, Out = Option<T>>,
    S: CtxRefStepCall<R, C, T, Out = ()>,
{
    type Out = Option<T>;

    open spec fn call_pre(&self, ctx: C, world: World<R>, input: In) -> bool {
        &&& self.prev.call_pre(ctx, world, input)
        &&& forall|prev: Prev, ctx_mid: C, world_mid: World<R>, mid: Option<T>|
            #[trigger] self.prev.call_post(ctx, world, input, prev, ctx_mid, world_mid, mid)
                ==> match mid {
            Some(val) => self.step.call_pre(ctx_mid, world_mid, &val),
            None => true,
        }
    }

    open spec fn call_post(
        &self,
        ctx: C,
        world: World<R>,
        input: In,
        after: Self,
        ctx_after: C,
        world_after: World<R>,
        out: Option<T>,
    ) -> bool {
        exists|ctx_mid: C, world_mid: World<R>, mid: Option<T>|
            #[trigger] self.prev.call_post(ctx, world, input, after.prev, ctx_mid, world_mid, mid)
                && match mid {
            Some(val) => self.step.call_post(
                ctx_mid,
                world_mid,
                &val,
                after.step,
                ctx_after,
                world_after,
                (),
            )
                && out == Some(val),
            None => after.step == self.step
                && ctx_after == ctx_mid
                && world_after == world_mid
                && out == None::<T>,
        }
    }

    fn call(&mut self, ctx: &mut C, world: &mut World<R>, input: In) -> (out: Option<T>) {
        let mid = self.prev.call(ctx, world, input);
        let ghost ctx_mid = *ctx;
        let ghost world_mid = *world;
        let out = match mid {
            Some(val) => {
                self.step.call(ctx, world, &val);
                Some(val)
            },
            None => None,
        };
        assert(old(self).prev.call_post(
            *old(ctx),
            *old(world),
            input,
            self.prev,
            ctx_mid,
            world_mid,
            mid,
        ));
        out
    }
}

/// Calls a producer on `None`.
pub struct CtxOnNoneNode<Prev, S, T> {
    pub prev: Prev,
    pub producer: S,
    pub marker: PhantomData<T>,
}

impl<R, C, In, T, Prev, S> CtxChainCall<R, C, In> for CtxOnNoneNode<Prev, S, T> where
    Prev: CtxChainCall<R, C, In, Out = Option<T>>,
    S: CtxProducerCall<R, C, Out = ()>,
{
    type Out = Option<T>;

    open spec fn call_pre(&self, ctx: C, world: World<R>, input: In) -> bool {
        &&& self.prev.call_pre(ctx, world, input)
        &&& forall|prev: Prev, ctx_mid: C, world_mid: World<R>, mid: Option<T>|
            #[trigger] self.prev.call_post(ctx, world, input, prev, ctx_mid, world_mid, mid)
                ==> match mid {
            Some(val) => true,
            None => self.producer.call_pre(ctx_mid, world_mid),
        }
    }

    open spec fn call_post(
        &self,
        ctx: C,
        world: World<R>,
        input: In,
        after: Self,
        ctx_after: C,
        world_after: World<R>,
        out: Option<T>,
    ) -> bool {
        exists|ctx_mid: C, world_mid: World<R>, mid: Option<T>|
            #[trigger] self.prev.call_post(ctx, world, input, after.prev, ctx_mid, world_mid, mid)
                && match mid {
            Some(val) => after.producer == self.producer
                && ctx_after == ctx_mid
                && world_after == world_mid
                && out == Some(val),
            None => self.producer.call_post(
                ctx_mid,
                world_mid,
                after.producer,
                ctx_after,
                world_after,
                (),
            )
                && out == None::<T>,
        }
    }

    fn call(&mut self, ctx: &mut C, world: &mut World<R>, input: In) -> (out: Option<T>) {
        let mid = self.prev.call(ctx, world, input);
        let ghost ctx_mid = *ctx;
        let ghost world_mid = *world;
        let out = match mid {
            Some(val) => Some(val),
            None => {
                self.producer.call(ctx, world);
                None
            },
        };
        assert(old(self).prev.call_post(
            *old(ctx),
            *old(world),
            input,
            self.prev,
            ctx_mid,
            world_mid,
            mid,
        ));
        out
    }
}

/// Replaces `None` by what a producer makes.
pub struct CtxUnwrapOrElseOptionNode<Prev, S, T> {
    pub prev: Prev,
    pub producer: S,
    pub marker: PhantomData<T>,
}

impl<R, C, In, T, Prev, S> CtxChainCall<R, C, In> for CtxUnwrapOrElseOptionNode<Prev, S, T> where
    Prev: CtxChainCall<R, C, In, Out = Option<T>>,
    S: CtxProducerCall<R, C, Out = T>,
{
    type Out = T;

    open spec fn call_pre(&self, ctx: C, world: World<R>, input: In) -> bool {
        &&& self.prev.call_pre(ctx, world, input)
        &&& forall|prev: Prev, ctx_mid: C, world_mid: World<R>, mid: Option<T>|
            #[trigger] self.prev.call_post(ctx, world, input, prev, ctx_mid, world_mid, mid)
                ==> match mid {
            Some(val) => true,
            None => self.producer.call_pre(ctx_mid, world_mid),
        }
    }

    open spec fn call_post(
        &self,
        ctx: C,
        world: World<R>,
        input: In,
        after: Self,
        ctx_after: C,
        world_after: World<R>,
        out: T,
    ) -> bool {
        exists|ctx_mid: C, world_mid: World<R>, mid: Option<T>|
            #[trigger] self.prev.call_post(ctx, world, input, after.prev, ctx_mid, world_mid, mid)
                && match mid {
            Some(val) => after.producer == self.producer
                && ctx_after == ctx_mid
                && world_after == world_mid
                && out == val,
            None => self.producer.call_post(
                ctx_mid,
                world_mid,
                after.producer,
                ctx_after,
                world_after,
                out,
            ),
        }
    }

    fn call(&mut self, ctx: &mut C, world: &mut World<R>, input: In) -> (out: T) {
        let mid = self.prev.call(ctx, world, input);
        let ghost ctx_mid = *ctx;
        let ghost world_mid = *world;
        let out = match mid {
            Some(val) => val,
            None => self.producer.call(ctx, world),
        };
        assert(old(self).prev.call_post(
            *old(ctx),
            *old(world),
            input,
            self.prev,
            ctx_mid,
            world_mid,
            mid,
        ));
        out
    }
}

/// Hands the value inside `Ok` to a step.
pub struct CtxMapResultNode<Prev, S, T, E> {
    pub prev: Prev,
    pub step: S,
    pub marker: PhantomData<(T, E)>,
}

impl<R, C, In, T, U, E, Prev, S> CtxChainCall<R, C, In> for CtxMapResultNode<Prev, S, T, E> where
    Prev: CtxChainCall<R, C, In, Out = Result<T, E>>,
    S: CtxStepCall<R, C, T, Out = U>,
{
    type Out = Result<U, E>;

    open spec fn call_pre(&self, ctx: C, world: World<R>, input: In) -> bool {
        &&& self.prev.call_pre(ctx, world, input)
        &&& forall|prev: Prev, ctx_mid: C, world_mid: World<R>, mid: Result<T, E>|
            #[trigger] self.prev.call_post(ctx, world, input, prev, ctx_mid, world_mid, mid)
                ==> match mid {
            Ok(val) => self.step.call_pre(ctx_mid, world_mid, val),
            Err(e) => true,
        }
    }

    open spec fn call_post(
        &self,
        ctx: C,
        world: World<R>,
        input: In,
        after: Self,
        ctx_after: C,
        world_after: World<R>,
        out: Result<U, E>,
    ) -> bool {
        exists|ctx_mid: C, world_mid: World<R>, mid: Result<T, E>|
            #[trigger] self.prev.call_post(ctx, world, input, after.prev, ctx_mid, world_mid, mid)
                && match mid {
            Ok(val) => exists|res: U|
                #[trigger] self.step.call_post(
                    ctx_mid,
                    world_mid,
                    val,
                    after.step,
                    ctx_after,
                    world_after,
                    res,
                )
                    && out == Ok::<U, E>(res),
            Err(e) => after.step == self.step
                && ctx_after == ctx_mid
                && world_after == world_mid
                && out == Err::<U, E>(e),
        }
    }

    fn call(&mut self, ctx: &mut C, world: &mut World<R>, input: In) -> (out: Result<U, E>) {
        let mid = self.prev.call(ctx, world, input);
        let ghost ctx_mid = *ctx;
        let ghost world_mid = *world;
        let out = match mid {
            Ok(val) => {
                let res = self.step.call(ctx, world, val);
                assert(old(self).step.call_post(
                    ctx_mid,
                    world_mid,
                    val,
                    self.step,
                    *ctx,
                    *world,
                    res,
                ));
                Ok(res)
            },
            Err(e) => Err(e),
        };
        assert(old(self).prev.call_post(
            *old(ctx),
            *old(world),
            input,
            self.prev,
            ctx_mid,
            world_mid,
            mid,
        ));
        out
    }
}

/// Hands the value inside `Ok` to a step that may itself fail.
pub struct CtxAndThenResultNode<Prev, S, T, E, U> {
    pub prev: Prev,
    pub step: S,
    pub marker: PhantomData<(T, E, U)>,
}

impl<
    R,
    C,
    In,
    T,
    U,
    E,
    Prev,
    S,
> CtxChainCall<R, C, In> for CtxAndThenResultNode<Prev, S, T, E, U> where
    Prev: CtxChainCall<R, C, In, Out = Result<T, E>>,
    S: CtxStepCall<R, C, T, Out = Result<U, E>>,
{
    type Out = Result<U, E>;

    open spec fn call_pre(&self, ctx: C, world: World<R>, input: In) -> bool {
        &&& self.prev.call_pre(ctx, world, input)
        &&& forall|prev: Prev, ctx_mid: C, world_mid: World<R>, mid: Result<T, E>|
            #[trigger] self.prev.call_post(ctx, world, input, prev, ctx_mid, world_mid, mid)
                ==> match mid {
            Ok(val) => self.step.call_pre(ctx_mid, world_mid, val),
            Err(e) => true,
        }
    }

    open spec fn call_post(
        &self,
        ctx: C,
        world: World<R>,
        input: In,
        after: Self,
        ctx_after: C,
        world_after: World<R>,
        out: Result<U, E>,
    ) -> bool {
        exists|ctx_mid: C, world_mid: World<R>, mid: Result<T, E>|
            #[trigger] self.prev.call_post(ctx, world, input, after.prev, ctx_mid, world_mid, mid)
                && match mid {
            Ok(val) => self.step.call_post(
                ctx_mid,
                world_mid,
                val,
                after.step,
                ctx_after,
                world_after,
                out,
            ),
            Err(e) => after.step == self.step
                && ctx_after == ctx_mid
                && world_after == world_mid
                && out == Err::<U, E>(e),
        }
    }

    fn call(&mut self, ctx: &mut C, world: &mut World<R>, input: In) -> (out: Result<U, E>) {
        let mid = self.prev.call(ctx, world, input);
        let ghost ctx_mid = *ctx;
        let ghost world_mid = *world;
        let out = match mid {
            Ok(val) => self.step.call(ctx, world, val),
            Err(e) => Err(e),
        };
        assert(old(self).prev.call_post(
            *old(ctx),
            *old(world),
            input,
            self.prev,
            ctx_mid,
            world_mid,
            mid,
        ));
        out
    }
}

/// Hands the error to a step and drops it.
pub struct CtxCatchNode<Prev, S, T, E> {
    pub prev: Prev,
    pub step: S,
    pub marker: PhantomData<(T, E)>,
}

impl<R, C, In, T, E, Prev, S> CtxChainCall<R, C, In> for CtxCatchNode<Prev, S, T, E> where
    Prev: CtxChainCall<R, C, In, Out = Result<T, E>>,
    S: CtxStepCall<R, C, E, Out = ()>,
{
    type Out = Option<T>;

    open spec fn call_pre(&self, ctx: C, world: World<R>, input: In) -> bool {
        &&& self.prev.call_pre(ctx, world, input)
        &&& forall|prev: Prev, ctx_mid: C, world_mid: World<R>, mid: Result<T, E>|
            #[trigger] self.prev.call_post(ctx, world, input, prev, ctx_mid, world_mid, mid)
                ==> match mid {
            Ok(val) => true,
            Err(e) => self.step.call_pre(ctx_mid, world_mid, e),
        }
    }

    open spec fn call_post(
        &self,
        ctx: C,
        world: World<R>,
        input: In,
        after: Self,
        ctx_after: C,
        world_after: World<R>,
        out: Option<T>,
    ) -> bool {
        exists|ctx_mid: C, world_mid: World<R>, mid: Result<T, E>|
            #[trigger] self.prev.call_post(ctx, world, input, after.prev, ctx_mid, world_mid, mid)
                && match mid {
            Ok(val) => after.step == self.step
                && ctx_after == ctx_mid
                && world_after == world_mid
                && out == Some(val),
            Err(e) => self.step.call_post(
                ctx_mid,
                world_mid,
                e,
                after.step,
                ctx_after,
                world_after,
                (),
            )
                && out == None::<T>,
        }
    }

    fn call(&mut self, ctx: &mut C, world: &mut World<R>, input: In) -> (out: Option<T>) {
        let mid = self.prev.call(ctx, world, input);
        let ghost ctx_mid = *ctx;
        let ghost world_mid = *world;
        let out = match mid {
            Ok(val) => Some(val),
            Err(e) => {
                self.step.call(ctx, world, e);
                None
            },
        };
        assert(old(self).prev.call_post(
            *old(ctx),
            *old(world),
            input,
            self.prev,
            ctx_mid,
            world_mid,
            mid,
        ));
        out
    }
}

/// Hands the error to a step that gives another.
pub struct CtxMapErrNode<Prev, S, T, E> {
    pub prev: Prev,
    pub step: S,
    pub marker: PhantomData<(T, E)>,
}

impl<R, C, In, T, E, E2, Prev, S> CtxChainCall<R, C, In> for CtxMapErrNode<Prev, S, T, E> where
    Prev: CtxChainCall<R, C, In, Out = Result<T, E>>,
    S: CtxStepCall<R, C, E, Out = E2>,
{
    type Out = Result<T, E2>;

    open spec fn call_pre(&self, ctx: C, world: World<R>, input: In) -> bool {
        &&& self.prev.call_pre(ctx, world, input)
        &&& forall|prev: Prev, ctx_mid: C, world_mid: World<R>, mid: Result<T, E>|
            #[trigger] self.prev.call_post(ctx, world, input, prev, ctx_mid, world_mid, mid)
                ==> match mid {
            Ok(val) => true,
            Err(e) => self.step.call_pre(ctx_mid, world_mid, e),
        }
    }

    open spec fn call_post(
        &self,
        ctx: C,
        world: World<R>,
        input: In,
        after: Self,
        ctx_after: C,
        world_after: World<R>,
        out: Result<T, E2>,
    ) -> bool {
        exists|ctx_mid: C, world_mid: World<R>, mid: Result<T, E>|
            #[trigger] self.prev.call_post(ctx, world, input, after.prev, ctx_mid, world_mid, mid)
                && match mid {
            Ok(val) => after.step == self.step
                && ctx_after == ctx_mid
                && world_after == world_mid
                && out == Ok::<T, E2>(val),
            Err(e) => exists|res: E2|
                #[trigger] self.step.call_post(
                    ctx_mid,
                    world_mid,
                    e,
                    after.step,
                    ctx_after,
                    world_after,
                    res,
                )
                    && out == Err::<T, E2>(res),
        }
    }

    fn call(&mut self, ctx: &mut C, world: &mut World<R>, input: In) -> (out: Result<T, E2>) {
        let mid = self.prev.call(ctx, world, input);
        let ghost ctx_mid = *ctx;
        let ghost world_mid = *world;
        let out = match mid {
            Ok(val) => Ok(val),
            Err(e) => {
                let res = self.step.call(ctx, world, e);
                assert(old(self).step.call_post(
                    ctx_mid,
                    world_mid,
                    e,
                    self.step,
                    *ctx,
                    *world,
                    res,
                ));
                Err(res)
            },
        };
        assert(old(self).prev.call_post(
            *old(ctx),
            *old(world),
            input,
            self.prev,
            ctx_mid,
            world_mid,
            mid,
        ));
        out
    }
}

/// Shows the error to a step.
pub struct CtxInspectErrNode<Prev, S, T, E> {
    pub prev: Prev,
    pub step: S,
    pub marker: PhantomData<(T, E)>,
}

impl<R, C, In, T, E, Prev, S> CtxChainCall<R, C, In> for CtxInspectErrNode<Prev, S, T, E> where
    Prev: CtxChainCall<R, C, In, Out = Result<T, E>>,
    S: CtxRefStepCall<R, C, E, Out = ()>,
{
    type Out = Result<T, E>;

    open spec fn call_pre(&self, ctx: C, world: World<R>, input: In) -> bool {
        &&& self.prev.call_pre(ctx, world, input)
        &&& forall|prev: Prev, ctx_mid: C, world_mid: World<R>, mid: Result<T, E>|
            #[trigger] self.prev.call_post(ctx, world, input, prev, ctx_mid, world_mid, mid)
                ==> match mid {
            Ok(val) => true,
            Err(e) => self.step.call_pre(ctx_mid, world_mid, &e),
        }
    }

    open spec fn call_post(
        &self,
        ctx: C,
        world: World<R>,
        input: In,
        after: Self,
        ctx_after: C,
        world_after: World<R>,
        out: Result<T, E>,
    ) -> bool {
        exists|ctx_mid: C, world_mid: World<R>, mid: Result<T, E>|
            #[trigger] self.prev.call_post(ctx, world, input, after.prev, ctx_mid, world_mid, mid)
                && match mid {
            Ok(val) => after.step == self.step
                && ctx_after == ctx_mid
                && world_after == world_mid
                && out == Ok::<T, E>(val),
            Err(e) => self.step.call_post(
                ctx_mid,
                world_mid,
                &e,
                after.step,
                ctx_after,
                world_after,
                (),
            )
                && out == Err::<T, E>(e),
        }
    }

    fn call(&mut self, ctx: &mut C, world: &mut World<R>, input: In) -> (out: Result<T, E>) {
        let mid = self.prev.call(ctx, world, input);
        let ghost ctx_mid = *ctx;
        let ghost world_mid = *world;
        let out = match mid {
            Ok(val) => Ok(val),
            Err(e) => {
                self.step.call(ctx, world, &e);
                Err(e)
            },
        };
        assert(old(self).prev.call_post(
            *old(ctx),
            *old(world),
            input,
            self.prev,
            ctx_mid,
            world_mid,
            mid,
        ));
        out
    }
}

/// Shows the value inside `Ok` to a step.
pub struct CtxInspectResultNode<Prev, S, T, E> {
    pub prev: Prev,
    pub step: S,
    pub marker: PhantomData<(T, E)>,
}

impl<R, C, In, T, E, Prev, S> CtxChainCall<R, C, In> for CtxInspectResultNode<Prev, S, T, E> where
    Prev: CtxChainCall<R, C, In, Out = Result<T, E>>,
    S: CtxRefStepCall<R, C, T, Out = ()>,
{
    type Out = Result<T, E>;

    open spec fn call_pre(&self, ctx: C, world: World<R>, input: In) -> bool {
        &&& self.prev.call_pre(ctx, world, input)
        &&& forall|prev: Prev, ctx_mid: C, world_mid: World<R>, mid: Result<T, E>|
            #[trigger] self.prev.call_post(ctx, world, input, prev, ctx_mid, world_mid, mid)
                ==> match mid {
            Ok(val) => self.step.call_pre(ctx_mid, world_mid, &val),
            Err(e) => true,
        }
    }

    open spec fn call_post(
        &self,
        ctx: C,
        world: World<R>,
        input: In,
        after: Self,
        ctx_after: C,
        world_after: World<R>,
        out: Result<T, E>,
    ) -> bool {
        exists|ctx_mid: C, world_mid: World<R>, mid: Result<T, E>|
            #[trigger] self.prev.call_post(ctx, world, input, after.prev, ctx_mid, world_mid, mid)
                && match mid {
            Ok(val) => self.step.call_post(
                ctx_mid,
                world_mid,
                &val,
                after.step,
                ctx_after,
                world_after,
                (),
            )
                && out == Ok::<T, E>(val),
            Err(e) => after.step == self.step
                && ctx_after == ctx_mid
                && world_after == world_mid
                && out == Err::<T, E>(e),
        }
    }

    fn call(&mut self, ctx: &mut C, world: &mut World<R>, input: In) -> (out: Result<T, E>) {
        let mid = self.prev.call(ctx, world, input);
        let ghost ctx_mid = *ctx;
        let ghost world_mid = *world;
        let out = match mid {
            Ok(val) => {
                self.step.call(ctx, world, &val);
                Ok(val)
            },
            Err(e) => Err(e),
        };
        assert(old(self).prev.call_post(
            *old(ctx),
            *old(world),
            input,
            self.prev,
            ctx_mid,
            world_mid,
            mid,
        ));
        out
    }
}

/// Drops an `Option<()>`.
pub struct CtxDiscardOptionNode<Prev> {
    pub prev: Prev,
}

impl<R, C, In, Prev> CtxChainCall<R, C, In> for CtxDiscardOptionNode<Prev> where
    Prev: CtxChainCall<R, C, In, Out = Option<()>>,
{
    type Out = ();

    open spec fn call_pre(&self, ctx: C, world: World<R>, input: In) -> bool {
        self.prev.call_pre(ctx, world, input)
    }

    open spec fn call_post(
        &self,
        ctx: C,
        world: World<R>,
        input: In,
        after: Self,
        ctx_after: C,
        world_after: World<R>,
        out: (),
    ) -> bool {
        exists|ctx_mid: C, world_mid: World<R>, mid: Option<()>|
            #[trigger] self.prev.call_post(ctx, world, input, after.prev, ctx_mid, world_mid, mid)
                && match mid {
            Some(_) => ctx_after == ctx_mid && world_after == world_mid && out == (),
            None => ctx_after == ctx_mid && world_after == world_mid && out == (),
        }
    }

    fn call(&mut self, ctx: &mut C, world: &mut World<R>, input: In) -> (out: ()) {
        let mid = self.prev.call(ctx, world, input);
        let ghost ctx_mid = *ctx;
        let ghost world_mid = *world;
        let out = match mid {
            Some(_) => (),
            None => (),
        };
        assert(old(self).prev.call_post(
            *old(ctx),
            *old(world),
            input,
            self.prev,
            ctx_mid,
            world_mid,
            mid,
        ));
        out
    }
}

/// Turns `None` into an error.
pub struct CtxOkOrNode<Prev, E, T> {
    pub prev: Prev,
    pub err: E,
    pub marker: PhantomData<T>,
}

impl<R, C, In, T, E: Clone, Prev> CtxChainCall<R, C, In> for CtxOkOrNode<Prev, E, T> where
    Prev: CtxChainCall<R, C, In, Out = Option<T>>,
{
    type Out = Result<T, E>;

    open spec fn call_pre(&self, ctx: C, world: World<R>, input: In) -> bool {
        self.prev.call_pre(ctx, world, input)
    }

    open spec fn call_post(
        &self,
        ctx: C,
        world: World<R>,
        input: In,
        after: Self,
        ctx_after: C,
        world_after: World<R>,
        out: Result<T, E>,
    ) -> bool {
        exists|ctx_mid: C, world_mid: World<R>, mid: Option<T>|
            #[trigger] self.prev.call_post(ctx, world, input, after.prev, ctx_mid, world_mid, mid)
                && match mid {
            Some(val) => after.err == self.err
                && ctx_after == ctx_mid
                && world_after == world_mid
                && out == Ok::<T, E>(val),
            None => after.err == self.err
                && ctx_after == ctx_mid
                && world_after == world_mid
                && out is Err
                && cloned(self.err, out->Err_0),
        }
    }

    fn call(&mut self, ctx: &mut C, world: &mut World<R>, input: In) -> (out: Result<T, E>) {
        let mid = self.prev.call(ctx, world, input);
        let ghost ctx_mid = *ctx;
        let ghost world_mid = *world;
        let out = match mid {
            Some(val) => Ok(val),
            None => Err(self.err.clone()),
        };
        assert(old(self).prev.call_post(
            *old(ctx),
            *old(world),
            input,
            self.prev,
            ctx_mid,
            world_mid,
            mid,
        ));
        out
    }
}

/// Replaces `None` by a default.
pub struct CtxUnwrapOrOptionNode<Prev, T> {
    pub prev: Prev,
    pub default: T,
}

impl<R, C, In, T: Clone, Prev> CtxChainCall<R, C, In> for CtxUnwrapOrOptionNode<Prev, T> where
    Prev: CtxChainCall<R, C, In, Out = Option<T>>,
{
    type Out = T;

    open spec fn call_pre(&self, ctx: C, world: World<R>, input: In) -> bool {
        self.prev.call_pre(ctx, world, input)
    }

    open spec fn call_post(
        &self,
        ctx: C,
        world: World<R>,
        input: In,
        after: Self,
        ctx_after: C,
        world_after: World<R>,
        out: T,
    ) -> bool {
        exists|ctx_mid: C, world_mid: World<R>, mid: Option<T>|
            #[trigger] self.prev.call_post(ctx, world, input, after.prev, ctx_mid, world_mid, mid)
                && match mid {
            Some(val) => after.default == self.default
                && ctx_after == ctx_mid
                && world_after == world_mid
                && out == val,
            None => after.default == self.default
                && ctx_after == ctx_mid
                && world_after == world_mid
                && cloned(self.default, out),
        }
    }

    fn call(&mut self, ctx: &mut C, world: &mut World<R>, input: In) -> (out: T) {
        let mid = self.prev.call(ctx, world, input);
        let ghost ctx_mid = *ctx;
        let ghost world_mid = *world;
        let out = match mid {
            Some(val) => val,
            None => self.default.clone(),
        };
        assert(old(self).prev.call_post(
            *old(ctx),
            *old(world),
            input,
            self.prev,
            ctx_mid,
            world_mid,
            mid,
        ));
        out
    }
}

/// Drops the error.
pub struct CtxOkNode<Prev, T, E> {
    pub prev: Prev,
    pub marker: PhantomData<(T, E)>,
}

impl<R, C, In, T, E, Prev> CtxChainCall<R, C, In> for CtxOkNode<Prev, T, E> where
    Prev: CtxChainCall<R, C, In, Out = Result<T, E>>,
{
    type Out = Option<T>;

    open spec fn call_pre(&self, ctx: C, world: World<R>, input: In) -> bool {
        self.prev.call_pre(ctx, world, input)
    }

    open spec fn call_post(
        &self,
        ctx: C,
        world: World<R>,
        input: In,
        after: Self,
        ctx_after: C,
        world_after: World<R>,
        out: Option<T>,
    ) -> bool {
        exists|ctx_mid: C, world_mid: World<R>, mid: Result<T, E>|
            #[trigger] self.prev.call_post(ctx, world, input, after.prev, ctx_mid, world_mid, mid)
                && match mid {
            Ok(val) => ctx_after == ctx_mid && world_after == world_mid && out == Some(val),
            Err(e) => ctx_after == ctx_mid && world_after == world_mid && out == None::<T>,
        }
    }

    fn call(&mut self, ctx: &mut C, world: &mut World<R>, input: In) -> (out: Option<T>) {
        let mid = self.prev.call(ctx, world, input);
        let ghost ctx_mid = *ctx;
        let ghost world_mid = *world;
        let out = match mid {
            Ok(val) => Some(val),
            Err(e) => None,
        };
        assert(old(self).prev.call_post(
            *old(ctx),
            *old(world),
            input,
            self.prev,
            ctx_mid,
            world_mid,
            mid,
        ));
        out
    }
}

/// Replaces an error by a default.
pub struct CtxUnwrapOrResultNode<Prev, T, E> {
    pub prev: Prev,
    pub default: T,
    pub marker: PhantomData<E>,
}

impl<R, C, In, T: Clone, E, Prev> CtxChainCall<R, C, In> for CtxUnwrapOrResultNode<Prev, T, E> where
    Prev: CtxChainCall<R, C, In, Out = Result<T, E>>,
{
    type Out = T;

    open spec fn call_pre(&self, ctx: C, world: World<R>, input: In) -> bool {
        self.prev.call_pre(ctx, world, input)
    }

    open spec fn call_post(
        &self,
        ctx: C,
        world: World<R>,
        input: In,
        after: Self,
        ctx_after: C,
        world_after: World<R>,
        out: T,
    ) -> bool {
        exists|ctx_mid: C, world_mid: World<R>, mid: Result<T, E>|
            #[trigger] self.prev.call_post(ctx, world, input, after.prev, ctx_mid, world_mid, mid)
                && match mid {
            Ok(val) => after.default == self.default
                && ctx_after == ctx_mid
                && world_after == world_mid
                && out == val,
            Err(e) => after.default == self.default
                && ctx_after == ctx_mid
                && world_after == world_mid
                && cloned(self.default, out),
        }
    }

    fn call(&mut self, ctx: &mut C, world: &mut World<R>, input: In) -> (out: T) {
        let mid = self.prev.call(ctx, world, input);
        let ghost ctx_mid = *ctx;
        let ghost world_mid = *world;
        let out = match mid {
            Ok(val) => val,
            Err(e) => self.default.clone(),
        };
        assert(old(self).prev.call_post(
            *old(ctx),
            *old(world),
            input,
            self.prev,
            ctx_mid,
            world_mid,
            mid,
        ));
        out
    }
}

/// Shows the value to a step that gives the next one.
pub struct CtxDagThenNode<Prev, S, NewOut> {
    pub prev: Prev,
    pub step: S,
    pub marker: PhantomData<NewOut>,
}

impl<R, C, In, T, Prev, S, NewOut> CtxChainCall<R, C, In> for CtxDagThenNode<Prev, S, NewOut> where
    Prev: CtxChainCall<R, C, In, Out = T>,
    S: for<'a> CtxStepCall<R, C, &'a T, Out = NewOut>,
{
    type Out = NewOut;

    open spec fn call_pre(&self, ctx: C, world: World<R>, input: In) -> bool {
        &&& self.prev.call_pre(ctx, world, input)
        &&& forall|prev: Prev, ctx_mid: C, world_mid: World<R>, mid: T|
            #[trigger] self.prev.call_post(ctx, world, input, prev, ctx_mid, world_mid, mid)
                ==> self.step.call_pre(ctx_mid, world_mid, &mid)
    }

    open spec fn call_post(
        &self,
        ctx: C,
        world: World<R>,
        input: In,
        after: Self,
        ctx_after: C,
        world_after: World<R>,
        out: NewOut,
    ) -> bool {
        exists|ctx_mid: C, world_mid: World<R>, mid: T|
            #[trigger] self.prev.call_post(ctx, world, input, after.prev, ctx_mid, world_mid, mid)
                && self.step.call_post(
                    ctx_mid,
                    world_mid,
                    &mid,
                    after.step,
                    ctx_after,
                    world_after,
                    out,
                )
    }

    fn call(&mut self, ctx: &mut C, world: &mut World<R>, input: In) -> (out: NewOut) {
        let mid = self.prev.call(ctx, world, input);
        let ghost ctx_mid = *ctx;
        let ghost world_mid = *world;
        let out = self.step.call(ctx, world, &mid);
        assert(old(self).prev.call_post(
            *old(ctx),
            *old(world),
            input,
            self.prev,
            ctx_mid,
            world_mid,
            mid,
        ));
        out
    }
}

/// Shows the value inside `Some` to a step.
pub struct CtxDagMapOptionNode<Prev, S, T, U> {
    pub prev: Prev,
    pub step: S,
    pub marker: PhantomData<(T, U)>,
}

impl<R, C, In, T, U, Prev, S> CtxChainCall<R, C, In> for CtxDagMapOptionNode<Prev, S, T, U> where
    Prev: CtxChainCall<R, C, In, Out = Option<T>>,
    S: for<'a> CtxStepCall<R, C, &'a T, Out = U>,
{
    type Out = Option<U>;

    open spec fn call_pre(&self, ctx: C, world: World<R>, input: In) -> bool {
        &&& self.prev.call_pre(ctx, world, input)
        &&& forall|prev: Prev, ctx_mid: C, world_mid: World<R>, mid: Option<T>|
            #[trigger] self.prev.call_post(ctx, world, input, prev, ctx_mid, world_mid, mid)
                ==> match mid {
            Some(val) => self.step.call_pre(ctx_mid, world_mid, &val),
            None => true,
        }
    }

    open spec fn call_post(
        &self,
        ctx: C,
        world: World<R>,
        input: In,
        after: Self,
        ctx_after: C,
        world_after: World<R>,
        out: Option<U>,
    ) -> bool {
        exists|ctx_mid: C, world_mid: World<R>, mid: Option<T>|
            #[trigger] self.prev.call_post(ctx, world, input, after.prev, ctx_mid, world_mid, mid)
                && match mid {
            Some(val) => exists|res: U|
                #[trigger] self.step.call_post(
                    ctx_mid,
                    world_mid,
                    &val,
                    after.step,
                    ctx_after,
                    world_after,
                    res,
                )
                    && out == Some(res),
            None => after.step == self.step
                && ctx_after == ctx_mid
                && world_after == world_mid
                && out == None::<U>,
        }
    }

    fn call(&mut self, ctx: &mut C, world: &mut World<R>, input: In) -> (out: Option<U>) {
        let mid = self.prev.call(ctx, world, input);
        let ghost ctx_mid = *ctx;
        let ghost world_mid = *world;
        let out = match mid {
            Some(val) => {
                let res = self.step.call(ctx, world, &val);
                assert(old(self).step.call_post(
                    ctx_mid,
                    world_mid,
                    &val,
                    self.step,
                    *ctx,
                    *world,
                    res,
                ));
                Some(res)
            },
            None => None,
        };
        assert(old(self).prev.call_post(
            *old(ctx),
            *old(world),
            input,
            self.prev,
            ctx_mid,
            world_mid,
            mid,
        ));
        out
    }
}

/// Shows the value inside `Some` to a step that may itself give `None`.
pub struct CtxDagAndThenOptionNode<Prev, S, T, U> {
    pub prev: Prev,
    pub step: S,
    pub marker: PhantomData<(T, U)>,
}

impl<
    R,
    C,
    In,
    T,
    U,
    Prev,
    S,
> CtxChainCall<R, C, In> for CtxDagAndThenOptionNode<Prev, S, T, U> where
    Prev: CtxChainCall<R, C, In, Out = Option<T>>,
    S: for<'a> CtxStepCall<R, C, &'a T, Out = Option<U>>,
{
    type Out = Option<U>;

    open spec fn call_pre(&self, ctx: C, world: World<R>, input: In) -> bool {
        &&& self.prev.call_pre(ctx, world, input)
        &&& forall|prev: Prev, ctx_mid: C, world_mid: World<R>, mid: Option<T>|
            #[trigger] self.prev.call_post(ctx, world, input, prev, ctx_mid, world_mid, mid)
                ==> match mid {
            Some(val) => self.step.call_pre(ctx_mid, world_mid, &val),
            None => true,
        }
    }

    open spec fn call_post(
        &self,
        ctx: C,
        world: World<R>,
        input: In,
        after: Self,
        ctx_after: C,
        world_after: World<R>,
        out: Option<U>,
    ) -> bool {
        exists|ctx_mid: C, world_mid: World<R>, mid: Option<T>|
            #[trigger] self.prev.call_post(ctx, world, input, after.prev, ctx_mid, world_mid, mid)
                && match mid {
            Some(val) => self.step.call_post(
                ctx_mid,
                world_mid,
                &val,
                after.step,
                ctx_after,
                world_after,
                out,
            ),
            None => after.step == self.step
                && ctx_after == ctx_mid
                && world_after == world_mid
                && out == None::<U>,
        }
    }

    fn call(&mut self, ctx: &mut C, world: &mut World<R>, input: In) -> (out: Option<U>) {
        let mid = self.prev.call(ctx, world, input);
        let ghost ctx_mid = *ctx;
        let ghost world_mid = *world;
        let out = match mid {
            Some(val) => self.step.call(ctx, world, &val),
            None => None,
        };
        assert(old(self).prev.call_post(
            *old(ctx),
            *old(world),
            input,
            self.prev,
            ctx_mid,
            world_mid,
            mid,
        ));
        out
    }
}

/// Shows the value inside `Ok` to a step.
pub struct CtxDagMapResultNode<Prev, S, T, E, U> {
    pub prev: Prev,
    pub step: S,
    pub marker: PhantomData<(T, E, U)>,
}

impl<
    R,
    C,
    In,
    T,
    E,
    U,
    Prev,
    S,
> CtxChainCall<R, C, In> for CtxDagMapResultNode<Prev, S, T, E, U> where
    Prev: CtxChainCall<R, C, In, Out = Result<T, E>>,
    S: for<'a> CtxStepCall<R, C, &'a T, Out = U>,
{
    type Out = Result<U, E>;

    open spec fn call_pre(&self, ctx: C, world: World<R>, input: In) -> bool {
        &&& self.prev.call_pre(ctx, world, input)
        &&& forall|prev: Prev, ctx_mid: C, world_mid: World<R>, mid: Result<T, E>|
            #[trigger] self.prev.call_post(ctx, world, input, prev, ctx_mid, world_mid, mid)
                ==> match mid {
            Ok(val) => self.step.call_pre(ctx_mid, world_mid, &val),
            Err(e) => true,
        }
    }

    open spec fn call_post(
        &self,
        ctx: C,
        world: World<R>,
        input: In,
        after: Self,
        ctx_after: C,
        world_after: World<R>,
        out: Result<U, E>,
    ) -> bool {
        exists|ctx_mid: C, world_mid: World<R>, mid: Result<T, E>|
            #[trigger] self.prev.call_post(ctx, world, input, after.prev, ctx_mid, world_mid, mid)
                && match mid {
            Ok(val) => exists|res: U|
                #[trigger] self.step.call_post(
                    ctx_mid,
                    world_mid,
                    &val,
                    after.step,
                    ctx_after,
                    world_after,
                    res,
                )
                    && out == Ok::<U, E>(res),
            Err(e) => after.step == self.step
                && ctx_after == ctx_mid
                && world_after == world_mid
                && out == Err::<U, E>(e),
        }
    }

    fn call(&mut self, ctx: &mut C, world: &mut World<R>, input: In) -> (out: Result<U, E>) {
        let mid = self.prev.call(ctx, world, input);
        let ghost ctx_mid = *ctx;
        let ghost world_mid = *world;
        let out = match mid {
            Ok(val) => {
                let res = self.step.call(ctx, world, &val);
                assert(old(self).step.call_post(
                    ctx_mid,
                    world_mid,
                    &val,
                    self.step,
                    *ctx,
                    *world,
                    res,
                ));
                Ok(res)
            },
            Err(e) => Err(e),
        };
        assert(old(self).prev.call_post(
            *old(ctx),
            *old(world),
            input,
            self.prev,
            ctx_mid,
            world_mid,
            mid,
        ));
        out
    }
}

/// Shows the value inside `Ok` to a step that may itself fail.
pub struct CtxDagAndThenResultNode<Prev, S, T, E, U> {
    pub prev: Prev,
    pub step: S,
    pub marker: PhantomData<(T, E, U)>,
}

impl<
    R,
    C,
    In,
    T,
    E,
    U,
    Prev,
    S,
> CtxChainCall<R, C, In> for CtxDagAndThenResultNode<Prev, S, T, E, U> where
    Prev: CtxChainCall<R, C, In, Out = Result<T, E>>,
    S: for<'a> CtxStepCall<R, C, &'a T, Out = Result<U, E>>,
{
    type Out = Result<U, E>;

    open spec fn call_pre(&self, ctx: C, world: World<R>, input: In) -> bool {
        &&& self.prev.call_pre(ctx, world, input)
        &&& forall|prev: Prev, ctx_mid: C, world_mid: World<R>, mid: Result<T, E>|
            #[trigger] self.prev.call_post(ctx, world, input, prev, ctx_mid, world_mid, mid)
                ==> match mid {
            Ok(val) => self.step.call_pre(ctx_mid, world_mid, &val),
            Err(e) => true,
        }
    }

    open spec fn call_post(
        &self,
        ctx: C,
        world: World<R>,
        input: In,
        after: Self,
        ctx_after: C,
        world_after: World<R>,
        out: Result<U, E>,
    ) -> bool {
        exists|ctx_mid: C, world_mid: World<R>, mid: Result<T, E>|
            #[trigger] self.prev.call_post(ctx, world, input, after.prev, ctx_mid, world_mid, mid)
                && match mid {
            Ok(val) => self.step.call_post(
                ctx_mid,
                world_mid,
                &val,
                after.step,
                ctx_after,
                world_after,
                out,
            ),
            Err(e) => after.step == self.step
                && ctx_after == ctx_mid
                && world_after == world_mid
                && out == Err::<U, E>(e),
        }
    }

    fn call(&mut self, ctx: &mut C, world: &mut World<R>, input: In) -> (out: Result<U, E>) {
        let mid = self.prev.call(ctx, world, input);
        let ghost ctx_mid = *ctx;
        let ghost world_mid = *world;
        let out = match mid {
            Ok(val) => self.step.call(ctx, world, &val),
            Err(e) => Err(e),
        };
        assert(old(self).prev.call_post(
            *old(ctx),
            *old(world),
            input,
            self.prev,
            ctx_mid,
            world_mid,
            mid,
        ));
        out
    }
}

/// Shows the error to a step and drops it.
pub struct CtxDagCatchNode<Prev, S, T, E> {
    pub prev: Prev,
    pub step: S,
    pub marker: PhantomData<(T, E)>,
}

impl<R, C, In, T, E, Prev, S> CtxChainCall<R, C, In> for CtxDagCatchNode<Prev, S, T, E> where
    Prev: CtxChainCall<R, C, In, Out = Result<T, E>>,
    S: for<'a> CtxStepCall<R, C, &'a E, Out = ()>,
{
    type Out = Option<T>;

    open spec fn call_pre(&self, ctx: C, world: World<R>, input: In) -> bool {
        &&& self.prev.call_pre(ctx, world, input)
        &&& forall|prev: Prev, ctx_mid: C, world_mid: World<R>, mid: Result<T, E>|
            #[trigger] self.prev.call_post(ctx, world, input, prev, ctx_mid, world_mid, mid)
                ==> match mid {
            Ok(val) => true,
            Err(e) => self.step.call_pre(ctx_mid, world_mid, &e),
        }
    }

    open spec fn call_post(
        &self,
        ctx: C,
        world: World<R>,
        input: In,
        after: Self,
        ctx_after: C,
        world_after: World<R>,
        out: Option<T>,
    ) -> bool {
        exists|ctx_mid: C, world_mid: World<R>, mid: Result<T, E>|
            #[trigger] self.prev.call_post(ctx, world, input, after.prev, ctx_mid, world_mid, mid)
                && match mid {
            Ok(val) => after.step == self.step
                && ctx_after == ctx_mid
                && world_after == world_mid
                && out == Some(val),
            Err(e) => self.step.call_post(
                ctx_mid,
                world_mid,
                &e,
                after.step,
                ctx_after,
                world_after,
                (),
            )
                && out == None::<T>,
        }
    }

    fn call(&mut self, ctx: &mut C, world: &mut World<R>, input: In) -> (out: Option<T>) {
        let mid = self.prev.call(ctx, world, input);
        let ghost ctx_mid = *ctx;
        let ghost world_mid = *world;
        let out = match mid {
            Ok(val) => Some(val),
            Err(e) => {
                self.step.call(ctx, world, &e);
                None
            },
        };
        assert(old(self).prev.call_post(
            *old(ctx),
            *old(world),
            input,
            self.prev,
            ctx_mid,
            world_mid,
            mid,
        ));
        out
    }
}

/// A tap hands the value on as it is, after it was shown to the step.
pub proof fn lemma_ctx_tap<
    R,
    C,
    In,
    T,
    Prev: CtxChainCall<R, C, In, Out = T>,
    S: CtxRefStepCall<R, C, T, Out = ()>,
>(
    node: CtxTapNode<Prev, S>,
    ctx: C,
    world: World<R>,
    input: In,
    after: CtxTapNode<Prev, S>,
    ctx_after: C,
    world_after: World<R>,
    out: T,
)
    requires
        node.call_post(ctx, world, input, after, ctx_after, world_after, out),
    ensures
        exists|ctx_mid: C, world_mid: World<R>|
            #[trigger] node.prev.call_post(ctx, world, input, after.prev, ctx_mid, world_mid, out)
                && node.step.call_post(
                    ctx_mid,
                    world_mid,
                    &out,
                    after.step,
                    ctx_after,
                    world_after,
                    (),
                ),
{
}

/// A guard keeps the value, unchanged, exactly where the predicate holds of it.
pub proof fn lemma_ctx_guard<
    R,
    C,
    In,
    T,
    Prev: CtxChainCall<R, C, In, Out = T>,
    S: CtxRefStepCall<R, C, T, Out = bool>,
>(
    node: CtxGuardNode<Prev, S>,
    ctx: C,
    world: World<R>,
    input: In,
    after: CtxGuardNode<Prev, S>,
    ctx_after: C,
    world_after: World<R>,
    out: Option<T>,
)
    requires
        node.call_post(ctx, world, input, after, ctx_after, world_after, out),
    ensures
        match out {
            Some(val) => exists|ctx_mid: C, world_mid: World<R>|
                #[trigger] node.prev.call_post(
                    ctx,
                    world,
                    input,
                    after.prev,
                    ctx_mid,
                    world_mid,
                    val,
                )
                    && node.step.call_post(
                        ctx_mid,
                        world_mid,
                        &val,
                        after.step,
                        ctx_after,
                        world_after,
                        true,
                    ),
            None => exists|ctx_mid: C, world_mid: World<R>, val: T|
                #[trigger] node.prev.call_post(
                    ctx,
                    world,
                    input,
                    after.prev,
                    ctx_mid,
                    world_mid,
                    val,
                )
                    && node.step.call_post(
                        ctx_mid,
                        world_mid,
                        &val,
                        after.step,
                        ctx_after,
                        world_after,
                        false,
                    ),
        },
{
    let (ctx_mid, world_mid, mid) = choose|ctx_mid: C, world_mid: World<R>, mid: T|
        #[trigger] node.prev.call_post(ctx, world, input, after.prev, ctx_mid, world_mid, mid)
            && exists|res: bool|
            #[trigger] node.step.call_post(
                ctx_mid,
                world_mid,
                &mid,
                after.step,
                ctx_after,
                world_after,
                res,
            )
                && out == (if res {
                Some(mid)
            } else {
                None
            });
    assert(node.prev.call_post(ctx, world, input, after.prev, ctx_mid, world_mid, mid));
    assert(out is Some ==> out->0 == mid);
}

/// Where the chain before it gives `None`, the step is not called, and `None` is handed on.
pub proof fn lemma_ctx_map_none<
    R,
    C,
    In,
    T,
    U,
    Prev: CtxChainCall<R, C, In, Out = Option<T>>,
    S: CtxStepCall<R, C, T, Out = U>,
>(
    node: CtxMapOptionNode<Prev, S, T>,
    ctx: C,
    world: World<R>,
    input: In,
    after: CtxMapOptionNode<Prev, S, T>,
    ctx_after: C,
    world_after: World<R>,
    out: Option<U>,
)
    requires
        node.call_post(ctx, world, input, after, ctx_after, world_after, out),
        forall|prev: Prev, ctx_mid: C, world_mid: World<R>, val: T|
            !#[trigger] node.prev.call_post(ctx, world, input, prev, ctx_mid, world_mid, Some(val)),
    ensures
        out is None,
        after.step == node.step,
        node.prev.call_post(ctx, world, input, after.prev, ctx_after, world_after, None::<T>),
{
}

/// Where the chain before it gives `None`, the step is not called, and `None` is handed on.
pub proof fn lemma_ctx_and_then_none<
    R,
    C,
    In,
    T,
    U,
    Prev: CtxChainCall<R, C, In, Out = Option<T>>,
    S: CtxStepCall<R, C, T, Out = Option<U>>,
>(
    node: CtxAndThenNode<Prev, S, T, U>,
    ctx: C,
    world: World<R>,
    input: In,
    after: CtxAndThenNode<Prev, S, T, U>,
    ctx_after: C,
    world_after: World<R>,
    out: Option<U>,
)
    requires
        node.call_post(ctx, world, input, after, ctx_after, world_after, out),
        forall|prev: Prev, ctx_mid: C, world_mid: World<R>, val: T|
            !#[trigger] node.prev.call_post(ctx, world, input, prev, ctx_mid, world_mid, Some(val)),
    ensures
        out is None,
        after.step == node.step,
        node.prev.call_post(ctx, world, input, after.prev, ctx_after, world_after, None::<T>),
{
}

/// A filter keeps the value, unchanged, or drops it. It is not called on `None`.
pub proof fn lemma_ctx_filter<
    R,
    C,
    In,
    T,
    Prev: CtxChainCall<R, C, In, Out = Option<T>>,
    S: CtxRefStepCall<R, C, T, Out = bool>,
>(
    node: CtxFilterNode<Prev, S, T>,
    ctx: C,
    world: World<R>,
    input: In,
    after: CtxFilterNode<Prev, S, T>,
    ctx_after: C,
    world_after: World<R>,
    out: Option<T>,
)
    requires
        node.call_post(ctx, world, input, after, ctx_after, world_after, out),
    ensures
        match out {
            Some(val) => exists|ctx_mid: C, world_mid: World<R>|
                #[trigger] node.prev.call_post(
                    ctx,
                    world,
                    input,
                    after.prev,
                    ctx_mid,
                    world_mid,
                    Some(val),
                )
                    && node.step.call_post(
                        ctx_mid,
                        world_mid,
                        &val,
                        after.step,
                        ctx_after,
                        world_after,
                        true,
                    ),
            None => (after.step == node.step && node.prev.call_post(
                ctx,
                world,
                input,
                after.prev,
                ctx_after,
                world_after,
                None::<T>,
            )) || exists|ctx_mid: C, world_mid: World<R>, val: T|
                #[trigger] node.prev.call_post(
                    ctx,
                    world,
                    input,
                    after.prev,
                    ctx_mid,
                    world_mid,
                    Some(val),
                )
                    && node.step.call_post(
                        ctx_mid,
                        world_mid,
                        &val,
                        after.step,
                        ctx_after,
                        world_after,
                        false,
                    ),
        },
{
}

/// Inspecting hands the value on as it is.
pub proof fn lemma_ctx_inspect_option<
    R,
    C,
    In,
    T,
    Prev: CtxChainCall<R, C, In, Out = Option<T>>,
    S: CtxRefStepCall<R, C, T, Out = ()>,
>(
    node: CtxInspectOptionNode<Prev, S, T>,
    ctx: C,
    world: World<R>,
    input: In,
    after: CtxInspectOptionNode<Prev, S, T>,
    ctx_after: C,
    world_after: World<R>,
    out: Option<T>,
)
    requires
        node.call_post(ctx, world, input, after, ctx_after, world_after, out),
    ensures
        exists|ctx_mid: C, world_mid: World<R>| #[trigger] node.prev.call_post(
            ctx,
            world,
            input,
            after.prev,
            ctx_mid,
            world_mid,
            out,
        ),
        out is None ==> after.step == node.step,
{
}

/// What the producer does on `None` leaves the value as it is, and it is called on `None` alone.
pub proof fn lemma_ctx_on_none<
    R,
    C,
    In,
    T,
    Prev: CtxChainCall<R, C, In, Out = Option<T>>,
    S: CtxProducerCall<R, C, Out = ()>,
>(
    node: CtxOnNoneNode<Prev, S, T>,
    ctx: C,
    world: World<R>,
    input: In,
    after: CtxOnNoneNode<Prev, S, T>,
    ctx_after: C,
    world_after: World<R>,
    out: Option<T>,
)
    requires
        node.call_post(ctx, world, input, after, ctx_after, world_after, out),
    ensures
        exists|ctx_mid: C, world_mid: World<R>| #[trigger] node.prev.call_post(
            ctx,
            world,
            input,
            after.prev,
            ctx_mid,
            world_mid,
            out,
        ),
        out is Some ==> after.producer == node.producer,
{
}

/// Where the chain before it gives an error, the step is not called, and the error is handed on.
pub proof fn lemma_ctx_map_result_err<
    R,
    C,
    In,
    T,
    E,
    U,
    Prev: CtxChainCall<R, C, In, Out = Result<T, E>>,
    S: CtxStepCall<R, C, T, Out = U>,
>(
    node: CtxMapResultNode<Prev, S, T, E>,
    ctx: C,
    world: World<R>,
    input: In,
    after: CtxMapResultNode<Prev, S, T, E>,
    ctx_after: C,
    world_after: World<R>,
    out: Result<U, E>,
)
    requires
        node.call_post(ctx, world, input, after, ctx_after, world_after, out),
        forall|prev: Prev, ctx_mid: C, world_mid: World<R>, val: T|
            !#[trigger] node.prev.call_post(ctx, world, input, prev, ctx_mid, world_mid, Ok(val)),
    ensures
        out is Err,
        after.step == node.step,
        node.prev.call_post(
            ctx,
            world,
            input,
            after.prev,
            ctx_after,
            world_after,
            Err::<T, E>(out->Err_0),
        ),
{
}

/// Where the chain before it gives an error, the step is not called, and the error is handed on.
pub proof fn lemma_ctx_and_then_err<
    R,
    C,
    In,
    T,
    E,
    U,
    Prev: CtxChainCall<R, C, In, Out = Result<T, E>>,
    S: CtxStepCall<R, C, T, Out = Result<U, E>>,
>(
    node: CtxAndThenResultNode<Prev, S, T, E, U>,
    ctx: C,
    world: World<R>,
    input: In,
    after: CtxAndThenResultNode<Prev, S, T, E, U>,
    ctx_after: C,
    world_after: World<R>,
    out: Result<U, E>,
)
    requires
        node.call_post(ctx, world, input, after, ctx_after, world_after, out),
        forall|prev: Prev, ctx_mid: C, world_mid: World<R>, val: T|
            !#[trigger] node.prev.call_post(ctx, world, input, prev, ctx_mid, world_mid, Ok(val)),
    ensures
        out is Err,
        after.step == node.step,
        node.prev.call_post(
            ctx,
            world,
            input,
            after.prev,
            ctx_after,
            world_after,
            Err::<T, E>(out->Err_0),
        ),
{
}

/// After a catch there is no error: a value is handed on as it is, and an error goes to the step.
pub proof fn lemma_ctx_catch<
    R,
    C,
    In,
    T,
    E,
    Prev: CtxChainCall<R, C, In, Out = Result<T, E>>,
    S: CtxStepCall<R, C, E, Out = ()>,
>(
    node: CtxCatchNode<Prev, S, T, E>,
    ctx: C,
    world: World<R>,
    input: In,
    after: CtxCatchNode<Prev, S, T, E>,
    ctx_after: C,
    world_after: World<R>,
    out: Option<T>,
)
    requires
        node.call_post(ctx, world, input, after, ctx_after, world_after, out),
    ensures
        match out {
            Some(val) => after.step == node.step
                && node.prev.call_post(
                    ctx,
                    world,
                    input,
                    after.prev,
                    ctx_after,
                    world_after,
                    Ok::<T, E>(val),
                ),
            None => exists|ctx_mid: C, world_mid: World<R>, e: E|
                #[trigger] node.prev.call_post(
                    ctx,
                    world,
                    input,
                    after.prev,
                    ctx_mid,
                    world_mid,
                    Err::<T, E>(e),
                )
                    && node.step.call_post(
                        ctx_mid,
                        world_mid,
                        e,
                        after.step,
                        ctx_after,
                        world_after,
                        (),
                    ),
        },
{
}

/// Inspecting the error hands the result on as it is.
pub proof fn lemma_ctx_inspect_err<
    R,
    C,
    In,
    T,
    E,
    Prev: CtxChainCall<R, C, In, Out = Result<T, E>>,
    S: CtxRefStepCall<R, C, E, Out = ()>,
>(
    node: CtxInspectErrNode<Prev, S, T, E>,
    ctx: C,
    world: World<R>,
    input: In,
    after: CtxInspectErrNode<Prev, S, T, E>,
    ctx_after: C,
    world_after: World<R>,
    out: Result<T, E>,
)
    requires
        node.call_post(ctx, world, input, after, ctx_after, world_after, out),
    ensures
        exists|ctx_mid: C, world_mid: World<R>| #[trigger] node.prev.call_post(
            ctx,
            world,
            input,
            after.prev,
            ctx_mid,
            world_mid,
            out,
        ),
        out is Ok ==> after.step == node.step,
{
}

/// Inspecting the value hands the result on as it is.
pub proof fn lemma_ctx_inspect_result<
    R,
    C,
    In,
    T,
    E,
    Prev: CtxChainCall<R, C, In, Out = Result<T, E>>,
    S: CtxRefStepCall<R, C, T, Out = ()>,
>(
    node: CtxInspectResultNode<Prev, S, T, E>,
    ctx: C,
    world: World<R>,
    input: In,
    after: CtxInspectResultNode<Prev, S, T, E>,
    ctx_after: C,
    world_after: World<R>,
    out: Result<T, E>,
)
    requires
        node.call_post(ctx, world, input, after, ctx_after, world_after, out),
    ensures
        exists|ctx_mid: C, world_mid: World<R>| #[trigger] node.prev.call_post(
            ctx,
            world,
            input,
            after.prev,
            ctx_mid,
            world_mid,
            out,
        ),
        out is Err ==> after.step == node.step,
{
}

/// Where the chain before it gives `None`, the step is not called, and `None` is handed on.
pub proof fn lemma_ctx_dag_map_none<
    R,
    C,
    In,
    T,
    U,
    Prev: CtxChainCall<R, C, In, Out = Option<T>>,
    S: for<'a> CtxStepCall<R, C, &'a T, Out = U>,
>(
    node: CtxDagMapOptionNode<Prev, S, T, U>,
    ctx: C,
    world: World<R>,
    input: In,
    after: CtxDagMapOptionNode<Prev, S, T, U>,
    ctx_after: C,
    world_after: World<R>,
    out: Option<U>,
)
    requires
        node.call_post(ctx, world, input, after, ctx_after, world_after, out),
        forall|prev: Prev, ctx_mid: C, world_mid: World<R>, val: T|
            !#[trigger] node.prev.call_post(ctx, world, input, prev, ctx_mid, world_mid, Some(val)),
    ensures
        out is None,
        after.step == node.step,
        node.prev.call_post(ctx, world, input, after.prev, ctx_after, world_after, None::<T>),
{
}

/// Where the chain before it gives `None`, the step is not called, and `None` is handed on.
pub proof fn lemma_ctx_dag_and_then_none<
    R,
    C,
    In,
    T,
    U,
    Prev: CtxChainCall<R, C, In, Out = Option<T>>,
    S: for<'a> CtxStepCall<R, C, &'a T, Out = Option<U>>,
>(
    node: CtxDagAndThenOptionNode<Prev, S, T, U>,
    ctx: C,
    world: World<R>,
    input: In,
    after: CtxDagAndThenOptionNode<Prev, S, T, U>,
    ctx_after: C,
    world_after: World<R>,
    out: Option<U>,
)
    requires
        node.call_post(ctx, world, input, after, ctx_after, world_after, out),
        forall|prev: Prev, ctx_mid: C, world_mid: World<R>, val: T|
            !#[trigger] node.prev.call_post(ctx, world, input, prev, ctx_mid, world_mid, Some(val)),
    ensures
        out is None,
        after.step == node.step,
        node.prev.call_post(ctx, world, input, after.prev, ctx_after, world_after, None::<T>),
{
}

/// Where the chain before it gives an error, the step is not called, and the error is handed on.
pub proof fn lemma_ctx_dag_map_result_err<
    R,
    C,
    In,
    T,
    E,
    U,
    Prev: CtxChainCall<R, C, In, Out = Result<T, E>>,
    S: for<'a> CtxStepCall<R, C, &'a T, Out = U>,
>(
    node: CtxDagMapResultNode<Prev, S, T, E, U>,
    ctx: C,
    world: World<R>,
    input: In,
    after: CtxDagMapResultNode<Prev, S, T, E, U>,
    ctx_after: C,
    world_after: World<R>,
    out: Result<U, E>,
)
    requires
        node.call_post(ctx, world, input, after, ctx_after, world_after, out),
        forall|prev: Prev, ctx_mid: C, world_mid: World<R>, val: T|
            !#[trigger] node.prev.call_post(ctx, world, input, prev, ctx_mid, world_mid, Ok(val)),
    ensures
        out is Err,
        after.step == node.step,
        node.prev.call_post(
            ctx,
            world,
            input,
            after.prev,
            ctx_after,
            world_after,
            Err::<T, E>(out->Err_0),
        ),
{
}

/// Where the chain before it gives an error, the step is not called, and the error is handed on.
pub proof fn lemma_ctx_dag_and_then_err<
    R,
    C,
    In,
    T,
    E,
    U,
    Prev: CtxChainCall<R, C, In, Out = Result<T, E>>,
    S: for<'a> CtxStepCall<R, C, &'a T, Out = Result<U, E>>,
>(
    node: CtxDagAndThenResultNode<Prev, S, T, E, U>,
    ctx: C,
    world: World<R>,
    input: In,
    after: CtxDagAndThenResultNode<Prev, S, T, E, U>,
    ctx_after: C,
    world_after: World<R>,
    out: Result<U, E>,
)
    requires
        node.call_post(ctx, world, input, after, ctx_after, world_after, out),
        forall|prev: Prev, ctx_mid: C, world_mid: World<R>, val: T|
            !#[trigger] node.prev.call_post(ctx, world, input, prev, ctx_mid, world_mid, Ok(val)),
    ensures
        out is Err,
        after.step == node.step,
        node.prev.call_post(
            ctx,
            world,
            input,
            after.prev,
            ctx_after,
            world_after,
            Err::<T, E>(out->Err_0),
        ),
{
}

/// After a catch there is no error: a value is handed on as it is, an error is shown to the step.
pub proof fn lemma_ctx_dag_catch<
    R,
    C,
    In,
    T,
    E,
    Prev: CtxChainCall<R, C, In, Out = Result<T, E>>,
    S: for<'a> CtxStepCall<R, C, &'a E, Out = ()>,
>(
    node: CtxDagCatchNode<Prev, S, T, E>,
    ctx: C,
    world: World<R>,
    input: In,
    after: CtxDagCatchNode<Prev, S, T, E>,
    ctx_after: C,
    world_after: World<R>,
    out: Option<T>,
)
    requires
        node.call_post(ctx, world, input, after, ctx_after, world_after, out),
    ensures
        match out {
            Some(val) => after.step == node.step
                && node.prev.call_post(
                    ctx,
                    world,
                    input,
                    after.prev,
                    ctx_after,
                    world_after,
                    Ok::<T, E>(val),
                ),
            None => exists|ctx_mid: C, world_mid: World<R>, e: E|
                #[trigger] node.prev.call_post(
                    ctx,
                    world,
                    input,
                    after.prev,
                    ctx_mid,
                    world_mid,
                    Err::<T, E>(e),
                )
                    && node.step.call_post(
                        ctx_mid,
                        world_mid,
                        &e,
                        after.step,
                        ctx_after,
                        world_after,
                        (),
                    ),
        },
{
}

/// Where the chain before it gives a value, the step is not called, and the value is handed on.
pub proof fn lemma_ctx_map_err_ok<
    R,
    C,
    In,
    T,
    E,
    E2,
    Prev: CtxChainCall<R, C, In, Out = Result<T, E>>,
    S: CtxStepCall<R, C, E, Out = E2>,
>(
    node: CtxMapErrNode<Prev, S, T, E>,
    ctx: C,
    world: World<R>,
    input: In,
    after: CtxMapErrNode<Prev, S, T, E>,
    ctx_after: C,
    world_after: World<R>,
    out: Result<T, E2>,
)
    requires
        node.call_post(ctx, world, input, after, ctx_after, world_after, out),
        forall|prev: Prev, ctx_mid: C, world_mid: World<R>, e: E|
            !#[trigger] node.prev.call_post(ctx, world, input, prev, ctx_mid, world_mid, Err(e)),
    ensures
        out is Ok,
        after.step == node.step,
        node.prev.call_post(
            ctx,
            world,
            input,
            after.prev,
            ctx_after,
            world_after,
            Ok::<T, E>(out->Ok_0),
        ),
{
}

/// Where the chain before it gives a value, the producer is not called, and the value is handed on.
pub proof fn lemma_ctx_unwrap_or_else_some<
    R,
    C,
    In,
    T,
    Prev: CtxChainCall<R, C, In, Out = Option<T>>,
    S: CtxProducerCall<R, C, Out = T>,
>(
    node: CtxUnwrapOrElseOptionNode<Prev, S, T>,
    ctx: C,
    world: World<R>,
    input: In,
    after: CtxUnwrapOrElseOptionNode<Prev, S, T>,
    ctx_after: C,
    world_after: World<R>,
    out: T,
)
    requires
        node.call_post(ctx, world, input, after, ctx_after, world_after, out),
        forall|prev: Prev, ctx_mid: C, world_mid: World<R>|
            !#[trigger] node.prev.call_post(ctx, world, input, prev, ctx_mid, world_mid, None::<T>),
    ensures
        after.producer == node.producer,
        node.prev.call_post(ctx, world, input, after.prev, ctx_after, world_after, Some(out)),
{
}

} // verus!
